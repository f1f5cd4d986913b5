use tg_menu_editor::export::{dec_string, generate_callback_data, slug_string};
use tg_menu_editor::render::GraphRenderer;
use tg_menu_editor::{
    DataImporter, MenuBar, NodeType, Parameter, ParameterType, ParameterValue, Point,
    SimpleNodeGraph, Tab, Tabs,
};

#[test]
fn number_coercion_keeps_numbers_and_degrades_text() {
    let mut p = Parameter::new(
        "count".to_string(),
        "Count".to_string(),
        ParameterType::Number,
        ParameterValue::Number("0".to_string()),
    );
    p.set_text_value("abc".to_string());
    assert_eq!(p.value, ParameterValue::Text("abc".to_string()));

    let mut q = Parameter::new(
        "count".to_string(),
        "Count".to_string(),
        ParameterType::Number,
        ParameterValue::Number("0".to_string()),
    );
    q.set_text_value("42".to_string());
    assert_eq!(q.value, ParameterValue::Number("42".to_string()));
    assert_eq!(q.get_text(), "42");
}

#[test]
fn boolean_coercion_is_strict() {
    let mut p = Parameter::new(
        "flag".to_string(),
        "Flag".to_string(),
        ParameterType::Boolean,
        ParameterValue::Boolean(false),
    );
    p.set_text_value("true".to_string());
    assert_eq!(p.value, ParameterValue::Boolean(true));
    p.set_text_value("TRUE".to_string());
    assert_eq!(p.value, ParameterValue::Text("TRUE".to_string()));
}

#[test]
fn select_coercion_checks_options() {
    let options = vec!["red".to_string(), "green".to_string()];
    let mut p = Parameter::new(
        "color".to_string(),
        "Color".to_string(),
        ParameterType::Select,
        ParameterValue::Select("red".to_string(), options.clone()),
    );
    p.set_text_value("green".to_string());
    assert_eq!(p.value, ParameterValue::Select("green".to_string(), options));
    p.set_text_value("blue".to_string());
    assert_eq!(p.value, ParameterValue::Text("blue".to_string()));
}

#[test]
fn set_text_follows_the_coercion_policy() {
    let mut p = Parameter::new(
        "count".to_string(),
        "Count".to_string(),
        ParameterType::Number,
        ParameterValue::Number("7".to_string()),
    );
    p.set_text("8".to_string());
    assert_eq!(p.value, ParameterValue::Number("8".to_string()));
    p.set_text("abc".to_string());
    assert_eq!(p.value, ParameterValue::Text("abc".to_string()));
}

#[test]
fn slugs_lowercase_strip_and_truncate() {
    assert_eq!(slug_string("Hello World!"), "hello_world");
    assert_eq!(slug_string("Главное меню"), "главное_меню");
    assert_eq!(generate_callback_data("Hello World!", 7), "hello_world");
    assert_eq!(generate_callback_data("!!!", 7), "item_7");
    let long = "a".repeat(70);
    assert_eq!(generate_callback_data(&long, 0).chars().count(), 64);
    assert_eq!(dec_string(12345), "12345");
    assert_eq!(dec_string(0), "0");
}

#[test]
fn export_reads_parameters_and_drops_url_less_documents() {
    let mut g = SimpleNodeGraph::new();
    let m = g.add_menu_item(Point { x: 0, y: 0 }, "Меню".to_string());
    g.set_node_param_text(m, "description", "о нас".to_string());
    let d1 = g.add_document(Point { x: 0, y: 0 }, "with url".to_string()).unwrap();
    g.set_node_param_text(d1, "url", "https://example.com/a.pdf".to_string());
    let d2 = g.add_document(Point { x: 0, y: 0 }, "without url".to_string()).unwrap();
    assert!(g.connect_nodes(m, "documents", d1, "parent_menu"));
    assert!(g.connect_nodes(m, "documents", d2, "parent_menu"));
    let doc = g.export_to_document();
    assert_eq!(doc.main_menu.len(), 1);
    let item = &doc.main_menu[0];
    assert_eq!(item.text, "Меню");
    assert_eq!(item.callback_data, "меню");
    assert_eq!(item.description.as_deref(), Some("о нас"));
    assert_eq!(item.url, None);
    assert_eq!(item.documents.len(), 1);
    assert_eq!(item.documents[0].text, "with url");
    assert_eq!(item.documents[0].url, "https://example.com/a.pdf");
}

#[test]
fn export_drops_answerless_faqs_and_splits_tags() {
    let mut g = SimpleNodeGraph::new();
    let f1 = g.add_faq_item(Point { x: 0, y: 0 }, "Вопрос?".to_string());
    g.set_node_param_text(f1, "answer", "Ответ".to_string());
    g.set_node_param_text(f1, "tags", "a, b ,, c".to_string());
    let _f2 = g.add_faq_item(Point { x: 0, y: 0 }, "Без ответа".to_string());
    let doc = g.export_to_document();
    assert_eq!(doc.faq.len(), 1);
    assert_eq!(doc.faq[0].question, "Вопрос?");
    assert_eq!(doc.faq[0].answer, "Ответ");
    assert_eq!(doc.faq[0].tags, vec!["a", "b", "c"]);
}

#[test]
fn import_export_round_trip_wraps_under_title_root() {
    let mut g = SimpleNodeGraph::new();
    let m = g.add_menu_item(Point { x: 0, y: 0 }, "Раздел".to_string());
    let c = g.add_menu_item(Point { x: 0, y: 0 }, "Кнопка".to_string());
    assert!(g.connect_nodes(m, "sub_menu", c, "parent_menu"));
    let f = g.add_faq_item(Point { x: 0, y: 0 }, "Как?".to_string());
    g.set_node_param_text(f, "answer", "Так".to_string());
    let first = g.export_to_document();

    let mut g2 = SimpleNodeGraph::new();
    DataImporter::import_document(&mut g2, &first);
    let second = g2.export_to_document();

    // The import creates one root node for the document title, so the first
    // export comes back nested one level under it, otherwise unchanged.
    assert_eq!(second.title, first.title);
    assert_eq!(second.main_menu.len(), 1);
    assert_eq!(second.main_menu[0].text, first.title);
    assert_eq!(second.main_menu[0].submenu, first.main_menu);
    assert_eq!(second.faq, first.faq);

    // A third export after re-importing the wrapped document keeps the same
    // shape: its items are already normal and survive verbatim.
    let mut g3 = SimpleNodeGraph::new();
    DataImporter::import_document(&mut g3, &second);
    let third = g3.export_to_document();
    assert_eq!(third.main_menu[0].submenu, second.main_menu);
    assert_eq!(third.faq, second.faq);
}

#[test]
fn import_is_one_undoable_step() {
    let mut g = SimpleNodeGraph::new();
    let m = g.add_menu_item(Point { x: 0, y: 0 }, "Раздел".to_string());
    g.set_node_param_text(m, "url", "https://example.com".to_string());
    let doc = g.export_to_document();

    let mut g2 = SimpleNodeGraph::new();
    DataImporter::import_document(&mut g2, &doc);
    assert_eq!(g2.nodes.len(), 2); // the title root and one item
    assert!(g2.undo());
    assert_eq!(g2.nodes.len(), 0);
}

#[test]
fn import_from_json_builds_graph() {
    let json = r#"{
        "title": "Меню бота",
        "main_menu": [
            {
                "text": "О нас",
                "callback_data": "about",
                "submenu": [{"text": "Контакты"}],
                "documents": [{"text": "Устав", "url": "https://example.com/u.pdf"}]
            }
        ],
        "faq": [{"question": "Как?", "answer": "Так", "tags": ["a", "b"]}]
    }"#;
    let mut g = SimpleNodeGraph::new();
    assert!(DataImporter::import_menu_data(&mut g, json).is_ok());
    let roots = g.get_root_menu_nodes();
    assert_eq!(roots.len(), 1);
    let root = g.get_node_data(roots[0]).unwrap();
    assert_eq!(root.get_title(), "Меню бота");
    let children = g.get_child_menu_nodes(roots[0]);
    assert_eq!(children.len(), 1);
    let about = g.get_node_data(children[0]).unwrap();
    assert_eq!(about.get_title(), "О нас");
    assert_eq!(g.get_child_menu_nodes(children[0]).len(), 1);
    assert_eq!(g.get_documents_for_node(children[0]).len(), 1);
    let doc = g.export_to_document();
    assert_eq!(doc.main_menu[0].submenu[0].callback_data, "about");
    assert_eq!(doc.faq[0].tags, vec!["a", "b"]);
}

#[test]
fn import_from_json_method_delegates() {
    let mut g = SimpleNodeGraph::new();
    assert!(g.import_from_json(r#"{"title": "t"}"#).is_ok());
    assert_eq!(g.get_root_menu_nodes().len(), 1);
    assert!(g.import_from_json("{").is_err());
}

#[test]
fn malformed_json_fails_and_leaves_graph_untouched() {
    let mut g = SimpleNodeGraph::new();
    g.add_menu_item(Point { x: 0, y: 0 }, "a".to_string());
    let before = g.nodes.clone();
    let r = DataImporter::import_menu_data(&mut g, "this is not json");
    assert!(r.is_err());
    assert!(r.unwrap_err().starts_with("Error parsing JSON: "));
    assert_eq!(g.nodes, before);
    let r2 = DataImporter::import_menu_data(&mut g, "[1, 2, 3]");
    assert_eq!(r2.unwrap_err(), "Import data must be a JSON object");
    assert_eq!(g.nodes, before);
    // Success is owed on every well-formed JSON object, however bare.
    assert!(DataImporter::import_menu_data(&mut g, "{}").is_ok());
    assert!(DataImporter::import_menu_data(&mut g, r#"{"unknown": 3}"#).is_ok());
}

#[test]
fn custom_data_fragment_round_trips() {
    let json = r#"{"title": "t", "main_menu": [{"text": "x", "data": {"k": 1}}]}"#;
    let mut g = SimpleNodeGraph::new();
    assert!(DataImporter::import_menu_data(&mut g, json).is_ok());
    let doc = g.export_to_document();
    assert_eq!(doc.main_menu[0].submenu[0].data.as_deref(), Some(r#"{"k":1}"#));
}

#[test]
fn port_positions_follow_node_rect_and_index() {
    let node = tg_menu_editor::GraphOperations::create_menu_item(
        0,
        "T".to_string(),
        Point { x: 10, y: 20 },
    );
    assert_eq!(
        GraphRenderer::get_port_position(&node, "parent_menu", true),
        Some(Point { x: 10, y: 65 })
    );
    assert_eq!(
        GraphRenderer::get_port_position(&node, "sub_menu", false),
        Some(Point { x: 190, y: 65 })
    );
    assert_eq!(
        GraphRenderer::get_port_position(&node, "documents", false),
        Some(Point { x: 190, y: 90 })
    );
    assert_eq!(GraphRenderer::get_port_position(&node, "nope", true), None);
}

#[test]
fn node_type_text_matches() {
    assert_eq!(NodeType::MenuItem.as_str(), "MenuItem");
    assert_eq!(NodeType::FaqItem.as_str(), "FaqItem");
    assert_eq!(NodeType::Document.as_str(), "document");
}

#[test]
fn tabs_switch_and_report() {
    let mut tabs = Tabs::new();
    assert_eq!(*tabs.get_current_tab(), Tab::Editor);
    tabs.set_tab(Tab::Export);
    assert_eq!(*tabs.get_current_tab(), Tab::Export);
    let bar = MenuBar::new("workflow-1".to_string(), true);
    assert_eq!(bar.workflow_id, "workflow-1");
    assert!(bar.dirty);
}
