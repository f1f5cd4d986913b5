use tg_menu_editor::{GraphOperations, GraphSnapshot, HistoryManager, Node, NodeType, Point, PortType, SimpleNodeGraph};

#[test]
fn concrete_scenario_two_menus() {
    let mut g = SimpleNodeGraph::new();
    let a = g.add_menu_item(Point { x: 0, y: 0 }, "Главное меню".to_string());
    assert_eq!(a, 0);
    let b = g.add_menu_item(Point { x: 100, y: 0 }, "Sub".to_string());
    assert_eq!(b, 1);
    assert!(g.connect_nodes(0, "sub_menu", 1, "parent_menu"));
    assert_eq!(g.get_root_menu_nodes(), vec![0]);
    assert_eq!(g.get_child_menu_nodes(0), vec![1]);
    let doc = g.export_to_document();
    assert_eq!(doc.main_menu.len(), 1);
    assert_eq!(doc.main_menu[0].text, "Главное меню");
    assert_eq!(doc.main_menu[0].submenu.len(), 1);
    assert_eq!(doc.main_menu[0].submenu[0].text, "Sub");
}

#[test]
fn ids_are_never_reused() {
    let mut g = SimpleNodeGraph::new();
    let a = g.add_menu_item(Point { x: 0, y: 0 }, "a".to_string());
    let b = g.add_menu_item(Point { x: 0, y: 0 }, "b".to_string());
    assert_eq!((a, b), (0, 1));
    g.delete_node(b);
    let c = g.add_menu_item(Point { x: 0, y: 0 }, "c".to_string());
    assert_eq!(c, 2);
    g.delete_node(a);
    let d = g.add_faq_item(Point { x: 0, y: 0 }, "d".to_string());
    assert_eq!(d, 3);
    let ids: Vec<usize> = g.nodes.iter().map(|n| n.id).collect();
    assert_eq!(ids, vec![2, 3]);
}

#[test]
fn connect_rejects_self_loop() {
    let mut g = SimpleNodeGraph::new();
    let a = g.add_menu_item(Point { x: 0, y: 0 }, "a".to_string());
    assert!(!g.connect_nodes(a, "sub_menu", a, "parent_menu"));
    assert_eq!(g.connections.len(), 0);
}

#[test]
fn connect_rejects_exact_duplicate() {
    let mut g = SimpleNodeGraph::new();
    let a = g.add_menu_item(Point { x: 0, y: 0 }, "a".to_string());
    let b = g.add_menu_item(Point { x: 0, y: 0 }, "b".to_string());
    assert!(g.connect_nodes(a, "sub_menu", b, "parent_menu"));
    assert!(!g.connect_nodes(a, "sub_menu", b, "parent_menu"));
    assert_eq!(g.connections.len(), 1);
}

#[test]
fn connect_rejects_missing_nodes_and_ports() {
    let mut g = SimpleNodeGraph::new();
    let a = g.add_menu_item(Point { x: 0, y: 0 }, "a".to_string());
    let b = g.add_menu_item(Point { x: 0, y: 0 }, "b".to_string());
    assert!(!g.connect_nodes(a, "sub_menu", 99, "parent_menu"));
    assert!(!g.connect_nodes(99, "sub_menu", b, "parent_menu"));
    assert!(!g.connect_nodes(a, "no_such_port", b, "parent_menu"));
    assert!(!g.connect_nodes(a, "sub_menu", b, "no_such_port"));
    // An input port cannot serve as a source, nor an output as a target.
    assert!(!g.connect_nodes(a, "parent_menu", b, "parent_menu"));
    assert!(!g.connect_nodes(a, "sub_menu", b, "sub_menu"));
    assert_eq!(g.connections.len(), 0);
}

#[test]
fn connection_validity_requires_equal_port_types() {
    let mut from = Node::new(0, "from".to_string(), Point { x: 0, y: 0 }, NodeType::Process);
    from.add_output("out".to_string(), "Out".to_string(), PortType::String);
    let mut to = Node::new(1, "to".to_string(), Point { x: 0, y: 0 }, NodeType::Process);
    to.add_input("in".to_string(), "In".to_string(), PortType::Number);
    assert!(!GraphOperations::is_valid_connection(&from, "out", &to, "in"));
    let mut to2 = Node::new(2, "to2".to_string(), Point { x: 0, y: 0 }, NodeType::Process);
    to2.add_input("in".to_string(), "In".to_string(), PortType::String);
    assert!(GraphOperations::is_valid_connection(&from, "out", &to2, "in"));
}

#[test]
fn cascade_delete_removes_connections() {
    let mut g = SimpleNodeGraph::new();
    let a = g.add_menu_item(Point { x: 0, y: 0 }, "A".to_string());
    let b = g.add_menu_item(Point { x: 0, y: 0 }, "B".to_string());
    assert!(g.connect_nodes(a, "sub_menu", b, "parent_menu"));
    g.delete_node(a);
    assert!(g.get_node_data(a).is_none());
    assert!(g.get_node_data(b).is_some());
    assert!(g.connections.iter().all(|c| c.from_node != a && c.to_node != a));
    assert_eq!(g.connections.len(), 0);
}

#[test]
fn undo_redo_round_trip() {
    let mut g = SimpleNodeGraph::new();
    g.add_menu_item(Point { x: 0, y: 0 }, "base".to_string());
    let nodes_s0: Vec<Node> = g.nodes.clone();
    let conns_s0 = g.connections.clone();
    let b = g.add_menu_item(Point { x: 5, y: 5 }, "extra".to_string());
    assert!(g.connect_nodes(0, "sub_menu", b, "parent_menu"));
    let nodes_s1: Vec<Node> = g.nodes.clone();
    let conns_s1 = g.connections.clone();
    assert!(g.undo()); // undo the connect
    assert!(g.undo()); // undo the add
    assert_eq!(g.nodes, nodes_s0);
    assert_eq!(g.connections, conns_s0);
    assert!(g.redo());
    assert!(g.redo());
    assert_eq!(g.nodes, nodes_s1);
    assert_eq!(g.connections, conns_s1);
}

#[test]
fn can_undo_false_with_only_sentinel() {
    let mut g = SimpleNodeGraph::new();
    assert!(!g.can_undo());
    assert!(!g.redo());
    assert!(!g.undo());
    g.add_menu_item(Point { x: 0, y: 0 }, "a".to_string());
    assert!(g.can_undo());
    assert!(g.undo());
    assert!(!g.can_undo());
    assert!(g.can_redo());
}

#[test]
fn history_bound_evicts_oldest() {
    let mut g = SimpleNodeGraph::with_history_limit(3);
    for i in 0..8 {
        g.add_menu_item(Point { x: i, y: 0 }, format!("n{}", i));
    }
    // Capacity three retains the current state plus two older ones.
    assert!(g.undo());
    assert_eq!(g.nodes.len(), 7);
    assert!(g.undo());
    assert_eq!(g.nodes.len(), 6);
    assert!(!g.undo());
    assert!(!g.can_undo());
    assert_eq!(g.nodes.len(), 6);
}

#[test]
fn new_mutation_clears_redo() {
    let mut g = SimpleNodeGraph::new();
    g.add_menu_item(Point { x: 0, y: 0 }, "a".to_string());
    assert!(g.undo());
    assert!(g.can_redo());
    g.add_faq_item(Point { x: 0, y: 0 }, "q".to_string());
    assert!(!g.can_redo());
    assert!(!g.redo());
}

#[test]
fn delete_connection_removes_single_match() {
    let mut g = SimpleNodeGraph::new();
    let a = g.add_menu_item(Point { x: 0, y: 0 }, "a".to_string());
    let b = g.add_menu_item(Point { x: 0, y: 0 }, "b".to_string());
    let c = g.add_menu_item(Point { x: 0, y: 0 }, "c".to_string());
    assert!(g.connect_nodes(a, "sub_menu", b, "parent_menu"));
    assert!(g.connect_nodes(a, "sub_menu", c, "parent_menu"));
    g.delete_connection(a, "sub_menu", b, "parent_menu");
    assert_eq!(g.connections.len(), 1);
    assert_eq!(g.connections[0].to_node, c);
}

#[test]
fn delete_connection_miss_still_commits() {
    let mut g = SimpleNodeGraph::new();
    assert!(!g.can_undo());
    g.delete_connection(0, "sub_menu", 1, "parent_menu");
    assert!(g.can_undo());
}

#[test]
fn document_creation_supported() {
    assert!(GraphOperations::supports_document_creation());
    assert!(SimpleNodeGraph::supports_document_creation());
    let mut g = SimpleNodeGraph::new();
    let id = g.add_document(Point { x: 0, y: 0 }, "doc".to_string());
    assert_eq!(id, Ok(0));
}

#[test]
fn commits_are_dropped_while_applying() {
    let mut h = HistoryManager::new(10);
    let empty = GraphSnapshot::new(vec![], vec![], None, Point { x: 0, y: 0 }, 100);
    h.initialize(empty.clone());
    h.set_applying(true);
    h.add_snapshot(empty.clone());
    assert!(!h.can_undo());
    assert!(h.undo().is_none());
    h.set_applying(false);
    h.add_snapshot(empty.clone());
    assert!(h.can_undo());
    assert!(h.undo().is_some());
}

#[test]
fn fan_out_to_different_ports_is_allowed() {
    let mut g = SimpleNodeGraph::new();
    let a = g.add_menu_item(Point { x: 0, y: 0 }, "a".to_string());
    let b = g.add_menu_item(Point { x: 0, y: 0 }, "b".to_string());
    let d = g.add_document(Point { x: 0, y: 0 }, "d".to_string()).unwrap();
    assert!(g.connect_nodes(a, "sub_menu", b, "parent_menu"));
    assert!(g.connect_nodes(a, "documents", d, "parent_menu"));
    assert_eq!(g.get_child_menu_nodes(a), vec![b]);
    assert_eq!(g.get_documents_for_node(a), vec![d]);
}
