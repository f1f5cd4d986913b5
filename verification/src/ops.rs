//! Fixed creation catalogs for each node type, and connection validity.
//!
//! The tree builder depends on the parameter ids these catalogs install
//! (`name`, `callback_data`, `description`, `url`, `text_content`,
//! `question`, `answer`, `tags`), so the port and parameter sets per node
//! type are reproduced exactly.

use vstd::prelude::*;

use crate::model::{ParamModel, ParameterType, ParameterValue, PortModel, PortType, ValueModel};
use crate::node::{Connection, ConnModel, Node, NodeModel, NodeType, Point, Size};
use crate::seqs::{first_where, lemma_first_where};

verus! {

/// The index of the first port carrying the given id, or the length of the
/// port list when there is none.
pub open spec fn port_index(ports: Seq<PortModel>, id: Seq<char>) -> int {
    first_where(ports, |p: PortModel| p.id == id)
}

/// The first port carrying the given id.
pub open spec fn find_port(ports: Seq<PortModel>, id: Seq<char>) -> Option<PortModel> {
    let i = port_index(ports, id);
    if i < ports.len() {
        Some(ports[i])
    } else {
        None
    }
}

/// Whether the named output port of `from` and the named input port of `to`
/// both exist and carry exactly the same port type.
pub open spec fn valid_connection(
    from: NodeModel,
    from_port: Seq<char>,
    to: NodeModel,
    to_port: Seq<char>,
) -> bool {
    match (find_port(from.outputs, from_port), find_port(to.inputs, to_port)) {
        (Some(a), Some(b)) => a.port_type == b.port_type,
        _ => false,
    }
}

/// The exact node a menu item is created as.
pub open spec fn menu_item_node(id: usize, title: Seq<char>, position: Point) -> NodeModel {
    NodeModel {
        id,
        title,
        position,
        size: Size { w: 180, h: 100 },
        node_type: NodeType::MenuItem,
        inputs: seq![
            PortModel { id: "parent_menu"@, label: "Родительское меню"@, port_type: PortType::Object },
        ],
        outputs: seq![
            PortModel { id: "sub_menu"@, label: "Подменю"@, port_type: PortType::Object },
            PortModel { id: "documents"@, label: "Документы"@, port_type: PortType::Object },
        ],
        params: seq![
            ParamModel {
                id: "name"@,
                label: "Название"@,
                param_type: ParameterType::Text,
                value: ValueModel::Text(title),
            },
            ParamModel {
                id: "callback_data"@,
                label: "Callback Data"@,
                param_type: ParameterType::Text,
                value: ValueModel::Text(Seq::empty()),
            },
            ParamModel {
                id: "description"@,
                label: "Описание"@,
                param_type: ParameterType::Text,
                value: ValueModel::Text(Seq::empty()),
            },
            ParamModel {
                id: "url"@,
                label: "URL"@,
                param_type: ParameterType::Text,
                value: ValueModel::Text(Seq::empty()),
            },
            ParamModel {
                id: "text_content"@,
                label: "Текстовое содержимое"@,
                param_type: ParameterType::Text,
                value: ValueModel::Text(Seq::empty()),
            },
        ],
    }
}

/// The exact node an FAQ item is created as: no ports, the question seeded
/// from the title.
pub open spec fn faq_item_node(id: usize, title: Seq<char>, position: Point) -> NodeModel {
    NodeModel {
        id,
        title,
        position,
        size: Size { w: 180, h: 100 },
        node_type: NodeType::FaqItem,
        inputs: Seq::empty(),
        outputs: Seq::empty(),
        params: seq![
            ParamModel {
                id: "question"@,
                label: "Вопрос"@,
                param_type: ParameterType::Text,
                value: ValueModel::Text(title),
            },
            ParamModel {
                id: "answer"@,
                label: "Ответ"@,
                param_type: ParameterType::Text,
                value: ValueModel::Text(Seq::empty()),
            },
            ParamModel {
                id: "tags"@,
                label: "Теги (через запятую)"@,
                param_type: ParameterType::Text,
                value: ValueModel::Text(Seq::empty()),
            },
        ],
    }
}

/// The exact node a document is created as.
pub open spec fn document_node(id: usize, title: Seq<char>, position: Point) -> NodeModel {
    NodeModel {
        id,
        title,
        position,
        size: Size { w: 180, h: 100 },
        node_type: NodeType::Document,
        inputs: seq![
            PortModel { id: "parent_menu"@, label: "Родительское меню"@, port_type: PortType::Object },
        ],
        outputs: Seq::empty(),
        params: seq![
            ParamModel {
                id: "text"@,
                label: "Название"@,
                param_type: ParameterType::Text,
                value: ValueModel::Text(title),
            },
            ParamModel {
                id: "callback_data"@,
                label: "Callback Data"@,
                param_type: ParameterType::Text,
                value: ValueModel::Text(Seq::empty()),
            },
            ParamModel {
                id: "url"@,
                label: "URL"@,
                param_type: ParameterType::Text,
                value: ValueModel::Text(Seq::empty()),
            },
        ],
    }
}

/// Stateless operations on nodes and connections: creation catalogs and
/// connection validity.
pub struct GraphOperations;

impl GraphOperations {
    /// Create a new menu item node with its fixed port and parameter schema.
    pub fn create_menu_item(id: usize, title: String, position: Point) -> (r: Node)
        ensures
            r@ == menu_item_node(id, title@, position),
    {
        let seeded = title.clone();
        let mut node = Node::new(id, title, position, NodeType::MenuItem);
        node.add_input("parent_menu".to_owned(), "Родительское меню".to_owned(), PortType::Object);
        node.add_output("sub_menu".to_owned(), "Подменю".to_owned(), PortType::Object);
        node.add_output("documents".to_owned(), "Документы".to_owned(), PortType::Object);
        node.add_parameter(
            "name".to_owned(),
            "Название".to_owned(),
            ParameterType::Text,
            ParameterValue::Text(seeded),
        );
        node.add_parameter(
            "callback_data".to_owned(),
            "Callback Data".to_owned(),
            ParameterType::Text,
            ParameterValue::Text(String::new()),
        );
        node.add_parameter(
            "description".to_owned(),
            "Описание".to_owned(),
            ParameterType::Text,
            ParameterValue::Text(String::new()),
        );
        node.add_parameter(
            "url".to_owned(),
            "URL".to_owned(),
            ParameterType::Text,
            ParameterValue::Text(String::new()),
        );
        node.add_parameter(
            "text_content".to_owned(),
            "Текстовое содержимое".to_owned(),
            ParameterType::Text,
            ParameterValue::Text(String::new()),
        );
        assert(node@.inputs =~= menu_item_node(id, node@.title, position).inputs);
        assert(node@.outputs =~= menu_item_node(id, node@.title, position).outputs);
        assert(node@.params =~= menu_item_node(id, node@.title, position).params);
        node
    }

    /// Create a new FAQ item node; its question parameter is seeded from the
    /// title.
    pub fn create_faq_item(id: usize, title: String, position: Point) -> (r: Node)
        ensures
            r@ == faq_item_node(id, title@, position),
    {
        let seeded = title.clone();
        let mut node = Node::new(id, title, position, NodeType::FaqItem);
        node.add_parameter(
            "question".to_owned(),
            "Вопрос".to_owned(),
            ParameterType::Text,
            ParameterValue::Text(seeded),
        );
        node.add_parameter(
            "answer".to_owned(),
            "Ответ".to_owned(),
            ParameterType::Text,
            ParameterValue::Text(String::new()),
        );
        node.add_parameter(
            "tags".to_owned(),
            "Теги (через запятую)".to_owned(),
            ParameterType::Text,
            ParameterValue::Text(String::new()),
        );
        assert(node@.params =~= faq_item_node(id, node@.title, position).params);
        node
    }

    /// Create a new document node.
    pub fn create_document(id: usize, title: String, position: Point) -> (r: Node)
        ensures
            r@ == document_node(id, title@, position),
    {
        let seeded = title.clone();
        let mut node = Node::new(id, title, position, NodeType::Document);
        node.add_input("parent_menu".to_owned(), "Родительское меню".to_owned(), PortType::Object);
        node.add_parameter(
            "text".to_owned(),
            "Название".to_owned(),
            ParameterType::Text,
            ParameterValue::Text(seeded),
        );
        node.add_parameter(
            "callback_data".to_owned(),
            "Callback Data".to_owned(),
            ParameterType::Text,
            ParameterValue::Text(String::new()),
        );
        node.add_parameter(
            "url".to_owned(),
            "URL".to_owned(),
            ParameterType::Text,
            ParameterValue::Text(String::new()),
        );
        assert(node@.inputs =~= document_node(id, node@.title, position).inputs);
        assert(node@.params =~= document_node(id, node@.title, position).params);
        node
    }

    /// Whether document creation is available in this configuration.
    pub fn supports_document_creation() -> (r: bool)
        ensures
            r,
    {
        true
    }

    /// Whether the named ports exist in the right directions and carry
    /// exactly the same type.
    pub fn is_valid_connection(from_node: &Node, from_port: &str, to_node: &Node, to_port: &str) -> (r:
        bool)
        ensures
            r == valid_connection(from_node@, from_port@, to_node@, to_port@),
    {
        let out_port = find_port_in(&from_node.outputs, from_port);
        let in_port = find_port_in(&to_node.inputs, to_port);
        proof {
            assert(from_node.outputs@.map_values(|p: crate::model::Port| p@) == from_node@.outputs);
        }
        match (out_port, in_port) {
            (Some(a), Some(b)) => a.port_type() == b.port_type(),
            _ => false,
        }
    }

    /// Create a connection value between two nodes.
    pub fn create_connection(from_node: usize, from_port: String, to_node: usize, to_port: String) -> (r:
        Connection)
        ensures
            r@ == (ConnModel { from_node, to_node, from_port: from_port@, to_port: to_port@ }),
    {
        Connection::new(from_node, from_port, to_node, to_port)
    }
}

/// Find the first port carrying the given id.
pub fn find_port_in<'a>(ports: &'a Vec<crate::model::Port>, id: &str) -> (r: Option<
    &'a crate::model::Port,
>)
    ensures
        ({
            let views = ports@.map_values(|p: crate::model::Port| p@);
            match r {
                Some(p) => find_port(views, id@) == Some(p@),
                None => find_port(views, id@) is None,
            }
        }),
{
    let ghost views = ports@.map_values(|p: crate::model::Port| p@);
    let ghost pred = |p: PortModel| p.id == id@;
    proof {
        lemma_first_where(views, pred);
    }
    let n = ports.len();
    for i in 0..n
        invariant
            n == ports@.len(),
            views == ports@.map_values(|p: crate::model::Port| p@),
            pred == (|p: PortModel| p.id == id@),
            first_where(views, pred) >= i,
    {
        if crate::model::str_eq(ports[i].id.as_str(), id) {
            proof {
                lemma_first_where(views, pred);
                assert(pred(views[i as int]));
            }
            return Some(&ports[i]);
        }
        proof {
            lemma_first_where(views, pred);
            assert(!pred(views[i as int]));
        }
    }
    proof {
        lemma_first_where(views, pred);
    }
    None
}

} // verus!
