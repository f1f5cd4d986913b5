//! Nodes and connections: the entities the graph store owns.

use vstd::prelude::*;

use crate::model::{
    coerce_value, ParamModel, Parameter, ParameterType, ParameterValue, Port, PortModel, PortType,
    str_eq,
};
use crate::seqs::{first_where, lemma_first_where};

verus! {

/// An integer point on the canvas.
#[derive(Clone, Copy, PartialEq, Eq, Structural, Debug)]
pub struct Point {
    pub x: i64,
    pub y: i64,
}

/// An integer extent of a node rectangle.
#[derive(Clone, Copy, PartialEq, Eq, Structural, Debug)]
pub struct Size {
    pub w: i64,
    pub h: i64,
}

/// The kind of a node.
#[derive(Clone, Copy, PartialEq, Eq, Structural, Debug)]
pub enum NodeType {
    MenuItem,
    FaqItem,
    Process,
    Input,
    Output,
    Document,
}

/// The string a node type shows as.
pub open spec fn node_type_text(t: NodeType) -> Seq<char> {
    match t {
        NodeType::MenuItem => "MenuItem"@,
        NodeType::FaqItem => "FaqItem"@,
        NodeType::Process => "Process"@,
        NodeType::Input => "Input"@,
        NodeType::Output => "Output"@,
        NodeType::Document => "document"@,
    }
}

impl NodeType {
    /// Get the string representation of the node type.
    pub fn as_str(&self) -> (r: &'static str)
        ensures
            r@ == node_type_text(*self),
    {
        match self {
            NodeType::MenuItem => "MenuItem",
            NodeType::FaqItem => "FaqItem",
            NodeType::Process => "Process",
            NodeType::Input => "Input",
            NodeType::Output => "Output",
            NodeType::Document => "document",
        }
    }
}

/// Mathematical view of a [`Connection`].
pub struct ConnModel {
    pub from_node: usize,
    pub to_node: usize,
    pub from_port: Seq<char>,
    pub to_port: Seq<char>,
}

/// A directed edge from an output port of one node to an input port of
/// another.
#[derive(PartialEq, Debug)]
pub struct Connection {
    pub from_node: usize,
    pub to_node: usize,
    pub from_port: String,
    pub to_port: String,
}

impl View for Connection {
    type V = ConnModel;

    open spec fn view(&self) -> ConnModel {
        ConnModel {
            from_node: self.from_node,
            to_node: self.to_node,
            from_port: self.from_port@,
            to_port: self.to_port@,
        }
    }
}

impl Clone for Connection {
    fn clone(&self) -> (r: Self)
        ensures
            r@ == self@,
    {
        Connection {
            from_node: self.from_node,
            to_node: self.to_node,
            from_port: self.from_port.clone(),
            to_port: self.to_port.clone(),
        }
    }
}

impl Connection {
    /// Create a new connection between two nodes.
    pub fn new(from_node: usize, from_port: String, to_node: usize, to_port: String) -> (r:
        Connection)
        ensures
            r@ == (ConnModel { from_node, to_node, from_port: from_port@, to_port: to_port@ }),
    {
        Connection { from_node, to_node, from_port, to_port }
    }

    /// Get the source node id.
    pub fn from_node(&self) -> (r: usize)
        ensures
            r == self@.from_node,
    {
        self.from_node
    }

    /// Get the target node id.
    pub fn to_node(&self) -> (r: usize)
        ensures
            r == self@.to_node,
    {
        self.to_node
    }

    /// Get the source port id.
    pub fn from_port(&self) -> (r: &str)
        ensures
            r@ == self@.from_port,
    {
        self.from_port.as_str()
    }

    /// Get the target port id.
    pub fn to_port(&self) -> (r: &str)
        ensures
            r@ == self@.to_port,
    {
        self.to_port.as_str()
    }
}

/// Mathematical view of a [`Node`].
pub struct NodeModel {
    pub id: usize,
    pub title: Seq<char>,
    pub position: Point,
    pub size: Size,
    pub node_type: NodeType,
    pub inputs: Seq<PortModel>,
    pub outputs: Seq<PortModel>,
    pub params: Seq<ParamModel>,
}

/// A positioned, typed entity owning its ports and parameters.
#[derive(PartialEq, Debug)]
pub struct Node {
    pub id: usize,
    pub title: String,
    pub position: Point,
    pub size: Size,
    pub node_type: NodeType,
    pub inputs: Vec<Port>,
    pub outputs: Vec<Port>,
    pub params: Vec<Parameter>,
}

impl View for Node {
    type V = NodeModel;

    open spec fn view(&self) -> NodeModel {
        NodeModel {
            id: self.id,
            title: self.title@,
            position: self.position,
            size: self.size,
            node_type: self.node_type,
            inputs: self.inputs@.map_values(|p: Port| p@),
            outputs: self.outputs@.map_values(|p: Port| p@),
            params: self.params@.map_values(|p: Parameter| p@),
        }
    }
}

impl Clone for Node {
    fn clone(&self) -> (r: Self)
        ensures
            r@ == self@,
    {
        let r = Node {
            id: self.id,
            title: self.title.clone(),
            position: self.position,
            size: self.size,
            node_type: self.node_type,
            inputs: clone_ports(&self.inputs),
            outputs: clone_ports(&self.outputs),
            params: clone_params(&self.params),
        };
        assert(r@ =~= self@);
        r
    }
}

fn clone_ports(v: &Vec<Port>) -> (r: Vec<Port>)
    ensures
        r@.map_values(|p: Port| p@) == v@.map_values(|p: Port| p@),
{
    let mut r: Vec<Port> = Vec::new();
    for i in 0..v.len()
        invariant
            r@.len() == i,
            forall|j: int| 0 <= j < i ==> r@[j]@ == v@[j]@,
    {
        r.push(v[i].clone());
    }
    assert(r@.map_values(|p: Port| p@) =~= v@.map_values(|p: Port| p@));
    r
}

fn clone_params(v: &Vec<Parameter>) -> (r: Vec<Parameter>)
    ensures
        r@.map_values(|p: Parameter| p@) == v@.map_values(|p: Parameter| p@),
{
    let mut r: Vec<Parameter> = Vec::new();
    for i in 0..v.len()
        invariant
            r@.len() == i,
            forall|j: int| 0 <= j < i ==> r@[j]@ == v@[j]@,
    {
        r.push(v[i].clone());
    }
    assert(r@.map_values(|p: Parameter| p@) =~= v@.map_values(|p: Parameter| p@));
    r
}

/// The index of the first parameter carrying the given id, or the length of
/// the parameter list when the node has none.
pub open spec fn param_index(params: Seq<ParamModel>, id: Seq<char>) -> int {
    first_where(params, |p: ParamModel| p.id == id)
}

/// The node after re-interpreting the text of its first parameter with the
/// given id; the node is unchanged when no parameter carries the id.
pub open spec fn node_with_param_text(n: NodeModel, id: Seq<char>, t: Seq<char>) -> NodeModel {
    let i = param_index(n.params, id);
    if i < n.params.len() {
        let p = n.params[i];
        NodeModel {
            params: n.params.update(i, ParamModel { value: coerce_value(p.value, t), ..p }),
            ..n
        }
    } else {
        n
    }
}

impl Node {
    /// Create a new node with the given id, title, position, and node type.
    pub fn new(id: usize, title: String, position: Point, node_type: NodeType) -> (r: Node)
        ensures
            r@ == (NodeModel {
                id,
                title: title@,
                position,
                size: Size { w: 180, h: 100 },
                node_type,
                inputs: Seq::<PortModel>::empty(),
                outputs: Seq::<PortModel>::empty(),
                params: Seq::<ParamModel>::empty(),
            }),
    {
        let r = Node {
            id,
            title,
            position,
            size: Size { w: 180, h: 100 },
            node_type,
            inputs: Vec::new(),
            outputs: Vec::new(),
            params: Vec::new(),
        };
        assert(r@.inputs =~= Seq::<PortModel>::empty());
        assert(r@.outputs =~= Seq::<PortModel>::empty());
        assert(r@.params =~= Seq::<ParamModel>::empty());
        r
    }

    /// Get the node id.
    pub fn id(&self) -> (r: usize)
        ensures
            r == self@.id,
    {
        self.id
    }

    /// Get the title of the node.
    pub fn get_title(&self) -> (r: &str)
        ensures
            r@ == self@.title,
    {
        self.title.as_str()
    }

    /// Get the parameters of the node.
    pub fn get_params(&self) -> (r: &Vec<Parameter>)
        ensures
            r@.map_values(|p: Parameter| p@) == self@.params,
    {
        &self.params
    }

    /// Add an input port to the node.
    pub fn add_input(&mut self, id: String, label: String, port_type: PortType)
        ensures
            final(self)@ == (NodeModel {
                inputs: old(self)@.inputs.push(
                    PortModel { id: id@, label: label@, port_type },
                ),
                ..old(self)@
            }),
    {
        self.inputs.push(Port::new(id, label, port_type));
        assert(self@.inputs =~= old(self)@.inputs.push(self.inputs@.last()@));
    }

    /// Add an output port to the node.
    pub fn add_output(&mut self, id: String, label: String, port_type: PortType)
        ensures
            final(self)@ == (NodeModel {
                outputs: old(self)@.outputs.push(
                    PortModel { id: id@, label: label@, port_type },
                ),
                ..old(self)@
            }),
    {
        self.outputs.push(Port::new(id, label, port_type));
        assert(self@.outputs =~= old(self)@.outputs.push(self.outputs@.last()@));
    }

    /// Add a parameter to the node.
    pub fn add_parameter(
        &mut self,
        id: String,
        label: String,
        param_type: ParameterType,
        value: ParameterValue,
    )
        ensures
            final(self)@ == (NodeModel {
                params: old(self)@.params.push(
                    ParamModel { id: id@, label: label@, param_type, value: value@ },
                ),
                ..old(self)@
            }),
    {
        let ghost v = value@;
        self.params.push(Parameter::new(id, label, param_type, value));
        assert(self@.params =~= old(self)@.params.push(self.params@.last()@));
    }

    /// Add the dedicated parameter holding a custom serialized fragment.
    pub fn add_data_parameter(&mut self, data: String)
        ensures
            final(self)@ == (NodeModel {
                params: old(self)@.params.push(
                    ParamModel {
                        id: "data"@,
                        label: "Custom Data"@,
                        param_type: ParameterType::Text,
                        value: crate::model::ValueModel::Text(data@),
                    },
                ),
                ..old(self)@
            }),
    {
        self.add_parameter(
            "data".to_owned(),
            "Custom Data".to_owned(),
            ParameterType::Text,
            ParameterValue::Text(data),
        );
    }

    /// Find the first parameter carrying the given id.
    pub fn find_param(&self, id: &str) -> (r: Option<&Parameter>)
        ensures
            ({
                let i = param_index(self@.params, id@);
                match r {
                    Some(p) => i < self@.params.len() && p@ == self@.params[i],
                    None => i == self@.params.len(),
                }
            }),
    {
        let ghost target = self@.params;
        let ghost pred = |p: ParamModel| p.id == id@;
        proof {
            lemma_first_where(target, pred);
        }
        let n = self.params.len();
        for i in 0..n
            invariant
                n == self.params@.len(),
                target == self@.params,
                pred == (|p: ParamModel| p.id == id@),
                first_where(target, pred) >= i,
        {
            if str_eq(self.params[i].id.as_str(), id) {
                proof {
                    lemma_first_where(target, pred);
                    assert(pred(target[i as int]));
                }
                return Some(&self.params[i]);
            }
            proof {
                lemma_first_where(target, pred);
                assert(!pred(target[i as int]));
            }
        }
        proof {
            lemma_first_where(target, pred);
        }
        None
    }

    /// Re-interpret the text of the first parameter carrying the given id;
    /// returns whether such a parameter exists.
    pub fn set_param_text(&mut self, id: &str, text: String) -> (r: bool)
        ensures
            final(self)@ == node_with_param_text(old(self)@, id@, text@),
            r == (param_index(old(self)@.params, id@) < old(self)@.params.len()),
    {
        let ghost target = old(self)@.params;
        let ghost pred = |p: ParamModel| p.id == id@;
        proof {
            lemma_first_where(target, pred);
        }
        let n = self.params.len();
        for i in 0..n
            invariant
                n == self.params@.len(),
                self@ == old(self)@,
                target == self@.params,
                pred == (|p: ParamModel| p.id == id@),
                first_where(target, pred) >= i,
        {
            if str_eq(self.params[i].id.as_str(), id) {
                proof {
                    lemma_first_where(target, pred);
                    assert(pred(target[i as int]));
                }
                let mut p = self.params.remove(i);
                p.set_text_value(text);
                self.params.insert(i, p);
                assert(self@.params =~= node_with_param_text(old(self)@, id@, text@).params);
                return true;
            }
            proof {
                lemma_first_where(target, pred);
                assert(!pred(target[i as int]));
            }
        }
        proof {
            lemma_first_where(target, pred);
        }
        false
    }
}

} // verus!
