//! The graph store: single source of truth for nodes and connections.
//!
//! Every mutating operation validates its input, applies the change, and
//! commits one snapshot of the whole state to the history manager, so that
//! undo restores exactly the state before the operation.

use vstd::prelude::*;

use crate::history::{
    commit_spec, GraphSnapshot, HistModel, HistoryManager, redo_allowed, redo_result, redo_spec,
    SnapModel, undo_allowed, undo_result, undo_spec, clone_nodes, clone_connections,
};
use crate::node::{ConnModel, Connection, Node, NodeModel, NodeType, Point};
use crate::ops::{valid_connection, GraphOperations};
use crate::seqs::{first_where, lemma_first_where, lemma_filter_sub};

verus! {

/// Mathematical view of the live graph held by a [`SimpleNodeGraph`].
pub struct GraphModel {
    pub nodes: Seq<NodeModel>,
    pub connections: Seq<ConnModel>,
    pub active_node: Option<usize>,
    pub pan: Point,
    pub zoom: u32,
    pub next_id: usize,
}

/// The snapshot a graph state is recorded as: everything but the id counter,
/// which survives undo so that ids are never reused.
pub open spec fn snap_of(g: GraphModel) -> SnapModel {
    SnapModel {
        nodes: g.nodes,
        connections: g.connections,
        active_node: g.active_node,
        pan: g.pan,
        zoom: g.zoom,
    }
}

/// Mathematical view of a whole [`SimpleNodeGraph`], history included.
pub struct StoreModel {
    pub graph: GraphModel,
    pub hist: HistModel,
}

/// All node ids are pairwise distinct.
pub open spec fn distinct_ids(nodes: Seq<NodeModel>) -> bool {
    forall|i: int, j: int| 0 <= i < j < nodes.len() ==> nodes[i].id != nodes[j].id
}

/// All node ids lie below the given bound.
pub open spec fn ids_below(nodes: Seq<NodeModel>, bound: usize) -> bool {
    forall|i: int| 0 <= i < nodes.len() ==> (#[trigger] nodes[i].id) < bound
}

/// A snapshot is well formed relative to an id bound.
pub open spec fn wf_snap(s: SnapModel, bound: usize) -> bool {
    distinct_ids(s.nodes) && ids_below(s.nodes, bound)
}

/// The live graph is well formed: distinct ids, all below the counter.
pub open spec fn wf_graph(g: GraphModel) -> bool {
    distinct_ids(g.nodes) && ids_below(g.nodes, g.next_id)
}

/// The whole store is well formed: the graph is, the history holds between
/// one and `capacity` well-formed snapshots, no apply is pending, and the
/// top of the undo stack is exactly the current state.
pub open spec fn wf_store(s: StoreModel) -> bool {
    &&& wf_graph(s.graph)
    &&& s.hist.capacity >= 1
    &&& !s.hist.applying
    &&& 1 <= s.hist.undo.len() <= s.hist.capacity
    &&& s.hist.undo.last() == snap_of(s.graph)
    &&& forall|i: int|
        0 <= i < s.hist.undo.len() ==> wf_snap(#[trigger] s.hist.undo[i], s.graph.next_id)
    &&& forall|i: int|
        0 <= i < s.hist.redo.len() ==> wf_snap(#[trigger] s.hist.redo[i], s.graph.next_id)
}

/// The graph after appending a freshly numbered node.
pub open spec fn g_add_node(g: GraphModel, n: NodeModel) -> GraphModel {
    GraphModel { nodes: g.nodes.push(n), next_id: (g.next_id + 1) as usize, ..g }
}

/// The graph after adding a menu item.
pub open spec fn add_menu_item_spec(g: GraphModel, position: Point, title: Seq<char>) -> GraphModel {
    g_add_node(g, crate::ops::menu_item_node(g.next_id, title, position))
}

/// The graph after adding an FAQ item.
pub open spec fn add_faq_item_spec(g: GraphModel, position: Point, title: Seq<char>) -> GraphModel {
    g_add_node(g, crate::ops::faq_item_node(g.next_id, title, position))
}

/// The graph after adding a document node.
pub open spec fn add_document_spec(g: GraphModel, position: Point, title: Seq<char>) -> GraphModel {
    g_add_node(g, crate::ops::document_node(g.next_id, title, position))
}

/// The index of the first node carrying the given id.
pub open spec fn node_index(nodes: Seq<NodeModel>, id: usize) -> int {
    first_where(nodes, |n: NodeModel| n.id == id)
}

/// The first node carrying the given id.
pub open spec fn find_node(nodes: Seq<NodeModel>, id: usize) -> Option<NodeModel> {
    let i = node_index(nodes, id);
    if i < nodes.len() {
        Some(nodes[i])
    } else {
        None
    }
}

/// Whether the exact four-tuple connection is already present.
pub open spec fn conn_exists(
    conns: Seq<ConnModel>,
    from_node: usize,
    from_port: Seq<char>,
    to_node: usize,
    to_port: Seq<char>,
) -> bool {
    exists|i: int|
        0 <= i < conns.len() && conns[i] == (ConnModel { from_node, to_node, from_port, to_port })
}

/// Whether a connection request is accepted: no self-loop, both nodes exist,
/// the named ports exist in the right directions with exactly equal types,
/// and the exact four-tuple is not already present.
pub open spec fn can_connect(
    g: GraphModel,
    from_node: usize,
    from_port: Seq<char>,
    to_node: usize,
    to_port: Seq<char>,
) -> bool {
    &&& from_node != to_node
    &&& find_node(g.nodes, from_node) is Some
    &&& find_node(g.nodes, to_node) is Some
    &&& valid_connection(
        find_node(g.nodes, from_node).unwrap(),
        from_port,
        find_node(g.nodes, to_node).unwrap(),
        to_port,
    )
    &&& !conn_exists(g.connections, from_node, from_port, to_node, to_port)
}

/// The graph after a connection request: unchanged when the request is
/// rejected.
pub open spec fn connect_spec(
    g: GraphModel,
    from_node: usize,
    from_port: Seq<char>,
    to_node: usize,
    to_port: Seq<char>,
) -> GraphModel {
    if can_connect(g, from_node, from_port, to_node, to_port) {
        GraphModel {
            connections: g.connections.push(
                ConnModel { from_node, to_node, from_port, to_port },
            ),
            ..g
        }
    } else {
        g
    }
}

/// The graph after deleting a node: the node and every connection touching
/// it leave in the same mutation, and the active marker is cleared if it
/// pointed at the node.
pub open spec fn delete_node_spec(g: GraphModel, id: usize) -> GraphModel {
    GraphModel {
        nodes: g.nodes.filter(|n: NodeModel| n.id != id),
        connections: g.connections.filter(
            |c: ConnModel| c.from_node != id && c.to_node != id,
        ),
        active_node: if g.active_node == Some(id) {
            None
        } else {
            g.active_node
        },
        ..g
    }
}

/// The graph after deleting one exact connection; a miss changes nothing.
pub open spec fn delete_connection_spec(
    g: GraphModel,
    from_node: usize,
    from_port: Seq<char>,
    to_node: usize,
    to_port: Seq<char>,
) -> GraphModel {
    GraphModel {
        connections: g.connections.filter(
            |c: ConnModel| c != (ConnModel { from_node, to_node, from_port, to_port }),
        ),
        ..g
    }
}

/// Whether some connection feeds the given node's `parent_menu` input.
pub open spec fn has_parent_conn(conns: Seq<ConnModel>, id: usize) -> bool {
    exists|i: int|
        0 <= i < conns.len() && (#[trigger] conns[i]).to_node == id && conns[i].to_port
            == "parent_menu"@
}

/// Whether the graph holds a menu item node with the given id.
pub open spec fn is_menu_node(nodes: Seq<NodeModel>, id: usize) -> bool {
    match find_node(nodes, id) {
        Some(n) => n.node_type == NodeType::MenuItem,
        None => false,
    }
}

/// The ids of the menu item nodes without an incoming `parent_menu`
/// connection, in node order.
pub open spec fn root_menu_ids(g: GraphModel) -> Seq<usize> {
    g.nodes.filter(
        |n: NodeModel| n.node_type == NodeType::MenuItem && !has_parent_conn(g.connections, n.id),
    ).map_values(|n: NodeModel| n.id)
}

/// The ids of all FAQ nodes, in node order.
pub open spec fn faq_ids(g: GraphModel) -> Seq<usize> {
    g.nodes.filter(|n: NodeModel| n.node_type == NodeType::FaqItem).map_values(
        |n: NodeModel| n.id,
    )
}

/// The ids of the menu item nodes fed from the parent's `sub_menu` output,
/// in connection order.
pub open spec fn child_menu_ids(g: GraphModel, parent_id: usize) -> Seq<usize> {
    g.connections.filter(
        |c: ConnModel| c.from_node == parent_id && c.from_port == "sub_menu"@ && is_menu_node(
            g.nodes,
            c.to_node,
        ),
    ).map_values(|c: ConnModel| c.to_node)
}

/// The ids of the nodes fed from the menu node's `documents` output, in
/// connection order.
pub open spec fn document_ids(g: GraphModel, menu_id: usize) -> Seq<usize> {
    g.connections.filter(
        |c: ConnModel| c.from_node == menu_id && c.from_port == "documents"@,
    ).map_values(|c: ConnModel| c.to_node)
}

/// The graph after re-interpreting the text of one parameter of one node;
/// unchanged when the node does not exist.
pub open spec fn set_node_param_spec(
    g: GraphModel,
    node_id: usize,
    param_id: Seq<char>,
    t: Seq<char>,
) -> GraphModel {
    let i = node_index(g.nodes, node_id);
    if i < g.nodes.len() {
        GraphModel {
            nodes: g.nodes.update(
                i,
                crate::node::node_with_param_text(g.nodes[i], param_id, t),
            ),
            ..g
        }
    } else {
        g
    }
}

/// The empty graph a store starts from.
pub open spec fn empty_graph() -> GraphModel {
    GraphModel {
        nodes: Seq::empty(),
        connections: Seq::empty(),
        active_node: None,
        pan: Point { x: 0, y: 0 },
        zoom: 100,
        next_id: 0,
    }
}

/// Filtering nodes keeps their ids distinct and below any bound they were
/// below.
pub proof fn lemma_filter_nodes_wf(nodes: Seq<NodeModel>, pred: spec_fn(NodeModel) -> bool, bound: usize)
    requires
        distinct_ids(nodes),
        ids_below(nodes, bound),
    ensures
        distinct_ids(nodes.filter(pred)),
        ids_below(nodes.filter(pred), bound),
    decreases nodes.len(),
{
    reveal(Seq::filter);
    lemma_filter_sub(nodes, pred);
    if nodes.len() == 0 {
    } else {
        let d = nodes.drop_last();
        assert(distinct_ids(d));
        assert(ids_below(d, bound));
        lemma_filter_nodes_wf(d, pred, bound);
        lemma_filter_sub(d, pred);
        let f = nodes.filter(pred);
        let fd = d.filter(pred);
        if pred(nodes.last()) {
            assert(f == fd.push(nodes.last()));
            assert forall|i: int, j: int| 0 <= i < j < f.len() implies f[i].id != f[j].id by {
                if j < f.len() - 1 {
                    assert(fd[i] == f[i] && fd[j] == f[j]);
                } else {
                    assert(f[j] == nodes.last());
                    assert(fd.contains(fd[i]));
                    assert(d.contains(fd[i]));
                    let m = choose|m: int| 0 <= m < d.len() && d[m] == fd[i];
                    assert(nodes[m] == fd[i]);
                    assert(nodes[m].id != nodes[nodes.len() - 1].id);
                    assert(f[i] == fd[i]);
                }
            }
            assert forall|i: int| 0 <= i < f.len() implies (#[trigger] f[i].id) < bound by {
                if i < f.len() - 1 {
                    assert(fd[i] == f[i]);
                } else {
                    assert(f[i] == nodes.last());
                }
            }
        } else {
            assert(f == fd);
        }
    }
}

/// A well-formed snapshot stays well formed under a larger id bound.
proof fn lemma_wf_snap_mono(s: SnapModel, b1: usize, b2: usize)
    requires
        wf_snap(s, b1),
        b1 <= b2,
    ensures
        wf_snap(s, b2),
{
}

/// The dedicated parameter holding a custom serialized fragment.
pub open spec fn data_param(dt: Seq<char>) -> crate::model::ParamModel {
    crate::model::ParamModel {
        id: "data"@,
        label: "Custom Data"@,
        param_type: crate::model::ParameterType::Text,
        value: crate::model::ValueModel::Text(dt),
    }
}

/// The graph after storing a custom fragment on a node: an existing `data`
/// parameter is overwritten, a missing one is appended; a missing node
/// changes nothing.
pub open spec fn set_or_add_data_spec(g: GraphModel, id: usize, dt: Seq<char>) -> GraphModel {
    let i = node_index(g.nodes, id);
    if i < g.nodes.len() {
        let n = g.nodes[i];
        if crate::node::param_index(n.params, "data"@) < n.params.len() {
            set_node_param_spec(g, id, "data"@, dt)
        } else {
            GraphModel {
                nodes: g.nodes.update(i, NodeModel { params: n.params.push(data_param(dt)), ..n }),
                ..g
            }
        }
    } else {
        g
    }
}

/// Replacing nodes by ones carrying the same ids keeps the graph well
/// formed.
pub proof fn lemma_update_same_ids_wf(pre: Seq<NodeModel>, post: Seq<NodeModel>, bound: usize)
    requires
        distinct_ids(pre),
        ids_below(pre, bound),
        post.len() == pre.len(),
        forall|i: int| 0 <= i < pre.len() ==> (#[trigger] post[i]).id == pre[i].id,
    ensures
        distinct_ids(post),
        ids_below(post, bound),
{
    assert forall|i: int, j: int| 0 <= i < j < post.len() implies post[i].id != post[j].id by {
        assert(pre[i].id != pre[j].id);
    }
    assert forall|i: int| 0 <= i < post.len() implies (#[trigger] post[i].id) < bound by {
        assert(pre[i].id < bound);
    }
}

/// Appending a node carrying the fresh id keeps the graph well formed under
/// the bumped counter.
pub proof fn lemma_push_fresh_wf(pre: Seq<NodeModel>, post: Seq<NodeModel>, bound: usize)
    requires
        distinct_ids(pre),
        ids_below(pre, bound),
        bound < usize::MAX,
        post.len() == pre.len() + 1,
        forall|i: int| 0 <= i < pre.len() ==> post[i] == pre[i],
        post.last().id == bound,
    ensures
        distinct_ids(post),
        ids_below(post, (bound + 1) as usize),
{
    assert forall|i: int, j: int| 0 <= i < j < post.len() implies post[i].id != post[j].id by {
        if j < post.len() - 1 {
            assert(post[i] == pre[i] && post[j] == pre[j]);
        } else {
            assert(post[i] == pre[i]);
            assert(pre[i].id < bound);
        }
    }
    assert forall|i: int| 0 <= i < post.len() implies (#[trigger] post[i].id) < bound + 1 by {
        if i < post.len() - 1 {
            assert(post[i] == pre[i]);
            assert(pre[i].id < bound);
        }
    }
}

/// Committing the current state after a mutation that kept the node ids
/// well formed and never lowered the id counter restores the store
/// invariant.
pub proof fn lemma_commit_keeps_wf(pre: StoreModel, g2: GraphModel)
    requires
        wf_store(pre),
        wf_graph(g2),
        g2.next_id >= pre.graph.next_id,
    ensures
        wf_store(StoreModel { graph: g2, hist: commit_spec(pre.hist, snap_of(g2)) }),
{
    let h2 = commit_spec(pre.hist, snap_of(g2));
    let pushed = pre.hist.undo.push(snap_of(g2));
    assert forall|i: int| 0 <= i < pushed.len() implies wf_snap(
        #[trigger] pushed[i],
        g2.next_id,
    ) by {
        if i < pushed.len() - 1 {
            lemma_wf_snap_mono(pre.hist.undo[i], pre.graph.next_id, g2.next_id);
        }
    }
    if pushed.len() > pre.hist.capacity {
        assert(h2.undo == pushed.drop_first());
        assert(forall|i: int| 0 <= i < h2.undo.len() ==> h2.undo[i] == pushed[i + 1]);
    }
}

/// The node graph: authoritative owner of all nodes and connections, with
/// a bounded undo/redo history of whole-state snapshots.
pub struct SimpleNodeGraph {
    pub nodes: Vec<Node>,
    pub connections: Vec<Connection>,
    pub active_node: Option<usize>,
    pub pan: Point,
    pub zoom: u32,
    pub next_id: usize,
    pub history_manager: HistoryManager,
}

impl View for SimpleNodeGraph {
    type V = StoreModel;

    open spec fn view(&self) -> StoreModel {
        StoreModel {
            graph: GraphModel {
                nodes: self.nodes@.map_values(|n: Node| n@),
                connections: self.connections@.map_values(|c: Connection| c@),
                active_node: self.active_node,
                pan: self.pan,
                zoom: self.zoom,
                next_id: self.next_id,
            },
            hist: self.history_manager@,
        }
    }
}

impl SimpleNodeGraph {
    /// The store's invariant.
    pub open spec fn wf(&self) -> bool {
        wf_store(self@)
    }

    /// Create an empty graph whose history is seeded with the empty state
    /// and bounded by the given number of retained snapshots.
    pub fn with_history_limit(limit: usize) -> (r: SimpleNodeGraph)
        requires
            limit >= 1,
        ensures
            r.wf(),
            r@.graph == empty_graph(),
            r@.hist == (HistModel {
                undo: seq![snap_of(empty_graph())],
                redo: Seq::empty(),
                capacity: limit,
                applying: false,
            }),
    {
        let mut graph = SimpleNodeGraph {
            nodes: Vec::new(),
            connections: Vec::new(),
            active_node: None,
            pan: Point { x: 0, y: 0 },
            zoom: 100,
            next_id: 0,
            history_manager: HistoryManager::new(limit),
        };
        assert(graph@.graph.nodes =~= empty_graph().nodes);
        assert(graph@.graph.connections =~= empty_graph().connections);
        let snapshot = graph.create_snapshot();
        graph.history_manager.initialize(snapshot);
        graph
    }

    /// Create an empty graph with the default history limit of 30 retained
    /// snapshots.
    pub fn new() -> (r: SimpleNodeGraph)
        ensures
            r.wf(),
            r@.graph == empty_graph(),
            r@.hist == (HistModel {
                undo: seq![snap_of(empty_graph())],
                redo: Seq::empty(),
                capacity: 30,
                applying: false,
            }),
    {
        Self::with_history_limit(30)
    }

    /// A snapshot of the current state, independently owned.
    fn create_snapshot(&self) -> (r: GraphSnapshot)
        ensures
            r@ == snap_of(self@.graph),
    {
        GraphSnapshot::new(
            clone_nodes(&self.nodes),
            clone_connections(&self.connections),
            self.active_node,
            self.pan,
            self.zoom,
        )
    }

    /// Commit the current state to the history.
    pub fn save_state(&mut self)
        ensures
            final(self)@.graph == old(self)@.graph,
            final(self)@.hist == commit_spec(old(self)@.hist, snap_of(old(self)@.graph)),
    {
        let snapshot = self.create_snapshot();
        self.history_manager.add_snapshot(snapshot);
    }

    /// Add a menu item node at the given position; always succeeds and
    /// returns the freshly assigned id, which no earlier node ever carried.
    pub fn add_menu_item(&mut self, position: Point, title: String) -> (id: usize)
        requires
            old(self).wf(),
            old(self)@.graph.next_id < usize::MAX,
        ensures
            final(self).wf(),
            id == old(self)@.graph.next_id,
            final(self)@.graph == add_menu_item_spec(old(self)@.graph, position, title@),
            final(self)@.hist == commit_spec(old(self)@.hist, snap_of(final(self)@.graph)),
    {
        let id = self.add_menu_item_nc(position, title);
        proof {
            lemma_commit_keeps_wf(old(self)@, self@.graph);
        }
        self.save_state();
        id
    }

    /// Add an FAQ item node at the given position; always succeeds.
    pub fn add_faq_item(&mut self, position: Point, title: String) -> (id: usize)
        requires
            old(self).wf(),
            old(self)@.graph.next_id < usize::MAX,
        ensures
            final(self).wf(),
            id == old(self)@.graph.next_id,
            final(self)@.graph == add_faq_item_spec(old(self)@.graph, position, title@),
            final(self)@.hist == commit_spec(old(self)@.hist, snap_of(final(self)@.graph)),
    {
        let id = self.add_faq_item_nc(position, title);
        proof {
            lemma_commit_keeps_wf(old(self)@, self@.graph);
        }
        self.save_state();
        id
    }

    /// Add a document node at the given position.  Creation is capability
    /// gated; in this configuration it is enabled, so the call always
    /// returns the fresh id.
    pub fn add_document(&mut self, position: Point, title: String) -> (r: Result<usize, String>)
        requires
            old(self).wf(),
            old(self)@.graph.next_id < usize::MAX,
        ensures
            final(self).wf(),
            r matches Ok(id) && id == old(self)@.graph.next_id,
            final(self)@.graph == add_document_spec(old(self)@.graph, position, title@),
            final(self)@.hist == commit_spec(old(self)@.hist, snap_of(final(self)@.graph)),
    {
        if !GraphOperations::supports_document_creation() {
            return Err("Document node creation not supported in this version".to_owned());
        }
        let id = self.add_document_nc(position, title);
        proof {
            lemma_commit_keeps_wf(old(self)@, self@.graph);
        }
        self.save_state();
        Ok(id)
    }

    /// Whether the exact four-tuple connection is already present.
    fn connection_exists(&self, from_node: usize, from_port: &str, to_node: usize, to_port: &str) -> (r:
        bool)
        ensures
            r == conn_exists(self@.graph.connections, from_node, from_port@, to_node, to_port@),
    {
        let ghost conns = self@.graph.connections;
        let ghost target = ConnModel {
            from_node,
            to_node,
            from_port: from_port@,
            to_port: to_port@,
        };
        let n = self.connections.len();
        for i in 0..n
            invariant
                n == self.connections@.len(),
                conns == self@.graph.connections,
                target == (ConnModel { from_node, to_node, from_port: from_port@, to_port: to_port@ }),
                forall|j: int| 0 <= j < i ==> conns[j] != target,
        {
            let c = &self.connections[i];
            if c.from_node == from_node && c.to_node == to_node && crate::model::str_eq(
                c.from_port.as_str(),
                from_port,
            ) && crate::model::str_eq(c.to_port.as_str(), to_port) {
                assert(conns[i as int] == target);
                return true;
            }
            assert(conns[i as int] != target);
        }
        false
    }

    /// The index of the first node carrying the given id, or the node count
    /// when no node does.
    fn find_node_index(&self, id: usize) -> (r: usize)
        ensures
            r == node_index(self@.graph.nodes, id),
    {
        let ghost views = self@.graph.nodes;
        let ghost pred = |n: NodeModel| n.id == id;
        proof {
            lemma_first_where(views, pred);
        }
        let n = self.nodes.len();
        for i in 0..n
            invariant
                n == self.nodes@.len(),
                views == self@.graph.nodes,
                pred == (|n: NodeModel| n.id == id),
                first_where(views, pred) >= i,
        {
            if self.nodes[i].id == id {
                proof {
                    lemma_first_where(views, pred);
                    assert(pred(views[i as int]));
                }
                return i;
            }
            proof {
                lemma_first_where(views, pred);
                assert(!pred(views[i as int]));
            }
        }
        proof {
            lemma_first_where(views, pred);
        }
        n
    }

    /// Connect two nodes.  Returns `false` without mutating anything when
    /// the request names a self-loop, a missing node or port, ports of
    /// different types, or an exact duplicate; otherwise records the
    /// connection and commits a snapshot.
    pub fn connect_nodes(&mut self, from_node: usize, from_port: &str, to_node: usize, to_port: &str) -> (r:
        bool)
        requires
            old(self).wf(),
        ensures
            final(self).wf(),
            r == can_connect(old(self)@.graph, from_node, from_port@, to_node, to_port@),
            final(self)@.graph == connect_spec(
                old(self)@.graph,
                from_node,
                from_port@,
                to_node,
                to_port@,
            ),
            r ==> final(self)@.hist == commit_spec(old(self)@.hist, snap_of(final(self)@.graph)),
            !r ==> final(self)@ == old(self)@,
    {
        let r = self.connect_nodes_nc(from_node, from_port, to_node, to_port);
        if r {
            proof {
                lemma_commit_keeps_wf(old(self)@, self@.graph);
            }
            self.save_state();
        }
        r
    }

    /// Delete a node and, in the same mutation, every connection touching
    /// it; the active marker is cleared if it pointed at the node.  One
    /// snapshot is committed for the combined operation.
    pub fn delete_node(&mut self, node_id: usize)
        requires
            old(self).wf(),
        ensures
            final(self).wf(),
            final(self)@.graph == delete_node_spec(old(self)@.graph, node_id),
            final(self)@.hist == commit_spec(old(self)@.hist, snap_of(final(self)@.graph)),
    {
        let ghost g = self@.graph;
        let ghost npred = |n: NodeModel| n.id != node_id;
        let ghost cpred = |c: ConnModel| c.from_node != node_id && c.to_node != node_id;
        let mut kept_nodes: Vec<Node> = Vec::new();
        let n = self.nodes.len();
        for i in 0..n
            invariant
                n == self.nodes@.len(),
                g == self@.graph,
                npred == (|n: NodeModel| n.id != node_id),
                kept_nodes@.map_values(|x: Node| x@) == g.nodes.take(i as int).filter(npred),
        {
            proof {
                assert(g.nodes.take(i + 1).drop_last() =~= g.nodes.take(i as int));
            }
            if self.nodes[i].id != node_id {
                kept_nodes.push(self.nodes[i].clone());
            }
            proof {
                reveal(Seq::filter);
                assert(kept_nodes@.map_values(|x: Node| x@) =~= g.nodes.take(i + 1).filter(npred));
            }
        }
        assert(g.nodes.take(n as int) =~= g.nodes);
        let mut kept_conns: Vec<Connection> = Vec::new();
        let m = self.connections.len();
        for i in 0..m
            invariant
                m == self.connections@.len(),
                g == self@.graph,
                cpred == (|c: ConnModel| c.from_node != node_id && c.to_node != node_id),
                kept_conns@.map_values(|x: Connection| x@) == g.connections.take(i as int).filter(
                    cpred,
                ),
        {
            proof {
                assert(g.connections.take(i + 1).drop_last() =~= g.connections.take(i as int));
            }
            let c = &self.connections[i];
            if c.from_node != node_id && c.to_node != node_id {
                kept_conns.push(self.connections[i].clone());
            }
            proof {
                reveal(Seq::filter);
                assert(kept_conns@.map_values(|x: Connection| x@) =~= g.connections.take(i + 1).filter(
                    cpred,
                ));
            }
        }
        assert(g.connections.take(m as int) =~= g.connections);
        self.nodes = kept_nodes;
        self.connections = kept_conns;
        if self.active_node == Some(node_id) {
            self.active_node = None;
        }
        proof {
            lemma_filter_nodes_wf(g.nodes, npred, g.next_id);
            lemma_commit_keeps_wf(old(self)@, self@.graph);
        }
        self.save_state();
    }

    /// Delete the single matching connection; a miss removes nothing but
    /// still commits a snapshot, so every deletion gesture is undoable.
    pub fn delete_connection(&mut self, from_node: usize, from_port: &str, to_node: usize, to_port: &str)
        requires
            old(self).wf(),
        ensures
            final(self).wf(),
            final(self)@.graph == delete_connection_spec(
                old(self)@.graph,
                from_node,
                from_port@,
                to_node,
                to_port@,
            ),
            final(self)@.hist == commit_spec(old(self)@.hist, snap_of(final(self)@.graph)),
    {
        let ghost g = self@.graph;
        let ghost target = ConnModel {
            from_node,
            to_node,
            from_port: from_port@,
            to_port: to_port@,
        };
        let ghost cpred = |c: ConnModel| c != target;
        let mut kept_conns: Vec<Connection> = Vec::new();
        let m = self.connections.len();
        for i in 0..m
            invariant
                m == self.connections@.len(),
                g == self@.graph,
                target == (ConnModel { from_node, to_node, from_port: from_port@, to_port: to_port@ }),
                cpred == (|c: ConnModel| c != target),
                kept_conns@.map_values(|x: Connection| x@) == g.connections.take(i as int).filter(
                    cpred,
                ),
        {
            proof {
                assert(g.connections.take(i + 1).drop_last() =~= g.connections.take(i as int));
            }
            let c = &self.connections[i];
            let is_target = c.from_node == from_node && c.to_node == to_node
                && crate::model::str_eq(c.from_port.as_str(), from_port) && crate::model::str_eq(
                c.to_port.as_str(),
                to_port,
            );
            assert(is_target == (g.connections[i as int] == target));
            if !is_target {
                kept_conns.push(self.connections[i].clone());
            }
            proof {
                reveal(Seq::filter);
                assert(kept_conns@.map_values(|x: Connection| x@) =~= g.connections.take(i + 1).filter(
                    cpred,
                ));
            }
        }
        assert(g.connections.take(m as int) =~= g.connections);
        self.connections = kept_conns;
        proof {
            lemma_commit_keeps_wf(old(self)@, self@.graph);
        }
        self.save_state();
    }

    /// Restore the live graph from a snapshot; the id counter is kept, so
    /// ids stay fresh across undo and redo.
    fn restore_from_snapshot(&mut self, snapshot: GraphSnapshot)
        ensures
            final(self)@.graph == (GraphModel {
                nodes: snapshot@.nodes,
                connections: snapshot@.connections,
                active_node: snapshot@.active_node,
                pan: snapshot@.pan,
                zoom: snapshot@.zoom,
                next_id: old(self)@.graph.next_id,
            }),
            final(self)@.hist == old(self)@.hist,
    {
        let GraphSnapshot { nodes, connections, active_node, pan, zoom } = snapshot;
        self.nodes = nodes;
        self.connections = connections;
        self.active_node = active_node;
        self.pan = pan;
        self.zoom = zoom;
    }

    /// Undo the last committed action: the current state moves to the redo
    /// stack and the graph becomes the state recorded before it.  Returns
    /// whether anything changed; the sentinel initial state never leaves.
    pub fn undo(&mut self) -> (r: bool)
        requires
            old(self).wf(),
        ensures
            final(self).wf(),
            r == undo_allowed(old(self)@.hist),
            final(self)@.hist == undo_spec(old(self)@.hist),
            final(self)@.graph.next_id == old(self)@.graph.next_id,
            r ==> Some(snap_of(final(self)@.graph)) == undo_result(old(self)@.hist),
            !r ==> final(self)@ == old(self)@,
    {
        let restored = self.history_manager.undo();
        match restored {
            Some(snapshot) => {
                self.restore_from_snapshot(snapshot);
                assert(snap_of(self@.graph) =~= undo_result(old(self)@.hist).unwrap());
                true
            },
            None => false,
        }
    }

    /// Redo the last undone action: the top of the redo stack becomes the
    /// graph again and returns onto the undo stack.
    pub fn redo(&mut self) -> (r: bool)
        requires
            old(self).wf(),
        ensures
            final(self).wf(),
            r == redo_allowed(old(self)@.hist),
            final(self)@.hist == redo_spec(old(self)@.hist),
            final(self)@.graph.next_id == old(self)@.graph.next_id,
            r ==> Some(snap_of(final(self)@.graph)) == redo_result(old(self)@.hist),
            !r ==> final(self)@ == old(self)@,
    {
        let restored = self.history_manager.redo();
        match restored {
            Some(snapshot) => {
                self.restore_from_snapshot(snapshot);
                assert(snap_of(self@.graph) =~= redo_result(old(self)@.hist).unwrap());
                proof {
                    let h = old(self)@.hist;
                    let pushed = h.undo.push(h.redo.last());
                    if pushed.len() > h.capacity {
                        assert(forall|i: int|
                            0 <= i < pushed.drop_first().len() ==> pushed.drop_first()[i]
                                == pushed[i + 1]);
                    }
                }
                true
            },
            None => false,
        }
    }

    /// Whether an undo would change state: more than the sentinel remains.
    pub fn can_undo(&self) -> (r: bool)
        ensures
            r == (self@.hist.undo.len() > 1),
    {
        self.history_manager.can_undo()
    }

    /// Whether a redo would change state.
    pub fn can_redo(&self) -> (r: bool)
        ensures
            r == (self@.hist.redo.len() > 0),
    {
        self.history_manager.can_redo()
    }

    /// Whether some connection feeds the given node's `parent_menu` input.
    fn has_incoming_parent(&self, id: usize) -> (r: bool)
        ensures
            r == has_parent_conn(self@.graph.connections, id),
    {
        let ghost conns = self@.graph.connections;
        let n = self.connections.len();
        for i in 0..n
            invariant
                n == self.connections@.len(),
                conns == self@.graph.connections,
                forall|j: int|
                    0 <= j < i ==> !(conns[j].to_node == id && conns[j].to_port
                        == "parent_menu"@),
        {
            let c = &self.connections[i];
            if c.to_node == id && crate::model::str_eq(c.to_port.as_str(), "parent_menu") {
                assert((#[trigger] conns[i as int]).to_node == id && conns[i as int].to_port
                    == "parent_menu"@);
                return true;
            }
            assert(!(conns[i as int].to_node == id && conns[i as int].to_port
                == "parent_menu"@));
        }
        assert(!has_parent_conn(conns, id)) by {
            if has_parent_conn(conns, id) {
                let j = choose|j: int|
                    0 <= j < conns.len() && (#[trigger] conns[j]).to_node == id && conns[j].to_port
                        == "parent_menu"@;
            }
        }
        false
    }

    /// Whether the graph holds a menu item node with the given id.
    fn is_menu_node_id(&self, id: usize) -> (r: bool)
        ensures
            r == is_menu_node(self@.graph.nodes, id),
    {
        let i = self.find_node_index(id);
        proof {
            lemma_first_where(self@.graph.nodes, |n: NodeModel| n.id == id);
        }
        if i == self.nodes.len() {
            false
        } else {
            self.nodes[i].node_type == NodeType::MenuItem
        }
    }

    /// The menu item nodes that no connection feeds through their
    /// `parent_menu` input, in node order.
    pub fn get_root_menu_nodes(&self) -> (r: Vec<usize>)
        ensures
            r@ == root_menu_ids(self@.graph),
    {
        let ghost g = self@.graph;
        let ghost pred = |n: NodeModel| n.node_type == NodeType::MenuItem && !has_parent_conn(
            g.connections,
            n.id,
        );
        let mut out: Vec<usize> = Vec::new();
        let n = self.nodes.len();
        for i in 0..n
            invariant
                n == self.nodes@.len(),
                g == self@.graph,
                pred == (|n: NodeModel| n.node_type == NodeType::MenuItem && !has_parent_conn(
                    g.connections,
                    n.id,
                )),
                out@ == g.nodes.take(i as int).filter(pred).map_values(|n: NodeModel| n.id),
        {
            proof {
                assert(g.nodes.take(i + 1).drop_last() =~= g.nodes.take(i as int));
            }
            if self.nodes[i].node_type == NodeType::MenuItem && !self.has_incoming_parent(
                self.nodes[i].id,
            ) {
                out.push(self.nodes[i].id);
            }
            proof {
                reveal(Seq::filter);
                assert(out@ =~= g.nodes.take(i + 1).filter(pred).map_values(|n: NodeModel| n.id));
            }
        }
        assert(g.nodes.take(n as int) =~= g.nodes);
        out
    }

    /// All FAQ nodes, in node order.
    pub fn get_faq_nodes(&self) -> (r: Vec<usize>)
        ensures
            r@ == faq_ids(self@.graph),
    {
        let ghost g = self@.graph;
        let ghost pred = |n: NodeModel| n.node_type == NodeType::FaqItem;
        let mut out: Vec<usize> = Vec::new();
        let n = self.nodes.len();
        for i in 0..n
            invariant
                n == self.nodes@.len(),
                g == self@.graph,
                pred == (|n: NodeModel| n.node_type == NodeType::FaqItem),
                out@ == g.nodes.take(i as int).filter(pred).map_values(|n: NodeModel| n.id),
        {
            proof {
                assert(g.nodes.take(i + 1).drop_last() =~= g.nodes.take(i as int));
            }
            if self.nodes[i].node_type == NodeType::FaqItem {
                out.push(self.nodes[i].id);
            }
            proof {
                reveal(Seq::filter);
                assert(out@ =~= g.nodes.take(i + 1).filter(pred).map_values(|n: NodeModel| n.id));
            }
        }
        assert(g.nodes.take(n as int) =~= g.nodes);
        out
    }

    /// The menu item nodes fed from the given parent's `sub_menu` output, in
    /// connection order.
    pub fn get_child_menu_nodes(&self, parent_id: usize) -> (r: Vec<usize>)
        ensures
            r@ == child_menu_ids(self@.graph, parent_id),
    {
        let ghost g = self@.graph;
        let ghost pred = |c: ConnModel| c.from_node == parent_id && c.from_port == "sub_menu"@
            && is_menu_node(g.nodes, c.to_node);
        let mut out: Vec<usize> = Vec::new();
        let m = self.connections.len();
        for i in 0..m
            invariant
                m == self.connections@.len(),
                g == self@.graph,
                pred == (|c: ConnModel| c.from_node == parent_id && c.from_port == "sub_menu"@
                    && is_menu_node(g.nodes, c.to_node)),
                out@ == g.connections.take(i as int).filter(pred).map_values(
                    |c: ConnModel| c.to_node,
                ),
        {
            proof {
                assert(g.connections.take(i + 1).drop_last() =~= g.connections.take(i as int));
            }
            let c = &self.connections[i];
            if c.from_node == parent_id && crate::model::str_eq(c.from_port.as_str(), "sub_menu")
                && self.is_menu_node_id(c.to_node) {
                out.push(self.connections[i].to_node);
            }
            proof {
                reveal(Seq::filter);
                assert(out@ =~= g.connections.take(i + 1).filter(pred).map_values(
                    |c: ConnModel| c.to_node,
                ));
            }
        }
        assert(g.connections.take(m as int) =~= g.connections);
        out
    }

    /// The nodes fed from the given menu node's `documents` output, in
    /// connection order.
    pub fn get_documents_for_node(&self, menu_id: usize) -> (r: Vec<usize>)
        ensures
            r@ == document_ids(self@.graph, menu_id),
    {
        let ghost g = self@.graph;
        let ghost pred = |c: ConnModel| c.from_node == menu_id && c.from_port == "documents"@;
        let mut out: Vec<usize> = Vec::new();
        let m = self.connections.len();
        for i in 0..m
            invariant
                m == self.connections@.len(),
                g == self@.graph,
                pred == (|c: ConnModel| c.from_node == menu_id && c.from_port == "documents"@),
                out@ == g.connections.take(i as int).filter(pred).map_values(
                    |c: ConnModel| c.to_node,
                ),
        {
            proof {
                assert(g.connections.take(i + 1).drop_last() =~= g.connections.take(i as int));
            }
            let c = &self.connections[i];
            if c.from_node == menu_id && crate::model::str_eq(c.from_port.as_str(), "documents") {
                out.push(self.connections[i].to_node);
            }
            proof {
                reveal(Seq::filter);
                assert(out@ =~= g.connections.take(i + 1).filter(pred).map_values(
                    |c: ConnModel| c.to_node,
                ));
            }
        }
        assert(g.connections.take(m as int) =~= g.connections);
        out
    }

    /// Get the data for a node.
    pub fn get_node_data(&self, node_id: usize) -> (r: Option<&Node>)
        ensures
            match r {
                Some(n) => find_node(self@.graph.nodes, node_id) == Some(n@),
                None => find_node(self@.graph.nodes, node_id) is None,
            },
    {
        let i = self.find_node_index(node_id);
        proof {
            lemma_first_where(self@.graph.nodes, |n: NodeModel| n.id == node_id);
        }
        if i == self.nodes.len() {
            None
        } else {
            Some(&self.nodes[i])
        }
    }

    /// Re-interpret the text of one parameter of one node and commit a
    /// snapshot; returns whether the node exists.
    pub fn set_node_param_text(&mut self, node_id: usize, param_id: &str, text: String) -> (r: bool)
        requires
            old(self).wf(),
        ensures
            final(self).wf(),
            r == (node_index(old(self)@.graph.nodes, node_id) < old(self)@.graph.nodes.len()),
            final(self)@.graph == set_node_param_spec(old(self)@.graph, node_id, param_id@, text@),
            r ==> final(self)@.hist == commit_spec(old(self)@.hist, snap_of(final(self)@.graph)),
            !r ==> final(self)@ == old(self)@,
    {
        let r = self.set_node_param_text_nc(node_id, param_id, text);
        if r {
            proof {
                lemma_update_same_ids_wf(
                    old(self)@.graph.nodes,
                    self@.graph.nodes,
                    old(self)@.graph.next_id,
                );
                lemma_commit_keeps_wf(old(self)@, self@.graph);
            }
            self.save_state();
        }
        r
    }

    /// Add a menu item node without committing a snapshot: one step of a
    /// larger mutation recorded as a single undoable action.
    pub(crate) fn add_menu_item_nc(&mut self, position: Point, title: String) -> (id: usize)
        requires
            wf_graph(old(self)@.graph),
            old(self)@.graph.next_id < usize::MAX,
        ensures
            wf_graph(final(self)@.graph),
            id == old(self)@.graph.next_id,
            final(self)@.graph == add_menu_item_spec(old(self)@.graph, position, title@),
            final(self)@.hist == old(self)@.hist,
    {
        let id = self.next_id;
        let node = GraphOperations::create_menu_item(id, title, position);
        self.nodes.push(node);
        self.next_id = self.next_id + 1;
        assert(self@.graph.nodes =~= old(self)@.graph.nodes.push(
            crate::ops::menu_item_node(id, self@.graph.nodes.last().title, position),
        ));
        proof {
            lemma_push_fresh_wf(
                old(self)@.graph.nodes,
                self@.graph.nodes,
                old(self)@.graph.next_id,
            );
        }
        id
    }

    /// Add an FAQ item node without committing a snapshot.
    pub(crate) fn add_faq_item_nc(&mut self, position: Point, title: String) -> (id: usize)
        requires
            wf_graph(old(self)@.graph),
            old(self)@.graph.next_id < usize::MAX,
        ensures
            wf_graph(final(self)@.graph),
            id == old(self)@.graph.next_id,
            final(self)@.graph == add_faq_item_spec(old(self)@.graph, position, title@),
            final(self)@.hist == old(self)@.hist,
    {
        let id = self.next_id;
        let node = GraphOperations::create_faq_item(id, title, position);
        self.nodes.push(node);
        self.next_id = self.next_id + 1;
        assert(self@.graph.nodes =~= old(self)@.graph.nodes.push(
            crate::ops::faq_item_node(id, self@.graph.nodes.last().title, position),
        ));
        proof {
            lemma_push_fresh_wf(
                old(self)@.graph.nodes,
                self@.graph.nodes,
                old(self)@.graph.next_id,
            );
        }
        id
    }

    /// Add a document node without committing a snapshot.
    pub(crate) fn add_document_nc(&mut self, position: Point, title: String) -> (id: usize)
        requires
            wf_graph(old(self)@.graph),
            old(self)@.graph.next_id < usize::MAX,
        ensures
            wf_graph(final(self)@.graph),
            id == old(self)@.graph.next_id,
            final(self)@.graph == add_document_spec(old(self)@.graph, position, title@),
            final(self)@.hist == old(self)@.hist,
    {
        let id = self.next_id;
        let node = GraphOperations::create_document(id, title, position);
        self.nodes.push(node);
        self.next_id = self.next_id + 1;
        assert(self@.graph.nodes =~= old(self)@.graph.nodes.push(
            crate::ops::document_node(id, self@.graph.nodes.last().title, position),
        ));
        proof {
            lemma_push_fresh_wf(
                old(self)@.graph.nodes,
                self@.graph.nodes,
                old(self)@.graph.next_id,
            );
        }
        id
    }

    /// Validate and record a connection without committing a snapshot.
    pub(crate) fn connect_nodes_nc(
        &mut self,
        from_node: usize,
        from_port: &str,
        to_node: usize,
        to_port: &str,
    ) -> (r: bool)
        ensures
            r == can_connect(old(self)@.graph, from_node, from_port@, to_node, to_port@),
            final(self)@.graph == connect_spec(
                old(self)@.graph,
                from_node,
                from_port@,
                to_node,
                to_port@,
            ),
            final(self)@.hist == old(self)@.hist,
    {
        if from_node == to_node {
            return false;
        }
        let fi = self.find_node_index(from_node);
        if fi == self.nodes.len() {
            return false;
        }
        let ti = self.find_node_index(to_node);
        if ti == self.nodes.len() {
            return false;
        }
        proof {
            lemma_first_where(self@.graph.nodes, |n: NodeModel| n.id == from_node);
            lemma_first_where(self@.graph.nodes, |n: NodeModel| n.id == to_node);
        }
        if !GraphOperations::is_valid_connection(
            &self.nodes[fi],
            from_port,
            &self.nodes[ti],
            to_port,
        ) {
            return false;
        }
        if self.connection_exists(from_node, from_port, to_node, to_port) {
            return false;
        }
        let connection = GraphOperations::create_connection(
            from_node,
            from_port.to_owned(),
            to_node,
            to_port.to_owned(),
        );
        self.connections.push(connection);
        assert(self@.graph.connections =~= old(self)@.graph.connections.push(
            ConnModel { from_node, to_node, from_port: from_port@, to_port: to_port@ },
        ));
        true
    }

    /// Re-interpret the text of one parameter of one node without committing
    /// a snapshot.
    pub(crate) fn set_node_param_text_nc(&mut self, node_id: usize, param_id: &str, text: String) -> (r:
        bool)
        ensures
            r == (node_index(old(self)@.graph.nodes, node_id) < old(self)@.graph.nodes.len()),
            final(self)@.graph == set_node_param_spec(old(self)@.graph, node_id, param_id@, text@),
            final(self)@.hist == old(self)@.hist,
            final(self)@.graph.nodes.len() == old(self)@.graph.nodes.len(),
            forall|i: int|
                0 <= i < old(self)@.graph.nodes.len()
                    ==> (#[trigger] final(self)@.graph.nodes[i]).id
                    == old(self)@.graph.nodes[i].id,
    {
        let i = self.find_node_index(node_id);
        proof {
            lemma_first_where(self@.graph.nodes, |n: NodeModel| n.id == node_id);
        }
        if i == self.nodes.len() {
            return false;
        }
        let mut node = self.nodes.remove(i);
        node.set_param_text(param_id, text);
        self.nodes.insert(i, node);
        assert(self@.graph.nodes =~= old(self)@.graph.nodes.update(
            i as int,
            crate::node::node_with_param_text(old(self)@.graph.nodes[i as int], param_id@, text@),
        ));
        true
    }

    /// Store a custom fragment on a node without committing a snapshot: an
    /// existing `data` parameter is overwritten, a missing one is appended.
    pub(crate) fn set_or_add_data_nc(&mut self, node_id: usize, data: String) -> (r: bool)
        ensures
            r == (node_index(old(self)@.graph.nodes, node_id) < old(self)@.graph.nodes.len()),
            final(self)@.graph == set_or_add_data_spec(old(self)@.graph, node_id, data@),
            final(self)@.hist == old(self)@.hist,
            final(self)@.graph.nodes.len() == old(self)@.graph.nodes.len(),
            forall|i: int|
                0 <= i < old(self)@.graph.nodes.len()
                    ==> (#[trigger] final(self)@.graph.nodes[i]).id
                    == old(self)@.graph.nodes[i].id,
    {
        let i = self.find_node_index(node_id);
        proof {
            lemma_first_where(self@.graph.nodes, |n: NodeModel| n.id == node_id);
        }
        if i == self.nodes.len() {
            return false;
        }
        let mut node = self.nodes.remove(i);
        let had = node.set_param_text("data", data.clone());
        if !had {
            node.add_data_parameter(data);
        }
        self.nodes.insert(i, node);
        assert(self@.graph.nodes =~= set_or_add_data_spec(
            old(self)@.graph,
            node_id,
            data@,
        ).nodes);
        true
    }

    /// Whether document creation is available in this configuration.
    pub fn supports_document_creation() -> (r: bool)
        ensures
            r,
    {
        GraphOperations::supports_document_creation()
    }

}

} // verus!
