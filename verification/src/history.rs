//! Bounded, linear undo/redo over whole-graph snapshots.
//!
//! The manager keeps two stacks of snapshots.  The undo stack always retains
//! at least the sentinel initial state, so an undo can never produce an
//! undefined graph; committing while a restore or a continuous gesture is in
//! progress is silently dropped.

use vstd::prelude::*;

use std::collections::VecDeque;

use crate::node::{ConnModel, Connection, Node, NodeModel, Point};

verus! {

/// Mathematical view of a [`GraphSnapshot`].
pub struct SnapModel {
    pub nodes: Seq<NodeModel>,
    pub connections: Seq<ConnModel>,
    pub active_node: Option<usize>,
    pub pan: Point,
    pub zoom: u32,
}

/// An immutable, independently owned copy of the graph state at one point in
/// time.
#[derive(PartialEq, Debug)]
pub struct GraphSnapshot {
    pub nodes: Vec<Node>,
    pub connections: Vec<Connection>,
    pub active_node: Option<usize>,
    pub pan: Point,
    pub zoom: u32,
}

impl View for GraphSnapshot {
    type V = SnapModel;

    open spec fn view(&self) -> SnapModel {
        SnapModel {
            nodes: self.nodes@.map_values(|n: Node| n@),
            connections: self.connections@.map_values(|c: Connection| c@),
            active_node: self.active_node,
            pan: self.pan,
            zoom: self.zoom,
        }
    }
}

/// Copy a node list element by element.
pub fn clone_nodes(v: &Vec<Node>) -> (r: Vec<Node>)
    ensures
        r@.map_values(|n: Node| n@) == v@.map_values(|n: Node| n@),
{
    let mut r: Vec<Node> = Vec::new();
    for i in 0..v.len()
        invariant
            r@.len() == i,
            forall|j: int| 0 <= j < i ==> r@[j]@ == v@[j]@,
    {
        r.push(v[i].clone());
    }
    assert(r@.map_values(|n: Node| n@) =~= v@.map_values(|n: Node| n@));
    r
}

/// Copy a connection list element by element.
pub fn clone_connections(v: &Vec<Connection>) -> (r: Vec<Connection>)
    ensures
        r@.map_values(|c: Connection| c@) == v@.map_values(|c: Connection| c@),
{
    let mut r: Vec<Connection> = Vec::new();
    for i in 0..v.len()
        invariant
            r@.len() == i,
            forall|j: int| 0 <= j < i ==> r@[j]@ == v@[j]@,
    {
        r.push(v[i].clone());
    }
    assert(r@.map_values(|c: Connection| c@) =~= v@.map_values(|c: Connection| c@));
    r
}

impl Clone for GraphSnapshot {
    fn clone(&self) -> (r: Self)
        ensures
            r@ == self@,
    {
        GraphSnapshot {
            nodes: clone_nodes(&self.nodes),
            connections: clone_connections(&self.connections),
            active_node: self.active_node,
            pan: self.pan,
            zoom: self.zoom,
        }
    }
}

impl GraphSnapshot {
    /// Create a new snapshot of the graph state.
    pub fn new(
        nodes: Vec<Node>,
        connections: Vec<Connection>,
        active_node: Option<usize>,
        pan: Point,
        zoom: u32,
    ) -> (r: GraphSnapshot)
        ensures
            r@ == (SnapModel {
                nodes: nodes@.map_values(|n: Node| n@),
                connections: connections@.map_values(|c: Connection| c@),
                active_node,
                pan,
                zoom,
            }),
    {
        GraphSnapshot { nodes, connections, active_node, pan, zoom }
    }
}

/// Mathematical view of a [`HistoryManager`].
pub struct HistModel {
    pub undo: Seq<SnapModel>,
    pub redo: Seq<SnapModel>,
    pub capacity: usize,
    pub applying: bool,
}

/// The history after committing a snapshot: a commit during an apply is
/// dropped; otherwise the redo stack is cleared, the snapshot appended, and
/// the oldest entry evicted once the capacity is exceeded.
pub open spec fn commit_spec(h: HistModel, s: SnapModel) -> HistModel {
    if h.applying {
        h
    } else {
        let pushed = h.undo.push(s);
        HistModel {
            undo: if pushed.len() > h.capacity {
                pushed.drop_first()
            } else {
                pushed
            },
            redo: Seq::empty(),
            ..h
        }
    }
}

/// Whether an undo will change state: the sentinel entry never leaves the
/// undo stack, and nothing happens during an apply.
pub open spec fn undo_allowed(h: HistModel) -> bool {
    !h.applying && h.undo.len() > 1
}

/// The history after an undo: the current top moves to the redo stack.
pub open spec fn undo_spec(h: HistModel) -> HistModel {
    if undo_allowed(h) {
        HistModel { undo: h.undo.drop_last(), redo: h.redo.push(h.undo.last()), ..h }
    } else {
        h
    }
}

/// What an undo hands back: the state before the action being undone, which
/// stays on the undo stack as its new top.
pub open spec fn undo_result(h: HistModel) -> Option<SnapModel> {
    if undo_allowed(h) {
        Some(h.undo[h.undo.len() - 2])
    } else {
        None
    }
}

/// Whether a redo will change state.
pub open spec fn redo_allowed(h: HistModel) -> bool {
    !h.applying && h.redo.len() > 0
}

/// The history after a redo: the top of the redo stack moves back onto the
/// undo stack, re-applying the capacity eviction.
pub open spec fn redo_spec(h: HistModel) -> HistModel {
    if redo_allowed(h) {
        let pushed = h.undo.push(h.redo.last());
        HistModel {
            undo: if pushed.len() > h.capacity {
                pushed.drop_first()
            } else {
                pushed
            },
            redo: h.redo.drop_last(),
            ..h
        }
    } else {
        h
    }
}

/// What a redo hands back.
pub open spec fn redo_result(h: HistModel) -> Option<SnapModel> {
    if redo_allowed(h) {
        Some(h.redo.last())
    } else {
        None
    }
}

/// Manages the bounded history of graph states for undo/redo.
pub struct HistoryManager {
    pub history: VecDeque<GraphSnapshot>,
    pub redo_stack: VecDeque<GraphSnapshot>,
    pub history_size_limit: usize,
    pub action_in_progress: bool,
}

impl View for HistoryManager {
    type V = HistModel;

    open spec fn view(&self) -> HistModel {
        HistModel {
            undo: self.history@.map_values(|s: GraphSnapshot| s@),
            redo: self.redo_stack@.map_values(|s: GraphSnapshot| s@),
            capacity: self.history_size_limit,
            applying: self.action_in_progress,
        }
    }
}

impl HistoryManager {
    /// Create a new history manager with the given size limit.
    pub fn new(size_limit: usize) -> (r: HistoryManager)
        ensures
            r@ == (HistModel {
                undo: Seq::empty(),
                redo: Seq::empty(),
                capacity: size_limit,
                applying: false,
            }),
    {
        let r = HistoryManager {
            history: VecDeque::new(),
            redo_stack: VecDeque::new(),
            history_size_limit: size_limit,
            action_in_progress: false,
        };
        assert(r@.undo =~= Seq::<SnapModel>::empty());
        assert(r@.redo =~= Seq::<SnapModel>::empty());
        r
    }

    /// Reset both stacks and seed the undo stack with the initial state,
    /// which no undo can ever pop.
    pub fn initialize(&mut self, snapshot: GraphSnapshot)
        ensures
            final(self)@ == (HistModel {
                undo: seq![snapshot@],
                redo: Seq::empty(),
                capacity: old(self)@.capacity,
                applying: false,
            }),
    {
        self.history.clear();
        self.redo_stack.clear();
        self.history.push_back(snapshot);
        self.action_in_progress = false;
        assert(self@.undo =~= seq![self.history@[0]@]);
        assert(self@.redo =~= Seq::<SnapModel>::empty());
    }

    /// Commit a snapshot: dropped during an apply, otherwise clears the redo
    /// stack, appends, and evicts the oldest entry past the capacity.
    pub fn add_snapshot(&mut self, snapshot: GraphSnapshot)
        ensures
            final(self)@ == commit_spec(old(self)@, snapshot@),
    {
        if self.action_in_progress {
            return ;
        }
        self.redo_stack.clear();
        self.history.push_back(snapshot);
        assert(self@.undo =~= old(self)@.undo.push(self.history@.last()@));
        if self.history.len() > self.history_size_limit {
            let ghost before = self@.undo;
            self.history.pop_front();
            assert(self@.undo =~= before.drop_first());
        }
        assert(self@.redo =~= Seq::<SnapModel>::empty());
    }

    /// Undo the last action: moves the current state to the redo stack and
    /// returns a copy of the state before it, which stays retrievable.
    pub fn undo(&mut self) -> (r: Option<GraphSnapshot>)
        ensures
            final(self)@ == undo_spec(old(self)@),
            r is Some <==> undo_result(old(self)@) is Some,
            r matches Some(s) ==> undo_result(old(self)@) == Some(s@),
    {
        if self.action_in_progress || self.history.len() <= 1 {
            return None;
        }
        let current = self.history.pop_back().unwrap();
        self.redo_stack.push_back(current);
        assert(self@.undo =~= old(self)@.undo.drop_last());
        assert(self@.redo =~= old(self)@.redo.push(old(self)@.undo.last()));
        let top = self.history[self.history.len() - 1].clone();
        Some(top)
    }

    /// Redo the last undone action: moves the top of the redo stack back
    /// onto the undo stack and returns it.
    pub fn redo(&mut self) -> (r: Option<GraphSnapshot>)
        ensures
            final(self)@ == redo_spec(old(self)@),
            r is Some <==> redo_result(old(self)@) is Some,
            r matches Some(s) ==> redo_result(old(self)@) == Some(s@),
    {
        if self.action_in_progress || self.redo_stack.len() == 0 {
            return None;
        }
        let next = self.redo_stack.pop_back().unwrap();
        let copy = next.clone();
        self.history.push_back(next);
        assert(self@.undo =~= old(self)@.undo.push(old(self)@.redo.last()));
        assert(self@.redo =~= old(self)@.redo.drop_last());
        if self.history.len() > self.history_size_limit {
            let ghost before = self@.undo;
            self.history.pop_front();
            assert(self@.undo =~= before.drop_first());
        }
        Some(copy)
    }

    /// Whether an undo would change state: more than the sentinel remains.
    pub fn can_undo(&self) -> (r: bool)
        ensures
            r == (self@.undo.len() > 1),
    {
        self.history.len() > 1
    }

    /// Whether a redo would change state.
    pub fn can_redo(&self) -> (r: bool)
        ensures
            r == (self@.redo.len() > 0),
    {
        self.redo_stack.len() > 0
    }

    /// Raise or release the apply guard.  While the guard is held, commits
    /// are silently dropped, so a continuous gesture records only the state
    /// committed before it began.
    pub fn set_applying(&mut self, applying: bool)
        ensures
            final(self)@ == (HistModel { applying, ..old(self)@ }),
    {
        self.action_in_progress = applying;
    }
}

} // verus!
