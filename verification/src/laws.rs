//! Invariants of the graph store and the history, stated and proved over
//! the mathematical models that the executable operations are specified
//! against.

use vstd::prelude::*;

use crate::history::{commit_spec, HistModel, redo_result, SnapModel, undo_allowed, undo_result, undo_spec};
use crate::node::{ConnModel, NodeModel, Point};
use crate::model::PortModel;
use crate::ops::find_port;
use crate::store::{
    add_menu_item_spec, can_connect, connect_spec, delete_node_spec, find_node,
    GraphModel, node_index, snap_of, StoreModel, wf_graph, wf_store,
};
use crate::seqs::lemma_first_where;

verus! {

/// Law: adding a node assigns an id that no live node carries or ever
/// carried (all past and present ids lie below the counter), and the live
/// ids stay pairwise distinct.
pub proof fn lemma_id_uniqueness(g: GraphModel, position: Point, title: Seq<char>)
    requires
        wf_graph(g),
        g.next_id < usize::MAX,
    ensures
        ({
            let g2 = add_menu_item_spec(g, position, title);
            &&& wf_graph(g2)
            &&& g2.nodes.last().id == g.next_id
            &&& forall|i: int|
                0 <= i < g.nodes.len() ==> (#[trigger] g.nodes[i]).id != g.next_id
        }),
{
    let g2 = add_menu_item_spec(g, position, title);
    assert forall|i: int, j: int| 0 <= i < j < g2.nodes.len() implies g2.nodes[i].id
        != g2.nodes[j].id by {
        if j < g2.nodes.len() - 1 {
            assert(g2.nodes[i] == g.nodes[i] && g2.nodes[j] == g.nodes[j]);
        } else {
            assert(g2.nodes[i] == g.nodes[i]);
            assert(g.nodes[i].id < g.next_id);
        }
    }
    assert forall|i: int| 0 <= i < g2.nodes.len() implies (#[trigger] g2.nodes[i].id)
        < g2.next_id by {
        if i < g2.nodes.len() - 1 {
            assert(g2.nodes[i] == g.nodes[i]);
            assert(g.nodes[i].id < g.next_id);
        }
    }
}

/// Law: deleting a node keeps the remaining ids distinct and never lowers
/// the id counter, so a deleted id is never reassigned to a later node.
pub proof fn lemma_delete_keeps_ids_fresh(g: GraphModel, id: usize)
    requires
        wf_graph(g),
    ensures
        wf_graph(delete_node_spec(g, id)),
        delete_node_spec(g, id).next_id == g.next_id,
{
    crate::store::lemma_filter_nodes_wf(g.nodes, |n: NodeModel| n.id != id, g.next_id);
}

/// Law: a connection from a node to itself is always rejected, whatever the
/// ports, and the graph is unchanged.
pub proof fn lemma_connect_self_loop(g: GraphModel, a: usize, p: Seq<char>, q: Seq<char>)
    ensures
        !can_connect(g, a, p, a, q),
        connect_spec(g, a, p, a, q) == g,
{
}

/// Law: immediately repeating an accepted connection request is rejected,
/// because the exact four-tuple is then already present.
pub proof fn lemma_connect_twice(
    g: GraphModel,
    from_node: usize,
    from_port: Seq<char>,
    to_node: usize,
    to_port: Seq<char>,
)
    requires
        can_connect(g, from_node, from_port, to_node, to_port),
    ensures
        !can_connect(
            connect_spec(g, from_node, from_port, to_node, to_port),
            from_node,
            from_port,
            to_node,
            to_port,
        ),
        connect_spec(
            connect_spec(g, from_node, from_port, to_node, to_port),
            from_node,
            from_port,
            to_node,
            to_port,
        ) == connect_spec(g, from_node, from_port, to_node, to_port),
{
    let g2 = connect_spec(g, from_node, from_port, to_node, to_port);
    let target = ConnModel { from_node, to_node, from_port, to_port };
    assert(g2.connections[g2.connections.len() - 1] == target);
}

/// Law: a request naming an output and an input port whose types differ is
/// always rejected and never mutates the connection collection.
pub proof fn lemma_connect_type_mismatch(
    g: GraphModel,
    from_node: usize,
    from_port: Seq<char>,
    to_node: usize,
    to_port: Seq<char>,
    pa: PortModel,
    pb: PortModel,
)
    requires
        find_node(g.nodes, from_node) matches Some(a) && find_port(a.outputs, from_port) == Some(
            pa,
        ),
        find_node(g.nodes, to_node) matches Some(b) && find_port(b.inputs, to_port) == Some(pb),
        pa.port_type != pb.port_type,
    ensures
        !can_connect(g, from_node, from_port, to_node, to_port),
        connect_spec(g, from_node, from_port, to_node, to_port) == g,
{
}

/// Law: after deleting a node, no connection references it in either
/// direction, the node itself cannot be found, and every other node is still
/// present.
pub proof fn lemma_cascade_delete(g: GraphModel, id: usize)
    requires
        wf_graph(g),
    ensures
        ({
            let g2 = delete_node_spec(g, id);
            &&& forall|i: int|
                0 <= i < g2.connections.len() ==> (#[trigger] g2.connections[i]).from_node != id
                    && g2.connections[i].to_node != id
            &&& find_node(g2.nodes, id) is None
            &&& forall|i: int|
                0 <= i < g.nodes.len() && (#[trigger] g.nodes[i]).id != id ==> g2.nodes.contains(
                    g.nodes[i],
                )
        }),
{
    let g2 = delete_node_spec(g, id);
    let cpred = |c: ConnModel| c.from_node != id && c.to_node != id;
    let npred = |n: NodeModel| n.id != id;
    assert forall|i: int| 0 <= i < g2.connections.len() implies (#[trigger] g2.connections[i]).from_node
        != id && g2.connections[i].to_node != id by {
        g.connections.lemma_filter_pred(cpred, i);
    }
    let fw = node_index(g2.nodes, id);
    lemma_first_where(g2.nodes, |n: NodeModel| n.id == id);
    if fw < g2.nodes.len() {
        g2.nodes.lemma_filter_pred(npred, fw);
        assert(false);
    }
    assert forall|i: int|
        0 <= i < g.nodes.len() && (#[trigger] g.nodes[i]).id != id implies g2.nodes.contains(
        g.nodes[i],
    ) by {
        g.nodes.lemma_filter_contains(npred, i);
    }
}

/// Law: starting from any well-formed store whose history can hold at least
/// two states, committing the state a mutation produced lets one undo
/// restore exactly the state before the mutation, and a redo thereafter
/// restore exactly the mutated state.
pub proof fn lemma_undo_redo_round_trip(s0: StoreModel, g1: GraphModel)
    requires
        wf_store(s0),
        s0.hist.capacity >= 2,
        wf_graph(g1),
        g1.next_id >= s0.graph.next_id,
    ensures
        ({
            let h1 = commit_spec(s0.hist, snap_of(g1));
            &&& undo_allowed(h1)
            &&& undo_result(h1) == Some(snap_of(s0.graph))
            &&& redo_result(undo_spec(h1)) == Some(snap_of(g1))
        }),
{
    let h1 = commit_spec(s0.hist, snap_of(g1));
    let pushed = s0.hist.undo.push(snap_of(g1));
    if pushed.len() > s0.hist.capacity {
        assert(h1.undo == pushed.drop_first());
        assert(h1.undo[h1.undo.len() - 2] == pushed[pushed.len() - 2]);
    }
    assert(pushed[pushed.len() - 2] == s0.hist.undo.last());
    assert(h1.undo.last() == snap_of(g1));
}

/// Law: the undo stack never outgrows its capacity; a commit grows it by
/// one until the bound is reached and thereafter evicts the oldest entry.
pub proof fn lemma_history_bound(h: HistModel, s: SnapModel)
    requires
        !h.applying,
        h.capacity >= 1,
        h.undo.len() <= h.capacity,
    ensures
        commit_spec(h, s).undo.len() <= h.capacity,
        h.undo.len() < h.capacity ==> commit_spec(h, s).undo == h.undo.push(s),
        h.undo.len() == h.capacity ==> commit_spec(h, s).undo == h.undo.drop_first().push(s),
{
    let pushed = h.undo.push(s);
    if h.undo.len() == h.capacity {
        assert(commit_spec(h, s).undo =~= h.undo.drop_first().push(s));
    }
}

/// The history after a whole sequence of commits, in order.
pub open spec fn commit_all(h: HistModel, snaps: Seq<SnapModel>) -> HistModel
    decreases snaps.len(),
{
    if snaps.len() == 0 {
        h
    } else {
        commit_all(commit_spec(h, snaps[0]), snaps.drop_first())
    }
}

/// Law: however many states are committed, the undo stack never outgrows
/// its capacity, and once enough states have been committed exactly the
/// capacity remains retrievable, the oldest evicted.
pub proof fn lemma_history_bound_many(h: HistModel, snaps: Seq<SnapModel>)
    requires
        !h.applying,
        h.capacity >= 1,
        1 <= h.undo.len() <= h.capacity,
    ensures
        ({
            let h2 = commit_all(h, snaps);
            &&& 1 <= h2.undo.len() <= h.capacity
            &&& h2.capacity == h.capacity
            &&& h.undo.len() + snaps.len() >= h.capacity ==> h2.undo.len() == h.capacity
            &&& h.undo.len() + snaps.len() < h.capacity ==> h2.undo.len() == h.undo.len()
                + snaps.len()
        }),
    decreases snaps.len(),
{
    if snaps.len() > 0 {
        let h1 = commit_spec(h, snaps[0]);
        lemma_history_bound_many(h1, snaps.drop_first());
    }
}

/// The history after a number of consecutive undos.
pub open spec fn undo_iter(h: HistModel, k: nat) -> HistModel
    decreases k,
{
    if k == 0 {
        h
    } else {
        undo_spec(undo_iter(h, (k - 1) as nat))
    }
}

/// Law: consecutive undos change state exactly as many times as there are
/// retained states beyond the sentinel, and every later undo is a no-op.
/// After at least as many commits as the capacity (`lemma_history_bound_many`
/// puts the stack at exactly the capacity), that is capacity minus one
/// effective undos.
pub proof fn lemma_undo_stops(h: HistModel, k: nat)
    requires
        !h.applying,
        h.undo.len() >= 1,
    ensures
        !undo_iter(h, k).applying,
        undo_iter(h, k).undo.len() == if k < h.undo.len() {
            h.undo.len() - k
        } else {
            1
        },
        undo_allowed(undo_iter(h, k)) <==> k + 1 < h.undo.len(),
        k + 1 >= h.undo.len() ==> undo_iter(h, (k + 1) as nat) == undo_iter(h, k),
    decreases k,
{
    if k > 0 {
        lemma_undo_stops(h, (k - 1) as nat);
    }
}

} // verus!
