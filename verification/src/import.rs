//! The importer: rebuilds a graph from a menu document, and reads such a
//! document out of JSON text.
//!
//! The document-to-graph direction is exact: one root menu node for the
//! title, one node per entry, children wired through `sub_menu`, documents
//! through `documents`, FAQ entries as unconnected nodes.  The whole import
//! is committed as a single undoable step.  Reading JSON is best effort:
//! missing optional members default silently; exactly the texts that do not
//! parse, or whose top level is not an object, fail, leaving the graph
//! untouched.

use vstd::prelude::*;

use crate::export::{BotMenuConfig, ConfigModel, Document, DocModel, FaqItem, FaqModel, MenuItem, MenuItemModel, item_view, items_view};
use crate::history::commit_spec;
use crate::json::{json_as_array, json_as_str, json_get, json_object, json_render, json_valid, parse_json_object};
use crate::node::Point;
use crate::store::{
    add_document_spec, add_faq_item_spec, add_menu_item_spec, connect_spec, GraphModel,
    lemma_commit_keeps_wf, lemma_update_same_ids_wf, set_node_param_spec, set_or_add_data_spec,
    SimpleNodeGraph, snap_of, wf_graph,
};

verus! {

/// An integer clamped into the signed 64-bit range.
pub open spec fn clamp_i64(x: int) -> int {
    if x > i64::MAX {
        i64::MAX as int
    } else if x < i64::MIN {
        i64::MIN as int
    } else {
        x
    }
}

/// Saturating addition of canvas coordinates.
pub fn sat_add64(a: i64, b: i64) -> (r: i64)
    ensures
        r as int == clamp_i64(a as int + b as int),
{
    if b >= 0 {
        if a > i64::MAX - b {
            i64::MAX
        } else {
            a + b
        }
    } else {
        if a < i64::MIN - b {
            i64::MIN
        } else {
            a + b
        }
    }
}

/// A small multiple of a list index, for laying imported nodes out in a
/// column; indexes beyond ten million share one position.
pub open spec fn spec_scaled(i: int, k: int) -> int {
    if i > 10000000 {
        10000000 * k
    } else {
        i * k
    }
}

pub fn scaled_index(i: usize, k: i64) -> (r: i64)
    requires
        1 <= k <= 1000,
    ensures
        r as int == spec_scaled(i as int, k as int),
{
    let j: usize = if i > 10000000 {
        10000000
    } else {
        i
    };
    proof {
        assert(j * k <= 10000000000 && j * k >= 0) by (nonlinear_arith)
            requires
                0 <= j <= 10000000,
                1 <= k <= 1000,
        ;
    }
    (j as i64) * k
}

/// Where the entry at the given index under a parent is placed.
pub open spec fn child_pos(parent: Point, i: int) -> Point {
    Point {
        x: clamp_i64(parent.x + 300) as i64,
        y: clamp_i64(parent.y + spec_scaled(i, 120)) as i64,
    }
}

/// Where the document entry at the given index under a parent is placed.
pub open spec fn doc_pos(parent: Point, i: int) -> Point {
    Point {
        x: clamp_i64(parent.x + 300) as i64,
        y: clamp_i64(parent.y + spec_scaled(i, 80)) as i64,
    }
}

/// Where the FAQ entry at the given index is placed.
pub open spec fn faq_pos(i: int) -> Point {
    Point { x: 100, y: clamp_i64(500 + spec_scaled(i, 100)) as i64 }
}

/// The text of an optional member, defaulting to the empty text.
pub open spec fn opt_or_empty(o: Option<Seq<char>>) -> Seq<char> {
    match o {
        Some(t) => t,
        None => Seq::empty(),
    }
}

/// The text the tag list of an FAQ entry is stored as: the tags joined with
/// a comma and a space.
pub open spec fn join_tags(tags: Seq<Seq<char>>) -> Seq<char>
    decreases tags.len(),
{
    if tags.len() == 0 {
        Seq::empty()
    } else if tags.len() == 1 {
        tags[0]
    } else {
        join_tags(tags.drop_last()) + ", "@ + tags.last()
    }
}

/// Join tags with a comma and a space.
pub fn join_tags_exec(tags: &Vec<String>) -> (r: String)
    ensures
        r@ == join_tags(tags@.map_values(|t: String| t@)),
{
    let ghost views = tags@.map_values(|t: String| t@);
    if tags.len() == 0 {
        return String::new();
    }
    let mut out = tags[0].clone();
    let n = tags.len();
    for i in 1..n
        invariant
            n == tags@.len(),
            1 <= i <= n,
            views == tags@.map_values(|t: String| t@),
            out@ == join_tags(views.take(i as int)),
    {
        proof {
            assert(views.take(i + 1).drop_last() =~= views.take(i as int));
        }
        out.append(", ");
        out.append(tags[i].as_str());
        assert(out@ =~= join_tags(views.take(i + 1)));
    }
    assert(views.take(n as int) =~= views);
    out
}

/// The graph after importing one document entry: a document node whose
/// parameters come from the entry, wired to the parent through `documents`.
pub open spec fn import_doc_spec(g: GraphModel, d: DocModel, parent: usize, pos: Point) -> GraphModel {
    if g.next_id == usize::MAX {
        g
    } else {
        let id = g.next_id;
        let g1 = add_document_spec(g, pos, d.text);
        let g2 = match d.callback_data {
            Some(cb) => if cb.len() > 0 {
                set_node_param_spec(g1, id, "callback_data"@, cb)
            } else {
                g1
            },
            None => g1,
        };
        let g3 = set_node_param_spec(g2, id, "url"@, d.url);
        connect_spec(g3, parent, "documents"@, id, "parent_menu"@)
    }
}

/// The graph after importing a list of document entries, in order.
pub open spec fn import_docs_spec(
    g: GraphModel,
    docs: Seq<DocModel>,
    parent: usize,
    parent_pos: Point,
    i: int,
) -> GraphModel
    decreases docs.len(),
{
    if docs.len() == 0 {
        g
    } else {
        let g1 = import_doc_spec(g, docs[0], parent, doc_pos(parent_pos, i));
        import_docs_spec(g1, docs.drop_first(), parent, parent_pos, i + 1)
    }
}

/// The graph after importing one menu entry: a menu node whose parameters
/// come from the entry, wired to the parent through `sub_menu`, followed by
/// its submenu and documents.
pub open spec fn import_item_spec(
    g: GraphModel,
    item: MenuItemModel,
    parent: usize,
    pos: Point,
) -> GraphModel
    decreases item,
{
    if g.next_id == usize::MAX {
        g
    } else {
        let id = g.next_id;
        let g1 = add_menu_item_spec(g, pos, item.text);
        let g2 = set_node_param_spec(g1, id, "callback_data"@, item.callback_data);
        let g3 = set_node_param_spec(g2, id, "description"@, opt_or_empty(item.description));
        let g4 = set_node_param_spec(g3, id, "url"@, opt_or_empty(item.url));
        let g5 = set_node_param_spec(g4, id, "text_content"@, opt_or_empty(item.text_content));
        let g6 = match item.data {
            Some(dt) => set_or_add_data_spec(g5, id, dt),
            None => g5,
        };
        let g7 = connect_spec(g6, parent, "sub_menu"@, id, "parent_menu"@);
        let g8 = import_items_spec(g7, item.submenu, id, pos, 0);
        import_docs_spec(g8, item.documents, id, pos, 0)
    }
}

/// The graph after importing a list of menu entries under one parent.
pub open spec fn import_items_spec(
    g: GraphModel,
    items: Seq<MenuItemModel>,
    parent: usize,
    parent_pos: Point,
    i: int,
) -> GraphModel
    decreases items,
{
    if items.len() == 0 {
        g
    } else {
        let g1 = import_item_spec(g, items[0], parent, child_pos(parent_pos, i));
        import_items_spec(g1, items.drop_first(), parent, parent_pos, i + 1)
    }
}

/// The graph after importing one FAQ entry: an unconnected FAQ node seeded
/// with the question, its answer and joined tags stored as parameters.
pub open spec fn import_faq_spec(g: GraphModel, f: FaqModel, pos: Point) -> GraphModel {
    if g.next_id == usize::MAX {
        g
    } else {
        let id = g.next_id;
        let g1 = add_faq_item_spec(g, pos, f.question);
        let g2 = set_node_param_spec(g1, id, "answer"@, f.answer);
        set_node_param_spec(g2, id, "tags"@, join_tags(f.tags))
    }
}

/// The graph after importing a list of FAQ entries.
pub open spec fn import_faqs_spec(g: GraphModel, faqs: Seq<FaqModel>, i: int) -> GraphModel
    decreases faqs.len(),
{
    if faqs.len() == 0 {
        g
    } else {
        let g1 = import_faq_spec(g, faqs[0], faq_pos(i));
        import_faqs_spec(g1, faqs.drop_first(), i + 1)
    }
}

/// The graph after importing a whole document: one root menu node carrying
/// the document title, the menu entries as its children, the FAQ entries
/// unconnected.
pub open spec fn import_config_spec(g: GraphModel, d: ConfigModel) -> GraphModel {
    if g.next_id == usize::MAX {
        g
    } else {
        let root = g.next_id;
        let g1 = add_menu_item_spec(g, Point { x: 100, y: 100 }, d.title);
        let g2 = import_items_spec(g1, d.main_menu, root, Point { x: 100, y: 100 }, 0);
        import_faqs_spec(g2, d.faq, 0)
    }
}

/// Reads documents into the graph store.
pub struct DataImporter;

fn clone_opt_or_empty(o: &Option<String>) -> (r: String)
    ensures
        r@ == opt_or_empty(crate::export::opt_view(*o)),
{
    match o {
        Some(s) => s.clone(),
        None => String::new(),
    }
}

fn import_doc_nc(graph: &mut SimpleNodeGraph, d: &Document, parent: usize, pos: Point)
    requires
        wf_graph(old(graph)@.graph),
    ensures
        wf_graph(final(graph)@.graph),
        final(graph)@.graph == import_doc_spec(old(graph)@.graph, d@, parent, pos),
        final(graph)@.hist == old(graph)@.hist,
        final(graph)@.graph.next_id >= old(graph)@.graph.next_id,
{
    if graph.next_id == usize::MAX {
        return ;
    }
    let id = graph.add_document_nc(pos, d.text.clone());
    let ghost ga = graph@.graph;
    match &d.callback_data {
        Some(cb) => {
            if !cb.as_str().is_empty() {
                graph.set_node_param_text_nc(id, "callback_data", cb.clone());
                proof {
                    lemma_update_same_ids_wf(ga.nodes, graph@.graph.nodes, ga.next_id);
                }
            }
        },
        None => {},
    }
    let ghost gb = graph@.graph;
    graph.set_node_param_text_nc(id, "url", d.url.clone());
    proof {
        lemma_update_same_ids_wf(gb.nodes, graph@.graph.nodes, gb.next_id);
    }
    graph.connect_nodes_nc(parent, "documents", id, "parent_menu");
}

fn import_docs_nc(graph: &mut SimpleNodeGraph, docs: &Vec<Document>, parent: usize, parent_pos: Point)
    requires
        wf_graph(old(graph)@.graph),
    ensures
        wf_graph(final(graph)@.graph),
        final(graph)@.graph == import_docs_spec(
            old(graph)@.graph,
            docs@.map_values(|d: Document| d@),
            parent,
            parent_pos,
            0,
        ),
        final(graph)@.hist == old(graph)@.hist,
        final(graph)@.graph.next_id >= old(graph)@.graph.next_id,
{
    let ghost views = docs@.map_values(|d: Document| d@);
    let ghost g0 = old(graph)@.graph;
    assert(views.skip(0) =~= views);
    let n = docs.len();
    for i in 0..n
        invariant
            n == docs@.len(),
            views == docs@.map_values(|d: Document| d@),
            wf_graph(graph@.graph),
            graph@.hist == old(graph)@.hist,
            graph@.graph.next_id >= g0.next_id,
            import_docs_spec(g0, views, parent, parent_pos, 0) == import_docs_spec(
                graph@.graph,
                views.skip(i as int),
                parent,
                parent_pos,
                i as int,
            ),
    {
        proof {
            assert(views.skip(i as int)[0] == views[i as int]);
            assert(views.skip(i as int).drop_first() =~= views.skip(i + 1));
        }
        let pos = Point {
            x: sat_add64(parent_pos.x, 300),
            y: sat_add64(parent_pos.y, scaled_index(i, 80)),
        };
        import_doc_nc(graph, &docs[i], parent, pos);
    }
    assert(views.skip(n as int) =~= Seq::<DocModel>::empty());
}

fn import_item_nc(graph: &mut SimpleNodeGraph, item: &MenuItem, parent: usize, pos: Point)
    requires
        wf_graph(old(graph)@.graph),
    ensures
        wf_graph(final(graph)@.graph),
        final(graph)@.graph == import_item_spec(old(graph)@.graph, item@, parent, pos),
        final(graph)@.hist == old(graph)@.hist,
        final(graph)@.graph.next_id >= old(graph)@.graph.next_id,
    decreases *item,
{
    if graph.next_id == usize::MAX {
        return ;
    }
    let id = graph.add_menu_item_nc(pos, item.text.clone());
    let ghost g1 = graph@.graph;
    graph.set_node_param_text_nc(id, "callback_data", item.callback_data.clone());
    proof {
        lemma_update_same_ids_wf(g1.nodes, graph@.graph.nodes, g1.next_id);
    }
    let ghost g2 = graph@.graph;
    graph.set_node_param_text_nc(id, "description", clone_opt_or_empty(&item.description));
    proof {
        lemma_update_same_ids_wf(g2.nodes, graph@.graph.nodes, g2.next_id);
    }
    let ghost g3 = graph@.graph;
    graph.set_node_param_text_nc(id, "url", clone_opt_or_empty(&item.url));
    proof {
        lemma_update_same_ids_wf(g3.nodes, graph@.graph.nodes, g3.next_id);
    }
    let ghost g4 = graph@.graph;
    graph.set_node_param_text_nc(id, "text_content", clone_opt_or_empty(&item.text_content));
    proof {
        lemma_update_same_ids_wf(g4.nodes, graph@.graph.nodes, g4.next_id);
    }
    match &item.data {
        Some(dt) => {
            let ghost g5 = graph@.graph;
            graph.set_or_add_data_nc(id, dt.clone());
            proof {
                lemma_update_same_ids_wf(g5.nodes, graph@.graph.nodes, g5.next_id);
            }
        },
        None => {},
    }
    graph.connect_nodes_nc(parent, "sub_menu", id, "parent_menu");
    proof {
        assert(decreases_to!(*item => item.submenu));
        assert(decreases_to!(item.submenu => item.submenu@));
    }
    import_items_nc(graph, &item.submenu, id, pos);
    import_docs_nc(graph, &item.documents, id, pos);
}

fn import_items_nc(graph: &mut SimpleNodeGraph, items: &Vec<MenuItem>, parent: usize, parent_pos: Point)
    requires
        wf_graph(old(graph)@.graph),
    ensures
        wf_graph(final(graph)@.graph),
        final(graph)@.graph == import_items_spec(
            old(graph)@.graph,
            items_view(items@),
            parent,
            parent_pos,
            0,
        ),
        final(graph)@.hist == old(graph)@.hist,
        final(graph)@.graph.next_id >= old(graph)@.graph.next_id,
    decreases items@,
{
    let ghost views = items_view(items@);
    let ghost g0 = old(graph)@.graph;
    proof {
        crate::export::lemma_items_view_len(items@);
    }
    assert(views.skip(0) =~= views);
    let n = items.len();
    for i in 0..n
        invariant
            n == items@.len(),
            views == items_view(items@),
            views.len() == n,
            forall|j: int| 0 <= j < n ==> views[j] == item_view(#[trigger] items@[j]),
            wf_graph(graph@.graph),
            graph@.hist == old(graph)@.hist,
            graph@.graph.next_id >= g0.next_id,
            import_items_spec(g0, views, parent, parent_pos, 0) == import_items_spec(
                graph@.graph,
                views.skip(i as int),
                parent,
                parent_pos,
                i as int,
            ),
        decreases n - i,
    {
        proof {
            assert(views.skip(i as int)[0] == views[i as int]);
            assert(views.skip(i as int).drop_first() =~= views.skip(i + 1));
        }
        let pos = Point {
            x: sat_add64(parent_pos.x, 300),
            y: sat_add64(parent_pos.y, scaled_index(i, 120)),
        };
        proof {
            assert(decreases_to!(items@ => items@[i as int]));
        }
        import_item_nc(graph, &items[i], parent, pos);
    }
    assert(views.skip(n as int) =~= Seq::<MenuItemModel>::empty());
}

fn import_faqs_nc(graph: &mut SimpleNodeGraph, faqs: &Vec<FaqItem>)
    requires
        wf_graph(old(graph)@.graph),
    ensures
        wf_graph(final(graph)@.graph),
        final(graph)@.graph == import_faqs_spec(
            old(graph)@.graph,
            faqs@.map_values(|f: FaqItem| f@),
            0,
        ),
        final(graph)@.hist == old(graph)@.hist,
        final(graph)@.graph.next_id >= old(graph)@.graph.next_id,
{
    let ghost views = faqs@.map_values(|f: FaqItem| f@);
    let ghost g0 = old(graph)@.graph;
    assert(views.skip(0) =~= views);
    let n = faqs.len();
    for i in 0..n
        invariant
            n == faqs@.len(),
            views == faqs@.map_values(|f: FaqItem| f@),
            wf_graph(graph@.graph),
            graph@.hist == old(graph)@.hist,
            graph@.graph.next_id >= g0.next_id,
            import_faqs_spec(g0, views, 0) == import_faqs_spec(
                graph@.graph,
                views.skip(i as int),
                i as int,
            ),
    {
        proof {
            assert(views.skip(i as int)[0] == views[i as int]);
            assert(views.skip(i as int).drop_first() =~= views.skip(i + 1));
        }
        if graph.next_id < usize::MAX {
            let pos = Point { x: 100, y: sat_add64(500, scaled_index(i, 100)) };
            let id = graph.add_faq_item_nc(pos, faqs[i].question.clone());
            let ghost ga = graph@.graph;
            graph.set_node_param_text_nc(id, "answer", faqs[i].answer.clone());
            proof {
                lemma_update_same_ids_wf(ga.nodes, graph@.graph.nodes, ga.next_id);
            }
            let ghost gb = graph@.graph;
            let joined = join_tags_exec(&faqs[i].tags);
            graph.set_node_param_text_nc(id, "tags", joined);
            proof {
                lemma_update_same_ids_wf(gb.nodes, graph@.graph.nodes, gb.next_id);
            }
        }
    }
    assert(views.skip(n as int) =~= Seq::<FaqModel>::empty());
}

/// One graph extends another: everything already there is untouched, and
/// every added node carries an id the smaller graph had not assigned yet.
pub open spec fn extends_from(g0: GraphModel, g1: GraphModel) -> bool {
    &&& g1.next_id >= g0.next_id
    &&& g1.nodes.len() >= g0.nodes.len()
    &&& forall|j: int| 0 <= j < g0.nodes.len() ==> g1.nodes[j] == g0.nodes[j]
    &&& forall|j: int|
        g0.nodes.len() <= j < g1.nodes.len() ==> g0.next_id <= (#[trigger] g1.nodes[j]).id
            < g1.next_id
    &&& g1.connections.len() >= g0.connections.len()
    &&& forall|j: int| 0 <= j < g0.connections.len() ==> g1.connections[j] == g0.connections[j]
    &&& g1.active_node == g0.active_node
    &&& g1.pan == g0.pan
    &&& g1.zoom == g0.zoom
}

proof fn lemma_extends_trans(g0: GraphModel, g1: GraphModel, g2: GraphModel)
    requires
        extends_from(g0, g1),
        extends_from(g1, g2),
    ensures
        extends_from(g0, g2),
{
    assert forall|j: int|
        g0.nodes.len() <= j < g2.nodes.len() implies g0.next_id <= (#[trigger] g2.nodes[j]).id
        < g2.next_id by {
        if j < g1.nodes.len() {
            assert(g2.nodes[j] == g1.nodes[j]);
            if j >= g0.nodes.len() {
                assert(g0.next_id <= g1.nodes[j].id < g1.next_id);
            }
        }
    }
}

proof fn lemma_set_param_extends(g0: GraphModel, g1: GraphModel, id: usize, pid: Seq<char>, t: Seq<char>)
    requires
        wf_graph(g0),
        extends_from(g0, g1),
        id >= g0.next_id,
    ensures
        extends_from(g0, set_node_param_spec(g1, id, pid, t)),
{
    let p = |n: crate::node::NodeModel| n.id == id;
    crate::seqs::lemma_first_where(g1.nodes, p);
    let fw = crate::seqs::first_where(g1.nodes, p);
    if fw < g0.nodes.len() {
        assert(p(g1.nodes[fw]));
        assert(g1.nodes[fw] == g0.nodes[fw]);
        assert(g0.nodes[fw].id < g0.next_id);
        assert(false);
    }
}

proof fn lemma_set_or_add_data_extends(g0: GraphModel, g1: GraphModel, id: usize, dt: Seq<char>)
    requires
        wf_graph(g0),
        extends_from(g0, g1),
        id >= g0.next_id,
    ensures
        extends_from(g0, set_or_add_data_spec(g1, id, dt)),
{
    let p = |n: crate::node::NodeModel| n.id == id;
    crate::seqs::lemma_first_where(g1.nodes, p);
    let fw = crate::seqs::first_where(g1.nodes, p);
    if fw < g0.nodes.len() {
        assert(p(g1.nodes[fw]));
        assert(g1.nodes[fw] == g0.nodes[fw]);
        assert(g0.nodes[fw].id < g0.next_id);
        assert(false);
    }
}

proof fn lemma_add_node_extends(g0: GraphModel, g1: GraphModel, n: crate::node::NodeModel)
    requires
        extends_from(g0, g1),
        g1.next_id < usize::MAX,
        n.id == g1.next_id,
    ensures
        extends_from(g0, crate::store::g_add_node(g1, n)),
{
}

proof fn lemma_import_doc_extends(g0: GraphModel, g1: GraphModel, d: DocModel, parent: usize, pos: Point)
    requires
        wf_graph(g0),
        extends_from(g0, g1),
    ensures
        extends_from(g0, import_doc_spec(g1, d, parent, pos)),
{
    if g1.next_id < usize::MAX {
        let id = g1.next_id;
        let ga = add_document_spec(g1, pos, d.text);
        lemma_add_node_extends(g0, g1, crate::ops::document_node(id, d.text, pos));
        let gb = match d.callback_data {
            Some(cb) => if cb.len() > 0 {
                lemma_set_param_extends(g0, ga, id, "callback_data"@, cb);
                set_node_param_spec(ga, id, "callback_data"@, cb)
            } else {
                ga
            },
            None => ga,
        };
        lemma_set_param_extends(g0, gb, id, "url"@, d.url);
        let gc = set_node_param_spec(gb, id, "url"@, d.url);
        assert(extends_from(g0, connect_spec(gc, parent, "documents"@, id, "parent_menu"@)));
    }
}

proof fn lemma_import_docs_extends(
    g0: GraphModel,
    g1: GraphModel,
    docs: Seq<DocModel>,
    parent: usize,
    parent_pos: Point,
    i: int,
)
    requires
        wf_graph(g0),
        extends_from(g0, g1),
    ensures
        extends_from(g0, import_docs_spec(g1, docs, parent, parent_pos, i)),
    decreases docs.len(),
{
    if docs.len() > 0 {
        lemma_import_doc_extends(g0, g1, docs[0], parent, doc_pos(parent_pos, i));
        lemma_import_docs_extends(
            g0,
            import_doc_spec(g1, docs[0], parent, doc_pos(parent_pos, i)),
            docs.drop_first(),
            parent,
            parent_pos,
            i + 1,
        );
    }
}

proof fn lemma_import_item_extends(
    g0: GraphModel,
    g1: GraphModel,
    item: MenuItemModel,
    parent: usize,
    pos: Point,
)
    requires
        wf_graph(g0),
        extends_from(g0, g1),
    ensures
        extends_from(g0, import_item_spec(g1, item, parent, pos)),
    decreases item, 0int,
{
    if g1.next_id < usize::MAX {
        let id = g1.next_id;
        let ga = add_menu_item_spec(g1, pos, item.text);
        lemma_add_node_extends(g0, g1, crate::ops::menu_item_node(id, item.text, pos));
        lemma_set_param_extends(g0, ga, id, "callback_data"@, item.callback_data);
        let gb = set_node_param_spec(ga, id, "callback_data"@, item.callback_data);
        lemma_set_param_extends(g0, gb, id, "description"@, opt_or_empty(item.description));
        let gc = set_node_param_spec(gb, id, "description"@, opt_or_empty(item.description));
        lemma_set_param_extends(g0, gc, id, "url"@, opt_or_empty(item.url));
        let gd = set_node_param_spec(gc, id, "url"@, opt_or_empty(item.url));
        lemma_set_param_extends(g0, gd, id, "text_content"@, opt_or_empty(item.text_content));
        let ge = set_node_param_spec(gd, id, "text_content"@, opt_or_empty(item.text_content));
        let gf = match item.data {
            Some(dt) => {
                lemma_set_or_add_data_extends(g0, ge, id, dt);
                set_or_add_data_spec(ge, id, dt)
            },
            None => ge,
        };
        let gg = connect_spec(gf, parent, "sub_menu"@, id, "parent_menu"@);
        assert(extends_from(g0, gg));
        lemma_import_items_extends(g0, gg, item.submenu, id, pos, 0);
        lemma_import_docs_extends(
            g0,
            import_items_spec(gg, item.submenu, id, pos, 0),
            item.documents,
            id,
            pos,
            0,
        );
    }
}

proof fn lemma_import_items_extends(
    g0: GraphModel,
    g1: GraphModel,
    items: Seq<MenuItemModel>,
    parent: usize,
    parent_pos: Point,
    i: int,
)
    requires
        wf_graph(g0),
        extends_from(g0, g1),
    ensures
        extends_from(g0, import_items_spec(g1, items, parent, parent_pos, i)),
    decreases items, 1int,
{
    if items.len() > 0 {
        lemma_import_item_extends(g0, g1, items[0], parent, child_pos(parent_pos, i));
        lemma_import_items_extends(
            g0,
            import_item_spec(g1, items[0], parent, child_pos(parent_pos, i)),
            items.drop_first(),
            parent,
            parent_pos,
            i + 1,
        );
    }
}

proof fn lemma_import_faqs_extends(g0: GraphModel, g1: GraphModel, faqs: Seq<FaqModel>, i: int)
    requires
        wf_graph(g0),
        extends_from(g0, g1),
    ensures
        extends_from(g0, import_faqs_spec(g1, faqs, i)),
    decreases faqs.len(),
{
    if faqs.len() > 0 {
        let f = faqs[0];
        let pos = faq_pos(i);
        if g1.next_id < usize::MAX {
            let id = g1.next_id;
            let ga = add_faq_item_spec(g1, pos, f.question);
            lemma_add_node_extends(g0, g1, crate::ops::faq_item_node(id, f.question, pos));
            lemma_set_param_extends(g0, ga, id, "answer"@, f.answer);
            let gb = set_node_param_spec(ga, id, "answer"@, f.answer);
            lemma_set_param_extends(g0, gb, id, "tags"@, join_tags(f.tags));
        }
        lemma_import_faqs_extends(g0, import_faq_spec(g1, f, pos), faqs.drop_first(), i + 1);
    }
}

/// Law: an import only ever adds to the graph — every node and connection
/// already present survives untouched, in place, and every node the import
/// creates carries a fresh id.
pub proof fn lemma_import_extends(g: GraphModel, d: ConfigModel)
    requires
        wf_graph(g),
    ensures
        extends_from(g, import_config_spec(g, d)),
{
    if g.next_id < usize::MAX {
        let root = g.next_id;
        let g1 = add_menu_item_spec(g, Point { x: 100, y: 100 }, d.title);
        lemma_add_node_extends(g, g, crate::ops::menu_item_node(root, d.title, Point { x: 100, y: 100 }));
        lemma_import_items_extends(g, g1, d.main_menu, root, Point { x: 100, y: 100 }, 0);
        lemma_import_faqs_extends(
            g,
            import_items_spec(g1, d.main_menu, root, Point { x: 100, y: 100 }, 0),
            d.faq,
            0,
        );
    }
}

impl DataImporter {
    /// Import a whole document into the graph: one root menu node for the
    /// title, its entries as children, the FAQ entries unconnected.  The
    /// whole import is one undoable step.
    pub fn import_document(graph: &mut SimpleNodeGraph, config: &BotMenuConfig)
        requires
            old(graph).wf(),
        ensures
            final(graph).wf(),
            final(graph)@.graph == import_config_spec(old(graph)@.graph, config@),
            final(graph)@.hist == commit_spec(old(graph)@.hist, snap_of(final(graph)@.graph)),
    {
        if graph.next_id < usize::MAX {
            let root = graph.add_menu_item_nc(Point { x: 100, y: 100 }, config.title.clone());
            import_items_nc(graph, &config.main_menu, root, Point { x: 100, y: 100 });
            import_faqs_nc(graph, &config.faq);
        }
        proof {
            lemma_commit_keeps_wf(old(graph)@, graph@.graph);
        }
        graph.save_state();
    }

    /// Import a menu document from JSON text.  This succeeds exactly on
    /// well-formed JSON text whose top level is an object; anything else
    /// fails the whole import with a descriptive error and leaves the graph
    /// untouched.  Missing members of items never fail and default silently.
    pub fn import_menu_data(graph: &mut SimpleNodeGraph, json_data: &str) -> (r: Result<
        (),
        String,
    >)
        requires
            old(graph).wf(),
        ensures
            final(graph).wf(),
            r is Ok <==> (json_valid(json_data@) && json_object(json_data@)),
            r is Err ==> final(graph)@ == old(graph)@,
            r is Ok ==> exists|d: ConfigModel|
                final(graph)@.graph == import_config_spec(old(graph)@.graph, d)
                    && final(graph)@.hist == commit_spec(
                    old(graph)@.hist,
                    snap_of(final(graph)@.graph),
                ),
    {
        let config = match parse_document(json_data) {
            Ok(c) => c,
            Err(e) => {
                return Err(e);
            },
        };
        Self::import_document(graph, &config);
        proof {
            let d = config@;
            assert(graph@.graph == import_config_spec(old(graph)@.graph, d));
        }
        Ok(())
    }
}

impl SimpleNodeGraph {
    /// Import a menu document from JSON text into this graph; the behaviour
    /// of [`DataImporter::import_menu_data`].
    pub fn import_from_json(&mut self, json_data: &str) -> (r: Result<(), String>)
        requires
            old(self).wf(),
        ensures
            final(self).wf(),
            r is Ok <==> (json_valid(json_data@) && json_object(json_data@)),
            r is Err ==> final(self)@ == old(self)@,
            r is Ok ==> exists|d: ConfigModel|
                final(self)@.graph == import_config_spec(old(self)@.graph, d)
                    && final(self)@.hist == commit_spec(
                    old(self)@.hist,
                    snap_of(final(self)@.graph),
                ),
    {
        DataImporter::import_menu_data(self, json_data)
    }
}

/// Read a menu document out of JSON text: best effort, missing members
/// defaulting silently.  This succeeds exactly on well-formed JSON text
/// whose top level is an object; everything else is rejected with a
/// descriptive error.
pub fn parse_document(text: &str) -> (r: Result<BotMenuConfig, String>)
    ensures
        r is Ok <==> (json_valid(text@) && json_object(text@)),
{
    let value = match parse_json_object(text) {
        Ok(v) => v,
        Err(e) => {
            return Err(e);
        },
    };
    let fuel = text.unicode_len();
    let title = match get_member_string(&value, "title") {
        Some(t) => t,
        None => "Telegram Bot Menu".to_owned(),
    };
    let main_menu: Vec<MenuItem> = match json_get(&value, "main_menu") {
        Some(m) => match json_as_array(m) {
            Some(arr) => values_to_items(arr, fuel),
            None => Vec::new(),
        },
        None => Vec::new(),
    };
    let faq: Vec<FaqItem> = match json_get(&value, "faq") {
        Some(f) => match json_as_array(f) {
            Some(arr) => values_to_faqs(arr),
            None => Vec::new(),
        },
        None => Vec::new(),
    };
    Ok(BotMenuConfig { title, main_menu, faq })
}

/// Read a string member of a JSON object.
fn get_member_string(v: &serde_json::Value, key: &str) -> Option<String> {
    match json_get(v, key) {
        Some(m) => match json_as_str(m) {
            Some(s) => Some(s.to_owned()),
            None => None,
        },
        None => None,
    }
}

/// Read one menu entry out of a JSON value, defaulting every missing
/// member; nesting deeper than the fuel is left out.
fn value_to_item(v: &serde_json::Value, fuel: usize) -> MenuItem
    decreases fuel, 0int,
{
    let text = match get_member_string(v, "text") {
        Some(t) => t,
        None => String::new(),
    };
    let callback_data = match get_member_string(v, "callback_data") {
        Some(t) => t,
        None => String::new(),
    };
    let description = get_member_string(v, "description");
    let url = get_member_string(v, "url");
    let text_content = get_member_string(v, "text_content");
    let data = match json_get(v, "data") {
        Some(d) => Some(json_render(d)),
        None => None,
    };
    let submenu: Vec<MenuItem> = if fuel == 0 {
        Vec::new()
    } else {
        match json_get(v, "submenu") {
            Some(s) => match json_as_array(s) {
                Some(arr) => values_to_items(arr, fuel - 1),
                None => Vec::new(),
            },
            None => Vec::new(),
        }
    };
    let documents: Vec<Document> = match json_get(v, "documents") {
        Some(d) => match json_as_array(d) {
            Some(arr) => values_to_docs(arr),
            None => Vec::new(),
        },
        None => Vec::new(),
    };
    MenuItem { text, callback_data, description, url, submenu, documents, data, text_content }
}

/// Read a list of menu entries out of a JSON array.
fn values_to_items(arr: &Vec<serde_json::Value>, fuel: usize) -> Vec<MenuItem>
    decreases fuel, 1int,
{
    let mut out: Vec<MenuItem> = Vec::new();
    let n = arr.len();
    for i in 0..n
        invariant
            n == arr@.len(),
    {
        out.push(value_to_item(&arr[i], fuel));
    }
    out
}

/// Read one document entry out of a JSON value.
fn value_to_doc(v: &serde_json::Value) -> Document {
    let text = match get_member_string(v, "text") {
        Some(t) => t,
        None => String::new(),
    };
    let callback_data = get_member_string(v, "callback_data");
    let url = match get_member_string(v, "url") {
        Some(t) => t,
        None => String::new(),
    };
    Document { text, callback_data, url }
}

/// Read a list of document entries out of a JSON array.
fn values_to_docs(arr: &Vec<serde_json::Value>) -> Vec<Document> {
    let mut out: Vec<Document> = Vec::new();
    let n = arr.len();
    for i in 0..n
        invariant
            n == arr@.len(),
    {
        out.push(value_to_doc(&arr[i]));
    }
    out
}

/// Read one FAQ entry out of a JSON value; the tags come as an array of
/// strings, anything else in it being ignored.
fn value_to_faq(v: &serde_json::Value) -> FaqItem {
    let question = match get_member_string(v, "question") {
        Some(t) => t,
        None => String::new(),
    };
    let answer = match get_member_string(v, "answer") {
        Some(t) => t,
        None => String::new(),
    };
    let mut tags: Vec<String> = Vec::new();
    match json_get(v, "tags") {
        Some(t) => match json_as_array(t) {
            Some(arr) => {
                let n = arr.len();
                for i in 0..n
                    invariant
                        n == arr@.len(),
                {
                    match json_as_str(&arr[i]) {
                        Some(s) => {
                            tags.push(s.to_owned());
                        },
                        None => {},
                    }
                }
            },
            None => {},
        },
        None => {},
    }
    FaqItem { question, answer, tags }
}

/// Read a list of FAQ entries out of a JSON array.
fn values_to_faqs(arr: &Vec<serde_json::Value>) -> Vec<FaqItem> {
    let mut out: Vec<FaqItem> = Vec::new();
    let n = arr.len();
    for i in 0..n
        invariant
            n == arr@.len(),
    {
        out.push(value_to_faq(&arr[i]));
    }
    out
}

} // verus!
