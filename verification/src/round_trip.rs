//! The provable core of the export/import round trip: a menu entry without
//! children survives being imported and rebuilt, with only the documented
//! normalization applied to its members.

use vstd::prelude::*;

use crate::export::{
    build_item_spec, callback_of, docs_from_ids, items_from_ids, MenuItemModel, opt_text,
    param_text,
};
use crate::import::{import_item_spec, opt_or_empty};
use crate::json::json_valid;
use crate::model::{ParamModel, ValueModel};
use crate::node::{ConnModel, NodeModel, param_index, Point};
use crate::ops::menu_item_node;
use crate::seqs::{first_where, lemma_first_where, lemma_filter_sub};
use crate::store::{
    child_menu_ids, document_ids, find_node, GraphModel, node_index, wf_graph,
};

verus! {

/// The first parameter with the given id sits exactly at `k` when `k`
/// carries it and nothing before does.
proof fn lemma_param_index_exact(params: Seq<ParamModel>, id: Seq<char>, k: int)
    requires
        0 <= k < params.len(),
        params[k].id == id,
        forall|j: int| 0 <= j < k ==> (#[trigger] params[j]).id != id,
    ensures
        param_index(params, id) == k,
{
    let p = |pm: ParamModel| pm.id == id;
    lemma_first_where(params, p);
    let fw = first_where(params, p);
    if fw < k {
        assert(p(params[fw]));
        assert(false);
    }
    if fw > k {
        assert(!p(params[k]));
        assert(false);
    }
}

/// No parameter carries the id: the index equals the length.
proof fn lemma_param_index_missing(params: Seq<ParamModel>, id: Seq<char>)
    requires
        forall|j: int| 0 <= j < params.len() ==> (#[trigger] params[j]).id != id,
    ensures
        param_index(params, id) == params.len(),
{
    let p = |pm: ParamModel| pm.id == id;
    lemma_first_where(params, p);
    let fw = first_where(params, p);
    if fw < params.len() {
        assert(p(params[fw]));
        assert(false);
    }
}

/// A freshly appended node is found at the end of the node list.
proof fn lemma_fresh_node_index(nodes: Seq<NodeModel>, id: usize)
    requires
        nodes.len() > 0,
        nodes.last().id == id,
        forall|j: int| 0 <= j < nodes.len() - 1 ==> (#[trigger] nodes[j]).id != id,
    ensures
        node_index(nodes, id) == nodes.len() - 1,
        find_node(nodes, id) == Some(nodes.last()),
{
    let p = |n: NodeModel| n.id == id;
    lemma_first_where(nodes, p);
    let fw = first_where(nodes, p);
    if fw < nodes.len() - 1 {
        assert(p(nodes[fw]));
        assert(false);
    }
    if fw == nodes.len() {
        assert(!p(nodes[nodes.len() - 1]));
        assert(false);
    }
}

/// No connection leaves the node: both child lists it exports are empty.
proof fn lemma_no_outgoing_no_children(g: GraphModel, id: usize)
    requires
        forall|i: int|
            0 <= i < g.connections.len() ==> (#[trigger] g.connections[i]).from_node != id,
    ensures
        child_menu_ids(g, id) == Seq::<usize>::empty(),
        document_ids(g, id) == Seq::<usize>::empty(),
{
    let cpred = |c: ConnModel| c.from_node == id && c.from_port == "sub_menu"@
        && crate::store::is_menu_node(g.nodes, c.to_node);
    let dpred = |c: ConnModel| c.from_node == id && c.from_port == "documents"@;
    lemma_filter_sub(g.connections, cpred);
    lemma_filter_sub(g.connections, dpred);
    let cf = g.connections.filter(cpred);
    if cf.len() > 0 {
        assert(cf.contains(cf[0]));
        assert(g.connections.contains(cf[0]));
        let i = choose|i: int| 0 <= i < g.connections.len() && g.connections[i] == cf[0];
        g.connections.lemma_filter_pred(cpred, 0);
        assert(false);
    }
    assert(cf =~= Seq::<ConnModel>::empty());
    let df = g.connections.filter(dpred);
    if df.len() > 0 {
        assert(df.contains(df[0]));
        assert(g.connections.contains(df[0]));
        let i = choose|i: int| 0 <= i < g.connections.len() && g.connections[i] == df[0];
        g.connections.lemma_filter_pred(dpred, 0);
        assert(false);
    }
    assert(df =~= Seq::<ConnModel>::empty());
    assert(child_menu_ids(g, id) =~= Seq::<usize>::empty());
    assert(document_ids(g, id) =~= Seq::<usize>::empty());
}

/// Law: importing a menu entry without children and rebuilding it from the
/// graph returns the entry with only the documented normalization applied —
/// the text survives verbatim, an empty callback is replaced by the
/// synthesized one, empty optional members fall away, and a data member
/// survives exactly when it is non-empty, well-formed JSON.
pub proof fn lemma_leaf_item_round_trip(
    g: GraphModel,
    item: MenuItemModel,
    parent: usize,
    pos: Point,
    fuel: nat,
)
    requires
        wf_graph(g),
        g.next_id < usize::MAX,
        item.submenu.len() == 0,
        item.documents.len() == 0,
        forall|i: int|
            0 <= i < g.connections.len() ==> (#[trigger] g.connections[i]).from_node != g.next_id,
        parent != g.next_id,
    ensures
        build_item_spec(import_item_spec(g, item, parent, pos), g.next_id, fuel) == Some(
            MenuItemModel {
                text: item.text,
                callback_data: if item.callback_data.len() > 0 {
                    item.callback_data
                } else {
                    callback_of(item.text, g.next_id)
                },
                description: opt_text(opt_or_empty(item.description)),
                url: opt_text(opt_or_empty(item.url)),
                submenu: Seq::empty(),
                documents: Seq::empty(),
                data: match item.data {
                    Some(dt) => if dt.len() > 0 && json_valid(dt) {
                        Some(dt)
                    } else {
                        None
                    },
                    None => None,
                },
                text_content: opt_text(opt_or_empty(item.text_content)),
            },
        ),
{
    reveal_strlit("name");
    reveal_strlit("callback_data");
    reveal_strlit("description");
    reveal_strlit("url");
    reveal_strlit("text_content");
    reveal_strlit("data");
    reveal_strlit("sub_menu");
    reveal_strlit("parent_menu");
    assert("name"@[0] == 'n' && "data"@[0] == 'd');
    assert("name"@ != "data"@);
    let id = g.next_id;
    let base = menu_item_node(id, item.text, pos);
    let g1 = crate::store::add_menu_item_spec(g, pos, item.text);
    assert(g1.nodes.last() == base);
    assert(forall|j: int|
        0 <= j < g1.nodes.len() - 1 ==> (#[trigger] g1.nodes[j]).id != id);
    lemma_fresh_node_index(g1.nodes, id);
    let k = g1.nodes.len() - 1;

    // Pin the parameter layout of the catalog node.
    assert(base.params[0].id == "name"@);
    lemma_param_index_exact(base.params, "callback_data"@, 1);
    let n1 = crate::node::node_with_param_text(base, "callback_data"@, item.callback_data);
    let g2 = crate::store::set_node_param_spec(g1, id, "callback_data"@, item.callback_data);
    assert(g2.nodes =~= g1.nodes.update(k, n1));
    assert(g2.nodes.last() == n1);
    assert(n1.params =~= base.params.update(
        1,
        ParamModel { value: ValueModel::Text(item.callback_data), ..base.params[1] },
    ));
    lemma_fresh_node_index(g2.nodes, id);

    assert(n1.params[0].id == "name"@ && n1.params[1].id == "callback_data"@ && n1.params[2].id
        == "description"@ && n1.params[3].id == "url"@ && n1.params[4].id == "text_content"@);
    lemma_param_index_exact(n1.params, "description"@, 2);
    let n2 = crate::node::node_with_param_text(n1, "description"@, opt_or_empty(item.description));
    let g3 = crate::store::set_node_param_spec(g2, id, "description"@, opt_or_empty(item.description));
    assert(g3.nodes =~= g2.nodes.update(k, n2));
    assert(g3.nodes.last() == n2);
    lemma_fresh_node_index(g3.nodes, id);

    assert(n2.params[0].id == "name"@ && n2.params[1].id == "callback_data"@ && n2.params[2].id
        == "description"@ && n2.params[3].id == "url"@ && n2.params[4].id == "text_content"@);
    lemma_param_index_exact(n2.params, "url"@, 3);
    let n3 = crate::node::node_with_param_text(n2, "url"@, opt_or_empty(item.url));
    let g4 = crate::store::set_node_param_spec(g3, id, "url"@, opt_or_empty(item.url));
    assert(g4.nodes =~= g3.nodes.update(k, n3));
    assert(g4.nodes.last() == n3);
    lemma_fresh_node_index(g4.nodes, id);

    assert(n3.params[0].id == "name"@ && n3.params[1].id == "callback_data"@ && n3.params[2].id
        == "description"@ && n3.params[3].id == "url"@ && n3.params[4].id == "text_content"@);
    lemma_param_index_exact(n3.params, "text_content"@, 4);
    let n4 = crate::node::node_with_param_text(
        n3,
        "text_content"@,
        opt_or_empty(item.text_content),
    );
    let g5 = crate::store::set_node_param_spec(g4, id, "text_content"@, opt_or_empty(item.text_content));
    assert(g5.nodes =~= g4.nodes.update(k, n4));
    assert(g5.nodes.last() == n4);
    lemma_fresh_node_index(g5.nodes, id);

    assert(n4.params[0].id == "name"@ && n4.params[1].id == "callback_data"@ && n4.params[2].id
        == "description"@ && n4.params[3].id == "url"@ && n4.params[4].id == "text_content"@);
    assert(n4.params.len() == 5);
    assert forall|j: int| 0 <= j < n4.params.len() implies (#[trigger] n4.params[j]).id
        != "data"@ by {
        reveal_strlit("name");
        reveal_strlit("callback_data");
        reveal_strlit("description");
        reveal_strlit("url");
        reveal_strlit("text_content");
        reveal_strlit("data");
        if j == 0 {
        } else if j == 1 {
        } else if j == 2 {
        } else if j == 3 {
        } else {
            assert(j == 4);
        }
    }
    let n5 = match item.data {
        Some(dt) => NodeModel { params: n4.params.push(crate::store::data_param(dt)), ..n4 },
        None => n4,
    };
    let g6 = match item.data {
        Some(dt) => crate::store::set_or_add_data_spec(g5, id, dt),
        None => g5,
    };
    match item.data {
        Some(dt) => {
            lemma_param_index_missing(n4.params, "data"@);
            assert(g6.nodes =~= g5.nodes.update(k, n5));
            assert(g6.nodes.last() == n5);
        },
        None => {},
    }
    lemma_fresh_node_index(g6.nodes, id);

    let g7 = crate::store::connect_spec(g6, parent, "sub_menu"@, id, "parent_menu"@);
    assert(g7.nodes == g6.nodes);
    assert(forall|i: int|
        0 <= i < g7.connections.len() ==> (#[trigger] g7.connections[i]).from_node != id);
    let g8 = crate::import::import_items_spec(g7, item.submenu, id, pos, 0);
    assert(g8 == g7);
    let g9 = crate::import::import_docs_spec(g8, item.documents, id, pos, 0);
    assert(g9 == g8);
    assert(import_item_spec(g, item, parent, pos) == g9);

    lemma_fresh_node_index(g9.nodes, id);
    let n = find_node(g9.nodes, id).unwrap();
    assert(n == n5);

    // Read every parameter back.
    assert(n.params[0].id == "name"@ && n.params[1].id == "callback_data"@ && n.params[2].id
        == "description"@ && n.params[3].id == "url"@ && n.params[4].id == "text_content"@);
    lemma_param_index_exact(n.params, "name"@, 0);
    assert(param_text(n, "name"@) == item.text);
    lemma_param_index_exact(n.params, "callback_data"@, 1);
    assert(param_text(n, "callback_data"@) == item.callback_data);
    lemma_param_index_exact(n.params, "description"@, 2);
    assert(param_text(n, "description"@) == opt_or_empty(item.description));
    lemma_param_index_exact(n.params, "url"@, 3);
    assert(param_text(n, "url"@) == opt_or_empty(item.url));
    lemma_param_index_exact(n.params, "text_content"@, 4);
    assert(param_text(n, "text_content"@) == opt_or_empty(item.text_content));
    match item.data {
        Some(dt) => {
            lemma_param_index_exact(n.params, "data"@, 5);
            assert(param_text(n, "data"@) == dt);
        },
        None => {
            assert(n.params =~= n4.params);
            lemma_param_index_missing(n.params, "data"@);
            assert(param_text(n, "data"@) == Seq::<char>::empty());
        },
    }

    lemma_no_outgoing_no_children(g9, id);
    if fuel > 0 {
        assert(items_from_ids(g9, child_menu_ids(g9, id), (fuel - 1) as nat)
            =~= Seq::<MenuItemModel>::empty());
    }
    assert(docs_from_ids(g9, document_ids(g9, id)) =~= Seq::<crate::export::DocModel>::empty());
    let built = build_item_spec(g9, id, fuel).unwrap();
    assert(built.text == item.text);
    assert(built.submenu =~= Seq::<MenuItemModel>::empty());
    assert(built.documents =~= Seq::<crate::export::DocModel>::empty());
}

/// Law: importing a document entry and reading it back yields the entry
/// with only the documented normalization applied — text and URL survive
/// verbatim, an empty callback member falls away.
pub proof fn lemma_document_round_trip(
    g: GraphModel,
    d: crate::export::DocModel,
    parent: usize,
    pos: Point,
)
    requires
        wf_graph(g),
        g.next_id < usize::MAX,
    ensures
        ({
            let g2 = crate::import::import_doc_spec(g, d, parent, pos);
            find_node(g2.nodes, g.next_id) matches Some(n) && crate::export::doc_of_node(n)
                == (crate::export::DocModel {
                text: d.text,
                callback_data: match d.callback_data {
                    Some(cb) => if cb.len() > 0 {
                        Some(cb)
                    } else {
                        None
                    },
                    None => None,
                },
                url: d.url,
            })
        }),
{
    reveal_strlit("text");
    reveal_strlit("callback_data");
    reveal_strlit("url");
    let id = g.next_id;
    let base = crate::ops::document_node(id, d.text, pos);
    let g1 = crate::store::add_document_spec(g, pos, d.text);
    assert(g1.nodes.last() == base);
    assert(forall|j: int|
        0 <= j < g1.nodes.len() - 1 ==> (#[trigger] g1.nodes[j]).id != id);
    lemma_fresh_node_index(g1.nodes, id);
    let k = g1.nodes.len() - 1;
    assert(base.params[0].id == "text"@ && base.params[1].id == "callback_data"@
        && base.params[2].id == "url"@);

    let n1 = match d.callback_data {
        Some(cb) => if cb.len() > 0 {
            crate::node::node_with_param_text(base, "callback_data"@, cb)
        } else {
            base
        },
        None => base,
    };
    let g2 = match d.callback_data {
        Some(cb) => if cb.len() > 0 {
            crate::store::set_node_param_spec(g1, id, "callback_data"@, cb)
        } else {
            g1
        },
        None => g1,
    };
    match d.callback_data {
        Some(cb) => {
            if cb.len() > 0 {
                lemma_param_index_exact(base.params, "callback_data"@, 1);
                assert(g2.nodes =~= g1.nodes.update(k, n1));
            }
        },
        None => {},
    }
    assert(g2.nodes.last() == n1);
    lemma_fresh_node_index(g2.nodes, id);
    assert(n1.params[0].id == "text"@ && n1.params[1].id == "callback_data"@ && n1.params[2].id
        == "url"@);

    lemma_param_index_exact(n1.params, "url"@, 2);
    let n2 = crate::node::node_with_param_text(n1, "url"@, d.url);
    let g3 = crate::store::set_node_param_spec(g2, id, "url"@, d.url);
    assert(g3.nodes =~= g2.nodes.update(k, n2));
    assert(g3.nodes.last() == n2);
    lemma_fresh_node_index(g3.nodes, id);

    let g4 = crate::store::connect_spec(g3, parent, "documents"@, id, "parent_menu"@);
    assert(g4.nodes == g3.nodes);
    assert(crate::import::import_doc_spec(g, d, parent, pos) == g4);
    lemma_fresh_node_index(g4.nodes, id);
    let n = find_node(g4.nodes, id).unwrap();
    assert(n == n2);
    assert(n.params[0].id == "text"@ && n.params[1].id == "callback_data"@ && n.params[2].id
        == "url"@);
    lemma_param_index_exact(n.params, "text"@, 0);
    assert(param_text(n, "text"@) == d.text);
    lemma_param_index_exact(n.params, "callback_data"@, 1);
    lemma_param_index_exact(n.params, "url"@, 2);
    assert(param_text(n, "url"@) == d.url);
}

/// Law: importing an FAQ entry and rebuilding it returns the question and
/// the answer verbatim; an entry whose answer is empty is not rebuilt at
/// all, and the tags come back as the comma-split of their joined text.
pub proof fn lemma_faq_round_trip(g: GraphModel, f: crate::export::FaqModel, pos: Point)
    requires
        wf_graph(g),
        g.next_id < usize::MAX,
    ensures
        crate::export::build_faq_spec(crate::import::import_faq_spec(g, f, pos), g.next_id) == (
        if f.answer.len() > 0 {
            Some(
                crate::export::FaqModel {
                    question: f.question,
                    answer: f.answer,
                    tags: if crate::import::join_tags(f.tags).len() > 0 {
                        crate::export::split_tags(crate::import::join_tags(f.tags))
                    } else {
                        Seq::empty()
                    },
                },
            )
        } else {
            None
        }),
{
    reveal_strlit("question");
    reveal_strlit("answer");
    reveal_strlit("tags");
    reveal_strlit("tag");
    let id = g.next_id;
    let base = crate::ops::faq_item_node(id, f.question, pos);
    let g1 = crate::store::add_faq_item_spec(g, pos, f.question);
    assert(g1.nodes.last() == base);
    assert(forall|j: int|
        0 <= j < g1.nodes.len() - 1 ==> (#[trigger] g1.nodes[j]).id != id);
    lemma_fresh_node_index(g1.nodes, id);
    let k = g1.nodes.len() - 1;

    assert(base.params[0].id == "question"@ && base.params[1].id == "answer"@ && base.params[2].id
        == "tags"@);
    lemma_param_index_exact(base.params, "answer"@, 1);
    let n1 = crate::node::node_with_param_text(base, "answer"@, f.answer);
    let g2 = crate::store::set_node_param_spec(g1, id, "answer"@, f.answer);
    assert(g2.nodes =~= g1.nodes.update(k, n1));
    assert(g2.nodes.last() == n1);
    lemma_fresh_node_index(g2.nodes, id);

    assert(n1.params[0].id == "question"@ && n1.params[1].id == "answer"@ && n1.params[2].id
        == "tags"@);
    let joined = crate::import::join_tags(f.tags);
    lemma_param_index_exact(n1.params, "tags"@, 2);
    let n2 = crate::node::node_with_param_text(n1, "tags"@, joined);
    let g3 = crate::store::set_node_param_spec(g2, id, "tags"@, joined);
    assert(g3.nodes =~= g2.nodes.update(k, n2));
    assert(g3.nodes.last() == n2);
    lemma_fresh_node_index(g3.nodes, id);
    assert(crate::import::import_faq_spec(g, f, pos) == g3);

    let n = find_node(g3.nodes, id).unwrap();
    assert(n == n2);
    assert(n.params[0].id == "question"@ && n.params[1].id == "answer"@ && n.params[2].id
        == "tags"@);
    lemma_param_index_exact(n.params, "question"@, 0);
    assert(param_text(n, "question"@) == f.question);
    lemma_param_index_exact(n.params, "answer"@, 1);
    assert(param_text(n, "answer"@) == f.answer);
    lemma_param_index_exact(n.params, "tags"@, 2);
    assert(param_text(n, "tags"@) == joined);
    assert forall|j: int| 0 <= j < n.params.len() implies (#[trigger] n.params[j]).id
        != "tag"@ by {
        if j == 0 {
        } else if j == 1 {
        } else {
            assert(j == 2);
        }
    }
    lemma_param_index_missing(n.params, "tag"@);
    assert(crate::export::faq_of_node(n).question == f.question);
    assert(crate::export::faq_of_node(n).answer == f.answer);
}

/// A node found in a graph is found unchanged, at the same place, in any
/// graph that extends it without touching the existing nodes.
proof fn lemma_node_index_stable(s1: Seq<NodeModel>, s2: Seq<NodeModel>, id: usize)
    requires
        s2.len() >= s1.len(),
        forall|j: int| 0 <= j < s1.len() ==> s2[j] == s1[j],
        node_index(s1, id) < s1.len(),
    ensures
        node_index(s2, id) == node_index(s1, id),
        find_node(s2, id) == find_node(s1, id),
{
    let p = |n: NodeModel| n.id == id;
    lemma_first_where(s1, p);
    lemma_first_where(s2, p);
    let f1 = first_where(s1, p);
    let f2 = first_where(s2, p);
    assert(p(s1[f1]));
    assert(p(s2[f1]));
    if f2 < f1 {
        assert(p(s2[f2]));
        assert(s2[f2] == s1[f2]);
        assert(false);
    }
    if f2 > f1 {
        assert(!p(s2[f1]));
        assert(false);
    }
}

/// The FAQ entry a node builds to does not change when the graph grows
/// around it.
proof fn lemma_build_faq_stable(g1: GraphModel, g2: GraphModel, id: usize)
    requires
        g2.nodes.len() >= g1.nodes.len(),
        forall|j: int| 0 <= j < g1.nodes.len() ==> g2.nodes[j] == g1.nodes[j],
        node_index(g1.nodes, id) < g1.nodes.len(),
    ensures
        crate::export::build_faq_spec(g2, id) == crate::export::build_faq_spec(g1, id),
{
    lemma_node_index_stable(g1.nodes, g2.nodes, id);
}

/// Building FAQ entries distributes over list concatenation.
proof fn lemma_faqs_from_ids_concat(g: GraphModel, a: Seq<usize>, b: Seq<usize>)
    ensures
        crate::export::faqs_from_ids(g, a + b) == crate::export::faqs_from_ids(g, a)
            + crate::export::faqs_from_ids(g, b),
    decreases b.len(),
{
    if b.len() == 0 {
        assert(a + b =~= a);
        assert(crate::export::faqs_from_ids(g, a) + crate::export::faqs_from_ids(g, b)
            =~= crate::export::faqs_from_ids(g, a));
    } else {
        assert((a + b).drop_last() =~= a + b.drop_last());
        assert((a + b).last() == b.last());
        lemma_faqs_from_ids_concat(g, a, b.drop_last());
        match crate::export::build_faq_spec(g, b.last()) {
            Some(f) => {
                assert(crate::export::faqs_from_ids(g, a + b) =~= crate::export::faqs_from_ids(
                    g,
                    a,
                ) + crate::export::faqs_from_ids(g, b));
            },
            None => {
                assert(crate::export::faqs_from_ids(g, a + b) =~= crate::export::faqs_from_ids(
                    g,
                    a,
                ) + crate::export::faqs_from_ids(g, b));
            },
        }
    }
}

/// Building the FAQ entries of ids that all name existing nodes yields the
/// same list in any graph extending the one they live in.
proof fn lemma_faqs_from_ids_stable(g1: GraphModel, g2: GraphModel, ids: Seq<usize>)
    requires
        g2.nodes.len() >= g1.nodes.len(),
        forall|j: int| 0 <= j < g1.nodes.len() ==> g2.nodes[j] == g1.nodes[j],
        forall|k: int| 0 <= k < ids.len() ==> node_index(g1.nodes, #[trigger] ids[k])
            < g1.nodes.len(),
    ensures
        crate::export::faqs_from_ids(g2, ids) == crate::export::faqs_from_ids(g1, ids),
    decreases ids.len(),
{
    if ids.len() > 0 {
        lemma_faqs_from_ids_stable(g1, g2, ids.drop_last());
        lemma_build_faq_stable(g1, g2, ids.last());
    }
}

/// Every id the FAQ query returns names an existing node.
proof fn lemma_faq_ids_found(g: GraphModel)
    ensures
        forall|k: int| 0 <= k < crate::store::faq_ids(g).len() ==> node_index(
            g.nodes,
            #[trigger] crate::store::faq_ids(g)[k],
        ) < g.nodes.len(),
{
    let pred = |n: NodeModel| n.node_type == crate::node::NodeType::FaqItem;
    let filtered = g.nodes.filter(pred);
    lemma_filter_sub(g.nodes, pred);
    assert forall|k: int| 0 <= k < crate::store::faq_ids(g).len() implies node_index(
        g.nodes,
        #[trigger] crate::store::faq_ids(g)[k],
    ) < g.nodes.len() by {
        let id = crate::store::faq_ids(g)[k];
        assert(filtered[k].id == id);
        assert(filtered.contains(filtered[k]));
        assert(g.nodes.contains(filtered[k]));
        let m = choose|m: int| 0 <= m < g.nodes.len() && g.nodes[m] == filtered[k];
        let p = |n: NodeModel| n.id == id;
        lemma_first_where(g.nodes, p);
        if first_where(g.nodes, p) == g.nodes.len() {
            assert(!p(g.nodes[m]));
            assert(false);
        }
    }
}

/// The shape of a graph after one FAQ entry is imported: one node appended,
/// an FAQ node carrying the fresh id; nothing else moves.
proof fn lemma_import_faq_shape(g: GraphModel, f: crate::export::FaqModel, pos: Point)
    requires
        wf_graph(g),
        g.next_id < usize::MAX,
    ensures
        ({
            let g1 = crate::import::import_faq_spec(g, f, pos);
            &&& wf_graph(g1)
            &&& g1.next_id == g.next_id + 1
            &&& g1.connections == g.connections
            &&& g1.nodes.len() == g.nodes.len() + 1
            &&& forall|j: int| 0 <= j < g.nodes.len() ==> g1.nodes[j] == g.nodes[j]
            &&& g1.nodes.last().id == g.next_id
            &&& g1.nodes.last().node_type == crate::node::NodeType::FaqItem
        }),
{
    let id = g.next_id;
    let base = crate::ops::faq_item_node(id, f.question, pos);
    let ga = crate::store::add_faq_item_spec(g, pos, f.question);
    assert(ga.nodes.last() == base);
    assert(forall|j: int|
        0 <= j < ga.nodes.len() - 1 ==> (#[trigger] ga.nodes[j]).id != id);
    lemma_fresh_node_index(ga.nodes, id);
    let k = ga.nodes.len() - 1;
    let gb = crate::store::set_node_param_spec(ga, id, "answer"@, f.answer);
    assert(gb.nodes =~= ga.nodes.update(k, gb.nodes.last()));
    lemma_fresh_node_index(gb.nodes, id);
    let gc = crate::store::set_node_param_spec(
        gb,
        id,
        "tags"@,
        crate::import::join_tags(f.tags),
    );
    assert(gc.nodes =~= gb.nodes.update(k, gc.nodes.last()));
    let g1 = crate::import::import_faq_spec(g, f, pos);
    assert(g1 == gc);
    crate::store::lemma_push_fresh_wf(g.nodes, ga.nodes, g.next_id);
    crate::store::lemma_update_same_ids_wf(ga.nodes, gb.nodes, g1.next_id);
    crate::store::lemma_update_same_ids_wf(gb.nodes, gc.nodes, g1.next_id);
}

/// The exported FAQ list a list of imported entries becomes: entries whose
/// answer is empty fall away; the others keep question and answer verbatim,
/// their tags re-read from the joined text.
pub open spec fn norm_faqs(faqs: Seq<crate::export::FaqModel>) -> Seq<crate::export::FaqModel>
    decreases faqs.len(),
{
    if faqs.len() == 0 {
        Seq::empty()
    } else {
        let head = faqs[0];
        let entry: Seq<crate::export::FaqModel> = if head.answer.len() > 0 {
            seq![
                crate::export::FaqModel {
                    question: head.question,
                    answer: head.answer,
                    tags: if crate::import::join_tags(head.tags).len() > 0 {
                        crate::export::split_tags(crate::import::join_tags(head.tags))
                    } else {
                        Seq::empty()
                    },
                },
            ]
        } else {
            Seq::empty()
        };
        entry + norm_faqs(faqs.drop_first())
    }
}

/// Law: importing a list of FAQ entries and exporting again reproduces the
/// graph's previous FAQ list followed by the imported entries, with only
/// the documented normalization applied to them.
pub proof fn lemma_faq_list_round_trip(g: GraphModel, faqs: Seq<crate::export::FaqModel>, i: int)
    requires
        wf_graph(g),
        g.next_id + faqs.len() <= usize::MAX,
    ensures
        ({
            let gf = crate::import::import_faqs_spec(g, faqs, i);
            crate::export::faqs_from_ids(gf, crate::store::faq_ids(gf))
                == crate::export::faqs_from_ids(g, crate::store::faq_ids(g)) + norm_faqs(faqs)
        }),
    decreases faqs.len(),
{
    let gf = crate::import::import_faqs_spec(g, faqs, i);
    if faqs.len() == 0 {
        assert(gf == g);
        assert(crate::export::faqs_from_ids(g, crate::store::faq_ids(g)) + norm_faqs(faqs)
            =~= crate::export::faqs_from_ids(g, crate::store::faq_ids(g)));
    } else {
        let f = faqs[0];
        let pos = crate::import::faq_pos(i);
        let id = g.next_id;
        let g1 = crate::import::import_faq_spec(g, f, pos);
        lemma_import_faq_shape(g, f, pos);
        crate::round_trip::lemma_faq_round_trip(g, f, pos);

        // The FAQ ids of the grown graph: the old ones, then the new node.
        let pred = |n: NodeModel| n.node_type == crate::node::NodeType::FaqItem;
        assert(g1.nodes =~= g.nodes.push(g1.nodes.last()));
        assert(g1.nodes.drop_last() =~= g.nodes);
        reveal(Seq::filter);
        assert(g1.nodes.filter(pred) =~= g.nodes.filter(pred).push(g1.nodes.last()));
        assert(crate::store::faq_ids(g1) =~= crate::store::faq_ids(g).push(id));
        assert(crate::store::faq_ids(g1) =~= crate::store::faq_ids(g) + seq![id]);

        // The old entries build identically in the grown graph.
        lemma_faq_ids_found(g);
        lemma_faqs_from_ids_stable(g, g1, crate::store::faq_ids(g));
        lemma_faqs_from_ids_concat(g1, crate::store::faq_ids(g), seq![id]);
        assert(seq![id].drop_last() =~= Seq::<usize>::empty());
        let entry: Seq<crate::export::FaqModel> = if f.answer.len() > 0 {
            seq![
                crate::export::FaqModel {
                    question: f.question,
                    answer: f.answer,
                    tags: if crate::import::join_tags(f.tags).len() > 0 {
                        crate::export::split_tags(crate::import::join_tags(f.tags))
                    } else {
                        Seq::empty()
                    },
                },
            ]
        } else {
            Seq::empty()
        };
        reveal_with_fuel(crate::export::faqs_from_ids, 3);
        assert(crate::export::faqs_from_ids(g1, seq![id]) =~= entry);

        // Induction over the remaining entries.
        lemma_faq_list_round_trip(g1, faqs.drop_first(), i + 1);
        assert(gf == crate::import::import_faqs_spec(g1, faqs.drop_first(), i + 1));
        assert(norm_faqs(faqs) =~= entry + norm_faqs(faqs.drop_first()));
        assert(crate::export::faqs_from_ids(gf, crate::store::faq_ids(gf))
            =~= crate::export::faqs_from_ids(g, crate::store::faq_ids(g)) + norm_faqs(faqs));
    }
}

} // verus!
