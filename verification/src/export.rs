//! The tree builder: projects the flat node/connection graph into a nested
//! menu document.
//!
//! The document types mirror the exchanged JSON schema; an empty `submenu`
//! or `documents` list and a `None` field stand for an omitted member.

use vstd::prelude::*;

use crate::json::{json_valid, parse_json};
use crate::model::{value_text, Parameter};
use crate::node::{param_index, Node, NodeModel};
use crate::seqs::first_where;
use crate::store::{
    child_menu_ids, document_ids, faq_ids, find_node, GraphModel, root_menu_ids, SimpleNodeGraph,
};

verus! {

/// What `str::to_lowercase` yields on a given text.  The result depends on
/// the characters alone.
pub uninterp spec fn lower_of(s: Seq<char>) -> Seq<char>;

/// Relies on `str::to_lowercase`.
#[verifier::external_body]
fn lowercase(s: &str) -> (r: String)
    ensures
        r@ == lower_of(s@),
{
    s.to_lowercase()
}

/// Whether `char::is_alphanumeric` holds of the character.
pub uninterp spec fn is_alnum(c: char) -> bool;

/// Relies on `char::is_alphanumeric`.
#[verifier::external_body]
fn alnum(c: char) -> (r: bool)
    ensures
        r == is_alnum(c),
{
    c.is_alphanumeric()
}

/// What `str::trim` yields on a given text: the text without leading and
/// trailing whitespace.  The result depends on the characters alone.
pub uninterp spec fn trim_of(s: Seq<char>) -> Seq<char>;

/// Relies on `str::trim`.
#[verifier::external_body]
fn trim(s: &str) -> (r: String)
    ensures
        r@ == trim_of(s@),
{
    s.trim().to_string()
}

/// The slug characters of an already lowercased text: alphanumeric
/// characters kept, spaces turned into underscores, everything else
/// dropped.
pub open spec fn slug_chars(s: Seq<char>) -> Seq<char>
    decreases s.len(),
{
    if s.len() == 0 {
        Seq::empty()
    } else {
        let rest = slug_chars(s.drop_last());
        let c = s.last();
        if c == ' ' {
            rest.push('_')
        } else if is_alnum(c) {
            rest.push(c)
        } else {
            rest
        }
    }
}

/// The slug of a title: lowercased, reduced to its slug characters, and
/// truncated to 64 characters.
pub open spec fn slug_of(title: Seq<char>) -> Seq<char> {
    let full = slug_chars(lower_of(title));
    if full.len() > 64 {
        full.take(64)
    } else {
        full
    }
}

/// Build the slug of a title.
pub fn slug_string(title: &str) -> (r: String)
    ensures
        r@ == slug_of(title@),
{
    let low = lowercase(title);
    let ghost lowered = low@;
    let n = low.as_str().unicode_len();
    let mut chars: Vec<char> = Vec::new();
    for i in 0..n
        invariant
            n == lowered.len(),
            low@ == lowered,
            chars@ == slug_chars(lowered.take(i as int)),
    {
        proof {
            assert(lowered.take(i + 1).drop_last() =~= lowered.take(i as int));
        }
        let c = low.as_str().get_char(i);
        if c == ' ' {
            chars.push('_');
        } else if alnum(c) {
            chars.push(c);
        }
        assert(chars@ =~= slug_chars(lowered.take(i + 1)));
    }
    assert(lowered.take(n as int) =~= lowered);
    let limit: usize = if chars.len() > 64 {
        64
    } else {
        chars.len()
    };
    let mut out = String::new();
    for i in 0..limit
        invariant
            limit <= chars@.len(),
            chars@ == slug_chars(lowered),
            out@ == chars@.take(i as int),
    {
        out.push(chars[i]);
        assert(out@ =~= chars@.take(i + 1));
    }
    assert(out@ =~= (if chars@.len() > 64 {
        chars@.take(64)
    } else {
        chars@
    }));
    out
}

/// The decimal digit character.
pub open spec fn digit_char(d: int) -> char {
    if d == 0 {
        '0'
    } else if d == 1 {
        '1'
    } else if d == 2 {
        '2'
    } else if d == 3 {
        '3'
    } else if d == 4 {
        '4'
    } else if d == 5 {
        '5'
    } else if d == 6 {
        '6'
    } else if d == 7 {
        '7'
    } else if d == 8 {
        '8'
    } else {
        '9'
    }
}

/// The decimal rendering of a non-negative integer.
pub open spec fn dec_chars(n: int) -> Seq<char>
    decreases n,
{
    if n < 10 {
        seq![digit_char(n)]
    } else {
        dec_chars(n / 10).push(digit_char(n % 10))
    }
}

fn digit(d: usize) -> (c: char)
    requires
        d < 10,
    ensures
        c == digit_char(d as int),
{
    if d == 0 {
        '0'
    } else if d == 1 {
        '1'
    } else if d == 2 {
        '2'
    } else if d == 3 {
        '3'
    } else if d == 4 {
        '4'
    } else if d == 5 {
        '5'
    } else if d == 6 {
        '6'
    } else if d == 7 {
        '7'
    } else if d == 8 {
        '8'
    } else {
        '9'
    }
}

/// Render a number in decimal.
pub fn dec_string(n: usize) -> (r: String)
    ensures
        r@ == dec_chars(n as int),
    decreases n,
{
    if n < 10 {
        let mut s = String::new();
        s.push(digit(n));
        assert(s@ =~= seq![digit_char(n as int)]);
        s
    } else {
        let mut s = dec_string(n / 10);
        s.push(digit(n % 10));
        s
    }
}

/// The fallback callback value for a node whose title slugs to nothing:
/// `item_` followed by the node id, unique since ids are.
pub open spec fn fallback_callback(id: usize) -> Seq<char> {
    "item_"@ + dec_chars(id as int)
}

/// The callback value synthesized from a title: its slug, or the id-based
/// fallback when the slug is empty.
pub open spec fn callback_of(title: Seq<char>, id: usize) -> Seq<char> {
    if slug_of(title).len() > 0 {
        slug_of(title)
    } else {
        fallback_callback(id)
    }
}

/// Synthesize a callback value from a title.
pub fn generate_callback_data(title: &str, node_id: usize) -> (r: String)
    ensures
        r@ == callback_of(title@, node_id),
{
    let s = slug_string(title);
    if s.as_str().unicode_len() > 0 {
        s
    } else {
        let mut out = "item_".to_owned();
        let digits = dec_string(node_id);
        out.append(digits.as_str());
        out
    }
}

/// The displayed text of the first parameter with the given id, or the
/// empty text when the node has none.
pub open spec fn param_text(n: NodeModel, id: Seq<char>) -> Seq<char> {
    let i = param_index(n.params, id);
    if i < n.params.len() {
        value_text(n.params[i].value)
    } else {
        Seq::empty()
    }
}

/// Read the displayed text of a parameter, defaulting to the empty string.
pub fn param_text_exec(n: &Node, id: &str) -> (r: String)
    ensures
        r@ == param_text(n@, id@),
{
    match n.find_param(id) {
        Some(p) => p.get_text(),
        None => String::new(),
    }
}

/// `Some` of a non-empty text, `None` of the empty one: an optional
/// document member.
pub open spec fn opt_text(t: Seq<char>) -> Option<Seq<char>> {
    if t.len() > 0 {
        Some(t)
    } else {
        None
    }
}

/// Mathematical view of a [`Document`].
pub struct DocModel {
    pub text: Seq<char>,
    pub callback_data: Option<Seq<char>>,
    pub url: Seq<char>,
}

/// A downloadable document entry of the exported menu.
#[derive(PartialEq, Debug)]
pub struct Document {
    pub text: String,
    pub callback_data: Option<String>,
    pub url: String,
}

/// The view of an optional string.
pub open spec fn opt_view(o: Option<String>) -> Option<Seq<char>> {
    match o {
        Some(s) => Some(s@),
        None => None,
    }
}

impl View for Document {
    type V = DocModel;

    open spec fn view(&self) -> DocModel {
        DocModel { text: self.text@, callback_data: opt_view(self.callback_data), url: self.url@ }
    }
}

/// Mathematical view of a [`FaqItem`].
pub struct FaqModel {
    pub question: Seq<char>,
    pub answer: Seq<char>,
    pub tags: Seq<Seq<char>>,
}

/// A question/answer entry of the exported document.
#[derive(PartialEq, Debug)]
pub struct FaqItem {
    pub question: String,
    pub answer: String,
    pub tags: Vec<String>,
}

impl View for FaqItem {
    type V = FaqModel;

    open spec fn view(&self) -> FaqModel {
        FaqModel {
            question: self.question@,
            answer: self.answer@,
            tags: self.tags@.map_values(|t: String| t@),
        }
    }
}

/// Mathematical view of a [`MenuItem`].
pub struct MenuItemModel {
    pub text: Seq<char>,
    pub callback_data: Seq<char>,
    pub description: Option<Seq<char>>,
    pub url: Option<Seq<char>>,
    pub submenu: Seq<MenuItemModel>,
    pub documents: Seq<DocModel>,
    pub data: Option<Seq<char>>,
    pub text_content: Option<Seq<char>>,
}

/// A menu entry of the exported document; submenus nest recursively, and an
/// empty list stands for an omitted member.
#[derive(PartialEq, Debug)]
pub struct MenuItem {
    pub text: String,
    pub callback_data: String,
    pub description: Option<String>,
    pub url: Option<String>,
    pub submenu: Vec<MenuItem>,
    pub documents: Vec<Document>,
    pub data: Option<String>,
    pub text_content: Option<String>,
}

/// The view of a menu item, recursively.
pub open spec fn item_view(m: MenuItem) -> MenuItemModel
    decreases m,
{
    MenuItemModel {
        text: m.text@,
        callback_data: m.callback_data@,
        description: opt_view(m.description),
        url: opt_view(m.url),
        submenu: items_view(m.submenu@),
        documents: m.documents@.map_values(|d: Document| d@),
        data: opt_view(m.data),
        text_content: opt_view(m.text_content),
    }
}

/// The views of a list of menu items.
pub open spec fn items_view(s: Seq<MenuItem>) -> Seq<MenuItemModel>
    decreases s,
{
    if s.len() == 0 {
        Seq::empty()
    } else {
        items_view(s.drop_last()).push(item_view(s.last()))
    }
}

impl View for MenuItem {
    type V = MenuItemModel;

    open spec fn view(&self) -> MenuItemModel {
        item_view(*self)
    }
}

/// The views of a list of menu items correspond index by index.
pub proof fn lemma_items_view_len(s: Seq<MenuItem>)
    ensures
        items_view(s).len() == s.len(),
        forall|j: int| 0 <= j < s.len() ==> items_view(s)[j] == item_view(#[trigger] s[j]),
    decreases s.len(),
{
    if s.len() > 0 {
        let d = s.drop_last();
        lemma_items_view_len(d);
        assert forall|j: int| 0 <= j < s.len() implies items_view(s)[j] == item_view(
            #[trigger] s[j],
        ) by {
            if j < s.len() - 1 {
                assert(d[j] == s[j]);
                assert(items_view(s)[j] == items_view(d)[j]);
            }
        }
    }
}

/// Mathematical view of a [`BotMenuConfig`].
pub struct ConfigModel {
    pub title: Seq<char>,
    pub main_menu: Seq<MenuItemModel>,
    pub faq: Seq<FaqModel>,
}

/// The whole exchanged document: a title, the nested menu tree, and the
/// flat FAQ list.
#[derive(PartialEq, Debug)]
pub struct BotMenuConfig {
    pub title: String,
    pub main_menu: Vec<MenuItem>,
    pub faq: Vec<FaqItem>,
}

impl View for BotMenuConfig {
    type V = ConfigModel;

    open spec fn view(&self) -> ConfigModel {
        ConfigModel {
            title: self.title@,
            main_menu: items_view(self.main_menu@),
            faq: self.faq@.map_values(|f: FaqItem| f@),
        }
    }
}

/// The comma-separated segments of a text: one more segment than commas,
/// in order, commas not included.
pub open spec fn split_commas(s: Seq<char>) -> Seq<Seq<char>>
    decreases s.len(),
{
    if s.len() == 0 {
        seq![Seq::empty()]
    } else {
        let rest = split_commas(s.drop_last());
        let c = s.last();
        if c == ',' {
            rest.push(Seq::empty())
        } else {
            rest.update(rest.len() - 1, rest.last().push(c))
        }
    }
}

/// The tag list read from a comma-separated text: each segment trimmed,
/// empty segments dropped.
pub open spec fn split_tags(s: Seq<char>) -> Seq<Seq<char>> {
    split_commas(s).map_values(|t: Seq<char>| trim_of(t)).filter(|t: Seq<char>| t.len() > 0)
}

/// Split a comma-separated text into trimmed, non-empty tags.
pub fn split_tags_exec(s: &str) -> (r: Vec<String>)
    ensures
        r@.map_values(|x: String| x@) == split_tags(s@),
{
    let n = s.unicode_len();
    let mut segs: Vec<String> = Vec::new();
    let mut cur = String::new();
    for i in 0..n
        invariant
            n == s@.len(),
            segs@.map_values(|x: String| x@).push(cur@) =~= split_commas(s@.take(i as int)),
    {
        proof {
            assert(s@.take(i + 1).drop_last() =~= s@.take(i as int));
        }
        let c = s.get_char(i);
        if c == ',' {
            segs.push(cur);
            cur = String::new();
        } else {
            cur.push(c);
        }
        assert(segs@.map_values(|x: String| x@).push(cur@) =~~= split_commas(s@.take(i + 1)));
    }
    assert(s@.take(n as int) =~= s@);
    segs.push(cur);
    let ghost raw = segs@.map_values(|x: String| x@);
    assert(raw =~= split_commas(s@));
    let mut out: Vec<String> = Vec::new();
    let m = segs.len();
    for i in 0..m
        invariant
            m == segs@.len(),
            raw == segs@.map_values(|x: String| x@),
            raw == split_commas(s@),
            out@.map_values(|x: String| x@) == raw.take(i as int).map_values(
                |t: Seq<char>| trim_of(t),
            ).filter(|t: Seq<char>| t.len() > 0),
    {
        proof {
            assert(raw.take(i + 1).drop_last() =~= raw.take(i as int));
            assert(raw.take(i + 1).map_values(|t: Seq<char>| trim_of(t)).drop_last() =~= raw.take(
                i as int,
            ).map_values(|t: Seq<char>| trim_of(t)));
        }
        let t = trim(segs[i].as_str());
        if !t.as_str().is_empty() {
            out.push(t);
        }
        proof {
            reveal(Seq::filter);
            assert(out@.map_values(|x: String| x@) =~= raw.take(i + 1).map_values(
                |t: Seq<char>| trim_of(t),
            ).filter(|t: Seq<char>| t.len() > 0));
        }
    }
    assert(raw.take(m as int) =~= raw);
    out
}

/// The document entry a node is read as.
pub open spec fn doc_of_node(n: NodeModel) -> DocModel {
    DocModel {
        text: if param_text(n, "text"@).len() > 0 {
            param_text(n, "text"@)
        } else {
            n.title
        },
        callback_data: opt_text(param_text(n, "callback_data"@)),
        url: param_text(n, "url"@),
    }
}

/// The document entries built from a list of node ids: missing nodes are
/// skipped, and an entry without a resolved URL is silently dropped even
/// though its node stays in the graph.
pub open spec fn docs_from_ids(g: GraphModel, ids: Seq<usize>) -> Seq<DocModel>
    decreases ids.len(),
{
    if ids.len() == 0 {
        Seq::empty()
    } else {
        let rest = docs_from_ids(g, ids.drop_last());
        match find_node(g.nodes, ids.last()) {
            Some(n) => if doc_of_node(n).url.len() > 0 {
                rest.push(doc_of_node(n))
            } else {
                rest
            },
            None => rest,
        }
    }
}

/// The FAQ entry a node is read as: the question defaults to the node
/// title, and the tags come from the `tags` parameter, or `tag` when the
/// former is absent or empty.
pub open spec fn faq_tags_source(n: NodeModel) -> Seq<char> {
    if param_text(n, "tags"@).len() > 0 {
        param_text(n, "tags"@)
    } else {
        param_text(n, "tag"@)
    }
}

/// The FAQ entry a node is read as.
pub open spec fn faq_of_node(n: NodeModel) -> FaqModel {
    FaqModel {
        question: if param_text(n, "question"@).len() > 0 {
            param_text(n, "question"@)
        } else {
            n.title
        },
        answer: param_text(n, "answer"@),
        tags: if faq_tags_source(n).len() > 0 {
            split_tags(faq_tags_source(n))
        } else {
            Seq::empty()
        },
    }
}

/// The FAQ entry built for a node id: nothing for a missing node or one
/// whose answer is empty.
pub open spec fn build_faq_spec(g: GraphModel, id: usize) -> Option<FaqModel> {
    match find_node(g.nodes, id) {
        Some(n) => if faq_of_node(n).answer.len() > 0 {
            Some(faq_of_node(n))
        } else {
            None
        },
        None => None,
    }
}

/// The FAQ entries built from a list of node ids, in order.
pub open spec fn faqs_from_ids(g: GraphModel, ids: Seq<usize>) -> Seq<FaqModel>
    decreases ids.len(),
{
    if ids.len() == 0 {
        Seq::empty()
    } else {
        let rest = faqs_from_ids(g, ids.drop_last());
        match build_faq_spec(g, ids.last()) {
            Some(f) => rest.push(f),
            None => rest,
        }
    }
}

/// The menu entry built for a node id, recursing into its children while
/// fuel remains; the fuel a caller passes covers every acyclic graph.
pub open spec fn build_item_spec(g: GraphModel, id: usize, fuel: nat) -> Option<MenuItemModel>
    decreases fuel, 0int,
{
    match find_node(g.nodes, id) {
        None => None,
        Some(n) => Some(
            MenuItemModel {
                text: if param_text(n, "name"@).len() > 0 {
                    param_text(n, "name"@)
                } else {
                    n.title
                },
                callback_data: if param_text(n, "callback_data"@).len() > 0 {
                    param_text(n, "callback_data"@)
                } else {
                    callback_of(n.title, n.id)
                },
                description: opt_text(param_text(n, "description"@)),
                url: opt_text(param_text(n, "url"@)),
                submenu: if fuel == 0 {
                    Seq::empty()
                } else {
                    items_from_ids(g, child_menu_ids(g, id), (fuel - 1) as nat)
                },
                documents: docs_from_ids(g, document_ids(g, id)),
                data: if param_text(n, "data"@).len() > 0 && json_valid(param_text(n, "data"@)) {
                    Some(param_text(n, "data"@))
                } else {
                    None
                },
                text_content: opt_text(param_text(n, "text_content"@)),
            },
        ),
    }
}

/// The menu entries built from a list of node ids, in order; ids without a
/// node are skipped.
pub open spec fn items_from_ids(g: GraphModel, ids: Seq<usize>, fuel: nat) -> Seq<MenuItemModel>
    decreases fuel, ids.len(),
{
    if ids.len() == 0 {
        Seq::empty()
    } else {
        let rest = items_from_ids(g, ids.drop_last(), fuel);
        match build_item_spec(g, ids.last(), fuel) {
            Some(it) => rest.push(it),
            None => rest,
        }
    }
}

/// The title every exported document carries.
pub open spec fn export_title() -> Seq<char> {
    "Данные для кнопок для телеграмм бота Верхневолжского ГАУ"@
}

/// The document a graph exports to: one menu tree per root, one entry per
/// answered FAQ node.
pub open spec fn export_spec(g: GraphModel) -> ConfigModel {
    ConfigModel {
        title: export_title(),
        main_menu: items_from_ids(g, root_menu_ids(g), g.nodes.len() as nat),
        faq: faqs_from_ids(g, faq_ids(g)),
    }
}

/// A document entry that needs no normalization: its URL is present and a
/// callback member, when present, is non-empty.
pub open spec fn normal_doc(d: DocModel) -> bool {
    &&& d.url.len() > 0
    &&& (d.callback_data matches Some(c) ==> c.len() > 0)
}

/// An FAQ entry that needs no normalization: its answer is non-empty.
pub open spec fn normal_faq(f: FaqModel) -> bool {
    f.answer.len() > 0
}

/// A menu entry that needs no normalization, recursively: the callback is
/// non-empty, optional members are non-empty when present, a data member is
/// well-formed JSON, and the same holds below.
pub open spec fn normal_item(m: MenuItemModel) -> bool
    decreases m,
{
    &&& m.callback_data.len() > 0
    &&& (m.description matches Some(t) ==> t.len() > 0)
    &&& (m.url matches Some(t) ==> t.len() > 0)
    &&& (m.text_content matches Some(t) ==> t.len() > 0)
    &&& (m.data matches Some(t) ==> t.len() > 0 && json_valid(t))
    &&& forall|i: int| 0 <= i < m.submenu.len() ==> normal_item(#[trigger] m.submenu[i])
    &&& forall|i: int| 0 <= i < m.documents.len() ==> normal_doc(#[trigger] m.documents[i])
}

/// A document that needs no normalization anywhere.
pub open spec fn normal_config(c: ConfigModel) -> bool {
    &&& forall|i: int| 0 <= i < c.main_menu.len() ==> normal_item(#[trigger] c.main_menu[i])
    &&& forall|i: int| 0 <= i < c.faq.len() ==> normal_faq(#[trigger] c.faq[i])
}

proof fn lemma_build_item_normal(g: GraphModel, id: usize, fuel: nat)
    ensures
        build_item_spec(g, id, fuel) matches Some(m) ==> normal_item(m),
    decreases fuel, 0int,
{
    if build_item_spec(g, id, fuel) is Some {
        let m = build_item_spec(g, id, fuel).unwrap();
        let n = find_node(g.nodes, id).unwrap();
        if param_text(n, "callback_data"@).len() == 0 {
            if slug_of(n.title).len() == 0 {
                reveal_strlit("item_");
                assert(fallback_callback(n.id).len() >= 5);
            }
        }
        if fuel > 0 {
            lemma_items_normal(g, child_menu_ids(g, id), (fuel - 1) as nat);
            let sub = items_from_ids(g, child_menu_ids(g, id), (fuel - 1) as nat);
            assert(m.submenu == sub);
            assert forall|i: int| 0 <= i < m.submenu.len() implies normal_item(
                #[trigger] m.submenu[i],
            ) by {
                assert(normal_item(sub[i]));
            }
        } else {
            assert(m.submenu.len() == 0);
        }
        lemma_docs_normal(g, document_ids(g, id));
    }
}

proof fn lemma_items_normal(g: GraphModel, ids: Seq<usize>, fuel: nat)
    ensures
        forall|i: int|
            0 <= i < items_from_ids(g, ids, fuel).len() ==> normal_item(
                #[trigger] items_from_ids(g, ids, fuel)[i],
            ),
    decreases fuel, ids.len(),
{
    if ids.len() > 0 {
        lemma_items_normal(g, ids.drop_last(), fuel);
        lemma_build_item_normal(g, ids.last(), fuel);
        let whole = items_from_ids(g, ids, fuel);
        let rest = items_from_ids(g, ids.drop_last(), fuel);
        assert forall|i: int| 0 <= i < whole.len() implies normal_item(#[trigger] whole[i]) by {
            match build_item_spec(g, ids.last(), fuel) {
                Some(it) => {
                    if i < whole.len() - 1 {
                        assert(whole[i] == rest[i]);
                    } else {
                        assert(whole[i] == it);
                    }
                },
                None => {
                    assert(whole[i] == rest[i]);
                },
            }
        }
    }
}

proof fn lemma_docs_normal(g: GraphModel, ids: Seq<usize>)
    ensures
        forall|i: int|
            0 <= i < docs_from_ids(g, ids).len() ==> normal_doc(
                #[trigger] docs_from_ids(g, ids)[i],
            ),
    decreases ids.len(),
{
    if ids.len() > 0 {
        lemma_docs_normal(g, ids.drop_last());
        let whole = docs_from_ids(g, ids);
        let rest = docs_from_ids(g, ids.drop_last());
        assert forall|i: int| 0 <= i < whole.len() implies normal_doc(#[trigger] whole[i]) by {
            if i < rest.len() {
                assert(whole[i] == rest[i]);
            }
        }
    }
}

proof fn lemma_faqs_normal(g: GraphModel, ids: Seq<usize>)
    ensures
        forall|i: int|
            0 <= i < faqs_from_ids(g, ids).len() ==> normal_faq(
                #[trigger] faqs_from_ids(g, ids)[i],
            ),
    decreases ids.len(),
{
    if ids.len() > 0 {
        lemma_faqs_normal(g, ids.drop_last());
        let whole = faqs_from_ids(g, ids);
        let rest = faqs_from_ids(g, ids.drop_last());
        assert forall|i: int| 0 <= i < whole.len() implies normal_faq(#[trigger] whole[i]) by {
            if i < rest.len() {
                assert(whole[i] == rest[i]);
            }
        }
    }
}

/// Law: whatever the graph, an exported document is already normal — every
/// synthesized callback is non-empty, optional members are only emitted
/// non-empty, document entries always carry a URL, and FAQ entries an
/// answer.  Re-importing an exported document therefore loses none of its
/// members to defaulting.
pub proof fn lemma_export_normal(g: GraphModel)
    ensures
        normal_config(export_spec(g)),
{
    lemma_items_normal(g, root_menu_ids(g), g.nodes.len() as nat);
    lemma_faqs_normal(g, faq_ids(g));
}

impl SimpleNodeGraph {
    /// Build the menu entry of one node, recursing through its `sub_menu`
    /// children.  The recursion depth is bounded by the number of nodes,
    /// which covers every acyclic graph.
    pub fn build_menu_item(&self, node_id: usize) -> (r: Option<MenuItem>)
        ensures
            match r {
                Some(m) => build_item_spec(self@.graph, node_id, self@.graph.nodes.len() as nat)
                    == Some(m@),
                None => build_item_spec(self@.graph, node_id, self@.graph.nodes.len() as nat)
                    is None,
            },
    {
        let fuel = self.nodes.len();
        self.build_item_fueled(node_id, fuel)
    }

    fn build_item_fueled(&self, node_id: usize, fuel: usize) -> (r: Option<MenuItem>)
        ensures
            match r {
                Some(m) => build_item_spec(self@.graph, node_id, fuel as nat) == Some(m@),
                None => build_item_spec(self@.graph, node_id, fuel as nat) is None,
            },
        decreases fuel,
    {
        let ghost g = self@.graph;
        let node = match self.get_node_data(node_id) {
            Some(n) => n,
            None => {
                return None;
            },
        };
        let name_text = param_text_exec(node, "name");
        let text = if name_text.as_str().is_empty() {
            node.get_title().to_owned()
        } else {
            name_text
        };
        let cb = param_text_exec(node, "callback_data");
        let callback_data = if cb.as_str().is_empty() {
            generate_callback_data(node.get_title(), node.id())
        } else {
            cb
        };
        let d = param_text_exec(node, "description");
        let description = if d.as_str().is_empty() {
            None
        } else {
            Some(d)
        };
        let u = param_text_exec(node, "url");
        let url = if u.as_str().is_empty() {
            None
        } else {
            Some(u)
        };
        let tc = param_text_exec(node, "text_content");
        let text_content = if tc.as_str().is_empty() {
            None
        } else {
            Some(tc)
        };
        let data_text = param_text_exec(node, "data");
        let data = if data_text.as_str().is_empty() {
            None
        } else {
            match parse_json(data_text.as_str()) {
                Ok(_) => Some(data_text),
                Err(_) => None,
            }
        };
        let mut submenu: Vec<MenuItem> = Vec::new();
        if fuel > 0 {
            let children = self.get_child_menu_nodes(node_id);
            let k = children.len();
            for i in 0..k
                invariant
                    k == children@.len(),
                    g == self@.graph,
                    fuel >= 1,
                    children@ == child_menu_ids(g, node_id),
                    items_view(submenu@) == items_from_ids(
                        g,
                        children@.take(i as int),
                        (fuel - 1) as nat,
                    ),
            {
                proof {
                    assert(children@.take(i + 1).drop_last() =~= children@.take(i as int));
                }
                let ghost pre = submenu@;
                match self.build_item_fueled(children[i], fuel - 1) {
                    Some(item) => {
                        submenu.push(item);
                        proof {
                            assert(submenu@.drop_last() =~= pre);
                        }
                    },
                    None => {},
                }
                assert(items_view(submenu@) =~= items_from_ids(
                    g,
                    children@.take(i + 1),
                    (fuel - 1) as nat,
                ));
            }
            assert(children@.take(k as int) =~= children@);
        }
        let doc_ids = self.get_documents_for_node(node_id);
        let mut documents: Vec<Document> = Vec::new();
        let dk = doc_ids.len();
        for i in 0..dk
            invariant
                dk == doc_ids@.len(),
                g == self@.graph,
                doc_ids@ == document_ids(g, node_id),
                documents@.map_values(|x: Document| x@) == docs_from_ids(
                    g,
                    doc_ids@.take(i as int),
                ),
        {
            proof {
                assert(doc_ids@.take(i + 1).drop_last() =~= doc_ids@.take(i as int));
            }
            match self.get_node_data(doc_ids[i]) {
                Some(dn) => {
                    let dt = param_text_exec(dn, "text");
                    let dtext = if dt.as_str().is_empty() {
                        dn.get_title().to_owned()
                    } else {
                        dt
                    };
                    let dcb = param_text_exec(dn, "callback_data");
                    let dcallback = if dcb.as_str().is_empty() {
                        None
                    } else {
                        Some(dcb)
                    };
                    let durl = param_text_exec(dn, "url");
                    if !durl.as_str().is_empty() {
                        documents.push(Document { text: dtext, callback_data: dcallback, url: durl });
                    }
                },
                None => {},
            }
            assert(documents@.map_values(|x: Document| x@) =~= docs_from_ids(
                g,
                doc_ids@.take(i + 1),
            ));
        }
        assert(doc_ids@.take(dk as int) =~= doc_ids@);
        let item = MenuItem {
            text,
            callback_data,
            description,
            url,
            submenu,
            documents,
            data,
            text_content,
        };
        assert(item_view(item) == build_item_spec(g, node_id, fuel as nat).unwrap());
        Some(item)
    }

    /// Build the FAQ entry of one node: nothing when the node is missing or
    /// its answer is empty.
    pub fn build_faq_item(&self, node_id: usize) -> (r: Option<FaqItem>)
        ensures
            match r {
                Some(f) => build_faq_spec(self@.graph, node_id) == Some(f@),
                None => build_faq_spec(self@.graph, node_id) is None,
            },
    {
        let node = match self.get_node_data(node_id) {
            Some(n) => n,
            None => {
                return None;
            },
        };
        let q = param_text_exec(node, "question");
        let question = if q.as_str().is_empty() {
            node.get_title().to_owned()
        } else {
            q
        };
        let answer = param_text_exec(node, "answer");
        let tags_text = {
            let t = param_text_exec(node, "tags");
            if t.as_str().is_empty() {
                param_text_exec(node, "tag")
            } else {
                t
            }
        };
        let tags: Vec<String> = if tags_text.as_str().is_empty() {
            Vec::new()
        } else {
            split_tags_exec(tags_text.as_str())
        };
        if answer.as_str().is_empty() {
            None
        } else {
            let f = FaqItem { question, answer, tags };
            assert(f@.tags =~= faq_of_node(find_node(self@.graph.nodes, node_id).unwrap()).tags);
            Some(f)
        }
    }

    /// Export the whole graph as a document: one menu tree per root menu
    /// node, one entry per answered FAQ node.
    pub fn export_to_document(&self) -> (r: BotMenuConfig)
        ensures
            r@ == export_spec(self@.graph),
    {
        let ghost g = self@.graph;
        let roots = self.get_root_menu_nodes();
        let mut main_menu: Vec<MenuItem> = Vec::new();
        let rk = roots.len();
        for i in 0..rk
            invariant
                rk == roots@.len(),
                g == self@.graph,
                roots@ == root_menu_ids(g),
                items_view(main_menu@) == items_from_ids(
                    g,
                    roots@.take(i as int),
                    g.nodes.len() as nat,
                ),
        {
            proof {
                assert(roots@.take(i + 1).drop_last() =~= roots@.take(i as int));
            }
            let ghost pre = main_menu@;
            match self.build_menu_item(roots[i]) {
                Some(item) => {
                    main_menu.push(item);
                    proof {
                        assert(main_menu@.drop_last() =~= pre);
                    }
                },
                None => {},
            }
            assert(items_view(main_menu@) =~= items_from_ids(
                g,
                roots@.take(i + 1),
                g.nodes.len() as nat,
            ));
        }
        assert(roots@.take(rk as int) =~= roots@);
        let faq_nodes = self.get_faq_nodes();
        let mut faq: Vec<FaqItem> = Vec::new();
        let fk = faq_nodes.len();
        for i in 0..fk
            invariant
                fk == faq_nodes@.len(),
                g == self@.graph,
                faq_nodes@ == faq_ids(g),
                faq@.map_values(|f: FaqItem| f@) == faqs_from_ids(g, faq_nodes@.take(i as int)),
        {
            proof {
                assert(faq_nodes@.take(i + 1).drop_last() =~= faq_nodes@.take(i as int));
            }
            match self.build_faq_item(faq_nodes[i]) {
                Some(f) => {
                    faq.push(f);
                },
                None => {},
            }
            assert(faq@.map_values(|f: FaqItem| f@) =~= faqs_from_ids(g, faq_nodes@.take(i + 1)));
        }
        assert(faq_nodes@.take(fk as int) =~= faq_nodes@);
        let r = BotMenuConfig {
            title: "Данные для кнопок для телеграмм бота Верхневолжского ГАУ".to_owned(),
            main_menu,
            faq,
        };
        assert(r@ =~= export_spec(g));
        r
    }
}

} // verus!
