//! What scripts find in the document.
use crate::browser::document::{self, Document, DocumentModel, ElementModel, NodeId};
use crate::text;
use crate::css::lengths;
use vstd::prelude::*;

verus! {

// ---------------------------------------------------------------------------
// Selectors
// ---------------------------------------------------------------------------
/// Whether an element has a class.
pub open spec fn has_class(e: ElementModel, class: Seq<char>) -> bool {
    e.get("class"@) matches Some(classes) && text::words(classes).contains(class)
}

/// The practical selector subset scripts actually use: `#id`, `.class`,
/// `tag` and `tag.class`.
pub open spec fn element_matches(e: ElementModel, selector: Seq<char>) -> bool {
    match text::after_prefix(selector, "#"@) {
        Some(id) => e.get("id"@) == Some(id),
        None => match text::after_prefix(selector, "."@) {
            Some(class) => has_class(e, class),
            None => match text::halves(selector, '.') {
                Some((tag, class)) => e.tag_name == tag && has_class(e, class),
                None => e.tag_name == selector,
            },
        },
    }
}

pub open spec fn node_matches(doc: DocumentModel, node: NodeId, selector: Seq<char>) -> bool {
    document::element_at(doc, node) matches Some(e) && element_matches(e, selector)
}

/// The matching ones among the first `n` nodes of a list, without `root`.
pub open spec fn matching(
    doc: DocumentModel,
    root: NodeId,
    list: Seq<NodeId>,
    selector: Seq<char>,
    n: int,
) -> Seq<NodeId>
    decreases n,
{
    if n <= 0 {
        seq![]
    } else {
        let before = matching(doc, root, list, selector, n - 1);
        if list[n - 1] != root && node_matches(doc, list[n - 1], selector) {
            before.push(list[n - 1])
        } else {
            before
        }
    }
}

/// The elements under `root` that a selector matches, in document order.
pub open spec fn found(doc: DocumentModel, root: NodeId, selector: Seq<char>) -> Seq<NodeId> {
    let list = document::descendants_of(doc, root);
    matching(doc, root, list, selector, list.len() as int)
}

/// The first node of a list, from place `i` on, that a selector matches.
pub open spec fn first_match(
    doc: DocumentModel,
    list: Seq<NodeId>,
    selector: Seq<char>,
    i: int,
) -> Option<NodeId>
    decreases list.len() - i,
{
    if i < 0 || i >= list.len() {
        None
    } else if node_matches(doc, list[i], selector) {
        Some(list[i])
    } else {
        first_match(doc, list, selector, i + 1)
    }
}

fn word_among(classes: &str, class: &[char]) -> (r: bool)
    ensures
        r == text::words(classes@).contains(class@),
{
    let chars = text::chars_of(classes);
    let parts = text::split_whitespace(chars.as_slice());
    let ghost pv = text::views(parts@);
    let mut i: usize = 0;
    while i < parts.len()
        invariant
            i <= parts@.len(),
            pv == text::views(parts@),
            pv == text::words(classes@),
            forall|j: int| 0 <= j < i ==> #[trigger] pv[j] != class@,
        decreases parts@.len() - i,
    {
        if text::same(parts[i], class) {
            assert(pv[i as int] == class@);
            return true;
        }
        i = i + 1;
    }
    false
}

/// The practical selector subset scripts actually use: `#id`, `.class`,
/// `tag` and `tag.class`.
pub fn selector_matches(doc: &Document, node: NodeId, selector: &str) -> (r: bool)
    ensures
        r == node_matches(doc@, node, selector@),
{
    let e = match doc.element(node) {
        Some(e) => e,
        None => {
            return false;
        },
    };
    let chars = text::chars_of(selector);
    let s = chars.as_slice();
    if let Some(id) = text::strip_prefix(s, "#") {
        return match e.get("id") {
            Some(v) => text::is_word(id, v.as_str()),
            None => false,
        };
    }
    if let Some(class) = text::strip_prefix(s, ".") {
        return match e.get("class") {
            Some(classes) => word_among(classes.as_str(), class),
            None => false,
        };
    }
    match text::split_once(s, '.') {
        Some((tag, class)) => {
            if !text::is_word(tag, e.tag_name.as_str()) {
                return false;
            }
            match e.get("class") {
                Some(classes) => word_among(classes.as_str(), class),
                None => false,
            }
        },
        None => text::is_word(s, e.tag_name.as_str()),
    }
}

fn trimmed(selector: &str) -> (r: String)
    ensures
        r@ == text::trimmed(selector@),
{
    let chars = text::chars_of(selector);
    text::text_of(text::trim(chars.as_slice()))
}

/// The elements under `scope` (the whole document without one) that a
/// selector matches, in document order: `querySelectorAll`.
pub fn query_selector_all(doc: &Document, selector: &str, scope: Option<NodeId>) -> (r: Vec<NodeId>)
    ensures
        r@ == found(
            doc@,
            match scope {
                Some(node) => node,
                None => 0,
            },
            text::trimmed(selector@),
        ),
{
    let root: NodeId = match scope {
        Some(node) => node,
        None => 0,
    };
    let wanted = trimmed(selector);
    let all = doc.descendants(root);
    let mut nodes: Vec<NodeId> = Vec::new();
    let mut i: usize = 0;
    while i < all.len()
        invariant
            i <= all@.len(),
            nodes@ == matching(doc@, root, all@, wanted@, i as int),
        decreases all@.len() - i,
    {
        if all[i] != root && selector_matches(doc, all[i], wanted.as_str()) {
            nodes.push(all[i]);
        }
        i = i + 1;
    }
    nodes
}

/// The first element that a selector matches: `querySelector`.
pub fn query_selector(doc: &Document, selector: &str, scope: Option<NodeId>) -> (r: Option<NodeId>)
    ensures
        ({
            let all = found(
                doc@,
                match scope {
                    Some(node) => node,
                    None => 0,
                },
                text::trimmed(selector@),
            );
            r == (if all.len() > 0 {
                Some(all[0])
            } else {
                None
            })
        }),
{
    let all = query_selector_all(doc, selector, scope);
    if all.len() > 0 {
        Some(all[0])
    } else {
        None
    }
}

/// The elements with a class: `getElementsByClassName`.
pub fn get_elements_by_class_name(doc: &Document, class: &str) -> (r: Vec<NodeId>)
    ensures
        r@ == found(doc@, 0, text::trimmed("."@ + class@)),
{
    let selector = text::concat(".", class);
    query_selector_all(doc, selector.as_str(), None)
}

/// The elements that a bare selector matches: `getElementsByTagName`.
pub fn get_elements_by_tag_name(doc: &Document, tag: &str) -> (r: Vec<NodeId>)
    ensures
        r@ == found(doc@, 0, text::trimmed(tag@)),
{
    query_selector_all(doc, tag, None)
}

/// The nearest element at or above a node that a selector matches.
pub fn closest(doc: &Document, node: NodeId, selector: &str) -> (r: Option<NodeId>)
    ensures
        r == first_match(doc@, document::chain_of(doc@, node), text::trimmed(selector@), 0),
{
    let wanted = trimmed(selector);
    let chain = doc.chain(node);
    let mut i: usize = 0;
    while i < chain.len()
        invariant
            i <= chain@.len(),
            chain@ == document::chain_of(doc@, node),
            wanted@ == text::trimmed(selector@),
            first_match(doc@, chain@, wanted@, i as int) == first_match(
                doc@,
                chain@,
                wanted@,
                0,
            ),
        decreases chain@.len() - i,
    {
        if selector_matches(doc, chain[i], wanted.as_str()) {
            return Some(chain[i]);
        }
        i = i + 1;
    }
    None
}

/// The first node of a list, from place `i` on, with an id.
pub open spec fn with_id(doc: DocumentModel, list: Seq<NodeId>, id: Seq<char>, i: int) -> Option<
    NodeId,
>
    decreases list.len() - i,
{
    if i < 0 || i >= list.len() {
        None
    } else if document::attribute_at(doc, list[i], "id"@) == Some(id) {
        Some(list[i])
    } else {
        with_id(doc, list, id, i + 1)
    }
}

/// The first element with an id: `getElementById`.
pub fn get_element_by_id(doc: &Document, id: &str) -> (r: Option<NodeId>)
    ensures
        r == with_id(doc@, document::descendants_of(doc@, 0), id@, 0),
{
    let all = doc.descendants(0);
    let mut i: usize = 0;
    while i < all.len()
        invariant
            i <= all@.len(),
            all@ == document::descendants_of(doc@, 0),
            with_id(doc@, all@, id@, i as int) == with_id(doc@, all@, id@, 0),
        decreases all@.len() - i,
    {
        if let Some(v) = doc.attribute(all[i], "id") {
            if text::same_str(v.as_str(), id) {
                return Some(all[i]);
            }
        }
        i = i + 1;
    }
    None
}

/// The first element with a tag in document order (`document.head`).
pub fn first_element_by_tag(doc: &Document, tag: &str) -> (r: Option<NodeId>)
    ensures
        r == document::find_tag(doc@, document::descendants_of(doc@, 0), tag@, 0),
{
    let all = doc.descendants(0);
    doc.first_with_tag(&all, tag)
}

/// `document.body` and `document.documentElement`: pages without the explicit
/// element fall back to the root, so appending to it still works.
pub fn element_or_root(doc: &Document, tag: &str) -> (r: NodeId)
    ensures
        r == (match document::find_tag(doc@, document::descendants_of(doc@, 0), tag@, 0) {
            Some(node) => node,
            None => 0,
        }),
{
    match first_element_by_tag(doc, tag) {
        Some(node) => node,
        None => 0,
    }
}

// ---------------------------------------------------------------------------
// Relatives
// ---------------------------------------------------------------------------
pub open spec fn parent_of(doc: DocumentModel, node: NodeId) -> Option<NodeId> {
    if node < doc.len() {
        doc[node as int].parent
    } else {
        None
    }
}

/// The place of a node in a list, from `i` on.
pub open spec fn index_from(list: Seq<NodeId>, node: NodeId, i: int) -> Option<int>
    decreases list.len() - i,
{
    if i < 0 || i >= list.len() {
        None
    } else if list[i] == node {
        Some(i)
    } else {
        index_from(list, node, i + 1)
    }
}

/// The parent of a node and its place among the parent's children.
pub open spec fn position_of(doc: DocumentModel, node: NodeId) -> Option<(NodeId, int)> {
    match parent_of(doc, node) {
        Some(parent) => match index_from(document::children_at(doc, parent), node, 0) {
            Some(i) => Some((parent, i)),
            None => None,
        },
        None => None,
    }
}

pub open spec fn child_at(doc: DocumentModel, node: NodeId, i: int) -> Option<NodeId> {
    let kids = document::children_at(doc, node);
    if 0 <= i < kids.len() {
        Some(kids[i])
    } else {
        None
    }
}

/// The node `step` places behind a node among its parent's children.
pub open spec fn sibling(doc: DocumentModel, node: NodeId, step: int) -> Option<NodeId> {
    match position_of(doc, node) {
        Some((parent, i)) => child_at(doc, parent, i + step),
        None => None,
    }
}

/// The first of a list, from place `i` on, that is an element.
pub open spec fn first_element(doc: DocumentModel, list: Seq<NodeId>, i: int) -> Option<NodeId>
    decreases list.len() - i,
{
    if i < 0 || i >= list.len() {
        None
    } else if document::element_at(doc, list[i]) is Some {
        Some(list[i])
    } else {
        first_element(doc, list, i + 1)
    }
}

/// The elements among the first `n` nodes of a list.
pub open spec fn elements(doc: DocumentModel, list: Seq<NodeId>, n: int) -> Seq<NodeId>
    decreases n,
{
    if n <= 0 {
        seq![]
    } else if document::element_at(doc, list[n - 1]) is Some {
        elements(doc, list, n - 1).push(list[n - 1])
    } else {
        elements(doc, list, n - 1)
    }
}

/// `parentNode`.
pub fn parent_node(doc: &Document, node: NodeId) -> (r: Option<NodeId>)
    ensures
        r == parent_of(doc@, node),
{
    if node < doc.nodes.len() {
        assert(doc@[node as int] == doc.nodes@[node as int]@);
        doc.nodes[node].parent
    } else {
        None
    }
}

/// `parentElement`: the nearest ancestor that is an element.
pub fn parent_element(doc: &Document, node: NodeId) -> (r: Option<NodeId>)
    ensures
        r == first_element(doc@, document::ancestors_of(doc@, node), 0),
{
    let chain = doc.chain(node);
    let ghost above = document::ancestors_of(doc@, node);
    let mut i: usize = 1;
    while i < chain.len()
        invariant
            1 <= i <= chain@.len(),
            chain@ == seq![node] + above,
            above == document::ancestors_of(doc@, node),
            first_element(doc@, above, i - 1) == first_element(doc@, above, 0),
        decreases chain@.len() - i,
    {
        assert(chain@[i as int] == above[i - 1]);
        if doc.element(chain[i]).is_some() {
            return Some(chain[i]);
        }
        i = i + 1;
    }
    None
}

/// The node's position among its parent's children, with the parent.
pub fn sibling_position(doc: &Document, node: NodeId) -> (r: Option<(NodeId, usize)>)
    ensures
        match position_of(doc@, node) {
            Some((parent, i)) => r matches Some((p, k)) && p == parent && k == i,
            None => r is None,
        },
{
    let parent = match parent_node(doc, node) {
        Some(parent) => parent,
        None => {
            return None;
        },
    };
    let kids = doc.children(parent);
    let mut i: usize = 0;
    while i < kids.len()
        invariant
            i <= kids@.len(),
            kids@ == document::children_at(doc@, parent),
            parent_of(doc@, node) == Some(parent),
            index_from(kids@, node, i as int) == index_from(kids@, node, 0),
        decreases kids@.len() - i,
    {
        if kids[i] == node {
            return Some((parent, i));
        }
        i = i + 1;
    }
    None
}

/// `firstChild`.
pub fn first_child(doc: &Document, node: NodeId) -> (r: Option<NodeId>)
    ensures
        r == child_at(doc@, node, 0),
{
    let kids = doc.children(node);
    if kids.len() > 0 {
        Some(kids[0])
    } else {
        None
    }
}

/// `lastChild`.
pub fn last_child(doc: &Document, node: NodeId) -> (r: Option<NodeId>)
    ensures
        r == child_at(doc@, node, document::children_at(doc@, node).len() - 1),
{
    let kids = doc.children(node);
    if kids.len() > 0 {
        Some(kids[kids.len() - 1])
    } else {
        None
    }
}

/// `nextSibling`.
pub fn next_sibling(doc: &Document, node: NodeId) -> (r: Option<NodeId>)
    ensures
        r == sibling(doc@, node, 1),
{
    match sibling_position(doc, node) {
        Some((parent, index)) => {
            let kids = doc.children(parent);
            let total: usize = kids.len();
            if index < total && index + 1 < total {
                Some(kids[index + 1])
            } else {
                None
            }
        },
        None => None,
    }
}

/// `previousSibling`.
pub fn previous_sibling(doc: &Document, node: NodeId) -> (r: Option<NodeId>)
    ensures
        r == sibling(doc@, node, -1),
{
    match sibling_position(doc, node) {
        Some((parent, index)) => {
            let kids = doc.children(parent);
            if index > 0 && index - 1 < kids.len() {
                Some(kids[index - 1])
            } else {
                None
            }
        },
        None => None,
    }
}

/// `children`: the child nodes that are elements.
pub fn element_children(doc: &Document, node: NodeId) -> (r: Vec<NodeId>)
    ensures
        r@ == elements(
            doc@,
            document::children_at(doc@, node),
            document::children_at(doc@, node).len() as int,
        ),
{
    let kids = doc.children(node);
    let mut nodes: Vec<NodeId> = Vec::new();
    let mut i: usize = 0;
    while i < kids.len()
        invariant
            i <= kids@.len(),
            nodes@ == elements(doc@, kids@, i as int),
        decreases kids@.len() - i,
    {
        if doc.element(kids[i]).is_some() {
            nodes.push(kids[i]);
        }
        i = i + 1;
    }
    nodes
}

/// Whether `removeChild` has something to detach: a stale or foreign node is
/// left alone.
pub fn is_child_of(doc: &Document, child: NodeId, parent: NodeId) -> (r: bool)
    ensures
        r == (parent_of(doc@, child) == Some(parent)),
{
    match parent_node(doc, child) {
        Some(p) => p == parent,
        None => false,
    }
}

/// The node that an element handle points at. A forged handle outside the
/// document is refused.
pub fn handle_node(page: Option<&Document>, handle: usize) -> (r: Result<NodeId, ()>)
    ensures
        r == (match page {
            Some(doc) => if handle < doc@.len() {
                Ok::<NodeId, ()>(handle)
            } else {
                Err(())
            },
            None => Ok(handle),
        }),
{
    match page {
        Some(doc) => {
            if handle < doc.nodes.len() {
                Ok(handle)
            } else {
                Err(())
            }
        },
        None => Ok(handle),
    }
}

// ---------------------------------------------------------------------------
// Laws
// ---------------------------------------------------------------------------
proof fn lemma_index_from(list: Seq<NodeId>, node: NodeId, i: int)
    requires
        0 <= i <= list.len(),
    ensures
        match index_from(list, node, i) {
            Some(k) => i <= k < list.len() && list[k] == node,
            None => !list.skip(i).contains(node),
        },
    decreases list.len() - i,
{
    if i < list.len() && list[i] != node {
        lemma_index_from(list, node, i + 1);
        if list.skip(i).contains(node) {
            let tail = list.skip(i);
            let j = choose|j: int| 0 <= j < tail.len() && tail[j] == node;
            assert(list.skip(i + 1)[j - 1] == node);
        }
    }
}

proof fn lemma_index_unique(list: Seq<NodeId>, i: int, k: int)
    requires
        0 <= i <= k < list.len(),
        list.no_duplicates(),
    ensures
        index_from(list, list[k], i) == Some(k),
    decreases k - i,
{
    if i < k {
        lemma_index_unique(list, i + 1, k);
    }
}

/// In a tree, the next sibling of the previous sibling is the node itself,
/// and the other way round.
pub proof fn law_siblings_are_inverse(doc: DocumentModel, node: NodeId)
    requires
        position_of(doc, node) matches Some((parent, i)) && document::children_at(
            doc,
            parent,
        ).no_duplicates(),
        position_of(doc, node) matches Some((parent, i)) ==> forall|k: int|
            0 <= k < document::children_at(doc, parent).len() ==> parent_of(
                doc,
                #[trigger] document::children_at(doc, parent)[k],
            ) == Some(parent),
    ensures
        sibling(doc, node, 1) matches Some(next) ==> sibling(doc, next, -1) == Some(node),
        sibling(doc, node, -1) matches Some(previous) ==> sibling(doc, previous, 1) == Some(node),
{
    if let Some((parent, i)) = position_of(doc, node) {
        let kids = document::children_at(doc, parent);
        lemma_index_from(kids, node, 0);
        if i + 1 < kids.len() {
            lemma_index_unique(kids, 0, i + 1);
            assert(parent_of(doc, kids[i + 1]) == Some(parent));
        }
        if i > 0 {
            lemma_index_unique(kids, 0, i - 1);
            assert(parent_of(doc, kids[i - 1]) == Some(parent));
        }
    }
}

proof fn lemma_matching(
    doc: DocumentModel,
    root: NodeId,
    list: Seq<NodeId>,
    selector: Seq<char>,
    n: int,
    node: NodeId,
)
    requires
        0 <= n <= list.len(),
    ensures
        matching(doc, root, list, selector, n).contains(node) == (list.take(n).contains(node)
            && node != root && node_matches(doc, node, selector)),
    decreases n,
{
    let after = matching(doc, root, list, selector, n);
    if n > 0 {
        lemma_matching(doc, root, list, selector, n - 1, node);
        let before = matching(doc, root, list, selector, n - 1);
        let front = list.take(n - 1);
        assert(list.take(n) =~= front.push(list[n - 1]));
        if before.contains(node) {
            let j = choose|j: int| 0 <= j < before.len() && before[j] == node;
            assert(after[j] == node);
        }
        if front.contains(node) {
            let j = choose|j: int| 0 <= j < front.len() && front[j] == node;
            assert(list.take(n)[j] == node);
        }
        if list.take(n).contains(node) && list[n - 1] != node {
            let whole = list.take(n);
            let j = choose|j: int| 0 <= j < whole.len() && whole[j] == node;
            assert(front[j] == node);
        }
        if list[n - 1] == node {
            assert(list.take(n)[n - 1] == node);
            if node != root && node_matches(doc, node, selector) {
                assert(after[after.len() - 1] == node);
            }
        }
        if after.contains(node) && !before.contains(node) {
            let j = choose|j: int| 0 <= j < after.len() && after[j] == node;
            if j < before.len() {
                assert(before[j] == node);
            }
        }
    } else {
        assert(!list.take(n).contains(node));
        assert(!after.contains(node));
    }
}

/// A query finds exactly the descendants that the selector matches.
pub proof fn law_queries_find_what_matches(
    doc: DocumentModel,
    root: NodeId,
    selector: Seq<char>,
    node: NodeId,
)
    ensures
        found(doc, root, selector).contains(node) == (document::descendants_of(
            doc,
            root,
        ).contains(node) && node != root && node_matches(doc, node, selector)),
{
    let list = document::descendants_of(doc, root);
    assert(list.take(list.len() as int) =~= list);
    lemma_matching(doc, root, list, selector, list.len() as int, node);
}

/// A selector is a hash and an id, a dot and a class, a tag, or a tag, a dot
/// and a class. A class matches where it is one of the element's words.
pub proof fn law_selectors(e: ElementModel, name: Seq<char>, class: Seq<char>)
    requires
        !name.contains('.'),
        name.len() > 0,
        name[0] != '#',
    ensures
        element_matches(e, seq!['#'] + class) <==> e.get("id"@) == Some(class),
        element_matches(e, seq!['.'] + class) <==> (e.get("class"@) matches Some(classes)
            && text::words(classes).contains(class)),
        element_matches(e, name) <==> e.tag_name == name,
        element_matches(e, name + seq!['.'] + class) <==> e.tag_name == name && (e.get(
            "class"@,
        ) matches Some(classes) && text::words(classes).contains(class)),
{
    reveal_strlit("#");
    reveal_strlit(".");
    assert("#"@ =~= seq!['#']);
    assert("."@ =~= seq!['.']);
    text::law_prefixes(class, "#"@);
    text::law_prefixes(class, "."@);
    let dotted = seq!['.'] + class;
    assert(dotted[0] == '.');
    lengths::lemma_no_prefix(dotted, "#"@);
    lengths::lemma_no_prefix(name, "#"@);
    assert(name[0] != '.') by {
        assert(name.contains(name[0]));
    }
    lengths::lemma_no_prefix(name, "."@);
    text::law_first_cut(name, '.');
    let both = name + seq!['.'] + class;
    assert(both[0] == name[0]);
    lengths::lemma_no_prefix(both, "#"@);
    lengths::lemma_no_prefix(both, "."@);
    let n = name.len() as int;
    text::lemma_find_char(both, '.', 0);
    assert(both[n] == '.');
    let at = text::find_char(both, '.', 0);
    if at < n {
        assert(both[at] == name[at]);
    }
    assert(both.take(n) =~= name);
    assert(both.skip(n + 1) =~= class);
}

/// The first node of a list that matches is found, and none where none does.
pub proof fn law_the_first_match_is_found(
    doc: DocumentModel,
    list: Seq<NodeId>,
    selector: Seq<char>,
    i: int,
    k: int,
)
    requires
        0 <= i <= k <= list.len(),
        forall|j: int| i <= j < k ==> !node_matches(doc, #[trigger] list[j], selector),
        k < list.len() ==> node_matches(doc, list[k], selector),
    ensures
        k < list.len() ==> first_match(doc, list, selector, i) == Some(list[k]),
        k == list.len() ==> first_match(doc, list, selector, i) is None,
    decreases k - i,
{
    if i < k {
        assert(!node_matches(doc, list[i], selector));
        law_the_first_match_is_found(doc, list, selector, i + 1, k);
    }
}

/// The first node of a list with an id is found, and none where none has it.
pub proof fn law_the_first_id_is_found(
    doc: DocumentModel,
    list: Seq<NodeId>,
    id: Seq<char>,
    i: int,
    k: int,
)
    requires
        0 <= i <= k <= list.len(),
        forall|j: int|
            i <= j < k ==> document::attribute_at(doc, #[trigger] list[j], "id"@) != Some(id),
        k < list.len() ==> document::attribute_at(doc, list[k], "id"@) == Some(id),
    ensures
        k < list.len() ==> with_id(doc, list, id, i) == Some(list[k]),
        k == list.len() ==> with_id(doc, list, id, i) is None,
    decreases k - i,
{
    if i < k {
        assert(document::attribute_at(doc, list[i], "id"@) != Some(id));
        law_the_first_id_is_found(doc, list, id, i + 1, k);
    }
}

/// The child elements of a node are its children that are elements, in order,
/// and the first of them is the first element child.
pub proof fn law_element_children(doc: DocumentModel, list: Seq<NodeId>, n: int)
    requires
        0 <= n <= list.len(),
    ensures
        forall|i: int|
            0 <= i < elements(doc, list, n).len() ==> document::element_at(
                doc,
                #[trigger] elements(doc, list, n)[i],
            ) is Some,
        forall|k: int|
            0 <= k < n && document::element_at(doc, #[trigger] list[k]) is Some ==> elements(
                doc,
                list,
                n,
            ).contains(list[k]),
        elements(doc, list, n).len() <= n,
        n > 0 && document::element_at(doc, list[n - 1]) is Some ==> elements(doc, list, n).last()
            == list[n - 1],
    decreases n,
{
    if n > 0 {
        law_element_children(doc, list, n - 1);
        let before = elements(doc, list, n - 1);
        let after = elements(doc, list, n);
        assert forall|i: int| 0 <= i < after.len() implies document::element_at(
            doc,
            #[trigger] after[i],
        ) is Some by {
            if i < before.len() {
                assert(after[i] == before[i]);
            }
        }
        assert forall|k: int|
            0 <= k < n && document::element_at(doc, #[trigger] list[k]) is Some implies after.contains(
            list[k],
        ) by {
            if k < n - 1 {
                let j = choose|j: int| 0 <= j < before.len() && before[j] == list[k];
                assert(after[j] == list[k]);
            } else {
                assert(after[before.len() as int] == list[k]);
            }
        }
    }
}

/// The child at a place is the one that stands there; there is none outside.
pub proof fn law_children_by_place(doc: DocumentModel, node: NodeId, i: int)
    ensures
        0 <= i < document::children_at(doc, node).len() ==> child_at(doc, node, i) == Some(
            document::children_at(doc, node)[i],
        ),
        i < 0 || i >= document::children_at(doc, node).len() ==> child_at(doc, node, i) is None,
        node < doc.len() ==> parent_of(doc, node) == doc[node as int].parent,
{
}

/// The next sibling stands one place behind a node and the previous one before
/// it.
pub proof fn law_siblings_stand_side_by_side(doc: DocumentModel, parent: NodeId, node: NodeId, i: int)
    requires
        position_of(doc, node) == Some((parent, i)),
    ensures
        ({
            let kids = document::children_at(doc, parent);
            &&& 0 <= i < kids.len() && kids[i] == node
            &&& i + 1 < kids.len() ==> sibling(doc, node, 1) == Some(kids[i + 1])
            &&& i + 1 == kids.len() ==> sibling(doc, node, 1) is None
            &&& i > 0 ==> sibling(doc, node, -1) == Some(kids[i - 1])
            &&& i == 0 ==> sibling(doc, node, -1) is None
        }),
{
    lemma_index_from(document::children_at(doc, parent), node, 0);
}

} // verus!
