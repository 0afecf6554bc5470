//! The page's document, as far as the session reads it: elements with their
//! attributes, texts, and the tree they stand in.
use crate::text;
use vstd::prelude::*;

verus! {

/// A node's number in its document.
pub type NodeId = usize;

#[derive(Debug, PartialEq, Eq)]
pub struct Element {
    pub tag_name: String,
    /// (name, value) pairs in source order.
    pub attributes: Vec<(String, String)>,
}

#[derive(Debug, PartialEq, Eq)]
pub enum NodeKind {
    Element(Element),
    Text(String),
    /// The document itself, comments, doctypes.
    Other,
}

#[derive(Debug, PartialEq, Eq)]
pub struct Node {
    pub kind: NodeKind,
    pub parent: Option<NodeId>,
    pub children: Vec<NodeId>,
}

/// A document: its nodes by number. The root is the node zero.
#[derive(Debug, PartialEq, Eq)]
pub struct Document {
    pub nodes: Vec<Node>,
}

pub struct ElementModel {
    pub tag_name: Seq<char>,
    pub attributes: Seq<(Seq<char>, Seq<char>)>,
}

pub open spec fn pair_models(pairs: Seq<(String, String)>) -> Seq<(Seq<char>, Seq<char>)> {
    Seq::new(pairs.len(), |i: int| (pairs[i].0@, pairs[i].1@))
}

impl View for Element {
    type V = ElementModel;

    open spec fn view(&self) -> ElementModel {
        ElementModel { tag_name: self.tag_name@, attributes: pair_models(self.attributes@) }
    }
}

pub enum KindModel {
    Element(ElementModel),
    Text(Seq<char>),
    Other,
}

pub struct NodeModel {
    pub kind: KindModel,
    pub parent: Option<NodeId>,
    pub children: Seq<NodeId>,
}

impl View for Node {
    type V = NodeModel;

    open spec fn view(&self) -> NodeModel {
        NodeModel {
            kind: match self.kind {
                NodeKind::Element(e) => KindModel::Element(e@),
                NodeKind::Text(t) => KindModel::Text(t@),
                NodeKind::Other => KindModel::Other,
            },
            parent: self.parent,
            children: self.children@,
        }
    }
}

pub type DocumentModel = Seq<NodeModel>;

impl View for Document {
    type V = DocumentModel;

    open spec fn view(&self) -> DocumentModel {
        Seq::new(self.nodes@.len(), |i: int| self.nodes@[i]@)
    }
}

// ---------------------------------------------------------------------------
// Attributes
// ---------------------------------------------------------------------------
/// The value of the first pair called `name`, from place `i` on.
pub open spec fn find_pair(
    pairs: Seq<(Seq<char>, Seq<char>)>,
    name: Seq<char>,
    i: int,
) -> Option<Seq<char>>
    decreases pairs.len() - i,
{
    if i < 0 || i >= pairs.len() {
        None
    } else if pairs[i].0 == name {
        Some(pairs[i].1)
    } else {
        find_pair(pairs, name, i + 1)
    }
}

impl ElementModel {
    /// The value of an attribute.
    pub open spec fn get(self, name: Seq<char>) -> Option<Seq<char>> {
        find_pair(self.attributes, name, 0)
    }

    /// The value of an attribute, or `default` without one.
    pub open spec fn get_or(self, name: Seq<char>, default: Seq<char>) -> Seq<char> {
        match self.get(name) {
            Some(v) => v,
            None => default,
        }
    }
}

impl Element {
    pub fn is_tag(&self, name: &str) -> (r: bool)
        ensures
            r == (self@.tag_name == name@),
    {
        text::same_str(self.tag_name.as_str(), name)
    }

    /// The value of an attribute.
    pub fn get(&self, name: &str) -> (r: Option<&String>)
        ensures
            match r {
                Some(v) => self@.get(name@) == Some(v@),
                None => self@.get(name@) is None,
            },
    {
        let ghost pairs = self@.attributes;
        let mut i: usize = 0;
        while i < self.attributes.len()
            invariant
                i <= self.attributes@.len(),
                pairs == pair_models(self.attributes@),
                find_pair(pairs, name@, i as int) == find_pair(pairs, name@, 0),
            decreases self.attributes@.len() - i,
        {
            assert(pairs[i as int] == (self.attributes@[i as int].0@, self.attributes@[i as int].1@));
            if text::same_str(self.attributes[i].0.as_str(), name) {
                return Some(&self.attributes[i].1);
            }
            i = i + 1;
        }
        None
    }

    pub fn contains(&self, name: &str) -> (r: bool)
        ensures
            r == (self@.get(name@) is Some),
    {
        self.get(name).is_some()
    }

    /// The value of an attribute, or `default` without one.
    pub fn get_or(&self, name: &str, default: &str) -> (r: String)
        ensures
            r@ == self@.get_or(name@, default@),
    {
        match self.get(name) {
            Some(v) => v.clone(),
            None => default.to_owned(),
        }
    }

    /// Whether an attribute has this very value.
    pub fn attribute_is(&self, name: &str, value: &str) -> (r: bool)
        ensures
            r == (self@.get(name@) == Some(value@)),
    {
        match self.get(name) {
            Some(v) => text::same_str(v.as_str(), value),
            None => false,
        }
    }
}

// ---------------------------------------------------------------------------
// The tree
// ---------------------------------------------------------------------------
/// The element at a node; none for other nodes and for numbers that are no
/// node.
pub open spec fn element_at(doc: DocumentModel, node: NodeId) -> Option<ElementModel> {
    if node < doc.len() {
        match doc[node as int].kind {
            KindModel::Element(e) => Some(e),
            _ => None,
        }
    } else {
        None
    }
}

pub open spec fn has_tag(doc: DocumentModel, node: NodeId, tag: Seq<char>) -> bool {
    element_at(doc, node) matches Some(e) && e.tag_name == tag
}

/// The value of an element's attribute.
pub open spec fn attribute_at(doc: DocumentModel, node: NodeId, name: Seq<char>) -> Option<
    Seq<char>,
> {
    match element_at(doc, node) {
        Some(e) => e.get(name),
        None => None,
    }
}

pub open spec fn children_at(doc: DocumentModel, node: NodeId) -> Seq<NodeId> {
    if node < doc.len() {
        doc[node as int].children
    } else {
        seq![]
    }
}

/// The nodes below the first `n` of some siblings, each before its own
/// descendants, down to a depth.
pub open spec fn nodes_below(
    doc: DocumentModel,
    siblings: Seq<NodeId>,
    n: int,
    depth: nat,
) -> Seq<NodeId>
    decreases depth, n,
{
    if n <= 0 || depth == 0 {
        seq![]
    } else {
        let node = siblings[n - 1];
        let kids = children_at(doc, node);
        nodes_below(doc, siblings, n - 1, depth).push(node) + nodes_below(
            doc,
            kids,
            kids.len() as int,
            (depth - 1) as nat,
        )
    }
}

/// The descendants of a node in document order. No tree is deeper than it
/// has nodes.
pub open spec fn descendants_of(doc: DocumentModel, node: NodeId) -> Seq<NodeId> {
    let kids = children_at(doc, node);
    nodes_below(doc, kids, kids.len() as int, doc.len())
}

/// The ancestors of a node from its parent up, at most `limit` of them.
pub open spec fn ancestors_from(doc: DocumentModel, node: NodeId, limit: nat) -> Seq<NodeId>
    decreases limit,
{
    if limit == 0 || node >= doc.len() {
        seq![]
    } else {
        match doc[node as int].parent {
            Some(parent) => seq![parent] + ancestors_from(doc, parent, (limit - 1) as nat),
            None => seq![],
        }
    }
}

pub open spec fn ancestors_of(doc: DocumentModel, node: NodeId) -> Seq<NodeId> {
    ancestors_from(doc, node, doc.len())
}

/// A node and its ancestors, innermost first.
pub open spec fn chain_of(doc: DocumentModel, node: NodeId) -> Seq<NodeId> {
    seq![node] + ancestors_of(doc, node)
}

/// The text that one node holds itself.
pub open spec fn own_text(doc: DocumentModel, node: NodeId) -> Seq<char> {
    if node < doc.len() {
        match doc[node as int].kind {
            KindModel::Text(t) => t,
            _ => seq![],
        }
    } else {
        seq![]
    }
}

/// The texts of the first `n` nodes of a list, one after the other.
pub open spec fn joined_text(doc: DocumentModel, list: Seq<NodeId>, n: int) -> Seq<char>
    decreases n,
{
    if n <= 0 {
        seq![]
    } else {
        joined_text(doc, list, n - 1) + own_text(doc, list[n - 1])
    }
}

/// The text of a node and its descendants.
pub open spec fn text_at(doc: DocumentModel, node: NodeId) -> Seq<char> {
    let list = descendants_of(doc, node);
    own_text(doc, node) + joined_text(doc, list, list.len() as int)
}

/// The first element, from place `i` of a list on, that has the tag.
pub open spec fn find_tag(doc: DocumentModel, list: Seq<NodeId>, tag: Seq<char>, i: int) -> Option<
    NodeId,
>
    decreases list.len() - i,
{
    if i < 0 || i >= list.len() {
        None
    } else if has_tag(doc, list[i], tag) {
        Some(list[i])
    } else {
        find_tag(doc, list, tag, i + 1)
    }
}

impl Document {
    /// The number of the root.
    pub fn root(&self) -> (r: NodeId)
        ensures
            r == 0,
    {
        0
    }

    /// The element at a node.
    pub fn element(&self, node: NodeId) -> (r: Option<&Element>)
        ensures
            match r {
                Some(e) => element_at(self@, node) == Some(e@),
                None => element_at(self@, node) is None,
            },
    {
        if node < self.nodes.len() {
            assert(self@[node as int] == self.nodes@[node as int]@);
            match &self.nodes[node].kind {
                NodeKind::Element(e) => Some(e),
                _ => None,
            }
        } else {
            None
        }
    }

    /// Whether a node is an element with this tag.
    pub fn is_tag(&self, node: NodeId, tag: &str) -> (r: bool)
        ensures
            r == has_tag(self@, node, tag@),
    {
        match self.element(node) {
            Some(e) => e.is_tag(tag),
            None => false,
        }
    }

    /// The value of an element's attribute.
    pub fn attribute(&self, node: NodeId, name: &str) -> (r: Option<&String>)
        ensures
            match r {
                Some(v) => attribute_at(self@, node, name@) == Some(v@),
                None => attribute_at(self@, node, name@) is None,
            },
    {
        match self.element(node) {
            Some(e) => e.get(name),
            None => None,
        }
    }

    /// The children of a node.
    pub fn children(&self, node: NodeId) -> (r: Vec<NodeId>)
        ensures
            r@ == children_at(self@, node),
    {
        let mut r: Vec<NodeId> = Vec::new();
        if node < self.nodes.len() {
            assert(self@[node as int] == self.nodes@[node as int]@);
            let kids = &self.nodes[node].children;
            let mut i: usize = 0;
            while i < kids.len()
                invariant
                    i <= kids@.len(),
                    r@ == kids@.take(i as int),
                decreases kids@.len() - i,
            {
                r.push(kids[i]);
                i = i + 1;
                assert(kids@.take(i as int) =~= kids@.take(i - 1).push(kids@[i - 1]));
            }
            assert(kids@.take(kids@.len() as int) =~= kids@);
        }
        assert(r@ =~= children_at(self@, node));
        r
    }

    fn push_below(&self, siblings: &Vec<NodeId>, depth: usize, output: &mut Vec<NodeId>)
        ensures
            final(output)@ == old(output)@ + nodes_below(
                self@,
                siblings@,
                siblings@.len() as int,
                depth as nat,
            ),
        decreases depth,
    {
        let ghost start = output@;
        if depth == 0 {
            assert(output@ =~= start + seq![]);
            return;
        }
        let mut i: usize = 0;
        assert(output@ =~= start + nodes_below(self@, siblings@, 0, depth as nat));
        while i < siblings.len()
            invariant
                i <= siblings@.len(),
                depth > 0,
                output@ == start + nodes_below(self@, siblings@, i as int, depth as nat),
            decreases siblings@.len() - i,
        {
            let node = siblings[i];
            let kids = self.children(node);
            output.push(node);
            self.push_below(&kids, depth - 1, output);
            i = i + 1;
            assert(output@ =~= start + nodes_below(self@, siblings@, i as int, depth as nat));
        }
    }

    /// The descendants of a node in document order.
    pub fn descendants(&self, node: NodeId) -> (r: Vec<NodeId>)
        ensures
            r@ == descendants_of(self@, node),
    {
        let mut r: Vec<NodeId> = Vec::new();
        let kids = self.children(node);
        self.push_below(&kids, self.nodes.len(), &mut r);
        assert(r@ =~= descendants_of(self@, node));
        r
    }

    /// A node and its ancestors, innermost first.
    pub fn chain(&self, node: NodeId) -> (r: Vec<NodeId>)
        ensures
            r@ == chain_of(self@, node),
    {
        let mut r: Vec<NodeId> = Vec::new();
        r.push(node);
        let ghost doc = self@;
        let mut current: NodeId = node;
        let mut limit: usize = self.nodes.len();
        let mut climbing = true;
        assert(r@ + ancestors_from(doc, current, limit as nat) =~= chain_of(doc, node));
        while climbing && limit > 0 && current < self.nodes.len()
            invariant
                doc == self@,
                doc.len() == self.nodes@.len(),
                climbing ==> r@ + ancestors_from(doc, current, limit as nat) == chain_of(
                    doc,
                    node,
                ),
                !climbing ==> r@ == chain_of(doc, node),
            decreases limit,
                (if climbing {
                    1int
                } else {
                    0int
                }),
        {
            assert(doc[current as int] == self.nodes@[current as int]@);
            match self.nodes[current].parent {
                Some(parent) => {
                    let ghost before = r@;
                    r.push(parent);
                    limit = limit - 1;
                    current = parent;
                    assert(r@ + ancestors_from(doc, current, limit as nat) =~= before + (seq![
                        parent,
                    ] + ancestors_from(doc, current, limit as nat)));
                },
                None => {
                    climbing = false;
                    assert(r@ + Seq::<NodeId>::empty() =~= r@);
                },
            }
        }
        proof {
            if climbing {
                assert(r@ + Seq::<NodeId>::empty() =~= r@);
            }
        }
        r
    }

    /// The text of a node and its descendants.
    pub fn text_content(&self, node: NodeId) -> (r: String)
        ensures
            r@ == text_at(self@, node),
    {
        let ghost doc = self@;
        let list = self.descendants(node);
        let mut r = self.own_text(node);
        let ghost start = r@;
        let mut i: usize = 0;
        assert(r@ =~= start + joined_text(doc, list@, 0));
        while i < list.len()
            invariant
                i <= list@.len(),
                doc == self@,
                r@ == start + joined_text(doc, list@, i as int),
            decreases list@.len() - i,
        {
            let part = self.own_text(list[i]);
            text::push_text(&mut r, part.as_str());
            i = i + 1;
            assert(r@ =~= start + joined_text(doc, list@, i as int));
        }
        r
    }

    fn own_text(&self, node: NodeId) -> (r: String)
        ensures
            r@ == own_text(self@, node),
    {
        if node < self.nodes.len() {
            assert(self@[node as int] == self.nodes@[node as int]@);
            match &self.nodes[node].kind {
                NodeKind::Text(t) => {
                    return t.clone();
                },
                _ => {},
            }
        }
        let r = String::new();
        assert(r@ =~= seq![]);
        r
    }

    /// The first element of a list that has the tag.
    pub fn first_with_tag(&self, list: &Vec<NodeId>, tag: &str) -> (r: Option<NodeId>)
        ensures
            r == find_tag(self@, list@, tag@, 0),
    {
        let mut i: usize = 0;
        while i < list.len()
            invariant
                i <= list@.len(),
                find_tag(self@, list@, tag@, i as int) == find_tag(self@, list@, tag@, 0),
            decreases list@.len() - i,
        {
            if self.is_tag(list[i], tag) {
                return Some(list[i]);
            }
            i = i + 1;
        }
        None
    }

    /// The text of the page's `<title>` element, when present.
    pub fn title(&self) -> (r: Option<String>)
        ensures
            text::opt_text(r) == title_model(self@),
    {
        let all = self.descendants(0);
        let title = match self.first_with_tag(&all, "title") {
            Some(title) => title,
            None => {
                return None;
            },
        };
        let ghost doc = self@;
        let kids = self.children(title);
        let mut joined = String::new();
        let mut i: usize = 0;
        assert(joined@ =~= joined_text(doc, kids@, 0));
        while i < kids.len()
            invariant
                i <= kids@.len(),
                doc == self@,
                joined@ == joined_text(doc, kids@, i as int),
            decreases kids@.len() - i,
        {
            let part = self.own_text(kids[i]);
            text::push_text(&mut joined, part.as_str());
            i = i + 1;
        }
        let chars = text::chars_of(joined.as_str());
        let trimmed = text::trim(chars.as_slice());
        if trimmed.len() == 0 {
            None
        } else {
            Some(text::text_of(trimmed))
        }
    }

    /// The nearest `<a href>` at or above `node`, for link hit testing.
    pub fn link_target(&self, node: NodeId) -> (r: Option<String>)
        ensures
            text::opt_text(r) == link_model(self@, chain_of(self@, node), 0),
    {
        let chain = self.chain(node);
        let mut i: usize = 0;
        while i < chain.len()
            invariant
                i <= chain@.len(),
                chain@ == chain_of(self@, node),
                link_model(self@, chain@, i as int) == link_model(self@, chain@, 0),
            decreases chain@.len() - i,
        {
            if let Some(e) = self.element(chain[i]) {
                if e.is_tag("a") {
                    if let Some(href) = e.get("href") {
                        return Some(href.clone());
                    }
                }
            }
            i = i + 1;
        }
        None
    }
}

/// The trimmed text of the first `<title>`, unless it is blank.
pub open spec fn title_model(doc: DocumentModel) -> Option<Seq<char>> {
    match find_tag(doc, descendants_of(doc, 0), "title"@, 0) {
        Some(title) => {
            let kids = children_at(doc, title);
            let t = text::trimmed(joined_text(doc, kids, kids.len() as int));
            if t.len() == 0 {
                None
            } else {
                Some(t)
            }
        },
        None => None,
    }
}

/// The `href` of the first `<a>` with one, from place `i` of a chain on.
pub open spec fn link_model(doc: DocumentModel, chain: Seq<NodeId>, i: int) -> Option<Seq<char>>
    decreases chain.len() - i,
{
    if i < 0 || i >= chain.len() {
        None
    } else if has_tag(doc, chain[i], "a"@) && attribute_at(doc, chain[i], "href"@) is Some {
        attribute_at(doc, chain[i], "href"@)
    } else {
        link_model(doc, chain, i + 1)
    }
}

// ---------------------------------------------------------------------------
// Laws
// ---------------------------------------------------------------------------
/// The first element of a list, from place `i` on, that has a tag.
pub proof fn lemma_find_tag(doc: DocumentModel, list: Seq<NodeId>, tag: Seq<char>, i: int)
    requires
        0 <= i <= list.len(),
    ensures
        match find_tag(doc, list, tag, i) {
            Some(node) => exists|k: int|
                i <= k < list.len() && #[trigger] list[k] == node && has_tag(doc, node, tag)
                    && forall|j: int| i <= j < k ==> !has_tag(doc, #[trigger] list[j], tag),
            None => forall|j: int| i <= j < list.len() ==> !has_tag(doc, #[trigger] list[j], tag),
        },
    decreases list.len() - i,
{
    if i < list.len() {
        if has_tag(doc, list[i], tag) {
            assert(list[i] == list[i]);
        } else {
            lemma_find_tag(doc, list, tag, i + 1);
        }
    }
}

/// Of attributes of one name the first one counts, and an absent one gives the
/// default.
pub proof fn law_the_first_attribute_counts(
    pairs: Seq<(Seq<char>, Seq<char>)>,
    name: Seq<char>,
    i: int,
    k: int,
)
    requires
        0 <= i <= k <= pairs.len(),
        forall|j: int| i <= j < k ==> (#[trigger] pairs[j]).0 != name,
        k < pairs.len() ==> pairs[k].0 == name,
    ensures
        k < pairs.len() ==> find_pair(pairs, name, i) == Some(pairs[k].1),
        k == pairs.len() ==> find_pair(pairs, name, i) is None,
    decreases k - i,
{
    if i < k {
        assert(pairs[i].0 != name);
        law_the_first_attribute_counts(pairs, name, i + 1, k);
    }
}

/// A default stands for an absent attribute only.
pub proof fn law_defaults_stand_for_absent_attributes(
    e: ElementModel,
    name: Seq<char>,
    default: Seq<char>,
)
    ensures
        e.get(name) is None ==> e.get_or(name, default) == default,
        e.get(name) is Some ==> e.get_or(name, default) == e.get(name)->0,
{
}

proof fn lemma_ancestors(doc: DocumentModel, node: NodeId, limit: nat, k: int)
    requires
        0 <= k < ancestors_from(doc, node, limit).len(),
    ensures
        ({
            let list = ancestors_from(doc, node, limit);
            let below = if k == 0 {
                node
            } else {
                list[k - 1]
            };
            below < doc.len() && doc[below as int].parent == Some(list[k])
        }),
    decreases limit,
{
    let parent = doc[node as int].parent->0;
    let rest = ancestors_from(doc, parent, (limit - 1) as nat);
    let list = ancestors_from(doc, node, limit);
    assert(list == seq![parent] + rest);
    if k > 0 {
        assert(list[k] == rest[k - 1]);
        lemma_ancestors(doc, parent, (limit - 1) as nat, k - 1);
        if k > 1 {
            assert(list[k - 1] == rest[k - 2]);
        }
    }
}

/// The chain of a node starts with it, and each node in it is followed by its
/// parent.
pub proof fn law_chains_go_up(doc: DocumentModel, node: NodeId, k: int)
    requires
        0 <= k < chain_of(doc, node).len() - 1,
    ensures
        chain_of(doc, node)[0] == node,
        chain_of(doc, node)[k] < doc.len(),
        doc[chain_of(doc, node)[k] as int].parent == Some(chain_of(doc, node)[k + 1]),
{
    lemma_ancestors(doc, node, doc.len(), k);
    let up = ancestors_of(doc, node);
    assert(chain_of(doc, node)[k + 1] == up[k]);
    if k > 0 {
        assert(chain_of(doc, node)[k] == up[k - 1]);
    }
}

/// In document order a child comes before what it holds, and both before the
/// next child and what that holds.
pub proof fn law_document_order(doc: DocumentModel, siblings: Seq<NodeId>, n: int, depth: nat)
    requires
        0 < n <= siblings.len(),
        depth > 0,
    ensures
        ({
            let node = siblings[n - 1];
            let kids = children_at(doc, node);
            let below = nodes_below(doc, kids, kids.len() as int, (depth - 1) as nat);
            nodes_below(doc, siblings, n, depth) == nodes_below(doc, siblings, n - 1, depth)
                + seq![node] + below
        }),
        nodes_below(doc, siblings, 0, depth).len() == 0,
{
    let before = nodes_below(doc, siblings, n - 1, depth);
    assert(before.push(siblings[n - 1]) =~= before + seq![siblings[n - 1]]);
}

/// The text of a text node is its own; an element's is that of its text nodes,
/// one after the other.
pub proof fn law_texts_are_joined(doc: DocumentModel, node: NodeId)
    ensures
        node < doc.len() && doc[node as int].kind is Text && children_at(doc, node).len() == 0
            ==> text_at(doc, node) == doc[node as int].kind->Text_0,
        node < doc.len() && doc[node as int].kind is Element && descendants_of(doc, node).len() == 1
            ==> text_at(doc, node) == own_text(doc, descendants_of(doc, node)[0]),
        node < doc.len() && doc[node as int].kind is Element && descendants_of(doc, node).len() == 2
            ==> text_at(doc, node) == own_text(doc, descendants_of(doc, node)[0]) + own_text(
            doc,
            descendants_of(doc, node)[1],
        ),
{
    reveal_with_fuel(joined_text, 3);
    let list = descendants_of(doc, node);
    let none = Seq::<char>::empty();
    if node < doc.len() && doc[node as int].kind is Text && children_at(doc, node).len() == 0 {
        assert(nodes_below(doc, children_at(doc, node), 0, doc.len()).len() == 0);
        assert(own_text(doc, node) + none =~= own_text(doc, node));
    }
    if node < doc.len() && doc[node as int].kind is Element {
        assert(own_text(doc, node) =~= none);
        if list.len() == 1 {
            assert(none + (none + own_text(doc, list[0])) =~= own_text(doc, list[0]));
        }
        if list.len() == 2 {
            assert(none + (none + own_text(doc, list[0]) + own_text(doc, list[1])) =~= own_text(
                doc,
                list[0],
            ) + own_text(doc, list[1]));
        }
    }
}

/// The link of a chain is the address of its innermost `<a>` that has one.
pub proof fn law_the_innermost_link_counts(doc: DocumentModel, chain: Seq<NodeId>, i: int, k: int)
    requires
        0 <= i <= k < chain.len(),
        has_tag(doc, chain[k], "a"@),
        attribute_at(doc, chain[k], "href"@) is Some,
        forall|j: int|
            i <= j < k ==> !has_tag(doc, #[trigger] chain[j], "a"@) || attribute_at(
                doc,
                chain[j],
                "href"@,
            ) is None,
    ensures
        link_model(doc, chain, i) == attribute_at(doc, chain[k], "href"@),
    decreases k - i,
{
    if i < k {
        assert(!has_tag(doc, chain[i], "a"@) || attribute_at(doc, chain[i], "href"@) is None);
        law_the_innermost_link_counts(doc, chain, i + 1, k);
    }
}

/// A page's title is the trimmed text of its first title element; a blank one
/// is none.
pub proof fn law_titles_are_trimmed(doc: DocumentModel, title: NodeId)
    requires
        find_tag(doc, descendants_of(doc, 0), "title"@, 0) == Some(title),
    ensures
        ({
            let kids = children_at(doc, title);
            let t = text::trimmed(joined_text(doc, kids, kids.len() as int));
            if t.len() == 0 {
                title_model(doc) is None
            } else {
                title_model(doc) == Some(t)
            }
        }),
{
}

} // verus!
