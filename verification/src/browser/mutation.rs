//! Changes of a page's document: attributes, and where nodes stand in the
//! tree.
use crate::browser::document::{
    self, Document, DocumentModel, Element, ElementModel, KindModel, Node, NodeId, NodeKind,
    NodeModel,
};
use crate::text;
use vstd::prelude::*;

verus! {

// ---------------------------------------------------------------------------
// Models
// ---------------------------------------------------------------------------
pub type Pairs = Seq<(Seq<char>, Seq<char>)>;

/// Some pairs with the first one called `name`, from place `i` on, set to a
/// value; without one, a new pair comes last.
pub open spec fn put_pair(pairs: Pairs, name: Seq<char>, value: Seq<char>, i: int) -> Pairs
    decreases pairs.len() - i,
{
    if i < 0 || i >= pairs.len() {
        pairs.push((name, value))
    } else if pairs[i].0 == name {
        pairs.update(i, (name, value))
    } else {
        put_pair(pairs, name, value, i + 1)
    }
}

/// A document with an attribute set. Only elements have attributes.
pub open spec fn with_attribute(
    doc: DocumentModel,
    node: NodeId,
    name: Seq<char>,
    value: Seq<char>,
) -> DocumentModel {
    match document::element_at(doc, node) {
        Some(e) => {
            let e = ElementModel { attributes: put_pair(e.attributes, name, value, 0), ..e };
            doc.update(node as int, NodeModel { kind: KindModel::Element(e), ..doc[node as int] })
        },
        None => doc,
    }
}

/// A node outside the tree.
pub open spec fn loose(kind: KindModel) -> NodeModel {
    NodeModel { kind, parent: None, children: Seq::empty() }
}

/// The first `n` of some siblings without one node.
pub open spec fn without(list: Seq<NodeId>, node: NodeId, n: int) -> Seq<NodeId>
    decreases n,
{
    if n <= 0 {
        Seq::empty()
    } else if list[n - 1] == node {
        without(list, node, n - 1)
    } else {
        without(list, node, n - 1).push(list[n - 1])
    }
}

/// A document with a node taken out of its parent.
pub open spec fn detached(doc: DocumentModel, node: NodeId) -> DocumentModel {
    if node >= doc.len() {
        doc
    } else {
        match doc[node as int].parent {
            None => doc,
            Some(parent) => {
                let loosened = doc.update(
                    node as int,
                    NodeModel { parent: None, ..doc[node as int] },
                );
                if parent < doc.len() {
                    let siblings = loosened[parent as int].children;
                    loosened.update(
                        parent as int,
                        NodeModel {
                            children: without(siblings, node, siblings.len() as int),
                            ..loosened[parent as int]
                        },
                    )
                } else {
                    loosened
                }
            },
        }
    }
}

/// The place of a node among siblings, from `i` on; their end without one.
pub open spec fn place_of(list: Seq<NodeId>, node: NodeId, i: int) -> int
    decreases list.len() - i,
{
    if i < 0 || i >= list.len() {
        list.len() as int
    } else if list[i] == node {
        i
    } else {
        place_of(list, node, i + 1)
    }
}

/// Whether a node can be put into a parent: not into itself, nor into what it
/// holds.
pub open spec fn insertable(doc: DocumentModel, parent: NodeId, child: NodeId) -> bool {
    parent < doc.len() && child < doc.len() && !document::chain_of(doc, parent).contains(child)
}

/// A document with a node moved into a parent, before one of its children or
/// last.
pub open spec fn inserted(
    doc: DocumentModel,
    parent: NodeId,
    child: NodeId,
    next: Option<NodeId>,
) -> DocumentModel {
    if !insertable(doc, parent, child) {
        doc
    } else {
        let rest = detached(doc, child);
        let siblings = rest[parent as int].children;
        let at = match next {
            Some(next) => place_of(siblings, next, 0),
            None => siblings.len() as int,
        };
        let moved = rest.update(
            child as int,
            NodeModel { parent: Some(parent), ..rest[child as int] },
        );
        moved.update(
            parent as int,
            NodeModel { children: siblings.insert(at, child), ..moved[parent as int] },
        )
    }
}

/// A document with the first `n` of some nodes taken out of their parents.
pub open spec fn all_detached(doc: DocumentModel, list: Seq<NodeId>, n: int) -> DocumentModel
    decreases n,
{
    if n <= 0 {
        doc
    } else {
        detached(all_detached(doc, list, n - 1), list[n - 1])
    }
}

/// A document whose node holds one text in place of its children.
pub open spec fn with_text(doc: DocumentModel, node: NodeId, text: Seq<char>) -> DocumentModel {
    if node >= doc.len() {
        doc
    } else {
        let kids = doc[node as int].children;
        let cleared = all_detached(doc, kids, kids.len() as int);
        let emptied = cleared.update(
            node as int,
            NodeModel { children: seq![doc.len() as NodeId], ..cleared[node as int] },
        );
        emptied.push(NodeModel { parent: Some(node), ..loose(KindModel::Text(text)) })
    }
}

// ---------------------------------------------------------------------------
// Changes
// ---------------------------------------------------------------------------
impl Element {
    /// Sets an attribute; a new one comes last.
    pub fn set(&mut self, name: &str, value: &str)
        ensures
            final(self)@ == (ElementModel {
                attributes: put_pair(old(self)@.attributes, name@, value@, 0),
                ..old(self)@
            }),
    {
        let ghost pairs = self@.attributes;
        let mut i: usize = 0;
        while i < self.attributes.len()
            invariant
                i <= self.attributes@.len(),
                pairs == document::pair_models(self.attributes@),
                pairs == old(self)@.attributes,
                self@ == old(self)@,
                put_pair(pairs, name@, value@, i as int) == put_pair(pairs, name@, value@, 0),
            decreases self.attributes@.len() - i,
        {
            assert(pairs[i as int].0 == self.attributes@[i as int].0@);
            if text::same_str(self.attributes[i].0.as_str(), name) {
                self.attributes.set(i, (name.to_owned(), value.to_owned()));
                assert(self@.attributes =~= pairs.update(i as int, (name@, value@)));
                return ;
            }
            i = i + 1;
        }
        self.attributes.push((name.to_owned(), value.to_owned()));
        assert(self@.attributes =~= pairs.push((name@, value@)));
    }
}

/// Some siblings without one node.
fn other_siblings(list: &Vec<NodeId>, node: NodeId) -> (r: Vec<NodeId>)
    ensures
        r@ == without(list@, node, list@.len() as int),
{
    let mut r: Vec<NodeId> = Vec::new();
    let mut i: usize = 0;
    assert(r@ =~= without(list@, node, 0));
    while i < list.len()
        invariant
            i <= list@.len(),
            r@ == without(list@, node, i as int),
        decreases list@.len() - i,
    {
        if list[i] != node {
            r.push(list[i]);
        }
        i = i + 1;
    }
    r
}

impl Document {
    /// Sets an attribute of an element.
    pub fn set_attribute(&mut self, node: NodeId, name: &str, value: &str)
        ensures
            final(self)@ == with_attribute(old(self)@, node, name@, value@),
    {
        let ghost doc = self@;
        if node < self.nodes.len() {
            assert(doc[node as int] == self.nodes@[node as int]@);
            if let NodeKind::Element(element) = &mut self.nodes[node].kind {
                element.set(name, value);
            }
        }
        assert(self@ =~= with_attribute(doc, node, name@, value@));
    }

    /// Makes an element outside the tree. Tags are lowercase.
    pub fn create_element(&mut self, tag: &str) -> (r: NodeId)
        ensures
            r == old(self)@.len(),
            final(self)@ == old(self)@.push(
                loose(
                    KindModel::Element(
                        ElementModel { tag_name: text::lowered(tag@), attributes: Seq::empty() },
                    ),
                ),
            ),
    {
        let ghost doc = self@;
        let lowered = text::to_lowered(text::chars_of(tag).as_slice());
        let attributes: Vec<(String, String)> = Vec::new();
        assert(document::pair_models(attributes@) =~= Seq::empty());
        let element = Element { tag_name: text::text_of(lowered.as_slice()), attributes };
        let ghost model = element@;
        let children: Vec<NodeId> = Vec::new();
        assert(children@ =~= Seq::empty());
        let r = self.nodes.len();
        self.nodes.push(Node { kind: NodeKind::Element(element), parent: None, children });
        assert(self@ =~= doc.push(loose(KindModel::Element(model))));
        r
    }

    /// Takes a node out of its parent.
    pub fn detach(&mut self, node: NodeId)
        ensures
            final(self)@ == detached(old(self)@, node),
    {
        let ghost doc = self@;
        if node < self.nodes.len() {
            assert(doc[node as int] == self.nodes@[node as int]@);
            if let Some(parent) = self.nodes[node].parent {
                self.nodes[node].parent = None;
                let ghost loosened = self@;
                assert(loosened =~= doc.update(
                    node as int,
                    NodeModel { parent: None, ..doc[node as int] },
                ));
                if parent < self.nodes.len() {
                    assert(loosened[parent as int] == self.nodes@[parent as int]@);
                    let children = other_siblings(&self.nodes[parent].children, node);
                    self.nodes[parent].children = children;
                }
            }
        }
        assert(self@ =~= detached(doc, node));
    }

    /// Moves a node into a parent, before one of its children or last. A node
    /// does not move into itself or into what it holds.
    pub fn insert_before(&mut self, parent: NodeId, child: NodeId, next: Option<NodeId>)
        ensures
            final(self)@ == inserted(old(self)@, parent, child, next),
    {
        let ghost doc = self@;
        if parent >= self.nodes.len() || child >= self.nodes.len() {
            return ;
        }
        let chain = self.chain(parent);
        let mut i: usize = 0;
        while i < chain.len()
            invariant
                i <= chain@.len(),
                self@ == doc,
                chain@ == document::chain_of(doc, parent),
                forall|k: int| 0 <= k < i ==> chain@[k] != child,
            decreases chain@.len() - i,
        {
            if chain[i] == child {
                assert(document::chain_of(doc, parent).contains(child));
                assert(!insertable(doc, parent, child));
                return ;
            }
            i = i + 1;
        }
        assert(insertable(doc, parent, child));
        self.detach(child);
        let ghost rest = self@;
        assert(rest.len() == doc.len());
        assert(rest[parent as int] == self.nodes@[parent as int]@);
        assert(rest[child as int] == self.nodes@[child as int]@);
        let ghost siblings = rest[parent as int].children;
        let mut at: usize = self.nodes[parent].children.len();
        if let Some(next) = next {
            at = 0;
            while at < self.nodes[parent].children.len() && self.nodes[parent].children[at] != next
                invariant
                    parent < self.nodes@.len(),
                    self@ == rest,
                    siblings == self.nodes@[parent as int].children@,
                    at <= siblings.len(),
                    place_of(siblings, next, at as int) == place_of(siblings, next, 0),
                decreases siblings.len() - at,
            {
                at = at + 1;
            }
            assert(at == place_of(siblings, next, 0));
        }
        self.nodes[child].parent = Some(parent);
        let ghost moved = self@;
        assert(moved =~= rest.update(
            child as int,
            NodeModel { parent: Some(parent), ..rest[child as int] },
        ));
        assert(moved[parent as int] == self.nodes@[parent as int]@);
        assert(moved[parent as int].children == siblings);
        self.nodes[parent].children.insert(at, child);
        assert(self@ =~= inserted(doc, parent, child, next));
    }

    /// Replaces a node's children by one text.
    pub fn set_text_content(&mut self, node: NodeId, value: &str)
        ensures
            final(self)@ == with_text(old(self)@, node, value@),
    {
        let ghost doc = self@;
        if node >= self.nodes.len() {
            return ;
        }
        let kids = self.children(node);
        let mut i: usize = 0;
        while i < kids.len()
            invariant
                i <= kids@.len(),
                self@ == all_detached(doc, kids@, i as int),
                self@.len() == doc.len(),
            decreases kids@.len() - i,
        {
            self.detach(kids[i]);
            i = i + 1;
        }
        let ghost cleared = self@;
        let number = self.nodes.len();
        let mut children: Vec<NodeId> = Vec::new();
        children.push(number);
        assert(children@ =~= seq![number]);
        assert(cleared[node as int] == self.nodes@[node as int]@);
        self.nodes[node].children = children;
        let ghost emptied = self@;
        assert(emptied =~= cleared.update(
            node as int,
            NodeModel { children: seq![number], ..cleared[node as int] },
        ));
        let none: Vec<NodeId> = Vec::new();
        assert(none@ =~= Seq::empty());
        self.nodes.push(
            Node { kind: NodeKind::Text(value.to_owned()), parent: Some(node), children: none },
        );
        assert(self@ =~= with_text(doc, node, value@));
    }
}

// ---------------------------------------------------------------------------
// Laws
// ---------------------------------------------------------------------------
proof fn lemma_put_pair(pairs: Pairs, name: Seq<char>, value: Seq<char>, other: Seq<char>, i: int)
    requires
        0 <= i <= pairs.len(),
    ensures
        document::find_pair(put_pair(pairs, name, value, i), name, i) == Some(value),
        other != name ==> document::find_pair(put_pair(pairs, name, value, i), other, i)
            == document::find_pair(pairs, other, i),
        forall|k: int| 0 <= k < i ==> #[trigger] put_pair(pairs, name, value, i)[k] == pairs[k],
        put_pair(pairs, name, value, i).len() >= pairs.len(),
    decreases pairs.len() - i,
{
    let after = put_pair(pairs, name, value, i);
    if i >= pairs.len() {
        assert(after[i] == (name, value));
        assert(document::find_pair(after, other, i + 1) is None);
    } else if pairs[i].0 == name {
        assert(after[i] == (name, value));
        lemma_same_tail(after, pairs, other, i + 1);
    } else {
        lemma_put_pair(pairs, name, value, other, i + 1);
        assert(after[i] == pairs[i]);
    }
}

proof fn lemma_same_tail(a: Pairs, b: Pairs, name: Seq<char>, i: int)
    requires
        0 <= i <= a.len(),
        a.len() == b.len(),
        forall|k: int| i <= k < a.len() ==> a[k] == b[k],
    ensures
        document::find_pair(a, name, i) == document::find_pair(b, name, i),
    decreases a.len() - i,
{
    if i < a.len() {
        lemma_same_tail(a, b, name, i + 1);
    }
}

/// An attribute that is set reads back; every other attribute, every other
/// node and the tree stay as they are.
pub proof fn law_attributes_read_back(
    doc: DocumentModel,
    node: NodeId,
    name: Seq<char>,
    value: Seq<char>,
)
    requires
        document::element_at(doc, node) is Some,
    ensures
        ({
            let after = with_attribute(doc, node, name, value);
            &&& document::attribute_at(after, node, name) == Some(value)
            &&& forall|other: Seq<char>|
                other != name ==> #[trigger] document::attribute_at(after, node, other)
                    == document::attribute_at(doc, node, other)
            &&& after.len() == doc.len()
            &&& forall|m: int|
                0 <= m < doc.len() && m != node ==> #[trigger] after[m] == doc[m]
            &&& after[node as int].children == doc[node as int].children
            &&& after[node as int].parent == doc[node as int].parent
        }),
{
    let e = document::element_at(doc, node)->0;
    let after = with_attribute(doc, node, name, value);
    lemma_put_pair(e.attributes, name, value, name, 0);
    assert forall|other: Seq<char>| other != name implies #[trigger] document::attribute_at(
        after,
        node,
        other,
    ) == document::attribute_at(doc, node, other) by {
        lemma_put_pair(e.attributes, name, value, other, 0);
    }
}

proof fn lemma_without(list: Seq<NodeId>, node: NodeId, n: int)
    requires
        0 <= n <= list.len(),
    ensures
        !without(list, node, n).contains(node),
        forall|m: NodeId|
            m != node ==> (#[trigger] without(list, node, n).contains(m) <==> list.take(
                n,
            ).contains(m)),
    decreases n,
{
    let w = without(list, node, n);
    if n > 0 {
        let before = without(list, node, n - 1);
        lemma_without(list, node, n - 1);
        let last = list[n - 1];
        assert(list.take(n) =~= list.take(n - 1).push(last));
        if last != node {
            assert forall|k: int| 0 <= k < w.len() implies w[k] != node by {
                if k < before.len() {
                    assert(before.contains(w[k]));
                }
            }
        }
        assert forall|m: NodeId| m != node implies (#[trigger] w.contains(m) <==> list.take(
            n,
        ).contains(m)) by {
            lemma_push_contains(list.take(n - 1), last, m);
            lemma_push_contains(before, last, m);
            assert(before.contains(m) <==> list.take(n - 1).contains(m));
        }
    }
}

proof fn lemma_push_contains(list: Seq<NodeId>, last: NodeId, m: NodeId)
    ensures
        list.push(last).contains(m) <==> list.contains(m) || m == last,
{
    let pushed = list.push(last);
    if list.contains(m) {
        let k = choose|k: int| 0 <= k < list.len() && list[k] == m;
        assert(pushed[k] == m);
    }
    if m == last {
        assert(pushed[list.len() as int] == m);
    }
    if pushed.contains(m) {
        let k = choose|k: int| 0 <= k < pushed.len() && pushed[k] == m;
        if k < list.len() {
            assert(list[k] == m);
        }
    }
}

/// A detached node has no parent, and is no longer among the children of the
/// one it had. The other children stay, and so does what every node is.
pub proof fn law_detached_nodes_are_gone(doc: DocumentModel, node: NodeId, parent: NodeId)
    requires
        node < doc.len(),
        parent < doc.len(),
        doc[node as int].parent == Some(parent),
    ensures
        ({
            let after = detached(doc, node);
            &&& after[node as int].parent is None
            &&& !document::children_at(after, parent).contains(node)
            &&& forall|m: NodeId|
                m != node ==> (#[trigger] document::children_at(after, parent).contains(m)
                    <==> document::children_at(doc, parent).contains(m))
            &&& after.len() == doc.len()
            &&& forall|m: int| 0 <= m < doc.len() ==> (#[trigger] after[m]).kind == doc[m].kind
        }),
{
    let list = doc[parent as int].children;
    lemma_without(list, node, list.len() as int);
    assert(list.take(list.len() as int) =~= list);
}

/// A node that is moved into a parent is one of its children, knows it, and
/// stands right before the child it was to stand before.
pub proof fn law_inserted_nodes_are_children(
    doc: DocumentModel,
    parent: NodeId,
    child: NodeId,
    next: Option<NodeId>,
)
    requires
        insertable(doc, parent, child),
    ensures
        ({
            let after = inserted(doc, parent, child, next);
            let kids = document::children_at(after, parent);
            &&& after[child as int].parent == Some(parent)
            &&& kids.contains(child)
            &&& next is None ==> kids.last() == child
            &&& next matches Some(m) ==> m != child && document::children_at(
                doc,
                parent,
            ).contains(m) ==> exists|k: int|
                0 <= k < kids.len() - 1 && #[trigger] kids[k] == child && kids[k + 1] == m
            &&& after.len() == doc.len()
            &&& forall|m: int| 0 <= m < doc.len() ==> (#[trigger] after[m]).kind == doc[m].kind
        }),
{
    let rest = detached(doc, child);
    let siblings = rest[parent as int].children;
    let after = inserted(doc, parent, child, next);
    let kids = document::children_at(after, parent);
    assert(document::chain_of(doc, parent)[0] == parent);
    assert(parent != child);
    match next {
        None => {
            assert(kids == siblings.insert(siblings.len() as int, child));
            assert(kids[siblings.len() as int] == child);
        },
        Some(m) => {
            lemma_place_of(siblings, m, 0);
            let at = place_of(siblings, m, 0);
            assert(kids == siblings.insert(at, child));
            assert(kids[at] == child);
            if m != child && document::children_at(doc, parent).contains(m) {
                let list = doc[parent as int].children;
                lemma_without(list, child, list.len() as int);
                assert(list.take(list.len() as int) =~= list);
                assert(siblings.contains(m));
                assert(kids[at + 1] == siblings[at]);
            }
        },
    }
}

proof fn lemma_place_of(list: Seq<NodeId>, node: NodeId, i: int)
    requires
        0 <= i <= list.len(),
    ensures
        i <= place_of(list, node, i) <= list.len(),
        place_of(list, node, i) < list.len() ==> list[place_of(list, node, i)] == node,
        (exists|k: int| i <= k < list.len() && list[k] == node) ==> place_of(list, node, i)
            < list.len(),
    decreases list.len() - i,
{
    if i < list.len() && list[i] != node {
        lemma_place_of(list, node, i + 1);
    }
}

proof fn lemma_all_detached(doc: DocumentModel, list: Seq<NodeId>, n: int)
    ensures
        all_detached(doc, list, n).len() == doc.len(),
        forall|m: int|
            0 <= m < doc.len() ==> (#[trigger] all_detached(doc, list, n)[m]).kind == doc[m].kind,
    decreases n,
{
    if n > 0 {
        lemma_all_detached(doc, list, n - 1);
    }
}

/// The text that a node's content is set to is the text it holds.
pub proof fn law_text_reads_back(doc: DocumentModel, node: NodeId, value: Seq<char>)
    requires
        node < doc.len(),
        doc.len() < usize::MAX,
        !(doc[node as int].kind is Text),
    ensures
        document::text_at(with_text(doc, node, value), node) == value,
{
    let kids = doc[node as int].children;
    lemma_all_detached(doc, kids, kids.len() as int);
    let after = with_text(doc, node, value);
    let number = doc.len() as NodeId;
    assert(after[number as int].children =~= Seq::empty());
    assert(document::children_at(after, node) == seq![number]);
    reveal_with_fuel(document::nodes_below, 3);
    let list = document::descendants_of(after, node);
    assert(document::children_at(after, number) =~= Seq::empty());
    assert(list =~= seq![number]);
    reveal_with_fuel(document::joined_text, 3);
    assert(document::own_text(after, node) =~= Seq::empty());
    assert(document::joined_text(after, list, 1) =~= value);
    assert(document::text_at(after, node) =~= value);
}

} // verus!
