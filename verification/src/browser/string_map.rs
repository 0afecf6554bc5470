//! A map from strings to strings that is walked in the order of its keys.
use crate::text;
use vstd::prelude::*;

verus! {

pub type Entries = Seq<(Seq<char>, Seq<char>)>;

/// Whether `a` comes before `b`: by the first character in which they
/// differ, a text before those it begins.
pub open spec fn before(a: Seq<char>, b: Seq<char>) -> bool
    decreases a.len(),
{
    if b.len() == 0 {
        false
    } else if a.len() == 0 {
        true
    } else if a[0] == b[0] {
        before(a.skip(1), b.skip(1))
    } else {
        a[0] < b[0]
    }
}

proof fn lemma_before_irreflexive(a: Seq<char>)
    ensures
        !before(a, a),
    decreases a.len(),
{
    if a.len() > 0 {
        lemma_before_irreflexive(a.skip(1));
    }
}

proof fn lemma_before_transitive(a: Seq<char>, b: Seq<char>, c: Seq<char>)
    requires
        before(a, b),
        before(b, c),
    ensures
        before(a, c),
    decreases a.len(),
{
    if a.len() > 0 && b.len() > 0 && c.len() > 0 && a[0] == b[0] && b[0] == c[0] {
        lemma_before_transitive(a.skip(1), b.skip(1), c.skip(1));
    }
}

proof fn lemma_before_total(a: Seq<char>, b: Seq<char>)
    ensures
        a == b || before(a, b) || before(b, a),
    decreases a.len(),
{
    if a.len() > 0 && b.len() > 0 && a[0] == b[0] {
        lemma_before_total(a.skip(1), b.skip(1));
        if a.skip(1) == b.skip(1) {
            assert(a =~= seq![a[0]] + a.skip(1));
            assert(b =~= seq![b[0]] + b.skip(1));
        }
    } else if a.len() == 0 && b.len() == 0 {
        assert(a =~= b);
    }
}

/// Whether `a` comes before `b`.
fn comes_before(a: &[char], b: &[char]) -> (r: bool)
    ensures
        r == before(a@, b@),
{
    let mut i: usize = 0;
    assert(a@.skip(0) =~= a@);
    assert(b@.skip(0) =~= b@);
    while i < a.len() && i < b.len()
        invariant
            i <= a@.len(),
            i <= b@.len(),
            before(a@.skip(i as int), b@.skip(i as int)) == before(a@, b@),
        decreases a@.len() - i,
    {
        assert(a@.skip(i as int)[0] == a@[i as int]);
        assert(b@.skip(i as int)[0] == b@[i as int]);
        if a[i] != b[i] {
            return a[i] < b[i];
        }
        assert(a@.skip(i as int).skip(1) =~= a@.skip(i + 1));
        assert(b@.skip(i as int).skip(1) =~= b@.skip(i + 1));
        i = i + 1;
    }
    i < b.len()
}

/// The keys ascend.
pub open spec fn ascending(e: Entries) -> bool {
    forall|i: int, j: int|
        0 <= i < j < e.len() ==> before((#[trigger] e[i]).0, (#[trigger] e[j]).0)
}

/// The entries with `key` set to `value`.
pub open spec fn put(e: Entries, key: Seq<char>, value: Seq<char>) -> Entries
    decreases e.len(),
{
    if e.len() == 0 {
        seq![(key, value)]
    } else if e.last().0 == key {
        e.drop_last().push((key, value))
    } else if before(e.last().0, key) {
        e.push((key, value))
    } else {
        put(e.drop_last(), key, value).push(e.last())
    }
}

/// The value under `key`, if there is one.
pub open spec fn lookup(e: Entries, key: Seq<char>) -> Option<Seq<char>>
    decreases e.len(),
{
    if e.len() == 0 {
        None
    } else if e.last().0 == key {
        Some(e.last().1)
    } else {
        lookup(e.drop_last(), key)
    }
}

/// The entries without `key`.
pub open spec fn dropped(e: Entries, key: Seq<char>) -> Entries
    decreases e.len(),
{
    if e.len() == 0 {
        e
    } else if e.last().0 == key {
        dropped(e.drop_last(), key)
    } else {
        dropped(e.drop_last(), key).push(e.last())
    }
}

/// Setting a key keeps the keys ascending.
pub proof fn law_put_keeps_order(e: Entries, key: Seq<char>, value: Seq<char>)
    requires
        ascending(e),
    ensures
        ascending(put(e, key, value)),
        put(e, key, value).len() > 0,
        put(e, key, value).last().0 == key || (e.len() > 0 && put(e, key, value).last()
            == e.last()),
    decreases e.len(),
{
    if e.len() > 0 {
        let init = e.drop_last();
        assert(ascending(init));
        let r = put(e, key, value);
        if e.last().0 == key {
            assert forall|i: int, j: int| 0 <= i < j < r.len() implies before(
                (#[trigger] r[i]).0,
                (#[trigger] r[j]).0,
            ) by {
                assert(before(e[i].0, e[j].0));
            }
        } else if before(e.last().0, key) {
            assert forall|i: int, j: int| 0 <= i < j < r.len() implies before(
                (#[trigger] r[i]).0,
                (#[trigger] r[j]).0,
            ) by {
                if j == e.len() && i < e.len() - 1 {
                    assert(before(e[i].0, e.last().0));
                    lemma_before_transitive(e[i].0, e.last().0, key);
                }
            }
        } else {
            law_put_keeps_order(init, key, value);
            lemma_before_total(e.last().0, key);
            let inner = put(init, key, value);
            assert forall|i: int, j: int| 0 <= i < j < r.len() implies before(
                (#[trigger] r[i]).0,
                (#[trigger] r[j]).0,
            ) by {
                if j < inner.len() {
                    assert(before(inner[i].0, inner[j].0));
                } else {
                    assert(before(inner.last().0, e.last().0));
                    if i < inner.len() - 1 {
                        assert(before(inner[i].0, inner.last().0));
                        lemma_before_transitive(inner[i].0, inner.last().0, e.last().0);
                    }
                }
            }
        }
    }
}

/// A read gives back what was written under the key, and writing one key
/// leaves the others as they were.
pub proof fn law_read_after_write(
    e: Entries,
    key: Seq<char>,
    value: Seq<char>,
    other: Seq<char>,
)
    ensures
        lookup(put(e, key, value), key) == Some(value),
        other != key ==> lookup(put(e, key, value), other) == lookup(e, other),
    decreases e.len(),
{
    let r = put(e, key, value);
    if e.len() == 0 {
        assert(r.drop_last() =~= e);
    } else if e.last().0 == key {
        assert(r.drop_last() =~= e.drop_last());
    } else if before(e.last().0, key) {
        assert(r.drop_last() =~= e);
    } else {
        law_read_after_write(e.drop_last(), key, value, other);
        assert(r.drop_last() =~= put(e.drop_last(), key, value));
    }
}

/// A removed key is gone, and removing one key leaves the others as they
/// were.
pub proof fn law_read_after_remove(e: Entries, key: Seq<char>, other: Seq<char>)
    ensures
        lookup(dropped(e, key), key) is None,
        other != key ==> lookup(dropped(e, key), other) == lookup(e, other),
        ascending(e) ==> ascending(dropped(e, key)),
    decreases e.len(),
{
    if e.len() > 0 {
        let init = e.drop_last();
        law_read_after_remove(init, key, other);
        if e.last().0 != key {
            let r = dropped(e, key);
            let inner = dropped(init, key);
            assert(r.drop_last() =~= inner);
            if ascending(e) {
                assert(ascending(init));
                lemma_dropped_within(init, key);
                assert forall|i: int, j: int| 0 <= i < j < r.len() implies before(
                    (#[trigger] r[i]).0,
                    (#[trigger] r[j]).0,
                ) by {
                    if j < inner.len() {
                        assert(before(inner[i].0, inner[j].0));
                    } else {
                        assert(init.contains(inner[i]));
                        let k = choose|k: int| 0 <= k < init.len() && init[k] == inner[i];
                        assert(before(e[k].0, e.last().0));
                    }
                }
            }
        } else if ascending(e) {
            assert(ascending(init));
        }
    }
}

proof fn lemma_dropped_within(e: Entries, key: Seq<char>)
    ensures
        forall|i: int| 0 <= i < dropped(e, key).len() ==> e.contains(#[trigger] dropped(e, key)[i]),
    decreases e.len(),
{
    if e.len() > 0 {
        let init = e.drop_last();
        lemma_dropped_within(init, key);
        let r = dropped(e, key);
        assert forall|i: int| 0 <= i < r.len() implies e.contains(#[trigger] r[i]) by {
            if i < dropped(init, key).len() {
                assert(init.contains(dropped(init, key)[i]));
                let k = choose|k: int| 0 <= k < init.len() && init[k] == dropped(init, key)[i];
                assert(e[k] == r[i]);
            } else {
                assert(e[e.len() - 1] == r[i]);
            }
        }
    }
}

/// Setting a key that comes after all others appends it.
pub proof fn lemma_put_last(e: Entries, key: Seq<char>, value: Seq<char>)
    requires
        e.len() > 0 ==> before(e.last().0, key),
    ensures
        put(e, key, value) == e.push((key, value)),
{
    lemma_before_irreflexive(key);
    if e.len() == 0 {
        assert(put(e, key, value) =~= e.push((key, value)));
    }
}

/// The entries from `i` on all come after `key`.
proof fn lemma_put_split(e: Entries, key: Seq<char>, value: Seq<char>, i: int)
    requires
        0 <= i <= e.len(),
        forall|j: int| i <= j < e.len() ==> before(key, (#[trigger] e[j]).0),
    ensures
        put(e, key, value) == put(e.take(i), key, value) + e.skip(i),
    decreases e.len(),
{
    if i == e.len() {
        assert(e.take(i) =~= e);
        assert(put(e, key, value) =~= put(e.take(i), key, value) + e.skip(i));
    } else {
        lemma_before_irreflexive(key);
        let last = e.last().0;
        assert(before(key, last));
        if before(last, key) {
            lemma_before_transitive(last, key, last);
            lemma_before_irreflexive(last);
        }
        lemma_put_split(e.drop_last(), key, value, i);
        assert(e.drop_last().take(i) =~= e.take(i));
        assert(put(e, key, value) =~= put(e.take(i), key, value) + e.skip(i));
    }
}

/// A map from strings to strings.
#[derive(Debug, PartialEq, Eq)]
pub struct StringMap {
    entries: Vec<(String, String)>,
}

pub open spec fn entry_models(entries: Seq<(String, String)>) -> Entries {
    Seq::new(entries.len(), |i: int| (entries[i].0@, entries[i].1@))
}

impl View for StringMap {
    type V = Entries;

    closed spec fn view(&self) -> Entries {
        entry_models(self.entries@)
    }
}

impl StringMap {
    #[verifier::type_invariant]
    spec fn well_formed(self) -> bool {
        ascending(entry_models(self.entries@))
    }

    pub fn new() -> (r: StringMap)
        ensures
            r@ == Seq::<(Seq<char>, Seq<char>)>::empty(),
    {
        let r = StringMap { entries: Vec::new() };
        assert(r@ =~= Seq::<(Seq<char>, Seq<char>)>::empty());
        r
    }

    /// How many keys there are; they ascend.
    pub fn len(&self) -> (r: usize)
        ensures
            r == self@.len(),
            ascending(self@),
    {
        proof {
            use_type_invariant(self);
        }
        self.entries.len()
    }

    /// The key at place `i` in key order.
    pub fn key(&self, i: usize) -> (r: Option<&String>)
        ensures
            match r {
                Some(key) => i < self@.len() && key@ == self@[i as int].0,
                None => i >= self@.len(),
            },
    {
        if i < self.entries.len() {
            Some(&self.entries[i].0)
        } else {
            None
        }
    }

    /// The value at place `i` in key order.
    pub fn value(&self, i: usize) -> (r: Option<&String>)
        ensures
            match r {
                Some(value) => i < self@.len() && value@ == self@[i as int].1,
                None => i >= self@.len(),
            },
    {
        if i < self.entries.len() {
            Some(&self.entries[i].1)
        } else {
            None
        }
    }

    /// The value under `key`.
    pub fn get(&self, key: &str) -> (r: Option<&String>)
        ensures
            match r {
                Some(value) => lookup(self@, key@) == Some(value@),
                None => lookup(self@, key@) is None,
            },
    {
        let ghost e = self@;
        let mut i: usize = self.entries.len();
        assert(e.take(i as int) =~= e);
        while i > 0
            invariant
                i <= self.entries@.len(),
                e == entry_models(self.entries@),
                lookup(e.take(i as int), key@) == lookup(e, key@),
            decreases i,
        {
            assert(e.take(i as int).last() == e[i - 1]);
            assert(e.take(i as int).drop_last() =~= e.take(i - 1));
            if text::same_str(self.entries[i - 1].0.as_str(), key) {
                return Some(&self.entries[i - 1].1);
            }
            i = i - 1;
        }
        None
    }

    /// Sets `key` to `value`.
    pub fn insert(&mut self, key: String, value: String)
        ensures
            final(self)@ == put(old(self)@, key@, value@),
    {
        proof {
            use_type_invariant(&*self);
        }
        let ghost e = self@;
        let chars = text::chars_of(key.as_str());
        let k = chars.as_slice();
        let mut entries: Vec<(String, String)> = Vec::new();
        std::mem::swap(&mut entries, &mut self.entries);
        let mut i: usize = entries.len();
        let mut searching = true;
        while searching && i > 0
            invariant
                i <= entries@.len(),
                e == entry_models(entries@),
                k@ == key@,
                forall|j: int| i <= j < e.len() ==> before(key@, (#[trigger] e[j]).0),
                !searching ==> i > 0 && !before(key@, e[i - 1].0),
            decreases i,
                (if searching {
                    1int
                } else {
                    0int
                }),
        {
            let other = text::chars_of(entries[i - 1].0.as_str());
            assert(e[i - 1].0 == other@);
            if comes_before(k, other.as_slice()) {
                i = i - 1;
            } else {
                searching = false;
            }
        }
        proof {
            lemma_put_split(e, key@, value@, i as int);
            law_put_keeps_order(e, key@, value@);
        }
        if i > 0 && text::same_str(entries[i - 1].0.as_str(), key.as_str()) {
            let ghost old_entries = entries@;
            let ghost model = (key@, value@);
            entries.set(i - 1, (key, value));
            proof {
                let head = e.take(i as int);
                assert(head.last() == e[i - 1]);
                assert(e[i - 1].0 == old_entries[i - 1].0@);
                assert(put(head, model.0, model.1) == head.drop_last().push(model));
                assert(entry_models(entries@) =~= put(e, model.0, model.1));
            }
        } else {
            let ghost model = (key@, value@);
            proof {
                let head = e.take(i as int);
                if i > 0 {
                    assert(head.last() == e[i - 1]);
                    assert(e[i - 1].0 == entries@[i - 1].0@);
                    lemma_before_total(head.last().0, key@);
                }
                lemma_put_last(head, key@, value@);
            }
            entries.insert(i, (key, value));
            assert(entry_models(entries@) =~= put(e, model.0, model.1));
        }
        self.entries = entries;
    }

    /// Removes `key`.
    pub fn remove(&mut self, key: &str)
        ensures
            final(self)@ == dropped(old(self)@, key@),
    {
        proof {
            use_type_invariant(&*self);
        }
        let ghost e = self@;
        let mut entries: Vec<(String, String)> = Vec::new();
        std::mem::swap(&mut entries, &mut self.entries);
        let mut kept: Vec<(String, String)> = Vec::new();
        let mut i: usize = 0;
        assert(entry_models(kept@) =~= dropped(e.take(0), key@));
        while i < entries.len()
            invariant
                i <= entries@.len(),
                e == entry_models(entries@),
                entry_models(kept@) == dropped(e.take(i as int), key@),
            decreases entries@.len() - i,
        {
            let ghost sofar = kept@;
            proof {
                let t = e.take(i + 1);
                assert(t.drop_last() =~= e.take(i as int));
                assert(t.last() == e[i as int]);
            }
            if !text::same_str(entries[i].0.as_str(), key) {
                kept.push((entries[i].0.clone(), entries[i].1.clone()));
                assert(entry_models(kept@) =~= entry_models(sofar).push(e[i as int]));
            }
            i = i + 1;
        }
        proof {
            assert(e.take(entries@.len() as int) =~= e);
            law_read_after_remove(e, key@, key@);
        }
        self.entries = kept;
    }

    /// Removes every key.
    pub fn clear(&mut self)
        ensures
            final(self)@ == Seq::<(Seq<char>, Seq<char>)>::empty(),
    {
        self.entries = Vec::new();
        assert(self@ =~= Seq::<(Seq<char>, Seq<char>)>::empty());
    }
}

impl Clone for StringMap {
    fn clone(&self) -> (r: StringMap)
        ensures
            r@ == self@,
    {
        proof {
            use_type_invariant(self);
        }
        let mut entries: Vec<(String, String)> = Vec::new();
        let mut i: usize = 0;
        while i < self.entries.len()
            invariant
                i <= self.entries@.len(),
                entries@.len() == i,
                forall|j: int|
                    0 <= j < i ==> (#[trigger] entries@[j]).0@ == self.entries@[j].0@
                        && entries@[j].1@ == self.entries@[j].1@,
            decreases self.entries@.len() - i,
        {
            entries.push((self.entries[i].0.clone(), self.entries[i].1.clone()));
            i = i + 1;
        }
        assert(entry_models(entries@) =~= entry_models(self.entries@));
        StringMap { entries }
    }
}

/// Keys are ordered by their first character that differs, and a key comes
/// before a longer one that starts with it.
pub proof fn law_keys_are_ordered_by_character(a: Seq<char>, b: Seq<char>, k: int)
    requires
        0 <= k <= a.len(),
        k <= b.len(),
        a.take(k) == b.take(k),
    ensures
        k < a.len() && k < b.len() && a[k] != b[k] ==> (before(a, b) <==> a[k] < b[k]),
        k == a.len() && k < b.len() ==> before(a, b) && !before(b, a),
        k == a.len() && k == b.len() ==> !before(a, b),
    decreases k,
{
    if k > 0 {
        assert(a[0] == a.take(k)[0] && b[0] == b.take(k)[0]);
        let x = a.skip(1);
        let y = b.skip(1);
        assert(x.take(k - 1) =~= a.take(k).skip(1));
        assert(y.take(k - 1) =~= b.take(k).skip(1));
        law_keys_are_ordered_by_character(x, y, k - 1);
    }
}

} // verus!
