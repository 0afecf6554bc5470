//! Class lists, inline styles and datasets: what scripts read from and write
//! to the attributes of an element.
use crate::browser::document;
use crate::text;
use vstd::prelude::*;

verus! {

// ---------------------------------------------------------------------------
// Class lists
// ---------------------------------------------------------------------------
/// The first `n` classes without one.
pub open spec fn without_class(list: Seq<Seq<char>>, class: Seq<char>, n: int) -> Seq<Seq<char>>
    decreases n,
{
    if n <= 0 {
        seq![]
    } else if list[n - 1] == class {
        without_class(list, class, n - 1)
    } else {
        without_class(list, class, n - 1).push(list[n - 1])
    }
}

pub open spec fn class_added(list: Seq<Seq<char>>, class: Seq<char>) -> Seq<Seq<char>> {
    if list.contains(class) {
        list
    } else {
        list.push(class)
    }
}

pub open spec fn class_removed(list: Seq<Seq<char>>, class: Seq<char>) -> Seq<Seq<char>> {
    without_class(list, class, list.len() as int)
}

pub open spec fn class_toggled(list: Seq<Seq<char>>, class: Seq<char>) -> Seq<Seq<char>> {
    if list.contains(class) {
        class_removed(list, class)
    } else {
        list.push(class)
    }
}

/// The classes of a `class` attribute.
pub open spec fn classes_of(attribute: Seq<char>) -> Seq<Seq<char>> {
    text::words(attribute)
}

pub open spec fn class_text(list: Seq<Seq<char>>) -> Seq<char> {
    text::joined(list, " "@)
}

fn read_classes(attribute: &str) -> (r: Vec<String>)
    ensures
        text::texts(r@) == classes_of(attribute@),
{
    let chars = text::chars_of(attribute);
    let parts = text::split_whitespace(chars.as_slice());
    let ghost pv = text::views(parts@);
    let mut list: Vec<String> = Vec::new();
    let mut i: usize = 0;
    assert(text::texts(list@) =~= pv.take(0));
    while i < parts.len()
        invariant
            i <= parts@.len(),
            pv == text::views(parts@),
            text::texts(list@) == pv.take(i as int),
        decreases parts@.len() - i,
    {
        let part = text::text_of(parts[i]);
        proof {
            text::lemma_texts_push(list@, part);
        }
        list.push(part);
        i = i + 1;
        assert(pv.take(i as int) =~= pv.take(i - 1).push(pv[i - 1]));
    }
    assert(pv.take(pv.len() as int) =~= pv);
    list
}

fn list_contains(list: &Vec<String>, class: &str) -> (r: bool)
    ensures
        r == text::texts(list@).contains(class@),
{
    let ghost lv = text::texts(list@);
    let mut i: usize = 0;
    while i < list.len()
        invariant
            i <= list@.len(),
            lv == text::texts(list@),
            forall|j: int| 0 <= j < i ==> #[trigger] lv[j] != class@,
        decreases list@.len() - i,
    {
        if text::same_str(list[i].as_str(), class) {
            assert(lv[i as int] == class@);
            return true;
        }
        i = i + 1;
    }
    false
}

fn drop_class(list: &Vec<String>, class: &str) -> (r: Vec<String>)
    ensures
        text::texts(r@) == class_removed(text::texts(list@), class@),
{
    let ghost lv = text::texts(list@);
    let mut rest: Vec<String> = Vec::new();
    let mut i: usize = 0;
    assert(text::texts(rest@) =~= without_class(lv, class@, 0));
    while i < list.len()
        invariant
            i <= list@.len(),
            lv == text::texts(list@),
            text::texts(rest@) == without_class(lv, class@, i as int),
        decreases list@.len() - i,
    {
        if !text::same_str(list[i].as_str(), class) {
            let item = list[i].clone();
            proof {
                text::lemma_texts_push(rest@, item);
            }
            rest.push(item);
        }
        i = i + 1;
    }
    rest
}

/// `classList.add` on a `class` attribute: the attribute after it.
pub fn class_add(attribute: &str, class: &str) -> (r: String)
    ensures
        r@ == class_text(class_added(classes_of(attribute@), class@)),
{
    let mut list = read_classes(attribute);
    if !list_contains(&list, class) {
        let item = class.to_owned();
        proof {
            text::lemma_texts_push(list@, item);
        }
        list.push(item);
    }
    text::join(list.as_slice(), " ")
}

/// `classList.remove` on a `class` attribute: the attribute after it.
pub fn class_remove(attribute: &str, class: &str) -> (r: String)
    ensures
        r@ == class_text(class_removed(classes_of(attribute@), class@)),
{
    let list = read_classes(attribute);
    let rest = drop_class(&list, class);
    text::join(rest.as_slice(), " ")
}

/// `classList.toggle` on a `class` attribute: the attribute after it, and
/// whether the class is on it.
pub fn class_toggle(attribute: &str, class: &str) -> (r: (String, bool))
    ensures
        r.0@ == class_text(class_toggled(classes_of(attribute@), class@)),
        r.1 == !classes_of(attribute@).contains(class@),
{
    let mut list = read_classes(attribute);
    if list_contains(&list, class) {
        let rest = drop_class(&list, class);
        (text::join(rest.as_slice(), " "), false)
    } else {
        let item = class.to_owned();
        proof {
            text::lemma_texts_push(list@, item);
        }
        list.push(item);
        (text::join(list.as_slice(), " "), true)
    }
}

/// `classList.contains` on a `class` attribute.
pub fn class_contains(attribute: &str, class: &str) -> (r: bool)
    ensures
        r == classes_of(attribute@).contains(class@),
{
    let list = read_classes(attribute);
    list_contains(&list, class)
}

// ---------------------------------------------------------------------------
// Names
// ---------------------------------------------------------------------------
pub open spec fn is_upper(c: char) -> bool {
    'A' <= c <= 'Z'
}

/// camelCase to kebab-case (backgroundColor -> background-color).
pub open spec fn kebab_case(name: Seq<char>) -> Seq<char>
    decreases name.len(),
{
    if name.len() == 0 {
        seq![]
    } else {
        let before = kebab_case(name.drop_last());
        if is_upper(name.last()) {
            before + seq!['-', text::lower(name.last())]
        } else {
            before.push(name.last())
        }
    }
}

/// camelCase to kebab-case (backgroundColor -> background-color).
pub fn kebab(name: &str) -> (r: String)
    ensures
        r@ == kebab_case(name@),
{
    let chars = text::chars_of(name);
    let mut output = String::new();
    let mut i: usize = 0;
    assert(output@ =~= kebab_case(chars@.take(0)));
    while i < chars.len()
        invariant
            i <= chars@.len(),
            output@ == kebab_case(chars@.take(i as int)),
        decreases chars@.len() - i,
    {
        let c = chars[i];
        let ghost before = output@;
        if 'A' <= c && c <= 'Z' {
            output.push('-');
            output.push(text::to_lower(c));
        } else {
            output.push(c);
        }
        i = i + 1;
        proof {
            let t = chars@.take(i as int);
            assert(t.drop_last() =~= chars@.take(i - 1));
            assert(t.last() == c);
            if is_upper(c) {
                assert(output@ =~= before + seq!['-', text::lower(c)]);
            }
        }
    }
    assert(chars@.take(chars@.len() as int) =~= chars@);
    output
}

/// The attribute behind a `dataset` name.
pub open spec fn dataset_name(key: Seq<char>) -> Seq<char> {
    "data-"@ + kebab_case(key)
}

/// The attribute behind a `dataset` name.
pub fn dataset_attribute(key: &str) -> (r: String)
    ensures
        r@ == dataset_name(key@),
{
    let name = kebab(key);
    text::concat("data-", name.as_str())
}

// ---------------------------------------------------------------------------
// Inline styles
// ---------------------------------------------------------------------------
pub type Pairs = Seq<(Seq<char>, Seq<char>)>;

/// The declarations among the first `n` pieces of a `style` attribute.
pub open spec fn declared(pieces: Seq<Seq<char>>, n: int) -> Pairs
    decreases n,
{
    if n <= 0 {
        seq![]
    } else {
        match text::halves(pieces[n - 1], ':') {
            Some((name, value)) => declared(pieces, n - 1).push(
                (text::trimmed(name), text::trimmed(value)),
            ),
            None => declared(pieces, n - 1),
        }
    }
}

/// The declarations of a `style` attribute.
pub open spec fn style_pairs(attribute: Seq<char>) -> Pairs {
    let pieces = text::split_all(attribute, ';');
    declared(pieces, pieces.len() as int)
}

/// The value of the last of the first `n` pairs with a name.
pub open spec fn last_named(pairs: Pairs, name: Seq<char>, n: int) -> Option<Seq<char>>
    decreases n,
{
    if n <= 0 {
        None
    } else if pairs[n - 1].0 == name {
        Some(pairs[n - 1].1)
    } else {
        last_named(pairs, name, n - 1)
    }
}

/// The first `n` pairs without those with a name.
pub open spec fn without_name(pairs: Pairs, name: Seq<char>, n: int) -> Pairs
    decreases n,
{
    if n <= 0 {
        seq![]
    } else if pairs[n - 1].0 == name {
        without_name(pairs, name, n - 1)
    } else {
        without_name(pairs, name, n - 1).push(pairs[n - 1])
    }
}

pub open spec fn pair_texts(pairs: Pairs) -> Seq<Seq<char>> {
    Seq::new(pairs.len(), |i: int| pairs[i].0 + ": "@ + pairs[i].1)
}

/// `style.<key>` of a `style` attribute.
pub open spec fn style_value(attribute: Seq<char>, key: Seq<char>) -> Seq<char> {
    if key == "cssText"@ {
        attribute
    } else {
        let pairs = style_pairs(attribute);
        match last_named(pairs, kebab_case(key), pairs.len() as int) {
            Some(v) => v,
            None => Seq::empty(),
        }
    }
}

/// The declarations after `style.<key> = value`: the property moves to the
/// end, or goes where the value is empty.
pub open spec fn restyled(pairs: Pairs, property: Seq<char>, value: Seq<char>) -> Pairs {
    let rest = without_name(pairs, property, pairs.len() as int);
    if value.len() == 0 {
        rest
    } else {
        rest.push((property, value))
    }
}

/// The `style` attribute after `style.<key> = value`.
pub open spec fn style_after(attribute: Seq<char>, key: Seq<char>, value: Seq<char>) -> Seq<char> {
    if key == "cssText"@ {
        value
    } else {
        text::joined(
            pair_texts(restyled(style_pairs(attribute), kebab_case(key), value)),
            "; "@,
        )
    }
}

/// The declarations of a `style` attribute.
pub fn style_decls(attribute: &str) -> (r: Vec<(String, String)>)
    ensures
        document::pair_models(r@) == style_pairs(attribute@),
{
    let chars = text::chars_of(attribute);
    let pieces = text::split(chars.as_slice(), ';');
    let ghost pv = text::views(pieces@);
    let mut list: Vec<(String, String)> = Vec::new();
    let mut i: usize = 0;
    assert(document::pair_models(list@) =~= declared(pv, 0));
    while i < pieces.len()
        invariant
            i <= pieces@.len(),
            pv == text::views(pieces@),
            document::pair_models(list@) == declared(pv, i as int),
        decreases pieces@.len() - i,
    {
        let ghost before = document::pair_models(list@);
        assert(pv[i as int] == pieces@[i as int]@);
        if let Some((name, value)) = text::split_once(pieces[i], ':') {
            let name = text::text_of(text::trim(name));
            let value = text::text_of(text::trim(value));
            list.push((name, value));
            assert(document::pair_models(list@) =~= before.push((name@, value@)));
        }
        i = i + 1;
    }
    assert(pv.len() == pieces@.len());
    list
}

/// `style.<key>`: the last declaration of the property, or nothing.
pub fn style_get(attribute: &str, key: &str) -> (r: String)
    ensures
        r@ == style_value(attribute@, key@),
{
    if text::same_str(key, "cssText") {
        return attribute.to_owned();
    }
    let property = kebab(key);
    let pairs = style_decls(attribute);
    let ghost pv = document::pair_models(pairs@);
    let mut i: usize = pairs.len();
    while i > 0
        invariant
            i <= pairs@.len(),
            pv == document::pair_models(pairs@),
            pv == style_pairs(attribute@),
            property@ == kebab_case(key@),
            key@ != "cssText"@,
            last_named(pv, property@, i as int) == last_named(pv, property@, pv.len() as int),
        decreases i,
    {
        assert(pv[i - 1] == (pairs@[i - 1].0@, pairs@[i - 1].1@));
        if text::same_str(pairs[i - 1].0.as_str(), property.as_str()) {
            return pairs[i - 1].1.clone();
        }
        i = i - 1;
    }
    let r = String::new();
    assert(r@ =~= Seq::<char>::empty());
    r
}

/// `style.<key> = value`: the `style` attribute after it.
pub fn style_set(attribute: &str, key: &str, value: &str) -> (r: String)
    ensures
        r@ == style_after(attribute@, key@, value@),
{
    if text::same_str(key, "cssText") {
        return value.to_owned();
    }
    let property = kebab(key);
    let pairs = style_decls(attribute);
    let ghost pv = document::pair_models(pairs@);
    let ghost mut kept: Pairs = Seq::empty();
    let mut texts: Vec<String> = Vec::new();
    let mut i: usize = 0;
    assert(text::texts(texts@) =~= pair_texts(kept));
    while i < pairs.len()
        invariant
            i <= pairs@.len(),
            pv == document::pair_models(pairs@),
            kept == without_name(pv, property@, i as int),
            text::texts(texts@) == pair_texts(kept),
        decreases pairs@.len() - i,
    {
        assert(pv[i as int] == (pairs@[i as int].0@, pairs@[i as int].1@));
        if !text::same_str(pairs[i].0.as_str(), property.as_str()) {
            let item = pair_text(pairs[i].0.as_str(), pairs[i].1.as_str());
            proof {
                text::lemma_texts_push(texts@, item);
                assert(pair_texts(kept.push(pv[i as int])) =~= pair_texts(kept).push(item@));
                kept = kept.push(pv[i as int]);
            }
            texts.push(item);
        }
        i = i + 1;
    }
    if !value.is_empty() {
        let item = pair_text(property.as_str(), value);
        proof {
            text::lemma_texts_push(texts@, item);
            assert(pair_texts(kept.push((property@, value@))) =~= pair_texts(kept).push(item@));
        }
        texts.push(item);
    }
    text::join(texts.as_slice(), "; ")
}

fn pair_text(name: &str, value: &str) -> (r: String)
    ensures
        r@ == name@ + ": "@ + value@,
{
    let mut r = text::concat(name, ": ");
    text::push_text(&mut r, value);
    r
}

/// The attribute that `setAttribute(name, value)` writes and its new value:
/// `style.<property>` appends a declaration, which wins within the attribute.
pub open spec fn attribute_write(name: Seq<char>, value: Seq<char>, style: Seq<char>) -> (
    Seq<char>,
    Seq<char>,
) {
    match text::after_prefix(name, "style."@) {
        Some(property) => ("style"@, style + "; "@ + property + ": "@ + value),
        None => (name, value),
    }
}

/// The attribute that `setAttribute(name, value)` writes and its new value,
/// on an element with this `style` attribute.
pub fn set_attribute(name: &str, value: &str, style: &str) -> (r: (String, String))
    ensures
        (r.0@, r.1@) == attribute_write(name@, value@, style@),
{
    let chars = text::chars_of(name);
    match text::strip_prefix(chars.as_slice(), "style.") {
        Some(property) => {
            let mut merged = text::concat(style, "; ");
            text::push_chars(&mut merged, property);
            text::push_text(&mut merged, ": ");
            text::push_text(&mut merged, value);
            ("style".to_owned(), merged)
        },
        None => (name.to_owned(), value.to_owned()),
    }
}

// ---------------------------------------------------------------------------
// Laws
// ---------------------------------------------------------------------------
proof fn lemma_without_class(list: Seq<Seq<char>>, class: Seq<char>, n: int, other: Seq<char>)
    requires
        0 <= n <= list.len(),
    ensures
        without_class(list, class, n).contains(other) == (other != class && list.take(n).contains(
            other,
        )),
    decreases n,
{
    let after = without_class(list, class, n);
    if n > 0 {
        lemma_without_class(list, class, n - 1, other);
        let before = without_class(list, class, n - 1);
        let front = list.take(n - 1);
        let whole = list.take(n);
        if before.contains(other) {
            let j = choose|j: int| 0 <= j < before.len() && before[j] == other;
            assert(after[j] == other);
        }
        if front.contains(other) {
            let j = choose|j: int| 0 <= j < front.len() && front[j] == other;
            assert(whole[j] == other);
        }
        assert(whole[n - 1] == list[n - 1]);
        if list[n - 1] == other && other != class {
            assert(after[after.len() - 1] == other);
        }
        if whole.contains(other) && list[n - 1] != other {
            let j = choose|j: int| 0 <= j < whole.len() && whole[j] == other;
            assert(front[j] == other);
        }
        if after.contains(other) && !before.contains(other) {
            let j = choose|j: int| 0 <= j < after.len() && after[j] == other;
            if j < before.len() {
                assert(before[j] == other);
            }
        }
    } else {
        assert(!after.contains(other));
        assert(!list.take(n).contains(other));
    }
}

/// A class is on the list after it was added, off it after it was removed,
/// and on it after a toggle exactly where it was off before; the other classes
/// stay as they were.
pub proof fn law_class_lists_do_what_they_say(
    list: Seq<Seq<char>>,
    class: Seq<char>,
    other: Seq<char>,
)
    ensures
        class_added(list, class).contains(class),
        !class_removed(list, class).contains(class),
        class_toggled(list, class).contains(class) == !list.contains(class),
        other != class ==> class_added(list, class).contains(other) == list.contains(other),
        other != class ==> class_removed(list, class).contains(other) == list.contains(other),
        other != class ==> class_toggled(list, class).contains(other) == list.contains(other),
{
    let n = list.len() as int;
    assert(list.take(n) =~= list);
    lemma_without_class(list, class, n, class);
    lemma_without_class(list, class, n, other);
    let pushed = list.push(class);
    assert(pushed[n] == class);
    if other != class {
        if list.contains(other) {
            let j = choose|j: int| 0 <= j < list.len() && list[j] == other;
            assert(pushed[j] == other);
        }
        if pushed.contains(other) {
            let j = choose|j: int| 0 <= j < pushed.len() && pushed[j] == other;
            assert(list[j] == other);
        }
    }
}

/// A class as scripts name it: not empty and without white space.
pub open spec fn is_class(s: Seq<char>) -> bool {
    s.len() > 0 && forall|i: int| 0 <= i < s.len() ==> !text::is_space(#[trigger] s[i])
}

proof fn lemma_find_space(s: Seq<char>, i: int)
    requires
        0 <= i <= s.len(),
    ensures
        i <= text::find_space(s, i) <= s.len(),
        forall|k: int| i <= k < text::find_space(s, i) ==> !text::is_space(#[trigger] s[k]),
        text::find_space(s, i) < s.len() ==> text::is_space(s[text::find_space(s, i)]),
    decreases s.len() - i,
{
    if i < s.len() && !text::is_space(s[i]) {
        lemma_find_space(s, i + 1);
    }
}

proof fn lemma_find_space_at(s: Seq<char>, i: int, j: int)
    requires
        0 <= i <= j <= s.len(),
        forall|k: int| i <= k < j ==> !text::is_space(#[trigger] s[k]),
        j < s.len() ==> text::is_space(s[j]),
    ensures
        text::find_space(s, i) == j,
    decreases j - i,
{
    if i < j {
        lemma_find_space_at(s, i + 1, j);
    }
}

/// A word behind a text and a space is one word more.
proof fn lemma_words_push(s: Seq<char>, w: Seq<char>, i: int)
    requires
        is_class(w),
        0 <= i <= s.len(),
    ensures
        text::words_from(s + seq![' '] + w, i) == text::words_from(s, i).push(w),
    decreases s.len() - i,
{
    let t = s + seq![' '] + w;
    let n = s.len() as int;
    assert(t.len() == n + 1 + w.len());
    assert(t[n] == ' ');
    assert forall|k: int| 0 <= k < n implies t[k] == s[k] by {}
    assert forall|k: int| n + 1 <= k < t.len() implies !text::is_space(#[trigger] t[k]) by {
        assert(t[k] == w[k - n - 1]);
    }
    if i == n {
        assert(text::words_from(t, i) == text::words_from(t, i + 1));
        assert(!text::is_space(t[n + 1]));
        lemma_find_space_at(t, n + 2, t.len() as int);
        assert(t.subrange(n + 1, t.len() as int) =~= w);
        assert(text::words_from(t, t.len() as int) =~= Seq::<Seq<char>>::empty());
        assert(text::words_from(t, n + 1) =~= seq![w]);
        assert(text::words_from(s, i).push(w) =~= seq![w]);
    } else if text::is_space(s[i]) {
        lemma_words_push(s, w, i + 1);
        assert(t[i] == s[i]);
    } else {
        lemma_find_space(s, i + 1);
        let j = text::find_space(s, i + 1);
        assert forall|k: int| i + 1 <= k < j implies !text::is_space(#[trigger] t[k]) by {
            assert(t[k] == s[k]);
        }
        assert(t[j] == (if j < n {
            s[j]
        } else {
            ' '
        }));
        lemma_find_space_at(t, i + 1, j);
        lemma_words_push(s, w, j);
        assert(t[i] == s[i]);
        assert(t.subrange(i, j) =~= s.subrange(i, j));
        assert(text::words_from(t, i) =~= text::words_from(s, i).push(w));
    }
}

/// A class list reads back from its attribute text.
pub proof fn law_class_lists_read_back(list: Seq<Seq<char>>)
    requires
        forall|i: int| 0 <= i < list.len() ==> is_class(#[trigger] list[i]),
    ensures
        classes_of(class_text(list)) == list,
    decreases list.len(),
{
    reveal_strlit(" ");
    assert(" "@ =~= seq![' ']);
    if list.len() == 0 {
        assert(classes_of(class_text(list)) =~= list);
    } else if list.len() == 1 {
        let w = list[0];
        assert(!text::is_space(w[0]));
        lemma_find_space_at(w, 1, w.len() as int);
        assert(w.subrange(0, w.len() as int) =~= w);
        assert(text::words_from(w, w.len() as int) =~= Seq::<Seq<char>>::empty());
        assert(classes_of(class_text(list)) =~= list);
    } else {
        let front = list.drop_last();
        assert forall|i: int| 0 <= i < front.len() implies is_class(#[trigger] front[i]) by {
            assert(front[i] == list[i]);
        }
        law_class_lists_read_back(front);
        lemma_words_push(class_text(front), list.last(), 0);
        assert(front.push(list.last()) =~= list);
    }
}

proof fn lemma_words_are_classes(s: Seq<char>, i: int, k: int)
    requires
        0 <= i <= s.len(),
        0 <= k < text::words_from(s, i).len(),
    ensures
        is_class(text::words_from(s, i)[k]),
    decreases s.len() - i,
{
    if i < s.len() {
        if text::is_space(s[i]) {
            lemma_words_are_classes(s, i + 1, k);
        } else {
            lemma_find_space(s, i + 1);
            let j = text::find_space(s, i + 1);
            let w = s.subrange(i, j);
            assert forall|m: int| 0 <= m < w.len() implies !text::is_space(#[trigger] w[m]) by {
                assert(w[m] == s[i + m]);
            }
            if k > 0 {
                lemma_words_are_classes(s, j, k - 1);
            }
        }
    }
}

/// `classList.contains` answers what the last `add`, `remove` or `toggle`
/// wrote into the attribute.
pub proof fn law_class_writes_read_back(attribute: Seq<char>, class: Seq<char>)
    requires
        is_class(class),
    ensures
        classes_of(class_text(class_added(classes_of(attribute), class))).contains(class),
        !classes_of(class_text(class_removed(classes_of(attribute), class))).contains(class),
        classes_of(class_text(class_toggled(classes_of(attribute), class))).contains(class)
            == !classes_of(attribute).contains(class),
{
    let list = classes_of(attribute);
    law_class_lists_do_what_they_say(list, class, class);
    assert forall|i: int| 0 <= i < list.len() implies is_class(#[trigger] list[i]) by {
        lemma_words_are_classes(attribute, 0, i);
    }
    let pushed = list.push(class);
    assert forall|i: int| 0 <= i < pushed.len() implies is_class(#[trigger] pushed[i]) by {
        if i < list.len() {
            assert(pushed[i] == list[i]);
        }
    }
    let rest = class_removed(list, class);
    assert forall|i: int| 0 <= i < rest.len() implies is_class(#[trigger] rest[i]) by {
        assert(rest.contains(rest[i]));
        lemma_without_class(list, class, list.len() as int, rest[i]);
        assert(list.take(list.len() as int) =~= list);
        let k = choose|k: int| 0 <= k < list.len() && list[k] == rest[i];
        assert(is_class(list[k]));
    }
    law_class_lists_read_back(list);
    law_class_lists_read_back(pushed);
    law_class_lists_read_back(rest);
}

proof fn lemma_without_name(pairs: Pairs, name: Seq<char>, n: int, other: Seq<char>)
    requires
        0 <= n <= pairs.len(),
    ensures
        last_named(
            without_name(pairs, name, n),
            other,
            without_name(pairs, name, n).len() as int,
        ) == (if other == name {
            None
        } else {
            last_named(pairs, other, n)
        }),
    decreases n,
{
    if n > 0 {
        lemma_without_name(pairs, name, n - 1, other);
        let before = without_name(pairs, name, n - 1);
        let after = without_name(pairs, name, n);
        if pairs[n - 1].0 != name {
            lemma_last_named_prefix(before, after, other, before.len() as int);
        }
    }
}

proof fn lemma_last_named_prefix(a: Pairs, b: Pairs, name: Seq<char>, n: int)
    requires
        0 <= n <= a.len(),
        n <= b.len(),
        forall|i: int| 0 <= i < n ==> a[i] == b[i],
    ensures
        last_named(a, name, n) == last_named(b, name, n),
    decreases n,
{
    if n > 0 {
        lemma_last_named_prefix(a, b, name, n - 1);
    }
}

/// After a style property is set, it has the new value — or none where that
/// is empty — and the other properties keep theirs.
pub proof fn law_style_writes_replace(
    pairs: Pairs,
    property: Seq<char>,
    value: Seq<char>,
    other: Seq<char>,
)
    ensures
        last_named(
            restyled(pairs, property, value),
            property,
            restyled(pairs, property, value).len() as int,
        ) == (if value.len() == 0 {
            None
        } else {
            Some(value)
        }),
        other != property ==> last_named(
            restyled(pairs, property, value),
            other,
            restyled(pairs, property, value).len() as int,
        ) == last_named(pairs, other, pairs.len() as int),
{
    let n = pairs.len() as int;
    let rest = without_name(pairs, property, n);
    lemma_without_name(pairs, property, n, property);
    lemma_without_name(pairs, property, n, other);
    let pushed = rest.push((property, value));
    lemma_last_named_prefix(rest, pushed, other, rest.len() as int);
}

/// Whether a text is without white space at its ends.
pub open spec fn is_trimmed(s: Seq<char>) -> bool {
    text::trimmed(s) == s
}

/// A declaration that stands in a `style` attribute as it is: the name holds
/// neither separator, the value does not end the declaration, and neither has
/// white space at its ends.
pub open spec fn is_clean(name: Seq<char>, value: Seq<char>) -> bool {
    &&& !name.contains(':') && !name.contains(';') && is_trimmed(name)
    &&& !value.contains(';') && is_trimmed(value)
}

proof fn lemma_skip_space_shift(x: Seq<char>, i: int)
    requires
        0 <= i <= x.len(),
    ensures
        text::skip_space(seq![' '] + x, i + 1) == text::skip_space(x, i) + 1,
    decreases x.len() - i,
{
    let t = seq![' '] + x;
    if i < x.len() {
        assert(t[i + 1] == x[i]);
        lemma_skip_space_shift(x, i + 1);
    }
}

proof fn lemma_trim_leading_space(x: Seq<char>)
    ensures
        text::trimmed(seq![' '] + x) == text::trimmed(x),
{
    let t = seq![' '] + x;
    assert(t[0] == ' ');
    lemma_skip_space_shift(x, 0);
    text::lemma_skip_space(x, 0);
    assert(text::skip_space(t, 0) == text::skip_space(t, 1));
    assert(text::trimmed_start(t) =~= text::trimmed_start(x));
}

proof fn lemma_skip_space_end(s: Seq<char>, i: int)
    requires
        0 <= i <= s.len(),
    ensures
        text::skip_space(s, i) < s.len() ==> !text::is_space(s[text::skip_space(s, i)]),
    decreases s.len() - i,
{
    if i < s.len() && text::is_space(s[i]) {
        lemma_skip_space_end(s, i + 1);
    }
}

proof fn lemma_trim_back_end(s: Seq<char>, i: int)
    requires
        0 <= i <= s.len(),
    ensures
        text::trim_back(s, i) > 0 ==> !text::is_space(s[text::trim_back(s, i) - 1]),
    decreases i,
{
    if i > 0 && text::is_space(s[i - 1]) {
        lemma_trim_back_end(s, i - 1);
    }
}

proof fn lemma_trimmed_is_trimmed(s: Seq<char>)
    ensures
        is_trimmed(text::trimmed(s)),
        forall|c: char| text::trimmed(s).contains(c) ==> s.contains(c),
{
    let a = text::trimmed_start(s);
    text::lemma_skip_space(s, 0);
    lemma_skip_space_end(s, 0);
    let k = text::skip_space(s, 0);
    let n = text::trim_back(a, a.len() as int);
    text::lemma_trim_back(a, a.len() as int);
    lemma_trim_back_end(a, a.len() as int);
    let t = text::trimmed(s);
    assert(t == a.take(n));
    if n > 0 {
        assert(t[0] == s[k]);
        assert(!text::is_space(s[k]));
        assert(text::skip_space(t, 0) == 0);
        assert(text::trimmed_start(t) =~= t);
        assert(t[n - 1] == a[n - 1]);
        assert(text::trim_back(t, n) == n);
        assert(text::trimmed_end(t) =~= t);
    } else {
        assert(t =~= Seq::<char>::empty());
        assert(text::trimmed_start(t) =~= t);
        assert(text::trimmed(t) =~= t);
    }
    assert forall|c: char| t.contains(c) implies s.contains(c) by {
        let j = choose|j: int| 0 <= j < t.len() && t[j] == c;
        assert(s[k + j] == c);
    }
}

proof fn lemma_pieces_push(s: Seq<char>, b: Seq<char>, c: char, start: int, i: int)
    requires
        0 <= start <= i <= s.len(),
        !b.contains(c),
    ensures
        text::pieces(s + seq![c] + b, c, start, i) == text::pieces(s, c, start, i).push(b),
    decreases s.len() - i,
{
    let t = s + seq![c] + b;
    let n = s.len() as int;
    if i == n {
        assert(t[n] == c);
        assert(t.subrange(start, n) =~= s.subrange(start, n));
        lemma_pieces_last(t, c, n + 1, n + 1);
        assert(t.subrange(n + 1, t.len() as int) =~= b);
        assert(text::pieces(t, c, start, i) =~= text::pieces(s, c, start, i).push(b));
    } else if s[i] == c {
        assert(t[i] == c);
        lemma_pieces_push(s, b, c, i + 1, i + 1);
        assert(t.subrange(start, i) =~= s.subrange(start, i));
        assert(text::pieces(t, c, start, i) =~= text::pieces(s, c, start, i).push(b));
    } else {
        assert(t[i] == s[i]);
        lemma_pieces_push(s, b, c, start, i + 1);
    }
}

proof fn lemma_pieces_last(t: Seq<char>, c: char, start: int, i: int)
    requires
        0 <= start <= i <= t.len(),
        forall|k: int| i <= k < t.len() ==> #[trigger] t[k] != c,
    ensures
        text::pieces(t, c, start, i) == seq![t.subrange(start, t.len() as int)],
    decreases t.len() - i,
{
    if i < t.len() {
        lemma_pieces_last(t, c, start, i + 1);
    }
}

proof fn lemma_pieces_free(s: Seq<char>, c: char, start: int, i: int, k: int)
    requires
        0 <= start <= i <= s.len(),
        forall|m: int| start <= m < i ==> #[trigger] s[m] != c,
        0 <= k < text::pieces(s, c, start, i).len(),
    ensures
        !text::pieces(s, c, start, i)[k].contains(c),
    decreases s.len() - i,
{
    let piece = text::pieces(s, c, start, i)[k];
    if i == s.len() || s[i] == c {
        if k == 0 {
            let own = s.subrange(start, i);
            assert(piece == own);
            if own.contains(c) {
                let j = choose|j: int| 0 <= j < own.len() && own[j] == c;
                assert(s[start + j] == c);
            }
        } else {
            lemma_pieces_free(s, c, i + 1, i + 1, k - 1);
        }
    } else {
        lemma_pieces_free(s, c, start, i + 1, k);
    }
}

proof fn lemma_find_char_at(t: Seq<char>, c: char, i: int, at: int)
    requires
        0 <= i <= at < t.len(),
        t[at] == c,
        forall|k: int| i <= k < at ==> #[trigger] t[k] != c,
    ensures
        text::find_char(t, c, i) == at,
    decreases at - i,
{
    if i < at {
        lemma_find_char_at(t, c, i + 1, at);
    }
}

/// One declaration text reads back, with or without a space before it.
proof fn lemma_pair_reads_back(name: Seq<char>, value: Seq<char>, lead: bool)
    requires
        is_clean(name, value),
    ensures
        ({
            let own = name + ": "@ + value;
            let t = if lead {
                seq![' '] + own
            } else {
                own
            };
            &&& text::halves(t, ':') matches Some((a, b)) && text::trimmed(a) == name
                && text::trimmed(b) == value
            &&& !t.contains(';')
        }),
{
    reveal_strlit(": ");
    let own = name + ": "@ + value;
    let t = if lead {
        seq![' '] + own
    } else {
        own
    };
    let shift: int = if lead {
        1
    } else {
        0
    };
    let at = shift + name.len();
    assert(own[name.len() as int] == ':');
    assert(t[at] == ':');
    assert forall|k: int| 0 <= k < at implies #[trigger] t[k] != ':' by {
        if k >= shift {
            assert(t[k] == name[k - shift]);
            assert(name.contains(name[k - shift]));
        }
    }
    lemma_find_char_at(t, ':', 0, at);
    let a = t.take(at);
    let b = t.skip(at + 1);
    assert(a =~= if lead {
        seq![' '] + name
    } else {
        name
    });
    assert(b =~= seq![' '] + value);
    lemma_trim_leading_space(name);
    lemma_trim_leading_space(value);
    if t.contains(';') {
        let j = choose|j: int| 0 <= j < t.len() && t[j] == ';';
        let m = j - shift;
        if m >= 0 {
            assert(own[m] == ';');
            if m < name.len() {
                assert(name[m] == ';');
                assert(name.contains(';'));
            } else if m >= name.len() + 2 {
                assert(value[m - name.len() - 2] == ';');
                assert(value.contains(';'));
            }
        }
    }
}

proof fn lemma_declared_push(pieces: Seq<Seq<char>>, piece: Seq<char>, n: int)
    requires
        0 <= n <= pieces.len(),
    ensures
        declared(pieces.push(piece), n) == declared(pieces, n),
    decreases n,
{
    if n > 0 {
        lemma_declared_push(pieces, piece, n - 1);
        assert(pieces.push(piece)[n - 1] == pieces[n - 1]);
    }
}

/// Declarations read back from their attribute text.
pub proof fn law_styles_read_back(pairs: Pairs)
    requires
        forall|i: int| 0 <= i < pairs.len() ==> is_clean((#[trigger] pairs[i]).0, pairs[i].1),
    ensures
        style_pairs(text::joined(pair_texts(pairs), "; "@)) == pairs,
    decreases pairs.len(),
{
    let n = pairs.len() as int;
    let texts = pair_texts(pairs);
    if n == 0 {
        let s = text::joined(texts, "; "@);
        assert(s =~= Seq::<char>::empty());
        let pieces = text::split_all(s, ';');
        assert(pieces =~= seq![s.subrange(0, 0)]);
        assert(text::find_char(pieces[0], ':', 0) == 0);
        reveal_with_fuel(declared, 2);
        assert(style_pairs(s) =~= pairs);
    } else if n == 1 {
        let s = texts[0];
        lemma_pair_reads_back(pairs[0].0, pairs[0].1, false);
        assert forall|k: int| 0 <= k < s.len() implies #[trigger] s[k] != ';' by {
            assert(s.contains(s[k]));
        }
        lemma_pieces_last(s, ';', 0, 0);
        assert(s.subrange(0, s.len() as int) =~= s);
        reveal_with_fuel(declared, 2);
        assert(style_pairs(s) =~= pairs);
    } else {
        let front = pairs.drop_last();
        assert forall|i: int| 0 <= i < front.len() implies is_clean(
            (#[trigger] front[i]).0,
            front[i].1,
        ) by {
            assert(front[i] == pairs[i]);
        }
        law_styles_read_back(front);
        assert(texts.drop_last() =~= pair_texts(front));
        let a = text::joined(pair_texts(front), "; "@);
        let last = pairs[n - 1];
        let b = seq![' '] + texts[n - 1];
        lemma_pair_reads_back(last.0, last.1, true);
        reveal_strlit("; ");
        assert("; "@ =~= seq![';', ' ']);
        assert(a + "; "@ + texts.last() =~= a + seq![';'] + b);
        lemma_pieces_push(a, b, ';', 0, 0);
        let pieces = text::split_all(a, ';');
        lemma_declared_push(pieces, b, pieces.len() as int);
        assert(front.push(last) =~= pairs);
    }
}

proof fn lemma_declared_clean(pieces: Seq<Seq<char>>, n: int, i: int)
    requires
        0 <= n <= pieces.len(),
        forall|k: int| 0 <= k < pieces.len() ==> !(#[trigger] pieces[k]).contains(';'),
        0 <= i < declared(pieces, n).len(),
    ensures
        is_clean(declared(pieces, n)[i].0, declared(pieces, n)[i].1),
    decreases n,
{
    let before = declared(pieces, n - 1);
    if i < before.len() {
        lemma_declared_clean(pieces, n - 1, i);
    } else {
        let piece = pieces[n - 1];
        let at = text::find_char(piece, ':', 0);
        text::lemma_find_char(piece, ':', 0);
        let a = piece.take(at);
        let b = piece.skip(at + 1);
        lemma_trimmed_is_trimmed(a);
        lemma_trimmed_is_trimmed(b);
        assert forall|c: char| a.contains(c) implies piece.contains(c) && c != ':' by {
            let j = choose|j: int| 0 <= j < a.len() && a[j] == c;
            assert(piece[j] == c);
        }
        assert forall|c: char| b.contains(c) implies piece.contains(c) by {
            let j = choose|j: int| 0 <= j < b.len() && b[j] == c;
            assert(piece[at + 1 + j] == c);
        }
        assert(!a.contains(':') && !a.contains(';') && !b.contains(';'));
        assert(is_clean(text::trimmed(a), text::trimmed(b)));
    }
}

proof fn lemma_without_name_clean(pairs: Pairs, name: Seq<char>, n: int, i: int)
    requires
        0 <= n <= pairs.len(),
        forall|k: int| 0 <= k < pairs.len() ==> is_clean((#[trigger] pairs[k]).0, pairs[k].1),
        0 <= i < without_name(pairs, name, n).len(),
    ensures
        is_clean(without_name(pairs, name, n)[i].0, without_name(pairs, name, n)[i].1),
    decreases n,
{
    if i < without_name(pairs, name, n - 1).len() {
        lemma_without_name_clean(pairs, name, n - 1, i);
    } else {
        assert(is_clean(pairs[n - 1].0, pairs[n - 1].1));
    }
}

/// A style property reads back as the value that it was set to, and setting
/// it leaves the others as they were, for every property name and value that
/// can stand in a declaration.
pub proof fn law_style_properties_read_back(
    attribute: Seq<char>,
    key: Seq<char>,
    value: Seq<char>,
    other: Seq<char>,
)
    requires
        key != "cssText"@,
        other != "cssText"@,
        is_clean(kebab_case(key), value),
    ensures
        style_value(style_after(attribute, key, value), key) == value,
        kebab_case(other) != kebab_case(key) ==> style_value(
            style_after(attribute, key, value),
            other,
        ) == style_value(attribute, other),
{
    let pieces = text::split_all(attribute, ';');
    let pairs = style_pairs(attribute);
    let property = kebab_case(key);
    assert forall|k: int| 0 <= k < pieces.len() implies !(#[trigger] pieces[k]).contains(';') by {
        lemma_pieces_free(attribute, ';', 0, 0, k);
    }
    assert forall|k: int| 0 <= k < pairs.len() implies is_clean(
        (#[trigger] pairs[k]).0,
        pairs[k].1,
    ) by {
        lemma_declared_clean(pieces, pieces.len() as int, k);
    }
    let after = restyled(pairs, property, value);
    assert forall|k: int| 0 <= k < after.len() implies is_clean(
        (#[trigger] after[k]).0,
        after[k].1,
    ) by {
        let rest = without_name(pairs, property, pairs.len() as int);
        if k < rest.len() {
            lemma_without_name_clean(pairs, property, pairs.len() as int, k);
        }
    }
    law_styles_read_back(after);
    law_style_writes_replace(pairs, property, value, kebab_case(other));
    assert(value.len() == 0 ==> value =~= Seq::<char>::empty());
}

/// A capital in a name becomes a hyphen and its small letter; every other
/// character stays.
pub proof fn law_names_are_written_with_hyphens(name: Seq<char>, c: char)
    ensures
        kebab_case(Seq::empty()).len() == 0,
        'A' <= c <= 'Z' ==> {
            let next = kebab_case(name.push(c));
            &&& next.len() == kebab_case(name).len() + 2
            &&& next.take(kebab_case(name).len() as int) == kebab_case(name)
            &&& next[next.len() - 2] == '-'
            &&& next.last() as u32 == c as u32 + 32
        },
        !('A' <= c <= 'Z') ==> kebab_case(name.push(c)) == kebab_case(name).push(c),
{
    assert(name.push(c).drop_last() =~= name);
    if 'A' <= c <= 'Z' {
        let next = kebab_case(name.push(c));
        assert(next == kebab_case(name) + seq!['-', text::lower(c)]);
        assert(next.take(kebab_case(name).len() as int) =~= kebab_case(name));
    }
}

/// The whole style is read and written by `cssText`; a single property by its
/// name with hyphens.
pub proof fn law_css_text_is_the_whole_style(
    attribute: Seq<char>,
    key: Seq<char>,
    value: Seq<char>,
)
    ensures
        style_value(attribute, "cssText"@) == attribute,
        style_after(attribute, "cssText"@, value) == value,
        key != "cssText"@ ==> style_value(attribute, key) == match last_named(
            style_pairs(attribute),
            kebab_case(key),
            style_pairs(attribute).len() as int,
        ) {
            Some(v) => v,
            None => Seq::empty(),
        },
{
}

/// A property that is set comes last with its new value, and one that is set
/// to nothing goes; the other properties stay in their order.
pub proof fn law_styles_are_set_one_by_one(pairs: Pairs, property: Seq<char>, value: Seq<char>)
    ensures
        value.len() > 0 ==> restyled(pairs, property, value).len() > 0 && restyled(
            pairs,
            property,
            value,
        ).last() == (property, value),
        forall|i: int|
            0 <= i < restyled(pairs, property, Seq::empty()).len() ==> (#[trigger] restyled(
                pairs,
                property,
                Seq::empty(),
            )[i]).0 != property,
        (forall|i: int| 0 <= i < pairs.len() ==> (#[trigger] pairs[i]).0 != property) ==> restyled(
            pairs,
            property,
            Seq::empty(),
        ) == pairs,
{
    let n = pairs.len() as int;
    lemma_none_named(pairs, property, n);
    assert(pairs.take(n) =~= pairs);
}

proof fn lemma_none_named(pairs: Pairs, name: Seq<char>, n: int)
    requires
        0 <= n <= pairs.len(),
    ensures
        forall|i: int|
            0 <= i < without_name(pairs, name, n).len() ==> (#[trigger] without_name(
                pairs,
                name,
                n,
            )[i]).0 != name,
        (forall|i: int| 0 <= i < n ==> (#[trigger] pairs[i]).0 != name) ==> without_name(
            pairs,
            name,
            n,
        ) == pairs.take(n),
    decreases n,
{
    if n > 0 {
        lemma_none_named(pairs, name, n - 1);
        let before = without_name(pairs, name, n - 1);
        let after = without_name(pairs, name, n);
        assert forall|i: int| 0 <= i < after.len() implies (#[trigger] after[i]).0 != name by {
            if i < before.len() {
                assert(after[i] == before[i]);
            }
        }
        if forall|i: int| 0 <= i < n ==> (#[trigger] pairs[i]).0 != name {
            assert(pairs[n - 1].0 != name);
            assert(pairs.take(n) =~= pairs.take(n - 1).push(pairs[n - 1]));
        }
    } else {
        assert(pairs.take(0) =~= without_name(pairs, name, 0));
    }
}

/// Declarations are written with a colon and a space, and with a semicolon and
/// a space between each two.
pub proof fn law_styles_are_written_out(a: (Seq<char>, Seq<char>), b: (Seq<char>, Seq<char>))
    ensures
        text::joined(pair_texts(seq![a]), "; "@) == a.0 + seq![':', ' '] + a.1,
        text::joined(pair_texts(seq![a, b]), "; "@) == a.0 + seq![':', ' '] + a.1 + seq![';', ' ']
            + (b.0 + seq![':', ' '] + b.1),
{
    reveal_strlit(": ");
    reveal_strlit("; ");
    assert(": "@ =~= seq![':', ' ']);
    assert("; "@ =~= seq![';', ' ']);
    let x = a.0 + ": "@ + a.1;
    let y = b.0 + ": "@ + b.1;
    assert(pair_texts(seq![a]) =~= seq![x]);
    assert(pair_texts(seq![a, b]) =~= seq![x].push(y));
    text::law_joining(seq![x], y, "; "@);
    assert(text::joined(seq![x], "; "@) == x);
}

/// An attribute called `style.` and a property's name adds a declaration to
/// the style; any other attribute is written as it is.
pub proof fn law_dotted_styles_are_added(
    property: Seq<char>,
    name: Seq<char>,
    value: Seq<char>,
    style: Seq<char>,
)
    ensures
        attribute_write("style."@ + property, value, style) == (
            "style"@,
            style + seq![';', ' '] + property + seq![':', ' '] + value,
        ),
        !text::starts(name, "style."@) ==> attribute_write(name, value, style) == (name, value),
{
    reveal_strlit(": ");
    reveal_strlit("; ");
    assert(": "@ =~= seq![':', ' ']);
    assert("; "@ =~= seq![';', ' ']);
    text::law_prefixes(property, "style."@);
}

/// Adding a class puts it last, unless it is there; toggling removes one that
/// is there and adds one that is not.
pub proof fn law_classes_are_added_last(list: Seq<Seq<char>>, class: Seq<char>)
    ensures
        !list.contains(class) ==> class_added(list, class) == list.push(class) && class_toggled(
            list,
            class,
        ) == list.push(class),
        list.contains(class) ==> class_added(list, class) == list && class_toggled(list, class)
            == class_removed(list, class),
{
}

/// A `dataset` name stands for the attribute called `data-` and the name with
/// hyphens.
pub proof fn law_dataset_names(key: Seq<char>, c: char)
    ensures
        dataset_name(Seq::empty()) == seq!['d', 'a', 't', 'a', '-'],
        dataset_name(key).len() == kebab_case(key).len() + 5,
        dataset_name(key).skip(5) == kebab_case(key),
        dataset_name(key).take(5) == seq!['d', 'a', 't', 'a', '-'],
        'a' <= c <= 'z' ==> dataset_name(key.push(c)) == dataset_name(key).push(c),
{
    reveal_strlit("data-");
    assert("data-"@ =~= seq!['d', 'a', 't', 'a', '-']);
    assert(dataset_name(Seq::empty()) =~= "data-"@);
    assert(dataset_name(key).skip(5) =~= kebab_case(key));
    assert(dataset_name(key).take(5) =~= "data-"@);
    assert(key.push(c).drop_last() =~= key);
    if 'a' <= c <= 'z' {
        assert(dataset_name(key.push(c)) =~= dataset_name(key).push(c));
    }
}

} // verus!
