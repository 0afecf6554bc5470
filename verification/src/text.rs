//! Text as sequences of characters: the scanning, trimming and splitting
//! steps that the parsers are built from.
//!
//! Functions take `&[char]` so that a part of a text is a borrowed range of
//! it; `chars_of` and `text_of` are the two ends of that representation.
use vstd::prelude::*;
use vstd::slice::slice_subrange;

verus! {

/// `String::push` appends one character at the end.
pub assume_specification[ std::string::String::push ](s: &mut std::string::String, c: char)
    ensures
        final(s)@ == old(s)@.push(c),
;

/// The characters of `s`, in order.
pub fn chars_of(s: &str) -> (chars: Vec<char>)
    ensures
        chars@ == s@,
{
    let mut chars: Vec<char> = Vec::new();
    for c in it: s.chars()
        invariant
            it.seq() == s@,
            chars@ == s@.take(it.index() as int),
    {
        chars.push(c);
    }
    assert(s@.take(s@.len() as int) =~= s@);
    chars
}

/// The string made of `chars`.
pub fn text_of(chars: &[char]) -> (s: String)
    ensures
        s@ == chars@,
{
    let mut s = String::new();
    let mut i: usize = 0;
    while i < chars.len()
        invariant
            i <= chars@.len(),
            s@ == chars@.take(i as int),
        decreases chars@.len() - i,
    {
        s.push(chars[i]);
        i = i + 1;
        assert(chars@.take(i as int) =~= chars@.take(i - 1).push(chars@[i - 1]));
    }
    assert(chars@.take(chars@.len() as int) =~= chars@);
    s
}

/// The views of a sequence of character ranges.
pub open spec fn views(parts: Seq<&[char]>) -> Seq<Seq<char>> {
    Seq::new(parts.len(), |i: int| parts[i]@)
}

/// The views of a sequence of strings.
pub open spec fn texts(parts: Seq<String>) -> Seq<Seq<char>> {
    Seq::new(parts.len(), |i: int| parts[i]@)
}

pub proof fn lemma_views_push(parts: Seq<&[char]>, part: &[char])
    ensures
        views(parts.push(part)) == views(parts).push(part@),
{
    assert(views(parts.push(part)) =~= views(parts).push(part@));
}

pub proof fn lemma_texts_push(parts: Seq<String>, part: String)
    ensures
        texts(parts.push(part)) == texts(parts).push(part@),
{
    assert(texts(parts.push(part)) =~= texts(parts).push(part@));
}

// ---------------------------------------------------------------------------
// Characters
// ---------------------------------------------------------------------------
/// The characters with the Unicode `White_Space` property.
pub open spec fn is_space(c: char) -> bool {
    ||| '\u{9}' <= c <= '\u{d}'
    ||| c == ' '
    ||| c == '\u{85}'
    ||| c == '\u{a0}'
    ||| c == '\u{1680}'
    ||| '\u{2000}' <= c <= '\u{200a}'
    ||| c == '\u{2028}'
    ||| c == '\u{2029}'
    ||| c == '\u{202f}'
    ||| c == '\u{205f}'
    ||| c == '\u{3000}'
}

pub fn space(c: char) -> (r: bool)
    ensures
        r == is_space(c),
{
    ('\u{9}' <= c && c <= '\u{d}') || c == ' ' || c == '\u{85}' || c == '\u{a0}' || c == '\u{1680}'
        || ('\u{2000}' <= c && c <= '\u{200a}') || c == '\u{2028}' || c == '\u{2029}'
        || c == '\u{202f}' || c == '\u{205f}' || c == '\u{3000}'
}

pub open spec fn is_digit(c: char) -> bool {
    '0' <= c <= '9'
}

pub open spec fn is_ascii_alnum(c: char) -> bool {
    is_digit(c) || 'a' <= c <= 'z' || 'A' <= c <= 'Z'
}

pub fn digit(c: char) -> (r: bool)
    ensures
        r == is_digit(c),
{
    '0' <= c && c <= '9'
}

pub fn ascii_alnum(c: char) -> (r: bool)
    ensures
        r == is_ascii_alnum(c),
{
    digit(c) || ('a' <= c && c <= 'z') || ('A' <= c && c <= 'Z')
}

/// The ASCII lowercase form of one character.
pub open spec fn lower(c: char) -> char {
    if 'A' <= c <= 'Z' {
        (c as u8 + 32u8) as u8 as char
    } else {
        c
    }
}

pub fn to_lower(c: char) -> (r: char)
    ensures
        r == lower(c),
{
    if 'A' <= c && c <= 'Z' {
        (c as u8 + 32u8) as char
    } else {
        c
    }
}

/// The ASCII lowercase form of a text.
pub open spec fn lowered(s: Seq<char>) -> Seq<char> {
    Seq::new(s.len(), |i: int| lower(s[i]))
}

pub fn to_lowered(s: &[char]) -> (r: Vec<char>)
    ensures
        r@ == lowered(s@),
{
    let mut r: Vec<char> = Vec::new();
    let mut i: usize = 0;
    while i < s.len()
        invariant
            i <= s@.len(),
            r@ == lowered(s@).take(i as int),
        decreases s@.len() - i,
    {
        r.push(to_lower(s[i]));
        i = i + 1;
        assert(lowered(s@).take(i as int) =~= lowered(s@).take(i - 1).push(lower(s@[i - 1])));
    }
    assert(lowered(s@).take(s@.len() as int) =~= lowered(s@));
    r
}

// ---------------------------------------------------------------------------
// Comparison
// ---------------------------------------------------------------------------
/// Whether two texts are the same.
pub fn same(a: &[char], b: &[char]) -> (r: bool)
    ensures
        r == (a@ == b@),
{
    if a.len() != b.len() {
        return false;
    }
    let mut i: usize = 0;
    while i < a.len()
        invariant
            i <= a@.len() == b@.len(),
            a@.take(i as int) == b@.take(i as int),
        decreases a@.len() - i,
    {
        if a[i] != b[i] {
            assert(a@[i as int] != b@[i as int]);
            return false;
        }
        i = i + 1;
        assert(a@.take(i as int) =~= a@.take(i - 1).push(a@[i - 1]));
        assert(b@.take(i as int) =~= b@.take(i - 1).push(b@[i - 1]));
    }
    assert(a@.take(a@.len() as int) =~= a@);
    assert(b@.take(b@.len() as int) =~= b@);
    true
}

/// Whether a text is the word `word`.
pub fn is_word(a: &[char], word: &str) -> (r: bool)
    ensures
        r == (a@ == word@),
{
    let w = chars_of(word);
    same(a, w.as_slice())
}

/// Whether two strings hold the same text.
pub fn same_str(a: &str, b: &str) -> (r: bool)
    ensures
        r == (a@ == b@),
{
    let x = chars_of(a);
    is_word(x.as_slice(), b)
}

/// Whether two texts are the same up to ASCII case.
pub open spec fn eq_ci(a: Seq<char>, b: Seq<char>) -> bool {
    lowered(a) == lowered(b)
}

pub fn is_word_ci(a: &[char], word: &str) -> (r: bool)
    ensures
        r == eq_ci(a@, word@),
{
    let w = chars_of(word);
    let x = to_lowered(a);
    let y = to_lowered(w.as_slice());
    same(x.as_slice(), y.as_slice())
}

pub open spec fn starts(s: Seq<char>, prefix: Seq<char>) -> bool {
    prefix.len() <= s.len() && s.take(prefix.len() as int) == prefix
}

pub open spec fn ends(s: Seq<char>, suffix: Seq<char>) -> bool {
    suffix.len() <= s.len() && s.skip(s.len() - suffix.len()) == suffix
}

pub fn starts_with(s: &[char], prefix: &str) -> (r: bool)
    ensures
        r == starts(s@, prefix@),
{
    let p = chars_of(prefix);
    if p.len() > s.len() {
        return false;
    }
    same(slice_subrange(s, 0, p.len()), p.as_slice())
}

pub fn ends_with(s: &[char], suffix: &str) -> (r: bool)
    ensures
        r == ends(s@, suffix@),
{
    let p = chars_of(suffix);
    if p.len() > s.len() {
        return false;
    }
    same(slice_subrange(s, s.len() - p.len(), s.len()), p.as_slice())
}

/// What follows `prefix`, if the text starts with it.
pub open spec fn after_prefix(s: Seq<char>, prefix: Seq<char>) -> Option<Seq<char>> {
    if starts(s, prefix) {
        Some(s.skip(prefix.len() as int))
    } else {
        None
    }
}

/// What precedes `suffix`, if the text ends with it.
pub open spec fn before_suffix(s: Seq<char>, suffix: Seq<char>) -> Option<Seq<char>> {
    if ends(s, suffix) {
        Some(s.take(s.len() - suffix.len()))
    } else {
        None
    }
}

/// The view of an optional range.
pub open spec fn opt_view(part: Option<&[char]>) -> Option<Seq<char>> {
    match part {
        Some(p) => Some(p@),
        None => None,
    }
}

/// The view of an optional string.
pub open spec fn opt_text(part: Option<String>) -> Option<Seq<char>> {
    match part {
        Some(p) => Some(p@),
        None => None,
    }
}

pub fn strip_prefix<'a>(s: &'a [char], prefix: &str) -> (r: Option<&'a [char]>)
    ensures
        opt_view(r) == after_prefix(s@, prefix@),
{
    let p = chars_of(prefix);
    if starts_with(s, prefix) {
        Some(slice_subrange(s, p.len(), s.len()))
    } else {
        None
    }
}

pub fn strip_suffix<'a>(s: &'a [char], suffix: &str) -> (r: Option<&'a [char]>)
    ensures
        opt_view(r) == before_suffix(s@, suffix@),
{
    let p = chars_of(suffix);
    if ends_with(s, suffix) {
        Some(slice_subrange(s, 0, s.len() - p.len()))
    } else {
        None
    }
}

// ---------------------------------------------------------------------------
// Trimming
// ---------------------------------------------------------------------------
/// The first index at or after `i` that holds no white space.
pub open spec fn skip_space(s: Seq<char>, i: int) -> int
    decreases s.len() - i,
{
    if 0 <= i < s.len() && is_space(s[i]) {
        skip_space(s, i + 1)
    } else {
        i
    }
}

/// The end of the text without the white space that precedes `i`.
pub open spec fn trim_back(s: Seq<char>, i: int) -> int
    decreases i,
{
    if 0 < i <= s.len() && is_space(s[i - 1]) {
        trim_back(s, i - 1)
    } else {
        i
    }
}

pub open spec fn trimmed_start(s: Seq<char>) -> Seq<char> {
    s.skip(skip_space(s, 0))
}

pub open spec fn trimmed_end(s: Seq<char>) -> Seq<char> {
    s.take(trim_back(s, s.len() as int))
}

/// The text without leading and trailing white space.
pub open spec fn trimmed(s: Seq<char>) -> Seq<char> {
    trimmed_end(trimmed_start(s))
}

pub proof fn lemma_skip_space(s: Seq<char>, i: int)
    requires
        0 <= i <= s.len(),
    ensures
        i <= skip_space(s, i) <= s.len(),
        forall|j: int| i <= j < skip_space(s, i) ==> is_space(s[j]),
        skip_space(s, i) < s.len() ==> !is_space(s[skip_space(s, i)]),
    decreases s.len() - i,
{
    if i < s.len() && is_space(s[i]) {
        lemma_skip_space(s, i + 1);
    }
}

pub proof fn lemma_trim_back(s: Seq<char>, i: int)
    requires
        0 <= i <= s.len(),
    ensures
        0 <= trim_back(s, i) <= i,
        forall|j: int| trim_back(s, i) <= j < i ==> is_space(s[j]),
        trim_back(s, i) > 0 ==> !is_space(s[trim_back(s, i) - 1]),
    decreases i,
{
    if 0 < i && is_space(s[i - 1]) {
        lemma_trim_back(s, i - 1);
    }
}

pub fn trim_start(s: &[char]) -> (r: &[char])
    ensures
        r@ == trimmed_start(s@),
{
    let mut i: usize = 0;
    while i < s.len() && space(s[i])
        invariant
            i <= s@.len(),
            skip_space(s@, i as int) == skip_space(s@, 0),
        decreases s@.len() - i,
    {
        i = i + 1;
    }
    slice_subrange(s, i, s.len())
}

pub fn trim_end(s: &[char]) -> (r: &[char])
    ensures
        r@ == trimmed_end(s@),
{
    let mut i: usize = s.len();
    while i > 0 && space(s[i - 1])
        invariant
            i <= s@.len(),
            trim_back(s@, i as int) == trim_back(s@, s@.len() as int),
        decreases i,
    {
        i = i - 1;
    }
    slice_subrange(s, 0, i)
}

pub fn trim(s: &[char]) -> (r: &[char])
    ensures
        r@ == trimmed(s@),
{
    trim_end(trim_start(s))
}

/// The first index at or after `i` whose character is not a quote.
pub open spec fn skip_quotes(s: Seq<char>, i: int) -> int
    decreases s.len() - i,
{
    if 0 <= i < s.len() && (s[i] == '"' || s[i] == '\'') {
        skip_quotes(s, i + 1)
    } else {
        i
    }
}

pub open spec fn quotes_back(s: Seq<char>, i: int) -> int
    decreases i,
{
    if 0 < i <= s.len() && (s[i - 1] == '"' || s[i - 1] == '\'') {
        quotes_back(s, i - 1)
    } else {
        i
    }
}

/// The text without the quotes, single or double, at its two ends.
pub open spec fn unquoted(s: Seq<char>) -> Seq<char> {
    let rest = s.skip(skip_quotes(s, 0));
    rest.take(quotes_back(rest, rest.len() as int))
}

pub fn trim_quotes(s: &[char]) -> (r: &[char])
    ensures
        r@ == unquoted(s@),
{
    let mut i: usize = 0;
    while i < s.len() && (s[i] == '"' || s[i] == '\'')
        invariant
            i <= s@.len(),
            skip_quotes(s@, i as int) == skip_quotes(s@, 0),
        decreases s@.len() - i,
    {
        i = i + 1;
    }
    let rest = slice_subrange(s, i, s.len());
    let mut j: usize = rest.len();
    while j > 0 && (rest[j - 1] == '"' || rest[j - 1] == '\'')
        invariant
            j <= rest@.len(),
            quotes_back(rest@, j as int) == quotes_back(rest@, rest@.len() as int),
        decreases j,
    {
        j = j - 1;
    }
    slice_subrange(rest, 0, j)
}

// ---------------------------------------------------------------------------
// Searching
// ---------------------------------------------------------------------------
/// The first index at or after `i` that holds `c`; the length where none does.
pub open spec fn find_char(s: Seq<char>, c: char, i: int) -> int
    decreases s.len() - i,
{
    if i < 0 || i >= s.len() {
        s.len() as int
    } else if s[i] == c {
        i
    } else {
        find_char(s, c, i + 1)
    }
}

pub proof fn lemma_find_char(s: Seq<char>, c: char, i: int)
    requires
        0 <= i <= s.len(),
    ensures
        i <= find_char(s, c, i) <= s.len(),
        find_char(s, c, i) < s.len() ==> s[find_char(s, c, i)] == c,
        forall|j: int| i <= j < find_char(s, c, i) ==> s[j] != c,
    decreases s.len() - i,
{
    if i < s.len() && s[i] != c {
        lemma_find_char(s, c, i + 1);
    }
}

/// Where `c` first occurs.
pub fn position(s: &[char], c: char) -> (r: usize)
    ensures
        r == find_char(s@, c, 0),
        r <= s@.len(),
{
    let mut i: usize = 0;
    while i < s.len()
        invariant
            i <= s@.len(),
            find_char(s@, c, i as int) == find_char(s@, c, 0),
        decreases s@.len() - i,
    {
        if s[i] == c {
            return i;
        }
        i = i + 1;
    }
    i
}

pub open spec fn has_char(s: Seq<char>, c: char) -> bool {
    find_char(s, c, 0) < s.len()
}

/// The first index at or after `i` where `word` occurs; the length plus one
/// where it does not.
pub open spec fn find_word(s: Seq<char>, word: Seq<char>, i: int) -> int
    decreases s.len() + 1 - i,
{
    if i < 0 || i + word.len() > s.len() {
        s.len() as int + 1
    } else if s.subrange(i, i + word.len()) == word {
        i
    } else {
        find_word(s, word, i + 1)
    }
}

/// Where `word` first occurs, if it does.
pub open spec fn found_word(s: Seq<char>, word: Seq<char>) -> Option<int> {
    let i = find_word(s, word, 0);
    if i <= s.len() {
        Some(i)
    } else {
        None
    }
}

pub fn find(s: &[char], word: &str) -> (r: Option<usize>)
    ensures
        match r {
            Some(i) => found_word(s@, word@) == Some(i as int) && i + word@.len() <= s@.len()
                && s@.subrange(i as int, i + word@.len()) == word@,
            None => found_word(s@, word@) is None,
        },
{
    let w = chars_of(word);
    if w.len() > s.len() {
        return None;
    }
    let total: usize = s.len();
    let last: usize = total - w.len();
    let mut i: usize = 0;
    while i <= last
        invariant
            w@ == word@,
            total == s@.len(),
            last == total - w@.len(),
            i <= last + 1,
            find_word(s@, word@, i as int) == find_word(s@, word@, 0),
        decreases last + 1 - i,
    {
        if same(slice_subrange(s, i, i + w.len()), w.as_slice()) {
            return Some(i);
        }
        if i == last {
            assert(find_word(s@, word@, i + 1) == s@.len() + 1);
            return None;
        }
        i = i + 1;
    }
    None
}

// ---------------------------------------------------------------------------
// Splitting
// ---------------------------------------------------------------------------
/// The two sides of the first `c`, if it occurs.
pub open spec fn halves(s: Seq<char>, c: char) -> Option<(Seq<char>, Seq<char>)> {
    let i = find_char(s, c, 0);
    if i < s.len() {
        Some((s.take(i), s.skip(i + 1)))
    } else {
        None
    }
}

pub open spec fn pair_view(parts: Option<(&[char], &[char])>) -> Option<(Seq<char>, Seq<char>)> {
    match parts {
        Some((a, b)) => Some((a@, b@)),
        None => None,
    }
}

pub fn split_once(s: &[char], c: char) -> (r: Option<(&[char], &[char])>)
    ensures
        pair_view(r) == halves(s@, c),
{
    let i = position(s, c);
    if i < s.len() {
        Some((slice_subrange(s, 0, i), slice_subrange(s, i + 1, s.len())))
    } else {
        None
    }
}

/// The last index before `i` that holds `c`; `-1` where none does.
pub open spec fn find_char_back(s: Seq<char>, c: char, i: int) -> int
    decreases i,
{
    if i <= 0 || i > s.len() {
        -1
    } else if s[i - 1] == c {
        i - 1
    } else {
        find_char_back(s, c, i - 1)
    }
}

pub proof fn lemma_find_char_back(s: Seq<char>, c: char, i: int)
    requires
        0 <= i <= s.len(),
    ensures
        -1 <= find_char_back(s, c, i) < i || find_char_back(s, c, i) == -1,
        find_char_back(s, c, i) >= 0 ==> s[find_char_back(s, c, i)] == c,
        forall|j: int| find_char_back(s, c, i) < j < i ==> s[j] != c,
    decreases i,
{
    if 0 < i && s[i - 1] != c {
        lemma_find_char_back(s, c, i - 1);
    }
}

/// The two sides of the last `c`, if it occurs.
pub open spec fn halves_back(s: Seq<char>, c: char) -> Option<(Seq<char>, Seq<char>)> {
    let i = find_char_back(s, c, s.len() as int);
    if 0 <= i < s.len() {
        Some((s.take(i), s.skip(i + 1)))
    } else {
        None
    }
}

pub fn rsplit_once(s: &[char], c: char) -> (r: Option<(&[char], &[char])>)
    ensures
        pair_view(r) == halves_back(s@, c),
{
    let mut i: usize = s.len();
    while i > 0
        invariant
            i <= s@.len(),
            find_char_back(s@, c, i as int) == find_char_back(s@, c, s@.len() as int),
        decreases i,
    {
        if s[i - 1] == c {
            return Some((slice_subrange(s, 0, i - 1), slice_subrange(s, i, s.len())));
        }
        i = i - 1;
    }
    None
}

/// The pieces between the occurrences of `c`, where `start` is the start of
/// the current piece and `i` the next character to look at.
pub open spec fn pieces(s: Seq<char>, c: char, start: int, i: int) -> Seq<Seq<char>>
    decreases s.len() - i,
{
    if i < 0 || i >= s.len() {
        seq![s.subrange(start, s.len() as int)]
    } else if s[i] == c {
        seq![s.subrange(start, i)] + pieces(s, c, i + 1, i + 1)
    } else {
        pieces(s, c, start, i + 1)
    }
}

pub open spec fn split_all(s: Seq<char>, c: char) -> Seq<Seq<char>> {
    pieces(s, c, 0, 0)
}

pub fn split<'a>(s: &'a [char], c: char) -> (r: Vec<&'a [char]>)
    ensures
        views(r@) == split_all(s@, c),
{
    let mut parts: Vec<&'a [char]> = Vec::new();
    let mut start: usize = 0;
    let mut i: usize = 0;
    assert(views(parts@) + pieces(s@, c, 0, 0) =~= split_all(s@, c));
    while i < s.len()
        invariant
            start <= i <= s@.len(),
            views(parts@) + pieces(s@, c, start as int, i as int) == split_all(s@, c),
        decreases s@.len() - i,
    {
        if s[i] == c {
            let part = slice_subrange(s, start, i);
            let ghost before = parts@;
            parts.push(part);
            proof {
                lemma_views_push(before, part);
                assert(views(parts@) + pieces(s@, c, i + 1, i + 1) =~= views(before) + (seq![
                    part@,
                ] + pieces(s@, c, i + 1, i + 1)));
            }
            start = i + 1;
        }
        i = i + 1;
    }
    let part = slice_subrange(s, start, s.len());
    let ghost before = parts@;
    parts.push(part);
    proof {
        lemma_views_push(before, part);
        assert(views(parts@) =~= views(before) + seq![part@]);
    }
    parts
}

/// The nesting depth after reading `c`; a closing parenthesis at depth zero
/// leaves it at zero.
pub open spec fn depth_after(depth: nat, c: char) -> nat {
    if c == '(' {
        depth + 1
    } else if c == ')' && depth > 0 {
        (depth - 1) as nat
    } else {
        depth
    }
}

/// The pieces between the occurrences of `c` that stand outside parentheses.
pub open spec fn outer_pieces(
    s: Seq<char>,
    c: char,
    start: int,
    i: int,
    depth: nat,
) -> Seq<Seq<char>>
    decreases s.len() - i,
{
    if i < 0 || i >= s.len() {
        seq![s.subrange(start, s.len() as int)]
    } else if s[i] == c && depth == 0 && c != '(' && c != ')' {
        seq![s.subrange(start, i)] + outer_pieces(s, c, i + 1, i + 1, depth)
    } else {
        outer_pieces(s, c, start, i + 1, depth_after(depth, s[i]))
    }
}

pub open spec fn split_outer(s: Seq<char>, c: char) -> Seq<Seq<char>> {
    outer_pieces(s, c, 0, 0, 0)
}

pub proof fn lemma_outer_pieces_len(s: Seq<char>, c: char, start: int, i: int, depth: nat)
    requires
        0 <= start <= i <= s.len(),
    ensures
        forall|k: int|
            0 <= k < outer_pieces(s, c, start, i, depth).len() ==> (#[trigger] outer_pieces(
                s,
                c,
                start,
                i,
                depth,
            )[k]).len() <= s.len(),
    decreases s.len() - i,
{
    let parts = outer_pieces(s, c, start, i, depth);
    if i >= s.len() {
        assert(parts =~= seq![s.subrange(start, s.len() as int)]);
    } else if s[i] == c && depth == 0 && c != '(' && c != ')' {
        lemma_outer_pieces_len(s, c, i + 1, i + 1, depth);
        let rest = outer_pieces(s, c, i + 1, i + 1, depth);
        assert forall|k: int| 0 <= k < parts.len() implies (#[trigger] parts[k]).len()
            <= s.len() by {
            if k > 0 {
                assert(parts[k] == rest[k - 1]);
            }
        }
    } else {
        lemma_outer_pieces_len(s, c, start, i + 1, depth_after(depth, s[i]));
        let rest = outer_pieces(s, c, start, i + 1, depth_after(depth, s[i]));
        assert forall|k: int| 0 <= k < parts.len() implies (#[trigger] parts[k]).len()
            <= s.len() by {
            assert(parts[k] == rest[k]);
        }
    }
}

/// Splits on a separator that is not inside parentheses, so a nested
/// function keeps its own separators.
pub fn split_top_level<'a>(s: &'a [char], c: char) -> (r: Vec<&'a [char]>)
    ensures
        views(r@) == split_outer(s@, c),
{
    let mut parts: Vec<&'a [char]> = Vec::new();
    let mut start: usize = 0;
    let mut i: usize = 0;
    let mut depth: usize = 0;
    assert(views(parts@) + outer_pieces(s@, c, 0, 0, 0) =~= split_outer(s@, c));
    while i < s.len()
        invariant
            start <= i <= s@.len(),
            depth <= i,
            views(parts@) + outer_pieces(s@, c, start as int, i as int, depth as nat)
                == split_outer(s@, c),
        decreases s@.len() - i,
    {
        if s[i] == '(' {
            depth = depth + 1;
        } else if s[i] == ')' {
            if depth > 0 {
                depth = depth - 1;
            }
        } else if s[i] == c && depth == 0 {
            let part = slice_subrange(s, start, i);
            let ghost before = parts@;
            parts.push(part);
            proof {
                lemma_views_push(before, part);
                assert(views(parts@) + outer_pieces(s@, c, i + 1, i + 1, 0) =~= views(before) + (
                seq![part@] + outer_pieces(s@, c, i + 1, i + 1, 0)));
            }
            start = i + 1;
        }
        i = i + 1;
    }
    let part = slice_subrange(s, start, s.len());
    let ghost before = parts@;
    parts.push(part);
    proof {
        lemma_views_push(before, part);
        assert(views(parts@) =~= views(before) + seq![part@]);
    }
    parts
}

/// The first index at or after `i` that holds white space; the length where
/// none does.
pub open spec fn find_space(s: Seq<char>, i: int) -> int
    decreases s.len() - i,
{
    if 0 <= i < s.len() && !is_space(s[i]) {
        find_space(s, i + 1)
    } else {
        i
    }
}

/// The words from `i` on: the longest runs without white space.
pub open spec fn words_from(s: Seq<char>, i: int) -> Seq<Seq<char>>
    decreases s.len() - i,
{
    if i < 0 || i >= s.len() {
        seq![]
    } else if is_space(s[i]) {
        words_from(s, i + 1)
    } else {
        let j = find_space(s, i + 1);
        if i < j <= s.len() {
            seq![s.subrange(i, j)] + words_from(s, j)
        } else {
            seq![]
        }
    }
}

pub open spec fn words(s: Seq<char>) -> Seq<Seq<char>> {
    words_from(s, 0)
}

pub fn split_whitespace<'a>(s: &'a [char]) -> (r: Vec<&'a [char]>)
    ensures
        views(r@) == words(s@),
{
    let mut parts: Vec<&'a [char]> = Vec::new();
    let mut i: usize = 0;
    assert(views(parts@) + words_from(s@, 0) =~= words(s@));
    while i < s.len()
        invariant
            i <= s@.len(),
            views(parts@) + words_from(s@, i as int) == words(s@),
        decreases s@.len() - i,
    {
        if space(s[i]) {
            i = i + 1;
        } else {
            let mut j: usize = i + 1;
            while j < s.len() && !space(s[j])
                invariant
                    i < j <= s@.len(),
                    find_space(s@, j as int) == find_space(s@, i + 1),
                decreases s@.len() - j,
            {
                j = j + 1;
            }
            let part = slice_subrange(s, i, j);
            let ghost before = parts@;
            parts.push(part);
            proof {
                lemma_views_push(before, part);
                assert(views(parts@) + words_from(s@, j as int) =~= views(before) + (seq![part@]
                    + words_from(s@, j as int)));
            }
            i = j;
        }
    }
    assert(views(parts@) + words_from(s@, i as int) =~= views(parts@));
    parts
}

// ---------------------------------------------------------------------------
// Joining
// ---------------------------------------------------------------------------
/// The parts with `separator` between each two.
pub open spec fn joined(parts: Seq<Seq<char>>, separator: Seq<char>) -> Seq<char>
    decreases parts.len(),
{
    if parts.len() == 0 {
        seq![]
    } else if parts.len() == 1 {
        parts[0]
    } else {
        joined(parts.drop_last(), separator) + separator + parts.last()
    }
}

/// Appends a text to a string.
pub fn push_chars(s: &mut String, chars: &[char])
    ensures
        final(s)@ == old(s)@ + chars@,
{
    let ghost before = s@;
    let mut i: usize = 0;
    assert(before + chars@.take(0) =~= before);
    while i < chars.len()
        invariant
            i <= chars@.len(),
            s@ == before + chars@.take(i as int),
        decreases chars@.len() - i,
    {
        s.push(chars[i]);
        i = i + 1;
        assert(before + chars@.take(i as int) =~= (before + chars@.take(i - 1)).push(
            chars@[i - 1],
        ));
    }
    assert(chars@.take(chars@.len() as int) =~= chars@);
}

/// Appends a string to a string.
pub fn push_text(s: &mut String, other: &str)
    ensures
        final(s)@ == old(s)@ + other@,
{
    let chars = chars_of(other);
    push_chars(s, chars.as_slice());
}

/// Joins strings with `separator` between each two.
pub fn join(parts: &[String], separator: &str) -> (r: String)
    ensures
        r@ == joined(texts(parts@), separator@),
{
    let mut r = String::new();
    let mut i: usize = 0;
    while i < parts.len()
        invariant
            i <= parts@.len(),
            r@ == joined(texts(parts@).take(i as int), separator@),
        decreases parts@.len() - i,
    {
        if i > 0 {
            push_text(&mut r, separator);
        }
        push_text(&mut r, parts[i].as_str());
        i = i + 1;
        proof {
            let t = texts(parts@).take(i as int);
            assert(t.drop_last() =~= texts(parts@).take(i - 1));
            assert(t.last() == parts@[i - 1]@);
            if i == 1 {
                assert(texts(parts@).take(0).len() == 0);
                assert(r@ =~= t[0]);
            }
        }
    }
    assert(texts(parts@).take(parts@.len() as int) =~= texts(parts@));
    r
}

/// Concatenates texts.
pub fn concat(a: &str, b: &str) -> (r: String)
    ensures
        r@ == a@ + b@,
{
    let mut r = a.to_owned();
    push_text(&mut r, b);
    r
}

// ---------------------------------------------------------------------------
// Writing numbers
// ---------------------------------------------------------------------------
/// The digit `n`, for `n` below ten.
pub open spec fn digit_char(n: nat) -> char {
    ('0' as u32 + n) as char
}

/// `n` in decimal, without leading zeros.
pub open spec fn decimal(n: nat) -> Seq<char>
    decreases n,
{
    if n < 10 {
        seq![digit_char(n)]
    } else {
        decimal(n / 10).push(digit_char(n % 10))
    }
}

pub fn to_digit(n: u8) -> (c: char)
    requires
        n < 10,
    ensures
        c == digit_char(n as nat),
{
    (48u8 + n) as char
}

/// Appends `n` in decimal.
pub fn push_decimal(s: &mut String, n: u64)
    ensures
        final(s)@ == old(s)@ + decimal(n as nat),
    decreases n,
{
    if n >= 10 {
        push_decimal(s, n / 10);
    }
    let ghost before = s@;
    s.push(to_digit((n % 10) as u8));
    proof {
        if n >= 10 {
            assert(s@ =~= old(s)@ + decimal(n as nat / 10).push(digit_char(n as nat % 10)));
        } else {
            assert(s@ =~= old(s)@ + seq![digit_char(n as nat)]);
        }
    }
}

// ---------------------------------------------------------------------------
// A trailing space
// ---------------------------------------------------------------------------
/// The parts with a space behind the last one.
pub open spec fn spaced(parts: Seq<Seq<char>>) -> Seq<Seq<char>> {
    parts.drop_last().push(parts.last().push(' '))
}

proof fn lemma_trim_back_prefix(s: Seq<char>, c: char, i: int)
    requires
        0 <= i <= s.len(),
    ensures
        trim_back(s.push(c), i) == trim_back(s, i),
    decreases i,
{
    if 0 < i && is_space(s[i - 1]) {
        lemma_trim_back_prefix(s, c, i - 1);
    }
}

proof fn lemma_skip_space_prefix(s: Seq<char>, c: char, i: int)
    requires
        0 <= i <= s.len(),
    ensures
        skip_space(s, i) < s.len() ==> skip_space(s.push(c), i) == skip_space(s, i),
        skip_space(s, i) >= s.len() && is_space(c) ==> skip_space(s.push(c), i) == s.len() + 1,
    decreases s.len() - i,
{
    if i < s.len() && is_space(s[i]) {
        lemma_skip_space_prefix(s, c, i + 1);
    } else if i == s.len() && is_space(c) {
        assert(skip_space(s.push(c), i + 1) == i + 1);
    }
}

proof fn lemma_trimmed_end_space(s: Seq<char>)
    ensures
        trimmed_end(s.push(' ')) == trimmed_end(s),
{
    lemma_trim_back_prefix(s, ' ', s.len() as int);
    lemma_trim_back(s, s.len() as int);
    assert(trimmed_end(s.push(' ')) =~= trimmed_end(s));
}

/// A space behind a text is trimmed away.
pub proof fn lemma_trimmed_space(s: Seq<char>)
    ensures
        trimmed(s.push(' ')) == trimmed(s),
{
    let t = s.push(' ');
    let k = skip_space(s, 0);
    lemma_skip_space_prefix(s, ' ', 0);
    lemma_skip_space(s, 0);
    if k < s.len() {
        assert(trimmed_start(t) =~= trimmed_start(s).push(' '));
        lemma_trimmed_end_space(trimmed_start(s));
    } else {
        assert(trimmed_start(t) =~= seq![]);
        assert(trimmed_start(s) =~= seq![]);
    }
}

proof fn lemma_find_word_space(s: Seq<char>, word: Seq<char>, i: int)
    requires
        0 <= i,
        word.len() > 0,
        word.last() != ' ',
    ensures
        find_word(s.push(' '), word, i) <= s.len() + 1 <==> find_word(s, word, i) <= s.len(),
    decreases s.len() + 1 - i,
{
    let t = s.push(' ');
    if i + word.len() <= s.len() {
        assert(t.subrange(i, i + word.len()) =~= s.subrange(i, i + word.len()));
        lemma_find_word_space(s, word, i + 1);
    } else if i + word.len() == s.len() + 1 {
        assert(t.subrange(i, i + word.len()).last() == ' ');
        assert(find_word(t, word, i + 1) == t.len() + 1);
    }
}

/// A space behind a text brings no word in that does not end with it.
pub proof fn lemma_found_word_space(s: Seq<char>, word: Seq<char>)
    requires
        word.len() > 0,
        word.last() != ' ',
    ensures
        found_word(s.push(' '), word) is Some <==> found_word(s, word) is Some,
{
    lemma_find_word_space(s, word, 0);
}

proof fn lemma_find_char_space(s: Seq<char>, c: char, i: int)
    requires
        0 <= i <= s.len(),
        c != ' ',
    ensures
        find_char(s, c, i) < s.len() ==> find_char(s.push(' '), c, i) == find_char(s, c, i),
        find_char(s, c, i) >= s.len() ==> find_char(s.push(' '), c, i) == s.len() + 1,
    decreases s.len() - i,
{
    if i < s.len() && s[i] != c {
        lemma_find_char_space(s, c, i + 1);
    } else if i == s.len() {
        assert(find_char(s.push(' '), c, i + 1) == s.len() + 1);
    }
}

/// A space behind a text stays behind its second half.
pub proof fn lemma_halves_space(s: Seq<char>, c: char)
    requires
        c != ' ',
    ensures
        match halves(s, c) {
            Some((a, b)) => halves(s.push(' '), c) == Some((a, b.push(' '))),
            None => halves(s.push(' '), c) is None,
        },
{
    lemma_find_char_space(s, c, 0);
    lemma_find_char(s, c, 0);
    let i = find_char(s, c, 0);
    if i < s.len() {
        assert(s.push(' ').take(i) =~= s.take(i));
        assert(s.push(' ').skip(i + 1) =~= s.skip(i + 1).push(' '));
    }
}

proof fn lemma_outer_pieces_space(s: Seq<char>, c: char, start: int, i: int, depth: nat)
    requires
        0 <= start <= i <= s.len(),
        c != ' ',
    ensures
        outer_pieces(s, c, start, i, depth).len() > 0,
        outer_pieces(s.push(' '), c, start, i, depth) == spaced(
            outer_pieces(s, c, start, i, depth),
        ),
    decreases s.len() - i,
{
    let t = s.push(' ');
    let parts = outer_pieces(s, c, start, i, depth);
    if i >= s.len() {
        assert(outer_pieces(t, c, start, i + 1, depth) =~= seq![t.subrange(start, i + 1)]);
        assert(t.subrange(start, i + 1) =~= s.subrange(start, i).push(' '));
        assert(spaced(parts) =~= seq![s.subrange(start, i).push(' ')]);
    } else if s[i] == c && depth == 0 && c != '(' && c != ')' {
        lemma_outer_pieces_space(s, c, i + 1, i + 1, depth);
        let rest = outer_pieces(s, c, i + 1, i + 1, depth);
        assert(t.subrange(start, i) =~= s.subrange(start, i));
        assert(spaced(parts) =~= seq![s.subrange(start, i)] + spaced(rest));
    } else {
        lemma_outer_pieces_space(s, c, start, i + 1, depth_after(depth, s[i]));
    }
}

/// A space behind a text stays behind its last piece.
pub proof fn lemma_split_outer_space(s: Seq<char>, c: char)
    requires
        c != ' ',
    ensures
        split_outer(s, c).len() > 0,
        split_outer(s.push(' '), c) == spaced(split_outer(s, c)),
{
    lemma_outer_pieces_space(s, c, 0, 0, 0);
}

/// A space behind the last part stays behind the joined text.
pub proof fn lemma_joined_space(parts: Seq<Seq<char>>, separator: Seq<char>)
    requires
        parts.len() > 0,
    ensures
        joined(spaced(parts), separator) == joined(parts, separator).push(' '),
{
    let other = spaced(parts);
    assert(other.drop_last() =~= parts.drop_last());
    assert(other.last() == parts.last().push(' '));
    assert(joined(other, separator) =~= joined(parts, separator).push(' '));
}

// ---------------------------------------------------------------------------
// Laws
// ---------------------------------------------------------------------------
/// An ASCII capital becomes its small letter, thirty-two code points on;
/// every other character stays.
pub proof fn law_lowering_moves_capitals(s: Seq<char>, i: int)
    requires
        0 <= i < s.len(),
    ensures
        lowered(s).len() == s.len(),
        'A' <= s[i] <= 'Z' ==> lowered(s)[i] as u32 == s[i] as u32 + 32 && 'a' <= lowered(s)[i]
            <= 'z',
        !('A' <= s[i] <= 'Z') ==> lowered(s)[i] == s[i],
{
}

/// Two texts are the same up to ASCII case exactly where each character is
/// the same or the other case of the same letter.
pub proof fn law_same_up_to_case(a: Seq<char>, b: Seq<char>)
    ensures
        eq_ci(a, b) <==> a.len() == b.len() && forall|i: int|
            0 <= i < a.len() ==> {
                ||| #[trigger] a[i] == b[i]
                ||| 'A' <= a[i] <= 'Z' && b[i] as u32 == a[i] as u32 + 32
                ||| 'A' <= b[i] <= 'Z' && a[i] as u32 == b[i] as u32 + 32
            },
{
    if eq_ci(a, b) {
        assert(lowered(a).len() == lowered(b).len());
        assert forall|i: int| 0 <= i < a.len() implies {
            ||| #[trigger] a[i] == b[i]
            ||| 'A' <= a[i] <= 'Z' && b[i] as u32 == a[i] as u32 + 32
            ||| 'A' <= b[i] <= 'Z' && a[i] as u32 == b[i] as u32 + 32
        } by {
            assert(lowered(a)[i] == lowered(b)[i]);
        }
    }
    if a.len() == b.len() && forall|i: int|
        0 <= i < a.len() ==> {
            ||| #[trigger] a[i] == b[i]
            ||| 'A' <= a[i] <= 'Z' && b[i] as u32 == a[i] as u32 + 32
            ||| 'A' <= b[i] <= 'Z' && a[i] as u32 == b[i] as u32 + 32
        } {
        assert forall|i: int| 0 <= i < a.len() implies lowered(a)[i] == lowered(b)[i] by {
            assert(a[i] == a[i]);
        }
        assert(lowered(a) =~= lowered(b));
    }
}

/// The ASCII white space and the no-break and ideographic spaces are white
/// space; no visible ASCII character is.
pub proof fn law_white_space(c: char)
    ensures
        c == ' ' || c == '\t' || c == '\n' || c == '\r' || c == '\u{b}' || c == '\u{c}'
            ==> is_space(c),
        c == '\u{a0}' || c == '\u{3000}' ==> is_space(c),
        '!' <= c <= '~' ==> !is_space(c),
        c < '\t' ==> !is_space(c),
{
}

/// Trimming takes white space from both ends and nothing else: what is left
/// neither starts nor ends with white space.
pub proof fn law_trimming_cuts_white_space(s: Seq<char>)
    ensures
        exists|a: int, b: int|
            #![trigger s.subrange(a, b)]
            {
                &&& 0 <= a <= b <= s.len()
                &&& trimmed(s) == s.subrange(a, b)
                &&& forall|j: int| 0 <= j < a ==> is_space(#[trigger] s[j])
                &&& forall|j: int| b <= j < s.len() ==> is_space(#[trigger] s[j])
            },
        trimmed(s).len() > 0 ==> !is_space(trimmed(s)[0]) && !is_space(trimmed(s).last()),
{
    let a = skip_space(s, 0);
    lemma_skip_space(s, 0);
    let rest = s.skip(a);
    let n = trim_back(rest, rest.len() as int);
    lemma_trim_back(rest, rest.len() as int);
    assert(trimmed(s) =~= s.subrange(a, a + n));
    assert forall|j: int| a + n <= j < s.len() implies is_space(#[trigger] s[j]) by {
        assert(s[j] == rest[j - a]);
    }
    if n > 0 {
        assert(trimmed(s)[0] == s[a]);
        assert(a < s.len());
    }
}

/// A prefix is what a text starts with: what follows it gives the text back.
pub proof fn law_prefixes(s: Seq<char>, p: Seq<char>)
    ensures
        after_prefix(p + s, p) == Some(s),
        after_prefix(s, p) matches Some(rest) ==> s == p + rest,
        starts(s, p) == (after_prefix(s, p) is Some),
{
    assert((p + s).take(p.len() as int) =~= p);
    assert((p + s).skip(p.len() as int) =~= s);
    if starts(s, p) {
        assert(s =~= s.take(p.len() as int) + s.skip(p.len() as int));
    }
}

/// A suffix is what a text ends with: what precedes it gives the text back.
pub proof fn law_suffixes(s: Seq<char>, p: Seq<char>)
    ensures
        before_suffix(s + p, p) == Some(s),
        before_suffix(s, p) matches Some(rest) ==> s == rest + p,
        ends(s, p) == (before_suffix(s, p) is Some),
{
    assert((s + p).skip(s.len() as int) =~= p);
    assert((s + p).take(s.len() as int) =~= s);
    if ends(s, p) {
        assert(s =~= s.take(s.len() - p.len()) + s.skip(s.len() - p.len()));
    }
}

/// Cutting at the first occurrence of a character leaves two sides that give
/// the text back, the left one without the character.
pub proof fn law_first_cut(s: Seq<char>, c: char)
    ensures
        halves(s, c) is Some <==> s.contains(c),
        halves(s, c) matches Some((a, b)) ==> s == a + seq![c] + b && !a.contains(c),
{
    lemma_find_char(s, c, 0);
    let i = find_char(s, c, 0);
    if i < s.len() {
        assert(s =~= s.take(i) + seq![c] + s.skip(i + 1));
    }
}

/// Cutting at the last occurrence of a character leaves two sides that give
/// the text back, the right one without the character.
pub proof fn law_last_cut(s: Seq<char>, c: char)
    ensures
        halves_back(s, c) is Some <==> s.contains(c),
        halves_back(s, c) matches Some((a, b)) ==> s == a + seq![c] + b && !b.contains(c),
{
    lemma_find_char_back(s, c, s.len() as int);
    let i = find_char_back(s, c, s.len() as int);
    if i >= 0 {
        assert(s =~= s.take(i) + seq![c] + s.skip(i + 1));
        let b = s.skip(i + 1);
        assert forall|j: int| 0 <= j < b.len() implies #[trigger] b[j] != c by {
            assert(b[j] == s[i + 1 + j]);
        }
    }
}

/// Joining puts the separator between each two parts and nowhere else.
pub proof fn law_joining(parts: Seq<Seq<char>>, part: Seq<char>, separator: Seq<char>)
    ensures
        joined(Seq::<Seq<char>>::empty(), separator) == Seq::<char>::empty(),
        joined(seq![part], separator) == part,
        parts.len() > 0 ==> joined(parts.push(part), separator) == joined(parts, separator)
            + separator + part,
{
    assert(parts.push(part).drop_last() =~= parts);
}

proof fn lemma_joined_front(part: Seq<char>, parts: Seq<Seq<char>>, separator: Seq<char>)
    requires
        parts.len() > 0,
    ensures
        joined(seq![part] + parts, separator) == part + separator + joined(parts, separator),
    decreases parts.len(),
{
    let all = seq![part] + parts;
    if parts.len() == 1 {
        assert(all.drop_last() =~= seq![part]);
        assert(joined(seq![part], separator) == part);
        assert(all.last() == parts[0]);
    } else {
        assert(all.drop_last() =~= seq![part] + parts.drop_last());
        lemma_joined_front(part, parts.drop_last(), separator);
        assert(all.last() == parts.last());
        assert(part + separator + joined(parts.drop_last(), separator) + separator + parts.last()
            =~= part + separator + (joined(parts.drop_last(), separator) + separator
            + parts.last()));
    }
}

proof fn lemma_pieces(s: Seq<char>, c: char, start: int, i: int)
    requires
        0 <= start <= i <= s.len(),
        forall|j: int| start <= j < i ==> s[j] != c,
    ensures
        pieces(s, c, start, i).len() > 0,
        joined(pieces(s, c, start, i), seq![c]) == s.skip(start),
        forall|k: int|
            0 <= k < pieces(s, c, start, i).len() ==> !(#[trigger] pieces(
                s,
                c,
                start,
                i,
            )[k]).contains(c),
    decreases s.len() - i,
{
    let all = pieces(s, c, start, i);
    if i >= s.len() {
        assert(s.subrange(start, s.len() as int) =~= s.skip(start));
        assert(joined(all, seq![c]) == all[0]);
    } else if s[i] == c {
        let rest = pieces(s, c, i + 1, i + 1);
        lemma_pieces(s, c, i + 1, i + 1);
        lemma_joined_front(s.subrange(start, i), rest, seq![c]);
        assert(s.skip(start) =~= s.subrange(start, i) + seq![c] + s.skip(i + 1));
        assert forall|k: int| 0 <= k < all.len() implies !(#[trigger] all[k]).contains(c) by {
            if k > 0 {
                assert(all[k] == rest[k - 1]);
            }
        }
    } else {
        lemma_pieces(s, c, start, i + 1);
    }
}

/// The pieces of a text hold no separator, and joined with it they are the
/// text.
pub proof fn law_splitting_is_undone_by_joining(s: Seq<char>, c: char)
    ensures
        joined(split_all(s, c), seq![c]) == s,
        forall|k: int| 0 <= k < split_all(s, c).len() ==> !(#[trigger] split_all(s, c)[k]).contains(c),
{
    lemma_pieces(s, c, 0, 0);
    assert(s.skip(0) =~= s);
}

proof fn lemma_outer_joined(s: Seq<char>, c: char, start: int, i: int, depth: nat)
    requires
        0 <= start <= i <= s.len(),
    ensures
        outer_pieces(s, c, start, i, depth).len() > 0,
        joined(outer_pieces(s, c, start, i, depth), seq![c]) == s.skip(start),
    decreases s.len() - i,
{
    let all = outer_pieces(s, c, start, i, depth);
    if i >= s.len() {
        assert(s.subrange(start, s.len() as int) =~= s.skip(start));
        assert(joined(all, seq![c]) == all[0]);
    } else if s[i] == c && depth == 0 && c != '(' && c != ')' {
        let rest = outer_pieces(s, c, i + 1, i + 1, depth);
        lemma_outer_joined(s, c, i + 1, i + 1, depth);
        lemma_joined_front(s.subrange(start, i), rest, seq![c]);
        assert(s.skip(start) =~= s.subrange(start, i) + seq![c] + s.skip(i + 1));
    } else {
        lemma_outer_joined(s, c, start, i + 1, depth_after(depth, s[i]));
    }
}

proof fn lemma_outer_plain(s: Seq<char>, c: char, start: int, i: int)
    requires
        0 <= start <= i <= s.len(),
        c != '(' && c != ')',
        !s.contains('('),
    ensures
        outer_pieces(s, c, start, i, 0) == pieces(s, c, start, i),
    decreases s.len() - i,
{
    if i < s.len() {
        assert(s[i] != '(');
        if s[i] == c {
            lemma_outer_plain(s, c, i + 1, i + 1);
        } else {
            lemma_outer_plain(s, c, start, i + 1);
        }
    }
}

/// Inside one pair of parentheses a separator does not cut.
proof fn lemma_outer_inside(s: Seq<char>, c: char, start: int, i: int, close: int)
    requires
        0 <= start <= i <= close < s.len(),
        forall|j: int| i <= j < close ==> s[j] != '(' && s[j] != ')',
        s[close] == ')',
    ensures
        outer_pieces(s, c, start, i, 1) == outer_pieces(s, c, start, close + 1, 0),
    decreases close - i,
{
    if i < close {
        lemma_outer_inside(s, c, start, i + 1, close);
    }
}

/// Splitting outside parentheses is undone by joining; where there are none it
/// is plain splitting; and a separator between an opening parenthesis and the
/// next closing one does not cut.
pub proof fn law_outer_splitting(s: Seq<char>, c: char)
    ensures
        joined(split_outer(s, c), seq![c]) == s,
        c != '(' && c != ')' && !s.contains('(') ==> split_outer(s, c) == split_all(s, c),
        s.len() > 1 && s[0] == '(' && s.last() == ')' && (forall|j: int|
            0 < j < s.len() - 1 ==> s[j] != '(' && s[j] != ')') ==> split_outer(s, c) == seq![s],
{
    lemma_outer_joined(s, c, 0, 0, 0);
    assert(s.skip(0) =~= s);
    if c != '(' && c != ')' && !s.contains('(') {
        lemma_outer_plain(s, c, 0, 0);
    }
    if s.len() > 1 && s[0] == '(' && s.last() == ')' && (forall|j: int|
        0 < j < s.len() - 1 ==> s[j] != '(' && s[j] != ')') {
        assert(outer_pieces(s, c, 0, 0, 0) == outer_pieces(s, c, 0, 1, 1));
        lemma_outer_inside(s, c, 0, 1, s.len() - 1);
        assert(outer_pieces(s, c, 0, s.len() as int, 0) =~= seq![s.subrange(0, s.len() as int)]);
        assert(s.subrange(0, s.len() as int) =~= s);
    }
}

proof fn lemma_find_space(s: Seq<char>, i: int, end: int)
    requires
        0 <= i <= end <= s.len(),
        forall|j: int| i <= j < end ==> !is_space(#[trigger] s[j]),
        end < s.len() ==> is_space(s[end]),
    ensures
        find_space(s, i) == end,
    decreases end - i,
{
    if i < end {
        lemma_find_space(s, i + 1, end);
    }
}

proof fn lemma_find_space_shift(s: Seq<char>, t: Seq<char>, d: int, i: int)
    requires
        0 <= i <= t.len(),
        0 <= d,
        s.len() == d + t.len(),
        s.skip(d) == t,
    ensures
        find_space(s, d + i) == d + find_space(t, i),
    decreases t.len() - i,
{
    if i < t.len() {
        assert(t[i] == s.skip(d)[i]);
        if !is_space(t[i]) {
            lemma_find_space_shift(s, t, d, i + 1);
        }
    }
}

proof fn lemma_words_shift(s: Seq<char>, t: Seq<char>, d: int, i: int)
    requires
        0 <= i <= t.len(),
        0 <= d,
        s.len() == d + t.len(),
        s.skip(d) == t,
    ensures
        words_from(s, d + i) == words_from(t, i),
    decreases t.len() - i,
{
    if i < t.len() {
        assert(t[i] == s.skip(d)[i]);
        if is_space(t[i]) {
            lemma_words_shift(s, t, d, i + 1);
        } else {
            lemma_find_space_shift(s, t, d, i + 1);
            let j = find_space(t, i + 1);
            if i < j <= t.len() {
                lemma_words_shift(s, t, d, j);
                assert(s.subrange(d + i, d + j) =~= t.subrange(i, j)) by {
                    let a = t.subrange(i, j);
                    assert forall|k: int| 0 <= k < a.len() implies s.subrange(d + i, d + j)[k]
                        == #[trigger] a[k] by {
                        assert(t[i + k] == s.skip(d)[i + k]);
                    }
                }
            }
        }
    }
}

/// The words of a text are its runs without white space, in order: a word
/// alone is one word, a word and white space before a text is that word and
/// the text's words, and leading white space adds none.
pub proof fn law_words(word: Seq<char>, c: char, rest: Seq<char>)
    requires
        word.len() > 0,
        forall|j: int| 0 <= j < word.len() ==> !is_space(#[trigger] word[j]),
        is_space(c),
    ensures
        words(Seq::<char>::empty()) == Seq::<Seq<char>>::empty(),
        words(word) == seq![word],
        words(seq![c] + rest) == words(rest),
        words(word + seq![c] + rest) == seq![word] + words(rest),
{
    let lead = seq![c] + rest;
    assert(lead.skip(1) =~= rest);
    lemma_words_shift(lead, rest, 1, 0);
    assert(words_from(lead, 0) == words_from(lead, 1));
    lemma_find_space(word, 1, word.len() as int);
    assert(word.subrange(0, word.len() as int) =~= word);
    assert(words_from(word, word.len() as int) =~= seq![]);
    assert(words(word) =~= seq![word]);
    let all = word + lead;
    let n = word.len() as int;
    assert(word + seq![c] + rest =~= all);
    assert forall|j: int| 1 <= j < n implies !is_space(#[trigger] all[j]) by {
        assert(all[j] == word[j]);
    }
    assert(all[n] == c);
    assert(all[0] == word[0]);
    lemma_find_space(all, 1, n);
    assert(all.subrange(0, n) =~= word);
    assert(all.skip(n) =~= lead);
    lemma_words_shift(all, lead, n, 0);
}

/// The number that a run of decimal digits writes.
pub open spec fn digits_value(s: Seq<char>) -> nat
    decreases s.len(),
{
    if s.len() == 0 {
        0
    } else {
        (10 * digits_value(s.drop_last()) + (s.last() as u32 - '0' as u32)) as nat
    }
}

/// A number is written with decimal digits that read back as it, without a
/// leading zero but for zero itself.
pub proof fn law_numbers_read_back(n: nat)
    ensures
        digits_value(decimal(n)) == n,
        forall|i: int| 0 <= i < decimal(n).len() ==> '0' <= #[trigger] decimal(n)[i] <= '9',
        decimal(n).len() > 0,
        n > 0 ==> decimal(n)[0] != '0',
        n == 0 ==> decimal(n) == seq!['0'],
    decreases n,
{
    if n < 10 {
        let s = decimal(n);
        assert(s.drop_last() =~= seq![]);
        assert(digits_value(s.drop_last()) == 0);
        assert(s.last() == digit_char(n));
    } else {
        law_numbers_read_back(n / 10);
        assert(decimal(n).drop_last() =~= decimal(n / 10));
        assert(decimal(n).last() == digit_char(n % 10));
        assert(decimal(n)[0] == decimal(n / 10)[0]);
    }
}

proof fn lemma_find_word(s: Seq<char>, word: Seq<char>, i: int)
    requires
        0 <= i <= s.len() + 1,
    ensures
        ({
            let at = find_word(s, word, i);
            ||| i <= at && at + word.len() <= s.len() && s.subrange(at, at + word.len()) == word
            ||| at == s.len() + 1
        }),
        forall|j: int|
            i <= j < find_word(s, word, i) && j + word.len() <= s.len() ==> #[trigger] s.subrange(
                j,
                j + word.len(),
            ) != word,
    decreases s.len() + 1 - i,
{
    if i + word.len() <= s.len() && s.subrange(i, i + word.len()) != word {
        lemma_find_word(s, word, i + 1);
    }
}

/// A word is found where it first stands, and is not found where it stands
/// nowhere.
pub proof fn law_words_are_found_first(s: Seq<char>, word: Seq<char>)
    ensures
        found_word(s, word) matches Some(i) ==> 0 <= i && i + word.len() <= s.len() && s.subrange(
            i,
            i + word.len(),
        ) == word && forall|j: int|
            0 <= j < i ==> #[trigger] s.subrange(j, j + word.len()) != word,
        found_word(s, word) is None ==> forall|j: int|
            0 <= j && j + word.len() <= s.len() ==> #[trigger] s.subrange(j, j + word.len()) != word,
{
    lemma_find_word(s, word, 0);
}

proof fn lemma_skip_quotes(s: Seq<char>, i: int)
    requires
        0 <= i <= s.len(),
    ensures
        i <= skip_quotes(s, i) <= s.len(),
        forall|j: int| i <= j < skip_quotes(s, i) ==> s[j] == '"' || s[j] == '\'',
        skip_quotes(s, i) < s.len() ==> s[skip_quotes(s, i)] != '"' && s[skip_quotes(s, i)] != '\'',
    decreases s.len() - i,
{
    if i < s.len() && (s[i] == '"' || s[i] == '\'') {
        lemma_skip_quotes(s, i + 1);
    }
}

proof fn lemma_quotes_back(s: Seq<char>, i: int)
    requires
        0 <= i <= s.len(),
    ensures
        0 <= quotes_back(s, i) <= i,
        forall|j: int| quotes_back(s, i) <= j < i ==> s[j] == '"' || s[j] == '\'',
        quotes_back(s, i) > 0 ==> s[quotes_back(s, i) - 1] != '"' && s[quotes_back(s, i) - 1]
            != '\'',
    decreases i,
{
    if i > 0 && (s[i - 1] == '"' || s[i - 1] == '\'') {
        lemma_quotes_back(s, i - 1);
    }
}

/// A text between quotes is itself without them, where it neither starts nor
/// ends with one; a text without quotes at its ends stays.
pub proof fn law_quotes_are_dropped(s: Seq<char>, open: char, close: char)
    requires
        s.len() > 0,
        s[0] != '"' && s[0] != '\'',
        s.last() != '"' && s.last() != '\'',
        open == '"' || open == '\'',
        close == '"' || close == '\'',
    ensures
        unquoted(s) == s,
        unquoted(seq![open] + s + seq![close]) == s,
{
    lemma_skip_quotes(s, 0);
    assert(skip_quotes(s, 0) == 0);
    assert(s.skip(0) =~= s);
    lemma_quotes_back(s, s.len() as int);
    assert(quotes_back(s, s.len() as int) == s.len());
    assert(s.take(s.len() as int) =~= s);
    let q = seq![open] + s + seq![close];
    assert(q[0] == open && q[1] == s[0]);
    lemma_skip_quotes(q, 1);
    assert(skip_quotes(q, 1) == 1);
    assert(skip_quotes(q, 0) == 1);
    let rest = q.skip(1);
    assert(rest =~= s + seq![close]);
    let n = s.len() as int;
    assert(rest[n] == close && rest[n - 1] == s[n - 1]);
    lemma_quotes_back(rest, n);
    assert(quotes_back(rest, n) == n);
    assert(quotes_back(rest, n + 1) == n);
    assert(rest.take(n) =~= s);
}

proof fn lemma_pieces_shift(s: Seq<char>, t: Seq<char>, c: char, d: int, start: int, i: int)
    requires
        0 <= d,
        0 <= start <= i <= t.len(),
        s.len() == d + t.len(),
        s.skip(d) == t,
    ensures
        pieces(s, c, d + start, d + i) == pieces(t, c, start, i),
    decreases t.len() - i,
{
    assert(s.subrange(d + start, d + t.len()) =~= t.subrange(start, t.len() as int));
    if i < t.len() {
        assert(t[i] == s.skip(d)[i]);
        assert(s.subrange(d + start, d + i) =~= t.subrange(start, i));
        if t[i] == c {
            lemma_pieces_shift(s, t, c, d, i + 1, i + 1);
        } else {
            lemma_pieces_shift(s, t, c, d, start, i + 1);
        }
    }
}

proof fn lemma_pieces_run(s: Seq<char>, c: char, start: int, i: int, end: int)
    requires
        0 <= start <= i <= end <= s.len(),
        forall|j: int| i <= j < end ==> s[j] != c,
    ensures
        pieces(s, c, start, i) == pieces(s, c, start, end),
    decreases end - i,
{
    if i < end {
        lemma_pieces_run(s, c, start, i + 1, end);
    }
}

/// A text without the separator is its only piece; before a separator it is
/// the first piece, and the pieces of what follows come after it.
pub proof fn law_splitting_cuts_at_separators(piece: Seq<char>, c: char, rest: Seq<char>)
    requires
        !piece.contains(c),
    ensures
        split_all(piece, c) == seq![piece],
        split_all(piece + seq![c] + rest, c) == seq![piece] + split_all(rest, c),
{
    let n = piece.len() as int;
    lemma_pieces_run(piece, c, 0, 0, n);
    assert(piece.subrange(0, n) =~= piece);
    let all = piece + seq![c] + rest;
    assert forall|j: int| 0 <= j < n implies all[j] != c by {
        assert(all[j] == piece[j]);
    }
    lemma_pieces_run(all, c, 0, 0, n);
    assert(all[n] == c);
    assert(all.subrange(0, n) =~= piece);
    assert(all.skip(n + 1) =~= rest);
    lemma_pieces_shift(all, rest, c, n + 1, 0, 0);
}

} // verus!
