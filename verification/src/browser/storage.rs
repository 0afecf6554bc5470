//! Persistent `localStorage`: one JSON file per origin. Writes go through the
//! whole map (the web Storage API is a flat string map), so persistence is
//! rewrite-the-file on change, cheap at the size cap. `sessionStorage` is the
//! same map kept in memory only.
use crate::browser::string_map::{self, Entries, StringMap};
use crate::browser::url::{Url, UrlModel};
use crate::css::color;
use crate::text;
use vstd::prelude::*;

verus! {

/// Most bytes one origin's serialized map may occupy on disk: a runaway
/// script filling storage would fill the disk. Oversized maps stay in memory
/// but are not persisted.
pub const MAX_STORAGE_BYTES: usize = 5_242_880;

// ---------------------------------------------------------------------------
// Origins
// ---------------------------------------------------------------------------
/// What a character of an origin becomes in a file name.
pub open spec fn slug_char(c: char) -> char {
    if text::is_ascii_alnum(c) || c == '-' || c == '.' {
        c
    } else {
        '_'
    }
}

pub open spec fn slug_model(origin: Seq<char>) -> Seq<char> {
    Seq::new(origin.len(), |i: int| slug_char(origin[i]))
}

/// A filesystem-safe file stem for an origin string: alphanumerics,
/// `-` and `.` pass through, everything else becomes `_`
/// (`https://a.test:8443` -> `https___a.test_8443`).
pub fn slug(origin: &str) -> (r: String)
    ensures
        r@ == slug_model(origin@),
        forall|i: int|
            0 <= i < r@.len() ==> text::is_ascii_alnum(#[trigger] r@[i]) || r@[i] == '-' || r@[i]
                == '.' || r@[i] == '_',
{
    let chars = text::chars_of(origin);
    let mut r = String::new();
    let mut i: usize = 0;
    while i < chars.len()
        invariant
            i <= chars@.len(),
            r@ == slug_model(chars@).take(i as int),
        decreases chars@.len() - i,
    {
        let c = chars[i];
        if text::ascii_alnum(c) || c == '-' || c == '.' {
            r.push(c);
        } else {
            r.push('_');
        }
        i = i + 1;
        assert(slug_model(chars@).take(i as int) =~= slug_model(chars@).take(i - 1).push(
            slug_char(chars@[i - 1]),
        ));
    }
    assert(slug_model(chars@).take(chars@.len() as int) =~= slug_model(chars@));
    r
}

/// The name of the file that holds an origin's map.
pub open spec fn file_name(origin: Seq<char>) -> Seq<char> {
    slug_model(origin) + ".json"@
}

/// The name of the file that holds an origin's map.
pub fn file_for(origin: &str) -> (r: String)
    ensures
        r@ == file_name(origin@),
{
    let stem = slug(origin);
    text::concat(stem.as_str(), ".json")
}

pub open spec fn origin_key_model(url: UrlModel) -> Seq<char> {
    if url.scheme == "http"@ || url.scheme == "https"@ {
        url.origin
    } else {
        url.scheme + "://"@ + match url.host {
            Some(host) => host,
            None => Seq::empty(),
        }
    }
}

/// The storage key scripts see for a page URL: the serialized origin
/// for http(s), `scheme://host` otherwise (`file://` pages share one
/// store, matching the opaque-origin treatment of cookies).
pub fn origin_key(url: &Url) -> (r: String)
    ensures
        r@ == origin_key_model(url@),
{
    if text::same_str(url.scheme.as_str(), "http") || text::same_str(
        url.scheme.as_str(),
        "https",
    ) {
        return url.origin.clone();
    }
    let mut key = text::concat(url.scheme.as_str(), "://");
    match &url.host {
        Some(host) => {
            text::push_text(&mut key, host.as_str());
        },
        None => {
            assert(key@ =~= key@ + Seq::<char>::empty());
        },
    }
    key
}

// ---------------------------------------------------------------------------
// Writing
// ---------------------------------------------------------------------------
/// Whether a character is a control character that is written by its code.
pub open spec fn is_low(c: char) -> bool {
    '\u{1f}' >= c
}

/// One character inside a JSON string.
pub open spec fn escaped(c: char) -> Seq<char> {
    if c == '"' {
        seq!['\\', '"']
    } else if c == '\\' {
        seq!['\\', '\\']
    } else if c == '\n' {
        seq!['\\', 'n']
    } else if c == '\r' {
        seq!['\\', 'r']
    } else if c == '\t' {
        seq!['\\', 't']
    } else if is_low(c) {
        seq![
            '\\',
            'u',
            '0',
            '0',
            color::hex_char(c as nat / 16),
            color::hex_char(c as nat % 16),
        ]
    } else {
        seq![c]
    }
}

/// The characters of a JSON string.
pub open spec fn escaped_all(s: Seq<char>) -> Seq<char>
    decreases s.len(),
{
    if s.len() == 0 {
        seq![]
    } else {
        escaped_all(s.drop_last()) + escaped(s.last())
    }
}

pub open spec fn json_string(s: Seq<char>) -> Seq<char> {
    seq!['"'] + escaped_all(s) + seq!['"']
}

pub open spec fn json_entry(entry: (Seq<char>, Seq<char>)) -> Seq<char> {
    json_string(entry.0) + seq![':'] + json_string(entry.1)
}

/// The entries with a comma between each two.
pub open spec fn json_entries(e: Entries) -> Seq<char>
    decreases e.len(),
{
    if e.len() == 0 {
        seq![]
    } else if e.len() == 1 {
        json_entry(e[0])
    } else {
        json_entries(e.drop_last()) + seq![','] + json_entry(e.last())
    }
}

/// A map as a JSON object.
pub open spec fn json_object(e: Entries) -> Seq<char> {
    seq!['{'] + json_entries(e) + seq!['}']
}

fn push_escaped(output: &mut String, c: char)
    ensures
        final(output)@ == old(output)@ + escaped(c),
{
    let ghost start = output@;
    if c == '"' {
        output.push('\\');
        output.push('"');
    } else if c == '\\' {
        output.push('\\');
        output.push('\\');
    } else if c == '\n' {
        output.push('\\');
        output.push('n');
    } else if c == '\r' {
        output.push('\\');
        output.push('r');
    } else if c == '\t' {
        output.push('\\');
        output.push('t');
    } else if '\u{1f}' >= c {
        let code: u8 = c as u8;
        output.push('\\');
        output.push('u');
        output.push('0');
        output.push('0');
        output.push(color::to_hex(code / 16));
        output.push(color::to_hex(code % 16));
    } else {
        output.push(c);
    }
    assert(output@ =~= start + escaped(c));
}

/// Appends a text as a JSON string.
pub fn write_json_string(output: &mut String, value: &str)
    ensures
        final(output)@ == old(output)@ + json_string(value@),
{
    let ghost start = output@;
    let chars = text::chars_of(value);
    output.push('"');
    let mut i: usize = 0;
    assert(output@ =~= start + seq!['"'] + escaped_all(chars@.take(0)));
    while i < chars.len()
        invariant
            i <= chars@.len(),
            output@ == start + seq!['"'] + escaped_all(chars@.take(i as int)),
        decreases chars@.len() - i,
    {
        push_escaped(output, chars[i]);
        i = i + 1;
        proof {
            let t = chars@.take(i as int);
            assert(t.drop_last() =~= chars@.take(i - 1));
            assert(t.last() == chars@[i - 1]);
            assert(output@ =~= start + seq!['"'] + escaped_all(t));
        }
    }
    assert(chars@.take(chars@.len() as int) =~= chars@);
    output.push('"');
    assert(output@ =~= start + json_string(value@));
}

/// Serializes a flat string map as a JSON object, its keys in order.
pub fn serialize_map(map: &StringMap) -> (r: String)
    ensures
        r@ == json_object(map@),
        string_map::ascending(map@),
{
    let mut output = String::new();
    output.push('{');
    let count: usize = map.len();
    let ghost e = map@;
    let mut i: usize = 0;
    assert(output@ =~= seq!['{'] + json_entries(e.take(0)));
    while i < count
        invariant
            i <= count == e.len(),
            e == map@,
            string_map::ascending(e),
            output@ == seq!['{'] + json_entries(e.take(i as int)),
        decreases count - i,
    {
        let ghost t = e.take(i + 1);
        assert(t.drop_last() =~= e.take(i as int));
        assert(t.last() == e[i as int]);
        if i > 0 {
            output.push(',');
        }
        if let Some(key) = map.key(i) {
            write_json_string(&mut output, key.as_str());
        }
        output.push(':');
        if let Some(value) = map.value(i) {
            write_json_string(&mut output, value.as_str());
        }
        i = i + 1;
        assert(output@ =~= seq!['{'] + json_entries(t));
    }
    assert(e.take(e.len() as int) =~= e);
    output.push('}');
    assert(output@ =~= json_object(e));
    output
}

// ---------------------------------------------------------------------------
// Reading
// ---------------------------------------------------------------------------
/// Whether a text is what [`serialize_map`] writes for the entries.
pub open spec fn is_text_of(s: Seq<char>, e: Entries) -> bool {
    string_map::ascending(e) && s == json_object(e)
}

/// The entries that a text was written for, if it was written for any.
pub open spec fn object_model(s: Seq<char>) -> Option<Entries> {
    if exists|e: Entries| is_text_of(s, e) {
        Some(choose|e: Entries| is_text_of(s, e))
    } else {
        None
    }
}

spec fn after_char(r: Seq<char>, c: char) -> Option<Seq<char>> {
    if r.len() > 0 && r[0] == c {
        Some(r.skip(1))
    } else {
        None
    }
}

/// What a one-letter escape stands for.
spec fn short_escape(c: char) -> Option<char> {
    if c == '"' || c == '\\' {
        Some(c)
    } else if c == 'n' {
        Some('\n')
    } else if c == 'r' {
        Some('\r')
    } else if c == 't' {
        Some('\t')
    } else {
        None
    }
}

/// The control character that four hexadecimal digits write.
spec fn unicode_escape(r: Seq<char>) -> Option<char> {
    if r.len() >= 4 && r[0] == '0' && r[1] == '0' {
        match (color::hex_digit(r[2]), color::hex_digit(r[3])) {
            (Some(high), Some(low)) => Some((high * 16 + low) as u8 as char),
            _ => None,
        }
    } else {
        None
    }
}

/// The rest of a JSON string behind its opening quote: the text read so far
/// is `acc`; what follows the closing quote is left over.
spec fn string_rest(r: Seq<char>, acc: Seq<char>) -> Option<(Seq<char>, Seq<char>)>
    decreases r.len(),
{
    if r.len() == 0 {
        None
    } else if r[0] == '"' {
        Some((acc, r.skip(1)))
    } else if r[0] == '\\' {
        if r.len() == 1 {
            None
        } else if r[1] == 'u' {
            match unicode_escape(r.skip(2)) {
                Some(c) => string_rest(r.skip(6), acc.push(c)),
                None => None,
            }
        } else {
            match short_escape(r[1]) {
                Some(c) => string_rest(r.skip(2), acc.push(c)),
                None => None,
            }
        }
    } else {
        string_rest(r.skip(1), acc.push(r[0]))
    }
}

spec fn string_at(r: Seq<char>) -> Option<(Seq<char>, Seq<char>)> {
    match after_char(r, '"') {
        Some(rest) => string_rest(rest, seq![]),
        None => None,
    }
}

/// One `key:value` member.
spec fn member_at(r: Seq<char>) -> Option<(Seq<char>, Seq<char>, Seq<char>)> {
    match string_at(r) {
        Some((key, rest)) => match after_char(rest, ':') {
            Some(rest) => match string_at(rest) {
                Some((value, rest)) => Some((key, value, rest)),
                None => None,
            },
            None => None,
        },
        None => None,
    }
}

/// The members up to the closing brace, set one after the other; a later
/// member of one key wins.
spec fn members_at(r: Seq<char>, e: Entries) -> Option<(Entries, Seq<char>)>
    decreases r.len(),
{
    match member_at(r) {
        Some((key, value, rest)) => {
            let e = string_map::put(e, key, value);
            if rest.len() > 0 && rest.len() < r.len() && rest[0] == ',' {
                members_at(rest.skip(1), e)
            } else if rest.len() > 0 && rest[0] == '}' {
                Some((e, rest.skip(1)))
            } else {
                None
            }
        },
        None => None,
    }
}

/// What a text says as a flat JSON object of strings.
spec fn read_object(s: Seq<char>) -> Option<Entries> {
    match after_char(s, '{') {
        Some(body) => {
            let read = if body.len() > 0 && body[0] == '}' {
                Some((Seq::empty(), body.skip(1)))
            } else {
                members_at(body, Seq::empty())
            };
            match read {
                Some((e, rest)) => if rest.len() == 0 {
                    Some(e)
                } else {
                    None
                },
                None => None,
            }
        },
        None => None,
    }
}

struct Parser<'a> {
    chars: &'a [char],
    position: usize,
}

impl<'a> Parser<'a> {
    spec fn rest(&self) -> Seq<char> {
        self.chars@.skip(self.position as int)
    }

    spec fn valid(&self) -> bool {
        self.position <= self.chars@.len()
    }

    fn peek(&self) -> (r: Option<char>)
        requires
            self.valid(),
        ensures
            match r {
                Some(c) => self.rest().len() > 0 && self.rest()[0] == c && self.position
                    < self.chars@.len() && self.position < usize::MAX,
                None => self.rest().len() == 0,
            },
    {
        if self.position < self.chars.len() {
            Some(self.chars[self.position])
        } else {
            None
        }
    }

    fn expect(&mut self, c: char) -> (r: bool)
        requires
            old(self).valid(),
        ensures
            final(self).valid(),
            final(self).chars == old(self).chars,
            match after_char(old(self).rest(), c) {
                Some(rest) => r && final(self).rest() == rest && final(self).position
                    == old(self).position + 1,
                None => !r,
            },
    {
        match self.peek() {
            Some(next) => {
                if next == c {
                    assert(self.rest().skip(1) =~= self.chars@.skip(self.position + 1));
                    self.position = self.position + 1;
                    true
                } else {
                    false
                }
            },
            None => false,
        }
    }

    fn string(&mut self) -> (r: Option<String>)
        requires
            old(self).valid(),
        ensures
            final(self).valid(),
            final(self).chars == old(self).chars,
            match string_at(old(self).rest()) {
                Some((value, rest)) => r is Some && r->0@ == value && final(self).rest() == rest
                    && final(self).position > old(self).position,
                None => r is None,
            },
    {
        if !self.expect('"') {
            return None;
        }
        let ghost start = self.rest();
        let chars = self.chars;
        let total: usize = chars.len();
        let begin: usize = self.position;
        let mut i: usize = begin;
        let mut output = String::new();
        assert(output@ =~= seq![]);
        while i < total
            invariant
                begin <= i <= total == chars@.len(),
                chars == self.chars,
                self.position == begin,
                self.chars == old(self).chars,
                begin > old(self).position,
                string_at(old(self).rest()) == string_rest(start, seq![]),
                string_rest(chars@.skip(i as int), output@) == string_rest(start, seq![]),
            decreases total - i,
        {
            let c = chars[i];
            let ghost r = chars@.skip(i as int);
            assert(r[0] == c);
            assert(r.skip(1) =~= chars@.skip(i + 1));
            if c == '"' {
                self.position = i + 1;
                return Some(output);
            }
            if c == '\\' {
                if i + 1 >= total {
                    return None;
                }
                let kind = chars[i + 1];
                assert(r[1] == kind);
                assert(r.skip(2) =~= chars@.skip(i + 2));
                if kind == 'u' {
                    match read_unicode(chars, i + 2) {
                        Some(decoded) => {
                            assert(r.skip(6) =~= chars@.skip(i + 6));
                            output.push(decoded);
                            i = i + 6;
                        },
                        None => {
                            return None;
                        },
                    }
                } else {
                    match read_short(kind) {
                        Some(decoded) => {
                            output.push(decoded);
                            i = i + 2;
                        },
                        None => {
                            return None;
                        },
                    }
                }
            } else {
                output.push(c);
                i = i + 1;
            }
        }
        None
    }
}

fn read_short(c: char) -> (r: Option<char>)
    ensures
        r == short_escape(c),
{
    if c == '"' || c == '\\' {
        Some(c)
    } else if c == 'n' {
        Some('\n')
    } else if c == 'r' {
        Some('\r')
    } else if c == 't' {
        Some('\t')
    } else {
        None
    }
}

fn read_unicode(chars: &[char], at: usize) -> (r: Option<char>)
    requires
        at <= chars@.len(),
    ensures
        r == unicode_escape(chars@.skip(at as int)),
        r is Some ==> at + 4 <= chars@.len(),
{
    let ghost s = chars@.skip(at as int);
    if chars.len() - at < 4 {
        return None;
    }
    assert(s[0] == chars@[at as int] && s[1] == chars@[at + 1] && s[2] == chars@[at + 2] && s[3]
        == chars@[at + 3]);
    if chars[at] != '0' || chars[at + 1] != '0' {
        return None;
    }
    match (color::hex_value(chars[at + 2]), color::hex_value(chars[at + 3])) {
        (Some(high), Some(low)) => Some((high * 16 + low) as char),
        _ => None,
    }
}

fn read_map(source: &str) -> (r: Option<StringMap>)
    ensures
        match read_object(source@) {
            Some(e) => r is Some && r->0@ == e,
            None => r is None,
        },
{
    let chars = text::chars_of(source);
    let mut parser = Parser { chars: chars.as_slice(), position: 0 };
    assert(parser.rest() =~= source@);
    if !parser.expect('{') {
        return None;
    }
    let mut map = StringMap::new();
    let ghost body = parser.rest();
    let empty = match parser.peek() {
        Some(c) => c == '}',
        None => false,
    };
    if empty {
        assert(body.skip(1) =~= parser.chars@.skip(parser.position + 1));
        parser.position = parser.position + 1;
    } else {
        let mut open = true;
        while open
            invariant_except_break
                open,
                parser.valid(),
                parser.chars@ == source@,
                members_at(parser.rest(), map@) == members_at(body, Seq::empty()),
                read_object(source@) == (match members_at(body, Seq::empty()) {
                    Some((e, rest)) => if rest.len() == 0 {
                        Some(e)
                    } else {
                        None
                    },
                    None => None,
                }),
            ensures
                parser.valid(),
                parser.chars@ == source@,
                members_at(body, Seq::empty()) == Some((map@, parser.rest())),
            decreases parser.chars@.len() - parser.position,
        {
            let ghost r = parser.rest();
            let key = match parser.string() {
                Some(key) => key,
                None => {
                    return None;
                },
            };
            if !parser.expect(':') {
                return None;
            }
            let value = match parser.string() {
                Some(value) => value,
                None => {
                    return None;
                },
            };
            let ghost rest = parser.rest();
            assert(member_at(r) == Some((key@, value@, rest)));
            assert(rest.len() < r.len());
            map.insert(key, value);
            match parser.peek() {
                Some(c) => {
                    if c == ',' {
                        assert(rest.skip(1) =~= parser.chars@.skip(parser.position + 1));
                        parser.position = parser.position + 1;
                    } else if c == '}' {
                        assert(rest.skip(1) =~= parser.chars@.skip(parser.position + 1));
                        parser.position = parser.position + 1;
                        break;
                    } else {
                        return None;
                    }
                },
                None => {
                    return None;
                },
            }
        }
    }
    if parser.position != parser.chars.len() {
        return None;
    }
    Some(map)
}

/// Parses a flat JSON object of strings back into a map. Strict
/// enough to reject anything the serializer did not produce (a
/// hand-edited or corrupt file falls back to empty storage).
pub fn parse_map(source: &str) -> (r: Result<StringMap, ()>)
    ensures
        match r {
            Ok(map) => is_text_of(source@, map@) && object_model(source@) == Some(map@),
            Err(_) => object_model(source@) is None && forall|e: Entries|
                string_map::ascending(e) ==> source@ != json_object(e),
        },
{
    proof {
        if let Some(e) = object_model(source@) {
            lemma_read_back(e);
        }
    }
    match read_map(source) {
        Some(map) => {
            if text::same_str(serialize_map(&map).as_str(), source) {
                assert(is_text_of(source@, map@));
                Ok(map)
            } else {
                proof {
                    assert forall|e: Entries| string_map::ascending(e) implies source@
                        != json_object(e) by {
                        assert(!is_text_of(source@, e));
                    }
                }
                Err(())
            }
        },
        None => {
            proof {
                assert forall|e: Entries| string_map::ascending(e) implies source@
                    != json_object(e) by {
                    assert(!is_text_of(source@, e));
                }
            }
            Err(())
        },
    }
}

// ---------------------------------------------------------------------------
// Round trip
// ---------------------------------------------------------------------------
/// Reading a JSON string gives back the text that was written.
proof fn lemma_string_round_trip(v: Seq<char>, acc: Seq<char>, tail: Seq<char>)
    ensures
        string_rest(escaped_all(v) + seq!['"'] + tail, acc) == Some((acc + v, tail)),
    decreases v.len(),
{
    let whole = escaped_all(v) + seq!['"'] + tail;
    if v.len() == 0 {
        assert(whole[0] == '"');
        assert(whole.skip(1) =~= tail);
        assert(acc + v =~= acc);
    } else {
        let c = v[0];
        let rest = v.skip(1);
        lemma_escaped_first(v);
        let after = escaped_all(rest) + seq!['"'] + tail;
        assert(whole =~= escaped(c) + after);
        lemma_string_round_trip(rest, acc.push(c), tail);
        assert(acc.push(c) + rest =~= acc + v);
        lemma_unescape(c, after, acc);
    }
}

proof fn lemma_escaped_first(v: Seq<char>)
    requires
        v.len() > 0,
    ensures
        escaped_all(v) == escaped(v[0]) + escaped_all(v.skip(1)),
    decreases v.len(),
{
    if v.len() == 1 {
        assert(v.drop_last() =~= seq![]);
        assert(v.skip(1) =~= seq![]);
        assert(escaped_all(v) =~= escaped(v[0]) + escaped_all(v.skip(1)));
    } else {
        lemma_escaped_first(v.drop_last());
        assert(v.drop_last().skip(1) =~= v.skip(1).drop_last());
        assert(v.skip(1).last() == v.last());
        assert(escaped_all(v) =~= escaped(v[0]) + escaped_all(v.skip(1)));
    }
}

/// Reading one escaped character gives it back.
proof fn lemma_unescape(c: char, after: Seq<char>, acc: Seq<char>)
    ensures
        string_rest(escaped(c) + after, acc) == string_rest(after, acc.push(c)),
{
    let r = escaped(c) + after;
    if c == '"' || c == '\\' || c == '\n' || c == '\r' || c == '\t' {
        assert(r[0] == '\\');
        assert(short_escape(r[1]) == Some(c));
        assert(r.skip(2) =~= after);
    } else if is_low(c) {
        assert(r[0] == '\\' && r[1] == 'u');
        let h = r.skip(2);
        assert(h[0] == '0' && h[1] == '0');
        assert(h[2] == color::hex_char(c as nat / 16));
        assert(h[3] == color::hex_char(c as nat % 16));
        lemma_hex_digit(c as nat / 16);
        lemma_hex_digit(c as nat % 16);
        assert(unicode_escape(h) == Some(c));
        assert(r.skip(6) =~= after);
    } else {
        assert(r[0] == c);
        assert(r.skip(1) =~= after);
    }
}

proof fn lemma_hex_digit(n: nat)
    requires
        n < 16,
    ensures
        color::hex_digit(color::hex_char(n)) == Some(n as u8),
{
}

proof fn lemma_string_at(v: Seq<char>, tail: Seq<char>)
    ensures
        string_at(json_string(v) + tail) == Some((v, tail)),
{
    let whole = json_string(v) + tail;
    assert(whole[0] == '"');
    assert(whole.skip(1) =~= escaped_all(v) + seq!['"'] + tail);
    lemma_string_round_trip(v, seq![], tail);
    assert(seq![] + v =~= v);
}

proof fn lemma_member_at(entry: (Seq<char>, Seq<char>), tail: Seq<char>)
    ensures
        member_at(json_entry(entry) + tail) == Some((entry.0, entry.1, tail)),
{
    let whole = json_entry(entry) + tail;
    let second = json_string(entry.1) + tail;
    let first = seq![':'] + second;
    assert(whole =~= json_string(entry.0) + first);
    lemma_string_at(entry.0, first);
    assert(first.skip(1) =~= second);
    lemma_string_at(entry.1, tail);
}

/// The entries from `i` on, each but the first with a comma before it.
spec fn json_from(e: Entries, i: int) -> Seq<char>
    decreases e.len() - i,
{
    if i < 0 || i >= e.len() {
        seq![]
    } else if i + 1 == e.len() {
        json_entry(e[i])
    } else {
        json_entry(e[i]) + seq![','] + json_from(e, i + 1)
    }
}

proof fn lemma_json_from(e: Entries, i: int)
    requires
        0 < i < e.len(),
    ensures
        json_entries(e) == json_entries(e.take(i)) + seq![','] + json_from(e, i),
    decreases e.len() - i,
{
    if i + 1 == e.len() {
        assert(e.take(i) =~= e.drop_last());
    } else {
        lemma_json_from(e, i + 1);
        let t = e.take(i + 1);
        assert(t.drop_last() =~= e.take(i));
        assert(t.last() == e[i]);
        assert(json_entries(e) =~= json_entries(e.take(i)) + seq![','] + json_from(e, i));
    }
}

proof fn lemma_members(e: Entries, i: int)
    requires
        string_map::ascending(e),
        0 <= i < e.len(),
    ensures
        members_at(json_from(e, i) + seq!['}'], e.take(i)) == Some((e, Seq::<char>::empty())),
    decreases e.len() - i,
{
    let last = i + 1 == e.len();
    let tail = if last {
        seq!['}']
    } else {
        seq![','] + json_from(e, i + 1) + seq!['}']
    };
    let whole = json_from(e, i) + seq!['}'];
    assert(whole =~= json_entry(e[i]) + tail);
    lemma_member_at(e[i], tail);
    if i > 0 {
        assert(e.take(i).last() == e[i - 1]);
        assert(string_map::before(e[i - 1].0, e[i].0));
    }
    string_map::lemma_put_last(e.take(i), e[i].0, e[i].1);
    assert(e.take(i).push(e[i]) =~= e.take(i + 1));
    assert(tail.len() < whole.len()) by {
        assert(json_entry(e[i]).len() > 0);
    }
    if last {
        assert(e.take(i + 1) =~= e);
        assert(tail.skip(1) =~= Seq::<char>::empty());
    } else {
        assert(tail.skip(1) =~= json_from(e, i + 1) + seq!['}']);
        lemma_members(e, i + 1);
    }
}

/// A map that is written and read back is the same map.
pub proof fn law_storage_round_trip(e: Entries)
    requires
        string_map::ascending(e),
    ensures
        object_model(json_object(e)) == Some(e),
{
    let s = json_object(e);
    assert(is_text_of(s, e));
    let other = choose|other: Entries| is_text_of(s, other);
    lemma_read_back(e);
    lemma_read_back(other);
}

/// Only what was written is read: a text that gives a map is the text of that
/// map.
pub proof fn law_only_written_text_is_read(s: Seq<char>)
    requires
        object_model(s) is Some,
    ensures
        string_map::ascending(object_model(s)->0),
        s == json_object(object_model(s)->0),
{
}

proof fn lemma_read_back(e: Entries)
    requires
        string_map::ascending(e),
    ensures
        read_object(json_object(e)) == Some(e),
{
    let whole = json_object(e);
    assert(whole[0] == '{');
    let rest = whole.skip(1);
    assert(rest =~= json_entries(e) + seq!['}']);
    if e.len() == 0 {
        assert(rest =~= seq!['}']);
        assert(rest.skip(1) =~= Seq::<char>::empty());
        assert(e =~= Seq::empty());
    } else {
        if e.len() > 1 {
            lemma_json_from(e, 1);
            let t = e.take(1);
            assert(t[0] == e[0]);
            assert(json_entries(e) =~= json_from(e, 0));
        }
        assert(json_from(e, 0) == json_entries(e));
        assert(rest[0] == '"');
        lemma_members(e, 0);
        assert(e.take(0) =~= Seq::empty());
    }
}

// ---------------------------------------------------------------------------
// The store
// ---------------------------------------------------------------------------
/// Per-origin maps, hydrated from disk on first use. Reading and writing the
/// files is the caller's part: the store says which file text to write.
#[derive(Debug)]
pub struct WebStorage {
    /// Whether there is a storage root; without one the store is
    /// memory-only.
    pub rooted: bool,
    /// Origin and live map, loaded on first access.
    pub cache: Vec<(String, StringMap)>,
}

pub type CacheModel = Seq<(Seq<char>, Entries)>;

pub open spec fn cache_models(cache: Seq<(String, StringMap)>) -> CacheModel {
    Seq::new(cache.len(), |i: int| (cache[i].0@, cache[i].1@))
}

/// The place of an origin among the first `n`.
pub open spec fn origin_place(cache: CacheModel, origin: Seq<char>, n: int) -> Option<int>
    decreases n,
{
    if n <= 0 {
        None
    } else if cache[n - 1].0 == origin {
        Some(n - 1)
    } else {
        origin_place(cache, origin, n - 1)
    }
}

/// The live map of an origin, if it is loaded.
pub open spec fn live_map(cache: CacheModel, origin: Seq<char>) -> Option<Entries> {
    match origin_place(cache, origin, cache.len() as int) {
        Some(i) => Some(cache[i].1),
        None => None,
    }
}

/// The store with an origin's map replaced.
pub open spec fn with_map(cache: CacheModel, origin: Seq<char>, map: Entries) -> CacheModel {
    match origin_place(cache, origin, cache.len() as int) {
        Some(i) => cache.update(i, (origin, map)),
        None => cache.push((origin, map)),
    }
}

proof fn lemma_origin_place(cache: CacheModel, origin: Seq<char>, n: int)
    requires
        0 <= n <= cache.len(),
    ensures
        match origin_place(cache, origin, n) {
            Some(i) => 0 <= i < n && cache[i].0 == origin && forall|j: int|
                i < j < n ==> (#[trigger] cache[j]).0 != origin,
            None => forall|j: int| 0 <= j < n ==> (#[trigger] cache[j]).0 != origin,
        },
    decreases n,
{
    if n > 0 && cache[n - 1].0 != origin {
        lemma_origin_place(cache, origin, n - 1);
    }
}

proof fn lemma_place_unique(cache: CacheModel, origin: Seq<char>, n: int, i: int)
    requires
        0 <= i < n <= cache.len(),
        cache[i].0 == origin,
        forall|j: int| i < j < n ==> (#[trigger] cache[j]).0 != origin,
    ensures
        origin_place(cache, origin, n) == Some(i),
    decreases n,
{
    if n - 1 > i {
        lemma_place_unique(cache, origin, n - 1, i);
    }
}

proof fn lemma_place_absent(cache: CacheModel, origin: Seq<char>, n: int)
    requires
        0 <= n <= cache.len(),
        forall|j: int| 0 <= j < n ==> (#[trigger] cache[j]).0 != origin,
    ensures
        origin_place(cache, origin, n) is None,
    decreases n,
{
    if n > 0 {
        lemma_place_absent(cache, origin, n - 1);
    }
}

/// Loading an origin gives back the map that was saved for it, and saving
/// for one origin leaves the maps of the others as they were.
pub proof fn law_load_after_save(
    cache: CacheModel,
    origin: Seq<char>,
    map: Entries,
    other: Seq<char>,
)
    ensures
        live_map(with_map(cache, origin, map), origin) == Some(map),
        other != origin ==> live_map(with_map(cache, origin, map), other) == live_map(
            cache,
            other,
        ),
{
    let n = cache.len() as int;
    let after = with_map(cache, origin, map);
    let m = after.len() as int;
    lemma_origin_place(cache, origin, n);
    match origin_place(cache, origin, n) {
        Some(i) => {
            lemma_place_unique(after, origin, m, i);
        },
        None => {
            lemma_place_unique(after, origin, m, n);
        },
    }
    if other != origin {
        lemma_origin_place(cache, other, n);
        match origin_place(cache, other, n) {
            Some(k) => {
                lemma_place_unique(after, other, m, k);
            },
            None => {
                lemma_place_absent(after, other, m);
            },
        }
    }
}

/// The bytes of a text in UTF-8.
pub open spec fn byte_len(s: Seq<char>) -> nat {
    vstd::utf8::encode_utf8(s).len()
}

impl WebStorage {
    /// A store with or without a root directory.
    pub fn new(rooted: bool) -> (r: WebStorage)
        ensures
            r.rooted == rooted,
            cache_models(r.cache@) == Seq::<(Seq<char>, Entries)>::empty(),
    {
        let r = WebStorage { rooted, cache: Vec::new() };
        assert(cache_models(r.cache@) =~= Seq::empty());
        r
    }

    /// Points the store at a root and drops anything cached.
    pub fn set_root(&mut self)
        ensures
            final(self).rooted,
            cache_models(final(self).cache@) == Seq::<(Seq<char>, Entries)>::empty(),
    {
        self.rooted = true;
        self.cache = Vec::new();
        assert(cache_models(self.cache@) =~= Seq::empty());
    }

    fn place(&self, origin: &str) -> (r: Option<usize>)
        ensures
            match r {
                Some(i) => i < self.cache@.len() && origin_place(
                    cache_models(self.cache@),
                    origin@,
                    self.cache@.len() as int,
                ) == Some(i as int),
                None => origin_place(
                    cache_models(self.cache@),
                    origin@,
                    self.cache@.len() as int,
                ) is None,
            },
    {
        let ghost c = cache_models(self.cache@);
        let mut i: usize = self.cache.len();
        while i > 0
            invariant
                i <= self.cache@.len(),
                c == cache_models(self.cache@),
                origin_place(c, origin@, i as int) == origin_place(
                    c,
                    origin@,
                    self.cache@.len() as int,
                ),
            decreases i,
        {
            assert(c[i - 1].0 == self.cache@[i - 1].0@);
            if text::same_str(self.cache[i - 1].0.as_str(), origin) {
                return Some(i - 1);
            }
            i = i - 1;
        }
        None
    }

    fn replace(&mut self, origin: &str, map: StringMap)
        ensures
            cache_models(final(self).cache@) == with_map(
                cache_models(old(self).cache@),
                origin@,
                map@,
            ),
            final(self).rooted == old(self).rooted,
    {
        let ghost c = cache_models(self.cache@);
        match self.place(origin) {
            Some(i) => {
                self.cache.set(i, (origin.to_owned(), map));
            },
            None => {
                self.cache.push((origin.to_owned(), map));
            },
        }
        assert(cache_models(self.cache@) =~= with_map(c, origin@, map@));
    }

    /// Whether an origin's file has to be read before its map is known.
    pub fn needs_file(&self, origin: &str) -> (r: bool)
        ensures
            r == (self.rooted && live_map(cache_models(self.cache@), origin@) is None),
    {
        self.rooted && self.place(origin).is_none()
    }

    /// The live map for `origin`, hydrating from the file's text on first
    /// access. A missing or corrupt file starts empty: storage must never
    /// break page loads.
    pub fn load(&mut self, origin: &str, file: Option<&str>) -> (r: StringMap)
        ensures
            r@ == (match live_map(cache_models(old(self).cache@), origin@) {
                Some(map) => map,
                None => hydrated(
                    match file {
                        Some(t) => Some(t@),
                        None => None,
                    },
                ),
            }),
            live_map(cache_models(final(self).cache@), origin@) == Some(r@),
            final(self).rooted == old(self).rooted,
            live_map(cache_models(old(self).cache@), origin@) is Some ==> *final(self) == *old(
                self,
            ),
            live_map(cache_models(old(self).cache@), origin@) is None ==> cache_models(
                final(self).cache@,
            ) == with_map(cache_models(old(self).cache@), origin@, r@),
    {
        if let Some(i) = self.place(origin) {
            return self.cache[i].1.clone();
        }
        let map = match file {
            Some(source) => match parse_map(source) {
                Ok(map) => map,
                Err(_) => StringMap::new(),
            },
            None => StringMap::new(),
        };
        let copy = map.clone();
        proof {
            law_load_after_save(cache_models(self.cache@), origin@, map@, origin@);
        }
        self.replace(origin, map);
        copy
    }

    /// Replaces `origin`'s map and tells the text to persist, if any: nothing
    /// without a root, and nothing above the size cap (the map still updates
    /// in memory).
    pub fn save(&mut self, origin: &str, map: &StringMap) -> (r: Option<String>)
        ensures
            cache_models(final(self).cache@) == with_map(
                cache_models(old(self).cache@),
                origin@,
                map@,
            ),
            final(self).rooted == old(self).rooted,
            text::opt_text(r) == (if old(self).rooted && byte_len(json_object(map@))
                <= MAX_STORAGE_BYTES {
                Some(json_object(map@))
            } else {
                None
            }),
    {
        self.replace(origin, map.clone());
        if !self.rooted {
            return None;
        }
        let file = serialize_map(map);
        if file.as_str().as_bytes().len() > MAX_STORAGE_BYTES {
            return None;
        }
        Some(file)
    }
}

/// What a file's text is loaded as.
pub open spec fn hydrated(file: Option<Seq<char>>) -> Entries {
    match file {
        Some(t) => match object_model(t) {
            Some(e) => e,
            None => Seq::empty(),
        },
        None => Seq::empty(),
    }
}

/// A file stem keeps ASCII letters, digits, hyphens and dots in place and
/// writes an underscore for every other character.
pub proof fn law_file_stems(origin: Seq<char>, i: int)
    requires
        0 <= i < origin.len(),
    ensures
        slug_model(origin).len() == origin.len(),
        'a' <= origin[i] <= 'z' || 'A' <= origin[i] <= 'Z' || '0' <= origin[i] <= '9' || origin[i]
            == '-' || origin[i] == '.' ==> slug_model(origin)[i] == origin[i],
        !('a' <= origin[i] <= 'z' || 'A' <= origin[i] <= 'Z' || '0' <= origin[i] <= '9' || origin[i]
            == '-' || origin[i] == '.') ==> slug_model(origin)[i] == '_',
{
}

/// Web pages keep their store under their origin; other pages under their
/// scheme and host, so that pages without a host share one store per scheme.
pub proof fn law_stores_belong_to_origins(url: UrlModel)
    ensures
        url.scheme == "http"@ || url.scheme == "https"@ ==> origin_key_model(url) == url.origin,
        url.scheme != "http"@ && url.scheme != "https"@ && url.host is None
            ==> origin_key_model(url) == url.scheme + seq![':', '/', '/'],
        url.scheme != "http"@ && url.scheme != "https"@ && url.host is Some
            ==> origin_key_model(url) == url.scheme + seq![':', '/', '/'] + url.host->0,
{
    reveal_strlit("://");
    assert("://"@ =~= seq![':', '/', '/']);
    assert(url.scheme + "://"@ + Seq::<char>::empty() =~= url.scheme + "://"@);
}

/// In a stored text a quote, a backslash, a line feed, a carriage return and a
/// tab are written by their short escapes, other control characters by their
/// code, and every other character as itself.
pub proof fn law_characters_are_escaped(c: char)
    ensures
        c == '"' ==> escaped(c) == seq!['\\', '"'],
        c == '\\' ==> escaped(c) == seq!['\\', '\\'],
        c == '\n' ==> escaped(c) == seq!['\\', 'n'],
        c == '\r' ==> escaped(c) == seq!['\\', 'r'],
        c == '\t' ==> escaped(c) == seq!['\\', 't'],
        c < ' ' && c != '\n' && c != '\r' && c != '\t' ==> escaped(c).len() == 6
            && escaped(c).take(4) == seq!['\\', 'u', '0', '0'] && (c < '\u{10}' ==> escaped(c)[4]
            == '0') && (c >= '\u{10}' ==> escaped(c)[4] == '1') && (c == '\0' ==> escaped(c)[5]
            == '0') && (c == '\u{1f}' ==> escaped(c)[5] == 'f') && (c == '\u{b}' ==> escaped(c)[5]
            == 'b'),
        c >= ' ' && c != '"' && c != '\\' ==> escaped(c) == seq![c],
{
    if c < ' ' && c != '\n' && c != '\r' && c != '\t' {
        assert(escaped(c).take(4) =~= seq!['\\', 'u', '0', '0']);
    }
}

/// A missing or unreadable file is an empty store, and a readable one holds
/// what was written to it.
pub proof fn law_files_hydrate(e: Entries, s: Seq<char>)
    requires
        string_map::ascending(e),
    ensures
        hydrated(None) == Seq::<(Seq<char>, Seq<char>)>::empty(),
        object_model(s) is None ==> hydrated(Some(s)) == Seq::<(Seq<char>, Seq<char>)>::empty(),
        hydrated(Some(json_object(e))) == e,
{
    law_storage_round_trip(e);
}

/// An origin's file is its stem and `.json`; a store is kept up to five
/// mebibytes.
pub proof fn law_files_are_json(origin: Seq<char>)
    ensures
        text::ends(file_name(origin), ".json"@),
        file_name(origin).len() == origin.len() + 5,
        file_name(origin).take(origin.len() as int) == slug_model(origin),
        MAX_STORAGE_BYTES == 5 * 1024 * 1024,
{
    reveal_strlit(".json");
    assert(".json"@.len() == 5);
    text::law_suffixes(slug_model(origin), ".json"@);
    assert(file_name(origin).take(origin.len() as int) =~= slug_model(origin));
}

} // verus!
