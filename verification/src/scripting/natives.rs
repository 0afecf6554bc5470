//! The natives behind `document.cookie`, `XMLHttpRequest` and `navigator`.
use crate::browser::document;
use crate::browser::request::{self, BodyModel};
use crate::scripting::reads::ReadFailure;
use crate::text;
use vstd::prelude::*;
use vstd::slice::slice_subrange;

verus! {

// ---------------------------------------------------------------------------
// document.cookie
// ---------------------------------------------------------------------------
/// What stands before the first `c`, or all of it, without white space at its
/// ends.
pub open spec fn head(s: Seq<char>, c: char) -> Seq<char> {
    text::trimmed(s.take(text::find_char(s, c, 0)))
}

/// The pairs among the first `n` pieces of a cookie header whose name is
/// another one.
pub open spec fn other_pairs(pieces: Seq<Seq<char>>, name: Seq<char>, n: int) -> Seq<Seq<char>>
    decreases n,
{
    if n <= 0 {
        seq![]
    } else {
        let before = other_pairs(pieces, name, n - 1);
        let pair = text::trimmed(pieces[n - 1]);
        if pair.len() > 0 && head(pair, '=') != name {
            before.push(pair)
        } else {
            before
        }
    }
}

/// The cookie header as the page reads it after a write: rewriting a name
/// replaces its earlier pair instead of duplicating it.
pub open spec fn header_after(header: Seq<char>, written: Seq<char>) -> Seq<char> {
    let pair = head(written, ';');
    if pair.len() == 0 {
        header
    } else {
        let pieces = text::split_all(header, ';');
        text::joined(
            other_pairs(pieces, head(pair, '='), pieces.len() as int).push(pair),
            "; "@,
        )
    }
}

fn read_head(s: &[char], c: char) -> (r: &[char])
    ensures
        r@ == head(s@, c),
{
    let end: usize = text::position(s, c);
    let part = slice_subrange(s, 0, end);
    assert(part@ =~= s@.take(end as int));
    text::trim(part)
}

/// The cookie header as the page reads it after `document.cookie = written`.
pub fn write_cookie(header: &str, written: &str) -> (r: String)
    ensures
        r@ == header_after(header@, written@),
{
    let written_chars = text::chars_of(written);
    let pair = read_head(written_chars.as_slice(), ';');
    if pair.len() == 0 {
        return header.to_owned();
    }
    let name = read_head(pair, '=');
    let chars = text::chars_of(header);
    let pieces = text::split(chars.as_slice(), ';');
    let ghost pv = text::views(pieces@);
    let mut pairs: Vec<String> = Vec::new();
    let mut i: usize = 0;
    assert(text::texts(pairs@) =~= other_pairs(pv, name@, 0));
    while i < pieces.len()
        invariant
            i <= pieces@.len(),
            pv == text::views(pieces@),
            text::texts(pairs@) == other_pairs(pv, name@, i as int),
        decreases pieces@.len() - i,
    {
        assert(pv[i as int] == pieces@[i as int]@);
        let existing = text::trim(pieces[i]);
        if existing.len() > 0 && !text::same(read_head(existing, '='), name) {
            let kept = text::text_of(existing);
            proof {
                text::lemma_texts_push(pairs@, kept);
            }
            pairs.push(kept);
        }
        i = i + 1;
    }
    assert(pv.len() == pieces@.len());
    let own = text::text_of(pair);
    proof {
        text::lemma_texts_push(pairs@, own);
    }
    pairs.push(own);
    text::join(pairs.as_slice(), "; ")
}

// ---------------------------------------------------------------------------
// XMLHttpRequest
// ---------------------------------------------------------------------------
/// The headers of a flat list of names and values; a name without a value has
/// an empty one.
pub open spec fn paired(items: Seq<Seq<char>>) -> Seq<(Seq<char>, Seq<char>)> {
    Seq::new(
        ((items.len() + 1) / 2) as nat,
        |k: int|
            (
                items[2 * k],
                if 2 * k + 1 < items.len() {
                    items[2 * k + 1]
                } else {
                    Seq::empty()
                },
            ),
    )
}

/// The headers of a flat list of names and values.
pub fn pair_headers(items: &Vec<String>) -> (r: Vec<(String, String)>)
    ensures
        document::pair_models(r@) == paired(text::texts(items@)),
{
    let ghost iv = text::texts(items@);
    let total: usize = items.len();
    let mut headers: Vec<(String, String)> = Vec::new();
    let mut i: usize = 0;
    while i < total
        invariant
            total == items@.len(),
            iv == text::texts(items@),
            headers@.len() == (i + 1) / 2,
            i % 2 == 0 || i == total,
            i <= total,
            forall|k: int|
                0 <= k < headers@.len() ==> (#[trigger] headers@[k]).0@ == iv[2 * k]
                    && headers@[k].1@ == (if 2 * k + 1 < iv.len() {
                    iv[2 * k + 1]
                } else {
                    Seq::empty()
                }),
        decreases total - i,
    {
        let name = items[i].clone();
        if i + 1 < total {
            headers.push((name, items[i + 1].clone()));
            i = i + 2;
        } else {
            let value = String::new();
            assert(value@ =~= Seq::<char>::empty());
            headers.push((name, value));
            i = i + 1;
        }
    }
    assert(document::pair_models(headers@) =~= paired(iv));
    headers
}

/// The value of the first header, from place `i` on, that gives the content
/// type.
pub open spec fn content_type_of(headers: Seq<(Seq<char>, Seq<char>)>, i: int) -> Seq<char>
    decreases headers.len() - i,
{
    if i < 0 || i >= headers.len() {
        "text/plain;charset=UTF-8"@
    } else if text::eq_ci(headers[i].0, "content-type"@) {
        headers[i].1
    } else {
        content_type_of(headers, i + 1)
    }
}

/// The request body for the wire: GET/HEAD never carry one; the Content-Type
/// header, if set, becomes the body's content type.
pub open spec fn xhr_body_model(
    method: Seq<char>,
    headers: Seq<(Seq<char>, Seq<char>)>,
    body: Option<Seq<char>>,
) -> BodyModel {
    if method.len() == 0 || method == "GET"@ || method == "HEAD"@ {
        None
    } else {
        Some(
            (
                content_type_of(headers, 0),
                vstd::utf8::encode_utf8(
                    match body {
                        Some(b) => b,
                        None => Seq::empty(),
                    },
                ),
            ),
        )
    }
}

fn bytes_of(s: &str) -> (r: Vec<u8>)
    ensures
        r@ == vstd::utf8::encode_utf8(s@),
{
    let bytes = s.as_bytes();
    let mut r: Vec<u8> = Vec::new();
    let mut i: usize = 0;
    while i < bytes.len()
        invariant
            i <= bytes@.len(),
            r@ == bytes@.take(i as int),
        decreases bytes@.len() - i,
    {
        r.push(bytes[i]);
        i = i + 1;
        assert(bytes@.take(i as int) =~= bytes@.take(i - 1).push(bytes@[i - 1]));
    }
    assert(bytes@.take(bytes@.len() as int) =~= bytes@);
    r
}

/// The request body for the wire.
pub fn xhr_body(method: &str, headers: &Vec<(String, String)>, body: &Option<String>) -> (r: Option<
    (String, Vec<u8>),
>)
    ensures
        request::body_model(r) == xhr_body_model(
            method@,
            document::pair_models(headers@),
            text::opt_text(*body),
        ),
{
    if method.is_empty() || text::same_str(method, "GET") || text::same_str(method, "HEAD") {
        return None;
    }
    let ghost hv = document::pair_models(headers@);
    let mut content_type = "text/plain;charset=UTF-8".to_owned();
    let mut i: usize = 0;
    let mut searching = true;
    while searching && i < headers.len()
        invariant
            i <= headers@.len(),
            hv == document::pair_models(headers@),
            searching ==> content_type_of(hv, i as int) == content_type_of(hv, 0),
            searching ==> content_type@ == "text/plain;charset=UTF-8"@,
            !searching ==> content_type@ == content_type_of(hv, 0),
        decreases headers@.len() - i,
    {
        assert(hv[i as int] == (headers@[i as int].0@, headers@[i as int].1@));
        let chars = text::chars_of(headers[i].0.as_str());
        if text::is_word_ci(chars.as_slice(), "content-type") {
            content_type = headers[i].1.clone();
            searching = false;
        }
        i = i + 1;
    }
    let bytes = match body {
        Some(b) => bytes_of(b.as_str()),
        None => {
            let empty = String::new();
            assert(empty@ =~= Seq::<char>::empty());
            bytes_of(empty.as_str())
        },
    };
    Some((content_type, bytes))
}

pub open spec fn upper(c: char) -> char {
    if 'a' <= c <= 'z' {
        (c as u32 - 32) as char
    } else {
        c
    }
}

/// The method that `xhr.open` takes: in upper case.
pub open spec fn method_model(method: Seq<char>) -> Seq<char> {
    Seq::new(method.len(), |i: int| upper(method[i]))
}

/// The method that `xhr.open` takes.
pub fn xhr_method(method: &str) -> (r: String)
    ensures
        r@ == method_model(method@),
{
    let chars = text::chars_of(method);
    let mut r = String::new();
    let mut i: usize = 0;
    while i < chars.len()
        invariant
            i <= chars@.len(),
            r@ == method_model(chars@.take(i as int)),
        decreases chars@.len() - i,
    {
        let c = chars[i];
        if 'a' <= c && c <= 'z' {
            r.push((c as u8 - 32) as char);
        } else {
            r.push(c);
        }
        i = i + 1;
        assert(r@ =~= method_model(chars@.take(i as int)));
    }
    assert(chars@.take(chars@.len() as int) =~= chars@);
    r
}

/// Whether the `credentials` option of a fetch lets cookies ride across
/// origins; only `include` does.
pub open spec fn asks_for_cookies(option: Option<Seq<char>>) -> bool {
    option matches Some(o) && o == "include"@
}

/// Whether the `credentials` option of a fetch lets cookies ride across
/// origins.
pub fn fetch_credentials(option: Option<&str>) -> (r: bool)
    ensures
        r == asks_for_cookies(
            match option {
                Some(o) => Some(o@),
                None => None,
            },
        ),
{
    match option {
        Some(o) => text::same_str(o, "include"),
        None => false,
    }
}

/// What a finished round trip makes of an XHR object: its status, its text
/// where there is one, and the handler that fires behind
/// `onreadystatechange`. `readyState` is 4 then.
#[derive(Debug)]
pub struct XhrSettlement {
    pub status: u16,
    pub text: Option<String>,
    pub handler: &'static str,
    pub event: &'static str,
}

pub struct SettlementModel {
    pub status: u16,
    pub text: Option<Seq<char>>,
    pub handler: Seq<char>,
    pub event: Seq<char>,
}

impl View for XhrSettlement {
    type V = SettlementModel;

    open spec fn view(&self) -> SettlementModel {
        SettlementModel {
            status: self.status,
            text: text::opt_text(self.text),
            handler: self.handler@,
            event: self.event@,
        }
    }
}

/// What a round trip makes of an XHR object, by the text that it brought, if
/// it brought one.
pub open spec fn settlement(body: Option<Seq<char>>) -> SettlementModel {
    match body {
        Some(_) => SettlementModel {
            status: 200,
            text: body,
            handler: "onload"@,
            event: "load"@,
        },
        None => SettlementModel {
            status: 0,
            text: None,
            handler: "onerror"@,
            event: "error"@,
        },
    }
}

/// Applies a completed XHR round trip.
pub fn settle_xhr(result: Result<String, ReadFailure>) -> (r: XhrSettlement)
    ensures
        r@ == settlement(
            match result {
                Ok(body) => Some(body@),
                Err(_) => None,
            },
        ),
{
    match result {
        Ok(body) => XhrSettlement {
            status: 200,
            text: Some(body),
            handler: "onload",
            event: "load",
        },
        Err(_) => XhrSettlement { status: 0, text: None, handler: "onerror", event: "error" },
    }
}

// ---------------------------------------------------------------------------
// navigator
// ---------------------------------------------------------------------------
/// The UA string that `navigator.userAgent` reports.
pub const USER_AGENT: &'static str = "Lumen/0.1 (educational)";

/// `navigator.platform` for an operating system, following the classic
/// (frozen) web values.
pub open spec fn platform_model(os: Seq<char>) -> Seq<char> {
    if os == "macos"@ {
        "MacIntel"@
    } else if os == "windows"@ {
        "Win32"@
    } else if os == "linux"@ {
        "Linux x86_64"@
    } else {
        ""@
    }
}

/// `navigator.platform` for an operating system.
pub fn platform(os: &str) -> (r: &'static str)
    ensures
        r@ == platform_model(os@),
{
    if text::same_str(os, "macos") {
        "MacIntel"
    } else if text::same_str(os, "windows") {
        "Win32"
    } else if text::same_str(os, "linux") {
        "Linux x86_64"
    } else {
        ""
    }
}

// ---------------------------------------------------------------------------
// Laws
// ---------------------------------------------------------------------------
proof fn lemma_other_pairs(pieces: Seq<Seq<char>>, name: Seq<char>, n: int)
    requires
        0 <= n <= pieces.len(),
    ensures
        forall|i: int|
            0 <= i < other_pairs(pieces, name, n).len() ==> head(
                #[trigger] other_pairs(pieces, name, n)[i],
                '=',
            ) != name,
    decreases n,
{
    if n > 0 {
        lemma_other_pairs(pieces, name, n - 1);
        let before = other_pairs(pieces, name, n - 1);
        let after = other_pairs(pieces, name, n);
        assert forall|i: int| 0 <= i < after.len() implies head(#[trigger] after[i], '=')
            != name by {
            if i < before.len() {
                assert(after[i] == before[i]);
            }
        }
    }
}

/// Within the entry that wrote it, a cookie is on the header once and last:
/// no other pair on the header has its name.
pub proof fn law_rewritten_cookies_do_not_pile_up(header: Seq<char>, written: Seq<char>, i: int)
    requires
        head(written, ';').len() > 0,
    ensures
        ({
            let pieces = text::split_all(header, ';');
            let name = head(head(written, ';'), '=');
            let pairs = other_pairs(pieces, name, pieces.len() as int).push(head(written, ';'));
            &&& header_after(header, written) == text::joined(pairs, "; "@)
            &&& pairs.last() == head(written, ';')
            &&& 0 <= i < pairs.len() - 1 ==> head(pairs[i], '=') != name
        }),
{
    let pieces = text::split_all(header, ';');
    lemma_other_pairs(pieces, head(head(written, ';'), '='), pieces.len() as int);
}

/// A request without a method, a `GET` and a `HEAD` carry no body; every other
/// request carries the bytes of its text, none where there is none.
pub proof fn law_only_other_methods_carry_a_body(
    method: Seq<char>,
    headers: Seq<(Seq<char>, Seq<char>)>,
    body: Option<Seq<char>>,
)
    ensures
        xhr_body_model(method, headers, body) is None <==> method.len() == 0 || method == "GET"@
            || method == "HEAD"@,
        xhr_body_model(method, headers, body) matches Some((_, bytes)) ==> (match body {
            Some(text) => bytes == vstd::utf8::encode_utf8(text),
            None => bytes == vstd::utf8::encode_utf8(Seq::empty()),
        }),
{
}

/// A body's type is the value of the first content type header, its name in
/// any case; without one it is plain text in UTF-8.
pub proof fn law_bodies_have_the_first_content_type(
    headers: Seq<(Seq<char>, Seq<char>)>,
    i: int,
    k: int,
)
    requires
        0 <= i <= k <= headers.len(),
        forall|j: int|
            i <= j < k ==> text::lowered((#[trigger] headers[j]).0) != "content-type"@,
        k < headers.len() ==> text::lowered(headers[k].0) == "content-type"@,
    ensures
        k < headers.len() ==> content_type_of(headers, i) == headers[k].1,
        k == headers.len() ==> content_type_of(headers, i) == "text/plain;charset=UTF-8"@,
    decreases k - i,
{
    reveal_strlit("content-type");
    assert(text::lowered("content-type"@) =~= "content-type"@);
    if i < k {
        assert(text::lowered(headers[i].0) != "content-type"@);
        law_bodies_have_the_first_content_type(headers, i + 1, k);
    }
}

/// A method is sent in capitals: small ASCII letters become capitals, every
/// other character stays.
pub proof fn law_methods_are_sent_in_capitals(method: Seq<char>, i: int)
    requires
        0 <= i < method.len(),
    ensures
        method_model(method).len() == method.len(),
        'a' <= method[i] <= 'z' ==> method_model(method)[i] as u32 == method[i] as u32 - 32
            && 'A' <= method_model(method)[i] <= 'Z',
        !('a' <= method[i] <= 'z') ==> method_model(method)[i] == method[i],
{
}

/// A flat list is read as names and values by turns; a last name without a
/// value has an empty one.
pub proof fn law_flat_lists_pair_up(items: Seq<Seq<char>>, k: int)
    ensures
        paired(items).len() * 2 == items.len() || paired(items).len() * 2 == items.len() + 1,
        0 <= k && 2 * k + 1 < items.len() ==> paired(items)[k] == (items[2 * k], items[2 * k + 1]),
        0 <= k && 2 * k + 1 == items.len() ==> paired(items)[k].0 == items[2 * k] && paired(
            items,
        )[k].1.len() == 0,
{
}

/// The three known systems have their classic platform names; any other has
/// none.
pub proof fn law_platforms(os: Seq<char>)
    ensures
        os == "macos"@ ==> platform_model(os) == "MacIntel"@,
        os == "windows"@ ==> platform_model(os) == "Win32"@,
        os == "linux"@ ==> platform_model(os) == "Linux x86_64"@,
        os != "macos"@ && os != "windows"@ && os != "linux"@ ==> platform_model(os).len() == 0,
{
    reveal_strlit("macos");
    reveal_strlit("windows");
    reveal_strlit("linux");
    reveal_strlit("");
    assert("macos"@[0] == 'm' && "linux"@[0] == 'l' && "windows"@.len() == 7);
    assert("macos"@.len() == 5 && "linux"@.len() == 5);
}

/// Writing a cookie without a name or a value changes nothing; writing one on
/// an empty header makes it the header, without its attributes.
pub proof fn law_first_cookie_is_the_header(written: Seq<char>)
    ensures
        head(written, ';').len() == 0 ==> header_after(Seq::empty(), written).len() == 0,
        head(written, ';').len() > 0 ==> header_after(Seq::empty(), written) == head(written, ';'),
{
    let none = Seq::<char>::empty();
    let pieces = text::split_all(none, ';');
    assert(pieces =~= seq![none.subrange(0, 0)]);
    assert(none.subrange(0, 0) =~= none);
    let name = head(head(written, ';'), '=');
    assert(text::trimmed(none).len() == 0);
    assert(other_pairs(pieces, name, 0) =~= seq![]);
    assert(other_pairs(pieces, name, 1) =~= seq![]);
}

/// Cookies ride across origins where a fetch says `include`, and not where it
/// says anything else or nothing.
pub proof fn law_only_one_option_takes_cookies_along(option: Seq<char>)
    ensures
        asks_for_cookies(Some(option)) <==> option == seq!['i', 'n', 'c', 'l', 'u', 'd', 'e'],
        !asks_for_cookies(None),
{
    reveal_strlit("include");
    assert("include"@ =~= seq!['i', 'n', 'c', 'l', 'u', 'd', 'e']);
}

/// A request that was answered has the status of a success and its text, and
/// its load handler fires; one that failed has no status and no text, and its
/// error handler fires.
pub proof fn law_requests_settle(body: Seq<char>)
    ensures
        ({
            let s = settlement(Some(body));
            s.status == 200 && s.text == Some(body) && s.handler == "onload"@ && s.event == "load"@
        }),
        ({
            let s = settlement(None);
            s.status == 0 && s.text is None && s.handler == "onerror"@ && s.event == "error"@
        }),
{
}

} // verus!
