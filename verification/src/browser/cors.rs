//! The same-origin policy of script reads: which requests may cross origins,
//! with which cookies, and which responses a page's script may see.
use crate::browser::document;
use crate::browser::url::{Url, UrlModel};
use crate::text;
use crate::css::lengths;
use vstd::prelude::*;

verus! {

/// How a script read (fetch/XHR) treats cookies on a cross-origin
/// request — the fetch API's `credentials` option.
#[derive(Debug, Clone, Copy, PartialEq, Eq, Structural)]
pub enum ScriptCredentials {
    /// The default (`credentials: "same-origin"`): cookies ride only
    /// same-origin requests.
    SameOrigin,
    /// `credentials: "include"` (or XHR `withCredentials`): cookies
    /// ride cross-origin requests too — and the CORS grant must then
    /// name the page origin exactly (`*` is not enough).
    Include,
}

/// Scheme/host/port equality.
pub open spec fn origins_equal(a: UrlModel, b: UrlModel) -> bool {
    a.scheme == b.scheme && a.host == b.host && a.port == b.port
}

fn same_host(a: &Option<String>, b: &Option<String>) -> (r: bool)
    ensures
        r == (text::opt_text(*a) == text::opt_text(*b)),
{
    match (a, b) {
        (Some(a), Some(b)) => text::same_str(a.as_str(), b.as_str()),
        (None, None) => true,
        _ => false,
    }
}

/// Scheme/host/port equality.
pub fn same_origin(a: &Url, b: &Url) -> (r: bool)
    ensures
        r == origins_equal(a@, b@),
{
    text::same_str(a.scheme.as_str(), b.scheme.as_str()) && same_host(&a.host, &b.host) && a.port
        == b.port
}

// ---------------------------------------------------------------------------
// Simple requests
// ---------------------------------------------------------------------------
/// A CORS-safelisted ("simple") Content-Type value, parameters ignored.
pub open spec fn is_simple_type(value: Seq<char>) -> bool {
    let mime = text::trimmed(value.take(text::find_char(value, ';', 0)));
    ||| text::eq_ci(mime, "text/plain"@)
    ||| text::eq_ci(mime, "application/x-www-form-urlencoded"@)
    ||| text::eq_ci(mime, "multipart/form-data"@)
}

/// A CORS-safelisted request header.
pub open spec fn is_safelisted(name: Seq<char>, value: Seq<char>) -> bool {
    ||| text::lowered(name) == "accept"@
    ||| text::lowered(name) == "accept-language"@
    ||| text::lowered(name) == "content-language"@
    ||| text::lowered(name) == "range"@
    ||| text::eq_ci(name, "content-type"@) && is_simple_type(value)
}

pub open spec fn is_simple_method(method: Seq<char>) -> bool {
    method == "GET"@ || method == "HEAD"@ || method == "POST"@
}

pub type Headers = Seq<(Seq<char>, Seq<char>)>;

pub open spec fn all_safelisted(headers: Headers) -> bool {
    forall|i: int|
        0 <= i < headers.len() ==> is_safelisted((#[trigger] headers[i]).0, headers[i].1)
}

/// The content type of a request's body, if it has one.
pub open spec fn body_type(body: Option<(String, Vec<u8>)>) -> Option<Seq<char>> {
    match body {
        Some((content_type, _)) => Some(content_type@),
        None => None,
    }
}

/// Whether a request has to be announced by a preflight probe.
pub open spec fn wants_preflight(
    method: Seq<char>,
    content_type: Option<Seq<char>>,
    headers: Headers,
) -> bool {
    ||| !is_simple_method(method)
    ||| !all_safelisted(headers)
    ||| content_type matches Some(t) && !is_simple_type(t)
}

/// A CORS-safelisted ("simple") Content-Type value, parameters ignored.
pub fn simple_content_type(value: &str) -> (r: bool)
    ensures
        r == is_simple_type(value@),
{
    let chars = text::chars_of(value);
    let end: usize = text::position(chars.as_slice(), ';');
    let mime = text::trim(vstd::slice::slice_subrange(chars.as_slice(), 0, end));
    assert(chars@.subrange(0, end as int) =~= chars@.take(end as int));
    text::is_word_ci(mime, "text/plain") || text::is_word_ci(
        mime,
        "application/x-www-form-urlencoded",
    ) || text::is_word_ci(mime, "multipart/form-data")
}

/// A CORS-safelisted request header: Accept, Accept-Language,
/// Content-Language, Range, or Content-Type with a simple value.
pub fn safelisted_header(name: &str, value: &str) -> (r: bool)
    ensures
        r == is_safelisted(name@, value@),
{
    let chars = text::chars_of(name);
    let low = text::to_lowered(chars.as_slice());
    let word = low.as_slice();
    text::is_word(word, "accept") || text::is_word(word, "accept-language") || text::is_word(
        word,
        "content-language",
    ) || text::is_word(word, "range") || (text::is_word_ci(chars.as_slice(), "content-type")
        && simple_content_type(value))
}

/// The CORS "simple request" test: only these may cross origins
/// without a preflight probe.
pub fn needs_preflight(
    method: &str,
    body: &Option<(String, Vec<u8>)>,
    headers: &Vec<(String, String)>,
) -> (r: bool)
    ensures
        r == wants_preflight(method@, body_type(*body), document::pair_models(headers@)),
{
    if !(text::same_str(method, "GET") || text::same_str(method, "HEAD") || text::same_str(
        method,
        "POST",
    )) {
        return true;
    }
    let ghost hv = document::pair_models(headers@);
    let mut i: usize = 0;
    while i < headers.len()
        invariant
            i <= headers@.len(),
            hv == document::pair_models(headers@),
            forall|j: int| 0 <= j < i ==> is_safelisted((#[trigger] hv[j]).0, hv[j].1),
        decreases headers@.len() - i,
    {
        if !safelisted_header(headers[i].0.as_str(), headers[i].1.as_str()) {
            assert(!is_safelisted(hv[i as int].0, hv[i as int].1));
            return true;
        }
        i = i + 1;
    }
    match body {
        Some((content_type, _)) => !simple_content_type(content_type.as_str()),
        None => false,
    }
}

/// The names of the first `n` headers that are not safelisted, in lower case.
pub open spec fn custom_names(headers: Headers, n: int) -> Seq<Seq<char>>
    decreases n,
{
    if n <= 0 {
        seq![]
    } else {
        let before = custom_names(headers, n - 1);
        if is_safelisted(headers[n - 1].0, headers[n - 1].1) {
            before
        } else {
            before.push(text::lowered(headers[n - 1].0))
        }
    }
}

/// The names of the headers that are not safelisted, in lower case.
pub fn custom_headers(headers: &Vec<(String, String)>) -> (r: Vec<String>)
    ensures
        text::texts(r@) == custom_names(document::pair_models(headers@), headers@.len() as int),
{
    let ghost hv = document::pair_models(headers@);
    let mut names: Vec<String> = Vec::new();
    let mut i: usize = 0;
    assert(text::texts(names@) =~= custom_names(hv, 0));
    while i < headers.len()
        invariant
            i <= headers@.len(),
            hv == document::pair_models(headers@),
            text::texts(names@) == custom_names(hv, i as int),
        decreases headers@.len() - i,
    {
        if !safelisted_header(headers[i].0.as_str(), headers[i].1.as_str()) {
            let chars = text::chars_of(headers[i].0.as_str());
            let low = text::to_lowered(chars.as_slice());
            let name = text::text_of(low.as_slice());
            proof {
                text::lemma_texts_push(names@, name);
            }
            names.push(name);
        }
        i = i + 1;
    }
    names
}

// ---------------------------------------------------------------------------
// Preflight and checks
// ---------------------------------------------------------------------------
/// A preflight probe: what the request is going to use.
#[derive(Debug)]
pub struct CorsPreflight {
    pub url: Url,
    pub method: String,
    /// The custom headers of the request, in lower case.
    pub headers: Vec<String>,
}

#[verifier::ext_equal]
pub struct PreflightModel {
    pub url: UrlModel,
    pub method: Seq<char>,
    pub headers: Seq<Seq<char>>,
}

impl View for CorsPreflight {
    type V = PreflightModel;

    open spec fn view(&self) -> PreflightModel {
        PreflightModel {
            url: self.url@,
            method: self.method@,
            headers: text::texts(self.headers@),
        }
    }
}

impl Clone for CorsPreflight {
    fn clone(&self) -> (r: CorsPreflight)
        ensures
            r@ == self@,
    {
        let mut headers: Vec<String> = Vec::new();
        let mut i: usize = 0;
        while i < self.headers.len()
            invariant
                i <= self.headers@.len(),
                headers@.len() == i,
                forall|k: int| 0 <= k < i ==> (#[trigger] headers@[k])@ == self.headers@[k]@,
            decreases self.headers@.len() - i,
        {
            headers.push(self.headers[i].clone());
            i = i + 1;
        }
        assert(text::texts(headers@) =~= text::texts(self.headers@));
        CorsPreflight { url: self.url.clone(), method: self.method.clone(), headers }
    }
}

/// What a server answered to a preflight probe, in lower case but for the
/// origin.
#[derive(Debug)]
pub struct CorsGrant {
    pub allow_origin: Option<String>,
    pub allow_methods: Vec<String>,
    pub allow_headers: Vec<String>,
}

#[verifier::ext_equal]
pub struct GrantModel {
    pub allow_origin: Option<Seq<char>>,
    pub allow_methods: Seq<Seq<char>>,
    pub allow_headers: Seq<Seq<char>>,
}

impl View for CorsGrant {
    type V = GrantModel;

    open spec fn view(&self) -> GrantModel {
        GrantModel {
            allow_origin: text::opt_text(self.allow_origin),
            allow_methods: text::texts(self.allow_methods@),
            allow_headers: text::texts(self.allow_headers@),
        }
    }
}

/// Whether a list of grants names a word, or everything by `*` where the
/// read is not credentialed.
pub open spec fn list_covers(list: Seq<Seq<char>>, word: Seq<char>, credentialed: bool) -> bool {
    list.contains(word) || (!credentialed && list.contains("*"@))
}

impl GrantModel {
    /// Whether the grant covers a method and custom headers.
    pub open spec fn covers(
        self,
        method: Seq<char>,
        headers: Seq<Seq<char>>,
        credentialed: bool,
    ) -> bool {
        &&& list_covers(self.allow_methods, text::lowered(method), credentialed)
        &&& forall|i: int|
            0 <= i < headers.len() ==> list_covers(
                self.allow_headers,
                #[trigger] headers[i],
                credentialed,
            )
    }
}

fn list_has(list: &Vec<String>, word: &str) -> (r: bool)
    ensures
        r == text::texts(list@).contains(word@),
{
    let ghost lv = text::texts(list@);
    let mut i: usize = 0;
    while i < list.len()
        invariant
            i <= list@.len(),
            lv == text::texts(list@),
            forall|j: int| 0 <= j < i ==> #[trigger] lv[j] != word@,
        decreases list@.len() - i,
    {
        if text::same_str(list[i].as_str(), word) {
            assert(lv[i as int] == word@);
            return true;
        }
        i = i + 1;
    }
    false
}

impl CorsGrant {
    /// Whether the grant covers a method and custom headers.
    pub fn covers(&self, method: &str, headers: &Vec<String>, credentialed: bool) -> (r: bool)
        ensures
            r == self@.covers(method@, text::texts(headers@), credentialed),
    {
        let chars = text::chars_of(method);
        let low = text::to_lowered(chars.as_slice());
        let word = text::text_of(low.as_slice());
        if !(list_has(&self.allow_methods, word.as_str()) || (!credentialed && list_has(
            &self.allow_methods,
            "*",
        ))) {
            return false;
        }
        let ghost hv = text::texts(headers@);
        let mut i: usize = 0;
        while i < headers.len()
            invariant
                i <= headers@.len(),
                hv == text::texts(headers@),
                forall|j: int|
                    0 <= j < i ==> list_covers(
                        self@.allow_headers,
                        #[trigger] hv[j],
                        credentialed,
                    ),
            decreases headers@.len() - i,
        {
            if !(list_has(&self.allow_headers, headers[i].as_str()) || (!credentialed && list_has(
                &self.allow_headers,
                "*",
            ))) {
                assert(!list_covers(self@.allow_headers, hv[i as int], credentialed));
                return false;
            }
            i = i + 1;
        }
        true
    }
}

/// The same-origin-policy state of a prepared cross-origin script
/// read. Same-origin reads never produce one.
#[derive(Debug)]
pub struct CorsCheck {
    /// The page's serialized origin ("scheme://host[:port]"), matched
    /// against the response's `Access-Control-Allow-Origin` header.
    pub page_origin: String,
    /// Cookies rode the request (`credentials: include`).
    pub credentialed: bool,
    /// Set when the request is not a CORS "simple request" and no
    /// preflight grant for it is cached yet: the probe must be answered
    /// (and pass [`CorsCheck::preflight_blocks`]) before the request goes
    /// out.
    pub preflight: Option<CorsPreflight>,
}

pub struct CheckModel {
    pub page_origin: Seq<char>,
    pub credentialed: bool,
    pub preflight: Option<PreflightModel>,
}

pub open spec fn opt_preflight(p: Option<CorsPreflight>) -> Option<PreflightModel> {
    match p {
        Some(p) => Some(p@),
        None => None,
    }
}

impl View for CorsCheck {
    type V = CheckModel;

    open spec fn view(&self) -> CheckModel {
        CheckModel {
            page_origin: self.page_origin@,
            credentialed: self.credentialed,
            preflight: opt_preflight(self.preflight),
        }
    }
}

impl CheckModel {
    /// The grant must name the page's exact origin, or be `*` for a
    /// non-credentialed read.
    pub open spec fn grants(self, origin: Seq<char>) -> bool {
        let grant = text::trimmed(origin);
        grant == self.page_origin || (grant == "*"@ && !self.credentialed)
    }

    /// Whether a response may be read, by its `Access-Control-Allow-Origin`.
    pub open spec fn readable(self, allow_origin: Option<Seq<char>>) -> bool {
        allow_origin matches Some(origin) && self.grants(origin)
    }

    /// Whether an answered probe lets the request out.
    pub open spec fn probe_passes(self, grant: GrantModel) -> bool {
        match self.preflight {
            Some(probe) => self.readable(grant.allow_origin) && grant.covers(
                probe.method,
                probe.headers,
                self.credentialed,
            ),
            None => true,
        }
    }
}

impl CorsCheck {
    fn origin_granted(&self, grant: &str) -> (r: bool)
        ensures
            r == self@.grants(grant@),
    {
        let chars = text::chars_of(grant);
        let trimmed = text::trim(chars.as_slice());
        text::is_word(trimmed, self.page_origin.as_str()) || (text::is_word(trimmed, "*")
            && !self.credentialed)
    }

    /// Whether CORS forbids the page's script from reading a response with
    /// this `Access-Control-Allow-Origin`: it must be `*` (only for
    /// non-credentialed reads) or the page's exact origin.
    pub fn blocks(&self, allow_origin: &Option<String>) -> (r: bool)
        ensures
            r == !self@.readable(text::opt_text(*allow_origin)),
    {
        match allow_origin {
            Some(grant) => !self.origin_granted(grant.as_str()),
            None => true,
        }
    }

    /// Takes the preflight probe out of the check, when one is needed:
    /// the caller submits the probe and, once granted, resubmits the
    /// request with the probe-less check gating the actual response.
    pub fn take_preflight(&mut self) -> (r: Option<CorsPreflight>)
        ensures
            opt_preflight(r) == old(self)@.preflight,
            final(self)@ == (CheckModel { preflight: None, ..old(self)@ }),
    {
        self.preflight.take()
    }

    /// Whether an answered preflight still forbids the read: its grant
    /// must pass the origin rule AND cover the request's method and
    /// custom headers.
    pub fn preflight_blocks(&self, grant: &CorsGrant) -> (r: bool)
        ensures
            r == !self@.probe_passes(grant@),
    {
        match &self.preflight {
            Some(probe) => self.blocks(&grant.allow_origin) || !grant.covers(
                probe.method.as_str(),
                &probe.headers,
                self.credentialed,
            ),
            None => false,
        }
    }
}

// ---------------------------------------------------------------------------
// Laws
// ---------------------------------------------------------------------------
/// Same origin is an equivalence.
pub proof fn law_same_origin_is_an_equivalence(a: UrlModel, b: UrlModel, c: UrlModel)
    ensures
        origins_equal(a, a),
        origins_equal(a, b) == origins_equal(b, a),
        origins_equal(a, b) && origins_equal(b, c) ==> origins_equal(a, c),
{
}

/// A credentialed read is open only to a grant of the page's own origin,
/// whatever else a server allows.
pub proof fn law_wildcard_never_grants_credentials(check: CheckModel, origin: Seq<char>)
    requires
        check.credentialed,
    ensures
        check.grants(origin) == (text::trimmed(origin) == check.page_origin),
{
}

/// A response without a grant is never readable.
pub proof fn law_no_grant_no_read(check: CheckModel)
    ensures
        !check.readable(None),
{
}

/// What a credentialed grant covers, the same grant covers without
/// credentials.
pub proof fn law_credentials_only_narrow(
    grant: GrantModel,
    method: Seq<char>,
    headers: Seq<Seq<char>>,
)
    ensures
        grant.covers(method, headers, true) ==> grant.covers(method, headers, false),
{
    if grant.covers(method, headers, true) {
        assert forall|i: int| 0 <= i < headers.len() implies list_covers(
            grant.allow_headers,
            #[trigger] headers[i],
            false,
        ) by {
            assert(list_covers(grant.allow_headers, headers[i], true));
        }
    }
}

/// A simple request names no custom header.
pub proof fn law_simple_requests_have_no_custom_headers(headers: Headers, n: int)
    requires
        0 <= n <= headers.len(),
        all_safelisted(headers),
    ensures
        custom_names(headers, n) == Seq::<Seq<char>>::empty(),
    decreases n,
{
    if n > 0 {
        law_simple_requests_have_no_custom_headers(headers, n - 1);
        assert(is_safelisted(headers[n - 1].0, headers[n - 1].1));
    }
}

/// The types of a body that a simple request may have.
pub open spec fn plain_type(t: Seq<char>) -> bool {
    ||| t == "text/plain"@
    ||| t == "application/x-www-form-urlencoded"@
    ||| t == "multipart/form-data"@
}

/// A content type is simple by what stands before its parameters, in any case:
/// plain text and the two forms are, every other type is not.
pub proof fn law_content_types_go_by_their_bare_type(t: Seq<char>, parameters: Seq<char>)
    requires
        t.len() > 0,
        !t.contains(';'),
        !text::is_space(t[0]),
        !text::is_space(t.last()),
    ensures
        is_simple_type(t) == plain_type(text::lowered(t)),
        is_simple_type(t + seq![';'] + parameters) == plain_type(text::lowered(t)),
{
    reveal_strlit("text/plain");
    reveal_strlit("application/x-www-form-urlencoded");
    reveal_strlit("multipart/form-data");
    assert(text::lowered("text/plain"@) =~= "text/plain"@);
    assert(text::lowered("application/x-www-form-urlencoded"@)
        =~= "application/x-www-form-urlencoded"@);
    assert(text::lowered("multipart/form-data"@) =~= "multipart/form-data"@);
    lengths::lemma_untrimmed(t);
    let n = t.len() as int;
    text::lemma_find_char(t, ';', 0);
    assert(text::find_char(t, ';', 0) == n);
    assert(t.take(n) =~= t);
    let long = t + seq![';'] + parameters;
    text::lemma_find_char(long, ';', 0);
    assert(long[n] == ';');
    let at = text::find_char(long, ';', 0);
    if at < n {
        assert(long[at] == t[at]);
    }
    assert(long.take(n) =~= t);
}

/// The headers that a simple request may have, whatever their value.
pub open spec fn plain_header(name: Seq<char>) -> bool {
    ||| name == "accept"@
    ||| name == "accept-language"@
    ||| name == "content-language"@
    ||| name == "range"@
}

/// A request goes out without a probe exactly where its method is `GET`,
/// `HEAD` or `POST`, each header is one of the plain ones or a content type
/// that is simple, in any case, and its body, if it has one, is of a simple
/// type.
pub proof fn law_simple_requests_need_no_probe(
    method: Seq<char>,
    content_type: Option<Seq<char>>,
    headers: Headers,
)
    ensures
        !wants_preflight(method, content_type, headers) <==> {
            &&& method == "GET"@ || method == "HEAD"@ || method == "POST"@
            &&& forall|i: int|
                0 <= i < headers.len() ==> {
                    let name = text::lowered((#[trigger] headers[i]).0);
                    plain_header(name) || (name == "content-type"@ && is_simple_type(headers[i].1))
                }
            &&& content_type matches Some(t) ==> is_simple_type(t)
        },
{
    reveal_strlit("content-type");
    assert(text::lowered("content-type"@) =~= "content-type"@);
    if !wants_preflight(method, content_type, headers) {
        assert forall|i: int| 0 <= i < headers.len() implies {
            let name = text::lowered((#[trigger] headers[i]).0);
            plain_header(name) || (name == "content-type"@ && is_simple_type(headers[i].1))
        } by {
            assert(is_safelisted(headers[i].0, headers[i].1));
        }
    }
}

/// A probe announces, in lower case, each header that is neither plain nor a
/// simple content type, and no other.
pub proof fn law_probes_announce_the_custom_headers(headers: Headers, i: int, n: int)
    requires
        0 <= i < n <= headers.len(),
    ensures
        ({
            let name = text::lowered(headers[i].0);
            !plain_header(name) && name != "content-type"@ ==> custom_names(headers, n).contains(
                name,
            )
        }),
        forall|j: int|
            0 <= j < custom_names(headers, n).len() ==> !plain_header(
                #[trigger] custom_names(headers, n)[j],
            ),
        custom_names(headers, n).len() <= n,
    decreases n,
{
    reveal_strlit("content-type");
    assert(text::lowered("content-type"@) =~= "content-type"@);
    let before = custom_names(headers, n - 1);
    let after = custom_names(headers, n);
    if n > 1 {
        law_probes_announce_the_custom_headers(
            headers,
            if i < n - 1 {
                i
            } else {
                0
            },
            n - 1,
        );
    }
    assert(after == before || after == before.push(text::lowered(headers[n - 1].0)));
    let name = text::lowered(headers[i].0);
    if i < n - 1 {
        if before.contains(name) {
            let j = choose|j: int| 0 <= j < before.len() && before[j] == name;
            assert(after[j] == name);
        }
    } else if after.len() > before.len() {
        assert(after[before.len() as int] == name);
    }
    assert forall|j: int| 0 <= j < after.len() implies !plain_header(#[trigger] after[j]) by {
        if j < before.len() {
            assert(after[j] == before[j]);
        }
    }
}

/// A response may be read exactly where its grant, white space aside, is the
/// page's own origin, or a star on a read without cookies; without a grant it
/// may not.
pub proof fn law_grants_name_the_origin(check: CheckModel, origin: Seq<char>)
    requires
        origin.len() > 0,
        !text::is_space(origin[0]),
        !text::is_space(origin.last()),
    ensures
        check.readable(Some(origin)) <==> origin == check.page_origin || (origin == seq!['*']
            && !check.credentialed),
        !check.readable(None),
        origin == check.page_origin ==> check.readable(Some(seq![' '] + origin + seq![' '])),
{
    lengths::lemma_untrimmed(origin);
    reveal_strlit("*");
    assert("*"@ =~= seq!['*']);
    let s = seq![' '] + origin;
    assert(s + seq![' '] =~= s.push(' '));
    text::lemma_trimmed_space(s);
    assert(s.skip(1) =~= origin);
    assert(s[0] == ' ' && s[1] == origin[0]);
    assert(text::skip_space(s, 1) == 1);
    assert(text::skip_space(s, 0) == 1);
    assert(text::trimmed(s) == text::trimmed_end(origin));
    assert(text::trim_back(origin, origin.len() as int) == origin.len());
    assert(origin.take(origin.len() as int) =~= origin);
}

/// A probe passes where its grant names the origin, the method in lower case
/// and each custom header; a star stands for all of them, but only on a read
/// without cookies. A read that needs no probe passes.
pub proof fn law_probes_pass_by_their_lists(check: CheckModel, grant: GrantModel)
    ensures
        check.preflight is None ==> check.probe_passes(grant),
        check.preflight matches Some(probe) ==> {
            let star = !check.credentialed && grant.allow_methods.contains(seq!['*']);
            let all = !check.credentialed && grant.allow_headers.contains(seq!['*']);
            check.probe_passes(grant) <==> {
                &&& check.readable(grant.allow_origin)
                &&& star || grant.allow_methods.contains(text::lowered(probe.method))
                &&& all || forall|i: int|
                    0 <= i < probe.headers.len() ==> grant.allow_headers.contains(
                        #[trigger] probe.headers[i],
                    )
            }
        },
{
    reveal_strlit("*");
    assert("*"@ =~= seq!['*']);
    if let Some(probe) = check.preflight {
        if check.probe_passes(grant) {
            assert forall|i: int|
                0 <= i < probe.headers.len() && !(!check.credentialed
                    && grant.allow_headers.contains(
                    seq!['*'],
                )) implies grant.allow_headers.contains(#[trigger] probe.headers[i]) by {
                assert(list_covers(grant.allow_headers, probe.headers[i], check.credentialed));
            }
        }
    }
}

/// Two addresses are of one origin exactly where scheme, host and port are
/// the same; their paths do not matter.
pub proof fn law_origins_are_scheme_host_and_port(a: UrlModel, b: UrlModel)
    ensures
        origins_equal(a, b) <==> a.scheme == b.scheme && a.host == b.host && a.port == b.port,
{
}

} // verus!
