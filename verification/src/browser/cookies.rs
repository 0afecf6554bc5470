//! A session cookie jar: stores `Set-Cookie` responses and builds the
//! `Cookie` header for matching requests (the practical core:
//! domain/path matching, Secure, HttpOnly, Max-Age/Expires deletion).
//! Header parsing comes from the `cookie` crate; cookies live for the
//! session (no disk persistence).
use crate::browser::url::{Url, UrlModel};
use crate::text;
use vstd::prelude::*;
use vstd::slice::slice_subrange;

verus! {

/// What a `Set-Cookie` header says.
#[derive(Debug, PartialEq, Eq)]
pub struct ParsedCookie {
    pub name: String,
    pub value: String,
    pub secure: Option<bool>,
    pub http_only: Option<bool>,
    pub domain: Option<String>,
    pub path: Option<String>,
    /// In seconds.
    pub max_age: Option<i64>,
    /// In nanoseconds since the Unix epoch; none for a session cookie.
    pub expires: Option<i128>,
}

pub struct ParsedModel {
    pub name: Seq<char>,
    pub value: Seq<char>,
    pub secure: Option<bool>,
    pub http_only: Option<bool>,
    pub domain: Option<Seq<char>>,
    pub path: Option<Seq<char>>,
    pub max_age: Option<i64>,
    pub expires: Option<i128>,
}

impl View for ParsedCookie {
    type V = ParsedModel;

    open spec fn view(&self) -> ParsedModel {
        ParsedModel {
            name: self.name@,
            value: self.value@,
            secure: self.secure,
            http_only: self.http_only,
            domain: text::opt_text(self.domain),
            path: text::opt_text(self.path),
            max_age: self.max_age,
            expires: self.expires,
        }
    }
}

pub open spec fn opt_parsed(cookie: Option<ParsedCookie>) -> Option<ParsedModel> {
    match cookie {
        Some(c) => Some(c@),
        None => None,
    }
}

/// What `cookie::Cookie::parse` reads from a `Set-Cookie` header.
pub uninterp spec fn cookie_parse(header: Seq<char>) -> Option<ParsedModel>;

/// The name and the value before the first `;` of a header, without the white
/// space around them; none without a `=`, or where the name is blank.
pub open spec fn header_pair(header: Seq<char>) -> Option<(Seq<char>, Seq<char>)> {
    let pair = header.take(text::find_char(header, ';', 0));
    let at = text::find_char(pair, '=', 0);
    if at < pair.len() && text::trimmed(pair.take(at)).len() > 0 {
        Some((text::trimmed(pair.take(at)), text::trimmed(pair.skip(at + 1))))
    } else {
        None
    }
}

/// A cookie without attributes.
pub open spec fn plain_cookie(name: Seq<char>, value: Seq<char>) -> ParsedModel {
    ParsedModel {
        name,
        value,
        secure: None,
        http_only: None,
        domain: None,
        path: None,
        max_age: None,
        expires: None,
    }
}

/// `cookie::Cookie::parse`, with the parsed cookie taken apart by its
/// accessors: the result is a function of the header alone. It is a cookie
/// exactly where the header starts with a pair, whose name and value it has,
/// and a header without `;` sets no attribute. How the attributes are read is
/// left to the name of the result.
#[verifier::external_body]
fn parse_set_cookie(header: &str) -> (r: Option<ParsedCookie>)
    ensures
        opt_parsed(r) == cookie_parse(header@),
        r is Some == (header_pair(header@) is Some),
        r matches Some(c) ==> header_pair(header@) == Some((c.name@, c.value@)),
        !text::has_char(header@, ';') ==> (r matches Some(c) ==> c@ == plain_cookie(
            c.name@,
            c.value@,
        )),
{
    let cookie = cookie::Cookie::parse(header.to_owned()).ok()?;
    Some(ParsedCookie {
        name: cookie.name().to_owned(),
        value: cookie.value().to_owned(),
        secure: cookie.secure(),
        http_only: cookie.http_only(),
        domain: cookie.domain().map(str::to_owned),
        path: cookie.path().map(str::to_owned),
        max_age: cookie.max_age().map(|age| age.whole_seconds()),
        expires: cookie.expires().and_then(|e| e.datetime()).map(|d| d.unix_timestamp_nanos()),
    })
}

/// `cookie::time::OffsetDateTime::now_utc`, in nanoseconds since the Unix
/// epoch. Nothing is stated of the clock.
#[verifier::external_body]
fn now_nanos() -> (r: i128) {
    cookie::time::OffsetDateTime::now_utc().unix_timestamp_nanos()
}

#[derive(Debug)]
pub struct StoredCookie {
    pub name: String,
    pub value: String,
    /// Lowercase domain without a leading dot.
    pub domain: String,
    /// Whether the cookie only matches the exact host (no Domain attr).
    pub host_only: bool,
    pub path: String,
    pub secure: bool,
    /// HttpOnly: sent over HTTP but invisible to `document.cookie`.
    pub http_only: bool,
}

pub struct CookieModel {
    pub name: Seq<char>,
    pub value: Seq<char>,
    pub domain: Seq<char>,
    pub host_only: bool,
    pub path: Seq<char>,
    pub secure: bool,
    pub http_only: bool,
}

impl View for StoredCookie {
    type V = CookieModel;

    open spec fn view(&self) -> CookieModel {
        CookieModel {
            name: self.name@,
            value: self.value@,
            domain: self.domain@,
            host_only: self.host_only,
            path: self.path@,
            secure: self.secure,
            http_only: self.http_only,
        }
    }
}

pub type JarModel = Seq<CookieModel>;

/// The session's cookies, in the order they were last set.
#[derive(Debug)]
pub struct CookieJar {
    pub cookies: Vec<StoredCookie>,
}

impl View for CookieJar {
    type V = JarModel;

    open spec fn view(&self) -> JarModel {
        Seq::new(self.cookies@.len(), |i: int| self.cookies@[i]@)
    }
}

// ---------------------------------------------------------------------------
// Storing
// ---------------------------------------------------------------------------
/// The default cookie path for a request path: what precedes the last slash.
pub open spec fn default_path_model(path: Seq<char>) -> Seq<char> {
    let i = text::find_char_back(path, '/', path.len() as int);
    if i <= 0 {
        "/"@
    } else {
        path.take(i)
    }
}

/// The default cookie path for a request URL.
pub fn default_path(url: &Url) -> (r: String)
    ensures
        r@ == default_path_model(url@.path),
{
    let chars = text::chars_of(url.path.as_str());
    match text::rsplit_once(chars.as_slice(), '/') {
        Some((before, _)) => {
            proof {
                text::lemma_find_char_back(chars@, '/', chars@.len() as int);
            }
            if before.len() == 0 {
                "/".to_owned()
            } else {
                text::text_of(before)
            }
        },
        None => {
            proof {
                text::lemma_find_char_back(chars@, '/', chars@.len() as int);
            }
            "/".to_owned()
        },
    }
}

/// The first index at or after `i` that holds no dot.
pub open spec fn skip_dots(s: Seq<char>, i: int) -> int
    decreases s.len() - i,
{
    if 0 <= i < s.len() && s[i] == '.' {
        skip_dots(s, i + 1)
    } else {
        i
    }
}

/// A domain in lowercase without leading dots.
pub open spec fn bare_domain(domain: Seq<char>) -> Seq<char> {
    text::lowered(domain.skip(skip_dots(domain, 0)))
}

/// Whether `host` is `domain` or lies under it.
pub open spec fn under_domain(host: Seq<char>, domain: Seq<char>) -> bool {
    host == domain || text::ends(host, "."@ + domain)
}

/// The domain of a cookie and whether it is for the host alone; none where
/// the Domain attribute is not a suffix of the host.
pub open spec fn cookie_domain(host: Seq<char>, domain: Option<Seq<char>>) -> Option<
    (Seq<char>, bool),
> {
    match domain {
        Some(d) => if under_domain(text::lowered(host), bare_domain(d)) {
            Some((bare_domain(d), false))
        } else {
            None
        },
        None => Some((text::lowered(host), true)),
    }
}

/// The path of a cookie: a Path attribute that is not absolute is ignored.
pub open spec fn cookie_path(url: UrlModel, path: Option<Seq<char>>) -> Seq<char> {
    match path {
        Some(p) => if text::starts(p, "/"@) {
            p
        } else {
            default_path_model(url.path)
        },
        None => default_path_model(url.path),
    }
}

/// Whether a cookie is to be deleted rather than kept.
pub open spec fn is_expired(parsed: ParsedModel, now: int) -> bool {
    ||| parsed.max_age matches Some(age) && age <= 0
    ||| parsed.expires matches Some(when) && when <= now
}

pub open spec fn flag(value: Option<bool>) -> bool {
    value == Some(true)
}

/// The cookie that a header sets for a URL; none where it is refused: the URL
/// has no host, a Secure cookie comes from an insecure origin, or the domain
/// is foreign.
pub open spec fn accepted(url: UrlModel, parsed: ParsedModel) -> Option<CookieModel> {
    match url.host {
        Some(host) => if flag(parsed.secure) && url.scheme != "https"@ {
            None
        } else {
            match cookie_domain(host, parsed.domain) {
                Some((domain, host_only)) => Some(
                    CookieModel {
                        name: parsed.name,
                        value: parsed.value,
                        domain,
                        host_only,
                        path: cookie_path(url, parsed.path),
                        secure: flag(parsed.secure),
                        http_only: flag(parsed.http_only),
                    },
                ),
                None => None,
            }
        },
        None => None,
    }
}

pub open spec fn same_cookie(a: CookieModel, b: CookieModel) -> bool {
    a.name == b.name && a.domain == b.domain && a.path == b.path
}

/// The first `n` cookies without those that `cookie` replaces.
pub open spec fn without(jar: JarModel, cookie: CookieModel, n: int) -> JarModel
    decreases n,
{
    if n <= 0 {
        seq![]
    } else if same_cookie(jar[n - 1], cookie) {
        without(jar, cookie, n - 1)
    } else {
        without(jar, cookie, n - 1).push(jar[n - 1])
    }
}

/// The jar after a parsed header.
pub open spec fn stored(jar: JarModel, url: UrlModel, parsed: ParsedModel, now: int) -> JarModel {
    match accepted(url, parsed) {
        Some(cookie) => {
            let rest = without(jar, cookie, jar.len() as int);
            if is_expired(parsed, now) {
                rest
            } else {
                rest.push(cookie)
            }
        },
        None => jar,
    }
}

/// The jar after a raw header.
pub open spec fn stored_header(jar: JarModel, url: UrlModel, header: Seq<char>, now: int) -> JarModel {
    match cookie_parse(header) {
        Some(parsed) => stored(jar, url, parsed, now),
        None => jar,
    }
}

fn lowered_text(s: &str) -> (r: String)
    ensures
        r@ == text::lowered(s@),
{
    let chars = text::chars_of(s);
    text::text_of(text::to_lowered(chars.as_slice()).as_slice())
}

fn bare(domain: &str) -> (r: String)
    ensures
        r@ == bare_domain(domain@),
{
    let chars = text::chars_of(domain);
    let mut i: usize = 0;
    while i < chars.len() && chars[i] == '.'
        invariant
            i <= chars@.len(),
            skip_dots(chars@, i as int) == skip_dots(chars@, 0),
        decreases chars@.len() - i,
    {
        i = i + 1;
    }
    let rest = slice_subrange(chars.as_slice(), i, chars.len());
    assert(rest@ =~= domain@.skip(skip_dots(domain@, 0)));
    text::text_of(text::to_lowered(rest).as_slice())
}

fn is_under(host: &str, domain: &str) -> (r: bool)
    ensures
        r == under_domain(host@, domain@),
{
    if text::same_str(host, domain) {
        return true;
    }
    let suffix = text::concat(".", domain);
    let chars = text::chars_of(host);
    text::ends_with(chars.as_slice(), suffix.as_str())
}

fn is_set(value: Option<bool>) -> (r: bool)
    ensures
        r == flag(value),
{
    match value {
        Some(v) => v,
        None => false,
    }
}

impl Clone for StoredCookie {
    fn clone(&self) -> (r: StoredCookie)
        ensures
            r@ == self@,
    {
        StoredCookie {
            name: self.name.clone(),
            value: self.value.clone(),
            domain: self.domain.clone(),
            host_only: self.host_only,
            path: self.path.clone(),
            secure: self.secure,
            http_only: self.http_only,
        }
    }
}

/// The cookie that a parsed header sets for a URL, if it is accepted.
fn accept(url: &Url, parsed: &ParsedCookie) -> (r: Option<StoredCookie>)
    ensures
        match r {
            Some(cookie) => accepted(url@, parsed@) == Some(cookie@),
            None => accepted(url@, parsed@) is None,
        },
{
    let host = match &url.host {
        Some(host) => host,
        None => {
            return None;
        },
    };
    let secure = is_set(parsed.secure);
    if secure && !text::same_str(url.scheme.as_str(), "https") {
        return None;
    }
    let lower_host = lowered_text(host.as_str());
    let (domain, host_only): (String, bool) = match &parsed.domain {
        Some(d) => {
            let domain = bare(d.as_str());
            if !is_under(lower_host.as_str(), domain.as_str()) {
                return None;
            }
            (domain, false)
        },
        None => (lower_host, true),
    };
    let path = match &parsed.path {
        Some(p) => {
            let chars = text::chars_of(p.as_str());
            if text::starts_with(chars.as_slice(), "/") {
                p.clone()
            } else {
                default_path(url)
            }
        },
        None => default_path(url),
    };
    Some(
        StoredCookie {
            name: parsed.name.clone(),
            value: parsed.value.clone(),
            domain,
            host_only,
            path,
            secure,
            http_only: is_set(parsed.http_only),
        },
    )
}

// ---------------------------------------------------------------------------
// Matching
// ---------------------------------------------------------------------------
/// Exact match, or a prefix match where the cookie path ends
/// in `/` or the next character of the request path is `/`.
pub open spec fn path_matches(path: Seq<char>, cookie_path: Seq<char>) -> bool {
    ||| path == cookie_path
    ||| text::starts(path, cookie_path) && (text::ends(cookie_path, "/"@) || text::starts(
        path.skip(cookie_path.len() as int),
        "/"@,
    ))
}

/// Whether a cookie goes with a request, or is visible to script.
pub open spec fn cookie_matches(
    cookie: CookieModel,
    url: UrlModel,
    host: Seq<char>,
    include_http_only: bool,
) -> bool {
    &&& if cookie.host_only {
        host == cookie.domain
    } else {
        under_domain(host, cookie.domain)
    }
    &&& path_matches(url.path, cookie.path)
    &&& !cookie.secure || url.scheme == "https"@
    &&& include_http_only || !cookie.http_only
}

/// The matching cookies among the first `n`.
pub open spec fn matching(
    jar: JarModel,
    url: UrlModel,
    host: Seq<char>,
    include_http_only: bool,
    n: int,
) -> JarModel
    decreases n,
{
    if n <= 0 {
        seq![]
    } else if cookie_matches(jar[n - 1], url, host, include_http_only) {
        matching(jar, url, host, include_http_only, n - 1).push(jar[n - 1])
    } else {
        matching(jar, url, host, include_http_only, n - 1)
    }
}

/// The cookies that a URL sees.
pub open spec fn visible(jar: JarModel, url: UrlModel, include_http_only: bool) -> JarModel {
    match url.host {
        Some(host) => matching(
            jar,
            url,
            text::lowered(host),
            include_http_only,
            jar.len() as int,
        ),
        None => seq![],
    }
}

pub open spec fn pair_texts(cookies: JarModel) -> Seq<Seq<char>> {
    Seq::new(cookies.len(), |i: int| cookies[i].name + "="@ + cookies[i].value)
}

/// The `Cookie` header of a URL, if anything matches.
pub open spec fn header_model(jar: JarModel, url: UrlModel, include_http_only: bool) -> Option<
    Seq<char>,
> {
    let cookies = visible(jar, url, include_http_only);
    if cookies.len() == 0 {
        None
    } else {
        Some(text::joined(pair_texts(cookies), "; "@))
    }
}

impl StoredCookie {
    fn matches(&self, url: &Url, host: &str, include_http_only: bool) -> (r: bool)
        ensures
            r == cookie_matches(self@, url@, host@, include_http_only),
    {
        let domain_ok = if self.host_only {
            text::same_str(host, self.domain.as_str())
        } else {
            is_under(host, self.domain.as_str())
        };
        let path_chars = text::chars_of(url.path.as_str());
        let path = path_chars.as_slice();
        let own_chars = text::chars_of(self.path.as_str());
        let own = own_chars.as_slice();
        let path_ok = if text::same(path, own) {
            true
        } else if text::starts_with(path, self.path.as_str()) {
            let rest = slice_subrange(path, own.len(), path.len());
            assert(rest@ =~= path@.skip(own@.len() as int));
            text::ends_with(own, "/") || text::starts_with(rest, "/")
        } else {
            false
        };
        let secure_ok = !self.secure || text::same_str(url.scheme.as_str(), "https");
        let script_ok = include_http_only || !self.http_only;
        domain_ok && path_ok && secure_ok && script_ok
    }
}

impl CookieJar {
    pub fn new() -> (r: CookieJar)
        ensures
            r@ == Seq::<CookieModel>::empty(),
    {
        let r = CookieJar { cookies: Vec::new() };
        assert(r@ =~= Seq::empty());
        r
    }

    /// Drops the cookies that `cookie` replaces.
    fn retain(&mut self, cookie: &StoredCookie)
        ensures
            final(self)@ == without(old(self)@, cookie@, old(self)@.len() as int),
    {
        let ghost jar = self@;
        let mut kept: Vec<StoredCookie> = Vec::new();
        let ghost mut model: JarModel = seq![];
        let mut i: usize = 0;
        while i < self.cookies.len()
            invariant
                i <= self.cookies@.len(),
                jar == self@,
                model == without(jar, cookie@, i as int),
                kept@.len() == model.len(),
                forall|j: int| 0 <= j < kept@.len() ==> (#[trigger] kept@[j])@ == model[j],
            decreases self.cookies@.len() - i,
        {
            let existing = &self.cookies[i];
            assert(jar[i as int] == existing@);
            let same = text::same_str(existing.name.as_str(), cookie.name.as_str())
                && text::same_str(existing.domain.as_str(), cookie.domain.as_str())
                && text::same_str(existing.path.as_str(), cookie.path.as_str());
            if !same {
                kept.push(existing.clone());
                proof {
                    model = model.push(existing@);
                }
            }
            i = i + 1;
        }
        self.cookies = kept;
        assert(self@ =~= without(jar, cookie@, jar.len() as int));
    }

    /// Stores a parsed header against the response URL, at time `now`.
    pub fn store_parsed(&mut self, url: &Url, parsed: &ParsedCookie, now: i128)
        ensures
            final(self)@ == stored(old(self)@, url@, parsed@, now as int),
    {
        let cookie = match accept(url, parsed) {
            Some(cookie) => cookie,
            None => {
                return;
            },
        };
        let expired = (match parsed.max_age {
            Some(age) => age <= 0,
            None => false,
        }) || (match parsed.expires {
            Some(when) => when <= now,
            None => false,
        });
        self.retain(&cookie);
        if expired {
            return;
        }
        let ghost before = self@;
        self.cookies.push(cookie);
        assert(self@ =~= before.push(cookie@));
    }

    /// Stores one raw `Set-Cookie` header value against the response URL. A
    /// header without a pair changes nothing; one without attributes is kept
    /// for the host and the default path, whatever the time.
    pub fn store(&mut self, url: &Url, header: &str)
        ensures
            exists|now: int| final(self)@ == #[trigger] stored_header(
                old(self)@,
                url@,
                header@,
                now,
            ),
            header_pair(header@) is None ==> final(self)@ == old(self)@,
            !text::has_char(header@, ';') ==> (header_pair(header@) matches Some((name, value))
                ==> final(self)@ == stored(old(self)@, url@, plain_cookie(name, value), 0)),
    {
        let now = now_nanos();
        if let Some(parsed) = parse_set_cookie(header) {
            self.store_parsed(url, &parsed, now);
        }
        assert(self@ == stored_header(old(self)@, url@, header@, now as int));
    }

    /// The `Cookie` header value for an HTTP request, if anything matches.
    pub fn header_for_http(&self, url: &Url) -> (r: Option<String>)
        ensures
            text::opt_text(r) == header_model(self@, url@, true),
    {
        self.matched_header(url, true)
    }

    /// `document.cookie`'s view: same matching, but HttpOnly cookies are
    /// invisible to script.
    pub fn header_for(&self, url: &Url) -> (r: Option<String>)
        ensures
            text::opt_text(r) == header_model(self@, url@, false),
    {
        self.matched_header(url, false)
    }

    fn matched_header(&self, url: &Url, include_http_only: bool) -> (r: Option<String>)
        ensures
            text::opt_text(r) == header_model(self@, url@, include_http_only),
    {
        let host = match &url.host {
            Some(host) => lowered_text(host.as_str()),
            None => {
                return None;
            },
        };
        let ghost jar = self@;
        let mut matched: Vec<String> = Vec::new();
        let mut i: usize = 0;
        assert(text::texts(matched@) =~= pair_texts(
            matching(jar, url@, host@, include_http_only, 0),
        ));
        while i < self.cookies.len()
            invariant
                i <= self.cookies@.len(),
                jar == self@,
                text::texts(matched@) == pair_texts(
                    matching(jar, url@, host@, include_http_only, i as int),
                ),
            decreases self.cookies@.len() - i,
        {
            let cookie = &self.cookies[i];
            assert(jar[i as int] == cookie@);
            let ghost sofar = matching(jar, url@, host@, include_http_only, i as int);
            if cookie.matches(url, host.as_str(), include_http_only) {
                let mut pair = text::concat(cookie.name.as_str(), "=");
                text::push_text(&mut pair, cookie.value.as_str());
                let ghost before = matched@;
                matched.push(pair);
                proof {
                    text::lemma_texts_push(before, pair);
                    assert(pair_texts(sofar.push(cookie@)) =~= pair_texts(sofar).push(pair@));
                }
            }
            i = i + 1;
        }
        assert(text::texts(matched@).len() == matched@.len());
        if matched.len() == 0 {
            None
        } else {
            Some(text::join(matched.as_slice(), "; "))
        }
    }
}

// ---------------------------------------------------------------------------
// Laws
// ---------------------------------------------------------------------------
/// No two cookies share name, domain and path.
pub open spec fn distinct(jar: JarModel) -> bool {
    forall|i: int, j: int|
        0 <= i < j < jar.len() ==> !same_cookie(#[trigger] jar[i], #[trigger] jar[j])
}

proof fn lemma_without(jar: JarModel, cookie: CookieModel, n: int)
    requires
        0 <= n <= jar.len(),
    ensures
        forall|i: int|
            0 <= i < without(jar, cookie, n).len() ==> !same_cookie(
                #[trigger] without(jar, cookie, n)[i],
                cookie,
            ),
        forall|i: int|
            0 <= i < without(jar, cookie, n).len() ==> exists|k: int|
                0 <= k < n && jar[k] == #[trigger] without(jar, cookie, n)[i],
        distinct(jar) ==> distinct(without(jar, cookie, n)),
    decreases n,
{
    if n > 0 {
        lemma_without(jar, cookie, n - 1);
        let before = without(jar, cookie, n - 1);
        let after = without(jar, cookie, n);
        assert forall|i: int| 0 <= i < after.len() implies exists|k: int|
            0 <= k < n && jar[k] == #[trigger] after[i] by {
            if i < before.len() {
                assert(after[i] == before[i]);
                let k = choose|k: int| 0 <= k < n - 1 && jar[k] == before[i];
                assert(jar[k] == after[i]);
            } else {
                assert(jar[n - 1] == after[i]);
            }
        }
        if distinct(jar) && !same_cookie(jar[n - 1], cookie) {
            assert forall|i: int, j: int| 0 <= i < j < after.len() implies !same_cookie(
                #[trigger] after[i],
                #[trigger] after[j],
            ) by {
                if j < before.len() {
                    assert(!same_cookie(before[i], before[j]));
                } else {
                    assert(after[i] == before[i]);
                    let k = choose|k: int| 0 <= k < n - 1 && jar[k] == before[i];
                    assert(!same_cookie(jar[k], jar[n - 1]));
                }
            }
        }
    }
}

/// Storing keeps at most one cookie per name, domain and path.
pub proof fn law_jar_holds_one_of_each(
    jar: JarModel,
    url: UrlModel,
    parsed: ParsedModel,
    now: int,
)
    requires
        distinct(jar),
    ensures
        distinct(stored(jar, url, parsed, now)),
{
    if let Some(cookie) = accepted(url, parsed) {
        lemma_without(jar, cookie, jar.len() as int);
    }
}

/// A header that is accepted and not expired puts its cookie in the jar; one
/// that is expired leaves none of that name, domain and path.
pub proof fn law_stored_cookie_is_kept_or_deleted(
    jar: JarModel,
    url: UrlModel,
    parsed: ParsedModel,
    now: int,
)
    requires
        accepted(url, parsed) is Some,
    ensures
        !is_expired(parsed, now) ==> stored(jar, url, parsed, now).contains(
            accepted(url, parsed)->0,
        ),
        is_expired(parsed, now) ==> forall|i: int|
            0 <= i < stored(jar, url, parsed, now).len() ==> !same_cookie(
                #[trigger] stored(jar, url, parsed, now)[i],
                accepted(url, parsed)->0,
            ),
{
    let cookie = accepted(url, parsed)->0;
    lemma_without(jar, cookie, jar.len() as int);
    if !is_expired(parsed, now) {
        let after = stored(jar, url, parsed, now);
        assert(after[after.len() - 1] == cookie);
    }
}

/// A refused header changes nothing: an insecure origin cannot set a Secure
/// cookie, and no page can set one for a foreign domain.
pub proof fn law_refused_cookie_changes_nothing(
    jar: JarModel,
    url: UrlModel,
    parsed: ParsedModel,
    now: int,
)
    requires
        (flag(parsed.secure) && url.scheme != "https"@) || (url.host is Some
            && parsed.domain is Some && !under_domain(
            text::lowered(url.host->0),
            bare_domain(parsed.domain->0),
        )),
    ensures
        stored(jar, url, parsed, now) == jar,
{
}

proof fn lemma_matching(
    jar: JarModel,
    url: UrlModel,
    host: Seq<char>,
    include_http_only: bool,
    n: int,
)
    requires
        0 <= n <= jar.len(),
    ensures
        forall|c: CookieModel|
            #[trigger] matching(jar, url, host, include_http_only, n).contains(c) <==> (
            cookie_matches(c, url, host, include_http_only) && jar.take(n).contains(c)),
    decreases n,
{
    let after = matching(jar, url, host, include_http_only, n);
    if n > 0 {
        lemma_matching(jar, url, host, include_http_only, n - 1);
        let before = matching(jar, url, host, include_http_only, n - 1);
        assert(jar.take(n) =~= jar.take(n - 1).push(jar[n - 1]));
        assert forall|c: CookieModel| #[trigger] after.contains(c) <==> (cookie_matches(
            c,
            url,
            host,
            include_http_only,
        ) && jar.take(n).contains(c)) by {
            let m = jar.take(n - 1);
            let full = jar.take(n);
            if m.contains(c) {
                let k = choose|k: int| 0 <= k < m.len() && m[k] == c;
                assert(full[k] == c);
            }
            if full.contains(c) && c != jar[n - 1] {
                let k = choose|k: int| 0 <= k < full.len() && full[k] == c;
                assert(m[k] == c);
            }
            assert(full[n - 1] == jar[n - 1]);
            if before.contains(c) {
                let k = choose|k: int| 0 <= k < before.len() && before[k] == c;
                assert(after[k] == c);
            }
            if after.contains(c) && !before.contains(c) {
                let k = choose|k: int| 0 <= k < after.len() && after[k] == c;
                if k < before.len() {
                    assert(before[k] == c);
                }
                assert(c == jar[n - 1]);
            }
            if c == jar[n - 1] && cookie_matches(c, url, host, include_http_only) {
                assert(after[after.len() - 1] == c);
            }
        }
    }
}

/// A request carries exactly the cookies of the jar that match it.
pub proof fn law_request_carries_what_matches(
    jar: JarModel,
    url: UrlModel,
    cookie: CookieModel,
    include_http_only: bool,
)
    requires
        url.host is Some,
    ensures
        visible(jar, url, include_http_only).contains(cookie) <==> (jar.contains(cookie)
            && cookie_matches(cookie, url, text::lowered(url.host->0), include_http_only)),
{
    lemma_matching(jar, url, text::lowered(url.host->0), include_http_only, jar.len() as int);
    assert(jar.take(jar.len() as int) =~= jar);
}

/// HttpOnly cookies are invisible to script, Secure cookies never leave over
/// an insecure connection, and script sees nothing that a request would not
/// carry.
pub proof fn law_cookie_confinement(jar: JarModel, url: UrlModel, cookie: CookieModel)
    ensures
        visible(jar, url, false).contains(cookie) ==> !cookie.http_only,
        visible(jar, url, false).contains(cookie) ==> visible(jar, url, true).contains(cookie),
        cookie.secure && url.scheme != "https"@ ==> !visible(jar, url, true).contains(cookie),
{
    if url.host is Some {
        law_request_carries_what_matches(jar, url, cookie, false);
        law_request_carries_what_matches(jar, url, cookie, true);
    }
}

proof fn lemma_default_path_matches(path: Seq<char>)
    requires
        text::starts(path, "/"@),
    ensures
        path_matches(path, default_path_model(path)),
{
    reveal_strlit("/");
    text::lemma_find_char_back(path, '/', path.len() as int);
    let i = text::find_char_back(path, '/', path.len() as int);
    assert(path.take(1) =~= "/"@);
    assert("/"@[0] == '/' && path[0] == '/');
    if i <= 0 {
        assert("/"@.skip(0) =~= "/"@);
    } else {
        assert(path.take(i).len() == i);
        assert(path.skip(i).take(1) =~= "/"@);
    }
}

/// What a site sets comes back to it: a cookie without a Path that is accepted
/// from a URL, and not expired, goes with the next request to that URL, and
/// script sees it there unless it is HttpOnly.
pub proof fn law_set_cookies_come_back(
    jar: JarModel,
    url: UrlModel,
    parsed: ParsedModel,
    now: int,
)
    requires
        accepted(url, parsed) is Some,
        !is_expired(parsed, now),
        parsed.path is None,
        text::starts(url.path, "/"@),
    ensures
        visible(stored(jar, url, parsed, now), url, true).contains(accepted(url, parsed)->0),
        !flag(parsed.http_only) ==> visible(stored(jar, url, parsed, now), url, false).contains(
            accepted(url, parsed)->0,
        ),
{
    let after = stored(jar, url, parsed, now);
    let cookie = accepted(url, parsed)->0;
    law_stored_cookie_is_kept_or_deleted(jar, url, parsed, now);
    lemma_default_path_matches(url.path);
    law_request_carries_what_matches(after, url, cookie, true);
    law_request_carries_what_matches(after, url, cookie, false);
}

/// A cookie that is accepted stays where its Max-Age, if it has one, is
/// positive and its Expires, if it has one, lies ahead. Otherwise it goes, and
/// with it the one of that name, domain and path.
pub proof fn law_age_and_expiry_decide(
    jar: JarModel,
    url: UrlModel,
    parsed: ParsedModel,
    now: int,
)
    requires
        accepted(url, parsed) is Some,
    ensures
        ({
            let cookie = accepted(url, parsed)->0;
            let after = stored(jar, url, parsed, now);
            &&& (parsed.max_age is None || parsed.max_age->0 > 0) && (parsed.expires is None
                || parsed.expires->0 > now) ==> after.len() > 0 && after.last() == cookie
            &&& (parsed.max_age is Some && parsed.max_age->0 <= 0) || (parsed.expires is Some
                && parsed.expires->0 <= now) ==> forall|i: int|
                0 <= i < after.len() ==> (#[trigger] after[i]).name != cookie.name
                    || after[i].domain != cookie.domain || after[i].path != cookie.path
        }),
{
    lemma_without(jar, accepted(url, parsed)->0, jar.len() as int);
}

proof fn lemma_without_keeps(jar: JarModel, cookie: CookieModel, n: int, k: int)
    requires
        0 <= k < n <= jar.len(),
        jar[k].name != cookie.name || jar[k].domain != cookie.domain || jar[k].path != cookie.path,
    ensures
        without(jar, cookie, n).contains(jar[k]),
    decreases n,
{
    let before = without(jar, cookie, n - 1);
    let after = without(jar, cookie, n);
    if k < n - 1 {
        lemma_without_keeps(jar, cookie, n - 1, k);
        let i = choose|i: int| 0 <= i < before.len() && before[i] == jar[k];
        assert(after[i] == jar[k]);
    } else {
        assert(after[after.len() - 1] == jar[k]);
    }
}

/// Storing a cookie touches no cookie of another name, domain or path.
pub proof fn law_other_cookies_stay(
    jar: JarModel,
    url: UrlModel,
    parsed: ParsedModel,
    now: int,
    other: CookieModel,
)
    requires
        jar.contains(other),
        other.name != parsed.name || (accepted(url, parsed) matches Some(c) ==> other.domain
            != c.domain || other.path != c.path),
    ensures
        stored(jar, url, parsed, now).contains(other),
{
    if let Some(cookie) = accepted(url, parsed) {
        let k = choose|k: int| 0 <= k < jar.len() && jar[k] == other;
        lemma_without_keeps(jar, cookie, jar.len() as int, k);
        let rest = without(jar, cookie, jar.len() as int);
        let i = choose|i: int| 0 <= i < rest.len() && rest[i] == other;
        let after = stored(jar, url, parsed, now);
        assert(after[i] == other);
    }
}

/// A cookie without a Domain is for the very host that set it, whatever the
/// letter case, and has the name, the value and the flags of its header.
pub proof fn law_host_cookies_are_for_their_host(
    url: UrlModel,
    parsed: ParsedModel,
    host: Seq<char>,
)
    requires
        url.host == Some(host),
        parsed.domain is None,
        parsed.secure == Some(true) ==> url.scheme == "https"@,
    ensures
        accepted(url, parsed) matches Some(c) && c.name == parsed.name && c.value == parsed.value
            && c.domain == text::lowered(host) && c.host_only && (c.secure <==> parsed.secure
            == Some(true)) && (c.http_only <==> parsed.http_only == Some(true)),
{
}

/// A Domain may name the host or a domain that the host lies under: the
/// cookie is then for all of that domain. Its leading dot says nothing.
pub proof fn law_domain_cookies_reach_their_domain(
    url: UrlModel,
    parsed: ParsedModel,
    front: Seq<char>,
    domain: Seq<char>,
)
    requires
        domain.len() > 0 && domain[0] != '.',
        text::lowered(domain) == domain,
        text::lowered(front) == front,
        parsed.domain == Some(domain) || parsed.domain == Some(seq!['.'] + domain),
        url.host == Some(domain) || url.host == Some(front + seq!['.'] + domain),
        parsed.secure == Some(true) ==> url.scheme == "https"@,
    ensures
        accepted(url, parsed) matches Some(c) && c.name == parsed.name && c.value == parsed.value
            && c.domain == domain && !c.host_only,
{
    reveal_strlit(".");
    let host = url.host->0;
    let written = parsed.domain->0;
    assert("."@ =~= seq!['.']);
    assert(text::lowered(host) =~= host) by {
        assert forall|i: int| 0 <= i < host.len() implies text::lower(host[i]) == host[i] by {
            if url.host == Some(domain) {
                assert(text::lowered(domain)[i] == domain[i]);
            } else if i < front.len() {
                assert(text::lowered(front)[i] == front[i]);
            } else if i > front.len() {
                let k = i - front.len() - 1;
                assert(text::lowered(domain)[k] == domain[k]);
                assert(host[i] == domain[k]);
            }
        }
    }
    if written != domain {
        assert(written[0] == '.' && written[1] == domain[0]);
        assert(skip_dots(written, 1) == 1);
        assert(written.skip(1) =~= domain);
    } else {
        assert(written.skip(0) =~= domain);
    }
    assert(bare_domain(written) =~= domain);
    if host != domain {
        assert(host.skip(host.len() - (domain.len() + 1)) =~= "."@ + domain);
    }
}

/// A header for a domain that the host is not, and does not lie under, changes
/// nothing; nor does one against a URL without a host, nor a Secure one that
/// did not come over https.
pub proof fn law_foreign_and_insecure_cookies_are_refused(
    jar: JarModel,
    url: UrlModel,
    parsed: ParsedModel,
    now: int,
)
    requires
        url.host is None || (parsed.secure == Some(true) && url.scheme != "https"@) || (
        parsed.domain matches Some(d) && d.len() > 0 && d[0] != '.' && !(exists|front: Seq<char>|
            text::lowered(url.host->0) == #[trigger] (front + seq!['.'] + text::lowered(d)))
            && text::lowered(url.host->0) != text::lowered(d)),
    ensures
        stored(jar, url, parsed, now) == jar,
{
    reveal_strlit(".");
    assert("."@ =~= seq!['.']);
    if let Some(host) = url.host {
        if let Some(d) = parsed.domain {
            let low = text::lowered(host);
            if d.len() > 0 && d[0] != '.' {
                assert(d.skip(0) =~= d);
                let dotted = "."@ + text::lowered(d);
                if text::ends(low, dotted) {
                    let front = low.take(low.len() - dotted.len());
                    assert(low =~= front + low.skip(low.len() - dotted.len()));
                    assert(low =~= front + seq!['.'] + text::lowered(d));
                }
            }
        }
    }
}

/// A cookie's path is its Path where that is absolute, and else what precedes
/// the last slash of the URL's path.
pub proof fn law_cookie_paths(
    url: UrlModel,
    parsed: ParsedModel,
    front: Seq<char>,
    name: Seq<char>,
)
    requires
        accepted(url, parsed) is Some,
        url.path == front + seq!['/'] + name,
        forall|i: int| 0 <= i < name.len() ==> name[i] != '/',
    ensures
        ({
            let path = accepted(url, parsed)->0.path;
            if parsed.path is Some && parsed.path->0.len() > 0 && parsed.path->0[0] == '/' {
                path == parsed.path->0
            } else if front.len() > 0 {
                path == front
            } else {
                path == seq!['/']
            }
        }),
{
    reveal_strlit("/");
    assert("/"@ =~= seq!['/']);
    let n = url.path.len() as int;
    text::lemma_find_char_back(url.path, '/', n);
    let at = text::find_char_back(url.path, '/', n);
    assert(url.path[front.len() as int] == '/');
    assert(at == front.len()) by {
        if at > front.len() {
            assert(url.path[at] == name[at - front.len() - 1]);
        }
    }
    assert(url.path.take(at) =~= front);
    if let Some(p) = parsed.path {
        if p.len() > 0 {
            assert(p.take(1)[0] == p[0]);
            if p[0] == '/' {
                assert(p.take(1) =~= "/"@);
            }
        }
    }
}

/// A request path is under a cookie's path where it is that path, or goes on
/// behind it at a slash; a mere text prefix is not enough.
pub proof fn law_paths_match_at_slashes(path: Seq<char>, own: Seq<char>, rest: Seq<char>, c: char)
    requires
        own.len() > 0,
    ensures
        path_matches(own, own),
        path_matches(own + seq!['/'] + rest, own),
        own.last() == '/' ==> path_matches(own + rest, own),
        own.last() != '/' && c != '/' ==> !path_matches(own + seq![c] + rest, own),
        path_matches(path, own) ==> path.len() >= own.len() && path.take(own.len() as int) == own,
{
    reveal_strlit("/");
    assert("/"@ =~= seq!['/']);
    let n = own.len() as int;
    let a = own + seq!['/'] + rest;
    assert(a.take(n) =~= own);
    assert(a.skip(n).take(1) =~= "/"@);
    assert(own.take(n) =~= own);
    assert(own.skip(n - 1)[0] == own.last());
    if own.last() == '/' {
        assert((own + rest).take(n) =~= own);
        assert(own.skip(n - 1) =~= "/"@);
    } else if c != '/' {
        let b = own + seq![c] + rest;
        assert(b.len() > own.len());
        assert(b.skip(n).take(1)[0] == c);
        assert("/"@[0] == '/');
    }
}

/// A cookie goes with a request to its own host where it is for that host
/// alone, and to every host under its domain where it is not; always under its
/// path, over https where it is Secure, and out of sight of script where it is
/// HttpOnly.
pub proof fn law_cookies_go_where_they_belong(
    jar: JarModel,
    url: UrlModel,
    cookie: CookieModel,
    front: Seq<char>,
)
    requires
        jar.contains(cookie),
        path_matches(url.path, cookie.path),
        url.host matches Some(host) && (text::lowered(host) == cookie.domain || text::lowered(host)
            == front + seq!['.'] + cookie.domain),
    ensures
        ({
            let own = text::lowered(url.host->0) == cookie.domain;
            let reaches = (own || !cookie.host_only) && (cookie.secure ==> url.scheme
                == "https"@);
            &&& visible(jar, url, true).contains(cookie) <==> reaches
            &&& visible(jar, url, false).contains(cookie) <==> reaches && !cookie.http_only
        }),
{
    reveal_strlit(".");
    assert("."@ =~= seq!['.']);
    let host = text::lowered(url.host->0);
    law_request_carries_what_matches(jar, url, cookie, true);
    law_request_carries_what_matches(jar, url, cookie, false);
    let dotted = "."@ + cookie.domain;
    if host != cookie.domain {
        assert(host.skip(host.len() - dotted.len()) =~= dotted);
    }
}

/// A request to a host that is not the cookie's domain, nor lies under it,
/// does not carry the cookie; nor does one outside its path.
pub proof fn law_cookies_stay_home(jar: JarModel, url: UrlModel, cookie: CookieModel, http: bool)
    requires
        url.host is None || !path_matches(url.path, cookie.path) || (text::lowered(url.host->0)
            != cookie.domain && !(exists|front: Seq<char>|
            text::lowered(url.host->0) == #[trigger] (front + seq!['.'] + cookie.domain))),
    ensures
        !visible(jar, url, http).contains(cookie),
{
    reveal_strlit(".");
    assert("."@ =~= seq!['.']);
    if let Some(h) = url.host {
        let host = text::lowered(h);
        law_request_carries_what_matches(jar, url, cookie, http);
        let dotted = "."@ + cookie.domain;
        if text::ends(host, dotted) {
            let front = host.take(host.len() - dotted.len());
            assert(host =~= front + host.skip(host.len() - dotted.len()));
            assert(host =~= front + seq!['.'] + cookie.domain);
        }
    }
}

/// The header is the matching cookies as `name=value`, in the order of the
/// jar, with `; ` between each two; there is none where nothing matches.
pub proof fn law_header_lists_the_cookies(
    jar: JarModel,
    cookie: CookieModel,
    url: UrlModel,
    http: bool,
)
    requires
        url.host is Some,
    ensures
        header_model(Seq::empty(), url, http) is None,
        ({
            let before = header_model(jar, url, http);
            let after = header_model(jar.push(cookie), url, http);
            let pair = cookie.name + seq!['='] + cookie.value;
            if visible(seq![cookie], url, http).contains(cookie) {
                match before {
                    Some(list) => after == Some(list + seq![';', ' '] + pair),
                    None => after == Some(pair),
                }
            } else {
                after == before
            }
        }),
{
    reveal_strlit("=");
    reveal_strlit("; ");
    assert("="@ =~= seq!['=']);
    assert("; "@ =~= seq![';', ' ']);
    let host = text::lowered(url.host->0);
    let n = jar.len() as int;
    let grown = jar.push(cookie);
    lemma_matching_prefix(jar, cookie, url, host, http, n);
    let one = seq![cookie];
    law_request_carries_what_matches(one, url, cookie, http);
    assert(one[0] == cookie);
    assert(grown[n] == cookie);
    let v = visible(jar, url, http);
    let w = visible(grown, url, http);
    assert(matching(Seq::empty(), url, host, http, 0) =~= seq![]);
    if cookie_matches(cookie, url, host, http) {
        assert(w =~= v.push(cookie));
        assert(pair_texts(w) =~= pair_texts(v).push(
            cookie.name + seq!['='] + cookie.value,
        ));
        assert(pair_texts(w).drop_last() =~= pair_texts(v));
    } else {
        assert(w =~= v);
    }
}

proof fn lemma_matching_prefix(
    jar: JarModel,
    cookie: CookieModel,
    url: UrlModel,
    host: Seq<char>,
    http: bool,
    n: int,
)
    requires
        0 <= n <= jar.len(),
    ensures
        matching(jar.push(cookie), url, host, http, n) == matching(jar, url, host, http, n),
    decreases n,
{
    if n > 0 {
        lemma_matching_prefix(jar, cookie, url, host, http, n - 1);
    }
}

} // verus!
