use lumen::browser::animation::{ActiveTransition, Animated, Progress};
use lumen::browser::controls::TextUpdate;
use lumen::browser::cookies::CookieJar;
use lumen::browser::cors::{CorsCheck, CorsGrant, CorsPreflight, ScriptCredentials};
use lumen::browser::damage::{Rect, RepaintDamage};
use lumen::browser::document::{Document, Element, Node, NodeId, NodeKind};
use lumen::browser::editor::{
    caret_index_at, overlay_texts, EditOp, EditResult, TextBuffer,
};
use lumen::browser::forms::Submission;
use lumen::browser::history::LoadError;
use lumen::browser::page_load::plan_images;
use lumen::browser::request::{ResourceRequest, ResourceResponse};
use lumen::browser::session::{HoverImpact, Reaction, Session};
use lumen::browser::url::Url;
use std::collections::HashMap;

// ---------------------------------------------------------------------------
// URLs and documents
// ---------------------------------------------------------------------------

fn url(text: &str) -> Url {
    let (scheme, rest) = text.split_once("://").expect("absolute URL");
    let cut = rest.find(['/', '?', '#']).unwrap_or(rest.len());
    let (authority, tail) = rest.split_at(cut);
    let tail = if tail.starts_with('/') { tail.to_string() } else { format!("/{tail}") };
    let (host, written) = match authority.split_once(':') {
        Some((host, port)) => (host, Some(port.parse().unwrap())),
        None => (authority, None),
    };
    let known = match scheme {
        "http" => Some(80),
        "https" => Some(443),
        _ => None,
    };
    let origin = match (scheme, written) {
        ("file", _) => "null".to_string(),
        (_, Some(port)) if Some(port) != known => format!("{scheme}://{host}:{port}"),
        _ => format!("{scheme}://{host}"),
    };
    let path = tail.split(['?', '#']).next().unwrap().to_string();
    Url {
        text: format!("{scheme}://{authority}{tail}"),
        scheme: scheme.to_string(),
        host: if host.is_empty() { None } else { Some(host.to_string()) },
        port: written.or(known),
        path,
        unicode_origin: origin.clone(),
        origin,
    }
}

fn join(base: &Url, target: &str) -> Url {
    if target.contains("://") {
        return url(target);
    }
    let authority = base.text.split_once("://").unwrap().1.split('/').next().unwrap();
    if target.starts_with('/') {
        return url(&format!("{}://{}{}", base.scheme, authority, target));
    }
    if target.starts_with('?') {
        return url(&format!("{}://{}{}{}", base.scheme, authority, base.path, target));
    }
    let directory = &base.path[..base.path.rfind('/').unwrap() + 1];
    url(&format!("{}://{}{}{}", base.scheme, authority, directory, target))
}

fn push_node(nodes: &mut Vec<Node>, parent: NodeId, kind: NodeKind) -> NodeId {
    let id = nodes.len();
    nodes.push(Node { kind, parent: Some(parent), children: Vec::new() });
    nodes[parent].children.push(id);
    id
}

fn attributes(source: &str) -> Vec<(String, String)> {
    let mut list = Vec::new();
    let mut rest = source.trim();
    while !rest.is_empty() {
        let end = rest.find(|c: char| c == '=' || c.is_whitespace()).unwrap_or(rest.len());
        let name = rest[..end].to_ascii_lowercase();
        rest = &rest[end..];
        let mut value = String::new();
        if let Some(after) = rest.strip_prefix('=') {
            let quote = after.chars().next().unwrap();
            if quote == '"' || quote == '\'' {
                let close = after[1..].find(quote).unwrap();
                value = after[1..1 + close].to_string();
                rest = &after[close + 2..];
            } else {
                let close = after.find(char::is_whitespace).unwrap_or(after.len());
                value = after[..close].to_string();
                rest = &after[close..];
            }
        }
        list.push((name, value));
        rest = rest.trim_start();
    }
    list
}

/// A document from well-formed markup.
fn html(source: &str) -> Document {
    let mut nodes = vec![Node { kind: NodeKind::Other, parent: None, children: Vec::new() }];
    let mut open: Vec<NodeId> = vec![0];
    let mut rest = source;
    while !rest.is_empty() {
        let parent = *open.last().unwrap();
        if let Some(after) = rest.strip_prefix("</") {
            rest = &after[after.find('>').unwrap() + 1..];
            open.pop();
        } else if let Some(after) = rest.strip_prefix('<') {
            let close = after.find('>').unwrap();
            let tag = &after[..close];
            rest = &after[close + 1..];
            let end = tag.find(char::is_whitespace).unwrap_or(tag.len());
            let name = tag[..end].to_ascii_lowercase();
            let element = Element { tag_name: name.clone(), attributes: attributes(&tag[end..]) };
            let id = push_node(&mut nodes, parent, NodeKind::Element(element));
            if name == "style" || name == "script" {
                let stop = rest.find(&format!("</{name}>")).unwrap();
                push_node(&mut nodes, id, NodeKind::Text(rest[..stop].to_string()));
                rest = &rest[stop + name.len() + 3..];
            } else if !["input", "img", "link", "br"].contains(&name.as_str()) {
                open.push(id);
            }
        } else {
            let stop = rest.find('<').unwrap_or(rest.len());
            push_node(&mut nodes, parent, NodeKind::Text(rest[..stop].to_string()));
            rest = &rest[stop..];
        }
    }
    Document { nodes }
}

fn nodes_with(document: &Document, wanted: impl Fn(&Element) -> bool) -> Vec<NodeId> {
    document
        .descendants(document.root())
        .into_iter()
        .filter(|id| document.element(*id).is_some_and(&wanted))
        .collect()
}

// ---------------------------------------------------------------------------
// A browser over canned responses
// ---------------------------------------------------------------------------

struct Browser {
    session: Session,
    pages: HashMap<String, String>,
    serve_cookies: HashMap<String, Vec<String>>,
    impact: HoverImpact,
    loads: Vec<String>,
    bodies: Vec<Option<String>>,
    cookies_sent: Vec<Option<String>>,
}

impl Browser {
    fn new(pages: &[(&str, &str)]) -> Self {
        Browser {
            session: Session::new(),
            pages: pages.iter().map(|(url, html)| (url.to_string(), html.to_string())).collect(),
            serve_cookies: HashMap::new(),
            impact: HoverImpact::Nothing,
            loads: Vec::new(),
            bodies: Vec::new(),
            cookies_sent: Vec::new(),
        }
    }

    fn with_set_cookie(mut self, url: &str, header: &str) -> Self {
        self.serve_cookies.entry(url.to_string()).or_default().push(header.to_string());
        self
    }

    fn with_impact(mut self, impact: HoverImpact) -> Self {
        self.impact = impact;
        self
    }

    fn fetch(&mut self, request: ResourceRequest) -> Result<ResourceResponse, LoadError> {
        self.loads.push(request.url.text.clone());
        self.bodies.push(
            request.body.as_ref().map(|(_, bytes)| String::from_utf8_lossy(bytes).into_owned()),
        );
        self.cookies_sent.push(request.cookie.clone());
        match self.pages.get(&request.url.text) {
            Some(text) => Ok(ResourceResponse {
                text: text.clone(),
                set_cookies: self
                    .serve_cookies
                    .get(&request.url.text)
                    .cloned()
                    .unwrap_or_default(),
                access_control_allow_origin: None,
                final_url: request.url,
            }),
            None => Err(LoadError::Http(format!("404: {}", request.url.text))),
        }
    }

    fn subresource(&mut self, url: Url) -> Result<ResourceResponse, LoadError> {
        let request = self.session.prepare_request(url, None)?;
        let response = self.fetch(request)?;
        self.session.store_response_cookies(&response.final_url, &response.set_cookies);
        Ok(response)
    }

    fn render(&mut self, target: Url, body: Option<(String, Vec<u8>)>) -> Result<Url, LoadError> {
        let request = self.session.prepare_request(target, body)?;
        let response = self.fetch(request)?;
        self.session.store_response_cookies(&response.final_url, &response.set_cookies);
        let base = response.final_url;
        self.session.begin_page(&base);
        let document = html(&response.text);
        let sheets = nodes_with(&document, |element| {
            element.is_tag("link") && element.get_or("rel", "").eq_ignore_ascii_case("stylesheet")
        });
        for sheet in sheets {
            let href = document.attribute(sheet, "href").unwrap().clone();
            let _ = self.subresource(join(&base, &href));
        }
        let sources: Vec<(NodeId, String)> =
            nodes_with(&document, |element| element.is_tag("img") && element.contains("src"))
                .into_iter()
                .map(|id| (id, document.attribute(id, "src").unwrap().clone()))
                .collect();
        let images = plan_images(&sources, &Vec::new());
        let resolved =
            images.into_iter().map(|(id, source)| (id, Some(join(&base, &source)))).collect();
        self.session.apply_stylesheet(false, self.impact);
        self.session.queue_images(resolved);
        self.session.show_page(document, &base);
        Ok(base)
    }

    fn load(&mut self, target: &str) -> Result<(), LoadError> {
        let loaded = self.render(url(target), None);
        self.session.load(loaded)
    }

    fn follow(&mut self, target: &str) -> Result<(), LoadError> {
        let base = self.session.refresh_target()?;
        let loaded = self.render(join(&base, target), None);
        self.session.load(loaded)
    }

    fn refresh(&mut self) -> Result<(), LoadError> {
        let target = self.session.refresh_target()?;
        self.render(target, None).map(|_| ())
    }

    fn back(&mut self) -> Result<(), LoadError> {
        let target = self.session.history.back_target()?;
        let outcome = self.render(target, None).map(|_| ());
        self.session.back(outcome)
    }

    fn forward(&mut self) -> Result<(), LoadError> {
        let target = self.session.history.forward_target()?;
        let outcome = self.render(target, None).map(|_| ());
        self.session.forward(outcome)
    }

    fn submit_form(&mut self, node: NodeId) -> Result<(), LoadError> {
        let base = self.session.refresh_target()?;
        match self.session.submit_form(node)? {
            Submission::Get { action, query } => {
                let target = match query {
                    Some(query) => format!("{action}?{query}"),
                    None => action,
                };
                let loaded = self.render(join(&base, &target), None);
                self.session.load(loaded)
            }
            Submission::Post { action, content_type, body } => {
                let body = Some((content_type, body.into_bytes()));
                let loaded = self.render(join(&base, &action), body);
                self.session.load(loaded)
            }
            _ => Ok(()),
        }
    }

    fn document(&self) -> &Document {
        self.session.page().unwrap()
    }

    fn find_tag(&self, tag: &str) -> NodeId {
        nodes_with(self.document(), |element| element.tag_name == tag)[0]
    }

    fn control_with(&self, name: &str, value: &str) -> NodeId {
        nodes_with(self.document(), |element| element.attribute_is(name, value))[0]
    }

    fn current(&self) -> &str {
        &self.session.current_url().unwrap().text
    }

    fn heading(&self) -> String {
        self.document().text_content(self.document().root())
    }

    /// A number input's value brought into its range; the lower bound waits
    /// for the end of the edit.
    fn bounded(&self, node: NodeId, value: &str, at_end: bool) -> Option<String> {
        let (min, max) = self.session.number_bounds(node)?;
        let number: f64 = value.parse().ok()?;
        let min: Option<f64> = min.and_then(|text| text.parse().ok());
        let max: Option<f64> = max.and_then(|text| text.parse().ok());
        let mut clamped = number;
        if let (Some(min), true) = (min, at_end) {
            clamped = clamped.max(min);
        }
        if let Some(max) = max {
            clamped = clamped.min(max);
        }
        if clamped == number {
            None
        } else {
            Some(format!("{clamped}"))
        }
    }

    fn edit(&mut self, op: EditOp) -> EditResult {
        let result = self.session.edit(&op);
        let node = self.session.editing().unwrap();
        let typed = self.session.edit_buffer().unwrap().text.clone();
        if let Some(value) = self.bounded(node, &typed, false) {
            self.session.replace_edit_text(value);
        }
        self.session.sync_edit_display(result == EditResult::Edited, |_, _| true);
        result
    }

    fn end_edit(&mut self) {
        let bounded = self.session.editing().and_then(|node| {
            let typed = self.session.edit_buffer().unwrap().text.clone();
            self.bounded(node, &typed, true)
        });
        self.session.end_edit(bounded);
    }
}

fn session() -> Browser {
    Browser::new(&[
        ("https://a.test/", "<h1>A</h1>"),
        ("https://a.test/two", "<h1>B</h1>"),
        ("https://a.test/three", "<h1>C</h1>"),
    ])
}

// ---------------------------------------------------------------------------
// Cookies
// ---------------------------------------------------------------------------

#[test]
fn stores_matches_and_deletes() {
    let mut jar = CookieJar::new();
    let page = url("https://shop.example.com/sepet/liste");
    jar.store(&page, "sid=abc123; Path=/; HttpOnly");
    jar.store(&page, "theme=dark; Domain=example.com; Path=/");
    jar.store(&page, "secret=s; Secure; Path=/");

    // Same host: all three.
    assert_eq!(jar.header_for_http(&page).unwrap(), "sid=abc123; theme=dark; secret=s");
    // Sibling subdomain: only the Domain=example.com cookie.
    assert_eq!(jar.header_for_http(&url("https://blog.example.com/")).unwrap(), "theme=dark");
    // Plain http: the Secure cookie stays home.
    assert_eq!(
        jar.header_for_http(&url("http://shop.example.com/")).unwrap(),
        "sid=abc123; theme=dark"
    );
    // Foreign domain: nothing.
    assert!(jar.header_for_http(&url("https://evil.test/")).is_none());
    // Max-Age=0 deletes (logout).
    jar.store(&page, "sid=; Path=/; Max-Age=0");
    assert_eq!(jar.header_for_http(&page).unwrap(), "theme=dark; secret=s");
}

#[test]
fn foreign_domain_attribute_is_rejected() {
    let mut jar = CookieJar::new();
    jar.store(&url("https://a.test/"), "x=1; Domain=evil.test");
    assert!(jar.header_for_http(&url("https://evil.test/")).is_none());
}

#[test]
fn http_only_is_hidden_from_script_but_sent_over_http() {
    let mut jar = CookieJar::new();
    let page = url("https://a.test/");
    jar.store(&page, "sid=abc; HttpOnly; Path=/");
    jar.store(&page, "tema=koyu; Path=/");
    // HTTP requests carry both.
    assert_eq!(jar.header_for_http(&page).unwrap(), "sid=abc; tema=koyu");
    // A script only sees the one that is not HttpOnly.
    assert_eq!(jar.header_for(&page).unwrap(), "tema=koyu");
}

#[test]
fn path_matching_follows_rfc_6265() {
    let mut jar = CookieJar::new();
    let page = url("https://a.test/docs/page");
    jar.store(&page, "a=1; Path=/docs");
    jar.store(&page, "b=2; Path=/docs/");
    // Exact match; "/docs/" does not match "/docs".
    assert_eq!(jar.header_for_http(&url("https://a.test/docs")).unwrap(), "a=1");
    // Prefix + next char '/', plus the cookie path ending in '/'.
    assert_eq!(jar.header_for_http(&url("https://a.test/docs/x")).unwrap(), "a=1; b=2");
    // A bare string prefix is NOT a match.
    assert!(jar.header_for_http(&url("https://a.test/docsify")).is_none());
}

#[test]
fn relative_path_attribute_falls_back_to_default_path() {
    let mut jar = CookieJar::new();
    jar.store(&url("https://a.test/dir/page"), "x=1; Path=relative");
    // The default path of /dir/page is /dir.
    assert_eq!(jar.header_for_http(&url("https://a.test/dir/other")).unwrap(), "x=1");
    assert!(jar.header_for_http(&url("https://a.test/")).is_none());
}

#[test]
fn secure_cookie_is_only_accepted_over_https() {
    let mut jar = CookieJar::new();
    // Rejected from an insecure origin.
    jar.store(&url("http://a.test/"), "s=1; Secure; Path=/");
    assert!(jar.header_for_http(&url("https://a.test/")).is_none());
    // Accepted over https, and still never sent over plain http.
    jar.store(&url("https://a.test/"), "s=1; Secure; Path=/");
    assert_eq!(jar.header_for_http(&url("https://a.test/")).unwrap(), "s=1");
    assert!(jar.header_for_http(&url("http://a.test/")).is_none());
}

// ---------------------------------------------------------------------------
// Editing
// ---------------------------------------------------------------------------

fn reference_previous_word(text: &str, caret: usize) -> usize {
    let chars: Vec<char> = text.chars().collect();
    let mut index = caret.min(chars.len());
    while index > 0 && !chars[index - 1].is_alphanumeric() {
        index -= 1;
    }
    while index > 0 && chars[index - 1].is_alphanumeric() {
        index -= 1;
    }
    index
}

fn reference_next_word(text: &str, caret: usize) -> usize {
    let chars: Vec<char> = text.chars().collect();
    let mut index = caret.min(chars.len());
    while index < chars.len() && !chars[index].is_alphanumeric() {
        index += 1;
    }
    while index < chars.len() && chars[index].is_alphanumeric() {
        index += 1;
    }
    index
}

#[test]
fn word_motions_match_reference_on_every_caret() {
    let samples = [
        "",
        "a",
        "hello world",
        "  spaced  out  ",
        "foo--bar__baz",
        "merhaba dünya, nasılsın?",
        "ünïcodé wörds ✓ ok",
        "one\ntwo\tthree",
    ];
    for text in samples {
        for caret in 0..=text.chars().count() + 1 {
            let buffer = TextBuffer { text: text.to_string(), caret, anchor: caret };
            assert_eq!(
                buffer.previous_word(),
                reference_previous_word(text, caret),
                "previous_word({text:?}, {caret})"
            );
            assert_eq!(
                buffer.next_word(),
                reference_next_word(text, caret),
                "next_word({text:?}, {caret})"
            );
        }
    }
}

#[test]
fn caret_index_at_x_matches_reference_binary_search() {
    let value = "hello dünya";
    let chars = value.chars().count();
    // Letters of unequal width, in a box that starts at 12.
    let widths: Vec<f32> = value.chars().map(|c| if c == 'l' { 3.5 } else { 7.25 }).collect();
    let width_to = |index: usize| -> f32 { widths[..index].iter().sum() };
    let left = 12.0;
    let mut seen = Vec::new();
    let mut x = left - 5.0;
    while x <= left + width_to(chars) + 5.0 {
        let relative = (x - left).max(0.0);
        let (mut low, mut high) = (0usize, chars);
        while low < high {
            let mid = low + (high - low) / 2;
            if width_to(mid) >= relative {
                high = mid;
            } else {
                low = mid + 1;
            }
        }
        let actual = caret_index_at(0, chars, |index| width_to(index) >= relative);
        assert_eq!(actual, low, "caret_index_at at x={x}");
        seen.push(actual);
        x += 0.5;
    }
    assert_eq!(seen.first(), Some(&0));
    assert_eq!(seen.last(), Some(&chars));
    for index in 0..=chars {
        assert!(seen.contains(&index), "caret slot {index} unreachable");
    }
}

#[test]
fn session_owned_editing_types_selects_and_overlays() {
    let mut browser = Browser::new(&[(
        "https://a.test/",
        "<form><input type='text' name='q' value='abc'></form>",
    )]);
    browser.load("https://a.test/").unwrap();
    let field = browser.find_tag("input");
    assert!(browser.session.begin_edit(field, None, None).0);
    assert_eq!(browser.session.editing(), Some(field));
    // Everything starts selected: typing replaces the value.
    browser.edit(EditOp::Insert("merhaba".to_string()));
    assert_eq!(browser.session.form_value(field), "merhaba");
    browser.edit(EditOp::SelectAll);
    let buffer = browser.session.edit_buffer().unwrap();
    assert_eq!(buffer.selected_text(), "merhaba".to_string());
    let display = browser.session.control_display_text(field, "merhaba");
    let overlay = overlay_texts(&display, 0, buffer);
    assert_eq!(overlay.before_caret, "merhaba");
    assert_eq!(overlay.selection, Some((String::new(), "merhaba".to_string())));
    // Ending the edit clears the state.
    browser.end_edit();
    assert_eq!(browser.session.editing(), None);
    assert!(browser.session.edit_buffer().is_none());
}

#[test]
fn number_input_clamps_typed_values_to_min_max() {
    let mut browser = Browser::new(&[(
        "https://a.test/",
        "<form><input type='number' name='n' value='' min='0' max='99'></form>",
    )]);
    browser.load("https://a.test/").unwrap();
    let field = browser.find_tag("input");
    assert!(browser.session.begin_edit(field, None, None).0);
    // Typing past the maximum clamps on the spot: 1, 12, 123 -> 99.
    browser.edit(EditOp::Insert("1".to_string()));
    browser.edit(EditOp::Insert("2".to_string()));
    browser.edit(EditOp::Insert("3".to_string()));
    assert_eq!(browser.session.form_value(field), "99");
    // The lower bound is NOT enforced mid-edit.
    browser.edit(EditOp::SelectAll);
    for digit in ["-", "1", "2", "3"] {
        browser.edit(EditOp::Insert(digit.to_string()));
    }
    assert_eq!(browser.session.form_value(field), "-123");
    // ...it clamps up when editing ends.
    browser.end_edit();
    assert_eq!(browser.session.form_value(field), "0");
    // A partial state like "-" is left alone mid-edit.
    assert!(browser.session.begin_edit(field, None, None).0);
    browser.edit(EditOp::SelectAll);
    browser.edit(EditOp::Insert("-".to_string()));
    assert_eq!(browser.session.form_value(field), "-");
}

#[test]
fn number_input_below_min_is_not_mangled_while_typing() {
    let mut browser = Browser::new(&[(
        "https://a.test/",
        "<form><input type='number' name='n' value='' min='5' max='99'></form>",
    )]);
    browser.load("https://a.test/").unwrap();
    let field = browser.find_tag("input");
    // With min=5, typing "35" must not turn the leading "3" into "5".
    assert!(browser.session.begin_edit(field, None, None).0);
    browser.edit(EditOp::Insert("3".to_string()));
    assert_eq!(browser.session.form_value(field), "3");
    browser.edit(EditOp::Insert("5".to_string()));
    assert_eq!(browser.session.form_value(field), "35");
    // Left below the minimum, the value clamps up when editing ends.
    browser.edit(EditOp::SelectAll);
    browser.edit(EditOp::Insert("2".to_string()));
    browser.end_edit();
    assert_eq!(browser.session.form_value(field), "5");
}

#[test]
fn typed_values_render_in_the_display_list() {
    let mut browser = Browser::new(&[(
        "https://a.test/",
        "<form><input type='text' name='q' placeholder='ara'></form>",
    )]);
    browser.load("https://a.test/").unwrap();
    let field = browser.find_tag("input");
    match browser.session.set_form_value(field, "") {
        Some(TextUpdate::Generated(text)) => assert!(text.contains("ara")),
        other => panic!("unexpected update {other:?}"),
    }
    match browser.session.set_form_value(field, "merhaba") {
        Some(TextUpdate::Generated(text)) => {
            assert!(text.contains("merhaba") && !text.contains("ara"))
        }
        other => panic!("unexpected update {other:?}"),
    }
}

#[test]
fn input_values_keep_consecutive_spaces() {
    let mut browser = Browser::new(&[(
        "https://a.test/",
        "<form><input type='text' name='q'></form>",
    )]);
    browser.load("https://a.test/").unwrap();
    let field = browser.find_tag("input");
    match browser.session.set_form_value(field, "a   b") {
        Some(TextUpdate::Generated(text)) => assert_eq!(text, "a   b"),
        other => panic!("unexpected update {other:?}"),
    }
}

// ---------------------------------------------------------------------------
// Script reads
// ---------------------------------------------------------------------------

#[test]
fn script_read_same_origin_keeps_cookies_cross_origin_drops_them() {
    let mut browser = session();
    browser.load("https://a.test/").unwrap();
    browser.session.cookies.store(&url("https://a.test/"), "sid=1");
    // Same-origin read: the jar's cookie rides, no CORS check.
    let (request, check) = browser
        .session
        .prepare_script_read(
            url("https://a.test/data"),
            None,
            ScriptCredentials::SameOrigin,
            "GET",
            &Vec::new(),
        )
        .unwrap();
    assert_eq!(request.cookie.as_deref(), Some("sid=1"));
    assert!(check.is_none());
    // Cross-origin read (same host, another scheme+port): the cookie stays
    // home, a check comes back.
    let (request, check) = browser
        .session
        .prepare_script_read(
            url("http://a.test:8080/data"),
            None,
            ScriptCredentials::SameOrigin,
            "GET",
            &Vec::new(),
        )
        .unwrap();
    assert_eq!(request.cookie, None);
    let check = check.expect("cross-origin read carries a CORS check");
    assert!(!check.credentialed);
    assert!(check.preflight.is_none(), "GET is a simple request");
    // credentials: include sends the cookie cross-origin too.
    let (request, check) = browser
        .session
        .prepare_script_read(
            url("http://a.test:8080/data"),
            None,
            ScriptCredentials::Include,
            "GET",
            &Vec::new(),
        )
        .unwrap();
    assert_eq!(request.cookie.as_deref(), Some("sid=1"));
    assert!(check.expect("cross-origin read").credentialed);
}

#[test]
fn non_simple_reads_carry_a_preflight_until_cached() {
    let mut browser = session();
    browser.load("https://a.test/").unwrap();
    let custom = vec![("X-Token".to_string(), "abc".to_string())];
    // A custom header makes the read non-simple: a probe comes back.
    let (_, check) = browser
        .session
        .prepare_script_read(
            url("http://a.test:8080/data"),
            None,
            ScriptCredentials::SameOrigin,
            "GET",
            &custom,
        )
        .unwrap();
    let probe = check
        .expect("cross-origin read")
        .preflight
        .expect("custom header needs a preflight");
    assert_eq!(probe.method, "GET");
    assert_eq!(probe.headers, vec!["x-token"]);
    // A PUT without headers is non-simple too (the method).
    let (_, check) = browser
        .session
        .prepare_script_read(
            url("http://a.test:8080/data"),
            Some(("text/plain".to_string(), b"hi".to_vec())),
            ScriptCredentials::SameOrigin,
            "PUT",
            &Vec::new(),
        )
        .unwrap();
    let probe = check.expect("cross-origin read").preflight.expect("PUT probe");
    assert_eq!(probe.method, "PUT");
    assert!(probe.headers.is_empty());
    // A POST with a simple Content-Type stays simple (no probe).
    let (_, check) = browser
        .session
        .prepare_script_read(
            url("http://a.test:8080/data"),
            Some(("text/plain;charset=UTF-8".to_string(), b"hi".to_vec())),
            ScriptCredentials::SameOrigin,
            "POST",
            &Vec::new(),
        )
        .unwrap();
    assert!(check.expect("cross-origin read").preflight.is_none());
    // Once a grant is cached for the origin+URL, the probe is gone.
    browser.session.cache_preflight("https://a.test", &url("http://a.test:8080/data"));
    let (_, check) = browser
        .session
        .prepare_script_read(
            url("http://a.test:8080/data"),
            None,
            ScriptCredentials::SameOrigin,
            "GET",
            &custom,
        )
        .unwrap();
    assert!(check.expect("cross-origin read").preflight.is_none());
}

fn grant(origin: Option<&str>, methods: &[&str], headers: &[&str]) -> CorsGrant {
    CorsGrant {
        allow_origin: origin.map(str::to_string),
        allow_methods: methods.iter().map(|m| (*m).to_string()).collect(),
        allow_headers: headers.iter().map(|h| (*h).to_string()).collect(),
    }
}

#[test]
fn preflight_grants_are_checked_against_method_headers_and_origin() {
    let probe = |headers: &[&str]| CorsPreflight {
        url: url("http://a.test:8080/data"),
        method: "PUT".to_string(),
        headers: headers.iter().map(|h| (*h).to_string()).collect(),
    };
    let check = |preflight, credentialed| CorsCheck {
        page_origin: "https://a.test".to_string(),
        credentialed,
        preflight,
    };
    let put_token = check(Some(probe(&["x-token"])), false);
    // A full grant passes; each missing piece blocks on its own.
    assert!(!put_token.preflight_blocks(&grant(
        Some("https://a.test"),
        &["get", "put"],
        &["x-token"]
    )));
    assert!(put_token.preflight_blocks(&grant(None, &["put"], &["x-token"])));
    assert!(put_token.preflight_blocks(&grant(Some("https://evil.test"), &["put"], &["x-token"])));
    assert!(put_token.preflight_blocks(&grant(Some("https://a.test"), &["get"], &["x-token"])));
    assert!(put_token.preflight_blocks(&grant(Some("https://a.test"), &["put"], &[])));
    // Wildcards cover a non-credentialed read...
    assert!(!put_token.preflight_blocks(&grant(Some("*"), &["*"], &["*"])));
    // ...but not a credentialed one.
    let credentialed = check(Some(probe(&["x-token"])), true);
    assert!(credentialed.preflight_blocks(&grant(Some("*"), &["*"], &["*"])));
    assert!(!credentialed.preflight_blocks(&grant(
        Some("https://a.test"),
        &["put"],
        &["x-token"]
    )));
}

#[test]
fn cors_check_blocks_missing_wildcard_and_foreign_grants() {
    let response = |acao: Option<&str>| acao.map(str::to_string);
    let check = CorsCheck {
        page_origin: "https://a.test".to_string(),
        credentialed: false,
        preflight: None,
    };
    assert!(check.blocks(&response(None)));
    assert!(!check.blocks(&response(Some("*"))));
    assert!(!check.blocks(&response(Some("https://a.test"))));
    assert!(check.blocks(&response(Some("https://evil.test"))));
    // '*' is not a valid grant for a credentialed read.
    let credentialed = CorsCheck { credentialed: true, ..check };
    assert!(credentialed.blocks(&response(Some("*"))));
    assert!(!credentialed.blocks(&response(Some("https://a.test"))));
}

// ---------------------------------------------------------------------------
// Navigation
// ---------------------------------------------------------------------------

#[test]
fn load_renders_and_records_history() {
    let mut browser = session();
    browser.load("https://a.test/").unwrap();
    assert_eq!(browser.heading(), "A");
    assert_eq!(browser.current(), "https://a.test/");
    assert!(!browser.session.can_go_back());
}

#[test]
fn back_and_forward_walk_history() {
    let mut browser = session();
    browser.load("https://a.test/").unwrap();
    browser.load("https://a.test/two").unwrap();
    assert!(browser.session.can_go_back());

    browser.back().unwrap();
    assert_eq!(browser.heading(), "A");
    assert!(browser.session.can_go_forward());

    browser.forward().unwrap();
    assert_eq!(browser.heading(), "B");
    assert!(!browser.session.can_go_forward());
}

#[test]
fn navigating_after_back_drops_forward_entries() {
    let mut browser = session();
    browser.load("https://a.test/").unwrap();
    browser.load("https://a.test/two").unwrap();
    browser.back().unwrap();
    browser.load("https://a.test/three").unwrap();
    assert!(!browser.session.can_go_forward());
    assert!(browser.back().is_ok());
    assert_eq!(browser.current(), "https://a.test/");
}

#[test]
fn refresh_refetches_current_url() {
    let mut browser = session();
    browser.load("https://a.test/").unwrap();
    browser.refresh().unwrap();
    assert_eq!(browser.loads, vec!["https://a.test/", "https://a.test/"]);
}

#[test]
fn follow_resolves_relative_links() {
    let mut browser = session();
    browser.load("https://a.test/").unwrap();
    browser.follow("two").unwrap();
    assert_eq!(browser.heading(), "B");
    assert_eq!(browser.current(), "https://a.test/two");
}

#[test]
fn errors_do_not_corrupt_history() {
    let mut browser = session();
    browser.load("https://a.test/").unwrap();
    assert!(browser.load("https://a.test/missing").is_err());
    // The failed load did not become the current entry.
    assert_eq!(browser.current(), "https://a.test/");
    assert!(browser.back().is_err());
}

#[test]
fn link_target_finds_nearest_anchor() {
    let mut browser = Browser::new(&[(
        "https://a.test/",
        "<div><a href='two'><span>go</span></a></div>",
    )]);
    browser.load("https://a.test/").unwrap();
    let span = browser.find_tag("span");
    assert_eq!(browser.session.link_target(span).as_deref(), Some("two"));
    let div = browser.find_tag("div");
    assert_eq!(browser.session.link_target(div), None);
}

#[test]
fn external_stylesheets_load_resolve_and_apply() {
    let mut browser = Browser::new(&[
        (
            "https://a.test/docs/page",
            "<link rel='stylesheet' href='theme.css'>\
             <link rel=\"STYLESHEET\" href=\"/root.css\">\
             <link rel='icon' href='favicon.ico'>\
             <p>hi</p>",
        ),
        ("https://a.test/docs/theme.css", "p { color: #ff0000; }"),
        ("https://a.test/root.css", "p { font-size: 20px; }"),
    ]);
    browser.load("https://a.test/docs/page").unwrap();
    // Page + 2 stylesheets; the icon link was not fetched.
    assert_eq!(
        browser.loads,
        vec![
            "https://a.test/docs/page",
            "https://a.test/docs/theme.css",
            "https://a.test/root.css"
        ]
    );
}

#[test]
fn missing_external_stylesheet_does_not_break_the_page() {
    let mut browser = Browser::new(&[(
        "https://a.test/",
        "<link rel='stylesheet' href='gone.css'>\
         <style>p { color: #00ff00; }</style><p>hi</p>",
    )]);
    browser.load("https://a.test/").unwrap();
    assert!(browser.heading().contains("hi"));
}

#[test]
fn hover_and_resize_do_not_refetch_external_css() {
    let mut browser = Browser::new(&[
        ("https://a.test/", "<link rel='stylesheet' href='a.css'><p>hi</p>"),
        ("https://a.test/a.css", "p { color: red; }"),
    ]);
    browser.load("https://a.test/").unwrap();
    browser.session.note_full_repaint();
    browser.session.set_hovered(Some(1), true);
    assert_eq!(browser.loads.len(), 2);
}

#[test]
fn interaction_state_resets_across_navigation() {
    let mut browser = Browser::new(&[
        (
            "https://a.test/",
            "<form action='/next'><input type='text' name='q'>\
             <p>filler filler filler filler filler filler filler</p>\
             <p>more filler to raise node counts</p></form>",
        ),
        ("https://a.test/next?q=", "<p>tiny</p>"),
    ]);
    browser.load("https://a.test/").unwrap();
    let field = browser.find_tag("input");
    // Focus + press a high-id node, then navigate to a smaller page:
    // stale ids must not be walked on the new document.
    browser.session.set_focused(Some(field), true);
    browser.session.set_active(Some(field), true);
    browser.submit_form(field).unwrap();
    assert_eq!(browser.current(), "https://a.test/next?q=");
    assert_eq!(browser.session.focused(), None);
    assert_eq!(browser.session.active, None);
    assert!(browser.session.page().is_some());
}

#[test]
fn cookies_persist_across_navigations() {
    let mut browser = Browser::new(&[
        ("https://a.test/", "<a href='/ic'>gir</a>"),
        ("https://a.test/ic", "<p>ic</p>"),
    ])
    .with_set_cookie("https://a.test/", "sid=gizli; Path=/");
    browser.load("https://a.test/").unwrap();
    browser.follow("/ic").unwrap();
    // First request: no cookie yet; second carries the session id.
    assert_eq!(browser.cookies_sent[0], None);
    assert_eq!(browser.cookies_sent[1].as_deref(), Some("sid=gizli"));
}

#[test]
fn secure_set_cookie_over_http_is_ignored() {
    let mut browser = Browser::new(&[
        ("http://a.test/", "<a href='/iki'>x</a>"),
        ("http://a.test/iki", "<p>iki</p>"),
    ])
    .with_set_cookie("http://a.test/", "sid=abc; Secure; Path=/");
    browser.load("http://a.test/").unwrap();
    browser.follow("/iki").unwrap();
    // The insecure origin's Secure cookie was never stored.
    assert_eq!(browser.cookies_sent[1], None);
}

#[test]
fn remote_pages_cannot_fetch_file_urls() {
    let mut browser = Browser::new(&[(
        "https://a.test/",
        "<link rel='stylesheet' href='file:///etc/passwd'><p>hi</p>",
    )]);
    browser.load("https://a.test/").unwrap();
    // The page still renders; the file: stylesheet never reached the loader.
    assert!(browser.session.page().is_some());
    assert_eq!(browser.loads, vec!["https://a.test/"]);
}

#[test]
fn visited_links_match_after_navigation() {
    let mut browser = Browser::new(&[
        (
            "https://a.test/",
            "<style>a:visited { color: #800080; }</style>\
             <a href='/there'>go</a>",
        ),
        ("https://a.test/there", "<a href='/'>back</a>"),
    ]);
    browser.load("https://a.test/").unwrap();
    let link = browser.find_tag("a");
    let links = |browser: &Browser| {
        let base = browser.session.current_url().unwrap().clone();
        vec![(link, Some(join(&base, browser.document().attribute(link, "href").unwrap())))]
    };
    assert!(browser.session.visited_link_nodes(&links(&browser)).is_empty());
    browser.follow("/there").unwrap();
    browser.follow("/").unwrap();
    // The link to /there is now visited.
    assert_eq!(browser.session.visited_link_nodes(&links(&browser)), vec![link]);
}

#[test]
fn title_comes_from_the_title_element() {
    let mut browser = Browser::new(&[(
        "https://a.test/",
        "<html><head><title>  My Page </title></head><body>x</body></html>",
    )]);
    browser.load("https://a.test/").unwrap();
    assert_eq!(browser.session.title().as_deref(), Some("My Page"));
}

#[test]
fn images_load_decode_and_lay_out() {
    let mut browser = Browser::new(&[("https://a.test/", "<img src='red.png' width='40'>")]);
    browser.load("https://a.test/").unwrap();
    let image = browser.find_tag("img");
    assert!(browser.session.has_pending_images());
    let pending = browser.session.take_pending_images();
    assert_eq!(pending.len(), 1);
    assert_eq!(pending[0].0, image);
    assert_eq!(pending[0].1.url.text, "https://a.test/red.png");
    assert!(!browser.session.has_pending_images());
}

#[test]
fn broken_image_leaves_page_intact() {
    let mut browser =
        Browser::new(&[("https://a.test/", "<img src='gone.png'><p>still here</p>")]);
    browser.load("https://a.test/").unwrap();
    for (_, request) in browser.session.take_pending_images() {
        assert!(browser.fetch(request).is_err());
    }
    assert!(browser.heading().contains("still here"));
}

#[test]
fn viewport_change_relayouts_without_refetching() {
    let mut browser = session();
    browser.load("https://a.test/").unwrap();
    browser.session.note_rasterized();
    browser.session.note_full_repaint();
    assert_eq!(browser.session.repaint_damage(), RepaintDamage::Full);
    // Only the initial load hit the loader.
    assert_eq!(browser.loads.len(), 1);
}

// ---------------------------------------------------------------------------
// Interaction and repainting
// ---------------------------------------------------------------------------

#[test]
fn hover_restyles_locally_and_reports_changes() {
    let mut browser = Browser::new(&[(
        "https://a.test/",
        "<style>p:hover { color: #ff0000; }</style><p>hi</p>",
    )])
    .with_impact(HoverImpact::PaintOnly);
    browser.load("https://a.test/").unwrap();
    let p = browser.find_tag("p");
    assert_eq!(browser.session.set_hovered(Some(p), true), Reaction::Repaint);
    assert_eq!(browser.session.set_hovered(Some(p), true), Reaction::Ignored); // unchanged
    assert_eq!(browser.session.set_hovered(None, true), Reaction::Repaint);
    // Initial load only; hover never touched the network.
    assert_eq!(browser.loads.len(), 1);
}

#[test]
fn paint_only_hover_reports_damage_region() {
    let mut browser = Browser::new(&[(
        "https://a.test/",
        "<style>p { width: 100px; height: 20px; }\
                p:hover { color: #ff0000; }</style><p>hi</p>",
    )])
    .with_impact(HoverImpact::PaintOnly);
    browser.load("https://a.test/").unwrap();
    // Navigation requires a full raster; once the shell has
    // rasterized it, the cache is current and damage is empty.
    assert_eq!(browser.session.repaint_damage(), RepaintDamage::Full);
    browser.session.note_rasterized();
    assert_eq!(browser.session.repaint_damage(), RepaintDamage::Region(None));

    let p = browser.find_tag("p");
    let p_box = Rect { left: 8, top: 8, right: 108, bottom: 28 };
    assert_eq!(browser.session.set_hovered(Some(p), true), Reaction::Repaint);
    browser.session.note_paint_damage(Some(p_box));
    assert_eq!(browser.session.repaint_damage(), RepaintDamage::Region(Some(p_box)));

    // Hovering off unions with the pending damage (same rect here).
    assert_eq!(browser.session.set_hovered(None, true), Reaction::Repaint);
    browser.session.note_paint_damage(Some(p_box));
    assert_eq!(browser.session.repaint_damage(), RepaintDamage::Region(Some(p_box)));
}

#[test]
fn paint_only_restyle_without_visible_change_reports_empty_damage() {
    let mut browser = Browser::new(&[(
        "https://a.test/",
        "<style>p:hover { cursor: pointer; }</style><p>hi</p>",
    )])
    .with_impact(HoverImpact::PaintOnly);
    browser.load("https://a.test/").unwrap();
    browser.session.note_rasterized();
    let p = browser.find_tag("p");
    assert_eq!(browser.session.set_hovered(Some(p), true), Reaction::Repaint);
    browser.session.note_paint_damage(None);
    assert_eq!(browser.session.repaint_damage(), RepaintDamage::Region(None));
}

#[test]
fn relayout_after_hover_resets_damage_to_full() {
    let mut browser = Browser::new(&[(
        "https://a.test/",
        "<style>p:hover { color: #ff0000; }</style><p>hi</p>",
    )])
    .with_impact(HoverImpact::PaintOnly);
    browser.load("https://a.test/").unwrap();
    browser.session.note_rasterized();
    let p = browser.find_tag("p");
    assert_eq!(browser.session.set_hovered(Some(p), true), Reaction::Repaint);
    browser.session.note_paint_damage(Some(Rect { left: 0, top: 0, right: 9, bottom: 9 }));
    assert!(matches!(browser.session.repaint_damage(), RepaintDamage::Region(Some(_))));
    browser.session.note_full_repaint();
    assert_eq!(browser.session.repaint_damage(), RepaintDamage::Full);
}

#[test]
fn layout_hover_rules_skip_relayout_for_unrelated_targets() {
    let mut browser = Browser::new(&[(
        "https://a.test/",
        "<style>a { display: block; } a:hover { padding: 8px; }</style>\
         <p>unrelated paragraph</p><a href='/x'>link</a>",
    )])
    .with_impact(HoverImpact::Layout);
    browser.load("https://a.test/").unwrap();
    browser.session.note_rasterized();
    let (paragraph, anchor) = (browser.find_tag("p"), browser.find_tag("a"));
    // Hovering something no hover rule involves: no restyle at all.
    assert_eq!(browser.session.set_hovered(Some(paragraph), false), Reaction::Ignored);
    assert_eq!(browser.session.repaint_damage(), RepaintDamage::Region(None));
    // Hovering the link: the padding rule fires, full relayout.
    assert_eq!(browser.session.set_hovered(Some(anchor), true), Reaction::Relayout);
    assert_eq!(browser.session.repaint_damage(), RepaintDamage::Full);
}

#[test]
fn active_and_focus_restyle_their_targets() {
    let mut browser = Browser::new(&[(
        "https://a.test/",
        "<style>a:active { color: #ff0000; } a:focus { color: #00ff00; }</style>\
         <a href='/x'>press me</a>",
    )])
    .with_impact(HoverImpact::PaintOnly);
    browser.load("https://a.test/").unwrap();
    let anchor = browser.find_tag("a");
    assert_eq!(browser.session.set_active(Some(anchor), true), Reaction::Repaint);
    assert_eq!(browser.session.set_active(None, true), Reaction::Repaint);
    assert_eq!(browser.session.set_focused(Some(anchor), true), Reaction::Repaint);
    assert_eq!(browser.session.focused(), Some(anchor));
}

#[test]
fn paint_only_hover_repaints_without_relayout() {
    let mut browser = Browser::new(&[(
        "https://a.test/",
        "<style>p { color: #111111; } p:hover { color: #ff0000; }</style>\
         <p>hover target</p>",
    )])
    .with_impact(HoverImpact::PaintOnly);
    browser.load("https://a.test/").unwrap();
    let paragraph = browser.find_tag("p");
    // Boxes do not move: the page is repainted as it is laid out.
    assert_eq!(browser.session.set_hovered(Some(paragraph), true), Reaction::Repaint);
    assert_eq!(browser.session.hovered, Some(paragraph));
}

#[test]
fn paint_only_hover_on_unrelated_element_is_free() {
    let mut browser = Browser::new(&[(
        "https://a.test/",
        "<style>a:hover { color: #ff0000; }</style>\
         <p>plain text</p><a href='/x'>link</a>",
    )])
    .with_impact(HoverImpact::PaintOnly);
    browser.load("https://a.test/").unwrap();
    let paragraph = browser.find_tag("p");
    // The paragraph triggers no hover rule: no restyle, no redraw.
    assert_eq!(browser.session.set_hovered(Some(paragraph), false), Reaction::Ignored);
}

#[test]
fn hover_without_hover_rules_is_free() {
    let mut browser = Browser::new(&[("https://a.test/", "<p>plain</p>")]);
    browser.load("https://a.test/").unwrap();
    let node = browser.find_tag("p");
    // Reports "nothing changed": no restyle, no repaint needed.
    assert_eq!(browser.session.set_hovered(Some(node), true), Reaction::Ignored);
}

#[test]
fn hovering_generated_content_does_not_panic() {
    let mut browser = Browser::new(&[(
        "https://a.test/",
        "<style>p::before { content: \"* \"; } p:hover { color: #ff0000; }</style>\
         <p>hover me</p>",
    )])
    .with_impact(HoverImpact::PaintOnly);
    browser.load("https://a.test/").unwrap();
    // An id past the document's own nodes, as generated content has.
    let generated = browser.document().nodes.len();
    assert_eq!(browser.session.set_hovered(Some(generated), true), Reaction::Repaint);
    assert_eq!(browser.session.link_target(generated), None);
    assert_eq!(browser.session.form_value(generated), "");
    assert!(browser.session.page().is_some());
}

#[test]
fn color_animation_ticks_damage_only_the_animated_box() {
    let mut browser = Browser::new(&[("https://a.test/", "<div class='kut' id='k'>x</div>")]);
    browser.load("https://a.test/").unwrap();
    browser.session.note_rasterized();
    let node = browser.control_with("id", "k");
    browser.session.animations.start_transition(ActiveTransition {
        node,
        property: Animated::BackgroundColor,
        key: 1,
    });
    let running = vec![Progress { running: true, kept: true }];
    let plan = browser.session.tick(&running, &Vec::new());
    assert!(!plan.full_repaint);
    assert_eq!(plan.damaged, vec![node]);
    assert!(plan.any_active);
    let border = Rect { left: 8, top: 8, right: 58, bottom: 58 };
    browser.session.finish_tick(&plan, &vec![Some(border)]);
    assert_eq!(browser.session.repaint_damage(), RepaintDamage::Region(Some(border)));
    // The shell consumes the marker on raster; the next tick re-arms.
    browser.session.note_rasterized();
    let plan = browser.session.tick(&running, &Vec::new());
    browser.session.finish_tick(&plan, &vec![Some(border)]);
    assert!(matches!(browser.session.repaint_damage(), RepaintDamage::Region(Some(_))));
}

#[test]
fn transform_animation_ticks_force_a_full_repaint() {
    let mut browser = Browser::new(&[("https://a.test/", "<div class='d'>x</div>")]);
    browser.load("https://a.test/").unwrap();
    let node = browser.find_tag("div");
    browser.session.animations.start_transition(ActiveTransition {
        node,
        property: Animated::Transform,
        key: 1,
    });
    let running = vec![Progress { running: true, kept: true }];
    browser.session.note_rasterized();
    let plan = browser.session.tick(&running, &Vec::new());
    browser.session.finish_tick(&plan, &Vec::new());
    assert_eq!(browser.session.repaint_damage(), RepaintDamage::Full);
    // Transformed paint can land anywhere: no damage rect.
    assert!(plan.full_repaint);
}

#[test]
fn transitions_interpolate_hover_colors_over_time() {
    let mut browser = Browser::new(&[("https://a.test/", "<a href='/x'>fade</a>")]);
    browser.load("https://a.test/").unwrap();
    let anchor = browser.find_tag("a");
    browser.session.animations.start_transition(ActiveTransition {
        node: anchor,
        property: Animated::Color,
        key: 7,
    });
    // While it runs it is kept; when it ends no frames are left.
    let running = vec![Progress { running: true, kept: true }];
    assert!(browser.session.tick(&running, &Vec::new()).any_active);
    let ended = vec![Progress { running: false, kept: false }];
    assert!(!browser.session.tick(&ended, &Vec::new()).any_active);
    assert!(browser.session.animations.transitions.is_empty());
}

// ---------------------------------------------------------------------------
// Forms
// ---------------------------------------------------------------------------

#[test]
fn form_values_edit_and_submit_as_get_query() {
    let mut browser = Browser::new(&[
        (
            "https://a.test/",
            "<form action='/search'>\
             <input type='text' name='q' value=''>\
             <input type='hidden' name='hl' value='tr'>\
             <input type='checkbox' name='safe' value='1' checked>\
             <input type='submit' value='Go'></form>",
        ),
        ("https://a.test/search?q=hello+w%26rld&hl=tr&safe=1", "<p>results</p>"),
    ]);
    browser.load("https://a.test/").unwrap();
    let field = browser.control_with("name", "q");
    browser.session.set_form_value(field, "hello w&rld");
    assert_eq!(browser.session.form_value(field), "hello w&rld");
    browser.submit_form(field).unwrap();
    assert_eq!(browser.current(), "https://a.test/search?q=hello+w%26rld&hl=tr&safe=1");
}

#[test]
fn range_overflow_blocks_submission_with_a_violation() {
    let mut browser = Browser::new(&[
        (
            "https://a.test/",
            "<form action='/go'>\
             <input type='number' name='n' max='99' value='123'>\
             <input type='submit' value='Go'></form>",
        ),
        ("https://a.test/go?n=123", "<p>should not load</p>"),
    ]);
    browser.load("https://a.test/").unwrap();
    let field = browser.control_with("name", "n");
    browser.submit_form(field).unwrap();
    // The navigation never happened; the violation is on the session.
    assert_eq!(browser.current(), "https://a.test/");
    let violation = browser.session.form_violation().unwrap();
    assert_eq!(violation.node, field);
    assert_eq!(violation.message, "Value must be less than or equal to 99.");
}

#[test]
fn range_underflow_and_document_order_pick_the_first_violation() {
    let mut browser = Browser::new(&[(
        "https://a.test/",
        "<form action='/go'>\
         <input type='number' name='low' min='10' value='2'>\
         <input type='number' name='high' max='99' value='123'>\
         </form>",
    )]);
    browser.load("https://a.test/").unwrap();
    let high = browser.control_with("name", "high");
    // Both fields are invalid; the earlier one in the form wins.
    browser.submit_form(high).unwrap();
    let violation = browser.session.form_violation().unwrap();
    assert_eq!(violation.node, browser.control_with("name", "low"));
    assert_eq!(violation.message, "Value must be greater than or equal to 10.");
    assert_eq!(browser.current(), "https://a.test/");
}

#[test]
fn required_empty_input_blocks_submission() {
    let mut browser = Browser::new(&[
        (
            "https://a.test/",
            "<form action='/go'>\
             <input type='text' name='q' required>\
             <textarea name='not' required></textarea></form>",
        ),
        ("https://a.test/go?q=x&not=y", "<p>ok</p>"),
    ]);
    browser.load("https://a.test/").unwrap();
    let field = browser.control_with("name", "q");
    browser.submit_form(field).unwrap();
    assert_eq!(browser.current(), "https://a.test/");
    let violation = browser.session.form_violation().unwrap();
    assert_eq!(violation.node, field);
    assert_eq!(violation.message, "Please fill out this field.");
    // Filling both required fields lets the submit through and
    // clears the violation.
    browser.session.set_form_value(field, "x");
    let note = browser.control_with("name", "not");
    browser.session.set_form_value(note, "y");
    browser.submit_form(field).unwrap();
    assert_eq!(browser.session.form_violation(), None);
    assert_eq!(browser.current(), "https://a.test/go?q=x&not=y");
}

#[test]
fn a_valid_value_submits_and_clears_the_violation() {
    let mut browser = Browser::new(&[
        (
            "https://a.test/",
            "<form action='/go'>\
             <input type='number' name='n' min='1' max='99' value='123'>\
             </form>",
        ),
        ("https://a.test/go?n=50", "<p>ok</p>"),
    ]);
    browser.load("https://a.test/").unwrap();
    let field = browser.control_with("name", "n");
    browser.submit_form(field).unwrap();
    assert!(browser.session.form_violation().is_some());
    // Correcting the value lets the same submit navigate.
    browser.session.set_form_value(field, "50");
    browser.submit_form(field).unwrap();
    assert_eq!(browser.session.form_violation(), None);
    assert_eq!(browser.current(), "https://a.test/go?n=50");
}

#[test]
fn selects_textareas_and_ranges_submit_their_values() {
    let mut browser = Browser::new(&[
        (
            "https://a.test/",
            "<form action='/go'>\
             <select name='renk'><option value='r'>Kirmizi</option>\
             <option value='b' selected>Mavi</option></select>\
             <textarea name='not'>merhaba</textarea>\
             <input type='range' name='ses' min='0' max='10' value='5'>\
             </form>",
        ),
        ("https://a.test/go?renk=r&not=yeni+not&ses=8", "<p>ok</p>"),
    ]);
    browser.load("https://a.test/").unwrap();
    let (select, textarea) = (browser.find_tag("select"), browser.find_tag("textarea"));
    let range = browser.control_with("type", "range");
    // Initially the selected attr wins; the label shows.
    let (options, selected) = browser.session.select_options(select);
    assert_eq!(selected, 1);
    assert_eq!(options[0].1, "Kirmizi");
    browser.session.set_selected_option(select, 0);
    assert_eq!(browser.session.select_options(select).1, 0);
    browser.session.set_form_value(textarea, "yeni not");
    assert_eq!(browser.session.form_value(textarea), "yeni not");
    // Four fifths of the way from 0 to 10.
    assert!(browser.session.set_color_value(range, "8"));
    browser.submit_form(select).unwrap();
    assert_eq!(browser.current(), "https://a.test/go?renk=r&not=yeni+not&ses=8");
}

#[test]
fn post_forms_send_urlencoded_bodies() {
    let mut browser = Browser::new(&[
        (
            "https://a.test/",
            "<form method='post' action='/giris'>\
             <input type='text' name='ad' value='lumen'>\
             <input type='hidden' name='k' value='1'></form>",
        ),
        ("https://a.test/giris", "<p>girildi</p>"),
    ]);
    browser.load("https://a.test/").unwrap();
    let field = browser.find_tag("input");
    browser.submit_form(field).unwrap();
    // The action URL carries no query; the body carries the pairs.
    assert_eq!(browser.current(), "https://a.test/giris");
    assert_eq!(browser.bodies.last().unwrap().as_deref(), Some("ad=lumen&k=1"));
}

#[test]
fn multiple_select_toggles_and_submits_every_selection() {
    let mut browser = Browser::new(&[
        (
            "https://a.test/",
            "<form action='/go'><select name='fruit' multiple>\
             <optgroup label='Soft'><option value='banana' selected>Banana</option>\
             <option value='berry'>Berry</option></optgroup>\
             <option value='apple'>Apple</option></select></form>",
        ),
        ("https://a.test/go?fruit=banana&fruit=apple", "<p>ok</p>"),
    ]);
    browser.load("https://a.test/").unwrap();
    let select = browser.find_tag("select");
    let apple = browser.control_with("value", "apple");
    assert!(browser.session.is_multiple_select(select));
    // The optgroup option starts selected; a toggling click adds apple.
    browser.session.click_option(select, apple, true);
    assert!(browser.session.option_selected(apple));
    browser.submit_form(select).unwrap();
    assert_eq!(browser.current(), "https://a.test/go?fruit=banana&fruit=apple");
}

#[test]
fn number_input_steps_within_bounds() {
    let mut browser = Browser::new(&[(
        "https://a.test/",
        "<form><input type='number' name='n' value='2' min='0' max='3' step='2'></form>",
    )]);
    browser.load("https://a.test/").unwrap();
    let field = browser.find_tag("input");
    assert!(browser.session.is_number_input(field));
    // The bounds that a step stays within, and the value it leads to.
    assert_eq!(
        browser.session.number_bounds(field),
        Some((Some("0".to_string()), Some("3".to_string())))
    );
    assert_eq!(browser.bounded(field, "4", true).as_deref(), Some("3"));
    assert_eq!(browser.bounded(field, "1", true).as_deref(), None);
    assert_eq!(browser.bounded(field, "-1", true).as_deref(), Some("0"));
    browser.session.set_form_value(field, "0");
    assert_eq!(browser.session.form_value(field), "0");
}

#[test]
fn color_value_drives_the_swatch_background() {
    let mut browser = Browser::new(&[(
        "https://a.test/",
        "<form><input type='color' name='c' value='#ff0000'></form>",
    )]);
    browser.load("https://a.test/").unwrap();
    let field = browser.find_tag("input");
    assert_eq!(browser.session.form_value(field), "#ff0000");
    assert!(browser.session.set_color_value(field, "#2266aa"));
    assert_eq!(browser.session.form_value(field), "#2266aa");
    let document = browser.session.page().unwrap();
    assert_eq!(document.attribute(field, "value").unwrap(), "#2266aa");
    assert_eq!(browser.session.repaint_damage(), RepaintDamage::Full);
}

#[test]
fn checkables_toggle_and_radios_group() {
    let mut browser = Browser::new(&[(
        "https://a.test/",
        "<form><input type='checkbox' name='c'>\
         <input type='radio' name='r' value='1'>\
         <input type='radio' name='r' value='2' checked></form>",
    )]);
    browser.load("https://a.test/").unwrap();
    let inputs = nodes_with(browser.document(), |element| element.tag_name == "input");
    let (check, radio1, radio2) = (inputs[0], inputs[1], inputs[2]);
    assert!(!browser.session.is_checked(check));
    assert!(browser.session.toggle_checkable(check));
    assert!(browser.session.is_checked(check));
    assert!(browser.session.is_checked(radio2));
    assert!(browser.session.toggle_checkable(radio1));
    assert!(browser.session.is_checked(radio1));
    assert!(!browser.session.is_checked(radio2));
}
