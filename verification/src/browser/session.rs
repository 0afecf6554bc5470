//! One browsing context: its page, history, cookies, form state and repaint
//! damage. Fetching and rendering are the shell's part: the session says what
//! to fetch, takes what came back, and says what follows.
use crate::browser::animation::{
    self, ActiveTransition, Animations, AnimationsModel, Progress, TickModel, TickPlan,
};
use crate::browser::cookies::{self, CookieJar, JarModel};
use crate::browser::cors::{
    self, CheckModel, CorsCheck, CorsPreflight, Headers, PreflightModel, ScriptCredentials,
};
use crate::browser::damage::{self, Rect, RepaintDamage};
use crate::browser::document::{self, Document, DocumentModel, NodeId};
use crate::browser::editor::{BufferModel, TextEdit};
use crate::browser::forms::{self, FormModel, FormState};
use crate::browser::history::{History, HistoryModel, LoadError, LoadErrorModel};
use crate::browser::request::{self, BodyModel, RequestModel, ResourceRequest};
use crate::browser::url::{Url, UrlModel};
use crate::text;
use vstd::prelude::*;

verus! {

/// What the interactive rules of a stylesheet can affect.
#[derive(Debug, Clone, Copy, PartialEq, Eq, Structural)]
pub enum HoverImpact {
    Nothing,
    PaintOnly,
    Layout,
}

/// What an interaction change asks of the shell.
#[derive(Debug, Clone, Copy, PartialEq, Eq, Structural)]
pub enum Reaction {
    /// Nothing changed.
    Ignored,
    /// Restyle and repaint; the damage is noted with
    /// [`Session::note_paint_damage`].
    Repaint,
    /// Lay the page out again.
    Relayout,
}

/// One browsing context with linear history.
#[derive(Debug)]
pub struct Session {
    pub history: History,
    /// The document of the current page.
    pub page: Option<Document>,
    /// Final URL of the page currently being fetched, set while its
    /// subresources load — history is only updated once the page is
    /// rendered, so the current entry alone cannot tell whether the page
    /// being loaded is remote.
    pub loading_page: Option<Url>,
    pub forms: FormState,
    /// Editing state of the focused text control.
    pub editor: Option<TextEdit>,
    pub cookies: CookieJar,
    /// CORS preflight grants received this session, by (page origin,
    /// request URL).
    pub preflight_cache: Vec<(String, String)>,
    /// Image subresources of the page, to be fetched progressively.
    pub pending_images: Vec<(NodeId, ResourceRequest)>,
    /// Increments on every navigation: progressive image results are
    /// only applied when they still belong to the current page.
    pub nav_serial: u64,
    /// Node currently under the pointer, for `:hover` styling.
    pub hovered: Option<NodeId>,
    /// Node the pointer is pressed on (`:active`).
    pub active: Option<NodeId>,
    /// Focused node (`:focus`) — the shell decides what focus means.
    pub focused: Option<NodeId>,
    pub animations: Animations,
    /// Whether the current stylesheet declares any `transition` at all.
    pub has_transitions: bool,
    /// How the current stylesheet's hover rules can affect the page.
    pub hover_impact: HoverImpact,
    /// Damage left by paint-only interaction restyles since the shell's
    /// last full raster.
    pub repaint_damage: RepaintDamage,
}

pub struct EditModel {
    pub node: NodeId,
    pub buffer: BufferModel,
    pub window: usize,
}

pub struct SessionModel {
    pub history: HistoryModel,
    pub page: Option<DocumentModel>,
    pub loading_page: Option<UrlModel>,
    pub forms: FormModel,
    pub violation: Option<(NodeId, Seq<char>)>,
    pub editor: Option<EditModel>,
    pub cookies: JarModel,
    pub preflight_cache: Seq<(Seq<char>, Seq<char>)>,
    pub pending_images: Seq<(NodeId, RequestModel)>,
    pub nav_serial: u64,
    pub hovered: Option<NodeId>,
    pub active: Option<NodeId>,
    pub focused: Option<NodeId>,
    pub animations: AnimationsModel,
    pub has_transitions: bool,
    pub hover_impact: HoverImpact,
    pub repaint_damage: RepaintDamage,
}

pub open spec fn opt_url(url: Option<Url>) -> Option<UrlModel> {
    match url {
        Some(url) => Some(url@),
        None => None,
    }
}

pub open spec fn opt_document(page: Option<Document>) -> Option<DocumentModel> {
    match page {
        Some(doc) => Some(doc@),
        None => None,
    }
}

pub open spec fn edit_model(edit: Option<TextEdit>) -> Option<EditModel> {
    match edit {
        Some(e) => Some(EditModel { node: e.node, buffer: e.buffer@, window: e.window }),
        None => None,
    }
}

pub open spec fn image_models(images: Seq<(NodeId, ResourceRequest)>) -> Seq<
    (NodeId, RequestModel),
> {
    Seq::new(images.len(), |i: int| (images[i].0, images[i].1@))
}

impl View for Session {
    type V = SessionModel;

    open spec fn view(&self) -> SessionModel {
        SessionModel {
            history: self.history@,
            page: opt_document(self.page),
            loading_page: opt_url(self.loading_page),
            forms: self.forms@,
            violation: forms::violation_model(self.forms.violation),
            editor: edit_model(self.editor),
            cookies: self.cookies@,
            preflight_cache: document::pair_models(self.preflight_cache@),
            pending_images: image_models(self.pending_images@),
            nav_serial: self.nav_serial,
            hovered: self.hovered,
            active: self.active,
            focused: self.focused,
            animations: self.animations@,
            has_transitions: self.has_transitions,
            hover_impact: self.hover_impact,
            repaint_damage: self.repaint_damage,
        }
    }
}

impl SessionModel {
    /// The document of the current page; an empty one without a page.
    pub open spec fn document(self) -> DocumentModel {
        match self.page {
            Some(doc) => doc,
            None => Seq::empty(),
        }
    }

    /// The URL of the page being shown or loaded.
    pub open spec fn page_url(self) -> Option<UrlModel> {
        match self.loading_page {
            Some(url) => Some(url),
            None => self.history.current(),
        }
    }

    /// Whether a URL is a local file while a remote page is shown or loaded.
    pub open spec fn blocks_file(self, url: UrlModel) -> bool {
        &&& url.scheme == "file"@
        &&& self.page_url() matches Some(page) && (page.scheme == "http"@ || page.scheme
            == "https"@)
    }

    /// The request for a URL, with the cookies that match it.
    pub open spec fn prepared(self, url: UrlModel, body: BodyModel) -> Result<
        RequestModel,
        LoadErrorModel,
    > {
        if self.blocks_file(url) {
            Err(LoadErrorModel::UnsupportedScheme("file (blocked from a remote page)"@))
        } else {
            Ok(
                RequestModel {
                    url,
                    body,
                    cookie: cookies::header_model(self.cookies, url, true),
                },
            )
        }
    }

    /// The probe that a read needs: none for a simple request, and none where
    /// a grant is cached.
    pub open spec fn probe(
        self,
        page_origin: Seq<char>,
        url: UrlModel,
        body: BodyModel,
        method: Seq<char>,
        headers: Headers,
    ) -> Option<PreflightModel> {
        if cors::wants_preflight(method, content_type(body), headers)
            && !self.preflight_cache.contains((page_origin, url.text)) {
            Some(
                PreflightModel {
                    url,
                    method,
                    headers: cors::custom_names(headers, headers.len() as int),
                },
            )
        } else {
            None
        }
    }

    /// The request of a script read and, across origins, the check that gates
    /// its response.
    pub open spec fn script_read(
        self,
        url: UrlModel,
        body: BodyModel,
        credentials: ScriptCredentials,
        method: Seq<char>,
        headers: Headers,
    ) -> Result<(RequestModel, Option<CheckModel>), LoadErrorModel> {
        match self.prepared(url, body) {
            Err(e) => Err(e),
            Ok(request) => match self.page_url() {
                None => Ok((request, None)),
                Some(page) => if cors::origins_equal(page, url) {
                    Ok((request, None))
                } else {
                    Ok(
                        (
                            RequestModel {
                                cookie: if credentials == ScriptCredentials::SameOrigin {
                                    None
                                } else {
                                    request.cookie
                                },
                                ..request
                            },
                            Some(
                                CheckModel {
                                    page_origin: page.unicode_origin,
                                    credentialed: credentials == ScriptCredentials::Include,
                                    preflight: self.probe(
                                        page.unicode_origin,
                                        url,
                                        body,
                                        method,
                                        headers,
                                    ),
                                },
                            ),
                        ),
                    )
                },
            },
        }
    }
}

pub open spec fn content_type(body: BodyModel) -> Option<Seq<char>> {
    match body {
        Some((t, _)) => Some(t),
        None => None,
    }
}

pub open spec fn prepared_model(r: Result<ResourceRequest, LoadError>) -> Result<
    RequestModel,
    LoadErrorModel,
> {
    match r {
        Ok(request) => Ok(request@),
        Err(e) => Err(e@),
    }
}

pub open spec fn opt_check(check: Option<CorsCheck>) -> Option<CheckModel> {
    match check {
        Some(c) => Some(c@),
        None => None,
    }
}

pub open spec fn read_model(
    r: Result<(ResourceRequest, Option<CorsCheck>), LoadError>,
) -> Result<(RequestModel, Option<CheckModel>), LoadErrorModel> {
    match r {
        Ok((request, check)) => Ok((request@, opt_check(check))),
        Err(e) => Err(e@),
    }
}

/// The jar after the first `n` headers of a response, each stored at its own
/// time.
pub open spec fn stored_all(
    jar: JarModel,
    url: UrlModel,
    headers: Seq<Seq<char>>,
    times: Seq<int>,
    n: int,
) -> JarModel
    decreases n,
{
    if n <= 0 {
        jar
    } else {
        cookies::stored_header(
            stored_all(jar, url, headers, times, n - 1),
            url,
            headers[n - 1],
            times[n - 1],
        )
    }
}

/// The images that can be fetched among the first `n`: those whose source
/// names a URL that the page may read.
pub open spec fn fetchable(s: SessionModel, images: Seq<(NodeId, Option<UrlModel>)>, n: int) -> Seq<
    (NodeId, RequestModel),
>
    decreases n,
{
    if n <= 0 {
        seq![]
    } else {
        let before = fetchable(s, images, n - 1);
        match images[n - 1].1 {
            Some(url) => match s.prepared(url, None) {
                Ok(request) => before.push((images[n - 1].0, request)),
                Err(_) => before,
            },
            None => before,
        }
    }
}

pub open spec fn resolved_models(images: Seq<(NodeId, Option<Url>)>) -> Seq<
    (NodeId, Option<UrlModel>),
> {
    Seq::new(images.len(), |i: int| (images[i].0, opt_url(images[i].1)))
}

/// Whether a checkable or an option is checked.
pub open spec fn is_checked_node(doc: DocumentModel, f: FormModel, node: NodeId) -> bool {
    match document::element_at(doc, node) {
        Some(e) => if e.tag_name == "input"@ {
            (e.get("type"@) == Some("checkbox"@) || e.get("type"@) == Some("radio"@))
                && forms::checked_at(doc, f, node)
        } else {
            e.tag_name == "option"@ && forms::selected_at(doc, f, node)
        },
        None => false,
    }
}

/// The checked ones among the first `n` nodes of a list.
pub open spec fn checked_among(doc: DocumentModel, f: FormModel, list: Seq<NodeId>, n: int) -> Seq<
    NodeId,
>
    decreases n,
{
    if n <= 0 {
        seq![]
    } else {
        let before = checked_among(doc, f, list, n - 1);
        if is_checked_node(doc, f, list[n - 1]) {
            before.push(list[n - 1])
        } else {
            before
        }
    }
}

/// The links among the first `n` whose URL was visited.
pub open spec fn visited_among(
    visited: Set<Seq<char>>,
    links: Seq<(NodeId, Option<UrlModel>)>,
    n: int,
) -> Seq<NodeId>
    decreases n,
{
    if n <= 0 {
        seq![]
    } else {
        let before = visited_among(visited, links, n - 1);
        if links[n - 1].1 matches Some(url) && visited.contains(url.text) {
            before.push(links[n - 1].0)
        } else {
            before
        }
    }
}

/// What an interaction change comes to.
pub open spec fn reaction(s: SessionModel, changed: bool, may_change: bool) -> Reaction {
    if !changed || s.page is None || !may_change {
        Reaction::Ignored
    } else {
        match s.hover_impact {
            HoverImpact::Nothing => Reaction::Ignored,
            HoverImpact::PaintOnly => Reaction::Repaint,
            HoverImpact::Layout => Reaction::Relayout,
        }
    }
}

pub open spec fn damage_after(damage: RepaintDamage, reaction: Reaction) -> RepaintDamage {
    if reaction == Reaction::Relayout {
        RepaintDamage::Full
    } else {
        damage
    }
}

/// What a tick does: without a page everything that runs is dropped.
pub open spec fn ticked_on(
    page: Option<DocumentModel>,
    a: AnimationsModel,
    transitions: Seq<Progress>,
    animations: Seq<Progress>,
) -> (TickModel, AnimationsModel) {
    match page {
        Some(doc) => (
            animation::tick_model(a, doc, transitions, animations),
            animation::ticked(a, transitions, animations),
        ),
        None => (
            animation::idle_tick(),
            AnimationsModel { transitions: Seq::empty(), animations: Seq::empty() },
        ),
    }
}

impl Session {
    pub fn new() -> (r: Session)
        ensures
            r@.history.wf(),
            r@.history.entries.len() == 0,
            r@.history.visited == Set::<Seq<char>>::empty(),
            !r@.history.traversed,
            r@.page is None,
            r@.loading_page is None,
            r@.forms.values == Map::<NodeId, Seq<char>>::empty(),
            r@.forms.checked == Map::<NodeId, bool>::empty(),
            r@.violation is None,
            r@.editor is None,
            r@.cookies.len() == 0,
            r@.preflight_cache.len() == 0,
            r@.pending_images.len() == 0,
            r@.nav_serial == 0,
            r@.hovered is None,
            r@.active is None,
            r@.focused is None,
            r@.animations.transitions.len() == 0,
            r@.animations.animations.len() == 0,
            !r@.has_transitions,
            r@.hover_impact == HoverImpact::Nothing,
            r@.repaint_damage == RepaintDamage::Full,
    {
        Session {
            history: History::new(),
            page: None,
            loading_page: None,
            forms: FormState::new(),
            editor: None,
            cookies: CookieJar::new(),
            preflight_cache: Vec::new(),
            pending_images: Vec::new(),
            nav_serial: 0,
            hovered: None,
            active: None,
            focused: None,
            animations: Animations::new(),
            has_transitions: false,
            hover_impact: HoverImpact::Nothing,
            repaint_damage: RepaintDamage::Full,
        }
    }

    // -----------------------------------------------------------------------
    // Requests
    // -----------------------------------------------------------------------
    /// The read-only half of a fetch: applies the remote-page `file:` gate
    /// and attaches the jar's Cookie header. This is the subresource policy; a
    /// script read goes through [`Session::prepare_script_read`], which layers
    /// the same-origin policy on top.
    pub fn prepare_request(&self, url: Url, body: Option<(String, Vec<u8>)>) -> (r: Result<
        ResourceRequest,
        LoadError,
    >)
        requires
            self@.history.wf(),
        ensures
            prepared_model(r) == self@.prepared(url@, request::body_model(body)),
    {
        if text::same_str(url.scheme.as_str(), "file") {
            let remote = match &self.loading_page {
                Some(page) => remote_scheme(page),
                None => match self.history.current_url() {
                    Some(page) => remote_scheme(page),
                    None => false,
                },
            };
            if remote {
                return Err(
                    LoadError::UnsupportedScheme("file (blocked from a remote page)".to_owned()),
                );
            }
        }
        let cookie = self.cookies.header_for_http(&url);
        Ok(ResourceRequest { url, body, cookie })
    }

    /// Stores a response's `Set-Cookie` headers in the jar.
    pub fn store_response_cookies(&mut self, final_url: &Url, headers: &Vec<String>)
        ensures
            exists|times: Seq<int>|
                final(self)@ == (SessionModel {
                    cookies: #[trigger] stored_all(
                        old(self)@.cookies,
                        final_url@,
                        text::texts(headers@),
                        times,
                        headers@.len() as int,
                    ),
                    ..old(self)@
                }),
    {
        let ghost hv = text::texts(headers@);
        let ghost mut times: Seq<int> = Seq::empty();
        let mut i: usize = 0;
        while i < headers.len()
            invariant
                i <= headers@.len(),
                hv == text::texts(headers@),
                times.len() == i,
                self@ == (SessionModel {
                    cookies: stored_all(old(self)@.cookies, final_url@, hv, times, i as int),
                    ..old(self)@
                }),
            decreases headers@.len() - i,
        {
            let ghost before = self@.cookies;
            self.cookies.store(final_url, headers[i].as_str());
            proof {
                let now = choose|now: int|
                    self.cookies@ == #[trigger] cookies::stored_header(
                        before,
                        final_url@,
                        hv[i as int],
                        now,
                    );
                let longer = times.push(now);
                lemma_times(old(self)@.cookies, final_url@, hv, times, longer, i as int);
                times = longer;
            }
            i = i + 1;
        }
    }

    /// [`Session::prepare_request`] for a script READ (fetch/XHR) — a
    /// request whose response body the page's own JavaScript wants to
    /// see:
    ///
    /// - Same-origin with the page: the jar's Cookie header rides and
    ///   the response is readable (no [`CorsCheck`] comes back).
    /// - Cross-origin: the request still goes out, but WITHOUT the
    ///   Cookie header unless `credentials` is
    ///   [`ScriptCredentials::Include`], and the returned [`CorsCheck`]
    ///   must gate the response before any byte reaches JS.
    /// - Cross-origin AND not a CORS "simple request": the check also
    ///   carries a [`CorsPreflight`] probe that must be answered first —
    ///   unless a grant for this origin+URL is already cached.
    pub fn prepare_script_read(
        &self,
        url: Url,
        body: Option<(String, Vec<u8>)>,
        credentials: ScriptCredentials,
        method: &str,
        headers: &Vec<(String, String)>,
    ) -> (r: Result<(ResourceRequest, Option<CorsCheck>), LoadError>)
        requires
            self@.history.wf(),
        ensures
            read_model(r) == self@.script_read(
                url@,
                request::body_model(body),
                credentials,
                method@,
                document::pair_models(headers@),
            ),
    {
        let ghost uv = url@;
        let ghost bv = request::body_model(body);
        let mut request = match self.prepare_request(url, body) {
            Ok(request) => request,
            Err(e) => {
                return Err(e);
            },
        };
        let page = match &self.loading_page {
            Some(page) => page,
            None => match self.history.current_url() {
                Some(page) => page,
                None => {
                    return Ok((request, None));
                },
            },
        };
        if cors::same_origin(page, &request.url) {
            return Ok((request, None));
        }
        if credentials == ScriptCredentials::SameOrigin {
            request.cookie = None;
        }
        let page_origin = page.unicode_origin.clone();
        let preflight = if cors::needs_preflight(method, &request.body, headers)
            && !self.is_preflight_cached(page_origin.as_str(), request.url.text.as_str()) {
            Some(
                CorsPreflight {
                    url: request.url.clone(),
                    method: method.to_owned(),
                    headers: cors::custom_headers(headers),
                },
            )
        } else {
            None
        };
        let check = CorsCheck {
            page_origin,
            credentialed: credentials == ScriptCredentials::Include,
            preflight,
        };
        Ok((request, Some(check)))
    }

    fn is_preflight_cached(&self, page_origin: &str, url: &str) -> (r: bool)
        ensures
            r == self@.preflight_cache.contains((page_origin@, url@)),
    {
        let ghost cv = document::pair_models(self.preflight_cache@);
        let mut i: usize = 0;
        while i < self.preflight_cache.len()
            invariant
                i <= self.preflight_cache@.len(),
                cv == document::pair_models(self.preflight_cache@),
                forall|j: int| 0 <= j < i ==> #[trigger] cv[j] != (page_origin@, url@),
            decreases self.preflight_cache@.len() - i,
        {
            assert(cv[i as int] == (
                self.preflight_cache@[i as int].0@,
                self.preflight_cache@[i as int].1@,
            ));
            if text::same_str(self.preflight_cache[i].0.as_str(), page_origin) && text::same_str(
                self.preflight_cache[i].1.as_str(),
                url,
            ) {
                return true;
            }
            i = i + 1;
        }
        false
    }

    /// Caches a preflight grant for (page origin, request URL): the
    /// next identical non-simple read skips the OPTIONS probe. The
    /// cache lives and dies with the session.
    pub fn cache_preflight(&mut self, page_origin: &str, url: &Url)
        ensures
            final(self)@ == (SessionModel {
                preflight_cache: if old(self)@.preflight_cache.contains(
                    (page_origin@, url@.text),
                ) {
                    old(self)@.preflight_cache
                } else {
                    old(self)@.preflight_cache.push((page_origin@, url@.text))
                },
                ..old(self)@
            }),
    {
        if !self.is_preflight_cached(page_origin, url.text.as_str()) {
            let ghost before = self@.preflight_cache;
            self.preflight_cache.push((page_origin.to_owned(), url.text.clone()));
            assert(self@.preflight_cache =~= before.push((page_origin@, url@.text)));
        }
    }

    // -----------------------------------------------------------------------
    // Page loads
    // -----------------------------------------------------------------------
    /// Begins loading the subresources of the page that was fetched from
    /// `final_url`.
    pub fn begin_page(&mut self, final_url: &Url)
        ensures
            final(self)@ == (SessionModel {
                loading_page: Some(final_url@),
                ..old(self)@
            }),
    {
        self.loading_page = Some(final_url.clone());
    }

    /// Takes over the page's stylesheet: what its rules animate and what its
    /// interactive rules can affect. Running transitions end.
    pub fn apply_stylesheet(&mut self, has_transitions: bool, impact: HoverImpact)
        ensures
            final(self)@ == (SessionModel {
                has_transitions,
                hover_impact: impact,
                animations: AnimationsModel {
                    transitions: Seq::empty(),
                    ..old(self)@.animations
                },
                ..old(self)@
            }),
    {
        self.has_transitions = has_transitions;
        self.hover_impact = impact;
        self.animations.transitions = Vec::new();
        assert(self@.animations.transitions =~= Seq::empty());
    }

    /// Queues the page's images: those whose source names a URL that the page
    /// may read. A navigation serial tells them from those of other pages.
    pub fn queue_images(&mut self, images: Vec<(NodeId, Option<Url>)>)
        requires
            old(self)@.history.wf(),
            old(self)@.nav_serial < u64::MAX,
        ensures
            final(self)@ == (SessionModel {
                nav_serial: (old(self)@.nav_serial + 1) as u64,
                pending_images: fetchable(
                    old(self)@,
                    resolved_models(images@),
                    images@.len() as int,
                ),
                ..old(self)@
            }),
    {
        let ghost iv = resolved_models(images@);
        let mut list: Vec<(NodeId, ResourceRequest)> = Vec::new();
        let mut i: usize = 0;
        assert(image_models(list@) =~= fetchable(self@, iv, 0));
        while i < images.len()
            invariant
                i <= images@.len(),
                iv == resolved_models(images@),
                *self == *old(self),
                self@.history.wf(),
                image_models(list@) == fetchable(self@, iv, i as int),
            decreases images@.len() - i,
        {
            assert(iv[i as int] == (images@[i as int].0, opt_url(images@[i as int].1)));
            let ghost before = image_models(list@);
            let node: NodeId = images[i].0;
            if let Some(url) = &images[i].1 {
                match self.prepare_request(url.clone(), None) {
                    Ok(request) => {
                        list.push((node, request));
                        assert(image_models(list@) =~= before.push((node, request@)));
                    },
                    Err(_) => {},
                }
            }
            i = i + 1;
        }
        self.nav_serial = self.nav_serial + 1;
        self.pending_images = list;
    }

    /// Shows a new page: the state of the old one (interaction, editing,
    /// animation, form values) is dropped, everything is repainted, and the
    /// page counts as visited.
    pub fn show_page(&mut self, document: Document, final_url: &Url)
        ensures
            final(self)@.forms.values == Map::<NodeId, Seq<char>>::empty(),
            final(self)@.forms.checked == Map::<NodeId, bool>::empty(),
            final(self)@ == (SessionModel {
                page: Some(document@),
                loading_page: None,
                hovered: None,
                active: None,
                focused: None,
                editor: None,
                animations: AnimationsModel {
                    transitions: Seq::empty(),
                    animations: Seq::empty(),
                },
                forms: final(self)@.forms,
                violation: None,
                repaint_damage: RepaintDamage::Full,
                history: HistoryModel {
                    visited: old(self)@.history.visited.insert(final_url@.text),
                    ..old(self)@.history
                },
                ..old(self)@
            }),
    {
        self.hovered = None;
        self.active = None;
        self.focused = None;
        self.editor = None;
        self.animations.clear();
        self.forms.reset();
        self.repaint_damage = RepaintDamage::Full;
        self.history.mark_visited(final_url.text.as_str());
        self.page = Some(document);
        self.loading_page = None;
    }

    /// Image subresources discovered during the last page load, taken
    /// out for the shell to fetch progressively.
    pub fn take_pending_images(&mut self) -> (r: Vec<(NodeId, ResourceRequest)>)
        ensures
            image_models(r@) == old(self)@.pending_images,
            final(self)@ == (SessionModel { pending_images: Seq::empty(), ..old(self)@ }),
    {
        let mut taken: Vec<(NodeId, ResourceRequest)> = Vec::new();
        std::mem::swap(&mut taken, &mut self.pending_images);
        assert(self@.pending_images =~= Seq::empty());
        taken
    }

    /// Whether any image subresources are still unfetched.
    pub fn has_pending_images(&self) -> (r: bool)
        ensures
            r == (self@.pending_images.len() > 0),
    {
        self.pending_images.len() > 0
    }

    // -----------------------------------------------------------------------
    // Interaction
    // -----------------------------------------------------------------------
    fn react(&mut self, may_change: bool) -> (r: Reaction)
        ensures
            r == reaction(old(self)@, true, may_change),
            final(self)@ == (SessionModel {
                repaint_damage: damage_after(old(self)@.repaint_damage, r),
                ..old(self)@
            }),
    {
        if self.page.is_none() || !may_change {
            return Reaction::Ignored;
        }
        match self.hover_impact {
            HoverImpact::Nothing => Reaction::Ignored,
            HoverImpact::PaintOnly => Reaction::Repaint,
            HoverImpact::Layout => {
                self.repaint_damage = RepaintDamage::Full;
                Reaction::Relayout
            },
        }
    }

    /// Updates the hovered node for `:hover` styling. `may_change` tells
    /// whether a rule is involved in the old or the new state.
    pub fn set_hovered(&mut self, node: Option<NodeId>, may_change: bool) -> (r: Reaction)
        ensures
            r == reaction(old(self)@, old(self)@.hovered != node, may_change),
            final(self)@ == (SessionModel {
                hovered: node,
                repaint_damage: damage_after(old(self)@.repaint_damage, r),
                ..old(self)@
            }),
    {
        if self.hovered == node {
            return Reaction::Ignored;
        }
        self.hovered = node;
        self.react(may_change)
    }

    /// Updates the `:active` (pressed) node. Same reaction as hover.
    pub fn set_active(&mut self, node: Option<NodeId>, may_change: bool) -> (r: Reaction)
        ensures
            r == reaction(old(self)@, old(self)@.active != node, may_change),
            final(self)@ == (SessionModel {
                active: node,
                repaint_damage: damage_after(old(self)@.repaint_damage, r),
                ..old(self)@
            }),
    {
        if self.active == node {
            return Reaction::Ignored;
        }
        self.active = node;
        self.react(may_change)
    }

    /// Updates the `:focus` node. Same reaction as hover.
    pub fn set_focused(&mut self, node: Option<NodeId>, may_change: bool) -> (r: Reaction)
        ensures
            r == reaction(old(self)@, old(self)@.focused != node, may_change),
            final(self)@ == (SessionModel {
                focused: node,
                repaint_damage: damage_after(old(self)@.repaint_damage, r),
                ..old(self)@
            }),
    {
        if self.focused == node {
            return Reaction::Ignored;
        }
        self.focused = node;
        self.react(may_change)
    }

    /// Notes what a paint-only restyle damaged.
    pub fn note_paint_damage(&mut self, damage: Option<Rect>)
        ensures
            final(self)@ == (SessionModel {
                repaint_damage: old(self)@.repaint_damage.with(damage),
                ..old(self)@
            }),
    {
        self.repaint_damage.extend(damage);
    }

    /// Marks the shell's frame cache current with the page. Call after
    /// every re-raster — full, scrolled blit or damage-region — so the
    /// accumulated damage is never applied twice.
    pub fn note_rasterized(&mut self)
        ensures
            final(self)@ == (SessionModel {
                repaint_damage: RepaintDamage::Region(None),
                ..old(self)@
            }),
    {
        self.repaint_damage = RepaintDamage::Region(None);
    }

    /// Marks the next repaint as full (relayout, navigation, scripts,
    /// inner scrolling — anything but the paint-only interaction path, which
    /// tracks its own damage).
    pub fn note_full_repaint(&mut self)
        ensures
            final(self)@ == (SessionModel { repaint_damage: RepaintDamage::Full, ..old(self)@ }),
    {
        self.repaint_damage = RepaintDamage::Full;
    }

    /// One animation step, with what the clock says of each transition and
    /// animation: what has to be repainted. The damage is noted with
    /// [`Session::finish_tick`] once the page is repainted.
    pub fn tick(&mut self, transitions: &Vec<Progress>, animations: &Vec<Progress>) -> (r: TickPlan)
        requires
            transitions@.len() == old(self)@.animations.transitions.len(),
            animations@.len() == old(self)@.animations.animations.len(),
        ensures
            (r@, final(self)@.animations) == ticked_on(
                old(self)@.page,
                old(self)@.animations,
                transitions@,
                animations@,
            ),
            final(self)@ == (SessionModel {
                animations: final(self)@.animations,
                ..old(self)@
            }),
    {
        self.animations.tick(self.page.as_ref(), transitions, animations)
    }

    /// Notes what a tick repainted: everything, or the rects of the nodes
    /// that it damaged.
    pub fn finish_tick(&mut self, plan: &TickPlan, rects: &Vec<Option<Rect>>)
        ensures
            final(self)@ == (SessionModel {
                repaint_damage: if plan.full_repaint {
                    RepaintDamage::Full
                } else {
                    old(self)@.repaint_damage.with(
                        damage::spanned_all(rects@, rects@.len() as int),
                    )
                },
                ..old(self)@
            }),
    {
        if plan.full_repaint {
            self.repaint_damage = RepaintDamage::Full;
        } else {
            self.repaint_damage.extend(damage::union_all(rects));
        }
    }

    /// All checked checkables and options (live toggles over attributes), in
    /// document order.
    pub fn checked_nodes(&self) -> (r: Vec<NodeId>)
        ensures
            r@ == checked_among(
                self@.document(),
                self@.forms,
                document::descendants_of(self@.document(), 0),
                document::descendants_of(self@.document(), 0).len() as int,
            ),
    {
        let empty = no_document();
        let doc = match &self.page {
            Some(doc) => doc,
            None => &empty,
        };
        let all = doc.descendants(0);
        let mut nodes: Vec<NodeId> = Vec::new();
        let mut i: usize = 0;
        while i < all.len()
            invariant
                i <= all@.len(),
                nodes@ == checked_among(doc@, self@.forms, all@, i as int),
            decreases all@.len() - i,
        {
            let node = all[i];
            if let Some(e) = doc.element(node) {
                let checked = if e.is_tag("input") {
                    (e.attribute_is("type", "checkbox") || e.attribute_is("type", "radio"))
                        && self.forms.is_checked(doc, node)
                } else {
                    e.is_tag("option") && self.forms.option_selected(doc, node)
                };
                if checked {
                    nodes.push(node);
                }
            }
            i = i + 1;
        }
        nodes
    }

    /// Link elements whose resolved target is in this session's history.
    pub fn visited_link_nodes(&self, links: &Vec<(NodeId, Option<Url>)>) -> (r: Vec<NodeId>)
        ensures
            r@ == visited_among(
                self@.history.visited,
                resolved_models(links@),
                links@.len() as int,
            ),
    {
        let ghost lv = resolved_models(links@);
        let mut nodes: Vec<NodeId> = Vec::new();
        let mut i: usize = 0;
        while i < links.len()
            invariant
                i <= links@.len(),
                lv == resolved_models(links@),
                nodes@ == visited_among(self@.history.visited, lv, i as int),
            decreases links@.len() - i,
        {
            assert(lv[i as int] == (links@[i as int].0, opt_url(links@[i as int].1)));
            if let Some(url) = &links[i].1 {
                if self.history.is_visited(url.text.as_str()) {
                    nodes.push(links[i].0);
                }
            }
            i = i + 1;
        }
        nodes
    }

    // -----------------------------------------------------------------------
    // The page
    // -----------------------------------------------------------------------
    /// The text of the page's `<title>` element, when present.
    pub fn title(&self) -> (r: Option<String>)
        ensures
            text::opt_text(r) == document::title_model(self@.document()),
    {
        let empty = no_document();
        match &self.page {
            Some(doc) => doc.title(),
            None => empty.title(),
        }
    }

    /// The nearest `<a href>` at or above `node`, for link hit testing.
    pub fn link_target(&self, node: NodeId) -> (r: Option<String>)
        ensures
            text::opt_text(r) == document::link_model(
                self@.document(),
                document::chain_of(self@.document(), node),
                0,
            ),
    {
        let empty = no_document();
        match &self.page {
            Some(doc) => doc.link_target(node),
            None => empty.link_target(node),
        }
    }
}

fn remote_scheme(page: &Url) -> (r: bool)
    ensures
        r == (page@.scheme == "http"@ || page@.scheme == "https"@),
{
    text::same_str(page.scheme.as_str(), "http") || text::same_str(page.scheme.as_str(), "https")
}

pub fn no_document() -> (r: Document)
    ensures
        r@ == Seq::<document::NodeModel>::empty(),
{
    let r = Document { nodes: Vec::new() };
    assert(r@ =~= Seq::<document::NodeModel>::empty());
    r
}

proof fn lemma_times(
    jar: JarModel,
    url: UrlModel,
    headers: Seq<Seq<char>>,
    a: Seq<int>,
    b: Seq<int>,
    n: int,
)
    requires
        0 <= n <= a.len(),
        n <= b.len(),
        forall|i: int| 0 <= i < n ==> a[i] == b[i],
    ensures
        stored_all(jar, url, headers, a, n) == stored_all(jar, url, headers, b, n),
    decreases n,
{
    if n > 0 {
        lemma_times(jar, url, headers, a, b, n - 1);
    }
}

// ---------------------------------------------------------------------------
// Laws
// ---------------------------------------------------------------------------
/// A remote page reads no local file, neither directly nor by a script.
pub proof fn law_remote_pages_read_no_files(
    s: SessionModel,
    url: UrlModel,
    body: BodyModel,
    credentials: ScriptCredentials,
    method: Seq<char>,
    headers: Headers,
)
    requires
        url.scheme == "file"@,
        s.page_url() matches Some(page) && (page.scheme == "http"@ || page.scheme == "https"@),
    ensures
        s.prepared(url, body) is Err,
        s.script_read(url, body, credentials, method, headers) is Err,
{
}

/// A read within the page's own origin carries the jar's cookies and is
/// never checked.
pub proof fn law_same_origin_reads_are_unchecked(
    s: SessionModel,
    url: UrlModel,
    body: BodyModel,
    credentials: ScriptCredentials,
    method: Seq<char>,
    headers: Headers,
)
    requires
        s.page_url() matches Some(page) && cors::origins_equal(page, url),
        !s.blocks_file(url),
    ensures
        s.script_read(url, body, credentials, method, headers) == Ok::<
            (RequestModel, Option<CheckModel>),
            LoadErrorModel,
        >(
            (
                RequestModel { url, body, cookie: cookies::header_model(s.cookies, url, true) },
                None,
            ),
        ),
{
}

/// A read across origins is always checked against the page's origin, and
/// carries cookies only where the script asked for it.
pub proof fn law_cookies_cross_origins_only_on_request(
    s: SessionModel,
    url: UrlModel,
    body: BodyModel,
    credentials: ScriptCredentials,
    method: Seq<char>,
    headers: Headers,
)
    requires
        s.page_url() matches Some(page) && !cors::origins_equal(page, url),
        !s.blocks_file(url),
    ensures
        s.script_read(url, body, credentials, method, headers) matches Ok((request, check)) && {
            &&& check matches Some(check) && check.page_origin == s.page_url()->0.unicode_origin
                && check.credentialed == (credentials == ScriptCredentials::Include)
            &&& credentials == ScriptCredentials::SameOrigin ==> request.cookie is None
            &&& credentials == ScriptCredentials::Include ==> request.cookie
                == cookies::header_model(s.cookies, url, true)
        },
{
}

/// Once a grant is cached for the page's origin and a URL, reads of that URL
/// carry no probe.
pub proof fn law_cached_grants_skip_the_probe(
    s: SessionModel,
    page_origin: Seq<char>,
    url: UrlModel,
    body: BodyModel,
    method: Seq<char>,
    headers: Headers,
)
    requires
        s.preflight_cache.contains((page_origin, url.text)),
    ensures
        s.probe(page_origin, url, body, method, headers) is None,
{
}

/// A simple request never carries a probe.
pub proof fn law_simple_reads_carry_no_probe(
    s: SessionModel,
    page_origin: Seq<char>,
    url: UrlModel,
    body: BodyModel,
    method: Seq<char>,
    headers: Headers,
)
    requires
        cors::is_simple_method(method),
        cors::all_safelisted(headers),
        content_type(body) matches Some(t) ==> cors::is_simple_type(t),
    ensures
        s.probe(page_origin, url, body, method, headers) is None,
{
}

proof fn lemma_fetchable_files(s: SessionModel, images: Seq<(NodeId, Option<UrlModel>)>, n: int)
    requires
        0 <= n <= images.len(),
    ensures
        forall|i: int|
            0 <= i < fetchable(s, images, n).len() ==> !s.blocks_file(
                (#[trigger] fetchable(s, images, n)[i]).1.url,
            ),
        fetchable(s, images, n).len() <= n,
    decreases n,
{
    if n > 0 {
        lemma_fetchable_files(s, images, n - 1);
    }
}

/// No queued image is a local file of a remote page, and no more are queued
/// than were found.
pub proof fn law_queued_images_respect_the_file_gate(
    s: SessionModel,
    images: Seq<(NodeId, Option<UrlModel>)>,
    i: int,
)
    requires
        0 <= i < fetchable(s, images, images.len() as int).len(),
    ensures
        !s.blocks_file(fetchable(s, images, images.len() as int)[i].1.url),
        fetchable(s, images, images.len() as int).len() <= images.len(),
{
    lemma_fetchable_files(s, images, images.len() as int);
}

/// An unchanged pointer never restyles, and nothing restyles without a page
/// or without interactive rules.
pub proof fn law_reactions_need_a_cause(s: SessionModel, changed: bool, may_change: bool)
    ensures
        reaction(s, changed, may_change) != Reaction::Ignored ==> changed && may_change && s.page
            is Some && s.hover_impact != HoverImpact::Nothing,
{
}

/// After a tick, a transition is in the list exactly where the clock kept it:
/// one that has ended leaves, and one that has not stays.
pub proof fn law_ended_transitions_leave(
    doc: DocumentModel,
    a: AnimationsModel,
    transitions: Seq<Progress>,
    animations: Seq<Progress>,
    t: ActiveTransition,
)
    requires
        transitions.len() == a.transitions.len(),
        animations.len() == a.animations.len(),
    ensures
        ticked_on(Some(doc), a, transitions, animations).1.transitions.contains(t) <==> exists|i: int|
            0 <= i < transitions.len() && (#[trigger] transitions[i]).kept && a.transitions[i] == t,
{
    animation::lemma_kept(a.transitions, transitions, 0, t);
}

/// Once everything has ended, the tick asks for no other frame and leaves
/// nothing running; every later tick asks for none, repaints nothing and
/// leaves the damage as it was.
pub proof fn law_ended_animations_need_no_frame(
    page: Option<DocumentModel>,
    later: Option<DocumentModel>,
    a: AnimationsModel,
    transitions: Seq<Progress>,
    animations: Seq<Progress>,
    damage: RepaintDamage,
)
    requires
        transitions.len() == a.transitions.len(),
        animations.len() == a.animations.len(),
        forall|i: int|
            0 <= i < transitions.len() ==> !(#[trigger] transitions[i]).running
                && !transitions[i].kept,
        forall|i: int|
            0 <= i < animations.len() ==> !(#[trigger] animations[i]).running
                && !animations[i].kept,
    ensures
        ({
            let (plan, left) = ticked_on(page, a, transitions, animations);
            let after = ticked_on(later, left, Seq::empty(), Seq::empty());
            &&& !plan.any_active
            &&& left.transitions.len() == 0
            &&& left.animations.len() == 0
            &&& after == (animation::idle_tick(), left)
            &&& damage.with(damage::spanned_all(Seq::empty(), 0)) == damage
        }),
{
    if let Some(doc) = page {
        animation::law_frames_are_asked_while_something_runs(a, doc, transitions, animations);
        let left = ticked_on(page, a, transitions, animations).1;
        animation::lemma_kept(a.transitions, transitions, 0, left.transitions[0]);
        animation::lemma_kept(a.animations, animations, 0, left.animations[0]);
        assert(left.transitions.len() > 0 ==> left.transitions.contains(left.transitions[0]));
        assert(left.animations.len() > 0 ==> left.animations.contains(left.animations[0]));
    }
    let left = ticked_on(page, a, transitions, animations).1;
    let after = ticked_on(later, left, Seq::empty(), Seq::empty()).1;
    assert(after.transitions =~= left.transitions);
    assert(after.animations =~= left.animations);
}

/// Across origins, cookies ride a script read exactly where it asks for them,
/// and its check carries the page's origin and whether they did; within the
/// page's origin they ride and nothing is checked.
pub proof fn law_script_reads_across_origins(
    s: SessionModel,
    page: UrlModel,
    url: UrlModel,
    body: BodyModel,
    credentials: ScriptCredentials,
    method: Seq<char>,
    headers: Headers,
)
    requires
        s.page_url() == Some(page),
        url.scheme != "file"@,
    ensures
        s.script_read(url, body, credentials, method, headers) is Ok,
        ({
            let (request, check) = s.script_read(url, body, credentials, method, headers)->Ok_0;
            let near = page.scheme == url.scheme && page.host == url.host && page.port == url.port;
            &&& request.url == url && request.body == body
            &&& check is None <==> near
            &&& near || credentials is Include ==> request.cookie == cookies::header_model(
                s.cookies,
                url,
                true,
            )
            &&& !near && credentials is SameOrigin ==> request.cookie is None
            &&& !near ==> check->0.page_origin == page.unicode_origin && (check->0.credentialed
                <==> credentials is Include)
            &&& !near && check->0.preflight is Some ==> check->0.preflight->0.url == url
                && check->0.preflight->0.method == method
        }),
{
}

/// A page that is loading counts before the one that is shown; a request for a
/// local file is refused on a page that came over HTTP or HTTPS and is made on
/// every other, and other requests are made.
pub proof fn law_requests_are_prepared(s: SessionModel, url: UrlModel, body: BodyModel)
    ensures
        s.loading_page is Some ==> s.page_url() == s.loading_page,
        s.loading_page is None ==> s.page_url() == s.history.current(),
        s.prepared(url, body) is Err <==> url.scheme == "file"@ && (s.page_url() matches Some(page)
            && (page.scheme == "http"@ || page.scheme == "https"@)),
        s.prepared(url, body) matches Err(e) ==> e == LoadErrorModel::UnsupportedScheme(
            "file (blocked from a remote page)"@,
        ),
        s.prepared(url, body) matches Ok(request) ==> request.url == url && request.body == body
            && request.cookie == cookies::header_model(s.cookies, url, true),
{
}

/// An interaction that may change the page asks for a layout where hovering
/// changes layouts, for a repaint where it only changes paint, and for nothing
/// where no style depends on it; only a layout repaints everything.
pub proof fn law_reactions_follow_the_styles(s: SessionModel, damage: RepaintDamage)
    requires
        s.page is Some,
    ensures
        s.hover_impact is Layout ==> reaction(s, true, true) is Relayout,
        s.hover_impact is PaintOnly ==> reaction(s, true, true) is Repaint,
        s.hover_impact is Nothing ==> reaction(s, true, true) is Ignored,
        reaction(s, false, true) is Ignored,
        reaction(s, true, false) is Ignored,
        damage_after(damage, Reaction::Relayout) is Full,
        damage_after(damage, Reaction::Repaint) == damage,
        damage_after(damage, Reaction::Ignored) == damage,
{
}

/// Checked are the checkboxes and radio buttons that are checked and the
/// options that are selected; no other element is.
pub proof fn law_what_counts_as_checked(doc: DocumentModel, f: FormModel, node: NodeId)
    ensures
        document::has_tag(doc, node, "input"@) && (document::attribute_at(doc, node, "type"@)
            == Some("checkbox"@) || document::attribute_at(doc, node, "type"@) == Some("radio"@))
            ==> (is_checked_node(doc, f, node) <==> forms::checked_at(doc, f, node)),
        document::has_tag(doc, node, "option"@) ==> (is_checked_node(doc, f, node)
            <==> forms::selected_at(doc, f, node)),
        is_checked_node(doc, f, node) ==> document::has_tag(doc, node, "input"@)
            || document::has_tag(doc, node, "option"@),
        document::has_tag(doc, node, "input"@) && document::attribute_at(doc, node, "type"@)
            != Some("checkbox"@) && document::attribute_at(doc, node, "type"@) != Some("radio"@)
            ==> !is_checked_node(doc, f, node),
{
    reveal_strlit("input");
    reveal_strlit("option");
    assert("input"@.len() == 5 && "option"@.len() == 6);
}

/// Of a list of nodes exactly the checked ones are listed, in their order.
pub proof fn law_checked_nodes_are_listed(
    doc: DocumentModel,
    f: FormModel,
    list: Seq<NodeId>,
    node: NodeId,
    n: int,
)
    requires
        0 <= n <= list.len(),
    ensures
        checked_among(doc, f, list, n).contains(node) <==> is_checked_node(doc, f, node) && exists|
            i: int,
        |
            0 <= i < n && list[i] == node,
        n > 0 && is_checked_node(doc, f, list[n - 1]) ==> checked_among(doc, f, list, n)
            == checked_among(doc, f, list, n - 1).push(list[n - 1]),
    decreases n,
{
    if n > 0 {
        law_checked_nodes_are_listed(doc, f, list, node, n - 1);
        let before = checked_among(doc, f, list, n - 1);
        let after = checked_among(doc, f, list, n);
        if before.contains(node) {
            let j = choose|j: int| 0 <= j < before.len() && before[j] == node;
            assert(after[j] == node);
        }
        if list[n - 1] == node && is_checked_node(doc, f, node) {
            assert(after[before.len() as int] == node);
        }
        if after.contains(node) {
            let j = choose|j: int| 0 <= j < after.len() && after[j] == node;
            if j < before.len() {
                assert(before[j] == node);
            } else {
                assert(list[n - 1] == node);
            }
        }
    }
}

/// Of a list of links exactly those are listed whose address was visited.
pub proof fn law_visited_links_are_listed(
    visited: Set<Seq<char>>,
    links: Seq<(NodeId, Option<UrlModel>)>,
    node: NodeId,
    n: int,
)
    requires
        0 <= n <= links.len(),
    ensures
        visited_among(visited, links, n).contains(node) <==> exists|i: int|
            0 <= i < n && (#[trigger] links[i]).0 == node && (links[i].1 matches Some(url)
                && visited.contains(url.text)),
    decreases n,
{
    if n > 0 {
        law_visited_links_are_listed(visited, links, node, n - 1);
        let before = visited_among(visited, links, n - 1);
        let after = visited_among(visited, links, n);
        if before.contains(node) {
            let j = choose|j: int| 0 <= j < before.len() && before[j] == node;
            assert(after[j] == node);
        }
        if after.len() > before.len() {
            assert(after[before.len() as int] == links[n - 1].0);
        }
        if after.contains(node) {
            let j = choose|j: int| 0 <= j < after.len() && after[j] == node;
            if j < before.len() {
                assert(before[j] == node);
            } else {
                assert(links[n - 1].0 == node);
            }
        }
    }
}

} // verus!
