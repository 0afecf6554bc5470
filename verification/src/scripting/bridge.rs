//! The page state that scripts operate on while a call is in flight: the
//! natives read and write it, and what they asked for is collected when the
//! call returns.
use crate::browser::cors;
use crate::browser::document::{self, NodeId};
use crate::browser::session;
use crate::browser::string_map::{self, Entries, StringMap};
use crate::browser::url::{Url, UrlModel};
use crate::scripting::events::{self, ListenerSeq, Registration};
use crate::scripting::natives;
use crate::scripting::timers::Timer;
use crate::text;
use vstd::prelude::*;

verus! {

/// A fetch() call: its target, whether cookies ride across origins, and the
/// number under which the shell keeps the promise's resolvers.
#[derive(Debug)]
pub struct FetchCall {
    pub target: String,
    pub with_credentials: bool,
    pub settle: u64,
}

pub struct FetchModel {
    pub target: Seq<char>,
    pub with_credentials: bool,
    pub settle: u64,
}

impl View for FetchCall {
    type V = FetchModel;

    open spec fn view(&self) -> FetchModel {
        FetchModel { target: self.target@, with_credentials: self.with_credentials, settle: self.settle }
    }
}

pub open spec fn fetch_models(list: Seq<FetchCall>) -> Seq<FetchModel> {
    Seq::new(list.len(), |i: int| list[i]@)
}

/// One `xhr.send()`. Custom headers are recorded but only Content-Type
/// reaches the wire; they do drive the CORS preflight decision.
#[derive(Debug)]
pub struct XhrCall {
    pub method: String,
    pub url: String,
    pub headers: Vec<(String, String)>,
    pub body: Option<String>,
    pub with_credentials: bool,
    /// The number under which the shell keeps the XHR object.
    pub xhr: u64,
}

pub struct XhrModel {
    pub method: Seq<char>,
    pub url: Seq<char>,
    pub headers: Seq<(Seq<char>, Seq<char>)>,
    pub body: Option<Seq<char>>,
    pub with_credentials: bool,
    pub xhr: u64,
}

impl View for XhrCall {
    type V = XhrModel;

    open spec fn view(&self) -> XhrModel {
        XhrModel {
            method: self.method@,
            url: self.url@,
            headers: document::pair_models(self.headers@),
            body: text::opt_text(self.body),
            with_credentials: self.with_credentials,
            xhr: self.xhr,
        }
    }
}

pub open spec fn xhr_models(list: Seq<XhrCall>) -> Seq<XhrModel> {
    Seq::new(list.len(), |i: int| list[i]@)
}

/// A `history.*` call made during an entry, applied at its end.
#[derive(Debug)]
pub enum HistoryOp {
    /// pushState: new entry, no reload.
    Push { url: Url, state: Option<String> },
    /// replaceState: rewrite the current entry.
    Replace { url: Url, state: Option<String> },
    /// back()/forward(): handed to the shell as a navigation.
    Back,
    Forward,
}

pub enum HistoryOpModel {
    Push { url: UrlModel, state: Option<Seq<char>> },
    Replace { url: UrlModel, state: Option<Seq<char>> },
    Back,
    Forward,
}

impl View for HistoryOp {
    type V = HistoryOpModel;

    open spec fn view(&self) -> HistoryOpModel {
        match self {
            HistoryOp::Push { url, state } => HistoryOpModel::Push {
                url: url@,
                state: text::opt_text(*state),
            },
            HistoryOp::Replace { url, state } => HistoryOpModel::Replace {
                url: url@,
                state: text::opt_text(*state),
            },
            HistoryOp::Back => HistoryOpModel::Back,
            HistoryOp::Forward => HistoryOpModel::Forward,
        }
    }
}

pub open spec fn opt_op(op: Option<HistoryOp>) -> Option<HistoryOpModel> {
    match op {
        Some(op) => Some(op@),
        None => None,
    }
}

pub open spec fn removal_models(list: Seq<(NodeId, String, u64)>) -> Seq<
    (NodeId, Seq<char>, u64),
> {
    Seq::new(list.len(), |i: int| (list[i].0, list[i].1@, list[i].2))
}

/// The page state scripts operate on while a call is in flight.
#[derive(Debug)]
pub struct Bridge {
    /// Set when a mutation changed something render-visible.
    pub dirty: bool,
    /// Registrations collected during the call.
    pub pending_listeners: Vec<Registration>,
    /// removeEventListener calls collected during the call.
    pub pending_removals: Vec<(NodeId, String, u64)>,
    pub pending_timers: Vec<Timer>,
    pub cleared_timers: Vec<u64>,
    pub next_timer_id: u64,
    /// `event.preventDefault()` was called during the dispatch.
    pub prevented: bool,
    /// `event.stopPropagation()` was called (stops the bubble walk).
    pub stopped: bool,
    /// fetch() calls made during the entry.
    pub pending_fetches: Vec<FetchCall>,
    /// XMLHttpRequest.send() calls made during the entry.
    pub pending_xhrs: Vec<XhrCall>,
    /// The page URL when the entry began.
    pub entry_url: Option<Url>,
    /// The page URL as scripts read it (location.href).
    pub url: Option<Url>,
    /// The Cookie header for the page URL (document.cookie reads).
    pub cookie_header: String,
    /// document.cookie writes, stored into the jar after the entry.
    pub pending_cookies: Vec<String>,
    /// A navigation a script requested (location.href = ..., reload()).
    pub pending_navigation: Option<String>,
    /// A focus change a script requested: focus(Some) / blur(None).
    pub pending_focus: Option<Option<NodeId>>,
    /// localStorage of the page origin.
    pub local_storage: StringMap,
    /// Set by a localStorage write.
    pub storage_dirty: bool,
    /// sessionStorage of this script world (memory only).
    pub session_storage: StringMap,
    /// history.length / history.state feeds.
    pub history_length: usize,
    pub history_state: Option<String>,
    /// A history operation a script requested.
    pub pending_history: Option<HistoryOp>,
}

pub struct BridgeModel {
    pub dirty: bool,
    pub pending_listeners: ListenerSeq,
    pub pending_removals: Seq<(NodeId, Seq<char>, u64)>,
    pub pending_timers: Seq<Timer>,
    pub cleared_timers: Seq<u64>,
    pub next_timer_id: u64,
    pub prevented: bool,
    pub stopped: bool,
    pub pending_fetches: Seq<FetchModel>,
    pub pending_xhrs: Seq<XhrModel>,
    pub entry_url: Option<UrlModel>,
    pub url: Option<UrlModel>,
    pub cookie_header: Seq<char>,
    pub pending_cookies: Seq<Seq<char>>,
    pub pending_navigation: Option<Seq<char>>,
    pub pending_focus: Option<Option<NodeId>>,
    pub local_storage: Entries,
    pub storage_dirty: bool,
    pub session_storage: Entries,
    pub history_length: usize,
    pub history_state: Option<Seq<char>>,
    pub pending_history: Option<HistoryOpModel>,
}

impl View for Bridge {
    type V = BridgeModel;

    open spec fn view(&self) -> BridgeModel {
        BridgeModel {
            dirty: self.dirty,
            pending_listeners: events::listener_models(self.pending_listeners@),
            pending_removals: removal_models(self.pending_removals@),
            pending_timers: self.pending_timers@,
            cleared_timers: self.cleared_timers@,
            next_timer_id: self.next_timer_id,
            prevented: self.prevented,
            stopped: self.stopped,
            pending_fetches: fetch_models(self.pending_fetches@),
            pending_xhrs: xhr_models(self.pending_xhrs@),
            entry_url: session::opt_url(self.entry_url),
            url: session::opt_url(self.url),
            cookie_header: self.cookie_header@,
            pending_cookies: text::texts(self.pending_cookies@),
            pending_navigation: text::opt_text(self.pending_navigation),
            pending_focus: self.pending_focus,
            local_storage: self.local_storage@,
            storage_dirty: self.storage_dirty,
            session_storage: self.session_storage@,
            history_length: self.history_length,
            history_state: text::opt_text(self.history_state),
            pending_history: opt_op(self.pending_history),
        }
    }
}

/// Whether a script may put a URL on the history: it has to be same-origin
/// with the page.
pub open spec fn may_rewrite(base: Option<UrlModel>, target: Option<UrlModel>) -> bool {
    match (base, target) {
        (Some(base), Some(url)) => cors::origins_equal(base, url),
        _ => false,
    }
}

impl BridgeModel {
    /// A reload was asked for.
    pub open spec fn reloading(self) -> BridgeModel {
        BridgeModel { pending_navigation: Some("::reload"@), ..self }
    }

    /// A step through the history was asked for.
    pub open spec fn traversing(self, step: int) -> BridgeModel {
        BridgeModel {
            pending_history: if step < 0 {
                Some(HistoryOpModel::Back)
            } else if step > 0 {
                Some(HistoryOpModel::Forward)
            } else {
                None
            },
            ..self
        }
    }

    /// The history was rewritten.
    pub open spec fn rewriting(self, url: UrlModel, state: Option<Seq<char>>, replace: bool) -> BridgeModel {
        BridgeModel {
            url: Some(url),
            history_state: state,
            history_length: if replace {
                self.history_length
            } else {
                (self.history_length + 1) as usize
            },
            pending_history: Some(
                if replace {
                    HistoryOpModel::Replace { url, state }
                } else {
                    HistoryOpModel::Push { url, state }
                },
            ),
            ..self
        }
    }
}

impl Bridge {
    pub fn new() -> (r: Bridge)
        ensures
            !r@.dirty,
            r@.pending_listeners.len() == 0,
            r@.pending_removals.len() == 0,
            r@.pending_timers.len() == 0,
            r@.cleared_timers.len() == 0,
            r@.next_timer_id == 0,
            !r@.prevented,
            !r@.stopped,
            r@.pending_fetches.len() == 0,
            r@.pending_xhrs.len() == 0,
            r@.entry_url is None,
            r@.url is None,
            r@.cookie_header.len() == 0,
            r@.pending_cookies.len() == 0,
            r@.pending_navigation is None,
            r@.pending_focus is None,
            r@.local_storage.len() == 0,
            !r@.storage_dirty,
            r@.session_storage.len() == 0,
            r@.history_length == 0,
            r@.history_state is None,
            r@.pending_history is None,
    {
        Bridge {
            dirty: false,
            pending_listeners: Vec::new(),
            pending_removals: Vec::new(),
            pending_timers: Vec::new(),
            cleared_timers: Vec::new(),
            next_timer_id: 0,
            prevented: false,
            stopped: false,
            pending_fetches: Vec::new(),
            pending_xhrs: Vec::new(),
            entry_url: None,
            url: None,
            cookie_header: String::new(),
            pending_cookies: Vec::new(),
            pending_navigation: None,
            pending_focus: None,
            local_storage: StringMap::new(),
            storage_dirty: false,
            session_storage: StringMap::new(),
            history_length: 0,
            history_state: None,
            pending_history: None,
        }
    }

    /// Notes that a native changed something render-visible.
    pub fn mark_dirty(&mut self)
        ensures
            final(self)@ == (BridgeModel { dirty: true, ..old(self)@ }),
    {
        self.dirty = true;
    }

    // -----------------------------------------------------------------------
    // Events
    // -----------------------------------------------------------------------
    /// A dispatch begins: nothing is prevented or stopped yet.
    pub fn begin_dispatch(&mut self)
        ensures
            final(self)@ == (BridgeModel { prevented: false, stopped: false, ..old(self)@ }),
    {
        self.prevented = false;
        self.stopped = false;
    }

    /// `event.preventDefault()`.
    pub fn prevent_default(&mut self)
        ensures
            final(self)@ == (BridgeModel { prevented: true, ..old(self)@ }),
    {
        self.prevented = true;
    }

    /// `event.stopPropagation()`.
    pub fn stop_propagation(&mut self)
        ensures
            final(self)@ == (BridgeModel { stopped: true, ..old(self)@ }),
    {
        self.stopped = true;
    }

    /// `addEventListener`: the registration is collected at the end of the
    /// entry.
    pub fn register_listener(&mut self, registration: Registration)
        ensures
            final(self)@ == (BridgeModel {
                pending_listeners: old(self)@.pending_listeners.push(registration@),
                ..old(self)@
            }),
    {
        let ghost before = self@.pending_listeners;
        self.pending_listeners.push(registration);
        assert(self@.pending_listeners =~= before.push(registration@));
    }

    /// `removeEventListener`.
    pub fn unregister_listener(&mut self, node: NodeId, event: String, callback: u64)
        ensures
            final(self)@ == (BridgeModel {
                pending_removals: old(self)@.pending_removals.push((node, event@, callback)),
                ..old(self)@
            }),
    {
        let ghost before = self@.pending_removals;
        self.pending_removals.push((node, event, callback));
        assert(self@.pending_removals =~= before.push((node, event@, callback)));
    }

    // -----------------------------------------------------------------------
    // Timers
    // -----------------------------------------------------------------------
    /// `setTimeout`/`setInterval`: gives the timer's id.
    pub fn queue_timer(&mut self, due: i64, repeats: bool, callback: u64) -> (r: u64)
        requires
            old(self)@.next_timer_id < u64::MAX,
        ensures
            r == old(self)@.next_timer_id + 1,
            final(self)@ == (BridgeModel {
                next_timer_id: r,
                pending_timers: old(self)@.pending_timers.push(
                    Timer { id: r, due, repeats, callback },
                ),
                ..old(self)@
            }),
    {
        let id: u64 = self.next_timer_id + 1;
        self.next_timer_id = id;
        self.pending_timers.push(Timer { id, due, repeats, callback });
        id
    }

    /// `clearTimeout`/`clearInterval`.
    pub fn clear_timer(&mut self, id: u64)
        ensures
            final(self)@ == (BridgeModel {
                cleared_timers: old(self)@.cleared_timers.push(id),
                ..old(self)@
            }),
    {
        self.cleared_timers.push(id);
    }

    // -----------------------------------------------------------------------
    // Network
    // -----------------------------------------------------------------------
    /// `fetch(...)`.
    pub fn queue_fetch(&mut self, call: FetchCall)
        ensures
            final(self)@ == (BridgeModel {
                pending_fetches: old(self)@.pending_fetches.push(call@),
                ..old(self)@
            }),
    {
        let ghost before = self@.pending_fetches;
        self.pending_fetches.push(call);
        assert(self@.pending_fetches =~= before.push(call@));
    }

    /// `xhr.send(...)`: refused before `open` gave a URL.
    pub fn send_xhr(&mut self, call: XhrCall) -> (r: bool)
        ensures
            r == (call@.url.len() > 0),
            final(self)@ == (if r {
                BridgeModel {
                    pending_xhrs: old(self)@.pending_xhrs.push(call@),
                    ..old(self)@
                }
            } else {
                old(self)@
            }),
    {
        if call.url.as_str().is_empty() {
            return false;
        }
        let ghost before = self@.pending_xhrs;
        self.pending_xhrs.push(call);
        assert(self@.pending_xhrs =~= before.push(call@));
        true
    }

    // -----------------------------------------------------------------------
    // Cookies and storage
    // -----------------------------------------------------------------------
    /// `document.cookie = header`: reads within the same entry see the write
    /// too.
    pub fn set_cookie(&mut self, header: String)
        ensures
            final(self)@ == (BridgeModel {
                cookie_header: natives::header_after(old(self)@.cookie_header, header@),
                pending_cookies: old(self)@.pending_cookies.push(header@),
                ..old(self)@
            }),
    {
        let after = natives::write_cookie(self.cookie_header.as_str(), header.as_str());
        self.cookie_header = after;
        proof {
            text::lemma_texts_push(self.pending_cookies@, header);
        }
        self.pending_cookies.push(header);
    }

    /// `localStorage.getItem`.
    pub fn local_get(&self, key: &str) -> (r: Option<String>)
        ensures
            text::opt_text(r) == string_map::lookup(self@.local_storage, key@),
    {
        match self.local_storage.get(key) {
            Some(value) => Some(value.clone()),
            None => None,
        }
    }

    /// `localStorage.setItem`.
    pub fn local_set(&mut self, key: String, value: String)
        ensures
            final(self)@ == (BridgeModel {
                local_storage: string_map::put(old(self)@.local_storage, key@, value@),
                storage_dirty: true,
                ..old(self)@
            }),
    {
        self.local_storage.insert(key, value);
        self.storage_dirty = true;
    }

    /// `localStorage.removeItem`.
    pub fn local_remove(&mut self, key: &str)
        ensures
            final(self)@ == (BridgeModel {
                local_storage: string_map::dropped(old(self)@.local_storage, key@),
                storage_dirty: true,
                ..old(self)@
            }),
    {
        self.local_storage.remove(key);
        self.storage_dirty = true;
    }

    /// `localStorage.clear`.
    pub fn local_clear(&mut self)
        ensures
            final(self)@ == (BridgeModel {
                local_storage: Seq::empty(),
                storage_dirty: true,
                ..old(self)@
            }),
    {
        self.local_storage.clear();
        self.storage_dirty = true;
    }

    /// `sessionStorage.getItem`.
    pub fn session_get(&self, key: &str) -> (r: Option<String>)
        ensures
            text::opt_text(r) == string_map::lookup(self@.session_storage, key@),
    {
        match self.session_storage.get(key) {
            Some(value) => Some(value.clone()),
            None => None,
        }
    }

    /// `sessionStorage.setItem`.
    pub fn session_set(&mut self, key: String, value: String)
        ensures
            final(self)@ == (BridgeModel {
                session_storage: string_map::put(old(self)@.session_storage, key@, value@),
                ..old(self)@
            }),
    {
        self.session_storage.insert(key, value);
    }

    /// `sessionStorage.removeItem`.
    pub fn session_remove(&mut self, key: &str)
        ensures
            final(self)@ == (BridgeModel {
                session_storage: string_map::dropped(old(self)@.session_storage, key@),
                ..old(self)@
            }),
    {
        self.session_storage.remove(key);
    }

    /// `sessionStorage.clear`.
    pub fn session_clear(&mut self)
        ensures
            final(self)@ == (BridgeModel { session_storage: Seq::empty(), ..old(self)@ }),
    {
        self.session_storage.clear();
    }

    // -----------------------------------------------------------------------
    // Navigation
    // -----------------------------------------------------------------------
    /// `location.href = target`.
    pub fn navigate(&mut self, target: String)
        ensures
            final(self)@ == (BridgeModel { pending_navigation: Some(target@), ..old(self)@ }),
    {
        self.pending_navigation = Some(target);
    }

    /// `location.reload()`.
    pub fn reload(&mut self)
        ensures
            final(self)@ == old(self)@.reloading(),
    {
        self.pending_navigation = Some("::reload".to_owned());
    }

    /// `el.focus()` and `el.blur()`.
    pub fn request_focus(&mut self, node: Option<NodeId>)
        ensures
            final(self)@ == (BridgeModel { pending_focus: Some(node), ..old(self)@ }),
    {
        self.pending_focus = Some(node);
    }

    /// `history.pushState` / `history.replaceState` with the URL that was
    /// asked for, resolved against the page (the page's own without one).
    /// Refused where it is not same-origin with the page: a script cannot
    /// pretend to be elsewhere. No reload happens.
    pub fn update_history(&mut self, target: Option<Url>, state: Option<String>, replace: bool) -> (r:
        bool)
        requires
            old(self)@.history_length < usize::MAX,
        ensures
            r == may_rewrite(old(self)@.url, session::opt_url(target)),
            final(self)@ == (match (r, session::opt_url(target)) {
                (true, Some(url)) => old(self)@.rewriting(url, text::opt_text(state), replace),
                _ => old(self)@,
            }),
    {
        let url = match target {
            Some(url) => url,
            None => {
                return false;
            },
        };
        let allowed = match &self.url {
            Some(base) => cors::same_origin(base, &url),
            None => false,
        };
        if !allowed {
            return false;
        }
        self.url = Some(url.clone());
        self.history_state = match &state {
            Some(s) => Some(s.clone()),
            None => None,
        };
        if replace {
            self.pending_history = Some(HistoryOp::Replace { url, state });
        } else {
            self.history_length = self.history_length + 1;
            self.pending_history = Some(HistoryOp::Push { url, state });
        }
        true
    }

    /// `history.back()`, `history.forward()` and `history.go(n)`, by the sign
    /// of the step; no step asks for nothing.
    pub fn traverse(&mut self, step: i8)
        ensures
            final(self)@ == old(self)@.traversing(step as int),
    {
        self.pending_history = if step < 0 {
            Some(HistoryOp::Back)
        } else if step > 0 {
            Some(HistoryOp::Forward)
        } else {
            None
        };
    }
}

/// A script that rewrites the history stays on its page's origin.
pub proof fn law_history_stays_on_its_origin(base: UrlModel, target: UrlModel)
    ensures
        may_rewrite(Some(base), Some(target)) ==> base.scheme == target.scheme && base.host
            == target.host && base.port == target.port,
        !may_rewrite(None, Some(target)),
        !may_rewrite(Some(base), None),
{
}

/// A reload asks to navigate to the page itself, and changes nothing else.
pub proof fn law_reloads_navigate(b: BridgeModel)
    ensures
        b.reloading().pending_navigation == Some("::reload"@),
        b.reloading().pending_history == b.pending_history,
        b.reloading().url == b.url,
        b.reloading().dirty == b.dirty,
{
}

/// A step back goes back and a step forward goes forward, however far; no step
/// goes nowhere.
pub proof fn law_steps_go_by_their_sign(b: BridgeModel, step: int)
    ensures
        step < 0 ==> b.traversing(step).pending_history == Some(HistoryOpModel::Back),
        step > 0 ==> b.traversing(step).pending_history == Some(HistoryOpModel::Forward),
        step == 0 ==> b.traversing(step).pending_history is None,
        b.traversing(step).pending_navigation == b.pending_navigation,
{
}

/// A rewritten history shows the new address and state at once; a pushed entry
/// makes it longer by one, a replaced one does not.
pub proof fn law_rewrites_show_at_once(b: BridgeModel, url: UrlModel, state: Option<Seq<char>>)
    requires
        b.history_length < usize::MAX,
    ensures
        ({
            let pushed = b.rewriting(url, state, false);
            let replaced = b.rewriting(url, state, true);
            &&& pushed.url == Some(url) && replaced.url == Some(url)
            &&& pushed.history_state == state && replaced.history_state == state
            &&& pushed.history_length == b.history_length + 1
            &&& replaced.history_length == b.history_length
            &&& pushed.pending_history == Some(HistoryOpModel::Push { url, state })
            &&& replaced.pending_history == Some(HistoryOpModel::Replace { url, state })
            &&& pushed.pending_navigation == b.pending_navigation && pushed.dirty == b.dirty
        }),
{
}

} // verus!
