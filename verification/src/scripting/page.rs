//! One page's script world: its listeners, timers, reads and storage, and
//! what an entry into its scripts changes.
use crate::browser::cookies;
use crate::browser::damage::RepaintDamage;
use crate::browser::document::{Document, NodeId};
use crate::browser::history::HistoryModel;
use crate::browser::session::{self, Session, SessionModel};
use crate::browser::storage::{self, WebStorage};
use crate::browser::string_map::{Entries, StringMap};
use crate::browser::url::UrlModel;
use crate::scripting::bridge::{
    self, Bridge, BridgeModel, FetchCall, FetchModel, HistoryOp, HistoryOpModel, XhrCall, XhrModel,
};
use crate::scripting::events::{
    self, Dispatch, InlineHandlers, InlineModel, ListenerSeq, Listeners, Registration,
};
use crate::scripting::reads::{Reads, ReadsModel};
use crate::scripting::timers::{self, Timer, Timers};
use crate::text;
use vstd::prelude::*;

verus! {

/// Rounds of one pump: continuations of settled reads may read again, but not
/// forever.
pub const MAX_PUMP_ROUNDS: u32 = 8;

/// One page's JavaScript world: the listener and timer registries and the
/// reads in flight.
#[derive(Debug)]
pub struct PageScripts {
    pub listeners: Listeners,
    pub inline_handlers: InlineHandlers,
    pub timers: Timers,
    /// fetch() calls queued by scripts, not yet submitted to the network.
    pub pending_fetches: Vec<FetchCall>,
    /// XMLHttpRequests queued by scripts, not yet submitted.
    pub pending_xhrs: Vec<XhrCall>,
    pub reads: Reads,
    /// sessionStorage of this page (lives and dies with the world).
    pub session_storage: StringMap,
    /// A navigation requested by a script, for the shell to perform.
    pub navigation: Option<String>,
    /// A focus change requested by a script, for the shell to apply.
    pub focus_request: Option<Option<NodeId>>,
}

pub struct PageModel {
    pub listeners: ListenerSeq,
    pub inline_handlers: Seq<InlineModel>,
    pub timers: Seq<Timer>,
    pub pending_fetches: Seq<FetchModel>,
    pub pending_xhrs: Seq<XhrModel>,
    pub reads: ReadsModel,
    pub session_storage: Entries,
    pub navigation: Option<Seq<char>>,
    pub focus_request: Option<Option<NodeId>>,
}

impl View for PageScripts {
    type V = PageModel;

    open spec fn view(&self) -> PageModel {
        PageModel {
            listeners: self.listeners@,
            inline_handlers: self.inline_handlers@,
            timers: self.timers@,
            pending_fetches: bridge::fetch_models(self.pending_fetches@),
            pending_xhrs: bridge::xhr_models(self.pending_xhrs@),
            reads: self.reads@,
            session_storage: self.session_storage@,
            navigation: text::opt_text(self.navigation),
            focus_request: self.focus_request,
        }
    }
}

// ---------------------------------------------------------------------------
// Entries
// ---------------------------------------------------------------------------
/// What `document.cookie` reads as on a page.
pub open spec fn visible_cookies(s: SessionModel) -> Seq<char> {
    match s.history.current() {
        Some(url) => match cookies::header_model(s.cookies, url, false) {
            Some(header) => header,
            None => Seq::empty(),
        },
        None => Seq::empty(),
    }
}

/// The bridge when an entry begins.
pub open spec fn checked_in(
    b: BridgeModel,
    p: PageModel,
    s: SessionModel,
    local_storage: Entries,
) -> BridgeModel {
    BridgeModel {
        dirty: false,
        entry_url: s.history.current(),
        url: s.history.current(),
        cookie_header: visible_cookies(s),
        local_storage,
        storage_dirty: false,
        session_storage: p.session_storage,
        history_length: s.history.entries.len() as usize,
        history_state: s.history.current_state(),
        ..b
    }
}

/// The listeners after the first `n` removals.
pub open spec fn after_removals(
    list: ListenerSeq,
    removals: Seq<(NodeId, Seq<char>, u64)>,
    n: int,
) -> ListenerSeq
    decreases n,
{
    if n <= 0 {
        list
    } else {
        let (node, event, callback) = removals[n - 1];
        events::unregistered(after_removals(list, removals, n - 1), node, event, callback, 0)
    }
}

/// The timers after the first `n` were cleared.
pub open spec fn after_clears(list: Seq<Timer>, ids: Seq<u64>, n: int) -> Seq<Timer>
    decreases n,
{
    if n <= 0 {
        list
    } else {
        timers::cleared(after_clears(list, ids, n - 1), ids[n - 1], 0)
    }
}

/// A later request takes the place of an earlier one.
pub open spec fn or_else<T>(later: Option<T>, earlier: Option<T>) -> Option<T> {
    match later {
        Some(_) => later,
        None => earlier,
    }
}

/// The navigation that is left for the shell: a traversal becomes one unless
/// the script already asked for another in the same entry.
pub open spec fn navigation_after(
    navigation: Option<Seq<char>>,
    op: Option<HistoryOpModel>,
) -> Option<Seq<char>> {
    match (navigation, op) {
        (None, Some(HistoryOpModel::Back)) => Some("::back"@),
        (None, Some(HistoryOpModel::Forward)) => Some("::forward"@),
        _ => navigation,
    }
}

/// The script world after an entry.
pub open spec fn collected(p: PageModel, b: BridgeModel) -> PageModel {
    PageModel {
        listeners: after_removals(
            p.listeners + b.pending_listeners,
            b.pending_removals,
            b.pending_removals.len() as int,
        ),
        timers: after_clears(
            p.timers + b.pending_timers,
            b.cleared_timers,
            b.cleared_timers.len() as int,
        ),
        pending_fetches: p.pending_fetches + b.pending_fetches,
        pending_xhrs: p.pending_xhrs + b.pending_xhrs,
        session_storage: b.session_storage,
        navigation: navigation_after(
            or_else(b.pending_navigation, p.navigation),
            b.pending_history,
        ),
        focus_request: or_else(b.pending_focus, p.focus_request),
        ..p
    }
}

/// The bridge after an entry: everything was taken out of it.
pub open spec fn emptied(b: BridgeModel) -> BridgeModel {
    BridgeModel {
        pending_listeners: Seq::empty(),
        pending_removals: Seq::empty(),
        pending_timers: Seq::empty(),
        cleared_timers: Seq::empty(),
        pending_fetches: Seq::empty(),
        pending_xhrs: Seq::empty(),
        pending_cookies: Seq::empty(),
        pending_navigation: None,
        pending_focus: None,
        local_storage: Seq::empty(),
        session_storage: Seq::empty(),
        pending_history: None,
        ..b
    }
}

/// The history after an entry.
pub open spec fn history_after(h: HistoryModel, op: Option<HistoryOpModel>) -> HistoryModel {
    match op {
        Some(HistoryOpModel::Push { url, state }) => h.pushed(url, state),
        Some(HistoryOpModel::Replace { url, state }) => h.replaced(url, state),
        _ => h,
    }
}

/// The session after an entry, where `times` are the times at which the
/// cookies were stored.
pub open spec fn session_after(s: SessionModel, b: BridgeModel, times: Seq<int>) -> SessionModel {
    SessionModel {
        cookies: match b.entry_url {
            Some(url) => session::stored_all(
                s.cookies,
                url,
                b.pending_cookies,
                times,
                b.pending_cookies.len() as int,
            ),
            None => s.cookies,
        },
        history: history_after(s.history, b.pending_history),
        repaint_damage: if b.dirty {
            RepaintDamage::Full
        } else {
            s.repaint_damage
        },
        ..s
    }
}

/// The origin whose storage an entry has to save, if any.
pub open spec fn saved_origin(b: BridgeModel) -> Option<Seq<char>> {
    match b.entry_url {
        Some(url) => if b.storage_dirty {
            Some(storage::origin_key_model(url))
        } else {
            None
        },
        None => None,
    }
}

/// A file to write: the origin it belongs to and its text.
#[derive(Debug)]
pub struct StorageWrite {
    pub origin: String,
    pub text: String,
}

/// Whether a pump goes on after `rounds` rounds, and the page then.
pub open spec fn pumped(p: PageModel, rounds: int, settled: bool) -> (bool, PageModel) {
    if settled && rounds >= MAX_PUMP_ROUNDS {
        (
            false,
            PageModel { pending_fetches: Seq::empty(), pending_xhrs: Seq::empty(), ..p },
        )
    } else {
        (settled, p)
    }
}

pub open spec fn write_model(w: Option<StorageWrite>) -> Option<(Seq<char>, Seq<char>)> {
    match w {
        Some(w) => Some((w.origin@, w.text@)),
        None => None,
    }
}

fn take_list<T>(list: &mut Vec<T>) -> (r: Vec<T>)
    ensures
        r@ == old(list)@,
        final(list)@ == Seq::<T>::empty(),
{
    let mut taken: Vec<T> = Vec::new();
    std::mem::swap(&mut taken, list);
    taken
}

fn take_map(map: &mut StringMap) -> (r: StringMap)
    ensures
        r@ == old(map)@,
        final(map)@ == Seq::<(Seq<char>, Seq<char>)>::empty(),
{
    let mut taken = StringMap::new();
    std::mem::swap(&mut taken, map);
    taken
}

impl PageScripts {
    pub fn new() -> (r: PageScripts)
        ensures
            r@.listeners.len() == 0,
            r@.inline_handlers.len() == 0,
            r@.timers.len() == 0,
            r@.pending_fetches.len() == 0,
            r@.pending_xhrs.len() == 0,
            r@.reads.in_flight.len() == 0,
            r@.reads.preflights.len() == 0,
            r@.session_storage.len() == 0,
            r@.navigation is None,
            r@.focus_request is None,
    {
        PageScripts {
            listeners: Listeners::new(),
            inline_handlers: InlineHandlers::new(),
            timers: Timers::new(),
            pending_fetches: Vec::new(),
            pending_xhrs: Vec::new(),
            reads: Reads::new(),
            session_storage: StringMap::new(),
            navigation: None,
            focus_request: None,
        }
    }

    /// Begins an entry: the session's page goes into the bridge, with the
    /// origin's storage.
    pub fn check_in(&mut self, bridge: &mut Bridge, session: &Session, local_storage: StringMap)
        requires
            session@.history.wf(),
        ensures
            final(bridge)@ == checked_in(
                old(bridge)@,
                old(self)@,
                session@,
                local_storage@,
            ),
            final(self)@ == (PageModel { session_storage: Seq::empty(), ..old(self)@ }),
    {
        bridge.dirty = false;
        bridge.storage_dirty = false;
        match session.current_url() {
            Some(url) => {
                bridge.cookie_header = match session.cookies.header_for(url) {
                    Some(header) => header,
                    None => {
                        let none = String::new();
                        assert(none@ =~= Seq::<char>::empty());
                        none
                    },
                };
                bridge.entry_url = Some(url.clone());
                bridge.url = Some(url.clone());
            },
            None => {
                let none = String::new();
                assert(none@ =~= Seq::<char>::empty());
                bridge.cookie_header = none;
                bridge.entry_url = None;
                bridge.url = None;
            },
        }
        bridge.local_storage = local_storage;
        bridge.session_storage = take_map(&mut self.session_storage);
        bridge.history_length = session.history_len();
        bridge.history_state = session.history.history_state();
    }

    fn collect_listeners(&mut self, bridge: &mut Bridge)
        ensures
            final(self)@ == (PageModel {
                listeners: after_removals(
                    old(self)@.listeners + old(bridge)@.pending_listeners,
                    old(bridge)@.pending_removals,
                    old(bridge)@.pending_removals.len() as int,
                ),
                ..old(self)@
            }),
            final(bridge)@ == (BridgeModel {
                pending_listeners: Seq::empty(),
                pending_removals: Seq::empty(),
                ..old(bridge)@
            }),
    {
        let ghost start = self@;
        let mut added: Vec<Registration> = take_list(&mut bridge.pending_listeners);
        let ghost av = events::listener_models(added@);
        let ghost lv = events::listener_models(self.listeners.list@);
        self.listeners.list.append(&mut added);
        assert(self.listeners@ =~= lv + av);
        let removals = take_list(&mut bridge.pending_removals);
        let ghost rv = bridge::removal_models(removals@);
        let mut i: usize = 0;
        while i < removals.len()
            invariant
                i <= removals@.len(),
                rv == bridge::removal_models(removals@),
                self@ == (PageModel {
                    listeners: after_removals(lv + av, rv, i as int),
                    ..start
                }),
            decreases removals@.len() - i,
        {
            assert(rv[i as int] == (
                removals@[i as int].0,
                removals@[i as int].1@,
                removals@[i as int].2,
            ));
            self.listeners.remove_listener(removals[i].0, removals[i].1.as_str(), removals[i].2);
            i = i + 1;
        }
        assert(rv.len() == removals@.len());
        assert(bridge@.pending_listeners =~= Seq::empty());
        assert(bridge@.pending_removals =~= Seq::empty());
    }

    fn collect_timers(&mut self, bridge: &mut Bridge)
        ensures
            final(self)@ == (PageModel {
                timers: after_clears(
                    old(self)@.timers + old(bridge)@.pending_timers,
                    old(bridge)@.cleared_timers,
                    old(bridge)@.cleared_timers.len() as int,
                ),
                ..old(self)@
            }),
            final(bridge)@ == (BridgeModel {
                pending_timers: Seq::empty(),
                cleared_timers: Seq::empty(),
                ..old(bridge)@
            }),
    {
        let ghost start = self@;
        let mut set: Vec<Timer> = take_list(&mut bridge.pending_timers);
        let ghost sv = set@;
        let ghost tv = self.timers.list@;
        self.timers.list.append(&mut set);
        let cleared = take_list(&mut bridge.cleared_timers);
        let mut i: usize = 0;
        while i < cleared.len()
            invariant
                i <= cleared@.len(),
                self@ == (PageModel {
                    timers: after_clears(tv + sv, cleared@, i as int),
                    ..start
                }),
            decreases cleared@.len() - i,
        {
            self.timers.clear(cleared[i]);
            i = i + 1;
        }
    }

    fn collect_calls(&mut self, bridge: &mut Bridge)
        ensures
            final(self)@ == (PageModel {
                pending_fetches: old(self)@.pending_fetches + old(bridge)@.pending_fetches,
                pending_xhrs: old(self)@.pending_xhrs + old(bridge)@.pending_xhrs,
                session_storage: old(bridge)@.session_storage,
                navigation: or_else(old(bridge)@.pending_navigation, old(self)@.navigation),
                focus_request: or_else(old(bridge)@.pending_focus, old(self)@.focus_request),
                ..old(self)@
            }),
            final(bridge)@ == (BridgeModel {
                pending_fetches: Seq::empty(),
                pending_xhrs: Seq::empty(),
                session_storage: Seq::empty(),
                pending_navigation: None,
                pending_focus: None,
                ..old(bridge)@
            }),
    {
        let ghost fv = self@.pending_fetches;
        let ghost xv = self@.pending_xhrs;
        let mut fetches = take_list(&mut bridge.pending_fetches);
        let ghost fetches_before = bridge::fetch_models(fetches@);
        self.pending_fetches.append(&mut fetches);
        assert(self@.pending_fetches =~= fv + fetches_before);
        let mut xhrs = take_list(&mut bridge.pending_xhrs);
        let ghost xhrs_before = bridge::xhr_models(xhrs@);
        self.pending_xhrs.append(&mut xhrs);
        assert(self@.pending_xhrs =~= xv + xhrs_before);
        assert(bridge@.pending_fetches =~= Seq::empty());
        assert(bridge@.pending_xhrs =~= Seq::empty());
        self.session_storage = take_map(&mut bridge.session_storage);
        if let Some(target) = bridge.pending_navigation.take() {
            self.navigation = Some(target);
        }
        if let Some(target) = bridge.pending_focus {
            self.focus_request = Some(target);
            bridge.pending_focus = None;
        }
    }

    /// Ends an entry: what the scripts registered and asked for is collected,
    /// and what they changed goes back to the session — cookies into the jar,
    /// history entries, and a relayout if the DOM changed. Gives the storage
    /// file to write, if the origin's storage changed.
    pub fn check_out(
        &mut self,
        bridge: &mut Bridge,
        session: &mut Session,
        storage: &mut WebStorage,
    ) -> (r: Option<StorageWrite>)
        requires
            old(session)@.history.wf(),
        ensures
            final(self)@ == collected(old(self)@, old(bridge)@),
            final(bridge)@ == emptied(old(bridge)@),
            exists|times: Seq<int>|
                final(session)@ == #[trigger] session_after(old(session)@, old(bridge)@, times),
            final(session)@.history.wf(),
            final(storage).rooted == old(storage).rooted,
            match saved_origin(old(bridge)@) {
                Some(origin) => {
                    &&& storage::cache_models(final(storage).cache@) == storage::with_map(
                        storage::cache_models(old(storage).cache@),
                        origin,
                        old(bridge)@.local_storage,
                    )
                    &&& write_model(r) == (if old(storage).rooted && storage::byte_len(
                        storage::json_object(old(bridge)@.local_storage),
                    ) <= storage::MAX_STORAGE_BYTES {
                        Some((origin, storage::json_object(old(bridge)@.local_storage)))
                    } else {
                        None
                    })
                },
                None => r is None && *final(storage) == *old(storage),
            },
    {
        let ghost b = bridge@;
        let ghost p = self@;
        let ghost s = session@;
        self.collect_listeners(bridge);
        self.collect_timers(bridge);
        self.collect_calls(bridge);
        let cookies = take_list(&mut bridge.pending_cookies);
        assert(bridge@.pending_cookies =~= Seq::empty());
        let local = take_map(&mut bridge.local_storage);
        let op = bridge.pending_history.take();
        let ghost mut times: Seq<int> = Seq::empty();
        let mut write: Option<StorageWrite> = None;
        if let Some(url) = &bridge.entry_url {
            session.store_response_cookies(url, &cookies);
            assert(b.pending_cookies.len() == cookies@.len());
            proof {
                times = choose|times: Seq<int>|
                    session@ == (SessionModel {
                        cookies: #[trigger] session::stored_all(
                            s.cookies,
                            url@,
                            text::texts(cookies@),
                            times,
                            cookies@.len() as int,
                        ),
                        ..s
                    });
            }
            if bridge.storage_dirty {
                let origin = storage::origin_key(url);
                if let Some(text) = storage.save(origin.as_str(), &local) {
                    write = Some(StorageWrite { origin, text });
                }
            }
        }
        match op {
            Some(HistoryOp::Push { url, state }) => {
                session.push_state(url, state);
            },
            Some(HistoryOp::Replace { url, state }) => {
                session.replace_state(url, state);
            },
            Some(HistoryOp::Back) => {
                if self.navigation.is_none() {
                    self.navigation = Some("::back".to_owned());
                }
            },
            Some(HistoryOp::Forward) => {
                if self.navigation.is_none() {
                    self.navigation = Some("::forward".to_owned());
                }
            },
            None => {},
        }
        if bridge.dirty {
            session.note_full_repaint();
        }
        assert(session@ == session_after(s, b, times));
        write
    }

    // -----------------------------------------------------------------------
    // Requests for the shell
    // -----------------------------------------------------------------------
    /// A navigation a script requested (location.href / reload /
    /// history traversal). The shell performs it; `"::reload"` means
    /// refresh, `"::back"`/`"::forward"` a history traversal.
    pub fn take_navigation(&mut self) -> (r: Option<String>)
        ensures
            text::opt_text(r) == old(self)@.navigation,
            final(self)@ == (PageModel { navigation: None, ..old(self)@ }),
    {
        self.navigation.take()
    }

    /// A focus change a script requested (el.focus() / el.blur()).
    pub fn take_focus_request(&mut self) -> (r: Option<Option<NodeId>>)
        ensures
            r == old(self)@.focus_request,
            final(self)@ == (PageModel { focus_request: None, ..old(self)@ }),
    {
        let request = self.focus_request;
        self.focus_request = None;
        request
    }

    /// Whether any listener is registered for (node, event).
    pub fn has_listener(&self, node: NodeId, event: &str) -> (r: bool)
        ensures
            r == events::any_for(
                self@.listeners,
                node,
                event@,
                self@.listeners.len() as int,
            ),
    {
        self.listeners.has_listener(node, event)
    }

    /// Plans the dispatch of an event at `node`, bubbling to its ancestors.
    pub fn dispatch(&self, page: Option<&Document>, node: NodeId, event: &str) -> (r: Dispatch)
        ensures
            events::handler_models(r.handlers@) == events::planned(
                match page {
                    Some(doc) => doc@,
                    None => Seq::empty(),
                },
                self@.listeners,
                node,
                event@,
            ),
            r.event@ == event@,
            r.next == 0,
            !r.handled,
    {
        match page {
            Some(doc) => Dispatch::plan(doc, &self.listeners, node, event),
            None => {
                let empty = session::no_document();
                Dispatch::plan(&empty, &self.listeners, node, event)
            },
        }
    }

    /// Whether timers are pending (the shell keeps frames coming).
    pub fn has_timers(&self) -> (r: bool)
        ensures
            r == (self@.timers.len() > 0),
    {
        self.timers.has_timers()
    }

    /// Whether any script-initiated network load is still in flight.
    pub fn has_pending_network(&self) -> (r: bool)
        ensures
            r == (self@.reads.in_flight.len() > 0 || self@.reads.preflights.len() > 0),
    {
        self.reads.has_pending_network()
    }

    /// The reads that scripts queued since the last pump, taken out to be
    /// started.
    pub fn take_pending_reads(&mut self) -> (r: (Vec<FetchCall>, Vec<XhrCall>))
        ensures
            bridge::fetch_models(r.0@) == old(self)@.pending_fetches,
            bridge::xhr_models(r.1@) == old(self)@.pending_xhrs,
            final(self)@ == (PageModel {
                pending_fetches: Seq::empty(),
                pending_xhrs: Seq::empty(),
                ..old(self)@
            }),
    {
        let fetches = take_list(&mut self.pending_fetches);
        let xhrs = take_list(&mut self.pending_xhrs);
        assert(self@.pending_fetches =~= Seq::empty());
        assert(self@.pending_xhrs =~= Seq::empty());
        (fetches, xhrs)
    }

    /// Whether a pump goes on after `rounds` rounds, where the last one
    /// settled something or not. A chain of reads that runs too deep is
    /// dropped.
    pub fn pump_again(&mut self, rounds: u32, settled: bool) -> (r: bool)
        ensures
            (r, final(self)@) == pumped(old(self)@, rounds as int, settled),
    {
        if !settled {
            return false;
        }
        if rounds >= MAX_PUMP_ROUNDS {
            self.pending_fetches.clear();
            self.pending_xhrs.clear();
            assert(self@.pending_fetches =~= Seq::empty());
            assert(self@.pending_xhrs =~= Seq::empty());
            return false;
        }
        true
    }
}

// ---------------------------------------------------------------------------
// Laws
// ---------------------------------------------------------------------------
/// Scripts never see a cookie that is HttpOnly: what an entry shows them is
/// the header without those.
pub proof fn law_entries_hide_http_only_cookies(
    b: BridgeModel,
    p: PageModel,
    s: SessionModel,
    local_storage: Entries,
    url: UrlModel,
    cookie: cookies::CookieModel,
)
    requires
        s.history.current() == Some(url),
        cookie.http_only,
    ensures
        !cookies::visible(s.cookies, url, false).contains(cookie),
        checked_in(b, p, s, local_storage).cookie_header == (match cookies::header_model(
            s.cookies,
            url,
            false,
        ) {
            Some(header) => header,
            None => Seq::empty(),
        }),
{
    cookies::law_cookie_confinement(s.cookies, url, cookie);
}

/// An entry whose scripts did nothing changes nothing: what was checked in is
/// checked out again.
pub proof fn law_idle_entries_change_nothing(
    b: BridgeModel,
    p: PageModel,
    s: SessionModel,
    local_storage: Entries,
    times: Seq<int>,
)
    requires
        b.pending_listeners.len() == 0,
        b.pending_removals.len() == 0,
        b.pending_timers.len() == 0,
        b.cleared_timers.len() == 0,
        b.pending_fetches.len() == 0,
        b.pending_xhrs.len() == 0,
        b.pending_cookies.len() == 0,
        b.pending_navigation is None,
        b.pending_focus is None,
        b.pending_history is None,
    ensures
        ({
            let inside = checked_in(b, p, s, local_storage);
            let waiting = PageModel { session_storage: Seq::empty(), ..p };
            &&& collected(waiting, inside) == p
            &&& session_after(s, inside, times) == s
            &&& saved_origin(inside) is None
        }),
{
    let inside = checked_in(b, p, s, local_storage);
    assert(p.listeners + b.pending_listeners =~= p.listeners);
    assert(p.timers + b.pending_timers =~= p.timers);
    assert(p.pending_fetches + b.pending_fetches =~= p.pending_fetches);
    assert(p.pending_xhrs + b.pending_xhrs =~= p.pending_xhrs);
}

/// sessionStorage outlives an entry: what scripts left in it is there at the
/// next.
pub proof fn law_session_storage_persists(
    b: BridgeModel,
    p: PageModel,
    next: BridgeModel,
    s: SessionModel,
    local_storage: Entries,
)
    ensures
        checked_in(next, collected(p, b), s, local_storage).session_storage == b.session_storage,
{
}

/// A navigation that a script asked for stands; without one, going back or
/// forward is handed on as such, and other history changes navigate nowhere.
pub proof fn law_history_moves_become_navigations(
    navigation: Option<Seq<char>>,
    op: Option<HistoryOpModel>,
)
    ensures
        navigation is Some ==> navigation_after(navigation, op) == navigation,
        navigation_after(None, Some(HistoryOpModel::Back)) == Some("::back"@),
        navigation_after(None, Some(HistoryOpModel::Forward)) == Some("::forward"@),
        navigation is None && op is None ==> navigation_after(navigation, op) is None,
        navigation is None && op is Some && (op->0 is Push || op->0 is Replace)
            ==> navigation_after(navigation, op) is None,
{
}

/// What a script registered goes behind what the page had: listeners and
/// timers (but for those that were removed), fetches and requests. A later
/// request to navigate or to focus replaces an earlier one, and an absent one
/// does not.
pub proof fn law_entries_are_collected(p: PageModel, b: BridgeModel)
    requires
        b.pending_removals.len() == 0,
        b.cleared_timers.len() == 0,
    ensures
        ({
            let next = collected(p, b);
            &&& next.listeners == p.listeners + b.pending_listeners
            &&& next.timers == p.timers + b.pending_timers
            &&& next.pending_fetches == p.pending_fetches + b.pending_fetches
            &&& next.pending_xhrs == p.pending_xhrs + b.pending_xhrs
            &&& next.session_storage == b.session_storage
            &&& b.pending_focus is Some ==> next.focus_request == b.pending_focus
            &&& b.pending_focus is None ==> next.focus_request == p.focus_request
            &&& b.pending_navigation is Some ==> next.navigation == b.pending_navigation
            &&& b.pending_navigation is None && p.navigation is Some ==> next.navigation
                == p.navigation
            &&& next.inline_handlers == p.inline_handlers && next.reads == p.reads
        }),
{
}

/// A script sees the page's address, its history and its stores as they are
/// when it begins.
pub proof fn law_scripts_see_the_session(
    b: BridgeModel,
    p: PageModel,
    s: SessionModel,
    local_storage: Entries,
)
    requires
        s.history.wf(),
        s.history.entries.len() <= usize::MAX,
    ensures
        ({
            let next = checked_in(b, p, s, local_storage);
            &&& next.url == s.history.current() && next.entry_url == s.history.current()
            &&& next.history_length == s.history.entries.len()
            &&& next.history_state == s.history.current_state()
            &&& next.local_storage == local_storage && next.session_storage == p.session_storage
            &&& !next.dirty && !next.storage_dirty
            &&& next.next_timer_id == b.next_timer_id
        }),
{
}

/// The history follows what the script did to it: a pushed state is appended,
/// a replaced one replaces, and moves are left to navigation. A page that the
/// script changed is painted anew, one that it did not is not.
pub proof fn law_sessions_follow_the_script(s: SessionModel, b: BridgeModel, times: Seq<int>)
    ensures
        ({
            let next = session_after(s, b, times);
            &&& b.pending_history matches Some(HistoryOpModel::Push { url, state }) ==> next.history
                == s.history.pushed(url, state)
            &&& b.pending_history matches Some(HistoryOpModel::Replace { url, state })
                ==> next.history == s.history.replaced(url, state)
            &&& b.pending_history is None || b.pending_history == Some(HistoryOpModel::Back)
                || b.pending_history == Some(HistoryOpModel::Forward) ==> next.history == s.history
            &&& b.dirty ==> next.repaint_damage is Full
            &&& !b.dirty ==> next.repaint_damage == s.repaint_damage
            &&& b.entry_url is None ==> next.cookies == s.cookies
            &&& b.pending_cookies.len() == 0 ==> next.cookies == s.cookies
            &&& next.forms == s.forms && next.page == s.page && next.focused == s.focused
        }),
{
}

/// A store is saved under its page's origin exactly where the script wrote to
/// it.
pub proof fn law_written_stores_are_saved(b: BridgeModel)
    ensures
        saved_origin(b) is Some <==> b.storage_dirty && b.entry_url is Some,
        b.storage_dirty ==> (b.entry_url matches Some(url) ==> saved_origin(b) == Some(
            storage::origin_key_model(url),
        )),
{
}

/// A pump goes on while rounds settle something; at the limit it stops, and
/// what scripts still asked for is dropped.
pub proof fn law_pumps_end(p: PageModel, rounds: int)
    ensures
        !pumped(p, rounds, false).0 && pumped(p, rounds, false).1 == p,
        rounds < MAX_PUMP_ROUNDS ==> pumped(p, rounds, true).0 && pumped(p, rounds, true).1 == p,
        rounds >= MAX_PUMP_ROUNDS ==> {
            let (again, next) = pumped(p, rounds, true);
            !again && next.pending_fetches.len() == 0 && next.pending_xhrs.len() == 0
                && next.listeners == p.listeners && next.timers == p.timers
        },
        MAX_PUMP_ROUNDS == 8,
{
}

} // verus!
