//! Navigation of a session: what to fetch, and what a fetched page does to
//! the history.
use crate::browser::damage::RepaintDamage;
use crate::browser::document::{Document, NodeId};
use crate::browser::history::{self, LoadError, LoadErrorModel};
use crate::browser::session::{Session, SessionModel};
use crate::browser::url::{Url, UrlModel};
use crate::text;
use vstd::prelude::*;

verus! {

impl Session {
    /// Records a navigation to the final URL of a page that was fetched and
    /// shown: it becomes the current entry and later ones are dropped. A
    /// failed load changes nothing.
    pub fn load(&mut self, loaded: Result<Url, LoadError>) -> (r: Result<(), LoadError>)
        requires
            old(self)@.history.wf(),
        ensures
            final(self)@.history.wf(),
            match history::loaded_model(loaded) {
                Ok(url) => r is Ok && final(self)@ == (SessionModel {
                    history: old(self)@.history.loaded(url),
                    ..old(self)@
                }),
                Err(e) => history::outcome_model(r) == Err::<(), LoadErrorModel>(e)
                    && final(self)@ == old(self)@,
            },
    {
        self.history.load(loaded)
    }

    /// The URL that a refresh fetches: that of the current entry.
    pub fn refresh_target(&self) -> (r: Result<Url, LoadError>)
        requires
            self@.history.wf(),
        ensures
            match self@.history.current() {
                Some(url) => history::loaded_model(r) == Ok::<UrlModel, LoadErrorModel>(url),
                None => history::loaded_model(r) == Err::<UrlModel, LoadErrorModel>(
                    history::no_page(),
                ),
            },
    {
        self.history.require_current()
    }

    /// Goes one entry back, if possible and its page was fetched.
    pub fn back(&mut self, outcome: Result<(), LoadError>) -> (r: Result<(), LoadError>)
        requires
            old(self)@.history.wf(),
        ensures
            final(self)@.history.wf(),
            if !old(self)@.history.back_open() {
                history::outcome_model(r) == Err::<(), LoadErrorModel>(history::no_earlier())
                    && final(self)@ == old(self)@
            } else {
                &&& history::outcome_model(r) == history::outcome_model(outcome)
                &&& final(self)@ == (if outcome is Ok {
                    SessionModel { history: old(self)@.history.went_back(), ..old(self)@ }
                } else {
                    old(self)@
                })
            },
    {
        self.history.back(outcome)
    }

    /// Goes one entry forward, if possible and its page was fetched.
    pub fn forward(&mut self, outcome: Result<(), LoadError>) -> (r: Result<(), LoadError>)
        requires
            old(self)@.history.wf(),
        ensures
            final(self)@.history.wf(),
            if !old(self)@.history.forward_open() {
                history::outcome_model(r) == Err::<(), LoadErrorModel>(history::no_later())
                    && final(self)@ == old(self)@
            } else {
                &&& history::outcome_model(r) == history::outcome_model(outcome)
                &&& final(self)@ == (if outcome is Ok {
                    SessionModel { history: old(self)@.history.went_forward(), ..old(self)@ }
                } else {
                    old(self)@
                })
            },
    {
        self.history.forward(outcome)
    }

    pub fn current_url(&self) -> (r: Option<&Url>)
        requires
            self@.history.wf(),
        ensures
            match r {
                Some(url) => self@.history.current() == Some(url@),
                None => self@.history.current() is None,
            },
    {
        self.history.current_url()
    }

    pub fn can_go_back(&self) -> (r: bool)
        ensures
            r == self@.history.back_open(),
    {
        self.history.can_go_back()
    }

    pub fn can_go_forward(&self) -> (r: bool)
        requires
            self@.history.wf(),
        ensures
            r == self@.history.forward_open(),
    {
        self.history.can_go_forward()
    }

    /// Number of entries in this session's history (`history.length`).
    pub fn history_len(&self) -> (r: usize)
        ensures
            r == self@.history.entries.len(),
    {
        self.history.history_len()
    }

    /// `history.pushState`: appends a new entry pointing at `url`
    /// (dropping forward entries) without reloading.
    pub fn push_state(&mut self, url: Url, state: Option<String>)
        requires
            old(self)@.history.wf(),
        ensures
            final(self)@ == (SessionModel {
                history: old(self)@.history.pushed(url@, text::opt_text(state)),
                ..old(self)@
            }),
            final(self)@.history.wf(),
    {
        self.history.push_state(url, state);
    }

    /// `history.replaceState`: rewrites the current entry in place.
    pub fn replace_state(&mut self, url: Url, state: Option<String>)
        requires
            old(self)@.history.wf(),
        ensures
            final(self)@ == (SessionModel {
                history: old(self)@.history.replaced(url@, text::opt_text(state)),
                ..old(self)@
            }),
            final(self)@.history.wf(),
    {
        self.history.replace_state(url, state);
    }

    /// The document of the current page.
    pub fn page(&self) -> (r: Option<&Document>)
        ensures
            match r {
                Some(doc) => self@.page == Some(doc@),
                None => self@.page is None,
            },
    {
        self.page.as_ref()
    }

    /// The currently focused node, if any.
    pub fn focused(&self) -> (r: Option<NodeId>)
        ensures
            r == self@.focused,
    {
        self.focused
    }

    /// Navigation counter for progressive image loading: results are
    /// applied only when they still belong to the current page.
    pub fn nav_serial(&self) -> (r: u64)
        ensures
            r == self@.nav_serial,
    {
        self.nav_serial
    }

    /// Damage accumulated by paint-only interaction restyles since the
    /// shell's last raster: the shell may re-rasterize only this region
    /// (or nothing at all for `Region(None)`) instead of the full frame.
    pub fn repaint_damage(&self) -> (r: RepaintDamage)
        ensures
            r == self@.repaint_damage,
    {
        self.repaint_damage
    }
}

} // verus!
