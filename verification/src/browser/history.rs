//! Linear history: the entries of one browsing context, the `pushState`
//! state of each, and the pages that were visited.
use crate::browser::url::{Url, UrlModel};
use crate::text;
use vstd::prelude::*;

verus! {

/// Why a load did not come about.
#[derive(Debug, PartialEq, Eq)]
pub enum LoadError {
    InvalidUrl(String),
    UnsupportedScheme(String),
    Http(String),
}

pub enum LoadErrorModel {
    InvalidUrl(Seq<char>),
    UnsupportedScheme(Seq<char>),
    Http(Seq<char>),
}

impl View for LoadError {
    type V = LoadErrorModel;

    open spec fn view(&self) -> LoadErrorModel {
        match self {
            LoadError::InvalidUrl(s) => LoadErrorModel::InvalidUrl(s@),
            LoadError::UnsupportedScheme(s) => LoadErrorModel::UnsupportedScheme(s@),
            LoadError::Http(s) => LoadErrorModel::Http(s@),
        }
    }
}

pub open spec fn outcome_model(outcome: Result<(), LoadError>) -> Result<(), LoadErrorModel> {
    match outcome {
        Ok(_) => Ok(()),
        Err(e) => Err(e@),
    }
}

pub open spec fn loaded_model(loaded: Result<Url, LoadError>) -> Result<UrlModel, LoadErrorModel> {
    match loaded {
        Ok(url) => Ok(url@),
        Err(e) => Err(e@),
    }
}

/// The session history.
#[derive(Debug)]
pub struct History {
    entries: Vec<Url>,
    /// `history.pushState` state (JSON) per entry: none for plain
    /// navigations.
    states: Vec<Option<String>>,
    /// The current entry, if any page is loaded.
    index: Option<usize>,
    /// The URLs of visited pages, each once.
    visited: Vec<String>,
    /// Whether the last navigation was a `back` or `forward`.
    traversed: bool,
}

#[verifier::ext_equal]
pub struct HistoryModel {
    pub entries: Seq<UrlModel>,
    pub states: Seq<Option<Seq<char>>>,
    pub index: Option<int>,
    pub visited: Set<Seq<char>>,
    pub traversed: bool,
}

pub open spec fn url_models(urls: Seq<Url>) -> Seq<UrlModel> {
    Seq::new(urls.len(), |i: int| urls[i]@)
}

pub open spec fn state_models(states: Seq<Option<String>>) -> Seq<Option<Seq<char>>> {
    Seq::new(states.len(), |i: int| text::opt_text(states[i]))
}

impl View for History {
    type V = HistoryModel;

    closed spec fn view(&self) -> HistoryModel {
        HistoryModel {
            entries: url_models(self.entries@),
            states: state_models(self.states@),
            index: match self.index {
                Some(i) => Some(i as int),
                None => None,
            },
            visited: text::texts(self.visited@).to_set(),
            traversed: self.traversed,
        }
    }
}

impl HistoryModel {
    /// Every entry has a state, and the current entry is one of them; there
    /// is a current entry as soon as there are entries.
    pub open spec fn wf(self) -> bool {
        &&& self.states.len() == self.entries.len()
        &&& match self.index {
            Some(i) => 0 <= i < self.entries.len(),
            None => self.entries.len() == 0,
        }
    }

    pub open spec fn current(self) -> Option<UrlModel> {
        match self.index {
            Some(i) => Some(self.entries[i]),
            None => None,
        }
    }

    pub open spec fn current_state(self) -> Option<Seq<char>> {
        match self.index {
            Some(i) => self.states[i],
            None => None,
        }
    }

    pub open spec fn back_open(self) -> bool {
        self.index matches Some(i) && i > 0
    }

    pub open spec fn forward_open(self) -> bool {
        self.index matches Some(i) && i + 1 < self.entries.len()
    }

    /// The history with an entry after the current one in place of those
    /// that followed.
    pub open spec fn appended(self, url: UrlModel, state: Option<Seq<char>>) -> HistoryModel {
        let keep = match self.index {
            Some(i) => i + 1,
            None => self.entries.len() as int,
        };
        HistoryModel {
            entries: self.entries.take(keep).push(url),
            states: self.states.take(keep).push(state),
            index: Some(keep),
            visited: self.visited.insert(url.text),
            ..self
        }
    }

    /// The history after a page was loaded.
    pub open spec fn loaded(self, url: UrlModel) -> HistoryModel {
        HistoryModel { traversed: false, ..self.appended(url, None) }
    }

    pub open spec fn pushed(self, url: UrlModel, state: Option<Seq<char>>) -> HistoryModel {
        if self.index is Some {
            self.appended(url, state)
        } else {
            self
        }
    }

    pub open spec fn replaced(self, url: UrlModel, state: Option<Seq<char>>) -> HistoryModel {
        match self.index {
            Some(i) => HistoryModel {
                entries: self.entries.update(i, url),
                states: self.states.update(i, state),
                visited: self.visited.insert(url.text),
                ..self
            },
            None => self,
        }
    }

    pub open spec fn went_back(self) -> HistoryModel {
        match self.index {
            Some(i) => HistoryModel { index: Some(i - 1), traversed: true, ..self },
            None => self,
        }
    }

    pub open spec fn went_forward(self) -> HistoryModel {
        match self.index {
            Some(i) => HistoryModel { index: Some(i + 1), traversed: true, ..self },
            None => self,
        }
    }
}

pub open spec fn no_page() -> LoadErrorModel {
    LoadErrorModel::InvalidUrl("no page loaded"@)
}

pub open spec fn no_earlier() -> LoadErrorModel {
    LoadErrorModel::InvalidUrl("no earlier history entry"@)
}

pub open spec fn no_later() -> LoadErrorModel {
    LoadErrorModel::InvalidUrl("no later history entry"@)
}

impl History {
    pub fn new() -> (r: History)
        ensures
            r@ == (HistoryModel {
                entries: Seq::empty(),
                states: Seq::empty(),
                index: None,
                visited: Set::empty(),
                traversed: false,
            }),
            r@.wf(),
    {
        let r = History {
            entries: Vec::new(),
            states: Vec::new(),
            index: None,
            visited: Vec::new(),
            traversed: false,
        };
        assert(r@.entries =~= Seq::empty());
        assert(r@.states =~= Seq::empty());
        assert(r@.visited =~= Set::empty());
        r
    }

    /// Whether a URL is one of a visited page.
    pub fn is_visited(&self, url: &str) -> (r: bool)
        ensures
            r == self@.visited.contains(url@),
    {
        let mut i: usize = 0;
        while i < self.visited.len()
            invariant
                i <= self.visited@.len(),
                forall|j: int| 0 <= j < i ==> (#[trigger] self.visited@[j])@ != url@,
            decreases self.visited@.len() - i,
        {
            if text::same_str(self.visited[i].as_str(), url) {
                assert(text::texts(self.visited@)[i as int] == url@);
                return true;
            }
            i = i + 1;
        }
        false
    }

    /// Remembers a URL as visited.
    pub fn mark_visited(&mut self, url: &str)
        ensures
            final(self)@ == (HistoryModel {
                visited: old(self)@.visited.insert(url@),
                ..old(self)@
            }),
    {
        if self.is_visited(url) {
            assert(self@.visited =~= old(self)@.visited.insert(url@));
            return;
        }
        let ghost before = text::texts(self.visited@);
        self.visited.push(url.to_owned());
        proof {
            let after = text::texts(self.visited@);
            assert(after =~= before.push(url@));
            assert(after.to_set() =~= before.to_set().insert(url@)) by {
                assert forall|s: Seq<char>| #[trigger] after.to_set().contains(s) == (
                before.to_set().insert(url@).contains(s)) by {
                    if before.contains(s) {
                        let j = choose|j: int| 0 <= j < before.len() && before[j] == s;
                        assert(after[j] == s);
                    }
                    if s == url@ {
                        assert(after[before.len() as int] == s);
                    }
                    if after.contains(s) && s != url@ {
                        let j = choose|j: int| 0 <= j < after.len() && after[j] == s;
                        assert(before[j] == s);
                    }
                }
            }
        }
    }

    /// Drops the entries after the current one and adds one.
    fn append(&mut self, url: Url, state: Option<String>)
        requires
            old(self)@.wf(),
        ensures
            final(self)@ == old(self)@.appended(url@, text::opt_text(state)),
            final(self)@.wf(),
    {
        self.mark_visited(url.text.as_str());
        let ghost before = self@;
        let total: usize = self.entries.len();
        if let Some(index) = self.index {
            assert(index < total);
            self.entries.truncate(index + 1);
            self.states.truncate(index + 1);
        }
        let at: usize = self.entries.len();
        self.entries.push(url);
        self.states.push(state);
        self.index = Some(at);
        proof {
            let keep = match before.index {
                Some(i) => i + 1,
                None => before.entries.len() as int,
            };
            assert(self@.entries =~= before.entries.take(keep).push(url@));
            assert(self@.states =~= before.states.take(keep).push(text::opt_text(state)));
        }
    }

    /// Records a navigation: on success the final URL becomes the entry after
    /// the current one and the later ones are dropped; a failed load changes
    /// nothing.
    pub fn load(&mut self, loaded: Result<Url, LoadError>) -> (r: Result<(), LoadError>)
        requires
            old(self)@.wf(),
        ensures
            final(self)@.wf(),
            match loaded_model(loaded) {
                Ok(url) => r is Ok && final(self)@ == old(self)@.loaded(url),
                Err(e) => outcome_model(r) == Err::<(), LoadErrorModel>(e) && final(self)@ == old(
                    self,
                )@,
            },
    {
        match loaded {
            Ok(url) => {
                self.append(url, None);
                self.traversed = false;
                Ok(())
            },
            Err(e) => Err(e),
        }
    }

    /// The URL of the current entry.
    pub fn current_url(&self) -> (r: Option<&Url>)
        requires
            self@.wf(),
        ensures
            match r {
                Some(url) => self@.current() == Some(url@),
                None => self@.current() is None,
            },
    {
        match self.index {
            Some(index) => {
                assert(self@.entries[index as int] == self.entries@[index as int]@);
                Some(&self.entries[index])
            },
            None => None,
        }
    }

    /// The URL of the current entry; an error without a page.
    pub fn require_current(&self) -> (r: Result<Url, LoadError>)
        requires
            self@.wf(),
        ensures
            match self@.current() {
                Some(url) => loaded_model(r) == Ok::<UrlModel, LoadErrorModel>(url),
                None => loaded_model(r) == Err::<UrlModel, LoadErrorModel>(no_page()),
            },
    {
        match self.current_url() {
            Some(url) => Ok(url.clone()),
            None => Err(LoadError::InvalidUrl("no page loaded".to_owned())),
        }
    }

    pub fn can_go_back(&self) -> (r: bool)
        ensures
            r == self@.back_open(),
    {
        match self.index {
            Some(index) => index > 0,
            None => false,
        }
    }

    pub fn can_go_forward(&self) -> (r: bool)
        requires
            self@.wf(),
        ensures
            r == self@.forward_open(),
    {
        let total: usize = self.entries.len();
        match self.index {
            Some(index) => index < total && index + 1 < total,
            None => false,
        }
    }

    /// The URL that going back fetches.
    pub fn back_target(&self) -> (r: Result<Url, LoadError>)
        requires
            self@.wf(),
        ensures
            loaded_model(r) == (if self@.back_open() {
                Ok::<UrlModel, LoadErrorModel>(self@.entries[self@.index->0 - 1])
            } else {
                Err(no_earlier())
            }),
    {
        if let Some(index) = self.index {
            if index > 0 {
                assert(self@.entries[index - 1] == self.entries@[index - 1]@);
                return Ok(self.entries[index - 1].clone());
            }
        }
        Err(LoadError::InvalidUrl("no earlier history entry".to_owned()))
    }

    /// Goes one entry back, if possible and its page was loaded.
    pub fn back(&mut self, outcome: Result<(), LoadError>) -> (r: Result<(), LoadError>)
        requires
            old(self)@.wf(),
        ensures
            final(self)@.wf(),
            if !old(self)@.back_open() {
                outcome_model(r) == Err::<(), LoadErrorModel>(no_earlier()) && final(self)@ == old(
                    self,
                )@
            } else {
                &&& outcome_model(r) == outcome_model(outcome)
                &&& final(self)@ == (if outcome is Ok {
                    old(self)@.went_back()
                } else {
                    old(self)@
                })
            },
    {
        if let Some(index) = self.index {
            if index > 0 {
                if outcome.is_ok() {
                    self.index = Some(index - 1);
                    self.traversed = true;
                }
                return outcome;
            }
        }
        Err(LoadError::InvalidUrl("no earlier history entry".to_owned()))
    }

    /// The URL that going forward fetches.
    pub fn forward_target(&self) -> (r: Result<Url, LoadError>)
        requires
            self@.wf(),
        ensures
            loaded_model(r) == (if self@.forward_open() {
                Ok::<UrlModel, LoadErrorModel>(self@.entries[self@.index->0 + 1])
            } else {
                Err(no_later())
            }),
    {
        let total: usize = self.entries.len();
        if let Some(index) = self.index {
            if self.can_go_forward() {
                assert(index + 1 < total);
                assert(self@.entries[index + 1] == self.entries@[index + 1]@);
                return Ok(self.entries[index + 1].clone());
            }
        }
        Err(LoadError::InvalidUrl("no later history entry".to_owned()))
    }

    /// Goes one entry forward, if possible and its page was loaded.
    pub fn forward(&mut self, outcome: Result<(), LoadError>) -> (r: Result<(), LoadError>)
        requires
            old(self)@.wf(),
        ensures
            final(self)@.wf(),
            if !old(self)@.forward_open() {
                outcome_model(r) == Err::<(), LoadErrorModel>(no_later()) && final(self)@ == old(
                    self,
                )@
            } else {
                &&& outcome_model(r) == outcome_model(outcome)
                &&& final(self)@ == (if outcome is Ok {
                    old(self)@.went_forward()
                } else {
                    old(self)@
                })
            },
    {
        let total: usize = self.entries.len();
        if let Some(index) = self.index {
            if self.can_go_forward() {
                assert(index + 1 < total);
                if outcome.is_ok() {
                    self.index = Some(index + 1);
                    self.traversed = true;
                }
                return outcome;
            }
        }
        Err(LoadError::InvalidUrl("no later history entry".to_owned()))
    }

    /// Number of entries (`history.length`).
    pub fn history_len(&self) -> (r: usize)
        ensures
            r == self@.entries.len(),
    {
        self.entries.len()
    }

    /// The `pushState` state (JSON) of the current entry, if any.
    pub fn history_state(&self) -> (r: Option<String>)
        requires
            self@.wf(),
        ensures
            text::opt_text(r) == self@.current_state(),
    {
        match self.index {
            Some(index) => {
                assert(self@.states[index as int] == text::opt_text(self.states@[index as int]));
                match &self.states[index] {
                    Some(state) => Some(state.clone()),
                    None => None,
                }
            },
            None => None,
        }
    }

    /// `history.pushState`: appends a new entry pointing at `url`
    /// (dropping forward entries) without reloading.
    pub fn push_state(&mut self, url: Url, state: Option<String>)
        requires
            old(self)@.wf(),
        ensures
            final(self)@ == old(self)@.pushed(url@, text::opt_text(state)),
            final(self)@.wf(),
    {
        if self.index.is_some() {
            self.append(url, state);
        }
    }

    /// `history.replaceState`: rewrites the current entry in place.
    pub fn replace_state(&mut self, url: Url, state: Option<String>)
        requires
            old(self)@.wf(),
        ensures
            final(self)@ == old(self)@.replaced(url@, text::opt_text(state)),
            final(self)@.wf(),
    {
        if let Some(index) = self.index {
            self.mark_visited(url.text.as_str());
            let ghost before = self@;
            self.entries.set(index, url);
            self.states.set(index, state);
            assert(self@.entries =~= before.entries.update(index as int, url@));
            assert(self@.states =~= before.states.update(index as int, text::opt_text(state)));
        }
    }

    /// Whether the last navigation was a `back`/`forward` traversal; cleared
    /// by the read.
    pub fn take_traversed(&mut self) -> (r: bool)
        ensures
            r == old(self)@.traversed,
            final(self)@ == (HistoryModel { traversed: false, ..old(self)@ }),
    {
        let traversed = self.traversed;
        self.traversed = false;
        traversed
    }
}

// ---------------------------------------------------------------------------
// Laws
// ---------------------------------------------------------------------------
/// Going back and then forward leads to the same entry of the same entries.
pub proof fn law_forward_undoes_back(h: HistoryModel)
    requires
        h.wf(),
        h.back_open(),
    ensures
        h.went_back().wf(),
        h.went_back().forward_open(),
        h.went_back().went_forward() == (HistoryModel { traversed: true, ..h }),
{
}

/// Going forward and then back leads to the same entry of the same entries.
pub proof fn law_back_undoes_forward(h: HistoryModel)
    requires
        h.wf(),
        h.forward_open(),
    ensures
        h.went_forward().wf(),
        h.went_forward().back_open(),
        h.went_forward().went_back() == (HistoryModel { traversed: true, ..h }),
{
}

/// A navigation makes its URL current and visited, leaves nothing to go
/// forward to, and leaves the entries up to the one it came from in place.
pub proof fn law_navigation_drops_forward_entries(h: HistoryModel, url: UrlModel)
    requires
        h.wf(),
    ensures
        h.loaded(url).wf(),
        h.loaded(url).current() == Some(url),
        h.loaded(url).current_state() is None,
        !h.loaded(url).forward_open(),
        h.loaded(url).visited.contains(url.text),
        h.index matches Some(i) ==> {
            &&& h.loaded(url).back_open()
            &&& h.loaded(url).went_back().current() == h.current()
            &&& h.loaded(url).entries.take(i + 1) == h.entries.take(i + 1)
        },
{
    if let Some(i) = h.index {
        assert(h.loaded(url).entries.take(i + 1) =~= h.entries.take(i + 1));
    }
}

/// A pushed state is the current one, and going back leads to where it was
/// pushed from, with the state that was there.
pub proof fn law_pushed_state_is_current(h: HistoryModel, url: UrlModel, state: Option<Seq<char>>)
    requires
        h.wf(),
        h.index is Some,
    ensures
        h.pushed(url, state).wf(),
        h.pushed(url, state).current() == Some(url),
        h.pushed(url, state).current_state() == state,
        h.pushed(url, state).back_open(),
        !h.pushed(url, state).forward_open(),
        h.pushed(url, state).went_back().current() == h.current(),
        h.pushed(url, state).went_back().current_state() == h.current_state(),
{
}

/// A replaced state is the current one; the other entries, their number and
/// the place among them stay.
pub proof fn law_replaced_state_keeps_the_others(
    h: HistoryModel,
    url: UrlModel,
    state: Option<Seq<char>>,
    other: int,
)
    requires
        h.wf(),
        h.index is Some,
    ensures
        h.replaced(url, state).wf(),
        h.replaced(url, state).current() == Some(url),
        h.replaced(url, state).current_state() == state,
        h.replaced(url, state).index == h.index,
        h.replaced(url, state).entries.len() == h.entries.len(),
        0 <= other < h.entries.len() && h.index != Some(other) ==> {
            &&& h.replaced(url, state).entries[other] == h.entries[other]
            &&& h.replaced(url, state).states[other] == h.states[other]
        },
{
}

/// A loaded page becomes the last entry and the current one, with no state;
/// the entries up to the current one stay as they were, and the page counts as
/// visited.
pub proof fn law_loading_appends(h: HistoryModel, url: UrlModel)
    requires
        h.wf(),
    ensures
        ({
            let next = h.loaded(url);
            let kept = match h.index {
                Some(i) => i + 1,
                None => 0,
            };
            &&& next.wf()
            &&& next.entries.len() == kept + 1
            &&& next.entries.last() == url
            &&& next.index == Some(kept)
            &&& next.current() == Some(url)
            &&& next.current_state() is None
            &&& forall|j: int| 0 <= j < kept ==> next.entries[j] == h.entries[j] && next.states[j]
                == h.states[j]
            &&& next.visited.contains(url.text)
            &&& h.visited.subset_of(next.visited)
            &&& !next.traversed
        }),
{
}

/// Going back or forward moves by one entry, changes no entry and no state,
/// and is remembered as a traversal.
pub proof fn law_traversing_moves_by_one(h: HistoryModel)
    requires
        h.wf(),
    ensures
        h.back_open() <==> (h.index matches Some(i) && i >= 1),
        h.forward_open() <==> (h.index matches Some(i) && i + 2 <= h.entries.len()),
        h.back_open() ==> {
            let next = h.went_back();
            &&& next.wf()
            &&& next.entries == h.entries && next.states == h.states && next.visited == h.visited
            &&& next.index == Some(h.index->0 - 1)
            &&& next.current() == Some(h.entries[h.index->0 - 1])
            &&& next.current_state() == h.states[h.index->0 - 1]
            &&& next.traversed
        },
        h.forward_open() ==> {
            let next = h.went_forward();
            &&& next.wf()
            &&& next.entries == h.entries && next.states == h.states && next.visited == h.visited
            &&& next.index == Some(h.index->0 + 1)
            &&& next.current() == Some(h.entries[h.index->0 + 1])
            &&& next.current_state() == h.states[h.index->0 + 1]
            &&& next.traversed
        },
{
}

/// Replacing the current entry changes its address and its state, and no other
/// entry; the place in the history stays.
pub proof fn law_replacing_stays_in_place(
    h: HistoryModel,
    url: UrlModel,
    state: Option<Seq<char>>,
)
    requires
        h.wf(),
        h.index is Some,
    ensures
        ({
            let next = h.replaced(url, state);
            &&& next.wf()
            &&& next.index == h.index
            &&& next.entries.len() == h.entries.len()
            &&& next.current() == Some(url)
            &&& next.current_state() == state
            &&& forall|j: int|
                0 <= j < h.entries.len() && j != h.index->0 ==> next.entries[j] == h.entries[j]
                    && next.states[j] == h.states[j]
            &&& next.traversed == h.traversed
        }),
{
}

/// Without a page, pushing and replacing a state change nothing.
pub proof fn law_no_page_no_state(h: HistoryModel, url: UrlModel, state: Option<Seq<char>>)
    requires
        h.index is None,
    ensures
        h.pushed(url, state) == h,
        h.replaced(url, state) == h,
        h.current() is None,
        h.current_state() is None,
{
}

/// A page that is missing, or has no neighbour to go to, is told as such.
pub proof fn law_missing_pages_are_told()
    ensures
        no_page() == LoadErrorModel::InvalidUrl("no page loaded"@),
        no_earlier() == LoadErrorModel::InvalidUrl("no earlier history entry"@),
        no_later() == LoadErrorModel::InvalidUrl("no later history entry"@),
{
}

} // verus!
