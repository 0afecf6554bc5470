//! Error flood control.
use crate::text;
use vstd::prelude::*;

verus! {

/// How many times one distinct error message prints before suppression
/// kicks in — a misfiring handler retried every frame would otherwise
/// drown the terminal in thousands of identical lines.
pub const ERROR_REPORT_BUDGET: usize = 3;

/// How many distinct messages are counted.
pub const MAX_DISTINCT_ERRORS: usize = 1024;

/// What to do with one more occurrence of an error message.
#[derive(Debug, Clone, Copy, PartialEq, Eq, Structural)]
pub enum ErrorReport {
    /// Print it (within the budget).
    Print,
    /// Print it once more with a "suppressed from here on" note.
    LastOne,
    /// Swallow it.
    Silent,
}

/// Per-message occurrence counts. A count stops two above the budget: from
/// there on it makes no difference.
#[derive(Debug)]
pub struct ErrorTally {
    counts: Vec<(String, usize)>,
}

pub type TallyModel = Seq<(Seq<char>, int)>;

impl View for ErrorTally {
    type V = TallyModel;

    closed spec fn view(&self) -> TallyModel {
        Seq::new(self.counts@.len(), |i: int| (self.counts@[i].0@, self.counts@[i].1 as int))
    }
}

/// The place of a message, from place `i` on; the length where it is new.
pub open spec fn place_of(tally: TallyModel, message: Seq<char>, i: int) -> int
    decreases tally.len() - i,
{
    if i < 0 || i >= tally.len() {
        tally.len() as int
    } else if tally[i].0 == message {
        i
    } else {
        place_of(tally, message, i + 1)
    }
}

/// How often a message was counted.
pub open spec fn count_of(tally: TallyModel, message: Seq<char>) -> int {
    let i = place_of(tally, message, 0);
    if i < tally.len() {
        tally[i].1
    } else {
        0
    }
}

/// One more occurrence, up to where the count stops.
pub open spec fn counted(n: int) -> int {
    if n <= ERROR_REPORT_BUDGET + 1 {
        n + 1
    } else {
        n
    }
}

/// What the `n`th occurrence of a message is answered.
pub open spec fn report(n: int) -> ErrorReport {
    if n <= ERROR_REPORT_BUDGET {
        ErrorReport::Print
    } else if n == ERROR_REPORT_BUDGET + 1 {
        ErrorReport::LastOne
    } else {
        ErrorReport::Silent
    }
}

/// The tally after one more occurrence. A full tally starts over rather than
/// growing with every new message.
pub open spec fn tallied(tally: TallyModel, message: Seq<char>) -> TallyModel {
    let i = place_of(tally, message, 0);
    if i < tally.len() {
        tally.update(i, (message, counted(tally[i].1)))
    } else if tally.len() >= MAX_DISTINCT_ERRORS {
        seq![(message, 1)]
    } else {
        tally.push((message, 1))
    }
}

/// No message is counted twice over, the number of messages is bounded, and
/// counts are positive.
pub open spec fn tally_wf(tally: TallyModel) -> bool {
    &&& tally.len() <= MAX_DISTINCT_ERRORS
    &&& forall|i: int, j: int|
        0 <= i < j < tally.len() ==> (#[trigger] tally[i]).0 != (#[trigger] tally[j]).0
    &&& forall|i: int| 0 <= i < tally.len() ==> (#[trigger] tally[i]).1 >= 1
}

impl ErrorTally {
    pub fn new() -> (r: ErrorTally)
        ensures
            r@ == Seq::<(Seq<char>, int)>::empty(),
            tally_wf(r@),
    {
        let r = ErrorTally { counts: Vec::new() };
        assert(r@ =~= Seq::<(Seq<char>, int)>::empty());
        r
    }

    /// Tallies one occurrence of `message` and decides its fate.
    pub fn tally_error(&mut self, message: &str) -> (r: ErrorReport)
        requires
            tally_wf(old(self)@),
        ensures
            final(self)@ == tallied(old(self)@, message@),
            tally_wf(final(self)@),
            r == report(count_of(tallied(old(self)@, message@), message@)),
    {
        let ghost before = self@;
        proof {
            lemma_place(before, message@, 0);
            law_counts_grow_by_one(before, message@, message@);
        }
        let mut i: usize = 0;
        while i < self.counts.len() && !text::same_str(self.counts[i].0.as_str(), message)
            invariant
                i <= self.counts@.len(),
                before == self@,
                place_of(before, message@, i as int) == place_of(before, message@, 0),
            decreases self.counts@.len() - i,
        {
            assert(before[i as int].0 == self.counts@[i as int].0@);
            i = i + 1;
        }
        if i < self.counts.len() {
            assert(before[i as int].0 == self.counts@[i as int].0@);
            let n: usize = self.counts[i].1;
            assert(before[i as int].1 == n);
            let next: usize = if n <= ERROR_REPORT_BUDGET + 1 {
                n + 1
            } else {
                n
            };
            self.counts.set(i, (message.to_owned(), next));
            assert(self@ =~= tallied(before, message@));
            return decide(next);
        }
        if self.counts.len() >= MAX_DISTINCT_ERRORS {
            self.counts.clear();
        }
        self.counts.push((message.to_owned(), 1));
        assert(self@ =~= tallied(before, message@));
        decide(1)
    }
}

fn decide(n: usize) -> (r: ErrorReport)
    ensures
        r == report(n as int),
{
    if n <= ERROR_REPORT_BUDGET {
        ErrorReport::Print
    } else if n == ERROR_REPORT_BUDGET + 1 {
        ErrorReport::LastOne
    } else {
        ErrorReport::Silent
    }
}

proof fn lemma_place(tally: TallyModel, message: Seq<char>, i: int)
    requires
        0 <= i <= tally.len(),
    ensures
        i <= place_of(tally, message, i) <= tally.len(),
        place_of(tally, message, i) < tally.len() ==> tally[place_of(tally, message, i)].0
            == message,
        forall|k: int|
            i <= k < place_of(tally, message, i) ==> (#[trigger] tally[k]).0 != message,
    decreases tally.len() - i,
{
    if i < tally.len() && tally[i].0 != message {
        lemma_place(tally, message, i + 1);
    }
}

/// One more occurrence of a message raises its own count by one, up to where
/// counting stops, and leaves the counts of other messages as they are —
/// unless the tally was full and started over.
pub proof fn law_counts_grow_by_one(tally: TallyModel, message: Seq<char>, other: Seq<char>)
    requires
        tally_wf(tally),
    ensures
        tally_wf(tallied(tally, message)),
        count_of(tallied(tally, message), message) == counted(count_of(tally, message)),
        other != message && (tally.len() < MAX_DISTINCT_ERRORS || count_of(tally, message) > 0)
            ==> count_of(tallied(tally, message), other) == count_of(tally, other),
{
    let after = tallied(tally, message);
    lemma_place(tally, message, 0);
    lemma_place(tally, other, 0);
    lemma_place(after, message, 0);
    lemma_place(after, other, 0);
    let i = place_of(tally, message, 0);
    let at = place_of(after, message, 0);
    if i < tally.len() {
        assert(after[i].0 == message);
        assert(at == i) by {
            if at < i {
                assert(tally[at].0 == message);
            }
        }
    } else if tally.len() >= MAX_DISTINCT_ERRORS {
        assert(after[0].0 == message);
        assert(at == 0);
    } else {
        let n = tally.len() as int;
        assert(after[n].0 == message);
        assert(at == n) by {
            if at < n {
                assert(tally[at].0 == message);
            }
        }
    }
    if other != message && (tally.len() < MAX_DISTINCT_ERRORS || i < tally.len()) {
        let k = place_of(tally, other, 0);
        let m = place_of(after, other, 0);
        if k < tally.len() {
            assert(after[k] == tally[k]);
            assert(m == k) by {
                if m < k {
                    assert(after[m].0 == tally[m].0);
                }
            }
        } else if m < after.len() {
            if m < tally.len() {
                assert(after[m].0 == tally[m].0 || m == i);
            }
        }
    }
}

/// The tally after a message occurred `n` times more.
pub open spec fn repeated(tally: TallyModel, message: Seq<char>, n: nat) -> TallyModel
    decreases n,
{
    if n == 0 {
        tally
    } else {
        tallied(repeated(tally, message, (n - 1) as nat), message)
    }
}

/// A new message prints as often as the budget allows, once more with a note,
/// and never again.
pub proof fn law_repeated_errors_are_throttled(tally: TallyModel, message: Seq<char>, n: nat)
    requires
        tally_wf(tally),
        count_of(tally, message) == 0,
        n >= 1,
    ensures
        tally_wf(repeated(tally, message, n)),
        report(count_of(repeated(tally, message, n), message)) == report(n as int),
        count_of(repeated(tally, message, n), message) == (if n <= ERROR_REPORT_BUDGET + 2 {
            n as int
        } else {
            ERROR_REPORT_BUDGET + 2
        }),
    decreases n,
{
    reveal_with_fuel(repeated, 2);
    if n > 1 {
        law_repeated_errors_are_throttled(tally, message, (n - 1) as nat);
    }
    law_counts_grow_by_one(repeated(tally, message, (n - 1) as nat), message, message);
}

/// The first three occurrences of a message are printed, the fourth is told to
/// be the last one, and the later ones are silent. A tally holds at most one
/// thousand and twenty-four messages.
pub proof fn law_three_reports_and_a_last_one(n: int)
    ensures
        n <= 3 ==> report(n) is Print,
        n == 4 ==> report(n) is LastOne,
        n > 4 ==> report(n) is Silent,
        0 <= n <= 4 ==> counted(n) == n + 1,
        MAX_DISTINCT_ERRORS == 1024,
{
}

} // verus!
