//! Timers: `setTimeout`, `setInterval` and what a tick runs.
use vstd::prelude::*;

verus! {

/// A pending `setTimeout`/`setInterval`. Times are ordinals of the shell's
/// clock: earlier times have smaller ordinals.
#[derive(Debug, Clone, Copy, PartialEq, Eq, Structural)]
pub struct Timer {
    pub id: u64,
    pub due: i64,
    pub repeats: bool,
    /// The number under which the shell keeps the callback.
    pub callback: u64,
}

/// The pending timers, in the order in which they were set.
#[derive(Debug)]
pub struct Timers {
    pub list: Vec<Timer>,
}

impl View for Timers {
    type V = Seq<Timer>;

    open spec fn view(&self) -> Seq<Timer> {
        self.list@
    }
}

/// The ids of the first `n` timers that are due.
pub open spec fn due_among(list: Seq<Timer>, now: i64, n: int) -> Seq<u64>
    decreases n,
{
    if n <= 0 {
        seq![]
    } else if list[n - 1].due <= now {
        due_among(list, now, n - 1).push(list[n - 1].id)
    } else {
        due_among(list, now, n - 1)
    }
}

/// The place of a timer, from `i` on.
pub open spec fn timer_place(list: Seq<Timer>, id: u64, i: int) -> Option<int>
    decreases list.len() - i,
{
    if i < 0 || i >= list.len() {
        None
    } else if list[i].id == id {
        Some(i)
    } else {
        timer_place(list, id, i + 1)
    }
}

/// The timers after one fires: a timeout is gone, an interval goes behind the
/// others with its next time.
pub open spec fn fired(list: Seq<Timer>, id: u64, next_due: i64) -> Seq<Timer> {
    match timer_place(list, id, 0) {
        Some(i) => if list[i].repeats {
            list.remove(i).push(Timer { due: next_due, ..list[i] })
        } else {
            list.remove(i)
        },
        None => list,
    }
}

/// The timers, from place `i` on, without one.
pub open spec fn cleared(list: Seq<Timer>, id: u64, i: int) -> Seq<Timer>
    decreases list.len() - i,
{
    if i < 0 || i >= list.len() {
        seq![]
    } else if list[i].id == id {
        cleared(list, id, i + 1)
    } else {
        seq![list[i]] + cleared(list, id, i + 1)
    }
}

/// The earliest time of the first `n` timers.
pub open spec fn earliest(list: Seq<Timer>, n: int) -> Option<i64>
    decreases n,
{
    if n <= 0 {
        None
    } else {
        match earliest(list, n - 1) {
            Some(due) => if list[n - 1].due < due {
                Some(list[n - 1].due)
            } else {
                Some(due)
            },
            None => Some(list[n - 1].due),
        }
    }
}

impl Timers {
    pub fn new() -> (r: Timers)
        ensures
            r@ == Seq::<Timer>::empty(),
    {
        Timers { list: Vec::new() }
    }

    /// Sets a timer.
    pub fn set(&mut self, timer: Timer)
        ensures
            final(self)@ == old(self)@.push(timer),
    {
        self.list.push(timer);
    }

    /// The timers due at `now`, in order. A tick snapshots them up front:
    /// timers a callback sets wait for the next tick, so a `setTimeout(f, 0)`
    /// chain cannot spin one tick forever.
    pub fn due(&self, now: i64) -> (r: Vec<u64>)
        ensures
            r@ == due_among(self@, now, self@.len() as int),
    {
        let mut ids: Vec<u64> = Vec::new();
        let mut i: usize = 0;
        while i < self.list.len()
            invariant
                i <= self.list@.len(),
                ids@ == due_among(self.list@, now, i as int),
            decreases self.list@.len() - i,
        {
            if self.list[i].due <= now {
                ids.push(self.list[i].id);
            }
            i = i + 1;
        }
        ids
    }

    fn place(&self, id: u64) -> (r: Option<usize>)
        ensures
            match timer_place(self@, id, 0) {
                Some(i) => r is Some && r->0 == i && 0 <= i < self@.len(),
                None => r is None,
            },
    {
        let mut i: usize = 0;
        while i < self.list.len()
            invariant
                i <= self.list@.len(),
                timer_place(self.list@, id, i as int) == timer_place(self.list@, id, 0),
            decreases self.list@.len() - i,
        {
            if self.list[i].id == id {
                return Some(i);
            }
            i = i + 1;
        }
        None
    }

    /// Whether a timer still is to fire and repeats; none where an earlier
    /// callback of the same tick cleared it.
    pub fn repeats(&self, id: u64) -> (r: Option<bool>)
        ensures
            r == (match timer_place(self@, id, 0) {
                Some(i) => Some(self@[i].repeats),
                None => None,
            }),
    {
        match self.place(id) {
            Some(i) => Some(self.list[i].repeats),
            None => None,
        }
    }

    /// Fires a timer of the snapshot: gives its callback, unless an earlier
    /// callback of the same tick cleared it. An interval stays, due again at
    /// `next_due`.
    pub fn fire(&mut self, id: u64, next_due: i64) -> (r: Option<u64>)
        ensures
            r == (match timer_place(old(self)@, id, 0) {
                Some(i) => Some(old(self)@[i].callback),
                None => None,
            }),
            final(self)@ == fired(old(self)@, id, next_due),
    {
        match self.place(id) {
            Some(i) => {
                let timer = self.list.remove(i);
                if timer.repeats {
                    self.list.push(
                        Timer {
                            id: timer.id,
                            due: next_due,
                            repeats: true,
                            callback: timer.callback,
                        },
                    );
                }
                Some(timer.callback)
            },
            None => None,
        }
    }

    /// `clearTimeout`/`clearInterval`.
    pub fn clear(&mut self, id: u64)
        ensures
            final(self)@ == cleared(old(self)@, id, 0),
    {
        let ghost all = self.list@;
        let mut i: usize = self.list.len();
        assert(all.take(i as int) + cleared(all, id, i as int) =~= all);
        while i > 0
            invariant
                i <= all.len(),
                self.list@ == all.take(i as int) + cleared(all, id, i as int),
            decreases i,
        {
            i = i - 1;
            let ghost tail = cleared(all, id, i + 1);
            assert(self.list@[i as int] == all[i as int]);
            if self.list[i].id == id {
                self.list.remove(i);
            }
            assert(self.list@ =~= all.take(i as int) + cleared(all, id, i as int));
        }
        assert(self.list@ =~= cleared(all, id, 0));
    }

    /// Whether timers are pending (the shell keeps frames coming).
    pub fn has_timers(&self) -> (r: bool)
        ensures
            r == (self@.len() > 0),
    {
        self.list.len() > 0
    }

    /// The nearest pending timer's due time, if any — the shell sleeps
    /// until then instead of spinning frames while a timer waits.
    pub fn next_due(&self) -> (r: Option<i64>)
        ensures
            r == earliest(self@, self@.len() as int),
    {
        let mut best: Option<i64> = None;
        let mut i: usize = 0;
        while i < self.list.len()
            invariant
                i <= self.list@.len(),
                best == earliest(self.list@, i as int),
            decreases self.list@.len() - i,
        {
            let due: i64 = self.list[i].due;
            best = match best {
                Some(b) => if due < b {
                    Some(due)
                } else {
                    Some(b)
                },
                None => Some(due),
            };
            i = i + 1;
        }
        best
    }
}

// ---------------------------------------------------------------------------
// Laws
// ---------------------------------------------------------------------------
proof fn lemma_timer_place(list: Seq<Timer>, id: u64, i: int)
    requires
        0 <= i <= list.len(),
    ensures
        match timer_place(list, id, i) {
            Some(k) => i <= k < list.len() && list[k].id == id,
            None => forall|j: int| i <= j < list.len() ==> (#[trigger] list[j]).id != id,
        },
    decreases list.len() - i,
{
    if i < list.len() && list[i].id != id {
        lemma_timer_place(list, id, i + 1);
    }
}

/// Timer ids are given out once.
pub open spec fn unique_ids(list: Seq<Timer>) -> bool {
    forall|i: int, j: int|
        0 <= i < j < list.len() ==> (#[trigger] list[i]).id != (#[trigger] list[j]).id
}

proof fn lemma_cleared(list: Seq<Timer>, id: u64, i: int, k: int)
    requires
        0 <= i <= list.len(),
        0 <= k < cleared(list, id, i).len(),
    ensures
        cleared(list, id, i)[k].id != id,
    decreases list.len() - i,
{
    if i < list.len() {
        if list[i].id == id {
            lemma_cleared(list, id, i + 1, k);
        } else if k > 0 {
            lemma_cleared(list, id, i + 1, k - 1);
        }
    }
}

/// A cleared timer never fires: it is not pending any more.
pub proof fn law_cleared_timers_do_not_fire(list: Seq<Timer>, id: u64)
    ensures
        timer_place(cleared(list, id, 0), id, 0) is None,
{
    let after = cleared(list, id, 0);
    lemma_timer_place(after, id, 0);
    if let Some(k) = timer_place(after, id, 0) {
        lemma_cleared(list, id, 0, k);
    }
}

/// A timeout fires once: it is not pending after it fired. An interval stays
/// pending with its next time.
pub proof fn law_timeouts_fire_once(list: Seq<Timer>, id: u64, next_due: i64)
    requires
        unique_ids(list),
    ensures
        unique_ids(fired(list, id, next_due)),
        timer_place(list, id, 0) matches Some(i) ==> if list[i].repeats {
            timer_place(fired(list, id, next_due), id, 0) matches Some(k) && fired(
                list,
                id,
                next_due,
            )[k] == (Timer { due: next_due, ..list[i] })
        } else {
            timer_place(fired(list, id, next_due), id, 0) is None
        },
{
    let after = fired(list, id, next_due);
    lemma_timer_place(list, id, 0);
    lemma_timer_place(after, id, 0);
    if let Some(i) = timer_place(list, id, 0) {
        let rest = list.remove(i);
        assert forall|j: int| 0 <= j < rest.len() implies (#[trigger] rest[j]).id != id by {
            if j < i {
                assert(rest[j] == list[j]);
            } else {
                assert(rest[j] == list[j + 1]);
            }
        }
        assert forall|a: int, b: int| 0 <= a < b < rest.len() implies (#[trigger] rest[a]).id != (
        #[trigger] rest[b]).id by {
            let x = if a < i {
                a
            } else {
                a + 1
            };
            let y = if b < i {
                b
            } else {
                b + 1
            };
            assert(rest[a] == list[x] && rest[b] == list[y]);
        }
        if list[i].repeats {
            let n = rest.len() as int;
            assert(after[n].id == id);
            let k = timer_place(after, id, 0)->0;
            if k < n {
                assert(after[k] == rest[k]);
            }
        }
    }
}

proof fn lemma_earliest(list: Seq<Timer>, n: int)
    requires
        0 <= n <= list.len(),
    ensures
        earliest(list, n) is None <==> n == 0,
        earliest(list, n) matches Some(due) ==> {
            &&& forall|i: int| 0 <= i < n ==> due <= (#[trigger] list[i]).due
            &&& exists|i: int| 0 <= i < n && (#[trigger] list[i]).due == due
        },
    decreases n,
{
    if n > 0 {
        lemma_earliest(list, n - 1);
        if let Some(due) = earliest(list, n - 1) {
            let k = choose|k: int| 0 <= k < n - 1 && (#[trigger] list[k]).due == due;
            if list[n - 1].due >= due {
                assert(list[k].due == earliest(list, n)->0);
            } else {
                assert(list[n - 1].due == earliest(list, n)->0);
            }
        } else {
            assert(list[n - 1].due == earliest(list, n)->0);
        }
    }
}

/// The next due time is that of a pending timer, and none is due before it.
pub proof fn law_next_due_is_the_earliest(list: Seq<Timer>)
    ensures
        earliest(list, list.len() as int) is None <==> list.len() == 0,
        earliest(list, list.len() as int) matches Some(due) ==> forall|i: int|
            0 <= i < list.len() ==> due <= (#[trigger] list[i]).due,
{
    lemma_earliest(list, list.len() as int);
}

proof fn lemma_due(list: Seq<Timer>, now: i64, n: int, k: int)
    requires
        0 <= n <= list.len(),
        0 <= k < due_among(list, now, n).len(),
    ensures
        exists|i: int|
            0 <= i < n && (#[trigger] list[i]).id == due_among(list, now, n)[k] && list[i].due
                <= now,
    decreases n,
{
    let before = due_among(list, now, n - 1);
    if k < before.len() {
        lemma_due(list, now, n - 1, k);
        let i = choose|i: int|
            0 <= i < n - 1 && (#[trigger] list[i]).id == before[k] && list[i].due <= now;
        assert(list[i].id == due_among(list, now, n)[k]);
    } else {
        assert(list[n - 1].id == due_among(list, now, n)[k]);
    }
}

/// A tick runs no timer early: every timer of the snapshot is pending and
/// due.
pub proof fn law_ticks_run_what_is_due(list: Seq<Timer>, now: i64, k: int)
    requires
        0 <= k < due_among(list, now, list.len() as int).len(),
    ensures
        exists|i: int|
            0 <= i < list.len() && (#[trigger] list[i]).id == due_among(
                list,
                now,
                list.len() as int,
            )[k] && list[i].due <= now,
{
    lemma_due(list, now, list.len() as int, k);
}

/// An interval that fires goes behind the other timers with its next time, as
/// it was otherwise; a timeout is gone; the others stay in their order.
pub proof fn law_intervals_go_behind(list: Seq<Timer>, k: int, next_due: i64)
    requires
        0 <= k < list.len(),
        forall|j: int| 0 <= j < k ==> (#[trigger] list[j]).id != list[k].id,
    ensures
        ({
            let after = fired(list, list[k].id, next_due);
            &&& !list[k].repeats ==> after.len() == list.len() - 1
            &&& list[k].repeats ==> after.len() == list.len() && after.last().due == next_due
                && after.last().id == list[k].id && after.last().repeats
            &&& forall|j: int| 0 <= j < k ==> after[j] == list[j]
            &&& forall|j: int| k < j < list.len() ==> after[j - 1] == list[j]
        }),
{
    lemma_first_place(list, list[k].id, 0, k);
    let after = fired(list, list[k].id, next_due);
    assert(after == if list[k].repeats {
        list.remove(k).push(Timer { due: next_due, ..list[k] })
    } else {
        list.remove(k)
    });
}

proof fn lemma_first_place(list: Seq<Timer>, id: u64, i: int, k: int)
    requires
        0 <= i <= k < list.len(),
        list[k].id == id,
        forall|j: int| i <= j < k ==> (#[trigger] list[j]).id != id,
    ensures
        timer_place(list, id, i) == Some(k),
    decreases k - i,
{
    if i < k {
        assert(list[i].id != id);
        lemma_first_place(list, id, i + 1, k);
    }
}

/// Due are the timers whose time has come, the present moment included, in
/// their order.
pub proof fn law_timers_come_due(list: Seq<Timer>, now: i64, n: int)
    requires
        0 < n <= list.len(),
    ensures
        list[n - 1].due <= now ==> due_among(list, now, n) == due_among(list, now, n - 1).push(
            list[n - 1].id,
        ),
        list[n - 1].due > now ==> due_among(list, now, n) == due_among(list, now, n - 1),
        due_among(list, now, 0).len() == 0,
{
}

} // verus!
