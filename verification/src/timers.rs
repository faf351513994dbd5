//! Tick-driven timer scheduler.
//!
//! Timers are registered through [`create`], which queues the new
//! entry on the [`ScheduleState`]; the queue is merged into the
//! [`TimerManager`] at the start of the next [`TimerManager::process_timers`]
//! call, so a callback that registers a timer while a tick is being
//! processed never mutates the entry list that is being scanned.
//!
//! `process_timers` only decides which timers fire and how their
//! entries advance; the callback values themselves are opaque to the
//! scheduler and are handed out one at a time through
//! [`TimerManager::take_callback`] and returned through
//! [`TimerManager::restore_callback`], so that no borrow of the
//! scheduler is held while a callback runs.

use vstd::prelude::*;

verus! {

/// Identifier of a scheduled timer, unique over the life of a schedule state.
pub type TimerId = u64;

/// Largest interval, in milliseconds, a timer may be scheduled with.
pub const MAX_TIMER_INTERVAL_MS: u64 = 0x100_0000_0000;

/// Largest clock value, in milliseconds, the scheduler accepts; keeps
/// every fire-time computation inside `u64`.
pub const MAX_SCHEDULE_NOW: u64 = u64::MAX - 0x200_0000_0000;

/// Where a timer entry stands in its life cycle.
#[derive(Clone, Copy, PartialEq, Eq, Structural, Debug)]
pub enum TimerStatus {
    /// Scheduled; fires whenever a tick reaches its fire time.
    Active,
    /// A one-shot timer that has fired this tick; its entry is kept
    /// only until its callback is restored, then dropped.
    Retiring,
    /// Cancelled; never fires again, swept at the next tick.
    Cancelled,
}

/// One scheduled timer.
pub struct TimerEntry<C> {
    pub id: TimerId,
    pub interval_ms: u64,
    pub once: bool,
    pub next_fire: u64,
    pub status: TimerStatus,
    pub callback: Option<C>,
}

/// The scheduler's notion of "now" (monotonic, advanced once per
/// tick), the id counter, and the entries registered since the last
/// tick started.
pub struct ScheduleState<C> {
    pub now: u64,
    pub next_timer_id: TimerId,
    pub pending: Vec<TimerEntry<C>>,
}

/// The set of scheduled timers that ticks are processed against.
pub struct TimerManager<C> {
    pub entries: Vec<TimerEntry<C>>,
}

/// Timer ids are pairwise distinct.
pub open spec fn ids_distinct<C>(s: Seq<TimerEntry<C>>) -> bool {
    forall|i: int, j: int| 0 <= i < j < s.len() ==> s[i].id != s[j].id
}

/// Timer ids appear in strictly increasing (registration) order.
pub open spec fn ids_increasing<C>(s: Seq<TimerEntry<C>>) -> bool {
    forall|i: int, j: int| 0 <= i < j < s.len() ==> s[i].id < s[j].id
}

/// Every entry respects the scheduler's bounds: ids below the
/// counter, intervals bounded, and a repeating timer never has a zero
/// interval (a zero interval is turned into a one-shot at creation).
pub open spec fn entries_bounded<C>(s: Seq<TimerEntry<C>>, next_id: TimerId) -> bool {
    forall|i: int| 0 <= i < s.len() ==> {
        &&& (#[trigger] s[i]).id < next_id
        &&& s[i].interval_ms <= MAX_TIMER_INTERVAL_MS
        &&& (s[i].once || s[i].interval_ms >= 1)
    }
}

/// Joint well-formedness of a manager and the schedule state it is
/// driven by.
pub open spec fn timers_wf<C>(m: TimerManager<C>, st: ScheduleState<C>) -> bool {
    &&& st.now <= MAX_SCHEDULE_NOW
    &&& ids_increasing(m.entries@ + st.pending@)
    &&& entries_bounded(m.entries@ + st.pending@, st.next_timer_id)
}

impl<C> ScheduleState<C> {
    /// Fresh schedule state: clock at zero, no pending registrations.
    pub fn new() -> (r: ScheduleState<C>)
        ensures
            r.now == 0,
            r.next_timer_id == 0,
            r.pending@.len() == 0,
    {
        ScheduleState { now: 0, next_timer_id: 0, pending: Vec::new() }
    }
}

impl<C> TimerManager<C> {
    /// Fresh manager with no scheduled timers.
    pub fn new() -> (r: TimerManager<C>)
        ensures
            r.entries@.len() == 0,
    {
        TimerManager { entries: Vec::new() }
    }
}

/// Registers a timer: it first fires at `now + millis` and, unless it
/// is one-shot, repeats every `millis` thereafter. A zero interval
/// means "fire on the next tick only" and is recorded as one-shot.
/// The new entry is queued on the schedule state and joins the
/// manager when the next tick is processed.
pub fn create<C>(state: &mut ScheduleState<C>, callback: C, millis: u64, once: bool) -> (id:
    TimerId)
    requires
        millis <= MAX_TIMER_INTERVAL_MS,
        old(state).next_timer_id < u64::MAX,
        old(state).now <= MAX_SCHEDULE_NOW,
    ensures
        id == old(state).next_timer_id,
        final(state).now == old(state).now,
        final(state).next_timer_id == old(state).next_timer_id + 1,
        final(state).pending@ == old(state).pending@.push(
            (TimerEntry {
                id,
                interval_ms: millis,
                once: once || millis == 0,
                next_fire: (old(state).now + millis) as u64,
                status: TimerStatus::Active,
                callback: Some(callback),
            }),
        ),
{
    let id = state.next_timer_id;
    state.next_timer_id = id + 1;
    let entry = TimerEntry {
        id,
        interval_ms: millis,
        once: once || millis == 0,
        next_fire: state.now + millis,
        status: TimerStatus::Active,
        callback: Some(callback),
    };
    state.pending.push(entry);
    id
}

/// Fire time reached after repeatedly adding `interval` until the
/// result lies strictly after `now`; the identity if it already does.
pub open spec fn spec_catch_up(next_fire: int, interval: int, now: int) -> int
    decreases (if next_fire <= now { now + 1 - next_fire } else { 0 }),
{
    if next_fire > now || interval < 1 {
        next_fire
    } else {
        spec_catch_up(next_fire + interval, interval, now)
    }
}

/// Catch-up lands strictly after `now`, and no further than one
/// interval past it.
pub proof fn lemma_catch_up_bounds(next_fire: int, interval: int, now: int)
    requires
        interval >= 1,
    ensures
        spec_catch_up(next_fire, interval, now) > now || spec_catch_up(next_fire, interval, now)
            == next_fire,
        next_fire <= now ==> spec_catch_up(next_fire, interval, now) <= now + interval,
        next_fire <= now ==> spec_catch_up(next_fire, interval, now) > now,
    decreases (if next_fire <= now { now + 1 - next_fire } else { 0 }),
{
    if next_fire <= now {
        lemma_catch_up_bounds(next_fire + interval, interval, now);
    }
}

/// Whether an entry fires at a tick whose clock reads `now`.
pub open spec fn fires<C>(e: TimerEntry<C>, now: u64) -> bool {
    e.status == TimerStatus::Active && e.next_fire <= now
}

/// How a firing entry advances: a one-shot retires, a repeating timer
/// is rescheduled strictly past `now`.
pub open spec fn step_fired<C>(e: TimerEntry<C>, now: u64) -> TimerEntry<C> {
    if e.once {
        TimerEntry { status: TimerStatus::Retiring, ..e }
    } else {
        TimerEntry {
            next_fire: spec_catch_up(e.next_fire as int, e.interval_ms as int, now as int) as u64,
            ..e
        }
    }
}

/// The entries that survive one tick at `now`, in order: cancelled
/// entries and retired leftovers are swept, due entries advance, the
/// rest are kept unchanged.
pub open spec fn spec_process<C>(s: Seq<TimerEntry<C>>, now: u64) -> Seq<TimerEntry<C>>
    decreases s.len(),
{
    if s.len() == 0 {
        s
    } else {
        let rest = spec_process(s.drop_last(), now);
        let e = s.last();
        if e.status != TimerStatus::Active {
            rest
        } else if e.next_fire <= now {
            rest.push(step_fired(e, now))
        } else {
            rest.push(e)
        }
    }
}

/// The ids of the entries that fire at `now`, in registration order.
pub open spec fn spec_fired<C>(s: Seq<TimerEntry<C>>, now: u64) -> Seq<TimerId>
    decreases s.len(),
{
    if s.len() == 0 {
        Seq::empty()
    } else {
        let rest = spec_fired(s.drop_last(), now);
        if fires(s.last(), now) {
            rest.push(s.last().id)
        } else {
            rest
        }
    }
}

/// Relates processing a prefix one entry longer to processing the
/// prefix: the single-entry unfolding the processing loop maintains.
pub proof fn lemma_process_step<C>(s: Seq<TimerEntry<C>>, i: int, now: u64)
    requires
        0 <= i < s.len(),
    ensures
        spec_process(s.subrange(0, i + 1), now) == (if s[i].status != TimerStatus::Active {
            spec_process(s.subrange(0, i), now)
        } else if s[i].next_fire <= now {
            spec_process(s.subrange(0, i), now).push(step_fired(s[i], now))
        } else {
            spec_process(s.subrange(0, i), now).push(s[i])
        }),
        spec_fired(s.subrange(0, i + 1), now) == (if fires(s[i], now) {
            spec_fired(s.subrange(0, i), now).push(s[i].id)
        } else {
            spec_fired(s.subrange(0, i), now)
        }),
{
    assert(s.subrange(0, i + 1).drop_last() =~= s.subrange(0, i));
    assert(s.subrange(0, i + 1).last() == s[i]);
}

/// Advances one due entry as `step_fired` describes: retires a
/// one-shot, reschedules a repeating timer strictly past `now`.
fn advance_due_entry<C>(entry: TimerEntry<C>, tick_now: u64) -> (r: TimerEntry<C>)
    requires
        entry.status == TimerStatus::Active,
        entry.next_fire <= tick_now,
        entry.once || 1 <= entry.interval_ms,
        entry.interval_ms <= MAX_TIMER_INTERVAL_MS,
        tick_now <= MAX_SCHEDULE_NOW,
    ensures
        r == step_fired(entry, tick_now),
{
    let mut e = entry;
    if e.once {
        e.status = TimerStatus::Retiring;
        e
    } else {
        let interval = e.interval_ms;
        let ghost nf0 = e.next_fire as int;
        let mut nf = e.next_fire;
        while nf <= tick_now
            invariant
                1 <= interval <= MAX_TIMER_INTERVAL_MS,
                tick_now <= MAX_SCHEDULE_NOW,
                nf <= tick_now + interval,
                spec_catch_up(nf as int, interval as int, tick_now as int) == spec_catch_up(
                    nf0,
                    interval as int,
                    tick_now as int,
                ),
            decreases (if nf <= tick_now { tick_now + 1 - nf } else { 0 }),
        {
            nf = nf + interval;
        }
        e.next_fire = nf;
        e
    }
}

impl<C> TimerManager<C> {
    /// Processes one tick: merges the registrations queued since the
    /// last tick, advances the clock monotonically, sweeps cancelled
    /// and retired entries, fires every due entry once, and returns
    /// the fired ids in registration order. The callbacks themselves
    /// are not touched; the caller runs them one at a time through
    /// `take_callback` / `restore_callback`.
    pub fn process_timers(&mut self, state: &mut ScheduleState<C>, now: u64) -> (fired: Vec<
        TimerId,
    >)
        requires
            now <= MAX_SCHEDULE_NOW,
            timers_wf(*old(self), *old(state)),
        ensures
            final(state).now == if now >= old(state).now {
                now
            } else {
                old(state).now
            },
            final(state).next_timer_id == old(state).next_timer_id,
            final(state).pending@.len() == 0,
            final(self).entries@ == spec_process(
                old(self).entries@ + old(state).pending@,
                final(state).now,
            ),
            fired@ == spec_fired(old(self).entries@ + old(state).pending@, final(state).now),
            timers_wf(*final(self), *final(state)),
    {
        let ghost merged = old(self).entries@ + old(state).pending@;
        let mut pend: Vec<TimerEntry<C>> = Vec::new();
        core::mem::swap(&mut pend, &mut state.pending);
        self.entries.append(&mut pend);
        if now > state.now {
            state.now = now;
        }
        let tick_now = state.now;
        assert(self.entries@ == merged);

        let mut work: Vec<TimerEntry<C>> = Vec::new();
        core::mem::swap(&mut work, &mut self.entries);
        let mut fired: Vec<TimerId> = Vec::new();
        let total = work.len();
        let mut i: usize = 0;
        while i < total
            invariant
                merged.len() == total,
                i <= total,
                work@ == merged.subrange(i as int, total as int),
                self.entries@ == spec_process(merged.subrange(0, i as int), tick_now),
                fired@ == spec_fired(merged.subrange(0, i as int), tick_now),
                tick_now <= MAX_SCHEDULE_NOW,
                entries_bounded(merged, old(state).next_timer_id),
            decreases total - i,
        {
            let e = work.remove(0);
            proof {
                assert(e == merged[i as int]);
                lemma_process_step(merged, i as int, tick_now);
            }
            match e.status {
                TimerStatus::Cancelled => {},
                TimerStatus::Retiring => {},
                TimerStatus::Active => {
                    if e.next_fire <= tick_now {
                        fired.push(e.id);
                        let advanced = advance_due_entry(e, tick_now);
                        self.entries.push(advanced);
                    } else {
                        self.entries.push(e);
                    }
                },
            }
            i = i + 1;
            proof {
                assert(work@ =~= merged.subrange(i as int, total as int));
            }
        }
        proof {
            assert(merged.subrange(0, total as int) =~= merged);
            lemma_spec_process_wf(merged, tick_now, old(state).next_timer_id);
            assert(self.entries@ + state.pending@ =~= self.entries@);
        }
        fired
    }
}

/// Marks the timer with the given id for removal, wherever it is
/// recorded: in the processed entries or still queued on the schedule
/// state. A cancelled timer never fires again; its entry is swept at
/// the next tick (or, if it is cancelled while its own callback runs,
/// when that callback is returned).
pub fn cancel<C>(manager: &mut TimerManager<C>, state: &mut ScheduleState<C>, id: TimerId)
    ensures
        final(manager).entries@.len() == old(manager).entries@.len(),
        forall|k: int|
            0 <= k < old(manager).entries@.len() ==> final(manager).entries@[k] == (if old(
                manager,
            ).entries@[k].id == id {
                (TimerEntry { status: TimerStatus::Cancelled, ..old(manager).entries@[k] })
            } else {
                old(manager).entries@[k]
            }),
        final(state).now == old(state).now,
        final(state).next_timer_id == old(state).next_timer_id,
        final(state).pending@.len() == old(state).pending@.len(),
        forall|k: int|
            0 <= k < old(state).pending@.len() ==> final(state).pending@[k] == (if old(
                state,
            ).pending@[k].id == id {
                (TimerEntry { status: TimerStatus::Cancelled, ..old(state).pending@[k] })
            } else {
                old(state).pending@[k]
            }),
        timers_wf(*old(manager), *old(state)) ==> timers_wf(*final(manager), *final(state)),
{
    cancel_in_vec(&mut manager.entries, id);
    cancel_in_vec(&mut state.pending, id);
    proof {
        let oldall = old(manager).entries@ + old(state).pending@;
        let newall = manager.entries@ + state.pending@;
        assert(forall|k: int|
            0 <= k < newall.len() ==> (#[trigger] newall[k]).id == oldall[k].id
                && newall[k].interval_ms == oldall[k].interval_ms && newall[k].once
                == oldall[k].once);
    }
}

/// Marks every entry carrying the given id as cancelled, leaving all
/// other fields and every other entry unchanged.
fn cancel_in_vec<C>(entries: &mut Vec<TimerEntry<C>>, id: TimerId)
    ensures
        final(entries)@.len() == old(entries)@.len(),
        forall|k: int|
            0 <= k < old(entries)@.len() ==> final(entries)@[k] == (if old(entries)@[k].id == id {
                (TimerEntry { status: TimerStatus::Cancelled, ..old(entries)@[k] })
            } else {
                old(entries)@[k]
            }),
{
    let n = entries.len();
    let mut i: usize = 0;
    while i < n
        invariant
            n == entries@.len() == old(entries)@.len(),
            i <= n,
            forall|k: int|
                i <= k < n ==> entries@[k] == old(entries)@[k],
            forall|k: int|
                0 <= k < i ==> entries@[k] == (if old(entries)@[k].id == id {
                    (TimerEntry { status: TimerStatus::Cancelled, ..old(entries)@[k] })
                } else {
                    old(entries)@[k]
                }),
        decreases n - i,
    {
        if entries[i].id == id {
            entries[i].status = TimerStatus::Cancelled;
        }
        i = i + 1;
    }
}

impl<C> TimerManager<C> {
    /// Hands out the callback of the timer with the given id, leaving
    /// the entry in place with an empty callback slot, so that the
    /// caller can run the callback without holding any borrow of the
    /// scheduler. Returns nothing if the id is unknown or its
    /// callback is already handed out.
    pub fn take_callback(&mut self, id: TimerId) -> (r: Option<C>)
        requires
            ids_distinct(old(self).entries@),
        ensures
            ({
                let s = old(self).entries@;
                if exists|j: int| 0 <= j < s.len() && (#[trigger] s[j]).id == id {
                    let j = choose|j: int| 0 <= j < s.len() && (#[trigger] s[j]).id == id;
                    &&& r == s[j].callback
                    &&& final(self).entries@ == s.update(j, (TimerEntry { callback: None, ..s[j] }))
                } else {
                    &&& r is None
                    &&& final(self).entries@ == s
                }
            }),
            ids_distinct(final(self).entries@),
            ids_increasing(old(self).entries@) ==> ids_increasing(final(self).entries@),
            forall|nid: TimerId|
                entries_bounded(old(self).entries@, nid) ==> entries_bounded(
                    final(self).entries@,
                    nid,
                ),
    {
        let ghost s = old(self).entries@;
        let n = self.entries.len();
        let mut i: usize = 0;
        while i < n
            invariant
                n == self.entries@.len(),
                i <= n,
                s == old(self).entries@,
                self.entries@ == s,
                ids_distinct(s),
                forall|k: int| 0 <= k < i ==> (#[trigger] s[k]).id != id,
            decreases n - i,
        {
            if self.entries[i].id == id {
                let mut taken: Option<C> = None;
                core::mem::swap(&mut self.entries[i].callback, &mut taken);
                proof {
                    assert(s[i as int].id == id);
                    let j = choose|j: int| 0 <= j < s.len() && (#[trigger] s[j]).id == id;
                    assert(j == i as int);
                    assert(self.entries@ =~= s.update(
                        i as int,
                        (TimerEntry { callback: None, ..s[i as int] }),
                    ));
                    assert(forall|k: int|
                        0 <= k < s.len() ==> (#[trigger] self.entries@[k]).id == s[k].id
                            && self.entries@[k].interval_ms == s[k].interval_ms
                            && self.entries@[k].once == s[k].once);
                }
                return taken;
            }
            i = i + 1;
        }
        proof {
            assert(forall|j: int| 0 <= j < s.len() ==> (#[trigger] s[j]).id != id);
        }
        None
    }

    /// Returns a callback taken with `take_callback`. If the entry is
    /// still active the callback is stored back; if the timer retired
    /// or was cancelled while the callback ran, the entry is removed
    /// now, so a cancellation from within the callback takes effect
    /// only after the call completes. If the id is unknown the
    /// callback is dropped.
    pub fn restore_callback(&mut self, id: TimerId, callback: C)
        requires
            ids_distinct(old(self).entries@),
        ensures
            ({
                let s = old(self).entries@;
                if exists|j: int| 0 <= j < s.len() && (#[trigger] s[j]).id == id {
                    let j = choose|j: int| 0 <= j < s.len() && (#[trigger] s[j]).id == id;
                    if s[j].status == TimerStatus::Active {
                        final(self).entries@ == s.update(
                            j,
                            (TimerEntry { callback: Some(callback), ..s[j] }),
                        )
                    } else {
                        final(self).entries@ == s.remove(j)
                    }
                } else {
                    final(self).entries@ == s
                }
            }),
            ids_distinct(final(self).entries@),
            ids_increasing(old(self).entries@) ==> ids_increasing(final(self).entries@),
            forall|nid: TimerId|
                entries_bounded(old(self).entries@, nid) ==> entries_bounded(
                    final(self).entries@,
                    nid,
                ),
    {
        let ghost s = old(self).entries@;
        let n = self.entries.len();
        let mut i: usize = 0;
        while i < n
            invariant
                n == self.entries@.len(),
                i <= n,
                s == old(self).entries@,
                self.entries@ == s,
                ids_distinct(s),
                forall|k: int| 0 <= k < i ==> (#[trigger] s[k]).id != id,
            decreases n - i,
        {
            if self.entries[i].id == id {
                proof {
                    assert(s[i as int].id == id);
                    let j = choose|j: int| 0 <= j < s.len() && (#[trigger] s[j]).id == id;
                    assert(j == i as int);
                }
                let active = match self.entries[i].status {
                    TimerStatus::Active => true,
                    _ => false,
                };
                if active {
                    self.entries[i].callback = Some(callback);
                    proof {
                        assert(self.entries@ =~= s.update(
                            i as int,
                            (TimerEntry { callback: Some(callback), ..s[i as int] }),
                        ));
                        assert(forall|k: int|
                            0 <= k < s.len() ==> (#[trigger] self.entries@[k]).id == s[k].id
                                && self.entries@[k].interval_ms == s[k].interval_ms
                                && self.entries@[k].once == s[k].once);
                    }
                } else {
                    self.entries.remove(i);
                    proof {
                        s.remove_ensures(i as int);
                        assert(forall|k: int|
                            0 <= k < i ==> (#[trigger] self.entries@[k]) == s[k]);
                        assert(forall|k: int|
                            i <= k < self.entries@.len() ==> (#[trigger] self.entries@[k]) == s[k
                                + 1]);
                    }
                }
                return ;
            }
            i = i + 1;
        }
        proof {
            assert(forall|j: int| 0 <= j < s.len() ==> (#[trigger] s[j]).id != id);
        }
    }
}

/// Processing never introduces a timer id: every id bound on the
/// input holds of the processed sequence.
pub proof fn lemma_spec_process_ids_below<C>(s: Seq<TimerEntry<C>>, now: u64, bound: int)
    requires
        forall|i: int| 0 <= i < s.len() ==> (#[trigger] s[i]).id < bound,
    ensures
        forall|a: int|
            0 <= a < spec_process(s, now).len() ==> (#[trigger] spec_process(s, now)[a]).id
                < bound,
    decreases s.len(),
{
    if s.len() > 0 {
        assert(forall|i: int|
            0 <= i < s.drop_last().len() ==> (#[trigger] s.drop_last()[i]).id < bound);
        lemma_spec_process_ids_below(s.drop_last(), now, bound);
    }
}

/// Processing one tick preserves the scheduler's structural
/// invariants: ids stay strictly increasing and every id and interval
/// bound carries over.
pub proof fn lemma_spec_process_wf<C>(s: Seq<TimerEntry<C>>, now: u64, next_id: TimerId)
    requires
        ids_increasing(s),
        entries_bounded(s, next_id),
    ensures
        ids_increasing(spec_process(s, now)),
        entries_bounded(spec_process(s, now), next_id),
    decreases s.len(),
{
    if s.len() > 0 {
        let last = s.last();
        let rest = spec_process(s.drop_last(), now);
        let p = spec_process(s, now);
        assert(forall|i: int| 0 <= i < s.drop_last().len() ==> s.drop_last()[i] == s[i]);
        lemma_spec_process_wf(s.drop_last(), now, next_id);
        if last.status == TimerStatus::Active {
            lemma_spec_process_ids_below(s.drop_last(), now, last.id as int);
            assert(p.last().id == last.id);
            assert(forall|i: int, j: int| 0 <= i < j < p.len() ==> p[i].id < p[j].id) by {
                assert(forall|i: int| 0 <= i < rest.len() ==> (#[trigger] rest[i]).id < last.id);
            }
        }
    }
}


/// How many times an id occurs in a fired-id sequence.
pub open spec fn count_id(s: Seq<TimerId>, id: TimerId) -> nat
    decreases s.len(),
{
    if s.len() == 0 {
        0nat
    } else {
        count_id(s.drop_last(), id) + (if s.last() == id {
            1nat
        } else {
            0nat
        })
    }
}

/// Counting after appending one id.
pub proof fn lemma_count_id_push(s: Seq<TimerId>, x: TimerId, id: TimerId)
    ensures
        count_id(s.push(x), id) == count_id(s, id) + (if x == id {
            1nat
        } else {
            0nat
        }),
{
    assert(s.push(x).drop_last() =~= s);
    assert(s.push(x).last() == x);
}

/// An id that no entry of the input carries never appears among the
/// fired ids.
pub proof fn lemma_fired_count_absent<C>(s: Seq<TimerEntry<C>>, now: u64, id: TimerId)
    requires
        forall|k: int| 0 <= k < s.len() ==> (#[trigger] s[k]).id != id,
    ensures
        count_id(spec_fired(s, now), id) == 0,
    decreases s.len(),
{
    if s.len() > 0 {
        assert(forall|k: int|
            0 <= k < s.drop_last().len() ==> (#[trigger] s.drop_last()[k]).id != id);
        lemma_fired_count_absent(s.drop_last(), now, id);
        if fires(s.last(), now) {
            lemma_count_id_push(spec_fired(s.drop_last(), now), s.last().id, id);
        }
    }
}

/// An id whose entries never fire at `now` does not appear among the
/// fired ids.
pub proof fn lemma_fired_count_none<C>(s: Seq<TimerEntry<C>>, now: u64, id: TimerId)
    requires
        forall|k: int| 0 <= k < s.len() && (#[trigger] s[k]).id == id ==> !fires(s[k], now),
    ensures
        count_id(spec_fired(s, now), id) == 0,
    decreases s.len(),
{
    if s.len() > 0 {
        assert(forall|k: int|
            0 <= k < s.drop_last().len() && (#[trigger] s.drop_last()[k]).id == id ==> !fires(
                s.drop_last()[k],
                now,
            ));
        lemma_fired_count_none(s.drop_last(), now, id);
        if fires(s.last(), now) {
            lemma_count_id_push(spec_fired(s.drop_last(), now), s.last().id, id);
        }
    }
}

/// With distinct ids, an entry's id appears among the fired ids
/// exactly once if the entry fires at `now`, and not at all if it
/// does not.
pub proof fn lemma_fired_count<C>(s: Seq<TimerEntry<C>>, i: int, now: u64)
    requires
        ids_distinct(s),
        0 <= i < s.len(),
    ensures
        count_id(spec_fired(s, now), s[i].id) == (if fires(s[i], now) {
            1nat
        } else {
            0nat
        }),
    decreases s.len(),
{
    if i == s.len() - 1 {
        assert(forall|k: int|
            0 <= k < s.drop_last().len() ==> (#[trigger] s.drop_last()[k]).id != s[i].id);
        lemma_fired_count_absent(s.drop_last(), now, s[i].id);
    } else {
        assert(ids_distinct(s.drop_last()));
        lemma_fired_count(s.drop_last(), i, now);
        assert(s.drop_last()[i] == s[i]);
        assert(s.last().id != s[i].id);
    }
    if fires(s.last(), now) {
        lemma_count_id_push(spec_fired(s.drop_last(), now), s.last().id, s[i].id);
    }
}

/// What a surviving entry of a processed tick descends from.
pub open spec fn processed_from<C>(orig: TimerEntry<C>, now: u64, e: TimerEntry<C>) -> bool {
    &&& orig.status == TimerStatus::Active
    &&& (if orig.next_fire <= now {
        e == step_fired(orig, now)
    } else {
        e == orig
    })
}

/// Every entry surviving a tick descends from an active entry of the
/// input: unchanged if it was not due, advanced by `step_fired` if it
/// was.
pub proof fn lemma_spec_process_origin<C>(s: Seq<TimerEntry<C>>, now: u64)
    ensures
        forall|a: int|
            0 <= a < spec_process(s, now).len() ==> exists|b: int|
                0 <= b < s.len() && processed_from(s[b], now, #[trigger] spec_process(s, now)[a]),
    decreases s.len(),
{
    if s.len() > 0 {
        lemma_spec_process_origin(s.drop_last(), now);
        let p = spec_process(s, now);
        let rest = spec_process(s.drop_last(), now);
        assert forall|a: int| 0 <= a < p.len() implies exists|b: int|
            0 <= b < s.len() && processed_from(s[b], now, #[trigger] p[a]) by {
            if a < rest.len() {
                assert(p[a] == rest[a]);
                let b = choose|b: int|
                    0 <= b < s.drop_last().len() && processed_from(s.drop_last()[b], now, rest[a]);
                assert(s[b] == s.drop_last()[b]);
                assert(processed_from(s[b], now, p[a]));
            } else {
                let b = s.len() - 1;
                assert(processed_from(s[b], now, p[a]));
            }
        }
    }
}

/// Every active entry of the input leaves a descendant with its id in
/// the processed sequence.
pub proof fn lemma_spec_process_keeps<C>(s: Seq<TimerEntry<C>>, now: u64, i: int)
    requires
        0 <= i < s.len(),
        s[i].status == TimerStatus::Active,
    ensures
        exists|k: int|
            0 <= k < spec_process(s, now).len() && (#[trigger] spec_process(s, now)[k]).id
                == s[i].id,
    decreases s.len(),
{
    let p = spec_process(s, now);
    let rest = spec_process(s.drop_last(), now);
    if i == s.len() - 1 {
        assert(p[p.len() - 1].id == s[i].id);
    } else {
        assert(s.drop_last()[i] == s[i]);
        lemma_spec_process_keeps(s.drop_last(), now, i);
        let k = choose|k: int| 0 <= k < rest.len() && (#[trigger] rest[k]).id == s[i].id;
        assert(p[k].id == s[i].id);
    }
}

/// A one-shot timer fires zero times at a tick before its fire time,
/// exactly once at a tick that reaches it, and never again at any
/// later tick.
pub proof fn lemma_once_timer_fires_exactly_once<C>(
    s: Seq<TimerEntry<C>>,
    i: int,
    now1: u64,
    now2: u64,
)
    requires
        ids_distinct(s),
        0 <= i < s.len(),
        s[i].once,
        s[i].status == TimerStatus::Active,
    ensures
        s[i].next_fire > now1 ==> count_id(spec_fired(s, now1), s[i].id) == 0,
        s[i].next_fire <= now1 ==> count_id(spec_fired(s, now1), s[i].id) == 1,
        s[i].next_fire <= now1 ==> count_id(spec_fired(spec_process(s, now1), now2), s[i].id)
            == 0,
{
    lemma_fired_count(s, i, now1);
    if s[i].next_fire <= now1 {
        let p = spec_process(s, now1);
        lemma_spec_process_origin(s, now1);
        assert forall|k: int|
            0 <= k < p.len() && (#[trigger] p[k]).id == s[i].id implies !fires(p[k], now2) by {
            let b = choose|b: int| 0 <= b < s.len() && processed_from(s[b], now1, p[k]);
            assert(p[k].id == s[b].id);
            assert(b == i);
            assert(p[k] == step_fired(s[i], now1));
            assert(p[k].status == TimerStatus::Retiring);
        }
        lemma_fired_count_none(p, now2, s[i].id);
    }
}

/// A repeating timer that is overdue -- however long the stall --
/// fires exactly once at the tick that catches it up, and its next
/// fire time lands strictly after that tick's clock.
pub proof fn lemma_repeating_timer_catch_up<C>(s: Seq<TimerEntry<C>>, i: int, now: u64)
    requires
        ids_distinct(s),
        0 <= i < s.len(),
        !s[i].once,
        1 <= s[i].interval_ms <= MAX_TIMER_INTERVAL_MS,
        now <= MAX_SCHEDULE_NOW,
        s[i].status == TimerStatus::Active,
        s[i].next_fire <= now,
    ensures
        count_id(spec_fired(s, now), s[i].id) == 1,
        forall|k: int|
            0 <= k < spec_process(s, now).len() && (#[trigger] spec_process(s, now)[k]).id
                == s[i].id ==> spec_process(s, now)[k].next_fire > now,
        exists|k: int|
            0 <= k < spec_process(s, now).len() && (#[trigger] spec_process(s, now)[k]).id
                == s[i].id,
{
    lemma_fired_count(s, i, now);
    lemma_spec_process_keeps(s, now, i);
    let p = spec_process(s, now);
    lemma_spec_process_origin(s, now);
    lemma_catch_up_bounds(s[i].next_fire as int, s[i].interval_ms as int, now as int);
    assert forall|k: int|
        0 <= k < p.len() && (#[trigger] p[k]).id == s[i].id implies p[k].next_fire > now by {
        let b = choose|b: int| 0 <= b < s.len() && processed_from(s[b], now, p[k]);
        assert(p[k].id == s[b].id);
        assert(b == i);
        assert(p[k] == step_fired(s[i], now));
    }
}

} // verus!

