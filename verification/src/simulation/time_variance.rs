//! Forward-only random variance on scheduled event times, and separation of
//! events that would share a timestamp.

use vstd::prelude::*;
use crate::events::access_event::AccessEvent;
use crate::types::UserId;
use crate::time::{MILLIS_PER_DAY, TimeDelta, Timestamp, gen_range_inclusive, new_thread_rng};

verus! {

/// Length of the variance window: events move forward by up to 5 minutes.
pub const DEFAULT_VARIANCE_WINDOW_MILLIS: i64 = 300_000;

/// Largest gap, in milliseconds, put between two events that would share a timestamp.
pub const MAX_TIMESTAMP_GAP_MS: i64 = 500;

/// Applies forward-only random variance, within `DEFAULT_VARIANCE_WINDOW_MILLIS`,
/// to scheduled times.
#[derive(Debug)]
pub struct TimeVariance {
    rng: rand::rngs::ThreadRng,
}

/// Whether moving `scheduled` forward to `varied` is an outcome of
/// `apply_variance`: `Some` time within the window on the same day, or
/// `None` when the window reaches into the next day.
pub open spec fn variance_outcome(scheduled: Timestamp, varied: Option<Timestamp>) -> bool {
    match varied {
        Some(t) => {
            &&& scheduled.millis <= t.millis <= scheduled.millis + DEFAULT_VARIANCE_WINDOW_MILLIS
            &&& t.spec_day() == scheduled.spec_day()
        },
        None => (scheduled.spec_day() + 1) * MILLIS_PER_DAY <= scheduled.millis + DEFAULT_VARIANCE_WINDOW_MILLIS,
    }
}

/// The events that remain after variance, given each event's outcome:
/// an event moves to its new time, or is dropped.
pub open spec fn varied_events(events: Seq<AccessEvent>, outcomes: Seq<Option<Timestamp>>) -> Seq<AccessEvent>
    decreases events.len(),
{
    if events.len() == 0 {
        Seq::empty()
    } else {
        let rest = varied_events(events.drop_last(), outcomes.take(events.len() - 1));
        match outcomes[events.len() - 1] {
            Some(t) => rest.push(AccessEvent { timestamp: t, ..events.last() }),
            None => rest,
        }
    }
}

/// Whether `after` is `before` with at most its time changed.
pub open spec fn same_but_time(before: AccessEvent, after: AccessEvent) -> bool {
    after == (AccessEvent { timestamp: after.timestamp, ..before })
}

/// Whether an event originally at `before` ends up at `after`, following
/// its predecessor at `previous`: the time stays when it already follows
/// the predecessor, and otherwise lies 1 to 500 ms after it.
pub open spec fn separation_step(previous: Timestamp, before: Timestamp, after: Timestamp) -> bool {
    &&& previous.millis < after.millis
    &&& if before.millis > previous.millis {
        after == before
    } else {
        previous.millis + 1 <= after.millis <= previous.millis + MAX_TIMESTAMP_GAP_MS
    }
}

/// Whether `after` is `before` with timestamps separated: the same events
/// in the same order, the first one unchanged, and every later one placed
/// by `separation_step` after its predecessor, so that times strictly increase.
pub open spec fn separated(before: Seq<AccessEvent>, after: Seq<AccessEvent>) -> bool {
    &&& after.len() == before.len()
    &&& forall|i: int| 0 <= i < after.len() ==> same_but_time(before[i], #[trigger] after[i])
    &&& after.len() > 0 ==> after[0] == before[0]
    &&& forall|i: int| 1 <= i < after.len()
        ==> #[trigger] separation_step(after[i - 1].timestamp, before[i].timestamp, after[i].timestamp)
}

impl TimeVariance {
    /// A variance with the default window and the thread's generator.
    pub fn new() -> (v: Self) {
        TimeVariance { rng: new_thread_rng() }
    }

    /// The length of the variance window, in milliseconds.
    pub fn variance_window_millis(&self) -> (w: i64)
        ensures
            w == DEFAULT_VARIANCE_WINDOW_MILLIS,
    {
        DEFAULT_VARIANCE_WINDOW_MILLIS
    }

    /// Move the scheduled time forward by a random span within the window,
    /// or `None` when the moved time falls on the next day.
    pub fn apply_variance(&mut self, scheduled_time: Timestamp) -> (r: Option<Timestamp>)
        requires
            scheduled_time.millis + DEFAULT_VARIANCE_WINDOW_MILLIS <= i64::MAX,
        ensures
            variance_outcome(scheduled_time, r),
    {
        let offset = gen_range_inclusive(&mut self.rng, 0, DEFAULT_VARIANCE_WINDOW_MILLIS);
        let varied = scheduled_time.plus(TimeDelta::milliseconds(offset));
        if varied.day() != scheduled_time.day() {
            proof {
                let d = scheduled_time.spec_day();
                assert(scheduled_time.millis < (d + 1) * MILLIS_PER_DAY);
                assert(varied.spec_day() > d);
                assert(varied.millis >= (d + 1) * MILLIS_PER_DAY);
            }
            return None;
        }
        Some(varied)
    }

    /// Move every event forward by a random span within the window, and
    /// drop the events whose moved time falls on the next day.
    pub fn apply_variance_to_events(&mut self, events: &mut Vec<AccessEvent>)
        requires
            forall|i: int| 0 <= i < old(events)@.len()
                ==> (#[trigger] old(events)@[i]).timestamp.millis + DEFAULT_VARIANCE_WINDOW_MILLIS <= i64::MAX,
        ensures
            exists|outcomes: Seq<Option<Timestamp>>| {
                &&& outcomes.len() == old(events)@.len()
                &&& forall|i: int| 0 <= i < outcomes.len() ==> variance_outcome(old(events)@[i].timestamp, #[trigger] outcomes[i])
                &&& final(events)@ == varied_events(old(events)@, outcomes)
            },
    {
        let ghost original = events@;
        let ghost mut outcomes: Seq<Option<Timestamp>> = Seq::empty();
        let mut kept: Vec<AccessEvent> = Vec::new();
        let mut i: usize = 0;
        while i < events.len()
            invariant
                events@ == original,
                i <= original.len(),
                outcomes.len() == i,
                forall|j: int| 0 <= j < original.len()
                    ==> (#[trigger] original[j]).timestamp.millis + DEFAULT_VARIANCE_WINDOW_MILLIS <= i64::MAX,
                forall|j: int| 0 <= j < i ==> variance_outcome(original[j].timestamp, #[trigger] outcomes[j]),
                kept@ == varied_events(original.take(i as int), outcomes),
            decreases original.len() - i,
        {
            let event = events[i];
            let outcome = self.apply_variance(event.timestamp);
            proof {
                let next = outcomes.push(outcome);
                assert(original.take(i as int + 1).drop_last() =~= original.take(i as int));
                assert(next.take(i as int) =~= outcomes);
                outcomes = next;
            }
            match outcome {
                Some(t) => {
                    kept.push(AccessEvent { timestamp: t, ..event });
                },
                None => {},
            }
            i = i + 1;
        }
        proof {
            assert(original.take(i as int) =~= original);
        }
        *events = kept;
    }

    /// Separate events that would not follow the previous one in time: such
    /// an event moves 1 to 500 ms after its predecessor, so that times
    /// strictly increase.
    pub fn ensure_unique_timestamps(&mut self, events: &mut [AccessEvent])
        requires
            forall|i: int| 0 <= i < old(events)@.len()
                ==> (#[trigger] old(events)@[i]).timestamp.millis + MAX_TIMESTAMP_GAP_MS * old(events)@.len() <= i64::MAX,
        ensures
            separated(old(events)@, final(events)@),
    {
        let ghost original = events@;
        let n = events.len();
        if n == 0 {
            return;
        }
        let mut i: usize = 1;
        while i < n
            invariant
                n == original.len(),
                events@.len() == n,
                1 <= i <= n,
                forall|j: int| 0 <= j < n
                    ==> (#[trigger] original[j]).timestamp.millis + MAX_TIMESTAMP_GAP_MS * n <= i64::MAX,
                forall|j: int| 0 <= j < n ==> same_but_time(original[j], #[trigger] events@[j]),
                forall|j: int| i <= j < n ==> #[trigger] events@[j] == original[j],
                events@[0] == original[0],
                forall|j: int| 1 <= j < i
                    ==> #[trigger] separation_step(events@[j - 1].timestamp, original[j].timestamp, events@[j].timestamp),
                events@[i - 1].timestamp.millis + MAX_TIMESTAMP_GAP_MS * (n - (i - 1)) <= i64::MAX,
            decreases n - i,
        {
            let previous = events[i - 1].timestamp;
            let current = events[i];
            proof {
                assert(current == original[i as int]);
                assert(original[i as int].timestamp.millis + MAX_TIMESTAMP_GAP_MS * n <= i64::MAX);
            }
            if current.timestamp.millis <= previous.millis {
                let gap = gen_range_inclusive(&mut self.rng, 1, MAX_TIMESTAMP_GAP_MS);
                let moved = previous.plus(TimeDelta::milliseconds(gap));
                events[i] = AccessEvent { timestamp: moved, ..current };
            }
            proof {
                assert(separation_step(events@[i - 1].timestamp, original[i as int].timestamp, events@[i as int].timestamp));
            }
            i = i + 1;
        }
    }
}

impl Default for TimeVariance {
    /// A variance with the default window and the thread's generator.
    fn default() -> (v: Self) {
        TimeVariance::new()
    }
}

/// After separation, times strictly increase over the whole sequence, not
/// only between neighbours.
pub proof fn law_separated_strictly_increasing(before: Seq<AccessEvent>, after: Seq<AccessEvent>, i: int, j: int)
    requires
        separated(before, after),
        0 <= i < j < after.len(),
    ensures
        after[i].timestamp.millis < after[j].timestamp.millis,
    decreases j - i,
{
    assert(separation_step(after[j - 1].timestamp, before[j].timestamp, after[j].timestamp));
    if i < j - 1 {
        law_separated_strictly_increasing(before, after, i, j - 1);
    }
}

/// Variance never adds events, and keeps them all when none is dropped.
pub proof fn law_variance_keeps_or_drops(events: Seq<AccessEvent>, outcomes: Seq<Option<Timestamp>>)
    requires
        outcomes.len() == events.len(),
    ensures
        varied_events(events, outcomes).len() <= events.len(),
        (forall|i: int| 0 <= i < outcomes.len() ==> (#[trigger] outcomes[i]).is_some())
            ==> varied_events(events, outcomes).len() == events.len(),
    decreases events.len(),
{
    if events.len() > 0 {
        let n = events.len() - 1;
        let rest = outcomes.take(n);
        law_variance_keeps_or_drops(events.drop_last(), rest);
        if forall|i: int| 0 <= i < outcomes.len() ==> (#[trigger] outcomes[i]).is_some() {
            assert forall|i: int| 0 <= i < rest.len() implies (#[trigger] rest[i]).is_some() by {
                assert(rest[i] == outcomes[i]);
            }
            assert(outcomes[n].is_some());
        }
    }
}

/// Variance keeps each event's user and moves it at most the window later.
pub proof fn lemma_varied_events_bounds(
    events: Seq<AccessEvent>,
    outcomes: Seq<Option<Timestamp>>,
    user_id: UserId,
    lo: int,
    hi: int,
)
    requires
        outcomes.len() == events.len(),
        forall|i: int| 0 <= i < events.len() ==> variance_outcome(events[i].timestamp, #[trigger] outcomes[i]),
        forall|i: int| 0 <= i < events.len() ==> (#[trigger] events[i]).user_id == user_id
            && lo <= events[i].timestamp.millis <= hi,
    ensures
        varied_events(events, outcomes).len() <= events.len(),
        forall|j: int| 0 <= j < varied_events(events, outcomes).len() ==> (#[trigger] varied_events(events, outcomes)[j]).user_id == user_id
            && lo <= varied_events(events, outcomes)[j].timestamp.millis <= hi + DEFAULT_VARIANCE_WINDOW_MILLIS,
    decreases events.len(),
{
    if events.len() > 0 {
        let n = events.len() - 1;
        let p = events.drop_last();
        let rest = outcomes.take(n);
        assert forall|i: int| 0 <= i < p.len() implies variance_outcome(p[i].timestamp, #[trigger] rest[i]) by {
            assert(p[i] == events[i] && rest[i] == outcomes[i]);
        }
        assert forall|i: int| 0 <= i < p.len() implies (#[trigger] p[i]).user_id == user_id
            && lo <= p[i].timestamp.millis <= hi by {
            assert(p[i] == events[i]);
        }
        lemma_varied_events_bounds(p, rest, user_id, lo, hi);
        assert(variance_outcome(events[n].timestamp, outcomes[n]));
        let r = varied_events(p, rest);
        match outcomes[n] {
            Some(t) => {
                let q = r.push(AccessEvent { timestamp: t, ..events.last() });
                assert forall|j: int| 0 <= j < q.len() implies (#[trigger] q[j]).user_id == user_id
                    && lo <= q[j].timestamp.millis <= hi + DEFAULT_VARIANCE_WINDOW_MILLIS by {
                    if j < r.len() {
                        assert(q[j] == r[j]);
                    }
                }
            },
            None => {},
        }
    }
}

/// Separation moves an event no earlier than it was, and at most half a
/// second per event before it later than the latest of the events.
pub proof fn lemma_separated_bounds(before: Seq<AccessEvent>, after: Seq<AccessEvent>, lo: int, hi: int, i: int)
    requires
        separated(before, after),
        forall|j: int| 0 <= j < before.len() ==> lo <= (#[trigger] before[j]).timestamp.millis <= hi,
        0 <= i < after.len(),
    ensures
        lo <= after[i].timestamp.millis <= hi + MAX_TIMESTAMP_GAP_MS * i,
    decreases i,
{
    if i > 0 {
        lemma_separated_bounds(before, after, lo, hi, i - 1);
        assert(separation_step(after[i - 1].timestamp, before[i].timestamp, after[i].timestamp));
        assert(lo <= before[i].timestamp.millis <= hi);
    } else {
        assert(after[0] == before[0]);
    }
}

} // verus!
