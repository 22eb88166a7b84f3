//! How a day's batch of access events is counted into the statistics:
//! curious attempts, impossible travelers, and each event by its kind.

use vstd::prelude::*;
use crate::events::access_event::AccessEvent;
use crate::events::ordering::{law_sort_by_time_orders_a_permutation, sort_by_time, sort_events_by_timestamp};
use crate::simulation::statistics::ConsolidatedStatistics;
use crate::events::generator::{
    EventGenerator, EventUser, TravelTable, activity_events_error, activity_outcome, flatten_nested, flow_walkable,
    lemma_flatten_nested_push, minimal_event_error,
};
use crate::facility::registry::{LocationRegistry, registry_checkpoints_bounded};
use crate::permissions::permission_set::PermissionSet;
use crate::simulation::behavior_engine::{
    BehaviorEngine, DayDraws, DayShiftUser, daily_schedule_outcome, day_in_range, schedule_within_days,
};
use crate::simulation::error::SimulationError;
use crate::time::{MAX_MILLIS, Timestamp, in_range};
use crate::types::{BuildingId, EventType, FailureReason, LocationId, RoomId};
use crate::schedule::ScheduledActivity;

verus! {

/// Four hours, in milliseconds: less than this between two locations is
/// too little to travel.
pub const IMPOSSIBLE_TRAVEL_WINDOW_MILLIS: i64 = 14_400_000;

/// The time between two events, in milliseconds, whichever comes first.
pub open spec fn time_gap(e1: AccessEvent, e2: AccessEvent) -> int {
    if e2.timestamp.millis > e1.timestamp.millis {
        e2.timestamp.millis - e1.timestamp.millis
    } else {
        e1.timestamp.millis - e2.timestamp.millis
    }
}

/// Whether two events make an impossible traveler: the same user at two
/// locations less than four hours apart.
pub open spec fn is_impossible_pair(e1: AccessEvent, e2: AccessEvent) -> bool {
    &&& e1.user_id == e2.user_id
    &&& e1.location_id != e2.location_id
    &&& time_gap(e1, e2) < IMPOSSIBLE_TRAVEL_WINDOW_MILLIS
}

/// Whether every event's time lies in the range instants keep to.
pub open spec fn events_in_range(s: Seq<AccessEvent>) -> bool {
    forall|i: int| 0 <= i < s.len() ==> in_range((#[trigger] s[i]).timestamp.millis as int)
}

/// Whether event `j` comes after event `i` when the batch is put in time
/// order, events at the same instant keeping their order.
pub open spec fn comes_later(s: Seq<AccessEvent>, i: int, j: int) -> bool {
    s[j].timestamp.millis > s[i].timestamp.millis
        || (s[j].timestamp.millis == s[i].timestamp.millis && j > i)
}

/// Whether some later event of the batch makes an impossible traveler with event `i`.
pub open spec fn has_later_impossible(s: Seq<AccessEvent>, i: int) -> bool {
    exists|j: int| 0 <= j < s.len() && j != i && comes_later(s, i, j) && #[trigger] is_impossible_pair(s[i], s[j])
}

/// How many of the first `k` events have a later event that makes an
/// impossible traveler with them.
pub open spec fn impossible_count(s: Seq<AccessEvent>, k: int) -> nat
    decreases k,
{
    if k <= 0 {
        0
    } else {
        impossible_count(s, k - 1) + if has_later_impossible(s, k - 1) { 1nat } else { 0nat }
    }
}

/// How many events failed because a curious user tried a room.
pub open spec fn curious_count(s: Seq<AccessEvent>) -> nat
    decreases s.len(),
{
    if s.len() == 0 {
        0
    } else {
        curious_count(s.drop_last()) + if s.last().failure_reason == Some(FailureReason::CuriousUser) { 1nat } else { 0nat }
    }
}

/// The counter an event goes to.
#[derive(Clone, Copy, Debug, PartialEq, Eq, Structural)]
pub enum EventClass {
    /// A night-shift event, counted apart from the others.
    NightShift,
    /// A badge reader failure.
    BadgeReader,
    /// A success.
    Success,
    /// A failure with no more specific counter.
    Failure,
    /// An invalid badge.
    InvalidBadge,
    /// An access outside business hours.
    OutsideHours,
    /// A suspicious access.
    Suspicious,
}

/// The counter an event goes to: night-shift events apart; then by failure
/// reason (badge reader failures; curious attempts as failures; impossible
/// travelers by whether they got in); then by the kind of event.
pub open spec fn event_class(e: AccessEvent) -> EventClass {
    if e.metadata matches Some(m) && m.is_night_shift_event {
        EventClass::NightShift
    } else {
        match e.failure_reason {
            Some(FailureReason::BadgeReaderError) => EventClass::BadgeReader,
            Some(FailureReason::CuriousUser) => EventClass::Failure,
            Some(FailureReason::ImpossibleTraveler) => if e.success { EventClass::Success } else { EventClass::Failure },
            _ => match e.event_type {
                EventType::Success => EventClass::Success,
                EventType::Failure => EventClass::Failure,
                EventType::InvalidBadge => EventClass::InvalidBadge,
                EventType::OutsideHours => EventClass::OutsideHours,
                EventType::Suspicious => EventClass::Suspicious,
            },
        }
    }
}

/// How many events of the batch the classifier sends to the counter.
pub open spec fn class_count_by(s: Seq<AccessEvent>, classify: spec_fn(AccessEvent) -> EventClass, c: EventClass) -> nat
    decreases s.len(),
{
    if s.len() == 0 {
        0
    } else {
        class_count_by(s.drop_last(), classify, c) + if classify(s.last()) == c { 1nat } else { 0nat }
    }
}

/// How many events of the batch go to the counter.
pub open spec fn class_count(s: Seq<AccessEvent>, c: EventClass) -> nat {
    class_count_by(s, |e: AccessEvent| event_class(e), c)
}

/// The statistics after counting each event of the batch into the
/// counter the classifier sends it to.
pub open spec fn tallied_by(
    st: ConsolidatedStatistics,
    s: Seq<AccessEvent>,
    classify: spec_fn(AccessEvent) -> EventClass,
) -> ConsolidatedStatistics {
    let n = |c: EventClass| class_count_by(s, classify, c);
    let failures = n(EventClass::Failure) + n(EventClass::BadgeReader) + n(EventClass::InvalidBadge)
        + n(EventClass::OutsideHours) + n(EventClass::Suspicious);
    ConsolidatedStatistics {
        total_events: (st.total_events + n(EventClass::Success) + failures) as usize,
        success_events: (st.success_events + n(EventClass::Success)) as usize,
        failure_events: (st.failure_events + failures) as usize,
        invalid_badge_events: (st.invalid_badge_events + n(EventClass::InvalidBadge)) as usize,
        outside_hours_events: (st.outside_hours_events + n(EventClass::OutsideHours)) as usize,
        suspicious_events: (st.suspicious_events + n(EventClass::Suspicious)) as usize,
        badge_reader_failure_events: (st.badge_reader_failure_events + n(EventClass::BadgeReader)) as usize,
        night_shift_events: (st.night_shift_events + n(EventClass::NightShift)) as usize,
        ..st
    }
}

/// The statistics after counting each event of the batch by its kind.
pub open spec fn tallied(st: ConsolidatedStatistics, s: Seq<AccessEvent>) -> ConsolidatedStatistics {
    tallied_by(st, s, |e: AccessEvent| event_class(e))
}

/// Whether every counter an event's class goes to can still take `n` more.
pub open spec fn tally_room(st: ConsolidatedStatistics, n: int) -> bool {
    &&& st.total_events + n <= usize::MAX
    &&& st.success_events + n <= usize::MAX
    &&& st.failure_events + n <= usize::MAX
    &&& st.invalid_badge_events + n <= usize::MAX
    &&& st.outside_hours_events + n <= usize::MAX
    &&& st.suspicious_events + n <= usize::MAX
    &&& st.badge_reader_failure_events + n <= usize::MAX
    &&& st.night_shift_events + n <= usize::MAX
}

/// Whether every counter can still take `n` more.
pub open spec fn room_for(st: ConsolidatedStatistics, n: int) -> bool {
    &&& st.total_events + n <= usize::MAX
    &&& st.success_events + n <= usize::MAX
    &&& st.failure_events + n <= usize::MAX
    &&& st.invalid_badge_events + n <= usize::MAX
    &&& st.outside_hours_events + n <= usize::MAX
    &&& st.suspicious_events + n <= usize::MAX
    &&& st.badge_reader_failure_events + n <= usize::MAX
    &&& st.night_shift_events + n <= usize::MAX
    &&& st.curious_events + n <= usize::MAX
    &&& st.impossible_traveler_events + n <= usize::MAX
}

/// Each class count is at most the number of events, and all of them
/// together are exactly that number.
pub proof fn lemma_class_counts(s: Seq<AccessEvent>, classify: spec_fn(AccessEvent) -> EventClass)
    ensures
        class_count_by(s, classify, EventClass::NightShift) + class_count_by(s, classify, EventClass::BadgeReader)
            + class_count_by(s, classify, EventClass::Success) + class_count_by(s, classify, EventClass::Failure)
            + class_count_by(s, classify, EventClass::InvalidBadge) + class_count_by(s, classify, EventClass::OutsideHours)
            + class_count_by(s, classify, EventClass::Suspicious) == s.len(),
    decreases s.len(),
{
    if s.len() > 0 {
        lemma_class_counts(s.drop_last(), classify);
    }
}

/// Counting a batch keeps the total equal to successes plus failures, and
/// the failures no fewer than their specific counters; night-shift events
/// are the only ones the total leaves out.
pub proof fn law_tally_keeps_totals(st: ConsolidatedStatistics, s: Seq<AccessEvent>)
    requires
        tally_room(st, s.len() as int),
    ensures
        st.totals_add_up() ==> tallied(st, s).totals_add_up(),
        tallied(st, s).total_events == st.total_events + s.len() - class_count(s, EventClass::NightShift),
{
    lemma_class_counts(s, |e: AccessEvent| event_class(e));
}

/// Whether the two events make an impossible traveler: the same user at
/// two locations less than four hours apart.
pub fn is_impossible_traveler_scenario(event1: &AccessEvent, event2: &AccessEvent) -> (b: bool)
    requires
        in_range(event1.timestamp.millis as int),
        in_range(event2.timestamp.millis as int),
    ensures
        b == is_impossible_pair(*event1, *event2),
{
    if event1.user_id != event2.user_id {
        return false;
    }
    if event1.location_id == event2.location_id {
        return false;
    }
    let time_gap = if event2.timestamp.millis > event1.timestamp.millis {
        event2.timestamp.millis - event1.timestamp.millis
    } else {
        event1.timestamp.millis - event2.timestamp.millis
    };
    time_gap < IMPOSSIBLE_TRAVEL_WINDOW_MILLIS
}

/// Count the events of the batch that failed because a curious user tried a room.
pub fn detect_and_track_curious_events(statistics: &mut ConsolidatedStatistics, events: &[AccessEvent])
    requires
        old(statistics).curious_events + events@.len() <= usize::MAX,
    ensures
        *final(statistics) == (ConsolidatedStatistics {
            curious_events: (old(statistics).curious_events + curious_count(events@)) as usize,
            ..*old(statistics)
        }),
{
    let mut i: usize = 0;
    while i < events.len()
        invariant
            i <= events@.len(),
            curious_count(events@.take(i as int)) <= i,
            old(statistics).curious_events + events@.len() <= usize::MAX,
            *statistics == (ConsolidatedStatistics {
                curious_events: (old(statistics).curious_events + curious_count(events@.take(i as int))) as usize,
                ..*old(statistics)
            }),
        decreases events.len() - i,
    {
        proof {
            let next = events@.take(i as int + 1);
            assert(next.drop_last() =~= events@.take(i as int));
            assert(next.last() == events@[i as int]);
        }
        let curious = match events[i].failure_reason {
            Some(FailureReason::CuriousUser) => true,
            _ => false,
        };
        if curious {
            statistics.increment_curious_events();
        }
        i = i + 1;
    }
    assert(events@.take(events@.len() as int) =~= events@);
}

/// Whether a later event of the batch makes an impossible traveler with event `i`.
fn has_later_impossible_exec(events: &[AccessEvent], i: usize) -> (b: bool)
    requires
        i < events@.len(),
        events_in_range(events@),
    ensures
        b == has_later_impossible(events@, i as int),
{
    let mut j: usize = 0;
    while j < events.len()
        invariant
            j <= events@.len(),
            i < events@.len(),
            events_in_range(events@),
            forall|k: int| 0 <= k < j && k != i && comes_later(events@, i as int, k)
                ==> !is_impossible_pair(events@[i as int], #[trigger] events@[k]),
        decreases events.len() - j,
    {
        if j != i {
            let later = events[j].timestamp.millis > events[i].timestamp.millis
                || (events[j].timestamp.millis == events[i].timestamp.millis && j > i);
            proof {
                assert(in_range(events@[i as int].timestamp.millis as int));
                assert(in_range(events@[j as int].timestamp.millis as int));
            }
            if later && is_impossible_traveler_scenario(&events[i], &events[j]) {
                assert(is_impossible_pair(events@[i as int], events@[j as int]));
                return true;
            }
        }
        j = j + 1;
    }
    proof {
        if has_later_impossible(events@, i as int) {
            let k = choose|k: int| 0 <= k < events@.len() && k != i && comes_later(events@, i as int, k)
                && #[trigger] is_impossible_pair(events@[i as int], events@[k]);
            assert(!is_impossible_pair(events@[i as int], events@[k]));
        }
    }
    false
}

/// Count, for each event of the batch, whether a later one by the same user
/// at another location follows it within four hours (events in time order,
/// those at the same instant in batch order).
pub fn detect_and_track_impossible_traveler_events(statistics: &mut ConsolidatedStatistics, events: &[AccessEvent])
    requires
        events_in_range(events@),
        old(statistics).impossible_traveler_events + events@.len() <= usize::MAX,
    ensures
        *final(statistics) == (ConsolidatedStatistics {
            impossible_traveler_events: (old(statistics).impossible_traveler_events
                + impossible_count(events@, events@.len() as int)) as usize,
            ..*old(statistics)
        }),
{
    let mut i: usize = 0;
    while i < events.len()
        invariant
            i <= events@.len(),
            events_in_range(events@),
            impossible_count(events@, i as int) <= i,
            old(statistics).impossible_traveler_events + events@.len() <= usize::MAX,
            *statistics == (ConsolidatedStatistics {
                impossible_traveler_events: (old(statistics).impossible_traveler_events
                    + impossible_count(events@, i as int)) as usize,
                ..*old(statistics)
            }),
        decreases events.len() - i,
    {
        if has_later_impossible_exec(events, i) {
            statistics.increment_impossible_traveler_events();
        }
        i = i + 1;
    }
}

/// Count one event into the statistics by its class.
fn tally_event(statistics: &mut ConsolidatedStatistics, event: &AccessEvent)
    requires
        tally_room(*old(statistics), 1),
    ensures
        *final(statistics) == tallied(*old(statistics), seq![*event]),
{
    proof {
        lemma_class_count_single(*event, |e: AccessEvent| event_class(e));
    }
    let night = match event.metadata {
        Some(m) => m.is_night_shift_event,
        None => false,
    };
    if night {
        statistics.increment_night_shift_events();
        return;
    }
    match event.failure_reason {
        Some(FailureReason::BadgeReaderError) => {
            statistics.increment_badge_reader_failure_events();
            return;
        },
        Some(FailureReason::CuriousUser) => {
            statistics.increment_failure_events();
            return;
        },
        Some(FailureReason::ImpossibleTraveler) => {
            if event.success {
                statistics.increment_success_events();
            } else {
                statistics.increment_failure_events();
            }
            return;
        },
        _ => {},
    }
    match event.event_type {
        EventType::Success => statistics.increment_success_events(),
        EventType::Failure => statistics.increment_failure_events(),
        EventType::InvalidBadge => statistics.increment_invalid_badge_events(),
        EventType::OutsideHours => statistics.increment_outside_hours_events(),
        EventType::Suspicious => statistics.increment_suspicious_events(),
    }
}

/// A batch of one event counts it in its class only.
pub proof fn lemma_class_count_single(e: AccessEvent, classify: spec_fn(AccessEvent) -> EventClass)
    ensures
        forall|c: EventClass| #[trigger] class_count_by(seq![e], classify, c) == if classify(e) == c { 1nat } else { 0nat },
{
    let one = seq![e];
    assert(one.drop_last() =~= Seq::<AccessEvent>::empty());
    assert(one.last() == e);
    assert forall|c: EventClass| #[trigger] class_count_by(seq![e], classify, c) == if classify(e) == c { 1nat } else { 0nat } by {
        assert(class_count_by(one.drop_last(), classify, c) == 0);
    }
}

/// A batch with one more event counts that event on top.
pub proof fn lemma_class_count_push(s: Seq<AccessEvent>, e: AccessEvent, classify: spec_fn(AccessEvent) -> EventClass)
    ensures
        forall|c: EventClass| #[trigger] class_count_by(s.push(e), classify, c)
            == class_count_by(s, classify, c) + if classify(e) == c { 1nat } else { 0nat },
{
    let t = s.push(e);
    assert(t.drop_last() =~= s);
    assert(t.last() == e);
}

/// Counting a batch with one more event counts that event on top.
pub proof fn lemma_tallied_push(
    st: ConsolidatedStatistics,
    s: Seq<AccessEvent>,
    e: AccessEvent,
    classify: spec_fn(AccessEvent) -> EventClass,
)
    requires
        tally_room(st, s.len() + 1int),
    ensures
        tallied_by(st, s.push(e), classify) == tallied_by(tallied_by(st, s, classify), seq![e], classify),
{
    lemma_class_count_push(s, e, classify);
    lemma_class_count_single(e, classify);
    lemma_class_counts(s, classify);
}

/// Count a day's batch of events into the statistics: curious attempts,
/// impossible travelers, then each event by its class (night-shift events
/// apart from the total).
pub fn update_statistics_with_events(statistics: &mut ConsolidatedStatistics, events: &[AccessEvent])
    requires
        events_in_range(events@),
        room_for(*old(statistics), events@.len() as int),
    ensures
        *final(statistics) == tallied(
            ConsolidatedStatistics {
                curious_events: (old(statistics).curious_events + curious_count(events@)) as usize,
                impossible_traveler_events: (old(statistics).impossible_traveler_events
                    + impossible_count(events@, events@.len() as int)) as usize,
                ..*old(statistics)
            },
            events@,
        ),
{
    detect_and_track_curious_events(statistics, events);
    detect_and_track_impossible_traveler_events(statistics, events);
    let ghost start = *statistics;
    proof {
        lemma_class_counts(events@, |e: AccessEvent| event_class(e));
        assert(Seq::<AccessEvent>::empty() =~= events@.take(0));
    }
    let mut i: usize = 0;
    while i < events.len()
        invariant
            i <= events@.len(),
            tally_room(start, events@.len() as int),
            *statistics == tallied(start, events@.take(i as int)),
        decreases events.len() - i,
    {
        proof {
            let p = events@.take(i as int);
            lemma_class_counts(p, |e: AccessEvent| event_class(e));
            lemma_tallied_push(start, p, events@[i as int], |e: AccessEvent| event_class(e));
            assert(events@.take(i as int + 1) =~= p.push(events@[i as int]));
        }
        tally_event(statistics, &events[i]);
        i = i + 1;
    }
    assert(events@.take(events@.len() as int) =~= events@);
}

/// The predicate "falls on the day or before it".
pub open spec fn on_or_before(day: int) -> spec_fn(AccessEvent) -> bool {
    |e: AccessEvent| e.timestamp.spec_day() <= day
}

/// The predicate "falls after the day".
pub open spec fn after(day: int) -> spec_fn(AccessEvent) -> bool {
    |e: AccessEvent| e.timestamp.spec_day() > day
}

/// The predicate "falls on the day".
pub open spec fn on_day(day: int) -> spec_fn(AccessEvent) -> bool {
    |e: AccessEvent| e.timestamp.spec_day() == day
}

/// The predicate "falls on another day".
pub open spec fn off_day(day: int) -> spec_fn(AccessEvent) -> bool {
    |e: AccessEvent| e.timestamp.spec_day() != day
}

/// The events put out for a day, given the events waiting from earlier
/// days and those generated for the day: the generated events that fall on
/// the day or before it and the waiting events that fall on it, ordered by
/// time (events at one instant in that order).
pub open spec fn day_output(pending: Seq<AccessEvent>, generated: Seq<AccessEvent>, day: int) -> Seq<AccessEvent> {
    sort_by_time(generated.filter(on_or_before(day)) + pending.filter(on_day(day)))
}

/// The events still waiting after a day: the waiting events of other days,
/// then the generated events that fall after the day.
pub open spec fn pending_after(pending: Seq<AccessEvent>, generated: Seq<AccessEvent>, day: int) -> Seq<AccessEvent> {
    pending.filter(off_day(day)) + generated.filter(after(day))
}

/// Splitting by a predicate and its opposite keeps every event once.
proof fn lemma_filter_partition(s: Seq<AccessEvent>, p: spec_fn(AccessEvent) -> bool, q: spec_fn(AccessEvent) -> bool)
    requires
        forall|e: AccessEvent| #[trigger] q(e) == !p(e),
    ensures
        s.filter(p).to_multiset().add(s.filter(q).to_multiset()) =~= s.to_multiset(),
    decreases s.len(),
{
    broadcast use vstd::seq_lib::group_to_multiset_ensures;
    if s.len() == 0 {
        assert(s.filter(p) =~= Seq::<AccessEvent>::empty());
        assert(s.filter(q) =~= Seq::<AccessEvent>::empty());
    } else {
        let r = s.drop_last();
        let x = s.last();
        lemma_filter_partition(r, p, q);
        assert(r.push(x) =~= s);
        r.lemma_filter_push(x, p);
        r.lemma_filter_push(x, q);
    }
}

/// No event is lost or repeated by a day's routing: what the day puts out
/// and what still waits are, together, what waited and what was generated;
/// what the day puts out falls on it or before it, and nothing still
/// waiting falls on it.
pub proof fn law_day_routing_keeps_every_event(pending: Seq<AccessEvent>, generated: Seq<AccessEvent>, day: int)
    ensures
        day_output(pending, generated, day).to_multiset().add(pending_after(pending, generated, day).to_multiset())
            =~= pending.to_multiset().add(generated.to_multiset()),
        forall|e: AccessEvent| day_output(pending, generated, day).contains(e) ==> e.timestamp.spec_day() <= day,
        forall|e: AccessEvent| pending_after(pending, generated, day).contains(e) ==> e.timestamp.spec_day() != day,
{
    broadcast use vstd::seq_lib::group_to_multiset_ensures;
    broadcast use vstd::seq_lib::group_filter_ensures;
    let waiting = pending.filter(on_day(day));
    let today = generated.filter(on_or_before(day));
    lemma_filter_partition(pending, on_day(day), off_day(day));
    lemma_filter_partition(generated, on_or_before(day), after(day));
    vstd::seq_lib::lemma_multiset_commutative(today, waiting);
    vstd::seq_lib::lemma_multiset_commutative(pending.filter(off_day(day)), generated.filter(after(day)));
    law_sort_by_time_orders_a_permutation(today + waiting);
    let out = day_output(pending, generated, day);
    assert forall|e: AccessEvent| out.contains(e) implies e.timestamp.spec_day() <= day by {
        {
            assert(sort_by_time(today + waiting).to_multiset().count(e) > 0);
            assert((today + waiting).contains(e));
            let k = choose|k: int| 0 <= k < (today + waiting).len() && (today + waiting)[k] == e;
            if k < today.len() {
                assert(today.contains(e));
            } else {
                assert(waiting.contains((today + waiting)[k]));
            }
        }
    }
    let rest = pending_after(pending, generated, day);
    assert forall|e: AccessEvent| rest.contains(e) implies e.timestamp.spec_day() != day by {
        let k = choose|k: int| 0 <= k < rest.len() && rest[k] == e;
        let a = pending.filter(off_day(day));
        if k < a.len() {
            assert(a.contains(e));
        } else {
            assert(generated.filter(after(day)).contains(rest[k]));
        }
    }
}

/// Which events of a day to keep.
#[derive(Clone, Copy, Debug, PartialEq, Eq, Structural)]
enum DayFilter {
    /// Those that fall on the day or before it.
    OnOrBefore,
    /// Those that fall after it.
    After,
    /// Those that fall on it.
    On,
    /// Those that fall on another day.
    Off,
}

/// The predicate a day filter keeps events by.
spec fn day_filter(kind: DayFilter, day: int) -> spec_fn(AccessEvent) -> bool {
    match kind {
        DayFilter::OnOrBefore => on_or_before(day),
        DayFilter::After => after(day),
        DayFilter::On => on_day(day),
        DayFilter::Off => off_day(day),
    }
}

/// The events the filter keeps, in order.
fn filter_events(events: &Vec<AccessEvent>, day: i64, kind: DayFilter) -> (out: Vec<AccessEvent>)
    ensures
        out@ == events@.filter(day_filter(kind, day as int)),
{
    let ghost p = day_filter(kind, day as int);
    let mut out: Vec<AccessEvent> = Vec::new();
    let mut i: usize = 0;
    while i < events.len()
        invariant
            i <= events@.len(),
            p == day_filter(kind, day as int),
            out@ == events@.take(i as int).filter(p),
        decreases events.len() - i,
    {
        let e = events[i];
        proof {
            assert(events@.take(i as int + 1) =~= events@.take(i as int).push(e));
            events@.take(i as int).lemma_filter_push(e, p);
        }
        let d = e.timestamp.day();
        let keep = match kind {
            DayFilter::OnOrBefore => d <= day,
            DayFilter::After => d > day,
            DayFilter::On => d == day,
            DayFilter::Off => d != day,
        };
        if keep {
            out.push(e);
        }
        i = i + 1;
    }
    assert(events@.take(events@.len() as int) =~= events@);
    out
}

/// The events to put out for a day, and what keeps waiting: see
/// `day_output` and `pending_after`.
pub fn take_events_for_day(pending: &mut Vec<AccessEvent>, day: i64, generated: Vec<AccessEvent>) -> (out: Vec<AccessEvent>)
    ensures
        out@ == day_output(old(pending)@, generated@, day as int),
        final(pending)@ == pending_after(old(pending)@, generated@, day as int),
{
    let mut today = filter_events(&generated, day, DayFilter::OnOrBefore);
    let later = filter_events(&generated, day, DayFilter::After);
    let waiting = filter_events(pending, day, DayFilter::On);
    let mut others = filter_events(pending, day, DayFilter::Off);
    let mut j: usize = 0;
    let ghost start = others@;
    while j < later.len()
        invariant
            j <= later@.len(),
            others@ == start + later@.take(j as int),
        decreases later.len() - j,
    {
        assert(later@.take(j as int + 1) =~= later@.take(j as int).push(later@[j as int]));
        others.push(later[j]);
        j = j + 1;
    }
    assert(later@.take(later@.len() as int) =~= later@);
    *pending = others;
    {
        let ghost base = today@;
        let mut k: usize = 0;
        while k < waiting.len()
            invariant
                k <= waiting@.len(),
                today@ == base + waiting@.take(k as int),
            decreases waiting.len() - k,
        {
            assert(waiting@.take(k as int + 1) =~= waiting@.take(k as int).push(waiting@[k as int]));
            today.push(waiting[k]);
            k = k + 1;
        }
        assert(waiting@.take(waiting@.len() as int) =~= waiting@);
    }
    sort_events_by_timestamp(today)
}

/// The statistics after a day's events are counted: the curious and
/// impossible traveler events added, then every event tallied by its kind.
pub open spec fn statistics_after(st: ConsolidatedStatistics, events: Seq<AccessEvent>) -> ConsolidatedStatistics {
    tallied(
        ConsolidatedStatistics {
            curious_events: (st.curious_events + curious_count(events)) as usize,
            impossible_traveler_events: (st.impossible_traveler_events + impossible_count(events, events.len() as int)) as usize,
            ..st
        },
        events,
    )
}

/// Whether every counter of the statistics can take `n` more events.
fn statistics_have_room(st: &ConsolidatedStatistics, n: usize) -> (b: bool)
    ensures
        b == room_for(*st, n as int),
{
    n <= usize::MAX - st.total_events
        && n <= usize::MAX - st.success_events
        && n <= usize::MAX - st.failure_events
        && n <= usize::MAX - st.invalid_badge_events
        && n <= usize::MAX - st.outside_hours_events
        && n <= usize::MAX - st.suspicious_events
        && n <= usize::MAX - st.badge_reader_failure_events
        && n <= usize::MAX - st.night_shift_events
        && n <= usize::MAX - st.curious_events
        && n <= usize::MAX - st.impossible_traveler_events
}

/// What holds of every event holds of every event kept by a filter and
/// ordered by time.
proof fn lemma_sorted_filter_keeps(s: Seq<AccessEvent>, p: spec_fn(AccessEvent) -> bool, q: spec_fn(AccessEvent) -> bool)
    requires
        forall|i: int| 0 <= i < s.len() ==> q(#[trigger] s[i]),
    ensures
        forall|i: int| 0 <= i < sort_by_time(s.filter(p)).len() ==> q(#[trigger] sort_by_time(s.filter(p))[i]),
{
    broadcast use vstd::seq_lib::group_to_multiset_ensures;
    let f = s.filter(p);
    let r = sort_by_time(f);
    law_sort_by_time_orders_a_permutation(f);
    assert forall|i: int| 0 <= i < r.len() implies q(#[trigger] r[i]) by {
        let x = r[i];
        assert(r.contains(x));
        assert(r.to_multiset().count(x) > 0);
        assert(f.contains(x));
        s.lemma_filter_contains_rev(p, x);
        let k = choose|k: int| 0 <= k < s.len() && s[k] == x;
        assert(q(s[k]));
    }
}

/// Whether every event's time lies in the range instants keep to.
fn all_in_range(events: &Vec<AccessEvent>) -> (b: bool)
    ensures
        b == events_in_range(events@),
{
    let mut i: usize = 0;
    while i < events.len()
        invariant
            i <= events@.len(),
            forall|j: int| 0 <= j < i ==> in_range((#[trigger] events@[j]).timestamp.millis as int),
        decreases events.len() - i,
    {
        let m = events[i].timestamp.millis;
        if m > MAX_MILLIS || m < -MAX_MILLIS {
            return false;
        }
        i = i + 1;
    }
    true
}

/// Count the waiting events that fall on the day into the statistics, as
/// the day's own events were counted when they were made: events past a
/// day's end are counted on the day they fall on. An error, with the
/// statistics left as they were, when such an event's time is out of range
/// or the counters cannot take them.
pub fn count_waiting_events_for_day(pending: &Vec<AccessEvent>, day: i64, statistics: &mut ConsolidatedStatistics) -> (r: Result<(), SimulationError>)
    ensures
        r is Ok <==> events_in_range(pending@.filter(on_day(day as int)))
            && room_for(*old(statistics), pending@.filter(on_day(day as int)).len() as int),
        r is Ok ==> *final(statistics) == statistics_after(*old(statistics), pending@.filter(on_day(day as int))),
        r is Err ==> *final(statistics) == *old(statistics),
{
    let waiting = filter_events(pending, day, DayFilter::On);
    if !all_in_range(&waiting) {
        return Err(SimulationError::time_error("Event time out of range"));
    }
    if !statistics_have_room(statistics, waiting.len()) {
        return Err(SimulationError::statistics_error("Statistics counters cannot take the day's events"));
    }
    update_statistics_with_events(statistics, waiting.as_slice());
    Ok(())
}

/// Whether the event is one of the users'.
pub open spec fn by_some_user(event_users: Seq<EventUser>, e: AccessEvent) -> bool {
    exists|k: int| 0 <= k < event_users.len() && (#[trigger] event_users[k]).user_id == e.user_id
}

/// Whether the events, activity by activity, are an outcome of each
/// activity of the schedule for the user (see `generate_events_from_activity`).
pub open spec fn schedule_events(
    registry: LocationRegistry,
    user: EventUser,
    permissions: PermissionSet,
    schedule: Seq<ScheduledActivity>,
    c: Seq<Seq<AccessEvent>>,
) -> bool {
    &&& c.len() == schedule.len()
    &&& forall|a: int| 0 <= a < c.len()
        ==> activity_outcome(registry, user, permissions, schedule[a].target_room, schedule[a].start_time, #[trigger] c[a])
}

/// Whether the schedule is one `generate_daily_schedule` may give the user
/// for the day, and the events, activity by activity, an outcome of each
/// of its activities.
pub open spec fn user_day_events(
    event_registry: LocationRegistry,
    schedule_registry: LocationRegistry,
    user: DayShiftUser,
    event_user: EventUser,
    night_building: Option<BuildingId>,
    permissions: PermissionSet,
    draws: DayDraws,
    day: int,
    schedule: Vec<ScheduledActivity>,
    c: Seq<Seq<AccessEvent>>,
) -> bool {
    &&& exists|before: Option<LocationId>, after: Option<LocationId>| #[trigger] daily_schedule_outcome(
        before, after, user, event_user.is_night_shift, night_building, permissions, draws, day, schedule_registry,
        Ok::<Vec<ScheduledActivity>, SimulationError>(schedule),
    )
    &&& schedule_events(event_registry, event_user, permissions, schedule@, c)
}

/// Counting no events leaves the statistics as they were.
proof fn lemma_statistics_after_nothing(st: ConsolidatedStatistics)
    ensures
        statistics_after(st, Seq::empty()) == st,
{
    let e = Seq::<AccessEvent>::empty();
    assert(curious_count(e) == 0);
    assert(impossible_count(e, 0) == 0);
    let st2 = ConsolidatedStatistics {
        curious_events: (st.curious_events + curious_count(e)) as usize,
        impossible_traveler_events: (st.impossible_traveler_events + impossible_count(e, e.len() as int)) as usize,
        ..st
    };
    assert(st2 == st);
    lemma_class_counts(e, |x: AccessEvent| event_class(x));
}

/// Whether the activity's events can fail for the user: its access flow
/// cannot be walked, or both its events and its minimal event fail.
pub open spec fn activity_fails(registry: LocationRegistry, user: EventUser, permissions: PermissionSet, act: ScheduledActivity) -> bool {
    ||| !flow_walkable(registry, user.current_room, act.target_room, act.start_time)
    ||| (exists|e: SimulationError| #[trigger] minimal_event_error(registry, act.target_room, e))
        && (exists|e: SimulationError| #[trigger] activity_events_error(registry, user, permissions, act.target_room, act.start_time, e))
}

/// Whether the user's day can fail: `generate_daily_schedule` may give
/// them an error; or it may give them a schedule with an activity whose
/// events can fail.
pub open spec fn user_day_fails(
    event_registry: LocationRegistry,
    schedule_registry: LocationRegistry,
    user: DayShiftUser,
    event_user: EventUser,
    night_building: Option<BuildingId>,
    permissions: PermissionSet,
    draws: DayDraws,
    day: int,
) -> bool {
    ||| exists|before: Option<LocationId>, after: Option<LocationId>, e: SimulationError| #[trigger] daily_schedule_outcome(
        before, after, user, event_user.is_night_shift, night_building, permissions, draws, day, schedule_registry,
        Err::<Vec<ScheduledActivity>, SimulationError>(e),
    )
    ||| exists|before: Option<LocationId>, after: Option<LocationId>, schedule: Vec<ScheduledActivity>| #[trigger] daily_schedule_outcome(
        before, after, user, event_user.is_night_shift, night_building, permissions, draws, day, schedule_registry,
        Ok::<Vec<ScheduledActivity>, SimulationError>(schedule),
    ) && exists|a: int| 0 <= a < schedule@.len() && #[trigger] activity_fails(event_registry, event_user, permissions, schedule@[a])
}

/// The events of a day for every user, split at the day's end: each user's
/// schedule for the day (night-shift or day-shift, as `generate_daily_schedule`
/// makes it), the events of each of its activities, then those that fall on
/// the day or before it in time order, and those that fall after it in time
/// order, for the days they fall on. The day's events are counted into the
/// statistics; the later ones are counted on their own day. The first error
/// of a schedule or of an activity's events is returned; an error when an
/// activity's access flow cannot be walked (a room of it not filed, or the
/// walk's times out of range), and when the statistics' counters cannot
/// take the day's events; the statistics are then left as they were.
#[verifier::spinoff_prover]
#[verifier::rlimit(80)]
pub fn generate_events_for_single_day(
    engine: &mut BehaviorEngine,
    events: &mut EventGenerator,
    users: &[DayShiftUser],
    event_users: &[EventUser],
    night_buildings: &[Option<BuildingId>],
    permissions: &[PermissionSet],
    draws: &[DayDraws],
    travel: &TravelTable,
    day: i64,
    registry: &LocationRegistry,
    statistics: &mut ConsolidatedStatistics,
) -> (r: Result<(Vec<AccessEvent>, Vec<AccessEvent>), SimulationError>)
    requires
        old(engine).wf(),
        day_in_range(day as int),
        event_users@.len() == users@.len(),
        night_buildings@.len() == users@.len(),
        permissions@.len() == users@.len(),
        draws@.len() == users@.len(),
        forall|k: int| 0 <= k < draws@.len() ==> (#[trigger] draws@[k]).meeting_reaches@.len() <= 5
            && -60 <= draws@[k].departure_variation_minutes <= 120,
        registry_checkpoints_bounded(old(events).registry().spec_locations()),
        travel.covers(old(events).registry()),
    ensures
        final(engine).wf(),
        final(events).registry() == old(events).registry(),
        r matches Ok((today, later)) ==> exists|schedules: Seq<Vec<ScheduledActivity>>, c: Seq<Seq<Seq<AccessEvent>>>|
            #![trigger schedules.len(), c.len()] {
            let generated = flatten_nested(c);
            &&& schedules.len() == users@.len() && c.len() == users@.len()
            &&& forall|k: int| 0 <= k < users@.len() ==> #[trigger] user_day_events(
                old(events).registry(), *registry, users@[k], event_users@[k], night_buildings@[k], permissions@[k], draws@[k],
                day as int, schedules[k], c[k],
            )
            &&& today@ == sort_by_time(generated.filter(on_or_before(day as int)))
            &&& later@ == sort_by_time(generated.filter(after(day as int)))
            &&& forall|i: int| 0 <= i < generated.len() ==> by_some_user(event_users@, #[trigger] generated[i])
            &&& room_for(*old(statistics), today@.len() as int)
            &&& *final(statistics) == statistics_after(*old(statistics), today@)
        },
        r matches Ok((today, later)) ==> events_in_range(today@) && events_in_range(later@),
        r matches Err(_) ==> *final(statistics) == *old(statistics),
        users@.len() == 0 ==> (r matches Ok((today, later)) && today@.len() == 0 && later@.len() == 0
            && *final(statistics) == *old(statistics)),
        r matches Err(_) ==> {
            ||| exists|k: int| 0 <= k < users@.len() && #[trigger] user_day_fails(
                old(events).registry(), *registry, users@[k], event_users@[k], night_buildings@[k], permissions@[k], draws@[k],
                day as int,
            )
            ||| exists|schedules: Seq<Vec<ScheduledActivity>>, c: Seq<Seq<Seq<AccessEvent>>>| #![trigger schedules.len(), c.len()] {
                &&& schedules.len() == users@.len() && c.len() == users@.len()
                &&& forall|k: int| 0 <= k < users@.len() ==> #[trigger] user_day_events(
                    old(events).registry(), *registry, users@[k], event_users@[k], night_buildings@[k], permissions@[k], draws@[k],
                    day as int, schedules[k], c[k],
                )
                &&& !room_for(*old(statistics), sort_by_time(flatten_nested(c).filter(on_or_before(day as int))).len() as int)
            }
        },
{
    let ghost registry0 = events.registry();
    let mut all: Vec<AccessEvent> = Vec::new();
    let ghost mut schedules: Seq<Vec<ScheduledActivity>> = Seq::empty();
    let ghost mut done: Seq<Seq<Seq<AccessEvent>>> = Seq::empty();
    let mut k: usize = 0;
    while k < users.len()
        invariant
            k <= users@.len(),
            schedules.len() == k,
            done.len() == k,
            forall|k2: int| 0 <= k2 < k ==> #[trigger] user_day_events(
                registry0, *registry, users@[k2], event_users@[k2], night_buildings@[k2], permissions@[k2], draws@[k2],
                day as int, schedules[k2], done[k2],
            ),
            all@ == flatten_nested(done),
            engine.wf(),
            events.registry() == registry0,
            registry0 == old(events).registry(),
            *statistics == *old(statistics),
            day_in_range(day as int),
            event_users@.len() == users@.len(),
            night_buildings@.len() == users@.len(),
            permissions@.len() == users@.len(),
            draws@.len() == users@.len(),
            forall|k2: int| 0 <= k2 < draws@.len() ==> (#[trigger] draws@[k2]).meeting_reaches@.len() <= 5
                && -60 <= draws@[k2].departure_variation_minutes <= 120,
            registry_checkpoints_bounded(registry0.spec_locations()),
            travel.covers(registry0),
            forall|i: int| 0 <= i < all@.len() ==> by_some_user(event_users@, #[trigger] all@[i])
                && in_range(all@[i].timestamp.millis as int),
        decreases users.len() - k,
    {
        proof {
            assert(draws@[k as int].meeting_reaches@.len() <= 5);
        }
        let ghost held_before = engine.held_location(users@[k as int].user_id);
        let outcome = engine.generate_daily_schedule(
            &users[k],
            event_users[k].is_night_shift,
            night_buildings[k],
            &permissions[k],
            &draws[k],
            day,
            registry,
        );
        let ghost held_after = engine.held_location(users@[k as int].user_id);
        proof {
            assert(daily_schedule_outcome(
                held_before, held_after, users@[k as int], event_users@[k as int].is_night_shift, night_buildings@[k as int],
                permissions@[k as int], draws@[k as int], day as int, *registry, outcome,
            ));
        }
        let schedule = match outcome {
            Ok(s) => s,
            Err(e) => {
                proof {
                    assert(user_day_fails(
                        registry0, *registry, users@[k as int], event_users@[k as int], night_buildings@[k as int],
                        permissions@[k as int], draws@[k as int], day as int,
                    ));
                }
                return Err(e);
            },
        };
        let ghost mut cur: Seq<Seq<AccessEvent>> = Seq::empty();
        let mut a: usize = 0;
        while a < schedule.len()
            invariant
                a <= schedule@.len(),
                k < users@.len(),
                cur.len() == a,
                forall|a2: int| 0 <= a2 < a ==> activity_outcome(
                    registry0, event_users@[k as int], permissions@[k as int], schedule@[a2].target_room, schedule@[a2].start_time,
                    #[trigger] cur[a2],
                ),
                all@ == flatten_nested(done) + cur.flatten(),
                daily_schedule_outcome(
                    held_before, held_after, users@[k as int], event_users@[k as int].is_night_shift, night_buildings@[k as int],
                    permissions@[k as int], draws@[k as int], day as int, *registry, Ok::<Vec<ScheduledActivity>, SimulationError>(schedule),
                ),
                engine.wf(),
                events.registry() == registry0,
                registry0 == old(events).registry(),
                *statistics == *old(statistics),
                event_users@.len() == users@.len(),
                permissions@.len() == users@.len(),
                schedule_within_days(schedule@, day as int),
                registry_checkpoints_bounded(registry0.spec_locations()),
                travel.covers(registry0),
                day_in_range(day as int),
                forall|i: int| 0 <= i < all@.len() ==> by_some_user(event_users@, #[trigger] all@[i])
                    && in_range(all@[i].timestamp.millis as int),
            decreases schedule.len() - a,
        {
            let activity = &schedule[a];
            proof {
                assert(in_range(schedule@[a as int].start_time.millis as int));
            }
            proof {
                assert(*activity == schedule@[a as int]);
            }
            if !events.check_flow_walkable(event_users[k].current_room, activity.target_room, activity.start_time) {
                proof {
                    assert(activity_fails(registry0, event_users@[k as int], permissions@[k as int], schedule@[a as int]));
                    assert(user_day_fails(
                        registry0, *registry, users@[k as int], event_users@[k as int], night_buildings@[k as int],
                        permissions@[k as int], draws@[k as int], day as int,
                    ));
                }
                return Err(SimulationError::event_generation_error("Access flow cannot be walked to the activity's room"));
            }
            let activity_events = match events.generate_events_from_activity(
                &event_users[k],
                &permissions[k],
                travel,
                activity,
                activity.start_time,
            ) {
                Ok(v) => v,
                Err(e) => {
                    proof {
                        assert(minimal_event_error(registry0, schedule@[a as int].target_room, e));
                        assert(activity_fails(registry0, event_users@[k as int], permissions@[k as int], schedule@[a as int]));
                        assert(user_day_fails(
                            registry0, *registry, users@[k as int], event_users@[k as int], night_buildings@[k as int],
                            permissions@[k as int], draws@[k as int], day as int,
                        ));
                    }
                    return Err(e);
                },
            };
            let ghost base = all@;
            let mut m: usize = 0;
            while m < activity_events.len()
                invariant
                    m <= activity_events@.len(),
                    k < event_users@.len(),
                    all@ == base + activity_events@.take(m as int),
                    forall|i: int| 0 <= i < activity_events@.len() ==> (#[trigger] activity_events@[i]).user_id == event_users@[k as int].user_id
                        && activity.start_time.millis <= activity_events@[i].timestamp.millis <= MAX_MILLIS,
                    in_range(activity.start_time.millis as int),
                    forall|i: int| 0 <= i < all@.len() ==> by_some_user(event_users@, #[trigger] all@[i])
                        && in_range(all@[i].timestamp.millis as int),
                decreases activity_events.len() - m,
            {
                let event = activity_events[m];
                let ghost prev = all@;
                proof {
                    assert(event_users@[k as int].user_id == event.user_id);
                    assert(by_some_user(event_users@, event));
                }
                all.push(event);
                proof {
                    assert(activity_events@.take(m as int + 1) =~= activity_events@.take(m as int).push(event));
                    assert forall|i: int| 0 <= i < all@.len() implies by_some_user(event_users@, #[trigger] all@[i])
                        && in_range(all@[i].timestamp.millis as int) by {
                        if i < prev.len() {
                            assert(all@[i] == prev[i]);
                        }
                    }
                }
                m = m + 1;
            }
            proof {
                assert(activity_events@.take(m as int) =~= activity_events@);
                cur.lemma_flatten_push(activity_events@);
                cur = cur.push(activity_events@);
                assert forall|a2: int| 0 <= a2 < a + 1 implies activity_outcome(
                    registry0, event_users@[k as int], permissions@[k as int], schedule@[a2].target_room, schedule@[a2].start_time,
                    #[trigger] cur[a2],
                ) by {
                    if a2 < a {
                        assert(cur[a2] == cur.drop_last()[a2]);
                    }
                }
            }
            a = a + 1;
        }
        proof {
            lemma_flatten_nested_push(done, cur);
            assert(schedule_events(registry0, event_users@[k as int], permissions@[k as int], schedule@, cur));
            assert(user_day_events(
                registry0, *registry, users@[k as int], event_users@[k as int], night_buildings@[k as int], permissions@[k as int],
                draws@[k as int], day as int, schedule, cur,
            ));
            schedules = schedules.push(schedule);
            done = done.push(cur);
            assert forall|k2: int| 0 <= k2 < k + 1 implies #[trigger] user_day_events(
                registry0, *registry, users@[k2], event_users@[k2], night_buildings@[k2], permissions@[k2], draws@[k2],
                day as int, schedules[k2], done[k2],
            ) by {
                if k2 < k {
                    assert(schedules[k2] == schedules.drop_last()[k2]);
                    assert(done[k2] == done.drop_last()[k2]);
                }
            }
        }
        k = k + 1;
    }
    let today = sort_events_by_timestamp(filter_events(&all, day, DayFilter::OnOrBefore));
    let later = sort_events_by_timestamp(filter_events(&all, day, DayFilter::After));
    proof {
        lemma_sorted_filter_keeps(all@, on_or_before(day as int), |e: AccessEvent| in_range(e.timestamp.millis as int));
        lemma_sorted_filter_keeps(all@, after(day as int), |e: AccessEvent| in_range(e.timestamp.millis as int));
    }
    if !statistics_have_room(statistics, today.len()) {
        proof {
            assert(schedules.len() == users@.len() && done.len() == users@.len());
        }
        return Err(SimulationError::statistics_error("Statistics counters cannot take the day's events"));
    }
    proof {
        if users@.len() == 0 {
            assert(done =~= Seq::<Seq<Seq<AccessEvent>>>::empty());
            assert(all@ =~= Seq::<AccessEvent>::empty());
            assert(all@.filter(on_or_before(day as int)) =~= Seq::<AccessEvent>::empty());
            assert(all@.filter(after(day as int)) =~= Seq::<AccessEvent>::empty());
        }
    }
    update_statistics_with_events(statistics, today.as_slice());
    proof {
        if users@.len() == 0 {
            lemma_statistics_after_nothing(*old(statistics));
        }
    }
    Ok((today, later))
}

} // verus!
