//! The statistics updates of the simulation orchestrator: its own count of a
//! batch of events by kind, and bulk increments of the anomaly counters.

use vstd::prelude::*;
use crate::events::access_event::AccessEvent;
use crate::simulation::batch_generator::{
    EventClass, class_count_by, lemma_class_count_single, lemma_class_counts, lemma_tallied_push, tally_room,
    tallied_by,
};
use crate::simulation::statistics::ConsolidatedStatistics;
use crate::types::{EventType, FailureReason};

verus! {

/// The counter the orchestrator sends an event to: night-shift events
/// apart, badge reader failures, then by the kind of event.
pub open spec fn orchestrator_class(e: AccessEvent) -> EventClass {
    if e.metadata matches Some(m) && m.is_night_shift_event {
        EventClass::NightShift
    } else if e.failure_reason == Some(FailureReason::BadgeReaderError) {
        EventClass::BadgeReader
    } else {
        match e.event_type {
            EventType::Success => EventClass::Success,
            EventType::Failure => EventClass::Failure,
            EventType::InvalidBadge => EventClass::InvalidBadge,
            EventType::OutsideHours => EventClass::OutsideHours,
            EventType::Suspicious => EventClass::Suspicious,
        }
    }
}

/// Count one event into the statistics by the orchestrator's class.
fn tally_event_by_type(statistics: &mut ConsolidatedStatistics, event: &AccessEvent)
    requires
        tally_room(*old(statistics), 1),
    ensures
        *final(statistics) == tallied_by(*old(statistics), seq![*event], |e: AccessEvent| orchestrator_class(e)),
{
    proof {
        lemma_class_count_single(*event, |e: AccessEvent| orchestrator_class(e));
    }
    let night = match event.metadata {
        Some(m) => m.is_night_shift_event,
        None => false,
    };
    if night {
        statistics.increment_night_shift_events();
        return;
    }
    let badge_reader = match event.failure_reason {
        Some(FailureReason::BadgeReaderError) => true,
        _ => false,
    };
    if badge_reader {
        statistics.increment_badge_reader_failure_events();
        return;
    }
    match event.event_type {
        EventType::Success => statistics.increment_success_events(),
        EventType::Failure => statistics.increment_failure_events(),
        EventType::InvalidBadge => statistics.increment_invalid_badge_events(),
        EventType::OutsideHours => statistics.increment_outside_hours_events(),
        EventType::Suspicious => statistics.increment_suspicious_events(),
    }
}

/// Count a batch of events by kind, the orchestrator's way: night-shift
/// events apart, badge reader failures, then by the kind of event; the
/// anomaly counters are left alone.
pub fn update_statistics_with_events(statistics: &mut ConsolidatedStatistics, events: &[AccessEvent])
    requires
        tally_room(*old(statistics), events@.len() as int),
    ensures
        *final(statistics) == tallied_by(*old(statistics), events@, |e: AccessEvent| orchestrator_class(e)),
{
    let ghost start = *statistics;
    let ghost classify = |e: AccessEvent| orchestrator_class(e);
    proof {
        assert(Seq::<AccessEvent>::empty() =~= events@.take(0));
        lemma_class_counts(Seq::<AccessEvent>::empty(), classify);
    }
    let mut i: usize = 0;
    while i < events.len()
        invariant
            i <= events@.len(),
            start == *old(statistics),
            classify == (|e: AccessEvent| orchestrator_class(e)),
            tally_room(start, events@.len() as int),
            *statistics == tallied_by(start, events@.take(i as int), classify),
        decreases events.len() - i,
    {
        proof {
            let p = events@.take(i as int);
            lemma_class_counts(p, classify);
            lemma_tallied_push(start, p, events@[i as int], classify);
            assert(events@.take(i as int + 1) =~= p.push(events@[i as int]));
        }
        tally_event_by_type(statistics, &events[i]);
        i = i + 1;
    }
    assert(events@.take(events@.len() as int) =~= events@);
}

/// Add `count` curious events.
pub fn increment_curious_events(statistics: &mut ConsolidatedStatistics, count: usize)
    requires
        old(statistics).curious_events + count <= usize::MAX,
    ensures
        *final(statistics) == (ConsolidatedStatistics {
            curious_events: (old(statistics).curious_events + count) as usize,
            ..*old(statistics)
        }),
{
    let mut k: usize = 0;
    while k < count
        invariant
            k <= count,
            old(statistics).curious_events + count <= usize::MAX,
            *statistics == (ConsolidatedStatistics {
                curious_events: (old(statistics).curious_events + k) as usize,
                ..*old(statistics)
            }),
        decreases count - k,
    {
        statistics.increment_curious_events();
        k = k + 1;
    }
}

/// Add `count` impossible traveler events.
pub fn increment_impossible_traveler_events(statistics: &mut ConsolidatedStatistics, count: usize)
    requires
        old(statistics).impossible_traveler_events + count <= usize::MAX,
    ensures
        *final(statistics) == (ConsolidatedStatistics {
            impossible_traveler_events: (old(statistics).impossible_traveler_events + count) as usize,
            ..*old(statistics)
        }),
{
    let mut k: usize = 0;
    while k < count
        invariant
            k <= count,
            old(statistics).impossible_traveler_events + count <= usize::MAX,
            *statistics == (ConsolidatedStatistics {
                impossible_traveler_events: (old(statistics).impossible_traveler_events + k) as usize,
                ..*old(statistics)
            }),
        decreases count - k,
    {
        statistics.increment_impossible_traveler_events();
        k = k + 1;
    }
}

/// Add `count` badge reader failures, each also a failure and an event.
pub fn increment_badge_technical_failure_events(statistics: &mut ConsolidatedStatistics, count: usize)
    requires
        old(statistics).badge_reader_failure_events + count <= usize::MAX,
        old(statistics).failure_events + count <= usize::MAX,
        old(statistics).total_events + count <= usize::MAX,
    ensures
        *final(statistics) == (ConsolidatedStatistics {
            badge_reader_failure_events: (old(statistics).badge_reader_failure_events + count) as usize,
            failure_events: (old(statistics).failure_events + count) as usize,
            total_events: (old(statistics).total_events + count) as usize,
            ..*old(statistics)
        }),
{
    let mut k: usize = 0;
    while k < count
        invariant
            k <= count,
            old(statistics).badge_reader_failure_events + count <= usize::MAX,
            old(statistics).failure_events + count <= usize::MAX,
            old(statistics).total_events + count <= usize::MAX,
            *statistics == (ConsolidatedStatistics {
                badge_reader_failure_events: (old(statistics).badge_reader_failure_events + k) as usize,
                failure_events: (old(statistics).failure_events + k) as usize,
                total_events: (old(statistics).total_events + k) as usize,
                ..*old(statistics)
            }),
        decreases count - k,
    {
        statistics.increment_badge_reader_failure_events();
        k = k + 1;
    }
}

} // verus!
