use badge_access_simulator::events::access_event::AccessEvent;
use badge_access_simulator::events::metadata::{is_impossible_travel, time_deficit};
use badge_access_simulator::simulation::time_manager::TimeManager;
use badge_access_simulator::simulation::time_variance::{
    TimeVariance, DEFAULT_VARIANCE_WINDOW_MILLIS, MAX_TIMESTAMP_GAP_MS,
};
use badge_access_simulator::time::{TimeDelta, Timestamp};
use badge_access_simulator::types::{BuildingId, EventType, LocationId, RoomId, UserId};
use chrono::{TimeZone, Utc};
use rand::thread_rng;

fn at(year: i32, month: u32, day: u32, hour: u32, minute: u32, second: u32) -> Timestamp {
    let t = Utc.with_ymd_and_hms(year, month, day, hour, minute, second).unwrap();
    Timestamp::from_millis(t.timestamp_millis())
}

fn plus(t: Timestamp, d: TimeDelta) -> Timestamp {
    t.plus(d)
}

fn event_at(t: Timestamp) -> AccessEvent {
    AccessEvent::new(t, UserId::new(), RoomId::new(), BuildingId::new(), LocationId::new(), true, EventType::Success)
}

#[test]
fn test_business_hours_detection() {
    let tm = TimeManager::default();

    let monday_10am = at(2024, 1, 8, 10, 0, 0);
    let friday_2pm = at(2024, 1, 12, 14, 0, 0);
    let saturday_10am = at(2024, 1, 13, 10, 0, 0);
    let monday_8am = at(2024, 1, 8, 8, 0, 0);
    let monday_6pm = at(2024, 1, 8, 18, 0, 0);

    assert!(tm.is_business_hours(monday_10am));
    assert!(tm.is_business_hours(friday_2pm));
    assert!(tm.is_business_hours(saturday_10am));
    assert!(!tm.is_business_hours(monday_8am));
    assert!(!tm.is_business_hours(monday_6pm));
}

#[test]
fn test_travel_time_same_room() {
    let tm = TimeManager::default();
    let mut rng = thread_rng();

    let room_id = RoomId::new();
    let building_id = BuildingId::new();
    let location_id = LocationId::new();

    let travel_time =
        tm.calculate_travel_time(Some(room_id), room_id, building_id, building_id, location_id, location_id, &mut rng);

    assert_eq!(travel_time, TimeDelta::seconds(0));
}

#[test]
fn test_travel_time_different_locations() {
    let tm = TimeManager::default();
    let mut rng = thread_rng();

    let room_id1 = RoomId::new();
    let room_id2 = RoomId::new();
    let building_id = BuildingId::new();
    let location_id1 = LocationId::new();
    let location_id2 = LocationId::new();

    let travel_time = tm.calculate_travel_time(
        Some(room_id1),
        room_id2,
        building_id,
        building_id,
        location_id1,
        location_id2,
        &mut rng,
    );

    assert!(travel_time.millis >= TimeDelta::hours(4).millis);
    assert!(travel_time.millis <= TimeDelta::hours(12).millis);
}

#[test]
fn test_travel_time_different_buildings() {
    let tm = TimeManager::default();
    let mut rng = thread_rng();

    let room_id1 = RoomId::new();
    let room_id2 = RoomId::new();
    let building_id1 = BuildingId::new();
    let building_id2 = BuildingId::new();
    let location_id = LocationId::new();

    let travel_time = tm.calculate_travel_time(
        Some(room_id1),
        room_id2,
        building_id1,
        building_id2,
        location_id,
        location_id,
        &mut rng,
    );

    assert!(travel_time.millis >= TimeDelta::minutes(2).millis);
    assert!(travel_time.millis <= TimeDelta::minutes(10).millis);
}

#[test]
fn test_travel_time_same_building() {
    let tm = TimeManager::default();
    let mut rng = thread_rng();

    let room_id1 = RoomId::new();
    let room_id2 = RoomId::new();
    let building_id = BuildingId::new();
    let location_id = LocationId::new();

    let travel_time = tm.calculate_travel_time(
        Some(room_id1),
        room_id2,
        building_id,
        building_id,
        location_id,
        location_id,
        &mut rng,
    );

    assert!(travel_time.millis >= TimeDelta::seconds(30).millis);
    assert!(travel_time.millis <= TimeDelta::seconds(180).millis);
}

#[test]
fn test_time_variance_creation() {
    let variance = TimeVariance::new();
    assert_eq!(variance.variance_window_millis(), DEFAULT_VARIANCE_WINDOW_MILLIS);
}

#[test]
fn test_default_implementation() {
    let variance = TimeVariance::default();
    assert_eq!(variance.variance_window_millis(), DEFAULT_VARIANCE_WINDOW_MILLIS);
}

#[test]
fn test_apply_variance_within_range() {
    let mut variance = TimeVariance::new();
    let scheduled_time = at(2024, 1, 15, 10, 30, 0);

    for _ in 0..100 {
        if let Some(varied_time) = variance.apply_variance(scheduled_time) {
            let diff = varied_time.since(scheduled_time);
            assert!(diff.millis >= TimeDelta::zero().millis);
            assert!(diff.millis <= TimeDelta::seconds(300).millis);
            assert_eq!(varied_time.day(), scheduled_time.day());
        }
    }
}

#[test]
fn test_apply_variance_drops_next_day_events() {
    let mut variance = TimeVariance::new();
    let scheduled_time = at(2024, 1, 15, 23, 58, 0);

    let mut none_count = 0;
    let mut some_count = 0;

    for _ in 0..100 {
        match variance.apply_variance(scheduled_time) {
            None => none_count += 1,
            Some(varied_time) => {
                some_count += 1;
                assert_eq!(varied_time.day(), scheduled_time.day());
            }
        }
    }

    assert!(none_count > 0, "Expected some events to be dropped");
    assert!(some_count > 0, "Expected some events to be kept");
}

#[test]
fn test_apply_variance_to_events() {
    let mut variance = TimeVariance::new();
    let base_time = at(2024, 1, 15, 10, 30, 0);

    let mut events = vec![event_at(base_time), event_at(plus(base_time, TimeDelta::minutes(1)))];

    let original_count = events.len();
    variance.apply_variance_to_events(&mut events);

    assert_eq!(events.len(), original_count);

    for (i, event) in events.iter().enumerate() {
        let original_time = if i == 0 { base_time } else { plus(base_time, TimeDelta::minutes(1)) };
        assert!(event.timestamp.millis >= original_time.millis);
        assert!(event.timestamp.millis <= plus(original_time, TimeDelta::seconds(300)).millis);
        assert_eq!(event.timestamp.day(), original_time.day());
    }
}

#[test]
fn test_apply_variance_to_events_filters_next_day() {
    let mut variance = TimeVariance::new();
    let late_time = at(2024, 1, 15, 23, 58, 0);

    let mut events = vec![];
    for _ in 0..50 {
        events.push(event_at(late_time));
    }

    let original_count = events.len();
    variance.apply_variance_to_events(&mut events);

    assert!(events.len() < original_count);

    for event in &events {
        assert_eq!(event.timestamp.day(), late_time.day());
    }
}

#[test]
fn test_ensure_unique_timestamps() {
    let mut variance = TimeVariance::new();
    let base_time = at(2024, 1, 15, 10, 30, 0);

    let mut events = vec![event_at(base_time), event_at(base_time), event_at(base_time)];

    variance.ensure_unique_timestamps(&mut events);

    for i in 1..events.len() {
        assert!(events[i].timestamp.millis > events[i - 1].timestamp.millis);
        let gap = events[i].timestamp.since(events[i - 1].timestamp);
        assert!(gap.millis >= TimeDelta::milliseconds(1).millis);
        assert!(gap.millis <= TimeDelta::milliseconds(MAX_TIMESTAMP_GAP_MS).millis);
    }
}

#[test]
fn test_ensure_unique_timestamps_maintains_order() {
    let mut variance = TimeVariance::new();
    let base_time = at(2024, 1, 15, 10, 30, 0);

    let mut events = vec![
        event_at(base_time),
        event_at(plus(base_time, TimeDelta::milliseconds(100))),
        event_at(plus(base_time, TimeDelta::milliseconds(200))),
    ];

    variance.ensure_unique_timestamps(&mut events);

    for i in 1..events.len() {
        assert!(events[i].timestamp.millis > events[i - 1].timestamp.millis);
    }
}

#[test]
fn test_ensure_unique_timestamps_with_overlapping_times() {
    let mut variance = TimeVariance::new();
    let base_time = at(2024, 1, 15, 10, 30, 0);

    let mut events = vec![
        event_at(base_time),
        event_at(plus(base_time, TimeDelta::milliseconds(50))),
        event_at(plus(base_time, TimeDelta::milliseconds(25))),
    ];

    variance.ensure_unique_timestamps(&mut events);

    for i in 1..events.len() {
        assert!(events[i].timestamp.millis > events[i - 1].timestamp.millis);
    }
}

#[test]
fn test_max_timestamp_gap_constant() {
    assert_eq!(MAX_TIMESTAMP_GAP_MS, 500);
}

#[test]
fn test_time_deficit_calculation() {
    let deficit = time_deficit(TimeDelta::hours(2), TimeDelta::hours(5));
    assert_eq!(deficit, TimeDelta::hours(3));

    assert_eq!(time_deficit(TimeDelta::hours(5), TimeDelta::hours(2)), TimeDelta::zero());
}

#[test]
fn test_impossibility_detection() {
    assert!(is_impossible_travel(TimeDelta::hours(1), TimeDelta::hours(6)));
    assert!(!is_impossible_travel(TimeDelta::hours(3), TimeDelta::hours(2)));
}

#[test]
fn test_zero_time_gap_handling() {
    assert!(is_impossible_travel(TimeDelta::zero(), TimeDelta::hours(4)));
}
