use badge_access_simulator::events::access_event::{AccessAttempt, AccessEvent, EventMetadata};
use badge_access_simulator::events::generator::{EventGenerator, EventUser, ScheduledUser, TravelLeg, TravelTable};
use badge_access_simulator::facility::building::Building;
use badge_access_simulator::facility::location::{Coordinates, Location};
use badge_access_simulator::facility::registry::LocationRegistry;
use badge_access_simulator::facility::room::Room;
use badge_access_simulator::permissions::permission_set::{PermissionLevel, PermissionSet};
use badge_access_simulator::schedule::ScheduledActivity;
use badge_access_simulator::simulation::error::SimulationError;
use badge_access_simulator::simulation::time_manager::TimeManager;
use badge_access_simulator::time::{TimeDelta, Timestamp};
use badge_access_simulator::types::{
    ActivityType, BuildingId, EventType, FailureReason, LocationId, RoomId, RoomType, SecurityLevel, UserId,
};

fn coords(latitude: f64, longitude: f64) -> Coordinates {
    Coordinates { latitude_bits: latitude.to_bits(), longitude_bits: longitude.to_bits() }
}

fn two_location_registry() -> LocationRegistry {
    let mut registry = LocationRegistry::new();
    for (name, lat, lon) in [("New York", 40.7128, -74.0060), ("Seattle", 47.6062, -122.3321)] {
        let mut location = Location::new(name.to_string(), coords(lat, lon));
        let mut building = Building::new(location.id, "Tower".to_string());
        building.add_room(Room::new(building.id, "Lobby".to_string(), RoomType::Lobby, SecurityLevel::Public));
        building.add_room(Room::new(building.id, "Lab".to_string(), RoomType::Laboratory, SecurityLevel::HighSecurity));
        location.add_building(building);
        registry.add_location(location);
    }
    registry
}

fn error_message(e: SimulationError) -> String {
    match e {
        SimulationError::EventGenerationError(m) => m,
        other => panic!("unexpected error {:?}", other),
    }
}

#[test]
fn test_badge_reader_failure_event_creation() {
    let location_registry = LocationRegistry::new();
    let time_manager = TimeManager::default();

    let _event_generator = EventGenerator::new(location_registry, time_manager);

    let user_id = UserId::new();
    let timestamp = Timestamp::now();
    let badge_reader_failure_event = AccessEvent::new_with_failure_info(
        timestamp,
        user_id,
        RoomId::new(),
        BuildingId::new(),
        LocationId::new(),
        false,
        EventType::Failure,
        Some(FailureReason::BadgeReaderError),
        Some(EventMetadata::badge_reader_failure(None)),
    );

    assert!(badge_reader_failure_event.is_badge_reader_failure());
    assert_eq!(badge_reader_failure_event.failure_reason, Some(FailureReason::BadgeReaderError));
    assert_eq!(badge_reader_failure_event.success, false);
    assert_eq!(badge_reader_failure_event.event_type, EventType::Failure);
}

#[test]
fn test_curious_event_creation() {
    let location_registry = LocationRegistry::new();
    let time_manager = TimeManager::default();

    let _event_generator = EventGenerator::new(location_registry, time_manager);

    let user_id = UserId::new();
    let room_id = RoomId::new();
    let building_id = BuildingId::new();
    let location_id = LocationId::new();
    let timestamp = Timestamp::now();

    let _unauthorized_activity =
        ScheduledActivity::new(ActivityType::UnauthorizedAccess, room_id, timestamp, TimeDelta::hours(1));

    let events = vec![
        AccessEvent::new(timestamp, user_id, room_id, building_id, location_id, false, EventType::Failure),
        AccessEvent::new(
            timestamp.plus(TimeDelta::minutes(5)),
            user_id,
            room_id,
            building_id,
            location_id,
            false,
            EventType::Failure,
        ),
    ];

    assert_eq!(events.len(), 2);
    assert_eq!(events[0].success, false);
    assert_eq!(events[0].event_type, EventType::Failure);
    assert_eq!(events[1].success, false);
    assert_eq!(events[1].event_type, EventType::Failure);
}

#[test]
fn minimal_event_follows_the_permissions() {
    let registry = two_location_registry();
    let location = registry.locations[0].id;
    let building = registry.locations[0].buildings[0].id;
    let lab = registry.locations[0].buildings[0].rooms[1].id;
    let generator = EventGenerator::new(registry, TimeManager::new());
    let user = UserId::new();
    let now = Timestamp::now();
    let activity = ScheduledActivity::new(ActivityType::Meeting, lab, now, TimeDelta::hours(1));

    let refused = generator.create_minimal_event(user, &PermissionSet::new(), &activity, now).unwrap();
    assert!(!refused.success);
    assert_eq!(refused.event_type, EventType::Failure);
    assert_eq!(refused.failure_reason, Some(FailureReason::SystemFailure));
    assert_eq!(refused.building_id, building);
    assert_eq!(refused.location_id, location);

    let mut permissions = PermissionSet::new();
    permissions.add_permission(PermissionLevel::Room(lab));
    let admitted = generator.create_minimal_event(user, &permissions, &activity, now).unwrap();
    assert!(admitted.success);
    assert_eq!(admitted.event_type, EventType::Success);
    assert_eq!(admitted.failure_reason, None);
    assert_eq!(admitted.timestamp, now);

    let stray = RoomId::new();
    let missing = ScheduledActivity::new(ActivityType::Meeting, stray, now, TimeDelta::hours(1));
    let error = generator.create_minimal_event(user, &permissions, &missing, now).unwrap_err();
    assert_eq!(error_message(error), format!("Room {} not found", stray.value));
}

#[test]
fn badge_reader_failure_then_retry() {
    let registry = two_location_registry();
    let lab = registry.locations[0].buildings[0].rooms[1].id;
    let mut generator = EventGenerator::new(registry, TimeManager::new());
    let user = UserId::new();
    let now = Timestamp::now();

    let refused = generator.generate_badge_reader_failure(user, &PermissionSet::new(), lab, now).unwrap_err();
    assert_eq!(error_message(refused), "Badge technical failures only occur on authorized access attempts");

    let mut permissions = PermissionSet::new();
    permissions.add_permission(PermissionLevel::Room(lab));
    let events = generator.generate_badge_reader_failure(user, &permissions, lab, now).unwrap();
    assert_eq!(events.len(), 2);
    assert!(events[0].is_badge_reader_failure());
    assert!(!events[0].success);
    assert_eq!(events[0].timestamp, now);
    assert_eq!(events[0].metadata.unwrap().retry_attempt_number, None);
    assert!(events[1].success);
    assert_eq!(events[1].failure_reason, None);
    assert_eq!(events[1].metadata.unwrap().retry_attempt_number, Some(1));
    let delay = events[1].timestamp.millis - now.millis;
    assert!((5_000..=30_000).contains(&delay));
}

#[test]
fn curious_users_try_rooms_they_may_not_enter() {
    let registry = two_location_registry();
    let location = registry.locations[0].id;
    let lobby = registry.locations[0].buildings[0].rooms[0].id;
    let lab = registry.locations[0].buildings[0].rooms[1].id;
    let mut generator = EventGenerator::new(registry, TimeManager::new());
    let user = UserId::new();
    let now = Timestamp::now();

    let mut permissions = PermissionSet::new();
    permissions.add_permission(PermissionLevel::Room(lobby));
    for _ in 0..10 {
        assert_eq!(generator.select_unauthorized_room_for_user(location, &permissions).unwrap(), lab);
        let event = generator.generate_curious_user_event(user, location, &permissions, now).unwrap();
        assert_eq!(event.room_id, lab);
        assert!(!event.success);
        assert_eq!(event.failure_reason, Some(FailureReason::CuriousUser));
        assert!(event.metadata.unwrap().is_curious_attempt);
        let delay = event.timestamp.millis - now.millis;
        assert!((60_000..=1_800_000).contains(&delay));
    }

    permissions.add_permission(PermissionLevel::Location(location));
    let none = generator.select_unauthorized_room_for_user(location, &permissions).unwrap_err();
    assert_eq!(error_message(none), "No unauthorized rooms available for curious user");
    let nowhere = generator.select_unauthorized_room_for_user(LocationId::new(), &permissions).unwrap_err();
    assert_eq!(error_message(nowhere), "No location for curious user");
}

#[test]
fn remote_rooms_lie_elsewhere() {
    let registry = two_location_registry();
    let here = registry.locations[0].id;
    let remote_rooms: Vec<RoomId> = registry.locations[1].buildings[0].rooms.iter().map(|r| r.id).collect();
    let mut generator = EventGenerator::new(registry, TimeManager::new());
    for _ in 0..10 {
        let room = generator.select_remote_location_room(here).unwrap();
        assert!(remote_rooms.contains(&room));
    }

    let mut lonely = LocationRegistry::new();
    let only = Location::new("Only".to_string(), coords(0.0, 0.0));
    let only_id = only.id;
    lonely.add_location(only);
    let mut generator = EventGenerator::new(lonely, TimeManager::new());
    let error = generator.select_remote_location_room(only_id).unwrap_err();
    assert_eq!(error_message(error), "No remote locations available for impossible traveler scenario");
}

#[test]
fn test_impossible_traveler_validation() {
    let mut location_registry = LocationRegistry::new();
    let time_manager = TimeManager::default();

    let location1 = Location::new("New York".to_string(), coords(40.7128, -74.0060));
    let location2 = Location::new("Los Angeles".to_string(), coords(34.0522, -118.2437));
    let location1_id = location1.id;
    let location2_id = location2.id;

    location_registry.add_location(location1);
    location_registry.add_location(location2);

    let event_generator = EventGenerator::new(location_registry, time_manager);

    // New York to Los Angeles is over 2000 km: at least eight hours of travel.
    let minimum_travel_time = TimeDelta::hours(8);

    let user_id = UserId::new();
    let room1_id = RoomId::new();
    let room2_id = RoomId::new();
    let building1_id = BuildingId::new();
    let building2_id = BuildingId::new();

    let base_time = Timestamp::now();

    let event1 = AccessEvent::new(base_time, user_id, room1_id, building1_id, location1_id, true, EventType::Success);
    let event2 = AccessEvent::new(
        base_time.plus(TimeDelta::hours(2)),
        user_id,
        room2_id,
        building2_id,
        location2_id,
        true,
        EventType::Success,
    );

    assert!(event_generator.validate_impossible_traveler_scenario(&event1, &event2, minimum_travel_time));

    let event3 = AccessEvent::new(
        base_time.plus(TimeDelta::hours(10)),
        user_id,
        room2_id,
        building2_id,
        location2_id,
        true,
        EventType::Success,
    );

    assert!(!event_generator.validate_impossible_traveler_scenario(&event1, &event3, minimum_travel_time));
}

fn single_room_setup() -> (EventGenerator, RoomId) {
    let mut location_registry = LocationRegistry::new();
    let time_manager = TimeManager::default();
    let mut location = Location::new("Test Location".to_string(), coords(40.7128, -74.0060));
    let mut building = Building::new(location.id, "Test Building".to_string());
    let room = Room::new(building.id, "Test Room".to_string(), RoomType::Workspace, SecurityLevel::Standard);
    let room_id = room.id;
    building.add_room(room);
    location.add_building(building);
    location_registry.add_location(location);
    (EventGenerator::new(location_registry, time_manager), room_id)
}

/// Today's date at the given hour, UTC.
fn today_at(hour: i64) -> Timestamp {
    let now = Timestamp::now();
    Timestamp::from_millis(now.day() * 86_400_000 + hour * 3_600_000)
}

#[test]
fn test_access_attempt_processing() {
    let (mut event_generator, room_id) = single_room_setup();
    let user_id = UserId::new();
    let timestamp = Timestamp::now();
    let attempt = AccessAttempt::new(user_id, room_id, true, timestamp);

    let mut success_found = false;
    for _ in 0..10 {
        let result = event_generator.process_access_attempt(false, &attempt);
        assert!(result.is_ok());
        let event = result.unwrap();
        assert_eq!(event.user_id, user_id);
        assert_eq!(event.room_id, room_id);
        assert_eq!(event.timestamp, timestamp);

        if event.success {
            assert_eq!(event.event_type, EventType::Success);
            success_found = true;
            break;
        } else {
            assert_eq!(event.event_type, EventType::Failure);
        }
    }

    assert!(success_found, "Access attempt should succeed at least once out of 10 tries");
}

#[test]
fn test_unauthorized_access_attempt() {
    let (mut event_generator, room_id) = single_room_setup();
    let user_id = UserId::new();
    let timestamp = Timestamp::now();
    let attempt = AccessAttempt::new(user_id, room_id, false, timestamp);

    let result = event_generator.process_access_attempt(false, &attempt);

    assert!(result.is_ok());
    let event = result.unwrap();
    assert_eq!(event.user_id, user_id);
    assert_eq!(event.room_id, room_id);
    assert_eq!(event.timestamp, timestamp);
    assert!(!event.success);
    assert_eq!(event.event_type, EventType::Failure);
}

#[test]
fn test_night_shift_event_classification() {
    let (mut event_generator, room_id) = single_room_setup();
    let user_id = UserId::new();
    let off_hours_timestamp = today_at(22);
    let attempt = AccessAttempt::new(user_id, room_id, true, off_hours_timestamp);

    let result = event_generator.process_access_attempt(true, &attempt);

    assert!(result.is_ok());
    let event = result.unwrap();
    assert_eq!(event.user_id, user_id);
    assert_eq!(event.room_id, room_id);
    assert_eq!(event.timestamp, off_hours_timestamp);

    assert!(event.metadata.is_some());
    let metadata = event.metadata.unwrap();
    assert!(metadata.is_night_shift_event);
    assert!(!metadata.is_curious_attempt);
    assert!(!metadata.is_impossible_traveler);
    assert!(!metadata.is_badge_reader_failure);
}

#[test]
fn test_regular_user_no_night_shift_classification() {
    let (mut event_generator, room_id) = single_room_setup();
    let user_id = UserId::new();
    let off_hours_timestamp = today_at(22);
    let attempt = AccessAttempt::new(user_id, room_id, true, off_hours_timestamp);

    let result = event_generator.process_access_attempt(false, &attempt);

    assert!(result.is_ok());
    let event = result.unwrap();
    assert_eq!(event.user_id, user_id);
    assert_eq!(event.room_id, room_id);
    assert_eq!(event.timestamp, off_hours_timestamp);

    if let Some(metadata) = event.metadata {
        assert!(!metadata.is_night_shift_event);
    }
}

#[test]
fn test_night_shift_user_during_business_hours() {
    let (mut event_generator, room_id) = single_room_setup();
    let user_id = UserId::new();
    let business_hours_timestamp = today_at(14);
    let attempt = AccessAttempt::new(user_id, room_id, true, business_hours_timestamp);

    let result = event_generator.process_access_attempt(true, &attempt);

    assert!(result.is_ok());
    let event = result.unwrap();
    assert_eq!(event.user_id, user_id);
    assert_eq!(event.room_id, room_id);
    assert_eq!(event.timestamp, business_hours_timestamp);

    if let Some(metadata) = event.metadata {
        assert!(!metadata.is_night_shift_event);
    }
}

#[test]
fn restricted_rooms_refuse_out_of_hours() {
    let mut registry = LocationRegistry::new();
    let mut location = Location::new("L".to_string(), coords(0.0, 0.0));
    let mut building = Building::new(location.id, "B".to_string());
    let server = Room::new(building.id, "Servers".to_string(), RoomType::ServerRoom, SecurityLevel::HighSecurity);
    let server_id = server.id;
    building.add_room(server);
    location.add_building(building);
    registry.add_location(location);
    let mut generator = EventGenerator::new(registry, TimeManager::new());
    let attempt = AccessAttempt::new(UserId::new(), server_id, true, today_at(22));
    let event = generator.process_access_attempt(false, &attempt).unwrap();
    assert!(!event.success);
    assert_eq!(event.event_type, EventType::OutsideHours);
    assert!(generator.requires_business_hours_access_for_type(RoomType::Laboratory));
    assert!(!generator.requires_business_hours_access_for_type(RoomType::Workspace));
}

#[test]
fn impossible_traveler_event_lands_elsewhere_later() {
    let registry = two_location_registry();
    let here = registry.locations[0].id;
    let mut generator = EventGenerator::new(registry, TimeManager::new());
    let user = UserId::new();
    let now = Timestamp::now();
    let event = generator.generate_impossible_traveler_event(user, here, false, &PermissionSet::new(), now).unwrap();
    assert_eq!(event.user_id, user);
    assert_ne!(event.location_id, here);
    assert!(!event.success);
    let delay = event.timestamp.millis - now.millis;
    assert!((60_000..=10_800_000).contains(&delay));
}

#[test]
fn test_event_creation_with_different_types() {
    let location_registry = LocationRegistry::new();
    let time_manager = TimeManager::default();
    let _event_generator = EventGenerator::new(location_registry, time_manager);

    let user_id = UserId::new();
    let room_id = RoomId::new();
    let building_id = BuildingId::new();
    let location_id = LocationId::new();
    let timestamp = Timestamp::now();

    let success_event = AccessEvent::new(timestamp, user_id, room_id, building_id, location_id, true, EventType::Success);
    let failure_event = AccessEvent::new(timestamp, user_id, room_id, building_id, location_id, false, EventType::Failure);
    let suspicious_event =
        AccessEvent::new(timestamp, user_id, room_id, building_id, location_id, false, EventType::Suspicious);

    assert_eq!(success_event.success, true);
    assert_eq!(success_event.event_type, EventType::Success);
    assert_eq!(failure_event.success, false);
    assert_eq!(failure_event.event_type, EventType::Failure);
    assert_eq!(suspicious_event.success, false);
    assert_eq!(suspicious_event.event_type, EventType::Suspicious);
}

#[test]
fn test_event_batch_creation() {
    let location_registry = LocationRegistry::new();
    let time_manager = TimeManager::default();
    let _event_generator = EventGenerator::new(location_registry, time_manager);

    let room_id = RoomId::new();
    let timestamp = Timestamp::now();
    let _meeting_activity = ScheduledActivity::new(ActivityType::Meeting, room_id, timestamp, TimeDelta::hours(1));

    let user_id = UserId::new();
    let building_id = BuildingId::new();
    let location_id = LocationId::new();

    let events = vec![
        AccessEvent::new(timestamp, user_id, room_id, building_id, location_id, true, EventType::Success),
        AccessEvent::new(
            timestamp.plus(TimeDelta::minutes(1)),
            user_id,
            room_id,
            building_id,
            location_id,
            false,
            EventType::OutsideHours,
        ),
        AccessEvent::new(
            timestamp.plus(TimeDelta::minutes(2)),
            user_id,
            room_id,
            building_id,
            location_id,
            false,
            EventType::InvalidBadge,
        ),
    ];

    assert_eq!(events.len(), 3);
    assert_eq!(events[0].success, true);
    assert_eq!(events[0].event_type, EventType::Success);
    assert_eq!(events[1].success, false);
    assert_eq!(events[1].event_type, EventType::OutsideHours);
    assert_eq!(events[2].success, false);
    assert_eq!(events[2].event_type, EventType::InvalidBadge);
}

#[test]
fn test_event_generator_without_statistics_tracker() {
    let location_registry = LocationRegistry::new();
    let time_manager = TimeManager::default();
    let _event_generator = EventGenerator::new(location_registry, time_manager);

    let room_id = RoomId::new();
    let timestamp = Timestamp::now();
    let _activity = ScheduledActivity::new(ActivityType::Meeting, room_id, timestamp, TimeDelta::hours(1));

    let user_id = UserId::new();
    let events = vec![AccessEvent::new(
        timestamp,
        user_id,
        room_id,
        BuildingId::new(),
        LocationId::new(),
        true,
        EventType::Success,
    )];

    assert_eq!(events.len(), 1);
    assert_eq!(events[0].success, true);
    assert_eq!(events[0].event_type, EventType::Success);
}

#[test]
fn test_impossible_traveler_event_counting_from_generation() {
    let mut location_registry = LocationRegistry::new();
    let time_manager = TimeManager::default();

    let location1 = Location::new("New York".to_string(), coords(40.7128, -74.0060));
    let location2 = Location::new("Los Angeles".to_string(), coords(34.0522, -118.2437));
    let location1_id = location1.id;
    let location2_id = location2.id;

    let mut building1 = Building::new(location1_id, "NYC Building".to_string());
    let mut building2 = Building::new(location2_id, "LA Building".to_string());
    building1.add_room(Room::new(building1.id, "NYC Room".to_string(), RoomType::Workspace, SecurityLevel::Standard));
    building2.add_room(Room::new(building2.id, "LA Room".to_string(), RoomType::Workspace, SecurityLevel::Standard));
    location_registry.add_location(location1);
    location_registry.add_location(location2);

    let _event_generator = EventGenerator::new(location_registry, time_manager);

    let user_id = UserId::new();
    let base_time = Timestamp::now();
    let impossible_events = vec![
        AccessEvent::new(base_time, user_id, RoomId::new(), BuildingId::new(), location1_id, true, EventType::Success),
        AccessEvent::new(
            base_time.plus(TimeDelta::hours(2)),
            user_id,
            RoomId::new(),
            BuildingId::new(),
            location2_id,
            true,
            EventType::Success,
        ),
    ];

    assert_eq!(impossible_events.len(), 2);
    assert_eq!(impossible_events[0].user_id, user_id);
    assert_eq!(impossible_events[1].user_id, user_id);
    assert_eq!(impossible_events[0].location_id, location1_id);
    assert_eq!(impossible_events[1].location_id, location2_id);
    assert!(impossible_events[0].success);
    assert!(impossible_events[1].success);
}

/// Legs between every two locations of the registry: none of travel within
/// a location, `minutes` between two.
fn travel_table(registry: &LocationRegistry, minutes: i64) -> TravelTable {
    let mut legs = Vec::new();
    for a in &registry.locations {
        for b in &registry.locations {
            let (distance, time) = if a.id == b.id { (0.0f64, 0) } else { (3_870.0f64, minutes) };
            legs.push(TravelLeg {
                from: a.id,
                to: b.id,
                distance_km_bits: distance.to_bits(),
                minimum_travel_time: TimeDelta::minutes(time),
            });
        }
    }
    TravelTable { legs }
}

#[test]
fn travel_legs_are_found_by_their_ends() {
    let registry = two_location_registry();
    let table = travel_table(&registry, 480);
    let a = registry.locations[0].id;
    let b = registry.locations[1].id;
    assert_eq!(table.leg(a, b).unwrap().minimum_travel_time, TimeDelta::hours(8));
    assert_eq!(table.leg(a, a).unwrap().minimum_travel_time, TimeDelta::minutes(0));
    assert!(table.leg(a, LocationId::new()).is_none());
}

#[test]
fn authorized_rooms_come_from_the_grants() {
    let registry = two_location_registry();
    let ny = &registry.locations[0];
    let lab = ny.buildings[0].rooms[1].id;
    let lobby = ny.buildings[0].rooms[0].id;
    let workspace = RoomId::new();
    let location_id = ny.id;
    let mut generator = EventGenerator::new(registry, TimeManager::new());

    let mut only_lab = PermissionSet::new();
    only_lab.add_permission(PermissionLevel::Room(lab));
    let mut whole = PermissionSet::new();
    whole.add_permission(PermissionLevel::Location(location_id));
    for _ in 0..40 {
        let room = generator.select_authorized_room_for_user(workspace, &only_lab).unwrap();
        assert!(room == workspace || room == lab);
        let room = generator.select_authorized_room_for_user(workspace, &whole).unwrap();
        assert!(room == workspace || room == lab || room == lobby);
        match generator.select_authorized_room_for_user(workspace, &PermissionSet::new()) {
            Ok(room) => assert_eq!(room, workspace),
            Err(e) => assert_eq!(error_message(e), "No authorized rooms found for user"),
        }
    }
}

#[test]
fn simultaneous_events_make_an_impossible_traveler() {
    let registry = two_location_registry();
    let ny = registry.locations[0].id;
    let seattle = registry.locations[1].id;
    let workspace = registry.locations[0].buildings[0].rooms[0].id;
    let table = travel_table(&registry, 480);
    let mut permissions = PermissionSet::new();
    permissions.add_permission(PermissionLevel::Location(ny));
    let mut generator = EventGenerator::new(registry, TimeManager::new());
    let user_id = UserId::new();
    let t = Timestamp::now();
    for _ in 0..20 {
        let (p, q) = generator
            .generate_simultaneous_impossible_traveler_events(user_id, workspace, ny, &permissions, &table, t)
            .unwrap();
        assert_eq!(p.timestamp, t);
        assert!(p.success);
        assert_eq!(p.location_id, ny);
        assert_eq!(q.location_id, seattle);
        let gap = q.timestamp.millis - t.millis;
        assert!(gap >= 60_000 && gap <= 10_800_000 && gap % 60_000 == 0);
        assert!(!q.success);
        assert_eq!(q.event_type, EventType::Failure);
        assert_eq!(q.failure_reason, Some(FailureReason::ImpossibleTraveler));
        assert_eq!(
            q.metadata,
            Some(EventMetadata::impossible_traveler(TimeDelta::milliseconds(gap), 3_870.0f64.to_bits()))
        );
    }
}

#[test]
fn a_short_journey_is_no_impossible_traveler() {
    let registry = two_location_registry();
    let ny = registry.locations[0].id;
    let workspace = registry.locations[0].buildings[0].rooms[0].id;
    let table = travel_table(&registry, 30);
    let mut permissions = PermissionSet::new();
    permissions.add_permission(PermissionLevel::Location(ny));
    let mut generator = EventGenerator::new(registry, TimeManager::new());
    let t = Timestamp::now();
    for _ in 0..20 {
        match generator.generate_simultaneous_impossible_traveler_events(UserId::new(), workspace, ny, &permissions, &table, t) {
            Ok((_, q)) => assert!(q.timestamp.millis - t.millis < 30 * 60_000),
            Err(e) => assert_eq!(
                error_message(e),
                "Generated events do not constitute an impossible traveler scenario"
            ),
        }
    }
}

#[test]
fn enhanced_impossible_traveler_needs_a_cloned_badge() {
    let registry = two_location_registry();
    let ny = registry.locations[0].id;
    let workspace = registry.locations[0].buildings[0].rooms[0].id;
    let table = travel_table(&registry, 480);
    let permissions = PermissionSet::new();
    let mut generator = EventGenerator::new(registry, TimeManager::new());
    let user_id = UserId::new();
    let t = Timestamp::now();
    let error = generator
        .generate_enhanced_impossible_traveler_event(user_id, workspace, ny, false, &permissions, &table, t)
        .unwrap_err();
    assert_eq!(error_message(error), "User does not have a cloned badge");
    for _ in 0..10 {
        match generator.generate_enhanced_impossible_traveler_event(user_id, workspace, ny, true, &permissions, &table, t) {
            Ok(events) => {
                assert_eq!(events.len(), 2);
                assert_ne!(events[0].location_id, events[1].location_id);
                assert!(events.iter().all(|e| e.user_id == user_id));
            }
            Err(e) => assert_eq!(error_message(e), "No authorized rooms found for user"),
        }
    }
}

#[test]
fn attempts_walk_the_access_flow() {
    let registry = two_location_registry();
    let ny = registry.locations[0].id;
    let lobby = registry.locations[0].buildings[0].rooms[0].id;
    let lab = registry.locations[0].buildings[0].rooms[1].id;
    let mut permissions = PermissionSet::new();
    permissions.add_permission(PermissionLevel::Room(lobby));
    let mut generator = EventGenerator::new(registry, TimeManager::new());
    let user_id = UserId::new();
    let t = Timestamp::now();
    let attempts = generator.generate_access_attempts_for_room(user_id, &permissions, None, lab, t).unwrap();
    assert_eq!(attempts.len(), 2);
    assert_eq!(attempts[0], AccessAttempt::new(user_id, lobby, true, t));
    assert_eq!(attempts[1], AccessAttempt::new(user_id, lab, false, t.plus(TimeDelta::seconds(30))));
    let _ = ny;
    let error = generator
        .generate_access_attempts_for_room(user_id, &permissions, None, RoomId::new(), t)
        .unwrap_err();
    assert!(error_message(error).starts_with("Target room "));
}

#[test]
fn activity_events_belong_to_the_user_in_order() {
    let registry = two_location_registry();
    let ny = registry.locations[0].id;
    let lobby = registry.locations[0].buildings[0].rooms[0].id;
    let lab = registry.locations[0].buildings[0].rooms[1].id;
    let table = travel_table(&registry, 480);
    let mut permissions = PermissionSet::new();
    permissions.add_permission(PermissionLevel::Location(ny));
    let mut generator = EventGenerator::new(registry, TimeManager::new());
    let user = EventUser {
        user_id: UserId::new(),
        primary_workspace: lobby,
        primary_location: ny,
        current_location: ny,
        current_room: None,
        is_curious: false,
        is_night_shift: false,
        has_cloned_badge: false,
    };
    let t = Timestamp::now();
    let activity = ScheduledActivity::new(ActivityType::Meeting, lab, t, TimeDelta::hours(1));
    for _ in 0..10 {
        let events = generator.generate_events_internal(&user, &permissions, &table, &activity, t).unwrap();
        assert!(events.len() == 2 || events.len() == 3);
        assert!(events.iter().all(|e| e.user_id == user.user_id));
        assert_eq!(events[0].room_id, lobby);

        let events = generator.generate_events_from_activity(&user, &permissions, &table, &activity, t).unwrap();
        assert!(events.len() <= 3);
        assert!(events.iter().all(|e| e.user_id == user.user_id));
        assert!(events.windows(2).all(|w| w[0].timestamp.millis < w[1].timestamp.millis));
    }
}

#[test]
fn cloned_badges_show_in_time_order() {
    let registry = two_location_registry();
    let ny = registry.locations[0].id;
    let seattle = registry.locations[1].id;
    let room = RoomId::new();
    let building = BuildingId::new();
    let table = travel_table(&registry, 480);
    let generator = EventGenerator::new(registry, TimeManager::new());
    let t = Timestamp::now();
    let at = |user: UserId, hours: i64, location: LocationId| {
        AccessEvent::new(t.plus(TimeDelta::hours(hours)), user, room, building, location, true, EventType::Success)
    };
    let cloned = UserId::new();
    let commuter = UserId::new();
    let homebody = UserId::new();
    let events = vec![
        at(cloned, 2, seattle),
        at(commuter, 10, seattle),
        at(homebody, 1, ny),
        at(cloned, 0, ny),
        at(commuter, 0, ny),
        at(homebody, 0, ny),
    ];
    let day = TimeDelta::hours(24);
    let mine: Vec<AccessEvent> = events.iter().copied().filter(|e| e.user_id == cloned).collect();
    assert!(generator.has_impossible_traveler_pattern(&mine, day, &table));
    assert!(!generator.has_impossible_traveler_pattern(&mine, TimeDelta::hours(1), &table));
    let theirs: Vec<AccessEvent> = events.iter().copied().filter(|e| e.user_id == commuter).collect();
    assert!(!generator.has_impossible_traveler_pattern(&theirs, day, &table));
    assert!(!generator.has_impossible_traveler_pattern(&[], day, &table));
    assert_eq!(generator.detect_badge_cloning_from_events(&events, day, &table), vec![cloned]);
    assert!(generator.detect_badge_cloning_from_events(&events, TimeDelta::hours(1), &table).is_empty());
}

#[test]
fn event_sequence_covers_the_span_in_time_order() {
    let registry = two_location_registry();
    let ny = registry.locations[0].id;
    let lobby = registry.locations[0].buildings[0].rooms[0].id;
    let lab = registry.locations[0].buildings[0].rooms[1].id;
    let table = travel_table(&registry, 480);
    let mut permissions = PermissionSet::new();
    permissions.add_permission(PermissionLevel::Location(ny));
    let mut generator = EventGenerator::new(registry, TimeManager::new());
    let start = today_at(9);
    let make_user = |schedule: Vec<ScheduledActivity>| ScheduledUser {
        user: EventUser {
            user_id: UserId::new(),
            primary_workspace: lobby,
            primary_location: ny,
            current_location: ny,
            current_room: None,
            is_curious: false,
            is_night_shift: false,
            has_cloned_badge: false,
        },
        permissions: permissions.clone(),
        daily_schedule: schedule,
    };
    let users = vec![
        make_user(vec![
            ScheduledActivity::new(ActivityType::Meeting, lab, start.plus(TimeDelta::minutes(30)), TimeDelta::hours(1)),
            ScheduledActivity::new(ActivityType::Lunch, lobby, start.plus(TimeDelta::hours(5)), TimeDelta::hours(1)),
        ]),
        make_user(vec![ScheduledActivity::new(ActivityType::Arrival, lobby, start, TimeDelta::minutes(15))]),
    ];
    let events = generator.generate_event_sequence(&users, &table, start, TimeDelta::hours(2)).unwrap();
    assert!(events.len() >= 3 && events.len() <= 6);
    assert!(events.windows(2).all(|w| w[0].timestamp.millis <= w[1].timestamp.millis));
    let ids = [users[0].user.user_id, users[1].user.user_id];
    assert!(events.iter().all(|e| ids.contains(&e.user_id)));
    assert!(events.iter().all(|e| e.timestamp.millis < start.plus(TimeDelta::hours(3)).millis));
}

#[test]
fn activity_at_an_unknown_room_fails_with_the_minimal_event() {
    let registry = two_location_registry();
    let ny = registry.locations[0].id;
    let lobby = registry.locations[0].buildings[0].rooms[0].id;
    let table = travel_table(&registry, 480);
    let mut generator = EventGenerator::new(registry, TimeManager::new());
    let user = EventUser {
        user_id: UserId::new(),
        primary_workspace: lobby,
        primary_location: ny,
        current_location: ny,
        current_room: None,
        is_curious: false,
        is_night_shift: false,
        has_cloned_badge: false,
    };
    let nowhere = RoomId::from_value(42);
    let t = Timestamp::now();
    let activity = ScheduledActivity::new(ActivityType::Meeting, nowhere, t, TimeDelta::hours(1));
    let internal = generator.generate_events_internal(&user, &PermissionSet::new(), &table, &activity, t).unwrap_err();
    assert_eq!(error_message(internal), "Target room 42 not found in any location");
    let error = generator.generate_events_from_activity(&user, &PermissionSet::new(), &table, &activity, t).unwrap_err();
    assert_eq!(error_message(error), "Room 42 not found");
}

#[test]
fn time_step_makes_events_for_activities_just_started() {
    let registry = two_location_registry();
    let ny = registry.locations[0].id;
    let lobby = registry.locations[0].buildings[0].rooms[0].id;
    let lab = registry.locations[0].buildings[0].rooms[1].id;
    let table = travel_table(&registry, 480);
    let mut permissions = PermissionSet::new();
    permissions.add_permission(PermissionLevel::Location(ny));
    let mut generator = EventGenerator::new(registry, TimeManager::new());
    let now = Timestamp::from_millis(19_737 * 86_400_000 + 10 * 3_600_000);
    let make_user = |schedule: Vec<ScheduledActivity>| ScheduledUser {
        user: EventUser {
            user_id: UserId::new(),
            primary_workspace: lobby,
            primary_location: ny,
            current_location: ny,
            current_room: None,
            is_curious: false,
            is_night_shift: false,
            has_cloned_badge: false,
        },
        permissions: permissions.clone(),
        daily_schedule: schedule,
    };
    let users = vec![
        // Started 30 seconds ago: its events are made.
        make_user(vec![ScheduledActivity::new(ActivityType::Meeting, lab, now.plus(TimeDelta::seconds(-30)), TimeDelta::hours(1))]),
        // Under way for two minutes: nothing new.
        make_user(vec![ScheduledActivity::new(ActivityType::Meeting, lab, now.plus(TimeDelta::minutes(-2)), TimeDelta::hours(1))]),
        // Nothing under way.
        make_user(vec![ScheduledActivity::new(ActivityType::Lunch, lobby, now.plus(TimeDelta::hours(2)), TimeDelta::hours(1))]),
        make_user(Vec::new()),
    ];
    let events = generator.generate_events_for_timestep(&users, &table, now).unwrap();
    // A walk through the lobby to the lab: one or two events per door.
    assert!(events.len() >= 2 && events.len() <= 4);
    assert!(events.iter().all(|e| e.user_id == users[0].user.user_id));
    assert!(events.iter().all(|e| e.timestamp.millis >= now.millis));
}

#[test]
fn every_door_of_the_walk_gives_an_event() {
    let registry = two_location_registry();
    let ny = registry.locations[0].id;
    let lobby = registry.locations[0].buildings[0].rooms[0].id;
    let lab = registry.locations[0].buildings[0].rooms[1].id;
    let table = travel_table(&registry, 480);
    let mut permissions = PermissionSet::new();
    permissions.add_permission(PermissionLevel::Location(ny));
    let mut generator = EventGenerator::new(registry, TimeManager::new());
    let user = EventUser {
        user_id: UserId::new(),
        primary_workspace: lobby,
        primary_location: ny,
        current_location: ny,
        current_room: None,
        is_curious: false,
        is_night_shift: false,
        has_cloned_badge: false,
    };
    let t = Timestamp::from_millis(19_737 * 86_400_000 + 9 * 3_600_000);
    let activity = ScheduledActivity::new(ActivityType::Meeting, lab, t, TimeDelta::hours(1));
    for _ in 0..50 {
        let events = generator.generate_events_internal(&user, &permissions, &table, &activity, t).unwrap();
        // The lobby, then the lab: each door gives its event, or a reader failure and its retry.
        assert!(events.len() >= 2 && events.len() <= 4);
        assert_eq!(events[0].room_id, lobby);
        assert_eq!(events[events.len() - 1].room_id, lab);
    }
}

#[test]
fn flows_are_checked_before_walking() {
    let registry = two_location_registry();
    let lab = registry.locations[0].buildings[0].rooms[1].id;
    let mut generator = EventGenerator::new(registry, TimeManager::new());
    let t = Timestamp::from_millis(19_737 * 86_400_000);
    assert!(generator.check_flow_walkable(None, lab, t));
    // A room no location holds has no flow, so nothing can go wrong walking it.
    assert!(generator.check_flow_walkable(None, RoomId::new(), t));
    // Too close to the end of time for the walk to fit.
    assert!(!generator.check_flow_walkable(None, lab, Timestamp::from_millis(i64::MAX / 2)));
}
