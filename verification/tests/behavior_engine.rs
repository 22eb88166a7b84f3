use badge_access_simulator::facility::building::Building;
use badge_access_simulator::facility::location::{Coordinates, Location};
use badge_access_simulator::facility::registry::LocationRegistry;
use badge_access_simulator::facility::room::Room;
use badge_access_simulator::permissions::permission_set::{PermissionLevel, PermissionSet};
use badge_access_simulator::schedule::ScheduledActivity;
use badge_access_simulator::simulation::behavior_engine::{
    BehaviorEngine, ConflictResolution, DayDraws, DayShiftUser, MeetingReach, TravelTimeConstants,
};
use badge_access_simulator::simulation::error::SimulationError;
use badge_access_simulator::simulation::time_manager::TimeManager;
use badge_access_simulator::time::{TimeDelta, Timestamp};
use badge_access_simulator::types::{
    ActivityType, BuildingId, LocationId, RoomId, RoomType, SecurityLevel, UserId,
};

fn coords(latitude: f64, longitude: f64) -> Coordinates {
    Coordinates { latitude_bits: latitude.to_bits(), longitude_bits: longitude.to_bits() }
}

fn new_engine() -> BehaviorEngine {
    BehaviorEngine::new(TimeManager::new())
}

fn create_test_registry() -> LocationRegistry {
    let mut registry = LocationRegistry::new();

    let mut location1 = Location::new("Seattle".to_string(), coords(47.6062, -122.3321));

    let mut building1 = Building::new(location1.id, "Building A".to_string());
    let room1 = Room::new(building1.id, "Room 1A".to_string(), RoomType::Workspace, SecurityLevel::Public);
    let room2 = Room::new(building1.id, "Room 2A".to_string(), RoomType::MeetingRoom, SecurityLevel::Public);
    building1.add_room(room1);
    building1.add_room(room2);

    let mut building2 = Building::new(location1.id, "Building B".to_string());
    let room3 = Room::new(building2.id, "Room 1B".to_string(), RoomType::Workspace, SecurityLevel::Public);
    building2.add_room(room3);

    location1.add_building(building1);
    location1.add_building(building2);

    let mut location2 = Location::new("Portland".to_string(), coords(45.5152, -122.6784));

    let mut building3 = Building::new(location2.id, "Building C".to_string());
    let room4 = Room::new(building3.id, "Room 1C".to_string(), RoomType::Workspace, SecurityLevel::Public);
    building3.add_room(room4);

    location2.add_building(building3);

    registry.add_location(location1);
    registry.add_location(location2);

    registry
}

fn base_time() -> Timestamp {
    // 2024-01-15T09:00:00Z
    Timestamp::from_millis(1_705_309_200_000)
}

fn at(base: Timestamp, delta: TimeDelta) -> Timestamp {
    base.plus(delta)
}

#[test]
fn test_travel_time_constants_default() {
    let constants = TravelTimeConstants::default();

    assert_eq!(constants.cross_location_travel_time, TimeDelta::hours(4));
    assert_eq!(constants.intra_location_building_travel_time.0, TimeDelta::minutes(15));
    assert_eq!(constants.intra_location_building_travel_time.1, TimeDelta::minutes(30));
    assert_eq!(constants.scheduling_buffer_time, TimeDelta::minutes(5));
}

#[test]
fn test_calculate_minimum_travel_time_same_building() {
    let engine = new_engine();
    let location_id = LocationId::new();
    let building_id = BuildingId::new();

    let travel_time = engine.calculate_minimum_travel_time(
        location_id,
        location_id,
        Some(building_id),
        Some(building_id),
    );

    assert_eq!(travel_time, TimeDelta::zero());
}

#[test]
fn test_calculate_minimum_travel_time_different_buildings_same_location() {
    let engine = new_engine();
    let location_id = LocationId::new();
    let building1_id = BuildingId::new();
    let building2_id = BuildingId::new();

    let travel_time = engine.calculate_minimum_travel_time(
        location_id,
        location_id,
        Some(building1_id),
        Some(building2_id),
    );

    assert_eq!(travel_time, TimeDelta::minutes(30));
}

#[test]
fn test_calculate_minimum_travel_time_different_locations() {
    let engine = new_engine();
    let location1_id = LocationId::new();
    let location2_id = LocationId::new();
    let building1_id = BuildingId::new();
    let building2_id = BuildingId::new();

    let travel_time = engine.calculate_minimum_travel_time(
        location1_id,
        location2_id,
        Some(building1_id),
        Some(building2_id),
    );

    assert_eq!(travel_time, TimeDelta::hours(4));
}

#[test]
fn test_calculate_minimum_travel_time_unknown_buildings() {
    let engine = new_engine();
    let location_id = LocationId::new();

    let travel_time = engine.calculate_minimum_travel_time(location_id, location_id, None, None);
    assert_eq!(travel_time, TimeDelta::minutes(30));

    let travel_time2 =
        engine.calculate_minimum_travel_time(location_id, location_id, Some(BuildingId::new()), None);
    assert_eq!(travel_time2, TimeDelta::minutes(30));
}

#[test]
fn test_get_room_location_info() {
    let engine = new_engine();
    let registry = create_test_registry();

    let location = &registry.locations[0];
    let building = &location.buildings[0];
    let room = &building.rooms[0];

    let result = engine.get_room_location_info(room.id, &registry);

    assert!(result.is_some());
    let (found_location, found_building) = result.unwrap();
    assert_eq!(found_location, location.id);
    assert_eq!(found_building, building.id);
}

#[test]
fn test_get_room_location_info_not_found() {
    let engine = new_engine();
    let registry = create_test_registry();

    let nonexistent_room = RoomId::new();
    let result = engine.get_room_location_info(nonexistent_room, &registry);

    assert!(result.is_none());
}

#[test]
fn test_get_last_activity_location() {
    let engine = new_engine();
    let registry = create_test_registry();

    let location = &registry.locations[0];
    let building = &location.buildings[0];
    let room1 = &building.rooms[0];
    let room2 = &building.rooms[1];

    let base = base_time();
    let schedule = vec![
        ScheduledActivity::new(ActivityType::Arrival, room1.id, base, TimeDelta::hours(1)),
        ScheduledActivity::new(
            ActivityType::Meeting,
            room2.id,
            at(base, TimeDelta::hours(2)),
            TimeDelta::hours(1),
        ),
    ];

    let query_time = at(base, TimeDelta::hours(1).plus(TimeDelta::minutes(30)));
    let result = engine.get_last_activity_location(&schedule, query_time, &registry);

    assert!(result.is_some());
    let (found_location, found_building) = result.unwrap();
    assert_eq!(found_location, location.id);
    assert_eq!(found_building, building.id);
}

#[test]
fn test_get_last_activity_location_no_previous_activity() {
    let engine = new_engine();
    let registry = create_test_registry();

    let base = base_time();
    let room_id = registry.locations[0].buildings[0].rooms[0].id;
    let schedule = vec![ScheduledActivity::new(
        ActivityType::Meeting,
        room_id,
        at(base, TimeDelta::hours(2)),
        TimeDelta::hours(1),
    )];

    let result = engine.get_last_activity_location(&schedule, base, &registry);

    assert!(result.is_none());
}

#[test]
fn test_get_last_activity_location_empty_schedule() {
    let engine = new_engine();
    let registry = create_test_registry();

    let schedule: Vec<ScheduledActivity> = vec![];
    let result = engine.get_last_activity_location(&schedule, Timestamp::now(), &registry);

    assert!(result.is_none());
}

#[test]
fn test_get_last_activity_location_multiple_activities() {
    let engine = new_engine();
    let registry = create_test_registry();

    let location = &registry.locations[0];
    let building1 = &location.buildings[0];
    let building2 = &location.buildings[1];
    let room1 = &building1.rooms[0];
    let room2 = &building2.rooms[0];

    let base = base_time();
    let schedule = vec![
        ScheduledActivity::new(ActivityType::Arrival, room1.id, base, TimeDelta::hours(1)),
        ScheduledActivity::new(
            ActivityType::Meeting,
            room2.id,
            at(base, TimeDelta::hours(2)),
            TimeDelta::hours(1),
        ),
        ScheduledActivity::new(
            ActivityType::Lunch,
            room1.id,
            at(base, TimeDelta::hours(4)),
            TimeDelta::hours(1),
        ),
    ];

    let query_time = at(base, TimeDelta::hours(3).plus(TimeDelta::minutes(30)));
    let result = engine.get_last_activity_location(&schedule, query_time, &registry);

    assert!(result.is_some());
    let (found_location, found_building) = result.unwrap();
    assert_eq!(found_location, location.id);
    assert_eq!(found_building, building2.id);
}

#[test]
fn test_travel_time_integration_cross_location() {
    let engine = new_engine();
    let registry = create_test_registry();

    let location1 = &registry.locations[0];
    let location2 = &registry.locations[1];
    let room1 = &location1.buildings[0].rooms[0];
    let room2 = &location2.buildings[0].rooms[0];

    let base = base_time();
    let schedule = vec![ScheduledActivity::new(ActivityType::Meeting, room1.id, base, TimeDelta::hours(1))];

    let query_time = at(base, TimeDelta::hours(2));
    let last_location = engine.get_last_activity_location(&schedule, query_time, &registry);
    assert!(last_location.is_some());

    let (from_location, from_building) = last_location.unwrap();
    let (to_location, to_building) = engine.get_room_location_info(room2.id, &registry).unwrap();

    let travel_time = engine.calculate_minimum_travel_time(
        from_location,
        to_location,
        Some(from_building),
        Some(to_building),
    );

    assert_eq!(travel_time, TimeDelta::hours(4));
}

#[test]
fn test_travel_time_integration_intra_location() {
    let engine = new_engine();
    let registry = create_test_registry();

    let location = &registry.locations[0];
    let room1 = &location.buildings[0].rooms[0];
    let room2 = &location.buildings[1].rooms[0];

    let base = base_time();
    let schedule = vec![ScheduledActivity::new(ActivityType::Meeting, room1.id, base, TimeDelta::hours(1))];

    let query_time = at(base, TimeDelta::hours(2));
    let last_location = engine.get_last_activity_location(&schedule, query_time, &registry);
    assert!(last_location.is_some());

    let (from_location, from_building) = last_location.unwrap();
    let (to_location, to_building) = engine.get_room_location_info(room2.id, &registry).unwrap();

    let travel_time = engine.calculate_minimum_travel_time(
        from_location,
        to_location,
        Some(from_building),
        Some(to_building),
    );

    assert_eq!(travel_time, TimeDelta::minutes(30));
}

#[test]
fn test_track_user_daily_location_first_time() {
    let mut engine = new_engine();
    let user_id = UserId::new();
    let location_id = LocationId::new();

    let result = engine.track_user_daily_location(user_id, location_id);
    assert_eq!(result, location_id);

    assert_eq!(engine.tracked_location(user_id), Some(location_id));
}

#[test]
fn test_track_user_daily_location_same_location() {
    let mut engine = new_engine();
    let user_id = UserId::new();
    let location_id = LocationId::new();

    engine.track_user_daily_location(user_id, location_id);

    let result = engine.track_user_daily_location(user_id, location_id);
    assert_eq!(result, location_id);

    assert_eq!(engine.tracked_location(user_id), Some(location_id));
}

#[test]
fn test_track_user_daily_location_cross_location_travel() {
    let mut engine = new_engine();
    let user_id = UserId::new();
    let location1_id = LocationId::new();
    let location2_id = LocationId::new();

    engine.track_user_daily_location(user_id, location1_id);
    assert_eq!(engine.tracked_location(user_id), Some(location1_id));

    let result = engine.track_user_daily_location(user_id, location2_id);
    assert_eq!(result, location2_id);

    assert_eq!(engine.tracked_location(user_id), Some(location2_id));
}

#[test]
fn test_has_traveled_cross_location_today_no_travel() {
    let engine = new_engine();
    let registry = create_test_registry();
    let user_id = UserId::new();

    let location = &registry.locations[0];
    let room1 = &location.buildings[0].rooms[0];
    let room2 = &location.buildings[0].rooms[1];

    let base = base_time();
    let schedule = vec![
        ScheduledActivity::new(ActivityType::Arrival, room1.id, base, TimeDelta::hours(1)),
        ScheduledActivity::new(
            ActivityType::Meeting,
            room2.id,
            at(base, TimeDelta::hours(2)),
            TimeDelta::hours(1),
        ),
    ];

    let result = engine.has_traveled_cross_location_today(user_id, &schedule, &registry);
    assert!(result.is_none());
}

#[test]
fn test_has_traveled_cross_location_today_with_travel() {
    let engine = new_engine();
    let registry = create_test_registry();
    let user_id = UserId::new();

    let location1 = &registry.locations[0];
    let location2 = &registry.locations[1];
    let room1 = &location1.buildings[0].rooms[0];
    let room2 = &location2.buildings[0].rooms[0];

    let base = base_time();
    let schedule = vec![
        ScheduledActivity::new(ActivityType::Arrival, room1.id, base, TimeDelta::hours(1)),
        ScheduledActivity::new(
            ActivityType::Meeting,
            room2.id,
            at(base, TimeDelta::hours(5)),
            TimeDelta::hours(1),
        ),
    ];

    let result = engine.has_traveled_cross_location_today(user_id, &schedule, &registry);
    assert!(result.is_some());
    assert_eq!(result.unwrap(), location2.id);
}

#[test]
fn test_has_traveled_cross_location_today_with_tracking() {
    let mut engine = new_engine();
    let registry = create_test_registry();
    let user_id = UserId::new();
    let location1 = &registry.locations[0];
    let location2 = &registry.locations[1];

    let room1 = &location1.buildings[0].rooms[0];
    let base = base_time();
    let schedule = vec![ScheduledActivity::new(ActivityType::Arrival, room1.id, base, TimeDelta::hours(1))];

    engine.track_user_daily_location(user_id, location2.id);

    let result = engine.has_traveled_cross_location_today(user_id, &schedule, &registry);
    assert!(result.is_some());
    assert_eq!(result.unwrap(), location2.id);
}

#[test]
fn test_constrain_activity_location_no_constraint() {
    let engine = new_engine();
    let preferred_location = LocationId::new();

    let result = engine.constrain_activity_location(preferred_location, None);
    assert_eq!(result, preferred_location);
}

#[test]
fn test_constrain_activity_location_with_constraint_same_location() {
    let engine = new_engine();
    let location_id = LocationId::new();

    let result = engine.constrain_activity_location(location_id, Some(location_id));
    assert_eq!(result, location_id);
}

#[test]
fn test_constrain_activity_location_with_constraint_different_location() {
    let engine = new_engine();
    let preferred_location = LocationId::new();
    let constrained_location = LocationId::new();

    let result = engine.constrain_activity_location(preferred_location, Some(constrained_location));
    assert_eq!(result, constrained_location);
}

#[test]
fn test_get_departure_location_no_cross_location_travel() {
    let engine = new_engine();
    let registry = create_test_registry();

    let location = &registry.locations[0];
    let room = &location.buildings[0].rooms[0];
    let user_id = UserId::new();

    let base = base_time();
    let schedule = vec![ScheduledActivity::new(ActivityType::Arrival, room.id, base, TimeDelta::hours(1))];

    let result = engine.get_departure_location(user_id, location.id, &schedule, &registry);
    assert_eq!(result, location.id);
}

#[test]
fn test_get_departure_location_with_cross_location_travel() {
    let mut engine = new_engine();
    let registry = create_test_registry();

    let location1 = &registry.locations[0];
    let location2 = &registry.locations[1];
    let room1 = &location1.buildings[0].rooms[0];
    let user_id = UserId::new();

    engine.track_user_daily_location(user_id, location2.id);

    let base = base_time();
    let schedule = vec![ScheduledActivity::new(ActivityType::Arrival, room1.id, base, TimeDelta::hours(1))];

    let result = engine.get_departure_location(user_id, location1.id, &schedule, &registry);
    assert_eq!(result, location2.id);
}

#[test]
fn test_select_departure_room_primary_location() {
    let mut engine = new_engine();
    let registry = create_test_registry();

    let location = &registry.locations[0];
    let room = &location.buildings[0].rooms[0];
    let permissions = PermissionSet::new();
    let user_id = UserId::new();

    let base = base_time();
    let schedule = vec![ScheduledActivity::new(ActivityType::Arrival, room.id, base, TimeDelta::hours(1))];

    let result = engine.select_departure_room(user_id, location.id, room.id, &permissions, &schedule, &registry);
    assert_eq!(result, room.id);
}

#[test]
fn test_select_departure_room_destination_location() {
    let mut engine = new_engine();
    let registry = create_test_registry();

    let location1 = &registry.locations[0];
    let location2 = &registry.locations[1];
    let room1 = &location1.buildings[0].rooms[0];
    let mut permissions = PermissionSet::new();
    let user_id = UserId::new();

    permissions.add_permission(PermissionLevel::Location(location2.id));

    engine.track_user_daily_location(user_id, location2.id);

    let base = base_time();
    let schedule = vec![ScheduledActivity::new(ActivityType::Arrival, room1.id, base, TimeDelta::hours(1))];

    let result = engine.select_departure_room(user_id, location1.id, room1.id, &permissions, &schedule, &registry);

    let (result_location, _) = engine.get_room_location_info(result, &registry).unwrap();
    assert_eq!(result_location, location2.id);
}

#[test]
fn test_clear_daily_location_tracking() {
    let mut engine = new_engine();

    let user1_id = UserId::new();
    let user2_id = UserId::new();
    let location1_id = LocationId::new();
    let location2_id = LocationId::new();

    engine.track_user_daily_location(user1_id, location1_id);
    engine.track_user_daily_location(user2_id, location2_id);

    assert_eq!(engine.tracked_location(user1_id), Some(location1_id));
    assert_eq!(engine.tracked_location(user2_id), Some(location2_id));

    engine.clear_daily_location_tracking();

    assert!(engine.tracked_location(user1_id).is_none());
    assert!(engine.tracked_location(user2_id).is_none());
}

#[test]
fn test_location_persistence_integration() {
    let mut engine = new_engine();
    let registry = create_test_registry();

    let location1 = &registry.locations[0];
    let location2 = &registry.locations[1];
    let room1 = &location1.buildings[0].rooms[0];
    let mut permissions = PermissionSet::new();
    let user_id = UserId::new();

    permissions.add_permission(PermissionLevel::Location(location1.id));
    permissions.add_permission(PermissionLevel::Location(location2.id));

    engine.track_user_daily_location(user_id, location1.id);
    engine.track_user_daily_location(user_id, location2.id);

    let base = base_time();
    let schedule = vec![ScheduledActivity::new(ActivityType::Arrival, room1.id, base, TimeDelta::hours(1))];

    let cross_location_result = engine.has_traveled_cross_location_today(user_id, &schedule, &registry);
    assert!(cross_location_result.is_some());
    assert_eq!(cross_location_result.unwrap(), location2.id);

    let constrained_location = engine.constrain_activity_location(location1.id, cross_location_result);
    assert_eq!(constrained_location, location2.id);

    let departure_location = engine.get_departure_location(user_id, location1.id, &schedule, &registry);
    assert_eq!(departure_location, location2.id);

    let departure_room =
        engine.select_departure_room(user_id, location1.id, room1.id, &permissions, &schedule, &registry);
    let (departure_room_location, _) = engine.get_room_location_info(departure_room, &registry).unwrap();
    assert_eq!(departure_room_location, location2.id);
}

#[test]
fn test_calculate_earliest_meeting_time_no_previous_activities() {
    let engine = new_engine();
    let location_id = LocationId::new();
    let building_id = BuildingId::new();

    let registry = LocationRegistry::new();
    let schedule: Vec<ScheduledActivity> = vec![];
    let proposed_time = Timestamp::now();

    let result = engine.calculate_earliest_meeting_time(proposed_time, &schedule, location_id, building_id, &registry);

    assert_eq!(result, Some(proposed_time));
}

#[test]
fn test_calculate_earliest_meeting_time_with_travel_time() {
    let engine = new_engine();
    let location1_id = LocationId::new();
    let building1_id = BuildingId::new();
    let room1_id = RoomId::new();

    let mut registry = LocationRegistry::new();
    let mut location1 = Location::new("Location 1".to_string(), coords(47.6062, -122.3321));
    let mut building1 = Building::new(location1.id, "Building 1".to_string());
    building1.add_room(Room::new(building1.id, "Room 1".to_string(), RoomType::Workspace, SecurityLevel::Standard));
    location1.add_building(building1);
    registry.add_location(location1);

    let base = Timestamp::now();
    let schedule = vec![ScheduledActivity::new(ActivityType::Arrival, room1_id, base, TimeDelta::minutes(15))];

    let proposed_time = at(base, TimeDelta::minutes(30));

    let result =
        engine.calculate_earliest_meeting_time(proposed_time, &schedule, location1_id, building1_id, &registry);

    assert!(result.is_some());
    let actual_time = result.unwrap();
    assert!(actual_time.millis >= proposed_time.millis);
}

#[test]
fn test_validate_travel_time_for_meeting_sufficient_time() {
    let engine = new_engine();
    let location_id = LocationId::new();
    let building_id = BuildingId::new();
    let room_id = RoomId::new();

    let mut registry = LocationRegistry::new();
    let mut location = Location::new("Test Location".to_string(), coords(47.6062, -122.3321));
    let mut building = Building::new(location.id, "Test Building".to_string());
    building.add_room(Room::new(building.id, "Test Room".to_string(), RoomType::Workspace, SecurityLevel::Standard));
    location.add_building(building);
    registry.add_location(location);

    let base = Timestamp::now();
    let schedule = vec![ScheduledActivity::new(ActivityType::Arrival, room_id, base, TimeDelta::minutes(15))];

    let meeting_time = at(base, TimeDelta::hours(2));

    let result = engine.validate_travel_time_for_meeting(building_id, &schedule, meeting_time, location_id, &registry);

    assert!(result);
}

#[test]
fn test_validate_travel_time_for_meeting_insufficient_time() {
    let engine = new_engine();

    let mut registry = LocationRegistry::new();
    let mut location = Location::new("Test Location".to_string(), coords(47.6062, -122.3321));
    let mut building1 = Building::new(location.id, "Building 1".to_string());
    building1.add_room(Room::new(building1.id, "Room 1".to_string(), RoomType::Workspace, SecurityLevel::Standard));
    let room1_id = building1.rooms[0].id;

    let mut building2 = Building::new(location.id, "Building 2".to_string());
    building2.add_room(Room::new(building2.id, "Room 2".to_string(), RoomType::Workspace, SecurityLevel::Standard));

    location.add_building(building1);
    location.add_building(building2);
    registry.add_location(location);

    let location_id = registry.locations[0].id;
    let building1_id = registry.locations[0].buildings[0].id;

    let base = Timestamp::now();
    let schedule = vec![ScheduledActivity::new(ActivityType::Meeting, room1_id, base, TimeDelta::minutes(60))];

    let meeting_time = at(base, TimeDelta::minutes(80));

    let building2_id = registry.locations[0].buildings[1].id;

    let travel_time = engine.calculate_minimum_travel_time(
        location_id,
        location_id,
        Some(building1_id),
        Some(building2_id),
    );

    let last_activity_end = schedule.iter().map(|activity| activity.end_time().millis).max().unwrap();

    let available_time = meeting_time.millis - last_activity_end;
    let required_time =
        travel_time.plus(engine.travel_time_constants().scheduling_buffer_time).num_milliseconds();

    let result = available_time >= required_time;

    assert!(!result);
}

#[test]
fn test_validate_travel_time_for_cross_location_meeting_sufficient_time() {
    let engine = new_engine();
    let room_id = RoomId::new();

    let mut registry = LocationRegistry::new();
    let mut location = Location::new("Test Location".to_string(), coords(47.6062, -122.3321));
    let mut building = Building::new(location.id, "Test Building".to_string());
    building.add_room(Room::new(building.id, "Test Room".to_string(), RoomType::Workspace, SecurityLevel::Standard));
    location.add_building(building);
    registry.add_location(location);

    let base = Timestamp::now();
    let schedule = vec![ScheduledActivity::new(ActivityType::Arrival, room_id, base, TimeDelta::minutes(15))];

    let meeting_time = at(base, TimeDelta::hours(5));

    let result = engine.validate_travel_time_for_cross_location_meeting(&schedule, meeting_time, &registry);

    assert!(result);
}

#[test]
fn test_validate_travel_time_for_cross_location_meeting_insufficient_time() {
    let engine = new_engine();

    let mut registry = LocationRegistry::new();
    let mut location1 = Location::new("Location 1".to_string(), coords(47.6062, -122.3321));
    let mut building1 = Building::new(location1.id, "Building 1".to_string());
    building1.add_room(Room::new(building1.id, "Room 1".to_string(), RoomType::Workspace, SecurityLevel::Standard));
    let room1_id = building1.rooms[0].id;
    location1.add_building(building1);
    registry.add_location(location1);

    let mut location2 = Location::new("Location 2".to_string(), coords(40.7128, -74.0060));
    let mut building2 = Building::new(location2.id, "Building 2".to_string());
    building2.add_room(Room::new(building2.id, "Room 2".to_string(), RoomType::Workspace, SecurityLevel::Standard));
    location2.add_building(building2);
    registry.add_location(location2);

    let base = Timestamp::now();
    let schedule = vec![ScheduledActivity::new(ActivityType::Meeting, room1_id, base, TimeDelta::minutes(60))];

    let meeting_time = at(base, TimeDelta::hours(3));

    let result = engine.validate_travel_time_for_cross_location_meeting(&schedule, meeting_time, &registry);

    assert!(!result);
}

// Laws and exact values.

#[test]
fn earliest_meeting_is_pushed_after_travel_and_slack() {
    let engine = new_engine();
    let registry = create_test_registry();
    let location = &registry.locations[0];
    let room_a = location.buildings[0].rooms[0].id;
    let building_b = location.buildings[1].id;

    let base = base_time();
    let schedule = vec![ScheduledActivity::new(ActivityType::Arrival, room_a, base, TimeDelta::minutes(15))];
    // Proposed 20 minutes after the arrival ends; the walk to building B takes
    // 30 minutes and 5 minutes of slack are kept.
    let proposed = at(base, TimeDelta::minutes(35));
    let result = engine.calculate_earliest_meeting_time(proposed, &schedule, location.id, building_b, &registry);
    assert_eq!(result, Some(at(base, TimeDelta::minutes(50))));
    // The proposed time is kept exactly when it passes validation.
    assert!(!engine.validate_travel_time_for_meeting(building_b, &schedule, proposed, location.id, &registry));

    let later = at(base, TimeDelta::minutes(60));
    assert_eq!(
        engine.calculate_earliest_meeting_time(later, &schedule, location.id, building_b, &registry),
        Some(later)
    );
    assert!(engine.validate_travel_time_for_meeting(building_b, &schedule, later, location.id, &registry));
}

#[test]
fn last_activity_prefers_the_later_of_equal_ends() {
    let engine = new_engine();
    let registry = create_test_registry();
    let location = &registry.locations[0];
    let room_a = location.buildings[0].rooms[0].id;
    let room_b = location.buildings[1].rooms[0].id;

    let base = base_time();
    let schedule = vec![
        ScheduledActivity::new(ActivityType::Meeting, room_a, base, TimeDelta::hours(1)),
        ScheduledActivity::new(ActivityType::Meeting, room_b, base, TimeDelta::hours(1)),
    ];
    let result = engine.get_last_activity_location(&schedule, at(base, TimeDelta::hours(2)), &registry);
    assert_eq!(result, Some((location.id, location.buildings[1].id)));
}

#[test]
fn reasonable_hours_per_activity() {
    let engine = new_engine();
    // 2024-01-15T00:00:00Z
    let midnight = Timestamp::from_millis(1_705_276_800_000);
    let hour = |h: i64| midnight.plus(TimeDelta::hours(h));
    assert!(engine.is_reasonable_activity_time(ActivityType::Meeting, hour(9)));
    assert!(!engine.is_reasonable_activity_time(ActivityType::Meeting, hour(17)));
    assert!(engine.is_reasonable_activity_time(ActivityType::Lunch, hour(11)));
    assert!(!engine.is_reasonable_activity_time(ActivityType::Lunch, hour(15)));
    assert!(engine.is_reasonable_activity_time(ActivityType::Departure, hour(19)));
    assert!(!engine.is_reasonable_activity_time(ActivityType::Departure, hour(15)));
    assert!(engine.is_reasonable_activity_time(ActivityType::Arrival, hour(7)));
    assert!(!engine.is_reasonable_activity_time(ActivityType::Arrival, hour(19)));
}

#[test]
fn suitable_rooms_follow_the_preferred_kind_then_any() {
    let engine = new_engine();
    let registry = create_test_registry();
    let location = &registry.locations[0];
    let mut permissions = PermissionSet::new();
    permissions.add_permission(PermissionLevel::Location(location.id));

    let meeting_room = location.buildings[0].rooms[1].id;
    let workspace = location.buildings[0].rooms[0].id;
    assert_eq!(
        engine.find_suitable_room_in_location(location.id, ActivityType::Meeting, &permissions, &registry),
        Some(meeting_room)
    );
    // No kitchen anywhere: the first room open to the user.
    assert_eq!(
        engine.find_suitable_room_in_location(location.id, ActivityType::Lunch, &permissions, &registry),
        Some(workspace)
    );
    let building_b = location.buildings[1].id;
    assert_eq!(
        engine.find_suitable_room_in_building(location.id, building_b, ActivityType::Meeting, &permissions, &registry),
        Some(location.buildings[1].rooms[0].id)
    );
    let nobody = PermissionSet::new();
    assert_eq!(
        engine.find_suitable_room_in_location(location.id, ActivityType::Meeting, &nobody, &registry),
        None
    );
}

#[test]
fn travel_conflict_moves_the_activity_after_travel() {
    let engine = new_engine();
    let registry = create_test_registry();
    let location = &registry.locations[0];
    let room_a = location.buildings[0].rooms[0].id;
    let room_b = location.buildings[1].rooms[0].id;
    let permissions = PermissionSet::new();

    let base = base_time(); // 09:00 UTC
    let done = vec![ScheduledActivity::new(ActivityType::Arrival, room_a, base, TimeDelta::minutes(30))];
    let meeting = ScheduledActivity::new(ActivityType::Meeting, room_b, at(base, TimeDelta::minutes(40)), TimeDelta::hours(1));
    let resolution = engine.resolve_travel_time_conflict(&meeting, &done, &permissions, &registry).unwrap();
    match resolution {
        Some(ConflictResolution::AdjustTime(t)) => assert_eq!(t, at(base, TimeDelta::minutes(65))),
        other => panic!("unexpected resolution {:?}", other),
    }
}

#[test]
fn travel_conflict_for_an_unknown_room_is_an_error() {
    let engine = new_engine();
    let registry = create_test_registry();
    let permissions = PermissionSet::new();
    let stray = RoomId::new();
    let activity = ScheduledActivity::new(ActivityType::Meeting, stray, base_time(), TimeDelta::hours(1));
    let result = engine.resolve_travel_time_conflict(&activity, &[], &permissions, &registry);
    match result {
        Err(SimulationError::BehaviorEngineError(message)) => {
            assert_eq!(message, format!("Cannot determine location for room {}", stray.value));
        },
        other => panic!("unexpected result {:?}", other),
    }
}

#[test]
fn resolved_schedule_has_no_overlap() {
    let mut engine = new_engine();
    let registry = create_test_registry();
    let location = &registry.locations[0];
    let room_a = location.buildings[0].rooms[0].id;
    let room_a2 = location.buildings[0].rooms[1].id;
    let permissions = PermissionSet::new();
    let user_id = UserId::new();

    let base = base_time();
    let schedule = vec![
        ScheduledActivity::new(ActivityType::Arrival, room_a, base, TimeDelta::hours(1)),
        ScheduledActivity::new(ActivityType::Meeting, room_a2, at(base, TimeDelta::minutes(30)), TimeDelta::hours(1)),
    ];
    let resolved = engine
        .resolve_schedule_conflicts(schedule, user_id, location.id, &permissions, &registry)
        .unwrap();
    assert_eq!(resolved.len(), 2);
    // Same building: no travel, but the overlap pushes the meeting after the
    // arrival plus 5 minutes of slack.
    assert_eq!(resolved[1].start_time, at(base, TimeDelta::minutes(65)));
    for pair in resolved.windows(2) {
        assert!(pair[1].start_time.millis >= pair[0].end_time().millis);
    }
}

#[test]
fn resolution_drops_an_activity_pushed_to_an_unreasonable_hour() {
    let mut engine = new_engine();
    let registry = create_test_registry();
    let location1 = &registry.locations[0];
    let location2 = &registry.locations[1];
    let room1 = location1.buildings[0].rooms[0].id;
    let room4 = location2.buildings[0].rooms[0].id;
    let permissions = PermissionSet::new();
    let user_id = UserId::new();

    let base = base_time(); // 09:00 UTC
    let schedule = vec![
        ScheduledActivity::new(ActivityType::Arrival, room1, at(base, TimeDelta::hours(6)), TimeDelta::hours(1)),
        // Cross-location travel would push it to 20:05, no hour for a meeting,
        // and no room near the arrival is open to the user.
        ScheduledActivity::new(ActivityType::Meeting, room4, at(base, TimeDelta::hours(8)), TimeDelta::hours(1)),
    ];
    let resolved = engine
        .resolve_schedule_conflicts(schedule, user_id, location1.id, &permissions, &registry)
        .unwrap();
    assert_eq!(resolved.len(), 1);
    assert_eq!(resolved[0].target_room, room1);
}

#[test]
fn resolution_reports_unknown_rooms() {
    let mut engine = new_engine();
    let registry = create_test_registry();
    let permissions = PermissionSet::new();
    let stray = RoomId::new();
    let schedule = vec![ScheduledActivity::new(ActivityType::Arrival, stray, base_time(), TimeDelta::hours(1))];
    let result = engine.resolve_schedule_conflicts(schedule, UserId::new(), LocationId::new(), &permissions, &registry);
    assert!(matches!(result, Err(SimulationError::BehaviorEngineError(_))));
}

#[test]
fn persistence_moves_activities_to_the_destination() {
    let mut engine = new_engine();
    let registry = create_test_registry();
    let location1 = &registry.locations[0];
    let location2 = &registry.locations[1];
    let room1 = location1.buildings[0].rooms[0].id;
    let room4 = location2.buildings[0].rooms[0].id;
    let mut permissions = PermissionSet::new();
    permissions.add_permission(PermissionLevel::Location(location2.id));
    let user_id = UserId::new();

    engine.track_user_daily_location(user_id, location2.id);
    let done = vec![ScheduledActivity::new(ActivityType::Arrival, room1, base_time(), TimeDelta::hours(1))];
    let moved = engine.apply_location_persistence_constraint(
        room1,
        ActivityType::Collaboration,
        user_id,
        location1.id,
        &permissions,
        &done,
        &registry,
    );
    assert_eq!(moved, room4);
}

#[test]
fn user_room_access_goes_through_the_registry() {
    let registry = create_test_registry();
    let location = &registry.locations[0];
    let room = location.buildings[0].rooms[0].id;
    let mut permissions = PermissionSet::new();
    assert!(!registry.can_user_access_room(&permissions, room));
    permissions.add_permission(PermissionLevel::Building(location.buildings[0].id));
    assert!(registry.can_user_access_room(&permissions, room));
    assert!(!registry.can_user_access_room(&permissions, RoomId::new()));
}

fn amenity_registry() -> (LocationRegistry, PermissionSet) {
    let mut registry = LocationRegistry::new();
    let mut location = Location::new("Campus".to_string(), coords(47.6, -122.3));
    let mut main = Building::new(location.id, "Main".to_string());
    main.add_room(Room::new(main.id, "Lobby".to_string(), RoomType::Lobby, SecurityLevel::Public));
    main.add_room(Room::new(main.id, "Desk".to_string(), RoomType::Workspace, SecurityLevel::Standard));
    main.add_room(Room::new(main.id, "Kitchen".to_string(), RoomType::Kitchen, SecurityLevel::Public));
    let mut annex = Building::new(location.id, "Annex".to_string());
    annex.add_room(Room::new(annex.id, "Restroom".to_string(), RoomType::Bathroom, SecurityLevel::Public));
    annex.add_room(Room::new(annex.id, "Board".to_string(), RoomType::MeetingRoom, SecurityLevel::Standard));
    location.add_building(main);
    location.add_building(annex);
    let mut permissions = PermissionSet::new();
    permissions.add_permission(PermissionLevel::Location(location.id));
    registry.add_location(location);
    (registry, permissions)
}

#[test]
fn bathroom_falls_back_to_another_building() {
    let mut engine = new_engine();
    let (registry, permissions) = amenity_registry();
    let location = &registry.locations[0];
    let main = &location.buildings[0];
    let annex = &location.buildings[1];
    let bathroom = engine.select_bathroom_room(location.id, main.id, &permissions, &registry);
    assert_eq!(bathroom, Some(annex.rooms[0].id));
    // Without a grant on the annex as a whole, it is not considered.
    let mut room_only = PermissionSet::new();
    room_only.add_permission(PermissionLevel::Room(annex.rooms[0].id));
    assert_eq!(engine.select_bathroom_room(location.id, main.id, &room_only, &registry), None);
}

#[test]
fn lunch_prefers_a_cafeteria_then_a_kitchen() {
    let mut engine = new_engine();
    let (registry, permissions) = amenity_registry();
    let location = &registry.locations[0];
    let main = &location.buildings[0];
    assert_eq!(
        engine.select_lunch_room(location.id, main.id, &permissions, &registry),
        Some(main.rooms[2].id)
    );
    assert_eq!(engine.select_lunch_room(LocationId::new(), main.id, &permissions, &registry), None);
}

#[test]
fn collaboration_stays_in_the_primary_building() {
    let mut engine = new_engine();
    let (registry, permissions) = amenity_registry();
    let location = &registry.locations[0];
    let main = &location.buildings[0];
    for _ in 0..20 {
        let r = engine.select_collaboration_room(location.id, main.id, &permissions, &registry);
        // The main building has a workspace and no meeting room.
        assert!(r.is_none() || r == Some(main.rooms[1].id));
    }
}

#[test]
fn meeting_rooms_by_building_and_location() {
    let mut engine = new_engine();
    let (registry, permissions) = amenity_registry();
    let location = &registry.locations[0];
    let main = &location.buildings[0];
    let annex = &location.buildings[1];
    assert_eq!(engine.select_meeting_room_in_building_with_permissions(main.id, &permissions, &registry), None);
    assert_eq!(
        engine.select_meeting_room_in_building_with_permissions(annex.id, &permissions, &registry),
        Some(annex.rooms[1].id)
    );
    assert_eq!(
        engine.select_meeting_room_in_location_with_permissions(location.id, Some(main.id), &permissions, &registry),
        Some(annex.rooms[1].id)
    );
    assert_eq!(
        engine.select_meeting_room_in_location_with_permissions(location.id, Some(main.id), &PermissionSet::new(), &registry),
        None
    );
}

#[test]
fn meeting_at_another_location_holds_the_user_there() {
    let mut engine = new_engine();
    let registry = create_test_registry();
    let location1 = &registry.locations[0];
    let location2 = &registry.locations[1];
    let mut permissions = PermissionSet::new();
    permissions.add_permission(PermissionLevel::Location(location2.id));
    let user_id = UserId::new();
    let r = engine.select_meeting_room_in_different_location_with_permissions(user_id, location1.id, &permissions, &registry);
    // Location 2 has no meeting room, but the user is held there anyway.
    assert_eq!(r, None);
    assert_eq!(engine.tracked_location(user_id), Some(location2.id));

    let other_user = UserId::new();
    let none = engine.select_meeting_room_in_different_location_with_permissions(
        other_user,
        location1.id,
        &PermissionSet::new(),
        &registry,
    );
    assert_eq!(none, None);
    assert_eq!(engine.tracked_location(other_user), None);
}

#[test]
fn meeting_room_follows_the_reach() {
    let mut engine = new_engine();
    let (registry, permissions) = amenity_registry();
    let location = &registry.locations[0];
    let main = &location.buildings[0];
    let annex = &location.buildings[1];
    let user_id = UserId::new();
    let schedule: Vec<ScheduledActivity> = vec![];
    let when = base_time();
    assert_eq!(
        engine.select_meeting_room(user_id, location.id, main.id, false, &permissions, &registry, when, &schedule, MeetingReach::PrimaryBuilding),
        None
    );
    assert_eq!(
        engine.select_meeting_room(user_id, location.id, main.id, false, &permissions, &registry, when, &schedule, MeetingReach::SameLocation),
        Some(annex.rooms[1].id)
    );
    // A curious user always meets in the primary building.
    assert_eq!(
        engine.select_meeting_room(user_id, location.id, main.id, true, &permissions, &registry, when, &schedule, MeetingReach::SameLocation),
        None
    );
}

#[test]
fn night_shift_rooms_and_break_room() {
    let mut engine = new_engine();
    let (registry, permissions) = amenity_registry();
    let location = &registry.locations[0];
    let main = &location.buildings[0];
    let mut rooms = engine.get_accessible_rooms_for_night_shift(location.id, main.id, &permissions, &registry);
    rooms.sort_by_key(|r| r.value);
    let mut expected: Vec<RoomId> = main.rooms.iter().map(|r| r.id).collect();
    expected.sort_by_key(|r| r.value);
    assert_eq!(rooms, expected);
    assert_eq!(
        engine.select_break_room_for_night_shift(location.id, main.id, &permissions, &registry),
        Some(main.rooms[2].id)
    );
    assert!(engine.get_accessible_rooms_for_night_shift(location.id, main.id, &PermissionSet::new(), &registry).is_empty());
}

#[test]
fn minimal_schedules() {
    let engine = new_engine();
    let workspace = RoomId::new();
    // 2024-01-15 is day 19737 after 1970-01-01.
    let day = 19_737;
    let midnight = Timestamp::from_millis(1_705_276_800_000);
    let minimal = engine.generate_minimal_schedule(workspace, day).unwrap();
    assert_eq!(minimal.len(), 2);
    assert_eq!(minimal[0].activity_type, ActivityType::Arrival);
    assert_eq!(minimal[0].start_time, midnight.plus(TimeDelta::hours(9)));
    assert_eq!(minimal[0].duration, TimeDelta::minutes(15));
    assert_eq!(minimal[1].activity_type, ActivityType::Departure);
    assert_eq!(minimal[1].start_time, midnight.plus(TimeDelta::hours(17)));
    assert_eq!(minimal[1].target_room, workspace);

    let night = engine.generate_minimal_night_shift_schedule(workspace, day).unwrap();
    let hours: Vec<i64> = night.iter().map(|a| (a.start_time.millis - midnight.millis) / 3_600_000).collect();
    assert_eq!(hours, vec![2, 8, 17, 21]);
    assert_eq!(night[0].activity_type, ActivityType::NightPatrol);
    assert_eq!(night[3].duration, TimeDelta::minutes(30));
}

#[test]
fn curious_users_are_drawn_to_restricted_rooms() {
    let mut engine = new_engine();
    let mut registry = LocationRegistry::new();
    let mut location = Location::new("HQ".to_string(), coords(0.0, 0.0));
    let mut building = Building::new(location.id, "Main".to_string());
    building.add_room(Room::new(building.id, "Lobby".to_string(), RoomType::Lobby, SecurityLevel::Public));
    building.add_room(Room::new(building.id, "Vault".to_string(), RoomType::Storage, SecurityLevel::MaxSecurity));
    let lobby = building.rooms[0].id;
    let vault = building.rooms[1].id;
    location.add_building(building);
    let location_id = location.id;
    registry.add_location(location);

    let mut permissions = PermissionSet::new();
    permissions.add_permission(PermissionLevel::Room(lobby));

    assert_eq!(engine.generate_unauthorized_access_attempt(false, location_id, &permissions, &registry), None);
    for _ in 0..20 {
        // The vault is always a candidate and the lobby is open to the user.
        assert_eq!(
            engine.generate_unauthorized_access_attempt(true, location_id, &permissions, &registry),
            Some(vault)
        );
    }
    assert_eq!(engine.generate_unauthorized_access_attempt(true, LocationId::new(), &permissions, &registry), None);
}

#[test]
fn test_generate_meeting_time_with_travel_constraints() {
    let mut engine = new_engine();

    let location_id = LocationId::new();
    let building_id = BuildingId::new();
    let room_id = RoomId::new();

    let mut registry = LocationRegistry::new();
    let mut location = Location::new("Test Location".to_string(), coords(47.6062, -122.3321));
    let mut building = Building::new(location.id, "Test Building".to_string());
    building.add_room(Room::new(building.id, "Test Room".to_string(), RoomType::Workspace, SecurityLevel::Standard));
    location.add_building(building);
    registry.add_location(location);

    let day = Timestamp::now().day();
    let schedule = vec![ScheduledActivity::new(
        ActivityType::Arrival,
        room_id,
        Timestamp::from_millis(day * 86_400_000 + 9 * 3_600_000),
        TimeDelta::minutes(15),
    )];

    let result = engine.generate_meeting_time(day, false, &schedule, location_id, building_id, &registry);

    assert!(result.is_some());
}

fn hour_and_minute(t: Timestamp, day: i64) -> (i64, i64) {
    let since = t.millis - day * 86_400_000;
    (since / 3_600_000, (since % 3_600_000) / 60_000)
}

#[test]
fn drawn_times_fall_in_their_windows() {
    let mut engine = new_engine();
    let day = 19_737;
    for _ in 0..50 {
        let (h, m) = hour_and_minute(engine.generate_arrival_time(day, true, true), day);
        assert!(h == 8 && m <= 30);
        let (h, m) = hour_and_minute(engine.generate_arrival_time(day, false, false), day);
        assert!((7..=9).contains(&h) && m <= 59);
        let (h, _) = hour_and_minute(engine.generate_bathroom_break_time(day, true).unwrap(), day);
        assert!((8..=17).contains(&h));
        let (h, _) = hour_and_minute(engine.generate_lunch_time(day, true), day);
        assert!(h == 12 || h == 13);
        let (h, _) = hour_and_minute(engine.generate_lunch_time(day, false), day);
        assert!(h == 11 || h == 12);
        let (h, m) = hour_and_minute(engine.generate_base_meeting_time(day, true).unwrap(), day);
        assert!([9, 10, 14, 15, 16].contains(&h) && (m == 0 || m == 30));
        let (h, _) = hour_and_minute(engine.generate_base_meeting_time(day, false).unwrap(), day);
        assert!((9..=16).contains(&h) && h != 12);
        let (h, _) = hour_and_minute(engine.generate_collaboration_time(day).unwrap(), day);
        assert!((10..=15).contains(&h));
        let (h, _) = hour_and_minute(engine.generate_curious_access_time(day, false).unwrap(), day);
        assert!([8, 12, 13, 17].contains(&h));
        let (h, _) = hour_and_minute(engine.generate_curious_access_time(day, true).unwrap(), day);
        assert!((8..=17).contains(&h) && h != 12);
    }
}

fn minutes_after(t: Timestamp, midnight: Timestamp) -> i64 {
    (t.millis - midnight.millis) / 60_000
}

#[test]
fn night_shift_plan_for_one_room() {
    let room = RoomId::new();
    let day = 19_737;
    let midnight = Timestamp::from_millis(1_705_276_800_000);
    let plan = BehaviorEngine::plan_night_shift_schedule(&[room], None, day);
    let starts: Vec<i64> = plan.iter().map(|a| minutes_after(a.start_time, midnight)).collect();
    assert_eq!(starts, vec![0, 120, 270, 300, 480, 1020, 1080, 1230, 1260]);
    assert!(plan.iter().all(|a| a.target_room == room));
    let kinds: Vec<ActivityType> = plan.iter().map(|a| a.activity_type).collect();
    assert_eq!(
        kinds,
        vec![
            ActivityType::NightPatrol,
            ActivityType::NightPatrol,
            ActivityType::Bathroom,
            ActivityType::NightPatrol,
            ActivityType::Departure,
            ActivityType::Arrival,
            ActivityType::NightPatrol,
            ActivityType::Bathroom,
            ActivityType::NightPatrol,
        ]
    );
    let lengths: Vec<i64> = plan.iter().map(|a| a.duration.millis / 60_000).collect();
    assert_eq!(lengths, vec![45, 30, 15, 45, 10, 10, 30, 20, 25]);
}

#[test]
fn night_shift_plan_for_four_rooms_is_in_start_order() {
    let rooms = [RoomId::new(), RoomId::new(), RoomId::new(), RoomId::new(), RoomId::new()];
    let break_room = RoomId::new();
    let day = 19_737;
    let midnight = Timestamp::from_millis(1_705_276_800_000);
    let plan = BehaviorEngine::plan_night_shift_schedule(&rooms, Some(break_room), day);
    let starts: Vec<i64> = plan.iter().map(|a| minutes_after(a.start_time, midnight)).collect();
    assert_eq!(
        starts,
        vec![0, 60, 120, 160, 200, 270, 300, 360, 480, 1020, 1080, 1120, 1160, 1230, 1260, 1295, 1330, 1365]
    );
    assert!(starts.windows(2).all(|w| w[0] < w[1]));
    assert_eq!(plan[5].target_room, break_room);
    assert_eq!(plan[13].target_room, break_room);
    assert_eq!(plan[8].target_room, rooms[0]);
    assert_eq!(plan[9].target_room, rooms[0]);
    let late: Vec<RoomId> = plan[14..].iter().map(|a| a.target_room).collect();
    assert_eq!(late, rooms[..4].to_vec());
}

#[test]
fn night_shift_schedule_in_the_primary_building() {
    let mut engine = new_engine();
    let (registry, permissions) = amenity_registry();
    let location = &registry.locations[0];
    let main = &location.buildings[0];
    let workspace = main.rooms[1].id;
    let day = 19_737;
    let midnight = Timestamp::from_millis(1_705_276_800_000);
    let schedule = engine
        .generate_night_shift_schedule(UserId::new(), location.id, main.id, workspace, None, &permissions, day, &registry)
        .unwrap();
    let starts: Vec<i64> = schedule.iter().map(|a| minutes_after(a.start_time, midnight)).collect();
    assert_eq!(
        starts,
        vec![0, 60, 120, 160, 200, 270, 300, 360, 480, 1020, 1080, 1120, 1160, 1230, 1260, 1295, 1330]
    );
    let kitchen = main.rooms[2].id;
    assert_eq!(schedule[5].target_room, kitchen);
    assert_eq!(schedule[13].target_room, kitchen);
    let mut patrolled: Vec<RoomId> = schedule[14..].iter().map(|a| a.target_room).collect();
    patrolled.sort_by_key(|r| r.value);
    let mut expected: Vec<RoomId> = main.rooms.iter().map(|r| r.id).collect();
    expected.sort_by_key(|r| r.value);
    assert_eq!(patrolled, expected);
}

#[test]
fn night_shift_schedule_in_the_assigned_building() {
    let mut engine = new_engine();
    let (registry, permissions) = amenity_registry();
    let location = &registry.locations[0];
    let main = &location.buildings[0];
    let annex = &location.buildings[1];
    let schedule = engine
        .generate_night_shift_schedule(
            UserId::new(),
            location.id,
            main.id,
            main.rooms[1].id,
            Some(annex.id),
            &permissions,
            19_737,
            &registry,
        )
        .unwrap();
    assert_eq!(schedule.len(), 14);
    let annex_rooms: Vec<RoomId> = annex.rooms.iter().map(|r| r.id).collect();
    assert!(schedule.iter().all(|a| annex_rooms.contains(&a.target_room)));
    let breaks: Vec<RoomId> = schedule
        .iter()
        .filter(|a| a.activity_type == ActivityType::Bathroom)
        .map(|a| a.target_room)
        .collect();
    assert_eq!(breaks, vec![annex.rooms[0].id, annex.rooms[0].id]);
}

#[test]
fn night_shift_schedule_without_open_rooms_is_minimal() {
    let mut engine = new_engine();
    let (registry, _) = amenity_registry();
    let location = &registry.locations[0];
    let main = &location.buildings[0];
    let workspace = main.rooms[1].id;
    let schedule = engine
        .generate_night_shift_schedule(UserId::new(), location.id, main.id, workspace, None, &PermissionSet::new(), 19_737, &registry)
        .unwrap();
    assert_eq!(schedule, engine.generate_minimal_night_shift_schedule(workspace, 19_737).unwrap());
}

fn activity(kind: ActivityType, room: RoomId, start: Timestamp, minutes: i64) -> ScheduledActivity {
    ScheduledActivity::new(kind, room, start, TimeDelta::minutes(minutes))
}

#[test]
fn sorting_by_start_keeps_ties_in_order() {
    let midnight = Timestamp::from_millis(1_705_276_800_000);
    let rooms = [RoomId::new(), RoomId::new(), RoomId::new(), RoomId::new()];
    let schedule = vec![
        activity(ActivityType::Lunch, rooms[0], at(midnight, TimeDelta::hours(12)), 30),
        activity(ActivityType::Arrival, rooms[1], at(midnight, TimeDelta::hours(8)), 15),
        activity(ActivityType::Meeting, rooms[2], at(midnight, TimeDelta::hours(10)), 60),
        activity(ActivityType::Bathroom, rooms[3], at(midnight, TimeDelta::hours(8)), 5),
    ];
    let sorted = ScheduledActivity::sort_by_start_time(schedule.clone());
    assert_eq!(sorted, vec![schedule[1], schedule[3], schedule[2], schedule[0]]);
    assert!(ScheduledActivity::sort_by_start_time(Vec::new()).is_empty());
}

#[test]
fn departure_follows_the_working_day_until_eight_pm() {
    let day = 19_737;
    let midnight = Timestamp::from_millis(1_705_276_800_000);
    let arrival = at(midnight, TimeDelta::minutes(8 * 60 + 30));
    assert_eq!(
        BehaviorEngine::generate_departure_time(day, true, arrival, 0),
        at(midnight, TimeDelta::minutes(16 * 60 + 30))
    );
    assert_eq!(
        BehaviorEngine::generate_departure_time(day, false, arrival, -60),
        at(midnight, TimeDelta::minutes(14 * 60 + 30))
    );
    let late = at(midnight, TimeDelta::minutes(10 * 60 + 30));
    assert_eq!(BehaviorEngine::generate_departure_time(day, true, late, 120), at(midnight, TimeDelta::hours(20)));
    assert_eq!(
        BehaviorEngine::generate_departure_time(day, false, late, 120),
        at(midnight, TimeDelta::minutes(19 * 60 + 30))
    );
}

#[test]
fn curious_attempts_only_when_trying_doors() {
    let mut engine = new_engine();
    let (mut registry, _) = amenity_registry();
    // A restricted room the user may not open draws a curious user every time.
    let vault_building = registry.locations[0].buildings[0].id;
    registry.locations[0].buildings[0].add_room(Room::new(
        vault_building,
        "Vault".to_string(),
        RoomType::Storage,
        SecurityLevel::Restricted,
    ));
    let location = &registry.locations[0];
    let closed = PermissionSet::new();
    let day = 19_737;
    let midnight = Timestamp::from_millis(1_705_276_800_000);
    let mut schedule = vec![activity(ActivityType::Arrival, RoomId::new(), at(midnight, TimeDelta::hours(9)), 15)];
    engine.add_curious_user_activities(&mut schedule, true, false, false, location.id, &closed, day, &registry);
    assert_eq!(schedule.len(), 1);
    engine.add_curious_user_activities(&mut schedule, false, true, true, location.id, &closed, day, &registry);
    assert_eq!(schedule.len(), 1);
    engine.add_curious_user_activities(&mut schedule, true, false, true, location.id, &closed, day, &registry);
    assert!(schedule.len() >= 2 && schedule.len() <= 4);
    let all_rooms: Vec<RoomId> = location.buildings.iter().flat_map(|b| b.rooms.iter().map(|r| r.id)).collect();
    for attempt in &schedule[1..] {
        assert_eq!(attempt.activity_type, ActivityType::UnauthorizedAccess);
        assert!(all_rooms.contains(&attempt.target_room));
        let hour = (attempt.start_time.millis - midnight.millis) / 3_600_000;
        assert!([8, 12, 13, 17].contains(&hour));
        assert!(attempt.duration.millis >= 5 * 60_000 && attempt.duration.millis <= 15 * 60_000);
    }
}

fn day_user(registry: &LocationRegistry, social: bool, is_curious: bool) -> DayShiftUser {
    let location = &registry.locations[0];
    let main = &location.buildings[0];
    DayShiftUser {
        user_id: UserId::new(),
        primary_location: location.id,
        primary_building: main.id,
        primary_workspace: main.rooms[1].id,
        is_curious,
        schedule_focused: false,
        punctual: true,
        social,
        bold: true,
    }
}

fn count(schedule: &[ScheduledActivity], kind: ActivityType) -> usize {
    schedule.iter().filter(|a| a.activity_type == kind).count()
}

#[test]
fn day_schedule_is_ordered_without_overlap() {
    let (registry, permissions) = amenity_registry();
    for round in 0..20 {
        let mut engine = new_engine();
        let user = day_user(&registry, round % 2 == 0, false);
        let draws = DayDraws {
            meeting_reaches: vec![MeetingReach::PrimaryBuilding, MeetingReach::SameLocation],
            departure_variation_minutes: 30,
            tries_doors: false,
        };
        let schedule = engine.generate_schedule_internal(&user, &permissions, &draws, 19_737, &registry).unwrap();
        assert!(schedule.windows(2).all(|w| w[1].start_time.millis >= w[0].start_time.millis + w[0].duration.millis));
        assert!(count(&schedule, ActivityType::Arrival) <= 1);
        assert!(count(&schedule, ActivityType::Departure) <= 1);
        assert!(count(&schedule, ActivityType::Lunch) <= 1);
        assert!(count(&schedule, ActivityType::Bathroom) <= 4);
        assert!(count(&schedule, ActivityType::Meeting) <= 2);
        assert!(count(&schedule, ActivityType::Collaboration) <= if user.social { 3 } else { 0 });
        assert_eq!(count(&schedule, ActivityType::NightPatrol), 0);
        assert_eq!(count(&schedule, ActivityType::UnauthorizedAccess), 0);
        let first = schedule[0];
        assert!(first.start_time.millis >= 1_705_276_800_000 + 7 * 3_600_000);
    }
}

#[test]
fn daily_schedule_dispatches_night_shift_users() {
    let (registry, permissions) = amenity_registry();
    let mut engine = new_engine();
    let user = day_user(&registry, false, false);
    let draws = DayDraws { meeting_reaches: Vec::new(), departure_variation_minutes: 0, tries_doors: false };
    let night = engine.generate_daily_schedule(&user, true, None, &permissions, &draws, 19_737, &registry).unwrap();
    assert_eq!(night.len(), 17);
    assert_eq!(count(&night, ActivityType::Departure), 1);
    let closed = PermissionSet::new();
    let minimal_night = engine.generate_daily_schedule(&user, true, None, &closed, &draws, 19_737, &registry).unwrap();
    assert_eq!(minimal_night, engine.generate_minimal_night_shift_schedule(user.primary_workspace, 19_737).unwrap());
    let day = engine.generate_daily_schedule(&user, false, None, &permissions, &draws, 19_737, &registry).unwrap();
    assert!(count(&day, ActivityType::Arrival) <= 1);
    assert_eq!(count(&day, ActivityType::NightPatrol), 0);
}

#[test]
fn daily_schedules_are_nonempty_in_start_order_without_overlap() {
    let (registry, permissions) = amenity_registry();
    let closed = PermissionSet::new();
    for round in 0..10 {
        let mut engine = new_engine();
        let user = day_user(&registry, round % 2 == 0, round % 3 == 0);
        let draws = DayDraws {
            meeting_reaches: vec![MeetingReach::PrimaryBuilding, MeetingReach::SameLocation],
            departure_variation_minutes: 60,
            tries_doors: true,
        };
        for (night, grants) in [(false, &permissions), (true, &permissions), (true, &closed)] {
            let schedule = engine.generate_daily_schedule(&user, night, None, grants, &draws, 19_737, &registry).unwrap();
            assert!(!schedule.is_empty());
            assert!(schedule.windows(2).all(|w| w[0].start_time.millis <= w[1].start_time.millis));
            assert!(schedule.windows(2).all(|w| w[1].start_time.millis >= w[0].start_time.millis + w[0].duration.millis));
        }
    }
}
