use badge_access_simulator::facility::building::Building;
use badge_access_simulator::facility::location::{Coordinates, Location};
use badge_access_simulator::facility::registry::LocationRegistry;
use badge_access_simulator::facility::room::Room;
use badge_access_simulator::permissions::permission_set::{PermissionLevel, PermissionSet};
use badge_access_simulator::schedule::ScheduledActivity;
use badge_access_simulator::simulation::behavior_engine::BehaviorEngine;
use badge_access_simulator::simulation::error::{ErrorHandler, RecoveryContext, RecoveryStrategy, SimulationError};
use badge_access_simulator::simulation::time_manager::TimeManager;
use badge_access_simulator::time::{TimeDelta, Timestamp};
use badge_access_simulator::types::{ActivityType, BuildingId, LocationId, RoomId, RoomType, SecurityLevel, UserId};

fn origin() -> Coordinates {
    Coordinates { latitude_bits: 0f64.to_bits(), longitude_bits: 0f64.to_bits() }
}

fn one_room_registry() -> (LocationRegistry, LocationId, BuildingId, RoomId) {
    let mut registry = LocationRegistry::new();
    let mut location = Location::new("L".to_string(), origin());
    let mut building = Building::new(location.id, "B".to_string());
    building.add_room(Room::new(building.id, "Lobby".to_string(), RoomType::Lobby, SecurityLevel::Public));
    building.add_room(Room::new(building.id, "Desk".to_string(), RoomType::Workspace, SecurityLevel::Standard));
    let ids = (location.id, building.id, building.rooms[1].id);
    location.add_building(building);
    registry.add_location(location);
    (registry, ids.0, ids.1, ids.2)
}

#[test]
fn registry_finds_what_it_holds_by_identifier() {
    let (registry, location_id, building_id, room_id) = one_room_registry();
    assert_eq!(registry.get_location(location_id).unwrap().id, location_id);
    assert_eq!(registry.get_room(room_id).unwrap().id, room_id);
    assert_eq!(registry.get_building_for_room(room_id).unwrap().id, building_id);
    assert_eq!(registry.get_location_for_building(building_id).unwrap().id, location_id);
    assert!(registry.get_location(LocationId::new()).is_none());
    assert!(registry.get_room(RoomId::new()).is_none());
}

#[test]
fn grants_cover_down_the_hierarchy() {
    let location = LocationId::new();
    let building = BuildingId::new();
    let room = RoomId::new();
    let mut permissions = PermissionSet::new();
    permissions.add_permission(PermissionLevel::Location(location));
    assert!(permissions.can_access_location(location));
    assert!(permissions.can_access_building(building, location));
    assert!(permissions.can_access_room(room, building, location));
}

#[test]
fn adding_then_removing_a_grant_restores_access() {
    let location = LocationId::new();
    let building = BuildingId::new();
    let room = RoomId::new();
    let mut permissions = PermissionSet::new();
    assert!(!permissions.can_access_room(room, building, location));
    permissions.add_permission(PermissionLevel::Room(room));
    assert!(permissions.can_access_room(room, building, location));
    permissions.remove_permission(&PermissionLevel::Room(room));
    assert!(!permissions.can_access_room(room, building, location));
}

#[test]
fn unrecoverable_errors_always_abort() {
    let handler = ErrorHandler::new();
    let error = SimulationError::configuration_error("bad");
    assert_eq!(handler.handle_error(&error, &RecoveryContext::retry(3)), RecoveryStrategy::Abort);
    assert_eq!(handler.handle_error(&error, &RecoveryContext::skip()), RecoveryStrategy::Abort);
    let recoverable = SimulationError::event_generation_error("transient");
    assert_eq!(handler.handle_error(&recoverable, &RecoveryContext::skip()), RecoveryStrategy::Skip);
    assert_eq!(handler.handle_error(&recoverable, &RecoveryContext::abort()), RecoveryStrategy::Abort);
}

#[test]
fn exhausted_retries_are_not_retried() {
    let handler = ErrorHandler::new();
    let error = SimulationError::event_generation_error("transient");
    let mut context = RecoveryContext::retry(1);
    context.increment_retry();
    let decision = handler.handle_error(&error, &context);
    assert_ne!(decision, RecoveryStrategy::Retry);
    assert_ne!(decision, RecoveryStrategy::RetryWithFallback);
}

#[test]
fn travel_persists_for_the_day() {
    let (registry, location_id, _building_id, room_id) = one_room_registry();
    let mut engine = BehaviorEngine::new(TimeManager::new());
    let user = UserId::new();
    let elsewhere = LocationId::new();
    let schedule = vec![ScheduledActivity::new(
        ActivityType::Arrival,
        room_id,
        Timestamp::from_millis(1_705_309_200_000),
        TimeDelta::hours(1),
    )];
    engine.track_user_daily_location(user, elsewhere);
    assert_eq!(engine.has_traveled_cross_location_today(user, &schedule, &registry), Some(elsewhere));
    assert_eq!(engine.get_departure_location(user, location_id, &schedule, &registry), elsewhere);
    engine.clear_daily_location_tracking();
    assert_eq!(engine.has_traveled_cross_location_today(user, &schedule, &registry), None);
    assert_eq!(engine.get_departure_location(user, location_id, &schedule, &registry), location_id);
}
