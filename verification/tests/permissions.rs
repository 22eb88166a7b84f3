use badge_access_simulator::permissions::access_flow::{AccessFlow, ValidationResult};
use badge_access_simulator::permissions::permission_set::{PermissionLevel, PermissionSet};
use badge_access_simulator::time::TimeDelta;
use badge_access_simulator::types::{BuildingId, LocationId, RoomId};

#[test]
fn test_permission_set_creation() {
    let permission_set = PermissionSet::new();
    assert!(permission_set.is_empty());
    assert_eq!(permission_set.len(), 0);
}

#[test]
fn test_permission_set_with_permissions() {
    let room_id = RoomId::new();
    let building_id = BuildingId::new();
    let permissions =
        vec![PermissionLevel::Room(room_id), PermissionLevel::Building(building_id)];
    let permission_set = PermissionSet::with_permissions(permissions.clone());
    assert_eq!(permission_set.permissions, permissions);
    assert_eq!(permission_set.len(), 2);
}

#[test]
fn test_add_permission() {
    let mut permission_set = PermissionSet::new();
    let room_id = RoomId::new();
    let permission = PermissionLevel::Room(room_id);

    permission_set.add_permission(permission.clone());
    assert_eq!(permission_set.len(), 1);
    assert!(permission_set.permissions.contains(&permission));

    // Adding the same permission again should not duplicate it
    permission_set.add_permission(permission.clone());
    assert_eq!(permission_set.len(), 1);
}

#[test]
fn test_remove_permission() {
    let room_id = RoomId::new();
    let building_id = BuildingId::new();
    let room_permission = PermissionLevel::Room(room_id);
    let building_permission = PermissionLevel::Building(building_id);

    let mut permission_set = PermissionSet::with_permissions(vec![
        room_permission.clone(),
        building_permission.clone(),
    ]);

    permission_set.remove_permission(&room_permission);
    assert_eq!(permission_set.len(), 1);
    assert!(!permission_set.permissions.contains(&room_permission));
    assert!(permission_set.permissions.contains(&building_permission));
}

#[test]
fn test_can_access_room() {
    let room_id = RoomId::new();
    let building_id = BuildingId::new();
    let location_id = LocationId::new();

    // Test room-level permission
    let mut permission_set = PermissionSet::new();
    permission_set.add_permission(PermissionLevel::Room(room_id));
    assert!(permission_set.can_access_room(room_id, building_id, location_id));

    // Test building-level permission
    let mut permission_set = PermissionSet::new();
    permission_set.add_permission(PermissionLevel::Building(building_id));
    assert!(permission_set.can_access_room(room_id, building_id, location_id));

    // Test location-level permission
    let mut permission_set = PermissionSet::new();
    permission_set.add_permission(PermissionLevel::Location(location_id));
    assert!(permission_set.can_access_room(room_id, building_id, location_id));

    // Test no permission
    let permission_set = PermissionSet::new();
    assert!(!permission_set.can_access_room(room_id, building_id, location_id));
}

#[test]
fn test_can_access_building() {
    let building_id = BuildingId::new();
    let location_id = LocationId::new();
    let room_id = RoomId::new();

    // Test building-level permission
    let mut permission_set = PermissionSet::new();
    permission_set.add_permission(PermissionLevel::Building(building_id));
    assert!(permission_set.can_access_building(building_id, location_id));

    // Test location-level permission
    let mut permission_set = PermissionSet::new();
    permission_set.add_permission(PermissionLevel::Location(location_id));
    assert!(permission_set.can_access_building(building_id, location_id));

    // Test room-level permission (should not grant building access)
    let mut permission_set = PermissionSet::new();
    permission_set.add_permission(PermissionLevel::Room(room_id));
    assert!(!permission_set.can_access_building(building_id, location_id));
}

#[test]
fn test_can_access_location() {
    let location_id = LocationId::new();
    let building_id = BuildingId::new();
    let room_id = RoomId::new();

    // Test location-level permission
    let mut permission_set = PermissionSet::new();
    permission_set.add_permission(PermissionLevel::Location(location_id));
    assert!(permission_set.can_access_location(location_id));

    // Test building-level permission (should not grant location access)
    let mut permission_set = PermissionSet::new();
    permission_set.add_permission(PermissionLevel::Building(building_id));
    assert!(!permission_set.can_access_location(location_id));

    // Test room-level permission (should not grant location access)
    let mut permission_set = PermissionSet::new();
    permission_set.add_permission(PermissionLevel::Room(room_id));
    assert!(!permission_set.can_access_location(location_id));
}

#[test]
fn test_get_authorized_rooms() {
    let room1 = RoomId::new();
    let room2 = RoomId::new();
    let building_id = BuildingId::new();

    let mut permission_set = PermissionSet::new();
    permission_set.add_permission(PermissionLevel::Room(room1));
    permission_set.add_permission(PermissionLevel::Room(room2));
    permission_set.add_permission(PermissionLevel::Building(building_id));

    let authorized_rooms = permission_set.get_authorized_rooms();
    assert_eq!(authorized_rooms.len(), 2);
    assert!(authorized_rooms.contains(&room1));
    assert!(authorized_rooms.contains(&room2));
}

#[test]
fn test_get_authorized_buildings() {
    let building1 = BuildingId::new();
    let building2 = BuildingId::new();
    let room_id = RoomId::new();

    let mut permission_set = PermissionSet::new();
    permission_set.add_permission(PermissionLevel::Building(building1));
    permission_set.add_permission(PermissionLevel::Building(building2));
    permission_set.add_permission(PermissionLevel::Room(room_id));

    let authorized_buildings = permission_set.get_authorized_buildings();
    assert_eq!(authorized_buildings.len(), 2);
    assert!(authorized_buildings.contains(&building1));
    assert!(authorized_buildings.contains(&building2));
}

#[test]
fn test_get_authorized_locations() {
    let location1 = LocationId::new();
    let location2 = LocationId::new();
    let building_id = BuildingId::new();

    let mut permission_set = PermissionSet::new();
    permission_set.add_permission(PermissionLevel::Location(location1));
    permission_set.add_permission(PermissionLevel::Location(location2));
    permission_set.add_permission(PermissionLevel::Building(building_id));

    let authorized_locations = permission_set.get_authorized_locations();
    assert_eq!(authorized_locations.len(), 2);
    assert!(authorized_locations.contains(&location1));
    assert!(authorized_locations.contains(&location2));
}

#[test]
fn test_has_any_location_permissions() {
    let location_id = LocationId::new();
    let other_location_id = LocationId::new();

    let mut permission_set = PermissionSet::new();
    permission_set.add_permission(PermissionLevel::Location(location_id));

    assert!(permission_set.has_any_location_permissions(location_id));
    assert!(!permission_set.has_any_location_permissions(other_location_id));
}

#[test]
fn test_permission_level_display() {
    let room_id = RoomId::new();
    let building_id = BuildingId::new();
    let location_id = LocationId::new();

    let room_permission = PermissionLevel::Room(room_id);
    let building_permission = PermissionLevel::Building(building_id);
    let location_permission = PermissionLevel::Location(location_id);

    assert_eq!(room_permission.to_display_string(), format!("Room({})", room_id.to_display_string()));
    assert_eq!(building_permission.to_display_string(), format!("Building({})", building_id.to_display_string()));
    assert_eq!(location_permission.to_display_string(), format!("Location({})", location_id.to_display_string()));
}

#[test]
fn test_default_permission_set() {
    let permission_set = PermissionSet::default();
    assert!(permission_set.is_empty());
    assert_eq!(permission_set.len(), 0);
}

#[test]
fn test_access_flow_creation() {
    let room1 = RoomId::new();
    let room2 = RoomId::new();
    let sequence = vec![room1, room2];
    let travel_time = TimeDelta::minutes(5);

    let flow = AccessFlow::new(sequence.clone(), travel_time, true, false);

    assert_eq!(flow.required_sequence, sequence);
    assert_eq!(flow.estimated_travel_time, travel_time);
    assert!(flow.requires_lobby_access);
    assert!(!flow.involves_high_security);
}

#[test]
fn test_direct_access_flow() {
    let room = RoomId::new();
    let travel_time = TimeDelta::minutes(2);

    let flow = AccessFlow::direct(room, travel_time);

    assert_eq!(flow.required_sequence, vec![room]);
    assert_eq!(flow.estimated_travel_time, travel_time);
    assert!(!flow.requires_lobby_access);
    assert!(!flow.involves_high_security);
}

#[test]
fn test_target_room() {
    let room1 = RoomId::new();
    let room2 = RoomId::new();
    let flow = AccessFlow::new(vec![room1, room2], TimeDelta::minutes(5), false, false);

    assert_eq!(flow.target_room(), Some(room2));

    let empty_flow = AccessFlow::new(vec![], TimeDelta::minutes(0), false, false);
    assert_eq!(empty_flow.target_room(), None);
}

#[test]
fn test_sequence_length() {
    let room1 = RoomId::new();
    let room2 = RoomId::new();
    let flow = AccessFlow::new(vec![room1, room2], TimeDelta::minutes(5), false, false);

    assert_eq!(flow.sequence_length(), 2);
}

#[test]
fn test_is_direct_access() {
    let room = RoomId::new();
    let direct_flow = AccessFlow::direct(room, TimeDelta::minutes(2));
    assert!(direct_flow.is_direct_access());

    let room1 = RoomId::new();
    let room2 = RoomId::new();
    let multi_flow = AccessFlow::new(vec![room1, room2], TimeDelta::minutes(5), false, false);
    assert!(!multi_flow.is_direct_access());
}

#[test]
fn test_intermediate_rooms() {
    let room1 = RoomId::new();
    let room2 = RoomId::new();
    let room3 = RoomId::new();
    let flow = AccessFlow::new(vec![room1, room2, room3], TimeDelta::minutes(10), false, false);

    let intermediate = flow.intermediate_rooms();
    assert_eq!(intermediate, vec![room1, room2]);

    let direct_flow = AccessFlow::direct(room1, TimeDelta::minutes(2));
    assert!(direct_flow.intermediate_rooms().is_empty());
}

#[test]
fn test_validate_permissions() {
    let room1 = RoomId::new();
    let room2 = RoomId::new();
    let room3 = RoomId::new();

    let mut permissions = PermissionSet::new();
    permissions.add_permission(PermissionLevel::Room(room1));
    permissions.add_permission(PermissionLevel::Room(room2));

    let flow = AccessFlow::new(vec![room1, room2], TimeDelta::minutes(5), false, false);
    let result = flow.validate_permissions(&permissions);
    assert!(result.is_fully_authorized());

    // Test with unauthorized room
    let flow_with_unauthorized =
        AccessFlow::new(vec![room1, room3], TimeDelta::minutes(5), false, false);
    let result = flow_with_unauthorized.validate_permissions(&permissions);
    assert!(!result.is_fully_authorized());
    assert!(result.unauthorized_rooms.contains(&room3));
}

#[test]
fn test_requires_security_clearance() {
    let room = RoomId::new();
    let high_security_flow = AccessFlow::new(vec![room], TimeDelta::minutes(5), false, true);
    assert!(high_security_flow.requires_security_clearance());

    let normal_flow = AccessFlow::new(vec![room], TimeDelta::minutes(5), false, false);
    assert!(!normal_flow.requires_security_clearance());
}

#[test]
fn test_get_segment_time() {
    let room1 = RoomId::new();
    let room2 = RoomId::new();
    let room3 = RoomId::new();
    let flow = AccessFlow::new(vec![room1, room2, room3], TimeDelta::minutes(6), false, false);

    let segment_time = flow.get_segment_time(0, 2);
    assert!(segment_time.is_some());

    // Invalid segment should return None
    let invalid_segment = flow.get_segment_time(2, 1);
    assert!(invalid_segment.is_none());
}

#[test]
fn test_validation_result() {
    let room1 = RoomId::new();
    let room2 = RoomId::new();

    let result = ValidationResult {
        is_valid: false,
        unauthorized_rooms: vec![room1],
        missing_intermediate_access: vec![room2],
        requires_lobby_access: true,
        involves_high_security: false,
    };

    assert!(!result.is_fully_authorized());
    assert!(!result.has_target_access_only()); // Has both target and intermediate issues

    let all_unauthorized = result.get_all_unauthorized_rooms();
    assert_eq!(all_unauthorized.len(), 2);
    assert!(all_unauthorized.contains(&room1));
    assert!(all_unauthorized.contains(&room2));
}

#[test]
fn test_validation_result_target_access_only() {
    let room1 = RoomId::new();

    let result = ValidationResult {
        is_valid: false,
        unauthorized_rooms: vec![],
        missing_intermediate_access: vec![room1],
        requires_lobby_access: false,
        involves_high_security: false,
    };

    assert!(result.has_target_access_only());
}
