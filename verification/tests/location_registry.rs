use badge_access_simulator::facility::building::Building;
use badge_access_simulator::facility::location::{Coordinates, Location};
use badge_access_simulator::facility::registry::LocationRegistry;
use badge_access_simulator::facility::room::Room;
use badge_access_simulator::types::{RoomId, RoomType, SecurityLevel};

fn coords(latitude: f64, longitude: f64) -> Coordinates {
    Coordinates { latitude_bits: latitude.to_bits(), longitude_bits: longitude.to_bits() }
}

#[test]
fn test_location_creation() {
    let coordinates = coords(47.6062, -122.3321); // Seattle coordinates
    let location = Location::new("Seattle Office".to_string(), coordinates);

    assert_eq!(location.name, "Seattle Office");
    assert_eq!(location.coordinates, coordinates);
    assert!(location.buildings.is_empty());
}

#[test]
fn test_building_management() {
    let mut location = Location::new("Test Location".to_string(), coords(0.0, 0.0));

    // Create and add a building
    let mut building = Building::new(location.id, "Test Building".to_string());
    building.add_room(Room::new(
        building.id,
        "Lobby".to_string(),
        RoomType::Lobby,
        SecurityLevel::Public,
    ));
    let building_id = building.id;
    location.add_building(building);

    assert_eq!(location.building_count(), 1);
    assert!(location.contains_building(building_id));

    // Get building by ID
    let retrieved_building = location.get_building(building_id);
    assert!(retrieved_building.is_some());
    assert_eq!(retrieved_building.unwrap().name, "Test Building");

    // Remove building
    let removed_building = location.remove_building(building_id);
    assert!(removed_building.is_some());
    assert_eq!(location.building_count(), 0);
    assert!(!location.contains_building(building_id));
}

#[test]
fn test_room_search_across_buildings() {
    let mut location = Location::new("Test Location".to_string(), coords(0.0, 0.0));

    // Create first building with rooms
    let mut building1 = Building::new(location.id, "Building 1".to_string());
    building1.add_room(Room::new(
        building1.id,
        "Lobby 1".to_string(),
        RoomType::Lobby,
        SecurityLevel::Public,
    ));
    let workspace1 = Room::new(
        building1.id,
        "Workspace 1".to_string(),
        RoomType::Workspace,
        SecurityLevel::Standard,
    );
    let workspace1_id = workspace1.id;
    building1.add_room(workspace1);
    location.add_building(building1);

    // Create second building with rooms
    let mut building2 = Building::new(location.id, "Building 2".to_string());
    building2.add_room(Room::new(
        building2.id,
        "Lobby 2".to_string(),
        RoomType::Lobby,
        SecurityLevel::Public,
    ));
    let workspace2 = Room::new(
        building2.id,
        "Workspace 2".to_string(),
        RoomType::Workspace,
        SecurityLevel::Standard,
    );
    let workspace2_id = workspace2.id;
    building2.add_room(workspace2);
    location.add_building(building2);

    // Test room search across buildings
    assert!(location.contains_room(workspace1_id));
    assert!(location.contains_room(workspace2_id));

    let room1 = location.get_room(workspace1_id);
    assert!(room1.is_some());
    assert_eq!(room1.unwrap().name, "Workspace 1");

    let room2 = location.get_room(workspace2_id);
    assert!(room2.is_some());
    assert_eq!(room2.unwrap().name, "Workspace 2");

    // Test finding building for room
    let building_for_room1 = location.find_building_for_room(workspace1_id);
    assert!(building_for_room1.is_some());
    assert_eq!(building_for_room1.unwrap().name, "Building 1");

    let building_for_room2 = location.find_building_for_room(workspace2_id);
    assert!(building_for_room2.is_some());
    assert_eq!(building_for_room2.unwrap().name, "Building 2");
}

#[test]
fn test_rooms_by_type_across_buildings() {
    let mut location = Location::new("Test Location".to_string(), coords(0.0, 0.0));

    // Create buildings with different room types
    let mut building1 = Building::new(location.id, "Building 1".to_string());
    building1.add_room(Room::new(
        building1.id,
        "Lobby 1".to_string(),
        RoomType::Lobby,
        SecurityLevel::Public,
    ));
    building1.add_room(Room::new(
        building1.id,
        "Workspace 1".to_string(),
        RoomType::Workspace,
        SecurityLevel::Standard,
    ));
    location.add_building(building1);

    let mut building2 = Building::new(location.id, "Building 2".to_string());
    building2.add_room(Room::new(
        building2.id,
        "Lobby 2".to_string(),
        RoomType::Lobby,
        SecurityLevel::Public,
    ));
    building2.add_room(Room::new(
        building2.id,
        "Workspace 2".to_string(),
        RoomType::Workspace,
        SecurityLevel::Standard,
    ));
    building2.add_room(Room::new(
        building2.id,
        "Meeting Room".to_string(),
        RoomType::MeetingRoom,
        SecurityLevel::Standard,
    ));
    location.add_building(building2);

    // Test filtering by type across all buildings
    let lobbies = location.get_rooms_by_type(RoomType::Lobby);
    assert_eq!(lobbies.len(), 2);

    let workspaces = location.get_rooms_by_type(RoomType::Workspace);
    assert_eq!(workspaces.len(), 2);

    let meeting_rooms = location.get_rooms_by_type(RoomType::MeetingRoom);
    assert_eq!(meeting_rooms.len(), 1);
}

#[test]
fn test_location_validation() {
    let mut location = Location::new("Test Location".to_string(), coords(0.0, 0.0));

    // Location without buildings should fail validation
    assert!(location.validate().is_err());

    // Add a building without lobby (should fail)
    let mut building = Building::new(location.id, "Test Building".to_string());
    building.add_room(Room::new(
        building.id,
        "Workspace".to_string(),
        RoomType::Workspace,
        SecurityLevel::Standard,
    ));
    location.add_building(building);

    assert!(location.validate().is_err());

    // Add lobby to make building valid
    let building = location.get_building_mut(location.buildings[0].id).unwrap();
    building.add_room(Room::new(
        building.id,
        "Lobby".to_string(),
        RoomType::Lobby,
        SecurityLevel::Public,
    ));

    // Now validation should pass
    assert!(location.validate().is_ok());
}

#[test]
fn test_same_building_check() {
    let mut location = Location::new("Test Location".to_string(), coords(0.0, 0.0));

    // Create building with multiple rooms
    let mut building = Building::new(location.id, "Test Building".to_string());
    building.add_room(Room::new(
        building.id,
        "Lobby".to_string(),
        RoomType::Lobby,
        SecurityLevel::Public,
    ));
    let room1 = Room::new(
        building.id,
        "Room 1".to_string(),
        RoomType::Workspace,
        SecurityLevel::Standard,
    );
    let room1_id = room1.id;
    building.add_room(room1);
    let room2 = Room::new(
        building.id,
        "Room 2".to_string(),
        RoomType::Workspace,
        SecurityLevel::Standard,
    );
    let room2_id = room2.id;
    building.add_room(room2);
    location.add_building(building);

    // Create second building
    let mut building2 = Building::new(location.id, "Building 2".to_string());
    building2.add_room(Room::new(
        building2.id,
        "Lobby 2".to_string(),
        RoomType::Lobby,
        SecurityLevel::Public,
    ));
    let room3 = Room::new(
        building2.id,
        "Room 3".to_string(),
        RoomType::Workspace,
        SecurityLevel::Standard,
    );
    let room3_id = room3.id;
    building2.add_room(room3);
    location.add_building(building2);

    // Test same building check
    assert!(location.are_rooms_in_same_building(room1_id, room2_id));
    assert!(!location.are_rooms_in_same_building(room1_id, room3_id));
    assert!(!location.are_rooms_in_same_building(room2_id, room3_id));
}

#[test]
fn test_high_security_buildings() {
    let mut location = Location::new("Test Location".to_string(), coords(0.0, 0.0));

    // Building with high security rooms
    let mut building1 = Building::new(location.id, "Secure Building".to_string());
    building1.add_room(Room::new(
        building1.id,
        "Lobby".to_string(),
        RoomType::Lobby,
        SecurityLevel::Public,
    ));
    building1.add_room(Room::new(
        building1.id,
        "Server Room".to_string(),
        RoomType::ServerRoom,
        SecurityLevel::HighSecurity,
    ));
    location.add_building(building1);

    // Building without high security rooms
    let mut building2 = Building::new(location.id, "Regular Building".to_string());
    building2.add_room(Room::new(
        building2.id,
        "Lobby 2".to_string(),
        RoomType::Lobby,
        SecurityLevel::Public,
    ));
    building2.add_room(Room::new(
        building2.id,
        "Workspace".to_string(),
        RoomType::Workspace,
        SecurityLevel::Standard,
    ));
    location.add_building(building2);

    let high_security_buildings = location.get_buildings_with_high_security();
    assert_eq!(high_security_buildings.len(), 1);
    assert_eq!(high_security_buildings[0].name, "Secure Building");
}

#[test]
fn test_registry_creation() {
    let registry = LocationRegistry::new();
    assert_eq!(registry.location_count(), 0);
    assert_eq!(registry.total_building_count(), 0);
    assert_eq!(registry.total_room_count(), 0);
}

#[test]
fn test_location_management() {
    let mut registry = LocationRegistry::new();

    // Create a location with buildings and rooms
    let mut location = Location::new("Test Location".to_string(), coords(0.0, 0.0));
    let mut building = Building::new(location.id, "Test Building".to_string());
    building.add_room(Room::new(
        building.id,
        "Lobby".to_string(),
        RoomType::Lobby,
        SecurityLevel::Public,
    ));
    let room = Room::new(
        building.id,
        "Workspace".to_string(),
        RoomType::Workspace,
        SecurityLevel::Standard,
    );
    let room_id = room.id;
    building.add_room(room);
    let building_id = building.id;
    location.add_building(building);
    let location_id = location.id;
    registry.add_location(location);

    // Test lookups
    assert_eq!(registry.location_count(), 1);
    assert_eq!(registry.total_building_count(), 1);
    assert_eq!(registry.total_room_count(), 2);

    assert!(registry.location_exists(location_id));
    assert!(registry.building_exists(building_id));
    assert!(registry.room_exists(room_id));

    // Test getting entities by ID
    let retrieved_location = registry.get_location(location_id);
    assert!(retrieved_location.is_some());
    assert_eq!(retrieved_location.unwrap().name, "Test Location");

    let retrieved_building = registry.get_building(building_id);
    assert!(retrieved_building.is_some());
    assert_eq!(retrieved_building.unwrap().name, "Test Building");

    let retrieved_room = registry.get_room(room_id);
    assert!(retrieved_room.is_some());
    assert_eq!(retrieved_room.unwrap().name, "Workspace");
}

#[test]
fn test_cross_reference_lookups() {
    let mut registry = LocationRegistry::new();

    // Create a location with buildings and rooms
    let mut location = Location::new("Test Location".to_string(), coords(0.0, 0.0));
    let mut building = Building::new(location.id, "Test Building".to_string());
    building.add_room(Room::new(
        building.id,
        "Lobby".to_string(),
        RoomType::Lobby,
        SecurityLevel::Public,
    ));
    let room = Room::new(
        building.id,
        "Workspace".to_string(),
        RoomType::Workspace,
        SecurityLevel::Standard,
    );
    let room_id = room.id;
    building.add_room(room);
    let building_id = building.id;
    location.add_building(building);
    let location_id = location.id;
    registry.add_location(location);

    // Test cross-reference lookups
    let location_for_building = registry.get_location_for_building(building_id);
    assert!(location_for_building.is_some());
    assert_eq!(location_for_building.unwrap().id, location_id);

    let building_for_room = registry.get_building_for_room(room_id);
    assert!(building_for_room.is_some());
    assert_eq!(building_for_room.unwrap().id, building_id);

    let location_for_room = registry.get_location_for_room(room_id);
    assert!(location_for_room.is_some());
    assert_eq!(location_for_room.unwrap().id, location_id);
}

#[test]
fn test_registry_validation() {
    let mut registry = LocationRegistry::new();

    // Empty registry should fail validation
    assert!(registry.validate().is_err());

    // Add a valid location
    let mut location = Location::new("Test Location".to_string(), coords(0.0, 0.0));
    let mut building = Building::new(location.id, "Test Building".to_string());
    building.add_room(Room::new(
        building.id,
        "Lobby".to_string(),
        RoomType::Lobby,
        SecurityLevel::Public,
    ));
    location.add_building(building);
    registry.add_location(location);

    // Now validation should pass
    assert!(registry.validate().is_ok());
}

#[test]
fn test_access_complexity_stats() {
    let mut registry = LocationRegistry::new();

    // Create a location with various room types
    let mut location = Location::new("Test Location".to_string(), coords(0.0, 0.0));
    let mut building = Building::new(location.id, "Test Building".to_string());

    // Add lobby (public, no intermediate access)
    building.add_room(Room::new(
        building.id,
        "Lobby".to_string(),
        RoomType::Lobby,
        SecurityLevel::Public,
    ));

    // Add standard workspace (requires lobby access)
    building.add_room(Room::new(
        building.id,
        "Workspace".to_string(),
        RoomType::Workspace,
        SecurityLevel::Standard,
    ));

    // Add high-security room (requires lobby access, high security)
    building.add_room(Room::new(
        building.id,
        "Server Room".to_string(),
        RoomType::ServerRoom,
        SecurityLevel::HighSecurity,
    ));

    // Add room with intermediate access
    let mut secure_room = Room::new(
        building.id,
        "Secure Lab".to_string(),
        RoomType::Laboratory,
        SecurityLevel::MaxSecurity,
    );
    secure_room.add_intermediate_access(RoomId::new()); // Add dummy intermediate access
    building.add_room(secure_room);

    location.add_building(building);
    registry.add_location(location);

    let stats = registry.get_access_complexity_stats();
    assert_eq!(stats.total_rooms, 4);
    assert_eq!(stats.rooms_requiring_lobby, 3); // All except lobby
    assert_eq!(stats.high_security_rooms, 2); // Server room and lab
    assert_eq!(stats.rooms_with_intermediate_access, 1); // Just the lab
    assert_eq!(stats.locations, 1);
    assert_eq!(stats.buildings, 1);

    // Test percentage calculations
    assert_eq!((stats.rooms_requiring_lobby as f64 / stats.total_rooms as f64) * 100.0, 75.0); // 3/4 * 100
    assert_eq!((stats.high_security_rooms as f64 / stats.total_rooms as f64) * 100.0, 50.0); // 2/4 * 100
    assert_eq!((stats.rooms_with_intermediate_access as f64 / stats.total_rooms as f64) * 100.0, 25.0); // 1/4 * 100
}

#[test]
fn test_high_security_rooms_collection() {
    let mut registry = LocationRegistry::new();

    // Create locations with various security levels
    let mut location = Location::new("Test Location".to_string(), coords(0.0, 0.0));
    let mut building = Building::new(location.id, "Test Building".to_string());

    building.add_room(Room::new(
        building.id,
        "Lobby".to_string(),
        RoomType::Lobby,
        SecurityLevel::Public,
    ));
    building.add_room(Room::new(
        building.id,
        "Workspace".to_string(),
        RoomType::Workspace,
        SecurityLevel::Standard,
    ));
    building.add_room(Room::new(
        building.id,
        "Server Room".to_string(),
        RoomType::ServerRoom,
        SecurityLevel::HighSecurity,
    ));
    building.add_room(Room::new(
        building.id,
        "Lab".to_string(),
        RoomType::Laboratory,
        SecurityLevel::MaxSecurity,
    ));

    location.add_building(building);
    registry.add_location(location);

    let high_security_rooms = registry.get_all_high_security_rooms();
    assert_eq!(high_security_rooms.len(), 2); // Server room and lab

    let lobby_access_rooms = registry.get_all_rooms_requiring_lobby_access();
    assert_eq!(lobby_access_rooms.len(), 3); // All except lobby
}

#[test]
fn test_rebuild_indices() {
    let mut registry = LocationRegistry::new();

    // Create a location
    let mut location = Location::new("Test Location".to_string(), coords(0.0, 0.0));
    let mut building = Building::new(location.id, "Test Building".to_string());
    let room = Room::new(
        building.id,
        "Test Room".to_string(),
        RoomType::Workspace,
        SecurityLevel::Standard,
    );
    let room_id = room.id;
    building.add_room(room);
    location.add_building(building);
    registry.add_location(location);

    // Verify room exists
    assert!(registry.room_exists(room_id));

    // Modify locations directly (bypassing add_location)
    registry.locations.clear();

    // Room should still exist in index
    assert!(registry.room_exists(room_id));

    // Rebuild indices
    registry.rebuild_indices();

    // Now room should not exist
    assert!(!registry.room_exists(room_id));
}
