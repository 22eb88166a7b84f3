use badge_access_simulator::facility::building::Building;
use badge_access_simulator::facility::room::Room;
use badge_access_simulator::types::{BuildingId, LocationId, RoomId, RoomType, SecurityLevel};

#[test]
fn test_room_creation() {
    let building_id = BuildingId::new();
    let room = Room::new(
        building_id,
        "Test Room".to_string(),
        RoomType::Workspace,
        SecurityLevel::Standard,
    );

    assert_eq!(room.building_id, building_id);
    assert_eq!(room.name, "Test Room");
    assert_eq!(room.room_type, RoomType::Workspace);
    assert_eq!(room.security_level, SecurityLevel::Standard);
    assert!(room.required_intermediate_access.is_empty());
}

#[test]
fn test_room_with_intermediate_access() {
    let building_id = BuildingId::new();
    let intermediate_room = RoomId::new();
    let room = Room::new_with_intermediate_access(
        building_id,
        "Secure Room".to_string(),
        RoomType::ServerRoom,
        SecurityLevel::HighSecurity,
        vec![intermediate_room],
    );

    assert!(room.requires_intermediate_access());
    assert_eq!(room.get_intermediate_access_rooms(), &[intermediate_room]);
}

#[test]
fn test_lobby_identification() {
    let building_id = BuildingId::new();
    let lobby = Room::new(
        building_id,
        "Main Lobby".to_string(),
        RoomType::Lobby,
        SecurityLevel::Public,
    );

    assert!(lobby.is_lobby());
    assert!(lobby.is_public());
    assert!(!lobby.is_high_security());
}

#[test]
fn test_high_security_room() {
    let building_id = BuildingId::new();
    let server_room = Room::new(
        building_id,
        "Server Room".to_string(),
        RoomType::ServerRoom,
        SecurityLevel::HighSecurity,
    );

    assert!(server_room.is_high_security());
    assert!(!server_room.is_public());
    assert!(!server_room.is_lobby());
}

#[test]
fn test_intermediate_access_management() {
    let building_id = BuildingId::new();
    let mut room = Room::new(
        building_id,
        "Test Room".to_string(),
        RoomType::Laboratory,
        SecurityLevel::MaxSecurity,
    );

    let checkpoint1 = RoomId::new();
    let checkpoint2 = RoomId::new();

    // Initially no intermediate access required
    assert!(!room.requires_intermediate_access());

    // Add intermediate access requirements
    room.add_intermediate_access(checkpoint1);
    room.add_intermediate_access(checkpoint2);

    assert!(room.requires_intermediate_access());
    assert_eq!(room.get_intermediate_access_rooms().len(), 2);
    assert!(room.get_intermediate_access_rooms().contains(&checkpoint1));
    assert!(room.get_intermediate_access_rooms().contains(&checkpoint2));

    // Adding the same room again should not duplicate
    room.add_intermediate_access(checkpoint1);
    assert_eq!(room.get_intermediate_access_rooms().len(), 2);

    // Remove intermediate access requirement
    room.remove_intermediate_access(checkpoint1);
    assert_eq!(room.get_intermediate_access_rooms().len(), 1);
    assert!(!room.get_intermediate_access_rooms().contains(&checkpoint1));
    assert!(room.get_intermediate_access_rooms().contains(&checkpoint2));

    // Remove last requirement
    room.remove_intermediate_access(checkpoint2);
    assert!(!room.requires_intermediate_access());
    assert!(room.get_intermediate_access_rooms().is_empty());
}

#[test]
fn test_security_level_checks() {
    let building_id = BuildingId::new();

    let public_room = Room::new(
        building_id,
        "Public Room".to_string(),
        RoomType::Cafeteria,
        SecurityLevel::Public,
    );
    assert!(public_room.is_public());
    assert!(!public_room.is_high_security());

    let standard_room = Room::new(
        building_id,
        "Standard Room".to_string(),
        RoomType::Workspace,
        SecurityLevel::Standard,
    );
    assert!(!standard_room.is_public());
    assert!(!standard_room.is_high_security());

    let restricted_room = Room::new(
        building_id,
        "Restricted Room".to_string(),
        RoomType::ExecutiveOffice,
        SecurityLevel::Restricted,
    );
    assert!(!restricted_room.is_public());
    assert!(!restricted_room.is_high_security());

    let high_security_room = Room::new(
        building_id,
        "High Security Room".to_string(),
        RoomType::ServerRoom,
        SecurityLevel::HighSecurity,
    );
    assert!(!high_security_room.is_public());
    assert!(high_security_room.is_high_security());

    let max_security_room = Room::new(
        building_id,
        "Max Security Room".to_string(),
        RoomType::Laboratory,
        SecurityLevel::MaxSecurity,
    );
    assert!(!max_security_room.is_public());
    assert!(max_security_room.is_high_security());
}

#[test]
fn test_building_creation() {
    let location_id = LocationId::new();
    let building = Building::new(location_id, "Test Building".to_string());

    assert_eq!(building.location_id, location_id);
    assert_eq!(building.name, "Test Building");
    assert!(building.rooms.is_empty());
    assert!(!building.has_lobby());
}

#[test]
fn test_room_management() {
    let location_id = LocationId::new();
    let mut building = Building::new(location_id, "Test Building".to_string());

    // Add a lobby room
    let lobby = Room::new(
        building.id,
        "Main Lobby".to_string(),
        RoomType::Lobby,
        SecurityLevel::Public,
    );
    let lobby_id = lobby.id;
    building.add_room(lobby);

    assert!(building.has_lobby());
    assert_eq!(building.lobby_room_id, Some(lobby_id));
    assert_eq!(building.room_count(), 1);

    // Add a workspace
    let workspace = Room::new(
        building.id,
        "Workspace 1".to_string(),
        RoomType::Workspace,
        SecurityLevel::Standard,
    );
    let workspace_id = workspace.id;
    building.add_room(workspace);

    assert_eq!(building.room_count(), 2);
    assert!(building.contains_room(workspace_id));

    // Get room by ID
    let retrieved_room = building.get_room(workspace_id);
    assert!(retrieved_room.is_some());
    assert_eq!(retrieved_room.unwrap().name, "Workspace 1");

    // Remove room
    let removed_room = building.remove_room(workspace_id);
    assert!(removed_room.is_some());
    assert_eq!(building.room_count(), 1);
    assert!(!building.contains_room(workspace_id));
}

#[test]
fn test_lobby_management() {
    let location_id = LocationId::new();
    let mut building = Building::new(location_id, "Test Building".to_string());

    // Add a lobby room
    let lobby = Room::new(
        building.id,
        "Main Lobby".to_string(),
        RoomType::Lobby,
        SecurityLevel::Public,
    );
    let lobby_id = lobby.id;
    building.add_room(lobby);

    // Check lobby access
    assert!(building.has_lobby());
    let lobby_room = building.get_lobby_room();
    assert!(lobby_room.is_some());
    assert_eq!(lobby_room.unwrap().id, lobby_id);

    // Remove lobby
    building.remove_room(lobby_id);
    assert!(!building.has_lobby());
    assert!(building.get_lobby_room().is_none());
}

#[test]
fn test_rooms_by_type() {
    let location_id = LocationId::new();
    let mut building = Building::new(location_id, "Test Building".to_string());

    // Add various room types
    building.add_room(Room::new(
        building.id,
        "Lobby".to_string(),
        RoomType::Lobby,
        SecurityLevel::Public,
    ));
    building.add_room(Room::new(
        building.id,
        "Workspace 1".to_string(),
        RoomType::Workspace,
        SecurityLevel::Standard,
    ));
    building.add_room(Room::new(
        building.id,
        "Workspace 2".to_string(),
        RoomType::Workspace,
        SecurityLevel::Standard,
    ));
    building.add_room(Room::new(
        building.id,
        "Meeting Room".to_string(),
        RoomType::MeetingRoom,
        SecurityLevel::Standard,
    ));

    // Test filtering by type
    let workspaces = building.get_rooms_by_type(RoomType::Workspace);
    assert_eq!(workspaces.len(), 2);

    let lobbies = building.get_rooms_by_type(RoomType::Lobby);
    assert_eq!(lobbies.len(), 1);

    let meeting_rooms = building.get_rooms_by_type(RoomType::MeetingRoom);
    assert_eq!(meeting_rooms.len(), 1);
}

#[test]
fn test_rooms_by_security_level() {
    let location_id = LocationId::new();
    let mut building = Building::new(location_id, "Test Building".to_string());

    // Add rooms with different security levels
    building.add_room(Room::new(
        building.id,
        "Public Room".to_string(),
        RoomType::Cafeteria,
        SecurityLevel::Public,
    ));
    building.add_room(Room::new(
        building.id,
        "Standard Room".to_string(),
        RoomType::Workspace,
        SecurityLevel::Standard,
    ));
    building.add_room(Room::new(
        building.id,
        "High Security Room".to_string(),
        RoomType::ServerRoom,
        SecurityLevel::HighSecurity,
    ));

    // Test filtering by security level
    let public_rooms = building.get_rooms_by_security_level(SecurityLevel::Public);
    assert_eq!(public_rooms.len(), 1);

    let standard_rooms = building.get_rooms_by_security_level(SecurityLevel::Standard);
    assert_eq!(standard_rooms.len(), 1);

    let high_security_rooms = building.get_rooms_by_security_level(SecurityLevel::HighSecurity);
    assert_eq!(high_security_rooms.len(), 1);
}

#[test]
fn test_building_validation() {
    let location_id = LocationId::new();
    let mut building = Building::new(location_id, "Test Building".to_string());

    // Building without lobby should fail validation
    assert!(building.validate().is_err());

    // Add lobby
    building.add_room(Room::new(
        building.id,
        "Main Lobby".to_string(),
        RoomType::Lobby,
        SecurityLevel::Public,
    ));

    // Now validation should pass
    assert!(building.validate().is_ok());
}

#[test]
fn test_high_security_rooms() {
    let location_id = LocationId::new();
    let mut building = Building::new(location_id, "Test Building".to_string());

    // Add lobby first
    building.add_room(Room::new(
        building.id,
        "Lobby".to_string(),
        RoomType::Lobby,
        SecurityLevel::Public,
    ));

    // Add various security level rooms
    building.add_room(Room::new(
        building.id,
        "Standard Room".to_string(),
        RoomType::Workspace,
        SecurityLevel::Standard,
    ));
    building.add_room(Room::new(
        building.id,
        "High Security Room".to_string(),
        RoomType::ServerRoom,
        SecurityLevel::HighSecurity,
    ));
    building.add_room(Room::new(
        building.id,
        "Max Security Room".to_string(),
        RoomType::Laboratory,
        SecurityLevel::MaxSecurity,
    ));

    let high_security_rooms = building.get_high_security_rooms();
    assert_eq!(high_security_rooms.len(), 2); // HighSecurity and MaxSecurity
}

#[test]
fn test_rooms_requiring_lobby_access() {
    let location_id = LocationId::new();
    let mut building = Building::new(location_id, "Test Building".to_string());

    // Add lobby
    building.add_room(Room::new(
        building.id,
        "Lobby".to_string(),
        RoomType::Lobby,
        SecurityLevel::Public,
    ));

    // Add other rooms
    building.add_room(Room::new(
        building.id,
        "Workspace".to_string(),
        RoomType::Workspace,
        SecurityLevel::Standard,
    ));
    building.add_room(Room::new(
        building.id,
        "Meeting Room".to_string(),
        RoomType::MeetingRoom,
        SecurityLevel::Standard,
    ));

    let rooms_requiring_lobby = building.get_rooms_requiring_lobby_access();
    assert_eq!(rooms_requiring_lobby.len(), 2); // All non-lobby rooms
}
