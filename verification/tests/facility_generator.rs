use std::collections::HashMap;

use badge_access_simulator::facility::generator::{
    building_name, location_name, room_name_for_choice, room_type_for_draw, security_level_for_draw,
    validate_configuration, BuildingGenerator, FacilityConfig, RoomGenerator,
};
use badge_access_simulator::facility::location::{Coordinates, Location};
use badge_access_simulator::types::{BuildingId, LocationId, RoomType, SecurityLevel};

fn config(
    location_count: usize,
    min_buildings_per_location: usize,
    max_buildings_per_location: usize,
    min_rooms_per_building: usize,
    max_rooms_per_building: usize,
) -> FacilityConfig {
    FacilityConfig {
        location_count,
        min_buildings_per_location,
        max_buildings_per_location,
        min_rooms_per_building,
        max_rooms_per_building,
    }
}

fn bare_location(name: &str) -> Location {
    Location::new(name.to_string(), Coordinates { latitude_bits: 0f64.to_bits(), longitude_bits: 0f64.to_bits() })
}

#[test]
fn test_building_generator() {
    let mut generator = BuildingGenerator::new();
    let location_id = LocationId::new();
    let building = generator.generate_building(location_id, "Test Building".to_string(), 5);

    assert_eq!(building.name, "Test Building");
    assert_eq!(building.location_id, location_id);
    assert_eq!(building.room_count(), 5);
    assert!(building.has_lobby());
}

#[test]
fn test_building_generator_multiple_buildings() {
    let mut generator = BuildingGenerator::new();
    let location_id = LocationId::new();
    let buildings = generator.generate_buildings(location_id, 3, 5, 10);

    assert_eq!(buildings.len(), 3);

    for building in &buildings {
        assert_eq!(building.location_id, location_id);
        assert!(building.has_lobby());
        assert!(building.room_count() >= 5);
        assert!(building.room_count() <= 10);
    }
}

#[test]
fn test_room_generator() {
    let mut generator = RoomGenerator::new();
    let building_id = BuildingId::new();

    let room = generator.generate_room(
        building_id,
        RoomType::Workspace,
        SecurityLevel::Standard,
        "Test Room".to_string(),
    );

    assert_eq!(room.building_id, building_id);
    assert_eq!(room.room_type, RoomType::Workspace);
    assert_eq!(room.security_level, SecurityLevel::Standard);
    assert_eq!(room.name, "Test Room");
}

#[test]
fn test_room_generator_random_rooms() {
    let mut generator = RoomGenerator::new();
    let building_id = BuildingId::new();
    let rooms = generator.generate_rooms(building_id, 5, true);

    assert_eq!(rooms.len(), 5);
    assert!(rooms[0].is_lobby());
    for room in &rooms {
        assert_eq!(room.building_id, building_id);
    }
}

#[test]
fn test_facility_generator_validation() {
    assert!(validate_configuration(&config(0, 1, 3, 5, 20)).is_err());
    assert!(validate_configuration(&config(1, 0, 3, 5, 20)).is_err());
    assert!(validate_configuration(&config(1, 5, 3, 5, 20)).is_err());
    assert!(validate_configuration(&config(1, 1, 2, 3, 5)).is_ok());
}

#[test]
fn test_room_type_distribution() {
    let mut generator = BuildingGenerator::new();
    let mut room_type_counts = HashMap::new();

    for _ in 0..1000 {
        let room_type = generator.select_room_type();
        *room_type_counts.entry(room_type).or_insert(0) += 1;
    }

    let workspace_count = room_type_counts.get(&RoomType::Workspace).unwrap_or(&0);
    assert!(*workspace_count > 300);

    let meeting_count = room_type_counts.get(&RoomType::MeetingRoom).unwrap_or(&0);
    assert!(*meeting_count > 100);
}

// Further cases.

#[test]
fn configuration_errors_name_the_first_failure() {
    assert_eq!(
        validate_configuration(&config(0, 0, 0, 0, 0)).unwrap_err(),
        "Location count must be greater than 0"
    );
    assert_eq!(
        validate_configuration(&config(1, 0, 3, 5, 20)).unwrap_err(),
        "Minimum buildings per location must be greater than 0"
    );
    assert_eq!(
        validate_configuration(&config(1, 5, 3, 5, 20)).unwrap_err(),
        "Minimum buildings per location cannot be greater than maximum"
    );
    assert_eq!(
        validate_configuration(&config(1, 1, 3, 0, 20)).unwrap_err(),
        "Minimum rooms per building must be greater than 0"
    );
    assert_eq!(
        validate_configuration(&config(1, 1, 3, 21, 20)).unwrap_err(),
        "Minimum rooms per building cannot be greater than maximum"
    );
}

#[test]
fn generated_buildings_are_valid_and_named_in_order() {
    let mut generator = BuildingGenerator::with_seed(7);
    let location_id = LocationId::new();
    let buildings = generator.generate_buildings(location_id, 2, 3, 3);
    assert_eq!(buildings[0].name, "Main Building");
    assert_eq!(buildings[1].name, "North Tower");
    for building in &buildings {
        assert!(building.validate().is_ok());
        assert_eq!(building.rooms[0].name, "Main Lobby");
        assert_eq!(building.rooms[0].room_type, RoomType::Lobby);
        assert_eq!(building.room_count(), 3);
    }
}

#[test]
fn seeded_generators_repeat_themselves() {
    let mut g1 = BuildingGenerator::with_seed(12345);
    let mut g2 = BuildingGenerator::with_seed(12345);
    let location_id = LocationId::new();
    let b1 = g1.generate_building(location_id, "A".to_string(), 6);
    let b2 = g2.generate_building(location_id, "A".to_string(), 6);
    let kinds1: Vec<RoomType> = b1.rooms.iter().map(|r| r.room_type).collect();
    let kinds2: Vec<RoomType> = b2.rooms.iter().map(|r| r.room_type).collect();
    assert_eq!(kinds1, kinds2);
}

#[test]
fn names_and_draw_tables() {
    assert_eq!(location_name(0), "Seattle Office");
    assert_eq!(location_name(40), "Location 41");
    assert_eq!(building_name(0), "Main Building");
    assert_eq!(building_name(12), "Building 13");
    assert_eq!(room_type_for_draw(0), RoomType::Workspace);
    assert_eq!(room_type_for_draw(99), RoomType::Laboratory);
    assert_eq!(security_level_for_draw(RoomType::ServerRoom, 0), SecurityLevel::HighSecurity);
    assert_eq!(security_level_for_draw(RoomType::ServerRoom, 7), SecurityLevel::MaxSecurity);
    assert_eq!(room_type_for_draw(40), RoomType::MeetingRoom);
    assert_eq!(security_level_for_draw(RoomType::Lobby, 0), SecurityLevel::Public);
    assert_eq!(room_name_for_choice(RoomType::Workspace, 3, 0), "Open Office 3");
}

#[test]
fn furnished_locations_stay_within_bounds() {
    let mut generator = BuildingGenerator::with_seed(42);
    let c = config(2, 1, 2, 3, 5);
    let locations = vec![bare_location("One"), bare_location("Two")];
    let registry = generator.furnish_locations(&c, locations).unwrap();

    assert_eq!(registry.location_count(), 2);
    assert!(registry.total_building_count() >= 2);
    assert!(registry.total_building_count() <= 4);
    assert!(registry.total_room_count() >= 6);
    assert!(registry.validate().is_ok());
}

#[test]
fn furnishing_no_location_fails_validation() {
    let mut generator = BuildingGenerator::with_seed(1);
    let c = config(1, 1, 2, 3, 5);
    let result = generator.furnish_locations(&c, Vec::new());
    assert_eq!(
        result.unwrap_err(),
        "Generated facility registry failed validation: Registry must have at least one location"
    );
}
