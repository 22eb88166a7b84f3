use badge_access_simulator::events::access_event::AccessEvent;
use badge_access_simulator::events::generator::{EventGenerator, EventUser, TravelLeg, TravelTable};
use badge_access_simulator::facility::building::Building;
use badge_access_simulator::facility::location::{Coordinates, Location};
use badge_access_simulator::facility::registry::LocationRegistry;
use badge_access_simulator::facility::room::Room;
use badge_access_simulator::permissions::permission_set::{PermissionLevel, PermissionSet};
use badge_access_simulator::simulation::batch_generator::{count_waiting_events_for_day, generate_events_for_single_day};
use badge_access_simulator::simulation::error::SimulationError;
use badge_access_simulator::simulation::behavior_engine::{BehaviorEngine, DayDraws, DayShiftUser};
use badge_access_simulator::simulation::statistics::ConsolidatedStatistics;
use badge_access_simulator::simulation::time_manager::TimeManager;
use badge_access_simulator::time::{TimeDelta, Timestamp, MAX_MILLIS};
use badge_access_simulator::types::{BuildingId, EventType, LocationId, RoomId, RoomType, SecurityLevel, UserId};

const DAY: i64 = 19_737;
const DAY_MILLIS: i64 = 86_400_000;

fn coords(latitude: f64, longitude: f64) -> Coordinates {
    Coordinates { latitude_bits: latitude.to_bits(), longitude_bits: longitude.to_bits() }
}

fn campus() -> (LocationRegistry, PermissionSet) {
    let mut registry = LocationRegistry::new();
    let mut location = Location::new("Campus".to_string(), coords(47.6, -122.3));
    let mut main = Building::new(location.id, "Main".to_string());
    main.add_room(Room::new(main.id, "Lobby".to_string(), RoomType::Lobby, SecurityLevel::Public));
    main.add_room(Room::new(main.id, "Desk".to_string(), RoomType::Workspace, SecurityLevel::Standard));
    main.add_room(Room::new(main.id, "Kitchen".to_string(), RoomType::Kitchen, SecurityLevel::Public));
    let mut annex = Building::new(location.id, "Annex".to_string());
    annex.add_room(Room::new(annex.id, "Restroom".to_string(), RoomType::Bathroom, SecurityLevel::Public));
    annex.add_room(Room::new(annex.id, "Board".to_string(), RoomType::MeetingRoom, SecurityLevel::Standard));
    location.add_building(main);
    location.add_building(annex);
    let mut permissions = PermissionSet::new();
    permissions.add_permission(PermissionLevel::Location(location.id));
    registry.add_location(location);
    (registry, permissions)
}

fn local_travel(registry: &LocationRegistry) -> TravelTable {
    let legs = registry
        .locations
        .iter()
        .map(|l| TravelLeg { from: l.id, to: l.id, distance_km_bits: 0.0f64.to_bits(), minimum_travel_time: TimeDelta::minutes(0) })
        .collect();
    TravelTable { legs }
}

fn users(registry: &LocationRegistry, night: &[bool]) -> (Vec<DayShiftUser>, Vec<EventUser>) {
    let location = &registry.locations[0];
    let main = &location.buildings[0];
    let mut day_users = Vec::new();
    let mut event_users = Vec::new();
    for &is_night_shift in night {
        let user_id = UserId::new();
        day_users.push(DayShiftUser {
            user_id,
            primary_location: location.id,
            primary_building: main.id,
            primary_workspace: main.rooms[1].id,
            is_curious: false,
            schedule_focused: false,
            punctual: true,
            social: true,
            bold: true,
        });
        event_users.push(EventUser {
            user_id,
            primary_workspace: main.rooms[1].id,
            primary_location: location.id,
            current_location: location.id,
            current_room: None,
            is_curious: false,
            is_night_shift,
            has_cloned_badge: false,
        });
    }
    (day_users, event_users)
}

#[test]
fn a_day_of_events_is_split_sorted_and_counted() {
    let (registry, permissions) = campus();
    let travel = local_travel(&registry);
    let (day_users, event_users) = users(&registry, &[false, true]);
    let n = day_users.len();
    let mut engine = BehaviorEngine::new(TimeManager::new());
    let mut generator = EventGenerator::new(registry.clone(), TimeManager::new());
    let mut statistics = ConsolidatedStatistics::new(2, 2, 1, 0, 0, 0, 1);
    let draws: Vec<DayDraws> = (0..n)
        .map(|_| DayDraws { meeting_reaches: Vec::new(), departure_variation_minutes: 0, tries_doors: false })
        .collect();
    let (today, later) = generate_events_for_single_day(
        &mut engine,
        &mut generator,
        &day_users,
        &event_users,
        &vec![None; n],
        &vec![permissions; n],
        &draws,
        &travel,
        DAY,
        &registry,
        &mut statistics,
    )
    .unwrap();

    assert!(!today.is_empty());
    assert!(today.windows(2).all(|w| w[0].timestamp.millis <= w[1].timestamp.millis));
    assert!(later.windows(2).all(|w| w[0].timestamp.millis <= w[1].timestamp.millis));
    assert!(today.iter().all(|e| e.timestamp.millis < (DAY + 1) * DAY_MILLIS));
    assert!(later.iter().all(|e| e.timestamp.millis >= (DAY + 1) * DAY_MILLIS));
    let ids: Vec<UserId> = event_users.iter().map(|u| u.user_id).collect();
    assert!(today.iter().chain(later.iter()).all(|e| ids.contains(&e.user_id)));
    // Both shifts end before midnight.
    assert!(later.is_empty());
    // Only the day's events are counted: night-shift events on their own
    // counter, the others in the totals.
    let night = today.iter().filter(|e| e.metadata.map_or(false, |m| m.is_night_shift_event)).count();
    assert!(night > 0);
    assert_eq!(statistics.night_shift_events, night);
    assert_eq!(statistics.total_events + night, today.len());
    assert_eq!(statistics.success_events + statistics.failure_events, statistics.total_events);
}

#[test]
fn a_day_without_users_has_no_events() {
    let (registry, _) = campus();
    let travel = local_travel(&registry);
    let mut engine = BehaviorEngine::new(TimeManager::new());
    let mut generator = EventGenerator::new(registry.clone(), TimeManager::new());
    let mut statistics = ConsolidatedStatistics::new(0, 0, 0, 0, 0, 0, 1);
    let (today, later) = generate_events_for_single_day(
        &mut engine,
        &mut generator,
        &[],
        &[],
        &[],
        &[],
        &[],
        &travel,
        DAY,
        &registry,
        &mut statistics,
    )
    .unwrap();
    assert!(today.is_empty());
    assert!(later.is_empty());
    assert_eq!(statistics.total_events, 0);
}

fn event_at(millis: i64, success: bool) -> AccessEvent {
    let kind = if success { EventType::Success } else { EventType::Failure };
    AccessEvent::new(Timestamp::from_millis(millis), UserId::new(), RoomId::new(), BuildingId::new(), LocationId::new(), success, kind)
}

#[test]
fn waiting_events_are_counted_on_their_own_day() {
    let next = (DAY + 1) * DAY_MILLIS;
    let pending = vec![
        event_at(next + 60_000, true),
        event_at(next + 2 * DAY_MILLIS, true),
        event_at(next + 120_000, false),
    ];
    let mut statistics = ConsolidatedStatistics::new(1, 1, 1, 1, 0, 0, 0);
    count_waiting_events_for_day(&pending, DAY, &mut statistics).unwrap();
    assert_eq!(statistics.total_events, 0);
    count_waiting_events_for_day(&pending, DAY + 1, &mut statistics).unwrap();
    assert_eq!(statistics.total_events, 2);
    assert_eq!(statistics.success_events, 1);
    assert_eq!(statistics.failure_events, 1);
    count_waiting_events_for_day(&pending, DAY + 3, &mut statistics).unwrap();
    assert_eq!(statistics.total_events, 3);
    assert_eq!(statistics.success_events, 2);
}

#[test]
fn waiting_events_out_of_range_are_refused() {
    let pending = vec![event_at(MAX_MILLIS + 1, true)];
    let day = (MAX_MILLIS + 1) / DAY_MILLIS;
    let mut statistics = ConsolidatedStatistics::new(1, 1, 1, 1, 0, 0, 0);
    let r = count_waiting_events_for_day(&pending, day, &mut statistics);
    assert!(matches!(r, Err(SimulationError::TimeError(_))));
    assert_eq!(statistics.total_events, 0);
}

#[test]
fn registry_and_travel_table_are_checked_before_a_day() {
    let (mut registry, _) = campus();
    registry.rebuild_indices();
    assert!(registry.checkpoints_bounded());
    assert!(local_travel(&registry).covers_registry(&registry));
    assert!(!TravelTable { legs: Vec::new() }.covers_registry(&registry));
}
