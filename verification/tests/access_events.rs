use badge_access_simulator::events::access_event::{AccessAttempt, AccessEvent, EventMetadata, FilteredAccessEvent};
use badge_access_simulator::time::{TimeDelta, Timestamp};
use badge_access_simulator::types::{BuildingId, EventType, FailureReason, LocationId, OutputFieldConfig, RoomId, UserId};

#[test]
fn test_access_attempt_creation() {
    let user_id = UserId::new();
    let room_id = RoomId::new();
    let timestamp = Timestamp::now();

    let attempt = AccessAttempt::new(user_id, room_id, true, timestamp);

    assert_eq!(attempt.user_id, user_id);
    assert_eq!(attempt.target_room, room_id);
    assert!(attempt.is_authorized);
    assert_eq!(attempt.timestamp, timestamp);
    assert!(attempt.should_succeed());

    let unauthorized_attempt = AccessAttempt::new(user_id, room_id, false, timestamp);
    assert!(!unauthorized_attempt.should_succeed());
}

#[test]
fn test_access_event_creation() {
    let timestamp = Timestamp::now();
    let user_id = UserId::new();
    let room_id = RoomId::new();
    let building_id = BuildingId::new();
    let location_id = LocationId::new();

    let event = AccessEvent::new(
        timestamp,
        user_id,
        room_id,
        building_id,
        location_id,
        true,
        EventType::Success,
    );

    assert_eq!(event.timestamp, timestamp);
    assert_eq!(event.user_id, user_id);
    assert_eq!(event.room_id, room_id);
    assert_eq!(event.building_id, building_id);
    assert_eq!(event.location_id, location_id);
    assert!(event.success);
    assert_eq!(event.event_type, EventType::Success);
    assert!(event.is_successful());
    assert!(!event.is_failed());
    assert!(event.failure_reason.is_none());
    assert!(event.metadata.is_none());
}

#[test]
fn test_access_event_from_attempt() {
    let user_id = UserId::new();
    let room_id = RoomId::new();
    let building_id = BuildingId::new();
    let location_id = LocationId::new();
    let timestamp = Timestamp::now();

    let attempt = AccessAttempt::new(user_id, room_id, true, timestamp);
    let event = AccessEvent::from_access_attempt(&attempt, building_id, location_id);

    assert_eq!(event.timestamp, timestamp);
    assert_eq!(event.user_id, user_id);
    assert_eq!(event.room_id, room_id);
    assert_eq!(event.building_id, building_id);
    assert_eq!(event.location_id, location_id);
    assert!(event.success);
    assert_eq!(event.event_type, EventType::Success);
}

#[test]
fn test_failed_access_event() {
    let user_id = UserId::new();
    let room_id = RoomId::new();
    let building_id = BuildingId::new();
    let location_id = LocationId::new();
    let timestamp = Timestamp::now();

    let failed_attempt = AccessAttempt::new(user_id, room_id, false, timestamp);
    let failed_event =
        AccessEvent::from_access_attempt(&failed_attempt, building_id, location_id);

    assert!(!failed_event.success);
    assert_eq!(failed_event.event_type, EventType::Failure);
    assert!(!failed_event.is_successful());
    assert!(failed_event.is_failed());
    assert_eq!(failed_event.failure_reason, Some(FailureReason::Unauthorized));
}

#[test]
fn test_event_type_checks() {
    let timestamp = Timestamp::now();
    let user_id = UserId::new();
    let room_id = RoomId::new();
    let building_id = BuildingId::new();
    let location_id = LocationId::new();

    let outside_hours_event = AccessEvent::new_with_failure_info(
        timestamp,
        user_id,
        room_id,
        building_id,
        location_id,
        false,
        EventType::OutsideHours,
        Some(FailureReason::OutsideHours),
        None,
    );

    assert!(outside_hours_event.is_outside_hours());
    assert!(!outside_hours_event.is_suspicious());

    let suspicious_event = AccessEvent::new(
        timestamp,
        user_id,
        room_id,
        building_id,
        location_id,
        false,
        EventType::Suspicious,
    );

    assert!(!suspicious_event.is_outside_hours());
    assert!(suspicious_event.is_suspicious());
}

#[test]
fn test_badge_reader_failure_event() {
    let timestamp = Timestamp::now();
    let user_id = UserId::new();
    let room_id = RoomId::new();
    let building_id = BuildingId::new();
    let location_id = LocationId::new();

    // Test badge technical failure event
    let badge_reader_failure_event = AccessEvent::new_with_failure_info(
        timestamp,
        user_id,
        room_id,
        building_id,
        location_id,
        false,
        EventType::Failure,
        Some(FailureReason::BadgeReaderError),
        Some(EventMetadata::badge_reader_failure(None)),
    );

    assert!(!badge_reader_failure_event.success);
    assert_eq!(badge_reader_failure_event.event_type, EventType::Failure);
    assert_eq!(badge_reader_failure_event.failure_reason, Some(FailureReason::BadgeReaderError));
    assert!(badge_reader_failure_event.is_badge_reader_failure());
    assert!(!badge_reader_failure_event.is_curious_attempt());
    assert!(!badge_reader_failure_event.is_impossible_traveler());
    assert_eq!(badge_reader_failure_event.get_retry_attempt_number(), None);

    // Test successful retry event
    let retry_event = AccessEvent::new_with_failure_info(
        timestamp,
        user_id,
        room_id,
        building_id,
        location_id,
        true,
        EventType::Success,
        None,
        Some(EventMetadata::badge_reader_failure(Some(1))),
    );

    assert!(retry_event.success);
    assert_eq!(retry_event.event_type, EventType::Success);
    assert!(retry_event.failure_reason.is_none());
    assert!(!retry_event.is_badge_reader_failure());
    assert_eq!(retry_event.get_retry_attempt_number(), Some(1));
}

#[test]
fn test_event_metadata_creation() {
    // Test default metadata
    let default_metadata = EventMetadata::new();
    assert!(!default_metadata.is_curious_attempt);
    assert!(!default_metadata.is_impossible_traveler);
    assert!(!default_metadata.is_badge_reader_failure);
    assert!(default_metadata.retry_attempt_number.is_none());

    // Test curious attempt metadata
    let curious_metadata = EventMetadata::curious_attempt();
    assert!(curious_metadata.is_curious_attempt);
    assert!(!curious_metadata.is_impossible_traveler);
    assert!(!curious_metadata.is_badge_reader_failure);

    // Test impossible traveler metadata
    let travel_time = TimeDelta::hours(2);
    let distance: f64 = 1000.0;
    let impossible_metadata = EventMetadata::impossible_traveler(travel_time, distance.to_bits());
    assert!(!impossible_metadata.is_curious_attempt);
    assert!(impossible_metadata.is_impossible_traveler);
    assert!(!impossible_metadata.is_badge_reader_failure);
    assert_eq!(impossible_metadata.travel_time_violation, Some(travel_time));
    assert_eq!(impossible_metadata.geographical_distance, Some(distance.to_bits()));

    // Test badge technical failure metadata
    let badge_failure_metadata = EventMetadata::badge_reader_failure(Some(2));
    assert!(!badge_failure_metadata.is_curious_attempt);
    assert!(!badge_failure_metadata.is_impossible_traveler);
    assert!(badge_failure_metadata.is_badge_reader_failure);
    assert_eq!(badge_failure_metadata.retry_attempt_number, Some(2));
}

#[test]
fn test_filtered_access_event_minimal_output() {
    let timestamp = Timestamp::now();
    let user_id = UserId::new();
    let room_id = RoomId::new();
    let building_id = BuildingId::new();
    let location_id = LocationId::new();

    let event = AccessEvent::new_with_failure_info(
        timestamp,
        user_id,
        room_id,
        building_id,
        location_id,
        false,
        EventType::Failure,
        Some(FailureReason::Unauthorized),
        Some(EventMetadata::curious_attempt()),
    );

    // Test minimal output (default configuration)
    let field_config = OutputFieldConfig::default();
    let filtered_event = FilteredAccessEvent::from_access_event(&event, &field_config);

    // Core fields should be present
    assert_eq!(filtered_event.timestamp, timestamp);
    assert_eq!(filtered_event.user_id, user_id);
    assert_eq!(filtered_event.room_id, room_id);
    assert_eq!(filtered_event.building_id, building_id);
    assert_eq!(filtered_event.location_id, location_id);
    assert!(!filtered_event.success);

    // Optional fields should be None
    assert!(filtered_event.event_type.is_none());
    assert!(filtered_event.failure_reason.is_none());
    assert!(filtered_event.metadata.is_none());
}

#[test]
fn test_filtered_access_event_with_failure_reason() {
    let timestamp = Timestamp::now();
    let user_id = UserId::new();
    let room_id = RoomId::new();
    let building_id = BuildingId::new();
    let location_id = LocationId::new();

    let event = AccessEvent::new_with_failure_info(
        timestamp,
        user_id,
        room_id,
        building_id,
        location_id,
        false,
        EventType::Failure,
        Some(FailureReason::Unauthorized),
        Some(EventMetadata::curious_attempt()),
    );

    // Test with failure_reason enabled
    let field_config = OutputFieldConfig {
        include_failure_reason: true,
        include_event_type: false,
        include_metadata: false,
        include_all: false,
    };
    let filtered_event = FilteredAccessEvent::from_access_event(&event, &field_config);

    // Core fields should be present
    assert_eq!(filtered_event.timestamp, timestamp);
    assert_eq!(filtered_event.user_id, user_id);
    assert!(!filtered_event.success);

    // Only failure_reason should be included
    assert!(filtered_event.event_type.is_none());
    assert_eq!(filtered_event.failure_reason, Some(FailureReason::Unauthorized));
    assert!(filtered_event.metadata.is_none());
}

#[test]
fn test_filtered_access_event_with_event_type() {
    let timestamp = Timestamp::now();
    let user_id = UserId::new();
    let room_id = RoomId::new();
    let building_id = BuildingId::new();
    let location_id = LocationId::new();

    let event = AccessEvent::new_with_failure_info(
        timestamp,
        user_id,
        room_id,
        building_id,
        location_id,
        false,
        EventType::Suspicious,
        Some(FailureReason::Unauthorized),
        Some(EventMetadata::curious_attempt()),
    );

    // Test with event_type enabled
    let field_config = OutputFieldConfig {
        include_failure_reason: false,
        include_event_type: true,
        include_metadata: false,
        include_all: false,
    };
    let filtered_event = FilteredAccessEvent::from_access_event(&event, &field_config);

    // Only event_type should be included
    assert_eq!(filtered_event.event_type, Some(EventType::Suspicious));
    assert!(filtered_event.failure_reason.is_none());
    assert!(filtered_event.metadata.is_none());
}

#[test]
fn test_filtered_access_event_with_metadata() {
    let timestamp = Timestamp::now();
    let user_id = UserId::new();
    let room_id = RoomId::new();
    let building_id = BuildingId::new();
    let location_id = LocationId::new();

    let metadata = EventMetadata::curious_attempt();
    let event = AccessEvent::new_with_failure_info(
        timestamp,
        user_id,
        room_id,
        building_id,
        location_id,
        false,
        EventType::Failure,
        Some(FailureReason::CuriousUser),
        Some(metadata.clone()),
    );

    // Test with metadata enabled
    let field_config = OutputFieldConfig {
        include_failure_reason: false,
        include_event_type: false,
        include_metadata: true,
        include_all: false,
    };
    let filtered_event = FilteredAccessEvent::from_access_event(&event, &field_config);

    // Only metadata should be included
    assert!(filtered_event.event_type.is_none());
    assert!(filtered_event.failure_reason.is_none());
    assert!(filtered_event.metadata.is_some());
    assert!(filtered_event.metadata.as_ref().unwrap().is_curious_attempt);
}

#[test]
fn test_filtered_access_event_with_all_fields() {
    let timestamp = Timestamp::now();
    let user_id = UserId::new();
    let room_id = RoomId::new();
    let building_id = BuildingId::new();
    let location_id = LocationId::new();

    let metadata = EventMetadata::impossible_traveler(TimeDelta::hours(1), 500.0f64.to_bits());
    let event = AccessEvent::new_with_failure_info(
        timestamp,
        user_id,
        room_id,
        building_id,
        location_id,
        false,
        EventType::Suspicious,
        Some(FailureReason::ImpossibleTraveler),
        Some(metadata.clone()),
    );

    // Test with all fields enabled
    let field_config = OutputFieldConfig {
        include_failure_reason: false,
        include_event_type: false,
        include_metadata: false,
        include_all: true,
    };
    let filtered_event = FilteredAccessEvent::from_access_event(&event, &field_config);

    // All fields should be included when include_all is true
    assert_eq!(filtered_event.event_type, Some(EventType::Suspicious));
    assert_eq!(filtered_event.failure_reason, Some(FailureReason::ImpossibleTraveler));
    assert!(filtered_event.metadata.is_some());
    assert!(filtered_event.metadata.as_ref().unwrap().is_impossible_traveler);
}

#[test]
fn test_filtered_access_event_include_all_overrides_individual_settings() {
    let timestamp = Timestamp::now();
    let user_id = UserId::new();
    let room_id = RoomId::new();
    let building_id = BuildingId::new();
    let location_id = LocationId::new();

    let event = AccessEvent::new_with_failure_info(
        timestamp,
        user_id,
        room_id,
        building_id,
        location_id,
        false,
        EventType::Failure,
        Some(FailureReason::Unauthorized),
        Some(EventMetadata::curious_attempt()),
    );

    // Test that include_all overrides individual settings
    let field_config = OutputFieldConfig {
        include_failure_reason: false,
        include_event_type: false,
        include_metadata: false,
        include_all: true,
    };
    let filtered_event = FilteredAccessEvent::from_access_event(&event, &field_config);

    // All fields should be included despite individual settings being false
    assert_eq!(filtered_event.event_type, Some(EventType::Failure));
    assert_eq!(filtered_event.failure_reason, Some(FailureReason::Unauthorized));
    assert!(filtered_event.metadata.is_some());
}

#[test]
fn test_filtered_access_event_field_names() {
    // Test core field names
    let core_fields = FilteredAccessEvent::get_core_field_names();
    assert_eq!(core_fields, vec![
        "timestamp", "user_id", "room_id", "building_id", "location_id", "success"
    ]);

    // Test optional field names with minimal config
    let minimal_config = OutputFieldConfig::default();
    let optional_fields = FilteredAccessEvent::get_optional_field_names(&minimal_config);
    assert!(optional_fields.is_empty());

    // Test optional field names with individual fields enabled
    let partial_config = OutputFieldConfig {
        include_failure_reason: true,
        include_event_type: false,
        include_metadata: true,
        include_all: false,
    };
    let optional_fields = FilteredAccessEvent::get_optional_field_names(&partial_config);
    assert_eq!(optional_fields, vec!["failure_reason", "metadata"]);

    // Test optional field names with all fields enabled
    let all_config = OutputFieldConfig {
        include_failure_reason: false,
        include_event_type: false,
        include_metadata: false,
        include_all: true,
    };
    let optional_fields = FilteredAccessEvent::get_optional_field_names(&all_config);
    assert_eq!(optional_fields, vec!["event_type", "failure_reason", "metadata"]);

    // Test all field names
    let all_fields = FilteredAccessEvent::get_all_field_names(&all_config);
    assert_eq!(all_fields, vec![
        "timestamp", "user_id", "room_id", "building_id", "location_id", "success",
        "event_type", "failure_reason", "metadata"
    ]);
}
