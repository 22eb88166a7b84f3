//! Access attempts, access events, and the fields of an event that output keeps.

use vstd::prelude::*;
use crate::time::{TimeDelta, Timestamp};
use crate::types::{BuildingId, EventType, FailureReason, LocationId, OutputFieldConfig, RoomId, UserId};

verus! {

/// Failure-specific information attached to an event.
#[derive(Clone, Copy, Debug, PartialEq, Eq, Structural)]
pub struct EventMetadata {
    /// The user tried a room out of curiosity, without authorization.
    pub is_curious_attempt: bool,
    /// The event could not physically follow the user's previous one.
    pub is_impossible_traveler: bool,
    /// The badge reader failed.
    pub is_badge_reader_failure: bool,
    /// A night-shift user badged outside business hours.
    pub is_night_shift_event: bool,
    /// Which retry after a badge reader failure this is (1 for the first).
    pub retry_attempt_number: Option<u8>,
    /// How much travel time was missing, for an impossible traveler.
    pub travel_time_violation: Option<TimeDelta>,
    /// Distance travelled in kilometres, for an impossible traveler, held
    /// as the bit pattern of an IEEE-754 double (`f64::to_bits`).
    pub geographical_distance: Option<u64>,
}

/// Metadata with no flag set and no detail.
pub open spec fn plain_metadata() -> EventMetadata {
    EventMetadata {
        is_curious_attempt: false,
        is_impossible_traveler: false,
        is_badge_reader_failure: false,
        is_night_shift_event: false,
        retry_attempt_number: None,
        travel_time_violation: None,
        geographical_distance: None,
    }
}

impl EventMetadata {
    /// Metadata with no flag set and no detail.
    pub fn new() -> (m: Self)
        ensures
            m == plain_metadata(),
    {
        EventMetadata {
            is_curious_attempt: false,
            is_impossible_traveler: false,
            is_badge_reader_failure: false,
            is_night_shift_event: false,
            retry_attempt_number: None,
            travel_time_violation: None,
            geographical_distance: None,
        }
    }

    /// Metadata of a curious user's attempt.
    pub fn curious_attempt() -> (m: Self)
        ensures
            m == (EventMetadata { is_curious_attempt: true, ..plain_metadata() }),
    {
        EventMetadata { is_curious_attempt: true, ..EventMetadata::new() }
    }

    /// Metadata of an impossible traveler, with the missing travel time and
    /// the distance (as `f64` bits).
    pub fn impossible_traveler(travel_time_violation: TimeDelta, geographical_distance: u64) -> (m: Self)
        ensures
            m == (EventMetadata {
                is_impossible_traveler: true,
                travel_time_violation: Some(travel_time_violation),
                geographical_distance: Some(geographical_distance),
                ..plain_metadata()
            }),
    {
        EventMetadata {
            is_impossible_traveler: true,
            travel_time_violation: Some(travel_time_violation),
            geographical_distance: Some(geographical_distance),
            ..EventMetadata::new()
        }
    }

    /// Metadata of a badge reader failure, with the retry it belongs to.
    pub fn badge_reader_failure(retry_attempt_number: Option<u8>) -> (m: Self)
        ensures
            m == (EventMetadata { is_badge_reader_failure: true, retry_attempt_number, ..plain_metadata() }),
    {
        EventMetadata { is_badge_reader_failure: true, retry_attempt_number, ..EventMetadata::new() }
    }

    /// Metadata of a night-shift user's event outside business hours.
    pub fn night_shift_event() -> (m: Self)
        ensures
            m == (EventMetadata { is_night_shift_event: true, ..plain_metadata() }),
    {
        EventMetadata { is_night_shift_event: true, ..EventMetadata::new() }
    }
}

impl Default for EventMetadata {
    /// Metadata with no flag set and no detail.
    fn default() -> (m: Self)
        ensures
            m == plain_metadata(),
    {
        EventMetadata::new()
    }
}

/// A user's attempt to enter a room.
#[derive(Clone, Copy, Debug, PartialEq, Eq, Structural)]
pub struct AccessAttempt {
    /// The user.
    pub user_id: UserId,
    /// The room.
    pub target_room: RoomId,
    /// Whether the user may enter the room.
    pub is_authorized: bool,
    /// When the attempt happens.
    pub timestamp: Timestamp,
}

impl AccessAttempt {
    /// An attempt with the given parts.
    pub fn new(user_id: UserId, target_room: RoomId, is_authorized: bool, timestamp: Timestamp) -> (a: Self)
        ensures
            a == (AccessAttempt { user_id, target_room, is_authorized, timestamp }),
    {
        AccessAttempt { user_id, target_room, is_authorized, timestamp }
    }

    /// Whether the attempt succeeds: exactly when it is authorized.
    pub fn should_succeed(&self) -> (b: bool)
        ensures
            b == self.is_authorized,
    {
        self.is_authorized
    }
}

/// A badge event: who tried which room, when, and with what outcome.
#[derive(Clone, Copy, Debug, PartialEq, Eq, Structural)]
pub struct AccessEvent {
    /// When the event occurred.
    pub timestamp: Timestamp,
    /// The user.
    pub user_id: UserId,
    /// The room.
    pub room_id: RoomId,
    /// The building of the room.
    pub building_id: BuildingId,
    /// The location of the building.
    pub location_id: LocationId,
    /// Whether the user got in.
    pub success: bool,
    /// The kind of event.
    pub event_type: EventType,
    /// Why the attempt failed, when it did and the reason is known.
    pub failure_reason: Option<FailureReason>,
    /// Additional information.
    pub metadata: Option<EventMetadata>,
}

impl AccessEvent {
    /// An event without failure reason or metadata.
    pub fn new(
        timestamp: Timestamp,
        user_id: UserId,
        room_id: RoomId,
        building_id: BuildingId,
        location_id: LocationId,
        success: bool,
        event_type: EventType,
    ) -> (e: Self)
        ensures
            e == (AccessEvent {
                timestamp,
                user_id,
                room_id,
                building_id,
                location_id,
                success,
                event_type,
                failure_reason: None,
                metadata: None,
            }),
    {
        AccessEvent {
            timestamp,
            user_id,
            room_id,
            building_id,
            location_id,
            success,
            event_type,
            failure_reason: None,
            metadata: None,
        }
    }

    /// An event with its failure reason and metadata.
    pub fn new_with_failure_info(
        timestamp: Timestamp,
        user_id: UserId,
        room_id: RoomId,
        building_id: BuildingId,
        location_id: LocationId,
        success: bool,
        event_type: EventType,
        failure_reason: Option<FailureReason>,
        metadata: Option<EventMetadata>,
    ) -> (e: Self)
        ensures
            e == (AccessEvent {
                timestamp,
                user_id,
                room_id,
                building_id,
                location_id,
                success,
                event_type,
                failure_reason,
                metadata,
            }),
    {
        AccessEvent {
            timestamp,
            user_id,
            room_id,
            building_id,
            location_id,
            success,
            event_type,
            failure_reason,
            metadata,
        }
    }

    /// The event of an attempt in the given building and location: a
    /// success when authorized, otherwise a failure for lack of authorization.
    pub fn from_access_attempt(attempt: &AccessAttempt, building_id: BuildingId, location_id: LocationId) -> (e: Self)
        ensures
            e == (AccessEvent {
                timestamp: attempt.timestamp,
                user_id: attempt.user_id,
                room_id: attempt.target_room,
                building_id,
                location_id,
                success: attempt.is_authorized,
                event_type: if attempt.is_authorized { EventType::Success } else { EventType::Failure },
                failure_reason: if attempt.is_authorized { None } else { Some(FailureReason::Unauthorized) },
                metadata: None,
            }),
    {
        let success = attempt.is_authorized;
        let event_type = if success { EventType::Success } else { EventType::Failure };
        let failure_reason = if success { None } else { Some(FailureReason::Unauthorized) };
        AccessEvent::new_with_failure_info(
            attempt.timestamp,
            attempt.user_id,
            attempt.target_room,
            building_id,
            location_id,
            success,
            event_type,
            failure_reason,
            None,
        )
    }

    /// Whether the user got in.
    pub fn is_successful(&self) -> (b: bool)
        ensures
            b == self.success,
    {
        self.success
    }

    /// Whether the user did not get in.
    pub fn is_failed(&self) -> (b: bool)
        ensures
            b == !self.success,
    {
        !self.success
    }

    /// Whether the event happened outside business hours.
    pub fn is_outside_hours(&self) -> (b: bool)
        ensures
            b == (self.event_type == EventType::OutsideHours),
    {
        match self.event_type {
            EventType::OutsideHours => true,
            _ => false,
        }
    }

    /// Whether the event is marked suspicious.
    pub fn is_suspicious(&self) -> (b: bool)
        ensures
            b == (self.event_type == EventType::Suspicious),
    {
        match self.event_type {
            EventType::Suspicious => true,
            _ => false,
        }
    }

    /// Whether the event failed because the badge reader failed.
    pub fn is_badge_reader_failure(&self) -> (b: bool)
        ensures
            b == (self.failure_reason == Some(FailureReason::BadgeReaderError)),
    {
        match self.failure_reason {
            Some(FailureReason::BadgeReaderError) => true,
            _ => false,
        }
    }

    /// Whether the event is a curious user's attempt.
    pub fn is_curious_attempt(&self) -> (b: bool)
        ensures
            b == (self.failure_reason == Some(FailureReason::CuriousUser)),
    {
        match self.failure_reason {
            Some(FailureReason::CuriousUser) => true,
            _ => false,
        }
    }

    /// Whether the event is an impossible traveler's.
    pub fn is_impossible_traveler(&self) -> (b: bool)
        ensures
            b == (self.failure_reason == Some(FailureReason::ImpossibleTraveler)),
    {
        match self.failure_reason {
            Some(FailureReason::ImpossibleTraveler) => true,
            _ => false,
        }
    }

    /// The retry number recorded in the metadata, if any.
    pub fn get_retry_attempt_number(&self) -> (n: Option<u8>)
        ensures
            n == (match self.metadata {
                Some(m) => m.retry_attempt_number,
                None => None,
            }),
    {
        match self.metadata {
            Some(m) => m.retry_attempt_number,
            None => None,
        }
    }
}

/// Whether output keeps the event type.
pub open spec fn keeps_event_type(c: OutputFieldConfig) -> bool {
    c.include_event_type || c.include_all
}

/// Whether output keeps the failure reason.
pub open spec fn keeps_failure_reason(c: OutputFieldConfig) -> bool {
    c.include_failure_reason || c.include_all
}

/// Whether output keeps the metadata.
pub open spec fn keeps_metadata(c: OutputFieldConfig) -> bool {
    c.include_metadata || c.include_all
}

/// The names of the fields output always keeps, in order.
pub open spec fn core_field_names() -> Seq<Seq<char>> {
    seq!["timestamp"@, "user_id"@, "room_id"@, "building_id"@, "location_id"@, "success"@]
}

/// The names of the optional fields output keeps under `c`, in order.
pub open spec fn optional_field_names(c: OutputFieldConfig) -> Seq<Seq<char>> {
    let a: Seq<Seq<char>> = if keeps_event_type(c) { seq!["event_type"@] } else { Seq::empty() };
    let b: Seq<Seq<char>> = if keeps_failure_reason(c) { seq!["failure_reason"@] } else { Seq::empty() };
    let m: Seq<Seq<char>> = if keeps_metadata(c) { seq!["metadata"@] } else { Seq::empty() };
    a + b + m
}

/// An event with the optional fields that the output configuration drops left out.
#[derive(Clone, Copy, Debug, PartialEq, Eq, Structural)]
pub struct FilteredAccessEvent {
    /// When the event occurred.
    pub timestamp: Timestamp,
    /// The user.
    pub user_id: UserId,
    /// The room.
    pub room_id: RoomId,
    /// The building of the room.
    pub building_id: BuildingId,
    /// The location of the building.
    pub location_id: LocationId,
    /// Whether the user got in.
    pub success: bool,
    /// The kind of event, when kept.
    pub event_type: Option<EventType>,
    /// Why the attempt failed, when kept.
    pub failure_reason: Option<FailureReason>,
    /// Additional information, when kept.
    pub metadata: Option<EventMetadata>,
}

impl FilteredAccessEvent {
    /// The event with the optional fields that `field_config` drops left out.
    pub fn from_access_event(event: &AccessEvent, field_config: &OutputFieldConfig) -> (f: Self)
        ensures
            f == (FilteredAccessEvent {
                timestamp: event.timestamp,
                user_id: event.user_id,
                room_id: event.room_id,
                building_id: event.building_id,
                location_id: event.location_id,
                success: event.success,
                event_type: if keeps_event_type(*field_config) { Some(event.event_type) } else { None },
                failure_reason: if keeps_failure_reason(*field_config) { event.failure_reason } else { None },
                metadata: if keeps_metadata(*field_config) { event.metadata } else { None },
            }),
    {
        FilteredAccessEvent {
            timestamp: event.timestamp,
            user_id: event.user_id,
            room_id: event.room_id,
            building_id: event.building_id,
            location_id: event.location_id,
            success: event.success,
            event_type: if field_config.include_event_type || field_config.include_all {
                Some(event.event_type)
            } else {
                None
            },
            failure_reason: if field_config.include_failure_reason || field_config.include_all {
                event.failure_reason
            } else {
                None
            },
            metadata: if field_config.include_metadata || field_config.include_all {
                event.metadata
            } else {
                None
            },
        }
    }

    /// The names of the fields output always keeps.
    pub fn get_core_field_names() -> (names: Vec<&'static str>)
        ensures
            names@.map_values(|s: &str| s@) == core_field_names(),
    {
        let names = vec!["timestamp", "user_id", "room_id", "building_id", "location_id", "success"];
        assert(names@.map_values(|s: &str| s@) =~= core_field_names());
        names
    }

    /// The names of the optional fields output keeps under the configuration.
    pub fn get_optional_field_names(field_config: &OutputFieldConfig) -> (names: Vec<&'static str>)
        ensures
            names@.map_values(|s: &str| s@) == optional_field_names(*field_config),
    {
        let mut fields: Vec<&'static str> = Vec::new();
        if field_config.include_event_type || field_config.include_all {
            fields.push("event_type");
        }
        if field_config.include_failure_reason || field_config.include_all {
            fields.push("failure_reason");
        }
        if field_config.include_metadata || field_config.include_all {
            fields.push("metadata");
        }
        assert(fields@.map_values(|s: &str| s@) =~= optional_field_names(*field_config));
        fields
    }

    /// The names of all fields output keeps under the configuration, core fields first.
    pub fn get_all_field_names(field_config: &OutputFieldConfig) -> (names: Vec<&'static str>)
        ensures
            names@.map_values(|s: &str| s@) == core_field_names() + optional_field_names(*field_config),
    {
        let mut fields = FilteredAccessEvent::get_core_field_names();
        let mut optional = FilteredAccessEvent::get_optional_field_names(field_config);
        let ghost core = fields@;
        let ghost rest = optional@;
        fields.append(&mut optional);
        assert(fields@.map_values(|s: &str| s@) =~= core.map_values(|s: &str| s@) + rest.map_values(|s: &str| s@));
        fields
    }
}

} // verus!
