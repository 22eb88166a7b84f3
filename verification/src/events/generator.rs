//! Events that do not come from walking a schedule: a minimal event when
//! full generation fails, badge reader failures with their retry, curious
//! users trying rooms they may not enter, and the rooms drawn for them.

use vstd::prelude::*;
use vstd::string::StringExecFns;
use crate::events::ordering::{law_sort_by_time_orders_a_permutation, sort_by_time, sort_events_by_timestamp, times_nondecreasing};
use crate::events::access_event::{AccessAttempt, AccessEvent, EventMetadata, plain_metadata};
use crate::facility::building::Building;
use crate::facility::location::{Location, location_flow_ok};
use crate::facility::registry::{LocationRegistry, registry_checkpoints_bounded};
use crate::permissions::access_flow::AccessFlow;
use crate::facility::room::Room;
use crate::permissions::permission_set::{PermissionLevel, PermissionSet, building_of, location_of, room_of};
use crate::schedule::ScheduledActivity;
use crate::simulation::batch_generator::time_gap;
use crate::simulation::error::{ErrorHandler, SimulationError};
use crate::simulation::time_manager::{TimeManager, is_business_hour};
use crate::simulation::time_variance::{
    TimeVariance, lemma_separated_bounds, lemma_varied_events_bounds, same_but_time, separated, separation_step, variance_outcome,
    varied_events,
};
use crate::search::{any_where, find_where, first_where, lemma_first_where, lemma_first_where_is};
use crate::text::{decimal, decimal_string};
use crate::time::{MAX_MILLIS, in_range, gen_index, gen_range_inclusive, new_thread_rng, TimeDelta, Timestamp};
use crate::types::{BuildingId, EventType, FailureReason, LocationId, RoomId, RoomType, SecurityLevel, UserId};

verus! {

/// Whether the error is an event generation error with the message.
pub open spec fn generation_error(e: SimulationError, message: Seq<char>) -> bool {
    e matches SimulationError::EventGenerationError(m) && m@ == message
}

/// The room with the identifier and the building the registry files it
/// under, if both are found.
pub open spec fn room_and_building(registry: LocationRegistry, room_id: RoomId) -> Option<(Room, Building)> {
    match registry.spec_get_room(room_id) {
        Some(room) => match registry.spec_get_building(room.building_id) {
            Some(b) => Some((room, b)),
            None => None,
        },
        None => None,
    }
}

/// The identifiers of the rooms the permissions do not open, building after building.
pub open spec fn unauthorized_rooms(buildings: Seq<Building>, location: LocationId, permissions: PermissionSet) -> Seq<RoomId>
    decreases buildings.len(),
{
    if buildings.len() == 0 {
        Seq::empty()
    } else {
        let b = buildings.last();
        unauthorized_rooms(buildings.drop_last(), location, permissions)
            + b.rooms@.filter(|r: Room| !permissions.spec_can_access_room(r.id, b.id, location)).map_values(|r: Room| r.id)
    }
}

/// The locations other than the current one.
pub open spec fn remote_locations(locations: Seq<Location>, current: LocationId) -> Seq<Location> {
    locations.filter(|l: Location| l.id != current)
}

/// Whether the kind of room is entered during business hours only: server
/// rooms, executive offices and laboratories.
pub open spec fn business_hours_only(t: RoomType) -> bool {
    t == RoomType::ServerRoom || t == RoomType::ExecutiveOffice || t == RoomType::Laboratory
}

/// Whether nothing but a chance system failure stands between the attempt
/// and the room: it is authorized, and not out of hours for a room entered
/// in business hours only.
pub open spec fn admissible(attempt: AccessAttempt, room_type: RoomType) -> bool {
    attempt.is_authorized && !(business_hours_only(room_type) && !is_business_hour(attempt.timestamp))
}

/// Whether an attempt gets in, given whether the system failed: exactly
/// when it is admissible and the system did not fail.
pub open spec fn authorization_outcome(attempt: AccessAttempt, room_type: RoomType, system_failure: bool) -> bool {
    admissible(attempt, room_type) && !system_failure
}

/// An authorized attempt is refused only outside business hours at a room
/// that keeps to them, or by a system failure; it is decided by the
/// attempt, the room's type and the time alone, so any two rooms of one
/// type decide alike whatever their security level.
pub proof fn law_authorized_attempts_get_in(attempt: AccessAttempt, room_type: RoomType, system_failure: bool)
    ensures
        attempt.is_authorized && !system_failure && (business_hours_only(room_type) ==> is_business_hour(attempt.timestamp))
            ==> authorization_outcome(attempt, room_type, system_failure),
        authorization_outcome(attempt, room_type, system_failure) ==> attempt.is_authorized && !system_failure,
        !business_hours_only(room_type) ==> authorization_outcome(attempt, room_type, system_failure)
            == (attempt.is_authorized && !system_failure),
{
}

/// Whether the kind of event fits the outcome of the attempt: a success
/// when it got in; a failure when it was not authorized; out of hours when
/// refused outside business hours; a failure or, for a high-security room,
/// possibly a suspicious event otherwise.
pub open spec fn event_type_fits(attempt: AccessAttempt, high_security: bool, success: bool, t: EventType) -> bool {
    if success {
        t == EventType::Success
    } else if !attempt.is_authorized {
        t == EventType::Failure
    } else if !is_business_hour(attempt.timestamp) {
        t == EventType::OutsideHours
    } else if high_security {
        t == EventType::Suspicious || t == EventType::Failure
    } else {
        t == EventType::Failure
    }
}

/// The predicate "is a building the registry holds, with rooms".
pub open spec fn filed_building_with_rooms(registry: LocationRegistry) -> spec_fn(BuildingId) -> bool {
    |id: BuildingId| registry.spec_get_building(id) matches Some(b) && b.rooms@.len() > 0
}

/// The predicate "is a building with rooms".
pub open spec fn building_has_rooms() -> spec_fn(Building) -> bool {
    |b: Building| b.rooms@.len() > 0
}

/// The predicate "is a location the registry holds, with a building with rooms".
pub open spec fn filed_location_with_rooms(registry: LocationRegistry) -> spec_fn(LocationId) -> bool {
    |id: LocationId| registry.spec_get_location(id) matches Some(l) && any_where(l.buildings@, building_has_rooms())
}

/// The identifiers of the building's rooms, in order.
pub open spec fn room_ids(b: Building) -> Seq<RoomId> {
    b.rooms@.map_values(|r: Room| r.id)
}

/// The rooms the first event of an impossible traveler is drawn among when
/// it is not at the user's workspace: the rooms granted one by one; else
/// those of the first granted building the registry holds with rooms; else
/// those of the first building with rooms of the first granted location the
/// registry holds with one; none when there is no such room.
pub open spec fn authorized_pool(registry: LocationRegistry, permissions: PermissionSet) -> Option<Seq<RoomId>> {
    let rooms = permissions.permissions@.filter_map(|p: PermissionLevel| room_of(p));
    let buildings = permissions.permissions@.filter_map(|p: PermissionLevel| building_of(p));
    let locations = permissions.permissions@.filter_map(|p: PermissionLevel| location_of(p));
    if rooms.len() > 0 {
        Some(rooms)
    } else {
        match find_where(buildings, filed_building_with_rooms(registry)) {
            Some(id) => match registry.spec_get_building(id) {
                Some(b) => Some(room_ids(b)),
                None => None,
            },
            None => match find_where(locations, filed_location_with_rooms(registry)) {
                Some(id) => match registry.spec_get_location(id) {
                    Some(l) => match find_where(l.buildings@, building_has_rooms()) {
                        Some(b) => Some(room_ids(b)),
                        None => None,
                    },
                    None => None,
                },
                None => None,
            },
        }
    }
}

/// How far apart two locations are and the least time travel from one to
/// the other takes, as worked out from their coordinates.
#[derive(Clone, Copy, Debug, PartialEq, Eq, Structural)]
pub struct TravelLeg {
    /// Where travel starts.
    pub from: LocationId,
    /// Where it ends.
    pub to: LocationId,
    /// The distance in kilometres, held as the bit pattern of an IEEE-754
    /// double (`f64::to_bits`).
    pub distance_km_bits: u64,
    /// The least time the travel takes.
    pub minimum_travel_time: TimeDelta,
}

/// The travel legs between locations.
#[derive(Clone, Debug)]
pub struct TravelTable {
    /// The legs; the first one for a pair of locations counts.
    pub legs: Vec<TravelLeg>,
}

/// The predicate "is the leg from `from` to `to`".
pub open spec fn leg_is(from: LocationId, to: LocationId) -> spec_fn(TravelLeg) -> bool {
    |leg: TravelLeg| leg.from == from && leg.to == to
}

/// The leg from `from` to `to`, if the table holds one.
pub open spec fn leg_between(legs: Seq<TravelLeg>, from: LocationId, to: LocationId) -> Option<TravelLeg> {
    find_where(legs, leg_is(from, to))
}

impl TravelTable {
    /// Whether the table holds a leg between every two locations of the
    /// registry, a location and itself included.
    pub open spec fn covers(&self, registry: LocationRegistry) -> bool {
        forall|a: LocationId, b: LocationId|
            registry.spec_get_location(a).is_some() && registry.spec_get_location(b).is_some()
                ==> (#[trigger] leg_between(self.legs@, a, b)).is_some()
    }

    /// Whether the table holds a leg between every two locations of the
    /// registry, a location and itself included (see `covers`).
    pub fn covers_registry(&self, registry: &LocationRegistry) -> (b: bool)
        requires
            registry.wf(),
        ensures
            b == self.covers(*registry),
    {
        let locations = registry.get_all_locations();
        let n = locations.len();
        let ghost locs = registry.spec_locations();
        let mut i: usize = 0;
        while i < n
            invariant
                i <= n,
                n == locs.len(),
                locations@ == locs,
                locs == registry.spec_locations(),
                registry.wf(),
                forall|i2: int, j2: int| 0 <= i2 < i && 0 <= j2 < n
                    ==> (#[trigger] leg_between(self.legs@, locs[i2].id, locs[j2].id)).is_some(),
            decreases n - i,
        {
            let mut j: usize = 0;
            while j < n
                invariant
                    i < n,
                    j <= n,
                    n == locs.len(),
                    locations@ == locs,
                    locs == registry.spec_locations(),
                    registry.wf(),
                    forall|i2: int, j2: int| 0 <= i2 < i && 0 <= j2 < n
                        ==> (#[trigger] leg_between(self.legs@, locs[i2].id, locs[j2].id)).is_some(),
                    forall|j2: int| 0 <= j2 < j ==> (#[trigger] leg_between(self.legs@, locs[i as int].id, locs[j2].id)).is_some(),
                decreases n - j,
            {
                if self.leg(locations[i].id, locations[j].id).is_none() {
                    proof {
                        let a = locs[i as int].id;
                        let b = locs[j as int].id;
                        registry.law_location_lookup(a);
                        registry.law_location_lookup(b);
                        assert(registry.spec_get_location(a).is_some());
                        assert(registry.spec_get_location(b).is_some());
                    }
                    return false;
                }
                j = j + 1;
            }
            i = i + 1;
        }
        proof {
            assert forall|a: LocationId, b: LocationId|
                registry.spec_get_location(a).is_some() && registry.spec_get_location(b).is_some()
                    implies (#[trigger] leg_between(self.legs@, a, b)).is_some() by {
                registry.law_location_lookup(a);
                registry.law_location_lookup(b);
                let ia = choose|ia: int| 0 <= ia < locs.len() && (#[trigger] locs[ia]).id == a;
                let ib = choose|ib: int| 0 <= ib < locs.len() && (#[trigger] locs[ib]).id == b;
                assert(leg_between(self.legs@, locs[ia].id, locs[ib].id).is_some());
            }
        }
        true
    }

    /// The leg from `from` to `to`, if the table holds one.
    pub fn leg(&self, from: LocationId, to: LocationId) -> (r: Option<TravelLeg>)
        ensures
            r == leg_between(self.legs@, from, to),
    {
        let ghost p = leg_is(from, to);
        let mut i: usize = 0;
        while i < self.legs.len()
            invariant
                i <= self.legs@.len(),
                p == leg_is(from, to),
                forall|j: int| 0 <= j < i ==> !p(#[trigger] self.legs@[j]),
            decreases self.legs.len() - i,
        {
            let leg = self.legs[i];
            if leg.from == from && leg.to == to {
                proof {
                    lemma_first_where_is(self.legs@, p, i as int);
                }
                return Some(leg);
            }
            i = i + 1;
        }
        proof {
            if any_where(self.legs@, p) {
                let j = choose|j: int| 0 <= j < self.legs@.len() && p(#[trigger] self.legs@[j]);
                assert(!p(self.legs@[j]));
            }
        }
        None
    }
}

/// Whether the event is where the registry files its room: the building
/// of the room, the location of that building, a location the registry holds.
pub open spec fn filed_where_registry_says(registry: LocationRegistry, e: AccessEvent) -> bool {
    &&& room_and_building(registry, e.room_id) matches Some((room, b))
        && e.building_id == room.building_id && e.location_id == b.location_id
    &&& registry.spec_get_location(e.location_id).is_some()
}

/// Whether the two events make a simultaneous impossible traveler for the
/// user from `t`: the first a plain success at `t`; the second a whole
/// number of minutes, 1 to 180, later, succeeding exactly when the
/// permissions open its room, with that gap as the missing travel time and
/// the distance between the two locations in its metadata; each filed where
/// the registry says; the two at different locations and closer in time than
/// the least travel between them.
pub open spec fn impossible_pair_ok(
    registry: LocationRegistry,
    legs: Seq<TravelLeg>,
    user_id: UserId,
    permissions: PermissionSet,
    t: Timestamp,
    p: AccessEvent,
    q: AccessEvent,
) -> bool {
    let gap = q.timestamp.millis - t.millis;
    &&& filed_where_registry_says(registry, p)
    &&& filed_where_registry_says(registry, q)
    &&& p == (AccessEvent {
        timestamp: t,
        user_id,
        room_id: p.room_id,
        building_id: p.building_id,
        location_id: p.location_id,
        success: true,
        event_type: EventType::Success,
        failure_reason: None,
        metadata: None,
    })
    &&& q.user_id == user_id
    &&& 60_000 <= gap <= 10_800_000
    &&& gap % 60_000 == 0
    &&& q.success == permissions.spec_can_access_room(q.room_id, q.building_id, q.location_id)
    &&& q.event_type == (if q.success { EventType::Success } else { EventType::Failure })
    &&& q.failure_reason == (if q.success { None } else { Some(FailureReason::ImpossibleTraveler) })
    &&& p.location_id != q.location_id
    &&& leg_between(legs, p.location_id, q.location_id) matches Some(leg)
        && q.metadata == Some(EventMetadata {
            is_impossible_traveler: true,
            travel_time_violation: Some(TimeDelta { millis: gap as i64 }),
            geographical_distance: Some(leg.distance_km_bits),
            ..plain_metadata()
        })
        && gap < leg.minimum_travel_time.millis
}

/// Whether every room of the sequence is one the registry files, in a
/// building filed under a location.
pub open spec fn rooms_filed(registry: LocationRegistry, rooms: Seq<RoomId>) -> bool {
    forall|i: int| 0 <= i < rooms.len() ==> {
        &&& registry.spec_get_room(#[trigger] rooms[i]).is_some()
        &&& registry.spec_get_building_for_room(rooms[i]) matches Some(b)
            && registry.spec_get_location_for_building(b.id).is_some()
    }
}

/// Whether every access flow the registry can give from `from` to `to`
/// walks rooms it files, and badging along it from `start`, thirty seconds
/// a room, with three hours more and room for the time variance and
/// separation of the events, stays in range.
pub open spec fn flow_walkable(registry: LocationRegistry, from: Option<RoomId>, to: RoomId, start: Timestamp) -> bool {
    forall|flow: AccessFlow| #[trigger] registry.spec_flow_outcome(from, to, Ok::<AccessFlow, Seq<char>>(flow)) ==> {
        &&& rooms_filed(registry, flow.required_sequence@)
        &&& start.millis + 31_000 * flow.required_sequence@.len() + 11_200_000 <= MAX_MILLIS
    }
}

/// The attempts along the rooms from `start`, one every thirty seconds,
/// each authorized as the permissions open the room in the building and
/// location the registry files it under.
pub open spec fn attempts_along(
    registry: LocationRegistry,
    user_id: UserId,
    permissions: PermissionSet,
    rooms: Seq<RoomId>,
    start: Timestamp,
) -> Seq<AccessAttempt> {
    Seq::new(rooms.len(), |i: int| {
        let b = registry.spec_get_building_for_room(rooms[i]).unwrap();
        let l = registry.spec_get_location_for_building(b.id).unwrap();
        AccessAttempt {
            user_id,
            target_room: rooms[i],
            is_authorized: permissions.spec_can_access_room(rooms[i], b.id, l.id),
            timestamp: Timestamp { millis: (start.millis + i * 30_000) as i64 },
        }
    })
}

/// Whether the event is the one the access attempt gives (see
/// `process_access_attempt`): in the room's building and location, getting
/// in only when admissible, with a fitting kind, and marked as a
/// night-shift event when a night-shift user badges outside business hours.
pub open spec fn processed_event(registry: LocationRegistry, is_night_shift: bool, a: AccessAttempt, event: AccessEvent) -> bool {
    room_and_building(registry, a.target_room) matches Some((room, b))
        && event.timestamp == a.timestamp
        && event.user_id == a.user_id
        && event.room_id == a.target_room
        && event.building_id == room.building_id
        && event.location_id == b.location_id
        && (event.success ==> admissible(a, room.room_type))
        && event_type_fits(a, room.spec_is_high_security(), event.success, event.event_type)
        && event.failure_reason.is_none()
        && event.metadata == (if is_night_shift && !is_business_hour(a.timestamp) {
            Some(EventMetadata { is_night_shift_event: true, ..plain_metadata() })
        } else {
            None
        })
}

/// Whether the two events are a badge reader failure at the attempt and
/// its successful retry 5 to 30 seconds later (see
/// `generate_badge_reader_failure`).
pub open spec fn reader_failure_pair(registry: LocationRegistry, a: AccessAttempt, v: Seq<AccessEvent>) -> bool {
    registry.spec_get_room(a.target_room) matches Some(room)
        && registry.spec_get_building(room.building_id) matches Some(b)
        && v.len() == 2
        && v[0] == (AccessEvent {
            timestamp: a.timestamp,
            user_id: a.user_id,
            room_id: a.target_room,
            building_id: room.building_id,
            location_id: b.location_id,
            success: false,
            event_type: EventType::Failure,
            failure_reason: Some(FailureReason::BadgeReaderError),
            metadata: Some(EventMetadata { is_badge_reader_failure: true, retry_attempt_number: None, ..plain_metadata() }),
        })
        && a.timestamp.millis + 5_000 <= v[1].timestamp.millis <= a.timestamp.millis + 30_000
        && v[1] == (AccessEvent {
            timestamp: v[1].timestamp,
            user_id: a.user_id,
            room_id: a.target_room,
            building_id: room.building_id,
            location_id: b.location_id,
            success: true,
            event_type: EventType::Success,
            failure_reason: None,
            metadata: Some(EventMetadata { is_badge_reader_failure: true, retry_attempt_number: Some(1u8), ..plain_metadata() }),
        })
}

/// Whether the events are those the access attempt gives: its processed
/// event, or, for an authorized attempt, a badge reader failure and its retry.
pub open spec fn attempt_events(registry: LocationRegistry, is_night_shift: bool, a: AccessAttempt, v: Seq<AccessEvent>) -> bool {
    ||| v.len() == 1 && processed_event(registry, is_night_shift, a, v[0])
    ||| a.is_authorized && reader_failure_pair(registry, a, v)
}

/// Whether the event is a curious user's refused attempt at a room of their
/// primary location that their permissions do not open, 1 to 30 minutes
/// after `t` (see `generate_curious_user_event`).
pub open spec fn curious_attempt_event(registry: LocationRegistry, user: EventUser, permissions: PermissionSet, t: Timestamp, e: AccessEvent) -> bool {
    registry.spec_get_location(user.primary_location) matches Some(l)
        && exists|room_id: RoomId| #[trigger] unauthorized_rooms(l.buildings@, l.id, permissions).contains(room_id)
            && (room_and_building(registry, room_id) matches Some((room, b))
            && t.millis + 60_000 <= e.timestamp.millis <= t.millis + 1_800_000
            && e == (AccessEvent {
                timestamp: e.timestamp,
                user_id: user.user_id,
                room_id,
                building_id: room.building_id,
                location_id: b.location_id,
                success: false,
                event_type: EventType::Failure,
                failure_reason: Some(FailureReason::CuriousUser),
                metadata: Some(EventMetadata { is_curious_attempt: true, ..plain_metadata() }),
            }))
}

/// Whether the event is one of an impossible traveler for the user: the
/// user's, and let through or refused as an impossible traveler.
pub open spec fn impossible_traveler_event(user: EventUser, e: AccessEvent) -> bool {
    e.user_id == user.user_id && (e.failure_reason.is_none() || e.failure_reason == Some(FailureReason::ImpossibleTraveler))
}

/// Whether the events are those of a walk along the rooms from `start`:
/// for each access attempt along them, in order, the events it gives; then
/// at most one curious attempt for a curious user; then at most two
/// impossible traveler events for a user whose badge is cloned.
pub open spec fn walk_events(
    registry: LocationRegistry,
    user: EventUser,
    permissions: PermissionSet,
    rooms: Seq<RoomId>,
    start: Timestamp,
    v: Seq<AccessEvent>,
) -> bool {
    let attempts = attempts_along(registry, user.user_id, permissions, rooms, start);
    exists|chunks: Seq<Seq<AccessEvent>>, curious: Seq<AccessEvent>, impossible: Seq<AccessEvent>|
        #![trigger chunks.len(), curious.len(), impossible.len()] {
        &&& chunks.len() == attempts.len()
        &&& forall|i: int| 0 <= i < chunks.len() ==> attempt_events(registry, user.is_night_shift, attempts[i], #[trigger] chunks[i])
        &&& v == chunks.flatten() + curious + impossible
        &&& curious.len() <= (if user.is_curious { 1int } else { 0int })
        &&& forall|i: int| 0 <= i < curious.len() ==> curious_attempt_event(registry, user, permissions, start, #[trigger] curious[i])
        &&& impossible.len() <= (if user.has_cloned_badge { 2int } else { 0int })
        &&& forall|i: int| 0 <= i < impossible.len() ==> impossible_traveler_event(user, #[trigger] impossible[i])
    }
}

/// Whether the event is the minimal one for an activity at the room (see
/// `create_minimal_event`): the user gets in exactly when the permissions
/// open the room, and a refusal is put down to a system failure.
pub open spec fn minimal_event(registry: LocationRegistry, user_id: UserId, permissions: PermissionSet, room_id: RoomId, t: Timestamp, e: AccessEvent) -> bool {
    registry.spec_get_room(room_id) matches Some(room)
        && registry.spec_get_building(room.building_id) matches Some(b)
        && e == ({
            let authorized = permissions.spec_can_access_room(room_id, room.building_id, b.location_id);
            AccessEvent {
                timestamp: t,
                user_id,
                room_id,
                building_id: room.building_id,
                location_id: b.location_id,
                success: authorized,
                event_type: if authorized { EventType::Success } else { EventType::Failure },
                failure_reason: if authorized { None } else { Some(FailureReason::SystemFailure) },
                metadata: None,
            }
        })
}

/// Whether the events are those of an activity before their times vary:
/// the events of a walk along an access flow to the activity's room; or,
/// when the walk's events cannot be made, the minimal event.
pub open spec fn activity_events(
    registry: LocationRegistry,
    user: EventUser,
    permissions: PermissionSet,
    room: RoomId,
    t: Timestamp,
    v: Seq<AccessEvent>,
) -> bool {
    ||| exists|flow: AccessFlow| #[trigger] registry.spec_flow_outcome(user.current_room, room, Ok::<AccessFlow, Seq<char>>(flow))
        && walk_events(registry, user, permissions, flow.required_sequence@, t, v)
    ||| (exists|e: SimulationError| #[trigger] activity_events_error(registry, user, permissions, room, t, e))
        && v.len() == 1 && minimal_event(registry, user.user_id, permissions, room, t, v[0])
}

/// Whether the events are an outcome of an activity at the room from `t`:
/// its events (at least one), each moved forward within the variance
/// window or dropped when the window reaches the next day, then kept
/// strictly apart in time.
pub open spec fn activity_outcome(
    registry: LocationRegistry,
    user: EventUser,
    permissions: PermissionSet,
    room: RoomId,
    t: Timestamp,
    v: Seq<AccessEvent>,
) -> bool {
    exists|base: Seq<AccessEvent>, outcomes: Seq<Option<Timestamp>>| #![trigger base.len(), outcomes.len()] {
        &&& base.len() >= 1
        &&& activity_events(registry, user, permissions, room, t, base)
        &&& outcomes.len() == base.len()
        &&& forall|i: int| 0 <= i < outcomes.len() ==> variance_outcome(base[i].timestamp, #[trigger] outcomes[i])
        &&& separated(varied_events(base, outcomes), v)
    }
}

/// The events, user by user and activity by activity, in that order.
pub open spec fn flatten_nested(c: Seq<Seq<Seq<AccessEvent>>>) -> Seq<AccessEvent> {
    c.map_values(|x: Seq<Seq<AccessEvent>>| x.flatten()).flatten()
}

/// One more user's events come after those of the users before.
pub proof fn lemma_flatten_nested_push(c: Seq<Seq<Seq<AccessEvent>>>, x: Seq<Seq<AccessEvent>>)
    ensures
        flatten_nested(c.push(x)) =~= flatten_nested(c) + x.flatten(),
{
    let f = |y: Seq<Seq<AccessEvent>>| y.flatten();
    assert(c.push(x).map_values(f) =~= c.map_values(f).push(x.flatten()));
    c.map_values(f).lemma_flatten_push(x.flatten());
}

/// Whether the events are those of the user's activity `a` for a span from
/// `start` to `end`: an outcome of the activity when it starts in the
/// span, none otherwise.
pub open spec fn span_activity_events(
    registry: LocationRegistry,
    u: ScheduledUser,
    start: int,
    end: int,
    a: int,
    events: Seq<AccessEvent>,
) -> bool {
    let act = u.daily_schedule@[a];
    if start <= act.start_time.millis <= end {
        activity_outcome(registry, u.user, u.permissions, act.target_room, act.start_time, events)
    } else {
        events.len() == 0
    }
}

/// Whether the events, activity by activity, are those of the user's
/// schedule for the span.
pub open spec fn user_span_events(registry: LocationRegistry, u: ScheduledUser, start: int, end: int, c: Seq<Seq<AccessEvent>>) -> bool {
    &&& c.len() == u.daily_schedule@.len()
    &&& forall|a: int| 0 <= a < c.len() ==> span_activity_events(registry, u, start, end, a, #[trigger] c[a])
}

/// Whether the events, user by user and activity by activity, are those of
/// every user's schedule for the span.
pub open spec fn span_events(registry: LocationRegistry, users: Seq<ScheduledUser>, start: int, end: int, c: Seq<Seq<Seq<AccessEvent>>>) -> bool {
    &&& c.len() == users.len()
    &&& forall|k: int| 0 <= k < c.len() ==> user_span_events(registry, users[k], start, end, #[trigger] c[k])
}

/// Every access flow the registry can give from one room to another walks
/// the same rooms, and where it can give a flow it gives no error.
pub proof fn lemma_flow_rooms_unique(
    registry: LocationRegistry,
    from: Option<RoomId>,
    to: RoomId,
    flow: AccessFlow,
    other: Result<AccessFlow, Seq<char>>,
)
    requires
        registry.spec_flow_outcome(from, to, Ok::<AccessFlow, Seq<char>>(flow)),
        registry.spec_flow_outcome(from, to, other),
    ensures
        other matches Ok(f) && f.required_sequence@ == flow.required_sequence@,
{
    let target = registry.spec_get_location_for_room(to).unwrap();
    if registry.spec_same_location(from, to) {
        assert(location_flow_ok(target, from, to, flow));
    } else {
        let inner = choose|inner: AccessFlow| #[trigger] location_flow_ok(target, None, to, inner)
            && flow.required_sequence@ == inner.required_sequence@;
        assert(location_flow_ok(target, None, to, inner));
        if let Ok(f) = other {
            let inner2 = choose|inner2: AccessFlow| #[trigger] location_flow_ok(target, None, to, inner2)
                && f.required_sequence@ == inner2.required_sequence@;
            assert(location_flow_ok(target, None, to, inner2));
        }
    }
}

/// The first activity of the schedule under way at `t`: started at or
/// before it and not yet over.
pub open spec fn current_activity(schedule: Seq<ScheduledActivity>, t: int) -> Option<int>
    decreases schedule.len(),
{
    if schedule.len() == 0 {
        None
    } else {
        match current_activity(schedule.drop_last(), t) {
            Some(i) => Some(i),
            None => {
                let a = schedule.last();
                if a.start_time.millis <= t < a.start_time.millis + a.duration.millis {
                    Some(schedule.len() - 1)
                } else {
                    None
                }
            },
        }
    }
}

/// Whether the events are those of the user at the time step `t`: when
/// their activity under way at `t` started less than a minute before, an
/// outcome of that activity from `t`; none otherwise.
pub open spec fn timestep_events(registry: LocationRegistry, u: ScheduledUser, t: Timestamp, events: Seq<AccessEvent>) -> bool {
    match current_activity(u.daily_schedule@, t.millis as int) {
        Some(i) => {
            let act = u.daily_schedule@[i];
            if t.millis - act.start_time.millis < 60_000 {
                activity_outcome(registry, u.user, u.permissions, act.target_room, t, events)
            } else {
                events.len() == 0
            }
        },
        None => events.len() == 0,
    }
}

/// The activity under way is one of the schedule's, started at or before
/// the time and not yet over.
pub proof fn lemma_current_activity_bounds(schedule: Seq<ScheduledActivity>, t: int)
    ensures
        current_activity(schedule, t) matches Some(i) ==> 0 <= i < schedule.len()
            && schedule[i].start_time.millis <= t < schedule[i].start_time.millis + schedule[i].duration.millis,
    decreases schedule.len(),
{
    if schedule.len() > 0 {
        lemma_current_activity_bounds(schedule.drop_last(), t);
        if let Some(i) = current_activity(schedule.drop_last(), t) {
            assert(schedule.drop_last()[i] == schedule[i]);
        }
    }
}

/// Once a prefix of the schedule has an activity under way at `t`, the
/// schedule's first such activity is that prefix's.
pub proof fn lemma_current_activity_prefix(schedule: Seq<ScheduledActivity>, n: int, t: int)
    requires
        0 <= n <= schedule.len(),
        current_activity(schedule.take(n), t).is_some(),
    ensures
        current_activity(schedule, t) == current_activity(schedule.take(n), t),
    decreases schedule.len() - n,
{
    if n < schedule.len() {
        let m = schedule.len() - 1;
        assert(schedule.take(n) == schedule.drop_last().take(n));
        lemma_current_activity_prefix(schedule.drop_last(), n, t);
    } else {
        assert(schedule.take(n) =~= schedule);
    }
}

/// An access flow the registry gives walks at least one room: the target.
pub proof fn lemma_flow_nonempty(registry: LocationRegistry, from: Option<RoomId>, to: RoomId, flow: AccessFlow)
    requires
        registry.spec_flow_outcome(from, to, Ok::<AccessFlow, Seq<char>>(flow)),
    ensures
        flow.required_sequence@.len() >= 1,
{
    let target = registry.spec_get_location_for_room(to).unwrap();
    if registry.spec_same_location(from, to) {
        assert(location_flow_ok(target, from, to, flow));
    } else {
        let inner = choose|inner: AccessFlow| #[trigger] location_flow_ok(target, None, to, inner)
            && flow.required_sequence@ == inner.required_sequence@;
        assert(location_flow_ok(target, None, to, inner));
    }
}

/// Whether the event, when put down to a curious user, is a refusal.
pub open spec fn curious_refused(e: AccessEvent) -> bool {
    e.failure_reason == Some(FailureReason::CuriousUser) ==> !e.success && e.event_type == EventType::Failure
}

/// What holds of every event of every batch holds of every event of the
/// batches one after another.
proof fn lemma_flatten_curious_refused(chunks: Seq<Seq<AccessEvent>>)
    requires
        forall|k: int, i: int| 0 <= k < chunks.len() && 0 <= i < chunks[k].len() ==> curious_refused(#[trigger] chunks[k][i]),
    ensures
        forall|i: int| 0 <= i < chunks.flatten().len() ==> curious_refused(#[trigger] chunks.flatten()[i]),
    decreases chunks.len(),
{
    if chunks.len() > 0 {
        let rest = chunks.drop_first();
        assert forall|k: int, i: int| 0 <= k < rest.len() && 0 <= i < rest[k].len() implies curious_refused(#[trigger] rest[k][i]) by {
            assert(rest[k] == chunks[k + 1]);
        }
        lemma_flatten_curious_refused(rest);
        let f = chunks.flatten();
        assert(f == chunks[0] + rest.flatten());
        assert forall|i: int| 0 <= i < f.len() implies curious_refused(#[trigger] f[i]) by {
            if i < chunks[0].len() {
                assert(f[i] == chunks[0][i]);
            } else {
                assert(f[i] == rest.flatten()[i - chunks[0].len()]);
            }
        }
    }
}

/// Varying the times of events keeps whether curious attempts are refused.
proof fn lemma_varied_curious_refused(base: Seq<AccessEvent>, outcomes: Seq<Option<Timestamp>>)
    requires
        outcomes.len() == base.len(),
        forall|i: int| 0 <= i < base.len() ==> curious_refused(#[trigger] base[i]),
    ensures
        forall|i: int| 0 <= i < varied_events(base, outcomes).len() ==> curious_refused(#[trigger] varied_events(base, outcomes)[i]),
    decreases base.len(),
{
    if base.len() > 0 {
        let b2 = base.drop_last();
        let o2 = outcomes.take(base.len() - 1);
        assert forall|i: int| 0 <= i < b2.len() implies curious_refused(#[trigger] b2[i]) by {
            assert(b2[i] == base[i]);
        }
        lemma_varied_curious_refused(b2, o2);
        let rest = varied_events(b2, o2);
        let v = varied_events(base, outcomes);
        assert(curious_refused(base.last()));
        assert forall|i: int| 0 <= i < v.len() implies curious_refused(#[trigger] v[i]) by {
            if i < rest.len() {
                assert(v[i] == rest[i]);
            }
        }
    }
}

/// A curious user never gets in where they try: in the events of a walk,
/// every event put down to a curious user is a refused, failed attempt.
pub proof fn law_walk_curious_attempts_refused(
    registry: LocationRegistry,
    user: EventUser,
    permissions: PermissionSet,
    rooms: Seq<RoomId>,
    start: Timestamp,
    v: Seq<AccessEvent>,
)
    requires
        walk_events(registry, user, permissions, rooms, start, v),
    ensures
        forall|i: int| 0 <= i < v.len() && (#[trigger] v[i]).failure_reason == Some(FailureReason::CuriousUser)
            ==> !v[i].success && v[i].event_type == EventType::Failure,
{
    let attempts = attempts_along(registry, user.user_id, permissions, rooms, start);
    let (chunks, curious, impossible) = choose|chunks: Seq<Seq<AccessEvent>>, curious: Seq<AccessEvent>, impossible: Seq<AccessEvent>| {
        &&& chunks.len() == attempts.len()
        &&& forall|i: int| 0 <= i < chunks.len() ==> attempt_events(registry, user.is_night_shift, attempts[i], #[trigger] chunks[i])
        &&& v == chunks.flatten() + curious + impossible
        &&& curious.len() <= (if user.is_curious { 1int } else { 0int })
        &&& forall|i: int| 0 <= i < curious.len() ==> curious_attempt_event(registry, user, permissions, start, #[trigger] curious[i])
        &&& impossible.len() <= (if user.has_cloned_badge { 2int } else { 0int })
        &&& forall|i: int| 0 <= i < impossible.len() ==> impossible_traveler_event(user, #[trigger] impossible[i])
    };
    assert forall|k: int, i: int| 0 <= k < chunks.len() && 0 <= i < chunks[k].len() implies curious_refused(#[trigger] chunks[k][i]) by {
        assert(attempt_events(registry, user.is_night_shift, attempts[k], chunks[k]));
    }
    lemma_flatten_curious_refused(chunks);
    let f = chunks.flatten();
    assert forall|i: int| 0 <= i < v.len() && (#[trigger] v[i]).failure_reason == Some(FailureReason::CuriousUser)
        implies !v[i].success && v[i].event_type == EventType::Failure by {
        if i < f.len() {
            assert(v[i] == f[i]);
            assert(curious_refused(f[i]));
        } else if i < f.len() + curious.len() {
            assert(v[i] == curious[i - f.len()]);
            assert(curious_attempt_event(registry, user, permissions, start, curious[i - f.len()]));
        } else {
            assert(v[i] == impossible[i - f.len() - curious.len()]);
            assert(impossible_traveler_event(user, impossible[i - f.len() - curious.len()]));
        }
    }
}

/// A curious user never gets in where they try: in the events of an
/// activity, every event put down to a curious user is a refused, failed
/// attempt.
pub proof fn law_activity_curious_attempts_refused(
    registry: LocationRegistry,
    user: EventUser,
    permissions: PermissionSet,
    room: RoomId,
    t: Timestamp,
    v: Seq<AccessEvent>,
)
    requires
        activity_outcome(registry, user, permissions, room, t, v),
    ensures
        forall|i: int| 0 <= i < v.len() && (#[trigger] v[i]).failure_reason == Some(FailureReason::CuriousUser)
            ==> !v[i].success && v[i].event_type == EventType::Failure,
{
    let (base, outcomes) = choose|base: Seq<AccessEvent>, outcomes: Seq<Option<Timestamp>>| {
        &&& base.len() >= 1
        &&& activity_events(registry, user, permissions, room, t, base)
        &&& outcomes.len() == base.len()
        &&& forall|i: int| 0 <= i < outcomes.len() ==> variance_outcome(base[i].timestamp, #[trigger] outcomes[i])
        &&& separated(varied_events(base, outcomes), v)
    };
    if exists|flow: AccessFlow| #[trigger] registry.spec_flow_outcome(user.current_room, room, Ok::<AccessFlow, Seq<char>>(flow))
        && walk_events(registry, user, permissions, flow.required_sequence@, t, base) {
        let flow = choose|flow: AccessFlow| #[trigger] registry.spec_flow_outcome(user.current_room, room, Ok::<AccessFlow, Seq<char>>(flow))
            && walk_events(registry, user, permissions, flow.required_sequence@, t, base);
        law_walk_curious_attempts_refused(registry, user, permissions, flow.required_sequence@, t, base);
    }
    assert forall|i: int| 0 <= i < base.len() implies curious_refused(#[trigger] base[i]) by {}
    lemma_varied_curious_refused(base, outcomes);
    let w = varied_events(base, outcomes);
    assert forall|i: int| 0 <= i < v.len() && (#[trigger] v[i]).failure_reason == Some(FailureReason::CuriousUser)
        implies !v[i].success && v[i].event_type == EventType::Failure by {
        assert(same_but_time(w[i], v[i]));
        assert(curious_refused(w[i]));
    }
}

/// Sequences that are none of them empty flatten to at least as many
/// items as there are sequences.
pub proof fn lemma_flatten_at_least_one_each<A>(chunks: Seq<Seq<A>>)
    requires
        forall|i: int| 0 <= i < chunks.len() ==> (#[trigger] chunks[i]).len() >= 1,
    ensures
        chunks.flatten().len() >= chunks.len(),
    decreases chunks.len(),
{
    if chunks.len() > 0 {
        let rest = chunks.drop_first();
        assert forall|i: int| 0 <= i < rest.len() implies (#[trigger] rest[i]).len() >= 1 by {
            assert(rest[i] == chunks[i + 1]);
        }
        lemma_flatten_at_least_one_each(rest);
        assert(chunks[0].len() >= 1);
    }
}

/// What event generation reads of a user.
#[derive(Clone, Copy, Debug)]
pub struct EventUser {
    /// The user.
    pub user_id: UserId,
    /// Their desk.
    pub primary_workspace: RoomId,
    /// The location they work at.
    pub primary_location: LocationId,
    /// The location they are at now.
    pub current_location: LocationId,
    /// The room they are in now, if any.
    pub current_room: Option<RoomId>,
    /// Whether they try doors they may not open.
    pub is_curious: bool,
    /// Whether they work the night shift.
    pub is_night_shift: bool,
    /// Whether a copy of their badge is in use elsewhere.
    pub has_cloned_badge: bool,
}

/// Whether the events are the user's, from `t` to `last`.
pub open spec fn events_of_user_within(events: Seq<AccessEvent>, user_id: UserId, t: int, last: int) -> bool {
    forall|i: int| 0 <= i < events.len() ==> (#[trigger] events[i]).user_id == user_id
        && t <= events[i].timestamp.millis <= last
}

/// Whether two events make an impossible traveler by the table: the same
/// user at two locations, closer in time than the least travel between them.
pub open spec fn impossible_by_table(legs: Seq<TravelLeg>, e1: AccessEvent, e2: AccessEvent) -> bool {
    &&& e1.user_id == e2.user_id
    &&& e1.location_id != e2.location_id
    &&& leg_between(legs, e1.location_id, e2.location_id) matches Some(leg)
        && time_gap(e1, e2) < leg.minimum_travel_time.millis
}

/// Whether the event at position `i` of the events in time order and the
/// next one lie within the window and make an impossible traveler.
pub open spec fn pattern_at(s: Seq<AccessEvent>, legs: Seq<TravelLeg>, window: int, i: int) -> bool {
    &&& 0 <= i
    &&& i + 1 < s.len()
    &&& s[i + 1].timestamp.millis - s[i].timestamp.millis <= window
    &&& impossible_by_table(legs, s[i], s[i + 1])
}

/// Whether the events, taken in time order, show an impossible traveler
/// between some event and the next within the window.
pub open spec fn has_impossible_pattern(events: Seq<AccessEvent>, legs: Seq<TravelLeg>, window: int) -> bool {
    exists|i: int| #[trigger] pattern_at(sort_by_time(events), legs, window, i)
}

/// Whether every event lies in range and the table holds a leg between the
/// locations of any two of them.
pub open spec fn events_fit_table(events: Seq<AccessEvent>, legs: Seq<TravelLeg>) -> bool {
    &&& forall|e: AccessEvent| #[trigger] events.contains(e) ==> in_range(e.timestamp.millis as int)
    &&& forall|a: AccessEvent, b: AccessEvent| #[trigger] events.contains(a) && #[trigger] events.contains(b)
        ==> leg_between(legs, a.location_id, b.location_id).is_some()
}

/// The user's events, in order.
pub open spec fn events_of(events: Seq<AccessEvent>, user_id: UserId) -> Seq<AccessEvent> {
    events.filter(|e: AccessEvent| e.user_id == user_id)
}

/// A user as event generation over a span of time reads them: what events
/// read of them, their permissions and their schedule for the day.
#[derive(Clone, Debug)]
pub struct ScheduledUser {
    /// What events read of the user.
    pub user: EventUser,
    /// What they may enter.
    pub permissions: PermissionSet,
    /// Their activities for the day.
    pub daily_schedule: Vec<ScheduledActivity>,
}

/// Whether every activity of every user that starts from `start` to `end`
/// can be walked: its start in range, and its access flow walkable.
pub open spec fn span_walkable(registry: LocationRegistry, users: Seq<ScheduledUser>, start: int, end: int) -> bool {
    forall|k: int, a: int| 0 <= k < users.len() && 0 <= a < users[k].daily_schedule@.len()
        && start <= (#[trigger] users[k].daily_schedule@[a]).start_time.millis <= end
        ==> in_range(users[k].daily_schedule@[a].start_time.millis as int)
            && users[k].daily_schedule@[a].start_time.millis + 11_200_000 <= MAX_MILLIS
            && flow_walkable(registry, users[k].user.current_room, users[k].daily_schedule@[a].target_room, users[k].daily_schedule@[a].start_time)
}

/// Whether the event is one of the users'.
pub open spec fn event_of_some_user(users: Seq<ScheduledUser>, e: AccessEvent) -> bool {
    exists|k: int| 0 <= k < users.len() && (#[trigger] users[k]).user.user_id == e.user_id
}

/// Whether the attempt can be turned into events: the registry files its
/// room in a building, and, for an authorized attempt, the permissions
/// open the room where the registry files it.
pub open spec fn attempt_processable(registry: LocationRegistry, permissions: PermissionSet, a: AccessAttempt) -> bool {
    room_and_building(registry, a.target_room) matches Some((room, b))
        && (a.is_authorized ==> permissions.spec_can_access_room(a.target_room, room.building_id, b.location_id))
}

/// Why the events of an activity could not be made: the access flow's
/// error, or an attempt along the flow that cannot be turned into events.
pub open spec fn activity_events_error(
    registry: LocationRegistry,
    user: EventUser,
    permissions: PermissionSet,
    target_room: RoomId,
    current_time: Timestamp,
    e: SimulationError,
) -> bool {
    ||| exists|msg: Seq<char>| #[trigger] registry.spec_flow_outcome(user.current_room, target_room, Err::<AccessFlow, Seq<char>>(msg))
        && generation_error(e, msg)
    ||| exists|flow: AccessFlow| #[trigger] registry.spec_flow_outcome(user.current_room, target_room, Ok::<AccessFlow, Seq<char>>(flow))
        && exists|i: int| 0 <= i < flow.required_sequence@.len() && !attempt_processable(
            registry,
            permissions,
            #[trigger] attempts_along(registry, user.user_id, permissions, flow.required_sequence@, current_time)[i],
        )
}

/// The error of a minimal event for an activity at the room: the room, or
/// the building the room names, not found.
pub open spec fn minimal_event_error(registry: LocationRegistry, room_id: RoomId, e: SimulationError) -> bool {
    match registry.spec_get_room(room_id) {
        None => generation_error(e, "Room "@ + decimal(room_id.value as nat) + " not found"@),
        Some(room) => registry.spec_get_building(room.building_id).is_none()
            && generation_error(e, "Building "@ + decimal(room.building_id.value as nat) + " not found"@),
    }
}

/// Whether the error is that of the minimal event of some user's activity
/// that starts from `start` to `end`.
pub open spec fn span_error(registry: LocationRegistry, users: Seq<ScheduledUser>, start: int, end: int, e: SimulationError) -> bool {
    exists|k: int, a: int| 0 <= k < users.len() && 0 <= a < users[k].daily_schedule@.len()
        && start <= (#[trigger] users[k].daily_schedule@[a]).start_time.millis <= end
        && minimal_event_error(registry, users[k].daily_schedule@[a].target_room, e)
}

/// Whether the registry files the room in a building of the location, and
/// holds the location.
pub open spec fn filed_at(registry: LocationRegistry, room: RoomId, location: LocationId) -> bool {
    &&& room_and_building(registry, room) matches Some((r, b)) && b.location_id == location
    &&& registry.spec_get_location(location).is_some()
}

/// Whether every room of the location's buildings is filed at a location
/// other than `current` that the registry holds, and each building has rooms
/// and the location buildings.
pub open spec fn remote_location_ready(registry: LocationRegistry, l: Location, current: LocationId) -> bool {
    &&& l.buildings@.len() > 0
    &&& forall|bi: int| 0 <= bi < l.buildings@.len() ==> (#[trigger] l.buildings@[bi]).rooms@.len() > 0
    &&& forall|bi: int, ri: int| 0 <= bi < l.buildings@.len() && 0 <= ri < l.buildings@[bi].rooms@.len()
        ==> (room_and_building(registry, (#[trigger] l.buildings@[bi].rooms@[ri]).id) matches Some((r, b))
            && b.location_id != current && registry.spec_get_location(b.location_id).is_some())
}

/// Whether an impossible traveler pair can be made whatever is drawn: the
/// workspace and every room of the authorized pool are filed at the current
/// location; there is another location, each ready (see
/// `remote_location_ready`); and travel between two different locations
/// takes over three hours by every leg of the table.
pub open spec fn pair_always_possible(
    registry: LocationRegistry,
    legs: Seq<TravelLeg>,
    workspace: RoomId,
    permissions: PermissionSet,
    current: LocationId,
) -> bool {
    let remote = remote_locations(registry.spec_locations(), current);
    &&& authorized_pool(registry, permissions) matches Some(pool)
        && forall|i: int| 0 <= i < pool.len() ==> filed_at(registry, #[trigger] pool[i], current)
    &&& filed_at(registry, workspace, current)
    &&& remote.len() > 0
    &&& forall|k: int| 0 <= k < remote.len() ==> remote_location_ready(registry, #[trigger] remote[k], current)
    &&& forall|i: int| 0 <= i < legs.len() && (#[trigger] legs[i]).from != legs[i].to
        ==> legs[i].minimum_travel_time.millis > 10_800_000
}

/// Generates access events outside the walk of a schedule.
#[derive(Debug)]
pub struct EventGenerator {
    location_registry: LocationRegistry,
    time_manager: TimeManager,
    rng: rand::rngs::ThreadRng,
    error_handler: ErrorHandler,
    time_variance: TimeVariance,
    /// How many admissible access attempts a chance system failure has
    /// refused so far (counting on past the largest value from zero).
    system_failures: u64,
}

impl EventGenerator {
    /// The registry events are placed in.
    pub closed spec fn registry(&self) -> LocationRegistry {
        self.location_registry
    }

    /// How many admissible access attempts a chance system failure has
    /// refused so far.
    pub closed spec fn failure_count(&self) -> u64 {
        self.system_failures
    }

    /// How many admissible access attempts a chance system failure has
    /// refused so far.
    pub fn system_failure_count(&self) -> (n: u64)
        ensures
            n == self.failure_count(),
    {
        self.system_failures
    }

    /// Whether every access flow the registry can give from `from` to `to`
    /// can be walked from `start` (see `flow_walkable`): its rooms filed in
    /// buildings filed under locations, and the walk's times in range.
    pub fn check_flow_walkable(&mut self, from: Option<RoomId>, to: RoomId, start: Timestamp) -> (b: bool)
        requires
            registry_checkpoints_bounded(old(self).registry().spec_locations()),
        ensures
            final(self).registry() == old(self).registry(),
            b == flow_walkable(old(self).registry(), from, to, start),
    {
        let ghost registry = self.location_registry;
        let flow = match self.location_registry.get_access_flow(from, to, &self.time_manager, &mut self.rng) {
            Ok(flow) => flow,
            Err(msg) => {
                proof {
                    assert forall|f: AccessFlow| #[trigger] registry.spec_flow_outcome(from, to, Ok::<AccessFlow, Seq<char>>(f)) implies {
                        &&& rooms_filed(registry, f.required_sequence@)
                        &&& start.millis + 31_000 * f.required_sequence@.len() + 11_200_000 <= MAX_MILLIS
                    } by {
                        lemma_flow_rooms_unique(registry, from, to, f, Err::<AccessFlow, Seq<char>>(msg@));
                    }
                }
                return true;
            },
        };
        let ghost rooms = flow.required_sequence@;
        proof {
            assert(registry.spec_flow_outcome(from, to, Ok::<AccessFlow, Seq<char>>(flow)));
            assert forall|f: AccessFlow| #[trigger] registry.spec_flow_outcome(from, to, Ok::<AccessFlow, Seq<char>>(f))
                implies f.required_sequence@ == rooms by {
                lemma_flow_rooms_unique(registry, from, to, f, Ok::<AccessFlow, Seq<char>>(flow));
            }
        }
        let n = flow.required_sequence.len();
        let end: i128 = start.millis as i128 + 31_000i128 * (n as i128) + 11_200_000i128;
        if end > MAX_MILLIS as i128 {
            return false;
        }
        let mut i: usize = 0;
        while i < n
            invariant
                i <= n,
                n == rooms.len(),
                flow.required_sequence@ == rooms,
                self.location_registry == registry,
                registry == old(self).location_registry,
                registry.spec_flow_outcome(from, to, Ok::<AccessFlow, Seq<char>>(flow)),
                forall|f: AccessFlow| #[trigger] registry.spec_flow_outcome(from, to, Ok::<AccessFlow, Seq<char>>(f))
                    ==> f.required_sequence@ == rooms,
                start.millis + 31_000 * n + 11_200_000 <= MAX_MILLIS,
                forall|j: int| 0 <= j < i ==> {
                    &&& registry.spec_get_room(#[trigger] rooms[j]).is_some()
                    &&& registry.spec_get_building_for_room(rooms[j]) matches Some(b)
                        && registry.spec_get_location_for_building(b.id).is_some()
                },
            decreases n - i,
        {
            let room = flow.required_sequence[i];
            if self.location_registry.get_room(room).is_none() {
                return false;
            }
            let building_id = match self.location_registry.get_building_for_room(room) {
                Some(b) => b.id,
                None => return false,
            };
            if self.location_registry.get_location_for_building(building_id).is_none() {
                return false;
            }
            i = i + 1;
        }
        true
    }

    /// A generator over the registry.
    pub fn new(location_registry: LocationRegistry, time_manager: TimeManager) -> (g: Self)
        ensures
            g.registry() == location_registry,
    {
        EventGenerator {
            location_registry,
            time_manager,
            rng: new_thread_rng(),
            error_handler: ErrorHandler::new(),
            time_variance: TimeVariance::new(),
            system_failures: 0,
        }
    }

    /// A room for the first event of an impossible traveler: the user's
    /// workspace seven times in ten; otherwise a room drawn among the rooms
    /// of the authorized pool, and an error when the pool is empty.
    pub fn select_authorized_room_for_user(
        &mut self,
        primary_workspace: RoomId,
        permissions: &PermissionSet,
    ) -> (r: Result<RoomId, SimulationError>)
        ensures
            final(self).registry() == old(self).registry(),
            match authorized_pool(old(self).registry(), *permissions) {
                Some(pool) => r matches Ok(room) && (room == primary_workspace || pool.contains(room)),
                None => r == Ok::<RoomId, SimulationError>(primary_workspace)
                    || (r matches Err(e) && generation_error(e, "No authorized rooms found for user"@)),
            },
    {
        if gen_index(&mut self.rng, 10) < 7 {
            return Ok(primary_workspace);
        }
        let rooms = permissions.get_authorized_rooms();
        if rooms.len() > 0 {
            let k = gen_index(&mut self.rng, rooms.len());
            return Ok(rooms[k]);
        }
        let buildings = permissions.get_authorized_buildings();
        let ghost bp = filed_building_with_rooms(self.location_registry);
        let mut i: usize = 0;
        while i < buildings.len()
            invariant
                i <= buildings@.len(),
                self.location_registry == old(self).location_registry,
                rooms@.len() == 0,
                rooms@ == permissions.permissions@.filter_map(|p: PermissionLevel| room_of(p)),
                buildings@ == permissions.permissions@.filter_map(|p: PermissionLevel| building_of(p)),
                bp == filed_building_with_rooms(self.location_registry),
                forall|j: int| 0 <= j < i ==> !bp(#[trigger] buildings@[j]),
            decreases buildings.len() - i,
        {
            if let Some(b) = self.location_registry.get_building(buildings[i]) {
                if b.rooms.len() > 0 {
                    proof {
                        lemma_first_where_is(buildings@, bp, i as int);
                    }
                    let k = gen_index(&mut self.rng, b.rooms.len());
                    let room = b.rooms[k].id;
                    proof {
                        assert(room_ids(*b)[k as int] == room);
                    }
                    return Ok(room);
                }
            }
            i = i + 1;
        }
        proof {
            if any_where(buildings@, bp) {
                let j = choose|j: int| 0 <= j < buildings@.len() && bp(#[trigger] buildings@[j]);
                assert(!bp(buildings@[j]));
            }
        }
        let locations = permissions.get_authorized_locations();
        let ghost lp = filed_location_with_rooms(self.location_registry);
        let ghost hp = building_has_rooms();
        let mut i: usize = 0;
        while i < locations.len()
            invariant
                i <= locations@.len(),
                self.location_registry == old(self).location_registry,
                rooms@.len() == 0,
                rooms@ == permissions.permissions@.filter_map(|p: PermissionLevel| room_of(p)),
                buildings@ == permissions.permissions@.filter_map(|p: PermissionLevel| building_of(p)),
                locations@ == permissions.permissions@.filter_map(|p: PermissionLevel| location_of(p)),
                bp == filed_building_with_rooms(self.location_registry),
                !any_where(buildings@, bp),
                lp == filed_location_with_rooms(self.location_registry),
                hp == building_has_rooms(),
                forall|j: int| 0 <= j < i ==> !lp(#[trigger] locations@[j]),
            decreases locations.len() - i,
        {
            if let Some(l) = self.location_registry.get_location(locations[i]) {
                let mut bi: usize = 0;
                while bi < l.buildings.len()
                    invariant
                        bi <= l.buildings@.len(),
                        i < locations@.len(),
                        self.location_registry == old(self).location_registry,
                        self.location_registry.spec_get_location(locations@[i as int]) == Some(*l),
                        rooms@.len() == 0,
                        rooms@ == permissions.permissions@.filter_map(|p: PermissionLevel| room_of(p)),
                        buildings@ == permissions.permissions@.filter_map(|p: PermissionLevel| building_of(p)),
                        locations@ == permissions.permissions@.filter_map(|p: PermissionLevel| location_of(p)),
                        bp == filed_building_with_rooms(self.location_registry),
                        !any_where(buildings@, bp),
                        lp == filed_location_with_rooms(self.location_registry),
                        forall|j: int| 0 <= j < i ==> !lp(#[trigger] locations@[j]),
                        hp == building_has_rooms(),
                        forall|j: int| 0 <= j < bi ==> !hp(#[trigger] l.buildings@[j]),
                    decreases l.buildings.len() - bi,
                {
                    let b = &l.buildings[bi];
                    if b.rooms.len() > 0 {
                        proof {
                            lemma_first_where_is(l.buildings@, hp, bi as int);
                            assert(any_where(l.buildings@, hp));
                            assert(lp(locations@[i as int]));
                            lemma_first_where_is(locations@, lp, i as int);
                        }
                        let k = gen_index(&mut self.rng, b.rooms.len());
                        let room = b.rooms[k].id;
                        proof {
                            assert(room_ids(*b)[k as int] == room);
                        }
                        return Ok(room);
                    }
                    bi = bi + 1;
                }
                proof {
                    if any_where(l.buildings@, hp) {
                        let j = choose|j: int| 0 <= j < l.buildings@.len() && hp(#[trigger] l.buildings@[j]);
                        assert(!hp(l.buildings@[j]));
                    }
                }
            }
            i = i + 1;
        }
        proof {
            if any_where(locations@, lp) {
                let j = choose|j: int| 0 <= j < locations@.len() && lp(#[trigger] locations@[j]);
                assert(!lp(locations@[j]));
            }
        }
        Err(SimulationError::event_generation_error("No authorized rooms found for user"))
    }

    /// The error for an identifier the registry does not hold, after the prefix.
    fn missing(prefix: &str, value: u64) -> (e: SimulationError)
        ensures
            generation_error(e, prefix@ + decimal(value as nat)),
    {
        let mut msg = String::from_str(prefix);
        let digits = decimal_string(value as u128);
        msg.append(digits.as_str());
        SimulationError::event_generation_error(msg.as_str())
    }

    /// A pair of events no one person could make: a success at a room drawn
    /// for the user (see `select_authorized_room_for_user`) at
    /// `primary_event_time`, and an attempt at a room drawn at another
    /// location than the user's current one 1 to 180 minutes later, which
    /// succeeds when the permissions open that room; the second carries the
    /// gap and the distance between the two locations. An error when no room
    /// can be drawn, when the registry does not file a drawn room, or when the
    /// two events do not make an impossible traveler.
    pub fn generate_simultaneous_impossible_traveler_events(
        &mut self,
        user_id: UserId,
        primary_workspace: RoomId,
        current_location: LocationId,
        permissions: &PermissionSet,
        travel: &TravelTable,
        primary_event_time: Timestamp,
    ) -> (r: Result<(AccessEvent, AccessEvent), SimulationError>)
        requires
            in_range(primary_event_time.millis as int),
            in_range(primary_event_time.millis + 10_800_000),
            travel.covers(old(self).registry()),
        ensures
            final(self).registry() == old(self).registry(),
            r matches Ok((p, q)) ==> impossible_pair_ok(old(self).registry(), travel.legs@, user_id, *permissions, primary_event_time, p, q)
                && (p.room_id == primary_workspace
                    || (authorized_pool(old(self).registry(), *permissions) matches Some(pool) && pool.contains(p.room_id))),
            remote_locations(old(self).registry().spec_locations(), current_location).len() == 0 ==> r is Err,
            pair_always_possible(old(self).registry(), travel.legs@, primary_workspace, *permissions, current_location) ==> r is Ok,
    {
        let ghost can = pair_always_possible(self.location_registry, travel.legs@, primary_workspace, *permissions, current_location);
        let primary_room = match self.select_authorized_room_for_user(primary_workspace, permissions) {
            Ok(room) => room,
            Err(e) => return Err(e),
        };
        proof {
            if can {
                if primary_room != primary_workspace {
                    let pool = authorized_pool(self.location_registry, *permissions).unwrap();
                    let i = choose|i: int| 0 <= i < pool.len() && pool[i] == primary_room;
                    assert(filed_at(self.location_registry, pool[i], current_location));
                }
                assert(filed_at(self.location_registry, primary_room, current_location));
            }
        }
        let remote_room = match self.select_remote_location_room(current_location) {
            Ok(room) => room,
            Err(e) => {
                proof {
                    if can {
                        let remote = remote_locations(self.location_registry.spec_locations(), current_location);
                        let k = choose|k: int| #![trigger remote[k]] 0 <= k < remote.len() && ({
                            let l = remote[k];
                            if l.buildings@.len() == 0 {
                                Err::<RoomId, SimulationError>(e) matches Err(e2) && generation_error(e2, "Remote location has no buildings"@)
                            } else {
                                exists|bi: int| 0 <= bi < l.buildings@.len() && ({
                                    let b = #[trigger] l.buildings@[bi];
                                    if b.rooms@.len() == 0 {
                                        Err::<RoomId, SimulationError>(e) matches Err(e2) && generation_error(e2, "Remote building has no rooms"@)
                                    } else {
                                        exists|ri: int| 0 <= ri < b.rooms@.len() && Err::<RoomId, SimulationError>(e) == Ok::<RoomId, SimulationError>(#[trigger] b.rooms@[ri].id)
                                    }
                                })
                            }
                        });
                        assert(remote_location_ready(self.location_registry, remote[k], current_location));
                    }
                }
                return Err(e);
            },
        };
        proof {
            if can {
                let remote = remote_locations(self.location_registry.spec_locations(), current_location);
                let k = choose|k: int| #![trigger remote[k]] 0 <= k < remote.len() && ({
                    let l = remote[k];
                    if l.buildings@.len() == 0 {
                        Ok::<RoomId, SimulationError>(remote_room) matches Err(e2) && generation_error(e2, "Remote location has no buildings"@)
                    } else {
                        exists|bi: int| 0 <= bi < l.buildings@.len() && ({
                            let b = #[trigger] l.buildings@[bi];
                            if b.rooms@.len() == 0 {
                                Ok::<RoomId, SimulationError>(remote_room) matches Err(e2) && generation_error(e2, "Remote building has no rooms"@)
                            } else {
                                exists|ri: int| 0 <= ri < b.rooms@.len() && Ok::<RoomId, SimulationError>(remote_room) == Ok::<RoomId, SimulationError>(#[trigger] b.rooms@[ri].id)
                            }
                        })
                    }
                });
                let l = remote[k];
                assert(remote_location_ready(self.location_registry, l, current_location));
                let bi = choose|bi: int| 0 <= bi < l.buildings@.len() && ({
                    let b = #[trigger] l.buildings@[bi];
                    if b.rooms@.len() == 0 {
                        Ok::<RoomId, SimulationError>(remote_room) matches Err(e2) && generation_error(e2, "Remote building has no rooms"@)
                    } else {
                        exists|ri: int| 0 <= ri < b.rooms@.len() && Ok::<RoomId, SimulationError>(remote_room) == Ok::<RoomId, SimulationError>(#[trigger] b.rooms@[ri].id)
                    }
                });
                let b = l.buildings@[bi];
                assert(b.rooms@.len() > 0);
                let ri = choose|ri: int| 0 <= ri < b.rooms@.len() && Ok::<RoomId, SimulationError>(remote_room) == Ok::<RoomId, SimulationError>(#[trigger] b.rooms@[ri].id);
                assert(remote_room == l.buildings@[bi].rooms@[ri].id);
                assert(room_and_building(self.location_registry, remote_room) matches Some((r, bb))
                    && bb.location_id != current_location && self.location_registry.spec_get_location(bb.location_id).is_some());
            }
        }
        let primary_info = match self.location_registry.get_room(primary_room) {
            Some(room) => room,
            None => return Err(Self::missing("Room not found: ", primary_room.value)),
        };
        let primary_building = match self.location_registry.get_building(primary_info.building_id) {
            Some(b) => b,
            None => return Err(Self::missing("Building not found: ", primary_info.building_id.value)),
        };
        let remote_info = match self.location_registry.get_room(remote_room) {
            Some(room) => room,
            None => return Err(Self::missing("Remote room not found: ", remote_room.value)),
        };
        let remote_building = match self.location_registry.get_building(remote_info.building_id) {
            Some(b) => b,
            None => return Err(Self::missing("Remote building not found: ", remote_info.building_id.value)),
        };
        if self.location_registry.get_location(primary_building.location_id).is_none() {
            return Err(Self::missing("Primary location not found: ", primary_building.location_id.value));
        }
        if self.location_registry.get_location(remote_building.location_id).is_none() {
            return Err(Self::missing("Remote location not found: ", remote_building.location_id.value));
        }
        let leg = travel.leg(primary_building.location_id, remote_building.location_id).unwrap();
        let primary_event = AccessEvent {
            timestamp: primary_event_time,
            user_id,
            room_id: primary_room,
            building_id: primary_info.building_id,
            location_id: primary_building.location_id,
            success: true,
            event_type: EventType::Success,
            failure_reason: None,
            metadata: None,
        };
        let is_authorized = permissions.can_access_room(remote_room, remote_info.building_id, remote_building.location_id);
        let time_gap_minutes = gen_range_inclusive(&mut self.rng, 1, 180);
        let travel_time_violation = TimeDelta::minutes(time_gap_minutes);
        let impossible_event = AccessEvent {
            timestamp: primary_event_time.plus(travel_time_violation),
            user_id,
            room_id: remote_room,
            building_id: remote_info.building_id,
            location_id: remote_building.location_id,
            success: is_authorized,
            event_type: if is_authorized { EventType::Success } else { EventType::Failure },
            failure_reason: if is_authorized { None } else { Some(FailureReason::ImpossibleTraveler) },
            metadata: Some(EventMetadata::impossible_traveler(travel_time_violation, leg.distance_km_bits)),
        };
        proof {
            if can {
                let p = leg_is(primary_building.location_id, remote_building.location_id);
                lemma_first_where(travel.legs@, p);
                let j = first_where(travel.legs@, p);
                assert(travel.legs@[j] == leg);
                assert(primary_building.location_id != remote_building.location_id);
            }
        }
        if !self.validate_impossible_traveler_scenario(&primary_event, &impossible_event, leg.minimum_travel_time) {
            return Err(SimulationError::event_generation_error(
                "Generated events do not constitute an impossible traveler scenario",
            ));
        }
        Ok((primary_event, impossible_event))
    }

    /// The events of an impossible traveler for a user with a cloned badge:
    /// the pair of `generate_simultaneous_impossible_traveler_events`, kept
    /// when the gap between them is shorter than the least travel between
    /// their locations. An error for a user without a cloned badge.
    pub fn generate_enhanced_impossible_traveler_event(
        &mut self,
        user_id: UserId,
        primary_workspace: RoomId,
        current_location: LocationId,
        has_cloned_badge: bool,
        permissions: &PermissionSet,
        travel: &TravelTable,
        current_time: Timestamp,
    ) -> (r: Result<Vec<AccessEvent>, SimulationError>)
        requires
            in_range(current_time.millis as int),
            in_range(current_time.millis + 10_800_000),
            travel.covers(old(self).registry()),
        ensures
            final(self).registry() == old(self).registry(),
            !has_cloned_badge ==> (r matches Err(e) && generation_error(e, "User does not have a cloned badge"@)),
            r matches Ok(v) ==> v@.len() == 2
                && impossible_pair_ok(old(self).registry(), travel.legs@, user_id, *permissions, current_time, v@[0], v@[1])
                && (v@[0].room_id == primary_workspace
                    || (authorized_pool(old(self).registry(), *permissions) matches Some(pool) && pool.contains(v@[0].room_id))),
    {
        if !has_cloned_badge {
            return Err(SimulationError::event_generation_error("User does not have a cloned badge"));
        }
        let (primary_event, impossible_event) = match self.generate_simultaneous_impossible_traveler_events(
            user_id,
            primary_workspace,
            current_location,
            permissions,
            travel,
            current_time,
        ) {
            Ok(pair) => pair,
            Err(e) => return Err(e),
        };
        let minimum_travel_time = if primary_event.location_id == impossible_event.location_id {
            TimeDelta::milliseconds(0)
        } else {
            travel.leg(primary_event.location_id, impossible_event.location_id).unwrap().minimum_travel_time
        };
        let actual_time_gap = if impossible_event.timestamp.millis > primary_event.timestamp.millis {
            impossible_event.timestamp.millis - primary_event.timestamp.millis
        } else {
            primary_event.timestamp.millis - impossible_event.timestamp.millis
        };
        if actual_time_gap >= minimum_travel_time.millis {
            return Err(SimulationError::event_generation_error(
                "Generated events do not meet impossible traveler criteria",
            ));
        }
        let mut events: Vec<AccessEvent> = Vec::new();
        events.push(primary_event);
        events.push(impossible_event);
        Ok(events)
    }

    /// The attempts a user makes to reach the target room from the room
    /// they are in: one for each room of the access flow the registry gives,
    /// thirty seconds apart from `start_time`, each authorized as the
    /// permissions open the room; the flow's error when there is no flow.
    pub fn generate_access_attempts_for_room(
        &mut self,
        user_id: UserId,
        permissions: &PermissionSet,
        current_room: Option<RoomId>,
        target_room: RoomId,
        start_time: Timestamp,
    ) -> (r: Result<Vec<AccessAttempt>, SimulationError>)
        requires
            registry_checkpoints_bounded(old(self).registry().spec_locations()),
            in_range(start_time.millis as int),
            flow_walkable(old(self).registry(), current_room, target_room, start_time),
        ensures
            final(self).registry() == old(self).registry(),
            match r {
                Ok(v) => exists|flow: AccessFlow| #[trigger] old(self).registry().spec_flow_outcome(current_room, target_room, Ok::<AccessFlow, Seq<char>>(flow))
                    && v@ == attempts_along(old(self).registry(), user_id, *permissions, flow.required_sequence@, start_time),
                Err(e) => exists|msg: Seq<char>| #[trigger] old(self).registry().spec_flow_outcome(current_room, target_room, Err::<AccessFlow, Seq<char>>(msg))
                    && generation_error(e, msg),
            },
    {
        let access_flow = match self.location_registry.get_access_flow(current_room, target_room, &self.time_manager, &mut self.rng) {
            Ok(flow) => flow,
            Err(msg) => return Err(SimulationError::EventGenerationError(msg)),
        };
        let ghost flow = access_flow;
        let ghost rooms = access_flow.required_sequence@;
        let ghost expected = attempts_along(self.location_registry, user_id, *permissions, rooms, start_time);
        let n = access_flow.required_sequence.len();
        let mut attempts: Vec<AccessAttempt> = Vec::new();
        let mut current_time = start_time;
        let mut index: usize = 0;
        while index < n
            invariant
                index <= n,
                n == rooms.len(),
                rooms == access_flow.required_sequence@,
                self.location_registry == old(self).location_registry,
                rooms_filed(self.location_registry, rooms),
                in_range(start_time.millis as int),
                start_time.millis + 30_000 * rooms.len() + 10_800_000 <= MAX_MILLIS,
                expected == attempts_along(self.location_registry, user_id, *permissions, rooms, start_time),
                index < n ==> current_time.millis == start_time.millis + 30_000 * index,
                attempts@ == expected.take(index as int),
            decreases n - index,
        {
            let room_id = access_flow.required_sequence[index];
            proof {
                assert(self.location_registry.spec_get_room(rooms[index as int]).is_some());
            }
            let _room = self.location_registry.get_room(room_id).unwrap();
            let building = self.location_registry.get_building_for_room(room_id).unwrap();
            let location = self.location_registry.get_location_for_building(building.id).unwrap();
            let is_authorized = permissions.can_access_room(room_id, building.id, location.id);
            let attempt = AccessAttempt::new(user_id, room_id, is_authorized, current_time);
            proof {
                assert(expected[index as int] == attempt);
                assert(expected.take(index as int + 1) =~= expected.take(index as int).push(attempt));
            }
            attempts.push(attempt);
            if index < n - 1 {
                current_time = current_time.plus(TimeDelta::seconds(30));
            }
            index = index + 1;
        }
        assert(expected.take(n as int) =~= expected);
        Ok(attempts)
    }

    /// The events of one activity: for each attempt along the way to the
    /// activity's room, a badge reader failure and its retry one time in a
    /// thousand when the attempt is authorized, its processed event
    /// otherwise; then, three times in twenty, a curious user's attempt at a
    /// room they may not enter; then, one time in fifty, for a user with a
    /// cloned badge, an impossible traveler (the pair, or one remote event
    /// when the pair cannot be made). Each event is the user's, at most as
    /// many as two per attempt and three more, within three hours of the
    /// walk's end.
    #[verifier::spinoff_prover]
    #[verifier::rlimit(60)]
    pub fn generate_events_internal(
        &mut self,
        user: &EventUser,
        permissions: &PermissionSet,
        travel: &TravelTable,
        activity: &ScheduledActivity,
        current_time: Timestamp,
    ) -> (r: Result<Vec<AccessEvent>, SimulationError>)
        requires
            registry_checkpoints_bounded(old(self).registry().spec_locations()),
            in_range(current_time.millis as int),
            flow_walkable(old(self).registry(), user.current_room, activity.target_room, current_time),
            travel.covers(old(self).registry()),
        ensures
            final(self).registry() == old(self).registry(),
            r matches Ok(v) ==> exists|flow: AccessFlow| #[trigger] old(self).registry().spec_flow_outcome(
                user.current_room,
                activity.target_room,
                Ok::<AccessFlow, Seq<char>>(flow),
            ) && {
                &&& walk_events(old(self).registry(), *user, *permissions, flow.required_sequence@, current_time, v@)
                &&& flow.required_sequence@.len() <= v@.len() <= 2 * flow.required_sequence@.len() + 3
                &&& events_of_user_within(
                    v@,
                    user.user_id,
                    current_time.millis as int,
                    current_time.millis + 30_000 * flow.required_sequence@.len() + 10_800_000,
                )
            },
            r matches Err(e) ==> activity_events_error(old(self).registry(), *user, *permissions, activity.target_room, current_time, e),
    {
        let ghost registry = self.location_registry;
        let access_attempts = match self.generate_access_attempts_for_room(
            user.user_id,
            permissions,
            user.current_room,
            activity.target_room,
            current_time,
        ) {
            Ok(attempts) => attempts,
            Err(e) => return Err(e),
        };
        let ghost flow = choose|flow: AccessFlow| #[trigger] registry.spec_flow_outcome(
            user.current_room,
            activity.target_room,
            Ok::<AccessFlow, Seq<char>>(flow),
        ) && access_attempts@ == attempts_along(registry, user.user_id, *permissions, flow.required_sequence@, current_time);
        let ghost len = flow.required_sequence@.len() as int;
        let ghost last = current_time.millis + 30_000 * len + 10_800_000;
        proof {
            assert(registry.spec_flow_outcome(user.current_room, activity.target_room, Ok::<AccessFlow, Seq<char>>(flow)));
        }
        let mut events: Vec<AccessEvent> = Vec::new();
        let ghost mut chunks: Seq<Seq<AccessEvent>> = Seq::empty();
        let mut k: usize = 0;
        while k < access_attempts.len()
            invariant
                k <= access_attempts@.len(),
                chunks.len() == k,
                forall|i: int| 0 <= i < k ==> attempt_events(registry, user.is_night_shift, access_attempts@[i], #[trigger] chunks[i]),
                events@ == chunks.flatten(),
                access_attempts@.len() == len,
                access_attempts@ == attempts_along(registry, user.user_id, *permissions, flow.required_sequence@, current_time),
                registry.spec_flow_outcome(user.current_room, activity.target_room, Ok::<AccessFlow, Seq<char>>(flow)),
                self.location_registry == registry,
                registry == old(self).location_registry,
                in_range(current_time.millis as int),
                current_time.millis + 30_000 * len + 10_800_000 <= MAX_MILLIS,
                last == current_time.millis + 30_000 * len + 10_800_000,
                events@.len() <= 2 * k,
                events_of_user_within(events@, user.user_id, current_time.millis as int, current_time.millis + 30_000 * k),
            decreases access_attempts.len() - k,
        {
            let attempt = access_attempts[k];
            proof {
                assert(attempt == access_attempts@[k as int]);
                assert(attempt.timestamp.millis == current_time.millis + k * 30_000);
            }
            let ghost before = events@;
            if attempt.is_authorized && gen_index(&mut self.rng, 1000) < 1 {
                let failure_events = match self.generate_badge_reader_failure(
                    user.user_id,
                    permissions,
                    attempt.target_room,
                    attempt.timestamp,
                ) {
                    Ok(v) => v,
                    Err(e) => {
                        proof {
                            assert(!attempt_processable(registry, *permissions, access_attempts@[k as int]));
                            assert(access_attempts@[k as int] == attempts_along(registry, user.user_id, *permissions, flow.required_sequence@, current_time)[k as int]);
                            assert(registry.spec_flow_outcome(user.current_room, activity.target_room, Ok::<AccessFlow, Seq<char>>(flow)));
                            assert(activity_events_error(registry, *user, *permissions, activity.target_room, current_time, e));
                        }
                        return Err(e);
                    },
                };
                events.push(failure_events[0]);
                events.push(failure_events[1]);
                proof {
                    let chunk = failure_events@;
                    assert(attempt.user_id == user.user_id);
                    assert(reader_failure_pair(registry, attempt, chunk));
                    chunks.lemma_flatten_push(chunk);
                    assert(events@ =~= before + chunk);
                    chunks = chunks.push(chunk);
                }
            } else {
                let event = match self.process_access_attempt(user.is_night_shift, &attempt) {
                    Ok(event) => event,
                    Err(e) => {
                        proof {
                            assert(!attempt_processable(registry, *permissions, access_attempts@[k as int]));
                            assert(access_attempts@[k as int] == attempts_along(registry, user.user_id, *permissions, flow.required_sequence@, current_time)[k as int]);
                            assert(registry.spec_flow_outcome(user.current_room, activity.target_room, Ok::<AccessFlow, Seq<char>>(flow)));
                            assert(activity_events_error(registry, *user, *permissions, activity.target_room, current_time, e));
                        }
                        return Err(e);
                    },
                };
                events.push(event);
                proof {
                    let chunk = seq![event];
                    assert(processed_event(registry, user.is_night_shift, attempt, event));
                    chunks.lemma_flatten_push(chunk);
                    assert(events@ =~= before + chunk);
                    chunks = chunks.push(chunk);
                }
            }
            proof {
                assert forall|i: int| 0 <= i < k + 1 implies attempt_events(registry, user.is_night_shift, access_attempts@[i], #[trigger] chunks[i]) by {
                    if i < k {
                        assert(chunks[i] == chunks.drop_last()[i]);
                    }
                }
                assert forall|i: int| 0 <= i < events@.len() implies (#[trigger] events@[i]).user_id == user.user_id
                    && current_time.millis <= events@[i].timestamp.millis <= current_time.millis + 30_000 * (k + 1) by {
                    if i < before.len() {
                        assert(events@[i] == before[i]);
                    }
                }
            }
            k = k + 1;
        }
        let ghost walked = events@;
        proof {
            assert forall|i: int| 0 <= i < chunks.len() implies (#[trigger] chunks[i]).len() >= 1 by {
                assert(attempt_events(registry, user.is_night_shift, access_attempts@[i], chunks[i]));
            }
            lemma_flatten_at_least_one_each(chunks);
        }
        if user.is_curious && gen_index(&mut self.rng, 100) < 15 {
            if let Ok(curious_event) = self.generate_curious_user_event(
                user.user_id,
                user.primary_location,
                permissions,
                current_time,
            ) {
                let ghost before = events@;
                events.push(curious_event);
                proof {
                    assert(curious_attempt_event(registry, *user, *permissions, current_time, curious_event));
                    assert(events@ =~= walked.push(curious_event));
                    assert forall|i: int| 0 <= i < events@.len() implies (#[trigger] events@[i]).user_id == user.user_id
                        && current_time.millis <= events@[i].timestamp.millis <= last by {
                        if i < before.len() {
                            assert(events@[i] == before[i]);
                        }
                    }
                }
            }
        }
        proof {
            assert forall|i: int| 0 <= i < events@.len() implies (#[trigger] events@[i]).user_id == user.user_id
                && current_time.millis <= events@[i].timestamp.millis <= last by {}
            assert(events@.subrange(0, walked.len() as int) =~= walked);
            assert(events@.len() <= walked.len() + (if user.is_curious { 1int } else { 0int }));
            assert forall|i: int| walked.len() <= i < events@.len()
                implies curious_attempt_event(registry, *user, *permissions, current_time, #[trigger] events@[i]) by {}
        }
        let ghost after_curious = events@;
        if user.has_cloned_badge && gen_index(&mut self.rng, 100) < 2 {
            let ghost before = events@;
            match self.generate_enhanced_impossible_traveler_event(
                user.user_id,
                user.primary_workspace,
                user.current_location,
                user.has_cloned_badge,
                permissions,
                travel,
                current_time,
            ) {
                Ok(impossible_events) => {
                    events.push(impossible_events[0]);
                    events.push(impossible_events[1]);
                },
                Err(_) => {
                    if let Ok(impossible_event) = self.generate_impossible_traveler_event(
                        user.user_id,
                        user.current_location,
                        user.is_night_shift,
                        permissions,
                        current_time,
                    ) {
                        events.push(impossible_event);
                    }
                },
            }
            proof {
                assert forall|i: int| 0 <= i < events@.len() implies (#[trigger] events@[i]).user_id == user.user_id
                    && current_time.millis <= events@[i].timestamp.millis <= last by {
                    if i < before.len() {
                        assert(events@[i] == before[i]);
                    }
                }
                assert(events@.subrange(0, before.len() as int) =~= before);
                assert(events@.len() <= before.len() + 2);
                assert forall|i: int| before.len() <= i < events@.len()
                    implies impossible_traveler_event(*user, #[trigger] events@[i]) by {}
            }
        }
        proof {
            let curious = after_curious.subrange(walked.len() as int, after_curious.len() as int);
            let impossible = events@.subrange(after_curious.len() as int, events@.len() as int);
            let extra = events@.subrange(walked.len() as int, events@.len() as int);
            assert(events@.subrange(0, after_curious.len() as int) =~= after_curious);
            assert(events@.len() <= after_curious.len() + (if user.has_cloned_badge { 2int } else { 0int }));
            assert(events@.subrange(0, walked.len() as int) =~= walked) by {
                assert(after_curious.subrange(0, walked.len() as int) =~= walked);
                assert forall|i: int| 0 <= i < walked.len() implies events@[i] == walked[i] by {
                    assert(events@[i] == events@.subrange(0, after_curious.len() as int)[i]);
                    assert(after_curious[i] == after_curious.subrange(0, walked.len() as int)[i]);
                }
            }
            assert(events@ =~= chunks.flatten() + curious + impossible);
            let attempts = attempts_along(registry, user.user_id, *permissions, flow.required_sequence@, current_time);
            assert(chunks.len() == attempts.len() && curious.len() <= (if user.is_curious { 1int } else { 0int })
                && impossible.len() <= (if user.has_cloned_badge { 2int } else { 0int }));
            assert forall|i: int| 0 <= i < curious.len()
                implies curious_attempt_event(registry, *user, *permissions, current_time, #[trigger] curious[i]) by {
                assert(curious[i] == after_curious[walked.len() + i]);
            }
            assert forall|i: int| 0 <= i < impossible.len() implies impossible_traveler_event(*user, #[trigger] impossible[i]) by {
                assert(impossible[i] == events@[after_curious.len() + i]);
            }
            assert forall|i: int| 0 <= i < chunks.len() implies attempt_events(registry, user.is_night_shift, attempts[i], #[trigger] chunks[i]) by {
                assert(attempts[i] == access_attempts@[i]);
            }
            assert(walk_events(registry, *user, *permissions, flow.required_sequence@, current_time, events@));
        }
        Ok(events)
    }

    /// The events of a user's activity, varied in time and kept strictly
    /// apart: those of `generate_events_internal`, or, when it fails, the
    /// minimal event for the activity (and that one's error when it fails
    /// too). Every event is the user's, each after the one before; an event
    /// whose variance window reaches into the next day is dropped.
    #[verifier::spinoff_prover]
    #[verifier::rlimit(40)]
    pub fn generate_events_from_activity(
        &mut self,
        user: &EventUser,
        permissions: &PermissionSet,
        travel: &TravelTable,
        activity: &ScheduledActivity,
        current_time: Timestamp,
    ) -> (r: Result<Vec<AccessEvent>, SimulationError>)
        requires
            registry_checkpoints_bounded(old(self).registry().spec_locations()),
            in_range(current_time.millis as int),
            current_time.millis + 11_200_000 <= MAX_MILLIS,
            flow_walkable(old(self).registry(), user.current_room, activity.target_room, current_time),
            travel.covers(old(self).registry()),
        ensures
            final(self).registry() == old(self).registry(),
            r matches Ok(v) ==> {
                &&& forall|i: int| 0 <= i < v@.len() ==> (#[trigger] v@[i]).user_id == user.user_id
                    && current_time.millis <= v@[i].timestamp.millis <= MAX_MILLIS
                &&& forall|i: int| 1 <= i < v@.len() ==> v@[i - 1].timestamp.millis < (#[trigger] v@[i]).timestamp.millis
                &&& activity_outcome(old(self).registry(), *user, *permissions, activity.target_room, current_time, v@)
            },
            r matches Err(e) ==> minimal_event_error(old(self).registry(), activity.target_room, e)
                && exists|e2: SimulationError| activity_events_error(old(self).registry(), *user, *permissions, activity.target_room, current_time, e2),
    {
        let ghost mut hi: int = current_time.millis as int;
        let mut events = match self.generate_events_internal(user, permissions, travel, activity, current_time) {
            Ok(events) => {
                proof {
                    let flow = choose|flow: AccessFlow| #[trigger] self.location_registry.spec_flow_outcome(
                        user.current_room,
                        activity.target_room,
                        Ok::<AccessFlow, Seq<char>>(flow),
                    ) && {
                        &&& events@.len() <= 2 * flow.required_sequence@.len() + 3
                        &&& events_of_user_within(
                            events@,
                            user.user_id,
                            current_time.millis as int,
                            current_time.millis + 30_000 * flow.required_sequence@.len() + 10_800_000,
                        )
                    };
                    hi = current_time.millis + 30_000 * flow.required_sequence@.len() + 10_800_000;
                    assert(events_of_user_within(events@, user.user_id, current_time.millis as int, hi));
                    lemma_flow_nonempty(self.location_registry, user.current_room, activity.target_room, flow);
                    assert(events@.len() >= 1);
                    assert(activity_events(self.location_registry, *user, *permissions, activity.target_room, current_time, events@));
                    assert(hi + 300_000 + 500 * events@.len() <= MAX_MILLIS);
                }
                events
            },
            Err(internal_error) => {
                let minimal = match self.create_minimal_event(user.user_id, permissions, activity, current_time) {
                    Ok(event) => event,
                    Err(e) => {
                        proof {
                            assert(activity_events_error(self.location_registry, *user, *permissions, activity.target_room, current_time, internal_error));
                        }
                        return Err(e);
                    },
                };
                let mut v: Vec<AccessEvent> = Vec::new();
                v.push(minimal);
                proof {
                    assert(activity_events_error(self.location_registry, *user, *permissions, activity.target_room, current_time, internal_error));
                    assert(minimal_event(self.location_registry, user.user_id, *permissions, activity.target_room, current_time, v@[0]));
                    assert(activity_events(self.location_registry, *user, *permissions, activity.target_room, current_time, v@));
                    assert(events_of_user_within(v@, user.user_id, current_time.millis as int, hi));
                    assert(hi + 300_000 + 500 * v@.len() <= MAX_MILLIS);
                }
                v
            },
        };
        let ghost before_variance = events@;
        self.time_variance.apply_variance_to_events(&mut events);
        let ghost outcomes = choose|outcomes: Seq<Option<Timestamp>>| {
            &&& outcomes.len() == before_variance.len()
            &&& forall|i: int| 0 <= i < outcomes.len() ==> variance_outcome(before_variance[i].timestamp, #[trigger] outcomes[i])
            &&& events@ == varied_events(before_variance, outcomes)
        };
        proof {
            lemma_varied_events_bounds(before_variance, outcomes, user.user_id, current_time.millis as int, hi);
            assert(hi + 300_000 + 500 * events@.len() <= MAX_MILLIS);
        }
        let ghost before_separation = events@;
        self.time_variance.ensure_unique_timestamps(events.as_mut_slice());
        proof {
            assert forall|i: int| 0 <= i < events@.len() implies (#[trigger] events@[i]).user_id == user.user_id
                && current_time.millis <= events@[i].timestamp.millis <= MAX_MILLIS by {
                assert(same_but_time(before_separation[i], events@[i]));
                lemma_separated_bounds(before_separation, events@, current_time.millis as int, hi + 300_000, i);
            }
            assert forall|i: int| 1 <= i < events@.len() implies events@[i - 1].timestamp.millis < (#[trigger] events@[i]).timestamp.millis by {
                assert(separation_step(events@[i - 1].timestamp, before_separation[i].timestamp, events@[i].timestamp));
            }
            assert(before_variance.len() >= 1 && outcomes.len() == before_variance.len());
            assert(activity_outcome(self.location_registry, *user, *permissions, activity.target_room, current_time, events@));
        }
        Ok(events)
    }

    /// Whether the events, taken in time order (events at one instant in
    /// the order given), show an impossible traveler between some event and
    /// the next within the window.
    pub fn has_impossible_traveler_pattern(
        &self,
        events: &[AccessEvent],
        time_window: TimeDelta,
        travel: &TravelTable,
    ) -> (b: bool)
        requires
            events_fit_table(events@, travel.legs@),
        ensures
            b == has_impossible_pattern(events@, travel.legs@, time_window.millis as int),
    {
        broadcast use vstd::seq_lib::group_to_multiset_ensures;
        let mut copy: Vec<AccessEvent> = Vec::new();
        let mut k: usize = 0;
        while k < events.len()
            invariant
                k <= events@.len(),
                copy@ == events@.take(k as int),
            decreases events.len() - k,
        {
            assert(events@.take(k as int + 1) =~= events@.take(k as int).push(events@[k as int]));
            copy.push(events[k]);
            k = k + 1;
        }
        assert(events@.take(events@.len() as int) =~= events@);
        let sorted = sort_events_by_timestamp(copy);
        let ghost s = sorted@;
        assert(s == sort_by_time(events@));
        let ghost legs = travel.legs@;
        let ghost window = time_window.millis as int;
        proof {
            law_sort_by_time_orders_a_permutation(events@);
            assert forall|e: AccessEvent| #[trigger] s.contains(e) implies events@.contains(e) by {
                assert(s.to_multiset().count(e) > 0);
            }
        }
        let n = sorted.len();
        if n < 2 {
            proof {
                assert forall|i: int| !#[trigger] pattern_at(s, legs, window, i) by {}
            }
            return false;
        }
        let mut i: usize = 0;
        while i < n - 1
            invariant
                n == s.len(),
                n >= 2,
                i <= n - 1,
                s == sorted@,
                s == sort_by_time(events@),
                legs == travel.legs@,
                window == time_window.millis as int,
                forall|e: AccessEvent| #[trigger] s.contains(e) ==> events@.contains(e),
                events_fit_table(events@, travel.legs@),
                forall|j: int| 0 <= j < i ==> !#[trigger] pattern_at(s, legs, window, j),
            decreases n - 1 - i,
        {
            let e1 = sorted[i];
            let e2 = sorted[i + 1];
            proof {
                assert(s.contains(s[i as int]) && s.contains(s[i + 1]));
                assert(events@.contains(e1) && events@.contains(e2));
            }
            if e2.timestamp.millis - e1.timestamp.millis <= time_window.millis {
                let minimum_travel_time = if e1.location_id == e2.location_id {
                    TimeDelta::milliseconds(0)
                } else {
                    travel.leg(e1.location_id, e2.location_id).unwrap().minimum_travel_time
                };
                if self.validate_impossible_traveler_scenario(&e1, &e2, minimum_travel_time) {
                    proof {
                        assert(pattern_at(s, legs, window, i as int));
                        assert(s == sort_by_time(events@));
                        assert(has_impossible_pattern(events@, legs, window));
                    }
                    return true;
                }
            }
            assert(!pattern_at(s, legs, window, i as int));
            i = i + 1;
        }
        proof {
            assert forall|j: int| !#[trigger] pattern_at(s, legs, window, j) by {
                if 0 <= j < i {
                }
            }
        }
        false
    }

    /// The users whose events show an impossible traveler within the
    /// window, each once, in the order of their first event.
    pub fn detect_badge_cloning_from_events(
        &self,
        events: &[AccessEvent],
        time_window: TimeDelta,
        travel: &TravelTable,
    ) -> (users: Vec<UserId>)
        requires
            events_fit_table(events@, travel.legs@),
        ensures
            users@.no_duplicates(),
            forall|u: UserId| users@.contains(u) <==> (exists|e: AccessEvent| #[trigger] events@.contains(e) && e.user_id == u)
                && has_impossible_pattern(events_of(events@, u), travel.legs@, time_window.millis as int),
    {
        let mut seen: Vec<UserId> = Vec::new();
        let mut i: usize = 0;
        while i < events.len()
            invariant
                i <= events@.len(),
                seen@.no_duplicates(),
                forall|k: int| 0 <= k < i ==> seen@.contains(#[trigger] events@[k].user_id),
                forall|u: UserId| #[trigger] seen@.contains(u) ==> exists|k: int| 0 <= k < i && events@[k].user_id == u,
            decreases events.len() - i,
        {
            let u = events[i].user_id;
            let mut found = false;
            let mut j: usize = 0;
            while j < seen.len()
                invariant
                    j <= seen@.len(),
                    found == exists|m: int| 0 <= m < j && seen@[m] == u,
                decreases seen.len() - j,
            {
                if seen[j] == u {
                    found = true;
                }
                j = j + 1;
            }
            let ghost old_seen = seen@;
            proof {
                if old_seen.contains(u) {
                    let m = choose|m: int| 0 <= m < old_seen.len() && old_seen[m] == u;
                    assert(exists|m: int| 0 <= m < j && seen@[m] == u);
                }
                assert(found == old_seen.contains(u));
            }
            if !found {
                seen.push(u);
            }
            proof {
                assert(seen@.contains(u)) by {
                    if !found {
                        assert(seen@[seen@.len() - 1] == u);
                    }
                }
                assert forall|v: UserId| old_seen.contains(v) implies seen@.contains(v) by {
                    let m = choose|m: int| 0 <= m < old_seen.len() && old_seen[m] == v;
                    assert(seen@[m] == v);
                }
                assert forall|k2: int| 0 <= k2 < i + 1 implies seen@.contains(#[trigger] events@[k2].user_id) by {
                    if k2 < i {
                        assert(old_seen.contains(events@[k2].user_id));
                    }
                }
                assert forall|v: UserId| #[trigger] seen@.contains(v) implies exists|k2: int| 0 <= k2 < i + 1 && events@[k2].user_id == v by {
                    let m = choose|m: int| 0 <= m < seen@.len() && seen@[m] == v;
                    if m < old_seen.len() {
                        assert(old_seen[m] == v);
                        assert(old_seen.contains(v));
                    } else {
                        assert(events@[i as int].user_id == v);
                    }
                }
                assert(seen@.no_duplicates()) by {
                    if !found {
                        assert forall|a: int, b: int| 0 <= a < b < seen@.len() implies seen@[a] != seen@[b] by {
                            if b == seen@.len() - 1 {
                                assert(old_seen[a] == seen@[a]);
                                if seen@[a] == u {
                                    assert(old_seen.contains(u));
                                }
                            } else {
                                assert(old_seen[a] == seen@[a] && old_seen[b] == seen@[b]);
                            }
                        }
                    }
                }
            }
            i = i + 1;
        }
        let mut users: Vec<UserId> = Vec::new();
        let mut k: usize = 0;
        while k < seen.len()
            invariant
                k <= seen@.len(),
                seen@.no_duplicates(),
                events_fit_table(events@, travel.legs@),
                forall|m: int| 0 <= m < events@.len() ==> seen@.contains(#[trigger] events@[m].user_id),
                forall|u: UserId| #[trigger] seen@.contains(u) ==> exists|m: int| 0 <= m < events@.len() && events@[m].user_id == u,
                users@.no_duplicates(),
                forall|u: UserId| users@.contains(u) <==> exists|m: int| 0 <= m < k && #[trigger] seen@[m] == u
                    && has_impossible_pattern(events_of(events@, u), travel.legs@, time_window.millis as int),
            decreases seen.len() - k,
        {
            let u = seen[k];
            let ghost pred = |e: AccessEvent| e.user_id == u;
            let mut mine: Vec<AccessEvent> = Vec::new();
            let mut m: usize = 0;
            while m < events.len()
                invariant
                    m <= events@.len(),
                    pred == (|e: AccessEvent| e.user_id == u),
                    mine@ == events@.take(m as int).filter(pred),
                decreases events.len() - m,
            {
                proof {
                    assert(events@.take(m as int + 1) =~= events@.take(m as int).push(events@[m as int]));
                    events@.take(m as int).lemma_filter_push(events@[m as int], pred);
                }
                if events[m].user_id == u {
                    mine.push(events[m]);
                }
                m = m + 1;
            }
            proof {
                assert(events@.take(events@.len() as int) =~= events@);
                assert(mine@ == events_of(events@, u));
                assert forall|e: AccessEvent| #[trigger] mine@.contains(e) implies events@.contains(e) by {
                    events@.lemma_filter_contains_rev(pred, e);
                }
            }
            let ghost before = users@;
            let shows_pattern = self.has_impossible_traveler_pattern(mine.as_slice(), time_window, travel);
            if shows_pattern {
                proof {
                    assert(!before.contains(u)) by {
                        if before.contains(u) {
                            let m2 = choose|m2: int| 0 <= m2 < k && #[trigger] seen@[m2] == u
                                && has_impossible_pattern(events_of(events@, u), travel.legs@, time_window.millis as int);
                            assert(seen@[m2] == seen@[k as int]);
                        }
                    }
                }
                users.push(u);
            }
            proof {
                assert(seen@[k as int] == u);
                assert forall|v: UserId| users@.contains(v) <==> exists|m3: int| 0 <= m3 < k + 1 && #[trigger] seen@[m3] == v
                    && has_impossible_pattern(events_of(events@, v), travel.legs@, time_window.millis as int) by {
                    if users@.contains(v) {
                        if shows_pattern {
                            let w = choose|w: int| 0 <= w < users@.len() && users@[w] == v;
                            if w < before.len() {
                                assert(before[w] == v);
                                assert(before.contains(v));
                            }
                        } else {
                            assert(before.contains(v));
                        }
                    }
                    if exists|m3: int| 0 <= m3 < k + 1 && #[trigger] seen@[m3] == v
                        && has_impossible_pattern(events_of(events@, v), travel.legs@, time_window.millis as int) {
                        let m3 = choose|m3: int| 0 <= m3 < k + 1 && #[trigger] seen@[m3] == v
                            && has_impossible_pattern(events_of(events@, v), travel.legs@, time_window.millis as int);
                        if m3 < k {
                            assert(before.contains(v));
                            let w = choose|w: int| 0 <= w < before.len() && before[w] == v;
                            assert(users@[w] == v);
                        } else {
                            assert(v == u);
                            assert(shows_pattern);
                            assert(users@[users@.len() - 1] == v);
                        }
                    }
                }
                assert(users@.no_duplicates()) by {
                    if shows_pattern {
                        assert forall|a: int, b: int| 0 <= a < b < users@.len() implies users@[a] != users@[b] by {
                            if b == users@.len() - 1 {
                                assert(before[a] == users@[a]);
                                if users@[a] == u {
                                    assert(before.contains(u));
                                }
                            } else {
                                assert(before[a] == users@[a] && before[b] == users@[b]);
                            }
                        }
                    }
                }
            }
            k = k + 1;
        }
        proof {
            assert forall|u: UserId| users@.contains(u) <==> (exists|e: AccessEvent| #[trigger] events@.contains(e) && e.user_id == u)
                && has_impossible_pattern(events_of(events@, u), travel.legs@, time_window.millis as int) by {
                if users@.contains(u) {
                    let m4 = choose|m4: int| 0 <= m4 < k && #[trigger] seen@[m4] == u
                        && has_impossible_pattern(events_of(events@, u), travel.legs@, time_window.millis as int);
                    assert(seen@.contains(u));
                    let q = choose|q: int| 0 <= q < events@.len() && events@[q].user_id == u;
                    assert(events@.contains(events@[q]));
                }
                if (exists|e: AccessEvent| #[trigger] events@.contains(e) && e.user_id == u)
                    && has_impossible_pattern(events_of(events@, u), travel.legs@, time_window.millis as int) {
                    let e = choose|e: AccessEvent| #[trigger] events@.contains(e) && e.user_id == u;
                    let q = choose|q: int| 0 <= q < events@.len() && events@[q] == e;
                    assert(seen@.contains(events@[q].user_id));
                    let m5 = choose|m5: int| 0 <= m5 < seen@.len() && seen@[m5] == u;
                }
            }
        }
        users
    }

    /// The user's activity under way at the time, the first one when several are.
    fn find_current_activity(schedule: &Vec<ScheduledActivity>, t: Timestamp) -> (r: Option<usize>)
        ensures
            match current_activity(schedule@, t.millis as int) {
                Some(i) => r == Some(i as usize),
                None => r.is_none(),
            },
            r matches Some(i) ==> i < schedule@.len() && current_activity(schedule@, t.millis as int) == Some(i as int),
    {
        proof {
            lemma_current_activity_bounds(schedule@, t.millis as int);
        }
        let mut i: usize = 0;
        while i < schedule.len()
            invariant
                i <= schedule@.len(),
                current_activity(schedule@.take(i as int), t.millis as int).is_none(),
            decreases schedule.len() - i,
        {
            let a = schedule[i];
            proof {
                let p = schedule@.take(i as int + 1);
                assert(p.drop_last() =~= schedule@.take(i as int));
                assert(p.last() == a);
            }
            if a.start_time.millis <= t.millis && (t.millis as i128) < (a.start_time.millis as i128) + (a.duration.millis as i128) {
                proof {
                    lemma_current_activity_prefix(schedule@, i as int + 1, t.millis as int);
                }
                return Some(i);
            }
            i = i + 1;
        }
        proof {
            assert(schedule@.take(i as int) =~= schedule@);
        }
        None
    }

    /// The user's events at the time step (see `timestep_events`).
    fn user_events_at(&mut self, user: &ScheduledUser, travel: &TravelTable, current_time: Timestamp) -> (r: Result<Vec<AccessEvent>, SimulationError>)
        requires
            in_range(current_time.millis as int),
            current_time.millis + 11_200_000 <= MAX_MILLIS,
            registry_checkpoints_bounded(old(self).registry().spec_locations()),
            travel.covers(old(self).registry()),
        ensures
            final(self).registry() == old(self).registry(),
            r matches Ok(v) ==> timestep_events(old(self).registry(), *user, current_time, v@),
    {
        let ghost registry = self.location_registry;
        match Self::find_current_activity(&user.daily_schedule, current_time) {
            Some(i) => {
                let activity = &user.daily_schedule[i];
                proof {
                    assert(current_activity(user.daily_schedule@, current_time.millis as int) == Some(i as int));
                    assert(*activity == user.daily_schedule@[i as int]);
                }
                if (current_time.millis as i128) - (activity.start_time.millis as i128) < 60_000 {
                    if !self.check_flow_walkable(user.user.current_room, activity.target_room, current_time) {
                        return Err(SimulationError::event_generation_error("Access flow cannot be walked to the activity's room"));
                    }
                    self.generate_events_from_activity(&user.user, &user.permissions, travel, activity, current_time)
                } else {
                    Ok(Vec::new())
                }
            },
            None => Ok(Vec::new()),
        }
    }

    /// The events of the time step: for each user whose activity under way
    /// at `current_time` started less than a minute before, that activity's
    /// events from `current_time`, user after user; the first error of an
    /// activity's events, and an error when an activity's access flow cannot
    /// be walked (a room of it not filed, or the walk's times out of range).
    #[verifier::spinoff_prover]
    #[verifier::rlimit(60)]
    pub fn generate_events_for_timestep(
        &mut self,
        users: &[ScheduledUser],
        travel: &TravelTable,
        current_time: Timestamp,
    ) -> (r: Result<Vec<AccessEvent>, SimulationError>)
        requires
            in_range(current_time.millis as int),
            current_time.millis + 11_200_000 <= MAX_MILLIS,
            registry_checkpoints_bounded(old(self).registry().spec_locations()),
            travel.covers(old(self).registry()),
        ensures
            final(self).registry() == old(self).registry(),
            r matches Ok(v) ==> exists|c: Seq<Seq<AccessEvent>>| #![trigger c.len()] {
                &&& c.len() == users@.len()
                &&& forall|k: int| 0 <= k < c.len() ==> timestep_events(old(self).registry(), users@[k], current_time, #[trigger] c[k])
                &&& v@ == c.flatten()
            },
    {
        let ghost registry = self.location_registry;
        let mut events: Vec<AccessEvent> = Vec::new();
        let ghost mut c: Seq<Seq<AccessEvent>> = Seq::empty();
        let mut k: usize = 0;
        while k < users.len()
            invariant
                k <= users@.len(),
                self.location_registry == registry,
                registry == old(self).location_registry,
                in_range(current_time.millis as int),
                current_time.millis + 11_200_000 <= MAX_MILLIS,
                registry_checkpoints_bounded(registry.spec_locations()),
                travel.covers(registry),
                c.len() == k,
                forall|k2: int| 0 <= k2 < k ==> timestep_events(registry, users@[k2], current_time, #[trigger] c[k2]),
                events@ == c.flatten(),
            decreases users.len() - k,
        {
            let user = &users[k];
            let chunk = match self.user_events_at(user, travel, current_time) {
                Ok(v) => v,
                Err(e) => return Err(e),
            };
            proof {
                assert(users@[k as int] == *user);
            }
            let ghost before = events@;
            let mut m: usize = 0;
            while m < chunk.len()
                invariant
                    m <= chunk@.len(),
                    events@ == before + chunk@.take(m as int),
                decreases chunk.len() - m,
            {
                assert(chunk@.take(m as int + 1) =~= chunk@.take(m as int).push(chunk@[m as int]));
                events.push(chunk[m]);
                m = m + 1;
            }
            proof {
                assert(chunk@.take(m as int) =~= chunk@);
                c.lemma_flatten_push(chunk@);
                c = c.push(chunk@);
                assert forall|k2: int| 0 <= k2 < k + 1 implies timestep_events(registry, users@[k2], current_time, #[trigger] c[k2]) by {
                    if k2 < k {
                        assert(c[k2] == c.drop_last()[k2]);
                    }
                }
            }
            k = k + 1;
        }
        Ok(events)
    }

    /// The events of every user's activities that start within the span
    /// from `start_time`, in time order; the first error of an activity's
    /// events when there is one.
    #[verifier::spinoff_prover]
    #[verifier::rlimit(60)]
    pub fn generate_event_sequence(
        &mut self,
        users: &[ScheduledUser],
        travel: &TravelTable,
        start_time: Timestamp,
        duration: TimeDelta,
    ) -> (r: Result<Vec<AccessEvent>, SimulationError>)
        requires
            in_range(start_time.millis as int),
            in_range(start_time.millis + duration.millis),
            registry_checkpoints_bounded(old(self).registry().spec_locations()),
            travel.covers(old(self).registry()),
            span_walkable(old(self).registry(), users@, start_time.millis as int, start_time.millis + duration.millis),
        ensures
            final(self).registry() == old(self).registry(),
            r matches Ok(v) ==> {
                &&& times_nondecreasing(v@)
                &&& forall|i: int| 0 <= i < v@.len() ==> event_of_some_user(users@, #[trigger] v@[i])
                &&& exists|c: Seq<Seq<Seq<AccessEvent>>>| #[trigger] span_events(
                    old(self).registry(), users@, start_time.millis as int, start_time.millis + duration.millis, c,
                ) && v@ == sort_by_time(flatten_nested(c))
            },
            r matches Err(e) ==> span_error(old(self).registry(), users@, start_time.millis as int, start_time.millis + duration.millis, e),
    {
        broadcast use vstd::seq_lib::group_to_multiset_ensures;
        let end_time = start_time.plus(duration);
        let ghost registry = self.location_registry;
        let ghost lo = start_time.millis as int;
        let ghost hi = start_time.millis + duration.millis;
        let mut all_events: Vec<AccessEvent> = Vec::new();
        let ghost mut done: Seq<Seq<Seq<AccessEvent>>> = Seq::empty();
        let mut k: usize = 0;
        while k < users.len()
            invariant
                k <= users@.len(),
                registry == old(self).location_registry,
                lo == start_time.millis,
                hi == start_time.millis + duration.millis,
                done.len() == k,
                forall|k2: int| 0 <= k2 < k ==> user_span_events(registry, users@[k2], lo, hi, #[trigger] done[k2]),
                all_events@ == flatten_nested(done),
                self.location_registry == old(self).location_registry,
                in_range(start_time.millis as int),
                end_time.millis == start_time.millis + duration.millis,
                registry_checkpoints_bounded(self.location_registry.spec_locations()),
                travel.covers(self.location_registry),
                span_walkable(self.location_registry, users@, start_time.millis as int, end_time.millis as int),
                forall|i: int| 0 <= i < all_events@.len() ==> event_of_some_user(users@, #[trigger] all_events@[i]),
            decreases users.len() - k,
        {
            let user = &users[k];
            let ghost mut cur: Seq<Seq<AccessEvent>> = Seq::empty();
            let mut a: usize = 0;
            while a < user.daily_schedule.len()
                invariant
                    a <= user.daily_schedule@.len(),
                    k < users@.len(),
                    *user == users@[k as int],
                    registry == old(self).location_registry,
                    lo == start_time.millis,
                    hi == start_time.millis + duration.millis,
                    cur.len() == a,
                    forall|a2: int| 0 <= a2 < a ==> span_activity_events(registry, users@[k as int], lo, hi, a2, #[trigger] cur[a2]),
                    all_events@ == flatten_nested(done) + cur.flatten(),
                    self.location_registry == old(self).location_registry,
                    end_time.millis == start_time.millis + duration.millis,
                    registry_checkpoints_bounded(self.location_registry.spec_locations()),
                    travel.covers(self.location_registry),
                    span_walkable(self.location_registry, users@, start_time.millis as int, end_time.millis as int),
                    forall|i: int| 0 <= i < all_events@.len() ==> event_of_some_user(users@, #[trigger] all_events@[i]),
                decreases user.daily_schedule.len() - a,
            {
                let activity = &user.daily_schedule[a];
                if activity.start_time.millis >= start_time.millis && activity.start_time.millis <= end_time.millis {
                    proof {
                        assert(users@[k as int].daily_schedule@[a as int] == *activity);
                    }
                    let activity_events = match self.generate_events_from_activity(
                        &user.user,
                        &user.permissions,
                        travel,
                        activity,
                        activity.start_time,
                    ) {
                        Ok(v) => v,
                        Err(e) => {
                            proof {
                                assert(span_error(old(self).location_registry, users@, start_time.millis as int, end_time.millis as int, e));
                            }
                            return Err(e);
                        },
                    };
                    let ghost before = all_events@;
                    let mut m: usize = 0;
                    while m < activity_events.len()
                        invariant
                            m <= activity_events@.len(),
                            k < users@.len(),
                            *user == users@[k as int],
                            all_events@ == before + activity_events@.take(m as int),
                            forall|i: int| 0 <= i < activity_events@.len() ==> (#[trigger] activity_events@[i]).user_id == user.user.user_id,
                            forall|i: int| 0 <= i < all_events@.len() ==> event_of_some_user(users@, #[trigger] all_events@[i]),
                        decreases activity_events.len() - m,
                    {
                        let event = activity_events[m];
                        proof {
                            assert(users@[k as int].user.user_id == event.user_id);
                            assert(event_of_some_user(users@, event));
                        }
                        let ghost prev = all_events@;
                        all_events.push(event);
                        proof {
                            assert(activity_events@.take(m as int + 1) =~= activity_events@.take(m as int).push(event));
                            assert forall|i: int| 0 <= i < all_events@.len() implies event_of_some_user(users@, #[trigger] all_events@[i]) by {
                                if i < prev.len() {
                                    assert(all_events@[i] == prev[i]);
                                }
                            }
                        }
                        m = m + 1;
                    }
                    proof {
                        assert(activity_events@.take(m as int) =~= activity_events@);
                        cur.lemma_flatten_push(activity_events@);
                        assert(span_activity_events(registry, users@[k as int], lo, hi, a as int, activity_events@));
                        cur = cur.push(activity_events@);
                    }
                } else {
                    proof {
                        cur.lemma_flatten_push(Seq::<AccessEvent>::empty());
                        assert(all_events@ =~= flatten_nested(done) + cur.push(Seq::<AccessEvent>::empty()).flatten());
                        cur = cur.push(Seq::<AccessEvent>::empty());
                    }
                }
                proof {
                    assert forall|a2: int| 0 <= a2 < a + 1 implies span_activity_events(registry, users@[k as int], lo, hi, a2, #[trigger] cur[a2]) by {
                        if a2 < a {
                            assert(cur[a2] == cur.drop_last()[a2]);
                        }
                    }
                }
                a = a + 1;
            }
            proof {
                lemma_flatten_nested_push(done, cur);
                assert(user_span_events(registry, users@[k as int], lo, hi, cur));
                done = done.push(cur);
                assert forall|k2: int| 0 <= k2 < k + 1 implies user_span_events(registry, users@[k2], lo, hi, #[trigger] done[k2]) by {
                    if k2 < k {
                        assert(done[k2] == done.drop_last()[k2]);
                    }
                }
            }
            k = k + 1;
        }
        proof {
            assert(span_events(registry, users@, lo, hi, done));
        }
        let sorted = sort_events_by_timestamp(all_events);
        proof {
            let s = sorted@;
            law_sort_by_time_orders_a_permutation(all_events@);
            assert forall|i: int| 0 <= i < s.len() implies event_of_some_user(users@, #[trigger] s[i]) by {
                let x = s[i];
                assert(s.contains(x));
                assert(s.to_multiset().count(x) > 0);
                assert(all_events@.contains(x));
                let q = choose|q: int| 0 <= q < all_events@.len() && all_events@[q] == x;
                assert(event_of_some_user(users@, all_events@[q]));
            }
        }
        Ok(sorted)
    }

    /// The error for a room the registry does not hold.
    fn room_not_found(room_id: RoomId) -> (e: SimulationError)
        ensures
            generation_error(e, "Room "@ + decimal(room_id.value as nat) + " not found"@),
    {
        let mut msg = String::from_str("Room ");
        let rid = room_id.to_display_string();
        msg.append(rid.as_str());
        msg.append(" not found");
        SimulationError::event_generation_error(msg.as_str())
    }

    /// The error for a building the registry does not hold.
    fn building_not_found(building_id: BuildingId) -> (e: SimulationError)
        ensures
            generation_error(e, "Building "@ + decimal(building_id.value as nat) + " not found"@),
    {
        let mut msg = String::from_str("Building ");
        let bid = building_id.to_display_string();
        msg.append(bid.as_str());
        msg.append(" not found");
        SimulationError::event_generation_error(msg.as_str())
    }

    /// A single event for the activity when full generation failed: the
    /// user gets into the target room exactly when the permissions open it,
    /// and a refusal is put down to a system failure.
    pub fn create_minimal_event(
        &self,
        user_id: UserId,
        permissions: &PermissionSet,
        activity: &ScheduledActivity,
        current_time: Timestamp,
    ) -> (r: Result<AccessEvent, SimulationError>)
        ensures
            match self.registry().spec_get_room(activity.target_room) {
                None => r matches Err(e) && generation_error(e, "Room "@ + decimal(activity.target_room.value as nat) + " not found"@),
                Some(room) => match self.registry().spec_get_building(room.building_id) {
                    None => r matches Err(e) && generation_error(e, "Building "@ + decimal(room.building_id.value as nat) + " not found"@),
                    Some(b) => {
                        let authorized = permissions.spec_can_access_room(activity.target_room, room.building_id, b.location_id);
                        r == Ok::<AccessEvent, SimulationError>(AccessEvent {
                            timestamp: current_time,
                            user_id,
                            room_id: activity.target_room,
                            building_id: room.building_id,
                            location_id: b.location_id,
                            success: authorized,
                            event_type: if authorized { EventType::Success } else { EventType::Failure },
                            failure_reason: if authorized { None } else { Some(FailureReason::SystemFailure) },
                            metadata: None,
                        })
                    },
                },
            },
    {
        let room = match self.location_registry.get_room(activity.target_room) {
            Some(room) => room,
            None => return Err(Self::room_not_found(activity.target_room)),
        };
        let building = match self.location_registry.get_building(room.building_id) {
            Some(b) => b,
            None => return Err(Self::building_not_found(room.building_id)),
        };
        let is_authorized = permissions.can_access_room(activity.target_room, room.building_id, building.location_id);
        Ok(AccessEvent {
            timestamp: current_time,
            user_id,
            room_id: activity.target_room,
            building_id: room.building_id,
            location_id: building.location_id,
            success: is_authorized,
            event_type: if is_authorized { EventType::Success } else { EventType::Failure },
            failure_reason: if is_authorized { None } else { Some(FailureReason::SystemFailure) },
            metadata: None,
        })
    }

    /// A badge reader failure on an authorized access and its retry: a
    /// failed event at `current_time`, then a successful retry 5 to 30
    /// seconds later. Refused when the permissions do not open the room.
    pub fn generate_badge_reader_failure(
        &mut self,
        user_id: UserId,
        permissions: &PermissionSet,
        room_id: RoomId,
        current_time: Timestamp,
    ) -> (r: Result<Vec<AccessEvent>, SimulationError>)
        requires
            in_range(current_time.millis as int),
        ensures
            final(self).registry() == old(self).registry(),
            match old(self).registry().spec_get_room(room_id) {
                None => r matches Err(e) && generation_error(e, "Room "@ + decimal(room_id.value as nat) + " not found"@),
                Some(room) => match old(self).registry().spec_get_building(room.building_id) {
                    None => r matches Err(e) && generation_error(e, "Building "@ + decimal(room.building_id.value as nat) + " not found"@),
                    Some(b) => if !permissions.spec_can_access_room(room_id, room.building_id, b.location_id) {
                        r matches Err(e) && generation_error(e, "Badge technical failures only occur on authorized access attempts"@)
                    } else {
                        r matches Ok(v) && v@.len() == 2
                            && v@[0] == (AccessEvent {
                                timestamp: current_time,
                                user_id,
                                room_id,
                                building_id: room.building_id,
                                location_id: b.location_id,
                                success: false,
                                event_type: EventType::Failure,
                                failure_reason: Some(FailureReason::BadgeReaderError),
                                metadata: Some(EventMetadata { is_badge_reader_failure: true, retry_attempt_number: None, ..plain_metadata() }),
                            })
                            && current_time.millis + 5_000 <= v@[1].timestamp.millis <= current_time.millis + 30_000
                            && v@[1] == (AccessEvent {
                                timestamp: v@[1].timestamp,
                                user_id,
                                room_id,
                                building_id: room.building_id,
                                location_id: b.location_id,
                                success: true,
                                event_type: EventType::Success,
                                failure_reason: None,
                                metadata: Some(EventMetadata { is_badge_reader_failure: true, retry_attempt_number: Some(1u8), ..plain_metadata() }),
                            })
                    },
                },
            },
    {
        let room = match self.location_registry.get_room(room_id) {
            Some(room) => room,
            None => return Err(Self::room_not_found(room_id)),
        };
        let building = match self.location_registry.get_building(room.building_id) {
            Some(b) => b,
            None => return Err(Self::building_not_found(room.building_id)),
        };
        let building_id = room.building_id;
        let location_id = building.location_id;
        let is_authorized = permissions.can_access_room(room_id, building_id, location_id);
        if !is_authorized {
            return Err(SimulationError::event_generation_error(
                "Badge technical failures only occur on authorized access attempts",
            ));
        }
        let mut events: Vec<AccessEvent> = Vec::new();
        let failure_event = AccessEvent::new_with_failure_info(
            current_time,
            user_id,
            room_id,
            building_id,
            location_id,
            false,
            EventType::Failure,
            Some(FailureReason::BadgeReaderError),
            Some(EventMetadata::badge_reader_failure(None)),
        );
        events.push(failure_event);
        let retry_delay_seconds = gen_range_inclusive(&mut self.rng, 5, 30);
        let retry_time = current_time.plus(TimeDelta::seconds(retry_delay_seconds));
        let retry_event = AccessEvent::new_with_failure_info(
            retry_time,
            user_id,
            room_id,
            building_id,
            location_id,
            true,
            EventType::Success,
            None,
            Some(EventMetadata::badge_reader_failure(Some(1))),
        );
        events.push(retry_event);
        Ok(events)
    }

    /// A room at the user's primary location that the permissions do not
    /// open, drawn at random.
    pub fn select_unauthorized_room_for_user(
        &mut self,
        primary_location: LocationId,
        permissions: &PermissionSet,
    ) -> (r: Result<RoomId, SimulationError>)
        ensures
            final(self).registry() == old(self).registry(),
            match old(self).registry().spec_get_location(primary_location) {
                None => r matches Err(e) && generation_error(e, "No location for curious user"@),
                Some(l) => {
                    let pool = unauthorized_rooms(l.buildings@, l.id, *permissions);
                    if pool.len() == 0 {
                        r matches Err(e) && generation_error(e, "No unauthorized rooms available for curious user"@)
                    } else {
                        r matches Ok(room) && pool.contains(room)
                    }
                },
            },
    {
        match self.location_registry.get_location(primary_location) {
            Some(location) => {
                let mut pool: Vec<RoomId> = Vec::new();
                let mut i: usize = 0;
                assert(location.buildings@.take(0) =~= Seq::<Building>::empty());
                while i < location.buildings.len()
                    invariant
                        i <= location.buildings@.len(),
                        pool@ == unauthorized_rooms(location.buildings@.take(i as int), location.id, *permissions),
                    decreases location.buildings.len() - i,
                {
                    let building = &location.buildings[i];
                    let ghost pred = |r: Room| !permissions.spec_can_access_room(r.id, building.id, location.id);
                    let ghost before = pool@;
                    let mut j: usize = 0;
                    while j < building.rooms.len()
                        invariant
                            j <= building.rooms@.len(),
                            pred == (|r: Room| !permissions.spec_can_access_room(r.id, building.id, location.id)),
                            pool@ == before + building.rooms@.take(j as int).filter(pred).map_values(|r: Room| r.id),
                        decreases building.rooms.len() - j,
                    {
                        let room = &building.rooms[j];
                        proof {
                            let s = building.rooms@;
                            assert(s.take(j as int + 1) =~= s.take(j as int).push(*room));
                            s.take(j as int).lemma_filter_push(*room, pred);
                        }
                        if !permissions.can_access_room(room.id, building.id, location.id) {
                            pool.push(room.id);
                        }
                        assert(pool@ =~= before + building.rooms@.take(j as int + 1).filter(pred).map_values(|r: Room| r.id));
                        j = j + 1;
                    }
                    proof {
                        assert(building.rooms@.take(building.rooms@.len() as int) =~= building.rooms@);
                        let next = location.buildings@.take(i as int + 1);
                        assert(next.drop_last() =~= location.buildings@.take(i as int));
                        assert(next.last() == *building);
                    }
                    i = i + 1;
                }
                assert(location.buildings@.take(location.buildings@.len() as int) =~= location.buildings@);
                if pool.len() == 0 {
                    return Err(SimulationError::event_generation_error("No unauthorized rooms available for curious user"));
                }
                let k = gen_index(&mut self.rng, pool.len());
                assert(pool@.contains(pool@[k as int]));
                Ok(pool[k])
            },
            None => Err(SimulationError::event_generation_error("No location for curious user")),
        }
    }

    /// A curious user's try at a room they may not enter, 1 to 30 minutes
    /// after `current_time`: always refused, marked as curious.
    pub fn generate_curious_user_event(
        &mut self,
        user_id: UserId,
        primary_location: LocationId,
        permissions: &PermissionSet,
        current_time: Timestamp,
    ) -> (r: Result<AccessEvent, SimulationError>)
        requires
            in_range(current_time.millis as int),
        ensures
            final(self).registry() == old(self).registry(),
            match old(self).registry().spec_get_location(primary_location) {
                None => r matches Err(e) && generation_error(e, "No location for curious user"@),
                Some(l) => {
                    let pool = unauthorized_rooms(l.buildings@, l.id, *permissions);
                    if pool.len() == 0 {
                        r matches Err(e) && generation_error(e, "No unauthorized rooms available for curious user"@)
                    } else {
                        exists|room_id: RoomId| #[trigger] pool.contains(room_id) && match room_and_building(old(self).registry(), room_id) {
                            None => r matches Err(e) && (
                                generation_error(e, "Room not found: "@ + decimal(room_id.value as nat))
                                || (old(self).registry().spec_get_room(room_id) matches Some(room)
                                    && generation_error(e, "Building not found: "@ + decimal(room.building_id.value as nat)))),
                            Some((room, b)) => r matches Ok(event)
                                && current_time.millis + 60_000 <= event.timestamp.millis <= current_time.millis + 1_800_000
                                && event == (AccessEvent {
                                    timestamp: event.timestamp,
                                    user_id,
                                    room_id,
                                    building_id: room.building_id,
                                    location_id: b.location_id,
                                    success: false,
                                    event_type: EventType::Failure,
                                    failure_reason: Some(FailureReason::CuriousUser),
                                    metadata: Some(EventMetadata { is_curious_attempt: true, ..plain_metadata() }),
                                }),
                        }
                    }
                },
            },
    {
        let unauthorized_room = match self.select_unauthorized_room_for_user(primary_location, permissions) {
            Ok(room) => room,
            Err(e) => return Err(e),
        };
        let room = match self.location_registry.get_room(unauthorized_room) {
            Some(room) => room,
            None => {
                let mut msg = String::from_str("Room not found: ");
                let rid = unauthorized_room.to_display_string();
                msg.append(rid.as_str());
                return Err(SimulationError::event_generation_error(msg.as_str()));
            },
        };
        let building = match self.location_registry.get_building(room.building_id) {
            Some(b) => b,
            None => {
                let mut msg = String::from_str("Building not found: ");
                let bid = room.building_id.to_display_string();
                msg.append(bid.as_str());
                return Err(SimulationError::event_generation_error(msg.as_str()));
            },
        };
        let building_id = room.building_id;
        let location_id = building.location_id;
        let minutes = gen_range_inclusive(&mut self.rng, 1, 30);
        let event_time = current_time.plus(TimeDelta::minutes(minutes));
        Ok(AccessEvent::new_with_failure_info(
            event_time,
            user_id,
            unauthorized_room,
            building_id,
            location_id,
            false,
            EventType::Failure,
            Some(FailureReason::CuriousUser),
            Some(EventMetadata::curious_attempt()),
        ))
    }

    /// Whether the two events make an impossible traveler, given the least
    /// time it takes to travel between their locations: the same user, two
    /// locations, and less time between the events than that.
    pub fn validate_impossible_traveler_scenario(
        &self,
        event1: &AccessEvent,
        event2: &AccessEvent,
        minimum_travel_time: TimeDelta,
    ) -> (b: bool)
        requires
            in_range(event1.timestamp.millis as int),
            in_range(event2.timestamp.millis as int),
        ensures
            b == (event1.user_id == event2.user_id && event1.location_id != event2.location_id
                && time_gap(*event1, *event2) < minimum_travel_time.millis),
    {
        if event1.user_id != event2.user_id {
            return false;
        }
        if event1.location_id == event2.location_id {
            return false;
        }
        let time_gap = if event2.timestamp.millis > event1.timestamp.millis {
            event2.timestamp.millis - event1.timestamp.millis
        } else {
            event1.timestamp.millis - event2.timestamp.millis
        };
        time_gap < minimum_travel_time.millis
    }

    /// Whether the kind of room is entered during business hours only.
    pub fn requires_business_hours_access_for_type(&self, room_type: RoomType) -> (b: bool)
        ensures
            b == business_hours_only(room_type),
    {
        match room_type {
            RoomType::ServerRoom | RoomType::ExecutiveOffice | RoomType::Laboratory => true,
            _ => false,
        }
    }

    /// Whether the attempt gets in: it must be admissible, and then fails
    /// only by a chance system failure, one time in a thousand, which is
    /// counted; the room's security level plays no part.
    pub fn evaluate_access_authorization_with_room_info(
        &mut self,
        attempt: &AccessAttempt,
        room_type: RoomType,
        security_level: SecurityLevel,
    ) -> (b: bool)
        ensures
            b ==> admissible(*attempt, room_type),
            final(self).registry() == old(self).registry(),
            !admissible(*attempt, room_type) ==> !b && final(self).failure_count() == old(self).failure_count(),
            admissible(*attempt, room_type) ==> b == authorization_outcome(
                *attempt, room_type, final(self).failure_count() != old(self).failure_count(),
            ),
            final(self).failure_count() == old(self).failure_count()
                || final(self).failure_count() == old(self).failure_count().wrapping_add(1),
    {
        if !attempt.is_authorized {
            return false;
        }
        if self.requires_business_hours_access_for_type(room_type)
            && !self.time_manager.is_business_hours(attempt.timestamp)
        {
            return false;
        }
        let failed = gen_index(&mut self.rng, 1000) == 0;
        if failed {
            self.system_failures = self.system_failures.wrapping_add(1);
        }
        !failed
    }

    /// Whether the attempt gets into the room.
    pub fn evaluate_access_authorization(&mut self, attempt: &AccessAttempt, room: &Room) -> (b: bool)
        ensures
            b ==> admissible(*attempt, room.room_type),
            final(self).registry() == old(self).registry(),
            !admissible(*attempt, room.room_type) ==> !b && final(self).failure_count() == old(self).failure_count(),
            admissible(*attempt, room.room_type) ==> b == authorization_outcome(
                *attempt, room.room_type, final(self).failure_count() != old(self).failure_count(),
            ),
            final(self).failure_count() == old(self).failure_count()
                || final(self).failure_count() == old(self).failure_count().wrapping_add(1),
    {
        self.evaluate_access_authorization_with_room_info(attempt, room.room_type, room.security_level)
    }

    /// The kind of event for the attempt's outcome; a refused authorized
    /// attempt at a high-security room in business hours is suspicious one
    /// time in a hundred.
    pub fn determine_event_type_with_room_info(
        &mut self,
        attempt: &AccessAttempt,
        is_high_security: bool,
        success: bool,
    ) -> (t: EventType)
        ensures
            event_type_fits(*attempt, is_high_security, success, t),
            final(self).registry() == old(self).registry(),
            final(self).failure_count() == old(self).failure_count(),
    {
        if success {
            EventType::Success
        } else if !attempt.is_authorized {
            EventType::Failure
        } else if !self.time_manager.is_business_hours(attempt.timestamp) {
            EventType::OutsideHours
        } else if is_high_security && gen_index(&mut self.rng, 100) == 0 {
            EventType::Suspicious
        } else {
            EventType::Failure
        }
    }

    /// The kind of event for the attempt's outcome at the room.
    pub fn determine_event_type(&mut self, attempt: &AccessAttempt, room: &Room, success: bool) -> (t: EventType)
        ensures
            event_type_fits(*attempt, room.spec_is_high_security(), success, t),
            final(self).registry() == old(self).registry(),
    {
        let high = room.is_high_security();
        self.determine_event_type_with_room_info(attempt, high, success)
    }

    /// The event an access attempt gives: in the room's building and
    /// location, getting in only when admissible, with a fitting kind, and
    /// marked as a night-shift event when a night-shift user badges outside
    /// business hours.
    pub fn process_access_attempt(
        &mut self,
        is_night_shift: bool,
        attempt: &AccessAttempt,
    ) -> (r: Result<AccessEvent, SimulationError>)
        ensures
            final(self).registry() == old(self).registry(),
            match room_and_building(old(self).registry(), attempt.target_room) {
                None => r matches Err(e) && (
                    generation_error(e, "Room not found: "@ + decimal(attempt.target_room.value as nat))
                    || (old(self).registry().spec_get_room(attempt.target_room) matches Some(room)
                        && generation_error(e, "Building not found: "@ + decimal(room.building_id.value as nat)))),
                Some((room, b)) => r matches Ok(event)
                    && event.timestamp == attempt.timestamp
                    && event.user_id == attempt.user_id
                    && event.room_id == attempt.target_room
                    && event.building_id == room.building_id
                    && event.location_id == b.location_id
                    && (event.success ==> admissible(*attempt, room.room_type))
                    && event_type_fits(*attempt, room.spec_is_high_security(), event.success, event.event_type)
                    && event.failure_reason.is_none()
                    && (!admissible(*attempt, room.room_type) ==> final(self).failure_count() == old(self).failure_count())
                    && (admissible(*attempt, room.room_type) ==> event.success == authorization_outcome(
                        *attempt, room.room_type, final(self).failure_count() != old(self).failure_count(),
                    ))
                    && event.metadata == (if is_night_shift && !is_business_hour(attempt.timestamp) {
                        Some(EventMetadata { is_night_shift_event: true, ..plain_metadata() })
                    } else {
                        None
                    }),
            },
    {
        let room = match self.location_registry.get_room(attempt.target_room) {
            Some(room) => room,
            None => {
                let mut msg = String::from_str("Room not found: ");
                let rid = attempt.target_room.to_display_string();
                msg.append(rid.as_str());
                return Err(SimulationError::event_generation_error(msg.as_str()));
            },
        };
        let building = match self.location_registry.get_building(room.building_id) {
            Some(b) => b,
            None => {
                let mut msg = String::from_str("Building not found: ");
                let bid = room.building_id.to_display_string();
                msg.append(bid.as_str());
                return Err(SimulationError::event_generation_error(msg.as_str()));
            },
        };
        let room_type = room.room_type;
        let security_level = room.security_level;
        let building_id = room.building_id;
        let location_id = building.location_id;
        let is_high_security = room.is_high_security();
        let success = self.evaluate_access_authorization_with_room_info(attempt, room_type, security_level);
        let event_type = self.determine_event_type_with_room_info(attempt, is_high_security, success);
        let is_night_shift_event = is_night_shift && !self.time_manager.is_business_hours(attempt.timestamp);
        let metadata = if is_night_shift_event { Some(EventMetadata::night_shift_event()) } else { None };
        Ok(AccessEvent::new_with_failure_info(
            attempt.timestamp,
            attempt.user_id,
            attempt.target_room,
            building_id,
            location_id,
            success,
            event_type,
            None,
            metadata,
        ))
    }

    /// An access by a user with a cloned badge at a room drawn at another
    /// location, 1 to 180 minutes after `current_time`: the attempt counts
    /// as authorized when the permissions open the room.
    pub fn generate_impossible_traveler_event(
        &mut self,
        user_id: UserId,
        current_location: LocationId,
        is_night_shift: bool,
        permissions: &PermissionSet,
        current_time: Timestamp,
    ) -> (r: Result<AccessEvent, SimulationError>)
        requires
            in_range(current_time.millis as int),
        ensures
            final(self).registry() == old(self).registry(),
            remote_locations(old(self).registry().spec_locations(), current_location).len() == 0
                ==> (r matches Err(e) && generation_error(e, "No remote locations available for impossible traveler scenario"@)),
            r matches Ok(event) ==> {
                &&& event.user_id == user_id
                &&& current_time.millis + 60_000 <= event.timestamp.millis <= current_time.millis + 10_800_000
                &&& event.success ==> permissions.spec_can_access_room(event.room_id, event.building_id, event.location_id)
                &&& event.failure_reason.is_none()
            },
    {
        let remote_room = match self.select_remote_location_room(current_location) {
            Ok(room) => room,
            Err(e) => return Err(e),
        };
        let room = match self.location_registry.get_room(remote_room) {
            Some(room) => room,
            None => {
                let mut msg = String::from_str("Room not found: ");
                let rid = remote_room.to_display_string();
                msg.append(rid.as_str());
                return Err(SimulationError::event_generation_error(msg.as_str()));
            },
        };
        let building = match self.location_registry.get_building(room.building_id) {
            Some(b) => b,
            None => {
                let mut msg = String::from_str("Building not found: ");
                let bid = room.building_id.to_display_string();
                msg.append(bid.as_str());
                return Err(SimulationError::event_generation_error(msg.as_str()));
            },
        };
        let is_authorized = permissions.can_access_room(remote_room, room.building_id, building.location_id);
        let minutes = gen_range_inclusive(&mut self.rng, 1, 180);
        let attempt = AccessAttempt::new(user_id, remote_room, is_authorized, current_time.plus(TimeDelta::minutes(minutes)));
        self.process_access_attempt(is_night_shift, &attempt)
    }

    /// A room drawn at a location other than the user's current one: a
    /// location drawn among the others, a building drawn there, a room
    /// drawn in it.
    pub fn select_remote_location_room(&mut self, current_location: LocationId) -> (r: Result<RoomId, SimulationError>)
        ensures
            final(self).registry() == old(self).registry(),
            ({
                let remote = remote_locations(old(self).registry().spec_locations(), current_location);
                if remote.len() == 0 {
                    r matches Err(e) && generation_error(e, "No remote locations available for impossible traveler scenario"@)
                } else {
                    exists|k: int| #![trigger remote[k]] 0 <= k < remote.len() && ({
                        let l = remote[k];
                        if l.buildings@.len() == 0 {
                            r matches Err(e) && generation_error(e, "Remote location has no buildings"@)
                        } else {
                            exists|bi: int| 0 <= bi < l.buildings@.len() && ({
                                let b = #[trigger] l.buildings@[bi];
                                if b.rooms@.len() == 0 {
                                    r matches Err(e) && generation_error(e, "Remote building has no rooms"@)
                                } else {
                                    exists|ri: int| 0 <= ri < b.rooms@.len() && r == Ok::<RoomId, SimulationError>(#[trigger] b.rooms@[ri].id)
                                }
                            })
                        }
                    })
                }
            }),
    {
        let locations = self.location_registry.get_all_locations();
        let ghost pred = |l: Location| l.id != current_location;
        let mut remote: Vec<&Location> = Vec::new();
        let mut i: usize = 0;
        while i < locations.len()
            invariant
                i <= locations@.len(),
                locations@ == self.location_registry.spec_locations(),
                pred == (|l: Location| l.id != current_location),
                remote@.map_values(|l: &Location| *l) == locations@.take(i as int).filter(pred),
            decreases locations.len() - i,
        {
            let location = &locations[i];
            proof {
                let s = locations@;
                assert(s.take(i as int + 1) =~= s.take(i as int).push(*location));
                s.take(i as int).lemma_filter_push(*location, pred);
            }
            if location.id != current_location {
                let ghost before = remote@;
                remote.push(location);
                assert(remote@.map_values(|l: &Location| *l) =~= before.map_values(|l: &Location| *l).push(*location));
            }
            i = i + 1;
        }
        assert(locations@.take(locations@.len() as int) =~= locations@);
        proof {
            assert(remote@.map_values(|l: &Location| *l).len() == remote@.len());
        }
        if remote.len() == 0 {
            return Err(SimulationError::event_generation_error(
                "No remote locations available for impossible traveler scenario",
            ));
        }
        let k = gen_index(&mut self.rng, remote.len());
        let remote_location = remote[k];
        proof {
            assert(remote@.map_values(|l: &Location| *l)[k as int] == *remote_location);
        }
        if remote_location.buildings.len() == 0 {
            return Err(SimulationError::event_generation_error("Remote location has no buildings"));
        }
        let bi = gen_index(&mut self.rng, remote_location.buildings.len());
        let remote_building = &remote_location.buildings[bi];
        if remote_building.rooms.len() == 0 {
            return Err(SimulationError::event_generation_error("Remote building has no rooms"));
        }
        let ri = gen_index(&mut self.rng, remote_building.rooms.len());
        Ok(remote_building.rooms[ri].id)
    }
}

} // verus!
