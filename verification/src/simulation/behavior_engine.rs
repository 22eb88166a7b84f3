//! Travel-time rules between activities, and where a user stays for the day
//! once they have travelled to another location.

use std::collections::HashMap;
use vstd::prelude::*;
use crate::facility::location::{Location, building_for_room};
use crate::facility::building::Building;
use crate::facility::registry::LocationRegistry;
use crate::schedule::{
    ScheduledActivity, activity_in_range, count_kind, end_millis, lemma_count_kind_push, law_sort_by_start_orders_a_permutation,
    schedule_in_range, schedule_rooms, sort_by_start, without_overlap, starts_in_order, durations_nonnegative,
    law_without_overlap_starts_in_order,
};
use crate::search::{any_where, find_where, lemma_first_where_is};
use crate::time::{in_range, MAX_MILLIS};
use crate::simulation::error::{ErrorHandler, SimulationError};
use crate::text::decimal;
use crate::simulation::time_manager::TimeManager;
use crate::time::{TimeDelta, Timestamp, gen_index, gen_range_inclusive, new_thread_rng, shuffle_room_ids};
use crate::facility::location::find_building;
use crate::facility::room::{Room, room_type_is};
use crate::permissions::permission_set::PermissionSet;
use crate::types::{ActivityType, BuildingId, LocationId, RoomId, RoomType, SecurityLevel, UserId};

verus! {

broadcast use vstd::std_specs::hash::group_hash_axioms;

/// Travel times used to keep schedules realistic.
#[derive(Clone, Copy, Debug)]
pub struct TravelTimeConstants {
    /// Least time to travel between two locations.
    pub cross_location_travel_time: TimeDelta,
    /// Shortest and longest walk between two buildings of a location.
    pub intra_location_building_travel_time: (TimeDelta, TimeDelta),
    /// Slack kept between activities.
    pub scheduling_buffer_time: TimeDelta,
}

/// The default travel times: 4 hours between locations, 15 to 30 minutes
/// between buildings, 5 minutes of slack.
pub open spec fn default_travel_times() -> TravelTimeConstants {
    TravelTimeConstants {
        cross_location_travel_time: TimeDelta { millis: 14_400_000 },
        intra_location_building_travel_time: (TimeDelta { millis: 900_000 }, TimeDelta { millis: 1_800_000 }),
        scheduling_buffer_time: TimeDelta { millis: 300_000 },
    }
}

impl Default for TravelTimeConstants {
    /// 4 hours between locations, 15 to 30 minutes between buildings, 5 minutes of slack.
    fn default() -> (c: Self)
        ensures
            c == default_travel_times(),
    {
        TravelTimeConstants {
            cross_location_travel_time: TimeDelta::hours(4),
            intra_location_building_travel_time: (TimeDelta::minutes(15), TimeDelta::minutes(30)),
            scheduling_buffer_time: TimeDelta::minutes(5),
        }
    }
}

/// The least time to get from one place to another with the default
/// travel times: the cross-location time between locations, nothing within
/// one known building, and the longest walk between buildings or when a
/// building is unknown.
pub open spec fn minimum_travel(
    from_location: LocationId,
    to_location: LocationId,
    from_building: Option<BuildingId>,
    to_building: Option<BuildingId>,
) -> TimeDelta {
    if from_location != to_location {
        default_travel_times().cross_location_travel_time
    } else if from_building.is_some() && from_building == to_building {
        TimeDelta { millis: 0 }
    } else {
        default_travel_times().intra_location_building_travel_time.1
    }
}

/// Position of the activity that, among those ending by `t`, ends latest;
/// of several that end at that instant, the last in the schedule.
pub open spec fn latest_ending_by(s: Seq<ScheduledActivity>, t: int) -> Option<int>
    decreases s.len(),
{
    if s.len() == 0 {
        None
    } else {
        let k = s.len() - 1;
        let earlier = latest_ending_by(s.drop_last(), t);
        if end_millis(s[k]) <= t && (earlier.is_none() || end_millis(s[earlier.unwrap()]) <= end_millis(s[k])) {
            Some(k)
        } else {
            earlier
        }
    }
}

/// The latest end among the activities that start before `t`, if any does.
pub open spec fn latest_end_started_before(s: Seq<ScheduledActivity>, t: int) -> Option<int>
    decreases s.len(),
{
    if s.len() == 0 {
        None
    } else {
        let a = s[s.len() - 1];
        let earlier = latest_end_started_before(s.drop_last(), t);
        if a.start_time.millis < t {
            match earlier {
                Some(e) => Some(if e < end_millis(a) { end_millis(a) } else { e }),
                None => Some(end_millis(a)),
            }
        } else {
            earlier
        }
    }
}

/// The location and building of the activity that ends latest by `t`.
pub open spec fn last_activity_location(
    locations: Seq<Location>,
    s: Seq<ScheduledActivity>,
    t: int,
) -> Option<(LocationId, BuildingId)> {
    match latest_ending_by(s, t) {
        Some(k) => room_location(locations, s[k].target_room),
        None => None,
    }
}

/// The end of the last activity before `t` that a meeting at `t` must
/// leave travel time after: the latest end among activities starting
/// before `t`, or `t` itself when none does.
pub open spec fn last_end_before(s: Seq<ScheduledActivity>, t: int) -> int {
    match latest_end_started_before(s, t) {
        Some(e) => e,
        None => t,
    }
}

/// The earliest time a meeting proposed at `proposed`, held at the user's
/// primary location and building, can start: the proposed time, or later
/// when the last activity before it leaves too little time to travel and
/// the scheduling slack.
pub open spec fn earliest_meeting_time(
    locations: Seq<Location>,
    s: Seq<ScheduledActivity>,
    proposed: int,
    primary_location: LocationId,
    primary_building: BuildingId,
) -> int {
    match last_activity_location(locations, s, proposed) {
        Some((last_location, last_building)) => {
            let travel = minimum_travel(last_location, primary_location, Some(last_building), Some(primary_building));
            let earliest = last_end_before(s, proposed) + travel.millis
                + default_travel_times().scheduling_buffer_time.millis;
            if proposed < earliest { earliest } else { proposed }
        },
        None => proposed,
    }
}

/// Whether a meeting at `meeting` in `meeting_location` (and the user's
/// primary building) leaves enough time after the last activity to travel
/// there with the scheduling slack.
pub open spec fn meeting_travel_ok(
    locations: Seq<Location>,
    s: Seq<ScheduledActivity>,
    meeting: int,
    meeting_location: LocationId,
    primary_building: BuildingId,
) -> bool {
    match last_activity_location(locations, s, meeting) {
        Some((last_location, last_building)) => {
            let travel = minimum_travel(last_location, meeting_location, Some(last_building), Some(primary_building));
            meeting - last_end_before(s, meeting) >= travel.millis + default_travel_times().scheduling_buffer_time.millis
        },
        None => true,
    }
}

/// Whether a meeting at `meeting` at another location leaves enough time
/// after the last activity for cross-location travel with the slack.
pub open spec fn cross_location_meeting_travel_ok(
    locations: Seq<Location>,
    s: Seq<ScheduledActivity>,
    meeting: int,
) -> bool {
    match last_activity_location(locations, s, meeting) {
        Some(_) => meeting - last_end_before(s, meeting)
            >= default_travel_times().cross_location_travel_time.millis
                + default_travel_times().scheduling_buffer_time.millis,
        None => true,
    }
}

/// A position `latest_ending_by` gives holds an activity that ends by `t`.
pub proof fn lemma_latest_ending_by_bounds(s: Seq<ScheduledActivity>, t: int)
    ensures
        latest_ending_by(s, t) matches Some(k) ==> 0 <= k < s.len() && end_millis(s[k]) <= t,
    decreases s.len(),
{
    if s.len() > 0 {
        lemma_latest_ending_by_bounds(s.drop_last(), t);
    }
}

/// The activity `latest_ending_by` picks ends by `t`, no activity ending
/// by `t` ends later, and none after it in the schedule ends at the same
/// instant; when it picks none, every activity ends after `t`.
pub proof fn law_latest_ending_by(s: Seq<ScheduledActivity>, t: int)
    ensures
        match latest_ending_by(s, t) {
            Some(k) => {
                &&& 0 <= k < s.len()
                &&& end_millis(s[k]) <= t
                &&& forall|j: int| 0 <= j < s.len() && end_millis(#[trigger] s[j]) <= t ==> end_millis(s[j]) <= end_millis(s[k])
                &&& forall|j: int| k < j < s.len() && end_millis(#[trigger] s[j]) <= t ==> end_millis(s[j]) < end_millis(s[k])
            },
            None => forall|j: int| 0 <= j < s.len() ==> end_millis(#[trigger] s[j]) > t,
        },
    decreases s.len(),
{
    if s.len() > 0 {
        let p = s.drop_last();
        let k = s.len() - 1;
        law_latest_ending_by(p, t);
        assert forall|j: int| 0 <= j < p.len() implies #[trigger] p[j] == s[j] by {}
        match latest_ending_by(p, t) {
            Some(m) => {
                assert(p[m] == s[m]);
                assert forall|j: int| 0 <= j < k && end_millis(#[trigger] s[j]) <= t implies end_millis(s[j]) <= end_millis(s[m]) by {
                    assert(p[j] == s[j]);
                }
                assert forall|j: int| m < j < k && end_millis(#[trigger] s[j]) <= t implies end_millis(s[j]) < end_millis(s[m]) by {
                    assert(p[j] == s[j]);
                }
            },
            None => {
                assert forall|j: int| 0 <= j < k implies end_millis(#[trigger] s[j]) > t by {
                    assert(p[j] == s[j]);
                }
            },
        }
    }
}

/// The latest end among activities starting before `t` is the end of one
/// of them, so it lies in range when the schedule does.
pub proof fn lemma_latest_end_in_range(s: Seq<ScheduledActivity>, t: int)
    requires
        schedule_in_range(s),
    ensures
        latest_end_started_before(s, t) matches Some(e) ==> in_range(e),
    decreases s.len(),
{
    if s.len() > 0 {
        let p = s.drop_last();
        assert forall|j: int| 0 <= j < p.len() implies activity_in_range(#[trigger] p[j]) by {
            assert(p[j] == s[j]);
        }
        lemma_latest_end_in_range(p, t);
        assert(activity_in_range(s[s.len() - 1]));
    }
}

/// A meeting time is never moved earlier than proposed.
pub proof fn law_earliest_meeting_not_before_proposed(
    locations: Seq<Location>,
    s: Seq<ScheduledActivity>,
    proposed: int,
    primary_location: LocationId,
    primary_building: BuildingId,
)
    ensures
        earliest_meeting_time(locations, s, proposed, primary_location, primary_building) >= proposed,
{
}

/// A proposed meeting time at the user's primary location is kept unchanged
/// exactly when it passes the travel-time check for that location.
pub proof fn law_earliest_meeting_kept_iff_travel_ok(
    locations: Seq<Location>,
    s: Seq<ScheduledActivity>,
    proposed: int,
    primary_location: LocationId,
    primary_building: BuildingId,
)
    ensures
        (earliest_meeting_time(locations, s, proposed, primary_location, primary_building) == proposed)
            <==> meeting_travel_ok(locations, s, proposed, primary_location, primary_building),
{
}

/// The kind of room an activity of the kind is preferably held in.
pub open spec fn preferred_room_type(t: ActivityType) -> RoomType {
    match t {
        ActivityType::Meeting => RoomType::MeetingRoom,
        ActivityType::Lunch => RoomType::Kitchen,
        ActivityType::Bathroom => RoomType::Bathroom,
        ActivityType::Collaboration => RoomType::Workspace,
        _ => RoomType::Workspace,
    }
}

/// Whether an activity of the kind may start in the given hour of the day
/// (UTC): meetings and collaboration 9 to 17, lunch 11 to 15, departure
/// 16 to 20, everything else 7 to 19.
pub open spec fn reasonable_hour(t: ActivityType, hour: int) -> bool {
    match t {
        ActivityType::Meeting => 9 <= hour < 17,
        ActivityType::Lunch => 11 <= hour < 15,
        ActivityType::Bathroom => 7 <= hour < 19,
        ActivityType::Collaboration => 9 <= hour < 17,
        ActivityType::Departure => 16 <= hour < 20,
        _ => 7 <= hour < 19,
    }
}

/// Whether the room, in the given building and location, is of the kind
/// asked for (any kind when none is) and open to the permissions.
pub open spec fn room_fits(
    r: Room,
    building: BuildingId,
    location: LocationId,
    kind: Option<RoomType>,
    permissions: PermissionSet,
) -> bool {
    &&& (kind matches Some(k) ==> r.room_type == k)
    &&& permissions.spec_can_access_room(r.id, building, location)
}

/// The first room of the building that fits.
pub open spec fn fitting_room_in_building(
    b: Building,
    location: LocationId,
    kind: Option<RoomType>,
    permissions: PermissionSet,
) -> Option<RoomId> {
    match find_where(b.rooms@, |r: Room| room_fits(r, b.id, location, kind, permissions)) {
        Some(r) => Some(r.id),
        None => None,
    }
}

/// The first room that fits, building after building.
pub open spec fn fitting_room(
    buildings: Seq<Building>,
    location: LocationId,
    kind: Option<RoomType>,
    permissions: PermissionSet,
) -> Option<RoomId>
    decreases buildings.len(),
{
    if buildings.len() == 0 {
        None
    } else {
        match fitting_room_in_building(buildings[0], location, kind, permissions) {
            Some(r) => Some(r),
            None => fitting_room(buildings.subrange(1, buildings.len() as int), location, kind, permissions),
        }
    }
}

/// A room at the location for the activity: the first accessible room of
/// the preferred kind, else the first accessible room.
pub open spec fn suitable_room_in_location(
    l: Option<Location>,
    location: LocationId,
    t: ActivityType,
    permissions: PermissionSet,
) -> Option<RoomId> {
    match l {
        Some(l) => match fitting_room(l.buildings@, location, Some(preferred_room_type(t)), permissions) {
            Some(r) => Some(r),
            None => fitting_room(l.buildings@, location, None, permissions),
        },
        None => None,
    }
}

/// A room in the building for the activity: the first accessible room of
/// the preferred kind, else the first accessible room.
pub open spec fn suitable_room_in_building(
    l: Option<Location>,
    location: LocationId,
    building: BuildingId,
    t: ActivityType,
    permissions: PermissionSet,
) -> Option<RoomId> {
    match l {
        Some(l) => match find_building(l.buildings@, building) {
            Some(b) => match fitting_room_in_building(b, location, Some(preferred_room_type(t)), permissions) {
                Some(r) => Some(r),
                None => fitting_room_in_building(b, location, None, permissions),
            },
            None => None,
        },
        None => None,
    }
}

/// How an activity that leaves too little travel time after the one
/// before it is dealt with.
#[derive(Clone, Copy, Debug)]
pub enum ConflictResolution {
    /// Start the activity at the given time instead.
    AdjustTime(Timestamp),
    /// Drop the activity.
    SkipActivity,
    /// Keep the activity as it is.
    NoConflict,
}

/// Whether the error is the one raised for a room found at no location.
pub open spec fn location_not_found(e: SimulationError, room: RoomId) -> bool {
    e matches SimulationError::BehaviorEngineError(m)
        && m@ == "Cannot determine location for room "@ + decimal(room.value as nat)
}

/// When the activity cannot start in time, whether another room near the
/// last activity could take it: at its location, else in its building.
pub open spec fn fallback_resolution(
    registry: LocationRegistry,
    a: ScheduledActivity,
    s: Seq<ScheduledActivity>,
    permissions: PermissionSet,
) -> Option<ConflictResolution> {
    if s.len() > 0 {
        match room_location(registry.spec_locations(), s.last().target_room) {
            Some((last_location, last_building)) => {
                let l = registry.spec_get_location(last_location);
                if suitable_room_in_location(l, last_location, a.activity_type, permissions).is_some() {
                    Some(ConflictResolution::NoConflict)
                } else if suitable_room_in_building(l, last_location, last_building, a.activity_type, permissions).is_some() {
                    Some(ConflictResolution::NoConflict)
                } else {
                    None
                }
            },
            None => None,
        }
    } else {
        None
    }
}

/// What to do with the activity given the schedule so far: nothing when
/// the last activity leaves enough time to travel to its room; else start
/// it once the travel and the slack are over, if that is still a
/// reasonable hour for it; else keep it when a room near the last activity
/// could take it, and drop it otherwise. A room found at no location is an
/// error, named by the room.
#[verifier::opaque]
pub open spec fn travel_conflict(
    registry: LocationRegistry,
    a: ScheduledActivity,
    s: Seq<ScheduledActivity>,
    permissions: PermissionSet,
) -> Result<ConflictResolution, RoomId> {
    let locs = registry.spec_locations();
    match room_location(locs, a.target_room) {
        None => Err(a.target_room),
        Some((activity_location, activity_building)) => if s.len() == 0 {
            Ok(ConflictResolution::NoConflict)
        } else {
            match room_location(locs, s.last().target_room) {
                None => Err(s.last().target_room),
                Some((last_location, last_building)) => {
                    let required = minimum_travel(last_location, activity_location, Some(last_building), Some(activity_building)).millis;
                    let last_end = end_millis(s.last());
                    if a.start_time.millis - last_end < required {
                        let start = Timestamp { millis: (last_end + required + default_travel_times().scheduling_buffer_time.millis) as i64 };
                        if reasonable_hour(a.activity_type, start.spec_hour()) {
                            Ok(ConflictResolution::AdjustTime(start))
                        } else {
                            match fallback_resolution(registry, a, s, permissions) {
                                Some(f) => Ok(f),
                                None => Ok(ConflictResolution::SkipActivity),
                            }
                        }
                    } else {
                        Ok(ConflictResolution::NoConflict)
                    }
                },
            }
        },
    }
}

/// The room an activity keeps to once the user has travelled: when the
/// schedule so far shows travel to another location and the room lies
/// elsewhere, a suitable room at the destination if there is one; the room
/// itself otherwise.
#[verifier::opaque]
pub open spec fn persistent_room(
    registry: LocationRegistry,
    held: Option<LocationId>,
    room: RoomId,
    t: ActivityType,
    s: Seq<ScheduledActivity>,
    permissions: PermissionSet,
) -> RoomId {
    let locs = registry.spec_locations();
    match travelled_to(held, locs, schedule_rooms(s)) {
        Some(destination) => match room_location(locs, room) {
            Some((original_location, _)) => if original_location != destination {
                match suitable_room_in_location(registry.spec_get_location(destination), destination, t, permissions) {
                    Some(r) => r,
                    None => room,
                }
            } else {
                room
            },
            None => room,
        },
        None => room,
    }
}

/// One step of conflict resolution: the activity as it joins the resolved
/// schedule (moved in time, moved to the room travel holds it to, and
/// pushed after the end of the last activity plus the slack when it would
/// overlap it), `None` when it is dropped, or the room found at no location.
#[verifier::opaque]
pub open spec fn resolve_step(
    registry: LocationRegistry,
    held: Option<LocationId>,
    permissions: PermissionSet,
    done: Seq<ScheduledActivity>,
    a: ScheduledActivity,
) -> Result<Option<ScheduledActivity>, RoomId> {
    match travel_conflict(registry, a, done, permissions) {
        Err(room) => Err(room),
        Ok(ConflictResolution::SkipActivity) => Ok(None),
        Ok(resolution) => {
            let start = match resolution {
                ConflictResolution::AdjustTime(t) => t,
                _ => a.start_time,
            };
            let room = persistent_room(registry, held, a.target_room, a.activity_type, done, permissions);
            let start2 = if done.len() > 0 && start.millis < end_millis(done.last()) {
                Timestamp { millis: (end_millis(done.last()) + default_travel_times().scheduling_buffer_time.millis) as i64 }
            } else {
                start
            };
            Ok(Some(ScheduledActivity {
                activity_type: a.activity_type,
                target_room: room,
                start_time: start2,
                duration: a.duration,
            }))
        },
    }
}

/// The schedule with its conflicts resolved, activity after activity.
pub open spec fn resolve_all(
    registry: LocationRegistry,
    held: Option<LocationId>,
    permissions: PermissionSet,
    input: Seq<ScheduledActivity>,
) -> Result<Seq<ScheduledActivity>, RoomId>
    decreases input.len(),
{
    if input.len() == 0 {
        Ok(Seq::empty())
    } else {
        match resolve_all(registry, held, permissions, input.drop_last()) {
            Err(room) => Err(room),
            Ok(done) => match resolve_step(registry, held, permissions, done, input.last()) {
                Err(room) => Err(room),
                Ok(None) => Ok(done),
                Ok(Some(b)) => Ok(done.push(b)),
            },
        }
    }
}

/// Whether every activity of the input, and every activity resolution
/// makes of it, lies in the range that instants keep to.
pub open spec fn resolution_in_range(
    registry: LocationRegistry,
    held: Option<LocationId>,
    permissions: PermissionSet,
    input: Seq<ScheduledActivity>,
) -> bool {
    forall|i: int| 0 <= i < input.len() ==> {
        &&& activity_in_range(#[trigger] input[i])
        &&& (resolve_all(registry, held, permissions, input.take(i)) matches Ok(done)
            ==> (resolve_step(registry, held, permissions, done, input[i]) matches Ok(Some(b)) ==> activity_in_range(b)))
    }
}

/// Once resolution fails on a prefix of the schedule, it fails on the
/// whole schedule with the same room.
pub proof fn lemma_resolve_all_error_persists(
    registry: LocationRegistry,
    held: Option<LocationId>,
    permissions: PermissionSet,
    s: Seq<ScheduledActivity>,
    k: int,
    room: RoomId,
)
    requires
        0 <= k <= s.len(),
        resolve_all(registry, held, permissions, s.take(k)) == Err::<Seq<ScheduledActivity>, RoomId>(room),
    ensures
        resolve_all(registry, held, permissions, s) == Err::<Seq<ScheduledActivity>, RoomId>(room),
    decreases s.len(),
{
    if k == s.len() {
        assert(s.take(k) =~= s);
    } else {
        let p = s.drop_last();
        assert(p.take(k) =~= s.take(k));
        lemma_resolve_all_error_persists(registry, held, permissions, p, k, room);
    }
}

/// What holds of a schedule's resolution holds of its prefix without the last activity.
pub proof fn lemma_resolution_in_range_prefix(
    registry: LocationRegistry,
    held: Option<LocationId>,
    permissions: PermissionSet,
    input: Seq<ScheduledActivity>,
)
    requires
        input.len() > 0,
        resolution_in_range(registry, held, permissions, input),
    ensures
        resolution_in_range(registry, held, permissions, input.drop_last()),
{
    let p = input.drop_last();
    assert forall|i: int| 0 <= i < p.len() implies {
        &&& activity_in_range(#[trigger] p[i])
        &&& (resolve_all(registry, held, permissions, p.take(i)) matches Ok(done)
            ==> (resolve_step(registry, held, permissions, done, p[i]) matches Ok(Some(b)) ==> activity_in_range(b)))
    } by {
        assert(p[i] == input[i]);
        assert(p.take(i) =~= input.take(i));
        assert(activity_in_range(input[i]));
    }
}

/// Every activity of a resolved schedule lies in range when resolution stays in range.
pub proof fn lemma_resolved_in_range(
    registry: LocationRegistry,
    held: Option<LocationId>,
    permissions: PermissionSet,
    input: Seq<ScheduledActivity>,
)
    requires
        resolution_in_range(registry, held, permissions, input),
    ensures
        resolve_all(registry, held, permissions, input) matches Ok(done) ==> schedule_in_range(done),
    decreases input.len(),
{
    if input.len() > 0 {
        lemma_resolution_in_range_prefix(registry, held, permissions, input);
        lemma_resolved_in_range(registry, held, permissions, input.drop_last());
        let k = input.len() - 1;
        assert(input.take(k) =~= input.drop_last());
        assert(activity_in_range(input[k]));
    }
}

/// One step of resolution keeps the activity's length and never moves it
/// earlier; after a first activity it moves it at most to four hours and
/// five minutes after the end of the one before.
pub proof fn lemma_resolve_step_times(
    registry: LocationRegistry,
    held: Option<LocationId>,
    permissions: PermissionSet,
    done: Seq<ScheduledActivity>,
    a: ScheduledActivity,
)
    requires
        activity_in_range(a),
        done.len() > 0 ==> activity_in_range(done.last()),
    ensures
        resolve_step(registry, held, permissions, done, a) matches Ok(Some(b)) ==> {
            &&& b.duration == a.duration
            &&& b.start_time.millis >= a.start_time.millis
            &&& (done.len() == 0 ==> b.start_time.millis == a.start_time.millis)
            &&& (done.len() > 0 ==> b.start_time.millis <= a.start_time.millis
                || b.start_time.millis <= end_millis(done.last()) + 14_700_000)
        },
{
    reveal(resolve_step);
    reveal(travel_conflict);
}

/// Resolution stays in range for a schedule whose activities start between
/// `lo` and `hi` and last at most `d`, when `hi` plus, for every activity,
/// `d` and the longest push that resolution gives stays in range; the
/// resolved schedule then ends by that bound.
#[verifier::spinoff_prover]
#[verifier::rlimit(40)]
proof fn lemma_bounded_resolution(
    registry: LocationRegistry,
    held: Option<LocationId>,
    permissions: PermissionSet,
    input: Seq<ScheduledActivity>,
    lo: int,
    hi: int,
    d: int,
)
    requires
        -MAX_MILLIS <= lo <= hi,
        0 <= d <= MAX_MILLIS,
        starts_within(input, lo, hi, d),
        hi + input.len() * (d + 14_700_000) <= MAX_MILLIS,
    ensures
        resolution_in_range(registry, held, permissions, input),
        resolve_all(registry, held, permissions, input) matches Ok(done) ==> {
            &&& done.len() <= input.len()
            &&& schedule_in_range(done)
            &&& (done.len() > 0 ==> end_millis(done.last()) <= hi + done.len() * (d + 14_700_000))
            &&& forall|j: int| 0 <= j < done.len()
                ==> lo <= #[trigger] done[j].start_time.millis <= hi + input.len() * (d + 14_700_000)
        },
    decreases input.len(),
{
    let k = d + 14_700_000;
    if input.len() > 0 {
        let n = input.len() as int;
        let p = input.drop_last();
        assert(p.len() * k <= n * k) by (nonlinear_arith)
            requires
                p.len() <= n,
                k >= 0,
        ;
        assert forall|i: int| 0 <= i < p.len() implies lo <= #[trigger] p[i].start_time.millis <= hi
            && 0 <= p[i].duration.millis <= d by {
            assert(p[i] == input[i]);
        }
        lemma_bounded_resolution(registry, held, permissions, p, lo, hi, d);
        let a = input[n - 1];
        assert(a == input.last());
        assert(lo <= input[n - 1].start_time.millis <= hi && 0 <= input[n - 1].duration.millis <= d);
        assert(n * k >= k) by (nonlinear_arith)
            requires
                n >= 1,
                k >= 0,
        ;
        assert(activity_in_range(a));
        assert(input.take(n - 1) =~= p);
        match resolve_all(registry, held, permissions, p) {
            Ok(done) => {
                if done.len() > 0 {
                    assert(activity_in_range(done[done.len() - 1]));
                }
                lemma_resolve_step_times(registry, held, permissions, done, a);
                assert((done.len() + 1) * k <= n * k) by (nonlinear_arith)
                    requires
                        done.len() + 1 <= n,
                        k >= 0,
                ;
                assert(done.len() * k + k == (done.len() + 1) * k) by (nonlinear_arith);
                match resolve_step(registry, held, permissions, done, a) {
                    Ok(Some(b)) => {
                        assert(activity_in_range(b));
                        let q = done.push(b);
                        assert forall|i: int| 0 <= i < q.len() implies activity_in_range(#[trigger] q[i]) by {
                            if i < done.len() {
                                assert(q[i] == done[i]);
                            }
                        }
                        assert forall|j: int| 0 <= j < q.len() implies lo <= #[trigger] q[j].start_time.millis <= hi + n * k by {
                            if j < done.len() {
                                assert(q[j] == done[j]);
                            }
                        }
                    },
                    _ => {},
                }
            },
            Err(_) => {},
        }
        assert forall|i: int| 0 <= i < input.len() implies {
            &&& activity_in_range(#[trigger] input[i])
            &&& (resolve_all(registry, held, permissions, input.take(i)) matches Ok(done)
                ==> (resolve_step(registry, held, permissions, done, input[i]) matches Ok(Some(b)) ==> activity_in_range(b)))
        } by {
            if i < n - 1 {
                assert(input[i] == p[i]);
                assert(input.take(i) =~= p.take(i));
            }
        }
    }
}

/// Two schedules, the first wholly before the second, join in start order.
proof fn lemma_ordered_concat(
    a: Seq<ScheduledActivity>,
    b: Seq<ScheduledActivity>,
    lo_a: int,
    hi_a: int,
    lo_b: int,
    hi_b: int,
    d: int,
)
    requires
        in_start_order(a),
        in_start_order(b),
        starts_within(a, lo_a, hi_a, d),
        starts_within(b, lo_b, hi_b, d),
        lo_a <= hi_a < lo_b <= hi_b,
    ensures
        in_start_order(a + b),
        starts_within(a + b, lo_a, hi_b, d),
        (a + b).len() == a.len() + b.len(),
{
    let s = a + b;
    assert forall|i: int| 0 <= i < s.len() implies lo_a <= #[trigger] s[i].start_time.millis <= hi_b
        && 0 <= s[i].duration.millis <= d by {
        if i < a.len() {
            assert(s[i] == a[i]);
        } else {
            assert(s[i] == b[i - a.len()]);
        }
    }
    assert forall|i: int, j: int| #![trigger s[i], s[j]] 0 <= i < j < s.len() implies s[i].start_time.millis < s[j].start_time.millis by {
        if j < a.len() {
            assert(s[i] == a[i] && s[j] == a[j]);
        } else if i >= a.len() {
            assert(s[i] == b[i - a.len()] && s[j] == b[j - a.len()]);
        } else {
            assert(s[i] == a[i] && s[j] == b[j - a.len()]);
        }
    }
}

/// A patrol round lies in start order, within its window, with no more
/// activities than asked for.
proof fn lemma_patrol_round_shape(rooms: Seq<RoomId>, count: int, day: int, hour: int, step: int, minutes: int)
    requires
        day_in_range(day),
        0 <= hour < 24,
        1 <= count <= 4,
        1 <= step <= 60,
        0 <= minutes <= 45,
        rooms.len() > 0,
    ensures
        in_start_order(patrol_round(rooms, count, day, hour, step, minutes)),
        starts_within(
            patrol_round(rooms, count, day, hour, step, minutes),
            day * 86_400_000 + hour * 3_600_000,
            day * 86_400_000 + hour * 3_600_000 + (count - 1) * step * 60_000,
            2_700_000,
        ),
        1 <= patrol_round(rooms, count, day, hour, step, minutes).len() <= count,
{
    let s = patrol_round(rooms, count, day, hour, step, minutes);
    let base = day * 86_400_000 + hour * 3_600_000;
    assert forall|i: int| 0 <= i < s.len() implies base <= #[trigger] s[i].start_time.millis
        <= base + (count - 1) * step * 60_000 && 0 <= s[i].duration.millis <= 2_700_000 by {
        let m = i * step;
        let top = (count - 1) * step;
        assert(0 <= m <= top <= 180) by (nonlinear_arith)
            requires
                m == i * step,
                top == (count - 1) * step,
                0 <= i <= count - 1,
                count <= 4,
                1 <= step <= 60,
        ;
        assert(s[i].start_time.millis == base + m * 60_000);
        assert(m * 60_000 <= top * 60_000);
    }
    assert forall|i: int, j: int| #![trigger s[i], s[j]] 0 <= i < j < s.len() implies s[i].start_time.millis < s[j].start_time.millis by {
        assert(i * step < j * step) by (nonlinear_arith)
            requires
                0 <= i < j,
                step >= 1,
        ;
        assert(0 <= i * step && j * step <= 3 * 60) by (nonlinear_arith)
            requires
                0 <= i < j <= 3,
                1 <= step <= 60,
        ;
    }
}

/// The night-shift plan lies in start order within its day, with at most
/// eighteen activities of at most 45 minutes each.
proof fn lemma_night_shift_plan_shape(rooms: Seq<RoomId>, break_room: RoomId, day: int)
    requires
        rooms.len() > 0,
        day_in_range(day),
    ensures
        in_start_order(night_shift_plan(rooms, break_room, day)),
        starts_within(night_shift_plan(rooms, break_room, day), day * 86_400_000, day * 86_400_000 + 81_900_000, 2_700_000),
        night_shift_plan(rooms, break_room, day).len() <= 18,
{
    let z = day * 86_400_000;
    let p1 = patrol_round(rooms, 2, day, 0, 60, 45);
    let p2 = patrol_round(rooms, 3, day, 2, 40, 30);
    let b1 = seq![activity_at(ActivityType::Bathroom, break_room, at_time(day, 4, 30), 15)];
    let p3 = patrol_round(rooms, 2, day, 5, 60, 45);
    let dep = seq![
        activity_at(ActivityType::Departure, rooms[0], at_hour(day, 8), 10),
        activity_at(ActivityType::Arrival, rooms[0], at_hour(day, 17), 10),
    ];
    let p4 = patrol_round(rooms, 3, day, 18, 40, 30);
    let b2 = seq![activity_at(ActivityType::Bathroom, break_room, at_time(day, 20, 30), 20)];
    let p5 = patrol_round(rooms, 4, day, 21, 35, 25);
    lemma_patrol_round_shape(rooms, 2, day, 0, 60, 45);
    lemma_patrol_round_shape(rooms, 3, day, 2, 40, 30);
    lemma_patrol_round_shape(rooms, 2, day, 5, 60, 45);
    lemma_patrol_round_shape(rooms, 3, day, 18, 40, 30);
    lemma_patrol_round_shape(rooms, 4, day, 21, 35, 25);
    assert(starts_within(b1, z + 16_200_000, z + 16_200_000, 2_700_000));
    assert(in_start_order(b1));
    assert(starts_within(dep, z + 28_800_000, z + 61_200_000, 2_700_000)) by {
        assert(dep[0].start_time.millis == z + 28_800_000);
        assert(dep[1].start_time.millis == z + 61_200_000);
    }
    assert(in_start_order(dep)) by {
        assert(dep[0].start_time.millis == z + 28_800_000);
        assert(dep[1].start_time.millis == z + 61_200_000);
    }
    assert(starts_within(b2, z + 73_800_000, z + 73_800_000, 2_700_000));
    assert(in_start_order(b2));
    lemma_ordered_concat(p1, p2, z, z + 3_600_000, z + 7_200_000, z + 12_000_000, 2_700_000);
    let s2 = p1 + p2;
    lemma_ordered_concat(s2, b1, z, z + 12_000_000, z + 16_200_000, z + 16_200_000, 2_700_000);
    let s3 = s2 + b1;
    lemma_ordered_concat(s3, p3, z, z + 16_200_000, z + 18_000_000, z + 21_600_000, 2_700_000);
    let s4 = s3 + p3;
    lemma_ordered_concat(s4, dep, z, z + 21_600_000, z + 28_800_000, z + 61_200_000, 2_700_000);
    let s5 = s4 + dep;
    lemma_ordered_concat(s5, p4, z, z + 61_200_000, z + 64_800_000, z + 69_600_000, 2_700_000);
    let s6 = s5 + p4;
    lemma_ordered_concat(s6, b2, z, z + 69_600_000, z + 73_800_000, z + 73_800_000, 2_700_000);
    let s7 = s6 + b2;
    lemma_ordered_concat(s7, p5, z, z + 73_800_000, z + 75_600_000, z + 81_900_000, 2_700_000);
}

/// The night-shift plan of a day is already in start order: each activity
/// starts strictly after every one before it, so ordering it by start time
/// leaves it as it is.
pub proof fn law_night_shift_plan_in_start_order(rooms: Seq<RoomId>, break_room: RoomId, day: int)
    requires
        rooms.len() > 0,
        day_in_range(day),
    ensures
        in_start_order(night_shift_plan(rooms, break_room, day)),
{
    lemma_night_shift_plan_shape(rooms, break_room, day);
}

/// Resolution of the night-shift plan stays in range.
proof fn lemma_night_shift_plan_resolves_in_range(
    registry: LocationRegistry,
    held: Option<LocationId>,
    permissions: PermissionSet,
    rooms: Seq<RoomId>,
    break_room: RoomId,
    day: int,
)
    requires
        rooms.len() > 0,
        day_in_range(day),
    ensures
        resolution_in_range(registry, held, permissions, night_shift_plan(rooms, break_room, day)),
{
    let plan = night_shift_plan(rooms, break_room, day);
    lemma_night_shift_plan_shape(rooms, break_room, day);
    assert(plan.len() * 17_400_000 <= 18 * 17_400_000) by (nonlinear_arith)
        requires
            plan.len() <= 18,
    ;
    lemma_bounded_resolution(registry, held, permissions, plan, day * 86_400_000, day * 86_400_000 + 81_900_000, 2_700_000);
}

/// Ordering by start time keeps every activity within the same bounds.
proof fn lemma_sorted_starts_within(s: Seq<ScheduledActivity>, lo: int, hi: int, d: int)
    requires
        starts_within(s, lo, hi, d),
    ensures
        starts_within(sort_by_start(s), lo, hi, d),
        sort_by_start(s).len() == s.len(),
{
    broadcast use vstd::seq_lib::group_to_multiset_ensures;
    law_sort_by_start_orders_a_permutation(s);
    let r = sort_by_start(s);
    assert forall|i: int| 0 <= i < r.len() implies lo <= #[trigger] r[i].start_time.millis <= hi
        && 0 <= r[i].duration.millis <= d by {
        let x = r[i];
        assert(r.contains(x));
        assert(r.to_multiset().count(x) > 0);
        assert(s.contains(x));
        let k = choose|k: int| 0 <= k < s.len() && s[k] == x;
        assert(lo <= s[k].start_time.millis <= hi);
    }
}

/// An activity added within the bounds keeps the schedule within them.
proof fn lemma_starts_within_push(s: Seq<ScheduledActivity>, a: ScheduledActivity, lo: int, hi: int, d: int)
    requires
        starts_within(s, lo, hi, d),
        lo <= a.start_time.millis <= hi,
        0 <= a.duration.millis <= d,
    ensures
        starts_within(s.push(a), lo, hi, d),
{
    let r = s.push(a);
    assert forall|i: int| 0 <= i < r.len() implies lo <= #[trigger] r[i].start_time.millis <= hi
        && 0 <= r[i].duration.millis <= d by {
        if i < s.len() {
            assert(r[i] == s[i]);
        }
    }
}

/// A schedule within the hours of a day lies in range.
proof fn lemma_day_schedule_in_range(s: Seq<ScheduledActivity>, day: int)
    requires
        day_in_range(day),
        starts_within(s, day * 86_400_000, day * 86_400_000 + 83_100_000, 7_200_000),
    ensures
        schedule_in_range(s),
{
    assert forall|i: int| 0 <= i < s.len() implies activity_in_range(#[trigger] s[i]) by {
        assert(day * 86_400_000 <= s[i].start_time.millis <= day * 86_400_000 + 83_100_000);
    }
}

/// The latest end among activities starting before `t` comes less than the
/// longest length after `t`.
proof fn lemma_latest_end_bound(s: Seq<ScheduledActivity>, t: int, lo: int, hi: int, d: int)
    requires
        starts_within(s, lo, hi, d),
    ensures
        latest_end_started_before(s, t) matches Some(e) ==> e < t + d,
    decreases s.len(),
{
    if s.len() > 0 {
        let p = s.drop_last();
        assert forall|i: int| 0 <= i < p.len() implies lo <= #[trigger] p[i].start_time.millis <= hi
            && 0 <= p[i].duration.millis <= d by {
            assert(p[i] == s[i]);
        }
        lemma_latest_end_bound(p, t, lo, hi, d);
        assert(lo <= s[s.len() - 1].start_time.millis <= hi);
    }
}

/// A meeting is never moved earlier than proposed, and travel moves it at
/// most the longest length, four hours and the slack later.
proof fn lemma_meeting_time_bound(
    locations: Seq<Location>,
    s: Seq<ScheduledActivity>,
    proposed: int,
    primary_location: LocationId,
    primary_building: BuildingId,
    lo: int,
    hi: int,
    d: int,
)
    requires
        starts_within(s, lo, hi, d),
        0 <= d,
    ensures
        proposed <= earliest_meeting_time(locations, s, proposed, primary_location, primary_building) <= proposed + d + 14_700_000,
{
    lemma_latest_end_bound(s, proposed, lo, hi, d);
}

/// A minute of one of the given hours lies between the first minute of the
/// earliest and the last allowed minute of the latest.
proof fn lemma_at_one_of_bounds(t: Timestamp, day: int, hours: Seq<int>, max_minute: int, lo_h: int, hi_h: int)
    requires
        day_in_range(day),
        at_one_of(t, day, hours, max_minute),
        0 <= max_minute <= 59,
        0 <= lo_h,
        hi_h <= 23,
        hours.len() <= 10,
        hours.len() > 0 ==> lo_h <= hours[0] <= hi_h,
        hours.len() > 1 ==> lo_h <= hours[1] <= hi_h,
        hours.len() > 2 ==> lo_h <= hours[2] <= hi_h,
        hours.len() > 3 ==> lo_h <= hours[3] <= hi_h,
        hours.len() > 4 ==> lo_h <= hours[4] <= hi_h,
        hours.len() > 5 ==> lo_h <= hours[5] <= hi_h,
        hours.len() > 6 ==> lo_h <= hours[6] <= hi_h,
        hours.len() > 7 ==> lo_h <= hours[7] <= hi_h,
        hours.len() > 8 ==> lo_h <= hours[8] <= hi_h,
        hours.len() > 9 ==> lo_h <= hours[9] <= hi_h,
    ensures
        day * 86_400_000 + lo_h * 3_600_000 <= t.millis <= day * 86_400_000 + hi_h * 3_600_000 + max_minute * 60_000,
{
    let (h, m) = choose|h: int, m: int| hours.contains(h) && 0 <= m <= max_minute && t == #[trigger] at_time(day, h, m);
    let i = choose|i: int| 0 <= i < hours.len() && hours[i] == h;
    assert(i == 0 || i == 1 || i == 2 || i == 3 || i == 4 || i == 5 || i == 6 || i == 7 || i == 8 || i == 9);
    assert(lo_h <= h <= hi_h);
}

/// A base meeting time lies between 09:00 and 16:59.
proof fn lemma_base_meeting_bounds(t: Timestamp, day: int, schedule_focused: bool)
    requires
        day_in_range(day),
        base_meeting_time_ok(t, day, schedule_focused),
    ensures
        day * 86_400_000 + 32_400_000 <= t.millis <= day * 86_400_000 + 61_140_000,
{
    if schedule_focused {
        let hs = seq![9int, 10, 14, 15, 16];
        let (h, m) = choose|h: int, m: int| hs.contains(h) && (m == 0 || m == 30) && t == #[trigger] at_time(day, h, m);
        let i = choose|i: int| 0 <= i < hs.len() && hs[i] == h;
        assert(i == 0 || i == 1 || i == 2 || i == 3 || i == 4);
    } else {
        lemma_at_one_of_bounds(t, day, seq![9int, 10, 11, 13, 14, 15, 16], 59, 9, 16);
    }
}

/// Counting the kinds of a schedule whose activities from `n` on are all of kind `k`.
proof fn lemma_count_kind_extend(s: Seq<ScheduledActivity>, n: int, k: ActivityType)
    requires
        0 <= n <= s.len(),
        forall|i: int| n <= i < s.len() ==> (#[trigger] s[i]).activity_type == k,
    ensures
        forall|t: ActivityType| t != k ==> #[trigger] count_kind(s, t) == count_kind(s.take(n), t),
        count_kind(s, k) == count_kind(s.take(n), k) + (s.len() - n),
    decreases s.len(),
{
    if s.len() == n {
        assert(s.take(n) =~= s);
    } else {
        let p = s.drop_last();
        assert(p.take(n) =~= s.take(n));
        assert forall|i: int| n <= i < p.len() implies (#[trigger] p[i]).activity_type == k by {
            assert(p[i] == s[i]);
        }
        lemma_count_kind_extend(p, n, k);
        lemma_count_kind_push(p, s.last());
        assert(p.push(s.last()) =~= s);
    }
}

/// Resolution keeps each activity's length: when no input activity lasts a
/// negative time, no resolved one does.
proof fn lemma_resolved_durations(
    registry: LocationRegistry,
    held: Option<LocationId>,
    permissions: PermissionSet,
    input: Seq<ScheduledActivity>,
)
    requires
        durations_nonnegative(input),
    ensures
        resolve_all(registry, held, permissions, input) matches Ok(done) ==> durations_nonnegative(done),
    decreases input.len(),
{
    if input.len() > 0 {
        let p = input.drop_last();
        assert forall|i: int| 0 <= i < p.len() implies (#[trigger] p[i]).duration.millis >= 0 by {
            assert(p[i] == input[i]);
        }
        lemma_resolved_durations(registry, held, permissions, p);
        match resolve_all(registry, held, permissions, p) {
            Ok(done) => {
                reveal(resolve_step);
                match resolve_step(registry, held, permissions, done, input.last()) {
                    Ok(Some(b)) => {
                        let all = done.push(b);
                        assert forall|j: int| 0 <= j < all.len() implies (#[trigger] all[j]).duration.millis >= 0 by {
                            if j < done.len() {
                                assert(all[j] == done[j]);
                            }
                        }
                    },
                    _ => {},
                }
            },
            Err(_) => {},
        }
    }
}

/// Resolution keeps the first activity of a schedule, so a schedule with
/// activities resolves to one with activities.
proof fn lemma_resolved_nonempty(
    registry: LocationRegistry,
    held: Option<LocationId>,
    permissions: PermissionSet,
    input: Seq<ScheduledActivity>,
)
    requires
        input.len() > 0,
    ensures
        resolve_all(registry, held, permissions, input) matches Ok(done) ==> done.len() > 0,
    decreases input.len(),
{
    let p = input.drop_last();
    let a = input.last();
    if p.len() > 0 {
        lemma_resolved_nonempty(registry, held, permissions, p);
    }
    match resolve_all(registry, held, permissions, p) {
        Ok(done) => {
            if done.len() == 0 {
                reveal(travel_conflict);
                assert(travel_conflict(registry, a, done, permissions) != Ok::<ConflictResolution, RoomId>(ConflictResolution::SkipActivity));
                reveal(resolve_step);
                assert(!(resolve_step(registry, held, permissions, done, a) matches Ok(None)));
            }
        },
        Err(_) => {},
    }
}

/// A resolved schedule has no overlap: every activity starts no earlier
/// than the end of the one before it; and resolution never adds activities.
pub proof fn law_resolved_schedule_has_no_overlap(
    registry: LocationRegistry,
    held: Option<LocationId>,
    permissions: PermissionSet,
    input: Seq<ScheduledActivity>,
)
    requires
        resolution_in_range(registry, held, permissions, input),
    ensures
        resolve_all(registry, held, permissions, input) matches Ok(done) ==> {
            &&& done.len() <= input.len()
            &&& forall|i: int| 1 <= i < done.len() ==> #[trigger] done[i].start_time.millis >= end_millis(done[i - 1])
        },
    decreases input.len(),
{
    if input.len() > 0 {
        lemma_resolution_in_range_prefix(registry, held, permissions, input);
        law_resolved_schedule_has_no_overlap(registry, held, permissions, input.drop_last());
        lemma_resolved_in_range(registry, held, permissions, input.drop_last());
        match resolve_all(registry, held, permissions, input.drop_last()) {
            Ok(done) => {
                reveal(resolve_step);
                if done.len() > 0 {
                    assert(activity_in_range(done[done.len() - 1]));
                }
                match resolve_step(registry, held, permissions, done, input.last()) {
                    Ok(Some(b)) => {
                        let all = done.push(b);
                        assert forall|i: int| 1 <= i < all.len() implies #[trigger] all[i].start_time.millis >= end_millis(all[i - 1]) by {
                            if i < done.len() {
                                assert(all[i] == done[i] && all[i - 1] == done[i - 1]);
                            } else {
                                assert(all[i] == b && all[i - 1] == done.last());
                            }
                        }
                    },
                    _ => {},
                }
            },
            Err(_) => {},
        }
    }
}

/// Where a user's departure takes place: where they travelled to today,
/// if anywhere, else their primary location.
pub open spec fn departure_location_for(
    held: Option<LocationId>,
    locations: Seq<Location>,
    rooms: Seq<RoomId>,
    primary_location: LocationId,
) -> LocationId {
    match travelled_to(held, locations, rooms) {
        Some(destination) => destination,
        None => primary_location,
    }
}

/// Whether `r` is a room a departure at `destination` may take place in:
/// the primary workspace when the destination is the primary location or
/// no building there can take the departure; otherwise one of the rooms
/// the departure is drawn from in the first building that can.
pub open spec fn departure_room_fits(
    registry: LocationRegistry,
    destination: LocationId,
    primary_location: LocationId,
    primary_workspace: RoomId,
    permissions: PermissionSet,
    r: RoomId,
) -> bool {
    if destination == primary_location {
        r == primary_workspace
    } else {
        match departure_building(registry.spec_get_location(destination), destination, permissions) {
            Some(b) => exists|k: int| 0 <= k < departure_pool(b).len() && r == #[trigger] departure_pool(b)[k].id,
            None => r == primary_workspace,
        }
    }
}

/// Whether a building can take a user's departure: the permissions open
/// the whole building and it has a workspace or a meeting room.
pub open spec fn departure_building_ok(location: LocationId, permissions: PermissionSet) -> spec_fn(Building) -> bool {
    |b: Building| {
        &&& permissions.spec_can_access_building(b.id, location)
        &&& (b.rooms@.filter(room_type_is(RoomType::Workspace)).len() > 0
            || b.rooms@.filter(room_type_is(RoomType::MeetingRoom)).len() > 0)
    }
}

/// The rooms a departure in the building is drawn from: its workspaces, or
/// its meeting rooms when it has no workspace.
pub open spec fn departure_pool(b: Building) -> Seq<Room> {
    if b.rooms@.filter(room_type_is(RoomType::Workspace)).len() > 0 {
        b.rooms@.filter(room_type_is(RoomType::Workspace))
    } else {
        b.rooms@.filter(room_type_is(RoomType::MeetingRoom))
    }
}

/// The building a departure at the location is drawn in, if any: the first
/// that can take it.
pub open spec fn departure_building(l: Option<Location>, location: LocationId, permissions: PermissionSet) -> Option<Building> {
    match l {
        Some(l) => find_where(l.buildings@, departure_building_ok(location, permissions)),
        None => None,
    }
}

/// The predicate "holds a room with this identifier in some building".
pub open spec fn location_holds(room: RoomId) -> spec_fn(Location) -> bool {
    |l: Location| any_where(l.buildings@, |b: Building| crate::facility::building::has_room(b.rooms@, room))
}

/// The location and building of the room: the first location, in order,
/// that holds it, and the first of its buildings that does.
pub open spec fn room_location(locations: Seq<Location>, room: RoomId) -> Option<(LocationId, BuildingId)> {
    match find_where(locations, location_holds(room)) {
        Some(l) => match building_for_room(l.buildings@, room) {
            Some(b) => Some((l.id, b.id)),
            None => None,
        },
        None => None,
    }
}

/// The location the room lies at, if any.
pub open spec fn room_location_id(locations: Seq<Location>, room: RoomId) -> Option<LocationId> {
    match room_location(locations, room) {
        Some(p) => Some(p.0),
        None => None,
    }
}

/// Going through the rooms in order from a room at `previous` (if any),
/// the location of the first room that lies at another location than the
/// room before it; rooms found at no location are passed over.
pub open spec fn first_location_change(locations: Seq<Location>, rooms: Seq<RoomId>, previous: Option<LocationId>) -> Option<LocationId>
    decreases rooms.len(),
{
    if rooms.len() == 0 {
        None
    } else {
        match room_location_id(locations, rooms[0]) {
            Some(here) => if previous.is_some() && previous.unwrap() != here {
                Some(here)
            } else {
                first_location_change(locations, rooms.subrange(1, rooms.len() as int), Some(here))
            },
            None => first_location_change(locations, rooms.subrange(1, rooms.len() as int), previous),
        }
    }
}

/// The location a user travelled to today, if any: the held location
/// when it differs from that of the first scheduled room, otherwise the
/// first change of location along the schedule.
pub open spec fn travelled_to(
    held: Option<LocationId>,
    locations: Seq<Location>,
    rooms: Seq<RoomId>,
) -> Option<LocationId> {
    let from_tracking = match held {
        Some(t) => if rooms.len() > 0 {
            match room_location_id(locations, rooms[0]) {
                Some(first) => if t != first { Some(t) } else { None },
                None => None,
            }
        } else {
            None
        },
        None => None,
    };
    if from_tracking.is_some() {
        from_tracking
    } else {
        first_location_change(locations, rooms, None)
    }
}

/// Once a user is held to a location other than that of the first room of
/// their schedule, they count as having travelled there, and their
/// departure takes place there.
pub proof fn law_travel_persists(
    held: LocationId,
    locations: Seq<Location>,
    rooms: Seq<RoomId>,
    primary_location: LocationId,
)
    requires
        rooms.len() > 0,
        room_location_id(locations, rooms[0]) matches Some(first) && first != held,
    ensures
        travelled_to(Some(held), locations, rooms) == Some(held),
        departure_location_for(Some(held), locations, rooms, primary_location) == held,
{
}

/// The predicate "is a room of the kind that the permissions open in the
/// given building and location".
pub open spec fn open_room_pred(
    building: BuildingId,
    location: LocationId,
    kind: RoomType,
    permissions: PermissionSet,
) -> spec_fn(Room) -> bool {
    |r: Room| r.room_type == kind && permissions.spec_can_access_room(r.id, building, location)
}

/// The rooms of the kind that the permissions open, in order.
pub open spec fn open_rooms(
    rooms: Seq<Room>,
    building: BuildingId,
    location: LocationId,
    kind: RoomType,
    permissions: PermissionSet,
) -> Seq<Room> {
    rooms.filter(open_room_pred(building, location, kind, permissions))
}

/// Whether the room is one of the pool's.
pub open spec fn drawn_from(r: RoomId, pool: Seq<Room>) -> bool {
    exists|k: int| 0 <= k < pool.len() && r == #[trigger] pool[k].id
}

/// The open rooms of the kind in the user's primary building at the location.
pub open spec fn primary_pool(l: Location, primary_building: BuildingId, kind: RoomType, permissions: PermissionSet) -> Seq<Room> {
    match find_building(l.buildings@, primary_building) {
        Some(b) => open_rooms(b.rooms@, b.id, l.id, kind, permissions),
        None => Seq::empty(),
    }
}

/// The predicate "is another building of the location, open whole to the
/// permissions, with an open room of the kind".
pub open spec fn other_building_ok(
    location: LocationId,
    primary_building: BuildingId,
    kind: RoomType,
    permissions: PermissionSet,
) -> spec_fn(Building) -> bool {
    |b: Building| {
        &&& b.id != primary_building
        &&& permissions.spec_can_access_building(b.id, location)
        &&& open_rooms(b.rooms@, b.id, location, kind, permissions).len() > 0
    }
}

/// Whether `r` is a room of the kind drawn near the user: among the open
/// ones of the primary building when it has any; else among those of the
/// first other building of the location that is open whole and has one;
/// none when neither has one.
pub open spec fn nearby_pick_ok(
    l: Option<Location>,
    primary_building: BuildingId,
    kind: RoomType,
    permissions: PermissionSet,
    r: Option<RoomId>,
) -> bool {
    match l {
        Some(l) => if primary_pool(l, primary_building, kind, permissions).len() > 0 {
            r matches Some(x) && drawn_from(x, primary_pool(l, primary_building, kind, permissions))
        } else {
            match find_where(l.buildings@, other_building_ok(l.id, primary_building, kind, permissions)) {
                Some(b) => r matches Some(x) && drawn_from(x, open_rooms(b.rooms@, b.id, l.id, kind, permissions)),
                None => r.is_none(),
            }
        },
        None => r.is_none(),
    }
}

/// Whether a room of the kind can be drawn near the user.
pub open spec fn can_pick_nearby(l: Option<Location>, primary_building: BuildingId, kind: RoomType, permissions: PermissionSet) -> bool {
    match l {
        Some(l) => primary_pool(l, primary_building, kind, permissions).len() > 0
            || any_where(l.buildings@, other_building_ok(l.id, primary_building, kind, permissions)),
        None => false,
    }
}

/// Whether `r` is a room of the kind drawn in the primary building only.
pub open spec fn primary_pick_ok(
    l: Option<Location>,
    primary_building: BuildingId,
    kind: RoomType,
    permissions: PermissionSet,
    r: Option<RoomId>,
) -> bool {
    match l {
        Some(l) => if primary_pool(l, primary_building, kind, permissions).len() > 0 {
            r matches Some(x) && drawn_from(x, primary_pool(l, primary_building, kind, permissions))
        } else {
            r.is_none()
        },
        None => r.is_none(),
    }
}

/// Whether `r` is a meeting room drawn in the building: among the meeting
/// rooms the permissions open there, none when there is no such room or
/// the registry does not know the building.
pub open spec fn building_meeting_pick_ok(
    registry: LocationRegistry,
    building_id: BuildingId,
    permissions: PermissionSet,
    r: Option<RoomId>,
) -> bool {
    match (registry.spec_get_building(building_id), registry.spec_get_location_for_building(building_id)) {
        (Some(b), Some(l)) => {
            let pool = open_rooms(b.rooms@, building_id, l.id, RoomType::MeetingRoom, permissions);
            if pool.len() > 0 {
                r matches Some(x) && drawn_from(x, pool)
            } else {
                r.is_none()
            }
        },
        _ => r.is_none(),
    }
}

/// The predicate "is a building, other than the excluded one, open whole
/// to the permissions at the location".
pub open spec fn meeting_building_ok(
    location: LocationId,
    exclude: Option<BuildingId>,
    permissions: PermissionSet,
) -> spec_fn(Building) -> bool {
    |b: Building| Some(b.id) != exclude && permissions.spec_can_access_building(b.id, location)
}

/// Whether `r` is a meeting room drawn at the location: in a building
/// drawn among those open whole to the user (but the excluded one); none
/// when there is no such building.
pub open spec fn location_meeting_pick_ok(
    registry: LocationRegistry,
    location_id: LocationId,
    exclude: Option<BuildingId>,
    permissions: PermissionSet,
    r: Option<RoomId>,
) -> bool {
    match registry.spec_get_location(location_id) {
        Some(l) => {
            let available = l.buildings@.filter(meeting_building_ok(location_id, exclude, permissions));
            if available.len() > 0 {
                exists|k: int| 0 <= k < available.len()
                    && building_meeting_pick_ok(registry, #[trigger] available[k].id, permissions, r)
            } else {
                r.is_none()
            }
        },
        None => r.is_none(),
    }
}

/// The predicate "is a location other than the primary one that the
/// permissions open whole".
pub open spec fn remote_location_ok(primary_location: LocationId, permissions: PermissionSet) -> spec_fn(Location) -> bool {
    |l: Location| l.id != primary_location && permissions.spec_can_access_location(l.id)
}

/// The rooms a night-shift user may enter in the building of the primary
/// location, in the building's order.
pub open spec fn night_shift_rooms(
    registry: LocationRegistry,
    primary_location: LocationId,
    building_id: BuildingId,
    permissions: PermissionSet,
) -> Seq<RoomId> {
    match registry.spec_get_location(primary_location) {
        Some(l) => match find_building(l.buildings@, building_id) {
            Some(b) => b.rooms@.filter(|r: Room| permissions.spec_can_access_room(r.id, building_id, primary_location))
                .map_values(|r: Room| r.id),
            None => Seq::empty(),
        },
        None => Seq::empty(),
    }
}

/// A night-shift break room in the building of the primary location: the
/// first bathroom the user may enter, else the first kitchen.
pub open spec fn night_shift_break_room(
    registry: LocationRegistry,
    primary_location: LocationId,
    building_id: BuildingId,
    permissions: PermissionSet,
) -> Option<RoomId> {
    match registry.spec_get_location(primary_location) {
        Some(l) => match find_building(l.buildings@, building_id) {
            Some(b) => match find_where(b.rooms@, open_room_pred(building_id, primary_location, RoomType::Bathroom, permissions)) {
                Some(r) => Some(r.id),
                None => match find_where(b.rooms@, open_room_pred(building_id, primary_location, RoomType::Kitchen, permissions)) {
                    Some(r) => Some(r.id),
                    None => None,
                },
            },
            None => None,
        },
        None => None,
    }
}

/// How far from the primary building a meeting was drawn to take place,
/// as the draw against the affinities of the simulation's configuration
/// came out.
#[derive(Clone, Copy, Debug, PartialEq, Eq, Structural)]
pub enum MeetingReach {
    /// In the primary building.
    PrimaryBuilding,
    /// In another building of the primary location.
    SameLocation,
    /// At another location.
    OtherLocation,
}

/// The instant `hour` o'clock (UTC) on the day `day` days after 1970-01-01.
pub open spec fn at_hour(day: int, hour: int) -> Timestamp {
    Timestamp { millis: (day * 86_400_000 + hour * 3_600_000) as i64 }
}

/// The activity of the kind in the room, from `start` for `minutes` minutes.
pub open spec fn activity_at(t: ActivityType, room: RoomId, start: Timestamp, minutes: int) -> ScheduledActivity {
    ScheduledActivity { activity_type: t, target_room: room, start_time: start, duration: TimeDelta { millis: (minutes * 60_000) as i64 } }
}

/// The schedule of a day when nothing more can be planned: arrival at the
/// workspace at 09:00 for 15 minutes, departure from it at 17:00 for 10.
pub open spec fn minimal_schedule(workspace: RoomId, day: int) -> Seq<ScheduledActivity> {
    seq![
        activity_at(ActivityType::Arrival, workspace, at_hour(day, 9), 15),
        activity_at(ActivityType::Departure, workspace, at_hour(day, 17), 10),
    ]
}

/// The night-shift schedule of a day when nothing more can be planned, all
/// at the workspace: a patrol at 02:00 for 30 minutes, departure at 08:00
/// for 10, arrival at 17:00 for 10, a patrol at 21:00 for 30.
pub open spec fn minimal_night_shift_schedule(workspace: RoomId, day: int) -> Seq<ScheduledActivity> {
    seq![
        activity_at(ActivityType::NightPatrol, workspace, at_hour(day, 2), 30),
        activity_at(ActivityType::Departure, workspace, at_hour(day, 8), 10),
        activity_at(ActivityType::Arrival, workspace, at_hour(day, 17), 10),
        activity_at(ActivityType::NightPatrol, workspace, at_hour(day, 21), 30),
    ]
}

/// Neither minimal schedule has an activity starting before the one before it ends.
proof fn lemma_minimal_schedules_without_overlap(workspace: RoomId, day: int)
    requires
        day_in_range(day),
    ensures
        without_overlap(minimal_schedule(workspace, day)),
        without_overlap(minimal_night_shift_schedule(workspace, day)),
        starts_in_order(minimal_schedule(workspace, day)),
        starts_in_order(minimal_night_shift_schedule(workspace, day)),
{
    let d = minimal_schedule(workspace, day);
    assert(d[1].start_time.millis >= end_millis(d[0]));
    let n = minimal_night_shift_schedule(workspace, day);
    assert(n[1].start_time.millis >= end_millis(n[0]));
    assert(n[2].start_time.millis >= end_millis(n[1]));
    assert(n[3].start_time.millis >= end_millis(n[2]));
    law_without_overlap_starts_in_order(d);
    law_without_overlap_starts_in_order(n);
}

/// A patrol round: the first `count` rooms (all of them when there are
/// fewer), the `i`-th visited from `i * step` minutes after `hour` o'clock
/// for `minutes` minutes.
pub open spec fn patrol_round(rooms: Seq<RoomId>, count: int, day: int, hour: int, step: int, minutes: int) -> Seq<ScheduledActivity> {
    let n = if rooms.len() < count { rooms.len() as int } else { count };
    Seq::new(n as nat, |i: int| activity_at(ActivityType::NightPatrol, rooms[i], at_time(day, hour, i * step), minutes))
}

/// The night-shift plan of a day for the rooms drawn for patrol, before
/// conflicts are resolved: patrols from 00:00 (two rooms, hourly, 45
/// minutes each) and from 02:00 (three rooms, every 40 minutes, 30 each), a
/// 15-minute break at 04:30, patrols from 05:00 (two rooms, hourly, 45
/// each), departure through the first room at 08:00 and arrival through it
/// at 17:00 (10 minutes each), patrols from 18:00 (three rooms, every 40
/// minutes, 30 each), a 20-minute break at 20:30, and patrols from 21:00
/// (four rooms, every 35 minutes, 25 each).
pub open spec fn night_shift_plan(rooms: Seq<RoomId>, break_room: RoomId, day: int) -> Seq<ScheduledActivity> {
    patrol_round(rooms, 2, day, 0, 60, 45)
        + patrol_round(rooms, 3, day, 2, 40, 30)
        + seq![activity_at(ActivityType::Bathroom, break_room, at_time(day, 4, 30), 15)]
        + patrol_round(rooms, 2, day, 5, 60, 45)
        + seq![
            activity_at(ActivityType::Departure, rooms[0], at_hour(day, 8), 10),
            activity_at(ActivityType::Arrival, rooms[0], at_hour(day, 17), 10),
        ]
        + patrol_round(rooms, 3, day, 18, 40, 30)
        + seq![activity_at(ActivityType::Bathroom, break_room, at_time(day, 20, 30), 20)]
        + patrol_round(rooms, 4, day, 21, 35, 25)
}

/// Whether every activity of the schedule starts between `lo` and `hi`
/// milliseconds and lasts between nothing and `d`.
pub open spec fn starts_within(s: Seq<ScheduledActivity>, lo: int, hi: int, d: int) -> bool {
    forall|i: int| 0 <= i < s.len() ==> lo <= #[trigger] s[i].start_time.millis <= hi && 0 <= s[i].duration.millis <= d
}

/// Whether each activity of the schedule starts strictly after every one before it.
pub open spec fn in_start_order(s: Seq<ScheduledActivity>) -> bool {
    forall|i: int, j: int| #![trigger s[i], s[j]] 0 <= i < j < s.len() ==> s[i].start_time.millis < s[j].start_time.millis
}

/// What a night-shift schedule comes to for the rooms drawn for patrol:
/// the resolution of the plan, with the break room where there is one and
/// the first drawn room otherwise; or the error for a room found at no location.
pub open spec fn night_shift_outcome(
    registry: LocationRegistry,
    held: Option<LocationId>,
    permissions: PermissionSet,
    rooms: Seq<RoomId>,
    break_room: Option<RoomId>,
    day: int,
    r: Result<Vec<ScheduledActivity>, SimulationError>,
) -> bool {
    let room = match break_room { Some(b) => b, None => rooms[0] };
    match resolve_all(registry, held, permissions, night_shift_plan(rooms, room, day)) {
        Ok(done) => r matches Ok(v) && v@ == done,
        Err(missing) => r matches Err(e) && location_not_found(e, missing),
    }
}

/// What a day's schedule reads of a day-shift user: who they are, where
/// they work, and the traits their behaviour profile's levels decide.
#[derive(Clone, Copy, Debug)]
pub struct DayShiftUser {
    /// The user.
    pub user_id: UserId,
    /// The location they work at.
    pub primary_location: LocationId,
    /// Their building there.
    pub primary_building: BuildingId,
    /// Their desk.
    pub primary_workspace: RoomId,
    /// Whether they try doors they may not open.
    pub is_curious: bool,
    /// Whether they keep to a schedule.
    pub schedule_focused: bool,
    /// Whether they keep to their schedule closely enough to arrive within half an hour.
    pub punctual: bool,
    /// Whether they seek company.
    pub social: bool,
    /// Whether their curiosity runs high enough to try doors at any working hour.
    pub bold: bool,
}

/// The draws a day's schedule takes against the levels of the user's
/// behaviour profile and the simulation's affinities.
#[derive(Clone, Debug)]
pub struct DayDraws {
    /// How far from their building each meeting of the day is sought, one
    /// entry per meeting (at most five).
    pub meeting_reaches: Vec<MeetingReach>,
    /// How many minutes departure strays from the end of the working day.
    pub departure_variation_minutes: i64,
    /// Whether a curious user tries doors today.
    pub tries_doors: bool,
}

/// What `generate_daily_schedule` may give for the user, with the location
/// the user is held at before and after: for a night-shift user, the
/// night-shift schedule over the rooms open to them in their night building
/// (the minimal one when none is), or a room's error; for others, the
/// resolution of a day plan fitting their profile and draws, or the minimal
/// schedule when it cannot be resolved.
pub open spec fn daily_schedule_outcome(
    held_before: Option<LocationId>,
    held_after: Option<LocationId>,
    user: DayShiftUser,
    is_night_shift: bool,
    assigned_night_building: Option<BuildingId>,
    permissions: PermissionSet,
    draws: DayDraws,
    day: int,
    registry: LocationRegistry,
    r: Result<Vec<ScheduledActivity>, SimulationError>,
) -> bool {
    &&& is_night_shift ==> ({
        let building = match assigned_night_building { Some(b) => b, None => user.primary_building };
        let open = night_shift_rooms(registry, user.primary_location, building, permissions);
        if open.len() == 0 {
            r matches Ok(v) && v@ == minimal_night_shift_schedule(user.primary_workspace, day)
        } else {
            exists|rooms: Seq<RoomId>| #[trigger] rooms.to_multiset() == open.to_multiset()
                && night_shift_outcome(
                    registry,
                    held_before,
                    permissions,
                    rooms,
                    night_shift_break_room(registry, user.primary_location, building, permissions),
                    day,
                    r,
                )
        }
    })
    &&& !is_night_shift ==> exists|plan: Seq<ScheduledActivity>| #[trigger] day_plan_ok(
        plan,
        user,
        draws.meeting_reaches@.len() as int,
        draws.departure_variation_minutes as int,
        draws.tries_doors,
        day,
    ) && match resolve_all(registry, held_after, permissions, sort_by_start(plan)) {
        Ok(done) => r matches Ok(v) && v@ == done,
        Err(_) => r matches Ok(v) && v@ == minimal_schedule(user.primary_workspace, day),
    }
}

/// When a day-shift user leaves, in milliseconds: eight hours after arrival
/// for a schedule-focused user and seven for others (whose seven and a half
/// hours count in whole hours), moved by the drawn minutes, and no later
/// than 20:00.
pub open spec fn departure_time(day: int, schedule_focused: bool, arrival: int, variation_minutes: int) -> int {
    let earliest = arrival + (if schedule_focused { 8int } else { 7int }) * 3_600_000 + variation_minutes * 60_000;
    let latest = day * 86_400_000 + 72_000_000;
    if earliest < latest { earliest } else { latest }
}

/// Whether the activity is an unauthorized attempt the day could hold: a
/// room at the primary location the permissions do not open, at a minute of
/// the hours a curious user of that boldness chooses, for 5 to 15 minutes.
pub open spec fn attempt_ok(
    a: ScheduledActivity,
    registry: LocationRegistry,
    primary_location: LocationId,
    permissions: PermissionSet,
    bold: bool,
    day: int,
) -> bool {
    &&& a.activity_type == ActivityType::UnauthorizedAccess
    &&& (registry.spec_get_location(primary_location) matches Some(l) && closed_room(l, permissions, a.target_room))
    &&& at_one_of(a.start_time, day, if bold { seq![8int, 9, 10, 11, 13, 14, 15, 16, 17] } else { seq![8int, 12, 13, 17] }, 59)
    &&& 300_000 <= a.duration.millis <= 900_000
}

/// Whether `plan` is a day-shift plan the draws could give, before it is
/// ordered and its conflicts resolved: it opens with the arrival at the
/// workspace at the drawn time for 15 minutes, holds one departure of 10
/// minutes at the departure time for that arrival, two to four bathroom
/// breaks, one lunch, no more meetings than reaches were drawn, up to three
/// collaborations for a social user and none for others, up to three
/// unauthorized attempts for a curious user who tries doors today and none
/// otherwise, and no patrol; every activity starts within the day, by
/// 23:05 (where a meeting moved after travel may land), and lasts at most
/// two hours.
pub open spec fn day_plan_ok(plan: Seq<ScheduledActivity>, user: DayShiftUser, draws_meetings: int, variation_minutes: int, tries_doors: bool, day: int) -> bool {
    let z = day * 86_400_000;
    &&& plan.len() > 0
    &&& plan[0].activity_type == ActivityType::Arrival
    &&& plan[0].target_room == user.primary_workspace
    &&& plan[0].duration.millis == 900_000
    &&& at_one_of(plan[0].start_time, day, if user.schedule_focused { seq![8int] } else { seq![7int, 8, 9] }, if user.punctual { 30 } else { 59 })
    &&& (exists|k: int| 0 <= k < plan.len() && (#[trigger] plan[k]).activity_type == ActivityType::Departure
        && plan[k].start_time.millis == departure_time(day, user.schedule_focused, plan[0].start_time.millis as int, variation_minutes)
        && plan[k].duration.millis == 600_000)
    &&& count_kind(plan, ActivityType::Arrival) == 1
    &&& 2 <= count_kind(plan, ActivityType::Bathroom) <= 4
    &&& count_kind(plan, ActivityType::Lunch) == 1
    &&& count_kind(plan, ActivityType::Meeting) <= draws_meetings
    &&& count_kind(plan, ActivityType::Collaboration) <= (if user.social { 3int } else { 0int })
    &&& count_kind(plan, ActivityType::Departure) == 1
    &&& count_kind(plan, ActivityType::NightPatrol) == 0
    &&& count_kind(plan, ActivityType::UnauthorizedAccess) <= (if user.is_curious && tries_doors { 3int } else { 0int })
    &&& starts_within(plan, z, z + 83_100_000, 7_200_000)
}

/// Whether every activity of the schedule starts in range, on the day or
/// within the nine days after it.
pub open spec fn schedule_within_days(s: Seq<ScheduledActivity>, day: int) -> bool {
    forall|i: int| 0 <= i < s.len() ==> in_range((#[trigger] s[i]).start_time.millis as int)
        && day * 86_400_000 <= s[i].start_time.millis <= day * 86_400_000 + 864_000_000
}

/// Whether the day, counted from 1970-01-01, is one a calendar date of
/// the simulation can name (chrono's dates span fewer days than this).
pub open spec fn day_in_range(day: int) -> bool {
    -100_000_000 <= day <= 100_000_000
}

/// Whether a security level draws curious users every time: restricted and above.
pub open spec fn tempting_level(level: SecurityLevel) -> bool {
    level == SecurityLevel::Restricted || level == SecurityLevel::HighSecurity || level == SecurityLevel::MaxSecurity
}

/// Whether the room at position `ri` of building `bi` of the location is
/// one the permissions do not open.
pub open spec fn closed_room_at(l: Location, permissions: PermissionSet, bi: int, ri: int) -> bool {
    &&& 0 <= bi < l.buildings@.len()
    &&& 0 <= ri < l.buildings@[bi].rooms@.len()
    &&& !permissions.spec_can_access_room(l.buildings@[bi].rooms@[ri].id, l.buildings@[bi].id, l.id)
}

/// Whether the room is one at the location that the permissions do not open.
pub open spec fn closed_room(l: Location, permissions: PermissionSet, room: RoomId) -> bool {
    exists|bi: int, ri: int| #[trigger] closed_room_at(l, permissions, bi, ri) && l.buildings@[bi].rooms@[ri].id == room
}

/// Whether the location has a room the permissions do not open at a
/// restricted or higher level.
pub open spec fn tempting_room_exists(l: Location, permissions: PermissionSet) -> bool {
    exists|bi: int, ri: int| #[trigger] closed_room_at(l, permissions, bi, ri)
        && tempting_level(l.buildings@[bi].rooms@[ri].security_level)
}

/// The instant `hour:minute` (UTC) on the day `day` days after 1970-01-01.
pub open spec fn at_time(day: int, hour: int, minute: int) -> Timestamp {
    Timestamp { millis: (day * 86_400_000 + hour * 3_600_000 + minute * 60_000) as i64 }
}

/// Whether `t` is some minute of one of the given hours of the day, with
/// the minute in `0..=max_minute`.
pub open spec fn at_one_of(t: Timestamp, day: int, hours: Seq<int>, max_minute: int) -> bool {
    exists|h: int, m: int| hours.contains(h) && 0 <= m <= max_minute && t == #[trigger] at_time(day, h, m)
}

/// Whether `t` is a meeting time before travel is considered: for a
/// schedule-focused user on the hour or at half past 9, 10, 14, 15 or 16
/// o'clock; for others any minute of an hour from 9 to 16 but noon.
pub open spec fn base_meeting_time_ok(t: Timestamp, day: int, schedule_focused: bool) -> bool {
    if schedule_focused {
        exists|h: int, m: int| seq![9int, 10, 14, 15, 16].contains(h) && (m == 0 || m == 30)
            && t == #[trigger] at_time(day, h, m)
    } else {
        at_one_of(t, day, seq![9int, 10, 11, 13, 14, 15, 16], 59)
    }
}

/// The behaviour rules of the simulation that concern travel: minimum
/// travel times and the location each user is held to for the day.
#[derive(Debug)]
pub struct BehaviorEngine {
    rng: rand::rngs::ThreadRng,
    time_manager: TimeManager,
    error_handler: ErrorHandler,
    travel_time_constants: TravelTimeConstants,
    user_daily_locations: HashMap<u64, LocationId>,
}

impl BehaviorEngine {
    /// Whether the engine works with the default travel times, as every
    /// engine does.
    pub closed spec fn wf(&self) -> bool {
        self.travel_time_constants == default_travel_times()
    }

    /// The location each user, by identifier, is held to today.
    pub closed spec fn daily_locations(&self) -> Map<u64, LocationId> {
        self.user_daily_locations@
    }

    /// The location the user is held to today, if held.
    pub open spec fn held_location(&self, user_id: UserId) -> Option<LocationId> {
        if self.daily_locations().contains_key(user_id.value) {
            Some(self.daily_locations()[user_id.value])
        } else {
            None
        }
    }

    /// An engine with the default travel times and no user held.
    pub fn new(time_manager: TimeManager) -> (e: Self)
        ensures
            e.wf(),
            e.daily_locations() == Map::<u64, LocationId>::empty(),
    {
        BehaviorEngine {
            rng: new_thread_rng(),
            time_manager,
            error_handler: ErrorHandler::new(),
            travel_time_constants: TravelTimeConstants::default(),
            user_daily_locations: HashMap::new(),
        }
    }

    /// The travel times in use.
    pub fn travel_time_constants(&self) -> (c: TravelTimeConstants)
        requires
            self.wf(),
        ensures
            c == default_travel_times(),
    {
        self.travel_time_constants
    }

    /// The least time to get from one place to another: the cross-location
    /// time between locations, nothing within a building, and the longest
    /// walk between buildings or when a building is unknown.
    pub fn calculate_minimum_travel_time(
        &self,
        from_location: LocationId,
        to_location: LocationId,
        from_building: Option<BuildingId>,
        to_building: Option<BuildingId>,
    ) -> (d: TimeDelta)
        requires
            self.wf(),
        ensures
            d == minimum_travel(from_location, to_location, from_building, to_building),
    {
        if from_location != to_location {
            return self.travel_time_constants.cross_location_travel_time;
        }
        match (from_building, to_building) {
            (Some(from_bld), Some(to_bld)) => if from_bld == to_bld {
                TimeDelta::zero()
            } else {
                self.travel_time_constants.intra_location_building_travel_time.1
            },
            _ => self.travel_time_constants.intra_location_building_travel_time.1,
        }
    }

    /// Position of the activity that ends latest by `before`, the last of
    /// several that end at that instant.
    fn latest_ending_index(schedule: &[ScheduledActivity], before: Timestamp) -> (r: Option<usize>)
        requires
            schedule_in_range(schedule@),
        ensures
            match r {
                Some(k) => latest_ending_by(schedule@, before.millis as int) == Some(k as int) && k < schedule@.len(),
                None => latest_ending_by(schedule@, before.millis as int).is_none(),
            },
    {
        let ghost t = before.millis as int;
        let mut best: Option<usize> = None;
        let mut best_end: i64 = 0;
        let mut i: usize = 0;
        while i < schedule.len()
            invariant
                i <= schedule@.len(),
                t == before.millis,
                schedule_in_range(schedule@),
                match best {
                    Some(k) => {
                        &&& k < i
                        &&& latest_ending_by(schedule@.take(i as int), t) == Some(k as int)
                        &&& best_end == end_millis(schedule@[k as int])
                    },
                    None => latest_ending_by(schedule@.take(i as int), t).is_none(),
                },
            decreases schedule.len() - i,
        {
            let a = schedule[i];
            proof {
                assert(activity_in_range(schedule@[i as int]));
                let next = schedule@.take(i as int + 1);
                assert(next.drop_last() =~= schedule@.take(i as int));
                assert(next[i as int] == schedule@[i as int]);
                if let Some(k) = best {
                    assert(next[k as int] == schedule@[k as int]);
                }
            }
            let end = a.start_time.millis + a.duration.millis;
            if end <= before.millis {
                match best {
                    Some(_) => {
                        if best_end <= end {
                            best = Some(i);
                            best_end = end;
                        }
                    },
                    None => {
                        best = Some(i);
                        best_end = end;
                    },
                }
            }
            i = i + 1;
        }
        proof {
            assert(schedule@.take(schedule@.len() as int) =~= schedule@);
        }
        best
    }

    /// The latest end among the activities that start before `t`, if any does.
    fn latest_end_before(schedule: &[ScheduledActivity], t: Timestamp) -> (r: Option<i64>)
        requires
            schedule_in_range(schedule@),
        ensures
            match r {
                Some(e) => latest_end_started_before(schedule@, t.millis as int) == Some(e as int),
                None => latest_end_started_before(schedule@, t.millis as int).is_none(),
            },
    {
        let ghost tt = t.millis as int;
        let mut latest: Option<i64> = None;
        let mut i: usize = 0;
        while i < schedule.len()
            invariant
                i <= schedule@.len(),
                tt == t.millis,
                schedule_in_range(schedule@),
                match latest {
                    Some(e) => latest_end_started_before(schedule@.take(i as int), tt) == Some(e as int),
                    None => latest_end_started_before(schedule@.take(i as int), tt).is_none(),
                },
            decreases schedule.len() - i,
        {
            let a = schedule[i];
            proof {
                assert(activity_in_range(schedule@[i as int]));
                let next = schedule@.take(i as int + 1);
                assert(next.drop_last() =~= schedule@.take(i as int));
                assert(next[i as int] == schedule@[i as int]);
            }
            if a.start_time.millis < t.millis {
                let end = a.start_time.millis + a.duration.millis;
                match latest {
                    Some(e) => {
                        if e < end {
                            latest = Some(end);
                        }
                    },
                    None => {
                        latest = Some(end);
                    },
                }
            }
            i = i + 1;
        }
        proof {
            assert(schedule@.take(schedule@.len() as int) =~= schedule@);
        }
        latest
    }

    /// The location and building of the activity that ends latest by
    /// `before_time`; the last of several that end at that instant.
    pub fn get_last_activity_location(
        &self,
        schedule: &[ScheduledActivity],
        before_time: Timestamp,
        registry: &LocationRegistry,
    ) -> (r: Option<(LocationId, BuildingId)>)
        requires
            schedule_in_range(schedule@),
        ensures
            r == last_activity_location(registry.spec_locations(), schedule@, before_time.millis as int),
    {
        match Self::latest_ending_index(schedule, before_time) {
            Some(k) => self.get_room_location(schedule[k].target_room, registry),
            None => None,
        }
    }

    /// The end of the last activity before `t`, or `t` when none starts before it.
    fn last_end_or(schedule: &[ScheduledActivity], t: Timestamp) -> (e: Timestamp)
        requires
            schedule_in_range(schedule@),
            in_range(t.millis as int),
        ensures
            e.millis == last_end_before(schedule@, t.millis as int),
            in_range(e.millis as int),
    {
        proof {
            lemma_latest_end_in_range(schedule@, t.millis as int);
        }
        match Self::latest_end_before(schedule, t) {
            Some(end) => Timestamp { millis: end },
            None => t,
        }
    }

    /// The earliest time a meeting proposed at `proposed_time` at the
    /// user's primary location and building can start: the proposed time,
    /// or later when the last activity before it leaves too little time to
    /// travel there with the scheduling slack.
    pub fn calculate_earliest_meeting_time(
        &self,
        proposed_time: Timestamp,
        current_schedule: &[ScheduledActivity],
        primary_location: LocationId,
        primary_building: BuildingId,
        registry: &LocationRegistry,
    ) -> (r: Option<Timestamp>)
        requires
            self.wf(),
            schedule_in_range(current_schedule@),
            in_range(proposed_time.millis as int),
        ensures
            r matches Some(t) && t.millis == earliest_meeting_time(
                registry.spec_locations(),
                current_schedule@,
                proposed_time.millis as int,
                primary_location,
                primary_building,
            ),
    {
        match self.get_last_activity_location(current_schedule, proposed_time, registry) {
            Some((last_location, last_building)) => {
                let travel_time = self.calculate_minimum_travel_time(
                    last_location,
                    primary_location,
                    Some(last_building),
                    Some(primary_building),
                );
                let last_activity_end = Self::last_end_or(current_schedule, proposed_time);
                let earliest_time = last_activity_end.plus(travel_time).plus(
                    self.travel_time_constants.scheduling_buffer_time,
                );
                if proposed_time.millis < earliest_time.millis {
                    Some(earliest_time)
                } else {
                    Some(proposed_time)
                }
            },
            None => Some(proposed_time),
        }
    }

    /// Whether a meeting at `meeting_time` in `meeting_location` (and the
    /// user's primary building) leaves enough time after the last activity
    /// to travel there with the scheduling slack; true when there is no
    /// earlier activity.
    pub fn validate_travel_time_for_meeting(
        &self,
        primary_building: BuildingId,
        current_schedule: &[ScheduledActivity],
        meeting_time: Timestamp,
        meeting_location: LocationId,
        registry: &LocationRegistry,
    ) -> (ok: bool)
        requires
            self.wf(),
            schedule_in_range(current_schedule@),
            in_range(meeting_time.millis as int),
        ensures
            ok == meeting_travel_ok(
                registry.spec_locations(),
                current_schedule@,
                meeting_time.millis as int,
                meeting_location,
                primary_building,
            ),
    {
        match self.get_last_activity_location(current_schedule, meeting_time, registry) {
            Some((last_location, last_building)) => {
                let travel_time = self.calculate_minimum_travel_time(
                    last_location,
                    meeting_location,
                    Some(last_building),
                    Some(primary_building),
                );
                let last_activity_end = Self::last_end_or(current_schedule, meeting_time);
                let available_time = meeting_time.since(last_activity_end);
                let required_time = travel_time.plus(self.travel_time_constants.scheduling_buffer_time);
                available_time.millis >= required_time.millis
            },
            None => true,
        }
    }

    /// Whether a meeting at `meeting_time` at another location leaves
    /// enough time after the last activity for cross-location travel with
    /// the scheduling slack; true when there is no earlier activity.
    pub fn validate_travel_time_for_cross_location_meeting(
        &self,
        current_schedule: &[ScheduledActivity],
        meeting_time: Timestamp,
        registry: &LocationRegistry,
    ) -> (ok: bool)
        requires
            self.wf(),
            schedule_in_range(current_schedule@),
            in_range(meeting_time.millis as int),
        ensures
            ok == cross_location_meeting_travel_ok(
                registry.spec_locations(),
                current_schedule@,
                meeting_time.millis as int,
            ),
    {
        match self.get_last_activity_location(current_schedule, meeting_time, registry) {
            Some(_) => {
                let travel_time = self.travel_time_constants.cross_location_travel_time;
                let last_activity_end = Self::last_end_or(current_schedule, meeting_time);
                let available_time = meeting_time.since(last_activity_end);
                let required_time = travel_time.plus(self.travel_time_constants.scheduling_buffer_time);
                available_time.millis >= required_time.millis
            },
            None => true,
        }
    }

    /// The kind of room an activity of the kind is preferably held in.
    pub fn required_room_type(activity_type: ActivityType) -> (k: RoomType)
        ensures
            k == preferred_room_type(activity_type),
    {
        match activity_type {
            ActivityType::Meeting => RoomType::MeetingRoom,
            ActivityType::Lunch => RoomType::Kitchen,
            ActivityType::Bathroom => RoomType::Bathroom,
            ActivityType::Collaboration => RoomType::Workspace,
            _ => RoomType::Workspace,
        }
    }

    /// Whether an activity of the kind may start at the proposed time.
    pub fn is_reasonable_activity_time(&self, activity_type: ActivityType, proposed_time: Timestamp) -> (b: bool)
        ensures
            b == reasonable_hour(activity_type, proposed_time.spec_hour()),
    {
        let hour = proposed_time.hour();
        match activity_type {
            ActivityType::Meeting => hour >= 9 && hour < 17,
            ActivityType::Lunch => hour >= 11 && hour < 15,
            ActivityType::Bathroom => hour >= 7 && hour < 19,
            ActivityType::Collaboration => hour >= 9 && hour < 17,
            ActivityType::Departure => hour >= 16 && hour < 20,
            _ => hour >= 7 && hour < 19,
        }
    }

    /// The first room of the building that fits.
    fn fitting_room_in(
        building: &Building,
        location_id: LocationId,
        kind: Option<RoomType>,
        permissions: &PermissionSet,
    ) -> (r: Option<RoomId>)
        ensures
            r == fitting_room_in_building(*building, location_id, kind, *permissions),
    {
        let ghost p = |r: Room| room_fits(r, building.id, location_id, kind, *permissions);
        let mut i: usize = 0;
        while i < building.rooms.len()
            invariant
                i <= building.rooms@.len(),
                p == (|r: Room| room_fits(r, building.id, location_id, kind, *permissions)),
                forall|j: int| 0 <= j < i ==> !p(#[trigger] building.rooms@[j]),
            decreases building.rooms.len() - i,
        {
            let room = &building.rooms[i];
            let kind_ok = match kind {
                Some(k) => room.room_type == k,
                None => true,
            };
            if kind_ok && permissions.can_access_room(room.id, building.id, location_id) {
                proof {
                    assert(p(building.rooms@[i as int]));
                    lemma_first_where_is(building.rooms@, p, i as int);
                }
                return Some(room.id);
            }
            assert(!p(building.rooms@[i as int]));
            i = i + 1;
        }
        proof {
            if any_where(building.rooms@, p) {
                let k = choose|k: int| 0 <= k < building.rooms@.len() && p(#[trigger] building.rooms@[k]);
                assert(!p(building.rooms@[k]));
            }
        }
        None
    }

    /// The first room that fits, building after building.
    fn fitting_room_among(
        buildings: &[Building],
        location_id: LocationId,
        kind: Option<RoomType>,
        permissions: &PermissionSet,
    ) -> (r: Option<RoomId>)
        ensures
            r == fitting_room(buildings@, location_id, kind, *permissions),
    {
        let mut i: usize = 0;
        assert(buildings@.subrange(0, buildings@.len() as int) =~= buildings@);
        while i < buildings.len()
            invariant
                i <= buildings@.len(),
                fitting_room(buildings@, location_id, kind, *permissions)
                    == fitting_room(buildings@.subrange(i as int, buildings@.len() as int), location_id, kind, *permissions),
            decreases buildings.len() - i,
        {
            let ghost rest = buildings@.subrange(i as int, buildings@.len() as int);
            proof {
                assert(rest[0] == buildings@[i as int]);
                assert(rest.subrange(1, rest.len() as int) =~= buildings@.subrange(i as int + 1, buildings@.len() as int));
            }
            match Self::fitting_room_in(&buildings[i], location_id, kind, permissions) {
                Some(r) => {
                    return Some(r);
                },
                None => {},
            }
            i = i + 1;
        }
        None
    }

    /// A room at the location for an activity of the kind: the first room
    /// of the preferred kind that the permissions open, building after
    /// building, else the first room they open.
    pub fn find_suitable_room_in_location(
        &self,
        location_id: LocationId,
        activity_type: ActivityType,
        permissions: &PermissionSet,
        registry: &LocationRegistry,
    ) -> (r: Option<RoomId>)
        ensures
            r == suitable_room_in_location(registry.spec_get_location(location_id), location_id, activity_type, *permissions),
    {
        match registry.get_location(location_id) {
            Some(location) => {
                let kind = Self::required_room_type(activity_type);
                match Self::fitting_room_among(location.buildings.as_slice(), location_id, Some(kind), permissions) {
                    Some(r) => Some(r),
                    None => Self::fitting_room_among(location.buildings.as_slice(), location_id, None, permissions),
                }
            },
            None => None,
        }
    }

    /// A room in the building for an activity of the kind: the first room
    /// of the preferred kind that the permissions open, else the first room
    /// they open.
    pub fn find_suitable_room_in_building(
        &self,
        location_id: LocationId,
        building_id: BuildingId,
        activity_type: ActivityType,
        permissions: &PermissionSet,
        registry: &LocationRegistry,
    ) -> (r: Option<RoomId>)
        ensures
            r == suitable_room_in_building(
                registry.spec_get_location(location_id),
                location_id,
                building_id,
                activity_type,
                *permissions,
            ),
    {
        match registry.get_location(location_id) {
            Some(location) => match location.get_building(building_id) {
                Some(building) => {
                    let kind = Self::required_room_type(activity_type);
                    match Self::fitting_room_in(building, location_id, Some(kind), permissions) {
                        Some(r) => Some(r),
                        None => Self::fitting_room_in(building, location_id, None, permissions),
                    }
                },
                None => None,
            },
            None => None,
        }
    }

    /// The error raised for a room found at no location.
    fn location_not_found_error(room: RoomId) -> (e: SimulationError)
        ensures
            location_not_found(e, room),
    {
        let mut msg = String::from_str("Cannot determine location for room ");
        let rid = room.to_display_string();
        msg.append(rid.as_str());
        SimulationError::behavior_engine_error(msg.as_str())
    }

    /// When an activity cannot start in time, whether a room near the last
    /// activity (at its location, else in its building) could take it.
    fn try_fallback_strategies(
        &self,
        activity: &ScheduledActivity,
        current_schedule: &[ScheduledActivity],
        permissions: &PermissionSet,
        registry: &LocationRegistry,
    ) -> (r: Option<ConflictResolution>)
        ensures
            r == fallback_resolution(*registry, *activity, current_schedule@, *permissions),
    {
        if current_schedule.len() > 0 {
            let last_activity = &current_schedule[current_schedule.len() - 1];
            match self.get_room_location(last_activity.target_room, registry) {
                Some((last_location, last_building)) => {
                    if self.find_suitable_room_in_location(
                        last_location,
                        activity.activity_type,
                        permissions,
                        registry,
                    ).is_some() {
                        return Some(ConflictResolution::NoConflict);
                    }
                    if self.find_suitable_room_in_building(
                        last_location,
                        last_building,
                        activity.activity_type,
                        permissions,
                        registry,
                    ).is_some() {
                        return Some(ConflictResolution::NoConflict);
                    }
                    None
                },
                None => None,
            }
        } else {
            None
        }
    }

    /// What to do with an activity that may leave too little time to
    /// travel from the last activity of the schedule so far.
    pub fn resolve_travel_time_conflict(
        &self,
        activity: &ScheduledActivity,
        current_schedule: &[ScheduledActivity],
        permissions: &PermissionSet,
        registry: &LocationRegistry,
    ) -> (r: Result<Option<ConflictResolution>, SimulationError>)
        requires
            self.wf(),
            activity_in_range(*activity),
            schedule_in_range(current_schedule@),
        ensures
            match travel_conflict(*registry, *activity, current_schedule@, *permissions) {
                Ok(c) => r == Ok::<Option<ConflictResolution>, SimulationError>(Some(c)),
                Err(room) => r matches Err(e) && location_not_found(e, room),
            },
    {
        proof { reveal(travel_conflict); }
        let activity_location = match self.get_room_location(activity.target_room, registry) {
            Some(found) => found,
            None => {
                return Err(Self::location_not_found_error(activity.target_room));
            },
        };
        if current_schedule.len() > 0 {
            let last_activity = &current_schedule[current_schedule.len() - 1];
            proof {
                assert(activity_in_range(current_schedule@[current_schedule@.len() - 1]));
            }
            let last_location = match self.get_room_location(last_activity.target_room, registry) {
                Some(found) => found,
                None => {
                    return Err(Self::location_not_found_error(last_activity.target_room));
                },
            };
            let required_travel_time = self.calculate_minimum_travel_time(
                last_location.0,
                activity_location.0,
                Some(last_location.1),
                Some(activity_location.1),
            );
            let last_end_time = last_activity.end_time();
            let available_time = activity.start_time.since(last_end_time);
            if available_time.millis < required_travel_time.millis {
                let required_start_time = last_end_time.plus(required_travel_time).plus(
                    self.travel_time_constants.scheduling_buffer_time,
                );
                if self.is_reasonable_activity_time(activity.activity_type, required_start_time) {
                    return Ok(Some(ConflictResolution::AdjustTime(required_start_time)));
                } else {
                    match self.try_fallback_strategies(activity, current_schedule, permissions, registry) {
                        Some(fallback) => {
                            return Ok(Some(fallback));
                        },
                        None => {
                            return Ok(Some(ConflictResolution::SkipActivity));
                        },
                    }
                }
            }
        }
        Ok(Some(ConflictResolution::NoConflict))
    }

    /// The room an activity keeps to once the user has travelled: when the
    /// schedule so far shows travel to another location and the room lies
    /// elsewhere, a suitable room at the destination if there is one.
    pub fn apply_location_persistence_constraint(
        &self,
        original_room_id: RoomId,
        activity_type: ActivityType,
        user_id: UserId,
        primary_location: LocationId,
        permissions: &PermissionSet,
        current_schedule: &[ScheduledActivity],
        registry: &LocationRegistry,
    ) -> (r: RoomId)
        ensures
            r == persistent_room(
                *registry,
                self.held_location(user_id),
                original_room_id,
                activity_type,
                current_schedule@,
                *permissions,
            ),
    {
        proof { reveal(persistent_room); }
        match self.has_traveled_cross_location_today(user_id, current_schedule, registry) {
            Some(destination_location) => {
                let constrained_location = self.constrain_activity_location(
                    primary_location,
                    Some(destination_location),
                );
                match self.get_room_location(original_room_id, registry) {
                    Some((original_location, _)) => {
                        if original_location != constrained_location {
                            match self.find_suitable_room_in_location(
                                constrained_location,
                                activity_type,
                                permissions,
                                registry,
                            ) {
                                Some(new_room) => new_room,
                                None => original_room_id,
                            }
                        } else {
                            original_room_id
                        }
                    },
                    None => original_room_id,
                }
            },
            None => original_room_id,
        }
    }

    /// One step of conflict resolution: the activity as it joins the
    /// resolved schedule, `None` when it is dropped.
    fn resolve_one(
        &self,
        activity: ScheduledActivity,
        resolved: &[ScheduledActivity],
        user_id: UserId,
        primary_location: LocationId,
        permissions: &PermissionSet,
        registry: &LocationRegistry,
    ) -> (r: Result<Option<ScheduledActivity>, SimulationError>)
        requires
            self.wf(),
            activity_in_range(activity),
            schedule_in_range(resolved@),
        ensures
            match resolve_step(*registry, self.held_location(user_id), *permissions, resolved@, activity) {
                Ok(x) => r == Ok::<Option<ScheduledActivity>, SimulationError>(x),
                Err(room) => r matches Err(e) && location_not_found(e, room),
            },
    {
        proof { reveal(resolve_step); }
        let resolution = match self.resolve_travel_time_conflict(&activity, resolved, permissions, registry) {
            Ok(c) => c,
            Err(e) => {
                return Err(e);
            },
        };
        let mut start_time = activity.start_time;
        match resolution {
            Some(ConflictResolution::AdjustTime(new_start_time)) => {
                start_time = new_start_time;
            },
            Some(ConflictResolution::SkipActivity) => {
                return Ok(None);
            },
            Some(ConflictResolution::NoConflict) => {},
            None => {},
        }
        let target_room = self.apply_location_persistence_constraint(
            activity.target_room,
            activity.activity_type,
            user_id,
            primary_location,
            permissions,
            resolved,
            registry,
        );
        if resolved.len() > 0 {
            let last_activity = resolved[resolved.len() - 1];
            proof {
                assert(activity_in_range(resolved@[resolved@.len() - 1]));
            }
            let last_end = last_activity.end_time();
            if start_time.millis < last_end.millis {
                start_time = last_end.plus(self.travel_time_constants.scheduling_buffer_time);
            }
        }
        let placed = ScheduledActivity {
            activity_type: activity.activity_type,
            target_room,
            start_time,
            duration: activity.duration,
        };
        Ok(Some(placed))
    }

    /// The schedule with its conflicts resolved, activity after activity:
    /// each is moved later when the one before leaves too little time to
    /// travel to it (or dropped when that would be an unreasonable hour and
    /// no room near the last activity could take it), held to the
    /// location the user travelled to, and pushed after the end of the one
    /// before plus the slack when they would overlap. A room found at no
    /// location is an error.
    #[verifier::spinoff_prover]
    #[verifier::rlimit(40)]
    pub fn resolve_schedule_conflicts(
        &mut self,
        schedule: Vec<ScheduledActivity>,
        user_id: UserId,
        primary_location: LocationId,
        permissions: &PermissionSet,
        registry: &LocationRegistry,
    ) -> (r: Result<Vec<ScheduledActivity>, SimulationError>)
        requires
            old(self).wf(),
            resolution_in_range(*registry, old(self).held_location(user_id), *permissions, schedule@),
        ensures
            *final(self) == *old(self),
            match resolve_all(*registry, old(self).held_location(user_id), *permissions, schedule@) {
                Ok(done) => r matches Ok(v) && v@ == done,
                Err(room) => r matches Err(e) && location_not_found(e, room),
            },
            r matches Ok(v) ==> without_overlap(v@),
            durations_nonnegative(schedule@) ==> (r matches Ok(v) ==> durations_nonnegative(v@)),
            schedule@.len() > 0 ==> (r matches Ok(v) ==> v@.len() > 0),
    {
        let ghost held = self.held_location(user_id);
        proof {
            if schedule@.len() > 0 {
                lemma_resolved_nonempty(*registry, held, *permissions, schedule@);
            }
            law_resolved_schedule_has_no_overlap(*registry, held, *permissions, schedule@);
            if durations_nonnegative(schedule@) {
                lemma_resolved_durations(*registry, held, *permissions, schedule@);
            }
        }
        let mut resolved: Vec<ScheduledActivity> = Vec::new();
        let mut i: usize = 0;
        assert(schedule@.take(0) =~= Seq::<ScheduledActivity>::empty());
        while i < schedule.len()
            invariant
                i <= schedule@.len(),
                self.wf(),
                held == self.held_location(user_id),
                resolution_in_range(*registry, held, *permissions, schedule@),
                resolve_all(*registry, held, *permissions, schedule@.take(i as int)) == Ok::<Seq<ScheduledActivity>, RoomId>(resolved@),
                schedule_in_range(resolved@),
            decreases schedule.len() - i,
        {
            let activity = schedule[i];
            proof {
                assert(activity_in_range(schedule@[i as int]));
                let next = schedule@.take(i as int + 1);
                assert(next.drop_last() =~= schedule@.take(i as int));
                assert(next.last() == schedule@[i as int]);
            }
            match self.resolve_one(activity, resolved.as_slice(), user_id, primary_location, permissions, registry) {
                Ok(Some(placed)) => {
                    resolved.push(placed);
                },
                Ok(None) => {},
                Err(e) => {
                    proof {
                        let room = resolve_step(*registry, held, *permissions, resolved@, activity)->Err_0;
                        lemma_resolve_all_error_persists(*registry, held, *permissions, schedule@, i as int + 1, room);
                    }
                    return Err(e);
                },
            }
            i = i + 1;
        }
        proof {
            assert(schedule@.take(schedule@.len() as int) =~= schedule@);
        }
        Ok(resolved)
    }

    /// The location and building of the room.
    pub fn get_room_location(&self, room_id: RoomId, registry: &LocationRegistry) -> (r: Option<(LocationId, BuildingId)>)
        ensures
            r == room_location(registry.spec_locations(), room_id),
    {
        let locations = registry.get_all_locations();
        let ghost p = location_holds(room_id);
        let mut i: usize = 0;
        while i < locations.len()
            invariant
                i <= locations@.len(),
                locations@ == registry.spec_locations(),
                p == location_holds(room_id),
                forall|j: int| 0 <= j < i ==> !p(#[trigger] locations@[j]),
            decreases locations.len() - i,
        {
            let location = &locations[i];
            match location.find_building_for_room(room_id) {
                Some(building) => {
                    proof {
                        assert(p(locations@[i as int]));
                        lemma_first_where_is(locations@, p, i as int);
                    }
                    return Some((location.id, building.id));
                },
                None => {},
            }
            i = i + 1;
        }
        proof {
            if any_where(locations@, p) {
                let k = choose|k: int| 0 <= k < locations@.len() && p(#[trigger] locations@[k]);
                assert(!p(locations@[k]));
            }
        }
        None
    }

    /// The location the user is held to today, if held.
    pub fn tracked_location(&self, user_id: UserId) -> (r: Option<LocationId>)
        ensures
            r == self.held_location(user_id),
    {
        match self.user_daily_locations.get(&user_id.value) {
            Some(l) => Some(*l),
            None => None,
        }
    }

    /// Hold the user to the location they are at now, for the rest of the
    /// day; a user who travels is held to the destination.
    pub fn track_user_daily_location(&mut self, user_id: UserId, current_location: LocationId) -> (r: LocationId)
        ensures
            r == current_location,
            final(self).daily_locations() == old(self).daily_locations().insert(user_id.value, current_location),
            final(self).wf() == old(self).wf(),
    {
        match self.user_daily_locations.get(&user_id.value) {
            Some(existing) => {
                if *existing != current_location {
                    self.user_daily_locations.insert(user_id.value, current_location);
                } else {
                    assert(self.user_daily_locations@.insert(user_id.value, current_location) =~= self.user_daily_locations@);
                }
            },
            None => {
                self.user_daily_locations.insert(user_id.value, current_location);
            },
        }
        current_location
    }

    /// The location and building of the room (the same lookup as
    /// `get_room_location`).
    pub fn get_room_location_info(&self, room_id: RoomId, registry: &LocationRegistry) -> (r: Option<(LocationId, BuildingId)>)
        ensures
            r == room_location(registry.spec_locations(), room_id),
    {
        self.get_room_location(room_id, registry)
    }

    /// The location of the room, if any.
    fn room_location_id_of(&self, room_id: RoomId, registry: &LocationRegistry) -> (r: Option<LocationId>)
        ensures
            r == room_location_id(registry.spec_locations(), room_id),
    {
        match self.get_room_location(room_id, registry) {
            Some((l, _b)) => Some(l),
            None => None,
        }
    }

    /// Where the user travelled to today, if anywhere: the held location
    /// when it differs from that of the first scheduled room, else the first
    /// change of location along the schedule's rooms.
    pub fn has_traveled_cross_location_today(
        &self,
        user_id: UserId,
        schedule: &[ScheduledActivity],
        registry: &LocationRegistry,
    ) -> (r: Option<LocationId>)
        ensures
            r == travelled_to(self.held_location(user_id), registry.spec_locations(), schedule_rooms(schedule@)),
    {
        let ghost locs = registry.spec_locations();
        let ghost rooms = schedule_rooms(schedule@);
        assert(rooms.len() == schedule@.len());
        let ghost held_now = self.held_location(user_id);
        if let Some(held) = self.tracked_location(user_id) {
            if schedule.len() > 0 {
                if let Some(first_location) = self.room_location_id_of(schedule[0].target_room, registry) {
                    if held != first_location {
                        return Some(held);
                    }
                }
            }
        }
        let mut previous: Option<LocationId> = None;
        let mut i: usize = 0;
        assert(rooms.subrange(0, rooms.len() as int) =~= rooms);
        while i < schedule.len()
            invariant
                i <= rooms.len(),
                rooms == schedule_rooms(schedule@),
                rooms.len() == schedule@.len(),
                locs == registry.spec_locations(),
                held_now == self.held_location(user_id),
                travelled_to(held_now, locs, rooms) == first_location_change(locs, rooms, None),
                first_location_change(locs, rooms, None)
                    == first_location_change(locs, rooms.subrange(i as int, rooms.len() as int), previous),
            decreases schedule.len() - i,
        {
            let ghost rest = rooms.subrange(i as int, rooms.len() as int);
            proof {
                assert(rest[0] == rooms[i as int]);
                assert(rooms[i as int] == schedule@[i as int].target_room);
                assert(rest.subrange(1, rest.len() as int) =~= rooms.subrange(i as int + 1, rooms.len() as int));
            }
            match self.room_location_id_of(schedule[i].target_room, registry) {
                Some(here) => {
                    match previous {
                        Some(p) => if p != here {
                            assert(first_location_change(locs, rest, previous) == Some(here));
                            return Some(here);
                        },
                        None => {},
                    }
                    previous = Some(here);
                },
                None => {},
            }
            i = i + 1;
        }
        None
    }

    /// The location an activity takes place at: the one the user is held
    /// to today, if any, else the preferred one.
    pub fn constrain_activity_location(
        &self,
        preferred_location: LocationId,
        current_day_location: Option<LocationId>,
    ) -> (r: LocationId)
        ensures
            r == (match current_day_location {
                Some(c) => c,
                None => preferred_location,
            }),
    {
        match current_day_location {
            Some(constrained_location) => {
                if constrained_location != preferred_location {
                    constrained_location
                } else {
                    preferred_location
                }
            },
            None => preferred_location,
        }
    }

    /// Where the user's departure takes place: where they travelled to
    /// today, if anywhere, else their primary location.
    pub fn get_departure_location(
        &self,
        user_id: UserId,
        primary_location: LocationId,
        schedule: &[ScheduledActivity],
        registry: &LocationRegistry,
    ) -> (r: LocationId)
        ensures
            r == departure_location_for(
                self.held_location(user_id),
                registry.spec_locations(),
                schedule_rooms(schedule@),
                primary_location,
            ),
    {
        match self.has_traveled_cross_location_today(user_id, schedule, registry) {
            Some(destination_location) => destination_location,
            None => primary_location,
        }
    }

    /// The room a user's departure takes place in. Without travel today,
    /// or when no building at the destination can take it, the user's
    /// primary workspace; otherwise a room drawn at random from the first
    /// building at the destination that the permissions open whole and that
    /// has a workspace (drawn among those) or a meeting room.
    pub fn select_departure_room(
        &mut self,
        user_id: UserId,
        primary_location: LocationId,
        primary_workspace: RoomId,
        permissions: &PermissionSet,
        schedule: &[ScheduledActivity],
        registry: &LocationRegistry,
    ) -> (r: RoomId)
        ensures
            final(self).wf() == old(self).wf(),
            final(self).daily_locations() == old(self).daily_locations(),
            departure_room_fits(
                *registry,
                departure_location_for(
                    old(self).held_location(user_id),
                    registry.spec_locations(),
                    schedule_rooms(schedule@),
                    primary_location,
                ),
                primary_location,
                primary_workspace,
                *permissions,
                r,
            ),
    {
        let departure_location = self.get_departure_location(user_id, primary_location, schedule, registry);
        if departure_location != primary_location {
            match registry.get_location(departure_location) {
                Some(location) => {
                    let ghost ok = departure_building_ok(departure_location, *permissions);
                    let mut i: usize = 0;
                    while i < location.buildings.len()
                        invariant
                            i <= location.buildings@.len(),
                            ok == departure_building_ok(departure_location, *permissions),
                            forall|j: int| 0 <= j < i ==> !ok(#[trigger] location.buildings@[j]),
                            self.wf() == old(self).wf(),
                            self.daily_locations() == old(self).daily_locations(),
                            departure_location != primary_location,
                            departure_location == departure_location_for(
                                old(self).held_location(user_id),
                                registry.spec_locations(),
                                schedule_rooms(schedule@),
                                primary_location,
                            ),
                            registry.spec_get_location(departure_location) == Some(*location),
                        decreases location.buildings.len() - i,
                    {
                        let building = &location.buildings[i];
                        let workspaces = building.get_rooms_by_type(RoomType::Workspace);
                        let allowed = permissions.can_access_building(building.id, departure_location);
                        proof {
                            assert(workspaces@.len() == building.rooms@.filter(room_type_is(RoomType::Workspace)).len());
                        }
                        if workspaces.len() > 0 && allowed {
                            let k = gen_index(&mut self.rng, workspaces.len());
                            proof {
                                assert(ok(location.buildings@[i as int]));
                                lemma_first_where_is(location.buildings@, ok, i as int);
                                assert(workspaces@.map_values(|r: &Room| *r)[k as int] == *workspaces@[k as int]);
                                let b = location.buildings@[i as int];
                                assert(departure_pool(b) == b.rooms@.filter(room_type_is(RoomType::Workspace)));
                                assert(departure_pool(b)[k as int].id == workspaces@[k as int].id);
                            }
                            return workspaces[k].id;
                        }
                        let meeting_rooms = building.get_rooms_by_type(RoomType::MeetingRoom);
                        proof {
                            assert(meeting_rooms@.len() == building.rooms@.filter(room_type_is(RoomType::MeetingRoom)).len());
                        }
                        if meeting_rooms.len() > 0 && allowed {
                            let k = gen_index(&mut self.rng, meeting_rooms.len());
                            proof {
                                assert(ok(location.buildings@[i as int]));
                                lemma_first_where_is(location.buildings@, ok, i as int);
                                assert(meeting_rooms@.map_values(|r: &Room| *r)[k as int] == *meeting_rooms@[k as int]);
                                let b = location.buildings@[i as int];
                                assert(departure_pool(b) == b.rooms@.filter(room_type_is(RoomType::MeetingRoom)));
                                assert(departure_pool(b)[k as int].id == meeting_rooms@[k as int].id);
                            }
                            return meeting_rooms[k].id;
                        }
                        assert(!ok(location.buildings@[i as int]));
                        i = i + 1;
                    }
                    proof {
                        if any_where(location.buildings@, ok) {
                            let k = choose|k: int| 0 <= k < location.buildings@.len() && ok(#[trigger] location.buildings@[k]);
                            assert(!ok(location.buildings@[k]));
                        }
                    }
                },
                None => {},
            }
        }
        primary_workspace
    }

    /// The identifiers of the rooms of the kind that the permissions open.
    fn open_room_ids(
        rooms: &Vec<Room>,
        building_id: BuildingId,
        location_id: LocationId,
        kind: RoomType,
        permissions: &PermissionSet,
    ) -> (ids: Vec<RoomId>)
        ensures
            ids@ == open_rooms(rooms@, building_id, location_id, kind, *permissions).map_values(|r: Room| r.id),
    {
        let ghost pred = open_room_pred(building_id, location_id, kind, *permissions);
        let mut ids: Vec<RoomId> = Vec::new();
        let mut i: usize = 0;
        while i < rooms.len()
            invariant
                i <= rooms@.len(),
                pred == open_room_pred(building_id, location_id, kind, *permissions),
                ids@ == rooms@.take(i as int).filter(pred).map_values(|r: Room| r.id),
            decreases rooms.len() - i,
        {
            let room = &rooms[i];
            proof {
                let s = rooms@;
                assert(s.take(i as int + 1) =~= s.take(i as int).push(*room));
                s.take(i as int).lemma_filter_push(*room, pred);
            }
            if room.room_type == kind && permissions.can_access_room(room.id, building_id, location_id) {
                let ghost before = ids@;
                ids.push(room.id);
                assert(ids@ =~= rooms@.take(i as int + 1).filter(pred).map_values(|r: Room| r.id));
            } else {
                assert(ids@ =~= rooms@.take(i as int + 1).filter(pred).map_values(|r: Room| r.id));
            }
            i = i + 1;
        }
        assert(rooms@.take(rooms@.len() as int) =~= rooms@);
        ids
    }

    /// One of the rooms, drawn at random.
    fn draw_room(&mut self, ids: &Vec<RoomId>, Ghost(pool): Ghost<Seq<Room>>) -> (r: RoomId)
        requires
            ids@.len() > 0,
            ids@ == pool.map_values(|x: Room| x.id),
        ensures
            drawn_from(r, pool),
            final(self).wf() == old(self).wf(),
            final(self).daily_locations() == old(self).daily_locations(),
    {
        let k = gen_index(&mut self.rng, ids.len());
        assert(pool[k as int].id == ids@[k as int]);
        ids[k]
    }

    /// A room of the kind drawn near the user: among the open ones of the
    /// primary building, else of the first other building of the location
    /// open whole to the user that has one.
    fn pick_nearby(
        &mut self,
        location: &Location,
        primary_building: BuildingId,
        kind: RoomType,
        permissions: &PermissionSet,
    ) -> (r: Option<RoomId>)
        ensures
            nearby_pick_ok(Some(*location), primary_building, kind, *permissions, r),
            final(self).wf() == old(self).wf(),
            final(self).daily_locations() == old(self).daily_locations(),
    {
        match location.get_building(primary_building) {
            Some(building) => {
                let ids = Self::open_room_ids(&building.rooms, building.id, location.id, kind, permissions);
                if ids.len() > 0 {
                    let r = self.draw_room(&ids, Ghost(open_rooms(building.rooms@, building.id, location.id, kind, *permissions)));
                    return Some(r);
                }
            },
            None => {},
        }
        let ghost ok = other_building_ok(location.id, primary_building, kind, *permissions);
        let mut i: usize = 0;
        while i < location.buildings.len()
            invariant
                i <= location.buildings@.len(),
                ok == other_building_ok(location.id, primary_building, kind, *permissions),
                primary_pool(*location, primary_building, kind, *permissions).len() == 0,
                forall|j: int| 0 <= j < i ==> !ok(#[trigger] location.buildings@[j]),
                self.wf() == old(self).wf(),
                self.daily_locations() == old(self).daily_locations(),
            decreases location.buildings.len() - i,
        {
            let building = &location.buildings[i];
            if building.id != primary_building && permissions.can_access_building(building.id, location.id) {
                let ids = Self::open_room_ids(&building.rooms, building.id, location.id, kind, permissions);
                if ids.len() > 0 {
                    proof {
                        assert(ok(location.buildings@[i as int]));
                        lemma_first_where_is(location.buildings@, ok, i as int);
                    }
                    let r = self.draw_room(&ids, Ghost(open_rooms(building.rooms@, building.id, location.id, kind, *permissions)));
                    return Some(r);
                }
            }
            assert(!ok(location.buildings@[i as int]));
            i = i + 1;
        }
        proof {
            if any_where(location.buildings@, ok) {
                let k = choose|k: int| 0 <= k < location.buildings@.len() && ok(#[trigger] location.buildings@[k]);
                assert(!ok(location.buildings@[k]));
            }
        }
        None
    }

    /// A bathroom for the user: one the user may enter drawn in the primary
    /// building, else in the first other building of the primary location
    /// open whole to the user that has one.
    pub fn select_bathroom_room(
        &mut self,
        primary_location: LocationId,
        primary_building: BuildingId,
        permissions: &PermissionSet,
        registry: &LocationRegistry,
    ) -> (r: Option<RoomId>)
        ensures
            nearby_pick_ok(registry.spec_get_location(primary_location), primary_building, RoomType::Bathroom, *permissions, r),
            final(self).wf() == old(self).wf(),
            final(self).daily_locations() == old(self).daily_locations(),
    {
        match registry.get_location(primary_location) {
            Some(location) => self.pick_nearby(location, primary_building, RoomType::Bathroom, permissions),
            None => None,
        }
    }

    /// A lunch room for the user: a cafeteria drawn near the user when
    /// there is one, else a kitchen.
    pub fn select_lunch_room(
        &mut self,
        primary_location: LocationId,
        primary_building: BuildingId,
        permissions: &PermissionSet,
        registry: &LocationRegistry,
    ) -> (r: Option<RoomId>)
        ensures
            if can_pick_nearby(registry.spec_get_location(primary_location), primary_building, RoomType::Cafeteria, *permissions) {
                nearby_pick_ok(registry.spec_get_location(primary_location), primary_building, RoomType::Cafeteria, *permissions, r)
            } else {
                nearby_pick_ok(registry.spec_get_location(primary_location), primary_building, RoomType::Kitchen, *permissions, r)
            },
            final(self).wf() == old(self).wf(),
            final(self).daily_locations() == old(self).daily_locations(),
    {
        match registry.get_location(primary_location) {
            Some(location) => match self.pick_nearby(location, primary_building, RoomType::Cafeteria, permissions) {
                Some(r) => Some(r),
                None => self.pick_nearby(location, primary_building, RoomType::Kitchen, permissions),
            },
            None => None,
        }
    }

    /// A room for collaboration in the primary building: a workspace seven
    /// times in ten, else a meeting room, drawn among those the user may
    /// enter; none when the building has no such room.
    pub fn select_collaboration_room(
        &mut self,
        primary_location: LocationId,
        primary_building: BuildingId,
        permissions: &PermissionSet,
        registry: &LocationRegistry,
    ) -> (r: Option<RoomId>)
        ensures
            primary_pick_ok(registry.spec_get_location(primary_location), primary_building, RoomType::Workspace, *permissions, r)
                || primary_pick_ok(registry.spec_get_location(primary_location), primary_building, RoomType::MeetingRoom, *permissions, r),
            final(self).wf() == old(self).wf(),
            final(self).daily_locations() == old(self).daily_locations(),
    {
        let room_type = if gen_index(&mut self.rng, 10) < 7 { RoomType::Workspace } else { RoomType::MeetingRoom };
        match registry.get_location(primary_location) {
            Some(location) => match location.get_building(primary_building) {
                Some(building) => {
                    let ids = Self::open_room_ids(&building.rooms, building.id, location.id, room_type, permissions);
                    if ids.len() > 0 {
                        let r = self.draw_room(&ids, Ghost(open_rooms(building.rooms@, building.id, location.id, room_type, *permissions)));
                        Some(r)
                    } else {
                        None
                    }
                },
                None => None,
            },
            None => None,
        }
    }

    /// A meeting room in the building, drawn among those the user may enter.
    pub fn select_meeting_room_in_building_with_permissions(
        &mut self,
        building_id: BuildingId,
        permissions: &PermissionSet,
        registry: &LocationRegistry,
    ) -> (r: Option<RoomId>)
        ensures
            building_meeting_pick_ok(*registry, building_id, *permissions, r),
            final(self).wf() == old(self).wf(),
            final(self).daily_locations() == old(self).daily_locations(),
    {
        match registry.get_building(building_id) {
            Some(building) => match registry.get_location_for_building(building_id) {
                Some(location) => {
                    let ids = Self::open_room_ids(&building.rooms, building_id, location.id, RoomType::MeetingRoom, permissions);
                    if ids.len() > 0 {
                        let r = self.draw_room(&ids, Ghost(open_rooms(building.rooms@, building_id, location.id, RoomType::MeetingRoom, *permissions)));
                        Some(r)
                    } else {
                        None
                    }
                },
                None => None,
            },
            None => None,
        }
    }

    /// A meeting room at the location: in a building drawn among those the
    /// user may enter whole, leaving out the excluded one.
    pub fn select_meeting_room_in_location_with_permissions(
        &mut self,
        location_id: LocationId,
        exclude_building: Option<BuildingId>,
        permissions: &PermissionSet,
        registry: &LocationRegistry,
    ) -> (r: Option<RoomId>)
        ensures
            location_meeting_pick_ok(*registry, location_id, exclude_building, *permissions, r),
            final(self).wf() == old(self).wf(),
            final(self).daily_locations() == old(self).daily_locations(),
    {
        match registry.get_location(location_id) {
            Some(location) => {
                let ghost pred = meeting_building_ok(location_id, exclude_building, *permissions);
                let mut available: Vec<BuildingId> = Vec::new();
                let mut i: usize = 0;
                while i < location.buildings.len()
                    invariant
                        i <= location.buildings@.len(),
                        pred == meeting_building_ok(location_id, exclude_building, *permissions),
                        available@ == location.buildings@.take(i as int).filter(pred).map_values(|b: Building| b.id),
                    decreases location.buildings.len() - i,
                {
                    let building = &location.buildings[i];
                    proof {
                        let s = location.buildings@;
                        assert(s.take(i as int + 1) =~= s.take(i as int).push(*building));
                        s.take(i as int).lemma_filter_push(*building, pred);
                    }
                    let excluded = match exclude_building {
                        Some(e) => e == building.id,
                        None => false,
                    };
                    if !excluded && permissions.can_access_building(building.id, location_id) {
                        available.push(building.id);
                    }
                    assert(available@ =~= location.buildings@.take(i as int + 1).filter(pred).map_values(|b: Building| b.id));
                    i = i + 1;
                }
                assert(location.buildings@.take(location.buildings@.len() as int) =~= location.buildings@);
                if available.len() > 0 {
                    let k = gen_index(&mut self.rng, available.len());
                    let r = self.select_meeting_room_in_building_with_permissions(available[k], permissions, registry);
                    proof {
                        let pool = location.buildings@.filter(pred);
                        assert(pool[k as int].id == available@[k as int]);
                    }
                    r
                } else {
                    None
                }
            },
            None => None,
        }
    }

    /// A meeting room at another location: a location drawn among those
    /// the user may enter whole, other than the primary one, to which the
    /// user is then held for the day; none when there is no such location.
    pub fn select_meeting_room_in_different_location_with_permissions(
        &mut self,
        user_id: UserId,
        primary_location: LocationId,
        permissions: &PermissionSet,
        registry: &LocationRegistry,
    ) -> (r: Option<RoomId>)
        ensures
            final(self).wf() == old(self).wf(),
            ({
                let available = registry.spec_locations().filter(remote_location_ok(primary_location, *permissions));
                if available.len() > 0 {
                    exists|k: int| 0 <= k < available.len()
                        && final(self).daily_locations() == old(self).daily_locations().insert(user_id.value, #[trigger] available[k].id)
                        && location_meeting_pick_ok(*registry, available[k].id, None, *permissions, r)
                } else {
                    &&& r.is_none()
                    &&& final(self).daily_locations() == old(self).daily_locations()
                }
            }),
    {
        let locations = registry.get_all_locations();
        let ghost pred = remote_location_ok(primary_location, *permissions);
        let mut available: Vec<LocationId> = Vec::new();
        let mut i: usize = 0;
        while i < locations.len()
            invariant
                i <= locations@.len(),
                locations@ == registry.spec_locations(),
                pred == remote_location_ok(primary_location, *permissions),
                available@ == locations@.take(i as int).filter(pred).map_values(|l: Location| l.id),
            decreases locations.len() - i,
        {
            let location = &locations[i];
            proof {
                let s = locations@;
                assert(s.take(i as int + 1) =~= s.take(i as int).push(*location));
                s.take(i as int).lemma_filter_push(*location, pred);
            }
            if location.id != primary_location && permissions.can_access_location(location.id) {
                available.push(location.id);
            }
            assert(available@ =~= locations@.take(i as int + 1).filter(pred).map_values(|l: Location| l.id));
            i = i + 1;
        }
        assert(locations@.take(locations@.len() as int) =~= locations@);
        if available.len() > 0 {
            let k = gen_index(&mut self.rng, available.len());
            let chosen = available[k];
            proof {
                let pool = registry.spec_locations().filter(pred);
                assert(pool[k as int].id == available@[k as int]);
            }
            self.track_user_daily_location(user_id, chosen);
            self.select_meeting_room_in_location_with_permissions(chosen, None, permissions, registry)
        } else {
            None
        }
    }

    /// The rooms a night-shift user may enter in the building of their
    /// primary location, in an order drawn at random.
    pub fn get_accessible_rooms_for_night_shift(
        &mut self,
        primary_location: LocationId,
        building_id: BuildingId,
        permissions: &PermissionSet,
        registry: &LocationRegistry,
    ) -> (rooms: Vec<RoomId>)
        ensures
            rooms@.to_multiset() == night_shift_rooms(*registry, primary_location, building_id, *permissions).to_multiset(),
            final(self).wf() == old(self).wf(),
            final(self).daily_locations() == old(self).daily_locations(),
    {
        let mut accessible_rooms: Vec<RoomId> = Vec::new();
        match registry.get_location(primary_location) {
            Some(location) => match location.get_building(building_id) {
                Some(building) => {
                    let ghost pred = |r: Room| permissions.spec_can_access_room(r.id, building_id, primary_location);
                    let mut i: usize = 0;
                    while i < building.rooms.len()
                        invariant
                            i <= building.rooms@.len(),
                            pred == (|r: Room| permissions.spec_can_access_room(r.id, building_id, primary_location)),
                            accessible_rooms@ == building.rooms@.take(i as int).filter(pred).map_values(|r: Room| r.id),
                        decreases building.rooms.len() - i,
                    {
                        let room = &building.rooms[i];
                        proof {
                            let s = building.rooms@;
                            assert(s.take(i as int + 1) =~= s.take(i as int).push(*room));
                            s.take(i as int).lemma_filter_push(*room, pred);
                        }
                        if permissions.can_access_room(room.id, building_id, primary_location) {
                            accessible_rooms.push(room.id);
                        }
                        assert(accessible_rooms@ =~= building.rooms@.take(i as int + 1).filter(pred).map_values(|r: Room| r.id));
                        i = i + 1;
                    }
                    assert(building.rooms@.take(building.rooms@.len() as int) =~= building.rooms@);
                },
                None => {},
            },
            None => {},
        }
        shuffle_room_ids(&mut self.rng, &mut accessible_rooms);
        accessible_rooms
    }

    /// A night-shift break room in the building of the primary location:
    /// the first bathroom the user may enter, else the first kitchen.
    pub fn select_break_room_for_night_shift(
        &self,
        primary_location: LocationId,
        building_id: BuildingId,
        permissions: &PermissionSet,
        registry: &LocationRegistry,
    ) -> (r: Option<RoomId>)
        ensures
            r == night_shift_break_room(*registry, primary_location, building_id, *permissions),
    {
        match registry.get_location(primary_location) {
            Some(location) => match location.get_building(building_id) {
                Some(building) => match Self::first_open_room(building, building_id, primary_location, RoomType::Bathroom, permissions) {
                    Some(r) => Some(r),
                    None => Self::first_open_room(building, building_id, primary_location, RoomType::Kitchen, permissions),
                },
                None => None,
            },
            None => None,
        }
    }

    /// The first room of the kind in the building that the permissions open.
    fn first_open_room(
        building: &Building,
        building_id: BuildingId,
        location_id: LocationId,
        kind: RoomType,
        permissions: &PermissionSet,
    ) -> (r: Option<RoomId>)
        ensures
            r == (match find_where(building.rooms@, open_room_pred(building_id, location_id, kind, *permissions)) {
                Some(room) => Some(room.id),
                None => None,
            }),
    {
        let ghost p = open_room_pred(building_id, location_id, kind, *permissions);
        let mut i: usize = 0;
        while i < building.rooms.len()
            invariant
                i <= building.rooms@.len(),
                p == open_room_pred(building_id, location_id, kind, *permissions),
                forall|j: int| 0 <= j < i ==> !p(#[trigger] building.rooms@[j]),
            decreases building.rooms.len() - i,
        {
            let room = &building.rooms[i];
            if room.room_type == kind && permissions.can_access_room(room.id, building_id, location_id) {
                proof {
                    assert(p(building.rooms@[i as int]));
                    lemma_first_where_is(building.rooms@, p, i as int);
                }
                return Some(room.id);
            }
            assert(!p(building.rooms@[i as int]));
            i = i + 1;
        }
        proof {
            if any_where(building.rooms@, p) {
                let k = choose|k: int| 0 <= k < building.rooms@.len() && p(#[trigger] building.rooms@[k]);
                assert(!p(building.rooms@[k]));
            }
        }
        None
    }

    /// A meeting room for the user. A user who travelled today meets at the
    /// destination. Otherwise the reach decides: the primary building (always
    /// for a curious user); another building of the primary location when
    /// the travel time allows, else the primary building; another location
    /// when cross-location travel allows, else another building of the
    /// primary location.
    pub fn select_meeting_room(
        &mut self,
        user_id: UserId,
        primary_location: LocationId,
        primary_building: BuildingId,
        is_curious: bool,
        permissions: &PermissionSet,
        registry: &LocationRegistry,
        meeting_time: Timestamp,
        current_schedule: &[ScheduledActivity],
        reach: MeetingReach,
    ) -> (r: Option<RoomId>)
        requires
            old(self).wf(),
            schedule_in_range(current_schedule@),
            in_range(meeting_time.millis as int),
        ensures
            final(self).wf(),
            ({
                let locs = registry.spec_locations();
                let s = current_schedule@;
                let t = meeting_time.millis as int;
                match travelled_to(old(self).held_location(user_id), locs, schedule_rooms(s)) {
                    Some(destination) => final(self).daily_locations() == old(self).daily_locations()
                        && location_meeting_pick_ok(*registry, destination, None, *permissions, r),
                    None => if reach == MeetingReach::PrimaryBuilding || is_curious {
                        final(self).daily_locations() == old(self).daily_locations()
                            && building_meeting_pick_ok(*registry, primary_building, *permissions, r)
                    } else if reach == MeetingReach::SameLocation {
                        final(self).daily_locations() == old(self).daily_locations()
                            && if meeting_travel_ok(locs, s, t, primary_location, primary_building) {
                                location_meeting_pick_ok(*registry, primary_location, Some(primary_building), *permissions, r)
                            } else {
                                building_meeting_pick_ok(*registry, primary_building, *permissions, r)
                            }
                    } else if cross_location_meeting_travel_ok(locs, s, t) {
                        let available = locs.filter(remote_location_ok(primary_location, *permissions));
                        if available.len() > 0 {
                            exists|k: int| 0 <= k < available.len()
                                && final(self).daily_locations() == old(self).daily_locations().insert(user_id.value, #[trigger] available[k].id)
                                && location_meeting_pick_ok(*registry, available[k].id, None, *permissions, r)
                        } else {
                            r.is_none() && final(self).daily_locations() == old(self).daily_locations()
                        }
                    } else {
                        final(self).daily_locations() == old(self).daily_locations()
                            && location_meeting_pick_ok(*registry, primary_location, Some(primary_building), *permissions, r)
                    },
                }
            }),
    {
        match self.has_traveled_cross_location_today(user_id, current_schedule, registry) {
            Some(destination_location) => {
                return self.select_meeting_room_in_location_with_permissions(destination_location, None, permissions, registry);
            },
            None => {},
        }
        if reach == MeetingReach::PrimaryBuilding || is_curious {
            self.select_meeting_room_in_building_with_permissions(primary_building, permissions, registry)
        } else if reach == MeetingReach::SameLocation {
            if self.validate_travel_time_for_meeting(primary_building, current_schedule, meeting_time, primary_location, registry) {
                self.select_meeting_room_in_location_with_permissions(
                    primary_location,
                    Some(primary_building),
                    permissions,
                    registry,
                )
            } else {
                self.select_meeting_room_in_building_with_permissions(primary_building, permissions, registry)
            }
        } else {
            if self.validate_travel_time_for_cross_location_meeting(current_schedule, meeting_time, registry) {
                self.select_meeting_room_in_different_location_with_permissions(user_id, primary_location, permissions, registry)
            } else {
                self.select_meeting_room_in_location_with_permissions(
                    primary_location,
                    Some(primary_building),
                    permissions,
                    registry,
                )
            }
        }
    }

    /// The instant `hour` o'clock (UTC) on the day.
    fn hour_of_day(day: i64, hour: i64) -> (t: Timestamp)
        requires
            day_in_range(day as int),
            0 <= hour < 24,
        ensures
            t == at_hour(day as int, hour as int),
    {
        Timestamp::from_millis(day * 86_400_000 + hour * 3_600_000)
    }

    /// The schedule of a day when nothing more can be planned: arrival at
    /// the workspace at 09:00 and departure from it at 17:00.
    pub fn generate_minimal_schedule(&self, primary_workspace: RoomId, day: i64) -> (r: Result<Vec<ScheduledActivity>, SimulationError>)
        requires
            day_in_range(day as int),
        ensures
            r matches Ok(v) && v@ == minimal_schedule(primary_workspace, day as int),
            r matches Ok(v) ==> v@.len() > 0 && without_overlap(v@) && starts_in_order(v@),
    {
        proof {
            lemma_minimal_schedules_without_overlap(primary_workspace, day as int);
        }
        let mut schedule: Vec<ScheduledActivity> = Vec::new();
        schedule.push(ScheduledActivity::new(
            ActivityType::Arrival,
            primary_workspace,
            Self::hour_of_day(day, 9),
            TimeDelta::minutes(15),
        ));
        schedule.push(ScheduledActivity::new(
            ActivityType::Departure,
            primary_workspace,
            Self::hour_of_day(day, 17),
            TimeDelta::minutes(10),
        ));
        assert(schedule@ =~= minimal_schedule(primary_workspace, day as int));
        Ok(schedule)
    }

    /// The night-shift schedule of a day when nothing more can be planned:
    /// patrols at 02:00 and 21:00, departure at 08:00, arrival at 17:00, all
    /// at the workspace.
    pub fn generate_minimal_night_shift_schedule(&self, primary_workspace: RoomId, day: i64) -> (r: Result<Vec<ScheduledActivity>, SimulationError>)
        requires
            day_in_range(day as int),
        ensures
            r matches Ok(v) && v@ == minimal_night_shift_schedule(primary_workspace, day as int),
            r matches Ok(v) ==> v@.len() > 0 && without_overlap(v@) && starts_in_order(v@),
    {
        proof {
            lemma_minimal_schedules_without_overlap(primary_workspace, day as int);
        }
        let mut schedule: Vec<ScheduledActivity> = Vec::new();
        schedule.push(ScheduledActivity::new(
            ActivityType::NightPatrol,
            primary_workspace,
            Self::hour_of_day(day, 2),
            TimeDelta::minutes(30),
        ));
        schedule.push(ScheduledActivity::new(
            ActivityType::Departure,
            primary_workspace,
            Self::hour_of_day(day, 8),
            TimeDelta::minutes(10),
        ));
        schedule.push(ScheduledActivity::new(
            ActivityType::Arrival,
            primary_workspace,
            Self::hour_of_day(day, 17),
            TimeDelta::minutes(10),
        ));
        schedule.push(ScheduledActivity::new(
            ActivityType::NightPatrol,
            primary_workspace,
            Self::hour_of_day(day, 21),
            TimeDelta::minutes(30),
        ));
        assert(schedule@ =~= minimal_night_shift_schedule(primary_workspace, day as int));
        Ok(schedule)
    }

    /// Adds a patrol round to the schedule: the first `count` rooms (all of
    /// them when there are fewer), the `i`-th from `i * step` minutes after
    /// `hour` o'clock for `minutes` minutes.
    fn push_patrol_round(
        schedule: &mut Vec<ScheduledActivity>,
        rooms: &[RoomId],
        count: usize,
        day: i64,
        hour: i64,
        step: i64,
        minutes: i64,
    )
        requires
            day_in_range(day as int),
            0 <= hour < 24,
            1 <= count <= 4,
            1 <= step <= 60,
            0 <= minutes <= 45,
        ensures
            final(schedule)@ == old(schedule)@ + patrol_round(rooms@, count as int, day as int, hour as int, step as int, minutes as int),
    {
        let ghost before = schedule@;
        let ghost round = patrol_round(rooms@, count as int, day as int, hour as int, step as int, minutes as int);
        let start = Self::hour_of_day(day, hour);
        let n: usize = if rooms.len() < count { rooms.len() } else { count };
        let mut i: usize = 0;
        while i < n
            invariant
                i <= n,
                n == round.len(),
                n <= 4,
                day_in_range(day as int),
                0 <= hour < 24,
                1 <= step <= 60,
                0 <= minutes <= 45,
                start == at_hour(day as int, hour as int),
                round == patrol_round(rooms@, count as int, day as int, hour as int, step as int, minutes as int),
                schedule@ == before + round.take(i as int),
            decreases n - i,
        {
            assert(0 <= i * step <= 240) by (nonlinear_arith)
                requires
                    0 <= i < 4,
                    1 <= step <= 60,
            ;
            let offset: i64 = i as i64 * step;
            let activity = ScheduledActivity::new(
                ActivityType::NightPatrol,
                rooms[i],
                start.plus(TimeDelta::minutes(offset)),
                TimeDelta::minutes(minutes),
            );
            assert(activity == round[i as int]);
            assert(round.take(i as int + 1) =~= round.take(i as int).push(round[i as int]));
            schedule.push(activity);
            i = i + 1;
        }
        assert(round.take(n as int) =~= round);
    }

    /// The night-shift plan of a day for the rooms drawn for patrol, before
    /// conflicts are resolved; the break room where there is one, else the
    /// first drawn room, takes the two breaks.
    pub fn plan_night_shift_schedule(rooms: &[RoomId], break_room: Option<RoomId>, day: i64) -> (v: Vec<ScheduledActivity>)
        requires
            rooms@.len() > 0,
            day_in_range(day as int),
        ensures
            v@ == night_shift_plan(rooms@, match break_room { Some(b) => b, None => rooms@[0] }, day as int),
    {
        let room = match break_room {
            Some(b) => b,
            None => rooms[0],
        };
        let mut schedule: Vec<ScheduledActivity> = Vec::new();
        Self::push_patrol_round(&mut schedule, rooms, 2, day, 0, 60, 45);
        Self::push_patrol_round(&mut schedule, rooms, 3, day, 2, 40, 30);
        schedule.push(ScheduledActivity::new(
            ActivityType::Bathroom,
            room,
            Self::time_of_day(day, 4, 30),
            TimeDelta::minutes(15),
        ));
        Self::push_patrol_round(&mut schedule, rooms, 2, day, 5, 60, 45);
        schedule.push(ScheduledActivity::new(
            ActivityType::Departure,
            rooms[0],
            Self::hour_of_day(day, 8),
            TimeDelta::minutes(10),
        ));
        schedule.push(ScheduledActivity::new(
            ActivityType::Arrival,
            rooms[0],
            Self::hour_of_day(day, 17),
            TimeDelta::minutes(10),
        ));
        Self::push_patrol_round(&mut schedule, rooms, 3, day, 18, 40, 30);
        schedule.push(ScheduledActivity::new(
            ActivityType::Bathroom,
            room,
            Self::time_of_day(day, 20, 30),
            TimeDelta::minutes(20),
        ));
        Self::push_patrol_round(&mut schedule, rooms, 4, day, 21, 35, 25);
        assert(schedule@ =~= night_shift_plan(rooms@, room, day as int));
        schedule
    }

    /// The schedule of a night-shift user for a day, in the building they
    /// are assigned for the night (their primary building when none): when
    /// they may enter no room there, the minimal night-shift schedule at
    /// their workspace; otherwise the night-shift plan over the rooms they
    /// may enter, in an order drawn at random, with its conflicts resolved.
    pub fn generate_night_shift_schedule(
        &mut self,
        user_id: UserId,
        primary_location: LocationId,
        primary_building: BuildingId,
        primary_workspace: RoomId,
        assigned_night_building: Option<BuildingId>,
        permissions: &PermissionSet,
        day: i64,
        registry: &LocationRegistry,
    ) -> (r: Result<Vec<ScheduledActivity>, SimulationError>)
        requires
            old(self).wf(),
            day_in_range(day as int),
        ensures
            final(self).wf(),
            final(self).daily_locations() == old(self).daily_locations(),
            r matches Ok(v) ==> schedule_within_days(v@, day as int),
            r matches Ok(v) ==> v@.len() > 0 && without_overlap(v@) && starts_in_order(v@),
            ({
                let building = match assigned_night_building { Some(b) => b, None => primary_building };
                let open = night_shift_rooms(*registry, primary_location, building, *permissions);
                if open.len() == 0 {
                    r matches Ok(v) && v@ == minimal_night_shift_schedule(primary_workspace, day as int)
                } else {
                    exists|rooms: Seq<RoomId>| #[trigger] rooms.to_multiset() == open.to_multiset()
                        && night_shift_outcome(
                            *registry,
                            old(self).held_location(user_id),
                            *permissions,
                            rooms,
                            night_shift_break_room(*registry, primary_location, building, *permissions),
                            day as int,
                            r,
                        )
                }
            }),
    {
        let night_building = match assigned_night_building {
            Some(b) => b,
            None => primary_building,
        };
        let ghost held = self.held_location(user_id);
        let accessible_rooms = self.get_accessible_rooms_for_night_shift(primary_location, night_building, permissions, registry);
        proof {
            accessible_rooms@.to_multiset_ensures();
            night_shift_rooms(*registry, primary_location, night_building, *permissions).to_multiset_ensures();
        }
        if accessible_rooms.len() == 0 {
            return self.generate_minimal_night_shift_schedule(primary_workspace, day);
        }
        let break_room = self.select_break_room_for_night_shift(primary_location, night_building, permissions, registry);
        let schedule = Self::plan_night_shift_schedule(accessible_rooms.as_slice(), break_room, day);
        let ghost room = match break_room { Some(b) => b, None => accessible_rooms@[0] };
        proof {
            lemma_night_shift_plan_resolves_in_range(*registry, held, *permissions, accessible_rooms@, room, day as int);
            let plan = night_shift_plan(accessible_rooms@, room, day as int);
            lemma_night_shift_plan_shape(accessible_rooms@, room, day as int);
            assert(plan.len() * 17_400_000 <= 18 * 17_400_000) by (nonlinear_arith)
                requires
                    plan.len() <= 18,
            ;
            lemma_bounded_resolution(*registry, held, *permissions, plan, day * 86_400_000, day * 86_400_000 + 81_900_000, 2_700_000);
        }
        let r = self.resolve_schedule_conflicts(schedule, user_id, primary_location, permissions, registry);
        assert(night_shift_outcome(*registry, held, *permissions, accessible_rooms@, break_room, day as int, r));
        proof {
            if r is Ok {
                law_without_overlap_starts_in_order(r->Ok_0@);
            }
        }
        r
    }

    /// When a day-shift user leaves: eight hours after arrival for a
    /// schedule-focused user and seven for others, moved by the minutes
    /// drawn against their behaviour, and no later than 20:00.
    pub fn generate_departure_time(day: i64, schedule_focused: bool, arrival_time: Timestamp, variation_minutes: i64) -> (t: Timestamp)
        requires
            day_in_range(day as int),
            day * 86_400_000 <= arrival_time.millis <= day * 86_400_000 + 86_400_000,
            -60 <= variation_minutes <= 120,
        ensures
            t.millis == departure_time(day as int, schedule_focused, arrival_time.millis as int, variation_minutes as int),
    {
        let hours: i64 = if schedule_focused { 8 } else { 7 };
        let earliest = arrival_time.plus(TimeDelta::hours(hours)).plus(TimeDelta::minutes(variation_minutes));
        let latest = Self::hour_of_day(day, 20);
        if earliest.millis < latest.millis {
            earliest
        } else {
            latest
        }
    }

    /// For a curious user who tries doors today, one to three unauthorized
    /// attempts added to the schedule: each a room at the primary location
    /// the permissions do not open, at a minute of the hours their
    /// boldness chooses, for 5 to 15 minutes. Nothing is added otherwise.
    pub fn add_curious_user_activities(
        &mut self,
        schedule: &mut Vec<ScheduledActivity>,
        is_curious: bool,
        bold: bool,
        tries_doors: bool,
        primary_location: LocationId,
        permissions: &PermissionSet,
        day: i64,
        registry: &LocationRegistry,
    )
        requires
            day_in_range(day as int),
        ensures
            final(self).wf() == old(self).wf(),
            final(self).daily_locations() == old(self).daily_locations(),
            old(schedule)@.len() <= final(schedule)@.len() <= old(schedule)@.len() + (if is_curious && tries_doors { 3int } else { 0int }),
            final(schedule)@.take(old(schedule)@.len() as int) == old(schedule)@,
            forall|i: int| old(schedule)@.len() <= i < final(schedule)@.len()
                ==> attempt_ok(#[trigger] final(schedule)@[i], *registry, primary_location, *permissions, bold, day as int),
            forall|i: int| old(schedule)@.len() <= i < final(schedule)@.len()
                ==> day * 86_400_000 + 28_800_000 <= #[trigger] final(schedule)@[i].start_time.millis <= day * 86_400_000 + 64_740_000,
            is_curious && tries_doors && (registry.spec_get_location(primary_location) matches Some(l)
                && tempting_room_exists(l, *permissions)) ==> old(schedule)@.len() + 1 <= final(schedule)@.len(),
    {
        let ghost before = schedule@;
        let ghost tempting = registry.spec_get_location(primary_location) matches Some(l)
            && tempting_room_exists(l, *permissions);
        if !(is_curious && tries_doors) {
            assert(schedule@.take(before.len() as int) =~= before);
            return;
        }
        let attempt_count = gen_range_inclusive(&mut self.rng, 1, 3);
        let mut k: i64 = 0;
        while k < attempt_count
            invariant
                0 <= k <= attempt_count <= 3,
                day_in_range(day as int),
                is_curious,
                self.wf() == old(self).wf(),
                self.daily_locations() == old(self).daily_locations(),
                before.len() <= schedule@.len() <= before.len() + k,
                schedule@.take(before.len() as int) == before,
                forall|i: int| before.len() <= i < schedule@.len()
                    ==> attempt_ok(#[trigger] schedule@[i], *registry, primary_location, *permissions, bold, day as int),
                forall|i: int| before.len() <= i < schedule@.len()
                    ==> day * 86_400_000 + 28_800_000 <= #[trigger] schedule@[i].start_time.millis <= day * 86_400_000 + 64_740_000,
                tempting == (registry.spec_get_location(primary_location) matches Some(l)
                    && tempting_room_exists(l, *permissions)),
                tempting ==> schedule@.len() == before.len() + k,
            decreases attempt_count - k,
        {
            if let Some(room) = self.generate_unauthorized_access_attempt(is_curious, primary_location, permissions, registry) {
                if let Some(attempt_time) = self.generate_curious_access_time(day, bold) {
                    let minutes = gen_range_inclusive(&mut self.rng, 5, 15);
                    let activity = ScheduledActivity::new(
                        ActivityType::UnauthorizedAccess,
                        room,
                        attempt_time,
                        TimeDelta::minutes(minutes),
                    );
                    proof {
                        if bold {
                            lemma_at_one_of_bounds(attempt_time, day as int, seq![8int, 9, 10, 11, 13, 14, 15, 16, 17], 59, 8, 17);
                        } else {
                            lemma_at_one_of_bounds(attempt_time, day as int, seq![8int, 12, 13, 17], 59, 8, 17);
                        }
                    }
                    let ghost prev = schedule@;
                    schedule.push(activity);
                    proof {
                        assert(schedule@.take(before.len() as int) =~= prev.take(before.len() as int));
                        assert forall|i: int| before.len() <= i < schedule@.len() implies {
                            &&& attempt_ok(#[trigger] schedule@[i], *registry, primary_location, *permissions, bold, day as int)
                            &&& day * 86_400_000 + 28_800_000 <= schedule@[i].start_time.millis <= day * 86_400_000 + 64_740_000
                        } by {
                            if i < prev.len() {
                                assert(schedule@[i] == prev[i]);
                            }
                        }
                    }
                }
            }
            k = k + 1;
        }
    }

    /// The schedule of a day-shift user for a day: arrival at the workspace,
    /// two to four bathroom breaks, lunch, a meeting for each drawn reach
    /// where a time and a room are found, up to three collaborations for a
    /// social user, departure, and the unauthorized attempts of a curious
    /// user who tries doors today; ordered by start time, then with its
    /// conflicts resolved.
    #[verifier::spinoff_prover]
    #[verifier::rlimit(60)]
    pub fn generate_schedule_internal(
        &mut self,
        user: &DayShiftUser,
        permissions: &PermissionSet,
        draws: &DayDraws,
        day: i64,
        registry: &LocationRegistry,
    ) -> (r: Result<Vec<ScheduledActivity>, SimulationError>)
        requires
            old(self).wf(),
            day_in_range(day as int),
            draws.meeting_reaches@.len() <= 5,
            -60 <= draws.departure_variation_minutes <= 120,
        ensures
            final(self).wf(),
            r matches Ok(v) ==> schedule_within_days(v@, day as int),
            r matches Ok(v) ==> v@.len() > 0 && without_overlap(v@) && starts_in_order(v@),
            exists|plan: Seq<ScheduledActivity>| #[trigger] day_plan_ok(
                plan,
                *user,
                draws.meeting_reaches@.len() as int,
                draws.departure_variation_minutes as int,
                draws.tries_doors,
                day as int,
            ) && match resolve_all(*registry, final(self).held_location(user.user_id), *permissions, sort_by_start(plan)) {
                Ok(done) => r matches Ok(v) && v@ == done,
                Err(room) => r matches Err(e) && location_not_found(e, room),
            },
    {
        let ghost z = day * 86_400_000;
        let ghost hi = z + 83_100_000;
        let mut schedule: Vec<ScheduledActivity> = Vec::new();

        // Arrival at the workspace.
        let arrival_time = self.generate_arrival_time(day, user.schedule_focused, user.punctual);
        proof {
            lemma_at_one_of_bounds(
                arrival_time,
                day as int,
                if user.schedule_focused { seq![8int] } else { seq![7int, 8, 9] },
                if user.punctual { 30 } else { 59 },
                7,
                9,
            );
        }
        let arrival = ScheduledActivity::new(ActivityType::Arrival, user.primary_workspace, arrival_time, TimeDelta::minutes(15));
        schedule.push(arrival);
        proof {
            lemma_count_kind_push(Seq::empty(), arrival);
            assert(Seq::<ScheduledActivity>::empty().push(arrival) =~= schedule@);
            assert(schedule@[0] == arrival);
        }

        // Bathroom breaks.
        let bathroom_count = gen_range_inclusive(&mut self.rng, 2, 4);
        let ghost before_bath = schedule@;
        let mut k: i64 = 0;
        while k < bathroom_count
            invariant
                0 <= k <= bathroom_count <= 4,
                2 <= bathroom_count,
                self.wf(),
                day_in_range(day as int),
                z == day * 86_400_000,
                hi == z + 83_100_000,
                before_bath.len() == 1,
                schedule@.len() == before_bath.len() + k,
                schedule@[0] == arrival,
                starts_within(schedule@, z, hi, 7_200_000),
                forall|t: ActivityType| t != ActivityType::Bathroom ==> #[trigger] count_kind(schedule@, t) == count_kind(before_bath, t),
                count_kind(schedule@, ActivityType::Bathroom) == count_kind(before_bath, ActivityType::Bathroom) + k,
            decreases bathroom_count - k,
        {
            if let Some(bathroom_time) = self.generate_bathroom_break_time(day, user.schedule_focused) {
                let bathroom_room = match self.select_bathroom_room(user.primary_location, user.primary_building, permissions, registry) {
                    Some(room) => room,
                    None => user.primary_workspace,
                };
                let minutes = gen_range_inclusive(&mut self.rng, 3, 8);
                let activity = ScheduledActivity::new(ActivityType::Bathroom, bathroom_room, bathroom_time, TimeDelta::minutes(minutes));
                proof {
                    lemma_at_one_of_bounds(bathroom_time, day as int, seq![8int, 9, 10, 11, 12, 13, 14, 15, 16, 17], 59, 8, 17);
                    lemma_count_kind_push(schedule@, activity);
                    lemma_starts_within_push(schedule@, activity, z, hi, 7_200_000);
                }
                schedule.push(activity);
            }
            k = k + 1;
        }

        // Lunch.
        let lunch_time = self.generate_lunch_time(day, user.social);
        let lunch_room = match self.select_lunch_room(user.primary_location, user.primary_building, permissions, registry) {
            Some(room) => room,
            None => user.primary_workspace,
        };
        let lunch_minutes = gen_range_inclusive(&mut self.rng, 30, 90);
        let lunch = ScheduledActivity::new(ActivityType::Lunch, lunch_room, lunch_time, TimeDelta::minutes(lunch_minutes));
        proof {
            lemma_at_one_of_bounds(lunch_time, day as int, if user.social { seq![12int, 13] } else { seq![11int, 12] }, 59, 11, 13);
            lemma_count_kind_push(schedule@, lunch);
            lemma_starts_within_push(schedule@, lunch, z, hi, 7_200_000);
        }
        schedule.push(lunch);

        // Meetings.
        let ghost before_meet = schedule@;
        let mut m: usize = 0;
        while m < draws.meeting_reaches.len()
            invariant
                m <= draws.meeting_reaches@.len() <= 5,
                self.wf(),
                day_in_range(day as int),
                z == day * 86_400_000,
                hi == z + 83_100_000,
                before_meet.len() >= 1,
                before_meet.len() <= schedule@.len() <= before_meet.len() + m,
                schedule@[0] == arrival,
                starts_within(schedule@, z, hi, 7_200_000),
                forall|t: ActivityType| t != ActivityType::Meeting ==> #[trigger] count_kind(schedule@, t) == count_kind(before_meet, t),
                count_kind(schedule@, ActivityType::Meeting) == count_kind(before_meet, ActivityType::Meeting) + (schedule@.len() - before_meet.len()),
            decreases draws.meeting_reaches.len() - m,
        {
            proof {
                lemma_day_schedule_in_range(schedule@, day as int);
            }
            if let Some(meeting_time) = self.generate_meeting_time(
                day,
                user.schedule_focused,
                schedule.as_slice(),
                user.primary_location,
                user.primary_building,
                registry,
            ) {
                proof {
                    let base = choose|base: Timestamp| #[trigger] base_meeting_time_ok(base, day as int, user.schedule_focused)
                        && meeting_time.millis == earliest_meeting_time(
                            registry.spec_locations(),
                            schedule@,
                            base.millis as int,
                            user.primary_location,
                            user.primary_building,
                        );
                    lemma_base_meeting_bounds(base, day as int, user.schedule_focused);
                    lemma_meeting_time_bound(
                        registry.spec_locations(),
                        schedule@,
                        base.millis as int,
                        user.primary_location,
                        user.primary_building,
                        z,
                        hi,
                        7_200_000,
                    );
                }
                let reach = draws.meeting_reaches[m];
                if let Some(meeting_room) = self.select_meeting_room(
                    user.user_id,
                    user.primary_location,
                    user.primary_building,
                    user.is_curious,
                    permissions,
                    registry,
                    meeting_time,
                    schedule.as_slice(),
                    reach,
                ) {
                    let minutes = gen_range_inclusive(&mut self.rng, 30, 120);
                    let activity = ScheduledActivity::new(ActivityType::Meeting, meeting_room, meeting_time, TimeDelta::minutes(minutes));
                    proof {
                        lemma_count_kind_push(schedule@, activity);
                        lemma_starts_within_push(schedule@, activity, z, hi, 7_200_000);
                    }
                    schedule.push(activity);
                }
            }
            m = m + 1;
        }

        // Collaboration visits of social users.
        let ghost before_collab = schedule@;
        if user.social {
            let collab_count = gen_range_inclusive(&mut self.rng, 0, 3);
            let mut c: i64 = 0;
            while c < collab_count
                invariant
                    0 <= c <= collab_count <= 3,
                    self.wf(),
                    day_in_range(day as int),
                    z == day * 86_400_000,
                    hi == z + 83_100_000,
                    before_collab.len() >= 1,
                    before_collab.len() <= schedule@.len() <= before_collab.len() + c,
                    schedule@[0] == arrival,
                    starts_within(schedule@, z, hi, 7_200_000),
                    forall|t: ActivityType| t != ActivityType::Collaboration ==> #[trigger] count_kind(schedule@, t) == count_kind(before_collab, t),
                    count_kind(schedule@, ActivityType::Collaboration) == count_kind(before_collab, ActivityType::Collaboration) + (schedule@.len() - before_collab.len()),
                decreases collab_count - c,
            {
                if let Some(collab_time) = self.generate_collaboration_time(day) {
                    if let Some(collab_room) = self.select_collaboration_room(user.primary_location, user.primary_building, permissions, registry) {
                        let minutes = gen_range_inclusive(&mut self.rng, 15, 45);
                        let activity = ScheduledActivity::new(ActivityType::Collaboration, collab_room, collab_time, TimeDelta::minutes(minutes));
                        proof {
                            lemma_at_one_of_bounds(collab_time, day as int, seq![10int, 11, 12, 13, 14, 15], 59, 10, 15);
                            lemma_count_kind_push(schedule@, activity);
                            lemma_starts_within_push(schedule@, activity, z, hi, 7_200_000);
                        }
                        schedule.push(activity);
                    }
                }
                c = c + 1;
            }
        }

        // Departure.
        let departure_time = Self::generate_departure_time(day, user.schedule_focused, arrival_time, draws.departure_variation_minutes);
        let departure_room = self.select_departure_room(
            user.user_id,
            user.primary_location,
            user.primary_workspace,
            permissions,
            schedule.as_slice(),
            registry,
        );
        let departure = ScheduledActivity::new(ActivityType::Departure, departure_room, departure_time, TimeDelta::minutes(10));
        let ghost dep_index = schedule@.len() as int;
        proof {
            lemma_count_kind_push(schedule@, departure);
            lemma_starts_within_push(schedule@, departure, z, hi, 7_200_000);
        }
        schedule.push(departure);

        // Unauthorized attempts of curious users.
        let ghost before_curious = schedule@;
        if user.is_curious {
            self.add_curious_user_activities(
                &mut schedule,
                user.is_curious,
                user.bold,
                draws.tries_doors,
                user.primary_location,
                permissions,
                day,
                registry,
            );
        }
        proof {
            let s = schedule@;
            let n = before_curious.len() as int;
            assert(s.take(n) =~= before_curious);
            lemma_count_kind_extend(s, n, ActivityType::UnauthorizedAccess);
            assert forall|i: int| 0 <= i < s.len() implies z <= #[trigger] s[i].start_time.millis <= hi
                && 0 <= s[i].duration.millis <= 7_200_000 by {
                if i < n {
                    assert(s[i] == before_curious[i]);
                }
            }
            assert(s[0] == arrival);
            assert(s[dep_index] == departure);
            assert(day_plan_ok(
                s,
                *user,
                draws.meeting_reaches@.len() as int,
                draws.departure_variation_minutes as int,
                draws.tries_doors,
                day as int,
            ));
            lemma_sorted_starts_within(s, z, hi, 7_200_000);
            assert(sort_by_start(s).len() * 21_900_000 <= 30 * 21_900_000) by (nonlinear_arith)
                requires
                    sort_by_start(s).len() <= 30,
            ;
            lemma_bounded_resolution(*registry, self.held_location(user.user_id), *permissions, sort_by_start(s), z, hi, 7_200_000);
        }
        let sorted = ScheduledActivity::sort_by_start_time(schedule);
        let r = self.resolve_schedule_conflicts(sorted, user.user_id, user.primary_location, permissions, registry);
        proof {
            if r is Ok {
                law_without_overlap_starts_in_order(r->Ok_0@);
            }
        }
        r
    }

    /// The schedule of a user for a day: the night-shift schedule for a
    /// night-shift user; for others the day-shift schedule, or the minimal
    /// schedule at their workspace when it cannot be made (a room found at
    /// no location). It is never empty, and its activities come in start
    /// order, none starting before the one before it ends.
    #[verifier::spinoff_prover]
    #[verifier::rlimit(40)]
    pub fn generate_daily_schedule(
        &mut self,
        user: &DayShiftUser,
        is_night_shift: bool,
        assigned_night_building: Option<BuildingId>,
        permissions: &PermissionSet,
        draws: &DayDraws,
        day: i64,
        registry: &LocationRegistry,
    ) -> (r: Result<Vec<ScheduledActivity>, SimulationError>)
        requires
            old(self).wf(),
            day_in_range(day as int),
            draws.meeting_reaches@.len() <= 5,
            -60 <= draws.departure_variation_minutes <= 120,
        ensures
            final(self).wf(),
            r matches Ok(v) ==> schedule_within_days(v@, day as int),
            r matches Ok(v) ==> v@.len() > 0 && without_overlap(v@) && starts_in_order(v@),
            daily_schedule_outcome(
                old(self).held_location(user.user_id),
                final(self).held_location(user.user_id),
                *user,
                is_night_shift,
                assigned_night_building,
                *permissions,
                *draws,
                day as int,
                *registry,
                r,
            ),
    {
        if is_night_shift {
            return self.generate_night_shift_schedule(
                user.user_id,
                user.primary_location,
                user.primary_building,
                user.primary_workspace,
                assigned_night_building,
                permissions,
                day,
                registry,
            );
        }
        match self.generate_schedule_internal(user, permissions, draws, day, registry) {
            Ok(schedule) => Ok(schedule),
            Err(_) => self.generate_minimal_schedule(user.primary_workspace, day),
        }
    }

    /// A room a curious user tries without authorization, at their primary
    /// location: drawn among the rooms the permissions do not open, where
    /// each restricted or higher room is always a candidate and any other
    /// one three times in ten. None for a user who is not curious.
    pub fn generate_unauthorized_access_attempt(
        &mut self,
        is_curious: bool,
        primary_location: LocationId,
        permissions: &PermissionSet,
        registry: &LocationRegistry,
    ) -> (r: Option<RoomId>)
        ensures
            final(self).wf() == old(self).wf(),
            final(self).daily_locations() == old(self).daily_locations(),
            !is_curious ==> r.is_none(),
            match registry.spec_get_location(primary_location) {
                Some(l) => {
                    &&& (r matches Some(room) ==> closed_room(l, *permissions, room))
                    &&& (is_curious && tempting_room_exists(l, *permissions) ==> r.is_some())
                },
                None => r.is_none(),
            },
    {
        if !is_curious {
            return None;
        }
        match registry.get_location(primary_location) {
            Some(location) => {
                let ghost l = *location;
                let mut candidates: Vec<RoomId> = Vec::new();
                let mut i: usize = 0;
                while i < location.buildings.len()
                    invariant
                        i <= location.buildings@.len(),
                        l == *location,
                        self.wf() == old(self).wf(),
                        self.daily_locations() == old(self).daily_locations(),
                        forall|k: int| 0 <= k < candidates@.len() ==> closed_room(l, *permissions, #[trigger] candidates@[k]),
                        (exists|bi: int, ri: int| bi < i && #[trigger] closed_room_at(l, *permissions, bi, ri)
                            && tempting_level(l.buildings@[bi].rooms@[ri].security_level)) ==> candidates@.len() > 0,
                    decreases location.buildings.len() - i,
                {
                    let building = &location.buildings[i];
                    let mut j: usize = 0;
                    while j < building.rooms.len()
                        invariant
                            i < location.buildings@.len(),
                            j <= building.rooms@.len(),
                            l == *location,
                            *building == l.buildings@[i as int],
                            self.wf() == old(self).wf(),
                            self.daily_locations() == old(self).daily_locations(),
                            forall|k: int| 0 <= k < candidates@.len() ==> closed_room(l, *permissions, #[trigger] candidates@[k]),
                            (exists|bi: int, ri: int| (bi < i || (bi == i && ri < j)) && #[trigger] closed_room_at(l, *permissions, bi, ri)
                                && tempting_level(l.buildings@[bi].rooms@[ri].security_level)) ==> candidates@.len() > 0,
                        decreases building.rooms.len() - j,
                    {
                        let room = &building.rooms[j];
                        if !permissions.can_access_room(room.id, building.id, location.id) {
                            assert(closed_room_at(l, *permissions, i as int, j as int));
                            let tempting = match room.security_level {
                                SecurityLevel::Restricted | SecurityLevel::HighSecurity | SecurityLevel::MaxSecurity => true,
                                _ => false,
                            };
                            if tempting || gen_index(&mut self.rng, 10) < 3 {
                                candidates.push(room.id);
                                assert(closed_room(l, *permissions, candidates@[candidates@.len() - 1]));
                            }
                        }
                        j = j + 1;
                    }
                    i = i + 1;
                }
                if candidates.len() > 0 {
                    let k = gen_index(&mut self.rng, candidates.len());
                    Some(candidates[k])
                } else {
                    None
                }
            },
            None => None,
        }
    }

    /// The instant `hour:minute` (UTC) on the day.
    fn time_of_day(day: i64, hour: i64, minute: i64) -> (t: Timestamp)
        requires
            day_in_range(day as int),
            0 <= hour < 24,
            0 <= minute < 60,
        ensures
            t == at_time(day as int, hour as int, minute as int),
    {
        Timestamp::from_millis(day * 86_400_000 + hour * 3_600_000 + minute * 60_000)
    }

    /// A minute drawn in `0..=high`, capped at 59.
    fn draw_minute(&mut self, high: i64) -> (m: i64)
        requires
            0 <= high,
        ensures
            0 <= m <= 59,
            m <= high,
            final(self).wf() == old(self).wf(),
            final(self).daily_locations() == old(self).daily_locations(),
    {
        let m = gen_range_inclusive(&mut self.rng, 0, high);
        if m > 59 { 59 } else { m }
    }

    /// The arrival time of a day: 8 o'clock for a schedule-focused user,
    /// otherwise drawn between 7 and 9 o'clock; plus up to 30 minutes for a
    /// punctual user, up to 59 otherwise.
    pub fn generate_arrival_time(&mut self, day: i64, schedule_focused: bool, punctual: bool) -> (t: Timestamp)
        requires
            day_in_range(day as int),
        ensures
            at_one_of(t, day as int, if schedule_focused { seq![8int] } else { seq![7int, 8, 9] }, if punctual { 30 } else { 59 }),
            final(self).wf() == old(self).wf(),
            final(self).daily_locations() == old(self).daily_locations(),
    {
        let base_hour = if schedule_focused { 8 } else { gen_range_inclusive(&mut self.rng, 7, 9) };
        let minute = if punctual { self.draw_minute(30) } else { self.draw_minute(60) };
        let t = Self::time_of_day(day, base_hour, minute);
        proof {
            let hours = if schedule_focused { seq![8int] } else { seq![7int, 8, 9] };
            if schedule_focused {
                assert(hours[0] == base_hour);
            } else if base_hour == 7 {
                assert(hours[0] == base_hour);
            } else if base_hour == 8 {
                assert(hours[1] == base_hour);
            } else {
                assert(hours[2] == base_hour);
            }
        }
        t
    }

    /// A bathroom break: for a schedule-focused user seven times in ten at
    /// 10 or 15 o'clock (even odds), otherwise at an hour drawn between 8
    /// and 17; the minute drawn in the hour.
    pub fn generate_bathroom_break_time(&mut self, day: i64, schedule_focused: bool) -> (t: Option<Timestamp>)
        requires
            day_in_range(day as int),
        ensures
            t matches Some(time) && at_one_of(time, day as int, seq![8int, 9, 10, 11, 12, 13, 14, 15, 16, 17], 59),
            final(self).wf() == old(self).wf(),
            final(self).daily_locations() == old(self).daily_locations(),
    {
        let hour = gen_range_inclusive(&mut self.rng, 8, 17);
        let minute = self.draw_minute(59);
        let chosen = if schedule_focused && gen_index(&mut self.rng, 10) < 7 {
            if gen_index(&mut self.rng, 2) == 0 { 10 } else { 15 }
        } else {
            hour
        };
        let t = Self::time_of_day(day, chosen, minute);
        proof {
            let hours = seq![8int, 9, 10, 11, 12, 13, 14, 15, 16, 17];
            assert(hours[chosen - 8] == chosen);
        }
        Some(t)
    }

    /// The lunch time of a day: between 12 and 13 o'clock for a social
    /// user, between 11 and 12 otherwise; the minute drawn in the hour.
    pub fn generate_lunch_time(&mut self, day: i64, social: bool) -> (t: Timestamp)
        requires
            day_in_range(day as int),
        ensures
            at_one_of(t, day as int, if social { seq![12int, 13] } else { seq![11int, 12] }, 59),
            final(self).wf() == old(self).wf(),
            final(self).daily_locations() == old(self).daily_locations(),
    {
        let base_hour = if social { gen_range_inclusive(&mut self.rng, 12, 13) } else { gen_range_inclusive(&mut self.rng, 11, 12) };
        let minute = self.draw_minute(59);
        let t = Self::time_of_day(day, base_hour, minute);
        proof {
            let hours = if social { seq![12int, 13] } else { seq![11int, 12] };
            if social {
                assert(hours[base_hour - 12] == base_hour);
            } else {
                assert(hours[base_hour - 11] == base_hour);
            }
        }
        t
    }

    /// A meeting time before travel is considered: for a schedule-focused
    /// user at 9, 10, 14, 15 or 16 o'clock, on the hour seven times in ten
    /// and at half past otherwise; for others at an hour from 9 to 16 but
    /// noon, the minute drawn in the hour.
    pub fn generate_base_meeting_time(&mut self, day: i64, schedule_focused: bool) -> (t: Option<Timestamp>)
        requires
            day_in_range(day as int),
        ensures
            t matches Some(time) && base_meeting_time_ok(time, day as int, schedule_focused),
            final(self).wf() == old(self).wf(),
            final(self).daily_locations() == old(self).daily_locations(),
    {
        let hour: i64 = if schedule_focused {
            let k = gen_index(&mut self.rng, 5);
            if k == 0 { 9 } else if k == 1 { 10 } else if k == 2 { 14 } else if k == 3 { 15 } else { 16 }
        } else {
            let k = gen_index(&mut self.rng, 7);
            if k < 3 { 9 + k as i64 } else { 10 + k as i64 }
        };
        let minute: i64 = if schedule_focused {
            if gen_index(&mut self.rng, 10) < 7 { 0 } else { 30 }
        } else {
            self.draw_minute(59)
        };
        let t = Self::time_of_day(day, hour, minute);
        proof {
            if schedule_focused {
                let hours = seq![9int, 10, 14, 15, 16];
                if hour == 9 { assert(hours[0] == hour); }
                else if hour == 10 { assert(hours[1] == hour); }
                else if hour == 14 { assert(hours[2] == hour); }
                else if hour == 15 { assert(hours[3] == hour); }
                else { assert(hours[4] == hour); }
            } else {
                let hours = seq![9int, 10, 11, 13, 14, 15, 16];
                if hour < 12 { assert(hours[hour - 9] == hour); } else { assert(hours[hour - 10] == hour); }
            }
        }
        Some(t)
    }

    /// A meeting time: a base time, moved later when the last activity
    /// before it leaves too little time to travel to the user's primary
    /// building with the slack.
    pub fn generate_meeting_time(
        &mut self,
        day: i64,
        schedule_focused: bool,
        current_schedule: &[ScheduledActivity],
        primary_location: LocationId,
        primary_building: BuildingId,
        registry: &LocationRegistry,
    ) -> (t: Option<Timestamp>)
        requires
            old(self).wf(),
            day_in_range(day as int),
            schedule_in_range(current_schedule@),
        ensures
            final(self).wf(),
            final(self).daily_locations() == old(self).daily_locations(),
            t matches Some(time) && exists|base: Timestamp| #[trigger] base_meeting_time_ok(base, day as int, schedule_focused)
                && time.millis == earliest_meeting_time(
                    registry.spec_locations(),
                    current_schedule@,
                    base.millis as int,
                    primary_location,
                    primary_building,
                ),
    {
        let base_meeting_time = match self.generate_base_meeting_time(day, schedule_focused) {
            Some(b) => b,
            None => return None,
        };
        proof {
            assert(in_range(base_meeting_time.millis as int));
        }
        self.calculate_earliest_meeting_time(base_meeting_time, current_schedule, primary_location, primary_building, registry)
    }

    /// A collaboration time: an hour drawn between 10 and 15 o'clock, the
    /// minute drawn in the hour.
    pub fn generate_collaboration_time(&mut self, day: i64) -> (t: Option<Timestamp>)
        requires
            day_in_range(day as int),
        ensures
            t matches Some(time) && at_one_of(time, day as int, seq![10int, 11, 12, 13, 14, 15], 59),
            final(self).wf() == old(self).wf(),
            final(self).daily_locations() == old(self).daily_locations(),
    {
        let hour = gen_range_inclusive(&mut self.rng, 10, 15);
        let minute = self.draw_minute(59);
        let t = Self::time_of_day(day, hour, minute);
        proof {
            let hours = seq![10int, 11, 12, 13, 14, 15];
            assert(hours[hour - 10] == hour);
        }
        Some(t)
    }

    /// A time for a curious user's try at a room: any working hour for a
    /// bold user (8 to 17 but noon), otherwise 8, 12, 13 or 17 o'clock; the
    /// minute drawn in the hour.
    pub fn generate_curious_access_time(&mut self, day: i64, bold: bool) -> (t: Option<Timestamp>)
        requires
            day_in_range(day as int),
        ensures
            t matches Some(time) && at_one_of(
                time,
                day as int,
                if bold { seq![8int, 9, 10, 11, 13, 14, 15, 16, 17] } else { seq![8int, 12, 13, 17] },
                59,
            ),
            final(self).wf() == old(self).wf(),
            final(self).daily_locations() == old(self).daily_locations(),
    {
        let hour: i64 = if bold {
            let k = gen_index(&mut self.rng, 9);
            if k < 4 { 8 + k as i64 } else { 9 + k as i64 }
        } else {
            let k = gen_index(&mut self.rng, 4);
            if k == 0 { 8 } else if k == 1 { 12 } else if k == 2 { 13 } else { 17 }
        };
        let minute = self.draw_minute(59);
        let t = Self::time_of_day(day, hour, minute);
        proof {
            if bold {
                let hours = seq![8int, 9, 10, 11, 13, 14, 15, 16, 17];
                if hour < 12 { assert(hours[hour - 8] == hour); } else { assert(hours[hour - 9] == hour); }
            } else {
                let hours = seq![8int, 12, 13, 17];
                if hour == 8 { assert(hours[0] == hour); }
                else if hour == 12 { assert(hours[1] == hour); }
                else if hour == 13 { assert(hours[2] == hour); }
                else { assert(hours[3] == hour); }
            }
        }
        Some(t)
    }

    /// Forget where users are held, as at the start of a new day.
    pub fn clear_daily_location_tracking(&mut self)
        ensures
            final(self).daily_locations() == Map::<u64, LocationId>::empty(),
            final(self).wf() == old(self).wf(),
    {
        self.user_daily_locations.clear();
    }
}

} // verus!
