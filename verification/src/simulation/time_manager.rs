//! The simulation clock, business hours and travel times between rooms.

use vstd::prelude::*;
use crate::time::{TimeDelta, Timestamp, gen_range_inclusive, in_range};
use crate::types::{BuildingId, LocationId, RoomId};

verus! {

/// The simulation clock. Simulated time runs at the pace of the wall clock:
/// the simulated time is the start plus the wall-clock time elapsed since.
#[derive(Clone, Debug)]
pub struct TimeManager {
    /// When the simulation started.
    pub simulation_start: Timestamp,
}

/// Whether an instant falls in business hours: 9:00 to 17:00 UTC, every day.
pub open spec fn is_business_hour(t: Timestamp) -> bool {
    9 <= t.spec_hour() < 17
}

/// How long it takes to go from one room to another: nothing for the same
/// room, 4 to 12 hours between locations, 2 to 10 minutes between buildings of
/// a location, and 30 seconds to 3 minutes within a building. The bounds are
/// in milliseconds.
pub open spec fn travel_time_bounds(
    from_room: Option<RoomId>,
    to_room: RoomId,
    from_building: BuildingId,
    to_building: BuildingId,
    from_location: LocationId,
    to_location: LocationId,
) -> (int, int) {
    if from_room == Some(to_room) {
        (0, 0)
    } else if from_location != to_location {
        (14_400_000, 43_200_000)
    } else if from_building != to_building {
        (120_000, 600_000)
    } else {
        (30_000, 180_000)
    }
}

impl TimeManager {
    /// The simulated time when the wall clock reads `now`.
    pub open spec fn spec_simulated_time_at(&self, now: Timestamp) -> Timestamp {
        Timestamp { millis: (self.simulation_start.millis + (now.millis - self.simulation_start.millis)) as i64 }
    }

    /// A clock starting now.
    pub fn new() -> (tm: Self)
        ensures
            in_range(tm.simulation_start.millis as int),
    {
        TimeManager { simulation_start: Timestamp::now() }
    }

    /// The simulated time when the wall clock reads `now`.
    pub fn simulated_time_at(&self, now: Timestamp) -> (t: Timestamp)
        requires
            in_range(self.simulation_start.millis as int),
            in_range(now.millis as int),
        ensures
            t == self.spec_simulated_time_at(now),
    {
        let elapsed = now.since(self.simulation_start);
        self.simulation_start.plus(elapsed)
    }

    /// The current simulated time, read from the wall clock.
    pub fn current_simulated_time(&self) -> (t: Timestamp)
        requires
            in_range(self.simulation_start.millis as int),
        ensures
            exists|now: Timestamp| in_range(now.millis as int) && t == self.spec_simulated_time_at(now),
    {
        let now = Timestamp::now();
        self.simulated_time_at(now)
    }

    /// Move the start back by `duration`.
    pub fn advance_by(&mut self, duration: TimeDelta)
        requires
            i64::MIN <= old(self).simulation_start.millis - duration.millis <= i64::MAX,
        ensures
            final(self).simulation_start.millis == old(self).simulation_start.millis - duration.millis,
    {
        self.simulation_start = Timestamp::from_millis(self.simulation_start.millis - duration.millis);
    }

    /// Whether an instant falls in business hours: 9:00 to 17:00 UTC, every day.
    pub fn is_business_hours(&self, timestamp: Timestamp) -> (b: bool)
        ensures
            b == is_business_hour(timestamp),
    {
        let hour = timestamp.hour();
        9 <= hour && hour < 17
    }

    /// A random travel time between two rooms, within `travel_time_bounds`;
    /// hours, minutes and seconds are drawn as whole units.
    pub fn calculate_travel_time(
        &self,
        from_room: Option<RoomId>,
        to_room: RoomId,
        from_building: BuildingId,
        to_building: BuildingId,
        from_location: LocationId,
        to_location: LocationId,
        rng: &mut rand::rngs::ThreadRng,
    ) -> (d: TimeDelta)
        ensures
            travel_time_bounds(from_room, to_room, from_building, to_building, from_location, to_location).0
                <= d.millis <= travel_time_bounds(from_room, to_room, from_building, to_building, from_location, to_location).1,
            from_room == Some(to_room) ==> d.millis == 0,
            from_room != Some(to_room) && from_location != to_location ==> d.millis % 3_600_000 == 0,
            from_room != Some(to_room) && from_location == to_location && from_building != to_building ==> d.millis % 60_000 == 0,
            from_room != Some(to_room) && from_location == to_location && from_building == to_building ==> d.millis % 1000 == 0,
    {
        if let Some(from) = from_room {
            if from == to_room {
                return TimeDelta::zero();
            }
        }
        if from_location != to_location {
            let hours = gen_range_inclusive(rng, 4, 12);
            return TimeDelta::hours(hours);
        }
        if from_building != to_building {
            let minutes = gen_range_inclusive(rng, 2, 10);
            return TimeDelta::minutes(minutes);
        }
        let seconds = gen_range_inclusive(rng, 30, 180);
        TimeDelta::seconds(seconds)
    }
}

impl Default for TimeManager {
    /// A clock starting now.
    fn default() -> (tm: Self)
        ensures
            in_range(tm.simulation_start.millis as int),
    {
        TimeManager::new()
    }
}

} // verus!
