//! Locations: their buildings, and access flows and travel times across them.

use vstd::prelude::*;
use vstd::string::StringExecFns;
use crate::facility::building::{room_position, 
    Building, building_access_error, building_access_sequence, building_validation,
    checkpoint_lists_bounded, find_room, has_room, sequence_time_bounds,
};
use crate::facility::room::{Room, room_type_is, security_level_is, high_security, needs_checkpoints};
use crate::permissions::access_flow::AccessFlow;
use crate::search::{any_where, find_where, first_where, is_first_where, lemma_first_where, lemma_first_where_is};
use crate::simulation::time_manager::{TimeManager, travel_time_bounds};
use crate::text::decimal;
use crate::time::{TimeDelta, gen_range_inclusive};
use crate::types::{BuildingId, LocationId, RoomId, RoomType, SecurityLevel};

verus! {

/// A geographical location holding buildings.
#[derive(Clone, Debug)]
pub struct Location {
    /// Identifier of the location.
    pub id: LocationId,
    /// Human-readable name.
    pub name: String,
    /// Buildings at the location, in the order they were added.
    pub buildings: Vec<Building>,
    /// Geographical coordinates.
    pub coordinates: Coordinates,
}

/// Latitude and longitude in degrees, each held as the bit pattern of an
/// IEEE-754 double (`f64::to_bits`); distances are computed from them outside
/// this library.
#[derive(Clone, Copy, Debug, PartialEq, Eq, Structural)]
pub struct Coordinates {
    /// Bits of the latitude.
    pub latitude_bits: u64,
    /// Bits of the longitude.
    pub longitude_bits: u64,
}

/// The predicate "is the building with this identifier".
pub open spec fn building_is(id: BuildingId) -> spec_fn(Building) -> bool {
    |b: Building| b.id == id
}

/// The predicate "holds a room with this identifier".
pub open spec fn building_holds(room: RoomId) -> spec_fn(Building) -> bool {
    |b: Building| has_room(b.rooms@, room)
}

/// The first building with the identifier.
pub open spec fn find_building(buildings: Seq<Building>, id: BuildingId) -> Option<Building> {
    find_where(buildings, building_is(id))
}

/// The first building that holds the room.
pub open spec fn building_for_room(buildings: Seq<Building>, room: RoomId) -> Option<Building> {
    find_where(buildings, building_holds(room))
}

/// The room with the identifier in the first building that holds it.
pub open spec fn location_room(buildings: Seq<Building>, room: RoomId) -> Option<Room> {
    match building_for_room(buildings, room) {
        Some(b) => find_room(b.rooms@, room),
        None => None,
    }
}

/// The rooms of every building that satisfy `p`, building after building.
pub open spec fn rooms_where(buildings: Seq<Building>, p: spec_fn(Room) -> bool) -> Seq<Room>
    decreases buildings.len(),
{
    if buildings.len() == 0 {
        Seq::empty()
    } else {
        rooms_where(buildings.drop_last(), p) + buildings.last().rooms@.filter(p)
    }
}

/// The identifiers of the rooms of every building, building after building.
pub open spec fn room_ids(buildings: Seq<Building>) -> Seq<RoomId>
    decreases buildings.len(),
{
    if buildings.len() == 0 {
        Seq::empty()
    } else {
        room_ids(buildings.drop_last()) + buildings.last().rooms@.map_values(|r: Room| r.id)
    }
}

/// The number of rooms over all buildings.
pub open spec fn total_rooms(buildings: Seq<Building>) -> int
    decreases buildings.len(),
{
    if buildings.len() == 0 {
        0
    } else {
        total_rooms(buildings.drop_last()) + buildings.last().rooms@.len()
    }
}

/// The predicate "has a high-security room".
pub open spec fn has_high_security_room() -> spec_fn(Building) -> bool {
    |b: Building| b.rooms@.filter(high_security()).len() > 0
}

/// Whether every building lists bounded checkpoint lists.
pub open spec fn all_checkpoint_lists_bounded(buildings: Seq<Building>) -> bool {
    forall|i: int| 0 <= i < buildings.len() ==> checkpoint_lists_bounded((#[trigger] buildings[i]).rooms@)
}

/// Whether `i` is the first building that fails validation or claims another location.
pub open spec fn is_first_bad_building(l: Location, i: int) -> bool {
    &&& 0 <= i < l.buildings@.len()
    &&& (building_validation(l.buildings@[i]) is Err || l.buildings@[i].location_id != l.id)
    &&& forall|j: int| 0 <= j < i ==> building_validation(#[trigger] l.buildings@[j]) is Ok && l.buildings@[j].location_id == l.id
}

/// The outcome of validating a location: it needs a building, and each
/// building must be valid and claim the location; the first failure is reported.
pub open spec fn location_validation(l: Location) -> Result<(), Seq<char>> {
    if l.buildings@.len() == 0 {
        Err("Location must have at least one building"@)
    } else if exists|i: int| is_first_bad_building(l, i) {
        let i = choose|i: int| is_first_bad_building(l, i);
        let b = l.buildings@[i];
        match building_validation(b) {
            Err(e) => Err("Building "@ + decimal(b.id.value as nat) + " validation failed: "@ + e),
            Ok(_) => Err("Building "@ + decimal(b.id.value as nat) + " does not belong to location "@
                + decimal(l.id.value as nat)),
        }
    } else {
        Ok(())
    }
}

/// Extra time to reach the target building at a location, in
/// milliseconds: 2 to 10 minutes from another building, 5 to 15 minutes from
/// outside the location.
pub open spec fn approach_bounds(from: Option<RoomId>) -> (int, int) {
    if from.is_some() {
        (120_000, 600_000)
    } else {
        (300_000, 900_000)
    }
}

/// Whether the flow to `to_room` stays within one building: the start is a
/// room of the same building as the target.
pub open spec fn same_building_start(buildings: Seq<Building>, from: Option<RoomId>, to_room: RoomId) -> bool {
    match from {
        Some(f) => match (building_for_room(buildings, f), building_for_room(buildings, to_room)) {
            (Some(fb), Some(tb)) => fb.id == tb.id,
            _ => false,
        },
        None => false,
    }
}

/// The access flow to `to_room` within the location, as in `Location::get_access_flow`.
pub open spec fn location_flow_ok(l: Location, from: Option<RoomId>, to_room: RoomId, flow: AccessFlow) -> bool {
    match building_for_room(l.buildings@, to_room) {
        None => false,
        Some(tb) => {
            let inner_from = if same_building_start(l.buildings@, from, to_room) { from } else { None };
            match building_access_sequence(tb, inner_from, to_room) {
                None => false,
                Some(spec) => {
                    let base = sequence_time_bounds(inner_from, spec.0, spec.0.len() as int);
                    let extra = if same_building_start(l.buildings@, from, to_room) { (0, 0) } else { approach_bounds(from) };
                    &&& flow.required_sequence@ == spec.0
                    &&& flow.requires_lobby_access == spec.1
                    &&& flow.involves_high_security == spec.2
                    &&& base.0 + extra.0 <= flow.estimated_travel_time.millis <= base.1 + extra.1
                },
            }
        },
    }
}

/// Why an access flow within the location fails.
pub open spec fn location_flow_error(l: Location, from: Option<RoomId>, to_room: RoomId) -> Option<Seq<char>> {
    match building_for_room(l.buildings@, to_room) {
        None => Some("Target room "@ + decimal(to_room.value as nat) + " not found in location "@
            + decimal(l.id.value as nat)),
        Some(tb) => {
            let inner_from = if same_building_start(l.buildings@, from, to_room) { from } else { None };
            if building_access_sequence(tb, inner_from, to_room).is_none() {
                Some(building_access_error(tb, to_room))
            } else {
                None
            }
        },
    }
}

impl Location {
    /// Whether some building has the identifier.
    pub open spec fn spec_contains_building(&self, id: BuildingId) -> bool {
        any_where(self.buildings@, building_is(id))
    }

    /// Whether some building holds the room.
    pub open spec fn spec_contains_room(&self, room: RoomId) -> bool {
        any_where(self.buildings@, building_holds(room))
    }

    /// A location with a fresh identifier and no buildings.
    pub fn new(name: String, coordinates: Coordinates) -> (l: Self)
        ensures
            l.name@ == name@,
            l.buildings@ == Seq::<Building>::empty(),
            l.coordinates == coordinates,
    {
        Location { id: LocationId::new(), name, buildings: Vec::new(), coordinates }
    }

    /// Add a building, making it belong to this location.
    pub fn add_building(&mut self, building: Building)
        ensures
            final(self).id == old(self).id,
            final(self).name == old(self).name,
            final(self).coordinates == old(self).coordinates,
            final(self).buildings@ == old(self).buildings@.push(Building { location_id: old(self).id, ..building }),
    {
        let mut building = building;
        building.location_id = self.id;
        self.buildings.push(building);
    }

    /// The first position of a building with the identifier.
    fn building_position(&self, building_id: BuildingId) -> (p: Option<usize>)
        ensures
            match p {
                Some(i) => is_first_where(self.buildings@, building_is(building_id), i as int),
                None => !any_where(self.buildings@, building_is(building_id)),
            },
    {
        let mut i: usize = 0;
        while i < self.buildings.len()
            invariant
                i <= self.buildings@.len(),
                forall|j: int| 0 <= j < i ==> !building_is(building_id)(#[trigger] self.buildings@[j]),
            decreases self.buildings.len() - i,
        {
            if self.buildings[i].id == building_id {
                return Some(i);
            }
            i = i + 1;
        }
        None
    }

    /// The first position of a building that holds the room.
    fn room_building_position(&self, room_id: RoomId) -> (p: Option<usize>)
        ensures
            match p {
                Some(i) => is_first_where(self.buildings@, building_holds(room_id), i as int),
                None => !any_where(self.buildings@, building_holds(room_id)),
            },
    {
        let mut i: usize = 0;
        while i < self.buildings.len()
            invariant
                i <= self.buildings@.len(),
                forall|j: int| 0 <= j < i ==> !building_holds(room_id)(#[trigger] self.buildings@[j]),
            decreases self.buildings.len() - i,
        {
            if self.buildings[i].contains_room(room_id) {
                return Some(i);
            }
            i = i + 1;
        }
        None
    }

    /// Remove the first building with the identifier.
    pub fn remove_building(&mut self, building_id: BuildingId) -> (removed: Option<Building>)
        ensures
            final(self).id == old(self).id,
            final(self).name == old(self).name,
            final(self).coordinates == old(self).coordinates,
            match removed {
                Some(b) => {
                    &&& find_building(old(self).buildings@, building_id) == Some(b)
                    &&& final(self).buildings@ == old(self).buildings@.remove(
                        first_where(old(self).buildings@, building_is(building_id)),
                    )
                },
                None => {
                    &&& find_building(old(self).buildings@, building_id).is_none()
                    &&& final(self).buildings@ == old(self).buildings@
                },
            },
    {
        match self.building_position(building_id) {
            Some(pos) => {
                proof { lemma_first_where_is(self.buildings@, building_is(building_id), pos as int); }
                Some(self.buildings.remove(pos))
            },
            None => None,
        }
    }

    /// The first building with the identifier.
    pub fn get_building(&self, building_id: BuildingId) -> (b: Option<&Building>)
        ensures
            match b {
                Some(bb) => find_building(self.buildings@, building_id) == Some(*bb),
                None => find_building(self.buildings@, building_id).is_none(),
            },
    {
        match self.building_position(building_id) {
            Some(pos) => {
                proof { lemma_first_where_is(self.buildings@, building_is(building_id), pos as int); }
                Some(&self.buildings[pos])
            },
            None => None,
        }
    }

    /// The first building with the identifier, to be modified in place.
    pub fn get_building_mut(&mut self, building_id: BuildingId) -> (b: Option<&mut Building>)
        ensures
            final(self).id == old(self).id,
            final(self).name == old(self).name,
            final(self).coordinates == old(self).coordinates,
            match b {
                Some(bb) => {
                    &&& find_building(old(self).buildings@, building_id) == Some(*bb)
                    &&& final(self).buildings@ == old(self).buildings@.update(
                        first_where(old(self).buildings@, building_is(building_id)),
                        *final(bb),
                    )
                },
                None => {
                    &&& find_building(old(self).buildings@, building_id).is_none()
                    &&& final(self).buildings@ == old(self).buildings@
                },
            },
    {
        match self.building_position(building_id) {
            Some(pos) => {
                proof { lemma_first_where_is(self.buildings@, building_is(building_id), pos as int); }
                Some(&mut self.buildings[pos])
            },
            None => None,
        }
    }

    /// The room with the identifier, in the first building that holds it.
    pub fn get_room(&self, room_id: RoomId) -> (r: Option<&Room>)
        ensures
            match r {
                Some(room) => location_room(self.buildings@, room_id) == Some(*room),
                None => location_room(self.buildings@, room_id).is_none(),
            },
    {
        match self.room_building_position(room_id) {
            Some(pos) => {
                proof { lemma_first_where_is(self.buildings@, building_holds(room_id), pos as int); }
                self.buildings[pos].get_room(room_id)
            },
            None => None,
        }
    }

    /// The room with the identifier, in the first building that holds it,
    /// to be modified in place.
    pub fn get_room_mut(&mut self, room_id: RoomId) -> (r: Option<&mut Room>)
        ensures
            final(self).id == old(self).id,
            final(self).name == old(self).name,
            final(self).coordinates == old(self).coordinates,
            match r {
                Some(room) => {
                    &&& location_room(old(self).buildings@, room_id) == Some(*room)
                    &&& final(self).buildings@.len() == old(self).buildings@.len()
                    &&& forall|j: int| 0 <= j < old(self).buildings@.len()
                        && j != first_where(old(self).buildings@, building_holds(room_id))
                        ==> #[trigger] final(self).buildings@[j] == old(self).buildings@[j]
                    &&& ({
                        let bi = first_where(old(self).buildings@, building_holds(room_id));
                        let ob = old(self).buildings@[bi];
                        let nb = final(self).buildings@[bi];
                        &&& nb.id == ob.id
                        &&& nb.location_id == ob.location_id
                        &&& nb.name == ob.name
                        &&& nb.lobby_room_id == ob.lobby_room_id
                        &&& nb.rooms@ == ob.rooms@.update(room_position(ob.rooms@, room_id), *final(room))
                    })
                },
                None => {
                    &&& location_room(old(self).buildings@, room_id).is_none()
                    &&& final(self).buildings@ == old(self).buildings@
                },
            },
    {
        match self.room_building_position(room_id) {
            Some(pos) => {
                proof { lemma_first_where_is(self.buildings@, building_holds(room_id), pos as int); }
                self.buildings[pos].get_room_mut(room_id)
            },
            None => None,
        }
    }

    /// The first building that holds the room.
    pub fn find_building_for_room(&self, room_id: RoomId) -> (b: Option<&Building>)
        ensures
            match b {
                Some(bb) => building_for_room(self.buildings@, room_id) == Some(*bb),
                None => building_for_room(self.buildings@, room_id).is_none(),
            },
    {
        match self.room_building_position(room_id) {
            Some(pos) => {
                proof { lemma_first_where_is(self.buildings@, building_holds(room_id), pos as int); }
                Some(&self.buildings[pos])
            },
            None => None,
        }
    }

    /// Number of buildings.
    pub fn building_count(&self) -> (n: usize)
        ensures
            n == self.buildings@.len(),
    {
        self.buildings.len()
    }

    /// Whether some building has the identifier.
    pub fn contains_building(&self, building_id: BuildingId) -> (b: bool)
        ensures
            b == self.spec_contains_building(building_id),
    {
        self.building_position(building_id).is_some()
    }

    /// Whether some building holds the room.
    pub fn contains_room(&self, room_id: RoomId) -> (b: bool)
        ensures
            b == self.spec_contains_room(room_id),
    {
        self.room_building_position(room_id).is_some()
    }

    /// The identifiers of the buildings, in order.
    pub fn get_all_building_ids(&self) -> (ids: Vec<BuildingId>)
        ensures
            ids@ == self.buildings@.map_values(|b: Building| b.id),
    {
        let mut out: Vec<BuildingId> = Vec::new();
        let mut i: usize = 0;
        while i < self.buildings.len()
            invariant
                i <= self.buildings@.len(),
                out@ == self.buildings@.take(i as int).map_values(|b: Building| b.id),
            decreases self.buildings.len() - i,
        {
            out.push(self.buildings[i].id);
            i = i + 1;
            assert(out@ =~= self.buildings@.take(i as int).map_values(|b: Building| b.id));
        }
        assert(self.buildings@.take(i as int) =~= self.buildings@);
        out
    }

    /// Whether both rooms are held, and the first buildings holding them have
    /// the same identifier.
    pub fn are_rooms_in_same_building(&self, room1: RoomId, room2: RoomId) -> (b: bool)
        ensures
            b == match (building_for_room(self.buildings@, room1), building_for_room(self.buildings@, room2)) {
                (Some(b1), Some(b2)) => b1.id == b2.id,
                _ => false,
            },
    {
        match (self.find_building_for_room(room1), self.find_building_for_room(room2)) {
            (Some(b1), Some(b2)) => b1.id == b2.id,
            _ => false,
        }
    }
}

/// Unfolding the spec functions over buildings at a prefix of length `i + 1`.
proof fn lemma_prefix_step(buildings: Seq<Building>, i: int, p: spec_fn(Room) -> bool)
    requires
        0 <= i < buildings.len(),
    ensures
        rooms_where(buildings.take(i + 1), p) == rooms_where(buildings.take(i), p) + buildings[i].rooms@.filter(p),
        room_ids(buildings.take(i + 1)) == room_ids(buildings.take(i)) + buildings[i].rooms@.map_values(|r: Room| r.id),
        total_rooms(buildings.take(i + 1)) == total_rooms(buildings.take(i)) + buildings[i].rooms@.len(),
{
    assert(buildings.take(i + 1).drop_last() =~= buildings.take(i));
    assert(buildings.take(i + 1).last() == buildings[i]);
}

/// The number of rooms over a prefix of the buildings never exceeds the total.
proof fn lemma_total_rooms_prefix(buildings: Seq<Building>, i: int)
    requires
        0 <= i <= buildings.len(),
    ensures
        0 <= total_rooms(buildings.take(i)) <= total_rooms(buildings),
    decreases buildings.len() - i,
{
    if i < buildings.len() {
        lemma_prefix_step(buildings, i, high_security());
        lemma_total_rooms_prefix(buildings, i + 1);
        lemma_total_rooms_nonneg(buildings.take(i));
    } else {
        assert(buildings.take(i) =~= buildings);
        lemma_total_rooms_nonneg(buildings);
    }
}

proof fn lemma_total_rooms_nonneg(buildings: Seq<Building>)
    ensures
        total_rooms(buildings) >= 0,
    decreases buildings.len(),
{
    if buildings.len() > 0 {
        lemma_total_rooms_nonneg(buildings.drop_last());
    }
}

impl Location {
    /// The rooms of the given kind, building after building.
    pub fn get_rooms_by_type(&self, room_type: RoomType) -> (rooms: Vec<&Room>)
        ensures
            rooms@.map_values(|r: &Room| *r) == rooms_where(self.buildings@, room_type_is(room_type)),
    {
        let mut out: Vec<&Room> = Vec::new();
        let mut i: usize = 0;
        while i < self.buildings.len()
            invariant
                i <= self.buildings@.len(),
                out@.map_values(|r: &Room| *r) == rooms_where(self.buildings@.take(i as int), room_type_is(room_type)),
            decreases self.buildings.len() - i,
        {
            proof { lemma_prefix_step(self.buildings@, i as int, room_type_is(room_type)); }
            let mut part = self.buildings[i].get_rooms_by_type(room_type);
            let ghost before = out@;
            let ghost added = part@;
            out.append(&mut part);
            assert(out@.map_values(|r: &Room| *r) =~= before.map_values(|r: &Room| *r) + added.map_values(|r: &Room| *r));
            i = i + 1;
        }
        assert(self.buildings@.take(i as int) =~= self.buildings@);
        out
    }

    /// The rooms of the given security level, building after building.
    pub fn get_rooms_by_security_level(&self, security_level: SecurityLevel) -> (rooms: Vec<&Room>)
        ensures
            rooms@.map_values(|r: &Room| *r) == rooms_where(self.buildings@, security_level_is(security_level)),
    {
        let mut out: Vec<&Room> = Vec::new();
        let mut i: usize = 0;
        while i < self.buildings.len()
            invariant
                i <= self.buildings@.len(),
                out@.map_values(|r: &Room| *r) == rooms_where(self.buildings@.take(i as int), security_level_is(security_level)),
            decreases self.buildings.len() - i,
        {
            proof { lemma_prefix_step(self.buildings@, i as int, security_level_is(security_level)); }
            let mut part = self.buildings[i].get_rooms_by_security_level(security_level);
            let ghost before = out@;
            let ghost added = part@;
            out.append(&mut part);
            assert(out@.map_values(|r: &Room| *r) =~= before.map_values(|r: &Room| *r) + added.map_values(|r: &Room| *r));
            i = i + 1;
        }
        assert(self.buildings@.take(i as int) =~= self.buildings@);
        out
    }

    /// The rooms that require checkpoints, building after building.
    pub fn get_rooms_requiring_intermediate_access(&self) -> (rooms: Vec<&Room>)
        ensures
            rooms@.map_values(|r: &Room| *r) == rooms_where(self.buildings@, needs_checkpoints()),
    {
        let ghost p = needs_checkpoints();
        let mut out: Vec<&Room> = Vec::new();
        let mut i: usize = 0;
        while i < self.buildings.len()
            invariant
                i <= self.buildings@.len(),
                p == needs_checkpoints(),
                out@.map_values(|r: &Room| *r) == rooms_where(self.buildings@.take(i as int), p),
            decreases self.buildings.len() - i,
        {
            proof { lemma_prefix_step(self.buildings@, i as int, p); }
            let building = &self.buildings[i];
            let ghost before = out@.map_values(|r: &Room| *r);
            let mut k: usize = 0;
            while k < building.rooms.len()
                invariant
                    k <= building.rooms@.len(),
                    p == needs_checkpoints(),
                    out@.map_values(|r: &Room| *r) == before + building.rooms@.take(k as int).filter(p),
                decreases building.rooms.len() - k,
            {
                let room = &building.rooms[k];
                proof {
                    let s = building.rooms@;
                    assert(s.take(k as int + 1) =~= s.take(k as int).push(*room));
                    s.take(k as int).lemma_filter_push(*room, p);
                }
                if room.requires_intermediate_access() {
                    let ghost prev = out@;
                    out.push(room);
                    assert(out@.map_values(|r: &Room| *r) =~= prev.map_values(|r: &Room| *r).push(*room));
                }
                k = k + 1;
            }
            assert(building.rooms@.take(k as int) =~= building.rooms@);
            i = i + 1;
        }
        assert(self.buildings@.take(i as int) =~= self.buildings@);
        out
    }

    /// The identifiers of all rooms, building after building.
    pub fn get_all_room_ids(&self) -> (ids: Vec<RoomId>)
        ensures
            ids@ == room_ids(self.buildings@),
    {
        let mut out: Vec<RoomId> = Vec::new();
        let mut i: usize = 0;
        while i < self.buildings.len()
            invariant
                i <= self.buildings@.len(),
                out@ == room_ids(self.buildings@.take(i as int)),
            decreases self.buildings.len() - i,
        {
            proof { lemma_prefix_step(self.buildings@, i as int, high_security()); }
            let mut part = self.buildings[i].get_all_room_ids();
            out.append(&mut part);
            i = i + 1;
        }
        assert(self.buildings@.take(i as int) =~= self.buildings@);
        out
    }

    /// Number of rooms over all buildings.
    pub fn total_room_count(&self) -> (n: usize)
        requires
            total_rooms(self.buildings@) <= usize::MAX,
        ensures
            n == total_rooms(self.buildings@),
    {
        let mut total: usize = 0;
        let mut i: usize = 0;
        while i < self.buildings.len()
            invariant
                i <= self.buildings@.len(),
                total_rooms(self.buildings@) <= usize::MAX,
                total == total_rooms(self.buildings@.take(i as int)),
            decreases self.buildings.len() - i,
        {
            proof {
                lemma_prefix_step(self.buildings@, i as int, high_security());
                lemma_total_rooms_prefix(self.buildings@, i as int + 1);
            }
            total = total + self.buildings[i].room_count();
            i = i + 1;
        }
        assert(self.buildings@.take(i as int) =~= self.buildings@);
        total
    }

    /// The buildings that hold a high-security room, in order.
    pub fn get_buildings_with_high_security(&self) -> (buildings: Vec<&Building>)
        ensures
            buildings@.map_values(|b: &Building| *b) == self.buildings@.filter(has_high_security_room()),
    {
        let ghost pred = has_high_security_room();
        let mut out: Vec<&Building> = Vec::new();
        let mut i: usize = 0;
        while i < self.buildings.len()
            invariant
                i <= self.buildings@.len(),
                pred == has_high_security_room(),
                out@.map_values(|b: &Building| *b) == self.buildings@.take(i as int).filter(pred),
            decreases self.buildings.len() - i,
        {
            let building = &self.buildings[i];
            proof {
                let s = self.buildings@;
                assert(s.take(i as int + 1) =~= s.take(i as int).push(*building));
                s.take(i as int).lemma_filter_push(*building, pred);
            }
            let high = building.get_high_security_rooms();
            proof {
                assert(high@.map_values(|r: &Room| *r).len() == high@.len());
            }
            if high.len() > 0 {
                let ghost before = out@;
                out.push(building);
                assert(out@.map_values(|b: &Building| *b) =~= before.map_values(|b: &Building| *b).push(*building));
            }
            i = i + 1;
        }
        assert(self.buildings@.take(i as int) =~= self.buildings@);
        out
    }

    /// Check that the location has buildings, each valid and belonging to it.
    pub fn validate(&self) -> (r: Result<(), String>)
        ensures
            match r {
                Ok(()) => location_validation(*self) == Ok::<(), Seq<char>>(()),
                Err(e) => location_validation(*self) == Err::<(), Seq<char>>(e@),
            },
    {
        if self.buildings.len() == 0 {
            return Err(String::from_str("Location must have at least one building"));
        }
        let mut i: usize = 0;
        while i < self.buildings.len()
            invariant
                i <= self.buildings@.len(),
                self.buildings@.len() > 0,
                forall|j: int| 0 <= j < i ==> building_validation(#[trigger] self.buildings@[j]) is Ok
                    && self.buildings@[j].location_id == self.id,
            decreases self.buildings.len() - i,
        {
            let building = &self.buildings[i];
            let checked = building.validate();
            let bad = checked.is_err() || building.location_id != self.id;
            if bad {
                proof {
                    assert(is_first_bad_building(*self, i as int));
                    let k = choose|k: int| is_first_bad_building(*self, k);
                    if k < i {
                        assert(building_validation(self.buildings@[k]) is Ok && self.buildings@[k].location_id == self.id);
                    } else if i < k {
                        assert(building_validation(self.buildings@[i as int]) is Ok && self.buildings@[i as int].location_id == self.id);
                    }
                }
                let mut msg = String::from_str("Building ");
                let bid = building.id.to_display_string();
                msg.append(bid.as_str());
                match checked {
                    Err(e) => {
                        msg.append(" validation failed: ");
                        msg.append(e.as_str());
                    },
                    Ok(()) => {
                        msg.append(" does not belong to location ");
                        let lid = self.id.to_display_string();
                        msg.append(lid.as_str());
                    },
                }
                return Err(msg);
            }
            i = i + 1;
        }
        proof {
            assert(!exists|k: int| is_first_bad_building(*self, k));
        }
        Ok(())
    }
}

/// A flow within a location whose checkpoint lists are bounded takes at
/// most 2^58 milliseconds, and no negative time.
pub proof fn lemma_location_flow_bounded(l: Location, from: Option<RoomId>, to_room: RoomId, flow: AccessFlow)
    requires
        all_checkpoint_lists_bounded(l.buildings@),
        location_flow_ok(l, from, to_room, flow),
    ensures
        0 <= flow.estimated_travel_time.millis <= 0x400_0000_0000_0000,
{
    let p = building_holds(to_room);
    lemma_first_where(l.buildings@, p);
    let k = first_where(l.buildings@, p);
    let tb = l.buildings@[k];
    assert(checkpoint_lists_bounded(tb.rooms@));
    let same = same_building_start(l.buildings@, from, to_room);
    let inner_from = if same { from } else { None };
    let spec = building_access_sequence(tb, inner_from, to_room).unwrap();
    crate::facility::building::lemma_room_position(tb.rooms@, to_room);
    let ri = crate::facility::building::room_position(tb.rooms@, to_room);
    let target = tb.rooms@[ri];
    let needs_lobby = match inner_from {
        None => true,
        Some(f) => !has_room(tb.rooms@, f),
    };
    let start = if needs_lobby { seq![tb.lobby_room_id.unwrap()] } else { Seq::<RoomId>::empty() };
    crate::facility::building::lemma_checkpoint_walk_len(
        tb.rooms@,
        start,
        target.spec_is_high_security(),
        target.required_intermediate_access@,
    );
    let n = spec.0.len() as int;
    assert(n <= 0x100_0000_0002);
    crate::facility::building::lemma_sequence_time_bounds(inner_from, spec.0, n);
    assert(195_000 * n <= 195_000 * 0x100_0000_0002) by (nonlinear_arith)
        requires
            0 <= n <= 0x100_0000_0002,
    ;
}

/// The travel time between two rooms of the location, in milliseconds, as
/// `Location::calculate_travel_time` draws it: between the rooms' buildings
/// when both are held, 5 to 15 minutes when entering from outside, and
/// exactly 5 minutes when the destination is not held.
pub open spec fn location_travel_bounds(l: Location, from: Option<RoomId>, to_room: RoomId) -> (int, int) {
    let from_b = match from {
        Some(f) => building_for_room(l.buildings@, f),
        None => None,
    };
    match building_for_room(l.buildings@, to_room) {
        Some(tb) => match from_b {
            Some(fb) => travel_time_bounds(from, to_room, fb.id, tb.id, l.id, l.id),
            None => (300_000, 900_000),
        },
        None => (300_000, 300_000),
    }
}

impl Location {
    /// The access flow to `to_room`: within one building when starting from
    /// a room of the target's building, otherwise through the target
    /// building's lobby, with 2 to 10 extra minutes from another building or
    /// 5 to 15 from outside the location.
    pub fn get_access_flow(
        &self,
        from_room: Option<RoomId>,
        to_room: RoomId,
        time_manager: &TimeManager,
        rng: &mut rand::rngs::ThreadRng,
    ) -> (r: Result<AccessFlow, String>)
        requires
            all_checkpoint_lists_bounded(self.buildings@),
        ensures
            match r {
                Ok(flow) => location_flow_ok(*self, from_room, to_room, flow),
                Err(e) => location_flow_error(*self, from_room, to_room) == Some(e@),
            },
    {
        let target_building = match self.find_building_for_room(to_room) {
            Some(b) => b,
            None => {
                let mut msg = String::from_str("Target room ");
                let rid = to_room.to_display_string();
                msg.append(rid.as_str());
                msg.append(" not found in location ");
                let lid = self.id.to_display_string();
                msg.append(lid.as_str());
                return Err(msg);
            },
        };
        proof {
            lemma_first_where(self.buildings@, building_holds(to_room));
            let k = first_where(self.buildings@, building_holds(to_room));
            assert(self.buildings@[k] == *target_building);
            assert(checkpoint_lists_bounded(self.buildings@[k].rooms@));
        }
        let same = match from_room {
            Some(f) => match self.find_building_for_room(f) {
                Some(fb) => fb.id == target_building.id,
                None => false,
            },
            None => false,
        };
        if same {
            return target_building.get_access_flow(from_room, to_room, time_manager, rng);
        }
        let inner = target_building.get_access_flow(None, to_room, time_manager, rng);
        let flow = match inner {
            Ok(f) => f,
            Err(e) => return Err(e),
        };
        let extra_minutes = if from_room.is_some() {
            gen_range_inclusive(rng, 2, 10)
        } else {
            gen_range_inclusive(rng, 5, 15)
        };
        let extra = TimeDelta::minutes(extra_minutes);
        proof {
            let spec = building_access_sequence(*target_building, None, to_room).unwrap();
            crate::facility::building::lemma_sequence_time_bounds(None, spec.0, spec.0.len() as int);
            crate::facility::building::lemma_checkpoint_walk_len(
                target_building.rooms@,
                if target_building.lobby_room_id.is_some() { seq![target_building.lobby_room_id.unwrap()] } else { Seq::empty() },
                find_room(target_building.rooms@, to_room).unwrap().spec_is_high_security(),
                find_room(target_building.rooms@, to_room).unwrap().required_intermediate_access@,
            );
            crate::facility::building::lemma_room_position(target_building.rooms@, to_room);
        }
        let total = flow.estimated_travel_time.plus(extra);
        Ok(AccessFlow::new(flow.required_sequence, total, flow.requires_lobby_access, flow.involves_high_security))
    }

    /// A random travel time between two rooms of the location, within
    /// `location_travel_bounds`.
    pub fn calculate_travel_time(
        &self,
        from_room: Option<RoomId>,
        to_room: RoomId,
        time_manager: &TimeManager,
        rng: &mut rand::rngs::ThreadRng,
    ) -> (d: TimeDelta)
        ensures
            location_travel_bounds(*self, from_room, to_room).0 <= d.millis
                <= location_travel_bounds(*self, from_room, to_room).1,
    {
        let from_building = match from_room {
            Some(f) => self.find_building_for_room(f),
            None => None,
        };
        match self.find_building_for_room(to_room) {
            Some(to_bldg) => match from_building {
                Some(from_bldg) => time_manager.calculate_travel_time(
                    from_room,
                    to_room,
                    from_bldg.id,
                    to_bldg.id,
                    self.id,
                    self.id,
                    rng,
                ),
                None => {
                    let minutes = gen_range_inclusive(rng, 5, 15);
                    TimeDelta::minutes(minutes)
                },
            },
            None => TimeDelta::minutes(5),
        }
    }
}

} // verus!
