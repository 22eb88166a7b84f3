//! The registry of all locations, with indices from identifiers to positions.

use std::collections::HashMap;
use vstd::prelude::*;
use vstd::string::StringExecFns;
use crate::facility::building::{Building, checkpoint_lists_bounded};
use crate::facility::location::{
    Location, all_checkpoint_lists_bounded, lemma_location_flow_bounded, location_flow_error, location_flow_ok,
    location_travel_bounds, location_validation, total_rooms,
};
use crate::permissions::access_flow::AccessFlow;
use crate::permissions::permission_set::PermissionSet;
use crate::simulation::time_manager::{TimeManager, travel_time_bounds};
use crate::time::{TimeDelta, gen_range_inclusive};
use crate::facility::room::{Room, high_security, needs_checkpoints, not_lobby};
use crate::text::decimal;
use crate::types::{BuildingId, LocationId, RoomId};

verus! {

broadcast use vstd::std_specs::hash::group_hash_axioms;

/// All locations of a simulation, with indices from identifiers to the
/// position of the location, building and room that carries them.
#[derive(Clone, Debug)]
pub struct LocationRegistry {
    /// All locations, in the order they were added.
    pub locations: Vec<Location>,
    /// Location identifier to location position.
    location_index: HashMap<u64, usize>,
    /// Building identifier to (location position, building position).
    building_index: HashMap<u64, (usize, usize)>,
    /// Room identifier to (location, building, room) positions.
    room_index: HashMap<u64, (usize, usize, usize)>,
}

/// `m` with an entry for each room of `rooms`, in order, pointing at
/// `(li, bi, position)`; a later room overrides an earlier one with the same identifier.
pub open spec fn insert_rooms(m: Map<u64, (usize, usize, usize)>, rooms: Seq<Room>, li: int, bi: int) -> Map<u64, (usize, usize, usize)>
    decreases rooms.len(),
{
    if rooms.len() == 0 {
        m
    } else {
        insert_rooms(m, rooms.drop_last(), li, bi).insert(
            rooms.last().id.value,
            (li as usize, bi as usize, (rooms.len() - 1) as usize),
        )
    }
}

/// `m` with an entry for each room of each building of a location at position `li`.
pub open spec fn insert_location_rooms(m: Map<u64, (usize, usize, usize)>, buildings: Seq<Building>, li: int) -> Map<u64, (usize, usize, usize)>
    decreases buildings.len(),
{
    if buildings.len() == 0 {
        m
    } else {
        insert_rooms(
            insert_location_rooms(m, buildings.drop_last(), li),
            buildings.last().rooms@,
            li,
            buildings.len() - 1,
        )
    }
}

/// `m` with an entry for each building of a location at position `li`.
pub open spec fn insert_buildings(m: Map<u64, (usize, usize)>, buildings: Seq<Building>, li: int) -> Map<u64, (usize, usize)>
    decreases buildings.len(),
{
    if buildings.len() == 0 {
        m
    } else {
        insert_buildings(m, buildings.drop_last(), li).insert(
            buildings.last().id.value,
            (li as usize, (buildings.len() - 1) as usize),
        )
    }
}

/// The location index that describes `locations`: each identifier points at
/// the last location that carries it.
pub open spec fn location_slots_of(locations: Seq<Location>) -> Map<u64, usize>
    decreases locations.len(),
{
    if locations.len() == 0 {
        Map::empty()
    } else {
        location_slots_of(locations.drop_last()).insert(locations.last().id.value, (locations.len() - 1) as usize)
    }
}

/// The building index that describes `locations`: each identifier points
/// at the last building, in order of locations then buildings, that carries it.
pub open spec fn building_slots_of(locations: Seq<Location>) -> Map<u64, (usize, usize)>
    decreases locations.len(),
{
    if locations.len() == 0 {
        Map::empty()
    } else {
        insert_buildings(building_slots_of(locations.drop_last()), locations.last().buildings@, locations.len() - 1)
    }
}

/// The room index that describes `locations`: each identifier points at the
/// last room, in order of locations, buildings then rooms, that carries it.
pub open spec fn room_slots_of(locations: Seq<Location>) -> Map<u64, (usize, usize, usize)>
    decreases locations.len(),
{
    if locations.len() == 0 {
        Map::empty()
    } else {
        insert_location_rooms(room_slots_of(locations.drop_last()), locations.last().buildings@, locations.len() - 1)
    }
}

impl LocationRegistry {
    /// The locations of the registry.
    pub closed spec fn spec_locations(&self) -> Seq<Location> {
        self.locations@
    }

    /// The location index.
    pub closed spec fn location_slots(&self) -> Map<u64, usize> {
        self.location_index@
    }

    /// The building index.
    pub closed spec fn building_slots(&self) -> Map<u64, (usize, usize)> {
        self.building_index@
    }

    /// The room index.
    pub closed spec fn room_slots(&self) -> Map<u64, (usize, usize, usize)> {
        self.room_index@
    }

    /// Whether the indices describe the locations: the registry was built by
    /// `new` and `add_location`, or `rebuild_indices` ran after the
    /// locations last changed.
    pub closed spec fn wf(&self) -> bool {
        &&& self.location_slots() == location_slots_of(self.locations@)
        &&& self.building_slots() == building_slots_of(self.locations@)
        &&& self.room_slots() == room_slots_of(self.locations@)
    }

    /// The location an index entry points at, if the entry exists and the
    /// position is within the locations.
    pub closed spec fn spec_get_location(&self, id: LocationId) -> Option<Location> {
        if self.location_slots().contains_key(id.value) && self.location_slots()[id.value] < self.locations@.len() {
            Some(self.locations@[self.location_slots()[id.value] as int])
        } else {
            None
        }
    }

    /// The location at position `li`, if any.
    pub closed spec fn location_at(&self, li: int) -> Option<Location> {
        if 0 <= li < self.locations@.len() {
            Some(self.locations@[li])
        } else {
            None
        }
    }

    /// The building at positions `(li, bi)`, if any.
    pub closed spec fn building_at(&self, li: int, bi: int) -> Option<Building> {
        if 0 <= li < self.locations@.len() && 0 <= bi < self.locations@[li].buildings@.len() {
            Some(self.locations@[li].buildings@[bi])
        } else {
            None
        }
    }

    /// The room at positions `(li, bi, ri)`, if any.
    pub closed spec fn room_at(&self, li: int, bi: int, ri: int) -> Option<Room> {
        match self.building_at(li, bi) {
            Some(b) => if 0 <= ri < b.rooms@.len() { Some(b.rooms@[ri]) } else { None },
            None => None,
        }
    }

    /// The building the building index points at.
    pub closed spec fn spec_get_building(&self, id: BuildingId) -> Option<Building> {
        if self.building_slots().contains_key(id.value) {
            let (li, bi) = self.building_slots()[id.value];
            self.building_at(li as int, bi as int)
        } else {
            None
        }
    }

    /// The room the room index points at.
    pub closed spec fn spec_get_room(&self, id: RoomId) -> Option<Room> {
        if self.room_slots().contains_key(id.value) {
            let (li, bi, ri) = self.room_slots()[id.value];
            self.room_at(li as int, bi as int, ri as int)
        } else {
            None
        }
    }

    /// The location the building index points into.
    pub closed spec fn spec_get_location_for_building(&self, id: BuildingId) -> Option<Location> {
        if self.building_slots().contains_key(id.value) {
            self.location_at(self.building_slots()[id.value].0 as int)
        } else {
            None
        }
    }

    /// The building the room index points into.
    pub closed spec fn spec_get_building_for_room(&self, id: RoomId) -> Option<Building> {
        if self.room_slots().contains_key(id.value) {
            let (li, bi, ri) = self.room_slots()[id.value];
            self.building_at(li as int, bi as int)
        } else {
            None
        }
    }

    /// The location the room index points into.
    pub closed spec fn spec_get_location_for_room(&self, id: RoomId) -> Option<Location> {
        if self.room_slots().contains_key(id.value) {
            self.location_at(self.room_slots()[id.value].0 as int)
        } else {
            None
        }
    }

    /// An empty registry.
    pub fn new() -> (r: Self)
        ensures
            r.spec_locations() == Seq::<Location>::empty(),
            r.wf(),
    {
        let r = LocationRegistry {
            locations: Vec::new(),
            location_index: HashMap::new(),
            building_index: HashMap::new(),
            room_index: HashMap::new(),
        };
        assert(r.location_slots() =~= location_slots_of(r.locations@));
        assert(r.building_slots() =~= building_slots_of(r.locations@));
        assert(r.room_slots() =~= room_slots_of(r.locations@));
        r
    }
}

/// Record the rooms of a building in a room index.
fn index_rooms(index: &mut HashMap<u64, (usize, usize, usize)>, rooms: &Vec<Room>, li: usize, bi: usize)
    ensures
        final(index)@ == insert_rooms(old(index)@, rooms@, li as int, bi as int),
{
    let mut ri: usize = 0;
    while ri < rooms.len()
        invariant
            ri <= rooms@.len(),
            index@ == insert_rooms(old(index)@, rooms@.take(ri as int), li as int, bi as int),
        decreases rooms.len() - ri,
    {
        proof {
            assert(rooms@.take(ri as int + 1).drop_last() =~= rooms@.take(ri as int));
        }
        index.insert(rooms[ri].id.value, (li, bi, ri));
        ri = ri + 1;
    }
    assert(rooms@.take(ri as int) =~= rooms@);
}

/// Record the buildings of a location, and their rooms, in the indices.
fn index_buildings(
    building_index: &mut HashMap<u64, (usize, usize)>,
    room_index: &mut HashMap<u64, (usize, usize, usize)>,
    buildings: &Vec<Building>,
    li: usize,
)
    ensures
        final(building_index)@ == insert_buildings(old(building_index)@, buildings@, li as int),
        final(room_index)@ == insert_location_rooms(old(room_index)@, buildings@, li as int),
{
    let mut bi: usize = 0;
    while bi < buildings.len()
        invariant
            bi <= buildings@.len(),
            building_index@ == insert_buildings(old(building_index)@, buildings@.take(bi as int), li as int),
            room_index@ == insert_location_rooms(old(room_index)@, buildings@.take(bi as int), li as int),
        decreases buildings.len() - bi,
    {
        proof {
            assert(buildings@.take(bi as int + 1).drop_last() =~= buildings@.take(bi as int));
        }
        let building = &buildings[bi];
        building_index.insert(building.id.value, (li, bi));
        index_rooms(room_index, &building.rooms, li, bi);
        bi = bi + 1;
    }
    assert(buildings@.take(bi as int) =~= buildings@);
}

impl LocationRegistry {
    /// Add a location at the end, and record it, its buildings and its rooms
    /// in the indices; an identifier seen before now points at the new entry.
    pub fn add_location(&mut self, location: Location)
        ensures
            final(self).spec_locations() == old(self).spec_locations().push(location),
            final(self).location_slots() == old(self).location_slots().insert(
                location.id.value,
                old(self).spec_locations().len() as usize,
            ),
            final(self).building_slots() == insert_buildings(
                old(self).building_slots(),
                location.buildings@,
                old(self).spec_locations().len() as int,
            ),
            final(self).room_slots() == insert_location_rooms(
                old(self).room_slots(),
                location.buildings@,
                old(self).spec_locations().len() as int,
            ),
            old(self).wf() ==> final(self).wf(),
    {
        let li = self.locations.len();
        let location_id = location.id;
        index_buildings(&mut self.building_index, &mut self.room_index, &location.buildings, li);
        self.locations.push(location);
        self.location_index.insert(location_id.value, li);
        proof {
            assert(self.locations@.drop_last() =~= old(self).locations@);
        }
    }

    /// Whether every room of the registry lists fewer than 2^40
    /// checkpoints (see `registry_checkpoints_bounded`).
    pub fn checkpoints_bounded(&self) -> (b: bool)
        ensures
            b == registry_checkpoints_bounded(self.spec_locations()),
    {
        let mut li: usize = 0;
        while li < self.locations.len()
            invariant
                li <= self.locations@.len(),
                forall|i: int| 0 <= i < li ==> all_checkpoint_lists_bounded((#[trigger] self.locations@[i]).buildings@),
            decreases self.locations.len() - li,
        {
            let location = &self.locations[li];
            let mut bi: usize = 0;
            while bi < location.buildings.len()
                invariant
                    li < self.locations@.len(),
                    *location == self.locations@[li as int],
                    bi <= location.buildings@.len(),
                    forall|i: int| 0 <= i < bi ==> checkpoint_lists_bounded((#[trigger] location.buildings@[i]).rooms@),
                decreases location.buildings.len() - bi,
            {
                let building = &location.buildings[bi];
                let mut ri: usize = 0;
                while ri < building.rooms.len()
                    invariant
                        li < self.locations@.len(),
                        *location == self.locations@[li as int],
                        bi < location.buildings@.len(),
                        *building == location.buildings@[bi as int],
                        ri <= building.rooms@.len(),
                        forall|i: int| 0 <= i < ri ==> (#[trigger] building.rooms@[i]).required_intermediate_access@.len() < 0x100_0000_0000,
                    decreases building.rooms.len() - ri,
                {
                    if building.rooms[ri].required_intermediate_access.len() as u64 >= 0x100_0000_0000u64 {
                        proof {
                            assert(!checkpoint_lists_bounded(building.rooms@));
                            assert(!all_checkpoint_lists_bounded(location.buildings@));
                            assert(!all_checkpoint_lists_bounded(self.locations@[li as int].buildings@));
                            assert(!registry_checkpoints_bounded(self.spec_locations()));
                        }
                        return false;
                    }
                    ri = ri + 1;
                }
                bi = bi + 1;
            }
            li = li + 1;
        }
        true
    }

    /// Rebuild the indices from the locations.
    pub fn rebuild_indices(&mut self)
        ensures
            final(self).spec_locations() == old(self).spec_locations(),
            final(self).wf(),
    {
        self.location_index.clear();
        self.building_index.clear();
        self.room_index.clear();
        let mut li: usize = 0;
        while li < self.locations.len()
            invariant
                li <= self.locations@.len(),
                self.locations@ == old(self).locations@,
                self.location_index@ == location_slots_of(self.locations@.take(li as int)),
                self.building_index@ == building_slots_of(self.locations@.take(li as int)),
                self.room_index@ == room_slots_of(self.locations@.take(li as int)),
            decreases self.locations.len() - li,
        {
            proof {
                assert(self.locations@.take(li as int + 1).drop_last() =~= self.locations@.take(li as int));
            }
            let location = &self.locations[li];
            self.location_index.insert(location.id.value, li);
            index_buildings(&mut self.building_index, &mut self.room_index, &location.buildings, li);
            li = li + 1;
        }
        assert(self.locations@.take(li as int) =~= self.locations@);
    }
}

impl LocationRegistry {
    /// The location the index points at for the identifier.
    pub fn get_location(&self, location_id: LocationId) -> (r: Option<&Location>)
        ensures
            match r {
                Some(l) => self.spec_get_location(location_id) == Some(*l),
                None => self.spec_get_location(location_id).is_none(),
            },
    {
        match self.location_index.get(&location_id.value) {
            Some(idx) => {
                let i = *idx;
                if i < self.locations.len() {
                    Some(&self.locations[i])
                } else {
                    None
                }
            },
            None => None,
        }
    }

    /// The building at the given positions, if they are within the registry.
    fn building_ref(&self, li: usize, bi: usize) -> (r: Option<&Building>)
        ensures
            match r {
                Some(b) => self.building_at(li as int, bi as int) == Some(*b),
                None => self.building_at(li as int, bi as int).is_none(),
            },
    {
        if li < self.locations.len() {
            let location = &self.locations[li];
            if bi < location.buildings.len() {
                return Some(&location.buildings[bi]);
            }
        }
        None
    }

    /// The location at the given position, if it is within the registry.
    fn location_ref(&self, li: usize) -> (r: Option<&Location>)
        ensures
            match r {
                Some(l) => self.location_at(li as int) == Some(*l),
                None => self.location_at(li as int).is_none(),
            },
    {
        if li < self.locations.len() {
            Some(&self.locations[li])
        } else {
            None
        }
    }

    /// The building the index points at for the identifier.
    pub fn get_building(&self, building_id: BuildingId) -> (r: Option<&Building>)
        ensures
            match r {
                Some(b) => self.spec_get_building(building_id) == Some(*b),
                None => self.spec_get_building(building_id).is_none(),
            },
    {
        match self.building_index.get(&building_id.value) {
            Some(slot) => {
                let (li, bi) = *slot;
                self.building_ref(li, bi)
            },
            None => None,
        }
    }

    /// The room the index points at for the identifier.
    pub fn get_room(&self, room_id: RoomId) -> (r: Option<&Room>)
        ensures
            match r {
                Some(room) => self.spec_get_room(room_id) == Some(*room),
                None => self.spec_get_room(room_id).is_none(),
            },
    {
        match self.room_index.get(&room_id.value) {
            Some(slot) => {
                let (li, bi, ri) = *slot;
                match self.building_ref(li, bi) {
                    Some(building) => {
                        if ri < building.rooms.len() {
                            Some(&building.rooms[ri])
                        } else {
                            None
                        }
                    },
                    None => None,
                }
            },
            None => None,
        }
    }

    /// The location that the building index places the building in.
    pub fn get_location_for_building(&self, building_id: BuildingId) -> (r: Option<&Location>)
        ensures
            match r {
                Some(l) => self.spec_get_location_for_building(building_id) == Some(*l),
                None => self.spec_get_location_for_building(building_id).is_none(),
            },
    {
        match self.building_index.get(&building_id.value) {
            Some(slot) => {
                let (li, _bi) = *slot;
                self.location_ref(li)
            },
            None => None,
        }
    }

    /// The building that the room index places the room in.
    pub fn get_building_for_room(&self, room_id: RoomId) -> (r: Option<&Building>)
        ensures
            match r {
                Some(b) => self.spec_get_building_for_room(room_id) == Some(*b),
                None => self.spec_get_building_for_room(room_id).is_none(),
            },
    {
        match self.room_index.get(&room_id.value) {
            Some(slot) => {
                let (li, bi, _ri) = *slot;
                self.building_ref(li, bi)
            },
            None => None,
        }
    }

    /// The location that the room index places the room in.
    pub fn get_location_for_room(&self, room_id: RoomId) -> (r: Option<&Location>)
        ensures
            match r {
                Some(l) => self.spec_get_location_for_room(room_id) == Some(*l),
                None => self.spec_get_location_for_room(room_id).is_none(),
            },
    {
        match self.room_index.get(&room_id.value) {
            Some(slot) => {
                let (li, _bi, _ri) = *slot;
                self.location_ref(li)
            },
            None => None,
        }
    }

    /// Whether the room index has an entry for the identifier.
    pub fn room_exists(&self, room_id: RoomId) -> (b: bool)
        ensures
            b == self.room_slots().contains_key(room_id.value),
    {
        self.room_index.contains_key(&room_id.value)
    }

    /// Whether the building index has an entry for the identifier.
    pub fn building_exists(&self, building_id: BuildingId) -> (b: bool)
        ensures
            b == self.building_slots().contains_key(building_id.value),
    {
        self.building_index.contains_key(&building_id.value)
    }

    /// Whether the location index has an entry for the identifier.
    pub fn location_exists(&self, location_id: LocationId) -> (b: bool)
        ensures
            b == self.location_slots().contains_key(location_id.value),
    {
        self.location_index.contains_key(&location_id.value)
    }

    /// Whether the permissions of a user open the room: the room is
    /// registered, and they open it in the building and location the
    /// registry files it under.
    pub fn can_user_access_room(&self, permissions: &PermissionSet, room_id: RoomId) -> (b: bool)
        ensures
            b == (self.spec_get_room(room_id).is_some() && match self.spec_get_building_for_room(room_id) {
                Some(building) => match self.spec_get_location_for_building(building.id) {
                    Some(location) => permissions.spec_can_access_room(room_id, building.id, location.id),
                    None => false,
                },
                None => false,
            }),
    {
        if let Some(_room) = self.get_room(room_id) {
            if let Some(building) = self.get_building_for_room(room_id) {
                if let Some(location) = self.get_location_for_building(building.id) {
                    return permissions.can_access_room(room_id, building.id, location.id);
                }
            }
        }
        false
    }

    /// All locations, in order.
    pub fn get_all_locations(&self) -> (locations: &[Location])
        ensures
            locations@ == self.spec_locations(),
    {
        self.locations.as_slice()
    }

    /// Number of locations.
    pub fn location_count(&self) -> (n: usize)
        ensures
            n == self.spec_locations().len(),
    {
        self.locations.len()
    }
}

/// The location index built from `locations` holds an identifier exactly when
/// a location carries it, and points at the last such location.
pub proof fn lemma_location_slots(locations: Seq<Location>, k: u64)
    requires
        locations.len() <= usize::MAX,
    ensures
        location_slots_of(locations).contains_key(k) <==> exists|i: int| 0 <= i < locations.len() && (#[trigger] locations[i]).id.value == k,
        location_slots_of(locations).contains_key(k) ==> {
            let v = location_slots_of(locations)[k] as int;
            &&& 0 <= v < locations.len()
            &&& locations[v].id.value == k
            &&& forall|j: int| v < j < locations.len() ==> (#[trigger] locations[j]).id.value != k
        },
    decreases locations.len(),
{
    if locations.len() > 0 {
        let prefix = locations.drop_last();
        let last = locations.len() - 1;
        lemma_location_slots(prefix, k);
        assert forall|i: int| 0 <= i < prefix.len() implies prefix[i] == locations[i] by {}
        if locations[last].id.value == k {
            assert(location_slots_of(locations)[k] as int == last);
        } else {
            assert(location_slots_of(locations).contains_key(k) == location_slots_of(prefix).contains_key(k));
            if exists|i: int| 0 <= i < locations.len() && (#[trigger] locations[i]).id.value == k {
                let i = choose|i: int| 0 <= i < locations.len() && (#[trigger] locations[i]).id.value == k;
                assert(prefix[i].id.value == k);
            }
            if location_slots_of(prefix).contains_key(k) {
                let v = location_slots_of(prefix)[k] as int;
                assert(location_slots_of(locations)[k] as int == v);
                assert(locations[v].id.value == k);
                assert forall|j: int| v < j < locations.len() implies (#[trigger] locations[j]).id.value != k by {
                    if j < last {
                        assert(prefix[j] == locations[j]);
                    }
                }
            }
        }
    }
}

/// Adding a location's buildings to a building index: an identifier of one
/// of the buildings points at the last of them that carries it.
pub proof fn lemma_insert_buildings(m: Map<u64, (usize, usize)>, buildings: Seq<Building>, li: int, k: u64)
    requires
        0 <= li <= usize::MAX,
        buildings.len() <= usize::MAX,
    ensures
        insert_buildings(m, buildings, li).contains_key(k) <==> (m.contains_key(k) || exists|bi: int| 0 <= bi < buildings.len() && (#[trigger] buildings[bi]).id.value == k),
        (exists|bi: int| 0 <= bi < buildings.len() && (#[trigger] buildings[bi]).id.value == k) ==> {
            let v = insert_buildings(m, buildings, li)[k];
            &&& v.0 == li
            &&& 0 <= v.1 < buildings.len()
            &&& buildings[v.1 as int].id.value == k
        },
        !(exists|bi: int| 0 <= bi < buildings.len() && (#[trigger] buildings[bi]).id.value == k) ==>
            insert_buildings(m, buildings, li).contains_key(k) == m.contains_key(k)
            && insert_buildings(m, buildings, li)[k] == m[k],
    decreases buildings.len(),
{
    if buildings.len() > 0 {
        let prefix = buildings.drop_last();
        let last = buildings.len() - 1;
        lemma_insert_buildings(m, prefix, li, k);
        assert forall|i: int| 0 <= i < prefix.len() implies prefix[i] == buildings[i] by {}
        if buildings[last].id.value == k {
            assert(insert_buildings(m, buildings, li)[k] == (li as usize, last as usize));
        } else {
            assert(insert_buildings(m, buildings, li).contains_key(k) == insert_buildings(m, prefix, li).contains_key(k));
            assert(insert_buildings(m, buildings, li)[k] == insert_buildings(m, prefix, li)[k]);
            if exists|bi: int| 0 <= bi < buildings.len() && (#[trigger] buildings[bi]).id.value == k {
                let bi = choose|bi: int| 0 <= bi < buildings.len() && (#[trigger] buildings[bi]).id.value == k;
                assert(prefix[bi].id.value == k);
                let v = insert_buildings(m, prefix, li)[k];
                assert(prefix[v.1 as int] == buildings[v.1 as int]);
            }
            if exists|bi: int| 0 <= bi < prefix.len() && (#[trigger] prefix[bi]).id.value == k {
                let bi = choose|bi: int| 0 <= bi < prefix.len() && (#[trigger] prefix[bi]).id.value == k;
                assert(buildings[bi].id.value == k);
            }
        }
    }
}

/// Whether some building of some location carries the identifier.
pub open spec fn some_building_has(locations: Seq<Location>, k: u64) -> bool {
    exists|li: int, bi: int| 0 <= li < locations.len() && 0 <= bi < locations[li].buildings@.len()
        && (#[trigger] locations[li].buildings@[bi]).id.value == k
}

/// The building index built from `locations` holds an identifier exactly
/// when a building carries it, and points at such a building.
pub proof fn lemma_building_slots(locations: Seq<Location>, k: u64)
    requires
        locations.len() <= usize::MAX,
    ensures
        building_slots_of(locations).contains_key(k) <==> some_building_has(locations, k),
        building_slots_of(locations).contains_key(k) ==> {
            let v = building_slots_of(locations)[k];
            &&& 0 <= v.0 < locations.len()
            &&& 0 <= v.1 < locations[v.0 as int].buildings@.len()
            &&& locations[v.0 as int].buildings@[v.1 as int].id.value == k
        },
    decreases locations.len(),
{
    if locations.len() > 0 {
        let prefix = locations.drop_last();
        let li = locations.len() - 1;
        lemma_building_slots(prefix, k);
        assert(locations.last().buildings.len() == locations.last().buildings@.len());
        lemma_insert_buildings(building_slots_of(prefix), locations.last().buildings@, li, k);
        if some_building_has(locations, k) {
            let (a, b) = choose|a: int, b: int| 0 <= a < locations.len() && 0 <= b < locations[a].buildings@.len()
                && (#[trigger] locations[a].buildings@[b]).id.value == k;
            if a < li {
                assert(prefix[a] == locations[a]);
                assert(some_building_has(prefix, k));
            } else {
                assert(locations.last().buildings@[b].id.value == k);
            }
        }
        if some_building_has(prefix, k) {
            let (a, b) = choose|a: int, b: int| 0 <= a < prefix.len() && 0 <= b < prefix[a].buildings@.len()
                && (#[trigger] prefix[a].buildings@[b]).id.value == k;
            assert(prefix[a] == locations[a]);
        }
        if building_slots_of(locations).contains_key(k) {
            let v = building_slots_of(locations)[k];
            if !(exists|bi: int| 0 <= bi < locations.last().buildings@.len() && (#[trigger] locations.last().buildings@[bi]).id.value == k) {
                assert(prefix[v.0 as int] == locations[v.0 as int]);
            }
        }
        if exists|bi: int| 0 <= bi < locations.last().buildings@.len() && (#[trigger] locations.last().buildings@[bi]).id.value == k {
            let bi = choose|bi: int| 0 <= bi < locations.last().buildings@.len() && (#[trigger] locations.last().buildings@[bi]).id.value == k;
            assert(locations[li].buildings@[bi].id.value == k);
        }
    }
}

/// Adding a building's rooms to a room index: an identifier of one of the
/// rooms points at the last of them that carries it.
pub proof fn lemma_insert_rooms(m: Map<u64, (usize, usize, usize)>, rooms: Seq<Room>, li: int, bi: int, k: u64)
    requires
        0 <= li <= usize::MAX,
        0 <= bi <= usize::MAX,
        rooms.len() <= usize::MAX,
    ensures
        insert_rooms(m, rooms, li, bi).contains_key(k) <==> (m.contains_key(k) || exists|ri: int| 0 <= ri < rooms.len() && (#[trigger] rooms[ri]).id.value == k),
        (exists|ri: int| 0 <= ri < rooms.len() && (#[trigger] rooms[ri]).id.value == k) ==> {
            let v = insert_rooms(m, rooms, li, bi)[k];
            &&& v.0 == li
            &&& v.1 == bi
            &&& 0 <= v.2 < rooms.len()
            &&& rooms[v.2 as int].id.value == k
        },
        !(exists|ri: int| 0 <= ri < rooms.len() && (#[trigger] rooms[ri]).id.value == k) ==>
            insert_rooms(m, rooms, li, bi).contains_key(k) == m.contains_key(k)
            && insert_rooms(m, rooms, li, bi)[k] == m[k],
    decreases rooms.len(),
{
    if rooms.len() > 0 {
        let prefix = rooms.drop_last();
        let last = rooms.len() - 1;
        lemma_insert_rooms(m, prefix, li, bi, k);
        assert forall|i: int| 0 <= i < prefix.len() implies prefix[i] == rooms[i] by {}
        if rooms[last].id.value == k {
            assert(insert_rooms(m, rooms, li, bi)[k] == (li as usize, bi as usize, last as usize));
        } else {
            assert(insert_rooms(m, rooms, li, bi).contains_key(k) == insert_rooms(m, prefix, li, bi).contains_key(k));
            assert(insert_rooms(m, rooms, li, bi)[k] == insert_rooms(m, prefix, li, bi)[k]);
            if exists|ri: int| 0 <= ri < rooms.len() && (#[trigger] rooms[ri]).id.value == k {
                let ri = choose|ri: int| 0 <= ri < rooms.len() && (#[trigger] rooms[ri]).id.value == k;
                assert(prefix[ri].id.value == k);
                let v = insert_rooms(m, prefix, li, bi)[k];
                assert(prefix[v.2 as int] == rooms[v.2 as int]);
            }
            if exists|ri: int| 0 <= ri < prefix.len() && (#[trigger] prefix[ri]).id.value == k {
                let ri = choose|ri: int| 0 <= ri < prefix.len() && (#[trigger] prefix[ri]).id.value == k;
                assert(rooms[ri].id.value == k);
            }
        }
    }
}

/// Whether some room of some building carries the identifier.
pub open spec fn some_room_in(buildings: Seq<Building>, k: u64) -> bool {
    exists|bi: int, ri: int| 0 <= bi < buildings.len() && 0 <= ri < buildings[bi].rooms@.len()
        && (#[trigger] buildings[bi].rooms@[ri]).id.value == k
}

/// Adding the rooms of a location's buildings to a room index: an
/// identifier of one of the rooms points at a room of the location that
/// carries it.
pub proof fn lemma_insert_location_rooms(m: Map<u64, (usize, usize, usize)>, buildings: Seq<Building>, li: int, k: u64)
    requires
        0 <= li <= usize::MAX,
        buildings.len() <= usize::MAX,
    ensures
        insert_location_rooms(m, buildings, li).contains_key(k) <==> (m.contains_key(k) || some_room_in(buildings, k)),
        some_room_in(buildings, k) ==> {
            let v = insert_location_rooms(m, buildings, li)[k];
            &&& v.0 == li
            &&& 0 <= v.1 < buildings.len()
            &&& 0 <= v.2 < buildings[v.1 as int].rooms@.len()
            &&& buildings[v.1 as int].rooms@[v.2 as int].id.value == k
        },
        !some_room_in(buildings, k) ==>
            insert_location_rooms(m, buildings, li).contains_key(k) == m.contains_key(k)
            && insert_location_rooms(m, buildings, li)[k] == m[k],
    decreases buildings.len(),
{
    if buildings.len() > 0 {
        let prefix = buildings.drop_last();
        let last = buildings.len() - 1;
        let inner = insert_location_rooms(m, prefix, li);
        lemma_insert_location_rooms(m, prefix, li, k);
        assert(buildings[last].rooms.len() == buildings[last].rooms@.len());
        lemma_insert_rooms(inner, buildings[last].rooms@, li, last, k);
        assert forall|i: int| 0 <= i < prefix.len() implies prefix[i] == buildings[i] by {}
        let in_last = exists|ri: int| 0 <= ri < buildings[last].rooms@.len() && (#[trigger] buildings[last].rooms@[ri]).id.value == k;
        if in_last {
            let ri = choose|ri: int| 0 <= ri < buildings[last].rooms@.len() && (#[trigger] buildings[last].rooms@[ri]).id.value == k;
            assert(buildings[last].rooms@[ri].id.value == k);
            assert(some_room_in(buildings, k));
            let v = insert_location_rooms(m, buildings, li)[k];
            assert(buildings[v.1 as int].rooms@[v.2 as int].id.value == k);
        } else {
            if some_room_in(buildings, k) {
                let (b, r) = choose|b: int, r: int| 0 <= b < buildings.len() && 0 <= r < buildings[b].rooms@.len()
                    && (#[trigger] buildings[b].rooms@[r]).id.value == k;
                if b == last {
                    assert(buildings[last].rooms@[r].id.value == k);
                }
                assert(prefix[b].rooms@[r].id.value == k);
                assert(some_room_in(prefix, k));
                let v = inner[k];
                assert(prefix[v.1 as int] == buildings[v.1 as int]);
            }
            if some_room_in(prefix, k) {
                let (b, r) = choose|b: int, r: int| 0 <= b < prefix.len() && 0 <= r < prefix[b].rooms@.len()
                    && (#[trigger] prefix[b].rooms@[r]).id.value == k;
                assert(buildings[b].rooms@[r].id.value == k);
                assert(some_room_in(buildings, k));
            }
        }
    }
}

/// Whether some room of some building of some location carries the identifier.
pub open spec fn some_room_has(locations: Seq<Location>, k: u64) -> bool {
    exists|li: int| 0 <= li < locations.len() && #[trigger] some_room_in(locations[li].buildings@, k)
}

/// The room index built from `locations` holds an identifier exactly when a
/// room carries it, and points at such a room.
pub proof fn lemma_room_slots(locations: Seq<Location>, k: u64)
    requires
        locations.len() <= usize::MAX,
    ensures
        room_slots_of(locations).contains_key(k) <==> some_room_has(locations, k),
        room_slots_of(locations).contains_key(k) ==> {
            let v = room_slots_of(locations)[k];
            &&& 0 <= v.0 < locations.len()
            &&& 0 <= v.1 < locations[v.0 as int].buildings@.len()
            &&& 0 <= v.2 < locations[v.0 as int].buildings@[v.1 as int].rooms@.len()
            &&& locations[v.0 as int].buildings@[v.1 as int].rooms@[v.2 as int].id.value == k
        },
    decreases locations.len(),
{
    if locations.len() > 0 {
        let prefix = locations.drop_last();
        let li = locations.len() - 1;
        lemma_room_slots(prefix, k);
        assert(locations[li].buildings.len() == locations[li].buildings@.len());
        lemma_insert_location_rooms(room_slots_of(prefix), locations[li].buildings@, li, k);
        assert forall|i: int| 0 <= i < prefix.len() implies prefix[i] == locations[i] by {}
        if some_room_in(locations[li].buildings@, k) {
            assert(some_room_has(locations, k));
        } else {
            if some_room_has(locations, k) {
                let a = choose|a: int| 0 <= a < locations.len() && #[trigger] some_room_in(locations[a].buildings@, k);
                assert(prefix[a] == locations[a]);
                assert(some_room_in(prefix[a].buildings@, k));
                assert(some_room_has(prefix, k));
            }
            if some_room_has(prefix, k) {
                let a = choose|a: int| 0 <= a < prefix.len() && #[trigger] some_room_in(prefix[a].buildings@, k);
                assert(some_room_in(locations[a].buildings@, k));
            }
            if room_slots_of(locations).contains_key(k) {
                let v = room_slots_of(prefix)[k];
                assert(prefix[v.0 as int] == locations[v.0 as int]);
            }
        }
    }
}

impl LocationRegistry {
    /// When the indices describe the locations, a location is found by its
    /// identifier exactly when some location carries it, and what is found
    /// carries it.
    pub proof fn law_location_lookup(&self, id: LocationId)
        requires
            self.wf(),
        ensures
            self.spec_get_location(id).is_some() <==> exists|i: int| 0 <= i < self.spec_locations().len()
                && (#[trigger] self.spec_locations()[i]).id == id,
            match self.spec_get_location(id) {
                Some(l) => l.id == id,
                None => true,
            },
    {
        assert(self.locations.len() == self.locations@.len());
        lemma_location_slots(self.locations@, id.value);
        let locs = self.spec_locations();
        if exists|i: int| 0 <= i < locs.len() && (#[trigger] locs[i]).id == id {
            let i = choose|i: int| 0 <= i < locs.len() && (#[trigger] locs[i]).id == id;
            assert(self.locations@[i].id.value == id.value);
            assert(self.spec_get_location(id).is_some());
        }
        if self.spec_get_location(id).is_some() {
            let v = self.location_slots()[id.value] as int;
            assert(locs[v].id.value == id.value);
            assert(locs[v].id == id);
        }
    }

    /// When the indices describe the locations, a building is found by its
    /// identifier exactly when some building carries it, and what is found
    /// carries it; the location found for it holds it.
    pub proof fn law_building_lookup(&self, id: BuildingId)
        requires
            self.wf(),
        ensures
            self.spec_get_building(id).is_some() <==> some_building_has(self.spec_locations(), id.value),
            match self.spec_get_building(id) {
                Some(b) => b.id == id,
                None => true,
            },
            self.spec_get_location_for_building(id).is_some() == self.spec_get_building(id).is_some(),
            match self.spec_get_location_for_building(id) {
                Some(l) => exists|bi: int| 0 <= bi < l.buildings@.len() && (#[trigger] l.buildings@[bi]).id == id,
                None => true,
            },
    {
        assert(self.locations.len() == self.locations@.len());
        lemma_building_slots(self.locations@, id.value);
        if self.building_slots().contains_key(id.value) {
            let v = self.building_slots()[id.value];
            let l = self.locations@[v.0 as int];
            let bi = v.1 as int;
            assert(l.buildings@[bi].id.value == id.value);
            assert(0 <= bi < l.buildings@.len());
            assert(l.buildings@[bi].id == id);
            assert(exists|j: int| 0 <= j < l.buildings@.len() && (#[trigger] l.buildings@[j]).id == id);
            assert(self.spec_get_location_for_building(id) == Some(l));
            assert(self.spec_get_location_for_building(id)->0 == l);
        }
    }

    /// When the indices describe the locations, a room is found by its
    /// identifier exactly when some room carries it, and what is found carries
    /// it; the building found for it holds it, and the location found for it
    /// holds that building.
    pub proof fn law_room_lookup(&self, id: RoomId)
        requires
            self.wf(),
        ensures
            self.spec_get_room(id).is_some() <==> some_room_has(self.spec_locations(), id.value),
            match self.spec_get_room(id) {
                Some(r) => r.id == id,
                None => true,
            },
            self.spec_get_building_for_room(id).is_some() == self.spec_get_room(id).is_some(),
            match self.spec_get_building_for_room(id) {
                Some(b) => exists|ri: int| 0 <= ri < b.rooms@.len() && (#[trigger] b.rooms@[ri]).id == id,
                None => true,
            },
            self.spec_get_location_for_room(id).is_some() == self.spec_get_room(id).is_some(),
            match self.spec_get_location_for_room(id) {
                Some(l) => some_room_in(l.buildings@, id.value),
                None => true,
            },
    {
        assert(self.locations.len() == self.locations@.len());
        lemma_room_slots(self.locations@, id.value);
        if self.room_slots().contains_key(id.value) {
            let v = self.room_slots()[id.value];
            let l = self.locations@[v.0 as int];
            let b = l.buildings@[v.1 as int];
            let ri = v.2 as int;
            assert(0 <= ri < b.rooms@.len());
            assert(b.rooms@[ri].id.value == id.value);
            assert(b.rooms@[ri].id == id);
            assert(exists|j: int| 0 <= j < b.rooms@.len() && (#[trigger] b.rooms@[j]).id == id);
            assert(self.spec_get_building_for_room(id) == Some(b));
            assert(self.spec_get_building_for_room(id)->0 == b);
            assert(l.buildings@[v.1 as int].rooms@[ri].id.value == id.value);
            assert(some_room_in(l.buildings@, id.value));
            assert(self.spec_get_location_for_room(id) == Some(l));
            assert(self.spec_get_location_for_room(id)->0 == l);
        }
    }
}

/// The rooms of the buildings, building after building.
pub open spec fn building_rooms(buildings: Seq<Building>) -> Seq<Room>
    decreases buildings.len(),
{
    if buildings.len() == 0 {
        Seq::empty()
    } else {
        building_rooms(buildings.drop_last()) + buildings.last().rooms@
    }
}

/// The rooms of all locations, location after location, building after building.
pub open spec fn registry_rooms(locations: Seq<Location>) -> Seq<Room>
    decreases locations.len(),
{
    if locations.len() == 0 {
        Seq::empty()
    } else {
        registry_rooms(locations.drop_last()) + building_rooms(locations.last().buildings@)
    }
}

/// The number of buildings over all locations.
pub open spec fn registry_building_total(locations: Seq<Location>) -> int
    decreases locations.len(),
{
    if locations.len() == 0 {
        0
    } else {
        registry_building_total(locations.drop_last()) + locations.last().buildings@.len()
    }
}

/// Unfolding `building_rooms` at a prefix of length `i + 1`.
pub proof fn lemma_building_rooms_step(buildings: Seq<Building>, i: int)
    requires
        0 <= i < buildings.len(),
    ensures
        building_rooms(buildings.take(i + 1)) == building_rooms(buildings.take(i)) + buildings[i].rooms@,
{
    assert(buildings.take(i + 1).drop_last() =~= buildings.take(i));
    assert(buildings.take(i + 1).last() == buildings[i]);
}

/// Unfolding `registry_rooms` and `registry_building_total` at a prefix of length `i + 1`.
pub proof fn lemma_registry_step(locations: Seq<Location>, i: int)
    requires
        0 <= i < locations.len(),
    ensures
        registry_rooms(locations.take(i + 1)) == registry_rooms(locations.take(i)) + building_rooms(locations[i].buildings@),
        registry_building_total(locations.take(i + 1)) == registry_building_total(locations.take(i)) + locations[i].buildings@.len(),
{
    assert(locations.take(i + 1).drop_last() =~= locations.take(i));
    assert(locations.take(i + 1).last() == locations[i]);
}

/// The room count of a location is the length of its room list.
pub proof fn lemma_total_rooms_is_len(buildings: Seq<Building>)
    ensures
        total_rooms(buildings) == building_rooms(buildings).len(),
    decreases buildings.len(),
{
    if buildings.len() > 0 {
        lemma_total_rooms_is_len(buildings.drop_last());
    }
}

/// Over a prefix of the locations there are no more rooms and buildings than over all of them.
pub proof fn lemma_registry_prefix(locations: Seq<Location>, i: int)
    requires
        0 <= i <= locations.len(),
    ensures
        registry_rooms(locations.take(i)).len() <= registry_rooms(locations).len(),
        0 <= registry_building_total(locations.take(i)) <= registry_building_total(locations),
    decreases locations.len() - i,
{
    if i < locations.len() {
        lemma_registry_step(locations, i);
        lemma_registry_prefix(locations, i + 1);
        lemma_registry_building_total_nonneg(locations.take(i));
    } else {
        assert(locations.take(i) =~= locations);
        lemma_registry_building_total_nonneg(locations);
    }
}

proof fn lemma_registry_building_total_nonneg(locations: Seq<Location>)
    ensures
        registry_building_total(locations) >= 0,
    decreases locations.len(),
{
    if locations.len() > 0 {
        lemma_registry_building_total_nonneg(locations.drop_last());
    }
}

/// Whether `i` is the first location that fails validation.
pub open spec fn is_first_bad_location(locations: Seq<Location>, i: int) -> bool {
    &&& 0 <= i < locations.len()
    &&& location_validation(locations[i]) is Err
    &&& forall|j: int| 0 <= j < i ==> location_validation(#[trigger] locations[j]) is Ok
}

/// The outcome of validating a registry: it needs a location, and every
/// location must be valid; the first failure is reported.
pub open spec fn registry_validation(locations: Seq<Location>) -> Result<(), Seq<char>> {
    if locations.len() == 0 {
        Err("Registry must have at least one location"@)
    } else if exists|i: int| is_first_bad_location(locations, i) {
        let i = choose|i: int| is_first_bad_location(locations, i);
        Err("Location "@ + decimal(locations[i].id.value as nat) + " validation failed: "@
            + location_validation(locations[i])->Err_0)
    } else {
        Ok(())
    }
}

impl LocationRegistry {
    /// All rooms, location after location, building after building.
    pub fn get_all_rooms(&self) -> (rooms: Vec<&Room>)
        ensures
            rooms@.map_values(|r: &Room| *r) == registry_rooms(self.spec_locations()),
    {
        let mut out: Vec<&Room> = Vec::new();
        let mut li: usize = 0;
        while li < self.locations.len()
            invariant
                li <= self.locations@.len(),
                out@.map_values(|r: &Room| *r) == registry_rooms(self.locations@.take(li as int)),
            decreases self.locations.len() - li,
        {
            let location = &self.locations[li];
            let ghost base = out@.map_values(|r: &Room| *r);
            let mut bi: usize = 0;
            while bi < location.buildings.len()
                invariant
                    bi <= location.buildings@.len(),
                    out@.map_values(|r: &Room| *r) == base + building_rooms(location.buildings@.take(bi as int)),
                decreases location.buildings.len() - bi,
            {
                let building = &location.buildings[bi];
                proof { lemma_building_rooms_step(location.buildings@, bi as int); }
                let ghost before = out@.map_values(|r: &Room| *r);
                let mut ri: usize = 0;
                while ri < building.rooms.len()
                    invariant
                        ri <= building.rooms@.len(),
                        out@.map_values(|r: &Room| *r) == before + building.rooms@.take(ri as int),
                    decreases building.rooms.len() - ri,
                {
                    let ghost prev = out@;
                    out.push(&building.rooms[ri as usize]);
                    assert(out@.map_values(|r: &Room| *r) =~= prev.map_values(|r: &Room| *r).push(building.rooms@[ri as int]));
                    assert(building.rooms@.take(ri as int + 1) =~= building.rooms@.take(ri as int).push(building.rooms@[ri as int]));
                    ri = ri + 1;
                }
                assert(building.rooms@.take(ri as int) =~= building.rooms@);
                bi = bi + 1;
            }
            proof { lemma_registry_step(self.locations@, li as int); }
            assert(location.buildings@.take(bi as int) =~= location.buildings@);
            li = li + 1;
        }
        assert(self.locations@.take(li as int) =~= self.locations@);
        out
    }

    /// The rooms that are not lobbies, location after location, building after building.
    pub fn get_all_rooms_requiring_lobby_access(&self) -> (rooms: Vec<&Room>)
        ensures
            rooms@.map_values(|r: &Room| *r) == registry_rooms(self.spec_locations()).filter(not_lobby()),
    {
        let ghost pred = not_lobby();
        let mut out: Vec<&Room> = Vec::new();
        let mut li: usize = 0;
        while li < self.locations.len()
            invariant
                li <= self.locations@.len(),
                pred == not_lobby(),
                out@.map_values(|r: &Room| *r) == registry_rooms(self.locations@.take(li as int)).filter(pred),
            decreases self.locations.len() - li,
        {
            let location = &self.locations[li];
            let ghost base = registry_rooms(self.locations@.take(li as int));
            let mut bi: usize = 0;
            while bi < location.buildings.len()
                invariant
                    bi <= location.buildings@.len(),
                    pred == not_lobby(),
                    out@.map_values(|r: &Room| *r) == (base + building_rooms(location.buildings@.take(bi as int))).filter(pred),
                decreases location.buildings.len() - bi,
            {
                proof {
                    lemma_building_rooms_step(location.buildings@, bi as int);
                    let prior = building_rooms(location.buildings@.take(bi as int));
                    let rooms = location.buildings@[bi as int].rooms@;
                    assert(base + (prior + rooms) =~= (base + prior) + rooms);
                    Seq::filter_distributes_over_add(base + prior, rooms, pred);
                }
                let mut part = location.buildings[bi].get_rooms_requiring_lobby_access();
                let ghost before = out@;
                let ghost added = part@;
                out.append(&mut part);
                assert(out@.map_values(|r: &Room| *r) =~= before.map_values(|r: &Room| *r) + added.map_values(|r: &Room| *r));
                bi = bi + 1;
            }
            proof { lemma_registry_step(self.locations@, li as int); }
            assert(location.buildings@.take(bi as int) =~= location.buildings@);
            li = li + 1;
        }
        assert(self.locations@.take(li as int) =~= self.locations@);
        out
    }

    /// The high-security rooms, location after location, building after building.
    pub fn get_all_high_security_rooms(&self) -> (rooms: Vec<&Room>)
        ensures
            rooms@.map_values(|r: &Room| *r) == registry_rooms(self.spec_locations()).filter(high_security()),
    {
        let ghost pred = high_security();
        let mut out: Vec<&Room> = Vec::new();
        let mut li: usize = 0;
        while li < self.locations.len()
            invariant
                li <= self.locations@.len(),
                pred == high_security(),
                out@.map_values(|r: &Room| *r) == registry_rooms(self.locations@.take(li as int)).filter(pred),
            decreases self.locations.len() - li,
        {
            let location = &self.locations[li];
            let ghost base = registry_rooms(self.locations@.take(li as int));
            let mut bi: usize = 0;
            while bi < location.buildings.len()
                invariant
                    bi <= location.buildings@.len(),
                    pred == high_security(),
                    out@.map_values(|r: &Room| *r) == (base + building_rooms(location.buildings@.take(bi as int))).filter(pred),
                decreases location.buildings.len() - bi,
            {
                proof {
                    lemma_building_rooms_step(location.buildings@, bi as int);
                    let prior = building_rooms(location.buildings@.take(bi as int));
                    let rooms = location.buildings@[bi as int].rooms@;
                    assert(base + (prior + rooms) =~= (base + prior) + rooms);
                    Seq::filter_distributes_over_add(base + prior, rooms, pred);
                }
                let mut part = location.buildings[bi].get_high_security_rooms();
                let ghost before = out@;
                let ghost added = part@;
                out.append(&mut part);
                assert(out@.map_values(|r: &Room| *r) =~= before.map_values(|r: &Room| *r) + added.map_values(|r: &Room| *r));
                bi = bi + 1;
            }
            proof { lemma_registry_step(self.locations@, li as int); }
            assert(location.buildings@.take(bi as int) =~= location.buildings@);
            li = li + 1;
        }
        assert(self.locations@.take(li as int) =~= self.locations@);
        out
    }

    /// Number of buildings over all locations.
    pub fn total_building_count(&self) -> (n: usize)
        requires
            registry_building_total(self.spec_locations()) <= usize::MAX,
        ensures
            n == registry_building_total(self.spec_locations()),
    {
        let mut total: usize = 0;
        let mut li: usize = 0;
        while li < self.locations.len()
            invariant
                li <= self.locations@.len(),
                registry_building_total(self.locations@) <= usize::MAX,
                total == registry_building_total(self.locations@.take(li as int)),
            decreases self.locations.len() - li,
        {
            proof {
                lemma_registry_step(self.locations@, li as int);
                lemma_registry_prefix(self.locations@, li as int + 1);
            }
            total = total + self.locations[li].building_count();
            li = li + 1;
        }
        assert(self.locations@.take(li as int) =~= self.locations@);
        total
    }

    /// Number of rooms over all locations.
    pub fn total_room_count(&self) -> (n: usize)
        requires
            registry_rooms(self.spec_locations()).len() <= usize::MAX,
        ensures
            n == registry_rooms(self.spec_locations()).len(),
    {
        let mut total: usize = 0;
        let mut li: usize = 0;
        while li < self.locations.len()
            invariant
                li <= self.locations@.len(),
                registry_rooms(self.locations@).len() <= usize::MAX,
                total == registry_rooms(self.locations@.take(li as int)).len(),
            decreases self.locations.len() - li,
        {
            let location = &self.locations[li];
            proof {
                lemma_registry_step(self.locations@, li as int);
                lemma_registry_prefix(self.locations@, li as int + 1);
                lemma_total_rooms_is_len(location.buildings@);
            }
            total = total + location.total_room_count();
            li = li + 1;
        }
        assert(self.locations@.take(li as int) =~= self.locations@);
        total
    }

    /// Check that the registry has locations and that each is valid.
    pub fn validate(&self) -> (r: Result<(), String>)
        ensures
            match r {
                Ok(()) => registry_validation(self.spec_locations()) == Ok::<(), Seq<char>>(()),
                Err(e) => registry_validation(self.spec_locations()) == Err::<(), Seq<char>>(e@),
            },
    {
        if self.locations.len() == 0 {
            return Err(String::from_str("Registry must have at least one location"));
        }
        let mut i: usize = 0;
        while i < self.locations.len()
            invariant
                i <= self.locations@.len(),
                self.locations@.len() > 0,
                forall|j: int| 0 <= j < i ==> location_validation(#[trigger] self.locations@[j]) is Ok,
            decreases self.locations.len() - i,
        {
            let location = &self.locations[i];
            match location.validate() {
                Err(e) => {
                    proof {
                        let locs = self.locations@;
                        assert(is_first_bad_location(locs, i as int));
                        let k = choose|k: int| is_first_bad_location(locs, k);
                        if k < i {
                            assert(location_validation(locs[k]) is Ok);
                        } else if i < k {
                            assert(location_validation(locs[i as int]) is Ok);
                        }
                    }
                    let mut msg = String::from_str("Location ");
                    let lid = location.id.to_display_string();
                    msg.append(lid.as_str());
                    msg.append(" validation failed: ");
                    msg.append(e.as_str());
                    return Err(msg);
                },
                Ok(()) => {},
            }
            i = i + 1;
        }
        proof {
            assert(!exists|k: int| is_first_bad_location(self.locations@, k));
        }
        Ok(())
    }
}

/// Counts of rooms by the checkpoints needed to reach them, over all locations.
#[derive(Clone, Copy, Debug, PartialEq, Eq, Structural)]
pub struct AccessComplexityStats {
    /// Rooms over all locations.
    pub total_rooms: usize,
    /// Rooms reached through a lobby: every room that is not a lobby.
    pub rooms_requiring_lobby: usize,
    /// High-security rooms.
    pub high_security_rooms: usize,
    /// Rooms that list checkpoints.
    pub rooms_with_intermediate_access: usize,
    /// Locations.
    pub locations: usize,
    /// Buildings over all locations.
    pub buildings: usize,
}

/// Whether every location's buildings list bounded checkpoint lists.
pub open spec fn registry_checkpoints_bounded(locations: Seq<Location>) -> bool {
    forall|i: int| 0 <= i < locations.len() ==> all_checkpoint_lists_bounded((#[trigger] locations[i]).buildings@)
}

/// Extra time, in milliseconds, to reach another location: 4 to 12 hours
/// from a room of another location, 10 to 30 minutes from outside.
pub open spec fn cross_location_bounds(from: Option<RoomId>) -> (int, int) {
    if from.is_some() {
        (14_400_000, 43_200_000)
    } else {
        (600_000, 1_800_000)
    }
}

impl LocationRegistry {
    /// Whether the start is a room that the index places at the same
    /// location as the target.
    pub open spec fn spec_same_location(&self, from: Option<RoomId>, to_room: RoomId) -> bool {
        match from {
            Some(f) => match (self.spec_get_location_for_room(f), self.spec_get_location_for_room(to_room)) {
                (Some(a), Some(b)) => a.id == b.id,
                _ => false,
            },
            None => false,
        }
    }

    /// The outcome of `get_access_flow`: the target's location answers, from
    /// the start when it is at the same location, and from outside plus the
    /// travel between locations otherwise.
    pub open spec fn spec_flow_outcome(&self, from: Option<RoomId>, to_room: RoomId, r: Result<AccessFlow, Seq<char>>) -> bool {
        match self.spec_get_location_for_room(to_room) {
            None => r == Err::<AccessFlow, Seq<char>>(
                "Target room "@ + decimal(to_room.value as nat) + " not found in any location"@,
            ),
            Some(target) => if self.spec_same_location(from, to_room) {
                match r {
                    Ok(flow) => location_flow_ok(target, from, to_room, flow),
                    Err(e) => location_flow_error(target, from, to_room) == Some(e),
                }
            } else {
                match r {
                    Ok(flow) => exists|inner: AccessFlow| {
                        &&& #[trigger] location_flow_ok(target, None, to_room, inner)
                        &&& flow.required_sequence@ == inner.required_sequence@
                        &&& flow.requires_lobby_access == inner.requires_lobby_access
                        &&& flow.involves_high_security == inner.involves_high_security
                        &&& cross_location_bounds(from).0
                            <= flow.estimated_travel_time.millis - inner.estimated_travel_time.millis
                            <= cross_location_bounds(from).1
                    },
                    Err(e) => location_flow_error(target, None, to_room) == Some(e),
                }
            },
        }
    }

    /// Bounds, in milliseconds, of the travel time that `calculate_travel_time` draws.
    pub open spec fn spec_travel_bounds(&self, from: Option<RoomId>, to_room: RoomId) -> (int, int) {
        match self.spec_get_location_for_room(to_room) {
            None => (300_000, 300_000),
            Some(tl) => {
                let from_location = match from {
                    Some(f) => self.spec_get_location_for_room(f),
                    None => None,
                };
                match from_location {
                    None => location_travel_bounds(tl, from, to_room),
                    Some(fl) => if fl.id == tl.id {
                        location_travel_bounds(tl, from, to_room)
                    } else {
                        let from_building = match from {
                            Some(f) => self.spec_get_building_for_room(f),
                            None => None,
                        };
                        match (from_building, self.spec_get_building_for_room(to_room)) {
                            (Some(fb), Some(tb)) => travel_time_bounds(from, to_room, fb.id, tb.id, fl.id, tl.id),
                            _ => (14_400_000, 43_200_000),
                        }
                    },
                }
            },
        }
    }

    /// Counts of rooms by the checkpoints needed to reach them.
    pub fn get_access_complexity_stats(&self) -> (stats: AccessComplexityStats)
        requires
            registry_building_total(self.spec_locations()) <= usize::MAX,
        ensures
            stats.total_rooms == registry_rooms(self.spec_locations()).len(),
            stats.rooms_requiring_lobby == registry_rooms(self.spec_locations()).filter(not_lobby()).len(),
            stats.high_security_rooms == registry_rooms(self.spec_locations()).filter(high_security()).len(),
            stats.rooms_with_intermediate_access == registry_rooms(self.spec_locations()).filter(needs_checkpoints()).len(),
            stats.locations == self.spec_locations().len(),
            stats.buildings == registry_building_total(self.spec_locations()),
    {
        let rooms = self.get_all_rooms();
        let ghost all = rooms@.map_values(|r: &Room| *r);
        let ghost lobby_pred = not_lobby();
        let ghost high_pred = high_security();
        let ghost inter_pred = needs_checkpoints();
        let mut lobby: usize = 0;
        let mut high: usize = 0;
        let mut inter: usize = 0;
        let mut i: usize = 0;
        while i < rooms.len()
            invariant
                i <= rooms@.len(),
                all == rooms@.map_values(|r: &Room| *r),
                lobby_pred == not_lobby(),
                high_pred == high_security(),
                inter_pred == needs_checkpoints(),
                lobby == all.take(i as int).filter(lobby_pred).len(),
                high == all.take(i as int).filter(high_pred).len(),
                inter == all.take(i as int).filter(inter_pred).len(),
                lobby <= i,
                high <= i,
                inter <= i,
            decreases rooms.len() - i,
        {
            let room = rooms[i];
            proof {
                assert(all[i as int] == *room);
                assert(all.take(i as int + 1) =~= all.take(i as int).push(*room));
                all.take(i as int).lemma_filter_push(*room, lobby_pred);
                all.take(i as int).lemma_filter_push(*room, high_pred);
                all.take(i as int).lemma_filter_push(*room, inter_pred);
            }
            if !room.is_lobby() {
                lobby = lobby + 1;
            }
            if room.is_high_security() {
                high = high + 1;
            }
            if room.requires_intermediate_access() {
                inter = inter + 1;
            }
            i = i + 1;
        }
        assert(all.take(i as int) =~= all);
        AccessComplexityStats {
            total_rooms: rooms.len(),
            rooms_requiring_lobby: lobby,
            high_security_rooms: high,
            rooms_with_intermediate_access: inter,
            locations: self.locations.len(),
            buildings: self.total_building_count(),
        }
    }

    /// The access flow to `to_room` from `from_room` (a room, or outside):
    /// within the target's location when the start is there too, otherwise
    /// from outside that location plus 4 to 12 hours of travel from another
    /// location, or 10 to 30 minutes from outside.
    pub fn get_access_flow(
        &self,
        from_room: Option<RoomId>,
        to_room: RoomId,
        time_manager: &TimeManager,
        rng: &mut rand::rngs::ThreadRng,
    ) -> (r: Result<AccessFlow, String>)
        requires
            registry_checkpoints_bounded(self.spec_locations()),
        ensures
            self.spec_flow_outcome(from_room, to_room, match r {
                Ok(flow) => Ok::<AccessFlow, Seq<char>>(flow),
                Err(e) => Err::<AccessFlow, Seq<char>>(e@),
            }),
    {
        let target = match self.get_location_for_room(to_room) {
            Some(l) => l,
            None => {
                let mut msg = String::from_str("Target room ");
                let rid = to_room.to_display_string();
                msg.append(rid.as_str());
                msg.append(" not found in any location");
                return Err(msg);
            },
        };
        proof {
            let li = self.room_slots()[to_room.value].0 as int;
            assert(self.locations@[li] == *target);
            assert(all_checkpoint_lists_bounded(self.locations@[li].buildings@));
        }
        if let Some(f) = from_room {
            if let Some(from_location) = self.get_location_for_room(f) {
                if from_location.id == target.id {
                    return target.get_access_flow(from_room, to_room, time_manager, rng);
                }
            }
        }
        let inner = match target.get_access_flow(None, to_room, time_manager, rng) {
            Ok(flow) => flow,
            Err(e) => return Err(e),
        };
        let ghost inner_copy = inner;
        proof { lemma_location_flow_bounded(*target, None, to_room, inner); }
        let extra = if from_room.is_some() {
            let hours = gen_range_inclusive(rng, 4, 12);
            TimeDelta::hours(hours)
        } else {
            let minutes = gen_range_inclusive(rng, 10, 30);
            TimeDelta::minutes(minutes)
        };
        let total = inner.estimated_travel_time.plus(extra);
        let flow = AccessFlow::new(inner.required_sequence, total, inner.requires_lobby_access, inner.involves_high_security);
        assert(location_flow_ok(*target, None, to_room, inner_copy));
        Ok(flow)
    }

    /// A random travel time between two rooms anywhere, within `spec_travel_bounds`.
    pub fn calculate_travel_time(
        &self,
        from_room: Option<RoomId>,
        to_room: RoomId,
        time_manager: &TimeManager,
        rng: &mut rand::rngs::ThreadRng,
    ) -> (d: TimeDelta)
        ensures
            self.spec_travel_bounds(from_room, to_room).0 <= d.millis <= self.spec_travel_bounds(from_room, to_room).1,
    {
        let from_location = match from_room {
            Some(f) => self.get_location_for_room(f),
            None => None,
        };
        match self.get_location_for_room(to_room) {
            Some(to_location) => match from_location {
                Some(from_loc) => {
                    if from_loc.id == to_location.id {
                        to_location.calculate_travel_time(from_room, to_room, time_manager, rng)
                    } else {
                        let from_building = match from_room {
                            Some(f) => self.get_building_for_room(f),
                            None => None,
                        };
                        match (from_building, self.get_building_for_room(to_room)) {
                            (Some(fb), Some(tb)) => time_manager.calculate_travel_time(
                                from_room,
                                to_room,
                                fb.id,
                                tb.id,
                                from_loc.id,
                                to_location.id,
                                rng,
                            ),
                            _ => {
                                let hours = gen_range_inclusive(rng, 4, 12);
                                TimeDelta::hours(hours)
                            },
                        }
                    }
                },
                None => to_location.calculate_travel_time(from_room, to_room, time_manager, rng),
            },
            None => TimeDelta::minutes(5),
        }
    }
}

impl Default for LocationRegistry {
    /// An empty registry.
    fn default() -> (r: Self)
        ensures
            r.spec_locations() == Seq::<Location>::empty(),
            r.wf(),
    {
        LocationRegistry::new()
    }
}

} // verus!
