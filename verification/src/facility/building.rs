//! Buildings: their rooms, their lobby, and the access flows within them.

use vstd::prelude::*;
use crate::facility::room::{Room, room_type_is, security_level_is, not_lobby, high_security};
use crate::permissions::access_flow::AccessFlow;
use crate::simulation::time_manager::TimeManager;
use crate::text::decimal;
use crate::time::{TimeDelta, gen_range_inclusive};
use crate::types::{BuildingId, LocationId, RoomId, RoomType, SecurityLevel, contains_room_id};
use vstd::string::StringExecFns;

verus! {

/// A building within a location.
#[derive(Clone, Debug)]
pub struct Building {
    /// Identifier of the building.
    pub id: BuildingId,
    /// Location the building belongs to.
    pub location_id: LocationId,
    /// Human-readable name.
    pub name: String,
    /// Rooms of the building, in the order they were added.
    pub rooms: Vec<Room>,
    /// The lobby, through which the building is entered.
    pub lobby_room_id: Option<RoomId>,
}

/// Whether some room has the identifier.
pub open spec fn has_room(rooms: Seq<Room>, id: RoomId) -> bool {
    exists|i: int| 0 <= i < rooms.len() && (#[trigger] rooms[i]).id == id
}

/// Whether `i` is the first position of a room with the identifier.
pub open spec fn is_first_room(rooms: Seq<Room>, id: RoomId, i: int) -> bool {
    &&& 0 <= i < rooms.len()
    &&& rooms[i].id == id
    &&& forall|j: int| 0 <= j < i ==> (#[trigger] rooms[j]).id != id
}

/// The first position of a room with the identifier (meaningful when there is one).
pub open spec fn room_position(rooms: Seq<Room>, id: RoomId) -> int {
    choose|i: int| is_first_room(rooms, id, i)
}

/// The first room with the identifier.
pub open spec fn find_room(rooms: Seq<Room>, id: RoomId) -> Option<Room> {
    if has_room(rooms, id) {
        Some(rooms[room_position(rooms, id)])
    } else {
        None
    }
}

/// The first position of a room with the identifier, found by a scan from
/// the front, is the one the specification names.
pub proof fn lemma_first_room_is_position(rooms: Seq<Room>, id: RoomId, i: int)
    requires
        is_first_room(rooms, id, i),
    ensures
        has_room(rooms, id),
        room_position(rooms, id) == i,
        find_room(rooms, id) == Some(rooms[i]),
{
    assert(rooms[i].id == id);
    let j = room_position(rooms, id);
    assert(is_first_room(rooms, id, j));
    if j < i {
        assert(rooms[j].id != id);
    } else if i < j {
        assert(rooms[i].id != id);
    }
}

/// When some room has the identifier, the first such room is at `room_position`.
pub proof fn lemma_room_position(rooms: Seq<Room>, id: RoomId)
    requires
        has_room(rooms, id),
    ensures
        is_first_room(rooms, id, room_position(rooms, id)),
    decreases rooms.len(),
{
    let prefix = rooms.drop_last();
    if has_room(prefix, id) {
        lemma_room_position(prefix, id);
        let i = room_position(prefix, id);
        assert forall|j: int| 0 <= j < i implies (#[trigger] rooms[j]).id != id by {
            assert(rooms[j] == prefix[j]);
        }
        assert(is_first_room(rooms, id, i));
    } else {
        let i = rooms.len() - 1;
        let w = choose|w: int| 0 <= w < rooms.len() && (#[trigger] rooms[w]).id == id;
        if w < i {
            assert(prefix[w] == rooms[w]);
        }
        assert forall|j: int| 0 <= j < i implies (#[trigger] rooms[j]).id != id by {
            assert(rooms[j] == prefix[j]);
        }
        assert(is_first_room(rooms, id, i));
    }
}

/// Whether `i` is the first position of a room that claims another building.
pub open spec fn is_first_foreign(rooms: Seq<Room>, building: BuildingId, i: int) -> bool {
    &&& 0 <= i < rooms.len()
    &&& rooms[i].building_id != building
    &&& forall|j: int| 0 <= j < i ==> (#[trigger] rooms[j]).building_id == building
}

/// After entering from `from` (a room, or outside), the checkpoints
/// `items` are added in order to `acc`, each unless already there; the flag
/// records whether an added checkpoint is a high-security room of the building.
pub open spec fn checkpoint_walk(rooms: Seq<Room>, acc: Seq<RoomId>, high: bool, items: Seq<RoomId>) -> (Seq<RoomId>, bool)
    decreases items.len(),
{
    if items.len() == 0 {
        (acc, high)
    } else {
        let prev = checkpoint_walk(rooms, acc, high, items.drop_last());
        let id = items.last();
        if prev.0.contains(id) {
            prev
        } else {
            (prev.0.push(id), prev.1 || (match find_room(rooms, id) {
                Some(r) => r.spec_is_high_security(),
                None => false,
            }))
        }
    }
}

/// The room occupied before the `k`-th room of `seq` is accessed.
pub open spec fn room_before(from: Option<RoomId>, seq: Seq<RoomId>, k: int) -> Option<RoomId> {
    if k == 0 {
        from
    } else {
        Some(seq[k - 1])
    }
}

/// Shortest and longest time, in milliseconds, to walk to and badge into the
/// `k`-th room: no walk when already there, 30 s to 3 min from another room
/// of the building, 1 to 2 min from outside, plus 5 to 15 s at the reader.
pub open spec fn step_bounds(before: Option<RoomId>, next: RoomId) -> (int, int) {
    match before {
        Some(cur) => if cur == next {
            (5_000, 15_000)
        } else {
            (35_000, 195_000)
        },
        None => (65_000, 135_000),
    }
}

/// Shortest and longest time to go through the first `k` rooms of `seq`.
pub open spec fn sequence_time_bounds(from: Option<RoomId>, seq: Seq<RoomId>, k: int) -> (int, int)
    decreases k,
{
    if k <= 0 {
        (0, 0)
    } else {
        let prev = sequence_time_bounds(from, seq, k - 1);
        let step = step_bounds(room_before(from, seq, k - 1), seq[k - 1]);
        (prev.0 + step.0, prev.1 + step.1)
    }
}

/// The longest time to go through `k` rooms is at most 195 s per room.
pub proof fn lemma_sequence_time_bounds(from: Option<RoomId>, seq: Seq<RoomId>, k: int)
    requires
        k >= 0,
    ensures
        0 <= sequence_time_bounds(from, seq, k).0 <= sequence_time_bounds(from, seq, k).1 <= 195_000 * k,
    decreases k,
{
    if k > 0 {
        lemma_sequence_time_bounds(from, seq, k - 1);
    }
}

impl Building {
    /// Whether the building has a room with the identifier.
    pub open spec fn spec_contains_room(&self, id: RoomId) -> bool {
        has_room(self.rooms@, id)
    }

    /// Whether every room claims this building and the building has a lobby.
    pub open spec fn spec_is_valid(&self) -> bool {
        &&& self.lobby_room_id.is_some()
        &&& forall|i: int| 0 <= i < self.rooms@.len() ==> (#[trigger] self.rooms@[i]).building_id == self.id
    }

    /// A building with a fresh identifier, no rooms and no lobby.
    pub fn new(location_id: LocationId, name: String) -> (b: Self)
        ensures
            b.location_id == location_id,
            b.name@ == name@,
            b.rooms@ == Seq::<Room>::empty(),
            b.lobby_room_id.is_none(),
    {
        Building { id: BuildingId::new(), location_id, name, rooms: Vec::new(), lobby_room_id: None }
    }

    /// Add a room, making it belong to this building; a lobby becomes the
    /// building's lobby.
    pub fn add_room(&mut self, room: Room)
        ensures
            final(self).id == old(self).id,
            final(self).location_id == old(self).location_id,
            final(self).name == old(self).name,
            final(self).rooms@ == old(self).rooms@.push(Room { building_id: old(self).id, ..room }),
            final(self).lobby_room_id == (if room.spec_is_lobby() {
                Some(room.id)
            } else {
                old(self).lobby_room_id
            }),
    {
        let mut room = room;
        room.building_id = self.id;
        if room.is_lobby() {
            self.lobby_room_id = Some(room.id);
        }
        self.rooms.push(room);
    }

    /// The first position of a room with the identifier.
    fn position_of(&self, room_id: RoomId) -> (p: Option<usize>)
        ensures
            match p {
                Some(i) => is_first_room(self.rooms@, room_id, i as int),
                None => !has_room(self.rooms@, room_id),
            },
    {
        let mut i: usize = 0;
        while i < self.rooms.len()
            invariant
                i <= self.rooms@.len(),
                forall|j: int| 0 <= j < i ==> (#[trigger] self.rooms@[j]).id != room_id,
            decreases self.rooms.len() - i,
        {
            if self.rooms[i].id == room_id {
                return Some(i);
            }
            i = i + 1;
        }
        None
    }

    /// Remove the first room with the identifier; a removed lobby leaves the
    /// building without one.
    pub fn remove_room(&mut self, room_id: RoomId) -> (removed: Option<Room>)
        ensures
            final(self).id == old(self).id,
            final(self).location_id == old(self).location_id,
            final(self).name == old(self).name,
            match removed {
                Some(r) => {
                    &&& has_room(old(self).rooms@, room_id)
                    &&& r == old(self).rooms@[room_position(old(self).rooms@, room_id)]
                    &&& final(self).rooms@ == old(self).rooms@.remove(room_position(old(self).rooms@, room_id))
                    &&& final(self).lobby_room_id == (if old(self).lobby_room_id == Some(room_id) {
                        None
                    } else {
                        old(self).lobby_room_id
                    })
                },
                None => {
                    &&& !has_room(old(self).rooms@, room_id)
                    &&& final(self).rooms@ == old(self).rooms@
                    &&& final(self).lobby_room_id == old(self).lobby_room_id
                },
            },
    {
        match self.position_of(room_id) {
            Some(pos) => {
                proof { lemma_first_room_is_position(self.rooms@, room_id, pos as int); }
                let room = self.rooms.remove(pos);
                if self.lobby_room_id == Some(room_id) {
                    self.lobby_room_id = None;
                }
                Some(room)
            },
            None => None,
        }
    }

    /// The first room with the identifier.
    pub fn get_room(&self, room_id: RoomId) -> (r: Option<&Room>)
        ensures
            match r {
                Some(room) => find_room(self.rooms@, room_id) == Some(*room),
                None => find_room(self.rooms@, room_id).is_none(),
            },
    {
        match self.position_of(room_id) {
            Some(pos) => {
                proof { lemma_first_room_is_position(self.rooms@, room_id, pos as int); }
                Some(&self.rooms[pos])
            },
            None => None,
        }
    }

    /// The first room with the identifier, to be modified in place.
    pub fn get_room_mut(&mut self, room_id: RoomId) -> (r: Option<&mut Room>)
        ensures
            final(self).id == old(self).id,
            final(self).location_id == old(self).location_id,
            final(self).name == old(self).name,
            final(self).lobby_room_id == old(self).lobby_room_id,
            match r {
                Some(room) => {
                    &&& find_room(old(self).rooms@, room_id) == Some(*room)
                    &&& final(self).rooms@ == old(self).rooms@.update(
                        room_position(old(self).rooms@, room_id),
                        *final(room),
                    )
                },
                None => {
                    &&& find_room(old(self).rooms@, room_id).is_none()
                    &&& final(self).rooms@ == old(self).rooms@
                },
            },
    {
        match self.position_of(room_id) {
            Some(pos) => {
                proof { lemma_first_room_is_position(self.rooms@, room_id, pos as int); }
                Some(&mut self.rooms[pos])
            },
            None => None,
        }
    }

    /// The lobby room, when the building has one that is among its rooms.
    pub fn get_lobby_room(&self) -> (r: Option<&Room>)
        ensures
            match self.lobby_room_id {
                Some(id) => match r {
                    Some(room) => find_room(self.rooms@, id) == Some(*room),
                    None => find_room(self.rooms@, id).is_none(),
                },
                None => r.is_none(),
            },
    {
        match self.lobby_room_id {
            Some(id) => self.get_room(id),
            None => None,
        }
    }

    /// The rooms of the given kind, in order.
    pub fn get_rooms_by_type(&self, room_type: RoomType) -> (rooms: Vec<&Room>)
        ensures
            rooms@.map_values(|r: &Room| *r) == self.rooms@.filter(room_type_is(room_type)),
    {
        let ghost pred = room_type_is(room_type);
        let mut out: Vec<&Room> = Vec::new();
        let mut i: usize = 0;
        while i < self.rooms.len()
            invariant
                i <= self.rooms@.len(),
                pred == room_type_is(room_type),
                out@.map_values(|r: &Room| *r) == self.rooms@.take(i as int).filter(pred),
            decreases self.rooms.len() - i,
        {
            let room = &self.rooms[i];
            proof {
                let s = self.rooms@;
                assert(s.take(i as int + 1) =~= s.take(i as int).push(*room));
                s.take(i as int).lemma_filter_push(*room, pred);
            }
            if room.room_type == room_type {
                let ghost before = out@;
                out.push(room);
                assert(out@.map_values(|r: &Room| *r) =~= before.map_values(|r: &Room| *r).push(*room));
            }
            i = i + 1;
        }
        assert(self.rooms@.take(i as int) =~= self.rooms@);
        out
    }

    /// The rooms of the given security level, in order.
    pub fn get_rooms_by_security_level(&self, security_level: SecurityLevel) -> (rooms: Vec<&Room>)
        ensures
            rooms@.map_values(|r: &Room| *r) == self.rooms@.filter(security_level_is(security_level)),
    {
        let ghost pred = security_level_is(security_level);
        let mut out: Vec<&Room> = Vec::new();
        let mut i: usize = 0;
        while i < self.rooms.len()
            invariant
                i <= self.rooms@.len(),
                pred == security_level_is(security_level),
                out@.map_values(|r: &Room| *r) == self.rooms@.take(i as int).filter(pred),
            decreases self.rooms.len() - i,
        {
            let room = &self.rooms[i];
            proof {
                let s = self.rooms@;
                assert(s.take(i as int + 1) =~= s.take(i as int).push(*room));
                s.take(i as int).lemma_filter_push(*room, pred);
            }
            if room.security_level == security_level {
                let ghost before = out@;
                out.push(room);
                assert(out@.map_values(|r: &Room| *r) =~= before.map_values(|r: &Room| *r).push(*room));
            }
            i = i + 1;
        }
        assert(self.rooms@.take(i as int) =~= self.rooms@);
        out
    }

    /// The rooms that are not lobbies, which are reached through the lobby.
    pub fn get_rooms_requiring_lobby_access(&self) -> (rooms: Vec<&Room>)
        ensures
            rooms@.map_values(|r: &Room| *r) == self.rooms@.filter(not_lobby()),
    {
        let ghost pred = not_lobby();
        let mut out: Vec<&Room> = Vec::new();
        let mut i: usize = 0;
        while i < self.rooms.len()
            invariant
                i <= self.rooms@.len(),
                pred == not_lobby(),
                out@.map_values(|r: &Room| *r) == self.rooms@.take(i as int).filter(pred),
            decreases self.rooms.len() - i,
        {
            let room = &self.rooms[i];
            proof {
                let s = self.rooms@;
                assert(s.take(i as int + 1) =~= s.take(i as int).push(*room));
                s.take(i as int).lemma_filter_push(*room, pred);
            }
            if !room.is_lobby() {
                let ghost before = out@;
                out.push(room);
                assert(out@.map_values(|r: &Room| *r) =~= before.map_values(|r: &Room| *r).push(*room));
            }
            i = i + 1;
        }
        assert(self.rooms@.take(i as int) =~= self.rooms@);
        out
    }

    /// The high-security rooms, in order.
    pub fn get_high_security_rooms(&self) -> (rooms: Vec<&Room>)
        ensures
            rooms@.map_values(|r: &Room| *r) == self.rooms@.filter(high_security()),
    {
        let ghost pred = high_security();
        let mut out: Vec<&Room> = Vec::new();
        let mut i: usize = 0;
        while i < self.rooms.len()
            invariant
                i <= self.rooms@.len(),
                pred == high_security(),
                out@.map_values(|r: &Room| *r) == self.rooms@.take(i as int).filter(pred),
            decreases self.rooms.len() - i,
        {
            let room = &self.rooms[i];
            proof {
                let s = self.rooms@;
                assert(s.take(i as int + 1) =~= s.take(i as int).push(*room));
                s.take(i as int).lemma_filter_push(*room, pred);
            }
            if room.is_high_security() {
                let ghost before = out@;
                out.push(room);
                assert(out@.map_values(|r: &Room| *r) =~= before.map_values(|r: &Room| *r).push(*room));
            }
            i = i + 1;
        }
        assert(self.rooms@.take(i as int) =~= self.rooms@);
        out
    }

    /// Whether the building has a lobby.
    pub fn has_lobby(&self) -> (b: bool)
        ensures
            b == self.lobby_room_id.is_some(),
    {
        self.lobby_room_id.is_some()
    }

    /// Number of rooms.
    pub fn room_count(&self) -> (n: usize)
        ensures
            n == self.rooms@.len(),
    {
        self.rooms.len()
    }

    /// The identifiers of the rooms, in order.
    pub fn get_all_room_ids(&self) -> (ids: Vec<RoomId>)
        ensures
            ids@ == self.rooms@.map_values(|r: Room| r.id),
    {
        let mut out: Vec<RoomId> = Vec::new();
        let mut i: usize = 0;
        while i < self.rooms.len()
            invariant
                i <= self.rooms@.len(),
                out@ == self.rooms@.take(i as int).map_values(|r: Room| r.id),
            decreases self.rooms.len() - i,
        {
            out.push(self.rooms[i].id);
            i = i + 1;
            assert(out@ =~= self.rooms@.take(i as int).map_values(|r: Room| r.id));
        }
        assert(self.rooms@.take(i as int) =~= self.rooms@);
        out
    }

    /// Whether the building has a room with the identifier.
    pub fn contains_room(&self, room_id: RoomId) -> (b: bool)
        ensures
            b == self.spec_contains_room(room_id),
    {
        self.position_of(room_id).is_some()
    }

    /// Whether the first room with the identifier requires checkpoints;
    /// false when there is no such room.
    pub fn requires_intermediate_access(&self, room_id: RoomId) -> (b: bool)
        ensures
            b == match find_room(self.rooms@, room_id) {
                Some(r) => r.spec_requires_intermediate_access(),
                None => false,
            },
    {
        match self.get_room(room_id) {
            Some(room) => room.requires_intermediate_access(),
            None => false,
        }
    }
}

/// The outcome of validating a building: it needs a lobby, and every room
/// must claim the building; the first room that does not is reported.
pub open spec fn building_validation(b: Building) -> Result<(), Seq<char>> {
    if b.lobby_room_id.is_none() {
        Err("Building must have at least one lobby room"@)
    } else if exists|i: int| is_first_foreign(b.rooms@, b.id, i) {
        let i = first_foreign_index(b.rooms@, b.id);
        Err("Room "@ + decimal(b.rooms@[i].id.value as nat) + " does not belong to building "@
            + decimal(b.id.value as nat))
    } else {
        Ok(())
    }
}

/// The first position of a room that claims another building (meaningful when there is one).
pub open spec fn first_foreign_index(rooms: Seq<Room>, building: BuildingId) -> int {
    choose|i: int| is_first_foreign(rooms, building, i)
}

/// The sequence of an access flow to `to_room` within the building, from
/// `from` (a room, or outside), and whether it passes a high-security room;
/// `None` when the target is not a room of the building, or when the flow
/// must pass a lobby and the building has none.
pub open spec fn building_access_sequence(b: Building, from: Option<RoomId>, to_room: RoomId) -> Option<(Seq<RoomId>, bool, bool)> {
    match find_room(b.rooms@, to_room) {
        None => None,
        Some(target) => {
            let needs_lobby = match from {
                None => true,
                Some(f) => !has_room(b.rooms@, f),
            };
            if needs_lobby && b.lobby_room_id.is_none() {
                None
            } else {
                let start = if needs_lobby { seq![b.lobby_room_id.unwrap()] } else { Seq::empty() };
                let walked = checkpoint_walk(b.rooms@, start, target.spec_is_high_security(), target.required_intermediate_access@);
                Some((walked.0.push(to_room), needs_lobby, walked.1))
            }
        },
    }
}

/// The message of a failed access flow within the building.
pub open spec fn building_access_error(b: Building, to_room: RoomId) -> Seq<char> {
    if !has_room(b.rooms@, to_room) {
        "Target room "@ + decimal(to_room.value as nat) + " not found in building "@ + decimal(b.id.value as nat)
    } else {
        "Building "@ + decimal(b.id.value as nat) + " has no lobby room"@
    }
}

/// Whether every room lists fewer than 2^40 checkpoints, so that the time
/// to pass them stays far within the range of a `TimeDelta`.
pub open spec fn checkpoint_lists_bounded(rooms: Seq<Room>) -> bool {
    forall|i: int| 0 <= i < rooms.len() ==> (#[trigger] rooms[i]).required_intermediate_access@.len() < 0x100_0000_0000
}

/// Adding checkpoints never makes the sequence longer than the start plus the items.
pub proof fn lemma_checkpoint_walk_len(rooms: Seq<Room>, acc: Seq<RoomId>, high: bool, items: Seq<RoomId>)
    ensures
        checkpoint_walk(rooms, acc, high, items).0.len() <= acc.len() + items.len(),
    decreases items.len(),
{
    if items.len() > 0 {
        lemma_checkpoint_walk_len(rooms, acc, high, items.drop_last());
    }
}

impl Building {
    /// Check that the building has a lobby and that every room claims it.
    pub fn validate(&self) -> (r: Result<(), String>)
        ensures
            match r {
                Ok(()) => building_validation(*self) == Ok::<(), Seq<char>>(()),
                Err(e) => building_validation(*self) == Err::<(), Seq<char>>(e@),
            },
            r.is_ok() == self.spec_is_valid(),
    {
        if self.lobby_room_id.is_none() {
            return Err(String::from_str("Building must have at least one lobby room"));
        }
        let mut i: usize = 0;
        while i < self.rooms.len()
            invariant
                i <= self.rooms@.len(),
                self.lobby_room_id.is_some(),
                forall|j: int| 0 <= j < i ==> (#[trigger] self.rooms@[j]).building_id == self.id,
            decreases self.rooms.len() - i,
        {
            if self.rooms[i].building_id != self.id {
                proof {
                    assert(is_first_foreign(self.rooms@, self.id, i as int));
                    let k = first_foreign_index(self.rooms@, self.id);
                    if k < i {
                        assert(self.rooms@[k].building_id == self.id);
                    } else if i < k {
                        assert(self.rooms@[i as int].building_id == self.id);
                    }
                }
                let mut msg = String::from_str("Room ");
                let rid = self.rooms[i].id.to_display_string();
                msg.append(rid.as_str());
                msg.append(" does not belong to building ");
                let bid = self.id.to_display_string();
                msg.append(bid.as_str());
                proof {
                    let k = first_foreign_index(self.rooms@, self.id);
                    assert(k == i);
                    assert(msg@ =~= "Room "@ + decimal(self.rooms@[k].id.value as nat)
                        + " does not belong to building "@ + decimal(self.id.value as nat));
                    assert(exists|k: int| is_first_foreign(self.rooms@, self.id, k));
                    assert(building_validation(*self) == Err::<(), Seq<char>>(msg@));
                    assert(!self.spec_is_valid());
                }
                return Err(msg);
            }
            i = i + 1;
        }
        proof {
            assert(!exists|k: int| is_first_foreign(self.rooms@, self.id, k));
        }
        Ok(())
    }

    /// The access flow to `to_room` from `from_room` (or from outside when
    /// `None`): the lobby first when entering from outside or from a room of
    /// another building, then the target's checkpoints in order (each once),
    /// then the target. The estimated time is drawn at random, step by step,
    /// within `sequence_time_bounds`.
    pub fn get_access_flow(
        &self,
        from_room: Option<RoomId>,
        to_room: RoomId,
        time_manager: &TimeManager,
        rng: &mut rand::rngs::ThreadRng,
    ) -> (r: Result<AccessFlow, String>)
        requires
            checkpoint_lists_bounded(self.rooms@),
        ensures
            match r {
                Ok(flow) => match building_access_sequence(*self, from_room, to_room) {
                    Some(spec) => {
                        &&& flow.required_sequence@ == spec.0
                        &&& flow.requires_lobby_access == spec.1
                        &&& flow.involves_high_security == spec.2
                        &&& sequence_time_bounds(from_room, spec.0, spec.0.len() as int).0
                            <= flow.estimated_travel_time.millis
                            <= sequence_time_bounds(from_room, spec.0, spec.0.len() as int).1
                    },
                    None => false,
                },
                Err(e) => building_access_sequence(*self, from_room, to_room).is_none()
                    && e@ == building_access_error(*self, to_room),
            },
    {
        let target = match self.get_room(to_room) {
            Some(t) => t,
            None => {
                let mut msg = String::from_str("Target room ");
                let rid = to_room.to_display_string();
                msg.append(rid.as_str());
                msg.append(" not found in building ");
                let bid = self.id.to_display_string();
                msg.append(bid.as_str());
                return Err(msg);
            },
        };
        proof {
            lemma_room_position(self.rooms@, to_room);
        }
        let mut sequence: Vec<RoomId> = Vec::new();
        let mut requires_lobby_access = false;
        let mut involves_high_security = target.is_high_security();
        let needs_lobby = match from_room {
            None => true,
            Some(f) => !self.contains_room(f),
        };
        if needs_lobby {
            match self.lobby_room_id {
                Some(lobby_id) => {
                    sequence.push(lobby_id);
                    requires_lobby_access = true;
                },
                None => {
                    let mut msg = String::from_str("Building ");
                    let bid = self.id.to_display_string();
                    msg.append(bid.as_str());
                    msg.append(" has no lobby room");
                    return Err(msg);
                },
            }
        }
        let ghost start = sequence@;
        let ghost high0 = involves_high_security;
        let items = &target.required_intermediate_access;
        let mut k: usize = 0;
        while k < items.len()
            invariant
                k <= items@.len(),
                (sequence@, involves_high_security) == checkpoint_walk(self.rooms@, start, high0, items@.take(k as int)),
                start.len() <= 1,
            decreases items.len() - k,
        {
            let id = items[k];
            proof {
                assert(items@.take(k as int + 1).drop_last() =~= items@.take(k as int));
                assert(items@.take(k as int + 1).last() == id);
            }
            if !contains_room_id(&sequence, id) {
                sequence.push(id);
                match self.get_room(id) {
                    Some(room) => {
                        if room.is_high_security() {
                            involves_high_security = true;
                        }
                    },
                    None => {},
                }
            }
            k = k + 1;
        }
        proof {
            assert(items@.take(k as int) =~= items@);
            lemma_checkpoint_walk_len(self.rooms@, start, high0, items@);
            let p = room_position(self.rooms@, to_room);
            assert(self.rooms@[p].required_intermediate_access@.len() < 0x100_0000_0000);
        }
        sequence.push(to_room);
        let estimated_travel_time = calculate_sequence_travel_time(from_room, &sequence, rng);
        Ok(AccessFlow::new(sequence, estimated_travel_time, requires_lobby_access, involves_high_security))
    }
}

/// A random time to go through `sequence` starting from `from_room`,
/// within `sequence_time_bounds`.
fn calculate_sequence_travel_time(from_room: Option<RoomId>, sequence: &Vec<RoomId>, rng: &mut rand::rngs::ThreadRng) -> (d: TimeDelta)
    requires
        sequence@.len() < 0x100_0000_0010,
    ensures
        sequence_time_bounds(from_room, sequence@, sequence@.len() as int).0 <= d.millis
            <= sequence_time_bounds(from_room, sequence@, sequence@.len() as int).1,
{
    let mut total: i64 = 0;
    let mut current = from_room;
    let mut k: usize = 0;
    while k < sequence.len()
        invariant
            k <= sequence@.len(),
            sequence@.len() < 0x100_0000_0010,
            current == room_before(from_room, sequence@, k as int),
            sequence_time_bounds(from_room, sequence@, k as int).0 <= total
                <= sequence_time_bounds(from_room, sequence@, k as int).1,
        decreases sequence.len() - k,
    {
        proof { lemma_sequence_time_bounds(from_room, sequence@, k as int); }
        let next = sequence[k];
        let travel: i64 = match current {
            Some(cur) => if cur == next { 0 } else { gen_range_inclusive(rng, 30, 180) * 1000 },
            None => gen_range_inclusive(rng, 60, 120) * 1000,
        };
        let badge = gen_range_inclusive(rng, 5, 15) * 1000;
        total = total + travel + badge;
        current = Some(next);
        k = k + 1;
    }
    TimeDelta::milliseconds(total)
}

/// The walk through checkpoints only adds to the end of what it starts with.
proof fn lemma_checkpoint_walk_extends(rooms: Seq<Room>, acc: Seq<RoomId>, high: bool, items: Seq<RoomId>)
    ensures
        checkpoint_walk(rooms, acc, high, items).0.len() >= acc.len(),
        checkpoint_walk(rooms, acc, high, items).0.subrange(0, acc.len() as int) == acc,
    decreases items.len(),
{
    if items.len() > 0 {
        lemma_checkpoint_walk_extends(rooms, acc, high, items.drop_last());
        let prev = checkpoint_walk(rooms, acc, high, items.drop_last()).0;
        assert(prev.push(items.last()).subrange(0, acc.len() as int) =~= prev.subrange(0, acc.len() as int));
    }
}

/// The walk through checkpoints keeps what it starts with and passes every
/// checkpoint it is given.
proof fn lemma_checkpoint_walk_contains(rooms: Seq<Room>, acc: Seq<RoomId>, high: bool, items: Seq<RoomId>)
    ensures
        forall|i: int| 0 <= i < items.len() ==> checkpoint_walk(rooms, acc, high, items).0.contains(#[trigger] items[i]),
        forall|i: int| 0 <= i < acc.len() ==> checkpoint_walk(rooms, acc, high, items).0.contains(#[trigger] acc[i]),
    decreases items.len(),
{
    if items.len() > 0 {
        let p = items.drop_last();
        lemma_checkpoint_walk_contains(rooms, acc, high, p);
        let prev = checkpoint_walk(rooms, acc, high, p).0;
        let now = checkpoint_walk(rooms, acc, high, items).0;
        assert forall|x: RoomId| prev.contains(x) implies now.contains(x) by {
            let k = choose|k: int| 0 <= k < prev.len() && prev[k] == x;
            if !prev.contains(items.last()) {
                assert(now[k] == prev.push(items.last())[k]);
            }
        }
        assert forall|i: int| 0 <= i < items.len() implies now.contains(#[trigger] items[i]) by {
            if i < p.len() {
                assert(items[i] == p[i]);
                assert(prev.contains(p[i]));
            } else if !prev.contains(items.last()) {
                assert(now[prev.len() as int] == items.last());
            }
        }
        assert forall|i: int| 0 <= i < acc.len() implies now.contains(#[trigger] acc[i]) by {
            assert(prev.contains(acc[i]));
        }
    }
}

/// Every access flow within a building passes each checkpoint the target
/// room requires, before the target room itself.
pub proof fn law_access_sequence_passes_checkpoints(b: Building, from: Option<RoomId>, to_room: RoomId)
    ensures
        building_access_sequence(b, from, to_room) matches Some(spec) ==> find_room(b.rooms@, to_room) matches Some(target)
            && forall|i: int| 0 <= i < target.required_intermediate_access@.len()
                ==> exists|k: int| 0 <= k < spec.0.len() - 1 && spec.0[k] == #[trigger] target.required_intermediate_access@[i],
{
    if let Some(target) = find_room(b.rooms@, to_room) {
        let needs_lobby = match from {
            None => true,
            Some(f) => !has_room(b.rooms@, f),
        };
        if !(needs_lobby && b.lobby_room_id.is_none()) {
            let start = if needs_lobby { seq![b.lobby_room_id.unwrap()] } else { Seq::<RoomId>::empty() };
            let items = target.required_intermediate_access@;
            lemma_checkpoint_walk_contains(b.rooms@, start, target.spec_is_high_security(), items);
            let walked = checkpoint_walk(b.rooms@, start, target.spec_is_high_security(), items).0;
            let seq = walked.push(to_room);
            let spec = building_access_sequence(b, from, to_room).unwrap();
            assert(spec.0 == seq);
            assert forall|i: int| 0 <= i < target.required_intermediate_access@.len()
                implies exists|k: int| 0 <= k < spec.0.len() - 1 && spec.0[k] == #[trigger] target.required_intermediate_access@[i] by {
                assert(walked.contains(items[i]));
                let k = choose|k: int| 0 <= k < walked.len() && walked[k] == items[i];
                assert(seq[k] == walked[k]);
            }
        }
    }
}

/// An entry from outside the building passes its lobby first.
pub proof fn law_access_from_outside_starts_at_lobby(b: Building, to_room: RoomId)
    ensures
        building_access_sequence(b, None, to_room) matches Some(spec) ==> spec.1 && spec.0[0] == b.lobby_room_id.unwrap(),
{
    law_access_sequence_shape(b, None, to_room);
}

/// Every access flow within a building ends at the target room, and a flow
/// that passes the lobby starts there.
pub proof fn law_access_sequence_shape(b: Building, from: Option<RoomId>, to_room: RoomId)
    ensures
        building_access_sequence(b, from, to_room) matches Some(spec) ==> {
            &&& spec.0.len() >= 1
            &&& spec.0.last() == to_room
            &&& spec.1 ==> spec.0[0] == b.lobby_room_id.unwrap()
        },
{
    if let Some(target) = find_room(b.rooms@, to_room) {
        let needs_lobby = match from {
            None => true,
            Some(f) => !has_room(b.rooms@, f),
        };
        if !(needs_lobby && b.lobby_room_id.is_none()) {
            let start = if needs_lobby { seq![b.lobby_room_id.unwrap()] } else { Seq::<RoomId>::empty() };
            lemma_checkpoint_walk_extends(b.rooms@, start, target.spec_is_high_security(), target.required_intermediate_access@);
            let walked = checkpoint_walk(b.rooms@, start, target.spec_is_high_security(), target.required_intermediate_access@);
            if needs_lobby {
                assert(walked.0.subrange(0, 1)[0] == walked.0[0]);
                assert(walked.0.push(to_room)[0] == walked.0[0]);
            }
        }
    }
}

} // verus!
