//! Rooms and the checkpoints that must be passed before entering them.

use vstd::prelude::*;
use crate::types::{BuildingId, RoomId, RoomType, SecurityLevel, contains_room_id};

verus! {

/// A room within a building.
#[derive(Clone, Debug)]
pub struct Room {
    /// Identifier of the room.
    pub id: RoomId,
    /// Building the room belongs to.
    pub building_id: BuildingId,
    /// Human-readable name.
    pub name: String,
    /// Kind of room.
    pub room_type: RoomType,
    /// Security level required to enter.
    pub security_level: SecurityLevel,
    /// Rooms that must be accessed before this one, in order.
    pub required_intermediate_access: Vec<RoomId>,
}

/// Whether a security level counts as high security.
pub open spec fn is_high_security_level(level: SecurityLevel) -> bool {
    level == SecurityLevel::HighSecurity || level == SecurityLevel::MaxSecurity
}

/// The predicate "is of the given kind".
pub open spec fn room_type_is(t: RoomType) -> spec_fn(Room) -> bool {
    |r: Room| r.room_type == t
}

/// The predicate "has the given security level".
pub open spec fn security_level_is(level: SecurityLevel) -> spec_fn(Room) -> bool {
    |r: Room| r.security_level == level
}

/// The predicate "is not a lobby".
pub open spec fn not_lobby() -> spec_fn(Room) -> bool {
    |r: Room| !r.spec_is_lobby()
}

/// The predicate "has high security requirements".
pub open spec fn high_security() -> spec_fn(Room) -> bool {
    |r: Room| r.spec_is_high_security()
}

/// The predicate "requires checkpoints".
pub open spec fn needs_checkpoints() -> spec_fn(Room) -> bool {
    |r: Room| r.spec_requires_intermediate_access()
}

impl Room {
    /// Whether the room is a lobby.
    pub open spec fn spec_is_lobby(&self) -> bool {
        self.room_type == RoomType::Lobby
    }

    /// Whether the room has high security requirements.
    pub open spec fn spec_is_high_security(&self) -> bool {
        is_high_security_level(self.security_level)
    }

    /// Whether entering the room requires passing other rooms first.
    pub open spec fn spec_requires_intermediate_access(&self) -> bool {
        self.required_intermediate_access@.len() > 0
    }

    /// Create a room with a fresh identifier and no checkpoints.
    pub fn new(
        building_id: BuildingId,
        name: String,
        room_type: RoomType,
        security_level: SecurityLevel,
    ) -> (room: Self)
        ensures
            room.building_id == building_id,
            room.name@ == name@,
            room.room_type == room_type,
            room.security_level == security_level,
            room.required_intermediate_access@ == Seq::<RoomId>::empty(),
    {
        Room {
            id: RoomId::new(),
            building_id,
            name,
            room_type,
            security_level,
            required_intermediate_access: Vec::new(),
        }
    }

    /// Create a room with a fresh identifier and the given checkpoints.
    pub fn new_with_intermediate_access(
        building_id: BuildingId,
        name: String,
        room_type: RoomType,
        security_level: SecurityLevel,
        required_intermediate_access: Vec<RoomId>,
    ) -> (room: Self)
        ensures
            room.building_id == building_id,
            room.name@ == name@,
            room.room_type == room_type,
            room.security_level == security_level,
            room.required_intermediate_access@ == required_intermediate_access@,
    {
        Room {
            id: RoomId::new(),
            building_id,
            name,
            room_type,
            security_level,
            required_intermediate_access,
        }
    }

    /// Whether the room is a lobby.
    pub fn is_lobby(&self) -> (b: bool)
        ensures
            b == self.spec_is_lobby(),
    {
        self.room_type == RoomType::Lobby
    }

    /// Whether entering the room requires passing other rooms first.
    pub fn requires_intermediate_access(&self) -> (b: bool)
        ensures
            b == self.spec_requires_intermediate_access(),
    {
        self.required_intermediate_access.len() > 0
    }

    /// The rooms that must be accessed before this one.
    pub fn get_intermediate_access_rooms(&self) -> (rooms: &[RoomId])
        ensures
            rooms@ == self.required_intermediate_access@,
    {
        self.required_intermediate_access.as_slice()
    }

    /// Require `room_id` as a checkpoint, unless it is already required.
    pub fn add_intermediate_access(&mut self, room_id: RoomId)
        ensures
            final(self).id == old(self).id,
            final(self).building_id == old(self).building_id,
            final(self).name == old(self).name,
            final(self).room_type == old(self).room_type,
            final(self).security_level == old(self).security_level,
            final(self).required_intermediate_access@ == (if old(
                self,
            ).required_intermediate_access@.contains(room_id) {
                old(self).required_intermediate_access@
            } else {
                old(self).required_intermediate_access@.push(room_id)
            }),
    {
        if !contains_room_id(&self.required_intermediate_access, room_id) {
            self.required_intermediate_access.push(room_id);
        }
    }

    /// Drop every requirement to pass `room_id`, keeping the others in order.
    pub fn remove_intermediate_access(&mut self, room_id: RoomId)
        ensures
            final(self).id == old(self).id,
            final(self).building_id == old(self).building_id,
            final(self).name == old(self).name,
            final(self).room_type == old(self).room_type,
            final(self).security_level == old(self).security_level,
            final(self).required_intermediate_access@ == old(
                self,
            ).required_intermediate_access@.filter(|r: RoomId| r != room_id),
    {
        let ghost pred = |r: RoomId| r != room_id;
        let mut kept: Vec<RoomId> = Vec::new();
        let mut i: usize = 0;
        let n = self.required_intermediate_access.len();
        while i < n
            invariant
                n == self.required_intermediate_access.len(),
                i <= n,
                pred == (|r: RoomId| r != room_id),
                kept@ == self.required_intermediate_access@.take(i as int).filter(pred),
            decreases n - i,
        {
            let r = self.required_intermediate_access[i];
            proof {
                let s = self.required_intermediate_access@;
                assert(s.take(i as int + 1) =~= s.take(i as int).push(r));
                s.take(i as int).lemma_filter_push(r, pred);

            }
            if r != room_id {
                kept.push(r);
            }
            i = i + 1;
        }
        proof {
            assert(self.required_intermediate_access@.take(n as int)
                =~= self.required_intermediate_access@);
        }
        self.required_intermediate_access = kept;
    }

    /// Whether the room has high security requirements.
    pub fn is_high_security(&self) -> (b: bool)
        ensures
            b == self.spec_is_high_security(),
    {
        match self.security_level {
            SecurityLevel::HighSecurity | SecurityLevel::MaxSecurity => true,
            _ => false,
        }
    }

    /// Whether the room is open to the public.
    pub fn is_public(&self) -> (b: bool)
        ensures
            b == (self.security_level == SecurityLevel::Public),
    {
        self.security_level == SecurityLevel::Public
    }
}

} // verus!
