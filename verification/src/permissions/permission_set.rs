//! Permissions of a user over rooms, buildings and locations.

use vstd::prelude::*;
use crate::text::decimal;
use crate::types::{BuildingId, LocationId, RoomId};

verus! {

/// A grant of access to one room, to every room of a building, or to every
/// room of every building at a location.
#[derive(Clone, Copy, Debug, PartialEq, Eq, Hash, Structural)]
pub enum PermissionLevel {
    /// Access to a specific room.
    Room(RoomId),
    /// Access to all rooms in a building.
    Building(BuildingId),
    /// Access to all rooms in all buildings at a location.
    Location(LocationId),
}

/// Whether a grant covers the given room of the given building and location.
pub open spec fn grants_room(p: PermissionLevel, room: RoomId, building: BuildingId, location: LocationId) -> bool {
    match p {
        PermissionLevel::Room(id) => id == room,
        PermissionLevel::Building(id) => id == building,
        PermissionLevel::Location(id) => id == location,
    }
}

/// Whether a grant covers the whole of the given building.
pub open spec fn grants_building(p: PermissionLevel, building: BuildingId, location: LocationId) -> bool {
    match p {
        PermissionLevel::Room(_) => false,
        PermissionLevel::Building(id) => id == building,
        PermissionLevel::Location(id) => id == location,
    }
}

/// Whether a grant covers the whole of the given location.
pub open spec fn grants_location(p: PermissionLevel, location: LocationId) -> bool {
    match p {
        PermissionLevel::Location(id) => id == location,
        _ => false,
    }
}

/// The room of a room-level grant.
pub open spec fn room_of(p: PermissionLevel) -> Option<RoomId> {
    match p {
        PermissionLevel::Room(id) => Some(id),
        _ => None,
    }
}

/// The building of a building-level grant.
pub open spec fn building_of(p: PermissionLevel) -> Option<BuildingId> {
    match p {
        PermissionLevel::Building(id) => Some(id),
        _ => None,
    }
}

/// The location of a location-level grant.
pub open spec fn location_of(p: PermissionLevel) -> Option<LocationId> {
    match p {
        PermissionLevel::Location(id) => Some(id),
        _ => None,
    }
}

/// How a grant displays itself, such as `Room(42)`.
pub open spec fn permission_text(p: PermissionLevel) -> Seq<char> {
    match p {
        PermissionLevel::Room(id) => "Room("@ + decimal(id.value as nat) + ")"@,
        PermissionLevel::Building(id) => "Building("@ + decimal(id.value as nat) + ")"@,
        PermissionLevel::Location(id) => "Location("@ + decimal(id.value as nat) + ")"@,
    }
}

impl PermissionLevel {
    /// How the grant displays itself, such as `Room(42)`.
    pub fn to_display_string(&self) -> (s: String)
        ensures
            s@ == permission_text(*self),
    {
        let mut s = String::new();
        match self {
            PermissionLevel::Room(id) => {
                s.append("Room(");
                let t = id.to_display_string();
                s.append(t.as_str());
            },
            PermissionLevel::Building(id) => {
                s.append("Building(");
                let t = id.to_display_string();
                s.append(t.as_str());
            },
            PermissionLevel::Location(id) => {
                s.append("Location(");
                let t = id.to_display_string();
                s.append(t.as_str());
            },
        }
        s.append(")");
        assert(s@ =~= permission_text(*self));
        s
    }
}

/// Whether some grant of `perms` covers the given room.
pub open spec fn covers_room(perms: Seq<PermissionLevel>, room: RoomId, building: BuildingId, location: LocationId) -> bool {
    exists|i: int| 0 <= i < perms.len() && grants_room(#[trigger] perms[i], room, building, location)
}

/// Whether some grant of `perms` covers the whole building.
pub open spec fn covers_building(perms: Seq<PermissionLevel>, building: BuildingId, location: LocationId) -> bool {
    exists|i: int| 0 <= i < perms.len() && grants_building(#[trigger] perms[i], building, location)
}

/// Whether some grant of `perms` covers the whole location.
pub open spec fn covers_location(perms: Seq<PermissionLevel>, location: LocationId) -> bool {
    exists|i: int| 0 <= i < perms.len() && grants_location(#[trigger] perms[i], location)
}

/// The grants after adding `p`: unchanged when already held, else `p` at the end.
pub open spec fn with_permission(perms: Seq<PermissionLevel>, p: PermissionLevel) -> Seq<PermissionLevel> {
    if perms.contains(p) {
        perms
    } else {
        perms.push(p)
    }
}

/// The predicate "is another grant than `p`".
pub open spec fn other_than(p: PermissionLevel) -> spec_fn(PermissionLevel) -> bool {
    |q: PermissionLevel| q != p
}

/// The permissions granted to a user, in the order they were granted.
#[derive(Clone, Debug)]
pub struct PermissionSet {
    /// The grants.
    pub permissions: Vec<PermissionLevel>,
}

impl PermissionSet {
    /// Whether some grant covers the given room.
    pub open spec fn spec_can_access_room(&self, room: RoomId, building: BuildingId, location: LocationId) -> bool {
        covers_room(self.permissions@, room, building, location)
    }

    /// Whether some grant covers the whole building.
    pub open spec fn spec_can_access_building(&self, building: BuildingId, location: LocationId) -> bool {
        covers_building(self.permissions@, building, location)
    }

    /// Whether some grant covers the whole location.
    pub open spec fn spec_can_access_location(&self, location: LocationId) -> bool {
        covers_location(self.permissions@, location)
    }

    /// An empty permission set.
    pub fn new() -> (s: Self)
        ensures
            s.permissions@ == Seq::<PermissionLevel>::empty(),
    {
        PermissionSet { permissions: Vec::new() }
    }

    /// A permission set holding exactly the given grants.
    pub fn with_permissions(permissions: Vec<PermissionLevel>) -> (s: Self)
        ensures
            s.permissions@ == permissions@,
    {
        PermissionSet { permissions }
    }

    /// Whether the set holds the grant.
    fn holds(&self, permission: PermissionLevel) -> (found: bool)
        ensures
            found == self.permissions@.contains(permission),
    {
        let mut i: usize = 0;
        while i < self.permissions.len()
            invariant
                i <= self.permissions@.len(),
                forall|j: int| 0 <= j < i ==> self.permissions@[j] != permission,
            decreases self.permissions.len() - i,
        {
            if self.permissions[i] == permission {
                return true;
            }
            i = i + 1;
        }
        false
    }

    /// Add a grant unless the set already holds it.
    pub fn add_permission(&mut self, permission: PermissionLevel)
        ensures
            final(self).permissions@ == with_permission(old(self).permissions@, permission),
    {
        if !self.holds(permission) {
            self.permissions.push(permission);
        }
    }

    /// Remove every copy of the grant, keeping the others in order.
    pub fn remove_permission(&mut self, permission: &PermissionLevel)
        ensures
            final(self).permissions@ == old(self).permissions@.filter(other_than(*permission)),
    {
        let target = *permission;
        let ghost pred = other_than(*permission);
        let mut kept: Vec<PermissionLevel> = Vec::new();
        let mut i: usize = 0;
        let n = self.permissions.len();
        while i < n
            invariant
                n == self.permissions.len(),
                i <= n,
                target == *permission,
                pred == other_than(*permission),
                kept@ == self.permissions@.take(i as int).filter(pred),
            decreases n - i,
        {
            let p = self.permissions[i];
            proof {
                let s = self.permissions@;
                assert(s.take(i as int + 1) =~= s.take(i as int).push(p));
                s.take(i as int).lemma_filter_push(p, pred);
            }
            if p != target {
                kept.push(p);
            }
            i = i + 1;
        }
        proof {
            assert(self.permissions@.take(n as int) =~= self.permissions@);
        }
        self.permissions = kept;
    }

    /// Whether some grant covers the room: the room itself, its building or its location.
    pub fn can_access_room(&self, room_id: RoomId, building_id: BuildingId, location_id: LocationId) -> (b: bool)
        ensures
            b == self.spec_can_access_room(room_id, building_id, location_id),
    {
        let mut i: usize = 0;
        while i < self.permissions.len()
            invariant
                i <= self.permissions@.len(),
                forall|j: int| 0 <= j < i ==> !grants_room(#[trigger] self.permissions@[j], room_id, building_id, location_id),
            decreases self.permissions.len() - i,
        {
            let hit = match self.permissions[i] {
                PermissionLevel::Room(id) => id == room_id,
                PermissionLevel::Building(id) => id == building_id,
                PermissionLevel::Location(id) => id == location_id,
            };
            if hit {
                return true;
            }
            i = i + 1;
        }
        false
    }

    /// Whether some grant covers the whole building: the building or its
    /// location. A room-level grant does not.
    pub fn can_access_building(&self, building_id: BuildingId, location_id: LocationId) -> (b: bool)
        ensures
            b == self.spec_can_access_building(building_id, location_id),
    {
        let mut i: usize = 0;
        while i < self.permissions.len()
            invariant
                i <= self.permissions@.len(),
                forall|j: int| 0 <= j < i ==> !grants_building(#[trigger] self.permissions@[j], building_id, location_id),
            decreases self.permissions.len() - i,
        {
            let hit = match self.permissions[i] {
                PermissionLevel::Building(id) => id == building_id,
                PermissionLevel::Location(id) => id == location_id,
                PermissionLevel::Room(_) => false,
            };
            if hit {
                return true;
            }
            i = i + 1;
        }
        false
    }

    /// Whether some grant covers the whole location.
    pub fn can_access_location(&self, location_id: LocationId) -> (b: bool)
        ensures
            b == self.spec_can_access_location(location_id),
    {
        let mut i: usize = 0;
        while i < self.permissions.len()
            invariant
                i <= self.permissions@.len(),
                forall|j: int| 0 <= j < i ==> !grants_location(#[trigger] self.permissions@[j], location_id),
            decreases self.permissions.len() - i,
        {
            let hit = match self.permissions[i] {
                PermissionLevel::Location(id) => id == location_id,
                _ => false,
            };
            if hit {
                return true;
            }
            i = i + 1;
        }
        false
    }

    /// The rooms of the room-level grants, in order.
    pub fn get_authorized_rooms(&self) -> (rooms: Vec<RoomId>)
        ensures
            rooms@ == self.permissions@.filter_map(|p: PermissionLevel| room_of(p)),
    {
        let ghost f = |p: PermissionLevel| room_of(p);
        let mut out: Vec<RoomId> = Vec::new();
        let mut i: usize = 0;
        while i < self.permissions.len()
            invariant
                i <= self.permissions@.len(),
                f == (|p: PermissionLevel| room_of(p)),
                out@ == self.permissions@.take(i as int).filter_map(f),
            decreases self.permissions.len() - i,
        {
            proof { self.permissions@.lemma_filter_map_take_succ(f, i as int); }
            match self.permissions[i] {
                PermissionLevel::Room(id) => out.push(id),
                _ => {},
            }
            i = i + 1;
        }
        proof { assert(self.permissions@.take(i as int) =~= self.permissions@); }
        out
    }

    /// The buildings of the building-level grants, in order.
    pub fn get_authorized_buildings(&self) -> (buildings: Vec<BuildingId>)
        ensures
            buildings@ == self.permissions@.filter_map(|p: PermissionLevel| building_of(p)),
    {
        let ghost f = |p: PermissionLevel| building_of(p);
        let mut out: Vec<BuildingId> = Vec::new();
        let mut i: usize = 0;
        while i < self.permissions.len()
            invariant
                i <= self.permissions@.len(),
                f == (|p: PermissionLevel| building_of(p)),
                out@ == self.permissions@.take(i as int).filter_map(f),
            decreases self.permissions.len() - i,
        {
            proof { self.permissions@.lemma_filter_map_take_succ(f, i as int); }
            match self.permissions[i] {
                PermissionLevel::Building(id) => out.push(id),
                _ => {},
            }
            i = i + 1;
        }
        proof { assert(self.permissions@.take(i as int) =~= self.permissions@); }
        out
    }

    /// The locations of the location-level grants, in order.
    pub fn get_authorized_locations(&self) -> (locations: Vec<LocationId>)
        ensures
            locations@ == self.permissions@.filter_map(|p: PermissionLevel| location_of(p)),
    {
        let ghost f = |p: PermissionLevel| location_of(p);
        let mut out: Vec<LocationId> = Vec::new();
        let mut i: usize = 0;
        while i < self.permissions.len()
            invariant
                i <= self.permissions@.len(),
                f == (|p: PermissionLevel| location_of(p)),
                out@ == self.permissions@.take(i as int).filter_map(f),
            decreases self.permissions.len() - i,
        {
            proof { self.permissions@.lemma_filter_map_take_succ(f, i as int); }
            match self.permissions[i] {
                PermissionLevel::Location(id) => out.push(id),
                _ => {},
            }
            i = i + 1;
        }
        proof { assert(self.permissions@.take(i as int) =~= self.permissions@); }
        out
    }

    /// Whether the set holds no grant.
    pub fn is_empty(&self) -> (b: bool)
        ensures
            b == (self.permissions@.len() == 0),
    {
        self.permissions.len() == 0
    }

    /// Number of grants.
    pub fn len(&self) -> (n: usize)
        ensures
            n == self.permissions@.len(),
    {
        self.permissions.len()
    }

    /// Whether some grant covers the whole location; room and building
    /// grants are not looked up in the facility and do not count.
    pub fn has_any_location_permissions(&self, location_id: LocationId) -> (b: bool)
        ensures
            b == self.spec_can_access_location(location_id),
    {
        self.can_access_location(location_id)
    }
}

impl Default for PermissionSet {
    fn default() -> (s: Self)
        ensures
            s.permissions@ == Seq::<PermissionLevel>::empty(),
    {
        Self::new()
    }
}

/// Access is hierarchical: a grant that covers a location covers every
/// building there, and one that covers a building covers every room in it.
pub proof fn law_access_hierarchy(perms: Seq<PermissionLevel>, room: RoomId, building: BuildingId, location: LocationId)
    ensures
        covers_location(perms, location) ==> covers_building(perms, building, location),
        covers_building(perms, building, location) ==> covers_room(perms, room, building, location),
{
    if covers_location(perms, location) {
        let i = choose|i: int| 0 <= i < perms.len() && grants_location(#[trigger] perms[i], location);
        assert(grants_building(perms[i], building, location));
    }
    if covers_building(perms, building, location) {
        let i = choose|i: int| 0 <= i < perms.len() && grants_building(#[trigger] perms[i], building, location);
        assert(grants_room(perms[i], room, building, location));
    }
}

/// Adding a grant makes it held, covers what it covers and keeps everything
/// covered before; adding it again changes nothing.
pub proof fn law_add_permission(
    perms: Seq<PermissionLevel>,
    p: PermissionLevel,
    room: RoomId,
    building: BuildingId,
    location: LocationId,
)
    ensures
        with_permission(perms, p).contains(p),
        with_permission(with_permission(perms, p), p) == with_permission(perms, p),
        covers_room(with_permission(perms, p), room, building, location)
            == (covers_room(perms, room, building, location) || grants_room(p, room, building, location)),
        covers_building(with_permission(perms, p), building, location)
            == (covers_building(perms, building, location) || grants_building(p, building, location)),
        covers_location(with_permission(perms, p), location)
            == (covers_location(perms, location) || grants_location(p, location)),
{
    let added = with_permission(perms, p);
    if perms.contains(p) {
        let k = choose|k: int| 0 <= k < perms.len() && perms[k] == p;
        assert(perms[k] == p);
    } else {
        let n = perms.len() as int;
        assert(added[n] == p);
        assert forall|i: int| 0 <= i < n implies added[i] == perms[i] by {}
        if covers_room(added, room, building, location) {
            let i = choose|i: int| 0 <= i < added.len() && grants_room(#[trigger] added[i], room, building, location);
            if i < n {
                assert(grants_room(perms[i], room, building, location));
            }
        }
        if covers_room(perms, room, building, location) {
            let i = choose|i: int| 0 <= i < perms.len() && grants_room(#[trigger] perms[i], room, building, location);
            assert(grants_room(added[i], room, building, location));
        }
        if covers_building(added, building, location) {
            let i = choose|i: int| 0 <= i < added.len() && grants_building(#[trigger] added[i], building, location);
            if i < n {
                assert(grants_building(perms[i], building, location));
            }
        }
        if covers_building(perms, building, location) {
            let i = choose|i: int| 0 <= i < perms.len() && grants_building(#[trigger] perms[i], building, location);
            assert(grants_building(added[i], building, location));
        }
        if covers_location(added, location) {
            let i = choose|i: int| 0 <= i < added.len() && grants_location(#[trigger] added[i], location);
            if i < n {
                assert(grants_location(perms[i], location));
            }
        }
        if covers_location(perms, location) {
            let i = choose|i: int| 0 <= i < perms.len() && grants_location(#[trigger] perms[i], location);
            assert(grants_location(added[i], location));
        }
    }
}

/// Filtering a sequence whose elements all satisfy the predicate keeps it whole.
proof fn lemma_filter_keeps_all(s: Seq<PermissionLevel>, pred: spec_fn(PermissionLevel) -> bool)
    requires
        forall|i: int| 0 <= i < s.len() ==> pred(#[trigger] s[i]),
    ensures
        s.filter(pred) == s,
    decreases s.len(),
{
    if s.len() > 0 {
        let prefix = s.drop_last();
        assert forall|i: int| 0 <= i < prefix.len() implies pred(#[trigger] prefix[i]) by {
            assert(prefix[i] == s[i]);
        }
        lemma_filter_keeps_all(prefix, pred);
        prefix.lemma_filter_push(s.last(), pred);
        assert(prefix.push(s.last()) =~= s);
    }
}

/// Removing a grant leaves no copy of it and covers nothing that was not
/// covered before; it undoes adding a grant that was not held.
pub proof fn law_remove_permission(
    perms: Seq<PermissionLevel>,
    p: PermissionLevel,
    room: RoomId,
    building: BuildingId,
    location: LocationId,
)
    ensures
        !perms.filter(other_than(p)).contains(p),
        covers_room(perms.filter(other_than(p)), room, building, location) ==> covers_room(perms, room, building, location),
        covers_building(perms.filter(other_than(p)), building, location) ==> covers_building(perms, building, location),
        covers_location(perms.filter(other_than(p)), location) ==> covers_location(perms, location),
        !perms.contains(p) ==> with_permission(perms, p).filter(other_than(p)) == perms,
{
    broadcast use vstd::seq_lib::group_filter_ensures;
    let pred = other_than(p);
    let kept = perms.filter(pred);
    if kept.contains(p) {
        let i = choose|i: int| 0 <= i < kept.len() && kept[i] == p;
        assert(pred(kept[i]));
    }
    if covers_room(kept, room, building, location) {
        let i = choose|i: int| 0 <= i < kept.len() && grants_room(#[trigger] kept[i], room, building, location);
        assert(kept.contains(kept[i]));
        perms.lemma_filter_contains_rev(pred, kept[i]);
        let j = choose|j: int| 0 <= j < perms.len() && perms[j] == kept[i];
        assert(grants_room(perms[j], room, building, location));
    }
    if covers_building(kept, building, location) {
        let i = choose|i: int| 0 <= i < kept.len() && grants_building(#[trigger] kept[i], building, location);
        assert(kept.contains(kept[i]));
        perms.lemma_filter_contains_rev(pred, kept[i]);
        let j = choose|j: int| 0 <= j < perms.len() && perms[j] == kept[i];
        assert(grants_building(perms[j], building, location));
    }
    if covers_location(kept, location) {
        let i = choose|i: int| 0 <= i < kept.len() && grants_location(#[trigger] kept[i], location);
        assert(kept.contains(kept[i]));
        perms.lemma_filter_contains_rev(pred, kept[i]);
        let j = choose|j: int| 0 <= j < perms.len() && perms[j] == kept[i];
        assert(grants_location(perms[j], location));
    }
    if !perms.contains(p) {
        assert forall|i: int| 0 <= i < perms.len() implies pred(#[trigger] perms[i]) by {
            if perms[i] == p {
                assert(perms.contains(p));
            }
        }
        lemma_filter_keeps_all(perms, pred);
        perms.lemma_filter_push(p, pred);
    }
}

} // verus!
