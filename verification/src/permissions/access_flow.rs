//! The sequence of rooms that must be accessed, in order, to reach a target room.

use vstd::prelude::*;
use crate::permissions::permission_set::{PermissionLevel, PermissionSet, room_of};
use crate::time::{TimeDelta, trunc_div, trunc_div_exec};
use crate::types::{RoomId, contains_room_id};

verus! {

/// The rooms to access in order to reach a target room, the last one being
/// the target, with the estimated time to go through them.
#[derive(Clone, Debug)]
pub struct AccessFlow {
    /// Rooms to access, in order; the last one is the target.
    pub required_sequence: Vec<RoomId>,
    /// Estimated time to go through the whole sequence.
    pub estimated_travel_time: TimeDelta,
    /// Whether the flow passes a building lobby.
    pub requires_lobby_access: bool,
    /// Whether the flow passes a high-security room.
    pub involves_high_security: bool,
}

/// The rooms a permission set grants one by one.
pub open spec fn granted_rooms(permissions: PermissionSet) -> Seq<RoomId> {
    permissions.permissions@.filter_map(|p| room_of(p))
}

/// The result of checking an access flow against a permission set.
#[derive(Clone, Debug)]
pub struct ValidationResult {
    /// Whether every room of the flow is granted.
    pub is_valid: bool,
    /// The target room, when it is not granted.
    pub unauthorized_rooms: Vec<RoomId>,
    /// The rooms before the target that are not granted, in order.
    pub missing_intermediate_access: Vec<RoomId>,
    /// Whether the flow passes a building lobby.
    pub requires_lobby_access: bool,
    /// Whether the flow passes a high-security room.
    pub involves_high_security: bool,
}

impl AccessFlow {
    /// The target room: the last of the sequence, if any.
    pub open spec fn spec_target_room(&self) -> Option<RoomId> {
        if self.required_sequence@.len() == 0 {
            None
        } else {
            Some(self.required_sequence@.last())
        }
    }

    /// The rooms before the target.
    pub open spec fn spec_intermediate_rooms(&self) -> Seq<RoomId> {
        if self.required_sequence@.len() <= 1 {
            Seq::empty()
        } else {
            self.required_sequence@.drop_last()
        }
    }

    /// A flow with the given parts.
    pub fn new(
        required_sequence: Vec<RoomId>,
        estimated_travel_time: TimeDelta,
        requires_lobby_access: bool,
        involves_high_security: bool,
    ) -> (f: Self)
        ensures
            f.required_sequence@ == required_sequence@,
            f.estimated_travel_time == estimated_travel_time,
            f.requires_lobby_access == requires_lobby_access,
            f.involves_high_security == involves_high_security,
    {
        AccessFlow { required_sequence, estimated_travel_time, requires_lobby_access, involves_high_security }
    }

    /// A flow made of the target room alone, passing no lobby and no
    /// high-security room.
    pub fn direct(target_room: RoomId, travel_time: TimeDelta) -> (f: Self)
        ensures
            f.required_sequence@ == seq![target_room],
            f.estimated_travel_time == travel_time,
            !f.requires_lobby_access,
            !f.involves_high_security,
    {
        let mut seq = Vec::new();
        seq.push(target_room);
        AccessFlow {
            required_sequence: seq,
            estimated_travel_time: travel_time,
            requires_lobby_access: false,
            involves_high_security: false,
        }
    }

    /// The target room: the last of the sequence, if any.
    pub fn target_room(&self) -> (r: Option<RoomId>)
        ensures
            r == self.spec_target_room(),
    {
        let n = self.required_sequence.len();
        if n == 0 {
            None
        } else {
            Some(self.required_sequence[n - 1])
        }
    }

    /// Number of rooms in the sequence.
    pub fn sequence_length(&self) -> (n: usize)
        ensures
            n == self.required_sequence@.len(),
    {
        self.required_sequence.len()
    }

    /// Whether the sequence is the target alone.
    pub fn is_direct_access(&self) -> (b: bool)
        ensures
            b == (self.required_sequence@.len() == 1),
    {
        self.required_sequence.len() == 1
    }

    /// The rooms before the target, in order.
    pub fn intermediate_rooms(&self) -> (rooms: Vec<RoomId>)
        ensures
            rooms@ == self.spec_intermediate_rooms(),
    {
        let n = self.required_sequence.len();
        let mut out: Vec<RoomId> = Vec::new();
        if n <= 1 {
            return out;
        }
        let mut i: usize = 0;
        while i < n - 1
            invariant
                n == self.required_sequence@.len(),
                n > 1,
                i <= n - 1,
                out@ == self.required_sequence@.take(i as int),
            decreases n - 1 - i,
        {
            out.push(self.required_sequence[i]);
            i = i + 1;
            assert(out@ =~= self.required_sequence@.take(i as int));
        }
        assert(out@ =~= self.required_sequence@.drop_last());
        out
    }

    /// The result of checking the flow against `permissions`: a room counts
    /// as granted only through a room-level grant; a target that is not
    /// granted is reported as unauthorized, and the other rooms that are not
    /// granted as missing intermediate access.
    pub open spec fn spec_validate(&self, permissions: PermissionSet) -> (Seq<RoomId>, Seq<RoomId>) {
        let s = self.required_sequence@;
        let granted = granted_rooms(permissions);
        if s.len() == 0 {
            (Seq::empty(), Seq::empty())
        } else {
            (
                if granted.contains(s.last()) { Seq::empty() } else { seq![s.last()] },
                s.drop_last().filter(|r: RoomId| !granted.contains(r)),
            )
        }
    }

    /// Check every room of the flow against the room-level grants of `permissions`.
    pub fn validate_permissions(&self, permissions: &PermissionSet) -> (result: ValidationResult)
        ensures
            result.unauthorized_rooms@ == self.spec_validate(*permissions).0,
            result.missing_intermediate_access@ == self.spec_validate(*permissions).1,
            result.is_valid == (self.spec_validate(*permissions).0.len() == 0
                && self.spec_validate(*permissions).1.len() == 0),
            result.requires_lobby_access == self.requires_lobby_access,
            result.involves_high_security == self.involves_high_security,
    {
        let granted = permissions.get_authorized_rooms();
        let ghost g = granted_rooms(*permissions);
        assert(granted@ == g);
        let ghost pred = |r: RoomId| !g.contains(r);
        let n = self.required_sequence.len();
        let mut unauthorized_rooms: Vec<RoomId> = Vec::new();
        let mut missing: Vec<RoomId> = Vec::new();
        if n > 0 {
            let mut i: usize = 0;
            while i < n - 1
                invariant
                    n == self.required_sequence@.len(),
                    n > 0,
                    i <= n - 1,
                    granted@ == g,
                    pred == (|r: RoomId| !g.contains(r)),
                    missing@ == self.required_sequence@.take(i as int).filter(pred),
                decreases n - 1 - i,
            {
                let room_id = self.required_sequence[i];
                proof {
                    let s = self.required_sequence@;
                    assert(s.take(i as int + 1) =~= s.take(i as int).push(room_id));
                    s.take(i as int).lemma_filter_push(room_id, pred);
                }
                if !contains_room_id(&granted, room_id) {
                    missing.push(room_id);
                }
                i = i + 1;
            }
            proof {
                assert(self.required_sequence@.take(n - 1) =~= self.required_sequence@.drop_last());
            }
            let target = self.required_sequence[n - 1];
            if !contains_room_id(&granted, target) {
                unauthorized_rooms.push(target);
            }
            proof {
                assert(unauthorized_rooms@ =~= self.spec_validate(*permissions).0);
            }
        }
        let is_valid = unauthorized_rooms.len() == 0 && missing.len() == 0;
        let result = ValidationResult {
            is_valid,
            unauthorized_rooms,
            missing_intermediate_access: missing,
            requires_lobby_access: self.requires_lobby_access,
            involves_high_security: self.involves_high_security,
        };
        result
    }

    /// Whether the flow passes a high-security room.
    pub fn requires_security_clearance(&self) -> (b: bool)
        ensures
            b == self.involves_high_security,
    {
        self.involves_high_security
    }

    /// Estimated time for the rooms `from_index..to_index`: the total time is
    /// divided evenly over the segments between consecutive rooms (at least
    /// one), rounded toward zero to whole milliseconds, and multiplied by the
    /// number of rooms asked for. `None` unless `from_index < to_index <=
    /// sequence length`.
    pub open spec fn spec_segment_millis(&self, from_index: int, to_index: int) -> int {
        let n = self.required_sequence@.len();
        let segments = if n <= 1 { 1 } else { n - 1 };
        trunc_div(self.estimated_travel_time.millis as int, segments) * (to_index - from_index)
    }

    /// Estimated time for the part `from_index..to_index` of the flow.
    pub fn get_segment_time(&self, from_index: usize, to_index: usize) -> (t: Option<TimeDelta>)
        requires
            from_index < to_index <= self.required_sequence@.len() ==> i64::MIN
                <= self.spec_segment_millis(from_index as int, to_index as int) <= i64::MAX,
        ensures
            match t {
                None => !(from_index < to_index <= self.required_sequence@.len()),
                Some(d) => from_index < to_index <= self.required_sequence@.len() && d.millis
                    == self.spec_segment_millis(from_index as int, to_index as int),
            },
    {
        let n = self.required_sequence.len();
        if from_index >= to_index || to_index > n {
            return None;
        }
        let total_segments: usize = if n <= 1 { 1 } else { n - 1 };
        let count = to_index - from_index;
        let per = trunc_div_exec(self.estimated_travel_time.millis, total_segments as u64);
        let total: i128 = (per as i128) * (count as i128);
        Some(TimeDelta::milliseconds(total as i64))
    }
}

impl ValidationResult {
    /// Whether every room of the flow is granted.
    pub fn is_fully_authorized(&self) -> (b: bool)
        ensures
            b == self.is_valid,
    {
        self.is_valid
    }

    /// The rooms not granted: the target first, then the intermediate ones.
    pub fn get_all_unauthorized_rooms(&self) -> (rooms: Vec<RoomId>)
        ensures
            rooms@ == self.unauthorized_rooms@ + self.missing_intermediate_access@,
    {
        let mut out = self.unauthorized_rooms.clone();
        let mut extra = self.missing_intermediate_access.clone();
        out.append(&mut extra);
        out
    }

    /// Whether the target is granted while some intermediate room is not.
    pub fn has_target_access_only(&self) -> (b: bool)
        ensures
            b == (self.unauthorized_rooms@.len() == 0 && self.missing_intermediate_access@.len() > 0),
    {
        self.unauthorized_rooms.len() == 0 && self.missing_intermediate_access.len() > 0
    }
}


/// Whether the permission set grants the room one by one.
pub open spec fn grants_room(permissions: PermissionSet, r: RoomId) -> bool {
    permissions.permissions@.contains(PermissionLevel::Room(r))
}

/// The rooms granted one by one are exactly those a room-level grant names.
proof fn lemma_granted_rooms_are_room_grants(permissions: PermissionSet, r: RoomId)
    ensures
        granted_rooms(permissions).contains(r) == grants_room(permissions, r),
{
    let f = |p: PermissionLevel| room_of(p);
    lemma_filter_map_room_grants(permissions.permissions@, r);
}

/// A room is in the rooms a list of grants names one by one exactly when
/// a room-level grant for it is in the list.
proof fn lemma_filter_map_room_grants(ps: Seq<PermissionLevel>, r: RoomId)
    ensures
        ps.filter_map(|p: PermissionLevel| room_of(p)).contains(r) == ps.contains(PermissionLevel::Room(r)),
    decreases ps.len(),
{
    let f = |p: PermissionLevel| room_of(p);
    if ps.len() > 0 {
        let rest = ps.drop_last();
        lemma_filter_map_room_grants(rest, r);
        assert(ps =~= rest.push(ps.last()));
        let fm = ps.filter_map(f);
        let rm = rest.filter_map(f);
        if ps.contains(PermissionLevel::Room(r)) {
            let k = choose|k: int| 0 <= k < ps.len() && ps[k] == PermissionLevel::Room(r);
            if k < rest.len() {
                assert(rest[k] == ps[k]);
                assert(rest.contains(PermissionLevel::Room(r)));
                let j = choose|j: int| 0 <= j < rm.len() && rm[j] == r;
                match f(ps.last()) {
                    Some(x) => { assert(fm == rm + seq![x]); assert(fm[j] == rm[j]); },
                    None => {},
                }
            } else {
                assert(fm == rm + seq![r]);
                assert(fm[rm.len() as int] == r);
            }
        } else {
            if fm.contains(r) {
                let j = choose|j: int| 0 <= j < fm.len() && fm[j] == r;
                match f(ps.last()) {
                    Some(x) => {
                        assert(fm == rm + seq![x]);
                        if j < rm.len() {
                            assert(rm[j] == r);
                        } else {
                            assert(ps.last() == PermissionLevel::Room(x));
                            assert(ps[ps.len() - 1] == PermissionLevel::Room(r));
                        }
                    },
                    None => {
                        assert(rm[j] == r);
                    },
                }
                assert(false);
            }
            assert forall|k: int| 0 <= k < rest.len() implies rest[k] != PermissionLevel::Room(r) by {
                assert(rest[k] == ps[k]);
            }
        }
    }
}

/// Checking a flow against a permission set looks at every room of it:
/// a room before the target is reported missing exactly when no room-level
/// grant names it, the target is reported unauthorized exactly when no
/// room-level grant names it, and the flow is valid exactly when every one
/// of its rooms is granted.
pub proof fn law_validation_checks_every_room(flow: AccessFlow, permissions: PermissionSet)
    ensures
        ({
            let s = flow.required_sequence@;
            let (unauthorized, missing) = flow.spec_validate(permissions);
            &&& forall|r: RoomId| #[trigger] missing.contains(r)
                <==> (exists|i: int| 0 <= i < s.len() - 1 && s[i] == r) && !grants_room(permissions, r)
            &&& forall|r: RoomId| #[trigger] unauthorized.contains(r)
                <==> s.len() > 0 && s.last() == r && !grants_room(permissions, r)
            &&& (unauthorized.len() == 0 && missing.len() == 0)
                <==> forall|i: int| 0 <= i < s.len() ==> grants_room(permissions, #[trigger] s[i])
        }),
{
    broadcast use vstd::seq_lib::group_filter_ensures;
    let s = flow.required_sequence@;
    let g = granted_rooms(permissions);
    let pred = |r: RoomId| !g.contains(r);
    let (unauthorized, missing) = flow.spec_validate(permissions);
    assert forall|r: RoomId| #[trigger] g.contains(r) == grants_room(permissions, r) by {
        lemma_granted_rooms_are_room_grants(permissions, r);
    }
    if s.len() > 0 {
        let d = s.drop_last();
        assert(missing == d.filter(pred));
        assert forall|r: RoomId| #[trigger] missing.contains(r)
            <==> (exists|i: int| 0 <= i < s.len() - 1 && s[i] == r) && !grants_room(permissions, r) by {
            if missing.contains(r) {
                d.lemma_filter_contains_rev(pred, r);
                let i = choose|i: int| 0 <= i < d.len() && d[i] == r;
                assert(s[i] == d[i]);
            }
            if (exists|i: int| 0 <= i < s.len() - 1 && s[i] == r) && !grants_room(permissions, r) {
                let i = choose|i: int| 0 <= i < s.len() - 1 && s[i] == r;
                assert(d[i] == s[i]);
                d.lemma_filter_contains(pred, i);
            }
        }
        assert forall|r: RoomId| #[trigger] unauthorized.contains(r)
            <==> s.len() > 0 && s.last() == r && !grants_room(permissions, r) by {
            if unauthorized.contains(r) {
                assert(unauthorized == seq![s.last()]);
            }
            if s.last() == r && !grants_room(permissions, r) {
                assert(unauthorized[0] == r);
            }
        }
        if unauthorized.len() == 0 && missing.len() == 0 {
            assert forall|i: int| 0 <= i < s.len() implies grants_room(permissions, #[trigger] s[i]) by {
                if i == s.len() - 1 {
                    if !grants_room(permissions, s[i]) {
                        assert(unauthorized.contains(s.last()));
                    }
                } else {
                    if !grants_room(permissions, s[i]) {
                        assert(d[i] == s[i]);
                        d.lemma_filter_contains(pred, i);
                    }
                }
            }
        }
        if forall|i: int| 0 <= i < s.len() ==> grants_room(permissions, #[trigger] s[i]) {
            assert(grants_room(permissions, s[s.len() - 1]));
            if missing.len() > 0 {
                assert(missing.contains(missing[0]));
                d.lemma_filter_contains_rev(pred, missing[0]);
                let i = choose|i: int| 0 <= i < d.len() && d[i] == missing[0];
                assert(s[i] == d[i]);
                assert(grants_room(permissions, s[i]));
            }
        }
    }
}

} // verus!
