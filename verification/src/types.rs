//! Identifiers and the enumerations shared by the whole library.

use vstd::prelude::*;
use crate::text::{decimal, push_decimal};

verus! {

/// Draws a value from `rand::random::<u64>()`, which reads the thread-local
/// generator. Nothing is promised about the value.
#[verifier::external_body]
fn random_u64() -> u64 {
    rand::random::<u64>()
}

/// Identifier of a user.
#[derive(Clone, Copy, Debug, PartialEq, Eq, Hash, Structural)]
pub struct UserId {
    pub value: u64,
}

/// Identifier of a room.
#[derive(Clone, Copy, Debug, PartialEq, Eq, Hash, Structural)]
pub struct RoomId {
    pub value: u64,
}

/// Identifier of a building.
#[derive(Clone, Copy, Debug, PartialEq, Eq, Hash, Structural)]
pub struct BuildingId {
    pub value: u64,
}

/// Identifier of a location.
#[derive(Clone, Copy, Debug, PartialEq, Eq, Hash, Structural)]
pub struct LocationId {
    pub value: u64,
}

impl UserId {
    /// A fresh identifier drawn at random.
    pub fn new() -> (id: Self) {
        UserId { value: random_u64() }
    }

    /// The identifier with the given number.
    pub fn from_value(value: u64) -> (id: Self)
        ensures
            id.value == value,
    {
        UserId { value }
    }
}

impl RoomId {
    /// A fresh identifier drawn at random.
    pub fn new() -> (id: Self) {
        RoomId { value: random_u64() }
    }

    /// The identifier with the given number.
    pub fn from_value(value: u64) -> (id: Self)
        ensures
            id.value == value,
    {
        RoomId { value }
    }
}

impl BuildingId {
    /// A fresh identifier drawn at random.
    pub fn new() -> (id: Self) {
        BuildingId { value: random_u64() }
    }

    /// The identifier with the given number.
    pub fn from_value(value: u64) -> (id: Self)
        ensures
            id.value == value,
    {
        BuildingId { value }
    }
}

impl LocationId {
    /// A fresh identifier drawn at random.
    pub fn new() -> (id: Self) {
        LocationId { value: random_u64() }
    }

    /// The identifier with the given number.
    pub fn from_value(value: u64) -> (id: Self)
        ensures
            id.value == value,
    {
        LocationId { value }
    }
}

/// Kind of room.
#[derive(Clone, Copy, Debug, PartialEq, Eq, Hash, Structural)]
pub enum RoomType {
    Lobby,
    Workspace,
    MeetingRoom,
    Bathroom,
    Cafeteria,
    Kitchen,
    Storage,
    ExecutiveOffice,
    ServerRoom,
    Laboratory,
}

/// Security level required to enter a room, from least to most restrictive.
#[derive(Clone, Copy, Debug, PartialEq, Eq, Hash, Structural)]
pub enum SecurityLevel {
    Public,
    Standard,
    Restricted,
    HighSecurity,
    MaxSecurity,
}

/// Kind of activity in a user's daily schedule.
#[derive(Clone, Copy, Debug, PartialEq, Eq, Hash, Structural)]
pub enum ActivityType {
    Arrival,
    Meeting,
    Bathroom,
    Lunch,
    Collaboration,
    Departure,
    NightPatrol,
    UnauthorizedAccess,
}

/// Kind of access event.
#[derive(Clone, Copy, Debug, PartialEq, Eq, Hash, Structural)]
pub enum EventType {
    Success,
    Failure,
    InvalidBadge,
    OutsideHours,
    Suspicious,
}

/// Why an access attempt failed.
#[derive(Clone, Copy, Debug, PartialEq, Eq, Hash, Structural)]
pub enum FailureReason {
    Unauthorized,
    OutsideHours,
    BadgeReaderError,
    SystemFailure,
    CuriousUser,
    ImpossibleTraveler,
}

/// Which optional fields an access event carries into the output.
#[derive(Clone, Copy, Debug, PartialEq, Eq, Structural)]
pub struct OutputFieldConfig {
    pub include_failure_reason: bool,
    pub include_event_type: bool,
    pub include_metadata: bool,
    pub include_all: bool,
}

impl OutputFieldConfig {
    /// The minimal configuration: no optional field.
    pub fn minimal() -> (c: Self)
        ensures
            !c.include_failure_reason,
            !c.include_event_type,
            !c.include_metadata,
            !c.include_all,
    {
        OutputFieldConfig {
            include_failure_reason: false,
            include_event_type: false,
            include_metadata: false,
            include_all: false,
        }
    }
}

impl Default for OutputFieldConfig {
    fn default() -> (c: Self)
        ensures
            c == Self::minimal_spec(),
    {
        Self::minimal()
    }
}

impl OutputFieldConfig {
    /// The configuration with no optional field.
    pub open spec fn minimal_spec() -> Self {
        OutputFieldConfig {
            include_failure_reason: false,
            include_event_type: false,
            include_metadata: false,
            include_all: false,
        }
    }
}

/// Whether `ids` holds `id`.
pub fn contains_room_id(ids: &Vec<RoomId>, id: RoomId) -> (found: bool)
    ensures
        found == ids@.contains(id),
{
    let mut i: usize = 0;
    while i < ids.len()
        invariant
            i <= ids.len(),
            forall|j: int| 0 <= j < i ==> ids@[j] != id,
        decreases ids.len() - i,
    {
        if ids[i] == id {
            return true;
        }
        i = i + 1;
    }
    false
}

impl UserId {
    /// The identifier as text: its number in decimal.
    pub fn to_display_string(&self) -> (s: String)
        ensures
            s@ == decimal(self.value as nat),
    {
        let mut s = String::new();
        push_decimal(&mut s, self.value as u128);
        assert(s@ =~= decimal(self.value as nat));
        s
    }
}

impl RoomId {
    /// The identifier as text: its number in decimal.
    pub fn to_display_string(&self) -> (s: String)
        ensures
            s@ == decimal(self.value as nat),
    {
        let mut s = String::new();
        push_decimal(&mut s, self.value as u128);
        assert(s@ =~= decimal(self.value as nat));
        s
    }
}

impl BuildingId {
    /// The identifier as text: its number in decimal.
    pub fn to_display_string(&self) -> (s: String)
        ensures
            s@ == decimal(self.value as nat),
    {
        let mut s = String::new();
        push_decimal(&mut s, self.value as u128);
        assert(s@ =~= decimal(self.value as nat));
        s
    }
}

impl LocationId {
    /// The identifier as text: its number in decimal.
    pub fn to_display_string(&self) -> (s: String)
        ensures
            s@ == decimal(self.value as nat),
    {
        let mut s = String::new();
        push_decimal(&mut s, self.value as u128);
        assert(s@ =~= decimal(self.value as nat));
        s
    }
}

} // verus!
