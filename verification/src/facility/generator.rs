//! Generation of buildings and rooms, and the names the generators give
//! locations, buildings and rooms.

use vstd::prelude::*;
use vstd::string::StringExecFns;
use rand::{Rng, SeedableRng};
use crate::facility::building::{Building, building_validation, is_first_foreign};
use crate::facility::location::{Location, is_first_bad_building, location_validation};
use crate::facility::registry::{LocationRegistry, is_first_bad_location, registry_validation};
use crate::facility::room::Room;
use crate::text::{decimal, push_decimal};
use crate::types::{BuildingId, LocationId, RoomId, RoomType, SecurityLevel};

verus! {

/// The seedable random generator of `rand`.
#[verifier::external_type_specification]
#[verifier::external_body]
pub struct ExStdRng(rand::rngs::StdRng);

/// Calls `StdRng::from_entropy()`: a generator seeded from the operating
/// system's randomness. Nothing is claimed of it.
#[verifier::external_body]
fn std_rng_from_entropy() -> rand::rngs::StdRng {
    rand::rngs::StdRng::from_entropy()
}

/// Calls `StdRng::seed_from_u64(seed)`: a generator whose draws follow
/// from the seed. Nothing is claimed of it.
#[verifier::external_body]
fn std_rng_from_seed(seed: u64) -> rand::rngs::StdRng {
    rand::rngs::StdRng::seed_from_u64(seed)
}

/// Calls `rng.gen_range(low..=high)`, which returns a value drawn uniformly
/// from the inclusive range and panics when the range is empty. The contract
/// claims only that the value lies in the range.
#[verifier::external_body]
fn draw_between(rng: &mut rand::rngs::StdRng, low: usize, high: usize) -> (r: usize)
    requires
        low <= high,
    ensures
        low <= r <= high,
{
    rng.gen_range(low..=high)
}

/// The cities whose names the first locations take.
pub open spec fn city_names() -> Seq<Seq<char>> {
    seq![
        "Seattle"@, "Portland"@, "San Francisco"@, "Los Angeles"@, "Denver"@, "Chicago"@, "Austin"@,
        "Dallas"@, "Atlanta"@, "Miami"@, "Boston"@, "New York"@, "Philadelphia"@, "Washington DC"@,
        "Toronto"@, "Vancouver"@, "London"@, "Paris"@, "Berlin"@, "Amsterdam"@, "Stockholm"@,
        "Copenhagen"@, "Dublin"@, "Madrid"@, "Rome"@, "Zurich"@, "Vienna"@, "Tokyo"@, "Seoul"@,
        "Singapore"@, "Sydney"@, "Melbourne"@, "Mumbai"@, "Bangalore"@, "Tel Aviv"@, "Dubai"@,
        "São Paulo"@, "Mexico City"@, "Buenos Aires"@, "Cape Town"@,
    ]
}

/// The name of the location generated at position `index`: the city's
/// office for the first forty, `Location n` (counting from 1) after them.
pub open spec fn location_name_text(index: nat) -> Seq<char> {
    if index < city_names().len() {
        city_names()[index as int] + " Office"@
    } else {
        "Location "@ + decimal(index + 1)
    }
}

/// The names of the first buildings of a location.
pub open spec fn building_names() -> Seq<Seq<char>> {
    seq![
        "Main Building"@, "North Tower"@, "South Tower"@, "East Wing"@, "West Wing"@,
        "Executive Building"@, "Research Center"@, "Innovation Hub"@, "Technology Center"@,
        "Operations Center"@, "Administrative Building"@, "Development Center"@,
    ]
}

/// The name of the building generated at position `index`: one of the
/// first twelve names, `Building n` (counting from 1) after them.
pub open spec fn building_name_text(index: nat) -> Seq<char> {
    if index < building_names().len() {
        building_names()[index as int]
    } else {
        "Building "@ + decimal(index + 1)
    }
}

/// The words a room of the kind is named with, before its number.
pub open spec fn room_name_options(t: RoomType) -> Seq<Seq<char>> {
    match t {
        RoomType::Lobby => seq!["Main Lobby"@],
        RoomType::Workspace => seq!["Open Office"@, "Workspace"@, "Desk Area"@, "Team Space"@],
        RoomType::MeetingRoom => seq![
            "Conference Room"@, "Meeting Room"@, "Boardroom"@, "Discussion Room"@,
            "Collaboration Space"@, "Video Conference Room"@, "Training Room"@,
        ],
        RoomType::Bathroom => seq!["Restroom"@],
        RoomType::Cafeteria => seq!["Cafeteria"@, "Dining Hall"@, "Food Court"@, "Lunch Room"@],
        RoomType::Kitchen => seq!["Break Room"@, "Kitchen"@, "Pantry"@, "Coffee Station"@],
        RoomType::ServerRoom => seq!["Server Room"@, "Data Center"@, "Network Room"@, "IT Closet"@],
        RoomType::ExecutiveOffice => seq!["Executive Office"@, "Director Office"@, "VP Office"@, "C-Suite"@],
        RoomType::Storage => seq!["Storage Room"@, "Supply Closet"@, "Archive Room"@, "Warehouse"@],
        RoomType::Laboratory => seq!["Research Lab"@, "Testing Lab"@, "Development Lab"@, "Innovation Lab"@],
    }
}

/// The name of a room of the kind with the number, naming it with option
/// `choice`: the lobby is `Main Lobby`, any other room its words, a space
/// and its number.
pub open spec fn room_name_text(t: RoomType, room_number: nat, choice: int) -> Seq<char> {
    if t == RoomType::Lobby {
        "Main Lobby"@
    } else {
        room_name_options(t)[choice] + " "@ + decimal(room_number)
    }
}

/// Whether `name` is a name a room of the kind with the number can get.
pub open spec fn is_room_name(t: RoomType, room_number: nat, name: Seq<char>) -> bool {
    exists|choice: int| 0 <= choice < room_name_options(t).len() && name == #[trigger] room_name_text(t, room_number, choice)
}

/// The kind of a generated room for a draw `percent` out of 100: 40 %
/// workspaces, 15 % meeting rooms, 10 % each bathrooms, kitchens and
/// storage, 7 % cafeterias, 4 % executive offices, 2 % each server rooms
/// and laboratories.
pub open spec fn room_type_for_percent(percent: nat) -> RoomType {
    if percent < 40 {
        RoomType::Workspace
    } else if percent < 55 {
        RoomType::MeetingRoom
    } else if percent < 65 {
        RoomType::Bathroom
    } else if percent < 75 {
        RoomType::Kitchen
    } else if percent < 85 {
        RoomType::Storage
    } else if percent < 92 {
        RoomType::Cafeteria
    } else if percent < 96 {
        RoomType::ExecutiveOffice
    } else if percent < 98 {
        RoomType::ServerRoom
    } else {
        RoomType::Laboratory
    }
}

/// The security level of a generated room of the kind: public for
/// lobbies, bathrooms, cafeterias and kitchens; standard for workspaces,
/// meeting rooms and storage; restricted for executive offices; for server
/// rooms and laboratories, high for a draw `tenths` below 7 out of 10, else maximum.
pub open spec fn security_level_for(t: RoomType, tenths: nat) -> SecurityLevel {
    match t {
        RoomType::Lobby | RoomType::Bathroom | RoomType::Cafeteria | RoomType::Kitchen => SecurityLevel::Public,
        RoomType::Workspace | RoomType::MeetingRoom | RoomType::Storage => SecurityLevel::Standard,
        RoomType::ExecutiveOffice => SecurityLevel::Restricted,
        RoomType::ServerRoom | RoomType::Laboratory => if tenths < 7 {
            SecurityLevel::HighSecurity
        } else {
            SecurityLevel::MaxSecurity
        },
    }
}

/// Whether the security level is one that some draw gives the kind.
pub open spec fn fits_room_type(t: RoomType, level: SecurityLevel) -> bool {
    exists|tenths: nat| tenths < 10 && level == #[trigger] security_level_for(t, tenths)
}

/// The name of the location generated at position `index`.
pub fn location_name(index: usize) -> (s: String)
    ensures
        s@ == location_name_text(index as nat),
{
    let cities: Vec<&str> = vec![
        "Seattle", "Portland", "San Francisco", "Los Angeles", "Denver", "Chicago", "Austin",
        "Dallas", "Atlanta", "Miami", "Boston", "New York", "Philadelphia", "Washington DC",
        "Toronto", "Vancouver", "London", "Paris", "Berlin", "Amsterdam", "Stockholm",
        "Copenhagen", "Dublin", "Madrid", "Rome", "Zurich", "Vienna", "Tokyo", "Seoul",
        "Singapore", "Sydney", "Melbourne", "Mumbai", "Bangalore", "Tel Aviv", "Dubai",
        "São Paulo", "Mexico City", "Buenos Aires", "Cape Town",
    ];
    assert(cities@.map_values(|c: &str| c@) =~= city_names());
    if index < cities.len() {
        let mut s = String::from_str(cities[index]);
        assert(cities@.map_values(|c: &str| c@)[index as int] == cities@[index as int]@);
        s.append(" Office");
        s
    } else {
        let mut s = String::from_str("Location ");
        push_decimal(&mut s, index as u128 + 1);
        s
    }
}

/// The name of the building generated at position `index`.
pub fn building_name(index: usize) -> (s: String)
    ensures
        s@ == building_name_text(index as nat),
{
    let names: Vec<&str> = vec![
        "Main Building", "North Tower", "South Tower", "East Wing", "West Wing",
        "Executive Building", "Research Center", "Innovation Hub", "Technology Center",
        "Operations Center", "Administrative Building", "Development Center",
    ];
    assert(names@.map_values(|c: &str| c@) =~= building_names());
    if index < names.len() {
        assert(names@.map_values(|c: &str| c@)[index as int] == names@[index as int]@);
        String::from_str(names[index])
    } else {
        let mut s = String::from_str("Building ");
        push_decimal(&mut s, index as u128 + 1);
        s
    }
}

/// The words a room of the kind is named with, as a vector.
fn room_name_words(t: RoomType) -> (words: Vec<&'static str>)
    ensures
        words@.map_values(|w: &str| w@) == room_name_options(t),
{
    let words: Vec<&'static str> = match t {
        RoomType::Lobby => vec!["Main Lobby"],
        RoomType::Workspace => vec!["Open Office", "Workspace", "Desk Area", "Team Space"],
        RoomType::MeetingRoom => vec![
            "Conference Room", "Meeting Room", "Boardroom", "Discussion Room",
            "Collaboration Space", "Video Conference Room", "Training Room",
        ],
        RoomType::Bathroom => vec!["Restroom"],
        RoomType::Cafeteria => vec!["Cafeteria", "Dining Hall", "Food Court", "Lunch Room"],
        RoomType::Kitchen => vec!["Break Room", "Kitchen", "Pantry", "Coffee Station"],
        RoomType::ServerRoom => vec!["Server Room", "Data Center", "Network Room", "IT Closet"],
        RoomType::ExecutiveOffice => vec!["Executive Office", "Director Office", "VP Office", "C-Suite"],
        RoomType::Storage => vec!["Storage Room", "Supply Closet", "Archive Room", "Warehouse"],
        RoomType::Laboratory => vec!["Research Lab", "Testing Lab", "Development Lab", "Innovation Lab"],
    };
    assert(words@.map_values(|w: &str| w@) =~= room_name_options(t));
    words
}

/// The name of a room of the kind with the number, naming it with option `choice`.
pub fn room_name_for_choice(room_type: RoomType, room_number: usize, choice: usize) -> (s: String)
    requires
        choice < room_name_options(room_type).len(),
    ensures
        s@ == room_name_text(room_type, room_number as nat, choice as int),
{
    if room_type == RoomType::Lobby {
        return String::from_str("Main Lobby");
    }
    let words = room_name_words(room_type);
    assert(words@.map_values(|w: &str| w@)[choice as int] == words@[choice as int]@);
    let mut s = String::from_str(words[choice]);
    s.append(" ");
    push_decimal(&mut s, room_number as u128);
    s
}

/// The kind of a generated room for a draw `percent` out of 100.
pub fn room_type_for_draw(percent: usize) -> (t: RoomType)
    ensures
        t == room_type_for_percent(percent as nat),
{
    if percent < 40 {
        RoomType::Workspace
    } else if percent < 55 {
        RoomType::MeetingRoom
    } else if percent < 65 {
        RoomType::Bathroom
    } else if percent < 75 {
        RoomType::Kitchen
    } else if percent < 85 {
        RoomType::Storage
    } else if percent < 92 {
        RoomType::Cafeteria
    } else if percent < 96 {
        RoomType::ExecutiveOffice
    } else if percent < 98 {
        RoomType::ServerRoom
    } else {
        RoomType::Laboratory
    }
}

/// The security level of a generated room of the kind for a draw `tenths` out of 10.
pub fn security_level_for_draw(room_type: RoomType, tenths: usize) -> (level: SecurityLevel)
    ensures
        level == security_level_for(room_type, tenths as nat),
{
    match room_type {
        RoomType::Lobby | RoomType::Bathroom | RoomType::Cafeteria | RoomType::Kitchen => SecurityLevel::Public,
        RoomType::Workspace | RoomType::MeetingRoom | RoomType::Storage => SecurityLevel::Standard,
        RoomType::ExecutiveOffice => SecurityLevel::Restricted,
        RoomType::ServerRoom | RoomType::Laboratory => if tenths < 7 {
            SecurityLevel::HighSecurity
        } else {
            SecurityLevel::MaxSecurity
        },
    }
}

/// Whether the kind needs a draw to fix its security level.
fn needs_level_draw(room_type: RoomType) -> (b: bool)
    ensures
        b == (room_type == RoomType::ServerRoom || room_type == RoomType::Laboratory),
{
    match room_type {
        RoomType::ServerRoom | RoomType::Laboratory => true,
        _ => false,
    }
}

/// Draw a kind of room.
fn select_random_room_type(rng: &mut rand::rngs::StdRng) -> (t: RoomType)
    ensures
        exists|p: nat| p < 100 && t == #[trigger] room_type_for_percent(p),
{
    let percent = draw_between(rng, 0, 99);
    let t = room_type_for_draw(percent);
    assert(room_type_for_percent(percent as nat) == t);
    t
}

/// Draw the security level of a room of the kind.
fn select_security_level_for_type(rng: &mut rand::rngs::StdRng, room_type: RoomType) -> (level: SecurityLevel)
    ensures
        fits_room_type(room_type, level),
{
    let tenths = if needs_level_draw(room_type) { draw_between(rng, 0, 9) } else { 0 };
    let level = security_level_for_draw(room_type, tenths);
    assert(security_level_for(room_type, tenths as nat) == level);
    level
}

/// Draw a name for a room of the kind with the number.
fn generate_room_name(rng: &mut rand::rngs::StdRng, room_type: RoomType, room_number: usize) -> (s: String)
    ensures
        is_room_name(room_type, room_number as nat, s@),
{
    let words = room_name_words(room_type);
    assert(words@.map_values(|w: &str| w@).len() == words@.len());
    let choice = if room_type == RoomType::Lobby || room_type == RoomType::Bathroom {
        0
    } else {
        draw_between(rng, 0, words.len() - 1)
    };
    let s = room_name_for_choice(room_type, room_number, choice);
    assert(s@ == room_name_text(room_type, room_number as nat, choice as int));
    s
}

/// Whether `room` is a room generated for the building with the number:
/// of some drawn kind (never a lobby), with a level that fits the kind, a
/// name for the kind and number, and no checkpoints.
pub open spec fn is_generated_room(room: Room, building_id: BuildingId, room_number: nat) -> bool {
    &&& room.building_id == building_id
    &&& exists|p: nat| p < 100 && room.room_type == #[trigger] room_type_for_percent(p)
    &&& fits_room_type(room.room_type, room.security_level)
    &&& is_room_name(room.room_type, room_number, room.name@)
    &&& room.required_intermediate_access@ == Seq::<RoomId>::empty()
}

/// Whether `room` is a lobby named `Main Lobby`, public, of the building, without checkpoints.
pub open spec fn is_main_lobby(room: Room, building_id: BuildingId) -> bool {
    &&& room.building_id == building_id
    &&& room.name@ == "Main Lobby"@
    &&& room.room_type == RoomType::Lobby
    &&& room.security_level == SecurityLevel::Public
    &&& room.required_intermediate_access@ == Seq::<RoomId>::empty()
}

/// Whether `b` is a building generated for the location with the name and
/// the number of rooms: a lobby first, then generated rooms numbered from
/// 1, at least one room in all, and the lobby as the building's lobby.
pub open spec fn is_generated_building(b: Building, location_id: LocationId, name: Seq<char>, room_count: nat) -> bool {
    &&& b.location_id == location_id
    &&& b.name@ == name
    &&& b.rooms@.len() == if room_count == 0 { 1 } else { room_count }
    &&& is_main_lobby(b.rooms@[0], b.id)
    &&& b.lobby_room_id == Some(b.rooms@[0].id)
    &&& forall|i: int| 1 <= i < b.rooms@.len() ==> is_generated_room(#[trigger] b.rooms@[i], b.id, i as nat)
}

/// Whether `b` is a building generated for the location with the name and
/// a number of rooms between the bounds.
pub open spec fn is_generated_building_between(b: Building, location_id: LocationId, name: Seq<char>, min_rooms: nat, max_rooms: nat) -> bool {
    exists|n: nat| min_rooms <= n <= max_rooms && #[trigger] is_generated_building(b, location_id, name, n)
}

/// Generates buildings with a lobby and rooms of realistic kinds.
#[derive(Debug)]
pub struct BuildingGenerator {
    rng: rand::rngs::StdRng,
}

impl BuildingGenerator {
    /// A generator seeded from the system's randomness.
    pub fn new() -> (g: Self) {
        BuildingGenerator { rng: std_rng_from_entropy() }
    }

    /// A generator whose draws follow from the seed.
    pub fn with_seed(seed: u64) -> (g: Self) {
        BuildingGenerator { rng: std_rng_from_seed(seed) }
    }

    /// Draw a kind of room: 40 % workspaces, 15 % meeting rooms, 10 % each
    /// bathrooms, kitchens and storage, 7 % cafeterias, 4 % executive
    /// offices, 2 % each server rooms and laboratories.
    pub fn select_room_type(&mut self) -> (t: RoomType)
        ensures
            exists|p: nat| p < 100 && t == #[trigger] room_type_for_percent(p),
    {
        select_random_room_type(&mut self.rng)
    }

    /// A building with a `Main Lobby` first and then `room_count - 1`
    /// generated rooms, numbered from 1; a count of 0 still gives the lobby.
    pub fn generate_building(&mut self, location_id: LocationId, name: String, room_count: usize) -> (b: Building)
        ensures
            is_generated_building(b, location_id, name@, room_count as nat),
            building_validation(b) is Ok,
    {
        let mut building = Building::new(location_id, name);
        let lobby = Room::new(building.id, String::from_str("Main Lobby"), RoomType::Lobby, SecurityLevel::Public);
        building.add_room(lobby);
        let remaining = if room_count == 0 { 0 } else { room_count - 1 };
        let mut i: usize = 0;
        while i < remaining
            invariant
                i <= remaining,
                remaining == (if room_count == 0 { 0 } else { room_count - 1 }),
                building.location_id == location_id,
                building.name@ == name@,
                building.rooms@.len() == i + 1,
                is_main_lobby(building.rooms@[0], building.id),
                building.lobby_room_id == Some(building.rooms@[0].id),
                forall|j: int| 1 <= j < building.rooms@.len()
                    ==> is_generated_room(#[trigger] building.rooms@[j], building.id, j as nat),
            decreases remaining - i,
        {
            let room = self.generate_room(building.id, i + 1);
            building.add_room(room);
            i = i + 1;
        }
        proof {
            let b = building;
            assert forall|j: int| 0 <= j < b.rooms@.len() implies (#[trigger] b.rooms@[j]).building_id == b.id by {
                if j >= 1 {
                    assert(is_generated_room(b.rooms@[j], b.id, j as nat));
                }
            }
            assert(!exists|k: int| is_first_foreign(b.rooms@, b.id, k));
        }
        building
    }

    /// `building_count` buildings named in order, each with a number of
    /// rooms drawn between the bounds.
    pub fn generate_buildings(
        &mut self,
        location_id: LocationId,
        building_count: usize,
        min_rooms_per_building: usize,
        max_rooms_per_building: usize,
    ) -> (buildings: Vec<Building>)
        requires
            min_rooms_per_building <= max_rooms_per_building,
        ensures
            buildings@.len() == building_count,
            forall|i: int| 0 <= i < buildings@.len() ==> #[trigger] is_generated_building_between(
                buildings@[i],
                location_id,
                building_name_text(i as nat),
                min_rooms_per_building as nat,
                max_rooms_per_building as nat,
            ),
            forall|i: int| 0 <= i < buildings@.len() ==> building_validation(#[trigger] buildings@[i]) is Ok,
    {
        let mut buildings: Vec<Building> = Vec::new();
        let mut i: usize = 0;
        while i < building_count
            invariant
                i <= building_count,
                min_rooms_per_building <= max_rooms_per_building,
                buildings@.len() == i,
                forall|k: int| 0 <= k < buildings@.len() ==> #[trigger] is_generated_building_between(
                    buildings@[k],
                    location_id,
                    building_name_text(k as nat),
                    min_rooms_per_building as nat,
                    max_rooms_per_building as nat,
                ),
                forall|k: int| 0 <= k < buildings@.len() ==> building_validation(#[trigger] buildings@[k]) is Ok,
            decreases building_count - i,
        {
            let name = building_name(i);
            let room_count = draw_between(&mut self.rng, min_rooms_per_building, max_rooms_per_building);
            let building = self.generate_building(location_id, name, room_count);
            assert(is_generated_building(building, location_id, building_name_text(i as nat), room_count as nat));
            assert(is_generated_building_between(
                building,
                location_id,
                building_name_text(i as nat),
                min_rooms_per_building as nat,
                max_rooms_per_building as nat,
            ));
            buildings.push(building);
            i = i + 1;
        }
        buildings
    }

    /// A generated room for the building, with the number in its name.
    fn generate_room(&mut self, building_id: BuildingId, room_number: usize) -> (room: Room)
        ensures
            is_generated_room(room, building_id, room_number as nat),
            room.room_type != RoomType::Lobby,
    {
        let room_type = select_random_room_type(&mut self.rng);
        let security_level = select_security_level_for_type(&mut self.rng, room_type);
        let name = generate_room_name(&mut self.rng, room_type, room_number);
        Room::new(building_id, name, room_type, security_level)
    }
}

impl Default for BuildingGenerator {
    /// A generator seeded from the system's randomness.
    fn default() -> (g: Self) {
        BuildingGenerator::new()
    }
}

/// Generates rooms of given or realistic kinds.
#[derive(Debug)]
pub struct RoomGenerator {
    rng: rand::rngs::StdRng,
}

impl RoomGenerator {
    /// A generator seeded from the system's randomness.
    pub fn new() -> (g: Self) {
        RoomGenerator { rng: std_rng_from_entropy() }
    }

    /// A generator whose draws follow from the seed.
    pub fn with_seed(seed: u64) -> (g: Self) {
        RoomGenerator { rng: std_rng_from_seed(seed) }
    }

    /// A room of the kind, level and name, with no checkpoints.
    pub fn generate_room(
        &mut self,
        building_id: BuildingId,
        room_type: RoomType,
        security_level: SecurityLevel,
        name: String,
    ) -> (room: Room)
        ensures
            room.building_id == building_id,
            room.room_type == room_type,
            room.security_level == security_level,
            room.name@ == name@,
            room.required_intermediate_access@ == Seq::<RoomId>::empty(),
    {
        Room::new(building_id, name, room_type, security_level)
    }

    /// A room of a drawn kind, with a fitting level and a name with the number.
    pub fn generate_random_room(&mut self, building_id: BuildingId, room_number: usize) -> (room: Room)
        ensures
            is_generated_room(room, building_id, room_number as nat),
    {
        let room_type = select_random_room_type(&mut self.rng);
        let security_level = select_security_level_for_type(&mut self.rng, room_type);
        let name = generate_room_name(&mut self.rng, room_type, room_number);
        self.generate_room(building_id, room_type, security_level, name)
    }

    /// `room_count` rooms for the building: a `Main Lobby` first when asked
    /// for, then generated rooms numbered from 1.
    pub fn generate_rooms(&mut self, building_id: BuildingId, room_count: usize, include_lobby: bool) -> (rooms: Vec<Room>)
        ensures
            rooms@.len() == if include_lobby && room_count == 0 { 1 } else { room_count as int },
            include_lobby ==> is_main_lobby(rooms@[0], building_id),
            forall|i: int| (if include_lobby { 1int } else { 0int }) <= i < rooms@.len()
                ==> is_generated_room(#[trigger] rooms@[i], building_id, (i + if include_lobby { 0int } else { 1int }) as nat),
    {
        let mut rooms: Vec<Room> = Vec::new();
        if include_lobby {
            rooms.push(Room::new(building_id, String::from_str("Main Lobby"), RoomType::Lobby, SecurityLevel::Public));
        }
        let remaining = if include_lobby {
            if room_count == 0 { 0 } else { room_count - 1 }
        } else {
            room_count
        };
        let ghost offset: int = if include_lobby { 1 } else { 0 };
        let mut i: usize = 0;
        while i < remaining
            invariant
                i <= remaining,
                offset == (if include_lobby { 1int } else { 0int }),
                remaining == (if include_lobby { if room_count == 0 { 0 } else { room_count - 1 } } else { room_count as int }),
                rooms@.len() == offset + i,
                include_lobby ==> is_main_lobby(rooms@[0], building_id),
                forall|k: int| offset <= k < rooms@.len()
                    ==> is_generated_room(#[trigger] rooms@[k], building_id, (k + 1 - offset) as nat),
            decreases remaining - i,
        {
            let room = self.generate_random_room(building_id, i + 1);
            rooms.push(room);
            i = i + 1;
        }
        rooms
    }
}

impl Default for RoomGenerator {
    /// A generator seeded from the system's randomness.
    fn default() -> (g: Self) {
        RoomGenerator::new()
    }
}

/// The sizes a facility is generated with.
#[derive(Clone, Copy, Debug, PartialEq, Eq, Structural)]
pub struct FacilityConfig {
    /// Number of locations.
    pub location_count: usize,
    /// Fewest buildings per location.
    pub min_buildings_per_location: usize,
    /// Most buildings per location.
    pub max_buildings_per_location: usize,
    /// Fewest rooms per building.
    pub min_rooms_per_building: usize,
    /// Most rooms per building.
    pub max_rooms_per_building: usize,
}

/// The outcome of checking a facility configuration: some location, at
/// least one building and one room, and bounds in order; the first failure is reported.
pub open spec fn configuration_check(c: FacilityConfig) -> Result<(), Seq<char>> {
    if c.location_count == 0 {
        Err("Location count must be greater than 0"@)
    } else if c.min_buildings_per_location == 0 {
        Err("Minimum buildings per location must be greater than 0"@)
    } else if c.min_buildings_per_location > c.max_buildings_per_location {
        Err("Minimum buildings per location cannot be greater than maximum"@)
    } else if c.min_rooms_per_building == 0 {
        Err("Minimum rooms per building must be greater than 0"@)
    } else if c.min_rooms_per_building > c.max_rooms_per_building {
        Err("Minimum rooms per building cannot be greater than maximum"@)
    } else {
        Ok(())
    }
}

/// Check a facility configuration.
pub fn validate_configuration(config: &FacilityConfig) -> (r: Result<(), String>)
    ensures
        match r {
            Ok(()) => configuration_check(*config) == Ok::<(), Seq<char>>(()),
            Err(e) => configuration_check(*config) == Err::<(), Seq<char>>(e@),
        },
{
    if config.location_count == 0 {
        return Err(String::from_str("Location count must be greater than 0"));
    }
    if config.min_buildings_per_location == 0 {
        return Err(String::from_str("Minimum buildings per location must be greater than 0"));
    }
    if config.min_buildings_per_location > config.max_buildings_per_location {
        return Err(String::from_str("Minimum buildings per location cannot be greater than maximum"));
    }
    if config.min_rooms_per_building == 0 {
        return Err(String::from_str("Minimum rooms per building must be greater than 0"));
    }
    if config.min_rooms_per_building > config.max_rooms_per_building {
        return Err(String::from_str("Minimum rooms per building cannot be greater than maximum"));
    }
    Ok(())
}

/// Whether `furnished` is `bare` with generated buildings: same identity,
/// name and place, and between the bounds many buildings named in order,
/// each with between the bounds many rooms.
pub open spec fn is_furnished(bare: Location, furnished: Location, c: FacilityConfig) -> bool {
    &&& furnished.id == bare.id
    &&& furnished.name == bare.name
    &&& furnished.coordinates == bare.coordinates
    &&& c.min_buildings_per_location <= furnished.buildings@.len() <= c.max_buildings_per_location
    &&& forall|j: int| 0 <= j < furnished.buildings@.len() ==> #[trigger] is_generated_building_between(
        furnished.buildings@[j],
        furnished.id,
        building_name_text(j as nat),
        c.min_rooms_per_building as nat,
        c.max_rooms_per_building as nat,
    )
    &&& forall|j: int| 0 <= j < furnished.buildings@.len() ==> building_validation(#[trigger] furnished.buildings@[j]) is Ok
}

impl BuildingGenerator {
    /// Give each location a drawn number of generated buildings, check it,
    /// and register it; the registry is checked last.
    pub fn furnish_locations(&mut self, config: &FacilityConfig, locations: Vec<Location>) -> (r: Result<LocationRegistry, String>)
        requires
            1 <= config.min_buildings_per_location <= config.max_buildings_per_location,
            1 <= config.min_rooms_per_building <= config.max_rooms_per_building,
            forall|i: int| 0 <= i < locations@.len() ==> (#[trigger] locations@[i]).buildings@.len() == 0,
        ensures
            match r {
                Ok(reg) => {
                    &&& locations@.len() > 0
                    &&& reg.wf()
                    &&& reg.spec_locations().len() == locations@.len()
                    &&& forall|i: int| 0 <= i < locations@.len()
                        ==> #[trigger] is_furnished(locations@[i], reg.spec_locations()[i], *config)
                    &&& registry_validation(reg.spec_locations()) == Ok::<(), Seq<char>>(())
                },
                Err(e) => {
                    &&& locations@.len() == 0
                    &&& e@ == "Generated facility registry failed validation: "@ + "Registry must have at least one location"@
                },
            },
    {
        let ghost bare = locations@;
        let mut registry = LocationRegistry::new();
        let mut pending = locations;
        let n = pending.len();
        let mut k: usize = 0;
        while k < n
            invariant
                k <= n,
                n == bare.len(),
                pending@ == bare.subrange(k as int, n as int),
                1 <= config.min_buildings_per_location <= config.max_buildings_per_location,
                1 <= config.min_rooms_per_building <= config.max_rooms_per_building,
                forall|i: int| 0 <= i < bare.len() ==> (#[trigger] bare[i]).buildings@.len() == 0,
                registry.wf(),
                registry.spec_locations().len() == k,
                forall|i: int| 0 <= i < k ==> #[trigger] is_furnished(bare[i], registry.spec_locations()[i], *config),
                forall|i: int| 0 <= i < k ==> location_validation(#[trigger] registry.spec_locations()[i]) == Ok::<(), Seq<char>>(()),
            decreases n - k,
        {
            let mut location = pending.remove(0);
            assert(location == bare[k as int]);
            assert(pending@ =~= bare.subrange(k as int + 1, n as int));
            let count = draw_between(&mut self.rng, config.min_buildings_per_location, config.max_buildings_per_location);
            let mut buildings = self.generate_buildings(location.id, count, config.min_rooms_per_building, config.max_rooms_per_building);
            let ghost made = buildings@;
            let mut j: usize = 0;
            while j < count
                invariant
                    j <= made.len(),
                    k < n,
                    n == bare.len(),
                    buildings@ == made.subrange(j as int, made.len() as int),
                    made.len() == count,
                    location.id == bare[k as int].id,
                    location.name == bare[k as int].name,
                    location.coordinates == bare[k as int].coordinates,
                    location.buildings@.len() == j,
                    forall|t: int| 0 <= t < j ==> #[trigger] location.buildings@[t] == (Building { location_id: location.id, ..made[t] }),
                decreases made.len() - j,
            {
                let building = buildings.remove(0);
                assert(building == made[j as int]);
                assert(buildings@ =~= made.subrange(j as int + 1, made.len() as int));
                location.add_building(building);
                j = j + 1;
            }
            proof {
                let l = location;
                assert forall|t: int| 0 <= t < l.buildings@.len() implies #[trigger] is_generated_building_between(
                    l.buildings@[t],
                    l.id,
                    building_name_text(t as nat),
                    config.min_rooms_per_building as nat,
                    config.max_rooms_per_building as nat,
                ) && building_validation(l.buildings@[t]) is Ok by {
                    assert(is_generated_building_between(
                        made[t],
                        l.id,
                        building_name_text(t as nat),
                        config.min_rooms_per_building as nat,
                        config.max_rooms_per_building as nat,
                    ));
                    assert(building_validation(made[t]) is Ok);
                    let n_rooms = choose|nr: nat| config.min_rooms_per_building <= nr <= config.max_rooms_per_building
                        && #[trigger] is_generated_building(made[t], l.id, building_name_text(t as nat), nr);
                    assert(is_generated_building(l.buildings@[t], l.id, building_name_text(t as nat), n_rooms));
                }
                assert(is_furnished(bare[k as int], l, *config));
                assert(!exists|b: int| is_first_bad_building(l, b));
                assert(location_validation(l) == Ok::<(), Seq<char>>(()));
            }
            match location.validate() {
                Ok(()) => {},
                Err(e) => {
                    let mut msg = String::from_str("Generated location ");
                    msg.append(location.name.as_str());
                    msg.append(" failed validation: ");
                    msg.append(e.as_str());
                    return Err(msg);
                },
            }
            let ghost before = registry.spec_locations();
            registry.add_location(location);
            proof {
                assert forall|i: int| 0 <= i < k + 1 implies #[trigger] is_furnished(bare[i], registry.spec_locations()[i], *config) by {
                    if i < k {
                        assert(registry.spec_locations()[i] == before[i]);
                    }
                }
                assert forall|i: int| 0 <= i < k + 1 implies location_validation(#[trigger] registry.spec_locations()[i]) == Ok::<(), Seq<char>>(()) by {
                    if i < k {
                        assert(registry.spec_locations()[i] == before[i]);
                    }
                }
            }
            k = k + 1;
        }
        proof {
            assert(!exists|i: int| is_first_bad_location(registry.spec_locations(), i));
            assert(bare == locations@);
        }
        match registry.validate() {
            Ok(()) => Ok(registry),
            Err(e) => {
                let mut msg = String::from_str("Generated facility registry failed validation: ");
                msg.append(e.as_str());
                Err(msg)
            },
        }
    }
}

} // verus!
