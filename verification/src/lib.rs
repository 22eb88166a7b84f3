//! Badge access simulator: the facility model (locations, buildings, rooms),
//! permission checks and access flows, access events, statistics about the
//! events a simulation produced, error recovery decisions and logging
//! configuration.

pub mod analysis;
pub mod types;
pub mod text;
pub mod time;
pub mod search;
pub mod schedule;
pub mod events;
pub mod facility;
pub mod permissions;
pub mod simulation;
