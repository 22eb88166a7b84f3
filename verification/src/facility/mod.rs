//! Locations, buildings and rooms.

pub mod room;
pub mod building;
pub mod location;
pub mod registry;
pub mod generator;
