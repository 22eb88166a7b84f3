//! Access attempts and events, their metadata, and the checks on travel
//! between two events.

pub mod access_event;
pub mod generator;
pub mod metadata;
pub mod ordering;
