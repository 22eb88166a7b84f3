//! Permission sets and the access flows that lead to a room.

pub mod permission_set;
pub mod access_flow;
