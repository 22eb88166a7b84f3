//! Statistics, error recovery, logging configuration and time handling of a
//! simulation run.

pub mod batch_generator;
pub mod behavior_engine;
pub mod error;
pub mod logging;
pub mod orchestrator;
pub mod statistics;
pub mod time_variance;
pub mod time_manager;
