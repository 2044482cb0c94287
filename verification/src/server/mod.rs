//! The CI server: job execution, schedules, storage and paths.
pub mod execute;
pub mod job;
pub mod memory;
pub mod paths;
pub mod persistance;
pub mod schedule;
pub mod serve;
pub mod views;
