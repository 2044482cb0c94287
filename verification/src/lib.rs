//! Verified core of a small continuous integration server.
pub mod cli;
pub mod clock;
pub mod data;
pub mod execution;
pub mod gui;
pub mod model;
pub mod paths;
pub mod runner;
pub mod server;
pub mod storage;
pub mod text;
