//! Test execution engine for simulated calls under controlled network impairment.
//!
//! The engine expands a matrix of test cases and network profiles into runs, decides
//! each step of a run, schedules impairment changes over the lifetime of a call, lays
//! out the segments that the quality pipeline scores, and aggregates the results of
//! the runs into grouped report data. Everything that touches a process, a clock or
//! a file is left to the caller: the engine takes events and hands back actions.

pub mod catalogue;
pub mod config;
pub mod error;
pub mod manager;
pub mod matrix;
pub mod network;
pub mod reference;
pub mod report;
pub mod runner;
pub mod score;
pub mod segment;
pub mod text;
pub mod timer;
