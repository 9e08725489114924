//! Bulk cloning of every repository of an account on a forge.
//!
//! The crate holds the rules of the run: how a repository descriptor becomes
//! a clone command, how a bounded pool schedules those commands, how exit
//! statuses become outcomes, and how outcomes are tallied and reported.
//! Spawning processes and talking to the network are left to the caller.

pub mod config;
pub mod laws;
pub mod listing;
pub mod pool;
pub mod repo;
pub mod report;
pub mod schedule;
pub mod task;
pub mod text;
