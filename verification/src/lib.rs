//! Verified core of a personal command-history recorder.
//!
//! The crate records one entry per executed shell command (command text,
//! timestamp, working directory) in an ordered store, answers filtered and
//! limited queries over it, and lets a user pick one displayed row by typing
//! a short base-32 link token. Argument parsing, persistence, rendering and
//! clipboard plumbing live outside this crate; everything here is verified.

pub mod error;
pub mod link;
pub mod query;
pub mod select;
pub mod store;
pub mod text;
