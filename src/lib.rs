//! Relocates media files from a source tree into a destination tree laid
//! out by modification date. This crate holds the decisions of that
//! process: which files are eligible, where each one goes, how a single
//! copy proceeds, and how per-file outcomes add up to summary counts.

pub mod classify;
pub mod stats;
pub mod layout;
pub mod copy_plan;
pub mod run;
