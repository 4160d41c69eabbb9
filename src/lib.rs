//! Host-side core of a terminal front-end: a registry of pseudo-terminal
//! sessions with stable identifiers, the decisions of each session's output
//! reader, how a session's shell is launched, the rules of a directory
//! listing, and the token totals of a usage report.

pub mod launch;
pub mod listing;
pub mod reader;
pub mod registry;
pub mod usage;
