//! Planning and bookkeeping for a file organizer: where each file of a
//! directory belongs by type or by date, in which order empty directories
//! are pruned, and how a tree is summarised by extension and size.
//!
//! The library never touches the file system. A caller scans, hands the
//! entries over as plain values, carries out the plans it gets back and
//! reports what happened.

pub mod cleanup;
pub mod config;
pub mod counting;
pub mod dates;
pub mod organizer;
pub mod paths;
pub mod ranking;
pub mod stats;
pub mod text;
pub mod utils;
