//! A small monitor simulator library.
//!
//! A list of monitors is loaded from a JSON document, periodically given
//! fresh simulated results, and periodically rendered back to a JSON
//! document destined for a timestamped file. The decisions of the two
//! periodic loops (when a cycle runs, what it does to the data, what text
//! is written) live here, verified; sleeping, the clock and file handling
//! stay with the caller.

pub mod model;
pub mod render;
pub mod loader;
pub mod update;
pub mod schedule;
