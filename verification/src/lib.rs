//! A bounded, per-caller log of timestamped status records.
//!
//! Every caller identity owns a log of at most [`CAPACITY`] records in
//! insertion order. Appending to a full log evicts the oldest record, and a
//! recency query returns the records whose timestamp lies within the trailing
//! [`WINDOW_SECS`] seconds, oldest first.
//!
//! The host supplies the caller identity and the block time; both are taken as
//! plain arguments and trusted as they are.

pub mod address;
pub mod entry;
pub mod event_log;
pub mod laws;
pub mod log;
pub mod model;
pub mod stats;
pub mod timestamp;

pub use address::Address;
pub use entry::{StatEntry, StatsUpdated};
pub use event_log::BoundedEventLog;
pub use log::KeyedLog;
pub use model::CAPACITY;
pub use stats::UserStats;
pub use timestamp::{Timestamp, WINDOW_SECS};
