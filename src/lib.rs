//! Personal time tracking: named tasks with start/stop timers, an in-memory
//! store with unique names, a creation-ordered listing, a plain-text report,
//! and the flat records that are persisted between runs.

pub mod clock;
pub mod duration;
pub mod task;
pub mod order;
pub mod store;
pub mod export;
pub mod records;
