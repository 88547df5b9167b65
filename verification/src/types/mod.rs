//! common type definitions

pub mod coreid;

pub use coreid::CoreId;
pub mod time;

pub use time::{TscDuration, TscTimestamp};
pub mod duration;

pub use duration::Duration;
