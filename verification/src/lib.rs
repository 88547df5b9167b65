//! Verified core of the WasabiOs support libraries.

pub mod iter;
pub mod math;
pub mod text;
pub mod types;
pub mod wfs;
pub mod runner;
pub mod staticvec;
pub mod sync;
pub mod testing;
