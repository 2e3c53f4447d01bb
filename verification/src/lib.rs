//! Planning and bookkeeping for batch conversion of raster images to WebP.
//!
//! The library decides; it reads and writes no file. A caller looks up what is on
//! disk, has a run planned from it, and carries the plan out step by step, telling
//! the library how each step went.

pub mod codec;
pub mod error;
pub mod format;
pub mod guarantees;
pub mod input;
pub mod job;
pub mod name;
pub mod path;
pub mod plan;
pub mod policy;
pub mod runner;
pub mod snapshot;
pub mod validate;
