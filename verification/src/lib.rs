//! Core of a local media browser backend: a reversible filename-obfuscation
//! transform applied over directory trees, a modification-time-validated
//! persistent cache for extracted video frames, and the pure timestamp
//! sampling that drives frame extraction.

pub mod cache;
pub mod codec;
pub mod entry;
pub mod extract;
pub mod names;
pub mod planner;
pub mod probe;
pub mod text;
pub mod tree;
