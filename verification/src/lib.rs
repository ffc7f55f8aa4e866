//! A trace recorder: turns a stream of sampled call-stack snapshots into a
//! timeline profile for the Firefox Profiler, with verified registry,
//! timestamp, interning and frame-ordering logic.

pub mod trace;
pub mod labels;
pub mod clock;
pub mod sink;
pub mod recorder;
