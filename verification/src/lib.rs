//! tprobe: a hardware tick-counter measurement probe.
//!
//! Reads of the tick counter are handed to a [`TProbe`], which records the
//! delta of each measured scope through a pluggable [`Recorder`]; analysis
//! and presentation happen off the measured path.
//!
//! - [`recorder`]: where deltas go ([`Recorder`], [`ArrayRecorder`]).
//! - [`probe`]: the collection front end ([`TProbe`]).
//! - [`ticks`]: whether the x86_64 time-stamp counter is usable.

pub mod probe;
pub mod recorder;
pub mod ticks;

pub use probe::TProbe;
pub use recorder::{ArrayRecorder, DeltaStorage, Recorder};
