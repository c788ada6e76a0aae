//! The built-in detectors. Each compares floating-point means and ratios
//! against floating-point thresholds; their `detect` lives with the program
//! around the library, which holds floating point.
use vstd::prelude::*;

verus! {

/// Flags a tick whose error count is a multiple of the mean of the ticks
/// before it.
#[derive(Clone, Copy, Debug)]
pub struct ErrorSpikeDetector;

/// Flags a latency sample that is a multiple of the mean of the samples
/// before it.
#[derive(Clone, Copy, Debug)]
pub struct LatencyJumpDetector;

/// Flags memory that grows faster than a threshold per minute.
#[derive(Clone, Copy, Debug)]
pub struct MemoryLeakDetector;

} // verus!
