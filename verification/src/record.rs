//! The row that is kept of each finished trial.

use crate::sampler::StrideTrial;
use vstd::prelude::*;

verus! {

/// Nanoseconds in a millisecond.
pub const NANOS_PER_MILLI: u128 = 1_000_000;

/// One persisted row, in column order. The rate is a 32-bit float; it is
/// held here by its IEEE 754 bit pattern.
#[derive(Clone, Copy, Debug, PartialEq, Eq, Structural)]
pub struct Record {
    /// Milliseconds since the Unix epoch, taken when the trial completed.
    pub start_time: u128,
    /// The stride size of the trial.
    pub step_size: u64,
    /// The duration of the timed loop, in whole milliseconds.
    pub total_duration_millis: u128,
    /// The bit pattern of the rate in iterations per second.
    pub steps_per_second_bits: u32,
}

impl Record {
    /// The row for a finished trial: its stride size, its duration cut to
    /// whole milliseconds, and the time and rate handed in.
    pub fn of_trial(trial: &StrideTrial, start_time: u128, steps_per_second_bits: u32) -> (record:
        Record)
        ensures
            record.start_time == start_time,
            record.step_size == trial.step_size,
            record.total_duration_millis == trial.elapsed_nanos / NANOS_PER_MILLI,
            record.steps_per_second_bits == steps_per_second_bits,
    {
        Record {
            start_time,
            step_size: trial.step_size as u64,
            total_duration_millis: trial.elapsed_nanos / NANOS_PER_MILLI,
            steps_per_second_bits,
        }
    }
}

} // verus!
