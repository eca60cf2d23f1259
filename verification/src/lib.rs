//! Random-walk memory latency measurement: the walk, the stride schedule,
//! the progress rate limiter and the bounds of the resulting chart.

pub mod chart;
pub mod clock;
pub mod random;
pub mod record;
pub mod reporter;
pub mod sampler;
pub mod schedule;
pub mod walk;
