//! The shapes of the summaries, and the helpers that prepare their input.

pub mod period;
pub mod task;
