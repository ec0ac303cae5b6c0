//! Queries against the warehouse, as far as they are text.

pub mod builder;
pub mod period;
