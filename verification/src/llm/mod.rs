//! Summaries written by a language model, as the warehouse keeps them.

pub mod agents;
