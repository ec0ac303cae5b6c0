//! Summaries of a task.

use vstd::prelude::*;

verus! {

/// Structured summary of a task.
#[derive(Debug, Clone, PartialEq, Eq)]
pub struct TaskSummary {
    pub headline: String,
    pub what_happened: String,
    pub why_it_matters: String,
    pub complexity_signal: String,
    pub notability_score: i32,
    pub change_types: Vec<String>,
}

/// The first `max` characters of a text, or the whole text where it has no
/// more.
pub open spec fn truncated(s: Seq<char>, max: nat) -> Seq<char> {
    if s.len() <= max {
        s
    } else {
        s.take(max as int)
    }
}

/// Cuts a text down to its first `max` characters.
pub fn truncate(s: &str, max: usize) -> (head: &str)
    ensures
        head@ == truncated(s@, max as nat),
{
    if s.unicode_len() <= max {
        s
    } else {
        s.substring_char(0, max)
    }
}

} // verus!
