//! The figures that are whole numbers.

use vstd::prelude::*;

verus! {

/// Throughput metrics: tasks created, completed, and net flow.
#[derive(Debug, Clone, Copy, PartialEq, Eq)]
pub struct ThroughputMetrics {
    pub tasks_created: u64,
    pub tasks_completed: u64,
    pub net_new: i64,
}

/// Collaboration metrics: comments, likes, followers.
#[derive(Debug, Clone, Copy, PartialEq, Eq)]
pub struct CollaborationMetrics {
    pub total_comments: u64,
    pub unique_commenters: u64,
    pub total_likes: u64,
}

/// The throughput of a period in which so many tasks were created and so
/// many completed. The counts are those of a count query: they are not
/// negative.
pub fn throughput(created: i64, completed: i64) -> (metrics: ThroughputMetrics)
    requires
        created >= 0,
        completed >= 0,
    ensures
        metrics.tasks_created == created,
        metrics.tasks_completed == completed,
        metrics.net_new == created - completed,
{
    ThroughputMetrics {
        tasks_created: created as u64,
        tasks_completed: completed as u64,
        net_new: created - completed,
    }
}

impl Default for ThroughputMetrics {
    fn default() -> (metrics: ThroughputMetrics)
        ensures
            metrics.tasks_created == 0,
            metrics.tasks_completed == 0,
            metrics.net_new == 0,
    {
        ThroughputMetrics { tasks_created: 0, tasks_completed: 0, net_new: 0 }
    }
}

impl Default for CollaborationMetrics {
    fn default() -> (metrics: CollaborationMetrics)
        ensures
            metrics.total_comments == 0,
            metrics.unique_commenters == 0,
            metrics.total_likes == 0,
    {
        CollaborationMetrics { total_comments: 0, unique_commenters: 0, total_likes: 0 }
    }
}

} // verus!
