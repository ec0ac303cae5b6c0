//! Summaries of a period.

use vstd::prelude::*;

verus! {

/// Structured period summary for a user.
#[derive(Debug, Clone, PartialEq, Eq)]
pub struct UserPeriodSummary {
    pub headline: String,
    pub what_changed: String,
    pub why_it_matters: String,
    pub key_accomplishments: Vec<String>,
    pub collaboration_notes: Option<String>,
}

/// Structured period summary for a project.
#[derive(Debug, Clone, PartialEq, Eq)]
pub struct ProjectPeriodSummary {
    pub headline: String,
    pub what_changed: String,
    pub why_it_matters: String,
    pub key_milestones: Vec<String>,
    pub health_assessment: Option<String>,
}

/// Structured period summary for a portfolio.
#[derive(Debug, Clone, PartialEq, Eq)]
pub struct PortfolioPeriodSummary {
    pub headline: String,
    pub what_changed: String,
    pub why_it_matters: String,
    pub key_milestones: Vec<String>,
    pub health_assessment: Option<String>,
}

/// Structured period summary for a team.
#[derive(Debug, Clone, PartialEq, Eq)]
pub struct TeamPeriodSummary {
    pub headline: String,
    pub what_changed: String,
    pub why_it_matters: String,
    pub key_accomplishments: Vec<String>,
    pub health_assessment: Option<String>,
}

} // verus!
