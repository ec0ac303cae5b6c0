//! What the remote service tells of sections, team members and projects.

use vstd::prelude::*;

verus! {

/// A section of a project.
#[derive(Debug, Clone, PartialEq, Eq)]
pub struct SectionInfo {
    pub gid: String,
    pub name: String,
}

/// A member of a team.
#[derive(Debug, Clone, PartialEq, Eq)]
pub struct TeamMemberInfo {
    pub gid: String,
    pub name: Option<String>,
    pub email: Option<String>,
}

/// A project of a team.
#[derive(Debug, Clone, PartialEq, Eq)]
pub struct ProjectRef {
    pub gid: String,
    pub name: String,
    pub archived: bool,
}

} // verus!
