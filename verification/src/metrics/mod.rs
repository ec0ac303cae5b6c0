//! Figures on the work in the warehouse.

pub mod types;

use crate::sync::events::text_of;
use vstd::prelude::*;

verus! {

/// What narrows a metrics query to the tasks of one entity: a join, a
/// condition, and the value for the placeholder of the condition.
#[derive(Debug, Clone, PartialEq, Eq)]
pub struct EntityFilter {
    pub where_clause: String,
    pub join_clause: String,
    /// The value of the third placeholder, where the condition has one.
    pub value: Option<String>,
}

/// The join and the condition of an [`EntityFilter`], for the tasks of a
/// project, for those assigned to a user, or for all.
pub open spec fn filter_texts(by_project: bool, by_user: bool) -> (Seq<char>, Seq<char>) {
    if by_project {
        (
            " AND btp.project_gid = ?3"@,
            "JOIN bridge_task_projects btp ON btp.task_gid = t.task_gid"@,
        )
    } else if by_user {
        (" AND t.assignee_gid = ?3"@, Seq::empty())
    } else {
        (Seq::empty(), Seq::empty())
    }
}

/// The filter of a metrics query. Where both a project and a user are
/// given, the project counts.
pub fn build_entity_filter(user_gid: Option<&str>, project_gid: Option<&str>) -> (filter:
    EntityFilter)
    ensures
        filter.where_clause@ == filter_texts(project_gid is Some, user_gid is Some).0,
        filter.join_clause@ == filter_texts(project_gid is Some, user_gid is Some).1,
        text_of(filter.value) == (match project_gid {
            Some(p) => Some(p@),
            None => match user_gid {
                Some(u) => Some(u@),
                None => None,
            },
        }),
{
    match project_gid {
        Some(project) => EntityFilter {
            where_clause: String::from_str(" AND btp.project_gid = ?3"),
            join_clause: String::from_str(
                "JOIN bridge_task_projects btp ON btp.task_gid = t.task_gid",
            ),
            value: Some(String::from_str(project)),
        },
        None => match user_gid {
            Some(user) => EntityFilter {
                where_clause: String::from_str(" AND t.assignee_gid = ?3"),
                join_clause: String::new(),
                value: Some(String::from_str(user)),
            },
            None => EntityFilter {
                where_clause: String::new(),
                join_clause: String::new(),
                value: None,
            },
        },
    }
}

} // verus!
