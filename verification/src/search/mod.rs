//! Full-text search over the warehouse: what can be asked for.

use crate::query::builder::{placeholder, values_of, SqlValue, SqlValueView};
use crate::sync::events::text_of;
use crate::text::{push_decimal, same_text};
use vstd::prelude::*;
use vstd::string::StringExecFns;

verus! {

/// What kind of entity matched the search.
#[derive(Debug, Clone, Copy, PartialEq, Eq, Structural)]
pub enum SearchHitType {
    Task,
    Comment,
    Project,
    Portfolio,
    CustomField,
}

/// Options controlling a search operation.
#[derive(Debug, Clone)]
pub struct SearchOptions {
    /// Maximum number of results to return.
    pub limit: Option<u32>,
    /// Restrict search to a specific hit type.
    pub hit_type: Option<SearchHitType>,
    /// Filter to tasks assigned to this user.
    pub assignee_gid: Option<String>,
    /// Filter to tasks in this project.
    pub project_gid: Option<String>,
}

/// The kind of hit that a name on the command line stands for, if it stands
/// for one.
pub open spec fn hit_type_of(name: Seq<char>) -> Option<SearchHitType> {
    if name == "task"@ {
        Some(SearchHitType::Task)
    } else if name == "comment"@ {
        Some(SearchHitType::Comment)
    } else if name == "project"@ {
        Some(SearchHitType::Project)
    } else if name == "custom_field"@ {
        Some(SearchHitType::CustomField)
    } else {
        None
    }
}

/// The kind of hit that a name on the command line stands for.
pub fn parse_hit_type(name: &str) -> (kind: Option<SearchHitType>)
    ensures
        kind == hit_type_of(name@),
{
    if same_text(name, "task") {
        Some(SearchHitType::Task)
    } else if same_text(name, "comment") {
        Some(SearchHitType::Comment)
    } else if same_text(name, "project") {
        Some(SearchHitType::Project)
    } else if same_text(name, "custom_field") {
        Some(SearchHitType::CustomField)
    } else {
        None
    }
}

/// The word that a list of hits shows for a kind of hit.
pub fn hit_type_label(kind: SearchHitType) -> (label: &'static str)
    ensures
        label@ == match kind {
            SearchHitType::Task => "task"@,
            SearchHitType::Comment => "comment"@,
            SearchHitType::Project => "project"@,
            SearchHitType::Portfolio => "portfolio"@,
            SearchHitType::CustomField => "field"@,
        },
{
    match kind {
        SearchHitType::Task => "task",
        SearchHitType::Comment => "comment",
        SearchHitType::Project => "project",
        SearchHitType::Portfolio => "portfolio",
        SearchHitType::CustomField => "field",
    }
}

/// The end of a search statement on tasks or on rows that belong to tasks:
/// the condition on the assignee, if the search has one; the condition on
/// the project, if it has one, on the column `task_column`; the ordering by
/// rank; the limit. The text to search for takes the first placeholder.
pub open spec fn search_tail_text(
    task_column: Seq<char>,
    assignee: Option<Seq<char>>,
    project: Option<Seq<char>>,
) -> Seq<char> {
    let with_assignee: nat = if assignee is Some {
        2
    } else {
        1
    };
    let with_project: nat = if project is Some {
        with_assignee + 1
    } else {
        with_assignee
    };
    (if assignee is Some {
        " AND t.assignee_gid = "@ + placeholder(2)
    } else {
        Seq::empty()
    }) + (if project is Some {
        " AND "@ + task_column
            + " IN (SELECT task_gid FROM bridge_task_projects WHERE project_gid = "@ + placeholder(
            with_assignee + 1,
        ) + ")"@
    } else {
        Seq::empty()
    }) + " ORDER BY rank LIMIT "@ + placeholder(with_project + 1)
}

/// The values for the placeholders of a search statement, in order: the
/// text to search for, the assignee and the project where the search has
/// them, the limit.
pub open spec fn search_values(
    query: Seq<char>,
    assignee: Option<Seq<char>>,
    project: Option<Seq<char>>,
    limit: u32,
) -> Seq<SqlValueView> {
    seq![SqlValueView::Text(query)] + (match assignee {
        Some(a) => seq![SqlValueView::Text(a)],
        None => Seq::empty(),
    }) + (match project {
        Some(p) => seq![SqlValueView::Text(p)],
        None => Seq::empty(),
    }) + seq![SqlValueView::Integer(limit as i64)]
}

/// How many results a search returns when the options name no limit.
pub const DEFAULT_SEARCH_LIMIT: u32 = 50;

impl SearchOptions {
    /// The most results that a search with these options returns.
    pub fn effective_limit(&self) -> (limit: u32)
        ensures
            limit == match self.limit {
                Some(n) => n,
                None => DEFAULT_SEARCH_LIMIT,
            },
    {
        match self.limit {
            Some(n) => n,
            None => DEFAULT_SEARCH_LIMIT,
        }
    }

    /// The end of a search statement on tasks or on rows that belong to
    /// tasks, and the values for the placeholders of the whole statement.
    pub fn search_tail(&self, query: &str, task_column: &str) -> (r: (String, Vec<SqlValue>))
        ensures
            r.0@ == search_tail_text(
                task_column@,
                text_of(self.assignee_gid),
                text_of(self.project_gid),
            ),
            values_of(r.1@) == search_values(
                query@,
                text_of(self.assignee_gid),
                text_of(self.project_gid),
                match self.limit {
                    Some(n) => n,
                    None => DEFAULT_SEARCH_LIMIT,
                },
            ),
    {
        let mut tail = String::new();
        let mut values: Vec<SqlValue> = Vec::new();
        values.push(SqlValue::Text(String::from_str(query)));
        match &self.assignee_gid {
            Some(assignee) => {
                tail.append(" AND t.assignee_gid = ");
                tail.append("?");
                push_decimal(&mut tail, 2);
                values.push(SqlValue::Text(assignee.clone()));
            },
            None => {},
        }
        let ghost first = tail@;
        proof {
            assert(first =~= (if self.assignee_gid is Some {
                " AND t.assignee_gid = "@ + placeholder(2)
            } else {
                Seq::empty()
            }));
        }
        match &self.project_gid {
            Some(project) => {
                tail.append(" AND ");
                tail.append(task_column);
                tail.append(" IN (SELECT task_gid FROM bridge_task_projects WHERE project_gid = ");
                tail.append("?");
                push_decimal(&mut tail, values.len() as u64 + 1);
                tail.append(")");
                values.push(SqlValue::Text(project.clone()));
            },
            None => {},
        }
        let ghost second = tail@;
        proof {
            let with_assignee: nat = if self.assignee_gid is Some {
                2
            } else {
                1
            };
            assert(second =~= first + (if self.project_gid is Some {
                " AND "@ + task_column@
                    + " IN (SELECT task_gid FROM bridge_task_projects WHERE project_gid = "@
                    + placeholder(with_assignee + 1) + ")"@
            } else {
                Seq::empty()
            }));
        }
        tail.append(" ORDER BY rank LIMIT ");
        tail.append("?");
        push_decimal(&mut tail, values.len() as u64 + 1);
        values.push(SqlValue::Integer(self.effective_limit() as i64));
        proof {
            assert(tail@ =~= search_tail_text(
                task_column@,
                text_of(self.assignee_gid),
                text_of(self.project_gid),
            ));
            assert(values_of(values@) =~= search_values(
                query@,
                text_of(self.assignee_gid),
                text_of(self.project_gid),
                match self.limit {
                    Some(n) => n,
                    None => DEFAULT_SEARCH_LIMIT,
                },
            ));
        }
        (tail, values)
    }

    /// Whether a search with these options looks at entities of this kind.
    pub fn includes(&self, kind: SearchHitType) -> (included: bool)
        ensures
            included == (self.hit_type is None || self.hit_type == Some(kind)),
    {
        match self.hit_type {
            None => true,
            Some(only) => only == kind,
        }
    }
}

impl Default for SearchOptions {
    fn default() -> (options: SearchOptions)
        ensures
            options.limit is None,
            options.hit_type is None,
            options.assignee_gid is None,
            options.project_gid is None,
    {
        SearchOptions { limit: None, hit_type: None, assignee_gid: None, project_gid: None }
    }
}

} // verus!
