//! Which entities are kept in sync, and the workspace they live in.

use crate::error::{Error, ErrorView};
use crate::text::same_text;
use vstd::prelude::*;
use vstd::string::StringExecFns;

verus! {

/// The key of an entity: its type and its id, with a colon between them.
pub open spec fn entity_key_text(entity_type: Seq<char>, gid: Seq<char>) -> Seq<char> {
    entity_type + ":"@ + gid
}

/// The key of an entity in the store.
pub fn entity_key(entity_type: &str, gid: &str) -> (key: String)
    ensures
        key@ == entity_key_text(entity_type@, gid@),
{
    let mut key = String::from_str(entity_type);
    key.append(":");
    key.append(gid);
    key
}

/// Whether a favourite of this type can be kept in sync: projects and
/// portfolios can.
pub fn is_monitorable(resource_type: &str) -> (ok: bool)
    ensures
        ok == (resource_type@ == "project"@ || resource_type@ == "portfolio"@),
{
    same_text(resource_type, "project") || same_text(resource_type, "portfolio")
}

/// A workspace that the token can see.
#[derive(Debug, Clone, PartialEq, Eq)]
pub struct WorkspaceRef {
    pub gid: String,
    pub name: String,
}

/// A [`WorkspaceRef`] with its texts as sequences of characters.
pub struct WorkspaceRefView {
    pub gid: Seq<char>,
    pub name: Seq<char>,
}

impl View for WorkspaceRef {
    type V = WorkspaceRefView;

    open spec fn view(&self) -> WorkspaceRefView {
        WorkspaceRefView { gid: self.gid@, name: self.name@ }
    }
}

/// The workspaces of a list, as views.
pub open spec fn workspaces_of(list: Seq<WorkspaceRef>) -> Seq<WorkspaceRefView> {
    list.map_values(|w: WorkspaceRef| w@)
}

/// One line for each workspace: its name and, in brackets, its id.
pub open spec fn workspace_lines(list: Seq<WorkspaceRefView>) -> Seq<char>
    decreases list.len(),
{
    if list.len() == 0 {
        Seq::empty()
    } else if list.len() == 1 {
        "  "@ + list[0].name + " ("@ + list[0].gid + ")"@
    } else {
        workspace_lines(list.drop_last()) + "\n  "@ + list.last().name + " ("@ + list.last().gid
            + ")"@
    }
}

/// The workspace to use, given those that the token can see: the only one,
/// if there is exactly one. With none, or with several to choose from, the
/// user has to say.
pub open spec fn workspace_choice(list: Seq<WorkspaceRefView>) -> Result<Seq<char>, ErrorView> {
    if list.len() == 0 {
        Err(ErrorView::Config("no workspaces found for this Asana token"@))
    } else if list.len() == 1 {
        Ok(list[0].gid)
    } else {
        Err(
            ErrorView::Config(
                "multiple workspaces found. Run: asanadw config set workspace_gid <GID>\n"@
                    + workspace_lines(list),
            ),
        )
    }
}

/// The workspace to use, given those that the token can see.
pub fn choose_workspace(list: &Vec<WorkspaceRef>) -> (choice: Result<String, Error>)
    ensures
        (match choice {
            Ok(gid) => Ok(gid@),
            Err(e) => Err(e@),
        }) == workspace_choice(workspaces_of(list@)),
{
    if list.len() == 0 {
        return Err(Error::Config(String::from_str("no workspaces found for this Asana token")));
    }
    if list.len() == 1 {
        return Ok(list[0].gid.clone());
    }
    let ghost all = workspaces_of(list@);
    let mut text = String::from_str(
        "multiple workspaces found. Run: asanadw config set workspace_gid <GID>\n",
    );
    let ghost head = text@;
    text.append("  ");
    text.append(list[0].name.as_str());
    text.append(" (");
    text.append(list[0].gid.as_str());
    text.append(")");
    let mut i: usize = 1;
    proof {
        assert(all.take(1)[0] == list[0]@);
        assert(text@ =~= head + workspace_lines(all.take(1)));
    }
    while i < list.len()
        invariant
            1 <= i <= list.len(),
            all == workspaces_of(list@),
            text@ == head + workspace_lines(all.take(i as int)),
        decreases list.len() - i,
    {
        let ghost before = text@;
        proof {
            let upto = all.take(i + 1);
            assert(upto.drop_last() =~= all.take(i as int));
            assert(upto.last() == list[i as int]@);
        }
        text.append("\n  ");
        text.append(list[i].name.as_str());
        text.append(" (");
        text.append(list[i].gid.as_str());
        text.append(")");
        proof {
            assert(text@ =~= head + workspace_lines(all.take(i + 1)));
        }
        i += 1;
    }
    proof {
        assert(all.take(i as int) =~= all);
    }
    Err(Error::Config(text))
}

} // verus!
