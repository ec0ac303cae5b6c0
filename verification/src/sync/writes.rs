//! The order of writes.
//!
//! The store holds users apart from the tasks, comments, projects and status
//! updates that refer to them, and checks every reference. So whatever a sync
//! writes, it writes the users first. Tasks may refer to one another (a
//! subtask to its parent) in any order, so the check of references is
//! suspended while a batch of tasks is written, and restored before the
//! comments follow.
//!
//! The functions here lay out the writes of one request as a list of
//! [`WriteOp`]s for the driver to carry out in order, within one transaction.
//! Rows are named by their place in the lists that the driver holds.

use crate::sync::events::text_of;
use vstd::prelude::*;

verus! {

/// A user as another row refers to it.
#[derive(Debug, Clone, PartialEq, Eq)]
pub struct UserRef {
    pub gid: String,
    pub name: Option<String>,
    pub email: Option<String>,
}

/// A [`UserRef`] with its texts as sequences of characters.
pub struct UserRefView {
    pub gid: Seq<char>,
    pub name: Option<Seq<char>>,
    pub email: Option<Seq<char>>,
}

impl View for UserRef {
    type V = UserRefView;

    open spec fn view(&self) -> UserRefView {
        UserRefView { gid: self.gid@, name: text_of(self.name), email: text_of(self.email) }
    }
}

/// The view of an optional user.
pub open spec fn user_of(user: Option<UserRef>) -> Option<UserRefView> {
    match user {
        Some(u) => Some(u@),
        None => None,
    }
}

/// The users of a list, as views.
pub open spec fn users_of(users: Seq<Option<UserRef>>) -> Seq<Option<UserRefView>> {
    users.map_values(|u: Option<UserRef>| user_of(u))
}

/// The users of the comments of each task, as views.
pub open spec fn authors_of(comments: Seq<Vec<Option<UserRef>>>) -> Seq<Seq<Option<UserRefView>>> {
    comments.map_values(|c: Vec<Option<UserRef>>| users_of(c@))
}

/// One write.
#[derive(Debug, Clone, PartialEq, Eq)]
pub enum WriteOp {
    /// Write the user, keeping what the store knows of it where the
    /// reference knows less.
    UpsertUser { user: UserRef },
    /// Stop checking references between rows.
    SuspendReferenceChecks,
    /// Check references between rows again.
    RestoreReferenceChecks,
    /// Write the task at this place.
    UpsertTask { index: usize },
    /// Write the comment at place `comment` among those of the task at
    /// place `task`.
    UpsertComment { task: usize, comment: usize },
    /// Write the team of the project.
    UpsertTeam,
    /// Write the project.
    UpsertProject,
    /// Write the section at this place, with its place as its rank.
    UpsertSection { index: usize, sort_order: i32 },
    /// Write the status update at this place.
    UpsertStatusUpdate { index: usize },
}

/// A [`WriteOp`] with its texts as sequences of characters.
pub enum WriteOpView {
    UpsertUser { user: UserRefView },
    SuspendReferenceChecks,
    RestoreReferenceChecks,
    UpsertTask { index: usize },
    UpsertComment { task: usize, comment: usize },
    UpsertTeam,
    UpsertProject,
    UpsertSection { index: usize, sort_order: i32 },
    UpsertStatusUpdate { index: usize },
}

impl View for WriteOp {
    type V = WriteOpView;

    open spec fn view(&self) -> WriteOpView {
        match self {
            WriteOp::UpsertUser { user } => WriteOpView::UpsertUser { user: user@ },
            WriteOp::SuspendReferenceChecks => WriteOpView::SuspendReferenceChecks,
            WriteOp::RestoreReferenceChecks => WriteOpView::RestoreReferenceChecks,
            WriteOp::UpsertTask { index } => WriteOpView::UpsertTask { index: *index },
            WriteOp::UpsertComment { task, comment } => WriteOpView::UpsertComment {
                task: *task,
                comment: *comment,
            },
            WriteOp::UpsertTeam => WriteOpView::UpsertTeam,
            WriteOp::UpsertProject => WriteOpView::UpsertProject,
            WriteOp::UpsertSection { index, sort_order } => WriteOpView::UpsertSection {
                index: *index,
                sort_order: *sort_order,
            },
            WriteOp::UpsertStatusUpdate { index } => WriteOpView::UpsertStatusUpdate {
                index: *index,
            },
        }
    }
}

/// The writes of a list, as views.
pub open spec fn ops_of(ops: Seq<WriteOp>) -> Seq<WriteOpView> {
    ops.map_values(|op: WriteOp| op@)
}

/// The write of a user, if there is one to write.
pub open spec fn user_write(user: Option<UserRefView>) -> Seq<WriteOpView> {
    match user {
        Some(u) => seq![WriteOpView::UpsertUser { user: u }],
        None => Seq::empty(),
    }
}

/// The writes of the users of a list, in order.
pub open spec fn user_writes(users: Seq<Option<UserRefView>>) -> Seq<WriteOpView>
    decreases users.len(),
{
    if users.len() == 0 {
        Seq::empty()
    } else {
        user_writes(users.drop_last()) + user_write(users.last())
    }
}

/// The writes of the users of the comments of each task, task by task.
pub open spec fn author_writes(authors: Seq<Seq<Option<UserRefView>>>) -> Seq<WriteOpView>
    decreases authors.len(),
{
    if authors.len() == 0 {
        Seq::empty()
    } else {
        author_writes(authors.drop_last()) + user_writes(authors.last())
    }
}

/// The writes of the first `count` tasks.
pub open spec fn task_writes(count: nat) -> Seq<WriteOpView> {
    Seq::new(count, |i: int| WriteOpView::UpsertTask { index: i as usize })
}

/// The writes of the first `count` comments of the task at place `task`.
pub open spec fn comment_writes_of(task: nat, count: nat) -> Seq<WriteOpView> {
    Seq::new(count, |i: int| WriteOpView::UpsertComment { task: task as usize, comment: i as usize })
}

/// The writes of the comments of each task, task by task.
pub open spec fn comment_writes(authors: Seq<Seq<Option<UserRefView>>>) -> Seq<WriteOpView>
    decreases authors.len(),
{
    if authors.len() == 0 {
        Seq::empty()
    } else {
        comment_writes(authors.drop_last()) + comment_writes_of(
            (authors.len() - 1) as nat,
            authors.last().len(),
        )
    }
}

/// The writes that bring a batch of tasks and their comments into the store,
/// given the assignee of each task and the author of each comment of each
/// task that comments were fetched for.
///
/// Nothing is written for an empty batch. Otherwise the assignees come
/// first, then the authors, then the tasks with the check of references
/// suspended, then the comments with the check restored.
pub open spec fn batch_writes(
    assignees: Seq<Option<UserRefView>>,
    authors: Seq<Seq<Option<UserRefView>>>,
) -> Seq<WriteOpView> {
    if assignees.len() == 0 && authors.len() == 0 {
        Seq::empty()
    } else {
        user_writes(assignees) + author_writes(authors) + seq![
            WriteOpView::SuspendReferenceChecks,
        ] + task_writes(assignees.len()) + seq![WriteOpView::RestoreReferenceChecks]
            + comment_writes(authors)
    }
}

/// Whether a write is that of a row that may refer to a user.
pub open spec fn refers_to_users(op: WriteOpView) -> bool {
    op is UpsertTask || op is UpsertComment || op is UpsertProject || op is UpsertStatusUpdate
}

/// A copy of a user reference.
fn copy_user(user: &UserRef) -> (copy: UserRef)
    ensures
        copy@ == user@,
{
    UserRef {
        gid: user.gid.clone(),
        name: match &user.name {
            Some(n) => Some(n.clone()),
            None => None,
        },
        email: match &user.email {
            Some(e) => Some(e.clone()),
            None => None,
        },
    }
}

/// Appends the write of a user, if there is one to write.
fn push_user(ops: &mut Vec<WriteOp>, user: &Option<UserRef>)
    ensures
        ops_of(final(ops)@) == ops_of(old(ops)@) + user_write(user_of(*user)),
{
    let ghost before = ops_of(ops@);
    match user {
        Some(u) => {
            ops.push(WriteOp::UpsertUser { user: copy_user(u) });
            proof {
                assert(ops_of(ops@) =~= before + user_write(user_of(*user)));
            }
        },
        None => {
            proof {
                assert(before =~= before + Seq::<WriteOpView>::empty());
            }
        },
    }
}

/// Appends the writes of the users of a list.
fn push_users(ops: &mut Vec<WriteOp>, users: &Vec<Option<UserRef>>)
    ensures
        ops_of(final(ops)@) == ops_of(old(ops)@) + user_writes(users_of(users@)),
{
    let ghost before = ops_of(ops@);
    let ghost all = users_of(users@);
    let mut i: usize = 0;
    proof {
        assert(all.take(0) =~= Seq::<Option<UserRefView>>::empty());
        assert(before =~= before + user_writes(all.take(0)));
    }
    while i < users.len()
        invariant
            i <= users.len(),
            all == users_of(users@),
            ops_of(ops@) == before + user_writes(all.take(i as int)),
        decreases users.len() - i,
    {
        proof {
            let upto = all.take(i + 1);
            assert(upto.drop_last() =~= all.take(i as int));
            assert(upto.last() == user_of(users[i as int]));
        }
        push_user(ops, &users[i]);
        proof {
            assert(ops_of(ops@) =~= before + user_writes(all.take(i + 1)));
        }
        i += 1;
    }
    proof {
        assert(all.take(i as int) =~= all);
    }
}

/// The writes that bring a batch of tasks and their comments into the store.
/// `assignees` holds the assignee of each task, in the order of the tasks;
/// `authors` holds, for each task that comments were fetched for, the author
/// of each comment.
pub fn tasks_and_comments_plan(
    assignees: &Vec<Option<UserRef>>,
    authors: &Vec<Vec<Option<UserRef>>>,
) -> (ops: Vec<WriteOp>)
    ensures
        ops_of(ops@) == batch_writes(users_of(assignees@), authors_of(authors@)),
{
    let mut ops: Vec<WriteOp> = Vec::new();
    proof {
        assert(ops_of(ops@) =~= Seq::<WriteOpView>::empty());
    }
    if assignees.len() == 0 && authors.len() == 0 {
        return ops;
    }
    let ghost people = users_of(assignees@);
    let ghost writers = authors_of(authors@);
    push_users(&mut ops, assignees);
    proof {
        assert(ops_of(ops@) =~= user_writes(people));
        assert(writers.take(0) =~= Seq::<Seq<Option<UserRefView>>>::empty());
        assert(ops_of(ops@) =~= user_writes(people) + author_writes(writers.take(0)));
    }
    let mut t: usize = 0;
    while t < authors.len()
        invariant
            t <= authors.len(),
            people == users_of(assignees@),
            writers == authors_of(authors@),
            ops_of(ops@) == user_writes(people) + author_writes(writers.take(t as int)),
        decreases authors.len() - t,
    {
        proof {
            let upto = writers.take(t + 1);
            assert(upto.drop_last() =~= writers.take(t as int));
            assert(upto.last() == users_of(authors[t as int]@));
        }
        push_users(&mut ops, &authors[t]);
        proof {
            assert(ops_of(ops@) =~= user_writes(people) + author_writes(writers.take(t + 1)));
        }
        t += 1;
    }
    proof {
        assert(writers.take(t as int) =~= writers);
    }
    let ghost users_done = ops_of(ops@);
    ops.push(WriteOp::SuspendReferenceChecks);
    let mut i: usize = 0;
    proof {
        assert(ops_of(ops@) =~= users_done + seq![WriteOpView::SuspendReferenceChecks]
            + task_writes(0));
    }
    while i < assignees.len()
        invariant
            i <= assignees.len(),
            ops_of(ops@) == users_done + seq![WriteOpView::SuspendReferenceChecks] + task_writes(
                i as nat,
            ),
        decreases assignees.len() - i,
    {
        let ghost before = ops_of(ops@);
        ops.push(WriteOp::UpsertTask { index: i });
        proof {
            assert(task_writes((i + 1) as nat) =~= task_writes(i as nat).push(
                WriteOpView::UpsertTask { index: i },
            ));
            assert(ops_of(ops@) =~= before.push(WriteOpView::UpsertTask { index: i }));
            assert(ops_of(ops@) =~= users_done + seq![WriteOpView::SuspendReferenceChecks]
                + task_writes((i + 1) as nat));
        }
        i += 1;
    }
    ops.push(WriteOp::RestoreReferenceChecks);
    let ghost tasks_done = ops_of(ops@);
    proof {
        assert(tasks_done =~= users_done + seq![WriteOpView::SuspendReferenceChecks] + task_writes(
            people.len(),
        ) + seq![WriteOpView::RestoreReferenceChecks]);
        assert(tasks_done =~= tasks_done + comment_writes(writers.take(0)));
    }
    let mut c: usize = 0;
    while c < authors.len()
        invariant
            c <= authors.len(),
            writers == authors_of(authors@),
            ops_of(ops@) == tasks_done + comment_writes(writers.take(c as int)),
        decreases authors.len() - c,
    {
        let ghost so_far = ops_of(ops@);
        let count = authors[c].len();
        let mut k: usize = 0;
        proof {
            let upto = writers.take(c + 1);
            assert(upto.drop_last() =~= writers.take(c as int));
            assert(upto.last() == users_of(authors[c as int]@));
            assert(so_far =~= so_far + comment_writes_of(c as nat, 0));
        }
        while k < count
            invariant
                k <= count,
                ops_of(ops@) == so_far + comment_writes_of(c as nat, k as nat),
            decreases count - k,
        {
            let ghost before = ops_of(ops@);
            ops.push(WriteOp::UpsertComment { task: c, comment: k });
            proof {
                assert(comment_writes_of(c as nat, (k + 1) as nat) =~= comment_writes_of(
                    c as nat,
                    k as nat,
                ).push(WriteOpView::UpsertComment { task: c, comment: k }));
                assert(ops_of(ops@) =~= before.push(
                    WriteOpView::UpsertComment { task: c, comment: k },
                ));
                assert(ops_of(ops@) =~= so_far + comment_writes_of(c as nat, (k + 1) as nat));
            }
            k += 1;
        }
        proof {
            assert(ops_of(ops@) =~= tasks_done + comment_writes(writers.take(c + 1)));
        }
        c += 1;
    }
    proof {
        assert(writers.take(c as int) =~= writers);
    }
    ops
}

/// The rank of the section at place `index`: the place itself, held at the
/// largest rank that fits.
pub open spec fn section_rank(index: nat) -> i32 {
    if index > i32::MAX {
        i32::MAX
    } else {
        index as i32
    }
}

/// The writes of the first `count` sections.
pub open spec fn section_writes(count: nat) -> Seq<WriteOpView> {
    Seq::new(
        count,
        |i: int| WriteOpView::UpsertSection { index: i as usize, sort_order: section_rank(i as nat) },
    )
}

/// The writes that bring a project and its sections into the store: the
/// owner, if the project has one; the team, if it has one; the project; the
/// sections in their order.
pub open spec fn metadata_writes(owner: Option<UserRefView>, has_team: bool, sections: nat) -> Seq<
    WriteOpView,
> {
    user_write(owner) + (if has_team {
        seq![WriteOpView::UpsertTeam]
    } else {
        Seq::empty()
    }) + seq![WriteOpView::UpsertProject] + section_writes(sections)
}

/// The writes that bring a project and its sections into the store.
pub fn project_metadata_plan(owner: &Option<UserRef>, has_team: bool, sections: usize) -> (ops: Vec<
    WriteOp,
>)
    ensures
        ops_of(ops@) == metadata_writes(user_of(*owner), has_team, sections as nat),
{
    let mut ops: Vec<WriteOp> = Vec::new();
    proof {
        assert(ops_of(ops@) =~= Seq::<WriteOpView>::empty());
    }
    push_user(&mut ops, owner);
    if has_team {
        ops.push(WriteOp::UpsertTeam);
    }
    ops.push(WriteOp::UpsertProject);
    let ghost head = ops_of(ops@);
    proof {
        assert(head =~= user_write(user_of(*owner)) + (if has_team {
            seq![WriteOpView::UpsertTeam]
        } else {
            Seq::empty()
        }) + seq![WriteOpView::UpsertProject]);
        assert(head =~= head + section_writes(0));
    }
    let mut i: usize = 0;
    while i < sections
        invariant
            i <= sections,
            ops_of(ops@) == head + section_writes(i as nat),
        decreases sections - i,
    {
        let sort_order: i32 = if i > 0x7fff_ffff {
            i32::MAX
        } else {
            i as i32
        };
        let ghost before = ops_of(ops@);
        ops.push(WriteOp::UpsertSection { index: i, sort_order });
        proof {
            assert(section_writes((i + 1) as nat) =~= section_writes(i as nat).push(
                WriteOpView::UpsertSection { index: i, sort_order },
            ));
            assert(ops_of(ops@) =~= before.push(
                WriteOpView::UpsertSection { index: i, sort_order },
            ));
            assert(ops_of(ops@) =~= head + section_writes((i + 1) as nat));
        }
        i += 1;
    }
    ops
}

/// The writes that bring status updates into the store, given the author of
/// each: each author, if there is one, right before the status update.
pub open spec fn status_writes(authors: Seq<Option<UserRefView>>) -> Seq<WriteOpView>
    decreases authors.len(),
{
    if authors.len() == 0 {
        Seq::empty()
    } else {
        status_writes(authors.drop_last()) + user_write(authors.last()) + seq![
            WriteOpView::UpsertStatusUpdate { index: (authors.len() - 1) as usize },
        ]
    }
}

/// The writes that bring status updates into the store, given the author of
/// each. Nothing is written where there is no status update.
pub fn status_updates_plan(authors: &Vec<Option<UserRef>>) -> (ops: Vec<WriteOp>)
    ensures
        ops_of(ops@) == status_writes(users_of(authors@)),
{
    let mut ops: Vec<WriteOp> = Vec::new();
    let ghost all = users_of(authors@);
    let mut i: usize = 0;
    proof {
        assert(all.take(0) =~= Seq::<Option<UserRefView>>::empty());
        assert(ops_of(ops@) =~= status_writes(all.take(0)));
    }
    while i < authors.len()
        invariant
            i <= authors.len(),
            all == users_of(authors@),
            ops_of(ops@) == status_writes(all.take(i as int)),
        decreases authors.len() - i,
    {
        let ghost before = ops_of(ops@);
        proof {
            let upto = all.take(i + 1);
            assert(upto.drop_last() =~= all.take(i as int));
            assert(upto.last() == user_of(authors[i as int]));
            assert(upto.len() == i + 1);
        }
        push_user(&mut ops, &authors[i]);
        ops.push(WriteOp::UpsertStatusUpdate { index: i });
        proof {
            assert(ops_of(ops@) =~= before + user_write(user_of(authors[i as int])) + seq![
                WriteOpView::UpsertStatusUpdate { index: i },
            ]);
        }
        i += 1;
    }
    proof {
        assert(all.take(i as int) =~= all);
    }
    ops
}

/// The writes of users are writes of users and nothing else.
pub proof fn lemma_user_writes_are_users(users: Seq<Option<UserRefView>>, i: int)
    requires
        0 <= i < user_writes(users).len(),
    ensures
        user_writes(users)[i] is UpsertUser,
    decreases users.len(),
{
    if users.len() > 0 {
        let head = user_writes(users.drop_last());
        if i < head.len() {
            lemma_user_writes_are_users(users.drop_last(), i);
        }
    }
}

/// The writes of authors are writes of users and nothing else.
pub proof fn lemma_author_writes_are_users(authors: Seq<Seq<Option<UserRefView>>>, i: int)
    requires
        0 <= i < author_writes(authors).len(),
    ensures
        author_writes(authors)[i] is UpsertUser,
    decreases authors.len(),
{
    if authors.len() > 0 {
        let head = author_writes(authors.drop_last());
        if i < head.len() {
            lemma_author_writes_are_users(authors.drop_last(), i);
        } else {
            lemma_user_writes_are_users(authors.last(), i - head.len());
        }
    }
}

/// The writes of comments are writes of comments and nothing else.
pub proof fn lemma_comment_writes_are_comments(authors: Seq<Seq<Option<UserRefView>>>, i: int)
    requires
        0 <= i < comment_writes(authors).len(),
    ensures
        comment_writes(authors)[i] is UpsertComment,
    decreases authors.len(),
{
    if authors.len() > 0 {
        let head = comment_writes(authors.drop_last());
        if i < head.len() {
            lemma_comment_writes_are_comments(authors.drop_last(), i);
        }
    }
}

/// In a batch every user is written before every task and comment; the
/// tasks are written with the check of references suspended, and the
/// comments with the check restored.
pub proof fn lemma_batch_order(
    assignees: Seq<Option<UserRefView>>,
    authors: Seq<Seq<Option<UserRefView>>>,
    i: int,
    j: int,
)
    requires
        0 <= i < batch_writes(assignees, authors).len(),
        0 <= j < batch_writes(assignees, authors).len(),
    ensures
        ({
            let ops = batch_writes(assignees, authors);
            let suspend = (user_writes(assignees).len() + author_writes(authors).len()) as int;
            let restore = suspend + 1 + assignees.len();
            &&& ops[i] is UpsertUser && refers_to_users(ops[j]) ==> i < j
            &&& ops[suspend] is SuspendReferenceChecks
            &&& ops[restore] is RestoreReferenceChecks
            &&& ops[i] is UpsertTask <==> suspend < i < restore
            &&& ops[i] is UpsertComment <==> restore < i
            &&& ops[i] is UpsertUser <==> i < suspend
        }),
{
    let ops = batch_writes(assignees, authors);
    let a = user_writes(assignees);
    let b = author_writes(authors);
    let suspend = (a.len() + b.len()) as int;
    let restore = suspend + 1 + assignees.len();
    assert(ops.len() > 0);
    assert(ops[suspend] is SuspendReferenceChecks);
    assert(ops[restore] is RestoreReferenceChecks);
    if i < a.len() {
        lemma_user_writes_are_users(assignees, i);
        assert(ops[i] == a[i]);
    } else if i < suspend {
        lemma_author_writes_are_users(authors, i - a.len());
        assert(ops[i] == b[i - a.len()]);
    } else if i > restore {
        lemma_comment_writes_are_comments(authors, i - restore - 1);
        assert(ops[i] == comment_writes(authors)[i - restore - 1]);
    } else if suspend < i < restore {
        assert(ops[i] == task_writes(assignees.len())[i - suspend - 1]);
    }
    if j < a.len() {
        lemma_user_writes_are_users(assignees, j);
        assert(ops[j] == a[j]);
    } else if j < suspend {
        lemma_author_writes_are_users(authors, j - a.len());
        assert(ops[j] == b[j - a.len()]);
    } else if j > restore {
        lemma_comment_writes_are_comments(authors, j - restore - 1);
        assert(ops[j] == comment_writes(authors)[j - restore - 1]);
    } else if suspend < j < restore {
        assert(ops[j] == task_writes(assignees.len())[j - suspend - 1]);
    }
}

} // verus!
