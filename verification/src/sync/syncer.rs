//! The syncs of users, teams and portfolios, and the sync of everything that
//! is monitored.
//!
//! Each sync is started by one of [`sync_project`], [`sync_user`],
//! [`sync_team`], [`sync_portfolio`] and [`sync_all`], which hand back the
//! sync and its first directive. A team or a portfolio syncs its own record
//! and then each of its projects, as a project sync of its own that the
//! driver runs; the reports of the projects add up to the report of the
//! whole.

use crate::date::{in_range, Date};
use crate::storage::repository::{entities_of, MonitoredEntity, MonitoredEntityView};
use crate::sync::plan::{
    children_of, reports_of, ChildRef, ChildRefView, Directive, DirectiveView, EntityKind, Fault,
    FaultView, Notice, Reply, ReplyView, Request, RequestView,
};
use crate::sync::project::{start_model, ProjectSync, ProjectSyncView};
use crate::sync::{
    lookback_days, report_from_counts, SyncOptions, SyncReport, SyncReportView, SyncStatus,
};
use crate::text::same_text;
use vstd::prelude::*;
use vstd::string::StringExecFns;

verus! {

/// Starts the sync of the project with id `project_gid`. `today` is the
/// current day; the first day of the lookback window that the options name
/// must be in range.
pub fn sync_project(project_gid: &str, options: &SyncOptions, today: Date) -> (r: (
    ProjectSync,
    Directive,
))
    requires
        in_range(lookback_days(*options, today@)),
    ensures
        (r.0@, r.1@) == start_model(
            project_gid@,
            options.full,
            lookback_days(*options, today@),
            today@,
        ),
{
    ProjectSync::start(project_gid, options.full, options.lookback_start(today), today)
}

/// The sum of two counts, held at the largest count that fits.
pub open spec fn capped_sum(a: u64, b: u64) -> u64 {
    if a + b > u64::MAX {
        u64::MAX
    } else {
        (a + b) as u64
    }
}

/// The sum of two counts, held at the largest count that fits.
pub fn add_capped(a: u64, b: u64) -> (sum: u64)
    ensures
        sum == capped_sum(a, b),
{
    if a > u64::MAX - b {
        u64::MAX
    } else {
        a + b
    }
}

/// The ending of a sync over a failed request.
pub open spec fn failing(message: Seq<char>) -> DirectiveView {
    DirectiveView {
        notices: Seq::empty(),
        request: RequestView::Fail { fault: FaultView::Reported { message } },
    }
}

/// The ending of a sync over a reply that answers no request of its phase.
pub open spec fn refusing() -> DirectiveView {
    DirectiveView {
        notices: Seq::empty(),
        request: RequestView::Fail { fault: FaultView::UnexpectedReply },
    }
}

/// A directive without notices.
pub open spec fn asking(request: RequestView) -> DirectiveView {
    DirectiveView { notices: Seq::empty(), request }
}

fn fail_with(message: String) -> (d: Directive)
    ensures
        d@ == failing(message@),
{
    Directive { notices: Vec::new(), request: Request::Fail { fault: Fault::Reported { message } } }
}

fn refuse() -> (d: Directive)
    ensures
        d@ == refusing(),
{
    Directive { notices: Vec::new(), request: Request::Fail { fault: Fault::UnexpectedReply } }
}

fn ask(request: Request) -> (d: Directive)
    ensures
        d@ == asking(request@),
{
    Directive { notices: Vec::new(), request }
}

// ---------------------------------------------------------------------------
// Users
// ---------------------------------------------------------------------------
/// Where a user sync stands.
#[derive(Debug, Clone, Copy, PartialEq, Eq, Structural)]
pub enum UserPhase {
    OpeningJob,
    Searching,
    StoringTask,
    ClosingJob,
    Ended,
}

/// The state of a user sync.
pub struct UserSyncView {
    pub entity_key: Seq<char>,
    pub since: int,
    pub today: int,
    pub phase: UserPhase,
    pub job: i64,
    /// How many tasks the search found.
    pub count: nat,
    /// How many of them are written.
    pub position: nat,
}

/// The key under which the store holds the user with id `gid`.
pub open spec fn user_key(gid: Seq<char>) -> Seq<char> {
    "user:"@ + gid
}

/// The state in which a user sync starts, and its first request: the job
/// record is opened for the lookback window.
pub open spec fn start_user_model(gid: Seq<char>, since: int, today: int) -> (
    UserSyncView,
    DirectiveView,
) {
    (
        UserSyncView {
            entity_key: user_key(gid),
            since,
            today,
            phase: UserPhase::OpeningJob,
            job: 0,
            count: 0,
            position: 0,
        },
        asking(RequestView::OpenJob { since, until: today }),
    )
}

/// The next task write of a user sync, or the closing of its job after the
/// last.
pub open spec fn next_store(s: UserSyncView, notices: Seq<Notice>) -> (
    UserSyncView,
    DirectiveView,
) {
    if s.position < s.count {
        (
            UserSyncView { phase: UserPhase::StoringTask, ..s },
            DirectiveView {
                notices,
                request: RequestView::StoreTask { index: s.position as usize },
            },
        )
    } else {
        (
            UserSyncView { phase: UserPhase::ClosingJob, ..s },
            DirectiveView {
                notices,
                request: RequestView::CloseJob { job: s.job, synced: s.count as u64, failed: 0 },
            },
        )
    }
}

/// One step of a user sync. The tasks assigned to the user that were
/// modified within the lookback window are searched for and written one by
/// one; any failure ends the sync with its fault.
pub open spec fn step_user_model(s: UserSyncView, reply: ReplyView) -> (
    UserSyncView,
    DirectiveView,
) {
    let ended = UserSyncView { phase: UserPhase::Ended, ..s };
    match s.phase {
        UserPhase::OpeningJob => match reply {
            ReplyView::JobOpened { job } => (
                UserSyncView { phase: UserPhase::Searching, job, ..s },
                asking(RequestView::SearchTasks { modified_since: s.since }),
            ),
            ReplyView::Failed { message } => (ended, failing(message)),
            _ => (ended, refusing()),
        },
        UserPhase::Searching => match reply {
            ReplyView::Fetched { count } => next_store(
                UserSyncView { count: count as nat, position: 0, ..s },
                seq![Notice::TasksFetched { count }],
            ),
            ReplyView::Failed { message } => (ended, failing(message)),
            _ => (ended, refusing()),
        },
        UserPhase::StoringTask => if s.position < s.count {
            match reply {
                ReplyView::Done => next_store(
                    UserSyncView { position: s.position + 1, ..s },
                    Seq::empty(),
                ),
                ReplyView::Failed { message } => (ended, failing(message)),
                _ => (ended, refusing()),
            }
        } else {
            (ended, refusing())
        },
        UserPhase::ClosingJob => match reply {
            ReplyView::Done => (
                ended,
                asking(
                    RequestView::Finish {
                        report: report_from_counts(s.entity_key, s.count as u64, 0, 1, 1),
                    },
                ),
            ),
            ReplyView::Failed { message } => (ended, failing(message)),
            _ => (ended, refusing()),
        },
        UserPhase::Ended => (ended, refusing()),
    }
}

/// A user sync under way. See [`step_user_model`] for what it does.
#[derive(Debug)]
pub struct UserSync {
    entity_key: String,
    since: Date,
    today: Date,
    phase: UserPhase,
    job: i64,
    count: usize,
    position: usize,
}

impl View for UserSync {
    type V = UserSyncView;

    closed spec fn view(&self) -> UserSyncView {
        UserSyncView {
            entity_key: self.entity_key@,
            since: self.since@,
            today: self.today@,
            phase: self.phase,
            job: self.job,
            count: self.count as nat,
            position: self.position as nat,
        }
    }
}

impl UserSync {
    fn next_store(self, notices: Vec<Notice>) -> (r: (UserSync, Directive))
        ensures
            (r.0@, r.1@) == next_store(self@, notices@),
    {
        if self.position < self.count {
            let request = Request::StoreTask { index: self.position };
            (UserSync { phase: UserPhase::StoringTask, ..self }, Directive { notices, request })
        } else {
            let request = Request::CloseJob { job: self.job, synced: self.count as u64, failed: 0 };
            (UserSync { phase: UserPhase::ClosingJob, ..self }, Directive { notices, request })
        }
    }

    /// Whether the sync is over.
    pub fn is_over(&self) -> (over: bool)
        ensures
            over == (self@.phase is Ended),
    {
        match self.phase {
            UserPhase::Ended => true,
            _ => false,
        }
    }

    /// Takes the driver's reply to the request under way and says what to do
    /// next.
    pub fn step(self, reply: Reply) -> (r: (UserSync, Directive))
        ensures
            (r.0@, r.1@) == step_user_model(self@, reply@),
    {
        match self.phase {
            UserPhase::OpeningJob => match reply {
                Reply::JobOpened { job } => {
                    let request = Request::SearchTasks { modified_since: self.since };
                    (UserSync { phase: UserPhase::Searching, job, ..self }, ask(request))
                },
                Reply::Failed { message } => (
                    UserSync { phase: UserPhase::Ended, ..self },
                    fail_with(message),
                ),
                _ => (UserSync { phase: UserPhase::Ended, ..self }, refuse()),
            },
            UserPhase::Searching => match reply {
                Reply::Fetched { count } => {
                    let mut notices: Vec<Notice> = Vec::new();
                    notices.push(Notice::TasksFetched { count });
                    proof {
                        assert(notices@ =~= seq![Notice::TasksFetched { count }]);
                    }
                    let sync = UserSync { count, position: 0, ..self };
                    sync.next_store(notices)
                },
                Reply::Failed { message } => (
                    UserSync { phase: UserPhase::Ended, ..self },
                    fail_with(message),
                ),
                _ => (UserSync { phase: UserPhase::Ended, ..self }, refuse()),
            },
            UserPhase::StoringTask => {
                if self.position < self.count {
                    match reply {
                        Reply::Done => {
                            let sync = UserSync { position: self.position + 1, ..self };
                            sync.next_store(Vec::new())
                        },
                        Reply::Failed { message } => (
                            UserSync { phase: UserPhase::Ended, ..self },
                            fail_with(message),
                        ),
                        _ => (UserSync { phase: UserPhase::Ended, ..self }, refuse()),
                    }
                } else {
                    (UserSync { phase: UserPhase::Ended, ..self }, refuse())
                }
            },
            UserPhase::ClosingJob => match reply {
                Reply::Done => {
                    let report = SyncReport::from_counts(
                        self.entity_key.clone(),
                        self.count as u64,
                        0,
                        1,
                        1,
                    );
                    (
                        UserSync { phase: UserPhase::Ended, ..self },
                        ask(Request::Finish { report }),
                    )
                },
                Reply::Failed { message } => (
                    UserSync { phase: UserPhase::Ended, ..self },
                    fail_with(message),
                ),
                _ => (UserSync { phase: UserPhase::Ended, ..self }, refuse()),
            },
            UserPhase::Ended => (UserSync { phase: UserPhase::Ended, ..self }, refuse()),
        }
    }
}

/// Starts the sync of the tasks of the user with id `user_gid`. `today` is
/// the current day; the first day of the lookback window that the options
/// name must be in range.
pub fn sync_user(user_gid: &str, options: &SyncOptions, today: Date) -> (r: (UserSync, Directive))
    requires
        in_range(lookback_days(*options, today@)),
    ensures
        (r.0@, r.1@) == start_user_model(user_gid@, lookback_days(*options, today@), today@),
{
    let since = options.lookback_start(today);
    let mut entity_key = String::from_str("user:");
    entity_key.append(user_gid);
    (
        UserSync {
            entity_key,
            since,
            today,
            phase: UserPhase::OpeningJob,
            job: 0,
            count: 0,
            position: 0,
        },
        ask(Request::OpenJob { since, until: today }),
    )
}

// ---------------------------------------------------------------------------
// Teams and portfolios
// ---------------------------------------------------------------------------
/// Where the sync of a team or a portfolio stands.
#[derive(Debug, Clone, Copy, PartialEq, Eq, Structural)]
pub enum ContainerPhase {
    FetchingMembers,
    StoringMembers,
    FetchingContainer,
    StoringContainer,
    FetchingStatus,
    StoringStatus,
    ListingChildren,
    SyncingChild,
    LinkingChild,
    Ended,
}

/// The state of the sync of a team or a portfolio.
pub struct ContainerSyncView {
    pub entity_key: Seq<char>,
    /// Whether the container is a portfolio; otherwise it is a team.
    pub portfolio: bool,
    pub phase: ContainerPhase,
    /// What the container holds.
    pub children: Seq<ChildRefView>,
    /// The place of the child that is being synced.
    pub position: nat,
    /// The items that the children synced so far, added up.
    pub items_synced: u64,
    /// The items that failed in the children so far, added up, with one for
    /// each child whose sync failed as a whole.
    pub items_failed: u64,
    /// How many children failed as a whole.
    pub errored: u32,
    /// How many projects the container holds.
    pub project_count: u32,
}

/// The key under which the store holds the team with id `gid`.
pub open spec fn team_key(gid: Seq<char>) -> Seq<char> {
    "team:"@ + gid
}

/// The key under which the store holds the portfolio with id `gid`.
pub open spec fn portfolio_key(gid: Seq<char>) -> Seq<char> {
    "portfolio:"@ + gid
}

/// Whether a child is a project.
pub open spec fn is_project(child: ChildRefView) -> bool {
    child.resource_type == "project"@
}

/// Whether a child is synced: it is a project and not archived.
pub open spec fn is_wanted(child: ChildRefView) -> bool {
    is_project(child) && !child.archived
}

/// The place of the first child at or after `from` that is synced, or the
/// number of children where there is none.
pub open spec fn next_wanted(children: Seq<ChildRefView>, from: nat) -> nat
    decreases children.len() - from,
{
    if from >= children.len() {
        children.len()
    } else if is_wanted(children[from as int]) {
        from
    } else {
        next_wanted(children, from + 1)
    }
}

/// How many of the children are projects.
pub open spec fn count_projects(children: Seq<ChildRefView>) -> nat
    decreases children.len(),
{
    if children.len() == 0 {
        0
    } else {
        count_projects(children.drop_last()) + if is_project(children.last()) {
            1nat
        } else {
            0nat
        }
    }
}

/// A count as a batch count, held at the largest that fits.
pub open spec fn capped_count(n: nat) -> u32 {
    if n > u32::MAX {
        u32::MAX
    } else {
        n as u32
    }
}

/// One more, held at the largest batch count that fits.
pub open spec fn one_more(n: u32) -> u32 {
    if n < u32::MAX {
        (n + 1) as u32
    } else {
        n
    }
}

/// The report of a team or portfolio: the items of its projects added up,
/// and one batch for each project, completed unless the project's sync
/// failed as a whole.
pub open spec fn container_report(s: ContainerSyncView) -> SyncReportView {
    report_from_counts(
        s.entity_key,
        s.items_synced,
        s.items_failed,
        if s.project_count >= s.errored {
            (s.project_count - s.errored) as u32
        } else {
            0
        },
        s.project_count,
    )
}

/// The state in which the sync of a team starts, and its first request.
pub open spec fn start_team_model(gid: Seq<char>) -> (ContainerSyncView, DirectiveView) {
    (
        ContainerSyncView {
            entity_key: team_key(gid),
            portfolio: false,
            phase: ContainerPhase::FetchingMembers,
            children: Seq::empty(),
            position: 0,
            items_synced: 0,
            items_failed: 0,
            errored: 0,
            project_count: 0,
        },
        asking(RequestView::FetchMembers),
    )
}

/// The state in which the sync of a portfolio starts, and its first request.
pub open spec fn start_portfolio_model(gid: Seq<char>) -> (ContainerSyncView, DirectiveView) {
    (
        ContainerSyncView {
            entity_key: portfolio_key(gid),
            portfolio: true,
            phase: ContainerPhase::FetchingContainer,
            children: Seq::empty(),
            position: 0,
            items_synced: 0,
            items_failed: 0,
            errored: 0,
            project_count: 0,
        },
        asking(RequestView::FetchContainer),
    )
}

/// The sync of the next child that is synced, from `from` on, or the end of
/// the whole sync with its report where no such child is left.
pub open spec fn next_child(s: ContainerSyncView, from: nat) -> (
    ContainerSyncView,
    DirectiveView,
) {
    let at = next_wanted(s.children, from);
    if at < s.children.len() {
        (
            ContainerSyncView { phase: ContainerPhase::SyncingChild, position: at, ..s },
            asking(RequestView::SyncChild { gid: s.children[at as int].gid }),
        )
    } else {
        (
            ContainerSyncView { phase: ContainerPhase::Ended, position: at, ..s },
            asking(RequestView::Finish { report: container_report(s) }),
        )
    }
}

/// One step of the sync of a team or a portfolio.
///
/// A team writes its members, a portfolio its own record and its status
/// updates; a failure there ends the sync with its fault. Then each project
/// that the container holds is synced, archived ones left out. A project
/// whose sync fails is counted and the next one follows. A portfolio puts
/// each project that was synced on record as held by it.
pub open spec fn step_container_model(s: ContainerSyncView, reply: ReplyView) -> (
    ContainerSyncView,
    DirectiveView,
) {
    let ended = ContainerSyncView { phase: ContainerPhase::Ended, ..s };
    match s.phase {
        ContainerPhase::FetchingMembers => match reply {
            ReplyView::Fetched { count } => (
                ContainerSyncView { phase: ContainerPhase::StoringMembers, ..s },
                asking(RequestView::StoreMembers),
            ),
            ReplyView::Failed { message } => (ended, failing(message)),
            _ => (ended, refusing()),
        },
        ContainerPhase::StoringMembers => match reply {
            ReplyView::Done => (
                ContainerSyncView { phase: ContainerPhase::ListingChildren, ..s },
                asking(RequestView::ListChildren),
            ),
            ReplyView::Failed { message } => (ended, failing(message)),
            _ => (ended, refusing()),
        },
        ContainerPhase::FetchingContainer => match reply {
            ReplyView::Fetched { count } => (
                ContainerSyncView { phase: ContainerPhase::StoringContainer, ..s },
                asking(RequestView::StoreContainer),
            ),
            ReplyView::Failed { message } => (ended, failing(message)),
            _ => (ended, refusing()),
        },
        ContainerPhase::StoringContainer => match reply {
            ReplyView::Done => (
                ContainerSyncView { phase: ContainerPhase::FetchingStatus, ..s },
                asking(RequestView::FetchStatusUpdates),
            ),
            ReplyView::Failed { message } => (ended, failing(message)),
            _ => (ended, refusing()),
        },
        ContainerPhase::FetchingStatus => match reply {
            ReplyView::Fetched { count } => if count > 0 {
                (
                    ContainerSyncView { phase: ContainerPhase::StoringStatus, ..s },
                    DirectiveView {
                        notices: seq![Notice::StatusUpdatesSynced { count }],
                        request: RequestView::StoreStatusUpdates,
                    },
                )
            } else {
                (
                    ContainerSyncView { phase: ContainerPhase::ListingChildren, ..s },
                    DirectiveView {
                        notices: seq![Notice::StatusUpdatesSynced { count }],
                        request: RequestView::ListChildren,
                    },
                )
            },
            ReplyView::Failed { message } => (ended, failing(message)),
            _ => (ended, refusing()),
        },
        ContainerPhase::StoringStatus => match reply {
            ReplyView::Done => (
                ContainerSyncView { phase: ContainerPhase::ListingChildren, ..s },
                asking(RequestView::ListChildren),
            ),
            ReplyView::Failed { message } => (ended, failing(message)),
            _ => (ended, refusing()),
        },
        ContainerPhase::ListingChildren => match reply {
            ReplyView::Children { children } => next_child(
                ContainerSyncView {
                    children,
                    project_count: capped_count(count_projects(children)),
                    ..s
                },
                0,
            ),
            ReplyView::Failed { message } => (ended, failing(message)),
            _ => (ended, refusing()),
        },
        ContainerPhase::SyncingChild => if s.position < s.children.len() {
            match reply {
                ReplyView::Synced { report } => {
                    let counted = ContainerSyncView {
                        items_synced: capped_sum(s.items_synced, report.items_synced),
                        items_failed: capped_sum(s.items_failed, report.items_failed),
                        ..s
                    };
                    if s.portfolio {
                        (
                            ContainerSyncView { phase: ContainerPhase::LinkingChild, ..counted },
                            asking(
                                RequestView::LinkChild { gid: s.children[s.position as int].gid },
                            ),
                        )
                    } else {
                        next_child(counted, s.position + 1)
                    }
                },
                ReplyView::Failed { message } => next_child(
                    ContainerSyncView {
                        items_failed: capped_sum(s.items_failed, 1),
                        errored: one_more(s.errored),
                        ..s
                    },
                    s.position + 1,
                ),
                _ => (ended, refusing()),
            }
        } else {
            (ended, refusing())
        },
        ContainerPhase::LinkingChild => if s.position < s.children.len() {
            match reply {
                ReplyView::Done => next_child(s, s.position + 1),
                ReplyView::Failed { message } => (ended, failing(message)),
                _ => (ended, refusing()),
            }
        } else {
            (ended, refusing())
        },
        ContainerPhase::Ended => (ended, refusing()),
    }
}

/// The place that [`next_wanted`] names is at or after `from`, and the child
/// at that place, if there is one, is a project that is not archived.
pub proof fn lemma_next_wanted(children: Seq<ChildRefView>, from: nat)
    ensures
        from <= children.len() ==> from <= next_wanted(children, from) <= children.len(),
        next_wanted(children, from) < children.len() ==> is_wanted(
            children[next_wanted(children, from) as int],
        ),
    decreases children.len() - from,
{
    if from < children.len() && !is_wanted(children[from as int]) {
        lemma_next_wanted(children, from + 1);
    }
}

/// The failure of one project of a team or a portfolio is its own: it is
/// counted as one failed item and one batch not completed, and the sync goes
/// on with a later project, or ends with its report.
pub proof fn lemma_child_failure_is_contained(s: ContainerSyncView, message: Seq<char>)
    requires
        s.phase is SyncingChild,
        s.position < s.children.len(),
    ensures
        ({
            let next = step_container_model(s, ReplyView::Failed { message });
            &&& next.0.items_synced == s.items_synced
            &&& next.0.items_failed == capped_sum(s.items_failed, 1)
            &&& next.0.errored == one_more(s.errored)
            &&& next.1.request is SyncChild || next.1.request is Finish
            &&& next.1.request is SyncChild ==> s.position < next.0.position
                < s.children.len() && is_wanted(s.children[next.0.position as int])
            &&& next.1.request matches RequestView::Finish { report } ==> report
                == container_report(next.0)
        }),
{
    lemma_next_wanted(s.children, s.position + 1);
}

/// The sync of a team or a portfolio under way. See
/// [`step_container_model`] for what it does.
#[derive(Debug)]
pub struct ContainerSync {
    entity_key: String,
    portfolio: bool,
    phase: ContainerPhase,
    children: Vec<ChildRef>,
    position: usize,
    items_synced: u64,
    items_failed: u64,
    errored: u32,
    project_count: u32,
}

impl View for ContainerSync {
    type V = ContainerSyncView;

    closed spec fn view(&self) -> ContainerSyncView {
        ContainerSyncView {
            entity_key: self.entity_key@,
            portfolio: self.portfolio,
            phase: self.phase,
            children: children_of(self.children@),
            position: self.position as nat,
            items_synced: self.items_synced,
            items_failed: self.items_failed,
            errored: self.errored,
            project_count: self.project_count,
        }
    }
}

/// Whether a child is a project.
fn child_is_project(child: &ChildRef) -> (wanted: bool)
    ensures
        wanted == is_project(child@),
{
    same_text(child.resource_type.as_str(), "project")
}

/// How many of the children are projects, held at the largest batch count
/// that fits.
fn project_total(children: &Vec<ChildRef>) -> (total: u32)
    ensures
        total == capped_count(count_projects(children_of(children@))),
{
    let mut total: u32 = 0;
    let mut i: usize = 0;
    proof {
        assert(children_of(children@).take(0) =~= Seq::<ChildRefView>::empty());
    }
    while i < children.len()
        invariant
            i <= children.len(),
            total == capped_count(count_projects(children_of(children@).take(i as int))),
        decreases children.len() - i,
    {
        proof {
            let upto = children_of(children@).take(i + 1);
            assert(upto.drop_last() =~= children_of(children@).take(i as int));
            assert(upto.last() == children[i as int]@);
        }
        if child_is_project(&children[i]) && total < u32::MAX {
            total += 1;
        }
        i += 1;
    }
    proof {
        assert(children_of(children@).take(i as int) =~= children_of(children@));
    }
    total
}

impl ContainerSync {
    fn report(&self) -> (report: SyncReport)
        ensures
            report@ == container_report(self@),
    {
        let completed: u32 = if self.project_count >= self.errored {
            self.project_count - self.errored
        } else {
            0
        };
        SyncReport::from_counts(
            self.entity_key.clone(),
            self.items_synced,
            self.items_failed,
            completed,
            self.project_count,
        )
    }

    fn next_child(self, from: usize) -> (r: (ContainerSync, Directive))
        requires
            from <= self.children.len(),
        ensures
            (r.0@, r.1@) == next_child(self@, from as nat),
    {
        let mut at: usize = from;
        while at < self.children.len() && !(child_is_project(&self.children[at])
            && !self.children[at].archived)
            invariant
                from <= at <= self.children.len(),
                next_wanted(children_of(self.children@), from as nat) == next_wanted(
                    children_of(self.children@),
                    at as nat,
                ),
            decreases self.children.len() - at,
        {
            proof {
                assert(children_of(self.children@)[at as int] == self.children[at as int]@);
            }
            at += 1;
        }
        if at < self.children.len() {
            let gid = self.children[at].gid.clone();
            proof {
                assert(children_of(self.children@)[at as int] == self.children[at as int]@);
            }
            (
                ContainerSync { phase: ContainerPhase::SyncingChild, position: at, ..self },
                ask(Request::SyncChild { gid }),
            )
        } else {
            let report = self.report();
            (
                ContainerSync { phase: ContainerPhase::Ended, position: at, ..self },
                ask(Request::Finish { report }),
            )
        }
    }

    fn end(self, directive: Directive) -> (r: (ContainerSync, Directive))
        ensures
            r.0@ == (ContainerSyncView { phase: ContainerPhase::Ended, ..self@ }),
            r.1 == directive,
    {
        (ContainerSync { phase: ContainerPhase::Ended, ..self }, directive)
    }

    fn go(self, phase: ContainerPhase, request: Request) -> (r: (ContainerSync, Directive))
        ensures
            r.0@ == (ContainerSyncView { phase, ..self@ }),
            r.1@ == asking(request@),
    {
        (ContainerSync { phase, ..self }, ask(request))
    }

    /// Whether the sync is over.
    pub fn is_over(&self) -> (over: bool)
        ensures
            over == (self@.phase is Ended),
    {
        match self.phase {
            ContainerPhase::Ended => true,
            _ => false,
        }
    }

    fn when_syncing_child(self, reply: Reply) -> (r: (ContainerSync, Directive))
        requires
            self@.phase is SyncingChild,
        ensures
            (r.0@, r.1@) == step_container_model(self@, reply@),
    {
        if self.position < self.children.len() {
            match reply {
                Reply::Synced { report } => {
                    let items_synced = add_capped(self.items_synced, report.items_synced);
                    let items_failed = add_capped(self.items_failed, report.items_failed);
                    if self.portfolio {
                        let gid = self.children[self.position].gid.clone();
                        proof {
                            assert(children_of(self.children@)[self.position as int]
                                == self.children[self.position as int]@);
                        }
                        (
                            ContainerSync {
                                phase: ContainerPhase::LinkingChild,
                                items_synced,
                                items_failed,
                                ..self
                            },
                            ask(Request::LinkChild { gid }),
                        )
                    } else {
                        let from = self.position + 1;
                        let sync = ContainerSync { items_synced, items_failed, ..self };
                        sync.next_child(from)
                    }
                },
                Reply::Failed { message } => {
                    let from = self.position + 1;
                    let errored = if self.errored < u32::MAX {
                        self.errored + 1
                    } else {
                        self.errored
                    };
                    let sync = ContainerSync {
                        items_failed: add_capped(self.items_failed, 1),
                        errored,
                        ..self
                    };
                    sync.next_child(from)
                },
                _ => self.end(refuse()),
            }
        } else {
            self.end(refuse())
        }
    }

    /// Takes the driver's reply to the request under way and says what to do
    /// next.
    pub fn step(self, reply: Reply) -> (r: (ContainerSync, Directive))
        ensures
            (r.0@, r.1@) == step_container_model(self@, reply@),
    {
        match self.phase {
            ContainerPhase::FetchingMembers => match reply {
                Reply::Fetched { count } => self.go(
                    ContainerPhase::StoringMembers,
                    Request::StoreMembers,
                ),
                Reply::Failed { message } => self.end(fail_with(message)),
                _ => self.end(refuse()),
            },
            ContainerPhase::StoringMembers => match reply {
                Reply::Done => self.go(ContainerPhase::ListingChildren, Request::ListChildren),
                Reply::Failed { message } => self.end(fail_with(message)),
                _ => self.end(refuse()),
            },
            ContainerPhase::FetchingContainer => match reply {
                Reply::Fetched { count } => self.go(
                    ContainerPhase::StoringContainer,
                    Request::StoreContainer,
                ),
                Reply::Failed { message } => self.end(fail_with(message)),
                _ => self.end(refuse()),
            },
            ContainerPhase::StoringContainer => match reply {
                Reply::Done => self.go(
                    ContainerPhase::FetchingStatus,
                    Request::FetchStatusUpdates,
                ),
                Reply::Failed { message } => self.end(fail_with(message)),
                _ => self.end(refuse()),
            },
            ContainerPhase::FetchingStatus => match reply {
                Reply::Fetched { count } => {
                    let mut notices: Vec<Notice> = Vec::new();
                    notices.push(Notice::StatusUpdatesSynced { count });
                    proof {
                        assert(notices@ =~= seq![Notice::StatusUpdatesSynced { count }]);
                    }
                    if count > 0 {
                        (
                            ContainerSync { phase: ContainerPhase::StoringStatus, ..self },
                            Directive { notices, request: Request::StoreStatusUpdates },
                        )
                    } else {
                        (
                            ContainerSync { phase: ContainerPhase::ListingChildren, ..self },
                            Directive { notices, request: Request::ListChildren },
                        )
                    }
                },
                Reply::Failed { message } => self.end(fail_with(message)),
                _ => self.end(refuse()),
            },
            ContainerPhase::StoringStatus => match reply {
                Reply::Done => self.go(ContainerPhase::ListingChildren, Request::ListChildren),
                Reply::Failed { message } => self.end(fail_with(message)),
                _ => self.end(refuse()),
            },
            ContainerPhase::ListingChildren => match reply {
                Reply::Children { children } => {
                    let project_count = project_total(&children);
                    let sync = ContainerSync { children, project_count, ..self };
                    sync.next_child(0)
                },
                Reply::Failed { message } => self.end(fail_with(message)),
                _ => self.end(refuse()),
            },
            ContainerPhase::SyncingChild => self.when_syncing_child(reply),
            ContainerPhase::LinkingChild => {
                if self.position < self.children.len() {
                    match reply {
                        Reply::Done => {
                            let from = self.position + 1;
                            self.next_child(from)
                        },
                        Reply::Failed { message } => self.end(fail_with(message)),
                        _ => self.end(refuse()),
                    }
                } else {
                    self.end(refuse())
                }
            },
            ContainerPhase::Ended => self.end(refuse()),
        }
    }
}

fn start_container(entity_key: String, portfolio: bool) -> (r: (ContainerSync, Directive))
    ensures
        r.0@ == (ContainerSyncView {
            entity_key: entity_key@,
            portfolio,
            phase: if portfolio {
                ContainerPhase::FetchingContainer
            } else {
                ContainerPhase::FetchingMembers
            },
            children: Seq::empty(),
            position: 0,
            items_synced: 0,
            items_failed: 0,
            errored: 0,
            project_count: 0,
        }),
        r.1@ == asking(
            if portfolio {
                RequestView::FetchContainer
            } else {
                RequestView::FetchMembers
            },
        ),
{
    let sync = ContainerSync {
        entity_key,
        portfolio,
        phase: if portfolio {
            ContainerPhase::FetchingContainer
        } else {
            ContainerPhase::FetchingMembers
        },
        children: Vec::new(),
        position: 0,
        items_synced: 0,
        items_failed: 0,
        errored: 0,
        project_count: 0,
    };
    proof {
        assert(children_of(sync.children@) =~= Seq::<ChildRefView>::empty());
    }
    let request = if portfolio {
        Request::FetchContainer
    } else {
        Request::FetchMembers
    };
    (sync, ask(request))
}

/// Starts the sync of the team with id `team_gid`: its members, then each of
/// its projects.
pub fn sync_team(team_gid: &str) -> (r: (ContainerSync, Directive))
    ensures
        (r.0@, r.1@) == start_team_model(team_gid@),
{
    let mut entity_key = String::from_str("team:");
    entity_key.append(team_gid);
    start_container(entity_key, false)
}

/// Starts the sync of the portfolio with id `portfolio_gid`: its own record
/// and status updates, then each of its projects.
pub fn sync_portfolio(portfolio_gid: &str) -> (r: (ContainerSync, Directive))
    ensures
        (r.0@, r.1@) == start_portfolio_model(portfolio_gid@),
{
    let mut entity_key = String::from_str("portfolio:");
    entity_key.append(portfolio_gid);
    start_container(entity_key, true)
}

// ---------------------------------------------------------------------------
// Everything that is monitored
// ---------------------------------------------------------------------------
/// Where the sync of all entities stands.
#[derive(Debug, Clone, Copy, PartialEq, Eq, Structural)]
pub enum AllPhase {
    EnsuringIdentity,
    ListingEntities,
    SyncingEntity,
    Ended,
}

/// The state of the sync of all entities.
pub struct SyncAllView {
    pub phase: AllPhase,
    /// The entities to sync, in the order in which they were added.
    pub entities: Seq<MonitoredEntityView>,
    /// The place of the entity that is being synced.
    pub position: nat,
    /// The reports made so far, one for each entity whose sync is over.
    pub reports: Seq<SyncReportView>,
}

/// The kind of entity that a type name stands for, if it is one that can be
/// synced.
pub open spec fn entity_kind(entity_type: Seq<char>) -> Option<EntityKind> {
    if entity_type == "project"@ {
        Some(EntityKind::Project)
    } else if entity_type == "user"@ {
        Some(EntityKind::User)
    } else if entity_type == "team"@ {
        Some(EntityKind::Team)
    } else if entity_type == "portfolio"@ {
        Some(EntityKind::Portfolio)
    } else {
        None
    }
}

/// The place of the first entity at or after `from` whose kind can be
/// synced, or the number of entities where there is none.
pub open spec fn next_known(entities: Seq<MonitoredEntityView>, from: nat) -> nat
    decreases entities.len() - from,
{
    if from >= entities.len() {
        entities.len()
    } else if entity_kind(entities[from as int].entity_type) is Some {
        from
    } else {
        next_known(entities, from + 1)
    }
}

/// The notices that the syncs of the entities from place `from` up to, but
/// not including, place `upto` begin.
pub open spec fn start_notices(from: nat, upto: nat, total: nat) -> Seq<Notice> {
    Seq::new(
        (upto - from) as nat,
        |k: int| Notice::EntityStart { index: (from + k) as usize, total: total as usize },
    )
}

/// The report for an entity whose sync failed as a whole: one failed item,
/// no batch, and the message of the failure.
pub open spec fn failed_report(entity_key: Seq<char>, message: Seq<char>) -> SyncReportView {
    SyncReportView {
        entity_key,
        status: SyncStatus::Failed,
        items_synced: 0,
        items_failed: 1,
        batches_completed: 0,
        batches_total: 0,
        error: Some(message),
    }
}

/// The state in which the sync of all entities starts, and its first
/// request.
pub open spec fn start_all_model() -> (SyncAllView, DirectiveView) {
    (
        SyncAllView {
            phase: AllPhase::EnsuringIdentity,
            entities: Seq::empty(),
            position: 0,
            reports: Seq::empty(),
        },
        asking(RequestView::EnsureIdentity),
    )
}

/// The sync of the next entity, from place `from` on, or the end of the
/// whole sync with its reports. Every entity that is passed is announced,
/// also one of a kind that cannot be synced, which is then left out.
pub open spec fn next_entity(s: SyncAllView, from: nat, notices: Seq<Notice>) -> (
    SyncAllView,
    DirectiveView,
) {
    let at = next_known(s.entities, from);
    if at < s.entities.len() {
        (
            SyncAllView { phase: AllPhase::SyncingEntity, position: at, ..s },
            DirectiveView {
                notices: notices + start_notices(from, at + 1, s.entities.len()),
                request: RequestView::SyncEntity {
                    index: at as usize,
                    kind: entity_kind(s.entities[at as int].entity_type)->0,
                    gid: s.entities[at as int].entity_gid,
                },
            },
        )
    } else {
        (
            SyncAllView { phase: AllPhase::Ended, position: at, reports: Seq::empty(), ..s },
            DirectiveView {
                notices: notices + start_notices(from, at, s.entities.len()),
                request: RequestView::FinishAll { reports: s.reports },
            },
        )
    }
}

/// One step of the sync of all entities.
///
/// The identity of the current user is put on record first; a failure there
/// stops nothing. Then the entities are synced one after the other, in the
/// order of the list. An entity whose sync fails gets a report of failure,
/// and the next entity follows.
pub open spec fn step_all_model(s: SyncAllView, reply: ReplyView) -> (SyncAllView, DirectiveView) {
    let ended = SyncAllView { phase: AllPhase::Ended, ..s };
    match s.phase {
        AllPhase::EnsuringIdentity => match reply {
            ReplyView::Done => (
                SyncAllView { phase: AllPhase::ListingEntities, ..s },
                asking(RequestView::ListEntities),
            ),
            ReplyView::Failed { message } => (
                SyncAllView { phase: AllPhase::ListingEntities, ..s },
                asking(RequestView::ListEntities),
            ),
            _ => (ended, refusing()),
        },
        AllPhase::ListingEntities => match reply {
            ReplyView::Entities { entities } => next_entity(
                SyncAllView { entities, ..s },
                0,
                Seq::empty(),
            ),
            ReplyView::Failed { message } => (ended, failing(message)),
            _ => (ended, refusing()),
        },
        AllPhase::SyncingEntity => if s.position < s.entities.len() {
            match reply {
                ReplyView::Synced { report } => next_entity(
                    SyncAllView { reports: s.reports.push(report), ..s },
                    s.position + 1,
                    seq![Notice::EntityComplete { report: s.reports.len() as usize }],
                ),
                ReplyView::Failed { message } => next_entity(
                    SyncAllView {
                        reports: s.reports.push(
                            failed_report(s.entities[s.position as int].entity_key, message),
                        ),
                        ..s
                    },
                    s.position + 1,
                    seq![Notice::EntityComplete { report: s.reports.len() as usize }],
                ),
                _ => (ended, refusing()),
            }
        } else {
            (ended, refusing())
        },
        AllPhase::Ended => (ended, refusing()),
    }
}

/// The failure of one entity is its own: the sync of all entities goes on
/// with the next entity, or ends with its reports, and the reports then hold
/// one more, a report of failure for that entity.
pub proof fn lemma_entity_failure_is_contained(s: SyncAllView, message: Seq<char>)
    requires
        s.phase is SyncingEntity,
        s.position < s.entities.len(),
    ensures
        ({
            let next = step_all_model(s, ReplyView::Failed { message });
            let report = failed_report(s.entities[s.position as int].entity_key, message);
            &&& report.status == SyncStatus::Failed
            &&& !(next.1.request is Fail)
            &&& next.1.request is SyncEntity ==> next.0.reports == s.reports.push(report)
                && next.0.position > s.position
            &&& next.1.request matches RequestView::FinishAll { reports } ==> reports
                == s.reports.push(report)
        }),
{
    lemma_next_known(s.entities, s.position + 1);
}

/// The place that [`next_known`] names is at or after `from`.
pub proof fn lemma_next_known(entities: Seq<MonitoredEntityView>, from: nat)
    ensures
        from <= entities.len() ==> from <= next_known(entities, from) <= entities.len(),
        next_known(entities, from) < entities.len() ==> entity_kind(
            entities[next_known(entities, from) as int].entity_type,
        ) is Some,
    decreases entities.len() - from,
{
    if from < entities.len() && !(entity_kind(entities[from as int].entity_type) is Some) {
        lemma_next_known(entities, from + 1);
    }
}

/// The sync of all entities under way. See [`step_all_model`] for what it
/// does.
#[derive(Debug)]
pub struct SyncAll {
    phase: AllPhase,
    entities: Vec<MonitoredEntity>,
    position: usize,
    reports: Vec<SyncReport>,
}

impl View for SyncAll {
    type V = SyncAllView;

    closed spec fn view(&self) -> SyncAllView {
        SyncAllView {
            phase: self.phase,
            entities: entities_of(self.entities@),
            position: self.position as nat,
            reports: reports_of(self.reports@),
        }
    }
}

/// The kind of entity that a type name stands for, if it is one that can be
/// synced.
pub fn parse_entity_kind(entity_type: &str) -> (kind: Option<EntityKind>)
    ensures
        kind == entity_kind(entity_type@),
{
    if same_text(entity_type, "project") {
        Some(EntityKind::Project)
    } else if same_text(entity_type, "user") {
        Some(EntityKind::User)
    } else if same_text(entity_type, "team") {
        Some(EntityKind::Team)
    } else if same_text(entity_type, "portfolio") {
        Some(EntityKind::Portfolio)
    } else {
        None
    }
}

impl SyncAll {
    /// Whether the sync is over.
    pub fn is_over(&self) -> (over: bool)
        ensures
            over == (self@.phase is Ended),
    {
        match self.phase {
            AllPhase::Ended => true,
            _ => false,
        }
    }

    /// The reports made so far.
    pub fn reports(&self) -> (reports: &Vec<SyncReport>)
        ensures
            reports_of(reports@) == self@.reports,
    {
        &self.reports
    }

    /// The entities to sync.
    pub fn entities(&self) -> (entities: &Vec<MonitoredEntity>)
        ensures
            entities_of(entities@) == self@.entities,
    {
        &self.entities
    }

    fn next_entity(self, from: usize, first: Vec<Notice>) -> (r: (SyncAll, Directive))
        requires
            from <= self.entities.len(),
        ensures
            (r.0@, r.1@) == next_entity(self@, from as nat, first@),
    {
        let total = self.entities.len();
        let ghost given = first@;
        let ghost list = entities_of(self.entities@);
        let mut notices = first;
        let mut at: usize = from;
        proof {
            assert(notices@ =~= given + start_notices(from as nat, at as nat, total as nat));
        }
        while at < total
            invariant
                total == self.entities.len(),
                list == entities_of(self.entities@),
                given == first@,
                from <= at <= total,
                next_known(list, from as nat) == next_known(list, at as nat),
                notices@ == given + start_notices(from as nat, at as nat, total as nat),
            decreases total - at,
        {
            let ghost before = notices@;
            notices.push(Notice::EntityStart { index: at, total });
            proof {
                assert(list[at as int] == self.entities[at as int]@);
                assert(notices@ =~= given + start_notices(
                    from as nat,
                    (at + 1) as nat,
                    total as nat,
                ));
            }
            match parse_entity_kind(self.entities[at].entity_type.as_str()) {
                Some(kind) => {
                    let gid = self.entities[at].entity_gid.clone();
                    proof {
                        assert(entity_kind(list[at as int].entity_type) == Some(kind));
                        assert(next_known(list, at as nat) == at);
                    }
                    return (
                        SyncAll { phase: AllPhase::SyncingEntity, position: at, ..self },
                        Directive {
                            notices,
                            request: Request::SyncEntity { index: at, kind, gid },
                        },
                    );
                },
                None => {
                    proof {
                        assert(entity_kind(list[at as int].entity_type) is None);
                        assert(next_known(list, at as nat) == next_known(list, (at + 1) as nat));
                    }
                },
            }
            at += 1;
        }
        let SyncAll { phase, entities, position, reports } = self;
        let sync = SyncAll { phase: AllPhase::Ended, entities, position: at, reports: Vec::new() };
        proof {
            assert(reports_of(sync.reports@) =~= Seq::<SyncReportView>::empty());
        }
        (sync, Directive { notices, request: Request::FinishAll { reports } })
    }

    fn record(self, report: SyncReport) -> (r: (SyncAll, Directive))
        requires
            self.position < self.entities.len(),
        ensures
            (r.0@, r.1@) == next_entity(
                SyncAllView { reports: self@.reports.push(report@), ..self@ },
                self@.position + 1,
                seq![Notice::EntityComplete { report: self@.reports.len() as usize }],
            ),
    {
        let SyncAll { phase, entities, position, reports } = self;
        let mut reports = reports;
        let ghost before = reports_of(reports@);
        let mut notices: Vec<Notice> = Vec::new();
        notices.push(Notice::EntityComplete { report: reports.len() });
        reports.push(report);
        proof {
            assert(reports_of(reports@) =~= before.push(report@));
            assert(notices@ =~= seq![Notice::EntityComplete { report: before.len() as usize }]);
        }
        let sync = SyncAll { phase, entities, position, reports };
        sync.next_entity(position + 1, notices)
    }

    /// Takes the driver's reply to the request under way and says what to do
    /// next.
    pub fn step(self, reply: Reply) -> (r: (SyncAll, Directive))
        ensures
            (r.0@, r.1@) == step_all_model(self@, reply@),
    {
        match self.phase {
            AllPhase::EnsuringIdentity => match reply {
                Reply::Done => (
                    SyncAll { phase: AllPhase::ListingEntities, ..self },
                    ask(Request::ListEntities),
                ),
                Reply::Failed { message } => (
                    SyncAll { phase: AllPhase::ListingEntities, ..self },
                    ask(Request::ListEntities),
                ),
                _ => (SyncAll { phase: AllPhase::Ended, ..self }, refuse()),
            },
            AllPhase::ListingEntities => match reply {
                Reply::Entities { entities } => {
                    let sync = SyncAll { entities, ..self };
                    sync.next_entity(0, Vec::new())
                },
                Reply::Failed { message } => (
                    SyncAll { phase: AllPhase::Ended, ..self },
                    fail_with(message),
                ),
                _ => (SyncAll { phase: AllPhase::Ended, ..self }, refuse()),
            },
            AllPhase::SyncingEntity => {
                if self.position < self.entities.len() {
                    match reply {
                        Reply::Synced { report } => self.record(report),
                        Reply::Failed { message } => {
                            let report = SyncReport {
                                entity_key: self.entities[self.position].entity_key.clone(),
                                status: SyncStatus::Failed,
                                items_synced: 0,
                                items_failed: 1,
                                batches_completed: 0,
                                batches_total: 0,
                                error: Some(message),
                            };
                            proof {
                                assert(entities_of(self.entities@)[self.position as int]
                                    == self.entities[self.position as int]@);
                            }
                            self.record(report)
                        },
                        _ => (SyncAll { phase: AllPhase::Ended, ..self }, refuse()),
                    }
                } else {
                    (SyncAll { phase: AllPhase::Ended, ..self }, refuse())
                }
            },
            AllPhase::Ended => (SyncAll { phase: AllPhase::Ended, ..self }, refuse()),
        }
    }
}

/// Starts the sync of all entities that are kept in sync.
pub fn sync_all() -> (r: (SyncAll, Directive))
    ensures
        (r.0@, r.1@) == start_all_model(),
{
    let sync = SyncAll {
        phase: AllPhase::EnsuringIdentity,
        entities: Vec::new(),
        position: 0,
        reports: Vec::new(),
    };
    proof {
        assert(entities_of(sync.entities@) =~= Seq::<MonitoredEntityView>::empty());
        assert(reports_of(sync.reports@) =~= Seq::<SyncReportView>::empty());
    }
    (sync, ask(Request::EnsureIdentity))
}

} // verus!
