//! The words in which a sync and its driver speak to each other.
//!
//! A sync never touches the network or the store. It hands its driver a
//! [`Directive`]: progress notices to pass on, then one [`Request`] to carry
//! out. The driver answers with a [`Reply`], and the sync decides what comes
//! next. Whatever a request fetches stays with the driver; a reply tells the
//! sync only what it needs for its decisions.

use crate::date::Date;
use crate::storage::repository::{entities_of, MonitoredEntity, MonitoredEntityView};
use crate::sync::events::{events_of, text_of, ChangeEvent, ChangeEventView};
use crate::sync::{IncrementalSyncSummary, SyncReport, SyncReportView};
use crate::sync::moment::{later, moment_of, moment_view, read_moment, Moment, MomentView};
use vstd::prelude::*;

verus! {

/// Why a sync gave up.
#[derive(Debug, Clone, PartialEq, Eq)]
pub enum Fault {
    /// A request failed, with the message of its error.
    Reported { message: String },
    /// The driver sent a reply that does not answer the request under way.
    UnexpectedReply,
}

/// A [`Fault`] with its text as a sequence of characters.
pub enum FaultView {
    Reported { message: Seq<char> },
    UnexpectedReply,
}

impl View for Fault {
    type V = FaultView;

    open spec fn view(&self) -> FaultView {
        match self {
            Fault::Reported { message } => FaultView::Reported { message: message@ },
            Fault::UnexpectedReply => FaultView::UnexpectedReply,
        }
    }
}

/// Something for the driver to tell the progress callbacks.
#[derive(Debug, Clone, Copy, PartialEq, Eq)]
pub enum Notice {
    IncrementalSync { summary: IncrementalSyncSummary },
    TasksFetched { count: usize },
    CommentsSkipped { skipped: usize, total: usize },
    CommentsProgress { current: usize, total: usize },
    StatusUpdatesSynced { count: usize },
    /// The sync of the entity with this place on the list begins; `total`
    /// entities are on the list.
    EntityStart { index: usize, total: usize },
    /// The sync of an entity is over; its report is the one with this place
    /// among the reports made so far.
    EntityComplete { report: usize },
}

/// The kinds of entity that can be kept in sync.
#[derive(Debug, Clone, Copy, PartialEq, Eq, Structural)]
pub enum EntityKind {
    Project,
    User,
    Team,
    Portfolio,
}

/// Something that a team or a portfolio holds.
#[derive(Debug, Clone, PartialEq, Eq)]
pub struct ChildRef {
    pub gid: String,
    /// The type of the resource, as the remote service names it.
    pub resource_type: String,
    /// Whether the resource is archived. Archived projects are not synced.
    pub archived: bool,
}

/// A [`ChildRef`] with its texts as sequences of characters.
pub struct ChildRefView {
    pub gid: Seq<char>,
    pub resource_type: Seq<char>,
    pub archived: bool,
}

impl View for ChildRef {
    type V = ChildRefView;

    open spec fn view(&self) -> ChildRefView {
        ChildRefView {
            gid: self.gid@,
            resource_type: self.resource_type@,
            archived: self.archived,
        }
    }
}

/// The children of a list, as views.
pub open spec fn children_of(children: Seq<ChildRef>) -> Seq<ChildRefView> {
    children.map_values(|c: ChildRef| c@)
}

/// The reports of a list, as views.
pub open spec fn reports_of(reports: Seq<SyncReport>) -> Seq<SyncReportView> {
    reports.map_values(|r: SyncReport| r@)
}

/// A task as a full sync sees it when it lists the tasks of a project.
#[derive(Debug, Clone, PartialEq, Eq)]
pub struct TaskStamp {
    pub gid: String,
    /// When the task was last modified, as the remote service writes it.
    pub modified_at: Option<String>,
}

/// A [`TaskStamp`] with its texts as sequences of characters.
pub struct TaskStampView {
    pub gid: Seq<char>,
    pub modified_at: Option<Seq<char>>,
}

impl View for TaskStamp {
    type V = TaskStampView;

    open spec fn view(&self) -> TaskStampView {
        TaskStampView { gid: self.gid@, modified_at: text_of(self.modified_at) }
    }
}

/// The stamps of a list, as views.
pub open spec fn stamps_of(stamps: Seq<TaskStamp>) -> Seq<TaskStampView> {
    stamps.map_values(|s: TaskStamp| s@)
}

/// What a sync asks its driver to do.
#[derive(Debug, Clone, PartialEq, Eq)]
pub enum Request {
    /// Make sure the store has a row for the entity, so that its cursor and
    /// its last sync time have a place. An existing row stays as it is.
    EnsureEntity,
    /// Read the event cursor on record for the entity.
    ReadCursor,
    /// Put this event cursor on record.
    StoreCursor { token: String },
    /// Put this event cursor on record and set the last sync time to now, in
    /// one write.
    StoreCursorAndStamp { token: String },
    /// Read the entity's last sync time.
    ReadWatermark,
    /// Write the project and the sections that were fetched last, the users
    /// they refer to first.
    StoreProjectMetadata,
    /// Open a job record for a sync of the days from `since` to `until`.
    OpenJob { since: Date, until: Date },
    /// Write the tasks fetched in this attempt and the comments fetched for
    /// them: first the users they refer to, then the tasks (a task may refer
    /// to a parent that is not there yet), then the comments.
    StoreTasksAndComments,
    /// Write the status updates that were fetched last, their authors first.
    StoreStatusUpdates,
    /// Close the job as completed with so many items synced and so many
    /// failed, and set the last sync time to now, in one write.
    CloseJob { job: i64, synced: u64, failed: u64 },
    /// Ask the remote service for a fresh event cursor.
    EstablishCursor,
    /// Ask the remote service for the events since this cursor.
    FetchEvents { token: String },
    /// Fetch the task with this id.
    FetchTask { gid: String },
    /// Fetch the comments of the task with this id.
    FetchComments { gid: String },
    /// Fetch the project's own record.
    FetchProject,
    /// Fetch the sections of the project.
    FetchSections,
    /// Fetch the status updates of the entity.
    FetchStatusUpdates,
    /// List the project's tasks: all that are not completed, and those
    /// completed on or after the given day. Everything fetched earlier in
    /// this sync is dropped.
    ListTasks { completed_since: Date },
    /// Search the workspace for the tasks assigned to the user that were
    /// modified on or after the given day.
    SearchTasks { modified_since: Date },
    /// Write the task with this place among the tasks found.
    StoreTask { index: usize },
    /// Fetch the team's or portfolio's own record.
    FetchContainer,
    /// Write the record that was fetched last, the user it refers to first.
    StoreContainer,
    /// Fetch the members of the team.
    FetchMembers,
    /// Write the members that were fetched last, each as a user and as a
    /// member of the team.
    StoreMembers,
    /// List what the team or portfolio holds.
    ListChildren,
    /// Sync the project with this id, as a sync of its own.
    SyncChild { gid: String },
    /// Put on record that the portfolio holds the project with this id.
    LinkChild { gid: String },
    /// Make sure the identity of the current user is on record.
    EnsureIdentity,
    /// List the entities that are kept in sync, in the order in which they
    /// were added.
    ListEntities,
    /// Sync the entity with this place on the list, as a sync of its own.
    SyncEntity { index: usize, kind: EntityKind, gid: String },
    /// The sync of all entities is over. Hand the reports to the caller.
    FinishAll { reports: Vec<SyncReport> },
    /// The sync is over. Hand the report to the caller.
    Finish { report: SyncReport },
    /// The sync is over. Hand the fault to the caller.
    Fail { fault: Fault },
}

/// A [`Request`] with its texts as sequences of characters.
pub enum RequestView {
    EnsureEntity,
    ReadCursor,
    StoreCursor { token: Seq<char> },
    StoreCursorAndStamp { token: Seq<char> },
    ReadWatermark,
    StoreProjectMetadata,
    OpenJob { since: int, until: int },
    StoreTasksAndComments,
    StoreStatusUpdates,
    CloseJob { job: i64, synced: u64, failed: u64 },
    EstablishCursor,
    FetchEvents { token: Seq<char> },
    FetchTask { gid: Seq<char> },
    FetchComments { gid: Seq<char> },
    FetchProject,
    FetchSections,
    FetchStatusUpdates,
    ListTasks { completed_since: int },
    SearchTasks { modified_since: int },
    StoreTask { index: usize },
    FetchContainer,
    StoreContainer,
    FetchMembers,
    StoreMembers,
    ListChildren,
    SyncChild { gid: Seq<char> },
    LinkChild { gid: Seq<char> },
    EnsureIdentity,
    ListEntities,
    SyncEntity { index: usize, kind: EntityKind, gid: Seq<char> },
    FinishAll { reports: Seq<SyncReportView> },
    Finish { report: SyncReportView },
    Fail { fault: FaultView },
}

impl View for Request {
    type V = RequestView;

    open spec fn view(&self) -> RequestView {
        match self {
            Request::EnsureEntity => RequestView::EnsureEntity,
            Request::ReadCursor => RequestView::ReadCursor,
            Request::StoreCursor { token } => RequestView::StoreCursor { token: token@ },
            Request::StoreCursorAndStamp { token } => RequestView::StoreCursorAndStamp {
                token: token@,
            },
            Request::ReadWatermark => RequestView::ReadWatermark,
            Request::StoreProjectMetadata => RequestView::StoreProjectMetadata,
            Request::OpenJob { since, until } => RequestView::OpenJob {
                since: since@,
                until: until@,
            },
            Request::StoreTasksAndComments => RequestView::StoreTasksAndComments,
            Request::StoreStatusUpdates => RequestView::StoreStatusUpdates,
            Request::CloseJob { job, synced, failed } => RequestView::CloseJob {
                job: *job,
                synced: *synced,
                failed: *failed,
            },
            Request::EstablishCursor => RequestView::EstablishCursor,
            Request::FetchEvents { token } => RequestView::FetchEvents { token: token@ },
            Request::FetchTask { gid } => RequestView::FetchTask { gid: gid@ },
            Request::FetchComments { gid } => RequestView::FetchComments { gid: gid@ },
            Request::FetchProject => RequestView::FetchProject,
            Request::FetchSections => RequestView::FetchSections,
            Request::FetchStatusUpdates => RequestView::FetchStatusUpdates,
            Request::ListTasks { completed_since } => RequestView::ListTasks {
                completed_since: completed_since@,
            },
            Request::SearchTasks { modified_since } => RequestView::SearchTasks {
                modified_since: modified_since@,
            },
            Request::StoreTask { index } => RequestView::StoreTask { index: *index },
            Request::FetchContainer => RequestView::FetchContainer,
            Request::StoreContainer => RequestView::StoreContainer,
            Request::FetchMembers => RequestView::FetchMembers,
            Request::StoreMembers => RequestView::StoreMembers,
            Request::ListChildren => RequestView::ListChildren,
            Request::SyncChild { gid } => RequestView::SyncChild { gid: gid@ },
            Request::LinkChild { gid } => RequestView::LinkChild { gid: gid@ },
            Request::EnsureIdentity => RequestView::EnsureIdentity,
            Request::ListEntities => RequestView::ListEntities,
            Request::SyncEntity { index, kind, gid } => RequestView::SyncEntity {
                index: *index,
                kind: *kind,
                gid: gid@,
            },
            Request::FinishAll { reports } => RequestView::FinishAll {
                reports: reports_of(reports@),
            },
            Request::Finish { report } => RequestView::Finish { report: report@ },
            Request::Fail { fault } => RequestView::Fail { fault: fault@ },
        }
    }
}

/// What the driver answers.
#[derive(Debug, Clone, PartialEq, Eq)]
pub enum Reply {
    /// The write was made.
    Done,
    /// The request failed; for a remote call, after the retries that its
    /// rate limit allows.
    Failed { message: String },
    /// The event cursor on record, if there is one.
    Cursor { on_record: Option<String> },
    /// The fresh event cursor that the remote service gave.
    CursorMinted { token: String },
    /// The events since the cursor that was sent, and the cursor to send
    /// next time.
    Events { events: Vec<ChangeEvent>, next: String },
    /// The cursor that was sent has expired; the remote service gave a fresh
    /// one and no events.
    CursorExpired { fresh: String },
    /// What was asked for was fetched; `count` says how many items came.
    Fetched { count: usize },
    /// The task that was asked for is not there any more.
    TaskMissing,
    /// The entity's last sync time, if it was ever synced.
    Watermark { last_sync_at: Option<String> },
    /// The job record was opened under this id.
    JobOpened { job: i64 },
    /// The tasks that were listed.
    Tasks { stamps: Vec<TaskStamp> },
    /// What the team or portfolio holds.
    Children { children: Vec<ChildRef> },
    /// The sync that was asked for ended with this report.
    Synced { report: SyncReport },
    /// The entities that are kept in sync.
    Entities { entities: Vec<MonitoredEntity> },
}

/// A [`Reply`] with its texts as sequences of characters.
pub enum ReplyView {
    Done,
    Failed { message: Seq<char> },
    Cursor { on_record: Option<Seq<char>> },
    CursorMinted { token: Seq<char> },
    Events { events: Seq<ChangeEventView>, next: Seq<char> },
    CursorExpired { fresh: Seq<char> },
    Fetched { count: usize },
    TaskMissing,
    Watermark { last_sync_at: Option<Seq<char>> },
    JobOpened { job: i64 },
    Tasks { stamps: Seq<TaskStampView> },
    Children { children: Seq<ChildRefView> },
    Synced { report: SyncReportView },
    Entities { entities: Seq<MonitoredEntityView> },
}

impl View for Reply {
    type V = ReplyView;

    open spec fn view(&self) -> ReplyView {
        match self {
            Reply::Done => ReplyView::Done,
            Reply::Failed { message } => ReplyView::Failed { message: message@ },
            Reply::Cursor { on_record } => ReplyView::Cursor { on_record: text_of(*on_record) },
            Reply::CursorMinted { token } => ReplyView::CursorMinted { token: token@ },
            Reply::Events { events, next } => ReplyView::Events {
                events: events_of(events@),
                next: next@,
            },
            Reply::CursorExpired { fresh } => ReplyView::CursorExpired { fresh: fresh@ },
            Reply::Fetched { count } => ReplyView::Fetched { count: *count },
            Reply::TaskMissing => ReplyView::TaskMissing,
            Reply::Watermark { last_sync_at } => ReplyView::Watermark {
                last_sync_at: text_of(*last_sync_at),
            },
            Reply::JobOpened { job } => ReplyView::JobOpened { job: *job },
            Reply::Tasks { stamps } => ReplyView::Tasks { stamps: stamps_of(stamps@) },
            Reply::Children { children } => ReplyView::Children {
                children: children_of(children@),
            },
            Reply::Synced { report } => ReplyView::Synced { report: report@ },
            Reply::Entities { entities } => ReplyView::Entities {
                entities: entities_of(entities@),
            },
        }
    }
}

/// What the driver is to do next: pass the notices on to the progress
/// callbacks, in order, then carry out the request.
#[derive(Debug, Clone, PartialEq, Eq)]
pub struct Directive {
    pub notices: Vec<Notice>,
    pub request: Request,
}

/// A [`Directive`] as its notices and the view of its request.
pub struct DirectiveView {
    pub notices: Seq<Notice>,
    pub request: RequestView,
}

impl View for Directive {
    type V = DirectiveView;

    open spec fn view(&self) -> DirectiveView {
        DirectiveView { notices: self.notices@, request: self.request@ }
    }
}

/// Whether a full sync fetches the comments of a task: always, unless the
/// task's modification time and the entity's last sync time are both known
/// and readable as moments, and the task was not modified after that time.
pub open spec fn wants_comments(
    modified_at: Option<Seq<char>>,
    last_sync_at: Option<Seq<char>>,
) -> bool {
    match (modified_at, last_sync_at) {
        (Some(modified), Some(synced)) => comments_wanted(moment_of(modified), moment_of(synced)),
        _ => true,
    }
}

/// Whether a full sync fetches the comments of a task, given the moments
/// that its modification time and the entity's last sync time were read as:
/// always, unless both were read and the first is not later than the second.
pub open spec fn comments_wanted(modified: Option<MomentView>, synced: Option<MomentView>) -> bool {
    match (modified, synced) {
        (Some(m), Some(s)) => later(m, s),
        _ => true,
    }
}

/// Whether a full sync fetches the comments of a task, given the moments
/// that its modification time and the entity's last sync time were read as.
pub fn comments_needed(modified: &Option<Moment>, synced: &Option<Moment>) -> (needed: bool)
    ensures
        needed == comments_wanted(moment_view(*modified), moment_view(*synced)),
{
    match (modified, synced) {
        (Some(m), Some(s)) => m.is_later_than(s),
        _ => true,
    }
}

/// Whether a full sync fetches the comments of a task.
pub fn needs_comments(modified_at: &Option<String>, last_sync_at: &Option<String>) -> (needed:
    bool)
    ensures
        needed == wants_comments(text_of(*modified_at), text_of(*last_sync_at)),
{
    match (modified_at, last_sync_at) {
        (Some(modified), Some(synced)) => {
            let m = read_moment(modified.as_str());
            let s = read_moment(synced.as_str());
            comments_needed(&m, &s)
        },
        _ => true,
    }
}

/// Comments are not fetched again for a task that was last modified before
/// the entity was last synced, nor for one modified at that very moment,
/// whatever the forms in which the two times are written.
pub proof fn lemma_unchanged_task_is_skipped(modified: Seq<char>, synced: Seq<char>)
    requires
        moment_of(modified) is Some,
        moment_of(synced) is Some,
        !later(moment_of(modified)->0, moment_of(synced)->0),
    ensures
        !wants_comments(Some(modified), Some(synced)),
{
}

} // verus!
