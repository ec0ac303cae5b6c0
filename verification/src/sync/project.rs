//! The sync of one project.
//!
//! A project is brought up to date in one of two ways. An incremental sync
//! asks the remote service for the events since the cursor on record and
//! fetches only what they name. A full sync fetches the project, its sections
//! and its tasks within the lookback window, and the comments of the tasks
//! that changed since the last sync. The incremental way is tried first,
//! unless the caller forces a full sync; where it cannot be taken (no cursor,
//! an expired cursor, too many changes) or fails, the full way is taken.
//!
//! [`ProjectSync`] holds the decisions. Its driver carries out each
//! [`Request`] and hands the [`Reply`] to [`ProjectSync::step`].

use crate::date::Date;
use crate::sync::events::{
    asks_for_work, classify_events, progress_summary, summarize, text_of, ChangeEventView,
    EventSummary, EventSummaryView,
};
use crate::sync::plan::{
    needs_comments, stamps_of, wants_comments, Directive, DirectiveView, Fault, FaultView, Notice,
    Reply, ReplyView, Request, RequestView, TaskStamp, TaskStampView,
};
use crate::sync::moment::{later, moment_of};
use crate::sync::syncer::add_capped;
use crate::sync::{
    report_from_counts, IncrementalSyncSummary, SyncReport, SyncReportView, SyncStatus,
};
use crate::text::{decimal, push_decimal};
use vstd::prelude::*;
use vstd::string::StringExecFns;

verus! {

/// The most changed tasks that an incremental sync fetches one by one. With
/// more, one bulk fetch is cheaper, and the sync falls back to a full sync.
pub const INCREMENTAL_THRESHOLD: usize = 50;

/// Where a project sync stands: which request is under way.
#[derive(Debug, Clone, Copy, PartialEq, Eq, Structural)]
pub enum Phase {
    Ensuring,
    ReadingCursor,
    Minting,
    StoringFallbackCursor,
    AwaitingEvents,
    StoringQuiet,
    FetchingTask,
    FetchingComments,
    StoringBatch,
    FetchingProject,
    FetchingSections,
    StoringMetadata,
    FetchingStatus,
    StoringStatus,
    StoringProgress,
    ReadingWatermark,
    OpeningJob,
    ListingTasks,
    ClosingJob,
    MintingAfterFull,
    StoringFinalCursor,
    Ended,
}

/// The state of a project sync.
pub struct ProjectSyncView {
    /// The key of the project in the store.
    pub entity_key: Seq<char>,
    /// The first day of the lookback window of a full sync.
    pub since: int,
    /// The day on which the sync runs.
    pub today: int,
    /// Whether the attempt under way is the incremental one.
    pub incremental: bool,
    pub phase: Phase,
    /// The cursor to put on record once the changes are applied.
    pub next_cursor: Seq<char>,
    /// Whether the events ask for the project's record and sections.
    pub refresh_metadata: bool,
    /// Whether the events ask for the status updates.
    pub refresh_status: bool,
    /// The tasks being worked through: those to fetch, or those whose
    /// comments to fetch.
    pub queue: Seq<TaskStampView>,
    /// How many tasks of the queue are done.
    pub position: nat,
    /// The tasks that an incremental sync has fetched so far.
    pub fetched: Seq<TaskStampView>,
    /// How many task fetches of an incremental sync failed.
    pub failures: nat,
    /// How many comment fetches failed.
    pub comment_failures: nat,
    /// How many tasks this attempt brings into the store.
    pub task_count: nat,
    /// The entity's last sync time, as a full sync read it.
    pub watermark: Option<Seq<char>>,
    /// The id of the job record of a full sync.
    pub job: i64,
}

/// The key under which the store holds the project with id `gid`.
pub open spec fn project_key(gid: Seq<char>) -> Seq<char> {
    "project:"@ + gid
}

/// The state in which a project sync starts, and its first request.
pub open spec fn start_model(gid: Seq<char>, force_full: bool, since: int, today: int) -> (
    ProjectSyncView,
    DirectiveView,
) {
    (
        ProjectSyncView {
            entity_key: project_key(gid),
            since,
            today,
            incremental: !force_full,
            phase: Phase::Ensuring,
            next_cursor: Seq::empty(),
            refresh_metadata: false,
            refresh_status: false,
            queue: Seq::empty(),
            position: 0,
            fetched: Seq::empty(),
            failures: 0,
            comment_failures: 0,
            task_count: 0,
            watermark: None,
            job: 0,
        },
        DirectiveView { notices: Seq::empty(), request: RequestView::EnsureEntity },
    )
}

/// Tasks known by their ids alone.
pub open spec fn unstamped(gids: Seq<Seq<char>>) -> Seq<TaskStampView> {
    gids.map_values(|gid: Seq<char>| TaskStampView { gid, modified_at: None })
}

/// The tasks of `stamps` whose comments a full sync fetches, in order: those
/// that [`wants_comments`] picks, given the entity's last sync time.
pub open spec fn comment_plan(stamps: Seq<TaskStampView>, last_sync_at: Option<Seq<char>>) -> Seq<
    TaskStampView,
>
    decreases stamps.len(),
{
    if stamps.len() == 0 {
        Seq::empty()
    } else {
        let head = comment_plan(stamps.drop_last(), last_sync_at);
        if wants_comments(stamps.last().modified_at, last_sync_at) {
            head.push(stamps.last())
        } else {
            head
        }
    }
}

/// How many items of a project sync failed: the task fetches and the comment
/// fetches that failed, added up and held at the largest count that fits.
pub open spec fn failed_items(s: ProjectSyncView) -> u64 {
    if s.failures + s.comment_failures > u64::MAX {
        u64::MAX
    } else {
        (s.failures + s.comment_failures) as u64
    }
}

/// The text that the report of a project sync carries when fetches failed:
/// how many task fetches and how many comment fetches.
pub open spec fn fetch_failure_text(tasks: nat, comments: nat) -> Option<Seq<char>> {
    if tasks > 0 && comments > 0 {
        Some(
            decimal(tasks) + " task fetches failed, "@ + decimal(comments)
                + " comment fetches failed"@,
        )
    } else if tasks > 0 {
        Some(decimal(tasks) + " task fetches failed"@)
    } else if comments > 0 {
        Some(decimal(comments) + " comment fetches failed"@)
    } else {
        None
    }
}

/// The report of a project sync that brought `task_count` tasks into the
/// store in one batch: its status follows from its counts, and its text
/// tells which fetches failed.
pub open spec fn project_report(s: ProjectSyncView, batches_completed: u32) -> SyncReportView {
    SyncReportView {
        error: fetch_failure_text(s.failures, s.comment_failures),
        ..report_from_counts(
            s.entity_key,
            s.task_count as u64,
            failed_items(s),
            batches_completed,
            1,
        )
    }
}

/// The report of an incremental sync: the tasks fetched count as synced, the
/// failed fetches of tasks and of comments as failed, and the one batch as
/// completed unless every fetch failed.
pub open spec fn incremental_report(s: ProjectSyncView) -> SyncReportView {
    project_report(
        s,
        if failed_items(s) > 0 && s.task_count == 0 {
            0
        } else {
            1
        },
    )
}

/// The report of a full sync: every task listed counts as synced, and every
/// failed comment fetch as a failed item; the tasks are written all the
/// same.
pub open spec fn full_report(s: ProjectSyncView) -> SyncReportView {
    project_report(s, 1)
}

/// The sync moves to `phase` and asks for `request`.
pub open spec fn ask(s: ProjectSyncView, phase: Phase, notices: Seq<Notice>, request: RequestView)
    -> (ProjectSyncView, DirectiveView) {
    (ProjectSyncView { phase, ..s }, DirectiveView { notices, request })
}

/// The sync ends with `request`.
pub open spec fn end(s: ProjectSyncView, notices: Seq<Notice>, request: RequestView) -> (
    ProjectSyncView,
    DirectiveView,
) {
    ask(s, Phase::Ended, notices, request)
}

/// The sync gives up over a failed request.
pub open spec fn give_up(s: ProjectSyncView, message: Seq<char>) -> (
    ProjectSyncView,
    DirectiveView,
) {
    end(s, Seq::empty(), RequestView::Fail { fault: FaultView::Reported { message } })
}

/// The sync gives up over a reply that answers no request of its phase.
pub open spec fn refuse(s: ProjectSyncView) -> (ProjectSyncView, DirectiveView) {
    end(s, Seq::empty(), RequestView::Fail { fault: FaultView::UnexpectedReply })
}

/// A full sync begins: nothing of the incremental attempt is kept, and the
/// entity's last sync time is read.
pub open spec fn begin_full(s: ProjectSyncView) -> (ProjectSyncView, DirectiveView) {
    ask(
        ProjectSyncView {
            incremental: false,
            queue: Seq::empty(),
            position: 0,
            fetched: Seq::empty(),
            failures: 0,
            comment_failures: 0,
            task_count: 0,
            watermark: None,
            ..s
        },
        Phase::ReadingWatermark,
        Seq::empty(),
        RequestView::ReadWatermark,
    )
}

/// After a failure: an incremental attempt falls back to a full sync, a full
/// sync gives up.
pub open spec fn fall_back_or_fail(s: ProjectSyncView, message: Seq<char>) -> (
    ProjectSyncView,
    DirectiveView,
) {
    if s.incremental {
        begin_full(s)
    } else {
        give_up(s, message)
    }
}

/// After the status updates: an incremental sync puts its cursor and the
/// sync time on record, as its last write; a full sync closes its job.
pub open spec fn after_status(s: ProjectSyncView, notices: Seq<Notice>) -> (
    ProjectSyncView,
    DirectiveView,
) {
    if s.incremental {
        ask(
            s,
            Phase::StoringProgress,
            notices,
            RequestView::StoreCursorAndStamp { token: s.next_cursor },
        )
    } else {
        ask(
            s,
            Phase::ClosingJob,
            notices,
            RequestView::CloseJob {
                job: s.job,
                synced: s.task_count as u64,
                failed: failed_items(s),
            },
        )
    }
}

/// After the project's record and sections: an incremental sync goes on to
/// the status updates if the events ask for them; a full sync opens its job.
pub open spec fn after_metadata(s: ProjectSyncView, notices: Seq<Notice>) -> (
    ProjectSyncView,
    DirectiveView,
) {
    if s.incremental {
        if s.refresh_status {
            ask(s, Phase::FetchingStatus, notices, RequestView::FetchStatusUpdates)
        } else {
            after_status(s, notices)
        }
    } else {
        ask(s, Phase::OpeningJob, notices, RequestView::OpenJob { since: s.since, until: s.today })
    }
}

/// After the tasks and comments: an incremental sync goes on to the
/// project's record if the events ask for it; a full sync always fetches the
/// status updates.
pub open spec fn after_batch(s: ProjectSyncView, notices: Seq<Notice>) -> (
    ProjectSyncView,
    DirectiveView,
) {
    if s.incremental {
        if s.refresh_metadata {
            ask(s, Phase::FetchingProject, notices, RequestView::FetchProject)
        } else {
            after_metadata(s, notices)
        }
    } else {
        ask(s, Phase::FetchingStatus, notices, RequestView::FetchStatusUpdates)
    }
}

/// The next comment fetch, or what follows the last: the write of the tasks
/// and comments, which is left out when there is no task to write.
pub open spec fn next_comment(s: ProjectSyncView, notices: Seq<Notice>) -> (
    ProjectSyncView,
    DirectiveView,
) {
    if s.position < s.queue.len() {
        ask(
            s,
            Phase::FetchingComments,
            notices.push(
                Notice::CommentsProgress {
                    current: (s.position + 1) as usize,
                    total: s.queue.len() as usize,
                },
            ),
            RequestView::FetchComments { gid: s.queue[s.position as int].gid },
        )
    } else if s.task_count > 0 {
        ask(s, Phase::StoringBatch, notices, RequestView::StoreTasksAndComments)
    } else {
        after_batch(s, notices)
    }
}

/// The next task fetch of an incremental sync, or what follows the last: the
/// comments of the tasks that were fetched.
pub open spec fn next_task(s: ProjectSyncView, notices: Seq<Notice>) -> (
    ProjectSyncView,
    DirectiveView,
) {
    if s.position < s.queue.len() {
        ask(
            s,
            Phase::FetchingTask,
            notices,
            RequestView::FetchTask { gid: s.queue[s.position as int].gid },
        )
    } else {
        next_comment(
            ProjectSyncView {
                queue: s.fetched,
                position: 0,
                fetched: Seq::empty(),
                comment_failures: 0,
                task_count: s.fetched.len(),
                ..s
            },
            notices.push(Notice::TasksFetched { count: s.fetched.len() as usize }),
        )
    }
}

/// What an incremental sync does with the events it was given.
///
/// - With nothing to do, it puts the new cursor and the sync time on record
///   and fetches nothing.
/// - With more than [`INCREMENTAL_THRESHOLD`] changed tasks, it puts the new
///   cursor on record and falls back to a full sync.
/// - Otherwise it fetches the changed tasks one by one.
pub open spec fn on_events(s: ProjectSyncView, summary: EventSummaryView, next: Seq<char>) -> (
    ProjectSyncView,
    DirectiveView,
) {
    if !asks_for_work(summary) {
        ask(
            ProjectSyncView { failures: 0, comment_failures: 0, task_count: 0, ..s },
            Phase::StoringQuiet,
            Seq::empty(),
            RequestView::StoreCursorAndStamp { token: next },
        )
    } else if summary.changed_task_gids.len() > INCREMENTAL_THRESHOLD {
        ask(s, Phase::StoringFallbackCursor, Seq::empty(), RequestView::StoreCursor { token: next })
    } else {
        next_task(
            ProjectSyncView {
                next_cursor: next,
                refresh_metadata: summary.project_changed || summary.sections_changed,
                refresh_status: summary.status_updates_changed,
                queue: unstamped(summary.changed_task_gids),
                position: 0,
                fetched: Seq::empty(),
                failures: 0,
                comment_failures: 0,
                task_count: 0,
                ..s
            },
            seq![Notice::IncrementalSync { summary: progress_summary(summary) }],
        )
    }
}

/// What a full sync does with the tasks it listed: it fetches the comments of
/// those that changed since the last sync, and tells how many it skips.
pub open spec fn on_tasks(s: ProjectSyncView, stamps: Seq<TaskStampView>) -> (
    ProjectSyncView,
    DirectiveView,
) {
    let plan = comment_plan(stamps, s.watermark);
    let fetched = seq![Notice::TasksFetched { count: stamps.len() as usize }];
    let notices = if plan.len() < stamps.len() {
        fetched.push(
            Notice::CommentsSkipped {
                skipped: (stamps.len() - plan.len()) as usize,
                total: stamps.len() as usize,
            },
        )
    } else {
        fetched
    };
    next_comment(
        ProjectSyncView {
            queue: plan,
            position: 0,
            comment_failures: 0,
            task_count: stamps.len(),
            ..s
        },
        notices,
    )
}

/// The summary that progress callbacks get when the events name no change.
pub open spec fn quiet_summary() -> IncrementalSyncSummary {
    IncrementalSyncSummary {
        tasks_changed: 0,
        project_changed: false,
        sections_changed: false,
        status_updates_changed: false,
    }
}

/// After the store was asked to hold a row for the project: an incremental
/// attempt reads the cursor on record, a forced full sync begins. A failure
/// ends the sync.
pub open spec fn when_ensuring(s: ProjectSyncView, reply: ReplyView) -> (
    ProjectSyncView,
    DirectiveView,
) {
    match reply {
        ReplyView::Done => if s.incremental {
            ask(s, Phase::ReadingCursor, Seq::empty(), RequestView::ReadCursor)
        } else {
            begin_full(s)
        },
        ReplyView::Failed { message } => give_up(s, message),
        _ => refuse(s),
    }
}

/// After the cursor on record was read: with a cursor the events since it are
/// fetched; without one a cursor is asked for, so that the next sync can be
/// incremental. A failure leads to a full sync.
pub open spec fn when_reading_cursor(s: ProjectSyncView, reply: ReplyView) -> (
    ProjectSyncView,
    DirectiveView,
) {
    match reply {
        ReplyView::Cursor { on_record: Some(token) } => ask(
            s,
            Phase::AwaitingEvents,
            Seq::empty(),
            RequestView::FetchEvents { token },
        ),
        ReplyView::Cursor { on_record: None } => ask(
            s,
            Phase::Minting,
            Seq::empty(),
            RequestView::EstablishCursor,
        ),
        ReplyView::Failed { message } => begin_full(s),
        _ => refuse(s),
    }
}

/// After a first cursor was asked for: it is put on record, and this attempt
/// goes on as a full sync, with or without it.
pub open spec fn when_minting(s: ProjectSyncView, reply: ReplyView) -> (
    ProjectSyncView,
    DirectiveView,
) {
    match reply {
        ReplyView::CursorMinted { token } => ask(
            s,
            Phase::StoringFallbackCursor,
            Seq::empty(),
            RequestView::StoreCursor { token },
        ),
        ReplyView::Failed { message } => begin_full(s),
        _ => refuse(s),
    }
}

/// After a cursor was put on record on the way to a full sync: the full sync
/// begins, whether or not the write was made.
pub open spec fn when_storing_fallback_cursor(s: ProjectSyncView, reply: ReplyView) -> (
    ProjectSyncView,
    DirectiveView,
) {
    match reply {
        ReplyView::Done => begin_full(s),
        ReplyView::Failed { message } => begin_full(s),
        _ => refuse(s),
    }
}

/// After the events were asked for: they are acted on as [`on_events`] says.
/// An expired cursor is replaced on record by the fresh one, and a full sync
/// follows; so it does after a failure.
pub open spec fn when_awaiting_events(s: ProjectSyncView, reply: ReplyView) -> (
    ProjectSyncView,
    DirectiveView,
) {
    match reply {
        ReplyView::Events { events, next } => on_events(s, summarize(events), next),
        ReplyView::CursorExpired { fresh } => ask(
            s,
            Phase::StoringFallbackCursor,
            Seq::empty(),
            RequestView::StoreCursor { token: fresh },
        ),
        ReplyView::Failed { message } => begin_full(s),
        _ => refuse(s),
    }
}

/// After the cursor and the sync time were put on record for events that
/// named no change: the sync ends with a report of no items. A failed write
/// leads to a full sync.
pub open spec fn when_storing_quiet(s: ProjectSyncView, reply: ReplyView) -> (
    ProjectSyncView,
    DirectiveView,
) {
    match reply {
        ReplyView::Done => end(
            s,
            seq![Notice::IncrementalSync { summary: quiet_summary() }],
            RequestView::Finish { report: incremental_report(s) },
        ),
        ReplyView::Failed { message } => begin_full(s),
        _ => refuse(s),
    }
}

/// After a changed task was asked for: a fetched task is kept for its
/// comments, a missing one is passed over (it was deleted; the next full sync
/// deals with it), a failed fetch is counted. Then the next task follows.
pub open spec fn when_fetching_task(s: ProjectSyncView, reply: ReplyView) -> (
    ProjectSyncView,
    DirectiveView,
) {
    if s.position < s.queue.len() {
        match reply {
            ReplyView::Fetched { count } => next_task(
                ProjectSyncView {
                    fetched: s.fetched.push(s.queue[s.position as int]),
                    position: s.position + 1,
                    ..s
                },
                Seq::empty(),
            ),
            ReplyView::TaskMissing => next_task(
                ProjectSyncView { position: s.position + 1, ..s },
                Seq::empty(),
            ),
            ReplyView::Failed { message } => next_task(
                ProjectSyncView { failures: s.failures + 1, position: s.position + 1, ..s },
                Seq::empty(),
            ),
            _ => refuse(s),
        }
    } else {
        refuse(s)
    }
}

/// After the comments of a task were asked for: the next task follows,
/// whether or not they came; a task whose comments could not be fetched is
/// written without them, and the failed fetch is counted.
pub open spec fn when_fetching_comments(s: ProjectSyncView, reply: ReplyView) -> (
    ProjectSyncView,
    DirectiveView,
) {
    if s.position < s.queue.len() {
        match reply {
            ReplyView::Fetched { count } => next_comment(
                ProjectSyncView { position: s.position + 1, ..s },
                Seq::empty(),
            ),
            ReplyView::Failed { message } => next_comment(
                ProjectSyncView {
                    comment_failures: s.comment_failures + 1,
                    position: s.position + 1,
                    ..s
                },
                Seq::empty(),
            ),
            _ => refuse(s),
        }
    } else {
        refuse(s)
    }
}

/// After the tasks and comments were written.
pub open spec fn when_storing_batch(s: ProjectSyncView, reply: ReplyView) -> (
    ProjectSyncView,
    DirectiveView,
) {
    match reply {
        ReplyView::Done => after_batch(s, Seq::empty()),
        ReplyView::Failed { message } => fall_back_or_fail(s, message),
        _ => refuse(s),
    }
}

/// After the project's record was asked for: its sections follow.
pub open spec fn when_fetching_project(s: ProjectSyncView, reply: ReplyView) -> (
    ProjectSyncView,
    DirectiveView,
) {
    match reply {
        ReplyView::Fetched { count } => ask(
            s,
            Phase::FetchingSections,
            Seq::empty(),
            RequestView::FetchSections,
        ),
        ReplyView::Failed { message } => fall_back_or_fail(s, message),
        _ => refuse(s),
    }
}

/// After the sections were asked for: they are written, with the project's
/// record.
pub open spec fn when_fetching_sections(s: ProjectSyncView, reply: ReplyView) -> (
    ProjectSyncView,
    DirectiveView,
) {
    match reply {
        ReplyView::Fetched { count } => ask(
            s,
            Phase::StoringMetadata,
            Seq::empty(),
            RequestView::StoreProjectMetadata,
        ),
        ReplyView::Failed { message } => fall_back_or_fail(s, message),
        _ => refuse(s),
    }
}

/// After the project's record and sections were written.
pub open spec fn when_storing_metadata(s: ProjectSyncView, reply: ReplyView) -> (
    ProjectSyncView,
    DirectiveView,
) {
    match reply {
        ReplyView::Done => after_metadata(s, Seq::empty()),
        ReplyView::Failed { message } => fall_back_or_fail(s, message),
        _ => refuse(s),
    }
}

/// After the status updates were asked for: they are written, unless there
/// are none.
pub open spec fn when_fetching_status(s: ProjectSyncView, reply: ReplyView) -> (
    ProjectSyncView,
    DirectiveView,
) {
    match reply {
        ReplyView::Fetched { count } => if count > 0 {
            ask(
                s,
                Phase::StoringStatus,
                seq![Notice::StatusUpdatesSynced { count }],
                RequestView::StoreStatusUpdates,
            )
        } else {
            after_status(s, seq![Notice::StatusUpdatesSynced { count }])
        },
        ReplyView::Failed { message } => fall_back_or_fail(s, message),
        _ => refuse(s),
    }
}

/// After the status updates were written.
pub open spec fn when_storing_status(s: ProjectSyncView, reply: ReplyView) -> (
    ProjectSyncView,
    DirectiveView,
) {
    match reply {
        ReplyView::Done => after_status(s, Seq::empty()),
        ReplyView::Failed { message } => fall_back_or_fail(s, message),
        _ => refuse(s),
    }
}

/// After an incremental sync put its cursor and the sync time on record: the
/// sync ends with its report. A failed write leads to a full sync.
pub open spec fn when_storing_progress(s: ProjectSyncView, reply: ReplyView) -> (
    ProjectSyncView,
    DirectiveView,
) {
    match reply {
        ReplyView::Done => end(
            s,
            Seq::empty(),
            RequestView::Finish { report: incremental_report(s) },
        ),
        ReplyView::Failed { message } => begin_full(s),
        _ => refuse(s),
    }
}

/// After a full sync read the entity's last sync time: the project's record
/// is fetched. A failure ends the sync.
pub open spec fn when_reading_watermark(s: ProjectSyncView, reply: ReplyView) -> (
    ProjectSyncView,
    DirectiveView,
) {
    match reply {
        ReplyView::Watermark { last_sync_at } => ask(
            ProjectSyncView { watermark: last_sync_at, ..s },
            Phase::FetchingProject,
            Seq::empty(),
            RequestView::FetchProject,
        ),
        ReplyView::Failed { message } => give_up(s, message),
        _ => refuse(s),
    }
}

/// After the job record of a full sync was opened: the tasks of the lookback
/// window are listed. A failure ends the sync.
pub open spec fn when_opening_job(s: ProjectSyncView, reply: ReplyView) -> (
    ProjectSyncView,
    DirectiveView,
) {
    match reply {
        ReplyView::JobOpened { job } => ask(
            ProjectSyncView { job, ..s },
            Phase::ListingTasks,
            Seq::empty(),
            RequestView::ListTasks { completed_since: s.since },
        ),
        ReplyView::Failed { message } => give_up(s, message),
        _ => refuse(s),
    }
}

/// After the tasks were listed: they are acted on as [`on_tasks`] says. A
/// failure ends the sync.
pub open spec fn when_listing_tasks(s: ProjectSyncView, reply: ReplyView) -> (
    ProjectSyncView,
    DirectiveView,
) {
    match reply {
        ReplyView::Tasks { stamps } => on_tasks(s, stamps),
        ReplyView::Failed { message } => give_up(s, message),
        _ => refuse(s),
    }
}

/// After the job was closed and the sync time set: a fresh cursor is asked
/// for, so that the next sync can be incremental. A failure ends the sync.
pub open spec fn when_closing_job(s: ProjectSyncView, reply: ReplyView) -> (
    ProjectSyncView,
    DirectiveView,
) {
    match reply {
        ReplyView::Done => ask(
            s,
            Phase::MintingAfterFull,
            Seq::empty(),
            RequestView::EstablishCursor,
        ),
        ReplyView::Failed { message } => give_up(s, message),
        _ => refuse(s),
    }
}

/// After a full sync asked for a fresh cursor: it is put on record. Without
/// one the sync still ends well; the next sync will be a full one again.
pub open spec fn when_minting_after_full(s: ProjectSyncView, reply: ReplyView) -> (
    ProjectSyncView,
    DirectiveView,
) {
    match reply {
        ReplyView::CursorMinted { token } => ask(
            s,
            Phase::StoringFinalCursor,
            Seq::empty(),
            RequestView::StoreCursor { token },
        ),
        ReplyView::Failed { message } => end(
            s,
            Seq::empty(),
            RequestView::Finish { report: full_report(s) },
        ),
        _ => refuse(s),
    }
}

/// After a full sync put its fresh cursor on record: the sync ends with its
/// report. A failed write ends it with the fault.
pub open spec fn when_storing_final_cursor(s: ProjectSyncView, reply: ReplyView) -> (
    ProjectSyncView,
    DirectiveView,
) {
    match reply {
        ReplyView::Done => end(s, Seq::empty(), RequestView::Finish { report: full_report(s) }),
        ReplyView::Failed { message } => give_up(s, message),
        _ => refuse(s),
    }
}

/// After the sync is over no reply is expected.
pub open spec fn when_ended(s: ProjectSyncView, reply: ReplyView) -> (
    ProjectSyncView,
    DirectiveView,
) {
    refuse(s)
}

/// One step of a project sync: given where it stands and the driver's reply
/// to the request under way, where it stands next and what it asks for.
pub open spec fn step_model(s: ProjectSyncView, reply: ReplyView) -> (
    ProjectSyncView,
    DirectiveView,
) {
    match s.phase {
        Phase::Ensuring => when_ensuring(s, reply),
        Phase::ReadingCursor => when_reading_cursor(s, reply),
        Phase::Minting => when_minting(s, reply),
        Phase::StoringFallbackCursor => when_storing_fallback_cursor(s, reply),
        Phase::AwaitingEvents => when_awaiting_events(s, reply),
        Phase::StoringQuiet => when_storing_quiet(s, reply),
        Phase::FetchingTask => when_fetching_task(s, reply),
        Phase::FetchingComments => when_fetching_comments(s, reply),
        Phase::StoringBatch => when_storing_batch(s, reply),
        Phase::FetchingProject => when_fetching_project(s, reply),
        Phase::FetchingSections => when_fetching_sections(s, reply),
        Phase::StoringMetadata => when_storing_metadata(s, reply),
        Phase::FetchingStatus => when_fetching_status(s, reply),
        Phase::StoringStatus => when_storing_status(s, reply),
        Phase::StoringProgress => when_storing_progress(s, reply),
        Phase::ReadingWatermark => when_reading_watermark(s, reply),
        Phase::OpeningJob => when_opening_job(s, reply),
        Phase::ListingTasks => when_listing_tasks(s, reply),
        Phase::ClosingJob => when_closing_job(s, reply),
        Phase::MintingAfterFull => when_minting_after_full(s, reply),
        Phase::StoringFinalCursor => when_storing_final_cursor(s, reply),
        Phase::Ended => when_ended(s, reply),
    }
}

/// An incremental sync whose events name no changed task and ask for no
/// refresh fetches nothing: it puts the new cursor and the sync time on
/// record, and when that write is made it ends with a report of success
/// with no items.
pub proof fn lemma_quiet_events_fetch_nothing(
    s: ProjectSyncView,
    events: Seq<ChangeEventView>,
    next: Seq<char>,
)
    requires
        s.phase is AwaitingEvents,
        !asks_for_work(summarize(events)),
    ensures
        ({
            let first = step_model(s, ReplyView::Events { events, next });
            let second = step_model(first.0, ReplyView::Done);
            &&& first.1.request == RequestView::StoreCursorAndStamp { token: next }
            &&& second.1.request == RequestView::Finish {
                report: report_from_counts(s.entity_key, 0, 0, 1, 1),
            }
            &&& report_from_counts(s.entity_key, 0, 0, 1, 1).status == SyncStatus::Success
            &&& second.0.phase is Ended
        }),
{
}

/// An incremental sync whose events name more than [`INCREMENTAL_THRESHOLD`]
/// changed tasks fetches none of them: it puts the new cursor on record, and
/// then, whether or not that write is made, a full sync begins.
pub proof fn lemma_many_changes_fall_back(
    s: ProjectSyncView,
    events: Seq<ChangeEventView>,
    next: Seq<char>,
    stored: ReplyView,
)
    requires
        s.phase is AwaitingEvents,
        summarize(events).changed_task_gids.len() > INCREMENTAL_THRESHOLD,
        stored is Done || stored is Failed,
    ensures
        ({
            let first = step_model(s, ReplyView::Events { events, next });
            let second = step_model(first.0, stored);
            &&& first.1.request == RequestView::StoreCursor { token: next }
            &&& second.1.request == RequestView::ReadWatermark
            &&& !second.0.incremental
        }),
{
}

/// A task that cannot be fetched does not end an incremental sync: a failed
/// fetch is counted and a task that is gone is passed over, and either way
/// the sync goes on.
pub proof fn lemma_task_failures_are_counted(s: ProjectSyncView, message: Seq<char>)
    requires
        s.phase is FetchingTask,
        s.position < s.queue.len(),
    ensures
        ({
            let failed = step_model(s, ReplyView::Failed { message });
            let missing = step_model(s, ReplyView::TaskMissing);
            &&& !(failed.1.request is Fail)
            &&& failed.0.failures == s.failures + 1
            &&& !(missing.1.request is Fail)
            &&& missing.0.failures == s.failures
            &&& failed.1.request == missing.1.request
        }),
{
}

/// A comment fetch that fails does not end a sync, full or incremental: the
/// failure is counted, and the sync goes on as it does when the comments
/// come.
pub proof fn lemma_comment_failures_are_counted(
    s: ProjectSyncView,
    message: Seq<char>,
    count: usize,
)
    requires
        s.phase is FetchingComments,
        s.position < s.queue.len(),
    ensures
        ({
            let failed = step_model(s, ReplyView::Failed { message });
            let fetched = step_model(s, ReplyView::Fetched { count });
            &&& !(failed.1.request is Fail)
            &&& failed.0.comment_failures == s.comment_failures + 1
            &&& fetched.0.comment_failures == s.comment_failures
            &&& failed.0.task_count == s.task_count
            &&& failed.1.request == fetched.1.request
        }),
{
}

/// A sync in which fetches failed says so in its report: the failed fetches
/// of tasks and of comments are its failed items, and a full sync, which
/// writes its tasks all the same, reports a partial failure.
pub proof fn lemma_failed_fetches_are_reported(s: ProjectSyncView)
    requires
        s.failures + s.comment_failures > 0,
    ensures
        full_report(s).items_failed == failed_items(s),
        incremental_report(s).items_failed == failed_items(s),
        failed_items(s) > 0,
        full_report(s).status == SyncStatus::PartialFailure,
        full_report(s).error is Some,
        s.task_count > 0 ==> incremental_report(s).status == SyncStatus::PartialFailure,
        s.task_count == 0 ==> incremental_report(s).status == SyncStatus::Failed,
{
}

/// The cursor and the sync time go on record as the last write of an
/// incremental sync: a step asks for that write only on the way to one of the
/// two phases that wait for it.
pub proof fn lemma_progress_is_asked_last(s: ProjectSyncView, reply: ReplyView)
    ensures
        step_model(s, reply).1.request is StoreCursorAndStamp ==> step_model(s, reply).0.phase
            is StoringQuiet || step_model(s, reply).0.phase is StoringProgress,
{
    match s.phase {
        Phase::AwaitingEvents => {},
        Phase::FetchingTask => {},
        Phase::FetchingComments => {},
        Phase::StoringBatch => {},
        Phase::StoringMetadata => {},
        Phase::FetchingStatus => {},
        Phase::StoringStatus => {},
        Phase::ListingTasks => {},
        _ => {},
    }
}

/// Once the cursor and the sync time of an incremental sync are on record,
/// the sync ends with its report; if the write fails, a full sync begins.
pub proof fn lemma_progress_write_ends_sync(s: ProjectSyncView, message: Seq<char>)
    requires
        s.phase is StoringQuiet || s.phase is StoringProgress,
    ensures
        step_model(s, ReplyView::Done).1.request == (RequestView::Finish {
            report: incremental_report(s),
        }),
        step_model(s, ReplyView::Done).0.phase is Ended,
        step_model(s, ReplyView::Failed { message }).1.request == RequestView::ReadWatermark,
{
}

/// Every task of a comment plan is one whose comments are wanted, and the
/// plan is no longer than the list it was made from.
pub proof fn lemma_comment_plan(stamps: Seq<TaskStampView>, last_sync_at: Option<Seq<char>>)
    ensures
        comment_plan(stamps, last_sync_at).len() <= stamps.len(),
        forall|i: int|
            0 <= i < comment_plan(stamps, last_sync_at).len() ==> wants_comments(
                (#[trigger] comment_plan(stamps, last_sync_at)[i]).modified_at,
                last_sync_at,
            ),
    decreases stamps.len(),
{
    if stamps.len() > 0 {
        lemma_comment_plan(stamps.drop_last(), last_sync_at);
    }
}

/// What holds of a project sync from its start to its end: in a full sync,
/// every task that is lined up for its comments is one whose comments are
/// wanted, given the entity's last sync time.
pub open spec fn comments_as_planned(s: ProjectSyncView) -> bool {
    &&& s.phase is ReadingWatermark ==> s.queue.len() == 0 && s.fetched.len() == 0
    &&& !s.incremental ==> forall|i: int|
        0 <= i < s.queue.len() ==> wants_comments((#[trigger] s.queue[i]).modified_at, s.watermark)
    &&& !s.incremental ==> forall|i: int|
        0 <= i < s.fetched.len() ==> wants_comments(
            (#[trigger] s.fetched[i]).modified_at,
            s.watermark,
        )
}

/// A project sync starts with its comments as planned.
pub proof fn lemma_start_as_planned(gid: Seq<char>, force_full: bool, since: int, today: int)
    ensures
        comments_as_planned(start_model(gid, force_full, since, today).0),
{
}

/// A step keeps the comments as planned.
pub proof fn lemma_step_as_planned(s: ProjectSyncView, reply: ReplyView)
    requires
        comments_as_planned(s),
    ensures
        comments_as_planned(step_model(s, reply).0),
{
    match s.phase {
        Phase::AwaitingEvents => {
            if let ReplyView::Events { events, next } = reply {
                let summary = summarize(events);
                assert forall|i: int| 0 <= i < unstamped(summary.changed_task_gids).len() implies (
                #[trigger] unstamped(summary.changed_task_gids)[i]).modified_at is None by {}
            }
        },
        Phase::FetchingTask => {
            if s.position < s.queue.len() {
                let pushed = s.fetched.push(s.queue[s.position as int]);
                assert forall|i: int| 0 <= i < pushed.len() && !s.incremental implies wants_comments(
                    (#[trigger] pushed[i]).modified_at,
                    s.watermark,
                ) by {
                    if i < s.fetched.len() {
                        assert(pushed[i] == s.fetched[i]);
                    }
                }
            }
        },
        Phase::ListingTasks => {
            if let ReplyView::Tasks { stamps } = reply {
                lemma_comment_plan(stamps, s.watermark);
            }
        },
        _ => {},
    }
}

/// A full sync never fetches the comments of a task that has not changed
/// since the entity was last synced: whenever a step of a full sync asks for
/// the comments of a task, that task is lined up with a modification time
/// that is unknown or after the last sync time, or no last sync time is
/// known.
pub proof fn lemma_full_sync_fetches_wanted_comments(s: ProjectSyncView, reply: ReplyView)
    requires
        comments_as_planned(s),
    ensures
        ({
            let next = step_model(s, reply);
            !next.0.incremental && next.1.request is FetchComments ==> {
                &&& next.0.position < next.0.queue.len()
                &&& next.1.request == (RequestView::FetchComments {
                    gid: next.0.queue[next.0.position as int].gid,
                })
                &&& wants_comments(
                    next.0.queue[next.0.position as int].modified_at,
                    next.0.watermark,
                )
            }
        }),
{
    lemma_step_as_planned(s, reply);
    let next = step_model(s, reply);
    if !next.0.incremental && next.1.request is FetchComments {
        assert(next.0.position < next.0.queue.len());
    }
}

/// A full sync never fetches the comments of a task that was modified before
/// the entity was last synced, or at that very moment: where a step of a
/// full sync asks for the comments of a task, and both the task's
/// modification time and the last sync time can be read as moments, in
/// whichever of their forms, the first is later than the second.
pub proof fn lemma_full_sync_skips_unchanged_tasks(s: ProjectSyncView, reply: ReplyView)
    requires
        comments_as_planned(s),
    ensures
        ({
            let next = step_model(s, reply);
            let task = next.0.queue[next.0.position as int];
            (!next.0.incremental && next.1.request is FetchComments && task.modified_at is Some
                && next.0.watermark is Some && moment_of(task.modified_at->0) is Some
                && moment_of(next.0.watermark->0) is Some) ==> later(
                moment_of(task.modified_at->0)->0,
                moment_of(next.0.watermark->0)->0,
            )
        }),
{
    lemma_full_sync_fetches_wanted_comments(s, reply);
}

/// A copy of an optional text.
/// The text that the report of a project sync carries when fetches failed.
fn failure_text(tasks: u64, comments: u64) -> (text: Option<String>)
    ensures
        text_of(text) == fetch_failure_text(tasks as nat, comments as nat),
{
    if tasks == 0 && comments == 0 {
        return None;
    }
    let mut text = String::new();
    proof {
        assert(text@ =~= Seq::<char>::empty());
    }
    if tasks > 0 {
        push_decimal(&mut text, tasks);
        text.append(" task fetches failed");
        if comments > 0 {
            text.append(", ");
        }
    }
    if comments > 0 {
        push_decimal(&mut text, comments);
        text.append(" comment fetches failed");
    }
    proof {
        reveal_strlit(" task fetches failed");
        reveal_strlit(" task fetches failed, ");
        reveal_strlit(", ");
        reveal_strlit(" comment fetches failed");
        assert(text_of(Some(text)).unwrap() =~= fetch_failure_text(
            tasks as nat,
            comments as nat,
        ).unwrap());
    }
    Some(text)
}

fn clone_text(text: &Option<String>) -> (copy: Option<String>)
    ensures
        text_of(copy) == text_of(*text),
{
    match text {
        Some(t) => Some(t.clone()),
        None => None,
    }
}

/// Tasks known by their ids alone.
fn stamps_for(gids: &Vec<String>) -> (stamps: Vec<TaskStamp>)
    ensures
        stamps_of(stamps@) == unstamped(crate::sync::events::texts_of(gids@)),
{
    let mut stamps: Vec<TaskStamp> = Vec::new();
    let mut i: usize = 0;
    while i < gids.len()
        invariant
            i <= gids.len(),
            stamps.len() == i,
            forall|k: int|
                0 <= k < i ==> (#[trigger] stamps[k])@ == (TaskStampView {
                    gid: gids[k]@,
                    modified_at: None,
                }),
        decreases gids.len() - i,
    {
        stamps.push(TaskStamp { gid: gids[i].clone(), modified_at: None });
        i += 1;
    }
    proof {
        assert(stamps_of(stamps@) =~= unstamped(crate::sync::events::texts_of(gids@)));
    }
    stamps
}

/// The tasks of `stamps` whose comments a full sync fetches, in order.
fn plan_comments(stamps: &Vec<TaskStamp>, last_sync_at: &Option<String>) -> (plan: Vec<TaskStamp>)
    ensures
        stamps_of(plan@) == comment_plan(stamps_of(stamps@), text_of(*last_sync_at)),
        plan.len() <= stamps.len(),
{
    let mut plan: Vec<TaskStamp> = Vec::new();
    let mut i: usize = 0;
    proof {
        assert(stamps_of(plan@) =~= Seq::<TaskStampView>::empty());
        assert(stamps_of(stamps@).take(0) =~= Seq::<TaskStampView>::empty());
    }
    while i < stamps.len()
        invariant
            i <= stamps.len(),
            plan.len() <= i,
            stamps_of(plan@) == comment_plan(
                stamps_of(stamps@).take(i as int),
                text_of(*last_sync_at),
            ),
        decreases stamps.len() - i,
    {
        let ghost before = stamps_of(plan@);
        let ghost upto = stamps_of(stamps@).take(i + 1);
        proof {
            assert(upto.drop_last() =~= stamps_of(stamps@).take(i as int));
            assert(upto.last() == stamps[i as int]@);
        }
        if needs_comments(&stamps[i].modified_at, last_sync_at) {
            let copy = TaskStamp {
                gid: stamps[i].gid.clone(),
                modified_at: clone_text(&stamps[i].modified_at),
            };
            plan.push(copy);
            proof {
                assert(stamps_of(plan@) =~= before.push(stamps[i as int]@));
            }
        }
        i += 1;
    }
    proof {
        assert(stamps_of(stamps@).take(i as int) =~= stamps_of(stamps@));
    }
    plan
}

/// A project sync under way. See [`step_model`] for what it does.
#[derive(Debug)]
pub struct ProjectSync {
    entity_key: String,
    since: Date,
    today: Date,
    incremental: bool,
    phase: Phase,
    next_cursor: String,
    refresh_metadata: bool,
    refresh_status: bool,
    queue: Vec<TaskStamp>,
    position: usize,
    fetched: Vec<TaskStamp>,
    failures: u64,
    comment_failures: usize,
    task_count: usize,
    watermark: Option<String>,
    job: i64,
}

impl View for ProjectSync {
    type V = ProjectSyncView;

    closed spec fn view(&self) -> ProjectSyncView {
        ProjectSyncView {
            entity_key: self.entity_key@,
            since: self.since@,
            today: self.today@,
            incremental: self.incremental,
            phase: self.phase,
            next_cursor: self.next_cursor@,
            refresh_metadata: self.refresh_metadata,
            refresh_status: self.refresh_status,
            queue: stamps_of(self.queue@),
            position: self.position as nat,
            fetched: stamps_of(self.fetched@),
            failures: self.failures as nat,
            comment_failures: self.comment_failures as nat,
            task_count: self.task_count as nat,
            watermark: text_of(self.watermark),
            job: self.job,
        }
    }
}

impl ProjectSync {
    #[verifier::type_invariant]
    spec fn counted(self) -> bool {
        &&& self.phase is FetchingTask ==> self.failures <= self.position
        &&& self.phase is FetchingComments ==> self.comment_failures <= self.position
    }

    /// Starts the sync of the project with id `project_gid`. With
    /// `force_full` the incremental way is not tried. `since` is the first
    /// day of the lookback window of a full sync, `today` the current day.
    pub fn start(project_gid: &str, force_full: bool, since: Date, today: Date) -> (r: (
        ProjectSync,
        Directive,
    ))
        ensures
            (r.0@, r.1@) == start_model(project_gid@, force_full, since@, today@),
    {
        let mut entity_key = String::from_str("project:");
        entity_key.append(project_gid);
        let sync = ProjectSync {
            entity_key,
            since,
            today,
            incremental: !force_full,
            phase: Phase::Ensuring,
            next_cursor: String::new(),
            refresh_metadata: false,
            refresh_status: false,
            queue: Vec::new(),
            position: 0,
            fetched: Vec::new(),
            failures: 0,
            comment_failures: 0,
            task_count: 0,
            watermark: None,
            job: 0,
        };
        let directive = Directive { notices: Vec::new(), request: Request::EnsureEntity };
        proof {
            assert(stamps_of(sync.queue@) =~= Seq::<TaskStampView>::empty());
            assert(stamps_of(sync.fetched@) =~= Seq::<TaskStampView>::empty());
        }
        (sync, directive)
    }

    /// Whether the sync is over: its last directive was to finish or to fail.
    pub fn is_over(&self) -> (over: bool)
        ensures
            over == (self@.phase is Ended),
    {
        match self.phase {
            Phase::Ended => true,
            _ => false,
        }
    }

    /// Whether the attempt under way is the incremental one.
    pub fn is_incremental(&self) -> (incremental: bool)
        ensures
            incremental == self@.incremental,
    {
        self.incremental
    }

    /// The key of the project in the store.
    pub fn entity_key(&self) -> (key: &str)
        ensures
            key@ == self@.entity_key,
    {
        self.entity_key.as_str()
    }

    fn ask(self, phase: Phase, notices: Vec<Notice>, request: Request) -> (r: (
        ProjectSync,
        Directive,
    ))
        requires
            !(phase is FetchingTask),
            phase is FetchingComments ==> self.comment_failures <= self.position,
        ensures
            (r.0@, r.1@) == ask(self@, phase, notices@, request@),
    {
        (ProjectSync { phase, ..self }, Directive { notices, request })
    }

    fn give_up(self, message: String) -> (r: (ProjectSync, Directive))
        ensures
            (r.0@, r.1@) == give_up(self@, message@),
    {
        self.ask(
            Phase::Ended,
            Vec::new(),
            Request::Fail { fault: Fault::Reported { message } },
        )
    }

    fn refuse(self) -> (r: (ProjectSync, Directive))
        ensures
            (r.0@, r.1@) == refuse(self@),
    {
        self.ask(Phase::Ended, Vec::new(), Request::Fail { fault: Fault::UnexpectedReply })
    }

    fn begin_full(self) -> (r: (ProjectSync, Directive))
        ensures
            (r.0@, r.1@) == begin_full(self@),
    {
        let sync = ProjectSync {
            incremental: false,
            phase: Phase::ReadingWatermark,
            queue: Vec::new(),
            position: 0,
            fetched: Vec::new(),
            failures: 0,
            comment_failures: 0,
            task_count: 0,
            watermark: None,
            ..self
        };
        proof {
            assert(stamps_of(sync.queue@) =~= Seq::<TaskStampView>::empty());
            assert(stamps_of(sync.fetched@) =~= Seq::<TaskStampView>::empty());
        }
        (sync, Directive { notices: Vec::new(), request: Request::ReadWatermark })
    }

    fn fall_back_or_fail(self, message: String) -> (r: (ProjectSync, Directive))
        ensures
            (r.0@, r.1@) == fall_back_or_fail(self@, message@),
    {
        if self.incremental {
            self.begin_full()
        } else {
            self.give_up(message)
        }
    }

    fn failed_items(&self) -> (failed: u64)
        ensures
            failed == failed_items(self@),
    {
        add_capped(self.failures, self.comment_failures as u64)
    }

    fn report(&self, batches_completed: u32) -> (report: SyncReport)
        ensures
            report@ == project_report(self@, batches_completed),
    {
        let counted = SyncReport::from_counts(
            self.entity_key.clone(),
            self.task_count as u64,
            self.failed_items(),
            batches_completed,
            1,
        );
        let error = failure_text(self.failures, self.comment_failures as u64);
        SyncReport { error, ..counted }
    }

    fn incremental_report(&self) -> (report: SyncReport)
        ensures
            report@ == incremental_report(self@),
    {
        let completed: u32 = if self.failed_items() > 0 && self.task_count == 0 {
            0
        } else {
            1
        };
        self.report(completed)
    }

    fn full_report(&self) -> (report: SyncReport)
        ensures
            report@ == full_report(self@),
    {
        self.report(1)
    }

    fn after_status(self, notices: Vec<Notice>) -> (r: (ProjectSync, Directive))
        ensures
            (r.0@, r.1@) == after_status(self@, notices@),
    {
        if self.incremental {
            let token = self.next_cursor.clone();
            self.ask(Phase::StoringProgress, notices, Request::StoreCursorAndStamp { token })
        } else {
            let request = Request::CloseJob {
                job: self.job,
                synced: self.task_count as u64,
                failed: self.failed_items(),
            };
            self.ask(Phase::ClosingJob, notices, request)
        }
    }

    fn after_metadata(self, notices: Vec<Notice>) -> (r: (ProjectSync, Directive))
        ensures
            (r.0@, r.1@) == after_metadata(self@, notices@),
    {
        if self.incremental {
            if self.refresh_status {
                self.ask(Phase::FetchingStatus, notices, Request::FetchStatusUpdates)
            } else {
                self.after_status(notices)
            }
        } else {
            let request = Request::OpenJob { since: self.since, until: self.today };
            self.ask(Phase::OpeningJob, notices, request)
        }
    }

    fn after_batch(self, notices: Vec<Notice>) -> (r: (ProjectSync, Directive))
        ensures
            (r.0@, r.1@) == after_batch(self@, notices@),
    {
        if self.incremental {
            if self.refresh_metadata {
                self.ask(Phase::FetchingProject, notices, Request::FetchProject)
            } else {
                self.after_metadata(notices)
            }
        } else {
            self.ask(Phase::FetchingStatus, notices, Request::FetchStatusUpdates)
        }
    }

    fn next_comment(self, notices: Vec<Notice>) -> (r: (ProjectSync, Directive))
        requires
            self.comment_failures <= self.position,
        ensures
            (r.0@, r.1@) == next_comment(self@, notices@),
    {
        if self.position < self.queue.len() {
            let mut notices = notices;
            notices.push(
                Notice::CommentsProgress { current: self.position + 1, total: self.queue.len() },
            );
            let gid = self.queue[self.position].gid.clone();
            proof {
                assert(stamps_of(self.queue@)[self.position as int] == self.queue[self.position as int]@);
            }
            self.ask(Phase::FetchingComments, notices, Request::FetchComments { gid })
        } else if self.task_count > 0 {
            self.ask(Phase::StoringBatch, notices, Request::StoreTasksAndComments)
        } else {
            self.after_batch(notices)
        }
    }

    fn next_task(self, notices: Vec<Notice>) -> (r: (ProjectSync, Directive))
        requires
            self.failures <= self.position,
        ensures
            (r.0@, r.1@) == next_task(self@, notices@),
    {
        if self.position < self.queue.len() {
            let gid = self.queue[self.position].gid.clone();
            proof {
                assert(stamps_of(self.queue@)[self.position as int] == self.queue[self.position as int]@);
            }
            (
                ProjectSync { phase: Phase::FetchingTask, ..self },
                Directive { notices, request: Request::FetchTask { gid } },
            )
        } else {
            let mut notices = notices;
            notices.push(Notice::TasksFetched { count: self.fetched.len() });
            let count = self.fetched.len();
            let ProjectSync {
                entity_key,
                since,
                today,
                incremental,
                phase,
                next_cursor,
                refresh_metadata,
                refresh_status,
                queue,
                position,
                fetched,
                failures,
                comment_failures,
                task_count,
                watermark,
                job,
            } = self;
            let sync = ProjectSync {
                entity_key,
                since,
                today,
                incremental,
                phase: Phase::Ended,
                next_cursor,
                refresh_metadata,
                refresh_status,
                queue: fetched,
                position: 0,
                fetched: Vec::new(),
                failures,
                comment_failures: 0,
                task_count: count,
                watermark,
                job,
            };
            proof {
                assert(stamps_of(sync.fetched@) =~= Seq::<TaskStampView>::empty());
            }
            sync.next_comment(notices)
        }
    }

    fn on_events(self, summary: EventSummary, next: String) -> (r: (ProjectSync, Directive))
        ensures
            (r.0@, r.1@) == on_events(self@, summary@, next@),
    {
        if !summary.has_changes() {
            let sync = ProjectSync {
                phase: Phase::StoringQuiet,
                failures: 0,
                comment_failures: 0,
                task_count: 0,
                ..self
            };
            (
                sync,
                Directive {
                    notices: Vec::new(),
                    request: Request::StoreCursorAndStamp { token: next },
                },
            )
        } else if summary.changed_task_gids.len() > INCREMENTAL_THRESHOLD {
            self.ask(
                Phase::StoringFallbackCursor,
                Vec::new(),
                Request::StoreCursor { token: next },
            )
        } else {
            let mut notices: Vec<Notice> = Vec::new();
            notices.push(Notice::IncrementalSync { summary: summary.to_progress_summary() });
            let queue = stamps_for(&summary.changed_task_gids);
            let sync = ProjectSync {
                phase: Phase::Ended,
                next_cursor: next,
                refresh_metadata: summary.project_changed || summary.sections_changed,
                refresh_status: summary.status_updates_changed,
                queue,
                position: 0,
                fetched: Vec::new(),
                failures: 0,
                comment_failures: 0,
                task_count: 0,
                ..self
            };
            proof {
                assert(stamps_of(sync.fetched@) =~= Seq::<TaskStampView>::empty());
                assert(notices@ =~= seq![
                    Notice::IncrementalSync { summary: progress_summary(summary@) },
                ]);
            }
            sync.next_task(notices)
        }
    }

    fn on_tasks(self, stamps: Vec<TaskStamp>) -> (r: (ProjectSync, Directive))
        ensures
            (r.0@, r.1@) == on_tasks(self@, stamps_of(stamps@)),
    {
        let plan = plan_comments(&stamps, &self.watermark);
        let total = stamps.len();
        let mut notices: Vec<Notice> = Vec::new();
        notices.push(Notice::TasksFetched { count: total });
        if plan.len() < total {
            notices.push(Notice::CommentsSkipped { skipped: total - plan.len(), total });
        }
        let sync = ProjectSync {
            phase: Phase::Ended,
            queue: plan,
            position: 0,
            comment_failures: 0,
            task_count: total,
            ..self
        };
        proof {
            let fetched = seq![Notice::TasksFetched { count: total }];
            if plan.len() < total {
                assert(notices@ =~= fetched.push(
                    Notice::CommentsSkipped { skipped: (total - plan.len()) as usize, total },
                ));
            } else {
                assert(notices@ =~= fetched);
            }
        }
        sync.next_comment(notices)
    }

    fn when_ensuring(self, reply: Reply) -> (r: (ProjectSync, Directive))
        ensures
            (r.0@, r.1@) == when_ensuring(self@, reply@),
    {
        match reply {
            Reply::Done => {
                if self.incremental {
                    self.ask(Phase::ReadingCursor, Vec::new(), Request::ReadCursor)
                } else {
                    self.begin_full()
                }
            },
            Reply::Failed { message } => self.give_up(message),
            _ => self.refuse(),
        }
    }

    fn when_reading_cursor(self, reply: Reply) -> (r: (ProjectSync, Directive))
        ensures
            (r.0@, r.1@) == when_reading_cursor(self@, reply@),
    {
        match reply {
            Reply::Cursor { on_record: Some(token) } => self.ask(
                Phase::AwaitingEvents,
                Vec::new(),
                Request::FetchEvents { token },
            ),
            Reply::Cursor { on_record: None } => self.ask(
                Phase::Minting,
                Vec::new(),
                Request::EstablishCursor,
            ),
            Reply::Failed { message } => self.begin_full(),
            _ => self.refuse(),
        }
    }

    fn when_minting(self, reply: Reply) -> (r: (ProjectSync, Directive))
        ensures
            (r.0@, r.1@) == when_minting(self@, reply@),
    {
        match reply {
            Reply::CursorMinted { token } => self.ask(
                Phase::StoringFallbackCursor,
                Vec::new(),
                Request::StoreCursor { token },
            ),
            Reply::Failed { message } => self.begin_full(),
            _ => self.refuse(),
        }
    }

    fn when_storing_fallback_cursor(self, reply: Reply) -> (r: (ProjectSync, Directive))
        ensures
            (r.0@, r.1@) == when_storing_fallback_cursor(self@, reply@),
    {
        match reply {
            Reply::Done => self.begin_full(),
            Reply::Failed { message } => self.begin_full(),
            _ => self.refuse(),
        }
    }

    fn when_awaiting_events(self, reply: Reply) -> (r: (ProjectSync, Directive))
        ensures
            (r.0@, r.1@) == when_awaiting_events(self@, reply@),
    {
        match reply {
            Reply::Events { events, next } => {
                let summary = classify_events(events.as_slice());
                self.on_events(summary, next)
            },
            Reply::CursorExpired { fresh } => self.ask(
                Phase::StoringFallbackCursor,
                Vec::new(),
                Request::StoreCursor { token: fresh },
            ),
            Reply::Failed { message } => self.begin_full(),
            _ => self.refuse(),
        }
    }

    fn when_storing_quiet(self, reply: Reply) -> (r: (ProjectSync, Directive))
        ensures
            (r.0@, r.1@) == when_storing_quiet(self@, reply@),
    {
        match reply {
            Reply::Done => {
                let report = self.incremental_report();
                let mut notices: Vec<Notice> = Vec::new();
                notices.push(
                    Notice::IncrementalSync {
                        summary: IncrementalSyncSummary {
                            tasks_changed: 0,
                            project_changed: false,
                            sections_changed: false,
                            status_updates_changed: false,
                        },
                    },
                );
                proof {
                    assert(notices@ =~= seq![
                        Notice::IncrementalSync { summary: quiet_summary() },
                    ]);
                }
                self.ask(Phase::Ended, notices, Request::Finish { report })
            },
            Reply::Failed { message } => self.begin_full(),
            _ => self.refuse(),
        }
    }

    fn when_fetching_task(self, reply: Reply) -> (r: (ProjectSync, Directive))
        requires
            self.failures <= self.position,
        ensures
            (r.0@, r.1@) == when_fetching_task(self@, reply@),
    {
        if self.position < self.queue.len() {
            match reply {
                Reply::Fetched { count } => {
                    let ProjectSync {
                        entity_key,
                        since,
                        today,
                        incremental,
                        phase,
                        next_cursor,
                        refresh_metadata,
                        refresh_status,
                        queue,
                        position,
                        fetched,
                        failures,
                        comment_failures,
                        task_count,
                        watermark,
                        job,
                    } = self;
                    let mut fetched = fetched;
                    let ghost before = stamps_of(fetched@);
                    let stamp = TaskStamp {
                        gid: queue[position].gid.clone(),
                        modified_at: clone_text(&queue[position].modified_at),
                    };
                    fetched.push(stamp);
                    proof {
                        assert(stamps_of(queue@)[position as int] == queue[position as int]@);
                        assert(stamps_of(fetched@) =~= before.push(
                            queue[position as int]@,
                        ));
                    }
                    let sync = ProjectSync {
                        entity_key,
                        since,
                        today,
                        incremental,
                        phase: Phase::Ended,
                        next_cursor,
                        refresh_metadata,
                        refresh_status,
                        queue,
                        position: position + 1,
                        fetched,
                        failures,
                        comment_failures,
                        task_count,
                        watermark,
                        job,
                    };
                    sync.next_task(Vec::new())
                },
                Reply::TaskMissing => {
                    let sync = ProjectSync {
                        phase: Phase::Ended,
                        position: self.position + 1,
                        ..self
                    };
                    sync.next_task(Vec::new())
                },
                Reply::Failed { message } => {
                    let sync = ProjectSync {
                        phase: Phase::Ended,
                        failures: self.failures + 1,
                        position: self.position + 1,
                        ..self
                    };
                    sync.next_task(Vec::new())
                },
                _ => self.refuse(),
            }
        } else {
            self.refuse()
        }
    }

    fn when_fetching_comments(self, reply: Reply) -> (r: (ProjectSync, Directive))
        requires
            self.comment_failures <= self.position,
        ensures
            (r.0@, r.1@) == when_fetching_comments(self@, reply@),
    {
        if self.position < self.queue.len() {
            match reply {
                Reply::Fetched { count } => {
                    let sync = ProjectSync {
                        phase: Phase::Ended,
                        position: self.position + 1,
                        ..self
                    };
                    sync.next_comment(Vec::new())
                },
                Reply::Failed { message } => {
                    let sync = ProjectSync {
                        phase: Phase::Ended,
                        comment_failures: self.comment_failures + 1,
                        position: self.position + 1,
                        ..self
                    };
                    sync.next_comment(Vec::new())
                },
                _ => self.refuse(),
            }
        } else {
            self.refuse()
        }
    }

    fn when_storing_batch(self, reply: Reply) -> (r: (ProjectSync, Directive))
        ensures
            (r.0@, r.1@) == when_storing_batch(self@, reply@),
    {
        match reply {
            Reply::Done => self.after_batch(Vec::new()),
            Reply::Failed { message } => self.fall_back_or_fail(message),
            _ => self.refuse(),
        }
    }

    fn when_fetching_project(self, reply: Reply) -> (r: (ProjectSync, Directive))
        ensures
            (r.0@, r.1@) == when_fetching_project(self@, reply@),
    {
        match reply {
            Reply::Fetched { count } => self.ask(
                Phase::FetchingSections,
                Vec::new(),
                Request::FetchSections,
            ),
            Reply::Failed { message } => self.fall_back_or_fail(message),
            _ => self.refuse(),
        }
    }

    fn when_fetching_sections(self, reply: Reply) -> (r: (ProjectSync, Directive))
        ensures
            (r.0@, r.1@) == when_fetching_sections(self@, reply@),
    {
        match reply {
            Reply::Fetched { count } => self.ask(
                Phase::StoringMetadata,
                Vec::new(),
                Request::StoreProjectMetadata,
            ),
            Reply::Failed { message } => self.fall_back_or_fail(message),
            _ => self.refuse(),
        }
    }

    fn when_storing_metadata(self, reply: Reply) -> (r: (ProjectSync, Directive))
        ensures
            (r.0@, r.1@) == when_storing_metadata(self@, reply@),
    {
        match reply {
            Reply::Done => self.after_metadata(Vec::new()),
            Reply::Failed { message } => self.fall_back_or_fail(message),
            _ => self.refuse(),
        }
    }

    fn when_fetching_status(self, reply: Reply) -> (r: (ProjectSync, Directive))
        ensures
            (r.0@, r.1@) == when_fetching_status(self@, reply@),
    {
        match reply {
            Reply::Fetched { count } => {
                let mut notices: Vec<Notice> = Vec::new();
                notices.push(Notice::StatusUpdatesSynced { count });
                proof {
                    assert(notices@ =~= seq![Notice::StatusUpdatesSynced { count }]);
                }
                if count > 0 {
                    self.ask(Phase::StoringStatus, notices, Request::StoreStatusUpdates)
                } else {
                    self.after_status(notices)
                }
            },
            Reply::Failed { message } => self.fall_back_or_fail(message),
            _ => self.refuse(),
        }
    }

    fn when_storing_status(self, reply: Reply) -> (r: (ProjectSync, Directive))
        ensures
            (r.0@, r.1@) == when_storing_status(self@, reply@),
    {
        match reply {
            Reply::Done => self.after_status(Vec::new()),
            Reply::Failed { message } => self.fall_back_or_fail(message),
            _ => self.refuse(),
        }
    }

    fn when_storing_progress(self, reply: Reply) -> (r: (ProjectSync, Directive))
        ensures
            (r.0@, r.1@) == when_storing_progress(self@, reply@),
    {
        match reply {
            Reply::Done => {
                let report = self.incremental_report();
                self.ask(Phase::Ended, Vec::new(), Request::Finish { report })
            },
            Reply::Failed { message } => self.begin_full(),
            _ => self.refuse(),
        }
    }

    fn when_reading_watermark(self, reply: Reply) -> (r: (ProjectSync, Directive))
        ensures
            (r.0@, r.1@) == when_reading_watermark(self@, reply@),
    {
        match reply {
            Reply::Watermark { last_sync_at } => {
                let sync = ProjectSync {
                    phase: Phase::FetchingProject,
                    watermark: last_sync_at,
                    ..self
                };
                (sync, Directive { notices: Vec::new(), request: Request::FetchProject })
            },
            Reply::Failed { message } => self.give_up(message),
            _ => self.refuse(),
        }
    }

    fn when_opening_job(self, reply: Reply) -> (r: (ProjectSync, Directive))
        ensures
            (r.0@, r.1@) == when_opening_job(self@, reply@),
    {
        match reply {
            Reply::JobOpened { job } => {
                let completed_since = self.since;
                let sync = ProjectSync { phase: Phase::ListingTasks, job, ..self };
                (
                    sync,
                    Directive {
                        notices: Vec::new(),
                        request: Request::ListTasks { completed_since },
                    },
                )
            },
            Reply::Failed { message } => self.give_up(message),
            _ => self.refuse(),
        }
    }

    fn when_listing_tasks(self, reply: Reply) -> (r: (ProjectSync, Directive))
        ensures
            (r.0@, r.1@) == when_listing_tasks(self@, reply@),
    {
        match reply {
            Reply::Tasks { stamps } => self.on_tasks(stamps),
            Reply::Failed { message } => self.give_up(message),
            _ => self.refuse(),
        }
    }

    fn when_closing_job(self, reply: Reply) -> (r: (ProjectSync, Directive))
        ensures
            (r.0@, r.1@) == when_closing_job(self@, reply@),
    {
        match reply {
            Reply::Done => self.ask(
                Phase::MintingAfterFull,
                Vec::new(),
                Request::EstablishCursor,
            ),
            Reply::Failed { message } => self.give_up(message),
            _ => self.refuse(),
        }
    }

    fn when_minting_after_full(self, reply: Reply) -> (r: (ProjectSync, Directive))
        ensures
            (r.0@, r.1@) == when_minting_after_full(self@, reply@),
    {
        match reply {
            Reply::CursorMinted { token } => self.ask(
                Phase::StoringFinalCursor,
                Vec::new(),
                Request::StoreCursor { token },
            ),
            Reply::Failed { message } => {
                let report = self.full_report();
                self.ask(Phase::Ended, Vec::new(), Request::Finish { report })
            },
            _ => self.refuse(),
        }
    }

    fn when_storing_final_cursor(self, reply: Reply) -> (r: (ProjectSync, Directive))
        ensures
            (r.0@, r.1@) == when_storing_final_cursor(self@, reply@),
    {
        match reply {
            Reply::Done => {
                let report = self.full_report();
                self.ask(Phase::Ended, Vec::new(), Request::Finish { report })
            },
            Reply::Failed { message } => self.give_up(message),
            _ => self.refuse(),
        }
    }

    fn when_ended(self, reply: Reply) -> (r: (ProjectSync, Directive))
        ensures
            (r.0@, r.1@) == when_ended(self@, reply@),
    {
        self.refuse()
    }

    /// Takes the driver's reply to the request under way and says what to do
    /// next.
    pub fn step(self, reply: Reply) -> (r: (ProjectSync, Directive))
        ensures
            (r.0@, r.1@) == step_model(self@, reply@),
    {
        proof {
            use_type_invariant(&self);
        }
        match self.phase {
            Phase::Ensuring => self.when_ensuring(reply),
            Phase::ReadingCursor => self.when_reading_cursor(reply),
            Phase::Minting => self.when_minting(reply),
            Phase::StoringFallbackCursor => self.when_storing_fallback_cursor(reply),
            Phase::AwaitingEvents => self.when_awaiting_events(reply),
            Phase::StoringQuiet => self.when_storing_quiet(reply),
            Phase::FetchingTask => self.when_fetching_task(reply),
            Phase::FetchingComments => self.when_fetching_comments(reply),
            Phase::StoringBatch => self.when_storing_batch(reply),
            Phase::FetchingProject => self.when_fetching_project(reply),
            Phase::FetchingSections => self.when_fetching_sections(reply),
            Phase::StoringMetadata => self.when_storing_metadata(reply),
            Phase::FetchingStatus => self.when_fetching_status(reply),
            Phase::StoringStatus => self.when_storing_status(reply),
            Phase::StoringProgress => self.when_storing_progress(reply),
            Phase::ReadingWatermark => self.when_reading_watermark(reply),
            Phase::OpeningJob => self.when_opening_job(reply),
            Phase::ListingTasks => self.when_listing_tasks(reply),
            Phase::ClosingJob => self.when_closing_job(reply),
            Phase::MintingAfterFull => self.when_minting_after_full(reply),
            Phase::StoringFinalCursor => self.when_storing_final_cursor(reply),
            Phase::Ended => self.when_ended(reply),
        }
    }
}

} // verus!
