use asanadw::date::Date;
use asanadw::sync::events::ChangeEvent;
use asanadw::sync::moment::{read_moment, Moment};
use asanadw::sync::plan::{
    comments_needed, needs_comments, Directive, Fault, Notice, Reply, Request, TaskStamp,
};
use asanadw::sync::project::{ProjectSync, INCREMENTAL_THRESHOLD};
use asanadw::sync::syncer::sync_project;
use asanadw::sync::{IncrementalSyncSummary, SyncOptions, SyncReport, SyncStatus};

fn d(y: i32, m: u32, day: u32) -> Date {
    Date::from_ymd_opt(y, m, day).unwrap()
}

fn today() -> Date {
    d(2025, 6, 30)
}

fn since() -> Date {
    d(2025, 4, 1)
}

fn start(full: bool) -> (ProjectSync, Directive) {
    let options = SyncOptions { since: None, days: None, full };
    sync_project("77", &options, today())
}

fn task_event(gid: &str) -> ChangeEvent {
    ChangeEvent {
        resource_type: Some("task".to_string()),
        event_type: None,
        resource_gid: gid.to_string(),
        action: "changed".to_string(),
        parent_gid: None,
        parent_type: None,
    }
}

fn other_event(kind: &str, action: &str) -> ChangeEvent {
    ChangeEvent {
        resource_type: Some(kind.to_string()),
        event_type: None,
        resource_gid: "500".to_string(),
        action: action.to_string(),
        parent_gid: None,
        parent_type: None,
    }
}

fn failed(message: &str) -> Reply {
    Reply::Failed { message: message.to_string() }
}

fn stamp(gid: &str, modified_at: Option<&str>) -> TaskStamp {
    TaskStamp { gid: gid.to_string(), modified_at: modified_at.map(|m| m.to_string()) }
}

/// Feeds the replies one by one and returns every directive, the first one
/// included.
fn run(first: (ProjectSync, Directive), replies: Vec<Reply>) -> (ProjectSync, Vec<Directive>) {
    let (mut sync, directive) = first;
    let mut seen = vec![directive];
    for reply in replies {
        let (next, directive) = sync.step(reply);
        sync = next;
        seen.push(directive);
    }
    (sync, seen)
}

fn requests(seen: &[Directive]) -> Vec<Request> {
    seen.iter().map(|d| d.request.clone()).collect()
}

fn is_fetch_of_items(request: &Request) -> bool {
    matches!(
        request,
        Request::FetchTask { .. } | Request::FetchComments { .. } | Request::ListTasks { .. }
    )
}

/// The replies that take an incremental sync to the point where it has asked
/// for the events since the cursor `tok`.
fn to_events() -> Vec<Reply> {
    vec![Reply::Done, Reply::Cursor { on_record: Some("tok".to_string()) }]
}

#[test]
fn a_sync_begins_by_making_room_for_the_entity() {
    let (sync, directive) = start(false);
    assert_eq!(directive, Directive { notices: vec![], request: Request::EnsureEntity });
    assert_eq!(sync.entity_key(), "project:77");
    assert!(sync.is_incremental());
    assert!(!sync.is_over());
    let (forced, _) = start(true);
    assert!(!forced.is_incremental());
}

#[test]
fn quiet_events_advance_the_cursor_and_fetch_nothing() {
    let mut replies = to_events();
    replies.push(Reply::Events {
        events: vec![other_event("task", "removed"), other_event("project", "added")],
        next: "tok2".to_string(),
    });
    replies.push(Reply::Done);
    let (sync, seen) = run(start(false), replies);
    assert_eq!(
        requests(&seen),
        vec![
            Request::EnsureEntity,
            Request::ReadCursor,
            Request::FetchEvents { token: "tok".to_string() },
            Request::StoreCursorAndStamp { token: "tok2".to_string() },
            Request::Finish {
                report: SyncReport {
                    entity_key: "project:77".to_string(),
                    status: SyncStatus::Success,
                    items_synced: 0,
                    items_failed: 0,
                    batches_completed: 1,
                    batches_total: 1,
                    error: None,
                },
            },
        ]
    );
    assert!(!seen.iter().any(|d| is_fetch_of_items(&d.request)));
    assert_eq!(
        seen[4].notices,
        vec![Notice::IncrementalSync {
            summary: IncrementalSyncSummary {
                tasks_changed: 0,
                project_changed: false,
                sections_changed: false,
                status_updates_changed: false,
            },
        }]
    );
    assert!(sync.is_over());
}

#[test]
fn too_many_changed_tasks_fall_back_to_a_full_sync() {
    let events: Vec<ChangeEvent> =
        (0..INCREMENTAL_THRESHOLD + 1).map(|i| task_event(&format!("{}", 1000 + i))).collect();
    assert_eq!(events.len(), 51);
    for stored in [Reply::Done, failed("disk full")] {
        let mut replies = to_events();
        replies.push(Reply::Events { events: events.clone(), next: "tok2".to_string() });
        replies.push(stored);
        let (sync, seen) = run(start(false), replies);
        assert_eq!(
            requests(&seen)[3..],
            [Request::StoreCursor { token: "tok2".to_string() }, Request::ReadWatermark]
        );
        assert!(!seen.iter().any(|d| matches!(d.request, Request::FetchTask { .. })));
        assert!(seen.iter().all(|d| d.notices.is_empty()));
        assert!(!sync.is_incremental());
    }
}

#[test]
fn fifty_changed_tasks_are_still_fetched_one_by_one() {
    let events: Vec<ChangeEvent> = (0..50).map(|i| task_event(&format!("{}", 1000 + i))).collect();
    let mut replies = to_events();
    replies.push(Reply::Events { events, next: "tok2".to_string() });
    let (_, seen) = run(start(false), replies);
    assert_eq!(seen[3].request, Request::FetchTask { gid: "1000".to_string() });
    assert_eq!(
        seen[3].notices,
        vec![Notice::IncrementalSync {
            summary: IncrementalSyncSummary {
                tasks_changed: 50,
                project_changed: false,
                sections_changed: false,
                status_updates_changed: false,
            },
        }]
    );
}

#[test]
fn changed_tasks_are_fetched_written_and_then_the_cursor_advances() {
    let mut replies = to_events();
    replies.push(Reply::Events {
        events: vec![
            task_event("1"),
            task_event("2"),
            task_event("3"),
            task_event("4"),
            other_event("section", "added"),
            other_event("status_update", "changed"),
        ],
        next: "tok2".to_string(),
    });
    replies.push(Reply::Fetched { count: 1 }); // task 1
    replies.push(Reply::TaskMissing); // task 2 was deleted
    replies.push(failed("500")); // task 3 could not be fetched
    replies.push(Reply::Fetched { count: 1 }); // task 4
    replies.push(Reply::Fetched { count: 3 }); // comments of 1
    replies.push(failed("timeout")); // comments of 4: written without, and counted
    replies.push(Reply::Done); // tasks and comments written
    replies.push(Reply::Fetched { count: 1 }); // project
    replies.push(Reply::Fetched { count: 5 }); // sections
    replies.push(Reply::Done); // metadata written
    replies.push(Reply::Fetched { count: 2 }); // status updates
    replies.push(Reply::Done); // status updates written
    replies.push(Reply::Done); // cursor and sync time written
    let (sync, seen) = run(start(false), replies);
    assert_eq!(
        requests(&seen)[3..],
        [
            Request::FetchTask { gid: "1".to_string() },
            Request::FetchTask { gid: "2".to_string() },
            Request::FetchTask { gid: "3".to_string() },
            Request::FetchTask { gid: "4".to_string() },
            Request::FetchComments { gid: "1".to_string() },
            Request::FetchComments { gid: "4".to_string() },
            Request::StoreTasksAndComments,
            Request::FetchProject,
            Request::FetchSections,
            Request::StoreProjectMetadata,
            Request::FetchStatusUpdates,
            Request::StoreStatusUpdates,
            Request::StoreCursorAndStamp { token: "tok2".to_string() },
            Request::Finish {
                report: SyncReport {
                    entity_key: "project:77".to_string(),
                    status: SyncStatus::PartialFailure,
                    items_synced: 2,
                    items_failed: 2,
                    batches_completed: 1,
                    batches_total: 1,
                    error: Some(
                        "1 task fetches failed, 1 comment fetches failed".to_string()
                    ),
                },
            },
        ]
    );
    assert_eq!(
        seen[7].notices,
        vec![
            Notice::TasksFetched { count: 2 },
            Notice::CommentsProgress { current: 1, total: 2 },
        ]
    );
    assert_eq!(seen[8].notices, vec![Notice::CommentsProgress { current: 2, total: 2 }]);
    assert_eq!(seen[14].notices, vec![Notice::StatusUpdatesSynced { count: 2 }]);
    assert!(sync.is_over());
    // The cursor is the last thing written.
    let store = seen
        .iter()
        .position(|d| matches!(d.request, Request::StoreCursorAndStamp { .. }))
        .unwrap();
    assert_eq!(store, seen.len() - 2);
}

#[test]
fn an_incremental_sync_in_which_every_fetch_fails_reports_failure() {
    let mut replies = to_events();
    replies.push(Reply::Events {
        events: vec![task_event("1"), task_event("2")],
        next: "tok2".to_string(),
    });
    replies.push(failed("500"));
    replies.push(failed("500"));
    replies.push(Reply::Done);
    let (_, seen) = run(start(false), replies);
    assert_eq!(
        requests(&seen)[3..],
        [
            Request::FetchTask { gid: "1".to_string() },
            Request::FetchTask { gid: "2".to_string() },
            Request::StoreCursorAndStamp { token: "tok2".to_string() },
            Request::Finish {
                report: SyncReport {
                    entity_key: "project:77".to_string(),
                    status: SyncStatus::Failed,
                    items_synced: 0,
                    items_failed: 2,
                    batches_completed: 0,
                    batches_total: 1,
                    error: Some("2 task fetches failed".to_string()),
                },
            },
        ]
    );
    assert_eq!(seen[5].notices, vec![Notice::TasksFetched { count: 0 }]);
}

#[test]
fn only_flagged_refreshes_are_made() {
    let mut replies = to_events();
    replies.push(Reply::Events {
        events: vec![other_event("project", "changed")],
        next: "tok2".to_string(),
    });
    replies.push(Reply::Fetched { count: 1 });
    replies.push(Reply::Fetched { count: 0 });
    replies.push(Reply::Done);
    replies.push(Reply::Done);
    let (_, seen) = run(start(false), replies);
    assert_eq!(
        requests(&seen)[3..7],
        [
            Request::FetchProject,
            Request::FetchSections,
            Request::StoreProjectMetadata,
            Request::StoreCursorAndStamp { token: "tok2".to_string() },
        ]
    );
    assert!(matches!(seen[7].request, Request::Finish { .. }));

    let mut replies = to_events();
    replies.push(Reply::Events {
        events: vec![other_event("status_update", "added")],
        next: "tok3".to_string(),
    });
    replies.push(Reply::Fetched { count: 0 });
    let (_, seen) = run(start(false), replies);
    // No status update came: nothing to write before the cursor.
    assert_eq!(
        requests(&seen)[3..],
        [
            Request::FetchStatusUpdates,
            Request::StoreCursorAndStamp { token: "tok3".to_string() },
        ]
    );
    assert_eq!(seen[4].notices, vec![Notice::StatusUpdatesSynced { count: 0 }]);
}

#[test]
fn without_a_cursor_one_is_minted_and_a_full_sync_follows() {
    let replies = vec![
        Reply::Done,
        Reply::Cursor { on_record: None },
        Reply::CursorMinted { token: "fresh".to_string() },
        Reply::Done,
    ];
    let (sync, seen) = run(start(false), replies);
    assert_eq!(
        requests(&seen),
        vec![
            Request::EnsureEntity,
            Request::ReadCursor,
            Request::EstablishCursor,
            Request::StoreCursor { token: "fresh".to_string() },
            Request::ReadWatermark,
        ]
    );
    assert!(!sync.is_incremental());

    // Where no cursor can be minted the full sync follows at once.
    let replies = vec![Reply::Done, Reply::Cursor { on_record: None }, failed("403")];
    let (_, seen) = run(start(false), replies);
    assert_eq!(seen[3].request, Request::ReadWatermark);
}

#[test]
fn an_expired_cursor_is_replaced_and_a_full_sync_follows() {
    let mut replies = to_events();
    replies.push(Reply::CursorExpired { fresh: "fresh".to_string() });
    replies.push(Reply::Done);
    let (sync, seen) = run(start(false), replies);
    assert_eq!(
        requests(&seen)[3..],
        [Request::StoreCursor { token: "fresh".to_string() }, Request::ReadWatermark]
    );
    assert!(!sync.is_incremental());
}

#[test]
fn any_failure_of_the_incremental_way_leads_to_a_full_sync() {
    // Reading the cursor fails.
    let (_, seen) = run(start(false), vec![Reply::Done, failed("locked")]);
    assert_eq!(seen[2].request, Request::ReadWatermark);
    // Fetching the events fails.
    let mut replies = to_events();
    replies.push(failed("502"));
    let (_, seen) = run(start(false), replies);
    assert_eq!(seen[3].request, Request::ReadWatermark);
    // Writing the batch fails.
    let mut replies = to_events();
    replies.push(Reply::Events { events: vec![task_event("1")], next: "n".to_string() });
    replies.push(Reply::Fetched { count: 1 });
    replies.push(Reply::Fetched { count: 0 });
    replies.push(failed("disk full"));
    let (sync, seen) = run(start(false), replies);
    assert_eq!(seen[5].request, Request::StoreTasksAndComments);
    assert_eq!(seen[6].request, Request::ReadWatermark);
    assert!(!sync.is_incremental());
    // Writing the cursor at the end fails.
    let mut replies = to_events();
    replies.push(Reply::Events { events: vec![], next: "n".to_string() });
    replies.push(failed("disk full"));
    let (_, seen) = run(start(false), replies);
    assert_eq!(seen[4].request, Request::ReadWatermark);
}

#[test]
fn a_sync_that_cannot_make_room_for_the_entity_fails() {
    let (sync, seen) = run(start(false), vec![failed("locked")]);
    assert_eq!(
        seen[1].request,
        Request::Fail { fault: Fault::Reported { message: "locked".to_string() } }
    );
    assert!(sync.is_over());
}

fn full_replies(watermark: Option<&str>, stamps: Vec<TaskStamp>) -> Vec<Reply> {
    vec![
        Reply::Done,
        Reply::Watermark { last_sync_at: watermark.map(|w| w.to_string()) },
        Reply::Fetched { count: 1 },
        Reply::Fetched { count: 4 },
        Reply::Done,
        Reply::JobOpened { job: 17 },
        Reply::Tasks { stamps },
    ]
}

#[test]
fn a_full_sync_skips_the_comments_of_unchanged_tasks() {
    let stamps = vec![
        stamp("1", Some("2025-06-01T10:00:00.000Z")),
        stamp("2", Some("2025-06-20T10:00:00.000Z")),
        stamp("3", None),
        stamp("4", Some("2025-06-10 12:00:00")),
        stamp("5", Some("2025-06-10 12:00:01")),
    ];
    let mut replies = full_replies(Some("2025-06-10 12:00:00"), stamps);
    replies.push(Reply::Fetched { count: 2 }); // comments of 2
    replies.push(failed("timeout")); // comments of 3
    replies.push(Reply::Fetched { count: 0 }); // comments of 5
    replies.push(Reply::Done); // batch written
    replies.push(Reply::Fetched { count: 1 }); // status updates
    replies.push(Reply::Done); // status updates written
    replies.push(Reply::Done); // job closed
    replies.push(Reply::CursorMinted { token: "fresh".to_string() });
    replies.push(Reply::Done);
    let (sync, seen) = run(start(true), replies);
    assert_eq!(
        requests(&seen),
        vec![
            Request::EnsureEntity,
            Request::ReadWatermark,
            Request::FetchProject,
            Request::FetchSections,
            Request::StoreProjectMetadata,
            Request::OpenJob { since: since(), until: today() },
            Request::ListTasks { completed_since: since() },
            Request::FetchComments { gid: "2".to_string() },
            Request::FetchComments { gid: "3".to_string() },
            Request::FetchComments { gid: "5".to_string() },
            Request::StoreTasksAndComments,
            Request::FetchStatusUpdates,
            Request::StoreStatusUpdates,
            Request::CloseJob { job: 17, synced: 5, failed: 1 },
            Request::EstablishCursor,
            Request::StoreCursor { token: "fresh".to_string() },
            Request::Finish {
                report: SyncReport {
                    entity_key: "project:77".to_string(),
                    status: SyncStatus::PartialFailure,
                    items_synced: 5,
                    items_failed: 1,
                    batches_completed: 1,
                    batches_total: 1,
                    error: Some("1 comment fetches failed".to_string()),
                },
            },
        ]
    );
    assert_eq!(
        seen[7].notices,
        vec![
            Notice::TasksFetched { count: 5 },
            Notice::CommentsSkipped { skipped: 2, total: 5 },
            Notice::CommentsProgress { current: 1, total: 3 },
        ]
    );
    assert_eq!(seen[9].notices, vec![Notice::CommentsProgress { current: 3, total: 3 }]);
    assert_eq!(seen[12].notices, vec![Notice::StatusUpdatesSynced { count: 1 }]);
    assert!(sync.is_over());
}

#[test]
fn a_first_full_sync_fetches_the_comments_of_every_task() {
    let stamps = vec![stamp("1", Some("2020-01-01T00:00:00.000Z")), stamp("2", None)];
    let (_, seen) = run(start(true), full_replies(None, stamps));
    assert_eq!(seen[7].request, Request::FetchComments { gid: "1".to_string() });
    assert_eq!(
        seen[7].notices,
        vec![
            Notice::TasksFetched { count: 2 },
            Notice::CommentsProgress { current: 1, total: 2 },
        ]
    );
}

#[test]
fn a_full_sync_without_tasks_writes_no_batch() {
    let mut replies = full_replies(Some("2025-06-10 12:00:00"), vec![]);
    replies.push(Reply::Fetched { count: 0 }); // no status updates
    replies.push(Reply::Done); // job closed
    replies.push(failed("403")); // no cursor to be had
    let (sync, seen) = run(start(true), replies);
    assert_eq!(
        requests(&seen)[7..],
        [
            Request::FetchStatusUpdates,
            Request::CloseJob { job: 17, synced: 0, failed: 0 },
            Request::EstablishCursor,
            Request::Finish {
                report: SyncReport {
                    entity_key: "project:77".to_string(),
                    status: SyncStatus::Success,
                    items_synced: 0,
                    items_failed: 0,
                    batches_completed: 1,
                    batches_total: 1,
                    error: None,
                },
            },
        ]
    );
    assert_eq!(seen[7].notices, vec![Notice::TasksFetched { count: 0 }]);
    assert!(sync.is_over());
}

#[test]
fn tasks_are_written_even_when_no_comments_are_wanted() {
    let stamps = vec![stamp("1", Some("2025-01-01T00:00:00.000Z"))];
    let (_, seen) = run(start(true), full_replies(Some("2025-06-10 12:00:00"), stamps));
    assert_eq!(seen[7].request, Request::StoreTasksAndComments);
    assert_eq!(
        seen[7].notices,
        vec![
            Notice::TasksFetched { count: 1 },
            Notice::CommentsSkipped { skipped: 1, total: 1 },
        ]
    );
}

#[test]
fn a_failure_in_a_full_sync_ends_it() {
    let fault = |m: &str| Request::Fail { fault: Fault::Reported { message: m.to_string() } };
    // Each prefix of a full sync, followed by a failure.
    let good = full_replies(Some("2025-06-10 12:00:00"), vec![stamp("1", None)]);
    for cut in 1..good.len() {
        let mut replies: Vec<Reply> = good[..cut].to_vec();
        replies.push(failed("boom"));
        let (sync, seen) = run(start(true), replies);
        assert_eq!(seen.last().unwrap().request, fault("boom"), "after {} replies", cut);
        assert!(sync.is_over());
    }
    // After the comments: the batch, the status updates, the job, the cursor.
    let mut replies = good.clone();
    replies.push(Reply::Fetched { count: 0 });
    let tail = vec![
        Reply::Done,
        Reply::Fetched { count: 1 },
        Reply::Done,
        Reply::Done,
        Reply::CursorMinted { token: "t".to_string() },
    ];
    for cut in 0..tail.len() {
        let mut all = replies.clone();
        all.extend(tail[..cut].iter().cloned());
        if cut == 4 {
            // A cursor that cannot be minted does not fail the sync.
            continue;
        }
        all.push(failed("late"));
        let (_, seen) = run(start(true), all);
        assert_eq!(seen.last().unwrap().request, fault("late"), "tail {}", cut);
    }
    let mut all = replies.clone();
    all.extend(tail.iter().cloned());
    all.push(failed("cursor not written"));
    let (_, seen) = run(start(true), all);
    assert_eq!(seen.last().unwrap().request, fault("cursor not written"));
}

#[test]
fn a_reply_that_answers_nothing_ends_the_sync() {
    let refusal = Request::Fail { fault: Fault::UnexpectedReply };
    let (sync, seen) = run(start(false), vec![Reply::TaskMissing]);
    assert_eq!(seen[1].request, refusal);
    assert!(sync.is_over());
    let (_, seen) = run(start(false), vec![Reply::Done, Reply::Done]);
    assert_eq!(seen[2].request, refusal);
    let mut replies = to_events();
    replies.push(Reply::Events { events: vec![], next: "n".to_string() });
    replies.push(Reply::Done);
    replies.push(Reply::Done);
    let (_, seen) = run(start(false), replies);
    assert!(matches!(seen[4].request, Request::Finish { .. }));
    assert_eq!(seen[5].request, refusal);
}

#[test]
fn time_stamps_are_compared_as_times() {
    let text = |s: &str| Some(s.to_string());
    // The store writes a blank where the remote service writes a `T`.
    assert!(!needs_comments(&text("2025-01-15T08:00:00.000Z"), &text("2025-01-15 10:00:00")));
    assert!(needs_comments(&text("2025-01-15T10:00:00.001Z"), &text("2025-01-15 10:00:00")));
    assert!(!needs_comments(&text("2025-01-15T10:00:00.000Z"), &text("2025-01-15 10:00:00")));
    assert!(needs_comments(&text("2025-01-15 08:00:00"), &text("2025-01-15T07:59:59.999Z")));
    assert!(needs_comments(&text("2025-01-16T00:00:00Z"), &text("2025-01-15 23:59:59")));
    assert!(!needs_comments(&text("2025-01-14T23:59:59.999Z"), &text("2025-01-15 00:00:00")));
    assert!(needs_comments(&text("2025-06-11"), &text("2025-06-10")));
    assert!(!needs_comments(&text("2025-06-10"), &text("2025-06-10")));
    assert!(!needs_comments(&text("2025-06-09"), &text("2025-06-10")));
    assert!(needs_comments(&text("2025-06-10T00:00:01Z"), &text("2025-06-10")));
    // A time that is unknown or cannot be read never hides a change.
    assert!(needs_comments(&None, &text("2025-06-10")));
    assert!(needs_comments(&text("2025-06-09"), &None));
    assert!(needs_comments(&None, &None));
    assert!(needs_comments(&text("yesterday"), &text("2025-06-10 12:00:00")));
    assert!(needs_comments(&text("2020-01-01T00:00:00Z"), &text("soon")));
}

#[test]
fn moments_are_read_from_both_forms() {
    let moment = |day: Date, nanos: u64| Some(Moment { day, nanos });
    let ten = 10 * 3600 * 1_000_000_000u64;
    assert_eq!(read_moment("2025-01-15 10:00:00"), moment(d(2025, 1, 15), ten));
    assert_eq!(read_moment("2025-01-15T10:00:00Z"), moment(d(2025, 1, 15), ten));
    assert_eq!(read_moment("2025-01-15T10:00:00.000Z"), moment(d(2025, 1, 15), ten));
    assert_eq!(read_moment("2025-01-15T10:00:00.5"), moment(d(2025, 1, 15), ten + 500_000_000));
    assert_eq!(
        read_moment("2025-01-15T23:59:59.123456789Z"),
        moment(d(2025, 1, 15), 86_399_123_456_789)
    );
    assert_eq!(read_moment("2025-01-15T00:00:00.000000001"), moment(d(2025, 1, 15), 1));
    assert_eq!(read_moment("2025-01-15"), moment(d(2025, 1, 15), 0));
    for unreadable in [
        "",
        "2025-01-15T",
        "2025-01-15T10:00",
        "2025-01-15x10:00:00",
        "2025-01-15T24:00:00Z",
        "2025-01-15T10:60:00Z",
        "2025-01-15T10:00:60Z",
        "2025-02-30T10:00:00Z",
        "2025-13-01T10:00:00Z",
        "2025/01/15T10:00:00Z",
        "2025-01-15T10:00:00.Z",
        "2025-01-15T10:00:00.1234567890Z",
        "2025-01-15T10:00:00+02:00",
        "2025-01-15T10:00:00.12a",
        "2025-01-15T10.00.00",
        "+025-01-15",
    ] {
        assert_eq!(read_moment(unreadable), None, "{unreadable}");
    }
    let early = Moment { day: d(2025, 1, 15), nanos: 5 };
    let late = Moment { day: d(2025, 1, 15), nanos: 6 };
    let next = Moment { day: d(2025, 1, 16), nanos: 0 };
    assert!(late.is_later_than(&early));
    assert!(!early.is_later_than(&late));
    assert!(!early.is_later_than(&early));
    assert!(next.is_later_than(&late));
    assert!(!late.is_later_than(&next));
    assert!(comments_needed(&Some(late), &Some(early)));
    assert!(!comments_needed(&Some(early), &Some(late)));
    assert!(!comments_needed(&Some(early), &Some(early)));
    assert!(comments_needed(&None, &Some(early)));
    assert!(comments_needed(&Some(early), &None));
}

#[test]
fn failed_comment_fetches_are_counted_and_the_tasks_still_written() {
    // A full sync: the comments of two of three tasks cannot be fetched.
    let stamps = vec![stamp("1", None), stamp("2", None), stamp("3", None)];
    let mut replies = full_replies(None, stamps);
    replies.push(failed("timeout"));
    replies.push(Reply::Fetched { count: 4 });
    replies.push(failed("timeout"));
    replies.push(Reply::Done); // batch written
    replies.push(Reply::Fetched { count: 0 }); // no status updates
    replies.push(Reply::Done); // job closed
    replies.push(failed("403")); // no cursor to be had
    let (sync, seen) = run(start(true), replies);
    assert_eq!(
        requests(&seen)[7..],
        [
            Request::FetchComments { gid: "1".to_string() },
            Request::FetchComments { gid: "2".to_string() },
            Request::FetchComments { gid: "3".to_string() },
            Request::StoreTasksAndComments,
            Request::FetchStatusUpdates,
            Request::CloseJob { job: 17, synced: 3, failed: 2 },
            Request::EstablishCursor,
            Request::Finish {
                report: SyncReport {
                    entity_key: "project:77".to_string(),
                    status: SyncStatus::PartialFailure,
                    items_synced: 3,
                    items_failed: 2,
                    batches_completed: 1,
                    batches_total: 1,
                    error: Some("2 comment fetches failed".to_string()),
                },
            },
        ]
    );
    assert!(sync.is_over());

    // An incremental sync: one task cannot be fetched, and the comments of
    // one of the two others cannot.
    let mut replies = to_events();
    replies.push(Reply::Events {
        events: vec![task_event("1"), task_event("2"), task_event("3")],
        next: "n".to_string(),
    });
    replies.push(Reply::Fetched { count: 1 });
    replies.push(failed("500"));
    replies.push(Reply::Fetched { count: 1 });
    replies.push(failed("timeout")); // comments of 1
    replies.push(Reply::Fetched { count: 2 }); // comments of 3
    replies.push(Reply::Done); // batch written
    replies.push(Reply::Done); // cursor and sync time on record
    let (sync, seen) = run(start(false), replies);
    let all = requests(&seen);
    assert_eq!(
        all[all.len() - 4..],
        [
            Request::FetchComments { gid: "3".to_string() },
            Request::StoreTasksAndComments,
            Request::StoreCursorAndStamp { token: "n".to_string() },
            Request::Finish {
                report: SyncReport {
                    entity_key: "project:77".to_string(),
                    status: SyncStatus::PartialFailure,
                    items_synced: 2,
                    items_failed: 2,
                    batches_completed: 1,
                    batches_total: 1,
                    error: Some(
                        "1 task fetches failed, 1 comment fetches failed".to_string()
                    ),
                },
            },
        ]
    );
    assert!(sync.is_over());
}

#[test]
fn a_full_sync_skips_a_task_modified_before_the_last_sync_whatever_the_form() {
    let stamps = vec![
        stamp("1", Some("2025-01-15T08:00:00.000Z")),
        stamp("2", Some("2025-01-15T10:00:00.001Z")),
    ];
    let (_, seen) = run(start(true), full_replies(Some("2025-01-15 10:00:00"), stamps));
    assert_eq!(seen[7].request, Request::FetchComments { gid: "2".to_string() });
    assert_eq!(
        seen[7].notices,
        vec![
            Notice::TasksFetched { count: 2 },
            Notice::CommentsSkipped { skipped: 1, total: 2 },
            Notice::CommentsProgress { current: 1, total: 1 },
        ]
    );
}

#[test]
fn the_lookback_window_of_the_options_reaches_the_job_and_the_listing() {
    let options = SyncOptions { since: Some(d(2024, 12, 25)), days: None, full: true };
    let first = sync_project("5", &options, today());
    let replies = vec![
        Reply::Done,
        Reply::Watermark { last_sync_at: None },
        Reply::Fetched { count: 1 },
        Reply::Fetched { count: 0 },
        Reply::Done,
        Reply::JobOpened { job: 1 },
    ];
    let (_, seen) = run(first, replies);
    assert_eq!(seen[5].request, Request::OpenJob { since: d(2024, 12, 25), until: today() });
    assert_eq!(seen[6].request, Request::ListTasks { completed_since: d(2024, 12, 25) });
}
