use asanadw::date::Date;
use asanadw::sync::events::{
    classify_event, classify_events, parse_action, parse_kind, Change, ChangeEvent, EventAction,
    EventSummary, ResourceKind,
};
use asanadw::sync::rate_limit::{
    backoff_seconds, is_429_error, is_rate_limit_text, CallOutcome, RetryState, RetryStep,
    MAX_RETRIES,
};
use asanadw::sync::{
    make_sync_options, IncrementalSyncSummary, NoopProgress, SyncOptions, SyncProgress, SyncReport,
    SyncStatus, DEFAULT_LOOKBACK_DAYS,
};

fn d(y: i32, m: u32, day: u32) -> Date {
    Date::from_ymd_opt(y, m, day).unwrap()
}

#[test]
fn status_follows_from_the_counts() {
    let ok = SyncReport::from_counts("project:1".to_string(), 12, 0, 1, 1);
    assert_eq!(ok.status, SyncStatus::Success);
    assert_eq!(ok.error, None);
    assert_eq!(ok.entity_key, "project:1");
    assert_eq!((ok.items_synced, ok.items_failed), (12, 0));
    assert_eq!((ok.batches_completed, ok.batches_total), (1, 1));

    let empty = SyncReport::from_counts("project:1".to_string(), 0, 0, 0, 0);
    assert_eq!(empty.status, SyncStatus::Success);

    let partial = SyncReport::from_counts("team:2".to_string(), 5, 3, 0, 4);
    assert_eq!(partial.status, SyncStatus::PartialFailure);
    assert_eq!(partial.error, Some("3 items failed".to_string()));

    let by_batch = SyncReport::from_counts("team:2".to_string(), 0, 2, 1, 3);
    assert_eq!(by_batch.status, SyncStatus::PartialFailure);
    assert_eq!(by_batch.error, Some("2 items failed".to_string()));

    let failed = SyncReport::from_counts("team:2".to_string(), 0, 1, 0, 1);
    assert_eq!(failed.status, SyncStatus::Failed);
    assert_eq!(failed.error, Some("1 items failed".to_string()));

    let many = SyncReport::from_counts("x".to_string(), 0, u64::MAX, 0, 0);
    assert_eq!(many.error, Some("18446744073709551615 items failed".to_string()));
}

#[test]
fn backoff_grows_and_then_stays() {
    assert_eq!(backoff_seconds(0), 60);
    assert_eq!(backoff_seconds(1), 120);
    assert_eq!(backoff_seconds(2), 240);
    assert_eq!(backoff_seconds(3), 240);
    assert_eq!(backoff_seconds(u32::MAX), 240);
    assert_eq!(MAX_RETRIES, 3);
}

#[test]
fn a_sustained_rate_limit_is_retried_three_times() {
    let mut state = RetryState::new();
    assert_eq!(state.attempt(), 0);
    assert_eq!(state.on_outcome(CallOutcome::RateLimited), RetryStep::Wait { seconds: 60 });
    assert_eq!(state.attempt(), 1);
    assert_eq!(state.on_outcome(CallOutcome::RateLimited), RetryStep::Wait { seconds: 120 });
    assert_eq!(state.on_outcome(CallOutcome::RateLimited), RetryStep::Wait { seconds: 240 });
    assert_eq!(state.attempt(), 3);
    assert_eq!(state.on_outcome(CallOutcome::RateLimited), RetryStep::Propagate);
    assert_eq!(state.attempt(), 3);
}

#[test]
fn other_errors_are_never_retried() {
    let mut state = RetryState::new();
    assert_eq!(state.on_outcome(CallOutcome::Failed), RetryStep::Propagate);
    assert_eq!(state.attempt(), 0);
    let mut later = RetryState::new();
    assert_eq!(later.on_outcome(CallOutcome::RateLimited), RetryStep::Wait { seconds: 60 });
    assert_eq!(later.on_outcome(CallOutcome::Failed), RetryStep::Propagate);
    assert_eq!(later.attempt(), 1);
}

#[test]
fn a_call_that_gets_through_after_a_wait_returns() {
    let mut state = RetryState::new();
    assert_eq!(state.on_outcome(CallOutcome::Succeeded), RetryStep::Return);
    let mut second = RetryState::new();
    assert_eq!(second.on_outcome(CallOutcome::RateLimited), RetryStep::Wait { seconds: 60 });
    assert_eq!(second.on_outcome(CallOutcome::RateLimited), RetryStep::Wait { seconds: 120 });
    assert_eq!(second.on_outcome(CallOutcome::Succeeded), RetryStep::Return);
}

#[test]
fn rate_limits_are_told_by_the_message() {
    assert!(is_429_error("API error: 429 Too Many Requests"));
    assert!(is_429_error("API error: Rate Limit Enforced"));
    assert!(is_429_error("you hit the RATE LIMIT"));
    assert!(!is_429_error("resource not found: 12345"));
    assert!(!is_429_error("validation error: name is required"));
    assert!(!is_429_error("rate-limit"));
    assert!(!is_429_error(""));
    // The second text is taken as the lower-case form of the first.
    assert!(is_rate_limit_text("Rate Limit", "rate limit"));
    assert!(!is_rate_limit_text("Rate Limit", "Rate Limit"));
    assert!(is_rate_limit_text("code 429", ""));
}

fn event(kind: &str, action: &str, gid: &str, parent: Option<&str>) -> ChangeEvent {
    ChangeEvent {
        resource_type: Some(kind.to_string()),
        event_type: None,
        resource_gid: gid.to_string(),
        action: action.to_string(),
        parent_gid: parent.map(|p| p.to_string()),
        parent_type: parent.map(|_| "task".to_string()),
    }
}

#[test]
fn events_are_read_by_kind_and_action() {
    let task = |gid: &str| Change::Task { gid: gid.to_string() };
    assert_eq!(classify_event(&event("task", "changed", "1", None)), task("1"));
    assert_eq!(classify_event(&event("task", "added", "1", None)), task("1"));
    assert_eq!(classify_event(&event("task", "undeleted", "1", None)), task("1"));
    assert_eq!(classify_event(&event("task", "removed", "1", None)), Change::Ignored);
    assert_eq!(classify_event(&event("task", "deleted", "1", None)), Change::Ignored);
    assert_eq!(classify_event(&event("task", "moved", "1", None)), Change::Ignored);
    assert_eq!(classify_event(&event("story", "added", "9", Some("1"))), task("1"));
    assert_eq!(classify_event(&event("story", "changed", "9", Some("1"))), task("1"));
    assert_eq!(classify_event(&event("story", "added", "9", None)), Change::Ignored);
    assert_eq!(classify_event(&event("story", "removed", "9", Some("1"))), Change::Ignored);
    assert_eq!(classify_event(&event("story", "undeleted", "9", Some("1"))), Change::Ignored);
    assert_eq!(classify_event(&event("section", "added", "3", None)), Change::Sections);
    assert_eq!(classify_event(&event("section", "removed", "3", None)), Change::Sections);
    assert_eq!(classify_event(&event("section", "whatever", "3", None)), Change::Sections);
    assert_eq!(classify_event(&event("project", "changed", "4", None)), Change::Project);
    assert_eq!(classify_event(&event("project", "added", "4", None)), Change::Ignored);
    assert_eq!(
        classify_event(&event("status_update", "added", "5", None)),
        Change::StatusUpdates
    );
    assert_eq!(
        classify_event(&event("status_update", "changed", "5", None)),
        Change::StatusUpdates
    );
    assert_eq!(classify_event(&event("status_update", "removed", "5", None)), Change::Ignored);
    assert_eq!(classify_event(&event("goal", "changed", "6", None)), Change::Ignored);
    assert_eq!(classify_event(&event("Task", "changed", "6", None)), Change::Ignored);
    assert_eq!(classify_event(&event("", "changed", "6", None)), Change::Ignored);
}

#[test]
fn a_comment_counts_only_where_its_parent_is_a_task() {
    let on_task = event("story", "added", "9", Some("1"));
    assert_eq!(on_task.parent_task(), Some(&"1".to_string()));
    assert_eq!(classify_event(&on_task), Change::Task { gid: "1".to_string() });

    let mut on_project = event("story", "added", "9", Some("1"));
    on_project.parent_type = Some("project".to_string());
    assert_eq!(on_project.parent_task(), None);
    assert_eq!(classify_event(&on_project), Change::Ignored);

    let mut untyped = event("story", "changed", "9", Some("1"));
    untyped.parent_type = None;
    assert_eq!(classify_event(&untyped), Change::Ignored);

    let mut nameless = event("story", "changed", "9", None);
    nameless.parent_type = Some("task".to_string());
    assert_eq!(classify_event(&nameless), Change::Ignored);

    let summary = classify_events(&[on_project, untyped, on_task]);
    assert_eq!(summary.changed_task_gids, vec!["1".to_string()]);
}

#[test]
fn the_type_of_the_event_stands_in_for_that_of_the_resource() {
    let mut by_event = event("task", "changed", "1", None);
    by_event.resource_type = None;
    by_event.event_type = Some("task".to_string());
    assert_eq!(by_event.kind(), ResourceKind::Task);
    assert_eq!(classify_event(&by_event), Change::Task { gid: "1".to_string() });

    let mut both = event("section", "changed", "1", None);
    both.event_type = Some("task".to_string());
    assert_eq!(both.kind(), ResourceKind::Section);

    let mut neither = event("task", "changed", "1", None);
    neither.resource_type = None;
    assert_eq!(neither.kind(), ResourceKind::Other);
    assert_eq!(classify_event(&neither), Change::Ignored);

    assert_eq!(parse_kind("story"), ResourceKind::Story);
    assert_eq!(parse_kind("status_update"), ResourceKind::StatusUpdate);
    assert_eq!(parse_kind("project"), ResourceKind::Project);
    assert_eq!(parse_kind("portfolio"), ResourceKind::Other);
    assert_eq!(parse_action("changed"), EventAction::Changed);
    assert_eq!(parse_action("added"), EventAction::Added);
    assert_eq!(parse_action("removed"), EventAction::Removed);
    assert_eq!(parse_action("deleted"), EventAction::Deleted);
    assert_eq!(parse_action("undeleted"), EventAction::Undeleted);
    assert_eq!(parse_action("Changed"), EventAction::Other);
}

#[test]
fn a_batch_of_events_names_each_task_once() {
    let events = vec![
        event("task", "changed", "2", None),
        event("story", "added", "90", Some("1")),
        event("task", "added", "2", None),
        event("task", "removed", "3", None),
        event("task", "undeleted", "1", None),
        event("section", "changed", "7", None),
        event("story", "added", "91", Some("4")),
    ];
    let summary = classify_events(&events);
    assert_eq!(
        summary,
        EventSummary {
            changed_task_gids: vec!["2".to_string(), "1".to_string(), "4".to_string()],
            project_changed: false,
            sections_changed: true,
            status_updates_changed: false,
        }
    );
    assert!(summary.has_changes());
    assert_eq!(
        summary.to_progress_summary(),
        IncrementalSyncSummary {
            tasks_changed: 3,
            project_changed: false,
            sections_changed: true,
            status_updates_changed: false,
        }
    );
}

#[test]
fn events_that_ask_for_nothing_leave_an_empty_summary() {
    let none = classify_events(&[]);
    assert_eq!(none, EventSummary::new());
    assert!(!none.has_changes());
    let ignored = classify_events(&[
        event("task", "removed", "1", None),
        event("project", "added", "2", None),
        event("tag", "changed", "3", None),
    ]);
    assert!(!ignored.has_changes());
    assert!(ignored.changed_task_gids.is_empty());
    let flags = classify_events(&[
        event("project", "changed", "2", None),
        event("status_update", "added", "3", None),
    ]);
    assert!(flags.has_changes());
    assert!(flags.project_changed && flags.status_updates_changed && !flags.sections_changed);
    assert_eq!(flags.to_progress_summary().tasks_changed, 0);
}

#[test]
fn the_lookback_window_starts_where_the_options_say() {
    let today = d(2025, 6, 30);
    let by_date = SyncOptions { since: Some(d(2025, 1, 15)), days: Some(7), full: false };
    assert_eq!(by_date.since_date(today), Some(d(2025, 1, 15)));
    assert_eq!(by_date.lookback_start(today), d(2025, 1, 15));
    let by_days = SyncOptions { since: None, days: Some(30), full: false };
    assert_eq!(by_days.since_date(today), Some(d(2025, 5, 31)));
    assert_eq!(by_days.lookback_start(today), d(2025, 5, 31));
    let zero = SyncOptions { since: None, days: Some(0), full: true };
    assert_eq!(zero.since_date(today), Some(today));
    let default = SyncOptions { since: None, days: None, full: false };
    assert_eq!(default.since_date(today), None);
    assert_eq!(default.lookback_start(today), d(2025, 4, 1));
    assert_eq!(DEFAULT_LOOKBACK_DAYS, 90);
}

#[test]
fn sync_options_are_made_from_the_command_line() {
    let options = make_sync_options(Some(14), Some("2025-02-03"));
    assert_eq!(options.since, Some(d(2025, 2, 3)));
    assert_eq!(options.days, Some(14));
    assert!(!options.full);
    let unreadable = make_sync_options(None, Some("03/02/2025"));
    assert_eq!(unreadable.since, None);
    assert_eq!(unreadable.days, None);
    let none = make_sync_options(None, None);
    assert_eq!(none.since, None);
}

#[test]
fn the_silent_progress_takes_every_callback() {
    let progress = NoopProgress;
    progress.on_entity_start("project:1", 0, 1);
    progress.on_tasks_fetched("project:1", 3);
    progress.on_comments_skipped("project:1", 1, 3);
    progress.on_comments_progress("project:1", 1, 2);
    progress.on_status_updates_synced("project:1", 0);
    progress.on_incremental_sync(
        "project:1",
        &IncrementalSyncSummary {
            tasks_changed: 0,
            project_changed: false,
            sections_changed: false,
            status_updates_changed: false,
        },
    );
    progress.on_entity_complete(&SyncReport::from_counts("project:1".to_string(), 3, 0, 1, 1));
}
