use asanadw::date::Date;
use asanadw::storage::repository::MonitoredEntity;
use asanadw::sync::plan::{ChildRef, Directive, EntityKind, Fault, Notice, Reply, Request};
use asanadw::sync::syncer::{
    add_capped, parse_entity_kind, sync_all, sync_portfolio, sync_team, sync_user, ContainerSync,
    SyncAll, UserSync,
};
use asanadw::sync::{SyncOptions, SyncReport, SyncStatus};

fn d(y: i32, m: u32, day: u32) -> Date {
    Date::from_ymd_opt(y, m, day).unwrap()
}

fn failed(message: &str) -> Reply {
    Reply::Failed { message: message.to_string() }
}

fn fault(message: &str) -> Request {
    Request::Fail { fault: Fault::Reported { message: message.to_string() } }
}

fn child(gid: &str, kind: &str, archived: bool) -> ChildRef {
    ChildRef { gid: gid.to_string(), resource_type: kind.to_string(), archived }
}

fn report(key: &str, synced: u64, failed: u64) -> SyncReport {
    SyncReport::from_counts(key.to_string(), synced, failed, 1, 1)
}

fn run_user(first: (UserSync, Directive), replies: Vec<Reply>) -> (UserSync, Vec<Directive>) {
    let (mut sync, directive) = first;
    let mut seen = vec![directive];
    for reply in replies {
        let (next, directive) = sync.step(reply);
        sync = next;
        seen.push(directive);
    }
    (sync, seen)
}

fn run_container(
    first: (ContainerSync, Directive),
    replies: Vec<Reply>,
) -> (ContainerSync, Vec<Directive>) {
    let (mut sync, directive) = first;
    let mut seen = vec![directive];
    for reply in replies {
        let (next, directive) = sync.step(reply);
        sync = next;
        seen.push(directive);
    }
    (sync, seen)
}

fn run_all(first: (SyncAll, Directive), replies: Vec<Reply>) -> (SyncAll, Vec<Directive>) {
    let (mut sync, directive) = first;
    let mut seen = vec![directive];
    for reply in replies {
        let (next, directive) = sync.step(reply);
        sync = next;
        seen.push(directive);
    }
    (sync, seen)
}

fn requests(seen: &[Directive]) -> Vec<Request> {
    seen.iter().map(|d| d.request.clone()).collect()
}

#[test]
fn a_user_sync_writes_each_task_it_finds() {
    let options = SyncOptions { since: None, days: Some(10), full: false };
    let first = sync_user("42", &options, d(2025, 6, 30));
    let replies = vec![
        Reply::JobOpened { job: 3 },
        Reply::Fetched { count: 2 },
        Reply::Done,
        Reply::Done,
        Reply::Done,
    ];
    let (sync, seen) = run_user(first, replies);
    assert_eq!(
        requests(&seen),
        vec![
            Request::OpenJob { since: d(2025, 6, 20), until: d(2025, 6, 30) },
            Request::SearchTasks { modified_since: d(2025, 6, 20) },
            Request::StoreTask { index: 0 },
            Request::StoreTask { index: 1 },
            Request::CloseJob { job: 3, synced: 2, failed: 0 },
            Request::Finish {
                report: SyncReport {
                    entity_key: "user:42".to_string(),
                    status: SyncStatus::Success,
                    items_synced: 2,
                    items_failed: 0,
                    batches_completed: 1,
                    batches_total: 1,
                    error: None,
                },
            },
        ]
    );
    assert_eq!(seen[2].notices, vec![Notice::TasksFetched { count: 2 }]);
    assert!(sync.is_over());
}

#[test]
fn a_user_sync_gives_up_on_the_first_failure() {
    let options = SyncOptions { since: None, days: None, full: false };
    let good = vec![Reply::JobOpened { job: 3 }, Reply::Fetched { count: 1 }, Reply::Done];
    for cut in 0..=good.len() {
        let mut replies: Vec<Reply> = good[..cut].to_vec();
        replies.push(failed("boom"));
        let (sync, seen) = run_user(sync_user("42", &options, d(2025, 6, 30)), replies);
        assert_eq!(seen.last().unwrap().request, fault("boom"));
        assert!(sync.is_over());
    }
    let (_, seen) = run_user(
        sync_user("42", &options, d(2025, 6, 30)),
        vec![Reply::JobOpened { job: 3 }, Reply::Fetched { count: 0 }],
    );
    assert_eq!(seen[0].request, Request::OpenJob { since: d(2025, 4, 1), until: d(2025, 6, 30) });
    assert_eq!(seen[2].request, Request::CloseJob { job: 3, synced: 0, failed: 0 });
    let (_, seen) =
        run_user(sync_user("42", &options, d(2025, 6, 30)), vec![Reply::TaskMissing]);
    assert_eq!(seen[1].request, Request::Fail { fault: Fault::UnexpectedReply });
}

#[test]
fn a_team_syncs_its_projects_and_adds_up_their_reports() {
    let children = vec![
        child("10", "project", false),
        child("11", "project", true),
        child("12", "project", false),
        child("13", "project", false),
    ];
    let replies = vec![
        Reply::Fetched { count: 3 },
        Reply::Done,
        Reply::Children { children },
        Reply::Synced { report: report("project:10", 7, 0) },
        failed("project 12 is gone"),
        Reply::Synced { report: report("project:13", 5, 2) },
    ];
    let (sync, seen) = run_container(sync_team("900"), replies);
    assert_eq!(
        requests(&seen),
        vec![
            Request::FetchMembers,
            Request::StoreMembers,
            Request::ListChildren,
            Request::SyncChild { gid: "10".to_string() },
            Request::SyncChild { gid: "12".to_string() },
            Request::SyncChild { gid: "13".to_string() },
            Request::Finish {
                report: SyncReport {
                    entity_key: "team:900".to_string(),
                    status: SyncStatus::PartialFailure,
                    items_synced: 12,
                    items_failed: 3,
                    batches_completed: 3,
                    batches_total: 4,
                    error: Some("3 items failed".to_string()),
                },
            },
        ]
    );
    assert!(sync.is_over());
}

#[test]
fn a_team_without_projects_succeeds() {
    let replies = vec![
        Reply::Fetched { count: 0 },
        Reply::Done,
        Reply::Children { children: vec![child("11", "project", true)] },
    ];
    let (_, seen) = run_container(sync_team("900"), replies);
    assert_eq!(
        seen[3].request,
        Request::Finish {
            report: SyncReport {
                entity_key: "team:900".to_string(),
                status: SyncStatus::Success,
                items_synced: 0,
                items_failed: 0,
                batches_completed: 1,
                batches_total: 1,
                error: None,
            },
        }
    );
}

#[test]
fn a_team_whose_projects_all_fail_is_failed() {
    let replies = vec![
        Reply::Fetched { count: 0 },
        Reply::Done,
        Reply::Children { children: vec![child("1", "project", false), child("2", "project", false)] },
        failed("a"),
        failed("b"),
    ];
    let (_, seen) = run_container(sync_team("900"), replies);
    assert_eq!(
        seen[5].request,
        Request::Finish {
            report: SyncReport {
                entity_key: "team:900".to_string(),
                status: SyncStatus::Failed,
                items_synced: 0,
                items_failed: 2,
                batches_completed: 0,
                batches_total: 2,
                error: Some("2 items failed".to_string()),
            },
        }
    );
}

#[test]
fn a_portfolio_links_each_project_it_synced() {
    let children = vec![
        child("20", "portfolio", false),
        child("21", "project", false),
        child("22", "project", false),
    ];
    let replies = vec![
        Reply::Fetched { count: 1 },
        Reply::Done,
        Reply::Fetched { count: 2 },
        Reply::Done,
        Reply::Children { children },
        Reply::Synced { report: report("project:21", 4, 0) },
        Reply::Done,
        failed("project 22 is gone"),
    ];
    let (sync, seen) = run_container(sync_portfolio("800"), replies);
    assert_eq!(
        requests(&seen),
        vec![
            Request::FetchContainer,
            Request::StoreContainer,
            Request::FetchStatusUpdates,
            Request::StoreStatusUpdates,
            Request::ListChildren,
            Request::SyncChild { gid: "21".to_string() },
            Request::LinkChild { gid: "21".to_string() },
            Request::SyncChild { gid: "22".to_string() },
            Request::Finish {
                report: SyncReport {
                    entity_key: "portfolio:800".to_string(),
                    status: SyncStatus::PartialFailure,
                    items_synced: 4,
                    items_failed: 1,
                    batches_completed: 1,
                    batches_total: 2,
                    error: Some("1 items failed".to_string()),
                },
            },
        ]
    );
    assert_eq!(seen[3].notices, vec![Notice::StatusUpdatesSynced { count: 2 }]);
    assert!(sync.is_over());
}

#[test]
fn a_portfolio_fails_when_its_own_writes_fail() {
    let (_, seen) = run_container(sync_portfolio("800"), vec![failed("404")]);
    assert_eq!(seen[1].request, fault("404"));
    let (_, seen) =
        run_container(sync_portfolio("800"), vec![Reply::Fetched { count: 1 }, failed("locked")]);
    assert_eq!(seen[2].request, fault("locked"));
    let replies = vec![
        Reply::Fetched { count: 1 },
        Reply::Done,
        Reply::Fetched { count: 0 },
        Reply::Children { children: vec![child("21", "project", false)] },
        Reply::Synced { report: report("project:21", 4, 0) },
        failed("link not written"),
    ];
    let (sync, seen) = run_container(sync_portfolio("800"), replies);
    // Without status updates there is nothing to write before the listing.
    assert_eq!(seen[3].request, Request::ListChildren);
    assert_eq!(seen[3].notices, vec![Notice::StatusUpdatesSynced { count: 0 }]);
    assert_eq!(seen[6].request, fault("link not written"));
    assert!(sync.is_over());
    let (_, seen) = run_container(sync_team("900"), vec![Reply::Done]);
    assert_eq!(seen[1].request, Request::Fail { fault: Fault::UnexpectedReply });
}

fn entity(kind: &str, gid: &str) -> MonitoredEntity {
    MonitoredEntity {
        entity_key: format!("{}:{}", kind, gid),
        entity_type: kind.to_string(),
        entity_gid: gid.to_string(),
        display_name: None,
        added_at: "2025-01-01 00:00:00".to_string(),
        last_sync_at: None,
        sync_enabled: true,
    }
}

#[test]
fn all_entities_are_synced_in_order_and_failures_stay_contained() {
    let entities = vec![
        entity("project", "1"),
        entity("goal", "2"),
        entity("user", "3"),
        entity("team", "4"),
        entity("portfolio", "5"),
    ];
    let replies = vec![
        failed("identity unknown"),
        Reply::Entities { entities },
        Reply::Synced { report: report("project:1", 3, 0) },
        failed("user 3 cannot be searched"),
        Reply::Synced { report: report("team:4", 1, 1) },
        Reply::Synced { report: report("portfolio:5", 0, 0) },
    ];
    let (sync, seen) = run_all(sync_all(), replies);
    let failure = SyncReport {
        entity_key: "user:3".to_string(),
        status: SyncStatus::Failed,
        items_synced: 0,
        items_failed: 1,
        batches_completed: 0,
        batches_total: 0,
        error: Some("user 3 cannot be searched".to_string()),
    };
    assert_eq!(
        requests(&seen),
        vec![
            Request::EnsureIdentity,
            Request::ListEntities,
            Request::SyncEntity { index: 0, kind: EntityKind::Project, gid: "1".to_string() },
            Request::SyncEntity { index: 2, kind: EntityKind::User, gid: "3".to_string() },
            Request::SyncEntity { index: 3, kind: EntityKind::Team, gid: "4".to_string() },
            Request::SyncEntity { index: 4, kind: EntityKind::Portfolio, gid: "5".to_string() },
            Request::FinishAll {
                reports: vec![
                    report("project:1", 3, 0),
                    failure.clone(),
                    report("team:4", 1, 1),
                    report("portfolio:5", 0, 0),
                ],
            },
        ]
    );
    assert_eq!(seen[2].notices, vec![Notice::EntityStart { index: 0, total: 5 }]);
    assert_eq!(
        seen[3].notices,
        vec![
            Notice::EntityComplete { report: 0 },
            Notice::EntityStart { index: 1, total: 5 },
            Notice::EntityStart { index: 2, total: 5 },
        ]
    );
    assert_eq!(
        seen[4].notices,
        vec![Notice::EntityComplete { report: 1 }, Notice::EntityStart { index: 3, total: 5 }]
    );
    assert_eq!(seen[6].notices, vec![Notice::EntityComplete { report: 3 }]);
    assert!(sync.is_over());
}

#[test]
fn reports_can_be_read_while_the_sync_of_all_runs() {
    let replies = vec![
        Reply::Done,
        Reply::Entities { entities: vec![entity("project", "1"), entity("project", "2")] },
        failed("offline"),
    ];
    let (sync, seen) = run_all(sync_all(), replies);
    assert_eq!(
        seen[3].request,
        Request::SyncEntity { index: 1, kind: EntityKind::Project, gid: "2".to_string() }
    );
    assert_eq!(sync.entities().len(), 2);
    assert_eq!(sync.reports().len(), 1);
    assert_eq!(sync.reports()[0].status, SyncStatus::Failed);
    assert_eq!(sync.reports()[0].entity_key, "project:1");
    assert_eq!(sync.reports()[0].error, Some("offline".to_string()));
    assert!(!sync.is_over());
}

#[test]
fn nothing_monitored_ends_with_no_reports() {
    let (sync, seen) =
        run_all(sync_all(), vec![Reply::Done, Reply::Entities { entities: vec![] }]);
    assert_eq!(seen[2].request, Request::FinishAll { reports: vec![] });
    assert!(seen[2].notices.is_empty());
    assert!(sync.is_over());
    let (_, seen) = run_all(
        sync_all(),
        vec![Reply::Done, Reply::Entities { entities: vec![entity("goal", "1")] }],
    );
    assert_eq!(seen[2].request, Request::FinishAll { reports: vec![] });
    assert_eq!(seen[2].notices, vec![Notice::EntityStart { index: 0, total: 1 }]);
    let (_, seen) = run_all(sync_all(), vec![Reply::Done, failed("locked")]);
    assert_eq!(seen[2].request, fault("locked"));
}

#[test]
fn entity_kinds_are_read_from_their_names() {
    assert_eq!(parse_entity_kind("project"), Some(EntityKind::Project));
    assert_eq!(parse_entity_kind("user"), Some(EntityKind::User));
    assert_eq!(parse_entity_kind("team"), Some(EntityKind::Team));
    assert_eq!(parse_entity_kind("portfolio"), Some(EntityKind::Portfolio));
    assert_eq!(parse_entity_kind("Project"), None);
    assert_eq!(parse_entity_kind(""), None);
}

#[test]
fn counts_are_added_without_running_over() {
    assert_eq!(add_capped(2, 3), 5);
    assert_eq!(add_capped(u64::MAX, 1), u64::MAX);
    assert_eq!(add_capped(u64::MAX - 1, 1), u64::MAX);
    assert_eq!(add_capped(1, u64::MAX), u64::MAX);
    assert_eq!(add_capped(0, 0), 0);
}
