use asanadw::date::Date;
use asanadw::metrics::types::{throughput, CollaborationMetrics, ThroughputMetrics};
use asanadw::search::{SearchHitType, SearchOptions};
use asanadw::storage::repository::{
    can_take_date_key, compute_days_to_complete, compute_is_overdue, date_key_from_iso,
    days_to_complete, is_overdue_on,
};
use chrono::Datelike;

fn today() -> Date {
    Date::from_days_ce(chrono::Local::now().date_naive().num_days_from_ce()).unwrap()
}

fn d(y: i32, m: u32, day: u32) -> Date {
    Date::from_ymd_opt(y, m, day).unwrap()
}

#[test]
fn test_date_key_from_iso() {
    assert_eq!(date_key_from_iso("2025-01-15T10:30:00.000Z"), "2025-01-15");
    assert_eq!(date_key_from_iso("2025-01-15"), "2025-01-15");
}

#[test]
fn test_compute_is_overdue() {
    // Completed task is never overdue
    assert!(!compute_is_overdue(true, Some("2020-01-01"), today()));
    // No due date means not overdue
    assert!(!compute_is_overdue(false, None, today()));
    // Future due date means not overdue
    assert!(!compute_is_overdue(false, Some("2099-12-31"), today()));
    // Past due date means overdue
    assert!(compute_is_overdue(false, Some("2020-01-01"), today()));
}

#[test]
fn test_compute_days_to_complete() {
    assert_eq!(
        compute_days_to_complete("2025-01-01T00:00:00Z", Some("2025-01-11T00:00:00Z")),
        Some(10)
    );
    assert_eq!(compute_days_to_complete("2025-01-01", None), None);
}

#[test]
fn short_and_odd_time_stamps_keep_their_text() {
    assert_eq!(date_key_from_iso("2025"), "2025");
    assert_eq!(date_key_from_iso(""), "");
    assert_eq!(date_key_from_iso("ééééé-more"), "ééééé");
    assert!(can_take_date_key("2025-01-15T10:30:00.000Z"));
    assert!(can_take_date_key("short"));
    assert!(can_take_date_key("ééééé-more"));
    // Ten bytes in, this stamp is in the middle of a character.
    assert!(!can_take_date_key("123456789é"));
}

#[test]
fn a_task_due_today_is_not_overdue() {
    let day = d(2025, 3, 10);
    assert!(!compute_is_overdue(false, Some("2025-03-10"), day));
    assert!(compute_is_overdue(false, Some("2025-03-09"), day));
    assert!(!compute_is_overdue(false, Some("2025-03-11"), day));
    assert!(!compute_is_overdue(false, Some("next week"), day));
    assert!(!compute_is_overdue(true, Some("2025-03-09"), day));
    assert!(is_overdue_on(false, Some(d(2025, 3, 9)), day));
    assert!(!is_overdue_on(false, None, day));
}

#[test]
fn days_to_complete_need_both_days() {
    assert_eq!(compute_days_to_complete("garbage", Some("2025-01-11T00:00:00Z")), None);
    assert_eq!(compute_days_to_complete("2025-01-01T00:00:00Z", Some("soon")), None);
    assert_eq!(
        compute_days_to_complete("2025-01-11T09:00:00Z", Some("2025-01-01T00:00:00Z")),
        Some(-10)
    );
    assert_eq!(
        compute_days_to_complete("2024-02-28", Some("2024-03-01")),
        Some(2)
    );
    assert_eq!(days_to_complete(Some(d(2025, 1, 1)), Some(d(2026, 1, 1))), Some(365));
    assert_eq!(days_to_complete(None, Some(d(2026, 1, 1))), None);
    assert_eq!(days_to_complete(Some(d(2026, 1, 1)), None), None);
}

#[test]
fn throughput_is_the_net_of_created_and_completed() {
    assert_eq!(
        throughput(5, 8),
        ThroughputMetrics { tasks_created: 5, tasks_completed: 8, net_new: -3 }
    );
    assert_eq!(
        ThroughputMetrics::default(),
        ThroughputMetrics { tasks_created: 0, tasks_completed: 0, net_new: 0 }
    );
    assert_eq!(
        CollaborationMetrics::default(),
        CollaborationMetrics { total_comments: 0, unique_commenters: 0, total_likes: 0 }
    );
}

#[test]
fn search_options_default_to_fifty_hits_of_any_kind() {
    let options = SearchOptions::default();
    assert_eq!(options.effective_limit(), 50);
    assert!(options.includes(SearchHitType::Task));
    assert!(options.includes(SearchHitType::CustomField));
    let only = SearchOptions {
        limit: Some(3),
        hit_type: Some(SearchHitType::Comment),
        assignee_gid: None,
        project_gid: None,
    };
    assert_eq!(only.effective_limit(), 3);
    assert!(only.includes(SearchHitType::Comment));
    assert!(!only.includes(SearchHitType::Project));
}
