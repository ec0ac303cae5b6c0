//! The synchronisation engine: what to fetch, in which order, and what to
//! report, decided from plain values.

pub mod api_helpers;
pub mod events;
pub mod gap;
pub mod moment;
pub mod plan;
pub mod project;
pub mod rate_limit;
pub mod syncer;
pub mod writes;

use crate::date::{in_range, parsed_ymd, Date};
use crate::text::{decimal, push_decimal};
use vstd::prelude::*;
use vstd::string::StringExecFns;

verus! {

/// How many days back a full sync looks when the caller names neither a date
/// nor a number of days.
pub const DEFAULT_LOOKBACK_DAYS: u32 = 90;

/// What an incremental sync found changed, by kind of resource.
#[derive(Debug, Clone, Copy, PartialEq, Eq)]
pub struct IncrementalSyncSummary {
    pub tasks_changed: usize,
    pub project_changed: bool,
    pub sections_changed: bool,
    pub status_updates_changed: bool,
}

/// Callbacks on the progress of a sync, in the order in which a sync reaches
/// them. Every method does nothing unless an implementor overrides it.
///
/// Only tasks count towards `items_synced` of a [`SyncReport`]; status
/// updates, sections and project metadata have callbacks of their own.
pub trait SyncProgress: Send + Sync {
    fn on_entity_start(&self, _entity_key: &str, _index: usize, _total: usize) {
    }

    fn on_tasks_fetched(&self, _entity_key: &str, _count: usize) {
    }

    fn on_comments_skipped(&self, _entity_key: &str, _skipped: usize, _total: usize) {
    }

    fn on_comments_progress(&self, _entity_key: &str, _current: usize, _total: usize) {
    }

    fn on_status_updates_synced(&self, _entity_key: &str, _count: usize) {
    }

    fn on_incremental_sync(&self, _entity_key: &str, _summary: &IncrementalSyncSummary) {
    }

    fn on_entity_complete(&self, _report: &SyncReport) {
    }
}

/// A [`SyncProgress`] that ignores every callback.
pub struct NoopProgress;

impl SyncProgress for NoopProgress {

}

/// What the caller asks of a sync.
#[derive(Debug, Clone, Copy)]
pub struct SyncOptions {
    /// Look back to this day.
    pub since: Option<Date>,
    /// Look back this many days from today; used when `since` is not set.
    pub days: Option<u32>,
    /// Do a full sync even where an event cursor is on record.
    pub full: bool,
}

/// The day that [`SyncOptions::since_date`] names, as a day number: the
/// explicit day, else `today` less the number of days, else nothing.
pub open spec fn since_days(options: SyncOptions, today: int) -> Option<int> {
    match options.since {
        Some(d) => Some(d@),
        None => match options.days {
            Some(n) => Some(today - n),
            None => None,
        },
    }
}

/// The first day of the lookback window of a full sync, as a day number: the
/// day that the options name, else [`DEFAULT_LOOKBACK_DAYS`] before `today`.
pub open spec fn lookback_days(options: SyncOptions, today: int) -> int {
    match since_days(options, today) {
        Some(d) => d,
        None => today - DEFAULT_LOOKBACK_DAYS,
    }
}

impl SyncOptions {
    /// The day to look back to, if the options name one. `today` is the
    /// current day; the day so many days before it must be in range.
    pub fn since_date(&self, today: Date) -> (since: Option<Date>)
        requires
            since_days(*self, today@) matches Some(d) ==> in_range(d),
        ensures
            crate::sync::gap::day_of(since) == since_days(*self, today@),
    {
        match self.since {
            Some(d) => Some(d),
            None => match self.days {
                Some(n) => {
                    let back: i64 = today.days_from_ce() as i64 - n as i64;
                    Date::from_days_ce(back as i32)
                },
                None => None,
            },
        }
    }

    /// The first day of the lookback window of a full sync. The day must be
    /// in range.
    pub fn lookback_start(&self, today: Date) -> (start: Date)
        requires
            in_range(lookback_days(*self, today@)),
        ensures
            start@ == lookback_days(*self, today@),
    {
        match self.since_date(today) {
            Some(d) => d,
            None => {
                let back: i32 = today.days_from_ce() - (DEFAULT_LOOKBACK_DAYS as i32);
                Date::from_days_ce(back).unwrap()
            },
        }
    }
}

/// The options of a sync that looks back so many days, or to the day that
/// `since` writes as year, month and day; a text that writes no day counts
/// as none. The sync is not forced to be a full one.
pub fn make_sync_options(days: Option<u32>, since: Option<&str>) -> (options: SyncOptions)
    ensures
        options.days == days,
        !options.full,
        crate::sync::gap::day_of(options.since) == match since {
            Some(text) => parsed_ymd(text@),
            None => None,
        },
{
    let since = match since {
        Some(text) => Date::parse_ymd(text),
        None => None,
    };
    SyncOptions { since, days, full: false }
}

/// How a sync ended.
#[derive(Debug, Clone, Copy, PartialEq, Eq, Structural)]
pub enum SyncStatus {
    Success,
    PartialFailure,
    Failed,
}

/// The status that the counts of a sync give: success when nothing failed;
/// a partial failure when something failed but an item was synced or a batch
/// completed; failure otherwise.
pub open spec fn status_for(items_synced: u64, items_failed: u64, batches_completed: u32)
    -> SyncStatus {
    if items_failed == 0 {
        SyncStatus::Success
    } else if items_synced > 0 || batches_completed > 0 {
        SyncStatus::PartialFailure
    } else {
        SyncStatus::Failed
    }
}

/// The text that a report carries when `items_failed` items failed.
pub open spec fn failure_text(items_failed: u64) -> Seq<char> {
    decimal(items_failed as nat) + " items failed"@
}

/// What a sync hands back to its caller.
#[derive(Debug, Clone, PartialEq, Eq)]
pub struct SyncReport {
    pub entity_key: String,
    pub status: SyncStatus,
    pub items_synced: u64,
    pub items_failed: u64,
    pub batches_completed: u32,
    pub batches_total: u32,
    pub error: Option<String>,
}

/// A [`SyncReport`] with its texts as sequences of characters.
pub struct SyncReportView {
    pub entity_key: Seq<char>,
    pub status: SyncStatus,
    pub items_synced: u64,
    pub items_failed: u64,
    pub batches_completed: u32,
    pub batches_total: u32,
    pub error: Option<Seq<char>>,
}

impl View for SyncReport {
    type V = SyncReportView;

    open spec fn view(&self) -> SyncReportView {
        SyncReportView {
            entity_key: self.entity_key@,
            status: self.status,
            items_synced: self.items_synced,
            items_failed: self.items_failed,
            batches_completed: self.batches_completed,
            batches_total: self.batches_total,
            error: match self.error {
                Some(e) => Some(e@),
                None => None,
            },
        }
    }
}

/// The report that [`SyncReport::from_counts`] makes of a key and counts.
pub open spec fn report_from_counts(
    entity_key: Seq<char>,
    items_synced: u64,
    items_failed: u64,
    batches_completed: u32,
    batches_total: u32,
) -> SyncReportView {
    SyncReportView {
        entity_key,
        status: status_for(items_synced, items_failed, batches_completed),
        items_synced,
        items_failed,
        batches_completed,
        batches_total,
        error: if items_failed > 0 {
            Some(failure_text(items_failed))
        } else {
            None
        },
    }
}

impl SyncReport {
    /// A report whose status follows from its counts.
    pub fn from_counts(
        entity_key: String,
        items_synced: u64,
        items_failed: u64,
        batches_completed: u32,
        batches_total: u32,
    ) -> (report: SyncReport)
        ensures
            report@ == report_from_counts(
                entity_key@,
                items_synced,
                items_failed,
                batches_completed,
                batches_total,
            ),
            items_failed == 0 ==> report.status == SyncStatus::Success,
            items_failed > 0 && items_synced > 0 ==> report.status == SyncStatus::PartialFailure,
            items_failed > 0 && items_synced == 0 && batches_completed == 0 ==> report.status
                == SyncStatus::Failed,
    {
        let status = if items_failed == 0 {
            SyncStatus::Success
        } else if items_synced > 0 || batches_completed > 0 {
            SyncStatus::PartialFailure
        } else {
            SyncStatus::Failed
        };
        let error = if items_failed > 0 {
            let mut text = String::new();
            push_decimal(&mut text, items_failed);
            text.append(" items failed");
            proof {
                assert(text@ =~= failure_text(items_failed));
            }
            Some(text)
        } else {
            None
        };
        SyncReport {
            entity_key,
            status,
            items_synced,
            items_failed,
            batches_completed,
            batches_total,
            error,
        }
    }
}

} // verus!
