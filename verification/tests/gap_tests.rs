use asanadw::date::Date;
use asanadw::sync::gap::{find_gaps, merge_ranges, split_into_months, uncovered_ranges, DateRange};

fn d(y: i32, m: u32, day: u32) -> Date {
    Date::from_ymd_opt(y, m, day).unwrap()
}

#[test]
fn test_no_synced_ranges() {
    let gaps = find_gaps(d(2025, 1, 1), d(2025, 3, 31), &[]);
    // Should produce 3 month-aligned batches
    assert_eq!(gaps.len(), 3);
    assert_eq!(gaps[0], DateRange { start: d(2025, 1, 1), end: d(2025, 1, 31) });
    assert_eq!(gaps[1], DateRange { start: d(2025, 2, 1), end: d(2025, 2, 28) });
    assert_eq!(gaps[2], DateRange { start: d(2025, 3, 1), end: d(2025, 3, 31) });
}

#[test]
fn test_fully_synced() {
    let synced = vec![(d(2025, 1, 1), d(2025, 3, 31))];
    let gaps = find_gaps(d(2025, 1, 1), d(2025, 3, 31), &synced);
    assert!(gaps.is_empty());
}

#[test]
fn test_gap_in_middle() {
    let synced = vec![
        (d(2025, 1, 1), d(2025, 1, 31)),
        (d(2025, 3, 1), d(2025, 3, 31)),
    ];
    let gaps = find_gaps(d(2025, 1, 1), d(2025, 3, 31), &synced);
    assert_eq!(gaps.len(), 1);
    assert_eq!(gaps[0], DateRange { start: d(2025, 2, 1), end: d(2025, 2, 28) });
}

#[test]
fn test_gap_at_end() {
    let synced = vec![(d(2025, 1, 1), d(2025, 2, 28))];
    let gaps = find_gaps(d(2025, 1, 1), d(2025, 3, 31), &synced);
    assert_eq!(gaps.len(), 1);
    assert_eq!(gaps[0], DateRange { start: d(2025, 3, 1), end: d(2025, 3, 31) });
}

#[test]
fn test_overlapping_synced_ranges_merged() {
    let synced = vec![
        (d(2025, 1, 1), d(2025, 1, 20)),
        (d(2025, 1, 15), d(2025, 2, 15)),
    ];
    let gaps = find_gaps(d(2025, 1, 1), d(2025, 3, 31), &synced);
    // Gap should start at Feb 16 through Mar 31
    assert!(gaps.len() >= 1);
    assert_eq!(gaps[0].start, d(2025, 2, 16));
}

#[test]
fn test_split_into_months() {
    let batches = split_into_months(d(2025, 1, 15), d(2025, 3, 10));
    assert_eq!(batches.len(), 3);
    assert_eq!(batches[0], DateRange { start: d(2025, 1, 15), end: d(2025, 1, 31) });
    assert_eq!(batches[1], DateRange { start: d(2025, 2, 1), end: d(2025, 2, 28) });
    assert_eq!(batches[2], DateRange { start: d(2025, 3, 1), end: d(2025, 3, 10) });
}

#[test]
fn overlapping_ranges_leave_exact_gaps() {
    let synced = vec![
        (d(2025, 1, 1), d(2025, 1, 20)),
        (d(2025, 1, 15), d(2025, 2, 15)),
    ];
    let gaps = find_gaps(d(2025, 1, 1), d(2025, 3, 31), &synced);
    assert_eq!(
        gaps,
        vec![
            DateRange { start: d(2025, 2, 16), end: d(2025, 2, 28) },
            DateRange { start: d(2025, 3, 1), end: d(2025, 3, 31) },
        ]
    );
}

#[test]
fn desired_start_after_end_yields_no_gaps() {
    let synced = vec![(d(2025, 1, 1), d(2025, 1, 20))];
    assert!(find_gaps(d(2025, 3, 31), d(2025, 1, 1), &synced).is_empty());
    assert!(find_gaps(d(2025, 3, 31), d(2025, 1, 1), &[]).is_empty());
    assert!(split_into_months(d(2025, 3, 31), d(2025, 1, 1)).is_empty());
}

#[test]
fn find_gaps_is_idempotent_once_gaps_are_synced() {
    let mut synced = vec![
        (d(2024, 11, 10), d(2024, 12, 5)),
        (d(2025, 2, 3), d(2025, 2, 3)),
        (d(2025, 1, 20), d(2025, 1, 25)),
    ];
    let first = find_gaps(d(2024, 12, 1), d(2025, 3, 15), &synced);
    assert_eq!(
        first,
        vec![
            DateRange { start: d(2024, 12, 6), end: d(2024, 12, 31) },
            DateRange { start: d(2025, 1, 1), end: d(2025, 1, 19) },
            DateRange { start: d(2025, 1, 26), end: d(2025, 1, 31) },
            DateRange { start: d(2025, 2, 1), end: d(2025, 2, 2) },
            DateRange { start: d(2025, 2, 4), end: d(2025, 2, 28) },
            DateRange { start: d(2025, 3, 1), end: d(2025, 3, 15) },
        ]
    );
    for gap in &first {
        synced.push((gap.start, gap.end));
    }
    assert!(find_gaps(d(2024, 12, 1), d(2025, 3, 15), &synced).is_empty());
}

#[test]
fn gaps_are_clipped_to_the_wanted_days() {
    // A synced range that lies wholly after the wanted days hides none of them.
    let later = vec![(d(2025, 6, 1), d(2025, 6, 30))];
    assert_eq!(
        uncovered_ranges(d(2025, 1, 10), d(2025, 1, 20), &later),
        vec![DateRange { start: d(2025, 1, 10), end: d(2025, 1, 20) }]
    );
    // One that lies wholly before them does not move the first gap back.
    let earlier = vec![(d(2024, 6, 1), d(2024, 6, 30))];
    assert_eq!(
        uncovered_ranges(d(2025, 1, 10), d(2025, 1, 20), &earlier),
        vec![DateRange { start: d(2025, 1, 10), end: d(2025, 1, 20) }]
    );
    // One that reaches over both ends leaves nothing.
    let around = vec![(d(2024, 6, 1), d(2025, 6, 30))];
    assert!(uncovered_ranges(d(2025, 1, 10), d(2025, 1, 20), &around).is_empty());
}

#[test]
fn adjacent_ranges_merge_and_separated_ones_do_not() {
    let touching = vec![(d(2025, 1, 6), d(2025, 1, 10)), (d(2025, 1, 1), d(2025, 1, 5))];
    assert_eq!(
        merge_ranges(&touching),
        vec![DateRange { start: d(2025, 1, 1), end: d(2025, 1, 10) }]
    );
    let apart = vec![(d(2025, 1, 7), d(2025, 1, 10)), (d(2025, 1, 1), d(2025, 1, 5))];
    assert_eq!(
        merge_ranges(&apart),
        vec![
            DateRange { start: d(2025, 1, 1), end: d(2025, 1, 5) },
            DateRange { start: d(2025, 1, 7), end: d(2025, 1, 10) },
        ]
    );
    let nested = vec![(d(2025, 1, 1), d(2025, 1, 31)), (d(2025, 1, 5), d(2025, 1, 6))];
    assert_eq!(
        merge_ranges(&nested),
        vec![DateRange { start: d(2025, 1, 1), end: d(2025, 1, 31) }]
    );
    assert!(merge_ranges(&[]).is_empty());
}

#[test]
fn a_range_that_ends_before_it_starts_covers_nothing() {
    let inverted = vec![(d(2025, 1, 20), d(2025, 1, 10))];
    assert!(merge_ranges(&inverted).is_empty());
    assert_eq!(
        uncovered_ranges(d(2025, 1, 1), d(2025, 1, 31), &inverted),
        vec![DateRange { start: d(2025, 1, 1), end: d(2025, 1, 31) }]
    );
}

#[test]
fn split_into_months_handles_leap_february_and_year_end() {
    let batches = split_into_months(d(2023, 12, 30), d(2024, 3, 1));
    assert_eq!(
        batches,
        vec![
            DateRange { start: d(2023, 12, 30), end: d(2023, 12, 31) },
            DateRange { start: d(2024, 1, 1), end: d(2024, 1, 31) },
            DateRange { start: d(2024, 2, 1), end: d(2024, 2, 29) },
            DateRange { start: d(2024, 3, 1), end: d(2024, 3, 1) },
        ]
    );
    let one = split_into_months(d(2025, 5, 7), d(2025, 5, 7));
    assert_eq!(one, vec![DateRange { start: d(2025, 5, 7), end: d(2025, 5, 7) }]);
}
