use asanadw::date::Date;
use asanadw::error::Error;
use asanadw::query::period::{read_period, Period};
use asanadw::text::{parse_i32, parse_u32};
use chrono::{Datelike, NaiveDate, Weekday};

fn now() -> Date {
    Date::from_days_ce(chrono::Local::now().date_naive().num_days_from_ce()).unwrap()
}

fn d(y: i32, m: u32, day: u32) -> Date {
    Date::from_ymd_opt(y, m, day).unwrap()
}

fn naive(day: Date) -> NaiveDate {
    NaiveDate::from_num_days_from_ce_opt(day.days_from_ce()).unwrap()
}

#[test]
fn test_parse_year() {
    assert_eq!(Period::parse("2025", now()).unwrap(), Period::Year(2025));
}

#[test]
fn test_parse_half() {
    assert_eq!(Period::parse("2025-H1", now()).unwrap(), Period::Half(2025, 1));
    assert_eq!(Period::parse("2025-H2", now()).unwrap(), Period::Half(2025, 2));
}

#[test]
fn test_parse_quarter() {
    assert_eq!(Period::parse("2025-Q1", now()).unwrap(), Period::Quarter(2025, 1));
    assert_eq!(Period::parse("2025-Q4", now()).unwrap(), Period::Quarter(2025, 4));
}

#[test]
fn test_parse_month() {
    assert_eq!(Period::parse("2025-01", now()).unwrap(), Period::Month(2025, 1));
    assert_eq!(Period::parse("2025-12", now()).unwrap(), Period::Month(2025, 12));
}

#[test]
fn test_parse_week() {
    assert_eq!(Period::parse("2025-W05", now()).unwrap(), Period::Week(2025, 5));
    assert_eq!(Period::parse("2025-W1", now()).unwrap(), Period::Week(2025, 1));
}

#[test]
fn test_parse_rolling() {
    let p = Period::parse("30d", now()).unwrap();
    match p {
        Period::Rolling(30, _) => {}
        _ => panic!("expected Rolling(30, _), got {p:?}"),
    }
}

#[test]
fn test_parse_to_date() {
    let today = chrono::Local::now().date_naive();

    match Period::parse("ytd", now()).unwrap() {
        Period::YearToDate(y) => assert_eq!(y, today.year()),
        p => panic!("expected YearToDate, got {p:?}"),
    }

    match Period::parse("qtd", now()).unwrap() {
        Period::QuarterToDate(y, _) => assert_eq!(y, today.year()),
        p => panic!("expected QuarterToDate, got {p:?}"),
    }

    match Period::parse("mtd", now()).unwrap() {
        Period::MonthToDate(y, m) => {
            assert_eq!(y, today.year());
            assert_eq!(m, today.month() as u8);
        }
        p => panic!("expected MonthToDate, got {p:?}"),
    }
}

#[test]
fn test_parse_invalid() {
    assert!(Period::parse("garbage", now()).is_err());
    assert!(Period::parse("2025-Q5", now()).is_err());
    assert!(Period::parse("2025-13", now()).is_err());
}

#[test]
fn test_to_key() {
    assert_eq!(Period::Year(2025).to_key(), "2025");
    assert_eq!(Period::Half(2025, 1).to_key(), "2025-H1");
    assert_eq!(Period::Quarter(2025, 1).to_key(), "2025-Q1");
    assert_eq!(Period::Month(2025, 1).to_key(), "2025-01");
    assert_eq!(Period::Week(2025, 5).to_key(), "2025-W05");
}

#[test]
fn test_date_range_year() {
    let (s, e) = Period::Year(2025).date_range(now()).unwrap();
    assert_eq!(s, d(2025, 1, 1));
    assert_eq!(e, d(2025, 12, 31));
}

#[test]
fn test_date_range_quarter() {
    let (s, e) = Period::Quarter(2025, 1).date_range(now()).unwrap();
    assert_eq!(s, d(2025, 1, 1));
    assert_eq!(e, d(2025, 3, 31));

    let (s, e) = Period::Quarter(2025, 2).date_range(now()).unwrap();
    assert_eq!(s, d(2025, 4, 1));
    assert_eq!(e, d(2025, 6, 30));
}

#[test]
fn test_date_range_month() {
    let (s, e) = Period::Month(2025, 2).date_range(now()).unwrap();
    assert_eq!(s, d(2025, 2, 1));
    assert_eq!(e, d(2025, 2, 28));
}

#[test]
fn test_date_range_week() {
    let (s, e) = Period::Week(2025, 1).date_range(now()).unwrap();
    assert_eq!(naive(s).weekday(), Weekday::Mon);
    assert_eq!(e.days_from_ce() - s.days_from_ce(), 6);
}

#[test]
fn test_previous() {
    assert_eq!(Period::Year(2025).previous(), Period::Year(2024));
    assert_eq!(Period::Half(2025, 1).previous(), Period::Half(2024, 2));
    assert_eq!(Period::Half(2025, 2).previous(), Period::Half(2025, 1));
    assert_eq!(Period::Quarter(2025, 1).previous(), Period::Quarter(2024, 4));
    assert_eq!(Period::Quarter(2025, 3).previous(), Period::Quarter(2025, 2));
    assert_eq!(Period::Month(2025, 1).previous(), Period::Month(2024, 12));
    assert_eq!(Period::Month(2025, 6).previous(), Period::Month(2025, 5));
}

#[test]
fn test_prior_period_to_date() {
    // Q1 2026, as of Feb 7 = day 37 of the quarter
    let as_of = d(2026, 2, 7);
    let period = Period::Quarter(2026, 1);
    let prior = period.prior_period_to_date(as_of, now()).unwrap();

    // Should be a Rolling period covering Q4 2025 from Oct 1 through Nov 7
    // Feb 7 is offset 37 from Jan 1; Oct 1 + 37 = Nov 7
    let (ps, pe) = prior.date_range(now()).unwrap();
    assert_eq!(ps, d(2025, 10, 1));
    assert_eq!(pe, d(2025, 11, 7));
}

#[test]
fn test_is_current() {
    let today = chrono::Local::now().date_naive();
    let current_year = Period::Year(today.year());
    assert!(current_year.is_current(now()));

    let past_year = Period::Year(today.year() - 2);
    assert!(!past_year.is_current(now()));
}

#[test]
fn to_date_words_are_read_on_the_given_day() {
    let day = d(2025, 8, 15);
    assert_eq!(Period::parse("ytd", day), Ok(Period::YearToDate(2025)));
    assert_eq!(Period::parse("HTD", day), Ok(Period::HalfToDate(2025, 2)));
    assert_eq!(Period::parse(" qtd ", day), Ok(Period::QuarterToDate(2025, 3)));
    assert_eq!(Period::parse("Mtd", day), Ok(Period::MonthToDate(2025, 8)));
    assert_eq!(Period::parse("wtd", day), Ok(Period::WeekToDate(2025, 33)));
    assert_eq!(Period::parse("htd", d(2025, 6, 30)), Ok(Period::HalfToDate(2025, 1)));
    assert_eq!(Period::parse("htd", d(2025, 7, 1)), Ok(Period::HalfToDate(2025, 2)));
    // The ISO week of the last days of a year may belong to the next year.
    assert_eq!(Period::parse("wtd", d(2024, 12, 30)), Ok(Period::WeekToDate(2025, 1)));
    assert_eq!(Period::parse("wtd", d(2021, 1, 2)), Ok(Period::WeekToDate(2020, 53)));
    assert_eq!(Period::parse("2023-ytd", day), Ok(Period::YearToDate(2023)));
    assert_eq!(Period::parse("-5-ytd", day), Ok(Period::YearToDate(-5)));
}

#[test]
fn rolling_periods_take_any_count_of_days() {
    let day = d(2025, 8, 15);
    assert_eq!(Period::parse("7d", day), Ok(Period::Rolling(7, day)));
    assert_eq!(Period::parse("7D", day), Ok(Period::Rolling(7, day)));
    assert_eq!(Period::parse("+7d", day), Ok(Period::Rolling(7, day)));
    assert_eq!(Period::parse("007d", day), Ok(Period::Rolling(7, day)));
    assert_eq!(Period::parse("0d", day), Ok(Period::Rolling(0, day)));
    assert_eq!(Period::parse("4294967295d", day), Ok(Period::Rolling(u32::MAX, day)));
    assert!(Period::parse("4294967296d", day).is_err());
    assert!(Period::parse("-7d", day).is_err());
    assert!(Period::parse("d", day).is_err());
    assert!(Period::parse("7 d", day).is_err());
}

#[test]
fn unreadable_periods_say_what_was_given() {
    let day = d(2025, 8, 15);
    assert_eq!(
        Period::parse("  garbage ", day),
        Err(Error::PeriodParse("unrecognized period: garbage".to_string()))
    );
    assert_eq!(
        Period::parse("20x5-ytd", day),
        Err(Error::PeriodParse("invalid year: 20x5-ytd".to_string()))
    );
    assert_eq!(
        Period::parse("-ytd", day),
        Err(Error::PeriodParse("invalid year: -ytd".to_string()))
    );
    for bad in [
        "", "202", "20255", "2025-", "2025-H0", "2025-H3", "2025-h1", "2025-Q0", "2025-Q5",
        "2025-00", "2025-13", "2025-1", "2025-W0", "2025-W00", "2025-W54", "2025-W", "2025-W053",
        "2025/01", "2025-Q1 x", "x2025-Q1", "2025-Q11", "٢٠٢٥-Q1",
    ] {
        assert!(Period::parse(bad, day).is_err(), "{bad:?} was read");
    }
    assert_eq!(Period::parse("2025-W53", day), Ok(Period::Week(2025, 53)));
    assert_eq!(Period::parse("+123", day), Ok(Period::Year(123)));
    assert_eq!(Period::parse("-123", day), Ok(Period::Year(-123)));
    assert_eq!(Period::parse("0001-02", day), Ok(Period::Month(1, 2)));
}

#[test]
fn read_period_takes_the_lower_case_form_as_given() {
    let day = d(2025, 8, 15);
    assert_eq!(read_period("YTD", "ytd", day), Ok(Period::YearToDate(2025)));
    assert_eq!(
        read_period("YTD", "YTD", day),
        Err(Error::PeriodParse("unrecognized period: YTD".to_string()))
    );
}

#[test]
fn every_kind_of_period_has_its_key() {
    let day = d(2025, 8, 15);
    assert_eq!(Period::Month(2025, 12).to_key(), "2025-12");
    assert_eq!(Period::Week(2025, 52).to_key(), "2025-W52");
    assert_eq!(Period::Rolling(30, day).to_key(), "30d");
    assert_eq!(Period::YearToDate(2025).to_key(), "2025-ytd");
    assert_eq!(Period::HalfToDate(2025, 2).to_key(), "2025-H2-td");
    assert_eq!(Period::QuarterToDate(2025, 3).to_key(), "2025-Q3-td");
    assert_eq!(Period::MonthToDate(2025, 8).to_key(), "2025-08-td");
    assert_eq!(Period::WeekToDate(2025, 7).to_key(), "2025-W07-td");
    assert_eq!(Period::Year(-44).to_key(), "-44");
    assert_eq!(Period::Month(2025, 200).to_key(), "2025-200");
}

#[test]
fn every_kind_of_period_has_its_days() {
    let day = d(2025, 8, 15);
    assert_eq!(Period::Half(2025, 1).date_range(day), Some((d(2025, 1, 1), d(2025, 6, 30))));
    assert_eq!(Period::Half(2025, 2).date_range(day), Some((d(2025, 7, 1), d(2025, 12, 31))));
    assert_eq!(Period::Quarter(2025, 4).date_range(day), Some((d(2025, 10, 1), d(2025, 12, 31))));
    assert_eq!(Period::Month(2024, 2).date_range(day), Some((d(2024, 2, 1), d(2024, 2, 29))));
    assert_eq!(Period::Month(2025, 12).date_range(day), Some((d(2025, 12, 1), d(2025, 12, 31))));
    assert_eq!(Period::Week(2025, 1).date_range(day), Some((d(2024, 12, 30), d(2025, 1, 5))));
    assert_eq!(Period::Week(2020, 53).date_range(day), Some((d(2020, 12, 28), d(2021, 1, 3))));
    assert_eq!(Period::Rolling(30, day).date_range(day), Some((d(2025, 7, 17), day)));
    assert_eq!(Period::Rolling(1, day).date_range(day), Some((day, day)));
    assert_eq!(Period::Rolling(0, day).date_range(day), Some((d(2025, 8, 16), day)));
    assert_eq!(Period::YearToDate(2025).date_range(day), Some((d(2025, 1, 1), day)));
    assert_eq!(Period::HalfToDate(2025, 2).date_range(day), Some((d(2025, 7, 1), day)));
    assert_eq!(Period::QuarterToDate(2025, 3).date_range(day), Some((d(2025, 7, 1), day)));
    assert_eq!(Period::MonthToDate(2025, 8).date_range(day), Some((d(2025, 8, 1), day)));
    assert_eq!(Period::WeekToDate(2025, 33).date_range(day), Some((d(2025, 8, 11), day)));
    // Periods that the calendar does not have.
    assert_eq!(Period::Month(2025, 13).date_range(day), None);
    assert_eq!(Period::Month(2025, 0).date_range(day), None);
    assert_eq!(Period::Quarter(2025, 5).date_range(day), None);
    assert_eq!(Period::Quarter(2025, 0).date_range(day), None);
    assert_eq!(Period::Week(2025, 53).date_range(day), None);
    assert_eq!(Period::Week(2025, 0).date_range(day), None);
    assert_eq!(Period::Year(400_000).date_range(day), None);
    assert_eq!(Period::Rolling(u32::MAX, day).date_range(day), None);
}

#[test]
fn previous_periods_wrap_at_the_year() {
    let day = d(2025, 3, 10);
    assert_eq!(Period::Week(2025, 1).previous(), Period::Week(2024, 52));
    assert_eq!(Period::Week(2025, 9).previous(), Period::Week(2025, 8));
    assert_eq!(Period::Rolling(30, day).previous(), Period::Rolling(30, d(2025, 2, 8)));
    assert_eq!(Period::YearToDate(2025).previous(), Period::YearToDate(2024));
    assert_eq!(Period::HalfToDate(2025, 1).previous(), Period::HalfToDate(2024, 2));
    assert_eq!(Period::HalfToDate(2025, 2).previous(), Period::HalfToDate(2025, 1));
    assert_eq!(Period::QuarterToDate(2025, 1).previous(), Period::QuarterToDate(2024, 4));
    assert_eq!(Period::MonthToDate(2025, 1).previous(), Period::MonthToDate(2024, 12));
    assert_eq!(Period::WeekToDate(2025, 1).previous(), Period::WeekToDate(2024, 52));
    assert!(Period::Year(2025).can_go_back());
    assert!(!Period::Year(i32::MIN).can_go_back());
    assert!(Period::Half(i32::MIN, 2).can_go_back());
    assert!(!Period::Half(i32::MIN, 1).can_go_back());
    assert!(!Period::Month(2025, 0).can_go_back());
    assert!(!Period::Rolling(u32::MAX, day).can_go_back());
}

#[test]
fn prior_period_to_date_stops_at_the_end_of_the_prior_period() {
    let today = d(2025, 8, 15);
    // March 31 is day 30 of March; February has no such day.
    assert_eq!(
        Period::Month(2025, 3).prior_period_to_date(d(2025, 3, 31), today),
        Some(Period::Rolling(28, d(2025, 2, 28)))
    );
    assert_eq!(
        Period::Month(2025, 3).prior_period_to_date(d(2025, 3, 1), today),
        Some(Period::Rolling(1, d(2025, 2, 1)))
    );
    assert_eq!(
        Period::Year(2025).prior_period_to_date(d(2025, 12, 31), today),
        Some(Period::Rolling(365, d(2024, 12, 30)))
    );
    // A day before the period began lies before the prior period too.
    assert_eq!(Period::Month(2025, 3).prior_period_to_date(d(2025, 2, 27), today), None);
    assert_eq!(Period::Month(2025, 13).prior_period_to_date(d(2025, 3, 1), today), None);
    assert_eq!(Period::Year(i32::MIN).prior_period_to_date(d(2025, 3, 1), today), None);
}

#[test]
fn is_current_looks_at_the_given_day() {
    let day = d(2025, 8, 15);
    assert!(Period::Month(2025, 8).is_current(day));
    assert!(!Period::Month(2025, 9).is_current(day));
    assert!(Period::Quarter(2025, 3).is_current(day));
    assert!(Period::Week(2025, 33).is_current(day));
    assert!(!Period::Week(2025, 34).is_current(day));
    assert!(Period::Rolling(1, day).is_current(day));
    assert!(!Period::Rolling(0, day).is_current(day));
    assert!(Period::YearToDate(2025).is_current(day));
    assert!(!Period::YearToDate(2026).is_current(day));
    assert!(!Period::Month(2025, 13).is_current(day));
}

#[test]
fn numbers_are_read_as_std_reads_them() {
    for text in [
        "0", "7", "+7", "-7", "007", "", "+", "-", "4294967295", "4294967296", "2147483647",
        "2147483648", "-2147483648", "-2147483649", " 7", "7 ", "٧", "1_000", "0x10",
        "99999999999999999999",
    ] {
        assert_eq!(parse_u32(text), text.parse::<u32>().ok(), "{text:?} as u32");
        assert_eq!(parse_i32(text), text.parse::<i32>().ok(), "{text:?} as i32");
    }
}

#[test]
fn weeks_of_years_out_of_range_have_no_days() {
    assert_eq!(Period::Week(i32::MIN, 1).date_range(now()), None);
    assert_eq!(Period::Week(i32::MAX, 1).date_range(now()), None);
    assert_eq!(Period::WeekToDate(i32::MIN, 1).date_range(now()), None);
    assert_eq!(Period::WeekToDate(i32::MAX, 53).date_range(now()), None);
}
