//! Periods of time: years, halves, quarters, months, ISO weeks, the last so
//! many days, and each of them up to today.
//!
//! A period is written as
//!
//! - `2025`: a year;
//! - `2025-H1`: a half;
//! - `2025-Q1`: a quarter;
//! - `2025-01`: a month;
//! - `2025-W05`: an ISO week;
//! - `30d`: the last 30 days;
//! - `ytd`, `htd`, `qtd`, `mtd`, `wtd`: the current year, half, quarter, month
//!   or week, up to today;
//! - `2025-ytd`: a year up to today.
//!
//! What today is, the caller says.

use crate::date::{
    civil_to_days, in_range, iso_week_start, iso_week_of, iso_year_of, month_of_days,
    year_of_days, Date,
};
use crate::date_util::{checked_last_day_of_month, last_day_spec, quarter_of, quarter_of_month};
use crate::error::{join, Error, ErrorView};
use crate::query::builder::{signed_decimal, signed_decimal_text};
use crate::text::{
    chars_of, decimal, has_suffix, lowercase, lowercase_of, number_upto, parse_i32_window,
    parse_u32_window, parsed_i32, parsed_u32, push_decimal, read_number, same_text, trim, trimmed,
    window_ends_with,
};
use vstd::prelude::*;
use vstd::string::StringExecFns;

verus! {

/// A time period for metrics and queries.
#[derive(Debug, Clone, Copy, PartialEq, Eq)]
pub enum Period {
    Year(i32),
    /// A year and its first or second half.
    Half(i32, u8),
    /// A year and one of its quarters, 1 to 4.
    Quarter(i32, u8),
    /// A year and one of its months, 1 to 12.
    Month(i32, u8),
    /// The year of an ISO week and the number of the week.
    Week(i32, u8),
    /// So many days, the last of which is the given day.
    Rolling(u32, Date),
    YearToDate(i32),
    HalfToDate(i32, u8),
    QuarterToDate(i32, u8),
    MonthToDate(i32, u8),
    WeekToDate(i32, u8),
}

/// A [`Period`] with its day as a day number.
pub enum PeriodView {
    Year(i32),
    Half(i32, u8),
    Quarter(i32, u8),
    Month(i32, u8),
    Week(i32, u8),
    Rolling(u32, int),
    YearToDate(i32),
    HalfToDate(i32, u8),
    QuarterToDate(i32, u8),
    MonthToDate(i32, u8),
    WeekToDate(i32, u8),
}

impl View for Period {
    type V = PeriodView;

    open spec fn view(&self) -> PeriodView {
        match self {
            Period::Year(y) => PeriodView::Year(*y),
            Period::Half(y, h) => PeriodView::Half(*y, *h),
            Period::Quarter(y, q) => PeriodView::Quarter(*y, *q),
            Period::Month(y, m) => PeriodView::Month(*y, *m),
            Period::Week(y, w) => PeriodView::Week(*y, *w),
            Period::Rolling(n, day) => PeriodView::Rolling(*n, day@),
            Period::YearToDate(y) => PeriodView::YearToDate(*y),
            Period::HalfToDate(y, h) => PeriodView::HalfToDate(*y, *h),
            Period::QuarterToDate(y, q) => PeriodView::QuarterToDate(*y, *q),
            Period::MonthToDate(y, m) => PeriodView::MonthToDate(*y, *m),
            Period::WeekToDate(y, w) => PeriodView::WeekToDate(*y, *w),
        }
    }
}

/// The view of an optional period.
pub open spec fn period_of(period: Option<Period>) -> Option<PeriodView> {
    match period {
        Some(p) => Some(p@),
        None => None,
    }
}

/// The view of the outcome of [`Period::parse`].
pub open spec fn parsed_of(outcome: Result<Period, Error>) -> Result<PeriodView, ErrorView> {
    match outcome {
        Ok(p) => Ok(p@),
        Err(e) => Err(e@),
    }
}

/// The period that one of the words `ytd`, `htd`, `qtd`, `mtd`, `wtd` names
/// on the day `today`, if `word` is one of them.
pub open spec fn to_date_word(word: Seq<char>, today: int) -> Option<PeriodView> {
    let year = year_of_days(today) as i32;
    let month = month_of_days(today);
    if word == "ytd"@ {
        Some(PeriodView::YearToDate(year))
    } else if word == "htd"@ {
        Some(
            PeriodView::HalfToDate(
                year,
                if month <= 6 {
                    1
                } else {
                    2
                },
            ),
        )
    } else if word == "qtd"@ {
        Some(PeriodView::QuarterToDate(year, quarter_of_month(month) as u8))
    } else if word == "mtd"@ {
        Some(PeriodView::MonthToDate(year, month as u8))
    } else if word == "wtd"@ {
        Some(PeriodView::WeekToDate(iso_year_of(today) as i32, iso_week_of(today) as u8))
    } else {
        None
    }
}

/// The last so many days, as a text writes them: a number, then `d` or `D`.
pub open spec fn rolling_spec(s: Seq<char>, today: int) -> Option<PeriodView> {
    if s.len() > 0 && (s.last() == 'd' || s.last() == 'D') {
        match parsed_u32(s.drop_last()) {
            Some(n) => Some(PeriodView::Rolling(n, today)),
            None => None,
        }
    } else {
        None
    }
}

/// The year that a text begins with: the number of its first four
/// characters, if they are digits.
pub open spec fn year_part(s: Seq<char>) -> Option<i32> {
    if s.len() >= 4 {
        match number_upto(s.take(4), 9999) {
            Some(y) => Some(y as i32),
            None => None,
        }
    } else {
        None
    }
}

/// The half, quarter, week or month that a text writes after a year and a
/// hyphen, if it writes one: `H` and 1 or 2; `Q` and 1 to 4; `W` and one or
/// two digits that make a number from 1 to 53; two digits that make a number
/// from 1 to 12.
pub open spec fn part_of_year(s: Seq<char>) -> Option<PeriodView> {
    match year_part(s) {
        Some(y) => if s.len() >= 7 && s[4] == '-' {
            if s.len() == 7 && s[5] == 'H' && (s[6] == '1' || s[6] == '2') {
                Some(PeriodView::Half(y, (s[6] as int - '0' as int) as u8))
            } else if s.len() == 7 && s[5] == 'Q' && '1' <= s[6] <= '4' {
                Some(PeriodView::Quarter(y, (s[6] as int - '0' as int) as u8))
            } else if s.len() <= 8 && s[5] == 'W' {
                match number_upto(s.skip(6), 53) {
                    Some(w) => if w >= 1 {
                        Some(PeriodView::Week(y, w as u8))
                    } else {
                        None
                    },
                    None => None,
                }
            } else if s.len() == 7 {
                match number_upto(s.skip(5), 12) {
                    Some(m) => if m >= 1 {
                        Some(PeriodView::Month(y, m as u8))
                    } else {
                        None
                    },
                    None => None,
                }
            } else {
                None
            }
        } else {
            None
        },
        None => None,
    }
}

/// The period that a text writes, read on the day `today`, given the text
/// without the white space around it and its lower-case form.
pub open spec fn parse_spec(s: Seq<char>, lowered: Seq<char>, today: int) -> Result<
    PeriodView,
    ErrorView,
> {
    if to_date_word(lowered, today) is Some {
        Ok(to_date_word(lowered, today)->0)
    } else if rolling_spec(s, today) is Some {
        Ok(rolling_spec(s, today)->0)
    } else if has_suffix(s, "-ytd"@) {
        match parsed_i32(s.take(s.len() - "-ytd"@.len())) {
            Some(y) => Ok(PeriodView::YearToDate(y)),
            None => Err(ErrorView::PeriodParse("invalid year: "@ + s)),
        }
    } else if s.len() == 4 && parsed_i32(s) is Some {
        Ok(PeriodView::Year(parsed_i32(s)->0))
    } else if part_of_year(s) is Some {
        Ok(part_of_year(s)->0)
    } else {
        Err(ErrorView::PeriodParse("unrecognized period: "@ + s))
    }
}

/// Both days, if both are there.
pub open spec fn both(start: Option<int>, end: Option<int>) -> Option<(int, int)> {
    match (start, end) {
        (Some(s), Some(e)) => Some((s, e)),
        _ => None,
    }
}

/// A day, if it is in range.
pub open spec fn day_in_range(day: int) -> Option<int> {
    if in_range(day) {
        Some(day)
    } else {
        None
    }
}

/// A day so many days after a day, if both are there and in range.
pub open spec fn days_after(day: Option<int>, days: int) -> Option<int> {
    match day {
        Some(d) => day_in_range(d + days),
        None => None,
    }
}

/// The first day of a half of a year.
pub open spec fn half_start(year: int, half: int) -> Option<int> {
    if half == 1 {
        civil_to_days(year, 1, 1)
    } else {
        civil_to_days(year, 7, 1)
    }
}

/// The first day of a quarter of a year; none for a quarter 0.
pub open spec fn quarter_start(year: int, quarter: int) -> Option<int> {
    if quarter >= 1 {
        civil_to_days(year, (quarter - 1) * 3 + 1, 1)
    } else {
        None
    }
}

/// The first and the last day of a period, where the calendar has them and
/// they are in range. A period up to today ends today, whenever it starts.
pub open spec fn period_range(p: PeriodView, today: int) -> Option<(int, int)> {
    match p {
        PeriodView::Year(y) => both(civil_to_days(y as int, 1, 1), civil_to_days(y as int, 12, 31)),
        PeriodView::Half(y, h) => both(
            half_start(y as int, h as int),
            if h == 1 {
                civil_to_days(y as int, 6, 30)
            } else {
                civil_to_days(y as int, 12, 31)
            },
        ),
        PeriodView::Quarter(y, q) => both(
            quarter_start(y as int, q as int),
            last_day_spec(y as int, q * 3),
        ),
        PeriodView::Month(y, m) => both(
            civil_to_days(y as int, m as int, 1),
            last_day_spec(y as int, m as int),
        ),
        PeriodView::Week(y, w) => both(
            iso_week_start(y as int, w as int),
            days_after(iso_week_start(y as int, w as int), 6),
        ),
        PeriodView::Rolling(n, as_of) => both(day_in_range(as_of - (n - 1)), Some(as_of)),
        PeriodView::YearToDate(y) => both(civil_to_days(y as int, 1, 1), Some(today)),
        PeriodView::HalfToDate(y, h) => both(half_start(y as int, h as int), Some(today)),
        PeriodView::QuarterToDate(y, q) => both(quarter_start(y as int, q as int), Some(today)),
        PeriodView::MonthToDate(y, m) => both(civil_to_days(y as int, m as int, 1), Some(today)),
        PeriodView::WeekToDate(y, w) => both(iso_week_start(y as int, w as int), Some(today)),
    }
}

/// The year and part before a year and part, where parts are numbered from
/// 1 to `parts`: the part before, or the last part of the year before.
pub open spec fn part_before(year: i32, part: u8, parts: u8) -> (i32, u8) {
    if part == 1 {
        ((year - 1) as i32, parts)
    } else {
        (year, (part - 1) as u8)
    }
}

/// Whether a period has one before it that can be written down: its year is
/// not the least of all where the year before is needed, its part is not 0,
/// and the days before a rolling period are in range.
pub open spec fn has_previous(p: PeriodView) -> bool {
    match p {
        PeriodView::Year(y) => y > i32::MIN,
        PeriodView::YearToDate(y) => y > i32::MIN,
        PeriodView::Rolling(n, as_of) => in_range(as_of - n),
        PeriodView::Half(y, h) => h != 1 || y > i32::MIN,
        PeriodView::HalfToDate(y, h) => h != 1 || y > i32::MIN,
        PeriodView::Quarter(y, part) => part >= 1 && (part > 1 || y > i32::MIN),
        PeriodView::QuarterToDate(y, part) => part >= 1 && (part > 1 || y > i32::MIN),
        PeriodView::Month(y, part) => part >= 1 && (part > 1 || y > i32::MIN),
        PeriodView::MonthToDate(y, part) => part >= 1 && (part > 1 || y > i32::MIN),
        PeriodView::Week(y, part) => part >= 1 && (part > 1 || y > i32::MIN),
        PeriodView::WeekToDate(y, part) => part >= 1 && (part > 1 || y > i32::MIN),
    }
}

/// The period of the same kind before a period. Before the first half comes
/// the second of the year before; before the first week, week 52 of the year
/// before; before a rolling period, as many days that end where it starts.
pub open spec fn previous_spec(p: PeriodView) -> PeriodView {
    match p {
        PeriodView::Year(y) => PeriodView::Year((y - 1) as i32),
        PeriodView::Half(y, h) => if h == 1 {
            PeriodView::Half((y - 1) as i32, 2)
        } else {
            PeriodView::Half(y, 1)
        },
        PeriodView::Quarter(y, q) => PeriodView::Quarter(
            part_before(y, q, 4).0,
            part_before(y, q, 4).1,
        ),
        PeriodView::Month(y, m) => PeriodView::Month(
            part_before(y, m, 12).0,
            part_before(y, m, 12).1,
        ),
        PeriodView::Week(y, w) => PeriodView::Week(part_before(y, w, 52).0, part_before(y, w, 52).1),
        PeriodView::Rolling(n, as_of) => PeriodView::Rolling(n, as_of - n),
        PeriodView::YearToDate(y) => PeriodView::YearToDate((y - 1) as i32),
        PeriodView::HalfToDate(y, h) => if h == 1 {
            PeriodView::HalfToDate((y - 1) as i32, 2)
        } else {
            PeriodView::HalfToDate(y, 1)
        },
        PeriodView::QuarterToDate(y, q) => PeriodView::QuarterToDate(
            part_before(y, q, 4).0,
            part_before(y, q, 4).1,
        ),
        PeriodView::MonthToDate(y, m) => PeriodView::MonthToDate(
            part_before(y, m, 12).0,
            part_before(y, m, 12).1,
        ),
        PeriodView::WeekToDate(y, w) => PeriodView::WeekToDate(
            part_before(y, w, 52).0,
            part_before(y, w, 52).1,
        ),
    }
}

/// A number below 100 as two digits.
pub open spec fn two_digits(n: u8) -> Seq<char> {
    if n < 10 {
        "0"@ + decimal(n as nat)
    } else {
        decimal(n as nat)
    }
}

/// The key of a period, as it is stored and looked up.
pub open spec fn period_key(p: PeriodView) -> Seq<char> {
    match p {
        PeriodView::Year(y) => signed_decimal(y as int),
        PeriodView::Half(y, h) => signed_decimal(y as int) + "-H"@ + decimal(h as nat),
        PeriodView::Quarter(y, q) => signed_decimal(y as int) + "-Q"@ + decimal(q as nat),
        PeriodView::Month(y, m) => signed_decimal(y as int) + "-"@ + two_digits(m),
        PeriodView::Week(y, w) => signed_decimal(y as int) + "-W"@ + two_digits(w),
        PeriodView::Rolling(n, as_of) => decimal(n as nat) + "d"@,
        PeriodView::YearToDate(y) => signed_decimal(y as int) + "-ytd"@,
        PeriodView::HalfToDate(y, h) => signed_decimal(y as int) + "-H"@ + decimal(h as nat)
            + "-td"@,
        PeriodView::QuarterToDate(y, q) => signed_decimal(y as int) + "-Q"@ + decimal(q as nat)
            + "-td"@,
        PeriodView::MonthToDate(y, m) => signed_decimal(y as int) + "-"@ + two_digits(m) + "-td"@,
        PeriodView::WeekToDate(y, w) => signed_decimal(y as int) + "-W"@ + two_digits(w) + "-td"@,
    }
}

/// The period that compares with `p` as far as it has run on the day
/// `as_of`: the days of the period before `p`, from its first day to the day
/// that lies as far into it as `as_of` lies into `p`, or to its last day if
/// it is shorter. `None` where one of the two periods has no days, or where
/// `as_of` lies before `p` begins.
pub open spec fn prior_to_date_spec(p: PeriodView, as_of: int, today: int) -> Option<PeriodView> {
    if has_previous(p) {
        match (period_range(p, today), period_range(previous_spec(p), today)) {
            (Some(own), Some(prior)) => {
                let target = prior.0 + (as_of - own.0);
                let clamped = if target > prior.1 {
                    prior.1
                } else {
                    target
                };
                let days = clamped - prior.0 + 1;
                if in_range(target) && 0 <= days <= u32::MAX {
                    Some(PeriodView::Rolling(days as u32, clamped))
                } else {
                    None
                }
            },
            _ => None,
        }
    } else {
        None
    }
}

/// Appends a number below 100 as two digits.
fn push_two_digits(out: &mut String, n: u8)
    ensures
        final(out)@ == old(out)@ + two_digits(n),
{
    let ghost before = out@;
    if n < 10 {
        out.append("0");
    }
    push_decimal(out, n as u64);
    proof {
        assert(out@ =~= before + two_digits(n));
    }
}

/// The year and part before a year and part.
fn before_part(year: i32, part: u8, parts: u8) -> (r: (i32, u8))
    requires
        part >= 1,
        part > 1 || year > i32::MIN,
    ensures
        r == part_before(year, part, parts),
{
    if part == 1 {
        (year - 1, parts)
    } else {
        (year, part - 1)
    }
}

/// The first day of a half of a year.
fn start_of_half(year: i32, half: u8) -> (day: Option<Date>)
    ensures
        crate::sync::gap::day_of(day) == half_start(year as int, half as int),
{
    if half == 1 {
        Date::from_ymd_opt(year, 1, 1)
    } else {
        Date::from_ymd_opt(year, 7, 1)
    }
}

/// The first day of a quarter of a year.
fn start_of_quarter(year: i32, quarter: u8) -> (day: Option<Date>)
    ensures
        crate::sync::gap::day_of(day) == quarter_start(year as int, quarter as int),
{
    if quarter >= 1 {
        let month: u32 = (quarter as u32 - 1) * 3 + 1;
        Date::from_ymd_opt(year, month, 1)
    } else {
        None
    }
}

/// Both days, if both are there.
fn pair(start: Option<Date>, end: Option<Date>) -> (range: Option<(Date, Date)>)
    ensures
        range_of(range) == both(crate::sync::gap::day_of(start), crate::sync::gap::day_of(end)),
{
    match (start, end) {
        (Some(s), Some(e)) => Some((s, e)),
        _ => None,
    }
}

/// The view of an optional range.
pub open spec fn range_of(range: Option<(Date, Date)>) -> Option<(int, int)> {
    match range {
        Some(r) => Some((r.0@, r.1@)),
        None => None,
    }
}

/// The half, quarter, week or month that the characters write after a year
/// and a hyphen, if they write one.
fn read_part_of_year(chars: &Vec<char>) -> (part: Option<Period>)
    ensures
        period_of(part) == part_of_year(chars@),
{
    let n = chars.len();
    if n < 4 {
        return None;
    }
    proof {
        assert(chars@.subrange(0, 4) =~= chars@.take(4));
    }
    let year: i32 = match read_number(chars, 0, 4, 9999) {
        Some(y) => y as i32,
        None => {
            return None;
        },
    };
    if !(n >= 7 && chars[4] == '-') {
        return None;
    }
    let mark = chars[5];
    let last = chars[6];
    if n == 7 && mark == 'H' && (last == '1' || last == '2') {
        let half: u8 = (last as u32 - '0' as u32) as u8;
        Some(Period::Half(year, half))
    } else if n == 7 && mark == 'Q' && last >= '1' && last <= '4' {
        let quarter: u8 = (last as u32 - '0' as u32) as u8;
        Some(Period::Quarter(year, quarter))
    } else if n <= 8 && mark == 'W' {
        proof {
            assert(chars@.subrange(6, n as int) =~= chars@.skip(6));
        }
        match read_number(chars, 6, n, 53) {
            Some(week) => {
                if week >= 1 {
                    Some(Period::Week(year, week as u8))
                } else {
                    None
                }
            },
            None => None,
        }
    } else if n == 7 {
        proof {
            assert(chars@.subrange(5, n as int) =~= chars@.skip(5));
        }
        match read_number(chars, 5, n, 12) {
            Some(month) => {
                if month >= 1 {
                    Some(Period::Month(year, month as u8))
                } else {
                    None
                }
            },
            None => None,
        }
    } else {
        None
    }
}

/// The period that one of the words for a period up to today names.
fn read_to_date_word(word: &str, today: Date) -> (period: Option<Period>)
    ensures
        period_of(period) == to_date_word(word@, today@),
{
    if same_text(word, "ytd") {
        Some(Period::YearToDate(today.year()))
    } else if same_text(word, "htd") {
        let half: u8 = if today.month() <= 6 {
            1
        } else {
            2
        };
        Some(Period::HalfToDate(today.year(), half))
    } else if same_text(word, "qtd") {
        Some(Period::QuarterToDate(today.year(), quarter_of(today)))
    } else if same_text(word, "mtd") {
        Some(Period::MonthToDate(today.year(), today.month() as u8))
    } else if same_text(word, "wtd") {
        Some(Period::WeekToDate(today.iso_year(), today.iso_week() as u8))
    } else {
        None
    }
}

/// The last so many days, as the characters write them.
fn read_rolling(chars: &Vec<char>, today: Date) -> (period: Option<Period>)
    ensures
        period_of(period) == rolling_spec(chars@, today@),
{
    let n = chars.len();
    if n > 0 && (chars[n - 1] == 'd' || chars[n - 1] == 'D') {
        proof {
            assert(chars@.subrange(0, n - 1) =~= chars@.drop_last());
        }
        match parse_u32_window(chars, 0, n - 1) {
            Some(days) => Some(Period::Rolling(days, today)),
            None => None,
        }
    } else {
        None
    }
}

/// The period that a text writes, read on the day `today`, given the text
/// without the white space around it and its lower-case form.
pub fn read_period(s: &str, lowered: &str, today: Date) -> (outcome: Result<Period, Error>)
    ensures
        parsed_of(outcome) == parse_spec(s@, lowered@, today@),
{
    match read_to_date_word(lowered, today) {
        Some(p) => {
            return Ok(p);
        },
        None => {},
    }
    let chars = chars_of(s);
    let n = chars.len();
    match read_rolling(&chars, today) {
        Some(p) => {
            return Ok(p);
        },
        None => {},
    }
    let suffix = chars_of("-ytd");
    proof {
        assert(chars@.subrange(0, n as int) =~= chars@);
    }
    if window_ends_with(&chars, 0, n, &suffix) {
        proof {
            assert(chars@.subrange(0, n - suffix@.len()) =~= chars@.take(n - suffix@.len()));
        }
        return match parse_i32_window(&chars, 0, n - suffix.len()) {
            Some(year) => Ok(Period::YearToDate(year)),
            None => Err(Error::PeriodParse(join("invalid year: ", s))),
        };
    }
    if n == 4 {
        match parse_i32_window(&chars, 0, n) {
            Some(year) => {
                return Ok(Period::Year(year));
            },
            None => {},
        }
    }
    match read_part_of_year(&chars) {
        Some(p) => Ok(p),
        None => Err(Error::PeriodParse(join("unrecognized period: ", s))),
    }
}

impl Period {
    /// Parse a period string, on the day `today`. White space around the
    /// text does not count, and the words for a period up to today may be
    /// written in any case.
    pub fn parse(s: &str, today: Date) -> (outcome: Result<Period, Error>)
        ensures
            parsed_of(outcome) == parse_spec(trimmed(s@), lowercase_of(trimmed(s@)), today@),
    {
        let text = trim(s);
        let lowered = lowercase(text);
        read_period(text, lowered.as_str(), today)
    }

    /// Convert to a canonical key string for storage and lookup.
    pub fn to_key(&self) -> (key: String)
        ensures
            key@ == period_key(self@),
    {
        match self {
            Period::Year(y) => signed_decimal_text(*y),
            Period::Half(y, h) => {
                let mut key = signed_decimal_text(*y);
                key.append("-H");
                push_decimal(&mut key, *h as u64);
                key
            },
            Period::Quarter(y, q) => {
                let mut key = signed_decimal_text(*y);
                key.append("-Q");
                push_decimal(&mut key, *q as u64);
                key
            },
            Period::Month(y, m) => {
                let mut key = signed_decimal_text(*y);
                key.append("-");
                push_two_digits(&mut key, *m);
                key
            },
            Period::Week(y, w) => {
                let mut key = signed_decimal_text(*y);
                key.append("-W");
                push_two_digits(&mut key, *w);
                key
            },
            Period::Rolling(n, as_of) => {
                let mut key = String::new();
                push_decimal(&mut key, *n as u64);
                key.append("d");
                proof {
                    assert(key@ =~= decimal(*n as nat) + "d"@);
                }
                key
            },
            Period::YearToDate(y) => {
                let mut key = signed_decimal_text(*y);
                key.append("-ytd");
                key
            },
            Period::HalfToDate(y, h) => {
                let mut key = signed_decimal_text(*y);
                key.append("-H");
                push_decimal(&mut key, *h as u64);
                key.append("-td");
                key
            },
            Period::QuarterToDate(y, q) => {
                let mut key = signed_decimal_text(*y);
                key.append("-Q");
                push_decimal(&mut key, *q as u64);
                key.append("-td");
                key
            },
            Period::MonthToDate(y, m) => {
                let mut key = signed_decimal_text(*y);
                key.append("-");
                push_two_digits(&mut key, *m);
                key.append("-td");
                key
            },
            Period::WeekToDate(y, w) => {
                let mut key = signed_decimal_text(*y);
                key.append("-W");
                push_two_digits(&mut key, *w);
                key.append("-td");
                key
            },
        }
    }

    /// Get the date range (inclusive start, inclusive end) for this period,
    /// on the day `today`; `None` where the calendar has no such period or
    /// its days are out of range.
    pub fn date_range(&self, today: Date) -> (range: Option<(Date, Date)>)
        ensures
            range_of(range) == period_range(self@, today@),
    {
        match self {
            Period::Year(y) => pair(Date::from_ymd_opt(*y, 1, 1), Date::from_ymd_opt(*y, 12, 31)),
            Period::Half(y, h) => {
                let end = if *h == 1 {
                    Date::from_ymd_opt(*y, 6, 30)
                } else {
                    Date::from_ymd_opt(*y, 12, 31)
                };
                pair(start_of_half(*y, *h), end)
            },
            Period::Quarter(y, q) => pair(
                start_of_quarter(*y, *q),
                checked_last_day_of_month(*y, *q as u32 * 3),
            ),
            Period::Month(y, m) => pair(
                Date::from_ymd_opt(*y, *m as u32, 1),
                checked_last_day_of_month(*y, *m as u32),
            ),
            Period::Week(y, w) => {
                let start = Date::from_iso_week(*y, *w as u32);
                let end = match start {
                    Some(monday) => monday.plus_days(6),
                    None => None,
                };
                pair(start, end)
            },
            Period::Rolling(n, as_of) => pair(as_of.plus_days(1 - (*n as i64)), Some(*as_of)),
            Period::YearToDate(y) => pair(Date::from_ymd_opt(*y, 1, 1), Some(today)),
            Period::HalfToDate(y, h) => pair(start_of_half(*y, *h), Some(today)),
            Period::QuarterToDate(y, q) => pair(start_of_quarter(*y, *q), Some(today)),
            Period::MonthToDate(y, m) => pair(Date::from_ymd_opt(*y, *m as u32, 1), Some(today)),
            Period::WeekToDate(y, w) => pair(Date::from_iso_week(*y, *w as u32), Some(today)),
        }
    }

    /// Whether [`Period::previous`] can be asked of this period.
    pub fn can_go_back(&self) -> (ok: bool)
        ensures
            ok == has_previous(self@),
    {
        match self {
            Period::Year(y) => *y > i32::MIN,
            Period::YearToDate(y) => *y > i32::MIN,
            Period::Rolling(n, as_of) => as_of.plus_days(-(*n as i64)).is_some(),
            Period::Half(y, h) => *h != 1 || *y > i32::MIN,
            Period::HalfToDate(y, h) => *h != 1 || *y > i32::MIN,
            Period::Quarter(y, part) => *part >= 1 && (*part > 1 || *y > i32::MIN),
            Period::QuarterToDate(y, part) => *part >= 1 && (*part > 1 || *y > i32::MIN),
            Period::Month(y, part) => *part >= 1 && (*part > 1 || *y > i32::MIN),
            Period::MonthToDate(y, part) => *part >= 1 && (*part > 1 || *y > i32::MIN),
            Period::Week(y, part) => *part >= 1 && (*part > 1 || *y > i32::MIN),
            Period::WeekToDate(y, part) => *part >= 1 && (*part > 1 || *y > i32::MIN),
        }
    }

    /// Get the previous period of the same type.
    pub fn previous(&self) -> (before: Period)
        requires
            has_previous(self@),
        ensures
            before@ == previous_spec(self@),
    {
        match self {
            Period::Year(y) => Period::Year(*y - 1),
            Period::Half(y, h) => {
                if *h == 1 {
                    Period::Half(*y - 1, 2)
                } else {
                    Period::Half(*y, 1)
                }
            },
            Period::Quarter(y, q) => {
                let (year, part) = before_part(*y, *q, 4);
                Period::Quarter(year, part)
            },
            Period::Month(y, m) => {
                let (year, part) = before_part(*y, *m, 12);
                Period::Month(year, part)
            },
            Period::Week(y, w) => {
                let (year, part) = before_part(*y, *w, 52);
                Period::Week(year, part)
            },
            Period::Rolling(n, as_of) => Period::Rolling(
                *n,
                as_of.plus_days(-(*n as i64)).unwrap(),
            ),
            Period::YearToDate(y) => Period::YearToDate(*y - 1),
            Period::HalfToDate(y, h) => {
                if *h == 1 {
                    Period::HalfToDate(*y - 1, 2)
                } else {
                    Period::HalfToDate(*y, 1)
                }
            },
            Period::QuarterToDate(y, q) => {
                let (year, part) = before_part(*y, *q, 4);
                Period::QuarterToDate(year, part)
            },
            Period::MonthToDate(y, m) => {
                let (year, part) = before_part(*y, *m, 12);
                Period::MonthToDate(year, part)
            },
            Period::WeekToDate(y, w) => {
                let (year, part) = before_part(*y, *w, 52);
                Period::WeekToDate(year, part)
            },
        }
    }

    /// For period-over-period comparisons: the days of the prior period that
    /// compare with this one as far as it has run on the day `as_of`, as a
    /// rolling period. If this is the first quarter of 2026 and `as_of` is
    /// February 7, this is the last quarter of 2025 up to November 7.
    pub fn prior_period_to_date(&self, as_of: Date, today: Date) -> (prior: Option<Period>)
        ensures
            period_of(prior) == prior_to_date_spec(self@, as_of@, today@),
    {
        if !self.can_go_back() {
            return None;
        }
        let before = self.previous();
        match (self.date_range(today), before.date_range(today)) {
            (Some((start, end)), Some((prior_start, prior_end))) => {
                let offset: i64 = as_of.days_from_ce() as i64 - start.days_from_ce() as i64;
                match prior_start.plus_days(offset) {
                    Some(target) => {
                        let clamped = if prior_end.is_before(&target) {
                            prior_end
                        } else {
                            target
                        };
                        let days: i64 = clamped.days_from_ce() as i64
                            - prior_start.days_from_ce() as i64 + 1;
                        if 0 <= days && days <= 0xffff_ffff {
                            Some(Period::Rolling(days as u32, clamped))
                        } else {
                            None
                        }
                    },
                    None => None,
                }
            },
            _ => None,
        }
    }

    /// Whether this period contains the day `today`. A period without days
    /// contains none.
    pub fn is_current(&self, today: Date) -> (current: bool)
        ensures
            current == match period_range(self@, today@) {
                Some(range) => range.0 <= today@ <= range.1,
                None => false,
            },
    {
        match self.date_range(today) {
            Some((start, end)) => start.is_on_or_before(&today) && today.is_on_or_before(&end),
            None => false,
        }
    }
}

} // verus!
