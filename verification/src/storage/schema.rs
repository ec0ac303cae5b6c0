//! The values of the calendar tables.
//!
//! The store keeps one row for each day of the years it covers, and one row
//! for each year, half, quarter, month and ISO week of those years. What the
//! rows hold is worked out here; writing them is the caller's part.

use crate::date::{
    civil_to_days, day_of_days, days_from_monday, in_range, iso_week_start, iso_week_of,
    iso_year_of, month_of_days, ordinal_of, year_of_days, Date,
};
use crate::date_util::{checked_last_day_of_month, last_day_spec, quarter_of, quarter_of_month};
use crate::query::period::{period_key, period_of, period_range, range_of, Period, PeriodView};
use crate::sync::gap::day_of;
use vstd::prelude::*;
use vstd::string::StringExecFns;

verus! {

/// The English name of a month, by its number from 1; `Unknown` for a
/// number that is no month.
pub open spec fn month_name(m: int) -> Seq<char> {
    if m == 1 {
        "January"@
    } else if m == 2 {
        "February"@
    } else if m == 3 {
        "March"@
    } else if m == 4 {
        "April"@
    } else if m == 5 {
        "May"@
    } else if m == 6 {
        "June"@
    } else if m == 7 {
        "July"@
    } else if m == 8 {
        "August"@
    } else if m == 9 {
        "September"@
    } else if m == 10 {
        "October"@
    } else if m == 11 {
        "November"@
    } else if m == 12 {
        "December"@
    } else {
        "Unknown"@
    }
}

/// The English name of a month, by its number from 1; `Unknown` for a
/// number that is no month.
pub fn month_label(m: u32) -> (label: &'static str)
    ensures
        label@ == month_name(m as int),
{
    match m {
        1 => "January",
        2 => "February",
        3 => "March",
        4 => "April",
        5 => "May",
        6 => "June",
        7 => "July",
        8 => "August",
        9 => "September",
        10 => "October",
        11 => "November",
        12 => "December",
        _ => "Unknown",
    }
}

/// The first day of a quarter of a year, as a day number.
pub open spec fn quarter_first_day(year: int, quarter: int) -> Option<int> {
    if 1 <= quarter <= 4 {
        civil_to_days(year, (quarter - 1) * 3 + 1, 1)
    } else {
        None
    }
}

/// The last day of a quarter of a year, as a day number.
pub open spec fn quarter_last_day(year: int, quarter: int) -> Option<int> {
    if 1 <= quarter <= 4 {
        last_day_spec(year, quarter * 3)
    } else {
        None
    }
}

/// The first day of a quarter (1 to 4) of a year, where it is in range.
pub fn quarter_start_date(year: i32, q: u8) -> (day: Option<Date>)
    ensures
        day_of(day) == quarter_first_day(year as int, q as int),
{
    if 1 <= q && q <= 4 {
        Date::from_ymd_opt(year, (q as u32 - 1) * 3 + 1, 1)
    } else {
        None
    }
}

/// The last day of a quarter (1 to 4) of a year, where it is in range.
pub fn quarter_end_date(year: i32, q: u8) -> (day: Option<Date>)
    ensures
        day_of(day) == quarter_last_day(year as int, q as int),
{
    if 1 <= q && q <= 4 {
        checked_last_day_of_month(year, q as u32 * 3)
    } else {
        None
    }
}

/// The same day of the year before, as a day number; none for a leap day.
pub open spec fn year_before(day: int) -> Option<int> {
    if year_of_days(day) > i32::MIN {
        civil_to_days(year_of_days(day) - 1, month_of_days(day), day_of_days(day))
    } else {
        None
    }
}

/// The same day of the year before; none for a leap day, whose year before
/// has no such day.
pub fn prior_year_date(d: Date) -> (day: Option<Date>)
    ensures
        day_of(day) == year_before(d@),
{
    let year = d.year();
    if year > i32::MIN {
        Date::from_ymd_opt(year - 1, d.month(), d.day())
    } else {
        None
    }
}

/// The year and quarter before the quarter of a day.
pub open spec fn quarter_before(year: int, quarter: int) -> (int, int) {
    if quarter == 1 {
        (year - 1, 4)
    } else {
        (year, quarter - 1)
    }
}

/// The day that lies as far into the quarter before as `day` lies into its
/// own (`day_of_quarter` days after the first), or the last day of the
/// quarter before where that quarter is shorter.
pub open spec fn quarter_day_before(day: int, day_of_quarter: int) -> Option<int> {
    let year = year_of_days(day);
    let quarter = quarter_of_month(month_of_days(day));
    let before = quarter_before(year, quarter);
    if year > i32::MIN {
        match (quarter_first_day(before.0, before.1), quarter_last_day(before.0, before.1)) {
            (Some(first), Some(last)) => if !in_range(first + day_of_quarter) || first
                + day_of_quarter > last {
                Some(last)
            } else {
                Some(first + day_of_quarter)
            },
            _ => None,
        }
    } else {
        None
    }
}

/// The day of the quarter before that compares with a day that lies
/// `day_of_quarter` days into its own quarter.
pub fn prior_quarter_date(d: Date, day_of_quarter: i32) -> (day: Option<Date>)
    ensures
        day_of(day) == quarter_day_before(d@, day_of_quarter as int),
{
    let year = d.year();
    if year == i32::MIN {
        return None;
    }
    let q = quarter_of(d);
    let (py, pq): (i32, u8) = if q == 1 {
        (year - 1, 4)
    } else {
        (year, q - 1)
    };
    match (quarter_start_date(py, pq), quarter_end_date(py, pq)) {
        (Some(first), Some(last)) => {
            match first.plus_days(day_of_quarter as i64) {
                Some(target) => {
                    if last.is_before(&target) {
                        Some(last)
                    } else {
                        Some(target)
                    }
                },
                None => Some(last),
            }
        },
        _ => None,
    }
}

/// The year and month before a month.
pub open spec fn month_before(year: int, month: int) -> (int, int) {
    if month == 1 {
        (year - 1, 12)
    } else {
        (year, month - 1)
    }
}

/// The same day of the month before, or its last day where it is shorter.
pub open spec fn month_day_before(day: int) -> Option<int> {
    let year = year_of_days(day);
    let before = month_before(year, month_of_days(day));
    if year > i32::MIN {
        match last_day_spec(before.0, before.1) {
            Some(last) => civil_to_days(
                before.0,
                before.1,
                if day_of_days(day) < day_of_days(last) {
                    day_of_days(day)
                } else {
                    day_of_days(last)
                },
            ),
            None => None,
        }
    } else {
        None
    }
}

/// The same day of the month before, or its last day where the month before
/// is shorter.
pub fn prior_month_date(d: Date) -> (day: Option<Date>)
    ensures
        day_of(day) == month_day_before(d@),
{
    let year = d.year();
    if year == i32::MIN {
        return None;
    }
    let month = d.month();
    let (py, pm): (i32, u32) = if month == 1 {
        (year - 1, 12)
    } else {
        (year, month - 1)
    };
    match checked_last_day_of_month(py, pm) {
        Some(last) => {
            let day = if d.day() < last.day() {
                d.day()
            } else {
                last.day()
            };
            Date::from_ymd_opt(py, pm, day)
        },
        None => None,
    }
}

/// The month in which the calendar table ends when today's month is
/// `month`: the last month of the quarter after today's, counted on past
/// December.
pub open spec fn table_end_month(month: int) -> int {
    ((month - 1) / 3 + 1) * 3 + 3
}

/// The days that the calendar table covers on the day `today`: from the
/// first day of the year before last to the end of the quarter after
/// today's, or, in the last quarter of a year, to the end of February of the
/// year after.
pub open spec fn table_span(today: int) -> Option<(int, int)> {
    let year = year_of_days(today);
    let end_month = table_end_month(month_of_days(today));
    if i32::MIN + 2 <= year < i32::MAX {
        match (
            civil_to_days(year - 2, 1, 1),
            if end_month > 12 {
                match civil_to_days(year + 1, end_month - 12, 1) {
                    Some(first) => if first > crate::date::MIN_DAYS {
                        Some(first - 1)
                    } else {
                        civil_to_days(year + 1, 3, 31)
                    },
                    None => None,
                }
            } else {
                last_day_spec(year, end_month)
            },
        ) {
            (Some(start), Some(end)) => Some((start, end)),
            _ => None,
        }
    } else {
        None
    }
}

/// The days that the calendar table covers on the day `today`.
pub fn dim_date_span(today: Date) -> (span: Option<(Date, Date)>)
    ensures
        range_of(span) == table_span(today@),
{
    let year = today.year();
    if year < i32::MIN + 2 || year == i32::MAX {
        return None;
    }
    let start = Date::from_ymd_opt(year - 2, 1, 1);
    let end_month: u32 = ((today.month() - 1) / 3 + 1) * 3 + 3;
    let end = if end_month > 12 {
        match Date::from_ymd_opt(year + 1, end_month - 12, 1) {
            Some(first) => match first.pred_opt() {
                Some(before) => Some(before),
                None => Date::from_ymd_opt(year + 1, 3, 31),
            },
            None => None,
        }
    } else {
        checked_last_day_of_month(year, end_month)
    };
    match (start, end) {
        (Some(s), Some(e)) => Some((s, e)),
        _ => None,
    }
}

/// The days that the calendar table still lacks, given the days it is to
/// cover and the last day it holds, if it holds any: all of them for an
/// empty table; those after the last day held, if there are any.
pub open spec fn missing_days(span: (int, int), held: Option<int>) -> Option<(int, int)> {
    match held {
        Some(last) => if span.1 <= last || !in_range(last + 1) {
            None
        } else {
            Some((last + 1, span.1))
        },
        None => Some(span),
    }
}

/// The days that the calendar table still lacks.
pub fn dim_date_missing(span: (Date, Date), held: Option<Date>) -> (missing: Option<(Date, Date)>)
    ensures
        range_of(missing) == missing_days((span.0@, span.1@), day_of(held)),
{
    match held {
        Some(last) => {
            if span.1.is_on_or_before(&last) {
                None
            } else {
                match last.succ_opt() {
                    Some(next) => Some((next, span.1)),
                    None => None,
                }
            }
        },
        None => Some(span),
    }
}

/// One row of the table of days.
#[derive(Debug, Clone, PartialEq, Eq)]
pub struct DimDateRow {
    pub date: Date,
    pub year: i32,
    pub quarter: u8,
    pub month: u32,
    /// The number of the ISO week.
    pub week: u32,
    /// 1 for Monday to 7 for Sunday.
    pub day_of_week: u32,
    pub day_of_month: u32,
    pub day_of_year: u32,
    pub is_weekend: bool,
    pub is_first_day_of_month: bool,
    pub is_last_day_of_month: bool,
    pub is_first_day_of_quarter: bool,
    pub is_last_day_of_quarter: bool,
    pub year_key: String,
    pub half_key: String,
    pub quarter_key: String,
    pub month_key: String,
    pub week_key: String,
    /// How many days after the first day of its quarter the day lies.
    pub day_of_quarter: i32,
    /// How many days after the first day of its half the day lies.
    pub day_of_half: i32,
    pub prior_year_date: Option<Date>,
    pub prior_quarter_date: Option<Date>,
    pub prior_month_date: Option<Date>,
}

/// A [`DimDateRow`] with its days as day numbers and its texts as sequences
/// of characters.
pub struct DimDateRowView {
    pub date: int,
    pub year: i32,
    pub quarter: u8,
    pub month: u32,
    pub week: u32,
    pub day_of_week: u32,
    pub day_of_month: u32,
    pub day_of_year: u32,
    pub is_weekend: bool,
    pub is_first_day_of_month: bool,
    pub is_last_day_of_month: bool,
    pub is_first_day_of_quarter: bool,
    pub is_last_day_of_quarter: bool,
    pub year_key: Seq<char>,
    pub half_key: Seq<char>,
    pub quarter_key: Seq<char>,
    pub month_key: Seq<char>,
    pub week_key: Seq<char>,
    pub day_of_quarter: i32,
    pub day_of_half: i32,
    pub prior_year_date: Option<int>,
    pub prior_quarter_date: Option<int>,
    pub prior_month_date: Option<int>,
}

impl View for DimDateRow {
    type V = DimDateRowView;

    open spec fn view(&self) -> DimDateRowView {
        DimDateRowView {
            date: self.date@,
            year: self.year,
            quarter: self.quarter,
            month: self.month,
            week: self.week,
            day_of_week: self.day_of_week,
            day_of_month: self.day_of_month,
            day_of_year: self.day_of_year,
            is_weekend: self.is_weekend,
            is_first_day_of_month: self.is_first_day_of_month,
            is_last_day_of_month: self.is_last_day_of_month,
            is_first_day_of_quarter: self.is_first_day_of_quarter,
            is_last_day_of_quarter: self.is_last_day_of_quarter,
            year_key: self.year_key@,
            half_key: self.half_key@,
            quarter_key: self.quarter_key@,
            month_key: self.month_key@,
            week_key: self.week_key@,
            day_of_quarter: self.day_of_quarter,
            day_of_half: self.day_of_half,
            prior_year_date: day_of(self.prior_year_date),
            prior_quarter_date: day_of(self.prior_quarter_date),
            prior_month_date: day_of(self.prior_month_date),
        }
    }
}

/// The view of an optional row.
pub open spec fn row_of(row: Option<DimDateRow>) -> Option<DimDateRowView> {
    match row {
        Some(r) => Some(r@),
        None => None,
    }
}

/// The half of the year that a quarter falls in.
pub open spec fn half_of_quarter(quarter: int) -> int {
    if quarter <= 2 {
        1
    } else {
        2
    }
}

/// The first day of a half of a year, as a day number.
pub open spec fn half_first_day(year: int, half: int) -> Option<int> {
    if half == 1 {
        civil_to_days(year, 1, 1)
    } else {
        civil_to_days(year, 7, 1)
    }
}

/// The row of the table of days for a day, where the calendar names the
/// first days of its quarter and half and the last days of its month and
/// quarter.
pub open spec fn date_row_spec(d: int) -> Option<DimDateRowView> {
    let year = year_of_days(d);
    let month = month_of_days(d);
    let quarter = quarter_of_month(month);
    let half = half_of_quarter(quarter);
    let weekday = days_from_monday(d) + 1;
    match (
        quarter_first_day(year, quarter),
        half_first_day(year, half),
        last_day_spec(year, month),
        quarter_last_day(year, quarter),
    ) {
        (Some(quarter_first), Some(half_first), Some(month_last), Some(quarter_last)) => Some(
            DimDateRowView {
                date: d,
                year: year as i32,
                quarter: quarter as u8,
                month: month as u32,
                week: iso_week_of(d) as u32,
                day_of_week: weekday as u32,
                day_of_month: day_of_days(d) as u32,
                day_of_year: ordinal_of(d) as u32,
                is_weekend: weekday >= 6,
                is_first_day_of_month: day_of_days(d) == 1,
                is_last_day_of_month: d == month_last,
                is_first_day_of_quarter: d == quarter_first,
                is_last_day_of_quarter: d == quarter_last,
                year_key: period_key(PeriodView::Year(year as i32)),
                half_key: period_key(PeriodView::Half(year as i32, half as u8)),
                quarter_key: period_key(PeriodView::Quarter(year as i32, quarter as u8)),
                month_key: period_key(PeriodView::Month(year as i32, month as u8)),
                week_key: period_key(
                    PeriodView::Week(iso_year_of(d) as i32, iso_week_of(d) as u8),
                ),
                day_of_quarter: (d - quarter_first) as i32,
                day_of_half: (d - half_first) as i32,
                prior_year_date: year_before(d),
                prior_quarter_date: quarter_day_before(d, ((d - quarter_first) as i32) as int),
                prior_month_date: month_day_before(d),
            },
        ),
        _ => None,
    }
}

/// The row of the table of days for a day.
pub fn date_row(d: Date) -> (row: Option<DimDateRow>)
    ensures
        row_of(row) == date_row_spec(d@),
{
    let year = d.year();
    let month = d.month();
    let quarter = quarter_of(d);
    let half: u8 = if quarter <= 2 {
        1
    } else {
        2
    };
    let weekday = d.weekday_from_monday() + 1;
    let half_first = if half == 1 {
        Date::from_ymd_opt(year, 1, 1)
    } else {
        Date::from_ymd_opt(year, 7, 1)
    };
    match (
        quarter_start_date(year, quarter),
        half_first,
        checked_last_day_of_month(year, month),
        quarter_end_date(year, quarter),
    ) {
        (Some(quarter_first), Some(half_start), Some(month_last), Some(quarter_last)) => {
            let day_of_quarter: i32 = d.days_from_ce() - quarter_first.days_from_ce();
            let day_of_half: i32 = d.days_from_ce() - half_start.days_from_ce();
            let iso_week = d.iso_week();
            Some(
                DimDateRow {
                    date: d,
                    year,
                    quarter,
                    month,
                    week: iso_week,
                    day_of_week: weekday,
                    day_of_month: d.day(),
                    day_of_year: d.ordinal(),
                    is_weekend: weekday >= 6,
                    is_first_day_of_month: d.day() == 1,
                    is_last_day_of_month: d.same_day(&month_last),
                    is_first_day_of_quarter: d.same_day(&quarter_first),
                    is_last_day_of_quarter: d.same_day(&quarter_last),
                    year_key: Period::Year(year).to_key(),
                    half_key: Period::Half(year, half).to_key(),
                    quarter_key: Period::Quarter(year, quarter).to_key(),
                    month_key: Period::Month(year, month as u8).to_key(),
                    week_key: Period::Week(d.iso_year(), iso_week as u8).to_key(),
                    day_of_quarter,
                    day_of_half,
                    prior_year_date: prior_year_date(d),
                    prior_quarter_date: prior_quarter_date(d, day_of_quarter),
                    prior_month_date: prior_month_date(d),
                },
            )
        },
        _ => None,
    }
}

/// The kind of a period, as the table of periods names it.
pub open spec fn period_type_name(p: PeriodView) -> Seq<char> {
    match p {
        PeriodView::Year(_) => "year"@,
        PeriodView::Half(_, _) => "half"@,
        PeriodView::Quarter(_, _) => "quarter"@,
        PeriodView::Month(_, _) => "month"@,
        PeriodView::Week(_, _) => "week"@,
        PeriodView::Rolling(_, _) => "rolling"@,
        PeriodView::YearToDate(_) => "year_to_date"@,
        PeriodView::HalfToDate(_, _) => "half_to_date"@,
        PeriodView::QuarterToDate(_, _) => "quarter_to_date"@,
        PeriodView::MonthToDate(_, _) => "month_to_date"@,
        PeriodView::WeekToDate(_, _) => "week_to_date"@,
    }
}

/// The kind of a period, as the table of periods names it.
pub fn period_type(p: &Period) -> (name: &'static str)
    ensures
        name@ == period_type_name(p@),
{
    match p {
        Period::Year(_) => "year",
        Period::Half(_, _) => "half",
        Period::Quarter(_, _) => "quarter",
        Period::Month(_, _) => "month",
        Period::Week(_, _) => "week",
        Period::Rolling(_, _) => "rolling",
        Period::YearToDate(_) => "year_to_date",
        Period::HalfToDate(_, _) => "half_to_date",
        Period::QuarterToDate(_, _) => "quarter_to_date",
        Period::MonthToDate(_, _) => "month_to_date",
        Period::WeekToDate(_, _) => "week_to_date",
    }
}

/// The period that the table of periods names as the one before a year,
/// half, quarter or month: the part before, or the last part of the year
/// before. For an ISO week it is the week that holds the day seven days
/// before its Monday. Other periods have no row.
pub open spec fn row_prior(p: PeriodView) -> Option<PeriodView> {
    match p {
        PeriodView::Year(y) => if y > i32::MIN {
            Some(PeriodView::Year((y - 1) as i32))
        } else {
            None
        },
        PeriodView::Half(y, h) => if h != 1 {
            Some(PeriodView::Half(y, 1))
        } else if y > i32::MIN {
            Some(PeriodView::Half((y - 1) as i32, 2))
        } else {
            None
        },
        PeriodView::Quarter(y, q) => if q > 1 {
            Some(PeriodView::Quarter(y, (q - 1) as u8))
        } else if q == 1 && y > i32::MIN {
            Some(PeriodView::Quarter((y - 1) as i32, 4))
        } else {
            None
        },
        PeriodView::Month(y, m) => if m > 1 {
            Some(PeriodView::Month(y, (m - 1) as u8))
        } else if m == 1 && y > i32::MIN {
            Some(PeriodView::Month((y - 1) as i32, 12))
        } else {
            None
        },
        PeriodView::Week(y, w) => match iso_week_start(y as int, w as int) {
            Some(monday) => if in_range(monday - 7) {
                Some(
                    PeriodView::Week(
                        iso_year_of(monday - 7) as i32,
                        iso_week_of(monday - 7) as u8,
                    ),
                )
            } else {
                None
            },
            None => None,
        },
        _ => None,
    }
}

/// The period that the table of periods names as the one before a period.
pub fn prior_for_row(p: &Period) -> (prior: Option<Period>)
    ensures
        period_of(prior) == row_prior(p@),
{
    match p {
        Period::Year(y) => {
            if *y > i32::MIN {
                Some(Period::Year(*y - 1))
            } else {
                None
            }
        },
        Period::Half(y, h) => {
            if *h != 1 {
                Some(Period::Half(*y, 1))
            } else if *y > i32::MIN {
                Some(Period::Half(*y - 1, 2))
            } else {
                None
            }
        },
        Period::Quarter(y, q) => {
            if *q > 1 {
                Some(Period::Quarter(*y, *q - 1))
            } else if *q == 1 && *y > i32::MIN {
                Some(Period::Quarter(*y - 1, 4))
            } else {
                None
            }
        },
        Period::Month(y, m) => {
            if *m > 1 {
                Some(Period::Month(*y, *m - 1))
            } else if *m == 1 && *y > i32::MIN {
                Some(Period::Month(*y - 1, 12))
            } else {
                None
            }
        },
        Period::Week(y, w) => match Date::from_iso_week(*y, *w as u32) {
            Some(monday) => match monday.plus_days(-7) {
                Some(before) => Some(Period::Week(before.iso_year(), before.iso_week() as u8)),
                None => None,
            },
            None => None,
        },
        _ => None,
    }
}

/// The label of a year, half, quarter, month or ISO week in the table of
/// periods; other periods are labelled by their key.
pub open spec fn period_label_text(p: PeriodView) -> Seq<char> {
    match p {
        PeriodView::Year(y) => crate::query::builder::signed_decimal(y as int),
        PeriodView::Half(y, h) => (if h == 1 {
            "H1 "@
        } else {
            "H2 "@
        }) + crate::query::builder::signed_decimal(y as int),
        PeriodView::Quarter(y, q) => "Q"@ + crate::text::decimal(q as nat) + " "@
            + crate::query::builder::signed_decimal(y as int),
        PeriodView::Month(y, m) => month_name(m as int) + " "@
            + crate::query::builder::signed_decimal(y as int),
        PeriodView::Week(y, w) => "Week "@ + crate::text::decimal(w as nat) + ", "@
            + crate::query::builder::signed_decimal(y as int),
        _ => period_key(p),
    }
}

/// The label of a period in the table of periods.
pub fn period_label(p: &Period) -> (label: String)
    ensures
        label@ == period_label_text(p@),
{
    match p {
        Period::Year(y) => crate::query::builder::signed_decimal_text(*y),
        Period::Half(y, h) => {
            let mut label = if *h == 1 {
                String::from_str("H1 ")
            } else {
                String::from_str("H2 ")
            };
            label.append(crate::query::builder::signed_decimal_text(*y).as_str());
            label
        },
        Period::Quarter(y, q) => {
            let mut label = String::from_str("Q");
            crate::text::push_decimal(&mut label, *q as u64);
            label.append(" ");
            label.append(crate::query::builder::signed_decimal_text(*y).as_str());
            label
        },
        Period::Month(y, m) => {
            let mut label = String::from_str(month_label(*m as u32));
            label.append(" ");
            label.append(crate::query::builder::signed_decimal_text(*y).as_str());
            label
        },
        Period::Week(y, w) => {
            let mut label = String::from_str("Week ");
            crate::text::push_decimal(&mut label, *w as u64);
            label.append(", ");
            label.append(crate::query::builder::signed_decimal_text(*y).as_str());
            label
        },
        _ => p.to_key(),
    }
}

/// One row of the table of periods.
#[derive(Debug, Clone, PartialEq, Eq)]
pub struct DimPeriodRow {
    pub period_key: String,
    pub period_type: String,
    pub label: String,
    pub start: Date,
    pub end: Date,
    pub days_in_period: i64,
    /// The key of the period before, where there is one.
    pub prior_period_key: Option<String>,
}

/// A [`DimPeriodRow`] with its days as day numbers and its texts as
/// sequences of characters.
pub struct DimPeriodRowView {
    pub period_key: Seq<char>,
    pub period_type: Seq<char>,
    pub label: Seq<char>,
    pub start: int,
    pub end: int,
    pub days_in_period: i64,
    pub prior_period_key: Option<Seq<char>>,
}

impl View for DimPeriodRow {
    type V = DimPeriodRowView;

    open spec fn view(&self) -> DimPeriodRowView {
        DimPeriodRowView {
            period_key: self.period_key@,
            period_type: self.period_type@,
            label: self.label@,
            start: self.start@,
            end: self.end@,
            days_in_period: self.days_in_period,
            prior_period_key: crate::sync::events::text_of(self.prior_period_key),
        }
    }
}

/// The row of the table of periods for a period, where the period has days.
pub open spec fn period_row_spec(p: PeriodView, today: int) -> Option<DimPeriodRowView> {
    match period_range(p, today) {
        Some(range) => Some(
            DimPeriodRowView {
                period_key: period_key(p),
                period_type: period_type_name(p),
                label: period_label_text(p),
                start: range.0,
                end: range.1,
                days_in_period: (range.1 - range.0 + 1) as i64,
                prior_period_key: match row_prior(p) {
                    Some(before) => Some(period_key(before)),
                    None => None,
                },
            },
        ),
        None => None,
    }
}

/// The row of the table of periods for a period, where the period has days.
/// `today` matters for periods up to today alone.
pub fn period_row(p: &Period, today: Date) -> (row: Option<DimPeriodRow>)
    ensures
        (match row {
            Some(r) => Some(r@),
            None => None,
        }) == period_row_spec(p@, today@),
{
    match p.date_range(today) {
        Some((start, end)) => {
            let days: i64 = end.days_from_ce() as i64 - start.days_from_ce() as i64 + 1;
            let prior_period_key = match prior_for_row(p) {
                Some(before) => Some(before.to_key()),
                None => None,
            };
            Some(
                DimPeriodRow {
                    period_key: p.to_key(),
                    period_type: String::from_str(period_type(p)),
                    label: period_label(p),
                    start,
                    end,
                    days_in_period: days,
                    prior_period_key,
                },
            )
        },
        None => None,
    }
}

/// The periods of a year that have a row in the table of periods: the year,
/// its halves, its quarters and its months, in that order.
pub open spec fn year_periods(year: i32) -> Seq<PeriodView> {
    seq![
        PeriodView::Year(year),
        PeriodView::Half(year, 1),
        PeriodView::Half(year, 2),
        PeriodView::Quarter(year, 1),
        PeriodView::Quarter(year, 2),
        PeriodView::Quarter(year, 3),
        PeriodView::Quarter(year, 4),
    ] + Seq::new(12, |m: int| PeriodView::Month(year, (m + 1) as u8))
}

/// The periods of a list, as views.
pub open spec fn periods_of(periods: Seq<Period>) -> Seq<PeriodView> {
    periods.map_values(|p: Period| p@)
}

/// The periods of a year that have a row in the table of periods, but for
/// its weeks.
pub fn periods_of_year(year: i32) -> (periods: Vec<Period>)
    ensures
        periods_of(periods@) == year_periods(year),
{
    let mut periods: Vec<Period> = Vec::new();
    periods.push(Period::Year(year));
    periods.push(Period::Half(year, 1));
    periods.push(Period::Half(year, 2));
    periods.push(Period::Quarter(year, 1));
    periods.push(Period::Quarter(year, 2));
    periods.push(Period::Quarter(year, 3));
    periods.push(Period::Quarter(year, 4));
    let ghost head = periods_of(periods@);
    let mut m: u8 = 1;
    proof {
        assert(head =~= seq![
            PeriodView::Year(year),
            PeriodView::Half(year, 1),
            PeriodView::Half(year, 2),
            PeriodView::Quarter(year, 1),
            PeriodView::Quarter(year, 2),
            PeriodView::Quarter(year, 3),
            PeriodView::Quarter(year, 4),
        ]);
        assert(periods_of(periods@) =~= head + Seq::new(
            0,
            |k: int| PeriodView::Month(year, (k + 1) as u8),
        ));
    }
    while m <= 12
        invariant
            1 <= m <= 13,
            periods_of(periods@) == head + Seq::new(
                (m - 1) as nat,
                |k: int| PeriodView::Month(year, (k + 1) as u8),
            ),
        decreases 13 - m,
    {
        let ghost before = periods_of(periods@);
        periods.push(Period::Month(year, m));
        proof {
            assert(Seq::new(m as nat, |k: int| PeriodView::Month(year, (k + 1) as u8)) =~= Seq::new(
                (m - 1) as nat,
                |k: int| PeriodView::Month(year, (k + 1) as u8),
            ).push(PeriodView::Month(year, m)));
            assert(periods_of(periods@) =~= before.push(PeriodView::Month(year, m)));
            assert(periods_of(periods@) =~= head + Seq::new(
                m as nat,
                |k: int| PeriodView::Month(year, (k + 1) as u8),
            ));
        }
        m += 1;
    }
    periods
}

} // verus!
