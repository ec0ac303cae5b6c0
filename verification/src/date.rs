//! Calendar days.
//!
//! A [`Date`] is a day of the proleptic Gregorian calendar, held as the number
//! that `chrono` gives it (January 1 of year 1 is day 1). Ordering and day
//! arithmetic are plain integer arithmetic on that number. Which number a
//! year, a month and a day have is stated here ([`civil_to_days`]), and so is
//! the place of a day in its week; the dates themselves are made and taken
//! apart by `chrono`, which is trusted to keep to that calendar.

use chrono::Datelike;
use vstd::prelude::*;

verus! {

/// Day number of the first day that `chrono::NaiveDate` can hold.
pub const MIN_DAYS: i32 = -95_746_129;

/// Day number of the last day that `chrono::NaiveDate` can hold.
pub const MAX_DAYS: i32 = 95_745_399;

/// Whether `n` is the number of a day that a [`Date`] can hold.
pub open spec fn in_range(n: int) -> bool {
    MIN_DAYS <= n <= MAX_DAYS
}

/// Whether a year of the proleptic Gregorian calendar has 366 days.
pub open spec fn is_leap_year(year: int) -> bool {
    year % 4 == 0 && (year % 100 != 0 || year % 400 == 0)
}

/// How many days a month of a year has.
pub open spec fn days_in_month(year: int, month: int) -> int {
    if month == 2 {
        if is_leap_year(year) {
            29
        } else {
            28
        }
    } else if month == 4 || month == 6 || month == 9 || month == 11 {
        30
    } else {
        31
    }
}

/// How many days of a year lie before the first of a month.
pub open spec fn days_before_month(year: int, month: int) -> int
    decreases month,
{
    if month <= 1 {
        0
    } else {
        days_before_month(year, month - 1) + days_in_month(year, month - 1)
    }
}

/// How many days lie between the last day of the year 0 and the first day of
/// a year; for a year before the year 1, the days from its first day through
/// the last day of the year 0, negated.
pub open spec fn days_before_year(year: int) -> int {
    365 * (year - 1) + (year - 1) / 4 - (year - 1) / 100 + (year - 1) / 400
}

/// The day number of a year, a month and a day of the proleptic Gregorian
/// calendar, with the first of January of the year 1 as day 1; `None` where
/// the calendar has no such day or the day is not in range.
pub open spec fn civil_to_days(year: int, month: int, day: int) -> Option<int> {
    let n = days_before_year(year) + days_before_month(year, month) + day;
    if 1 <= month <= 12 && 1 <= day <= days_in_month(year, month) && in_range(n) {
        Some(n)
    } else {
        None
    }
}

/// The calendar year in which `chrono` places the day with number `days`.
/// For a day in range it is the year under which [`civil_to_days`] has the
/// day: see [`names_its_day`].
pub uninterp spec fn year_of_days(days: int) -> int;

/// The month, from 1, in which `chrono` places the day with number `days`.
pub uninterp spec fn month_of_days(days: int) -> int;

/// The day of the month, from 1, that `chrono` gives the day with number `days`.
pub uninterp spec fn day_of_days(days: int) -> int;

/// Whether the year, the month and the day that `chrono` gives the day with
/// number `days` are those of that day in the calendar.
pub open spec fn names_its_day(days: int) -> bool {
    civil_to_days(year_of_days(days), month_of_days(days), day_of_days(days)) == Some(days)
}

/// Calls `chrono::NaiveDate::from_ymd_opt` and hands the date back as its day
/// number (`Datelike::num_days_from_ce`).
///
/// Trusted: the result is [`civil_to_days`]: `chrono` counts the days of the
/// proleptic Gregorian calendar from the first of January of the year 1 as
/// day 1, and holds the days from [`MIN_DAYS`] to [`MAX_DAYS`].
#[verifier::external_body]
fn chrono_from_ymd(year: i32, month: u32, day: u32) -> (r: Option<i32>)
    ensures
        r is Some <==> civil_to_days(year as int, month as int, day as int) is Some,
        r matches Some(n) ==> civil_to_days(year as int, month as int, day as int) == Some(
            n as int,
        ) && in_range(n as int),
{
    chrono::NaiveDate::from_ymd_opt(year, month, day).map(|d| d.num_days_from_ce())
}

/// Calls `Datelike::year` on the `chrono::NaiveDate` with day number `days`.
///
/// Trusted: the result is the one named [`year_of_days`], and the year, the
/// month and the day that `chrono` gives a date are those of the date in the
/// calendar. The day number must be one that `chrono` can hold.
#[verifier::external_body]
fn chrono_year(days: i32) -> (y: i32)
    requires
        in_range(days as int),
    ensures
        y == year_of_days(days as int),
        civil_to_days(y as int, month_of_days(days as int), day_of_days(days as int)) == Some(
            days as int,
        ),
{
    chrono::NaiveDate::from_num_days_from_ce_opt(days).unwrap().year()
}

/// Calls `Datelike::month` on the `chrono::NaiveDate` with day number `days`.
///
/// Trusted: the result is the one named [`month_of_days`], and it lies
/// between 1 and 12, as the method's documentation says; and the year, the
/// month and the day that `chrono` gives a date are those of the date in the
/// calendar. The day number must be one that `chrono` can hold.
#[verifier::external_body]
fn chrono_month(days: i32) -> (m: u32)
    requires
        in_range(days as int),
    ensures
        m == month_of_days(days as int),
        1 <= m <= 12,
        civil_to_days(year_of_days(days as int), m as int, day_of_days(days as int)) == Some(
            days as int,
        ),
{
    chrono::NaiveDate::from_num_days_from_ce_opt(days).unwrap().month()
}

/// Calls `Datelike::day` on the `chrono::NaiveDate` with day number `days`.
///
/// Trusted: the result is the one named [`day_of_days`], and it lies between
/// 1 and 31, as the method's documentation says; and the year, the month and
/// the day that `chrono` gives a date are those of the date in the calendar.
/// The day number must be one that `chrono` can hold.
#[verifier::external_body]
fn chrono_day(days: i32) -> (d: u32)
    requires
        in_range(days as int),
    ensures
        d == day_of_days(days as int),
        1 <= d <= 31,
        civil_to_days(year_of_days(days as int), month_of_days(days as int), d as int) == Some(
            days as int,
        ),
{
    chrono::NaiveDate::from_num_days_from_ce_opt(days).unwrap().day()
}

/// What `chrono::NaiveDate::parse_from_str` makes of a text under the format
/// `%Y-%m-%d`: the day number of the date that the text writes, or `None`
/// where the text does not write one.
pub uninterp spec fn parsed_ymd(text: Seq<char>) -> Option<int>;

/// Calls `chrono::NaiveDate::parse_from_str` with the format `%Y-%m-%d` and
/// hands the date back as its day number (`Datelike::num_days_from_ce`).
///
/// Trusted: the result is the one named [`parsed_ymd`], and a day number
/// that comes back lies between [`MIN_DAYS`] and [`MAX_DAYS`].
#[verifier::external_body]
fn chrono_parse_ymd(text: &str) -> (r: Option<i32>)
    ensures
        r is Some <==> parsed_ymd(text@) is Some,
        r matches Some(n) ==> parsed_ymd(text@) == Some(n as int) && in_range(n as int),
{
    chrono::NaiveDate::parse_from_str(text, "%Y-%m-%d").ok().map(|d| d.num_days_from_ce())
}

/// The year of the ISO week in which `chrono` places the day with number
/// `days`. It can differ from the calendar year in the first and last days
/// of a year.
pub uninterp spec fn iso_year_of(days: int) -> int;

/// The number, from 1, of the ISO week in which `chrono` places the day with
/// number `days`.
pub uninterp spec fn iso_week_of(days: int) -> int;

/// The first year whose ISO weeks can have a day in range.
pub const MIN_ISO_YEAR: i32 = -262_144;

/// The last year whose ISO weeks can have a day in range.
pub const MAX_ISO_YEAR: i32 = 262_143;

/// What `chrono::NaiveDate::from_isoywd_opt` makes of a year, a week and
/// Monday: the day number of the Monday of that ISO week, or `None` where the
/// year has no such week or the day is out of range. The name speaks of the
/// years from [`MIN_ISO_YEAR`] to [`MAX_ISO_YEAR`] only.
pub uninterp spec fn iso_week_monday(year: int, week: int) -> Option<int>;

/// The day number of the Monday of an ISO week of a year: what `chrono`
/// makes of the year and the week where the year lies between
/// [`MIN_ISO_YEAR`] and [`MAX_ISO_YEAR`], and none for any other year, whose
/// weeks have no day in range.
pub open spec fn iso_week_start(year: int, week: int) -> Option<int> {
    if MIN_ISO_YEAR <= year <= MAX_ISO_YEAR {
        iso_week_monday(year, week)
    } else {
        None
    }
}

/// Calls `Datelike::iso_week` on the `chrono::NaiveDate` with day number
/// `days`, and `IsoWeek::year` on the week.
///
/// Trusted: the result is the one named [`iso_year_of`]. The day number must
/// be one that `chrono` can hold.
#[verifier::external_body]
fn chrono_iso_year(days: i32) -> (y: i32)
    requires
        in_range(days as int),
    ensures
        y == iso_year_of(days as int),
{
    chrono::NaiveDate::from_num_days_from_ce_opt(days).unwrap().iso_week().year()
}

/// Calls `Datelike::iso_week` on the `chrono::NaiveDate` with day number
/// `days`, and `IsoWeek::week` on the week.
///
/// Trusted: the result is the one named [`iso_week_of`], and it lies between
/// 1 and 53, as the method's documentation says. The day number must be one
/// that `chrono` can hold.
#[verifier::external_body]
fn chrono_iso_week(days: i32) -> (w: u32)
    requires
        in_range(days as int),
    ensures
        w == iso_week_of(days as int),
        1 <= w <= 53,
{
    chrono::NaiveDate::from_num_days_from_ce_opt(days).unwrap().iso_week().week()
}

/// Calls `chrono::NaiveDate::from_isoywd_opt` with `chrono::Weekday::Mon`
/// and hands the date back as its day number (`Datelike::num_days_from_ce`).
///
/// Trusted: the result is the one named [`iso_week_monday`], and a day
/// number that comes back lies between [`MIN_DAYS`] and [`MAX_DAYS`]. The
/// year must lie between [`MIN_ISO_YEAR`] and [`MAX_ISO_YEAR`]: the function
/// looks at the year before and the year after, and its arithmetic runs over
/// at the ends of `i32`.
#[verifier::external_body]
fn chrono_from_iso_week(year: i32, week: u32) -> (r: Option<i32>)
    requires
        MIN_ISO_YEAR <= year <= MAX_ISO_YEAR,
    ensures
        r is Some <==> iso_week_monday(year as int, week as int) is Some,
        r matches Some(n) ==> iso_week_monday(year as int, week as int) == Some(n as int)
            && in_range(n as int),
{
    chrono::NaiveDate::from_isoywd_opt(year, week, chrono::Weekday::Mon).map(
        |d| d.num_days_from_ce(),
    )
}

/// How many days after Monday the day with number `days` lies in its week:
/// 0 for a Monday, 6 for a Sunday. Day 1, the first of January of the year
/// 1, is a Monday.
pub open spec fn days_from_monday(days: int) -> int {
    (days - 1) % 7
}

/// The day of the year, from 1, that `chrono` gives the day with number
/// `days`.
pub uninterp spec fn ordinal_of(days: int) -> int;

/// What `chrono` writes for the day with number `days` under the format
/// `%Y-%m-%d`.
pub uninterp spec fn ymd_text(days: int) -> Seq<char>;

/// Calls `Datelike::weekday` on the `chrono::NaiveDate` with day number
/// `days`, and `Weekday::num_days_from_monday` on the weekday.
///
/// Trusted: the result is [`days_from_monday`] of the day number, the place
/// of the day in a week of seven days that begins on Monday. The day number
/// must be one that `chrono` can hold.
#[verifier::external_body]
fn chrono_days_from_monday(days: i32) -> (n: u32)
    requires
        in_range(days as int),
    ensures
        n == days_from_monday(days as int),
        n <= 6,
{
    chrono::NaiveDate::from_num_days_from_ce_opt(days).unwrap().weekday().num_days_from_monday()
}

/// Calls `Datelike::ordinal` on the `chrono::NaiveDate` with day number
/// `days`.
///
/// Trusted: the result is the one named [`ordinal_of`], and it lies between
/// 1 and 366, as the method's documentation says. The day number must be one
/// that `chrono` can hold.
#[verifier::external_body]
fn chrono_ordinal(days: i32) -> (n: u32)
    requires
        in_range(days as int),
    ensures
        n == ordinal_of(days as int),
        1 <= n <= 366,
{
    chrono::NaiveDate::from_num_days_from_ce_opt(days).unwrap().ordinal()
}

/// Calls `chrono::NaiveDate::format` with the format `%Y-%m-%d` on the date
/// with day number `days`, and writes the result out.
///
/// Trusted: the result is the one named [`ymd_text`]. The day number must be
/// one that `chrono` can hold.
#[verifier::external_body]
fn chrono_format_ymd(days: i32) -> (text: String)
    requires
        in_range(days as int),
    ensures
        text@ == ymd_text(days as int),
{
    chrono::NaiveDate::from_num_days_from_ce_opt(days).unwrap().format("%Y-%m-%d").to_string()
}

/// A calendar day that `chrono::NaiveDate` can hold.
#[derive(Clone, Copy, Debug, PartialEq, Eq, PartialOrd, Ord, Hash)]
pub struct Date {
    days: i32,
}

impl View for Date {
    type V = int;

    /// The day number.
    closed spec fn view(&self) -> int {
        self.days as int
    }
}

impl Date {
    #[verifier::type_invariant]
    spec fn representable(self) -> bool {
        in_range(self.days as int)
    }

    /// The date with day number `days`, if there is one.
    pub fn from_days_ce(days: i32) -> (r: Option<Date>)
        ensures
            r is Some <==> in_range(days as int),
            r matches Some(d) ==> d@ == days,
    {
        if MIN_DAYS <= days && days <= MAX_DAYS {
            Some(Date { days })
        } else {
            None
        }
    }

    /// The day number of this date.
    pub fn days_from_ce(&self) -> (n: i32)
        ensures
            n == self@,
            in_range(n as int),
    {
        proof {
            use_type_invariant(self);
        }
        self.days
    }

    /// The date of a year, a month and a day of the month, where the calendar
    /// has such a day and it is in range.
    pub fn from_ymd_opt(year: i32, month: u32, day: u32) -> (r: Option<Date>)
        ensures
            r is Some <==> civil_to_days(year as int, month as int, day as int) is Some,
            r matches Some(d) ==> civil_to_days(year as int, month as int, day as int) == Some(d@),
    {
        match chrono_from_ymd(year, month, day) {
            Some(n) => Some(Date { days: n }),
            None => None,
        }
    }

    /// The date that a text writes as year, month and day with hyphens
    /// between them, if it writes one.
    pub fn parse_ymd(text: &str) -> (r: Option<Date>)
        ensures
            r is Some <==> parsed_ymd(text@) is Some,
            r matches Some(d) ==> parsed_ymd(text@) == Some(d@),
    {
        match chrono_parse_ymd(text) {
            Some(n) => Some(Date { days: n }),
            None => None,
        }
    }

    /// The calendar year of this date.
    pub fn year(&self) -> (y: i32)
        ensures
            y == year_of_days(self@),
            names_its_day(self@),
    {
        proof {
            use_type_invariant(self);
        }
        chrono_year(self.days)
    }

    /// The month of this date, from 1.
    pub fn month(&self) -> (m: u32)
        ensures
            m == month_of_days(self@),
            1 <= m <= 12,
            names_its_day(self@),
    {
        proof {
            use_type_invariant(self);
        }
        chrono_month(self.days)
    }

    /// The day of the month of this date, from 1.
    pub fn day(&self) -> (d: u32)
        ensures
            d == day_of_days(self@),
            1 <= d <= 31,
            names_its_day(self@),
    {
        proof {
            use_type_invariant(self);
        }
        chrono_day(self.days)
    }

    /// The Monday of an ISO week of a year, where the year has such a week
    /// and the day is in range.
    pub fn from_iso_week(year: i32, week: u32) -> (r: Option<Date>)
        ensures
            r is Some <==> iso_week_start(year as int, week as int) is Some,
            r matches Some(d) ==> iso_week_start(year as int, week as int) == Some(d@),
    {
        if year < MIN_ISO_YEAR || year > MAX_ISO_YEAR {
            return None;
        }
        match chrono_from_iso_week(year, week) {
            Some(n) => Some(Date { days: n }),
            None => None,
        }
    }

    /// The year of the ISO week of this date.
    pub fn iso_year(&self) -> (y: i32)
        ensures
            y == iso_year_of(self@),
    {
        proof {
            use_type_invariant(self);
        }
        chrono_iso_year(self.days)
    }

    /// The number of the ISO week of this date, from 1.
    pub fn iso_week(&self) -> (w: u32)
        ensures
            w == iso_week_of(self@),
            1 <= w <= 53,
    {
        proof {
            use_type_invariant(self);
        }
        chrono_iso_week(self.days)
    }

    /// How many days after Monday this date lies in its week.
    pub fn weekday_from_monday(&self) -> (n: u32)
        ensures
            n == days_from_monday(self@),
            n <= 6,
    {
        proof {
            use_type_invariant(self);
        }
        chrono_days_from_monday(self.days)
    }

    /// The day of the year of this date, from 1.
    pub fn ordinal(&self) -> (n: u32)
        ensures
            n == ordinal_of(self@),
            1 <= n <= 366,
    {
        proof {
            use_type_invariant(self);
        }
        chrono_ordinal(self.days)
    }

    /// This date written as year, month and day with hyphens between them.
    pub fn to_iso_string(&self) -> (text: String)
        ensures
            text@ == ymd_text(self@),
    {
        proof {
            use_type_invariant(self);
        }
        chrono_format_ymd(self.days)
    }

    /// The date so many days after this one (before it, for a negative
    /// number), if it is in range.
    pub fn plus_days(&self, days: i64) -> (r: Option<Date>)
        ensures
            r is Some <==> in_range(self@ + days),
            r matches Some(d) ==> d@ == self@ + days,
    {
        proof {
            use_type_invariant(self);
        }
        // No two days in range lie this far apart.
        if days < -0x1000_0000 || days > 0x1000_0000 {
            return None;
        }
        let moved: i64 = self.days as i64 + days;
        if moved < MIN_DAYS as i64 || moved > MAX_DAYS as i64 {
            None
        } else {
            Some(Date { days: moved as i32 })
        }
    }

    /// The day after this one; `None` on the last day in range.
    pub fn succ_opt(&self) -> (r: Option<Date>)
        ensures
            r is Some <==> self@ < MAX_DAYS,
            r is Some <==> in_range(self@ + 1),
            r matches Some(d) ==> d@ == self@ + 1,
    {
        proof {
            use_type_invariant(self);
        }
        if self.days < MAX_DAYS {
            Some(Date { days: self.days + 1 })
        } else {
            None
        }
    }

    /// The day before this one; `None` on the first day in range.
    pub fn pred_opt(&self) -> (r: Option<Date>)
        ensures
            r is Some <==> self@ > MIN_DAYS,
            r is Some <==> in_range(self@ - 1),
            r matches Some(d) ==> d@ == self@ - 1,
    {
        proof {
            use_type_invariant(self);
        }
        if self.days > MIN_DAYS {
            Some(Date { days: self.days - 1 })
        } else {
            None
        }
    }

    /// Whether this date comes strictly before `other`.
    pub fn is_before(&self, other: &Date) -> (b: bool)
        ensures
            b == (self@ < other@),
    {
        self.days < other.days
    }

    /// Whether this date is `other` or comes before it.
    pub fn is_on_or_before(&self, other: &Date) -> (b: bool)
        ensures
            b == (self@ <= other@),
    {
        self.days <= other.days
    }

    /// Whether the two dates are the same day.
    pub fn same_day(&self, other: &Date) -> (b: bool)
        ensures
            b == (self@ == other@),
    {
        self.days == other.days
    }
}

} // verus!
