//! Small helpers: the last day of a month, the quarter of a date, and taking
//! the code fence off a reply of a language model.

use crate::date::{
    civil_to_days, day_of_days, days_before_month, days_before_year, days_in_month,
    is_leap_year, month_of_days, names_its_day, year_of_days, Date, MAX_DAYS, MIN_DAYS,
};
use crate::text::{
    chars_of, has_prefix, has_suffix, trim_window, trimmed, window_ends_with, window_starts_with,
};
use vstd::prelude::*;

verus! {

/// The day number of the first day of the month after `month` of `year`, as
/// the calendar gives it. Month 12 leads to January of the next year.
pub open spec fn next_month_start(year: int, month: int) -> Option<int> {
    if month == 12 {
        if year < i32::MAX {
            civil_to_days(year + 1, 1, 1)
        } else {
            None
        }
    } else if 0 <= month < u32::MAX {
        civil_to_days(year, month + 1, 1)
    } else {
        None
    }
}

/// The day number of the last day of `month` of `year`: the day before the
/// first day of the month after it, where both days are in range.
pub open spec fn last_day_spec(year: int, month: int) -> Option<int> {
    match next_month_start(year, month) {
        Some(first) => if first > MIN_DAYS {
            Some(first - 1)
        } else {
            None
        },
        None => None,
    }
}

/// A year is 365 days long, or 366 if it is a leap year; so far apart are
/// its first day and that of the next year.
pub proof fn lemma_year_length(year: int)
    ensures
        days_before_year(year + 1) == days_before_year(year) + if is_leap_year(year) {
            366int
        } else {
            365int
        },
        days_before_month(year, 12) + 31 == if is_leap_year(year) {
            366int
        } else {
            365int
        },
{
    reveal_with_fuel(days_before_month, 13);
}

/// A day that the calendar has and that is in range lies in a year that is
/// far from the ends of `i32`.
pub proof fn lemma_civil_bounds(year: int, month: int, day: int)
    requires
        civil_to_days(year, month, day) is Some,
    ensures
        -262_144 < year < 262_143,
        0 <= days_before_month(year, month) <= 335,
{
    reveal_with_fuel(days_before_month, 13);
}

/// How many days of a year that is no leap year lie before the first of a
/// month, for the months 1 to 12, and 13 for the whole year.
pub open spec fn month_start_table(month: int) -> int {
    if month <= 1 {
        0
    } else if month == 2 {
        31
    } else if month == 3 {
        59
    } else if month == 4 {
        90
    } else if month == 5 {
        120
    } else if month == 6 {
        151
    } else if month == 7 {
        181
    } else if month == 8 {
        212
    } else if month == 9 {
        243
    } else if month == 10 {
        273
    } else if month == 11 {
        304
    } else if month == 12 {
        334
    } else {
        365
    }
}

/// The days before a month are those of the table, and one more from March
/// on in a leap year.
pub proof fn lemma_month_starts(year: int, month: int)
    requires
        1 <= month <= 13,
    ensures
        days_before_month(year, month) == month_start_table(month) + if is_leap_year(year)
            && month >= 3 {
            1int
        } else {
            0int
        },
{
    reveal_with_fuel(days_before_month, 14);
}

/// No day has two names: a year, a month and a day of the month name at most
/// one day, and a day is named by at most one of them.
pub proof fn lemma_day_has_one_name(
    year: int,
    month: int,
    day: int,
    other_year: int,
    other_month: int,
    other_day: int,
)
    requires
        civil_to_days(year, month, day) is Some,
        civil_to_days(year, month, day) == civil_to_days(other_year, other_month, other_day),
    ensures
        year == other_year,
        month == other_month,
        day == other_day,
{
    lemma_civil_bounds(year, month, day);
    lemma_civil_bounds(other_year, other_month, other_day);
    lemma_month_starts(year, month);
    lemma_month_starts(other_year, other_month);
    lemma_month_starts(year, month + 1);
    lemma_month_starts(other_year, other_month + 1);
    lemma_year_length(year);
    lemma_year_length(other_year);
    if year < other_year {
        lemma_years_in_order(year + 1, other_year);
    } else if other_year < year {
        lemma_years_in_order(other_year + 1, year);
    }
}

/// A later year starts later.
pub proof fn lemma_years_in_order(year: int, later: int)
    requires
        year <= later,
    ensures
        days_before_year(year) <= days_before_year(later),
    decreases later - year,
{
    if year < later {
        lemma_year_length(year);
        lemma_years_in_order(year + 1, later);
    }
}

/// The year, the month and the day that `chrono` gives a day are those under
/// which the calendar has it.
pub proof fn lemma_names_of_day(days: int, year: int, month: int, day: int)
    requires
        names_its_day(days),
        civil_to_days(year, month, day) == Some(days),
    ensures
        year_of_days(days) == year,
        month_of_days(days) == month,
        day_of_days(days) == day,
{
    lemma_day_has_one_name(
        year,
        month,
        day,
        year_of_days(days),
        month_of_days(days),
        day_of_days(days),
    );
}

/// The last day of a month, where [`last_day_spec`] names one, is the day
/// that ends the month in the calendar; where it names none, the month ends
/// on or after the last day in range, or before the first.
pub proof fn lemma_last_day_ends_month(year: int, month: int)
    requires
        1 <= month <= 12,
        i32::MIN <= year < i32::MAX,
    ensures
        ({
            let end = days_before_year(year) + days_before_month(year, month) + days_in_month(
                year,
                month,
            );
            match last_day_spec(year, month) {
                Some(last) => last == end,
                None => end >= MAX_DAYS || end < MIN_DAYS,
            }
        }),
{
    lemma_year_length(year);
    reveal_with_fuel(days_before_month, 2);
}

/// The last day of the given month.
///
/// The month after it must start on a day in range that is not the first one:
/// [`checked_last_day_of_month`] tests that before it calls this function.
pub fn last_day_of_month(year: i32, month: u32) -> (last: Date)
    requires
        last_day_spec(year as int, month as int) is Some,
    ensures
        Some(last@) == last_day_spec(year as int, month as int),
{
    let first = if month == 12 {
        Date::from_ymd_opt(year + 1, 1, 1)
    } else {
        Date::from_ymd_opt(year, month + 1, 1)
    };
    first.unwrap().pred_opt().unwrap()
}

/// The last day of the given month, or `None` where the calendar has no such
/// month or its last day is out of range.
pub fn checked_last_day_of_month(year: i32, month: u32) -> (last: Option<Date>)
    ensures
        last is Some <==> last_day_spec(year as int, month as int) is Some,
        last matches Some(d) ==> Some(d@) == last_day_spec(year as int, month as int),
{
    let first = if month == 12 {
        if year < i32::MAX {
            Date::from_ymd_opt(year + 1, 1, 1)
        } else {
            None
        }
    } else if month < u32::MAX {
        Date::from_ymd_opt(year, month + 1, 1)
    } else {
        None
    };
    match first {
        Some(day) => {
            if day.days_from_ce() > MIN_DAYS {
                Some(last_day_of_month(year, month))
            } else {
                None
            }
        },
        None => None,
    }
}

/// The quarter of the year, 1 to 4, that the month `month` (1 to 12) falls in.
pub open spec fn quarter_of_month(month: int) -> int {
    (month - 1) / 3 + 1
}

/// The quarter of the year, 1 to 4, that a date falls in.
pub fn quarter_of(d: Date) -> (q: u8)
    ensures
        q == quarter_of_month(month_of_days(d@)),
        1 <= q <= 4,
{
    let m = d.month();
    ((m - 1) / 3 + 1) as u8
}

/// The three backticks that open and close a fenced block.
pub open spec fn fence() -> Seq<char> {
    "```"@
}

/// The opening of a fenced block that is marked as JSON.
pub open spec fn json_fence() -> Seq<char> {
    "```json"@
}

/// A text without the closing fence it ends with, if it ends with one.
pub open spec fn without_closing_fence(s: Seq<char>) -> Seq<char> {
    if has_suffix(s, fence()) {
        s.take(s.len() - fence().len())
    } else {
        s
    }
}

/// What is left of a fenced block after its opening `opening`: the text up
/// to the closing fence, if there is one, without the white space around it.
pub open spec fn fenced_body(block: Seq<char>, opening: Seq<char>) -> Seq<char> {
    trimmed(without_closing_fence(block.skip(opening.len() as int)))
}

/// A reply without the code fence around it: the text is trimmed; if it then
/// starts with a fence, with or without the mark of JSON, the fence is taken
/// off, and so is a fence at its end, and what is left is trimmed again.
pub open spec fn strip_code_fences_spec(s: Seq<char>) -> Seq<char> {
    let block = trimmed(s);
    if has_prefix(block, json_fence()) {
        fenced_body(block, json_fence())
    } else if has_prefix(block, fence()) {
        fenced_body(block, fence())
    } else {
        block
    }
}

/// The bounds of the body of the fenced block that lies from `lo` up to `hi`
/// and opens with `opening`.
fn body_window(chars: &Vec<char>, lo: usize, hi: usize, opening: &Vec<char>, closing: &Vec<char>)
    -> (r: (usize, usize))
    requires
        lo <= hi <= chars.len(),
        has_prefix(chars@.subrange(lo as int, hi as int), opening@),
        closing@ == fence(),
    ensures
        lo <= r.0 <= r.1 <= hi,
        chars@.subrange(r.0 as int, r.1 as int) == fenced_body(
            chars@.subrange(lo as int, hi as int),
            opening@,
        ),
{
    let from = lo + opening.len();
    let ghost block = chars@.subrange(lo as int, hi as int);
    let ghost rest = block.skip(opening@.len() as int);
    proof {
        assert(rest =~= chars@.subrange(from as int, hi as int));
    }
    let upto = if window_ends_with(chars, from, hi, closing) {
        hi - closing.len()
    } else {
        hi
    };
    proof {
        assert(without_closing_fence(rest) =~= chars@.subrange(from as int, upto as int));
    }
    trim_window(chars, from, upto)
}

/// Strip the code fence from a reply of a language model.
pub fn strip_code_fences(s: &str) -> (body: &str)
    ensures
        body@ == strip_code_fences_spec(s@),
{
    let chars = chars_of(s);
    let n = chars.len();
    proof {
        assert(chars@.subrange(0, n as int) =~= chars@);
    }
    let (a, b) = trim_window(&chars, 0, n);
    let json = chars_of("```json");
    let plain = chars_of("```");
    if window_starts_with(&chars, a, b, &json) {
        let (c, d) = body_window(&chars, a, b, &json, &plain);
        s.substring_char(c, d)
    } else if window_starts_with(&chars, a, b, &plain) {
        let (c, d) = body_window(&chars, a, b, &plain, &plain);
        s.substring_char(c, d)
    } else {
        s.substring_char(a, b)
    }
}

} // verus!
