//! Points in time, read from the texts in which the remote service and the
//! store write them.
//!
//! The remote service writes a time as `2025-01-15T08:00:00.000Z`, the store
//! as `2025-01-15 10:00:00`. Both mean the time of day in UTC. To tell which
//! of two times is the later one, both are read as a day and the time of that
//! day; their texts are not compared.

use crate::date::{civil_to_days, Date};
use crate::text::{chars_of, number_upto, read_number};
use vstd::prelude::*;

verus! {

/// How many nanoseconds a second has.
pub const NANOS_PER_SECOND: u64 = 1_000_000_000;

/// A point in time: a day, and the time of that day in nanoseconds since
/// midnight.
#[derive(Debug, Clone, Copy, PartialEq, Eq)]
pub struct Moment {
    pub day: Date,
    pub nanos: u64,
}

/// A [`Moment`] with its day as a day number.
pub struct MomentView {
    pub day: int,
    pub nanos: int,
}

impl View for Moment {
    type V = MomentView;

    open spec fn view(&self) -> MomentView {
        MomentView { day: self.day@, nanos: self.nanos as int }
    }
}

/// The view of an optional moment.
pub open spec fn moment_view(moment: Option<Moment>) -> Option<MomentView> {
    match moment {
        Some(m) => Some(m@),
        None => None,
    }
}

/// Whether moment `a` is later than moment `b`.
pub open spec fn later(a: MomentView, b: MomentView) -> bool {
    a.day > b.day || (a.day == b.day && a.nanos > b.nanos)
}

/// The day that a text of ten characters writes as `YYYY-MM-DD`, where the
/// calendar has such a day in range.
pub open spec fn day_of_text(s: Seq<char>) -> Option<int> {
    if s.len() == 10 && s[4] == '-' && s[7] == '-' {
        match (
            number_upto(s.subrange(0, 4), 9999),
            number_upto(s.subrange(5, 7), 99),
            number_upto(s.subrange(8, 10), 99),
        ) {
            (Some(year), Some(month), Some(day)) => civil_to_days(
                year as int,
                month as int,
                day as int,
            ),
            _ => None,
        }
    } else {
        None
    }
}

/// The second of the day that a text of eight characters writes as
/// `HH:MM:SS`.
pub open spec fn second_of_text(s: Seq<char>) -> Option<int> {
    if s.len() == 8 && s[2] == ':' && s[5] == ':' {
        match (
            number_upto(s.subrange(0, 2), 23),
            number_upto(s.subrange(3, 5), 59),
            number_upto(s.subrange(6, 8), 59),
        ) {
            (Some(hour), Some(minute), Some(second)) => Some(
                ((hour * 60 + minute) * 60 + second) as int,
            ),
            _ => None,
        }
    } else {
        None
    }
}

/// So many zeros.
pub open spec fn zeros(n: nat) -> Seq<char> {
    Seq::new(n, |i: int| '0')
}

/// The nanoseconds that the end of a time writes: nothing or `Z` for none, or
/// a point and one to nine digits of a fraction of a second, with or without
/// a `Z` after them.
pub open spec fn fraction_of_text(s: Seq<char>) -> Option<int> {
    let body = if s.len() > 0 && s.last() == 'Z' {
        s.drop_last()
    } else {
        s
    };
    if body.len() == 0 {
        Some(0)
    } else if body[0] == '.' && 2 <= body.len() <= 10 {
        match number_upto(body.skip(1) + zeros((10 - body.len()) as nat), 999_999_999) {
            Some(n) => Some(n as int),
            None => None,
        }
    } else {
        None
    }
}

/// The moment that a text writes: a day as `YYYY-MM-DD`, alone for its
/// midnight, or followed by `T` or a blank, the time as `HH:MM:SS`, and an
/// end as [`fraction_of_text`] reads it. A text of any other form writes no
/// moment.
#[verifier::opaque]
pub open spec fn moment_of(text: Seq<char>) -> Option<MomentView> {
    if text.len() == 10 {
        match day_of_text(text) {
            Some(day) => Some(MomentView { day, nanos: 0 }),
            None => None,
        }
    } else if text.len() >= 19 && (text[10] == 'T' || text[10] == ' ') {
        match (
            day_of_text(text.subrange(0, 10)),
            second_of_text(text.subrange(11, 19)),
            fraction_of_text(text.skip(19)),
        ) {
            (Some(day), Some(second), Some(fraction)) => Some(
                MomentView { day, nanos: second * NANOS_PER_SECOND + fraction },
            ),
            _ => None,
        }
    } else {
        None
    }
}

impl Moment {
    /// Whether this moment is later than `other`.
    pub fn is_later_than(&self, other: &Moment) -> (b: bool)
        ensures
            b == later(self@, other@),
    {
        other.day.is_before(&self.day) || (self.day.same_day(&other.day) && self.nanos
            > other.nanos)
    }
}

/// The day that the characters from `lo` to `lo + 10` write.
fn read_day(chars: &Vec<char>, lo: usize) -> (day: Option<Date>)
    requires
        lo + 10 <= chars.len(),
    ensures
        crate::sync::gap::day_of(day) == day_of_text(chars@.subrange(lo as int, lo + 10)),
{
    let ghost s = chars@.subrange(lo as int, lo + 10);
    proof {
        assert(s[4] == chars@[lo + 4]);
        assert(s[7] == chars@[lo + 7]);
        assert(s.subrange(0, 4) =~= chars@.subrange(lo as int, lo + 4));
        assert(s.subrange(5, 7) =~= chars@.subrange(lo + 5, lo + 7));
        assert(s.subrange(8, 10) =~= chars@.subrange(lo + 8, lo + 10));
    }
    if chars[lo + 4] != '-' || chars[lo + 7] != '-' {
        return None;
    }
    let year = read_number(chars, lo, lo + 4, 9999);
    let month = read_number(chars, lo + 5, lo + 7, 99);
    let day = read_number(chars, lo + 8, lo + 10, 99);
    match (year, month, day) {
        (Some(y), Some(m), Some(d)) => Date::from_ymd_opt(y as i32, m as u32, d as u32),
        _ => None,
    }
}

/// The second of the day that the characters from `lo` to `lo + 8` write.
fn read_second(chars: &Vec<char>, lo: usize) -> (second: Option<u64>)
    requires
        lo + 8 <= chars.len(),
    ensures
        second is Some <==> second_of_text(chars@.subrange(lo as int, lo + 8)) is Some,
        second matches Some(n) ==> second_of_text(chars@.subrange(lo as int, lo + 8)) == Some(
            n as int,
        ) && n < 86_400,
{
    let ghost s = chars@.subrange(lo as int, lo + 8);
    proof {
        assert(s[2] == chars@[lo + 2]);
        assert(s[5] == chars@[lo + 5]);
        assert(s.subrange(0, 2) =~= chars@.subrange(lo as int, lo + 2));
        assert(s.subrange(3, 5) =~= chars@.subrange(lo + 3, lo + 5));
        assert(s.subrange(6, 8) =~= chars@.subrange(lo + 6, lo + 8));
    }
    if chars[lo + 2] != ':' || chars[lo + 5] != ':' {
        return None;
    }
    let hour = read_number(chars, lo, lo + 2, 23);
    let minute = read_number(chars, lo + 3, lo + 5, 59);
    let second = read_number(chars, lo + 6, lo + 8, 59);
    match (hour, minute, second) {
        (Some(h), Some(m), Some(s)) => Some((h * 60 + m) * 60 + s),
        _ => None,
    }
}

/// The nanoseconds that the characters from `lo` to the end write.
fn read_fraction(chars: &Vec<char>, lo: usize) -> (nanos: Option<u64>)
    requires
        lo <= chars.len(),
    ensures
        nanos is Some <==> fraction_of_text(chars@.skip(lo as int)) is Some,
        nanos matches Some(n) ==> fraction_of_text(chars@.skip(lo as int)) == Some(n as int) && n
            <= 999_999_999,
{
    let ghost s = chars@.skip(lo as int);
    let n = chars.len();
    let hi = if n > lo && chars[n - 1] == 'Z' {
        n - 1
    } else {
        n
    };
    let ghost body = if s.len() > 0 && s.last() == 'Z' {
        s.drop_last()
    } else {
        s
    };
    proof {
        if n > lo {
            assert(s.last() == chars@[n - 1]);
        }
        assert(body =~= chars@.subrange(lo as int, hi as int));
    }
    if hi == lo {
        return Some(0);
    }
    proof {
        assert(body[0] == chars@[lo as int]);
    }
    if chars[lo] != '.' || hi - lo < 2 || hi - lo > 10 {
        return None;
    }
    let mut padded: Vec<char> = Vec::new();
    let mut i: usize = lo + 1;
    while i < hi
        invariant
            lo + 1 <= i <= hi <= chars.len(),
            padded@ == chars@.subrange(lo + 1, i as int),
        decreases hi - i,
    {
        padded.push(chars[i]);
        proof {
            assert(padded@ =~= chars@.subrange(lo + 1, i + 1));
        }
        i += 1;
    }
    let ghost digits = padded@;
    proof {
        assert(digits =~= body.skip(1));
    }
    while padded.len() < 9
        invariant
            digits.len() <= padded.len() <= 9,
            padded@ == digits + zeros((padded.len() - digits.len()) as nat),
        decreases 9 - padded.len(),
    {
        padded.push('0');
        proof {
            assert(padded@ =~= digits + zeros((padded.len() - digits.len()) as nat));
        }
    }
    proof {
        assert(padded@.subrange(0, 9) =~= padded@);
    }
    read_number(&padded, 0, 9, 999_999_999)
}

/// The moment that a text writes, if it writes one.
pub fn read_moment(text: &str) -> (moment: Option<Moment>)
    ensures
        moment_view(moment) == moment_of(text@),
{
    let chars = chars_of(text);
    let n = chars.len();
    proof {
        reveal(moment_of);
    }
    if n == 10 {
        proof {
            assert(chars@.subrange(0, 10) =~= chars@);
        }
        return match read_day(&chars, 0) {
            Some(day) => Some(Moment { day, nanos: 0 }),
            None => None,
        };
    }
    if n < 19 || !(chars[10] == 'T' || chars[10] == ' ') {
        return None;
    }
    let day = read_day(&chars, 0);
    let second = read_second(&chars, 11);
    let fraction = read_fraction(&chars, 19);
    match (day, second, fraction) {
        (Some(day), Some(s), Some(f)) => Some(Moment { day, nanos: s * NANOS_PER_SECOND + f }),
        _ => None,
    }
}

} // verus!
