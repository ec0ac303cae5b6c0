//! Text helpers: the few operations on strings that the rest of the crate
//! needs, stated over sequences of characters.

use vstd::prelude::*;

verus! {

/// The characters of a string, in order.
pub fn chars_of(s: &str) -> (v: Vec<char>)
    ensures
        v@ == s@,
{
    let mut v: Vec<char> = Vec::new();
    for c in it: s.chars()
        invariant
            v@ == it.seq().take(it.index() as int),
            it.seq() == s@,
    {
        v.push(c);
    }
    v
}

/// Whether `p` stands in `s` at position `i`.
pub open spec fn occurs_at(s: Seq<char>, p: Seq<char>, i: int) -> bool {
    0 <= i && i + p.len() <= s.len() && s.subrange(i, i + p.len()) == p
}

/// Whether `p` stands somewhere in `s`.
pub open spec fn contains_text(s: Seq<char>, p: Seq<char>) -> bool {
    exists|i: int| occurs_at(s, p, i)
}

/// Whether `s` begins with `p`.
pub open spec fn has_prefix(s: Seq<char>, p: Seq<char>) -> bool {
    occurs_at(s, p, 0)
}

/// Whether `s` ends with `p`.
pub open spec fn has_suffix(s: Seq<char>, p: Seq<char>) -> bool {
    occurs_at(s, p, s.len() - p.len())
}

/// Whether `p` stands in `s` at position `i`.
pub fn matches_at(s: &Vec<char>, p: &Vec<char>, i: usize) -> (found: bool)
    ensures
        found == occurs_at(s@, p@, i as int),
{
    if p.len() > s.len() || i > s.len() - p.len() {
        return false;
    }
    let mut j: usize = 0;
    while j < p.len()
        invariant
            j <= p.len(),
            i + p.len() <= s.len(),
            forall|k: int| 0 <= k < j ==> s@[i + k] == p@[k],
        decreases p.len() - j,
    {
        if s[i + j] != p[j] {
            proof {
                let window = s@.subrange(i as int, i + p.len());
                assert(window[j as int] == s@[i + j]);
            }
            return false;
        }
        j += 1;
    }
    proof {
        assert(s@.subrange(i as int, i + p.len()) =~= p@);
    }
    true
}

/// The first position at which `p` stands in `s`, if there is one.
pub fn find_text(s: &Vec<char>, p: &Vec<char>) -> (at: Option<usize>)
    ensures
        at is Some <==> contains_text(s@, p@),
        at matches Some(i) ==> occurs_at(s@, p@, i as int) && forall|k: int|
            0 <= k < i ==> !occurs_at(s@, p@, k),
{
    if p.len() > s.len() {
        return None;
    }
    let last: usize = s.len() - p.len();
    let mut i: usize = 0;
    while i < last
        invariant
            last == s.len() - p.len(),
            p.len() <= s.len(),
            i <= last,
            forall|k: int| 0 <= k < i ==> !occurs_at(s@, p@, k),
        decreases last - i,
    {
        if matches_at(s, p, i) {
            return Some(i);
        }
        i += 1;
    }
    if matches_at(s, p, last) {
        Some(last)
    } else {
        None
    }
}

/// Whether `p` stands somewhere in `s`.
pub fn contains(s: &str, p: &str) -> (found: bool)
    ensures
        found == contains_text(s@, p@),
{
    let sv = chars_of(s);
    let pv = chars_of(p);
    find_text(&sv, &pv).is_some()
}

/// Whether the two strings hold the same characters.
pub fn same_text(a: &str, b: &str) -> (same: bool)
    ensures
        same == (a@ == b@),
{
    let av = chars_of(a);
    let bv = chars_of(b);
    if av.len() != bv.len() {
        return false;
    }
    let found = matches_at(&av, &bv, 0);
    proof {
        assert(av@.subrange(0, av@.len() as int) =~= av@);
    }
    found
}

/// Whether `s` begins with `p`.
pub fn starts_with(s: &str, p: &str) -> (found: bool)
    ensures
        found == has_prefix(s@, p@),
{
    let sv = chars_of(s);
    let pv = chars_of(p);
    matches_at(&sv, &pv, 0)
}

/// Whether `s` ends with `p`.
pub fn ends_with(s: &str, p: &str) -> (found: bool)
    ensures
        found == has_suffix(s@, p@),
{
    let sv = chars_of(s);
    let pv = chars_of(p);
    if pv.len() > sv.len() {
        return false;
    }
    matches_at(&sv, &pv, sv.len() - pv.len())
}

/// What `str::to_lowercase` makes of a text.
pub uninterp spec fn lowercase_of(text: Seq<char>) -> Seq<char>;

/// Calls `str::to_lowercase`.
///
/// Trusted: the result is the one named [`lowercase_of`].
#[verifier::external_body]
pub(crate) fn lowercase(text: &str) -> (lowered: String)
    ensures
        lowered@ == lowercase_of(text@),
{
    text.to_lowercase()
}

/// Whether a character has the Unicode property `White_Space`: the controls
/// from tab to carriage return, the blank, next line, the no-break blank,
/// the Ogham space mark, the blanks of fixed width from U+2000 to U+200A,
/// the line and paragraph separators, the narrow no-break blank, the medium
/// mathematical blank and the ideographic blank.
pub open spec fn is_white_space(c: char) -> bool {
    let u = c as u32;
    ||| 0x09 <= u <= 0x0d
    ||| u == 0x20
    ||| u == 0x85
    ||| u == 0xa0
    ||| u == 0x1680
    ||| 0x2000 <= u <= 0x200a
    ||| u == 0x2028
    ||| u == 0x2029
    ||| u == 0x202f
    ||| u == 0x205f
    ||| u == 0x3000
}

/// Calls `char::is_whitespace`.
///
/// Trusted: the result is [`is_white_space`], that is, the characters of
/// which `char::is_whitespace` holds are those with the Unicode property
/// `White_Space`, as its documentation says, and those are the ones listed
/// there.
#[verifier::external_body]
fn char_is_whitespace(c: char) -> (white: bool)
    ensures
        white == is_white_space(c),
{
    c.is_whitespace()
}

/// How many white-space characters a text begins with.
pub open spec fn leading_space(s: Seq<char>) -> nat
    decreases s.len(),
{
    if s.len() > 0 && is_white_space(s[0]) {
        1 + leading_space(s.drop_first())
    } else {
        0
    }
}

/// How many white-space characters a text ends with.
pub open spec fn trailing_space(s: Seq<char>) -> nat
    decreases s.len(),
{
    if s.len() > 0 && is_white_space(s.last()) {
        1 + trailing_space(s.drop_last())
    } else {
        0
    }
}

/// A text without the white space it begins and ends with.
pub open spec fn trimmed(s: Seq<char>) -> Seq<char> {
    let rest = s.skip(leading_space(s) as int);
    rest.take(rest.len() - trailing_space(rest))
}

/// A text begins and ends with no more white space than it holds.
pub proof fn lemma_space_bounds(s: Seq<char>)
    ensures
        leading_space(s) <= s.len(),
        trailing_space(s) <= s.len(),
    decreases s.len(),
{
    if s.len() > 0 {
        lemma_space_bounds(s.drop_first());
        lemma_space_bounds(s.drop_last());
    }
}

/// The bounds of the characters from `lo` up to `hi` without the white space
/// they begin and end with.
pub fn trim_window(chars: &Vec<char>, lo: usize, hi: usize) -> (r: (usize, usize))
    requires
        lo <= hi <= chars.len(),
    ensures
        lo <= r.0 <= r.1 <= hi,
        chars@.subrange(r.0 as int, r.1 as int) == trimmed(chars@.subrange(lo as int, hi as int)),
{
    let ghost w = chars@.subrange(lo as int, hi as int);
    let mut a: usize = lo;
    proof {
        assert(w.skip(0) =~= w);
    }
    while a < hi && char_is_whitespace(chars[a])
        invariant
            lo <= a <= hi <= chars.len(),
            w == chars@.subrange(lo as int, hi as int),
            leading_space(w) == (a - lo) + leading_space(w.skip(a - lo)),
        decreases hi - a,
    {
        proof {
            let rest = w.skip(a - lo);
            assert(rest[0] == chars@[a as int]);
            assert(rest.drop_first() =~= w.skip(a + 1 - lo));
        }
        a += 1;
    }
    let ghost rest = w.skip(a - lo);
    proof {
        if a < hi {
            assert(rest[0] == chars@[a as int]);
        }
        assert(leading_space(w) == a - lo);
        assert(rest =~= chars@.subrange(a as int, hi as int));
        assert(rest.take(rest.len() as int) =~= rest);
    }
    let mut b: usize = hi;
    while b > a && char_is_whitespace(chars[b - 1])
        invariant
            a <= b <= hi <= chars.len(),
            rest == chars@.subrange(a as int, hi as int),
            trailing_space(rest) == (hi - b) + trailing_space(rest.take(b - a)),
        decreases b - a,
    {
        proof {
            let head = rest.take(b - a);
            assert(head.last() == chars@[b - 1]);
            assert(head.drop_last() =~= rest.take(b - 1 - a));
        }
        b -= 1;
    }
    proof {
        let head = rest.take(b - a);
        if b > a {
            assert(head.last() == chars@[b - 1]);
        }
        assert(trailing_space(rest) == hi - b);
        assert(head =~= chars@.subrange(a as int, b as int));
    }
    (a, b)
}

/// A text without the white space it begins and ends with.
pub fn trim(s: &str) -> (t: &str)
    ensures
        t@ == trimmed(s@),
{
    let chars = chars_of(s);
    let n = chars.len();
    proof {
        assert(chars@.subrange(0, n as int) =~= chars@);
    }
    let (a, b) = trim_window(&chars, 0, n);
    s.substring_char(a, b)
}

/// Whether the characters from `lo` up to `hi` begin with `p`.
pub fn window_starts_with(chars: &Vec<char>, lo: usize, hi: usize, p: &Vec<char>) -> (found: bool)
    requires
        lo <= hi <= chars.len(),
    ensures
        found == has_prefix(chars@.subrange(lo as int, hi as int), p@),
{
    if p.len() > hi - lo {
        return false;
    }
    let found = matches_at(chars, p, lo);
    proof {
        let w = chars@.subrange(lo as int, hi as int);
        assert(w.subrange(0, p@.len() as int) =~= chars@.subrange(lo as int, lo + p@.len()));
    }
    found
}

/// Whether the characters from `lo` up to `hi` end with `p`.
pub fn window_ends_with(chars: &Vec<char>, lo: usize, hi: usize, p: &Vec<char>) -> (found: bool)
    requires
        lo <= hi <= chars.len(),
    ensures
        found == has_suffix(chars@.subrange(lo as int, hi as int), p@),
{
    if p.len() > hi - lo {
        return false;
    }
    let found = matches_at(chars, p, hi - p.len());
    proof {
        let w = chars@.subrange(lo as int, hi as int);
        assert(w.subrange(w.len() - p@.len(), w.len() as int) =~= chars@.subrange(
            hi - p@.len(),
            hi as int,
        ));
    }
    found
}

/// The decimal digit with value `d`.
pub open spec fn digit(d: int) -> char {
    (48 + d) as char
}

/// Whether `c` is one of the digits `0` to `9`.
pub open spec fn is_digit(c: char) -> bool {
    '0' <= c <= '9'
}

/// The decimal numeral of `n`, without sign or leading zeros.
pub open spec fn decimal(n: nat) -> Seq<char>
    decreases n,
{
    if n < 10 {
        seq![digit(n as int)]
    } else {
        decimal(n / 10).push(digit((n % 10) as int))
    }
}

/// The one-character string of a decimal digit.
fn digit_text(d: u64) -> (s: &'static str)
    requires
        d < 10,
    ensures
        s@ == seq![digit(d as int)],
{
    proof {
        reveal_strlit("0");
        reveal_strlit("1");
        reveal_strlit("2");
        reveal_strlit("3");
        reveal_strlit("4");
        reveal_strlit("5");
        reveal_strlit("6");
        reveal_strlit("7");
        reveal_strlit("8");
        reveal_strlit("9");
    }
    let s = match d {
        0 => "0",
        1 => "1",
        2 => "2",
        3 => "3",
        4 => "4",
        5 => "5",
        6 => "6",
        7 => "7",
        8 => "8",
        _ => "9",
    };
    assert(s@ =~= seq![digit(d as int)]);
    s
}

/// Appends the decimal numeral of `n` to `out`.
pub fn push_decimal(out: &mut String, n: u64)
    ensures
        final(out)@ == old(out)@ + decimal(n as nat),
    decreases n,
{
    if n >= 10 {
        push_decimal(out, n / 10);
    }
    out.append(digit_text(n % 10));
    proof {
        if n >= 10 {
            assert(final(out)@ =~= old(out)@ + decimal(n as nat));
        } else {
            assert(final(out)@ =~= old(out)@ + decimal(n as nat));
        }
    }
}

/// The decimal numeral of `n`.
pub fn decimal_text(n: u64) -> (s: String)
    ensures
        s@ == decimal(n as nat),
{
    let mut s = String::new();
    push_decimal(&mut s, n);
    assert(Seq::<char>::empty() + decimal(n as nat) =~= decimal(n as nat));
    s
}

/// The number that a run of decimal digits writes.
pub open spec fn digits_value(s: Seq<char>) -> nat
    decreases s.len(),
{
    if s.len() == 0 {
        0
    } else {
        digits_value(s.drop_last()) * 10 + (s.last() as nat - '0' as nat) as nat
    }
}

/// Whether every character of a text is a decimal digit.
pub open spec fn all_digits(s: Seq<char>) -> bool {
    forall|i: int| 0 <= i < s.len() ==> is_digit(#[trigger] s[i])
}

/// The number that a text writes as one or more decimal digits, if it does
/// and the number is at most `limit`.
pub open spec fn number_upto(s: Seq<char>, limit: nat) -> Option<nat> {
    if s.len() > 0 && all_digits(s) && digits_value(s) <= limit {
        Some(digits_value(s))
    } else {
        None
    }
}

/// A run of digits writes at least what its beginning writes.
pub proof fn lemma_digits_value_grows(s: Seq<char>, k: int)
    requires
        0 <= k <= s.len(),
        all_digits(s),
    ensures
        digits_value(s.take(k)) <= digits_value(s),
    decreases s.len() - k,
{
    if k < s.len() {
        lemma_digits_value_grows(s, k + 1);
        let longer = s.take(k + 1);
        assert(longer.drop_last() =~= s.take(k));
        assert(is_digit(s[k]));
        assert(longer.last() == s[k]);
    } else {
        assert(s.take(k) =~= s);
    }
}

/// The number that the characters from `lo` up to `hi` write as one or more
/// decimal digits, if they do and the number is at most `limit`.
pub fn read_number(chars: &Vec<char>, lo: usize, hi: usize, limit: u64) -> (n: Option<u64>)
    requires
        lo <= hi <= chars.len(),
        limit <= 0xffff_ffff_ffff,
    ensures
        n is Some <==> number_upto(chars@.subrange(lo as int, hi as int), limit as nat) is Some,
        n matches Some(v) ==> number_upto(chars@.subrange(lo as int, hi as int), limit as nat)
            == Some(v as nat),
{
    let ghost w = chars@.subrange(lo as int, hi as int);
    if lo == hi {
        return None;
    }
    let mut acc: u64 = 0;
    let mut i: usize = lo;
    proof {
        assert(w.take(0) =~= Seq::<char>::empty());
    }
    while i < hi
        invariant
            lo <= i <= hi <= chars.len(),
            w == chars@.subrange(lo as int, hi as int),
            limit <= 0xffff_ffff_ffff,
            acc <= limit,
            acc == digits_value(w.take(i - lo)),
            all_digits(w.take(i - lo)),
        decreases hi - i,
    {
        let c = chars[i];
        let ghost longer = w.take(i + 1 - lo);
        proof {
            assert(longer.drop_last() =~= w.take(i - lo));
            assert(longer.last() == c);
            assert(w[i - lo] == c);
        }
        if !(c >= '0' && c <= '9') {
            return None;
        }
        let d: u64 = (c as u32 - '0' as u32) as u64;
        let next: u64 = acc * 10 + d;
        proof {
            assert forall|k: int| 0 <= k < longer.len() implies is_digit(#[trigger] longer[k]) by {
                if k < longer.len() - 1 {
                    assert(longer[k] == w.take(i - lo)[k]);
                }
            }
        }
        if next > limit {
            proof {
                if all_digits(w) {
                    lemma_digits_value_grows(w, i + 1 - lo);
                }
            }
            return None;
        }
        acc = next;
        i += 1;
    }
    proof {
        assert(w.take(hi - lo) =~= w);
    }
    Some(acc)
}

/// What `str::parse` reads as a `u32`: decimal digits, after a plus sign or
/// without one, that write a number that fits.
pub open spec fn parsed_u32(s: Seq<char>) -> Option<u32> {
    let body = if s.len() > 0 && s[0] == '+' {
        s.skip(1)
    } else {
        s
    };
    match number_upto(body, u32::MAX as nat) {
        Some(v) => Some(v as u32),
        None => None,
    }
}

/// What `str::parse` reads as an `i32`: decimal digits, after a plus or a
/// minus sign or without one, that write a number that fits.
pub open spec fn parsed_i32(s: Seq<char>) -> Option<i32> {
    if s.len() > 0 && s[0] == '-' {
        match number_upto(s.skip(1), 0x8000_0000) {
            Some(v) => Some((-(v as int)) as i32),
            None => None,
        }
    } else {
        let body = if s.len() > 0 && s[0] == '+' {
            s.skip(1)
        } else {
            s
        };
        match number_upto(body, i32::MAX as nat) {
            Some(v) => Some(v as i32),
            None => None,
        }
    }
}

/// Reads the characters from `lo` up to `hi` as a `u32`, as `str::parse`
/// does.
pub fn parse_u32_window(chars: &Vec<char>, lo: usize, hi: usize) -> (n: Option<u32>)
    requires
        lo <= hi <= chars.len(),
    ensures
        n == parsed_u32(chars@.subrange(lo as int, hi as int)),
{
    let ghost w = chars@.subrange(lo as int, hi as int);
    let from = if lo < hi && chars[lo] == '+' {
        lo + 1
    } else {
        lo
    };
    proof {
        assert(w.skip(from - lo) =~= chars@.subrange(from as int, hi as int));
        assert(w.skip(0) =~= w);
        if lo < hi {
            assert(w[0] == chars@[lo as int]);
        }
    }
    match read_number(chars, from, hi, 0xffff_ffff) {
        Some(v) => Some(v as u32),
        None => None,
    }
}

/// Reads the characters from `lo` up to `hi` as an `i32`, as `str::parse`
/// does.
pub fn parse_i32_window(chars: &Vec<char>, lo: usize, hi: usize) -> (n: Option<i32>)
    requires
        lo <= hi <= chars.len(),
    ensures
        n == parsed_i32(chars@.subrange(lo as int, hi as int)),
{
    let ghost w = chars@.subrange(lo as int, hi as int);
    proof {
        assert(w.skip(0) =~= w);
        if lo < hi {
            assert(w[0] == chars@[lo as int]);
            assert(w.skip(1) =~= chars@.subrange(lo + 1, hi as int));
        }
    }
    if lo < hi && chars[lo] == '-' {
        match read_number(chars, lo + 1, hi, 0x8000_0000) {
            Some(v) => {
                let value: i64 = -(v as i64);
                Some(value as i32)
            },
            None => None,
        }
    } else {
        let from = if lo < hi && chars[lo] == '+' {
            lo + 1
        } else {
            lo
        };
        match read_number(chars, from, hi, 0x7fff_ffff) {
            Some(v) => Some(v as i32),
            None => None,
        }
    }
}

/// Reads a text as a `u32`, as `str::parse` does.
pub fn parse_u32(s: &str) -> (n: Option<u32>)
    ensures
        n == parsed_u32(s@),
{
    let chars = chars_of(s);
    proof {
        assert(chars@.subrange(0, chars@.len() as int) =~= chars@);
    }
    parse_u32_window(&chars, 0, chars.len())
}

/// Reads a text as an `i32`, as `str::parse` does.
pub fn parse_i32(s: &str) -> (n: Option<i32>)
    ensures
        n == parsed_i32(s@),
{
    let chars = chars_of(s);
    proof {
        assert(chars@.subrange(0, chars@.len() as int) =~= chars@);
    }
    parse_i32_window(&chars, 0, chars.len())
}

} // verus!
