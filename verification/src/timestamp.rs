//! Timestamp codec: from an epoch-seconds value, given as a decimal string,
//! to the canonical `YYYY:MM:DD HH:MM:SS` calendar form that the metadata
//! date fields use.
//!
//! The calendar is the proleptic Gregorian calendar, at second resolution,
//! in UTC. The representable range is exactly the date-times whose year has
//! four digits, years 0 through 9999; an epoch value outside that range is a
//! hard error, never clamped.

use vstd::arithmetic::div_mod::{
    lemma_fundamental_div_mod,
    lemma_fundamental_div_mod_converse,
    lemma_mod_pos_bound,
};
use vstd::prelude::*;

use crate::errors::ProcessError;

verus! {

/// Whether `y` is a leap year of the proleptic Gregorian calendar.
pub open spec fn is_leap_year(y: int) -> bool {
    (y % 4 == 0 && y % 100 != 0) || y % 400 == 0
}

pub open spec fn days_in_year(y: int) -> int {
    if is_leap_year(y) {
        366
    } else {
        365
    }
}

pub open spec fn days_in_month(y: int, m: int) -> int {
    if m == 2 {
        if is_leap_year(y) {
            29
        } else {
            28
        }
    } else if m == 4 || m == 6 || m == 9 || m == 11 {
        30
    } else {
        31
    }
}

/// Days from the calendar day 0000-01-01 to the day `y`-01-01, for `y >= 0`:
/// 365 per year plus one for every leap year before `y`. The division terms
/// count the years in `[0, y)` divisible by 4, 100 and 400 respectively.
pub open spec fn days_before_year(y: int) -> int {
    365 * y + (y + 3) / 4 - (y + 99) / 100 + (y + 399) / 400
}

/// Days from `y`-01-01 to `y`-`m`-01.
pub open spec fn days_before_month(y: int, m: int) -> int
    decreases m,
{
    if m <= 1 {
        0
    } else {
        days_before_month(y, m - 1) + days_in_month(y, m - 1)
    }
}

pub open spec fn valid_date(y: int, m: int, d: int) -> bool {
    0 <= y <= 9999 && 1 <= m <= 12 && 1 <= d <= days_in_month(y, m)
}

pub open spec fn valid_time(h: int, mi: int, s: int) -> bool {
    0 <= h < 24 && 0 <= mi < 60 && 0 <= s < 60
}

/// A UTC calendar date-time with second resolution.
#[derive(Debug, Clone, Copy, PartialEq, Eq, Structural)]
pub struct CanonicalTimestamp {
    pub year: u16,
    pub month: u8,
    pub day: u8,
    pub hour: u8,
    pub minute: u8,
    pub second: u8,
}

impl CanonicalTimestamp {
    /// Well-formed: a valid calendar date with a four-digit year, and a valid
    /// time of day.
    pub open spec fn wf(self) -> bool {
        valid_date(self.year as int, self.month as int, self.day as int) && valid_time(
            self.hour as int,
            self.minute as int,
            self.second as int,
        )
    }
}

/// The epoch-seconds value that a calendar date-time stands for. 719528 is
/// the number of days from 0000-01-01 to the epoch day 1970-01-01.
pub open spec fn epoch_seconds_of(t: CanonicalTimestamp) -> int {
    (days_before_year(t.year as int) + days_before_month(t.year as int, t.month as int) + (
    t.day as int - 1) - 719528) * 86400 + t.hour as int * 3600 + t.minute as int * 60
        + t.second as int
}

/// The epoch values that map to a four-digit year: 0000-01-01 00:00:00 up to
/// but excluding 10000-01-01 00:00:00.
pub open spec fn in_supported_range(ts: int) -> bool {
    -62167219200 <= ts < 253402300800
}

/// For `d` one of 4, 100, 400 (any positive `d`): stepping the dividend past
/// the next multiple boundary.
proof fn lemma_div_step(y: int, d: int)
    requires
        0 <= y,
        0 < d,
    ensures
        (y + d) / d == y / d + 1,
        (y + d - 1) / d == if y % d == 0 {
            y / d
        } else {
            y / d + 1
        },
{
    let q = y / d;
    let r = y % d;
    lemma_fundamental_div_mod(y, d);
    lemma_mod_pos_bound(y, d);
    assert((q + 1) * d == q * d + d) by (nonlinear_arith);
    lemma_fundamental_div_mod_converse(y + d, d, q + 1, r);
    if r == 0 {
        lemma_fundamental_div_mod_converse(y + d - 1, d, q, d - 1);
    } else {
        lemma_fundamental_div_mod_converse(y + d - 1, d, q + 1, r - 1);
    }
}

/// Divisibility by 400 implies divisibility by 100, and by 100 implies by 4.
proof fn lemma_leap_divisors(y: int)
    requires
        0 <= y,
    ensures
        y % 400 == 0 ==> y % 100 == 0,
        y % 100 == 0 ==> y % 4 == 0,
{
    lemma_fundamental_div_mod(y, 400);
    lemma_mod_pos_bound(y, 400);
    if y % 400 == 0 {
        lemma_fundamental_div_mod_converse(y, 100, 4 * (y / 400), 0);
    }
    lemma_fundamental_div_mod(y, 100);
    lemma_mod_pos_bound(y, 100);
    if y % 100 == 0 {
        lemma_fundamental_div_mod_converse(y, 4, 25 * (y / 100), 0);
    }
}

/// One year of days moves `days_before_year` by exactly that year's length.
proof fn lemma_days_before_year_step(y: int)
    requires
        0 <= y,
    ensures
        days_before_year(y + 1) == days_before_year(y) + days_in_year(y),
{
    lemma_div_step(y, 4);
    lemma_div_step(y, 100);
    lemma_div_step(y, 400);
    lemma_leap_divisors(y);
}

/// `days_before_year` grows by at least 365 per year.
proof fn lemma_days_before_year_mono(a: int, b: int)
    requires
        0 <= a <= b,
    ensures
        days_before_year(a) + 365 * (b - a) <= days_before_year(b),
    decreases b - a,
{
    if a < b {
        lemma_days_before_year_mono(a, b - 1);
        lemma_days_before_year_step(b - 1);
    }
}

/// `days_before_month` is monotone in the month.
proof fn lemma_days_before_month_mono(y: int, a: int, b: int)
    requires
        a <= b,
    ensures
        days_before_month(y, a) <= days_before_month(y, b),
    decreases b - a,
{
    if a < b {
        lemma_days_before_month_mono(y, a, b - 1);
    }
}

/// The months of a year partition its days.
proof fn lemma_year_of_months(y: int)
    ensures
        days_before_month(y, 13) == days_in_year(y),
{
    assert(days_before_month(y, 13) == days_in_year(y)) by {
        reveal_with_fuel(days_before_month, 13);
    };
}

/// Within one year, the day offset `days_before_month(y, m) + (d - 1)` of a
/// valid date lies in `[0, days_in_year(y))` and determines month and day.
proof fn lemma_offset_determines_month_day(y: int, m1: int, d1: int, m2: int, d2: int)
    requires
        1 <= m1 <= 12 && 1 <= d1 <= days_in_month(y, m1),
        1 <= m2 <= 12 && 1 <= d2 <= days_in_month(y, m2),
        days_before_month(y, m1) + (d1 - 1) == days_before_month(y, m2) + (d2 - 1),
    ensures
        m1 == m2,
        d1 == d2,
{
    if m1 < m2 {
        lemma_days_before_month_mono(y, m1 + 1, m2);
        assert(false);
    }
    if m2 < m1 {
        lemma_days_before_month_mono(y, m2 + 1, m1);
        assert(false);
    }
}

/// The day offset of a valid date lies strictly below the year's length.
proof fn lemma_offset_in_year(y: int, m: int, d: int)
    requires
        1 <= m <= 12,
        1 <= d <= days_in_month(y, m),
    ensures
        0 <= days_before_month(y, m) + (d - 1) < days_in_year(y),
{
    lemma_days_before_month_mono(y, 1, m);
    lemma_days_before_month_mono(y, m + 1, 13);
    lemma_year_of_months(y);
}

/// The epoch day of a date with a four-digit year determines its year.
proof fn lemma_day_determines_year(y1: int, off1: int, y2: int, off2: int)
    requires
        0 <= y1 <= 9999 && 0 <= off1 < days_in_year(y1),
        0 <= y2 <= 9999 && 0 <= off2 < days_in_year(y2),
        days_before_year(y1) + off1 == days_before_year(y2) + off2,
    ensures
        y1 == y2,
{
    if y1 < y2 {
        lemma_days_before_year_step(y1);
        lemma_days_before_year_mono(y1 + 1, y2);
        assert(false);
    }
    if y2 < y1 {
        lemma_days_before_year_step(y2);
        lemma_days_before_year_mono(y2 + 1, y1);
        assert(false);
    }
}

/// The calendar form is lossless: two well-formed date-times standing for
/// the same epoch-seconds value are the same date-time, so decoding an epoch
/// value loses nothing.
pub proof fn lemma_epoch_lossless(t1: CanonicalTimestamp, t2: CanonicalTimestamp)
    requires
        t1.wf(),
        t2.wf(),
        epoch_seconds_of(t1) == epoch_seconds_of(t2),
    ensures
        t1 == t2,
{
    let off1 = days_before_month(t1.year as int, t1.month as int) + (t1.day as int - 1);
    let off2 = days_before_month(t2.year as int, t2.month as int) + (t2.day as int - 1);
    let day1 = days_before_year(t1.year as int) + off1;
    let day2 = days_before_year(t2.year as int) + off2;
    let sod1 = t1.hour as int * 3600 + t1.minute as int * 60 + t1.second as int;
    let sod2 = t2.hour as int * 3600 + t2.minute as int * 60 + t2.second as int;
    assert((day1 - day2) * 86400 == sod2 - sod1) by (nonlinear_arith)
        requires
            (day1 - 719528) * 86400 + sod1 == (day2 - 719528) * 86400 + sod2,
    ;
    assert(day1 == day2 && sod1 == sod2) by (nonlinear_arith)
        requires
            (day1 - day2) * 86400 == sod2 - sod1,
            0 <= sod1 < 86400,
            0 <= sod2 < 86400,
    ;
    let h1 = t1.hour as int;
    let h2 = t2.hour as int;
    let r1 = t1.minute as int * 60 + t1.second as int;
    let r2 = t2.minute as int * 60 + t2.second as int;
    assert(h1 == h2 && r1 == r2) by (nonlinear_arith)
        requires
            h1 * 3600 + r1 == h2 * 3600 + r2,
            0 <= r1 < 3600,
            0 <= r2 < 3600,
    ;
    let n1 = t1.minute as int;
    let n2 = t2.minute as int;
    assert(n1 == n2 && t1.second == t2.second) by (nonlinear_arith)
        requires
            n1 * 60 + t1.second as int == n2 * 60 + t2.second as int,
            0 <= t1.second < 60,
            0 <= t2.second < 60,
    ;
    lemma_offset_in_year(t1.year as int, t1.month as int, t1.day as int);
    lemma_offset_in_year(t2.year as int, t2.month as int, t2.day as int);
    lemma_day_determines_year(t1.year as int, off1, t2.year as int, off2);
    lemma_offset_determines_month_day(
        t1.year as int,
        t1.month as int,
        t1.day as int,
        t2.month as int,
        t2.day as int,
    );
}

fn is_leap_year_exec(y: u64) -> (r: bool)
    ensures
        r == is_leap_year(y as int),
{
    (y % 4 == 0 && y % 100 != 0) || y % 400 == 0
}

fn days_in_year_exec(y: u64) -> (r: u64)
    ensures
        r == days_in_year(y as int),
{
    if is_leap_year_exec(y) {
        366
    } else {
        365
    }
}

fn days_in_month_exec(y: u64, m: u64) -> (r: u64)
    ensures
        r == days_in_month(y as int, m as int),
{
    if m == 2 {
        if is_leap_year_exec(y) {
            29
        } else {
            28
        }
    } else if m == 4 || m == 6 || m == 9 || m == 11 {
        30
    } else {
        31
    }
}

/// Converts an epoch-seconds value to the calendar date-time it stands for.
/// Succeeds exactly on the representable range; the result is a well-formed
/// date-time that maps back to `ts` exactly.
pub fn decode_epoch(ts: i64) -> (r: Result<CanonicalTimestamp, ProcessError>)
    ensures
        r is Ok <==> in_supported_range(ts as int),
        r matches Ok(t) ==> t.wf() && epoch_seconds_of(t) == ts,
        r matches Err(e) ==> e == ProcessError::InvalidTimestamp,
{
    if ts < -62167219200 || ts >= 253402300800 {
        return Err(ProcessError::InvalidTimestamp);
    }
    let su: u64 = (ts + 62167219200) as u64;
    let total: u64 = su / 86400;
    let sod: u64 = su % 86400;
    proof {
        lemma_fundamental_div_mod(su as int, 86400);
        lemma_mod_pos_bound(su as int, 86400);
    }
    let mut y: u64 = 0;
    let mut rem: u64 = total;
    loop
        invariant
            y <= 9999,
            days_before_year(y as int) + rem == total,
            total < 3652425,
        ensures
            y <= 9999,
            days_before_year(y as int) + rem == total,
            rem < days_in_year(y as int),
        decreases rem,
    {
        let diy = days_in_year_exec(y);
        if rem < diy {
            break;
        }
        proof {
            lemma_days_before_year_step(y as int);
            if y == 9999 {
                assert(days_before_year(10000) == 3652425);
                assert(false);
            }
        }
        rem = rem - diy;
        y = y + 1;
    }
    let mut m: u64 = 1;
    let ghost rem_year: u64 = rem;
    loop
        invariant
            1 <= m <= 12,
            y <= 9999,
            days_before_month(y as int, m as int) + rem == rem_year,
            rem_year < days_in_year(y as int),
        ensures
            1 <= m <= 12,
            days_before_month(y as int, m as int) + rem == rem_year,
            rem < days_in_month(y as int, m as int),
        decreases 12 - m,
    {
        let dim = days_in_month_exec(y, m);
        if rem < dim {
            break;
        }
        proof {
            if m == 12 {
                assert(days_before_month(y as int, 13) == days_in_year(y as int)) by {
                    reveal_with_fuel(days_before_month, 13);
                };
                assert(false);
            }
        }
        rem = rem - dim;
        m = m + 1;
    }
    let d: u64 = rem + 1;
    let h: u64 = sod / 3600;
    let r1: u64 = sod % 3600;
    let mi: u64 = r1 / 60;
    let s: u64 = r1 % 60;
    proof {
        lemma_fundamental_div_mod(sod as int, 3600);
        lemma_mod_pos_bound(sod as int, 3600);
        lemma_fundamental_div_mod(r1 as int, 60);
        lemma_mod_pos_bound(r1 as int, 60);
    }
    let t = CanonicalTimestamp {
        year: y as u16,
        month: m as u8,
        day: d as u8,
        hour: h as u8,
        minute: mi as u8,
        second: s as u8,
    };
    proof {
        assert(epoch_seconds_of(t) == ts);
    }
    Ok(t)
}

/// The decimal digit character for `d` in 0..9.
pub open spec fn digit_char(d: int) -> char {
    if d == 0 {
        '0'
    } else if d == 1 {
        '1'
    } else if d == 2 {
        '2'
    } else if d == 3 {
        '3'
    } else if d == 4 {
        '4'
    } else if d == 5 {
        '5'
    } else if d == 6 {
        '6'
    } else if d == 7 {
        '7'
    } else if d == 8 {
        '8'
    } else {
        '9'
    }
}

/// `n` in 0..100 as two decimal digits, zero-padded.
pub open spec fn two_digits(n: int) -> Seq<char> {
    seq![digit_char(n / 10), digit_char(n % 10)]
}

/// `n` in 0..10000 as four decimal digits, zero-padded.
pub open spec fn four_digits(n: int) -> Seq<char> {
    seq![
        digit_char(n / 1000),
        digit_char((n / 100) % 10),
        digit_char((n / 10) % 10),
        digit_char(n % 10),
    ]
}

/// The canonical `YYYY:MM:DD HH:MM:SS` form of a date-time.
pub open spec fn datetime_display(t: CanonicalTimestamp) -> Seq<char> {
    four_digits(t.year as int) + seq![':'] + two_digits(t.month as int) + seq![':'] + two_digits(
        t.day as int,
    ) + seq![' '] + two_digits(t.hour as int) + seq![':'] + two_digits(t.minute as int) + seq![':']
        + two_digits(t.second as int)
}

fn digit_str(d: u64) -> (r: &'static str)
    requires
        d < 10,
    ensures
        r@ == seq![digit_char(d as int)],
{
    let r: &'static str = match d {
        0 => "0",
        1 => "1",
        2 => "2",
        3 => "3",
        4 => "4",
        5 => "5",
        6 => "6",
        7 => "7",
        8 => "8",
        _ => "9",
    };
    proof {
        reveal_strlit("0");
        reveal_strlit("1");
        reveal_strlit("2");
        reveal_strlit("3");
        reveal_strlit("4");
        reveal_strlit("5");
        reveal_strlit("6");
        reveal_strlit("7");
        reveal_strlit("8");
        reveal_strlit("9");
        assert(r@ =~= seq![digit_char(d as int)]);
    }
    r
}

fn push_two_digits(out: &mut String, n: u64)
    requires
        n < 100,
    ensures
        final(out)@ == old(out)@ + two_digits(n as int),
{
    out.append(digit_str(n / 10));
    out.append(digit_str(n % 10));
    proof {
        assert(out@ =~= old(out)@ + two_digits(n as int));
    }
}

/// Formats a well-formed date-time as `YYYY:MM:DD HH:MM:SS`.
pub fn format_datetime(t: &CanonicalTimestamp) -> (r: String)
    requires
        t.wf(),
    ensures
        r@ == datetime_display(*t),
        r@.len() == 19,
{
    let mut out = String::new();
    let y: u64 = t.year as u64;
    out.append(digit_str(y / 1000));
    out.append(digit_str((y / 100) % 10));
    out.append(digit_str((y / 10) % 10));
    out.append(digit_str(y % 10));
    out.append(":");
    push_two_digits(&mut out, t.month as u64);
    out.append(":");
    push_two_digits(&mut out, t.day as u64);
    out.append(" ");
    push_two_digits(&mut out, t.hour as u64);
    out.append(":");
    push_two_digits(&mut out, t.minute as u64);
    out.append(":");
    push_two_digits(&mut out, t.second as u64);
    proof {
        reveal_strlit(":");
        reveal_strlit(" ");
        assert(":"@ =~= seq![':']);
        assert(" "@ =~= seq![' ']);
        assert(out@ =~= datetime_display(*t));
    }
    out
}

pub open spec fn is_digit(c: char) -> bool {
    '0' <= c && c <= '9'
}

pub open spec fn digit_val(c: char) -> int {
    (c as u32) - ('0' as u32)
}

/// The value of a sequence of decimal digits, most significant first.
pub open spec fn digits_val(s: Seq<char>) -> int
    decreases s.len(),
{
    if s.len() == 0 {
        0
    } else {
        digits_val(s.drop_last()) * 10 + digit_val(s.last())
    }
}

pub open spec fn all_digits(s: Seq<char>) -> bool {
    forall|i: int| 0 <= i < s.len() ==> is_digit(s[i])
}

/// The digits of an integer literal: the whole string, or everything after
/// one leading sign.
pub open spec fn int_literal_body(s: Seq<char>) -> Seq<char> {
    if s.len() > 0 && (s[0] == '+' || s[0] == '-') {
        s.drop_first()
    } else {
        s
    }
}

/// A decimal integer literal: an optional sign followed by one or more
/// digits, nothing else.
pub open spec fn is_int_literal(s: Seq<char>) -> bool {
    int_literal_body(s).len() > 0 && all_digits(int_literal_body(s))
}

pub open spec fn int_literal_val(s: Seq<char>) -> int {
    if s.len() > 0 && s[0] == '-' {
        -digits_val(int_literal_body(s))
    } else {
        digits_val(int_literal_body(s))
    }
}

proof fn lemma_digits_val_nonneg(s: Seq<char>)
    requires
        all_digits(s),
    ensures
        digits_val(s) >= 0,
    decreases s.len(),
{
    if s.len() > 0 {
        assert(is_digit(s.last()));
        lemma_digits_val_nonneg(s.drop_last());
    }
}

/// Appending digits can only grow the value.
proof fn lemma_digits_prefix_le(s: Seq<char>, k: int)
    requires
        all_digits(s),
        0 <= k <= s.len(),
    ensures
        digits_val(s.take(k)) <= digits_val(s),
    decreases s.len(),
{
    if k < s.len() {
        assert(is_digit(s.last()));
        lemma_digits_val_nonneg(s.drop_last());
        assert(s.drop_last().take(k) =~= s.take(k));
        lemma_digits_prefix_le(s.drop_last(), k);
    } else {
        assert(s.take(k) =~= s);
    }
}

/// Parses a decimal string as a signed 64-bit epoch-seconds value. Succeeds
/// exactly when the string is an integer literal whose value fits in 64 bits,
/// and then returns exactly that value.
pub fn parse_epoch_seconds(s: &str) -> (r: Result<i64, ProcessError>)
    ensures
        r is Ok <==> is_int_literal(s@) && i64::MIN <= int_literal_val(s@) <= i64::MAX,
        r matches Ok(v) ==> v == int_literal_val(s@),
        r matches Err(e) ==> e == ProcessError::InvalidTimestamp,
{
    let n = s.unicode_len();
    if n == 0 {
        return Err(ProcessError::InvalidTimestamp);
    }
    let first = s.get_char(0);
    let neg = first == '-';
    let start: usize = if first == '-' || first == '+' {
        1
    } else {
        0
    };
    proof {
        assert(int_literal_body(s@) =~= s@.subrange(start as int, n as int));
    }
    if start == n {
        return Err(ProcessError::InvalidTimestamp);
    }
    let mut acc: i128 = 0;
    let mut i: usize = start;
    while i < n
        invariant
            start <= i <= n,
            n == s@.len(),
            int_literal_body(s@) =~= s@.subrange(start as int, n as int),
            acc == digits_val(s@.subrange(start as int, i as int)),
            0 <= acc < 10000000000000000000,
            all_digits(s@.subrange(start as int, i as int)),
        decreases n - i,
    {
        let c = s.get_char(i);
        if c < '0' || c > '9' {
            proof {
                assert(int_literal_body(s@)[i - start] == c);
            }
            return Err(ProcessError::InvalidTimestamp);
        }
        let d: u32 = (c as u32) - ('0' as u32);
        let acc2: i128 = acc * 10 + (d as i128);
        proof {
            assert(s@.subrange(start as int, i + 1).drop_last() =~= s@.subrange(
                start as int,
                i as int,
            ));
            assert(acc2 == digits_val(s@.subrange(start as int, i + 1)));
        }
        if acc2 >= 10000000000000000000 {
            proof {
                if is_int_literal(s@) {
                    lemma_digits_prefix_le(int_literal_body(s@), i + 1 - start);
                    assert(int_literal_body(s@).take(i + 1 - start) =~= s@.subrange(
                        start as int,
                        i + 1,
                    ));
                }
            }
            return Err(ProcessError::InvalidTimestamp);
        }
        acc = acc2;
        i = i + 1;
    }
    proof {
        assert(s@.subrange(start as int, n as int) =~= s@.subrange(start as int, i as int));
        assert(is_int_literal(s@));
    }
    if neg {
        if acc > 9223372036854775808 {
            return Err(ProcessError::InvalidTimestamp);
        }
        Ok((-acc) as i64)
    } else {
        if acc > 9223372036854775807 {
            return Err(ProcessError::InvalidTimestamp);
        }
        Ok(acc as i64)
    }
}

/// Decodes a sidecar timestamp string all the way to the canonical
/// `YYYY:MM:DD HH:MM:SS` form: parse the decimal epoch value, convert it to
/// a calendar date-time, format. Succeeds exactly when the string is an
/// integer literal whose value lies in the representable calendar range.
pub fn decode_timestamp_str(ts: &str) -> (r: Result<String, ProcessError>)
    ensures
        r is Ok <==> is_int_literal(ts@) && in_supported_range(int_literal_val(ts@)),
        r matches Ok(d) ==> exists|t: CanonicalTimestamp|
            t.wf() && epoch_seconds_of(t) == int_literal_val(ts@) && d@ == datetime_display(t),
        r matches Err(e) ==> e == ProcessError::InvalidTimestamp,
{
    let v = match parse_epoch_seconds(ts) {
        Ok(v) => v,
        Err(e) => {
            return Err(e);
        },
    };
    let t = match decode_epoch(v) {
        Ok(t) => t,
        Err(e) => {
            return Err(e);
        },
    };
    let d = format_datetime(&t);
    proof {
        assert(t.wf() && epoch_seconds_of(t) == int_literal_val(ts@) && d@ == datetime_display(t));
    }
    Ok(d)
}

} // verus!


