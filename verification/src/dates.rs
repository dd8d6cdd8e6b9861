//! Civil-calendar dates and timestamps.
//!
//! Bar timestamps arrive as fixed-format date text and leave as epoch
//! milliseconds; cache keys carry compact date text.  The day count of a
//! date uses the standard era-based civil-calendar formula on integers.

use vstd::prelude::*;
use crate::text::is_digit_byte;
use crate::fixed::{all_digits, digits_val, lemma_digits_val_four};

verus! {

/// A calendar date.
#[derive(Clone, Copy, Debug, PartialEq, Eq, Structural, Hash)]
pub struct Date {
    pub year: i32,
    pub month: u8,
    pub day: u8,
}

/// The years the timestamp arithmetic accepts.
pub const YEAR_MIN: i32 = 1600;

pub const YEAR_MAX: i32 = 9999;

pub open spec fn date_wf(d: Date) -> bool {
    &&& YEAR_MIN <= d.year <= YEAR_MAX
    &&& 1 <= d.month <= 12
    &&& 1 <= d.day <= 31
}

/// Days since the epoch of the civil date, by the standard era-based
/// formula (divisions are floor divisions).
pub open spec fn days_from_civil(y: int, m: int, d: int) -> int {
    let yy = if m <= 2 {
        y - 1
    } else {
        y
    };
    let era = yy / 400;
    let yoe = yy - era * 400;
    let mp = if m > 2 {
        m - 3
    } else {
        m + 9
    };
    let doy = (153 * mp + 2) / 5 + d - 1;
    let doe = yoe * 365 + yoe / 4 - yoe / 100 + doy;
    era * 146097 + doe - 719468
}

/// Milliseconds in one day.
pub const DAY_MS: i64 = 86_400_000;

/// The epoch-millisecond timestamp of a date at a clock time.
pub open spec fn ts_of(y: int, m: int, d: int, hh: int, mi: int, ss: int) -> int {
    days_from_civil(y, m, d) * (DAY_MS as int) + hh * 3_600_000 + mi * 60_000 + ss * 1000
}

/// Floor (Euclidean) division by a positive divisor.
fn div_floor_i64(a: i64, b: i64) -> (q: i64)
    requires
        b > 0,
    ensures
        q == a as int / b as int,
{
    proof {
        broadcast use vstd::arithmetic::div_mod::group_div_basics;

        let qi = a as int / b as int;
        let ri = a as int % b as int;
        vstd::arithmetic::div_mod::lemma_fundamental_div_mod(a as int, b as int);
        vstd::arithmetic::div_mod::lemma_mod_bound(a as int, b as int);
        if a < 0 {
            assert(a <= qi <= 0) by (nonlinear_arith)
                requires
                    b >= 1,
                    a < 0,
                    (b as int) * qi + ri == a,
                    0 <= ri < b,
            ;
        }
    }
    match a.checked_div_euclid(b) {
        Some(q) => q,
        None => {
            assert(false);
            0
        },
    }
}

/// Days since the epoch of a well-formed date.
pub fn date_to_days(d: &Date) -> (r: i64)
    requires
        date_wf(*d),
    ensures
        r == days_from_civil(d.year as int, d.month as int, d.day as int),
        -200_000 <= r <= 3_100_000,
{
    let y: i64 = d.year as i64;
    let m: i64 = d.month as i64;
    let dd: i64 = d.day as i64;
    let yy: i64 = if m <= 2 {
        y - 1
    } else {
        y
    };
    let era = div_floor_i64(yy, 400);
    let yoe = yy - era * 400;
    assert(0 <= yoe < 400) by {
        vstd::arithmetic::div_mod::lemma_fundamental_div_mod(yy as int, 400);
        vstd::arithmetic::div_mod::lemma_mod_bound(yy as int, 400);
    }
    let mpu: u64 = if m > 2 {
        (m - 3) as u64
    } else {
        (m + 9) as u64
    };
    let doy = ((153 * mpu + 2) / 5) as i64 + dd - 1;
    let yoeu = yoe as u64;
    let doe = yoe * 365 + (yoeu / 4) as i64 - (yoeu / 100) as i64 + doy;
    assert(3 <= era <= 24) by {
        vstd::arithmetic::div_mod::lemma_div_is_ordered(1599, yy as int, 400);
        vstd::arithmetic::div_mod::lemma_div_is_ordered(yy as int, 9999, 400);
        vstd::arithmetic::div_mod::lemma_fundamental_div_mod_converse(1599, 400, 3, 399);
        vstd::arithmetic::div_mod::lemma_fundamental_div_mod_converse(9999, 400, 24, 399);
    }
    let r = era * 146097 + doe - 719468;
    assert(r == days_from_civil(d.year as int, d.month as int, d.day as int));
    r
}

/// The epoch-millisecond timestamp of a date at a clock time.
pub fn date_time_to_ms(d: &Date, hh: u8, mi: u8, ss: u8) -> (r: i64)
    requires
        date_wf(*d),
        hh < 24,
        mi < 60,
        ss < 60,
    ensures
        r == ts_of(d.year as int, d.month as int, d.day as int, hh as int, mi as int, ss as int),
{
    let days = date_to_days(d);
    days * DAY_MS + (hh as i64) * 3_600_000 + (mi as i64) * 60_000 + (ss as i64) * 1000
}

/// The weekday of a day count, zero standing for Sunday.
pub fn weekday_of_days(days: i64) -> (r: u8)
    requires
        -1_000_000 <= days <= 4_000_000,
    ensures
        r == (days + 4) % 7,
        r < 7,
{
    let q = div_floor_i64(days + 4, 7);
    let w = (days + 4) - q * 7;
    assert(w == (days as int + 4) % 7 && 0 <= w < 7) by {
        vstd::arithmetic::div_mod::lemma_fundamental_div_mod(days as int + 4, 7);
        vstd::arithmetic::div_mod::lemma_mod_bound(days as int + 4, 7);
    }
    w as u8
}

/// Fixed-format date text `YYYY-MM-DD`.
pub open spec fn parse_date_spec(s: Seq<u8>) -> Option<Date> {
    if s.len() == 10 && all_digits(s.take(4)) && s[4] == 45 && all_digits(s.subrange(5, 7)) && s[7]
        == 45 && all_digits(s.subrange(8, 10)) {
        let y = digits_val(s.take(4));
        let m = digits_val(s.subrange(5, 7));
        let d = digits_val(s.subrange(8, 10));
        if YEAR_MIN <= y <= YEAR_MAX && 1 <= m <= 12 && 1 <= d <= 31 {
            Some(Date { year: y as i32, month: m as u8, day: d as u8 })
        } else {
            None
        }
    } else {
        None
    }
}

/// Reads a fixed-width digit run `s[from..from+w)`; `w` at most 4.
fn read_digits(s: &[u8], from: usize, w: usize) -> (r: Option<u64>)
    requires
        from + w <= s@.len(),
        w <= 4,
    ensures
        match r {
            Some(v) => all_digits(s@.subrange(from as int, (from + w) as int)) && v == digits_val(
                s@.subrange(from as int, (from + w) as int),
            ) && v <= 9999,
            None => !all_digits(s@.subrange(from as int, (from + w) as int)),
        },
{
    let ghost region = s@.subrange(from as int, (from + w) as int);
    let n = s.len();
    let mut v: u64 = 0;
    let mut i: usize = 0;
    while i < w
        invariant
            i <= w,
            n == s@.len(),
            from + w <= s@.len(),
            w <= 4,
            region == s@.subrange(from as int, (from + w) as int),
            all_digits(region.take(i as int)),
            v == digits_val(region.take(i as int)),
            v <= 9999,
        decreases w - i,
    {
        let b = s[from + i];
        assert(region[i as int] == s@[from + i]);
        if b < 48 || b > 57 {
            assert(!is_digit_byte(region[i as int]));
            return None;
        }
        assert(region.take(i + 1 as int).drop_last() =~= region.take(i as int));
        assert(region.take(i + 1 as int).last() == region[i as int]);
        v = v * 10 + (b - 48) as u64;
        assert(v == digits_val(region.take(i + 1 as int)));
        assert(v <= 9999) by {
            assert(all_digits(region.take(i + 1 as int)));
            assert(region.take(i + 1 as int).len() <= 4);
            lemma_digits_val_four(region.take(i + 1 as int));
        }
        i = i + 1;
    }
    assert(region.take(w as int) =~= region);
    Some(v)
}

/// Parses `YYYY-MM-DD`, exactly as `parse_date_spec` describes.
#[verifier::loop_isolation(false)]
pub fn parse_date(s: &[u8]) -> (r: Option<Date>)
    ensures
        r == parse_date_spec(s@),
{
    if s.len() != 10 {
        return None;
    }
    if !(s[4] == 45 && s[7] == 45) {
        return None;
    }
    assert(s@.subrange(0, 4) =~= s@.take(4));
    let y = match read_digits(s, 0, 4) {
        Some(v) => v,
        None => {
            return None;
        },
    };
    let m = match read_digits(s, 5, 2) {
        Some(v) => v,
        None => {
            return None;
        },
    };
    let d = match read_digits(s, 8, 2) {
        Some(v) => v,
        None => {
            return None;
        },
    };
    if y < YEAR_MIN as u64 || y > YEAR_MAX as u64 || m < 1 || m > 12 || d < 1 || d > 31 {
        return None;
    }
    Some(Date { year: y as i32, month: m as u8, day: d as u8 })
}

/// Fixed-format time text `HH:MM` or `HH:MM:SS`.
pub open spec fn parse_time_spec(s: Seq<u8>) -> Option<(u8, u8, u8)> {
    if s.len() == 5 && all_digits(s.take(2)) && s[2] == 58 && all_digits(s.subrange(3, 5)) {
        let h = digits_val(s.take(2));
        let mi = digits_val(s.subrange(3, 5));
        if h < 24 && mi < 60 {
            Some((h as u8, mi as u8, 0u8))
        } else {
            None
        }
    } else if s.len() == 8 && all_digits(s.take(2)) && s[2] == 58 && all_digits(s.subrange(3, 5))
        && s[5] == 58 && all_digits(s.subrange(6, 8)) {
        let h = digits_val(s.take(2));
        let mi = digits_val(s.subrange(3, 5));
        let ss = digits_val(s.subrange(6, 8));
        if h < 24 && mi < 60 && ss < 60 {
            Some((h as u8, mi as u8, ss as u8))
        } else {
            None
        }
    } else {
        None
    }
}

/// Parses `HH:MM` or `HH:MM:SS`, exactly as `parse_time_spec` describes.
#[verifier::loop_isolation(false)]
pub fn parse_time(s: &[u8]) -> (r: Option<(u8, u8, u8)>)
    ensures
        r == parse_time_spec(s@),
        match r {
            Some(t) => t.0 < 24 && t.1 < 60 && t.2 < 60,
            None => true,
        },
{
    if s.len() == 5 {
        if s[2] != 58 {
            return None;
        }
        assert(s@.subrange(0, 2) =~= s@.take(2));
        let h = match read_digits(s, 0, 2) {
            Some(v) => v,
            None => {
                return None;
            },
        };
        let mi = match read_digits(s, 3, 2) {
            Some(v) => v,
            None => {
                return None;
            },
        };
        if h >= 24 || mi >= 60 {
            return None;
        }
        Some((h as u8, mi as u8, 0u8))
    } else if s.len() == 8 {
        if s[2] != 58 || s[5] != 58 {
            return None;
        }
        assert(s@.subrange(0, 2) =~= s@.take(2));
        let h = match read_digits(s, 0, 2) {
            Some(v) => v,
            None => {
                return None;
            },
        };
        let mi = match read_digits(s, 3, 2) {
            Some(v) => v,
            None => {
                return None;
            },
        };
        let ss = match read_digits(s, 6, 2) {
            Some(v) => v,
            None => {
                return None;
            },
        };
        if h >= 24 || mi >= 60 || ss >= 60 {
            return None;
        }
        Some((h as u8, mi as u8, ss as u8))
    } else {
        None
    }
}

/// Two-digit zero-padded decimal text.
pub open spec fn pad2(n: int) -> Seq<u8> {
    seq![(48 + n / 10) as u8, (48 + n % 10) as u8]
}

/// Four-digit zero-padded decimal text.
pub open spec fn pad4(n: int) -> Seq<u8> {
    seq![
        (48 + n / 1000) as u8,
        (48 + (n / 100) % 10) as u8,
        (48 + (n / 10) % 10) as u8,
        (48 + n % 10) as u8,
    ]
}

/// Date text `YYYY-MM-DD`.
pub open spec fn date_text(d: Date) -> Seq<u8> {
    pad4(d.year as int) + seq![45u8] + pad2(d.month as int) + seq![45u8] + pad2(d.day as int)
}

/// Compact date text `YYYYMMDD`.
pub open spec fn date_text_compact(d: Date) -> Seq<u8> {
    pad4(d.year as int) + pad2(d.month as int) + pad2(d.day as int)
}

/// Writes a two-digit zero-padded number.
fn push_pad2(out: &mut Vec<u8>, n: u8)
    requires
        n < 100,
    ensures
        final(out)@ == old(out)@ + pad2(n as int),
{
    out.push(48 + n / 10);
    out.push(48 + n % 10);
    assert(out@ =~= old(out)@ + pad2(n as int));
}

/// Writes a four-digit zero-padded number.
fn push_pad4(out: &mut Vec<u8>, n: i32)
    requires
        0 <= n < 10000,
    ensures
        final(out)@ == old(out)@ + pad4(n as int),
{
    let v = n as u32;
    out.push(48 + (v / 1000) as u8);
    out.push(48 + ((v / 100) % 10) as u8);
    out.push(48 + ((v / 10) % 10) as u8);
    out.push(48 + (v % 10) as u8);
    assert(out@ =~= old(out)@ + pad4(n as int));
}

/// The `YYYY-MM-DD` text of a date.
pub fn format_date(d: &Date) -> (r: Vec<u8>)
    requires
        date_wf(*d),
    ensures
        r@ == date_text(*d),
{
    let mut out: Vec<u8> = Vec::new();
    push_pad4(&mut out, d.year);
    out.push(45);
    push_pad2(&mut out, d.month);
    out.push(45);
    push_pad2(&mut out, d.day);
    assert(out@ =~= date_text(*d));
    out
}

/// The `YYYYMMDD` text of a date.
pub fn format_date_compact(d: &Date) -> (r: Vec<u8>)
    requires
        date_wf(*d),
    ensures
        r@ == date_text_compact(*d),
{
    let mut out: Vec<u8> = Vec::new();
    push_pad4(&mut out, d.year);
    push_pad2(&mut out, d.month);
    push_pad2(&mut out, d.day);
    assert(out@ =~= date_text_compact(*d));
    out
}

} // verus!
