//! Fixed-point decimal numbers.
//!
//! Monetary values are carried as integers scaled by `FIXED_SCALE`, never as
//! floating point, so that repeated cache round-trips and incremental
//! indicator updates cannot drift.  Upstream providers deliver prices as
//! decimal text in several encodings (plain integers, decimal fractions,
//! scientific notation); `parse_fixed` turns any of them into a `Fixed`,
//! truncating toward zero at the fourth fractional digit.

use vstd::prelude::*;
use crate::text::{digit_val, is_digit_byte};

verus! {

/// Scaling factor: a `Fixed` stores its value multiplied by this constant,
/// giving four fractional decimal digits.
pub const FIXED_SCALE: i64 = 10000;

/// Largest raw magnitude a parsed `Fixed` may carry.
pub const FIXED_ABS_MAX: i64 = 900_000_000_000_000_000;

/// Largest magnitude (in whole units) accepted by `Fixed::from_units`.
pub const FIXED_UNITS_MAX: i64 = 90_000_000_000_000;

/// A fixed-point decimal number: `raw` holds the value times `FIXED_SCALE`.
#[derive(Clone, Copy, Debug, PartialEq, Eq, Structural, Hash)]
pub struct Fixed {
    pub raw: i64,
}

impl Fixed {
    pub fn zero() -> (r: Fixed)
        ensures
            r.raw == 0,
    {
        Fixed { raw: 0 }
    }

    pub fn new(raw: i64) -> (r: Fixed)
        ensures
            r.raw == raw,
    {
        Fixed { raw }
    }

    /// Builds the fixed-point number for a whole number of units.
    pub fn from_units(units: i64) -> (r: Fixed)
        requires
            -FIXED_UNITS_MAX <= units <= FIXED_UNITS_MAX,
        ensures
            r.raw == units * FIXED_SCALE,
    {
        Fixed { raw: units * FIXED_SCALE }
    }

    pub fn is_positive(&self) -> (r: bool)
        ensures
            r == (self.raw > 0),
    {
        self.raw > 0
    }
}

/// Ten to the `k`.
pub open spec fn pow10(k: nat) -> int
    decreases k,
{
    if k == 0 {
        1
    } else {
        10 * pow10((k - 1) as nat)
    }
}

pub open spec fn all_digits(s: Seq<u8>) -> bool {
    forall|i: int| 0 <= i < s.len() ==> is_digit_byte(s[i])
}

/// Value of a run of decimal digits, most significant first.
pub open spec fn digits_val(s: Seq<u8>) -> int
    decreases s.len(),
{
    if s.len() == 0 {
        0
    } else {
        10 * digits_val(s.drop_last()) + digit_val(s.last())
    }
}

/// Index of the first exponent marker (`e` or `E`), or the length.
pub open spec fn find_exp(s: Seq<u8>) -> int
    decreases s.len(),
{
    if s.len() == 0 {
        0
    } else if s[0] == 101 || s[0] == 69 {
        0
    } else {
        1 + find_exp(s.drop_first())
    }
}

/// Index of the first `.`, or the length.
pub open spec fn find_dot(s: Seq<u8>) -> int
    decreases s.len(),
{
    if s.len() == 0 {
        0
    } else if s[0] == 46 {
        0
    } else {
        1 + find_dot(s.drop_first())
    }
}

/// Shape of an exponent suffix: optional sign, then one to four digits.
pub open spec fn valid_exp(e: Seq<u8>) -> bool {
    let ds = if e.len() > 0 && (e[0] == 43 || e[0] == 45) {
        e.drop_first()
    } else {
        e
    };
    1 <= ds.len() <= 4 && all_digits(ds)
}

/// Signed value of an exponent suffix.
pub open spec fn exp_val(e: Seq<u8>) -> int {
    let neg = e.len() > 0 && e[0] == 45;
    let ds = if e.len() > 0 && (e[0] == 43 || e[0] == 45) {
        e.drop_first()
    } else {
        e
    };
    if neg {
        -digits_val(ds)
    } else {
        digits_val(ds)
    }
}

/// Scales a nonnegative mantissa by ten to the `k`, truncating toward zero.
pub open spec fn scale_mag(d: int, k: int) -> int {
    if k >= 0 {
        d * pow10(k as nat)
    } else {
        d / pow10((-k) as nat)
    }
}

/// The decimal-text grammar accepted for fixed-point numbers:
/// optional minus sign, digits, an optional fraction, an optional exponent.
/// `None` stands for a malformed or out-of-range input.
pub open spec fn parse_fixed_spec(s: Seq<u8>) -> Option<int> {
    if s.len() == 0 {
        None
    } else {
        let neg = s[0] == 45;
        let body = if neg {
            s.drop_first()
        } else {
            s
        };
        parse_body_spec(body, neg)
    }
}

/// The mantissa: everything before the exponent marker.
pub open spec fn mant_of(body: Seq<u8>) -> Seq<u8> {
    body.take(find_exp(body))
}

pub open spec fn has_exp_of(body: Seq<u8>) -> bool {
    find_exp(body) < body.len()
}

/// The exponent suffix: everything after the exponent marker.
pub open spec fn exp_of(body: Seq<u8>) -> Seq<u8> {
    body.skip(find_exp(body) + 1)
}

pub open spec fn has_dot_of(body: Seq<u8>) -> bool {
    find_dot(mant_of(body)) < mant_of(body).len()
}

/// The digits before the dot.
pub open spec fn intp_of(body: Seq<u8>) -> Seq<u8> {
    mant_of(body).take(find_dot(mant_of(body)))
}

/// The digits after the dot, if any.
pub open spec fn frac_of(body: Seq<u8>) -> Seq<u8> {
    if has_dot_of(body) {
        mant_of(body).skip(find_dot(mant_of(body)) + 1)
    } else {
        Seq::empty()
    }
}

/// Well-formed number body: digits, an optional nonempty fraction, an
/// optional exponent of at most four digits.
pub open spec fn shape_ok(body: Seq<u8>) -> bool {
    &&& intp_of(body).len() >= 1
    &&& all_digits(intp_of(body))
    &&& has_dot_of(body) ==> (frac_of(body).len() >= 1 && all_digits(frac_of(body)))
    &&& has_exp_of(body) ==> valid_exp(exp_of(body))
}

/// The mantissa digits read as one integer.
pub open spec fn dval_of(body: Seq<u8>) -> int {
    digits_val(intp_of(body) + frac_of(body))
}

/// The power of ten the mantissa digits must be scaled by.
pub open spec fn kexp_of(body: Seq<u8>) -> int {
    (if has_exp_of(body) {
        exp_val(exp_of(body))
    } else {
        0
    }) + 4 - frac_of(body).len()
}

pub open spec fn parse_body_spec(body: Seq<u8>, neg: bool) -> Option<int> {
    if !shape_ok(body) {
        None
    } else if dval_of(body) > FIXED_ABS_MAX {
        None
    } else {
        let m = scale_mag(dval_of(body), kexp_of(body));
        if m > FIXED_ABS_MAX {
            None
        } else {
            Some(
                if neg {
                    -m
                } else {
                    m
                },
            )
        }
    }
}

pub open spec fn opt_raw(r: Option<Fixed>) -> Option<int> {
    match r {
        Some(f) => Some(f.raw as int),
        None => None,
    }
}

proof fn lemma_pow10_pos(k: nat)
    ensures
        pow10(k) >= 1,
    decreases k,
{
    if k > 0 {
        lemma_pow10_pos((k - 1) as nat);
    }
}

proof fn lemma_pow10_mono(a: nat, b: nat)
    requires
        a <= b,
    ensures
        pow10(a) <= pow10(b),
    decreases b,
{
    if a < b {
        lemma_pow10_mono(a, (b - 1) as nat);
        lemma_pow10_pos((b - 1) as nat);
    }
}

proof fn lemma_all_digits_concat(a: Seq<u8>, b: Seq<u8>)
    ensures
        all_digits(a + b) <==> (all_digits(a) && all_digits(b)),
{
    if all_digits(a) && all_digits(b) {
        assert forall|t: int| 0 <= t < (a + b).len() implies is_digit_byte((a + b)[t]) by {
            if t < a.len() {
                assert((a + b)[t] == a[t]);
            } else {
                assert((a + b)[t] == b[t - a.len()]);
            }
        }
    }
    if all_digits(a + b) {
        assert forall|t: int| 0 <= t < a.len() implies is_digit_byte(a[t]) by {
            assert((a + b)[t] == a[t]);
        }
        assert forall|t: int| 0 <= t < b.len() implies is_digit_byte(b[t]) by {
            assert((a + b)[a.len() + t] == b[t]);
        }
    }
}

proof fn lemma_digits_val_nonneg(s: Seq<u8>)
    ensures
        all_digits(s) ==> digits_val(s) >= 0,
    decreases s.len(),
{
    if s.len() > 0 {
        assert(all_digits(s) ==> all_digits(s.drop_last()));
        lemma_digits_val_nonneg(s.drop_last());
    }
}

/// Appending digits can only grow a nonnegative digit-run value.
proof fn lemma_digits_val_extend(s: Seq<u8>, i: int)
    requires
        0 <= i <= s.len(),
        all_digits(s),
    ensures
        digits_val(s) >= digits_val(s.take(i)),
    decreases s.len() - i,
{
    lemma_digits_val_nonneg(s.take(i));
    if i < s.len() {
        lemma_digits_val_extend(s, i + 1);
        assert(s.take(i + 1).drop_last() =~= s.take(i));
        assert(all_digits(s.take(i + 1)));
        lemma_digits_val_nonneg(s.take(i + 1));
        assert(digits_val(s.take(i + 1)) == 10 * digits_val(s.take(i)) + digit_val(s.take(i + 1).last()));
    } else {
        assert(s.take(i) =~= s);
    }
}

/// Locating the spec-level split point from a left-to-right scan.
proof fn lemma_find_exp_at(s: Seq<u8>, i: int)
    requires
        0 <= i <= s.len(),
        forall|j: int| 0 <= j < i ==> s[j] != 101 && s[j] != 69,
        i < s.len() ==> (s[i] == 101 || s[i] == 69),
    ensures
        find_exp(s) == i,
    decreases i,
{
    if i > 0 {
        lemma_find_exp_at(s.drop_first(), i - 1);
    }
}

proof fn lemma_find_dot_at(s: Seq<u8>, i: int)
    requires
        0 <= i <= s.len(),
        forall|j: int| 0 <= j < i ==> s[j] != 46,
        i < s.len() ==> s[i] == 46,
    ensures
        find_dot(s) == i,
    decreases i,
{
    if i > 0 {
        lemma_find_dot_at(s.drop_first(), i - 1);
    }
}

/// A quotient that has reached zero stays zero under further division.
proof fn lemma_div_pow10_zero(d: int, a: nat, b: nat)
    requires
        0 <= d,
        a <= b,
        d / pow10(a) == 0,
    ensures
        d / pow10(b) == 0,
{
    lemma_pow10_pos(a);
    lemma_pow10_pos(b);
    lemma_pow10_mono(a, b);
    broadcast use vstd::arithmetic::div_mod::lemma_small_div_converse;

    assert(d < pow10(a));
    vstd::arithmetic::div_mod::lemma_basic_div(d, pow10(b));
}

/// Result of scanning one run of mantissa digits.
enum DigitScan {
    /// The run is all digits and the accumulated value stays in range.
    Value(u64),
    /// A byte that is not a digit was found.
    NonDigit,
    /// The accumulated value left the representable range.
    TooBig,
}

/// Accumulates the digit run `s[from..to)` onto `init`, which stands for the
/// already-scanned digits `prefix`.
#[verifier::loop_isolation(false)]
fn scan_digits(s: &[u8], from: usize, to: usize, init: u64, Ghost(prefix): Ghost<Seq<u8>>) -> (res:
    DigitScan)
    requires
        from <= to <= s@.len(),
        all_digits(prefix),
        init == digits_val(prefix),
        init <= FIXED_ABS_MAX,
    ensures
        ({
            let whole = prefix + s@.subrange(from as int, to as int);
            match res {
                DigitScan::Value(v) => all_digits(whole) && v == digits_val(whole) && v
                    <= FIXED_ABS_MAX,
                DigitScan::NonDigit => !all_digits(s@.subrange(from as int, to as int)),
                DigitScan::TooBig => all_digits(whole) ==> digits_val(whole) > FIXED_ABS_MAX,
            }
        }),
{
    let ghost r = s@.subrange(from as int, to as int);
    let ghost whole = prefix + r;
    let mut mag: u64 = init;
    let mut i: usize = from;
    assert(whole.take(prefix.len() as int) =~= prefix);
    while i < to
        invariant
            from <= i <= to,
            mag == digits_val(whole.take(prefix.len() + (i - from))),
            all_digits(whole.take(prefix.len() + (i - from))),
            mag <= FIXED_ABS_MAX,
        decreases to - i,
    {
        let b = s[i];
        assert(whole[prefix.len() + (i - from)] == s@[i as int]);
        if b < 48 || b > 57 {
            assert(!is_digit_byte(r[i - from]));
            return DigitScan::NonDigit;
        }
        assert(whole.take(prefix.len() + (i - from) + 1).drop_last() =~= whole.take(
            prefix.len() + (i - from),
        ));
        assert(whole.take(prefix.len() + (i - from) + 1).last() == whole[prefix.len() + (i
            - from)]);
        let d = (b - 48) as u64;
        let next = mag * 10 + d;
        assert(next == digits_val(whole.take(prefix.len() + (i - from) + 1)));
        if next > FIXED_ABS_MAX as u64 {
            proof {
                assert(all_digits(whole.take(prefix.len() + (i - from) + 1)));
                if all_digits(whole) {
                    lemma_digits_val_extend(whole, prefix.len() + (i - from) + 1);
                }
            }
            return DigitScan::TooBig;
        }
        mag = next;
        i = i + 1;
    }
    assert(whole.take(prefix.len() + (to - from)) =~= whole);
    DigitScan::Value(mag)
}

/// Multiplies `mag` by ten to the `steps`, reporting when the result would
/// leave the representable range.
#[verifier::loop_isolation(false)]
fn scale_up(mag: u64, steps: u64) -> (res: Option<u64>)
    requires
        1 <= mag <= FIXED_ABS_MAX,
    ensures
        match res {
            Some(m) => m == mag * pow10(steps as nat) && m <= FIXED_ABS_MAX,
            None => mag * pow10(steps as nat) > FIXED_ABS_MAX,
        },
{
    let mut m: u64 = mag;
    let mut t: u64 = 0;
    assert(m == mag * pow10(0));
    while t < steps
        invariant
            t <= steps,
            m == mag * pow10(t as nat),
            m <= FIXED_ABS_MAX,
        decreases steps - t,
    {
        proof {
            lemma_pow10_pos(t as nat);
        }
        let v = m * 10;
        assert(pow10((t + 1) as nat) == 10 * pow10(t as nat));
        assert(v == mag * pow10((t + 1) as nat)) by (nonlinear_arith)
            requires
                v == m * 10,
                m == mag * pow10(t as nat),
                pow10((t + 1) as nat) == 10 * pow10(t as nat),
        ;
        if v > FIXED_ABS_MAX as u64 {
            proof {
                lemma_scale_overflow(mag as int, (t + 1) as nat, steps as nat);
            }
            return None;
        }
        m = v;
        t = t + 1;
    }
    Some(m)
}

/// Divides `mag` by ten to the `steps`, truncating toward zero.
#[verifier::loop_isolation(false)]
fn scale_down(mag: u64, steps: u64) -> (m: u64)
    requires
        1 <= mag <= FIXED_ABS_MAX,
    ensures
        m == mag as int / pow10(steps as nat),
        m <= FIXED_ABS_MAX,
{
    if steps >= 18 {
        proof {
            reveal_with_fuel(pow10, 19);
            assert(pow10(18) == 1_000_000_000_000_000_000);
            vstd::arithmetic::div_mod::lemma_basic_div(mag as int, pow10(18));
            lemma_div_pow10_zero(mag as int, 18, steps as nat);
        }
        return 0;
    }
    let mut m: u64 = mag;
    let mut t: u64 = 0;
    assert(m == mag as int / pow10(0)) by {
        vstd::arithmetic::div_mod::lemma_div_basics_2(mag as int);
    }
    while t < steps
        invariant
            t <= steps,
            m == mag as int / pow10(t as nat),
            m <= FIXED_ABS_MAX,
        decreases steps - t,
    {
        proof {
            lemma_pow10_pos(t as nat);
            lemma_pow10_pos((t + 1) as nat);
            vstd::arithmetic::div_mod::lemma_div_denominator(mag as int, pow10(t as nat), 10);
            assert(pow10(t as nat) * 10 == pow10((t + 1) as nat));
        }
        m = m / 10;
        assert(m == mag as int / pow10((t + 1) as nat));
        t = t + 1;
    }
    m
}

/// Parses an exponent suffix `s[from..]`: optional sign, then one to four
/// digits; yields the sign and the digit value.
#[verifier::loop_isolation(false)]
fn parse_exp(s: &[u8], from: usize) -> (res: Option<(bool, u64)>)
    requires
        from <= s@.len(),
    ensures
        ({
            let r = s@.subrange(from as int, s@.len() as int);
            match res {
                Some(p) => valid_exp(r) && p.1 <= 9999 && p.0 == (r.len() > 0 && r[0] == 45)
                    && exp_val(r) == (if p.0 {
                    -(p.1 as int)
                } else {
                    p.1 as int
                }),
                None => !valid_exp(r),
            }
        }),
{
    let ghost r = s@.subrange(from as int, s@.len() as int);
    let n = s.len();
    let mut e_neg = false;
    let mut ds_start = from;
    if ds_start < n && (s[ds_start] == 43 || s[ds_start] == 45) {
        e_neg = s[ds_start] == 45;
        ds_start = ds_start + 1;
    }
    let ghost ds = if r.len() > 0 && (r[0] == 43 || r[0] == 45) {
        r.drop_first()
    } else {
        r
    };
    assert(ds.len() == n - ds_start);
    assert(forall|t: int| 0 <= t < ds.len() ==> ds[t] == s@[ds_start + t]);
    if ds_start == n || n - ds_start > 4 {
        assert(!valid_exp(r));
        return None;
    }
    let mut e_val: u64 = 0;
    let mut j = ds_start;
    while j < n
        invariant
            ds_start <= j <= n,
            all_digits(ds.take(j - ds_start)),
            e_val == digits_val(ds.take(j - ds_start)),
            e_val <= 9999,
        decreases n - j,
    {
        let b = s[j];
        if b < 48 || b > 57 {
            assert(!is_digit_byte(ds[j - ds_start]));
            assert(!valid_exp(r));
            return None;
        }
        assert(ds.take(j - ds_start + 1).drop_last() =~= ds.take(j - ds_start));
        assert(ds.take(j - ds_start + 1).last() == ds[j - ds_start]);
        proof {
            lemma_digits_val_nonneg(ds.take(j - ds_start));
        }
        e_val = e_val * 10 + (b - 48) as u64;
        assert(e_val == digits_val(ds.take(j - ds_start + 1)));
        assert(e_val <= 9999) by {
            assert(all_digits(ds.take(j - ds_start + 1)));
            assert(ds.take(j - ds_start + 1).len() <= 4);
            lemma_digits_val_four(ds.take(j - ds_start + 1));
        }
        j = j + 1;
    }
    assert(ds.take((n - ds_start) as int) =~= ds);
    assert(valid_exp(r));
    assert(e_val == digits_val(ds));
    assert(e_neg == (r.len() > 0 && r[0] == 45));
    Some((e_neg, e_val))
}

/// Parses decimal text into a fixed-point number, exactly as
/// `parse_fixed_spec` describes.
#[verifier::rlimit(100)]
#[verifier::loop_isolation(false)]
pub fn parse_fixed(s: &[u8]) -> (r: Option<Fixed>)
    ensures
        opt_raw(r) == parse_fixed_spec(s@),
{
    let n = s.len();
    if n == 0 {
        return None;
    }
    let neg = s[0] == 45;
    let start: usize = if neg {
        1
    } else {
        0
    };
    let ghost body = if neg {
        s@.drop_first()
    } else {
        s@
    };
    assert(parse_fixed_spec(s@) == parse_body_spec(body, neg));
    assert(forall|j: int| 0 <= j < body.len() ==> body[j] == s@[start + j]);

    // Locate the exponent marker and the decimal dot.
    let mut epos: usize = start;
    while epos < n && s[epos] != 101 && s[epos] != 69
        invariant
            start <= epos <= n,
            forall|j: int| start <= j < epos ==> s@[j] != 101 && s@[j] != 69,
        decreases n - epos,
    {
        epos = epos + 1;
    }
    proof {
        lemma_find_exp_at(body, epos - start);
    }
    let ghost mant = mant_of(body);
    let ghost exp_s = exp_of(body);
    assert(mant == body.take(epos - start));
    assert(has_exp_of(body) == (epos < n));
    assert(forall|j: int| 0 <= j < mant.len() ==> mant[j] == s@[start + j]);

    let mut dotpos: usize = start;
    while dotpos < epos && s[dotpos] != 46
        invariant
            start <= dotpos <= epos,
            forall|j: int| start <= j < dotpos ==> s@[j] != 46,
        decreases epos - dotpos,
    {
        dotpos = dotpos + 1;
    }
    proof {
        lemma_find_dot_at(mant, dotpos - start);
    }
    let ghost intp = intp_of(body);
    let ghost frac = frac_of(body);
    let ghost digits = intp + frac;
    assert(intp == mant.take(dotpos - start));
    assert(has_dot_of(body) == (dotpos < epos));
    assert(dotpos < epos ==> frac == mant.skip(dotpos - start + 1));
    assert(dotpos == epos ==> frac == Seq::<u8>::empty());

    // Integer part: at least one digit.
    if dotpos == start {
        assert(intp.len() == 0);
        assert(!shape_ok(body));
        return None;
    }
    assert(intp =~= s@.subrange(start as int, dotpos as int));
    let mag: u64;
    match scan_digits(s, start, dotpos, 0, Ghost(Seq::empty())) {
        DigitScan::Value(v) => {
            assert(Seq::<u8>::empty() + intp =~= intp);
            mag = v;
        },
        DigitScan::NonDigit => {
            assert(!all_digits(intp));
            assert(!shape_ok(body));
            return None;
        },
        DigitScan::TooBig => {
            proof {
                assert(Seq::<u8>::empty() + intp =~= intp);
                if shape_ok(body) {
                    lemma_all_digits_concat(intp, frac);
                    lemma_digits_val_extend(digits, intp.len() as int);
                    assert(digits.take(intp.len() as int) =~= intp);
                    assert(dval_of(body) > FIXED_ABS_MAX);
                }
            }
            return None;
        },
    }
    assert(all_digits(intp));
    assert(mag == digits_val(intp));

    // Fraction: if a dot is present, at least one digit follows it.
    let f: usize;
    let dval: u64;
    if dotpos < epos {
        if dotpos + 1 == epos {
            assert(frac.len() == 0);
            assert(!shape_ok(body));
            return None;
        }
        let fr_start = dotpos + 1;
        assert(frac =~= s@.subrange(fr_start as int, epos as int));
        match scan_digits(s, fr_start, epos, mag, Ghost(intp)) {
            DigitScan::Value(v) => {
                dval = v;
            },
            DigitScan::NonDigit => {
                assert(!all_digits(frac));
                assert(!shape_ok(body));
                return None;
            },
            DigitScan::TooBig => {
                proof {
                    if shape_ok(body) {
                        lemma_all_digits_concat(intp, frac);
                        assert(dval_of(body) > FIXED_ABS_MAX);
                    }
                }
                return None;
            },
        }
        f = epos - fr_start;
    } else {
        assert(digits =~= intp);
        dval = mag;
        f = 0;
    }
    assert(dval == digits_val(digits));
    assert(all_digits(digits)) by {
        lemma_all_digits_concat(intp, frac);
    }
    assert(all_digits(frac)) by {
        lemma_all_digits_concat(intp, frac);
    }
    assert(f == frac.len());
    assert(dval == dval_of(body));

    // Exponent suffix: optional sign, then one to four digits.
    let mut e_neg = false;
    let mut e_val: u64 = 0;
    if epos < n {
        assert(exp_s =~= s@.subrange(epos + 1 as int, s@.len() as int));
        match parse_exp(s, epos + 1) {
            Some(p) => {
                e_neg = p.0;
                e_val = p.1;
            },
            None => {
                assert(!valid_exp(exp_s));
                assert(!shape_ok(body));
                return None;
            },
        }
        assert(valid_exp(exp_s));
    }
    let ghost e: int = if has_exp_of(body) {
        exp_val(exp_s)
    } else {
        0
    };
    proof {
        if has_exp_of(body) {
            if e_neg {
                assert(e == -(e_val as int));
            } else {
                assert(e == e_val as int);
            }
        } else {
            assert(e_val == 0);
        }
    }
    let ghost k: int = e + 4 - frac.len();
    assert(k == kexp_of(body));
    assert(shape_ok(body));

    // Scale the mantissa by ten to the k, truncating toward zero.
    if dval == 0 {
        proof {
            scale_mag_zero(k);
        }
        assert(parse_body_spec(body, neg) == Some(0int));
        return Some(Fixed { raw: 0 });
    }
    let ku: i128 = 4 + (if e_neg {
        -(e_val as i128)
    } else {
        e_val as i128
    }) - (f as i128);
    assert(ku == k);
    let m: u64;
    if ku >= 0 {
        match scale_up(dval, ku as u64) {
            Some(v) => {
                m = v;
                assert(m == scale_mag(dval as int, k));
            },
            None => {
                assert(scale_mag(dval_of(body), kexp_of(body)) > FIXED_ABS_MAX);
                return None;
            },
        }
    } else if ku <= -18 {
        m = scale_down(dval, 18);
        proof {
            reveal_with_fuel(pow10, 19);
            assert(pow10(18) == 1_000_000_000_000_000_000);
            vstd::arithmetic::div_mod::lemma_basic_div(dval as int, pow10(18));
            assert(m == 0);
            lemma_div_pow10_zero(dval as int, 18, (-k) as nat);
        }
        assert(m == scale_mag(dval as int, k));
    } else {
        m = scale_down(dval, (-ku) as u64);
        assert(m == scale_mag(dval as int, k));
    }
    let raw_mag = m as i64;
    let raw = if neg {
        -raw_mag
    } else {
        raw_mag
    };
    assert(parse_body_spec(body, neg) == Some(raw as int));
    Some(Fixed { raw })
}

/// Scaling a zero mantissa yields zero.
proof fn scale_mag_zero(k: int)
    ensures
        scale_mag(0, k) == 0,
{
    if k >= 0 {
        lemma_pow10_pos(k as nat);
    } else {
        lemma_pow10_pos((-k) as nat);
        vstd::arithmetic::div_mod::lemma_div_of0(pow10((-k) as nat));
    }
}

/// Once a partial product exceeds the cap, the full product does too.
proof fn lemma_scale_overflow(d: int, t: nat, k: nat)
    requires
        1 <= d,
        t <= k,
        d * pow10(t) > FIXED_ABS_MAX,
    ensures
        d * pow10(k) > FIXED_ABS_MAX,
{
    lemma_pow10_pos(t);
    lemma_pow10_pos(k);
    lemma_pow10_mono(t, k);
    assert(d * pow10(t) <= d * pow10(k)) by (nonlinear_arith)
        requires
            1 <= d,
            0 < pow10(t) <= pow10(k),
    ;
}

/// A run of digits is below ten to its length.
proof fn lemma_digits_val_bound(s: Seq<u8>)
    requires
        all_digits(s),
    ensures
        0 <= digits_val(s) < pow10(s.len()),
    decreases s.len(),
{
    if s.len() > 0 {
        assert(all_digits(s.drop_last()));
        lemma_digits_val_bound(s.drop_last());
        assert(pow10(s.len()) == 10 * pow10((s.len() - 1) as nat));
    }
}

/// A run of at most four digits is below ten thousand.
pub proof fn lemma_digits_val_four(s: Seq<u8>)
    requires
        all_digits(s),
        s.len() <= 4,
    ensures
        0 <= digits_val(s) <= 9999,
{
    lemma_digits_val_bound(s);
    lemma_pow10_mono(s.len(), 4);
    reveal_with_fuel(pow10, 5);
    assert(pow10(4) == 10000);
}

} // verus!
