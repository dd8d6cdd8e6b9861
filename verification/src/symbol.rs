//! Ticker symbol normalization.
//!
//! Every request entering an upstream adapter carries a canonical symbol: a
//! six-digit code plus the market it trades on.  Raw user input is trimmed,
//! uppercased and classified; adapters never see raw input.

use vstd::prelude::*;
use crate::text::{all_not_space, is_digit_byte, no_lower_byte, trim_bytes, trim_vec, upper_bytes, upper_vec};
use crate::fixed::all_digits;

verus! {

/// The market a canonical symbol trades on.
#[derive(Clone, Copy, Debug, PartialEq, Eq, Structural, Hash)]
pub enum Market {
    Shenzhen,
    Shanghai,
}

/// A normalized ticker: a six-digit code and its market.
#[derive(Clone, Debug)]
pub struct CanonicalSymbol {
    pub code: Vec<u8>,
    pub market: Market,
}

/// Canonical symbols carry exactly six digits.
pub open spec fn symbol_wf(code: Seq<u8>) -> bool {
    code.len() == 6 && all_digits(code)
}

/// The textual suffix of a market: `.SZ` or `.SH`.
pub open spec fn market_suffix(m: Market) -> Seq<u8> {
    match m {
        Market::Shenzhen => seq![46u8, 83u8, 90u8],
        Market::Shanghai => seq![46u8, 83u8, 72u8],
    }
}

/// The canonical text of a symbol, e.g. `000001.SZ`.
pub open spec fn canon_text(code: Seq<u8>, m: Market) -> Seq<u8> {
    code + market_suffix(m)
}

/// True when `t` is a canonical symbol text: six digits, a dot, `SZ` or `SH`.
pub open spec fn is_suffixed(t: Seq<u8>) -> bool {
    t.len() == 9 && all_digits(t.take(6)) && t[6] == 46 && t[7] == 83 && (t[8] == 90 || t[8] == 72)
}

pub open spec fn suffix_market(t: Seq<u8>) -> Market {
    if t[8] == 90 {
        Market::Shenzhen
    } else {
        Market::Shanghai
    }
}

/// Normalization: trim and uppercase; accept an already-suffixed symbol
/// as it stands; classify a bare six-digit code by its leading digit
/// (`0`/`3` Shenzhen, `6` Shanghai); reject everything else.
pub open spec fn norm_spec(raw: Seq<u8>) -> Option<(Seq<u8>, Market)> {
    let t = upper_bytes(trim_bytes(raw));
    if is_suffixed(t) {
        Some((t.take(6), suffix_market(t)))
    } else if t.len() == 6 && all_digits(t) {
        if t[0] == 48 || t[0] == 51 {
            Some((t, Market::Shenzhen))
        } else if t[0] == 54 {
            Some((t, Market::Shanghai))
        } else {
            None
        }
    } else {
        None
    }
}

/// Normalizes raw ticker text to a canonical symbol, exactly as `norm_spec`
/// describes; `None` is the validation failure the caller reports as an
/// invalid symbol.
#[verifier::loop_isolation(false)]
pub fn normalize_symbol(raw: &[u8]) -> (r: Option<CanonicalSymbol>)
    ensures
        match r {
            Some(c) => norm_spec(raw@) == Some((c.code@, c.market)) && symbol_wf(c.code@),
            None => norm_spec(raw@) == None::<(Seq<u8>, Market)>,
        },
{
    let trimmed = trim_vec(raw);
    let t = upper_vec(trimmed.as_slice());
    let ghost tv = upper_bytes(trim_bytes(raw@));
    assert(t@ == tv);
    let n = t.len();
    if n == 9 && t[6] == 46 && t[7] == 83 && (t[8] == 90 || t[8] == 72) {
        // Already suffixed: take the code part, which must be six digits.
        let mut code: Vec<u8> = Vec::new();
        let mut i: usize = 0;
        let mut ok = true;
        while i < 6
            invariant
                i <= 6,
                n == 9 <= tv.len() == 9,
                t@ == tv,
                code@ == tv.take(i as int),
                ok ==> all_digits(tv.take(i as int)),
                !ok ==> !all_digits(tv.take(6)),
            decreases 6 - i,
        {
            let b = t[i];
            assert(tv.take(i + 1 as int) =~= tv.take(i as int).push(tv[i as int]));
            if b < 48 || b > 57 {
                assert(!is_digit_byte(tv[i as int]));
                assert(tv.take(6)[i as int] == tv[i as int]);
                ok = false;
            }
            code.push(b);
            i = i + 1;
        }
        assert(code@ == tv.take(6));
        if !ok {
            assert(!all_digits(tv.take(6)));
            assert(!is_suffixed(tv));
            assert(tv.len() != 6);
            return None;
        }
        assert(is_suffixed(tv));
        let market = if t[8] == 90 {
            Market::Shenzhen
        } else {
            Market::Shanghai
        };
        assert(market == suffix_market(tv));
        return Some(CanonicalSymbol { code, market });
    }
    assert(!is_suffixed(tv));
    if n != 6 {
        return None;
    }
    let mut i: usize = 0;
    while i < 6
        invariant
            i <= 6,
            n == 6 == tv.len(),
            t@ == tv,
            all_digits(tv.take(i as int)),
        decreases 6 - i,
    {
        let b = t[i];
        if b < 48 || b > 57 {
            assert(!is_digit_byte(tv[i as int]));
            return None;
        }
        assert(tv.take(i + 1 as int) =~= tv.take(i as int).push(tv[i as int]));
        i = i + 1;
    }
    assert(tv.take(6) =~= tv);
    assert(all_digits(tv));
    let lead = t[0];
    if lead == 48 || lead == 51 {
        Some(CanonicalSymbol { code: t, market: Market::Shenzhen })
    } else if lead == 54 {
        Some(CanonicalSymbol { code: t, market: Market::Shanghai })
    } else {
        None
    }
}

impl CanonicalSymbol {
    /// The numeric market id upstream providers use: 0 Shenzhen, 1 Shanghai.
    pub fn market_id(&self) -> (r: u32)
        ensures
            r == (if self.market == Market::Shenzhen {
                0u32
            } else {
                1u32
            }),
    {
        match self.market {
            Market::Shenzhen => 0,
            Market::Shanghai => 1,
        }
    }

    /// The canonical text, e.g. `000001.SZ`.
    pub fn text(&self) -> (r: Vec<u8>)
        ensures
            r@ == canon_text(self.code@, self.market),
    {
        let mut out: Vec<u8> = Vec::new();
        let mut i: usize = 0;
        while i < self.code.len()
            invariant
                i <= self.code@.len(),
                out@ == self.code@.take(i as int),
            decreases self.code@.len() - i,
        {
            out.push(self.code[i]);
            assert(self.code@.take(i + 1 as int) =~= self.code@.take(i as int).push(
                self.code@[i as int],
            ));
            i = i + 1;
        }
        assert(out@ =~= self.code@);
        out.push(46);
        out.push(83);
        match self.market {
            Market::Shenzhen => out.push(90),
            Market::Shanghai => out.push(72),
        }
        assert(out@ =~= canon_text(self.code@, self.market));
        out
    }

    /// The code form the Sina upstream expects, e.g. `sz000001`.
    pub fn sina_code(&self) -> (r: Vec<u8>)
        ensures
            r@ == sina_code_spec(self.code@, self.market),
    {
        let mut out: Vec<u8> = Vec::new();
        out.push(115);
        match self.market {
            Market::Shenzhen => out.push(122),
            Market::Shanghai => out.push(104),
        }
        assert(out@ =~= sina_prefix(self.market) + self.code@.take(0));
        let mut i: usize = 0;
        while i < self.code.len()
            invariant
                i <= self.code@.len(),
                out@ == sina_prefix(self.market) + self.code@.take(i as int),
            decreases self.code@.len() - i,
        {
            out.push(self.code[i]);
            assert(sina_prefix(self.market) + self.code@.take(i + 1 as int) =~= (sina_prefix(
                self.market,
            ) + self.code@.take(i as int)).push(self.code@[i as int]));
            i = i + 1;
        }
        assert(self.code@.take(self.code@.len() as int) =~= self.code@);
        out
    }

    /// The code form the Baidu upstream expects: the bare six digits.
    pub fn baidu_code(&self) -> (r: Vec<u8>)
        ensures
            r@ == self.code@,
    {
        let mut out: Vec<u8> = Vec::new();
        let mut i: usize = 0;
        while i < self.code.len()
            invariant
                i <= self.code@.len(),
                out@ == self.code@.take(i as int),
            decreases self.code@.len() - i,
        {
            out.push(self.code[i]);
            assert(self.code@.take(i + 1 as int) =~= self.code@.take(i as int).push(
                self.code@[i as int],
            ));
            i = i + 1;
        }
        assert(out@ =~= self.code@);
        out
    }
}

/// The Sina market prefix: `sz` or `sh`.
pub open spec fn sina_prefix(m: Market) -> Seq<u8> {
    match m {
        Market::Shenzhen => seq![115u8, 122u8],
        Market::Shanghai => seq![115u8, 104u8],
    }
}

pub open spec fn sina_code_spec(code: Seq<u8>, m: Market) -> Seq<u8> {
    sina_prefix(m) + code
}

/// Splits canonical symbol text into the numeric market id and the code, as
/// each adapter request needs them.
#[verifier::loop_isolation(false)]
pub fn parse_symbol(s: &[u8]) -> (r: Option<(u32, Vec<u8>)>)
    ensures
        match r {
            Some(p) => is_suffixed(s@) && p.1@ == s@.take(6) && p.0 == (if suffix_market(s@)
                == Market::Shenzhen {
                0u32
            } else {
                1u32
            }),
            None => !is_suffixed(s@),
        },
{
    if s.len() != 9 {
        return None;
    }
    if !(s[6] == 46 && s[7] == 83 && (s[8] == 90 || s[8] == 72)) {
        return None;
    }
    let mut code: Vec<u8> = Vec::new();
    let mut i: usize = 0;
    while i < 6
        invariant
            i <= 6,
            s@.len() == 9,
            code@ == s@.take(i as int),
            all_digits(s@.take(i as int)),
        decreases 6 - i,
    {
        let b = s[i];
        if b < 48 || b > 57 {
            assert(!is_digit_byte(s@[i as int]));
            assert(s@.take(6)[i as int] == s@[i as int]);
            return None;
        }
        code.push(b);
        assert(s@.take(i + 1 as int) =~= s@.take(i as int).push(s@[i as int]));
        i = i + 1;
    }
    let market_id: u32 = if s[8] == 90 {
        0
    } else {
        1
    };
    Some((market_id, code))
}

/// A six-digit numeric code always normalizes, and its leading digit fixes
/// the market: `0` and `3` to Shenzhen, `6` to Shanghai.
pub proof fn lemma_normalize_six_digits(raw: Seq<u8>)
    requires
        raw.len() == 6,
        all_digits(raw),
        raw[0] == 48 || raw[0] == 51 || raw[0] == 54,
    ensures
        norm_spec(raw) == Some(
            (
                raw,
                if raw[0] == 54 {
                    Market::Shanghai
                } else {
                    Market::Shenzhen
                },
            ),
        ),
{
    lemma_norm_text_fix(raw);
}

/// Normalization is idempotent: the canonical text of any normalization
/// result normalizes to that same result.
pub proof fn lemma_normalize_idempotent(raw: Seq<u8>)
    requires
        norm_spec(raw) is Some,
    ensures
        norm_spec(canon_text(norm_spec(raw)->Some_0.0, norm_spec(raw)->Some_0.1)) == norm_spec(
            raw,
        ),
{
    let (code, m) = norm_spec(raw)->Some_0;
    let t = canon_text(code, m);
    assert(symbol_wf(code)) by {
        let u = upper_bytes(trim_bytes(raw));
        if is_suffixed(u) {
            assert(all_digits(u.take(6)));
        }
    }
    assert(t.len() == 9);
    assert(t.take(6) =~= code);
    assert(all_digits(t.take(6)));
    assert(t[6] == 46 && t[7] == 83 && (t[8] == 90 || t[8] == 72));
    lemma_norm_text_fix(t);
    assert(is_suffixed(t));
    assert(suffix_market(t) == m);
    assert(norm_spec(t) == Some((t.take(6), m)));
}

/// Digits, the dot and uppercase letters pass through trim and uppercase
/// unchanged.
proof fn lemma_norm_text_fix(t: Seq<u8>)
    requires
        forall|i: int| 0 <= i < t.len() ==> (is_digit_byte(t[i]) || t[i] == 46 || t[i] == 83
            || t[i] == 90 || t[i] == 72),
    ensures
        upper_bytes(trim_bytes(t)) == t,
{
    assert(all_not_space(t));
    crate::text::lemma_trim_id(t);
    assert(no_lower_byte(t));
    crate::text::lemma_upper_id(t);
}

} // verus!
