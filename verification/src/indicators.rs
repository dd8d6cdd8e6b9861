//! Streaming exponential-moving-average and MACD engine.
//!
//! Each price feeds the engine once; every update is O(1) and the whole
//! computation is a pure function of the price sequence, in fixed-point
//! arithmetic.  The EMA recurrence is `v' = v + (x - v) * 2 / (period + 1)`,
//! with the first observation seeding the average; divisions truncate
//! toward zero.

use vstd::prelude::*;
use crate::fixed::{Fixed, FIXED_ABS_MAX, FIXED_SCALE};

verus! {

/// Largest raw price magnitude the indicator engine accepts.
pub const PRICE_ABS_MAX: i64 = 1_000_000_000_000;

/// Largest raw magnitude an EMA input may carry (MACD feeds price
/// differences into its signal average).
pub const EMA_IN_MAX: i64 = 4_000_000_000_000;

/// Largest period accepted for any average.
pub const PERIOD_MAX: usize = 10_000;

/// Truncating division (the rounding executable `/` uses), for a positive
/// divisor.
pub open spec fn tdiv(a: int, b: int) -> int {
    if a >= 0 {
        a / b
    } else {
        -((-a) / b)
    }
}

/// One EMA update: move from `prev` toward `x` by the factor 2/(period+1).
pub open spec fn ema_step(prev: int, x: int, period: int) -> int {
    prev + tdiv(2 * (x - prev), period + 1)
}

/// An EMA update from a possibly unseeded state.
pub open spec fn ema_next_val(cur: Option<int>, x: int, period: int) -> int {
    match cur {
        None => x,
        Some(prev) => ema_step(prev, x, period),
    }
}

/// Truncating division of a bounded dividend by a positive divisor.
fn div_trunc(a: i64, b: i64) -> (q: i64)
    requires
        b > 0,
    ensures
        q == tdiv(a as int, b as int),
        a >= 0 ==> 0 <= q <= a,
        a < 0 ==> a <= q <= 0,
{
    proof {
        broadcast use vstd::arithmetic::div_mod::group_div_basics;

        if a >= 0 {
            vstd::arithmetic::div_mod::lemma_div_pos_is_pos(a as int, b as int);
        } else {
            vstd::arithmetic::div_mod::lemma_div_pos_is_pos(-(a as int), b as int);
        }
    }
    match a.checked_div(b) {
        Some(q) => q,
        None => {
            assert(false);
            0
        },
    }
}

/// Exponential moving average over one stream of values.
#[derive(Clone, Copy, Debug)]
pub struct EMA {
    pub period: usize,
    pub current: Option<Fixed>,
}

/// The EMA state as the spec functions see it.
pub open spec fn ema_cur(e: EMA) -> Option<int> {
    match e.current {
        None => None,
        Some(c) => Some(c.raw as int),
    }
}

pub open spec fn ema_wf(e: EMA) -> bool {
    &&& 1 <= e.period <= PERIOD_MAX
    &&& match e.current {
        None => true,
        Some(c) => -EMA_IN_MAX <= c.raw <= EMA_IN_MAX,
    }
}

/// An EMA step lands between its two inputs.
pub proof fn lemma_ema_step_between(prev: int, x: int, period: int)
    requires
        period >= 1,
    ensures
        prev <= x ==> prev <= ema_step(prev, x, period) <= x,
        x <= prev ==> x <= ema_step(prev, x, period) <= prev,
{
    let d = x - prev;
    let p1 = period + 1;
    broadcast use vstd::arithmetic::div_mod::group_div_basics;

    if d >= 0 {
        vstd::arithmetic::div_mod::lemma_div_pos_is_pos(2 * d, p1);
        assert(2 * d <= p1 * d) by (nonlinear_arith)
            requires
                d >= 0,
                p1 >= 2,
        ;
        vstd::arithmetic::div_mod::lemma_div_is_ordered(2 * d, p1 * d, p1);
        vstd::arithmetic::div_mod::lemma_div_multiples_vanish(d, p1);
        assert(tdiv(2 * d, p1) <= d);
    } else {
        let nd = -d;
        vstd::arithmetic::div_mod::lemma_div_pos_is_pos(2 * nd, p1);
        assert(2 * nd <= p1 * nd) by (nonlinear_arith)
            requires
                nd >= 0,
                p1 >= 2,
        ;
        vstd::arithmetic::div_mod::lemma_div_is_ordered(2 * nd, p1 * nd, p1);
        vstd::arithmetic::div_mod::lemma_div_multiples_vanish(nd, p1);
        assert(d <= tdiv(2 * d, p1) <= 0);
    }
}

impl EMA {
    pub fn new(period: usize) -> (r: EMA)
        requires
            1 <= period <= PERIOD_MAX,
        ensures
            r.period == period,
            r.current is None,
            ema_wf(r),
    {
        EMA { period, current: None }
    }

    /// Feeds one value: seeds on the first observation, afterwards applies
    /// the EMA recurrence.
    pub fn next(&mut self, value: Fixed) -> (r: Fixed)
        requires
            ema_wf(*old(self)),
            -EMA_IN_MAX <= value.raw <= EMA_IN_MAX,
        ensures
            ema_wf(*final(self)),
            final(self).period == old(self).period,
            r.raw == ema_next_val(ema_cur(*old(self)), value.raw as int, old(self).period as int),
            final(self).current == Some(r),
            -EMA_IN_MAX <= r.raw <= EMA_IN_MAX,
            (match old(self).current {
                None => r.raw == value.raw,
                Some(prev) => (prev.raw <= value.raw ==> prev.raw <= r.raw <= value.raw) && (
                value.raw <= prev.raw ==> value.raw <= r.raw <= prev.raw),
            }),
    {
        match self.current {
            None => {
                self.current = Some(value);
                value
            },
            Some(prev) => {
                proof {
                    lemma_ema_step_between(
                        prev.raw as int,
                        value.raw as int,
                        self.period as int,
                    );
                }
                let delta = value.raw - prev.raw;
                let q = div_trunc(2 * delta, self.period as i64 + 1);
                let v = Fixed { raw: prev.raw + q };
                self.current = Some(v);
                v
            },
        }
    }
}

/// The three averages a MACD computation carries.
#[derive(Clone, Copy, Debug)]
pub struct MACDCalc {
    pub ema_short: EMA,
    pub ema_long: EMA,
    pub dea_ema: EMA,
}

/// The MACD state as the spec functions see it: short, long and signal
/// averages.
pub open spec fn macd_cur(m: MACDCalc) -> (Option<int>, Option<int>, Option<int>) {
    (ema_cur(m.ema_short), ema_cur(m.ema_long), ema_cur(m.dea_ema))
}

pub open spec fn macd_wf(m: MACDCalc) -> bool {
    &&& ema_wf(m.ema_short)
    &&& ema_wf(m.ema_long)
    &&& ema_wf(m.dea_ema)
    &&& match m.ema_short.current {
        None => true,
        Some(c) => -PRICE_ABS_MAX <= c.raw <= PRICE_ABS_MAX,
    }
    &&& match m.ema_long.current {
        None => true,
        Some(c) => -PRICE_ABS_MAX <= c.raw <= PRICE_ABS_MAX,
    }
    &&& match m.dea_ema.current {
        None => true,
        Some(c) => -2 * PRICE_ABS_MAX <= c.raw <= 2 * PRICE_ABS_MAX,
    }
    &&& m.ema_short.current is None <==> m.ema_long.current is None
}

/// One MACD update: new averages and the (dif, dea, macd) triple.
pub open spec fn macd_step(
    st: (Option<int>, Option<int>, Option<int>),
    x: int,
    sp: int,
    lp: int,
    gp: int,
) -> ((Option<int>, Option<int>, Option<int>), (int, int, int)) {
    let s = ema_next_val(st.0, x, sp);
    let l = ema_next_val(st.1, x, lp);
    let dif = s - l;
    let dea = ema_next_val(st.2, dif, gp);
    ((Some(s), Some(l), Some(dea)), (dif, dea, 2 * (dif - dea)))
}

impl MACDCalc {
    pub fn new(short: usize, long: usize, signal: usize) -> (r: MACDCalc)
        requires
            1 <= short <= PERIOD_MAX,
            1 <= long <= PERIOD_MAX,
            1 <= signal <= PERIOD_MAX,
        ensures
            macd_wf(r),
            r.ema_short.period == short,
            r.ema_long.period == long,
            r.dea_ema.period == signal,
            macd_cur(r) == (None::<int>, None::<int>, None::<int>),
    {
        MACDCalc { ema_short: EMA::new(short), ema_long: EMA::new(long), dea_ema: EMA::new(signal) }
    }

    /// Feeds one close price; yields (dif, dea, macd).
    pub fn next(&mut self, close: Fixed) -> (r: (Fixed, Fixed, Fixed))
        requires
            macd_wf(*old(self)),
            -PRICE_ABS_MAX <= close.raw <= PRICE_ABS_MAX,
        ensures
            macd_wf(*final(self)),
            final(self).ema_short.period == old(self).ema_short.period,
            final(self).ema_long.period == old(self).ema_long.period,
            final(self).dea_ema.period == old(self).dea_ema.period,
            ({
                let (st, out) = macd_step(
                    macd_cur(*old(self)),
                    close.raw as int,
                    old(self).ema_short.period as int,
                    old(self).ema_long.period as int,
                    old(self).dea_ema.period as int,
                );
                macd_cur(*final(self)) == st && (r.0.raw as int, r.1.raw as int, r.2.raw as int)
                    == out
            }),
            -2 * PRICE_ABS_MAX <= r.0.raw <= 2 * PRICE_ABS_MAX,
            -2 * PRICE_ABS_MAX <= r.1.raw <= 2 * PRICE_ABS_MAX,
    {
        let s = self.ema_short.next(close);
        let l = self.ema_long.next(close);
        let dif = Fixed { raw: s.raw - l.raw };
        let dea = self.dea_ema.next(dif);
        let macd = Fixed { raw: 2 * (dif.raw - dea.raw) };
        (dif, dea, macd)
    }
}

/// One point of a MACD series: the fed price and the derived values.
#[derive(Clone, Copy, Debug, PartialEq, Eq, Structural)]
pub struct MACDPoint {
    pub ts: i64,
    pub price: Fixed,
    pub dif: Fixed,
    pub dea: Fixed,
    pub macd: Fixed,
}

/// MACD state after a whole price sequence has been fed.
pub open spec fn macd_state_after(prices: Seq<int>, sp: int, lp: int, gp: int) -> (
    Option<int>,
    Option<int>,
    Option<int>,
)
    decreases prices.len(),
{
    if prices.len() == 0 {
        (None, None, None)
    } else {
        macd_step(macd_state_after(prices.drop_last(), sp, lp, gp), prices.last(), sp, lp, gp).0
    }
}

/// The (dif, dea, macd) triple produced for the price at index `i`.
pub open spec fn macd_out_at(prices: Seq<int>, i: int, sp: int, lp: int, gp: int) -> (
    int,
    int,
    int,
) {
    macd_step(macd_state_after(prices.take(i), sp, lp, gp), prices[i], sp, lp, gp).1
}

/// The raw values of a fixed-point sequence.
pub open spec fn raw_seq(s: Seq<Fixed>) -> Seq<int> {
    s.map_values(|c: Fixed| c.raw as int)
}

/// The raw prices of a (timestamp, price) sequence.
pub open spec fn prices_of(points: Seq<(i64, Fixed)>) -> Seq<int> {
    points.map_values(|p: (i64, Fixed)| p.1.raw as int)
}

/// Standard MACD parameterization: short 12, long 26, signal 9.
pub const MACD_SHORT: usize = 12;

pub const MACD_LONG: usize = 26;

pub const MACD_SIGNAL: usize = 9;

/// Turns a time-ordered (timestamp, price) series into the MACD series,
/// feeding each price once through a fresh engine with the default periods.
#[verifier::loop_isolation(false)]
pub fn compute_macd_series(points: &Vec<(i64, Fixed)>) -> (out: Vec<MACDPoint>)
    requires
        forall|i: int|
            0 <= i < points@.len() ==> -PRICE_ABS_MAX <= (#[trigger] points@[i]).1.raw
                <= PRICE_ABS_MAX,
    ensures
        out@.len() == points@.len(),
        forall|i: int|
            0 <= i < out@.len() ==> {
                let o = #[trigger] out@[i];
                o.ts == points@[i].0 && o.price == points@[i].1 && (
                o.dif.raw as int,
                o.dea.raw as int,
                o.macd.raw as int,
                ) == macd_out_at(prices_of(points@), i, MACD_SHORT as int, MACD_LONG as int, MACD_SIGNAL as int)
            },
{
    let ghost prices = prices_of(points@);
    let mut macd = MACDCalc::new(MACD_SHORT, MACD_LONG, MACD_SIGNAL);
    let mut out: Vec<MACDPoint> = Vec::new();
    let mut i: usize = 0;
    assert(prices.take(0) =~= Seq::<int>::empty());
    while i < points.len()
        invariant
            i <= points@.len(),
            out@.len() == i,
            macd_wf(macd),
            macd.ema_short.period == MACD_SHORT,
            macd.ema_long.period == MACD_LONG,
            macd.dea_ema.period == MACD_SIGNAL,
            macd_cur(macd) == macd_state_after(
                prices.take(i as int),
                MACD_SHORT as int,
                MACD_LONG as int,
                MACD_SIGNAL as int,
            ),
            forall|j: int|
                0 <= j < i ==> {
                    let o = #[trigger] out@[j];
                    o.ts == points@[j].0 && o.price == points@[j].1 && (
                    o.dif.raw as int,
                    o.dea.raw as int,
                    o.macd.raw as int,
                    ) == macd_out_at(prices, j, MACD_SHORT as int, MACD_LONG as int, MACD_SIGNAL as int)
                },
        decreases points@.len() - i,
    {
        let (ts, price) = points[i];
        assert(prices[i as int] == price.raw as int);
        let (dif, dea, m) = macd.next(price);
        proof {
            assert(prices.take(i + 1 as int).drop_last() =~= prices.take(i as int));
            assert(prices.take(i + 1 as int).last() == prices[i as int]);
        }
        out.push(MACDPoint { ts, price, dif, dea, macd: m });
        i = i + 1;
    }
    assert(prices.take(points@.len() as int) =~= prices);
    out
}

/// Computes the dif, dea and macd series for a close-price sequence, with
/// the default periods.
#[verifier::loop_isolation(false)]
pub fn calculate_macd(closes: &Vec<Fixed>) -> (r: (Vec<Fixed>, Vec<Fixed>, Vec<Fixed>))
    requires
        forall|i: int|
            0 <= i < closes@.len() ==> -PRICE_ABS_MAX <= (#[trigger] closes@[i]).raw
                <= PRICE_ABS_MAX,
    ensures
        r.0@.len() == closes@.len(),
        r.1@.len() == closes@.len(),
        r.2@.len() == closes@.len(),
        forall|i: int|
            0 <= i < closes@.len() ==> ((#[trigger] r.0@[i]).raw as int, r.1@[i].raw as int, r.2@[i].raw as int)
                == macd_out_at(raw_seq(closes@), i, MACD_SHORT as int, MACD_LONG as int, MACD_SIGNAL as int),
        forall|i: int|
            0 <= i < closes@.len() ==> -8 * PRICE_ABS_MAX <= (#[trigger] r.2@[i]).raw <= 8
                * PRICE_ABS_MAX,
{
    let ghost prices = raw_seq(closes@);
    let mut macd = MACDCalc::new(MACD_SHORT, MACD_LONG, MACD_SIGNAL);
    let mut difs: Vec<Fixed> = Vec::new();
    let mut deas: Vec<Fixed> = Vec::new();
    let mut macds: Vec<Fixed> = Vec::new();
    let mut i: usize = 0;
    assert(prices.take(0) =~= Seq::<int>::empty());
    while i < closes.len()
        invariant
            i <= closes@.len(),
            difs@.len() == i,
            deas@.len() == i,
            macds@.len() == i,
            macd_wf(macd),
            macd.ema_short.period == MACD_SHORT,
            macd.ema_long.period == MACD_LONG,
            macd.dea_ema.period == MACD_SIGNAL,
            macd_cur(macd) == macd_state_after(
                prices.take(i as int),
                MACD_SHORT as int,
                MACD_LONG as int,
                MACD_SIGNAL as int,
            ),
            forall|j: int|
                0 <= j < i ==> ((#[trigger] difs@[j]).raw as int, deas@[j].raw as int, macds@[j].raw as int)
                    == macd_out_at(prices, j, MACD_SHORT as int, MACD_LONG as int, MACD_SIGNAL as int),
            forall|j: int|
                0 <= j < i ==> -8 * PRICE_ABS_MAX <= (#[trigger] macds@[j]).raw <= 8
                    * PRICE_ABS_MAX,
        decreases closes@.len() - i,
    {
        let price = closes[i];
        assert(prices[i as int] == price.raw as int);
        let (dif, dea, m) = macd.next(price);
        proof {
            assert(prices.take(i + 1 as int).drop_last() =~= prices.take(i as int));
            assert(prices.take(i + 1 as int).last() == prices[i as int]);
        }
        difs.push(dif);
        deas.push(dea);
        macds.push(m);
        i = i + 1;
    }
    assert(prices.take(closes@.len() as int) =~= prices);
    (difs, deas, macds)
}

/// The MACD series is a pure function of the price sequence: equal inputs
/// yield identical output series.
pub proof fn lemma_macd_deterministic(
    p1: Seq<int>,
    p2: Seq<int>,
    i: int,
    sp: int,
    lp: int,
    gp: int,
)
    requires
        p1 == p2,
        0 <= i < p1.len(),
    ensures
        macd_out_at(p1, i, sp, lp, gp) == macd_out_at(p2, i, sp, lp, gp),
{
}

/// Each MACD output depends only on the prices fed so far: extending the
/// series never changes an already-produced point.
pub proof fn lemma_macd_incremental(p: Seq<int>, q: Seq<int>, i: int, sp: int, lp: int, gp: int)
    requires
        0 <= i < p.len(),
        i < q.len(),
        p.take(i + 1) == q.take(i + 1),
    ensures
        macd_out_at(p, i, sp, lp, gp) == macd_out_at(q, i, sp, lp, gp),
{
    assert(p.take(i + 1).take(i) =~= p.take(i));
    assert(q.take(i + 1).take(i) =~= q.take(i));
    assert(p[i] == p.take(i + 1)[i]);
    assert(q[i] == q.take(i + 1)[i]);
}

/// Clamps a raw value into the representable fixed-point range.
pub open spec fn clamp_fixed(v: int) -> int {
    if v > FIXED_ABS_MAX {
        FIXED_ABS_MAX as int
    } else if v < -FIXED_ABS_MAX {
        -(FIXED_ABS_MAX as int)
    } else {
        v
    }
}

/// Divergence between a price trend and a MACD trend: positive when the two
/// move against each other (price up while MACD down, or the reverse),
/// negative when they agree, scaled as the product of the two trends.
pub open spec fn divergence_spec(p: Seq<int>, m: Seq<int>) -> int {
    if p.len() < 2 || m.len() < 2 {
        0
    } else {
        let prod = (p.last() - p.first()) * (m.last() - m.first());
        if prod >= 0 {
            clamp_fixed(-(prod / (FIXED_SCALE as int)))
        } else {
            clamp_fixed((-prod) / (FIXED_SCALE as int))
        }
    }
}

/// Scores the divergence of a MACD series against its price series, exactly
/// as `divergence_spec` describes.
pub fn divergence_score(price: &Vec<Fixed>, macd: &Vec<Fixed>) -> (r: Fixed)
    requires
        forall|i: int|
            0 <= i < price@.len() ==> -FIXED_ABS_MAX <= (#[trigger] price@[i]).raw <= FIXED_ABS_MAX,
        forall|i: int|
            0 <= i < macd@.len() ==> -FIXED_ABS_MAX <= (#[trigger] macd@[i]).raw <= FIXED_ABS_MAX,
    ensures
        r.raw == divergence_spec(raw_seq(price@), raw_seq(macd@)),
{
    let ghost ps = raw_seq(price@);
    let ghost ms = raw_seq(macd@);
    if price.len() < 2 || macd.len() < 2 {
        return Fixed { raw: 0 };
    }
    let tp = price[price.len() - 1].raw - price[0].raw;
    let tm = macd[macd.len() - 1].raw - macd[0].raw;
    assert(tp == ps.last() - ps.first());
    assert(tm == ms.last() - ms.first());
    let ghost prod = (ps.last() - ps.first()) * (ms.last() - ms.first());
    let tp_mag: u128 = if tp < 0 {
        (-(tp as i128)) as u128
    } else {
        tp as u128
    };
    let tm_mag: u128 = if tm < 0 {
        (-(tm as i128)) as u128
    } else {
        tm as u128
    };
    assert(tp_mag <= 1_800_000_000_000_000_000u128);
    assert(tm_mag <= 1_800_000_000_000_000_000u128);
    assert(tp_mag * tm_mag <= 3_240_000_000_000_000_000_000_000_000_000_000_000u128) by (nonlinear_arith)
        requires
            tp_mag <= 1_800_000_000_000_000_000u128,
            tm_mag <= 1_800_000_000_000_000_000u128,
    ;
    let prod_mag = tp_mag * tm_mag;
    proof {
        assert(prod_mag == (if prod >= 0 {
            prod
        } else {
            -prod
        })) by (nonlinear_arith)
            requires
                prod == (tp as int) * (tm as int),
                tp_mag == (if tp < 0 {
                    -(tp as int)
                } else {
                    tp as int
                }),
                tm_mag == (if tm < 0 {
                    -(tm as int)
                } else {
                    tm as int
                }),
                prod_mag == tp_mag * tm_mag,
        ;
        assert((prod < 0) == ((tp < 0 && tm > 0) || (tp > 0 && tm < 0))) by (nonlinear_arith)
            requires
                prod == (tp as int) * (tm as int),
        ;
    }
    let q = prod_mag / 10000u128;
    assert(q == (if prod >= 0 {
        prod
    } else {
        -prod
    }) / (FIXED_SCALE as int));
    let qc: i64 = if q > FIXED_ABS_MAX as u128 {
        FIXED_ABS_MAX
    } else {
        q as i64
    };
    let positive = (tp < 0 && tm > 0) || (tp > 0 && tm < 0);
    let raw = if positive {
        qc
    } else {
        -qc
    };
    proof {
        vstd::arithmetic::div_mod::lemma_div_pos_is_pos(
            if prod >= 0 {
                prod
            } else {
                -prod
            },
            FIXED_SCALE as int,
        );
    }
    Fixed { raw }
}

} // verus!
