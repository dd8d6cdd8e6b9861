//! Simulated market data.
//!
//! When every upstream is unreachable the pipeline can serve simulated
//! quotes and bars as a last resort, and it can generate a full simulated
//! trading day of ticks for testing on non-trading days.  Randomness enters
//! only through one trusted draw; everything derived from the draws is
//! verified for every possible outcome.

use vstd::prelude::*;
use crate::cache::{cache_wf, evict_spec, insert_spec, lookup_spec, EntryV, CACHE_TIME_MAX};
use crate::dates::{date_to_days, date_wf, days_from_civil, weekday_of_days, Date, DAY_MS};
use crate::fetch::{config_wf, klines_hit, kline_key_spec, quote_hit, quote_key_spec, strictly_ascending, DataFetcher, FetchError};
use crate::fixed::Fixed;
use crate::models::{Kline, PayloadV, Quote};
use crate::symbol::{canon_text, normalize_symbol, norm_spec, symbol_wf, CanonicalSymbol};
use crate::text::push_bytes;

verus! {

/// Relies on rand::random_range: a uniform draw below `n` from the
/// thread-local generator.  The value depends on the generator state, so
/// only its range is stated.
#[verifier::external_body]
fn rand_below(n: u64) -> (r: u64)
    requires
        n > 0,
    ensures
        r < n,
{
    rand::random_range(0..n)
}

/// One persisted tick of simulated trading.
#[derive(Clone, Debug)]
pub struct TickData {
    pub ts: i64,
    pub symbol: Vec<u8>,
    pub price: Fixed,
    pub vol: Fixed,
}

/// True when the code is one of the specially seeded demonstration symbols.
fn code_is(sym: &CanonicalSymbol, a: &[u8]) -> (r: bool)
    ensures
        r == (sym.code@ =~= a@),
{
    crate::text::bytes_eq(sym.code.as_slice(), a)
}

/// Scales a price by a factor of ten-thousandths, with both sides bounded.
fn scale_band(x: u64, f: u64) -> (r: u64)
    requires
        x <= 10_000_000,
        f <= 20_000,
    ensures
        r == x * f / 10_000,
        r <= 20_000_000,
{
    proof {
        assert(x * f <= 10_000_000 * 20_000) by (nonlinear_arith)
            requires
                0 <= x <= 10_000_000,
                0 <= f <= 20_000,
        ;
        vstd::arithmetic::div_mod::lemma_div_is_ordered((x * f) as int, 200_000_000_000int, 10_000int);
    }
    x * f / 10_000
}

/// The seeded base price of a symbol: fixed values for the demonstration
/// symbols, otherwise a draw between eight and twelve units.
fn base_price(sym: &CanonicalSymbol) -> (r: u64)
    ensures
        80_000 <= r <= 155_000,
{
    if code_is(sym, "600733".as_bytes()) {
        155_000
    } else if code_is(sym, "000001".as_bytes()) {
        105_000
    } else {
        80_000 + rand_below(40_000)
    }
}

/// A simulated quote: a base price seeded per symbol, moved by a random
/// change of at most ten percent; the price stays positive and bounded and
/// every optional field is populated.
pub fn generate_simulated_quote(sym: &CanonicalSymbol, now: i64) -> (q: Quote)
    requires
        symbol_wf(sym.code@),
    ensures
        q@.symbol == canon_text(sym.code@, sym.market),
        q@.timestamp == now,
        0 < q.price.raw <= 2_000_000,
        q@.open is Some && q@.high is Some && q@.low is Some && q@.prev_close is Some
            && q@.volume is Some && q@.amount is Some && q@.change is Some && q@.change_pct is Some
            && q@.bid_price is Some && q@.ask_price is Some && q@.bid_volume is Some
            && q@.ask_volume is Some,
{
    let base = base_price(sym);
    // A move of up to ten percent either way, in 0.01% steps.
    let c_draw = rand_below(2001);
    let c: i64 = c_draw as i64 - 1000;
    let c_abs: u64 = if c < 0 {
        (-c) as u64
    } else {
        c as u64
    };
    let price_u = scale_band(base, 9_000 + c_draw);
    proof {
        assert(base * (9_000 + c_draw) >= 80_000 * 9_000) by (nonlinear_arith)
            requires
                base >= 80_000,
                c_draw >= 0,
        ;
        vstd::arithmetic::div_mod::lemma_div_is_ordered(
            720_000_000int,
            (base * (9_000 + c_draw)) as int,
            10_000int,
        );
        assert(720_000_000int / 10_000int == 72_000);
        assert(base * (9_000 + c_draw) <= 1_705_000_000) by (nonlinear_arith)
            requires
                base <= 155_000,
                c_draw <= 2_000,
        ;
        vstd::arithmetic::div_mod::lemma_div_is_ordered(
            (base * (9_000 + c_draw)) as int,
            1_705_000_000int,
            10_000int,
        );
        assert(1_705_000_000int / 10_000int == 170_500);
    }
    let hi_u = scale_band(base, 10_000 + (3 * c_abs) / 2);
    let lo_u = scale_band(base, 10_000 - (3 * c_abs) / 2);
    let price = Fixed { raw: price_u as i64 };
    let volume_units = 500_000 + rand_below(1_000_001);
    let volume = Fixed::from_units(volume_units as i64);
    // Turnover: the price applied to one million shares.
    let amount = Fixed { raw: (price_u as i64) * 1_000_000 };
    let change_raw = price_u as i64 - base as i64;
    let bid_units = 5_000 + rand_below(10_001);
    let ask_units = 5_000 + rand_below(10_001);
    Quote {
        symbol: sym.text(),
        timestamp: now,
        price,
        open: Some(Fixed { raw: base as i64 }),
        high: Some(Fixed { raw: hi_u as i64 }),
        low: Some(Fixed { raw: lo_u as i64 }),
        prev_close: Some(Fixed { raw: base as i64 }),
        volume: Some(volume),
        amount: Some(amount),
        change: Some(Fixed { raw: change_raw }),
        change_pct: Some(Fixed { raw: c * 100 }),
        bid_price: Some(Fixed { raw: price_u as i64 - 100 }),
        ask_price: Some(price),
        bid_volume: Some(Fixed::from_units(bid_units as i64)),
        ask_volume: Some(Fixed::from_units(ask_units as i64)),
    }
}

/// The number of weekdays among the days `[lo, hi)` since the epoch.
pub open spec fn trading_days(lo: int, hi: int) -> int
    decreases hi - lo,
{
    if lo >= hi {
        0
    } else {
        (if (lo + 4) % 7 == 0 || (lo + 4) % 7 == 6 {
            0int
        } else {
            1int
        }) + trading_days(lo + 1, hi)
    }
}

/// Extending a day range by one day adds that day's weekday contribution.
proof fn lemma_trading_days_step(lo: int, hi: int)
    requires
        lo <= hi,
    ensures
        trading_days(lo, hi + 1) == trading_days(lo, hi) + (if (hi + 4) % 7 == 0 || (hi + 4) % 7
            == 6 {
            0int
        } else {
            1int
        }),
    decreases hi - lo,
{
    assert(trading_days(lo, hi + 1) == (if (lo + 4) % 7 == 0 || (lo + 4) % 7 == 6 {
        0int
    } else {
        1int
    }) + trading_days(lo + 1, hi + 1));
    if lo < hi {
        lemma_trading_days_step(lo + 1, hi);
        assert(trading_days(lo, hi) == (if (lo + 4) % 7 == 0 || (lo + 4) % 7 == 6 {
            0int
        } else {
            1int
        }) + trading_days(lo + 1, hi));
    } else {
        assert(trading_days(lo, hi) == 0);
        assert(trading_days(hi + 1, hi + 1) == 0);
    }
}

/// Simulated daily bars between two dates: one bar per weekday of the
/// range, at that day's close time, the walk moving at most three percent
/// a day within a clamped band, the series strictly ascending in
/// timestamp.
pub fn generate_simulated_klines(
    sym: &CanonicalSymbol,
    start: &Date,
    end: &Date,
    period: &[u8],
) -> (bars: Vec<Kline>)
    requires
        symbol_wf(sym.code@),
        date_wf(*start),
        date_wf(*end),
    ensures
        strictly_ascending(bars@.map_values(|k: Kline| k@)),
        forall|i: int|
            0 <= i < bars@.len() ==> (#[trigger] bars@[i])@.symbol == canon_text(
                sym.code@,
                sym.market,
            ) && bars@[i]@.period == period@ && bars@[i].close.raw > 0,
        bars@.len() == trading_days(
            days_from_civil(start.year as int, start.month as int, start.day as int),
            days_from_civil(end.year as int, end.month as int, end.day as int),
        ),
        forall|i: int|
            0 <= i < bars@.len() ==> {
                let ts = (#[trigger] bars@[i]).timestamp as int;
                let d = ts / (DAY_MS as int);
                &&& ts % (DAY_MS as int) == 54_000_000
                &&& days_from_civil(start.year as int, start.month as int, start.day as int) <= d
                    < days_from_civil(end.year as int, end.month as int, end.day as int)
                &&& (d + 4) % 7 != 0
                &&& (d + 4) % 7 != 6
            },
{
    let start_days = date_to_days(start);
    let end_days = date_to_days(end);
    let mut bars: Vec<Kline> = Vec::new();
    let mut current: u64 = base_price(sym);
    let mut day = start_days;
    while day < end_days
        invariant
            day >= start_days,
            -200_000 <= start_days <= 3_100_000,
            -200_000 <= end_days <= 3_100_000,
            day <= end_days || day == start_days,
            1_000 <= current <= 10_000_000,
            symbol_wf(sym.code@),
            strictly_ascending(bars@.map_values(|k: Kline| k@)),
            forall|i: int|
                0 <= i < bars@.len() ==> (#[trigger] bars@[i])@.symbol == canon_text(
                    sym.code@,
                    sym.market,
                ) && bars@[i]@.period == period@ && bars@[i].close.raw > 0,
            forall|i: int|
                0 <= i < bars@.len() ==> (#[trigger] bars@[i]).timestamp < day * (DAY_MS as int),
            bars@.len() == trading_days(start_days as int, day as int),
            forall|i: int|
                0 <= i < bars@.len() ==> {
                    let ts = (#[trigger] bars@[i]).timestamp as int;
                    let d = ts / (DAY_MS as int);
                    &&& ts % (DAY_MS as int) == 54_000_000
                    &&& start_days <= d < day
                    &&& (d + 4) % 7 != 0
                    &&& (d + 4) % 7 != 6
                },
        decreases end_days - day,
    {
        let wd = weekday_of_days(day);
        if wd == 0 || wd == 6 {
            proof {
                assert(forall|i: int|
                    0 <= i < bars@.len() ==> (#[trigger] bars@[i]).timestamp < (day + 1) * (
                    DAY_MS as int));
                lemma_trading_days_step(start_days as int, day as int);
            }
            day = day + 1;
            continue ;
        }
        proof {
            lemma_trading_days_step(start_days as int, day as int);
        }
        // Daily move of up to three percent, clamped to a sane band.
        let c_draw = rand_below(601);
        let moved = scale_band(current, 9_700 + c_draw);
        current = if moved < 1_000 {
            1_000
        } else if moved > 10_000_000 {
            10_000_000
        } else {
            moved
        };
        // Open within half a percent of the walk, high and low around it.
        let open_u = scale_band(current, 9_950 + rand_below(101));
        let high_u = open_u + scale_band(current, rand_below(201));
        let low_sub = scale_band(current, rand_below(201));
        let low_u: u64 = if open_u > low_sub {
            open_u - low_sub
        } else {
            1
        };
        let close_u: u64 = (open_u + high_u + low_u + current) / 4;
        let close_adj: u64 = if rand_below(2) == 0 {
            close_u
        } else {
            close_u * 99 / 100
        };
        let close_pos: u64 = if close_adj < 1 {
            1
        } else {
            close_adj
        };
        let volume_units = 500_000 + rand_below(1_000_001);
        let ts = day * DAY_MS + 15 * 3_600_000;
        // Turnover: the close price applied to the day's volume.
        proof {
            assert(close_pos * volume_units <= 70_000_000 * 1_500_001) by (nonlinear_arith)
                requires
                    close_pos <= 70_000_000,
                    volume_units <= 1_500_001,
            ;
        }
        let amount = Fixed { raw: (close_pos * volume_units) as i64 };
        let mut period_vec: Vec<u8> = Vec::new();
        push_bytes(&mut period_vec, period);
        assert(period_vec@ =~= period@);
        let ghost pre = bars@;
        bars.push(
            Kline {
                symbol: sym.text(),
                timestamp: ts,
                open: Fixed { raw: open_u as i64 },
                high: Fixed { raw: high_u as i64 },
                low: Fixed { raw: low_u as i64 },
                close: Fixed { raw: close_pos as i64 },
                volume: Fixed::from_units(volume_units as i64),
                amount: Some(amount),
                period: period_vec,
            },
        );
        proof {
            let bv = bars@.map_values(|k: Kline| k@);
            let pv = pre.map_values(|k: Kline| k@);
            assert forall|a: int, b: int| 0 <= a < b < bv.len() implies (
            #[trigger] bv[a]).timestamp < (#[trigger] bv[b]).timestamp by {
                if b < bv.len() - 1 {
                    assert(bv[a] == pv[a] && bv[b] == pv[b]);
                } else {
                    assert(bv[b].timestamp == ts);
                    assert(bv[a] == pv[a]);
                    assert(pre[a].timestamp < day * (DAY_MS as int));
                }
            }
            assert(forall|i: int|
                0 <= i < bars@.len() ==> (#[trigger] bars@[i]).timestamp < (day + 1) * (
                DAY_MS as int));
            assert forall|i: int| 0 <= i < bars@.len() implies {
                let tsv = (#[trigger] bars@[i]).timestamp as int;
                let d = tsv / (DAY_MS as int);
                &&& tsv % (DAY_MS as int) == 54_000_000
                &&& start_days <= d < day + 1
                &&& (d + 4) % 7 != 0
                &&& (d + 4) % 7 != 6
            } by {
                if i < bars@.len() - 1 {
                    assert(bars@[i] == pre[i]);
                } else {
                    assert(bars@[i].timestamp == day * (DAY_MS as int) + 54_000_000);
                    vstd::arithmetic::div_mod::lemma_fundamental_div_mod_converse(
                        day * (DAY_MS as int) + 54_000_000,
                        DAY_MS as int,
                        day as int,
                        54_000_000,
                    );
                }
            }
        }
        day = day + 1;
    }
    assert(trading_days(start_days as int, end_days as int) == bars@.len()) by {
        if start_days > end_days {
        }
    }
    bars
}

/// The millisecond offset of a session minute within its day: minutes 0 to
/// 120 run 09:30 to 11:30, minutes 121 to 241 run 13:00 to 15:00.
pub open spec fn session_offset(m: int) -> int {
    if m < 121 {
        34_200_000 + m * 60_000
    } else {
        46_800_000 + (m - 121) * 60_000
    }
}

/// One simulated trading day of minute ticks: the morning session 09:30 to
/// 11:30 and the afternoon session 13:00 to 15:00, a small random walk with
/// the price kept positive, timestamps strictly ascending.
pub fn simulate_trading_day(sym: &CanonicalSymbol, date: &Date) -> (ticks: Vec<TickData>)
    requires
        symbol_wf(sym.code@),
        date_wf(*date),
    ensures
        forall|i: int, j: int|
            0 <= i < j < ticks@.len() ==> (#[trigger] ticks@[i]).ts < (#[trigger] ticks@[j]).ts,
        forall|i: int|
            0 <= i < ticks@.len() ==> (#[trigger] ticks@[i]).symbol@ == canon_text(
                sym.code@,
                sym.market,
            ) && ticks@[i].price.raw > 0,
        ticks@.len() == 242,
{
    let days = date_to_days(date);
    let day_start = days * DAY_MS;
    // Base price around ten units.
    let mut price: u64 = 95_000 + rand_below(10_001);
    let mut ticks: Vec<TickData> = Vec::new();
    let mut minute: u64 = 0;
    while minute < 242
        invariant
            minute <= 242,
            ticks@.len() == minute,
            -200_000 * (DAY_MS as int) <= day_start <= 3_100_000 * (DAY_MS as int),
            100 <= price <= 100_000_000,
            symbol_wf(sym.code@),
            forall|i: int, j: int|
                0 <= i < j < ticks@.len() ==> (#[trigger] ticks@[i]).ts < (#[trigger] ticks@[j]).ts,
            forall|i: int|
                0 <= i < ticks@.len() ==> (#[trigger] ticks@[i]).symbol@ == canon_text(
                    sym.code@,
                    sym.market,
                ) && ticks@[i].price.raw > 0,
            forall|i: int|
                0 <= i < ticks@.len() ==> (#[trigger] ticks@[i]).ts < day_start + session_offset(
                    minute as int,
                ),
        decreases 242 - minute,
    {
        // Random walk: up to 0.2 units either way, kept in a sane band.
        let step = rand_below(4_001);
        let moved: u64 = price + step;
        let moved2: u64 = if moved > 2_000 {
            moved - 2_000
        } else {
            100
        };
        price = if moved2 < 100 {
            100
        } else if moved2 > 100_000_000 {
            100_000_000
        } else {
            moved2
        };
        let off: i64 = if minute < 121 {
            34_200_000 + (minute as i64) * 60_000
        } else {
            46_800_000 + (minute as i64 - 121) * 60_000
        };
        let ts = day_start + off;
        let ghost pre = ticks@;
        ticks.push(
            TickData {
                ts,
                symbol: sym.text(),
                price: Fixed { raw: price as i64 },
                vol: Fixed::from_units((100 + rand_below(1_900)) as i64),
            },
        );
        proof {
            assert forall|i: int, j: int| 0 <= i < j < ticks@.len() implies (
            #[trigger] ticks@[i]).ts < (#[trigger] ticks@[j]).ts by {
                if j < ticks@.len() - 1 {
                    assert(ticks@[i] == pre[i] && ticks@[j] == pre[j]);
                } else {
                    assert(ticks@[j].ts == ts);
                    assert(ticks@[i] == pre[i]);
                }
            }
            assert(session_offset(minute as int) <= off < session_offset(minute + 1));
        }
        minute = minute + 1;
    }
    ticks
}

impl DataFetcher {
    /// The persisted-quote fallback; the tick store lives outside this
    /// pipeline, so nothing is ever served from here.
    pub fn get_quote_from_storage(&self, _symbol: &[u8]) -> (r: Option<Quote>)
        ensures
            r is None,
    {
        None
    }

    /// The persisted-bars fallback; the tick store lives outside this
    /// pipeline, so nothing is ever served from here.
    pub fn get_klines_from_storage(&self, _symbol: &[u8]) -> (r: Option<Vec<Kline>>)
        ensures
            r is None,
    {
        None
    }

    /// The simulated-run-mode quote fetch: the market-data fetch path that
    /// surfaces the aggregate failure is `get_quote`; this variant instead
    /// falls back to the store and then to a simulated quote when every
    /// provider fails, so an upstream outage never fails it.  Simulated
    /// data is no market data and is never written to the cache, as the
    /// contract's last case states.
    pub fn get_quote_with_sim(&mut self, symbol: &[u8], now: i64) -> (r: Result<Quote, FetchError>)
        requires
            cache_wf(old(self).cache@),
            config_wf(old(self).config),
            0 <= now <= CACHE_TIME_MAX - 3_600_000_000,
        ensures
            cache_wf(final(self).cache@),
            final(self).config == old(self).config,
            match r {
                Ok(q) => norm_spec(symbol@) is Some && {
                    let (code, market) = norm_spec(symbol@)->Some_0;
                    let key = quote_key_spec(canon_text(code, market));
                    // Served from the cache as it stands…
                    ||| (lookup_spec(old(self).cache@, key, now as int) == Some(
                        PayloadV::Quote(q@),
                    ) && final(self).cache@ == evict_spec(old(self).cache@, now as int))
                    // …fetched from a provider and written back…
                    ||| (final(self).cache@ == insert_spec(
                        evict_spec(old(self).cache@, now as int),
                        EntryV {
                            key,
                            payload: PayloadV::Quote(q@),
                            created_at: now as int,
                            ttl: old(self).config.cache_duration * 1000,
                        },
                    ) && q@.timestamp == now && q@.symbol == canon_text(code, market))
                    // …or simulated after every provider failed: bounded,
                    // fully populated, and never written to the cache.
                    ||| (final(self).cache@ == evict_spec(old(self).cache@, now as int)
                        && q@.symbol == canon_text(code, market) && q@.timestamp == now && 0
                        < q.price.raw <= 2_000_000 && q@.open is Some && q@.high is Some
                        && q@.low is Some && q@.prev_close is Some && q@.volume is Some
                        && q@.amount is Some && q@.change is Some && q@.change_pct is Some
                        && q@.bid_price is Some && q@.ask_price is Some && q@.bid_volume is Some
                        && q@.ask_volume is Some)
                },
                Err(FetchError::InvalidSymbol(s)) => norm_spec(symbol@) is None && s@ == symbol@
                    && final(self).cache@ == old(self).cache@,
                _ => false,
            },
            // A live cached quote takes precedence here exactly as on the
            // market-data path.
            norm_spec(symbol@) is Some ==> (match quote_hit(
                old(self).cache@,
                quote_key_spec(
                    canon_text(norm_spec(symbol@)->Some_0.0, norm_spec(symbol@)->Some_0.1),
                ),
                now as int,
            ) {
                Some(qv) => r matches Ok(q) && q@ == qv && final(self).cache@ == evict_spec(
                    old(self).cache@,
                    now as int,
                ),
                None => true,
            }),
    {
        match self.get_quote(symbol, now) {
            Ok(q) => Ok(q),
            Err(FetchError::InvalidSymbol(s)) => Err(FetchError::InvalidSymbol(s)),
            Err(_) => {
                match self.get_quote_from_storage(symbol) {
                    Some(q) => Ok(q),
                    None => {
                        let sym = match normalize_symbol(symbol) {
                            Some(s) => s,
                            None => {
                                assert(false);
                                return Err(FetchError::InvalidDateRange);
                            },
                        };
                        Ok(generate_simulated_quote(&sym, now))
                    },
                }
            },
        }
    }

    /// The simulated-run-mode bar fetch: the market-data fetch path that
    /// surfaces the aggregate failure is `get_kline_data`; this variant
    /// instead falls back to the store and then to simulated bars when the
    /// bar provider fails, so an upstream outage never fails it.  Simulated
    /// bars are no market data and are never written to the cache, as the
    /// contract's last case states.
    pub fn get_kline_data_with_sim(
        &mut self,
        symbol: &[u8],
        start: &Date,
        end: &Date,
        period: &[u8],
        now: i64,
    ) -> (r: Result<Vec<Kline>, FetchError>)
        requires
            cache_wf(old(self).cache@),
            config_wf(old(self).config),
            date_wf(*start),
            date_wf(*end),
            0 <= now <= CACHE_TIME_MAX - 3_600_000_000,
        ensures
            cache_wf(final(self).cache@),
            final(self).config == old(self).config,
            match r {
                Ok(bars) => norm_spec(symbol@) is Some && crate::fetch::ktype_spec(
                    period@,
                ) is Some && {
                    let (code, market) = norm_spec(symbol@)->Some_0;
                    let key = kline_key_spec(canon_text(code, market), *start, *end, period@);
                    let pv = PayloadV::Klines(bars@.map_values(|k: Kline| k@));
                    // Served from the cache as it stands…
                    ||| (lookup_spec(old(self).cache@, key, now as int) == Some(pv) && final(self).cache@ == evict_spec(old(self).cache@, now as int))
                    // …fetched from the provider and written back…
                    ||| (final(self).cache@ == insert_spec(
                        evict_spec(old(self).cache@, now as int),
                        EntryV { key, payload: pv, created_at: now as int, ttl: 3_600_000 },
                    ) && strictly_ascending(bars@.map_values(|k: Kline| k@)) && (forall|i: int|
                        0 <= i < bars@.len() ==> (#[trigger] bars@[i])@.symbol == canon_text(
                            code,
                            market,
                        ) && bars@[i]@.period == period@))
                    // …or simulated after the provider failed: one bar per
                    // weekday of the range, never written to the cache.
                    ||| (final(self).cache@ == evict_spec(old(self).cache@, now as int)
                        && strictly_ascending(bars@.map_values(|k: Kline| k@)) && (forall|i: int|
                        0 <= i < bars@.len() ==> (#[trigger] bars@[i])@.symbol == canon_text(
                            code,
                            market,
                        ) && bars@[i]@.period == period@ && bars@[i].close.raw > 0) && bars@.len()
                        == trading_days(
                        days_from_civil(start.year as int, start.month as int, start.day as int),
                        days_from_civil(end.year as int, end.month as int, end.day as int),
                    ))
                },
                Err(FetchError::InvalidSymbol(s)) => norm_spec(symbol@) is None && s@ == symbol@
                    && final(self).cache@ == old(self).cache@,
                Err(FetchError::InvalidParameter(p)) => crate::fetch::ktype_spec(period@) is None
                    && p@ == period@ && final(self).cache@ == old(self).cache@,
                Err(FetchError::InvalidDateRange) => final(self).cache@ == old(self).cache@,
                _ => false,
            },
            // A live cached series takes precedence here exactly as on the
            // market-data path.
            (norm_spec(symbol@) is Some && crate::fetch::ktype_spec(period@) is Some
                && days_from_civil(start.year as int, start.month as int, start.day as int)
                <= days_from_civil(end.year as int, end.month as int, end.day as int)) ==> (match klines_hit(
                old(self).cache@,
                kline_key_spec(
                    canon_text(norm_spec(symbol@)->Some_0.0, norm_spec(symbol@)->Some_0.1),
                    *start,
                    *end,
                    period@,
                ),
                now as int,
            ) {
                Some(ksv) => r matches Ok(bars) && bars@.map_values(|k: Kline| k@) == ksv
                    && final(self).cache@ == evict_spec(old(self).cache@, now as int),
                None => true,
            }),
    {
        match self.get_kline_data(symbol, start, end, period, now) {
            Ok(bars) => Ok(bars),
            Err(FetchError::InvalidSymbol(s)) => Err(FetchError::InvalidSymbol(s)),
            Err(FetchError::InvalidParameter(p)) => Err(FetchError::InvalidParameter(p)),
            Err(FetchError::InvalidDateRange) => Err(FetchError::InvalidDateRange),
            Err(FetchError::DataSource(_)) => {
                match self.get_klines_from_storage(symbol) {
                    Some(bars) => Ok(bars),
                    None => {
                        let sym = match normalize_symbol(symbol) {
                            Some(s) => s,
                            None => {
                                assert(false);
                                return Err(FetchError::InvalidDateRange);
                            },
                        };
                        Ok(generate_simulated_klines(&sym, start, end, period))
                    },
                }
            },
        }
    }
}

} // verus!
