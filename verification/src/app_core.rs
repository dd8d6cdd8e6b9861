//! The decision core of the trading application.
//!
//! The surrounding application reads ticks from its store and hands them
//! here as plain values; everything derived from them — the MACD series,
//! the signal counts, the per-symbol summaries — is computed and verified
//! here.

use vstd::prelude::*;
use vstd::string::StringSliceAdditionalSpecFns;
use crate::analysis::{count_crossings, count_macd_signals, macd_of_points, CrossPolicy};
use crate::errors::AppError;
use crate::fixed::Fixed;
use crate::indicators::{compute_macd_series, macd_out_at, prices_of, MACDPoint, MACD_LONG, MACD_SHORT, MACD_SIGNAL, PRICE_ABS_MAX};
use crate::sim::TickData;
use crate::text::{dec_digits, push_bytes, push_u64};

verus! {

/// A per-symbol summary: the latest tick and how many recent data points
/// the store holds.
pub struct SymbolInfo {
    pub symbol: Vec<u8>,
    pub latest_tick: Option<TickData>,
    pub data_points: usize,
}

/// A market analysis: the MACD series over the window and the signal
/// counts it produced.
pub struct MarketAnalysis {
    pub symbol: Vec<u8>,
    pub macd_points: Vec<MACDPoint>,
    pub signal_count: usize,
    pub bullish_signals: usize,
    pub bearish_signals: usize,
    pub analysis_days: i64,
}

/// Builds the per-symbol summary from store results.
pub fn symbol_info_from(symbol: &[u8], latest_tick: Option<TickData>, data_points: usize) -> (r:
    SymbolInfo)
    ensures
        r.symbol@ == symbol@,
        r.latest_tick == latest_tick,
        r.data_points == data_points,
{
    let mut s: Vec<u8> = Vec::new();
    push_bytes(&mut s, symbol);
    assert(s@ =~= symbol@);
    SymbolInfo { symbol: s, latest_tick, data_points }
}

/// Derives a market analysis from the window's ticks: the MACD series over
/// the prices and the zero-crossing counts.  An empty window is missing
/// data, not an empty analysis.
pub fn market_analysis_from_ticks(symbol: &[u8], ticks: &Vec<(i64, Fixed)>, days: i64) -> (r:
    Result<MarketAnalysis, AppError>)
    requires
        forall|i: int|
            0 <= i < ticks@.len() ==> -PRICE_ABS_MAX <= (#[trigger] ticks@[i]).1.raw
                <= PRICE_ABS_MAX,
    ensures
        match r {
            Ok(m) => {
                &&& ticks@.len() > 0
                &&& m.symbol@ == symbol@
                &&& m.analysis_days == days
                &&& m.macd_points@.len() == ticks@.len()
                &&& forall|i: int|
                    0 <= i < ticks@.len() ==> {
                        let o = #[trigger] m.macd_points@[i];
                        o.ts == ticks@[i].0 && o.price == ticks@[i].1 && (
                        o.dif.raw as int,
                        o.dea.raw as int,
                        o.macd.raw as int,
                        ) == macd_out_at(
                            prices_of(ticks@),
                            i,
                            MACD_SHORT as int,
                            MACD_LONG as int,
                            MACD_SIGNAL as int,
                        )
                    }
                &&& (m.bullish_signals as int, m.bearish_signals as int) == count_crossings(
                    CrossPolicy::IncludeZero,
                    macd_of_points(m.macd_points@),
                    m.macd_points@.len() as int,
                )
                &&& m.signal_count == m.bullish_signals + m.bearish_signals
            },
            Err(e) => ticks@.len() == 0 && e is DataNotFound,
        },
{
    if ticks.len() == 0 {
        return Err(AppError::DataNotFound("no tick data in the analysis window".to_owned()));
    }
    let macd_points = compute_macd_series(ticks);
    let (bullish_signals, bearish_signals) = count_macd_signals(&macd_points);
    let signal_count = bullish_signals + bearish_signals;
    let mut s: Vec<u8> = Vec::new();
    push_bytes(&mut s, symbol);
    assert(s@ =~= symbol@);
    Ok(
        MarketAnalysis {
            symbol: s,
            macd_points,
            signal_count,
            bullish_signals,
            bearish_signals,
            analysis_days: days,
        },
    )
}

/// The window description of an analysis, e.g. `30 days`.
pub open spec fn period_text(days: nat) -> Seq<u8> {
    dec_digits(days) + " days".spec_bytes()
}

impl MarketAnalysis {
    /// The window description, e.g. `30 days`.
    pub fn analysis_period(&self) -> (r: Vec<u8>)
        requires
            self.analysis_days >= 0,
        ensures
            r@ == period_text(self.analysis_days as nat),
    {
        let mut out: Vec<u8> = Vec::new();
        push_u64(&mut out, self.analysis_days as u64);
        push_bytes(&mut out, " days".as_bytes());
        out
    }
}

} // verus!
