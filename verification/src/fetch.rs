//! The fallback fetcher.
//!
//! A request first consults the result cache; on a miss the enabled
//! providers are tried in priority order and the first success is written
//! back to the cache with the request kind's time-to-live.  Failures are
//! never cached: when every adapter fails, the aggregate failure carries
//! each provider's error and the cache holds nothing new.

use vstd::prelude::*;
use vstd::string::StringSliceAdditionalSpecFns;
use crate::cache::{cache_wf, evict_spec, insert_spec, lookup_spec, EntryV, ResultCache, CACHE_TIME_MAX};
use crate::dates::{date_text_compact, date_wf, days_from_civil, format_date_compact, Date};
use crate::models::{clone_klines, clone_quote, clone_trades, KlineV, MarketDepth, MarketDepthV, Payload, PayloadV, Quote, QuoteV, Kline, Trade};
use crate::providers::{fetch_depth_eastmoney, fetch_kline_page, fetch_quote_baidu, fetch_quote_eastmoney, fetch_quote_sina, fetch_trades_eastmoney, ProviderConfig, ProviderError, ProviderId};
use crate::symbol::{canon_text, normalize_symbol, norm_spec, symbol_wf};
use crate::text::{lower_bytes, lower_vec, push_bytes, push_u64, dec_digits};

verus! {

/// The configured upstream sources and the quote cache window (seconds).
#[derive(Clone, Debug)]
pub struct DataSourceConfig {
    pub eastmoney: ProviderConfig,
    pub baidu: ProviderConfig,
    pub sina: ProviderConfig,
    pub cache_duration: i64,
}

pub open spec fn config_wf(c: DataSourceConfig) -> bool {
    0 <= c.cache_duration <= 3_600_000
}

/// The enabled providers, in priority order.
pub open spec fn enabled_seq(c: DataSourceConfig) -> Seq<ProviderId> {
    (if c.eastmoney.enabled {
        seq![ProviderId::EastMoney]
    } else {
        Seq::empty()
    }) + (if c.baidu.enabled {
        seq![ProviderId::Baidu]
    } else {
        Seq::empty()
    }) + (if c.sina.enabled {
        seq![ProviderId::Sina]
    } else {
        Seq::empty()
    })
}

/// One provider's failure inside an aggregate fetch failure.
#[derive(Clone, Debug)]
pub struct FailureRecord {
    pub provider: ProviderId,
    pub error: ProviderError,
}

/// The error taxonomy of the fetch paths.
#[derive(Clone, Debug)]
pub enum FetchError {
    /// Normalization failed; carries the rejected input.  Never retried.
    InvalidSymbol(Vec<u8>),
    /// An unsupported request parameter, such as an unknown bar period.
    InvalidParameter(Vec<u8>),
    /// An inverted start/end pair.
    InvalidDateRange,
    /// Every configured adapter failed; one record per attempt, in order.
    DataSource(Vec<FailureRecord>),
}

/// The fetcher: the configured sources and the result cache it owns.
pub struct DataFetcher {
    pub config: DataSourceConfig,
    pub cache: ResultCache,
}

/// The fallback policy over adapter outcomes, taken in the priority order
/// that `enabled_seq` gives and `get_quote` tries: the first success
/// short-circuits; only when every outcome failed is the aggregate error
/// path taken.
pub open spec fn fallback_spec(outcomes: Seq<Option<QuoteV>>) -> Option<(int, QuoteV)>
    decreases outcomes.len(),
{
    if outcomes.len() == 0 {
        None
    } else {
        match outcomes[0] {
            Some(q) => Some((0int, q)),
            None => match fallback_spec(outcomes.drop_first()) {
                Some(p) => Some((p.0 + 1, p.1)),
                None => None,
            },
        }
    }
}

/// Fallback order law: when the first two adapters fail and the third
/// succeeds, the fetch yields exactly the third adapter's output and the
/// aggregate error path is never taken.
pub proof fn lemma_fallback_third_succeeds(outcomes: Seq<Option<QuoteV>>, q: QuoteV)
    requires
        outcomes.len() == 3,
        outcomes[0] is None,
        outcomes[1] is None,
        outcomes[2] == Some(q),
    ensures
        fallback_spec(outcomes) == Some((2int, q)),
{
    let d1 = outcomes.drop_first();
    let d2 = d1.drop_first();
    assert(d1[0] is None);
    assert(d2[0] == Some(q));
    assert(fallback_spec(d2) == Some((0int, q)));
    assert(fallback_spec(d1) == Some((1int, q)));
}

/// Exhaustive failure law: when every adapter fails, the fallback yields no
/// quote and only the aggregate error remains.
pub proof fn lemma_fallback_exhausted(outcomes: Seq<Option<QuoteV>>)
    requires
        forall|i: int| 0 <= i < outcomes.len() ==> (#[trigger] outcomes[i]) is None,
    ensures
        fallback_spec(outcomes) is None,
    decreases outcomes.len(),
{
    if outcomes.len() > 0 {
        assert(forall|i: int|
            0 <= i < outcomes.drop_first().len() ==> #[trigger] outcomes.drop_first()[i]
                == outcomes[i + 1]);
        lemma_fallback_exhausted(outcomes.drop_first());
    }
}

/// The cache key of a quote request.
pub open spec fn quote_key_spec(sym: Seq<u8>) -> Seq<u8> {
    "quote:".spec_bytes() + sym
}

/// The cache key of a bar request: kind, symbol, both dates, period.
pub open spec fn kline_key_spec(sym: Seq<u8>, start: Date, end: Date, period: Seq<u8>) -> Seq<u8> {
    "kline:".spec_bytes() + sym + seq![58u8] + date_text_compact(start) + seq![58u8]
        + date_text_compact(end) + seq![58u8] + period
}

/// The cache key of a depth request.
pub open spec fn depth_key_spec(sym: Seq<u8>) -> Seq<u8> {
    "depth:".spec_bytes() + sym
}

/// The cache key of a recent-trades request.
pub open spec fn trades_key_spec(sym: Seq<u8>, limit: u32) -> Seq<u8> {
    "trades:".spec_bytes() + sym + seq![58u8] + dec_digits(limit as nat)
}

/// The quote a live cache entry under the key holds, if any.
pub open spec fn quote_hit(s: Seq<EntryV>, key: Seq<u8>, now: int) -> Option<QuoteV> {
    match lookup_spec(s, key, now) {
        Some(PayloadV::Quote(q)) => Some(q),
        _ => None,
    }
}

/// The bar series a live cache entry under the key holds, if any.
pub open spec fn klines_hit(s: Seq<EntryV>, key: Seq<u8>, now: int) -> Option<Seq<KlineV>> {
    match lookup_spec(s, key, now) {
        Some(PayloadV::Klines(ks)) => Some(ks),
        _ => None,
    }
}

/// The depth a live cache entry under the key holds, if any.
pub open spec fn depth_hit(s: Seq<EntryV>, key: Seq<u8>, now: int) -> Option<MarketDepthV> {
    match lookup_spec(s, key, now) {
        Some(PayloadV::Depth(d)) => Some(d),
        _ => None,
    }
}

/// The trade prints a live cache entry under the key holds, if any.
pub open spec fn trades_hit(s: Seq<EntryV>, key: Seq<u8>, now: int) -> Option<Seq<crate::models::TradeV>> {
    match lookup_spec(s, key, now) {
        Some(PayloadV::Trades(ts)) => Some(ts),
        _ => None,
    }
}

/// Keys of different request kinds never collide: each kind's prefix pins
/// it, so a cached quote can never answer a bar, depth or trades request.
pub proof fn lemma_request_kinds_never_collide(
    s1: Seq<u8>,
    s2: Seq<u8>,
    start: Date,
    end: Date,
    period: Seq<u8>,
    limit: u32,
)
    ensures
        quote_key_spec(s1) != kline_key_spec(s2, start, end, period),
        quote_key_spec(s1) != depth_key_spec(s2),
        quote_key_spec(s1) != trades_key_spec(s2, limit),
        kline_key_spec(s1, start, end, period) != depth_key_spec(s2),
        kline_key_spec(s1, start, end, period) != trades_key_spec(s2, limit),
        depth_key_spec(s1) != trades_key_spec(s2, limit),
{
    broadcast use vstd::string::is_ascii_spec_bytes;

    reveal_strlit("quote:");
    reveal_strlit("kline:");
    reveal_strlit("depth:");
    reveal_strlit("trades:");
    assert(vstd::string::is_ascii("quote:"));
    assert(vstd::string::is_ascii("kline:"));
    assert(vstd::string::is_ascii("depth:"));
    assert(vstd::string::is_ascii("trades:"));
    assert(quote_key_spec(s1)[0] == 113);
    assert(kline_key_spec(s2, start, end, period)[0] == 107);
    assert(kline_key_spec(s1, start, end, period)[0] == 107);
    assert(depth_key_spec(s2)[0] == 100);
    assert(depth_key_spec(s1)[0] == 100);
    assert(trades_key_spec(s2, limit)[0] == 116);
}

fn quote_key(sym_text: &Vec<u8>) -> (r: Vec<u8>)
    ensures
        r@ == quote_key_spec(sym_text@),
{
    let mut out: Vec<u8> = Vec::new();
    push_bytes(&mut out, "quote:".as_bytes());
    push_bytes(&mut out, sym_text.as_slice());
    out
}

fn kline_key(sym_text: &Vec<u8>, start: &Date, end: &Date, period: &Vec<u8>) -> (r: Vec<u8>)
    requires
        date_wf(*start),
        date_wf(*end),
    ensures
        r@ == kline_key_spec(sym_text@, *start, *end, period@),
{
    let mut out: Vec<u8> = Vec::new();
    push_bytes(&mut out, "kline:".as_bytes());
    push_bytes(&mut out, sym_text.as_slice());
    out.push(58);
    let sd = format_date_compact(start);
    push_bytes(&mut out, sd.as_slice());
    out.push(58);
    let ed = format_date_compact(end);
    push_bytes(&mut out, ed.as_slice());
    out.push(58);
    push_bytes(&mut out, period.as_slice());
    assert(out@ =~= kline_key_spec(sym_text@, *start, *end, period@));
    out
}

fn depth_key(sym_text: &Vec<u8>) -> (r: Vec<u8>)
    ensures
        r@ == depth_key_spec(sym_text@),
{
    let mut out: Vec<u8> = Vec::new();
    push_bytes(&mut out, "depth:".as_bytes());
    push_bytes(&mut out, sym_text.as_slice());
    out
}

fn trades_key(sym_text: &Vec<u8>, limit: u32) -> (r: Vec<u8>)
    ensures
        r@ == trades_key_spec(sym_text@, limit),
{
    let mut out: Vec<u8> = Vec::new();
    push_bytes(&mut out, "trades:".as_bytes());
    push_bytes(&mut out, sym_text.as_slice());
    out.push(58);
    push_u64(&mut out, limit as u64);
    assert(out@ =~= trades_key_spec(sym_text@, limit));
    out
}

/// The EastMoney bar-resolution code of a period name, lowercased first:
/// minute periods map to their length, day, week and month to the
/// upstream's fixed codes; each period also has a Chinese alias.
pub open spec fn ktype_spec(p: Seq<u8>) -> Option<u32> {
    let t = lower_bytes(p);
    if t == "1min".spec_bytes() || t == "1\u{5206}\u{949f}".spec_bytes() {
        Some(1u32)
    } else if t == "5min".spec_bytes() || t == "5\u{5206}\u{949f}".spec_bytes() {
        Some(5u32)
    } else if t == "15min".spec_bytes() || t == "15\u{5206}\u{949f}".spec_bytes() {
        Some(15u32)
    } else if t == "30min".spec_bytes() || t == "30\u{5206}\u{949f}".spec_bytes() {
        Some(30u32)
    } else if t == "60min".spec_bytes() || t == "60\u{5206}\u{949f}".spec_bytes() || t
        == "1\u{5c0f}\u{65f6}".spec_bytes() {
        Some(60u32)
    } else if t == "day".spec_bytes() || t == "\u{65e5}\u{7ebf}".spec_bytes() {
        Some(101u32)
    } else if t == "week".spec_bytes() || t == "\u{5468}\u{7ebf}".spec_bytes() {
        Some(102u32)
    } else if t == "month".spec_bytes() || t == "\u{6708}\u{7ebf}".spec_bytes() {
        Some(103u32)
    } else {
        None
    }
}

/// Maps a period name to the upstream bar-resolution code, exactly as
/// `ktype_spec` describes.
pub fn convert_period_to_ktype(period: &[u8]) -> (r: Option<u32>)
    ensures
        r == ktype_spec(period@),
{
    let t = lower_vec(period);
    if crate::text::bytes_eq(t.as_slice(), "1min".as_bytes()) || crate::text::bytes_eq(
        t.as_slice(),
        "1\u{5206}\u{949f}".as_bytes(),
    ) {
        Some(1)
    } else if crate::text::bytes_eq(t.as_slice(), "5min".as_bytes()) || crate::text::bytes_eq(
        t.as_slice(),
        "5\u{5206}\u{949f}".as_bytes(),
    ) {
        Some(5)
    } else if crate::text::bytes_eq(t.as_slice(), "15min".as_bytes()) || crate::text::bytes_eq(
        t.as_slice(),
        "15\u{5206}\u{949f}".as_bytes(),
    ) {
        Some(15)
    } else if crate::text::bytes_eq(t.as_slice(), "30min".as_bytes()) || crate::text::bytes_eq(
        t.as_slice(),
        "30\u{5206}\u{949f}".as_bytes(),
    ) {
        Some(30)
    } else if crate::text::bytes_eq(t.as_slice(), "60min".as_bytes()) || crate::text::bytes_eq(
        t.as_slice(),
        "60\u{5206}\u{949f}".as_bytes(),
    ) || crate::text::bytes_eq(t.as_slice(), "1\u{5c0f}\u{65f6}".as_bytes()) {
        Some(60)
    } else if crate::text::bytes_eq(t.as_slice(), "day".as_bytes()) || crate::text::bytes_eq(
        t.as_slice(),
        "\u{65e5}\u{7ebf}".as_bytes(),
    ) {
        Some(101)
    } else if crate::text::bytes_eq(t.as_slice(), "week".as_bytes()) || crate::text::bytes_eq(
        t.as_slice(),
        "\u{5468}\u{7ebf}".as_bytes(),
    ) {
        Some(102)
    } else if crate::text::bytes_eq(t.as_slice(), "month".as_bytes()) || crate::text::bytes_eq(
        t.as_slice(),
        "\u{6708}\u{7ebf}".as_bytes(),
    ) {
        Some(103)
    } else {
        None
    }
}

/// Strictly ascending bar timestamps: sorted and free of duplicates.
pub open spec fn strictly_ascending(bars: Seq<KlineV>) -> bool {
    forall|i: int, j: int|
        0 <= i < j < bars.len() ==> (#[trigger] bars[i]).timestamp < (#[trigger] bars[j]).timestamp
}

/// Every bar of `out` comes from `input`.
pub open spec fn bars_from(out: Seq<Kline>, input: Seq<Kline>) -> bool {
    forall|a: int| #![trigger out[a]]
        0 <= a < out.len() ==> exists|j: int| #![trigger input[j]]
            0 <= j < input.len() && out[a]@ == input[j]@
}

/// Every timestamp among the first `upto` bars of `input` appears in `out`.
pub open spec fn ts_covered(input: Seq<Kline>, upto: int, out: Seq<Kline>) -> bool {
    forall|j: int| #![trigger input[j]]
        0 <= j < upto ==> exists|a: int| #![trigger out[a]]
            0 <= a < out.len() && input[j].timestamp == out[a].timestamp
}

/// Merges fetched pages: the result is strictly ascending in timestamp,
/// every bar of it comes from the input, and every input timestamp is
/// represented.
#[verifier::loop_isolation(false)]
pub fn dedup_sort_bars(input: Vec<Kline>) -> (out: Vec<Kline>)
    ensures
        strictly_ascending(out@.map_values(|k: Kline| k@)),
        bars_from(out@, input@),
        ts_covered(input@, input@.len() as int, out@),
{
    let mut out: Vec<Kline> = Vec::new();
    let mut i: usize = 0;
    while i < input.len()
        invariant
            i <= input@.len(),
            strictly_ascending(out@.map_values(|k: Kline| k@)),
            bars_from(out@, input@),
            ts_covered(input@, i as int, out@),
        decreases input@.len() - i,
    {
        let bar = crate::models::clone_kline(&input[i]);
        assert(bar@ == input@[i as int]@);
        let ts = bar.timestamp;
        // Find the insertion point: the index of the first bar at or after
        // this timestamp.
        let mut pos: usize = 0;
        while pos < out.len() && out[pos].timestamp < ts
            invariant
                pos <= out@.len(),
                forall|k: int| 0 <= k < pos ==> (#[trigger] out@[k]).timestamp < ts,
            decreases out@.len() - pos,
        {
            pos = pos + 1;
        }
        if pos < out.len() && out[pos].timestamp == ts {
            // A bar with this timestamp is already present: drop the copy.
            proof {
                assert(out@[pos as int].timestamp == ts);
                assert forall|j: int| #![trigger input@[j]] 0 <= j < i + 1 implies exists|a: int| #![trigger out@[a]]
                    0 <= a < out@.len() && input@[j].timestamp == out@[a].timestamp by {
                    if j == i {
                        assert(out@[pos as int].timestamp == input@[i as int].timestamp);
                    }
                }
                assert(ts_covered(input@, i + 1, out@));
            }
        } else {
            let ghost pre = out@;
            let ghost pv = pre.map_values(|kk: Kline| kk@);
            proof {
                assert forall|k: int| pos <= k < pre.len() implies (#[trigger] pre[k]).timestamp
                    > ts by {
                    assert(pv[k] == pre[k]@);
                    assert(pv[pos as int] == pre[pos as int]@);
                    if k > pos {
                        assert(pv[pos as int].timestamp < pv[k].timestamp);
                    }
                }
            }
            let ghost barg = bar;
            out.insert(pos, bar);
            proof {
                pre.insert_ensures(pos as int, barg);
                assert(out@ == pre.insert(pos as int, barg));
                let ov = out@.map_values(|k: Kline| k@);
                assert forall|a: int, b: int| 0 <= a < b < ov.len() implies (
                #[trigger] ov[a]).timestamp < (#[trigger] ov[b]).timestamp by {
                    assert(ov[a] == out@[a]@ && ov[b] == out@[b]@);
                    if a < pos {
                        assert(out@[a] == pre[a]);
                    } else if a > pos {
                        assert(out@[a] == pre[a - 1]);
                    }
                    if b < pos {
                        assert(out@[b] == pre[b]);
                    } else if b > pos {
                        assert(out@[b] == pre[b - 1]);
                    }
                    assert(forall|k: int| 0 <= k < pre.len() ==> (#[trigger] pv[k]) == pre[k]@);
                    if a < pos && b < pos {
                        assert(pv[a].timestamp < pv[b].timestamp);
                    } else if a < pos && b > pos {
                        assert(pre[a].timestamp < ts && pre[b - 1].timestamp > ts);
                    } else if a > pos && b > pos {
                        assert(pv[a - 1].timestamp < pv[b - 1].timestamp);
                    }
                }
                assert forall|a: int| #![trigger out@[a]] 0 <= a < out@.len() implies exists|j: int| #![trigger input@[j]]
                    0 <= j < input@.len() && out@[a]@ == input@[j]@ by {
                    if a < pos {
                        assert(out@[a] == pre[a]);
                        let j0 = choose|j0: int| #![trigger input@[j0]]
                            0 <= j0 < input@.len() && pre[a]@ == input@[j0]@;
                        assert(0 <= j0 < input@.len() && out@[a]@ == input@[j0]@);
                    } else if a == pos {
                        assert(out@[a]@ == input@[i as int]@);
                    } else {
                        assert(out@[a] == pre[a - 1]);
                        let j0 = choose|j0: int| #![trigger input@[j0]]
                            0 <= j0 < input@.len() && pre[a - 1]@ == input@[j0]@;
                        assert(0 <= j0 < input@.len() && out@[a]@ == input@[j0]@);
                    }
                }
                assert(bars_from(out@, input@));
                assert forall|j: int| #![trigger input@[j]] 0 <= j < i + 1 implies exists|a: int| #![trigger out@[a]]
                    0 <= a < out@.len() && input@[j].timestamp == out@[a].timestamp by {
                    if j < i {
                        let a0 = choose|a0: int| #![trigger pre[a0]]
                            0 <= a0 < pre.len() && input@[j].timestamp == pre[a0].timestamp;
                        if a0 < pos {
                            assert(out@[a0].timestamp == pre[a0].timestamp);
                        } else {
                            assert(out@[a0 + 1].timestamp == pre[a0].timestamp);
                        }
                    } else {
                        assert(out@[pos as int].timestamp == input@[i as int].timestamp);
                    }
                }
                assert(ts_covered(input@, i + 1, out@));
            }
        }
        i = i + 1;
    }
    out
}

impl DataFetcher {
    pub fn new(config: DataSourceConfig) -> (r: DataFetcher)
        requires
            config_wf(config),
        ensures
            r.config == config,
            r.cache@ =~= Seq::<EntryV>::empty(),
            cache_wf(r.cache@),
    {
        DataFetcher { config, cache: ResultCache::new() }
    }

    /// Reads a payload from the cache, purging expired entries.
    pub fn get_from_cache(&mut self, key: &Vec<u8>, now: i64) -> (r: Option<Payload>)
        requires
            cache_wf(old(self).cache@),
            0 <= now <= CACHE_TIME_MAX,
        ensures
            cache_wf(final(self).cache@),
            final(self).config == old(self).config,
            final(self).cache@ == evict_spec(old(self).cache@, now as int),
            match r {
                Some(p) => lookup_spec(old(self).cache@, key@, now as int) == Some(p@),
                None => lookup_spec(old(self).cache@, key@, now as int) is None,
            },
    {
        self.cache.get(key, now)
    }

    /// Writes a payload to the cache under a time-to-live in milliseconds.
    pub fn cache_data(&mut self, key: &Vec<u8>, payload: &Payload, now: i64, ttl: i64)
        requires
            cache_wf(old(self).cache@),
            0 <= now <= CACHE_TIME_MAX,
            0 <= ttl <= CACHE_TIME_MAX,
        ensures
            cache_wf(final(self).cache@),
            final(self).config == old(self).config,
            final(self).cache@ == insert_spec(
                old(self).cache@,
                EntryV { key: key@, payload: payload@, created_at: now as int, ttl: ttl as int },
            ),
    {
        self.cache.put(key, payload, now, ttl)
    }

    /// The enabled sources, in the fallback priority order.
    pub fn get_enabled_sources(&self) -> (r: Vec<ProviderId>)
        ensures
            r@ == enabled_seq(self.config),
    {
        let mut out: Vec<ProviderId> = Vec::new();
        if self.config.eastmoney.enabled {
            out.push(ProviderId::EastMoney);
        }
        if self.config.baidu.enabled {
            out.push(ProviderId::Baidu);
        }
        if self.config.sina.enabled {
            out.push(ProviderId::Sina);
        }
        assert(out@ =~= enabled_seq(self.config));
        out
    }

    /// Fetches a real-time quote: normalize, consult the cache, then try
    /// the enabled providers in priority order; the first success is cached
    /// for the configured window.  Failures are never cached.
    pub fn get_quote(&mut self, symbol: &[u8], now: i64) -> (r: Result<Quote, FetchError>)
        requires
            cache_wf(old(self).cache@),
            config_wf(old(self).config),
            0 <= now <= CACHE_TIME_MAX - 3_600_000_000,
        ensures
            cache_wf(final(self).cache@),
            final(self).config == old(self).config,
            match r {
                Ok(q) => norm_spec(symbol@) is Some && {
                    let (code, market) = norm_spec(symbol@)->Some_0;
                    let key = quote_key_spec(canon_text(code, market));
                    ||| (lookup_spec(old(self).cache@, key, now as int) == Some(
                        PayloadV::Quote(q@),
                    ) && final(self).cache@ == evict_spec(old(self).cache@, now as int))
                    ||| (final(self).cache@ == insert_spec(
                        evict_spec(old(self).cache@, now as int),
                        EntryV {
                            key,
                            payload: PayloadV::Quote(q@),
                            created_at: now as int,
                            ttl: old(self).config.cache_duration * 1000,
                        },
                    ) && q@.timestamp == now && q@.symbol == canon_text(code, market))
                },
                Err(FetchError::InvalidSymbol(s)) => norm_spec(symbol@) is None && s@ == symbol@
                    && final(self).cache@ == old(self).cache@,
                Err(FetchError::DataSource(fails)) => {
                    &&& norm_spec(symbol@) is Some
                    &&& final(self).cache@ == evict_spec(old(self).cache@, now as int)
                    &&& fails@.map_values(|f: FailureRecord| f.provider) == enabled_seq(
                        old(self).config,
                    )
                },
                _ => false,
            },
            // A live cached quote takes precedence: it is returned as it
            // stands and the cache is only expiry-swept.
            norm_spec(symbol@) is Some ==> (match quote_hit(
                old(self).cache@,
                quote_key_spec(
                    canon_text(norm_spec(symbol@)->Some_0.0, norm_spec(symbol@)->Some_0.1),
                ),
                now as int,
            ) {
                Some(qv) => r matches Ok(q) && q@ == qv && final(self).cache@ == evict_spec(
                    old(self).cache@,
                    now as int,
                ),
                None => true,
            }),
            // With nothing usable cached and no provider enabled, the
            // aggregate failure with an empty record list is the outcome.
            (norm_spec(symbol@) is Some && enabled_seq(old(self).config).len() == 0 && quote_hit(
                old(self).cache@,
                quote_key_spec(
                    canon_text(norm_spec(symbol@)->Some_0.0, norm_spec(symbol@)->Some_0.1),
                ),
                now as int,
            ) is None) ==> (match r {
                Err(FetchError::DataSource(fails)) => fails@.len() == 0,
                _ => false,
            }),
    {
        let sym = match normalize_symbol(symbol) {
            Some(s) => s,
            None => {
                let mut copy: Vec<u8> = Vec::new();
                push_bytes(&mut copy, symbol);
                assert(copy@ =~= symbol@);
                return Err(FetchError::InvalidSymbol(copy));
            },
        };
        let sym_text = sym.text();
        let key = quote_key(&sym_text);
        let cached = self.get_from_cache(&key, now);
        match &cached {
            Some(Payload::Quote(q)) => {
                return Ok(clone_quote(q));
            },
            _ => {},
        }
        proof {
            match cached {
                Some(p) => {
                    assert(lookup_spec(old(self).cache@, key@, now as int) == Some(p@));
                    assert(!(p@ is Quote));
                },
                None => {},
            }
            assert(quote_hit(old(self).cache@, key@, now as int) is None);
        }
        // The cache held nothing usable: try the providers in order.
        let mut failures: Vec<FailureRecord> = Vec::new();
        if self.config.eastmoney.enabled {
            match fetch_quote_eastmoney(&self.config.eastmoney, &sym, now) {
                Ok(q) => {
                    let payload = Payload::Quote(clone_quote(&q));
                    let ttl = self.config.cache_duration * 1000;
                    self.cache_data(&key, &payload, now, ttl);
                    return Ok(q);
                },
                Err(e) => {
                    failures.push(FailureRecord { provider: ProviderId::EastMoney, error: e });
                },
            }
        }
        if self.config.baidu.enabled {
            match fetch_quote_baidu(&self.config.baidu, &sym, now) {
                Ok(q) => {
                    let payload = Payload::Quote(clone_quote(&q));
                    let ttl = self.config.cache_duration * 1000;
                    self.cache_data(&key, &payload, now, ttl);
                    return Ok(q);
                },
                Err(e) => {
                    failures.push(FailureRecord { provider: ProviderId::Baidu, error: e });
                },
            }
        }
        if self.config.sina.enabled {
            match fetch_quote_sina(&self.config.sina, &sym, now) {
                Ok(q) => {
                    let payload = Payload::Quote(clone_quote(&q));
                    let ttl = self.config.cache_duration * 1000;
                    self.cache_data(&key, &payload, now, ttl);
                    return Ok(q);
                },
                Err(e) => {
                    failures.push(FailureRecord { provider: ProviderId::Sina, error: e });
                },
            }
        }
        assert(failures@.map_values(|f: FailureRecord| f.provider) =~= enabled_seq(self.config));
        Err(FetchError::DataSource(failures))
    }

    /// Fetches historical bars: normalize, consult the cache, then page
    /// backward in time through the bar provider until the start is covered
    /// or a page comes back empty; the merged series is de-duplicated,
    /// re-sorted ascending and cached for an hour.  Paging stops after a
    /// page that makes no progress and after a fixed page bound, so the
    /// loop always terminates; any inter-page delay to respect upstream
    /// rate limits is the surrounding application's to apply, since the
    /// verified core performs no waiting.
    #[verifier::rlimit(80)]
    pub fn get_kline_data(
        &mut self,
        symbol: &[u8],
        start: &Date,
        end: &Date,
        period: &[u8],
        now: i64,
    ) -> (r: Result<Vec<Kline>, FetchError>)
        requires
            cache_wf(old(self).cache@),
            config_wf(old(self).config),
            date_wf(*start),
            date_wf(*end),
            0 <= now <= CACHE_TIME_MAX - 3_600_000_000,
        ensures
            cache_wf(final(self).cache@),
            final(self).config == old(self).config,
            match r {
                Ok(bars) => norm_spec(symbol@) is Some && ktype_spec(period@) is Some && {
                    let (code, market) = norm_spec(symbol@)->Some_0;
                    let key = kline_key_spec(canon_text(code, market), *start, *end, period@);
                    let pv = PayloadV::Klines(bars@.map_values(|k: Kline| k@));
                    ||| (lookup_spec(old(self).cache@, key, now as int) == Some(pv) && final(self).cache@ == evict_spec(old(self).cache@, now as int))
                    ||| (final(self).cache@ == insert_spec(
                        evict_spec(old(self).cache@, now as int),
                        EntryV {
                            key,
                            payload: pv,
                            created_at: now as int,
                            ttl: 3_600_000,
                        },
                    ) && strictly_ascending(bars@.map_values(|k: Kline| k@)) && (forall|i: int|
                        0 <= i < bars@.len() ==> (#[trigger] bars@[i])@.symbol == canon_text(
                            code,
                            market,
                        ) && bars@[i]@.period == period@))
                },
                Err(FetchError::InvalidSymbol(s)) => norm_spec(symbol@) is None && s@ == symbol@
                    && final(self).cache@ == old(self).cache@,
                Err(FetchError::InvalidParameter(p)) => ktype_spec(period@) is None && p@
                    == period@ && final(self).cache@ == old(self).cache@,
                Err(FetchError::InvalidDateRange) => days_from_civil(
                    start.year as int,
                    start.month as int,
                    start.day as int,
                ) > days_from_civil(end.year as int, end.month as int, end.day as int) && final(self).cache@ == old(self).cache@,
                Err(FetchError::DataSource(fails)) => final(self).cache@ == evict_spec(
                    old(self).cache@,
                    now as int,
                ) && fails@.len() == 1 && norm_spec(symbol@) is Some && ktype_spec(
                    period@,
                ) is Some,
            },
            // A live cached series takes precedence: it is returned as it
            // stands and the cache is only expiry-swept.
            (norm_spec(symbol@) is Some && ktype_spec(period@) is Some && days_from_civil(
                start.year as int,
                start.month as int,
                start.day as int,
            ) <= days_from_civil(end.year as int, end.month as int, end.day as int)) ==> (match klines_hit(
                old(self).cache@,
                kline_key_spec(
                    canon_text(norm_spec(symbol@)->Some_0.0, norm_spec(symbol@)->Some_0.1),
                    *start,
                    *end,
                    period@,
                ),
                now as int,
            ) {
                Some(ksv) => r matches Ok(bars) && bars@.map_values(|k: Kline| k@) == ksv && final(self).cache@ == evict_spec(old(self).cache@, now as int),
                None => true,
            }),
    {
        let sym = match normalize_symbol(symbol) {
            Some(s) => s,
            None => {
                let mut copy: Vec<u8> = Vec::new();
                push_bytes(&mut copy, symbol);
                assert(copy@ =~= symbol@);
                return Err(FetchError::InvalidSymbol(copy));
            },
        };
        let ktype = match convert_period_to_ktype(period) {
            Some(k) => k,
            None => {
                let mut copy: Vec<u8> = Vec::new();
                push_bytes(&mut copy, period);
                assert(copy@ =~= period@);
                return Err(FetchError::InvalidParameter(copy));
            },
        };
        let start_ts = crate::dates::date_time_to_ms(start, 0, 0, 0);
        let end_ts = crate::dates::date_time_to_ms(end, 23, 59, 59);
        if start_ts > end_ts {
            return Err(FetchError::InvalidDateRange);
        }
        let mut period_vec: Vec<u8> = Vec::new();
        push_bytes(&mut period_vec, period);
        assert(period_vec@ =~= period@);
        let sym_text = sym.text();
        let key = kline_key(&sym_text, start, end, &period_vec);
        let cached = self.get_from_cache(&key, now);
        match &cached {
            Some(Payload::Klines(bars)) => {
                return Ok(clone_klines(bars));
            },
            _ => {},
        }
        proof {
            match cached {
                Some(p) => {
                    assert(lookup_spec(old(self).cache@, key@, now as int) == Some(p@));
                    assert(!(p@ is Klines));
                },
                None => {},
            }
            assert(klines_hit(old(self).cache@, key@, now as int) is None);
        }
        // Page backward in time: newest chunk first, until the start is
        // covered, a page is empty, or no page makes progress.
        let ghost code_market = norm_spec(symbol@)->Some_0;
        let mut all: Vec<Kline> = Vec::new();
        let mut current_end = end_ts;
        let mut pages: u32 = 0;
        let mut page_err: Option<ProviderError> = None;
        let beg = if start_ts < 0 {
            0
        } else {
            start_ts
        };
        while pages < 64
            invariant
                norm_spec(symbol@) is Some,
                ktype_spec(period@) is Some,
                cache_wf(self.cache@),
                self.config == old(self).config,
                self.cache@ == evict_spec(old(self).cache@, now as int),
                symbol_wf(sym.code@),
                canon_text(sym.code@, sym.market) == canon_text(code_market.0, code_market.1),
                period_vec@ == period@,
                -400_000_000_000_000 <= current_end <= 400_000_000_000_000,
                0 <= beg,
                forall|i: int|
                    0 <= i < all@.len() ==> (#[trigger] all@[i])@.symbol == canon_text(
                        sym.code@,
                        sym.market,
                    ) && all@[i]@.period == period@,
            decreases 64 - pages,
        {
            if current_end < start_ts {
                break ;
            }
            let page_end = if current_end < 0 {
                0
            } else {
                current_end
            };
            let page = match fetch_kline_page(
                &self.config.eastmoney,
                &sym,
                ktype,
                beg,
                page_end,
                &period_vec,
            ) {
                Ok(p) => p,
                Err(e) => {
                    page_err = Some(e);
                    break ;
                },
            };
            if page.len() == 0 {
                break ;
            }
            // The earliest timestamp of the page drives the next page end.
            let mut min_ts = page[0].timestamp;
            let mut t: usize = 1;
            while t < page.len()
                invariant
                    t <= page@.len(),
                    page@.len() > 0,
                    -300_000_000_000_000 <= min_ts <= 300_000_000_000_000,
                    forall|i: int|
                        0 <= i < page@.len() ==> -300_000_000_000_000 <= (
                        #[trigger] page@[i]).timestamp <= 300_000_000_000_000,
                decreases page@.len() - t,
            {
                if page[t].timestamp < min_ts {
                    min_ts = page[t].timestamp;
                }
                t = t + 1;
            }
            let mut u: usize = 0;
            while u < page.len()
                invariant
                    u <= page@.len(),
                    symbol_wf(sym.code@),
                    period_vec@ == period@,
                    forall|i: int|
                        0 <= i < page@.len() ==> (#[trigger] page@[i])@.symbol == canon_text(
                            sym.code@,
                            sym.market,
                        ) && page@[i]@.period == period@,
                    forall|i: int|
                        0 <= i < all@.len() ==> (#[trigger] all@[i])@.symbol == canon_text(
                            sym.code@,
                            sym.market,
                        ) && all@[i]@.period == period@,
                decreases page@.len() - u,
            {
                let bar = crate::models::clone_kline(&page[u]);
                all.push(bar);
                u = u + 1;
            }
            if min_ts - 1 < current_end {
                current_end = min_ts - 1;
            } else {
                break ;
            }
            pages = pages + 1;
        }
        match page_err {
            Some(e) => {
                let mut fails: Vec<FailureRecord> = Vec::new();
                fails.push(FailureRecord { provider: ProviderId::EastMoney, error: e });
                return Err(FetchError::DataSource(fails));
            },
            None => {},
        }
        let merged = dedup_sort_bars(all);
        proof {
            assert forall|i: int| 0 <= i < merged@.len() implies (#[trigger] merged@[i])@.symbol
                == canon_text(sym.code@, sym.market) && merged@[i]@.period == period@ by {
                assert(bars_from(merged@, all@));
            }
        }
        let payload = Payload::Klines(clone_klines(&merged));
        self.cache_data(&key, &payload, now, 3_600_000);
        assert(payload@ == PayloadV::Klines(merged@.map_values(|k: Kline| k@)));
        Ok(merged)
    }

    /// Fetches order-book depth: cache first, then the depth provider; a
    /// success is cached for thirty seconds.
    pub fn get_market_depth(&mut self, symbol: &[u8], now: i64) -> (r: Result<
        MarketDepth,
        FetchError,
    >)
        requires
            cache_wf(old(self).cache@),
            config_wf(old(self).config),
            0 <= now <= CACHE_TIME_MAX - 3_600_000_000,
        ensures
            cache_wf(final(self).cache@),
            final(self).config == old(self).config,
            match r {
                Ok(d) => norm_spec(symbol@) is Some && {
                    let (code, market) = norm_spec(symbol@)->Some_0;
                    let key = depth_key_spec(canon_text(code, market));
                    ||| (lookup_spec(old(self).cache@, key, now as int) == Some(
                        PayloadV::Depth(d@),
                    ) && final(self).cache@ == evict_spec(old(self).cache@, now as int))
                    ||| (final(self).cache@ == insert_spec(
                        evict_spec(old(self).cache@, now as int),
                        EntryV {
                            key,
                            payload: PayloadV::Depth(d@),
                            created_at: now as int,
                            ttl: 30_000,
                        },
                    ) && d@.symbol == canon_text(code, market) && d@.timestamp == now && (
                    forall|i: int|
                        0 <= i < d@.bids.len() ==> (#[trigger] d@.bids[i]).0.raw > 0
                            && d@.bids[i].1.raw > 0) && (forall|i: int|
                        0 <= i < d@.asks.len() ==> (#[trigger] d@.asks[i]).0.raw > 0
                            && d@.asks[i].1.raw > 0))
                },
                Err(FetchError::InvalidSymbol(s)) => norm_spec(symbol@) is None && s@ == symbol@
                    && final(self).cache@ == old(self).cache@,
                Err(FetchError::DataSource(fails)) => final(self).cache@ == evict_spec(
                    old(self).cache@,
                    now as int,
                ) && fails@.len() == 1,
                _ => false,
            },
            // A live cached depth takes precedence: it is returned as it
            // stands and the cache is only expiry-swept.
            norm_spec(symbol@) is Some ==> (match depth_hit(
                old(self).cache@,
                depth_key_spec(
                    canon_text(norm_spec(symbol@)->Some_0.0, norm_spec(symbol@)->Some_0.1),
                ),
                now as int,
            ) {
                Some(dv) => r matches Ok(d) && d@ == dv && final(self).cache@ == evict_spec(
                    old(self).cache@,
                    now as int,
                ),
                None => true,
            }),
    {
        let sym = match normalize_symbol(symbol) {
            Some(s) => s,
            None => {
                let mut copy: Vec<u8> = Vec::new();
                push_bytes(&mut copy, symbol);
                assert(copy@ =~= symbol@);
                return Err(FetchError::InvalidSymbol(copy));
            },
        };
        let sym_text = sym.text();
        let key = depth_key(&sym_text);
        let cached = self.get_from_cache(&key, now);
        match &cached {
            Some(Payload::Depth(d)) => {
                return Ok(crate::models::clone_depth(d));
            },
            _ => {},
        }
        proof {
            match cached {
                Some(p) => {
                    assert(lookup_spec(old(self).cache@, key@, now as int) == Some(p@));
                    assert(!(p@ is Depth));
                },
                None => {},
            }
            assert(depth_hit(old(self).cache@, key@, now as int) is None);
        }
        match fetch_depth_eastmoney(&self.config.eastmoney, &sym, now) {
            Ok(d) => {
                let payload = Payload::Depth(crate::models::clone_depth(&d));
                self.cache_data(&key, &payload, now, 30_000);
                Ok(d)
            },
            Err(e) => {
                let mut fails: Vec<FailureRecord> = Vec::new();
                fails.push(FailureRecord { provider: ProviderId::EastMoney, error: e });
                Err(FetchError::DataSource(fails))
            },
        }
    }

    /// Fetches recent trade prints: cache first, then the trades provider;
    /// a success is cached for ten seconds.  The caller supplies today's
    /// date, which timestamps the prints.
    pub fn get_recent_trades(&mut self, symbol: &[u8], limit: u32, now: i64, today: &Date) -> (r:
        Result<Vec<Trade>, FetchError>)
        requires
            cache_wf(old(self).cache@),
            config_wf(old(self).config),
            date_wf(*today),
            0 <= now <= CACHE_TIME_MAX - 3_600_000_000,
        ensures
            cache_wf(final(self).cache@),
            final(self).config == old(self).config,
            match r {
                Ok(ts) => norm_spec(symbol@) is Some && {
                    let (code, market) = norm_spec(symbol@)->Some_0;
                    let key = trades_key_spec(canon_text(code, market), limit);
                    let pv = PayloadV::Trades(ts@.map_values(|t: Trade| t@));
                    ||| (lookup_spec(old(self).cache@, key, now as int) == Some(pv) && final(self).cache@ == evict_spec(old(self).cache@, now as int))
                    ||| (final(self).cache@ == insert_spec(
                        evict_spec(old(self).cache@, now as int),
                        EntryV {
                            key,
                            payload: pv,
                            created_at: now as int,
                            ttl: 10_000,
                        },
                    ) && (forall|i: int|
                        0 <= i < ts@.len() ==> (#[trigger] ts@[i])@.symbol == canon_text(
                            code,
                            market,
                        )))
                },
                Err(FetchError::InvalidSymbol(s)) => norm_spec(symbol@) is None && s@ == symbol@
                    && final(self).cache@ == old(self).cache@,
                Err(FetchError::DataSource(fails)) => final(self).cache@ == evict_spec(
                    old(self).cache@,
                    now as int,
                ) && fails@.len() == 1,
                _ => false,
            },
            // A live cached print list takes precedence: it is returned as
            // it stands and the cache is only expiry-swept.
            norm_spec(symbol@) is Some ==> (match trades_hit(
                old(self).cache@,
                trades_key_spec(
                    canon_text(norm_spec(symbol@)->Some_0.0, norm_spec(symbol@)->Some_0.1),
                    limit,
                ),
                now as int,
            ) {
                Some(tsv) => r matches Ok(ts) && ts@.map_values(|t: Trade| t@) == tsv && final(self).cache@ == evict_spec(old(self).cache@, now as int),
                None => true,
            }),
    {
        let sym = match normalize_symbol(symbol) {
            Some(s) => s,
            None => {
                let mut copy: Vec<u8> = Vec::new();
                push_bytes(&mut copy, symbol);
                assert(copy@ =~= symbol@);
                return Err(FetchError::InvalidSymbol(copy));
            },
        };
        let sym_text = sym.text();
        let key = trades_key(&sym_text, limit);
        let cached = self.get_from_cache(&key, now);
        match &cached {
            Some(Payload::Trades(ts)) => {
                return Ok(clone_trades(ts));
            },
            _ => {},
        }
        proof {
            match cached {
                Some(p) => {
                    assert(lookup_spec(old(self).cache@, key@, now as int) == Some(p@));
                    assert(!(p@ is Trades));
                },
                None => {},
            }
            assert(trades_hit(old(self).cache@, key@, now as int) is None);
        }
        match fetch_trades_eastmoney(&self.config.eastmoney, &sym, limit, today) {
            Ok(ts) => {
                let payload = Payload::Trades(clone_trades(&ts));
                self.cache_data(&key, &payload, now, 10_000);
                assert(payload@ == PayloadV::Trades(ts@.map_values(|t: Trade| t@)));
                Ok(ts)
            },
            Err(e) => {
                let mut fails: Vec<FailureRecord> = Vec::new();
                fails.push(FailureRecord { provider: ProviderId::EastMoney, error: e });
                Err(FetchError::DataSource(fails))
            },
        }
    }
}

} // verus!
