//! Canonical market-data shapes.
//!
//! Every upstream provider's response is reconciled into these types.
//! Monetary fields are fixed-point decimals; optional fields stay absent
//! when an upstream does not expose them, never silently zero-filled.

use vstd::prelude::*;
use crate::fixed::Fixed;

verus! {

/// A real-time quote.
#[derive(Clone, Debug)]
pub struct Quote {
    pub symbol: Vec<u8>,
    pub timestamp: i64,
    pub price: Fixed,
    pub open: Option<Fixed>,
    pub high: Option<Fixed>,
    pub low: Option<Fixed>,
    pub prev_close: Option<Fixed>,
    pub volume: Option<Fixed>,
    pub amount: Option<Fixed>,
    pub change: Option<Fixed>,
    pub change_pct: Option<Fixed>,
    pub bid_price: Option<Fixed>,
    pub ask_price: Option<Fixed>,
    pub bid_volume: Option<Fixed>,
    pub ask_volume: Option<Fixed>,
}

/// The mathematical value of a quote.
pub struct QuoteV {
    pub symbol: Seq<u8>,
    pub timestamp: i64,
    pub price: Fixed,
    pub open: Option<Fixed>,
    pub high: Option<Fixed>,
    pub low: Option<Fixed>,
    pub prev_close: Option<Fixed>,
    pub volume: Option<Fixed>,
    pub amount: Option<Fixed>,
    pub change: Option<Fixed>,
    pub change_pct: Option<Fixed>,
    pub bid_price: Option<Fixed>,
    pub ask_price: Option<Fixed>,
    pub bid_volume: Option<Fixed>,
    pub ask_volume: Option<Fixed>,
}

impl View for Quote {
    type V = QuoteV;

    open spec fn view(&self) -> QuoteV {
        QuoteV {
            symbol: self.symbol@,
            timestamp: self.timestamp,
            price: self.price,
            open: self.open,
            high: self.high,
            low: self.low,
            prev_close: self.prev_close,
            volume: self.volume,
            amount: self.amount,
            change: self.change,
            change_pct: self.change_pct,
            bid_price: self.bid_price,
            ask_price: self.ask_price,
            bid_volume: self.bid_volume,
            ask_volume: self.ask_volume,
        }
    }
}

/// One bar of a K-line series.
#[derive(Clone, Debug)]
pub struct Kline {
    pub symbol: Vec<u8>,
    pub timestamp: i64,
    pub open: Fixed,
    pub high: Fixed,
    pub low: Fixed,
    pub close: Fixed,
    pub volume: Fixed,
    pub amount: Option<Fixed>,
    pub period: Vec<u8>,
}

pub struct KlineV {
    pub symbol: Seq<u8>,
    pub timestamp: i64,
    pub open: Fixed,
    pub high: Fixed,
    pub low: Fixed,
    pub close: Fixed,
    pub volume: Fixed,
    pub amount: Option<Fixed>,
    pub period: Seq<u8>,
}

impl View for Kline {
    type V = KlineV;

    open spec fn view(&self) -> KlineV {
        KlineV {
            symbol: self.symbol@,
            timestamp: self.timestamp,
            open: self.open,
            high: self.high,
            low: self.low,
            close: self.close,
            volume: self.volume,
            amount: self.amount,
            period: self.period@,
        }
    }
}

/// Order-book depth: bid and ask levels, best first, only positive prices
/// and volumes.
#[derive(Clone, Debug)]
pub struct MarketDepth {
    pub symbol: Vec<u8>,
    pub timestamp: i64,
    pub bids: Vec<(Fixed, Fixed)>,
    pub asks: Vec<(Fixed, Fixed)>,
}

pub struct MarketDepthV {
    pub symbol: Seq<u8>,
    pub timestamp: i64,
    pub bids: Seq<(Fixed, Fixed)>,
    pub asks: Seq<(Fixed, Fixed)>,
}

impl View for MarketDepth {
    type V = MarketDepthV;

    open spec fn view(&self) -> MarketDepthV {
        MarketDepthV {
            symbol: self.symbol@,
            timestamp: self.timestamp,
            bids: self.bids@,
            asks: self.asks@,
        }
    }
}

#[derive(Clone, Copy, Debug, PartialEq, Eq, Structural)]
pub enum TradeSide {
    Buy,
    Sell,
}

/// One trade print.
#[derive(Clone, Debug)]
pub struct Trade {
    pub trade_id: Vec<u8>,
    pub symbol: Vec<u8>,
    pub timestamp: i64,
    pub price: Fixed,
    pub volume: Fixed,
    pub side: TradeSide,
    pub trade_type: Option<Vec<u8>>,
}

pub struct TradeV {
    pub trade_id: Seq<u8>,
    pub symbol: Seq<u8>,
    pub timestamp: i64,
    pub price: Fixed,
    pub volume: Fixed,
    pub side: TradeSide,
    pub trade_type: Option<Seq<u8>>,
}

impl View for Trade {
    type V = TradeV;

    open spec fn view(&self) -> TradeV {
        TradeV {
            trade_id: self.trade_id@,
            symbol: self.symbol@,
            timestamp: self.timestamp,
            price: self.price,
            volume: self.volume,
            side: self.side,
            trade_type: match self.trade_type {
                Some(ref t) => Some(t@),
                None => None,
            },
        }
    }
}

/// What the result cache stores for one request.
#[derive(Clone, Debug)]
pub enum Payload {
    Quote(Quote),
    Klines(Vec<Kline>),
    Depth(MarketDepth),
    Trades(Vec<Trade>),
}

pub enum PayloadV {
    Quote(QuoteV),
    Klines(Seq<KlineV>),
    Depth(MarketDepthV),
    Trades(Seq<TradeV>),
}

impl View for Payload {
    type V = PayloadV;

    open spec fn view(&self) -> PayloadV {
        match self {
            Payload::Quote(q) => PayloadV::Quote(q@),
            Payload::Klines(ks) => PayloadV::Klines(ks@.map_values(|k: Kline| k@)),
            Payload::Depth(d) => PayloadV::Depth(d@),
            Payload::Trades(ts) => PayloadV::Trades(ts@.map_values(|t: Trade| t@)),
        }
    }
}

/// Copies a byte string.
pub fn copy_bytes(s: &Vec<u8>) -> (r: Vec<u8>)
    ensures
        r@ == s@,
{
    let mut out: Vec<u8> = Vec::new();
    crate::text::push_bytes(&mut out, s.as_slice());
    assert(out@ =~= s@);
    out
}

/// Deep copy of a quote: the cache never hands out aliases.
pub fn clone_quote(q: &Quote) -> (r: Quote)
    ensures
        r@ == q@,
{
    let r = Quote {
        symbol: copy_bytes(&q.symbol),
        timestamp: q.timestamp,
        price: q.price,
        open: q.open,
        high: q.high,
        low: q.low,
        prev_close: q.prev_close,
        volume: q.volume,
        amount: q.amount,
        change: q.change,
        change_pct: q.change_pct,
        bid_price: q.bid_price,
        ask_price: q.ask_price,
        bid_volume: q.bid_volume,
        ask_volume: q.ask_volume,
    };
    r
}

pub fn clone_kline(k: &Kline) -> (r: Kline)
    ensures
        r@ == k@,
{
    Kline {
        symbol: copy_bytes(&k.symbol),
        timestamp: k.timestamp,
        open: k.open,
        high: k.high,
        low: k.low,
        close: k.close,
        volume: k.volume,
        amount: k.amount,
        period: copy_bytes(&k.period),
    }
}

pub fn clone_klines(ks: &Vec<Kline>) -> (r: Vec<Kline>)
    ensures
        r@.map_values(|k: Kline| k@) == ks@.map_values(|k: Kline| k@),
{
    let mut out: Vec<Kline> = Vec::new();
    let mut i: usize = 0;
    while i < ks.len()
        invariant
            i <= ks@.len(),
            out@.len() == i,
            forall|j: int| 0 <= j < i ==> (#[trigger] out@[j])@ == ks@[j]@,
        decreases ks@.len() - i,
    {
        out.push(clone_kline(&ks[i]));
        i = i + 1;
    }
    assert(out@.map_values(|k: Kline| k@) =~= ks@.map_values(|k: Kline| k@));
    out
}

pub fn clone_depth(d: &MarketDepth) -> (r: MarketDepth)
    ensures
        r@ == d@,
{
    let mut bids: Vec<(Fixed, Fixed)> = Vec::new();
    let mut i: usize = 0;
    while i < d.bids.len()
        invariant
            i <= d.bids@.len(),
            bids@ == d.bids@.take(i as int),
        decreases d.bids@.len() - i,
    {
        bids.push(d.bids[i]);
        assert(d.bids@.take(i + 1 as int) =~= d.bids@.take(i as int).push(d.bids@[i as int]));
        i = i + 1;
    }
    assert(bids@ =~= d.bids@);
    let mut asks: Vec<(Fixed, Fixed)> = Vec::new();
    let mut j: usize = 0;
    while j < d.asks.len()
        invariant
            j <= d.asks@.len(),
            asks@ == d.asks@.take(j as int),
        decreases d.asks@.len() - j,
    {
        asks.push(d.asks[j]);
        assert(d.asks@.take(j + 1 as int) =~= d.asks@.take(j as int).push(d.asks@[j as int]));
        j = j + 1;
    }
    assert(asks@ =~= d.asks@);
    MarketDepth { symbol: copy_bytes(&d.symbol), timestamp: d.timestamp, bids, asks }
}

pub fn clone_trade(t: &Trade) -> (r: Trade)
    ensures
        r@ == t@,
{
    Trade {
        trade_id: copy_bytes(&t.trade_id),
        symbol: copy_bytes(&t.symbol),
        timestamp: t.timestamp,
        price: t.price,
        volume: t.volume,
        side: t.side,
        trade_type: match &t.trade_type {
            Some(tt) => Some(copy_bytes(tt)),
            None => None,
        },
    }
}

pub fn clone_trades(ts: &Vec<Trade>) -> (r: Vec<Trade>)
    ensures
        r@.map_values(|t: Trade| t@) == ts@.map_values(|t: Trade| t@),
{
    let mut out: Vec<Trade> = Vec::new();
    let mut i: usize = 0;
    while i < ts.len()
        invariant
            i <= ts@.len(),
            out@.len() == i,
            forall|j: int| 0 <= j < i ==> (#[trigger] out@[j])@ == ts@[j]@,
        decreases ts@.len() - i,
    {
        out.push(clone_trade(&ts[i]));
        i = i + 1;
    }
    assert(out@.map_values(|t: Trade| t@) =~= ts@.map_values(|t: Trade| t@));
    out
}

/// Deep copy of a cached payload.
pub fn clone_payload(p: &Payload) -> (r: Payload)
    ensures
        r@ == p@,
{
    match p {
        Payload::Quote(q) => Payload::Quote(clone_quote(q)),
        Payload::Klines(ks) => Payload::Klines(clone_klines(ks)),
        Payload::Depth(d) => Payload::Depth(clone_depth(d)),
        Payload::Trades(ts) => Payload::Trades(clone_trades(ts)),
    }
}

} // verus!
