//! Upstream provider adapters.
//!
//! Each adapter knows one upstream's request shape and field layout and
//! reconciles its response into the canonical quote, bar, depth and trade
//! shapes.  Responses reach this module as plain text; everything decided
//! about that text — scalar decoding, bar and trade line grammar, level
//! filtering, the embedded-script unwrap — is verified against exact
//! specifications.

use vstd::prelude::*;
use vstd::string::{StrSliceExecFns, StringSliceAdditionalSpecFns};
use crate::dates::{parse_date_spec, parse_time_spec, ts_of, Date, parse_date, parse_time};
use crate::fixed::{parse_fixed, parse_fixed_spec, Fixed};
use crate::http::http_get_text;
use crate::json::{json_as_array, json_as_str, json_get, json_is_object, json_number_text, json_parse};
use crate::models::{Kline, KlineV, MarketDepth, Quote, Trade, TradeSide};
use crate::symbol::{canon_text, symbol_wf, CanonicalSymbol};
use crate::text::{push_bytes, push_u64, split_byte, split_vec};

verus! {

/// One upstream's reachability settings.
#[derive(Clone, Debug)]
pub struct ProviderConfig {
    pub enabled: bool,
    pub base_url: Vec<u8>,
    pub user_agent: Vec<u8>,
}

/// Why one adapter attempt failed.
#[derive(Clone, Debug)]
pub enum ProviderError {
    /// The transport failed; the display text of the error.
    Http(Vec<u8>),
    /// The response was not the shape the upstream documents.
    BadResponse(Vec<u8>),
    /// The upstream reported no content.
    DataNotFound(Vec<u8>),
    /// A mandatory field could not be decoded.
    InvalidData(Vec<u8>),
}

/// The providers, in the fallback priority order the fetcher uses.
#[derive(Clone, Copy, Debug, PartialEq, Eq, Structural)]
pub enum ProviderId {
    EastMoney,
    Baidu,
    Sina,
}

/// The bytes of a string.
pub fn string_bytes(s: &String) -> (r: Vec<u8>)
    ensures
        r@ == vstd::utf8::encode_utf8(s@),
{
    s.as_str().as_bytes_vec()
}

/// A short ASCII tag for an error message.
fn msg(text: &str) -> (r: Vec<u8>)
    ensures
        r@ == text.spec_bytes(),
        r@ == vstd::utf8::encode_utf8(text@),
{
    text.as_bytes_vec()
}

/// The member of a JSON object read as decimal text and decoded to a
/// fixed-point number: a string member is decoded from its content, a
/// numeric member from its decimal text; a missing member yields `None`,
/// an undecodable one `Some(Err)`.
pub(crate) fn get_fixed_opt(data: &serde_json::Value, key: &str) -> (r: Option<
    Result<Fixed, ()>,
>) {
    match json_get(data, key) {
        None => None,
        Some(v) => {
            let text: String = match json_as_str(v) {
                Some(s) => s,
                None => match json_number_text(v) {
                    Some(s) => s,
                    None => {
                        return Some(Err(()));
                    },
                },
            };
            match parse_fixed(text.as_str().as_bytes()) {
                Some(f) => Some(Ok(f)),
                None => Some(Err(())),
            }
        },
    }
}

/// An optional quote field: a missing member is an empty optional, never
/// zero-filled; a member that is present but will not decode is a hard
/// failure for the field.
pub(crate) fn get_optional(data: &serde_json::Value, key: &str) -> (r: Result<Option<Fixed>, ()>) {
    match get_fixed_opt(data, key) {
        None => Ok(None),
        Some(Ok(f)) => Ok(Some(f)),
        Some(Err(_)) => Err(()),
    }
}

/// An order-book level component: a level whose member is absent or will
/// not decode is dropped with its level, as the level filter expects.
pub(crate) fn get_opt_field(data: &serde_json::Value, key: &str) -> (r: Option<Fixed>) {
    match get_fixed_opt(data, key) {
        Some(Ok(f)) => Some(f),
        _ => None,
    }
}

/// The `fNN` field key of an upstream field number.
fn fkey(n: u64) -> (r: String) {
    let mut b: Vec<u8> = Vec::new();
    b.push(102);
    push_u64(&mut b, n);
    proof {
        lemma_dec_digits_ascii(n as nat);
    }
    crate::strconv::bytes_to_string(&b)
}

/// Decimal digits are ASCII.
proof fn lemma_dec_digits_ascii(n: nat)
    ensures
        crate::strconv::ascii_bytes(crate::text::dec_digits(n)),
    decreases n,
{
    if n >= 10 {
        lemma_dec_digits_ascii(n / 10);
        assert(forall|i: int|
            0 <= i < crate::text::dec_digits(n / 10).len()
                ==> #[trigger] crate::text::dec_digits(n)[i] == crate::text::dec_digits(n / 10)[i]);
    }
}

/// The comma-separated field list `fLO,fLO+1,...,fHI` of an upstream query.
pub open spec fn field_list_spec(lo: nat, hi: nat) -> Seq<u8>
    decreases hi - lo,
{
    if lo >= hi {
        seq![102u8] + crate::text::dec_digits(lo)
    } else {
        seq![102u8] + crate::text::dec_digits(lo) + seq![44u8] + field_list_spec(lo + 1, hi)
    }
}

/// Builds the field list, exactly as `field_list_spec` describes.
fn field_list(lo: u64, hi: u64) -> (r: Vec<u8>)
    requires
        lo <= hi <= 1000,
    ensures
        r@ == field_list_spec(lo as nat, hi as nat),
    decreases hi - lo,
{
    let mut out: Vec<u8> = Vec::new();
    out.push(102);
    push_u64(&mut out, lo);
    if lo < hi {
        out.push(44);
        let rest = field_list(lo + 1, hi);
        push_bytes(&mut out, rest.as_slice());
    }
    assert(out@ =~= field_list_spec(lo as nat, hi as nat));
    out
}

/// The numeric market id as upstream requests carry it.
pub open spec fn market_num(m: crate::symbol::Market) -> nat {
    if m == crate::symbol::Market::Shenzhen {
        0nat
    } else {
        1nat
    }
}

/// The `market.code` pair every EastMoney request addresses.
pub open spec fn secid_bytes(m: crate::symbol::Market, code: Seq<u8>) -> Seq<u8> {
    crate::text::dec_digits(market_num(m)) + seq![46u8] + code
}

/// The EastMoney quote request URL.
pub open spec fn em_quote_url_spec(base: Seq<u8>, m: crate::symbol::Market, code: Seq<u8>) -> Seq<
    u8,
> {
    base + "/api/qt/stock/get?secid=".spec_bytes() + secid_bytes(m, code)
        + "&fields=".spec_bytes() + field_list_spec(43, 300)
}

/// Builds the quote URL, exactly as `em_quote_url_spec` describes.
pub(crate) fn em_quote_url(base: &Vec<u8>, sym: &CanonicalSymbol) -> (r: Vec<u8>)
    ensures
        r@ == em_quote_url_spec(base@, sym.market, sym.code@),
{
    let mut url: Vec<u8> = Vec::new();
    push_bytes(&mut url, base.as_slice());
    push_bytes(&mut url, "/api/qt/stock/get?secid=".as_bytes());
    push_u64(&mut url, sym.market_id() as u64);
    url.push(46);
    push_bytes(&mut url, sym.code.as_slice());
    push_bytes(&mut url, "&fields=".as_bytes());
    let fields = field_list(43, 300);
    push_bytes(&mut url, fields.as_slice());
    assert(url@ =~= em_quote_url_spec(base@, sym.market, sym.code@));
    url
}

/// The EastMoney K-line request URL for one backward page.
pub open spec fn em_kline_url_spec(
    base: Seq<u8>,
    m: crate::symbol::Market,
    code: Seq<u8>,
    ktype: nat,
    beg: nat,
    end: nat,
) -> Seq<u8> {
    base + "/api/qt/stock/kline/get?secid=".spec_bytes() + secid_bytes(m, code)
        + "&klt=".spec_bytes() + crate::text::dec_digits(ktype) + "&fqt=0&beg=".spec_bytes()
        + crate::text::dec_digits(beg) + "&end=".spec_bytes() + crate::text::dec_digits(end)
        + "&smplmt=1000".spec_bytes()
}

/// Builds a page URL, exactly as `em_kline_url_spec` describes.
pub(crate) fn em_kline_url(
    base: &Vec<u8>,
    sym: &CanonicalSymbol,
    ktype: u32,
    beg: i64,
    end: i64,
) -> (r: Vec<u8>)
    requires
        0 <= beg,
        0 <= end,
    ensures
        r@ == em_kline_url_spec(
            base@,
            sym.market,
            sym.code@,
            ktype as nat,
            beg as nat,
            end as nat,
        ),
{
    let mut url: Vec<u8> = Vec::new();
    push_bytes(&mut url, base.as_slice());
    push_bytes(&mut url, "/api/qt/stock/kline/get?secid=".as_bytes());
    push_u64(&mut url, sym.market_id() as u64);
    url.push(46);
    push_bytes(&mut url, sym.code.as_slice());
    push_bytes(&mut url, "&klt=".as_bytes());
    push_u64(&mut url, ktype as u64);
    push_bytes(&mut url, "&fqt=0&beg=".as_bytes());
    push_u64(&mut url, beg as u64);
    push_bytes(&mut url, "&end=".as_bytes());
    push_u64(&mut url, end as u64);
    push_bytes(&mut url, "&smplmt=1000".as_bytes());
    assert(url@ =~= em_kline_url_spec(
        base@,
        sym.market,
        sym.code@,
        ktype as nat,
        beg as nat,
        end as nat,
    ));
    url
}

/// The EastMoney order-book request URL.
pub open spec fn em_depth_url_spec(base: Seq<u8>, m: crate::symbol::Market, code: Seq<u8>) -> Seq<
    u8,
> {
    base + "/api/qt/bdata/get?secid=".spec_bytes() + secid_bytes(m, code) + "&fields=".spec_bytes()
        + field_list_spec(1, 100)
}

/// Builds the depth URL, exactly as `em_depth_url_spec` describes.
pub(crate) fn em_depth_url(base: &Vec<u8>, sym: &CanonicalSymbol) -> (r: Vec<u8>)
    ensures
        r@ == em_depth_url_spec(base@, sym.market, sym.code@),
{
    let mut url: Vec<u8> = Vec::new();
    push_bytes(&mut url, base.as_slice());
    push_bytes(&mut url, "/api/qt/bdata/get?secid=".as_bytes());
    push_u64(&mut url, sym.market_id() as u64);
    url.push(46);
    push_bytes(&mut url, sym.code.as_slice());
    push_bytes(&mut url, "&fields=".as_bytes());
    let fields = field_list(1, 100);
    push_bytes(&mut url, fields.as_slice());
    assert(url@ =~= em_depth_url_spec(base@, sym.market, sym.code@));
    url
}

/// The EastMoney recent-trades request URL.
pub open spec fn em_trades_url_spec(
    base: Seq<u8>,
    m: crate::symbol::Market,
    code: Seq<u8>,
    limit: nat,
) -> Seq<u8> {
    base + "/api/qt/stock/tradedetail/get?secid=".spec_bytes() + secid_bytes(m, code)
        + "&num=".spec_bytes() + crate::text::dec_digits(limit)
}

/// Builds the trades URL, exactly as `em_trades_url_spec` describes.
pub(crate) fn em_trades_url(base: &Vec<u8>, sym: &CanonicalSymbol, limit: u32) -> (r: Vec<u8>)
    ensures
        r@ == em_trades_url_spec(base@, sym.market, sym.code@, limit as nat),
{
    let mut url: Vec<u8> = Vec::new();
    push_bytes(&mut url, base.as_slice());
    push_bytes(&mut url, "/api/qt/stock/tradedetail/get?secid=".as_bytes());
    push_u64(&mut url, sym.market_id() as u64);
    url.push(46);
    push_bytes(&mut url, sym.code.as_slice());
    push_bytes(&mut url, "&num=".as_bytes());
    push_u64(&mut url, limit as u64);
    assert(url@ =~= em_trades_url_spec(base@, sym.market, sym.code@, limit as nat));
    url
}

/// The Baidu quote request URL.
pub open spec fn baidu_quote_url_spec(base: Seq<u8>, code: Seq<u8>) -> Seq<u8> {
    base + "/selfselect/getstockquotation?code=".spec_bytes() + code
        + "&all=1&ktype=1&isIndex=false&isBk=false&isBlock=false&isFutures=false&stockType=ab&group=quotation_kline_ab&finClientType=pc".spec_bytes()
}

/// Builds the Baidu quote URL, exactly as `baidu_quote_url_spec` describes.
pub(crate) fn baidu_quote_url(base: &Vec<u8>, sym: &CanonicalSymbol) -> (r: Vec<u8>)
    ensures
        r@ == baidu_quote_url_spec(base@, sym.code@),
{
    let mut url: Vec<u8> = Vec::new();
    push_bytes(&mut url, base.as_slice());
    push_bytes(&mut url, "/selfselect/getstockquotation?code=".as_bytes());
    let code = sym.baidu_code();
    push_bytes(&mut url, code.as_slice());
    push_bytes(
        &mut url,
        "&all=1&ktype=1&isIndex=false&isBk=false&isBlock=false&isFutures=false&stockType=ab&group=quotation_kline_ab&finClientType=pc".as_bytes(),
    );
    assert(url@ =~= baidu_quote_url_spec(base@, sym.code@));
    url
}

/// The Sina quote request URL.
pub open spec fn sina_quote_url_spec(base: Seq<u8>, code: Seq<u8>, m: crate::symbol::Market) -> Seq<
    u8,
> {
    base + "/listview/".spec_bytes() + crate::symbol::sina_code_spec(code, m) + ".js".spec_bytes()
}

/// Builds the Sina quote URL, exactly as `sina_quote_url_spec` describes.
pub(crate) fn sina_quote_url(base: &Vec<u8>, sym: &CanonicalSymbol) -> (r: Vec<u8>)
    ensures
        r@ == sina_quote_url_spec(base@, sym.code@, sym.market),
{
    let mut url: Vec<u8> = Vec::new();
    push_bytes(&mut url, base.as_slice());
    push_bytes(&mut url, "/listview/".as_bytes());
    let code = sym.sina_code();
    push_bytes(&mut url, code.as_slice());
    push_bytes(&mut url, ".js".as_bytes());
    assert(url@ =~= sina_quote_url_spec(base@, sym.code@, sym.market));
    url
}

/// Builds the canonical quote from one provider's parsed object, reading
/// the numeric field codes EastMoney and Baidu share.  A missing optional
/// member stays absent; a present member that will not decode is a hard
/// failure for the field.
fn quote_from_em_object(data: &serde_json::Value, sym: &CanonicalSymbol, now: i64, depth_fields: bool) -> (r:
    Result<Quote, ProviderError>)
    requires
        symbol_wf(sym.code@),
    ensures
        match r {
            Ok(q) => q@.symbol == canon_text(sym.code@, sym.market) && q@.timestamp == now && (
            !depth_fields ==> (q@.bid_price is None && q@.ask_price is None
                && q@.bid_volume is None && q@.ask_volume is None)),
            Err(_) => true,
        },
{
    let price = match get_fixed_opt(data, "f43") {
        Some(Ok(f)) => f,
        Some(Err(_)) => {
            return Err(ProviderError::InvalidData(msg("price field f43")));
        },
        None => {
            return Err(ProviderError::DataNotFound(msg("missing key f43")));
        },
    };
    let open = match get_optional(data, "f46") {
        Ok(v) => v,
        Err(_) => {
            return Err(ProviderError::InvalidData(msg("field f46")));
        },
    };
    let high = match get_optional(data, "f44") {
        Ok(v) => v,
        Err(_) => {
            return Err(ProviderError::InvalidData(msg("field f44")));
        },
    };
    let low = match get_optional(data, "f45") {
        Ok(v) => v,
        Err(_) => {
            return Err(ProviderError::InvalidData(msg("field f45")));
        },
    };
    let prev_close = match get_optional(data, "f47") {
        Ok(v) => v,
        Err(_) => {
            return Err(ProviderError::InvalidData(msg("field f47")));
        },
    };
    let volume = match get_optional(data, "f48") {
        Ok(v) => v,
        Err(_) => {
            return Err(ProviderError::InvalidData(msg("field f48")));
        },
    };
    let amount = match get_optional(data, "f49") {
        Ok(v) => v,
        Err(_) => {
            return Err(ProviderError::InvalidData(msg("field f49")));
        },
    };
    let change = match get_optional(data, "f134") {
        Ok(v) => v,
        Err(_) => {
            return Err(ProviderError::InvalidData(msg("field f134")));
        },
    };
    let change_pct = match get_optional(data, "f135") {
        Ok(v) => v,
        Err(_) => {
            return Err(ProviderError::InvalidData(msg("field f135")));
        },
    };
    let bid_price = if depth_fields {
        match get_optional(data, "f18") {
            Ok(v) => v,
            Err(_) => {
                return Err(ProviderError::InvalidData(msg("field f18")));
            },
        }
    } else {
        None
    };
    let ask_price = if depth_fields {
        match get_optional(data, "f19") {
            Ok(v) => v,
            Err(_) => {
                return Err(ProviderError::InvalidData(msg("field f19")));
            },
        }
    } else {
        None
    };
    let bid_volume = if depth_fields {
        match get_optional(data, "f10") {
            Ok(v) => v,
            Err(_) => {
                return Err(ProviderError::InvalidData(msg("field f10")));
            },
        }
    } else {
        None
    };
    let ask_volume = if depth_fields {
        match get_optional(data, "f11") {
            Ok(v) => v,
            Err(_) => {
                return Err(ProviderError::InvalidData(msg("field f11")));
            },
        }
    } else {
        None
    };
    Ok(
        Quote {
            symbol: sym.text(),
            timestamp: now,
            price,
            open,
            high,
            low,
            prev_close,
            volume,
            amount,
            change,
            change_pct,
            bid_price,
            ask_price,
            bid_volume,
            ask_volume,
        },
    )
}

/// Fetches and reconciles a quote from EastMoney.
pub fn fetch_quote_eastmoney(cfg: &ProviderConfig, sym: &CanonicalSymbol, now: i64) -> (r: Result<
    Quote,
    ProviderError,
>)
    requires
        symbol_wf(sym.code@),
    ensures
        match r {
            Ok(q) => q@.symbol == canon_text(sym.code@, sym.market) && q@.timestamp == now,
            Err(_) => true,
        },
{
    let url = em_quote_url(&cfg.base_url, sym);
    let text = match http_get_text(&url, &cfg.user_agent) {
        Ok(t) => t,
        Err(e) => {
            return Err(ProviderError::Http(string_bytes(&e)));
        },
    };
    let json = match json_parse(text.as_str()) {
        Ok(v) => v,
        Err(e) => {
            return Err(ProviderError::BadResponse(string_bytes(&e)));
        },
    };
    let data = match json_get(&json, "data") {
        Some(d) => d,
        None => {
            return Err(ProviderError::DataNotFound(msg("no data for symbol")));
        },
    };
    if !json_is_object(data) {
        return Err(ProviderError::DataNotFound(msg("no data for symbol")));
    }
    quote_from_em_object(data, sym, now, true)
}

/// Fetches and reconciles a quote from Baidu, whose result rows carry the
/// same numeric field codes without order-book fields.
pub fn fetch_quote_baidu(cfg: &ProviderConfig, sym: &CanonicalSymbol, now: i64) -> (r: Result<
    Quote,
    ProviderError,
>)
    requires
        symbol_wf(sym.code@),
    ensures
        match r {
            Ok(q) => q@.symbol == canon_text(sym.code@, sym.market) && q@.timestamp == now
                && q@.bid_price is None && q@.ask_price is None && q@.bid_volume is None
                && q@.ask_volume is None,
            Err(_) => true,
        },
{
    let url = baidu_quote_url(&cfg.base_url, sym);
    let text = match http_get_text(&url, &cfg.user_agent) {
        Ok(t) => t,
        Err(e) => {
            return Err(ProviderError::Http(string_bytes(&e)));
        },
    };
    let json = match json_parse(text.as_str()) {
        Ok(v) => v,
        Err(e) => {
            return Err(ProviderError::BadResponse(string_bytes(&e)));
        },
    };
    let result = match json_get(&json, "Result") {
        Some(d) => d,
        None => {
            return Err(ProviderError::DataNotFound(msg("no data for symbol")));
        },
    };
    let rows = match json_as_array(result) {
        Some(a) => a,
        None => {
            return Err(ProviderError::DataNotFound(msg("no data for symbol")));
        },
    };
    if rows.len() == 0 {
        return Err(ProviderError::DataNotFound(msg("no data for symbol")));
    }
    let row = &rows[0];
    if !json_is_object(row) {
        return Err(ProviderError::DataNotFound(msg("no data for symbol")));
    }
    quote_from_em_object(row, sym, now, false)
}

/// The JSON text embedded in Sina's script response: everything after the
/// first `=`, with the trailing `;` removed.
pub open spec fn sina_unwrap_spec(text: Seq<u8>) -> Option<Seq<u8>> {
    let i = crate::text::find_byte(text, 61);
    if i < text.len() {
        let rest = text.skip(i + 1);
        if rest.len() > 0 && rest.last() == 59 {
            Some(rest.drop_last())
        } else {
            None
        }
    } else {
        None
    }
}

/// Unwraps Sina's embedded-script response, exactly as `sina_unwrap_spec`
/// describes.
#[verifier::loop_isolation(false)]
pub fn sina_unwrap(text: &[u8]) -> (r: Option<Vec<u8>>)
    ensures
        match r {
            Some(v) => sina_unwrap_spec(text@) == Some(v@),
            None => sina_unwrap_spec(text@) is None,
        },
{
    let n = text.len();
    let mut i: usize = 0;
    while i < n && text[i] != 61
        invariant
            i <= n == text@.len(),
            forall|j: int| 0 <= j < i ==> text@[j] != 61,
        decreases n - i,
    {
        i = i + 1;
    }
    proof {
        crate::text::lemma_find_byte_at(text@, 61, i as int);
    }
    if i == n {
        return None;
    }
    if i + 1 >= n || text[n - 1] != 59 {
        let ghost rest = text@.skip(i + 1);
        proof {
            if rest.len() > 0 {
                assert(rest.last() == text@[n - 1]);
            }
        }
        return None;
    }
    let mut out: Vec<u8> = Vec::new();
    let mut j = i + 1;
    while j < n - 1
        invariant
            i + 1 <= j <= n - 1,
            n == text@.len(),
            out@ == text@.subrange(i + 1 as int, j as int),
        decreases n - j,
    {
        out.push(text[j]);
        assert(text@.subrange(i + 1 as int, j + 1 as int) =~= text@.subrange(
            i + 1 as int,
            j as int,
        ).push(text@[j as int]));
        j = j + 1;
    }
    proof {
        let rest = text@.skip(i + 1);
        assert(rest.last() == text@[n - 1]);
        assert(out@ =~= rest.drop_last());
    }
    Some(out)
}

/// Fetches and reconciles a quote from Sina, whose response embeds JSON in
/// a script assignment.
pub fn fetch_quote_sina(cfg: &ProviderConfig, sym: &CanonicalSymbol, now: i64) -> (r: Result<
    Quote,
    ProviderError,
>)
    requires
        symbol_wf(sym.code@),
    ensures
        match r {
            Ok(q) => q@.symbol == canon_text(sym.code@, sym.market) && q@.timestamp == now
                && q@.bid_price is None && q@.ask_price is None && q@.bid_volume is None
                && q@.ask_volume is None,
            Err(_) => true,
        },
{
    let url = sina_quote_url(&cfg.base_url, sym);
    let text = match http_get_text(&url, &cfg.user_agent) {
        Ok(t) => t,
        Err(e) => {
            return Err(ProviderError::Http(string_bytes(&e)));
        },
    };
    let body = string_bytes(&text);
    let json_bytes = match sina_unwrap(body.as_slice()) {
        Some(v) => v,
        None => {
            return Err(ProviderError::InvalidData(msg("unexpected response script shape")));
        },
    };
    let json_text = crate::strconv::bytes_to_string(&json_bytes);
    let json = match json_parse(json_text.as_str()) {
        Ok(v) => v,
        Err(e) => {
            return Err(ProviderError::BadResponse(string_bytes(&e)));
        },
    };
    let data = match json_get(&json, "data") {
        Some(d) => d,
        None => {
            return Err(ProviderError::DataNotFound(msg("no data for symbol")));
        },
    };
    let rows = match json_as_array(data) {
        Some(a) => a,
        None => {
            return Err(ProviderError::DataNotFound(msg("no data for symbol")));
        },
    };
    if rows.len() == 0 {
        return Err(ProviderError::DataNotFound(msg("no data for symbol")));
    }
    let row = &rows[0];
    let price = match get_fixed_opt(row, "price") {
        Some(Ok(f)) => f,
        Some(Err(_)) => {
            return Err(ProviderError::InvalidData(msg("price field")));
        },
        None => {
            return Err(ProviderError::DataNotFound(msg("missing price")));
        },
    };
    let open = match get_optional(row, "open") {
        Ok(v) => v,
        Err(_) => {
            return Err(ProviderError::InvalidData(msg("field open")));
        },
    };
    let high = match get_optional(row, "high") {
        Ok(v) => v,
        Err(_) => {
            return Err(ProviderError::InvalidData(msg("field high")));
        },
    };
    let low = match get_optional(row, "low") {
        Ok(v) => v,
        Err(_) => {
            return Err(ProviderError::InvalidData(msg("field low")));
        },
    };
    let prev_close = match get_optional(row, "preclose") {
        Ok(v) => v,
        Err(_) => {
            return Err(ProviderError::InvalidData(msg("field preclose")));
        },
    };
    let volume = match get_optional(row, "volume") {
        Ok(v) => v,
        Err(_) => {
            return Err(ProviderError::InvalidData(msg("field volume")));
        },
    };
    let amount = match get_optional(row, "amount") {
        Ok(v) => v,
        Err(_) => {
            return Err(ProviderError::InvalidData(msg("field amount")));
        },
    };
    let change = match get_optional(row, "change") {
        Ok(v) => v,
        Err(_) => {
            return Err(ProviderError::InvalidData(msg("field change")));
        },
    };
    let change_pct = match get_optional(row, "changepercent") {
        Ok(v) => v,
        Err(_) => {
            return Err(ProviderError::InvalidData(msg("field changepercent")));
        },
    };
    Ok(
        Quote {
            symbol: sym.text(),
            timestamp: now,
            price,
            open,
            high,
            low,
            prev_close,
            volume,
            amount,
            change,
            change_pct,
            bid_price: None,
            ask_price: None,
            bid_volume: None,
            ask_volume: None,
        },
    )
}

/// The outcome of reading one bar line of a K-line response.
pub enum LineOutcome {
    /// Too few fields: the line is skipped.
    Short,
    /// A field would not decode: the page is rejected.
    Bad,
    Bar(Kline),
}

/// The spec-level outcome of reading one bar line.
pub enum LineOutcomeV {
    Short,
    Bad,
    Bar(KlineV),
}

/// The timestamp of bar date text: `YYYY-MM-DD` (midnight) or
/// `YYYY-MM-DD HH:MM`.
pub open spec fn datetime_ms_spec(s: Seq<u8>) -> Option<int> {
    if s.len() == 10 {
        match parse_date_spec(s) {
            Some(d) => Some(ts_of(d.year as int, d.month as int, d.day as int, 0, 0, 0)),
            None => None,
        }
    } else if s.len() == 16 && s[10] == 32 {
        match parse_date_spec(s.take(10)) {
            Some(d) => match parse_time_spec(s.skip(11)) {
                Some(t) => Some(
                    ts_of(
                        d.year as int,
                        d.month as int,
                        d.day as int,
                        t.0 as int,
                        t.1 as int,
                        t.2 as int,
                    ),
                ),
                None => None,
            },
            None => None,
        }
    } else {
        None
    }
}

/// Parses bar date text, exactly as `datetime_ms_spec` describes.
pub fn datetime_ms(s: &[u8]) -> (r: Option<i64>)
    ensures
        match r {
            Some(ts) => datetime_ms_spec(s@) == Some(ts as int) && -300_000_000_000_000 <= ts
                <= 300_000_000_000_000,
            None => datetime_ms_spec(s@) is None,
        },
{
    if s.len() == 10 {
        match parse_date(s) {
            Some(d) => Some(crate::dates::date_time_to_ms(&d, 0, 0, 0)),
            None => None,
        }
    } else if s.len() == 16 {
        if s[10] != 32 {
            return None;
        }
        let mut datepart: Vec<u8> = Vec::new();
        let mut timepart: Vec<u8> = Vec::new();
        let mut i: usize = 0;
        while i < 10
            invariant
                i <= 10,
                s@.len() == 16,
                datepart@ == s@.take(10).take(i as int),
            decreases 10 - i,
        {
            datepart.push(s[i]);
            assert(s@.take(10).take(i + 1 as int) =~= s@.take(10).take(i as int).push(
                s@[i as int],
            ));
            i = i + 1;
        }
        assert(datepart@ =~= s@.take(10));
        let mut j: usize = 11;
        while j < 16
            invariant
                11 <= j <= 16,
                s@.len() == 16,
                timepart@ == s@.skip(11).take(j - 11),
            decreases 16 - j,
        {
            timepart.push(s[j]);
            assert(s@.skip(11).take(j - 11 + 1) =~= s@.skip(11).take(j - 11).push(s@[j as int]));
            j = j + 1;
        }
        assert(timepart@ =~= s@.skip(11));
        match parse_date(datepart.as_slice()) {
            Some(d) => match parse_time(timepart.as_slice()) {
                Some(t) => Some(crate::dates::date_time_to_ms(&d, t.0, t.1, t.2)),
                None => None,
            },
            None => None,
        }
    } else {
        None
    }
}

/// The grammar of one bar line: comma-separated
/// `date,open,close,high,low,volume`; shorter lines are skipped, any
/// undecodable field rejects the page.
pub open spec fn kline_line_spec(line: Seq<u8>, symbol: Seq<u8>, period: Seq<u8>) -> LineOutcomeV {
    let fs = split_byte(line, 44);
    if fs.len() < 6 {
        LineOutcomeV::Short
    } else {
        let ts = datetime_ms_spec(fs[0]);
        let open = parse_fixed_spec(fs[1]);
        let close = parse_fixed_spec(fs[2]);
        let high = parse_fixed_spec(fs[3]);
        let low = parse_fixed_spec(fs[4]);
        let vol = parse_fixed_spec(fs[5]);
        if ts is None || open is None || close is None || high is None || low is None
            || vol is None {
            LineOutcomeV::Bad
        } else {
            LineOutcomeV::Bar(
                KlineV {
                    symbol,
                    timestamp: ts->Some_0 as i64,
                    open: Fixed { raw: open->Some_0 as i64 },
                    high: Fixed { raw: high->Some_0 as i64 },
                    low: Fixed { raw: low->Some_0 as i64 },
                    close: Fixed { raw: close->Some_0 as i64 },
                    volume: Fixed { raw: vol->Some_0 as i64 },
                    amount: None,
                    period,
                },
            )
        }
    }
}

/// Reads one bar line, exactly as `kline_line_spec` describes.
pub fn kline_from_line(line: &[u8], sym: &CanonicalSymbol, period: &Vec<u8>) -> (r: LineOutcome)
    requires
        symbol_wf(sym.code@),
    ensures
        ({
            let spec = kline_line_spec(line@, canon_text(sym.code@, sym.market), period@);
            match r {
                LineOutcome::Short => spec is Short,
                LineOutcome::Bad => spec is Bad,
                LineOutcome::Bar(k) => spec == LineOutcomeV::Bar(k@) && -300_000_000_000_000
                    <= k.timestamp <= 300_000_000_000_000,
            }
        }),
{
    let fields = split_vec(line, 44);
    let ghost fs = split_byte(line@, 44);
    assert(fields@.len() == fs.len() && forall|i: int|
        0 <= i < fields@.len() ==> (#[trigger] fields@[i])@ == fs[i]);
    if fields.len() < 6 {
        return LineOutcome::Short;
    }
    let ts = match datetime_ms(fields[0].as_slice()) {
        Some(v) => v,
        None => {
            return LineOutcome::Bad;
        },
    };
    let open = match parse_fixed(fields[1].as_slice()) {
        Some(v) => v,
        None => {
            return LineOutcome::Bad;
        },
    };
    let close = match parse_fixed(fields[2].as_slice()) {
        Some(v) => v,
        None => {
            return LineOutcome::Bad;
        },
    };
    let high = match parse_fixed(fields[3].as_slice()) {
        Some(v) => v,
        None => {
            return LineOutcome::Bad;
        },
    };
    let low = match parse_fixed(fields[4].as_slice()) {
        Some(v) => v,
        None => {
            return LineOutcome::Bad;
        },
    };
    let vol = match parse_fixed(fields[5].as_slice()) {
        Some(v) => v,
        None => {
            return LineOutcome::Bad;
        },
    };
    let bar = Kline {
        symbol: sym.text(),
        timestamp: ts,
        open,
        high,
        low,
        close,
        volume: vol,
        amount: None,
        period: crate::models::copy_bytes(period),
    };
    LineOutcome::Bar(bar)
}

/// Fetches one backward page of bars from EastMoney and reconciles every
/// line; an empty page signals that paging is complete.
pub fn fetch_kline_page(
    cfg: &ProviderConfig,
    sym: &CanonicalSymbol,
    ktype: u32,
    beg: i64,
    end: i64,
    period: &Vec<u8>,
) -> (r: Result<Vec<Kline>, ProviderError>)
    requires
        symbol_wf(sym.code@),
        0 <= beg,
        0 <= end,
    ensures
        match r {
            Ok(bars) => forall|i: int|
                0 <= i < bars@.len() ==> {
                    let b = (#[trigger] bars@[i]);
                    b@.symbol == canon_text(sym.code@, sym.market) && b@.period == period@
                        && -300_000_000_000_000 <= b.timestamp <= 300_000_000_000_000
                },
            Err(_) => true,
        },
{
    let url = em_kline_url(&cfg.base_url, sym, ktype, beg, end);
    let text = match http_get_text(&url, &cfg.user_agent) {
        Ok(t) => t,
        Err(e) => {
            return Err(ProviderError::Http(string_bytes(&e)));
        },
    };
    let json = match json_parse(text.as_str()) {
        Ok(v) => v,
        Err(e) => {
            return Err(ProviderError::BadResponse(string_bytes(&e)));
        },
    };
    let data = match json_get(&json, "data") {
        Some(d) => d,
        None => {
            return Err(ProviderError::DataNotFound(msg("no bar data found")));
        },
    };
    let klines_val = match json_get(data, "klines") {
        Some(d) => d,
        None => {
            return Err(ProviderError::DataNotFound(msg("no bar data found")));
        },
    };
    let lines = match json_as_array(klines_val) {
        Some(a) => a,
        None => {
            return Err(ProviderError::DataNotFound(msg("no bar data found")));
        },
    };
    let mut bars: Vec<Kline> = Vec::new();
    let mut i: usize = 0;
    while i < lines.len()
        invariant
            i <= lines@.len(),
            symbol_wf(sym.code@),
            forall|j: int|
                0 <= j < bars@.len() ==> {
                    let b = (#[trigger] bars@[j]);
                    b@.symbol == canon_text(sym.code@, sym.market) && b@.period == period@
                        && -300_000_000_000_000 <= b.timestamp <= 300_000_000_000_000
                },
        decreases lines@.len() - i,
    {
        let line = match json_as_str(&lines[i]) {
            Some(s) => s,
            None => {
                return Err(ProviderError::InvalidData(msg("bar line is not text")));
            },
        };
        let line_bytes = string_bytes(&line);
        match kline_from_line(line_bytes.as_slice(), sym, period) {
            LineOutcome::Short => {},
            LineOutcome::Bad => {
                return Err(ProviderError::InvalidData(msg("undecodable bar line")));
            },
            LineOutcome::Bar(bar) => {
                bars.push(bar);
            },
        }
        i = i + 1;
    }
    Ok(bars)
}

/// Keeps the levels whose price and volume are both present and positive.
pub open spec fn depth_filter_spec(levels: Seq<(Option<Fixed>, Option<Fixed>)>) -> Seq<
    (Fixed, Fixed),
>
    decreases levels.len(),
{
    if levels.len() == 0 {
        Seq::empty()
    } else {
        let rest = depth_filter_spec(levels.drop_first());
        match (levels[0].0, levels[0].1) {
            (Some(p), Some(v)) => if p.raw > 0 && v.raw > 0 {
                seq![(p, v)] + rest
            } else {
                rest
            },
            _ => rest,
        }
    }
}

/// Filters raw order-book levels, exactly as `depth_filter_spec` describes.
#[verifier::loop_isolation(false)]
pub fn filter_levels(levels: &Vec<(Option<Fixed>, Option<Fixed>)>) -> (r: Vec<(Fixed, Fixed)>)
    ensures
        r@ == depth_filter_spec(levels@),
{
    let mut out: Vec<(Fixed, Fixed)> = Vec::new();
    let mut i: usize = 0;
    assert(levels@.skip(0) =~= levels@);
    assert(out@ + depth_filter_spec(levels@) =~= depth_filter_spec(levels@));
    while i < levels.len()
        invariant
            i <= levels@.len(),
            out@ + depth_filter_spec(levels@.skip(i as int)) == depth_filter_spec(levels@),
        decreases levels@.len() - i,
    {
        let ghost pre = out@;
        let ghost rest = levels@.skip(i as int);
        proof {
            assert(rest[0] == levels@[i as int]);
            assert(rest.drop_first() =~= levels@.skip(i + 1 as int));
        }
        match levels[i] {
            (Some(p), Some(v)) => {
                if p.raw > 0 && v.raw > 0 {
                    out.push((p, v));
                    proof {
                        assert(pre + (seq![(p, v)] + depth_filter_spec(
                            levels@.skip(i + 1 as int),
                        )) =~= out@ + depth_filter_spec(levels@.skip(i + 1 as int)));
                    }
                }
            },
            _ => {},
        }
        i = i + 1;
    }
    assert(levels@.skip(levels@.len() as int) =~= Seq::<(Option<Fixed>, Option<Fixed>)>::empty());
    assert(out@ =~= out@ + depth_filter_spec(levels@.skip(levels@.len() as int)));
    out
}

/// Fetches order-book depth from EastMoney: five bid and five ask levels,
/// keeping only levels with positive price and volume, best first.
pub fn fetch_depth_eastmoney(cfg: &ProviderConfig, sym: &CanonicalSymbol, now: i64) -> (r: Result<
    MarketDepth,
    ProviderError,
>)
    requires
        symbol_wf(sym.code@),
    ensures
        match r {
            Ok(d) => d@.symbol == canon_text(sym.code@, sym.market) && d@.timestamp == now
                && (forall|i: int|
                0 <= i < d@.bids.len() ==> (#[trigger] d@.bids[i]).0.raw > 0 && d@.bids[i].1.raw
                    > 0) && (forall|i: int|
                0 <= i < d@.asks.len() ==> (#[trigger] d@.asks[i]).0.raw > 0 && d@.asks[i].1.raw
                    > 0),
            Err(_) => true,
        },
{
    let url = em_depth_url(&cfg.base_url, sym);
    let text = match http_get_text(&url, &cfg.user_agent) {
        Ok(t) => t,
        Err(e) => {
            return Err(ProviderError::Http(string_bytes(&e)));
        },
    };
    let json = match json_parse(text.as_str()) {
        Ok(v) => v,
        Err(e) => {
            return Err(ProviderError::BadResponse(string_bytes(&e)));
        },
    };
    let data = match json_get(&json, "data") {
        Some(d) => d,
        None => {
            return Err(ProviderError::DataNotFound(msg("no depth data found")));
        },
    };
    if !json_is_object(data) {
        return Err(ProviderError::DataNotFound(msg("no depth data found")));
    }
    // Bid levels: prices f1..f5, volumes f6..f10.
    let mut bid_levels: Vec<(Option<Fixed>, Option<Fixed>)> = Vec::new();
    let mut i: u64 = 0;
    while i < 5
        invariant
            i <= 5,
        decreases 5 - i,
    {
        let pk = fkey(i + 1);
        let vk = fkey(i + 6);
        bid_levels.push((get_opt_field(data, pk.as_str()), get_opt_field(data, vk.as_str())));
        i = i + 1;
    }
    // Ask levels: prices f11..f15, volumes f16..f20.
    let mut ask_levels: Vec<(Option<Fixed>, Option<Fixed>)> = Vec::new();
    let mut j: u64 = 0;
    while j < 5
        invariant
            j <= 5,
        decreases 5 - j,
    {
        let pk = fkey(j + 11);
        let vk = fkey(j + 16);
        ask_levels.push((get_opt_field(data, pk.as_str()), get_opt_field(data, vk.as_str())));
        j = j + 1;
    }
    let bids = filter_levels(&bid_levels);
    let asks = filter_levels(&ask_levels);
    proof {
        lemma_depth_filter_positive(bid_levels@);
        lemma_depth_filter_positive(ask_levels@);
    }
    Ok(MarketDepth { symbol: sym.text(), timestamp: now, bids, asks })
}

/// Every filtered level is positive in both components.
proof fn lemma_depth_filter_positive(levels: Seq<(Option<Fixed>, Option<Fixed>)>)
    ensures
        forall|i: int|
            0 <= i < depth_filter_spec(levels).len() ==> (#[trigger] depth_filter_spec(
                levels,
            )[i]).0.raw > 0 && depth_filter_spec(levels)[i].1.raw > 0,
    decreases levels.len(),
{
    if levels.len() > 0 {
        lemma_depth_filter_positive(levels.drop_first());
        let rest = depth_filter_spec(levels.drop_first());
        match (levels[0].0, levels[0].1) {
            (Some(p), Some(v)) => {
                if p.raw > 0 && v.raw > 0 {
                    let whole = seq![(p, v)] + rest;
                    assert forall|i: int|
                        0 <= i < whole.len() implies (#[trigger] whole[i]).0.raw > 0
                        && whole[i].1.raw > 0 by {
                        if i > 0 {
                            assert(whole[i] == rest[i - 1]);
                        }
                    }
                }
            },
            _ => {},
        }
    }
}

/// The outcome of reading one trade line.
pub enum TradeLineOutcome {
    Short,
    Bad,
    Print(Trade),
}

pub enum TradeLineOutcomeV {
    Short,
    Bad,
    Print(crate::models::TradeV),
}

/// The grammar of one trade line: comma-separated
/// `id,price,volume,side,time`; `B` marks a buy, anything else a sell; the
/// print's timestamp combines today's date with the line's clock time.
pub open spec fn trade_line_spec(line: Seq<u8>, symbol: Seq<u8>, today: Date) -> TradeLineOutcomeV {
    let fs = split_byte(line, 44);
    if fs.len() < 5 {
        TradeLineOutcomeV::Short
    } else {
        let price = parse_fixed_spec(fs[1]);
        let vol = parse_fixed_spec(fs[2]);
        let time = parse_time_spec(fs[4]);
        if price is None || vol is None || time is None {
            TradeLineOutcomeV::Bad
        } else {
            let t = time->Some_0;
            TradeLineOutcomeV::Print(
                crate::models::TradeV {
                    trade_id: fs[0],
                    symbol,
                    timestamp: ts_of(
                        today.year as int,
                        today.month as int,
                        today.day as int,
                        t.0 as int,
                        t.1 as int,
                        t.2 as int,
                    ) as i64,
                    price: Fixed { raw: price->Some_0 as i64 },
                    volume: Fixed { raw: vol->Some_0 as i64 },
                    side: if fs[3] == seq![66u8] {
                        TradeSide::Buy
                    } else {
                        TradeSide::Sell
                    },
                    trade_type: None,
                },
            )
        }
    }
}

/// Reads one trade line, exactly as `trade_line_spec` describes.
pub fn trade_from_line(line: &[u8], sym: &CanonicalSymbol, today: &Date) -> (r: TradeLineOutcome)
    requires
        symbol_wf(sym.code@),
        crate::dates::date_wf(*today),
    ensures
        ({
            let spec = trade_line_spec(line@, canon_text(sym.code@, sym.market), *today);
            match r {
                TradeLineOutcome::Short => spec is Short,
                TradeLineOutcome::Bad => spec is Bad,
                TradeLineOutcome::Print(t) => spec == TradeLineOutcomeV::Print(t@),
            }
        }),
{
    let fields = split_vec(line, 44);
    let ghost fs = split_byte(line@, 44);
    assert(fields@.len() == fs.len() && forall|i: int|
        0 <= i < fields@.len() ==> (#[trigger] fields@[i])@ == fs[i]);
    if fields.len() < 5 {
        return TradeLineOutcome::Short;
    }
    let price = match parse_fixed(fields[1].as_slice()) {
        Some(v) => v,
        None => {
            return TradeLineOutcome::Bad;
        },
    };
    let vol = match parse_fixed(fields[2].as_slice()) {
        Some(v) => v,
        None => {
            return TradeLineOutcome::Bad;
        },
    };
    let time = match parse_time(fields[4].as_slice()) {
        Some(v) => v,
        None => {
            return TradeLineOutcome::Bad;
        },
    };
    let ts = crate::dates::date_time_to_ms(today, time.0, time.1, time.2);
    let side = if fields[3].len() == 1 && fields[3][0] == 66 {
        proof {
            assert(fs[3] =~= seq![66u8]);
        }
        TradeSide::Buy
    } else {
        proof {
            if fs[3] == seq![66u8] {
                assert(fields@[3]@ == seq![66u8]);
                assert(fields@[3]@.len() == 1 && fields@[3]@[0] == 66);
            }
        }
        TradeSide::Sell
    };
    let trade_id = crate::models::copy_bytes(&fields[0]);
    TradeLineOutcome::Print(
        Trade {
            trade_id,
            symbol: sym.text(),
            timestamp: ts,
            price,
            volume: vol,
            side,
            trade_type: None,
        },
    )
}

/// Fetches recent trades from EastMoney and reconciles every line.
pub fn fetch_trades_eastmoney(
    cfg: &ProviderConfig,
    sym: &CanonicalSymbol,
    limit: u32,
    today: &Date,
) -> (r: Result<Vec<Trade>, ProviderError>)
    requires
        symbol_wf(sym.code@),
        crate::dates::date_wf(*today),
    ensures
        match r {
            Ok(ts) => forall|i: int|
                0 <= i < ts@.len() ==> (#[trigger] ts@[i])@.symbol == canon_text(
                    sym.code@,
                    sym.market,
                ),
            Err(_) => true,
        },
{
    let url = em_trades_url(&cfg.base_url, sym, limit);
    let text = match http_get_text(&url, &cfg.user_agent) {
        Ok(t) => t,
        Err(e) => {
            return Err(ProviderError::Http(string_bytes(&e)));
        },
    };
    let json = match json_parse(text.as_str()) {
        Ok(v) => v,
        Err(e) => {
            return Err(ProviderError::BadResponse(string_bytes(&e)));
        },
    };
    let data = match json_get(&json, "data") {
        Some(d) => d,
        None => {
            return Err(ProviderError::DataNotFound(msg("no trades data found")));
        },
    };
    let trades_val = match json_get(data, "trades") {
        Some(d) => d,
        None => {
            return Err(ProviderError::DataNotFound(msg("no trades data found")));
        },
    };
    let lines = match json_as_array(trades_val) {
        Some(a) => a,
        None => {
            return Err(ProviderError::DataNotFound(msg("no trades data found")));
        },
    };
    let mut out: Vec<Trade> = Vec::new();
    let mut i: usize = 0;
    while i < lines.len()
        invariant
            i <= lines@.len(),
            symbol_wf(sym.code@),
            crate::dates::date_wf(*today),
            forall|j: int|
                0 <= j < out@.len() ==> (#[trigger] out@[j])@.symbol == canon_text(
                    sym.code@,
                    sym.market,
                ),
        decreases lines@.len() - i,
    {
        let line = match json_as_str(&lines[i]) {
            Some(s) => s,
            None => {
                return Err(ProviderError::InvalidData(msg("trade line is not text")));
            },
        };
        let line_bytes = string_bytes(&line);
        match trade_from_line(line_bytes.as_slice(), sym, today) {
            TradeLineOutcome::Short => {},
            TradeLineOutcome::Bad => {
                return Err(ProviderError::InvalidData(msg("undecodable trade line")));
            },
            TradeLineOutcome::Print(t) => {
                out.push(t);
            },
        }
        i = i + 1;
    }
    Ok(out)
}

} // verus!
