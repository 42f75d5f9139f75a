//! The OKX market client's request URLs and the checks it applies to replies.
//!
//! The HTTP exchange and JSON decoding happen outside this library.

use vstd::prelude::*;
use crate::text::{append_u64, decimal, numeral_value, parse_i64, parses_as_i64};

verus! {

/// Base URL of the OKX REST API.
pub const BASE_URL: &'static str = "https://www.okx.com";

/// Name of the OKX market.
pub const MARKET_NAME: &'static str = "OKX";

/// Fields of an OKX candle record: `[ts, open, high, low, close, vol, ...]`.
pub const CANDLE_FIELDS: usize = 6;

/// The URL that lists the tickers of one instrument type.
pub open spec fn tickers_url_text(inst_type: Seq<char>) -> Seq<char> {
    BASE_URL@ + "/api/v5/market/tickers?instType="@ + inst_type
}

/// The URL that fetches candles.
pub open spec fn candles_url_text(inst_id: Seq<char>, bar: Seq<char>, limit: nat) -> Seq<char> {
    BASE_URL@ + "/api/v5/market/candles?instId="@ + inst_id + "&bar="@ + bar + "&limit="@ + decimal(limit)
}

/// The URL that lists the tickers of `inst_type` (e.g. `SPOT`, `SWAP`).
pub fn tickers_url(inst_type: &str) -> (u: String)
    ensures
        u@ == tickers_url_text(inst_type@),
{
    let mut u = BASE_URL.to_owned();
    u.append("/api/v5/market/tickers?instType=");
    u.append(inst_type);
    u
}

/// The URL that fetches `limit` candles of period `bar` for `inst_id`.
pub fn candles_url(inst_id: &str, bar: &str, limit: u32) -> (u: String)
    ensures
        u@ == candles_url_text(inst_id@, bar@, limit as nat),
{
    let mut u = BASE_URL.to_owned();
    u.append("/api/v5/market/candles?instId=");
    u.append(inst_id);
    u.append("&bar=");
    u.append(bar);
    u.append("&limit=");
    append_u64(&mut u, limit as u64);
    u
}

/// Errors of the OKX client.
#[derive(Clone, Debug)]
pub enum OkxError {
    /// The API answered with a non-zero code; the API's message, if it sent one.
    Api(Option<String>),
}

/// Accepts a reply exactly when its code is `"0"`; otherwise the error carries the reply's message.
pub fn check_reply_code(code: &str, msg: &Option<String>) -> (r: Result<(), OkxError>)
    ensures
        r is Ok <==> code@ == "0"@,
        r matches Err(OkxError::Api(m)) ==> m == *msg,
{
    let c = code.to_owned();
    let zero = "0".to_owned();
    if c == zero {
        Ok(())
    } else {
        Err(OkxError::Api(match msg {
            Some(m) => Some(m.clone()),
            None => None,
        }))
    }
}

/// Why a candle record was rejected.
#[derive(PartialEq, Eq, Structural, Clone, Copy, Debug)]
pub enum CandleError {
    /// Fewer than six fields.
    TooShort,
    /// The timestamp field is not an `i64` numeral.
    InvalidTimestamp,
}

/// The timestamp of an OKX candle record: a record of fewer than six fields is rejected, and
/// otherwise its first field must read as an `i64`.
pub fn candle_timestamp(data: &Vec<String>) -> (r: Result<i64, CandleError>)
    ensures
        data.len() < 6 ==> r == Err::<i64, CandleError>(CandleError::TooShort),
        data.len() >= 6 && !parses_as_i64(data@[0]@) ==> r == Err::<i64, CandleError>(CandleError::InvalidTimestamp),
        data.len() >= 6 && parses_as_i64(data@[0]@) ==> (r matches Ok(v) && v as int == numeral_value(data@[0]@)),
{
    if data.len() < CANDLE_FIELDS {
        return Err(CandleError::TooShort);
    }
    match parse_i64(data[0].as_str()) {
        Some(v) => Ok(v),
        None => Err(CandleError::InvalidTimestamp),
    }
}

} // verus!
