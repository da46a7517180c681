//! Decisions of the market-data ingestion client: which candle to ask for,
//! how to read the answer, and when to retry.
use crate::decimal::{decimal_price_of, lemma_decimal_price_wf, parse_decimal, DecimalPrice};
use crate::window::Submission;
use crate::validator::{validate_decimal, validate_exact_spec, PriceFlag, PriceRejection};
use vstd::prelude::*;

verus! {

#[verifier::external_type_specification]
#[verifier::external_body]
pub struct ExJsonValue(serde_json::Value);

#[verifier::external_type_specification]
#[verifier::external_body]
pub struct ExJsonError(serde_json::Error);

/// What `serde_json::from_str` decodes from a text as a JSON array of arrays.
pub uninterp spec fn json_rows(body: Seq<char>) -> Option<Seq<Seq<serde_json::Value>>>;

/// What `Value::as_str` finds in a JSON value.
pub uninterp spec fn json_text(v: serde_json::Value) -> Option<Seq<char>>;

/// What `Value::as_u64` finds in a JSON value.
pub uninterp spec fn json_u64(v: serde_json::Value) -> Option<u64>;

/// Relies on serde_json's `Value::as_str`: the text of a JSON string, `None`
/// for any other value; a function of the value alone.
pub assume_specification[ serde_json::Value::as_str ](v: &serde_json::Value) -> (r: Option<&str>)
    ensures
        r.is_some() == json_text(*v).is_some(),
        r matches Some(t) ==> json_text(*v) == Some(t@),
;

/// Relies on serde_json's `Value::as_u64`: the value of a JSON integer that
/// fits in `u64`, `None` otherwise; a function of the value alone.
pub assume_specification[ serde_json::Value::as_u64 ](v: &serde_json::Value) -> (r: Option<u64>)
    ensures
        r == json_u64(*v),
;

/// Relies on `serde_json::from_str` to decode a JSON array of arrays; the
/// outcome depends on the text alone.
#[verifier::external_body]
fn decode_rows(body: &str) -> (r: Result<Vec<Vec<serde_json::Value>>, serde_json::Error>)
    ensures
        r.is_ok() == json_rows(body@).is_some(),
        r matches Ok(rows) ==> json_rows(body@) == Some(
            rows@.map_values(|row: Vec<serde_json::Value>| row@),
        ),
{
    serde_json::from_str(body)
}

/// Name under which fetched prices are tagged.
pub const SOURCE_NAME: &'static str = "binance";

/// Length of a candle, in seconds.
pub const BUCKET_SECS: i64 = 60;

/// An HTTP status outside `200..=299`, by kind.
#[derive(Clone, Copy, Debug, PartialEq, Eq, Structural)]
pub enum HttpFailure {
    BadRequest,
    Unauthorized,
    Forbidden,
    NotFound,
    RateLimited,
    ServerError,
    Other(u16),
}

/// Why one fetch attempt failed.
#[derive(Clone, Copy, Debug, PartialEq, Eq, Structural)]
pub enum FetchError {
    /// The request could not be sent or answered.
    Network,
    /// The source answered with an error status.
    Http(HttpFailure),
    /// The body is not a JSON array of arrays with at least five fields in the first.
    Malformed,
    /// The body holds no candle.
    Empty,
    /// The close price is not a JSON string.
    CloseNotText,
    /// The close price text is not a decimal number that fits.
    CloseNotNumber,
    /// The open time is not a JSON integer.
    OpenTimeNotInteger,
    /// The close price failed the plausibility check.
    Rejected(PriceRejection),
}

/// One candle of the source, read by position.
#[derive(Clone, Copy, Debug, PartialEq, Eq, Structural)]
pub struct Kline {
    /// Open time in Unix seconds.
    pub open_time_secs: u64,
    /// Close price as read from its text.
    pub close: DecimalPrice,
}

/// A validated price point fetched from the source.
pub struct PriceData {
    /// Price in cents.
    pub price_cents: u64,
    /// Unix seconds at which the fetch completed.
    pub timestamp: u64,
    pub source: String,
    /// Where the price stands against the sanity band.
    pub flag: PriceFlag,
}

impl PriceData {
    /// The submission that hands this price point to the aggregation engine.
    pub fn to_submission(&self, reporter_id: String) -> (r: Submission)
        ensures
            r.price == self.price_cents,
            r.observed_at == self.timestamp,
            r.source == self.source,
            r.reporter_id == reporter_id,
    {
        Submission::new(self.price_cents, self.timestamp, self.source.clone(), reporter_id)
    }
}

/// The `[start, end)` range, in Unix milliseconds, of the candle to request.
#[derive(Clone, Copy, Debug, PartialEq, Eq, Structural)]
pub struct KlineWindow {
    pub start_ms: i64,
    pub end_ms: i64,
}

/// Start of the minute holding `now_secs`.
pub open spec fn minute_start(now_secs: int) -> int {
    now_secs - now_secs % 60
}

/// The last fully elapsed minute before `now_secs`: it ends where the
/// current minute starts.
pub fn kline_window(now_secs: i64) -> (r: KlineWindow)
    requires
        0 <= now_secs <= i64::MAX / 1000,
    ensures
        r.end_ms == minute_start(now_secs as int) * 1000,
        r.start_ms == r.end_ms - BUCKET_SECS * 1000,
{
    let current = now_secs - now_secs % BUCKET_SECS;
    KlineWindow { start_ms: (current - BUCKET_SECS) * 1000, end_ms: current * 1000 }
}

pub open spec fn is_success_spec(status: u16) -> bool {
    200 <= status <= 299
}

/// Whether `status` is a success status (`2xx`).
pub fn is_success_status(status: u16) -> (r: bool)
    ensures
        r == is_success_spec(status),
{
    200 <= status && status <= 299
}

pub open spec fn classify_spec(status: u16) -> HttpFailure {
    if status == 400 {
        HttpFailure::BadRequest
    } else if status == 401 {
        HttpFailure::Unauthorized
    } else if status == 403 {
        HttpFailure::Forbidden
    } else if status == 404 {
        HttpFailure::NotFound
    } else if status == 429 {
        HttpFailure::RateLimited
    } else if 500 <= status <= 599 {
        HttpFailure::ServerError
    } else {
        HttpFailure::Other(status)
    }
}

/// The failure that an error status stands for; every kind is retried alike.
pub fn handle_http_error(status_code: u16) -> (r: Result<PriceData, FetchError>)
    ensures
        r matches Err(e) && e == FetchError::Http(classify_spec(status_code)),
{
    let kind = if status_code == 400 {
        HttpFailure::BadRequest
    } else if status_code == 401 {
        HttpFailure::Unauthorized
    } else if status_code == 403 {
        HttpFailure::Forbidden
    } else if status_code == 404 {
        HttpFailure::NotFound
    } else if status_code == 429 {
        HttpFailure::RateLimited
    } else if 500 <= status_code && status_code <= 599 {
        HttpFailure::ServerError
    } else {
        HttpFailure::Other(status_code)
    };
    Err(FetchError::Http(kind))
}

/// The candle made of an open time in milliseconds and a close price text.
pub open spec fn kline_fields_spec(open_time_ms: Option<u64>, close: Option<Seq<char>>) -> Result<
    Kline,
    FetchError,
> {
    match close {
        None => Err(FetchError::CloseNotText),
        Some(t) => match decimal_price_of(t) {
            Some(d) => match open_time_ms {
                Some(ms) => Ok(Kline { open_time_secs: ms / 1000, close: d }),
                None => Err(FetchError::OpenTimeNotInteger),
            },
            None => Err(FetchError::CloseNotNumber),
        },
    }
}

/// The first candle of decoded rows: field 0 is the open time, field 4 the
/// close price text.
pub open spec fn kline_of_rows(rows: Option<Seq<Seq<serde_json::Value>>>) -> Result<
    Kline,
    FetchError,
> {
    match rows {
        None => Err(FetchError::Malformed),
        Some(rs) => if rs.len() == 0 {
            Err(FetchError::Empty)
        } else if rs[0].len() < 5 {
            Err(FetchError::Malformed)
        } else {
            kline_fields_spec(json_u64(rs[0][0]), json_text(rs[0][4]))
        },
    }
}

/// `r` is the price point made from `k` at `completed_at`, or the rejection
/// of its close.
pub open spec fn is_fetch_of(r: Result<PriceData, FetchError>, k: Kline, completed_at: u64) -> bool {
    match validate_exact_spec(k.close) {
        Err(e) => r == Err::<PriceData, FetchError>(FetchError::Rejected(e)),
        Ok(flag) => r matches Ok(p) && p.price_cents == k.close.cents && p.flag == flag
            && p.timestamp == completed_at && p.source@ == SOURCE_NAME@,
    }
}

/// A candle from its open time in milliseconds and its close price text, as
/// the source gives them.
pub fn kline_from_fields(open_time_ms: Option<u64>, close: Option<&str>) -> (r: Result<
    Kline,
    FetchError,
>)
    ensures
        r == kline_fields_spec(
            open_time_ms,
            (match close {
                Some(t) => Some(t@),
                None => None,
            }),
        ),
        r matches Ok(k) ==> k.close.wf(),
{
    let text = match close {
        Some(t) => t,
        None => return Err(FetchError::CloseNotText),
    };
    proof {
        lemma_decimal_price_wf(text@);
    }
    let close = match parse_decimal(text) {
        Ok(d) => d,
        Err(_) => return Err(FetchError::CloseNotNumber),
    };
    match open_time_ms {
        Some(ms) => Ok(Kline { open_time_secs: ms / 1000, close }),
        None => Err(FetchError::OpenTimeNotInteger),
    }
}

/// Reads the first candle of a response body: a JSON array of candles, each
/// an array whose field 0 is the open time and field 4 the close price text.
pub fn parse_kline_response(body: &str) -> (r: Result<Kline, FetchError>)
    ensures
        r == kline_of_rows(json_rows(body@)),
        r matches Ok(k) ==> k.close.wf(),
{
    let rows = match decode_rows(body) {
        Ok(rows) => rows,
        Err(_) => return Err(FetchError::Malformed),
    };
    if rows.len() == 0 {
        return Err(FetchError::Empty);
    }
    let row = &rows[0];
    if row.len() < 5 {
        return Err(FetchError::Malformed);
    }
    let close = row[4].as_str();
    let open_time = row[0].as_u64();
    assert(rows@[0]@ == json_rows(body@).unwrap()[0]);
    kline_from_fields(open_time, close)
}

/// The price point made from a candle's close when the fetch completed at
/// `completed_at`, or the rejection of an implausible close.
pub fn finish_fetch(kline: Kline, completed_at: u64) -> (r: Result<PriceData, FetchError>)
    requires
        kline.close.wf(),
    ensures
        is_fetch_of(r, kline, completed_at),
{
    match validate_decimal(kline.close) {
        Err(e) => Err(FetchError::Rejected(e)),
        Ok(flag) => Ok(
            PriceData {
                price_cents: kline.close.cents as u64,
                timestamp: completed_at,
                source: String::from_str(SOURCE_NAME),
                flag,
            },
        ),
    }
}

/// One attempt's answer: error statuses are classified, a success body is
/// read and its close price checked.
pub fn evaluate_response(status: u16, body: &str, completed_at: u64) -> (r: Result<
    PriceData,
    FetchError,
>)
    ensures
        !is_success_spec(status) ==> (r matches Err(e) && e == FetchError::Http(
            classify_spec(status),
        )),
        is_success_spec(status) ==> match kline_of_rows(json_rows(body@)) {
            Ok(k) => is_fetch_of(r, k, completed_at),
            Err(e) => r == Err::<PriceData, FetchError>(e),
        },
{
    if !is_success_status(status) {
        return handle_http_error(status);
    }
    match parse_kline_response(body) {
        Ok(k) => finish_fetch(k, completed_at),
        Err(e) => Err(e),
    }
}

} // verus!
