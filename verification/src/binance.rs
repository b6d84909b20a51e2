//! Binance spot klines: reading one kline row and deciding where the paginated download goes
//! next (the program performs the requests).

use crate::alpha_vantage::JsonValue;
use crate::calendar::in_time_range;
use crate::decimal::{dec_of, dec_parse, decimal_parse, Dec};
use crate::error::Error;
use crate::export::OhlcvBar;
use time::OffsetDateTime;
use vstd::prelude::*;

verus! {

/// Klines per page the download asks for.
pub const KLINE_PAGE: usize = 1000usize;

/// `a / b` rounded toward zero, as Rust divides integers.
pub open spec fn trunc_div(a: int, b: int) -> int {
    if a >= 0 {
        a / b
    } else {
        -((-a) / b)
    }
}

/// Trusted: `OffsetDateTime::from_unix_timestamp`, which accepts exactly the instants in years
/// -9999 through 9999, then `unix_timestamp_nanos`.
#[verifier::external_body]
pub(crate) fn unix_seconds_instant(secs: i64) -> (r: Option<i128>)
    ensures
        r == if in_time_range(secs * 1_000_000_000, 0) {
            Some((secs * 1_000_000_000) as i128)
        } else {
            None::<i128>
        },
{
    OffsetDateTime::from_unix_timestamp(secs).ok().map(|t| t.unix_timestamp_nanos())
}

/// A price or volume of a kline: a decimal written as a JSON text.
pub open spec fn kline_field(v: JsonValue) -> Result<Dec, Seq<char>> {
    match v {
        JsonValue::Str(s) => match decimal_parse(s@) {
            Some(p) => Ok(dec_of(p)),
            None => Err("bad decimal: "@ + s@),
        },
        _ => Err("decimal field"@),
    }
}

/// The open time of a kline (milliseconds, as an integer) as Unix nanoseconds of its second.
pub open spec fn kline_time(first: JsonValue) -> Result<i128, Seq<char>> {
    match first {
        JsonValue::Number(n) => match n.int {
            Some(ms) => {
                let secs = trunc_div(ms as int, 1000);
                if in_time_range(secs * 1_000_000_000, 0) {
                    Ok((secs * 1_000_000_000) as i128)
                } else {
                    Err("timestamp"@)
                }
            },
            None => Err("open time"@),
        },
        _ => Err("open time"@),
    }
}

/// The bar of a kline row `[open time, open, high, low, close, volume, ...]`, or the message.
pub open spec fn kline_bar(row: JsonValue) -> Result<OhlcvBar, Seq<char>> {
    match row {
        JsonValue::Array(a) => match kline_time(a@[0]) {
            Err(m) => Err(m),
            Ok(ts) => match (
                kline_field(a@[1]),
                kline_field(a@[2]),
                kline_field(a@[3]),
                kline_field(a@[4]),
                kline_field(a@[5]),
            ) {
                (Err(m), _, _, _, _) => Err(m),
                (Ok(_), Err(m), _, _, _) => Err(m),
                (Ok(_), Ok(_), Err(m), _, _) => Err(m),
                (Ok(_), Ok(_), Ok(_), Err(m), _) => Err(m),
                (Ok(_), Ok(_), Ok(_), Ok(_), Err(m)) => Err(m),
                (Ok(o), Ok(h), Ok(l), Ok(c), Ok(v)) => Ok(
                    OhlcvBar { ts, open: o, high: h, low: l, close: c, volume: v },
                ),
            },
        },
        _ => Err("kline not array"@),
    }
}

/// The row has every element the reading reaches: the open time, then each column up to the
/// first that does not read.
pub open spec fn kline_indexable(row: JsonValue) -> bool {
    row matches JsonValue::Array(a) ==> {
        &&& a@.len() >= 1
        &&& kline_time(a@[0]) is Ok ==> a@.len() >= 2
        &&& kline_time(a@[0]) is Ok && kline_field(a@[1]) is Ok ==> a@.len() >= 3
        &&& kline_time(a@[0]) is Ok && kline_field(a@[1]) is Ok && kline_field(a@[2]) is Ok
            ==> a@.len() >= 4
        &&& kline_time(a@[0]) is Ok && kline_field(a@[1]) is Ok && kline_field(a@[2]) is Ok
            && kline_field(a@[3]) is Ok ==> a@.len() >= 5
        &&& kline_time(a@[0]) is Ok && kline_field(a@[1]) is Ok && kline_field(a@[2]) is Ok
            && kline_field(a@[3]) is Ok && kline_field(a@[4]) is Ok ==> a@.len() >= 6
    }
}

/// Read a kline price or volume.
fn parse_decimal_field(v: &JsonValue) -> (r: Result<Dec, Error>)
    ensures
        match kline_field(*v) {
            Ok(d) => r matches Ok(x) && x == d && x.wf(),
            Err(m) => r matches Err(e) && e matches Error::Invalid(t) && t@ == m,
        },
{
    match v {
        JsonValue::Str(s) => match dec_parse(s.as_str()) {
            Some(d) => Ok(d),
            None => {
                let mut m = "bad decimal: ".to_owned();
                m.append(s.as_str());
                Err(Error::Invalid(m))
            },
        },
        _ => Err(Error::Invalid("decimal field".to_owned())),
    }
}

/// Read one kline row.
pub fn parse_kline_row(row: &JsonValue) -> (r: Result<OhlcvBar, Error>)
    requires
        kline_indexable(*row),
    ensures
        match kline_bar(*row) {
            Ok(b) => r matches Ok(x) && x == b,
            Err(m) => r matches Err(e) && e matches Error::Invalid(t) && t@ == m,
        },
{
    let arr = match row {
        JsonValue::Array(a) => a,
        _ => {
            return Err(Error::Invalid("kline not array".to_owned()));
        },
    };
    let open_ms = match &arr[0] {
        JsonValue::Number(n) => match n.int {
            Some(ms) => ms,
            None => {
                return Err(Error::Invalid("open time".to_owned()));
            },
        },
        _ => {
            return Err(Error::Invalid("open time".to_owned()));
        },
    };
    let ts = match unix_seconds_instant(open_ms / 1000) {
        Some(t) => t,
        None => {
            return Err(Error::Invalid("timestamp".to_owned()));
        },
    };
    let open = parse_decimal_field(&arr[1])?;
    let high = parse_decimal_field(&arr[2])?;
    let low = parse_decimal_field(&arr[3])?;
    let close = parse_decimal_field(&arr[4])?;
    let volume = parse_decimal_field(&arr[5])?;
    Ok(OhlcvBar { ts, open, high, low, close, volume })
}

/// The open time of the last row of a page, when it is an integer in an array.
pub open spec fn last_open_of(chunk: Seq<JsonValue>) -> Option<i64> {
    if chunk.len() == 0 {
        None
    } else {
        match chunk.last() {
            JsonValue::Array(a) => if a@.len() > 0 {
                match a@[0] {
                    JsonValue::Number(n) => n.int,
                    _ => None,
                }
            } else {
                None
            },
            _ => None,
        }
    }
}

/// Where the download goes after a page.
#[derive(Clone, Copy, Debug, PartialEq, Eq, Structural)]
pub enum KlineStep {
    /// The download is complete.
    Done,
    /// Ask for the next page from this open time (milliseconds).
    From(i64),
}

/// After a page of `len` rows: stop on an empty or short page; otherwise continue one
/// millisecond after the last open time (the end time when that is unreadable) while that is
/// before the end.
pub open spec fn kline_step_of(end_ms: i64, len: int, last_open: Option<i64>) -> KlineStep {
    if len == 0 {
        KlineStep::Done
    } else {
        let next = match last_open {
            Some(t) => t,
            None => end_ms,
        } + 1;
        if len < KLINE_PAGE {
            KlineStep::Done
        } else if next < end_ms {
            KlineStep::From(next as i64)
        } else {
            KlineStep::Done
        }
    }
}

/// The download moves forward: a next page starts right after the last open time seen and
/// before the end, so no page is asked for twice and the requests stop.
pub proof fn law_kline_pages_advance(end_ms: i64, len: int, last_open: i64, next: i64)
    requires
        kline_step_of(end_ms, len, Some(last_open)) == KlineStep::From(next),
    ensures
        last_open < next < end_ms,
        len >= KLINE_PAGE,
{
}

/// Decide where the download goes after a page.
pub fn next_kline_step(end_ms: i64, chunk: &Vec<JsonValue>) -> (r: KlineStep)
    requires
        chunk@.len() > 0 ==> match last_open_of(chunk@) {
            Some(t) => t < i64::MAX,
            None => end_ms < i64::MAX,
        },
    ensures
        r == kline_step_of(end_ms, chunk@.len() as int, last_open_of(chunk@)),
{
    if chunk.len() == 0 {
        return KlineStep::Done;
    }
    let last = match &chunk[chunk.len() - 1] {
        JsonValue::Array(a) => if a.len() > 0 {
            match &a[0] {
                JsonValue::Number(n) => n.int,
                _ => None,
            }
        } else {
            None
        },
        _ => None,
    };
    let next = match last {
        Some(t) => t,
        None => end_ms,
    } + 1;
    if chunk.len() < KLINE_PAGE {
        KlineStep::Done
    } else if next < end_ms {
        KlineStep::From(next)
    } else {
        KlineStep::Done
    }
}

} // verus!
