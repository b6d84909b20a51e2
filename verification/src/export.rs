//! CSV records for downloaded bars: the engine's `ts,open,high,low,close,volume` layout and the
//! Yahoo daily layout. The records are written out by the program.

use crate::calendar::in_time_range;
use crate::decimal::{dec_to_string, Dec};
use crate::events::{Event, MarketEvent};
use crate::text::{nat_digits, string_of, u128_digits};
use crate::report::dec_text;
use time::format_description::well_known::Rfc3339;
use time::OffsetDateTime;
use vstd::prelude::*;

verus! {

/// One OHLCV row in engine CSV format; `ts` in Unix nanoseconds.
#[derive(Clone, Copy, Debug)]
pub struct OhlcvBar {
    pub ts: i128,
    pub open: Dec,
    pub high: Dec,
    pub low: Dec,
    pub close: Dec,
    pub volume: Dec,
}

/// Yahoo-style daily row.
#[derive(Debug)]
pub struct YahooBar {
    pub date: String,
    pub open: Dec,
    pub high: Dec,
    pub low: Dec,
    pub close: Dec,
    /// Split- and dividend-adjusted close when the source gives one.
    pub adj_close: Option<Dec>,
    pub volume: Dec,
}

/// The RFC 3339 text `time` formats for an instant, when it can format it.
pub uninterp spec fn rfc3339_text(unix_nanos: i128) -> Option<Seq<char>>;

/// Trusted: `OffsetDateTime::from_unix_timestamp_nanos` (which succeeds for instants in years
/// -9999 through 9999) then `format` with the well-known RFC 3339 description; what it gives is
/// named by `rfc3339_text`.
#[verifier::external_body]
fn format_rfc3339(unix_nanos: i128) -> (r: Option<String>)
    requires
        in_time_range(unix_nanos as int, 0),
    ensures
        match r {
            Some(t) => rfc3339_text(unix_nanos) == Some(t@),
            None => rfc3339_text(unix_nanos).is_none(),
        },
{
    match OffsetDateTime::from_unix_timestamp_nanos(unix_nanos) {
        Ok(t) => t.format(&Rfc3339).ok(),
        Err(_) => None,
    }
}

/// The timestamp field: the RFC 3339 text, or empty when the instant cannot be formatted.
pub open spec fn ts_field(unix_nanos: i128) -> Seq<char> {
    match rfc3339_text(unix_nanos) {
        Some(t) => t,
        None => Seq::empty(),
    }
}

/// The fields of one engine-format row.
pub open spec fn ohlcv_record(b: OhlcvBar) -> Seq<Seq<char>> {
    seq![
        ts_field(b.ts),
        dec_text(b.open),
        dec_text(b.high),
        dec_text(b.low),
        dec_text(b.close),
        dec_text(b.volume),
    ]
}

/// A record as texts.
pub open spec fn record_view(r: Vec<String>) -> Seq<Seq<char>> {
    r@.map_values(|f: String| f@)
}

/// The bar's decimals are well formed and its time can be read.
pub open spec fn ohlcv_bar_ok(b: OhlcvBar) -> bool {
    &&& in_time_range(b.ts as int, 0)
    &&& b.open.wf() && b.high.wf() && b.low.wf() && b.close.wf() && b.volume.wf()
}

/// The engine-format records of the bars, one per bar and no header row.
pub fn ohlcv_csv_records(bars: &Vec<OhlcvBar>) -> (r: Vec<Vec<String>>)
    requires
        forall|k: int| 0 <= k < bars@.len() ==> ohlcv_bar_ok(#[trigger] bars@[k]),
    ensures
        r@.len() == bars@.len(),
        forall|k: int| 0 <= k < bars@.len() ==> record_view(#[trigger] r@[k]) == ohlcv_record(bars@[k]),
{
    let mut out: Vec<Vec<String>> = Vec::new();
    let mut i: usize = 0;
    while i < bars.len()
        invariant
            i <= bars@.len(),
            out@.len() == i,
            forall|k: int| 0 <= k < bars@.len() ==> ohlcv_bar_ok(#[trigger] bars@[k]),
            forall|k: int| 0 <= k < i ==> record_view(#[trigger] out@[k]) == ohlcv_record(bars@[k]),
        decreases bars@.len() - i,
    {
        let b = bars[i];
        assert(ohlcv_bar_ok(bars@[i as int]));
        let ts = match format_rfc3339(b.ts) {
            Some(t) => t,
            None => String::new(),
        };
        let mut rec: Vec<String> = Vec::new();
        rec.push(ts);
        rec.push(dec_to_string(b.open));
        rec.push(dec_to_string(b.high));
        rec.push(dec_to_string(b.low));
        rec.push(dec_to_string(b.close));
        rec.push(dec_to_string(b.volume));
        proof {
            assert(record_view(rec) =~= ohlcv_record(bars@[i as int]));
        }
        out.push(rec);
        i = i + 1;
    }
    out
}

/// Some row has an adjusted close.
pub open spec fn has_adjusted(bars: Seq<YahooBar>) -> bool {
    exists|k: int| 0 <= k < bars.len() && (#[trigger] bars[k]).adj_close is Some
}

/// The Yahoo header: with an `Adj Close` column when some row has an adjusted close.
pub open spec fn yahoo_header(with_adj: bool) -> Seq<Seq<char>> {
    if with_adj {
        seq!["Date"@, "Open"@, "High"@, "Low"@, "Close"@, "Adj Close"@, "Volume"@]
    } else {
        seq!["Date"@, "Open"@, "High"@, "Low"@, "Close"@, "Volume"@]
    }
}

/// The fields of one Yahoo row; the adjusted column repeats the close where a row has none.
pub open spec fn yahoo_record(b: YahooBar, with_adj: bool) -> Seq<Seq<char>> {
    if with_adj {
        seq![
            b.date@,
            dec_text(b.open),
            dec_text(b.high),
            dec_text(b.low),
            dec_text(b.close),
            dec_text(
                match b.adj_close {
                    Some(a) => a,
                    None => b.close,
                },
            ),
            dec_text(b.volume),
        ]
    } else {
        seq![
            b.date@,
            dec_text(b.open),
            dec_text(b.high),
            dec_text(b.low),
            dec_text(b.close),
            dec_text(b.volume),
        ]
    }
}

/// The row's decimals are well formed.
pub open spec fn yahoo_bar_ok(b: YahooBar) -> bool {
    &&& b.open.wf() && b.high.wf() && b.low.wf() && b.close.wf() && b.volume.wf()
    &&& b.adj_close matches Some(a) ==> a.wf()
}

/// The Yahoo-format records of the bars: the header, then one record per bar.
pub fn yahoo_csv_records(bars: &Vec<YahooBar>) -> (r: Vec<Vec<String>>)
    requires
        forall|k: int| 0 <= k < bars@.len() ==> yahoo_bar_ok(#[trigger] bars@[k]),
    ensures
        r@.len() == bars@.len() + 1,
        record_view(r@[0]) == yahoo_header(has_adjusted(bars@)),
        forall|k: int|
            0 <= k < bars@.len() ==> record_view(#[trigger] r@[k + 1]) == yahoo_record(
                bars@[k],
                has_adjusted(bars@),
            ),
{
    let mut has_adj = false;
    let mut j: usize = 0;
    while j < bars.len()
        invariant
            j <= bars@.len(),
            has_adj <==> exists|k: int| 0 <= k < j && (#[trigger] bars@[k]).adj_close is Some,
        decreases bars@.len() - j,
    {
        if bars[j].adj_close.is_some() {
            has_adj = true;
        }
        j = j + 1;
    }
    let ghost with_adj = has_adjusted(bars@);
    assert(has_adj == with_adj);
    let mut header: Vec<String> = Vec::new();
    header.push("Date".to_owned());
    header.push("Open".to_owned());
    header.push("High".to_owned());
    header.push("Low".to_owned());
    header.push("Close".to_owned());
    if has_adj {
        header.push("Adj Close".to_owned());
    }
    header.push("Volume".to_owned());
    proof {
        assert(record_view(header) =~= yahoo_header(with_adj));
    }
    let mut out: Vec<Vec<String>> = Vec::new();
    out.push(header);
    let mut i: usize = 0;
    while i < bars.len()
        invariant
            i <= bars@.len(),
            has_adj == with_adj,
            with_adj == has_adjusted(bars@),
            out@.len() == i + 1,
            record_view(out@[0]) == yahoo_header(with_adj),
            forall|k: int| 0 <= k < bars@.len() ==> yahoo_bar_ok(#[trigger] bars@[k]),
            forall|k: int|
                0 <= k < i ==> record_view(#[trigger] out@[k + 1]) == yahoo_record(bars@[k], with_adj),
        decreases bars@.len() - i,
    {
        let b = &bars[i];
        assert(yahoo_bar_ok(bars@[i as int]));
        let mut rec: Vec<String> = Vec::new();
        rec.push(b.date.clone());
        rec.push(dec_to_string(b.open));
        rec.push(dec_to_string(b.high));
        rec.push(dec_to_string(b.low));
        rec.push(dec_to_string(b.close));
        if has_adj {
            let adj = match b.adj_close {
                Some(a) => a,
                None => b.close,
            };
            rec.push(dec_to_string(adj));
        }
        rec.push(dec_to_string(b.volume));
        proof {
            assert(record_view(rec) =~= yahoo_record(bars@[i as int], with_adj));
        }
        out.push(rec);
        i = i + 1;
    }
    out
}

/// The bar lies in the inclusive range `[start, end]`; a missing bound does not limit.
pub open spec fn in_range(b: OhlcvBar, start: Option<i128>, end: Option<i128>) -> bool {
    &&& start matches Some(s) ==> b.ts >= s
    &&& end matches Some(e) ==> b.ts <= e
}

/// The bars among the first `n` that lie in the range, in order.
pub open spec fn bars_in_range(bars: Seq<OhlcvBar>, start: Option<i128>, end: Option<i128>, n: int) -> Seq<OhlcvBar>
    decreases n,
{
    if n <= 0 {
        Seq::empty()
    } else {
        let prev = bars_in_range(bars, start, end, n - 1);
        if in_range(bars[n - 1], start, end) {
            prev.push(bars[n - 1])
        } else {
            prev
        }
    }
}

/// The start of the download window: the given start, else the time of the bar `days` from
/// the end when there are that many bars (no bound for zero days).
pub open spec fn window_start(bars: Seq<OhlcvBar>, start: Option<i128>, days: Option<u64>) -> Option<i128> {
    match start {
        Some(s) => Some(s),
        None => match days {
            Some(d) => if 0 < d <= bars.len() {
                Some(bars[bars.len() - d].ts)
            } else {
                None
            },
            None => None,
        },
    }
}

/// Where the kept bars begin: an explicit start wins; otherwise the last `days` bars are kept
/// (no bound when there are fewer).
pub fn download_window_start(bars: &Vec<OhlcvBar>, start: Option<i128>, days: Option<u64>) -> (r: Option<i128>)
    ensures
        r == window_start(bars@, start, days),
{
    match start {
        Some(s) => Some(s),
        None => match days {
            Some(d) => if (d as u128) <= (bars.len() as u128) {
                let ix = bars.len() - (d as usize);
                if ix < bars.len() {
                    Some(bars[ix].ts)
                } else {
                    None
                }
            } else {
                None
            },
            None => None,
        },
    }
}

/// Keep only the bars in the inclusive range `[start, end]` (Unix nanoseconds), in order.
pub fn filter_date_range(bars: Vec<OhlcvBar>, start: Option<i128>, end: Option<i128>) -> (r: Vec<OhlcvBar>)
    ensures
        r@ == bars_in_range(bars@, start, end, bars@.len() as int),
{
    let mut out: Vec<OhlcvBar> = Vec::new();
    let mut i: usize = 0;
    while i < bars.len()
        invariant
            i <= bars@.len(),
            out@ == bars_in_range(bars@, start, end, i as int),
        decreases bars@.len() - i,
    {
        let b = bars[i];
        let after_start = match start {
            Some(s) => b.ts >= s,
            None => true,
        };
        let before_end = match end {
            Some(e) => b.ts <= e,
            None => true,
        };
        if after_start && before_end {
            out.push(b);
        }
        i = i + 1;
    }
    out
}


/// Decimal digits of an integer, with a leading `-` when negative.
pub open spec fn int_text(n: int) -> Seq<char> {
    if n < 0 {
        seq!['-'] + nat_digits((-n) as nat)
    } else {
        nat_digits(n as nat)
    }
}

/// The time field of a merged row: the RFC 3339 text, else the whole Unix seconds.
pub open spec fn merged_ts_field(unix_nanos: i128) -> Seq<char> {
    match rfc3339_text(unix_nanos) {
        Some(t) => t,
        None => int_text(unix_nanos as int / 1_000_000_000),
    }
}

/// Header of a merged bar file.
pub open spec fn merged_header() -> Seq<Seq<char>> {
    seq!["ts"@, "exchange"@, "symbol"@, "open"@, "high"@, "low"@, "close"@, "volume"@]
}

/// The row a bar event writes; other events write none.
pub open spec fn merged_record(e: Event) -> Option<Seq<Seq<char>>> {
    match e {
        Event::Market(MarketEvent::Bar { instrument, ts, open, high, low, close, volume }) => Some(
            seq![
                merged_ts_field(ts),
                instrument.exchange@,
                instrument.symbol@,
                dec_text(open),
                dec_text(high),
                dec_text(low),
                dec_text(close),
                dec_text(volume),
            ],
        ),
        _ => None,
    }
}

/// The rows the bar events among the events write, in order.
pub open spec fn merged_rows(events: Seq<Event>) -> Seq<Seq<Seq<char>>>
    decreases events.len(),
{
    if events.len() == 0 {
        Seq::empty()
    } else {
        let rest = merged_rows(events.drop_last());
        match merged_record(events.last()) {
            Some(r) => rest.push(r),
            None => rest,
        }
    }
}

/// A bar event has a readable time and well-formed decimals.
pub open spec fn merged_event_ok(e: Event) -> bool {
    match e {
        Event::Market(MarketEvent::Bar { ts, open, high, low, close, volume, .. }) => {
            &&& in_time_range(ts as int, 0)
            &&& open.wf() && high.wf() && low.wf() && close.wf() && volume.wf()
        },
        _ => true,
    }
}

/// Whole Unix seconds of an instant (rounded down), as text.
fn unix_seconds_text(unix_nanos: i128) -> (r: String)
    requires
        in_time_range(unix_nanos as int, 0),
    ensures
        r@ == int_text(unix_nanos as int / 1_000_000_000),
{
    let d: i128 = 1_000_000_000;
    if unix_nanos >= 0 {
        let q = unix_nanos / d;
        string_of(&u128_digits(q as u128))
    } else {
        let a: i128 = -unix_nanos - 1;
        let q = a / d + 1;
        assert(unix_nanos as int / 1_000_000_000 == -(q as int)) by (nonlinear_arith)
            requires
                unix_nanos < 0,
                a == -unix_nanos - 1,
                a >= 0,
                q == a / 1_000_000_000 + 1,
        ;
        let digits = u128_digits(q as u128);
        let mut s = String::new();
        proof {
            reveal_strlit("-");
        }
        s.append("-");
        let tail = string_of(&digits);
        s.append(tail.as_str());
        assert(s@ =~= seq!['-'] + nat_digits(q as nat));
        s
    }
}

/// The records of a merged event stream: the header, then one row per bar event in order
/// (other events are skipped).
pub fn merged_bar_records(events: &Vec<Event>) -> (r: Vec<Vec<String>>)
    requires
        forall|k: int| 0 <= k < events@.len() ==> merged_event_ok(#[trigger] events@[k]),
    ensures
        r@.len() == merged_rows(events@).len() + 1,
        record_view(r@[0]) == merged_header(),
        forall|k: int|
            0 <= k < merged_rows(events@).len() ==> record_view(#[trigger] r@[k + 1])
                == merged_rows(events@)[k],
{
    let mut header: Vec<String> = Vec::new();
    header.push("ts".to_owned());
    header.push("exchange".to_owned());
    header.push("symbol".to_owned());
    header.push("open".to_owned());
    header.push("high".to_owned());
    header.push("low".to_owned());
    header.push("close".to_owned());
    header.push("volume".to_owned());
    proof {
        assert(record_view(header) =~= merged_header());
    }
    let mut out: Vec<Vec<String>> = Vec::new();
    out.push(header);
    let mut i: usize = 0;
    while i < events.len()
        invariant
            i <= events@.len(),
            forall|k: int| 0 <= k < events@.len() ==> merged_event_ok(#[trigger] events@[k]),
            out@.len() == merged_rows(events@.take(i as int)).len() + 1,
            record_view(out@[0]) == merged_header(),
            forall|k: int|
                0 <= k < merged_rows(events@.take(i as int)).len() ==> record_view(
                    #[trigger] out@[k + 1],
                ) == merged_rows(events@.take(i as int))[k],
        decreases events@.len() - i,
    {
        let ghost before = merged_rows(events@.take(i as int));
        assert(events@.take(i + 1).drop_last() =~= events@.take(i as int));
        assert(events@.take(i + 1).last() == events@[i as int]);
        assert(merged_event_ok(events@[i as int]));
        match &events[i] {
            Event::Market(MarketEvent::Bar { instrument, ts, open, high, low, close, volume }) => {
                let tsf = match format_rfc3339(*ts) {
                    Some(t) => t,
                    None => unix_seconds_text(*ts),
                };
                let mut rec: Vec<String> = Vec::new();
                rec.push(tsf);
                rec.push(instrument.exchange.clone());
                rec.push(instrument.symbol.clone());
                rec.push(dec_to_string(*open));
                rec.push(dec_to_string(*high));
                rec.push(dec_to_string(*low));
                rec.push(dec_to_string(*close));
                rec.push(dec_to_string(*volume));
                proof {
                    assert(record_view(rec) =~= merged_record(events@[i as int]).unwrap());
                }
                out.push(rec);
            },
            _ => {},
        }
        i = i + 1;
    }
    assert(events@.take(events@.len() as int) =~= events@);
    out
}

} // verus!
