//! Rows of a Yahoo Finance daily export (`Date,Open,High,Low,Close,Adj Close,Volume`).

use crate::alpha_vantage::{find_entry, lookup, JsonValue};
use crate::binance::unix_seconds_instant;
use crate::calendar::{in_time_range, local_time, local_time_of, CivilDate};
use crate::databento::{padded, padded_digits};
use crate::decimal::{zero_dec, Dec};
use crate::error::Error;
use crate::export::{int_text, YahooBar};
use crate::text::{nat_digits, string_of, u128_digits};
use vstd::prelude::*;

verus! {

/// One row from a Yahoo Finance daily export.
#[derive(Clone, Debug)]
pub struct YahooRow {
    /// Date column.
    pub date: String,
    /// Open price.
    pub open: Dec,
    /// High price.
    pub high: Dec,
    /// Low price.
    pub low: Dec,
    /// Close price.
    pub close: Dec,
    /// Adjusted close when present.
    pub adj_close: Option<Dec>,
    /// Volume.
    pub volume: Dec,
}

impl YahooRow {
    /// Close price used for replay: the adjusted close when the row has one.
    pub fn effective_close(&self) -> (r: Dec)
        ensures
            r == match self.adj_close {
                Some(a) => a,
                None => self.close,
            },
    {
        match self.adj_close {
            Some(a) => a,
            None => self.close,
        }
    }
}

/// A header row is in Yahoo layout when one of its columns is named `Date`.
pub open spec fn yahoo_headers(headers: Seq<Seq<char>>) -> bool {
    headers.contains("Date"@)
}

/// True when CSV headers indicate Yahoo layout (a `Date` column).
pub fn headers_are_yahoo(headers: &Vec<String>) -> (r: bool)
    ensures
        r == yahoo_headers(headers@.map_values(|h: String| h@)),
{
    let ghost hv = headers@.map_values(|h: String| h@);
    let mut i: usize = 0;
    while i < headers.len()
        invariant
            hv == headers@.map_values(|h: String| h@),
            i <= headers@.len(),
            forall|j: int| 0 <= j < i ==> (#[trigger] headers@[j])@ != "Date"@,
        decreases headers@.len() - i,
    {
        if crate::text::str_eq(headers[i].as_str(), "Date") {
            assert(hv[i as int] == "Date"@);
            return true;
        }
        i = i + 1;
    }
    proof {
        if hv.contains("Date"@) {
            let j = choose|j: int| 0 <= j < hv.len() && hv[j] == "Date"@;
            assert(headers@[j]@ == hv[j]);
        }
    }
    false
}


/// The member `key` of an object.
pub open spec fn member(v: JsonValue, key: Seq<char>) -> Option<JsonValue> {
    match v {
        JsonValue::Object(e) => lookup(e@, key),
        _ => None,
    }
}

/// The element `i` of an array.
pub open spec fn element(v: JsonValue, i: int) -> Option<JsonValue> {
    match v {
        JsonValue::Array(a) => if 0 <= i < a@.len() {
            Some(a@[i])
        } else {
            None
        },
        _ => None,
    }
}

/// The elements of an array value.
pub open spec fn elements(v: Option<JsonValue>) -> Option<Seq<JsonValue>> {
    match v {
        Some(JsonValue::Array(a)) => Some(a@),
        _ => None,
    }
}

/// Chain two optional lookups.
pub open spec fn and_member(v: Option<JsonValue>, key: Seq<char>) -> Option<JsonValue> {
    match v {
        Some(x) => member(x, key),
        None => None,
    }
}

/// Chain an optional element lookup.
pub open spec fn and_element(v: Option<JsonValue>, i: int) -> Option<JsonValue> {
    match v {
        Some(x) => element(x, i),
        None => None,
    }
}

/// A price column of the quote: its elements, or none when it is missing or not an array.
pub open spec fn column_of(v: Option<JsonValue>) -> Seq<JsonValue> {
    match elements(v) {
        Some(a) => a,
        None => Seq::empty(),
    }
}

/// The element `i` of a column, if it has one.
pub open spec fn cell(col: Seq<JsonValue>, i: int) -> Option<JsonValue> {
    if 0 <= i < col.len() {
        Some(col[i])
    } else {
        None
    }
}

/// A chart number: absent and `null` give none, a number gives the decimal of its float value
/// (`from_f64_retain`), anything else is an error.
pub open spec fn chart_number(v: Option<JsonValue>) -> Result<Option<Dec>, ()> {
    match v {
        None => Ok(None),
        Some(JsonValue::Null) => Ok(None),
        Some(JsonValue::Number(n)) => Ok(n.dec),
        Some(_) => Err(()),
    }
}

/// `YYYY-MM-DD` of a civil date (a leading `-` before year 0), as `time` prints a `Date`.
pub open spec fn date_text(d: CivilDate) -> Seq<char> {
    let y = d.year as int;
    let year = if y < 0 {
        "-"@ + padded((-y) as nat, 4)
    } else {
        padded(y as nat, 4)
    };
    year + "-"@ + padded(d.month as nat, 2) + "-"@ + padded(d.day as nat, 2)
}

/// The date column of a bar at Unix second `sec`: its UTC date, or the seconds when the
/// instant is out of range.
pub open spec fn chart_date(sec: i64) -> Seq<char> {
    if in_time_range(sec * 1_000_000_000, 0) {
        date_text(local_time_of(sec * 1_000_000_000, 0).date)
    } else {
        int_text(sec as int)
    }
}

/// The columns of a chart: timestamps, open, high, low, close, adjusted close, volume.
pub struct ChartColumns {
    pub timestamps: Seq<JsonValue>,
    pub opens: Seq<JsonValue>,
    pub highs: Seq<JsonValue>,
    pub lows: Seq<JsonValue>,
    pub closes: Seq<JsonValue>,
    pub adj_closes: Seq<JsonValue>,
    pub volumes: Seq<JsonValue>,
}

/// A bar as plain values: date, open, high, low, close, adjusted close, volume.
pub type ChartRow = (Seq<char>, Dec, Dec, Dec, Dec, Option<Dec>, Dec);

/// A bar's plain values.
pub open spec fn chart_row_of(b: YahooBar) -> ChartRow {
    (b.date@, b.open, b.high, b.low, b.close, b.adj_close, b.volume)
}

/// Zero for a missing value.
pub open spec fn or_zero(d: Option<Dec>) -> Dec {
    match d {
        Some(x) => x,
        None => zero_dec(),
    }
}

/// The bar of row `i`: none when the timestamp is not an integer or the close is missing;
/// an error when a value read is neither a number nor `null` (close first, then open, high,
/// low, adjusted close and volume).
pub open spec fn chart_row(c: ChartColumns, i: int) -> Result<Option<ChartRow>, ()> {
    let sec = match c.timestamps[i] {
        JsonValue::Number(n) => n.int,
        _ => None,
    };
    match sec {
        None => Ok(None),
        Some(sec) => match chart_number(cell(c.closes, i)) {
            Err(_) => Err(()),
            Ok(None) => Ok(None),
            Ok(Some(close)) => match (
                chart_number(cell(c.opens, i)),
                chart_number(cell(c.highs, i)),
                chart_number(cell(c.lows, i)),
                chart_number(cell(c.adj_closes, i)),
                chart_number(cell(c.volumes, i)),
            ) {
                (Ok(o), Ok(h), Ok(l), Ok(a), Ok(v)) => Ok(
                    Some((chart_date(sec), or_zero(o), or_zero(h), or_zero(l), close, a, or_zero(v))),
                ),
                _ => Err(()),
            },
        },
    }
}

/// The bars of the first `n` rows, or the error of the first failing row.
pub open spec fn chart_rows(c: ChartColumns, n: int) -> Result<Seq<ChartRow>, Seq<char>>
    decreases n,
{
    if n <= 0 {
        Ok(Seq::empty())
    } else {
        match chart_rows(c, n - 1) {
            Err(m) => Err(m),
            Ok(rows) => match chart_row(c, n - 1) {
                Err(_) => Err("yahoo number"@),
                Ok(None) => Ok(rows),
                Ok(Some(r)) => Ok(rows.push(r)),
            },
        }
    }
}

/// What the chart reader gives for a response body.
pub open spec fn chart_bars_of(body: JsonValue) -> Result<Seq<ChartRow>, Seq<char>> {
    let result = and_element(and_member(member(body, "chart"@), "result"@), 0);
    match result {
        None => Err("yahoo: missing result"@),
        Some(res) => match elements(member(res, "timestamp"@)) {
            None => Err("yahoo: missing timestamp"@),
            Some(ts) => match and_element(and_member(member(res, "indicators"@), "quote"@), 0) {
                None => Err("yahoo: missing quote"@),
                Some(q) => chart_rows(
                    ChartColumns {
                        timestamps: ts,
                        opens: column_of(member(q, "open"@)),
                        highs: column_of(member(q, "high"@)),
                        lows: column_of(member(q, "low"@)),
                        closes: column_of(member(q, "close"@)),
                        adj_closes: column_of(
                            and_member(
                                and_element(
                                    and_member(member(res, "indicators"@), "adjclose"@),
                                    0,
                                ),
                                "adjclose"@,
                            ),
                        ),
                        volumes: column_of(member(q, "volume"@)),
                    },
                    ts.len() as int,
                ),
            },
        },
    }
}

/// The member `key` of a value, if it is an object that has one.
fn get_member<'a>(v: &'a JsonValue, key: &str) -> (r: Option<&'a JsonValue>)
    ensures
        match r {
            Some(x) => member(*v, key@) == Some(*x),
            None => member(*v, key@).is_none(),
        },
{
    match v {
        JsonValue::Object(e) => match find_entry(e, key) {
            Some(i) => Some(&e[i].1),
            None => None,
        },
        _ => None,
    }
}

/// The first element of a value, if it is a non-empty array.
fn get_first<'a>(v: &'a JsonValue) -> (r: Option<&'a JsonValue>)
    ensures
        match r {
            Some(x) => element(*v, 0) == Some(*x),
            None => element(*v, 0).is_none(),
        },
{
    match v {
        JsonValue::Array(a) => if a.len() > 0 {
            Some(&a[0])
        } else {
            None
        },
        _ => None,
    }
}

/// Chain a member lookup.
fn then_member<'a>(v: Option<&'a JsonValue>, key: &str) -> (r: Option<&'a JsonValue>)
    ensures
        match r {
            Some(x) => and_member(opt_val(v), key@) == Some(*x),
            None => and_member(opt_val(v), key@).is_none(),
        },
{
    match v {
        Some(x) => get_member(x, key),
        None => None,
    }
}

/// Chain a first-element lookup.
fn then_first<'a>(v: Option<&'a JsonValue>) -> (r: Option<&'a JsonValue>)
    ensures
        match r {
            Some(x) => and_element(opt_val(v), 0) == Some(*x),
            None => and_element(opt_val(v), 0).is_none(),
        },
{
    match v {
        Some(x) => get_first(x),
        None => None,
    }
}

/// An optional reference as an optional value.
pub open spec fn opt_val(v: Option<&JsonValue>) -> Option<JsonValue> {
    match v {
        Some(x) => Some(*x),
        None => None,
    }
}

/// The elements of an array value, or none.
fn array_of<'a>(v: Option<&'a JsonValue>) -> (r: Option<&'a Vec<JsonValue>>)
    ensures
        match r {
            Some(a) => elements(opt_val(v)) == Some(a@),
            None => elements(opt_val(v)).is_none(),
        },
{
    match v {
        Some(JsonValue::Array(a)) => Some(a),
        _ => None,
    }
}

/// A price column, empty when missing.
fn column<'a>(v: Option<&'a JsonValue>, empty: &'a Vec<JsonValue>) -> (r: &'a Vec<JsonValue>)
    requires
        empty@.len() == 0,
    ensures
        r@ == column_of(opt_val(v)),
{
    match array_of(v) {
        Some(a) => a,
        None => {
            assert(empty@ =~= Seq::<JsonValue>::empty());
            empty
        },
    }
}

/// Read one chart number of a column.
fn read_number(col: &Vec<JsonValue>, i: usize) -> (r: Result<Option<Dec>, ()>)
    ensures
        r == chart_number(cell(col@, i as int)),
{
    if i >= col.len() {
        return Ok(None);
    }
    match &col[i] {
        JsonValue::Null => Ok(None),
        JsonValue::Number(n) => Ok(n.dec),
        _ => Err(()),
    }
}

/// Decimal text of an integer.
fn i64_text(n: i64) -> (r: String)
    ensures
        r@ == int_text(n as int),
{
    if n >= 0 {
        string_of(&u128_digits(n as u128))
    } else {
        let m: i128 = -(n as i128);
        let digits = u128_digits(m as u128);
        let mut s = String::new();
        proof {
            reveal_strlit("-");
        }
        s.append("-");
        let tail = string_of(&digits);
        s.append(tail.as_str());
        assert(s@ =~= seq!['-'] + nat_digits(m as nat));
        s
    }
}

/// The date column of a bar.
fn chart_date_text(sec: i64) -> (r: String)
    ensures
        r@ == chart_date(sec),
{
    match unix_seconds_instant(sec) {
        Some(ns) => {
            let lt = local_time(ns, 0).unwrap();
            let d = lt.date;
            let mut out: Vec<char> = Vec::new();
            let yd = if d.year < 0 {
                out.push('-');
                padded_digits((-(d.year as i64)) as u128, 4)
            } else {
                padded_digits(d.year as u128, 4)
            };
            let mut s = string_of(&out);
            s.append(string_of(&yd).as_str());
            s.append("-");
            s.append(string_of(&padded_digits(d.month as u128, 2)).as_str());
            s.append("-");
            s.append(string_of(&padded_digits(d.day as u128, 2)).as_str());
            proof {
                reveal_strlit("-");
                assert(s@ =~= date_text(d));
            }
            s
        },
        None => i64_text(sec),
    }
}

/// Read a Yahoo chart response: one bar per row whose timestamp is an integer and whose close
/// is present, in row order.
pub fn parse_chart_json(body: &JsonValue) -> (r: Result<Vec<YahooBar>, Error>)
    ensures
        match chart_bars_of(*body) {
            Ok(rows) => r matches Ok(v) && v@.len() == rows.len() && forall|k: int|
                0 <= k < rows.len() ==> #[trigger] chart_row_of(v@[k]) == rows[k],
            Err(m) => r matches Err(e) && e matches Error::Invalid(t) && t@ == m,
        },
{
    let result = then_first(then_member(get_member(body, "chart"), "result"));
    let res = match result {
        Some(x) => x,
        None => {
            return Err(Error::Invalid("yahoo: missing result".to_owned()));
        },
    };
    let ts = match array_of(get_member(res, "timestamp")) {
        Some(a) => a,
        None => {
            return Err(Error::Invalid("yahoo: missing timestamp".to_owned()));
        },
    };
    let indicators = get_member(res, "indicators");
    let q = match then_first(then_member(indicators, "quote")) {
        Some(x) => x,
        None => {
            return Err(Error::Invalid("yahoo: missing quote".to_owned()));
        },
    };
    let empty: Vec<JsonValue> = Vec::new();
    let opens = column(get_member(q, "open"), &empty);
    let highs = column(get_member(q, "high"), &empty);
    let lows = column(get_member(q, "low"), &empty);
    let closes = column(get_member(q, "close"), &empty);
    let adjs = column(then_member(then_first(then_member(indicators, "adjclose")), "adjclose"), &empty);
    let volumes = column(get_member(q, "volume"), &empty);
    let ghost c = ChartColumns {
        timestamps: ts@,
        opens: opens@,
        highs: highs@,
        lows: lows@,
        closes: closes@,
        adj_closes: adjs@,
        volumes: volumes@,
    };
    assert(chart_bars_of(*body) == chart_rows(c, ts@.len() as int));
    let mut bars: Vec<YahooBar> = Vec::new();
    let mut i: usize = 0;
    while i < ts.len()
        invariant
            i <= ts@.len(),
            chart_bars_of(*body) == chart_rows(c, ts@.len() as int),
            c.timestamps == ts@,
            c.opens == opens@,
            c.highs == highs@,
            c.lows == lows@,
            c.closes == closes@,
            c.adj_closes == adjs@,
            c.volumes == volumes@,
            chart_rows(c, i as int) matches Ok(rows) && bars@.len() == rows.len() && forall|k: int|
                0 <= k < rows.len() ==> #[trigger] chart_row_of(bars@[k]) == rows[k],
        decreases ts@.len() - i,
    {
        let ghost before = match chart_rows(c, i as int) {
            Ok(rows) => rows,
            Err(_) => Seq::empty(),
        };
        let sec = match &ts[i] {
            JsonValue::Number(n) => n.int,
            _ => None,
        };
        if let Some(sec) = sec {
            let close = match read_number(closes, i) {
                Ok(x) => x,
                Err(_) => {
                    proof {
                        lemma_chart_error_sticks(c, (i + 1) as int, ts@.len() as int);
                    }
                    return Err(Error::Invalid("yahoo number".to_owned()));
                },
            };
            if let Some(close) = close {
                let o = read_number(opens, i);
                let h = read_number(highs, i);
                let l = read_number(lows, i);
                let a = read_number(adjs, i);
                let v = read_number(volumes, i);
                match (o, h, l, a, v) {
                    (Ok(o), Ok(h), Ok(l), Ok(a), Ok(v)) => {
                        let date = chart_date_text(sec);
                        let bar = YahooBar {
                            date,
                            open: match o {
                                Some(x) => x,
                                None => Dec::zero(),
                            },
                            high: match h {
                                Some(x) => x,
                                None => Dec::zero(),
                            },
                            low: match l {
                                Some(x) => x,
                                None => Dec::zero(),
                            },
                            close,
                            adj_close: a,
                            volume: match v {
                                Some(x) => x,
                                None => Dec::zero(),
                            },
                        };
                        bars.push(bar);
                        proof {
                            assert(chart_rows(c, i + 1) == Ok::<Seq<ChartRow>, Seq<char>>(
                                before.push(chart_row_of(bar)),
                            ));
                        }
                    },
                    _ => {
                        proof {
                            lemma_chart_error_sticks(c, (i + 1) as int, ts@.len() as int);
                        }
                        return Err(Error::Invalid("yahoo number".to_owned()));
                    },
                }
            }
        }
        i = i + 1;
    }
    Ok(bars)
}

/// A failing row makes every longer prefix fail with the same message.
proof fn lemma_chart_error_sticks(c: ChartColumns, n: int, total: int)
    requires
        0 < n <= total,
        chart_rows(c, n) is Err,
    ensures
        chart_rows(c, total) == chart_rows(c, n),
    decreases total - n,
{
    if n < total {
        lemma_chart_error_sticks(c, n, total - 1);
    }
}

} // verus!
