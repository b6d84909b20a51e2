//! Alpha Vantage asset families and symbol normalization.

use crate::decimal::{dec_of, dec_parse, decimal_parse, Dec};
use crate::calendar::{days_from_civil, CivilDate};
use crate::error::Error;
use crate::export::OhlcvBar;
use crate::lifecycle::{iso_date, parse_iso_date};
use time::format_description;
use time::Date;
use crate::text::{
    ascii_lower, ascii_upper, chars_eq, chars_of, lower_chars, slice_chars, string_of, trim,
    trim_chars, upper_chars,
};
use vstd::prelude::*;

verus! {

/// Alpha Vantage daily asset family.
#[derive(Clone, Copy, Debug, PartialEq, Eq, Structural)]
pub enum AlphaVantageAsset {
    Equity,
    Crypto,
}

/// The asset family a lower-cased label denotes.
pub open spec fn asset_alias(l: Seq<char>) -> Option<AlphaVantageAsset> {
    if l == "equity"@ || l == "stock"@ || l == "stocks"@ || l == "etf"@ || l == "fund"@ {
        Some(AlphaVantageAsset::Equity)
    } else if l == "crypto"@ || l == "cryptocurrency"@ || l == "digital-currency"@ {
        Some(AlphaVantageAsset::Crypto)
    } else {
        None
    }
}

impl AlphaVantageAsset {
    /// Parse CLI-friendly asset labels (ASCII case-insensitive).
    pub fn parse(value: &str) -> (r: Option<AlphaVantageAsset>)
        ensures
            r == asset_alias(ascii_lower(value@)),
    {
        let l = lower_chars(value);
        if chars_eq(&l, "equity") || chars_eq(&l, "stock") || chars_eq(&l, "stocks") || chars_eq(
            &l,
            "etf",
        ) || chars_eq(&l, "fund") {
            Some(AlphaVantageAsset::Equity)
        } else if chars_eq(&l, "crypto") || chars_eq(&l, "cryptocurrency") || chars_eq(
            &l,
            "digital-currency",
        ) {
            Some(AlphaVantageAsset::Crypto)
        } else {
            None
        }
    }
}

/// Separator characters dropped from symbols.
pub open spec fn is_sep(c: char) -> bool {
    c == '-' || c == '/' || c == '_'
}

/// The text with every separator removed.
pub open spec fn remove_seps(s: Seq<char>) -> Seq<char>
    decreases s.len(),
{
    if s.len() == 0 {
        s
    } else if is_sep(s.last()) {
        remove_seps(s.drop_last())
    } else {
        remove_seps(s.drop_last()).push(s.last())
    }
}

/// `s` ends with `suf`.
pub open spec fn ends_with(s: Seq<char>, suf: Seq<char>) -> bool {
    suf.len() <= s.len() && s.subrange(s.len() - suf.len(), s.len() as int) == suf
}

/// Drop the first listed suffix that is non-empty, shorter than `s` and ends `s`.
pub open spec fn strip_first_suffix(s: Seq<char>, suffixes: Seq<Seq<char>>) -> Seq<char>
    decreases suffixes.len(),
{
    if suffixes.len() == 0 {
        s
    } else {
        let suf = suffixes[0];
        if suf.len() > 0 && s.len() > suf.len() && ends_with(s, suf) {
            s.subrange(0, s.len() - suf.len())
        } else {
            strip_first_suffix(s, suffixes.drop_first())
        }
    }
}

/// The symbol Alpha Vantage expects for a user symbol.
pub open spec fn av_symbol(asset: AlphaVantageAsset, symbol: Seq<char>, market: Seq<char>) -> Seq<char> {
    let base = ascii_upper(remove_seps(trim(symbol)));
    if asset == AlphaVantageAsset::Crypto {
        strip_first_suffix(base, seq![ascii_upper(trim(market)), "USDT"@, "USDC"@, "USD"@])
    } else {
        base
    }
}

fn remove_sep_chars(s: &[char]) -> (v: Vec<char>)
    ensures
        v@ == remove_seps(s@),
{
    let mut v: Vec<char> = Vec::new();
    let mut i: usize = 0;
    while i < s.len()
        invariant
            i <= s.len(),
            v@ == remove_seps(s@.subrange(0, i as int)),
        decreases s.len() - i,
    {
        let c = s[i];
        proof {
            assert(s@.subrange(0, i + 1).drop_last() =~= s@.subrange(0, i as int));
        }
        if !(c == '-' || c == '/' || c == '_') {
            v.push(c);
        }
        i = i + 1;
    }
    assert(s@.subrange(0, s.len() as int) =~= s@);
    v
}

fn ends_with_chars(s: &[char], suf: &[char]) -> (r: bool)
    ensures
        r == ends_with(s@, suf@),
{
    if suf.len() > s.len() {
        return false;
    }
    let off = s.len() - suf.len();
    let mut i: usize = 0;
    while i < suf.len()
        invariant
            off == s.len() - suf.len(),
            i <= suf.len(),
            forall|j: int| 0 <= j < i ==> s@[off + j] == suf@[j],
        decreases suf.len() - i,
    {
        if s[off + i] != suf[i] {
            assert(s@.subrange(off as int, s.len() as int)[i as int] != suf@[i as int]);
            return false;
        }
        i = i + 1;
    }
    assert(s@.subrange(off as int, s.len() as int) =~= suf@);
    true
}

/// Normalize a user symbol for Alpha Vantage: trim, drop `-`, `/`, `_`, upper-case ASCII, and
/// for crypto drop the first matching market / USDT / USDC / USD suffix.
pub fn normalize_alpha_vantage_symbol(asset: AlphaVantageAsset, symbol: &str, market: &str) -> (r: String)
    ensures
        r@ == av_symbol(asset, symbol@, market@),
{
    let sc = chars_of(symbol);
    let t = trim_chars(&sc);
    let stripped = remove_sep_chars(&t);
    let base = upper_chars(&stripped);
    if asset != AlphaVantageAsset::Crypto {
        return string_of(&base);
    }
    let mc = chars_of(market);
    let mt = trim_chars(&mc);
    let m = upper_chars(&mt);
    let usdt = chars_of("USDT");
    let usdc = chars_of("USDC");
    let usd = chars_of("USD");
    let ghost suffixes = seq![ascii_upper(trim(market@)), "USDT"@, "USDC"@, "USD"@];
    assert(suffixes.skip(0) =~= suffixes);
    let mut k: usize = 0;
    while k < 4
        invariant
            k <= 4,
            asset == AlphaVantageAsset::Crypto,
            base@ == ascii_upper(remove_seps(trim(symbol@))),
            m@ == suffixes[0],
            usdt@ == suffixes[1],
            usdc@ == suffixes[2],
            usd@ == suffixes[3],
            suffixes == seq![ascii_upper(trim(market@)), "USDT"@, "USDC"@, "USD"@],
            strip_first_suffix(base@, suffixes) == strip_first_suffix(base@, suffixes.skip(k as int)),
        decreases 4 - k,
    {
        let suf: &Vec<char> = if k == 0 {
            &m
        } else if k == 1 {
            &usdt
        } else if k == 2 {
            &usdc
        } else {
            &usd
        };
        assert(suffixes.skip(k as int)[0] == suf@);
        assert(suffixes.skip(k as int).drop_first() =~= suffixes.skip(k + 1));
        if suf.len() > 0 && base.len() > suf.len() && ends_with_chars(&base, suf) {
            let out = slice_chars(&base, 0, base.len() - suf.len());
            let r = string_of(&out);
            assert(r@ == strip_first_suffix(base@, suffixes.skip(k as int)));
            assert(r@ == strip_first_suffix(base@, suffixes));
            assert(av_symbol(asset, symbol@, market@) == strip_first_suffix(base@, suffixes));
            return r;
        }
        k = k + 1;
    }
    assert(suffixes.skip(4) =~= Seq::<Seq<char>>::empty());
    string_of(&base)
}

/// A JSON number as the readers see it: its value as an `i64` when it is one (`as_i64`), and
/// the decimal `Decimal::from_f64_retain` gives for its float value (the program converts the
/// float).
#[derive(Clone, Copy, Debug)]
pub struct JsonNumber {
    pub int: Option<i64>,
    pub dec: Option<Dec>,
}

/// A JSON value as the market-data readers see it.
#[derive(Debug)]
pub enum JsonValue {
    Str(String),
    Number(JsonNumber),
    Array(Vec<JsonValue>),
    Object(Vec<(String, JsonValue)>),
    /// `null`.
    Null,
    /// `true` or `false`.
    Other,
}

/// Every number among the entries is a well-formed decimal.
pub open spec fn numbers_wf(entries: Seq<(String, JsonValue)>) -> bool {
    forall|k: int| 0 <= k < entries.len() ==> ((#[trigger] entries[k]).1 matches JsonValue::Number(n) ==> (n.dec matches Some(d) ==> d.wf()))
}

/// The value of the first entry named `key`, if any.
pub open spec fn lookup(entries: Seq<(String, JsonValue)>, key: Seq<char>) -> Option<JsonValue>
    decreases entries.len(),
{
    if entries.len() == 0 {
        None
    } else if entries[0].0@ == key {
        Some(entries[0].1)
    } else {
        lookup(entries.drop_first(), key)
    }
}

/// Position of the first entry named `key`.
pub(crate) fn find_entry(entries: &Vec<(String, JsonValue)>, key: &str) -> (r: Option<usize>)
    ensures
        match r {
            Some(i) => i < entries@.len() && lookup(entries@, key@) == Some(entries@[i as int].1),
            None => lookup(entries@, key@).is_none(),
        },
{
    let mut i: usize = 0;
    assert(entries@.subrange(0, entries@.len() as int) =~= entries@);
    while i < entries.len()
        invariant
            i <= entries@.len(),
            lookup(entries@, key@) == lookup(entries@.subrange(i as int, entries@.len() as int), key@),
        decreases entries@.len() - i,
    {
        proof {
            let rest = entries@.subrange(i as int, entries@.len() as int);
            assert(rest.drop_first() =~= entries@.subrange(i + 1, entries@.len() as int));
        }
        if crate::text::str_eq(entries[i].0.as_str(), key) {
            return Some(i);
        }
        i = i + 1;
    }
    proof {
        assert(entries@.subrange(i as int, entries@.len() as int).len() == 0);
    }
    None
}

/// Series key of the daily response of each asset family.
pub open spec fn series_key(asset: AlphaVantageAsset) -> Seq<char> {
    match asset {
        AlphaVantageAsset::Equity => "Time Series (Daily)"@,
        AlphaVantageAsset::Crypto => "Time Series (Digital Currency Daily)"@,
    }
}

/// The service's own error message, if the body carries one (`Error Message`, then
/// `Information`, then `Note`).
pub open spec fn service_error(body: Seq<(String, JsonValue)>) -> Option<Seq<char>> {
    match lookup(body, "Error Message"@) {
        Some(JsonValue::Str(m)) => Some("alpha vantage: "@ + m@),
        _ => match lookup(body, "Information"@) {
            Some(JsonValue::Str(m)) => Some("alpha vantage: "@ + m@),
            _ => match lookup(body, "Note"@) {
                Some(JsonValue::Str(m)) => Some("alpha vantage: "@ + m@),
                _ => None,
            },
        },
    }
}

/// `needle` occurs in `hay`.
pub open spec fn contains_text(hay: Seq<char>, needle: Seq<char>) -> bool {
    exists|i: int| 0 <= i && i + needle.len() <= hay.len() && #[trigger] hay.subrange(i, i + needle.len()) == needle
}

/// Whether `needle` starts at position `i` of `hay`.
fn text_at(hay: &Vec<char>, needle: &Vec<char>, i: usize) -> (r: bool)
    requires
        i + needle@.len() <= hay@.len(),
    ensures
        r == (hay@.subrange(i as int, i + needle@.len()) == needle@),
{
    let n = hay.len();
    let mut j: usize = 0;
    while j < needle.len()
        invariant
            n == hay@.len(),
            i + needle@.len() <= hay@.len(),
            j <= needle@.len(),
            forall|t: int| 0 <= t < j ==> hay@[i + t] == needle@[t],
        decreases needle@.len() - j,
    {
        if hay[i + j] != needle[j] {
            assert(hay@.subrange(i as int, i + needle@.len())[j as int] != needle@[j as int]);
            return false;
        }
        j = j + 1;
    }
    assert(hay@.subrange(i as int, i + needle@.len()) =~= needle@);
    true
}

/// Whether `needle` occurs in `hay`.
fn has_text(hay: &Vec<char>, needle: &Vec<char>) -> (r: bool)
    ensures
        r == contains_text(hay@, needle@),
{
    if needle.len() > hay.len() {
        return false;
    }
    let last = hay.len() - needle.len();
    let mut i: usize = 0;
    loop
        invariant
            needle@.len() <= hay@.len(),
            last == hay@.len() - needle@.len(),
            i <= last,
            forall|k: int| 0 <= k < i ==> #[trigger] hay@.subrange(k, k + needle@.len()) != needle@,
        decreases last - i,
    {
        if text_at(hay, needle, i) {
            return true;
        }
        if i == last {
            proof {
                assert forall|k: int| 0 <= k && k + needle@.len() <= hay@.len() implies #[trigger] hay@.subrange(
                    k,
                    k + needle@.len(),
                ) != needle@ by {
                    assert(k <= last);
                }
            }
            return false;
        }
        i = i + 1;
    }
}

/// The first entry among the first `n` whose lower-cased key holds `field` and, unless the
/// market is empty, the lower-cased market.
pub open spec fn first_key_with(row: Seq<(String, JsonValue)>, field: Seq<char>, market: Option<Seq<char>>, n: int) -> Option<int>
    decreases n,
{
    if n <= 0 {
        None
    } else {
        match first_key_with(row, field, market, n - 1) {
            Some(k) => Some(k),
            None => {
                let l = ascii_lower(row[n - 1].0@);
                if contains_text(l, field) && match market {
                    Some(m) => contains_text(l, m),
                    None => true,
                } {
                    Some(n - 1)
                } else {
                    None
                }
            },
        }
    }
}

/// The key and value a price or volume column is read from: the exact key, else the first key
/// naming the field and the market, else the first key naming the field.
pub open spec fn pick_field(row: Seq<(String, JsonValue)>, exact: Seq<char>, field: Seq<char>, market: Seq<char>) -> Option<(Seq<char>, JsonValue)> {
    match lookup(row, exact) {
        Some(v) => Some((exact, v)),
        None => {
            let m = ascii_lower(market);
            let with_market = first_key_with(
                row,
                field,
                if m.len() == 0 {
                    None
                } else {
                    Some(m)
                },
                row.len() as int,
            );
            match with_market {
                Some(k) => Some((row[k].0@, row[k].1)),
                None => match first_key_with(row, field, None, row.len() as int) {
                    Some(k) => Some((row[k].0@, row[k].1)),
                    None => None,
                },
            }
        },
    }
}

/// The decimal a picked value gives, or the message.
pub open spec fn value_decimal(v: JsonValue, key: Seq<char>) -> Result<Dec, Seq<char>> {
    match v {
        JsonValue::Str(t) => match decimal_parse(t@) {
            Some(p) => Ok(dec_of(p)),
            None => Err("alpha vantage bad decimal: "@ + key),
        },
        JsonValue::Number(n) => match n.dec {
            Some(d) => Ok(d),
            None => Err("alpha vantage bad decimal: "@ + key),
        },
        _ => Err("alpha vantage numeric field is not a string: "@ + key),
    }
}

/// The decimal of a column, or the message.
pub open spec fn field_value(row: Seq<(String, JsonValue)>, exact: Seq<char>, field: Seq<char>, market: Seq<char>) -> Result<Dec, Seq<char>> {
    match pick_field(row, exact, field, market) {
        Some((k, v)) => value_decimal(v, k),
        None => Err("alpha vantage: missing numeric field"@),
    }
}

/// Position of the first entry whose lower-cased key holds `field` (and `market`, if given).
fn find_key_with(row: &Vec<(String, JsonValue)>, field: &Vec<char>, market: &Option<Vec<char>>) -> (r: Option<usize>)
    ensures
        opt_index(r) == first_key_with(
            row@,
            field@,
            match market {
                Some(m) => Some(m@),
                None => None,
            },
            row@.len() as int,
        ),
        r matches Some(k) ==> k < row@.len(),
{
    let ghost mv = match market {
        Some(m) => Some(m@),
        None => None::<Seq<char>>,
    };
    let mut i: usize = 0;
    while i < row.len()
        invariant
            i <= row@.len(),
            mv == match market {
                Some(m) => Some(m@),
                None => None,
            },
            first_key_with(row@, field@, mv, i as int).is_none(),
        decreases row@.len() - i,
    {
        let l = lower_chars(row[i].0.as_str());
        let hit = has_text(&l, field) && match market {
            Some(m) => has_text(&l, m),
            None => true,
        };
        if hit {
            proof {
                lemma_first_key_with_from(row@, field@, mv, i as int + 1, row@.len() as int);
            }
            return Some(i);
        }
        i = i + 1;
    }
    None
}

/// Once found among the first `n`, the same entry is found among more.
proof fn lemma_first_key_with_from(row: Seq<(String, JsonValue)>, field: Seq<char>, market: Option<Seq<char>>, n: int, m: int)
    requires
        n <= m,
        first_key_with(row, field, market, n) is Some,
    ensures
        first_key_with(row, field, market, m) == first_key_with(row, field, market, n),
    decreases m - n,
{
    if n < m {
        lemma_first_key_with_from(row, field, market, n, m - 1);
    }
}

/// An index as a plain integer.
pub open spec fn opt_index(r: Option<usize>) -> Option<int> {
    match r {
        Some(k) => Some(k as int),
        None => None,
    }
}

/// Read one price or volume column of a daily row.
fn field_decimal(row: &Vec<(String, JsonValue)>, exact: &str, field: &str, market: &str) -> (r: Result<Dec, Error>)
    requires
        numbers_wf(row@),
    ensures
        match field_value(row@, exact@, field@, market@) {
            Ok(d) => r matches Ok(x) && x == d && x.wf(),
            Err(m) => r matches Err(e) && e matches Error::Invalid(t) && t@ == m,
        },
{
    let (key, value): (String, &JsonValue) = match find_entry(row, exact) {
        Some(i) => (exact.to_owned(), &row[i].1),
        None => {
            let fv = chars_of(field);
            let m = lower_chars(market);
            let mk = if m.len() == 0 {
                None
            } else {
                Some(m)
            };
            match find_key_with(row, &fv, &mk) {
                Some(k) => (row[k].0.clone(), &row[k].1),
                None => match find_key_with(row, &fv, &None) {
                    Some(k) => (row[k].0.clone(), &row[k].1),
                    None => {
                        return Err(Error::Invalid("alpha vantage: missing numeric field".to_owned()));
                    },
                },
            }
        },
    };
    decimal_value(value, key.as_str())
}

/// The decimal of a picked value.
fn decimal_value(value: &JsonValue, key: &str) -> (r: Result<Dec, Error>)
    requires
        value matches JsonValue::Number(n) ==> (n.dec matches Some(d) ==> d.wf()),
    ensures
        match value_decimal(*value, key@) {
            Ok(d) => r matches Ok(x) && x == d && x.wf(),
            Err(m) => r matches Err(e) && e matches Error::Invalid(t) && t@ == m,
        },
{
    match value {
        JsonValue::Str(t) => match dec_parse(t.as_str()) {
            Some(d) => Ok(d),
            None => {
                let mut m = "alpha vantage bad decimal: ".to_owned();
                m.append(key);
                Err(Error::Invalid(m))
            },
        },
        JsonValue::Number(n) => match n.dec {
            Some(d) => Ok(d),
            None => {
                let mut m = "alpha vantage bad decimal: ".to_owned();
                m.append(key);
                Err(Error::Invalid(m))
            },
        },
        _ => {
            let mut m = "alpha vantage numeric field is not a string: ".to_owned();
            m.append(key);
            Err(Error::Invalid(m))
        },
    }
}

/// The message `time` gives when it refuses a `[year]-[month]-[day]` text.
pub uninterp spec fn iso_date_error(s: Seq<char>) -> Seq<char>;

/// Trusted: the `Display` of the error `time::Date::parse` returns for the format description
/// `[year]-[month]-[day]` (empty when the text parses); named by `iso_date_error`.
#[verifier::external_body]
fn date_error_text(s: &str) -> (r: String)
    ensures
        r@ == iso_date_error(s@),
{
    match format_description::parse_borrowed::<2>("[year]-[month]-[day]") {
        Ok(fmt) => match Date::parse(s, &fmt) {
            Ok(_) => String::new(),
            Err(e) => format!("{}", e),
        },
        Err(e) => format!("{}", e),
    }
}

/// Unix nanoseconds of UTC midnight of a date.
pub open spec fn midnight_nanos(d: CivilDate) -> int {
    days_from_civil(d.year as int, d.month as int, d.day as int) * 86_400_000_000_000
}

/// Days since 1970-01-01 of a valid date.
fn days_since_epoch(d: CivilDate) -> (r: i64)
    requires
        d.wf(),
    ensures
        r == days_from_civil(d.year as int, d.month as int, d.day as int),
{
    let y = d.year as i64;
    let m = d.month as i64;
    let dd = d.day as i64;
    let yy = if m <= 2 {
        y - 1
    } else {
        y
    };
    let era = (yy + 10000) / 400 - 25;
    let yoe = yy - era * 400;
    let mp = if m > 2 {
        m - 3
    } else {
        m + 9
    };
    let doy = (153 * mp + 2) / 5 + dd - 1;
    let doe = yoe * 365 + yoe / 4 - yoe / 100 + doy;
    proof {
        let yi = yy as int;
        assert(era as int == yi / 400) by {
            assert((yi + 10000) / 400 == yi / 400 + 25);
        }
    }
    era * 146097 + doe - 719468
}

/// The bar one series entry gives, or the message: the row must be an object, the key a
/// `[year]-[month]-[day]` date (stamped at UTC midnight), and the open, high, low, close and
/// volume columns readable, in that order.
pub open spec fn daily_bar(date: Seq<char>, row: JsonValue, market: Seq<char>) -> Result<OhlcvBar, Seq<char>> {
    match row {
        JsonValue::Object(fields) => match iso_date(date) {
            None => Err("alpha vantage date: "@ + iso_date_error(date)),
            Some(d) => match (
                field_value(fields@, "1. open"@, "open"@, market),
                field_value(fields@, "2. high"@, "high"@, market),
                field_value(fields@, "3. low"@, "low"@, market),
                field_value(fields@, "4. close"@, "close"@, market),
                field_value(fields@, "5. volume"@, "volume"@, market),
            ) {
                (Err(m), _, _, _, _) => Err(m),
                (Ok(_), Err(m), _, _, _) => Err(m),
                (Ok(_), Ok(_), Err(m), _, _) => Err(m),
                (Ok(_), Ok(_), Ok(_), Err(m), _) => Err(m),
                (Ok(_), Ok(_), Ok(_), Ok(_), Err(m)) => Err(m),
                (Ok(o), Ok(h), Ok(l), Ok(c), Ok(v)) => Ok(
                    OhlcvBar { ts: midnight_nanos(d) as i128, open: o, high: h, low: l, close: c, volume: v },
                ),
            },
        },
        _ => Err("alpha vantage: bad row for "@ + date),
    }
}

/// The bars of the first `n` series entries, in entry order, or the first message.
pub open spec fn daily_bars(series: Seq<(String, JsonValue)>, market: Seq<char>, n: int) -> Result<Seq<OhlcvBar>, Seq<char>>
    decreases n,
{
    if n <= 0 {
        Ok(Seq::empty())
    } else {
        match daily_bars(series, market, n - 1) {
            Err(m) => Err(m),
            Ok(bars) => match daily_bar(series[n - 1].0@, series[n - 1].1, market) {
                Err(m) => Err(m),
                Ok(b) => Ok(bars.push(b)),
            },
        }
    }
}

/// Where a bar at time `t` goes in a time-ordered list: after every bar at or before `t`.
pub open spec fn slot_after(s: Seq<OhlcvBar>, t: i128, i: int) -> int
    decreases s.len() - i,
{
    if i < 0 || i >= s.len() {
        s.len() as int
    } else if s[i].ts > t {
        i
    } else {
        slot_after(s, t, i + 1)
    }
}

/// The first `n` bars ordered by time, bars with equal times kept in their order (each bar
/// inserted after those at or before its time).
pub open spec fn ordered_by_time(s: Seq<OhlcvBar>, n: int) -> Seq<OhlcvBar>
    decreases n,
{
    if n <= 0 {
        Seq::empty()
    } else {
        let prev = ordered_by_time(s, n - 1);
        prev.insert(slot_after(prev, s[n - 1].ts, 0), s[n - 1])
    }
}

/// Bars oldest first.
pub open spec fn oldest_first(s: Seq<OhlcvBar>) -> bool {
    forall|a: int, b: int| 0 <= a < b < s.len() ==> (#[trigger] s[a]).ts <= (#[trigger] s[b]).ts
}

/// In an oldest-first list, the slot for `t` follows every bar at or before `t` and precedes
/// every later one.
proof fn lemma_slot_splits(s: Seq<OhlcvBar>, t: i128, i: int)
    requires
        oldest_first(s),
        0 <= i <= s.len(),
        forall|k: int| 0 <= k < i ==> (#[trigger] s[k]).ts <= t,
    ensures
        i <= slot_after(s, t, i) <= s.len(),
        forall|k: int| 0 <= k < slot_after(s, t, i) ==> (#[trigger] s[k]).ts <= t,
        forall|k: int| slot_after(s, t, i) <= k < s.len() ==> (#[trigger] s[k]).ts > t,
    decreases s.len() - i,
{
    if i < s.len() && s[i].ts <= t {
        lemma_slot_splits(s, t, i + 1);
    }
}

/// Reading a daily response gives its bars oldest first.
pub proof fn law_daily_bars_oldest_first(s: Seq<OhlcvBar>, n: int)
    requires
        0 <= n <= s.len(),
    ensures
        oldest_first(ordered_by_time(s, n)),
        ordered_by_time(s, n).len() == n,
    decreases n,
{
    if n > 0 {
        law_daily_bars_oldest_first(s, n - 1);
        let prev = ordered_by_time(s, n - 1);
        let b = s[n - 1];
        lemma_slot_splits(prev, b.ts, 0);
        let p = slot_after(prev, b.ts, 0);
        let out = prev.insert(p, b);
        assert forall|x: int, y: int| 0 <= x < y < out.len() implies (#[trigger] out[x]).ts <= (
        #[trigger] out[y]).ts by {
            if y < p {
                assert(out[x] == prev[x] && out[y] == prev[y]);
            } else if y == p {
                assert(out[x] == prev[x]);
            } else if x < p {
                assert(out[x] == prev[x] && out[y] == prev[y - 1]);
            } else if x == p {
                assert(out[y] == prev[y - 1]);
            } else {
                assert(out[x] == prev[x - 1] && out[y] == prev[y - 1]);
            }
        }
    }
}

/// Every number in the series rows is a well-formed decimal.
pub open spec fn series_numbers_wf(series: Seq<(String, JsonValue)>) -> bool {
    forall|k: int|
        0 <= k < series.len() ==> ((#[trigger] series[k]).1 matches JsonValue::Object(fields) ==> numbers_wf(fields@))
}

/// What reading a daily response gives: the service's error, a missing series, a bad entry, or
/// the bars ordered by time.
pub open spec fn daily_result(body: Seq<(String, JsonValue)>, asset: AlphaVantageAsset, market: Seq<char>) -> Result<Seq<OhlcvBar>, Seq<char>> {
    match service_error(body) {
        Some(m) => Err(m),
        None => match lookup(body, series_key(asset)) {
            Some(JsonValue::Object(series)) => match daily_bars(series@, market, series@.len() as int) {
                Err(m) => Err(m),
                Ok(bars) => Ok(ordered_by_time(bars, bars.len() as int)),
            },
            _ => Err("alpha vantage: missing "@ + series_key(asset)),
        },
    }
}

/// A slot lies within the list.
proof fn lemma_slot_bound(s: Seq<OhlcvBar>, t: i128, i: int)
    requires
        0 <= i,
    ensures
        slot_after(s, t, i) <= s.len(),
    decreases s.len() - i,
{
    if i < s.len() && s[i].ts <= t {
        lemma_slot_bound(s, t, i + 1);
    }
}

/// Once an entry is refused, every longer prefix is refused for the same reason.
proof fn lemma_daily_bars_error(series: Seq<(String, JsonValue)>, market: Seq<char>, n: int, m: int)
    requires
        n <= m,
        daily_bars(series, market, n) is Err,
    ensures
        daily_bars(series, market, m) == daily_bars(series, market, n),
    decreases m - n,
{
    if n < m {
        lemma_daily_bars_error(series, market, n, m - 1);
    }
}

/// Position after every bar at or before `t`.
fn find_slot(s: &Vec<OhlcvBar>, t: i128) -> (r: usize)
    ensures
        r == slot_after(s@, t, 0),
{
    let mut i: usize = 0;
    while i < s.len()
        invariant
            i <= s@.len(),
            slot_after(s@, t, 0) == slot_after(s@, t, i as int),
        decreases s@.len() - i,
    {
        if s[i].ts > t {
            return i;
        }
        i = i + 1;
    }
    i
}

/// Read one series entry.
fn read_daily_bar(date: &String, row: &JsonValue, market: &str) -> (r: Result<OhlcvBar, Error>)
    requires
        row matches JsonValue::Object(fields) ==> numbers_wf(fields@),
    ensures
        match daily_bar(date@, *row, market@) {
            Ok(b) => r matches Ok(x) && x == b,
            Err(m) => r matches Err(e) && e matches Error::Invalid(t) && t@ == m,
        },
{
    let fields = match row {
        JsonValue::Object(f) => f,
        _ => {
            let mut m = "alpha vantage: bad row for ".to_owned();
            m.append(date.as_str());
            return Err(Error::Invalid(m));
        },
    };
    let d = match parse_iso_date(date.as_str()) {
        Some(d) => d,
        None => {
            let mut m = "alpha vantage date: ".to_owned();
            let e = date_error_text(date.as_str());
            m.append(e.as_str());
            return Err(Error::Invalid(m));
        },
    };
    let open = field_decimal(fields, "1. open", "open", market)?;
    let high = field_decimal(fields, "2. high", "high", market)?;
    let low = field_decimal(fields, "3. low", "low", market)?;
    let close = field_decimal(fields, "4. close", "close", market)?;
    let volume = field_decimal(fields, "5. volume", "volume", market)?;
    let days = days_since_epoch(d);
    let ts = (days as i128) * 86_400_000_000_000i128;
    Ok(OhlcvBar { ts, open, high, low, close, volume })
}

/// The service's message under `key`, when it is a text.
fn service_message(body: &Vec<(String, JsonValue)>, key: &str) -> (r: Option<String>)
    ensures
        match lookup(body@, key@) {
            Some(JsonValue::Str(t)) => r matches Some(m) && m@ == "alpha vantage: "@ + t@,
            _ => r.is_none(),
        },
{
    match find_entry(body, key) {
        Some(i) => match &body[i].1 {
            JsonValue::Str(message) => {
                let mut m = "alpha vantage: ".to_owned();
                m.append(message.as_str());
                Some(m)
            },
            _ => None,
        },
        None => None,
    }
}

/// Read an Alpha Vantage daily response into bars ordered by time.
pub fn parse_daily_json(body: &Vec<(String, JsonValue)>, asset: AlphaVantageAsset, market: &str) -> (r: Result<Vec<OhlcvBar>, Error>)
    requires
        forall|k: int|
            0 <= k < body@.len() ==> ((#[trigger] body@[k]).1 matches JsonValue::Object(series) ==> series_numbers_wf(series@)),
    ensures
        match daily_result(body@, asset, market@) {
            Ok(bars) => r matches Ok(v) && v@ == bars,
            Err(m) => r matches Err(e) && e matches Error::Invalid(t) && t@ == m,
        },
{
    if let Some(m) = service_message(body, "Error Message") {
        return Err(Error::Invalid(m));
    }
    if let Some(m) = service_message(body, "Information") {
        return Err(Error::Invalid(m));
    }
    if let Some(m) = service_message(body, "Note") {
        return Err(Error::Invalid(m));
    }
    let key = match asset {
        AlphaVantageAsset::Equity => "Time Series (Daily)",
        AlphaVantageAsset::Crypto => "Time Series (Digital Currency Daily)",
    };
    let series = match find_entry(body, key) {
        Some(i) => match &body[i].1 {
            JsonValue::Object(s) => s,
            _ => {
                let mut m = "alpha vantage: missing ".to_owned();
                m.append(key);
                return Err(Error::Invalid(m));
            },
        },
        None => {
            let mut m = "alpha vantage: missing ".to_owned();
            m.append(key);
            return Err(Error::Invalid(m));
        },
    };
    proof {
        assert(service_error(body@).is_none());
        assert(key@ == series_key(asset));
    }
    let mut bars: Vec<OhlcvBar> = Vec::new();
    let mut i: usize = 0;
    while i < series.len()
        invariant
            i <= series@.len(),
            series_numbers_wf(series@),
            daily_bars(series@, market@, i as int) == Ok::<Seq<OhlcvBar>, Seq<char>>(bars@),
            daily_result(body@, asset, market@) == match daily_bars(
                series@,
                market@,
                series@.len() as int,
            ) {
                Err(m) => Err(m),
                Ok(bs) => Ok(ordered_by_time(bs, bs.len() as int)),
            },
        decreases series@.len() - i,
    {
        let b = match read_daily_bar(&series[i].0, &series[i].1, market) {
            Ok(b) => b,
            Err(e) => {
                proof {
                    assert(daily_bars(series@, market@, i + 1) is Err);
                    lemma_daily_bars_error(series@, market@, i + 1, series@.len() as int);
                }
                return Err(e);
            },
        };
        bars.push(b);
        i = i + 1;
    }
    let mut out: Vec<OhlcvBar> = Vec::new();
    let mut k: usize = 0;
    while k < bars.len()
        invariant
            k <= bars@.len(),
            out@ == ordered_by_time(bars@, k as int),
        decreases bars@.len() - k,
    {
        let b = bars[k];
        let pos = find_slot(&out, b.ts);
        proof {
            lemma_slot_bound(out@, b.ts, 0);
        }
        out.insert(pos, b);
        k = k + 1;
    }
    Ok(out)
}

} // verus!
