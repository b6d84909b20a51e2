//! Databento request vocabulary, cache-file naming and fixed-point price text.

use crate::calendar::{in_time_range, local_time, local_time_of, LocalTime};
use crate::error::Error;
use time::format_description;
use time::format_description::well_known::Rfc3339;
use time::{Date, OffsetDateTime, PrimitiveDateTime};
use crate::text::{
    ascii_lower, chars_eq, chars_of, concat3, digit_char, is_ascii_alnum, is_ws, nat_digits,
    push_char, str_eq, string_of, trim, trim_chars, trim_end_idx, trim_lower, trim_start_idx,
    u128_digits,
};
use vstd::prelude::*;

verus! {

/// Explicit Databento OHLCV adjustment policy.
#[derive(Clone, Copy, Debug, PartialEq, Eq, Structural)]
pub enum AdjustmentMode {
    Raw,
    SplitAdjusted,
    TotalReturnAdjusted,
}

/// Historical Databento OHLCV schemas accepted by the engine CSV cache.
#[derive(Clone, Copy, Debug, PartialEq, Eq, Structural)]
pub enum DatabentoOhlcvSchema {
    Ohlcv1S,
    Ohlcv1M,
    Ohlcv1H,
    Ohlcv1D,
}

/// Databento input symbology type accepted at the CLI boundary.
#[derive(Clone, Copy, Debug, PartialEq, Eq, Structural)]
pub enum DatabentoSType {
    RawSymbol,
    InstrumentId,
    Continuous,
    Parent,
    NasdaqSymbol,
    CmsSymbol,
}

/// Stable name of an adjustment policy.
pub open spec fn adjustment_name(m: AdjustmentMode) -> Seq<char> {
    match m {
        AdjustmentMode::Raw => "raw"@,
        AdjustmentMode::SplitAdjusted => "split-adjusted"@,
        AdjustmentMode::TotalReturnAdjusted => "total-return-adjusted"@,
    }
}

/// Stable name of a schema.
pub open spec fn schema_name(s: DatabentoOhlcvSchema) -> Seq<char> {
    match s {
        DatabentoOhlcvSchema::Ohlcv1S => "ohlcv-1s"@,
        DatabentoOhlcvSchema::Ohlcv1M => "ohlcv-1m"@,
        DatabentoOhlcvSchema::Ohlcv1H => "ohlcv-1h"@,
        DatabentoOhlcvSchema::Ohlcv1D => "ohlcv-1d"@,
    }
}

/// Stable name of a symbology type.
pub open spec fn stype_name(s: DatabentoSType) -> Seq<char> {
    match s {
        DatabentoSType::RawSymbol => "raw_symbol"@,
        DatabentoSType::InstrumentId => "instrument_id"@,
        DatabentoSType::Continuous => "continuous"@,
        DatabentoSType::Parent => "parent"@,
        DatabentoSType::NasdaqSymbol => "nasdaq_symbol"@,
        DatabentoSType::CmsSymbol => "cms_symbol"@,
    }
}

/// The adjustment policy named by a normalized text.
pub open spec fn adjustment_of(l: Seq<char>) -> Option<AdjustmentMode> {
    if l == "raw"@ {
        Some(AdjustmentMode::Raw)
    } else if l == "split-adjusted"@ {
        Some(AdjustmentMode::SplitAdjusted)
    } else if l == "total-return-adjusted"@ {
        Some(AdjustmentMode::TotalReturnAdjusted)
    } else {
        None
    }
}

/// The schema named by a normalized text.
pub open spec fn schema_of(l: Seq<char>) -> Option<DatabentoOhlcvSchema> {
    if l == "ohlcv-1s"@ {
        Some(DatabentoOhlcvSchema::Ohlcv1S)
    } else if l == "ohlcv-1m"@ {
        Some(DatabentoOhlcvSchema::Ohlcv1M)
    } else if l == "ohlcv-1h"@ {
        Some(DatabentoOhlcvSchema::Ohlcv1H)
    } else if l == "ohlcv-1d"@ {
        Some(DatabentoOhlcvSchema::Ohlcv1D)
    } else {
        None
    }
}

/// The symbology type named by a normalized text.
pub open spec fn stype_of(l: Seq<char>) -> Option<DatabentoSType> {
    if l == "raw_symbol"@ {
        Some(DatabentoSType::RawSymbol)
    } else if l == "instrument_id"@ {
        Some(DatabentoSType::InstrumentId)
    } else if l == "continuous"@ {
        Some(DatabentoSType::Continuous)
    } else if l == "parent"@ {
        Some(DatabentoSType::Parent)
    } else if l == "nasdaq_symbol"@ {
        Some(DatabentoSType::NasdaqSymbol)
    } else if l == "cms_symbol"@ {
        Some(DatabentoSType::CmsSymbol)
    } else {
        None
    }
}

/// Trimmed, ASCII lower-cased text.
pub open spec fn norm(s: Seq<char>) -> Seq<char> {
    ascii_lower(trim(s))
}

impl AdjustmentMode {
    /// Parse a CLI adjustment policy (trimmed, ASCII case-insensitive).
    pub fn parse(value: &str) -> (r: Result<AdjustmentMode, Error>)
        ensures
            match r {
                Ok(m) => adjustment_of(norm(value@)) == Some(m),
                Err(e) => adjustment_of(norm(value@)).is_none() && (e matches Error::Invalid(msg)
                    && msg@ == "unsupported adjustment mode '"@ + norm(value@)
                    + "'; use raw, split-adjusted, or total-return-adjusted"@),
            },
    {
        let l = trim_lower(value);
        if chars_eq(&l, "raw") {
            Ok(AdjustmentMode::Raw)
        } else if chars_eq(&l, "split-adjusted") {
            Ok(AdjustmentMode::SplitAdjusted)
        } else if chars_eq(&l, "total-return-adjusted") {
            Ok(AdjustmentMode::TotalReturnAdjusted)
        } else {
            let other = string_of(&l);
            Err(
                Error::Invalid(
                    concat3(
                        "unsupported adjustment mode '",
                        other.as_str(),
                        "'; use raw, split-adjusted, or total-return-adjusted",
                    ),
                ),
            )
        }
    }

    /// Stable manifest/CLI name.
    pub fn as_str(self) -> (r: &'static str)
        ensures
            r@ == adjustment_name(self),
    {
        match self {
            AdjustmentMode::Raw => "raw",
            AdjustmentMode::SplitAdjusted => "split-adjusted",
            AdjustmentMode::TotalReturnAdjusted => "total-return-adjusted",
        }
    }

    /// Whether a vendor reason code is applied under this policy: never for raw, only splits
    /// and consolidations (codes 5 and 6) for split-adjusted, always for total-return.
    pub fn accepts_reason(self, reason: u32) -> (r: bool)
        ensures
            r == match self {
                AdjustmentMode::Raw => false,
                AdjustmentMode::SplitAdjusted => reason == 5 || reason == 6,
                AdjustmentMode::TotalReturnAdjusted => true,
            },
    {
        match self {
            AdjustmentMode::Raw => false,
            AdjustmentMode::SplitAdjusted => reason == 5 || reason == 6,
            AdjustmentMode::TotalReturnAdjusted => true,
        }
    }
}

impl DatabentoOhlcvSchema {
    /// Parse a CLI schema string (trimmed, ASCII case-insensitive).
    pub fn parse(value: &str) -> (r: Result<DatabentoOhlcvSchema, Error>)
        ensures
            match r {
                Ok(s) => schema_of(norm(value@)) == Some(s),
                Err(e) => schema_of(norm(value@)).is_none() && (e matches Error::Invalid(msg)
                    && msg@ == "unsupported databento schema '"@ + norm(value@)
                    + "'; supported OHLCV schemas are ohlcv-1s, ohlcv-1m, ohlcv-1h, ohlcv-1d"@),
            },
    {
        let l = trim_lower(value);
        if chars_eq(&l, "ohlcv-1s") {
            Ok(DatabentoOhlcvSchema::Ohlcv1S)
        } else if chars_eq(&l, "ohlcv-1m") {
            Ok(DatabentoOhlcvSchema::Ohlcv1M)
        } else if chars_eq(&l, "ohlcv-1h") {
            Ok(DatabentoOhlcvSchema::Ohlcv1H)
        } else if chars_eq(&l, "ohlcv-1d") {
            Ok(DatabentoOhlcvSchema::Ohlcv1D)
        } else {
            let other = string_of(&l);
            Err(
                Error::Invalid(
                    concat3(
                        "unsupported databento schema '",
                        other.as_str(),
                        "'; supported OHLCV schemas are ohlcv-1s, ohlcv-1m, ohlcv-1h, ohlcv-1d",
                    ),
                ),
            )
        }
    }

    /// CLI/cache string value.
    pub fn as_str(self) -> (r: &'static str)
        ensures
            r@ == schema_name(self),
    {
        match self {
            DatabentoOhlcvSchema::Ohlcv1S => "ohlcv-1s",
            DatabentoOhlcvSchema::Ohlcv1M => "ohlcv-1m",
            DatabentoOhlcvSchema::Ohlcv1H => "ohlcv-1h",
            DatabentoOhlcvSchema::Ohlcv1D => "ohlcv-1d",
        }
    }
}

impl DatabentoSType {
    /// Parse a CLI stype string (trimmed, ASCII case-insensitive).
    pub fn parse(value: &str) -> (r: Result<DatabentoSType, Error>)
        ensures
            match r {
                Ok(s) => stype_of(norm(value@)) == Some(s),
                Err(e) => stype_of(norm(value@)).is_none() && (e matches Error::Invalid(msg) && msg@
                    == "unsupported databento stype_in '"@ + norm(value@)
                    + "'; supported values are raw_symbol, instrument_id, continuous, parent, nasdaq_symbol, cms_symbol"@),
            },
    {
        let l = trim_lower(value);
        if chars_eq(&l, "raw_symbol") {
            Ok(DatabentoSType::RawSymbol)
        } else if chars_eq(&l, "instrument_id") {
            Ok(DatabentoSType::InstrumentId)
        } else if chars_eq(&l, "continuous") {
            Ok(DatabentoSType::Continuous)
        } else if chars_eq(&l, "parent") {
            Ok(DatabentoSType::Parent)
        } else if chars_eq(&l, "nasdaq_symbol") {
            Ok(DatabentoSType::NasdaqSymbol)
        } else if chars_eq(&l, "cms_symbol") {
            Ok(DatabentoSType::CmsSymbol)
        } else {
            let other = string_of(&l);
            Err(
                Error::Invalid(
                    concat3(
                        "unsupported databento stype_in '",
                        other.as_str(),
                        "'; supported values are raw_symbol, instrument_id, continuous, parent, nasdaq_symbol, cms_symbol",
                    ),
                ),
            )
        }
    }

    /// CLI/cache string value.
    pub fn as_str(self) -> (r: &'static str)
        ensures
            r@ == stype_name(self),
    {
        match self {
            DatabentoSType::RawSymbol => "raw_symbol",
            DatabentoSType::InstrumentId => "instrument_id",
            DatabentoSType::Continuous => "continuous",
            DatabentoSType::Parent => "parent",
            DatabentoSType::NasdaqSymbol => "nasdaq_symbol",
            DatabentoSType::CmsSymbol => "cms_symbol",
        }
    }
}


/// A text with no surrounding whitespace and no upper-case ASCII letter is its own normal form.
proof fn lemma_norm_fixed(s: Seq<char>)
    requires
        s.len() > 0,
        !is_ws(s[0]),
        !is_ws(s.last()),
        forall|i: int| 0 <= i < s.len() ==> !('A' <= #[trigger] s[i] && s[i] <= 'Z'),
    ensures
        norm(s) == s,
{
    assert(trim_start_idx(s) == 0);
    assert(trim_end_idx(s) == s.len());
    assert(trim(s) =~= s);
    assert(ascii_lower(s) =~= s);
}

/// Every adjustment policy parses back from its own name.
pub proof fn law_adjustment_name_round_trip(m: AdjustmentMode)
    ensures
        adjustment_of(norm(adjustment_name(m))) == Some(m),
{
    reveal_strlit("raw");
    reveal_strlit("split-adjusted");
    reveal_strlit("total-return-adjusted");
    lemma_norm_fixed(adjustment_name(m));
}

/// Every OHLCV schema parses back from its own name.
pub proof fn law_schema_name_round_trip(s: DatabentoOhlcvSchema)
    ensures
        schema_of(norm(schema_name(s))) == Some(s),
{
    reveal_strlit("ohlcv-1s");
    reveal_strlit("ohlcv-1m");
    reveal_strlit("ohlcv-1h");
    reveal_strlit("ohlcv-1d");
    lemma_norm_fixed(schema_name(s));
}

/// Every symbology type parses back from its own name.
pub proof fn law_stype_name_round_trip(s: DatabentoSType)
    ensures
        stype_of(norm(stype_name(s))) == Some(s),
{
    reveal_strlit("raw_symbol");
    reveal_strlit("instrument_id");
    reveal_strlit("continuous");
    reveal_strlit("parent");
    reveal_strlit("nasdaq_symbol");
    reveal_strlit("cms_symbol");
    lemma_norm_fixed(stype_name(s));
}

/// Fixed-point scale of Databento prices (nine fractional digits).
pub const PRICE_SCALE: i128 = 1_000_000_000i128;

/// Drop trailing `'0'` characters.
pub open spec fn strip_trailing_zeros(s: Seq<char>) -> Seq<char>
    decreases s.len(),
{
    if s.len() > 0 && s.last() == '0' {
        strip_trailing_zeros(s.drop_last())
    } else {
        s
    }
}

/// Left-pad with `'0'` to width `w`.
pub open spec fn zero_pad(d: Seq<char>, w: nat) -> Seq<char> {
    if d.len() >= w {
        d
    } else {
        Seq::new((w - d.len()) as nat, |i: int| '0') + d
    }
}

/// Decimal text of a Databento fixed-point price (`value / 10^9`): sign, whole part, and the
/// fractional digits without trailing zeros (no point when the fraction is zero).
pub open spec fn fixed_price_text(value: int) -> Seq<char> {
    let a: nat = if value < 0 {
        (-value) as nat
    } else {
        value as nat
    };
    let whole = a / 1_000_000_000;
    let frac = a % 1_000_000_000;
    let sign = if value < 0 {
        "-"@
    } else {
        ""@
    };
    if frac == 0 {
        sign + nat_digits(whole)
    } else {
        sign + nat_digits(whole) + "."@ + strip_trailing_zeros(zero_pad(nat_digits(frac), 9))
    }
}

/// Append `src[0..n]` to `out`.
fn append_prefix(out: &mut Vec<char>, src: &[char], n: usize)
    requires
        n <= src.len(),
    ensures
        final(out)@ == old(out)@ + src@.subrange(0, n as int),
{
    let ghost before = old(out)@;
    let mut m: usize = 0;
    while m < n
        invariant
            m <= n <= src.len(),
            out@ == before + src@.subrange(0, m as int),
        decreases n - m,
    {
        out.push(src[m]);
        m = m + 1;
        assert(out@ =~= before + src@.subrange(0, m as int));
    }
}

/// `zero_pad(d, 9)`.
fn pad9(d: &[char]) -> (v: Vec<char>)
    ensures
        v@ == zero_pad(d@, 9),
{
    let mut v: Vec<char> = Vec::new();
    let pad: usize = if d.len() >= 9 {
        0
    } else {
        9 - d.len()
    };
    let mut k: usize = 0;
    while k < pad
        invariant
            k <= pad,
            v@ == Seq::new(k as nat, |j: int| '0'),
        decreases pad - k,
    {
        v.push('0');
        k = k + 1;
        assert(v@ =~= Seq::new(k as nat, |j: int| '0'));
    }
    append_prefix(&mut v, d, d.len());
    assert(d@.subrange(0, d.len() as int) =~= d@);
    if d.len() >= 9 {
        assert(Seq::new(0, |q: int| '0') + d@ =~= d@);
    }
    v
}

/// Length of `strip_trailing_zeros(d)`.
fn stripped_len(d: &[char]) -> (n: usize)
    ensures
        n <= d.len(),
        d@.subrange(0, n as int) == strip_trailing_zeros(d@),
{
    let mut end: usize = d.len();
    assert(d@.subrange(0, end as int) =~= d@);
    while end > 0 && d[end - 1] == '0'
        invariant
            end <= d.len(),
            strip_trailing_zeros(d@) == strip_trailing_zeros(d@.subrange(0, end as int)),
        decreases end,
    {
        assert(d@.subrange(0, end as int).drop_last() =~= d@.subrange(0, end - 1));
        end = end - 1;
    }
    end
}

/// Render a Databento fixed-point integer price as exact decimal text.
pub fn format_fixed_price(value: i64) -> (r: String)
    ensures
        r@ == fixed_price_text(value as int),
{
    proof {
        reveal_strlit("-");
        reveal_strlit("");
        reveal_strlit(".");
    }
    let v = value as i128;
    let negative = v < 0;
    let abs: u128 = if negative {
        (-v) as u128
    } else {
        v as u128
    };
    let whole = abs / 1_000_000_000u128;
    let frac = abs % 1_000_000_000u128;
    let mut out: Vec<char> = Vec::new();
    if negative {
        out.push('-');
    }
    let ghost sign = if negative {
        "-"@
    } else {
        ""@
    };
    assert(out@ =~= sign);
    let wd = u128_digits(whole);
    append_prefix(&mut out, &wd, wd.len());
    assert(wd@.subrange(0, wd.len() as int) =~= wd@);
    if frac == 0 {
        return string_of(&out);
    }
    let ghost whole_text = out@;
    out.push('.');
    let fd = u128_digits(frac);
    let padded = pad9(&fd);
    let n = stripped_len(&padded);
    append_prefix(&mut out, &padded, n);
    assert(out@ =~= whole_text + "."@ + strip_trailing_zeros(zero_pad(nat_digits(frac as nat), 9)));
    string_of(&out)
}

/// Keep ASCII letters, digits, `-` and `_`; replace everything else with `_`.
pub open spec fn sanitize_char(c: char) -> char {
    if is_ascii_alnum(c) || c == '-' || c == '_' {
        c
    } else {
        '_'
    }
}

/// A file-name-safe segment: each character sanitized, `unknown` for empty input.
pub open spec fn sanitized(s: Seq<char>) -> Seq<char> {
    if s.len() == 0 {
        "unknown"@
    } else {
        s.map_values(|c: char| sanitize_char(c))
    }
}

/// Make a value safe for use in a cache file name.
pub fn sanitize_segment(value: &str) -> (r: String)
    ensures
        r@ == sanitized(value@),
{
    let cs = chars_of(value);
    let mut out = String::new();
    let mut i: usize = 0;
    while i < cs.len()
        invariant
            cs@ == value@,
            i <= cs.len(),
            out@ == value@.subrange(0, i as int).map_values(|c: char| sanitize_char(c)),
        decreases cs.len() - i,
    {
        let c = cs[i];
        let keep = ('a' <= c && c <= 'z') || ('A' <= c && c <= 'Z') || ('0' <= c && c <= '9')
            || c == '-' || c == '_';
        if keep {
            push_char(&mut out, c);
        } else {
            push_char(&mut out, '_');
        }
        i = i + 1;
        assert(out@ =~= value@.subrange(0, i as int).map_values(|c: char| sanitize_char(c)));
    }
    assert(value@.subrange(0, cs.len() as int) =~= value@);
    if cs.len() == 0 {
        "unknown".to_string()
    } else {
        out
    }
}

/// Left-pad with `'0'` to width `w`.
fn pad_to(d: &[char], w: usize) -> (v: Vec<char>)
    ensures
        v@ == zero_pad(d@, w as nat),
{
    let mut v: Vec<char> = Vec::new();
    let pad: usize = if d.len() >= w {
        0
    } else {
        w - d.len()
    };
    let mut k: usize = 0;
    while k < pad
        invariant
            k <= pad,
            v@ == Seq::new(k as nat, |j: int| '0'),
        decreases pad - k,
    {
        v.push('0');
        k = k + 1;
        assert(v@ =~= Seq::new(k as nat, |j: int| '0'));
    }
    append_prefix(&mut v, d, d.len());
    assert(d@.subrange(0, d.len() as int) =~= d@);
    if d.len() >= w {
        assert(Seq::new(0, |q: int| '0') + d@ =~= d@);
    }
    v
}

/// A number written with at least `w` digits.
pub open spec fn padded(n: nat, w: nat) -> Seq<char> {
    zero_pad(nat_digits(n), w)
}

/// `n` written with at least `w` digits.
pub(crate) fn padded_digits(n: u128, w: usize) -> (v: Vec<char>)
    ensures
        v@ == padded(n as nat, w as nat),
{
    let d = u128_digits(n);
    pad_to(&d, w)
}

/// Compact stamp of a cache file: `YYYYMMDDTHHMMSSZ` (a leading `-` for years before 0).
pub open spec fn stamp_text(lt: LocalTime) -> Seq<char> {
    let y = lt.date.year as int;
    let year = if y < 0 {
        "-"@ + padded((-y) as nat, 4)
    } else {
        padded(y as nat, 4)
    };
    year + padded(lt.date.month as nat, 2) + padded(lt.date.day as nat, 2) + "T"@ + padded(
        lt.hour as nat,
        2,
    ) + padded(lt.minute as nat, 2) + padded(lt.second as nat, 2) + "Z"@
}

/// Compact stamp of a request bound for cache file names: the wall clock of the bound at its
/// own UTC offset, followed by a literal `Z`.
pub fn cache_datetime(unix_nanos: i128, offset_seconds: i32) -> (r: Vec<char>)
    requires
        -86400 < offset_seconds < 86400,
        in_time_range(unix_nanos as int, offset_seconds as int),
    ensures
        r@ == stamp_text(local_time_of(unix_nanos as int, offset_seconds as int)),
{
    let lt = match local_time(unix_nanos, offset_seconds) {
        Some(lt) => lt,
        None => {
            return Vec::new();
        },
    };
    let y = lt.date.year;
    let mut out: Vec<char> = Vec::new();
    let yd = if y < 0 {
        out.push('-');
        padded_digits((-(y as i64)) as u128, 4)
    } else {
        padded_digits(y as u128, 4)
    };
    let ghost head = out@;
    append_prefix(&mut out, &yd, yd.len());
    let mo = padded_digits(lt.date.month as u128, 2);
    let da = padded_digits(lt.date.day as u128, 2);
    let ho = padded_digits(lt.hour as u128, 2);
    let mi = padded_digits(lt.minute as u128, 2);
    let se = padded_digits(lt.second as u128, 2);
    append_prefix(&mut out, &mo, mo.len());
    append_prefix(&mut out, &da, da.len());
    out.push('T');
    append_prefix(&mut out, &ho, ho.len());
    append_prefix(&mut out, &mi, mi.len());
    append_prefix(&mut out, &se, se.len());
    out.push('Z');
    proof {
        reveal_strlit("-");
        reveal_strlit("T");
        reveal_strlit("Z");
        assert(yd@.subrange(0, yd@.len() as int) =~= yd@);
        assert(mo@.subrange(0, mo@.len() as int) =~= mo@);
        assert(da@.subrange(0, da@.len() as int) =~= da@);
        assert(ho@.subrange(0, ho@.len() as int) =~= ho@);
        assert(mi@.subrange(0, mi@.len() as int) =~= mi@);
        assert(se@.subrange(0, se@.len() as int) =~= se@);
        assert(out@ =~= stamp_text(lt));
    }
    out
}

/// The instant (Unix nanoseconds) and the UTC offset (seconds) `time` reads from an RFC 3339
/// text, when it accepts it.
pub uninterp spec fn rfc3339_instant(s: Seq<char>) -> Option<(i128, i32)>;

/// UTC midnight (Unix nanoseconds) of the date `time` reads from a `[month]-[day]-[year]` text.
pub uninterp spec fn american_date_instant(s: Seq<char>) -> Option<i128>;

/// The instant (Unix nanoseconds, read as UTC) `time` reads from a
/// `[month]-[day]-[year] [hour]:[minute]:[second]` text.
pub uninterp spec fn american_datetime_instant(s: Seq<char>) -> Option<i128>;

/// Trusted: `OffsetDateTime::parse` with the well-known RFC 3339 format, then
/// `unix_timestamp_nanos` and `offset().whole_seconds()`; what it accepts and returns is named by
/// `rfc3339_instant`. The format reads offset hours up to 23 and minutes up to 59, so the offset
/// lies strictly within a day.
#[verifier::external_body]
fn read_rfc3339(s: &str) -> (r: Option<(i128, i32)>)
    ensures
        r == rfc3339_instant(s@),
        r matches Some((_, off)) ==> -86400 < off < 86400,
{
    OffsetDateTime::parse(s, &Rfc3339).ok().map(|dt| (dt.unix_timestamp_nanos(), dt.offset().whole_seconds()))
}

/// Trusted: `Date::parse` with the format description `[month]-[day]-[year]`, then
/// `midnight().assume_utc().unix_timestamp_nanos()`; named by `american_date_instant`.
#[verifier::external_body]
fn read_american_date(s: &str) -> (r: Option<i128>)
    ensures
        r == american_date_instant(s@),
{
    let fmt = format_description::parse_borrowed::<2>("[month]-[day]-[year]").ok()?;
    Date::parse(s, &fmt).ok().map(|d| d.midnight().assume_utc().unix_timestamp_nanos())
}

/// Trusted: `PrimitiveDateTime::parse` with the format description
/// `[month]-[day]-[year] [hour]:[minute]:[second]`, then `assume_utc().unix_timestamp_nanos()`;
/// named by `american_datetime_instant`.
#[verifier::external_body]
fn read_american_datetime(s: &str) -> (r: Option<i128>)
    ensures
        r == american_datetime_instant(s@),
{
    let fmt = format_description::parse_borrowed::<2>(
        "[month]-[day]-[year] [hour]:[minute]:[second]",
    ).ok()?;
    PrimitiveDateTime::parse(s, &fmt).ok().map(|dt| dt.assume_utc().unix_timestamp_nanos())
}

/// The instant a request bound denotes: the trimmed text read as RFC 3339, else as an American
/// date (UTC midnight), else as an American date and time (UTC), in that order.
pub open spec fn request_instant(t: Seq<char>) -> Option<i128> {
    match request_time(t) {
        Some((n, _)) => Some(n),
        None => None,
    }
}

/// The instant a request bound denotes together with the UTC offset it was written at (zero
/// for the American forms, which are read as UTC).
pub open spec fn request_time(t: Seq<char>) -> Option<(i128, i32)> {
    match rfc3339_instant(t) {
        Some(p) => Some(p),
        None => match american_date_instant(t) {
            Some(n) => Some((n, 0i32)),
            None => match american_datetime_instant(t) {
                Some(n) => Some((n, 0i32)),
                None => None,
            },
        },
    }
}

/// Read a request bound as an instant (Unix nanoseconds) and the UTC offset it was written at:
/// RFC 3339, `MM-DD-YYYY` (UTC midnight) or `MM-DD-YYYY HH:MM:SS` (UTC); anything else is
/// refused with the trimmed text.
pub fn parse_datetime_with_offset(value: &str) -> (r: Result<(i128, i32), Error>)
    ensures
        match request_time(trim(value@)) {
            Some(p) => r == Ok::<(i128, i32), Error>(p),
            None => r matches Err(e) && e matches Error::Invalid(m) && m@
                == "invalid databento datetime '"@ + trim(value@)
                + "'; use American MM-DD-YYYY format, e.g. 01-31-2025, or RFC3339"@,
        },
        r matches Ok((_, off)) ==> -86400 < off < 86400,
{
    let t = string_of(&trim_chars(&chars_of(value)));
    let v = t.as_str();
    if let Some(p) = read_rfc3339(v) {
        return Ok(p);
    }
    if let Some(n) = read_american_date(v) {
        return Ok((n, 0));
    }
    if let Some(n) = read_american_datetime(v) {
        return Ok((n, 0));
    }
    Err(
        Error::Invalid(
            concat3(
                "invalid databento datetime '",
                v,
                "'; use American MM-DD-YYYY format, e.g. 01-31-2025, or RFC3339",
            ),
        ),
    )
}

/// Read a request bound (Unix nanoseconds): RFC 3339, `MM-DD-YYYY` (UTC midnight) or
/// `MM-DD-YYYY HH:MM:SS` (UTC); anything else is refused with the trimmed text.
pub fn parse_datetime(value: &str) -> (r: Result<i128, Error>)
    ensures
        match request_instant(trim(value@)) {
            Some(n) => r == Ok::<i128, Error>(n),
            None => r matches Err(e) && e matches Error::Invalid(m) && m@
                == "invalid databento datetime '"@ + trim(value@)
                + "'; use American MM-DD-YYYY format, e.g. 01-31-2025, or RFC3339"@,
        },
{
    match parse_datetime_with_offset(value) {
        Ok((n, _)) => Ok(n),
        Err(e) => Err(e),
    }
}

/// How `time` prints an instant in UTC (its `Display` of an `OffsetDateTime`).
pub uninterp spec fn instant_display(unix_nanos: i128) -> Seq<char>;

/// Trusted: `OffsetDateTime::from_unix_timestamp_nanos`, which succeeds for instants in years
/// -9999 through 9999, printed with its `Display`; the text is named by `instant_display`.
#[verifier::external_body]
fn display_instant(unix_nanos: i128) -> (r: String)
    requires
        in_time_range(unix_nanos as int, 0),
    ensures
        r@ == instant_display(unix_nanos),
{
    match OffsetDateTime::from_unix_timestamp_nanos(unix_nanos) {
        Ok(t) => format!("{}", t),
        Err(_) => String::new(),
    }
}

/// The entitled range a dataset reports for one schema (Unix nanoseconds).
#[derive(Clone, Copy, Debug)]
pub struct EntitledRange {
    pub schema: DatabentoOhlcvSchema,
    pub start: i128,
    pub end: i128,
}

/// First index at or after `i` of a range for `schema`.
pub open spec fn find_range(ranges: Seq<EntitledRange>, schema: DatabentoOhlcvSchema, i: int) -> Option<int>
    decreases ranges.len() - i,
{
    if i < 0 || i >= ranges.len() {
        None
    } else if ranges[i].schema == schema {
        Some(i)
    } else {
        find_range(ranges, schema, i + 1)
    }
}

/// What inspecting a request against a dataset's metadata gives: the entitled range of the
/// requested schema when the dataset advertises the schema, reports a range for it, and the
/// request lies inside it; otherwise the reason.
pub open spec fn inspection_outcome(
    dataset: Seq<char>,
    schema: DatabentoOhlcvSchema,
    start: i128,
    end: i128,
    schemas: Seq<DatabentoOhlcvSchema>,
    ranges: Seq<EntitledRange>,
) -> Result<EntitledRange, Seq<char>> {
    if !schemas.contains(schema) {
        Err("databento dataset '"@ + dataset + "' does not advertise schema '"@ + schema_name(schema)
            + "'"@)
    } else {
        match find_range(ranges, schema, 0) {
            None => Err("databento dataset '"@ + dataset
                + "' did not return an entitled range for schema '"@ + schema_name(schema) + "'"@),
            Some(k) => {
                let r = ranges[k];
                if start < r.start || end > r.end {
                    Err("databento request "@ + instant_display(start) + ".."@ + instant_display(end)
                        + " falls outside entitled "@ + schema_name(schema) + " range "@
                        + instant_display(r.start) + ".."@ + instant_display(r.end))
                } else {
                    Ok(r)
                }
            },
        }
    }
}

/// Check a request against the dataset's advertised schemas and entitled ranges before any
/// cost estimate or download.
pub fn validate_inspection(
    dataset: &str,
    schema: DatabentoOhlcvSchema,
    start: i128,
    end: i128,
    schemas: &Vec<DatabentoOhlcvSchema>,
    ranges: &Vec<EntitledRange>,
) -> (r: Result<EntitledRange, Error>)
    requires
        in_time_range(start as int, 0),
        in_time_range(end as int, 0),
        forall|k: int|
            0 <= k < ranges@.len() ==> in_time_range((#[trigger] ranges@[k]).start as int, 0)
                && in_time_range(ranges@[k].end as int, 0),
    ensures
        match inspection_outcome(dataset@, schema, start, end, schemas@, ranges@) {
            Ok(x) => r matches Ok(y) && y == x,
            Err(m) => r matches Err(e) && e matches Error::Invalid(t) && t@ == m,
        },
{
    let mut advertised = false;
    let mut i: usize = 0;
    while i < schemas.len()
        invariant
            i <= schemas@.len(),
            advertised <==> exists|j: int| 0 <= j < i && schemas@[j] == schema,
        decreases schemas@.len() - i,
    {
        if schemas[i] == schema {
            advertised = true;
        }
        i = i + 1;
    }
    if !advertised {
        let mut m = "databento dataset '".to_owned();
        m.append(dataset);
        m.append("' does not advertise schema '");
        m.append(schema.as_str());
        m.append("'");
        return Err(Error::Invalid(m));
    }
    let mut found: Option<usize> = None;
    let mut j: usize = 0;
    while j < ranges.len()
        invariant
            j <= ranges@.len(),
            found.is_none() ==> find_range(ranges@, schema, 0) == find_range(ranges@, schema, j as int),
            found matches Some(k) ==> find_range(ranges@, schema, 0) == Some(k as int),
        decreases ranges@.len() - j,
    {
        if found.is_none() && ranges[j].schema == schema {
            found = Some(j);
        }
        j = j + 1;
    }
    let k = match found {
        Some(k) => k,
        None => {
            proof {
                lemma_find_range_none(ranges@, schema, ranges@.len() as int);
            }
            let mut m = "databento dataset '".to_owned();
            m.append(dataset);
            m.append("' did not return an entitled range for schema '");
            m.append(schema.as_str());
            m.append("'");
            return Err(Error::Invalid(m));
        },
    };
    proof {
        lemma_find_range_bounds(ranges@, schema, 0);
    }
    let r = ranges[k];
    if start < r.start || end > r.end {
        let mut m = "databento request ".to_owned();
        m.append(display_instant(start).as_str());
        m.append("..");
        m.append(display_instant(end).as_str());
        m.append(" falls outside entitled ");
        m.append(schema.as_str());
        m.append(" range ");
        m.append(display_instant(r.start).as_str());
        m.append("..");
        m.append(display_instant(r.end).as_str());
        return Err(Error::Invalid(m));
    }
    Ok(r)
}

/// Past the end there is nothing to find.
proof fn lemma_find_range_none(ranges: Seq<EntitledRange>, schema: DatabentoOhlcvSchema, i: int)
    requires
        i >= ranges.len(),
    ensures
        find_range(ranges, schema, i).is_none(),
{
}

/// A found range is in bounds and has the schema.
proof fn lemma_find_range_bounds(ranges: Seq<EntitledRange>, schema: DatabentoOhlcvSchema, i: int)
    ensures
        find_range(ranges, schema, i) matches Some(k) ==> i <= k < ranges.len() && ranges[k].schema
            == schema,
    decreases ranges.len() - i,
{
    if 0 <= i < ranges.len() && ranges[i].schema != schema {
        lemma_find_range_bounds(ranges, schema, i + 1);
    }
}

/// Provenance of a materialized raw Databento CSV.
#[derive(Debug)]
pub struct DatabentoCacheManifest {
    /// Manifest schema version.
    pub version: u32,
    /// Dataset code.
    pub dataset: String,
    /// Requested raw input symbols.
    pub input_symbols: Vec<String>,
    /// Input symbology.
    pub stype_in: String,
    /// Schema.
    pub schema: String,
    /// Inclusive request start (RFC 3339).
    pub start: String,
    /// Exclusive request end (RFC 3339).
    pub end: String,
    /// Retrieval timestamp.
    pub retrieved_at: String,
    /// Materialized row count.
    pub source_row_count: usize,
    /// SHA-256 of the final raw CSV, in hex.
    pub raw_sha256: String,
    /// Adjustment policy.
    pub adjustment_mode: String,
    /// Client compatibility line.
    pub databento_client: String,
}

/// The manifest describes exactly this raw request: version 1, same dataset, the single
/// requested symbol, same symbology, schema and range, and no adjustment.
pub open spec fn manifest_describes(
    m: DatabentoCacheManifest,
    dataset: Seq<char>,
    symbol: Seq<char>,
    stype_in: DatabentoSType,
    schema: DatabentoOhlcvSchema,
    start: Seq<char>,
    end: Seq<char>,
) -> bool {
    &&& m.version == 1
    &&& m.dataset@ == dataset
    &&& m.input_symbols@.len() == 1
    &&& m.input_symbols@[0]@ == symbol
    &&& m.stype_in@ == stype_name(stype_in)
    &&& m.schema@ == schema_name(schema)
    &&& m.start@ == start
    &&& m.end@ == end
    &&& m.adjustment_mode@ == "raw"@
}

/// Whether a cached manifest describes this raw request (the checksum is compared apart).
pub fn manifest_matches_request(
    m: &DatabentoCacheManifest,
    dataset: &str,
    symbol: &str,
    stype_in: DatabentoSType,
    schema: DatabentoOhlcvSchema,
    start: &str,
    end: &str,
) -> (r: bool)
    ensures
        r == manifest_describes(*m, dataset@, symbol@, stype_in, schema, start@, end@),
{
    m.version == 1 && str_eq(m.dataset.as_str(), dataset) && m.input_symbols.len() == 1 && str_eq(
        m.input_symbols[0].as_str(),
        symbol,
    ) && str_eq(m.stype_in.as_str(), stype_in.as_str()) && str_eq(m.schema.as_str(), schema.as_str())
        && str_eq(m.start.as_str(), start) && str_eq(m.end.as_str(), end) && str_eq(
        m.adjustment_mode.as_str(),
        "raw",
    )
}

/// File name of the engine CSV for a request: sanitized dataset and symbol, schema and the
/// two UTC stamps, then the adjustment mode unless it is raw.
pub open spec fn cache_file_name_text(
    dataset: Seq<char>,
    symbol: Seq<char>,
    schema: DatabentoOhlcvSchema,
    start: LocalTime,
    end: LocalTime,
    mode: AdjustmentMode,
) -> Seq<char> {
    let stem = sanitized(dataset) + "_"@ + sanitized(symbol) + "_"@ + schema_name(schema) + "_"@
        + stamp_text(start) + "_"@ + stamp_text(end);
    if mode == AdjustmentMode::Raw {
        stem + ".csv"@
    } else {
        stem + "_"@ + adjustment_name(mode) + ".csv"@
    }
}

/// File name of the engine CSV for a request; each bound is an instant and the UTC offset it
/// was written at.
pub fn cache_file_name(
    dataset: &str,
    symbol: &str,
    schema: DatabentoOhlcvSchema,
    start: (i128, i32),
    end: (i128, i32),
    mode: AdjustmentMode,
) -> (r: String)
    requires
        -86400 < start.1 < 86400,
        -86400 < end.1 < 86400,
        in_time_range(start.0 as int, start.1 as int),
        in_time_range(end.0 as int, end.1 as int),
    ensures
        r@ == cache_file_name_text(
            dataset@,
            symbol@,
            schema,
            local_time_of(start.0 as int, start.1 as int),
            local_time_of(end.0 as int, end.1 as int),
            mode,
        ),
{
    let mut s = sanitize_segment(dataset);
    s.append("_");
    let sy = sanitize_segment(symbol);
    s.append(sy.as_str());
    s.append("_");
    s.append(schema.as_str());
    s.append("_");
    let a = string_of(&cache_datetime(start.0, start.1));
    s.append(a.as_str());
    s.append("_");
    let b = string_of(&cache_datetime(end.0, end.1));
    s.append(b.as_str());
    if mode != AdjustmentMode::Raw {
        s.append("_");
        s.append(mode.as_str());
    }
    s.append(".csv");
    s
}


/// A cache request as the cache decisions see it. The cost warning is a float the program
/// compares with zero.
#[derive(Clone, Copy, Debug)]
pub struct CacheRequest {
    pub start: i128,
    pub end: i128,
    pub cost_warning_negative: bool,
    pub refresh_data: bool,
    pub adjustment_mode: AdjustmentMode,
    pub estimate_only: bool,
}

/// What the program has found out and done so far for a cache request.
#[derive(Clone, Copy, Debug)]
pub struct CacheProgress {
    /// Whether the raw cache file and its manifest match the request, once checked.
    pub raw_valid: Option<bool>,
    /// Whether the adjusted cache matches the request and the raw cache, once checked.
    pub adjusted_valid: Option<bool>,
    /// The cost estimate has been obtained.
    pub inspected: bool,
    /// The estimate has been written out (estimate-only requests).
    pub estimate_written: bool,
    /// The cost has been confirmed.
    pub cost_confirmed: bool,
    /// The raw data has been downloaded and its manifest written.
    pub raw_fetched: bool,
    /// Whether a cached factor file exists, once checked.
    pub factors_cached: Option<bool>,
    /// The adjustment factors are at hand.
    pub factors_ready: bool,
    /// The adjusted file and its manifest have been written.
    pub materialized: bool,
}

/// The next step of a cache request.
#[derive(Clone, Copy, Debug, PartialEq, Eq, Structural)]
pub enum CacheAction {
    /// The range ends at or before its start.
    FailRange,
    /// The cost warning threshold is negative.
    FailCostWarning,
    /// Check the raw cache file and its manifest against the request.
    CheckRawCache,
    /// Check the adjusted cache against the request and the raw cache.
    CheckAdjustedCache,
    /// Ask the vendor for availability and cost (after checking the API key).
    Inspect,
    /// Write the inspection next to the cache.
    WriteEstimate,
    /// Confirm the estimated cost.
    ConfirmCost,
    /// Download the raw data and write its manifest.
    FetchRaw,
    /// Check whether a factor file is cached.
    CheckFactorsCache,
    /// Read the cached factor file (after checking the API key).
    LoadFactors,
    /// Download the factors and cache them (after checking the API key).
    FetchFactors,
    /// Write the adjusted file and its manifest.
    Materialize,
    /// Finished: the result names the adjusted path unless `raw_path`, reports the estimated
    /// cost when `with_cost`, and says whether data was fetched.
    Done { raw_path: bool, with_cost: bool, fetched: bool },
}

/// The next step of a cache request given what is known so far.
pub open spec fn cache_action_of(q: CacheRequest, p: CacheProgress) -> CacheAction {
    let adjusted = q.adjustment_mode != AdjustmentMode::Raw;
    let raw_valid = if q.refresh_data {
        Some(false)
    } else {
        p.raw_valid
    };
    if q.end <= q.start {
        CacheAction::FailRange
    } else if q.cost_warning_negative {
        CacheAction::FailCostWarning
    } else {
        match raw_valid {
            None => CacheAction::CheckRawCache,
            Some(rv) => if rv && adjusted && !q.estimate_only && p.adjusted_valid != Some(false) {
                match p.adjusted_valid {
                    None => CacheAction::CheckAdjustedCache,
                    _ => CacheAction::Done { raw_path: false, with_cost: false, fetched: false },
                }
            } else if (!rv || q.estimate_only) && !p.raw_fetched {
                if !p.inspected {
                    CacheAction::Inspect
                } else if q.estimate_only {
                    if !p.estimate_written {
                        CacheAction::WriteEstimate
                    } else {
                        CacheAction::Done { raw_path: !adjusted, with_cost: true, fetched: false }
                    }
                } else if !p.cost_confirmed {
                    CacheAction::ConfirmCost
                } else {
                    CacheAction::FetchRaw
                }
            } else if !adjusted {
                CacheAction::Done { raw_path: true, with_cost: p.inspected, fetched: !rv }
            } else if !p.factors_ready {
                if q.refresh_data {
                    CacheAction::FetchFactors
                } else {
                    match p.factors_cached {
                        None => CacheAction::CheckFactorsCache,
                        Some(true) => CacheAction::LoadFactors,
                        Some(false) => CacheAction::FetchFactors,
                    }
                }
            } else if !p.materialized {
                CacheAction::Materialize
            } else {
                CacheAction::Done { raw_path: false, with_cost: p.inspected, fetched: true }
            },
        }
    }
}

/// Decide the next step of resolving a cached Databento CSV: validate the range and the cost
/// threshold before any I/O, reuse a valid cache, otherwise inspect, confirm, download, and
/// for adjusted requests obtain the factors and materialize the adjusted file.
pub fn cache_step(q: &CacheRequest, p: &CacheProgress) -> (r: CacheAction)
    ensures
        r == cache_action_of(*q, *p),
{
    let adjusted = q.adjustment_mode != AdjustmentMode::Raw;
    if q.end <= q.start {
        return CacheAction::FailRange;
    }
    if q.cost_warning_negative {
        return CacheAction::FailCostWarning;
    }
    let raw_valid = if q.refresh_data {
        Some(false)
    } else {
        p.raw_valid
    };
    let rv = match raw_valid {
        None => {
            return CacheAction::CheckRawCache;
        },
        Some(rv) => rv,
    };
    let adjusted_unrefuted = match p.adjusted_valid {
        Some(false) => false,
        _ => true,
    };
    if rv && adjusted && !q.estimate_only && adjusted_unrefuted {
        return match p.adjusted_valid {
            None => CacheAction::CheckAdjustedCache,
            _ => CacheAction::Done { raw_path: false, with_cost: false, fetched: false },
        };
    }
    if (!rv || q.estimate_only) && !p.raw_fetched {
        if !p.inspected {
            return CacheAction::Inspect;
        }
        if q.estimate_only {
            if !p.estimate_written {
                return CacheAction::WriteEstimate;
            }
            return CacheAction::Done { raw_path: !adjusted, with_cost: true, fetched: false };
        }
        if !p.cost_confirmed {
            return CacheAction::ConfirmCost;
        }
        return CacheAction::FetchRaw;
    }
    if !adjusted {
        return CacheAction::Done { raw_path: true, with_cost: p.inspected, fetched: !rv };
    }
    if !p.factors_ready {
        if q.refresh_data {
            return CacheAction::FetchFactors;
        }
        return match p.factors_cached {
            None => CacheAction::CheckFactorsCache,
            Some(true) => CacheAction::LoadFactors,
            Some(false) => CacheAction::FetchFactors,
        };
    }
    if !p.materialized {
        return CacheAction::Materialize;
    }
    CacheAction::Done { raw_path: false, with_cost: p.inspected, fetched: true }
}

/// A request whose range or cost threshold is invalid is refused before any I/O; a valid cache
/// is reused without downloading anything.
pub proof fn law_cache_checks_come_first(q: CacheRequest, p: CacheProgress)
    ensures
        q.end <= q.start ==> cache_action_of(q, p) == CacheAction::FailRange,
        q.start < q.end && q.cost_warning_negative ==> cache_action_of(q, p)
            == CacheAction::FailCostWarning,
        q.start < q.end && !q.cost_warning_negative && !q.refresh_data && !q.estimate_only
            && p.raw_valid == Some(true) && q.adjustment_mode != AdjustmentMode::Raw
            && p.adjusted_valid == Some(true) ==> cache_action_of(q, p) == (CacheAction::Done {
            raw_path: false,
            with_cost: false,
            fetched: false,
        }),
{
}

} // verus!
