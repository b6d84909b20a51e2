//! Command-line vocabulary of the tools: balances, strategy parameters, resampling intervals,
//! merge source specs, data-format detection, C++ build layout and bar resampling.

use crate::config::DataFormat;
use crate::decimal::{
    dec_checked_add, dec_le, dec_lt, dec_parse, decimal_parse, has_value, lemma_checked_add_after,
    lemma_pow10_zero, lemma_scaled_value, min_dec, pair_plus, representable, scaled_up_to, sum_of,
    value_le, value_lt, Dec,
};
use crate::pbar::{is_pbar_path, pbar_path};
use crate::strategy::{join_path, join_path_text};
use crate::text::{
    ascii_lower, chars_eq, chars_of, first_index, lower_seq, path_extension, path_extension_text,
    slice_chars, string_of, to_lowercase, trim, trim_chars, unicode_lowercase,
};
use vstd::prelude::*;

verus! {

/// The text before and after the first `c`, if `c` occurs.
pub open spec fn split_first(s: Seq<char>, c: char) -> Option<(Seq<char>, Seq<char>)> {
    match first_index(s, c) {
        Some(i) => Some((s.subrange(0, i), s.subrange(i + 1, s.len() as int))),
        None => None,
    }
}

/// The text before and after the first `c`, if `c` occurs.
pub fn split_once(s: &str, c: char) -> (r: Option<(String, String)>)
    ensures
        match r {
            Some((a, b)) => split_first(s@, c) == Some((a@, b@)),
            None => split_first(s@, c).is_none(),
        },
{
    let cs = chars_of(s);
    match crate::text::find_char(&cs, c) {
        None => {
            proof {
                assert(!exists|i: int| 0 <= i < s@.len() && s@[i] == c);
            }
            None
        },
        Some(i) => {
            proof {
                assert(exists|k: int| 0 <= k < s@.len() && s@[k] == c) by {
                    assert(s@[i as int] == c);
                }
                let f = first_index(s@, c).unwrap();
                if f > i {
                    assert(s@[i as int] == c);
                }
                assert(f == i);
            }
            let a = slice_chars(&cs, 0, i);
            let b = slice_chars(&cs, i + 1, cs.len());
            Some((string_of(&a), string_of(&b)))
        },
    }
}

/// Parse `ASSET:AMOUNT` into its two texts (split at the first colon).
pub fn parse_balance(s: &str) -> (r: Result<(String, String), String>)
    ensures
        match r {
            Ok((a, v)) => split_first(s@, ':') == Some((a@, v@)),
            Err(m) => split_first(s@, ':').is_none() && m@ == "balance must be ASSET:AMOUNT"@,
        },
{
    match split_once(s, ':') {
        Some(p) => Ok(p),
        None => Err("balance must be ASSET:AMOUNT".to_owned()),
    }
}

/// Split `KEY=VALUE` at the first `=`; the key must not be blank. The value text is then read
/// as JSON by the caller.
pub fn split_strategy_parameter(s: &str) -> (r: Result<(String, String), String>)
    ensures
        match split_first(s@, '=') {
            None => r matches Err(m) && m@ == "strategy parameter must be KEY=JSON"@,
            Some((k, v)) => if trim(k).len() == 0 {
                r matches Err(m) && m@ == "strategy parameter key must not be empty"@
            } else {
                r matches Ok((rk, rv)) && rk@ == k && rv@ == v
            },
        },
{
    match split_once(s, '=') {
        None => Err("strategy parameter must be KEY=JSON".to_owned()),
        Some((k, v)) => {
            let kc = chars_of(k.as_str());
            let t = trim_chars(&kc);
            if t.len() == 0 {
                Err("strategy parameter key must not be empty".to_owned())
            } else {
                Ok((k, v))
            }
        },
    }
}

/// A positive decimal quantity; other texts are refused with the reason.
pub fn parse_positive_decimal(s: &str) -> (r: Result<Dec, String>)
    ensures
        match decimal_parse(s@) {
            None => r matches Err(m) && m@ == "invalid decimal `"@ + s@ + "`"@,
            Some(p) => if p.0 <= 0 {
                r matches Err(m) && m@ == "quantity must be positive"@
            } else {
                r matches Ok(d) && d.parts() == p && d.wf()
            },
        },
{
    match dec_parse(s) {
        None => Err(crate::text::concat3("invalid decimal `", s, "`")),
        Some(d) => {
            if d.mantissa <= 0 {
                Err("quantity must be positive".to_owned())
            } else {
                Ok(d)
            }
        },
    }
}

/// Every character is an ASCII digit.
pub open spec fn all_digits(s: Seq<char>) -> bool {
    forall|i: int| 0 <= i < s.len() ==> '0' <= #[trigger] s[i] <= '9'
}

/// Value of a digit string.
pub open spec fn digits_value(s: Seq<char>) -> int
    decreases s.len(),
{
    if s.len() == 0 {
        0
    } else {
        digits_value(s.drop_last()) * 10 + (s.last() as int - '0' as int)
    }
}

/// What `i64::from_str` reads: an optional `+` or `-`, then at least one ASCII digit, in range.
pub open spec fn parse_i64_of(s: Seq<char>) -> Option<int> {
    let signed = s.len() > 0 && (s[0] == '+' || s[0] == '-');
    let digits = if signed {
        s.subrange(1, s.len() as int)
    } else {
        s
    };
    if digits.len() == 0 || !all_digits(digits) {
        None
    } else {
        let v = if signed && s[0] == '-' {
            -digits_value(digits)
        } else {
            digits_value(digits)
        };
        if i64::MIN <= v <= i64::MAX {
            Some(v)
        } else {
            None
        }
    }
}

proof fn lemma_digits_value_nonneg(s: Seq<char>)
    requires
        all_digits(s),
    ensures
        digits_value(s) >= 0,
    decreases s.len(),
{
    if s.len() > 0 {
        lemma_digits_value_nonneg(s.drop_last());
    }
}

/// A longer digit string is worth at least as much as its prefix.
proof fn lemma_digits_value_prefix(s: Seq<char>, k: int)
    requires
        all_digits(s),
        0 <= k <= s.len(),
    ensures
        digits_value(s.subrange(0, k)) <= digits_value(s),
    decreases s.len() - k,
{
    if k < s.len() {
        lemma_digits_value_prefix(s, k + 1);
        let p = s.subrange(0, k + 1);
        assert(p.drop_last() =~= s.subrange(0, k));
        lemma_digits_value_nonneg(s.subrange(0, k));
    } else {
        assert(s.subrange(0, k) =~= s);
    }
}

/// Read an `i64` as `str::parse` does.
pub fn parse_i64(s: &[char]) -> (r: Option<i64>)
    ensures
        match r {
            Some(v) => parse_i64_of(s@) == Some(v as int),
            None => parse_i64_of(s@).is_none(),
        },
{
    let signed = s.len() > 0 && (s[0] == '+' || s[0] == '-');
    let neg = signed && s[0] == '-';
    let start: usize = if signed {
        1
    } else {
        0
    };
    let ghost digits = s@.subrange(start as int, s@.len() as int);
    proof {
        if !signed {
            assert(digits =~= s@);
        }
    }
    if s.len() == start {
        return None;
    }
    let mut acc: i128 = 0;
    let mut i: usize = start;
    while i < s.len()
        invariant
            start <= i <= s@.len(),
            start < s@.len(),
            signed == (s@.len() > 0 && (s@[0] == '+' || s@[0] == '-')),
            start == (if signed {
                1usize
            } else {
                0usize
            }),
            neg == (signed && s@[0] == '-'),
            digits == s@.subrange(start as int, s@.len() as int),
            digits == (if signed {
                s@.subrange(1, s@.len() as int)
            } else {
                s@
            }),
            all_digits(digits.subrange(0, i - start)),
            acc == digits_value(digits.subrange(0, i - start)),
            0 <= acc <= 9223372036854775808,
        decreases s@.len() - i,
    {
        let c = s[i];
        if c < '0' || c > '9' {
            proof {
                assert(digits[i - start] == c);
            }
            return None;
        }
        let d = (c as u32 - '0' as u32) as i128;
        proof {
            let p = digits.subrange(0, i - start + 1);
            assert(p.drop_last() =~= digits.subrange(0, i - start));
            assert(all_digits(p));
        }
        let next = acc * 10 + d;
        if next > 9223372036854775808 {
            proof {
                let p = digits.subrange(0, i - start + 1);
                assert(p.last() == s@[i as int]);
                assert(digits_value(p) == next);
                if all_digits(digits) {
                    lemma_digits_value_prefix(digits, i - start + 1);
                    assert(digits_value(digits) > 9223372036854775808);
                }
                assert(parse_i64_of(s@).is_none());
            }
            return None;
        }
        acc = next;
        i = i + 1;
    }
    proof {
        assert(digits.subrange(0, digits.len() as int) =~= digits);
        assert(acc == digits_value(digits));
        assert(all_digits(digits));
    }
    let v: i128 = if neg {
        -acc
    } else {
        acc
    };
    if v < i64::MIN as i128 || v > i64::MAX as i128 {
        return None;
    }
    Some(v as i64)
}

/// Seconds of a resampling interval such as `5m`, `4h` or `1d` (already trimmed and lower-cased):
/// an `i64` count with a minute, hour or day suffix.
pub open spec fn interval_value(l: Seq<char>) -> Option<int> {
    if l.len() == 0 {
        None
    } else {
        let unit: int = if l.last() == 'm' {
            60
        } else if l.last() == 'h' {
            3600
        } else if l.last() == 'd' {
            86400
        } else {
            0
        };
        if unit == 0 {
            None
        } else {
            match parse_i64_of(l.drop_last()) {
                Some(n) => Some(n * unit),
                None => None,
            }
        }
    }
}

/// The interval text as read: trimmed, then lower-cased.
pub open spec fn interval_key(s: Seq<char>) -> Seq<char> {
    unicode_lowercase(trim(s))
}

/// The interval's seconds fit an `i64` (or it is not an interval).
pub open spec fn interval_fits(s: Seq<char>) -> bool {
    match interval_value(interval_key(s)) {
        Some(v) => i64::MIN <= v <= i64::MAX,
        None => true,
    }
}

/// Seconds of a resampling interval; `None` for an unsupported one.
pub fn interval_to_seconds(interval: &str) -> (r: Option<i64>)
    requires
        interval_fits(interval@),
    ensures
        match r {
            Some(v) => interval_value(interval_key(interval@)) == Some(v as int),
            None => interval_value(interval_key(interval@)).is_none(),
        },
{
    let cs = chars_of(interval);
    let t = string_of(&trim_chars(&cs));
    let l = chars_of(to_lowercase(t.as_str()).as_str());
    if l.len() == 0 {
        return None;
    }
    let last = l[l.len() - 1];
    let unit: i64 = if last == 'm' {
        60
    } else if last == 'h' {
        3600
    } else if last == 'd' {
        86400
    } else {
        0
    };
    if unit == 0 {
        return None;
    }
    let body = slice_chars(&l, 0, l.len() - 1);
    proof {
        assert(body@ =~= l@.drop_last());
    }
    match parse_i64(&body) {
        Some(n) => {
            let v = (n as i128) * (unit as i128);
            Some(v as i64)
        },
        None => None,
    }
}

/// Seconds of a resampling interval, reporting separately an interval too large for `i64`
/// seconds (`None`), an unsupported one (`Some(None)`) and a supported one.
pub fn interval_to_seconds_checked(interval: &str) -> (r: Option<Option<i64>>)
    ensures
        match r {
            None => !interval_fits(interval@),
            Some(Some(v)) => interval_value(interval_key(interval@)) == Some(v as int),
            Some(None) => interval_value(interval_key(interval@)).is_none(),
        },
{
    let cs = chars_of(interval);
    let t = string_of(&trim_chars(&cs));
    let l = chars_of(to_lowercase(t.as_str()).as_str());
    if l.len() == 0 {
        return Some(None);
    }
    let last = l[l.len() - 1];
    let unit: i128 = if last == 'm' {
        60
    } else if last == 'h' {
        3600
    } else if last == 'd' {
        86400
    } else {
        0
    };
    if unit == 0 {
        return Some(None);
    }
    let body = slice_chars(&l, 0, l.len() - 1);
    proof {
        assert(body@ =~= l@.drop_last());
    }
    match parse_i64(&body) {
        Some(n) => {
            let v = (n as i128) * unit;
            if v < i64::MIN as i128 || v > i64::MAX as i128 {
                return None;
            }
            Some(interval_to_seconds(interval))
        },
        None => Some(None),
    }
}

/// Start (Unix seconds) of the bucket of width `bucket_secs` holding `ts`: `ts` divided by the
/// width with the quotient truncated toward zero, times the width. (A negative width gives the
/// buckets of its magnitude.)
pub open spec fn bucket_of(ts: int, bucket_secs: int) -> int {
    let m = if bucket_secs < 0 {
        -bucket_secs
    } else {
        bucket_secs
    };
    let q = if ts >= 0 {
        ts / m
    } else {
        -((-ts) / m)
    };
    q * m
}

/// Width of a bucket.
pub open spec fn width_of(bucket_secs: int) -> int {
    if bucket_secs < 0 {
        -bucket_secs
    } else {
        bucket_secs
    }
}

/// Start of the resampling bucket holding `ts` (`ts / bucket_secs * bucket_secs` in `i64`
/// arithmetic).
pub fn bucket_start(ts: i64, bucket_secs: i64) -> (r: i64)
    requires
        bucket_secs != 0,
        !(ts == i64::MIN && bucket_secs == -1),
    ensures
        r == bucket_of(ts as int, bucket_secs as int),
        r <= ts < r + width_of(bucket_secs as int) || (ts < 0 && r - width_of(bucket_secs as int)
            < ts <= r),
{
    let t = ts as i128;
    let b = bucket_secs as i128;
    let m = if b < 0 {
        -b
    } else {
        b
    };
    let q = if t >= 0 {
        t / m
    } else {
        -((-t) / m)
    };
    proof {
        let ti = t as int;
        let mi = m as int;
        let qi = q as int;
        assert(qi * mi <= ti < qi * mi + mi || (ti < 0 && qi * mi - mi < ti <= qi * mi)) by (nonlinear_arith)
            requires
                mi > 0,
                ti >= 0 ==> qi == ti / mi,
                ti < 0 ==> qi == -((-ti) / mi),
        ;
        assert(ti >= 0 ==> 0 <= qi * mi <= ti) by (nonlinear_arith)
            requires
                mi > 0,
                ti >= 0 ==> qi == ti / mi,
        ;
        assert(ti < 0 ==> ti <= qi * mi <= 0) by (nonlinear_arith)
            requires
                mi > 0,
                ti < 0 ==> qi == -((-ti) / mi),
        ;
    }
    (q * m) as i64
}

/// Source format of a merge source spec.
#[derive(Clone, Copy, Debug, PartialEq, Eq, Structural)]
pub enum SourceFormat {
    Ohlcv,
    Yahoo,
    Fx,
    Future,
}

/// The source format a lower-cased name denotes.
pub open spec fn source_format_of(l: Seq<char>) -> Option<SourceFormat> {
    if l == "ohlcv"@ || l == "binance"@ {
        Some(SourceFormat::Ohlcv)
    } else if l == "yahoo"@ {
        Some(SourceFormat::Yahoo)
    } else if l == "fx"@ {
        Some(SourceFormat::Fx)
    } else if l == "future"@ || l == "futures"@ {
        Some(SourceFormat::Future)
    } else {
        None
    }
}

/// Split a merge source spec `format:exchange:symbol:path` into its fields: the first three
/// colons separate them, so the path may hold colons.
pub open spec fn spec_fields(s: Seq<char>) -> Option<(Seq<char>, Seq<char>, Seq<char>, Seq<char>)> {
    match split_first(s, ':') {
        None => None,
        Some((a, rest)) => match split_first(rest, ':') {
            None => None,
            Some((b, rest2)) => match split_first(rest2, ':') {
                None => None,
                Some((c, d)) => Some((a, b, c, d)),
            },
        },
    }
}

/// Parse a merge source spec `format:exchange:symbol:path`.
pub fn parse_source_spec(spec: &str) -> (r: Result<(SourceFormat, String, String, String), String>)
    ensures
        match spec_fields(spec@) {
            None => r matches Err(m) && m@
                == "source spec must be format:exchange:symbol:path (e.g. yahoo:yahoo:AAPL:data/AAPL.csv)"@,
            Some((f, e, s, p)) => match source_format_of(unicode_lowercase(f)) {
                None => r matches Err(m) && m@ == "unknown format in source spec: "@
                    + unicode_lowercase(f),
                Some(fmt) => r matches Ok((rf, re, rs, rp)) && rf == fmt && re@ == e && rs@ == s
                    && rp@ == p,
            },
        },
{
    let err = "source spec must be format:exchange:symbol:path (e.g. yahoo:yahoo:AAPL:data/AAPL.csv)";
    let (f, rest) = match split_once(spec, ':') {
        Some(p) => p,
        None => {
            return Err(err.to_owned());
        },
    };
    let (e, rest2) = match split_once(rest.as_str(), ':') {
        Some(p) => p,
        None => {
            return Err(err.to_owned());
        },
    };
    let (s, p) = match split_once(rest2.as_str(), ':') {
        Some(x) => x,
        None => {
            return Err(err.to_owned());
        },
    };
    let l = to_lowercase(f.as_str());
    let lc = chars_of(l.as_str());
    let fmt = if chars_eq(&lc, "ohlcv") || chars_eq(&lc, "binance") {
        SourceFormat::Ohlcv
    } else if chars_eq(&lc, "yahoo") {
        SourceFormat::Yahoo
    } else if chars_eq(&lc, "fx") {
        SourceFormat::Fx
    } else if chars_eq(&lc, "future") || chars_eq(&lc, "futures") {
        SourceFormat::Future
    } else {
        let mut m = "unknown format in source spec: ".to_owned();
        m.append(l.as_str());
        return Err(m);
    };
    Ok((fmt, e, s, p))
}

/// The format a data path's name decides: a `.pbar` cache is OHLCV and a `.jsonl` file holds
/// events; other files are told apart by their CSV header.
pub open spec fn format_by_name(p: Seq<char>) -> Option<DataFormat> {
    if pbar_path(p) {
        Some(DataFormat::Ohlcv)
    } else if path_extension(p) == Some("jsonl"@) {
        Some(DataFormat::Jsonl)
    } else {
        None
    }
}

/// The format a data path's name decides, if it does.
pub fn detect_format_by_name(path: &str) -> (r: Option<DataFormat>)
    ensures
        r == format_by_name(path@),
{
    if is_pbar_path(path) {
        return Some(DataFormat::Ohlcv);
    }
    match path_extension_text(path) {
        Some(e) => {
            if chars_eq(&e, "jsonl") {
                Some(DataFormat::Jsonl)
            } else {
                None
            }
        },
        None => None,
    }
}

/// A CSV with a `bid` column holds FX quotes; any other holds OHLCV bars.
pub open spec fn format_by_headers(headers: Seq<Seq<char>>) -> DataFormat {
    if headers.contains("bid"@) {
        DataFormat::Fx
    } else {
        DataFormat::Ohlcv
    }
}

/// The format a CSV header row shows.
pub fn detect_format_by_headers(headers: &Vec<String>) -> (r: DataFormat)
    ensures
        r == format_by_headers(headers@.map_values(|h: String| h@)),
{
    let ghost hv = headers@.map_values(|h: String| h@);
    let mut i: usize = 0;
    while i < headers.len()
        invariant
            hv == headers@.map_values(|h: String| h@),
            i <= headers@.len(),
            forall|j: int| 0 <= j < i ==> (#[trigger] headers@[j])@ != "bid"@,
        decreases headers@.len() - i,
    {
        if crate::text::str_eq(headers[i].as_str(), "bid") {
            assert(hv[i as int] == "bid"@);
            return DataFormat::Fx;
        }
        i = i + 1;
    }
    proof {
        if hv.contains("bid"@) {
            let j = choose|j: int| 0 <= j < hv.len() && hv[j] == "bid"@;
            assert(headers@[j]@ == hv[j]);
        }
    }
    DataFormat::Ohlcv
}

/// The format to load: the configured one, else the one the name decides, else the one the
/// header row shows (the caller reads the header only when the name does not decide).
pub fn resolve_format(path: &str, configured: DataFormat, headers: &Vec<String>) -> (r: DataFormat)
    ensures
        r == if configured != DataFormat::Auto {
            configured
        } else {
            match format_by_name(path@) {
                Some(f) => f,
                None => format_by_headers(headers@.map_values(|h: String| h@)),
            }
        },
{
    if configured != DataFormat::Auto {
        return configured;
    }
    match detect_format_by_name(path) {
        Some(f) => f,
        None => detect_format_by_headers(headers),
    }
}

/// How C++ strategies are configured and built.
#[derive(Clone, Copy, Debug, PartialEq, Eq, Structural)]
pub enum CppToolchain {
    /// The platform's default CMake generator.
    Default,
    /// MinGW makefiles with `g++`.
    Mingw,
}

impl CppToolchain {
    /// MinGW is chosen on Windows when `cl` is missing but `g++` and `mingw32-make` are present.
    pub fn detect(windows: bool, has_cl: bool, has_gpp: bool, has_mingw_make: bool) -> (r: CppToolchain)
        ensures
            r == (if windows && !has_cl && has_gpp && has_mingw_make {
                CppToolchain::Mingw
            } else {
                CppToolchain::Default
            }),
    {
        if windows && !has_cl && has_gpp && has_mingw_make {
            CppToolchain::Mingw
        } else {
            CppToolchain::Default
        }
    }

    /// Build directory name inside the strategy directory.
    pub fn build_dir_name(&self) -> (r: &'static str)
        ensures
            r@ == match *self {
                CppToolchain::Default => "build"@,
                CppToolchain::Mingw => "build-mingw"@,
            },
    {
        match self {
            CppToolchain::Default => "build",
            CppToolchain::Mingw => "build-mingw",
        }
    }

    /// Extra CMake configure arguments.
    pub fn configure_args(&self) -> (r: Vec<&'static str>)
        ensures
            r@.map_values(|a: &'static str| a@) == match *self {
                CppToolchain::Default => Seq::<Seq<char>>::empty(),
                CppToolchain::Mingw => seq!["-G"@, "MinGW Makefiles"@, "-DCMAKE_CXX_COMPILER=g++"@],
            },
    {
        let mut v: Vec<&'static str> = Vec::new();
        match self {
            CppToolchain::Mingw => {
                v.push("-G");
                v.push("MinGW Makefiles");
                v.push("-DCMAKE_CXX_COMPILER=g++");
            },
            CppToolchain::Default => {},
        }
        proof {
            assert(v@.map_values(|a: &'static str| a@) =~= match *self {
                CppToolchain::Default => Seq::<Seq<char>>::empty(),
                CppToolchain::Mingw => seq!["-G"@, "MinGW Makefiles"@, "-DCMAKE_CXX_COMPILER=g++"@],
            });
        }
        v
    }

    /// Message when CMake configuration fails.
    pub fn configure_error(&self) -> (r: String)
        ensures
            r@ == match *self {
                CppToolchain::Default => "cmake configure failed; install a C++ compiler or set CMAKE_GENERATOR/CXX"@,
                CppToolchain::Mingw => "cmake configure failed with MinGW; verify g++ and mingw32-make are on PATH"@,
            },
    {
        match self {
            CppToolchain::Default => {
                "cmake configure failed; install a C++ compiler or set CMAKE_GENERATOR/CXX".to_owned()
            },
            CppToolchain::Mingw => {
                "cmake configure failed with MinGW; verify g++ and mingw32-make are on PATH".to_owned()
            },
        }
    }
}

/// Where a built strategy binary may be, in the order looked at: the build directory, then
/// its `Release`, `Debug`, `RelWithDebInfo` and `MinSizeRel` subdirectories.
pub open spec fn binary_candidates_of(build_dir: Seq<char>, file: Seq<char>) -> Seq<Seq<char>> {
    seq![
        join_path(build_dir, file),
        join_path(join_path(build_dir, "Release"@), file),
        join_path(join_path(build_dir, "Debug"@), file),
        join_path(join_path(build_dir, "RelWithDebInfo"@), file),
        join_path(join_path(build_dir, "MinSizeRel"@), file),
    ]
}

/// Where a built strategy binary named `name` (plus `exe_suffix`, `.exe` on Windows) may be.
pub fn binary_candidates(build_dir: &str, name: &str, exe_suffix: &str) -> (r: Vec<String>)
    ensures
        r@.map_values(|p: String| p@) == binary_candidates_of(build_dir@, name@ + exe_suffix@),
{
    let mut file = name.to_owned();
    file.append(exe_suffix);
    let f = file.as_str();
    let mut v: Vec<String> = Vec::new();
    v.push(join_path_text(build_dir, f));
    let d = join_path_text(build_dir, "Release");
    v.push(join_path_text(d.as_str(), f));
    let d = join_path_text(build_dir, "Debug");
    v.push(join_path_text(d.as_str(), f));
    let d = join_path_text(build_dir, "RelWithDebInfo");
    v.push(join_path_text(d.as_str(), f));
    let d = join_path_text(build_dir, "MinSizeRel");
    v.push(join_path_text(d.as_str(), f));
    proof {
        assert(v@.map_values(|p: String| p@) =~= binary_candidates_of(build_dir@, name@ + exe_suffix@));
    }
    v
}

/// One OHLCV row to resample, stamped in Unix seconds.
#[derive(Clone, Copy, Debug)]
pub struct ParsedRow {
    pub ts: i64,
    pub open: Dec,
    pub high: Dec,
    pub low: Dec,
    pub close: Dec,
    pub volume: Dec,
}

impl ParsedRow {
    pub open spec fn wf(self) -> bool {
        self.open.wf() && self.high.wf() && self.low.wf() && self.close.wf() && self.volume.wf()
    }
}

/// The larger value; the second one when they are equal (`Ord::max`).
pub open spec fn max_dec(a: Dec, b: Dec) -> Dec {
    if value_le(a, b) {
        b
    } else {
        a
    }
}

/// Rows grouped into buckets of `b` seconds: a row whose bucket differs from the previous row's
/// opens a bar stamped with the bucket start; a row in the same bucket widens the high and low,
/// takes over the close and adds its volume. `None` when a volume sum overflows.
pub open spec fn aggregate_of(rows: Seq<ParsedRow>, b: int, n: int) -> Option<Seq<ParsedRow>>
    decreases n,
{
    if n <= 0 {
        Some(Seq::empty())
    } else {
        match aggregate_of(rows, b, n - 1) {
            None => None,
            Some(out) => {
                let row = rows[n - 1];
                let bk = bucket_of(row.ts as int, b);
                if n == 1 || bucket_of(rows[n - 2].ts as int, b) != bk {
                    Some(out.push(ParsedRow { ts: bk as i64, ..row }))
                } else {
                    let last = out.last();
                    match sum_of(last.volume, row.volume) {
                        None => None,
                        Some(v) => Some(
                            out.update(
                                out.len() - 1,
                                ParsedRow {
                                    ts: last.ts,
                                    open: last.open,
                                    high: max_dec(last.high, row.high),
                                    low: min_dec(last.low, row.low),
                                    close: row.close,
                                    volume: v,
                                },
                            ),
                        ),
                    }
                }
            },
        }
    }
}

/// The volumes of the resampled bars added up without rounding, one exact mantissa/scale pair
/// per bar: a new bucket starts from its first row's volume and every further row of the bucket
/// adds its own; `None` when a partial sum does not fit a decimal.
pub open spec fn exact_volumes(rows: Seq<ParsedRow>, b: int, n: int) -> Option<Seq<(int, nat)>>
    decreases n,
{
    if n <= 0 {
        Some(Seq::empty())
    } else {
        match exact_volumes(rows, b, n - 1) {
            None => None,
            Some(vs) => {
                let row = rows[n - 1];
                if n == 1 || bucket_of(rows[n - 2].ts as int, b) != bucket_of(row.ts as int, b) {
                    Some(vs.push((row.volume.mantissa as int, row.volume.scale as nat)))
                } else {
                    let v = pair_plus(vs.last(), row.volume);
                    if representable(v) {
                        Some(vs.update(vs.len() - 1, v))
                    } else {
                        None
                    }
                }
            },
        }
    }
}

/// Resample rows into bars of `bucket_secs` seconds, in order.
pub fn aggregate_rows(rows: &Vec<ParsedRow>, bucket_secs: i64) -> (r: Option<Vec<ParsedRow>>)
    requires
        bucket_secs != 0,
        bucket_secs == -1 ==> forall|k: int| 0 <= k < rows@.len() ==> (#[trigger] rows@[k]).ts
            != i64::MIN,
        forall|k: int| 0 <= k < rows@.len() ==> (#[trigger] rows@[k]).wf(),
    ensures
        match r {
            Some(v) => aggregate_of(rows@, bucket_secs as int, rows@.len() as int) == Some(v@),
            None => aggregate_of(rows@, bucket_secs as int, rows@.len() as int).is_none(),
        },
        r is Some && exact_volumes(rows@, bucket_secs as int, rows@.len() as int) is Some ==> (
        exact_volumes(rows@, bucket_secs as int, rows@.len() as int)->Some_0.len() == r->Some_0@.len()
            && forall|k: int|
            0 <= k < r->Some_0@.len() ==> has_value(
                #[trigger] r->Some_0@[k].volume,
                exact_volumes(rows@, bucket_secs as int, rows@.len() as int)->Some_0[k],
            )),
{
    let mut out: Vec<ParsedRow> = Vec::new();
    let mut cur: Option<i64> = None;
    let mut i: usize = 0;
    while i < rows.len()
        invariant
            bucket_secs != 0,
            bucket_secs == -1 ==> forall|k: int| 0 <= k < rows@.len() ==> (#[trigger] rows@[k]).ts
                != i64::MIN,
            forall|k: int| 0 <= k < rows@.len() ==> (#[trigger] rows@[k]).wf(),
            i <= rows@.len(),
            aggregate_of(rows@, bucket_secs as int, i as int) == Some(out@),
            i == 0 ==> cur.is_none(),
            i > 0 ==> (cur matches Some(c) && c as int == bucket_of(
                rows@[i - 1].ts as int,
                bucket_secs as int,
            )),
            i > 0 ==> out@.len() > 0,
            forall|k: int| 0 <= k < out@.len() ==> (#[trigger] out@[k]).wf(),
            exact_volumes(rows@, bucket_secs as int, i as int) matches Some(vs) ==> vs.len()
                == out@.len() && forall|k: int|
                0 <= k < out@.len() ==> scaled_up_to(#[trigger] out@[k].volume, vs[k]),
        decreases rows@.len() - i,
    {
        let row = rows[i];
        assert(rows@[i as int].wf());
        let bk = bucket_start(row.ts, bucket_secs);
        proof {
            bucket_start_value_fits(row.ts, bucket_secs);
        }
        let new_group = match cur {
            Some(c) => c != bk,
            None => true,
        };
        if new_group {
            proof {
                lemma_pow10_zero();
            }
            out.push(ParsedRow { ts: bk, ..row });
            cur = Some(bk);
        } else {
            let last = out[out.len() - 1];
            let v = match dec_checked_add(last.volume, row.volume) {
                Some(v) => v,
                None => {
                    proof {
                        assert(aggregate_of(rows@, bucket_secs as int, i + 1).is_none());
                        aggregate_none_persists(rows@, bucket_secs as int, i + 1, rows@.len() as int);
                    }
                    return None;
                },
            };
            let high = if dec_le(last.high, row.high) {
                row.high
            } else {
                last.high
            };
            let low = if dec_le(last.low, row.low) {
                last.low
            } else {
                row.low
            };
            let n = out.len() - 1;
            proof {
                if exact_volumes(rows@, bucket_secs as int, i + 1) is Some {
                    let vs = exact_volumes(rows@, bucket_secs as int, i as int)->Some_0;
                    lemma_checked_add_after(last.volume, vs.last(), row.volume, Some(v));
                }
            }
            out.set(
                n,
                ParsedRow {
                    ts: last.ts,
                    open: last.open,
                    high,
                    low,
                    close: row.close,
                    volume: v,
                },
            );
        }
        i = i + 1;
    }
    proof {
        if exact_volumes(rows@, bucket_secs as int, rows@.len() as int) is Some {
            let vs = exact_volumes(rows@, bucket_secs as int, rows@.len() as int)->Some_0;
            assert forall|k: int| 0 <= k < out@.len() implies has_value(
                #[trigger] out@[k].volume,
                vs[k],
            ) by {
                lemma_scaled_value(out@[k].volume, vs[k]);
            }
        }
    }
    Some(out)
}

/// Resampling one more row: a row whose bucket differs from the previous row's appends a bar
/// of its own, stamped with the bucket start and carrying the row's prices and volume; a row in
/// the same bucket changes only the last bar, which keeps its time and open, takes the row's
/// close, and widens to cover both the bar's range and the row's (its high is the larger of the
/// two highs, its low the smaller of the two lows).
pub proof fn law_resample_step(
    rows: Seq<ParsedRow>,
    b: int,
    n: int,
    prev: Seq<ParsedRow>,
    cur: Seq<ParsedRow>,
)
    requires
        1 <= n <= rows.len(),
        aggregate_of(rows, b, n - 1) == Some(prev),
        aggregate_of(rows, b, n) == Some(cur),
    ensures
        n == 1 || bucket_of(rows[n - 2].ts as int, b) != bucket_of(rows[n - 1].ts as int, b) ==> {
            &&& cur.len() == prev.len() + 1
            &&& cur.subrange(0, prev.len() as int) == prev
            &&& cur.last().ts == bucket_of(rows[n - 1].ts as int, b) as i64
            &&& cur.last().open == rows[n - 1].open && cur.last().high == rows[n - 1].high
            &&& cur.last().low == rows[n - 1].low && cur.last().close == rows[n - 1].close
            &&& cur.last().volume == rows[n - 1].volume
        },
        n > 1 && bucket_of(rows[n - 2].ts as int, b) == bucket_of(rows[n - 1].ts as int, b) ==> {
            &&& prev.len() > 0 && cur.len() == prev.len()
            &&& cur.subrange(0, prev.len() - 1) == prev.subrange(0, prev.len() - 1)
            &&& cur.last().ts == prev.last().ts && cur.last().open == prev.last().open
            &&& cur.last().close == rows[n - 1].close
            &&& value_le(prev.last().high, cur.last().high) && value_le(rows[n - 1].high, cur.last().high)
            &&& (cur.last().high == prev.last().high || cur.last().high == rows[n - 1].high)
            &&& value_le(cur.last().low, prev.last().low) && value_le(cur.last().low, rows[n - 1].low)
            &&& (cur.last().low == prev.last().low || cur.last().low == rows[n - 1].low)
        },
{
    if n > 1 && bucket_of(rows[n - 2].ts as int, b) == bucket_of(rows[n - 1].ts as int, b) {
        lemma_aggregate_nonempty(rows, b, n - 1);
        assert(cur.subrange(0, prev.len() - 1) =~= prev.subrange(0, prev.len() - 1));
    } else {
        assert(cur.subrange(0, prev.len() as int) =~= prev);
    }
}

/// A successful resampling of at least one row has at least one bar.
proof fn lemma_aggregate_nonempty(rows: Seq<ParsedRow>, b: int, n: int)
    requires
        n >= 1,
        aggregate_of(rows, b, n) is Some,
    ensures
        aggregate_of(rows, b, n)->Some_0.len() > 0,
    decreases n,
{
    if n > 1 {
        lemma_aggregate_nonempty(rows, b, n - 1);
    }
}

/// Once a volume sum has overflowed, every longer prefix fails too.
proof fn aggregate_none_persists(rows: Seq<ParsedRow>, b: int, i: int, n: int)
    requires
        i <= n,
        aggregate_of(rows, b, i).is_none(),
    ensures
        aggregate_of(rows, b, n).is_none(),
    decreases n - i,
{
    if i < n {
        aggregate_none_persists(rows, b, i, n - 1);
    }
}

/// Bucket starts fit an `i64`.
proof fn bucket_start_value_fits(ts: i64, b: i64)
    requires
        b != 0,
    ensures
        i64::MIN <= bucket_of(ts as int, b as int) <= i64::MAX,
{
    let t = ts as int;
    let m = width_of(b as int);
    let qi = if t >= 0 {
        t / m
    } else {
        -((-t) / m)
    };
    assert(t >= 0 ==> 0 <= qi * m <= t) by (nonlinear_arith)
        requires
            m > 0,
            t >= 0 ==> qi == t / m,
    ;
    assert(t < 0 ==> t <= qi * m <= 0) by (nonlinear_arith)
        requires
            m > 0,
            t < 0 ==> qi == -((-t) / m),
    ;
}

} // verus!
