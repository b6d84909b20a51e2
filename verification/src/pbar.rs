//! Binary bar cache (`.pbar`): a magic tag, a version, the tick size as text, a bar count and
//! fixed-width little-endian bars.

use crate::bar::{Bar, BarSeries};
use crate::decimal::{dec_parse, dec_to_string, decimal_parse, decimal_text, Dec};
use crate::text::{ascii_lower, chars_eq, lower_seq, path_extension, path_extension_text};
use vstd::bytes::{
    lemma_auto_spec_u32_to_from_le_bytes, lemma_auto_spec_u64_to_from_le_bytes, spec_u32_from_le_bytes,
    spec_u32_to_le_bytes, spec_u64_from_le_bytes, spec_u64_to_le_bytes, u32_from_le_bytes,
    u32_to_le_bytes, u64_from_le_bytes, u64_to_le_bytes,
};
use vstd::prelude::*;
use vstd::slice::slice_subrange;
use vstd::string::StringSliceAdditionalSpecFns;
use vstd::utf8::{decode_utf8, encode_utf8, valid_utf8};

verus! {

/// Bytes of one encoded bar.
pub const BAR_BYTES: usize = 48usize;

/// Why a byte buffer is not a readable `.pbar` file.
#[derive(Clone, Copy, Debug, PartialEq, Eq, Structural)]
pub enum PbarError {
    /// The buffer ends before a header field is complete.
    Truncated,
    /// The first four bytes are not `PBAR`.
    BadMagic,
    /// A version other than 1.
    UnsupportedVersion(u32),
    /// The tick-size text is not UTF-8.
    BadTickText,
    /// The tick-size text is not a decimal.
    BadTickSize,
    /// The bar count times the bar width overflows.
    CountOverflow,
    /// The payload length differs from the count times the bar width.
    LengthMismatch { actual: u64, expected: u64 },
    /// The file holds no bars.
    Empty,
}

impl PbarError {
    /// Whether the error is an unexpected end of the data (a short header field or a payload
    /// of the wrong length); every other error is invalid data.
    pub fn is_end_of_file(&self) -> (r: bool)
        ensures
            r == (*self is Truncated || *self is LengthMismatch),
    {
        match self {
            PbarError::Truncated => true,
            PbarError::LengthMismatch { .. } => true,
            _ => false,
        }
    }
}

/// `PBAR`.
pub open spec fn magic() -> Seq<u8> {
    seq![0x50u8, 0x42u8, 0x41u8, 0x52u8]
}

pub open spec fn i64_le(x: i64) -> Seq<u8> {
    spec_u64_to_le_bytes(x as u64)
}

/// The 48 bytes of one bar: timestamp, open, high, low, close, volume.
pub open spec fn bar_le(b: Bar) -> Seq<u8> {
    i64_le(b.ts_unix_nanos) + i64_le(b.open_ticks) + i64_le(b.high_ticks) + i64_le(b.low_ticks)
        + i64_le(b.close_ticks) + i64_le(b.volume_lots)
}

/// The bars, one after another.
pub open spec fn bars_le(bars: Seq<Bar>) -> Seq<u8>
    decreases bars.len(),
{
    if bars.len() == 0 {
        Seq::empty()
    } else {
        bars_le(bars.drop_last()) + bar_le(bars.last())
    }
}

/// A whole `.pbar` file holding tick-size text `tick` and `bars`.
pub open spec fn pbar_file(tick: Seq<u8>, bars: Seq<Bar>) -> Seq<u8> {
    magic() + spec_u32_to_le_bytes(1) + spec_u32_to_le_bytes(tick.len() as u32) + tick
        + spec_u64_to_le_bytes(bars.len() as u64) + bars_le(bars)
}

pub open spec fn i64_at(b: Seq<u8>, off: int) -> i64 {
    spec_u64_from_le_bytes(b.subrange(off, off + 8)) as i64
}

/// The bar encoded at byte offset `off`.
pub open spec fn bar_at(b: Seq<u8>, off: int) -> Bar {
    Bar {
        ts_unix_nanos: i64_at(b, off),
        open_ticks: i64_at(b, off + 8),
        high_ticks: i64_at(b, off + 16),
        low_ticks: i64_at(b, off + 24),
        close_ticks: i64_at(b, off + 32),
        volume_lots: i64_at(b, off + 40),
    }
}

/// What a byte buffer decodes to: the tick-size text and the bars, or the first problem met
/// reading the header, the tick size, the count and the payload in that order.
pub open spec fn pbar_decode(b: Seq<u8>) -> Result<(Seq<u8>, Seq<Bar>), PbarError> {
    if b.len() < 4 {
        Err(PbarError::Truncated)
    } else if b.subrange(0, 4) != magic() {
        Err(PbarError::BadMagic)
    } else if b.len() < 8 {
        Err(PbarError::Truncated)
    } else if spec_u32_from_le_bytes(b.subrange(4, 8)) != 1 {
        Err(PbarError::UnsupportedVersion(spec_u32_from_le_bytes(b.subrange(4, 8))))
    } else if b.len() < 12 {
        Err(PbarError::Truncated)
    } else {
        let tl = spec_u32_from_le_bytes(b.subrange(8, 12)) as int;
        if b.len() < 12 + tl {
            Err(PbarError::Truncated)
        } else if !valid_utf8(b.subrange(12, 12 + tl)) {
            Err(PbarError::BadTickText)
        } else if decimal_parse(decode_utf8(b.subrange(12, 12 + tl))).is_none() {
            Err(PbarError::BadTickSize)
        } else if b.len() < 20 + tl {
            Err(PbarError::Truncated)
        } else {
            let count = spec_u64_from_le_bytes(b.subrange(12 + tl, 20 + tl)) as int;
            let payload = b.len() - (20 + tl);
            if count * 48 > u64::MAX {
                Err(PbarError::CountOverflow)
            } else if payload != count * 48 {
                Err(PbarError::LengthMismatch { actual: payload as u64, expected: (count * 48) as u64 })
            } else if count == 0 {
                Err(PbarError::Empty)
            } else {
                Ok(
                    (
                        b.subrange(12, 12 + tl),
                        Seq::new(count as nat, |i: int| bar_at(b, 20 + tl + 48 * i)),
                    ),
                )
            }
        }
    }
}

/// Append the little-endian bytes of an `i64`.
fn push_i64(out: &mut Vec<u8>, x: i64)
    ensures
        final(out)@ == old(out)@ + i64_le(x),
{
    let bytes = u64_to_le_bytes(x as u64);
    let ghost before = out@;
    let mut i: usize = 0;
    while i < 8
        invariant
            bytes@.len() == 8,
            i <= 8,
            out@ == before + bytes@.subrange(0, i as int),
        decreases 8 - i,
    {
        out.push(bytes[i]);
        i = i + 1;
        assert(out@ =~= before + bytes@.subrange(0, i as int));
    }
    assert(bytes@.subrange(0, 8) =~= bytes@);
}

/// Append raw bytes.
fn push_bytes(out: &mut Vec<u8>, bytes: &[u8])
    ensures
        final(out)@ == old(out)@ + bytes@,
{
    let ghost before = out@;
    let mut i: usize = 0;
    while i < bytes.len()
        invariant
            i <= bytes.len(),
            out@ == before + bytes@.subrange(0, i as int),
        decreases bytes.len() - i,
    {
        out.push(bytes[i]);
        i = i + 1;
        assert(out@ =~= before + bytes@.subrange(0, i as int));
    }
    assert(bytes@.subrange(0, bytes@.len() as int) =~= bytes@);
}

/// Encode a bar series as the bytes of a `.pbar` file (the tick size is written as its decimal
/// text; a text longer than `u32::MAX` bytes has its length field truncated).
pub fn pbar_bytes(series: &BarSeries) -> (r: Vec<u8>)
    requires
        series.tick_size.wf(),
    ensures
        r@ == pbar_file(encode_utf8(decimal_text(series.tick_size.parts())), series.bars@),
        decimal_parse(decimal_text(series.tick_size.parts())) == Some(series.tick_size.parts()),
{
    let mut out: Vec<u8> = Vec::new();
    out.push(0x50u8);
    out.push(0x42u8);
    out.push(0x41u8);
    out.push(0x52u8);
    assert(out@ =~= magic());
    let ver = u32_to_le_bytes(1);
    push_bytes(&mut out, ver.as_slice());
    let tick_text = dec_to_string(series.tick_size);
    let tick_bytes = tick_text.as_str().as_bytes();
    let tick_len = tick_bytes.len() as u32;
    let lb = u32_to_le_bytes(tick_len);
    push_bytes(&mut out, lb.as_slice());
    push_bytes(&mut out, tick_bytes);
    let cb = u64_to_le_bytes(series.bars.len() as u64);
    push_bytes(&mut out, cb.as_slice());
    let ghost header = out@;
    assert(header == magic() + spec_u32_to_le_bytes(1) + spec_u32_to_le_bytes(
        encode_utf8(decimal_text(series.tick_size.parts())).len() as u32,
    ) + encode_utf8(decimal_text(series.tick_size.parts())) + spec_u64_to_le_bytes(
        series.bars@.len() as u64,
    ));
    let mut i: usize = 0;
    while i < series.bars.len()
        invariant
            i <= series.bars@.len(),
            out@ == header + bars_le(series.bars@.subrange(0, i as int)),
        decreases series.bars@.len() - i,
    {
        let b = series.bars[i];
        push_i64(&mut out, b.ts_unix_nanos);
        push_i64(&mut out, b.open_ticks);
        push_i64(&mut out, b.high_ticks);
        push_i64(&mut out, b.low_ticks);
        push_i64(&mut out, b.close_ticks);
        push_i64(&mut out, b.volume_lots);
        proof {
            let s1 = series.bars@.subrange(0, i + 1);
            assert(s1.drop_last() =~= series.bars@.subrange(0, i as int));
            assert(s1.last() == b);
        }
        i = i + 1;
        assert(out@ =~= header + bars_le(series.bars@.subrange(0, i as int)));
    }
    assert(series.bars@.subrange(0, series.bars@.len() as int) =~= series.bars@);
    out
}

/// Read the little-endian `i64` at `off`.
fn read_i64(b: &[u8], off: usize) -> (r: i64)
    requires
        off + 8 <= b@.len(),
    ensures
        r == i64_at(b@, off as int),
{
    let n = b.len();
    assert(off + 8 <= n);
    let s = slice_subrange(b, off, off + 8);
    let v = u64_from_le_bytes(s);
    v as i64
}

/// A text from UTF-8 bytes.
///
/// Trusted: `std::str::from_utf8`, which succeeds exactly on valid UTF-8 and keeps the bytes.
#[verifier::external_body]
fn str_from_utf8(b: &[u8]) -> (r: Option<&str>)
    ensures
        r is Some <==> valid_utf8(b@),
        r matches Some(s) ==> s.spec_bytes() == b@,
{
    std::str::from_utf8(b).ok()
}

/// Decode the bytes of a `.pbar` file.
pub fn decode_pbar(b: &[u8]) -> (r: Result<BarSeries, PbarError>)
    ensures
        match pbar_decode(b@) {
            Ok((tick, bars)) => r matches Ok(s) && s.bars@ == bars && s.tick_size.wf() && Some(
                s.tick_size.parts(),
            ) == decimal_parse(decode_utf8(tick)),
            Err(e) => r == Err::<BarSeries, PbarError>(e),
        },
{
    let n = b.len();
    if n < 4 {
        return Err(PbarError::Truncated);
    }
    if !(b[0] == 0x50u8 && b[1] == 0x42u8 && b[2] == 0x41u8 && b[3] == 0x52u8) {
        proof {
            if b@.subrange(0, 4) == magic() {
                assert(b@.subrange(0, 4)[0] == b@[0]);
                assert(b@.subrange(0, 4)[1] == b@[1]);
                assert(b@.subrange(0, 4)[2] == b@[2]);
                assert(b@.subrange(0, 4)[3] == b@[3]);
            }
        }
        return Err(PbarError::BadMagic);
    }
    assert(b@.subrange(0, 4) =~= magic());
    if n < 8 {
        return Err(PbarError::Truncated);
    }
    let version = u32_from_le_bytes(slice_subrange(b, 4, 8));
    if version != 1 {
        return Err(PbarError::UnsupportedVersion(version));
    }
    if n < 12 {
        return Err(PbarError::Truncated);
    }
    let tick_len = u32_from_le_bytes(slice_subrange(b, 8, 12)) as usize;
    if n - 12 < tick_len {
        return Err(PbarError::Truncated);
    }
    let tick_end = 12 + tick_len;
    let tick_bytes = slice_subrange(b, 12, tick_end);
    let tick_text = match str_from_utf8(tick_bytes) {
        Some(t) => t,
        None => {
            return Err(PbarError::BadTickText);
        },
    };
    proof {
        vstd::utf8::encode_utf8_decode_utf8(tick_text@);
        assert(tick_text@ == decode_utf8(b@.subrange(12, tick_end as int)));
    }
    let tick_size = match dec_parse(tick_text) {
        Some(d) => d,
        None => {
            return Err(PbarError::BadTickSize);
        },
    };
    if n - tick_end < 8 {
        return Err(PbarError::Truncated);
    }
    let count_end = tick_end + 8;
    let count = u64_from_le_bytes(slice_subrange(b, tick_end, count_end));
    let expected = match count.checked_mul(48) {
        Some(e) => e,
        None => {
            return Err(PbarError::CountOverflow);
        },
    };
    let payload = (n - count_end) as u64;
    if payload != expected {
        return Err(PbarError::LengthMismatch { actual: payload, expected });
    }
    if count == 0 {
        return Err(PbarError::Empty);
    }
    let ghost tl = tick_len as int;
    let mut bars: Vec<Bar> = Vec::new();
    let mut i: usize = 0;
    let total = count as usize;
    while i < total
        invariant
            total == count,
            count_end == 20 + tl,
            n == b@.len(),
            n - count_end == 48 * count,
            i <= total,
            bars@ == Seq::new(i as nat, |k: int| bar_at(b@, 20 + tl + 48 * k)),
        decreases total - i,
    {
        let off = count_end + 48 * i;
        let bar = Bar {
            ts_unix_nanos: read_i64(b, off),
            open_ticks: read_i64(b, off + 8),
            high_ticks: read_i64(b, off + 16),
            low_ticks: read_i64(b, off + 24),
            close_ticks: read_i64(b, off + 32),
            volume_lots: read_i64(b, off + 40),
        };
        bars.push(bar);
        i = i + 1;
        assert(bars@ =~= Seq::new(i as nat, |k: int| bar_at(b@, 20 + tl + 48 * k)));
    }
    Ok(BarSeries { bars, tick_size })
}


proof fn lemma_i64_round_trip(x: i64)
    ensures
        i64_le(x).len() == 8,
        spec_u64_from_le_bytes(i64_le(x)) as i64 == x,
{
    lemma_auto_spec_u64_to_from_le_bytes();
    let u = x as u64;
    assert(spec_u64_from_le_bytes(spec_u64_to_le_bytes(u)) == u);
    assert((u as i64) == x) by (bit_vector)
        requires
            u == x as u64,
    ;
}

proof fn lemma_bar_le(b: Bar)
    ensures
        bar_le(b).len() == 48,
        bar_at(bar_le(b), 0) == b,
{
    lemma_i64_round_trip(b.ts_unix_nanos);
    lemma_i64_round_trip(b.open_ticks);
    lemma_i64_round_trip(b.high_ticks);
    lemma_i64_round_trip(b.low_ticks);
    lemma_i64_round_trip(b.close_ticks);
    lemma_i64_round_trip(b.volume_lots);
    let s = bar_le(b);
    assert(s.subrange(0, 8) =~= i64_le(b.ts_unix_nanos));
    assert(s.subrange(8, 16) =~= i64_le(b.open_ticks));
    assert(s.subrange(16, 24) =~= i64_le(b.high_ticks));
    assert(s.subrange(24, 32) =~= i64_le(b.low_ticks));
    assert(s.subrange(32, 40) =~= i64_le(b.close_ticks));
    assert(s.subrange(40, 48) =~= i64_le(b.volume_lots));
}

proof fn lemma_bars_le_len(bars: Seq<Bar>)
    ensures
        bars_le(bars).len() == 48 * bars.len(),
    decreases bars.len(),
{
    if bars.len() > 0 {
        lemma_bars_le_len(bars.drop_last());
        lemma_bar_le(bars.last());
    }
}

proof fn lemma_bars_le_index(bars: Seq<Bar>, i: int)
    requires
        0 <= i < bars.len(),
    ensures
        bars_le(bars).subrange(48 * i, 48 * i + 48) == bar_le(bars[i]),
    decreases bars.len(),
{
    lemma_bars_le_len(bars.drop_last());
    lemma_bar_le(bars.last());
    if i == bars.len() - 1 {
        assert(bars_le(bars).subrange(48 * i, 48 * i + 48) =~= bar_le(bars[i]));
    } else {
        lemma_bars_le_index(bars.drop_last(), i);
        assert(bars_le(bars).subrange(48 * i, 48 * i + 48) =~= bars_le(bars.drop_last()).subrange(
            48 * i,
            48 * i + 48,
        ));
    }
}

proof fn lemma_bar_at_offset(p: Seq<u8>, bars: Seq<Bar>, i: int)
    requires
        0 <= i < bars.len(),
    ensures
        bar_at(p + bars_le(bars), p.len() + 48 * i) == bars[i],
{
    let f = p + bars_le(bars);
    let off = p.len() + 48 * i;
    lemma_bars_le_len(bars);
    lemma_bars_le_index(bars, i);
    lemma_bar_le(bars[i]);
    let w = bar_le(bars[i]);
    assert(f.subrange(off, off + 48) =~= w);
    assert(f.subrange(off, off + 8) =~= w.subrange(0, 8));
    assert(f.subrange(off + 8, off + 16) =~= w.subrange(8, 16));
    assert(f.subrange(off + 16, off + 24) =~= w.subrange(16, 24));
    assert(f.subrange(off + 24, off + 32) =~= w.subrange(24, 32));
    assert(f.subrange(off + 32, off + 40) =~= w.subrange(32, 40));
    assert(f.subrange(off + 40, off + 48) =~= w.subrange(40, 48));
}

/// Decoding the bytes written for a non-empty series gives back its tick-size text and its
/// bars, and the text reads back as the same decimal.
pub proof fn law_pbar_round_trip(tick: Dec, bars: Seq<Bar>)
    requires
        bars.len() > 0,
        48 * bars.len() <= u64::MAX,
        encode_utf8(decimal_text(tick.parts())).len() <= u32::MAX,
        decimal_parse(decimal_text(tick.parts())) == Some(tick.parts()),
    ensures
        pbar_decode(pbar_file(encode_utf8(decimal_text(tick.parts())), bars)) == Ok::<
            (Seq<u8>, Seq<Bar>),
            PbarError,
        >((encode_utf8(decimal_text(tick.parts())), bars)),
        decimal_parse(decode_utf8(encode_utf8(decimal_text(tick.parts())))) == Some(tick.parts()),
{
    lemma_auto_spec_u32_to_from_le_bytes();
    lemma_auto_spec_u64_to_from_le_bytes();
    let text = decimal_text(tick.parts());
    let t = encode_utf8(text);
    vstd::utf8::encode_utf8_valid_utf8(text);
    vstd::utf8::encode_utf8_decode_utf8(text);
    let tl = t.len() as int;
    let v = spec_u32_to_le_bytes(1);
    let l = spec_u32_to_le_bytes(tl as u32);
    let c = spec_u64_to_le_bytes(bars.len() as u64);
    let head = magic() + v + l + t + c;
    let f = pbar_file(t, bars);
    assert(f == head + bars_le(bars));
    lemma_bars_le_len(bars);
    assert(head.len() == 20 + tl);
    assert(f.subrange(0, 4) =~= magic());
    assert(f.subrange(4, 8) =~= v);
    assert(f.subrange(8, 12) =~= l);
    assert(spec_u32_from_le_bytes(l) == tl as u32);
    assert(f.subrange(12, 12 + tl) =~= t);
    assert(f.subrange(12 + tl, 20 + tl) =~= c);
    assert(spec_u64_from_le_bytes(c) == bars.len() as u64);
    let decoded = Seq::new(bars.len(), |i: int| bar_at(f, 20 + tl + 48 * i));
    assert forall|i: int| 0 <= i < bars.len() implies decoded[i] == bars[i] by {
        lemma_bar_at_offset(head, bars, i);
    }
    assert(decoded =~= bars);
}

/// The path names a `.pbar` file: its extension is `pbar` in any ASCII case.
pub open spec fn pbar_path(p: Seq<char>) -> bool {
    match path_extension(p) {
        Some(e) => ascii_lower(e) == "pbar"@,
        None => false,
    }
}

/// True when the path looks like a `.pbar` cache file.
pub fn is_pbar_path(path: &str) -> (r: bool)
    ensures
        r == pbar_path(path@),
{
    match path_extension_text(path) {
        Some(e) => {
            let l = lower_seq(&e);
            chars_eq(&l, "pbar")
        },
        None => false,
    }
}
} // verus!
