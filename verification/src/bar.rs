//! OHLC bars stored as fixed-width ticks, and decimal <-> tick conversion.

use crate::decimal::{
    prod_of,
    dec_checked_div, dec_checked_mul, dec_of_exact, dec_round, decimal_checked_product,
    div_in_range, exact_mul, has_value, is_quotient, opt_dec, pow10, quot_of, representable,
    round_half_even, same_value, zero_dec, Dec,
};
use crate::config::InstrumentId;
use crate::error::Error;
use crate::export::OhlcvBar;
use crate::events::{Event, MarketEvent, ReplayEvent};
use vstd::prelude::*;

verus! {

/// One bar in fixed-point ticks.
#[derive(Clone, Copy, Debug, PartialEq, Eq, Structural)]
pub struct Bar {
    pub ts_unix_nanos: i64,
    pub open_ticks: i64,
    pub high_ticks: i64,
    pub low_ticks: i64,
    pub close_ticks: i64,
    pub volume_lots: i64,
}

/// Contiguous bar store with the tick size its values are counted in.
#[derive(Clone, Debug)]
pub struct BarSeries {
    pub bars: Vec<Bar>,
    pub tick_size: Dec,
}

/// Default tick size: 1e-8 quote units per tick.
pub fn default_tick_size() -> (r: Dec)
    ensures
        r.wf(),
        r.mantissa == 1,
        r.scale == 8,
{
    Dec::new(1, 8)
}

/// Ticks for a decimal: the nearest whole number of ticks (ties to even) in the quotient that
/// `rust_decimal` computes, saturated at `i64::MAX` when it does not fit an `i64` (and at the
/// low end too); zero for a zero tick size.
pub open spec fn ticks_of(d: Dec, tick: Dec) -> int {
    if tick.mantissa == 0 {
        0
    } else {
        match quot_of(d, tick) {
            Some(q) => {
                let n = round_half_even(q);
                if i64::MIN <= n <= i64::MAX {
                    n
                } else {
                    i64::MAX as int
                }
            },
            None => 0,
        }
    }
}

/// `d` is exactly `k` ticks of a non-zero tick size.
pub open spec fn is_tick_multiple(d: Dec, tick: Dec, k: i64) -> bool {
    tick.mantissa != 0 && d.mantissa * tick.den() == k * tick.mantissa * d.den()
}

/// Convert a decimal to a whole number of ticks.
pub fn decimal_to_ticks(d: Dec, tick_size: Dec) -> (r: i64)
    requires
        d.wf(),
        tick_size.wf(),
        tick_size.mantissa != 0 ==> div_in_range(d, tick_size),
    ensures
        r == ticks_of(d, tick_size),
        forall|k: i64| #[trigger] is_tick_multiple(d, tick_size, k) ==> r == k,
{
    if tick_size.is_zero() {
        return 0;
    }
    let scaled = match dec_checked_div(d, tick_size) {
        Some(q) => q,
        None => {
            return 0;
        },
    };
    let n = dec_round(scaled);
    let m = n.mantissa;
    proof {
        assert forall|k: i64| #[trigger] is_tick_multiple(d, tick_size, k) implies m == k by {
            lemma_integral_quotient(d, tick_size, k, scaled);
        }
    }
    if m >= i64::MIN as i128 && m <= i64::MAX as i128 {
        m as i64
    } else {
        i64::MAX
    }
}

/// When `d = k * tick`, the quotient `rust_decimal` returns is exactly `k` and rounds to `k`.
proof fn lemma_integral_quotient(d: Dec, tick: Dec, k: i64, q: Dec)
    requires
        d.wf(),
        tick.wf(),
        q.wf(),
        tick.mantissa != 0,
        d.mantissa * tick.den() == k * tick.mantissa * d.den(),
        (exists|w: Dec| w.wf() && #[trigger] is_quotient(w, d, tick)) ==> is_quotient(q, d, tick),
    ensures
        round_half_even(q) == k,
{
    let w = Dec { mantissa: k as i128, scale: 0 };
    assert(w.den() == 1) by {
        reveal_with_fuel(vstd::arithmetic::power::pow, 1);
    }
    assert(w.wf());
    assert(is_quotient(w, d, tick)) by (nonlinear_arith)
        requires
            w.den() == 1,
            w.mantissa == k,
            d.mantissa * tick.den() == k * tick.mantissa * d.den(),
    ;
    assert(is_quotient(q, d, tick));
    vstd::arithmetic::power::lemma_pow_positive(10, q.scale as nat);
    vstd::arithmetic::power::lemma_pow_positive(10, d.scale as nat);
    vstd::arithmetic::power::lemma_pow_positive(10, tick.scale as nat);
    let qm = q.mantissa as int;
    let qd = q.den();
    assert(qm == k * qd) by (nonlinear_arith)
        requires
            qm * tick.mantissa * d.den() == d.mantissa * tick.den() * qd,
            d.mantissa * tick.den() == k * tick.mantissa * d.den(),
            tick.mantissa != 0,
            d.den() > 0,
    ;
    vstd::arithmetic::div_mod::lemma_div_multiples_vanish(k as int, qd);
    vstd::arithmetic::div_mod::lemma_mod_multiples_basic(k as int, qd);
}

/// The decimal `rust_decimal` gives for `t * tick`.
pub open spec fn ticks_dec(t: i64, tick: Dec) -> Dec {
    match opt_dec(decimal_checked_product((t as i128, 0u32), tick.parts())) {
        Some(d) => d,
        None => zero_dec(),
    }
}

/// Decimal value of a tick count: `t * tick_size`.
/// `t * tick_size` as `rust_decimal` multiplies (it rounds the scale down when the exact
/// product does not fit); `None` when the product leaves the decimal range.
pub fn ticks_to_decimal_checked(t: i64, tick_size: Dec) -> (r: Option<Dec>)
    requires
        tick_size.wf(),
    ensures
        r == prod_of(Dec { mantissa: t as i128, scale: 0 }, tick_size),
        r matches Some(d) ==> d == ticks_dec(t, tick_size) && d.wf(),
{
    match dec_checked_mul(Dec::from_i64(t), tick_size) {
        Some(_) => Some(ticks_to_decimal(t, tick_size)),
        None => None,
    }
}

/// Decimal value of a tick count: `t * tick_size`, for every product the decimal range holds.
pub fn ticks_to_decimal(t: i64, tick_size: Dec) -> (r: Dec)
    requires
        tick_size.wf(),
        representable((t * tick_size.mantissa, tick_size.scale as nat)) || prod_of(
            Dec { mantissa: t as i128, scale: 0 },
            tick_size,
        ) is Some,
    ensures
        r.wf(),
        r == ticks_dec(t, tick_size),
        prod_of(Dec { mantissa: t as i128, scale: 0 }, tick_size) == Some(r),
        representable((t * tick_size.mantissa, tick_size.scale as nat)) ==> has_value(
            r,
            (t * tick_size.mantissa, tick_size.scale as nat),
        ),
{
    let td = Dec::from_i64(t);
    assert(exact_mul(td, tick_size) == (t * tick_size.mantissa, tick_size.scale as nat));
    match dec_checked_mul(td, tick_size) {
        Some(r) => {
            proof {
                if representable((t * tick_size.mantissa, tick_size.scale as nat)) {
                    if t != 0 && tick_size.mantissa != 0 {
                        assert(r.mantissa == t * tick_size.mantissa);
                        assert(r.scale == tick_size.scale);
                        assert(r.mantissa * pow10(tick_size.scale as nat) == (t * tick_size.mantissa)
                            * r.den());
                    } else {
                        assert(r.mantissa == 0);
                        assert(t * tick_size.mantissa == 0) by (nonlinear_arith)
                            requires
                                t == 0 || tick_size.mantissa == 0,
                        ;
                        let p = pow10(tick_size.scale as nat);
                        assert(r.mantissa * p == 0) by (nonlinear_arith)
                            requires
                                r.mantissa == 0,
                        ;
                        let v0 = t * tick_size.mantissa;
                        let dn = r.den();
                        assert(v0 * dn == 0) by (nonlinear_arith)
                            requires
                                v0 == 0,
                        ;
                    }
                }
            }
            r
        },
        None => Dec::zero(),
    }
}

/// Converting an exact multiple of the tick to ticks and back gives the same value.
pub proof fn law_ticks_round_trip(d: Dec, tick: Dec, k: i64, back: Dec)
    requires
        d.wf(),
        tick.wf(),
        tick.mantissa != 0,
        d.mantissa * tick.den() == k * tick.mantissa * d.den(),
        has_value(back, (k * tick.mantissa, tick.scale as nat)),
        back.wf(),
    ensures
        same_value(back, d),
{
    vstd::arithmetic::power::lemma_pow_positive(10, tick.scale as nat);
    assert(back.mantissa * tick.den() == k * tick.mantissa * back.den());
    assert(back.mantissa * d.den() == d.mantissa * back.den()) by (nonlinear_arith)
        requires
            back.mantissa * tick.den() == k * tick.mantissa * back.den(),
            d.mantissa * tick.den() == k * tick.mantissa * d.den(),
            tick.den() > 0,
    ;
}

/// The bar an OHLCV row encodes in ticks; the time keeps the low 64 bits of its nanoseconds.
pub open spec fn bar_of_row(row: OhlcvBar, tick: Dec) -> Bar {
    Bar {
        ts_unix_nanos: row.ts as i64,
        open_ticks: ticks_of(row.open, tick) as i64,
        high_ticks: ticks_of(row.high, tick) as i64,
        low_ticks: ticks_of(row.low, tick) as i64,
        close_ticks: ticks_of(row.close, tick) as i64,
        volume_lots: ticks_of(row.volume, tick) as i64,
    }
}

/// Every price and the volume of the row divide by the tick within the decimal range.
pub open spec fn row_encodable(row: OhlcvBar, tick: Dec) -> bool {
    &&& row.open.wf() && row.high.wf() && row.low.wf() && row.close.wf() && row.volume.wf()
    &&& tick.mantissa != 0 ==> {
        &&& div_in_range(row.open, tick)
        &&& div_in_range(row.high, tick)
        &&& div_in_range(row.low, tick)
        &&& div_in_range(row.close, tick)
        &&& div_in_range(row.volume, tick)
    }
}

impl BarSeries {
    /// Build from pre-encoded bars.
    pub fn from_bars(bars: Vec<Bar>, tick_size: Dec) -> (r: BarSeries)
        ensures
            r.bars@ == bars@,
            r.tick_size == tick_size,
    {
        BarSeries { bars, tick_size }
    }

    /// Encode the rows of an OHLCV file (`ts,open,high,low,close,volume`, timestamps already
    /// read) in ticks; a file without rows is refused.
    pub fn from_ohlcv_rows(rows: &Vec<OhlcvBar>, tick_size: Dec) -> (r: Result<BarSeries, Error>)
        requires
            tick_size.wf(),
            forall|k: int| 0 <= k < rows@.len() ==> row_encodable(#[trigger] rows@[k], tick_size),
        ensures
            match r {
                Ok(s) => rows@.len() > 0 && s.tick_size == tick_size && s.bars@.len()
                    == rows@.len() && forall|k: int|
                    0 <= k < rows@.len() ==> #[trigger] s.bars@[k] == bar_of_row(rows@[k], tick_size),
                Err(e) => rows@.len() == 0 && (e matches Error::Invalid(m) && m@ == "empty csv"@),
            },
    {
        if rows.len() == 0 {
            return Err(Error::Invalid("empty csv".to_owned()));
        }
        let mut bars: Vec<Bar> = Vec::new();
        let mut i: usize = 0;
        while i < rows.len()
            invariant
                tick_size.wf(),
                i <= rows@.len(),
                bars@.len() == i,
                forall|k: int| 0 <= k < rows@.len() ==> row_encodable(#[trigger] rows@[k], tick_size),
                forall|k: int| 0 <= k < i ==> #[trigger] bars@[k] == bar_of_row(rows@[k], tick_size),
            decreases rows@.len() - i,
        {
            let row = rows[i];
            assert(row_encodable(rows@[i as int], tick_size));
            let bar = Bar {
                ts_unix_nanos: row.ts as i64,
                open_ticks: decimal_to_ticks(row.open, tick_size),
                high_ticks: decimal_to_ticks(row.high, tick_size),
                low_ticks: decimal_to_ticks(row.low, tick_size),
                close_ticks: decimal_to_ticks(row.close, tick_size),
                volume_lots: decimal_to_ticks(row.volume, tick_size),
            };
            bars.push(bar);
            i = i + 1;
        }
        Ok(BarSeries { bars, tick_size })
    }

    pub fn len(&self) -> (r: usize)
        ensures
            r == self.bars@.len(),
    {
        self.bars.len()
    }

    pub fn is_empty(&self) -> (r: bool)
        ensures
            r == (self.bars@.len() == 0),
    {
        self.bars.len() == 0
    }

    pub fn get(&self, i: usize) -> (r: Option<&Bar>)
        ensures
            i < self.bars@.len() ==> r == Some(&self.bars@[i as int]),
            i >= self.bars@.len() ==> r.is_none(),
    {
        if i < self.bars.len() {
            Some(&self.bars[i])
        } else {
            None
        }
    }

    pub fn tick_size(&self) -> (r: Dec)
        ensures
            r == self.tick_size,
    {
        self.tick_size
    }

    /// Close price of bar `i` as a decimal.
    pub fn close_decimal(&self, i: usize) -> (r: Option<Dec>)
        requires
            self.tick_size.wf(),
            i < self.bars@.len() ==> representable(
                (self.bars@[i as int].close_ticks * self.tick_size.mantissa, self.tick_size.scale as nat),
            ),
        ensures
            i >= self.bars@.len() ==> r.is_none(),
            i < self.bars@.len() ==> (r matches Some(d) && d.wf() && has_value(
                d,
                (self.bars@[i as int].close_ticks * self.tick_size.mantissa, self.tick_size.scale as nat),
            )),
    {
        if i < self.bars.len() {
            Some(ticks_to_decimal(self.bars[i].close_ticks, self.tick_size))
        } else {
            None
        }
    }
}

/// The exact value of `t` ticks of `tick`, as mantissa and scale.
pub open spec fn tick_value(t: i64, tick: Dec) -> (int, nat) {
    (t * tick.mantissa, tick.scale as nat)
}

/// Every field of the bar, times the tick size, fits a decimal.
pub open spec fn bar_fits(b: Bar, tick: Dec) -> bool {
    &&& representable(tick_value(b.open_ticks, tick))
    &&& representable(tick_value(b.high_ticks, tick))
    &&& representable(tick_value(b.low_ticks, tick))
    &&& representable(tick_value(b.close_ticks, tick))
    &&& representable(tick_value(b.volume_lots, tick))
}

impl Bar {
    pub fn open_decimal(&self, tick_size: Dec) -> (r: Dec)
        requires
            tick_size.wf(),
            representable(tick_value(self.open_ticks, tick_size)),
        ensures
            r.wf() && has_value(r, tick_value(self.open_ticks, tick_size)),
            r == ticks_dec(self.open_ticks, tick_size),
    {
        ticks_to_decimal(self.open_ticks, tick_size)
    }

    pub fn high_decimal(&self, tick_size: Dec) -> (r: Dec)
        requires
            tick_size.wf(),
            representable(tick_value(self.high_ticks, tick_size)),
        ensures
            r.wf() && has_value(r, tick_value(self.high_ticks, tick_size)),
            r == ticks_dec(self.high_ticks, tick_size),
    {
        ticks_to_decimal(self.high_ticks, tick_size)
    }

    pub fn low_decimal(&self, tick_size: Dec) -> (r: Dec)
        requires
            tick_size.wf(),
            representable(tick_value(self.low_ticks, tick_size)),
        ensures
            r.wf() && has_value(r, tick_value(self.low_ticks, tick_size)),
            r == ticks_dec(self.low_ticks, tick_size),
    {
        ticks_to_decimal(self.low_ticks, tick_size)
    }

    pub fn close_decimal(&self, tick_size: Dec) -> (r: Dec)
        requires
            tick_size.wf(),
            representable(tick_value(self.close_ticks, tick_size)),
        ensures
            r.wf() && has_value(r, tick_value(self.close_ticks, tick_size)),
            r == ticks_dec(self.close_ticks, tick_size),
    {
        ticks_to_decimal(self.close_ticks, tick_size)
    }

    pub fn volume_decimal(&self, tick_size: Dec) -> (r: Dec)
        requires
            tick_size.wf(),
            representable(tick_value(self.volume_lots, tick_size)),
        ensures
            r.wf() && has_value(r, tick_value(self.volume_lots, tick_size)),
            r == ticks_dec(self.volume_lots, tick_size),
    {
        ticks_to_decimal(self.volume_lots, tick_size)
    }

    /// The bar time in Unix nanoseconds; every `i64` instant lies in the representable years,
    /// so there always is one.
    pub fn timestamp(&self) -> (r: Option<i128>)
        ensures
            r == Some(self.ts_unix_nanos as i128),
    {
        Some(self.ts_unix_nanos as i128)
    }
}

/// The market bar event for `bar` on `inst` at `ts`, its prices and volume the tick values.
pub open spec fn is_bar_event(e: Event, inst: InstrumentId, bar: Bar, tick: Dec, ts: i128) -> bool {
    match e {
        Event::Market(MarketEvent::Bar { instrument, ts: t, open, high, low, close, volume }) => {
            &&& instrument == inst
            &&& t == ts
            &&& open.wf() && has_value(open, tick_value(bar.open_ticks, tick))
            &&& high.wf() && has_value(high, tick_value(bar.high_ticks, tick))
            &&& low.wf() && has_value(low, tick_value(bar.low_ticks, tick))
            &&& close.wf() && has_value(close, tick_value(bar.close_ticks, tick))
            &&& volume.wf() && has_value(volume, tick_value(bar.volume_lots, tick))
        },
        _ => false,
    }
}

/// The market bar event for `bar` on `inst` at `ts`, its prices and volume as `rust_decimal`
/// multiplies them out.
pub open spec fn bar_event(inst: InstrumentId, bar: Bar, tick: Dec, ts: i128) -> Event {
    Event::Market(
        MarketEvent::Bar {
            instrument: inst,
            ts,
            open: ticks_dec(bar.open_ticks, tick),
            high: ticks_dec(bar.high_ticks, tick),
            low: ticks_dec(bar.low_ticks, tick),
            close: ticks_dec(bar.close_ticks, tick),
            volume: ticks_dec(bar.volume_lots, tick),
        },
    )
}

/// Walks a preloaded series by index.
#[derive(Debug)]
pub struct BarSeriesSource {
    pub series: BarSeries,
    pub idx: usize,
    pub instrument: InstrumentId,
}

impl BarSeriesSource {
    /// A source at the first bar of `series`, for `exchange:symbol`.
    pub fn new(series: BarSeries, exchange: &str, symbol: &str) -> (r: BarSeriesSource)
        ensures
            r.series == series,
            r.idx == 0,
            r.instrument.exchange@ == exchange@,
            r.instrument.symbol@ == symbol@,
    {
        BarSeriesSource { series, idx: 0, instrument: InstrumentId::new(exchange, symbol) }
    }

    pub fn tick_size(&self) -> (r: Dec)
        ensures
            r == self.series.tick_size,
    {
        self.series.tick_size
    }

    pub fn instrument_id(&self) -> (r: InstrumentId)
        ensures
            r == self.instrument,
    {
        self.instrument.clone()
    }

    /// The borrowed replay bar for `bar` at `ts`.
    pub fn bar_to_replay_event<'a>(&'a self, bar: &Bar, ts: i128) -> (r: ReplayEvent<'a>)
        requires
            self.series.tick_size.wf(),
            bar_fits(*bar, self.series.tick_size),
        ensures
            is_bar_event(r.to_event_spec(), self.instrument, *bar, self.series.tick_size, ts),
    {
        let tick = self.series.tick_size;
        ReplayEvent::Bar {
            instrument: &self.instrument,
            ts,
            open: bar.open_decimal(tick),
            high: bar.high_decimal(tick),
            low: bar.low_decimal(tick),
            close: bar.close_decimal(tick),
            volume: bar.volume_decimal(tick),
        }
    }

    /// Back to the first bar.
    pub fn rewind(&mut self)
        ensures
            final(self).idx == 0,
            final(self).series == old(self).series,
            final(self).instrument == old(self).instrument,
    {
        self.idx = 0;
    }

    /// The next bar and its time, advancing; `None` past the end.
    pub fn next_bar(&mut self) -> (r: Option<(Bar, i128)>)
        ensures
            final(self).series == old(self).series,
            final(self).instrument == old(self).instrument,
            if old(self).idx < old(self).series.bars@.len() {
                &&& final(self).idx == old(self).idx + 1
                &&& r == Some(
                    (
                        old(self).series.bars@[old(self).idx as int],
                        old(self).series.bars@[old(self).idx as int].ts_unix_nanos as i128,
                    ),
                )
            } else {
                final(self).idx == old(self).idx && r.is_none()
            },
    {
        if self.idx >= self.series.len() {
            return None;
        }
        let bar = self.series.bars[self.idx];
        self.idx = self.idx + 1;
        let ts = match bar.timestamp() {
            Some(t) => t,
            None => {
                return None;
            },
        };
        Some((bar, ts))
    }

    /// The owned market event for `bar` at `ts`.
    pub fn bar_to_event(&self, bar: &Bar, ts: i128) -> (r: Event)
        requires
            self.series.tick_size.wf(),
            bar_fits(*bar, self.series.tick_size),
        ensures
            is_bar_event(r, self.instrument, *bar, self.series.tick_size, ts),
            r == bar_event(self.instrument, *bar, self.series.tick_size, ts),
    {
        let tick = self.series.tick_size;
        Event::Market(
            MarketEvent::Bar {
                instrument: self.instrument_id(),
                ts,
                open: bar.open_decimal(tick),
                high: bar.high_decimal(tick),
                low: bar.low_decimal(tick),
                close: bar.close_decimal(tick),
                volume: bar.volume_decimal(tick),
            },
        )
    }
}

} // verus!
