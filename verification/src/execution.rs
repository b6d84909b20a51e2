//! Fill simulation for backtest replay: local balances and touch / bar fill rules.
//!
//! Decimal arithmetic goes through `rust_decimal`'s checked operations; where an intermediate
//! amount overflows the decimal range the request fails with a `decimal overflow` error.

use crate::config::AssetClass;
use crate::decimal::{
    abs_dec, dec_checked_add, dec_checked_div, dec_checked_mul, dec_checked_sub, dec_floor,
    dec_le, dec_lt, dec_min, dec_of_exact, dec_round, diff_of, div_in_range, exact_add,
    exact_mul, exact_sub, has_value, is_quotient, lemma_checked_add_after,
    lemma_checked_add_scaled, lemma_checked_mul_scaled, lemma_checked_sub_after,
    lemma_checked_sub_scaled, lemma_pair_at_least, lemma_pair_at_most, lemma_pow10_zero,
    lemma_scaled_value, lemma_sign_int_positive_factor, lemma_value_le_trans, min_dec, neg_dec,
    pair_at_least, pair_at_most, pair_minus, pair_plus, pair_times, pow10, prod_of, quot_of,
    representable, round_half_even, same_value, scaled_up_to, sign_int, sign_of, signum_dec,
    sum_of, value_le, value_lt, zero_dec, Dec, MAX_MANTISSA, MAX_SCALE,
};
use crate::error::{execution_rejected, invalid, outcome_is, Error, ErrorKind, Failure};
use crate::events::{
    emit_order_update, update_of, AccountEvent, OrderIntent, RejectionKind, RejectionRecord,
};
use crate::orders::{clone_text, same_text, OpenOrder, OrderStatus, OrderType, Side};
use crate::state::{
    lemma_find_balance, lemma_find_instrument, lemma_find_order, GlobalState, InstrumentMeta,
    InstrumentState,
};
use vstd::prelude::*;

verus! {

/// Crossing rule for resting limit orders.
pub trait FillModel {
    /// Whether a resting limit at `limit` crosses the touch `bid` / `ask`.
    spec fn would_fill(&self, side: Side, limit: Dec, bid: Dec, ask: Dec) -> bool;

    /// Stable label used in diagnostics.
    fn name(&self) -> &'static str;

    /// Whether a resting limit crosses the current touch.
    fn limit_would_fill(&self, side: Side, limit: Dec, bid: Dec, ask: Dec) -> (r: bool)
        requires
            limit.wf(),
            bid.wf(),
            ask.wf(),
        ensures
            r == self.would_fill(side, limit, bid, ask),
    ;
}

/// Fill limits when they cross the current touch: a buy at or above the ask, a sell at or
/// below the bid.
#[derive(Clone, Copy, Debug)]
pub struct TouchCrossFillModel;

impl Default for TouchCrossFillModel {
    fn default() -> (r: Self) {
        TouchCrossFillModel
    }
}

impl FillModel for TouchCrossFillModel {
    open spec fn would_fill(&self, side: Side, limit: Dec, bid: Dec, ask: Dec) -> bool {
        match side {
            Side::Buy => value_le(ask, limit),
            Side::Sell => value_le(limit, bid),
        }
    }

    fn name(&self) -> (r: &'static str)
        ensures
            r@ == "touch_cross"@,
    {
        "touch_cross"
    }

    fn limit_would_fill(&self, side: Side, limit: Dec, bid: Dec, ask: Dec) -> (r: bool) {
        match side {
            Side::Buy => dec_le(ask, limit),
            Side::Sell => dec_le(limit, bid),
        }
    }
}

/// The divisor of basis points.
pub open spec fn bps_divisor() -> Dec {
    Dec { mantissa: 10000, scale: 0 }
}

/// One.
pub open spec fn one_dec() -> Dec {
    Dec { mantissa: 1, scale: 0 }
}

/// `x * bps / 10000`.
pub open spec fn bps_of(x: Dec, bps: Dec) -> Option<Dec> {
    match prod_of(x, bps) {
        Some(p) => quot_of(p, bps_divisor()),
        None => None,
    }
}

/// Dividing by 10 000 never leaves the decimal range.
proof fn lemma_bps_divisor_in_range(p: Dec)
    requires
        p.wf(),
    ensures
        div_in_range(p, bps_divisor()),
{
    vstd::arithmetic::power::lemma_pow_positive(10, p.scale as nat);
    assert(bps_divisor().den() == 1) by {
        reveal_with_fuel(vstd::arithmetic::power::pow, 1);
    }
    let m = crate::decimal::abs(p.mantissa as int);
    let d = p.den();
    assert(m * 1 < (MAX_MANTISSA - 1) * 10000 * d) by (nonlinear_arith)
        requires
            0 <= m <= MAX_MANTISSA,
            d >= 1,
            MAX_MANTISSA > 2,
    ;
}

/// The basis-point adjustment is exact: `v * 10000 == x * bps` as numbers.
pub open spec fn is_bps_of(v: Dec, x: Dec, bps: Dec) -> bool {
    v.mantissa * 10000 * pow10((x.scale + bps.scale) as nat) == x.mantissa * bps.mantissa * v.den()
}

/// `x * bps / 10000`, `None` when the product overflows; exactly that value whenever the
/// product is representable with four fractional digits to spare.
pub fn scale_bps(x: Dec, bps: Dec) -> (r: Option<Dec>)
    requires
        x.wf(),
        bps.wf(),
    ensures
        r == bps_of(x, bps),
        r matches Some(v) ==> v.wf(),
        prod_of(x, bps).is_some() ==> r.is_some(),
        bps.mantissa == 0 ==> r == Some(zero_dec()),
        representable(exact_mul(x, bps)) && x.scale + bps.scale + 4 <= MAX_SCALE ==> (r matches Some(
            v,
        ) && is_bps_of(v, x, bps)),
{
    match dec_checked_mul(x, bps) {
        Some(p) => {
            proof {
                lemma_bps_divisor_in_range(p);
            }
            let r = dec_checked_div(p, Dec::new(10000, 0));
            proof {
                if representable(exact_mul(x, bps)) && x.scale + bps.scale + 4 <= MAX_SCALE {
                    lemma_bps_quotient(x, bps, p, r);
                }
            }
            r
        },
        None => None,
    }
}

/// When `p` is the exact product `x * bps` with four digits of scale to spare, dividing it by
/// 10 000 is exact.
proof fn lemma_bps_quotient(x: Dec, bps: Dec, p: Dec, r: Option<Dec>)
    requires
        x.wf(),
        bps.wf(),
        representable(exact_mul(x, bps)),
        x.scale + bps.scale + 4 <= MAX_SCALE,
        x.mantissa == 0 || bps.mantissa == 0 ==> p == zero_dec(),
        x.mantissa != 0 && bps.mantissa != 0 ==> p == dec_of_exact(exact_mul(x, bps)),
        r is Some,
        r matches Some(v) ==> ((exists|q: Dec| q.wf() && #[trigger] is_quotient(q, p, bps_divisor()))
            ==> is_quotient(v, p, bps_divisor())),
        p.mantissa == 0 ==> r == Some(zero_dec()),
    ensures
        r matches Some(v) && is_bps_of(v, x, bps),
{
    let v = r->Some_0;
    let k = (x.scale + bps.scale) as nat;
    let xm = x.mantissa as int;
    let bm = bps.mantissa as int;
    vstd::arithmetic::power::lemma_pow_positive(10, k);
    assert(bps_divisor().den() == 1) by {
        reveal_with_fuel(vstd::arithmetic::power::pow, 1);
    }
    if xm == 0 || bm == 0 {
        assert(xm * bm == 0) by (nonlinear_arith)
            requires
                xm == 0 || bm == 0,
        ;
        assert(v.mantissa == 0);
        assert(xm * bm * v.den() == 0) by (nonlinear_arith)
            requires
                xm * bm == 0,
        ;
        assert(v.mantissa * 10000 * pow10(k) == 0) by (nonlinear_arith)
            requires
                v.mantissa == 0,
        ;
    } else {
        let q = Dec { mantissa: p.mantissa, scale: (p.scale + 4) as u32 };
        vstd::arithmetic::power::lemma_pow_adds(10, p.scale as nat, 4);
        assert(pow10(4) == 10000) by {
            reveal_with_fuel(vstd::arithmetic::power::pow, 5);
        }
        assert(q.den() == p.den() * 10000);
        assert(q.mantissa * 10000 * p.den() == p.mantissa * 1 * q.den()) by (nonlinear_arith)
            requires
                q.den() == p.den() * 10000,
                q.mantissa == p.mantissa,
        ;
        assert(is_quotient(q, p, bps_divisor()));
        assert(q.wf());
        assert(is_quotient(v, p, bps_divisor()));
        assert(p.den() == pow10(k));
        assert(p.mantissa == xm * bm);
    }
}

/// Fee on a notional: `notional * bps / 10000`, exactly that value whenever the product is
/// representable with four fractional digits to spare.
pub fn fee_notional(notional: Dec, bps: Dec) -> (r: Option<Dec>)
    requires
        notional.wf(),
        bps.wf(),
    ensures
        r == bps_of(notional, bps),
        r matches Some(v) ==> v.wf(),
        prod_of(notional, bps).is_some() ==> r.is_some(),
        bps.mantissa == 0 ==> r == Some(zero_dec()),
        representable(exact_mul(notional, bps)) && notional.scale + bps.scale + 4 <= MAX_SCALE ==> (
        r matches Some(v) && is_bps_of(v, notional, bps)),
{
    scale_bps(notional, bps)
}

/// Market price moved by `bps` basis points against the taker.
pub open spec fn slipped_of(side: Side, mid: Dec, bps: Dec) -> Option<Dec> {
    match bps_of(mid, bps) {
        Some(adj) => match side {
            Side::Buy => sum_of(mid, adj),
            Side::Sell => diff_of(mid, adj),
        },
        None => None,
    }
}

/// Apply market-order slippage of `bps` basis points around `mid`: up for a buy, down for a
/// sell. When the adjustment `mid * bps / 10000` is computed and the sum or difference fits, a
/// buy fills at exactly `mid + adjustment` and a sell at exactly `mid - adjustment`.
pub fn apply_slippage(side: Side, mid: Dec, bps: Dec) -> (r: Option<Dec>)
    requires
        mid.wf(),
        bps.wf(),
    ensures
        r == slipped_of(side, mid, bps),
        r matches Some(v) ==> v.wf(),
        bps.mantissa == 0 ==> (r matches Some(v) && same_value(v, mid)),
        side is Buy && bps_of(mid, bps) is Some && representable(exact_add(mid, bps_of(mid, bps)->Some_0))
            ==> (r matches Some(v) && has_value(v, exact_add(mid, bps_of(mid, bps)->Some_0))),
        side is Sell && bps_of(mid, bps) is Some && representable(exact_sub(mid, bps_of(mid, bps)->Some_0))
            ==> (r matches Some(v) && has_value(v, exact_sub(mid, bps_of(mid, bps)->Some_0))),
{
    let adj = match scale_bps(mid, bps) {
        Some(a) => a,
        None => {
            return None;
        },
    };
    let r = match side {
        Side::Buy => dec_checked_add(mid, adj),
        Side::Sell => dec_checked_sub(mid, adj),
    };
    proof {
        if bps.mantissa == 0 && mid.mantissa == 0 {
            let v = r->0;
            assert(v.mantissa == 0);
            assert(v.mantissa * mid.den() == 0);
            assert(mid.mantissa * v.den() == 0);
        }
        if side is Buy && representable(exact_add(mid, adj)) {
            lemma_checked_add_scaled(mid, adj, r);
            lemma_scaled_value(r->Some_0, exact_add(mid, adj));
        }
        if side is Sell && representable(exact_sub(mid, adj)) {
            lemma_checked_sub_scaled(mid, adj, r);
            lemma_scaled_value(r->Some_0, exact_sub(mid, adj));
        }
    }
    r
}

/// Futures, perpetuals and options trade in contracts with a multiplier.
pub open spec fn is_contract_class(c: AssetClass) -> bool {
    c == AssetClass::Future || c == AssetClass::Perpetual || c == AssetClass::Option
}

/// Futures and perpetuals settle against derivative margin.
pub open spec fn is_margin_class(c: AssetClass) -> bool {
    c == AssetClass::Future || c == AssetClass::Perpetual
}

/// Contract multiplier (one when unset).
pub open spec fn multiplier_of(meta: InstrumentMeta) -> Dec {
    match meta.contract_multiplier {
        Some(m) => m,
        None => one_dec(),
    }
}

/// Notional of `qty` at `price`: `price * qty`, times the contract multiplier for contract
/// instruments.
pub open spec fn notional_of(meta: InstrumentMeta, price: Dec, qty: Dec) -> Option<Dec> {
    match prod_of(price, qty) {
        Some(base) => if is_contract_class(meta.asset_class) {
            prod_of(base, multiplier_of(meta))
        } else {
            Some(base)
        },
        None => None,
    }
}

/// Contract multiplier (one when unset).
pub fn multiplier(meta: &InstrumentMeta) -> (r: Dec)
    requires
        meta.wf(),
    ensures
        r == multiplier_of(*meta),
        r.wf(),
        meta.contract_multiplier matches Some(m) ==> r == m,
        meta.contract_multiplier is None ==> r.mantissa == 1 && r.scale == 0,
{
    match meta.contract_multiplier {
        Some(m) => m,
        None => Dec::one(),
    }
}

/// Whether futures-style contract terms apply.
pub fn is_contract(c: AssetClass) -> (r: bool)
    ensures
        r == is_contract_class(c),
{
    match c {
        AssetClass::Future | AssetClass::Perpetual | AssetClass::Option => true,
        _ => false,
    }
}

/// The notional without rounding, as an exact mantissa/scale pair: `price * qty`, times the
/// contract multiplier for contract instruments.
pub open spec fn exact_notional(meta: InstrumentMeta, price: Dec, qty: Dec) -> (int, nat) {
    if is_contract_class(meta.asset_class) {
        pair_times(exact_mul(price, qty), multiplier_of(meta))
    } else {
        exact_mul(price, qty)
    }
}

/// Every step of the notional fits a decimal, so nothing is rounded.
pub open spec fn notional_fits(meta: InstrumentMeta, price: Dec, qty: Dec) -> bool {
    &&& representable(exact_mul(price, qty))
    &&& representable(exact_notional(meta, price, qty))
}

/// Notional of `qty` at `price` (the tick/lot-exact shortcut of the engine denotes the same
/// value); when nothing is rounded it is exactly `price * qty` (times the multiplier for
/// contracts).
pub fn notional(meta: &InstrumentMeta, price: Dec, qty: Dec) -> (r: Option<Dec>)
    requires
        meta.wf(),
        price.wf(),
        qty.wf(),
    ensures
        r == notional_of(*meta, price, qty),
        r matches Some(v) ==> v.wf(),
        notional_fits(*meta, price, qty) ==> (r matches Some(v) && has_value(
            v,
            exact_notional(*meta, price, qty),
        ) && scaled_up_to(v, exact_notional(*meta, price, qty))),
{
    let ghost pe = (price.mantissa as int, price.scale as nat);
    proof {
        lemma_pow10_zero();
        assert(scaled_up_to(price, pe));
    }
    let base = match dec_checked_mul(price, qty) {
        Some(b) => b,
        None => {
            proof {
                if notional_fits(*meta, price, qty) {
                    lemma_checked_mul_scaled(price, pe, qty, None);
                }
            }
            return None;
        },
    };
    proof {
        if notional_fits(*meta, price, qty) {
            lemma_checked_mul_scaled(price, pe, qty, Some(base));
        }
    }
    if is_contract(meta.asset_class) {
        let r = dec_checked_mul(base, multiplier(meta));
        proof {
            if notional_fits(*meta, price, qty) {
                lemma_checked_mul_scaled(base, exact_mul(price, qty), multiplier_of(*meta), r);
                lemma_scaled_value(r->Some_0, exact_notional(*meta, price, qty));
            }
        }
        r
    } else {
        proof {
            if notional_fits(*meta, price, qty) {
                lemma_scaled_value(base, exact_notional(*meta, price, qty));
            }
        }
        Some(base)
    }
}

/// The integer part rounded down, as a decimal of scale 0.
pub open spec fn floor_dec(a: Dec) -> Dec {
    Dec { mantissa: ((a.mantissa as int) / a.den()) as i128, scale: 0 }
}

/// The nearest integer (ties to even), as a decimal of scale 0.
pub open spec fn round_dec(a: Dec) -> Dec {
    Dec { mantissa: round_half_even(a) as i128, scale: 0 }
}

/// `floor(qty / lot) * lot`; `qty` itself for a zero lot.
pub open spec fn lot_round_of(qty: Dec, lot: Dec) -> Option<Dec> {
    if lot.mantissa == 0 {
        Some(qty)
    } else {
        match quot_of(qty, lot) {
            Some(q) => prod_of(floor_dec(q), lot),
            None => None,
        }
    }
}

/// `round(price / tick) * tick`; `price` itself for a zero tick.
pub open spec fn tick_round_of(price: Dec, tick: Dec) -> Option<Dec> {
    if tick.mantissa == 0 {
        Some(price)
    } else {
        match quot_of(price, tick) {
            Some(q) => prod_of(round_dec(q), tick),
            None => None,
        }
    }
}

/// `k` is the integer part of `q` rounded down: an integer with `k <= q < k + 1`.
pub open spec fn is_floor_of(k: Dec, q: Dec) -> bool {
    &&& k.scale == 0
    &&& k.mantissa * q.den() <= q.mantissa < (k.mantissa + 1) * q.den()
}

/// `k` is an integer nearest to `q`: `|q - k| <= 1/2`.
pub open spec fn is_nearest_integer(k: Dec, q: Dec) -> bool {
    &&& k.scale == 0
    &&& -q.den() <= 2 * (q.mantissa - k.mantissa * q.den()) <= q.den()
}

/// Floor and nearest-integer rounding of a decimal meet their defining bounds.
proof fn lemma_integer_roundings(q: Dec)
    requires
        q.wf(),
    ensures
        is_floor_of(floor_dec(q), q),
        -q.den() <= 2 * (q.mantissa - round_half_even(q) * q.den()) <= q.den(),
{
    let m = q.mantissa as int;
    let d = q.den();
    vstd::arithmetic::power::lemma_pow_positive(10, q.scale as nat);
    vstd::arithmetic::div_mod::lemma_fundamental_div_mod(m, d);
    vstd::arithmetic::div_mod::lemma_mod_bound(m, d);
    let fl = m / d;
    let rem = m % d;
    assert(fl * d <= m < (fl + 1) * d) by (nonlinear_arith)
        requires
            m == d * fl + rem,
            0 <= rem < d,
    ;
    assert(-d <= 2 * (m - round_half_even(q) * d) <= d) by (nonlinear_arith)
        requires
            m == d * fl + rem,
            0 <= rem < d,
            2 * rem < d ==> round_half_even(q) == fl,
            2 * rem > d ==> round_half_even(q) == fl + 1,
            2 * rem == d ==> (round_half_even(q) == fl || round_half_even(q) == fl + 1),
    ;
    let k = floor_dec(q);
    assert(-MAX_MANTISSA <= fl <= MAX_MANTISSA) by (nonlinear_arith)
        requires
            fl * d <= m < (fl + 1) * d,
            d >= 1,
            -MAX_MANTISSA <= m <= MAX_MANTISSA,
    ;
}

/// Round a quantity down to a whole number of lots: with a non-zero lot the result is `k * lot`
/// where `k` is `qty / lot` rounded down to an integer.
pub fn round_qty_to_lot(qty: Dec, lot: Dec) -> (r: Option<Dec>)
    requires
        qty.wf(),
        lot.wf(),
    ensures
        r == lot_round_of(qty, lot),
        r matches Some(v) ==> v.wf(),
        lot.mantissa != 0 && r is Some ==> (quot_of(qty, lot) is Some && exists|k: Dec|
            #[trigger] is_floor_of(k, quot_of(qty, lot)->Some_0) && r == prod_of(k, lot)),
{
    if lot.is_zero() {
        return Some(qty);
    }
    match dec_checked_div(qty, lot) {
        Some(q) => {
            let f = dec_floor(q);
            proof {
                lemma_integer_roundings(q);
                assert(f == floor_dec(q));
            }
            dec_checked_mul(f, lot)
        },
        None => None,
    }
}

/// Round a price to the nearest tick (ties to even): with a non-zero tick the result is
/// `k * tick` where `k` is an integer nearest to `price / tick`.
pub fn round_price_to_tick(price: Dec, tick: Dec) -> (r: Option<Dec>)
    requires
        price.wf(),
        tick.wf(),
    ensures
        r == tick_round_of(price, tick),
        r matches Some(v) ==> v.wf(),
        tick.mantissa != 0 && r is Some ==> (quot_of(price, tick) is Some && exists|k: Dec|
            #[trigger] is_nearest_integer(k, quot_of(price, tick)->Some_0) && r == prod_of(k, tick)),
{
    if tick.is_zero() {
        return Some(price);
    }
    match dec_checked_div(price, tick) {
        Some(q) => {
            let n = dec_round(q);
            proof {
                lemma_integer_roundings(q);
                assert(n == round_dec(q));
                assert(is_nearest_integer(n, q));
            }
            dec_checked_mul(n, tick)
        },
        None => None,
    }
}

/// The failure reported when an amount leaves the decimal range.
pub open spec fn overflow_failure() -> Failure {
    (ErrorKind::Invalid, "decimal overflow"@)
}

/// A price rounded to the instrument's tick, when there is a price: `None` on overflow.
pub open spec fn tick_opt_of(meta: InstrumentMeta, p: Option<Dec>) -> Option<Option<Dec>> {
    match p {
        None => Some(None),
        Some(x) => match meta.tick_size {
            Some(t) => match tick_round_of(x, t) {
                Some(y) => Some(Some(y)),
                None => None,
            },
            None => Some(Some(x)),
        },
    }
}

/// Quantity rounded to the lot, and prices rounded to the tick.
pub open spec fn normalize_of(
    meta: InstrumentMeta,
    qty: Dec,
    price: Option<Dec>,
    stop_price: Option<Dec>,
) -> Result<(Dec, Option<Dec>, Option<Dec>), Failure> {
    let q = match meta.lot_size {
        Some(lot) => lot_round_of(qty, lot),
        None => Some(qty),
    };
    match q {
        None => Err(overflow_failure()),
        Some(q) => if q.mantissa == 0 {
            Err((ErrorKind::Invalid, "quantity below lot_size"@))
        } else {
            match (tick_opt_of(meta, price), tick_opt_of(meta, stop_price)) {
                (Some(p), Some(sp)) => Ok((q, p, sp)),
                _ => Err(overflow_failure()),
            }
        },
    }
}

/// A price rounded to the instrument's tick, when there is a price.
fn round_opt_price(meta: &InstrumentMeta, p: Option<Dec>) -> (r: Option<Option<Dec>>)
    requires
        meta.wf(),
        crate::orders::opt_wf(p),
    ensures
        r == tick_opt_of(*meta, p),
        r matches Some(Some(v)) ==> v.wf(),
{
    match p {
        None => Some(None),
        Some(x) => match meta.tick_size {
            Some(t) => match round_price_to_tick(x, t) {
                Some(y) => Some(Some(y)),
                None => None,
            },
            None => Some(Some(x)),
        },
    }
}

/// Round the quantity to the lot and the prices to the tick; a quantity that rounds to zero
/// is refused.
pub fn normalize_order(
    meta: &InstrumentMeta,
    qty: Dec,
    price: Option<Dec>,
    stop_price: Option<Dec>,
) -> (r: Result<(Dec, Option<Dec>, Option<Dec>), Error>)
    requires
        meta.wf(),
        qty.wf(),
        crate::orders::opt_wf(price),
        crate::orders::opt_wf(stop_price),
    ensures
        outcome_is(r, normalize_of(*meta, qty, price, stop_price)),
        r matches Ok((q, p, sp)) ==> q.wf() && crate::orders::opt_wf(p) && crate::orders::opt_wf(
            sp,
        ),
{
    let q = match meta.lot_size {
        Some(lot) => round_qty_to_lot(qty, lot),
        None => Some(qty),
    };
    let q = match q {
        Some(v) => v,
        None => {
            return Err(invalid("decimal overflow"));
        },
    };
    if q.is_zero() {
        return Err(invalid("quantity below lot_size"));
    }
    let p = round_opt_price(meta, price);
    let sp = round_opt_price(meta, stop_price);
    match (p, sp) {
        (Some(p), Some(sp)) => Ok((q, p, sp)),
        _ => Err(invalid("decimal overflow")),
    }
}

/// `o * b` when `o` is a value.
pub open spec fn then_mul(o: Option<Dec>, b: Dec) -> Option<Dec> {
    match o {
        Some(a) => prod_of(a, b),
        None => None,
    }
}

/// Signed quantity of a fill: positive for a buy, negative for a sell.
pub open spec fn signed_qty_of(side: Side, qty: Dec) -> Dec {
    match side {
        Side::Buy => qty,
        Side::Sell => neg_dec(qty),
    }
}

/// Signed quantity of a fill: positive for a buy, negative for a sell.
pub fn signed_qty(side: Side, qty: Dec) -> (r: Dec)
    requires
        qty.wf(),
    ensures
        r == signed_qty_of(side, qty),
        r.wf(),
{
    match side {
        Side::Buy => qty,
        Side::Sell => qty.neg(),
    }
}

/// A buy adds its quantity to the position and a sell takes it away: the signed quantity of a
/// buy is the quantity itself, that of a sell its negation, so their signs are opposite.
pub proof fn law_signed_qty_direction(qty: Dec)
    requires
        qty.wf(),
    ensures
        signed_qty_of(Side::Buy, qty) == qty,
        signed_qty_of(Side::Sell, qty).mantissa == -qty.mantissa,
        signed_qty_of(Side::Sell, qty).scale == qty.scale,
        qty.mantissa > 0 ==> sign_of(signed_qty_of(Side::Buy, qty)) == 1 && sign_of(
            signed_qty_of(Side::Sell, qty),
        ) == -1,
{
}

/// Profit realized when a fill reduces a derivative position: for the closed part,
/// `(price - entry) * sign(position) * closed * multiplier`; zero when the fill adds to the
/// position or there is none.
pub open spec fn realized_pnl_of(entry: InstrumentState, side: Side, price: Dec, qty: Dec) -> Option<
    Dec,
> {
    let current = entry.position;
    let delta = signed_qty_of(side, qty);
    if current.mantissa == 0 || sign_of(current) == sign_of(delta) {
        Some(zero_dec())
    } else {
        let close_qty = min_dec(abs_dec(current), qty);
        let entry_px = match entry.average_entry_price {
            Some(p) => p,
            None => price,
        };
        then_mul(
            then_mul(then_mul(diff_of(price, entry_px), signum_dec(current)), close_qty),
            multiplier_of(entry.meta),
        )
    }
}

/// The entry price a closing fill is measured against: the average entry price, or the fill
/// price itself when none is recorded.
pub open spec fn closing_entry_price(entry: InstrumentState, price: Dec) -> Dec {
    match entry.average_entry_price {
        Some(p) => p,
        None => price,
    }
}

/// The fill trades against an open position (a sell on a long, a buy on a short).
pub open spec fn reduces_position(entry: InstrumentState, side: Side, qty: Dec) -> bool {
    &&& entry.position.mantissa != 0
    &&& sign_of(entry.position) != sign_of(signed_qty_of(side, qty))
}

/// The part of the position a fill closes: the smaller of the position's size and the fill.
pub open spec fn closed_qty_of(entry: InstrumentState, qty: Dec) -> Dec {
    min_dec(abs_dec(entry.position), qty)
}

/// The price move of a closing fill, `price - entry`, as an exact mantissa/scale pair.
pub open spec fn exact_price_move(entry: InstrumentState, price: Dec) -> (int, nat) {
    exact_sub(price, closing_entry_price(entry, price))
}

/// The exact move times the position's sign and the closed quantity.
pub open spec fn exact_move_on_closed(entry: InstrumentState, price: Dec, qty: Dec) -> (int, nat) {
    pair_times(
        pair_times(exact_price_move(entry, price), signum_dec(entry.position)),
        closed_qty_of(entry, qty),
    )
}

/// The profit of a closing fill without rounding,
/// `(price - entry) * sign(position) * closed * multiplier`, as an exact mantissa/scale pair.
pub open spec fn exact_realized_pnl(entry: InstrumentState, price: Dec, qty: Dec) -> (int, nat) {
    pair_times(exact_move_on_closed(entry, price, qty), multiplier_of(entry.meta))
}

/// Every step of that product fits a decimal, so nothing is rounded.
pub open spec fn realized_pnl_fits(entry: InstrumentState, price: Dec, qty: Dec) -> bool {
    &&& representable(exact_price_move(entry, price))
    &&& representable(exact_move_on_closed(entry, price, qty))
    &&& representable(exact_realized_pnl(entry, price, qty))
}

/// Scaling a move by a sign and two positive factors: the result's sign is the move's sign
/// times that sign.
proof fn lemma_sign_of_scaled_move(d: int, s: int, c: int, m: int)
    requires
        s == 1 || s == -1,
        c > 0,
        m > 0,
    ensures
        sign_int(d * s * c * m) == sign_int(d) * s,
{
    assert(c * m > 0) by (nonlinear_arith)
        requires
            c > 0,
            m > 0,
    ;
    assert(d * s * c * m == (d * s) * (c * m)) by (nonlinear_arith);
    lemma_sign_int_positive_factor(d * s, c * m);
    if s == 1 {
        assert(d * s == d) by (nonlinear_arith)
            requires
                s == 1,
        ;
    } else {
        assert(d * s == -d) by (nonlinear_arith)
            requires
                s == -1,
        ;
    }
}

/// Profit realized when a fill reduces a derivative position.
///
/// When nothing has to be rounded, the profit of a closing fill is exactly
/// `(price - entry) * sign(position) * closed * multiplier`; for a positive fill and multiplier
/// its sign is that of `price - entry` times that of the position, so closing a long above its
/// entry (or a short below it) books a gain and the other way round a loss.
pub fn realized_derivative_pnl(entry: &InstrumentState, side: Side, price: Dec, qty: Dec) -> (r:
    Option<Dec>)
    requires
        entry.wf(),
        price.wf(),
        qty.wf(),
    ensures
        r == realized_pnl_of(*entry, side, price, qty),
        r matches Some(v) ==> v.wf(),
        reduces_position(*entry, side, qty) && realized_pnl_fits(*entry, price, qty) ==> (r matches Some(v)
            && has_value(v, exact_realized_pnl(*entry, price, qty))),
        reduces_position(*entry, side, qty) && realized_pnl_fits(*entry, price, qty) && qty.mantissa > 0
            && multiplier_of(entry.meta).mantissa > 0 ==> (r matches Some(v) && sign_of(v) == sign_int(
            exact_price_move(*entry, price).0,
        ) * sign_of(entry.position)),
{
    let current = entry.position;
    let delta = signed_qty(side, qty);
    if current.is_zero() || current.sign() == delta.sign() {
        return Some(Dec::zero());
    }
    let ghost exact = reduces_position(*entry, side, qty) && realized_pnl_fits(*entry, price, qty);
    let close_qty = dec_min(current.abs(), qty);
    let entry_px = match entry.average_entry_price {
        Some(p) => p,
        None => price,
    };
    let ghost de = exact_price_move(*entry, price);
    let d = match dec_checked_sub(price, entry_px) {
        Some(v) => v,
        None => {
            return None;
        },
    };
    proof {
        if exact {
            lemma_checked_sub_scaled(price, entry_px, Some(d));
        }
    }
    let ghost sg = signum_dec(current);
    let ghost xe = pair_times(de, sg);
    proof {
        if exact {
            assert(-1 <= sg.mantissa <= 1);
            assert(-MAX_MANTISSA <= xe.0 <= MAX_MANTISSA) by (nonlinear_arith)
                requires
                    xe.0 == de.0 * sg.mantissa,
                    -1 <= sg.mantissa <= 1,
                    -MAX_MANTISSA <= de.0 <= MAX_MANTISSA,
            ;
        }
    }
    let x = match dec_checked_mul(d, current.signum()) {
        Some(v) => v,
        None => {
            proof {
                if exact {
                    lemma_checked_mul_scaled(d, de, sg, None);
                }
            }
            return None;
        },
    };
    proof {
        if exact {
            lemma_checked_mul_scaled(d, de, sg, Some(x));
        }
    }
    let ghost ye = pair_times(xe, close_qty);
    let y = match dec_checked_mul(x, close_qty) {
        Some(v) => v,
        None => {
            proof {
                if exact {
                    lemma_checked_mul_scaled(x, xe, close_qty, None);
                }
            }
            return None;
        },
    };
    proof {
        if exact {
            lemma_checked_mul_scaled(x, xe, close_qty, Some(y));
        }
    }
    let m = multiplier(&entry.meta);
    let r = dec_checked_mul(y, m);
    proof {
        if exact {
            lemma_checked_mul_scaled(y, ye, m, r);
            let v = r->Some_0;
            lemma_scaled_value(v, pair_times(ye, m));
            if qty.mantissa > 0 && m.mantissa > 0 {
                assert(close_qty.mantissa > 0);
                assert(sg.mantissa == 1 || sg.mantissa == -1);
                assert(pair_times(ye, m).0 == de.0 * sg.mantissa * close_qty.mantissa * m.mantissa);
                lemma_sign_of_scaled_move(
                    de.0,
                    sg.mantissa as int,
                    close_qty.mantissa as int,
                    m.mantissa as int,
                );
            }
        }
    }
    r
}

/// Quote paid (positive, buy) or received (negative, sell) for a fill.
pub open spec fn cash_flow_of(meta: InstrumentMeta, side: Side, price: Dec, qty: Dec) -> Option<Dec> {
    match notional_of(meta, price, qty) {
        Some(n) => match side {
            Side::Buy => Some(n),
            Side::Sell => Some(neg_dec(n)),
        },
        None => None,
    }
}

/// The quote that changes hands for a notional `e`: paid (`e` itself) on a buy, received (`-e`)
/// on a sell.
pub open spec fn paid_for(side: Side, e: (int, nat)) -> (int, nat) {
    match side {
        Side::Buy => e,
        Side::Sell => (-e.0, e.1),
    }
}

/// Quote paid (positive, buy) or received (negative, sell) for a fill; when nothing is rounded
/// it is exactly the notional on a buy and the negated notional on a sell.
pub fn quote_cash_flow(meta: &InstrumentMeta, side: Side, price: Dec, qty: Dec) -> (r: Option<Dec>)
    requires
        meta.wf(),
        price.wf(),
        qty.wf(),
    ensures
        r == cash_flow_of(*meta, side, price, qty),
        r matches Some(v) ==> v.wf(),
        notional_fits(*meta, price, qty) ==> (r matches Some(v) && has_value(
            v,
            paid_for(side, exact_notional(*meta, price, qty)),
        ) && scaled_up_to(v, paid_for(side, exact_notional(*meta, price, qty)))),
{
    match notional(meta, price, qty) {
        Some(n) => match side {
            Side::Buy => Some(n),
            Side::Sell => {
                let c = n.neg();
                proof {
                    if notional_fits(*meta, price, qty) {
                        let e = exact_notional(*meta, price, qty);
                        let k = pow10(e.1);
                        let dn = n.den();
                        assert((-n.mantissa) * k == -(e.0) * dn) by (nonlinear_arith)
                            requires
                                n.mantissa * k == e.0 * dn,
                        ;
                        let p = pow10((e.1 - n.scale) as nat);
                        assert(-(e.0) == (-n.mantissa) * p) by (nonlinear_arith)
                            requires
                                e.0 == n.mantissa * p,
                        ;
                    }
                }
                Some(c)
            },
        },
        None => None,
    }
}

/// Whether the instrument settles against derivative margin (futures and perpetuals).
pub fn uses_derivative_margin(meta: &InstrumentMeta) -> (r: bool)
    ensures
        r == is_margin_class(meta.asset_class),
{
    match meta.asset_class {
        AssetClass::Future | AssetClass::Perpetual => true,
        _ => false,
    }
}

/// Initial margin of a derivative position: `price * |position| * multiplier * rate`, with the
/// instrument's initial-margin rate (one when unset).
pub open spec fn margin_required_of(meta: InstrumentMeta, price: Dec, position: Dec) -> Option<Dec> {
    let rate = match meta.margin_initial_rate {
        Some(r) => r,
        None => one_dec(),
    };
    then_mul(then_mul(prod_of(price, abs_dec(position)), multiplier_of(meta)), rate)
}

/// The initial-margin rate of an instrument: the configured one, else one.
pub open spec fn margin_rate_of(meta: InstrumentMeta) -> Dec {
    match meta.margin_initial_rate {
        Some(r) => r,
        None => one_dec(),
    }
}

/// The initial margin without rounding, `price * |position| * multiplier * rate`, as an exact
/// mantissa/scale pair.
pub open spec fn exact_margin(meta: InstrumentMeta, price: Dec, position: Dec) -> (int, nat) {
    pair_times(pair_times(exact_mul(price, abs_dec(position)), multiplier_of(meta)), margin_rate_of(meta))
}

/// Every step of the margin product fits a decimal, so nothing is rounded.
pub open spec fn margin_fits(meta: InstrumentMeta, price: Dec, position: Dec) -> bool {
    &&& representable(exact_mul(price, abs_dec(position)))
    &&& representable(pair_times(exact_mul(price, abs_dec(position)), multiplier_of(meta)))
    &&& representable(exact_margin(meta, price, position))
}

/// Initial margin of a derivative position; when nothing is rounded it is exactly
/// `price * |position| * multiplier * rate`.
pub fn margin_required(meta: &InstrumentMeta, price: Dec, position: Dec) -> (r: Option<Dec>)
    requires
        meta.wf(),
        price.wf(),
        position.wf(),
    ensures
        r == margin_required_of(*meta, price, position),
        r matches Some(v) ==> v.wf(),
        margin_fits(*meta, price, position) ==> (r matches Some(v) && has_value(
            v,
            exact_margin(*meta, price, position),
        )),
{
    let rate = match meta.margin_initial_rate {
        Some(r) => r,
        None => Dec::one(),
    };
    let ghost fits = margin_fits(*meta, price, position);
    let ghost pe = (price.mantissa as int, price.scale as nat);
    let ghost ae = exact_mul(price, abs_dec(position));
    let ghost be = pair_times(ae, multiplier_of(*meta));
    proof {
        lemma_pow10_zero();
    }
    let a = match dec_checked_mul(price, position.abs()) {
        Some(v) => v,
        None => {
            proof {
                if fits {
                    lemma_checked_mul_scaled(price, pe, abs_dec(position), None);
                }
            }
            return None;
        },
    };
    proof {
        if fits {
            lemma_checked_mul_scaled(price, pe, abs_dec(position), Some(a));
        }
    }
    let b = match dec_checked_mul(a, multiplier(meta)) {
        Some(v) => v,
        None => {
            proof {
                if fits {
                    lemma_checked_mul_scaled(a, ae, multiplier_of(*meta), None);
                }
            }
            return None;
        },
    };
    proof {
        if fits {
            lemma_checked_mul_scaled(a, ae, multiplier_of(*meta), Some(b));
        }
    }
    let r = dec_checked_mul(b, rate);
    proof {
        if fits {
            lemma_checked_mul_scaled(b, be, rate, r);
            lemma_scaled_value(r->Some_0, exact_margin(*meta, price, position));
        }
    }
    r
}

/// Whether a reducing or flipping fill opens new exposure.
pub open spec fn opens_exposure(current: Dec, delta: Dec, projected: Dec) -> bool {
    current.mantissa == 0 || sign_of(current) == sign_of(delta) || (projected.mantissa != 0
        && sign_of(projected) != sign_of(current))
}

/// A fill opens new exposure exactly when it adds to the position: when there is no position,
/// when it trades in the position's direction, or when it flips the position to the other side.
/// A fill that only reduces a position, or closes it exactly, opens none.
pub proof fn law_exposure_opens_only_when_adding(current: Dec, delta: Dec, projected: Dec)
    ensures
        current.mantissa == 0 ==> opens_exposure(current, delta, projected),
        current.mantissa != 0 && sign_of(delta) == sign_of(current) ==> opens_exposure(
            current,
            delta,
            projected,
        ),
        current.mantissa != 0 && sign_of(delta) != sign_of(current) && (projected.mantissa == 0
            || sign_of(projected) == sign_of(current)) ==> !opens_exposure(current, delta, projected),
        current.mantissa != 0 && projected.mantissa != 0 && sign_of(projected) == -sign_of(current)
            ==> opens_exposure(current, delta, projected),
{
}

/// Funds check for a fill of `qty` at `price` paying `fee`.
///
/// Spot: a buy needs quote for the notional and the fee, a sell needs the base quantity.
/// Futures and perpetuals: the quote balance plus the profit realized by the fill must cover
/// the fee, and, when the fill opens exposure on an instrument with an initial-margin rate,
/// the margin of the projected position as well.
pub open spec fn check_balance_of(
    state: GlobalState,
    entry: InstrumentState,
    side: Side,
    price: Dec,
    qty: Dec,
    fee: Dec,
) -> Result<(), Failure> {
    let meta = entry.meta;
    let base_free = state.free(meta.base@);
    let quote_free = state.free(meta.quote@);
    if is_margin_class(meta.asset_class) {
        let current = entry.position;
        let delta = signed_qty_of(side, qty);
        match sum_of(current, delta) {
            None => Err(overflow_failure()),
            Some(projected) => match realized_pnl_of(entry, side, price, qty) {
                None => Err(overflow_failure()),
                Some(realized) => match sum_of(quote_free, realized) {
                    None => Err(overflow_failure()),
                    Some(available) => if meta.margin_initial_rate.is_none() || !opens_exposure(
                        current,
                        delta,
                        projected,
                    ) {
                        if value_le(fee, available) {
                            Ok(())
                        } else {
                            Err((ErrorKind::ExecutionRejected, "insufficient quote balance for fee"@))
                        }
                    } else {
                        match then_sum(margin_required_of(meta, price, projected), fee) {
                            None => Err(overflow_failure()),
                            Some(need) => if value_le(need, available) {
                                Ok(())
                            } else {
                                Err((ErrorKind::ExecutionRejected, "insufficient derivative margin"@))
                            },
                        }
                    },
                },
            },
        }
    } else {
        match cash_flow_of(meta, side, price, qty) {
            None => Err(overflow_failure()),
            Some(cash) => match side {
                Side::Buy => match sum_of(cash, fee) {
                    None => Err(overflow_failure()),
                    Some(need) => if value_lt(quote_free, need) {
                        Err((ErrorKind::ExecutionRejected, "insufficient quote balance"@))
                    } else {
                        Ok(())
                    },
                },
                Side::Sell => if value_lt(base_free, qty) {
                    Err((ErrorKind::ExecutionRejected, "insufficient base balance"@))
                } else {
                    Ok(())
                },
            },
        }
    }
}

/// The spot funds check: a sell goes through exactly when the free base covers the quantity,
/// and is otherwise refused for insufficient base; a buy goes through exactly when the free
/// quote covers the cash it pays plus the fee, and is otherwise refused for insufficient quote.
pub proof fn law_spot_funds_check(
    state: GlobalState,
    entry: InstrumentState,
    price: Dec,
    qty: Dec,
    fee: Dec,
    cash: Dec,
    need: Dec,
)
    requires
        !is_margin_class(entry.meta.asset_class),
        cash_flow_of(entry.meta, Side::Buy, price, qty) == Some(cash),
        sum_of(cash, fee) == Some(need),
    ensures
        check_balance_of(state, entry, Side::Sell, price, qty, fee) is Ok <==> value_le(
            qty,
            state.free(entry.meta.base@),
        ),
        check_balance_of(state, entry, Side::Sell, price, qty, fee) is Err ==> check_balance_of(
            state,
            entry,
            Side::Sell,
            price,
            qty,
            fee,
        ) == Err::<(), Failure>((ErrorKind::ExecutionRejected, "insufficient base balance"@)),
        check_balance_of(state, entry, Side::Buy, price, qty, fee) is Ok <==> value_le(
            need,
            state.free(entry.meta.quote@),
        ),
        check_balance_of(state, entry, Side::Buy, price, qty, fee) is Err ==> check_balance_of(
            state,
            entry,
            Side::Buy,
            price,
            qty,
            fee,
        ) == Err::<(), Failure>((ErrorKind::ExecutionRejected, "insufficient quote balance"@)),
{
    assert(cash_flow_of(entry.meta, Side::Sell, price, qty) is Some);
}

/// The futures and perpetual funds check when the fill opens no new exposure (or no margin
/// rate is set): it goes through exactly when free quote plus the realized profit covers the
/// fee.
pub proof fn law_margin_fee_check(
    state: GlobalState,
    entry: InstrumentState,
    side: Side,
    price: Dec,
    qty: Dec,
    fee: Dec,
    projected: Dec,
    realized: Dec,
    available: Dec,
)
    requires
        is_margin_class(entry.meta.asset_class),
        sum_of(entry.position, signed_qty_of(side, qty)) == Some(projected),
        realized_pnl_of(entry, side, price, qty) == Some(realized),
        sum_of(state.free(entry.meta.quote@), realized) == Some(available),
        entry.meta.margin_initial_rate is None || !opens_exposure(
            entry.position,
            signed_qty_of(side, qty),
            projected,
        ),
    ensures
        check_balance_of(state, entry, side, price, qty, fee) is Ok <==> value_le(fee, available),
        check_balance_of(state, entry, side, price, qty, fee) is Err ==> check_balance_of(
            state,
            entry,
            side,
            price,
            qty,
            fee,
        ) == Err::<(), Failure>((ErrorKind::ExecutionRejected, "insufficient quote balance for fee"@)),
{
}

/// `o + b` when `o` is a value.
pub open spec fn then_sum(o: Option<Dec>, b: Dec) -> Option<Dec> {
    match o {
        Some(a) => sum_of(a, b),
        None => None,
    }
}

/// Balances are well formed, so every free balance is.
proof fn lemma_free_wf(state: GlobalState, asset: Seq<char>)
    requires
        state.wf(),
    ensures
        state.free(asset).wf(),
{
    lemma_find_balance(state.balances@, asset, 0);
}

/// Funds check for a fill of `qty` at `price` paying `fee`.
pub fn check_balance_for_fill(
    state: &GlobalState,
    entry: &InstrumentState,
    side: Side,
    price: Dec,
    qty: Dec,
    fee: Dec,
) -> (r: Result<(), Error>)
    requires
        state.wf(),
        entry.wf(),
        price.wf(),
        qty.wf(),
        fee.wf(),
    ensures
        outcome_is(r, check_balance_of(*state, *entry, side, price, qty, fee)),
        !is_margin_class(entry.meta.asset_class) && side is Buy && notional_fits(
            entry.meta,
            price,
            qty,
        ) && representable(pair_plus(exact_notional(entry.meta, price, qty), fee)) ==> (r is Ok
            <==> pair_at_most(
            pair_plus(exact_notional(entry.meta, price, qty), fee),
            state.free(entry.meta.quote@),
        )),
        is_margin_class(entry.meta.asset_class) && sum_of(entry.position, signed_qty_of(side, qty))
            is Some && realized_pnl_of(*entry, side, price, qty) is Some && representable(
            exact_add(
                state.free(entry.meta.quote@),
                realized_pnl_of(*entry, side, price, qty)->Some_0,
            ),
        ) && (entry.meta.margin_initial_rate is None || !opens_exposure(
            entry.position,
            signed_qty_of(side, qty),
            sum_of(entry.position, signed_qty_of(side, qty))->Some_0,
        )) ==> (r is Ok <==> pair_at_least(
            exact_add(
                state.free(entry.meta.quote@),
                realized_pnl_of(*entry, side, price, qty)->Some_0,
            ),
            fee,
        )),
{
    let meta = &entry.meta;
    let base_free = state.free_balance(&meta.base);
    let quote_free = state.free_balance(&meta.quote);
    proof {
        lemma_free_wf(*state, meta.base@);
        lemma_free_wf(*state, meta.quote@);
    }
    if uses_derivative_margin(meta) {
        let current = entry.position;
        let delta = signed_qty(side, qty);
        let projected = match dec_checked_add(current, delta) {
            Some(v) => v,
            None => {
                return Err(invalid("decimal overflow"));
            },
        };
        let realized = match realized_derivative_pnl(entry, side, price, qty) {
            Some(v) => v,
            None => {
                return Err(invalid("decimal overflow"));
            },
        };
        let available = match dec_checked_add(quote_free, realized) {
            Some(v) => v,
            None => {
                proof {
                    if representable(exact_add(quote_free, realized)) {
                        lemma_checked_add_scaled(quote_free, realized, None);
                    }
                }
                return Err(invalid("decimal overflow"));
            },
        };
        proof {
            if representable(exact_add(quote_free, realized)) {
                lemma_checked_add_scaled(quote_free, realized, Some(available));
                lemma_scaled_value(available, exact_add(quote_free, realized));
                lemma_pair_at_least(available, exact_add(quote_free, realized), fee);
            }
        }
        let opens = current.is_zero() || current.sign() == delta.sign() || (!projected.is_zero()
            && projected.sign() != current.sign());
        if meta.margin_initial_rate.is_none() || !opens {
            if dec_le(fee, available) {
                return Ok(());
            } else {
                return Err(execution_rejected("insufficient quote balance for fee"));
            }
        }
        let required = match margin_required(meta, price, projected) {
            Some(v) => v,
            None => {
                return Err(invalid("decimal overflow"));
            },
        };
        let need = match dec_checked_add(required, fee) {
            Some(v) => v,
            None => {
                return Err(invalid("decimal overflow"));
            },
        };
        if dec_le(need, available) {
            Ok(())
        } else {
            Err(execution_rejected("insufficient derivative margin"))
        }
    } else {
        let cash = match quote_cash_flow(meta, side, price, qty) {
            Some(v) => v,
            None => {
                return Err(invalid("decimal overflow"));
            },
        };
        match side {
            Side::Buy => {
                let ghost exact = notional_fits(entry.meta, price, qty) && representable(
                    pair_plus(exact_notional(entry.meta, price, qty), fee),
                );
                let need = match dec_checked_add(cash, fee) {
                    Some(v) => v,
                    None => {
                        proof {
                            if exact {
                                lemma_checked_add_after(
                                    cash,
                                    exact_notional(entry.meta, price, qty),
                                    fee,
                                    None,
                                );
                            }
                        }
                        return Err(invalid("decimal overflow"));
                    },
                };
                proof {
                    if exact {
                        let e = pair_plus(exact_notional(entry.meta, price, qty), fee);
                        lemma_checked_add_after(cash, exact_notional(entry.meta, price, qty), fee, Some(need));
                        lemma_scaled_value(need, e);
                        lemma_pair_at_most(need, e, quote_free);
                    }
                }
                if dec_lt(quote_free, need) {
                    Err(execution_rejected("insufficient quote balance"))
                } else {
                    Ok(())
                }
            },
            Side::Sell => {
                if dec_lt(base_free, qty) {
                    Err(execution_rejected("insufficient base balance"))
                } else {
                    Ok(())
                }
            },
        }
    }
}

/// Paper trading configuration.
#[derive(Debug)]
pub struct PaperConfig<M> {
    /// Taker fee in basis points.
    pub fee_bps: Dec,
    /// Market order slippage in basis points applied to the reference price.
    pub market_slippage_bps: Dec,
    /// Limit crossing model.
    pub fill_model: M,
}

impl<M> PaperConfig<M> {
    pub open spec fn wf(self) -> bool {
        self.fee_bps.wf() && self.market_slippage_bps.wf()
    }
}

impl Default for PaperConfig<TouchCrossFillModel> {
    /// 10 bps fee, 5 bps slippage, touch-cross limits.
    fn default() -> (r: Self)
        ensures
            r.fee_bps == (Dec { mantissa: 10, scale: 0 }),
            r.market_slippage_bps == (Dec { mantissa: 5, scale: 0 }),
            r.wf(),
    {
        PaperConfig {
            fee_bps: Dec::new(10, 0),
            market_slippage_bps: Dec::new(5, 0),
            fill_model: TouchCrossFillModel,
        }
    }
}

/// Fill engine for backtest and simulation gateways.
#[derive(Debug)]
pub struct FillEngine<M> {
    pub cfg: PaperConfig<M>,
}

/// The notice of a fill of `o` at `px` for `qty`, paying `fee` in the quote asset.
pub open spec fn fill_notice(o: OpenOrder, meta: InstrumentMeta, px: Dec, qty: Dec, fee: Dec) -> AccountEvent {
    AccountEvent::Fill {
        order_id: o.id,
        instrument: o.instrument,
        side: o.side,
        price: px,
        qty,
        fee,
        fee_asset: meta.quote,
        client_order_id: o.client_order_id,
        oco_group: o.oco_group,
        strategy_id: o.strategy_id,
    }
}

/// `o` is another order of the one-cancels-other group of `filled`.
pub open spec fn is_oco_sibling(o: OpenOrder, filled: OpenOrder) -> bool {
    o.id != filled.id && match (o.oco_group, filled.oco_group) {
        (Some(a), Some(b)) => a@ == b@,
        _ => false,
    }
}

/// Cancellation updates for the siblings of `filled` among the first `n` orders, in order.
pub open spec fn oco_cancels(orders: Seq<OpenOrder>, filled: OpenOrder, n: int) -> Seq<AccountEvent>
    decreases n,
{
    if n <= 0 {
        Seq::empty()
    } else {
        let prev = oco_cancels(orders, filled, n - 1);
        if is_oco_sibling(orders[n - 1], filled) {
            prev.push(update_of(orders[n - 1].closed_as(OrderStatus::Canceled)))
        } else {
            prev
        }
    }
}

/// Cancellation updates for every working sibling of `filled`, in book order.
pub fn oco_cancellations(state: &GlobalState, filled: &OpenOrder) -> (r: Vec<AccountEvent>)
    ensures
        r@ == oco_cancels(state.open_orders@, *filled, state.open_orders@.len() as int),
{
    let mut out: Vec<AccountEvent> = Vec::new();
    let mut i: usize = 0;
    while i < state.open_orders.len()
        invariant
            i <= state.open_orders@.len(),
            out@ == oco_cancels(state.open_orders@, *filled, i as int),
        decreases state.open_orders@.len() - i,
    {
        let o = &state.open_orders[i];
        if o.id != filled.id && filled.oco_group.is_some() && same_text(&o.oco_group, &filled.oco_group) {
            out.push(emit_order_update(&o.close_as(OrderStatus::Canceled)));
        }
        i = i + 1;
    }
    out
}

/// Both orders carry the same one-cancels-other group label.
pub open spec fn same_oco_group(a: OpenOrder, b: OpenOrder) -> bool {
    &&& a.oco_group is Some
    &&& b.oco_group is Some
    &&& a.oco_group->Some_0@ == b.oco_group->Some_0@
}

/// One-cancels-other: the cancellations issued when `filled` fills are one per other working
/// order of its group. Each is a `Canceled` update, with nothing left, of an order with the same
/// group and a different id (never the filled order itself), and every such order among the
/// first `n` gets one; an order without a group cancels nothing.
pub proof fn law_oco_cancels_exactly_siblings(orders: Seq<OpenOrder>, filled: OpenOrder, n: int)
    requires
        0 <= n <= orders.len(),
    ensures
        forall|j: int|
            0 <= j < oco_cancels(orders, filled, n).len() ==> exists|i: int|
                0 <= i < n && orders[i].id != filled.id && same_oco_group(orders[i], filled)
                    && #[trigger] oco_cancels(orders, filled, n)[j] == update_of(
                    orders[i].closed_as(OrderStatus::Canceled),
                ),
        forall|i: int|
            0 <= i < n && orders[i].id != filled.id && #[trigger] same_oco_group(orders[i], filled)
                ==> exists|j: int|
                0 <= j < oco_cancels(orders, filled, n).len() && oco_cancels(orders, filled, n)[j]
                    == update_of(orders[i].closed_as(OrderStatus::Canceled)),
        filled.oco_group is None ==> oco_cancels(orders, filled, n).len() == 0,
    decreases n,
{
    if n > 0 {
        law_oco_cancels_exactly_siblings(orders, filled, n - 1);
        let prev = oco_cancels(orders, filled, n - 1);
        let cur = oco_cancels(orders, filled, n);
        assert forall|j: int| 0 <= j < cur.len() implies exists|i: int|
            0 <= i < n && orders[i].id != filled.id && same_oco_group(orders[i], filled)
                && #[trigger] cur[j] == update_of(orders[i].closed_as(OrderStatus::Canceled)) by {
            if j < prev.len() {
                assert(cur[j] == prev[j]);
                let i = choose|i: int|
                    0 <= i < n - 1 && orders[i].id != filled.id && same_oco_group(orders[i], filled)
                        && #[trigger] prev[j] == update_of(orders[i].closed_as(OrderStatus::Canceled));
                assert(0 <= i < n && cur[j] == update_of(orders[i].closed_as(OrderStatus::Canceled)));
            } else {
                assert(is_oco_sibling(orders[n - 1], filled));
                assert(cur[j] == update_of(orders[n - 1].closed_as(OrderStatus::Canceled)));
            }
        }
        assert forall|i: int|
            0 <= i < n && orders[i].id != filled.id && #[trigger] same_oco_group(orders[i], filled)
                implies exists|j: int|
                0 <= j < cur.len() && cur[j] == update_of(orders[i].closed_as(OrderStatus::Canceled)) by {
            if i < n - 1 {
                let j = choose|j: int|
                    0 <= j < prev.len() && prev[j] == update_of(orders[i].closed_as(OrderStatus::Canceled));
                assert(cur[j] == prev[j]);
            } else {
                assert(is_oco_sibling(orders[n - 1], filled));
                assert(cur[prev.len() as int] == update_of(orders[i].closed_as(OrderStatus::Canceled)));
            }
        }
    }
}

/// `o - b` when `o` is a value.
pub open spec fn then_sub(o: Option<Dec>, b: Dec) -> Option<Dec> {
    match o {
        Some(a) => diff_of(a, b),
        None => None,
    }
}

/// Free balances of base and quote after a fill of `o` (`None` on overflow): the base moves
/// by the signed quantity; the quote pays the notional and the fee (spot) or takes the
/// realized profit and pays the fee (futures and perpetuals).
pub open spec fn balance_events_of(
    state: GlobalState,
    entry: InstrumentState,
    o: OpenOrder,
    px: Dec,
    qty: Dec,
    fee: Dec,
) -> Option<Seq<AccountEvent>> {
    let meta = entry.meta;
    let base_free = state.free(meta.base@);
    let quote_free = state.free(meta.quote@);
    let new_quote = if is_margin_class(meta.asset_class) {
        match realized_pnl_of(entry, o.side, px, qty) {
            Some(realized) => then_sub(sum_of(quote_free, realized), fee),
            None => None,
        }
    } else {
        match cash_flow_of(meta, o.side, px, qty) {
            Some(cash) => then_sub(diff_of(quote_free, cash), fee),
            None => None,
        }
    };
    match (sum_of(base_free, signed_qty_of(o.side, qty)), new_quote) {
        (Some(b), Some(q)) => Some(
            seq![
                AccountEvent::Balance { asset: meta.base, free: b },
                AccountEvent::Balance { asset: meta.quote, free: q },
            ],
        ),
        _ => None,
    }
}

/// The free base balance after a fill without rounding: free base plus the signed quantity
/// (`None` when that does not fit a decimal).
pub open spec fn exact_base_after_fill(state: GlobalState, entry: InstrumentState, o: OpenOrder, qty: Dec) -> Option<
    (int, nat),
> {
    let e = exact_add(state.free(entry.meta.base@), signed_qty_of(o.side, qty));
    if representable(e) {
        Some(e)
    } else {
        None
    }
}

/// The free quote balance after a futures or perpetual fill without rounding: free quote plus
/// the realized profit, minus the fee (`None` when a step does not fit a decimal).
pub open spec fn exact_margin_quote_after_fill(
    state: GlobalState,
    entry: InstrumentState,
    o: OpenOrder,
    px: Dec,
    qty: Dec,
    fee: Dec,
) -> Option<(int, nat)> {
    match realized_pnl_of(entry, o.side, px, qty) {
        Some(realized) => {
            let gross = exact_add(state.free(entry.meta.quote@), realized);
            if representable(gross) && representable(pair_minus(gross, fee)) {
                Some(pair_minus(gross, fee))
            } else {
                None
            }
        },
        None => None,
    }
}

/// The free quote balance after a spot fill without rounding: free quote minus the cash flow
/// (a buy pays the notional, a sell receives it), minus the fee (`None` when a step does not
/// fit a decimal).
pub open spec fn exact_spot_quote_after_fill(
    state: GlobalState,
    entry: InstrumentState,
    o: OpenOrder,
    px: Dec,
    qty: Dec,
    fee: Dec,
) -> Option<(int, nat)> {
    match cash_flow_of(entry.meta, o.side, px, qty) {
        Some(cash) => {
            let net = exact_sub(state.free(entry.meta.quote@), cash);
            if representable(net) && representable(pair_minus(net, fee)) {
                Some(pair_minus(net, fee))
            } else {
                None
            }
        },
        None => None,
    }
}

/// The event sets a free balance to the value of the pair `e`.
pub open spec fn sets_free_to(ev: AccountEvent, e: (int, nat)) -> bool {
    ev matches AccountEvent::Balance { free, .. } && has_value(free, e)
}

/// Balance updates after a fill of `o`.
///
/// When nothing is rounded, the base balance moves by exactly the signed quantity, and the quote
/// balance becomes free quote plus the realized profit minus the fee (futures and perpetuals) or
/// free quote minus the cash flow minus the fee (spot).
pub fn balance_updates_after_fill(
    state: &GlobalState,
    entry: &InstrumentState,
    o: &OpenOrder,
    px: Dec,
    qty: Dec,
    fee: Dec,
) -> (r: Option<Vec<AccountEvent>>)
    requires
        state.wf(),
        entry.wf(),
        px.wf(),
        qty.wf(),
        fee.wf(),
    ensures
        match (r, balance_events_of(*state, *entry, *o, px, qty, fee)) {
            (Some(v), Some(s)) => v@ == s,
            (None, None) => true,
            _ => false,
        },
        r is Some && exact_base_after_fill(*state, *entry, *o, qty) is Some ==> sets_free_to(
            r->Some_0@[0],
            exact_base_after_fill(*state, *entry, *o, qty)->Some_0,
        ),
        r is Some && is_margin_class(entry.meta.asset_class) && exact_margin_quote_after_fill(
            *state,
            *entry,
            *o,
            px,
            qty,
            fee,
        ) is Some ==> sets_free_to(
            r->Some_0@[1],
            exact_margin_quote_after_fill(*state, *entry, *o, px, qty, fee)->Some_0,
        ),
        r is Some && !is_margin_class(entry.meta.asset_class) && exact_spot_quote_after_fill(
            *state,
            *entry,
            *o,
            px,
            qty,
            fee,
        ) is Some ==> sets_free_to(
            r->Some_0@[1],
            exact_spot_quote_after_fill(*state, *entry, *o, px, qty, fee)->Some_0,
        ),
{
    let meta = &entry.meta;
    let base_free = state.free_balance(&meta.base);
    let quote_free = state.free_balance(&meta.quote);
    proof {
        lemma_free_wf(*state, meta.base@);
        lemma_free_wf(*state, meta.quote@);
    }
    let sq = signed_qty(o.side, qty);
    let new_base = dec_checked_add(base_free, sq);
    proof {
        if exact_base_after_fill(*state, *entry, *o, qty) is Some {
            lemma_checked_add_scaled(base_free, sq, new_base);
        }
    }
    let new_quote = if uses_derivative_margin(meta) {
        match realized_derivative_pnl(entry, o.side, px, qty) {
            Some(realized) => match dec_checked_add(quote_free, realized) {
                Some(a) => {
                    let q = dec_checked_sub(a, fee);
                    proof {
                        if exact_margin_quote_after_fill(*state, *entry, *o, px, qty, fee) is Some {
                            lemma_checked_add_scaled(quote_free, realized, Some(a));
                            lemma_checked_sub_after(a, exact_add(quote_free, realized), fee, q);
                        }
                    }
                    q
                },
                None => None,
            },
            None => None,
        }
    } else {
        match quote_cash_flow(meta, o.side, px, qty) {
            Some(cash) => match dec_checked_sub(quote_free, cash) {
                Some(a) => {
                    let q = dec_checked_sub(a, fee);
                    proof {
                        if exact_spot_quote_after_fill(*state, *entry, *o, px, qty, fee) is Some {
                            lemma_checked_sub_scaled(quote_free, cash, Some(a));
                            lemma_checked_sub_after(a, exact_sub(quote_free, cash), fee, q);
                        }
                    }
                    q
                },
                None => None,
            },
            None => None,
        }
    };
    match (new_base, new_quote) {
        (Some(b), Some(q)) => {
            let mut v: Vec<AccountEvent> = Vec::new();
            v.push(AccountEvent::Balance { asset: meta.base.clone(), free: b });
            v.push(AccountEvent::Balance { asset: meta.quote.clone(), free: q });
            proof {
                if exact_base_after_fill(*state, *entry, *o, qty) is Some {
                    lemma_scaled_value(b, exact_base_after_fill(*state, *entry, *o, qty)->Some_0);
                }
                if is_margin_class(entry.meta.asset_class) && exact_margin_quote_after_fill(
                    *state,
                    *entry,
                    *o,
                    px,
                    qty,
                    fee,
                ) is Some {
                    lemma_scaled_value(
                        q,
                        exact_margin_quote_after_fill(*state, *entry, *o, px, qty, fee)->Some_0,
                    );
                }
                if !is_margin_class(entry.meta.asset_class) && exact_spot_quote_after_fill(
                    *state,
                    *entry,
                    *o,
                    px,
                    qty,
                    fee,
                ) is Some {
                    lemma_scaled_value(
                        q,
                        exact_spot_quote_after_fill(*state, *entry, *o, px, qty, fee)->Some_0,
                    );
                }
            }
            Some(v)
        },
        _ => None,
    }
}

/// `r` holds the events `o` describes, or fails as it does.
pub open spec fn events_are(r: Result<Vec<AccountEvent>, Error>, o: Result<Seq<AccountEvent>, Failure>) -> bool {
    match (r, o) {
        (Ok(v), Ok(s)) => v@ == s,
        (Err(e), Err(f)) => e.failure() == f,
        _ => false,
    }
}

/// Events of filling `o` at `px` for `qty` with fee rate `fee_bps`: the filled order update,
/// the fill notice, cancellations of its one-cancels-other siblings and the two balance
/// updates; or the funds check's refusal.
pub open spec fn fill_events_of(
    fee_bps: Dec,
    state: GlobalState,
    o: OpenOrder,
    entry: InstrumentState,
    px: Dec,
    qty: Dec,
) -> Result<Seq<AccountEvent>, Failure> {
    let meta = entry.meta;
    match notional_of(meta, px, qty) {
        None => Err(overflow_failure()),
        Some(n) => match bps_of(n, fee_bps) {
            None => Err(overflow_failure()),
            Some(fee) => match check_balance_of(state, entry, o.side, px, qty, fee) {
                Err(f) => Err(f),
                Ok(_) => {
                    let filled = o.closed_as(OrderStatus::Filled);
                    match balance_events_of(state, entry, filled, px, qty, fee) {
                        None => Err(overflow_failure()),
                        Some(bal) => Ok(
                            seq![update_of(filled), fill_notice(filled, meta, px, qty, fee)]
                                + oco_cancels(
                                state.open_orders@,
                                filled,
                                state.open_orders@.len() as int,
                            ) + bal,
                        ),
                    }
                },
            },
        },
    }
}

/// An accepted fill of `qty` at `px` is reported in this order: the order's update closed as
/// filled with nothing left, the fill notice (the order's id, instrument and side, the price and
/// quantity filled, and the fee `notional * fee_bps / 10000` in the quote asset), the
/// cancellations of its one-cancels-other siblings, then the base and quote balances.
pub proof fn law_fill_events_report_the_fill(
    fee_bps: Dec,
    state: GlobalState,
    o: OpenOrder,
    entry: InstrumentState,
    px: Dec,
    qty: Dec,
    evs: Seq<AccountEvent>,
)
    requires
        fill_events_of(fee_bps, state, o, entry, px, qty) == Ok::<Seq<AccountEvent>, Failure>(evs),
    ensures
        notional_of(entry.meta, px, qty) is Some,
        bps_of(notional_of(entry.meta, px, qty)->Some_0, fee_bps) is Some,
        ({
            let filled = o.closed_as(OrderStatus::Filled);
            let fee = bps_of(notional_of(entry.meta, px, qty)->Some_0, fee_bps)->Some_0;
            let cancels = oco_cancels(state.open_orders@, filled, state.open_orders@.len() as int);
            &&& evs.len() == 2 + cancels.len() + 2
            &&& evs[0] == update_of(filled)
            &&& filled.status == OrderStatus::Filled && filled.remaining_qty == zero_dec()
            &&& evs[1] == AccountEvent::Fill {
                order_id: o.id,
                instrument: o.instrument,
                side: o.side,
                price: px,
                qty,
                fee,
                fee_asset: entry.meta.quote,
                client_order_id: o.client_order_id,
                oco_group: o.oco_group,
                strategy_id: o.strategy_id,
            }
            &&& evs.subrange(2, 2 + cancels.len() as int) == cancels
            &&& balance_events_of(state, entry, filled, px, qty, fee) == Some(
                evs.subrange(2 + cancels.len() as int, evs.len() as int),
            )
        }),
{
    let filled = o.closed_as(OrderStatus::Filled);
    let fee = bps_of(notional_of(entry.meta, px, qty)->Some_0, fee_bps)->Some_0;
    let cancels = oco_cancels(state.open_orders@, filled, state.open_orders@.len() as int);
    let bal = balance_events_of(state, entry, filled, px, qty, fee)->Some_0;
    assert(evs == seq![update_of(filled), fill_notice(filled, entry.meta, px, qty, fee)] + cancels
        + bal);
    assert(evs.subrange(2, 2 + cancels.len() as int) =~= cancels);
    assert(evs.subrange(2 + cancels.len() as int, evs.len() as int) =~= bal);
}

/// The working order a placement creates.
pub open spec fn open_order_of(
    id: u128,
    intent: OrderIntent,
    qty: Dec,
    price: Option<Dec>,
    stop_price: Option<Dec>,
    order_type: OrderType,
) -> OpenOrder {
    OpenOrder {
        id,
        instrument: intent.instrument,
        side: intent.side,
        order_type,
        price,
        stop_price,
        remaining_qty: qty,
        original_qty: qty,
        status: OrderStatus::Open,
        client_order_id: intent.client_order_id,
        oco_group: intent.oco_group,
        strategy_id: intent.strategy_id,
    }
}

/// The working order a placement creates.
pub fn build_open(
    id: u128,
    intent: &OrderIntent,
    qty: Dec,
    price: Option<Dec>,
    stop_price: Option<Dec>,
    order_type: OrderType,
) -> (r: OpenOrder)
    ensures
        r == open_order_of(id, *intent, qty, price, stop_price, order_type),
{
    OpenOrder {
        id,
        instrument: intent.instrument.clone(),
        side: intent.side,
        order_type,
        price,
        stop_price,
        remaining_qty: qty,
        original_qty: qty,
        status: OrderStatus::Open,
        client_order_id: clone_text(&intent.client_order_id),
        oco_group: clone_text(&intent.oco_group),
        strategy_id: clone_text(&intent.strategy_id),
    }
}

/// The touch price a crossing limit fills at: the ask for a buy, the bid for a sell.
pub open spec fn touch_price(side: Side, bid: Dec, ask: Dec) -> Dec {
    match side {
        Side::Buy => ask,
        Side::Sell => bid,
    }
}

/// The fill price of a limit that crosses the touch, if it does.
pub open spec fn crossing_of<M: FillModel>(model: M, side: Side, limit: Dec, bid: Dec, ask: Dec) -> Option<Dec> {
    if model.would_fill(side, limit, bid, ask) {
        Some(touch_price(side, bid, ask))
    } else {
        None
    }
}

/// The fill price of a limit that crosses the touch, if it does.
pub fn crossing_limit<M: FillModel>(model: &M, side: Side, limit: Dec, bid: Dec, ask: Dec) -> (r: Option<Dec>)
    requires
        limit.wf(),
        bid.wf(),
        ask.wf(),
    ensures
        r == crossing_of(*model, side, limit, bid, ask),
        r matches Some(v) ==> v.wf(),
{
    if model.limit_would_fill(side, limit, bid, ask) {
        Some(
            match side {
                Side::Buy => ask,
                Side::Sell => bid,
            },
        )
    } else {
        None
    }
}

/// Reference price of a market order: the touch when quoted, else the mid or last price.
pub open spec fn market_reference_of(entry: InstrumentState, side: Side) -> Option<Dec> {
    match entry.l1 {
        Some((bid, ask)) => Some(touch_price(side, bid, ask)),
        None => entry.mid_or_last,
    }
}

/// Reference price of a market order.
pub fn market_reference(entry: &InstrumentState, side: Side) -> (r: Option<Dec>)
    requires
        entry.wf(),
    ensures
        r == market_reference_of(*entry, side),
        r matches Some(v) ==> v.wf(),
{
    match entry.l1 {
        Some((bid, ask)) => Some(
            match side {
                Side::Buy => ask,
                Side::Sell => bid,
            },
        ),
        None => entry.mid_or_last,
    }
}

/// A stop triggers when the bar reaches it: the high for a buy, the low for a sell.
pub open spec fn stop_triggered_of(side: Side, stop: Dec, high: Dec, low: Dec) -> bool {
    match side {
        Side::Buy => value_le(stop, high),
        Side::Sell => value_le(low, stop),
    }
}

/// Whether the bar reached the stop.
pub fn stop_triggered(side: Side, stop: Dec, high: Dec, low: Dec) -> (r: bool)
    requires
        stop.wf(),
        high.wf(),
        low.wf(),
    ensures
        r == stop_triggered_of(side, stop, high, low),
{
    match side {
        Side::Buy => dec_le(stop, high),
        Side::Sell => dec_le(low, stop),
    }
}

/// With the touch-cross model a resting limit crosses exactly when the touch is at or through
/// it (a buy when the ask is at or below the limit, a sell when the bid is at or above it), and
/// it then fills at the touch, never at a price worse than its limit.
pub proof fn law_touch_cross_fills_within_limit(limit: Dec, bid: Dec, ask: Dec)
    ensures
        crossing_of(TouchCrossFillModel, Side::Buy, limit, bid, ask) is Some <==> value_le(ask, limit),
        crossing_of(TouchCrossFillModel, Side::Sell, limit, bid, ask) is Some <==> value_le(limit, bid),
        crossing_of(TouchCrossFillModel, Side::Buy, limit, bid, ask) matches Some(px) ==> px == ask
            && value_le(px, limit),
        crossing_of(TouchCrossFillModel, Side::Sell, limit, bid, ask) matches Some(px) ==> px == bid
            && value_le(limit, px),
{
}

/// A market order is priced off the side of the quote it takes: a buy off the ask, a sell off
/// the bid; so with an ordered quote a buy never references a lower price than a sell.
/// Without a quote both use the mid or last price.
pub proof fn law_market_reference_takes_the_quote(entry: InstrumentState)
    ensures
        entry.l1 matches Some((bid, ask)) ==> market_reference_of(entry, Side::Buy) == Some(ask)
            && market_reference_of(entry, Side::Sell) == Some(bid),
        entry.l1 matches Some((bid, ask)) && value_le(bid, ask) ==> value_le(
            market_reference_of(entry, Side::Sell)->Some_0,
            market_reference_of(entry, Side::Buy)->Some_0,
        ),
        entry.l1 is None ==> market_reference_of(entry, Side::Buy) == entry.mid_or_last
            && market_reference_of(entry, Side::Sell) == entry.mid_or_last,
{
}

/// A stop triggers exactly when the last bar reached it: a buy stop when the bar's high is at or
/// above the stop, a sell stop when the bar's low is at or below it. In particular a sell stop
/// strictly below the bar's low, or a buy stop strictly above its high, does not trigger.
pub proof fn law_stop_triggers_when_bar_reaches(stop: Dec, high: Dec, low: Dec)
    ensures
        stop_triggered_of(Side::Sell, stop, high, low) <==> value_le(low, stop),
        stop_triggered_of(Side::Buy, stop, high, low) <==> value_le(stop, high),
        value_lt(stop, low) ==> !stop_triggered_of(Side::Sell, stop, high, low),
        value_lt(high, stop) ==> !stop_triggered_of(Side::Buy, stop, high, low),
{
}

/// A triggered stop stays triggered when moved toward the bar: if a sell stop triggers, so does
/// any higher sell stop; if a buy stop triggers, so does any lower buy stop.
pub proof fn law_stop_trigger_monotone(lower: Dec, higher: Dec, high: Dec, low: Dec)
    requires
        value_le(lower, higher),
    ensures
        stop_triggered_of(Side::Sell, lower, high, low) ==> stop_triggered_of(
            Side::Sell,
            higher,
            high,
            low,
        ),
        stop_triggered_of(Side::Buy, higher, high, low) ==> stop_triggered_of(
            Side::Buy,
            lower,
            high,
            low,
        ),
{
    if stop_triggered_of(Side::Sell, lower, high, low) {
        lemma_value_le_trans(low, lower, higher);
    }
    if stop_triggered_of(Side::Buy, higher, high, low) {
        lemma_value_le_trans(lower, higher, high);
    }
}

/// The failure for an instrument that is not registered.
pub open spec fn unknown_instrument() -> Failure {
    (ErrorKind::Invalid, "unknown instrument"@)
}

/// Where the registered instrument `id` is, or the unknown-instrument error.
fn locate(state: &GlobalState, id: &crate::config::InstrumentId) -> (r: Result<usize, Error>)
    requires
        state.wf(),
    ensures
        match r {
            Ok(k) => k < state.instruments@.len() && state.entry(*id) == Some(
                state.instruments@[k as int],
            ) && state.instruments@[k as int].wf(),
            Err(e) => state.entry(*id).is_none() && e.failure() == unknown_instrument(),
        },
{
    proof {
        lemma_find_instrument(state.instruments@, *id, 0);
    }
    match state.instrument_index(id) {
        Some(k) => Ok(k),
        None => Err(invalid("unknown instrument")),
    }
}

/// Events of a limit placement: the working order, filled at the touch at once when it crosses.
pub open spec fn limit_placement_of<M: FillModel>(
    cfg: PaperConfig<M>,
    state: GlobalState,
    intent: OrderIntent,
    id: u128,
) -> Result<Seq<AccountEvent>, Failure> {
    if intent.order_type != OrderType::Limit {
        Err((ErrorKind::Invalid, "place_limit requires limit intent"@))
    } else {
        match state.entry(intent.instrument) {
            None => Err(unknown_instrument()),
            Some(entry) => match normalize_of(entry.meta, intent.qty, intent.price, intent.stop_price) {
                Err(f) => Err(f),
                Ok((qty, price, _)) => match price {
                    None => Err((ErrorKind::Invalid, "limit needs price"@)),
                    Some(price) => {
                        let o = open_order_of(id, intent, qty, Some(price), None, OrderType::Limit);
                        match entry.l1 {
                            Some((bid, ask)) => match crossing_of(cfg.fill_model, intent.side, price, bid, ask) {
                                Some(px) => fill_events_of(cfg.fee_bps, state, o, entry, px, qty),
                                None => Ok(seq![update_of(o)]),
                            },
                            None => Ok(seq![update_of(o)]),
                        }
                    },
                },
            },
        }
    }
}

/// Events of a market placement: filled at once at the slipped reference price.
pub open spec fn market_placement_of<M: FillModel>(
    cfg: PaperConfig<M>,
    state: GlobalState,
    intent: OrderIntent,
    id: u128,
) -> Result<Seq<AccountEvent>, Failure> {
    match state.entry(intent.instrument) {
        None => Err(unknown_instrument()),
        Some(entry) => match normalize_of(entry.meta, intent.qty, intent.price, intent.stop_price) {
            Err(f) => Err(f),
            Ok((qty, _, _)) => match market_reference_of(entry, intent.side) {
                None => Err((ErrorKind::Invalid, "no mid/last for market order"@)),
                Some(reference) => match slipped_of(intent.side, reference, cfg.market_slippage_bps) {
                    None => Err(overflow_failure()),
                    Some(px) => fill_events_of(
                        cfg.fee_bps,
                        state,
                        open_order_of(id, intent, qty, None, None, OrderType::Market),
                        entry,
                        px,
                        qty,
                    ),
                },
            },
        },
    }
}

/// Event of canceling the working order `order_id`.
pub open spec fn cancel_of(state: GlobalState, order_id: u128) -> Result<Seq<AccountEvent>, Failure> {
    match state.order(order_id) {
        None => Err((ErrorKind::Invalid, "unknown order"@)),
        Some(o) => Ok(seq![update_of(o.closed_as(OrderStatus::Canceled))]),
    }
}

/// The cancellation update of an order.
pub open spec fn cancel_update(o: OpenOrder) -> AccountEvent {
    update_of(o.closed_as(OrderStatus::Canceled))
}

/// Events of a stop-market placement: the working order, or a fill at the slipped reference
/// price when the last bar already reached the stop.
pub open spec fn stop_market_placement_of<M: FillModel>(
    cfg: PaperConfig<M>,
    state: GlobalState,
    intent: OrderIntent,
    id: u128,
) -> Result<Seq<AccountEvent>, Failure> {
    if intent.order_type != OrderType::StopMarket {
        Err((ErrorKind::Invalid, "place_stop_market requires StopMarket"@))
    } else {
        match state.entry(intent.instrument) {
            None => Err(unknown_instrument()),
            Some(entry) => {
                let stop = match intent.stop_price {
                    Some(s) => Some(s),
                    None => intent.price,
                };
                match stop {
                    None => Err((ErrorKind::Invalid, "stop market needs stop_price"@)),
                    Some(stop) => match normalize_of(entry.meta, intent.qty, intent.price, Some(stop)) {
                        Err(f) => Err(f),
                        Ok((qty, _, sp)) => match sp {
                            None => Err(overflow_failure()),
                            Some(stop_price) => {
                                let o = open_order_of(
                                    id,
                                    intent,
                                    qty,
                                    None,
                                    Some(stop_price),
                                    OrderType::StopMarket,
                                );
                                match entry.bar {
                                    Some((high, low)) => if stop_triggered_of(intent.side, stop_price, high, low) {
                                        match market_reference_of(entry, intent.side) {
                                            None => Err((ErrorKind::Invalid, "no mid for stop market fill"@)),
                                            Some(reference) => match slipped_of(
                                                intent.side,
                                                reference,
                                                cfg.market_slippage_bps,
                                            ) {
                                                None => Err(overflow_failure()),
                                                Some(px) => fill_events_of(cfg.fee_bps, state, o, entry, px, qty),
                                            },
                                        }
                                    } else {
                                        Ok(seq![update_of(o)])
                                    },
                                    None => Ok(seq![update_of(o)]),
                                }
                            },
                        },
                    },
                }
            },
        }
    }
}

/// Events of a stop-limit placement: the working order, or a fill at the touch when the last
/// bar already reached the stop and the limit crosses.
pub open spec fn stop_limit_placement_of<M: FillModel>(
    cfg: PaperConfig<M>,
    state: GlobalState,
    intent: OrderIntent,
    id: u128,
) -> Result<Seq<AccountEvent>, Failure> {
    if intent.order_type != OrderType::StopLimit {
        Err((ErrorKind::Invalid, "place_stop_limit requires StopLimit"@))
    } else {
        match state.entry(intent.instrument) {
            None => Err(unknown_instrument()),
            Some(entry) => match intent.price {
                None => Err((ErrorKind::Invalid, "stop limit needs limit price"@)),
                Some(limit) => match intent.stop_price {
                    None => Err((ErrorKind::Invalid, "stop limit needs stop_price"@)),
                    Some(stop) => match normalize_of(entry.meta, intent.qty, Some(limit), Some(stop)) {
                        Err(f) => Err(f),
                        Ok((qty, p, sp)) => match (p, sp) {
                            (Some(price), Some(stop_price)) => {
                                let o = open_order_of(
                                    id,
                                    intent,
                                    qty,
                                    Some(price),
                                    Some(stop_price),
                                    OrderType::StopLimit,
                                );
                                let crossed = match entry.bar {
                                    Some((high, low)) => if stop_triggered_of(intent.side, stop_price, high, low) {
                                        match entry.l1 {
                                            Some((bid, ask)) => crossing_of(cfg.fill_model, intent.side, price, bid, ask),
                                            None => None,
                                        }
                                    } else {
                                        None
                                    },
                                    None => None,
                                };
                                match crossed {
                                    Some(px) => fill_events_of(cfg.fee_bps, state, o, entry, px, qty),
                                    None => Ok(seq![update_of(o)]),
                                }
                            },
                            _ => Err(overflow_failure()),
                        },
                    },
                },
            },
        }
    }
}

/// The bar reached a resting limit: its low for a buy, its high for a sell.
pub open spec fn bar_touch_of(side: Side, limit: Dec, high: Dec, low: Dec) -> bool {
    match side {
        Side::Buy => value_le(low, limit),
        Side::Sell => value_le(limit, high),
    }
}

/// Fill price of a resting limit: the limit itself when the last bar touched it, else the
/// touch when the quote crosses it.
pub open spec fn resting_limit_of<M: FillModel>(model: M, entry: InstrumentState, o: OpenOrder) -> Option<Dec> {
    match o.price {
        None => None,
        Some(limit) => {
            let touched = match entry.bar {
                Some((high, low)) => bar_touch_of(o.side, limit, high, low),
                None => false,
            };
            if touched {
                Some(limit)
            } else {
                match entry.l1 {
                    Some((bid, ask)) => crossing_of(model, o.side, limit, bid, ask),
                    None => None,
                }
            }
        },
    }
}

/// Without a quote, a resting limit fills from the last bar exactly when the bar traded at or
/// through it (a buy when the bar's low is at or below the limit, a sell when its high is at or
/// above it), and it fills at its limit, so never at a price beyond what the bar traded.
pub proof fn law_resting_limit_fills_when_bar_touches<M: FillModel>(
    model: M,
    entry: InstrumentState,
    o: OpenOrder,
    limit: Dec,
    high: Dec,
    low: Dec,
)
    requires
        o.price == Some(limit),
        entry.bar == Some((high, low)),
        entry.l1 is None,
    ensures
        o.side is Buy ==> (resting_limit_of(model, entry, o) is Some <==> value_le(low, limit)),
        o.side is Sell ==> (resting_limit_of(model, entry, o) is Some <==> value_le(limit, high)),
        resting_limit_of(model, entry, o) matches Some(px) ==> px == limit,
        o.side is Buy && resting_limit_of(model, entry, o) is Some ==> !value_lt(limit, low),
        o.side is Sell && resting_limit_of(model, entry, o) is Some ==> !value_lt(high, limit),
{
}

/// Moving a resting limit toward the market never loses a fill from the bar: without a quote,
/// if a buy limit fills from the last bar so does any higher buy limit, and if a sell limit does
/// so does any lower one.
pub proof fn law_resting_limit_bar_fill_monotone<M: FillModel>(
    model: M,
    entry: InstrumentState,
    o: OpenOrder,
    lower: Dec,
    higher: Dec,
    high: Dec,
    low: Dec,
)
    requires
        entry.bar == Some((high, low)),
        entry.l1 is None,
        value_le(lower, higher),
    ensures
        o.side is Buy && resting_limit_of(model, entry, (OpenOrder { price: Some(lower), ..o }))
            is Some ==> resting_limit_of(model, entry, (OpenOrder { price: Some(higher), ..o }))
            == Some(higher),
        o.side is Sell && resting_limit_of(model, entry, (OpenOrder { price: Some(higher), ..o }))
            is Some ==> resting_limit_of(model, entry, (OpenOrder { price: Some(lower), ..o }))
            == Some(lower),
{
    if o.side is Buy && value_le(low, lower) {
        lemma_value_le_trans(low, lower, higher);
    }
    if o.side is Sell && value_le(higher, high) {
        lemma_value_le_trans(lower, higher, high);
    }
}

/// Fill price of a resting stop-market: the slipped reference price once the last bar
/// reached the stop; an overflow of the slipped price fails.
pub open spec fn resting_stop_market_of(bps: Dec, entry: InstrumentState, o: OpenOrder) -> Result<
    Option<Dec>,
    Failure,
> {
    match (o.stop_price, entry.bar) {
        (Some(stop), Some((high, low))) => if !stop_triggered_of(o.side, stop, high, low) {
            Ok(None)
        } else {
            match market_reference_of(entry, o.side) {
                None => Ok(None),
                Some(reference) => match slipped_of(o.side, reference, bps) {
                    Some(px) => Ok(Some(px)),
                    None => Err(overflow_failure()),
                },
            }
        },
        _ => Ok(None),
    }
}

/// Fill price of a resting stop-limit: the touch once the last bar reached the stop and the
/// limit crosses the quote.
pub open spec fn resting_stop_limit_of<M: FillModel>(model: M, entry: InstrumentState, o: OpenOrder) -> Option<Dec> {
    match (o.stop_price, o.price, entry.bar, entry.l1) {
        (Some(stop), Some(limit), Some((high, low)), Some((bid, ask))) => if stop_triggered_of(
            o.side,
            stop,
            high,
            low,
        ) {
            crossing_of(model, o.side, limit, bid, ask)
        } else {
            None
        },
        _ => None,
    }
}

/// Resting stop orders fill only once the last bar has reached their stop: a stop-limit then
/// fills only when its limit crosses the quote, at the touch; a stop-market fills at its
/// reference price (the touch, else the mid or last price) moved by the slippage against it.
pub proof fn law_resting_stops_fill_only_once_triggered<M: FillModel>(
    model: M,
    bps: Dec,
    entry: InstrumentState,
    o: OpenOrder,
)
    ensures
        resting_stop_limit_of(model, entry, o) is Some ==> {
            &&& o.stop_price is Some && entry.bar is Some && o.price is Some && entry.l1 is Some
            &&& stop_triggered_of(
                o.side,
                o.stop_price->Some_0,
                entry.bar->Some_0.0,
                entry.bar->Some_0.1,
            )
            &&& crossing_of(model, o.side, o.price->Some_0, entry.l1->Some_0.0, entry.l1->Some_0.1)
                == resting_stop_limit_of(model, entry, o)
        },
        resting_stop_market_of(bps, entry, o) matches Ok(Some(px)) ==> {
            &&& o.stop_price is Some && entry.bar is Some
            &&& stop_triggered_of(
                o.side,
                o.stop_price->Some_0,
                entry.bar->Some_0.0,
                entry.bar->Some_0.1,
            )
            &&& market_reference_of(entry, o.side) is Some
            &&& slipped_of(o.side, market_reference_of(entry, o.side)->Some_0, bps) == Some(px)
        },
{
}

/// Fill price of a resting order, by type (market orders never rest).
pub open spec fn resting_price_of<M: FillModel>(cfg: PaperConfig<M>, entry: InstrumentState, o: OpenOrder) -> Result<
    Option<Dec>,
    Failure,
> {
    match o.order_type {
        OrderType::Limit => Ok(resting_limit_of(cfg.fill_model, entry, o)),
        OrderType::StopMarket => resting_stop_market_of(cfg.market_slippage_bps, entry, o),
        OrderType::StopLimit => Ok(resting_stop_limit_of(cfg.fill_model, entry, o)),
        OrderType::Market => Ok(None),
    }
}

/// What evaluating a resting order gives: nothing (`None`), its fill events, or the failure
/// it is rejected with.
pub open spec fn resting_outcome<M: FillModel>(cfg: PaperConfig<M>, state: GlobalState, o: OpenOrder) -> Option<
    Result<Seq<AccountEvent>, Failure>,
> {
    match state.entry(o.instrument) {
        None => None,
        Some(entry) => match resting_price_of(cfg, entry, o) {
            Ok(None) => None,
            Ok(Some(px)) => Some(fill_events_of(cfg.fee_bps, state, o, entry, px, o.remaining_qty)),
            Err(f) => Some(Err(f)),
        },
    }
}

/// The text an error with this failure displays.
pub open spec fn failure_text(f: Failure) -> Seq<char> {
    match f.0 {
        ErrorKind::RiskRejected => "risk rejected: "@ + f.1,
        ErrorKind::ExecutionRejected => "execution rejected: "@ + f.1,
        ErrorKind::Invalid => "invalid: "@ + f.1,
        ErrorKind::StrategyProtocol => "strategy protocol: "@ + f.1,
        ErrorKind::Cancelled => "backtest cancelled"@,
    }
}

/// `seg` rejects the resting order `o` for failure `f`: its rejected update, then the
/// rejection record stamped with the last event time (the Unix epoch when there is none).
pub open spec fn is_rejection_of(seg: Seq<AccountEvent>, state: GlobalState, o: OpenOrder, f: Failure) -> bool {
    &&& seg.len() == 2
    &&& seg[0] == update_of(o.closed_as(OrderStatus::Rejected))
    &&& match seg[1] {
        AccountEvent::Rejection(rec) => {
            &&& rec.ts_unix_nanos == match state.last_event_ts {
                Some(t) => t,
                None => 0,
            }
            &&& rec.kind == RejectionKind::Execution
            &&& rec.instrument == o.instrument
            &&& rec.client_order_id == o.client_order_id
            &&& rec.reason@ == failure_text(f)
        },
        _ => false,
    }
}

/// `seg` is what evaluating the resting order `o` reports.
pub open spec fn resting_events_ok<M: FillModel>(
    cfg: PaperConfig<M>,
    state: GlobalState,
    o: OpenOrder,
    seg: Seq<AccountEvent>,
) -> bool {
    match resting_outcome(cfg, state, o) {
        None => seg == Seq::<AccountEvent>::empty(),
        Some(Ok(evs)) => seg == evs,
        Some(Err(f)) => is_rejection_of(seg, state, o, f),
    }
}

/// The rejection of a resting order.
pub fn reject_resting_order(state: &GlobalState, o: &OpenOrder, error: &Error) -> (r: Vec<
    AccountEvent,
>)
    ensures
        is_rejection_of(r@, *state, *o, error.failure()),
{
    let rejected = o.close_as(OrderStatus::Rejected);
    let mut out: Vec<AccountEvent> = Vec::new();
    out.push(emit_order_update(&rejected));
    let ts = match state.last_event_ts {
        Some(t) => t,
        None => 0,
    };
    out.push(
        AccountEvent::Rejection(
            RejectionRecord {
                ts_unix_nanos: ts,
                kind: RejectionKind::Execution,
                instrument: o.instrument.clone(),
                client_order_id: clone_text(&o.client_order_id),
                reason: error.to_text(),
            },
        ),
    );
    out
}

/// The one-cancels-other group of a fill notice, when it has one.
pub open spec fn fill_group(e: AccountEvent) -> Option<Seq<char>> {
    match e {
        AccountEvent::Fill { oco_group: Some(g), .. } => Some(g@),
        _ => None,
    }
}

/// No two fill notices of `evs` belong to the same one-cancels-other group.
pub open spec fn one_fill_per_group(evs: Seq<AccountEvent>) -> bool {
    forall|a: int, b: int|
        0 <= a < b < evs.len() && #[trigger] fill_group(evs[a]) is Some ==> fill_group(evs[a])
            != #[trigger] fill_group(evs[b])
}

/// The segment holds a fill notice.
pub open spec fn has_fill(seg: Seq<AccountEvent>) -> bool {
    exists|k: int| 0 <= k < seg.len() && #[trigger] seg[k].is_fill()
}

/// Segments joined in order.
pub open spec fn concat_all(segs: Seq<Seq<AccountEvent>>) -> Seq<AccountEvent>
    decreases segs.len(),
{
    if segs.len() == 0 {
        Seq::empty()
    } else {
        concat_all(segs.drop_last()) + segs.last()
    }
}

/// Groups of the orders among the first `n` whose segment holds a fill, in order.
pub open spec fn filled_groups(orders: Seq<OpenOrder>, segs: Seq<Seq<AccountEvent>>, n: int) -> Seq<
    Seq<char>,
>
    decreases n,
{
    if n <= 0 {
        Seq::empty()
    } else {
        let g = filled_groups(orders, segs, n - 1);
        match orders[n - 1].oco_group {
            Some(x) => if has_fill(segs[n - 1]) {
                g.push(x@)
            } else {
                g
            },
            None => g,
        }
    }
}

/// An order is evaluated by a poll of `inst` when it trades `inst` and no order of its
/// one-cancels-other group has filled earlier in the poll.
pub open spec fn polled(o: OpenOrder, inst: crate::config::InstrumentId, groups: Seq<Seq<char>>) -> bool {
    o.instrument.same(inst) && !(o.oco_group matches Some(g) && groups.contains(g@))
}

/// `segs` holds, order by order in book order, what a poll of `inst` reports: the evaluation
/// of each polled order, nothing for the others.
pub open spec fn poll_segments_ok<M: FillModel>(
    cfg: PaperConfig<M>,
    state: GlobalState,
    inst: crate::config::InstrumentId,
    segs: Seq<Seq<AccountEvent>>,
) -> bool {
    &&& segs.len() == state.open_orders@.len()
    &&& forall|i: int|
        0 <= i < segs.len() ==> if polled(
            state.open_orders@[i],
            inst,
            filled_groups(state.open_orders@, segs, i),
        ) {
            resting_events_ok(cfg, state, state.open_orders@[i], #[trigger] segs[i])
        } else {
            segs[i] == Seq::<AccountEvent>::empty()
        }
}

/// What a poll has established after evaluating the orders `segs` covers: each segment is
/// right, `out` joins them, `gv` holds the groups already filled, and no group filled twice.
pub open spec fn poll_inv<M: FillModel>(
    cfg: PaperConfig<M>,
    state: GlobalState,
    inst: crate::config::InstrumentId,
    segs: Seq<Seq<AccountEvent>>,
    out: Seq<AccountEvent>,
    gv: Seq<Seq<char>>,
) -> bool {
    let orders = state.open_orders@;
    &&& segs.len() <= orders.len()
    &&& out == concat_all(segs)
    &&& gv == filled_groups(orders, segs, segs.len() as int)
    &&& forall|j: int|
        0 <= j < segs.len() ==> if polled(orders[j], inst, filled_groups(orders, segs, j)) {
            resting_events_ok(cfg, state, orders[j], #[trigger] segs[j])
        } else {
            segs[j] == Seq::<AccountEvent>::empty()
        }
    &&& forall|k: int|
        0 <= k < out.len() && (#[trigger] fill_group(out[k])) is Some ==> gv.contains(
            fill_group(out[k])->0,
        )
    &&& one_fill_per_group(out)
}

/// Fill notices of the segment of a polled order carry that order's group, and there is at
/// most one.
proof fn lemma_segment_fills<M: FillModel>(
    cfg: PaperConfig<M>,
    state: GlobalState,
    o: OpenOrder,
    seg: Seq<AccountEvent>,
)
    requires
        resting_events_ok(cfg, state, o, seg),
    ensures
        forall|k: int|
            0 <= k < seg.len() && (#[trigger] seg[k]).is_fill() ==> fill_group(seg[k]) == match o.oco_group {
                Some(g) => Some(g@),
                None => None::<Seq<char>>,
            },
        forall|a: int, b: int|
            0 <= a < b < seg.len() && (#[trigger] seg[a]).is_fill() ==> !(#[trigger] seg[b]).is_fill(),
{
    match resting_outcome(cfg, state, o) {
        Some(Ok(_)) => {
            let entry = state.entry(o.instrument)->0;
            let px = resting_price_of(cfg, entry, o)->Ok_0->0;
            lemma_fill_events_shape(cfg.fee_bps, state, o, entry, px, o.remaining_qty);
        },
        Some(Err(f)) => {
            lemma_rejection_no_fill(seg, state, o, f);
        },
        None => {},
    }
}

/// One step of a poll keeps what it has established.
proof fn lemma_poll_step<M: FillModel>(
    cfg: PaperConfig<M>,
    state: GlobalState,
    inst: crate::config::InstrumentId,
    segs: Seq<Seq<AccountEvent>>,
    out: Seq<AccountEvent>,
    gv: Seq<Seq<char>>,
    seg: Seq<AccountEvent>,
)
    requires
        poll_inv(cfg, state, inst, segs, out, gv),
        segs.len() < state.open_orders@.len(),
        if polled(state.open_orders@[segs.len() as int], inst, gv) {
            resting_events_ok(cfg, state, state.open_orders@[segs.len() as int], seg)
        } else {
            seg == Seq::<AccountEvent>::empty()
        },
    ensures
        poll_inv(
            cfg,
            state,
            inst,
            segs.push(seg),
            out + seg,
            if has_fill(seg) && state.open_orders@[segs.len() as int].oco_group is Some {
                gv.push(state.open_orders@[segs.len() as int].oco_group->0@)
            } else {
                gv
            },
        ),
{
    let orders = state.open_orders@;
    let i = segs.len() as int;
    let o = orders[i];
    let segs2 = segs.push(seg);
    let new_out = out + seg;
    let gnew = if has_fill(seg) && o.oco_group is Some {
        gv.push(o.oco_group->0@)
    } else {
        gv
    };
    assert(segs2.drop_last() =~= segs);
    assert(segs2[i] == seg);
    assert forall|j: int| 0 <= j <= i implies filled_groups(orders, segs2, j) == filled_groups(
        orders,
        segs,
        j,
    ) by {
        lemma_filled_groups_push(orders, segs, seg, j);
    }
    assert(filled_groups(orders, segs2, i + 1) == gnew);
    assert forall|j: int| 0 <= j < segs2.len() implies if polled(
        orders[j],
        inst,
        filled_groups(orders, segs2, j),
    ) {
        resting_events_ok(cfg, state, orders[j], #[trigger] segs2[j])
    } else {
        segs2[j] == Seq::<AccountEvent>::empty()
    } by {
        if j < i {
            assert(segs2[j] == segs[j]);
        }
    }
    if polled(o, inst, gv) {
        lemma_segment_fills(cfg, state, o, seg);
    }
    assert forall|k: int|
        0 <= k < new_out.len() && (#[trigger] fill_group(new_out[k])) is Some implies gnew.contains(
            fill_group(new_out[k])->0,
        ) by {
        let x = fill_group(new_out[k])->0;
        if k < out.len() {
            assert(new_out[k] == out[k]);
            assert(gv.contains(x));
            let j = choose|j: int| 0 <= j < gv.len() && gv[j] == x;
            assert(gnew[j] == x);
        } else {
            assert(new_out[k] == seg[k - out.len()]);
            assert(seg[k - out.len()].is_fill());
            assert(has_fill(seg));
            assert(gnew[gnew.len() - 1] == x);
        }
    }
    assert forall|a: int, b: int|
        0 <= a < b < new_out.len() && #[trigger] fill_group(new_out[a]) is Some implies fill_group(
            new_out[a],
        ) != #[trigger] fill_group(new_out[b]) by {
        if b >= out.len() {
            assert(new_out[b] == seg[b - out.len()]);
            if a >= out.len() {
                assert(new_out[a] == seg[a - out.len()]);
                assert(seg[a - out.len()].is_fill());
            } else {
                assert(new_out[a] == out[a]);
                if fill_group(new_out[a]) == fill_group(new_out[b]) {
                    assert(seg[b - out.len()].is_fill());
                    assert(gv.contains(fill_group(new_out[a])->0));
                }
            }
        } else {
            assert(new_out[a] == out[a]);
            assert(new_out[b] == out[b]);
        }
    }
}

/// `evs` is what a poll of `inst` reports.
pub open spec fn poll_result_ok<M: FillModel>(
    cfg: PaperConfig<M>,
    state: GlobalState,
    inst: crate::config::InstrumentId,
    evs: Seq<AccountEvent>,
) -> bool {
    exists|segs: Seq<Seq<AccountEvent>>|
        poll_segments_ok(cfg, state, inst, segs) && evs == concat_all(segs)
}

/// Cancellation updates are not fills.
proof fn lemma_oco_cancels_no_fill(orders: Seq<OpenOrder>, filled: OpenOrder, n: int)
    ensures
        forall|k: int|
            0 <= k < oco_cancels(orders, filled, n).len() ==> !(
            #[trigger] oco_cancels(orders, filled, n)[k]).is_fill(),
    decreases n,
{
    if n > 0 {
        lemma_oco_cancels_no_fill(orders, filled, n - 1);
        let prev = oco_cancels(orders, filled, n - 1);
        let cur = oco_cancels(orders, filled, n);
        assert forall|k: int| 0 <= k < cur.len() implies !(#[trigger] cur[k]).is_fill() by {
            if k < prev.len() {
                assert(cur[k] == prev[k]);
            }
        }
    }
}

/// The events of an accepted fill hold exactly one fill notice, second, carrying the order's
/// group.
proof fn lemma_fill_events_shape(
    fee_bps: Dec,
    state: GlobalState,
    o: OpenOrder,
    entry: InstrumentState,
    px: Dec,
    qty: Dec,
)
    ensures
        fill_events_of(fee_bps, state, o, entry, px, qty) matches Ok(evs) ==> {
            &&& evs.len() >= 2
            &&& evs[1].is_fill()
            &&& fill_group(evs[1]) == match o.oco_group {
                Some(g) => Some(g@),
                None => None::<Seq<char>>,
            }
            &&& forall|k: int| 0 <= k < evs.len() && k != 1 ==> !(#[trigger] evs[k]).is_fill()
        },
{
    let filled = o.closed_as(OrderStatus::Filled);
    let c = oco_cancels(state.open_orders@, filled, state.open_orders@.len() as int);
    lemma_oco_cancels_no_fill(state.open_orders@, filled, state.open_orders@.len() as int);
    if let Ok(evs) = fill_events_of(fee_bps, state, o, entry, px, qty) {
        let n = notional_of(entry.meta, px, qty)->0;
        let fee = bps_of(n, fee_bps)->0;
        let bal = balance_events_of(state, entry, filled, px, qty, fee)->0;
        let head = seq![update_of(filled), fill_notice(filled, entry.meta, px, qty, fee)];
        assert(evs == head + c + bal);
        assert forall|k: int| 0 <= k < evs.len() && k != 1 implies !(#[trigger] evs[k]).is_fill() by {
            if k < 2 {
                assert(evs[k] == head[k]);
            } else if k < 2 + c.len() {
                assert(evs[k] == c[k - 2]);
            } else {
                assert(evs[k] == bal[k - 2 - c.len()]);
            }
        }
        assert(evs[1] == head[1]);
    }
}

/// A rejection segment holds no fill.
proof fn lemma_rejection_no_fill(seg: Seq<AccountEvent>, state: GlobalState, o: OpenOrder, f: Failure)
    requires
        is_rejection_of(seg, state, o, f),
    ensures
        !has_fill(seg),
{
    assert forall|k: int| 0 <= k < seg.len() implies !(#[trigger] seg[k]).is_fill() by {
        if k == 0 {
        } else {
            assert(k == 1);
        }
    }
}

/// Groups of the first `n` segments do not depend on segments after them.
proof fn lemma_filled_groups_push(
    orders: Seq<OpenOrder>,
    segs: Seq<Seq<AccountEvent>>,
    x: Seq<AccountEvent>,
    n: int,
)
    requires
        0 <= n <= segs.len(),
    ensures
        filled_groups(orders, segs.push(x), n) == filled_groups(orders, segs, n),
    decreases n,
{
    if n > 0 {
        lemma_filled_groups_push(orders, segs, x, n - 1);
        assert(segs.push(x)[n - 1] == segs[n - 1]);
    }
}

/// The views of a sequence of texts.
pub open spec fn text_views(v: Seq<String>) -> Seq<Seq<char>> {
    v.map_values(|s: String| s@)
}

/// Whether `groups` holds a text equal to `g`.
fn groups_contain(groups: &Vec<String>, g: &String) -> (r: bool)
    ensures
        r == text_views(groups@).contains(g@),
{
    let mut i: usize = 0;
    while i < groups.len()
        invariant
            i <= groups@.len(),
            forall|j: int| 0 <= j < i ==> (#[trigger] groups@[j])@ != g@,
        decreases groups@.len() - i,
    {
        if groups[i] == *g {
            assert(text_views(groups@)[i as int] == g@);
            return true;
        }
        i = i + 1;
    }
    proof {
        if text_views(groups@).contains(g@) {
            let j = choose|j: int|
                0 <= j < groups@.len() && #[trigger] text_views(groups@)[j] == g@;
            assert(groups@[j]@ != g@);
        }
    }
    false
}

/// Whether a segment holds a fill notice.
fn any_fill(seg: &Vec<AccountEvent>) -> (r: bool)
    ensures
        r == has_fill(seg@),
{
    let mut i: usize = 0;
    while i < seg.len()
        invariant
            i <= seg@.len(),
            forall|j: int| 0 <= j < i ==> !(#[trigger] seg@[j]).is_fill(),
        decreases seg@.len() - i,
    {
        if seg[i].is_fill_event() {
            assert(seg@[i as int].is_fill());
            return true;
        }
        i = i + 1;
    }
    false
}

impl<M: FillModel> FillEngine<M> {
    /// New fill engine.
    pub fn new(cfg: PaperConfig<M>) -> (r: Self)
        ensures
            r.cfg == cfg,
    {
        FillEngine { cfg }
    }

    /// Fill `o` at `px` for `qty`: check funds, then report the fill and its consequences.
    pub fn emit_fill_events(
        &self,
        state: &GlobalState,
        o: &OpenOrder,
        entry: &InstrumentState,
        px: Dec,
        qty: Dec,
    ) -> (r: Result<Vec<AccountEvent>, Error>)
        requires
            self.cfg.wf(),
            state.wf(),
            entry.wf(),
            px.wf(),
            qty.wf(),
        ensures
            events_are(r, fill_events_of(self.cfg.fee_bps, *state, *o, *entry, px, qty)),
    {
        let meta = &entry.meta;
        let n = match notional(meta, px, qty) {
            Some(v) => v,
            None => {
                return Err(invalid("decimal overflow"));
            },
        };
        let fee = match fee_notional(n, self.cfg.fee_bps) {
            Some(v) => v,
            None => {
                return Err(invalid("decimal overflow"));
            },
        };
        match check_balance_for_fill(state, entry, o.side, px, qty, fee) {
            Ok(()) => {},
            Err(e) => {
                return Err(e);
            },
        }
        let filled = o.close_as(OrderStatus::Filled);
        let mut bal = match balance_updates_after_fill(state, entry, &filled, px, qty, fee) {
            Some(v) => v,
            None => {
                return Err(invalid("decimal overflow"));
            },
        };
        let mut evs: Vec<AccountEvent> = Vec::new();
        evs.push(emit_order_update(&filled));
        evs.push(
            AccountEvent::Fill {
                order_id: filled.id,
                instrument: filled.instrument.clone(),
                side: filled.side,
                price: px,
                qty,
                fee,
                fee_asset: meta.quote.clone(),
                client_order_id: clone_text(&filled.client_order_id),
                oco_group: clone_text(&filled.oco_group),
                strategy_id: clone_text(&filled.strategy_id),
            },
        );
        let mut cancels = oco_cancellations(state, &filled);
        let ghost head = evs@;
        let ghost c = cancels@;
        let ghost b = bal@;
        assert(head =~= seq![update_of(filled), fill_notice(filled, *meta, px, qty, fee)]);
        evs.append(&mut cancels);
        evs.append(&mut bal);
        assert(evs@ =~= head + c + b);
        Ok(evs)
    }

    /// Limit placement: rest, or fill at the touch at once when the limit crosses it.
    pub fn place_limit_sync(&self, state: &GlobalState, intent: &OrderIntent, id: u128) -> (r:
        Result<Vec<AccountEvent>, Error>)
        requires
            self.cfg.wf(),
            state.wf(),
            intent.wf(),
        ensures
            events_are(r, limit_placement_of(self.cfg, *state, *intent, id)),
    {
        if intent.order_type != OrderType::Limit {
            return Err(invalid("place_limit requires limit intent"));
        }
        let k = match locate(state, &intent.instrument) {
            Ok(k) => k,
            Err(e) => {
                return Err(e);
            },
        };
        let entry = &state.instruments[k];
        let (qty, price, _) = match normalize_order(
            &entry.meta,
            intent.qty,
            intent.price,
            intent.stop_price,
        ) {
            Ok(v) => v,
            Err(e) => {
                return Err(e);
            },
        };
        let price = match price {
            Some(p) => p,
            None => {
                return Err(invalid("limit needs price"));
            },
        };
        let o = build_open(id, intent, qty, Some(price), None, OrderType::Limit);
        if let Some((bid, ask)) = entry.l1 {
            if let Some(px) = crossing_limit(&self.cfg.fill_model, intent.side, price, bid, ask) {
                return self.emit_fill_events(state, &o, entry, px, qty);
            }
        }
        let mut v: Vec<AccountEvent> = Vec::new();
        v.push(emit_order_update(&o));
        proof {
            assert(v@ =~= seq![update_of(o)]);
        }
        Ok(v)
    }

    /// Market placement: fill at once at the reference price moved by the slippage.
    pub fn place_market_sync(&self, state: &GlobalState, intent: &OrderIntent, id: u128) -> (r:
        Result<Vec<AccountEvent>, Error>)
        requires
            self.cfg.wf(),
            state.wf(),
            intent.wf(),
        ensures
            events_are(r, market_placement_of(self.cfg, *state, *intent, id)),
    {
        let k = match locate(state, &intent.instrument) {
            Ok(k) => k,
            Err(e) => {
                return Err(e);
            },
        };
        let entry = &state.instruments[k];
        let (qty, _, _) = match normalize_order(
            &entry.meta,
            intent.qty,
            intent.price,
            intent.stop_price,
        ) {
            Ok(v) => v,
            Err(e) => {
                return Err(e);
            },
        };
        let reference = match market_reference(entry, intent.side) {
            Some(p) => p,
            None => {
                return Err(invalid("no mid/last for market order"));
            },
        };
        let px = match apply_slippage(intent.side, reference, self.cfg.market_slippage_bps) {
            Some(p) => p,
            None => {
                return Err(invalid("decimal overflow"));
            },
        };
        let o = build_open(id, intent, qty, None, None, OrderType::Market);
        self.emit_fill_events(state, &o, entry, px, qty)
    }

    /// Cancel one working order.
    pub fn cancel_sync(&self, state: &GlobalState, order_id: u128) -> (r: Result<
        Vec<AccountEvent>,
        Error,
    >)
        ensures
            events_are(r, cancel_of(*state, order_id)),
    {
        proof {
            lemma_find_order(state.open_orders@, order_id, 0);
        }
        match state.order_index(order_id) {
            Some(k) => {
                let c = state.open_orders[k].close_as(OrderStatus::Canceled);
                let mut v: Vec<AccountEvent> = Vec::new();
                v.push(emit_order_update(&c));
                proof {
                    assert(v@ =~= seq![update_of(c)]);
                }
                Ok(v)
            },
            None => Err(invalid("unknown order")),
        }
    }

    /// Cancel every working order, in book order.
    pub fn cancel_all_sync(&self, state: &GlobalState) -> (r: Result<Vec<AccountEvent>, Error>)
        ensures
            r matches Ok(v) && v@ == state.open_orders@.map_values(|o: OpenOrder| cancel_update(o)),
    {
        let mut out: Vec<AccountEvent> = Vec::new();
        let mut i: usize = 0;
        while i < state.open_orders.len()
            invariant
                i <= state.open_orders@.len(),
                out@ == state.open_orders@.subrange(0, i as int).map_values(
                    |o: OpenOrder| cancel_update(o),
                ),
            decreases state.open_orders@.len() - i,
        {
            let c = state.open_orders[i].close_as(OrderStatus::Canceled);
            out.push(emit_order_update(&c));
            i = i + 1;
            assert(out@ =~= state.open_orders@.subrange(0, i as int).map_values(
                |o: OpenOrder| cancel_update(o),
            ));
        }
        assert(state.open_orders@.subrange(0, state.open_orders@.len() as int) =~= state.open_orders@);
        Ok(out)
    }

    /// Stop-market placement: rest until a bar reaches the stop; fill at once when the last
    /// bar already did.
    pub fn place_stop_market_sync(&self, state: &GlobalState, intent: &OrderIntent, id: u128) -> (r:
        Result<Vec<AccountEvent>, Error>)
        requires
            self.cfg.wf(),
            state.wf(),
            intent.wf(),
        ensures
            events_are(r, stop_market_placement_of(self.cfg, *state, *intent, id)),
    {
        if intent.order_type != OrderType::StopMarket {
            return Err(invalid("place_stop_market requires StopMarket"));
        }
        let k = match locate(state, &intent.instrument) {
            Ok(k) => k,
            Err(e) => {
                return Err(e);
            },
        };
        let entry = &state.instruments[k];
        let stop = match intent.stop_price {
            Some(s) => s,
            None => match intent.price {
                Some(p) => p,
                None => {
                    return Err(invalid("stop market needs stop_price"));
                },
            },
        };
        let (qty, _, sp) = match normalize_order(&entry.meta, intent.qty, intent.price, Some(stop)) {
            Ok(v) => v,
            Err(e) => {
                return Err(e);
            },
        };
        let stop_price = match sp {
            Some(v) => v,
            None => {
                return Err(invalid("decimal overflow"));
            },
        };
        let o = build_open(id, intent, qty, None, Some(stop_price), OrderType::StopMarket);
        if let Some((high, low)) = entry.bar {
            if stop_triggered(intent.side, stop_price, high, low) {
                let reference = match market_reference(entry, intent.side) {
                    Some(p) => p,
                    None => {
                        return Err(invalid("no mid for stop market fill"));
                    },
                };
                let px = match apply_slippage(intent.side, reference, self.cfg.market_slippage_bps) {
                    Some(p) => p,
                    None => {
                        return Err(invalid("decimal overflow"));
                    },
                };
                return self.emit_fill_events(state, &o, entry, px, qty);
            }
        }
        let mut v: Vec<AccountEvent> = Vec::new();
        v.push(emit_order_update(&o));
        proof {
            assert(v@ =~= seq![update_of(o)]);
        }
        Ok(v)
    }

    /// Stop-limit placement: rest until triggered; fill at the touch at once when the last bar
    /// already reached the stop and the limit crosses.
    pub fn place_stop_limit_sync(&self, state: &GlobalState, intent: &OrderIntent, id: u128) -> (r:
        Result<Vec<AccountEvent>, Error>)
        requires
            self.cfg.wf(),
            state.wf(),
            intent.wf(),
        ensures
            events_are(r, stop_limit_placement_of(self.cfg, *state, *intent, id)),
    {
        if intent.order_type != OrderType::StopLimit {
            return Err(invalid("place_stop_limit requires StopLimit"));
        }
        let k = match locate(state, &intent.instrument) {
            Ok(k) => k,
            Err(e) => {
                return Err(e);
            },
        };
        let entry = &state.instruments[k];
        let limit = match intent.price {
            Some(p) => p,
            None => {
                return Err(invalid("stop limit needs limit price"));
            },
        };
        let stop = match intent.stop_price {
            Some(p) => p,
            None => {
                return Err(invalid("stop limit needs stop_price"));
            },
        };
        let (qty, p, sp) = match normalize_order(&entry.meta, intent.qty, Some(limit), Some(stop)) {
            Ok(v) => v,
            Err(e) => {
                return Err(e);
            },
        };
        let (price, stop_price) = match (p, sp) {
            (Some(a), Some(b)) => (a, b),
            _ => {
                return Err(invalid("decimal overflow"));
            },
        };
        let o = build_open(id, intent, qty, Some(price), Some(stop_price), OrderType::StopLimit);
        if let Some((high, low)) = entry.bar {
            if stop_triggered(intent.side, stop_price, high, low) {
                if let Some((bid, ask)) = entry.l1 {
                    if let Some(px) = crossing_limit(
                        &self.cfg.fill_model,
                        intent.side,
                        price,
                        bid,
                        ask,
                    ) {
                        return self.emit_fill_events(state, &o, entry, px, qty);
                    }
                }
            }
        }
        let mut v: Vec<AccountEvent> = Vec::new();
        v.push(emit_order_update(&o));
        proof {
            assert(v@ =~= seq![update_of(o)]);
        }
        Ok(v)
    }

    /// Fill price of a resting limit.
    fn resting_limit_price(&self, entry: &InstrumentState, o: &OpenOrder) -> (r: Option<Dec>)
        requires
            entry.wf(),
            o.wf(),
        ensures
            r == resting_limit_of(self.cfg.fill_model, *entry, *o),
            r matches Some(v) ==> v.wf(),
    {
        let limit = match o.price {
            Some(p) => p,
            None => {
                return None;
            },
        };
        let touched = match entry.bar {
            Some((high, low)) => match o.side {
                Side::Buy => dec_le(low, limit),
                Side::Sell => dec_le(limit, high),
            },
            None => false,
        };
        if touched {
            return Some(limit);
        }
        match entry.l1 {
            Some((bid, ask)) => crossing_limit(&self.cfg.fill_model, o.side, limit, bid, ask),
            None => None,
        }
    }

    /// Fill price of a resting stop-market.
    fn resting_stop_market_price(&self, entry: &InstrumentState, o: &OpenOrder) -> (r: Result<
        Option<Dec>,
        Error,
    >)
        requires
            self.cfg.wf(),
            entry.wf(),
            o.wf(),
        ensures
            outcome_is(r, resting_stop_market_of(self.cfg.market_slippage_bps, *entry, *o)),
            r matches Ok(Some(px)) ==> px.wf(),
    {
        let (stop, high, low) = match (o.stop_price, entry.bar) {
            (Some(stop), Some((high, low))) => (stop, high, low),
            _ => {
                return Ok(None);
            },
        };
        if !stop_triggered(o.side, stop, high, low) {
            return Ok(None);
        }
        let reference = match market_reference(entry, o.side) {
            Some(p) => p,
            None => {
                return Ok(None);
            },
        };
        match apply_slippage(o.side, reference, self.cfg.market_slippage_bps) {
            Some(px) => Ok(Some(px)),
            None => Err(invalid("decimal overflow")),
        }
    }

    /// Fill price of a resting stop-limit.
    fn resting_stop_limit_price(&self, entry: &InstrumentState, o: &OpenOrder) -> (r: Option<Dec>)
        requires
            entry.wf(),
            o.wf(),
        ensures
            r == resting_stop_limit_of(self.cfg.fill_model, *entry, *o),
            r matches Some(v) ==> v.wf(),
    {
        match (o.stop_price, o.price, entry.bar, entry.l1) {
            (Some(stop), Some(limit), Some((high, low)), Some((bid, ask))) => {
                if stop_triggered(o.side, stop, high, low) {
                    crossing_limit(&self.cfg.fill_model, o.side, limit, bid, ask)
                } else {
                    None
                }
            },
            _ => None,
        }
    }

    /// Evaluate one resting order against the current market data: its fill events, its
    /// rejection when the fill is refused, or nothing.
    pub fn try_fill_resting(&self, state: &GlobalState, o: &OpenOrder) -> (r: Vec<AccountEvent>)
        requires
            self.cfg.wf(),
            state.wf(),
            o.wf(),
        ensures
            resting_events_ok(self.cfg, *state, *o, r@),
    {
        proof {
            lemma_find_instrument(state.instruments@, o.instrument, 0);
        }
        let k = match state.instrument_index(&o.instrument) {
            Some(k) => k,
            None => {
                return Vec::new();
            },
        };
        let entry = &state.instruments[k];
        let price = match o.order_type {
            OrderType::Limit => Ok(self.resting_limit_price(entry, o)),
            OrderType::StopMarket => self.resting_stop_market_price(entry, o),
            OrderType::StopLimit => Ok(self.resting_stop_limit_price(entry, o)),
            OrderType::Market => Ok(None),
        };
        match price {
            Ok(Some(px)) => match self.emit_fill_events(state, o, entry, px, o.remaining_qty) {
                Ok(evs) => evs,
                Err(e) => {
                    let seg = reject_resting_order(state, o, &e);
                    seg
                },
            },
            Ok(None) => Vec::new(),
            Err(e) => reject_resting_order(state, o, &e),
        }
    }

    /// Passive fills on the instrument that just ticked: every working order on it is
    /// evaluated in book order, except that once an order of a one-cancels-other group fills,
    /// the rest of its group is skipped.
    pub fn poll_after_market_instrument_sync(
        &self,
        state: &GlobalState,
        instrument: &crate::config::InstrumentId,
    ) -> (r: Result<Vec<AccountEvent>, Error>)
        requires
            self.cfg.wf(),
            state.wf(),
        ensures
            r matches Ok(v) && poll_result_ok(self.cfg, *state, *instrument, v@),
            r matches Ok(v) && one_fill_per_group(v@),
    {
        let mut out: Vec<AccountEvent> = Vec::new();
        let mut groups: Vec<String> = Vec::new();
        let ghost mut segs: Seq<Seq<AccountEvent>> = Seq::empty();
        proof {
            assert(text_views(groups@) =~= Seq::<Seq<char>>::empty());
        }
        let mut i: usize = 0;
        while i < state.open_orders.len()
            invariant
                self.cfg.wf(),
                state.wf(),
                segs.len() == i,
                poll_inv(self.cfg, *state, *instrument, segs, out@, text_views(groups@)),
            decreases state.open_orders@.len() - i,
        {
            let o = &state.open_orders[i];
            let ghost gv = text_views(groups@);
            let skip = if !o.instrument.same_as(instrument) {
                true
            } else {
                match &o.oco_group {
                    Some(g) => groups_contain(&groups, g),
                    None => false,
                }
            };
            assert(skip == !polled(*o, *instrument, gv));
            let mut seg = if skip {
                Vec::new()
            } else {
                self.try_fill_resting(state, o)
            };
            let fill = any_fill(&seg);
            if fill {
                match &o.oco_group {
                    Some(g) => {
                        groups.push(g.clone());
                    },
                    None => {},
                }
            }
            proof {
                assert(text_views(groups@) =~= if has_fill(seg@) && o.oco_group is Some {
                    gv.push(o.oco_group->0@)
                } else {
                    gv
                });
                lemma_poll_step(self.cfg, *state, *instrument, segs, out@, gv, seg@);
                segs = segs.push(seg@);
            }
            out.append(&mut seg);
            i = i + 1;
        }
        Ok(out)
    }

    /// Passive fills after market data across the book: each registered instrument is polled
    /// in registry order.
    pub fn poll_after_market_sync(&self, state: &GlobalState) -> (r: Result<Vec<AccountEvent>, Error>)
        requires
            self.cfg.wf(),
            state.wf(),
        ensures
            r matches Ok(v) && (exists|parts: Seq<Seq<AccountEvent>>|
                parts.len() == state.instruments@.len() && v@ == concat_all(parts) && (forall|
                    i: int,
                | 0 <= i < parts.len() ==> poll_result_ok(
                    self.cfg,
                    *state,
                    state.instruments@[i].id,
                    #[trigger] parts[i],
                ))),
    {
        let mut out: Vec<AccountEvent> = Vec::new();
        let ghost mut parts: Seq<Seq<AccountEvent>> = Seq::empty();
        let mut i: usize = 0;
        while i < state.instruments.len()
            invariant
                self.cfg.wf(),
                state.wf(),
                parts.len() == i,
                i <= state.instruments@.len(),
                out@ == concat_all(parts),
                forall|j: int|
                    0 <= j < i ==> poll_result_ok(
                        self.cfg,
                        *state,
                        state.instruments@[j].id,
                        #[trigger] parts[j],
                    ),
            decreases state.instruments@.len() - i,
        {
            let mut part = match self.poll_after_market_instrument_sync(
                state,
                &state.instruments[i].id,
            ) {
                Ok(v) => v,
                Err(e) => {
                    return Err(e);
                },
            };
            proof {
                let parts2 = parts.push(part@);
                assert(parts2.drop_last() =~= parts);
                assert forall|j: int| 0 <= j < i + 1 implies poll_result_ok(
                    self.cfg,
                    *state,
                    state.instruments@[j].id,
                    #[trigger] parts2[j],
                ) by {
                    if j < i {
                        assert(parts2[j] == parts[j]);
                    }
                }
                parts = parts2;
            }
            out.append(&mut part);
            i = i + 1;
        }
        Ok(out)
    }
}

} // verus!
