//! Report rows: data sources, final positions and pending orders.

use crate::config::{DataFormat, InstrumentId};
use crate::decimal::{
    abs_dec, dec_checked_add, dec_checked_mul, dec_parse, dec_to_string, decimal_parse,
    decimal_text, has_value, lemma_checked_add_after, lemma_pow10_zero, lemma_scaled_value,
    opt_dec, pair_plus, prod_of, representable, scaled_up_to, sum_of, zero_dec, Dec,
};
use crate::events::FillRecord;
use crate::state::lemma_find_instrument;
use crate::events::OrderIntent;
use crate::orders::{clone_text, opt_wf, OpenOrder, OrderType, Side};
use crate::state::GlobalState;
use vstd::prelude::*;

verus! {

/// One configured historical source.
#[derive(Debug)]
pub struct DataSourceMetadata {
    pub instrument: InstrumentId,
    pub path: Option<String>,
    pub manifest_path: Option<String>,
    /// Raw or adjusted materialization policy read from the adjacent manifest.
    pub adjustment_mode: Option<String>,
    pub format: String,
}

/// Final net position for one registered instrument.
#[derive(Debug)]
pub struct FinalPosition {
    pub instrument: InstrumentId,
    /// Net quantity as decimal text.
    pub qty: String,
}

/// Working venue order, or accepted bar order awaiting the next market update.
#[derive(Debug)]
pub struct PendingOrder {
    pub order_id: Option<u128>,
    pub instrument: InstrumentId,
    pub side: Side,
    pub order_type: OrderType,
    pub qty: String,
    pub price: Option<String>,
    pub stop_price: Option<String>,
    pub client_order_id: Option<String>,
    pub oco_group: Option<String>,
    pub strategy_id: Option<String>,
    /// `working` or `awaiting_next_market`.
    pub state: String,
}

/// The text of a decimal.
pub open spec fn dec_text(d: Dec) -> Seq<char> {
    decimal_text(d.parts())
}

/// The text of an optional decimal.
pub open spec fn opt_dec_text(d: Option<Dec>) -> Option<Seq<char>> {
    match d {
        Some(x) => Some(dec_text(x)),
        None => None,
    }
}

/// The view of an optional text.
pub open spec fn opt_view(t: Option<String>) -> Option<Seq<char>> {
    match t {
        Some(s) => Some(s@),
        None => None,
    }
}

/// The text of an optional decimal.
fn opt_dec_string(d: Option<Dec>) -> (r: Option<String>)
    requires
        opt_wf(d),
    ensures
        opt_view(r) == opt_dec_text(d),
{
    match d {
        Some(x) => Some(dec_to_string(x)),
        None => None,
    }
}

/// `p` reports the working order `o`.
pub open spec fn reports_order(p: PendingOrder, o: OpenOrder) -> bool {
    &&& p.order_id == Some(o.id)
    &&& p.instrument == o.instrument
    &&& p.side == o.side
    &&& p.order_type == o.order_type
    &&& p.qty@ == dec_text(o.remaining_qty)
    &&& opt_view(p.price) == opt_dec_text(o.price)
    &&& opt_view(p.stop_price) == opt_dec_text(o.stop_price)
    &&& p.client_order_id == o.client_order_id
    &&& p.oco_group == o.oco_group
    &&& p.strategy_id == o.strategy_id
    &&& p.state@ == "working"@
}

/// `p` reports the deferred intent `i`.
pub open spec fn reports_intent(p: PendingOrder, i: OrderIntent) -> bool {
    &&& p.order_id.is_none()
    &&& p.instrument == i.instrument
    &&& p.side == i.side
    &&& p.order_type == i.order_type
    &&& p.qty@ == dec_text(i.qty)
    &&& opt_view(p.price) == opt_dec_text(i.price)
    &&& opt_view(p.stop_price) == opt_dec_text(i.stop_price)
    &&& p.client_order_id == i.client_order_id
    &&& p.oco_group == i.oco_group
    &&& p.strategy_id == i.strategy_id
    &&& p.state@ == "awaiting_next_market"@
}

/// Pending orders for the report: the working orders in book order, then the deferred intents
/// in the order they were accepted.
pub fn report_pending_orders(state: &GlobalState, deferred: &Vec<OrderIntent>) -> (r: Vec<PendingOrder>)
    requires
        state.wf(),
        forall|k: int| 0 <= k < deferred@.len() ==> (#[trigger] deferred@[k]).wf(),
    ensures
        r@.len() == state.open_orders@.len() + deferred@.len(),
        forall|k: int|
            0 <= k < state.open_orders@.len() ==> reports_order(
                #[trigger] r@[k],
                state.open_orders@[k],
            ),
        forall|k: int|
            0 <= k < deferred@.len() ==> reports_intent(
                #[trigger] r@[state.open_orders@.len() + k],
                deferred@[k],
            ),
{
    let mut out: Vec<PendingOrder> = Vec::new();
    let n = state.open_orders.len();
    let mut i: usize = 0;
    while i < n
        invariant
            n == state.open_orders@.len(),
            state.wf(),
            i <= n,
            out@.len() == i,
            forall|k: int| 0 <= k < i ==> reports_order(#[trigger] out@[k], state.open_orders@[k]),
        decreases n - i,
    {
        let o = &state.open_orders[i];
        assert(state.open_orders@[i as int].wf());
        out.push(
            PendingOrder {
                order_id: Some(o.id),
                instrument: o.instrument.clone(),
                side: o.side,
                order_type: o.order_type,
                qty: dec_to_string(o.remaining_qty),
                price: opt_dec_string(o.price),
                stop_price: opt_dec_string(o.stop_price),
                client_order_id: clone_text(&o.client_order_id),
                oco_group: clone_text(&o.oco_group),
                strategy_id: clone_text(&o.strategy_id),
                state: "working".to_owned(),
            },
        );
        i = i + 1;
    }
    let mut j: usize = 0;
    while j < deferred.len()
        invariant
            n == state.open_orders@.len(),
            j <= deferred@.len(),
            out@.len() == n + j,
            forall|k: int| 0 <= k < deferred@.len() ==> (#[trigger] deferred@[k]).wf(),
            forall|k: int| 0 <= k < n ==> reports_order(#[trigger] out@[k], state.open_orders@[k]),
            forall|k: int| 0 <= k < j ==> reports_intent(#[trigger] out@[n + k], deferred@[k]),
        decreases deferred@.len() - j,
    {
        let d = &deferred[j];
        assert(deferred@[j as int].wf());
        out.push(
            PendingOrder {
                order_id: None,
                instrument: d.instrument.clone(),
                side: d.side,
                order_type: d.order_type,
                qty: dec_to_string(d.qty),
                price: opt_dec_string(d.price),
                stop_price: opt_dec_string(d.stop_price),
                client_order_id: clone_text(&d.client_order_id),
                oco_group: clone_text(&d.oco_group),
                strategy_id: clone_text(&d.strategy_id),
                state: "awaiting_next_market".to_owned(),
            },
        );
        j = j + 1;
        assert(out@[n + (j - 1)] == out@[(n + j - 1) as int]);
    }
    out
}

/// Final positions for the report: every registered instrument, in registry order.
pub fn report_final_positions(state: &GlobalState) -> (r: Vec<FinalPosition>)
    requires
        state.wf(),
    ensures
        r@.len() == state.instruments@.len(),
        forall|k: int|
            0 <= k < r@.len() ==> (#[trigger] r@[k]).instrument == state.instruments@[k].id
                && r@[k].qty@ == dec_text(state.instruments@[k].position),
{
    let mut out: Vec<FinalPosition> = Vec::new();
    let mut i: usize = 0;
    while i < state.instruments.len()
        invariant
            state.wf(),
            i <= state.instruments@.len(),
            out@.len() == i,
            forall|k: int|
                0 <= k < i ==> (#[trigger] out@[k]).instrument == state.instruments@[k].id
                    && out@[k].qty@ == dec_text(state.instruments@[k].position),
        decreases state.instruments@.len() - i,
    {
        assert(state.instruments@[i as int].wf());
        out.push(
            FinalPosition {
                instrument: state.instruments[i].id.clone(),
                qty: dec_to_string(state.instruments[i].position),
            },
        );
        i = i + 1;
    }
    out
}

/// Lower-case name of a data format.
pub open spec fn format_name(f: DataFormat) -> Seq<char> {
    match f {
        DataFormat::Auto => "auto"@,
        DataFormat::Ohlcv => "ohlcv"@,
        DataFormat::Fx => "fx"@,
        DataFormat::Jsonl => "jsonl"@,
    }
}

/// Lower-case name of a data format, as reports print it.
pub fn data_format_name(format: DataFormat) -> (r: &'static str)
    ensures
        r@ == format_name(format),
{
    match format {
        DataFormat::Auto => "auto",
        DataFormat::Ohlcv => "ohlcv",
        DataFormat::Fx => "fx",
        DataFormat::Jsonl => "jsonl",
    }
}


/// One as a decimal of scale 0.
pub open spec fn unit_dec() -> Dec {
    Dec { mantissa: 1, scale: 0 }
}

/// The contract multiplier the registry gives an instrument, one when it gives none.
pub open spec fn registry_multiplier(state: GlobalState, id: InstrumentId) -> Dec {
    match state.entry(id) {
        Some(e) => match e.meta.contract_multiplier {
            Some(m) => m,
            None => unit_dec(),
        },
        None => unit_dec(),
    }
}

/// The fee of a fill when its text reads as a decimal.
pub open spec fn fill_fee(f: FillRecord) -> Option<Dec> {
    opt_dec(decimal_parse(f.fee@))
}

/// The traded notional of a fill, `|price| * |qty| * multiplier`: `Some(None)` when the price
/// or quantity text does not read (the fill is left out), `None` when a product overflows.
pub open spec fn fill_notional(f: FillRecord, state: GlobalState) -> Option<Option<Dec>> {
    match (opt_dec(decimal_parse(f.price@)), opt_dec(decimal_parse(f.qty@))) {
        (Some(p), Some(q)) => match prod_of(abs_dec(p), abs_dec(q)) {
            Some(pq) => match prod_of(pq, registry_multiplier(state, f.instrument)) {
                Some(v) => Some(Some(v)),
                None => None,
            },
            None => None,
        },
        _ => Some(None),
    }
}

/// The fees of the first `n` fills added up from zero in order (fees that do not read are
/// left out); `None` when a partial sum overflows.
pub open spec fn fees_total(fills: Seq<FillRecord>, n: nat) -> Option<Dec>
    decreases n,
{
    if n == 0 {
        Some(zero_dec())
    } else {
        match fees_total(fills, (n - 1) as nat) {
            None => None,
            Some(acc) => match fill_fee(fills[n - 1]) {
                None => Some(acc),
                Some(fee) => sum_of(acc, fee),
            },
        }
    }
}

/// The notionals of the first `n` fills added up from zero in order; `None` when a product or
/// a partial sum overflows.
pub open spec fn turnover_total(fills: Seq<FillRecord>, state: GlobalState, n: nat) -> Option<Dec>
    decreases n,
{
    if n == 0 {
        Some(zero_dec())
    } else {
        match turnover_total(fills, state, (n - 1) as nat) {
            None => None,
            Some(acc) => match fill_notional(fills[n - 1], state) {
                None => None,
                Some(None) => Some(acc),
                Some(Some(v)) => sum_of(acc, v),
            },
        }
    }
}

/// Total fees and turnover of the fills, or `None` when either overflows the decimal range.
pub open spec fn costs_of(fills: Seq<FillRecord>, state: GlobalState) -> Option<(Dec, Dec)> {
    match (fees_total(fills, fills.len()), turnover_total(fills, state, fills.len())) {
        (Some(fees), Some(turnover)) => Some((fees, turnover)),
        _ => None,
    }
}

/// The fees of the first `n` fills added up without rounding, as an exact mantissa/scale
/// pair (fees that do not read are left out); `None` when a partial sum does not fit a decimal.
pub open spec fn exact_fees_total(fills: Seq<FillRecord>, n: nat) -> Option<(int, nat)>
    decreases n,
{
    if n == 0 {
        Some((0, 0))
    } else {
        match exact_fees_total(fills, (n - 1) as nat) {
            None => None,
            Some(acc) => match fill_fee(fills[n - 1]) {
                None => Some(acc),
                Some(fee) => if representable(pair_plus(acc, fee)) {
                    Some(pair_plus(acc, fee))
                } else {
                    None
                },
            },
        }
    }
}

/// The contract multiplier of an instrument in the registry, one when none is set.
fn multiplier_for(state: &GlobalState, id: &InstrumentId) -> (r: Dec)
    requires
        state.wf(),
    ensures
        r == registry_multiplier(*state, *id),
        r.wf(),
{
    match state.instrument_index(id) {
        Some(k) => {
            proof {
                lemma_find_instrument(state.instruments@, *id, 0);
                assert(state.instruments@[k as int].wf());
            }
            match state.instruments[k].meta.contract_multiplier {
                Some(m) => m,
                None => Dec::new(1, 0),
            }
        },
        None => Dec::new(1, 0),
    }
}

/// Total fees and traded notional of the fills, added up in fill order. A fee, price or
/// quantity whose text does not read leaves that fill out of the respective total; `None`
/// when a product or a sum leaves the decimal range.
pub fn report_costs(fills: &Vec<FillRecord>, state: &GlobalState) -> (r: Option<(Dec, Dec)>)
    requires
        state.wf(),
    ensures
        r == costs_of(fills@, *state),
        r matches Some((a, b)) ==> a.wf() && b.wf(),
        r is Some && exact_fees_total(fills@, fills@.len()) is Some ==> has_value(
            r->Some_0.0,
            exact_fees_total(fills@, fills@.len())->Some_0,
        ),
{
    let mut fees = Dec::zero();
    let mut i: usize = 0;
    proof {
        lemma_pow10_zero();
    }
    while i < fills.len()
        invariant
            i <= fills@.len(),
            fees_total(fills@, i as nat) == Some(fees),
            fees.wf(),
            exact_fees_total(fills@, i as nat) matches Some(e) ==> scaled_up_to(fees, e),
        decreases fills@.len() - i,
    {
        match dec_parse(fills[i].fee.as_str()) {
            Some(fee) => match dec_checked_add(fees, fee) {
                Some(s) => {
                    proof {
                        if exact_fees_total(fills@, (i + 1) as nat) is Some {
                            let e = exact_fees_total(fills@, i as nat)->Some_0;
                            lemma_checked_add_after(fees, e, fee, Some(s));
                        }
                    }
                    fees = s;
                },
                None => {
                    proof {
                        lemma_costs_stay_none(fills@, *state, (i + 1) as nat);
                    }
                    return None;
                },
            },
            None => {},
        }
        i = i + 1;
    }
    let mut turnover = Dec::zero();
    let mut j: usize = 0;
    while j < fills.len()
        invariant
            j <= fills@.len(),
            state.wf(),
            turnover_total(fills@, *state, j as nat) == Some(turnover),
            fees_total(fills@, fills@.len()) == Some(fees),
            turnover.wf(),
        decreases fills@.len() - j,
    {
        let f = &fills[j];
        match (dec_parse(f.price.as_str()), dec_parse(f.qty.as_str())) {
            (Some(p), Some(q)) => {
                let m = multiplier_for(state, &f.instrument);
                let v = match dec_checked_mul(p.abs(), q.abs()) {
                    Some(pq) => match dec_checked_mul(pq, m) {
                        Some(v) => v,
                        None => {
                            proof {
                                lemma_costs_stay_none(fills@, *state, (j + 1) as nat);
                            }
                            return None;
                        },
                    },
                    None => {
                        proof {
                            lemma_costs_stay_none(fills@, *state, (j + 1) as nat);
                        }
                        return None;
                    },
                };
                match dec_checked_add(turnover, v) {
                    Some(s) => {
                        turnover = s;
                    },
                    None => {
                        proof {
                            lemma_costs_stay_none(fills@, *state, (j + 1) as nat);
                        }
                        return None;
                    },
                }
            },
            _ => {},
        }
        j = j + 1;
    }
    proof {
        if exact_fees_total(fills@, fills@.len()) is Some {
            lemma_scaled_value(fees, exact_fees_total(fills@, fills@.len())->Some_0);
        }
    }
    Some((fees, turnover))
}

/// An overflow in a prefix makes the whole total overflow.
proof fn lemma_costs_stay_none(fills: Seq<FillRecord>, state: GlobalState, n: nat)
    requires
        n <= fills.len(),
    ensures
        fees_total(fills, n) is None ==> fees_total(fills, fills.len()) is None,
        turnover_total(fills, state, n) is None ==> turnover_total(fills, state, fills.len())
            is None,
    decreases fills.len() - n,
{
    if n < fills.len() {
        lemma_costs_stay_none(fills, state, n + 1);
    }
}

} // verus!
