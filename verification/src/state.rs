//! The slice of engine state that execution reads: instrument metadata, per-instrument market
//! and position data, free balances and the working orders.

use crate::config::{AssetClass, InstrumentId, OptionKind};
use crate::decimal::{zero_dec, Dec};
use crate::orders::{opt_wf, OpenOrder};
use vstd::prelude::*;

verus! {

/// Contract and trading metadata of an instrument.
#[derive(Debug)]
pub struct InstrumentMeta {
    pub base: String,
    pub quote: String,
    pub asset_class: AssetClass,
    pub tick_size: Option<Dec>,
    pub lot_size: Option<Dec>,
    pub contract_multiplier: Option<Dec>,
    pub margin_initial_rate: Option<Dec>,
    /// Expiry date text of a dated contract.
    pub expiry: Option<String>,
    /// Call or put, for options.
    pub option_kind: Option<OptionKind>,
    /// Strike price, for options.
    pub option_strike: Option<Dec>,
    /// The instrument an option is written on.
    pub option_underlying: Option<InstrumentId>,
    /// Face value of a bond.
    pub face_value: Option<Dec>,
    /// Annual coupon rate of a bond.
    pub coupon_rate: Option<Dec>,
    /// Coupon payments per year of a bond.
    pub coupon_payments_per_year: Option<u32>,
    /// Maturity date text of a dated instrument.
    pub maturity: Option<String>,
}

impl InstrumentMeta {
    pub open spec fn wf(self) -> bool {
        &&& opt_wf(self.tick_size)
        &&& opt_wf(self.lot_size)
        &&& opt_wf(self.contract_multiplier)
        &&& opt_wf(self.margin_initial_rate)
        &&& opt_wf(self.option_strike)
        &&& opt_wf(self.face_value)
        &&& opt_wf(self.coupon_rate)
    }

    /// Spot metadata: base and quote assets, no tick, lot or contract terms.
    pub fn spot(base: &str, quote: &str) -> (r: InstrumentMeta)
        ensures
            r.base@ == base@,
            r.quote@ == quote@,
            r.asset_class == AssetClass::Crypto,
            r.tick_size.is_none(),
            r.lot_size.is_none(),
            r.contract_multiplier.is_none(),
            r.margin_initial_rate.is_none(),
            r.expiry.is_none(),
            r.option_kind.is_none(),
            r.option_strike.is_none(),
            r.option_underlying.is_none(),
            r.face_value.is_none(),
            r.coupon_rate.is_none(),
            r.coupon_payments_per_year.is_none(),
            r.maturity.is_none(),
            r.wf(),
    {
        InstrumentMeta {
            base: base.to_owned(),
            quote: quote.to_owned(),
            asset_class: AssetClass::Crypto,
            tick_size: None,
            lot_size: None,
            contract_multiplier: None,
            margin_initial_rate: None,
            expiry: None,
            option_kind: None,
            option_strike: None,
            option_underlying: None,
            face_value: None,
            coupon_rate: None,
            coupon_payments_per_year: None,
            maturity: None,
        }
    }
}

/// A pair of optional decimals is well formed when present.
pub open spec fn pair_wf(p: Option<(Dec, Dec)>) -> bool {
    match p {
        Some((a, b)) => a.wf() && b.wf(),
        None => true,
    }
}

/// One registered instrument with what the engine knows of it.
#[derive(Debug)]
pub struct InstrumentState {
    pub id: InstrumentId,
    pub meta: InstrumentMeta,
    /// Net position (signed base quantity).
    pub position: Dec,
    pub average_entry_price: Option<Dec>,
    /// Best bid and ask, when a quote has been seen.
    pub l1: Option<(Dec, Dec)>,
    /// High and low of the last bar, when a bar has been seen.
    pub bar: Option<(Dec, Dec)>,
    /// Mid of the quote or last traded price, when known.
    pub mid_or_last: Option<Dec>,
}

impl InstrumentState {
    pub open spec fn wf(self) -> bool {
        &&& self.meta.wf()
        &&& self.position.wf()
        &&& opt_wf(self.average_entry_price)
        &&& pair_wf(self.l1)
        &&& pair_wf(self.bar)
        &&& opt_wf(self.mid_or_last)
    }
}

/// Free balance of one asset.
#[derive(Debug)]
pub struct Balance {
    pub asset: String,
    pub free: Dec,
}

/// Whether algorithmic trading is on.
#[derive(Clone, Copy, Debug, PartialEq, Eq, Structural)]
pub enum TradingState {
    Enabled,
    Disabled,
}

/// Instruments, balances, working orders and the operator switches.
#[derive(Debug)]
pub struct GlobalState {
    pub instruments: Vec<InstrumentState>,
    pub balances: Vec<Balance>,
    pub open_orders: Vec<OpenOrder>,
    /// Time of the last processed event, in Unix nanoseconds.
    pub last_event_ts: Option<i128>,
    /// Operator pause: new strategy orders are held back.
    pub paused: bool,
    pub trading_state: TradingState,
}

/// First index at or after `i` of the instrument `id`.
pub open spec fn find_instrument(s: Seq<InstrumentState>, id: InstrumentId, i: int) -> Option<int>
    decreases s.len() - i,
{
    if i < 0 || i >= s.len() {
        None
    } else if s[i].id.same(id) {
        Some(i)
    } else {
        find_instrument(s, id, i + 1)
    }
}

/// First index at or after `i` of a balance of `asset`.
pub open spec fn find_balance(s: Seq<Balance>, asset: Seq<char>, i: int) -> Option<int>
    decreases s.len() - i,
{
    if i < 0 || i >= s.len() {
        None
    } else if s[i].asset@ == asset {
        Some(i)
    } else {
        find_balance(s, asset, i + 1)
    }
}

/// First index at or after `i` of the order `id`.
pub open spec fn find_order(s: Seq<OpenOrder>, id: u128, i: int) -> Option<int>
    decreases s.len() - i,
{
    if i < 0 || i >= s.len() {
        None
    } else if s[i].id == id {
        Some(i)
    } else {
        find_order(s, id, i + 1)
    }
}

/// An index as a plain integer.
pub open spec fn opt_index(r: Option<usize>) -> Option<int> {
    match r {
        Some(k) => Some(k as int),
        None => None,
    }
}

impl GlobalState {
    pub open spec fn wf(self) -> bool {
        &&& forall|i: int| 0 <= i < self.instruments@.len() ==> #[trigger] self.instruments@[i].wf()
        &&& forall|i: int| 0 <= i < self.balances@.len() ==> #[trigger] self.balances@[i].free.wf()
        &&& forall|i: int| 0 <= i < self.open_orders@.len() ==> #[trigger] self.open_orders@[i].wf()
    }

    /// The registered instrument `id`, if any.
    pub open spec fn entry(self, id: InstrumentId) -> Option<InstrumentState> {
        match find_instrument(self.instruments@, id, 0) {
            Some(k) => Some(self.instruments@[k]),
            None => None,
        }
    }

    /// Free balance of `asset` (zero when none is recorded).
    pub open spec fn free(self, asset: Seq<char>) -> Dec {
        match find_balance(self.balances@, asset, 0) {
            Some(k) => self.balances@[k].free,
            None => zero_dec(),
        }
    }

    /// The working order `id`, if any.
    pub open spec fn order(self, id: u128) -> Option<OpenOrder> {
        match find_order(self.open_orders@, id, 0) {
            Some(k) => Some(self.open_orders@[k]),
            None => None,
        }
    }

    /// Position of the registered instrument `id`.
    pub fn instrument_index(&self, id: &InstrumentId) -> (r: Option<usize>)
        ensures
            opt_index(r) == find_instrument(self.instruments@, *id, 0),
    {
        let mut i: usize = 0;
        while i < self.instruments.len()
            invariant
                i <= self.instruments@.len(),
                find_instrument(self.instruments@, *id, 0) == find_instrument(
                    self.instruments@,
                    *id,
                    i as int,
                ),
            decreases self.instruments@.len() - i,
        {
            if self.instruments[i].id.same_as(id) {
                return Some(i);
            }
            i = i + 1;
        }
        None
    }

    /// Free balance of `asset` (zero when none is recorded).
    pub fn free_balance(&self, asset: &String) -> (r: Dec)
        ensures
            r == self.free(asset@),
    {
        let mut i: usize = 0;
        while i < self.balances.len()
            invariant
                i <= self.balances@.len(),
                find_balance(self.balances@, asset@, 0) == find_balance(
                    self.balances@,
                    asset@,
                    i as int,
                ),
            decreases self.balances@.len() - i,
        {
            if self.balances[i].asset == *asset {
                return self.balances[i].free;
            }
            i = i + 1;
        }
        Dec::zero()
    }

    /// Position of the working order `id`.
    pub fn order_index(&self, id: u128) -> (r: Option<usize>)
        ensures
            opt_index(r) == find_order(self.open_orders@, id, 0),
    {
        let mut i: usize = 0;
        while i < self.open_orders.len()
            invariant
                i <= self.open_orders@.len(),
                find_order(self.open_orders@, id, 0) == find_order(
                    self.open_orders@,
                    id,
                    i as int,
                ),
            decreases self.open_orders@.len() - i,
        {
            if self.open_orders[i].id == id {
                return Some(i);
            }
            i = i + 1;
        }
        None
    }
}

/// A found index is in bounds and names the instrument.
pub proof fn lemma_find_instrument(s: Seq<InstrumentState>, id: InstrumentId, i: int)
    ensures
        find_instrument(s, id, i) matches Some(k) ==> i <= k < s.len() && s[k].id.same(id),
    decreases s.len() - i,
{
    if 0 <= i < s.len() && !s[i].id.same(id) {
        lemma_find_instrument(s, id, i + 1);
    }
}

/// A found index is in bounds and names the asset.
pub proof fn lemma_find_balance(s: Seq<Balance>, asset: Seq<char>, i: int)
    ensures
        find_balance(s, asset, i) matches Some(k) ==> i <= k < s.len() && s[k].asset@ == asset,
    decreases s.len() - i,
{
    if 0 <= i < s.len() && s[i].asset@ != asset {
        lemma_find_balance(s, asset, i + 1);
    }
}

/// A found index is in bounds and names the order.
pub proof fn lemma_find_order(s: Seq<OpenOrder>, id: u128, i: int)
    ensures
        find_order(s, id, i) matches Some(k) ==> i <= k < s.len() && s[k].id == id,
    decreases s.len() - i,
{
    if 0 <= i < s.len() && s[i].id != id {
        lemma_find_order(s, id, i + 1);
    }
}

} // verus!
