//! Control commands, order intents and the account-side events execution reports.

use crate::config::InstrumentId;
use crate::decimal::Dec;
use crate::orders::{clone_text, opt_wf, OpenOrder, OrderStatus, OrderType, Side};
use time::OffsetDateTime;
use vstd::prelude::*;

verus! {

/// Control-plane commands (also used for in-process control).
#[derive(Clone, Copy, Debug, PartialEq, Eq, Structural)]
pub enum ControlEvent {
    /// Pause new orders; the engine keeps processing cancels and market data.
    Pause,
    /// Resume.
    Resume,
    /// Cancel all open orders.
    CancelAll,
    /// Cancel all, then market-close net positions.
    Flatten,
    /// Turn off algorithmic trading (strategy not invoked).
    DisableTrading,
    /// Re-enable algorithmic trading.
    EnableTrading,
}

/// Origin of an order intent (risk and pause semantics).
#[derive(Clone, Copy, Debug, PartialEq, Eq, Structural)]
pub enum OrderIntentSource {
    /// Strategy or operator initiated.
    User,
    /// Emergency flatten path after a flatten command (may bypass pause).
    Flatten,
}

impl Default for OrderIntentSource {
    fn default() -> (r: Self)
        ensures
            r == OrderIntentSource::User,
    {
        OrderIntentSource::User
    }
}

/// Stage at which an order request was rejected.
#[derive(Clone, Copy, Debug, PartialEq, Eq, Structural)]
pub enum RejectionKind {
    /// Rejected before execution by a risk rule.
    Risk,
    /// Rejected by the execution simulator or venue adapter.
    Execution,
}

/// Strategy order request (before risk and execution).
#[derive(Debug)]
pub struct OrderIntent {
    pub instrument: InstrumentId,
    pub side: Side,
    pub order_type: OrderType,
    /// Limit price (required for limit and stop-limit).
    pub price: Option<Dec>,
    /// Stop trigger (required for stop-market and stop-limit).
    pub stop_price: Option<Dec>,
    /// Base quantity.
    pub qty: Dec,
    pub client_order_id: Option<String>,
    /// One-cancels-other group shared by sibling orders.
    pub oco_group: Option<String>,
    pub source: OrderIntentSource,
    pub strategy_id: Option<String>,
}

impl OrderIntent {
    /// Every decimal of the intent is well formed.
    pub open spec fn wf(self) -> bool {
        &&& opt_wf(self.price)
        &&& opt_wf(self.stop_price)
        &&& self.qty.wf()
    }
}

/// A rejected order request.
#[derive(Debug)]
pub struct RejectionRecord {
    /// Replay time of the rejection, in Unix nanoseconds.
    pub ts_unix_nanos: i128,
    pub kind: RejectionKind,
    pub instrument: InstrumentId,
    pub client_order_id: Option<String>,
    /// Human-readable reason.
    pub reason: String,
}

/// Private, account-side update.
#[derive(Debug)]
pub enum AccountEvent {
    /// Free balance of an asset.
    Balance { asset: String, free: Dec },
    /// Signed change of the free balance of an asset.
    BalanceDelta { asset: String, delta: Dec },
    /// Order state.
    OrderUpdate {
        id: u128,
        instrument: InstrumentId,
        side: Side,
        order_type: OrderType,
        price: Option<Dec>,
        stop_price: Option<Dec>,
        remaining_qty: Dec,
        original_qty: Dec,
        status: OrderStatus,
        client_order_id: Option<String>,
        oco_group: Option<String>,
        strategy_id: Option<String>,
    },
    /// Fill notice.
    Fill {
        order_id: u128,
        instrument: InstrumentId,
        side: Side,
        price: Dec,
        qty: Dec,
        /// Fee in the fee asset (a positive number).
        fee: Dec,
        fee_asset: String,
        client_order_id: Option<String>,
        oco_group: Option<String>,
        strategy_id: Option<String>,
    },
    /// Risk or execution rejection.
    Rejection(RejectionRecord),
}

/// The order-update event that reports `o`.
pub open spec fn update_of(o: OpenOrder) -> AccountEvent {
    AccountEvent::OrderUpdate {
        id: o.id,
        instrument: o.instrument,
        side: o.side,
        order_type: o.order_type,
        price: o.price,
        stop_price: o.stop_price,
        remaining_qty: o.remaining_qty,
        original_qty: o.original_qty,
        status: o.status,
        client_order_id: o.client_order_id,
        oco_group: o.oco_group,
        strategy_id: o.strategy_id,
    }
}

/// The order-update event that reports `o`.
pub fn emit_order_update(o: &OpenOrder) -> (r: AccountEvent)
    ensures
        r == update_of(*o),
{
    AccountEvent::OrderUpdate {
        id: o.id,
        instrument: o.instrument.clone(),
        side: o.side,
        order_type: o.order_type,
        price: o.price,
        stop_price: o.stop_price,
        remaining_qty: o.remaining_qty,
        original_qty: o.original_qty,
        status: o.status,
        client_order_id: clone_text(&o.client_order_id),
        oco_group: clone_text(&o.oco_group),
        strategy_id: clone_text(&o.strategy_id),
    }
}

impl AccountEvent {
    /// The event is a fill notice.
    pub open spec fn is_fill(self) -> bool {
        self is Fill
    }

    /// Whether the event is a fill notice.
    pub fn is_fill_event(&self) -> (r: bool)
        ensures
            r == self.is_fill(),
    {
        match self {
            AccountEvent::Fill { .. } => true,
            _ => false,
        }
    }
}

/// Source timestamps and sequence identity kept from a market-data feed.
#[derive(Debug)]
pub struct MarketDataProvenance {
    /// Vendor dataset code.
    pub dataset: String,
    /// Vendor publisher or venue id.
    pub publisher_id: u16,
    /// Vendor numeric instrument id.
    pub instrument_id: u32,
    /// Capture or receive time, in Unix nanoseconds.
    pub ts_recv: Option<i128>,
    /// Feed sequence number.
    pub sequence: Option<u64>,
}

/// Top-of-book depth snapshot: (price, quantity) levels, best first.
#[derive(Debug)]
pub struct BookL2Snapshot {
    pub instrument: InstrumentId,
    /// Unix nanoseconds.
    pub ts: i128,
    pub bids: Vec<(Dec, Dec)>,
    pub asks: Vec<(Dec, Dec)>,
    pub provenance: Option<MarketDataProvenance>,
}

/// Venue trading status.
#[derive(Debug)]
pub struct MarketStatusEvent {
    pub instrument: InstrumentId,
    /// Unix nanoseconds.
    pub ts: i128,
    /// Vendor-normalized status action code.
    pub action: u16,
    /// Vendor-normalized reason code.
    pub reason: u16,
    /// Vendor-normalized trading-event code.
    pub trading_event: u16,
    pub is_trading: Option<bool>,
    pub is_quoting: Option<bool>,
    pub is_short_sell_restricted: Option<bool>,
    pub provenance: MarketDataProvenance,
}

/// Auction imbalance state.
#[derive(Debug)]
pub struct AuctionImbalanceEvent {
    pub instrument: InstrumentId,
    /// Unix nanoseconds.
    pub ts: i128,
    pub reference_price: Option<Dec>,
    pub indicative_match_price: Option<Dec>,
    pub paired_qty: Option<u32>,
    pub total_imbalance_qty: Option<u32>,
    /// Imbalance side code.
    pub side: Option<String>,
    pub auction_type: Option<String>,
    pub auction_status: u8,
    pub provenance: MarketDataProvenance,
}

/// Official venue statistic (settlement, open interest, ...).
#[derive(Debug)]
pub struct MarketStatisticEvent {
    pub instrument: InstrumentId,
    /// Feed event time, in Unix nanoseconds.
    pub ts: i128,
    /// Reference time of the statistic, in Unix nanoseconds.
    pub ts_ref: Option<i128>,
    pub stat_type: u16,
    pub price: Option<Dec>,
    pub quantity: Option<i64>,
    pub update_action: u8,
    pub provenance: MarketDataProvenance,
}

/// Public market update; times are Unix nanoseconds.
#[derive(Debug)]
pub enum MarketEvent {
    /// Last trade.
    Trade { instrument: InstrumentId, ts: i128, price: Dec, qty: Dec, provenance: Option<MarketDataProvenance> },
    /// Best bid and ask.
    BookL1 { instrument: InstrumentId, ts: i128, bid: Dec, ask: Dec, provenance: Option<MarketDataProvenance> },
    /// Shallow depth snapshot.
    BookL2Snapshot(BookL2Snapshot),
    /// Venue trading or quoting state.
    Status(MarketStatusEvent),
    /// Auction imbalance.
    AuctionImbalance(AuctionImbalanceEvent),
    /// Official statistic.
    Statistic(MarketStatisticEvent),
    /// OHLCV bar.
    Bar { instrument: InstrumentId, ts: i128, open: Dec, high: Dec, low: Dec, close: Dec, volume: Dec },
}

/// Timer tick for periodic strategy logic.
#[derive(Clone, Copy, Debug)]
pub struct TimerEvent {
    /// Unix nanoseconds.
    pub ts: i128,
    /// Schedule identifier.
    pub id: u32,
}

/// One executed fill for backtest reports.
#[derive(Debug)]
pub struct FillRecord {
    /// Unix nanoseconds.
    pub ts: i128,
    pub order_id: u128,
    pub instrument: InstrumentId,
    pub side: Side,
    /// Base quantity as text.
    pub qty: String,
    /// Fill price as text.
    pub price: String,
    /// Fee as text.
    pub fee: String,
    /// Quote value of one price point per unit, when contract metadata defines one.
    pub contract_multiplier: Option<String>,
    /// Execution simulation surface used for this fill.
    pub simulation_model: Option<String>,
    pub client_order_id: Option<String>,
    pub oco_group: Option<String>,
    pub strategy_id: Option<String>,
}

/// Unified engine input.
#[derive(Debug)]
pub enum Event {
    Market(MarketEvent),
    Account(AccountEvent),
    Control(ControlEvent),
    Timer(TimerEvent),
}

/// The instrument a market update is about.
pub open spec fn market_instrument(m: MarketEvent) -> InstrumentId {
    match m {
        MarketEvent::Trade { instrument, .. } => instrument,
        MarketEvent::BookL1 { instrument, .. } => instrument,
        MarketEvent::Bar { instrument, .. } => instrument,
        MarketEvent::BookL2Snapshot(s) => s.instrument,
        MarketEvent::Status(s) => s.instrument,
        MarketEvent::AuctionImbalance(a) => a.instrument,
        MarketEvent::Statistic(s) => s.instrument,
    }
}

/// The time of a market update.
pub open spec fn market_ts(m: MarketEvent) -> i128 {
    match m {
        MarketEvent::Trade { ts, .. } => ts,
        MarketEvent::BookL1 { ts, .. } => ts,
        MarketEvent::Bar { ts, .. } => ts,
        MarketEvent::BookL2Snapshot(s) => s.ts,
        MarketEvent::Status(s) => s.ts,
        MarketEvent::AuctionImbalance(a) => a.ts,
        MarketEvent::Statistic(s) => s.ts,
    }
}

/// The instrument an account update is about: orders, fills and rejections have one; balance
/// updates do not.
pub open spec fn account_instrument(a: AccountEvent) -> Option<InstrumentId> {
    match a {
        AccountEvent::OrderUpdate { instrument, .. } => Some(instrument),
        AccountEvent::Fill { instrument, .. } => Some(instrument),
        AccountEvent::Rejection(r) => Some(r.instrument),
        AccountEvent::Balance { .. } => None,
        AccountEvent::BalanceDelta { .. } => None,
    }
}

/// The instrument of an engine input, if it has one.
pub open spec fn event_instrument(e: Event) -> Option<InstrumentId> {
    match e {
        Event::Market(m) => Some(market_instrument(m)),
        Event::Account(a) => account_instrument(a),
        Event::Control(_) => None,
        Event::Timer(_) => None,
    }
}

/// The intrinsic time of an engine input: market and timer events have one, account and
/// control events do not.
pub open spec fn event_ts(e: Event) -> Option<i128> {
    match e {
        Event::Market(m) => Some(market_ts(m)),
        Event::Timer(t) => Some(t.ts),
        Event::Account(_) => None,
        Event::Control(_) => None,
    }
}

impl MarketEvent {
    /// The instrument the update is about.
    fn instrument(&self) -> (r: &InstrumentId)
        ensures
            *r == market_instrument(*self),
    {
        match self {
            MarketEvent::Trade { instrument, .. } => instrument,
            MarketEvent::BookL1 { instrument, .. } => instrument,
            MarketEvent::Bar { instrument, .. } => instrument,
            MarketEvent::BookL2Snapshot(s) => &s.instrument,
            MarketEvent::Status(s) => &s.instrument,
            MarketEvent::AuctionImbalance(a) => &a.instrument,
            MarketEvent::Statistic(s) => &s.instrument,
        }
    }

    /// The time of the update.
    fn timestamp(&self) -> (r: i128)
        ensures
            r == market_ts(*self),
    {
        match self {
            MarketEvent::Trade { ts, .. } => *ts,
            MarketEvent::BookL1 { ts, .. } => *ts,
            MarketEvent::Bar { ts, .. } => *ts,
            MarketEvent::BookL2Snapshot(s) => s.ts,
            MarketEvent::Status(s) => s.ts,
            MarketEvent::AuctionImbalance(a) => a.ts,
            MarketEvent::Statistic(s) => s.ts,
        }
    }
}

impl AccountEvent {
    /// The instrument the update is about, if any.
    fn instrument(&self) -> (r: Option<&InstrumentId>)
        ensures
            match r {
                Some(x) => account_instrument(*self) == Some(*x),
                None => account_instrument(*self).is_none(),
            },
    {
        match self {
            AccountEvent::OrderUpdate { instrument, .. } => Some(instrument),
            AccountEvent::Fill { instrument, .. } => Some(instrument),
            AccountEvent::Rejection(r) => Some(&r.instrument),
            AccountEvent::Balance { .. } => None,
            AccountEvent::BalanceDelta { .. } => None,
        }
    }
}

/// The current wall-clock time, in Unix nanoseconds.
///
/// Trusted: `OffsetDateTime::now_utc` then `unix_timestamp_nanos`; nothing is claimed of the
/// value, which depends on the clock.
#[verifier::external_body]
fn now_unix_nanos() -> (r: i128) {
    OffsetDateTime::now_utc().unix_timestamp_nanos()
}

impl Event {
    /// The instrument of market and instrument-specific account events.
    pub fn instrument(&self) -> (r: Option<&InstrumentId>)
        ensures
            match r {
                Some(x) => event_instrument(*self) == Some(*x),
                None => event_instrument(*self).is_none(),
            },
    {
        match self {
            Event::Market(m) => Some(m.instrument()),
            Event::Account(a) => a.instrument(),
            Event::Control(_) => None,
            Event::Timer(_) => None,
        }
    }

    /// The time carried by market and timer events (Unix nanoseconds); account and control
    /// events have none.
    pub fn timestamp(&self) -> (r: Option<i128>)
        ensures
            r == event_ts(*self),
    {
        match self {
            Event::Market(m) => Some(m.timestamp()),
            Event::Timer(t) => Some(t.ts),
            Event::Account(_) => None,
            Event::Control(_) => None,
        }
    }

    /// The event's own time, else the wall clock.
    pub fn timestamp_or_now(&self) -> (r: i128)
        ensures
            event_ts(*self) matches Some(t) ==> r == t,
    {
        match self.timestamp() {
            Some(t) => t,
            None => now_unix_nanos(),
        }
    }

    /// The event's own time in Unix nanoseconds, for compact audit records.
    pub fn timestamp_unix_nanos(&self) -> (r: Option<i128>)
        ensures
            r == event_ts(*self),
    {
        self.timestamp()
    }
}

/// Borrowed bar for the allocation-free replay path.
#[derive(Debug)]
pub enum ReplayEvent<'a> {
    /// OHLCV bar with the instrument borrowed from the source; `ts` is the close time in Unix
    /// nanoseconds.
    Bar { instrument: &'a InstrumentId, ts: i128, open: Dec, high: Dec, low: Dec, close: Dec, volume: Dec },
}

impl<'a> ReplayEvent<'a> {
    /// The owned market event with the same bar.
    pub open spec fn to_event_spec(self) -> Event {
        match self {
            ReplayEvent::Bar { instrument, ts, open, high, low, close, volume } => Event::Market(
                MarketEvent::Bar { instrument: *instrument, ts, open, high, low, close, volume },
            ),
        }
    }

    /// Close time of the bar.
    pub fn timestamp(&self) -> (r: i128)
        ensures
            r == match *self {
                ReplayEvent::Bar { ts, .. } => ts,
            },
    {
        match self {
            ReplayEvent::Bar { ts, .. } => *ts,
        }
    }

    /// The borrowed instrument.
    pub fn instrument(&self) -> (r: &InstrumentId)
        ensures
            *r == match *self {
                ReplayEvent::Bar { instrument, .. } => *instrument,
            },
    {
        match self {
            ReplayEvent::Bar { instrument, .. } => instrument,
        }
    }

    /// The owned market event with the same bar.
    pub fn to_event(&self) -> (r: Event)
        ensures
            r == self.to_event_spec(),
    {
        match self {
            ReplayEvent::Bar { instrument, ts, open, high, low, close, volume } => Event::Market(
                MarketEvent::Bar {
                    instrument: (*instrument).clone(),
                    ts: *ts,
                    open: *open,
                    high: *high,
                    low: *low,
                    close: *close,
                    volume: *volume,
                },
            ),
        }
    }
}

} // verus!
