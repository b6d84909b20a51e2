//! The built-in buy-and-hold strategy, and the state a replay run starts from.

use crate::config::InstrumentId;
use crate::decimal::Dec;
use crate::events::{OrderIntent, OrderIntentSource};
use crate::orders::{OrderType, Side};
use crate::calendar::{session_open_at, session_time_ok, SessionFilter, is_session_open};
use crate::events::{Event, MarketEvent};
use crate::merge::merge_key;
use crate::decimal::zero_dec;
use crate::execution::{PaperConfig, TouchCrossFillModel};
use crate::instrument::{
    config_fields, extra_fields, instrument_meta_from_config, instrument_meta_from_extra, meta_of,
};
use crate::settings::{symbol_splittable, BacktestConfig};
use crate::state::{
    lemma_find_instrument, Balance, GlobalState, InstrumentMeta, InstrumentState, TradingState,
};
use vstd::prelude::*;

verus! {

/// Buys `qty` of one instrument once, on the first update at which the instrument has a price.
#[derive(Debug)]
pub struct BuyAndHold {
    pub instrument: InstrumentId,
    pub done: bool,
    pub qty: Dec,
}

/// The instrument is registered and has a mid or last price.
pub open spec fn has_price(state: GlobalState, inst: InstrumentId) -> bool {
    match state.entry(inst) {
        Some(e) => e.mid_or_last.is_some(),
        None => false,
    }
}

/// The market buy of `qty` on `inst` that buy-and-hold sends.
pub open spec fn buy_intent_of(inst: InstrumentId, qty: Dec) -> OrderIntent {
    OrderIntent {
        instrument: inst,
        side: Side::Buy,
        order_type: OrderType::Market,
        price: None,
        stop_price: None,
        qty,
        client_order_id: None,
        oco_group: None,
        source: OrderIntentSource::User,
        strategy_id: None,
    }
}

impl BuyAndHold {
    /// A strategy that has not bought yet.
    pub fn new(instrument: InstrumentId, qty: Dec) -> (r: BuyAndHold)
        ensures
            r.instrument == instrument,
            r.qty == qty,
            !r.done,
    {
        BuyAndHold { instrument, done: false, qty }
    }

    /// On an update: buy once, as soon as the instrument has a price.
    pub fn maybe_buy(&mut self, state: &GlobalState, out: &mut Vec<OrderIntent>)
        ensures
            final(self).instrument == old(self).instrument,
            final(self).qty == old(self).qty,
            if !old(self).done && has_price(*state, old(self).instrument) {
                &&& final(self).done
                &&& final(out)@ == old(out)@.push(buy_intent_of(old(self).instrument, old(self).qty))
            } else {
                &&& final(self).done == old(self).done
                &&& final(out)@ == old(out)@
            },
    {
        if self.done {
            return;
        }
        proof {
            lemma_find_instrument(state.instruments@, self.instrument, 0);
        }
        let priced = match state.instrument_index(&self.instrument) {
            Some(k) => state.instruments[k].mid_or_last.is_some(),
            None => false,
        };
        if !priced {
            return;
        }
        self.done = true;
        out.push(
            OrderIntent {
                instrument: self.instrument.clone(),
                side: Side::Buy,
                order_type: OrderType::Market,
                price: None,
                stop_price: None,
                qty: self.qty,
                client_order_id: None,
                oco_group: None,
                source: OrderIntentSource::User,
                strategy_id: None,
            },
        );
    }
}


/// A freshly registered instrument: flat, no average entry, no market data seen.
pub open spec fn fresh_instrument(id: InstrumentId, meta: InstrumentMeta) -> InstrumentState {
    InstrumentState {
        id,
        meta,
        position: zero_dec(),
        average_entry_price: None,
        l1: None,
        bar: None,
        mid_or_last: None,
    }
}

/// First index at or after `i` of a registered instrument with this id.
pub open spec fn index_of_id(reg: Seq<InstrumentState>, id: InstrumentId, i: int) -> Option<int>
    decreases reg.len() - i,
{
    if i < 0 || i >= reg.len() {
        None
    } else if reg[i].id.same(id) {
        Some(i)
    } else {
        index_of_id(reg, id, i + 1)
    }
}

/// Register `meta` under `id`: a later registration of the same id replaces the metadata of
/// the earlier one in place; a new id is appended.
pub open spec fn register(reg: Seq<InstrumentState>, id: InstrumentId, meta: InstrumentMeta) -> Seq<
    InstrumentState,
> {
    match index_of_id(reg, id, 0) {
        Some(k) => reg.update(k, fresh_instrument(reg[k].id, meta)),
        None => reg.push(fresh_instrument(id, meta)),
    }
}

/// The registry after the primary instrument and the first `n` extra instruments, given the
/// metadata built for each (`metas[0]` for the primary, `metas[j + 1]` for extra `j`).
pub open spec fn registry_of(cfg: BacktestConfig, metas: Seq<InstrumentMeta>, n: int) -> Seq<
    InstrumentState,
>
    decreases n,
{
    if n <= 0 {
        seq![fresh_instrument(cfg.instrument, metas[0])]
    } else {
        register(
            registry_of(cfg, metas, n - 1),
            cfg.extra_instruments@[n - 1].instrument,
            metas[n],
        )
    }
}

/// The metadata of each registration is what the configuration gives.
pub open spec fn metas_built(cfg: BacktestConfig, metas: Seq<InstrumentMeta>) -> bool {
    &&& metas.len() == cfg.extra_instruments@.len() + 1
    &&& meta_of(config_fields(cfg, metas[0].base, metas[0].quote), metas[0])
    &&& forall|j: int|
        0 <= j < cfg.extra_instruments@.len() ==> meta_of(
            extra_fields(cfg.extra_instruments@[j], #[trigger] metas[j + 1].base, metas[j + 1].quote),
            metas[j + 1],
        )
}

/// Everything a replay run is set up with from its configuration.
#[derive(Debug)]
pub struct ReplaySetup {
    /// Registry, starting balances and operator switches.
    pub state: GlobalState,
    /// Fees and slippage of the paper fill engine.
    pub execution: PaperConfig<TouchCrossFillModel>,
    /// Session filter applied to bars.
    pub session: SessionFilter,
    /// Some extra instrument has its own data file.
    pub multi_instrument: bool,
    /// Position limit on the primary instrument, when configured.
    pub max_position: Option<(InstrumentId, Dec)>,
    /// Daily loss limit in the primary quote asset, when configured.
    pub max_daily_loss: Option<(String, Dec)>,
}

/// Some extra instrument has a data file.
pub open spec fn has_extra_data(cfg: BacktestConfig) -> bool {
    exists|j: int| 0 <= j < cfg.extra_instruments@.len() && (#[trigger] cfg.extra_instruments@[j]).data_path is Some
}

/// What the configuration requires for the metadata to be built.
pub open spec fn setup_ready(cfg: BacktestConfig) -> bool {
    &&& !(cfg.base_asset is Some && cfg.quote_asset is Some) ==> symbol_splittable(
        cfg.instrument.symbol@,
        cfg.asset_class,
    )
    &&& config_fields(cfg, cfg.instrument.symbol, cfg.instrument.symbol).wf()
    &&& cfg.fee_bps.wf() && cfg.slippage_bps.wf()
    &&& forall|j: int| 0 <= j < cfg.extra_instruments@.len() ==> {
        &&& symbol_splittable(
            (#[trigger] cfg.extra_instruments@[j]).instrument.symbol@,
            cfg.extra_instruments@[j].asset_class,
        )
        &&& extra_fields(
            cfg.extra_instruments@[j],
            cfg.extra_instruments@[j].instrument.symbol,
            cfg.extra_instruments@[j].instrument.symbol,
        ).wf()
    }
    &&& forall|k: int| 0 <= k < cfg.balances@.len() ==> (#[trigger] cfg.balances@[k]).free.wf()
}

/// Register `meta` under `id` in place.
fn register_into(reg: &mut Vec<InstrumentState>, id: InstrumentId, meta: InstrumentMeta)
    ensures
        final(reg)@ == register(old(reg)@, id, meta),
{
    let mut k: usize = 0;
    while k < reg.len()
        invariant
            k <= reg@.len(),
            reg@ == old(reg)@,
            index_of_id(reg@, id, 0) == index_of_id(reg@, id, k as int),
        decreases reg@.len() - k,
    {
        if reg[k].id.same_as(&id) {
            let rid = reg[k].id.clone();
            let fresh = InstrumentState {
                id: rid,
                meta,
                position: Dec::zero(),
                average_entry_price: None,
                l1: None,
                bar: None,
                mid_or_last: None,
            };
            reg.set(k, fresh);
            return;
        }
        k = k + 1;
    }
    reg.push(
        InstrumentState {
            id,
            meta,
            position: Dec::zero(),
            average_entry_price: None,
            l1: None,
            bar: None,
            mid_or_last: None,
        },
    );
}

/// Copy of the configured balances.
fn copy_balances(b: &Vec<Balance>) -> (r: Vec<Balance>)
    ensures
        r@.len() == b@.len(),
        forall|k: int| 0 <= k < b@.len() ==> (#[trigger] r@[k]).asset@ == b@[k].asset@ && r@[k].free
            == b@[k].free,
{
    let mut out: Vec<Balance> = Vec::new();
    let mut i: usize = 0;
    while i < b.len()
        invariant
            i <= b@.len(),
            out@.len() == i,
            forall|k: int| 0 <= k < i ==> (#[trigger] out@[k]).asset@ == b@[k].asset@ && out@[k].free
                == b@[k].free,
        decreases b@.len() - i,
    {
        out.push(Balance { asset: b[i].asset.clone(), free: b[i].free });
        i = i + 1;
    }
    out
}

/// Set a replay run up from its configuration: the registry (the primary instrument, then each
/// extra one, a repeated id replacing the earlier metadata), the configured balances (10 000 of
/// the quote asset when none are configured), trading enabled and not paused, the paper fill
/// engine with the configured fee and slippage, the session filter, and the risk limits.
pub fn replay_setup(cfg: &BacktestConfig) -> (r: ReplaySetup)
    requires
        setup_ready(*cfg),
    ensures
        exists|metas: Seq<InstrumentMeta>|
            #![trigger metas_built(*cfg, metas)]
            metas_built(*cfg, metas) && r.state.instruments@ == registry_of(
                *cfg,
                metas,
                cfg.extra_instruments@.len() as int,
            ) && match cfg.max_daily_loss_quote {
                Some(m) => r.max_daily_loss matches Some((q, x)) && q@ == metas[0].quote@ && x == m,
                None => r.max_daily_loss is None,
            },
        cfg.balances@.len() > 0 ==> r.state.balances@.len() == cfg.balances@.len() && forall|k: int|
            0 <= k < cfg.balances@.len() ==> (#[trigger] r.state.balances@[k]).asset@
                == cfg.balances@[k].asset@ && r.state.balances@[k].free == cfg.balances@[k].free,
        cfg.balances@.len() == 0 ==> r.state.balances@.len() == 1 && r.state.balances@[0].free == (
        Dec { mantissa: 10000, scale: 0 }),
        r.state.open_orders@.len() == 0,
        r.state.last_event_ts is None,
        !r.state.paused,
        r.state.trading_state == TradingState::Enabled,
        r.execution.fee_bps == cfg.fee_bps,
        r.execution.market_slippage_bps == cfg.slippage_bps,
        r.session == match cfg.session_filter {
            Some(s) => crate::calendar::session_alias(
                crate::text::unicode_lowercase(crate::text::trim(s@)),
            ),
            None => SessionFilter::Unfiltered,
        },
        r.multi_instrument == has_extra_data(*cfg),
        match cfg.max_position_abs {
            Some(m) => r.max_position matches Some((id, x)) && id == cfg.instrument && x == m,
            None => r.max_position is None,
        },
{
    let primary = instrument_meta_from_config(cfg);
    let ghost mut metas: Seq<InstrumentMeta> = seq![primary];
    let quote = primary.quote.clone();
    let mut reg: Vec<InstrumentState> = Vec::new();
    reg.push(
        InstrumentState {
            id: cfg.instrument.clone(),
            meta: primary,
            position: Dec::zero(),
            average_entry_price: None,
            l1: None,
            bar: None,
            mid_or_last: None,
        },
    );
    assert(reg@ =~= registry_of(*cfg, metas, 0));
    let mut j: usize = 0;
    while j < cfg.extra_instruments.len()
        invariant
            setup_ready(*cfg),
            j <= cfg.extra_instruments@.len(),
            metas.len() == j + 1,
            meta_of(config_fields(*cfg, metas[0].base, metas[0].quote), metas[0]),
            forall|i: int|
                0 <= i < j ==> meta_of(
                    extra_fields(cfg.extra_instruments@[i], #[trigger] metas[i + 1].base, metas[i + 1].quote),
                    metas[i + 1],
                ),
            reg@ == registry_of(*cfg, metas, j as int),
            quote@ == metas[0].quote@,
        decreases cfg.extra_instruments@.len() - j,
    {
        let extra = &cfg.extra_instruments[j];
        assert(setup_ready(*cfg));
        let m = instrument_meta_from_extra(extra);
        let ghost prev = metas;
        proof {
            metas = metas.push(m);
            assert forall|i: int| 0 <= i < j ==> #[trigger] metas[i + 1] == prev[i + 1] by {}
            assert(metas[0] == prev[0]);
        }
        register_into(&mut reg, extra.instrument.clone(), m);
        proof {
            assert(registry_of(*cfg, prev, j as int) == registry_of(*cfg, metas, j as int)) by {
                lemma_registry_prefix(*cfg, prev, metas, j as int);
            }
        }
        j = j + 1;
    }
    let balances = if cfg.balances.len() > 0 {
        copy_balances(&cfg.balances)
    } else {
        cfg.default_balances()
    };
    let mut multi = false;
    let mut k: usize = 0;
    while k < cfg.extra_instruments.len()
        invariant
            k <= cfg.extra_instruments@.len(),
            multi == exists|i: int| 0 <= i < k && (#[trigger] cfg.extra_instruments@[i]).data_path is Some,
        decreases cfg.extra_instruments@.len() - k,
    {
        if cfg.extra_instruments[k].data_path.is_some() {
            multi = true;
        }
        k = k + 1;
    }
    let session = match &cfg.session_filter {
        Some(s) => SessionFilter::parse(s.as_str()),
        None => SessionFilter::Unfiltered,
    };
    let max_position = match cfg.max_position_abs {
        Some(m) => Some((cfg.instrument.clone(), m)),
        None => None,
    };
    let max_daily_loss = match cfg.max_daily_loss_quote {
        Some(m) => Some((quote, m)),
        None => None,
    };
    assert(metas_built(*cfg, metas));
    ReplaySetup {
        state: GlobalState {
            instruments: reg,
            balances,
            open_orders: Vec::new(),
            last_event_ts: None,
            paused: false,
            trading_state: TradingState::Enabled,
        },
        execution: PaperConfig {
            fee_bps: cfg.fee_bps,
            market_slippage_bps: cfg.slippage_bps,
            fill_model: TouchCrossFillModel,
        },
        session,
        multi_instrument: multi,
        max_position,
        max_daily_loss,
    }
}

/// The registry depends only on the metadata of the registrations it has seen.
proof fn lemma_registry_prefix(cfg: BacktestConfig, a: Seq<InstrumentMeta>, b: Seq<InstrumentMeta>, n: int)
    requires
        0 <= n,
        a.len() > n,
        b.len() > n,
        forall|i: int| 0 <= i <= n ==> a[i] == b[i],
    ensures
        registry_of(cfg, a, n) == registry_of(cfg, b, n),
    decreases n,
{
    if n > 0 {
        lemma_registry_prefix(cfg, a, b, n - 1);
    }
}


/// One thing the replay loop does for an accepted event, in the order given.
#[derive(Clone, Copy, Debug, PartialEq, Eq, Structural)]
pub enum ReplayAction {
    /// Update the bar's instrument to the bar's opening price.
    ApplyBarOpen,
    /// Release the intents deferred to the next update of the event's instrument.
    ReleasePending,
    /// Apply the market update to the state.
    ApplyMarket,
    /// Move the daily risk anchor to the event time.
    RefreshRiskAnchor,
    /// Poll the resting orders of the event's instrument.
    PollInstrument,
    /// Run the strategy on the bar and defer its intents to the next bar.
    CollectIntents,
    /// Settle funding, coupons and expiries for the bar time.
    Lifecycle,
    /// Run the engine's event step (strategy, risk and placement).
    Dispatch,
    /// Record the mark-to-market equity.
    RecordEquity,
}

/// Counters of a replay run.
#[derive(Clone, Copy, Debug)]
pub struct ReplayCounters {
    /// Events accepted by the session filter.
    pub accepted: u64,
    /// Events processed.
    pub processed: u64,
    /// Time of the first processed event.
    pub first_ts: Option<i128>,
    /// Time of the last processed event.
    pub last_ts: Option<i128>,
}

/// What the replay loop does with one event.
#[derive(Debug)]
pub enum ReplayDecision {
    /// Outside the session: the event is dropped and nothing changes.
    Skip,
    /// The event is processed: the new counters, whether to report progress and check the
    /// cancel flag first (every 64th accepted event), and the actions in order.
    Process { counters: ReplayCounters, check_cancel: bool, actions: Vec<ReplayAction> },
}

/// The actions for an accepted event: a bar opens, releases deferred intents, updates, polls,
/// collects new intents, settles and records equity; another market update is applied,
/// releases its instrument's deferred intents and goes through the event step; any other
/// event goes straight through the event step.
pub open spec fn replay_actions_of(ev: Event) -> Seq<ReplayAction> {
    match ev {
        Event::Market(MarketEvent::Bar { .. }) => seq![
            ReplayAction::ApplyBarOpen,
            ReplayAction::ReleasePending,
            ReplayAction::ApplyMarket,
            ReplayAction::RefreshRiskAnchor,
            ReplayAction::PollInstrument,
            ReplayAction::CollectIntents,
            ReplayAction::Lifecycle,
            ReplayAction::RecordEquity,
        ],
        Event::Market(_) => seq![
            ReplayAction::ApplyMarket,
            ReplayAction::RefreshRiskAnchor,
            ReplayAction::ReleasePending,
            ReplayAction::Dispatch,
            ReplayAction::RecordEquity,
        ],
        _ => seq![ReplayAction::Dispatch, ReplayAction::RecordEquity],
    }
}

/// The replay time of an event: its own time, the Unix epoch when it has none.
pub open spec fn replay_time(ev: Event) -> int {
    merge_key(ev)
}

/// Decide what the replay loop does with one event.
pub fn replay_step(counters: &ReplayCounters, session: SessionFilter, ev: &Event) -> (r: ReplayDecision)
    requires
        counters.accepted < u64::MAX,
        counters.processed < u64::MAX,
        session != SessionFilter::Unfiltered ==> session_time_ok(replay_time(*ev)),
    ensures
        !session_open_at(session, replay_time(*ev)) ==> r is Skip,
        session_open_at(session, replay_time(*ev)) ==> (r matches ReplayDecision::Process {
            counters: c,
            check_cancel,
            actions,
        } && c.accepted == counters.accepted + 1 && c.processed == counters.processed + 1
            && c.first_ts == (match counters.first_ts {
            Some(t) => Some(t),
            None => Some(replay_time(*ev) as i128),
        }) && c.last_ts == Some(replay_time(*ev) as i128) && check_cancel == ((
        counters.accepted + 1) % 64 == 0) && actions@ == replay_actions_of(*ev)),
{
    let ts: i128 = match ev.timestamp() {
        Some(t) => t,
        None => 0,
    };
    if !is_session_open(session, ts) {
        return ReplayDecision::Skip;
    }
    let accepted = counters.accepted + 1;
    let c = ReplayCounters {
        accepted,
        processed: counters.processed + 1,
        first_ts: match counters.first_ts {
            Some(t) => Some(t),
            None => Some(ts),
        },
        last_ts: Some(ts),
    };
    let mut actions: Vec<ReplayAction> = Vec::new();
    match ev {
        Event::Market(MarketEvent::Bar { .. }) => {
            actions.push(ReplayAction::ApplyBarOpen);
            actions.push(ReplayAction::ReleasePending);
            actions.push(ReplayAction::ApplyMarket);
            actions.push(ReplayAction::RefreshRiskAnchor);
            actions.push(ReplayAction::PollInstrument);
            actions.push(ReplayAction::CollectIntents);
            actions.push(ReplayAction::Lifecycle);
            actions.push(ReplayAction::RecordEquity);
        },
        Event::Market(_) => {
            actions.push(ReplayAction::ApplyMarket);
            actions.push(ReplayAction::RefreshRiskAnchor);
            actions.push(ReplayAction::ReleasePending);
            actions.push(ReplayAction::Dispatch);
            actions.push(ReplayAction::RecordEquity);
        },
        _ => {
            actions.push(ReplayAction::Dispatch);
            actions.push(ReplayAction::RecordEquity);
        },
    }
    proof {
        assert(actions@ =~= replay_actions_of(*ev));
    }
    ReplayDecision::Process { counters: c, check_cancel: accepted % 64 == 0, actions }
}

} // verus!
