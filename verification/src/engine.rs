//! Engine decisions around execution: what a control command switches, whether the strategy
//! runs, how an intent is routed, which orders a command targets and which deferred intents a
//! market update releases.

use crate::audit::{ControlEventSummary, EngineAuditEventKind, StrategySkipReason};
use crate::config::InstrumentId;
use crate::decimal::{abs_dec, zero_dec, Dec};
use crate::error::{Error, ErrorKind, Failure};
use crate::events::{
    event_ts, AccountEvent, ControlEvent, Event, OrderIntent, OrderIntentSource, RejectionKind, RejectionRecord,
};
use crate::execution::{
    events_are, limit_placement_of, market_placement_of, signed_qty_of, stop_limit_placement_of,
    stop_market_placement_of, FillEngine, FillModel, PaperConfig,
};
use crate::orders::{clone_text, OpenOrder, OrderType, Side};
use crate::state::{lemma_find_instrument, GlobalState, InstrumentState, TradingState};
use core::time::Duration;
use vstd::prelude::*;

verus! {

/// A periodic wall-clock timer: every `interval`, a timer event carrying `id` enters the engine.
#[derive(Clone, Copy, Debug)]
pub struct TimerSchedule {
    /// Tick interval.
    pub interval: Duration,
    /// Identifier delivered with each tick.
    pub id: u32,
}

/// Engine wiring: event channel capacity, periodic timers, and the optional audit broadcast and
/// command channel capacities.
#[derive(Clone, Debug)]
pub struct EngineConfig {
    /// Event channel capacity.
    pub channel_capacity: usize,
    /// Interval timers that feed timer events into the engine loop.
    pub timer_schedules: Vec<TimerSchedule>,
    /// With `Some(cap)`, audit records are broadcast with that capacity.
    pub audit_broadcast_capacity: Option<usize>,
    /// With `Some(cap)`, engine commands are accepted through a channel of that capacity.
    pub command_channel_capacity: Option<usize>,
}

impl Default for EngineConfig {
    /// 1024 queued events, no timers, no audit broadcast, no command channel.
    fn default() -> (r: EngineConfig)
        ensures
            r.channel_capacity == 1024,
            r.timer_schedules@.len() == 0,
            r.audit_broadcast_capacity.is_none(),
            r.command_channel_capacity.is_none(),
    {
        EngineConfig {
            channel_capacity: 1024,
            timer_schedules: Vec::new(),
            audit_broadcast_capacity: None,
            command_channel_capacity: None,
        }
    }
}

/// What the engine still has to do after a control command has set the switches.
#[derive(Clone, Copy, Debug, PartialEq, Eq, Structural)]
pub enum ControlFollowUp {
    /// Nothing more.
    Nothing,
    /// Cancel every working order.
    CancelAll,
    /// Cancel every working order, then close every open position.
    CancelAllThenFlatten,
}

/// Operator pause after a control command.
pub open spec fn paused_after(paused: bool, c: ControlEvent) -> bool {
    match c {
        ControlEvent::Pause => true,
        ControlEvent::Resume => false,
        _ => paused,
    }
}

/// Trading switch after a control command.
pub open spec fn trading_after(t: TradingState, c: ControlEvent) -> TradingState {
    match c {
        ControlEvent::DisableTrading => TradingState::Disabled,
        ControlEvent::EnableTrading => TradingState::Enabled,
        _ => t,
    }
}

/// The work a control command leaves for execution.
pub open spec fn follow_up_of(c: ControlEvent) -> ControlFollowUp {
    match c {
        ControlEvent::CancelAll => ControlFollowUp::CancelAll,
        ControlEvent::Flatten => ControlFollowUp::CancelAllThenFlatten,
        _ => ControlFollowUp::Nothing,
    }
}

/// The control switches: a pause holds the strategy until a resume, disabling trading holds it
/// until trading is enabled again; each command moves only its own switch, and only cancelling
/// or flattening leaves work for execution (flattening cancels first).
pub proof fn law_control_switches(paused: bool, t: TradingState, c: ControlEvent)
    ensures
        paused_after(paused, ControlEvent::Pause),
        !paused_after(paused, ControlEvent::Resume),
        trading_after(t, ControlEvent::DisableTrading) == TradingState::Disabled,
        trading_after(t, ControlEvent::EnableTrading) == TradingState::Enabled,
        c != ControlEvent::Pause && c != ControlEvent::Resume ==> paused_after(paused, c) == paused,
        c != ControlEvent::DisableTrading && c != ControlEvent::EnableTrading ==> trading_after(t, c)
            == t,
        follow_up_of(ControlEvent::CancelAll) == ControlFollowUp::CancelAll,
        follow_up_of(ControlEvent::Flatten) == ControlFollowUp::CancelAllThenFlatten,
        c != ControlEvent::CancelAll && c != ControlEvent::Flatten ==> follow_up_of(c)
            == ControlFollowUp::Nothing,
{
}

/// Apply a control command to the switches and say what execution must do next.
pub fn apply_control_sync(state: &mut GlobalState, control: ControlEvent) -> (r: ControlFollowUp)
    ensures
        final(state).paused == paused_after(old(state).paused, control),
        final(state).trading_state == trading_after(old(state).trading_state, control),
        final(state).instruments@ == old(state).instruments@,
        final(state).balances@ == old(state).balances@,
        final(state).open_orders@ == old(state).open_orders@,
        final(state).last_event_ts == old(state).last_event_ts,
        r == follow_up_of(control),
{
    match control {
        ControlEvent::Pause => {
            state.paused = true;
            ControlFollowUp::Nothing
        },
        ControlEvent::Resume => {
            state.paused = false;
            ControlFollowUp::Nothing
        },
        ControlEvent::DisableTrading => {
            state.trading_state = TradingState::Disabled;
            ControlFollowUp::Nothing
        },
        ControlEvent::EnableTrading => {
            state.trading_state = TradingState::Enabled;
            ControlFollowUp::Nothing
        },
        ControlEvent::CancelAll => ControlFollowUp::CancelAll,
        ControlEvent::Flatten => ControlFollowUp::CancelAllThenFlatten,
    }
}

/// Why the strategy must not run now, if it must not: the pause wins over the trading switch.
pub open spec fn skip_reason_of(paused: bool, t: TradingState) -> Option<StrategySkipReason> {
    if paused {
        Some(StrategySkipReason::Paused)
    } else if t == TradingState::Disabled {
        Some(StrategySkipReason::TradingDisabled)
    } else {
        None
    }
}

/// Why the strategy must not run now (`None`: it runs).
pub fn strategy_skip_reason(state: &GlobalState) -> (r: Option<StrategySkipReason>)
    ensures
        r == skip_reason_of(state.paused, state.trading_state),
{
    if state.paused {
        Some(StrategySkipReason::Paused)
    } else if state.trading_state == TradingState::Disabled {
        Some(StrategySkipReason::TradingDisabled)
    } else {
        None
    }
}

/// Execution outcome of an intent, routed by its order type.
pub open spec fn dispatch_of<M: FillModel>(
    cfg: PaperConfig<M>,
    state: GlobalState,
    intent: OrderIntent,
    id: u128,
) -> Result<Seq<AccountEvent>, Failure> {
    match intent.order_type {
        OrderType::Limit => limit_placement_of(cfg, state, intent, id),
        OrderType::Market => market_placement_of(cfg, state, intent, id),
        OrderType::StopMarket => stop_market_placement_of(cfg, state, intent, id),
        OrderType::StopLimit => stop_limit_placement_of(cfg, state, intent, id),
    }
}

/// Route an intent to the placement of its order type; `id` names the order it creates.
pub fn dispatch_intent_sync<M: FillModel>(
    exec: &FillEngine<M>,
    state: &GlobalState,
    intent: &OrderIntent,
    id: u128,
) -> (r: Result<Vec<AccountEvent>, Error>)
    requires
        exec.cfg.wf(),
        state.wf(),
        intent.wf(),
    ensures
        events_are(r, dispatch_of(exec.cfg, *state, *intent, id)),
{
    match intent.order_type {
        OrderType::Limit => exec.place_limit_sync(state, intent, id),
        OrderType::Market => exec.place_market_sync(state, intent, id),
        OrderType::StopMarket => exec.place_stop_market_sync(state, intent, id),
        OrderType::StopLimit => exec.place_stop_limit_sync(state, intent, id),
    }
}

/// The market order that closes `position` on `inst`: a sell of a long, a buy of a short,
/// for the absolute size; none for a flat position.
pub open spec fn flatten_intent_of(inst: InstrumentId, position: Dec) -> Option<OrderIntent> {
    if position.mantissa == 0 {
        None
    } else {
        Some(
            OrderIntent {
                instrument: inst,
                side: if position.mantissa > 0 {
                    Side::Sell
                } else {
                    Side::Buy
                },
                order_type: OrderType::Market,
                price: None,
                stop_price: None,
                qty: abs_dec(position),
                client_order_id: None,
                oco_group: None,
                source: OrderIntentSource::Flatten,
                strategy_id: None,
            },
        )
    }
}

/// The flattening order closes the position exactly: it is a market order whose signed
/// quantity is the position negated (a sell of a long, a buy of a short), so the position after
/// it fills is zero; a flat position needs none.
pub proof fn law_flatten_closes_position(inst: InstrumentId, position: Dec)
    requires
        position.wf(),
    ensures
        position.mantissa == 0 <==> flatten_intent_of(inst, position) is None,
        flatten_intent_of(inst, position) matches Some(i) ==> i.order_type == OrderType::Market
            && i.instrument == inst && signed_qty_of(i.side, i.qty).mantissa == -position.mantissa
            && signed_qty_of(i.side, i.qty).scale == position.scale,
{
}

/// The market order that closes `position` on `inst`.
pub fn flatten_intent(inst: &InstrumentId, position: Dec) -> (r: Option<OrderIntent>)
    requires
        position.wf(),
    ensures
        r == flatten_intent_of(*inst, position),
        r matches Some(i) ==> i.wf(),
{
    if position.is_zero() {
        return None;
    }
    Some(
        OrderIntent {
            instrument: inst.clone(),
            side: if position.mantissa > 0 {
                Side::Sell
            } else {
                Side::Buy
            },
            order_type: OrderType::Market,
            price: None,
            stop_price: None,
            qty: position.abs(),
            client_order_id: None,
            oco_group: None,
            source: OrderIntentSource::Flatten,
            strategy_id: None,
        },
    )
}

/// Position held on `inst` (zero when it is not registered).
pub open spec fn position_of(state: GlobalState, inst: InstrumentId) -> Dec {
    match state.entry(inst) {
        Some(e) => e.position,
        None => zero_dec(),
    }
}

/// The order that closes the position on `inst`, if there is one.
pub fn close_position_intent(state: &GlobalState, inst: &InstrumentId) -> (r: Option<OrderIntent>)
    requires
        state.wf(),
    ensures
        r == flatten_intent_of(*inst, position_of(*state, *inst)),
{
    proof {
        lemma_find_instrument(state.instruments@, *inst, 0);
    }
    let position = match state.instrument_index(inst) {
        Some(k) => {
            assert(state.instruments@[k as int].wf());
            state.instruments[k].position
        },
        None => Dec::zero(),
    };
    flatten_intent(inst, position)
}

/// Instruments among the first `n` registered ones that hold a position, in registry order.
pub open spec fn flatten_targets_of(s: Seq<InstrumentState>, n: int) -> Seq<InstrumentId>
    decreases n,
{
    if n <= 0 {
        Seq::empty()
    } else {
        let prev = flatten_targets_of(s, n - 1);
        if s[n - 1].position.mantissa != 0 {
            prev.push(s[n - 1].id)
        } else {
            prev
        }
    }
}

/// Instruments that hold a position, in registry order.
pub fn flatten_targets(state: &GlobalState) -> (r: Vec<InstrumentId>)
    ensures
        r@ == flatten_targets_of(state.instruments@, state.instruments@.len() as int),
{
    let mut out: Vec<InstrumentId> = Vec::new();
    let mut i: usize = 0;
    while i < state.instruments.len()
        invariant
            i <= state.instruments@.len(),
            out@ == flatten_targets_of(state.instruments@, i as int),
        decreases state.instruments@.len() - i,
    {
        if !state.instruments[i].position.is_zero() {
            out.push(state.instruments[i].id.clone());
        }
        i = i + 1;
    }
    out
}

/// Every flatten target holds a position on a registered instrument.
pub proof fn law_flatten_targets_hold_positions(s: Seq<InstrumentState>, n: int)
    requires
        0 <= n <= s.len(),
    ensures
        forall|k: int|
            0 <= k < flatten_targets_of(s, n).len() ==> exists|j: int|
                0 <= j < n && s[j].id == #[trigger] flatten_targets_of(s, n)[k]
                    && s[j].position.mantissa != 0,
    decreases n,
{
    if n > 0 {
        law_flatten_targets_hold_positions(s, n - 1);
        let prev = flatten_targets_of(s, n - 1);
        let cur = flatten_targets_of(s, n);
        assert forall|k: int| 0 <= k < cur.len() implies exists|j: int|
            0 <= j < n && s[j].id == #[trigger] cur[k] && s[j].position.mantissa != 0 by {
            if k < prev.len() {
                assert(cur[k] == prev[k]);
                let j = choose|j: int|
                    0 <= j < n - 1 && s[j].id == #[trigger] prev[k] && s[j].position.mantissa != 0;
                assert(s[j].id == cur[k]);
            } else {
                assert(cur[k] == s[n - 1].id);
            }
        }
    }
}

/// A copy of an intent.
impl Clone for OrderIntent {
    fn clone(&self) -> (r: Self)
        ensures
            r == *self,
    {
        OrderIntent {
            instrument: self.instrument.clone(),
            side: self.side,
            order_type: self.order_type,
            price: self.price,
            stop_price: self.stop_price,
            qty: self.qty,
            client_order_id: clone_text(&self.client_order_id),
            oco_group: clone_text(&self.oco_group),
            source: self.source,
            strategy_id: clone_text(&self.strategy_id),
        }
    }
}

/// The intents among the first `n` that target `inst`, in order.
pub open spec fn intents_on(s: Seq<OrderIntent>, inst: InstrumentId, n: int) -> Seq<OrderIntent>
    decreases n,
{
    if n <= 0 {
        Seq::empty()
    } else {
        let prev = intents_on(s, inst, n - 1);
        if s[n - 1].instrument.same(inst) {
            prev.push(s[n - 1])
        } else {
            prev
        }
    }
}

/// The intents among the first `n` that target another instrument, in order.
pub open spec fn intents_off(s: Seq<OrderIntent>, inst: InstrumentId, n: int) -> Seq<OrderIntent>
    decreases n,
{
    if n <= 0 {
        Seq::empty()
    } else {
        let prev = intents_off(s, inst, n - 1);
        if s[n - 1].instrument.same(inst) {
            prev
        } else {
            prev.push(s[n - 1])
        }
    }
}

/// Releasing the intents of one instrument loses none and keeps none twice: the released and
/// the still deferred intents together are as many as before, every released one targets the
/// instrument and every kept one another instrument.
pub proof fn law_release_partitions_intents(s: Seq<OrderIntent>, inst: InstrumentId, n: int)
    requires
        0 <= n <= s.len(),
    ensures
        intents_on(s, inst, n).len() + intents_off(s, inst, n).len() == n,
        forall|k: int|
            0 <= k < intents_on(s, inst, n).len() ==> (#[trigger] intents_on(s, inst, n)[k]).instrument.same(
                inst,
            ),
        forall|k: int|
            0 <= k < intents_off(s, inst, n).len() ==> !(#[trigger] intents_off(s, inst, n)[k]).instrument.same(
                inst,
            ),
    decreases n,
{
    if n > 0 {
        law_release_partitions_intents(s, inst, n - 1);
        let on = intents_on(s, inst, n - 1);
        let off = intents_off(s, inst, n - 1);
        if s[n - 1].instrument.same(inst) {
            assert forall|k: int| 0 <= k < on.push(s[n - 1]).len() implies (#[trigger] on.push(
                s[n - 1],
            )[k]).instrument.same(inst) by {
                if k < on.len() {
                    assert(on.push(s[n - 1])[k] == on[k]);
                }
            }
        } else {
            assert forall|k: int| 0 <= k < off.push(s[n - 1]).len() implies !(#[trigger] off.push(
                s[n - 1],
            )[k]).instrument.same(inst) by {
                if k < off.len() {
                    assert(off.push(s[n - 1])[k] == off[k]);
                }
            }
        }
    }
}

/// Release the deferred intents for `inst`: they are returned in the order they were
/// deferred, and the others stay deferred in their order.
pub fn take_pending_for_instrument(pending: &mut Vec<OrderIntent>, inst: &InstrumentId) -> (r: Vec<
    OrderIntent,
>)
    ensures
        r@ == intents_on(old(pending)@, *inst, old(pending)@.len() as int),
        final(pending)@ == intents_off(old(pending)@, *inst, old(pending)@.len() as int),
{
    let mut ready: Vec<OrderIntent> = Vec::new();
    let mut rest: Vec<OrderIntent> = Vec::new();
    let mut i: usize = 0;
    while i < pending.len()
        invariant
            i <= pending@.len(),
            pending@ == old(pending)@,
            ready@ == intents_on(pending@, *inst, i as int),
            rest@ == intents_off(pending@, *inst, i as int),
        decreases pending@.len() - i,
    {
        if pending[i].instrument.same_as(inst) {
            ready.push(pending[i].clone());
        } else {
            rest.push(pending[i].clone());
        }
        i = i + 1;
    }
    *pending = rest;
    ready
}

/// Ids of the working orders among the first `n` with client id `client`, in book order.
pub open spec fn client_order_ids_of(orders: Seq<OpenOrder>, client: Seq<char>, n: int) -> Seq<u128>
    decreases n,
{
    if n <= 0 {
        Seq::empty()
    } else {
        let prev = client_order_ids_of(orders, client, n - 1);
        if orders[n - 1].client_order_id matches Some(c) && c@ == client {
            prev.push(orders[n - 1].id)
        } else {
            prev
        }
    }
}

/// The working orders a cancel-by-client-id command targets; an unknown client id is refused.
pub fn cancel_client_order_ids(state: &GlobalState, client_id: &String) -> (r: Result<Vec<u128>, Error>)
    ensures
        match r {
            Ok(ids) => ids@ == client_order_ids_of(
                state.open_orders@,
                client_id@,
                state.open_orders@.len() as int,
            ) && ids@.len() > 0,
            Err(e) => client_order_ids_of(
                state.open_orders@,
                client_id@,
                state.open_orders@.len() as int,
            ).len() == 0 && e.failure() == (
                ErrorKind::Invalid,
                "unknown client order id "@ + client_id@,
            ),
        },
{
    let mut ids: Vec<u128> = Vec::new();
    let mut i: usize = 0;
    while i < state.open_orders.len()
        invariant
            i <= state.open_orders@.len(),
            ids@ == client_order_ids_of(state.open_orders@, client_id@, i as int),
        decreases state.open_orders@.len() - i,
    {
        let hit = match &state.open_orders[i].client_order_id {
            Some(c) => *c == *client_id,
            None => false,
        };
        if hit {
            ids.push(state.open_orders[i].id);
        }
        i = i + 1;
    }
    if ids.len() == 0 {
        let mut m = String::new();
        m.append("unknown client order id ");
        m.append(client_id.as_str());
        return Err(Error::Invalid(m));
    }
    Ok(ids)
}

/// The record of a refused intent, stamped with the last event time (the Unix epoch when there
/// is none).
pub fn rejection_record(state: &GlobalState, kind: RejectionKind, intent: &OrderIntent, reason: String) -> (r:
    RejectionRecord)
    ensures
        r.ts_unix_nanos == match state.last_event_ts {
            Some(t) => t,
            None => 0,
        },
        r.kind == kind,
        r.instrument == intent.instrument,
        r.client_order_id == intent.client_order_id,
        r.reason == reason,
{
    RejectionRecord {
        ts_unix_nanos: match state.last_event_ts {
            Some(t) => t,
            None => 0,
        },
        kind,
        instrument: intent.instrument.clone(),
        client_order_id: clone_text(&intent.client_order_id),
        reason,
    }
}


/// An operator command to the running engine (the reply channel stays with the program).
pub enum EngineCommandRequest {
    /// List every working order.
    ListOpenOrders,
    /// Cancel every working order of an instrument and report how many cancels succeeded.
    CancelOrdersInstrument(InstrumentId),
    /// Cancel the instrument's working orders, then flatten its position with a market order.
    ClosePosition(InstrumentId),
}

/// What the engine does for a command.
#[derive(Debug)]
pub enum CommandAction {
    /// Reply with the working orders, in book order.
    ReplyOpenOrders(Vec<OpenOrder>),
    /// Cancel these orders one by one (stopping at the first failure) and reply with the count.
    CancelAndCount(Vec<u128>),
    /// Cancel these orders one by one (stopping at the first failure), then submit the flattening
    /// intent that `close_position_intent` gives for the state after the cancels.
    CancelThenClose(Vec<u128>),
}

/// Ids of the working orders among the first `n` that are on `inst`, in book order.
pub open spec fn instrument_order_ids_of(orders: Seq<OpenOrder>, inst: InstrumentId, n: int) -> Seq<u128>
    decreases n,
{
    if n <= 0 {
        Seq::empty()
    } else {
        let prev = instrument_order_ids_of(orders, inst, n - 1);
        if orders[n - 1].instrument.same(inst) {
            prev.push(orders[n - 1].id)
        } else {
            prev
        }
    }
}

/// The action for a command, with the orders' plain values.
pub open spec fn command_of(state: GlobalState, cmd: EngineCommandRequest) -> (int, Seq<u128>) {
    match cmd {
        EngineCommandRequest::ListOpenOrders => (0, Seq::empty()),
        EngineCommandRequest::CancelOrdersInstrument(inst) => (
            1,
            instrument_order_ids_of(state.open_orders@, inst, state.open_orders@.len() as int),
        ),
        EngineCommandRequest::ClosePosition(inst) => (
            2,
            instrument_order_ids_of(state.open_orders@, inst, state.open_orders@.len() as int),
        ),
    }
}

/// The ids of the working orders on an instrument, in book order.
pub fn instrument_order_ids(state: &GlobalState, inst: &InstrumentId) -> (r: Vec<u128>)
    ensures
        r@ == instrument_order_ids_of(state.open_orders@, *inst, state.open_orders@.len() as int),
{
    let mut ids: Vec<u128> = Vec::new();
    let mut i: usize = 0;
    while i < state.open_orders.len()
        invariant
            i <= state.open_orders@.len(),
            ids@ == instrument_order_ids_of(state.open_orders@, *inst, i as int),
        decreases state.open_orders@.len() - i,
    {
        if state.open_orders[i].instrument.same_as(inst) {
            ids.push(state.open_orders[i].id);
        }
        i = i + 1;
    }
    ids
}

/// Copy of the working orders, in book order.
fn open_orders_copy(state: &GlobalState) -> (r: Vec<OpenOrder>)
    ensures
        r@ == state.open_orders@,
{
    let mut out: Vec<OpenOrder> = Vec::new();
    let mut i: usize = 0;
    while i < state.open_orders.len()
        invariant
            i <= state.open_orders@.len(),
            out@ == state.open_orders@.subrange(0, i as int),
        decreases state.open_orders@.len() - i,
    {
        out.push(state.open_orders[i].clone());
        assert(out@ =~= state.open_orders@.subrange(0, i + 1));
        i = i + 1;
    }
    assert(state.open_orders@.subrange(0, state.open_orders@.len() as int) =~= state.open_orders@);
    out
}

/// Decide what a command does; the program performs the cancels and placements and sends the
/// reply.
pub fn command_step(state: &GlobalState, cmd: &EngineCommandRequest) -> (r: CommandAction)
    ensures
        match r {
            CommandAction::ReplyOpenOrders(v) => command_of(*state, *cmd).0 == 0 && v@
                == state.open_orders@,
            CommandAction::CancelAndCount(ids) => command_of(*state, *cmd) == (1int, ids@),
            CommandAction::CancelThenClose(ids) => command_of(*state, *cmd) == (2int, ids@),
        },
{
    match cmd {
        EngineCommandRequest::ListOpenOrders => CommandAction::ReplyOpenOrders(open_orders_copy(state)),
        EngineCommandRequest::CancelOrdersInstrument(inst) => CommandAction::CancelAndCount(
            instrument_order_ids(state, inst),
        ),
        EngineCommandRequest::ClosePosition(inst) => CommandAction::CancelThenClose(
            instrument_order_ids(state, inst),
        ),
    }
}


/// The result of one cancel the program performed for a command.
#[derive(Debug)]
pub enum CancelOutcome {
    Canceled,
    /// The cancel failed with this message.
    Failed(String),
}

/// The reply a command ends with.
#[derive(Debug)]
pub enum CommandReply {
    /// The working orders.
    Orders(Vec<OpenOrder>),
    /// How many cancels succeeded, or the message of the first failure.
    Count(Result<usize, String>),
    /// The position is flat (or was flattened), or the message of what failed.
    Closed(Result<(), String>),
}

/// What the program does next for a command in progress.
#[derive(Debug)]
pub enum CommandNext {
    /// Cancel this order, apply what the venue reports, and report the outcome.
    Cancel(u128),
    /// Run the risk checks on this intent and report the verdict.
    CheckRisk(OrderIntent),
    /// Place this intent, apply what the venue reports, and report the outcome.
    Place(OrderIntent),
    /// Send this reply; the command is finished.
    Reply(CommandReply),
}

/// The message of the first failed cancel among the first `n`.
pub open spec fn first_failure(done: Seq<CancelOutcome>, n: int) -> Option<Seq<char>>
    decreases n,
{
    if n <= 0 {
        None
    } else {
        match first_failure(done, n - 1) {
            Some(m) => Some(m),
            None => match done[n - 1] {
                CancelOutcome::Failed(t) => Some(t@),
                CancelOutcome::Canceled => None,
            },
        }
    }
}

/// What follows once every cancel of a close-position command succeeded: nothing to do for a
/// flat position; else the risk check, then the placement, then the reply.
pub open spec fn close_progress_ok(
    intent: Option<OrderIntent>,
    risk: Option<Result<(), String>>,
    placed: Option<Result<(), String>>,
    r: CommandNext,
) -> bool {
    match intent {
        None => r matches CommandNext::Reply(CommandReply::Closed(Ok(()))),
        Some(i) => match risk {
            None => r == CommandNext::CheckRisk(i),
            Some(Err(m)) => r matches CommandNext::Reply(CommandReply::Closed(Err(t))) && t@ == m@,
            Some(Ok(())) => match placed {
                None => r == CommandNext::Place(i),
                Some(Ok(())) => r matches CommandNext::Reply(CommandReply::Closed(Ok(()))),
                Some(Err(m)) => r matches CommandNext::Reply(CommandReply::Closed(Err(t))) && t@
                    == m@,
            },
        },
    }
}

/// The next step of a command: `targets` are the orders `command_step` chose, `done` the
/// outcomes of the cancels performed so far (in order), `risk` and `placed` the verdict and the
/// placement result of the flattening order once they are known. The first failed cancel ends
/// the command with its message.
pub fn command_progress(
    state: &GlobalState,
    cmd: &EngineCommandRequest,
    targets: &Vec<u128>,
    done: &Vec<CancelOutcome>,
    risk: &Option<Result<(), String>>,
    placed: &Option<Result<(), String>>,
) -> (r: CommandNext)
    requires
        state.wf(),
        done@.len() <= targets@.len(),
    ensures
        match *cmd {
            EngineCommandRequest::ListOpenOrders => r matches CommandNext::Reply(
                CommandReply::Orders(v),
            ) && v@ == state.open_orders@,
            EngineCommandRequest::CancelOrdersInstrument(_) => match first_failure(
                done@,
                done@.len() as int,
            ) {
                Some(m) => r matches CommandNext::Reply(CommandReply::Count(Err(t))) && t@ == m,
                None => if done@.len() < targets@.len() {
                    r == CommandNext::Cancel(targets@[done@.len() as int])
                } else {
                    r matches CommandNext::Reply(CommandReply::Count(Ok(k))) && k == done@.len()
                },
            },
            EngineCommandRequest::ClosePosition(inst) => match first_failure(
                done@,
                done@.len() as int,
            ) {
                Some(m) => r matches CommandNext::Reply(CommandReply::Closed(Err(t))) && t@ == m,
                None => if done@.len() < targets@.len() {
                    r == CommandNext::Cancel(targets@[done@.len() as int])
                } else {
                    close_progress_ok(
                        flatten_intent_of(inst, position_of(*state, inst)),
                        *risk,
                        *placed,
                        r,
                    )
                },
            },
        },
{
    let inst = match cmd {
        EngineCommandRequest::ListOpenOrders => {
            return CommandNext::Reply(CommandReply::Orders(open_orders_copy(state)));
        },
        EngineCommandRequest::CancelOrdersInstrument(i) => i,
        EngineCommandRequest::ClosePosition(i) => i,
    };
    let closing = match cmd {
        EngineCommandRequest::ClosePosition(_) => true,
        _ => false,
    };
    let mut k: usize = 0;
    while k < done.len()
        invariant
            k <= done@.len(),
            first_failure(done@, k as int) is None,
            !(*cmd is ListOpenOrders),
            closing == (*cmd is ClosePosition),
        decreases done@.len() - k,
    {
        match &done[k] {
            CancelOutcome::Failed(t) => {
                proof {
                    lemma_first_failure_sticks(done@, (k + 1) as int, done@.len() as int);
                }
                let m = t.clone();
                if closing {
                    return CommandNext::Reply(CommandReply::Closed(Err(m)));
                } else {
                    return CommandNext::Reply(CommandReply::Count(Err(m)));
                }
            },
            CancelOutcome::Canceled => {},
        }
        k = k + 1;
    }
    if done.len() < targets.len() {
        return CommandNext::Cancel(targets[done.len()]);
    }
    if !closing {
        return CommandNext::Reply(CommandReply::Count(Ok(done.len())));
    }
    let intent = match close_position_intent(state, inst) {
        None => {
            return CommandNext::Reply(CommandReply::Closed(Ok(())));
        },
        Some(i) => i,
    };
    match risk {
        None => CommandNext::CheckRisk(intent),
        Some(Err(m)) => CommandNext::Reply(CommandReply::Closed(Err(m.clone()))),
        Some(Ok(())) => match placed {
            None => CommandNext::Place(intent),
            Some(Ok(())) => CommandNext::Reply(CommandReply::Closed(Ok(()))),
            Some(Err(m)) => CommandNext::Reply(CommandReply::Closed(Err(m.clone()))),
        },
    }
}

/// A failure among the first `n` cancels is the first failure of every longer prefix.
proof fn lemma_first_failure_sticks(done: Seq<CancelOutcome>, n: int, total: int)
    requires
        0 < n <= total,
        first_failure(done, n) is Some,
    ensures
        first_failure(done, total) == first_failure(done, n),
    decreases total - n,
{
    if n < total {
        lemma_first_failure_sticks(done, n, total - 1);
    }
}


/// How an intent the strategy asked for fared.
#[derive(Debug)]
pub enum IntentOutcome {
    /// The risk checks refused it with this message.
    RiskRejected(String),
    /// It was placed and the venue reported this many account events (applied to the state).
    Executed(usize),
    /// Placing it failed with this message.
    ExecutionFailed(String),
}

/// Audit records of the event loop.
#[derive(Debug)]
pub enum EngineAudit {
    /// An input event was taken in.
    EventIngested { ts_unix_ns: Option<i128>, kind: EngineAuditEventKind },
    /// The strategy was not run for this event.
    StrategySkipped { reason: StrategySkipReason },
    /// The risk checks refused an intent (the intent is the one at this position of the
    /// strategy's list).
    RiskRejected { intent_index: usize, message: String },
    /// Placing an intent failed.
    ExecutionError { message: String },
    /// Account events were applied after a placement.
    IntentsExecuted { account_events: usize },
    /// A control command was applied.
    ControlApplied { control: ControlEventSummary },
}

/// The audit kind of an event.
pub open spec fn event_kind_of(ev: Event) -> EngineAuditEventKind {
    match ev {
        Event::Market(_) => EngineAuditEventKind::Market,
        Event::Account(_) => EngineAuditEventKind::Account,
        Event::Control(_) => EngineAuditEventKind::Control,
        Event::Timer(_) => EngineAuditEventKind::Timer,
    }
}

/// The record of taking an event in: its time (market and timer events) and kind.
pub fn ingest_audit(ev: &Event) -> (r: EngineAudit)
    ensures
        r matches EngineAudit::EventIngested { ts_unix_ns, kind } && ts_unix_ns == event_ts(*ev)
            && kind == event_kind_of(*ev),
{
    let kind = match ev {
        Event::Market(_) => EngineAuditEventKind::Market,
        Event::Account(_) => EngineAuditEventKind::Account,
        Event::Control(_) => EngineAuditEventKind::Control,
        Event::Timer(_) => EngineAuditEventKind::Timer,
    };
    EngineAudit::EventIngested { ts_unix_ns: ev.timestamp(), kind }
}

/// The record of an intent's outcome: the refusal, the failure, or the number of applied
/// account events when there were any.
pub fn intent_audit(index: usize, outcome: &IntentOutcome) -> (r: Option<EngineAudit>)
    ensures
        match *outcome {
            IntentOutcome::RiskRejected(m) => r matches Some(EngineAudit::RiskRejected { intent_index, message })
                && intent_index == index && message@ == m@,
            IntentOutcome::Executed(n) => if n > 0 {
                r matches Some(EngineAudit::IntentsExecuted { account_events }) && account_events == n
            } else {
                r is None
            },
            IntentOutcome::ExecutionFailed(m) => r matches Some(EngineAudit::ExecutionError { message })
                && message@ == m@,
        },
{
    match outcome {
        IntentOutcome::RiskRejected(m) => Some(
            EngineAudit::RiskRejected { intent_index: index, message: m.clone() },
        ),
        IntentOutcome::Executed(n) => if *n > 0 {
            Some(EngineAudit::IntentsExecuted { account_events: *n })
        } else {
            None
        },
        IntentOutcome::ExecutionFailed(m) => Some(EngineAudit::ExecutionError { message: m.clone() }),
    }
}

/// What the engine does next for an event.
#[derive(Debug, PartialEq, Eq)]
pub enum EventNext {
    /// Record the ingest audit, then take the event in: apply a market update and the account
    /// events of polling the resting orders, apply an account event, or apply a control
    /// command (recording `ControlApplied`); a timer tick changes nothing.
    Ingest,
    /// Record the skip and stop: the strategy does not run for this event.
    Skip(StrategySkipReason),
    /// Run the strategy on the event and report the intents it asks for.
    CallStrategy,
    /// Check, place and apply the intent at this position of the strategy's list, then record
    /// its outcome.
    HandleIntent(usize),
    /// The event is finished.
    Done,
}

/// The next step for an event: take it in first; then, on the state after that, skip the
/// strategy when paused or trading is off; otherwise run it and handle its intents one by one
/// in order.
pub open spec fn event_next_of(
    state: GlobalState,
    ingested: bool,
    intents: Option<nat>,
    handled: nat,
) -> EventNext {
    if !ingested {
        EventNext::Ingest
    } else {
        match skip_reason_of(state.paused, state.trading_state) {
            Some(r) => EventNext::Skip(r),
            None => match intents {
                None => EventNext::CallStrategy,
                Some(n) => if handled < n {
                    EventNext::HandleIntent(handled as usize)
                } else {
                    EventNext::Done
                },
            },
        }
    }
}

/// Every event is taken in before anything else happens, and while the engine is paused or
/// trading is disabled the strategy never runs and no intent is handled: the step after the
/// event is in is to record the skip.
pub proof fn law_blocked_strategy_never_runs(
    state: GlobalState,
    ingested: bool,
    intents: Option<nat>,
    handled: nat,
)
    ensures
        !ingested ==> event_next_of(state, ingested, intents, handled) == EventNext::Ingest,
        ingested && state.paused ==> event_next_of(state, ingested, intents, handled)
            == EventNext::Skip(StrategySkipReason::Paused),
        ingested && !state.paused && state.trading_state == TradingState::Disabled ==> event_next_of(
            state,
            ingested,
            intents,
            handled,
        ) == EventNext::Skip(StrategySkipReason::TradingDisabled),
        ingested && !state.paused && state.trading_state != TradingState::Disabled && intents is None
            ==> event_next_of(state, ingested, intents, handled) == EventNext::CallStrategy,
{
}

/// Once an event is taken in and the strategy may run, the intents it returned are handled one
/// at a time in their order: with `k` outcomes recorded the next step handles intent `k`, so over
/// the run each of the `n` intents is handled exactly once, and once all have outcomes the event
/// is done.
pub proof fn law_intents_handled_once_in_order(state: GlobalState, n: nat)
    requires
        !state.paused,
        state.trading_state != TradingState::Disabled,
        n <= usize::MAX,
    ensures
        forall|k: nat|
            k < n ==> #[trigger] event_next_of(state, true, Some(n), k) == EventNext::HandleIntent(
                k as usize,
            ),
        forall|k1: nat, k2: nat|
            k1 < n && k2 < n && k1 != k2 ==> #[trigger] event_next_of(state, true, Some(n), k1)
                != #[trigger] event_next_of(state, true, Some(n), k2),
        forall|k: nat| k >= n ==> #[trigger] event_next_of(state, true, Some(n), k) == EventNext::Done,
{
}

/// Decide the next step of processing an event, given whether it has been taken in, the
/// strategy's intents once it has run, and the outcomes of the intents handled so far.
pub fn event_step(
    state: &GlobalState,
    ingested: bool,
    intents: &Option<Vec<OrderIntent>>,
    outcomes: &Vec<IntentOutcome>,
) -> (r: EventNext)
    ensures
        r == event_next_of(
            *state,
            ingested,
            match *intents {
                Some(v) => Some(v@.len()),
                None => None,
            },
            outcomes@.len(),
        ),
{
    if !ingested {
        return EventNext::Ingest;
    }
    if let Some(reason) = strategy_skip_reason(state) {
        return EventNext::Skip(reason);
    }
    match intents {
        None => EventNext::CallStrategy,
        Some(v) => if outcomes.len() < v.len() {
            EventNext::HandleIntent(outcomes.len())
        } else {
            EventNext::Done
        },
    }
}

} // verus!
