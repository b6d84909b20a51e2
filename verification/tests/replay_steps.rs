use athenas_pallas::audit::{EngineAuditEventKind, StrategySkipReason};
use athenas_pallas::calendar::SessionFilter;
use athenas_pallas::config::InstrumentId;
use athenas_pallas::decimal::Dec;
use athenas_pallas::engine::{event_step, ingest_audit, intent_audit, EngineAudit, EventNext, IntentOutcome};
use athenas_pallas::events::{ControlEvent, Event, MarketEvent, TimerEvent};
use athenas_pallas::runner::{replay_step, ReplayAction, ReplayCounters, ReplayDecision};
use athenas_pallas::state::{GlobalState, TradingState};

const SAT_NOON_NY: i128 = 1_704_560_400_000_000_000; // 2024-01-06 17:00Z
const TUE_11_NY: i128 = 1_704_211_200_000_000_000; // 2024-01-02 16:00Z

fn bar(ts: i128) -> Event {
    let d = Dec::new(1, 0);
    Event::Market(MarketEvent::Bar {
        instrument: InstrumentId::new("test", "SPY"),
        ts,
        open: d,
        high: d,
        low: d,
        close: d,
        volume: d,
    })
}

fn quote(ts: i128) -> Event {
    Event::Market(MarketEvent::BookL1 {
        instrument: InstrumentId::new("test", "SPY"),
        ts,
        bid: Dec::new(1, 0),
        ask: Dec::new(2, 0),
        provenance: None,
    })
}

fn empty_state(paused: bool, trading: TradingState) -> GlobalState {
    GlobalState {
        instruments: Vec::new(),
        balances: Vec::new(),
        open_orders: Vec::new(),
        last_event_ts: None,
        paused,
        trading_state: trading,
    }
}

const START: ReplayCounters = ReplayCounters { accepted: 63, processed: 10, first_ts: None, last_ts: None };

#[test]
fn replay_bars_go_through_the_bar_pipeline() {
    match replay_step(&START, SessionFilter::Unfiltered, &bar(TUE_11_NY)) {
        ReplayDecision::Process { counters, check_cancel, actions } => {
            assert_eq!((counters.accepted, counters.processed), (64, 11));
            assert_eq!((counters.first_ts, counters.last_ts), (Some(TUE_11_NY), Some(TUE_11_NY)));
            assert!(check_cancel);
            assert_eq!(actions.first(), Some(&ReplayAction::ApplyBarOpen));
            assert!(actions.contains(&ReplayAction::Lifecycle));
            assert!(!actions.contains(&ReplayAction::Dispatch));
            assert_eq!(actions.last(), Some(&ReplayAction::RecordEquity));
        }
        other => panic!("unexpected {other:?}"),
    }
}

#[test]
fn replay_quotes_and_timers_go_through_the_event_step() {
    match replay_step(&START, SessionFilter::Unfiltered, &quote(5)) {
        ReplayDecision::Process { actions, .. } => assert_eq!(
            actions,
            vec![
                ReplayAction::ApplyMarket,
                ReplayAction::RefreshRiskAnchor,
                ReplayAction::ReleasePending,
                ReplayAction::Dispatch,
                ReplayAction::RecordEquity
            ]
        ),
        other => panic!("unexpected {other:?}"),
    }
    match replay_step(&START, SessionFilter::Unfiltered, &Event::Timer(TimerEvent { ts: 5, id: 1 })) {
        ReplayDecision::Process { actions, check_cancel, .. } => {
            assert_eq!(actions, vec![ReplayAction::Dispatch, ReplayAction::RecordEquity]);
            assert!(check_cancel);
        }
        other => panic!("unexpected {other:?}"),
    }
}

#[test]
fn replay_drops_events_outside_the_session() {
    assert!(matches!(replay_step(&START, SessionFilter::EquityRth, &bar(SAT_NOON_NY)), ReplayDecision::Skip));
    assert!(matches!(replay_step(&START, SessionFilter::EquityRth, &bar(TUE_11_NY)), ReplayDecision::Process { .. }));
}

#[test]
fn event_step_ingests_then_gates_then_handles_intents() {
    let live = empty_state(false, TradingState::Enabled);
    assert_eq!(event_step(&live, false, &None, &Vec::new()), EventNext::Ingest);
    assert_eq!(event_step(&live, true, &None, &Vec::new()), EventNext::CallStrategy);
    assert_eq!(event_step(&live, true, &Some(Vec::new()), &Vec::new()), EventNext::Done);
    let paused = empty_state(true, TradingState::Disabled);
    assert_eq!(event_step(&paused, true, &None, &Vec::new()), EventNext::Skip(StrategySkipReason::Paused));
    let off = empty_state(false, TradingState::Disabled);
    assert_eq!(event_step(&off, true, &None, &Vec::new()), EventNext::Skip(StrategySkipReason::TradingDisabled));
}

#[test]
fn event_audits_record_kind_time_and_outcomes() {
    match ingest_audit(&bar(42)) {
        EngineAudit::EventIngested { ts_unix_ns, kind } => assert_eq!((ts_unix_ns, kind), (Some(42), EngineAuditEventKind::Market)),
        other => panic!("unexpected {other:?}"),
    }
    match ingest_audit(&Event::Control(ControlEvent::Pause)) {
        EngineAudit::EventIngested { ts_unix_ns, kind } => assert_eq!((ts_unix_ns, kind), (None, EngineAuditEventKind::Control)),
        other => panic!("unexpected {other:?}"),
    }
    assert!(intent_audit(0, &IntentOutcome::Executed(0)).is_none());
    assert!(matches!(intent_audit(0, &IntentOutcome::Executed(2)), Some(EngineAudit::IntentsExecuted { account_events: 2 })));
    match intent_audit(3, &IntentOutcome::RiskRejected("max position".to_string())) {
        Some(EngineAudit::RiskRejected { intent_index, message }) => assert_eq!((intent_index, message.as_str()), (3, "max position")),
        other => panic!("unexpected {other:?}"),
    }
}
