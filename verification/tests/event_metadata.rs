use athenas_pallas::config::InstrumentId;
use athenas_pallas::decimal::Dec;
use athenas_pallas::events::{
    AccountEvent, BookL2Snapshot, ControlEvent, Event, MarketEvent, RejectionKind, RejectionRecord,
    ReplayEvent, TimerEvent,
};

fn same_id(a: Option<&InstrumentId>, b: &InstrumentId) -> bool {
    a.is_some_and(|a| a.exchange == b.exchange && a.symbol == b.symbol)
}

#[test]
fn event_metadata_delegates_by_event_family() {
    let instrument = InstrumentId::new("test", "BTCUSDT");
    let ts: i128 = 42 * 1_000_000_000;
    let market = Event::Market(MarketEvent::BookL2Snapshot(BookL2Snapshot {
        instrument: instrument.clone(),
        ts,
        bids: vec![(Dec::one(), Dec::one())],
        asks: vec![],
        provenance: None,
    }));
    let rejection = Event::Account(AccountEvent::Rejection(RejectionRecord {
        ts_unix_nanos: ts,
        kind: RejectionKind::Risk,
        instrument: instrument.clone(),
        client_order_id: None,
        reason: "test".into(),
    }));
    let balance = Event::Account(AccountEvent::Balance { asset: "USDT".into(), free: Dec::one() });
    let timer = Event::Timer(TimerEvent { ts, id: 7 });
    let control = Event::Control(ControlEvent::Pause);

    assert!(same_id(market.instrument(), &instrument));
    assert_eq!(market.timestamp(), Some(ts));
    assert_eq!(market.timestamp_unix_nanos(), Some(ts));
    assert!(same_id(rejection.instrument(), &instrument));
    assert_eq!(rejection.timestamp(), None);
    assert!(balance.instrument().is_none());
    assert_eq!(timer.timestamp(), Some(ts));
    assert!(control.instrument().is_none());
}

#[test]
fn replay_bars_become_owned_market_bars() {
    let instrument = InstrumentId::new("test", "ES");
    let ts: i128 = 1_735_828_200_000_000_000;
    let replay = ReplayEvent::Bar {
        instrument: &instrument,
        ts,
        open: Dec::new(1, 0),
        high: Dec::new(3, 0),
        low: Dec::new(1, 0),
        close: Dec::new(2, 0),
        volume: Dec::new(9, 0),
    };
    assert_eq!(replay.timestamp(), ts);
    assert_eq!(replay.instrument().symbol, "ES");
    let owned = replay.to_event();
    assert_eq!(owned.timestamp(), Some(ts));
    assert!(same_id(owned.instrument(), &instrument));
    match owned {
        Event::Market(MarketEvent::Bar { close, volume, .. }) => {
            assert_eq!((close.mantissa, volume.mantissa), (2, 9));
        }
        other => panic!("unexpected {other:?}"),
    }
    assert_eq!(Event::Timer(TimerEvent { ts: 5, id: 1 }).timestamp_or_now(), 5);
}
