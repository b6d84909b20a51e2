use athenas_pallas::config::{AssetClass, InstrumentId};
use athenas_pallas::decimal::Dec;
use athenas_pallas::error::Error;
use athenas_pallas::events::{AccountEvent, OrderIntent, OrderIntentSource};
use athenas_pallas::execution::{
    apply_slippage, fee_notional, round_price_to_tick, round_qty_to_lot, FillEngine, FillModel,
    PaperConfig, TouchCrossFillModel,
};
use athenas_pallas::orders::{OpenOrder, OrderStatus, OrderType, Side};
use athenas_pallas::state::{Balance, GlobalState, InstrumentMeta, InstrumentState, TradingState};
use std::collections::HashMap;

fn dec(m: i128, s: u32) -> Dec {
    Dec::new(m, s)
}

fn same(a: Dec, b: Dec) -> bool {
    let s = a.scale.max(b.scale);
    a.mantissa * 10i128.pow(s - a.scale) == b.mantissa * 10i128.pow(s - b.scale)
}

fn lt(a: Dec, b: Dec) -> bool {
    let s = a.scale.max(b.scale);
    a.mantissa * 10i128.pow(s - a.scale) < b.mantissa * 10i128.pow(s - b.scale)
}

fn state_with(bid: Dec, ask: Dec, quote: Dec) -> GlobalState {
    GlobalState {
        instruments: vec![InstrumentState {
            id: InstrumentId::new("test", "BTCUSDT"),
            meta: InstrumentMeta::spot("BTC", "USDT"),
            position: Dec::zero(),
            average_entry_price: None,
            l1: Some((bid, ask)),
            bar: None,
            mid_or_last: None,
        }],
        balances: vec![Balance { asset: "USDT".to_string(), free: quote }],
        open_orders: Vec::new(),
        last_event_ts: None,
        paused: false,
        trading_state: TradingState::Enabled,
    }
}

fn setup_l1(bid: Dec, ask: Dec) -> GlobalState {
    state_with(bid, ask, dec(10_000, 0))
}

fn intent(side: Side, order_type: OrderType, price: Option<Dec>, qty: Dec) -> OrderIntent {
    OrderIntent {
        instrument: InstrumentId::new("test", "BTCUSDT"),
        side,
        order_type,
        price,
        stop_price: None,
        qty,
        client_order_id: None,
        oco_group: None,
        source: OrderIntentSource::User,
        strategy_id: None,
    }
}

fn fill_price(evs: &[AccountEvent]) -> Option<Dec> {
    evs.iter().find_map(|e| match e {
        AccountEvent::Fill { price, .. } => Some(*price),
        _ => None,
    })
}

fn apply_balances(balances: &mut HashMap<String, Dec>, evs: &[AccountEvent]) {
    for e in evs {
        if let AccountEvent::Balance { asset, free } = e {
            balances.insert(asset.clone(), *free);
        }
    }
}

fn open_order_from(e: &AccountEvent) -> OpenOrder {
    match e {
        AccountEvent::OrderUpdate {
            id,
            instrument,
            side,
            order_type,
            price,
            stop_price,
            remaining_qty,
            original_qty,
            status,
            client_order_id,
            oco_group,
            strategy_id,
        } => OpenOrder {
            id: *id,
            instrument: instrument.clone(),
            side: *side,
            order_type: *order_type,
            price: *price,
            stop_price: *stop_price,
            remaining_qty: *remaining_qty,
            original_qty: *original_qty,
            status: *status,
            client_order_id: client_order_id.clone(),
            oco_group: oco_group.clone(),
            strategy_id: strategy_id.clone(),
        },
        _ => panic!("expected an order update"),
    }
}

#[test]
fn paper_buy_limit_at_ask_fills() {
    let state = setup_l1(dec(100, 0), dec(101, 0));
    let gw = FillEngine::new(PaperConfig::default());
    let i = intent(Side::Buy, OrderType::Limit, Some(dec(101, 0)), dec(1, 2));
    let evs = gw.place_limit_sync(&state, &i, 1).unwrap();
    assert!(evs.iter().any(|e| matches!(e, AccountEvent::Fill { .. })));
}

#[test]
fn paper_market_fill_updates_balances_and_fee() {
    let st = setup_l1(dec(100, 0), dec(101, 0));
    let gw = FillEngine::new(PaperConfig {
        fee_bps: dec(100, 0),
        market_slippage_bps: Dec::zero(),
        ..PaperConfig::default()
    });
    let i = intent(Side::Buy, OrderType::Market, None, Dec::one());
    let evs = gw.place_market_sync(&st, &i, 7).unwrap();
    let mut balances: HashMap<String, Dec> = HashMap::new();
    balances.insert("USDT".to_string(), dec(10_000, 0));
    apply_balances(&mut balances, &evs);
    let quote = balances["USDT"];
    assert!(lt(quote, dec(10_000, 0)));
    let base = balances.get("BTC").copied().unwrap_or(Dec::zero());
    assert!(same(base, Dec::one()));
    // 101 paid plus a 1% fee of 1.01
    assert!(same(quote, dec(989_799, 2)));
}

#[test]
fn paper_slippage_moves_fill_price() {
    let state = setup_l1(dec(100, 0), dec(100, 0));
    let low = FillEngine::new(PaperConfig {
        market_slippage_bps: Dec::zero(),
        ..PaperConfig::default()
    });
    let high = FillEngine::new(PaperConfig {
        market_slippage_bps: dec(100, 0),
        ..PaperConfig::default()
    });
    let i = intent(Side::Buy, OrderType::Market, None, Dec::one());
    let low_fill = fill_price(&low.place_market_sync(&state, &i, 1).unwrap()).unwrap();
    let high_fill = fill_price(&high.place_market_sync(&state, &i, 2).unwrap()).unwrap();
    assert!(lt(low_fill, high_fill));
}

#[test]
fn paper_buy_limit_below_bid_does_not_fill() {
    let state = setup_l1(dec(100, 0), dec(101, 0));
    let gw = FillEngine::new(PaperConfig::default());
    let i = intent(Side::Buy, OrderType::Limit, Some(dec(99, 0)), dec(1, 2));
    let evs = gw.place_limit_sync(&state, &i, 1).unwrap();
    assert!(!evs.iter().any(|e| matches!(e, AccountEvent::Fill { .. })));
    assert_eq!(evs.len(), 1);
}

#[test]
fn market_buy_rejects_insufficient_quote() {
    let state = state_with(dec(40_000, 0), dec(40_010, 0), Dec::one());
    let gw = FillEngine::new(PaperConfig::default());
    let i = intent(Side::Buy, OrderType::Market, None, Dec::one());
    let err = gw.place_market_sync(&state, &i, 1).unwrap_err();
    assert!(matches!(err, Error::ExecutionRejected(_)));
    assert_eq!(err.to_text(), "execution rejected: insufficient quote balance");
}

#[test]
fn oco_fill_cancels_sibling_and_prevents_double_fill() {
    let mut state = setup_l1(dec(100, 0), dec(101, 0));
    let gateway = FillEngine::new(PaperConfig {
        fee_bps: Dec::zero(),
        market_slippage_bps: Dec::zero(),
        ..PaperConfig::default()
    });
    for (id, client_id) in [(1u128, "take-profit-a"), (2u128, "take-profit-b")] {
        let mut i = intent(Side::Buy, OrderType::Limit, Some(dec(99, 0)), Dec::one());
        i.client_order_id = Some(client_id.to_string());
        i.oco_group = Some("bracket-1".to_string());
        let evs = gateway.place_limit_sync(&state, &i, id).unwrap();
        assert_eq!(evs.len(), 1);
        state.open_orders.push(open_order_from(&evs[0]));
    }
    state.instruments[0].l1 = Some((dec(98, 0), dec(99, 0)));
    let inst = InstrumentId::new("test", "BTCUSDT");
    let events = gateway
        .poll_after_market_instrument_sync(&state, &inst)
        .unwrap();
    assert_eq!(
        events
            .iter()
            .filter(|event| matches!(event, AccountEvent::Fill { .. }))
            .count(),
        1
    );
    assert!(events.iter().any(|event| matches!(
        event,
        AccountEvent::OrderUpdate {
            status: OrderStatus::Canceled,
            ..
        }
    )));
}

#[test]
fn touch_cross_model_compares_against_the_touch() {
    let m = TouchCrossFillModel;
    assert_eq!(m.name(), "touch_cross");
    assert!(m.limit_would_fill(Side::Buy, dec(101, 0), dec(100, 0), dec(101, 0)));
    assert!(!m.limit_would_fill(Side::Buy, dec(1005, 1), dec(100, 0), dec(101, 0)));
    assert!(m.limit_would_fill(Side::Sell, dec(100, 0), dec(100, 0), dec(101, 0)));
    assert!(!m.limit_would_fill(Side::Sell, dec(10001, 2), dec(100, 0), dec(101, 0)));
}

#[test]
fn slippage_and_fee_formulas() {
    // 100 * 5 / 10000 = 0.05
    assert!(same(apply_slippage(Side::Buy, dec(100, 0), dec(5, 0)).unwrap(), dec(10005, 2)));
    assert!(same(apply_slippage(Side::Sell, dec(100, 0), dec(5, 0)).unwrap(), dec(9995, 2)));
    assert!(same(apply_slippage(Side::Buy, dec(100, 0), Dec::zero()).unwrap(), dec(100, 0)));
    assert!(same(fee_notional(dec(2000, 0), dec(10, 0)).unwrap(), dec(2, 0)));
}

#[test]
fn lot_and_tick_rounding() {
    // 1.2345 lots of 0.01 round down to 1.23
    assert!(same(round_qty_to_lot(dec(12345, 4), dec(1, 2)).unwrap(), dec(123, 2)));
    // 100.125 to a 0.25 tick: 400.5 ticks rounds to 400 (ties to even)
    assert!(same(round_price_to_tick(dec(100125, 3), dec(25, 2)).unwrap(), dec(100, 0)));
    assert!(same(round_price_to_tick(dec(1001, 1), Dec::zero()).unwrap(), dec(1001, 1)));
}

#[test]
fn quantity_below_lot_is_refused() {
    let mut state = setup_l1(dec(100, 0), dec(101, 0));
    state.instruments[0].meta.lot_size = Some(dec(1, 0));
    let gw = FillEngine::new(PaperConfig::default());
    let i = intent(Side::Buy, OrderType::Limit, Some(dec(101, 0)), dec(5, 1));
    let err = gw.place_limit_sync(&state, &i, 1).unwrap_err();
    assert_eq!(err.to_text(), "invalid: quantity below lot_size");
}

#[test]
fn unknown_instrument_and_order_are_refused() {
    let state = setup_l1(dec(100, 0), dec(101, 0));
    let gw = FillEngine::new(PaperConfig::default());
    let mut i = intent(Side::Buy, OrderType::Market, None, Dec::one());
    i.instrument = InstrumentId::new("test", "ETHUSDT");
    let err = gw.place_market_sync(&state, &i, 1).unwrap_err();
    assert_eq!(err.to_text(), "invalid: unknown instrument");
    let err = gw.cancel_sync(&state, 42).unwrap_err();
    assert_eq!(err.to_text(), "invalid: unknown order");
}

#[test]
fn wrong_intent_kind_is_refused() {
    let state = setup_l1(dec(100, 0), dec(101, 0));
    let gw = FillEngine::new(PaperConfig::default());
    let i = intent(Side::Buy, OrderType::Market, None, Dec::one());
    assert_eq!(
        gw.place_limit_sync(&state, &i, 1).unwrap_err().to_text(),
        "invalid: place_limit requires limit intent"
    );
    assert_eq!(
        gw.place_stop_market_sync(&state, &i, 1).unwrap_err().to_text(),
        "invalid: place_stop_market requires StopMarket"
    );
    assert_eq!(
        gw.place_stop_limit_sync(&state, &i, 1).unwrap_err().to_text(),
        "invalid: place_stop_limit requires StopLimit"
    );
    let li = intent(Side::Buy, OrderType::Limit, None, Dec::one());
    assert_eq!(
        gw.place_limit_sync(&state, &li, 1).unwrap_err().to_text(),
        "invalid: limit needs price"
    );
}

#[test]
fn spot_sell_needs_base() {
    let state = setup_l1(dec(100, 0), dec(101, 0));
    let gw = FillEngine::new(PaperConfig::default());
    let i = intent(Side::Sell, OrderType::Market, None, Dec::one());
    assert_eq!(
        gw.place_market_sync(&state, &i, 1).unwrap_err().to_text(),
        "execution rejected: insufficient base balance"
    );
}

#[test]
fn stop_market_fills_when_bar_reached_stop() {
    let mut state = setup_l1(dec(100, 0), dec(101, 0));
    state.instruments[0].bar = Some((dec(105, 0), dec(99, 0)));
    let gw = FillEngine::new(PaperConfig {
        market_slippage_bps: Dec::zero(),
        ..PaperConfig::default()
    });
    let mut i = intent(Side::Buy, OrderType::StopMarket, None, Dec::one());
    i.stop_price = Some(dec(104, 0));
    let evs = gw.place_stop_market_sync(&state, &i, 3).unwrap();
    assert!(same(fill_price(&evs).unwrap(), dec(101, 0)));
    i.stop_price = Some(dec(106, 0));
    let evs = gw.place_stop_market_sync(&state, &i, 4).unwrap();
    assert_eq!(evs.len(), 1);
    assert!(fill_price(&evs).is_none());
}

#[test]
fn cancel_all_cancels_every_order() {
    let mut state = setup_l1(dec(100, 0), dec(101, 0));
    let gw = FillEngine::new(PaperConfig::default());
    for id in [10u128, 11, 12] {
        let i = intent(Side::Buy, OrderType::Limit, Some(dec(90, 0)), Dec::one());
        let evs = gw.place_limit_sync(&state, &i, id).unwrap();
        state.open_orders.push(open_order_from(&evs[0]));
    }
    let evs = gw.cancel_all_sync(&state).unwrap();
    assert_eq!(evs.len(), 3);
    for (e, id) in evs.iter().zip([10u128, 11, 12]) {
        let o = open_order_from(e);
        assert_eq!(o.id, id);
        assert_eq!(o.status, OrderStatus::Canceled);
        assert!(o.remaining_qty.is_zero());
    }
    let one = gw.cancel_sync(&state, 11).unwrap();
    assert_eq!(open_order_from(&one[0]).id, 11);
}

#[test]
fn derivative_fee_only_check_without_margin_rate() {
    let mut state = setup_l1(dec(100, 0), dec(101, 0));
    state.instruments[0].meta.asset_class = AssetClass::Perpetual;
    state.balances[0].free = Dec::zero();
    let gw = FillEngine::new(PaperConfig::default());
    let i = intent(Side::Buy, OrderType::Market, None, Dec::one());
    assert_eq!(
        gw.place_market_sync(&state, &i, 1).unwrap_err().to_text(),
        "execution rejected: insufficient quote balance for fee"
    );
}

#[test]
fn derivative_margin_is_checked_when_opening() {
    let mut state = setup_l1(dec(100, 0), dec(100, 0));
    state.instruments[0].meta.asset_class = AssetClass::Future;
    state.instruments[0].meta.margin_initial_rate = Some(dec(1, 1));
    state.balances[0].free = dec(5, 0);
    let gw = FillEngine::new(PaperConfig {
        fee_bps: Dec::zero(),
        market_slippage_bps: Dec::zero(),
        ..PaperConfig::default()
    });
    let i = intent(Side::Buy, OrderType::Market, None, Dec::one());
    // margin 100 * 1 * 0.1 = 10 > 5
    assert_eq!(
        gw.place_market_sync(&state, &i, 1).unwrap_err().to_text(),
        "execution rejected: insufficient derivative margin"
    );
    state.balances[0].free = dec(10, 0);
    assert!(gw.place_market_sync(&state, &i, 1).is_ok());
}
