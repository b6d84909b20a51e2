use athenas_pallas::config::InstrumentId;
use athenas_pallas::decimal::Dec;
use athenas_pallas::events::FillRecord;
use athenas_pallas::orders::Side;
use athenas_pallas::report::report_costs;
use athenas_pallas::state::{GlobalState, InstrumentMeta, InstrumentState, TradingState};
use rust_decimal::Decimal;

fn instrument(symbol: &str, multiplier: Option<Dec>) -> InstrumentState {
    let mut meta = InstrumentMeta::spot(symbol, "USD");
    meta.contract_multiplier = multiplier;
    InstrumentState {
        id: InstrumentId::new("test", symbol),
        meta,
        position: Dec::zero(),
        average_entry_price: None,
        l1: None,
        bar: None,
        mid_or_last: None,
    }
}

fn state() -> GlobalState {
    GlobalState {
        instruments: vec![instrument("SPOT", None), instrument("ES", Some(Dec::new(50, 0)))],
        balances: Vec::new(),
        open_orders: Vec::new(),
        last_event_ts: None,
        paused: false,
        trading_state: TradingState::Enabled,
    }
}

fn fill(symbol: &str, side: Side, qty: &str, price: &str, fee: &str) -> FillRecord {
    FillRecord {
        ts: 0,
        order_id: 1,
        instrument: InstrumentId::new("test", symbol),
        side,
        qty: qty.to_string(),
        price: price.to_string(),
        fee: fee.to_string(),
        contract_multiplier: None,
        simulation_model: None,
        client_order_id: None,
        oco_group: None,
        strategy_id: None,
    }
}

fn dec(d: Dec) -> Decimal {
    Decimal::from_i128_with_scale(d.mantissa, d.scale)
}

#[test]
fn costs_sum_fees_and_notional_with_multipliers() {
    let fills = vec![
        fill("SPOT", Side::Buy, "2", "100.5", "0.2"),
        fill("ES", Side::Sell, "-1", "-4000", "1.25"),
        fill("UNKNOWN", Side::Buy, "3", "10", "0"),
    ];
    let (fees, turnover) = report_costs(&fills, &state()).unwrap();
    assert_eq!(dec(fees), Decimal::new(145, 2));
    // 2 * 100.5 + 1 * 4000 * 50 + 3 * 10
    assert_eq!(dec(turnover), Decimal::new(200_231, 0));
}

#[test]
fn unreadable_fields_leave_the_fill_out() {
    let fills = vec![
        fill("SPOT", Side::Buy, "2", "abc", "n/a"),
        fill("SPOT", Side::Buy, "1", "7", "0.1"),
    ];
    let (fees, turnover) = report_costs(&fills, &state()).unwrap();
    assert_eq!(dec(fees), Decimal::new(1, 1));
    assert_eq!(dec(turnover), Decimal::new(7, 0));
    let (none_fees, none_turnover) = report_costs(&Vec::new(), &state()).unwrap();
    assert!(none_fees.is_zero() && none_turnover.is_zero());
}

#[test]
fn overflowing_notional_is_reported() {
    let huge = "79228162514264337593543950335";
    let fills = vec![fill("ES", Side::Buy, huge, "2", "0")];
    assert!(report_costs(&fills, &state()).is_none());
    let fees = vec![fill("SPOT", Side::Buy, "1", "1", huge), fill("SPOT", Side::Buy, "1", "1", huge)];
    assert!(report_costs(&fees, &state()).is_none());
}
