use athenas_pallas::config::{AssetClass, DataFormat};
use athenas_pallas::error::Error;
use athenas_pallas::settings::{
    default_asset_class, parse_balances, parse_extra_instruments, parse_positive, resolve_path,
    BacktestConfig, BalanceConfig, DecimalValue, ExtraInstrumentConfig, FileConfig,
    InstrumentConfig, RunConfig,
};

fn text(s: &str) -> Option<DecimalValue> {
    Some(DecimalValue::Text(s.to_string()))
}

fn message(e: Error) -> String {
    match e {
        Error::Invalid(m) => m,
        other => panic!("unexpected {other:?}"),
    }
}

fn empty_run() -> RunConfig {
    RunConfig {
        data: None,
        data_format: None,
        fee_bps: None,
        slippage_bps: None,
        half_spread_bps: None,
        buy_and_hold_qty: None,
        periods_per_year_valid: None,
        bar_interval: None,
        session_filter: None,
        auto_periods_per_year: None,
        output: None,
        strategy: None,
        python: None,
        record_equity_curve: None,
        risk_free_annual_finite: None,
        max_position_abs: None,
        max_daily_loss_quote: None,
        margin_initial_rate: None,
    }
}

fn empty_instrument() -> InstrumentConfig {
    InstrumentConfig {
        exchange: None,
        symbol: None,
        asset_class: None,
        lot_size: None,
        tick_size: None,
        contract_multiplier: None,
        expiry: None,
        base_asset: None,
        quote_asset: None,
    }
}

fn extra(symbol: &str) -> ExtraInstrumentConfig {
    ExtraInstrumentConfig {
        exchange: "test".to_string(),
        symbol: symbol.to_string(),
        asset_class: default_asset_class(),
        lot_size: None,
        tick_size: None,
        contract_multiplier: None,
        expiry: None,
        margin_initial_rate: None,
        data: None,
        data_format: None,
    }
}

#[test]
fn rejects_invalid_decimal() {
    let value = DecimalValue::Text("ten".into());
    assert!(value.parse("fee_bps").is_err());
}

#[test]
fn decimal_settings_are_checked_with_their_field_name() {
    let d = DecimalValue::Integer(7).positive("x").unwrap();
    assert_eq!((d.mantissa, d.scale), (7, 0));
    let d = DecimalValue::Text("0.25".into()).rate("r").unwrap();
    assert_eq!((d.mantissa, d.scale), (25, 2));
    assert!(DecimalValue::Text("1".into()).rate("r").is_ok());
    assert_eq!(
        message(DecimalValue::Text("1.01".into()).rate("r").unwrap_err()),
        "r must be greater than zero and at most one"
    );
    assert_eq!(message(DecimalValue::Integer(0).positive("q").unwrap_err()), "q must be positive");
    assert!(DecimalValue::Integer(0).nonnegative("q").is_ok());
    assert_eq!(
        message(DecimalValue::Integer(-1).nonnegative("fee_bps").unwrap_err()),
        "fee_bps must be nonnegative"
    );
    assert_eq!(
        message(DecimalValue::Text("ten".into()).parse("fee_bps").unwrap_err()),
        "fee_bps invalid decimal `ten`"
    );
    assert!(parse_positive(None, "x").unwrap().is_none());
}

#[test]
fn default_balances_use_resolved_quote() {
    let cfg = BacktestConfig::default();
    let balances = cfg.default_balances();
    let usd = balances.iter().find(|b| b.asset == "USD").map(|b| b.free);
    assert_eq!(usd.map(|d| (d.mantissa, d.scale)), Some((10_000, 0)));
}

#[test]
fn resolved_pair_falls_back_to_the_symbol() {
    let mut cfg = BacktestConfig::default();
    assert_eq!(cfg.resolved_base_quote(), ("EXAMPLE".to_string(), "USD".to_string()));
    cfg.base_asset = None;
    cfg.instrument.symbol = "EURUSD".to_string();
    cfg.asset_class = AssetClass::Forex;
    assert_eq!(cfg.resolved_base_quote(), ("EUR".to_string(), "USD".to_string()));
    assert_eq!(cfg.default_balances()[0].asset, "USD");
    cfg.asset_class = AssetClass::Equity;
    assert_eq!(cfg.resolved_base_quote(), ("EURUSD".to_string(), "USD".to_string()));
}

#[test]
fn relative_paths_follow_the_settings_file() {
    assert_eq!(resolve_path(Some("conf"), "data/x.csv"), "conf/data/x.csv");
    assert_eq!(resolve_path(Some("conf"), "/abs/x.csv"), "/abs/x.csv");
    assert_eq!(resolve_path(None, "data/x.csv"), "data/x.csv");
    assert_eq!(resolve_path(Some(""), "data/x.csv"), "data/x.csv");
}

#[test]
fn instrument_section_applies_in_order() {
    let mut cfg = BacktestConfig::default();
    let ic = InstrumentConfig {
        exchange: Some("cme".to_string()),
        symbol: Some("ES".to_string()),
        asset_class: Some("Futures".to_string()),
        tick_size: text("0.25"),
        contract_multiplier: Some(DecimalValue::Integer(50)),
        expiry: Some("2025-03-21".to_string()),
        ..empty_instrument()
    };
    ic.apply(&mut cfg).unwrap();
    assert_eq!(cfg.instrument.exchange, "cme");
    assert_eq!(cfg.instrument.symbol, "ES");
    assert_eq!(cfg.asset_class, AssetClass::Future);
    assert_eq!(cfg.tick_size.map(|d| (d.mantissa, d.scale)), Some((25, 2)));
    assert_eq!(cfg.contract_multiplier.map(|d| d.mantissa), Some(50));
    assert_eq!(cfg.expiry.as_deref(), Some("2025-03-21"));
    assert_eq!(cfg.base_asset.as_deref(), Some("EXAMPLE"));

    let half = InstrumentConfig { exchange: Some("cme".to_string()), ..empty_instrument() };
    assert_eq!(
        message(half.apply(&mut cfg).unwrap_err()),
        "instrument exchange and symbol must be set together"
    );
    let bad = InstrumentConfig { asset_class: Some("stocks".to_string()), ..empty_instrument() };
    assert_eq!(message(bad.apply(&mut cfg).unwrap_err()), "unsupported asset class `stocks`");
    let bad = InstrumentConfig { lot_size: text("0"), ..empty_instrument() };
    assert_eq!(message(bad.apply(&mut cfg).unwrap_err()), "instrument.lot_size must be positive");
}

#[test]
fn backtest_section_applies_and_refuses() {
    let mut cfg = BacktestConfig::default();
    let rc = RunConfig {
        data: Some("data/ES.csv".to_string()),
        data_format: Some("OHLCV".to_string()),
        fee_bps: text("2.5"),
        buy_and_hold_qty: Some(DecimalValue::Integer(3)),
        periods_per_year_valid: Some(true),
        bar_interval: Some("30m".to_string()),
        output: Some("out/report.json".to_string()),
        python: Some("python3".to_string()),
        record_equity_curve: Some(false),
        risk_free_annual_finite: Some(true),
        margin_initial_rate: text("0.1"),
        ..empty_run()
    };
    rc.apply(&mut cfg, Some("conf")).unwrap();
    assert_eq!(cfg.data_path, "conf/data/ES.csv");
    assert_eq!(cfg.data_format, DataFormat::Ohlcv);
    assert_eq!((cfg.fee_bps.mantissa, cfg.fee_bps.scale), (25, 1));
    assert_eq!(cfg.slippage_bps.mantissa, 5);
    assert_eq!(cfg.buy_and_hold_qty.map(|d| d.mantissa), Some(3));
    assert!(!cfg.auto_periods_per_year);
    assert_eq!(cfg.bar_interval.as_deref(), Some("30m"));
    assert_eq!(cfg.output_path.as_deref(), Some("conf/out/report.json"));
    assert_eq!(cfg.python_exe, "python3");
    assert!(!cfg.record_equity_curve);
    assert_eq!(cfg.margin_initial_rate.map(|d| (d.mantissa, d.scale)), Some((1, 1)));

    let explicit_auto = RunConfig {
        periods_per_year_valid: Some(true),
        auto_periods_per_year: Some(true),
        ..empty_run()
    };
    explicit_auto.apply(&mut cfg, None).unwrap();
    assert!(cfg.auto_periods_per_year);

    let bad = RunConfig { periods_per_year_valid: Some(false), ..empty_run() };
    assert_eq!(
        message(bad.apply(&mut cfg, None).unwrap_err()),
        "backtest.periods_per_year must be positive and finite"
    );
    let bad = RunConfig { data_format: Some("yahoo".to_string()), ..empty_run() };
    assert_eq!(message(bad.apply(&mut cfg, None).unwrap_err()), "unsupported data format `yahoo`");
    let bad = RunConfig { slippage_bps: text("-1"), ..empty_run() };
    assert_eq!(
        message(bad.apply(&mut cfg, None).unwrap_err()),
        "backtest.slippage_bps must be nonnegative"
    );
    let bad = RunConfig { risk_free_annual_finite: Some(false), ..empty_run() };
    assert_eq!(
        message(bad.apply(&mut cfg, None).unwrap_err()),
        "backtest.risk_free_annual must be finite"
    );
    let bad = RunConfig { margin_initial_rate: text("2"), ..empty_run() };
    assert_eq!(
        message(bad.apply(&mut cfg, None).unwrap_err()),
        "backtest.margin_initial_rate must be greater than zero and at most one"
    );
}

#[test]
fn later_balance_rows_replace_earlier_ones() {
    let rows = vec![
        BalanceConfig { asset: "USD".to_string(), amount: DecimalValue::Integer(100) },
        BalanceConfig { asset: "BTC".to_string(), amount: DecimalValue::Text("0.5".to_string()) },
        BalanceConfig { asset: "USD".to_string(), amount: DecimalValue::Integer(250) },
    ];
    let bs = parse_balances(rows).unwrap();
    assert_eq!(bs.len(), 2);
    assert_eq!((bs[0].asset.as_str(), bs[0].free.mantissa), ("USD", 250));
    assert_eq!((bs[1].asset.as_str(), bs[1].free.mantissa), ("BTC", 5));
    let rows = vec![BalanceConfig { asset: "USD".to_string(), amount: DecimalValue::Integer(-5) }];
    assert_eq!(message(parse_balances(rows).unwrap_err()), "balances.amount must be nonnegative");
}

#[test]
fn extra_instrument_rows() {
    let row = ExtraInstrumentConfig {
        lot_size: text("0.001"),
        data: Some("spy.csv".to_string()),
        data_format: Some("events".to_string()),
        ..extra("SPY")
    };
    let e = row.parse(Some("conf")).unwrap();
    assert_eq!(e.instrument.symbol, "SPY");
    assert_eq!(e.asset_class, AssetClass::Crypto);
    assert_eq!(e.lot_size.map(|d| (d.mantissa, d.scale)), Some((1, 3)));
    assert_eq!(e.data_path.as_deref(), Some("conf/spy.csv"));
    assert_eq!(e.data_format, Some(DataFormat::Jsonl));
    let rows = vec![extra("A"), ExtraInstrumentConfig { tick_size: text("x"), ..extra("B") }];
    assert_eq!(
        message(parse_extra_instruments(rows, None).unwrap_err()),
        "instruments.tick_size invalid decimal `x`"
    );
}

#[test]
fn whole_file_merges_sections_then_top_level_costs() {
    let mut cfg = BacktestConfig::default();
    let f = FileConfig {
        instrument: Some(InstrumentConfig {
            exchange: Some("binance".to_string()),
            symbol: Some("BTCUSDT".to_string()),
            asset_class: Some("crypto".to_string()),
            ..empty_instrument()
        }),
        backtest: Some(RunConfig { fee_bps: text("1"), ..empty_run() }),
        balances: Some(vec![BalanceConfig {
            asset: "USDT".to_string(),
            amount: DecimalValue::Integer(5000),
        }]),
        instruments: Some(vec![extra("ETHUSDT")]),
        fee_bps: text("3"),
        slippage_bps: None,
    };
    f.apply(&mut cfg, None).unwrap();
    assert_eq!(cfg.instrument.symbol, "BTCUSDT");
    assert_eq!(cfg.asset_class, AssetClass::Crypto);
    assert_eq!(cfg.fee_bps.mantissa, 3);
    assert_eq!(cfg.balances.len(), 1);
    assert_eq!(cfg.extra_instruments.len(), 1);
    let bad = FileConfig {
        instrument: None,
        backtest: None,
        balances: None,
        instruments: None,
        fee_bps: None,
        slippage_bps: text("-0.5"),
    };
    assert_eq!(message(bad.apply(&mut cfg, None).unwrap_err()), "slippage_bps must be nonnegative");
}
