use athenas_pallas::config::{AssetClass, InstrumentId, OptionKind};
use athenas_pallas::decimal::Dec;
use athenas_pallas::instrument::{build_instrument_meta, instrument_meta_from_config, MetaFields};
use athenas_pallas::settings::BacktestConfig;

fn fields(class: AssetClass) -> MetaFields {
    MetaFields {
        base: "ES".to_string(),
        quote: "USD".to_string(),
        asset_class: class,
        lot_size: None,
        tick_size: None,
        contract_multiplier: None,
        expiry: None,
        margin_initial_rate: None,
        option_kind: None,
        option_strike: None,
        option_underlying: None,
    }
}

fn parts(d: Option<Dec>) -> Option<(i128, u32)> {
    d.map(|x| (x.mantissa, x.scale))
}

#[test]
fn class_defaults_fill_missing_terms() {
    let fut = build_instrument_meta(&fields(AssetClass::Future));
    assert_eq!(parts(fut.tick_size), Some((25, 2)));
    assert_eq!(parts(fut.contract_multiplier), Some((1, 0)));
    let perp = build_instrument_meta(&fields(AssetClass::Perpetual));
    assert_eq!(parts(perp.margin_initial_rate), Some((1, 1)));
    assert!(perp.tick_size.is_none());
    let opt = build_instrument_meta(&fields(AssetClass::Option));
    assert_eq!(opt.option_kind, Some(OptionKind::Call));
    assert_eq!(parts(opt.option_strike), Some((0, 0)));
    assert_eq!(parts(opt.tick_size), Some((1, 2)));
    assert_eq!(opt.expiry.as_deref(), Some(""));
    let bond = build_instrument_meta(&fields(AssetClass::Bond));
    assert_eq!(parts(bond.face_value), Some((1000, 0)));
    assert_eq!(parts(bond.coupon_rate), Some((5, 2)));
    assert_eq!(bond.coupon_payments_per_year, Some(2));
    let fx = build_instrument_meta(&fields(AssetClass::Forex));
    assert_eq!(parts(fx.lot_size), Some((100000, 0)));
    assert_eq!(parts(fx.tick_size), Some((1, 5)));
    let eq = build_instrument_meta(&fields(AssetClass::Equity));
    assert!(eq.tick_size.is_none() && eq.lot_size.is_none());
}

#[test]
fn configured_terms_win_over_defaults() {
    let mut f = fields(AssetClass::Option);
    f.contract_multiplier = Some(Dec::new(100, 0));
    f.option_kind = Some(OptionKind::Put);
    f.option_strike = Some(Dec::new(450, 0));
    f.expiry = Some("2025-01-17".to_string());
    f.option_underlying = Some(InstrumentId::new("test", "SPY"));
    let m = build_instrument_meta(&f);
    assert_eq!(parts(m.contract_multiplier), Some((100, 0)));
    assert_eq!(m.option_kind, Some(OptionKind::Put));
    assert_eq!(m.maturity.as_deref(), Some("2025-01-17"));
    assert_eq!(m.option_underlying.unwrap().symbol, "SPY");
}

#[test]
fn primary_instrument_metadata_uses_resolved_assets() {
    let mut cfg = BacktestConfig::default();
    cfg.instrument = InstrumentId::new("fx", "EURUSD");
    cfg.asset_class = AssetClass::Forex;
    cfg.base_asset = None;
    cfg.quote_asset = None;
    let m = instrument_meta_from_config(&cfg);
    assert_eq!((m.base.as_str(), m.quote.as_str()), ("EUR", "USD"));
    assert_eq!(parts(m.lot_size), Some((100000, 0)));
}

fn extra(symbol: &str, class: AssetClass, data: Option<&str>) -> athenas_pallas::settings::ExtraInstrument {
    athenas_pallas::settings::ExtraInstrument {
        instrument: InstrumentId::new("test", symbol),
        asset_class: class,
        lot_size: None,
        tick_size: None,
        contract_multiplier: None,
        expiry: None,
        margin_initial_rate: None,
        option_kind: None,
        option_strike: None,
        option_underlying: None,
        data_path: data.map(|d| d.to_string()),
        data_format: None,
    }
}

#[test]
fn replay_setup_registers_primary_then_extras() {
    let mut cfg = BacktestConfig::default();
    cfg.instrument = InstrumentId::new("test", "SPY");
    cfg.base_asset = None;
    cfg.quote_asset = None;
    cfg.session_filter = Some(" RTH ".to_string());
    cfg.max_position_abs = Some(Dec::new(10, 0));
    cfg.max_daily_loss_quote = Some(Dec::new(500, 0));
    cfg.extra_instruments = vec![
        extra("ES", AssetClass::Future, Some("es.csv")),
        extra("SPY", AssetClass::Bond, None),
    ];
    let setup = athenas_pallas::runner::replay_setup(&cfg);
    let ids: Vec<&str> = setup.state.instruments.iter().map(|i| i.id.symbol.as_str()).collect();
    assert_eq!(ids, vec!["SPY", "ES"]);
    // The repeated id replaces the primary's metadata in place.
    assert_eq!(setup.state.instruments[0].meta.asset_class, AssetClass::Bond);
    assert_eq!(parts(setup.state.instruments[1].meta.tick_size), Some((25, 2)));
    assert_eq!(setup.state.balances.len(), 1);
    assert_eq!(setup.state.balances[0].asset, "USD");
    assert_eq!(setup.state.balances[0].free.mantissa, 10000);
    assert!(setup.multi_instrument);
    assert_eq!(setup.session, athenas_pallas::calendar::SessionFilter::EquityRth);
    assert_eq!(setup.max_position.as_ref().map(|(i, m)| (i.symbol.as_str(), m.mantissa)), Some(("SPY", 10)));
    assert_eq!(setup.max_daily_loss.as_ref().map(|(q, m)| (q.as_str(), m.mantissa)), Some(("USD", 500)));
    assert_eq!(setup.execution.fee_bps.mantissa, cfg.fee_bps.mantissa);
}
