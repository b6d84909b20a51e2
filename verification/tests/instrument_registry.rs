use athenas_pallas::config::{AssetClass, DataFormat, InstrumentId, OptionKind};
use athenas_pallas::decimal::Dec;
use athenas_pallas::error::Error;
use athenas_pallas::registry::validate_instruments;
use athenas_pallas::settings::{BacktestConfig, ExtraInstrument};
use athenas_pallas::state::InstrumentMeta;

fn option_meta(underlying: &InstrumentId) -> InstrumentMeta {
    let mut meta = InstrumentMeta::spot("SPY_CALL", "USD");
    meta.asset_class = AssetClass::Option;
    meta.contract_multiplier = Some(Dec::new(100, 0));
    meta.tick_size = Some(Dec::new(1, 2));
    meta.expiry = Some("2025-01-17".to_string());
    meta.option_kind = Some(OptionKind::Call);
    meta.option_strike = Some(Dec::new(100, 0));
    meta.option_underlying = Some(underlying.clone());
    meta
}

fn extra_with_data(id: &InstrumentId) -> ExtraInstrument {
    ExtraInstrument {
        instrument: id.clone(),
        asset_class: AssetClass::Equity,
        lot_size: None,
        tick_size: None,
        contract_multiplier: None,
        expiry: None,
        margin_initial_rate: None,
        option_kind: None,
        option_strike: None,
        option_underlying: None,
        data_path: Some("spy.csv".to_string()),
        data_format: Some(DataFormat::Ohlcv),
    }
}

fn message(r: Result<(), Error>) -> String {
    match r {
        Err(Error::Invalid(m)) => m,
        other => panic!("expected an invalid-input error, got {other:?}"),
    }
}

#[test]
fn option_metadata_requires_registered_underlying() {
    let option = InstrumentId::new("test", "SPY_CALL");
    let underlying = InstrumentId::new("test", "SPY");
    let mut config = BacktestConfig::default();
    config.instrument = option.clone();
    config.asset_class = AssetClass::Option;
    let mut instruments = vec![(option.clone(), option_meta(&underlying))];
    assert!(validate_instruments(&config, &instruments).is_err());

    instruments.push((underlying.clone(), InstrumentMeta::spot("SPY", "USD")));
    config.extra_instruments.push(extra_with_data(&InstrumentId::new("test", "SPY")));
    validate_instruments(&config, &instruments).unwrap();
}

#[test]
fn option_problems_are_reported_in_order_of_checks() {
    let option = InstrumentId::new("test", "SPY_CALL");
    let underlying = InstrumentId::new("test", "SPY");
    let mut config = BacktestConfig::default();
    config.instrument = option.clone();

    let mut no_strike = option_meta(&underlying);
    no_strike.option_strike = Some(Dec::new(0, 0));
    assert_eq!(
        message(validate_instruments(&config, &vec![(option.clone(), no_strike)])),
        "option test:SPY_CALL requires option_kind, positive option_strike, contract_multiplier, and expiry"
    );

    let mut no_underlying = option_meta(&underlying);
    no_underlying.option_underlying = None;
    assert_eq!(
        message(validate_instruments(&config, &vec![(option.clone(), no_underlying)])),
        "option test:SPY_CALL requires option_underlying"
    );

    let own = option_meta(&option);
    assert_eq!(
        message(validate_instruments(&config, &vec![(option.clone(), own)])),
        "option test:SPY_CALL underlying test:SPY_CALL is not a distinct registered instrument"
    );

    let registry = vec![
        (option.clone(), option_meta(&underlying)),
        (underlying.clone(), InstrumentMeta::spot("SPY", "USD")),
    ];
    assert_eq!(
        message(validate_instruments(&config, &registry)),
        "option test:SPY_CALL and underlying test:SPY both require replay data"
    );
}

#[test]
fn non_option_instruments_are_not_checked() {
    let config = BacktestConfig::default();
    let spot = vec![(InstrumentId::new("test", "EXAMPLE"), InstrumentMeta::spot("EXAMPLE", "USD"))];
    assert!(validate_instruments(&config, &spot).is_ok());
    assert!(validate_instruments(&config, &Vec::new()).is_ok());
}
