use athenas_pallas::config::{
    parse_asset_class, parse_base_quote, parse_data_format, parse_instrument, parse_option_kind,
    AssetClass, DataFormat, OptionKind,
};

#[test]
fn parses_user_facing_enums() {
    assert_eq!(parse_asset_class("perp"), Ok(AssetClass::Perpetual));
    assert_eq!(parse_asset_class("options"), Ok(AssetClass::Option));
    assert_eq!(parse_asset_class("futures"), Ok(AssetClass::Future));
    assert!(parse_data_format("future").is_err());
    assert!(parse_data_format("unknown").is_err());
    assert_eq!(parse_option_kind("put"), Ok(OptionKind::Put));
}

#[test]
fn data_format_aliases_are_case_insensitive() {
    assert_eq!(DataFormat::parse("OHLCV"), Ok(DataFormat::Ohlcv));
    assert_eq!(DataFormat::parse("events"), Ok(DataFormat::Jsonl));
    assert_eq!(
        parse_data_format("csv"),
        Err("unsupported data format `csv`".to_string())
    );
}

#[test]
fn asset_class_error_names_the_input() {
    assert_eq!(
        parse_asset_class("stocks"),
        Err("unsupported asset class `stocks`".to_string())
    );
    assert_eq!(
        parse_option_kind("straddle"),
        Err("unsupported option kind `straddle`; use call or put".to_string())
    );
}

#[test]
fn instrument_splits_at_first_colon() {
    let id = parse_instrument("binance:BTCUSDT").unwrap();
    assert_eq!(id.exchange, "binance");
    assert_eq!(id.symbol, "BTCUSDT");
    let nested = parse_instrument("cme:ES:Z5").unwrap();
    assert_eq!(nested.exchange, "cme");
    assert_eq!(nested.symbol, "ES:Z5");
    assert!(parse_instrument("BTCUSDT").is_err());
}

#[test]
fn base_quote_splits_forex_pairs_only() {
    let (base, quote) = parse_base_quote("EURUSD", AssetClass::Forex);
    assert_eq!(base, "EUR");
    assert_eq!(quote, "USD");
    let (base, quote) = parse_base_quote("BTCUSDT", AssetClass::Crypto);
    assert_eq!(base, "BTCUSDT");
    assert_eq!(quote, "USD");
    let (base, quote) = parse_base_quote("EUR", AssetClass::Forex);
    assert_eq!(base, "EUR");
    assert_eq!(quote, "USD");
}
