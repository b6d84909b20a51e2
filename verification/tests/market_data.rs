use athenas_pallas::alpha_vantage::{normalize_alpha_vantage_symbol, AlphaVantageAsset};
use athenas_pallas::databento::{
    format_fixed_price, sanitize_segment, AdjustmentMode, DatabentoOhlcvSchema, DatabentoSType,
};
use athenas_pallas::intervals::{
    interval_hint, is_documented_interval, normalize_interval, FetchProvider,
};

#[test]
fn normalizes_crypto_pairs_for_alpha_vantage() {
    assert_eq!(
        normalize_alpha_vantage_symbol(AlphaVantageAsset::Crypto, "BTCUSDT", "USD"),
        "BTC"
    );
    assert_eq!(
        normalize_alpha_vantage_symbol(AlphaVantageAsset::Crypto, "ETH-USD", "USD"),
        "ETH"
    );
}

#[test]
fn leaves_equity_tickers_intact() {
    assert_eq!(
        normalize_alpha_vantage_symbol(AlphaVantageAsset::Equity, "BRK.B", "USD"),
        "BRK.B"
    );
}

#[test]
fn alpha_vantage_asset_aliases() {
    assert_eq!(AlphaVantageAsset::parse("crypto"), Some(AlphaVantageAsset::Crypto));
    assert_eq!(AlphaVantageAsset::parse("bond"), None);
}

#[test]
fn parses_only_ohlcv_schemas() {
    assert_eq!(
        DatabentoOhlcvSchema::parse("ohlcv-1d").unwrap(),
        DatabentoOhlcvSchema::Ohlcv1D
    );
    assert!(DatabentoOhlcvSchema::parse("trades").is_err());
}

#[test]
fn parses_supported_stype_in_values() {
    assert_eq!(
        DatabentoSType::parse("raw_symbol").unwrap(),
        DatabentoSType::RawSymbol
    );
    assert!(DatabentoSType::parse("bad").is_err());
}

#[test]
fn schema_text_round_trips() {
    for schema in [
        DatabentoOhlcvSchema::Ohlcv1S,
        DatabentoOhlcvSchema::Ohlcv1M,
        DatabentoOhlcvSchema::Ohlcv1H,
        DatabentoOhlcvSchema::Ohlcv1D,
    ] {
        assert_eq!(DatabentoOhlcvSchema::parse(schema.as_str()).unwrap(), schema);
    }
    assert_eq!(
        DatabentoSType::parse(DatabentoSType::Continuous.as_str()).unwrap(),
        DatabentoSType::Continuous
    );
    assert_eq!(
        AdjustmentMode::parse(AdjustmentMode::SplitAdjusted.as_str()).unwrap(),
        AdjustmentMode::SplitAdjusted
    );
}

#[test]
fn formats_fixed_prices_without_float_rounding() {
    assert_eq!(format_fixed_price(123_450_000_000), "123.45");
    assert_eq!(format_fixed_price(1), "0.000000001");
    assert_eq!(format_fixed_price(-1_250_000_000), "-1.25");
}

#[test]
fn formats_whole_and_extreme_prices() {
    assert_eq!(format_fixed_price(0), "0");
    assert_eq!(format_fixed_price(5_000_000_000), "5");
    assert_eq!(format_fixed_price(i64::MIN), "-9223372036.854775808");
}

#[test]
fn sanitizes_path_segments() {
    assert_eq!(sanitize_segment("EQUS.MINI"), "EQUS_MINI");
    assert_eq!(sanitize_segment("ES-Z5"), "ES-Z5");
    assert_eq!(sanitize_segment(""), "unknown");
}

#[test]
fn alpha_vantage_includes_daily() {
    assert!(is_documented_interval(FetchProvider::AlphaVantage, "1d"));
    assert!(is_documented_interval(FetchProvider::AlphaVantage, "daily"));
}

#[test]
fn intraday_interval_warns() {
    assert!(!is_documented_interval(FetchProvider::AlphaVantage, "5min"));
    assert!(interval_hint(FetchProvider::AlphaVantage, "5min").is_some());
}

#[test]
fn interval_names_are_trimmed_and_lowered() {
    assert_eq!(normalize_interval(" 1D "), "1d");
    assert_eq!(FetchProvider::parse("Alpha-Vantage"), Some(FetchProvider::AlphaVantage));
    assert_eq!(FetchProvider::parse("nasdaq"), None);
}
