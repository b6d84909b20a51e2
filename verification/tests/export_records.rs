use athenas_pallas::decimal::Dec;
use athenas_pallas::export::{
    filter_date_range, ohlcv_csv_records, yahoo_csv_records, OhlcvBar, YahooBar,
};

fn d(m: i128, s: u32) -> Dec {
    Dec::new(m, s)
}

fn yahoo(date: &str, close: i128, adj: Option<Dec>) -> YahooBar {
    YahooBar {
        date: date.to_string(),
        open: d(10, 0),
        high: d(11, 0),
        low: d(9, 0),
        close: d(close, 0),
        adj_close: adj,
        volume: d(100, 0),
    }
}

#[test]
fn engine_records_have_rfc3339_times_and_decimal_text() {
    let bars = vec![OhlcvBar {
        ts: 1_735_828_200_000_000_000,
        open: d(4200050, 2),
        high: d(42100, 0),
        low: d(41999, 0),
        close: d(420000, 1),
        volume: d(15, 1),
    }];
    let recs = ohlcv_csv_records(&bars);
    assert_eq!(recs.len(), 1);
    assert_eq!(
        recs[0],
        vec!["2025-01-02T14:30:00Z", "42000.50", "42100", "41999", "42000.0", "1.5"]
    );
    assert!(ohlcv_csv_records(&Vec::new()).is_empty());
}

#[test]
fn yahoo_records_add_adjusted_column_only_when_some_row_has_one() {
    let plain = yahoo_csv_records(&vec![yahoo("2024-01-02", 10, None)]);
    assert_eq!(plain[0], vec!["Date", "Open", "High", "Low", "Close", "Volume"]);
    assert_eq!(plain[1], vec!["2024-01-02", "10", "11", "9", "10", "100"]);

    let adjusted = yahoo_csv_records(&vec![
        yahoo("2024-01-02", 10, Some(d(95, 1))),
        yahoo("2024-01-03", 12, None),
    ]);
    assert_eq!(adjusted.len(), 3);
    assert_eq!(adjusted[0], vec!["Date", "Open", "High", "Low", "Close", "Adj Close", "Volume"]);
    assert_eq!(adjusted[1], vec!["2024-01-02", "10", "11", "9", "10", "9.5", "100"]);
    assert_eq!(adjusted[2], vec!["2024-01-03", "10", "11", "9", "12", "12", "100"]);
}

#[test]
fn date_range_filter_is_inclusive() {
    let bar = |ts: i128| OhlcvBar { ts, open: d(1, 0), high: d(1, 0), low: d(1, 0), close: d(1, 0), volume: d(1, 0) };
    let bars = vec![bar(1), bar(2), bar(3), bar(4)];
    let kept: Vec<i128> = filter_date_range(bars.clone(), Some(2), Some(3)).iter().map(|b| b.ts).collect();
    assert_eq!(kept, vec![2, 3]);
    let kept: Vec<i128> = filter_date_range(bars.clone(), None, Some(1)).iter().map(|b| b.ts).collect();
    assert_eq!(kept, vec![1]);
    assert_eq!(filter_date_range(bars, None, None).len(), 4);
}

use athenas_pallas::alpha_vantage::{parse_daily_json, AlphaVantageAsset, JsonNumber, JsonValue};

fn text(s: &str) -> JsonValue {
    JsonValue::Str(s.to_string())
}

fn object(entries: Vec<(&str, JsonValue)>) -> JsonValue {
    JsonValue::Object(entries.into_iter().map(|(k, v)| (k.to_string(), v)).collect())
}

fn body(entries: Vec<(&str, JsonValue)>) -> Vec<(String, JsonValue)> {
    entries.into_iter().map(|(k, v)| (k.to_string(), v)).collect()
}

fn same_value(a: Dec, m: i128, s: u32) -> bool {
    rust_decimal::Decimal::from_i128_with_scale(a.mantissa, a.scale)
        == rust_decimal::Decimal::from_i128_with_scale(m, s)
}

#[test]
fn parses_equity_daily_json_oldest_first() {
    let json = body(vec![(
        "Time Series (Daily)",
        object(vec![
            (
                "2024-01-03",
                object(vec![
                    ("1. open", text("102.0")),
                    ("2. high", text("105.0")),
                    ("3. low", text("101.0")),
                    ("4. close", text("104.0")),
                    ("5. volume", text("1200")),
                ]),
            ),
            (
                "2024-01-02",
                object(vec![
                    ("1. open", text("100.0")),
                    ("2. high", text("103.0")),
                    ("3. low", text("99.0")),
                    ("4. close", text("102.0")),
                    ("5. volume", text("1000")),
                ]),
            ),
        ]),
    )]);
    let bars = parse_daily_json(&json, AlphaVantageAsset::Equity, "USD").unwrap();
    assert_eq!(bars.len(), 2);
    assert!(same_value(bars[0].close, 1020, 1));
    assert!(same_value(bars[1].volume, 1200, 0));
    assert_eq!(bars[0].ts, 1_704_153_600_000_000_000);
}

#[test]
fn parses_crypto_daily_json_market_columns() {
    let json = body(vec![(
        "Time Series (Digital Currency Daily)",
        object(vec![(
            "2024-01-02",
            object(vec![
                ("1a. open (USD)", text("42000.0")),
                ("2a. high (USD)", text("43000.0")),
                ("3a. low (USD)", text("41000.0")),
                ("4a. close (USD)", text("42500.0")),
                ("5. volume", text("123.45")),
            ]),
        )]),
    )]);
    let bars = parse_daily_json(&json, AlphaVantageAsset::Crypto, "USD").unwrap();
    assert!(same_value(bars[0].open, 420000, 1));
    assert!(same_value(bars[0].volume, 12345, 2));
}

#[test]
fn daily_json_errors_are_reported() {
    let note = body(vec![("Note", text("rate limited"))]);
    let err = parse_daily_json(&note, AlphaVantageAsset::Equity, "USD").unwrap_err();
    assert_eq!(err.to_text(), "invalid: alpha vantage: rate limited");
    let missing = body(vec![("Meta Data", object(vec![]))]);
    let err = parse_daily_json(&missing, AlphaVantageAsset::Crypto, "USD").unwrap_err();
    assert_eq!(err.to_text(), "invalid: alpha vantage: missing Time Series (Digital Currency Daily)");
    let bad_row = body(vec![("Time Series (Daily)", object(vec![("2024-01-02", text("x"))]))]);
    let err = parse_daily_json(&bad_row, AlphaVantageAsset::Equity, "USD").unwrap_err();
    assert_eq!(err.to_text(), "invalid: alpha vantage: bad row for 2024-01-02");
    let no_close = body(vec![(
        "Time Series (Daily)",
        object(vec![(
            "2024-01-02",
            object(vec![
                ("1. open", text("1")),
                ("2. high", text("1")),
                ("3. low", text("1")),
                ("5. volume", JsonValue::Number(JsonNumber { int: Some(7), dec: Some(Dec::new(7, 0)) })),
            ]),
        )]),
    )]);
    let err = parse_daily_json(&no_close, AlphaVantageAsset::Equity, "").unwrap_err();
    assert_eq!(err.to_text(), "invalid: alpha vantage: missing numeric field");
    let bad_date = body(vec![("Time Series (Daily)", object(vec![("01-02-2024", object(vec![]))]))]);
    let err = parse_daily_json(&bad_date, AlphaVantageAsset::Equity, "USD").unwrap_err();
    assert!(err.to_text().starts_with("invalid: alpha vantage date: "));
}
