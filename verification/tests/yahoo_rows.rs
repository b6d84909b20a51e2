use athenas_pallas::decimal::Dec;
use athenas_pallas::yahoo::{headers_are_yahoo, YahooRow};
use rust_decimal::Decimal;

fn dec(d: Dec) -> Decimal {
    Decimal::from_i128_with_scale(d.mantissa, d.scale)
}

fn row(close: Dec, adj_close: Option<Dec>) -> YahooRow {
    YahooRow {
        date: "2024-01-02".to_string(),
        open: Dec::new(10, 0),
        high: Dec::new(11, 0),
        low: Dec::new(9, 0),
        close,
        adj_close,
        volume: Dec::new(100, 0),
    }
}

fn strings(v: &[&str]) -> Vec<String> {
    v.iter().map(|s| s.to_string()).collect()
}

#[test]
fn prefers_adj_close_when_present() {
    // Date,Open,High,Low,Close,Adj Close,Volume
    // 2024-01-02,10,11,9,10,9.5,100
    let rows = vec![row(Dec::new(10, 0), Some(Dec::new(95, 1)))];
    assert_eq!(dec(rows[0].effective_close()), Decimal::new(95, 1));
}

#[test]
fn effective_close_falls_back_to_close() {
    assert_eq!(dec(row(Dec::new(1025, 2), None).effective_close()), Decimal::new(1025, 2));
}

#[test]
fn yahoo_layout_needs_a_date_column() {
    let yahoo = strings(&["Date", "Open", "High", "Low", "Close", "Adj Close", "Volume"]);
    assert!(headers_are_yahoo(&yahoo));
    assert!(!headers_are_yahoo(&strings(&["ts", "open", "high", "low", "close", "volume"])));
    assert!(!headers_are_yahoo(&strings(&["date", "close"])));
    assert!(!headers_are_yahoo(&Vec::new()));
}
