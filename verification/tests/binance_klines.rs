use athenas_pallas::alpha_vantage::{JsonNumber, JsonValue};
use athenas_pallas::binance::{next_kline_step, parse_kline_row, KlineStep, KLINE_PAGE};
use athenas_pallas::decimal::Dec;
use athenas_pallas::error::Error;
use rust_decimal::Decimal;

fn num(v: i64) -> JsonValue {
    JsonValue::Number(JsonNumber { int: Some(v), dec: Some(Dec::new(v as i128, 0)) })
}

fn text(s: &str) -> JsonValue {
    JsonValue::Str(s.to_string())
}

fn kline(open_ms: i64, o: &str, h: &str, l: &str, c: &str, v: &str, close_ms: i64, trades: i64) -> JsonValue {
    JsonValue::Array(vec![
        num(open_ms),
        text(o),
        text(h),
        text(l),
        text(c),
        text(v),
        num(close_ms),
        text("0"),
        num(trades),
        text("50"),
        text("0"),
        text("0"),
    ])
}

fn dec(d: Dec) -> Decimal {
    Decimal::from_i128_with_scale(d.mantissa, d.scale)
}

fn invalid(r: Result<athenas_pallas::export::OhlcvBar, Error>) -> String {
    match r {
        Err(Error::Invalid(m)) => m,
        other => panic!("expected an invalid-input error, got {other:?}"),
    }
}

#[test]
fn parses_klines_fixture() {
    let chunk = vec![
        kline(1704067200000, "42000.0", "42500.0", "41800.0", "42200.0", "100.5", 1704153599999, 10),
        kline(1704153600000, "42200.0", "43000.0", "42100.0", "42800.0", "120.0", 1704239999999, 12),
        kline(1704240000000, "42800.0", "43200.0", "42700.0", "43100.0", "90.0", 1704326399999, 8),
    ];
    assert_eq!(chunk.len(), 3);
    let bar = parse_kline_row(&chunk[0]).unwrap();
    assert_eq!(dec(bar.close), Decimal::new(42200, 0));
}

#[test]
fn kline_row_maps_every_column() {
    let row = kline(1704067200999, "42000.0", "42500.0", "41800.0", "42200.0", "100.5", 0, 1);
    let bar = parse_kline_row(&row).unwrap();
    assert_eq!(bar.ts, 1_704_067_200_000_000_000);
    assert_eq!(dec(bar.open), Decimal::new(42000, 0));
    assert_eq!(dec(bar.high), Decimal::new(42500, 0));
    assert_eq!(dec(bar.low), Decimal::new(41800, 0));
    assert_eq!(dec(bar.volume), Decimal::new(1005, 1));
}

#[test]
fn kline_open_time_rounds_toward_zero() {
    let row = kline(-1500, "1", "1", "1", "1", "1", 0, 1);
    assert_eq!(parse_kline_row(&row).unwrap().ts, -1_000_000_000);
}

#[test]
fn kline_errors_name_the_failing_part() {
    assert_eq!(invalid(parse_kline_row(&text("x"))), "kline not array");
    assert_eq!(
        invalid(parse_kline_row(&JsonValue::Array(vec![text("1"), text("1")]))),
        "open time"
    );
    let far = JsonValue::Array(vec![num(i64::MAX)]);
    assert_eq!(invalid(parse_kline_row(&far)), "timestamp");
    let bad = kline(0, "1", "x", "1", "1", "1", 0, 1);
    assert_eq!(invalid(parse_kline_row(&bad)), "bad decimal: x");
    let numeric = JsonValue::Array(vec![num(0), num(1)]);
    assert_eq!(invalid(parse_kline_row(&numeric)), "decimal field");
}

#[test]
fn kline_pagination_stops_on_short_or_empty_pages() {
    assert_eq!(next_kline_step(10_000, &Vec::new()), KlineStep::Done);
    let short = vec![kline(1000, "1", "1", "1", "1", "1", 0, 1)];
    assert_eq!(next_kline_step(10_000, &short), KlineStep::Done);
}

#[test]
fn kline_pagination_continues_after_last_open_time() {
    let full: Vec<JsonValue> =
        (0..KLINE_PAGE as i64).map(|i| kline(i * 60_000, "1", "1", "1", "1", "1", 0, 1)).collect();
    let last = (KLINE_PAGE as i64 - 1) * 60_000;
    assert_eq!(next_kline_step(i64::MAX - 1, &full), KlineStep::From(last + 1));
    assert_eq!(next_kline_step(last + 1, &full), KlineStep::Done);
    let mut unreadable = full;
    unreadable.push(text("?"));
    unreadable.remove(0);
    assert_eq!(next_kline_step(5_000_000, &unreadable), KlineStep::Done);
}
