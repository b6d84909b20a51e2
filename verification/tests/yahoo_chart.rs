use athenas_pallas::alpha_vantage::{JsonNumber, JsonValue};
use athenas_pallas::decimal::Dec;
use athenas_pallas::error::Error;
use athenas_pallas::yahoo::parse_chart_json;

fn num_i(v: i64) -> JsonValue {
    JsonValue::Number(JsonNumber { int: Some(v), dec: Some(Dec::new(v as i128, 0)) })
}

fn num_d(m: i128, s: u32) -> JsonValue {
    JsonValue::Number(JsonNumber { int: None, dec: Some(Dec::new(m, s)) })
}

fn obj(entries: Vec<(&str, JsonValue)>) -> JsonValue {
    JsonValue::Object(entries.into_iter().map(|(k, v)| (k.to_string(), v)).collect())
}

fn arr(v: Vec<JsonValue>) -> JsonValue {
    JsonValue::Array(v)
}

fn chart(timestamps: Vec<JsonValue>, closes: Vec<JsonValue>, adj: Option<Vec<JsonValue>>) -> JsonValue {
    let n = closes.len();
    let quote = obj(vec![
        ("open", arr((0..n).map(|i| num_d(1000 + i as i128, 1)).collect())),
        ("high", arr((0..n).map(|i| num_d(1100 + i as i128, 1)).collect())),
        ("low", arr((0..n).map(|i| num_d(900 + i as i128, 1)).collect())),
        ("close", arr(closes)),
        ("volume", arr((0..n).map(|i| num_i(500 + i as i64)).collect())),
    ]);
    let mut indicators = vec![("quote", arr(vec![quote]))];
    if let Some(a) = adj {
        indicators.push(("adjclose", arr(vec![obj(vec![("adjclose", arr(a))])])));
    }
    let result = obj(vec![("timestamp", arr(timestamps)), ("indicators", obj(indicators))]);
    obj(vec![("chart", obj(vec![("result", arr(vec![result])), ("error", JsonValue::Null)]))])
}

const DAY: i64 = 86_400;
const JAN_2_2024: i64 = 1_704_153_600;

fn message(r: Result<Vec<athenas_pallas::export::YahooBar>, Error>) -> String {
    match r {
        Err(Error::Invalid(m)) => m,
        other => panic!("expected an error, got {other:?}"),
    }
}

#[test]
fn parses_fixture() {
    let ts = (0..5).map(|k| num_i(JAN_2_2024 + k * DAY)).collect();
    let closes = (0..5).map(|k| num_d(1850 + k as i128, 1)).collect();
    let body = chart(ts, closes, None);
    let bars = parse_chart_json(&body).unwrap();
    assert_eq!(bars.len(), 5);
    assert!(bars[0].close.mantissa > 0);
    assert_eq!(bars[0].date, "2024-01-02");
    assert_eq!(bars[4].date, "2024-01-06");
    assert_eq!((bars[1].open.mantissa, bars[1].open.scale), (1001, 1));
    assert_eq!(bars[2].volume.mantissa, 502);
    assert!(bars[0].adj_close.is_none());
}

#[test]
fn chart_rows_without_close_or_integer_time_are_skipped() {
    let ts = vec![num_i(JAN_2_2024), num_d(17041536005, 1), num_i(JAN_2_2024 + DAY), num_i(JAN_2_2024 + 2 * DAY)];
    let closes = vec![num_d(10, 0), num_d(11, 0), JsonValue::Null, num_d(13, 0)];
    let adj = vec![num_d(95, 1), JsonValue::Null];
    let bars = parse_chart_json(&chart(ts, closes, Some(adj))).unwrap();
    assert_eq!(bars.len(), 2);
    assert_eq!(bars[0].close.mantissa, 10);
    assert_eq!(bars[0].adj_close.map(|a| (a.mantissa, a.scale)), Some((95, 1)));
    assert_eq!(bars[1].date, "2024-01-04");
    assert!(bars[1].adj_close.is_none());
}

#[test]
fn chart_missing_quote_columns_default_to_zero() {
    let result = obj(vec![
        ("timestamp", arr(vec![num_i(0)])),
        ("indicators", obj(vec![("quote", arr(vec![obj(vec![("close", arr(vec![num_d(5, 0)]))])]))])),
    ]);
    let body = obj(vec![("chart", obj(vec![("result", arr(vec![result]))]))]);
    let bars = parse_chart_json(&body).unwrap();
    assert_eq!(bars[0].date, "1970-01-01");
    assert!(bars[0].open.is_zero() && bars[0].high.is_zero() && bars[0].low.is_zero() && bars[0].volume.is_zero());
}

#[test]
fn chart_errors() {
    assert_eq!(message(parse_chart_json(&obj(vec![]))), "yahoo: missing result");
    let no_ts = obj(vec![("chart", obj(vec![("result", arr(vec![obj(vec![])]))]))]);
    assert_eq!(message(parse_chart_json(&no_ts)), "yahoo: missing timestamp");
    let no_quote = obj(vec![("chart", obj(vec![("result", arr(vec![obj(vec![("timestamp", arr(vec![]))])]))]))]);
    assert_eq!(message(parse_chart_json(&no_quote)), "yahoo: missing quote");
    let bad = chart(vec![num_i(0)], vec![JsonValue::Str("1".to_string())], None);
    assert_eq!(message(parse_chart_json(&bad)), "yahoo number");
    let far = chart(vec![num_i(i64::MAX)], vec![num_d(1, 0)], None);
    assert_eq!(parse_chart_json(&far).unwrap()[0].date, i64::MAX.to_string());
}
