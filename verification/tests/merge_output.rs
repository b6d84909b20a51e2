use athenas_pallas::bar::{BarSeries, BarSeriesSource};
use athenas_pallas::config::InstrumentId;
use athenas_pallas::decimal::Dec;
use athenas_pallas::error::Error;
use athenas_pallas::events::{Event, MarketEvent};
use athenas_pallas::export::{merged_bar_records, OhlcvBar};
use athenas_pallas::merge::merge_sources;
use athenas_pallas::sources::{AnySource, FxCsvSource, FxRow, YahooCsvSource};
use athenas_pallas::yahoo::YahooRow;

const JAN_2_2024: i128 = 1_704_153_600_000_000_000;

fn row(ts: i128, close_cents: i128) -> OhlcvBar {
    OhlcvBar {
        ts,
        open: Dec::new(123, 2),
        high: Dec::new(150, 2),
        low: Dec::new(100, 2),
        close: Dec::new(close_cents, 2),
        volume: Dec::new(7, 0),
    }
}

fn bar_event(exchange: &str, symbol: &str, ts: i128) -> Event {
    Event::Market(MarketEvent::Bar {
        instrument: InstrumentId::new(exchange, symbol),
        ts,
        open: Dec::new(10, 0),
        high: Dec::new(115, 1),
        low: Dec::new(9, 0),
        close: Dec::new(11, 0),
        volume: Dec::new(100, 0),
    })
}

#[test]
fn ohlcv_rows_encode_in_ticks() {
    let series = BarSeries::from_ohlcv_rows(&vec![row(JAN_2_2024, 125), row(JAN_2_2024 + 60, 130)], Dec::new(1, 2))
        .unwrap();
    assert_eq!(series.len(), 2);
    let b = series.bars[0];
    assert_eq!(b.ts_unix_nanos, JAN_2_2024 as i64);
    assert_eq!((b.open_ticks, b.high_ticks, b.low_ticks, b.close_ticks, b.volume_lots), (123, 150, 100, 125, 700));
    assert_eq!(series.bars[1].close_ticks, 130);
}

#[test]
fn ohlcv_rows_must_not_be_empty() {
    match BarSeries::from_ohlcv_rows(&Vec::new(), Dec::new(1, 2)) {
        Err(Error::Invalid(m)) => assert_eq!(m, "empty csv"),
        _ => panic!("empty file accepted"),
    }
}

#[test]
fn merged_records_list_bar_events_only() {
    let events = vec![
        bar_event("binance", "BTCUSDT", JAN_2_2024),
        Event::Market(MarketEvent::BookL1 {
            instrument: InstrumentId::new("fx", "EURUSD"),
            ts: JAN_2_2024,
            bid: Dec::new(1, 0),
            ask: Dec::new(2, 0),
            provenance: None,
        }),
        bar_event("yahoo", "AAPL", JAN_2_2024 + 90_000_000_000),
    ];
    let recs = merged_bar_records(&events);
    assert_eq!(recs.len(), 3);
    assert_eq!(recs[0], vec!["ts", "exchange", "symbol", "open", "high", "low", "close", "volume"]);
    assert_eq!(recs[1], vec!["2024-01-02T00:00:00Z", "binance", "BTCUSDT", "10", "11.5", "9", "11", "100"]);
    assert_eq!(recs[2][0], "2024-01-02T00:01:30Z");
    assert_eq!(recs[2][2], "AAPL");
}

#[test]
fn merged_records_fall_back_to_unix_seconds_before_year_zero() {
    let before_year_zero: i128 = -62_200_000_000_500_000_000;
    let recs = merged_bar_records(&vec![bar_event("x", "Y", before_year_zero)]);
    assert_eq!(recs[1][0], "-62200000001");
    let whole: i128 = -62_200_000_000_000_000_000;
    assert_eq!(merged_bar_records(&vec![bar_event("x", "Y", whole)])[1][0], "-62200000000");
    assert_eq!(merged_bar_records(&Vec::new()).len(), 1);
}

#[test]
fn sources_of_different_layouts_merge_by_time() {
    let bars = BarSeries::from_ohlcv_rows(&vec![row(30, 125)], Dec::new(1, 2)).unwrap();
    let yahoo = YahooCsvSource::from_rows(
        vec![(20, YahooRow {
            date: "1970-01-01".to_string(),
            open: Dec::new(1, 0),
            high: Dec::new(1, 0),
            low: Dec::new(1, 0),
            close: Dec::new(1, 0),
            adj_close: None,
            volume: Dec::new(1, 0),
        })],
        "yahoo",
        "AAPL",
    )
    .unwrap();
    let fx = FxCsvSource::from_rows(vec![FxRow { ts: 10, bid: Dec::new(1, 0), ask: Dec::new(2, 0) }], "fx", "EURUSD")
        .unwrap();
    let merged = merge_sources(vec![
        AnySource::Bars(BarSeriesSource::new(bars, "binance", "BTCUSDT")),
        AnySource::Yahoo(yahoo),
        AnySource::Fx(fx),
    ]);
    let times: Vec<i128> = merged.iter().map(|e| e.timestamp().unwrap()).collect();
    assert_eq!(times, vec![10, 20, 30]);
    let recs = merged_bar_records(&merged);
    assert_eq!(recs.len(), 3);
    assert_eq!(recs[1][1], "yahoo");
    assert_eq!(recs[2][1], "binance");
}

fn two_sources() -> Vec<AnySource> {
    // BTCUSDT bars every day from 2024-01-01, AAPL rows on business days from 2024-01-02.
    let day: i128 = 86_400_000_000_000;
    let start = JAN_2_2024 - day;
    let btc: Vec<OhlcvBar> = (0..10).map(|k| row(start + k * day, 120 + k)).collect();
    let bars = BarSeries::from_ohlcv_rows(&btc, Dec::new(1, 2)).unwrap();
    let aapl: Vec<(i128, YahooRow)> = [0i128, 1, 2, 3, 6, 7]
        .iter()
        .map(|k| {
            (JAN_2_2024 + k * day, YahooRow {
                date: String::new(),
                open: Dec::new(185, 0),
                high: Dec::new(187, 0),
                low: Dec::new(184, 0),
                close: Dec::new(186, 0),
                adj_close: Some(Dec::new(1855, 1)),
                volume: Dec::new(1000, 0),
            })
        })
        .collect();
    vec![
        AnySource::Bars(BarSeriesSource::new(bars, "test", "BTCUSDT")),
        AnySource::Yahoo(YahooCsvSource::from_rows(aapl, "yahoo", "AAPL").unwrap()),
    ]
}

#[test]
fn merge_two_csvs_by_ts() {
    let merged = merge_sources(two_sources());
    assert!(!merged.is_empty());
    assert_eq!(merged.len(), 16);
    for w in merged.windows(2) {
        assert!(w[0].timestamp().unwrap() <= w[1].timestamp().unwrap());
    }
    assert!(merged.iter().any(|e| matches!(e, Event::Market(MarketEvent::Bar { .. }))));
}

#[test]
fn merge_iterator_streams_in_order() {
    let mut it = athenas_pallas::merge::merge_sources_iter(two_sources());
    let mut prev = None;
    let mut count = 0usize;
    while let Some(ev) = it.next() {
        let ts = ev.timestamp().unwrap();
        if let Some(p) = prev {
            assert!(p <= ts);
        }
        prev = Some(ts);
        count += 1;
    }
    assert_eq!(count, 16);
}
