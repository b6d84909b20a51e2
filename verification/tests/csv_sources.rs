use athenas_pallas::decimal::Dec;
use athenas_pallas::error::Error;
use athenas_pallas::events::{Event, MarketEvent};
use athenas_pallas::export::OhlcvBar;
use athenas_pallas::merge::{merge_sources, HistoricalSource};
use athenas_pallas::sources::{FutureCsvSource, FutureRow, FxCsvSource, FxRow, YahooCsvSource};
use athenas_pallas::yahoo::YahooRow;

const JAN_2_2024: i128 = 1_704_153_600_000_000_000;

fn d(m: i128) -> Dec {
    Dec::new(m, 0)
}

fn yahoo_row(close: i128, adj: Option<Dec>) -> YahooRow {
    YahooRow {
        date: "2024-01-02".to_string(),
        open: d(4800),
        high: d(4810),
        low: d(4790),
        close: d(close),
        adj_close: adj,
        volume: d(100000),
    }
}

fn bar_close(e: &Event) -> (i128, Dec) {
    match e {
        Event::Market(MarketEvent::Bar { ts, close, .. }) => (*ts, *close),
        other => panic!("expected a bar, got {other:?}"),
    }
}

#[test]
fn loads_yahoo_fixture() {
    // Date,Open,High,Low,Close,Volume
    // 2024-01-02,4800,4810,4790,4805,100000
    let rows = vec![FutureRow::Yahoo(JAN_2_2024, yahoo_row(4805, None))];
    let mut src = FutureCsvSource::from_rows(rows, "cme", "ES").unwrap();
    assert!(src.next_event().is_some());
    assert!(src.next_event().is_none());
}

#[test]
fn future_rows_of_both_layouts_become_bars() {
    let ohlcv = OhlcvBar { ts: JAN_2_2024 + 60, open: d(1), high: d(2), low: d(1), close: d(2), volume: d(5) };
    let rows = vec![
        FutureRow::Yahoo(JAN_2_2024, yahoo_row(4805, Some(d(4800)))),
        FutureRow::Ohlcv(ohlcv),
    ];
    let mut src = FutureCsvSource::from_rows(rows, "cme", "ES").unwrap();
    let first = src.next_event().unwrap();
    let (ts, close) = bar_close(&first);
    assert_eq!((ts, close.mantissa), (JAN_2_2024, 4800));
    let (ts, close) = bar_close(&src.next_event().unwrap());
    assert_eq!((ts, close.mantissa), (JAN_2_2024 + 60, 2));
    assert!(src.next_event().is_none());
}

#[test]
fn yahoo_source_replays_adjusted_close() {
    let mut src = YahooCsvSource::from_rows(vec![(JAN_2_2024, yahoo_row(10, Some(Dec::new(95, 1))))], "nyse", "SPY").unwrap();
    let e = src.next_event().unwrap();
    match &e {
        Event::Market(MarketEvent::Bar { instrument, close, .. }) => {
            assert_eq!((instrument.exchange.as_str(), instrument.symbol.as_str()), ("nyse", "SPY"));
            assert_eq!((close.mantissa, close.scale), (95, 1));
        }
        other => panic!("expected a bar, got {other:?}"),
    }
    assert!(src.next_event().is_none());
}

#[test]
fn fx_source_replays_quotes_in_file_order() {
    let rows = vec![
        FxRow { ts: 10, bid: Dec::new(10850, 4), ask: Dec::new(10852, 4) },
        FxRow { ts: 20, bid: Dec::new(10851, 4), ask: Dec::new(10853, 4) },
    ];
    let mut src = FxCsvSource::from_rows(rows, "fx", "EURUSD").unwrap();
    for (want_ts, want_bid) in [(10, 10850), (20, 10851)] {
        match src.next_event() {
            Some(Event::Market(MarketEvent::BookL1 { ts, bid, provenance, .. })) => {
                assert_eq!((ts, bid.mantissa), (want_ts, want_bid));
                assert!(provenance.is_none());
            }
            other => panic!("expected a quote, got {other:?}"),
        }
    }
    assert!(src.next_event().is_none());
}

#[test]
fn empty_files_are_refused() {
    match FxCsvSource::from_rows(Vec::new(), "fx", "EURUSD") {
        Err(Error::Invalid(m)) => assert_eq!(m, "empty csv"),
        _ => panic!("empty fx file accepted"),
    }
    assert!(YahooCsvSource::from_rows(Vec::new(), "nyse", "SPY").is_err());
    assert!(FutureCsvSource::from_rows(Vec::new(), "cme", "ES").is_err());
}

#[test]
fn fx_sources_merge_by_time() {
    let a = FxCsvSource::from_rows(
        vec![FxRow { ts: 10, bid: d(1), ask: d(2) }, FxRow { ts: 30, bid: d(1), ask: d(2) }],
        "fx",
        "EURUSD",
    )
    .unwrap();
    let b = FxCsvSource::from_rows(vec![FxRow { ts: 20, bid: d(3), ask: d(4) }], "fx", "GBPUSD").unwrap();
    let merged = merge_sources(vec![a, b]);
    let times: Vec<i128> = merged.iter().map(|e| e.timestamp().unwrap()).collect();
    assert_eq!(times, vec![10, 20, 30]);
}
