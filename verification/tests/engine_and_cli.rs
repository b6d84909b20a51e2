use athenas_pallas::engine::{command_progress, CancelOutcome, CommandNext, CommandReply};
use athenas_pallas::databento::{cache_step, CacheAction, CacheProgress, CacheRequest};
use athenas_pallas::audit::{ControlEventSummary, StrategySkipReason};
use athenas_pallas::cli::{
    aggregate_rows, binary_candidates, bucket_start, detect_format_by_headers,
    detect_format_by_name, interval_to_seconds, interval_to_seconds_checked, parse_balance,
    parse_i64, parse_positive_decimal, parse_source_spec, resolve_format,
    split_strategy_parameter, CppToolchain, ParsedRow, SourceFormat,
};
use athenas_pallas::config::{DataFormat, InstrumentId};
use athenas_pallas::databento::{
    cache_file_name, manifest_matches_request, parse_datetime, parse_datetime_with_offset,
    validate_inspection,
    AdjustmentMode, DatabentoCacheManifest, DatabentoOhlcvSchema, DatabentoSType, EntitledRange,
};
use athenas_pallas::decimal::Dec;
use athenas_pallas::engine::{
    apply_control_sync, cancel_client_order_ids, close_position_intent, flatten_intent,
    flatten_targets, rejection_record, strategy_skip_reason, take_pending_for_instrument,
    command_step, CommandAction, ControlFollowUp, EngineCommandRequest, EngineConfig,
};
use athenas_pallas::error::Error;
use athenas_pallas::events::{ControlEvent, OrderIntent, OrderIntentSource, RejectionKind};
use athenas_pallas::orders::{OpenOrder, OrderStatus, OrderType, Side};
use athenas_pallas::report::{data_format_name, report_final_positions, report_pending_orders};
use athenas_pallas::state::{Balance, GlobalState, InstrumentMeta, InstrumentState, TradingState};
use athenas_pallas::strategy::join_path_text;
use time::{Date, Month};

fn dec(m: i128, s: u32) -> Dec {
    Dec::new(m, s)
}

fn chars(s: &str) -> Vec<char> {
    s.chars().collect()
}

fn midnight_utc(y: i32, m: u8, d: u8) -> i128 {
    Date::from_calendar_date(y, Month::try_from(m).unwrap(), d)
        .unwrap()
        .midnight()
        .assume_utc()
        .unix_timestamp_nanos()
}

fn instrument(symbol: &str, position: Dec) -> InstrumentState {
    InstrumentState {
        id: InstrumentId::new("test", symbol),
        meta: InstrumentMeta::spot(symbol, "USD"),
        position,
        average_entry_price: None,
        l1: None,
        bar: None,
        mid_or_last: None,
    }
}

fn order(id: u128, symbol: &str, client: Option<&str>) -> OpenOrder {
    OpenOrder {
        id,
        instrument: InstrumentId::new("test", symbol),
        side: Side::Buy,
        order_type: OrderType::Limit,
        price: Some(dec(100, 0)),
        stop_price: None,
        remaining_qty: dec(1, 0),
        original_qty: dec(1, 0),
        status: OrderStatus::Open,
        client_order_id: client.map(|c| c.to_string()),
        oco_group: None,
        strategy_id: None,
    }
}

fn intent_on(symbol: &str, qty: Dec) -> OrderIntent {
    OrderIntent {
        instrument: InstrumentId::new("test", symbol),
        side: Side::Buy,
        order_type: OrderType::Limit,
        price: Some(dec(99, 0)),
        stop_price: None,
        qty,
        client_order_id: Some(format!("c-{symbol}")),
        oco_group: None,
        source: OrderIntentSource::User,
        strategy_id: None,
    }
}

fn state() -> GlobalState {
    GlobalState {
        instruments: vec![
            instrument("AAA", dec(25, 1)),
            instrument("BBB", Dec::zero()),
            instrument("CCC", dec(-3, 0)),
        ],
        balances: vec![Balance { asset: "USD".to_string(), free: dec(1000, 0) }],
        open_orders: vec![order(7, "AAA", Some("x")), order(8, "BBB", None), order(9, "CCC", Some("x"))],
        last_event_ts: Some(1_700_000_000_000_000_000),
        paused: false,
        trading_state: TradingState::Enabled,
    }
}

#[test]
fn control_commands_set_switches_and_follow_ups() {
    let mut s = state();
    assert_eq!(strategy_skip_reason(&s), None);
    assert_eq!(apply_control_sync(&mut s, ControlEvent::DisableTrading), ControlFollowUp::Nothing);
    assert_eq!(strategy_skip_reason(&s), Some(StrategySkipReason::TradingDisabled));
    assert_eq!(apply_control_sync(&mut s, ControlEvent::Pause), ControlFollowUp::Nothing);
    assert_eq!(strategy_skip_reason(&s), Some(StrategySkipReason::Paused));
    apply_control_sync(&mut s, ControlEvent::Resume);
    apply_control_sync(&mut s, ControlEvent::EnableTrading);
    assert_eq!(strategy_skip_reason(&s), None);
    assert_eq!(apply_control_sync(&mut s, ControlEvent::CancelAll), ControlFollowUp::CancelAll);
    assert_eq!(
        apply_control_sync(&mut s, ControlEvent::Flatten),
        ControlFollowUp::CancelAllThenFlatten
    );
    assert_eq!(s.open_orders.len(), 3);
    assert_eq!(ControlEventSummary::from(&ControlEvent::Flatten), ControlEventSummary::Flatten);
}

#[test]
fn flatten_closes_every_position_with_a_market_order() {
    let s = state();
    let targets = flatten_targets(&s);
    assert_eq!(targets.len(), 2);
    assert_eq!(targets[0].symbol, "AAA");
    assert_eq!(targets[1].symbol, "CCC");
    let long = close_position_intent(&s, &targets[0]).unwrap();
    assert_eq!(long.side, Side::Sell);
    assert_eq!(long.order_type, OrderType::Market);
    assert_eq!((long.qty.mantissa, long.qty.scale), (25, 1));
    assert_eq!(long.source, OrderIntentSource::Flatten);
    let short = close_position_intent(&s, &targets[1]).unwrap();
    assert_eq!(short.side, Side::Buy);
    assert_eq!(short.qty.mantissa, 3);
    assert!(close_position_intent(&s, &InstrumentId::new("test", "BBB")).is_none());
    assert!(close_position_intent(&s, &InstrumentId::new("test", "ZZZ")).is_none());
    assert!(flatten_intent(&InstrumentId::new("test", "AAA"), Dec::zero()).is_none());
}

#[test]
fn deferred_intents_are_released_per_instrument_in_order() {
    let mut pending = vec![
        intent_on("AAA", dec(1, 0)),
        intent_on("BBB", dec(2, 0)),
        intent_on("AAA", dec(3, 0)),
    ];
    let ready = take_pending_for_instrument(&mut pending, &InstrumentId::new("test", "AAA"));
    assert_eq!(ready.len(), 2);
    assert_eq!(ready[0].qty.mantissa, 1);
    assert_eq!(ready[1].qty.mantissa, 3);
    assert_eq!(pending.len(), 1);
    assert_eq!(pending[0].instrument.symbol, "BBB");
}

#[test]
fn cancel_by_client_id_targets_every_match() {
    let s = state();
    assert_eq!(cancel_client_order_ids(&s, &"x".to_string()).unwrap(), vec![7, 9]);
    match cancel_client_order_ids(&s, &"nope".to_string()) {
        Err(Error::Invalid(m)) => assert_eq!(m, "unknown client order id nope"),
        other => panic!("unexpected {other:?}"),
    }
}

#[test]
fn rejection_records_take_the_last_event_time() {
    let mut s = state();
    let i = intent_on("AAA", dec(1, 0));
    let r = rejection_record(&s, RejectionKind::Risk, &i, "too big".to_string());
    assert_eq!(r.ts_unix_nanos, 1_700_000_000_000_000_000);
    assert_eq!(r.reason, "too big");
    assert_eq!(r.client_order_id.as_deref(), Some("c-AAA"));
    s.last_event_ts = None;
    let r = rejection_record(&s, RejectionKind::Execution, &i, "x".to_string());
    assert_eq!(r.ts_unix_nanos, 0);
}

#[test]
fn report_rows_follow_book_and_registry_order() {
    let s = state();
    let deferred = vec![intent_on("BBB", dec(2, 0))];
    let rows = report_pending_orders(&s, &deferred);
    assert_eq!(rows.len(), 4);
    assert_eq!(rows[0].order_id, Some(7));
    assert_eq!(rows[0].state, "working");
    assert_eq!(rows[0].qty, "1");
    assert_eq!(rows[0].price.as_deref(), Some("100"));
    assert_eq!(rows[3].order_id, None);
    assert_eq!(rows[3].state, "awaiting_next_market");
    assert_eq!(rows[3].price.as_deref(), Some("99"));
    let positions = report_final_positions(&s);
    assert_eq!(positions.len(), 3);
    assert_eq!(positions[0].qty, "2.5");
    assert_eq!(positions[1].qty, "0");
    assert_eq!(positions[2].qty, "-3");
    assert_eq!(data_format_name(DataFormat::Jsonl), "jsonl");
    assert_eq!(data_format_name(DataFormat::Auto), "auto");
}

#[test]
fn engine_config_defaults() {
    let c = EngineConfig::default();
    assert_eq!(c.channel_capacity, 1024);
    assert!(c.timer_schedules.is_empty());
    assert!(c.audit_broadcast_capacity.is_none());
    assert!(c.command_channel_capacity.is_none());
}

#[test]
fn builds_stable_cache_path() {
    let name = cache_file_name(
        "EQUS.MINI",
        "AAPL",
        DatabentoOhlcvSchema::Ohlcv1D,
        (midnight_utc(2025, 1, 1), 0),
        (midnight_utc(2025, 2, 1), 0),
        AdjustmentMode::Raw,
    );
    let path = join_path_text("data/databento", name.as_str());
    assert_eq!(
        path,
        "data/databento/EQUS_MINI_AAPL_ohlcv-1d_20250101T000000Z_20250201T000000Z.csv"
    );
}

#[test]
fn adjusted_cache_name_carries_the_mode() {
    let name = cache_file_name(
        "GLBX.MDP3",
        "ES.c.0",
        DatabentoOhlcvSchema::Ohlcv1H,
        (midnight_utc(2024, 12, 31), 0),
        (midnight_utc(2025, 1, 1) + 90 * 60 * 1_000_000_000, 0),
        AdjustmentMode::SplitAdjusted,
    );
    assert_eq!(
        name,
        "GLBX_MDP3_ES_c_0_ohlcv-1h_20241231T000000Z_20250101T013000Z_split-adjusted.csv"
    );
}

#[test]
fn cache_names_stamp_the_wall_clock_the_bound_was_written_in() {
    let start = parse_datetime_with_offset("2025-01-01T09:30:00-05:00").unwrap();
    assert_eq!(start, (midnight_utc(2025, 1, 1) + (14 * 3600 + 30 * 60) * 1_000_000_000, -18000));
    let end = parse_datetime_with_offset("01-02-2025").unwrap();
    assert_eq!(end, (midnight_utc(2025, 1, 2), 0));
    let name = cache_file_name("EQUS.MINI", "AAPL", DatabentoOhlcvSchema::Ohlcv1D, start, end, AdjustmentMode::Raw);
    assert_eq!(name, "EQUS_MINI_AAPL_ohlcv-1d_20250101T093000Z_20250102T000000Z.csv");
}

#[test]
fn parses_american_date_only_as_utc_midnight() {
    let dt = parse_datetime("01-01-2025").unwrap();
    assert_eq!(dt, midnight_utc(2025, 1, 1));
}

#[test]
fn rejects_iso_date_only_format() {
    let err = parse_datetime("2025-01-01").unwrap_err();
    assert!(err.to_text().contains("American MM-DD-YYYY format"));
}

#[test]
fn request_bounds_accept_rfc3339_and_american_datetimes() {
    assert_eq!(parse_datetime(" 2025-01-01T00:00:00Z ").unwrap(), midnight_utc(2025, 1, 1));
    assert_eq!(
        parse_datetime("01-02-2025 01:00:00").unwrap(),
        midnight_utc(2025, 1, 2) + 3600 * 1_000_000_000
    );
    match parse_datetime(" junk ") {
        Err(Error::Invalid(m)) => assert!(m.starts_with("invalid databento datetime 'junk';")),
        other => panic!("unexpected {other:?}"),
    }
}

fn manifest() -> DatabentoCacheManifest {
    DatabentoCacheManifest {
        version: 1,
        dataset: "EQUS.MINI".to_string(),
        input_symbols: vec!["AAPL".to_string()],
        stype_in: "raw_symbol".to_string(),
        schema: "ohlcv-1d".to_string(),
        start: "2025-01-01T00:00:00Z".to_string(),
        end: "2025-02-01T00:00:00Z".to_string(),
        retrieved_at: "2025-02-02T00:00:00Z".to_string(),
        source_row_count: 21,
        raw_sha256: "00".to_string(),
        adjustment_mode: "raw".to_string(),
        databento_client: "x".to_string(),
    }
}

#[test]
fn cache_manifest_must_describe_the_request() {
    let m = manifest();
    let ok = |m: &DatabentoCacheManifest, schema| {
        manifest_matches_request(
            m,
            "EQUS.MINI",
            "AAPL",
            DatabentoSType::RawSymbol,
            schema,
            "2025-01-01T00:00:00Z",
            "2025-02-01T00:00:00Z",
        )
    };
    assert!(ok(&m, DatabentoOhlcvSchema::Ohlcv1D));
    assert!(!ok(&m, DatabentoOhlcvSchema::Ohlcv1H));
    let mut adjusted = manifest();
    adjusted.adjustment_mode = "split-adjusted".to_string();
    assert!(!ok(&adjusted, DatabentoOhlcvSchema::Ohlcv1D));
    let mut two = manifest();
    two.input_symbols.push("MSFT".to_string());
    assert!(!ok(&two, DatabentoOhlcvSchema::Ohlcv1D));
}

#[test]
fn balances_and_parameters_split_at_first_separator() {
    assert_eq!(parse_balance("USD:10000").unwrap(), ("USD".to_string(), "10000".to_string()));
    assert_eq!(parse_balance("a:b:c").unwrap(), ("a".to_string(), "b:c".to_string()));
    assert_eq!(parse_balance("USD").unwrap_err(), "balance must be ASSET:AMOUNT");
    assert_eq!(
        split_strategy_parameter("fast=5").unwrap(),
        ("fast".to_string(), "5".to_string())
    );
    assert_eq!(
        split_strategy_parameter("  =5").unwrap_err(),
        "strategy parameter key must not be empty"
    );
    assert_eq!(split_strategy_parameter("fast").unwrap_err(), "strategy parameter must be KEY=JSON");
    let q = parse_positive_decimal("1.50").unwrap();
    assert_eq!((q.mantissa, q.scale), (150, 2));
    assert_eq!(parse_positive_decimal("0").unwrap_err(), "quantity must be positive");
    assert_eq!(parse_positive_decimal("ten").unwrap_err(), "invalid decimal `ten`");
}

#[test]
fn integers_and_intervals() {
    assert_eq!(parse_i64(&chars("-42")), Some(-42));
    assert_eq!(parse_i64(&chars("+7")), Some(7));
    assert_eq!(parse_i64(&chars("9223372036854775807")), Some(i64::MAX));
    assert_eq!(parse_i64(&chars("9223372036854775808")), None);
    assert_eq!(parse_i64(&chars("-")), None);
    assert_eq!(parse_i64(&chars("1a")), None);
    assert_eq!(interval_to_seconds("5m"), Some(300));
    assert_eq!(interval_to_seconds(" 4H "), Some(14_400));
    assert_eq!(interval_to_seconds("1d"), Some(86_400));
    assert_eq!(interval_to_seconds("10s"), None);
    assert_eq!(interval_to_seconds("m"), None);
    assert_eq!(interval_to_seconds_checked("2h"), Some(Some(7200)));
    assert_eq!(interval_to_seconds_checked("x"), Some(None));
    assert_eq!(interval_to_seconds_checked("9223372036854775807d"), None);
    assert_eq!(bucket_start(3_599, 3_600), 0);
    assert_eq!(bucket_start(7_201, 3_600), 7_200);
    assert_eq!(bucket_start(-1, 3_600), 0);
    assert_eq!(bucket_start(-3_601, 3_600), -3_600);
    // A negative width truncates the same way as its magnitude.
    assert_eq!(bucket_start(7_201, -3_600), 7_200);
    assert_eq!(bucket_start(-3_601, -3_600), -3_600);
    assert_eq!(interval_to_seconds("-5m"), Some(-300));
}

fn row(ts: i64, o: i128, h: i128, l: i128, c: i128, v: i128) -> ParsedRow {
    ParsedRow {
        ts,
        open: dec(o, 0),
        high: dec(h, 0),
        low: dec(l, 0),
        close: dec(c, 0),
        volume: dec(v, 0),
    }
}

#[test]
fn resampling_merges_rows_of_one_bucket() {
    let rows = vec![
        row(0, 10, 12, 9, 11, 1),
        row(60, 11, 15, 10, 14, 2),
        row(300, 14, 14, 13, 13, 4),
        row(330, 13, 16, 8, 15, 5),
    ];
    let out = aggregate_rows(&rows, 300).unwrap();
    assert_eq!(out.len(), 2);
    let a = out[0];
    assert_eq!(a.ts, 0);
    assert_eq!((a.open.mantissa, a.high.mantissa, a.low.mantissa), (10, 15, 9));
    assert_eq!((a.close.mantissa, a.volume.mantissa), (14, 3));
    let b = out[1];
    assert_eq!(b.ts, 300);
    assert_eq!((b.open.mantissa, b.high.mantissa, b.low.mantissa), (14, 16, 8));
    assert_eq!((b.close.mantissa, b.volume.mantissa), (15, 9));
    assert!(aggregate_rows(&Vec::new(), 60).unwrap().is_empty());
    let overflow = vec![
        row(0, 1, 1, 1, 1, 79_228_162_514_264_337_593_543_950_335),
        row(1, 1, 1, 1, 1, 1),
    ];
    assert!(aggregate_rows(&overflow, 60).is_none());
}

#[test]
fn merge_source_specs() {
    let (f, e, s, p) = parse_source_spec("Yahoo:yahoo:AAPL:C:/data/AAPL.csv").unwrap();
    assert_eq!(f, SourceFormat::Yahoo);
    assert_eq!((e.as_str(), s.as_str(), p.as_str()), ("yahoo", "AAPL", "C:/data/AAPL.csv"));
    assert_eq!(parse_source_spec("binance:b:BTC:x.csv").unwrap().0, SourceFormat::Ohlcv);
    assert_eq!(parse_source_spec("futures:cme:ES:x.csv").unwrap().0, SourceFormat::Future);
    assert_eq!(
        parse_source_spec("csv:b:BTC:x.csv").unwrap_err(),
        "unknown format in source spec: csv"
    );
    assert!(parse_source_spec("yahoo:AAPL").unwrap_err().starts_with("source spec must be"));
}

#[test]
fn data_format_detection() {
    let headers = |hs: &[&str]| hs.iter().map(|h| h.to_string()).collect::<Vec<_>>();
    assert_eq!(detect_format_by_name("d/x.pbar"), Some(DataFormat::Ohlcv));
    assert_eq!(detect_format_by_name("d/x.jsonl"), Some(DataFormat::Jsonl));
    assert_eq!(detect_format_by_name("d/x.csv"), None);
    assert_eq!(detect_format_by_headers(&headers(&["ts", "bid", "ask"])), DataFormat::Fx);
    assert_eq!(detect_format_by_headers(&headers(&["ts", "open"])), DataFormat::Ohlcv);
    let fx = headers(&["ts", "bid", "ask"]);
    assert_eq!(resolve_format("d/x.csv", DataFormat::Auto, &fx), DataFormat::Fx);
    assert_eq!(resolve_format("d/x.pbar", DataFormat::Auto, &fx), DataFormat::Ohlcv);
    assert_eq!(resolve_format("d/x.csv", DataFormat::Jsonl, &fx), DataFormat::Jsonl);
}

#[test]
fn cpp_toolchain_layout() {
    assert_eq!(CppToolchain::detect(true, false, true, true), CppToolchain::Mingw);
    assert_eq!(CppToolchain::detect(true, true, true, true), CppToolchain::Default);
    assert_eq!(CppToolchain::detect(false, false, true, true), CppToolchain::Default);
    assert_eq!(CppToolchain::Mingw.configure_args(), vec!["-G", "MinGW Makefiles", "-DCMAKE_CXX_COMPILER=g++"]);
    assert!(CppToolchain::Default.configure_args().is_empty());
    assert!(CppToolchain::Mingw.configure_error().contains("MinGW"));
    let c = binary_candidates("build", "simple_sma", ".exe");
    assert_eq!(
        c,
        vec![
            "build/simple_sma.exe",
            "build/Release/simple_sma.exe",
            "build/Debug/simple_sma.exe",
            "build/RelWithDebInfo/simple_sma.exe",
            "build/MinSizeRel/simple_sma.exe",
        ]
    );
}

#[test]
fn inspection_rejects_unavailable_schema_before_cost_or_download() {
    let start = parse_datetime("01-01-2025").unwrap();
    let end = parse_datetime("02-01-2025").unwrap();
    // The dataset advertises another schema only (a trades feed in the vendor's terms).
    let error = validate_inspection(
        "EQUS.MINI",
        DatabentoOhlcvSchema::Ohlcv1D,
        start,
        end,
        &vec![DatabentoOhlcvSchema::Ohlcv1H],
        &Vec::new(),
    )
    .unwrap_err();
    assert!(error.to_text().contains("does not advertise schema"));
}

#[test]
fn inspection_rejects_out_of_range_request() {
    let start = parse_datetime("01-01-2025").unwrap();
    let end = parse_datetime("02-01-2025").unwrap();
    let entitled = EntitledRange {
        schema: DatabentoOhlcvSchema::Ohlcv1D,
        start: parse_datetime("01-01-2025").unwrap(),
        end: parse_datetime("01-15-2025").unwrap(),
    };
    let error = validate_inspection(
        "EQUS.MINI",
        DatabentoOhlcvSchema::Ohlcv1D,
        start,
        end,
        &vec![DatabentoOhlcvSchema::Ohlcv1D],
        &vec![entitled],
    )
    .unwrap_err();
    assert!(error.to_text().contains("outside entitled"));
    assert!(error
        .to_text()
        .starts_with("invalid: databento request 2025-01-01 0:00:00.0 +00:00:00..2025-02-01"));
}

#[test]
fn inspection_accepts_a_request_inside_the_entitled_range() {
    let entitled = EntitledRange {
        schema: DatabentoOhlcvSchema::Ohlcv1D,
        start: parse_datetime("01-01-2020").unwrap(),
        end: parse_datetime("01-01-2026").unwrap(),
    };
    let r = validate_inspection(
        "EQUS.MINI",
        DatabentoOhlcvSchema::Ohlcv1D,
        parse_datetime("01-01-2025").unwrap(),
        parse_datetime("02-01-2025").unwrap(),
        &vec![DatabentoOhlcvSchema::Ohlcv1D],
        &vec![entitled],
    )
    .unwrap();
    assert_eq!(r.end, entitled.end);
    let missing = validate_inspection(
        "EQUS.MINI",
        DatabentoOhlcvSchema::Ohlcv1D,
        entitled.start,
        entitled.end,
        &vec![DatabentoOhlcvSchema::Ohlcv1D],
        &Vec::new(),
    )
    .unwrap_err();
    assert!(missing.to_text().contains("did not return an entitled range for schema 'ohlcv-1d'"));
}

#[test]
fn engine_commands_pick_the_instrument_orders() {
    let mut s = state();
    s.open_orders = vec![order(1, "BTCUSDT", None), order(2, "ETHUSDT", None), order(3, "BTCUSDT", Some("c"))];
    match command_step(&s, &EngineCommandRequest::ListOpenOrders) {
        CommandAction::ReplyOpenOrders(v) => assert_eq!(v.iter().map(|o| o.id).collect::<Vec<_>>(), vec![1, 2, 3]),
        other => panic!("unexpected {other:?}"),
    }
    match command_step(&s, &EngineCommandRequest::CancelOrdersInstrument(InstrumentId::new("test", "BTCUSDT"))) {
        CommandAction::CancelAndCount(ids) => assert_eq!(ids, vec![1, 3]),
        other => panic!("unexpected {other:?}"),
    }
    match command_step(&s, &EngineCommandRequest::ClosePosition(InstrumentId::new("test", "SOLUSDT"))) {
        CommandAction::CancelThenClose(ids) => assert!(ids.is_empty()),
        other => panic!("unexpected {other:?}"),
    }
}

#[test]
fn normalizing_an_interval_twice_changes_nothing() {
    let once = athenas_pallas::intervals::normalize_interval(" 1D ");
    assert_eq!(once, "1d");
    assert_eq!(athenas_pallas::intervals::normalize_interval(&once), once);
}

#[test]
fn close_position_command_cancels_then_checks_risk_then_places() {
    let s = state();
    let inst = InstrumentId::new("test", "AAA");
    let cmd = EngineCommandRequest::ClosePosition(inst.clone());
    let targets = vec![7u128];
    match command_progress(&s, &cmd, &targets, &Vec::new(), &None, &None) {
        CommandNext::Cancel(id) => assert_eq!(id, 7),
        other => panic!("unexpected {other:?}"),
    }
    let done = vec![CancelOutcome::Canceled];
    let intent = match command_progress(&s, &cmd, &targets, &done, &None, &None) {
        CommandNext::CheckRisk(i) => i,
        other => panic!("unexpected {other:?}"),
    };
    assert_eq!(intent.side, Side::Sell);
    assert_eq!((intent.qty.mantissa, intent.qty.scale), (25, 1));
    assert!(matches!(command_progress(&s, &cmd, &targets, &done, &Some(Ok(())), &None), CommandNext::Place(_)));
    assert!(matches!(
        command_progress(&s, &cmd, &targets, &done, &Some(Ok(())), &Some(Ok(()))),
        CommandNext::Reply(CommandReply::Closed(Ok(())))
    ));
    match command_progress(&s, &cmd, &targets, &done, &Some(Err("max position".to_string())), &None) {
        CommandNext::Reply(CommandReply::Closed(Err(m))) => assert_eq!(m, "max position"),
        other => panic!("unexpected {other:?}"),
    }
    // Flat instrument: nothing to place.
    let flat = EngineCommandRequest::ClosePosition(InstrumentId::new("test", "BBB"));
    assert!(matches!(
        command_progress(&s, &flat, &Vec::new(), &Vec::new(), &None, &None),
        CommandNext::Reply(CommandReply::Closed(Ok(())))
    ));
}

#[test]
fn cancel_command_counts_and_stops_at_first_failure() {
    let s = state();
    let cmd = EngineCommandRequest::CancelOrdersInstrument(InstrumentId::new("test", "AAA"));
    let targets = vec![1u128, 2, 3];
    let done = vec![CancelOutcome::Canceled];
    assert!(matches!(command_progress(&s, &cmd, &targets, &done, &None, &None), CommandNext::Cancel(2)));
    let failed = vec![CancelOutcome::Canceled, CancelOutcome::Failed("venue down".to_string())];
    match command_progress(&s, &cmd, &targets, &failed, &None, &None) {
        CommandNext::Reply(CommandReply::Count(Err(m))) => assert_eq!(m, "venue down"),
        other => panic!("unexpected {other:?}"),
    }
    let all = vec![CancelOutcome::Canceled, CancelOutcome::Canceled, CancelOutcome::Canceled];
    assert!(matches!(
        command_progress(&s, &cmd, &targets, &all, &None, &None),
        CommandNext::Reply(CommandReply::Count(Ok(3)))
    ));
}

#[test]
fn databento_cache_steps() {
    let q = CacheRequest {
        start: 0,
        end: 10,
        cost_warning_negative: false,
        refresh_data: false,
        adjustment_mode: AdjustmentMode::SplitAdjusted,
        estimate_only: false,
    };
    let mut p = CacheProgress {
        raw_valid: None,
        adjusted_valid: None,
        inspected: false,
        estimate_written: false,
        cost_confirmed: false,
        raw_fetched: false,
        factors_cached: None,
        factors_ready: false,
        materialized: false,
    };
    assert_eq!(cache_step(&CacheRequest { end: 0, ..q }, &p), CacheAction::FailRange);
    assert_eq!(cache_step(&CacheRequest { cost_warning_negative: true, ..q }, &p), CacheAction::FailCostWarning);
    assert_eq!(cache_step(&q, &p), CacheAction::CheckRawCache);
    p.raw_valid = Some(true);
    assert_eq!(cache_step(&q, &p), CacheAction::CheckAdjustedCache);
    p.adjusted_valid = Some(true);
    assert_eq!(cache_step(&q, &p), CacheAction::Done { raw_path: false, with_cost: false, fetched: false });
    // A stale raw cache is inspected, confirmed, downloaded, then adjusted.
    p.raw_valid = Some(false);
    assert_eq!(cache_step(&q, &p), CacheAction::Inspect);
    p.inspected = true;
    assert_eq!(cache_step(&q, &p), CacheAction::ConfirmCost);
    p.cost_confirmed = true;
    assert_eq!(cache_step(&q, &p), CacheAction::FetchRaw);
    p.raw_fetched = true;
    assert_eq!(cache_step(&q, &p), CacheAction::CheckFactorsCache);
    p.factors_cached = Some(true);
    assert_eq!(cache_step(&q, &p), CacheAction::LoadFactors);
    p.factors_ready = true;
    assert_eq!(cache_step(&q, &p), CacheAction::Materialize);
    p.materialized = true;
    assert_eq!(cache_step(&q, &p), CacheAction::Done { raw_path: false, with_cost: true, fetched: true });
    // Raw requests stop after the download.
    let raw = CacheRequest { adjustment_mode: AdjustmentMode::Raw, ..q };
    assert_eq!(cache_step(&raw, &p), CacheAction::Done { raw_path: true, with_cost: true, fetched: true });
}
