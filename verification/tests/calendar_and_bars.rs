use athenas_pallas::bar::{
    decimal_to_ticks, default_tick_size, ticks_to_decimal, Bar, BarSeries, BarSeriesSource,
};
use athenas_pallas::events::{Event, MarketEvent};
use athenas_pallas::merge::{merge_sources, merge_sources_iter, HistoricalSource};
use athenas_pallas::calendar::{
    equity_rth_open, filter_bar_timestamp, forex_245_open, is_session_open, is_us_market_holiday,
    CivilDate, SessionFilter,
};
use athenas_pallas::databento::cache_datetime;
use athenas_pallas::control::authorize;
use athenas_pallas::decimal::Dec;
use athenas_pallas::lifecycle::{
    default_perp_funding_rate_8h, is_coupon_date, is_funding_time, option_expired_on,
};
use athenas_pallas::pbar::{decode_pbar, is_pbar_path, pbar_bytes, PbarError};
use rust_decimal::Decimal;
use time::{Date, Month, PrimitiveDateTime, Time, UtcOffset};

/// Unix nanoseconds of a wall-clock time at a whole-hour UTC offset.
fn at(y: i32, m: u8, d: u8, h: u8, min: u8, s: u8, offset_hours: i8) -> i128 {
    let date = Date::from_calendar_date(y, Month::try_from(m).unwrap(), d).unwrap();
    let time = Time::from_hms(h, min, s).unwrap();
    PrimitiveDateTime::new(date, time)
        .assume_offset(UtcOffset::from_hms(offset_hours, 0, 0).unwrap())
        .unix_timestamp_nanos()
}

fn date(year: i32, month: u8, day: u8) -> CivilDate {
    CivilDate { year, month, day }
}

fn to_decimal(d: Dec) -> Decimal {
    Decimal::from_i128_with_scale(d.mantissa, d.scale)
}

#[test]
fn equity_closed_on_weekend() {
    let sat = at(2024, 1, 6, 12, 0, 0, -5);
    assert!(!equity_rth_open(sat));
}

#[test]
fn equity_open_midday() {
    let tue = at(2024, 1, 2, 11, 0, 0, -5);
    assert!(equity_rth_open(tue));
}

#[test]
fn forex_closed_saturday() {
    let sat = at(2024, 1, 6, 12, 0, 0, -5);
    assert!(!forex_245_open(sat));
}

#[test]
fn christmas_closed() {
    let xmas = at(2024, 12, 25, 12, 0, 0, -5);
    assert!(!equity_rth_open(xmas));
}

#[test]
fn thanksgiving_2024_closed() {
    let turkey = at(2024, 11, 28, 12, 0, 0, -5);
    assert!(!equity_rth_open(turkey));
}

#[test]
fn good_friday_2024_closed() {
    assert!(is_us_market_holiday(date(2024, 3, 29)));
}

#[test]
fn independence_day_observed_2026() {
    assert!(is_us_market_holiday(date(2026, 7, 3)));
}

#[test]
fn regular_weekday_open() {
    let tue = at(2024, 7, 2, 11, 0, 0, -5);
    assert!(equity_rth_open(tue));
    assert!(!is_us_market_holiday(date(2024, 7, 2)));
}

#[test]
fn holiday_table_for_2025() {
    for (m, d) in [(1, 1), (1, 20), (2, 17), (4, 18), (5, 26), (6, 19), (7, 4), (9, 1), (11, 27), (12, 25)] {
        assert!(is_us_market_holiday(date(2025, m, d)), "2025-{m}-{d}");
    }
    assert!(!is_us_market_holiday(date(2025, 3, 3)));
    assert!(!is_us_market_holiday(date(2025, 11, 28)));
    // Juneteenth only from 2022 on.
    assert!(!is_us_market_holiday(date(2021, 6, 18)));
    assert!(is_us_market_holiday(date(2022, 6, 20)));
    // Holidays are looked up in the date's own year: New Year's Day 2022 (a Saturday) does not
    // close Friday 2021-12-31.
    assert!(!is_us_market_holiday(date(2021, 12, 31)));
    assert!(!is_us_market_holiday(date(2022, 1, 3)));
    // Christmas 2022 fell on a Sunday: observed on Monday the 26th.
    assert!(is_us_market_holiday(date(2022, 12, 26)));
}

#[test]
fn equity_session_bounds() {
    // July is daylight time in New York (UTC-4).
    assert!(!equity_rth_open(at(2024, 7, 2, 9, 29, 59, -4)));
    assert!(equity_rth_open(at(2024, 7, 2, 9, 30, 0, -4)));
    assert!(equity_rth_open(at(2024, 7, 2, 15, 59, 59, -4)));
    assert!(!equity_rth_open(at(2024, 7, 2, 16, 0, 0, -4)));
    // 13:45 UTC on a summer Tuesday is 09:45 in New York.
    assert!(equity_rth_open(at(2024, 7, 2, 13, 45, 0, 0)));
    assert!(!equity_rth_open(at(2024, 7, 2, 20, 15, 0, 0)));
    // January is standard time (UTC-5).
    assert!(!equity_rth_open(at(2024, 1, 2, 9, 29, 59, -5)));
    assert!(equity_rth_open(at(2024, 1, 2, 14, 30, 0, 0)));
    assert!(!equity_rth_open(at(2024, 1, 2, 13, 45, 0, 0)));
}

#[test]
fn equity_session_follows_daylight_saving_changes() {
    // Daylight time began Sunday 2024-03-10: the open moves from 14:30 UTC to 13:30 UTC.
    assert!(!equity_rth_open(at(2024, 3, 8, 14, 29, 59, 0)));
    assert!(equity_rth_open(at(2024, 3, 8, 14, 30, 0, 0)));
    assert!(!equity_rth_open(at(2024, 3, 11, 13, 29, 59, 0)));
    assert!(equity_rth_open(at(2024, 3, 11, 13, 30, 0, 0)));
    // It ended Sunday 2024-11-03.
    assert!(equity_rth_open(at(2024, 11, 1, 13, 30, 0, 0)));
    assert!(!equity_rth_open(at(2024, 11, 4, 13, 30, 0, 0)));
    assert!(equity_rth_open(at(2024, 11, 4, 14, 30, 0, 0)));
    // Before 2007: first Sunday of April to last Sunday of October.
    assert!(!equity_rth_open(at(2006, 3, 31, 13, 45, 0, 0)));
    assert!(equity_rth_open(at(2006, 4, 3, 13, 45, 0, 0)));
    assert!(equity_rth_open(at(2006, 10, 27, 13, 45, 0, 0)));
    assert!(!equity_rth_open(at(2006, 10, 30, 13, 45, 0, 0)));
}

#[test]
fn forex_week_opens_sunday_evening_and_closes_friday_evening() {
    assert!(!forex_245_open(at(2024, 1, 7, 16, 59, 0, -5)));
    assert!(forex_245_open(at(2024, 1, 7, 17, 0, 0, -5)));
    assert!(forex_245_open(at(2024, 1, 10, 3, 0, 0, -5)));
    assert!(forex_245_open(at(2024, 1, 12, 16, 59, 0, -5)));
    assert!(!forex_245_open(at(2024, 1, 12, 17, 0, 0, -5)));
    // In daylight time the week opens at 21:00 UTC on Sunday.
    assert!(!forex_245_open(at(2024, 7, 7, 20, 59, 0, 0)));
    assert!(forex_245_open(at(2024, 7, 7, 21, 0, 0, 0)));
    assert!(!forex_245_open(at(2024, 7, 12, 21, 0, 0, 0)));
}

#[test]
fn session_filter_dispatch() {
    let sat = at(2024, 1, 6, 12, 0, 0, -5);
    assert!(is_session_open(SessionFilter::Unfiltered, sat));
    assert!(!is_session_open(SessionFilter::EquityRth, sat));
    assert!(!filter_bar_timestamp(SessionFilter::Forex245, sat));
    assert_eq!(SessionFilter::parse(" RTH "), SessionFilter::EquityRth);
    assert_eq!(SessionFilter::parse("nyse"), SessionFilter::EquityRth);
    assert_eq!(SessionFilter::parse("24_5"), SessionFilter::Forex245);
    assert_eq!(SessionFilter::parse("none"), SessionFilter::Unfiltered);
    assert_eq!(SessionFilter::parse("anything"), SessionFilter::Unfiltered);
}

#[test]
fn civil_calendar_arithmetic() {
    let stamp = |n: i128| cache_datetime(n, 0).into_iter().collect::<String>();
    assert_eq!(stamp(at(2024, 3, 1, 0, 0, 0, 0) - 1), "20240229T235959Z");
    assert_eq!(stamp(0), "19700101T000000Z");
    assert_eq!(stamp(-1), "19691231T235959Z");
    assert_eq!(stamp(at(2000, 2, 29, 12, 0, 0, 0)), "20000229T120000Z");
    let local = cache_datetime(at(2025, 1, 1, 0, 30, 0, 0), -3600).into_iter().collect::<String>();
    assert_eq!(local, "20241231T233000Z");
}

#[test]
fn perp_funding_boundaries() {
    assert!(is_funding_time(at(2024, 6, 3, 8, 0, 0, 0), 0));
    assert!(is_funding_time(at(2024, 6, 3, 0, 0, 0, 0), 0));
    assert!(is_funding_time(at(2024, 6, 3, 16, 0, 0, 0), 0));
    assert!(!is_funding_time(at(2024, 6, 3, 9, 30, 0, 0), 0));
    assert!(!is_funding_time(at(2024, 6, 3, 8, 0, 1, 0), 0));
    let r = default_perp_funding_rate_8h();
    assert_eq!(to_decimal(r), Decimal::new(1, 4));
}

#[test]
fn coupon_calendar() {
    let june_first = at(2024, 6, 1, 0, 0, 0, 0);
    assert!(is_coupon_date(june_first, 0, 2));
    assert!(is_coupon_date(june_first, 0, 4));
    assert!(is_coupon_date(june_first, 0, 12));
    assert!(!is_coupon_date(june_first, 0, 0));
    let march_first = at(2024, 3, 1, 0, 0, 0, 0);
    assert!(!is_coupon_date(march_first, 0, 2));
    assert!(is_coupon_date(march_first, 0, 4));
    assert!(!is_coupon_date(at(2024, 6, 2, 0, 0, 0, 0), 0, 12));
}

#[test]
fn option_expiry_dates() {
    let day = at(2025, 1, 17, 20, 0, 0, 0);
    assert!(option_expired_on(day, 0, Some("2025-01-17")));
    assert!(option_expired_on(day, 0, Some("2024-12-31")));
    assert!(!option_expired_on(day, 0, Some("2025-01-18")));
    assert!(!option_expired_on(day, 0, Some("01-17-2025")));
    assert!(!option_expired_on(day, 0, None));
    assert!(!option_expired_on(day, 0, Some("2025-02-30")));
}

#[test]
fn control_secret_header() {
    assert!(authorize(Some("s3cret"), "s3cret"));
    assert!(!authorize(Some("s3cret "), "s3cret"));
    assert!(!authorize(None, "s3cret"));
}

#[test]
fn round_trip_ticks() {
    let tick = default_tick_size();
    let d = Dec::new(40_000, 0);
    let t = decimal_to_ticks(d, tick);
    let back = ticks_to_decimal(t, tick);
    assert_eq!(to_decimal(back), to_decimal(d));
}

#[test]
fn ticks_round_to_nearest_even() {
    let tick = Dec::new(1, 2);
    assert_eq!(decimal_to_ticks(Dec::new(12345, 3), tick), 1234);
    assert_eq!(decimal_to_ticks(Dec::new(12355, 3), tick), 1236);
    assert_eq!(decimal_to_ticks(Dec::new(-125, 3), tick), -12);
    assert_eq!(decimal_to_ticks(Dec::new(5, 0), Dec::zero()), 0);
    assert_eq!(to_decimal(ticks_to_decimal(-250, tick)), Decimal::new(-250, 2));
}

fn sample_series() -> BarSeries {
    let bar = |ts: i64, c: i64| Bar {
        ts_unix_nanos: ts,
        open_ticks: c - 5,
        high_ticks: c + 10,
        low_ticks: c - 10,
        close_ticks: c,
        volume_lots: 7,
    };
    BarSeries::from_bars(
        vec![bar(1_704_067_200_000_000_000, 4_200_000), bar(1_704_153_600_000_000_000, -3)],
        default_tick_size(),
    )
}

#[test]
fn pbar_bytes_round_trip() {
    let series = sample_series();
    let bytes = pbar_bytes(&series);
    assert_eq!(&bytes[0..4], b"PBAR");
    assert_eq!(bytes.len(), 4 + 4 + 4 + "0.00000001".len() + 8 + 2 * 48);
    let back = decode_pbar(&bytes).unwrap();
    assert_eq!(back.bars, series.bars);
    assert_eq!(to_decimal(back.tick_size), to_decimal(series.tick_size));
    assert_eq!(back.len(), 2);
    assert_eq!(to_decimal(back.close_decimal(0).unwrap()), Decimal::new(42, 3));
}

#[test]
fn pbar_rejects_malformed_files() {
    let bytes = pbar_bytes(&sample_series());
    assert_eq!(decode_pbar(&bytes[0..3]).err(), Some(PbarError::Truncated));
    let mut bad = bytes.clone();
    bad[0] = b'X';
    assert_eq!(decode_pbar(&bad).err(), Some(PbarError::BadMagic));
    let mut v2 = bytes.clone();
    v2[4] = 2;
    assert_eq!(decode_pbar(&v2).err(), Some(PbarError::UnsupportedVersion(2)));
    let short = &bytes[0..bytes.len() - 1];
    assert_eq!(
        decode_pbar(short).err(),
        Some(PbarError::LengthMismatch { actual: 95, expected: 96 })
    );
    let empty = pbar_bytes(&BarSeries::from_bars(Vec::new(), default_tick_size()));
    assert_eq!(decode_pbar(&empty).err(), Some(PbarError::Empty));
    let mut bad_tick = bytes.clone();
    bad_tick[12] = b'x';
    assert_eq!(decode_pbar(&bad_tick).err(), Some(PbarError::BadTickSize));
}

#[test]
fn pbar_extension_is_case_insensitive() {
    assert!(is_pbar_path("data/BTCUSDT_1d.pbar"));
    assert!(is_pbar_path("data/BTCUSDT_1d.PBAR"));
    assert!(!is_pbar_path("data/BTCUSDT_1d.csv"));
    assert!(!is_pbar_path("data/pbar"));
}

#[test]
fn bar_source_walks_the_series_as_market_bars() {
    let mut src = BarSeriesSource::new(sample_series(), "binance", "BTCUSDT");
    assert_eq!(to_decimal(src.tick_size()), Decimal::new(1, 8));
    assert_eq!(src.instrument_id().symbol, "BTCUSDT");
    let (bar, ts) = src.next_bar().unwrap();
    assert_eq!(ts, 1_704_067_200_000_000_000);
    assert_eq!(to_decimal(bar.high_decimal(src.tick_size())), Decimal::new(4_200_010, 8));
    let replay = src.bar_to_replay_event(&bar, ts);
    assert_eq!(replay.instrument().exchange, "binance");
    match src.next_event() {
        Some(Event::Market(MarketEvent::Bar { ts, close, volume, .. })) => {
            assert_eq!(ts, 1_704_153_600_000_000_000);
            assert_eq!(to_decimal(close), Decimal::new(-3, 8));
            assert_eq!(to_decimal(volume), Decimal::new(7, 8));
        }
        other => panic!("unexpected {other:?}"),
    }
    assert!(src.next_event().is_none());
    assert!(src.next_bar().is_none());
    src.rewind();
    assert_eq!(src.next_bar().unwrap().1, 1_704_067_200_000_000_000);
    assert_eq!(bar.timestamp(), Some(1_704_067_200_000_000_000));
}

fn series_at(times: &[i64]) -> BarSeries {
    let bars = times
        .iter()
        .map(|&ts| Bar {
            ts_unix_nanos: ts,
            open_ticks: 1,
            high_ticks: 1,
            low_ticks: 1,
            close_ticks: 1,
            volume_lots: 1,
        })
        .collect();
    BarSeries::from_bars(bars, default_tick_size())
}

fn symbol_and_ts(e: &Event) -> (String, i128) {
    (e.instrument().unwrap().symbol.clone(), e.timestamp().unwrap())
}

#[test]
fn merge_interleaves_sources_by_time_with_earlier_source_first_on_ties() {
    let a = BarSeriesSource::new(series_at(&[10, 30, 30, 50]), "x", "A");
    let b = BarSeriesSource::new(series_at(&[20, 30, 60]), "x", "B");
    let merged = merge_sources(vec![a, b]);
    let got: Vec<(String, i128)> = merged.iter().map(symbol_and_ts).collect();
    let want: Vec<(String, i128)> = [("A", 10), ("B", 20), ("A", 30), ("A", 30), ("B", 30), ("A", 50), ("B", 60)]
        .iter()
        .map(|(s, t)| (s.to_string(), *t as i128))
        .collect();
    assert_eq!(got, want);
}

#[test]
fn merge_iterator_streams_one_event_at_a_time() {
    let a = BarSeriesSource::new(series_at(&[5, 15]), "x", "A");
    let b = BarSeriesSource::new(series_at(&[]), "x", "B");
    let mut c = BarSeriesSource::new(series_at(&[1]), "x", "C");
    let mut m = merge_sources_iter(vec![a, b]);
    assert_eq!(symbol_and_ts(&m.next().unwrap()), ("A".to_string(), 5));
    assert_eq!(symbol_and_ts(&m.next().unwrap()), ("A".to_string(), 15));
    assert!(m.next().is_none());
    assert!(m.next().is_none());
    assert_eq!(symbol_and_ts(&c.next_event().unwrap()), ("C".to_string(), 1));
    assert!(c.next_event().is_none());
}

#[test]
fn pbar_errors_split_into_end_of_file_and_invalid_data() {
    assert!(PbarError::Truncated.is_end_of_file());
    assert!(PbarError::LengthMismatch { actual: 1, expected: 48 }.is_end_of_file());
    assert!(!PbarError::BadMagic.is_end_of_file());
    assert!(!PbarError::Empty.is_end_of_file());
    assert!(!PbarError::UnsupportedVersion(2).is_end_of_file());
}
