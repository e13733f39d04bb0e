use tradeos::domain::{Bar, Tick, Timeframe};
use tradeos::tradingview::store::{timeframe_to_seconds, udf_seconds_to_ns, AlertBarStore};
use tradeos::tradingview::udf::{history_window, resample, resolution_to_timeframe_seconds, symbol_info, UdfConfig};
use tradeos::tradingview::webhook::{
    answer_alert, authenticate, lookup_ticker, symbol_query_status, tick_at_price, WebhookAnswer, WebhookError,
};

fn bar(ts_open_ns: u64, open: i64, high: i64, low: i64, close: i64, volume: u64) -> Bar {
    Bar { symbol_id: 1, timeframe_seconds: 60, ts_open_ns, open, high, low, close, volume }
}

#[test]
fn known_resolutions_map_to_the_right_second_count() {
    assert_eq!(resolution_to_timeframe_seconds("1"), Some(60));
    assert_eq!(resolution_to_timeframe_seconds("60"), Some(3_600));
    assert_eq!(resolution_to_timeframe_seconds("1D"), Some(86_400));
    assert_eq!(resolution_to_timeframe_seconds("bogus"), None);
}

#[test]
fn every_resolution_name_is_recognised() {
    assert_eq!(resolution_to_timeframe_seconds("5"), Some(300));
    assert_eq!(resolution_to_timeframe_seconds("15"), Some(900));
    assert_eq!(resolution_to_timeframe_seconds("D"), Some(86_400));
    assert_eq!(resolution_to_timeframe_seconds(""), None);
    assert_eq!(resolution_to_timeframe_seconds("1d"), None);
}

#[test]
fn resampling_to_the_same_timeframe_is_a_no_op() {
    let bars = vec![bar(0, 100, 110, 90, 105, 10), bar(60_000_000_000, 105, 115, 100, 110, 20)];
    let resampled = resample(&bars, 60);
    assert_eq!(resampled, bars);
}

#[test]
fn resampling_five_one_minute_bars_into_a_five_minute_bar_aggregates_correctly() {
    let one_min: Vec<Bar> = (0i64..5)
        .map(|i| bar(i as u64 * 60_000_000_000, 100 + i, 100 + i + 5, 100 + i - 5, 100 + i + 1, 10))
        .collect();
    let resampled = resample(&one_min, 300);
    assert_eq!(resampled.len(), 1);
    let bucket = &resampled[0];
    assert_eq!(bucket.open, one_min[0].open);
    assert_eq!(bucket.close, one_min[4].close);
    assert_eq!(bucket.high, one_min.iter().map(|b| b.high).max().unwrap());
    assert_eq!(bucket.low, one_min.iter().map(|b| b.low).min().unwrap());
    assert_eq!(bucket.volume, 50);
}

#[test]
fn resampling_starts_a_new_bucket_at_each_boundary() {
    let bars = vec![bar(0, 1, 2, 0, 1, 1), bar(240_000_000_000, 5, 9, 4, 6, 2), bar(300_000_000_000, 7, 8, 3, 5, 4)];
    let out = resample(&bars, 300);
    assert_eq!(out.len(), 2);
    assert_eq!(out[0], Bar { symbol_id: 1, timeframe_seconds: 300, ts_open_ns: 0, open: 1, high: 9, low: 0, close: 6, volume: 3 });
    assert_eq!(out[1], Bar { symbol_id: 1, timeframe_seconds: 300, ts_open_ns: 300_000_000_000, open: 7, high: 8, low: 3, close: 5, volume: 4 });
    assert!(resample(&[], 60).is_empty());
    assert!(resample(&[], 0).is_empty());
}

#[test]
fn resampling_resampled_bars_again_changes_nothing() {
    let bars: Vec<Bar> = (0u64..7).map(|i| bar(i * 70_000_000_000, 10 + i as i64, 20, 5, 11, i)).collect();
    let once = resample(&bars, 300);
    assert_eq!(resample(&once, 300), once);
}

#[test]
fn resampling_through_a_finer_timeframe_gives_the_direct_result() {
    let bars: Vec<Bar> = (0u64..40).map(|i| bar(i * 37_000_000_000, 10 + (i % 7) as i64, 30 + (i % 5) as i64, 2 + (i % 3) as i64, 11 + (i % 4) as i64, i)).collect();
    let direct = resample(&bars, 900);
    let through_five_minutes = resample(&resample(&bars, 300), 900);
    assert_eq!(through_five_minutes, direct);
    assert_eq!(direct.len(), 2);
    assert_eq!(direct[0].volume, (0u64..25).sum::<u64>());
}

#[test]
fn history_window_keeps_bars_opening_inside_the_bounds() {
    let bars = vec![bar(0, 1, 1, 1, 1, 0), bar(60, 2, 2, 2, 2, 0), bar(120, 3, 3, 3, 3, 0)];
    let w = history_window(&bars, 60, 120);
    assert_eq!(w, vec![bars[1], bars[2]]);
    assert!(history_window(&bars, 121, 1_000).is_empty());
}

#[test]
fn matching_token_authenticates() {
    assert_eq!(authenticate("secret", "secret"), Ok(()));
}

#[test]
fn mismatched_token_is_rejected() {
    assert_eq!(authenticate("wrong", "secret"), Err(WebhookError::Unauthorized));
}

#[test]
fn a_token_that_is_only_a_prefix_is_rejected() {
    assert_eq!(authenticate("secre", "secret"), Err(WebhookError::Unauthorized));
    assert_eq!(authenticate("", "secret"), Err(WebhookError::Unauthorized));
}

#[test]
fn an_alert_tick_has_bid_equal_to_ask_and_no_volume() {
    let tick = tick_at_price(123_456, 42_000_000_000, 7);
    assert_eq!(tick.symbol_id, 7);
    assert_eq!(tick.bid, 123_456);
    assert_eq!(tick.ask, tick.bid);
    assert_eq!(tick.ts_ns, 42_000_000_000);
    assert_eq!(tick.recv_ns, 42_000_000_000);
    assert_eq!((tick.bid_volume, tick.ask_volume, tick.flags), (0, 0, 0));
}

#[test]
fn ticker_lookup_takes_the_last_listing() {
    let symbols = vec![("EURUSD".to_string(), 1u16), ("GBPUSD".to_string(), 2), ("EURUSD".to_string(), 3)];
    assert_eq!(lookup_ticker(&symbols, "EURUSD"), Some(3));
    assert_eq!(lookup_ticker(&symbols, "GBPUSD"), Some(2));
    assert_eq!(lookup_ticker(&symbols, "USDJPY"), None);
}

#[test]
fn timeframes_and_query_bounds_convert_to_seconds_and_nanoseconds() {
    assert_eq!(timeframe_to_seconds(Timeframe::M1), 60);
    assert_eq!(timeframe_to_seconds(Timeframe::M15), 900);
    assert_eq!(timeframe_to_seconds(Timeframe::H4), 14_400);
    assert_eq!(timeframe_to_seconds(Timeframe::D1), 86_400);
    assert_eq!(udf_seconds_to_ns(-5), 0);
    assert_eq!(udf_seconds_to_ns(1_000), 1_000_000_000_000);
}

#[test]
fn symbol_info_describes_a_forex_symbol() {
    let info = symbol_info("EURUSD", 100_000);
    assert_eq!(info.name, "EURUSD");
    assert_eq!(info.ticker, "EURUSD");
    assert_eq!(info.kind, "forex");
    assert_eq!(info.session, "24x7");
    assert_eq!(info.timezone, "Etc/UTC");
    assert_eq!(info.exchange, "TRADEOS");
    assert_eq!(info.minmov, 1);
    assert_eq!(info.pricescale, 100_000);
    assert!(info.has_intraday);
    assert_eq!(info.supported_resolutions, vec!["1", "5", "15", "60", "1D"]);
}

#[test]
fn udf_config_advertises_search_and_time() {
    let cfg = UdfConfig::default();
    assert!(cfg.supports_search);
    assert!(!cfg.supports_group_request);
    assert!(!cfg.supports_marks);
    assert!(!cfg.supports_timescale_marks);
    assert!(cfg.supports_time);
    assert!(cfg.supported_resolutions.contains(&"1D".to_string()));
}

#[test]
fn alerts_a_minute_apart_close_a_queryable_one_minute_bar() {
    let mut store = AlertBarStore::new();
    store.ingest(&tick_at_price(110_000, 0, 1));
    store.ingest(&tick_at_price(110_100, 70_000_000_000, 1));
    let bars = store.history(1, 60, 0, 1_000_000_000_000);
    assert_eq!(bars.len(), 1);
    assert_eq!(bars[0].open, 110_000);
    assert_eq!(bars[0].close, 110_000);
    assert_eq!(bars[0].ts_open_ns, 0);
    assert!(store.history(2, 60, 0, 1_000_000_000_000).is_empty());
    assert!(store.history(1, 60, 1, 1_000_000_000_000).is_empty());
}

#[test]
fn the_bar_still_being_built_is_not_history_yet() {
    let mut store = AlertBarStore::new();
    let t = Tick { ts_ns: 5, recv_ns: 5, symbol_id: 4, bid: 10, ask: 10, bid_volume: 0, ask_volume: 0, flags: 0 };
    store.ingest(&t);
    assert!(store.history(4, 60, 0, u64::MAX).is_empty());
}

#[test]
fn an_alert_is_answered_by_token_then_ticker() {
    let symbols = vec![("EURUSD".to_string(), 1u16), ("GBPUSD".to_string(), 2u16)];
    let wrong = answer_alert("nope", "s3cret", &symbols, "EURUSD");
    assert_eq!(wrong, WebhookAnswer::Unauthorized);
    assert_eq!(wrong.status_code(), 401);
    let unknown = answer_alert("s3cret", "s3cret", &symbols, "USDJPY");
    assert_eq!(unknown, WebhookAnswer::UnknownTicker);
    assert_eq!(unknown.status_code(), 400);
    let taken = answer_alert("s3cret", "s3cret", &symbols, "GBPUSD");
    assert_eq!(taken, WebhookAnswer::Accepted(2));
    assert_eq!(taken.status_code(), 200);
    assert_eq!(answer_alert("nope", "s3cret", &symbols, "USDJPY"), WebhookAnswer::Unauthorized);
}

#[test]
fn a_symbol_query_is_found_or_not() {
    let symbols = vec![("EURUSD".to_string(), 1u16)];
    assert_eq!(symbol_query_status(&symbols, "EURUSD"), 200);
    assert_eq!(symbol_query_status(&symbols, "eurusd"), 404);
}
