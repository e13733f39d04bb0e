use tradeos::domain::{Bar, Tick};
use tradeos::market_data::{simulated_ticks, BarAggregator};

fn tick(ts_ns: u64, bid: i64, ask: i64) -> Tick {
    Tick { ts_ns, recv_ns: ts_ns, symbol_id: 1, bid, ask, bid_volume: 1, ask_volume: 1, flags: 0 }
}

#[test]
fn same_bucket_updates_ohlc_without_closing() {
    let mut agg = BarAggregator::new(1, 60);
    assert!(agg.on_tick(&tick(0, 100, 102)).is_none());
    assert!(agg.on_tick(&tick(30_000_000_000, 105, 107)).is_none());
    let bar = agg.current().unwrap();
    assert_eq!(bar.open, 101);
    assert_eq!(bar.high, 106);
    assert_eq!(bar.close, 106);
}

#[test]
fn crossing_a_bucket_boundary_emits_the_closed_bar() {
    let mut agg = BarAggregator::new(1, 60);
    agg.on_tick(&tick(0, 100, 100));
    let closed = agg.on_tick(&tick(61_000_000_000, 200, 200));
    assert!(closed.is_some());
    assert_eq!(closed.unwrap().close, 100);
}

#[test]
fn a_new_bar_opens_at_its_bucket_start_with_the_tick_volume() {
    let mut agg = BarAggregator::new(9, 60);
    assert!(agg.current().is_none());
    agg.on_tick(&Tick { ts_ns: 125_000_000_000, recv_ns: 0, symbol_id: 9, bid: 10, ask: 20, bid_volume: 3, ask_volume: 4, flags: 0 });
    let bar = agg.current().unwrap();
    assert_eq!(bar.ts_open_ns, 120_000_000_000);
    assert_eq!(bar.symbol_id, 9);
    assert_eq!(bar.timeframe_seconds, 60);
    assert_eq!((bar.open, bar.high, bar.low, bar.close), (15, 15, 15, 15));
    assert_eq!(bar.volume, 7);
    agg.on_tick(&tick(150_000_000_000, 4, 6));
    let bar = agg.current().unwrap();
    assert_eq!((bar.open, bar.high, bar.low, bar.close), (15, 15, 5, 5));
    assert_eq!(bar.volume, 9);
}

#[test]
fn simulated_ticks_drift_up_fifteen_points_every_200_ms() {
    let ticks = simulated_ticks();
    assert_eq!(ticks.len(), 20);
    assert_eq!(ticks[0], Tick { ts_ns: 0, recv_ns: 5_000, symbol_id: 1, bid: 100_000, ask: 100_010, bid_volume: 3, ask_volume: 2, flags: 0 });
    assert_eq!(ticks[19].ts_ns, 19 * 200_000_000);
    assert_eq!(ticks[19].bid, 100_000 + 19 * 15);
    assert_eq!(ticks[19].ask, 100_010 + 19 * 15);
}

#[test]
fn a_run_of_ticks_closes_one_bar_per_run_of_same_bucket_ticks() {
    let mut agg = BarAggregator::new(1, 60);
    let ticks = [
        tick(1_000_000_000, 100, 102),
        tick(20_000_000_000, 110, 112),
        tick(50_000_000_000, 90, 92),
        tick(70_000_000_000, 120, 120),
        tick(10_000_000_000, 80, 80),
        tick(15_000_000_000, 84, 84),
    ];
    let closed: Vec<Option<Bar>> = ticks.iter().map(|t| agg.on_tick(t)).collect();
    let bar = |ts_open_ns: u64, open: i64, high: i64, low: i64, close: i64, volume: u64| Bar {
        symbol_id: 1,
        timeframe_seconds: 60,
        ts_open_ns,
        open,
        high,
        low,
        close,
        volume,
    };
    assert_eq!(
        closed,
        vec![None, None, None, Some(bar(0, 101, 111, 91, 91, 6)), Some(bar(60_000_000_000, 120, 120, 120, 120, 2)), None]
    );
    assert_eq!(agg.current(), Some(bar(0, 80, 84, 80, 84, 4)));
}
