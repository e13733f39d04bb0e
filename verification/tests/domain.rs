use tradeos::binance::{BinanceBroker, BinanceMarketData};
use tradeos::desktop::{locate, Keychain, ManagedService, ProcessManager};
use tradeos::domain::{
    is_expired, AccountSnapshot, Broker, FeedCaps, MarketDataSource, OrderIntent, OrderType, PortError, Side, SignalIds,
    SymbolSpec, Tick, TickFlags, TimeInForce, Timeframe, TradingMode,
};

fn sample_intent() -> OrderIntent {
    OrderIntent {
        client_id: 1,
        symbol_id: 7,
        side: Side::Buy,
        qty: 100,
        order_type: OrderType::Market,
        limit_px: None,
        sl: Some(99_000),
        tp: Some(101_000),
        tif: TimeInForce::Gtc,
        mode: TradingMode::Normal,
        max_slippage_pts: 5,
        signal_ids: SignalIds::from_slice(&[9]),
    }
}

#[test]
fn tick_spread_and_mid() {
    let t = Tick { ts_ns: 0, recv_ns: 0, symbol_id: 1, bid: 100_000, ask: 100_010, bid_volume: 1, ask_volume: 1, flags: 0 };
    assert_eq!(t.spread(), 10);
    assert_eq!(t.mid(), 100_005);
}

#[test]
fn tick_flags_roundtrip() {
    let flags = TickFlags::GAP | TickFlags::WIDE_SPREAD;
    let t = Tick { ts_ns: 0, recv_ns: 0, symbol_id: 1, bid: 1, ask: 2, bid_volume: 0, ask_volume: 0, flags };
    assert!(t.flags().contains(TickFlags::GAP));
    assert!(t.flags().contains(TickFlags::WIDE_SPREAD));
    assert!(!t.flags().contains(TickFlags::STALE));
}

#[test]
fn expiry_is_inclusive_and_fails_closed() {
    let ttl_ns = 1_000;
    assert!(!is_expired(ttl_ns, 999));
    assert!(is_expired(ttl_ns, 1_000));
    assert!(is_expired(ttl_ns, 1_001));
}

#[test]
fn mid_of_a_negative_sum_rounds_toward_zero() {
    let t = Tick { ts_ns: 0, recv_ns: 0, symbol_id: 1, bid: -3, ask: -2, bid_volume: 0, ask_volume: 0, flags: 0 };
    assert_eq!(t.mid(), -2);
    assert_eq!(t.spread(), 1);
}

#[test]
fn unknown_flag_bits_are_dropped() {
    let flags = TickFlags::from_bits_truncate(0xFFFF);
    assert_eq!(flags.bits(), 0b0000_1111);
    let t = Tick { ts_ns: 0, recv_ns: 0, symbol_id: 1, bid: 1, ask: 2, bid_volume: 0, ask_volume: 0, flags: 0b1_0000 };
    assert_eq!(t.flags().bits(), 0);
    assert!(!t.flags().contains(TickFlags::GAP));
    assert!(t.flags().contains(0));
}

#[test]
fn default_snapshots_and_caps_are_empty() {
    assert_eq!(AccountSnapshot::default(), AccountSnapshot { equity: 0, balance: 0, free_margin: 0 });
    assert_eq!(FeedCaps::default(), FeedCaps { depth: false, volume: false, ticks: false });
}

#[test]
fn binance_stubs_refuse_everything() {
    let mut md = BinanceMarketData;
    let symbols = [SymbolSpec { symbol_id: 1, price_digits: 5 }];
    match md.subscribe(&symbols) {
        Err(PortError::Adapter(msg)) => assert_eq!(msg, "Binance adapter not implemented yet (Phase 8)"),
        other => panic!("expected an adapter error, got {other:?}"),
    }
    assert!(md.poll_tick().is_none());
    assert!(md.history(1, Timeframe::M1, 0, 10).is_err());
    assert_eq!(md.capabilities(), FeedCaps { depth: true, volume: true, ticks: true });

    let mut broker = BinanceBroker;
    assert!(matches!(broker.submit(&sample_intent()), Err(PortError::Adapter(_))));
    assert_eq!(broker.modify(1, None, None), Err(PortError::NotConnected));
    assert_eq!(broker.close(1, None), Err(PortError::NotConnected));
    assert!(broker.poll_event().is_none());
    assert_eq!(broker.account(), AccountSnapshot::default());
    assert_eq!(broker.constraints(1), Err(PortError::NotConnected));
    assert_eq!(broker.positions(), Err(PortError::NotConnected));
}

#[test]
fn boxed_brokers_forward_every_call() {
    let mut boxed: Box<dyn tradeos::domain::DynBroker> = Box::new(BinanceBroker);
    assert_eq!(Broker::modify(&mut boxed, 3, Some(1), Some(2)), Err(PortError::NotConnected));
    assert_eq!(Broker::account(&boxed), AccountSnapshot::default());
    assert!(Broker::submit(&mut boxed, &sample_intent()).is_err());
}

#[test]
fn desktop_services_report_they_are_not_available() {
    assert_eq!(Keychain::load_master_key(), Err("keychain access is Phase 4 scope".to_string()));
    assert!(matches!(locate(), Err(msg) if msg == "mt5_locator is Phase 1/11 scope"));
    let mut pm = ProcessManager;
    assert_eq!(pm.start(ManagedService::Core), Err("process supervision is Phase 4/11 scope".to_string()));
    assert_eq!(pm.start(ManagedService::Agents), Err("process supervision is Phase 4/11 scope".to_string()));
}

#[test]
fn signal_ids_keep_their_order_through_a_clone() {
    let ids = SignalIds::from_slice(&[7, 9]);
    assert_eq!(ids.as_slice(), &[7, 9]);
    let copy = ids.clone();
    assert_eq!(copy, ids);
    assert_eq!(copy.as_slice(), &[7, 9]);
    assert!(SignalIds::new().as_slice().is_empty());
    let intent = sample_intent();
    assert_eq!(intent.clone(), intent);
}
