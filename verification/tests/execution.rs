use tradeos::domain::{Broker, ExecEvent, OrderIntent, OrderType, PortError, Side, SignalIds, TimeInForce, TradingMode};
use tradeos::execution::account_manager::AccountManager;
use tradeos::execution::sim_broker::{fill_outcome, PPM};
use tradeos::execution::{AggregateSnapshot, IdempotencyGuard, OrderRouter, SimBroker, SimBrokerConfig};
use tradeos::domain::AccountSnapshot;

fn intent(client_id: u128, sl: Option<i64>, tp: Option<i64>) -> OrderIntent {
    OrderIntent {
        client_id,
        symbol_id: 1,
        side: Side::Buy,
        qty: 10,
        order_type: OrderType::Market,
        limit_px: None,
        sl,
        tp,
        tif: TimeInForce::Gtc,
        mode: TradingMode::Normal,
        max_slippage_pts: 5,
        signal_ids: SignalIds::new(),
    }
}

fn sample_intent(qty: i64) -> OrderIntent {
    OrderIntent {
        client_id: 1,
        symbol_id: 1,
        side: Side::Buy,
        qty,
        order_type: OrderType::Market,
        limit_px: None,
        sl: Some(99_000),
        tp: Some(101_000),
        tif: TimeInForce::Gtc,
        mode: TradingMode::Normal,
        max_slippage_pts: 10,
        signal_ids: SignalIds::new(),
    }
}

fn manager_intent(client_id: u128) -> OrderIntent {
    intent(client_id, Some(99_000), Some(101_000))
}

fn manager_with_two_accounts() -> AccountManager<SimBroker> {
    let mut manager = AccountManager::new();
    manager.add_account(1, SimBroker::from_seed(SimBrokerConfig::default(), 1)).unwrap();
    manager.add_account(2, SimBroker::from_seed(SimBrokerConfig::default(), 2)).unwrap();
    manager
}

// ---- idempotency guard ----

#[test]
fn first_submission_is_admitted_resubmission_is_not() {
    let mut guard = IdempotencyGuard::new();
    assert!(guard.admit_id(1));
    assert!(!guard.admit_id(1));
    assert!(guard.admit_id(2));
}

#[test]
fn an_admitted_id_stays_refused_after_other_admissions() {
    let mut guard = IdempotencyGuard::new();
    assert!(guard.admit_id(7));
    assert!(guard.admit_id(8));
    assert!(guard.admit_id(9));
    assert!(!guard.admit_id(7));
    assert!(!guard.admit_id(8));
}

// ---- order router ----

#[test]
fn rejects_orders_missing_sl_or_tp() {
    let mut router = OrderRouter::new(SimBroker::new(SimBrokerConfig::default()));
    assert!(router.submit(&intent(1, None, Some(101_000))).is_err());
    assert!(router.submit(&intent(2, Some(99_000), None)).is_err());
}

#[test]
fn a_refused_intent_never_reaches_the_broker() {
    let mut router = OrderRouter::new(SimBroker::new(SimBrokerConfig::default()));
    let r = router.submit(&intent(1, None, None));
    assert_eq!(r, Err(PortError::Adapter("OrderIntent must carry both sl and tp at submission".to_string())));
    assert!(router.broker().positions().unwrap().is_empty());
}

#[test]
fn resubmitting_the_same_client_id_returns_the_original_result_not_a_new_order() {
    let mut router = OrderRouter::new(SimBroker::new(SimBrokerConfig::default()));
    let first = router.submit(&intent(1, Some(99_000), Some(101_000))).unwrap();
    let second = router.submit(&intent(1, Some(99_000), Some(101_000))).unwrap();
    assert_eq!(first, second);
    assert_eq!(router.broker().positions().unwrap().len(), 1, "must not have placed a second order");
}

#[test]
fn a_client_id_that_failed_can_be_retried_and_succeed() {
    let mut broker = SimBroker::new(SimBrokerConfig::default());
    broker.force_next_rejects(1);
    let mut router = OrderRouter::new(broker);
    assert!(router.submit(&intent(1, Some(99_000), Some(101_000))).is_err());
    let retried = router.submit(&intent(1, Some(99_000), Some(101_000)));
    assert!(retried.is_ok(), "a client_id that failed must be retriable, not permanently locked out");
    assert_eq!(router.broker().positions().unwrap().len(), 1);
}

#[test]
fn router_forwards_modify_close_and_events() {
    let mut router = OrderRouter::new(SimBroker::new(SimBrokerConfig::default()));
    let id = router.submit(&intent(5, Some(99_000), Some(101_000))).unwrap();
    assert!(matches!(router.poll_event(), Some(ExecEvent::Fill { client_id: 5, .. })));
    assert!(router.modify(id, Some(98_000), Some(102_000)).is_ok());
    assert!(router.close(id, None).is_ok());
    assert!(router.broker().positions().unwrap().is_empty());
}

// ---- simulated broker ----

#[test]
fn accepted_submit_is_followed_by_a_fill_event() {
    let mut broker = SimBroker::new(SimBrokerConfig::default());
    let id = broker.submit(&sample_intent(100)).unwrap();
    match broker.poll_event().unwrap() {
        ExecEvent::Fill { broker_order_id, qty, .. } => {
            assert_eq!(broker_order_id, id);
            assert_eq!(qty, 100);
        }
        other => panic!("expected Fill, got {other:?}"),
    }
    assert_eq!(broker.positions().unwrap().len(), 1);
}

#[test]
fn forced_rejects_take_priority_over_config() {
    let mut broker = SimBroker::new(SimBrokerConfig::default());
    broker.force_next_rejects(2);
    assert!(broker.submit(&sample_intent(1)).is_err());
    assert!(broker.submit(&sample_intent(1)).is_err());
    assert!(broker.submit(&sample_intent(1)).is_ok());
}

#[test]
fn slippage_is_adverse_to_the_side() {
    let cfg = SimBrokerConfig { slippage_points: 5, ..Default::default() };
    let mut broker = SimBroker::new(cfg);
    let mut intent = sample_intent(10);
    intent.limit_px = Some(100_000);
    intent.side = Side::Buy;
    broker.submit(&intent).unwrap();
    let ExecEvent::Fill { fill_price, .. } = broker.poll_event().unwrap() else { panic!() };
    assert_eq!(fill_price, 100_005); // buy fills worse (higher) than requested

    let mut broker = SimBroker::new(cfg);
    intent.side = Side::Sell;
    broker.submit(&intent).unwrap();
    let ExecEvent::Fill { fill_price, .. } = broker.poll_event().unwrap() else { panic!() };
    assert_eq!(fill_price, 99_995); // sell fills worse (lower) than requested
}

#[test]
fn always_partial_fill_never_exceeds_requested_qty_and_is_at_least_one() {
    let cfg = SimBrokerConfig { partial_fill_probability: PPM, ..Default::default() };
    let mut broker = SimBroker::from_seed(cfg, 42);
    for _ in 0..20 {
        broker.submit(&sample_intent(100)).unwrap();
        let ExecEvent::Fill { qty, .. } = broker.poll_event().unwrap() else { panic!() };
        assert!((1..=100).contains(&qty));
    }
}

#[test]
fn same_seed_is_reproducible() {
    let cfg = SimBrokerConfig { reject_probability: PPM / 2, partial_fill_probability: PPM / 2, ..Default::default() };
    let outcomes = |seed: u64| -> Vec<bool> {
        let mut broker = SimBroker::from_seed(cfg, seed);
        (0..30).map(|_| broker.submit(&sample_intent(10)).is_ok()).collect()
    };
    assert_eq!(outcomes(7), outcomes(7));
}

#[test]
fn modify_updates_stored_sl_tp() {
    let mut broker = SimBroker::new(SimBrokerConfig::default());
    let id = broker.submit(&sample_intent(10)).unwrap();
    broker.modify(id, Some(98_000), Some(102_000)).unwrap();
    assert!(matches!(broker.poll_event(), Some(ExecEvent::Fill { .. }))); // drain the fill first
    assert_eq!(
        broker.poll_event(),
        Some(ExecEvent::Modify { broker_order_id: id, sl: Some(98_000), tp: Some(102_000), ts_ns: 0 })
    );
}

#[test]
fn close_removes_the_position() {
    let mut broker = SimBroker::new(SimBrokerConfig::default());
    let id = broker.submit(&sample_intent(10)).unwrap();
    broker.close(id, None).unwrap();
    assert!(broker.positions().unwrap().is_empty());
}

#[test]
fn partial_close_reduces_quantity() {
    let mut broker = SimBroker::new(SimBrokerConfig::default());
    let id = broker.submit(&sample_intent(10)).unwrap();
    broker.close(id, Some(4)).unwrap();
    let positions = broker.positions().unwrap();
    assert_eq!(positions.len(), 1);
    assert_eq!(positions[0].qty, 6);
}

#[test]
fn unknown_order_id_is_an_error() {
    let mut broker = SimBroker::new(SimBrokerConfig::default());
    assert!(broker.modify(999, None, None).is_err());
    assert!(broker.close(999, None).is_err());
}

#[test]
fn market_fills_use_the_default_price_and_ids_count_up() {
    let mut broker = SimBroker::new(SimBrokerConfig::default());
    assert_eq!(broker.submit(&sample_intent(3)), Ok(1));
    assert_eq!(broker.submit(&sample_intent(4)), Ok(2));
    let ExecEvent::Fill { fill_price, .. } = broker.poll_event().unwrap() else { panic!() };
    assert_eq!(fill_price, 100_002);
    let positions = broker.positions().unwrap();
    assert_eq!(positions.len(), 2);
    assert_eq!(broker.account().equity, 1_000_000);
}

#[test]
fn a_certain_reject_refuses_every_submit() {
    let cfg = SimBrokerConfig { reject_probability: PPM, ..Default::default() };
    let mut broker = SimBroker::from_seed(cfg, 3);
    for _ in 0..10 {
        assert_eq!(broker.submit(&sample_intent(1)), Err(PortError::Adapter("simulated reject".to_string())));
    }
    assert!(broker.positions().unwrap().is_empty());
    assert!(broker.poll_event().is_none());
}

#[test]
fn a_certain_requote_doubles_the_slippage() {
    let cfg = SimBrokerConfig { slippage_points: 3, requote_probability: PPM, ..Default::default() };
    let mut broker = SimBroker::from_seed(cfg, 5);
    broker.submit(&sample_intent(1)).unwrap();
    let ExecEvent::Fill { fill_price, .. } = broker.poll_event().unwrap() else { panic!() };
    assert_eq!(fill_price, 100_006);
}

#[test]
fn partial_qty_rounds_half_up_and_keeps_at_least_one() {
    assert_eq!(SimBroker::partial_qty(100, 500_000), 50);
    assert_eq!(SimBroker::partial_qty(3, 500_000), 2);
    assert_eq!(SimBroker::partial_qty(1, 100_000), 1);
    assert_eq!(SimBroker::partial_qty(10, 999_999), 10);
}

#[test]
fn closing_more_than_held_removes_the_position() {
    let mut broker = SimBroker::new(SimBrokerConfig::default());
    let id = broker.submit(&sample_intent(5)).unwrap();
    broker.close(id, Some(50)).unwrap();
    assert!(broker.positions().unwrap().is_empty());
    assert!(broker.close(id, None).is_err());
}

// ---- account manager ----

#[test]
fn adding_a_duplicate_account_id_is_rejected() {
    let mut manager = manager_with_two_accounts();
    assert!(manager.add_account(1, SimBroker::new(SimBrokerConfig::default())).is_err());
}

#[test]
fn submitting_to_an_unknown_account_is_rejected() {
    let mut manager = manager_with_two_accounts();
    assert!(manager.submit(999, &manager_intent(1)).is_err());
}

#[test]
fn the_same_client_id_on_two_accounts_produces_two_independent_orders() {
    let mut manager = manager_with_two_accounts();
    let a = manager.submit(1, &manager_intent(1)).unwrap();
    let b = manager.submit(2, &manager_intent(1)).unwrap();
    assert_eq!(a, 1);
    assert_eq!(b, 1);
    assert_eq!(manager.account_snapshot(1).unwrap().equity, manager.account_snapshot(2).unwrap().equity);
}

#[test]
fn resubmitting_the_same_client_id_on_the_same_account_is_still_idempotent() {
    let mut manager = manager_with_two_accounts();
    let first = manager.submit(1, &manager_intent(1)).unwrap();
    let second = manager.submit(1, &manager_intent(1)).unwrap();
    assert_eq!(first, second);
}

#[test]
fn aggregate_snapshot_sums_every_registered_accounts_equity() {
    let manager = manager_with_two_accounts();
    let per_account_equity = manager.account_snapshot(1).unwrap().equity;
    let aggregate = manager.aggregate_snapshot();
    assert_eq!(aggregate.n_accounts, 2);
    assert_eq!(aggregate.equity, per_account_equity * 2);
}

#[test]
fn poll_all_events_collects_one_event_per_account_with_a_pending_fill() {
    let mut manager = manager_with_two_accounts();
    manager.submit(1, &manager_intent(1)).unwrap();
    manager.submit(2, &manager_intent(2)).unwrap();

    let mut events = manager.poll_all_events();
    events.sort_by_key(|(id, _)| *id);
    assert_eq!(events.len(), 2);
    assert_eq!(events[0].0, 1);
    assert_eq!(events[1].0, 2);
}

#[test]
fn removing_an_account_makes_it_unknown_again() {
    let mut manager = manager_with_two_accounts();
    assert!(manager.remove_account(1).is_some());
    assert!(manager.submit(1, &manager_intent(1)).is_err());
    assert_eq!(manager.account_ids().len(), 1);
}

#[test]
fn heterogeneous_brokers_can_share_one_manager_via_box_dyn_broker() {
    let mut manager: AccountManager<Box<dyn tradeos::domain::DynBroker>> = AccountManager::new();
    manager.add_account(1, Box::new(SimBroker::from_seed(SimBrokerConfig::default(), 10))).unwrap();
    manager
        .add_account(2, Box::new(SimBroker::from_seed(SimBrokerConfig { starting_equity: 2_000_000, ..Default::default() }, 20)))
        .unwrap();

    manager.submit(1, &manager_intent(1)).unwrap();
    manager.submit(2, &manager_intent(2)).unwrap();

    let aggregate = manager.aggregate_snapshot();
    assert_eq!(aggregate.n_accounts, 2);
    assert_eq!(aggregate.equity, 1_000_000 + 2_000_000);
}

#[test]
fn unknown_accounts_are_named_in_the_error() {
    let mut manager = manager_with_two_accounts();
    assert_eq!(manager.submit(7, &manager_intent(1)), Err(PortError::Adapter("unknown account 7".to_string())));
    assert_eq!(
        manager.add_account(2, SimBroker::new(SimBrokerConfig::default())),
        Err(PortError::Adapter("account 2 is already registered".to_string()))
    );
    assert!(manager.modify(7, 1, None, None).is_err());
    assert!(manager.close(7, 1, None).is_err());
    assert!(manager.poll_event(7).is_none());
    assert!(manager.account_snapshot(7).is_none());
}

#[test]
fn poll_all_events_drains_one_event_per_account_per_call() {
    let mut manager = manager_with_two_accounts();
    manager.submit(1, &manager_intent(1)).unwrap();
    manager.submit(1, &manager_intent(2)).unwrap();
    assert_eq!(manager.poll_all_events().len(), 1);
    assert_eq!(manager.poll_all_events().len(), 1);
    assert!(manager.poll_all_events().is_empty());
}

#[test]
fn sum_of_wraps_on_overflow_like_the_account_totals() {
    let snaps = [
        AccountSnapshot { equity: i64::MAX, balance: 1, free_margin: -5 },
        AccountSnapshot { equity: 1, balance: 2, free_margin: 5 },
    ];
    assert_eq!(
        AggregateSnapshot::sum_of(&snaps),
        AggregateSnapshot { equity: i64::MIN, balance: 3, free_margin: 0, n_accounts: 2 }
    );
}

#[test]
fn each_draw_decides_the_fill_as_stated() {
    let cfg = SimBrokerConfig::default();
    let buy = sample_intent(10);
    assert_eq!(fill_outcome(&cfg, &buy, 1, false, false, None), Ok((100_002, 10)));
    assert_eq!(fill_outcome(&cfg, &buy, 1, false, true, None), Ok((100_004, 10)));
    assert_eq!(fill_outcome(&cfg, &buy, 1, false, false, Some(500_000)), Ok((100_002, 5)));
    assert_eq!(fill_outcome(&cfg, &buy, 1, false, true, Some(120_000)), Ok((100_004, 1)));
    let mut sell = sample_intent(10);
    sell.side = Side::Sell;
    sell.limit_px = Some(50_000);
    assert_eq!(fill_outcome(&cfg, &sell, 7, false, true, None), Ok((49_996, 10)));
    assert_eq!(
        fill_outcome(&cfg, &buy, 1, true, false, None),
        Err(PortError::Adapter("simulated reject".into()))
    );
    assert_eq!(
        fill_outcome(&cfg, &buy, u64::MAX, false, false, None),
        Err(PortError::Adapter("simulated broker order ids exhausted".into()))
    );
    let mut high = sample_intent(10);
    high.limit_px = Some(i64::MAX - 1);
    assert_eq!(
        fill_outcome(&cfg, &high, 1, false, false, None),
        Err(PortError::Adapter("simulated fill price out of range".into()))
    );
}

#[test]
fn account_ids_in_errors_are_written_in_decimal() {
    let mut manager = manager_with_two_accounts();
    assert_eq!(manager.submit(0, &manager_intent(1)), Err(PortError::Adapter("unknown account 0".to_string())));
    assert_eq!(manager.submit(10, &manager_intent(1)), Err(PortError::Adapter("unknown account 10".to_string())));
    assert_eq!(
        manager.submit(u32::MAX, &manager_intent(1)),
        Err(PortError::Adapter("unknown account 4294967295".to_string()))
    );
    manager.add_account(1_234_567, SimBroker::new(SimBrokerConfig::default())).unwrap();
    assert_eq!(
        manager.add_account(1_234_567, SimBroker::new(SimBrokerConfig::default())),
        Err(PortError::Adapter("account 1234567 is already registered".to_string()))
    );
}

#[test]
fn accepted_ids_count_only_accepted_submits() {
    let mut broker = SimBroker::new(SimBrokerConfig::default());
    assert_eq!(broker.submit(&sample_intent(3)), Ok(1));
    broker.force_next_rejects(2);
    assert!(broker.submit(&sample_intent(3)).is_err());
    assert!(broker.submit(&sample_intent(3)).is_err());
    assert!(broker.modify(1, Some(1), Some(2)).is_ok());
    assert!(broker.close(9, None).is_err());
    assert!(broker.poll_event().is_some());
    assert_eq!(broker.submit(&sample_intent(5)), Ok(2));
    assert!(broker.close(1, None).is_ok());
    assert_eq!(broker.submit(&sample_intent(6)), Ok(3));
    let mut ids: Vec<u64> = broker.positions().unwrap().iter().map(|p| p.broker_order_id).collect();
    ids.sort();
    assert_eq!(ids, vec![2, 3]);
}
