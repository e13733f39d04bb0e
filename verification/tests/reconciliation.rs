use std::collections::HashMap;

use rand::rngs::StdRng;
use rand::{Rng, SeedableRng};

use tradeos::domain::{
    Broker, BrokerOrderId, ExecEvent, OrderIntent, OrderType, PositionSnapshot, Side, SignalIds, TimeInForce, TradingMode,
};
use tradeos::execution::sim_broker::PPM;
use tradeos::execution::{OrderRouter, SimBroker, SimBrokerConfig};

/// A position book kept purely from polled execution reports and the
/// closes sent, the way a core tracks its positions.
struct LocalBook {
    positions: HashMap<BrokerOrderId, PositionSnapshot>,
}

impl LocalBook {
    fn new() -> Self {
        Self { positions: HashMap::new() }
    }

    fn apply(&mut self, event: &ExecEvent) {
        if let ExecEvent::Fill { broker_order_id, fill_price, qty, .. } = *event {
            self.positions
                .entry(broker_order_id)
                .and_modify(|p| p.qty += qty)
                .or_insert(PositionSnapshot { broker_order_id, symbol_id: 1, qty, avg_price: fill_price });
        }
    }

    fn apply_close(&mut self, id: BrokerOrderId, qty: Option<i64>) {
        match qty {
            Some(q) => {
                if let Some(p) = self.positions.get_mut(&id) {
                    p.qty -= q;
                    if p.qty <= 0 {
                        self.positions.remove(&id);
                    }
                }
            }
            None => {
                self.positions.remove(&id);
            }
        }
    }

    fn sorted(&self) -> Vec<PositionSnapshot> {
        let mut v: Vec<PositionSnapshot> = self.positions.values().copied().collect();
        v.sort_by_key(|p| p.broker_order_id);
        v
    }
}

fn sorted_broker_positions(router: &OrderRouter<SimBroker>) -> Vec<PositionSnapshot> {
    let mut v = router.broker().positions().unwrap();
    v.sort_by_key(|p| p.broker_order_id);
    v
}

fn intent(client_id: u128, qty: i64) -> OrderIntent {
    OrderIntent {
        client_id,
        symbol_id: 1,
        side: Side::Buy,
        qty,
        order_type: OrderType::Market,
        limit_px: None,
        sl: Some(99_000),
        tp: Some(101_000),
        tif: TimeInForce::Gtc,
        mode: TradingMode::Normal,
        max_slippage_pts: 5,
        signal_ids: SignalIds::new(),
    }
}

#[test]
fn reconciliation_never_spuriously_diverges_across_thousands_of_randomized_cycles() {
    let cfg = SimBrokerConfig {
        reject_probability: PPM / 20,
        partial_fill_probability: PPM / 5,
        requote_probability: PPM / 10,
        ..Default::default()
    };
    let mut router = OrderRouter::new(SimBroker::from_seed(cfg, 1234));
    let mut book = LocalBook::new();
    let mut rng = StdRng::seed_from_u64(99);
    let mut open_ids: Vec<BrokerOrderId> = Vec::new();
    let mut next_client_id: u128 = 1;

    for i in 0..20_000 {
        match rng.random_range(0..3) {
            0 => {
                let qty = rng.random_range(1..100);
                if let Ok(id) = router.submit(&intent(next_client_id, qty)) {
                    next_client_id += 1;
                    open_ids.push(id);
                }
                while let Some(event) = router.poll_event() {
                    book.apply(&event);
                }
            }
            1 if !open_ids.is_empty() => {
                let idx = rng.random_range(0..open_ids.len());
                let id = open_ids.remove(idx);
                let _ = router.close(id, None);
                book.apply_close(id, None);
            }
            2 if !open_ids.is_empty() => {
                let idx = rng.random_range(0..open_ids.len());
                let id = open_ids[idx];
                if let Some(pos) = book.positions.get(&id) {
                    let close_qty = (pos.qty / 2).max(1);
                    let _ = router.close(id, Some(close_qty));
                    book.apply_close(id, Some(close_qty));
                    if !book.positions.contains_key(&id) {
                        open_ids.remove(idx);
                    }
                }
            }
            _ => {}
        }
        assert_eq!(book.sorted(), sorted_broker_positions(&router), "divergence at cycle {i}");
    }
}

#[test]
fn reconciliation_reliably_catches_a_genuinely_corrupted_local_book() {
    let mut router = OrderRouter::new(SimBroker::new(SimBrokerConfig::default()));
    let mut book = LocalBook::new();
    let id = router.submit(&intent(1, 100)).unwrap();
    while let Some(event) = router.poll_event() {
        book.apply(&event);
    }
    assert_eq!(book.sorted(), sorted_broker_positions(&router));
    book.positions.get_mut(&id).unwrap().qty -= 1;
    assert_ne!(book.sorted(), sorted_broker_positions(&router));
}
