//! The deterministic behaviour of the cTrader server test double: a
//! sawtooth synthetic price walk, and an order responder that keeps a
//! minimal position book consistent with the requests it has served.

use vstd::prelude::*;

use crate::domain::{ExecEvent, OrderIntent, SymbolId, Tick};
use super::protocol::{ClientFrame, ClientMessage, ServerFrame, ServerMessage, WireAccount, WirePosition, UNSOLICITED_REQ_ID};

verus! {

pub struct MarketDataConfig {
    pub bind_addr: String,
    pub symbol_id: u16,
    /// `None` streams forever; `Some(n)` stops after `n` ticks.
    pub max_ticks: Option<u64>,
}

pub const SYNTHETIC_BASE_PRICE: i64 = 50_000;

pub const SYNTHETIC_AMPLITUDE: i64 = 300;

pub const SYNTHETIC_PERIOD: i64 = 30;

/// Bid of the sawtooth walk at `seq`.
pub open spec fn synthetic_bid(seq: u64) -> int {
    SYNTHETIC_BASE_PRICE + (seq as int % SYNTHETIC_PERIOD as int) * (SYNTHETIC_AMPLITUDE / SYNTHETIC_PERIOD)
}

/// Deterministic synthetic tick for sequence number `seq`, 1 ms apart.
pub fn synthetic_tick(symbol_id: SymbolId, seq: u64) -> (r: Tick)
    requires
        seq * 1_000_000 <= u64::MAX,
    ensures
        r.ts_ns == seq * 1_000_000,
        r.recv_ns == seq * 1_000_000,
        r.symbol_id == symbol_id,
        r.bid == synthetic_bid(seq),
        r.ask == r.bid + 8,
        r.bid_volume == 1 + seq % 4,
        r.ask_volume == 1 + seq % 6,
        r.flags == 0,
        SYNTHETIC_BASE_PRICE <= r.bid < SYNTHETIC_BASE_PRICE + SYNTHETIC_AMPLITUDE,
        r.ask > r.bid,
{
    let phase: i64 = (seq % 30) as i64;
    let bid: i64 = 50_000 + phase * 10;
    Tick {
        ts_ns: seq * 1_000_000,
        recv_ns: seq * 1_000_000,
        symbol_id,
        bid,
        ask: bid + 8,
        bid_volume: 1 + (seq % 4) as u32,
        ask_volume: 1 + (seq % 6) as u32,
        flags: 0,
    }
}

/// Whether the stream has sent all `max_ticks` ticks it was asked for.
pub fn stream_finished(sent: u64, max_ticks: Option<u64>) -> (r: bool)
    ensures
        r == (max_ticks matches Some(max) && sent >= max),
{
    match max_ticks {
        Some(max) => sent >= max,
        None => false,
    }
}

/// Equity, balance and free margin every account request reports.
pub const MOCK_EQUITY: i64 = 1_000_000;

/// Price a new order fills at: its limit price, or a fixed stand-in.
pub open spec fn mock_fill_price(intent: OrderIntent) -> i64 {
    match intent.limit_px {
        Some(px) => px,
        None => 100_000,
    }
}

/// Index of the first position with id `id`, or -1 when there is none.
pub open spec fn first_index(ps: Seq<WirePosition>, id: u64) -> int
    decreases ps.len(),
{
    if ps.len() == 0 {
        -1
    } else if ps[0].broker_order_id == id {
        0
    } else {
        let k = first_index(ps.drop_first(), id);
        if k < 0 {
            -1
        } else {
            k + 1
        }
    }
}

proof fn lemma_first_index(ps: Seq<WirePosition>, id: u64, i: int)
    requires
        0 <= i <= ps.len(),
        forall|j: int| 0 <= j < i ==> (#[trigger] ps[j]).broker_order_id != id,
        i < ps.len() ==> ps[i].broker_order_id == id,
    ensures
        first_index(ps, id) == if i < ps.len() { i } else { -1 },
    decreases i,
{
    if i > 0 {
        let rest = ps.drop_first();
        assert forall|j: int| 0 <= j < i - 1 implies (#[trigger] rest[j]).broker_order_id != id by {
            assert(rest[j] == ps[j + 1]);
        }
        lemma_first_index(rest, id, i - 1);
    }
}

proof fn lemma_first_index_push(ps: Seq<WirePosition>, p: WirePosition)
    ensures
        first_index(ps.push(p), p.broker_order_id) >= 0,
        first_index(ps, p.broker_order_id) >= 0 ==> first_index(ps.push(p), p.broker_order_id) == first_index(
            ps,
            p.broker_order_id,
        ),
    decreases ps.len(),
{
    if ps.len() > 0 {
        assert(ps.push(p).drop_first() =~= ps.drop_first().push(p));
        lemma_first_index_push(ps.drop_first(), p);
    }
}

/// `m` amends or closes the order `id`.
pub open spec fn names_order(m: ClientMessage, id: u64) -> bool {
    ||| (m matches ClientMessage::AmendOrder { broker_order_id, .. } && broker_order_id == id)
    ||| (m matches ClientMessage::ClosePosition { broker_order_id, .. } && broker_order_id == id)
}

/// A position opened by a served new order is known to the book from then
/// on: amending it is answered `Amended` and closing it `Closed`, never the
/// unknown-order rejection.
pub proof fn lemma_new_orders_become_known(next_id: u64, book: Seq<WirePosition>, open: ClientFrame, follow_up: ClientFrame)
    requires
        open.message is NewOrder,
        names_order(follow_up.message, next_id),
    ensures
        ({
            let (after, next) = responder_next(next_id, book, open);
            forall|replies: Seq<ServerFrame>|
                #[trigger] responder_replies(next, after, follow_up, replies) ==> replies.len() == 1
                    && replies[0].req_id == follow_up.req_id && !is_unknown_order_rejection(replies[0].message)
        }),
{
    let intent = open.message->NewOrder_0;
    let p = WirePosition {
        broker_order_id: next_id,
        symbol_id: intent.symbol_id,
        qty: intent.qty,
        avg_price: mock_fill_price(intent),
    };
    lemma_first_index_push(book, p);
}

fn find_position(ps: &Vec<WirePosition>, id: u64) -> (r: Option<usize>)
    ensures
        match r {
            Some(i) => i == first_index(ps@, id) && i < ps@.len(),
            None => first_index(ps@, id) == -1,
        },
{
    let n = ps.len();
    for i in 0..n
        invariant
            n == ps@.len(),
            forall|j: int| 0 <= j < i ==> (#[trigger] ps@[j]).broker_order_id != id,
    {
        if ps[i].broker_order_id == id {
            proof {
                lemma_first_index(ps@, id, i as int);
            }
            return Some(i);
        }
    }
    proof {
        lemma_first_index(ps@, id, n as int);
    }
    None
}

fn copy_positions(ps: &Vec<WirePosition>) -> (r: Vec<WirePosition>)
    ensures
        r@ == ps@,
{
    let mut out: Vec<WirePosition> = Vec::new();
    for i in 0..ps.len()
        invariant
            out@ == ps@.take(i as int),
    {
        out.push(ps[i]);
        proof {
            assert(ps@.take(i + 1) =~= ps@.take(i as int).push(ps@[i as int]));
        }
    }
    proof {
        assert(ps@.take(ps@.len() as int) =~= ps@);
    }
    out
}

/// The position book and next broker order id after serving `frame`.
pub open spec fn responder_next(next_id: u64, book: Seq<WirePosition>, frame: ClientFrame) -> (
    Seq<WirePosition>,
    u64,
) {
    match frame.message {
        ClientMessage::NewOrder(intent) => (
            book.push(
                WirePosition {
                    broker_order_id: next_id,
                    symbol_id: intent.symbol_id,
                    qty: intent.qty,
                    avg_price: mock_fill_price(intent),
                },
            ),
            (next_id + 1) as u64,
        ),
        ClientMessage::ClosePosition { broker_order_id, qty } => {
            let i = first_index(book, broker_order_id);
            if i < 0 {
                (book, next_id)
            } else {
                (
                    match qty {
                        Some(q) if q < book[i].qty => book.update(
                            i,
                            WirePosition { qty: (book[i].qty - q) as i64, ..book[i] },
                        ),
                        _ => book.remove(i),
                    },
                    next_id,
                )
            }
        },
        _ => (book, next_id),
    }
}

/// `m` rejects a request that names an order the book does not hold.
pub open spec fn is_unknown_order_rejection(m: ServerMessage) -> bool {
    m matches ServerMessage::OrderRejected { reason } && reason@ == "unknown order"@
}

/// `replies` are the frames written, in order, in answer to `frame` when
/// the next broker order id is `next_id` and the book holds `book`.
pub open spec fn responder_replies(
    next_id: u64,
    book: Seq<WirePosition>,
    frame: ClientFrame,
    replies: Seq<ServerFrame>,
) -> bool {
    match frame.message {
        ClientMessage::NewOrder(intent) => replies == seq![
            ServerFrame {
                req_id: frame.req_id,
                message: ServerMessage::OrderAccepted { broker_order_id: next_id },
            },
            ServerFrame {
                req_id: UNSOLICITED_REQ_ID,
                message: ServerMessage::Execution(
                    ExecEvent::Fill {
                        client_id: intent.client_id,
                        broker_order_id: next_id,
                        fill_price: mock_fill_price(intent),
                        qty: intent.qty,
                        ts_ns: 0,
                    },
                ),
            },
        ],
        ClientMessage::AmendOrder { broker_order_id, .. } => {
            &&& replies.len() == 1
            &&& replies[0].req_id == frame.req_id
            &&& if first_index(book, broker_order_id) >= 0 {
                replies[0].message == ServerMessage::Amended { broker_order_id }
            } else {
                is_unknown_order_rejection(replies[0].message)
            }
        },
        ClientMessage::ClosePosition { broker_order_id, .. } => {
            &&& replies.len() == 1
            &&& replies[0].req_id == frame.req_id
            &&& if first_index(book, broker_order_id) >= 0 {
                replies[0].message == ServerMessage::Closed { broker_order_id }
            } else {
                is_unknown_order_rejection(replies[0].message)
            }
        },
        ClientMessage::PositionsRequest => {
            &&& replies.len() == 1
            &&& replies[0].req_id == frame.req_id
            &&& replies[0].message matches ServerMessage::Positions(held) && held@ == book
        },
        ClientMessage::AccountRequest => replies == seq![
            ServerFrame {
                req_id: frame.req_id,
                message: ServerMessage::Account(
                    WireAccount { equity: MOCK_EQUITY, balance: MOCK_EQUITY, free_margin: MOCK_EQUITY },
                ),
            },
        ],
        // Not expected on the order connection: ignored rather than an error.
        ClientMessage::Subscribe { .. } => replies.len() == 0,
    }
}

/// The order side of the server test double.
pub struct OrderResponder {
    next_broker_order_id: u64,
    positions: Vec<WirePosition>,
}

impl OrderResponder {
    pub closed spec fn next_id(self) -> u64 {
        self.next_broker_order_id
    }

    /// The position book, in the order positions were opened.
    pub closed spec fn book(self) -> Seq<WirePosition> {
        self.positions@
    }

    /// `frame` can be served without a new order id or a quantity overflowing.
    pub open spec fn serves(self, frame: ClientFrame) -> bool {
        &&& frame.message is NewOrder ==> self.next_id() < u64::MAX
        &&& frame.message matches ClientMessage::ClosePosition { broker_order_id, qty: Some(q) } ==> {
            let i = first_index(self.book(), broker_order_id);
            i >= 0 && q < self.book()[i].qty ==> self.book()[i].qty - q <= i64::MAX
        }
    }

    pub fn new() -> (r: Self)
        ensures
            r.next_id() == 1,
            r.book() == Seq::<WirePosition>::empty(),
    {
        OrderResponder { next_broker_order_id: 1, positions: Vec::new() }
    }

    /// Whether `frame` can be served: a new order finds room in the order-id
    /// counter, and a partial close leaves a representable quantity.
    pub fn can_serve(&self, frame: &ClientFrame) -> (r: bool)
        ensures
            r == self.serves(*frame),
    {
        match &frame.message {
            ClientMessage::NewOrder(_) => self.next_broker_order_id < u64::MAX,
            ClientMessage::ClosePosition { broker_order_id, qty: Some(q) } => {
                match find_position(&self.positions, *broker_order_id) {
                    Some(i) => {
                        let held = self.positions[i].qty;
                        !(*q < held) || held.checked_sub(*q).is_some()
                    },
                    None => true,
                }
            },
            _ => true,
        }
    }

    /// Answers one client frame: the replies to write, in order.
    pub fn handle(&mut self, frame: ClientFrame) -> (r: Vec<ServerFrame>)
        requires
            old(self).serves(frame),
        ensures
            responder_replies(old(self).next_id(), old(self).book(), frame, r@),
            (final(self).book(), final(self).next_id()) == responder_next(
                old(self).next_id(),
                old(self).book(),
                frame,
            ),
    {
        let req_id = frame.req_id;
        let mut out: Vec<ServerFrame> = Vec::new();
        match frame.message {
            ClientMessage::NewOrder(intent) => {
                let broker_order_id = self.next_broker_order_id;
                self.next_broker_order_id = broker_order_id + 1;
                let fill_price = match intent.limit_px {
                    Some(px) => px,
                    None => 100_000,
                };
                self.positions.push(
                    WirePosition { broker_order_id, symbol_id: intent.symbol_id, qty: intent.qty, avg_price: fill_price },
                );
                out.push(ServerFrame { req_id, message: ServerMessage::OrderAccepted { broker_order_id } });
                out.push(
                    ServerFrame {
                        req_id: UNSOLICITED_REQ_ID,
                        message: ServerMessage::Execution(
                            ExecEvent::Fill {
                                client_id: intent.client_id,
                                broker_order_id,
                                fill_price,
                                qty: intent.qty,
                                ts_ns: 0,
                            },
                        ),
                    },
                );
                proof {
                    assert(out@ =~= seq![out@[0], out@[1]]);
                }
            },
            ClientMessage::AmendOrder { broker_order_id, .. } => {
                let reply = match find_position(&self.positions, broker_order_id) {
                    Some(_) => ServerMessage::Amended { broker_order_id },
                    None => ServerMessage::OrderRejected { reason: "unknown order".to_owned() },
                };
                out.push(ServerFrame { req_id, message: reply });
            },
            ClientMessage::ClosePosition { broker_order_id, qty } => {
                let reply = match find_position(&self.positions, broker_order_id) {
                    Some(idx) => {
                        let held = self.positions[idx];
                        match qty {
                            Some(q) if q < held.qty => {
                                self.positions.set(idx, WirePosition { qty: held.qty - q, ..held });
                            },
                            _ => {
                                self.positions.remove(idx);
                            },
                        }
                        ServerMessage::Closed { broker_order_id }
                    },
                    None => ServerMessage::OrderRejected { reason: "unknown order".to_owned() },
                };
                out.push(ServerFrame { req_id, message: reply });
            },
            ClientMessage::PositionsRequest => {
                let held = copy_positions(&self.positions);
                out.push(ServerFrame { req_id, message: ServerMessage::Positions(held) });
            },
            ClientMessage::AccountRequest => {
                let account = WireAccount { equity: MOCK_EQUITY, balance: MOCK_EQUITY, free_margin: MOCK_EQUITY };
                out.push(ServerFrame { req_id, message: ServerMessage::Account(account) });
                proof {
                    assert(out@ =~= seq![out@[0]]);
                }
            },
            ClientMessage::Subscribe { .. } => {},
        }
        out
    }
}

} // verus!
