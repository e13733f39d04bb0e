//! What the MT5 adapter makes of the bridge's replies, and the
//! deterministic behaviour of the bridge test double: its synthetic tick
//! walk, its heartbeat cadence and its order responder.

use vstd::prelude::*;

use crate::strings::is_unexpected_reply;
use crate::domain::{BrokerOrderId, PortError, PortResult, SymbolId, Tick};
use super::protocol::{OrderReply, OrderRequest};

verus! {

/// Wall-clock nanoseconds since the Unix epoch, truncated to 64 bits, or 0
/// for a clock set before the epoch.
pub fn now_ns() -> u64 {
    let now = crate::clock::system_now();
    match crate::clock::elapsed_since_epoch(&now) {
        Some(d) => crate::clock::duration_nanos(&d) as u64,
        None => 0,
    }
}

/// How one request/reply exchange with the bridge went.
pub enum BridgeExchange {
    /// The request could not be sent.
    SendFailed,
    /// The request went out but no reply came back.
    RecvFailed,
    /// A reply came back: decoded, or `None` when it was malformed.
    Received(Option<OrderReply>),
}

/// The reply the broker's caller gets for an exchange: the bridge's own
/// reply, or a rejection naming what went wrong.
pub fn exchange_reply(exchange: BridgeExchange) -> (r: OrderReply)
    ensures
        match exchange {
            BridgeExchange::Received(Some(reply)) => r == reply,
            BridgeExchange::Received(None) => r matches OrderReply::Rejected { reason } && reason@
                == "malformed reply"@,
            BridgeExchange::SendFailed => r matches OrderReply::Rejected { reason } && reason@
                == "bridge send failed"@,
            BridgeExchange::RecvFailed => r matches OrderReply::Rejected { reason } && reason@
                == "bridge recv failed"@,
        },
{
    match exchange {
        BridgeExchange::Received(Some(reply)) => reply,
        BridgeExchange::Received(None) => OrderReply::Rejected { reason: "malformed reply".to_owned() },
        BridgeExchange::SendFailed => OrderReply::Rejected { reason: "bridge send failed".to_owned() },
        BridgeExchange::RecvFailed => OrderReply::Rejected { reason: "bridge recv failed".to_owned() },
    }
}

/// `format!` of the message for a reply of the wrong kind to `request`:
/// the request named, then the reply as `Debug` writes it.
#[verifier::external_body]
fn unexpected_reply_message(request: &str, reply: &OrderReply) -> (r: String)
    ensures
        is_unexpected_reply(request@, r@),
{
    format!("unexpected reply to {request}: {reply:?}")
}

/// The result a `submit` reports for the bridge's `reply`.
pub fn submit_outcome(reply: OrderReply) -> (r: PortResult<BrokerOrderId>)
    ensures
        match reply {
            OrderReply::Accepted { broker_order_id } => r == PortResult::<BrokerOrderId>::Ok(broker_order_id),
            OrderReply::Rejected { reason } => r == PortResult::<BrokerOrderId>::Err(PortError::Adapter(reason)),
            _ => r matches Err(PortError::Adapter(m)) && is_unexpected_reply("submit"@, m@),
        },
{
    match reply {
        OrderReply::Accepted { broker_order_id } => Ok(broker_order_id),
        OrderReply::Rejected { reason } => Err(PortError::Adapter(reason)),
        other => Err(PortError::Adapter(unexpected_reply_message("submit", &other))),
    }
}

/// The result a `modify` reports for the bridge's `reply`.
pub fn modify_outcome(reply: OrderReply) -> (r: PortResult<()>)
    ensures
        match reply {
            OrderReply::Modified => r == PortResult::<()>::Ok(()),
            OrderReply::Rejected { reason } => r == PortResult::<()>::Err(PortError::Adapter(reason)),
            _ => r matches Err(PortError::Adapter(m)) && is_unexpected_reply("modify"@, m@),
        },
{
    match reply {
        OrderReply::Modified => Ok(()),
        OrderReply::Rejected { reason } => Err(PortError::Adapter(reason)),
        other => Err(PortError::Adapter(unexpected_reply_message("modify", &other))),
    }
}

/// The result a `close` reports for the bridge's `reply`.
pub fn close_outcome(reply: OrderReply) -> (r: PortResult<()>)
    ensures
        match reply {
            OrderReply::Closed => r == PortResult::<()>::Ok(()),
            OrderReply::Rejected { reason } => r == PortResult::<()>::Err(PortError::Adapter(reason)),
            _ => r matches Err(PortError::Adapter(m)) && is_unexpected_reply("close"@, m@),
        },
{
    match reply {
        OrderReply::Closed => Ok(()),
        OrderReply::Rejected { reason } => Err(PortError::Adapter(reason)),
        other => Err(PortError::Adapter(unexpected_reply_message("close", &other))),
    }
}

pub struct MarketDataConfig {
    pub bind_addr: String,
    pub symbol_id: u16,
    /// `None` streams forever; `Some(n)` stops after `n` ticks.
    pub max_ticks: Option<u64>,
    /// Ticks between each heartbeat frame.
    pub ticks_per_heartbeat: u64,
}

pub const SYNTHETIC_BASE_PRICE: i64 = 100_000;

pub const SYNTHETIC_AMPLITUDE: i64 = 200;

pub const SYNTHETIC_PERIOD: i64 = 40;

/// Position of `seq` on the triangle wave: rises from 0 to half a period,
/// then falls back.
pub open spec fn triangle(seq: u64) -> int {
    let phase = seq as int % SYNTHETIC_PERIOD as int;
    if phase < SYNTHETIC_PERIOD / 2 {
        phase
    } else {
        SYNTHETIC_PERIOD - phase
    }
}

/// Bid of the synthetic walk at `seq`: a triangle-wave oscillation around
/// the base price.
pub open spec fn synthetic_bid(seq: u64) -> int {
    SYNTHETIC_BASE_PRICE + (triangle(seq) * SYNTHETIC_AMPLITUDE) / (SYNTHETIC_PERIOD / 2)
}

/// The synthetic walk is defined while its 1 ms timestamps fit in `u64`.
pub open spec fn synthetic_seq_ok(seq: u64) -> bool {
    seq * 1_000_000 <= u64::MAX
}

/// Deterministic synthetic tick for sequence number `seq`, 1 ms apart.
pub fn synthetic_tick(symbol_id: SymbolId, seq: u64) -> (r: Tick)
    requires
        synthetic_seq_ok(seq),
    ensures
        r.ts_ns == seq * 1_000_000,
        r.recv_ns == seq * 1_000_000,
        r.symbol_id == symbol_id,
        r.bid == synthetic_bid(seq),
        r.ask == r.bid + 10,
        r.bid_volume == 1 + seq % 5,
        r.ask_volume == 1 + seq % 3,
        r.flags == 0,
        SYNTHETIC_BASE_PRICE <= r.bid <= SYNTHETIC_BASE_PRICE + SYNTHETIC_AMPLITUDE,
        r.ask > r.bid,
{
    let phase: i64 = (seq % 40) as i64;
    let tri: i64 = if phase < 20 {
        phase
    } else {
        40 - phase
    };
    assert(0 <= tri <= 20);
    let bid: i64 = 100_000 + (tri * 200) / 20;
    assert((tri * 200) / 20 == tri * 10);
    Tick {
        ts_ns: seq * 1_000_000,
        recv_ns: seq * 1_000_000,
        symbol_id,
        bid,
        ask: bid + 10,
        bid_volume: 1 + (seq % 5) as u32,
        ask_volume: 1 + (seq % 3) as u32,
        flags: 0,
    }
}

/// Whether a heartbeat follows once `sent` ticks have gone out.
pub fn heartbeat_due(sent: u64, ticks_per_heartbeat: u64) -> (r: bool)
    ensures
        r == (ticks_per_heartbeat > 0 && sent % ticks_per_heartbeat == 0),
{
    ticks_per_heartbeat > 0 && sent % ticks_per_heartbeat == 0
}

/// Whether the stream has sent all `max_ticks` ticks it was asked for.
pub fn stream_finished(sent: u64, max_ticks: Option<u64>) -> (r: bool)
    ensures
        r == (max_ticks matches Some(max) && sent >= max),
{
    match max_ticks {
        Some(max) => sent >= max,
        None => false,
    }
}

/// The order side of the bridge test double: every submit is accepted with
/// an incrementing broker order id, every modify and close succeeds, and a
/// request that could not be decoded is rejected.
pub struct BridgeResponder {
    next_broker_order_id: BrokerOrderId,
}

impl BridgeResponder {
    pub closed spec fn next_id(self) -> BrokerOrderId {
        self.next_broker_order_id
    }

    pub fn new() -> (r: Self)
        ensures
            r.next_id() == 1,
    {
        BridgeResponder { next_broker_order_id: 1 }
    }

    /// Whether every broker order id has been handed out.
    pub fn exhausted(&self) -> (r: bool)
        ensures
            r == (self.next_id() == u64::MAX),
    {
        self.next_broker_order_id == u64::MAX
    }

    /// The reply to one request; `None` stands for bytes that did not
    /// decode as a request.
    pub fn respond(&mut self, request: Option<OrderRequest>) -> (r: OrderReply)
        requires
            request matches Some(OrderRequest::Submit(_)) ==> old(self).next_id() < u64::MAX,
        ensures
            match request {
                Some(OrderRequest::Submit(_)) => {
                    &&& r == (OrderReply::Accepted { broker_order_id: old(self).next_id() })
                    &&& final(self).next_id() == old(self).next_id() + 1
                },
                Some(OrderRequest::Modify { .. }) => r == OrderReply::Modified && final(self).next_id() == old(
                    self,
                ).next_id(),
                Some(OrderRequest::Close { .. }) => r == OrderReply::Closed && final(self).next_id() == old(
                    self,
                ).next_id(),
                None => {
                    &&& r matches OrderReply::Rejected { reason } && reason@ == "malformed request"@
                    &&& final(self).next_id() == old(self).next_id()
                },
            },
    {
        match request {
            Some(OrderRequest::Submit(_intent)) => {
                let id = self.next_broker_order_id;
                self.next_broker_order_id = id + 1;
                OrderReply::Accepted { broker_order_id: id }
            },
            Some(OrderRequest::Modify { .. }) => OrderReply::Modified,
            Some(OrderRequest::Close { .. }) => OrderReply::Closed,
            None => OrderReply::Rejected { reason: "malformed request".to_owned() },
        }
    }
}

} // verus!
