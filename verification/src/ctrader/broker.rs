//! What the cTrader broker adapter sends and what it makes of each reply.

use vstd::prelude::*;

use crate::strings::is_unexpected_reply;
use crate::domain::{AccountSnapshot, BrokerOrderId, PortError, PortResult, PositionSnapshot, SymbolSpec, Tick};
use crate::runs::yielded;
use super::protocol::{ClientFrame, ClientMessage, ServerFrame, ServerMessage, WireAccount, WirePosition};

verus! {

/// `format!` of the message for a reply of the wrong kind to `request`:
/// the request named, then the reply as `Debug` writes it.
#[verifier::external_body]
fn unexpected_reply_message(request: &str, reply: &ServerMessage) -> (r: String)
    ensures
        is_unexpected_reply(request@, r@),
{
    format!("unexpected reply to {request}: {reply:?}")
}

/// The subscription frame opening a market-data connection: request id 1,
/// listing the symbol ids of `symbols` in order.
pub fn subscribe_frame(symbols: &[SymbolSpec]) -> (r: ClientFrame)
    ensures
        r.req_id == 1,
        r.message matches ClientMessage::Subscribe { symbols: ids } && ids@ == symbols@.map_values(
            |s: SymbolSpec| s.symbol_id,
        ),
{
    let mut ids: Vec<u16> = Vec::new();
    let n = symbols.len();
    for i in 0..n
        invariant
            n == symbols@.len(),
            ids@ =~= symbols@.take(i as int).map_values(|s: SymbolSpec| s.symbol_id),
    {
        ids.push(symbols[i].symbol_id);
    }
    assert(symbols@.take(n as int) =~= symbols@);
    ClientFrame { req_id: 1, message: ClientMessage::Subscribe { symbols: ids } }
}

/// The ticks of the spot frames among `frames`, in order.
pub open spec fn spot_ticks(frames: Seq<ServerFrame>) -> Seq<Tick>
    decreases frames.len(),
{
    if frames.len() == 0 {
        Seq::empty()
    } else {
        match frames.last().message {
            ServerMessage::Spot { tick, .. } => spot_ticks(frames.drop_last()).push(tick),
            _ => spot_ticks(frames.drop_last()),
        }
    }
}

/// The tick a market-data frame carries: only spot frames feed the tick
/// stream, every other frame is skipped.
pub fn spot_tick(frame: ServerFrame) -> (r: Option<Tick>)
    ensures
        r == match frame.message {
            ServerMessage::Spot { tick, .. } => Some(tick),
            _ => None,
        },
{
    match frame.message {
        ServerMessage::Spot { tick, .. } => Some(tick),
        _ => None,
    }
}

/// Taken frame by frame through `spot_tick`, a stream of frames feeds
/// exactly the ticks of its spot frames, in order.
pub proof fn lemma_spot_filtering_over_a_stream(frames: Seq<ServerFrame>, outs: Seq<Option<Tick>>)
    requires
        outs.len() == frames.len(),
        forall|i: int|
            0 <= i < frames.len() ==> #[trigger] outs[i] == match frames[i].message {
                ServerMessage::Spot { tick, .. } => Some(tick),
                _ => None,
            },
    ensures
        yielded(outs) == spot_ticks(frames),
    decreases frames.len(),
{
    if frames.len() > 0 {
        let n = frames.len() - 1;
        let prefix = frames.drop_last();
        let shorter = outs.drop_last();
        assert forall|i: int| 0 <= i < prefix.len() implies #[trigger] shorter[i] == match prefix[i].message {
            ServerMessage::Spot { tick, .. } => Some(tick),
            _ => None,
        } by {
            assert(shorter[i] == outs[i]);
        }
        lemma_spot_filtering_over_a_stream(prefix, shorter);
        assert(outs[n] == outs.last());
    }
}

/// The result a `submit` reports for the server's `reply`.
pub fn submit_outcome(reply: ServerMessage) -> (r: PortResult<BrokerOrderId>)
    ensures
        match reply {
            ServerMessage::OrderAccepted { broker_order_id } => r == PortResult::<BrokerOrderId>::Ok(
                broker_order_id,
            ),
            ServerMessage::OrderRejected { reason } => r == PortResult::<BrokerOrderId>::Err(
                PortError::Adapter(reason),
            ),
            _ => r matches Err(PortError::Adapter(m)) && is_unexpected_reply("submit"@, m@),
        },
{
    match reply {
        ServerMessage::OrderAccepted { broker_order_id } => Ok(broker_order_id),
        ServerMessage::OrderRejected { reason } => Err(PortError::Adapter(reason)),
        other => Err(PortError::Adapter(unexpected_reply_message("submit", &other))),
    }
}

/// The result a `modify` reports for the server's `reply`.
pub fn modify_outcome(reply: ServerMessage) -> (r: PortResult<()>)
    ensures
        match reply {
            ServerMessage::Amended { .. } => r == PortResult::<()>::Ok(()),
            ServerMessage::OrderRejected { reason } => r == PortResult::<()>::Err(PortError::Adapter(reason)),
            _ => r matches Err(PortError::Adapter(m)) && is_unexpected_reply("modify"@, m@),
        },
{
    match reply {
        ServerMessage::Amended { .. } => Ok(()),
        ServerMessage::OrderRejected { reason } => Err(PortError::Adapter(reason)),
        other => Err(PortError::Adapter(unexpected_reply_message("modify", &other))),
    }
}

/// The result a `close` reports for the server's `reply`.
pub fn close_outcome(reply: ServerMessage) -> (r: PortResult<()>)
    ensures
        match reply {
            ServerMessage::Closed { .. } => r == PortResult::<()>::Ok(()),
            ServerMessage::OrderRejected { reason } => r == PortResult::<()>::Err(PortError::Adapter(reason)),
            _ => r matches Err(PortError::Adapter(m)) && is_unexpected_reply("close"@, m@),
        },
{
    match reply {
        ServerMessage::Closed { .. } => Ok(()),
        ServerMessage::OrderRejected { reason } => Err(PortError::Adapter(reason)),
        other => Err(PortError::Adapter(unexpected_reply_message("close", &other))),
    }
}

/// The account snapshot a wire account stands for.
pub open spec fn account_from_wire(acc: WireAccount) -> AccountSnapshot {
    AccountSnapshot { equity: acc.equity, balance: acc.balance, free_margin: acc.free_margin }
}

/// A wire account and the snapshot it stands for carry the same equity,
/// balance and free margin, field for field; a wire position and its
/// snapshot the same id, symbol, quantity and price.
pub proof fn lemma_wire_fields_carry_over(acc: WireAccount, p: WirePosition)
    ensures
        account_from_wire(acc).equity == acc.equity,
        account_from_wire(acc).balance == acc.balance,
        account_from_wire(acc).free_margin == acc.free_margin,
        position_from_wire(p).broker_order_id == p.broker_order_id,
        position_from_wire(p).symbol_id == p.symbol_id,
        position_from_wire(p).qty == p.qty,
        position_from_wire(p).avg_price == p.avg_price,
{
}

/// The snapshot `account` reports: the server's own on an `Account` reply,
/// all zero when the call failed (`None`) or got any other reply.
pub fn account_outcome(reply: Option<ServerMessage>) -> (r: AccountSnapshot)
    ensures
        match reply {
            Some(ServerMessage::Account(acc)) => r == account_from_wire(acc),
            _ => r == (AccountSnapshot { equity: 0, balance: 0, free_margin: 0 }),
        },
        reply matches Some(ServerMessage::Account(acc)) ==> r.equity == acc.equity && r.balance == acc.balance
            && r.free_margin == acc.free_margin,
{
    match reply {
        Some(ServerMessage::Account(acc)) => AccountSnapshot {
            equity: acc.equity,
            balance: acc.balance,
            free_margin: acc.free_margin,
        },
        _ => AccountSnapshot::default(),
    }
}

/// The position snapshot a wire position stands for.
pub open spec fn position_from_wire(p: WirePosition) -> PositionSnapshot {
    PositionSnapshot {
        broker_order_id: p.broker_order_id,
        symbol_id: p.symbol_id,
        qty: p.qty,
        avg_price: p.avg_price,
    }
}

/// The positions `positions` reports for the server's `reply`.
pub fn positions_outcome(reply: ServerMessage) -> (r: PortResult<Vec<PositionSnapshot>>)
    ensures
        match reply {
            ServerMessage::Positions(list) => r matches Ok(v) && v@ == list@.map_values(
                |p: WirePosition| position_from_wire(p),
            ),
            _ => r matches Err(PortError::Adapter(m)) && is_unexpected_reply("positions"@, m@),
        },
        reply matches ServerMessage::Positions(list) ==> (r matches Ok(v) && v@.len() == list@.len() && forall|i: int|
            0 <= i < v@.len() ==> (#[trigger] v@[i]).broker_order_id == list@[i].broker_order_id && v@[i].symbol_id
                == list@[i].symbol_id && v@[i].qty == list@[i].qty && v@[i].avg_price == list@[i].avg_price),
{
    match reply {
        ServerMessage::Positions(list) => {
            let mut out: Vec<PositionSnapshot> = Vec::new();
            let n = list.len();
            for i in 0..n
                invariant
                    n == list@.len(),
                    out@ =~= list@.take(i as int).map_values(|p: WirePosition| position_from_wire(p)),
            {
                let p = list[i];
                out.push(
                    PositionSnapshot {
                        broker_order_id: p.broker_order_id,
                        symbol_id: p.symbol_id,
                        qty: p.qty,
                        avg_price: p.avg_price,
                    },
                );
            }
            assert(list@.take(n as int) =~= list@);
            Ok(out)
        },
        other => Err(PortError::Adapter(unexpected_reply_message("positions", &other))),
    }
}

} // verus!
