//! Market-data frames on the MT5 bridge: `[seq: u64 LE][kind: u8][payload]`.
//! A tick frame's payload is the archived `Tick`; a heartbeat has none.

use vstd::prelude::*;
use vstd::bytes::{spec_u64_from_le_bytes, spec_u64_to_le_bytes, u64_from_le_bytes, u64_to_le_bytes};
use vstd::slice::slice_subrange;

use crate::domain::{BrokerOrderId, OrderIntent, Tick, TickFlags};
use crate::runs::yielded;

verus! {

pub const HEARTBEAT_INTERVAL_MS: u64 = 250;

pub const KIND_TICK: u8 = 0;

pub const KIND_HEARTBEAT: u8 = 1;

/// Length of the `[seq][kind]` header in front of every frame.
pub const HEADER_LEN: usize = 9;

#[derive(Debug, Clone, PartialEq, Eq)]
pub enum ProtocolError {
    TooShort(usize),
    UnknownKind(u8),
    Rkyv(String),
}

#[derive(Debug, Clone, Copy, PartialEq, Eq, Structural)]
pub enum MarketDataFrame {
    Tick { seq: u64, tick: Tick },
    Heartbeat { seq: u64 },
}

/// What a frame header announces.
#[derive(Debug, Clone, Copy, PartialEq, Eq, Structural)]
pub enum FrameKind {
    /// A tick, archived in the bytes after the header.
    Tick,
    Heartbeat,
}

/// The bytes of a frame with sequence number `seq`, kind byte `kind` and
/// `payload`.
pub open spec fn frame_bytes(seq: u64, kind: u8, payload: Seq<u8>) -> Seq<u8> {
    spec_u64_to_le_bytes(seq) + seq![kind] + payload
}

/// What decoding the header of `bytes` gives.
pub open spec fn decoded_header(bytes: Seq<u8>) -> Result<(u64, FrameKind), ProtocolError> {
    if bytes.len() < HEADER_LEN {
        Err(ProtocolError::TooShort(bytes.len() as usize))
    } else if bytes[8] == KIND_TICK {
        Ok((spec_u64_from_le_bytes(bytes.take(8)), FrameKind::Tick))
    } else if bytes[8] == KIND_HEARTBEAT {
        Ok((spec_u64_from_le_bytes(bytes.take(8)), FrameKind::Heartbeat))
    } else {
        Err(ProtocolError::UnknownKind(bytes[8]))
    }
}

/// Frames a payload behind its sequence number and kind byte.
pub fn encode_frame(seq: u64, kind: u8, payload: &[u8]) -> (r: Vec<u8>)
    ensures
        r@ == frame_bytes(seq, kind, payload@),
{
    let mut out = u64_to_le_bytes(seq);
    out.push(kind);
    let n = payload.len();
    let ghost head = out@;
    for i in 0..n
        invariant
            n == payload@.len(),
            out@ == head + payload@.take(i as int),
    {
        out.push(payload[i]);
        assert(payload@.take(i + 1) =~= payload@.take(i as int).push(payload@[i as int]));
        assert(head + payload@.take(i + 1) =~= (head + payload@.take(i as int)).push(payload@[i as int]));
    }
    assert(payload@.take(n as int) =~= payload@);
    out
}

pub fn encode_heartbeat_frame(seq: u64) -> (r: Vec<u8>)
    ensures
        r@ == frame_bytes(seq, KIND_HEARTBEAT, Seq::empty()),
{
    let mut out = u64_to_le_bytes(seq);
    out.push(KIND_HEARTBEAT);
    assert(out@ =~= frame_bytes(seq, KIND_HEARTBEAT, Seq::empty()));
    out
}

/// Reads a frame's header: its sequence number and what it carries. A
/// tick's archived payload is `bytes[HEADER_LEN..]`.
pub fn decode_market_data_header(bytes: &[u8]) -> (r: Result<(u64, FrameKind), ProtocolError>)
    ensures
        r == decoded_header(bytes@),
{
    if bytes.len() < HEADER_LEN {
        return Err(ProtocolError::TooShort(bytes.len()));
    }
    let head = slice_subrange(bytes, 0, 8);
    assert(head@ =~= bytes@.take(8));
    let seq = u64_from_le_bytes(head);
    let kind = bytes[8];
    if kind == KIND_TICK {
        Ok((seq, FrameKind::Tick))
    } else if kind == KIND_HEARTBEAT {
        Ok((seq, FrameKind::Heartbeat))
    } else {
        Err(ProtocolError::UnknownKind(kind))
    }
}

/// A frame's header decodes back to the sequence number and kind it was
/// written with, whatever the payload.
pub proof fn lemma_frame_header_roundtrip(seq: u64, kind: u8, payload: Seq<u8>)
    requires
        kind == KIND_TICK || kind == KIND_HEARTBEAT,
    ensures
        decoded_header(frame_bytes(seq, kind, payload)) == Ok::<(u64, FrameKind), ProtocolError>(
            (seq, if kind == KIND_TICK { FrameKind::Tick } else { FrameKind::Heartbeat }),
        ),
        frame_bytes(seq, kind, payload).skip(HEADER_LEN as int) == payload,
{
    vstd::bytes::lemma_auto_spec_u64_to_from_le_bytes();
    let b = frame_bytes(seq, kind, payload);
    assert(spec_u64_to_le_bytes(seq).len() == 8);
    assert(b.take(8) =~= spec_u64_to_le_bytes(seq));
    assert(b[8] == kind);
    assert(b.skip(HEADER_LEN as int) =~= payload);
}

/// The market-data feed's sequence bookkeeping: the next expected tick
/// sequence number (a tick that breaks the run is flagged as a gap), and
/// the last tick and heartbeat sequence numbers seen.
pub struct SequenceTracker {
    expected: Option<u64>,
    last_seq: u64,
    last_heartbeat_seq: u64,
}

/// Whether a tick numbered `seq` breaks the run when `expected` was next.
pub open spec fn breaks_run(expected: Option<u64>, seq: u64) -> bool {
    expected matches Some(e) && seq != e
}

/// A tick breaks the run exactly when a sequence number was expected and
/// the tick's differs from it, above or below; the first tick never does.
/// A tick that breaks the run enters the feed with the gap flag added and
/// nothing else changed; any other tick enters unchanged.
pub proof fn lemma_any_mismatch_is_a_gap(expected: u64, seq: u64, tick: Tick)
    ensures
        seq < expected ==> breaks_run(Some(expected), seq),
        seq > expected ==> breaks_run(Some(expected), seq),
        !breaks_run(Some(expected), expected),
        !breaks_run(None, seq),
        seq != expected ==> stamped(Some(expected), seq, tick) == (Tick { flags: tick.flags | TickFlags::GAP, ..tick }),
        stamped(Some(expected), expected, tick) == tick,
        stamped(None, seq, tick) == tick,
{
}

/// `tick` as it enters the feed: flagged as a gap when it breaks the run.
pub open spec fn stamped(expected: Option<u64>, seq: u64, tick: Tick) -> Tick {
    if breaks_run(expected, seq) {
        Tick { flags: tick.flags | TickFlags::GAP, ..tick }
    } else {
        tick
    }
}

impl SequenceTracker {
    pub closed spec fn expected_seq(self) -> Option<u64> {
        self.expected
    }

    /// Sequence number of the last tick frame, 0 before the first.
    pub closed spec fn last_tick_seq(self) -> u64 {
        self.last_seq
    }

    /// Sequence number of the last heartbeat, 0 before the first.
    pub closed spec fn last_heartbeat(self) -> u64 {
        self.last_heartbeat_seq
    }

    pub fn new() -> (r: Self)
        ensures
            r.expected_seq() is None,
            r.last_tick_seq() == 0,
            r.last_heartbeat() == 0,
    {
        SequenceTracker { expected: None, last_seq: 0, last_heartbeat_seq: 0 }
    }

    pub fn last_seq(&self) -> (r: u64)
        ensures
            r == self.last_tick_seq(),
    {
        self.last_seq
    }

    pub fn last_heartbeat_seq(&self) -> (r: u64)
        ensures
            r == self.last_heartbeat(),
    {
        self.last_heartbeat_seq
    }

    /// Records a tick frame's sequence number; true when it is not the one
    /// expected after the previous tick.
    pub fn observe(&mut self, seq: u64) -> (gap: bool)
        requires
            seq < u64::MAX,
        ensures
            gap == breaks_run(old(self).expected_seq(), seq),
            gap <==> (old(self).expected_seq() is Some && seq != old(self).expected_seq()->0),
            final(self).expected_seq() == Some((seq + 1) as u64),
            final(self).last_tick_seq() == seq,
            final(self).last_heartbeat() == old(self).last_heartbeat(),
    {
        let gap = match self.expected {
            Some(e) => seq != e,
            None => false,
        };
        self.expected = Some(seq + 1);
        self.last_seq = seq;
        gap
    }

    /// The tick as it enters the feed: flagged as a gap when its sequence
    /// number breaks the run.
    pub fn stamp(&mut self, seq: u64, tick: Tick) -> (r: Tick)
        requires
            seq < u64::MAX,
        ensures
            r == stamped(old(self).expected_seq(), seq, tick),
            old(self).expected_seq() is Some && seq != old(self).expected_seq()->0 ==> r == (Tick {
                flags: tick.flags | TickFlags::GAP,
                ..tick
            }),
            !(old(self).expected_seq() is Some && seq != old(self).expected_seq()->0) ==> r == tick,
            final(self).expected_seq() == Some((seq + 1) as u64),
            final(self).last_tick_seq() == seq,
            final(self).last_heartbeat() == old(self).last_heartbeat(),
    {
        if self.observe(seq) {
            Tick { flags: tick.flags | TickFlags::GAP, ..tick }
        } else {
            tick
        }
    }

    /// What one `on_frame` does: a tick frame comes out stamped and moves
    /// the run on past its sequence number; a heartbeat only moves the
    /// heartbeat mark.
    pub open spec fn on_frame_post(before: Self, frame: MarketDataFrame, r: Option<Tick>, after: Self) -> bool {
        match frame {
            MarketDataFrame::Tick { seq, tick } => {
                &&& r == Some(stamped(before.expected_seq(), seq, tick))
                &&& after.expected_seq() == Some((seq + 1) as u64)
                &&& after.last_tick_seq() == seq
                &&& after.last_heartbeat() == before.last_heartbeat()
            },
            MarketDataFrame::Heartbeat { seq } => {
                &&& r is None
                &&& after.expected_seq() == before.expected_seq()
                &&& after.last_tick_seq() == before.last_tick_seq()
                &&& after.last_heartbeat() == seq
            },
        }
    }

    /// Takes in one decoded frame: a tick comes out stamped, a heartbeat
    /// only moves the heartbeat mark.
    pub fn on_frame(&mut self, frame: MarketDataFrame) -> (r: Option<Tick>)
        requires
            frame matches MarketDataFrame::Tick { seq, .. } ==> seq < u64::MAX,
        ensures
            Self::on_frame_post(*old(self), frame, r, *final(self)),
    {
        match frame {
            MarketDataFrame::Tick { seq, tick } => Some(self.stamp(seq, tick)),
            MarketDataFrame::Heartbeat { seq } => {
                self.last_heartbeat_seq = seq;
                None
            },
        }
    }
}

/// The tick frames among `frames`, in order, each with its sequence
/// number.
pub open spec fn tick_frames(frames: Seq<MarketDataFrame>) -> Seq<(u64, Tick)>
    decreases frames.len(),
{
    if frames.len() == 0 {
        Seq::empty()
    } else {
        match frames.last() {
            MarketDataFrame::Tick { seq, tick } => tick_frames(frames.drop_last()).push((seq, tick)),
            MarketDataFrame::Heartbeat { .. } => tick_frames(frames.drop_last()),
        }
    }
}

/// The ticks a feed hands on for the tick frames `ticks`, `expected` being
/// next before the first: each flagged as a gap exactly when its sequence
/// number is not one past the previous tick's (the first: when it is not
/// `expected`).
pub open spec fn stamped_run(expected: Option<u64>, ticks: Seq<(u64, Tick)>) -> Seq<Tick> {
    Seq::new(
        ticks.len(),
        |j: int|
            stamped(
                if j == 0 {
                    expected
                } else {
                    Some((ticks[j - 1].0 + 1) as u64)
                },
                ticks[j].0,
                ticks[j].1,
            ),
    )
}

/// Fed a stream of frames one `on_frame` at a time, a tracker hands on
/// exactly the ticks of the tick frames, in order, each flagged as a gap
/// exactly when its sequence number breaks the run; heartbeats hand on
/// nothing, and the last tick sequence number is that of the latest tick
/// frame.
pub proof fn lemma_gap_stamping_over_a_stream(
    frames: Seq<MarketDataFrame>,
    states: Seq<SequenceTracker>,
    outs: Seq<Option<Tick>>,
)
    requires
        states.len() == frames.len() + 1,
        outs.len() == frames.len(),
        forall|i: int|
            0 <= i < frames.len() ==> SequenceTracker::on_frame_post(states[i], frames[i], #[trigger] outs[i], states[i + 1]),
    ensures
        yielded(outs) == stamped_run(states[0].expected_seq(), tick_frames(frames)),
        tick_frames(frames).len() == 0 ==> states.last().expected_seq() == states[0].expected_seq()
            && states.last().last_tick_seq() == states[0].last_tick_seq(),
        tick_frames(frames).len() > 0 ==> states.last().expected_seq() == Some((tick_frames(frames).last().0 + 1) as u64)
            && states.last().last_tick_seq() == tick_frames(frames).last().0,
    decreases frames.len(),
{
    if frames.len() > 0 {
        let n = frames.len() - 1;
        let fewer = states.drop_last();
        let shorter = outs.drop_last();
        let prefix = frames.drop_last();
        assert forall|i: int| 0 <= i < prefix.len() implies SequenceTracker::on_frame_post(
            fewer[i],
            prefix[i],
            #[trigger] shorter[i],
            fewer[i + 1],
        ) by {
            assert(SequenceTracker::on_frame_post(states[i], frames[i], outs[i], states[i + 1]));
        }
        lemma_gap_stamping_over_a_stream(prefix, fewer, shorter);
        assert(SequenceTracker::on_frame_post(states[n], frames[n], outs[n], states[n + 1]));
        assert(fewer.last() == states[n]);
        assert(frames.last() == frames[n]);
        let before = tick_frames(prefix);
        match frames[n] {
            MarketDataFrame::Tick { seq, tick } => {
                let after = before.push((seq, tick));
                assert(tick_frames(frames) == after);
                assert(stamped_run(states[0].expected_seq(), after) =~= stamped_run(states[0].expected_seq(), before).push(
                    stamped(states[n].expected_seq(), seq, tick),
                ));
            },
            MarketDataFrame::Heartbeat { .. } => {
                assert(tick_frames(frames) == before);
            },
        }
    }
}

/// Order requests sent to the bridge.
#[derive(Clone, Debug, PartialEq)]
pub enum OrderRequest {
    Submit(OrderIntent),
    Modify { broker_order_id: BrokerOrderId, sl: Option<i64>, tp: Option<i64> },
    Close { broker_order_id: BrokerOrderId, qty: Option<i64> },
}

/// The bridge's replies to order requests.
#[derive(Clone, Debug, PartialEq, Eq)]
pub enum OrderReply {
    Accepted { broker_order_id: BrokerOrderId },
    Modified,
    Closed,
    Rejected { reason: String },
}

} // verus!
