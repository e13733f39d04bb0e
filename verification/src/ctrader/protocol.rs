//! Frames are `[len: u32 BE][payload...]`, the payload a serialized client
//! or server frame.

use vstd::prelude::*;
use vstd::bytes::{spec_u32_from_le_bytes, spec_u32_to_le_bytes, u32_from_le_bytes, u32_to_le_bytes};

use crate::domain::{ExecEvent, OrderIntent, Tick};

verus! {

/// Ceiling on a frame's payload, against a corrupted or malicious length
/// prefix.
pub const MAX_FRAME_BYTES: usize = 1_048_576;

/// Length of the big-endian length prefix.
pub const PREFIX_LEN: usize = 4;

/// `req_id` reserved for server-initiated frames with no client request
/// behind them.
pub const UNSOLICITED_REQ_ID: u64 = 0;

#[derive(Debug, Clone, Copy, PartialEq, Eq, Structural)]
pub enum ProtocolError {
    /// The bytes end before the frame does.
    Truncated,
    FrameTooLarge(usize),
}

#[derive(Debug, Clone, PartialEq)]
pub enum ClientMessage {
    Subscribe { symbols: Vec<u16> },
    NewOrder(OrderIntent),
    AmendOrder { broker_order_id: u64, sl: Option<i64>, tp: Option<i64> },
    ClosePosition { broker_order_id: u64, qty: Option<i64> },
    PositionsRequest,
    AccountRequest,
}

#[derive(Debug, Clone, Copy, PartialEq, Eq, Structural)]
pub struct WirePosition {
    pub broker_order_id: u64,
    pub symbol_id: u16,
    pub qty: i64,
    pub avg_price: i64,
}

#[derive(Debug, Clone, Copy, PartialEq, Eq, Structural)]
pub struct WireAccount {
    pub equity: i64,
    pub balance: i64,
    pub free_margin: i64,
}

#[derive(Debug, Clone, PartialEq)]
pub enum ServerMessage {
    AuthAck,
    Spot { symbol_id: u16, tick: Tick },
    Execution(ExecEvent),
    OrderAccepted { broker_order_id: u64 },
    OrderRejected { reason: String },
    Amended { broker_order_id: u64 },
    Closed { broker_order_id: u64 },
    Positions(Vec<WirePosition>),
    Account(WireAccount),
}

#[derive(Debug, Clone, PartialEq)]
pub struct ClientFrame {
    pub req_id: u64,
    pub message: ClientMessage,
}

#[derive(Debug, Clone, PartialEq)]
pub struct ServerFrame {
    pub req_id: u64,
    pub message: ServerMessage,
}

/// Big-endian bytes of `x`.
pub open spec fn be_bytes(x: u32) -> Seq<u8> {
    spec_u32_to_le_bytes(x).reverse()
}

/// The `u32` whose big-endian bytes are `s`.
pub open spec fn be_value(s: Seq<u8>) -> u32 {
    spec_u32_from_le_bytes(s.reverse())
}

/// A frame carrying `payload`.
pub open spec fn framed(payload: Seq<u8>) -> Seq<u8> {
    be_bytes(payload.len() as u32) + payload
}

/// Reading one frame off the front of `bytes`: its payload and the number
/// of bytes it took.
pub open spec fn frame_read(bytes: Seq<u8>) -> Result<(Seq<u8>, int), ProtocolError> {
    if bytes.len() < PREFIX_LEN {
        Err(ProtocolError::Truncated)
    } else if be_value(bytes.take(4)) > MAX_FRAME_BYTES {
        Err(ProtocolError::FrameTooLarge(be_value(bytes.take(4)) as usize))
    } else if bytes.len() < PREFIX_LEN + be_value(bytes.take(4)) {
        Err(ProtocolError::Truncated)
    } else {
        Ok((bytes.subrange(4, 4 + be_value(bytes.take(4))), 4 + be_value(bytes.take(4))))
    }
}

fn reversed(s: &Vec<u8>) -> (r: Vec<u8>)
    ensures
        r@ == s@.reverse(),
{
    let mut out: Vec<u8> = Vec::new();
    let n = s.len();
    let mut i = n;
    while i > 0
        invariant
            i <= n,
            n == s@.len(),
            out@.len() == n - i,
            forall|j: int| 0 <= j < n - i ==> #[trigger] out@[j] == s@[n - 1 - j],
        decreases i,
    {
        i = i - 1;
        out.push(s[i]);
    }
    assert(out@ =~= s@.reverse());
    out
}

/// Reads the length prefix at the front of `bytes`: the payload length it
/// announces, refused when over `MAX_FRAME_BYTES` so that a corrupted or
/// hostile prefix never makes a reader allocate.
pub fn decode_prefix(bytes: &[u8]) -> (r: Result<usize, ProtocolError>)
    ensures
        bytes@.len() < PREFIX_LEN ==> r == Err::<usize, ProtocolError>(ProtocolError::Truncated),
        bytes@.len() >= PREFIX_LEN && be_value(bytes@.take(4)) > MAX_FRAME_BYTES ==> r == Err::<usize, ProtocolError>(
            ProtocolError::FrameTooLarge(be_value(bytes@.take(4)) as usize),
        ),
        bytes@.len() >= PREFIX_LEN && be_value(bytes@.take(4)) <= MAX_FRAME_BYTES ==> r == Ok::<usize, ProtocolError>(
            be_value(bytes@.take(4)) as usize,
        ),
{
    if bytes.len() < PREFIX_LEN {
        return Err(ProtocolError::Truncated);
    }
    let mut prefix: Vec<u8> = Vec::new();
    prefix.push(bytes[3]);
    prefix.push(bytes[2]);
    prefix.push(bytes[1]);
    prefix.push(bytes[0]);
    assert(prefix@ =~= bytes@.take(4).reverse());
    let len = u32_from_le_bytes(prefix.as_slice()) as usize;
    if len > MAX_FRAME_BYTES {
        return Err(ProtocolError::FrameTooLarge(len));
    }
    Ok(len)
}

/// Frames `payload` behind its big-endian length; a payload over
/// `MAX_FRAME_BYTES` is refused.
pub fn encode_frame(payload: &[u8]) -> (r: Result<Vec<u8>, ProtocolError>)
    ensures
        payload@.len() > MAX_FRAME_BYTES ==> r == Err::<Vec<u8>, ProtocolError>(
            ProtocolError::FrameTooLarge(payload@.len() as usize),
        ),
        payload@.len() <= MAX_FRAME_BYTES ==> (r matches Ok(v) && v@ == framed(payload@)),
{
    let n = payload.len();
    if n > MAX_FRAME_BYTES {
        return Err(ProtocolError::FrameTooLarge(n));
    }
    let le = u32_to_le_bytes(n as u32);
    let mut out = reversed(&le);
    let ghost head = out@;
    for i in 0..n
        invariant
            n == payload@.len(),
            out@ == head + payload@.take(i as int),
    {
        out.push(payload[i]);
        assert(payload@.take(i + 1) =~= payload@.take(i as int).push(payload@[i as int]));
        assert(head + payload@.take(i + 1) =~= (head + payload@.take(i as int)).push(payload@[i as int]));
    }
    assert(payload@.take(n as int) =~= payload@);
    Ok(out)
}

/// Reads the frame at the front of `bytes`: its payload and how many bytes
/// it took. The length prefix is checked against `MAX_FRAME_BYTES` before
/// any payload is read.
pub fn decode_frame(bytes: &[u8]) -> (r: Result<(Vec<u8>, usize), ProtocolError>)
    ensures
        match frame_read(bytes@) {
            Ok((payload, used)) => (r matches Ok((v, u)) && v@ == payload && u == used),
            Err(e) => r == Err::<(Vec<u8>, usize), ProtocolError>(e),
        },
{
    let len = match decode_prefix(bytes) {
        Ok(n) => n,
        Err(e) => {
            return Err(e);
        },
    };
    if bytes.len() - PREFIX_LEN < len {
        return Err(ProtocolError::Truncated);
    }
    let mut payload: Vec<u8> = Vec::new();
    let total = bytes.len();
    for i in 0..len
        invariant
            total == bytes@.len(),
            len <= bytes@.len() - 4,
            bytes@.len() >= 4,
            payload@ =~= bytes@.subrange(4, 4 + i),
    {
        payload.push(bytes[4 + i]);
    }
    Ok((payload, len + 4))
}

/// Reading a frame back gives the payload it was written with, and takes
/// exactly its bytes, whatever follows it.
pub proof fn lemma_frame_roundtrip(payload: Seq<u8>, rest: Seq<u8>)
    requires
        payload.len() <= MAX_FRAME_BYTES,
    ensures
        frame_read(framed(payload) + rest) == Ok::<(Seq<u8>, int), ProtocolError>((payload, 4 + payload.len() as int)),
{
    vstd::bytes::lemma_auto_spec_u32_to_from_le_bytes();
    let n = payload.len() as u32;
    let le = spec_u32_to_le_bytes(n);
    assert(le.len() == 4);
    let b = framed(payload) + rest;
    assert(b.take(4) =~= le.reverse());
    assert(b.take(4).reverse() =~= le);
    assert(be_value(b.take(4)) == n);
    assert(b.subrange(4, 4 + n) =~= payload);
}

/// A frame cut short before its end is an error, never a payload.
pub proof fn lemma_truncated_frame_is_rejected(payload: Seq<u8>, cut: int)
    requires
        payload.len() <= MAX_FRAME_BYTES,
        0 <= cut < framed(payload).len(),
    ensures
        frame_read(framed(payload).take(cut)) is Err,
{
    vstd::bytes::lemma_auto_spec_u32_to_from_le_bytes();
    let n = payload.len() as u32;
    let le = spec_u32_to_le_bytes(n);
    assert(le.len() == 4);
    let b = framed(payload).take(cut);
    if cut >= 4 {
        assert(b.take(4) =~= le.reverse());
        assert(b.take(4).reverse() =~= le);
        assert(be_value(b.take(4)) == n);
    }
}

/// The frames carrying `payloads`, one after another.
pub open spec fn framed_all(payloads: Seq<Seq<u8>>) -> Seq<u8>
    decreases payloads.len(),
{
    if payloads.len() == 0 {
        Seq::empty()
    } else {
        framed(payloads[0]) + framed_all(payloads.drop_first())
    }
}

/// Reading `count` frames one after another off the front of `bytes`: their
/// payloads in order and the bytes left, or the first error met.
pub open spec fn frames_read(bytes: Seq<u8>, count: nat) -> Result<(Seq<Seq<u8>>, Seq<u8>), ProtocolError>
    decreases count,
{
    if count == 0 {
        Ok((Seq::empty(), bytes))
    } else {
        match frame_read(bytes) {
            Ok((payload, used)) => match frames_read(bytes.skip(used), (count - 1) as nat) {
                Ok((more, left)) => Ok((seq![payload] + more, left)),
                Err(e) => Err(e),
            },
            Err(e) => Err(e),
        }
    }
}

/// Frames written one after another read back one after another: the
/// payloads come back equal and in the order they were written, and what
/// followed the last frame is left over (nothing left: the next read is
/// `Truncated`).
pub proof fn lemma_frames_read_back_in_order(payloads: Seq<Seq<u8>>, rest: Seq<u8>)
    requires
        forall|i: int| 0 <= i < payloads.len() ==> (#[trigger] payloads[i]).len() <= MAX_FRAME_BYTES,
    ensures
        frames_read(framed_all(payloads) + rest, payloads.len()) == Ok::<(Seq<Seq<u8>>, Seq<u8>), ProtocolError>(
            (payloads, rest),
        ),
        frame_read(Seq::<u8>::empty()) == Err::<(Seq<u8>, int), ProtocolError>(ProtocolError::Truncated),
    decreases payloads.len(),
{
    if payloads.len() == 0 {
        assert(framed_all(payloads) + rest =~= rest);
        assert(payloads =~= Seq::<Seq<u8>>::empty());
    } else {
        let first = payloads[0];
        let tail = payloads.drop_first();
        assert forall|i: int| 0 <= i < tail.len() implies (#[trigger] tail[i]).len() <= MAX_FRAME_BYTES by {
            assert(tail[i] == payloads[i + 1]);
        }
        lemma_frames_read_back_in_order(tail, rest);
        let after = framed_all(tail) + rest;
        let bytes = framed_all(payloads) + rest;
        assert(bytes =~= framed(first) + after);
        lemma_frame_roundtrip(first, after);
        vstd::bytes::lemma_auto_spec_u32_to_from_le_bytes();
        assert(spec_u32_to_le_bytes(first.len() as u32).len() == 4);
        assert(framed(first).len() == 4 + first.len());
        assert(bytes.skip(4 + first.len() as int) =~= after);
        assert(seq![first] + tail =~= payloads);
        assert(frame_read(bytes) == Ok::<(Seq<u8>, int), ProtocolError>((first, 4 + first.len() as int)));
        assert(frames_read(after, tail.len()) == Ok::<(Seq<Seq<u8>>, Seq<u8>), ProtocolError>((tail, rest)));
        assert((payloads.len() - 1) as nat == tail.len());
        assert(bytes.skip(4 + first.len() as int) == after);
        assert(frames_read(bytes, payloads.len()) == Ok::<(Seq<Seq<u8>>, Seq<u8>), ProtocolError>(
            (seq![first] + tail, rest),
        ));
    }
}

} // verus!
