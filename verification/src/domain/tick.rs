use vstd::prelude::*;

verus! {

/// Interned symbol identifier; strings never appear on the hot path.
pub type SymbolId = u16;

/// Tick condition flags, packed into a `u16`.
#[derive(Debug, Clone, Copy, PartialEq, Eq, Structural)]
pub struct TickFlags {
    bits: u16,
}

/// Every bit that has a meaning as a tick flag.
pub open spec fn known_flag_bits() -> u16 {
    0b0000_1111u16
}

impl TickFlags {
    pub const GAP: u16 = 0b0000_0001;
    pub const STALE: u16 = 0b0000_0010;
    pub const SESSION_OPEN: u16 = 0b0000_0100;
    pub const WIDE_SPREAD: u16 = 0b0000_1000;

    pub closed spec fn spec_bits(self) -> u16 {
        self.bits
    }

    /// Keeps the known flag bits of `bits` and drops every other bit.
    pub fn from_bits_truncate(bits: u16) -> (r: TickFlags)
        ensures
            r.spec_bits() == bits & known_flag_bits(),
    {
        TickFlags { bits: bits & 0b0000_1111 }
    }

    pub fn bits(&self) -> (r: u16)
        ensures
            r == self.spec_bits(),
    {
        self.bits
    }

    /// True when every bit of `mask` is set in these flags.
    pub fn contains(&self, mask: u16) -> (r: bool)
        ensures
            r == (self.spec_bits() & mask == mask),
    {
        self.bits & mask == mask
    }
}

/// Quotient of `x / 2` rounded toward zero, as integer division on `i64`
/// computes it.
pub open spec fn half_toward_zero(x: int) -> int {
    if x >= 0 {
        x / 2
    } else {
        -((-x) / 2)
    }
}

/// One market tick, prices in fixed point scaled by `10^price_digits`.
#[derive(Debug, Copy, Clone, PartialEq, Eq, Structural)]
pub struct Tick {
    /// Broker timestamp, nanoseconds.
    pub ts_ns: u64,
    /// Local receive timestamp, for latency telemetry.
    pub recv_ns: u64,
    pub symbol_id: SymbolId,
    pub bid: i64,
    pub ask: i64,
    pub bid_volume: u32,
    pub ask_volume: u32,
    pub flags: u16,
}

impl Tick {
    pub open spec fn spec_mid(self) -> int {
        half_toward_zero(self.bid + self.ask)
    }

    pub open spec fn has_mid(self) -> bool {
        i64::MIN <= self.bid + self.ask <= i64::MAX
    }

    pub fn spread(&self) -> (r: i64)
        requires
            i64::MIN <= self.ask - self.bid <= i64::MAX,
        ensures
            r == self.ask - self.bid,
    {
        self.ask - self.bid
    }

    pub fn mid(&self) -> (r: i64)
        requires
            self.has_mid(),
        ensures
            r == self.spec_mid(),
    {
        let s = self.bid + self.ask;
        s / 2
    }

    pub fn flags(&self) -> (r: TickFlags)
        ensures
            r.spec_bits() == self.flags & known_flag_bits(),
    {
        TickFlags::from_bits_truncate(self.flags)
    }
}

/// One OHLCV bar.
#[derive(Debug, Copy, Clone, PartialEq, Eq, Structural)]
pub struct Bar {
    pub symbol_id: SymbolId,
    pub timeframe_seconds: u32,
    pub ts_open_ns: u64,
    pub open: i64,
    pub high: i64,
    pub low: i64,
    pub close: i64,
    pub volume: u64,
}

} // verus!
