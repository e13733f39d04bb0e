//! The cTrader-style adapter: length-prefixed frames, the client and server
//! message vocabulary, what the broker makes of each reply, and the
//! deterministic behaviour of the server test double.

pub mod broker;
pub mod demux;
pub mod mock;
pub mod protocol;
