//! TradingView alert webhooks: shared-secret authentication and the tick an
//! alert stands for.

use vstd::prelude::*;

use crate::domain::{SymbolId, Tick};
use crate::strings::str_equal;

verus! {

#[derive(Debug, Clone, Copy, PartialEq, Eq, Structural)]
pub enum WebhookError {
    Unauthorized,
}

/// Accepts an alert whose `token` equals the expected shared secret.
pub fn authenticate(token: &str, expected_token: &str) -> (r: Result<(), WebhookError>)
    ensures
        r is Ok <==> token@ == expected_token@,
        r is Err ==> r == Err::<(), WebhookError>(WebhookError::Unauthorized),
{
    if !str_equal(token, expected_token) {
        return Err(WebhookError::Unauthorized);
    }
    Ok(())
}

/// The tick an alert fired at `price` (already in fixed point) stands for:
/// an alert is a one-sided observation, so bid and ask are both `price`
/// rather than an invented spread.
pub fn tick_at_price(price: i64, time_ns: u64, symbol_id: SymbolId) -> (r: Tick)
    ensures
        r == (Tick {
            ts_ns: time_ns,
            recv_ns: time_ns,
            symbol_id,
            bid: price,
            ask: price,
            bid_volume: 0,
            ask_volume: 0,
            flags: 0,
        }),
{
    Tick { ts_ns: time_ns, recv_ns: time_ns, symbol_id, bid: price, ask: price, bid_volume: 0, ask_volume: 0, flags: 0 }
}

/// The symbol a ticker names in `symbols`: when a ticker is listed more
/// than once, the last listing wins.
pub open spec fn ticker_symbol(symbols: Seq<(String, SymbolId)>, ticker: Seq<char>) -> Option<SymbolId>
    decreases symbols.len(),
{
    if symbols.len() == 0 {
        None
    } else if symbols.last().0@ == ticker {
        Some(symbols.last().1)
    } else {
        ticker_symbol(symbols.drop_last(), ticker)
    }
}

/// Looks up the symbol id a Pine alert's ticker string names.
pub fn lookup_ticker(symbols: &[(String, SymbolId)], ticker: &str) -> (r: Option<SymbolId>)
    ensures
        r == ticker_symbol(symbols@, ticker@),
{
    let mut i = symbols.len();
    assert(symbols@.take(i as int) =~= symbols@);
    while i > 0
        invariant
            i <= symbols@.len(),
            ticker_symbol(symbols@, ticker@) == ticker_symbol(symbols@.take(i as int), ticker@),
        decreases i,
    {
        let entry = &symbols[i - 1];
        assert(symbols@.take(i as int).last() == symbols@[i - 1]);
        assert(symbols@.take(i as int).drop_last() =~= symbols@.take(i - 1));
        if str_equal(entry.0.as_str(), ticker) {
            return Some(entry.1);
        }
        i = i - 1;
    }
    None
}

/// What the webhook endpoint answers an alert, before its price is read.
#[derive(Debug, Clone, Copy, PartialEq, Eq, Structural)]
pub enum WebhookAnswer {
    /// The token is wrong.
    Unauthorized,
    /// The token is right but the ticker is not served.
    UnknownTicker,
    /// The alert is taken in for this symbol.
    Accepted(SymbolId),
}

impl WebhookAnswer {
    /// The HTTP status the answer carries: 401, 400, or 200.
    pub fn status_code(&self) -> (r: u16)
        ensures
            r == match *self {
                WebhookAnswer::Unauthorized => 401u16,
                WebhookAnswer::UnknownTicker => 400u16,
                WebhookAnswer::Accepted(_) => 200u16,
            },
    {
        match self {
            WebhookAnswer::Unauthorized => 401,
            WebhookAnswer::UnknownTicker => 400,
            WebhookAnswer::Accepted(_) => 200,
        }
    }
}

/// Decides an alert: the token is checked first, then the ticker looked
/// up among the served symbols.
pub fn answer_alert(token: &str, expected_token: &str, symbols: &[(String, SymbolId)], ticker: &str) -> (r:
    WebhookAnswer)
    ensures
        token@ != expected_token@ ==> r == WebhookAnswer::Unauthorized,
        token@ == expected_token@ ==> r == match ticker_symbol(symbols@, ticker@) {
            Some(id) => WebhookAnswer::Accepted(id),
            None => WebhookAnswer::UnknownTicker,
        },
{
    if authenticate(token, expected_token).is_err() {
        return WebhookAnswer::Unauthorized;
    }
    match lookup_ticker(symbols, ticker) {
        Some(id) => WebhookAnswer::Accepted(id),
        None => WebhookAnswer::UnknownTicker,
    }
}

/// The HTTP status of a UDF symbol query: 200 for a served symbol, 404
/// otherwise.
pub fn symbol_query_status(symbols: &[(String, SymbolId)], symbol: &str) -> (r: u16)
    ensures
        r == if ticker_symbol(symbols@, symbol@) is Some { 200u16 } else { 404u16 },
{
    match lookup_ticker(symbols, symbol) {
        Some(_) => 200,
        None => 404,
    }
}

} // verus!
