//! Simulated broker: a real `Broker` with configurable slippage, requotes,
//! partial fills and rejects, seedable for reproducible runs.
//!
//! Acceptance (or an outright reject) happens synchronously in `submit`;
//! the resulting fill is reported through `poll_event`, one call behind
//! `submit`, the same submit-then-poll lifecycle a live adapter has.

use std::collections::{HashMap, VecDeque};

use vstd::prelude::*;

use rand::rngs::StdRng;
use vstd::std_specs::iter::IteratorSpec;

use crate::domain::{
    AccountSnapshot, Broker, BrokerOrderId, ExecEvent, OrderIntent, PortError, PortResult, PositionSnapshot, Side,
    SymbolConstraints, SymbolId,
};
use super::rng::{random_range_u32, random_ratio, rng_from_seed};
use crate::runs::{counts_up, lemma_counting_run, yielded};

verus! {

broadcast use vstd::std_specs::hash::group_hash_axioms;

/// Probabilities are given in parts per million: `PPM` is certainty.
pub const PPM: u32 = 1_000_000;

/// Smallest fraction of the requested quantity that a partial fill keeps,
/// in parts per million.
pub const MIN_PARTIAL_FRACTION_PPM: u32 = 100_000;

/// Price a market order fills against, before slippage: this double has
/// no live quote.
pub const DEFAULT_FILL_PRICE: i64 = 100_000;

#[derive(Debug, Clone, Copy, PartialEq, Eq, Structural)]
pub struct SimBrokerConfig {
    /// Adverse slippage applied to every fill, in price points.
    pub slippage_points: i64,
    /// Probability, in parts per million, that a submit is rejected outright.
    pub reject_probability: u32,
    /// Probability, in parts per million, that a fill is requoted: extra
    /// adverse slippage on top of `slippage_points`.
    pub requote_probability: u32,
    /// Probability, in parts per million, that a fill is partial: a
    /// uniformly drawn fraction of the requested quantity, at least 1 unit.
    pub partial_fill_probability: u32,
    pub starting_equity: i64,
}

impl SimBrokerConfig {
    /// Every probability lies in `[0, PPM]`.
    pub open spec fn is_valid(self) -> bool {
        &&& self.reject_probability <= PPM
        &&& self.requote_probability <= PPM
        &&& self.partial_fill_probability <= PPM
    }
}

impl Default for SimBrokerConfig {
    fn default() -> (r: Self)
        ensures
            r == (SimBrokerConfig {
                slippage_points: 2,
                reject_probability: 0,
                requote_probability: 0,
                partial_fill_probability: 0,
                starting_equity: 1_000_000,
            }),
    {
        SimBrokerConfig {
            slippage_points: 2,
            reject_probability: 0,
            requote_probability: 0,
            partial_fill_probability: 0,
            starting_equity: 1_000_000,
        }
    }
}

/// One open position in the simulated book.
#[derive(Debug, Clone, Copy, PartialEq, Eq, Structural)]
pub struct OpenPosition {
    pub symbol_id: SymbolId,
    pub side: Side,
    pub qty: i64,
    pub avg_price: i64,
    pub sl: Option<i64>,
    pub tp: Option<i64>,
}

/// `a / d` rounded toward zero, for `d > 0`.
pub open spec fn div_toward_zero(a: int, d: int) -> int {
    if a >= 0 {
        a / d
    } else {
        -((-a) / d)
    }
}

/// Quantity kept by a partial fill of `requested` units at `fraction_ppm`
/// parts per million: the product rounded half up, never below 1.
pub open spec fn partial_fill_qty(requested: i64, fraction_ppm: u32) -> int {
    let q = div_toward_zero(requested * fraction_ppm + PPM / 2, PPM as int);
    if q < 1 {
        1
    } else {
        q
    }
}

/// Price an intent fills against before slippage.
pub open spec fn base_fill_price(intent: OrderIntent) -> int {
    match intent.limit_px {
        Some(px) => px as int,
        None => DEFAULT_FILL_PRICE as int,
    }
}

/// Slippage applied to a fill, with or without a requote.
pub open spec fn fill_slippage(config: SimBrokerConfig, requoted: bool) -> int {
    if requoted {
        config.slippage_points + if config.slippage_points > 1 { config.slippage_points as int } else { 1 }
    } else {
        config.slippage_points as int
    }
}

/// Fill price: slippage is adverse to the side (a buy fills higher, a sell
/// lower).
pub open spec fn fill_price(config: SimBrokerConfig, intent: OrderIntent, requoted: bool) -> int {
    match intent.side {
        Side::Buy => base_fill_price(intent) + fill_slippage(config, requoted),
        Side::Sell => base_fill_price(intent) - fill_slippage(config, requoted),
    }
}

/// With non-negative configured slippage every fill is at least as bad as
/// the price asked for: a buy fills at or above it, a sell at or below it,
/// and a requote only ever makes the price worse.
pub proof fn lemma_slippage_is_adverse_to_the_side(config: SimBrokerConfig, intent: OrderIntent, requoted: bool)
    requires
        config.slippage_points >= 0,
    ensures
        intent.side == Side::Buy ==> fill_price(config, intent, requoted) >= base_fill_price(intent),
        intent.side == Side::Sell ==> fill_price(config, intent, requoted) <= base_fill_price(intent),
        intent.side == Side::Buy ==> fill_price(config, intent, true) > fill_price(config, intent, false),
        intent.side == Side::Sell ==> fill_price(config, intent, true) < fill_price(config, intent, false),
{
}

pub open spec fn fits_i64(x: int) -> bool {
    i64::MIN <= x <= i64::MAX
}

/// The fill price of `intent`, with and without a requote, is representable.
pub open spec fn prices_representable(config: SimBrokerConfig, intent: OrderIntent) -> bool {
    &&& fits_i64(fill_slippage(config, false))
    &&& fits_i64(fill_slippage(config, true))
    &&& fits_i64(-fill_slippage(config, false))
    &&& fits_i64(-fill_slippage(config, true))
    &&& fits_i64(fill_price(config, intent, false))
    &&& fits_i64(fill_price(config, intent, true))
}

/// The position an accepted submit books: quantity `filled` at `price`.
pub open spec fn booked_position(intent: OrderIntent, filled: i64, price: i64) -> OpenPosition {
    OpenPosition {
        symbol_id: intent.symbol_id,
        side: intent.side,
        qty: filled,
        avg_price: price,
        sl: intent.sl,
        tp: intent.tp,
    }
}

/// The broker's own report of one booked position.
pub open spec fn snapshot_of(id: BrokerOrderId, p: OpenPosition) -> PositionSnapshot {
    PositionSnapshot { broker_order_id: id, symbol_id: p.symbol_id, qty: p.qty, avg_price: p.avg_price }
}

/// `s` lists every position of `book` exactly once.
pub open spec fn lists_book(book: Map<BrokerOrderId, OpenPosition>, s: Seq<PositionSnapshot>) -> bool {
    &&& s.len() == book.len()
    &&& forall|i: int|
        0 <= i < s.len() ==> book.contains_key(#[trigger] s[i].broker_order_id) && s[i] == snapshot_of(
            s[i].broker_order_id,
            book[s[i].broker_order_id],
        )
    &&& forall|i: int, j: int|
        0 <= i < s.len() && 0 <= j < s.len() && i != j ==> #[trigger] s[i].broker_order_id
            != #[trigger] s[j].broker_order_id
    &&& forall|k: BrokerOrderId|
        #[trigger] book.contains_key(k) ==> exists|i: int| 0 <= i < s.len() && s[i].broker_order_id == k
}

pub struct SimBroker {
    config: SimBrokerConfig,
    rng: StdRng,
    next_broker_order_id: BrokerOrderId,
    positions: HashMap<BrokerOrderId, OpenPosition>,
    pending_events: VecDeque<ExecEvent>,
    /// Forces the next `n` submits to reject outright, whatever the
    /// configured reject probability.
    forced_rejects: u32,
}

/// The fill price with the drawn requote, and the slippage behind it, are
/// representable.
pub open spec fn fill_price_fits(config: SimBrokerConfig, intent: OrderIntent, requoted: bool) -> bool {
    &&& fits_i64(fill_slippage(config, requoted))
    &&& fits_i64(fill_price(config, intent, requoted))
}

/// Quantity filled: the drawn fraction of the request for a partial fill,
/// the whole request otherwise.
pub open spec fn filled_qty(requested: i64, partial_fraction: Option<u32>) -> int {
    match partial_fraction {
        Some(f) => partial_fill_qty(requested, f),
        None => requested as int,
    }
}

/// Why a submit with these draws is refused, if it is: a drawn reject,
/// then exhausted order ids, then a fill price out of range.
pub open spec fn refusal_of(
    config: SimBrokerConfig,
    intent: OrderIntent,
    next_id: BrokerOrderId,
    rejected: bool,
    requoted: bool,
) -> Option<Seq<char>> {
    if rejected {
        Some("simulated reject"@)
    } else if next_id == u64::MAX {
        Some("simulated broker order ids exhausted"@)
    } else if !fill_price_fits(config, intent, requoted) {
        Some("simulated fill price out of range"@)
    } else {
        None
    }
}

/// Draws a submit can make under `config`: a probability of 0 never comes
/// true and one of `PPM` always does, each draw made only where the
/// submit gets that far (an undrawn requote is `false`, an undrawn
/// fraction `None`), and a partial fraction lies in
/// `[MIN_PARTIAL_FRACTION_PPM, PPM)`.
pub open spec fn draws_allowed(
    config: SimBrokerConfig,
    intent: OrderIntent,
    next_id: BrokerOrderId,
    rejected: bool,
    requoted: bool,
    partial_fraction: Option<u32>,
) -> bool {
    &&& (config.reject_probability == 0 ==> !rejected)
    &&& (config.reject_probability == PPM ==> rejected)
    &&& (rejected || next_id == u64::MAX ==> !requoted)
    &&& (config.requote_probability == 0 ==> !requoted)
    &&& (config.requote_probability == PPM && !rejected && next_id < u64::MAX ==> requoted)
    &&& (refusal_of(config, intent, next_id, rejected, requoted) is Some ==> partial_fraction is None)
    &&& (config.partial_fill_probability == 0 ==> partial_fraction is None)
    &&& (config.partial_fill_probability == PPM && refusal_of(config, intent, next_id, rejected, requoted) is None
        ==> partial_fraction is Some)
    &&& (partial_fraction matches Some(f) ==> MIN_PARTIAL_FRACTION_PPM <= f < PPM)
}

/// What a submit gives once its draws are made: the refusal with its
/// message, or a fill at `fill_price` of `filled_qty`.
pub open spec fn fill_outcome_post(
    config: SimBrokerConfig,
    intent: OrderIntent,
    next_id: BrokerOrderId,
    rejected: bool,
    requoted: bool,
    partial_fraction: Option<u32>,
    r: PortResult<(i64, i64)>,
) -> bool {
    match refusal_of(config, intent, next_id, rejected, requoted) {
        Some(m) => r matches Err(PortError::Adapter(e)) && e@ == m,
        None => r == PortResult::<(i64, i64)>::Ok(
            (fill_price(config, intent, requoted) as i64, filled_qty(intent.qty, partial_fraction) as i64),
        ),
    }
}

/// Decides a submit from its draws: `rejected` for the reject draw,
/// `requoted` for the requote draw, and the fraction of a partial fill,
/// if one was drawn. Gives the fill's price and quantity.
pub fn fill_outcome(
    config: &SimBrokerConfig,
    intent: &OrderIntent,
    next_id: BrokerOrderId,
    rejected: bool,
    requoted: bool,
    partial_fraction: Option<u32>,
) -> (r: PortResult<(i64, i64)>)
    requires
        partial_fraction matches Some(f) ==> f < PPM,
    ensures
        fill_outcome_post(*config, *intent, next_id, rejected, requoted, partial_fraction, r),
{
    if rejected {
        return Err(PortError::Adapter("simulated reject".to_owned()));
    }
    if next_id == u64::MAX {
        return Err(PortError::Adapter("simulated broker order ids exhausted".to_owned()));
    }
    let price = match checked_fill_price(config, intent, requoted) {
        Some(p) => p,
        None => {
            return Err(PortError::Adapter("simulated fill price out of range".to_owned()));
        },
    };
    let qty: i64 = match partial_fraction {
        Some(f) => SimBroker::partial_qty(intent.qty, f),
        None => intent.qty,
    };
    Ok((price, qty))
}

/// The fill price with the drawn requote, where it is representable.
fn checked_fill_price(config: &SimBrokerConfig, intent: &OrderIntent, requoted: bool) -> (r: Option<i64>)
    ensures
        r is Some <==> fill_price_fits(*config, *intent, requoted),
        r matches Some(p) ==> p == fill_price(*config, *intent, requoted),
{
    let slip = config.slippage_points;
    let slippage: i64 = if requoted {
        let extra: i64 = if slip > 1 { slip } else { 1 };
        match slip.checked_add(extra) {
            Some(s) => s,
            None => {
                return None;
            },
        }
    } else {
        slip
    };
    let base = SimBroker::mid_price_estimate(intent);
    match intent.side {
        Side::Buy => base.checked_add(slippage),
        Side::Sell => base.checked_sub(slippage),
    }
}

impl SimBroker {
    #[verifier::type_invariant]
    spec fn well_formed(self) -> bool {
        &&& self.config.is_valid()
        &&& self.next_broker_order_id >= 1
        &&& forall|k: BrokerOrderId| #[trigger]
            self.positions@.contains_key(k) ==> k < self.next_broker_order_id
    }

    pub closed spec fn config(&self) -> SimBrokerConfig {
        self.config
    }

    /// The id the next accepted submit receives.
    pub closed spec fn next_id(&self) -> BrokerOrderId {
        self.next_broker_order_id
    }

    /// The open positions, by broker order id.
    pub closed spec fn book(&self) -> Map<BrokerOrderId, OpenPosition> {
        self.positions@
    }

    /// Events not yet handed out by `poll_event`, oldest first.
    pub closed spec fn pending(&self) -> Seq<ExecEvent> {
        self.pending_events@
    }

    pub closed spec fn forced(&self) -> u32 {
        self.forced_rejects
    }

    /// What one `submit` of `intent` does to a broker `before`, giving `r`
    /// and leaving `after`.
    pub open spec fn submit_post(
        before: SimBroker,
        intent: OrderIntent,
        r: PortResult<BrokerOrderId>,
        after: SimBroker,
    ) -> bool {
        let cfg = before.config();
        &&& after.config() == cfg
        // Forced rejects take priority over everything else.
        &&& before.forced() > 0 ==> {
            &&& r matches Err(PortError::Adapter(msg)) && msg@ == "simulated reject (forced)"@
            &&& after.forced() == before.forced() - 1
        }
        &&& before.forced() == 0 ==> after.forced() == 0
        // A rejected submit books nothing and reports nothing.
        &&& r is Err ==> {
            &&& after.next_id() == before.next_id()
            &&& after.book() == before.book()
            &&& after.pending() == before.pending()
        }
        // A certain reject is always drawn.
        &&& before.forced() == 0 && cfg.reject_probability == PPM ==> (r matches Err(PortError::Adapter(m)) && m@
            == "simulated reject"@)
        // Success is owed when nothing forces or draws a reject and the
        // order id and fill price are representable.
        &&& before.forced() == 0 && cfg.reject_probability == 0 && before.next_id() < u64::MAX
            && prices_representable(cfg, intent) ==> r is Ok
        // Otherwise the draws decide, as `fill_outcome` does.
        &&& before.forced() == 0 ==> exists|rejected: bool, requoted: bool, partial_fraction: Option<u32>|
            #[trigger] draws_allowed(cfg, intent, before.next_id(), rejected, requoted, partial_fraction)
                && match refusal_of(cfg, intent, before.next_id(), rejected, requoted) {
                Some(m) => r matches Err(PortError::Adapter(e)) && e@ == m,
                None => r == PortResult::<BrokerOrderId>::Ok(before.next_id()) && after.book()[before.next_id()]
                    == booked_position(
                    intent,
                    filled_qty(intent.qty, partial_fraction) as i64,
                    fill_price(cfg, intent, requoted) as i64,
                ),
            }
        // An accepted submit books a fresh position and queues its fill.
        &&& r matches Ok(id) ==> {
            let p = after.book()[id];
            &&& before.forced() == 0
            &&& id == before.next_id()
            &&& !before.book().contains_key(id)
            &&& after.next_id() == id + 1
            &&& after.book() == before.book().insert(id, booked_position(intent, p.qty, p.avg_price))
            &&& after.pending() == before.pending().push(
                ExecEvent::Fill {
                    client_id: intent.client_id,
                    broker_order_id: id,
                    fill_price: p.avg_price,
                    qty: p.qty,
                    ts_ns: 0,
                },
            )
        }
    }

    /// What one `modify` does: new stop loss and take profit on a known
    /// position, reported by a `Modify` event.
    pub open spec fn modify_post(
        before: SimBroker,
        id: BrokerOrderId,
        sl: Option<i64>,
        tp: Option<i64>,
        r: PortResult<()>,
        after: SimBroker,
    ) -> bool {
        &&& after.config() == before.config()
        &&& after.next_id() == before.next_id()
        &&& after.forced() == before.forced()
        &&& (r is Ok <==> before.book().contains_key(id))
        &&& r is Err ==> {
            &&& r matches Err(PortError::Adapter(msg)) && msg@ == "unknown order"@
            &&& after.book() == before.book()
            &&& after.pending() == before.pending()
        }
        &&& r is Ok ==> {
            &&& after.book() == before.book().insert(id, OpenPosition { sl, tp, ..before.book()[id] })
            &&& after.pending() == before.pending().push(ExecEvent::Modify { broker_order_id: id, sl, tp, ts_ns: 0 })
        }
    }

    /// What one `close` does: a partial close reduces a known position,
    /// anything else removes it.
    pub open spec fn close_post(
        before: SimBroker,
        id: BrokerOrderId,
        qty: Option<i64>,
        r: PortResult<()>,
        after: SimBroker,
    ) -> bool {
        &&& after.config() == before.config()
        &&& after.next_id() == before.next_id()
        &&& after.forced() == before.forced()
        &&& after.pending() == before.pending()
        &&& !before.book().contains_key(id) ==> {
            &&& r matches Err(PortError::Adapter(msg)) && msg@ == "unknown order"@
            &&& after.book() == before.book()
        }
        &&& before.book().contains_key(id) ==> match qty {
            // A partial close reduces the position by `q`.
            Some(q) if q < before.book()[id].qty => {
                if fits_i64(before.book()[id].qty - q) {
                    &&& r is Ok
                    &&& after.book() == before.book().insert(
                        id,
                        OpenPosition { qty: (before.book()[id].qty - q) as i64, ..before.book()[id] },
                    )
                } else {
                    &&& r matches Err(PortError::Adapter(_))
                    &&& after.book() == before.book()
                }
            },
            // Anything else closes the position outright.
            _ => r is Ok && after.book() == before.book().remove(id),
        }
    }

    /// What one `poll_event` does: hands out the oldest pending event.
    pub open spec fn poll_post(before: SimBroker, r: Option<ExecEvent>, after: SimBroker) -> bool {
        &&& after.config() == before.config()
        &&& after.next_id() == before.next_id()
        &&& after.forced() == before.forced()
        &&& after.book() == before.book()
        &&& before.pending().len() == 0 ==> r is None && after.pending() == before.pending()
        &&& before.pending().len() > 0 ==> {
            &&& r == Some(before.pending()[0])
            &&& after.pending() == before.pending().drop_first()
        }
    }

    pub fn new(config: SimBrokerConfig) -> (r: Self)
        requires
            config.is_valid(),
        ensures
            r.config() == config,
            r.next_id() == 1,
            r.book() == Map::<BrokerOrderId, OpenPosition>::empty(),
            r.pending() == Seq::<ExecEvent>::empty(),
            r.forced() == 0,
    {
        Self::from_seed(config, 0)
    }

    /// Deterministic construction for reproducible runs.
    pub fn from_seed(config: SimBrokerConfig, seed: u64) -> (r: Self)
        requires
            config.is_valid(),
        ensures
            r.config() == config,
            r.next_id() == 1,
            r.book() == Map::<BrokerOrderId, OpenPosition>::empty(),
            r.pending() == Seq::<ExecEvent>::empty(),
            r.forced() == 0,
    {
        SimBroker {
            config,
            rng: rng_from_seed(seed),
            next_broker_order_id: 1,
            positions: HashMap::new(),
            pending_events: VecDeque::new(),
            forced_rejects: 0,
        }
    }

    /// Forces the next `n` submits to reject outright.
    pub fn force_next_rejects(&mut self, n: u32)
        ensures
            final(self).forced() == n,
            final(self).config() == old(self).config(),
            final(self).next_id() == old(self).next_id(),
            final(self).book() == old(self).book(),
            final(self).pending() == old(self).pending(),
    {
        proof {
            use_type_invariant(&*self);
        }
        self.forced_rejects = n;
    }

    fn mid_price_estimate(intent: &OrderIntent) -> (r: i64)
        ensures
            r == base_fill_price(*intent),
    {
        match intent.limit_px {
            Some(px) => px,
            None => DEFAULT_FILL_PRICE,
        }
    }

    /// Quantity a partial fill keeps: `requested * fraction_ppm / PPM`,
    /// rounded half up, at least 1.
    pub fn partial_qty(requested: i64, fraction_ppm: u32) -> (r: i64)
        requires
            fraction_ppm < PPM,
        ensures
            r == partial_fill_qty(requested, fraction_ppm),
            1 <= r,
            requested >= 1 ==> r <= requested,
    {
        proof {
            lemma_partial_fill_within_request(requested, fraction_ppm);
        }
        let wide: i128 = requested as i128;
        let frac: i128 = fraction_ppm as i128;
        assert(-0x1_0000_0000_0000_0000_0000_0000_0000 < wide * frac < 0x1_0000_0000_0000_0000_0000_0000_0000)
            by (nonlinear_arith)
            requires
                -0x8000_0000_0000_0000 <= wide < 0x8000_0000_0000_0000,
                0 <= frac < 1_000_000,
        ;
        let scaled: i128 = wide * frac + 500_000;
        let q: i128 = scaled / 1_000_000;
        if q < 1 {
            1
        } else {
            q as i64
        }
    }
}

/// A partial fill keeps at least one unit and never more than was asked
/// for.
pub proof fn lemma_partial_fill_within_request(requested: i64, fraction_ppm: u32)
    requires
        fraction_ppm < PPM,
    ensures
        1 <= partial_fill_qty(requested, fraction_ppm),
        partial_fill_qty(requested, fraction_ppm) <= if requested >= 1 { requested as int } else { 1 },
{
    let a = requested * fraction_ppm + PPM / 2;
    if requested >= 1 {
        assert(a <= requested * PPM - requested + PPM / 2) by (nonlinear_arith)
            requires
                a == requested * fraction_ppm + PPM / 2,
                fraction_ppm <= PPM - 1,
                requested >= 1,
        ;
        assert(a < (requested + 1) * PPM) by (nonlinear_arith)
            requires
                a <= requested * PPM - requested + PPM / 2,
                requested >= 1,
        ;
        assert(a >= 0) by (nonlinear_arith)
            requires
                a == requested * fraction_ppm + PPM / 2,
                requested >= 1,
        ;
        assert(a / (PPM as int) <= requested) by (nonlinear_arith)
            requires
                0 <= a < (requested + 1) * PPM,
        ;
    } else {
        assert(a <= PPM / 2) by (nonlinear_arith)
            requires
                a == requested * fraction_ppm + PPM / 2,
                requested <= 0,
        ;
        if a >= 0 {
            assert(a / (PPM as int) == 0);
        } else {
            assert((-a) / (PPM as int) >= 0) by (nonlinear_arith)
                requires
                    -a > 0,
            ;
        }
    }
}

impl Broker for SimBroker {
    open spec fn submit_step(&self, intent: OrderIntent, r: PortResult<BrokerOrderId>, after: &Self) -> bool {
        Self::submit_post(*self, intent, r, *after)
    }

    open spec fn modify_step(
        &self,
        id: BrokerOrderId,
        sl: Option<i64>,
        tp: Option<i64>,
        r: PortResult<()>,
        after: &Self,
    ) -> bool {
        Self::modify_post(*self, id, sl, tp, r, *after)
    }

    open spec fn close_step(&self, id: BrokerOrderId, qty: Option<i64>, r: PortResult<()>, after: &Self) -> bool {
        Self::close_post(*self, id, qty, r, *after)
    }

    open spec fn poll_event_step(&self, r: Option<ExecEvent>, after: &Self) -> bool {
        Self::poll_post(*self, r, *after)
    }

    open spec fn account_result(&self, r: AccountSnapshot) -> bool {
        r == (AccountSnapshot {
            equity: self.config().starting_equity,
            balance: self.config().starting_equity,
            free_margin: self.config().starting_equity,
        })
    }

    open spec fn constraints_result(&self, sym: SymbolId, r: PortResult<SymbolConstraints>) -> bool {
        r == PortResult::<SymbolConstraints>::Ok(SymbolConstraints { min_lot: 1, lot_step: 1, stop_level_points: 10 })
    }

    open spec fn positions_result(&self, r: PortResult<Vec<PositionSnapshot>>) -> bool {
        r matches Ok(v) && lists_book(self.book(), v@)
    }

    fn submit(&mut self, intent: &OrderIntent) -> (r: PortResult<BrokerOrderId>)
        ensures
            Self::submit_post(*old(self), *intent, r, *final(self)),

    {
        proof {
            use_type_invariant(&*self);
        }
        if self.forced_rejects > 0 {
            self.forced_rejects = self.forced_rejects - 1;
            return Err(PortError::Adapter("simulated reject (forced)".to_owned()));
        }
        let next_id = self.next_broker_order_id;
        let rejected = random_ratio(&mut self.rng, self.config.reject_probability, PPM);
        let requoted = if !rejected && next_id < u64::MAX {
            random_ratio(&mut self.rng, self.config.requote_probability, PPM)
        } else {
            false
        };
        let mut partial_fraction: Option<u32> = None;
        if !rejected && next_id < u64::MAX && checked_fill_price(&self.config, intent, requoted).is_some() {
            if random_ratio(&mut self.rng, self.config.partial_fill_probability, PPM) {
                partial_fraction = Some(random_range_u32(&mut self.rng, MIN_PARTIAL_FRACTION_PPM, PPM));
            }
        }
        assert(draws_allowed(self.config, *intent, next_id, rejected, requoted, partial_fraction));
        let (price, filled_qty) = match fill_outcome(
            &self.config,
            intent,
            next_id,
            rejected,
            requoted,
            partial_fraction,
        ) {
            Ok(fill) => fill,
            Err(e) => {
                return Err(e);
            },
        };
        let broker_order_id = self.next_broker_order_id;
        let mut book = HashMap::new();
        std::mem::swap(&mut book, &mut self.positions);
        book.insert(
            broker_order_id,
            OpenPosition {
                symbol_id: intent.symbol_id,
                side: intent.side,
                qty: filled_qty,
                avg_price: price,
                sl: intent.sl,
                tp: intent.tp,
            },
        );
        let mut events = VecDeque::new();
        std::mem::swap(&mut events, &mut self.pending_events);
        events.push_back(
            ExecEvent::Fill {
                client_id: intent.client_id,
                broker_order_id,
                fill_price: price,
                qty: filled_qty,
                ts_ns: 0,
            },
        );
        self.pending_events = events;
        self.next_broker_order_id = broker_order_id + 1;
        self.positions = book;
        proof {
            let id = broker_order_id;
            let pos = self.positions@[id];
            assert(pos == booked_position(*intent, filled_qty, price));
            assert(self.positions@ == old(self).positions@.insert(id, booked_position(*intent, pos.qty, pos.avg_price)));
        }
        Ok(broker_order_id)
    }

    fn modify(&mut self, id: BrokerOrderId, sl: Option<i64>, tp: Option<i64>) -> (r: PortResult<()>)
        ensures
            Self::modify_post(*old(self), id, sl, tp, r, *final(self)),

    {
        proof {
            use_type_invariant(&*self);
        }
        let mut book = HashMap::new();
        std::mem::swap(&mut book, &mut self.positions);
        let r = match book.remove(&id) {
            None => Err(PortError::Adapter("unknown order".to_owned())),
            Some(pos) => {
                let updated = OpenPosition { sl, tp, ..pos };
                book.insert(id, updated);
                let mut events = VecDeque::new();
                std::mem::swap(&mut events, &mut self.pending_events);
                events.push_back(ExecEvent::Modify { broker_order_id: id, sl, tp, ts_ns: 0 });
                self.pending_events = events;
                assert(book@ =~= old(self).positions@.insert(id, updated));
                Ok(())
            },
        };
        assert(r is Err ==> book@ =~= old(self).positions@);
        self.positions = book;
        r
    }

    fn close(&mut self, id: BrokerOrderId, qty: Option<i64>) -> (r: PortResult<()>)
        ensures
            Self::close_post(*old(self), id, qty, r, *final(self)),

    {
        proof {
            use_type_invariant(&*self);
        }
        let mut book = HashMap::new();
        std::mem::swap(&mut book, &mut self.positions);
        let r = match book.remove(&id) {
            None => {
                assert(book@ =~= old(self).positions@);
                Err(PortError::Adapter("unknown order".to_owned()))
            },
            Some(pos) => {
                match qty {
                    Some(q) if q < pos.qty => {
                        match pos.qty.checked_sub(q) {
                            Some(left) => {
                                let updated = OpenPosition { qty: left, ..pos };
                                book.insert(id, updated);
                                assert(book@ =~= old(self).positions@.insert(id, updated));
                                Ok(())
                            },
                            None => {
                                book.insert(id, pos);
                                assert(book@ =~= old(self).positions@);
                                Err(PortError::Adapter("close quantity out of range".to_owned()))
                            },
                        }
                    },
                    _ => Ok(()),
                }
            },
        };
        self.positions = book;
        r
    }

    fn poll_event(&mut self) -> (r: Option<ExecEvent>)
        ensures
            Self::poll_post(*old(self), r, *final(self)),

    {
        proof {
            use_type_invariant(&*self);
        }
        let mut events = VecDeque::new();
        std::mem::swap(&mut events, &mut self.pending_events);
        let r = events.pop_front();
        self.pending_events = events;
        r
    }

    fn account(&self) -> (r: AccountSnapshot)
        ensures
            r == (AccountSnapshot {
                equity: self.config().starting_equity,
                balance: self.config().starting_equity,
                free_margin: self.config().starting_equity,
            }),
    {
        AccountSnapshot {
            equity: self.config.starting_equity,
            balance: self.config.starting_equity,
            free_margin: self.config.starting_equity,
        }
    }

    fn constraints(&self, _sym: SymbolId) -> (r: PortResult<SymbolConstraints>)
        ensures
            r == PortResult::<SymbolConstraints>::Ok(
                SymbolConstraints { min_lot: 1, lot_step: 1, stop_level_points: 10 },
            ),
    {
        Ok(SymbolConstraints { min_lot: 1, lot_step: 1, stop_level_points: 10 })
    }

    fn positions(&self) -> (r: PortResult<Vec<PositionSnapshot>>)
        ensures
            r matches Ok(v) && lists_book(self.book(), v@),
    {
        let mut out: Vec<PositionSnapshot> = Vec::new();
        let entries = self.positions.iter();
        let ghost items = entries.remaining();
        for (id, p) in it: entries
            invariant
                it.seq() == items,
                out@.len() == it.index(),
                forall|i: int|
                    0 <= i < it.index() ==> #[trigger] out@[i] == snapshot_of(*items[i].0, *items[i].1),
        {
            out.push(
                PositionSnapshot { broker_order_id: *id, symbol_id: p.symbol_id, qty: p.qty, avg_price: p.avg_price },
            );
        }
        proof {
            let book = self.positions@;
            assert(items.no_duplicates());
            assert(items.len() == book.dom().len());
            assert forall|i: int| 0 <= i < out@.len() implies book.contains_key(#[trigger] out@[i].broker_order_id)
                && out@[i] == snapshot_of(out@[i].broker_order_id, book[out@[i].broker_order_id]) by {
                assert(book.contains_key(*items[i].0) && book[*items[i].0] == *items[i].1);
            }
            assert forall|i: int, j: int|
                0 <= i < out@.len() && 0 <= j < out@.len() && i != j implies #[trigger] out@[i].broker_order_id
                != #[trigger] out@[j].broker_order_id by {
                assert(book.contains_key(*items[i].0) && book[*items[i].0] == *items[i].1);
                assert(book.contains_key(*items[j].0) && book[*items[j].0] == *items[j].1);
                if *items[i].0 == *items[j].0 {
                    assert(items[i] == items[j]);
                }
            }
            assert forall|k: BrokerOrderId| #[trigger] book.contains_key(k) implies exists|i: int|
                0 <= i < out@.len() && out@[i].broker_order_id == k by {
                assert(items.contains((&k, &book[k])));
                let i = choose|i: int| 0 <= i < items.len() && items[i] == (&k, &book[k]);
                assert(out@[i].broker_order_id == k);
            }
        }
        Ok(out)
    }
}

/// The id of an accepted submit; nothing for a refused one.
pub open spec fn accepted_id(r: PortResult<BrokerOrderId>) -> Option<BrokerOrderId> {
    match r {
        Ok(id) => Some(id),
        Err(_) => None,
    }
}

/// How one call moves the order ids on: a call that accepted an order
/// handed out the next id and moved past it, any other call left it.
pub open spec fn id_step(before: SimBroker, after: SimBroker, accepted: Option<BrokerOrderId>) -> bool {
    match accepted {
        Some(id) => id == before.next_id() && after.next_id() == id + 1,
        None => after.next_id() == before.next_id(),
    }
}

/// Every call is an `id_step`: a submit with the id it accepted, if any,
/// and `modify`, `close` and `poll_event` with none (`force_next_rejects`
/// keeps the next id too).
pub proof fn lemma_each_call_is_an_id_step(before: SimBroker, after: SimBroker)
    ensures
        forall|intent: OrderIntent, r: PortResult<BrokerOrderId>| #[trigger]
            SimBroker::submit_post(before, intent, r, after) ==> id_step(before, after, accepted_id(r)),
        forall|id: BrokerOrderId, sl: Option<i64>, tp: Option<i64>, r: PortResult<()>| #[trigger]
            SimBroker::modify_post(before, id, sl, tp, r, after) ==> id_step(before, after, None),
        forall|id: BrokerOrderId, qty: Option<i64>, r: PortResult<()>| #[trigger]
            SimBroker::close_post(before, id, qty, r, after) ==> id_step(before, after, None),
        forall|r: Option<ExecEvent>| #[trigger] SimBroker::poll_post(before, r, after) ==> id_step(before, after, None),
{
}

/// Over any run of calls on one broker, accepted submits get consecutive
/// ids: the one accepted at call `i` gets the broker's next id plus the
/// number accepted before it, so a new broker gives ids 1, 2, 3, ... in
/// the order it accepts, and never the same id twice.
pub proof fn lemma_accepted_ids_count_up(states: Seq<SimBroker>, accepted: Seq<Option<BrokerOrderId>>)
    requires
        states.len() == accepted.len() + 1,
        forall|i: int| 0 <= i < accepted.len() ==> id_step(states[i], states[i + 1], #[trigger] accepted[i]),
    ensures
        forall|i: int|
            0 <= i < accepted.len() ==> (#[trigger] accepted[i] matches Some(id) ==> id == states[0].next_id()
                + yielded(accepted.take(i)).len()),
        states.last().next_id() == states[0].next_id() + yielded(accepted).len(),
{
    let next = Seq::new(states.len(), |i: int| states[i].next_id() as int);
    assert(counts_up(next, accepted)) by {
        assert forall|i: int| 0 <= i < accepted.len() implies match #[trigger] accepted[i] {
            Some(v) => v == next[i] && next[i + 1] == next[i] + 1,
            None => next[i + 1] == next[i],
        } by {
            assert(id_step(states[i], states[i + 1], accepted[i]));
        }
    }
    lemma_counting_run(next, accepted);
}

} // verus!
