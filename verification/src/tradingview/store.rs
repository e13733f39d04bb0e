//! The bars behind the TradingView adapter: every authenticated alert is
//! folded into native one-minute bars per symbol, and history requests are
//! served by resampling those bars up to the requested timeframe.

use std::collections::HashMap;

use vstd::prelude::*;

use crate::domain::{Bar, SymbolId, Tick, Timeframe};
use crate::market_data::bar_aggregator::{tick_volume, BarAggregator};
use super::udf::{history_window, resample, resampled, volumes_fit, window_of};

verus! {

broadcast use vstd::std_specs::hash::group_hash_axioms;

/// Alerts are folded into one-minute bars; coarser resolutions are served
/// by resampling this native resolution up.
pub const NATIVE_TIMEFRAME_SECONDS: u32 = 60;

/// Length in seconds of a `Timeframe`.
pub open spec fn timeframe_seconds_of(tf: Timeframe) -> u32 {
    match tf {
        Timeframe::M1 => 60,
        Timeframe::M5 => 300,
        Timeframe::M15 => 900,
        Timeframe::H1 => 3_600,
        Timeframe::H4 => 14_400,
        Timeframe::D1 => 86_400,
    }
}

/// Each timeframe lasts as long as its name says: one and five and
/// fifteen minutes, one and four hours, one day; and a longer timeframe
/// is a whole multiple of each shorter one, so its buckets hold whole
/// buckets of the shorter.
pub proof fn lemma_timeframe_lengths()
    ensures
        timeframe_seconds_of(Timeframe::M1) == 60,
        timeframe_seconds_of(Timeframe::M5) == 5 * 60,
        timeframe_seconds_of(Timeframe::M15) == 15 * 60,
        timeframe_seconds_of(Timeframe::H1) == 60 * 60,
        timeframe_seconds_of(Timeframe::H4) == 4 * 60 * 60,
        timeframe_seconds_of(Timeframe::D1) == 24 * 60 * 60,
        timeframe_seconds_of(Timeframe::M5) % timeframe_seconds_of(Timeframe::M1) == 0,
        timeframe_seconds_of(Timeframe::M15) % timeframe_seconds_of(Timeframe::M5) == 0,
        timeframe_seconds_of(Timeframe::H1) % timeframe_seconds_of(Timeframe::M15) == 0,
        timeframe_seconds_of(Timeframe::H4) % timeframe_seconds_of(Timeframe::H1) == 0,
        timeframe_seconds_of(Timeframe::D1) % timeframe_seconds_of(Timeframe::H4) == 0,
{
    vstd::arithmetic::div_mod::lemma_mod_multiples_basic(4, 900);
    vstd::arithmetic::div_mod::lemma_mod_multiples_basic(4, 3_600);
    vstd::arithmetic::div_mod::lemma_mod_multiples_basic(6, 14_400);
    vstd::arithmetic::div_mod::lemma_mod_multiples_basic(3, 300);
    vstd::arithmetic::div_mod::lemma_mod_multiples_basic(5, 60);
}

pub fn timeframe_to_seconds(tf: Timeframe) -> (r: u32)
    ensures
        r == timeframe_seconds_of(tf),
        tf == Timeframe::M1 ==> r == 60,
        tf == Timeframe::M5 ==> r == 5 * 60,
        tf == Timeframe::M15 ==> r == 15 * 60,
        tf == Timeframe::H1 ==> r == 60 * 60,
        tf == Timeframe::H4 ==> r == 4 * 60 * 60,
        tf == Timeframe::D1 ==> r == 24 * 60 * 60,
{
    match tf {
        Timeframe::M1 => 60,
        Timeframe::M5 => 300,
        Timeframe::M15 => 900,
        Timeframe::H1 => 3_600,
        Timeframe::H4 => 14_400,
        Timeframe::D1 => 86_400,
    }
}

/// A UDF query bound in seconds, as nanoseconds; negative bounds count as 0.
pub open spec fn udf_bound_ns(secs: i64) -> int {
    if secs < 0 {
        0
    } else {
        secs * 1_000_000_000
    }
}

pub fn udf_seconds_to_ns(secs: i64) -> (r: u64)
    requires
        udf_bound_ns(secs) <= u64::MAX,
    ensures
        r == udf_bound_ns(secs),
{
    let s: u64 = if secs < 0 {
        0
    } else {
        secs as u64
    };
    s * 1_000_000_000
}

/// Every bar in `bars` carries zero volume.
pub open spec fn volumeless(bars: Seq<Bar>) -> bool {
    forall|i: int| 0 <= i < bars.len() ==> (#[trigger] bars[i]).volume == 0
}

/// Resampling volumeless bars yields volumeless bars.
pub proof fn lemma_resampled_volumeless(bars: Seq<Bar>, target_seconds: u32)
    requires
        volumeless(bars),
    ensures
        volumeless(resampled(bars, target_seconds)),
    decreases bars.len(),
{
    if bars.len() > 0 {
        let prefix = bars.drop_last();
        assert(volumeless(prefix)) by {
            assert forall|i: int| 0 <= i < prefix.len() implies (#[trigger] prefix[i]).volume == 0 by {
                assert(prefix[i] == bars[i]);
            }
        }
        lemma_resampled_volumeless(prefix, target_seconds);
    }
}

/// Volumeless bars never overflow a bucket's volume when resampled.
pub proof fn lemma_volumeless_volumes_fit(bars: Seq<Bar>, target_seconds: u32)
    requires
        volumeless(bars),
    ensures
        volumes_fit(bars, target_seconds),
{
    assert forall|i: int|
        0 <= i < bars.len() && super::udf::joins_last(resampled(#[trigger] bars.take(i), target_seconds), bars[i], target_seconds)
        implies resampled(bars.take(i), target_seconds).last().volume + bars[i].volume <= u64::MAX by {
        let prefix = bars.take(i);
        assert(volumeless(prefix)) by {
            assert forall|j: int| 0 <= j < prefix.len() implies (#[trigger] prefix[j]).volume == 0 by {
                assert(prefix[j] == bars[j]);
            }
        }
        lemma_resampled_volumeless(prefix, target_seconds);
        let out = resampled(prefix, target_seconds);
        assert(out[out.len() - 1].volume == 0);
    }
}

/// The bars of one symbol: the closed ones, oldest first, and the one
/// still being built.
pub struct SymbolBars {
    aggregator: BarAggregator,
    history: Vec<Bar>,
}

impl SymbolBars {
    pub closed spec fn closed_bars(self) -> Seq<Bar> {
        self.history@
    }

    pub closed spec fn aggregator(self) -> BarAggregator {
        self.aggregator
    }
}

/// Every symbol's bars, built from alerts.
pub struct AlertBarStore {
    bars: HashMap<SymbolId, SymbolBars>,
}

impl AlertBarStore {
    #[verifier::type_invariant]
    spec fn well_formed(self) -> bool {
        forall|sym: SymbolId| #[trigger]
            self.bars@.contains_key(sym) ==> {
                let s = self.bars@[sym];
                &&& volumeless(s.history@)
                &&& s.aggregator.symbol() == sym
                &&& s.aggregator.timeframe() == NATIVE_TIMEFRAME_SECONDS
                &&& s.aggregator.current_bar() matches Some(b) ==> b.volume == 0
            }
    }

    /// The bars kept for every symbol that has seen an alert.
    pub closed spec fn symbols(self) -> Map<SymbolId, SymbolBars> {
        self.bars@
    }

    pub fn new() -> (r: Self)
        ensures
            r.symbols() == Map::<SymbolId, SymbolBars>::empty(),
    {
        AlertBarStore { bars: HashMap::new() }
    }

    /// Folds one alert tick into its symbol's bars, opening a fresh
    /// one-minute aggregator the first time the symbol is seen; a bar the
    /// tick closes joins the symbol's history.
    pub fn ingest(&mut self, tick: &Tick)
        requires
            tick.has_mid(),
            tick_volume(*tick) == 0,
        ensures
            final(self).symbols().dom() == old(self).symbols().dom().insert(tick.symbol_id),
            final(self).symbols().remove(tick.symbol_id) == old(self).symbols().remove(tick.symbol_id),
            ({
                let sym = tick.symbol_id;
                let after = final(self).symbols()[sym];
                if old(self).symbols().contains_key(sym) {
                    let before = old(self).symbols()[sym];
                    // The symbol's aggregator takes the tick as `on_tick`
                    // does; a bar it closes joins the history.
                    exists|closed: Option<Bar>|
                        {
                            &&& #[trigger] BarAggregator::on_tick_post(
                                before.aggregator(),
                                *tick,
                                closed,
                                after.aggregator(),
                            )
                            &&& after.closed_bars() == match closed {
                                Some(b) => before.closed_bars().push(b),
                                None => before.closed_bars(),
                            }
                        }
                } else {
                    // A fresh one-minute aggregator opens its first bar.
                    &&& after.closed_bars() == Seq::<Bar>::empty()
                    &&& after.aggregator().symbol() == sym
                    &&& after.aggregator().timeframe() == NATIVE_TIMEFRAME_SECONDS
                    &&& after.aggregator().current_bar() == Some(
                        crate::market_data::bar_aggregator::opened_bar(sym, NATIVE_TIMEFRAME_SECONDS, *tick),
                    )
                }
            }),
    {
        proof {
            use_type_invariant(&*self);
        }
        let sym = tick.symbol_id;
        let mut map = HashMap::new();
        std::mem::swap(&mut map, &mut self.bars);
        let mut entry = match map.remove(&sym) {
            Some(e) => e,
            None => SymbolBars { aggregator: BarAggregator::new(sym, NATIVE_TIMEFRAME_SECONDS), history: Vec::new() },
        };
        let ghost entry0 = entry;
        let closed = entry.aggregator.on_tick(tick);
        if let Some(bar) = closed {
            entry.history.push(bar);
        }
        assert(BarAggregator::on_tick_post(entry0.aggregator, *tick, closed, entry.aggregator));
        assert(entry.history@ == match closed {
            Some(b) => entry0.history@.push(b),
            None => entry0.history@,
        });
        assert(old(self).bars@.contains_key(sym) ==> entry0 == old(self).bars@[sym]);
        map.insert(sym, entry);
        assert(map@[sym] == entry);
        assert(map@.remove(sym) =~= old(self).bars@.remove(sym));
        assert(map@.dom() =~= old(self).bars@.dom().insert(sym));
        self.bars = map;
        proof {
            let after = self.bars@[sym];
            assert(after.aggregator() == entry.aggregator);
            if old(self).bars@.contains_key(sym) {
                let before = old(self).symbols()[sym];
                assert(before.aggregator() == entry0.aggregator);
                assert(BarAggregator::on_tick_post(before.aggregator(), *tick, closed, after.aggregator()));
            } else {
                assert(entry0.history@ =~= Seq::<Bar>::empty());
            }
        }
    }

    /// The closed bars of `sym` resampled to `target_seconds`, limited to
    /// those opening within `[from_ns, to_ns]`; empty for a symbol that has
    /// seen no alert.
    pub fn history(&self, sym: SymbolId, target_seconds: u32, from_ns: u64, to_ns: u64) -> (r: Vec<Bar>)
        requires
            target_seconds > 0,
        ensures
            !self.symbols().contains_key(sym) ==> r@.len() == 0,
            self.symbols().contains_key(sym) ==> r@ == window_of(
                resampled(self.symbols()[sym].closed_bars(), target_seconds),
                from_ns,
                to_ns,
            ),
    {
        proof {
            use_type_invariant(self);
        }
        match self.bars.get(&sym) {
            None => Vec::new(),
            Some(entry) => {
                proof {
                    lemma_volumeless_volumes_fit(entry.history@, target_seconds);
                }
                let coarse = resample(entry.history.as_slice(), target_seconds);
                history_window(coarse.as_slice(), from_ns, to_ns)
            },
        }
    }
}

} // verus!
