use vstd::prelude::*;

use crate::domain::{Bar, SymbolId, Tick};

verus! {

pub const NANOS_PER_SECOND: u64 = 1_000_000_000;

/// Length of a `timeframe_seconds` bucket in nanoseconds.
pub open spec fn timeframe_ns(timeframe_seconds: u32) -> int {
    timeframe_seconds * NANOS_PER_SECOND
}

/// Start of the `timeframe_seconds` bucket holding `ts_ns`.
pub open spec fn bucket_start(timeframe_seconds: u32, ts_ns: u64) -> int {
    (ts_ns as int / timeframe_ns(timeframe_seconds)) * timeframe_ns(timeframe_seconds)
}

/// Volume a tick contributes to its bar.
pub open spec fn tick_volume(tick: Tick) -> int {
    tick.bid_volume + tick.ask_volume
}

/// The bar a tick opens: every price at the tick's mid.
pub open spec fn opened_bar(symbol_id: SymbolId, timeframe_seconds: u32, tick: Tick) -> Bar {
    Bar {
        symbol_id,
        timeframe_seconds,
        ts_open_ns: bucket_start(timeframe_seconds, tick.ts_ns) as u64,
        open: tick.spec_mid() as i64,
        high: tick.spec_mid() as i64,
        low: tick.spec_mid() as i64,
        close: tick.spec_mid() as i64,
        volume: tick_volume(tick) as u64,
    }
}

/// `bar` after folding in a tick of the same bucket.
pub open spec fn folded_bar(bar: Bar, tick: Tick) -> Bar {
    Bar {
        high: if tick.spec_mid() > bar.high { tick.spec_mid() as i64 } else { bar.high },
        low: if tick.spec_mid() < bar.low { tick.spec_mid() as i64 } else { bar.low },
        close: tick.spec_mid() as i64,
        volume: (bar.volume + tick_volume(tick)) as u64,
        ..bar
    }
}

/// Open and close lie between low and high.
pub open spec fn bar_is_consistent(bar: Bar) -> bool {
    &&& bar.low <= bar.open <= bar.high
    &&& bar.low <= bar.close <= bar.high
}

/// Folds ticks into fixed-timeframe OHLCV bars, one aggregator per symbol.
pub struct BarAggregator {
    symbol_id: SymbolId,
    timeframe_seconds: u32,
    current: Option<Bar>,
}

impl BarAggregator {
    #[verifier::type_invariant]
    spec fn well_formed(self) -> bool {
        &&& self.timeframe_seconds > 0
        &&& self.current matches Some(b) ==> {
            &&& bar_is_consistent(b)
            &&& b.symbol_id == self.symbol_id
            &&& b.timeframe_seconds == self.timeframe_seconds
            &&& b.ts_open_ns as int % timeframe_ns(self.timeframe_seconds) == 0
        }
    }

    pub closed spec fn symbol(self) -> SymbolId {
        self.symbol_id
    }

    pub closed spec fn timeframe(self) -> u32 {
        self.timeframe_seconds
    }

    /// The bar still being built, if any tick has arrived.
    pub closed spec fn current_bar(self) -> Option<Bar> {
        self.current
    }

    /// Every tick `on_tick` accepts from this state: its mid price and its
    /// volume are representable, and folding it in cannot overflow the
    /// open bar's volume.
    pub open spec fn accepts(self, tick: Tick) -> bool {
        &&& tick.has_mid()
        &&& tick_volume(tick) <= u32::MAX
        &&& (self.current_bar() matches Some(b) ==> b.volume + tick_volume(tick) <= u64::MAX)
    }

    pub fn new(symbol_id: SymbolId, timeframe_seconds: u32) -> (r: Self)
        requires
            timeframe_seconds > 0,
        ensures
            r.symbol() == symbol_id,
            r.timeframe() == timeframe_seconds,
            r.current_bar() is None,
    {
        BarAggregator { symbol_id, timeframe_seconds, current: None }
    }

    /// The bar still being built.
    pub fn current(&self) -> (r: Option<Bar>)
        ensures
            r == self.current_bar(),
            r matches Some(b) ==> bar_is_consistent(b) && b.symbol_id == self.symbol()
                && b.timeframe_seconds == self.timeframe(),
    {
        proof {
            use_type_invariant(self);
        }
        self.current
    }

    fn bucket_start_ns(&self, ts_ns: u64) -> (r: u64)
        ensures
            r == bucket_start(self.timeframe(), ts_ns),
            r as int % timeframe_ns(self.timeframe()) == 0,
    {
        proof {
            use_type_invariant(self);
        }
        let tf_ns: u64 = self.timeframe_seconds as u64 * 1_000_000_000;
        let q = ts_ns / tf_ns;
        assert(q * tf_ns <= ts_ns) by (nonlinear_arith)
            requires
                q == ts_ns / tf_ns,
                tf_ns > 0,
        ;
        assert((q * tf_ns) % (tf_ns as int) == 0) by (nonlinear_arith)
            requires
                tf_ns > 0,
                q >= 0,
        ;
        q * tf_ns
    }

    /// What one `on_tick` does: a tick of the open bar's bucket folds into
    /// it; a tick of another bucket closes the open bar, hands it back and
    /// opens a new one; the first tick opens the first bar.
    pub open spec fn on_tick_post(before: BarAggregator, tick: Tick, r: Option<Bar>, after: BarAggregator) -> bool {
        &&& after.symbol() == before.symbol()
        &&& after.timeframe() == before.timeframe()
        &&& match before.current_bar() {
            Some(b) => if b.ts_open_ns == bucket_start(before.timeframe(), tick.ts_ns) {
                // Same bucket: the open bar absorbs the tick.
                &&& r is None
                &&& after.current_bar() == Some(folded_bar(b, tick))
            } else {
                // New bucket: the open bar is closed and handed back.
                &&& r == Some(b)
                &&& after.current_bar() == Some(opened_bar(before.symbol(), before.timeframe(), tick))
            },
            None => {
                &&& r is None
                &&& after.current_bar() == Some(opened_bar(before.symbol(), before.timeframe(), tick))
            },
        }
        &&& r matches Some(b) ==> bar_is_consistent(b)
    }

    /// Feeds one tick in. Returns the just-closed bar when `tick` belongs to
    /// a new bucket.
    pub fn on_tick(&mut self, tick: &Tick) -> (r: Option<Bar>)
        requires
            old(self).accepts(*tick),
        ensures
            Self::on_tick_post(*old(self), *tick, r, *final(self)),
    {
        proof {
            use_type_invariant(&*self);
        }
        let bucket = self.bucket_start_ns(tick.ts_ns);
        let mid = tick.mid();
        let volume: u64 = (tick.bid_volume + tick.ask_volume) as u64;
        match self.current {
            Some(bar) => {
                if bar.ts_open_ns == bucket {
                    let high = if mid > bar.high { mid } else { bar.high };
                    let low = if mid < bar.low { mid } else { bar.low };
                    self.current = Some(Bar { high, low, close: mid, volume: bar.volume + volume, ..bar });
                    None
                } else {
                    self.current = Some(
                        Bar {
                            symbol_id: self.symbol_id,
                            timeframe_seconds: self.timeframe_seconds,
                            ts_open_ns: bucket,
                            open: mid,
                            high: mid,
                            low: mid,
                            close: mid,
                            volume,
                        },
                    );
                    Some(bar)
                }
            },
            None => {
                self.current = Some(
                    Bar {
                        symbol_id: self.symbol_id,
                        timeframe_seconds: self.timeframe_seconds,
                        ts_open_ns: bucket,
                        open: mid,
                        high: mid,
                        low: mid,
                        close: mid,
                        volume,
                    },
                );
                None
            },
        }
    }
}

/// Whether two ticks fall into the same `timeframe_seconds` bucket.
pub open spec fn same_bucket(timeframe_seconds: u32, a: Tick, b: Tick) -> bool {
    bucket_start(timeframe_seconds, a.ts_ns) == bucket_start(timeframe_seconds, b.ts_ns)
}

/// Index where the last run of consecutive same-bucket ticks begins.
pub open spec fn trailing_run_start(timeframe_seconds: u32, ticks: Seq<Tick>) -> int
    decreases ticks.len(),
{
    if ticks.len() <= 1 {
        0
    } else if same_bucket(timeframe_seconds, ticks[ticks.len() - 2], ticks.last()) {
        trailing_run_start(timeframe_seconds, ticks.drop_last())
    } else {
        ticks.len() - 1
    }
}

/// The last run of consecutive ticks that share a bucket.
pub open spec fn trailing_run(timeframe_seconds: u32, ticks: Seq<Tick>) -> Seq<Tick> {
    ticks.subrange(trailing_run_start(timeframe_seconds, ticks), ticks.len() as int)
}

/// Highest mid price of a non-empty run of ticks.
pub open spec fn highest_mid(run: Seq<Tick>) -> int
    decreases run.len(),
{
    if run.len() <= 1 {
        run[0].spec_mid()
    } else if run.last().spec_mid() > highest_mid(run.drop_last()) {
        run.last().spec_mid()
    } else {
        highest_mid(run.drop_last())
    }
}

/// Lowest mid price of a non-empty run of ticks.
pub open spec fn lowest_mid(run: Seq<Tick>) -> int
    decreases run.len(),
{
    if run.len() <= 1 {
        run[0].spec_mid()
    } else if run.last().spec_mid() < lowest_mid(run.drop_last()) {
        run.last().spec_mid()
    } else {
        lowest_mid(run.drop_last())
    }
}

/// Summed volume of a run of ticks.
pub open spec fn run_volume(run: Seq<Tick>) -> int
    decreases run.len(),
{
    if run.len() == 0 {
        0
    } else {
        run_volume(run.drop_last()) + tick_volume(run.last())
    }
}

/// The bar of a non-empty run of same-bucket ticks: opened at their bucket,
/// first mid as open, last mid as close, highest and lowest mid, summed volume.
pub open spec fn run_bar(symbol_id: SymbolId, timeframe_seconds: u32, run: Seq<Tick>) -> Bar {
    Bar {
        symbol_id,
        timeframe_seconds,
        ts_open_ns: bucket_start(timeframe_seconds, run[0].ts_ns) as u64,
        open: run[0].spec_mid() as i64,
        high: highest_mid(run) as i64,
        low: lowest_mid(run) as i64,
        close: run.last().spec_mid() as i64,
        volume: run_volume(run) as u64,
    }
}

/// `aggs[0]` is a fresh aggregator fed `ticks` one `on_tick` at a time:
/// `aggs[i + 1]` is the state after `ticks[i]`, which handed back `closed[i]`.
pub open spec fn fed_in_turn(ticks: Seq<Tick>, aggs: Seq<BarAggregator>, closed: Seq<Option<Bar>>) -> bool {
    &&& aggs.len() == ticks.len() + 1
    &&& closed.len() == ticks.len()
    &&& aggs[0].timeframe() > 0
    &&& aggs[0].current_bar() is None
    &&& forall|i: int|
        0 <= i < ticks.len() ==> #[trigger] aggs[i].accepts(ticks[i]) && BarAggregator::on_tick_post(
            aggs[i],
            ticks[i],
            closed[i],
            aggs[i + 1],
        )
}

proof fn lemma_single_tick_run(symbol_id: SymbolId, timeframe_seconds: u32, t: Tick)
    ensures
        run_bar(symbol_id, timeframe_seconds, seq![t]) == opened_bar(symbol_id, timeframe_seconds, t),
        run_volume(seq![t]) == tick_volume(t),
{
    let run = seq![t];
    assert(run[0] == t);
    assert(run.last() == t);
    assert(run.drop_last() =~= Seq::<Tick>::empty());
    assert(run_volume(Seq::<Tick>::empty()) == 0);
    assert(run_volume(run) == tick_volume(t));
    assert(highest_mid(run) == t.spec_mid());
    assert(lowest_mid(run) == t.spec_mid());
}

proof fn lemma_run_volume_nonneg(run: Seq<Tick>)
    ensures
        run_volume(run) >= 0,
    decreases run.len(),
{
    if run.len() > 0 {
        lemma_run_volume_nonneg(run.drop_last());
    }
}

proof fn lemma_mid_in_range(tick: Tick)
    requires
        tick.has_mid(),
    ensures
        i64::MIN <= tick.spec_mid() <= i64::MAX,
{
}

proof fn lemma_trailing_run_facts(timeframe_seconds: u32, ticks: Seq<Tick>)
    requires
        ticks.len() > 0,
    ensures
        0 <= trailing_run_start(timeframe_seconds, ticks) < ticks.len(),
        same_bucket(timeframe_seconds, ticks[trailing_run_start(timeframe_seconds, ticks)], ticks.last()),
    decreases ticks.len(),
{
    if ticks.len() > 1 && same_bucket(timeframe_seconds, ticks[ticks.len() - 2], ticks.last()) {
        let prefix = ticks.drop_last();
        lemma_trailing_run_facts(timeframe_seconds, prefix);
        let j = trailing_run_start(timeframe_seconds, prefix);
        assert(prefix[j] == ticks[j]);
        assert(prefix.last() == ticks[ticks.len() - 2]);
    }
}

proof fn lemma_run_extremes_in_range(run: Seq<Tick>)
    requires
        run.len() > 0,
        forall|i: int| 0 <= i < run.len() ==> (#[trigger] run[i]).has_mid(),
    ensures
        i64::MIN <= highest_mid(run) <= i64::MAX,
        i64::MIN <= lowest_mid(run) <= i64::MAX,
    decreases run.len(),
{
    lemma_mid_in_range(run[0]);
    lemma_mid_in_range(run.last());
    if run.len() > 1 {
        let prefix = run.drop_last();
        assert forall|i: int| 0 <= i < prefix.len() implies (#[trigger] prefix[i]).has_mid() by {
            assert(prefix[i] == run[i]);
        }
        lemma_run_extremes_in_range(prefix);
    }
}

/// What the aggregator holds after the first `k` ticks of a run that
/// `fed_in_turn` describes.
proof fn lemma_fed_prefix(ticks: Seq<Tick>, aggs: Seq<BarAggregator>, closed: Seq<Option<Bar>>, k: int)
    requires
        fed_in_turn(ticks, aggs, closed),
        1 <= k <= ticks.len(),
    ensures
        aggs[k].symbol() == aggs[0].symbol(),
        aggs[k].timeframe() == aggs[0].timeframe(),
        aggs[k].current_bar() == Some(
            run_bar(aggs[0].symbol(), aggs[0].timeframe(), trailing_run(aggs[0].timeframe(), ticks.take(k))),
        ),
        run_volume(trailing_run(aggs[0].timeframe(), ticks.take(k))) <= u64::MAX,
        closed[k - 1] == if k > 1 && !same_bucket(aggs[0].timeframe(), ticks[k - 2], ticks[k - 1]) {
            Some(run_bar(aggs[0].symbol(), aggs[0].timeframe(), trailing_run(aggs[0].timeframe(), ticks.take(k - 1))))
        } else {
            None::<Bar>
        },
    decreases k,
{
    let sym = aggs[0].symbol();
    let tf = aggs[0].timeframe();
    let t = ticks[k - 1];
    let cur = ticks.take(k);
    assert(aggs[k - 1].accepts(ticks[k - 1]));
    lemma_mid_in_range(t);
    assert(cur.last() == t);
    lemma_bucket_start_facts(tf, t.ts_ns, t.ts_ns);
    if k == 1 {
        assert(trailing_run(tf, cur) =~= seq![t]);
        lemma_single_tick_run(sym, tf, t);
    } else {
        lemma_fed_prefix(ticks, aggs, closed, k - 1);
        let prev = ticks.take(k - 1);
        let old_run = trailing_run(tf, prev);
        lemma_trailing_run_facts(tf, prev);
        assert(cur.drop_last() =~= prev);
        assert(cur[cur.len() - 2] == ticks[k - 2]);
        assert(prev.last() == ticks[k - 2]);
        let j = trailing_run_start(tf, prev);
        assert(old_run[0] == prev[j]);
        lemma_bucket_start_facts(tf, prev[j].ts_ns, prev[j].ts_ns);
        assert(forall|i: int| 0 <= i < old_run.len() ==> old_run[i] == ticks[j + i]);
        assert forall|i: int| 0 <= i < old_run.len() implies (#[trigger] old_run[i]).has_mid() by {
            assert(aggs[j + i].accepts(ticks[j + i]));
        }
        lemma_run_extremes_in_range(old_run);
        if same_bucket(tf, ticks[k - 2], t) {
            let new_run = trailing_run(tf, cur);
            assert(trailing_run_start(tf, cur) == j);
            assert(new_run =~= old_run.push(t));
            assert(new_run.drop_last() =~= old_run);
            assert(new_run[0] == old_run[0]);
            lemma_run_volume_nonneg(old_run);
            assert(run_bar(sym, tf, new_run) == folded_bar(run_bar(sym, tf, old_run), t));
        } else {
            assert(trailing_run(tf, cur) =~= seq![t]);
            lemma_single_tick_run(sym, tf, t);
        }
    }
}

/// Fed tick after tick, an aggregator always holds the bar of the last run
/// of same-bucket ticks, and a tick hands back a closed bar exactly when its
/// bucket differs from the tick before it: the bar of the run that tick ended.
pub proof fn lemma_bars_over_a_run_of_ticks(ticks: Seq<Tick>, aggs: Seq<BarAggregator>, closed: Seq<Option<Bar>>)
    requires
        fed_in_turn(ticks, aggs, closed),
    ensures
        forall|k: int|
            1 <= k <= ticks.len() ==> (#[trigger] aggs[k]).current_bar() == Some(
                run_bar(aggs[0].symbol(), aggs[0].timeframe(), trailing_run(aggs[0].timeframe(), ticks.take(k))),
            ),
        forall|i: int|
            0 <= i < ticks.len() ==> #[trigger] closed[i] == if i > 0 && !same_bucket(
                aggs[0].timeframe(),
                ticks[i - 1],
                ticks[i],
            ) {
                Some(run_bar(aggs[0].symbol(), aggs[0].timeframe(), trailing_run(aggs[0].timeframe(), ticks.take(i))))
            } else {
                None::<Bar>
            },
{
    assert forall|k: int| 1 <= k <= ticks.len() implies (#[trigger] aggs[k]).current_bar() == Some(
        run_bar(aggs[0].symbol(), aggs[0].timeframe(), trailing_run(aggs[0].timeframe(), ticks.take(k))),
    ) by {
        lemma_fed_prefix(ticks, aggs, closed, k);
    }
    assert forall|i: int| 0 <= i < ticks.len() implies #[trigger] closed[i] == if i > 0 && !same_bucket(
        aggs[0].timeframe(),
        ticks[i - 1],
        ticks[i],
    ) {
        Some(run_bar(aggs[0].symbol(), aggs[0].timeframe(), trailing_run(aggs[0].timeframe(), ticks.take(i))))
    } else {
        None::<Bar>
    } by {
        lemma_fed_prefix(ticks, aggs, closed, i + 1);
    }
}

/// A bucket starts on a multiple of its length, at or before the time it
/// holds, and later times lie in buckets that start no earlier.
pub(crate) proof fn lemma_bucket_start_facts(target_seconds: u32, a: u64, b: u64)
    requires
        target_seconds > 0,
    ensures
        bucket_start(target_seconds, a) % timeframe_ns(target_seconds) == 0,
        0 <= bucket_start(target_seconds, a) <= a,
        a <= b ==> bucket_start(target_seconds, a) <= bucket_start(target_seconds, b),
{
    let d = timeframe_ns(target_seconds);
    vstd::arithmetic::div_mod::lemma_mod_multiples_basic(a as int / d, d);
    if a <= b {
        vstd::arithmetic::div_mod::lemma_div_is_ordered(a as int, b as int, d);
        vstd::arithmetic::mul::lemma_mul_inequality(a as int / d, b as int / d, d);
    }
    assert((a as int / d) * d <= a) by (nonlinear_arith)
        requires
            d > 0,
            a >= 0,
    ;
    assert((a as int / d) * d >= 0) by (nonlinear_arith)
        requires
            d > 0,
            a >= 0,
    ;
}

} // verus!
