//! TradingView UDF ("Universal Data Feed") datafeed: resolution strings,
//! resampling of closed bars into coarser buckets, and history windows.

use vstd::prelude::*;

use crate::domain::Bar;
use crate::market_data::bar_aggregator::{bucket_start, lemma_bucket_start_facts, timeframe_ns, NANOS_PER_SECOND};
use crate::strings::str_equal;

verus! {

broadcast use vstd::string::group_string_axioms;

#[derive(Debug, Clone, PartialEq)]
pub struct UdfConfig {
    pub supported_resolutions: Vec<String>,
    pub supports_search: bool,
    pub supports_group_request: bool,
    pub supports_marks: bool,
    pub supports_timescale_marks: bool,
    pub supports_time: bool,
}

/// The resolutions this datafeed serves, as UDF names them.
pub open spec fn supported_resolution_names() -> Seq<Seq<char>> {
    seq!["1"@, "5"@, "15"@, "60"@, "1D"@]
}

/// The resolutions this datafeed serves.
pub fn supported_resolutions() -> (r: Vec<String>)
    ensures
        r@.len() == supported_resolution_names().len(),
        forall|i: int| 0 <= i < r@.len() ==> #[trigger] r@[i]@ == supported_resolution_names()[i],
{
    let mut v: Vec<String> = Vec::new();
    v.push("1".to_string());
    v.push("5".to_string());
    v.push("15".to_string());
    v.push("60".to_string());
    v.push("1D".to_string());
    v
}

impl Default for UdfConfig {
    fn default() -> (r: Self)
        ensures
            r.supported_resolutions@.len() == supported_resolution_names().len(),
            forall|i: int|
                0 <= i < r.supported_resolutions@.len() ==> #[trigger] r.supported_resolutions@[i]@
                    == supported_resolution_names()[i],
            r.supports_search,
            !r.supports_group_request,
            !r.supports_marks,
            !r.supports_timescale_marks,
            r.supports_time,
    {
        UdfConfig {
            supported_resolutions: supported_resolutions(),
            supports_search: true,
            supports_group_request: false,
            supports_marks: false,
            supports_timescale_marks: false,
            supports_time: true,
        }
    }
}

#[derive(Debug, Clone, PartialEq)]
pub struct UdfSymbolInfo {
    pub name: String,
    pub ticker: String,
    /// Serialized as `type`.
    pub kind: String,
    pub session: String,
    pub timezone: String,
    pub exchange: String,
    pub minmov: i64,
    pub pricescale: i64,
    pub has_intraday: bool,
    pub supported_resolutions: Vec<String>,
}

/// The symbol description served for `symbol`: a 24x7 forex instrument on
/// UTC time with intraday bars at every supported resolution.
pub fn symbol_info(symbol: &str, price_scale: i64) -> (r: UdfSymbolInfo)
    ensures
        r.name@ == symbol@,
        r.ticker@ == symbol@,
        r.kind@ == "forex"@,
        r.session@ == "24x7"@,
        r.timezone@ == "Etc/UTC"@,
        r.exchange@ == "TRADEOS"@,
        r.minmov == 1,
        r.pricescale == price_scale,
        r.has_intraday,
        r.supported_resolutions@.len() == supported_resolution_names().len(),
        forall|i: int|
            0 <= i < r.supported_resolutions@.len() ==> #[trigger] r.supported_resolutions@[i]@
                == supported_resolution_names()[i],
{
    UdfSymbolInfo {
        name: symbol.to_owned(),
        ticker: symbol.to_owned(),
        kind: "forex".to_owned(),
        session: "24x7".to_owned(),
        timezone: "Etc/UTC".to_owned(),
        exchange: "TRADEOS".to_owned(),
        minmov: 1,
        pricescale: price_scale,
        has_intraday: true,
        supported_resolutions: UdfConfig::default().supported_resolutions,
    }
}

/// Bar length in seconds of a UDF resolution string.
pub open spec fn resolution_seconds(resolution: Seq<char>) -> Option<u32> {
    if resolution == "1"@ {
        Some(60)
    } else if resolution == "5"@ {
        Some(300)
    } else if resolution == "15"@ {
        Some(900)
    } else if resolution == "60"@ {
        Some(3_600)
    } else if resolution == "1D"@ || resolution == "D"@ {
        Some(86_400)
    } else {
        None
    }
}

/// Maps UDF resolution strings ("1", "5", "60", "1D", ...) onto this
/// project's `timeframe_seconds` bar key.
pub fn resolution_to_timeframe_seconds(resolution: &str) -> (r: Option<u32>)
    ensures
        r == resolution_seconds(resolution@),
{
    if str_equal(resolution, "1") {
        Some(60)
    } else if str_equal(resolution, "5") {
        Some(300)
    } else if str_equal(resolution, "15") {
        Some(900)
    } else if str_equal(resolution, "60") {
        Some(3_600)
    } else if str_equal(resolution, "1D") || str_equal(resolution, "D") {
        Some(86_400)
    } else {
        None
    }
}

/// `last` after absorbing `bar`, a later bar of the same bucket.
pub open spec fn merged_bar(last: Bar, bar: Bar) -> Bar {
    Bar {
        high: if bar.high > last.high { bar.high } else { last.high },
        low: if bar.low < last.low { bar.low } else { last.low },
        close: bar.close,
        volume: (last.volume + bar.volume) as u64,
        ..last
    }
}

/// The bucket bar that `bar` opens at `target_seconds`.
pub open spec fn bucket_bar(bar: Bar, target_seconds: u32) -> Bar {
    Bar {
        timeframe_seconds: target_seconds,
        ts_open_ns: bucket_start(target_seconds, bar.ts_open_ns) as u64,
        ..bar
    }
}

/// Whether `bar` falls into the last bucket of `out`.
pub open spec fn joins_last(out: Seq<Bar>, bar: Bar, target_seconds: u32) -> bool {
    out.len() > 0 && out.last().ts_open_ns == bucket_start(target_seconds, bar.ts_open_ns)
}

/// Folds one more bar into a resampled series: it joins the last bucket
/// when it falls into it, and opens a new bucket otherwise.
pub open spec fn resample_step(out: Seq<Bar>, bar: Bar, target_seconds: u32) -> Seq<Bar> {
    if joins_last(out, bar, target_seconds) {
        out.update(out.len() - 1, merged_bar(out.last(), bar))
    } else {
        out.push(bucket_bar(bar, target_seconds))
    }
}

/// Consecutive bars grouped into `target_seconds` buckets: each bucket
/// keeps the first bar's open, the last bar's close, the highest high, the
/// lowest low and the summed volume.
pub open spec fn resampled(bars: Seq<Bar>, target_seconds: u32) -> Seq<Bar>
    decreases bars.len(),
{
    if bars.len() == 0 {
        Seq::empty()
    } else {
        resample_step(resampled(bars.drop_last(), target_seconds), bars.last(), target_seconds)
    }
}

/// Resampling `bars` sums no bucket's volume past `u64::MAX`.
pub open spec fn volumes_fit(bars: Seq<Bar>, target_seconds: u32) -> bool {
    forall|i: int|
        0 <= i < bars.len() && joins_last(resampled(#[trigger] bars.take(i), target_seconds), bars[i], target_seconds)
            ==> resampled(bars.take(i), target_seconds).last().volume + bars[i].volume <= u64::MAX
}

/// Groups already-closed bars (ascending by `ts_open_ns`) into coarser
/// `target_timeframe_seconds` buckets.
pub fn resample(bars: &[Bar], target_timeframe_seconds: u32) -> (r: Vec<Bar>)
    requires
        bars@.len() > 0 ==> target_timeframe_seconds > 0,
        volumes_fit(bars@, target_timeframe_seconds),
    ensures
        r@ == resampled(bars@, target_timeframe_seconds),
{
    let mut out: Vec<Bar> = Vec::new();
    if bars.len() == 0 {
        return out;
    }
    let tf_ns: u64 = target_timeframe_seconds as u64 * 1_000_000_000;
    let n = bars.len();
    for i in 0..n
        invariant
            n == bars@.len(),
            tf_ns == timeframe_ns(target_timeframe_seconds),
            target_timeframe_seconds > 0,
            volumes_fit(bars@, target_timeframe_seconds),
            out@ == resampled(bars@.take(i as int), target_timeframe_seconds),
    {
        let bar = bars[i];
        assert(bars@.take(i + 1).drop_last() =~= bars@.take(i as int));
        assert(bars@.take(i + 1).last() == bar);
        let q = bar.ts_open_ns / tf_ns;
        assert(q * tf_ns <= bar.ts_open_ns) by (nonlinear_arith)
            requires
                q == bar.ts_open_ns / tf_ns,
                tf_ns > 0,
        ;
        let bucket = q * tf_ns;
        let len = out.len();
        if len > 0 && out[len - 1].ts_open_ns == bucket {
            let last = out[len - 1];
            let high = if bar.high > last.high { bar.high } else { last.high };
            let low = if bar.low < last.low { bar.low } else { last.low };
            out.set(len - 1, Bar { high, low, close: bar.close, volume: last.volume + bar.volume, ..last });
        } else {
            out.push(
                Bar {
                    symbol_id: bar.symbol_id,
                    timeframe_seconds: target_timeframe_seconds,
                    ts_open_ns: bucket,
                    open: bar.open,
                    high: bar.high,
                    low: bar.low,
                    close: bar.close,
                    volume: bar.volume,
                },
            );
        }
    }
    assert(bars@.take(n as int) =~= bars@);
    out
}

/// `ts_ns` lies in `[from_ns, to_ns]`.
pub open spec fn in_window(ts_ns: u64, from_ns: u64, to_ns: u64) -> bool {
    from_ns <= ts_ns <= to_ns
}

/// The bars of `bars` that open within `[from_ns, to_ns]`, in order.
pub open spec fn window_of(bars: Seq<Bar>, from_ns: u64, to_ns: u64) -> Seq<Bar> {
    bars.filter(|b: Bar| in_window(b.ts_open_ns, from_ns, to_ns))
}

/// The bars that open within `[from_ns, to_ns]`, in order.
pub fn history_window(bars: &[Bar], from_ns: u64, to_ns: u64) -> (r: Vec<Bar>)
    ensures
        r@ == window_of(bars@, from_ns, to_ns),
{
    let mut out: Vec<Bar> = Vec::new();
    let n = bars.len();
    for i in 0..n
        invariant
            n == bars@.len(),
            out@ == window_of(bars@.take(i as int), from_ns, to_ns),
    {
        proof {
            reveal_with_fuel(Seq::filter, 1);
            assert(bars@.take(i + 1).drop_last() =~= bars@.take(i as int));
        }
        let bar = bars[i];
        if from_ns <= bar.ts_open_ns && bar.ts_open_ns <= to_ns {
            out.push(bar);
        }
    }
    assert(bars@.take(n as int) =~= bars@);
    out
}

/// Bars aligned on `target_seconds` buckets, of that timeframe, opening at
/// strictly increasing times.
pub open spec fn aligned_series(bars: Seq<Bar>, target_seconds: u32) -> bool {
    &&& forall|i: int|
        0 <= i < bars.len() ==> (#[trigger] bars[i]).timeframe_seconds == target_seconds
            && bars[i].ts_open_ns as int % timeframe_ns(target_seconds) == 0
    &&& forall|i: int, j: int| 0 <= i < j < bars.len() ==> #[trigger] bars[i].ts_open_ns < #[trigger] bars[j].ts_open_ns
}

/// Resampling bars to the timeframe they already have, on its own bucket
/// boundaries, changes nothing.
pub proof fn lemma_resample_to_own_timeframe_is_identity(bars: Seq<Bar>, target_seconds: u32)
    requires
        target_seconds > 0,
        aligned_series(bars, target_seconds),
    ensures
        resampled(bars, target_seconds) == bars,
    decreases bars.len(),
{
    if bars.len() > 0 {
        let prefix = bars.drop_last();
        assert(aligned_series(prefix, target_seconds)) by {
            assert forall|i: int| 0 <= i < prefix.len() implies (#[trigger] prefix[i]).timeframe_seconds == target_seconds
                && prefix[i].ts_open_ns as int % timeframe_ns(target_seconds) == 0 by {
                assert(prefix[i] == bars[i]);
            }
        }
        lemma_resample_to_own_timeframe_is_identity(prefix, target_seconds);
        let last = bars.last();
        let d = timeframe_ns(target_seconds);
        let t = last.ts_open_ns as int;
        assert(t % d == 0);
        assert((t / d) * d == t) by (nonlinear_arith)
            requires
                d > 0,
                t % d == 0,
        ;
        assert(bucket_start(target_seconds, last.ts_open_ns) == t);
        if prefix.len() > 0 {
            assert(prefix.last() == bars[bars.len() - 2]);
            assert(prefix.last().ts_open_ns < last.ts_open_ns);
        }
        assert(bucket_bar(last, target_seconds) == last);
        assert(resampled(bars, target_seconds) =~= bars);
    }
}

/// Bars in ascending order of opening time.
pub open spec fn ascending(bars: Seq<Bar>) -> bool {
    forall|i: int, j: int| 0 <= i <= j < bars.len() ==> #[trigger] bars[i].ts_open_ns <= #[trigger] bars[j].ts_open_ns
}

/// Resampling bars in ascending order gives bars on the target timeframe,
/// on its bucket boundaries, opening at strictly increasing times; the last
/// one is the bucket of the last bar.
pub proof fn lemma_resampled_is_aligned(bars: Seq<Bar>, target_seconds: u32)
    requires
        target_seconds > 0,
        ascending(bars),
    ensures
        aligned_series(resampled(bars, target_seconds), target_seconds),
        bars.len() > 0 ==> resampled(bars, target_seconds).len() > 0 && resampled(bars, target_seconds).last().ts_open_ns
            == bucket_start(target_seconds, bars.last().ts_open_ns),
    decreases bars.len(),
{
    if bars.len() > 0 {
        let prefix = bars.drop_last();
        assert(ascending(prefix)) by {
            assert forall|i: int, j: int| 0 <= i <= j < prefix.len() implies #[trigger] prefix[i].ts_open_ns
                <= #[trigger] prefix[j].ts_open_ns by {
                assert(prefix[i] == bars[i] && prefix[j] == bars[j]);
            }
        }
        lemma_resampled_is_aligned(prefix, target_seconds);
        let out = resampled(prefix, target_seconds);
        let bar = bars.last();
        lemma_bucket_start_facts(target_seconds, bar.ts_open_ns, bar.ts_open_ns);
        if prefix.len() > 0 {
            let p = prefix.last();
            assert(p == bars[bars.len() - 2]);
            lemma_bucket_start_facts(target_seconds, p.ts_open_ns, bar.ts_open_ns);
        }
        let next = resampled(bars, target_seconds);
        if joins_last(out, bar, target_seconds) {
            assert(next == out.update(out.len() - 1, merged_bar(out.last(), bar)));
            assert forall|i: int, j: int| 0 <= i < j < next.len() implies #[trigger] next[i].ts_open_ns
                < #[trigger] next[j].ts_open_ns by {
                assert(next[i].ts_open_ns == out[i].ts_open_ns);
                assert(next[j].ts_open_ns == out[j].ts_open_ns);
            }
        } else {
            assert(next == out.push(bucket_bar(bar, target_seconds)));
            assert forall|i: int, j: int| 0 <= i < j < next.len() implies #[trigger] next[i].ts_open_ns
                < #[trigger] next[j].ts_open_ns by {
                if j == next.len() - 1 {
                    assert(out.len() > 0 ==> next[i].ts_open_ns <= out.last().ts_open_ns);
                } else {
                    assert(next[i] == out[i] && next[j] == out[j]);
                }
            }
        }
    }
}

/// Resampling bars in ascending order twice to the same timeframe gives
/// what resampling them once gives.
pub proof fn lemma_resampling_twice_is_resampling_once(bars: Seq<Bar>, target_seconds: u32)
    requires
        target_seconds > 0,
        ascending(bars),
    ensures
        resampled(resampled(bars, target_seconds), target_seconds) == resampled(bars, target_seconds),
{
    lemma_resampled_is_aligned(bars, target_seconds);
    lemma_resample_to_own_timeframe_is_identity(resampled(bars, target_seconds), target_seconds);
}

/// A coarser bucket holds whole finer buckets: the coarse bucket of a fine
/// bucket's start is the coarse bucket of the time itself.
proof fn lemma_nested_bucket_start(target_seconds: u32, coarser_seconds: u32, t: u64)
    requires
        target_seconds > 0,
        coarser_seconds > 0,
        coarser_seconds % target_seconds == 0,
    ensures
        0 <= bucket_start(target_seconds, t) <= t,
        bucket_start(coarser_seconds, bucket_start(target_seconds, t) as u64) == bucket_start(coarser_seconds, t),
{
    lemma_bucket_start_facts(target_seconds, t, t);
    let d = timeframe_ns(target_seconds);
    let m = coarser_seconds as int / target_seconds as int;
    assert(coarser_seconds as int == m * target_seconds) by {
        vstd::arithmetic::div_mod::lemma_fundamental_div_mod(coarser_seconds as int, target_seconds as int);
    }
    assert(m > 0) by (nonlinear_arith)
        requires
            coarser_seconds as int == m * target_seconds,
            coarser_seconds > 0,
            target_seconds > 0,
    ;
    let big = timeframe_ns(coarser_seconds);
    assert(big == d * m) by (nonlinear_arith)
        requires
            coarser_seconds as int == m * target_seconds,
            big == coarser_seconds * NANOS_PER_SECOND,
            d == target_seconds * NANOS_PER_SECOND,
    ;
    let q = t as int / d;
    assert(q >= 0) by (nonlinear_arith)
        requires
            q == t as int / d,
            d > 0,
            t >= 0,
    ;
    vstd::arithmetic::div_mod::lemma_div_denominator(t as int, d, m);
    vstd::arithmetic::div_mod::lemma_div_multiples_vanish(q, d);
    assert((q * d) / d == q) by {
        vstd::arithmetic::mul::lemma_mul_is_commutative(q, d);
    }
    vstd::arithmetic::div_mod::lemma_div_denominator(q * d, d, m);
    assert(bucket_start(target_seconds, t) == q * d);
}

proof fn lemma_volumes_fit_drop_last(bars: Seq<Bar>, target_seconds: u32)
    requires
        bars.len() > 0,
        volumes_fit(bars, target_seconds),
    ensures
        volumes_fit(bars.drop_last(), target_seconds),
{
    let prefix = bars.drop_last();
    assert forall|i: int|
        0 <= i < prefix.len() && joins_last(resampled(#[trigger] prefix.take(i), target_seconds), prefix[i], target_seconds)
            implies resampled(prefix.take(i), target_seconds).last().volume + prefix[i].volume <= u64::MAX by {
        assert(prefix.take(i) =~= bars.take(i));
        assert(prefix[i] == bars[i]);
    }
}

proof fn lemma_volumes_fit_push(bars: Seq<Bar>, bar: Bar, target_seconds: u32)
    requires
        volumes_fit(bars, target_seconds),
        joins_last(resampled(bars, target_seconds), bar, target_seconds) ==> resampled(bars, target_seconds).last().volume
            + bar.volume <= u64::MAX,
    ensures
        volumes_fit(bars.push(bar), target_seconds),
{
    let longer = bars.push(bar);
    assert forall|i: int|
        0 <= i < longer.len() && joins_last(resampled(#[trigger] longer.take(i), target_seconds), longer[i], target_seconds)
            implies resampled(longer.take(i), target_seconds).last().volume + longer[i].volume <= u64::MAX by {
        if i < bars.len() {
            assert(longer.take(i) =~= bars.take(i));
            assert(longer[i] == bars[i]);
        } else {
            assert(longer.take(i) =~= bars);
        }
    }
}

/// Resampling to a timeframe, then to a multiple of it, gives what
/// resampling straight to the multiple gives. Where no bucket of the
/// multiple sums its volume past `u64::MAX`, neither do the buckets of
/// either step.
pub proof fn lemma_resampling_in_two_steps_is_resampling_once(
    bars: Seq<Bar>,
    target_seconds: u32,
    coarser_seconds: u32,
)
    requires
        target_seconds > 0,
        coarser_seconds > 0,
        coarser_seconds % target_seconds == 0,
        volumes_fit(bars, coarser_seconds),
    ensures
        volumes_fit(bars, target_seconds),
        volumes_fit(resampled(bars, target_seconds), coarser_seconds),
        resampled(resampled(bars, target_seconds), coarser_seconds) == resampled(bars, coarser_seconds),
    decreases bars.len(),
{
    if bars.len() > 0 {
        let n = bars.len() as int;
        let prefix = bars.drop_last();
        let b = bars.last();
        lemma_volumes_fit_drop_last(bars, coarser_seconds);
        lemma_resampling_in_two_steps_is_resampling_once(prefix, target_seconds, coarser_seconds);
        lemma_nested_bucket_start(target_seconds, coarser_seconds, b.ts_open_ns);
        lemma_bucket_start_facts(coarser_seconds, b.ts_open_ns, b.ts_open_ns);
        let out1 = resampled(prefix, target_seconds);
        let s = resampled(prefix, coarser_seconds);
        assert(s == resampled(out1, coarser_seconds));
        assert(bars.take(n - 1) =~= prefix);
        assert(bars[n - 1] == b);
        assert(bars =~= prefix.push(b));
        // The last bar's room in its coarse bucket.
        assert(joins_last(s, b, coarser_seconds) ==> s.last().volume + b.volume <= u64::MAX);
        if joins_last(out1, b, target_seconds) {
            let u = out1.drop_last();
            let x = out1.last();
            let next1 = out1.update(out1.len() - 1, merged_bar(x, b));
            assert(resampled(bars, target_seconds) == next1);
            assert(next1.drop_last() =~= u);
            assert(next1 =~= u.push(merged_bar(x, b)));
            assert(next1.last() == merged_bar(x, b));
            let ru = resampled(u, coarser_seconds);
            lemma_volumes_fit_drop_last(out1, coarser_seconds);
            assert(out1.take(out1.len() - 1) =~= u);
            assert(out1[out1.len() - 1] == x);
            assert(joins_last(ru, x, coarser_seconds) ==> ru.last().volume + x.volume <= u64::MAX);
            assert(resampled(next1, coarser_seconds) == resample_step(ru, merged_bar(x, b), coarser_seconds));
            assert(s == resample_step(ru, x, coarser_seconds));
            assert(x.ts_open_ns == bucket_start(target_seconds, b.ts_open_ns));
            assert(x.ts_open_ns == bucket_start(target_seconds, b.ts_open_ns) as u64);
            assert(bucket_start(coarser_seconds, x.ts_open_ns) == bucket_start(coarser_seconds, b.ts_open_ns));
            if joins_last(ru, x, coarser_seconds) {
                let y = ru.last();
                assert(s == ru.update(ru.len() - 1, merged_bar(y, x)));
                assert(s.last() == merged_bar(y, x));
                assert(joins_last(s, b, coarser_seconds));
                assert(y.volume + x.volume + b.volume <= u64::MAX);
                assert(merged_bar(merged_bar(y, x), b) == merged_bar(y, merged_bar(x, b)));
                assert(resampled(next1, coarser_seconds) =~= resampled(bars, coarser_seconds));
            } else {
                assert(s == ru.push(bucket_bar(x, coarser_seconds)));
                assert(bucket_bar(merged_bar(x, b), coarser_seconds) == merged_bar(bucket_bar(x, coarser_seconds), b));
                assert(s.last() == bucket_bar(x, coarser_seconds));
                assert(joins_last(s, b, coarser_seconds));
                assert(resampled(bars, coarser_seconds) == s.update(s.len() - 1, merged_bar(s.last(), b)));
                assert(resampled(next1, coarser_seconds) =~= resampled(bars, coarser_seconds));
            }
            assert(x.volume + b.volume <= u64::MAX);
            lemma_volumes_fit_push(prefix, b, target_seconds);
            lemma_volumes_fit_push(u, merged_bar(x, b), coarser_seconds);
        } else {
            let fine = bucket_bar(b, target_seconds);
            assert(resampled(bars, target_seconds) == out1.push(fine));
            assert(out1.push(fine).drop_last() =~= out1);
            assert(bucket_bar(fine, coarser_seconds) == bucket_bar(b, coarser_seconds));
            assert(resampled(out1.push(fine), coarser_seconds) =~= resampled(bars, coarser_seconds));
            lemma_volumes_fit_push(prefix, b, target_seconds);
            lemma_volumes_fit_push(out1, fine, coarser_seconds);
        }
    }
}

} // verus!
