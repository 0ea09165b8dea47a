//! What holds of every history of samples.

use vstd::prelude::*;

use crate::history::{
    current_hits, current_misses, expired_count, hit_points, is_expired, is_ratio, miss_points,
    nearest, recent_count, recent_rates, sample_of, trimmed_history, x_span, Sample,
};
use crate::rate::{per_second, Rate};
use crate::stats::Stats;

verus! {

/// Whether no sample is older than the one before it.
pub open spec fn is_time_ordered(h: Seq<Sample>) -> bool {
    forall|i: int, j: int|
        0 <= i <= j < h.len() ==> #[trigger] h[i].timestamp <= #[trigger] h[j].timestamp
}

/// Whether neither counter ever falls.
pub open spec fn is_counting_up(h: Seq<Sample>) -> bool {
    forall|i: int, j: int|
        #![trigger h[i], h[j]]
        0 <= i <= j < h.len() ==> h[i].hits <= h[j].hits && h[i].misses <= h[j].misses
}

/// Whether every hit rate is a ratio from zero to one.
pub open spec fn has_ratios(h: Seq<Sample>) -> bool {
    forall|i: int| 0 <= i < h.len() ==> is_ratio((#[trigger] h[i]).hit_rate)
}

/// The sum of the increases of the first `n` points.
pub open spec fn sum_of(points: Seq<(u128, Rate)>, n: int) -> int
    decreases n,
{
    if n <= 0 {
        0
    } else {
        sum_of(points, n - 1) + points[n - 1].1.increase
    }
}

/// The leading samples that are too old, and the first that is not.
pub proof fn lemma_leading_expired(h: Seq<Sample>, latest: u128, window: u128)
    ensures
        expired_count(h, latest, window) <= h.len(),
        forall|i: int|
            0 <= i < expired_count(h, latest, window) ==> is_expired(
                #[trigger] h[i],
                latest,
                window,
            ),
        expired_count(h, latest, window) < h.len() ==> !is_expired(
            h[expired_count(h, latest, window) as int],
            latest,
            window,
        ),
    decreases h.len(),
{
    if h.len() > 0 && is_expired(h.first(), latest, window) {
        let rest = h.drop_first();
        lemma_leading_expired(rest, latest, window);
        assert forall|i: int| 0 <= i < expired_count(h, latest, window) implies is_expired(
            #[trigger] h[i],
            latest,
            window,
        ) by {
            if i > 0 {
                assert(h[i] == rest[i - 1]);
            }
        }
    }
}

/// The newest sample is never trimmed away.
pub proof fn law_newest_sample_stays(h: Seq<Sample>, window: u128)
    requires
        h.len() > 0,
    ensures
        trimmed_history(h, window).len() > 0,
        trimmed_history(h, window).last() == h.last(),
{
    let latest = h.last().timestamp;
    lemma_leading_expired(h, latest, window);
    let k = expired_count(h, latest, window) as int;
    if k == h.len() {
        assert(is_expired(h[k - 1], latest, window));
    }
}

/// Trimming a history in time order keeps exactly the samples that lie within the window before
/// the newest one, in their order: those from some place on, and the samples before that place are
/// the ones that are too old.
pub proof fn law_trimming_keeps_exactly_the_window(h: Seq<Sample>, window: u128)
    requires
        is_time_ordered(h),
        h.len() > 0,
    ensures
        trimmed_history(h, window) == h.skip(
            expired_count(h, h.last().timestamp, window) as int,
        ),
        forall|i: int|
            0 <= i < h.len() ==> (is_expired(#[trigger] h[i], h.last().timestamp, window) <==> i
                < expired_count(h, h.last().timestamp, window)),
{
    let latest = h.last().timestamp;
    let k = expired_count(h, latest, window) as int;
    lemma_leading_expired(h, latest, window);
    assert forall|i: int| 0 <= i < h.len() implies (is_expired(#[trigger] h[i], latest, window)
        <==> i < k) by {
        if i >= k {
            assert(h[k].timestamp <= h[i].timestamp);
        }
    }
}

/// Trimming twice is trimming once.
pub proof fn law_trimming_is_idempotent(h: Seq<Sample>, window: u128)
    ensures
        trimmed_history(trimmed_history(h, window), window) == trimmed_history(h, window),
{
    if h.len() > 0 {
        law_newest_sample_stays(h, window);
        let latest = h.last().timestamp;
        lemma_leading_expired(h, latest, window);
        let once = trimmed_history(h, window);
        assert(once.first() == h[expired_count(h, latest, window) as int]);
        assert(expired_count(once, latest, window) == 0);
        assert(once.skip(0) =~= once);
    }
}

proof fn lemma_wider_window_expires_less(h: Seq<Sample>, latest: u128, narrow: u128, wide: u128)
    requires
        narrow <= wide,
    ensures
        expired_count(h, latest, wide) <= expired_count(h, latest, narrow),
    decreases h.len(),
{
    if h.len() > 0 && is_expired(h.first(), latest, wide) {
        lemma_wider_window_expires_less(h.drop_first(), latest, narrow, wide);
    }
}

/// A wider window keeps all that a narrower one keeps.
pub proof fn law_wider_window_keeps_more(h: Seq<Sample>, narrow: u128, wide: u128)
    requires
        narrow <= wide,
    ensures
        trimmed_history(trimmed_history(h, wide), narrow) == trimmed_history(h, narrow),
{
    if h.len() > 0 {
        let latest = h.last().timestamp;
        lemma_wider_window_expires_less(h, latest, narrow, wide);
        law_newest_sample_stays(h, wide);
        lemma_leading_expired(h, latest, narrow);
        let n = expired_count(h, latest, narrow) as int;
        let w = expired_count(h, latest, wide) as int;
        let kept = trimmed_history(h, wide);
        lemma_count_after_skip(h, latest, narrow, w);
        assert(kept.skip(n - w) =~= h.skip(n));
    }
}

proof fn lemma_count_after_skip(h: Seq<Sample>, latest: u128, window: u128, skipped: int)
    requires
        0 <= skipped <= expired_count(h, latest, window),
    ensures
        expired_count(h.skip(skipped), latest, window) == expired_count(h, latest, window) - skipped,
    decreases skipped,
{
    if skipped == 0 {
        assert(h.skip(0) =~= h);
    } else {
        lemma_leading_expired(h, latest, window);
        lemma_count_after_skip(h.drop_first(), latest, window, skipped - 1);
        assert(h.drop_first().skip(skipped - 1) =~= h.skip(skipped));
    }
}

proof fn lemma_longer_history_is_ordered(h: Seq<Sample>, stats: Stats, now: u128)
    requires
        is_time_ordered(h),
        h.len() > 0 ==> h.last().timestamp <= now,
    ensures
        is_time_ordered(h.push(sample_of(stats, now))),
{
    let longer = h.push(sample_of(stats, now));
    assert forall|i: int, j: int| 0 <= i <= j < longer.len() implies #[trigger] longer[i].timestamp
        <= #[trigger] longer[j].timestamp by {
        if j < h.len() {
            assert(h[i].timestamp <= h[j].timestamp);
        } else if i < h.len() {
            assert(h[i].timestamp <= h[h.len() - 1].timestamp);
        }
    }
}

/// A pushed sample has a hit rate from zero to one, whatever the statistics, and trimming leaves
/// no others: every history that is built by pushing samples has nothing but such hit rates.
pub proof fn law_pushing_keeps_ratios(h: Seq<Sample>, stats: Stats, now: u128, window: u128)
    requires
        has_ratios(h),
    ensures
        is_ratio(sample_of(stats, now).hit_rate),
        has_ratios(trimmed_history(h.push(sample_of(stats, now)), window)),
{
    let longer = h.push(sample_of(stats, now));
    lemma_leading_expired(longer, now, window);
    let k = expired_count(longer, now, window) as int;
    let kept = trimmed_history(longer, window);
    assert forall|i: int| 0 <= i < kept.len() implies is_ratio((#[trigger] kept[i]).hit_rate) by {
        assert(kept[i] == longer[i + k]);
        if i + k < h.len() {
            assert(is_ratio(h[i + k].hit_rate));
        }
    }
}

/// Samples that are pushed as time goes on stay in time order.
pub proof fn law_pushing_keeps_time_order(h: Seq<Sample>, stats: Stats, now: u128, window: u128)
    requires
        is_time_ordered(h),
        h.len() > 0 ==> h.last().timestamp <= now,
    ensures
        is_time_ordered(trimmed_history(h.push(sample_of(stats, now)), window)),
{
    let longer = h.push(sample_of(stats, now));
    lemma_longer_history_is_ordered(h, stats, now);
    lemma_leading_expired(longer, now, window);
    let k = expired_count(longer, now, window) as int;
    let kept = trimmed_history(longer, window);
    assert forall|i: int, j: int| 0 <= i <= j < kept.len() implies #[trigger] kept[i].timestamp
        <= #[trigger] kept[j].timestamp by {
        assert(kept[i] == longer[i + k]);
        assert(kept[j] == longer[j + k]);
    }
}

/// After a push the history ends with the new sample, and in time order no sample of it is older
/// than the window allows.
pub proof fn law_pushed_history_is_the_rolling_window(
    h: Seq<Sample>,
    stats: Stats,
    now: u128,
    window: u128,
)
    requires
        is_time_ordered(h),
        h.len() > 0 ==> h.last().timestamp <= now,
    ensures
        ({
            let after = trimmed_history(h.push(sample_of(stats, now)), window);
            &&& after.len() > 0
            &&& after.last() == sample_of(stats, now)
            &&& forall|i: int| 0 <= i < after.len() ==> now - (#[trigger] after[i]).timestamp <= window
        }),
{
    let longer = h.push(sample_of(stats, now));
    law_newest_sample_stays(longer, window);
    lemma_longer_history_is_ordered(h, stats, now);
    law_trimming_keeps_exactly_the_window(longer, window);
    let k = expired_count(longer, now, window) as int;
    let after = trimmed_history(longer, window);
    assert forall|i: int| 0 <= i < after.len() implies now - (#[trigger] after[i]).timestamp
        <= window by {
        assert(after[i] == longer[i + k]);
        assert(!is_expired(longer[i + k], now, window));
        assert(longer[i + k].timestamp <= longer[longer.len() - 1].timestamp);
    }
}

/// The deltas shown as current are those of the last points of the two series, rounded down to
/// whole numbers per second.
pub proof fn law_current_deltas_end_the_series(h: Seq<Sample>)
    requires
        h.len() > 0,
    ensures
        hit_points(h).len() == h.len(),
        miss_points(h).len() == h.len(),
        current_hits(h) == per_second(hit_points(h).last().1),
        current_misses(h) == per_second(miss_points(h).last().1),
{
}

/// Every point of the two series has taken some time.
pub proof fn law_deltas_take_time(h: Seq<Sample>)
    ensures
        forall|i: int| 0 <= i < h.len() ==> (#[trigger] hit_points(h)[i]).1.elapsed > 0,
        forall|i: int| 0 <= i < h.len() ==> (#[trigger] miss_points(h)[i]).1.elapsed > 0,
{
}

proof fn lemma_deltas_add_up(h: Seq<Sample>, n: int)
    requires
        is_counting_up(h),
        1 <= n <= h.len(),
    ensures
        sum_of(hit_points(h), n) == h[n - 1].hits - h[0].hits,
        sum_of(miss_points(h), n) == h[n - 1].misses - h[0].misses,
    decreases n,
{
    if n > 1 {
        lemma_deltas_add_up(h, n - 1);
        assert(h[n - 2].hits <= h[n - 1].hits && h[n - 2].misses <= h[n - 1].misses);
    } else {
        assert(sum_of(hit_points(h), 0) == 0);
        assert(sum_of(miss_points(h), 0) == 0);
    }
}

/// While the counters count up, the increases of a series add up to what the counter has grown by
/// over the history.
pub proof fn law_deltas_add_up(h: Seq<Sample>)
    requires
        is_counting_up(h),
        h.len() > 0,
    ensures
        sum_of(hit_points(h), h.len() as int) == h.last().hits - h.first().hits,
        sum_of(miss_points(h), h.len() as int) == h.last().misses - h.first().misses,
{
    lemma_deltas_add_up(h, h.len() as int);
}

/// In time order, every point of a series lies on the x-axis, the two series have their points at
/// the same places, and these places run from left to right.
pub proof fn law_points_lie_on_the_axis(h: Seq<Sample>)
    requires
        is_time_ordered(h),
    ensures
        forall|i: int|
            0 <= i < h.len() ==> (#[trigger] hit_points(h)[i]).0 <= x_span(h),
        forall|i: int|
            0 <= i < h.len() ==> (#[trigger] hit_points(h)[i]).0 == miss_points(h)[i].0,
        forall|i: int, j: int|
            0 <= i <= j < h.len() ==> (#[trigger] hit_points(h)[i]).0 <= (
            #[trigger] hit_points(h)[j]).0,
{
    assert forall|i: int| 0 <= i < h.len() implies (#[trigger] hit_points(h)[i]).0 <= x_span(h) by {
        assert(h[i].timestamp <= h[h.len() - 1].timestamp);
    }
    assert forall|i: int, j: int| 0 <= i <= j < h.len() implies (#[trigger] hit_points(h)[i]).0 <= (
    #[trigger] hit_points(h)[j]).0 by {
        assert(h[i].timestamp <= h[j].timestamp);
    }
}

/// The newest samples that are not too old, and the last before them.
pub proof fn lemma_trailing_recent(h: Seq<Sample>, latest: u128, window: u128)
    ensures
        recent_count(h, latest, window) <= h.len(),
        forall|i: int|
            h.len() - recent_count(h, latest, window) <= i < h.len() ==> !is_expired(
                #[trigger] h[i],
                latest,
                window,
            ),
        recent_count(h, latest, window) < h.len() ==> is_expired(
            h[h.len() - recent_count(h, latest, window) - 1],
            latest,
            window,
        ),
    decreases h.len(),
{
    if h.len() > 0 && !is_expired(h.last(), latest, window) {
        lemma_trailing_recent(h.drop_last(), latest, window);
        assert forall|i: int|
            h.len() - recent_count(h, latest, window) <= i < h.len() implies !is_expired(
            #[trigger] h[i],
            latest,
            window,
        ) by {
            if i < h.len() - 1 {
                assert(h[i] == h.drop_last()[i]);
            }
        }
    }
}

/// In time order, the hit rates that are averaged are those of exactly the samples within the
/// window before the newest one, and there is at least that one.
pub proof fn law_average_is_over_exactly_the_window(h: Seq<Sample>, window: u128)
    requires
        is_time_ordered(h),
        h.len() > 0,
    ensures
        recent_rates(h, window).len() > 0,
        recent_rates(h, window).len() <= h.len(),
        forall|i: int|
            0 <= i < h.len() ==> (!is_expired(#[trigger] h[i], h.last().timestamp, window) <==> i
                >= h.len() - recent_rates(h, window).len()),
        forall|i: int|
            0 <= i < recent_rates(h, window).len() ==> #[trigger] recent_rates(h, window)[i]
                == h[h.len() - 1 - i].hit_rate,
{
    let latest = h.last().timestamp;
    lemma_trailing_recent(h, latest, window);
    let k = recent_count(h, latest, window) as int;
    assert forall|i: int| 0 <= i < h.len() implies (!is_expired(#[trigger] h[i], latest, window)
        <==> i >= h.len() - k) by {
        if i < h.len() - k {
            assert(h[i].timestamp <= h[h.len() - k - 1].timestamp);
            assert(is_expired(h[h.len() - k - 1], latest, window));
            assert(h[h.len() - k - 1].timestamp <= h[h.len() - 1].timestamp);
        }
    }
}

/// A rounded quotient is within half of the quotient itself.
pub proof fn law_nearest_is_within_half(n: nat, unit: nat)
    requires
        unit > 0,
    ensures
        2 * n - unit <= 2 * (nearest(n, unit) * unit) <= 2 * n + unit,
{
    let below = n / unit;
    let rest = n % unit;
    vstd::arithmetic::div_mod::lemma_fundamental_div_mod(n as int, unit as int);
    assert(unit * below == below * unit) by (nonlinear_arith);
    assert((below + 1) * unit == below * unit + unit) by (nonlinear_arith);
}

} // verus!
