//! What the rolling window, its series and its labels show of the samples, in plain numbers.

use vstd::prelude::*;

use crate::format::decimal_text;
use crate::history::{
    current_hits, current_misses, excess, expired_count, hit_points, hit_rate_of, miss_points,
    nearest, no_hits, recent_count, recent_rates, sample_of, time_between, time_labels,
    trimmed_history, window_name, x_of, x_span, Sample, TimeLabels, TimeLabelsModel,
    SECOND,
};
use crate::history_laws::{
    is_time_ordered, law_nearest_is_within_half, law_newest_sample_stays, lemma_leading_expired,
    lemma_trailing_recent,
};
use crate::rate::{law_per_second_times_elapsed_is_the_increase, Rate};
use crate::settings::{at_least_one, MILLISECOND};
use crate::stats::Stats;

verus! {

/// A second has a thousand million nanoseconds, and a millisecond a million. A setting counts as it
/// is, and zero counts as one.
pub proof fn law_time_is_counted_in_nanoseconds(setting: u64)
    ensures
        SECOND == 1_000_000_000,
        MILLISECOND == 1_000_000,
        setting > 0 ==> at_least_one(setting) == setting,
        at_least_one(0) == 1,
{
}

/// The hit rate is the hits over the cacheable calls, whatever else is counted; it is one where
/// more hits than cacheable calls are reported, and zero where there was no cacheable call.
pub proof fn law_hit_rate_is_the_hits_over_the_cacheable_calls(stats: Stats)
    ensures
        hit_rate_of(stats).whole > 0,
        stats.cacheable_calls > 0 && stats.hits <= stats.cacheable_calls ==> hit_rate_of(stats).part
            * stats.cacheable_calls == stats.hits * hit_rate_of(stats).whole,
        stats.cacheable_calls > 0 ==> hit_rate_of(stats).whole == stats.cacheable_calls,
        stats.hits > stats.cacheable_calls > 0 ==> hit_rate_of(stats).part == hit_rate_of(
            stats,
        ).whole,
        stats.cacheable_calls == 0 ==> hit_rate_of(stats) == no_hits(),
        no_hits().part == 0,
        no_hits().whole == 1,
{
}

/// Statistics with the same hits and the same cacheable calls have the same hit rate.
pub proof fn law_hit_rate_rests_on_nothing_else(a: Stats, b: Stats)
    requires
        a.hits == b.hits,
        a.cacheable_calls == b.cacheable_calls,
    ensures
        hit_rate_of(a) == hit_rate_of(b),
{
}

/// One more hit among the same calls makes the hit rate greater by one call.
pub proof fn law_each_hit_raises_the_hit_rate(a: Stats, b: Stats)
    requires
        a.cacheable_calls == b.cacheable_calls,
        b.hits == a.hits + 1,
        b.hits <= b.cacheable_calls,
    ensures
        hit_rate_of(b).part == hit_rate_of(a).part + 1,
        hit_rate_of(b).whole == hit_rate_of(a).whole,
{
}

/// A sample holds what was polled, and when.
pub proof fn law_sample_holds_what_was_polled(stats: Stats, now: u128)
    ensures
        sample_of(stats, now).timestamp == now,
        sample_of(stats, now).hits == stats.hits,
        sample_of(stats, now).misses == stats.misses,
        sample_of(stats, now).hit_rate == hit_rate_of(stats),
        sample_of(stats, now).cache_size_used_gb == stats.cache_size_used_gb,
        sample_of(stats, now).cache_size_max_gb == stats.cache_size_max_gb,
{
}

/// The time between two points is their difference, or zero where the second is not later, and
/// what a counter has grown by is told in the same way.
pub proof fn law_differences_do_not_fall_below_zero(
    earlier: u128,
    later: u128,
    base: u64,
    value: u64,
)
    ensures
        earlier <= later ==> time_between(earlier, later) == later - earlier,
        earlier >= later ==> time_between(earlier, later) == 0,
        base <= value ==> excess(value, base) == value - base,
        base >= value ==> excess(value, base) == 0,
{
}

/// Trimming drops samples at the front alone: one after the other as long as they are older than
/// the window at the time of the last one, and no further.
pub proof fn law_trimming_drops_old_samples_at_the_front(h: Seq<Sample>, window: u128) -> (from:
    int)
    ensures
        h.len() == 0 ==> trimmed_history(h, window) == h,
        h.len() > 0 ==> 0 <= from < h.len() && trimmed_history(h, window) == h.subrange(
            from,
            h.len() as int,
        ) && h.last().timestamp - h[from].timestamp <= window,
        h.len() > 0 ==> forall|i: int|
            0 <= i < from ==> h.last().timestamp - (#[trigger] h[i]).timestamp > window,
{
    if h.len() == 0 {
        0
    } else {
        let latest = h.last().timestamp;
        let from = expired_count(h, latest, window) as int;
        law_newest_sample_stays(h, window);
        lemma_leading_expired(h, latest, window);
        assert(h.skip(from) =~= h.subrange(from, h.len() as int));
        from
    }
}

/// Of a history in time order, trimming keeps every sample that is no older than the window at the
/// time of the last one, and no sample that is older.
pub proof fn law_samples_stay_just_as_long_as_the_window(h: Seq<Sample>, window: u128)
    requires
        is_time_ordered(h),
    ensures
        forall|i: int|
            0 <= i < h.len() && h.last().timestamp - (#[trigger] h[i]).timestamp <= window
                ==> trimmed_history(h, window).contains(h[i]),
        forall|i: int|
            0 <= i < trimmed_history(h, window).len() ==> h.last().timestamp - (
            #[trigger] trimmed_history(h, window)[i]).timestamp <= window && h.contains(
                trimmed_history(h, window)[i],
            ),
{
    if h.len() > 0 {
        let kept = trimmed_history(h, window);
        let from = law_trimming_drops_old_samples_at_the_front(h, window);
        assert forall|i: int|
            0 <= i < h.len() && h.last().timestamp - (#[trigger] h[i]).timestamp
                <= window implies kept.contains(h[i]) by {
            assert(i >= from);
            assert(kept[i - from] == h[i]);
        }
        assert forall|i: int| 0 <= i < kept.len() implies h.last().timestamp - (
        #[trigger] kept[i]).timestamp <= window && h.contains(kept[i]) by {
            assert(kept[i] == h[i + from]);
            assert(h[from].timestamp <= h[i + from].timestamp);
        }
    }
}

/// A history in time order that the window spans as a whole stays as it is.
pub proof fn law_history_within_the_window_stays_whole(h: Seq<Sample>, window: u128)
    requires
        h.len() > 0,
        h.last().timestamp - h.first().timestamp <= window,
    ensures
        trimmed_history(h, window) == h,
{
    let from = law_trimming_drops_old_samples_at_the_front(h, window);
    assert(from == 0);
    assert(h.subrange(0, h.len() as int) =~= h);
}

/// The hit rates that are averaged are those of the newest samples, newest first: one after the
/// other as long as they are no older than the window at the time of the newest one, and no
/// further.
pub proof fn law_average_takes_the_newest_samples(h: Seq<Sample>, window: u128)
    ensures
        h.len() == 0 ==> recent_rates(h, window).len() == 0,
        h.len() > 0 ==> 0 < recent_rates(h, window).len() <= h.len(),
        forall|i: int|
            0 <= i < recent_rates(h, window).len() ==> #[trigger] recent_rates(h, window)[i]
                == h[h.len() - 1 - i].hit_rate,
        forall|i: int|
            0 <= i < recent_rates(h, window).len() ==> h.last().timestamp - (
            #[trigger] h[h.len() - 1 - i]).timestamp <= window,
        h.len() > recent_rates(h, window).len() ==> h.last().timestamp - h[h.len() - 1
            - recent_rates(h, window).len()].timestamp > window,
{
    if h.len() > 0 {
        lemma_trailing_recent(h, h.last().timestamp, window);
        assert(recent_count(h, h.last().timestamp, window) > 0);
    }
}

/// Every point of the two series tells the growth of its counter since the sample just before it,
/// in the time since that sample; where that one is not earlier, in a second. A counter that has
/// fallen has not grown, and the first point tells of no growth.
pub proof fn law_each_delta_is_that_since_the_sample_before(h: Seq<Sample>, i: int)
    requires
        0 <= i < h.len(),
    ensures
        hit_points(h).len() == h.len(),
        miss_points(h).len() == h.len(),
        i == 0 ==> hit_points(h)[i].1.increase == 0 && miss_points(h)[i].1.increase == 0,
        i > 0 && h[i].timestamp > h[i - 1].timestamp ==> hit_points(h)[i].1.elapsed
            == h[i].timestamp - h[i - 1].timestamp && miss_points(h)[i].1.elapsed == h[i].timestamp
            - h[i - 1].timestamp,
        i == 0 || h[i].timestamp <= h[i - 1].timestamp ==> hit_points(h)[i].1.elapsed
            == 1_000_000_000 && miss_points(h)[i].1.elapsed == 1_000_000_000,
        i > 0 && h[i].hits >= h[i - 1].hits ==> hit_points(h)[i].1.increase == h[i].hits - h[i
            - 1].hits,
        i > 0 && h[i].hits < h[i - 1].hits ==> hit_points(h)[i].1.increase == 0,
        i > 0 && h[i].misses >= h[i - 1].misses ==> miss_points(h)[i].1.increase == h[i].misses
            - h[i - 1].misses,
        i > 0 && h[i].misses < h[i - 1].misses ==> miss_points(h)[i].1.increase == 0,
{
}

/// A point rests on its own sample and the one before it alone: what comes later, and how long the
/// history is, makes no difference.
pub proof fn law_later_samples_leave_the_deltas(h: Seq<Sample>, later: Sample, i: int)
    requires
        0 <= i < h.len(),
    ensures
        hit_points(h.push(later))[i] == hit_points(h)[i],
        miss_points(h.push(later))[i] == miss_points(h)[i],
{
}

/// Every point stands at the time since the oldest sample, and the axis ends at the newest sample,
/// or after a second where that is longer.
pub proof fn law_points_stand_at_the_time_since_the_oldest(h: Seq<Sample>, timestamp: u128, i: int)
    requires
        0 <= i < h.len(),
    ensures
        timestamp >= h[0].timestamp ==> x_of(h, timestamp) == timestamp - h[0].timestamp,
        timestamp <= h[0].timestamp ==> x_of(h, timestamp) == 0,
        x_of(Seq::<Sample>::empty(), timestamp) == 0,
        hit_points(h)[i].0 == x_of(h, h[i].timestamp),
        miss_points(h)[i].0 == x_of(h, h[i].timestamp),
        h.last().timestamp - h[0].timestamp >= 1_000_000_000 ==> x_span(h) == h.last().timestamp
            - h[0].timestamp,
        h.last().timestamp - h[0].timestamp <= 1_000_000_000 ==> x_span(h) == 1_000_000_000,
        x_span(Seq::<Sample>::empty()) == 1_000_000_000,
{
}

/// The current deltas are the growth of the counters since the last sample but one over the
/// seconds since then, rounded down.
pub proof fn law_current_deltas_are_the_growth_per_second(h: Seq<Sample>)
    ensures
        h.len() < 2 ==> current_hits(h) == 0 && current_misses(h) == 0,
        h.len() >= 2 && h[h.len() - 2].timestamp < h.last().timestamp ==> {
            let (before, last) = (h[h.len() - 2], h.last());
            let time = last.timestamp - before.timestamp;
            &&& before.hits <= last.hits ==> current_hits(h) * time <= (last.hits - before.hits)
                * 1_000_000_000 < (current_hits(h) + 1) * time
            &&& before.hits > last.hits ==> current_hits(h) == 0
            &&& before.misses <= last.misses ==> current_misses(h) * time <= (last.misses
                - before.misses) * 1_000_000_000 < (current_misses(h) + 1) * time
            &&& before.misses > last.misses ==> current_misses(h) == 0
        },
        h.len() >= 2 && h[h.len() - 2].timestamp >= h.last().timestamp ==> {
            let (before, last) = (h[h.len() - 2], h.last());
            &&& before.hits <= last.hits ==> current_hits(h) == last.hits - before.hits
            &&& before.hits > last.hits ==> current_hits(h) == 0
            &&& before.misses <= last.misses ==> current_misses(h) == last.misses - before.misses
            &&& before.misses > last.misses ==> current_misses(h) == 0
        },
{
    if h.len() >= 2 {
        let n = h.len() - 1;
        law_each_delta_is_that_since_the_sample_before(h, n);
        let (hit, miss) = (hit_points(h)[n].1, miss_points(h)[n].1);
        lemma_rounded_down(hit);
        lemma_rounded_down(miss);
    }
}

proof fn lemma_rounded_down(rate: Rate)
    requires
        rate.elapsed > 0,
    ensures
        crate::rate::per_second(rate) * rate.elapsed <= rate.increase * 1_000_000_000 < (
        crate::rate::per_second(rate) + 1) * rate.elapsed,
        rate.increase == 0 ==> crate::rate::per_second(rate) == 0,
        rate.elapsed == 1_000_000_000 ==> crate::rate::per_second(rate) == rate.increase,
{
    law_per_second_times_elapsed_is_the_increase(rate);
    let d = rate.elapsed as int;
    assert(0int / d == 0) by (nonlinear_arith)
        requires
            d > 0,
    ;
    if rate.increase == 0 {
        assert(rate.increase * SECOND == 0);
    }
    if rate.elapsed == 1_000_000_000 {
        assert(rate.increase * SECOND / 1_000_000_000 == rate.increase);
    }
}

/// A quotient is rounded to the nearest whole number, and to an even one where two are equally
/// near.
pub proof fn law_halves_are_rounded_to_even(n: nat, unit: nat)
    requires
        unit > 0,
    ensures
        2 * n - unit <= 2 * (nearest(n, unit) * unit) <= 2 * n + unit,
        2 * (nearest(n, unit) * unit) == 2 * n - unit || 2 * (nearest(n, unit) * unit) == 2 * n
            + unit ==> nearest(n, unit) % 2 == 0,
{
    law_nearest_is_within_half(n, unit);
    let below = n / unit;
    vstd::arithmetic::div_mod::lemma_fundamental_div_mod(n as int, unit as int);
    assert(unit * below == below * unit) by (nonlinear_arith);
    assert((below + 1) * unit == below * unit + unit) by (nonlinear_arith);
}

/// A time axis of less than two minutes has its length in seconds, rounded, on the left, half of
/// it in the middle, and `now` on the right. One of two minutes or more is labelled by its length
/// in minutes, and an empty one as a minute.
pub proof fn law_time_axis_is_labelled_by_its_length(h: Seq<Sample>)
    ensures
        h.len() == 0 ==> time_labels(h) == (TimeLabelsModel::Ready {
            oldest: "1m ago"@,
            middle: "30s ago"@,
            newest: "now"@,
        }),
        h.len() > 0 && x_span(h) >= 120_000_000_000 ==> time_labels(h) == (
        TimeLabelsModel::Minutes { span: x_span(h) }),
        h.len() > 0 && x_span(h) < 120_000_000_000 ==> time_labels(h) == (TimeLabelsModel::Ready {
            oldest: decimal_text(nearest(x_span(h) as nat, 1_000_000_000)) + "s ago"@,
            middle: decimal_text(nearest(x_span(h) as nat, 2_000_000_000)) + "s ago"@,
            newest: "now"@,
        }),
{
}

/// Labels are their three texts, or the length in minutes to come.
pub proof fn law_labels_are_their_texts(oldest: String, middle: String, newest: String, span: u128)
    ensures
        (TimeLabels::Ready { oldest, middle, newest })@ == (TimeLabelsModel::Ready {
            oldest: oldest@,
            middle: middle@,
            newest: newest@,
        }),
        (TimeLabels::Minutes { span })@ == (TimeLabelsModel::Minutes { span }),
{
}

/// A window of so many minutes and seconds, and less than a second more, is named by its minutes
/// where there are no seconds, else by all its seconds; one of less than a second is named as a
/// second.
pub proof fn law_windows_are_named_by_their_whole_seconds(
    minutes: nat,
    seconds: nat,
    rest: nat,
    window: u128,
)
    requires
        seconds < 60,
        rest < 1_000_000_000,
        window == (60 * minutes + seconds) * 1_000_000_000 + rest,
    ensures
        minutes > 0 && seconds == 0 ==> window_name(window) == "last "@ + decimal_text(minutes)
            + "m"@,
        seconds > 0 ==> window_name(window) == "last "@ + decimal_text(60 * minutes + seconds)
            + "s"@,
        minutes == 0 && seconds == 0 ==> window_name(window) == "last "@ + decimal_text(1) + "s"@,
{
    assert(window / SECOND == 60 * minutes + seconds);
}

} // verus!
