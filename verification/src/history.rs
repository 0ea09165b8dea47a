//! The rolling window of samples, and the series that the charts show of it.
//!
//! Points in time and lengths of time are counted in nanoseconds; a point in time is counted from
//! an origin that is the same for all of them.

use std::collections::VecDeque;
use vstd::prelude::*;
use vstd::string::StringExecFns;

use crate::decimal::Decimal;
use crate::format::{decimal_text, push_decimal};
use crate::rate::{each_second, per_second, rate_of, rate_over, whole_per_second, Rate};
use crate::stats::Stats;

verus! {

/// The nanoseconds in a second.
pub const SECOND: u128 = 1_000_000_000;

/// A ratio from zero to one, as the quotient of two counts.
#[derive(Clone, Copy, Debug, PartialEq, Eq, Structural)]
pub struct HitRate {
    /// Never greater than the whole.
    pub part: u64,
    /// Never zero.
    pub whole: u64,
}

/// Whether a quotient is a ratio from zero to one.
pub open spec fn is_ratio(rate: HitRate) -> bool {
    rate.part <= rate.whole && rate.whole > 0
}

/// Time-series sample used for charts.
#[derive(Debug)]
pub struct Sample {
    /// Point in time when the sample was captured.
    pub timestamp: u128,
    /// Total hits at sample time.
    pub hits: u64,
    /// Total misses at sample time.
    pub misses: u64,
    /// Hit rate ratio at sample time, from zero to one.
    pub hit_rate: HitRate,
    /// Cache size in GB at sample time, if available.
    pub cache_size_used_gb: Option<Decimal>,
    /// Cache size limit in GB at sample time, if available.
    pub cache_size_max_gb: Option<Decimal>,
}

/// The hit rate of some statistics: the hits among the cacheable calls, or zero where there was no
/// cacheable call. Where more hits than cacheable calls are reported, all of the calls count as
/// hits.
pub open spec fn hit_rate_of(stats: Stats) -> HitRate {
    if stats.cacheable_calls > 0 {
        HitRate {
            part: if stats.hits <= stats.cacheable_calls {
                stats.hits
            } else {
                stats.cacheable_calls
            },
            whole: stats.cacheable_calls,
        }
    } else {
        no_hits()
    }
}

/// The hit rate zero.
pub open spec fn no_hits() -> HitRate {
    HitRate { part: 0, whole: 1 }
}

/// The sample that is taken of some statistics.
pub open spec fn sample_of(stats: Stats, now: u128) -> Sample {
    Sample {
        timestamp: now,
        hits: stats.hits,
        misses: stats.misses,
        hit_rate: hit_rate_of(stats),
        cache_size_used_gb: stats.cache_size_used_gb,
        cache_size_max_gb: stats.cache_size_max_gb,
    }
}

/// The time from one point to a later one, or zero where that is not later.
pub open spec fn time_between(earlier: u128, later: u128) -> u128 {
    if later >= earlier {
        (later - earlier) as u128
    } else {
        0
    }
}

/// Whether a sample is older than the window allows.
pub open spec fn is_expired(sample: Sample, latest: u128, window: u128) -> bool {
    time_between(sample.timestamp, latest) > window
}

/// The number of leading samples that are older than the window allows.
pub open spec fn expired_count(h: Seq<Sample>, latest: u128, window: u128) -> nat
    decreases h.len(),
{
    if h.len() == 0 || !is_expired(h.first(), latest, window) {
        0
    } else {
        1 + expired_count(h.drop_first(), latest, window)
    }
}

/// A history without the leading samples that are too old at the time of the last one.
pub open spec fn trimmed_history(h: Seq<Sample>, window: u128) -> Seq<Sample> {
    if h.len() == 0 {
        h
    } else {
        h.skip(expired_count(h, h.last().timestamp, window) as int)
    }
}

/// What is left when one number is taken from another, or zero where nothing is.
pub open spec fn excess(value: u64, base: u64) -> u64 {
    if value >= base {
        (value - base) as u64
    } else {
        0
    }
}

/// The hits per second between a sample and the one before it. The first sample has none.
pub open spec fn hit_delta(h: Seq<Sample>, i: int) -> Rate {
    if i > 0 {
        rate_over(
            excess(h[i].hits, h[i - 1].hits),
            time_between(h[i - 1].timestamp, h[i].timestamp),
        )
    } else {
        each_second(0)
    }
}

/// The misses per second between a sample and the one before it. The first sample has none.
pub open spec fn miss_delta(h: Seq<Sample>, i: int) -> Rate {
    if i > 0 {
        rate_over(
            excess(h[i].misses, h[i - 1].misses),
            time_between(h[i - 1].timestamp, h[i].timestamp),
        )
    } else {
        each_second(0)
    }
}

/// The place of a point in time on the x-axis: the time since the oldest sample.
pub open spec fn x_of(h: Seq<Sample>, timestamp: u128) -> u128 {
    if h.len() > 0 {
        time_between(h.first().timestamp, timestamp)
    } else {
        0
    }
}

/// The hits per second, each with its place on the x-axis.
pub open spec fn hit_points(h: Seq<Sample>) -> Seq<(u128, Rate)> {
    Seq::new(h.len(), |i: int| (x_of(h, h[i].timestamp), hit_delta(h, i)))
}

/// The misses per second, each with its place on the x-axis.
pub open spec fn miss_points(h: Seq<Sample>) -> Seq<(u128, Rate)> {
    Seq::new(h.len(), |i: int| (x_of(h, h[i].timestamp), miss_delta(h, i)))
}

/// The length of the x-axis: from the oldest sample to the newest, but no less than a second.
pub open spec fn x_span(h: Seq<Sample>) -> u128 {
    if h.len() > 0 && x_of(h, h.last().timestamp) > SECOND {
        x_of(h, h.last().timestamp)
    } else {
        SECOND
    }
}

/// The number of newest samples that lie within the window before a point in time.
pub open spec fn recent_count(h: Seq<Sample>, latest: u128, window: u128) -> nat
    decreases h.len(),
{
    if h.len() == 0 || is_expired(h.last(), latest, window) {
        0
    } else {
        1 + recent_count(h.drop_last(), latest, window)
    }
}

/// The hit rates within the window before the newest sample, newest first.
pub open spec fn recent_rates(h: Seq<Sample>, window: u128) -> Seq<HitRate> {
    if h.len() == 0 {
        Seq::empty()
    } else {
        Seq::new(
            recent_count(h, h.last().timestamp, window),
            |i: int| h[h.len() - 1 - i].hit_rate,
        )
    }
}

/// The whole number next to `n / unit`; of two that are equally near, the even one.
pub open spec fn nearest(n: nat, unit: nat) -> nat {
    let below = n / unit;
    let rest = n % unit;
    if 2 * rest > unit || (2 * rest == unit && below % 2 == 1) {
        below + 1
    } else {
        below
    }
}

/// A number of seconds as a label for the past.
pub open spec fn seconds_ago(seconds: nat) -> Seq<char> {
    decimal_text(seconds) + "s ago"@
}

/// The labels of the time axis, which counts back from the right.
#[derive(Debug)]
pub enum TimeLabels {
    /// The labels of the left end, of the middle and of the right end.
    Ready { oldest: String, middle: String, newest: String },
    /// An axis of two minutes or more, which is labelled in minutes with one decimal place: its
    /// length on the left, half of it in the middle, and `now` on the right.
    Minutes { span: u128 },
}

/// The contents of [`TimeLabels`].
pub enum TimeLabelsModel {
    Ready { oldest: Seq<char>, middle: Seq<char>, newest: Seq<char> },
    Minutes { span: u128 },
}

impl View for TimeLabels {
    type V = TimeLabelsModel;

    open spec fn view(&self) -> TimeLabelsModel {
        match self {
            TimeLabels::Ready { oldest, middle, newest } => TimeLabelsModel::Ready {
                oldest: oldest@,
                middle: middle@,
                newest: newest@,
            },
            TimeLabels::Minutes { span } => TimeLabelsModel::Minutes { span: *span },
        }
    }
}

/// The labels that the time axis of a history has.
pub open spec fn time_labels(h: Seq<Sample>) -> TimeLabelsModel {
    if h.len() == 0 {
        TimeLabelsModel::Ready { oldest: "1m ago"@, middle: "30s ago"@, newest: "now"@ }
    } else if x_span(h) < 120 * SECOND {
        TimeLabelsModel::Ready {
            oldest: seconds_ago(nearest(x_span(h) as nat, SECOND as nat)),
            middle: seconds_ago(nearest(x_span(h) as nat, 2 * SECOND as nat)),
            newest: "now"@,
        }
    } else {
        TimeLabelsModel::Minutes { span: x_span(h) }
    }
}

/// The whole seconds of a window, but no less than one.
pub open spec fn window_seconds(window: u128) -> nat {
    if window / SECOND > 1 {
        (window / SECOND) as nat
    } else {
        1
    }
}

/// The name of a window: its length in minutes where that is a whole number, else in seconds.
pub open spec fn window_name(window: u128) -> Seq<char> {
    let seconds = window_seconds(window);
    if seconds % 60 == 0 {
        "last "@ + decimal_text(seconds / 60) + "m"@
    } else {
        "last "@ + decimal_text(seconds) + "s"@
    }
}

proof fn lemma_expired_count(h: Seq<Sample>, latest: u128, window: u128)
    ensures
        expired_count(h, latest, window) <= h.len(),
    decreases h.len(),
{
    if h.len() > 0 && is_expired(h.first(), latest, window) {
        lemma_expired_count(h.drop_first(), latest, window);
    }
}

/// The time from one point to a later one, or zero.
pub fn elapsed(earlier: u128, later: u128) -> (time: u128)
    ensures
        time == time_between(earlier, later),
{
    later.saturating_sub(earlier)
}

/// The hit rate of some statistics.
pub fn hit_rate(stats: &Stats) -> (rate: HitRate)
    ensures
        rate == hit_rate_of(*stats),
        rate.part <= rate.whole,
        rate.whole > 0,
{
    if stats.cacheable_calls > 0 {
        let part: u64 = if stats.hits <= stats.cacheable_calls {
            stats.hits
        } else {
            stats.cacheable_calls
        };
        HitRate { part, whole: stats.cacheable_calls }
    } else {
        HitRate { part: 0, whole: 1 }
    }
}

/// A copy of a size.
pub fn copy_size(size: &Option<Decimal>) -> (copy: Option<Decimal>)
    ensures
        copy == *size,
{
    match size {
        Some(d) => Some(d.clone()),
        None => None,
    }
}

/// Trims history to the configured time window.
pub fn trim_history(history: &mut VecDeque<Sample>, window: u128)
    ensures
        final(history)@ == trimmed_history(old(history)@, window),
{
    let n: usize = history.len();
    if n == 0 {
        return;
    }
    let latest: u128 = history[n - 1].timestamp;
    let ghost whole = history@;
    let ghost mut dropped: int = 0;
    proof {
        lemma_expired_count(whole, latest, window);
        assert(whole.skip(0) =~= whole);
    }
    while history.len() > 0 && elapsed(history[0].timestamp, latest) > window
        invariant
            0 <= dropped <= whole.len(),
            history@ == whole.skip(dropped),
            expired_count(whole, latest, window) == dropped + expired_count(
                history@,
                latest,
                window,
            ),
        decreases history@.len(),
    {
        history.pop_front();
        proof {
            assert(history@ =~= whole.skip(dropped).drop_first());
            assert(history@ =~= whole.skip(dropped + 1));
            dropped = dropped + 1;
        }
    }
}

/// Adds a new sample, captured at `now`, to the history.
pub fn push_sample(history: &mut VecDeque<Sample>, stats: &Stats, now: u128, window: u128)
    ensures
        final(history)@ == trimmed_history(old(history)@.push(sample_of(*stats, now)), window),
{
    history.push_back(
        Sample {
            timestamp: now,
            hits: stats.hits,
            misses: stats.misses,
            hit_rate: hit_rate(stats),
            cache_size_used_gb: copy_size(&stats.cache_size_used_gb),
            cache_size_max_gb: copy_size(&stats.cache_size_max_gb),
        },
    );
    trim_history(history, window);
}

/// Computes the X-axis coordinate of a sample: the time since the oldest sample.
pub fn sample_x(history: &VecDeque<Sample>, sample: &Sample) -> (x: u128)
    ensures
        x == x_of(history@, sample.timestamp),
{
    if history.len() > 0 {
        elapsed(history[0].timestamp, sample.timestamp)
    } else {
        0
    }
}

/// The deltas per second from one sample to the next one.
fn deltas_between(before: &Sample, sample: &Sample) -> (deltas: (Rate, Rate))
    ensures
        deltas.0 == rate_over(
            excess(sample.hits, before.hits),
            time_between(before.timestamp, sample.timestamp),
        ),
        deltas.1 == rate_over(
            excess(sample.misses, before.misses),
            time_between(before.timestamp, sample.timestamp),
        ),
        deltas.0.elapsed > 0,
        deltas.1.elapsed > 0,
{
    let time: u128 = elapsed(before.timestamp, sample.timestamp);
    (
        rate_of(sample.hits.saturating_sub(before.hits), time),
        rate_of(sample.misses.saturating_sub(before.misses), time),
    )
}

/// Converts total hit/miss counters into per-second deltas.
pub fn delta_series(history: &VecDeque<Sample>) -> (series: (
    Vec<(u128, Rate)>,
    Vec<(u128, Rate)>,
))
    ensures
        series.0@ == hit_points(history@),
        series.1@ == miss_points(history@),
{
    let n: usize = history.len();
    let mut hits: Vec<(u128, Rate)> = Vec::with_capacity(n);
    let mut misses: Vec<(u128, Rate)> = Vec::with_capacity(n);
    for i in 0..n
        invariant
            n == history@.len(),
            hits@ == hit_points(history@).take(i as int),
            misses@ == miss_points(history@).take(i as int),
    {
        let sample = &history[i];
        let x: u128 = sample_x(history, sample);
        if i > 0 {
            let (hit, miss) = deltas_between(&history[i - 1], sample);
            hits.push((x, hit));
            misses.push((x, miss));
        } else {
            hits.push((x, rate_of(0, SECOND)));
            misses.push((x, rate_of(0, SECOND)));
        }
        proof {
            assert(hits@ =~= hit_points(history@).take(i + 1));
            assert(misses@ =~= miss_points(history@).take(i + 1));
        }
    }
    proof {
        assert(hit_points(history@).take(n as int) =~= hit_points(history@));
        assert(miss_points(history@).take(n as int) =~= miss_points(history@));
    }
    (hits, misses)
}

/// The latest delta per second of hits, rounded down.
pub open spec fn current_hits(h: Seq<Sample>) -> int {
    if h.len() < 2 {
        0
    } else {
        per_second(hit_delta(h, h.len() - 1))
    }
}

/// The latest delta per second of misses, rounded down.
pub open spec fn current_misses(h: Seq<Sample>) -> int {
    if h.len() < 2 {
        0
    } else {
        per_second(miss_delta(h, h.len() - 1))
    }
}

/// Returns the latest per-second deltas for hits and misses, rounded down: the increase from the
/// last sample but one to the last, divided by the seconds between them. Where no time lies
/// between them, a second is taken instead.
pub fn current_deltas(history: &VecDeque<Sample>) -> (deltas: (u128, u128))
    ensures
        deltas.0 == current_hits(history@),
        deltas.1 == current_misses(history@),
        history@.len() >= 2 ==> {
            let (before, last) = (history@[history@.len() - 2], history@.last());
            let time = time_between(before.timestamp, last.timestamp);
            time > 0 ==> {
                &&& deltas.0 == excess(last.hits, before.hits) * SECOND / (time as int)
                &&& deltas.1 == excess(last.misses, before.misses) * SECOND / (time as int)
            }
        },
{
    let n: usize = history.len();
    if n < 2 {
        return (0, 0);
    }
    let (hit, miss) = deltas_between(&history[n - 2], &history[n - 1]);
    (whole_per_second(hit), whole_per_second(miss))
}

/// Computes x-axis bounds from history.
pub fn x_bounds(history: &VecDeque<Sample>) -> (bounds: (u128, u128))
    ensures
        bounds == (0u128, x_span(history@)),
{
    let n: usize = history.len();
    if n > 0 {
        let span: u128 = sample_x(history, &history[n - 1]);
        if span > SECOND {
            return (0, span);
        }
    }
    (0, SECOND)
}

/// Collects the hit rates over a time window ending at the latest sample, newest first. Their mean
/// is the average hit rate of the window.
pub fn average_hit_rate_window(history: &VecDeque<Sample>, window: u128) -> (rates: Vec<HitRate>)
    ensures
        rates@ == recent_rates(history@, window),
{
    let n: usize = history.len();
    let mut rates: Vec<HitRate> = Vec::new();
    if n == 0 {
        return rates;
    }
    let latest: u128 = history[n - 1].timestamp;
    let mut left: usize = n;
    proof {
        assert(history@.take(n as int) =~= history@);
    }
    while left > 0 && elapsed(history[left - 1].timestamp, latest) <= window
        invariant
            left <= n == history@.len(),
            recent_count(history@, latest, window) == (n - left) + recent_count(
                history@.take(left as int),
                latest,
                window,
            ),
            rates@ == Seq::new((n - left) as nat, |i: int| history@[n - 1 - i].hit_rate),
        decreases left,
    {
        rates.push(history[left - 1].hit_rate);
        proof {
            assert(history@.take(left as int).drop_last() =~= history@.take(left - 1));
            assert(rates@ =~= Seq::new(
                (n - left + 1) as nat,
                |i: int| history@[n - 1 - i].hit_rate,
            ));
        }
        left -= 1;
    }
    rates
}

/// Divides, and rounds to the nearest whole number, half to even.
fn round_div(n: u128, unit: u128) -> (rounded: u128)
    requires
        0 < unit <= 2 * SECOND,
    ensures
        rounded == nearest(n as nat, unit as nat),
{
    let below: u128 = n / unit;
    let rest: u128 = n % unit;
    proof {
        assert(below <= n) by (nonlinear_arith)
            requires
                below == n / unit,
                unit > 0,
        ;
        assert(rest > 0 ==> below < n) by (nonlinear_arith)
            requires
                below == n / unit,
                rest == n % unit,
                unit > 0,
        ;
    }
    if 2 * rest > unit || (2 * rest == unit && below % 2 == 1) {
        below + 1
    } else {
        below
    }
}

fn seconds_label(seconds: u128) -> (label: String)
    ensures
        label@ == seconds_ago(seconds as nat),
{
    let mut label = String::new();
    push_decimal(&mut label, seconds);
    label.append("s ago");
    proof {
        assert(label@ =~= seconds_ago(seconds as nat));
    }
    label
}

/// Builds X-axis labels with "time ago" semantics (max -> 0).
pub fn x_axis_labels_time(history: &VecDeque<Sample>) -> (labels: TimeLabels)
    ensures
        labels@ == time_labels(history@),
{
    if history.len() == 0 {
        return TimeLabels::Ready {
            oldest: String::from_str("1m ago"),
            middle: String::from_str("30s ago"),
            newest: String::from_str("now"),
        };
    }
    let span: u128 = x_bounds(history).1;
    if span < 120 * SECOND {
        TimeLabels::Ready {
            oldest: seconds_label(round_div(span, SECOND)),
            middle: seconds_label(round_div(span, 2 * SECOND)),
            newest: String::from_str("now"),
        }
    } else {
        TimeLabels::Minutes { span }
    }
}

/// Formats the window size for chart titles.
pub fn window_label(window: u128) -> (label: String)
    ensures
        label@ == window_name(window),
{
    let whole: u128 = window / SECOND;
    let seconds: u128 = if whole > 1 {
        whole
    } else {
        1
    };
    let mut label = String::from_str("last ");
    if seconds % 60 == 0 {
        push_decimal(&mut label, seconds / 60);
        label.append("m");
    } else {
        push_decimal(&mut label, seconds);
        label.append("s");
    }
    label
}

} // verus!
