//! What the panels of the screen show.

use std::collections::VecDeque;
use vstd::prelude::*;
use vstd::string::StringExecFns;

use crate::decimal::{
    decimal_less, law_decimal_order_is_transitive, law_no_decimal_is_less_than_itself, Decimal,
};
use crate::format::{fmt_u64, grouped_text, push_grouped};
use crate::history::{
    average_hit_rate_window, copy_size, current_deltas, current_hits, current_misses, delta_series,
    hit_points, hit_rate, hit_rate_of, miss_points, no_hits, recent_rates, sample_x, time_labels,
    window_label, window_name, x_axis_labels_time, x_bounds, x_of, x_span, HitRate, Sample,
    TimeLabels, SECOND,
};
use crate::history_laws::law_deltas_take_time;
use crate::rate::{
    each_second, is_slower, law_no_rate_is_less_than_itself, law_rate_order_is_transitive,
    rate_less, rate_of, Rate,
};
use crate::stats::Stats;
use crate::text::joined_lines;

verus! {

/// The panels of the top row.
#[derive(Debug)]
pub struct HeaderPanel {
    /// The ratio of the hit rate gauge.
    pub hit_rate: HitRate,
    /// The lines of the summary that tell the counts.
    pub counts: String,
    /// The hit rates of the last minute, of which the last line of the summary tells the mean.
    pub recent_rates: Vec<HitRate>,
    /// The used and the greatest cache size that the cache size gauge shows, if it shows any.
    pub cache: Option<(Decimal, Decimal)>,
}

/// The lines of the summary that tell the counts.
pub open spec fn counts_text(stats: Stats) -> Seq<char> {
    joined_lines(
        seq![
            "Cacheable calls:           "@ + grouped_text(stats.cacheable_calls as nat),
            "Hits:                      "@ + grouped_text(stats.hits as nat),
            "Misses:                    "@ + grouped_text(stats.misses as nat),
            "Uncacheable:               "@ + grouped_text(stats.uncacheable_calls as nat),
        ],
    )
}

/// The used and the greatest cache size, where both are known.
pub open spec fn known_cache(stats: Stats) -> Option<(Decimal, Decimal)> {
    match (stats.cache_size_used_gb, stats.cache_size_max_gb) {
        (Some(used), Some(max)) => Some((used, max)),
        _ => None,
    }
}

fn write_counts(stats: &Stats) -> (shown: String)
    ensures
        shown@ == counts_text(*stats),
{
    let mut shown = String::from_str("Cacheable calls:           ");
    shown.append(fmt_u64(stats.cacheable_calls).as_str());
    let ghost first = shown@;
    shown.push('\n');
    shown.append("Hits:                      ");
    shown.append(fmt_u64(stats.hits).as_str());
    let ghost second = shown@;
    shown.push('\n');
    shown.append("Misses:                    ");
    shown.append(fmt_u64(stats.misses).as_str());
    let ghost third = shown@;
    shown.push('\n');
    shown.append("Uncacheable:               ");
    shown.append(fmt_u64(stats.uncacheable_calls).as_str());
    proof {
        let a = "Cacheable calls:           "@ + grouped_text(stats.cacheable_calls as nat);
        let b = "Hits:                      "@ + grouped_text(stats.hits as nat);
        let c = "Misses:                    "@ + grouped_text(stats.misses as nat);
        let d = "Uncacheable:               "@ + grouped_text(stats.uncacheable_calls as nat);
        assert(first =~= joined_lines(seq![a]));
        assert(seq![a, b].drop_last() =~= seq![a]);
        assert(second =~= joined_lines(seq![a, b]));
        assert(seq![a, b, c].drop_last() =~= seq![a, b]);
        assert(third =~= joined_lines(seq![a, b, c]));
        assert(seq![a, b, c, d].drop_last() =~= seq![a, b, c]);
        assert(shown@ =~= joined_lines(seq![a, b, c, d]));
    }
    shown
}

/// Prepares the top header row with gauges and summary info.
pub fn header_panel(stats: &Stats, history: &VecDeque<Sample>) -> (panel: HeaderPanel)
    ensures
        panel.hit_rate == hit_rate_of(*stats),
        panel.counts@ == counts_text(*stats),
        panel.recent_rates@ == recent_rates(history@, (60 * SECOND) as u128),
        panel.cache == known_cache(*stats),
{
    let cache = match (copy_size(&stats.cache_size_used_gb), copy_size(&stats.cache_size_max_gb)) {
        (Some(used), Some(max)) => Some((used, max)),
        _ => None,
    };
    HeaderPanel {
        hit_rate: hit_rate(stats),
        counts: write_counts(stats),
        recent_rates: average_hit_rate_window(history, 60 * SECOND),
        cache,
    }
}

/// The chart of hits and misses.
#[derive(Debug)]
pub struct RatesChart {
    pub title: String,
    /// The hits per second, each with its place on the x-axis.
    pub hits: Vec<(u128, Rate)>,
    /// The misses per second, each with its place on the x-axis.
    pub misses: Vec<(u128, Rate)>,
    /// The upper end of the y-axis.
    pub y_max: Rate,
    /// The ends of the x-axis.
    pub x_bounds: (u128, u128),
    pub x_labels: TimeLabels,
}

/// The greatest rate among points, or one per second where none is greater.
pub open spec fn ceiling(points: Seq<(u128, Rate)>) -> Rate
    decreases points.len(),
{
    if points.len() == 0 {
        each_second(1)
    } else if rate_less(ceiling(points.drop_last()), points.last().1) {
        points.last().1
    } else {
        ceiling(points.drop_last())
    }
}

/// The title of the chart of hits and misses.
pub open spec fn rates_title(h: Seq<Sample>, window: u128) -> Seq<char> {
    "Hits vs Misses (per second) | "@ + window_name(window) + " | current H "@ + grouped_text(
        current_hits(h) as nat,
    ) + " /s, M "@ + grouped_text(current_misses(h) as nat) + " /s"@
}

/// The ceiling is at least one per second and lies below no point, and it is the rate of a point
/// unless it is one per second.
pub proof fn law_ceiling_is_the_least_bound(points: Seq<(u128, Rate)>)
    requires
        forall|i: int| 0 <= i < points.len() ==> (#[trigger] points[i]).1.elapsed > 0,
    ensures
        ceiling(points).elapsed > 0,
        !rate_less(ceiling(points), each_second(1)),
        forall|i: int|
            0 <= i < points.len() ==> !rate_less(ceiling(points), (#[trigger] points[i]).1),
        ceiling(points) == each_second(1) || exists|i: int|
            0 <= i < points.len() && (#[trigger] points[i]).1 == ceiling(points),
    decreases points.len(),
{
    if points.len() == 0 {
        law_no_rate_is_less_than_itself(each_second(1));
    } else {
        let rest = points.drop_last();
        let below = ceiling(rest);
        let newest = points.last().1;
        assert forall|i: int| 0 <= i < rest.len() implies (#[trigger] rest[i]).1.elapsed > 0 by {
            assert(points[i].1.elapsed > 0);
        }
        assert(points[points.len() - 1].1.elapsed > 0);
        law_ceiling_is_the_least_bound(rest);
        if rate_less(below, newest) {
            law_no_rate_is_less_than_itself(newest);
            if rate_less(newest, each_second(1)) {
                law_rate_order_is_transitive(newest, each_second(1), below);
                law_rate_order_is_transitive(below, newest, below);
            }
            assert forall|i: int| 0 <= i < points.len() implies !rate_less(
                newest,
                (#[trigger] points[i]).1,
            ) by {
                if i < points.len() - 1 && rate_less(newest, points[i].1) {
                    assert(points[i] == rest[i]);
                    law_rate_order_is_transitive(newest, points[i].1, below);
                    law_rate_order_is_transitive(below, newest, below);
                }
            }
            assert(points[points.len() - 1].1 == ceiling(points));
        } else {
            assert forall|i: int| 0 <= i < points.len() implies !rate_less(
                below,
                (#[trigger] points[i]).1,
            ) by {
                if i < points.len() - 1 {
                    assert(points[i] == rest[i]);
                }
            }
            if below != each_second(1) {
                let i = choose|i: int| 0 <= i < rest.len() && (#[trigger] rest[i]).1 == below;
                assert(points[i].1 == ceiling(points));
            }
        }
    }
}

/// The chart of hits and misses is high enough for every point of both series.
pub proof fn law_no_point_is_above_the_chart(h: Seq<Sample>, i: int)
    requires
        0 <= i < h.len(),
    ensures
        !rate_less(ceiling(hit_points(h) + miss_points(h)), hit_points(h)[i].1),
        !rate_less(ceiling(hit_points(h) + miss_points(h)), miss_points(h)[i].1),
{
    let all = hit_points(h) + miss_points(h);
    law_deltas_take_time(h);
    assert forall|j: int| 0 <= j < all.len() implies (#[trigger] all[j]).1.elapsed > 0 by {
        if j < h.len() {
            assert(all[j] == hit_points(h)[j]);
        } else {
            assert(all[j] == miss_points(h)[j - h.len()]);
        }
    }
    law_ceiling_is_the_least_bound(all);
    assert(all[i] == hit_points(h)[i]);
    assert(all[h.len() + i] == miss_points(h)[i]);
}

/// Raises a ceiling over points that follow others.
fn raise_ceiling(
    low: Rate,
    points: &Vec<(u128, Rate)>,
    Ghost(before): Ghost<Seq<(u128, Rate)>>,
) -> (top: Rate)
    requires
        low == ceiling(before),
    ensures
        top == ceiling(before + points@),
{
    let mut top: Rate = low;
    let n: usize = points.len();
    proof {
        assert(before + points@.take(0) =~= before);
    }
    for i in 0..n
        invariant
            n == points@.len(),
            top == ceiling(before + points@.take(i as int)),
    {
        proof {
            let longer = before + points@.take(i + 1);
            assert(longer.drop_last() =~= before + points@.take(i as int));
            assert(longer.last() == points@[i as int]);
        }
        if is_slower(top, points[i].1) {
            top = points[i].1;
        }
    }
    proof {
        assert(points@.take(n as int) =~= points@);
    }
    top
}

/// Prepares the hits vs misses per-second chart.
pub fn rates_chart(history: &VecDeque<Sample>, window: u128) -> (chart: RatesChart)
    ensures
        chart.title@ == rates_title(history@, window),
        chart.hits@ == hit_points(history@),
        chart.misses@ == miss_points(history@),
        chart.y_max == ceiling(hit_points(history@) + miss_points(history@)),
        chart.x_bounds == (0u128, x_span(history@)),
        chart.x_labels@ == time_labels(history@),
{
    let (hits, misses) = delta_series(history);
    proof {
        assert(Seq::<(u128, Rate)>::empty() + hits@ =~= hits@);
    }
    let top_hits: Rate = raise_ceiling(rate_of(1, SECOND), &hits, Ghost(Seq::empty()));
    let y_max: Rate = raise_ceiling(top_hits, &misses, Ghost(hits@));
    let (hits_now, misses_now) = current_deltas(history);
    let mut title = String::from_str("Hits vs Misses (per second) | ");
    let label = window_label(window);
    title.append(label.as_str());
    title.append(" | current H ");
    push_grouped(&mut title, hits_now);
    title.append(" /s, M ");
    push_grouped(&mut title, misses_now);
    title.append(" /s");
    RatesChart {
        title,
        hits,
        misses,
        y_max,
        x_bounds: x_bounds(history),
        x_labels: x_axis_labels_time(history),
    }
}

/// The current cache size, as far as it is known.
#[derive(Debug)]
pub enum CacheLabel {
    /// The used and the greatest size.
    UsedOfMax { used: Decimal, max: Decimal },
    /// The used size alone.
    Used { used: Decimal },
    /// Nothing.
    NotAvailable,
}

/// The charts of the hit rate and the cache size.
#[derive(Debug)]
pub struct TrendCharts {
    /// The title of the hit rate chart, up to the current hit rate.
    pub hit_rate_title: String,
    /// The hit rates, each with its place on the x-axis.
    pub hit_rates: Vec<(u128, HitRate)>,
    /// The current hit rate.
    pub current_hit_rate: HitRate,
    /// The title of the cache size chart, up to the current cache size.
    pub cache_title: String,
    /// The used cache sizes, each with its place on the x-axis.
    pub cache_sizes: Vec<(u128, Decimal)>,
    /// The upper end of the y-axis of the cache size chart.
    pub cache_max: Decimal,
    /// The current cache size.
    pub current_cache: CacheLabel,
    /// The ends of the x-axis.
    pub x_bounds: (u128, u128),
    pub x_labels: TimeLabels,
}

/// The hit rates, each with its place on the x-axis.
pub open spec fn rate_points(h: Seq<Sample>) -> Seq<(u128, HitRate)> {
    Seq::new(h.len(), |i: int| (x_of(h, h[i].timestamp), h[i].hit_rate))
}

/// The used cache sizes of the first `n` samples, each with its place on the x-axis. Samples that
/// have none are left out.
pub open spec fn size_points(h: Seq<Sample>, n: int) -> Seq<(u128, Decimal)>
    decreases n,
{
    if n <= 0 {
        Seq::empty()
    } else {
        match h[n - 1].cache_size_used_gb {
            Some(used) => size_points(h, n - 1).push((x_of(h, h[n - 1].timestamp), used)),
            None => size_points(h, n - 1),
        }
    }
}

/// Whether a number is the greatest of the sizes, or one where none is greater than one.
pub open spec fn is_size_ceiling(top: Seq<char>, points: Seq<(u128, Decimal)>) -> bool {
    &&& !decimal_less(top, seq!['1'])
    &&& forall|i: int| 0 <= i < points.len() ==> !decimal_less(top, (#[trigger] points[i]).1@)
    &&& top == seq!['1'] || exists|i: int| 0 <= i < points.len() && (#[trigger] points[i]).1@ == top
}

/// The hit rate of the newest sample.
pub open spec fn current_rate(h: Seq<Sample>) -> HitRate {
    if h.len() > 0 {
        h.last().hit_rate
    } else {
        no_hits()
    }
}

/// The cache size of the newest sample.
pub open spec fn cache_label(h: Seq<Sample>) -> CacheLabel {
    if h.len() == 0 {
        CacheLabel::NotAvailable
    } else {
        match (h.last().cache_size_used_gb, h.last().cache_size_max_gb) {
            (Some(used), Some(max)) => CacheLabel::UsedOfMax { used, max },
            (Some(used), None) => CacheLabel::Used { used },
            _ => CacheLabel::NotAvailable,
        }
    }
}

/// The title of a trend chart, up to the current value.
pub open spec fn trend_title(name: Seq<char>, window: u128) -> Seq<char> {
    name + " | "@ + window_name(window) + " | current "@
}

fn write_trend_title(name: &str, window: u128) -> (title: String)
    ensures
        title@ == trend_title(name@, window),
{
    let mut title = String::from_str(name);
    title.append(" | ");
    let label = window_label(window);
    title.append(label.as_str());
    title.append(" | current ");
    title
}

fn collect_rates(history: &VecDeque<Sample>) -> (points: Vec<(u128, HitRate)>)
    ensures
        points@ == rate_points(history@),
{
    let n: usize = history.len();
    let mut points: Vec<(u128, HitRate)> = Vec::new();
    for i in 0..n
        invariant
            n == history@.len(),
            points@ == rate_points(history@).take(i as int),
    {
        let sample = &history[i];
        points.push((sample_x(history, sample), sample.hit_rate));
        proof {
            assert(points@ =~= rate_points(history@).take(i + 1));
        }
    }
    proof {
        assert(rate_points(history@).take(n as int) =~= rate_points(history@));
    }
    points
}

fn collect_sizes(history: &VecDeque<Sample>) -> (points: Vec<(u128, Decimal)>)
    ensures
        points@ == size_points(history@, history@.len() as int),
{
    let n: usize = history.len();
    let mut points: Vec<(u128, Decimal)> = Vec::new();
    for i in 0..n
        invariant
            n == history@.len(),
            points@ == size_points(history@, i as int),
    {
        let sample = &history[i];
        if let Some(used) = copy_size(&sample.cache_size_used_gb) {
            points.push((sample_x(history, sample), used));
        }
    }
    points
}

fn find_size_ceiling(points: &Vec<(u128, Decimal)>) -> (top: Decimal)
    ensures
        is_size_ceiling(top@, points@),
{
    let mut top = Decimal::one();
    let n: usize = points.len();
    for i in 0..n
        invariant
            n == points@.len(),
            is_size_ceiling(top@, points@.take(i as int)),
    {
        let ghost before = top@;
        let ghost seen = points@.take(i as int);
        let ghost longer = points@.take(i + 1);
        if top.is_less(&points[i].1) {
            top = points[i].1.clone();
            proof {
                law_no_decimal_is_less_than_itself(top@);
                if decimal_less(top@, seq!['1']) {
                    law_decimal_order_is_transitive(top@, seq!['1'], before);
                    law_decimal_order_is_transitive(before, top@, before);
                    law_no_decimal_is_less_than_itself(before);
                }
                assert forall|j: int| 0 <= j < longer.len() implies !decimal_less(
                    top@,
                    (#[trigger] longer[j]).1@,
                ) by {
                    if j < i {
                        assert(seen[j] == longer[j]);
                        if decimal_less(top@, longer[j].1@) {
                            law_decimal_order_is_transitive(top@, longer[j].1@, before);
                            law_decimal_order_is_transitive(before, top@, before);
                        }
                    }
                }
                assert(longer[i as int].1@ == top@);
            }
        } else {
            proof {
                assert forall|j: int| 0 <= j < longer.len() implies !decimal_less(
                    top@,
                    (#[trigger] longer[j]).1@,
                ) by {
                    if j < i {
                        assert(seen[j] == longer[j]);
                    }
                }
                if top@ != seq!['1'] {
                    let j = choose|j: int| 0 <= j < seen.len() && (#[trigger] seen[j]).1@ == top@;
                    assert(longer[j].1@ == top@);
                }
            }
        }
    }
    proof {
        assert(points@.take(n as int) =~= points@);
    }
    top
}

/// Prepares the secondary charts for hit rate and cache size trends.
pub fn trend_charts(history: &VecDeque<Sample>, window: u128) -> (charts: TrendCharts)
    ensures
        charts.hit_rate_title@ == trend_title("Hit Rate Trend"@, window),
        charts.hit_rates@ == rate_points(history@),
        charts.current_hit_rate == current_rate(history@),
        charts.cache_title@ == trend_title("Cache Size Trend"@, window),
        charts.cache_sizes@ == size_points(history@, history@.len() as int),
        is_size_ceiling(charts.cache_max@, size_points(history@, history@.len() as int)),
        charts.current_cache == cache_label(history@),
        charts.x_bounds == (0u128, x_span(history@)),
        charts.x_labels@ == time_labels(history@),
{
    let n: usize = history.len();
    let current_hit_rate = if n > 0 {
        history[n - 1].hit_rate
    } else {
        HitRate { part: 0, whole: 1 }
    };
    let current_cache = if n > 0 {
        let newest = &history[n - 1];
        match (copy_size(&newest.cache_size_used_gb), copy_size(&newest.cache_size_max_gb)) {
            (Some(used), Some(max)) => CacheLabel::UsedOfMax { used, max },
            (Some(used), None) => CacheLabel::Used { used },
            _ => CacheLabel::NotAvailable,
        }
    } else {
        CacheLabel::NotAvailable
    };
    let cache_sizes = collect_sizes(history);
    let cache_max = find_size_ceiling(&cache_sizes);
    TrendCharts {
        hit_rate_title: write_trend_title("Hit Rate Trend", window),
        hit_rates: collect_rates(history),
        current_hit_rate,
        cache_title: write_trend_title("Cache Size Trend", window),
        cache_sizes,
        cache_max,
        current_cache,
        x_bounds: x_bounds(history),
        x_labels: x_axis_labels_time(history),
    }
}

} // verus!
