//! What the panels show of the statistics and the samples, in plain terms.

use vstd::prelude::*;

use crate::decimal::{decimal_less, Decimal};
use crate::format::grouped_text;
use crate::history::{current_hits, current_misses, no_hits, window_name, x_of, Sample};
use crate::screen::{
    cache_label, counts_text, current_rate, is_size_ceiling, known_cache, rate_points, rates_title,
    size_points, trend_title, CacheLabel,
};
use crate::stats::Stats;
use crate::text::joined_lines;
use crate::text_laws::law_joining_puts_a_line_feed_between;

verus! {

/// The cache size gauge shows the used and the greatest size just when both are known, whatever
/// they are, and then it shows these two.
pub proof fn law_cache_gauge_shows_both_sizes_when_known(stats: Stats)
    ensures
        known_cache(stats) is Some <==> stats.cache_size_used_gb is Some && stats.cache_size_max_gb
            is Some,
        known_cache(stats) matches Some(cache) ==> stats.cache_size_used_gb == Some(cache.0)
            && stats.cache_size_max_gb == Some(cache.1),
{
}

/// The summary tells the four counts, one below the other, each behind its label and with
/// separators.
pub proof fn law_summary_tells_the_four_counts(stats: Stats)
    ensures
        counts_text(stats) == "Cacheable calls:           "@ + grouped_text(
            stats.cacheable_calls as nat,
        ) + seq!['\n'] + ("Hits:                      "@ + grouped_text(stats.hits as nat)) + seq![
            '\n',
        ] + ("Misses:                    "@ + grouped_text(stats.misses as nat)) + seq!['\n'] + (
        "Uncacheable:               "@ + grouped_text(stats.uncacheable_calls as nat)),
{
    let a = "Cacheable calls:           "@ + grouped_text(stats.cacheable_calls as nat);
    let b = "Hits:                      "@ + grouped_text(stats.hits as nat);
    let c = "Misses:                    "@ + grouped_text(stats.misses as nat);
    let d = "Uncacheable:               "@ + grouped_text(stats.uncacheable_calls as nat);
    law_joining_puts_a_line_feed_between(seq![a], seq![b]);
    law_joining_puts_a_line_feed_between(seq![b], seq![c]);
    law_joining_puts_a_line_feed_between(seq![c], seq![d]);
    law_joining_puts_a_line_feed_between(seq![d], seq![a]);
    law_joining_puts_a_line_feed_between(seq![a, b], seq![c]);
    law_joining_puts_a_line_feed_between(seq![a, b, c], seq![d]);
    assert(seq![a] + seq![b] =~= seq![a, b]);
    assert(seq![a, b] + seq![c] =~= seq![a, b, c]);
    assert(seq![a, b, c] + seq![d] =~= seq![a, b, c, d]);
    assert(counts_text(stats) == joined_lines(seq![a, b, c, d]));
    assert(counts_text(stats) == a + seq!['\n'] + b + seq!['\n'] + c + seq!['\n'] + d);
}

/// The title of the chart of hits and misses tells the window and the current deltas per second.
pub proof fn law_rates_title_tells_window_and_current_deltas(h: Seq<Sample>, window: u128)
    ensures
        rates_title(h, window) == "Hits vs Misses (per second) | "@ + (window_name(window)
            + " | current H "@) + (grouped_text(current_hits(h) as nat) + " /s, M "@) + (
        grouped_text(current_misses(h) as nat) + " /s"@),
{
    assert(rates_title(h, window) =~= "Hits vs Misses (per second) | "@ + (window_name(window)
        + " | current H "@) + (grouped_text(current_hits(h) as nat) + " /s, M "@) + (grouped_text(
        current_misses(h) as nat,
    ) + " /s"@));
}

/// The title of a trend chart tells its name and the window, and leads up to the current value.
pub proof fn law_trend_title_tells_name_and_window(name: Seq<char>, window: u128)
    ensures
        trend_title(name, window) == name + (" | "@ + (window_name(window) + " | current "@)),
{
    assert(trend_title(name, window) =~= name + (" | "@ + (window_name(window)
        + " | current "@)));
}

/// The hit rate chart has a point for every sample, with its hit rate, at its place.
pub proof fn law_every_hit_rate_is_charted(h: Seq<Sample>, i: int)
    requires
        0 <= i < h.len(),
    ensures
        rate_points(h).len() == h.len(),
        rate_points(h)[i].0 == x_of(h, h[i].timestamp),
        rate_points(h)[i].1 == h[i].hit_rate,
{
}

/// The cache size chart has a point for every sample with a known used size, with that size, at
/// its place and in the order of the samples, and no other points.
pub proof fn law_every_known_size_is_charted(h: Seq<Sample>, n: int)
    requires
        0 <= n < h.len(),
    ensures
        size_points(h, 0).len() == 0,
        h[n].cache_size_used_gb is None ==> size_points(h, n + 1) == size_points(h, n),
        h[n].cache_size_used_gb matches Some(used) ==> {
            &&& size_points(h, n + 1).len() == size_points(h, n).len() + 1
            &&& size_points(h, n + 1).drop_last() == size_points(h, n)
            &&& size_points(h, n + 1).last().0 == x_of(h, h[n].timestamp)
            &&& size_points(h, n + 1).last().1 == used
        },
{
    if h[n].cache_size_used_gb is Some {
        assert(size_points(h, n + 1).drop_last() =~= size_points(h, n));
    }
}

/// The upper end of the cache size chart is less than no size and not less than one, and it is
/// one of the sizes, or one.
pub proof fn law_cache_chart_ends_at_the_greatest_size(
    top: Seq<char>,
    points: Seq<(u128, Decimal)>,
)
    requires
        is_size_ceiling(top, points),
    ensures
        !decimal_less(top, "1"@),
        forall|i: int| 0 <= i < points.len() ==> !decimal_less(top, (#[trigger] points[i]).1@),
        top != "1"@ ==> exists|i: int| 0 <= i < points.len() && (#[trigger] points[i]).1@ == top,
{
    reveal_strlit("1");
    assert("1"@ =~= seq!['1']);
}

/// What is shown as current is what the newest sample holds: its hit rate, and of its cache size
/// what it knows. Without samples it is a hit rate of zero and no cache size.
pub proof fn law_current_values_are_those_of_the_newest_sample(h: Seq<Sample>)
    ensures
        h.len() == 0 ==> current_rate(h) == no_hits() && cache_label(h)
            == CacheLabel::NotAvailable,
        h.len() > 0 ==> current_rate(h) == h.last().hit_rate,
        h.len() > 0 ==> match cache_label(h) {
            CacheLabel::UsedOfMax { used, max } => h.last().cache_size_used_gb == Some(used)
                && h.last().cache_size_max_gb == Some(max),
            CacheLabel::Used { used } => h.last().cache_size_used_gb == Some(used)
                && h.last().cache_size_max_gb is None,
            CacheLabel::NotAvailable => h.last().cache_size_used_gb is None,
        },
{
}

} // verus!
