use std::collections::VecDeque;

use ccache_tui::decimal::Decimal;
use ccache_tui::history::{HitRate, Sample, TimeLabels, SECOND};
use ccache_tui::rate::Rate;
use ccache_tui::screen::{header_panel, rates_chart, trend_charts, CacheLabel};
use ccache_tui::stats::Stats;

fn size(text: &str) -> Option<Decimal> {
    let chars: Vec<char> = text.chars().collect();
    Decimal::read(&chars)
}

fn sample(seconds: u64, hits: u64, misses: u64, used: &str, max: &str) -> Sample {
    Sample {
        timestamp: seconds as u128 * SECOND,
        hits,
        misses,
        hit_rate: HitRate { part: hits, whole: 100 },
        cache_size_used_gb: size(used),
        cache_size_max_gb: size(max),
    }
}

#[test]
fn header_shows_counts_and_gauges() {
    let stats = Stats {
        cacheable_calls: 490_357,
        hits: 122_262,
        misses: 368_095,
        uncacheable_calls: 643,
        cache_size_used_gb: size("14.9"),
        cache_size_max_gb: size("15.0"),
    };
    let history: VecDeque<Sample> =
        [sample(0, 1, 0, "", ""), sample(50, 2, 0, "", ""), sample(100, 3, 0, "", "")].into();
    let panel = header_panel(&stats, &history);
    assert_eq!(
        panel.counts,
        "Cacheable calls:           490,357\nHits:                      122,262\nMisses:                    368,095\nUncacheable:               643"
    );
    assert_eq!(panel.hit_rate, HitRate { part: 122_262, whole: 490_357 });
    let parts: Vec<u64> = panel.recent_rates.iter().map(|r| r.part).collect();
    assert_eq!(parts, [3, 2]);
    let (used, max) = panel.cache.unwrap();
    assert_eq!((used.as_text(), max.as_text()), ("14.9", "15.0"));
}

#[test]
fn header_without_cache_size() {
    let stats = Stats { cache_size_used_gb: size("1.0"), ..Stats::default() };
    let panel = header_panel(&stats, &VecDeque::new());
    assert!(panel.cache.is_none());
    assert_eq!(panel.hit_rate, HitRate { part: 0, whole: 1 });
    assert!(panel.recent_rates.is_empty());
}

fn rate(increase: u64, seconds: u128) -> Rate {
    Rate { increase, elapsed: seconds * SECOND }
}

#[test]
fn rates_are_charted() {
    let history: VecDeque<Sample> = [
        sample(0, 10, 5, "", ""),
        sample(1, 1510, 5, "", ""),
        sample(2, 2744, 2005, "", ""),
    ]
    .into();
    let chart = rates_chart(&history, 90 * SECOND);
    assert_eq!(
        chart.title,
        "Hits vs Misses (per second) | last 90s | current H 1,234 /s, M 2,000 /s"
    );
    assert_eq!(chart.hits, [(0, rate(0, 1)), (SECOND, rate(1500, 1)), (2 * SECOND, rate(1234, 1))]);
    assert_eq!(chart.misses, [(0, rate(0, 1)), (SECOND, rate(0, 1)), (2 * SECOND, rate(2000, 1))]);
    assert_eq!(chart.y_max, rate(2000, 1));
    assert_eq!(chart.x_bounds, (0, 2 * SECOND));
    assert!(matches!(chart.x_labels, TimeLabels::Ready { .. }));
}

#[test]
fn empty_rates_chart() {
    let chart = rates_chart(&VecDeque::new(), 300 * SECOND);
    assert_eq!(chart.title, "Hits vs Misses (per second) | last 5m | current H 0 /s, M 0 /s");
    assert_eq!((chart.hits.len(), chart.misses.len(), chart.y_max), (0, 0, rate(1, 1)));
}

#[test]
fn rates_are_charted_per_second() {
    let history: VecDeque<Sample> = [
        sample(0, 0, 0, "", ""),
        sample(1, 3, 0, "", ""),
        sample(11, 13_033, 5, "", ""),
    ]
    .into();
    let chart = rates_chart(&history, 300 * SECOND);
    assert_eq!(
        chart.title,
        "Hits vs Misses (per second) | last 5m | current H 1,303 /s, M 0 /s"
    );
    assert_eq!(chart.hits[2], (11 * SECOND, rate(13_030, 10)));
    assert_eq!(chart.y_max, rate(13_030, 10));
    let slow: VecDeque<Sample> = [sample(0, 0, 0, "", ""), sample(10, 9, 8, "", "")].into();
    assert_eq!(rates_chart(&slow, SECOND).y_max, rate(1, 1));
    let even: VecDeque<Sample> =
        [sample(0, 0, 0, "", ""), sample(2, 9, 0, "", ""), sample(3, 9, 4, "", "")].into();
    assert_eq!(rates_chart(&even, SECOND).y_max, rate(9, 2));
}

#[test]
fn trends_are_charted() {
    let history: VecDeque<Sample> = [
        sample(10, 20, 0, "9.5", "15.0"),
        sample(20, 30, 0, "", ""),
        sample(30, 40, 0, "10.25", "15.0"),
        sample(40, 50, 0, "10.2", ""),
    ]
    .into();
    let charts = trend_charts(&history, 300 * SECOND);
    assert_eq!(charts.hit_rate_title, "Hit Rate Trend | last 5m | current ");
    assert_eq!(charts.cache_title, "Cache Size Trend | last 5m | current ");
    let rates: Vec<(u128, u64)> = charts.hit_rates.iter().map(|p| (p.0 / SECOND, p.1.part)).collect();
    assert_eq!(rates, [(0, 20), (10, 30), (20, 40), (30, 50)]);
    assert_eq!(charts.current_hit_rate.part, 50);
    let sizes: Vec<(u128, &str)> =
        charts.cache_sizes.iter().map(|p| (p.0 / SECOND, p.1.as_text())).collect();
    assert_eq!(sizes, [(0, "9.5"), (20, "10.25"), (30, "10.2")]);
    assert_eq!(charts.cache_max.as_text(), "10.25");
    match &charts.current_cache {
        CacheLabel::Used { used } => assert_eq!(used.as_text(), "10.2"),
        other => panic!("{other:?}"),
    }
}

#[test]
fn cache_chart_reaches_at_least_one() {
    let charts = trend_charts(&[sample(0, 0, 0, "0.5", "1.0")].into(), SECOND);
    assert_eq!(charts.cache_max.as_text(), "1");
    match &charts.current_cache {
        CacheLabel::UsedOfMax { used, max } => {
            assert_eq!((used.as_text(), max.as_text()), ("0.5", "1.0"));
        }
        other => panic!("{other:?}"),
    }
    let none = trend_charts(&VecDeque::new(), SECOND);
    assert_eq!(none.current_hit_rate, HitRate { part: 0, whole: 1 });
    assert_eq!(none.cache_max.as_text(), "1");
    assert!(matches!(none.current_cache, CacheLabel::NotAvailable));
    let without_used = trend_charts(&[sample(0, 0, 0, "", "1.0")].into(), SECOND);
    assert!(matches!(without_used.current_cache, CacheLabel::NotAvailable));
}
