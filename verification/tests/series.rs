use std::collections::VecDeque;

use ccache_tui::decimal::Decimal;
use ccache_tui::history::{
    average_hit_rate_window, current_deltas, delta_series, hit_rate, push_sample, sample_x,
    trim_history, window_label, x_axis_labels_time, x_bounds, HitRate, Sample, TimeLabels, SECOND,
};
use ccache_tui::rate::{is_slower, rate_of, whole_per_second, Rate};
use ccache_tui::stats::Stats;

fn at(seconds: u64, hits: u64, misses: u64) -> Sample {
    Sample {
        timestamp: seconds as u128 * SECOND,
        hits,
        misses,
        hit_rate: HitRate { part: hits, whole: 10 },
        cache_size_used_gb: None,
        cache_size_max_gb: None,
    }
}

fn times(history: &VecDeque<Sample>) -> Vec<u128> {
    history.iter().map(|s| s.timestamp / SECOND).collect()
}

#[test]
fn trimming_drops_what_is_too_old() {
    let mut history: VecDeque<Sample> = [0, 5, 10, 15].map(|t| at(t, 0, 0)).into();
    trim_history(&mut history, 10 * SECOND);
    assert_eq!(times(&history), [5, 10, 15]);
    trim_history(&mut history, 10 * SECOND);
    assert_eq!(times(&history), [5, 10, 15]);
    trim_history(&mut history, 0);
    assert_eq!(times(&history), [15]);
    let mut empty: VecDeque<Sample> = VecDeque::new();
    trim_history(&mut empty, 0);
    assert!(empty.is_empty());
}

#[test]
fn trimming_stops_at_the_first_sample_in_the_window() {
    let mut history: VecDeque<Sample> = [9, 0, 10].map(|t| at(t, 0, 0)).into();
    trim_history(&mut history, 5 * SECOND);
    assert_eq!(times(&history), [9, 0, 10]);
}

#[test]
fn wider_windows_keep_more() {
    let mut once: VecDeque<Sample> = [0, 2, 4, 6, 8].map(|t| at(t, 0, 0)).into();
    let mut twice: VecDeque<Sample> = [0, 2, 4, 6, 8].map(|t| at(t, 0, 0)).into();
    trim_history(&mut once, 3 * SECOND);
    trim_history(&mut twice, 5 * SECOND);
    assert_eq!(times(&twice), [4, 6, 8]);
    trim_history(&mut twice, 3 * SECOND);
    assert_eq!(times(&once), times(&twice));
}

#[test]
fn pushing_adds_a_sample_and_trims() {
    let chars: Vec<char> = "1.5".chars().collect();
    let stats = Stats {
        cacheable_calls: 8,
        hits: 6,
        misses: 2,
        uncacheable_calls: 1,
        cache_size_used_gb: Decimal::read(&chars),
        cache_size_max_gb: None,
    };
    let mut history: VecDeque<Sample> = [0, 4].map(|t| at(t, 0, 0)).into();
    push_sample(&mut history, &stats, 10 * SECOND, 6 * SECOND);
    assert_eq!(times(&history), [4, 10]);
    let newest = history.back().unwrap();
    assert_eq!((newest.hits, newest.misses), (6, 2));
    assert_eq!(newest.hit_rate, HitRate { part: 6, whole: 8 });
    assert_eq!(newest.cache_size_used_gb.as_ref().unwrap().as_text(), "1.5");
    assert!(newest.cache_size_max_gb.is_none());
}

#[test]
fn hit_rates_are_never_above_one() {
    let stats = Stats { cacheable_calls: 8, hits: 9, ..Stats::default() };
    assert_eq!(hit_rate(&stats), HitRate { part: 8, whole: 8 });
    let mut history: VecDeque<Sample> = VecDeque::new();
    push_sample(&mut history, &stats, 0, SECOND);
    assert_eq!(history[0].hit_rate, HitRate { part: 8, whole: 8 });
    assert_eq!(history[0].hits, 9);
    let all = Stats { cacheable_calls: 8, hits: 8, ..Stats::default() };
    assert_eq!(hit_rate(&all), HitRate { part: 8, whole: 8 });
}

#[test]
fn hit_rate_without_calls_is_zero() {
    assert_eq!(hit_rate(&Stats::default()), HitRate { part: 0, whole: 1 });
}

fn rate(increase: u64, seconds: u128) -> Rate {
    Rate { increase, elapsed: seconds * SECOND }
}

#[test]
fn deltas_are_per_second() {
    let history: VecDeque<Sample> = [at(0, 10, 0), at(2, 30, 4)].into();
    let (hits, misses) = delta_series(&history);
    assert_eq!(hits, [(0, rate(0, 1)), (2 * SECOND, rate(20, 2))]);
    assert_eq!(misses, [(0, rate(0, 1)), (2 * SECOND, rate(4, 2))]);
    assert_eq!(whole_per_second(hits[1].1), 10);
    assert_eq!(whole_per_second(misses[1].1), 2);
    assert_eq!(current_deltas(&history), (10, 2));
}

#[test]
fn deltas_between_samples() {
    let history: VecDeque<Sample> = [at(10, 5, 1), at(11, 9, 1), at(13, 7, 4)].into();
    let (hits, misses) = delta_series(&history);
    assert_eq!(hits, [(0, rate(0, 1)), (SECOND, rate(4, 1)), (3 * SECOND, rate(0, 2))]);
    assert_eq!(misses, [(0, rate(0, 1)), (SECOND, rate(0, 1)), (3 * SECOND, rate(3, 2))]);
    assert_eq!(current_deltas(&history), (0, 1));
    assert_eq!(sample_x(&history, &history[1]), SECOND);
}

#[test]
fn deltas_of_samples_less_than_a_second_apart() {
    let mut newest = at(0, 7, 3);
    newest.timestamp = SECOND / 4;
    let history: VecDeque<Sample> = [at(0, 2, 3), newest].into();
    assert_eq!(current_deltas(&history), (20, 0));
    let mut soon = at(0, u64::MAX, 0);
    soon.timestamp = 1;
    let fast: VecDeque<Sample> = [at(0, 0, 0), soon].into();
    assert_eq!(current_deltas(&fast), (u64::MAX as u128 * SECOND, 0));
}

#[test]
fn deltas_without_time_between_samples_count_as_of_a_second() {
    let history: VecDeque<Sample> = [at(5, 2, 3), at(5, 8, 4)].into();
    assert_eq!(delta_series(&history).0[1], (0, rate(6, 1)));
    assert_eq!(current_deltas(&history), (6, 1));
    let back: VecDeque<Sample> = [at(5, 2, 3), at(4, 8, 4)].into();
    assert_eq!(current_deltas(&back), (6, 1));
    assert_eq!(rate_of(6, 0), rate(6, 1));
}

#[test]
fn deltas_of_short_histories() {
    let none: VecDeque<Sample> = VecDeque::new();
    assert_eq!(delta_series(&none), (vec![], vec![]));
    assert_eq!(current_deltas(&none), (0, 0));
    assert_eq!(sample_x(&none, &at(7, 0, 0)), 0);
    let one: VecDeque<Sample> = [at(10, 5, 1)].into();
    assert_eq!(delta_series(&one), (vec![(0, rate(0, 1))], vec![(0, rate(0, 1))]));
    assert_eq!(current_deltas(&one), (0, 0));
}

#[test]
fn growing_counters_have_increases_that_add_up() {
    let history: VecDeque<Sample> =
        [at(0, 3, 0), at(1, 3, 2), at(4, 8, 2), at(5, 20, 9)].into();
    let (hits, misses) = delta_series(&history);
    assert_eq!(hits.iter().map(|p| p.1.increase).sum::<u64>(), 17);
    assert_eq!(misses.iter().map(|p| p.1.increase).sum::<u64>(), 9);
    assert_eq!(whole_per_second(hits[3].1), current_deltas(&history).0);
    assert!(hits.iter().all(|p| p.0 <= x_bounds(&history).1));
}

#[test]
fn rates_are_compared_exactly() {
    assert!(is_slower(rate(1, 3), rate(1, 2)));
    assert!(!is_slower(rate(1, 2), rate(1, 3)));
    assert!(!is_slower(rate(2, 4), rate(1, 2)));
    assert!(!is_slower(rate(1, 2), rate(2, 4)));
    let slow = Rate { increase: u64::MAX - 1, elapsed: u128::MAX };
    let fast = Rate { increase: u64::MAX, elapsed: u128::MAX };
    assert!(is_slower(slow, fast) && !is_slower(fast, slow));
    let longer = Rate { increase: u64::MAX, elapsed: u128::MAX - 1 };
    assert!(is_slower(fast, longer) && !is_slower(longer, fast));
    let mut n: u64 = 1;
    let mut rates = Vec::new();
    for _ in 0..40 {
        n = n.wrapping_mul(6364136223846793005).wrapping_add(1442695040888963407);
        rates.push(Rate { increase: n >> 32, elapsed: (n % 1_000_003) as u128 + 1 });
    }
    for a in &rates {
        for b in &rates {
            let expected = a.increase as u128 * b.elapsed < b.increase as u128 * a.elapsed;
            assert_eq!(is_slower(*a, *b), expected);
        }
    }
}

#[test]
fn axis_is_at_least_a_second_long() {
    assert_eq!(x_bounds(&VecDeque::new()), (0, SECOND));
    assert_eq!(x_bounds(&[at(5, 0, 0)].into()), (0, SECOND));
    assert_eq!(x_bounds(&[at(5, 0, 0), at(6, 0, 0)].into()), (0, SECOND));
    assert_eq!(x_bounds(&[at(5, 0, 0), at(9, 0, 0)].into()), (0, 4 * SECOND));
    assert_eq!(x_bounds(&[at(9, 0, 0), at(5, 0, 0)].into()), (0, SECOND));
}

#[test]
fn average_is_taken_over_the_window() {
    let history: VecDeque<Sample> =
        [at(0, 1, 0), at(40, 2, 0), at(70, 3, 0), at(100, 4, 0)].into();
    let parts: Vec<u64> =
        average_hit_rate_window(&history, 60 * SECOND).iter().map(|r| r.part).collect();
    assert_eq!(parts, [4, 3, 2]);
    let parts: Vec<u64> = average_hit_rate_window(&history, 0).iter().map(|r| r.part).collect();
    assert_eq!(parts, [4]);
    assert!(average_hit_rate_window(&VecDeque::new(), SECOND).is_empty());
}

#[test]
fn average_stops_at_the_first_sample_outside() {
    let history: VecDeque<Sample> = [at(99, 1, 0), at(0, 2, 0), at(100, 3, 0)].into();
    let parts: Vec<u64> =
        average_hit_rate_window(&history, 10 * SECOND).iter().map(|r| r.part).collect();
    assert_eq!(parts, [3]);
}

fn labels(nanos: u128) -> TimeLabels {
    let mut newest = at(0, 0, 0);
    newest.timestamp = nanos;
    x_axis_labels_time(&[at(0, 0, 0), newest].into())
}

#[test]
fn seconds_are_rounded_like_formatted_floats() {
    let mut nanos: u128 = 0;
    while nanos < 121 * SECOND {
        for offset in [0, 1, 250_000_000, 499_999_999, 500_000_000, 500_000_001, 999_999_999] {
            let span = (nanos + offset).max(SECOND);
            let secs = std::time::Duration::new(
                (span / SECOND) as u64,
                (span % SECOND) as u32,
            )
            .as_secs_f64();
            match labels(nanos + offset) {
                TimeLabels::Ready { oldest, middle, newest } => {
                    assert!(secs < 120.0);
                    assert_eq!(oldest, format!("{:.0}s ago", secs));
                    assert_eq!(middle, format!("{:.0}s ago", secs / 2.0));
                    assert_eq!(newest, "now");
                }
                TimeLabels::Minutes { span: shown } => {
                    assert!(secs >= 120.0);
                    assert_eq!(shown, span);
                }
            }
        }
        nanos += SECOND;
    }
}

#[test]
fn labels_without_history() {
    match x_axis_labels_time(&VecDeque::new()) {
        TimeLabels::Ready { oldest, middle, newest } => {
            assert_eq!((oldest.as_str(), middle.as_str(), newest.as_str()), ("1m ago", "30s ago", "now"));
        }
        TimeLabels::Minutes { .. } => panic!("there is nothing to count in minutes"),
    }
}

#[test]
fn labels_of_half_seconds_go_to_the_even_second() {
    match labels(SECOND) {
        TimeLabels::Ready { oldest, middle, .. } => {
            assert_eq!((oldest.as_str(), middle.as_str()), ("1s ago", "0s ago"));
        }
        TimeLabels::Minutes { .. } => panic!("a second is less than a minute"),
    }
}

#[test]
fn windows_are_named() {
    assert_eq!(window_label(300 * SECOND), "last 5m");
    assert_eq!(window_label(90 * SECOND), "last 90s");
    assert_eq!(window_label(60 * SECOND), "last 1m");
    assert_eq!(window_label(61 * SECOND), "last 61s");
    assert_eq!(window_label(60 * SECOND + 5), "last 1m");
    assert_eq!(window_label(0), "last 1s");
    assert_eq!(window_label(u64::MAX as u128 * SECOND), "last 18446744073709551615s");
}
