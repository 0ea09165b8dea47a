use ccache_tui::decimal::Decimal;
use ccache_tui::digits::read_u64;
use ccache_tui::stats::{
    parse_ccache_stats, parse_two_floats_and_percent, parse_two_ints_and_percent, Percent, Stats,
};

fn gb(size: &Option<Decimal>) -> Option<f64> {
    size.as_ref().map(|d| d.as_text().parse::<f64>().unwrap())
}

fn decimal(text: &str) -> Option<Decimal> {
    let chars: Vec<char> = text.chars().collect();
    Decimal::read(&chars)
}

#[test]
fn parse_sample_output() {
    let sample = r#"Cacheable calls:   490357 / 575000 (85.28%)
  Hits:            122262 / 490357 (24.93%)
    Direct:        111785 / 122262 (91.43%)
    Preprocessed:   10477 / 122262 ( 8.57%)
  Misses:          368095 / 490357 (75.07%)
Uncacheable calls:  84643 / 575000 (14.72%)
Local storage:
  Cache size (GB):   15.0 /   15.0 (99.94%)
  Cleanups:          9053
  Hits:            122262 / 490357 (24.93%)
  Misses:          368095 / 490357 (75.07%)
"#;
    let stats = parse_ccache_stats(sample).expect("stats should parse");
    assert_eq!(stats.cacheable_calls, 490_357);
    assert_eq!(stats.hits, 122_262);
    assert_eq!(stats.misses, 368_095);
    assert_eq!(stats.uncacheable_calls, 84_643);
    assert_eq!(gb(&stats.cache_size_used_gb), Some(15.0));
    assert_eq!(gb(&stats.cache_size_max_gb), Some(15.0));
}

#[test]
fn parse_requires_hits_and_misses() {
    let sample = r#"Cacheable calls:   10 / 20 (50.00%)
  Misses:          5 / 10 (50.00%)
"#;
    let stats = parse_ccache_stats(sample);
    assert!(stats.is_none());
}

#[test]
fn parse_gib_cache_size() {
    let sample = r#"Cacheable calls:   10 / 20 (50.00%)
  Hits:            6 / 10 (60.00%)
  Misses:          4 / 10 (40.00%)
Local storage:
  Cache size (GiB):   12.0 /   16.0 (75.00%)
"#;
    let stats = parse_ccache_stats(sample).expect("stats should parse");
    assert_eq!(gb(&stats.cache_size_used_gb), Some(12.0));
    assert_eq!(gb(&stats.cache_size_max_gb), Some(16.0));
}

fn counts(text: &str) -> Option<(u64, u64, u64, u64)> {
    parse_ccache_stats(text).map(|s| (s.cacheable_calls, s.hits, s.misses, s.uncacheable_calls))
}

#[test]
fn every_required_count_is_required() {
    let cacheable = "Cacheable calls: 3 / 4 (75%)\n";
    let hits = "  Hits: 1 / 3 (33%)\n";
    let misses = "  Misses: 2 / 3 (67%)\n";
    assert_eq!(counts(&format!("{cacheable}{hits}{misses}")), Some((3, 1, 2, 0)));
    assert_eq!(counts(&format!("{hits}{misses}")), None);
    assert_eq!(counts(&format!("{cacheable}{misses}")), None);
    assert_eq!(counts(&format!("{cacheable}{hits}")), None);
    assert_eq!(counts(""), None);
}

#[test]
fn counts_outside_the_cacheable_section_are_not_read() {
    let text = "Hits: 7 / 8\nMisses: 7 / 8\nCacheable calls: 3 / 4\nHits: 1 / 3\nMisses: 2 / 3\nUncacheable calls: 1 / 4\nHits: 9 / 9\nLocal storage:\nMisses: 9 / 9\n";
    assert_eq!(counts(text), Some((3, 1, 2, 1)));
}

#[test]
fn the_last_count_wins_and_bad_lines_are_skipped() {
    let text = "Cacheable calls: 3 / 4\nHits: 1 / 3\nHits: 2 / 3\nHits: none\nMisses: 1 / 3\nCacheable calls: many\n";
    assert_eq!(counts(text), Some((3, 2, 1, 0)));
}

#[test]
fn cache_size_outside_local_storage_is_not_read() {
    let text = "Cacheable calls: 3 / 4\nHits: 1 / 3\nMisses: 2 / 3\nCache size (GB): 1.0 / 2.0\n";
    let stats = parse_ccache_stats(text).unwrap();
    assert!(stats.cache_size_used_gb.is_none());
    assert!(stats.cache_size_max_gb.is_none());
}

#[test]
fn line_endings_and_blank_lines_make_no_difference() {
    let plain = "Cacheable calls: 3 / 4\n  Hits: 1 / 3\n  Misses: 2 / 3\nUncacheable calls: 5 / 9\n";
    let expected = Some((3, 1, 2, 5));
    assert_eq!(counts(plain), expected);
    assert_eq!(counts(&plain.replace('\n', "\r\n")), expected);
    assert_eq!(counts(&plain.replace('\n', "\n \t\n")), expected);
    assert_eq!(counts(plain.trim_end()), expected);
}

#[test]
fn two_ints_and_listed_percent() {
    let (first, second, percent) =
        parse_two_ints_and_percent("Hits:            122262 / 490357 (24.93%)").unwrap();
    assert_eq!((first, second), (122_262, 490_357));
    match percent {
        Percent::Listed(d) => assert_eq!(d.as_text(), "24.93"),
        Percent::Share => panic!("a percentage is listed"),
    }
}

#[test]
fn two_ints_without_percent() {
    let (first, second, percent) = parse_two_ints_and_percent("1 of 4").unwrap();
    assert_eq!((first, second), (1, 4));
    assert!(matches!(percent, Percent::Share));
    let (_, _, malformed) = parse_two_ints_and_percent("1 of 4 (1.2.3%)").unwrap();
    assert!(matches!(malformed, Percent::Share));
}

#[test]
fn two_ints_that_are_none() {
    assert!(parse_two_ints_and_percent("").is_none());
    assert!(parse_two_ints_and_percent("Hits: 5").is_none());
    assert!(parse_two_ints_and_percent("1.5 / 2").is_none());
    assert!(parse_two_ints_and_percent("1 / 2.0").is_none());
    assert!(parse_two_ints_and_percent("18446744073709551616 / 2").is_none());
    let (first, _, _) = parse_two_ints_and_percent("18446744073709551615 / 0002").unwrap();
    assert_eq!(first, u64::MAX);
}

#[test]
fn two_decimals_are_kept_as_written() {
    let (used, max, percent) =
        parse_two_floats_and_percent("Cache size (GB):   15.0 /   15.50 (99.94%)").unwrap();
    assert_eq!(used.as_text(), "15.0");
    assert_eq!(max.as_text(), "15.50");
    assert!(matches!(percent, Percent::Listed(_)));
    assert!(parse_two_floats_and_percent("1.0 /").is_none());
    assert!(parse_two_floats_and_percent(". / 1.0").is_none());
    assert!(parse_two_floats_and_percent("1.0 / 1.2.3").is_none());
}

#[test]
fn no_stats_at_the_start() {
    let stats = Stats::default();
    assert_eq!(
        (stats.cacheable_calls, stats.hits, stats.misses, stats.uncacheable_calls),
        (0, 0, 0, 0)
    );
    assert!(stats.cache_size_used_gb.is_none() && stats.cache_size_max_gb.is_none());
}

/// All words of up to the given length over an alphabet.
fn words(alphabet: &[char], longest: usize) -> Vec<String> {
    let mut all = vec![String::new()];
    let mut last = vec![String::new()];
    for _ in 0..longest {
        let mut next = Vec::new();
        for word in &last {
            for c in alphabet {
                next.push(format!("{word}{c}"));
            }
        }
        all.extend(next.iter().cloned());
        last = next;
    }
    all
}

#[test]
fn decimals_are_what_floats_can_be_read_from() {
    for word in words(&['0', '1', '9', '.'], 5) {
        assert_eq!(decimal(&word).is_some(), word.parse::<f64>().is_ok(), "{word}");
    }
}

#[test]
fn decimals_are_ordered_like_floats() {
    let words: Vec<String> =
        words(&['0', '1', '2', '.'], 4).into_iter().filter(|w| decimal(w).is_some()).collect();
    for a in &words {
        for b in &words {
            let expected = a.parse::<f64>().unwrap() < b.parse::<f64>().unwrap();
            let less = decimal(a).unwrap().is_less(&decimal(b).unwrap());
            assert_eq!(less, expected, "{a} < {b}");
        }
    }
}

#[test]
fn long_decimals_are_ordered_exactly() {
    let low = decimal("123456789012345678901234567890.00000000000000000001").unwrap();
    let high = decimal("0123456789012345678901234567890.00000000000000000002").unwrap();
    assert!(low.is_less(&high));
    assert!(!high.is_less(&low));
    assert!(Decimal::one().is_less(&decimal("1.0001").unwrap()));
    assert!(!Decimal::one().is_less(&decimal("1.").unwrap()));
    assert_eq!(high.clone().as_text(), high.as_text());
}

#[test]
fn whole_numbers_are_read_like_u64() {
    let extra = vec![
        "18446744073709551615".to_string(),
        "18446744073709551616".to_string(),
        "99999999999999999999".to_string(),
        "000000000000000000000000000000012".to_string(),
    ];
    for word in words(&['0', '3', '9', '.'], 4).into_iter().chain(extra) {
        let chars: Vec<char> = word.chars().collect();
        assert_eq!(read_u64(&chars), word.parse::<u64>().ok(), "{word}");
    }
}

/// A report in the layout of ccache, with lines that are indented and spaced in some way.
fn report(indent: &str, space: &str, percent: &str) -> Vec<String> {
    let line = |label: &str, first: &str, second: &str| {
        format!("{indent}{label}{space}{first} /{space}{second}{percent}")
    };
    vec![
        line("Cacheable calls:", "30", "40"),
        line("Hits:", "18446744073709551615", "30"),
        line("Misses:", "12", "30"),
        line("Uncacheable calls:", "10", "40"),
        format!("{indent}Local storage:"),
        line("Cache size (GB):", "1.50", "20"),
        line("Hits:", "7", "30"),
        line("Misses:", "8", "30"),
    ]
}

#[test]
fn written_reports_are_read_back() {
    for indent in ["", "  ", "\t\u{a0}"] {
        for space in ["", " ", "     "] {
            for percent in ["", " (24.93%)", " ( 8%)"] {
                let text: String =
                    report(indent, space, percent).iter().map(|l| format!("{l}\n")).collect();
                let stats = parse_ccache_stats(&text).unwrap();
                assert_eq!(
                    (stats.cacheable_calls, stats.hits, stats.misses, stats.uncacheable_calls),
                    (30, u64::MAX, 12, 10)
                );
                assert_eq!(stats.cache_size_used_gb.unwrap().as_text(), "1.50");
                assert_eq!(stats.cache_size_max_gb.unwrap().as_text(), "20");
            }
        }
    }
}

#[test]
fn cut_reports_give_what_is_left() {
    let lines = report("  ", " ", " (50%)");
    for n in 0..=8 {
        let text = lines[..n].join("\n");
        match parse_ccache_stats(&text) {
            Some(stats) => {
                assert!(n >= 3);
                assert_eq!(stats.uncacheable_calls, if n > 3 { 10 } else { 0 });
                assert_eq!(stats.cache_size_used_gb.is_some(), n > 5);
                assert_eq!(stats.cache_size_max_gb.is_some(), n > 5);
            }
            None => assert!(n < 3),
        }
    }
}
