use ccache_tui::digits::split_numbers;
use ccache_tui::format::{fmt_u64, push_decimal, push_signed};
use ccache_tui::text::{is_white_space, split_lines, starts_with, to_chars, to_text, trim};

#[test]
fn white_space_is_that_of_unicode() {
    for point in 0..=0x10ffff_u32 {
        if let Some(c) = char::from_u32(point) {
            assert_eq!(is_white_space(c), c.is_whitespace(), "{point:x}");
        }
    }
}

fn samples() -> Vec<String> {
    let alphabet = ['a', ' ', '\n', '\r', '1', '\u{a0}'];
    let mut all = vec![String::new()];
    let mut last = vec![String::new()];
    for _ in 0..5 {
        let mut next = Vec::new();
        for word in &last {
            for c in alphabet {
                next.push(format!("{word}{c}"));
            }
        }
        all.extend(next.iter().cloned());
        last = next;
    }
    all
}

#[test]
fn trimming_is_that_of_strings() {
    for text in samples() {
        let chars = to_chars(&text);
        assert_eq!(to_text(trim(&chars)), text.trim());
    }
}

#[test]
fn trimming_happens_once_and_ignores_outer_white_space() {
    for text in samples() {
        let chars = to_chars(&text);
        let once = trim(&chars);
        assert_eq!(trim(once), once);
        let wide = to_chars(&format!(" \t{text}\u{3000}"));
        assert_eq!(trim(&wide), once);
    }
}

#[test]
fn lines_are_those_of_strings() {
    for text in samples() {
        let chars = to_chars(&text);
        let lines: Vec<String> = split_lines(&chars).into_iter().map(to_text).collect();
        let expected: Vec<&str> = text.lines().collect();
        assert_eq!(lines, expected, "{text:?}");
    }
}

#[test]
fn prefixes_are_found() {
    let chars = to_chars("Hits: 5");
    assert!(starts_with(&chars, "Hits:"));
    assert!(starts_with(&chars, ""));
    assert!(!starts_with(&chars, "hits:"));
    assert!(!starts_with(&chars, "Hits: 55"));
}

#[test]
fn numbers_are_cut_out() {
    let chars = to_chars("Cache size (GB):   15.0 /   15..5%7");
    let runs: Vec<String> = split_numbers(&chars).into_iter().map(to_text).collect();
    assert_eq!(runs, ["15.0", "15..5", "7"]);
    assert!(split_numbers(&to_chars("none")).is_empty());
}

#[test]
fn thousands_are_separated() {
    assert_eq!(fmt_u64(0), "0");
    assert_eq!(fmt_u64(7), "7");
    assert_eq!(fmt_u64(999), "999");
    assert_eq!(fmt_u64(1000), "1,000");
    assert_eq!(fmt_u64(12_045), "12,045");
    assert_eq!(fmt_u64(490_357), "490,357");
    assert_eq!(fmt_u64(1_000_000), "1,000,000");
    assert_eq!(fmt_u64(u64::MAX), "18,446,744,073,709,551,615");
}

#[test]
fn separators_are_all_that_is_added() {
    let mut n: u64 = 1;
    for _ in 0..60 {
        n = n.wrapping_mul(3).wrapping_add(7);
        assert_eq!(fmt_u64(n).replace(',', ""), n.to_string());
    }
}

#[test]
fn numbers_are_written_in_base_ten() {
    let mut out = String::from("n=");
    push_decimal(&mut out, u128::MAX);
    assert_eq!(out, format!("n={}", u128::MAX));
    for n in [0, 1, -1, 42, -128, i32::MAX, i32::MIN] {
        let mut shown = String::new();
        push_signed(&mut shown, n);
        assert_eq!(shown, n.to_string());
    }
}
