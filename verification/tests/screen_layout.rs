use ratatui::layout::{Constraint, Direction, Layout, Rect};

use ccache_tui::layout::{
    centered_rect, header_columns, overlay_area, screen_rows, trend_columns, Area,
};

fn area(x: u16, y: u16, width: u16, height: u16) -> Area {
    Area { x, y, width, height }
}

/// The coordinate at a percentage of a stretch of cells.
fn edge(start: u16, size: u16, percent: u32) -> u16 {
    let extent = size.min(u16::MAX - start) as u32;
    start + ((percent * extent + 50) / 100) as u16
}

/// Areas of all small sizes and some others, spread over the coordinates.
fn areas() -> Vec<Area> {
    let mut all = Vec::new();
    for size in 0..240_u16 {
        all.push(area(0, 0, size, (size * 7) % 120));
        all.push(area(size % 13, size % 11, 239 - size, size));
    }
    let mut seed: u32 = 12345;
    for _ in 0..200 {
        let mut next = || {
            seed = seed.wrapping_mul(1664525).wrapping_add(1013904223);
            (seed >> 16) as u16
        };
        all.push(area(next(), next(), next(), next()));
        all.push(area(next() % 100, next() % 100, next() % 1000, next() % 1000));
    }
    all.push(area(0, 0, u16::MAX, u16::MAX));
    all.push(area(u16::MAX, u16::MAX, u16::MAX, u16::MAX));
    all
}

fn expected_center(percent_x: u32, percent_y: u32, a: Area) -> Area {
    let (mx, my) = ((100 - percent_x) / 2, (100 - percent_y) / 2);
    let (x, y) = (edge(a.x, a.width, mx), edge(a.y, a.height, my));
    area(
        x,
        y,
        edge(a.x, a.width, mx + percent_x) - x,
        edge(a.y, a.height, my + percent_y) - y,
    )
}

#[test]
fn overlay_is_centered() {
    assert_eq!(centered_rect(80, 60, area(0, 0, 100, 50)), area(10, 10, 80, 30));
    assert_eq!(centered_rect(80, 60, area(4, 2, 80, 24)), area(12, 7, 64, 14));
    assert_eq!(centered_rect(100, 100, area(3, 4, 5, 6)), area(3, 4, 5, 6));
    for a in areas() {
        assert_eq!(centered_rect(80, 60, a), expected_center(80, 60, a), "{a:?}");
        assert_eq!(overlay_area(a), centered_rect(80, 60, a));
    }
}

#[test]
fn any_percentages_can_be_centered() {
    for percent_x in 0..=100 {
        for percent_y in [0, 1, 33, 50, 97, 100] {
            for a in [area(0, 0, 80, 24), area(7, 3, 133, 51), area(0, 0, 1, 1)] {
                let expected = expected_center(percent_x as u32, percent_y as u32, a);
                assert_eq!(centered_rect(percent_x, percent_y, a), expected);
            }
        }
    }
}

#[test]
fn rows_have_their_heights() {
    let rows = screen_rows(area(0, 0, 80, 40));
    assert_eq!(rows.header, area(0, 0, 80, 7));
    assert_eq!(rows.rates, area(0, 7, 80, 12));
    assert_eq!(rows.trends, area(0, 19, 80, 21));
    for a in areas() {
        let height = a.height.min(u16::MAX - a.y);
        if height >= 27 {
            let rows = screen_rows(a);
            assert_eq!(rows.header, area(a.x, a.y, a.width, 7));
            assert_eq!(rows.rates, area(a.x, a.y + 7, a.width, 12));
            assert_eq!(rows.trends, area(a.x, a.y + 19, a.width, height - 19));
        }
    }
}

#[test]
fn rows_of_low_screens() {
    let expected = [
        (0, [0, 0, 0]),
        (5, [0, 0, 5]),
        (8, [0, 0, 8]),
        (9, [1, 0, 8]),
        (10, [1, 1, 8]),
        (21, [7, 6, 8]),
        (22, [7, 7, 8]),
        (24, [7, 9, 8]),
        (26, [7, 11, 8]),
        (27, [7, 12, 8]),
    ];
    for (height, sizes) in expected {
        for y in [0, 3, 1000] {
            let rows = screen_rows(area(2, y, 80, height));
            assert_eq!(rows.header, area(2, y, 80, sizes[0]));
            assert_eq!(rows.rates, area(2, y + sizes[0], 80, sizes[1]));
            assert_eq!(rows.trends, area(2, y + sizes[0] + sizes[1], 80, sizes[2]));
        }
    }
}

/// A row of numbers that look random.
struct Numbers(u32);

impl Numbers {
    fn below(&mut self, bound: u32) -> u16 {
        self.0 = self.0.wrapping_mul(1664525).wrapping_add(1013904223);
        ((self.0 >> 8) % bound) as u16
    }
}

fn cut_rows(y: u16, height: u16, constraints: [Constraint; 3]) -> Vec<(u16, u16)> {
    Layout::default()
        .direction(Direction::Vertical)
        .constraints(constraints)
        .split(Rect { x: 0, y, width: 1, height })
        .iter()
        .map(|r| (r.y, r.height))
        .collect()
}

#[test]
fn two_lengths_and_a_minimum_are_cut_alike_by_any_order_of_solving() {
    let mut numbers = Numbers(99);
    for round in 0..4000 {
        let bound = [8, 40, 200, 30000][round % 4];
        let (first, second, least) =
            (numbers.below(bound), numbers.below(bound), numbers.below(bound));
        let y = numbers.below(bound);
        let height = numbers.below(2 * bound).min(u16::MAX - y);
        let rest = if first as u32 + second as u32 + least as u32 <= height as u32 {
            height - first - second
        } else {
            least.min(height)
        };
        let room = height - rest;
        let cut = if 2 * first as u32 <= room as u32 || first as u32 + second as u32 <= room as u32 {
            first
        } else if 2 * second as u32 <= room as u32 {
            room - second
        } else {
            ((room as u32 + 1) / 2) as u16
        };
        let parts = cut_rows(
            y,
            height,
            [Constraint::Length(first), Constraint::Length(second), Constraint::Min(least)],
        );
        let expected = vec![(y, cut), (y + cut, room - cut), (y + room, rest)];
        assert_eq!(parts, expected, "{first} {second} {least} in {height} at {y}");
    }
}

#[test]
fn percentages_are_cut_alike_by_any_order_of_solving() {
    let mut numbers = Numbers(7);
    for round in 0..4000 {
        let bound = [8, 40, 200, 30000][round % 4];
        let (y, height) = (numbers.below(bound), numbers.below(2 * bound));
        let first = numbers.below(101);
        let second = numbers.below(101 - first as u32);
        let third = numbers.below(101 - first as u32 - second as u32);
        let parts = cut_rows(
            y,
            height,
            [first, second, third].map(Constraint::Percentage),
        );
        let ends = [0, first, first + second, first + second + third]
            .map(|percent| edge(y, height, percent as u32));
        let expected: Vec<(u16, u16)> =
            (0..3).map(|i| (ends[i], ends[i + 1] - ends[i])).collect();
        assert_eq!(parts, expected, "{first}% {second}% {third}% of {height} at {y}");
    }
}

#[test]
fn columns_have_their_widths() {
    let columns = header_columns(area(0, 0, 80, 7));
    assert_eq!(columns.hit_gauge, area(0, 0, 20, 7));
    assert_eq!(columns.summary, area(20, 0, 36, 7));
    assert_eq!(columns.cache_gauge, area(56, 0, 24, 7));
    let halves = trend_columns(area(0, 19, 81, 21));
    assert_eq!(halves.hit_rate, area(0, 19, 41, 21));
    assert_eq!(halves.cache, area(41, 19, 40, 21));
    for a in areas() {
        let columns = header_columns(a);
        let (first, second) = (edge(a.x, a.width, 25), edge(a.x, a.width, 70));
        let end = edge(a.x, a.width, 100);
        assert_eq!(columns.hit_gauge, area(a.x, a.y, first - a.x, a.height), "{a:?}");
        assert_eq!(columns.summary, area(first, a.y, second - first, a.height), "{a:?}");
        assert_eq!(columns.cache_gauge, area(second, a.y, end - second, a.height), "{a:?}");
        let halves = trend_columns(a);
        let middle = edge(a.x, a.width, 50);
        assert_eq!(halves.hit_rate, area(a.x, a.y, middle - a.x, a.height), "{a:?}");
        assert_eq!(halves.cache, area(middle, a.y, end - middle, a.height), "{a:?}");
    }
}
