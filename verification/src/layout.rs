//! Where things stand on the screen.

use ratatui::layout::{Constraint, Direction, Layout, Rect};
use vstd::prelude::*;

verus! {

/// A rectangle of terminal cells.
#[derive(Clone, Copy, Debug, PartialEq, Eq, Structural)]
pub struct Area {
    pub x: u16,
    pub y: u16,
    pub width: u16,
    pub height: u16,
}

/// The way in which an area is cut up.
#[derive(Clone, Copy, Debug, PartialEq, Eq, Structural)]
pub enum Axis {
    /// Into parts one below the other.
    Vertical,
    /// Into parts side by side.
    Horizontal,
}

/// The size that a part is to have along the axis.
#[derive(Clone, Copy, Debug, PartialEq, Eq, Structural)]
pub enum Segment {
    /// So many cells.
    Length(u16),
    /// So much of the whole, in percent.
    Percentage(u16),
    /// At least so many cells, and all that the others leave.
    Min(u16),
}

/// The first coordinate of an area along an axis.
pub open spec fn near(area: Area, axis: Axis) -> nat {
    match axis {
        Axis::Vertical => area.y as nat,
        Axis::Horizontal => area.x as nat,
    }
}

/// The first coordinate behind an area along an axis. Coordinates end at the greatest `u16`.
pub open spec fn far(area: Area, axis: Axis) -> nat {
    let end = match axis {
        Axis::Vertical => area.y + area.height,
        Axis::Horizontal => area.x + area.width,
    };
    if end > u16::MAX {
        u16::MAX as nat
    } else {
        end as nat
    }
}

/// The part of an area from one coordinate of an axis up to another.
pub open spec fn strip(area: Area, axis: Axis, from: nat, to: nat) -> Area {
    match axis {
        Axis::Vertical => Area { y: from as u16, height: (to - from) as u16, ..area },
        Axis::Horizontal => Area { x: from as u16, width: (to - from) as u16, ..area },
    }
}

/// The coordinate at a percentage of an area, counted from its near end and rounded to the nearest
/// cell, half up.
pub open spec fn percent_edge(area: Area, axis: Axis, percent: nat) -> nat {
    near(area, axis) + (percent * ((far(area, axis) - near(area, axis)) as nat) + 50) / 100
}

/// The number in a segment.
pub open spec fn amount(segment: Segment) -> nat {
    match segment {
        Segment::Length(n) => n as nat,
        Segment::Percentage(n) => n as nat,
        Segment::Min(n) => n as nat,
    }
}

/// The sum of the numbers in the first `n` segments.
pub open spec fn total(segments: Seq<Segment>, n: int) -> nat
    decreases n,
{
    if n <= 0 {
        0
    } else {
        total(segments, n - 1) + amount(segments[n - 1])
    }
}

/// Whether all segments are percentages, of no more than the whole.
pub open spec fn are_shares(segments: Seq<Segment>) -> bool {
    &&& forall|i: int| 0 <= i < segments.len() ==> #[trigger] segments[i] is Percentage
    &&& total(segments, segments.len() as int) <= 100
}

/// Whether the segments are two lengths and a minimum.
pub open spec fn are_lengths_and_rest(segments: Seq<Segment>) -> bool {
    &&& segments.len() == 3
    &&& segments[0] is Length
    &&& segments[1] is Length
    &&& segments[2] is Min
    &&& amount(segments[2]) <= i16::MAX
}

/// The size of a part that follows two lengths and is to have a minimum: what the lengths leave,
/// or the minimum where they leave less, as far as the whole allows.
pub open spec fn rest_size(first: nat, second: nat, least: nat, whole: nat) -> nat {
    if first + second + least <= whole {
        (whole - first - second) as nat
    } else if least <= whole {
        least
    } else {
        whole
    }
}

/// The size of the first of two lengths that have a certain room: what it asks for, where they
/// both fit. Where they do not, they get equal halves, the first the greater one, unless one of
/// them asks for less than its half: then that gets what it asks for, and the other what is left.
pub open spec fn first_size(first: nat, second: nat, room: nat) -> nat {
    if 2 * first <= room || first + second <= room {
        first
    } else if 2 * second <= room {
        (room - second) as nat
    } else {
        (room + 1) as nat / 2
    }
}

/// The parts of an area that is cut into two lengths and a rest.
pub open spec fn lengths_and_rest(area: Area, axis: Axis, segments: Seq<Segment>) -> Seq<Area> {
    let (start, end) = (near(area, axis), far(area, axis));
    let (first, second) = (amount(segments[0]), amount(segments[1]));
    let rest = rest_size(first, second, amount(segments[2]), (end - start) as nat);
    let cut = start + first_size(first, second, (end - start - rest) as nat);
    seq![
        strip(area, axis, start, cut),
        strip(area, axis, cut, (end - rest) as nat),
        strip(area, axis, (end - rest) as nat, end),
    ]
}

/// Cuts an area up with `ratatui::layout::Layout::split`, with the defaults of `Layout`: no margin,
/// no space between the parts, and left over space behind them. There is one part for each
/// segment, as wide as the area across the axis.
///
/// The sizes along the axis come out of a constraint solver. Percentages that are no more than the
/// whole are all met, with each end rounded to the nearest cell. Of two lengths and a minimum, all
/// are met where there is room, and the last part grows to the end of the area; where there is
/// not, the minimum is stronger than the lengths, and the two lengths, which are equally strong,
/// are made as equal as they can be.
#[verifier::external_body]
fn split(area: &Area, axis: Axis, segments: &Vec<Segment>) -> (parts: Vec<Area>)
    requires
        segments@.len() <= 3,
        are_shares(segments@) || are_lengths_and_rest(segments@),
    ensures
        parts@.len() == segments@.len(),
        are_shares(segments@) ==> forall|i: int|
            0 <= i < parts@.len() ==> #[trigger] parts@[i] == strip(
                *area,
                axis,
                percent_edge(*area, axis, total(segments@, i)),
                percent_edge(*area, axis, total(segments@, i + 1)),
            ),
        are_lengths_and_rest(segments@) ==> parts@ == lengths_and_rest(*area, axis, segments@),
{
    let direction = match axis {
        Axis::Vertical => Direction::Vertical,
        Axis::Horizontal => Direction::Horizontal,
    };
    let constraints = segments.iter().map(|segment| match segment {
        Segment::Length(n) => Constraint::Length(*n),
        Segment::Percentage(n) => Constraint::Percentage(*n),
        Segment::Min(n) => Constraint::Min(*n),
    });
    let whole = Rect { x: area.x, y: area.y, width: area.width, height: area.height };
    let layout = Layout::default().direction(direction).constraints(constraints);
    let parts = layout.split(whole);
    parts.iter().map(|r| Area { x: r.x, y: r.y, width: r.width, height: r.height }).collect()
}

/// The rows of the screen.
#[derive(Clone, Copy, Debug, PartialEq, Eq, Structural)]
pub struct ScreenRows {
    /// The gauges and the summary.
    pub header: Area,
    /// The chart of hits and misses.
    pub rates: Area,
    /// The charts of the hit rate and the cache size.
    pub trends: Area,
}

/// The columns of the header.
#[derive(Clone, Copy, Debug, PartialEq, Eq, Structural)]
pub struct HeaderColumns {
    pub hit_gauge: Area,
    pub summary: Area,
    pub cache_gauge: Area,
}

/// The columns of the trend charts.
#[derive(Clone, Copy, Debug, PartialEq, Eq, Structural)]
pub struct TrendColumns {
    pub hit_rate: Area,
    pub cache: Area,
}

/// The heights of the rows on a screen of a given height: seven cells for the header, twelve for
/// the chart of hits and misses, and what is left, at least eight, for the trend charts. On a
/// screen too low for that the trend charts keep their eight cells, or as many as there are, and
/// the others share the rest.
pub open spec fn row_heights(height: nat) -> (nat, nat, nat) {
    if height >= 27 {
        (7, 12, (height - 19) as nat)
    } else if height >= 22 {
        (7, (height - 15) as nat, 8)
    } else if height >= 8 {
        ((height - 7) as nat / 2, (height - 8) as nat / 2, 8)
    } else {
        (0, 0, height)
    }
}

/// Cuts the screen into its rows.
pub fn screen_rows(area: Area) -> (rows: ScreenRows)
    ensures
        ({
            let (near, far) = (near(area, Axis::Vertical), far(area, Axis::Vertical));
            let (header, rates, trends) = row_heights((far - near) as nat);
            &&& rows.header == strip(area, Axis::Vertical, near, near + header)
            &&& rows.rates == strip(area, Axis::Vertical, near + header, near + header + rates)
            &&& rows.trends == strip(area, Axis::Vertical, (far - trends) as nat, far)
            &&& near + header + rates + trends == far
        }),
{
    let mut segments: Vec<Segment> = Vec::new();
    segments.push(Segment::Length(7));
    segments.push(Segment::Length(12));
    segments.push(Segment::Min(8));
    let parts = split(&area, Axis::Vertical, &segments);
    ScreenRows { header: parts[0], rates: parts[1], trends: parts[2] }
}

/// The rows of the screen cover it, one below the other, and with room for all of them they have
/// the heights that they are meant to have.
pub proof fn law_rows_cover_the_screen(height: nat)
    ensures
        ({
            let (header, rates, trends) = row_heights(height);
            &&& header + rates + trends == height
            &&& header <= 7
            &&& rates <= 12
            &&& height >= 8 ==> trends >= 8
            &&& height >= 27 ==> header == 7 && rates == 12
        }),
{
}

/// Cuts the header into its columns: a quarter for the hit rate gauge, 45 percent for the summary
/// and 30 percent for the cache size gauge.
pub fn header_columns(area: Area) -> (columns: HeaderColumns)
    ensures
        columns.hit_gauge == strip(
            area,
            Axis::Horizontal,
            area.x as nat,
            percent_edge(area, Axis::Horizontal, 25),
        ),
        columns.summary == strip(
            area,
            Axis::Horizontal,
            percent_edge(area, Axis::Horizontal, 25),
            percent_edge(area, Axis::Horizontal, 70),
        ),
        columns.cache_gauge == strip(
            area,
            Axis::Horizontal,
            percent_edge(area, Axis::Horizontal, 70),
            far(area, Axis::Horizontal),
        ),
{
    let mut segments: Vec<Segment> = Vec::new();
    segments.push(Segment::Percentage(25));
    segments.push(Segment::Percentage(45));
    segments.push(Segment::Percentage(30));
    proof {
        reveal_with_fuel(total, 4);
        lemma_whole_edges(area, Axis::Horizontal);
    }
    let parts = split(&area, Axis::Horizontal, &segments);
    HeaderColumns { hit_gauge: parts[0], summary: parts[1], cache_gauge: parts[2] }
}

/// Cuts the row of trend charts into two halves.
pub fn trend_columns(area: Area) -> (columns: TrendColumns)
    ensures
        columns.hit_rate == strip(
            area,
            Axis::Horizontal,
            area.x as nat,
            percent_edge(area, Axis::Horizontal, 50),
        ),
        columns.cache == strip(
            area,
            Axis::Horizontal,
            percent_edge(area, Axis::Horizontal, 50),
            far(area, Axis::Horizontal),
        ),
{
    let mut segments: Vec<Segment> = Vec::new();
    segments.push(Segment::Percentage(50));
    segments.push(Segment::Percentage(50));
    proof {
        reveal_with_fuel(total, 3);
        lemma_whole_edges(area, Axis::Horizontal);
    }
    let parts = split(&area, Axis::Horizontal, &segments);
    TrendColumns { hit_rate: parts[0], cache: parts[1] }
}

proof fn lemma_whole_edges(area: Area, axis: Axis)
    ensures
        percent_edge(area, axis, 0) == near(area, axis),
        percent_edge(area, axis, 100) == far(area, axis),
{
}

/// The part of an area that has a given percentage of its size along an axis, and half of the
/// remaining percentage, rounded down, in front of it.
pub open spec fn centered_strip(area: Area, axis: Axis, percent: nat) -> Area {
    let margin = (100 - percent) as nat / 2;
    strip(
        area,
        axis,
        percent_edge(area, axis, margin),
        percent_edge(area, axis, margin + percent),
    )
}

/// The middle of three parts of which the outer two are margins of the same percentage.
fn center(area: &Area, axis: Axis, percent: u16) -> (middle: Area)
    requires
        percent <= 100,
    ensures
        middle == centered_strip(*area, axis, percent as nat),
{
    let margin: u16 = (100 - percent) / 2;
    let mut segments: Vec<Segment> = Vec::new();
    segments.push(Segment::Percentage(margin));
    segments.push(Segment::Percentage(percent));
    segments.push(Segment::Percentage(margin));
    proof {
        reveal_with_fuel(total, 4);
    }
    let parts = split(area, axis, &segments);
    parts[1]
}

/// Creates a centered rectangle as a percentage of the terminal size.
pub fn centered_rect(percent_x: u16, percent_y: u16, area: Area) -> (middle: Area)
    requires
        percent_x <= 100,
        percent_y <= 100,
    ensures
        middle == centered_strip(
            centered_strip(area, Axis::Vertical, percent_y as nat),
            Axis::Horizontal,
            percent_x as nat,
        ),
{
    let rows = center(&area, Axis::Vertical, percent_y);
    center(&rows, Axis::Horizontal, percent_x)
}

/// Where the error overlay stands: in the middle, on four fifths of the width and three fifths of
/// the height.
pub fn overlay_area(area: Area) -> (overlay: Area)
    ensures
        overlay == centered_strip(
            centered_strip(area, Axis::Vertical, 60),
            Axis::Horizontal,
            80,
        ),
{
    centered_rect(80, 60, area)
}

/// A centered part lies within its area, and of the cells that are left over there are as many on
/// one side as on the other, give or take one, where the percentage is even.
pub proof fn law_centered_part_is_centered(area: Area, axis: Axis, percent: nat)
    requires
        percent <= 100,
        percent % 2 == 0,
    ensures
        ({
            let middle = centered_strip(area, axis, percent);
            let before = near(middle, axis) - near(area, axis);
            let behind = far(area, axis) - far(middle, axis);
            &&& before >= 0
            &&& behind >= 0
            &&& -1 <= before - behind <= 1
        }),
{
    let margin = (100 - percent) as nat / 2;
    let extent = (far(area, axis) - near(area, axis)) as nat;
    let cut = margin * extent;
    assert((margin + percent) * extent == 100 * extent - cut) by (nonlinear_arith)
        requires
            cut == margin * extent,
            margin + percent == 100 - margin,
    ;
    assert(cut <= 50 * extent) by (nonlinear_arith)
        requires
            cut == margin * extent,
            margin <= 50,
    ;
}

/// A centered part has the given percentage of the size of its area, give or take one cell.
pub proof fn law_centered_part_has_its_size(area: Area, axis: Axis, percent: nat)
    requires
        percent <= 100,
    ensures
        ({
            let middle = centered_strip(area, axis, percent);
            let size = far(middle, axis) - near(middle, axis);
            let extent = far(area, axis) - near(area, axis);
            percent * extent - 100 < 100 * size < percent * extent + 100
        }),
{
    let margin = (100 - percent) as nat / 2;
    let extent = (far(area, axis) - near(area, axis)) as nat;
    let cut = margin * extent;
    let wanted = percent * extent;
    assert((margin + percent) * extent == cut + wanted) by (nonlinear_arith)
        requires
            cut == margin * extent,
            wanted == percent * extent,
    ;
    assert(cut + wanted <= 100 * extent) by (nonlinear_arith)
        requires
            cut + wanted == (margin + percent) * extent,
            margin + percent <= 100,
    ;
}

/// An area reaches from its own coordinates as far as its size, but no further than the greatest
/// coordinate.
pub proof fn law_area_reaches_as_far_as_its_size(area: Area)
    ensures
        near(area, Axis::Vertical) == area.y,
        near(area, Axis::Horizontal) == area.x,
        area.y + area.height <= 65535 ==> far(area, Axis::Vertical) == area.y + area.height,
        area.y + area.height >= 65535 ==> far(area, Axis::Vertical) == 65535,
        area.x + area.width <= 65535 ==> far(area, Axis::Horizontal) == area.x + area.width,
        area.x + area.width >= 65535 ==> far(area, Axis::Horizontal) == 65535,
{
}

/// A part of an area reaches from the one coordinate to the other along the axis, and as far as
/// the area across it.
pub proof fn law_part_is_cut_along_one_axis(area: Area, axis: Axis, from: nat, to: nat)
    requires
        from <= to <= 65535,
    ensures
        near(strip(area, axis, from, to), axis) == from,
        far(strip(area, axis, from, to), axis) == to,
        axis == Axis::Vertical ==> strip(area, axis, from, to).x == area.x && strip(
            area,
            axis,
            from,
            to,
        ).width == area.width,
        axis == Axis::Horizontal ==> strip(area, axis, from, to).y == area.y && strip(
            area,
            axis,
            from,
            to,
        ).height == area.height,
{
}

/// The coordinate at a percentage is the cell nearest to that percentage of the size, and the
/// farther one where two are equally near.
pub proof fn law_percentage_ends_at_the_nearest_cell(area: Area, axis: Axis, percent: nat)
    ensures
        ({
            let cells = percent_edge(area, axis, percent) - near(area, axis);
            let wanted = percent * ((far(area, axis) - near(area, axis)) as nat);
            wanted - 50 < 100 * cells <= wanted + 50
        }),
{
}

/// A centered part has half of what the percentage leaves, in whole percents, in front of it, and
/// then its percentage.
pub proof fn law_centered_part_has_half_of_the_rest_in_front(
    area: Area,
    axis: Axis,
    percent: nat,
    margin: nat,
)
    requires
        2 * margin + percent == 100 || 2 * margin + percent == 99,
    ensures
        near(centered_strip(area, axis, percent), axis) == percent_edge(area, axis, margin),
        far(centered_strip(area, axis, percent), axis) == percent_edge(
            area,
            axis,
            margin + percent,
        ),
        axis == Axis::Vertical ==> centered_strip(area, axis, percent).x == area.x
            && centered_strip(area, axis, percent).width == area.width,
        axis == Axis::Horizontal ==> centered_strip(area, axis, percent).y == area.y
            && centered_strip(area, axis, percent).height == area.height,
{
    let extent = (far(area, axis) - near(area, axis)) as nat;
    assert(margin * extent <= (margin + percent) * extent <= 100 * extent) by (nonlinear_arith)
        requires
            margin + percent <= 100,
    ;
    law_part_is_cut_along_one_axis(
        area,
        axis,
        percent_edge(area, axis, margin),
        percent_edge(area, axis, margin + percent),
    );
}

/// On a screen too low for all rows the trend charts keep eight cells, or all there are, and the
/// header and the chart of hits and misses share the rest evenly, the header up to its seven cells.
pub proof fn law_rows_of_low_screens_share_what_is_left(height: nat)
    requires
        height < 27,
    ensures
        ({
            let (header, rates, trends) = row_heights(height);
            &&& height >= 8 ==> trends == 8
            &&& height < 8 ==> trends == height
            &&& header < 7 ==> header == rates || header == rates + 1
            &&& header == 7 ==> rates >= 6
        }),
{
}

} // verus!
