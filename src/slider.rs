//! The slider's configuration and the mapping between values and positions
//! along the track.
use crate::arith::{div_round, lemma_round_div, lemma_round_div_between, round_div};
use crate::style::SliderStyle;
use egui::{Color32, Stroke};
use std::ops::RangeInclusive;
use vstd::prelude::*;

verus! {

/// Fixed-point scale: one pixel is `SCALE` length units, and a factor `f`
/// is stored as `f * SCALE`.
pub const SCALE: i64 = 10_000_000;

/// Margin kept free at both ends of the track (2 px), so that the handles
/// stay inside the widget.
pub const EDGE_OFFSET: i64 = 2 * SCALE;

/// Largest magnitude of a length, a factor or a gesture delta (2^50 units,
/// about 1.1e8 px).
pub const MAX_EXTENT: i64 = 1_125_899_906_842_624;

/// Relies on `RangeInclusive::into_inner`: it gives back the two bounds the
/// range was built with.
pub assume_specification<Idx>[ RangeInclusive::<Idx>::into_inner ](
    range: RangeInclusive<Idx>,
) -> (r: (Idx, Idx))
    ensures
        r.0 == range@.start,
        r.1 == range@.end,
;

/// Controls two numbers, a lower and an upper one, with a double slider.
///
/// The range gives the values at the far left (`range_start`) and far right
/// (`range_end`) of the track; it may go from low to high or from high to
/// low. Lengths are in `1 / SCALE` pixels.
#[derive(Clone, Copy, Debug)]
pub struct DoubleSlider {
    /// The value of the left handle.
    pub lower: i64,
    /// The value of the right handle.
    pub upper: i64,
    pub range_start: i64,
    pub range_end: i64,
    /// Least distance between the two values.
    pub separation_distance: i64,
    /// Radius of a handle.
    pub control_point_radius: i64,
    /// Highlight the parts outside the two values instead of the part between.
    pub inverted_highlighting: bool,
    pub vertical_scroll: bool,
    pub horizontal_scroll: bool,
    /// Values moved per pixel scrolled, in `1 / SCALE`.
    pub scroll_factor: i64,
    /// Values moved per unit of zoom gesture (its factor minus one), in `1 / SCALE`.
    pub zoom_factor: i64,
    /// Width of the whole widget.
    pub width: i64,
    pub style: SliderStyle,
    /// Dragging a handle into the other pushes the other one along; otherwise
    /// the dragged handle stops.
    pub push_by_dragging: bool,
}

/// A magnitude that the slider's arithmetic can take.
pub open spec fn within_extent(x: int) -> bool {
    -MAX_EXTENT <= x <= MAX_EXTENT
}

impl DoubleSlider {
    /// Lengths and factors are within the bounds of the arithmetic.
    pub open spec fn wf(self) -> bool {
        &&& within_extent(self.width as int)
        &&& within_extent(self.control_point_radius as int)
        &&& within_extent(self.scroll_factor as int)
        &&& within_extent(self.zoom_factor as int)
    }

    /// The same slider holding the values `lower` and `upper`.
    pub open spec fn with_values(self, lower: int, upper: int) -> Self {
        DoubleSlider { lower: lower as i64, upper: upper as i64, ..self }
    }

    pub open spec fn ascending(self) -> bool {
        self.range_start <= self.range_end
    }

    /// The smaller bound of the range.
    pub open spec fn range_low(self) -> int {
        if self.ascending() {
            self.range_start as int
        } else {
            self.range_end as int
        }
    }

    /// The larger bound of the range.
    pub open spec fn range_high(self) -> int {
        if self.ascending() {
            self.range_end as int
        } else {
            self.range_start as int
        }
    }

    pub open spec fn in_range(self, v: int) -> bool {
        self.range_low() <= v <= self.range_high()
    }

    /// `v` moved to the nearest value of the range.
    pub open spec fn clamp(self, v: int) -> int {
        if v < self.range_low() {
            self.range_low()
        } else if v > self.range_high() {
            self.range_high()
        } else {
            v
        }
    }

    /// Position of the track's start: a handle's radius and the edge margin.
    pub open spec fn offset(self) -> int {
        self.control_point_radius + EDGE_OFFSET
    }

    /// Length of the track along which the handles' centres move; never negative.
    pub open spec fn track(self) -> int {
        let t = self.width - 2 * self.offset();
        if t > 0 {
            t
        } else {
            0
        }
    }

    /// The position of value `v`: the offset plus its share of the track,
    /// rounded to the nearest length unit. Values outside the range sit at
    /// the nearer end; a range of one value puts it at the start.
    pub open spec fn position_of(self, v: int) -> int {
        let start = self.range_start as int;
        let end = self.range_end as int;
        if start == end {
            self.offset()
        } else {
            let num = if self.ascending() { v - start } else { start - v };
            let den = if self.ascending() { end - start } else { start - end };
            if num <= 0 {
                self.offset()
            } else if num >= den {
                self.offset() + self.track()
            } else {
                self.offset() + round_div(self.track() * num, den)
            }
        }
    }

    /// The value at position `x`: the range interpolated at `x`'s share of
    /// the track, rounded to the nearest integer (halves away from zero).
    /// Positions before or after the track give the range's ends; an empty
    /// track gives the start.
    pub open spec fn value_at(self, x: int) -> int {
        let start = self.range_start as int;
        let end = self.range_end as int;
        let t = self.track();
        let xc = x - self.offset();
        if start == end || t == 0 || xc <= 0 {
            start
        } else if xc >= t {
            end
        } else {
            round_div(start * t + (end - start) * xc, t)
        }
    }

    /// A slider for the two values over `range`, with the defaults: a
    /// separation of 1, handles of 7 px, a width of 100 px, both scroll
    /// axes, a scroll factor of 0.04, a zoom factor of 10, pushing on, no
    /// inverted highlight and the theme's style.
    pub fn new(lower_value: i64, upper_value: i64, range: RangeInclusive<i64>) -> (s: Self)
        ensures
            s.wf(),
            s.lower == lower_value,
            s.upper == upper_value,
            s.range_start == range@.start,
            s.range_end == range@.end,
            s.separation_distance == 1,
            s.control_point_radius == 7 * SCALE,
            !s.inverted_highlighting,
            s.vertical_scroll,
            s.horizontal_scroll,
            s.scroll_factor == 400_000,
            s.zoom_factor == 10 * SCALE,
            s.width == 100 * SCALE,
            s.style.color is None,
            s.style.cursor_fill is None,
            s.style.stroke is None,
            s.push_by_dragging,
    {
        let (range_start, range_end) = range.into_inner();
        DoubleSlider {
            lower: lower_value,
            upper: upper_value,
            range_start,
            range_end,
            separation_distance: 1,
            control_point_radius: 7 * SCALE,
            inverted_highlighting: false,
            vertical_scroll: true,
            horizontal_scroll: true,
            scroll_factor: 400_000,
            zoom_factor: 10 * SCALE,
            width: 100 * SCALE,
            style: SliderStyle::unset(),
            push_by_dragging: true,
        }
    }

    /// Sets the width of the whole widget. Default: 100 px.
    pub fn width(self, width: i64) -> (s: Self)
        requires
            within_extent(width as int),
        ensures
            s == (DoubleSlider { width, ..self }),
    {
        DoubleSlider { width, ..self }
    }

    /// Sets how far a zoom gesture moves the values (multiplied with the
    /// gesture). Default: 10.
    pub fn zoom_factor(self, zoom_factor: i64) -> (s: Self)
        requires
            within_extent(zoom_factor as int),
        ensures
            s == (DoubleSlider { zoom_factor, ..self }),
    {
        DoubleSlider { zoom_factor, ..self }
    }

    /// Sets how far scrolling moves the values (multiplied with the
    /// scrolled distance). Default: 0.04.
    pub fn scroll_factor(self, scroll_factor: i64) -> (s: Self)
        requires
            within_extent(scroll_factor as int),
        ensures
            s == (DoubleSlider { scroll_factor, ..self }),
    {
        DoubleSlider { scroll_factor, ..self }
    }

    /// Turns the horizontal scroll axis on or off. Default: on.
    pub fn horizontal_scroll(self, horizontal_scroll: bool) -> (s: Self)
        ensures
            s == (DoubleSlider { horizontal_scroll, ..self }),
    {
        DoubleSlider { horizontal_scroll, ..self }
    }

    /// Turns the vertical scroll axis on or off. Default: on.
    pub fn vertical_scroll(self, vertical_scroll: bool) -> (s: Self)
        ensures
            s == (DoubleSlider { vertical_scroll, ..self }),
    {
        DoubleSlider { vertical_scroll, ..self }
    }

    /// Highlights the parts outside the two values instead of the part
    /// between them. Default: off.
    pub fn invert_highlighting(self, invert_highlighting: bool) -> (s: Self)
        ensures
            s == (DoubleSlider { inverted_highlighting: invert_highlighting, ..self }),
    {
        DoubleSlider { inverted_highlighting: invert_highlighting, ..self }
    }

    /// Sets the least distance between the two values. Default: 1.
    pub fn separation_distance(self, separation_distance: i64) -> (s: Self)
        ensures
            s == (DoubleSlider { separation_distance, ..self }),
    {
        DoubleSlider { separation_distance, ..self }
    }

    /// Sets the colour of the track line. Default: the theme's.
    pub fn color(self, color: Color32) -> (s: Self)
        ensures
            s == (DoubleSlider { style: SliderStyle { color: Some(color), ..self.style }, ..self }),
    {
        DoubleSlider { style: SliderStyle { color: Some(color), ..self.style }, ..self }
    }

    /// Sets the stroke of the highlighted part. Default: the theme's.
    pub fn stroke(self, stroke: Stroke) -> (s: Self)
        ensures
            s == (DoubleSlider { style: SliderStyle { stroke: Some(stroke), ..self.style }, ..self }),
    {
        DoubleSlider { style: SliderStyle { stroke: Some(stroke), ..self.style }, ..self }
    }

    /// Sets the fill of the handles. Default: the theme's.
    pub fn cursor_fill(self, cursor_fill: Color32) -> (s: Self)
        ensures
            s == (DoubleSlider { style: SliderStyle { cursor_fill: Some(cursor_fill), ..self.style }, ..self }),
    {
        DoubleSlider { style: SliderStyle { cursor_fill: Some(cursor_fill), ..self.style }, ..self }
    }

    /// Sets the radius of a handle. Default: 7 px.
    pub fn control_point_radius(self, control_point_radius: i64) -> (s: Self)
        requires
            within_extent(control_point_radius as int),
        ensures
            s == (DoubleSlider { control_point_radius, ..self }),
    {
        DoubleSlider { control_point_radius, ..self }
    }

    /// Lets a dragged handle push the other one along instead of stopping
    /// at the least distance from it. Default: on.
    pub fn push_by_dragging(self, push_by_dragging: bool) -> (s: Self)
        ensures
            s == (DoubleSlider { push_by_dragging, ..self }),
    {
        DoubleSlider { push_by_dragging, ..self }
    }

    /// The position of value `val` along the widget.
    pub fn val_to_x(&self, val: i64) -> (x: i64)
        requires
            self.wf(),
        ensures
            x == self.position_of(val as int),
            self.offset() <= x <= self.offset() + self.track(),
    {
        let offset = self.control_point_radius as i128 + EDGE_OFFSET as i128;
        let full = self.width as i128 - 2 * offset;
        let track: i128 = if full > 0 { full } else { 0 };
        let start = self.range_start as i128;
        let end = self.range_end as i128;
        let v = val as i128;
        if start == end {
            return offset as i64;
        }
        let num: i128 = if start <= end { v - start } else { start - v };
        let den: i128 = if start <= end { end - start } else { start - end };
        if num <= 0 {
            offset as i64
        } else if num >= den {
            (offset + track) as i64
        } else {
            proof {
                assert(0 <= track * num <= track * den) by (nonlinear_arith)
                    requires
                        0 <= track,
                        0 < num < den,
                ;
                assert(track * num <= 0x20_0000_0000_0000 * 0x1_0000_0000_0000_0000) by (nonlinear_arith)
                    requires
                        0 <= track <= 0x20_0000_0000_0000,
                        0 < num <= 0x1_0000_0000_0000_0000,
                ;
                assert(0 * den <= track * num);
                lemma_round_div_between(track * num, den as int, 0, track as int);
            }
            (offset + div_round(track * num, den)) as i64
        }
    }

    /// The value at position `x` along the widget.
    pub fn x_to_val(&self, x: i64) -> (v: i64)
        requires
            self.wf(),
        ensures
            v == self.value_at(x as int),
            self.in_range(v as int),
    {
        let offset = self.control_point_radius as i128 + EDGE_OFFSET as i128;
        let full = self.width as i128 - 2 * offset;
        let track: i128 = if full > 0 { full } else { 0 };
        let start = self.range_start as i128;
        let end = self.range_end as i128;
        let xc = x as i128 - offset;
        if start == end || track == 0 || xc <= 0 {
            self.range_start
        } else if xc >= track {
            self.range_end
        } else {
            proof {
                assert(-0x8000_0000_0000_0000 * 0x20_0000_0000_0000 <= start * track
                    <= 0x8000_0000_0000_0000 * 0x20_0000_0000_0000) by (nonlinear_arith)
                    requires
                        0 < track <= 0x20_0000_0000_0000,
                        -0x8000_0000_0000_0000 <= start <= 0x8000_0000_0000_0000,
                ;
                assert(-0x1_0000_0000_0000_0000 * 0x20_0000_0000_0000 <= (end - start) * xc
                    <= 0x1_0000_0000_0000_0000 * 0x20_0000_0000_0000) by (nonlinear_arith)
                    requires
                        0 < xc <= 0x20_0000_0000_0000,
                        -0x1_0000_0000_0000_0000 <= end - start <= 0x1_0000_0000_0000_0000,
                ;
            }
            let n = start * track + (end - start) * xc;
            proof {
                lemma_value_at_in_range(*self, x as int);
            }
            div_round(n, track) as i64
        }
    }
}

/// Every position maps to a value of the range.
pub proof fn lemma_value_at_in_range(s: DoubleSlider, x: int)
    ensures
        s.in_range(s.value_at(x)),
{
    let t = s.track();
    let start = s.range_start as int;
    let end = s.range_end as int;
    let xc = x - s.offset();
    if !(start == end || t == 0 || xc <= 0) && xc < t {
        let n = start * t + (end - start) * xc;
        if start <= end {
            assert(start * t <= n <= end * t) by (nonlinear_arith)
                requires
                    n == start * t + (end - start) * xc,
                    0 < xc < t,
                    start <= end,
            ;
            lemma_round_div_between(n, t, start, end);
        } else {
            assert(end * t <= n <= start * t) by (nonlinear_arith)
                requires
                    n == start * t + (end - start) * xc,
                    0 < xc < t,
                    end < start,
            ;
            lemma_round_div_between(n, t, end, start);
        }
    }
}

/// Inside the track, the value at a position is the integer nearest to the
/// exact interpolation `start + (end - start) * (x - offset) / track`, so it
/// is rounded, never truncated: `track * value` lies within half a track of
/// `track` times the exact value.
pub proof fn lemma_value_at_nearest(s: DoubleSlider, x: int)
    requires
        s.wf(),
        s.range_start != s.range_end,
        0 < x - s.offset() < s.track(),
    ensures
        -s.track() <= 2 * (s.track() * s.value_at(x) - (s.range_start * s.track() + (
        s.range_end - s.range_start) * (x - s.offset()))) <= s.track(),
{
    let t = s.track();
    let n = s.range_start * t + (s.range_end - s.range_start) * (x - s.offset());
    lemma_round_div(n, t);
    assert(2 * t * s.value_at(x) == 2 * (t * s.value_at(x))) by (nonlinear_arith);
}

/// Taking a value of the range to its position and back gives the value
/// again, up to the rounding of positions to whole length units: the error
/// is at most a half plus half the range's width per length unit of track,
/// and there is none when the track is longer, in length units, than the
/// range is wide.
pub proof fn lemma_round_trip(s: DoubleSlider, v: int)
    requires
        s.wf(),
        s.in_range(v),
        s.track() > 0,
    ensures
        -(s.track() + (s.range_high() - s.range_low())) <= 2 * s.track() * (s.value_at(
            s.position_of(v),
        ) - v) <= s.track() + (s.range_high() - s.range_low()),
        s.range_high() - s.range_low() < s.track() ==> s.value_at(s.position_of(v)) == v,
{
    let t = s.track();
    let start = s.range_start as int;
    let end = s.range_end as int;
    let w = s.range_high() - s.range_low();
    let r = s.value_at(s.position_of(v));
    if start != end {
        let num = if s.ascending() { v - start } else { start - v };
        let den = if s.ascending() { end - start } else { start - end };
        if 0 < num < den {
            let q = round_div(t * num, den);
            lemma_round_div(t * num, den);
            assert(0 * den <= t * num <= t * den) by (nonlinear_arith)
                requires
                    0 < t,
                    0 < num < den,
            ;
            lemma_round_div_between(t * num, den, 0, t);
            assert(s.position_of(v) - s.offset() == q);
            if q == 0 {
                assert(2 * t * num <= den) by (nonlinear_arith)
                    requires
                        2 * den * q >= 2 * (t * num) - den,
                        q == 0,
                ;
                assert(r == start);
                assert(-(t + w) <= 2 * t * (r - v) <= t + w) by (nonlinear_arith)
                    requires
                        2 * t * num <= den,
                        w == den,
                        0 < t,
                        0 < num,
                        r - v == -num || r - v == num,
                ;
            } else if q == t {
                assert(2 * t * (den - num) <= den) by (nonlinear_arith)
                    requires
                        2 * den * q <= 2 * (t * num) + den,
                        q == t,
                ;
                assert(r == end);
                assert(-(t + w) <= 2 * t * (r - v) <= t + w) by (nonlinear_arith)
                    requires
                        2 * t * (den - num) <= den,
                        w == den,
                        0 < t,
                        num < den,
                        r - v == den - num || r - v == num - den,
                ;
            } else {
                let n = start * t + (end - start) * q;
                assert(r == round_div(n, t));
                lemma_round_div(n, t);
                if s.ascending() {
                    assert(-(t + den) <= 2 * t * (r - v) <= t + den) by (nonlinear_arith)
                        requires
                            2 * n - t <= 2 * t * r <= 2 * n + t,
                            n == start * t + (end - start) * q,
                            den == end - start,
                            v == start + num,
                            2 * (t * num) - den <= 2 * den * q <= 2 * (t * num) + den,
                    ;
                } else {
                    assert(-(t + den) <= 2 * t * (r - v) <= t + den) by (nonlinear_arith)
                        requires
                            2 * n - t <= 2 * t * r <= 2 * n + t,
                            n == start * t + (end - start) * q,
                            den == start - end,
                            v == start - num,
                            2 * (t * num) - den <= 2 * den * q <= 2 * (t * num) + den,
                    ;
                }
                assert(w == den);
            }
        } else {
            assert(v == start || v == end);
            assert(r == v);
        }
    } else {
        assert(r == v);
    }
    if w < t {
        assert(r == v) by (nonlinear_arith)
            requires
                -(t + w) <= 2 * t * (r - v) <= t + w,
                w < t,
                0 < t,
        ;
    }
}

} // verus!
