//! What one frame of use does to the two values: dragging the part between
//! the handles, dragging each handle, the rule that keeps them apart and in
//! range, and panning and zooming with scroll and zoom gestures.
use crate::arith::{div_round, lemma_round_div_between, lemma_round_div_exact, round_div};
use crate::slider::{lemma_value_at_in_range, within_extent, DoubleSlider, SCALE};
use vstd::prelude::*;

verus! {

/// The input of one frame, as the host reports it. Positions and lengths are
/// in `1 / SCALE` pixels, measured from the widget's left edge.
#[derive(Clone, Copy, Debug)]
pub struct FrameInput {
    /// Horizontal drag of the part between the handles, while it is dragged.
    pub span_drag: Option<i64>,
    /// Pointer position while the lower handle is dragged.
    pub lower_pointer: Option<i64>,
    /// Pointer position while the upper handle is dragged.
    pub upper_pointer: Option<i64>,
    /// The pointer is over the widget, so that scroll and zoom apply.
    pub hovered: bool,
    /// Scrolled distance along each axis.
    pub scroll_x: i64,
    pub scroll_y: i64,
    /// The zoom gesture's factor, in `1 / SCALE`: `SCALE` is no zoom.
    pub zoom: i64,
}

impl FrameInput {
    /// Drag and gesture magnitudes are within the bounds of the arithmetic.
    pub open spec fn wf(self) -> bool {
        &&& (self.span_drag matches Some(d) ==> within_extent(d as int))
        &&& within_extent(self.scroll_x as int)
        &&& within_extent(self.scroll_y as int)
        &&& within_extent(self.zoom as int)
    }

    /// A frame in which nothing is dragged, scrolled or zoomed.
    pub open spec fn is_idle(self) -> bool {
        &&& self.span_drag is None
        &&& self.lower_pointer is None
        &&& self.upper_pointer is None
        &&& (self.hovered ==> self.scroll_x == 0 && self.scroll_y == 0 && self.zoom == SCALE)
    }
}

/// Fixed-point denominator of a scroll or zoom amount: a length times a factor.
pub open spec fn amount_unit() -> int {
    SCALE * SCALE
}

/// `v` moved by `amount / amount_unit()`, rounded to the nearest integer.
pub open spec fn shifted(v: int, amount: int) -> int {
    round_div(v * amount_unit() + amount, amount_unit())
}

/// Bound on a scroll or zoom amount.
pub open spec fn amount_bound() -> int {
    0x40_0000_0000_0000_0000_0000_0000
}

/// Moves `v` by `amount / (SCALE * SCALE)` and rounds to the nearest integer.
fn shift(v: i128, amount: i128) -> (r: i128)
    requires
        -0x4_0000_0000_0000_0000 <= v <= 0x4_0000_0000_0000_0000,
        -amount_bound() <= amount <= amount_bound(),
    ensures
        r == shifted(v as int, amount as int),
        v - 0x8000_0000_0000_0000 <= r <= v + 0x8000_0000_0000_0000,
{
    let scale: i128 = SCALE as i128;
    assert(scale * scale == 100_000_000_000_000) by (nonlinear_arith)
        requires
            scale == 10_000_000,
    ;
    let unit: i128 = scale * scale;
    assert(unit == amount_unit());
    let n = v * unit + amount;
    proof {
        lemma_round_div_between(
            n as int,
            unit as int,
            v - 0x8000_0000_0000_0000,
            v + 0x8000_0000_0000_0000,
        );
    }
    div_round(n, unit)
}

impl DoubleSlider {
    /// How far `upper` lies past `lower` in the direction of the range.
    pub open spec fn gap(self, lower: int, upper: int) -> int {
        if self.ascending() {
            upper - lower
        } else {
            lower - upper
        }
    }

    /// `v` moved by `d` in the direction of the range.
    pub open spec fn toward_end(self, v: int, d: int) -> int {
        if self.ascending() {
            v + d
        } else {
            v - d
        }
    }

    /// After one handle moved to give the pair (`lower`, `upper`): if they
    /// are closer than the separation distance, one of them is set at that
    /// distance from the other (the other handle when pushing, the moved one
    /// when not); then both are clamped to the range.
    #[verifier::opaque]
    pub open spec fn settle(self, lower: int, upper: int, lower_moved: bool) -> (int, int) {
        let sep = self.separation_distance as int;
        let upper_yields = if lower_moved {
            self.push_by_dragging
        } else {
            !self.push_by_dragging
        };
        let l = if self.gap(lower, upper) < sep && !upper_yields {
            self.toward_end(upper, -sep)
        } else {
            lower
        };
        let u = if self.gap(lower, upper) < sep && upper_yields {
            self.toward_end(lower, sep)
        } else {
            upper
        };
        (self.clamp(l), self.clamp(u))
    }

    /// `settle` after the handle that moved, then after the other one: where
    /// the range stopped the handle that gave way, the other one gives way
    /// in its turn.
    pub open spec fn settle_both(self, lower: int, upper: int, lower_moved: bool) -> (int, int) {
        let a = self.settle(lower, upper, lower_moved);
        self.settle(a.0, a.1, !lower_moved)
    }

    /// The separation distance fits in the range, so that a pair in range
    /// can keep it.
    pub open spec fn separation_fits(self) -> bool {
        0 <= self.separation_distance <= self.range_high() - self.range_low()
    }

    /// The values held are in range and at least the separation distance apart.
    pub open spec fn settled(self) -> bool {
        &&& self.in_range(self.lower as int)
        &&& self.in_range(self.upper as int)
        &&& self.gap(self.lower as int, self.upper as int) >= self.separation_distance
    }

    /// Both handles dragged along by `delta`.
    pub open spec fn span_dragged(self, delta: int) -> Self {
        self.with_values(
            self.value_at(self.position_of(self.lower as int) + delta),
            self.value_at(self.position_of(self.upper as int) + delta),
        )
    }

    /// The lower handle taken to `pointer`, if it is dragged, and the pair settled.
    pub open spec fn lower_dragged(self, pointer: Option<i64>) -> Self {
        let l = match pointer {
            Some(x) => self.value_at(x as int),
            None => self.lower as int,
        };
        let r = self.settle_both(l, self.upper as int, true);
        self.with_values(r.0, r.1)
    }

    /// The upper handle taken to `pointer`, if it is dragged, and the pair settled.
    pub open spec fn upper_dragged(self, pointer: Option<i64>) -> Self {
        let u = match pointer {
            Some(x) => self.value_at(x as int),
            None => self.upper as int,
        };
        let r = self.settle_both(self.lower as int, u, false);
        self.with_values(r.0, r.1)
    }

    /// The pan of a scroll gesture, in `1 / amount_unit()` values.
    pub open spec fn scroll_amount(self, scroll_x: int, scroll_y: int) -> int {
        let x = if self.horizontal_scroll { scroll_x } else { 0 };
        let y = if self.vertical_scroll { scroll_y } else { 0 };
        (x + y) * self.scroll_factor
    }

    /// The spread of a zoom gesture, in `1 / amount_unit()` values.
    pub open spec fn zoom_amount(self, zoom: int) -> int {
        self.zoom_factor * (zoom - SCALE)
    }

    /// Both values panned by the scroll amount; then the upper one moved up
    /// and the lower one down by the zoom amount; then the pair settled as
    /// after a move of the lower handle, and then settled both ways as after
    /// a move of the upper one.
    pub open spec fn scrolled(self, scroll_x: int, scroll_y: int, zoom: int) -> Self {
        let s = self.scroll_amount(scroll_x, scroll_y);
        let z = self.zoom_amount(zoom);
        let l = shifted(shifted(self.lower as int, s), -z);
        let u = shifted(shifted(self.upper as int, s), z);
        let a = self.settle(l, u, true);
        let b = self.settle_both(a.0, a.1, false);
        self.with_values(b.0, b.1)
    }

    /// One frame: the part between the handles (when it is highlighted),
    /// then the lower handle, then the upper one, then scroll and zoom
    /// while the pointer is over the widget.
    pub open spec fn frame(self, input: FrameInput) -> Self {
        let s1 = match input.span_drag {
            Some(d) if !self.inverted_highlighting => self.span_dragged(d as int),
            _ => self,
        };
        let s2 = s1.lower_dragged(input.lower_pointer);
        let s3 = s2.upper_dragged(input.upper_pointer);
        if input.hovered {
            s3.scrolled(input.scroll_x as int, input.scroll_y as int, input.zoom as int)
        } else {
            s3
        }
    }

    /// A frame reports a change when something was dragged, or a scroll or
    /// zoom gesture over the widget had a nonzero amount.
    pub open spec fn frame_changed(self, input: FrameInput) -> bool {
        ||| (input.span_drag is Some && !self.inverted_highlighting)
        ||| input.lower_pointer is Some
        ||| input.upper_pointer is Some
        ||| (input.hovered && (self.scroll_amount(input.scroll_x as int, input.scroll_y as int) != 0
            || self.zoom_amount(input.zoom as int) != 0))
    }

    /// `v` clamped to the range.
    pub fn clamp_to_range(&self, v: i128) -> (r: i64)
        ensures
            r == self.clamp(v as int),
    {
        let (low, high) = if self.range_start <= self.range_end {
            (self.range_start, self.range_end)
        } else {
            (self.range_end, self.range_start)
        };
        if v < low as i128 {
            low
        } else if v > high as i128 {
            high
        } else {
            v as i64
        }
    }

    /// Applies the separation rule and the clamp to the pair (`lower`, `upper`).
    fn settle_pass(&mut self, lower: i128, upper: i128, lower_moved: bool)
        requires
            -0x4_0000_0000_0000_0000 <= lower <= 0x4_0000_0000_0000_0000,
            -0x4_0000_0000_0000_0000 <= upper <= 0x4_0000_0000_0000_0000,
        ensures
            *final(self) == old(self).with_values(
                old(self).settle(lower as int, upper as int, lower_moved).0,
                old(self).settle(lower as int, upper as int, lower_moved).1,
            ),
            final(self).in_range(final(self).lower as int),
            final(self).in_range(final(self).upper as int),
    {
        proof {
            reveal(DoubleSlider::settle);
        }
        let sep = self.separation_distance as i128;
        let ascending = self.range_start <= self.range_end;
        let (l, u) = (lower, upper);
        let gap = if ascending { u - l } else { l - u };
        let upper_yields = if lower_moved { self.push_by_dragging } else { !self.push_by_dragging };
        let mut new_lower = l;
        let mut new_upper = u;
        if gap < sep {
            if upper_yields {
                new_upper = if ascending { l + sep } else { l - sep };
            } else {
                new_lower = if ascending { u - sep } else { u + sep };
            }
        }
        self.lower = self.clamp_to_range(new_lower);
        self.upper = self.clamp_to_range(new_upper);
    }

    /// Settles the pair (`lower`, `upper`) both ways, starting with the
    /// handle that moved.
    fn settle_values(&mut self, lower: i128, upper: i128, lower_moved: bool)
        requires
            -0x4_0000_0000_0000_0000 <= lower <= 0x4_0000_0000_0000_0000,
            -0x4_0000_0000_0000_0000 <= upper <= 0x4_0000_0000_0000_0000,
        ensures
            *final(self) == old(self).with_values(
                old(self).settle_both(lower as int, upper as int, lower_moved).0,
                old(self).settle_both(lower as int, upper as int, lower_moved).1,
            ),
            final(self).in_range(final(self).lower as int),
            final(self).in_range(final(self).upper as int),
            old(self).separation_fits() && old(self).in_range(lower as int) && old(self).in_range(
                upper as int,
            ) ==> final(self).settled(),
    {
        let ghost start = *self;
        self.settle_pass(lower, upper, lower_moved);
        proof {
            lemma_settle_in_range(start, lower as int, upper as int, lower_moved);
        }
        let (l, u) = (self.lower, self.upper);
        let ghost middle = *self;
        self.settle_pass(l as i128, u as i128, !lower_moved);
        proof {
            lemma_settle_reads_configuration(start, middle, l as int, u as int, !lower_moved);
            lemma_settle_in_range(start, l as int, u as int, !lower_moved);
            if start.separation_fits() && start.in_range(lower as int) && start.in_range(
                upper as int,
            ) {
                lemma_settle_twice_separates(start, lower as int, upper as int, lower_moved);
            }
        }
    }

    /// Drags both handles by `delta`, as dragging the part between them does.
    pub fn drag_span(&mut self, delta: i64)
        requires
            old(self).wf(),
            within_extent(delta as int),
        ensures
            *final(self) == old(self).span_dragged(delta as int),
            final(self).in_range(final(self).lower as int),
            final(self).in_range(final(self).upper as int),
    {
        let lower_x = self.val_to_x(self.lower);
        let upper_x = self.val_to_x(self.upper);
        let upper = self.x_to_val(upper_x + delta);
        let lower = self.x_to_val(lower_x + delta);
        self.upper = upper;
        self.lower = lower;
    }

    /// Takes the lower handle to `pointer` if it is dragged, then settles the
    /// pair. Returns whether it was dragged.
    pub fn drag_lower(&mut self, pointer: Option<i64>) -> (dragged: bool)
        requires
            old(self).wf(),
        ensures
            *final(self) == old(self).lower_dragged(pointer),
            dragged == pointer is Some,
            old(self).separation_fits() && old(self).in_range(old(self).upper as int) && (
            pointer is Some || old(self).in_range(old(self).lower as int)) ==> final(self).settled(),
            final(self).in_range(final(self).lower as int),
            final(self).in_range(final(self).upper as int),
    {
        let lower = match pointer {
            Some(x) => self.x_to_val(x),
            None => self.lower,
        };
        let upper = self.upper;
        self.settle_values(lower as i128, upper as i128, true);
        pointer.is_some()
    }

    /// Takes the upper handle to `pointer` if it is dragged, then settles the
    /// pair. Returns whether it was dragged.
    pub fn drag_upper(&mut self, pointer: Option<i64>) -> (dragged: bool)
        requires
            old(self).wf(),
        ensures
            *final(self) == old(self).upper_dragged(pointer),
            dragged == pointer is Some,
            old(self).separation_fits() && old(self).in_range(old(self).lower as int) && (
            pointer is Some || old(self).in_range(old(self).upper as int)) ==> final(self).settled(),
            final(self).in_range(final(self).lower as int),
            final(self).in_range(final(self).upper as int),
    {
        let upper = match pointer {
            Some(x) => self.x_to_val(x),
            None => self.upper,
        };
        let lower = self.lower;
        self.settle_values(lower as i128, upper as i128, false);
        pointer.is_some()
    }

    /// Pans and zooms both values by the scroll and zoom gestures. Returns
    /// whether either had a nonzero amount.
    pub fn scroll_zoom(&mut self, scroll_x: i64, scroll_y: i64, zoom: i64) -> (changed: bool)
        requires
            old(self).wf(),
            within_extent(scroll_x as int),
            within_extent(scroll_y as int),
            within_extent(zoom as int),
        ensures
            *final(self) == old(self).scrolled(scroll_x as int, scroll_y as int, zoom as int),
            changed == (old(self).scroll_amount(scroll_x as int, scroll_y as int) != 0
                || old(self).zoom_amount(zoom as int) != 0),
            old(self).separation_fits() ==> final(self).settled(),
            final(self).in_range(final(self).lower as int),
            final(self).in_range(final(self).upper as int),
    {
        let x: i128 = if self.horizontal_scroll { scroll_x as i128 } else { 0 };
        let y: i128 = if self.vertical_scroll { scroll_y as i128 } else { 0 };
        let factor = self.scroll_factor as i128;
        let zoom_factor = self.zoom_factor as i128;
        let z = zoom as i128 - SCALE as i128;
        proof {
            assert(-0x20_0000_0000_0000_0000_0000_0000 <= (x + y) * factor
                <= 0x20_0000_0000_0000_0000_0000_0000) by (nonlinear_arith)
                requires
                    -0x8_0000_0000_0000 <= x + y <= 0x8_0000_0000_0000,
                    -0x4_0000_0000_0000 <= factor <= 0x4_0000_0000_0000,
            ;
            assert(-0x20_0000_0000_0000_0000_0000_0000 <= zoom_factor * z
                <= 0x20_0000_0000_0000_0000_0000_0000) by (nonlinear_arith)
                requires
                    -0x8_0000_0000_0000 <= z <= 0x8_0000_0000_0000,
                    -0x4_0000_0000_0000 <= zoom_factor <= 0x4_0000_0000_0000,
            ;
        }
        let pan = (x + y) * factor;
        let spread = zoom_factor * z;
        let lower = shift(shift(self.lower as i128, pan), -spread);
        let upper = shift(shift(self.upper as i128, pan), spread);
        let ghost start = *self;
        self.settle_pass(lower, upper, true);
        proof {
            lemma_settle_in_range(start, lower as int, upper as int, true);
        }
        let (lower, upper) = (self.lower, self.upper);
        let ghost middle = *self;
        self.settle_values(lower as i128, upper as i128, false);
        proof {
            lemma_settle_reads_configuration(start, middle, lower as int, upper as int, false);
        }
        pan != 0 || spread != 0
    }
    /// Runs one frame of input: the decisions of drawing and using the
    /// slider once. Returns whether the frame changed the values.
    pub fn interact(&mut self, input: &FrameInput) -> (changed: bool)
        requires
            old(self).wf(),
            input.wf(),
        ensures
            *final(self) == old(self).frame(*input),
            changed == old(self).frame_changed(*input),
            old(self).separation_fits() ==> final(self).settled(),
            final(self).in_range(final(self).lower as int),
            final(self).in_range(final(self).upper as int),
    {
        proof {
            if self.separation_fits() {
                lemma_frame_keeps_separation(*self, *input);
            }
        }
        let mut changed = false;
        if let Some(delta) = input.span_drag {
            if !self.inverted_highlighting {
                self.drag_span(delta);
                changed = true;
            }
        }
        if self.drag_lower(input.lower_pointer) {
            changed = true;
        }
        if self.drag_upper(input.upper_pointer) {
            changed = true;
        }
        if input.hovered {
            if self.scroll_zoom(input.scroll_x, input.scroll_y, input.zoom) {
                changed = true;
            }
        }
        changed
    }
}

/// A shift by nothing leaves a value as it is.
proof fn lemma_shifted_zero(v: int)
    ensures
        shifted(v, 0) == v,
{
    lemma_round_div_exact(v, amount_unit());
}

/// Settling depends on the configuration only, not on the values held.
proof fn lemma_settle_reads_configuration(
    s: DoubleSlider,
    t: DoubleSlider,
    lower: int,
    upper: int,
    lower_moved: bool,
)
    requires
        t == s.with_values(t.lower as int, t.upper as int),
    ensures
        t.settle(lower, upper, lower_moved) == s.settle(lower, upper, lower_moved),
        t.settle_both(lower, upper, lower_moved) == s.settle_both(lower, upper, lower_moved),
        t.with_values(lower, upper) == s.with_values(lower, upper),
{
    reveal(DoubleSlider::settle);
}

/// Settling always leaves both values in range, and leaves a pair that is
/// in range and separated as it is.
proof fn lemma_settle_in_range(s: DoubleSlider, lower: int, upper: int, lower_moved: bool)
    ensures
        s.in_range(s.settle(lower, upper, lower_moved).0),
        s.in_range(s.settle(lower, upper, lower_moved).1),
        s.in_range(lower) && s.in_range(upper) && s.gap(lower, upper) >= s.separation_distance
            ==> s.settle(lower, upper, lower_moved) == (lower, upper),
{
    reveal(DoubleSlider::settle);
}

/// Settling a pair in range both ways leaves it separated, when the
/// separation fits in the range.
proof fn lemma_settle_twice_separates(s: DoubleSlider, lower: int, upper: int, lower_moved: bool)
    requires
        s.in_range(lower),
        s.in_range(upper),
        s.separation_fits(),
    ensures
        ({
            let r = s.settle_both(lower, upper, lower_moved);
            s.gap(r.0, r.1) >= s.separation_distance
        }),
{
    reveal(DoubleSlider::settle);
}

/// Any frame (drags, scroll and zoom) leaves the two values in range and at
/// least the separation distance apart in the direction of the range, when
/// that distance fits in the range.
pub proof fn lemma_frame_keeps_separation(s: DoubleSlider, input: FrameInput)
    requires
        s.wf(),
        input.wf(),
        s.separation_fits(),
    ensures
        s.frame(input).settled(),
{
    let s1 = match input.span_drag {
        Some(d) if !s.inverted_highlighting => s.span_dragged(d as int),
        _ => s,
    };
    let s2 = s1.lower_dragged(input.lower_pointer);
    let s3 = s2.upper_dragged(input.upper_pointer);
    let l1 = match input.lower_pointer {
        Some(x) => s1.value_at(x as int),
        None => s1.lower as int,
    };
    let a1 = s1.settle(l1, s1.upper as int, true);
    lemma_settle_in_range(s1, l1, s1.upper as int, true);
    lemma_settle_in_range(s1, a1.0, a1.1, false);
    assert(s2.in_range(s2.lower as int) && s2.in_range(s2.upper as int));
    let u2 = match input.upper_pointer {
        Some(x) => s2.value_at(x as int),
        None => s2.upper as int,
    };
    if let Some(x) = input.upper_pointer {
        lemma_value_at_in_range(s2, x as int);
    }
    let a2 = s2.settle(s2.lower as int, u2, false);
    lemma_settle_in_range(s2, s2.lower as int, u2, false);
    lemma_settle_in_range(s2, a2.0, a2.1, true);
    lemma_settle_twice_separates(s2, s2.lower as int, u2, false);
    if input.hovered {
        let sc = s3.scroll_amount(input.scroll_x as int, input.scroll_y as int);
        let z = s3.zoom_amount(input.zoom as int);
        let l = shifted(shifted(s3.lower as int, sc), -z);
        let u = shifted(shifted(s3.upper as int, sc), z);
        let a = s3.settle(l, u, true);
        let b = s3.settle(a.0, a.1, false);
        lemma_settle_in_range(s3, l, u, true);
        lemma_settle_in_range(s3, a.0, a.1, false);
        lemma_settle_in_range(s3, b.0, b.1, true);
        lemma_settle_twice_separates(s3, a.0, a.1, false);
        assert(s.frame(input) == s3.scrolled(
            input.scroll_x as int,
            input.scroll_y as int,
            input.zoom as int,
        ));
    }
}

/// A frame in which nothing is dragged, scrolled or zoomed leaves values
/// that are in range and separated as they are, and reports no change.
pub proof fn lemma_idle_frame(s: DoubleSlider, input: FrameInput)
    requires
        s.wf(),
        input.is_idle(),
        s.in_range(s.lower as int),
        s.in_range(s.upper as int),
        s.gap(s.lower as int, s.upper as int) >= s.separation_distance,
    ensures
        s.frame(input) == s,
        !s.frame_changed(input),
{
    lemma_settle_in_range(s, s.lower as int, s.upper as int, true);
    lemma_settle_in_range(s, s.lower as int, s.upper as int, false);
    let s2 = s.lower_dragged(input.lower_pointer);
    assert(s2 == s);
    let s3 = s2.upper_dragged(input.upper_pointer);
    assert(s3 == s);
    if input.hovered {
        assert(s.scroll_amount(0, 0) == 0) by (nonlinear_arith);
        assert(s.zoom_amount(SCALE as int) == 0) by (nonlinear_arith);
        lemma_shifted_zero(s.lower as int);
        lemma_shifted_zero(s.upper as int);
        assert(s.scrolled(input.scroll_x as int, input.scroll_y as int, input.zoom as int) == s);
    }
}

} // verus!
