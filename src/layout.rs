//! Where the parts of the slider are drawn and where they can be grabbed,
//! along the widget's width. All positions are from the widget's left edge,
//! in `1 / SCALE` pixels.
use crate::slider::{DoubleSlider, EDGE_OFFSET};
use vstd::prelude::*;

verus! {

/// A stretch `[start, end]` along the widget's width.
#[derive(Clone, Copy, Debug, PartialEq, Eq, Structural)]
pub struct Segment {
    pub start: i64,
    pub end: i64,
}

impl DoubleSlider {
    /// The highlighted stretches: from the lower handle to the upper one, or,
    /// when inverted, from the track line's start to the lower handle and
    /// from the upper handle to the track line's end.
    pub open spec fn highlight_spec(self) -> Seq<Segment> {
        let lower_x = self.position_of(self.lower as int) as i64;
        let upper_x = self.position_of(self.upper as int) as i64;
        if self.inverted_highlighting {
            seq![
                Segment { start: self.control_point_radius, end: lower_x },
                Segment { start: upper_x, end: (self.width - self.control_point_radius) as i64 },
            ]
        } else {
            seq![Segment { start: lower_x, end: upper_x }]
        }
    }

    /// Height of the widget: a handle's diameter and the edge margin above
    /// and below.
    pub fn height(&self) -> (h: i64)
        requires
            self.wf(),
        ensures
            h == 2 * self.control_point_radius + 2 * EDGE_OFFSET,
    {
        2 * self.control_point_radius + 2 * EDGE_OFFSET
    }

    /// The track line, a handle's radius in from each side of the widget.
    pub fn track_line(&self) -> (s: Segment)
        requires
            self.wf(),
        ensures
            s.start == self.control_point_radius,
            s.end == self.width - self.control_point_radius,
    {
        Segment { start: self.control_point_radius, end: self.width - self.control_point_radius }
    }

    /// Where the part between the handles can be grabbed: from the lower
    /// handle's edge to the upper handle's edge.
    pub fn span_region(&self) -> (s: Segment)
        requires
            self.wf(),
        ensures
            s.start == self.position_of(self.lower as int) + self.control_point_radius,
            s.end == self.position_of(self.upper as int) - self.control_point_radius,
    {
        let lower_x = self.val_to_x(self.lower);
        let upper_x = self.val_to_x(self.upper);
        Segment {
            start: lower_x + self.control_point_radius,
            end: upper_x - self.control_point_radius,
        }
    }

    /// Where the handle of `value` can be grabbed: a handle's radius to
    /// each side of its centre.
    pub fn handle_region(&self, value: i64) -> (s: Segment)
        requires
            self.wf(),
        ensures
            s.start == self.position_of(value as int) - self.control_point_radius,
            s.end == self.position_of(value as int) + self.control_point_radius,
    {
        let x = self.val_to_x(value);
        Segment { start: x - self.control_point_radius, end: x + self.control_point_radius }
    }

    /// The highlighted stretches of the track.
    pub fn highlight(&self) -> (r: Vec<Segment>)
        requires
            self.wf(),
        ensures
            r@ == self.highlight_spec(),
    {
        let lower_x = self.val_to_x(self.lower);
        let upper_x = self.val_to_x(self.upper);
        let mut r: Vec<Segment> = Vec::new();
        if self.inverted_highlighting {
            r.push(Segment { start: self.control_point_radius, end: lower_x });
            r.push(Segment { start: upper_x, end: self.width - self.control_point_radius });
        } else {
            r.push(Segment { start: lower_x, end: upper_x });
        }
        assert(r@ =~= self.highlight_spec());
        r
    }
}

} // verus!
