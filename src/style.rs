//! Colours and stroke of the slider, each of which may fall back to the
//! host theme when it was not set.
use egui::{Color32, Stroke};
use vstd::prelude::*;

verus! {

/// egui's colour type, carried through unchanged.
#[verifier::external_type_specification]
#[verifier::external_body]
pub struct ExColor32(Color32);

/// egui's stroke type (width and colour), carried through unchanged.
#[verifier::external_type_specification]
#[verifier::external_body]
pub struct ExStroke(Stroke);

/// The style choices of a slider; `None` means "take the theme's".
#[derive(Clone, Copy, Debug)]
pub struct SliderStyle {
    /// Colour of the track line.
    pub color: Option<Color32>,
    /// Fill of the two handles.
    pub cursor_fill: Option<Color32>,
    /// Stroke of the highlighted part; its width is also the track's width.
    pub stroke: Option<Stroke>,
}

/// A style with every choice made.
#[derive(Clone, Copy, Debug)]
pub struct ResolvedStyle {
    pub color: Color32,
    pub cursor_fill: Color32,
    pub stroke: Stroke,
}

impl SliderStyle {
    /// A style that leaves every choice to the theme.
    pub fn unset() -> (s: Self)
        ensures
            s.color is None,
            s.cursor_fill is None,
            s.stroke is None,
    {
        SliderStyle { color: None, cursor_fill: None, stroke: None }
    }

    /// Each choice that was made, and the theme's `fallback` for the others.
    pub fn resolve(&self, fallback: ResolvedStyle) -> (r: ResolvedStyle)
        ensures
            r.color == (match self.color {
                Some(c) => c,
                None => fallback.color,
            }),
            r.cursor_fill == (match self.cursor_fill {
                Some(c) => c,
                None => fallback.cursor_fill,
            }),
            r.stroke == (match self.stroke {
                Some(s) => s,
                None => fallback.stroke,
            }),
    {
        let color = match self.color {
            Some(c) => c,
            None => fallback.color,
        };
        let cursor_fill = match self.cursor_fill {
            Some(c) => c,
            None => fallback.cursor_fill,
        };
        let stroke = match self.stroke {
            Some(s) => s,
            None => fallback.stroke,
        };
        ResolvedStyle { color, cursor_fill, stroke }
    }
}

} // verus!
