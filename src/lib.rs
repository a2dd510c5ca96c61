//! A two-handle range slider ("double slider"): the value/position mapping,
//! the rules that keep the two handles ordered and inside the value range,
//! pan and zoom gestures, and the highlight layout.
//!
//! Values are integers. Lengths on screen, gesture factors and sensitivity
//! factors are fixed-point integers, counted in `1 / SCALE` of their unit.
pub mod arith;
pub mod interaction;
pub mod layout;
pub mod slider;
pub mod style;

pub use interaction::FrameInput;
pub use layout::Segment;
pub use slider::{DoubleSlider, EDGE_OFFSET, MAX_EXTENT, SCALE};
pub use style::{ResolvedStyle, SliderStyle};
