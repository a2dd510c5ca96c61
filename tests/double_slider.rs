use egui::{Color32, Stroke};
use egui_double_slider::{
    DoubleSlider, FrameInput, ResolvedStyle, Segment, SliderStyle, EDGE_OFFSET, SCALE,
};

/// A length given in thousandths of a pixel, in the library's units.
fn mpx(thousandths: i64) -> i64 {
    thousandths * (SCALE / 1000)
}

fn idle() -> FrameInput {
    FrameInput {
        span_drag: None,
        lower_pointer: None,
        upper_pointer: None,
        hovered: false,
        scroll_x: 0,
        scroll_y: 0,
        zoom: SCALE,
    }
}

fn hover(scroll_x: i64, scroll_y: i64, zoom: i64) -> FrameInput {
    FrameInput { hovered: true, scroll_x, scroll_y, zoom, ..idle() }
}

/// A slider whose track is 300 px long: 1000 length units per value on -150..=150.
fn wide(lower: i64, upper: i64) -> DoubleSlider {
    DoubleSlider::new(lower, upper, -150..=150).width(318 * SCALE)
}

#[test]
fn new_sets_the_defaults() {
    let s = DoubleSlider::new(-20, 40, -150..=150);
    assert_eq!((s.lower, s.upper), (-20, 40));
    assert_eq!((s.range_start, s.range_end), (-150, 150));
    assert_eq!(s.separation_distance, 1);
    assert_eq!(s.control_point_radius, 7 * SCALE);
    assert_eq!(s.width, 100 * SCALE);
    assert_eq!(s.scroll_factor, 400_000);
    assert_eq!(s.zoom_factor, 10 * SCALE);
    assert!(s.horizontal_scroll && s.vertical_scroll && s.push_by_dragging);
    assert!(!s.inverted_highlighting);
    assert!(s.style.color.is_none() && s.style.cursor_fill.is_none() && s.style.stroke.is_none());
}

#[test]
fn builders_set_one_field_each() {
    let s = DoubleSlider::new(0, 10, 0..=100)
        .width(200 * SCALE)
        .zoom_factor(15 * SCALE)
        .scroll_factor(SCALE / 10)
        .horizontal_scroll(false)
        .vertical_scroll(false)
        .invert_highlighting(true)
        .separation_distance(5)
        .control_point_radius(4 * SCALE)
        .push_by_dragging(false)
        .color(Color32::RED)
        .cursor_fill(Color32::BLUE)
        .stroke(Stroke::new(3.0, Color32::GREEN));
    assert_eq!(s.width, 200 * SCALE);
    assert_eq!(s.zoom_factor, 15 * SCALE);
    assert_eq!(s.scroll_factor, SCALE / 10);
    assert!(!s.horizontal_scroll && !s.vertical_scroll && !s.push_by_dragging);
    assert!(s.inverted_highlighting);
    assert_eq!(s.separation_distance, 5);
    assert_eq!(s.control_point_radius, 4 * SCALE);
    assert_eq!(s.style.color, Some(Color32::RED));
    assert_eq!(s.style.cursor_fill, Some(Color32::BLUE));
    assert_eq!(s.style.stroke, Some(Stroke::new(3.0, Color32::GREEN)));
    assert_eq!((s.lower, s.upper, s.range_start, s.range_end), (0, 10, 0, 100));
}

#[test]
fn style_falls_back_to_the_theme() {
    let theme = ResolvedStyle {
        color: Color32::GRAY,
        cursor_fill: Color32::WHITE,
        stroke: Stroke::new(7.0, Color32::BLACK),
    };
    let unset = SliderStyle::unset().resolve(theme);
    assert_eq!(unset.color, Color32::GRAY);
    assert_eq!(unset.cursor_fill, Color32::WHITE);
    assert_eq!(unset.stroke, Stroke::new(7.0, Color32::BLACK));
    let s = DoubleSlider::new(0, 1, 0..=1).color(Color32::RED).stroke(Stroke::new(2.0, Color32::YELLOW));
    let chosen = s.style.resolve(theme);
    assert_eq!(chosen.color, Color32::RED);
    assert_eq!(chosen.cursor_fill, Color32::WHITE);
    assert_eq!(chosen.stroke, Stroke::new(2.0, Color32::YELLOW));
}

#[test]
fn positions_of_values() {
    let s = DoubleSlider::new(0, 0, -150..=150);
    // offset 9 px, track 82 px
    assert_eq!(s.val_to_x(-150), mpx(9000));
    assert_eq!(s.val_to_x(150), mpx(91_000));
    assert_eq!(s.val_to_x(0), mpx(50_000));
    assert_eq!(s.val_to_x(-20), 445_333_333);
    assert_eq!(s.val_to_x(-25), 431_666_667);
    // outside the range: the nearer end
    assert_eq!(s.val_to_x(-1000), mpx(9000));
    assert_eq!(s.val_to_x(1000), mpx(91_000));
}

#[test]
fn values_at_positions() {
    let s = DoubleSlider::new(0, 0, -150..=150);
    assert_eq!(s.x_to_val(mpx(9000)), -150);
    assert_eq!(s.x_to_val(mpx(0)), -150);
    assert_eq!(s.x_to_val(mpx(91_000)), 150);
    assert_eq!(s.x_to_val(mpx(100_000)), 150);
    assert_eq!(s.x_to_val(mpx(50_000)), 0);
}

#[test]
fn pixel_values_are_rounded_not_truncated() {
    // a 100 px track over -150..=150
    let s = DoubleSlider::new(0, 0, -150..=150).width(118 * SCALE);
    let offset = mpx(9000);
    assert_eq!(s.x_to_val(offset + mpx(50_000)), 0);
    assert_eq!(s.x_to_val(offset + mpx(33_400)), -50);
    assert_eq!(s.x_to_val(offset + mpx(33_500)), -50);
    assert_eq!(s.x_to_val(offset + mpx(16_500)), -101);
    assert_eq!(s.x_to_val(offset + mpx(66_500)), 50);
    assert_eq!(s.x_to_val(offset + mpx(66_600)), 50);
    assert_eq!(s.x_to_val(offset + mpx(66_700)), 50);
    assert_eq!(s.x_to_val(offset + mpx(66_400)), 49);
}

#[test]
fn value_to_position_and_back() {
    let s = DoubleSlider::new(0, 0, -150..=150);
    for v in -150..=150 {
        assert_eq!(s.x_to_val(s.val_to_x(v)), v);
    }
    let descending = DoubleSlider::new(0, 0, 300..=10);
    for v in 10..=300 {
        assert_eq!(descending.x_to_val(descending.val_to_x(v)), v);
    }
}

#[test]
fn wide_range_round_trips_exactly() {
    // 200 001 values on the default 82 px track
    let s = DoubleSlider::new(0, 0, 0..=200_000);
    assert_eq!(s.val_to_x(1), 90_004_100);
    assert_eq!(s.x_to_val(90_004_100), 1);
    for v in 0..=200_000 {
        assert_eq!(s.x_to_val(s.val_to_x(v)), v);
    }
}

#[test]
fn holding_the_span_on_a_wide_range_keeps_the_values() {
    let mut s = DoubleSlider::new(12_345, 67_891, 0..=200_000);
    assert!(s.interact(&FrameInput { span_drag: Some(0), ..idle() }));
    assert_eq!((s.lower, s.upper), (12_345, 67_891));
}

#[test]
fn one_value_range() {
    let s = DoubleSlider::new(10, 10, 10..=10);
    assert_eq!(s.val_to_x(10), mpx(7000) + EDGE_OFFSET);
    assert_eq!(s.val_to_x(50), mpx(9000));
    assert_eq!(s.x_to_val(mpx(50_000)), 10);
}

#[test]
fn empty_track_maps_to_the_start() {
    let s = DoubleSlider::new(0, 0, 0..=100).width(10 * SCALE);
    assert_eq!(s.x_to_val(mpx(5000)), 0);
    assert_eq!(s.x_to_val(mpx(100_000)), 0);
    assert_eq!(s.val_to_x(100), mpx(9000));
}

#[test]
fn descending_range_positions() {
    let s = DoubleSlider::new(0, 0, 100..=0).width(118 * SCALE);
    assert_eq!(s.val_to_x(100), mpx(9000));
    assert_eq!(s.val_to_x(0), mpx(109_000));
    assert_eq!(s.val_to_x(25), mpx(84_000));
    assert_eq!(s.x_to_val(mpx(34_000)), 75);
    assert_eq!(s.x_to_val(mpx(0)), 100);
}

#[test]
fn lower_dragged_past_the_end_stops_at_the_separation() {
    for push in [true, false] {
        let mut s = DoubleSlider::new(30, 300, 10..=300).separation_distance(10).push_by_dragging(push);
        let changed = s.interact(&FrameInput { lower_pointer: Some(mpx(200_000)), ..idle() });
        assert!(changed);
        assert_eq!((s.lower, s.upper), (290, 300));
    }
}

#[test]
fn upper_dragged_below_lower_pushes_it() {
    let mut s = DoubleSlider::new(-20, 40, -150..=150).separation_distance(1);
    let x = s.val_to_x(-25);
    let changed = s.interact(&FrameInput { upper_pointer: Some(x), ..idle() });
    assert!(changed);
    assert_eq!((s.lower, s.upper), (-26, -25));
}

#[test]
fn upper_dragged_below_lower_stops_without_pushing() {
    let mut s = DoubleSlider::new(-20, 40, -150..=150).separation_distance(1).push_by_dragging(false);
    let x = s.val_to_x(-25);
    assert!(s.drag_upper(Some(x)));
    assert_eq!((s.lower, s.upper), (-20, -19));
}

#[test]
fn lower_dragged_above_upper_pushes_it() {
    let mut s = wide(-20, 40).separation_distance(5);
    assert!(s.drag_lower(Some(mpx(9000 + 200_000))));
    assert_eq!((s.lower, s.upper), (50, 55));
}

#[test]
fn lower_dragged_above_upper_stops_without_pushing() {
    let mut s = wide(-20, 40).separation_distance(5).push_by_dragging(false);
    assert!(s.drag_lower(Some(mpx(9000 + 200_000))));
    assert_eq!((s.lower, s.upper), (35, 40));
}

#[test]
fn range_start_stops_a_handle_that_pushes() {
    let mut s = wide(-140, 0).separation_distance(20);
    assert!(s.drag_upper(Some(mpx(0))));
    assert_eq!((s.lower, s.upper), (-150, -130));
    let mut t = wide(-140, 0).separation_distance(20).push_by_dragging(false);
    assert!(t.drag_upper(Some(mpx(0))));
    assert_eq!((t.lower, t.upper), (-140, -120));
}

#[test]
fn range_end_stops_a_handle_that_pushes() {
    let mut s = wide(0, 140).separation_distance(20);
    assert!(s.drag_lower(Some(mpx(1_000_000))));
    assert_eq!((s.lower, s.upper), (130, 150));
}

#[test]
fn frame_from_out_of_range_values_ends_separated() {
    let mut s = wide(500, 400).separation_distance(10);
    assert!(!s.interact(&idle()));
    assert_eq!((s.lower, s.upper), (140, 150));
}

#[test]
fn undragged_handles_are_settled_and_clamped() {
    let mut s = wide(-500, 700);
    assert!(!s.drag_lower(None));
    assert_eq!((s.lower, s.upper), (-150, 150));
    let mut crossed = wide(30, 10).separation_distance(4);
    assert!(!crossed.drag_lower(None));
    assert_eq!((crossed.lower, crossed.upper), (30, 34));
}

#[test]
fn descending_range_keeps_lower_above_upper() {
    let mut s = DoubleSlider::new(80, 20, 100..=0).separation_distance(10);
    // drag the lower handle to value 15
    let x = s.val_to_x(15);
    assert!(s.drag_lower(Some(x)));
    assert_eq!((s.lower, s.upper), (15, 5));
}

#[test]
fn dragging_the_span_moves_both() {
    let mut s = wide(-20, 40);
    s.drag_span(10 * SCALE);
    assert_eq!((s.lower, s.upper), (-10, 50));
    let mut t = wide(-20, 40);
    assert!(t.interact(&FrameInput { span_drag: Some(-200 * SCALE), ..idle() }));
    assert_eq!((t.lower, t.upper), (-150, -149));
}

#[test]
fn span_is_not_draggable_when_inverted() {
    let mut s = wide(-20, 40).invert_highlighting(true);
    assert!(!s.interact(&FrameInput { span_drag: Some(10 * SCALE), ..idle() }));
    assert_eq!((s.lower, s.upper), (-20, 40));
}

#[test]
fn idle_frame_changes_nothing() {
    let mut s = DoubleSlider::new(-20, 40, -150..=150);
    assert!(!s.interact(&idle()));
    assert_eq!((s.lower, s.upper), (-20, 40));
    assert!(!s.interact(&hover(0, 0, SCALE)));
    assert_eq!((s.lower, s.upper), (-20, 40));
}

#[test]
fn scrolling_pans_both_values() {
    let mut s = DoubleSlider::new(-20, 40, -150..=150);
    assert!(s.scroll_zoom(100 * SCALE, 0, SCALE));
    assert_eq!((s.lower, s.upper), (-16, 44));
    let mut both = DoubleSlider::new(-20, 40, -150..=150);
    assert!(both.interact(&hover(100 * SCALE, 50 * SCALE, SCALE)));
    assert_eq!((both.lower, both.upper), (-14, 46));
    let mut vertical_off = DoubleSlider::new(-20, 40, -150..=150).vertical_scroll(false);
    assert!(!vertical_off.scroll_zoom(0, 50 * SCALE, SCALE));
    assert_eq!((vertical_off.lower, vertical_off.upper), (-20, 40));
}

#[test]
fn scrolling_rounds_half_away_from_zero() {
    let mut s = DoubleSlider::new(-20, 40, -150..=150);
    // 12.5 px at 0.04 per pixel is half a value
    assert!(s.scroll_zoom(mpx(12_500), 0, SCALE));
    assert_eq!((s.lower, s.upper), (-20, 41));
}

#[test]
fn zooming_spreads_the_values() {
    let mut s = DoubleSlider::new(-20, 40, -150..=150);
    assert!(s.scroll_zoom(0, 0, SCALE + SCALE / 10));
    assert_eq!((s.lower, s.upper), (-21, 41));
    let mut pinch = DoubleSlider::new(-20, 40, -150..=150);
    assert!(pinch.scroll_zoom(0, 0, SCALE / 2));
    assert_eq!((pinch.lower, pinch.upper), (-15, 35));
}

#[test]
fn scrolling_is_clamped_to_the_range() {
    let mut s = DoubleSlider::new(140, 150, -150..=150);
    assert!(s.scroll_zoom(500 * SCALE, 0, SCALE));
    assert_eq!((s.lower, s.upper), (149, 150));
    let mut no_push = DoubleSlider::new(140, 150, -150..=150).push_by_dragging(false);
    assert!(no_push.scroll_zoom(500 * SCALE, 0, SCALE));
    assert_eq!((no_push.lower, no_push.upper), (149, 150));
    let mut down = DoubleSlider::new(-150, -140, -150..=150).separation_distance(3);
    assert!(down.scroll_zoom(-500 * SCALE, 0, SCALE));
    assert_eq!((down.lower, down.upper), (-150, -147));
}

#[test]
fn zoom_that_crosses_the_values_restores_the_separation() {
    let mut s = DoubleSlider::new(40, 50, 0..=100);
    assert!(s.interact(&hover(0, 0, 0)));
    assert_eq!((s.lower, s.upper), (50, 51));
    let mut no_push = DoubleSlider::new(40, 50, 0..=100).push_by_dragging(false);
    assert!(no_push.interact(&hover(0, 0, 0)));
    assert_eq!((no_push.lower, no_push.upper), (39, 40));
}

#[test]
fn descending_range_scroll_keeps_the_order() {
    let mut s = DoubleSlider::new(50, 40, 100..=0);
    assert!(s.scroll_zoom(0, 0, 2 * SCALE));
    assert_eq!((s.lower, s.upper), (40, 39));
}

#[test]
fn scroll_without_hover_is_ignored() {
    let mut s = DoubleSlider::new(-20, 40, -150..=150);
    assert!(!s.interact(&FrameInput { scroll_x: 100 * SCALE, ..idle() }));
    assert_eq!((s.lower, s.upper), (-20, 40));
}

#[test]
fn inverted_highlight_covers_the_outer_parts() {
    let s = DoubleSlider::new(30, 200, 10..=300).invert_highlighting(true);
    let h = s.highlight();
    assert_eq!(h, vec![Segment { start: mpx(7000), end: 146_551_724 }, Segment { start: 627_241_379, end: mpx(93_000) }]);
    assert_eq!(s.x_to_val(s.val_to_x(30)), 30);
    assert_eq!(s.x_to_val(s.val_to_x(200)), 200);
    assert!(!h.contains(&Segment { start: 146_551_724, end: 627_241_379 }));
}

#[test]
fn highlight_covers_the_part_between() {
    let s = DoubleSlider::new(30, 200, 10..=300);
    assert_eq!(s.highlight(), vec![Segment { start: 146_551_724, end: 627_241_379 }]);
}

#[test]
fn regions_and_height() {
    let s = DoubleSlider::new(30, 200, 10..=300);
    assert_eq!(s.height(), mpx(18_000));
    assert_eq!(s.track_line(), Segment { start: mpx(7000), end: mpx(93_000) });
    assert_eq!(s.span_region(), Segment { start: 146_551_724 + 7 * SCALE, end: 627_241_379 - 7 * SCALE });
    assert_eq!(s.handle_region(30), Segment { start: 146_551_724 - 7 * SCALE, end: 146_551_724 + 7 * SCALE });
}

#[test]
fn clamp_to_range_takes_the_nearer_end() {
    let s = DoubleSlider::new(0, 0, 10..=300);
    assert_eq!(s.clamp_to_range(5), 10);
    assert_eq!(s.clamp_to_range(301), 300);
    assert_eq!(s.clamp_to_range(42), 42);
    let d = DoubleSlider::new(0, 0, 300..=10);
    assert_eq!(d.clamp_to_range(5), 10);
    assert_eq!(d.clamp_to_range(400), 300);
}
