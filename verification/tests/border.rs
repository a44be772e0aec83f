use edges::border::{
    argb_channels, order_value, query_window_sub_level, radius_or_default, Border,
    BORDER_BASE_TAGS, BORDER_STICKY_CLEAR_TAG,
};
use edges::settings::{BorderOrder, ColorSpec, WindowColors};
use edges::skylight::TAG_STICKY;

fn fresh() -> Border {
    Border::new(1, 100, 42, 5, false)
}

#[test]
fn new_border_state() {
    let b = fresh();
    assert_eq!(b.wid(), 100);
    assert_eq!(b.target_wid, 42);
    assert_eq!(b.sid(), 5);
    assert!(!b.is_focused());
    assert!(!b.sticky);
    assert!(b.needs_redraw);
    assert!(!b.too_small);
}

#[test]
fn set_focused_reports_changes_only() {
    let mut b = fresh();
    b.needs_redraw = false;
    assert!(b.set_focused(true));
    assert!(b.is_focused());
    assert!(b.needs_redraw);
    b.needs_redraw = false;
    assert!(!b.set_focused(true));
    assert!(!b.needs_redraw);
    assert!(b.set_focused(false));
    assert!(!b.is_focused());
}

#[test]
fn move_to_space_ignores_zero_and_same() {
    let mut b = fresh();
    b.needs_redraw = false;
    assert!(!b.move_to_space(0));
    assert!(!b.move_to_space(5));
    assert_eq!(b.sid(), 5);
    assert!(!b.needs_redraw);
    assert!(b.move_to_space(8));
    assert_eq!(b.sid(), 8);
    assert!(b.needs_redraw);
}

#[test]
fn begin_draw_skips_too_small() {
    let mut b = fresh();
    assert!(b.begin_draw());
    assert!(!b.needs_redraw);
    let mut small = Border::new(1, 100, 42, 5, true);
    assert!(!small.begin_draw());
    assert!(small.needs_redraw);
}

#[test]
fn sticky_tags() {
    let mut b = fresh();
    assert_eq!(b.window_tags(), (BORDER_BASE_TAGS, 0));
    assert_eq!(BORDER_BASE_TAGS, (1 << 1) | (1 << 9));
    b.observe_tags(TAG_STICKY | 1);
    assert!(b.sticky);
    assert_eq!(b.window_tags(), (BORDER_BASE_TAGS | TAG_STICKY, 1u64 << 45));
    assert_eq!(BORDER_STICKY_CLEAR_TAG, 1u64 << 45);
    b.observe_tags(1);
    assert!(!b.sticky);
}

#[test]
fn order_and_unhide() {
    assert_eq!(order_value(BorderOrder::Above), 1);
    assert_eq!(order_value(BorderOrder::Below), -1);
    let b = fresh();
    assert_eq!(b.unhide_order(BorderOrder::Below), Some(-1));
    let small = Border::new(1, 100, 42, 5, true);
    assert_eq!(small.unhide_order(BorderOrder::Above), None);
}

#[test]
fn colors_follow_focus() {
    let colors = WindowColors {
        active: ColorSpec::Solid { color: 0xffe1e3e4 },
        inactive: ColorSpec::Gradient { start: 0x11111111, end: 0x22222222, angle_bits: 45.0f32.to_bits() },
        background: None,
    };
    let mut b = fresh();
    assert_eq!(b.current_color(&colors), 0x11111111);
    b.set_focused(true);
    assert_eq!(b.current_color(&colors), 0xffe1e3e4);
}

#[test]
fn radius_defaults_to_nine() {
    assert_eq!(radius_or_default(12), 12);
    assert_eq!(radius_or_default(0), 9);
    assert_eq!(radius_or_default(-3), 9);
}

#[test]
fn argb_split() {
    assert_eq!(argb_channels(0xffe1e3e4), (0xff, 0xe1, 0xe3, 0xe4));
    assert_eq!(argb_channels(0x00000000), (0, 0, 0, 0));
    assert_eq!(argb_channels(0x80402010), (0x80, 0x40, 0x20, 0x10));
}

#[test]
fn sub_level_is_default() {
    assert_eq!(query_window_sub_level(1, 2), 0);
}
