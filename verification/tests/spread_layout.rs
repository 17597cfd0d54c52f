use cr_ui::geometry::Rect;
use cr_ui::reader::{spread_layout, SpreadLayout};

/// Two pages scaled to their common height, with `overlap` of the current
/// page's width hidden.
fn compose(
    current_page: usize,
    current_size: (i32, i32),
    next_page: usize,
    next_size: (i32, i32),
    rtl_flip: bool,
    overlap: f32,
) -> Option<SpreadLayout> {
    let height = current_size.1.max(next_size.1);
    let s1 = height as f32 / current_size.1 as f32;
    let s2 = height as f32 / next_size.1 as f32;
    let ri = (current_size.0 as f32 * s1) as i32;
    let r2 = (next_size.0 as f32 * s2) as i32;
    let hidden = (overlap * ri as f32) as i32;
    spread_layout(current_page, next_page, ri, r2, height, hidden, rtl_flip)
}

fn spread(current_page: usize, rtl_flip: bool) -> SpreadLayout {
    compose(current_page, (800, 1200), current_page + 1, (800, 1200), rtl_flip, 0.0).expect("valid spread")
}

#[test]
fn ltr_spread_places_current_left() {
    let comp = spread(4, false);
    assert_eq!(comp.size, (1600, 1200));
    assert_eq!(comp.left, (4, Rect::new(0, 0, 800, 1200)));
    assert_eq!(comp.right, (5, Rect::new(800, 0, 800, 1200)));
}

#[test]
fn cover_sits_on_the_right() {
    let comp = spread(0, false);
    assert_eq!(comp.left, (1, Rect::new(0, 0, 800, 1200)));
    assert_eq!(comp.right, (0, Rect::new(800, 0, 800, 1200)));
}

#[test]
fn rtl_swaps_the_order() {
    let comp = spread(4, true);
    assert_eq!(comp.left.0, 5);
    assert_eq!(comp.left.1.x, 0);
    assert_eq!(comp.right.0, 4);
    assert_eq!(comp.right.1.x, 800);
    let comp = spread(0, true);
    assert_eq!(comp.right.0, 0);
    assert_eq!(comp.right.1.x, 800);
}

#[test]
fn overlap_hides_one_strip() {
    let comp = compose(4, (800, 1200), 5, (800, 1200), false, 0.2).expect("valid spread");
    assert_eq!(comp.size, (1440, 1200));
    assert_eq!(comp.right.1, Rect::new(960, 0, 640, 1200));
}

#[test]
fn unequal_heights_scale_to_common() {
    let comp = compose(0, (800, 1200), 1, (600, 600), false, 0.0).expect("valid spread");
    assert_eq!(comp.size, (2000, 1200));
    assert_eq!(comp.left.1, Rect::new(0, 0, 1200, 1200));
    assert_eq!(comp.right.1, Rect::new(1200, 0, 800, 1200));
}

#[test]
fn nothing_left_to_draw_gives_no_spread() {
    assert_eq!(spread_layout(3, 4, 0, 0, 100, 0, false), None);
    assert_eq!(spread_layout(3, 4, 10, 10, 0, 0, false), None);
}
