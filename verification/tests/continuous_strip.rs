use cr_ui::continuous::{
    clamp_to_i32, distance, saturating_add, saturating_multiply, scaled_height, to_rectangle,
    ContinuousPageLayout, SourcePage,
};
use cr_ui::geometry::Rect;

fn strip(preserve: bool) -> ContinuousPageLayout {
    ContinuousPageLayout::new(
        &[
            SourcePage { page: 0, source_size: (800, 1200) },
            SourcePage { page: 1, source_size: (1600, 1200) },
            SourcePage { page: 2, source_size: (800, 600) },
        ],
        800,
        preserve,
    )
}

#[test]
fn pages_scale_to_the_content_width() {
    let layout = strip(false);
    assert_eq!(layout.total_size(), (800, 1200 + 600 + 600));
    assert_eq!(layout.pages()[1].bounds, Rect::new(0, 1200, 800, 600));
    assert_eq!(layout.pages()[2].bounds, Rect::new(0, 1800, 800, 600));
}

#[test]
fn preserve_keeps_native_sizes_centered() {
    let layout = strip(true);
    assert_eq!(layout.pages()[1].bounds, Rect::new(0, 1200, 1600, 1200));
}

#[test]
fn preserve_centers_a_narrow_page() {
    let layout = ContinuousPageLayout::new(&[SourcePage { page: 4, source_size: (400, 300) }], 800, true);
    assert_eq!(layout.pages()[0].bounds, Rect::new(200, 0, 400, 300));
    assert_eq!(layout.total_height(), 300);
}

#[test]
fn get_visible_returns_intersecting_pages() {
    let layout = strip(false);
    let viewport = Rect::new(0, 1100, 800, 200);
    let visible: Vec<usize> = layout.get_visible(&viewport).iter().map(|p| p.page).collect();
    assert_eq!(visible, vec![0, 1]);
    let visible: Vec<usize> = layout
        .get_visible(&Rect::new(0, 1800, 800, 300))
        .iter()
        .map(|p| p.page)
        .collect();
    assert_eq!(visible, vec![2]);
}

#[test]
fn get_visible_is_empty_beside_the_strip() {
    let layout = strip(false);
    assert!(layout.get_visible(&Rect::new(800, 0, 100, 100)).is_empty());
    assert!(layout.get_visible(&Rect::new(-100, 0, 100, 100)).is_empty());
    assert!(layout.get_visible(&Rect::new(0, 0, 0, 100)).is_empty());
}

#[test]
fn hit_test_clamps_to_the_strip() {
    let layout = strip(false);
    assert_eq!(layout.hit_test(-10).unwrap().page, 0);
    assert_eq!(layout.hit_test(10_000).unwrap().page, 2);
    assert_eq!(layout.hit_test(1199).unwrap().page, 0);
    assert_eq!(layout.hit_test(1200).unwrap().page, 1);
}

#[test]
fn hit_test_on_an_empty_strip_finds_nothing() {
    let layout = ContinuousPageLayout::new(&[], 800, false);
    assert!(layout.hit_test(0).is_none());
    assert_eq!(layout.total_size(), (800, 0));
}

#[test]
fn find_page_falls_back_to_the_nearest_page() {
    let layout = ContinuousPageLayout::new(
        &[
            SourcePage { page: 2, source_size: (10, 10) },
            SourcePage { page: 7, source_size: (10, 10) },
            SourcePage { page: 9, source_size: (10, 10) },
        ],
        10,
        false,
    );
    assert_eq!(layout.find_page(7).page, 7);
    assert_eq!(layout.find_page(4).page, 2);
    assert_eq!(layout.find_page(8).page, 7);
    assert_eq!(layout.find_page(100).page, 9);
}

#[test]
fn the_strip_has_no_gaps() {
    let layout = strip(false);
    let pages = layout.pages();
    assert_eq!(pages[0].top(), 0);
    for i in 1..pages.len() {
        assert_eq!(pages[i].top(), pages[i - 1].bottom());
    }
    assert_eq!(pages[pages.len() - 1].bottom(), layout.total_height());
}

#[test]
fn scaled_height_rounds_half_up_with_a_pixel_floor() {
    assert_eq!(scaled_height(800, (1600, 1200)), 600);
    assert_eq!(scaled_height(3, (2, 1)), 2);
    assert_eq!(scaled_height(1, (1000, 1)), 1);
    assert_eq!(scaled_height(800, (0, 1200)), 0);
}

#[test]
fn saturating_helpers_stop_at_the_edges() {
    assert_eq!(saturating_multiply(i64::MAX, 2), i64::MAX);
    assert_eq!(saturating_multiply(-3, 2), 0);
    assert_eq!(saturating_multiply(6, 7), 42);
    assert_eq!(saturating_add(i64::MAX, 1), i64::MAX);
    assert_eq!(saturating_add(i64::MIN, -1), i64::MIN);
    assert_eq!(clamp_to_i32(-5), 0);
    assert_eq!(clamp_to_i32(i64::MAX), i32::MAX);
    assert_eq!(clamp_to_i32(12), 12);
    assert_eq!(distance(3, 10), 7);
    assert_eq!(distance(10, 3), 7);
}

#[test]
fn to_rectangle_clips_the_height_at_the_i32_edge() {
    let r = to_rectangle(0, i64::from(i32::MAX) - 10, 5, 100);
    assert_eq!(r, Rect::new(0, i32::MAX - 10, 5, 10));
    assert_eq!(to_rectangle(1, 2, 3, 4), Rect::new(1, 2, 3, 4));
}

#[test]
fn page_entry_getters_read_the_fields() {
    let layout = strip(false);
    let e = &layout.pages()[1];
    assert_eq!(e.page(), e.page);
    assert_eq!(e.bounds(), Rect::new(0, 1200, 800, 600));
    assert_eq!(e.source_size(), (1600, 1200));
}
