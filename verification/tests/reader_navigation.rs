use cr_ui::display::DisplayOutput;
use cr_ui::geometry::{ImageFitMode, ImagePartInfo, PartPageToDisplay, RtlReadingMode};
use cr_ui::reader::{
    continuous_fit_mode, continuous_part_target, cycled_slot, eat_scrolling, effective_rotation,
    effective_rtl_mode, is_landscape, is_page_change_walled, keep_decoded, line_size,
    next_page_target, pages_to_queue, part_navigation_target, previous_page_target, rotate_left,
    rotate_right, spread_swapped, toggled_background_mode, toggled_page_layout,
    ImageBackgroundMode, ImageRotation, PageLayoutMode, PageWall,
};

#[test]
fn rotations_undo_each_other_and_cycle_in_four() {
    for r in [
        ImageRotation::NoRotation,
        ImageRotation::Rotate90,
        ImageRotation::Rotate180,
        ImageRotation::Rotate270,
    ] {
        assert_eq!(rotate_right(rotate_left(r)), r);
        assert_eq!(rotate_left(rotate_left(rotate_left(rotate_left(r)))), r);
    }
    assert_eq!(rotate_right(ImageRotation::NoRotation), ImageRotation::Rotate90);
    assert_eq!(rotate_left(ImageRotation::NoRotation), ImageRotation::Rotate270);
}

#[test]
fn page_layout_toggle_cycles_through_the_paged_layouts() {
    let mut m = PageLayoutMode::Single;
    m = toggled_page_layout(m);
    assert_eq!(m, PageLayoutMode::Double);
    m = toggled_page_layout(m);
    assert_eq!(m, PageLayoutMode::DoubleAdaptive);
    m = toggled_page_layout(m);
    assert_eq!(m, PageLayoutMode::Single);
    assert_eq!(toggled_page_layout(PageLayoutMode::Continuous), PageLayoutMode::Single);
}

#[test]
fn realistic_pages_toggle_the_texture() {
    assert_eq!(toggled_background_mode(ImageBackgroundMode::Color), ImageBackgroundMode::Texture);
    assert_eq!(toggled_background_mode(ImageBackgroundMode::Auto), ImageBackgroundMode::Texture);
    assert_eq!(toggled_background_mode(ImageBackgroundMode::Texture), ImageBackgroundMode::Color);
}

#[test]
fn the_strip_fits_to_the_width() {
    assert_eq!(continuous_fit_mode(ImageFitMode::BestFit), ImageFitMode::FitWidth);
    assert_eq!(continuous_fit_mode(ImageFitMode::Fit), ImageFitMode::FitWidth);
    assert_eq!(continuous_fit_mode(ImageFitMode::Original), ImageFitMode::Original);
}

#[test]
fn landscape_pages_flip_parts_and_auto_rotate_left() {
    assert!(is_landscape((1600, 1200), false));
    assert!(!is_landscape((1600, 1200), true));
    assert_eq!(effective_rtl_mode(RtlReadingMode::FlipPages, true), RtlReadingMode::FlipParts);
    assert_eq!(effective_rtl_mode(RtlReadingMode::FlipPages, false), RtlReadingMode::FlipPages);
    assert_eq!(effective_rotation(ImageRotation::NoRotation, true, true), ImageRotation::Rotate270);
    assert_eq!(effective_rotation(ImageRotation::Rotate90, false, true), ImageRotation::Rotate90);
}

#[test]
fn page_steps_follow_the_spread() {
    assert_eq!(next_page_target(4, true, true), Some(6));
    assert_eq!(next_page_target(4, true, false), Some(5));
    assert_eq!(next_page_target(usize::MAX, false, false), None);
    assert_eq!(previous_page_target(4, PageLayoutMode::Double, true), Some(2));
    assert_eq!(previous_page_target(1, PageLayoutMode::Double, true), Some(0));
    assert_eq!(previous_page_target(4, PageLayoutMode::Single, true), Some(3));
    assert_eq!(previous_page_target(0, PageLayoutMode::Single, false), None);
}

#[test]
fn a_scroll_line_is_a_fraction_of_the_page() {
    assert_eq!(line_size(true, 800, (1000, 2000), false), (50, 50));
    assert_eq!(line_size(false, 800, (1600, 3200), false), (100, 100));
    assert_eq!(line_size(false, 800, (1600, 3200), true), (50, 100));
}

#[test]
fn continuous_part_commands_move_by_a_viewport() {
    assert_eq!(continuous_part_target(PartPageToDisplay::Next, 0, 600, 2400), Some(600));
    assert_eq!(continuous_part_target(PartPageToDisplay::Next, 1700, 600, 2400), Some(1800));
    assert_eq!(continuous_part_target(PartPageToDisplay::Next, 1800, 600, 2400), None);
    assert_eq!(continuous_part_target(PartPageToDisplay::Previous, 100, 600, 2400), Some(0));
    assert_eq!(continuous_part_target(PartPageToDisplay::First, 0, 600, 2400), None);
    assert_eq!(continuous_part_target(PartPageToDisplay::Last, 0, 600, 2400), Some(1800));
    assert_eq!(continuous_part_target(PartPageToDisplay::Next, 0, 600, 300), None);
}

fn six_parts() -> DisplayOutput {
    DisplayOutput::from_grid(
        (800, 600),
        (2000, 1000),
        (800, 600),
        (2000, 1000),
        ImagePartInfo::empty(),
        false,
        RtlReadingMode::FlipPages,
        false,
    )
}

#[test]
fn part_navigation_steps_through_the_grid() {
    let out = six_parts();
    let start = ImagePartInfo::empty();
    assert_eq!(part_navigation_target(&out, start, PartPageToDisplay::First), None);
    assert_eq!(part_navigation_target(&out, start, PartPageToDisplay::Previous), None);
    assert_eq!(
        part_navigation_target(&out, start, PartPageToDisplay::Next),
        Some(ImagePartInfo::new(1, (0, 0)))
    );
    assert_eq!(
        part_navigation_target(&out, start, PartPageToDisplay::Last),
        Some(ImagePartInfo::new(5, (0, 0)))
    );
    let end = ImagePartInfo::new(5, (0, 0));
    assert_eq!(part_navigation_target(&out, end, PartPageToDisplay::Next), None);
    assert_eq!(
        part_navigation_target(&out, end, PartPageToDisplay::Previous),
        Some(ImagePartInfo::new(4, (0, 0)))
    );
}

#[test]
fn the_decode_window_keeps_near_pages() {
    assert!(keep_decoded(10, 6));
    assert!(keep_decoded(10, 14));
    assert!(!keep_decoded(10, 15));
    assert!(!keep_decoded(0, 5));
}

#[test]
fn pages_queue_the_current_page_first() {
    assert_eq!(pages_to_queue(3, 10, PageLayoutMode::Single), vec![3]);
    assert_eq!(pages_to_queue(3, 10, PageLayoutMode::Double), vec![3, 4]);
    assert_eq!(pages_to_queue(9, 10, PageLayoutMode::DoubleAdaptive), vec![9]);
    assert_eq!(pages_to_queue(3, 10, PageLayoutMode::Continuous), vec![3, 4, 5, 6, 7, 2]);
    assert_eq!(pages_to_queue(7, 10, PageLayoutMode::Continuous), vec![7, 8, 9, 6]);
    assert_eq!(pages_to_queue(0, 1, PageLayoutMode::Continuous), vec![0]);
}

#[test]
fn the_cover_sits_on_the_right_and_rtl_swaps_spreads() {
    assert!(spread_swapped(0, false));
    assert!(spread_swapped(0, true));
    assert!(spread_swapped(3, true));
    assert!(!spread_swapped(3, false));
}

#[test]
fn tab_cycling_wraps_both_ways() {
    assert_eq!(cycled_slot(2, 1, 3), 0);
    assert_eq!(cycled_slot(0, -1, 3), 2);
    assert_eq!(cycled_slot(1, 1, 3), 2);
    assert_eq!(cycled_slot(0, -4, 3), 2);
}

#[test]
fn scrolling_right_after_a_page_change_is_eaten() {
    assert!(eat_scrolling(4, 1_100, Some(1_000), 500));
    assert!(!eat_scrolling(4, 1_600, Some(1_000), 500));
    assert!(!eat_scrolling(1, 1_100, Some(1_000), 500));
    assert!(!eat_scrolling(4, 1_100, None, 500));
}

#[test]
fn the_page_wall_holds_a_change_right_after_part_navigation() {
    let mut wall = PageWall { pending: false, start: None };
    // Far from any part navigation: passes.
    assert!(!is_page_change_walled(&mut wall, 4, 10_000, Some(1_000), 500));
    assert!(!wall.pending);
    // Soon after part navigation: held, and the wall arms.
    assert!(is_page_change_walled(&mut wall, 4, 1_100, Some(1_000), 500));
    assert_eq!(wall, PageWall { pending: true, start: Some(1_100) });
    // Within the window: still held.
    assert!(is_page_change_walled(&mut wall, 4, 1_200, Some(1_000), 500));
    // A single-part page never waits.
    assert!(!is_page_change_walled(&mut wall, 1, 1_200, Some(1_000), 500));
}

#[test]
fn a_scroll_line_of_a_negative_size_rounds_toward_zero() {
    assert_eq!(line_size(false, 0, (-33, -40), false), (-2, -1));
    assert_eq!(line_size(true, -17, (0, 0), false), (-1, -1));
}
