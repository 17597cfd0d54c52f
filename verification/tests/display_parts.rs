use cr_ui::display::{part_grid_size, part_rectangle, tile_rectangle, DisplayOutput};
use cr_ui::geometry::{
    clamp_rect, clamped_part_offset, index_of_best_fit, ImagePartInfo, Rect, RtlReadingMode,
};

#[test]
fn part_grid_tiles_the_viewport() {
    // At zoom 1 the scaled size is the image size.
    let grid = part_grid_size((800, 600), (2000, 1000), false);
    assert_eq!(grid, (3, 2));
    let grid = part_grid_size((800, 600), (400, 300), false);
    assert_eq!(grid, (1, 1));
}

#[test]
fn part_grid_double_spread_pairs_columns() {
    let simple = part_grid_size((400, 600), (1600, 800), false);
    assert_eq!(simple, (4, 2));
    let spread = part_grid_size((400, 600), (1600, 800), true);
    assert_eq!(spread, (4, 2));
    let simple = part_grid_size((300, 600), (1600, 800), false);
    let spread = part_grid_size((300, 600), (1600, 800), true);
    assert_eq!(simple.0 % 2, 0);
    assert!(spread.0 >= simple.0);
}

#[test]
fn part_grid_of_an_empty_view_is_one_part() {
    assert_eq!(part_grid_size((0, 600), (2000, 1000), false), (1, 1));
    assert_eq!(part_grid_size((800, 0), (2000, 1000), true), (1, 1));
}

#[test]
fn part_grid_of_a_portrait_page_ignores_the_spread() {
    assert_eq!(part_grid_size((300, 400), (600, 1200), true), (2, 3));
}

#[test]
fn part_rectangles_respect_the_grid_and_rtl() {
    let bitmap = (2000, 1000);
    let grid = (3, 2);
    let ltr = part_rectangle(
        (800, 600),
        bitmap,
        (800, 600),
        bitmap,
        0,
        grid,
        false,
        RtlReadingMode::FlipPages,
        false,
    );
    assert_eq!(ltr, Rect::new(0, 0, 800, 600));
    let rtl = part_rectangle(
        (800, 600),
        bitmap,
        (800, 600),
        bitmap,
        0,
        grid,
        false,
        RtlReadingMode::FlipPages,
        true,
    );
    assert_eq!(rtl.x + rtl.w, bitmap.0);
    assert_eq!(rtl.w, ltr.w);
}

#[test]
fn tiles_step_by_the_grid_cell_and_stay_inside() {
    // Cells of 666x500; the last column's tile is pulled back inside.
    assert_eq!(tile_rectangle((800, 600), (2000, 1000), 1, (3, 2), false), Rect::new(666, 0, 800, 600));
    assert_eq!(tile_rectangle((800, 600), (2000, 1000), 5, (3, 2), false), Rect::new(1200, 400, 800, 600));
    assert_eq!(tile_rectangle((800, 600), (2000, 1000), 5, (3, 2), true), Rect::new(0, 400, 800, 600));
}

#[test]
fn clamped_offset_stays_inside_the_image() {
    let part = Rect::new(1200, 0, 800, 500);
    assert_eq!(clamped_part_offset((0, 0), (2000, 1000), part), (0, 0));
    assert_eq!(clamped_part_offset((-200, 0), (2000, 1000), part), (-200, 0));
    assert_eq!(clamped_part_offset((100, 0), (2000, 1000), part), (0, 0));
}

#[test]
fn clamped_offset_pulls_back_past_the_left_edge() {
    let part = Rect::new(100, 50, 400, 300);
    assert_eq!(clamped_part_offset((-500, -80), (2000, 1000), part), (-100, -50));
}

#[test]
fn clamp_rect_moves_the_tile_back_inside() {
    assert_eq!(clamp_rect((1000, 800), Rect::new(700, 600, 400, 300)), Rect::new(600, 500, 400, 300));
    assert_eq!(clamp_rect((1000, 800), Rect::new(10, 20, 400, 300)), Rect::new(10, 20, 400, 300));
}

#[test]
fn best_fit_prefers_the_largest_overlap_and_the_first_tie() {
    let parts = [Rect::new(0, 0, 10, 10), Rect::new(10, 0, 10, 10), Rect::new(20, 0, 10, 10)];
    assert_eq!(index_of_best_fit(&parts, Rect::new(12, 0, 10, 10)), 1);
    assert_eq!(index_of_best_fit(&parts, Rect::new(5, 0, 10, 10)), 0);
    assert_eq!(index_of_best_fit(&parts, Rect::new(100, 0, 10, 10)), -1);
}

fn original_fit_page() -> DisplayOutput {
    // A 2000x1000 page at zoom 1 in an 800x600 view, one page at a time.
    DisplayOutput::from_grid(
        (800, 600),
        (2000, 1000),
        (800, 600),
        (2000, 1000),
        ImagePartInfo::empty(),
        false,
        RtlReadingMode::FlipPages,
        false,
    )
}

#[test]
fn is_start_and_end_part() {
    let out = original_fit_page();
    assert_eq!(out.part_count, 6);
    assert!(out.is_start_part(ImagePartInfo::empty()));
    assert!(out.is_end_part(ImagePartInfo::new(5, (0, 0))));
    assert!(!out.is_end_part(ImagePartInfo::new(4, (0, 0))));
}

#[test]
fn best_part_fit_pulls_out_of_range_parts_back() {
    let out = original_fit_page();
    let fit = out.get_best_part_fit(ImagePartInfo::new(99, (0, 0)));
    assert_eq!(fit.part, out.part_count - 1);
    let fit = out.get_best_part_fit(ImagePartInfo::new(-3, (10, 10)));
    assert_eq!(fit.part, 0);
    assert_eq!(fit.offset, (0, 0));
}

#[test]
fn a_requested_part_is_clamped_into_range() {
    let out = DisplayOutput::from_grid(
        (800, 600),
        (2000, 1000),
        (800, 600),
        (2000, 1000),
        ImagePartInfo::new(42, (0, 0)),
        false,
        RtlReadingMode::FlipPages,
        false,
    );
    assert_eq!(out.part, 5);
    assert_eq!(out.part_bounds, out.get_part(5));
    assert_eq!(out.get_part(-1), out.get_part(0));
}

#[test]
fn an_empty_image_has_no_parts() {
    let out = DisplayOutput::from_grid(
        (800, 600),
        (0, 0),
        (800, 600),
        (0, 0),
        ImagePartInfo::empty(),
        false,
        RtlReadingMode::FlipParts,
        false,
    );
    assert_eq!(out.part_count, 0);
    assert!(out.is_empty());
    assert_eq!(out.part_bounds, Rect::new(0, 0, 0, 0));
}

#[test]
fn a_fitting_page_is_all_visible() {
    let out = DisplayOutput::from_grid(
        (800, 600),
        (400, 300),
        (800, 600),
        (400, 300),
        ImagePartInfo::empty(),
        true,
        RtlReadingMode::FlipParts,
        false,
    );
    assert_eq!(out.part_count, 1);
    assert!(out.is_all_visible());
    assert_eq!(out.part_bounds, Rect::new(0, 0, 400, 300));
}

#[test]
fn part_grid_truncates_toward_zero_on_negative_sizes() {
    assert_eq!(part_grid_size((-300, 600), (1000, 800), false), (-2, 2));
}
