//! The integer half of the page display: how many viewport tiles
//! ("parts") a scaled page spans, where each tile lies in the image, and
//! the part navigation that keeps the visible tile inside the image.
//!
//! The scale factors themselves are floating point and are computed by
//! the caller: these functions take the page size already multiplied by
//! the zoom (`scaled`) and the view size already divided by it (`view`).

use vstd::prelude::*;

use crate::geometry::{
    clamp_int, clamp_rect, clamped_offset_fits, clamped_part_offset, div_i32, fits_i32, index_of_best_fit, lemma_trunc_div_bounds,
    overlap_areas_fit, spec_clamp_rect, spec_clamped_part_offset, spec_index_of_best_fit, trunc_div,
    ImagePartInfo, Rect, RtlReadingMode,
};

verus! {

/// The tile grid of a page: columns and rows of viewport-sized tiles. A
/// page that fits (or an empty view) is one tile. With `double_spread`, a
/// landscape page advances two columns per part.
pub open spec fn spec_part_grid_size(client: (i32, i32), scaled: (i32, i32), double_spread: bool) -> (int, int) {
    let sw = scaled.0 as int;
    let sh = scaled.1 as int;
    if client.0 == 0 || client.1 == 0 {
        (1, 1)
    } else if sh <= client.1 && sw <= client.0 {
        (1, 1)
    } else if !double_spread || sh > sw {
        (trunc_div(sw - 1, client.0 as int) + 1, trunc_div(sh - 1, client.1 as int) + 1)
    } else {
        ((trunc_div(trunc_div(sw, 2) - 1, client.0 as int) + 1) * 2, trunc_div(sh - 1, client.1 as int) + 1)
    }
}

/// Sizes are never negative.
pub open spec fn sizes_nonneg(s: (i32, i32)) -> bool {
    s.0 >= 0 && s.1 >= 0
}

proof fn lemma_tiles_bounded(s: int, c: int)
    requires
        s >= 0,
        c > 0,
    ensures
        0 <= trunc_div(s - 1, c) + 1 <= if s > 0 {
            s
        } else {
            1
        },
        s > 0 ==> trunc_div(s - 1, c) + 1 >= 1,
{
    if s > 0 {
        assert(0 <= (s - 1) / c <= s - 1) by (nonlinear_arith)
            requires
                s - 1 >= 0,
                c > 0,
        ;
    } else {
        assert(trunc_div(-1, c) == -((1int) / c));
        assert((1int) / c <= 1) by (nonlinear_arith)
            requires
                c > 0,
        ;
        assert((1int) / c >= 0) by (nonlinear_arith)
            requires
                c > 0,
        ;
        if c == 1 {
            assert((1int) / c == 1);
        } else {
            assert((1int) / c == 0) by (nonlinear_arith)
                requires
                    c > 1,
            ;
        }
        assert(trunc_div(-1, c) + 1 >= 0);
    }
}

/// The grid arithmetic stays inside `i32` (it leaves it only for sizes
/// near the ends of the `i32` range, which no view or page has).
pub open spec fn grid_size_fits(client: (i32, i32), scaled: (i32, i32), double_spread: bool) -> bool {
    let sw = scaled.0 as int;
    let sh = scaled.1 as int;
    let c0 = client.0 as int;
    let c1 = client.1 as int;
    client.0 == 0 || client.1 == 0 || (sh <= c1 && sw <= c0) || {
        &&& sh - 1 >= i32::MIN
        &&& !(sh - 1 == i32::MIN && c1 == -1)
        &&& trunc_div(sh - 1, c1) + 1 <= i32::MAX
        &&& if !double_spread || sh > sw {
            &&& sw - 1 >= i32::MIN
            &&& !(sw - 1 == i32::MIN && c0 == -1)
            &&& trunc_div(sw - 1, c0) + 1 <= i32::MAX
        } else {
            fits_i32((trunc_div(trunc_div(sw, 2) - 1, c0) + 1) * 2)
        }
    }
}

proof fn lemma_trunc_div_range(a: int, b: int)
    requires
        b != 0,
        fits_i32(a),
        !(a == i32::MIN && b == -1),
    ensures
        fits_i32(trunc_div(a, b)),
{
    lemma_trunc_div_bounds(a, b);
    if a >= 0 && b > 0 {
        assert(0 <= a / b <= a) by (nonlinear_arith)
            requires
                a >= 0,
                b > 0,
        ;
    } else if a >= 0 {
        assert(0 <= a / (-b) <= a) by (nonlinear_arith)
            requires
                a >= 0,
                -b > 0,
        ;
    } else if b > 0 {
        assert(0 <= (-a) / b <= -a) by (nonlinear_arith)
            requires
                -a > 0,
                b > 0,
        ;
    } else {
        assert(0 <= (-a) / (-b) <= -a) by (nonlinear_arith)
            requires
                -a > 0,
                -b > 0,
        ;
        if a == i32::MIN {
            assert((-a) / (-b) <= (-a) / 2) by (nonlinear_arith)
                requires
                    -a > 0,
                    -b >= 2,
            ;
        }
    }
}

/// How many viewport tiles the scaled page spans, as `(columns, rows)`.
pub fn part_grid_size(client: (i32, i32), scaled: (i32, i32), double_spread: bool) -> (r: (i32, i32))
    requires
        grid_size_fits(client, scaled, double_spread),
    ensures
        r.0 == spec_part_grid_size(client, scaled, double_spread).0,
        r.1 == spec_part_grid_size(client, scaled, double_spread).1,
        sizes_nonneg(client) && sizes_nonneg(scaled) ==> r.0 >= 0 && r.1 >= 0,
{
    let sw = scaled.0;
    let sh = scaled.1;
    if client.0 == 0 || client.1 == 0 {
        return (1, 1);
    }
    if sh <= client.1 && sw <= client.0 {
        return (1, 1);
    }
    proof {
        if sizes_nonneg(client) && sizes_nonneg(scaled) {
            lemma_tiles_bounded(sw as int, client.0 as int);
            lemma_tiles_bounded(sh as int, client.1 as int);
            lemma_tiles_bounded(trunc_div(sw as int, 2), client.0 as int);
        }
        lemma_trunc_div_range(sh - 1, client.1 as int);
    }
    let rows = div_i32(sh - 1, client.1) + 1;
    if !double_spread || sh > sw {
        proof {
            lemma_trunc_div_range(sw - 1, client.0 as int);
        }
        let cols = div_i32(sw - 1, client.0) + 1;
        return (cols, rows);
    }
    let half = div_i32(sw, 2);
    proof {
        lemma_trunc_div_range(sw as int, 2);
        lemma_trunc_div_bounds(sw as int, 2);
        lemma_trunc_div_range(half - 1, client.0 as int);
    }
    let pairs = div_i32(half - 1, client.0) + 1;
    (pairs * 2, rows)
}

/// One tile of a plain (not paired) grid, in image coordinates: a
/// `view`-sized window at the tile's grid position, kept inside the image,
/// mirrored for right-to-left reading.
pub open spec fn spec_tile_rectangle(view: (i32, i32), bitmap: (i32, i32), part: i32, grid: (i32, i32), rtl: bool) -> Rect {
    let count = grid.0 * grid.1;
    let p = clamp_int(part as int, 0, count - 1);
    let row_h = (bitmap.1 as int) / (grid.1 as int);
    let col_w = (bitmap.0 as int) / (grid.0 as int);
    let r = spec_clamp_rect(
        bitmap,
        Rect {
            x: (col_w * (p % (grid.0 as int))) as i32,
            y: (row_h * (p / (grid.0 as int))) as i32,
            w: view.0,
            h: view.1,
        },
    );
    if rtl {
        Rect { x: (bitmap.0 - r.spec_right()) as i32, ..r }
    } else {
        r
    }
}

/// The inputs of the tile computation keep every intermediate value in
/// `i32`.
pub open spec fn tile_fits(view: (i32, i32), bitmap: (i32, i32), grid: (i32, i32)) -> bool {
    &&& sizes_nonneg(view)
    &&& sizes_nonneg(bitmap)
    &&& grid.0 >= 1
    &&& grid.1 >= 1
    &&& grid.0 * grid.1 <= i32::MAX
    &&& bitmap.0 + view.0 <= i32::MAX
    &&& bitmap.1 + view.1 <= i32::MAX
}

/// A tile rectangle lies inside the image, with nonnegative size.
pub open spec fn tile_inside(r: Rect, bitmap: (i32, i32)) -> bool {
    &&& 0 <= r.x
    &&& 0 <= r.y
    &&& 0 <= r.w
    &&& 0 <= r.h
    &&& r.x + r.w <= i32::MAX
    &&& r.y + r.h <= i32::MAX
    &&& r.x <= bitmap.0
    &&& r.y <= bitmap.1
}

proof fn lemma_grid_origin(size: int, g: int, p: int)
    requires
        size >= 0,
        g >= 1,
        p >= 0,
    ensures
        0 <= (size / g) * (p % g) <= size,
{
    assert(0 <= p % g < g) by (nonlinear_arith)
        requires
            g >= 1,
            p >= 0,
    ;
    assert(0 <= size / g) by (nonlinear_arith)
        requires
            g >= 1,
            size >= 0,
    ;
    assert((size / g) * (p % g) <= (size / g) * g) by (nonlinear_arith)
        requires
            0 <= p % g < g,
            size / g >= 0,
    ;
    assert((size / g) * g <= size) by (nonlinear_arith)
        requires
            g >= 1,
            size >= 0,
    ;
    assert(0 <= (size / g) * (p % g)) by (nonlinear_arith)
        requires
            0 <= p % g,
            size / g >= 0,
    ;
}

proof fn lemma_grid_row(size: int, rows: int, cols: int, p: int)
    requires
        size >= 0,
        rows >= 1,
        cols >= 1,
        0 <= p < rows * cols,
    ensures
        0 <= (size / rows) * (p / cols) <= size,
{
    assert(0 <= p / cols < rows) by (nonlinear_arith)
        requires
            cols >= 1,
            0 <= p < rows * cols,
    ;
    lemma_grid_origin(size, rows, p / cols);
    assert((p / cols) % rows == p / cols) by (nonlinear_arith)
        requires
            0 <= p / cols < rows,
    ;
}

/// One tile of a plain grid (see [`spec_tile_rectangle`]).
pub fn tile_rectangle(view: (i32, i32), bitmap: (i32, i32), part: i32, grid: (i32, i32), rtl: bool) -> (r: Rect)
    requires
        tile_fits(view, bitmap, grid),
    ensures
        r == spec_tile_rectangle(view, bitmap, part, grid, rtl),
        tile_inside(r, bitmap),
        r.x + r.w <= bitmap.0 || (r.x == 0 && r.w == view.0),
        r.y + r.h <= bitmap.1 || (r.y == 0 && r.h == view.1),
{
    proof {
        assert(grid.0 * grid.1 >= 1) by (nonlinear_arith)
            requires
                grid.0 >= 1,
                grid.1 >= 1,
        ;
    }
    let count = grid.0 * grid.1;
    let p = if part < 0 {
        0
    } else if part > count - 1 {
        count - 1
    } else {
        part
    };
    let row_h = bitmap.1 / grid.1;
    let col_w = bitmap.0 / grid.0;
    proof {
        lemma_grid_origin(bitmap.0 as int, grid.0 as int, p as int);
        lemma_grid_row(bitmap.1 as int, grid.1 as int, grid.0 as int, p as int);
    }
    let x = col_w * (p % grid.0);
    let y = row_h * (p / grid.0);
    let mut r = clamp_rect(bitmap, Rect::new(x, y, view.0, view.1));
    if rtl {
        r.x = bitmap.0 - r.right();
    }
    r
}

/// A part rectangle: a tile of nonnegative size inside the image rows,
/// within a view's width of the image horizontally.
pub open spec fn part_bounded(r: Rect, view: (i32, i32), bitmap: (i32, i32)) -> bool {
    &&& 0 <= r.w <= bitmap.0 + view.0
    &&& 0 <= r.h
    &&& 0 <= r.y <= bitmap.1
    &&& r.y + r.h <= bitmap.1 + view.1
    &&& -(bitmap.0 + view.0) <= r.x <= bitmap.0
    &&& r.x + r.w <= bitmap.0 + view.0
}

/// The column of the plain grid that shows part `part` of a paired
/// (double-spread) grid.
pub open spec fn spec_spread_column(part: int, simple: (int, int)) -> int {
    let halves = (simple.0 - 1) / 2 + 1;
    let per_row = halves * simple.1;
    let in_row = part % per_row;
    let row_base = part / per_row * (simple.0 / 2);
    simple.0 * (in_row / halves) + in_row % halves + row_base
}

/// The number of parts in one row pair of a paired grid.
pub open spec fn spec_spread_per_row(simple: (int, int)) -> int {
    ((simple.0 - 1) / 2 + 1) * simple.1
}

/// The horizontal placement rules of a paired-grid part: parts of the first
/// row pair stay on the left half of the image, the others on the right
/// half; right-to-left reading flips either the parts or the pages.
pub open spec fn spec_spread_adjust(
    r: Rect,
    bitmap: (i32, i32),
    first_half: bool,
    rtl_mode: RtlReadingMode,
    rtl: bool,
) -> Rect {
    let half = (bitmap.0 as int) / 2;
    let w = bitmap.0 as int;
    if rtl {
        match rtl_mode {
            RtlReadingMode::FlipParts => {
                let x1 = w - r.spec_right();
                if first_half {
                    let x2 = if x1 < half {
                        half
                    } else {
                        x1
                    };
                    let x3 = if x2 + r.w > w {
                        x2 - (x2 + r.w - w)
                    } else {
                        x2
                    };
                    Rect { x: x3 as i32, ..r }
                } else {
                    let x2 = if x1 + r.w > half {
                        x1 - (x1 + r.w - half)
                    } else {
                        x1
                    };
                    let x3 = if x2 < 0 {
                        0
                    } else {
                        x2
                    };
                    Rect { x: x3 as i32, ..r }
                }
            },
            RtlReadingMode::FlipPages => {
                if first_half {
                    let x1 = half - r.spec_right();
                    let x2 = if x1 < 0 {
                        0
                    } else {
                        x1
                    };
                    Rect { x: x2 as i32, ..r }
                } else {
                    let x1 = r.x - half;
                    let x2 = half - (x1 + r.w);
                    let x3 = x2 + half;
                    let x4 = if x3 + r.w > w {
                        x3 - (x3 + r.w - w)
                    } else {
                        x3
                    };
                    Rect { x: x4 as i32, ..r }
                }
            },
        }
    } else if first_half {
        let x1 = if r.spec_right() > half {
            r.x - (r.spec_right() - half)
        } else {
            r.x as int
        };
        let x2 = if x1 < 0 {
            0
        } else {
            x1
        };
        Rect { x: x2 as i32, ..r }
    } else {
        let x1 = if r.x < half {
            half
        } else {
            r.x as int
        };
        let x2 = if x1 + r.w > w {
            x1 - (x1 + r.w - w)
        } else {
            x1
        };
        Rect { x: x2 as i32, ..r }
    }
}

/// One part of a paired (double-spread) grid of a landscape page: the plain
/// tile of its column, placed by [`spec_spread_adjust`].
pub open spec fn spec_spread_rectangle(
    view: (i32, i32),
    bitmap: (i32, i32),
    part: int,
    simple: (int, int),
    rtl_mode: RtlReadingMode,
    rtl: bool,
) -> Rect {
    let col = spec_spread_column(part, simple);
    let r = spec_tile_rectangle(view, bitmap, col as i32, (simple.0 as i32, simple.1 as i32), false);
    spec_spread_adjust(r, bitmap, part < spec_spread_per_row(simple), rtl_mode, rtl)
}

/// One part of the page in image coordinates: a paired-grid part for a
/// landscape page shown as a double spread, a plain tile otherwise.
pub open spec fn spec_part_rectangle(
    client: (i32, i32),
    scaled: (i32, i32),
    view: (i32, i32),
    bitmap: (i32, i32),
    part: i32,
    grid: (i32, i32),
    double_spread: bool,
    rtl_mode: RtlReadingMode,
    rtl: bool,
) -> Rect {
    let wide = bitmap.0 > bitmap.1;
    let count = grid.0 * grid.1;
    let p = clamp_int(part as int, 0, count - 1);
    if double_spread && wide {
        spec_spread_rectangle(view, bitmap, p, spec_part_grid_size(client, scaled, false), rtl_mode, rtl)
    } else {
        spec_tile_rectangle(view, bitmap, p as i32, grid, rtl)
    }
}

/// The inputs of the part computation keep every intermediate value in
/// `i32`.
pub open spec fn part_rectangle_fits(
    client: (i32, i32),
    scaled: (i32, i32),
    view: (i32, i32),
    bitmap: (i32, i32),
    grid: (i32, i32),
    double_spread: bool,
) -> bool {
    let simple = spec_part_grid_size(client, scaled, false);
    &&& sizes_nonneg(client)
    &&& sizes_nonneg(scaled)
    &&& tile_fits(view, bitmap, grid)
    &&& 2 * (bitmap.0 + view.0) <= i32::MAX
    &&& double_spread && bitmap.0 > bitmap.1 ==> {
        &&& simple.0 >= 1
        &&& simple.1 >= 1
        &&& simple.0 * simple.1 <= i32::MAX
        &&& forall|p: int| 0 <= p < grid.0 * grid.1 ==> #[trigger] spec_spread_column(p, simple) <= i32::MAX
    }
}

proof fn lemma_spread_column_nonneg(p: int, simple: (int, int))
    requires
        p >= 0,
        simple.0 >= 1,
        simple.1 >= 1,
    ensures
        spec_spread_column(p, simple) >= 0,
        (simple.0 - 1) / 2 + 1 >= 1,
        ((simple.0 - 1) / 2 + 1) * simple.1 >= 1,
{
    let halves = (simple.0 - 1) / 2 + 1;
    assert(halves >= 1);
    let per_row = halves * simple.1;
    assert(per_row >= 1) by (nonlinear_arith)
        requires
            halves >= 1,
            simple.1 >= 1,
            per_row == halves * simple.1,
    ;
    let in_row = p % per_row;
    assert(in_row >= 0 && p / per_row >= 0) by (nonlinear_arith)
        requires
            per_row >= 1,
            p >= 0,
            in_row == p % per_row,
    ;
    assert(in_row / halves >= 0 && in_row % halves >= 0) by (nonlinear_arith)
        requires
            in_row >= 0,
            halves >= 1,
    ;
    assert(simple.0 * (in_row / halves) >= 0) by (nonlinear_arith)
        requires
            simple.0 >= 1,
            in_row / halves >= 0,
    ;
    assert(p / per_row * (simple.0 / 2) >= 0) by (nonlinear_arith)
        requires
            p / per_row >= 0,
            simple.0 >= 1,
    ;
}

/// One part of the page in image coordinates (see [`spec_part_rectangle`]).
pub fn part_rectangle(
    client: (i32, i32),
    scaled: (i32, i32),
    view: (i32, i32),
    bitmap: (i32, i32),
    part: i32,
    grid: (i32, i32),
    double_spread: bool,
    rtl_mode: RtlReadingMode,
    rtl: bool,
) -> (r: Rect)
    requires
        part_rectangle_fits(client, scaled, view, bitmap, grid, double_spread),
    ensures
        r == spec_part_rectangle(client, scaled, view, bitmap, part, grid, double_spread, rtl_mode, rtl),
        part_bounded(r, view, bitmap),
{
    let wide = bitmap.0 > bitmap.1;
    proof {
        assert(grid.0 * grid.1 >= 1) by (nonlinear_arith)
            requires
                grid.0 >= 1,
                grid.1 >= 1,
        ;
    }
    let count = grid.0 * grid.1;
    let p = if part < 0 {
        0
    } else if part > count - 1 {
        count - 1
    } else {
        part
    };
    if !(double_spread && wide) {
        return tile_rectangle(view, bitmap, p, grid, rtl);
    }
    let simple = part_grid_size(client, scaled, false);
    let (col, per_row) = spread_column(p, simple);
    let r = tile_rectangle(view, bitmap, col, simple, false);
    spread_adjust(r, view, bitmap, p < per_row, rtl_mode, rtl)
}

/// The plain-grid column of a paired-grid part, and the parts per row pair.
fn spread_column(p: i32, simple: (i32, i32)) -> (r: (i32, i32))
    requires
        p >= 0,
        simple.0 >= 1,
        simple.1 >= 1,
        simple.0 * simple.1 <= i32::MAX,
        spec_spread_column(p as int, (simple.0 as int, simple.1 as int)) <= i32::MAX,
    ensures
        r.0 == spec_spread_column(p as int, (simple.0 as int, simple.1 as int)),
        r.1 == spec_spread_per_row((simple.0 as int, simple.1 as int)),
{
    proof {
        lemma_spread_column_nonneg(p as int, (simple.0 as int, simple.1 as int));
    }
    let halves = (simple.0 - 1) / 2 + 1;
    proof {
        assert(halves <= halves * simple.1) by (nonlinear_arith)
            requires
                halves >= 1,
                simple.1 >= 1,
        ;
        assert(halves * simple.1 <= simple.0 * simple.1) by (nonlinear_arith)
            requires
                1 <= halves <= simple.0,
                simple.1 >= 1,
        ;
    }
    let per_row = halves * simple.1;
    let in_row = p % per_row;
    let q = p / per_row;
    proof {
        assert(0 <= q <= p) by (nonlinear_arith)
            requires
                per_row >= 1,
                p >= 0,
                q == p / per_row,
        ;
        assert(0 <= in_row < per_row) by (nonlinear_arith)
            requires
                per_row >= 1,
                p >= 0,
                in_row == p % per_row,
        ;
        assert(q * (simple.0 / 2) <= q * per_row) by (nonlinear_arith)
            requires
                q >= 0,
                0 <= simple.0 / 2 <= halves,
                halves <= per_row,
        ;
        assert(q * per_row <= p) by (nonlinear_arith)
            requires
                per_row >= 1,
                p >= 0,
                q == p / per_row,
        ;
        assert(0 <= q * (simple.0 / 2)) by (nonlinear_arith)
            requires
                q >= 0,
                simple.0 / 2 >= 0,
        ;
        assert(0 <= in_row / halves < simple.1) by (nonlinear_arith)
            requires
                0 <= in_row < per_row,
                per_row == halves * simple.1,
                halves >= 1,
        ;
        assert(simple.0 * (in_row / halves) <= simple.0 * simple.1) by (nonlinear_arith)
            requires
                0 <= in_row / halves < simple.1,
                simple.0 >= 1,
        ;
        assert(0 <= simple.0 * (in_row / halves)) by (nonlinear_arith)
            requires
                0 <= in_row / halves,
                simple.0 >= 1,
        ;
        assert(0 <= in_row % halves < halves) by (nonlinear_arith)
            requires
                0 <= in_row,
                halves >= 1,
        ;
    }
    let row_base = q * (simple.0 / 2);
    let col = simple.0 * (in_row / halves) + in_row % halves + row_base;
    (col, per_row)
}

/// The placement rules of a paired-grid part (see [`spec_spread_adjust`]).
fn spread_adjust(
    r: Rect,
    view: (i32, i32),
    bitmap: (i32, i32),
    first_half: bool,
    rtl_mode: RtlReadingMode,
    rtl: bool,
) -> (out: Rect)
    requires
        tile_fits(view, bitmap, (1, 1)),
        2 * (bitmap.0 + view.0) <= i32::MAX,
        tile_inside(r, bitmap),
        r.x + r.w <= bitmap.0 || (r.x == 0 && r.w == view.0),
        r.y + r.h <= bitmap.1 || (r.y == 0 && r.h == view.1),
    ensures
        out == spec_spread_adjust(r, bitmap, first_half, rtl_mode, rtl),
        part_bounded(out, view, bitmap),
{
    let mut r = r;
    let half = bitmap.0 / 2;
    if rtl {
        match rtl_mode {
            RtlReadingMode::FlipParts => {
                r.x = bitmap.0 - r.right();
                if first_half {
                    if r.x < half {
                        r.x = half;
                    }
                    if r.right() > bitmap.0 {
                        r.x = r.x - (r.right() - bitmap.0);
                    }
                } else {
                    if r.right() > half {
                        r.x = r.x - (r.right() - half);
                    }
                    if r.x < 0 {
                        r.x = 0;
                    }
                }
            },
            RtlReadingMode::FlipPages => {
                if first_half {
                    r.x = half - r.right();
                    if r.x < 0 {
                        r.x = 0;
                    }
                } else {
                    r.x = r.x - half;
                    r.x = half - r.right();
                    r.x = r.x + half;
                    if r.right() > bitmap.0 {
                        r.x = r.x - (r.right() - bitmap.0);
                    }
                }
            },
        }
    } else if first_half {
        if r.right() > half {
            r.x = r.x - (r.right() - half);
        }
        if r.x < 0 {
            r.x = 0;
        }
    } else {
        if r.x < half {
            r.x = half;
        }
        if r.right() > bitmap.0 {
            r.x = r.x - (r.right() - bitmap.0);
        }
    }
    r
}

/// The resolved part layout of one displayed page: the image size, every
/// part rectangle, the current part and its bounds (with the pan offset
/// applied).
#[derive(Debug)]
pub struct DisplayOutput {
    pub image_size: (i32, i32),
    pub part_bounds: Rect,
    pub part: i32,
    pub part_count: i32,
    pub parts: Vec<Rect>,
}

/// The offset `offset`, clamped against `part`, moves `part` without
/// leaving `i32`.
pub open spec fn offset_moves_fit(offset: (i32, i32), image_size: (i32, i32), part: Rect) -> bool {
    let off = spec_clamped_part_offset(offset, image_size, part);
    &&& clamped_offset_fits(offset, image_size, part)
    &&& fits_i32(part.x + off.0)
    &&& fits_i32(part.y + off.1)
}

/// The inputs of [`DisplayOutput::from_grid`] keep every intermediate value
/// in `i32`.
pub open spec fn layout_fits(
    client: (i32, i32),
    scaled: (i32, i32),
    view: (i32, i32),
    image_size: (i32, i32),
    requested: ImagePartInfo,
    double_spread: bool,
    rtl_mode: RtlReadingMode,
    rtl: bool,
) -> bool {
    let grid = spec_part_grid_size(client, scaled, double_spread);
    let g = (grid.0 as i32, grid.1 as i32);
    let count = grid.0 * grid.1;
    let part = clamp_int(requested.part as int, 0, count - 1);
    &&& sizes_nonneg(client)
    &&& sizes_nonneg(scaled)
    &&& sizes_nonneg(image_size)
    &&& (image_size.0 != 0 && image_size.1 != 0) ==> {
        &&& grid.0 >= 1
        &&& grid.1 >= 1
        &&& part_rectangle_fits(client, scaled, view, image_size, g, double_spread)
        &&& offset_moves_fit(
            requested.offset,
            image_size,
            spec_part_rectangle(client, scaled, view, image_size, part as i32, g, double_spread, rtl_mode, rtl),
        )
    }
}

impl DisplayOutput {
    /// The parts are consistent with the part count and have nonnegative
    /// sizes with representable edges.
    pub open spec fn wf(self) -> bool {
        &&& sizes_nonneg(self.image_size)
        &&& self.part_count >= 0
        &&& self.parts@.len() == self.part_count
        &&& forall|i: int|
            0 <= i < self.parts@.len() ==> {
                &&& (#[trigger] self.parts@[i]).edges_fit()
                &&& self.parts@[i].w >= 0
                &&& self.parts@[i].h >= 0
            }
    }

    /// Lays out the parts of an image of `image_size` for a view of
    /// `client` pixels (`scaled`: the image size times the zoom; `view`: the
    /// client size divided by it), with `requested` as the wanted part and
    /// pan offset. The part is clamped into range and the offset into the
    /// image.
    pub fn from_grid(
        client: (i32, i32),
        scaled: (i32, i32),
        view: (i32, i32),
        image_size: (i32, i32),
        requested: ImagePartInfo,
        double_spread: bool,
        rtl_mode: RtlReadingMode,
        rtl: bool,
    ) -> (r: DisplayOutput)
        requires
            layout_fits(client, scaled, view, image_size, requested, double_spread, rtl_mode, rtl),
        ensures
            r.wf(),
            r.image_size == image_size,
            image_size.0 == 0 || image_size.1 == 0 ==> r.part_count == 0 && r.parts@.len() == 0 && r.part == 0
                && r.part_bounds == Rect::zero(),
            image_size.0 != 0 && image_size.1 != 0 ==> {
                let grid = spec_part_grid_size(client, scaled, double_spread);
                let g = (grid.0 as i32, grid.1 as i32);
                let count = grid.0 * grid.1;
                let part = clamp_int(requested.part as int, 0, count - 1);
                let bounds = r.parts@[part];
                let off = spec_clamped_part_offset(requested.offset, image_size, bounds);
                &&& r.part_count == count
                &&& r.part == part
                &&& forall|i: int|
                    0 <= i < count ==> #[trigger] r.parts@[i] == spec_part_rectangle(
                        client,
                        scaled,
                        view,
                        image_size,
                        i as i32,
                        g,
                        double_spread,
                        rtl_mode,
                        rtl,
                    )
                &&& r.part_bounds == bounds.moved(off.0, off.1)
            },
    {
        if image_size.0 == 0 || image_size.1 == 0 {
            return DisplayOutput {
                image_size,
                part_bounds: Rect::new(0, 0, 0, 0),
                part: 0,
                part_count: 0,
                parts: Vec::new(),
            };
        }
        let grid = part_grid_size(client, scaled, double_spread);
        proof {
            assert(grid.0 * grid.1 >= 1) by (nonlinear_arith)
                requires
                    grid.0 >= 1,
                    grid.1 >= 1,
            ;
        }
        let count = grid.0 * grid.1;
        let part = if requested.part < 0 {
            0
        } else if requested.part > count - 1 {
            count - 1
        } else {
            requested.part
        };
        let mut parts: Vec<Rect> = Vec::new();
        let mut i: i32 = 0;
        while i < count
            invariant
                layout_fits(client, scaled, view, image_size, requested, double_spread, rtl_mode, rtl),
                image_size.0 != 0 && image_size.1 != 0,
                grid.0 == spec_part_grid_size(client, scaled, double_spread).0,
                grid.1 == spec_part_grid_size(client, scaled, double_spread).1,
                count == grid.0 * grid.1,
                0 <= i <= count,
                parts@.len() == i,
                forall|k: int|
                    0 <= k < i ==> #[trigger] parts@[k] == spec_part_rectangle(
                        client,
                        scaled,
                        view,
                        image_size,
                        k as i32,
                        grid,
                        double_spread,
                        rtl_mode,
                        rtl,
                    ),
                forall|k: int|
                    0 <= k < i ==> {
                        &&& (#[trigger] parts@[k]).edges_fit()
                        &&& parts@[k].w >= 0
                        &&& parts@[k].h >= 0
                    },
            decreases count - i,
        {
            let r = part_rectangle(client, scaled, view, image_size, i, grid, double_spread, rtl_mode, rtl);
            parts.push(r);
            i = i + 1;
        }
        assert(parts@[part as int] == spec_part_rectangle(
            client,
            scaled,
            view,
            image_size,
            part,
            grid,
            double_spread,
            rtl_mode,
            rtl,
        ));
        let mut bounds = parts[part as usize];
        let off = clamped_part_offset(requested.offset, image_size, bounds);
        bounds.offset_by(off.0, off.1);
        DisplayOutput { image_size, part_bounds: bounds, part, part_count: count, parts }
    }

    pub fn is_empty(&self) -> (r: bool)
        ensures
            r == (self.part_count == 0),
    {
        self.part_count == 0
    }

    pub fn is_all_visible(&self) -> (r: bool)
        ensures
            r == (self.parts@.len() < 2),
    {
        self.parts.len() < 2
    }

    /// The visible part at the origin.
    pub fn output_bounds(&self) -> (r: Rect)
        ensures
            r == (Rect { x: 0, y: 0, w: self.part_bounds.w, h: self.part_bounds.h }),
    {
        Rect::new(0, 0, self.part_bounds.w, self.part_bounds.h)
    }

    /// The part at `index` clamped into range; the empty rectangle when there
    /// are no parts.
    pub open spec fn spec_get_part(self, index: int) -> Rect {
        if self.parts@.len() == 0 {
            Rect::zero()
        } else {
            self.parts@[clamp_int(index, 0, self.parts@.len() - 1)]
        }
    }

    pub fn get_part(&self, index: i32) -> (r: Rect)
        requires
            self.parts@.len() <= i32::MAX,
        ensures
            r == self.spec_get_part(index as int),
    {
        if self.parts.len() == 0 {
            return Rect::new(0, 0, 0, 0);
        }
        let last = (self.parts.len() - 1) as i32;
        let i = if index < 0 {
            0
        } else if index > last {
            last
        } else {
            index
        };
        self.parts[i as usize]
    }

    /// The pan offset clamped so the part stays inside the image.
    pub open spec fn spec_part_offset(self, part: int, offset: (i32, i32)) -> (int, int) {
        spec_clamped_part_offset(offset, self.image_size, self.spec_get_part(part))
    }

    pub fn part_offset(&self, part: i32, offset: (i32, i32)) -> (r: (i32, i32))
        requires
            self.parts@.len() <= i32::MAX,
            clamped_offset_fits(offset, self.image_size, self.spec_get_part(part as int)),
        ensures
            r.0 == self.spec_part_offset(part as int, offset).0,
            r.1 == self.spec_part_offset(part as int, offset).1,
    {
        clamped_part_offset(offset, self.image_size, self.get_part(part))
    }

    /// The part at `part`, moved by the clamped offset.
    pub open spec fn spec_part_with_offset(self, part: int, offset: (i32, i32)) -> Rect {
        let off = self.spec_part_offset(part, offset);
        self.spec_get_part(part).moved(off.0, off.1)
    }

    pub fn get_part_with_offset(&self, part: i32, offset: (i32, i32)) -> (r: Rect)
        requires
            self.parts@.len() <= i32::MAX,
            offset_moves_fit(offset, self.image_size, self.spec_get_part(part as int)),
        ensures
            r == self.spec_part_with_offset(part as int, offset),
    {
        let mut r = self.get_part(part);
        let off = self.part_offset(part, offset);
        r.offset_by(off.0, off.1);
        r
    }

    pub fn get_part_full(&self, ipi: ImagePartInfo) -> (r: Rect)
        requires
            self.parts@.len() <= i32::MAX,
            offset_moves_fit(ipi.offset, self.image_size, self.spec_get_part(ipi.part as int)),
        ensures
            r == self.spec_part_with_offset(ipi.part as int, ipi.offset),
    {
        self.get_part_with_offset(ipi.part, ipi.offset)
    }

    /// The visible part (with its offset) is the first part.
    pub fn is_start_part(&self, ipi: ImagePartInfo) -> (r: bool)
        requires
            self.parts@.len() <= i32::MAX,
            offset_moves_fit(ipi.offset, self.image_size, self.spec_get_part(ipi.part as int)),
        ensures
            r == (self.spec_part_with_offset(ipi.part as int, ipi.offset) == self.spec_get_part(0)),
    {
        self.get_part_full(ipi) == self.get_part(0)
    }

    /// The visible part (with its offset) is the last part (the part count,
    /// clamped into range).
    pub fn is_end_part(&self, ipi: ImagePartInfo) -> (r: bool)
        requires
            self.parts@.len() <= i32::MAX,
            offset_moves_fit(ipi.offset, self.image_size, self.spec_get_part(ipi.part as int)),
        ensures
            r == (self.spec_part_with_offset(ipi.part as int, ipi.offset) == self.spec_get_part(
                self.part_count as int,
            )),
    {
        self.get_part_full(ipi) == self.get_part(self.part_count)
    }

    /// The part number and offset after pulling `new_part` into range (an
    /// out-of-range part drops its offset).
    pub open spec fn spec_fit_start(self, new_part: ImagePartInfo) -> (int, (i32, i32)) {
        let (num0, off0) = if new_part.part < 0 {
            (0int, (0i32, 0i32))
        } else {
            (new_part.part as int, new_part.offset)
        };
        if num0 >= self.part_count {
            (self.part_count - 1, (0i32, 0i32))
        } else {
            (num0, off0)
        }
    }

    /// The rectangle [`DisplayOutput::get_best_part_fit`] compares against
    /// the parts: the in-range part moved by its clamped offset.
    pub open spec fn spec_fit_test(self, new_part: ImagePartInfo) -> Rect {
        let (num, off) = self.spec_fit_start(new_part);
        self.spec_part_with_offset(num, off)
    }

    /// The part that shows most of the requested view, with the offset that
    /// keeps the same image region in view.
    pub open spec fn spec_best_part_fit(self, new_part: ImagePartInfo) -> (int, (int, int)) {
        let (num, off) = self.spec_fit_start(new_part);
        if num < 0 {
            (new_part.part as int, (new_part.offset.0 as int, new_part.offset.1 as int))
        } else {
            let offset = self.spec_part_offset(num, off);
            let best = spec_index_of_best_fit(self.parts@, self.spec_fit_test(new_part));
            if num != best {
                let from = self.spec_get_part(num);
                let to = self.spec_get_part(best);
                (best, (offset.0 + from.x - to.x, offset.1 + from.y - to.y))
            } else {
                (num, offset)
            }
        }
    }

    /// The arithmetic of [`DisplayOutput::get_best_part_fit`] stays inside
    /// `i32`.
    pub open spec fn best_fit_fits(self, new_part: ImagePartInfo) -> bool {
        let (num, off) = self.spec_fit_start(new_part);
        num >= 0 ==> {
            let result = self.spec_best_part_fit(new_part);
            &&& offset_moves_fit(off, self.image_size, self.spec_get_part(num))
            &&& overlap_areas_fit(self.parts@, self.spec_fit_test(new_part))
            &&& fits_i32(self.spec_part_offset(num, off).0 + self.spec_get_part(num).x)
            &&& fits_i32(self.spec_part_offset(num, off).1 + self.spec_get_part(num).y)
            &&& fits_i32(result.1.0)
            &&& fits_i32(result.1.1)
        }
    }

    /// Pulls a part and offset back into the legal range, then picks the
    /// part that overlaps that view most (the first on a tie), keeping the
    /// same image region in view.
    pub fn get_best_part_fit(&self, new_part: ImagePartInfo) -> (r: ImagePartInfo)
        requires
            self.wf(),
            self.parts@.len() <= i32::MAX,
            self.best_fit_fits(new_part),
        ensures
            r.part == self.spec_best_part_fit(new_part).0,
            r.offset.0 == self.spec_best_part_fit(new_part).1.0,
            r.offset.1 == self.spec_best_part_fit(new_part).1.1,
    {
        let mut num = new_part.part;
        let mut offset = new_part.offset;
        if num < 0 {
            offset = (0, 0);
            num = 0;
        }
        if num >= self.part_count {
            offset = (0, 0);
            num = self.part_count - 1;
        }
        if num < 0 {
            return new_part;
        }
        let offset = self.part_offset(num, offset);
        let mut test = self.get_part(num);
        test.offset_by(offset.0, offset.1);
        let best = index_of_best_fit(self.parts.as_slice(), test);
        if num != best {
            let from = self.get_part(num);
            let to = self.get_part(best);
            let moved = (offset.0 + from.x - to.x, offset.1 + from.y - to.y);
            return ImagePartInfo { part: best, offset: moved };
        }
        ImagePartInfo { part: num, offset }
    }
}

} // verus!
