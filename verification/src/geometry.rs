//! Integer display geometry: rectangles, visible-part descriptors and the
//! clamping rules that keep a viewport tile inside the page image.

use vstd::prelude::*;

verus! {

/// True when `v` is representable as an `i32`.
pub open spec fn fits_i32(v: int) -> bool {
    i32::MIN <= v <= i32::MAX
}

pub open spec fn min_int(a: int, b: int) -> int {
    if a <= b {
        a
    } else {
        b
    }
}

pub open spec fn max_int(a: int, b: int) -> int {
    if a >= b {
        a
    } else {
        b
    }
}

/// `v` clamped into `[lo, hi]` (with `lo <= hi`).
pub open spec fn clamp_int(v: int, lo: int, hi: int) -> int {
    if v < lo {
        lo
    } else if v > hi {
        hi
    } else {
        v
    }
}

/// Integer division rounding toward zero, as `/` does on Rust's signed types.
pub open spec fn trunc_div(a: int, b: int) -> int {
    if a >= 0 && b > 0 {
        a / b
    } else if a >= 0 {
        -(a / (-b))
    } else if b > 0 {
        -((-a) / b)
    } else {
        (-a) / (-b)
    }
}

/// The remainder that goes with [`trunc_div`] (the sign follows `a`).
pub open spec fn trunc_rem(a: int, b: int) -> int {
    a - b * trunc_div(a, b)
}

/// `a / b` on `i32`, rounding toward zero.
pub fn div_i32(a: i32, b: i32) -> (r: i32)
    requires
        b != 0,
        !(a == i32::MIN && b == -1),
    ensures
        r == trunc_div(a as int, b as int),
{
    let x: i64 = a as i64;
    let y: i64 = b as i64;
    let q: i64 = if x >= 0 && y > 0 {
        x / y
    } else if x >= 0 {
        -(x / (-y))
    } else if y > 0 {
        -((-x) / y)
    } else {
        (-x) / (-y)
    };
    proof {
        let xi: int = x as int;
        let yi: int = y as int;
        if xi >= 0 && yi > 0 {
            assert(0 <= xi / yi <= xi) by (nonlinear_arith)
                requires
                    xi >= 0,
                    yi > 0,
            ;
        } else if xi >= 0 {
            assert(0 <= xi / (-yi) <= xi) by (nonlinear_arith)
                requires
                    xi >= 0,
                    -yi > 0,
            ;
        } else if yi > 0 {
            assert(0 <= (-xi) / yi <= -xi) by (nonlinear_arith)
                requires
                    -xi > 0,
                    yi > 0,
            ;
        } else {
            assert(0 <= (-xi) / (-yi) <= -xi) by (nonlinear_arith)
                requires
                    -xi > 0,
                    -yi > 0,
            ;
            if xi == i32::MIN {
                assert((-xi) / (-yi) <= (-xi) / 2) by (nonlinear_arith)
                    requires
                        -xi > 0,
                        -yi >= 2,
                ;
            }
        }
    }
    q as i32
}

/// `a % b` on `i32` (the sign of the result follows `a`).
pub fn rem_i32(a: i32, b: i32) -> (r: i32)
    requires
        b != 0,
        !(a == i32::MIN && b == -1),
    ensures
        r == trunc_rem(a as int, b as int),
{
    let q = div_i32(a, b);
    proof {
        lemma_trunc_div_bounds(a as int, b as int);
    }
    ((a as i64) - (b as i64) * (q as i64)) as i32
}

/// The quotient and remainder of [`trunc_div`] are bounded the way
/// Rust's are: `|rem| < |b|` with the sign of `a`.
pub proof fn lemma_trunc_div_bounds(a: int, b: int)
    requires
        b != 0,
    ensures
        a >= 0 ==> 0 <= trunc_rem(a, b) < (if b > 0 { b } else { -b }),
        a < 0 ==> -(if b > 0 { b } else { -b }) < trunc_rem(a, b) <= 0,
{
    let m: int = if b > 0 {
        b
    } else {
        -b
    };
    if a >= 0 {
        assert(a == m * (a / m) + a % m && 0 <= a % m < m) by (nonlinear_arith)
            requires
                m > 0,
                a >= 0,
        ;
        if b > 0 {
            assert(trunc_rem(a, b) == a % m);
        } else {
            assert(b * trunc_div(a, b) == m * (a / m)) by (nonlinear_arith)
                requires
                    m == -b,
                    trunc_div(a, b) == -(a / m),
            ;
        }
    } else {
        let na = -a;
        assert(na == m * (na / m) + na % m && 0 <= na % m < m) by (nonlinear_arith)
            requires
                m > 0,
                na > 0,
        ;
        if b > 0 {
            assert(b * trunc_div(a, b) == -(m * (na / m))) by (nonlinear_arith)
                requires
                    m == b,
                    trunc_div(a, b) == -(na / m),
            ;
        } else {
            assert(b * trunc_div(a, b) == -(m * (na / m))) by (nonlinear_arith)
                requires
                    m == -b,
                    trunc_div(a, b) == na / m,
            ;
        }
    }
}

/// An axis-aligned rectangle in integer pixels: origin, width and height.
#[derive(Clone, Copy, Debug, PartialEq, Eq, Structural)]
pub struct Rect {
    pub x: i32,
    pub y: i32,
    pub w: i32,
    pub h: i32,
}

impl Default for Rect {
    /// The empty rectangle at the origin.
    fn default() -> (r: Rect)
        ensures
            r == Rect::zero(),
    {
        Rect { x: 0, y: 0, w: 0, h: 0 }
    }
}

impl Rect {
    /// The rectangle with every field zero.
    pub open spec fn zero() -> Rect {
        Rect { x: 0, y: 0, w: 0, h: 0 }
    }

    pub open spec fn spec_right(self) -> int {
        self.x + self.w
    }

    pub open spec fn spec_bottom(self) -> int {
        self.y + self.h
    }

    /// The right and bottom edges are representable.
    pub open spec fn edges_fit(self) -> bool {
        fits_i32(self.spec_right()) && fits_i32(self.spec_bottom())
    }

    pub open spec fn spec_is_empty(self) -> bool {
        self.w == 0 || self.h == 0
    }

    /// The rectangle moved by `(dx, dy)`.
    pub open spec fn moved(self, dx: int, dy: int) -> Rect {
        Rect { x: (self.x + dx) as i32, y: (self.y + dy) as i32, w: self.w, h: self.h }
    }

    pub fn new(x: i32, y: i32, w: i32, h: i32) -> (r: Rect)
        ensures
            r == (Rect { x, y, w, h }),
    {
        Rect { x, y, w, h }
    }

    pub fn right(&self) -> (r: i32)
        requires
            fits_i32(self.spec_right()),
        ensures
            r == self.spec_right(),
    {
        self.x + self.w
    }

    pub fn bottom(&self) -> (r: i32)
        requires
            fits_i32(self.spec_bottom()),
        ensures
            r == self.spec_bottom(),
    {
        self.y + self.h
    }

    pub fn is_empty(&self) -> (r: bool)
        ensures
            r == self.spec_is_empty(),
    {
        self.w == 0 || self.h == 0
    }

    /// The overlap of two rectangles; the empty rectangle at the origin
    /// when they do not overlap.
    pub open spec fn spec_intersect(a: Rect, b: Rect) -> Rect {
        let left = max_int(a.x as int, b.x as int);
        let top = max_int(a.y as int, b.y as int);
        let right = min_int(a.spec_right(), b.spec_right());
        let bottom = min_int(a.spec_bottom(), b.spec_bottom());
        if right <= left || bottom <= top {
            Rect::zero()
        } else {
            Rect {
                x: left as i32,
                y: top as i32,
                w: (right - left) as i32,
                h: (bottom - top) as i32,
            }
        }
    }

    pub fn intersect(a: Rect, b: Rect) -> (r: Rect)
        requires
            a.edges_fit(),
            b.edges_fit(),
        ensures
            r == Rect::spec_intersect(a, b),
            r.edges_fit(),
            r.w >= 0,
            r.h >= 0,
    {
        let left = if a.x >= b.x {
            a.x
        } else {
            b.x
        };
        let top = if a.y >= b.y {
            a.y
        } else {
            b.y
        };
        let ar = a.right();
        let br = b.right();
        let ab = a.bottom();
        let bb = b.bottom();
        let right = if ar <= br {
            ar
        } else {
            br
        };
        let bottom = if ab <= bb {
            ab
        } else {
            bb
        };
        if right <= left || bottom <= top {
            return Rect { x: 0, y: 0, w: 0, h: 0 };
        }
        Rect { x: left, y: top, w: right - left, h: bottom - top }
    }

    pub fn offset_by(&mut self, dx: i32, dy: i32)
        requires
            fits_i32(old(self).x + dx),
            fits_i32(old(self).y + dy),
        ensures
            *final(self) == old(self).moved(dx as int, dy as int),
    {
        self.x = self.x + dx;
        self.y = self.y + dy;
    }
}

/// The part of a page that is visible: the part index and a pixel offset
/// inside that part. The index stays signed, because navigation steps to
/// `part - 1` before clamping.
#[derive(Clone, Copy, Debug, PartialEq, Eq)]
pub struct ImagePartInfo {
    pub part: i32,
    pub offset: (i32, i32),
}

impl Default for ImagePartInfo {
    /// Part zero, no offset.
    fn default() -> (r: ImagePartInfo)
        ensures
            r == ImagePartInfo::spec_empty(),
    {
        ImagePartInfo { part: 0, offset: (0, 0) }
    }
}

impl ImagePartInfo {
    pub open spec fn spec_empty() -> ImagePartInfo {
        ImagePartInfo { part: 0, offset: (0, 0) }
    }

    /// Part zero, no offset.
    pub fn empty() -> (r: ImagePartInfo)
        ensures
            r == ImagePartInfo::spec_empty(),
    {
        ImagePartInfo { part: 0, offset: (0, 0) }
    }

    pub fn new(part: i32, offset: (i32, i32)) -> (r: ImagePartInfo)
        ensures
            r == (ImagePartInfo { part, offset }),
    {
        ImagePartInfo { part, offset }
    }
}

/// How a page image is scaled into the view.
#[derive(Clone, Copy, Debug, PartialEq, Eq, Structural)]
pub enum ImageFitMode {
    Original,
    Fit,
    FitWidth,
    FitWidthAdaptive,
    FitHeight,
    BestFit,
}

impl Default for ImageFitMode {
    /// `Fit` is the default fit.
    fn default() -> (r: ImageFitMode)
        ensures
            r == ImageFitMode::Fit,
    {
        ImageFitMode::Fit
    }
}

/// How right-to-left reading mirrors a page that spans several parts.
#[derive(Clone, Copy, Debug, PartialEq, Eq, Structural)]
pub enum RtlReadingMode {
    FlipParts,
    FlipPages,
}

impl Default for RtlReadingMode {
    /// `FlipParts` is the default mode.
    fn default() -> (r: RtlReadingMode)
        ensures
            r == RtlReadingMode::FlipParts,
    {
        RtlReadingMode::FlipParts
    }
}

/// Which part of the page a part navigation goes to.
#[derive(Clone, Copy, Debug, PartialEq, Eq, Structural)]
pub enum PartPageToDisplay {
    First,
    Previous,
    Next,
    Last,
}

/// The pixel offset that keeps `part`, moved by `offset`, inside an image
/// of `image_size`: first pulled back from the right and bottom edges, then
/// from the left and top ones.
pub open spec fn spec_clamped_part_offset(offset: (i32, i32), image_size: (i32, i32), part: Rect) -> (
    int,
    int,
) {
    let x1: int = if offset.0 + part.spec_right() > image_size.0 {
        image_size.0 - part.spec_right()
    } else {
        offset.0 as int
    };
    let y1: int = if offset.1 + part.spec_bottom() > image_size.1 {
        image_size.1 - part.spec_bottom()
    } else {
        offset.1 as int
    };
    let x2: int = if x1 + part.x < 0 {
        -part.x
    } else {
        x1
    };
    let y2: int = if y1 + part.y < 0 {
        -part.y
    } else {
        y1
    };
    (x2, y2)
}

/// The arithmetic of [`clamped_part_offset`] stays inside `i32`.
pub open spec fn clamped_offset_fits(offset: (i32, i32), image_size: (i32, i32), part: Rect) -> bool {
    &&& part.edges_fit()
    &&& fits_i32(offset.0 + part.spec_right())
    &&& fits_i32(offset.1 + part.spec_bottom())
    &&& fits_i32(image_size.0 - part.spec_right())
    &&& fits_i32(image_size.1 - part.spec_bottom())
    &&& fits_i32(-part.x)
    &&& fits_i32(-part.y)
    &&& fits_i32(offset.0 + part.x)
    &&& fits_i32(offset.1 + part.y)
    &&& fits_i32(image_size.0 - part.spec_right() + part.x)
    &&& fits_i32(image_size.1 - part.spec_bottom() + part.y)
}

/// The part offset clamped so the moved part stays inside the image.
pub fn clamped_part_offset(offset: (i32, i32), image_size: (i32, i32), part: Rect) -> (r: (i32, i32))
    requires
        clamped_offset_fits(offset, image_size, part),
    ensures
        r.0 == spec_clamped_part_offset(offset, image_size, part).0,
        r.1 == spec_clamped_part_offset(offset, image_size, part).1,
{
    let mut x = offset.0;
    let mut y = offset.1;
    let right = part.right();
    let bottom = part.bottom();
    if x + right > image_size.0 {
        x = image_size.0 - right;
    }
    if y + bottom > image_size.1 {
        y = image_size.1 - bottom;
    }
    if x + part.x < 0 {
        x = -part.x;
    }
    if y + part.y < 0 {
        y = -part.y;
    }
    (x, y)
}

/// A tile kept inside an image of `size`: moved back from the right and
/// bottom edges, then shrunk where it still sticks out at the left or top.
pub open spec fn spec_clamp_rect(size: (i32, i32), rect: Rect) -> Rect {
    let x1: int = if rect.spec_right() > size.0 {
        size.0 - rect.w
    } else {
        rect.x as int
    };
    let y1: int = if rect.spec_bottom() > size.1 {
        size.1 - rect.h
    } else {
        rect.y as int
    };
    let (y2, h2) = if y1 < 0 {
        (0int, rect.h + y1)
    } else {
        (y1, rect.h as int)
    };
    let (x2, w2) = if x1 < 0 {
        (0int, rect.w + x1)
    } else {
        (x1, rect.w as int)
    };
    Rect { x: x2 as i32, y: y2 as i32, w: w2 as i32, h: h2 as i32 }
}

/// The arithmetic of [`clamp_rect`] stays inside `i32`.
pub open spec fn clamp_rect_fits(size: (i32, i32), rect: Rect) -> bool {
    &&& rect.edges_fit()
    &&& fits_i32(size.0 - rect.w)
    &&& fits_i32(size.1 - rect.h)
    &&& fits_i32(rect.w + size.0 - rect.w)
    &&& fits_i32(rect.h + size.1 - rect.h)
}

/// Keeps a tile inside the image, shrinking it at the edges it cannot fit.
pub fn clamp_rect(size: (i32, i32), rect: Rect) -> (r: Rect)
    requires
        clamp_rect_fits(size, rect),
    ensures
        r == spec_clamp_rect(size, rect),
{
    let mut rect = rect;
    if rect.right() > size.0 {
        rect.x = size.0 - rect.w;
    }
    if rect.bottom() > size.1 {
        rect.y = size.1 - rect.h;
    }
    if rect.y < 0 {
        rect.h = rect.h + rect.y;
        rect.y = 0;
    }
    if rect.x < 0 {
        rect.w = rect.w + rect.x;
        rect.x = 0;
    }
    rect
}

/// The overlap area of `part` and `test`.
pub open spec fn overlap_area(part: Rect, test: Rect) -> int {
    let i = Rect::spec_intersect(part, test);
    i.w * i.h
}

/// Every overlap area with `test` is representable.
pub open spec fn overlap_areas_fit(parts: Seq<Rect>, test: Rect) -> bool {
    &&& test.edges_fit()
    &&& forall|i: int| 0 <= i < parts.len() ==> (#[trigger] parts[i]).edges_fit()
    &&& forall|i: int| 0 <= i < parts.len() ==> overlap_area(#[trigger] parts[i], test) <= i32::MAX
}

/// Part `r` overlaps `test` most, and no earlier part overlaps it as much.
pub open spec fn is_best_fit(parts: Seq<Rect>, test: Rect, r: int) -> bool {
    &&& 0 <= r < parts.len()
    &&& overlap_area(parts[r], test) > 0
    &&& forall|i: int| 0 <= i < parts.len() ==> overlap_area(#[trigger] parts[i], test) <= overlap_area(parts[r], test)
    &&& forall|i: int| 0 <= i < r ==> overlap_area(#[trigger] parts[i], test) < overlap_area(parts[r], test)
}

/// The index of the part with the largest overlap with `test` (the first
/// one on a tie), or -1 when no part overlaps it.
pub open spec fn spec_index_of_best_fit(parts: Seq<Rect>, test: Rect) -> int {
    if forall|i: int| 0 <= i < parts.len() ==> overlap_area(#[trigger] parts[i], test) <= 0 {
        -1
    } else {
        choose|r: int| is_best_fit(parts, test, r)
    }
}

/// At most one index is the best fit.
pub proof fn lemma_best_fit_unique(parts: Seq<Rect>, test: Rect, a: int, b: int)
    requires
        is_best_fit(parts, test, a),
        is_best_fit(parts, test, b),
    ensures
        a == b,
{
    if a < b {
        assert(overlap_area(parts[a], test) < overlap_area(parts[b], test));
        assert(overlap_area(parts[b], test) <= overlap_area(parts[a], test));
    } else if b < a {
        assert(overlap_area(parts[b], test) < overlap_area(parts[a], test));
        assert(overlap_area(parts[a], test) <= overlap_area(parts[b], test));
    }
}

/// The index of the part with the largest overlap with `test` (the first
/// one on a tie), or -1 when no part overlaps it.
pub fn index_of_best_fit(parts: &[Rect], test: Rect) -> (r: i32)
    requires
        parts@.len() <= i32::MAX,
        overlap_areas_fit(parts@, test),
    ensures
        r == -1 <==> (forall|i: int| 0 <= i < parts@.len() ==> overlap_area(#[trigger] parts@[i], test) <= 0),
        r != -1 ==> {
            &&& 0 <= r < parts@.len()
            &&& overlap_area(parts@[r as int], test) > 0
            &&& forall|i: int| 0 <= i < parts@.len() ==> overlap_area(#[trigger] parts@[i], test) <= overlap_area(parts@[r as int], test)
            &&& forall|i: int| 0 <= i < r ==> overlap_area(#[trigger] parts@[i], test) < overlap_area(parts@[r as int], test)
        },
        r == spec_index_of_best_fit(parts@, test),
{
    let mut result: i32 = -1;
    let mut best_area: i32 = 0;
    let mut i: usize = 0;
    while i < parts.len()
        invariant
            i <= parts@.len(),
            parts@.len() <= i32::MAX,
            overlap_areas_fit(parts@, test),
            result == -1 ==> best_area == 0,
            result == -1 <==> (forall|k: int| 0 <= k < i ==> overlap_area(#[trigger] parts@[k], test) <= 0),
            result != -1 ==> {
                &&& 0 <= result < i
                &&& best_area == overlap_area(parts@[result as int], test)
                &&& best_area > 0
                &&& forall|k: int| 0 <= k < i ==> overlap_area(#[trigger] parts@[k], test) <= best_area
                &&& forall|k: int| 0 <= k < result ==> overlap_area(#[trigger] parts@[k], test) < best_area
            },
        decreases parts@.len() - i,
    {
        let isect = Rect::intersect(parts[i], test);
        assert(overlap_area(parts@[i as int], test) <= i32::MAX);
        assert(isect.w * isect.h >= 0) by (nonlinear_arith)
            requires
                isect.w >= 0,
                isect.h >= 0,
        ;
        let area = isect.w * isect.h;
        if area > best_area {
            best_area = area;
            result = i as i32;
        }
        i = i + 1;
    }
    proof {
        if result != -1 {
            assert(is_best_fit(parts@, test, result as int));
            let c = choose|r: int| is_best_fit(parts@, test, r);
            lemma_best_fit_unique(parts@, test, c, result as int);
        }
    }
    result
}

/// A part that fits in the image stays inside it once its offset is
/// clamped: its left and top edges are not before zero and its right and
/// bottom edges not past the image.
pub proof fn law_clamped_offset_keeps_part_inside(offset: (i32, i32), image_size: (i32, i32), part: Rect)
    requires
        0 <= part.w <= image_size.0,
        0 <= part.h <= image_size.1,
    ensures
        ({
            let off = spec_clamped_part_offset(offset, image_size, part);
            &&& part.x + off.0 >= 0
            &&& part.y + off.1 >= 0
            &&& part.spec_right() + off.0 <= image_size.0
            &&& part.spec_bottom() + off.1 <= image_size.1
        }),
{
}

/// Clamping an offset that is already clamped leaves it unchanged.
pub proof fn law_clamped_offset_is_stable(offset: (i32, i32), image_size: (i32, i32), part: Rect)
    requires
        0 <= part.w <= image_size.0,
        0 <= part.h <= image_size.1,
        fits_i32(spec_clamped_part_offset(offset, image_size, part).0),
        fits_i32(spec_clamped_part_offset(offset, image_size, part).1),
    ensures
        ({
            let off = spec_clamped_part_offset(offset, image_size, part);
            let again = spec_clamped_part_offset((off.0 as i32, off.1 as i32), image_size, part);
            again == off
        }),
{
}

/// The overlap of two rectangles lies inside both.
pub proof fn law_intersection_inside_both(a: Rect, b: Rect)
    requires
        a.edges_fit(),
        b.edges_fit(),
    ensures
        ({
            let i = Rect::spec_intersect(a, b);
            i.w > 0 && i.h > 0 ==> {
                &&& a.x <= i.x && i.spec_right() <= a.spec_right()
                &&& b.x <= i.x && i.spec_right() <= b.spec_right()
                &&& a.y <= i.y && i.spec_bottom() <= a.spec_bottom()
                &&& b.y <= i.y && i.spec_bottom() <= b.spec_bottom()
            }
        }),
        Rect::spec_intersect(a, b) == Rect::spec_intersect(b, a),
{
}

} // verus!
