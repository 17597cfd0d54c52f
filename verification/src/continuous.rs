//! Geometry of the continuous (vertically stacked) page strip. Virtual
//! coordinates are `i64`; output rectangles are clipped to `i32`.

use vstd::prelude::*;

use crate::geometry::{clamp_int, div_i32, fits_i32, max_int, min_int, trunc_div, Rect};

verus! {

/// `l + r`, stopping at the `i64` bounds.
pub open spec fn spec_saturating_add(l: int, r: int) -> int {
    clamp_int(l + r, i64::MIN as int, i64::MAX as int)
}

/// `l * r` for positive operands, stopping at `i64::MAX`; zero when either
/// operand is not positive.
pub open spec fn spec_saturating_multiply(l: int, r: int) -> int {
    if l <= 0 || r <= 0 {
        0
    } else if l * r > i64::MAX {
        i64::MAX as int
    } else {
        l * r
    }
}

/// `v` clamped into `[0, i32::MAX]`.
pub open spec fn spec_clamp_to_i32(v: int) -> int {
    if v <= 0 {
        0
    } else {
        min_int(v, i32::MAX as int)
    }
}

/// The height of a page scaled to `width`: `width * h / w` rounded half up,
/// never below one pixel; zero for a page without a usable size.
pub open spec fn spec_scaled_height(width: int, source_size: (i32, i32)) -> int {
    if source_size.0 <= 0 || source_size.1 <= 0 {
        0
    } else {
        let numerator = spec_saturating_multiply(width, source_size.1 as int);
        let rounded = spec_saturating_add(numerator, (source_size.0 / 2) as int);
        let height = rounded / (source_size.0 as int);
        if height > 0 {
            height
        } else {
            1
        }
    }
}

/// The output rectangle of a strip entry: the top clipped to `i32`, the
/// height clipped so the bottom stays representable.
pub open spec fn spec_to_rectangle(left: i32, top: int, width: i32, height: int) -> Rect {
    let y = spec_clamp_to_i32(top);
    let clipped = min_int(height, i32::MAX - y);
    Rect { x: left, y: y as i32, w: width, h: spec_clamp_to_i32(clipped) as i32 }
}

/// `|left - right|`.
pub open spec fn spec_distance(left: int, right: int) -> int {
    if left >= right {
        left - right
    } else {
        right - left
    }
}

/// A page of the strip: its number and its source pixel size.
#[derive(Clone, Copy, Debug)]
pub struct SourcePage {
    pub page: usize,
    pub source_size: (i32, i32),
}

/// One page's place in the strip.
#[derive(Clone, Copy, Debug)]
pub struct PageEntry {
    pub page: usize,
    pub source_size: (i32, i32),
    pub bounds: Rect,
    top: i64,
    height: i64,
}

impl PageEntry {
    /// The page number.
    pub closed spec fn spec_page(self) -> usize {
        self.page
    }

    /// The output rectangle.
    pub closed spec fn spec_bounds(self) -> Rect {
        self.bounds
    }

    /// The source pixel size.
    pub closed spec fn spec_source_size(self) -> (i32, i32) {
        self.source_size
    }

    /// The virtual top of the page.
    pub closed spec fn spec_top(self) -> int {
        self.top as int
    }

    /// The virtual height of the page.
    pub closed spec fn spec_height(self) -> int {
        self.height as int
    }

    /// The virtual bottom of the page (`top + height`, saturating).
    pub open spec fn spec_bottom(self) -> int {
        spec_saturating_add(self.spec_top(), self.spec_height())
    }

    /// An entry with the given geometry.
    pub closed spec fn make(page: usize, source_size: (i32, i32), bounds: Rect, top: int, height: int) -> PageEntry {
        PageEntry { page, source_size, bounds, top: top as i64, height: height as i64 }
    }

    pub proof fn lemma_make(page: usize, source_size: (i32, i32), bounds: Rect, top: int, height: int)
        requires
            0 <= top <= i64::MAX,
            0 <= height <= i64::MAX,
        ensures
            ({
                let e = PageEntry::make(page, source_size, bounds, top, height);
                &&& e.spec_page() == page
                &&& e.spec_source_size() == source_size
                &&& e.spec_bounds() == bounds
                &&& e.spec_top() == top
                &&& e.spec_height() == height
            }),
    {
    }

    /// The page number (the `page` field).
    pub fn page(&self) -> (r: usize)
        ensures
            r == self.spec_page(),
    {
        self.page
    }

    /// The output rectangle (the `bounds` field).
    pub fn bounds(&self) -> (r: Rect)
        ensures
            r == self.spec_bounds(),
    {
        self.bounds
    }

    /// The source pixel size (the `source_size` field).
    pub fn source_size(&self) -> (r: (i32, i32))
        ensures
            r == self.spec_source_size(),
    {
        self.source_size
    }

    pub fn top(&self) -> (r: i64)
        ensures
            r == self.spec_top(),
    {
        self.top
    }

    pub fn height(&self) -> (r: i64)
        ensures
            r == self.spec_height(),
    {
        self.height
    }

    pub fn bottom(&self) -> (r: i64)
        ensures
            r == self.spec_bottom(),
    {
        saturating_add(self.top, self.height)
    }
}

/// Whether a source page has a usable pixel size.
pub open spec fn source_valid(source: SourcePage) -> bool {
    source.source_size.0 > 0 && source.source_size.1 > 0
}

/// The height a source page takes in the strip.
pub open spec fn spec_entry_height(source: SourcePage, content_width: i32, preserve: bool) -> int {
    if preserve {
        if source_valid(source) {
            source.source_size.1 as int
        } else {
            0
        }
    } else {
        spec_scaled_height(content_width as int, source.source_size)
    }
}

/// The width a source page is drawn at.
pub open spec fn spec_rendered_width(source: SourcePage, content_width: i32, preserve: bool) -> int {
    if source_valid(source) {
        if preserve {
            source.source_size.0 as int
        } else {
            content_width as int
        }
    } else {
        0
    }
}

/// The left edge a source page is drawn at (centered when it keeps its
/// native width, never left of zero).
pub open spec fn spec_entry_left(source: SourcePage, content_width: i32, preserve: bool) -> int {
    if preserve {
        max_int(trunc_div(content_width - spec_rendered_width(source, content_width, preserve), 2), 0)
    } else {
        0
    }
}

/// The virtual top of the `i`-th page: the saturating sum of the heights
/// above it.
pub open spec fn spec_top_of(sources: Seq<SourcePage>, content_width: i32, preserve: bool, i: nat) -> int
    decreases i,
{
    if i == 0 {
        0
    } else {
        spec_saturating_add(
            spec_top_of(sources, content_width, preserve, (i - 1) as nat),
            spec_entry_height(sources[i - 1], content_width, preserve),
        )
    }
}

/// The strip entry of a source page at a given top.
pub open spec fn spec_entry(source: SourcePage, content_width: i32, preserve: bool, top: int) -> PageEntry {
    let height = spec_entry_height(source, content_width, preserve);
    PageEntry::make(
        source.page,
        source.source_size,
        spec_to_rectangle(
            spec_entry_left(source, content_width, preserve) as i32,
            top,
            spec_rendered_width(source, content_width, preserve) as i32,
            height,
        ),
        top,
        height,
    )
}

/// The effective content width: at least one pixel.
pub open spec fn spec_content_width(content_width: i32) -> i32 {
    if content_width >= 1 {
        content_width
    } else {
        1
    }
}

/// The entries of the strip built from `sources`.
pub open spec fn spec_layout_pages(sources: Seq<SourcePage>, content_width: i32, preserve: bool) -> Seq<
    PageEntry,
> {
    let cw = spec_content_width(content_width);
    Seq::new(sources.len(), |i: int| spec_entry(sources[i], cw, preserve, spec_top_of(sources, cw, preserve, i as nat)))
}

/// Whether a strip entry intersects the viewport (half-open intervals;
/// entries without area never do).
pub open spec fn spec_visible(e: PageEntry, viewport: Rect) -> bool {
    let left = viewport.x as int;
    let right = spec_saturating_add(left, viewport.w as int);
    let right32 = if right > i32::MAX {
        i32::MAX as int
    } else {
        right
    };
    let top = viewport.y as int;
    let bottom = spec_saturating_add(top, viewport.h as int);
    &&& e.spec_bounds().w > 0
    &&& e.spec_height() > 0
    &&& e.spec_bounds().x < right32
    &&& e.spec_bounds().spec_right() > left
    &&& e.spec_top() < bottom
    &&& e.spec_bottom() > top
}

/// The visible entries among the first `n`, in strip order.
pub open spec fn spec_visible_prefix(pages: Seq<PageEntry>, viewport: Rect, n: nat) -> Seq<PageEntry>
    decreases n,
{
    if n == 0 {
        Seq::empty()
    } else {
        let rest = spec_visible_prefix(pages, viewport, (n - 1) as nat);
        if spec_visible(pages[n - 1], viewport) {
            rest.push(pages[n - 1])
        } else {
            rest
        }
    }
}

/// The strip geometry: pages stacked top to bottom with no spacing.
#[derive(Debug)]
pub struct ContinuousPageLayout {
    pages: Vec<PageEntry>,
    content_width: i32,
    total_height: i64,
}

/// The chain of entries: the first starts at zero and each starts where
/// the previous one ends.
pub open spec fn entries_chained(pages: Seq<PageEntry>) -> bool {
    &&& pages.len() > 0 ==> pages[0].spec_top() == 0
    &&& forall|i: int| #![trigger pages[i]] 0 <= i < pages.len() ==> {
        &&& pages[i].spec_top() >= 0
        &&& pages[i].spec_height() >= 0
        &&& pages[i].spec_bounds().x >= 0
        &&& pages[i].spec_bounds().w >= 0
        &&& pages[i].spec_bounds().edges_fit()
    }
    &&& forall|i: int| #![trigger pages[i]] 0 < i < pages.len() ==> pages[i].spec_top() == pages[i - 1].spec_bottom()
}

/// The height of a chain of entries.
pub open spec fn chain_height(pages: Seq<PageEntry>) -> int {
    if pages.len() == 0 {
        0
    } else {
        pages[pages.len() - 1].spec_bottom()
    }
}

/// Entries later in a chain never start before earlier ones end.
pub proof fn lemma_chain_ordered(pages: Seq<PageEntry>, i: int, j: int)
    requires
        entries_chained(pages),
        0 <= i < j < pages.len(),
    ensures
        pages[i].spec_bottom() <= pages[j].spec_top(),
        pages[i].spec_top() <= pages[j].spec_top(),
        pages[i].spec_bottom() <= pages[j].spec_bottom(),
    decreases j - i,
{
    let pj = pages[j];
    let pjm = pages[j - 1];
    assert(pj.spec_top() == pjm.spec_bottom());
    if i < j - 1 {
        lemma_chain_ordered(pages, i, j - 1);
    }
}

/// A coordinate inside a chain of positive height lies in exactly one
/// entry's `[top, bottom)` interval.
pub proof fn lemma_chain_covers(pages: Seq<PageEntry>, c: int) -> (k: int)
    requires
        entries_chained(pages),
        pages.len() > 0,
        0 <= c < chain_height(pages),
    ensures
        0 <= k < pages.len(),
        pages[k].spec_top() <= c < pages[k].spec_bottom(),
    decreases pages.len(),
{
    let n = pages.len();
    let last = pages[n - 1];
    if c >= last.spec_top() {
        n - 1
    } else {
        let prefix = pages.subrange(0, n - 1);
        assert(entries_chained(prefix)) by {
            assert forall|i: int| 0 < i < prefix.len() implies #[trigger] prefix[i].spec_top()
                == prefix[i - 1].spec_bottom() by {
                assert(prefix[i] == pages[i]);
                assert(pages[i].spec_top() == pages[i - 1].spec_bottom());
            }
            assert forall|i: int| 0 <= i < prefix.len() implies {
                &&& (#[trigger] prefix[i]).spec_top() >= 0
                &&& prefix[i].spec_height() >= 0
                &&& prefix[i].spec_bounds().x >= 0
                &&& prefix[i].spec_bounds().w >= 0
                &&& prefix[i].spec_bounds().edges_fit()
            } by {
                assert(prefix[i] == pages[i]);
            }
        }
        assert(n > 1);
        assert(last.spec_top() == pages[n - 2].spec_bottom());
        assert(chain_height(prefix) == pages[n - 2].spec_bottom());
        let k = lemma_chain_covers(prefix, c);
        assert(prefix[k] == pages[k]);
        k
    }
}

/// In a chain, the positive-height interval that holds a coordinate is
/// unique.
pub proof fn lemma_chain_unique(pages: Seq<PageEntry>, c: int, a: int, b: int)
    requires
        entries_chained(pages),
        0 <= a < pages.len(),
        0 <= b < pages.len(),
        pages[a].spec_top() <= c < pages[a].spec_bottom(),
        pages[b].spec_top() <= c < pages[b].spec_bottom(),
    ensures
        a == b,
{
    if a < b {
        lemma_chain_ordered(pages, a, b);
    } else if b < a {
        lemma_chain_ordered(pages, b, a);
    }
}

/// `left + right`, stopping at the `i64` bounds.
pub fn saturating_add(left: i64, right: i64) -> (r: i64)
    ensures
        r == spec_saturating_add(left as int, right as int),
{
    if right > 0 && left > i64::MAX - right {
        i64::MAX
    } else if right < 0 && left < i64::MIN - right {
        i64::MIN
    } else {
        left + right
    }
}

/// `left * right` for positive operands, stopping at `i64::MAX`; zero when
/// either operand is not positive.
pub fn saturating_multiply(left: i64, right: i64) -> (r: i64)
    ensures
        r == spec_saturating_multiply(left as int, right as int),
{
    if left <= 0 || right <= 0 {
        return 0;
    }
    if left > i64::MAX / right {
        proof {
            let q = i64::MAX / right;
            assert(left * right > i64::MAX) by (nonlinear_arith)
                requires
                    right > 0,
                    left > q,
                    q == i64::MAX / right,
            ;
        }
        return i64::MAX;
    }
    proof {
        let q = i64::MAX / right;
        assert(left * right <= i64::MAX) by (nonlinear_arith)
            requires
                right > 0,
                left <= q,
                q == i64::MAX / right,
        ;
    }
    left * right
}

/// `value` clamped into `[0, i32::MAX]`.
pub fn clamp_to_i32(value: i64) -> (r: i32)
    ensures
        r == spec_clamp_to_i32(value as int),
{
    if value <= 0 {
        0
    } else if value > i32::MAX as i64 {
        i32::MAX
    } else {
        value as i32
    }
}

/// `width * h / w` rounded half up, at least one pixel; zero for a page
/// without a usable size.
pub fn scaled_height(width: i32, source_size: (i32, i32)) -> (r: i64)
    ensures
        r == spec_scaled_height(width as int, source_size),
        r >= 0,
{
    if source_size.0 <= 0 || source_size.1 <= 0 {
        return 0;
    }
    let numerator = saturating_multiply(width as i64, source_size.1 as i64);
    let rounded = saturating_add(numerator, (source_size.0 / 2) as i64);
    let height = rounded / (source_size.0 as i64);
    if height > 0 {
        height
    } else {
        1
    }
}

/// The output rectangle of a strip entry, clipped to `i32`.
pub fn to_rectangle(left: i32, top: i64, width: i32, height: i64) -> (r: Rect)
    ensures
        r == spec_to_rectangle(left, top as int, width, height as int),
{
    let y = clamp_to_i32(top);
    let available: i64 = i32::MAX as i64 - y as i64;
    let clipped = if height <= available {
        height
    } else {
        available
    };
    Rect::new(left, y, width, clamp_to_i32(clipped))
}

/// `|left - right|` for page numbers.
pub fn distance(left: usize, right: usize) -> (r: i64)
    requires
        left <= i64::MAX,
        right <= i64::MAX,
    ensures
        r == spec_distance(left as int, right as int),
{
    let l = left as i64;
    let r = right as i64;
    if l >= r {
        l - r
    } else {
        r - l
    }
}

impl ContinuousPageLayout {
    #[verifier::type_invariant]
    spec fn inv(self) -> bool {
        &&& self.content_width >= 1
        &&& entries_chained(self.pages@)
        &&& self.total_height == chain_height(self.pages@)
    }

    /// The entries, top to bottom.
    pub closed spec fn entries(self) -> Seq<PageEntry> {
        self.pages@
    }

    /// The width every page is laid out against.
    pub closed spec fn spec_content_width(self) -> int {
        self.content_width as int
    }

    /// The full virtual height.
    pub closed spec fn spec_total_height(self) -> int {
        self.total_height as int
    }

    /// Stacks the pages with no spacing. With `preserve_source_size` pages
    /// keep their native width and are centered in `content_width`;
    /// otherwise they are scaled to `content_width` (at least one pixel).
    #[verifier::spinoff_prover]
    #[verifier::rlimit(40)]
    pub fn new(source_pages: &[SourcePage], content_width: i32, preserve_source_size: bool) -> (r:
        ContinuousPageLayout)
        ensures
            r.entries() == spec_layout_pages(source_pages@, content_width, preserve_source_size),
            r.spec_content_width() == spec_content_width(content_width),
            r.spec_total_height() == spec_top_of(
                source_pages@,
                spec_content_width(content_width),
                preserve_source_size,
                source_pages@.len(),
            ),
    {
        let content_width = if content_width >= 1 {
            content_width
        } else {
            1
        };
        let ghost srcs = source_pages@;
        let ghost cw = content_width;
        let ghost preserve = preserve_source_size;
        let mut pages: Vec<PageEntry> = Vec::new();
        let mut top: i64 = 0;
        let mut i: usize = 0;
        while i < source_pages.len()
            invariant
                srcs == source_pages@,
                cw == content_width,
                content_width >= 1,
                preserve == preserve_source_size,
                i <= srcs.len(),
                pages@.len() == i,
                top as int == spec_top_of(srcs, cw, preserve, i as nat),
                top >= 0,
                forall|k: int| #![trigger pages@[k]] 0 <= k < i ==> pages@[k] == spec_entry(
                    srcs[k],
                    cw,
                    preserve,
                    spec_top_of(srcs, cw, preserve, k as nat),
                ),
                entries_chained(pages@),
                i > 0 ==> pages@[i - 1].spec_bottom() == top,
                i == 0 ==> top == 0,
            decreases srcs.len() - i,
        {
            let source = source_pages[i];
            let valid = source.source_size.0 > 0 && source.source_size.1 > 0;
            let rendered_width = if valid {
                if preserve_source_size {
                    source.source_size.0
                } else {
                    content_width
                }
            } else {
                0
            };
            let height: i64 = if preserve_source_size {
                if valid {
                    source.source_size.1 as i64
                } else {
                    0
                }
            } else {
                scaled_height(content_width, source.source_size)
            };
            let left = if preserve_source_size {
                let half = div_i32(content_width - rendered_width, 2);
                if half >= 0 {
                    half
                } else {
                    0
                }
            } else {
                0
            };
            let bounds = to_rectangle(left, top, rendered_width, height);
            proof {
                PageEntry::lemma_make(source.page, source.source_size, bounds, top as int, height as int);
                if preserve_source_size {
                    if rendered_width <= content_width {
                        assert(trunc_div(content_width - rendered_width, 2) <= content_width - rendered_width);
                    } else {
                        assert(trunc_div(content_width - rendered_width, 2) <= 0);
                    }
                }
                assert(bounds.x + bounds.w <= i32::MAX);
                assert(bounds.y + bounds.h <= i32::MAX);
            }
            let entry = PageEntry {
                page: source.page,
                source_size: source.source_size,
                bounds,
                top,
                height,
            };
            assert(entry == spec_entry(srcs[i as int], cw, preserve, top as int));
            let ghost old_pages = pages@;
            pages.push(entry);
            proof {
                assert forall|k: int| #![trigger pages@[k]] 0 < k < pages@.len() implies pages@[k].spec_top()
                    == pages@[k - 1].spec_bottom() by {
                    if k < i {
                        assert(pages@[k] == old_pages[k]);
                        assert(pages@[k - 1] == old_pages[k - 1]);
                    } else {
                        assert(pages@[k - 1] == old_pages[k - 1]);
                    }
                }
                assert forall|k: int| 0 <= k < pages@.len() implies {
                    &&& (#[trigger] pages@[k]).spec_top() >= 0
                    &&& pages@[k].spec_height() >= 0
                    &&& pages@[k].spec_bounds().x >= 0
                    &&& pages@[k].spec_bounds().w >= 0
                    &&& pages@[k].spec_bounds().edges_fit()
                } by {
                    if k < i {
                        assert(pages@[k] == old_pages[k]);
                    }
                }
            }
            top = saturating_add(top, height);
            i = i + 1;
        }
        proof {
            assert(pages@ =~= spec_layout_pages(source_pages@, content_width, preserve_source_size));
        }
        ContinuousPageLayout { pages, content_width, total_height: top }
    }

    /// The full virtual height (it may exceed `i32::MAX`).
    pub fn total_height(&self) -> (r: i64)
        ensures
            r == self.spec_total_height(),
    {
        self.total_height
    }

    /// The strip's width and its height clipped to `i32`.
    pub fn total_size(&self) -> (r: (i32, i32))
        ensures
            r.0 == self.spec_content_width(),
            r.1 == spec_clamp_to_i32(self.spec_total_height()),
    {
        (self.content_width, clamp_to_i32(self.total_height))
    }

    pub fn pages(&self) -> (r: &[PageEntry])
        ensures
            r@ == self.entries(),
            entries_chained(r@),
            self.spec_total_height() == chain_height(r@),
            self.spec_content_width() >= 1,
    {
        proof {
            use_type_invariant(self);
        }
        self.pages.as_slice()
    }

    /// The pages that intersect `viewport`, in strip order.
    pub fn get_visible(&self, viewport: &Rect) -> (r: Vec<&PageEntry>)
        ensures
            ({
                let empty_view = self.entries().len() == 0 || viewport.w <= 0 || viewport.h <= 0
                    || viewport.x + viewport.w <= 0 || viewport.x >= self.spec_content_width();
                let expected = if empty_view {
                    Seq::<PageEntry>::empty()
                } else {
                    spec_visible_prefix(self.entries(), *viewport, self.entries().len())
                };
                &&& r@.len() == expected.len()
                &&& forall|k: int| 0 <= k < r@.len() ==> *(#[trigger] r@[k]) == expected[k]
            }),
    {
        proof {
            use_type_invariant(self);
        }
        let mut result: Vec<&PageEntry> = Vec::new();
        if self.pages.len() == 0 || viewport.w <= 0 || viewport.h <= 0 {
            return result;
        }
        let viewport_left = viewport.x as i64;
        let viewport_right = saturating_add(viewport_left, viewport.w as i64);
        if viewport_right <= 0 || viewport_left >= self.content_width as i64 {
            return result;
        }
        let viewport_top = viewport.y as i64;
        let viewport_bottom = saturating_add(viewport_top, viewport.h as i64);
        let ghost pages = self.pages@;
        let ghost vp = *viewport;
        let mut low: usize = 0;
        let mut high: usize = self.pages.len();
        while low < high
            invariant
                pages == self.pages@,
                entries_chained(pages),
                low <= high <= pages.len(),
                forall|k: int| 0 <= k < low ==> (#[trigger] pages[k]).spec_bottom() <= viewport_top,
                forall|k: int| high <= k < pages.len() ==> (#[trigger] pages[k]).spec_bottom() > viewport_top,
            decreases high - low,
        {
            let middle = low + (high - low) / 2;
            if self.pages[middle].bottom() <= viewport_top {
                proof {
                    assert forall|k: int| 0 <= k < middle + 1 implies (#[trigger] pages[k]).spec_bottom()
                        <= viewport_top by {
                        if k < middle {
                            lemma_chain_ordered(pages, k, middle as int);
                        }
                    }
                }
                low = middle + 1;
            } else {
                proof {
                    assert forall|k: int| middle <= k < pages.len() implies (#[trigger] pages[k]).spec_bottom()
                        > viewport_top by {
                        if k > middle {
                            lemma_chain_ordered(pages, middle as int, k);
                        }
                    }
                }
                high = middle;
            }
        }
        proof {
            assert(spec_visible_prefix(pages, vp, low as nat) =~= Seq::empty()) by {
                lemma_prefix_unchanged(pages, vp, 0, low as nat);
            }
        }
        let right32: i32 = if viewport_right > i32::MAX as i64 {
            i32::MAX
        } else {
            viewport_right as i32
        };
        let left32: i32 = viewport.x;
        let mut i: usize = low;
        while i < self.pages.len()
            invariant
                pages == self.pages@,
                entries_chained(pages),
                low <= i <= pages.len(),
                vp == *viewport,
                viewport_left == vp.x,
                viewport_right == spec_saturating_add(vp.x as int, vp.w as int),
                viewport_top == vp.y,
                viewport_bottom == spec_saturating_add(vp.y as int, vp.h as int),
                right32 == (if viewport_right > i32::MAX {
                    i32::MAX as int
                } else {
                    viewport_right as int
                }),
                left32 == vp.x,
                result@.len() == spec_visible_prefix(pages, vp, i as nat).len(),
                forall|k: int| 0 <= k < result@.len() ==> *(#[trigger] result@[k]) == spec_visible_prefix(
                    pages,
                    vp,
                    i as nat,
                )[k],
            ensures
                result@.len() == spec_visible_prefix(pages, vp, pages.len()).len(),
                forall|k: int| 0 <= k < result@.len() ==> *(#[trigger] result@[k]) == spec_visible_prefix(
                    pages,
                    vp,
                    pages.len(),
                )[k],
            decreases pages.len() - i,
        {
            let page = &self.pages[i];
            if page.top() >= viewport_bottom {
                proof {
                    assert forall|k: int| i <= k < pages.len() implies !spec_visible(#[trigger] pages[k], vp) by {
                        if k > i {
                            lemma_chain_ordered(pages, i as int, k);
                        }
                    }
                    lemma_prefix_unchanged(pages, vp, i as nat, pages.len());
                }
                break;
            }
            let ghost before = spec_visible_prefix(pages, vp, i as nat);
            if page.bounds.w <= 0 || page.height() <= 0 {
                i = i + 1;
                assert(spec_visible_prefix(pages, vp, i as nat) == before);
                continue;
            }
            if page.bounds.x < right32 && page.bounds.right() > left32 && page.top() < viewport_bottom
                && page.bottom() > viewport_top {
                result.push(page);
                i = i + 1;
                assert(spec_visible_prefix(pages, vp, i as nat) == before.push(pages[i - 1]));
            } else {
                i = i + 1;
                assert(spec_visible_prefix(pages, vp, i as nat) == before);
            }
        }
        result
    }

    /// The index of the entry that holds `y` once it is clamped into the
    /// strip.
    pub closed spec fn spec_hit_index(self, y: int) -> int {
        if self.total_height <= 0 {
            0
        } else {
            let c = clamp_int(y, 0, self.total_height - 1);
            choose|k: int|
                0 <= k < self.pages@.len() && (#[trigger] self.pages@[k]).spec_top() <= c < self.pages@[k].spec_bottom()
        }
    }

    /// The page under the virtual coordinate `y`, clamped into the strip.
    pub fn hit_test(&self, y: i64) -> (r: Option<&PageEntry>)
        ensures
            self.entries().len() == 0 ==> r.is_none(),
            self.entries().len() > 0 ==> {
                &&& r.is_some()
                &&& 0 <= self.spec_hit_index(y as int) < self.entries().len()
                &&& *r.unwrap() == self.entries()[self.spec_hit_index(y as int)]
            },
            self.entries().len() > 0 && self.spec_total_height() > 0 ==> {
                let c = clamp_int(y as int, 0, self.spec_total_height() - 1);
                let e = self.entries()[self.spec_hit_index(y as int)];
                e.spec_top() <= c < e.spec_bottom()
            },
    {
        proof {
            use_type_invariant(self);
        }
        if self.pages.len() == 0 {
            return None;
        }
        if self.total_height <= 0 {
            return Some(&self.pages[0]);
        }
        let ghost pages = self.pages@;
        let coordinate: i64 = if y < 0 {
            0
        } else if y > self.total_height - 1 {
            self.total_height - 1
        } else {
            y
        };
        let ghost target = lemma_chain_covers(pages, coordinate as int);
        proof {
            assert forall|k: int|
                0 <= k < pages.len() && (#[trigger] pages[k]).spec_top() <= coordinate < pages[k].spec_bottom() implies k
                == target by {
                lemma_chain_unique(pages, coordinate as int, k, target);
            }
            assert(self.spec_hit_index(y as int) == target);
        }
        let mut low: usize = 0;
        let mut high: usize = self.pages.len();
        while low < high
            invariant
                pages == self.pages@,
                entries_chained(pages),
                0 <= target < pages.len(),
                pages[target].spec_top() <= coordinate < pages[target].spec_bottom(),
                0 <= low <= target < high <= pages.len(),
                self.spec_hit_index(y as int) == target,
                coordinate == clamp_int(y as int, 0, self.spec_total_height() - 1),
                self.entries() == pages,
            decreases high - low,
        {
            let middle = low + (high - low) / 2;
            let page = &self.pages[middle];
            proof {
                lemma_search_step(pages, coordinate as int, target, middle as int);
            }
            if coordinate < page.top() {
                high = middle;
            } else if coordinate >= page.bottom() || page.height() <= 0 {
                low = middle + 1;
            } else {
                return Some(page);
            }
        }
        // The search above always finds the entry: the chain covers every
        // coordinate below its height.
        proof {
            assert(false);
        }
        self.pages.last()
    }

    /// The index of the first entry showing `page_number`, or, when none
    /// does, of the first entry with the nearest page number.
    pub closed spec fn spec_find_index(self, page_number: int) -> int {
        let pages = self.pages@;
        if exists|k: int| 0 <= k < pages.len() && (#[trigger] pages[k]).page == page_number {
            choose|k: int|
                0 <= k < pages.len() && (#[trigger] pages[k]).page == page_number && forall|j: int|
                    0 <= j < k ==> (#[trigger] pages[j]).page != page_number
        } else {
            choose|k: int| is_nearest_page(pages, k, page_number)
        }
    }

    /// The entry showing `page_number`; the one with the nearest page
    /// number stands in for a missing page.
    pub fn find_page(&self, page_number: usize) -> (r: &PageEntry)
        requires
            self.entries().len() > 0,
            page_number <= i64::MAX,
            forall|k: int| 0 <= k < self.entries().len() ==> (#[trigger] self.entries()[k]).spec_page() <= i64::MAX,
        ensures
            0 <= self.spec_find_index(page_number as int) < self.entries().len(),
            *r == self.entries()[self.spec_find_index(page_number as int)],
            (exists|k: int| 0 <= k < self.entries().len() && self.entries()[k].spec_page() == page_number)
                ==> r.spec_page() == page_number,
            (exists|k: int| 0 <= k < self.entries().len() && self.entries()[k].spec_page() == page_number)
                ==> forall|j: int|
                0 <= j < self.spec_find_index(page_number as int) ==> (#[trigger] self.entries()[j]).spec_page()
                    != page_number,
            !(exists|k: int| 0 <= k < self.entries().len() && self.entries()[k].spec_page() == page_number)
                ==> is_nearest_page(self.entries(), self.spec_find_index(page_number as int), page_number as int),
    {
        let ghost pages = self.pages@;
        let mut i: usize = 0;
        while i < self.pages.len()
            invariant
                pages == self.pages@,
                i <= pages.len(),
                forall|j: int| 0 <= j < i ==> (#[trigger] pages[j]).page != page_number,
            decreases pages.len() - i,
        {
            if self.pages[i].page == page_number {
                proof {
                    assert(pages[i as int].page == page_number);
                    let k = i as int;
                    assert(forall|j: int| 0 <= j < k ==> pages[j].page != page_number);
                    let chosen = self.spec_find_index(page_number as int);
                    assert(0 <= chosen < pages.len() && pages[chosen].page == page_number);
                    if chosen < k {
                        assert(pages[chosen].page != page_number);
                    }
                    if k < chosen {
                        assert(pages[k].page != page_number);
                    }
                }
                return &self.pages[i];
            }
            i = i + 1;
        }
        let mut nearest: usize = 0;
        let mut best = distance(self.pages[0].page, page_number);
        let mut j: usize = 1;
        while j < self.pages.len()
            invariant
                pages == self.pages@,
                pages.len() > 0,
                forall|k: int| 0 <= k < pages.len() ==> (#[trigger] pages[k]).page <= i64::MAX,
                page_number <= i64::MAX,
                1 <= j <= pages.len(),
                0 <= nearest < j,
                best == spec_distance(pages[nearest as int].page as int, page_number as int),
                forall|k: int| 0 <= k < j ==> spec_distance((#[trigger] pages[k]).page as int, page_number as int) >= best,
                forall|k: int| 0 <= k < nearest ==> spec_distance((#[trigger] pages[k]).page as int, page_number as int) > best,
            decreases pages.len() - j,
        {
            let candidate_distance = distance(self.pages[j].page, page_number);
            if candidate_distance < best {
                nearest = j;
                best = candidate_distance;
            }
            j = j + 1;
        }
        proof {
            assert(!exists|k: int| 0 <= k < pages.len() && pages[k].page == page_number);
            let chosen = self.spec_find_index(page_number as int);
            let n = nearest as int;
            assert(is_nearest_page(pages, n, page_number as int));
            assert(is_nearest_page(pages, chosen, page_number as int));
            if chosen < n {
                assert(spec_distance(pages[chosen].page as int, page_number as int) > best);
            }
            if n < chosen {
                assert(spec_distance(pages[n].page as int, page_number as int) > spec_distance(
                    pages[chosen].page as int,
                    page_number as int,
                ));
            }
        }
        &self.pages[nearest]
    }
}

/// Entry `k` has a page number nearest to `page_number`, and no earlier
/// entry is as near.
pub open spec fn is_nearest_page(pages: Seq<PageEntry>, k: int, page_number: int) -> bool {
    &&& 0 <= k < pages.len()
    &&& forall|j: int|
        0 <= j < pages.len() ==> spec_distance((#[trigger] pages[j]).spec_page() as int, page_number) >= spec_distance(
            pages[k].spec_page() as int,
            page_number,
        )
    &&& forall|j: int|
        0 <= j < k ==> spec_distance((#[trigger] pages[j]).spec_page() as int, page_number) > spec_distance(
            pages[k].spec_page() as int,
            page_number,
        )
}

/// One step of the binary search for the entry that holds `c`.
pub proof fn lemma_search_step(pages: Seq<PageEntry>, c: int, target: int, middle: int)
    requires
        entries_chained(pages),
        0 <= target < pages.len(),
        0 <= middle < pages.len(),
        pages[target].spec_top() <= c < pages[target].spec_bottom(),
    ensures
        c < pages[middle].spec_top() ==> target < middle,
        c >= pages[middle].spec_top() && (c >= pages[middle].spec_bottom() || pages[middle].spec_height() <= 0)
            ==> target > middle,
        c >= pages[middle].spec_top() && c < pages[middle].spec_bottom() && pages[middle].spec_height() > 0
            ==> target == middle,
{
    if target > middle {
        lemma_chain_ordered(pages, middle, target);
    } else if target < middle {
        lemma_chain_ordered(pages, target, middle);
    } else {
    }
    if c >= pages[middle].spec_top() && pages[middle].spec_height() <= 0 {
        assert(pages[middle].spec_bottom() == pages[middle].spec_top());
    }
}

/// Entries that are not visible leave the visible prefix unchanged.
pub proof fn lemma_prefix_unchanged(pages: Seq<PageEntry>, vp: Rect, a: nat, b: nat)
    requires
        a <= b <= pages.len(),
        forall|k: int| a <= k < b ==> !spec_visible(#[trigger] pages[k], vp),
    ensures
        spec_visible_prefix(pages, vp, b) == spec_visible_prefix(pages, vp, a),
    decreases b - a,
{
    if a < b {
        lemma_prefix_unchanged(pages, vp, a, (b - 1) as nat);
        assert(!spec_visible(pages[b - 1], vp));
    }
}

/// The strip stacks its pages with no gaps and no overlap: the first page
/// starts at zero, each page starts where the previous one ends, and the
/// strip's height is where the last one ends.
pub proof fn law_strip_is_gapless(sources: Seq<SourcePage>, content_width: i32, preserve: bool)
    ensures
        ({
            let pages = spec_layout_pages(sources, content_width, preserve);
            let cw = spec_content_width(content_width);
            &&& pages.len() == sources.len()
            &&& pages.len() > 0 ==> pages[0].spec_top() == 0
            &&& forall|i: int| 0 < i < pages.len() ==> (#[trigger] pages[i]).spec_top() == pages[i - 1].spec_bottom()
            &&& forall|i: int| 0 <= i < pages.len() ==> (#[trigger] pages[i]).spec_page() == sources[i].page
            &&& pages.len() > 0 ==> pages[pages.len() - 1].spec_bottom() == spec_top_of(
                sources,
                cw,
                preserve,
                sources.len(),
            )
        }),
{
    let pages = spec_layout_pages(sources, content_width, preserve);
    let cw = spec_content_width(content_width);
    assert forall|i: int| 0 <= i < pages.len() implies {
        &&& (#[trigger] pages[i]).spec_top() == spec_top_of(sources, cw, preserve, i as nat)
        &&& pages[i].spec_height() == spec_entry_height(sources[i], cw, preserve)
        &&& pages[i].spec_page() == sources[i].page
    } by {
        lemma_top_in_range(sources, cw, preserve, i as nat);
        lemma_entry_height_in_range(sources[i], cw, preserve);
        PageEntry::lemma_make(
            sources[i].page,
            sources[i].source_size,
            spec_to_rectangle(
                spec_entry_left(sources[i], cw, preserve) as i32,
                spec_top_of(sources, cw, preserve, i as nat),
                spec_rendered_width(sources[i], cw, preserve) as i32,
                spec_entry_height(sources[i], cw, preserve),
            ),
            spec_top_of(sources, cw, preserve, i as nat),
            spec_entry_height(sources[i], cw, preserve),
        );
    }
    assert forall|i: int| 0 < i < pages.len() implies (#[trigger] pages[i]).spec_top() == pages[i
        - 1].spec_bottom() by {
        assert(pages[i - 1].spec_top() == spec_top_of(sources, cw, preserve, (i - 1) as nat));
    }
}

/// The running top of the strip stays in `[0, i64::MAX]`.
proof fn lemma_top_in_range(sources: Seq<SourcePage>, cw: i32, preserve: bool, i: nat)
    requires
        i <= sources.len(),
        cw >= 1,
    ensures
        0 <= spec_top_of(sources, cw, preserve, i) <= i64::MAX,
    decreases i,
{
    if i > 0 {
        lemma_top_in_range(sources, cw, preserve, (i - 1) as nat);
        lemma_entry_height_in_range(sources[i - 1], cw, preserve);
    }
}

/// A page's height in the strip stays in `[0, i64::MAX]`.
proof fn lemma_entry_height_in_range(source: SourcePage, cw: i32, preserve: bool)
    requires
        cw >= 1,
    ensures
        0 <= spec_entry_height(source, cw, preserve) <= i64::MAX,
{
    if !preserve && source_valid(source) {
        let numerator = spec_saturating_multiply(cw as int, source.source_size.1 as int);
        let rounded = spec_saturating_add(numerator, (source.source_size.0 / 2) as int);
        assert(rounded >= 0);
        assert(rounded / (source.source_size.0 as int) <= rounded) by (nonlinear_arith)
            requires
                rounded >= 0,
                source.source_size.0 >= 1,
        ;
    }
}

} // verus!
