//! The reader's display state and the decisions its commands make:
//! rotation steps, layout cycling, page steps, part navigation, the
//! scroll wall and the decode window around the current page.

use vstd::prelude::*;

use crate::display::DisplayOutput;
use crate::geometry::{
    clamp_int, div_i32, fits_i32, max_int, trunc_div, ImageFitMode, ImagePartInfo, PartPageToDisplay, Rect, RtlReadingMode,
};

verus! {

/// A page rotation in quarter turns (clockwise).
#[derive(Clone, Copy, Debug, PartialEq, Eq, Structural)]
pub enum ImageRotation {
    NoRotation,
    Rotate90,
    Rotate180,
    Rotate270,
}

impl Default for ImageRotation {
    fn default() -> (r: ImageRotation)
        ensures
            r == ImageRotation::NoRotation,
    {
        ImageRotation::NoRotation
    }
}

/// The clockwise quarter turns of a rotation (0 to 3).
pub open spec fn quarter_turns(r: ImageRotation) -> int {
    match r {
        ImageRotation::NoRotation => 0,
        ImageRotation::Rotate90 => 1,
        ImageRotation::Rotate180 => 2,
        ImageRotation::Rotate270 => 3,
    }
}

/// The rotation one quarter turn counterclockwise.
pub open spec fn spec_rotate_left(r: ImageRotation) -> ImageRotation {
    match r {
        ImageRotation::NoRotation => ImageRotation::Rotate270,
        ImageRotation::Rotate90 => ImageRotation::NoRotation,
        ImageRotation::Rotate180 => ImageRotation::Rotate90,
        ImageRotation::Rotate270 => ImageRotation::Rotate180,
    }
}

/// The rotation one quarter turn clockwise.
pub open spec fn spec_rotate_right(r: ImageRotation) -> ImageRotation {
    match r {
        ImageRotation::NoRotation => ImageRotation::Rotate90,
        ImageRotation::Rotate90 => ImageRotation::Rotate180,
        ImageRotation::Rotate180 => ImageRotation::Rotate270,
        ImageRotation::Rotate270 => ImageRotation::NoRotation,
    }
}

/// The rotation one quarter turn counterclockwise.
pub fn rotate_left(r: ImageRotation) -> (out: ImageRotation)
    ensures
        out == spec_rotate_left(r),
        quarter_turns(out) == (quarter_turns(r) + 3) % 4,
{
    match r {
        ImageRotation::NoRotation => ImageRotation::Rotate270,
        ImageRotation::Rotate90 => ImageRotation::NoRotation,
        ImageRotation::Rotate180 => ImageRotation::Rotate90,
        ImageRotation::Rotate270 => ImageRotation::Rotate180,
    }
}

/// The rotation one quarter turn clockwise.
pub fn rotate_right(r: ImageRotation) -> (out: ImageRotation)
    ensures
        out == spec_rotate_right(r),
        quarter_turns(out) == (quarter_turns(r) + 1) % 4,
{
    match r {
        ImageRotation::NoRotation => ImageRotation::Rotate90,
        ImageRotation::Rotate90 => ImageRotation::Rotate180,
        ImageRotation::Rotate180 => ImageRotation::Rotate270,
        ImageRotation::Rotate270 => ImageRotation::NoRotation,
    }
}

/// Rotating left undoes rotating right, and the other way round.
pub proof fn law_rotations_undo_each_other(r: ImageRotation)
    ensures
        spec_rotate_left(spec_rotate_right(r)) == r,
        spec_rotate_right(spec_rotate_left(r)) == r,
{
}

/// Four quarter turns in either direction bring a page back upright.
pub proof fn law_four_turns_are_identity(r: ImageRotation)
    ensures
        spec_rotate_right(spec_rotate_right(spec_rotate_right(spec_rotate_right(r)))) == r,
        spec_rotate_left(spec_rotate_left(spec_rotate_left(spec_rotate_left(r)))) == r,
{
}

/// How pages are laid out in the reader.
#[derive(Clone, Copy, Debug, PartialEq, Eq, Structural)]
pub enum PageLayoutMode {
    Single,
    Double,
    DoubleAdaptive,
    Continuous,
}

impl Default for PageLayoutMode {
    fn default() -> (r: PageLayoutMode)
        ensures
            r == PageLayoutMode::Single,
    {
        PageLayoutMode::Single
    }
}

/// The animation played on a page change.
#[derive(Clone, Copy, Debug, PartialEq, Eq, Structural)]
pub enum PageTransitionEffect {
    NoTransition,
    Fade,
    LeftRight,
    TopDown,
    Paging,
}

impl Default for PageTransitionEffect {
    fn default() -> (r: PageTransitionEffect)
        ensures
            r == PageTransitionEffect::Fade,
    {
        PageTransitionEffect::Fade
    }
}

/// What fills the reader background.
#[derive(Clone, Copy, Debug, PartialEq, Eq, Structural)]
pub enum ImageBackgroundMode {
    Auto,
    Color,
    Texture,
}

impl Default for ImageBackgroundMode {
    fn default() -> (r: ImageBackgroundMode)
        ensures
            r == ImageBackgroundMode::Color,
    {
        ImageBackgroundMode::Color
    }
}

/// How a background or paper texture is placed.
#[derive(Clone, Copy, Debug, PartialEq, Eq, Structural)]
pub enum ImageLayout {
    NoLayout,
    Tile,
    Center,
    Stretch,
    Zoom,
}

impl Default for ImageLayout {
    fn default() -> (r: ImageLayout)
        ensures
            r == ImageLayout::Tile,
    {
        ImageLayout::Tile
    }
}

/// Whether a layout shows two pages side by side.
pub open spec fn is_two_page(mode: PageLayoutMode) -> bool {
    mode == PageLayoutMode::Double || mode == PageLayoutMode::DoubleAdaptive
}

/// The layout after the "toggle two pages" command: Single, Double,
/// DoubleAdaptive, then back to Single (Continuous falls back to Single).
pub open spec fn spec_toggled_page_layout(mode: PageLayoutMode) -> PageLayoutMode {
    match mode {
        PageLayoutMode::Single => PageLayoutMode::Double,
        PageLayoutMode::Double => PageLayoutMode::DoubleAdaptive,
        _ => PageLayoutMode::Single,
    }
}

/// Toggling the two-page layout three times brings a paged layout back;
/// continuous mode leaves the cycle for single pages.
pub proof fn law_page_layout_toggle_cycles(mode: PageLayoutMode)
    ensures
        mode != PageLayoutMode::Continuous ==> spec_toggled_page_layout(
            spec_toggled_page_layout(spec_toggled_page_layout(mode)),
        ) == mode,
        mode == PageLayoutMode::Continuous ==> spec_toggled_page_layout(mode) == PageLayoutMode::Single,
{
}

pub fn toggled_page_layout(mode: PageLayoutMode) -> (r: PageLayoutMode)
    ensures
        r == spec_toggled_page_layout(mode),
{
    match mode {
        PageLayoutMode::Single => PageLayoutMode::Double,
        PageLayoutMode::Double => PageLayoutMode::DoubleAdaptive,
        PageLayoutMode::DoubleAdaptive | PageLayoutMode::Continuous => PageLayoutMode::Single,
    }
}

/// The background after the "toggle realistic pages" command: the paper
/// texture on, or back to a plain color.
pub fn toggled_background_mode(mode: ImageBackgroundMode) -> (r: ImageBackgroundMode)
    ensures
        mode == ImageBackgroundMode::Texture ==> r == ImageBackgroundMode::Color,
        mode != ImageBackgroundMode::Texture ==> r == ImageBackgroundMode::Texture,
{
    match mode {
        ImageBackgroundMode::Texture => ImageBackgroundMode::Color,
        _ => ImageBackgroundMode::Texture,
    }
}

/// The fit used by the continuous strip: the fits that would scale the
/// whole strip into the view become a fit to the width.
pub fn continuous_fit_mode(fit: ImageFitMode) -> (r: ImageFitMode)
    ensures
        (fit == ImageFitMode::BestFit || fit == ImageFitMode::FitHeight || fit == ImageFitMode::Fit) ==> r
            == ImageFitMode::FitWidth,
        !(fit == ImageFitMode::BestFit || fit == ImageFitMode::FitHeight || fit == ImageFitMode::Fit) ==> r
            == fit,
{
    match fit {
        ImageFitMode::BestFit | ImageFitMode::FitHeight | ImageFitMode::Fit => ImageFitMode::FitWidth,
        other => other,
    }
}

/// Whether the composed image counts as landscape: wider than tall and not
/// a two-page spread.
pub open spec fn spec_is_landscape(image_size: (i32, i32), is_double: bool) -> bool {
    image_size.0 > image_size.1 && !is_double
}

pub fn is_landscape(image_size: (i32, i32), is_double: bool) -> (r: bool)
    ensures
        r == spec_is_landscape(image_size, is_double),
{
    image_size.0 > image_size.1 && !is_double
}

/// The right-to-left mode used for an image: landscape pages always flip
/// their parts.
pub fn effective_rtl_mode(configured: RtlReadingMode, landscape: bool) -> (r: RtlReadingMode)
    ensures
        landscape ==> r == RtlReadingMode::FlipParts,
        !landscape ==> r == configured,
{
    if landscape {
        RtlReadingMode::FlipParts
    } else {
        configured
    }
}

/// The rotation used for an image: auto-rotation turns landscape pages a
/// quarter turn counterclockwise.
pub fn effective_rotation(rotation: ImageRotation, auto_rotate: bool, landscape: bool) -> (r: ImageRotation)
    ensures
        auto_rotate && landscape ==> quarter_turns(r) == (quarter_turns(rotation) + 3) % 4,
        !(auto_rotate && landscape) ==> r == rotation,
{
    if auto_rotate && landscape {
        rotate_left(rotation)
    } else {
        rotation
    }
}

/// The page a "next page" command goes to: two pages on while a spread is
/// shown and the command steps by spreads, one otherwise.
pub fn next_page_target(page: usize, is_double: bool, double_step: bool) -> (r: Option<usize>)
    ensures
        page + (if double_step && is_double {
            2int
        } else {
            1
        }) <= usize::MAX ==> r == Some((page + (if double_step && is_double {
            2int
        } else {
            1
        })) as usize),
        page + (if double_step && is_double {
            2int
        } else {
            1
        }) > usize::MAX ==> r.is_none(),
{
    let step: usize = if double_step && is_double {
        2
    } else {
        1
    };
    if page > usize::MAX - step {
        None
    } else {
        Some(page + step)
    }
}

/// The page a "previous page" command goes to: two pages back in a two-page
/// layout (when stepping by spreads and not at the start), one otherwise;
/// none below the first page.
pub open spec fn spec_previous_page_target(page: usize, layout: PageLayoutMode, double_step: bool) -> Option<usize> {
    let step: int = if is_two_page(layout) && double_step && page >= 2 {
        2
    } else {
        1
    };
    if page < step {
        None
    } else {
        Some((page - step) as usize)
    }
}

/// Stepping back never leaves the book: the target lies before the page,
/// at most two pages back, and two only in a two-page layout.
pub proof fn law_previous_page_stays_in_book(page: usize, layout: PageLayoutMode, double_step: bool)
    ensures
        spec_previous_page_target(page, layout, double_step) matches Some(t) ==> t < page && page - t <= 2
            && (page - t == 2 ==> is_two_page(layout)),
        page > 0 ==> spec_previous_page_target(page, layout, double_step) is Some,
{
}

/// Stepping back by spreads in either two-page layout goes back two pages
/// (from page 2 on); everywhere else a step back is one page; there is no
/// step back from the first page.
pub proof fn law_previous_page_steps_by_spread(page: usize, layout: PageLayoutMode, double_step: bool)
    ensures
        (layout == PageLayoutMode::Double || layout == PageLayoutMode::DoubleAdaptive) && double_step && page >= 2
            ==> spec_previous_page_target(page, layout, double_step) == Some((page - 2) as usize),
        (layout == PageLayoutMode::Single || layout == PageLayoutMode::Continuous || !double_step || page < 2)
            && page >= 1 ==> spec_previous_page_target(page, layout, double_step) == Some((page - 1) as usize),
        page == 0 ==> spec_previous_page_target(page, layout, double_step) is None,
{
}

/// A spread forward and a spread back return to the page: in a two-page
/// layout showing a spread, stepping on and then back by spreads lands where
/// it started.
pub proof fn law_spread_steps_undo_each_other(page: usize, layout: PageLayoutMode)
    requires
        layout == PageLayoutMode::Double || layout == PageLayoutMode::DoubleAdaptive,
        page + 2 <= usize::MAX,
    ensures
        spec_previous_page_target((page + 2) as usize, layout, true) == Some(page),
{
}

pub fn previous_page_target(page: usize, layout: PageLayoutMode, double_step: bool) -> (r: Option<usize>)
    ensures
        r == spec_previous_page_target(page, layout, double_step),
{
    let two_page = match layout {
        PageLayoutMode::Double | PageLayoutMode::DoubleAdaptive => true,
        _ => false,
    };
    let step: usize = if two_page && double_step && page >= 2 {
        2
    } else {
        1
    };
    if page < step {
        return None;
    }
    Some(page - step)
}

/// The pan step of one scroll line: a sixteenth of the strip width in
/// continuous mode; otherwise a sixteenth of the image width (a
/// thirty-second for a spread) and a thirty-second of its height.
pub fn line_size(continuous: bool, strip_width: i32, image_size: (i32, i32), is_double: bool) -> (r: (i32, i32))
    ensures
        continuous ==> r.0 == trunc_div(strip_width as int, 16) && r.1 == trunc_div(strip_width as int, 16),
        !continuous && is_double ==> r.0 == trunc_div(image_size.0 as int, 32) && r.1 == trunc_div(
            image_size.1 as int,
            32,
        ),
        !continuous && !is_double ==> r.0 == trunc_div(image_size.0 as int, 16) && r.1 == trunc_div(
            image_size.1 as int,
            32,
        ),
{
    if continuous {
        let step = div_i32(strip_width, 16);
        return (step, step);
    }
    let d: i32 = if is_double {
        32
    } else {
        16
    };
    (div_i32(image_size.0, d), div_i32(image_size.1, 32))
}

/// The new strip scroll position of a part command in continuous mode: one
/// viewport (`tile`) down or up, the top, or the last full viewport, kept
/// in `[0, total - tile]`; none when it would not move.
pub open spec fn spec_continuous_part_target(ptd: PartPageToDisplay, offset_y: int, tile: int, total: int) -> Option<
    int,
> {
    let max_top = if total - tile > 0 {
        total - tile
    } else {
        0
    };
    let current = if offset_y < max_top {
        offset_y
    } else {
        max_top
    };
    let wanted = match ptd {
        PartPageToDisplay::Next => current + tile,
        PartPageToDisplay::Previous => current - tile,
        PartPageToDisplay::First => 0,
        PartPageToDisplay::Last => max_top,
    };
    let top = clamp_int(wanted, 0, max_top);
    if top == current {
        None
    } else {
        Some(top)
    }
}

pub fn continuous_part_target(ptd: PartPageToDisplay, offset_y: i32, tile: i32, total: i64) -> (r: Option<i64>)
    requires
        total >= 0,
        tile >= 0,
    ensures
        r.is_none() == spec_continuous_part_target(ptd, offset_y as int, tile as int, total as int).is_none(),
        r matches Some(t) ==> t == spec_continuous_part_target(ptd, offset_y as int, tile as int, total as int).unwrap(),
{
    let t = tile as i64;
    let max_top: i64 = if total - t > 0 {
        total - t
    } else {
        0
    };
    let o = offset_y as i64;
    let current: i64 = if o < max_top {
        o
    } else {
        max_top
    };
    let wanted: i64 = match ptd {
        PartPageToDisplay::Next => current + t,
        PartPageToDisplay::Previous => current - t,
        PartPageToDisplay::First => 0,
        PartPageToDisplay::Last => max_top,
    };
    let top = if wanted < 0 {
        0
    } else if wanted > max_top {
        max_top
    } else {
        wanted
    };
    if top == current {
        None
    } else {
        Some(top)
    }
}

/// The part a part command moves to on a paged display (`None` when the
/// display is empty or already at that end): the first part; one part back
/// or on from the best-fitting part, keeping its vertical offset; or the
/// last part.
pub open spec fn spec_part_navigation_target(display: DisplayOutput, visible: ImagePartInfo, ptd: PartPageToDisplay) -> Option<
    (int, (int, int)),
> {
    if display.part_count == 0 {
        None
    } else {
        let full = display.spec_part_with_offset(visible.part as int, visible.offset);
        let at_start = full == display.spec_get_part(0);
        let at_end = full == display.spec_get_part(display.part_count as int);
        let fit = display.spec_best_part_fit(visible);
        match ptd {
            PartPageToDisplay::First => if at_start {
                None
            } else {
                Some((0, (0, 0)))
            },
            PartPageToDisplay::Previous => if at_start {
                None
            } else {
                Some((fit.0 - 1, (0, fit.1.1)))
            },
            PartPageToDisplay::Next => if at_end {
                None
            } else {
                Some((fit.0 + 1, (0, fit.1.1)))
            },
            PartPageToDisplay::Last => if at_end {
                None
            } else {
                Some((display.part_count - 1, (0, 0)))
            },
        }
    }
}

/// The part commands go where their names say: First goes to part zero
/// with no offset and Last to the last part with no offset; Previous and
/// Next go one part back or on from the part that shows most of the view,
/// keeping its vertical offset. First and Previous do nothing exactly at the
/// start part, Next and Last exactly at the end part, and an empty display
/// has no part to go to.
pub proof fn law_part_commands_go_where_they_say(display: DisplayOutput, visible: ImagePartInfo, ptd: PartPageToDisplay)
    ensures
        ({
            let r = spec_part_navigation_target(display, visible, ptd);
            let shown = display.spec_part_with_offset(visible.part as int, visible.offset);
            let at_start = shown == display.spec_get_part(0);
            let at_end = shown == display.spec_get_part(display.part_count as int);
            let fit = display.spec_best_part_fit(visible);
            &&& display.part_count == 0 ==> r is None
            &&& display.part_count != 0 && ptd == PartPageToDisplay::First ==> (if at_start {
                r is None
            } else {
                r == Some((0int, (0int, 0int)))
            })
            &&& display.part_count != 0 && ptd == PartPageToDisplay::Last ==> (if at_end {
                r is None
            } else {
                r == Some((display.part_count - 1, (0int, 0int)))
            })
            &&& display.part_count != 0 && ptd == PartPageToDisplay::Previous ==> (if at_start {
                r is None
            } else {
                r == Some((fit.0 - 1, (0int, fit.1.1)))
            })
            &&& display.part_count != 0 && ptd == PartPageToDisplay::Next ==> (if at_end {
                r is None
            } else {
                r == Some((fit.0 + 1, (0int, fit.1.1)))
            })
        }),
{
}

/// The part commands agree with each other: First and Previous do nothing
/// in the same states (at the start part), Next and Last in the same states
/// (at the end part); First always lands on part zero with no offset, and
/// Last on the last part with no offset.
pub proof fn law_part_commands_agree(display: DisplayOutput, visible: ImagePartInfo)
    requires
        display.wf(),
    ensures
        spec_part_navigation_target(display, visible, PartPageToDisplay::First) is None
            <==> spec_part_navigation_target(display, visible, PartPageToDisplay::Previous) is None,
        spec_part_navigation_target(display, visible, PartPageToDisplay::Next) is None
            <==> spec_part_navigation_target(display, visible, PartPageToDisplay::Last) is None,
        spec_part_navigation_target(display, visible, PartPageToDisplay::First) matches Some((p, o)) ==> p == 0
            && o == (0int, 0int),
        spec_part_navigation_target(display, visible, PartPageToDisplay::Last) matches Some((p, o)) ==> p
            == display.part_count - 1 && p >= 0 && o == (0int, 0int),
{
}

pub fn part_navigation_target(display: &DisplayOutput, visible: ImagePartInfo, ptd: PartPageToDisplay) -> (r: Option<
    ImagePartInfo,
>)
    requires
        display.wf(),
        display.parts@.len() <= i32::MAX,
        crate::display::offset_moves_fit(
            visible.offset,
            display.image_size,
            display.spec_get_part(visible.part as int),
        ),
        display.best_fit_fits(visible),
        -i32::MAX <= display.spec_best_part_fit(visible).0 < i32::MAX,
    ensures
        r.is_none() <==> spec_part_navigation_target(*display, visible, ptd).is_none(),
        r matches Some(t) ==> {
            let s = spec_part_navigation_target(*display, visible, ptd).unwrap();
            &&& t.part == s.0
            &&& t.offset.0 == s.1.0
            &&& t.offset.1 == s.1.1
        },
{
    if display.is_empty() {
        return None;
    }
    match ptd {
        PartPageToDisplay::First => {
            if display.is_start_part(visible) {
                None
            } else {
                Some(ImagePartInfo::new(0, (0, 0)))
            }
        },
        PartPageToDisplay::Previous => {
            if display.is_start_part(visible) {
                None
            } else {
                let fit = display.get_best_part_fit(visible);
                Some(ImagePartInfo::new(fit.part - 1, (0, fit.offset.1)))
            }
        },
        PartPageToDisplay::Next => {
            if display.is_end_part(visible) {
                None
            } else {
                let fit = display.get_best_part_fit(visible);
                Some(ImagePartInfo::new(fit.part + 1, (0, fit.offset.1)))
            }
        },
        PartPageToDisplay::Last => {
            if display.is_end_part(visible) {
                None
            } else {
                Some(ImagePartInfo::new(display.part_count - 1, (0, 0)))
            }
        },
    }
}

/// How many neighbour pages around the current one stay decoded.
pub const PAGE_WINDOW: usize = 4;

/// Whether a decoded page stays in memory while `page` is shown: it lies
/// within the decode window around it.
pub fn keep_decoded(n: usize, page: usize) -> (r: bool)
    ensures
        r == ((if n >= page {
            n - page
        } else {
            page - n
        }) <= PAGE_WINDOW),
{
    let d = if n >= page {
        n - page
    } else {
        page - n
    };
    d <= PAGE_WINDOW
}

/// The pages to decode for showing `page`, most urgent first: the page
/// itself; its neighbour in a two-page layout; in continuous mode the next
/// pages of the window and then the previous page. Only pages that exist
/// are listed.
pub open spec fn spec_pages_to_queue(page: usize, page_count: usize, layout: PageLayoutMode) -> Seq<usize> {
    let next = if page + 1 < page_count {
        seq![(page + 1) as usize]
    } else {
        Seq::empty()
    };
    match layout {
        PageLayoutMode::Single => seq![page],
        PageLayoutMode::Double | PageLayoutMode::DoubleAdaptive => seq![page] + next,
        PageLayoutMode::Continuous => {
            let window = Seq::new(
                (if page_count > page + 1 {
                    if page_count - (page + 1) < PAGE_WINDOW {
                        page_count - (page + 1)
                    } else {
                        PAGE_WINDOW as int
                    }
                } else {
                    0
                }) as nat,
                |k: int| (page + 1 + k) as usize,
            );
            let previous = if page > 0 {
                seq![(page - 1) as usize]
            } else {
                Seq::empty()
            };
            seq![page] + window + previous
        },
    }
}

pub fn pages_to_queue(page: usize, page_count: usize, layout: PageLayoutMode) -> (r: Vec<usize>)
    requires
        page_count <= usize::MAX - PAGE_WINDOW,
    ensures
        r@ == spec_pages_to_queue(page, page_count, layout),
{
    let mut out: Vec<usize> = Vec::new();
    out.push(page);
    match layout {
        PageLayoutMode::Single => {},
        PageLayoutMode::Double | PageLayoutMode::DoubleAdaptive => {
            if page < page_count && page + 1 < page_count {
                out.push(page + 1);
            }
            proof {
                assert(out@ =~= spec_pages_to_queue(page, page_count, layout));
            }
        },
        PageLayoutMode::Continuous => {
            let ghost limit: int = if page_count > page + 1 {
                if page_count - (page + 1) < PAGE_WINDOW {
                    page_count - (page + 1)
                } else {
                    PAGE_WINDOW as int
                }
            } else {
                0
            };
            let mut offset: usize = 1;
            while offset <= PAGE_WINDOW
                invariant
                    1 <= offset <= PAGE_WINDOW + 1,
                    page_count <= usize::MAX - PAGE_WINDOW,
                    limit == (if page_count > page + 1 {
                        if page_count - (page + 1) < PAGE_WINDOW {
                            page_count - (page + 1)
                        } else {
                            PAGE_WINDOW as int
                        }
                    } else {
                        0
                    }),
                    out@.len() == 1 + (if offset - 1 < limit {
                        offset - 1
                    } else {
                        limit
                    }),
                    out@[0] == page,
                    forall|k: int| 1 <= k < out@.len() ==> #[trigger] out@[k] == page + k,
                decreases PAGE_WINDOW + 1 - offset,
            {
                if page < page_count && offset < page_count - page {
                    out.push(page + offset);
                }
                offset = offset + 1;
            }
            if page > 0 {
                out.push(page - 1);
            }
            proof {
                let expected = spec_pages_to_queue(page, page_count, layout);
                assert(out@ =~= expected);
            }
        },
    }
    out
}

/// The two-page spread order: page 0 (the cover) always sits on the right,
/// and right-to-left page flipping swaps every other spread. A swapped
/// spread shows the next page on the left.
pub fn spread_swapped(current_page: usize, rtl_flip: bool) -> (r: bool)
    ensures
        current_page == 0 ==> r,
        current_page != 0 ==> r == rtl_flip,
{
    let mut swapped = current_page != 0 && rtl_flip;
    if current_page == 0 {
        swapped = !swapped;
    }
    swapped
}

/// Where the two pages of a spread are drawn: the composed size, the page
/// drawn on the left and its rectangle, the page drawn on the right and its
/// rectangle, and whether the spread is swapped (the next page on the left).
#[derive(Clone, Copy, Debug, PartialEq, Eq)]
pub struct SpreadLayout {
    pub size: (i32, i32),
    pub left: (usize, Rect),
    pub right: (usize, Rect),
    pub swapped: bool,
}

/// The spread of two pages scaled to the common `height` (`current_width`
/// and `next_width` are their scaled widths): the overlap strip of `hidden`
/// pixels comes off the page on the right, which is drawn that far to the
/// right in an unswapped spread; `None` when nothing is left to draw.
pub open spec fn spec_spread_layout(
    current_page: usize,
    next_page: usize,
    current_width: i32,
    next_width: i32,
    height: i32,
    hidden: i32,
    rtl_flip: bool,
) -> Option<SpreadLayout> {
    let swapped = current_page == 0 || rtl_flip;
    let ri = max_int(if swapped { current_width - hidden } else { current_width as int }, 0);
    let r2 = max_int(if swapped { next_width as int } else { next_width - hidden }, 0);
    if ri + r2 <= 0 || height <= 0 {
        None
    } else if swapped {
        Some(
            SpreadLayout {
                size: ((ri + r2) as i32, height),
                left: (next_page, Rect { x: 0, y: 0, w: r2 as i32, h: height }),
                right: (current_page, Rect { x: r2 as i32, y: 0, w: ri as i32, h: height }),
                swapped,
            },
        )
    } else {
        Some(
            SpreadLayout {
                size: ((ri + r2) as i32, height),
                left: (current_page, Rect { x: 0, y: 0, w: ri as i32, h: height }),
                right: (next_page, Rect { x: (ri + hidden) as i32, y: 0, w: r2 as i32, h: height }),
                swapped,
            },
        )
    }
}

/// The spread arithmetic stays inside `i32`.
pub open spec fn spread_fits(current_page: usize, current_width: i32, next_width: i32, hidden: i32, rtl_flip: bool) -> bool {
    let swapped = current_page == 0 || rtl_flip;
    let ri = max_int(if swapped { current_width - hidden } else { current_width as int }, 0);
    let r2 = max_int(if swapped { next_width as int } else { next_width - hidden }, 0);
    &&& swapped ==> fits_i32(current_width - hidden)
    &&& !swapped ==> fits_i32(next_width - hidden)
    &&& ri + r2 <= i32::MAX
    &&& !swapped ==> fits_i32(ri + hidden)
}

/// The spread layout (see [`spec_spread_layout`]).
pub fn spread_layout(
    current_page: usize,
    next_page: usize,
    current_width: i32,
    next_width: i32,
    height: i32,
    hidden: i32,
    rtl_flip: bool,
) -> (r: Option<SpreadLayout>)
    requires
        spread_fits(current_page, current_width, next_width, hidden, rtl_flip),
    ensures
        r == spec_spread_layout(current_page, next_page, current_width, next_width, height, hidden, rtl_flip),
{
    let swapped = spread_swapped(current_page, rtl_flip);
    let mut ri = current_width;
    let mut r2 = next_width;
    if swapped {
        ri = ri - hidden;
    } else {
        r2 = r2 - hidden;
    }
    if ri < 0 {
        ri = 0;
    }
    if r2 < 0 {
        r2 = 0;
    }
    let width = ri + r2;
    if width <= 0 || height <= 0 {
        return None;
    }
    if swapped {
        Some(
            SpreadLayout {
                size: (width, height),
                left: (next_page, Rect::new(0, 0, r2, height)),
                right: (current_page, Rect::new(r2, 0, ri, height)),
                swapped,
            },
        )
    } else {
        Some(
            SpreadLayout {
                size: (width, height),
                left: (current_page, Rect::new(0, 0, ri, height)),
                right: (next_page, Rect::new(ri + hidden, 0, r2, height)),
                swapped,
            },
        )
    }
}

/// The tab that a tab-cycling command selects: `dir` steps from `current`,
/// wrapping around `len` tabs.
pub open spec fn spec_cycled_slot(current: int, dir: int, len: int) -> int {
    let m = (current + dir) % len;
    m
}

pub fn cycled_slot(current: i32, dir: i32, len: usize) -> (r: u32)
    requires
        1 <= len <= i32::MAX,
        i32::MIN <= current + dir <= i32::MAX,
    ensures
        r == spec_cycled_slot(current as int, dir as int, len as int),
        r < len,
{
    let n = len as i64;
    let s: i64 = current as i64 + dir as i64;
    let m: i64 = if s >= 0 {
        s % n
    } else {
        let k = (-s) % n;
        if k == 0 {
            0
        } else {
            n - k
        }
    };
    proof {
        if s < 0 {
            lemma_negative_mod(s as int, n as int);
        } else {
            assert(s as int % n as int == s % n);
        }
    }
    m as u32
}

/// The Euclidean remainder of a negative number, from the remainder of its
/// magnitude.
pub proof fn lemma_negative_mod(s: int, n: int)
    requires
        s < 0,
        n > 0,
    ensures
        s % n == (if (-s) % n == 0 {
            0
        } else {
            n - (-s) % n
        }),
{
    let a = -s;
    let q = a / n;
    let k = a % n;
    vstd::arithmetic::div_mod::lemma_fundamental_div_mod(a, n);
    assert(0 <= k < n) by {
        vstd::arithmetic::div_mod::lemma_mod_bound(a, n);
    }
    assert(a == n * q + k);
    if k == 0 {
        assert(s == (-q) * n + 0) by (nonlinear_arith)
            requires
                a == n * q + k,
                k == 0,
                s == -a,
        ;
        vstd::arithmetic::div_mod::lemma_fundamental_div_mod_converse(s, n, -q, 0);
    } else {
        assert(s == (-q - 1) * n + (n - k)) by (nonlinear_arith)
            requires
                a == n * q + k,
                s == -a,
        ;
        vstd::arithmetic::div_mod::lemma_fundamental_div_mod_converse(s, n, -q - 1, n - k);
    }
}

/// Milliseconds from `since` to `now` (zero when `now` is earlier).
pub open spec fn spec_elapsed(now: u64, since: u64) -> int {
    if now >= since {
        now - since
    } else {
        0
    }
}

/// Whether `since` lies less than `window` milliseconds before `now`.
pub open spec fn spec_within(now: u64, since: Option<u64>, window: u64) -> bool {
    match since {
        Some(t) => spec_elapsed(now, t) < window,
        None => false,
    }
}

fn within(now: u64, since: Option<u64>, window: u64) -> (r: bool)
    ensures
        r == spec_within(now, since, window),
{
    match since {
        Some(t) => {
            let elapsed = if now >= t {
                now - t
            } else {
                0
            };
            elapsed < window
        },
        None => false,
    }
}

/// Scrolling right after a page change is eaten, so a multi-notch wheel
/// does not flip several pages; a page shown in one part never eats.
pub fn eat_scrolling(part_count: i32, now: u64, last_paging: Option<u64>, wall: u64) -> (r: bool)
    ensures
        r == (part_count != 1 && spec_within(now, last_paging, wall)),
{
    if part_count == 1 {
        return false;
    }
    within(now, last_paging, wall)
}

/// The page-change wall: after part navigation, a page change needs a
/// second press within the wall window.
#[derive(Clone, Copy, Debug, PartialEq, Eq)]
pub struct PageWall {
    pub pending: bool,
    pub start: Option<u64>,
}

/// The wall's answer and next state for a page change at `now`.
pub open spec fn spec_page_change_walled(
    wall: PageWall,
    part_count: i32,
    now: u64,
    last_part_navigation: Option<u64>,
    window: u64,
) -> (bool, PageWall) {
    if part_count == 1 {
        (false, wall)
    } else if !spec_within(now, last_part_navigation, window) {
        (false, PageWall { pending: false, ..wall })
    } else if !wall.pending {
        (true, PageWall { pending: true, start: Some(now) })
    } else if spec_within(now, wall.start, window) {
        (true, wall)
    } else {
        (false, PageWall { pending: false, start: Some(now) })
    }
}

/// Whether a page change is held back by the wall: a page shown in one part
/// never is; a change long after the last part navigation passes (and
/// disarms the wall); the first change soon after part navigation is held
/// and arms the wall; further changes within the window are held; a change
/// after the window passes and restarts it.
pub fn is_page_change_walled(
    wall: &mut PageWall,
    part_count: i32,
    now: u64,
    last_part_navigation: Option<u64>,
    window: u64,
) -> (r: bool)
    ensures
        (r, *final(wall)) == spec_page_change_walled(*old(wall), part_count, now, last_part_navigation, window),
{
    if part_count == 1 {
        return false;
    }
    let armed = within(now, last_part_navigation, window);
    if !armed {
        wall.pending = false;
        return false;
    }
    if !wall.pending {
        wall.start = Some(now);
        wall.pending = true;
        return true;
    }
    if within(now, wall.start, window) {
        return true;
    }
    wall.pending = false;
    wall.start = Some(now);
    false
}

} // verus!
