//! The names under which the reader's display settings are stored (the
//! enum member names of the settings file), the stored `#rrggbb` form of
//! the surround color, and the sort-order flag of a browser view.

use vstd::prelude::*;

use crate::geometry::ImageFitMode;
use crate::reader::{ImageBackgroundMode, ImageLayout, PageLayoutMode, PageTransitionEffect};

verus! {

/// Whether two strings are equal.
pub(crate) fn same_text(a: &str, b: &str) -> (r: bool)
    ensures
        r == (a@ == b@),
{
    String::from_str(a) == String::from_str(b)
}

/// The stored name of a fit mode.
pub open spec fn spec_fit_name(v: ImageFitMode) -> Seq<char> {
    match v {
        ImageFitMode::Original => "Original"@,
        ImageFitMode::Fit => "Fit"@,
        ImageFitMode::FitWidth => "FitWidth"@,
        ImageFitMode::FitWidthAdaptive => "FitWidthAdaptive"@,
        ImageFitMode::FitHeight => "FitHeight"@,
        ImageFitMode::BestFit => "BestFit"@,
    }
}

/// The fit mode a stored name denotes; an unknown name reads as `FitWidth`.
pub open spec fn spec_fit_from_name(s: Seq<char>) -> ImageFitMode {
    if s == "Original"@ {
        ImageFitMode::Original
    } else if s == "Fit"@ {
        ImageFitMode::Fit
    } else if s == "FitWidthAdaptive"@ {
        ImageFitMode::FitWidthAdaptive
    } else if s == "FitHeight"@ {
        ImageFitMode::FitHeight
    } else if s == "BestFit"@ {
        ImageFitMode::BestFit
    } else {
        ImageFitMode::FitWidth
    }
}

/// The stored name of a fit mode.
pub fn fit_name(v: ImageFitMode) -> (r: &'static str)
    ensures
        r@ == spec_fit_name(v),
{
    match v {
        ImageFitMode::Original => "Original",
        ImageFitMode::Fit => "Fit",
        ImageFitMode::FitWidth => "FitWidth",
        ImageFitMode::FitWidthAdaptive => "FitWidthAdaptive",
        ImageFitMode::FitHeight => "FitHeight",
        ImageFitMode::BestFit => "BestFit",
    }
}

/// The fit mode a stored name denotes; an unknown name reads as `FitWidth`.
pub fn fit_from_name(s: &str) -> (r: ImageFitMode)
    ensures
        r == spec_fit_from_name(s@),
{
    if same_text(s, "Original") {
        ImageFitMode::Original
    } else if same_text(s, "Fit") {
        ImageFitMode::Fit
    } else if same_text(s, "FitWidthAdaptive") {
        ImageFitMode::FitWidthAdaptive
    } else if same_text(s, "FitHeight") {
        ImageFitMode::FitHeight
    } else if same_text(s, "BestFit") {
        ImageFitMode::BestFit
    } else {
        ImageFitMode::FitWidth
    }
}

/// Reading back a stored fit name gives the value that was stored.
pub proof fn law_fit_name_round_trip(v: ImageFitMode)
    ensures
        spec_fit_from_name(spec_fit_name(v)) == v,
{
    reveal_strlit("Original");
    reveal_strlit("Fit");
    reveal_strlit("FitWidth");
    reveal_strlit("FitWidthAdaptive");
    reveal_strlit("FitHeight");
    reveal_strlit("BestFit");
    match v {
        ImageFitMode::Original => {
        },
        ImageFitMode::Fit => {
            assert("Fit"@.len() != "Original"@.len());
        },
        ImageFitMode::FitWidth => {
            assert("FitWidth"@[0] != "Original"@[0]);
            assert("FitWidth"@.len() != "Fit"@.len());
            assert("FitWidth"@.len() != "FitWidthAdaptive"@.len());
            assert("FitWidth"@.len() != "FitHeight"@.len());
            assert("FitWidth"@.len() != "BestFit"@.len());
        },
        ImageFitMode::FitWidthAdaptive => {
            assert("FitWidthAdaptive"@.len() != "Original"@.len());
            assert("FitWidthAdaptive"@.len() != "Fit"@.len());
        },
        ImageFitMode::FitHeight => {
            assert("FitHeight"@.len() != "Original"@.len());
            assert("FitHeight"@.len() != "Fit"@.len());
            assert("FitHeight"@.len() != "FitWidthAdaptive"@.len());
        },
        ImageFitMode::BestFit => {
            assert("BestFit"@.len() != "Original"@.len());
            assert("BestFit"@.len() != "Fit"@.len());
            assert("BestFit"@.len() != "FitWidthAdaptive"@.len());
            assert("BestFit"@.len() != "FitHeight"@.len());
        },
    }
}

/// The stored name of a page layout.
pub open spec fn spec_layout_name(v: PageLayoutMode) -> Seq<char> {
    match v {
        PageLayoutMode::Single => "Single"@,
        PageLayoutMode::Double => "Double"@,
        PageLayoutMode::DoubleAdaptive => "DoubleAdaptive"@,
        PageLayoutMode::Continuous => "Continuous"@,
    }
}

/// The page layout a stored name denotes; an unknown name reads as `Single`.
pub open spec fn spec_layout_from_name(s: Seq<char>) -> PageLayoutMode {
    if s == "Double"@ {
        PageLayoutMode::Double
    } else if s == "DoubleAdaptive"@ {
        PageLayoutMode::DoubleAdaptive
    } else if s == "Continuous"@ {
        PageLayoutMode::Continuous
    } else {
        PageLayoutMode::Single
    }
}

/// The stored name of a page layout.
pub fn layout_name(v: PageLayoutMode) -> (r: &'static str)
    ensures
        r@ == spec_layout_name(v),
{
    match v {
        PageLayoutMode::Single => "Single",
        PageLayoutMode::Double => "Double",
        PageLayoutMode::DoubleAdaptive => "DoubleAdaptive",
        PageLayoutMode::Continuous => "Continuous",
    }
}

/// The page layout a stored name denotes; an unknown name reads as `Single`.
pub fn layout_from_name(s: &str) -> (r: PageLayoutMode)
    ensures
        r == spec_layout_from_name(s@),
{
    if same_text(s, "Double") {
        PageLayoutMode::Double
    } else if same_text(s, "DoubleAdaptive") {
        PageLayoutMode::DoubleAdaptive
    } else if same_text(s, "Continuous") {
        PageLayoutMode::Continuous
    } else {
        PageLayoutMode::Single
    }
}

/// Reading back a stored layout name gives the value that was stored.
pub proof fn law_layout_name_round_trip(v: PageLayoutMode)
    ensures
        spec_layout_from_name(spec_layout_name(v)) == v,
{
    reveal_strlit("Single");
    reveal_strlit("Double");
    reveal_strlit("DoubleAdaptive");
    reveal_strlit("Continuous");
    match v {
        PageLayoutMode::Single => {
            assert("Single"@[0] != "Double"@[0]);
            assert("Single"@.len() != "DoubleAdaptive"@.len());
            assert("Single"@.len() != "Continuous"@.len());
        },
        PageLayoutMode::Double => {
        },
        PageLayoutMode::DoubleAdaptive => {
            assert("DoubleAdaptive"@.len() != "Double"@.len());
        },
        PageLayoutMode::Continuous => {
            assert("Continuous"@.len() != "Double"@.len());
            assert("Continuous"@.len() != "DoubleAdaptive"@.len());
        },
    }
}

/// The stored name of a page transition.
pub open spec fn spec_transition_name(v: PageTransitionEffect) -> Seq<char> {
    match v {
        PageTransitionEffect::NoTransition => "None"@,
        PageTransitionEffect::Fade => "Fade"@,
        PageTransitionEffect::LeftRight => "LeftRight"@,
        PageTransitionEffect::TopDown => "TopDown"@,
        PageTransitionEffect::Paging => "Paging"@,
    }
}

/// The transition a stored name denotes; an unknown name reads as `Fade`.
pub open spec fn spec_transition_from_name(s: Seq<char>) -> PageTransitionEffect {
    if s == "None"@ {
        PageTransitionEffect::NoTransition
    } else if s == "LeftRight"@ {
        PageTransitionEffect::LeftRight
    } else if s == "TopDown"@ {
        PageTransitionEffect::TopDown
    } else if s == "Paging"@ {
        PageTransitionEffect::Paging
    } else {
        PageTransitionEffect::Fade
    }
}

/// The stored name of a page transition.
pub fn transition_name(v: PageTransitionEffect) -> (r: &'static str)
    ensures
        r@ == spec_transition_name(v),
{
    match v {
        PageTransitionEffect::NoTransition => "None",
        PageTransitionEffect::Fade => "Fade",
        PageTransitionEffect::LeftRight => "LeftRight",
        PageTransitionEffect::TopDown => "TopDown",
        PageTransitionEffect::Paging => "Paging",
    }
}

/// The transition a stored name denotes; an unknown name reads as `Fade`.
pub fn transition_from_name(s: &str) -> (r: PageTransitionEffect)
    ensures
        r == spec_transition_from_name(s@),
{
    if same_text(s, "None") {
        PageTransitionEffect::NoTransition
    } else if same_text(s, "LeftRight") {
        PageTransitionEffect::LeftRight
    } else if same_text(s, "TopDown") {
        PageTransitionEffect::TopDown
    } else if same_text(s, "Paging") {
        PageTransitionEffect::Paging
    } else {
        PageTransitionEffect::Fade
    }
}

/// Reading back a stored transition name gives the value that was stored.
pub proof fn law_transition_name_round_trip(v: PageTransitionEffect)
    ensures
        spec_transition_from_name(spec_transition_name(v)) == v,
{
    reveal_strlit("None");
    reveal_strlit("Fade");
    reveal_strlit("LeftRight");
    reveal_strlit("TopDown");
    reveal_strlit("Paging");
    match v {
        PageTransitionEffect::NoTransition => {
        },
        PageTransitionEffect::Fade => {
            assert("Fade"@[0] != "None"@[0]);
            assert("Fade"@.len() != "LeftRight"@.len());
            assert("Fade"@.len() != "TopDown"@.len());
            assert("Fade"@.len() != "Paging"@.len());
        },
        PageTransitionEffect::LeftRight => {
            assert("LeftRight"@.len() != "None"@.len());
        },
        PageTransitionEffect::TopDown => {
            assert("TopDown"@.len() != "None"@.len());
            assert("TopDown"@.len() != "LeftRight"@.len());
        },
        PageTransitionEffect::Paging => {
            assert("Paging"@.len() != "None"@.len());
            assert("Paging"@.len() != "LeftRight"@.len());
            assert("Paging"@.len() != "TopDown"@.len());
        },
    }
}

/// The stored name of a background mode.
pub open spec fn spec_background_mode_name(v: ImageBackgroundMode) -> Seq<char> {
    match v {
        ImageBackgroundMode::Auto => "Auto"@,
        ImageBackgroundMode::Color => "Color"@,
        ImageBackgroundMode::Texture => "Texture"@,
    }
}

/// The background mode a stored name denotes; an unknown name reads as `Color`.
pub open spec fn spec_background_mode_from_name(s: Seq<char>) -> ImageBackgroundMode {
    if s == "Auto"@ {
        ImageBackgroundMode::Auto
    } else if s == "Texture"@ {
        ImageBackgroundMode::Texture
    } else {
        ImageBackgroundMode::Color
    }
}

/// The stored name of a background mode.
pub fn background_mode_name(v: ImageBackgroundMode) -> (r: &'static str)
    ensures
        r@ == spec_background_mode_name(v),
{
    match v {
        ImageBackgroundMode::Auto => "Auto",
        ImageBackgroundMode::Color => "Color",
        ImageBackgroundMode::Texture => "Texture",
    }
}

/// The background mode a stored name denotes; an unknown name reads as `Color`.
pub fn background_mode_from_name(s: &str) -> (r: ImageBackgroundMode)
    ensures
        r == spec_background_mode_from_name(s@),
{
    if same_text(s, "Auto") {
        ImageBackgroundMode::Auto
    } else if same_text(s, "Texture") {
        ImageBackgroundMode::Texture
    } else {
        ImageBackgroundMode::Color
    }
}

/// Reading back a stored background mode name gives the value that was stored.
pub proof fn law_background_mode_name_round_trip(v: ImageBackgroundMode)
    ensures
        spec_background_mode_from_name(spec_background_mode_name(v)) == v,
{
    reveal_strlit("Auto");
    reveal_strlit("Color");
    reveal_strlit("Texture");
    match v {
        ImageBackgroundMode::Auto => {
        },
        ImageBackgroundMode::Color => {
            assert("Color"@.len() != "Auto"@.len());
            assert("Color"@.len() != "Texture"@.len());
        },
        ImageBackgroundMode::Texture => {
            assert("Texture"@.len() != "Auto"@.len());
        },
    }
}

/// The stored name of a texture layout.
pub open spec fn spec_image_layout_name(v: ImageLayout) -> Seq<char> {
    match v {
        ImageLayout::NoLayout => "None"@,
        ImageLayout::Tile => "Tile"@,
        ImageLayout::Center => "Center"@,
        ImageLayout::Stretch => "Stretch"@,
        ImageLayout::Zoom => "Zoom"@,
    }
}

/// The texture layout a stored name denotes; an unknown name reads as `Tile`.
pub open spec fn spec_image_layout_from_name(s: Seq<char>) -> ImageLayout {
    if s == "None"@ {
        ImageLayout::NoLayout
    } else if s == "Center"@ {
        ImageLayout::Center
    } else if s == "Stretch"@ {
        ImageLayout::Stretch
    } else if s == "Zoom"@ {
        ImageLayout::Zoom
    } else {
        ImageLayout::Tile
    }
}

/// The stored name of a texture layout.
pub fn image_layout_name(v: ImageLayout) -> (r: &'static str)
    ensures
        r@ == spec_image_layout_name(v),
{
    match v {
        ImageLayout::NoLayout => "None",
        ImageLayout::Tile => "Tile",
        ImageLayout::Center => "Center",
        ImageLayout::Stretch => "Stretch",
        ImageLayout::Zoom => "Zoom",
    }
}

/// The texture layout a stored name denotes; an unknown name reads as `Tile`.
pub fn image_layout_from_name(s: &str) -> (r: ImageLayout)
    ensures
        r == spec_image_layout_from_name(s@),
{
    if same_text(s, "None") {
        ImageLayout::NoLayout
    } else if same_text(s, "Center") {
        ImageLayout::Center
    } else if same_text(s, "Stretch") {
        ImageLayout::Stretch
    } else if same_text(s, "Zoom") {
        ImageLayout::Zoom
    } else {
        ImageLayout::Tile
    }
}

/// Reading back a stored image layout name gives the value that was stored.
pub proof fn law_image_layout_name_round_trip(v: ImageLayout)
    ensures
        spec_image_layout_from_name(spec_image_layout_name(v)) == v,
{
    reveal_strlit("None");
    reveal_strlit("Tile");
    reveal_strlit("Center");
    reveal_strlit("Stretch");
    reveal_strlit("Zoom");
    match v {
        ImageLayout::NoLayout => {
        },
        ImageLayout::Tile => {
            assert("Tile"@[0] != "None"@[0]);
            assert("Tile"@.len() != "Center"@.len());
            assert("Tile"@.len() != "Stretch"@.len());
            assert("Tile"@[0] != "Zoom"@[0]);
        },
        ImageLayout::Center => {
            assert("Center"@.len() != "None"@.len());
        },
        ImageLayout::Stretch => {
            assert("Stretch"@.len() != "None"@.len());
            assert("Stretch"@.len() != "Center"@.len());
        },
        ImageLayout::Zoom => {
            assert("Zoom"@[0] != "None"@[0]);
            assert("Zoom"@.len() != "Center"@.len());
            assert("Zoom"@.len() != "Stretch"@.len());
        },
    }
}

/// The lowercase character of a hexadecimal digit.
pub open spec fn hex_char(n: int) -> char {
    if n == 0 {
        '0'
    } else if n == 1 {
        '1'
    } else if n == 2 {
        '2'
    } else if n == 3 {
        '3'
    } else if n == 4 {
        '4'
    } else if n == 5 {
        '5'
    } else if n == 6 {
        '6'
    } else if n == 7 {
        '7'
    } else if n == 8 {
        '8'
    } else if n == 9 {
        '9'
    } else if n == 10 {
        'a'
    } else if n == 11 {
        'b'
    } else if n == 12 {
        'c'
    } else if n == 13 {
        'd'
    } else if n == 14 {
        'e'
    } else {
        'f'
    }
}

/// The value of a hexadecimal digit (either case), if it is one.
pub open spec fn hex_value(c: char) -> Option<u8> {
    if '0' <= c && c <= '9' {
        Some((c as u32 - '0' as u32) as u8)
    } else if 'a' <= c && c <= 'f' {
        Some((c as u32 - 'a' as u32 + 10) as u8)
    } else if 'A' <= c && c <= 'F' {
        Some((c as u32 - 'A' as u32 + 10) as u8)
    } else {
        None
    }
}

/// A two-character field read as a hexadecimal byte: two digits, or a plus
/// sign and one digit.
pub open spec fn hex_byte(a: char, b: char) -> Option<u8> {
    if a == '+' {
        hex_value(b)
    } else {
        match (hex_value(a), hex_value(b)) {
            (Some(x), Some(y)) => Some((x * 16 + y) as u8),
            _ => None,
        }
    }
}

/// The `#rrggbb` form of a color, lowercase.
pub open spec fn spec_hex_color(r: u8, g: u8, b: u8) -> Seq<char> {
    seq![
        '#',
        hex_char(r as int / 16),
        hex_char(r as int % 16),
        hex_char(g as int / 16),
        hex_char(g as int % 16),
        hex_char(b as int / 16),
        hex_char(b as int % 16),
    ]
}

/// The color of a stored `#rrggbb` text: a `#` and three two-character
/// hexadecimal fields; `None` for anything else (a color name among them).
pub open spec fn spec_parse_hex_color(s: Seq<char>) -> Option<(u8, u8, u8)> {
    if s.len() != 7 || s[0] != '#' {
        None
    } else {
        match (hex_byte(s[1], s[2]), hex_byte(s[3], s[4]), hex_byte(s[5], s[6])) {
            (Some(r), Some(g), Some(b)) => Some((r, g, b)),
            _ => None,
        }
    }
}

fn hex_str(n: u8) -> (r: &'static str)
    requires
        n < 16,
    ensures
        r@ == seq![hex_char(n as int)],
{
    proof {
        reveal_strlit("0");
        reveal_strlit("1");
        reveal_strlit("2");
        reveal_strlit("3");
        reveal_strlit("4");
        reveal_strlit("5");
        reveal_strlit("6");
        reveal_strlit("7");
        reveal_strlit("8");
        reveal_strlit("9");
        reveal_strlit("a");
        reveal_strlit("b");
        reveal_strlit("c");
        reveal_strlit("d");
        reveal_strlit("e");
        reveal_strlit("f");
    }
    match n {
        0 => "0",
        1 => "1",
        2 => "2",
        3 => "3",
        4 => "4",
        5 => "5",
        6 => "6",
        7 => "7",
        8 => "8",
        9 => "9",
        10 => "a",
        11 => "b",
        12 => "c",
        13 => "d",
        14 => "e",
        _ => "f",
    }
}

/// The `#rrggbb` form of a color, lowercase.
pub fn hex_color(r: u8, g: u8, b: u8) -> (s: String)
    ensures
        s@ == spec_hex_color(r, g, b),
{
    proof {
        reveal_strlit("#");
    }
    let mut s = String::from_str("#");
    s.append(hex_str(r / 16));
    s.append(hex_str(r % 16));
    s.append(hex_str(g / 16));
    s.append(hex_str(g % 16));
    s.append(hex_str(b / 16));
    s.append(hex_str(b % 16));
    s
}

fn hex_value_of(c: char) -> (r: Option<u8>)
    ensures
        r == hex_value(c),
{
    if '0' <= c && c <= '9' {
        Some((c as u32 - '0' as u32) as u8)
    } else if 'a' <= c && c <= 'f' {
        Some((c as u32 - 'a' as u32 + 10) as u8)
    } else if 'A' <= c && c <= 'F' {
        Some((c as u32 - 'A' as u32 + 10) as u8)
    } else {
        None
    }
}

fn hex_byte_of(a: char, b: char) -> (r: Option<u8>)
    ensures
        r == hex_byte(a, b),
{
    if a == '+' {
        return hex_value_of(b);
    }
    match (hex_value_of(a), hex_value_of(b)) {
        (Some(x), Some(y)) => Some(x * 16 + y),
        _ => None,
    }
}

/// The color of a stored `#rrggbb` text (see [`spec_parse_hex_color`]).
pub fn parse_hex_color(s: &str) -> (r: Option<(u8, u8, u8)>)
    ensures
        r == spec_parse_hex_color(s@),
{
    if s.unicode_len() != 7 || s.get_char(0) != '#' {
        return None;
    }
    let r = hex_byte_of(s.get_char(1), s.get_char(2));
    let g = hex_byte_of(s.get_char(3), s.get_char(4));
    let b = hex_byte_of(s.get_char(5), s.get_char(6));
    match (r, g, b) {
        (Some(r), Some(g), Some(b)) => Some((r, g, b)),
        _ => None,
    }
}

proof fn lemma_hex_digit(n: int)
    requires
        0 <= n < 16,
    ensures
        hex_value(hex_char(n)) == Some(n as u8),
{
}

/// A stored color reads back as the color that was stored.
pub proof fn law_hex_color_round_trip(r: u8, g: u8, b: u8)
    ensures
        spec_parse_hex_color(spec_hex_color(r, g, b)) == Some((r, g, b)),
{
    lemma_hex_digit(r as int / 16);
    lemma_hex_digit(r as int % 16);
    lemma_hex_digit(g as int / 16);
    lemma_hex_digit(g as int % 16);
    lemma_hex_digit(b as int / 16);
    lemma_hex_digit(b as int % 16);
    assert(r == (r / 16) * 16 + r % 16);
    assert(g == (g / 16) * 16 + g % 16);
    assert(b == (b / 16) * 16 + b % 16);
}

/// The sort direction of a browser view.
#[derive(Clone, Copy, Debug, PartialEq, Eq, Structural)]
pub enum SortOrder {
    NotSorted,
    Ascending,
    Descending,
}

/// The sort order of a descending or ascending view.
pub fn sort_order(descending: bool) -> (r: SortOrder)
    ensures
        descending ==> r == SortOrder::Descending,
        !descending ==> r == SortOrder::Ascending,
{
    if descending {
        SortOrder::Descending
    } else {
        SortOrder::Ascending
    }
}

/// Whether a sort order is descending.
pub fn sort_descending(order: SortOrder) -> (r: bool)
    ensures
        r == (order == SortOrder::Descending),
{
    order == SortOrder::Descending
}

/// The descending flag survives the trip through the sort order.
pub proof fn law_sort_order_round_trip(descending: bool)
    ensures
        (if descending {
            SortOrder::Descending
        } else {
            SortOrder::Ascending
        } == SortOrder::Descending) == descending,
{
}

} // verus!
