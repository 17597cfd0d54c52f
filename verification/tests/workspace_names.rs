use cr_ui::geometry::ImageFitMode;
use cr_ui::reader::{ImageBackgroundMode, ImageLayout, PageLayoutMode, PageTransitionEffect};
use cr_ui::workspace::{
    background_mode_from_name, background_mode_name, fit_from_name, fit_name, hex_color, image_layout_from_name,
    image_layout_name, layout_from_name, layout_name, parse_hex_color, sort_descending, sort_order,
    transition_from_name, transition_name, SortOrder,
};

fn color_to_hex(rgb: [f32; 3]) -> String {
    let ch = |v: f32| (v.clamp(0.0, 1.0) * 255.0).round() as u8;
    hex_color(ch(rgb[0]), ch(rgb[1]), ch(rgb[2]))
}

fn color_from_hex(s: &str) -> Option<[f32; 3]> {
    parse_hex_color(s).map(|(r, g, b)| [r as f32 / 255.0, g as f32 / 255.0, b as f32 / 255.0])
}

#[test]
fn enum_names_are_the_csharp_members() {
    assert_eq!(fit_name(ImageFitMode::BestFit), "BestFit");
    assert_eq!(fit_from_name("FitWidthAdaptive"), ImageFitMode::FitWidthAdaptive);
    assert_eq!(fit_from_name("junk"), ImageFitMode::FitWidth);
    assert_eq!(layout_name(PageLayoutMode::DoubleAdaptive), "DoubleAdaptive");
    assert_eq!(transition_name(PageTransitionEffect::TopDown), "TopDown");
    assert_eq!(background_mode_name(ImageBackgroundMode::Texture), "Texture");
    assert_eq!(image_layout_name(ImageLayout::Center), "Center");
    assert_eq!(image_layout_from_name("junk"), ImageLayout::Tile);
}

#[test]
fn every_name_reads_back() {
    for v in [
        ImageFitMode::Original,
        ImageFitMode::Fit,
        ImageFitMode::FitWidth,
        ImageFitMode::FitWidthAdaptive,
        ImageFitMode::FitHeight,
        ImageFitMode::BestFit,
    ] {
        assert_eq!(fit_from_name(fit_name(v)), v);
    }
    for v in [
        PageLayoutMode::Single,
        PageLayoutMode::Double,
        PageLayoutMode::DoubleAdaptive,
        PageLayoutMode::Continuous,
    ] {
        assert_eq!(layout_from_name(layout_name(v)), v);
    }
    for v in [
        PageTransitionEffect::NoTransition,
        PageTransitionEffect::Fade,
        PageTransitionEffect::LeftRight,
        PageTransitionEffect::TopDown,
        PageTransitionEffect::Paging,
    ] {
        assert_eq!(transition_from_name(transition_name(v)), v);
    }
    for v in [ImageBackgroundMode::Auto, ImageBackgroundMode::Color, ImageBackgroundMode::Texture] {
        assert_eq!(background_mode_from_name(background_mode_name(v)), v);
    }
    for v in [
        ImageLayout::NoLayout,
        ImageLayout::Tile,
        ImageLayout::Center,
        ImageLayout::Stretch,
        ImageLayout::Zoom,
    ] {
        assert_eq!(image_layout_from_name(image_layout_name(v)), v);
    }
}

#[test]
fn the_none_members_keep_their_names() {
    assert_eq!(transition_name(PageTransitionEffect::NoTransition), "None");
    assert_eq!(image_layout_name(ImageLayout::NoLayout), "None");
    assert_eq!(transition_from_name("None"), PageTransitionEffect::NoTransition);
}

#[test]
fn sort_order_round_trips() {
    assert_eq!(sort_order(true), SortOrder::Descending);
    assert_eq!(sort_order(false), SortOrder::Ascending);
    assert!(sort_descending(SortOrder::Descending));
    assert!(!sort_descending(SortOrder::Ascending));
    assert!(!sort_descending(SortOrder::NotSorted));
}

#[test]
fn color_hex_round_trips() {
    let hex = color_to_hex([1.0, 0.0, 0.5]);
    assert_eq!(hex, "#ff0080");
    assert_eq!(color_from_hex(&hex), Some([1.0, 0.0, 0x80 as f32 / 255.0]));
    assert_eq!(color_from_hex("WhiteSmoke"), None);
}

#[test]
fn hex_colors_read_both_cases_and_a_plus_sign() {
    assert_eq!(parse_hex_color("#FFfe0A"), Some((255, 254, 10)));
    assert_eq!(parse_hex_color("#+f0102"), Some((15, 1, 2)));
    assert_eq!(parse_hex_color("#ff00"), None);
    assert_eq!(parse_hex_color("ff008000"), None);
    assert_eq!(parse_hex_color("#-f0000"), None);
    assert_eq!(parse_hex_color("#gg0000"), None);
    assert_eq!(parse_hex_color("#\u{e9}00000"), None);
    assert_eq!(hex_color(0, 9, 171), "#0009ab");
}

#[test]
fn every_stored_color_reads_back() {
    for (r, g, b) in [(0u8, 0u8, 0u8), (255, 255, 255), (18, 52, 86), (171, 205, 239)] {
        assert_eq!(parse_hex_color(&hex_color(r, g, b)), Some((r, g, b)));
    }
}
