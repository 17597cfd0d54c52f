use cr_ui::commands::{command_action, ReaderAction};
use cr_ui::geometry::ImageFitMode;
use cr_ui::keys::{ck, ckm, command_for, Key};
use cr_ui::reader::PageLayoutMode;

#[test]
fn page_commands_map_to_page_steps() {
    assert_eq!(command_action("MoveToNextPage", false), ReaderAction::NextPage);
    assert_eq!(command_action("MoveToPrevPageSingle", false), ReaderAction::PreviousPageSingle);
    assert_eq!(command_action("MoveNextPart", true), ReaderAction::NextPageOrPart);
    assert_eq!(command_action("Exit", false), ReaderAction::Exit);
}

#[test]
fn fits_and_layouts_carry_their_mode() {
    assert_eq!(command_action("FitBest", false), ReaderAction::SetFit(ImageFitMode::BestFit));
    assert_eq!(command_action("FitAll", false), ReaderAction::SetFit(ImageFitMode::Fit));
    assert_eq!(command_action("TwoPagesAdaptive", true), ReaderAction::SetLayout(PageLayoutMode::DoubleAdaptive));
}

#[test]
fn the_strip_ignores_height_fits_and_rotations() {
    assert_eq!(command_action("FitAll", true), ReaderAction::Nothing);
    assert_eq!(command_action("FitHeight", true), ReaderAction::Nothing);
    assert_eq!(command_action("RotateC", true), ReaderAction::Nothing);
    assert_eq!(command_action("RotateCC", true), ReaderAction::Nothing);
    assert_eq!(command_action("AutoRotate", true), ReaderAction::Nothing);
    assert_eq!(command_action("RotateC", false), ReaderAction::RotateRight);
    assert_eq!(command_action("FitWidth", true), ReaderAction::SetFit(ImageFitMode::FitWidth));
}

#[test]
fn shell_and_unknown_commands() {
    assert_eq!(command_action("NextTab", false), ReaderAction::ForwardToShell);
    assert_eq!(command_action("ToggleMenu", true), ReaderAction::ForwardToShell);
    assert_eq!(command_action("ShowBrowser", false), ReaderAction::Nothing);
    assert_eq!(command_action("", false), ReaderAction::Nothing);
    assert_eq!(command_action("exit", false), ReaderAction::Nothing);
}

#[test]
fn keys_reach_their_actions_through_the_table() {
    let id = command_for(ckm(Key::MouseWheelUp, true, false, false)).map(|c| c.id).expect("bound");
    assert_eq!(command_action(id, false), ReaderAction::ZoomIn);
    let id = command_for(ck(Key::Q)).map(|c| c.id).expect("bound");
    assert_eq!(command_action(id, false), ReaderAction::Exit);
}
