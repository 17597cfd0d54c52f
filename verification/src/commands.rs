//! What each reader command does: the command id (from the key table) and
//! whether the continuous strip is shown decide the action the page view
//! performs.

use vstd::prelude::*;

use crate::geometry::ImageFitMode;
use crate::keys::{
    lemma_first_command_is_owner, spec_ck, spec_ckm, spec_command_id, spec_first_command, CommandKey, Key,
};
use crate::reader::PageLayoutMode;
use crate::workspace::same_text;

verus! {

/// The action a reader command asks of the page view.
#[derive(Clone, Copy, Debug, PartialEq, Eq, Structural)]
pub enum ReaderAction {
    /// No effect (a command of another window, or one not wired in the reader).
    Nothing,
    /// Go to the first page.
    FirstPage,
    /// One page back, or one spread in a two-page layout.
    PreviousPage,
    /// One page on, or one spread in a two-page layout.
    NextPage,
    /// Go to the last page.
    LastPage,
    /// Hand the command to the reader window (tabs, undocking, the menu).
    ForwardToShell,
    /// One single page back.
    PreviousPageSingle,
    /// One single page on.
    NextPageSingle,
    /// The previous part, or the previous page at the first part.
    PreviousPageOrPart,
    /// The next part, or the next page at the last part.
    NextPageOrPart,
    /// The first part of the page.
    FirstPart,
    /// The last part of the page.
    LastPart,
    /// Pan a tenth of the view down.
    PartDown,
    /// Pan a tenth of the view up.
    PartUp,
    /// Switch automatic scrolling.
    ToggleAutoScrolling,
    /// Switch stepping by spreads.
    ToggleTwoPageNavigation,
    /// Scroll up by the configured lines.
    ScrollUp,
    /// Scroll down by the configured lines.
    ScrollDown,
    /// Scroll left by the configured lines.
    ScrollLeft,
    /// Scroll right by the configured lines.
    ScrollRight,
    /// Switch full screen.
    ToggleFullScreen,
    /// Step to the next page layout.
    ToggleTwoPages,
    /// Switch the paper texture.
    ToggleRealisticPages,
    /// Switch the magnifier lens.
    ToggleMagnifier,
    /// Use this fit mode.
    SetFit(ImageFitMode),
    /// Use this page layout.
    SetLayout(PageLayoutMode),
    /// Switch right-to-left reading.
    ToggleRightToLeft,
    /// Switch fitting only oversized pages.
    ToggleFitOnlyIfOversized,
    /// Turn the view a quarter clockwise.
    RotateRight,
    /// Turn the view a quarter counterclockwise.
    RotateLeft,
    /// Switch turning landscape pages.
    ToggleAutoRotate,
    /// Zoom in by the wheel step.
    ZoomIn,
    /// Zoom out by the wheel step.
    ZoomOut,
    /// Zoom in by the keyboard step.
    StepZoomIn,
    /// Zoom out by the keyboard step.
    StepZoomOut,
    /// Turn the current page a quarter clockwise.
    PageRotateRight,
    /// Turn the current page a quarter counterclockwise.
    PageRotateLeft,
    /// Leave the reader.
    Exit,
}

/// The action of the command `id`. Unknown ids do nothing; the fits by
/// height and the rotations do nothing in the continuous strip, which
/// keeps its own geometry.
pub open spec fn spec_command_action(id: Seq<char>, continuous: bool) -> ReaderAction {
    if id == "MoveToFirstPage"@ {
        ReaderAction::FirstPage
    } else if id == "MoveToPreviousPage"@ {
        ReaderAction::PreviousPage
    } else if id == "MoveToNextPage"@ {
        ReaderAction::NextPage
    } else if id == "MoveToLastPage"@ {
        ReaderAction::LastPage
    } else if id == "PrevTab"@ {
        ReaderAction::ForwardToShell
    } else if id == "NextTab"@ {
        ReaderAction::ForwardToShell
    } else if id == "ToggleUndockReader"@ {
        ReaderAction::ForwardToShell
    } else if id == "ToggleMenu"@ {
        ReaderAction::ForwardToShell
    } else if id == "MoveToPrevPageSingle"@ {
        ReaderAction::PreviousPageSingle
    } else if id == "MoveToNextPageSingle"@ {
        ReaderAction::NextPageSingle
    } else if id == "MovePrevPart"@ {
        ReaderAction::PreviousPageOrPart
    } else if id == "MoveNextPart"@ {
        ReaderAction::NextPageOrPart
    } else if id == "MoveFirstPart"@ {
        ReaderAction::FirstPart
    } else if id == "MoveLastPart"@ {
        ReaderAction::LastPart
    } else if id == "MovePartDown10"@ {
        ReaderAction::PartDown
    } else if id == "MovePartUp10"@ {
        ReaderAction::PartUp
    } else if id == "ToggleAutoScrolling"@ {
        ReaderAction::ToggleAutoScrolling
    } else if id == "DoublePageAutoScroll"@ {
        ReaderAction::ToggleTwoPageNavigation
    } else if id == "MoveUp"@ {
        ReaderAction::ScrollUp
    } else if id == "MoveDown"@ {
        ReaderAction::ScrollDown
    } else if id == "MoveLeft"@ {
        ReaderAction::ScrollLeft
    } else if id == "MoveRight"@ {
        ReaderAction::ScrollRight
    } else if id == "ToggleFullScreen"@ {
        ReaderAction::ToggleFullScreen
    } else if id == "ToggleTwoPages"@ {
        ReaderAction::ToggleTwoPages
    } else if id == "ToggleRealisticPages"@ {
        ReaderAction::ToggleRealisticPages
    } else if id == "ToggleMagnify"@ {
        ReaderAction::ToggleMagnifier
    } else if id == "Original"@ {
        ReaderAction::SetFit(ImageFitMode::Original)
    } else if id == "FitAll"@ {
        if continuous { ReaderAction::Nothing } else { ReaderAction::SetFit(ImageFitMode::Fit) }
    } else if id == "FitWidth"@ {
        ReaderAction::SetFit(ImageFitMode::FitWidth)
    } else if id == "FitWidthAdaptive"@ {
        ReaderAction::SetFit(ImageFitMode::FitWidthAdaptive)
    } else if id == "FitHeight"@ {
        if continuous { ReaderAction::Nothing } else { ReaderAction::SetFit(ImageFitMode::FitHeight) }
    } else if id == "FitBest"@ {
        ReaderAction::SetFit(ImageFitMode::BestFit)
    } else if id == "SinglePage"@ {
        ReaderAction::SetLayout(PageLayoutMode::Single)
    } else if id == "TwoPages"@ {
        ReaderAction::SetLayout(PageLayoutMode::Double)
    } else if id == "TwoPagesAdaptive"@ {
        ReaderAction::SetLayout(PageLayoutMode::DoubleAdaptive)
    } else if id == "Continuous"@ {
        ReaderAction::SetLayout(PageLayoutMode::Continuous)
    } else if id == "RightToLeft"@ {
        ReaderAction::ToggleRightToLeft
    } else if id == "OnlyFitIfOversized"@ {
        ReaderAction::ToggleFitOnlyIfOversized
    } else if id == "RotateC"@ {
        if continuous { ReaderAction::Nothing } else { ReaderAction::RotateRight }
    } else if id == "RotateCC"@ {
        if continuous { ReaderAction::Nothing } else { ReaderAction::RotateLeft }
    } else if id == "AutoRotate"@ {
        if continuous { ReaderAction::Nothing } else { ReaderAction::ToggleAutoRotate }
    } else if id == "ZoomIn"@ {
        ReaderAction::ZoomIn
    } else if id == "ZoomOut"@ {
        ReaderAction::ZoomOut
    } else if id == "StepZoomIn"@ {
        ReaderAction::StepZoomIn
    } else if id == "StepZoomOut"@ {
        ReaderAction::StepZoomOut
    } else if id == "PageRotateC"@ {
        ReaderAction::PageRotateRight
    } else if id == "PageRotateCC"@ {
        ReaderAction::PageRotateLeft
    } else if id == "Exit"@ {
        ReaderAction::Exit
    } else {
        ReaderAction::Nothing
    }
}

/// Every navigation action comes from exactly its own command, the one
/// named for its direction: stepping back only from the "previous" ids,
/// forward only from the "next" ids, and each scroll only from the command
/// of its own direction, whether or not the strip is shown.
pub proof fn law_navigation_commands_keep_their_direction(id: Seq<char>, continuous: bool)
    ensures
        spec_command_action(id, continuous) == ReaderAction::FirstPage <==> id == "MoveToFirstPage"@,
        spec_command_action(id, continuous) == ReaderAction::PreviousPage <==> id == "MoveToPreviousPage"@,
        spec_command_action(id, continuous) == ReaderAction::NextPage <==> id == "MoveToNextPage"@,
        spec_command_action(id, continuous) == ReaderAction::LastPage <==> id == "MoveToLastPage"@,
        spec_command_action(id, continuous) == ReaderAction::PreviousPageSingle <==> id == "MoveToPrevPageSingle"@,
        spec_command_action(id, continuous) == ReaderAction::NextPageSingle <==> id == "MoveToNextPageSingle"@,
        spec_command_action(id, continuous) == ReaderAction::PreviousPageOrPart <==> id == "MovePrevPart"@,
        spec_command_action(id, continuous) == ReaderAction::NextPageOrPart <==> id == "MoveNextPart"@,
        spec_command_action(id, continuous) == ReaderAction::FirstPart <==> id == "MoveFirstPart"@,
        spec_command_action(id, continuous) == ReaderAction::LastPart <==> id == "MoveLastPart"@,
        spec_command_action(id, continuous) == ReaderAction::ScrollUp <==> id == "MoveUp"@,
        spec_command_action(id, continuous) == ReaderAction::ScrollDown <==> id == "MoveDown"@,
        spec_command_action(id, continuous) == ReaderAction::ScrollLeft <==> id == "MoveLeft"@,
        spec_command_action(id, continuous) == ReaderAction::ScrollRight <==> id == "MoveRight"@,
{
    reveal_strlit("DoublePageAutoScroll");
    reveal_strlit("MoveDown");
    reveal_strlit("MoveFirstPart");
    reveal_strlit("MoveLastPart");
    reveal_strlit("MoveLeft");
    reveal_strlit("MoveNextPart");
    reveal_strlit("MovePartDown10");
    reveal_strlit("MovePartUp10");
    reveal_strlit("MovePrevPart");
    reveal_strlit("MoveRight");
    reveal_strlit("MoveToFirstPage");
    reveal_strlit("MoveToLastPage");
    reveal_strlit("MoveToNextPage");
    reveal_strlit("MoveToNextPageSingle");
    reveal_strlit("MoveToPrevPageSingle");
    reveal_strlit("MoveToPreviousPage");
    reveal_strlit("MoveUp");
    reveal_strlit("NextTab");
    reveal_strlit("PrevTab");
    reveal_strlit("ToggleAutoScrolling");
    reveal_strlit("ToggleMenu");
    reveal_strlit("ToggleUndockReader");
    assert("DoublePageAutoScroll"@.len() == 20 && "DoublePageAutoScroll"@[0] == 'D');
    assert("MoveDown"@.len() == 8 && "MoveDown"@[0] == 'M' && "MoveDown"@[4] == 'D');
    assert("MoveFirstPart"@.len() == 13 && "MoveFirstPart"@[0] == 'M');
    assert("MoveLastPart"@.len() == 12 && "MoveLastPart"@[0] == 'M' && "MoveLastPart"@[4] == 'L');
    assert("MoveLeft"@.len() == 8 && "MoveLeft"@[0] == 'M' && "MoveLeft"@[4] == 'L');
    assert("MoveNextPart"@.len() == 12 && "MoveNextPart"@[0] == 'M' && "MoveNextPart"@[4] == 'N');
    assert("MovePartDown10"@.len() == 14 && "MovePartDown10"@[0] == 'M' && "MovePartDown10"@[4] == 'P');
    assert("MovePartUp10"@.len() == 12 && "MovePartUp10"@[0] == 'M' && "MovePartUp10"@[4] == 'P' && "MovePartUp10"@[5] == 'a');
    assert("MovePrevPart"@.len() == 12 && "MovePrevPart"@[0] == 'M' && "MovePrevPart"@[4] == 'P' && "MovePrevPart"@[5] == 'r');
    assert("MoveRight"@.len() == 9 && "MoveRight"@[0] == 'M');
    assert("MoveToFirstPage"@.len() == 15 && "MoveToFirstPage"@[0] == 'M');
    assert("MoveToLastPage"@.len() == 14 && "MoveToLastPage"@[0] == 'M' && "MoveToLastPage"@[4] == 'T' && "MoveToLastPage"@[6] == 'L');
    assert("MoveToNextPage"@.len() == 14 && "MoveToNextPage"@[0] == 'M' && "MoveToNextPage"@[4] == 'T' && "MoveToNextPage"@[6] == 'N');
    assert("MoveToNextPageSingle"@.len() == 20 && "MoveToNextPageSingle"@[0] == 'M' && "MoveToNextPageSingle"@[6] == 'N');
    assert("MoveToPrevPageSingle"@.len() == 20 && "MoveToPrevPageSingle"@[0] == 'M' && "MoveToPrevPageSingle"@[6] == 'P');
    assert("MoveToPreviousPage"@.len() == 18 && "MoveToPreviousPage"@[0] == 'M');
    assert("MoveUp"@.len() == 6 && "MoveUp"@[0] == 'M');
    assert("NextTab"@.len() == 7 && "NextTab"@[0] == 'N');
    assert("PrevTab"@.len() == 7 && "PrevTab"@[0] == 'P');
    assert("ToggleAutoScrolling"@.len() == 19 && "ToggleAutoScrolling"@[0] == 'T');
    assert("ToggleMenu"@.len() == 10 && "ToggleMenu"@[0] == 'T');
    assert("ToggleUndockReader"@.len() == 18 && "ToggleUndockReader"@[0] == 'T');
}

/// Every fit, layout, rotation, zoom and exit action comes from exactly its
/// own command; the fits to the whole page or its height and the rotations
/// come only while the paged view (not the strip) is shown.
pub proof fn law_setting_commands_set_their_own_setting(id: Seq<char>, continuous: bool)
    ensures
        spec_command_action(id, continuous) == ReaderAction::SetFit(ImageFitMode::Original) <==> id == "Original"@,
        spec_command_action(id, continuous) == ReaderAction::SetFit(ImageFitMode::Fit) <==> id == "FitAll"@ && !continuous,
        spec_command_action(id, continuous) == ReaderAction::SetFit(ImageFitMode::FitWidth) <==> id == "FitWidth"@,
        spec_command_action(id, continuous) == ReaderAction::SetFit(ImageFitMode::FitWidthAdaptive) <==> id == "FitWidthAdaptive"@,
        spec_command_action(id, continuous) == ReaderAction::SetFit(ImageFitMode::FitHeight) <==> id == "FitHeight"@ && !continuous,
        spec_command_action(id, continuous) == ReaderAction::SetFit(ImageFitMode::BestFit) <==> id == "FitBest"@,
        spec_command_action(id, continuous) == ReaderAction::SetLayout(PageLayoutMode::Single) <==> id == "SinglePage"@,
        spec_command_action(id, continuous) == ReaderAction::SetLayout(PageLayoutMode::Double) <==> id == "TwoPages"@,
        spec_command_action(id, continuous) == ReaderAction::SetLayout(PageLayoutMode::DoubleAdaptive) <==> id == "TwoPagesAdaptive"@,
        spec_command_action(id, continuous) == ReaderAction::SetLayout(PageLayoutMode::Continuous) <==> id == "Continuous"@,
        spec_command_action(id, continuous) == ReaderAction::RotateRight <==> id == "RotateC"@ && !continuous,
        spec_command_action(id, continuous) == ReaderAction::RotateLeft <==> id == "RotateCC"@ && !continuous,
        spec_command_action(id, continuous) == ReaderAction::ToggleAutoRotate <==> id == "AutoRotate"@ && !continuous,
        spec_command_action(id, continuous) == ReaderAction::ZoomIn <==> id == "ZoomIn"@,
        spec_command_action(id, continuous) == ReaderAction::ZoomOut <==> id == "ZoomOut"@,
        spec_command_action(id, continuous) == ReaderAction::StepZoomIn <==> id == "StepZoomIn"@,
        spec_command_action(id, continuous) == ReaderAction::StepZoomOut <==> id == "StepZoomOut"@,
        spec_command_action(id, continuous) == ReaderAction::PageRotateRight <==> id == "PageRotateC"@,
        spec_command_action(id, continuous) == ReaderAction::PageRotateLeft <==> id == "PageRotateCC"@,
        spec_command_action(id, continuous) == ReaderAction::Exit <==> id == "Exit"@,
{
    reveal_strlit("AutoRotate");
    reveal_strlit("Continuous");
    reveal_strlit("DoublePageAutoScroll");
    reveal_strlit("Exit");
    reveal_strlit("FitAll");
    reveal_strlit("FitBest");
    reveal_strlit("FitHeight");
    reveal_strlit("FitWidth");
    reveal_strlit("FitWidthAdaptive");
    reveal_strlit("MoveDown");
    reveal_strlit("MoveFirstPart");
    reveal_strlit("MoveLastPart");
    reveal_strlit("MoveLeft");
    reveal_strlit("MoveNextPart");
    reveal_strlit("MovePartDown10");
    reveal_strlit("MovePartUp10");
    reveal_strlit("MovePrevPart");
    reveal_strlit("MoveRight");
    reveal_strlit("MoveToFirstPage");
    reveal_strlit("MoveToLastPage");
    reveal_strlit("MoveToNextPage");
    reveal_strlit("MoveToNextPageSingle");
    reveal_strlit("MoveToPrevPageSingle");
    reveal_strlit("MoveToPreviousPage");
    reveal_strlit("MoveUp");
    reveal_strlit("NextTab");
    reveal_strlit("OnlyFitIfOversized");
    reveal_strlit("Original");
    reveal_strlit("PageRotateC");
    reveal_strlit("PageRotateCC");
    reveal_strlit("PrevTab");
    reveal_strlit("RightToLeft");
    reveal_strlit("RotateC");
    reveal_strlit("RotateCC");
    reveal_strlit("SinglePage");
    reveal_strlit("StepZoomIn");
    reveal_strlit("StepZoomOut");
    reveal_strlit("ToggleAutoScrolling");
    reveal_strlit("ToggleFullScreen");
    reveal_strlit("ToggleMagnify");
    reveal_strlit("ToggleMenu");
    reveal_strlit("ToggleRealisticPages");
    reveal_strlit("ToggleTwoPages");
    reveal_strlit("ToggleUndockReader");
    reveal_strlit("TwoPages");
    reveal_strlit("TwoPagesAdaptive");
    reveal_strlit("ZoomIn");
    reveal_strlit("ZoomOut");
    assert("AutoRotate"@.len() == 10 && "AutoRotate"@[0] == 'A');
    assert("Continuous"@.len() == 10 && "Continuous"@[0] == 'C');
    assert("DoublePageAutoScroll"@.len() == 20 && "DoublePageAutoScroll"@[0] == 'D');
    assert("Exit"@.len() == 4 && "Exit"@[0] == 'E');
    assert("FitAll"@.len() == 6 && "FitAll"@[0] == 'F');
    assert("FitBest"@.len() == 7 && "FitBest"@[0] == 'F');
    assert("FitHeight"@.len() == 9 && "FitHeight"@[0] == 'F');
    assert("FitWidth"@.len() == 8 && "FitWidth"@[0] == 'F');
    assert("FitWidthAdaptive"@.len() == 16 && "FitWidthAdaptive"@[0] == 'F');
    assert("MoveDown"@.len() == 8 && "MoveDown"@[0] == 'M');
    assert("MoveFirstPart"@.len() == 13 && "MoveFirstPart"@[0] == 'M');
    assert("MoveLastPart"@.len() == 12 && "MoveLastPart"@[0] == 'M');
    assert("MoveLeft"@.len() == 8 && "MoveLeft"@[0] == 'M');
    assert("MoveNextPart"@.len() == 12 && "MoveNextPart"@[0] == 'M');
    assert("MovePartDown10"@.len() == 14 && "MovePartDown10"@[0] == 'M');
    assert("MovePartUp10"@.len() == 12 && "MovePartUp10"@[0] == 'M');
    assert("MovePrevPart"@.len() == 12 && "MovePrevPart"@[0] == 'M');
    assert("MoveRight"@.len() == 9 && "MoveRight"@[0] == 'M');
    assert("MoveToFirstPage"@.len() == 15 && "MoveToFirstPage"@[0] == 'M');
    assert("MoveToLastPage"@.len() == 14 && "MoveToLastPage"@[0] == 'M');
    assert("MoveToNextPage"@.len() == 14 && "MoveToNextPage"@[0] == 'M');
    assert("MoveToNextPageSingle"@.len() == 20 && "MoveToNextPageSingle"@[0] == 'M');
    assert("MoveToPrevPageSingle"@.len() == 20 && "MoveToPrevPageSingle"@[0] == 'M');
    assert("MoveToPreviousPage"@.len() == 18 && "MoveToPreviousPage"@[0] == 'M');
    assert("MoveUp"@.len() == 6 && "MoveUp"@[0] == 'M');
    assert("NextTab"@.len() == 7 && "NextTab"@[0] == 'N');
    assert("OnlyFitIfOversized"@.len() == 18 && "OnlyFitIfOversized"@[0] == 'O');
    assert("Original"@.len() == 8 && "Original"@[0] == 'O');
    assert("PageRotateC"@.len() == 11 && "PageRotateC"@[0] == 'P');
    assert("PageRotateCC"@.len() == 12 && "PageRotateCC"@[0] == 'P');
    assert("PrevTab"@.len() == 7 && "PrevTab"@[0] == 'P');
    assert("RightToLeft"@.len() == 11 && "RightToLeft"@[0] == 'R');
    assert("RotateC"@.len() == 7 && "RotateC"@[0] == 'R');
    assert("RotateCC"@.len() == 8 && "RotateCC"@[0] == 'R');
    assert("SinglePage"@.len() == 10 && "SinglePage"@[0] == 'S' && "SinglePage"@[1] == 'i');
    assert("StepZoomIn"@.len() == 10 && "StepZoomIn"@[0] == 'S' && "StepZoomIn"@[1] == 't');
    assert("StepZoomOut"@.len() == 11 && "StepZoomOut"@[0] == 'S');
    assert("ToggleAutoScrolling"@.len() == 19 && "ToggleAutoScrolling"@[0] == 'T');
    assert("ToggleFullScreen"@.len() == 16 && "ToggleFullScreen"@[0] == 'T' && "ToggleFullScreen"@[1] == 'o');
    assert("ToggleMagnify"@.len() == 13 && "ToggleMagnify"@[0] == 'T');
    assert("ToggleMenu"@.len() == 10 && "ToggleMenu"@[0] == 'T');
    assert("ToggleRealisticPages"@.len() == 20 && "ToggleRealisticPages"@[0] == 'T');
    assert("ToggleTwoPages"@.len() == 14 && "ToggleTwoPages"@[0] == 'T');
    assert("ToggleUndockReader"@.len() == 18 && "ToggleUndockReader"@[0] == 'T');
    assert("TwoPages"@.len() == 8 && "TwoPages"@[0] == 'T');
    assert("TwoPagesAdaptive"@.len() == 16 && "TwoPagesAdaptive"@[0] == 'T' && "TwoPagesAdaptive"@[1] == 'w');
    assert("ZoomIn"@.len() == 6 && "ZoomIn"@[0] == 'Z');
    assert("ZoomOut"@.len() == 7 && "ZoomOut"@[0] == 'Z');
}

/// The action an input dispatches to: the action of the first command
/// bound to it, or none when no command is.
pub open spec fn spec_input_action(k: CommandKey, continuous: bool) -> Option<ReaderAction> {
    let i = spec_first_command(k);
    if i < 0 {
        None
    } else {
        Some(spec_command_action(spec_command_id(i), continuous))
    }
}

/// The navigation keys go their own way: Page Up steps back and Page Down
/// forward (by spreads; with Shift by single pages, with Ctrl to the first
/// and last page), Home and End go to the first and last part, Space to the
/// next part or page and Shift+Space back, and each arrow scrolls its own
/// way.
pub proof fn law_navigation_keys_go_their_way(continuous: bool)
    ensures
        spec_input_action(spec_ck(Key::PageUp), continuous) == Some(ReaderAction::PreviousPage),
        spec_input_action(spec_ck(Key::PageDown), continuous) == Some(ReaderAction::NextPage),
        spec_input_action(spec_ckm(Key::PageUp, false, true, false), continuous) == Some(ReaderAction::PreviousPageSingle),
        spec_input_action(spec_ckm(Key::PageDown, false, true, false), continuous) == Some(ReaderAction::NextPageSingle),
        spec_input_action(spec_ckm(Key::Home, true, false, false), continuous) == Some(ReaderAction::FirstPage),
        spec_input_action(spec_ckm(Key::End, true, false, false), continuous) == Some(ReaderAction::LastPage),
        spec_input_action(spec_ck(Key::Home), continuous) == Some(ReaderAction::FirstPart),
        spec_input_action(spec_ck(Key::End), continuous) == Some(ReaderAction::LastPart),
        spec_input_action(spec_ck(Key::Space), continuous) == Some(ReaderAction::NextPageOrPart),
        spec_input_action(spec_ckm(Key::Space, false, true, false), continuous) == Some(ReaderAction::PreviousPageOrPart),
        spec_input_action(spec_ck(Key::Up), continuous) == Some(ReaderAction::ScrollUp),
        spec_input_action(spec_ck(Key::Down), continuous) == Some(ReaderAction::ScrollDown),
        spec_input_action(spec_ck(Key::Left), continuous) == Some(ReaderAction::ScrollLeft),
        spec_input_action(spec_ck(Key::Right), continuous) == Some(ReaderAction::ScrollRight),
{
    lemma_first_command_is_owner(spec_ck(Key::PageUp));
    law_navigation_commands_keep_their_direction(spec_command_id(spec_first_command(spec_ck(Key::PageUp))), continuous);
    lemma_first_command_is_owner(spec_ck(Key::PageDown));
    law_navigation_commands_keep_their_direction(spec_command_id(spec_first_command(spec_ck(Key::PageDown))), continuous);
    lemma_first_command_is_owner(spec_ckm(Key::PageUp, false, true, false));
    law_navigation_commands_keep_their_direction(spec_command_id(spec_first_command(spec_ckm(Key::PageUp, false, true, false))), continuous);
    lemma_first_command_is_owner(spec_ckm(Key::PageDown, false, true, false));
    law_navigation_commands_keep_their_direction(spec_command_id(spec_first_command(spec_ckm(Key::PageDown, false, true, false))), continuous);
    lemma_first_command_is_owner(spec_ckm(Key::Home, true, false, false));
    law_navigation_commands_keep_their_direction(spec_command_id(spec_first_command(spec_ckm(Key::Home, true, false, false))), continuous);
    lemma_first_command_is_owner(spec_ckm(Key::End, true, false, false));
    law_navigation_commands_keep_their_direction(spec_command_id(spec_first_command(spec_ckm(Key::End, true, false, false))), continuous);
    lemma_first_command_is_owner(spec_ck(Key::Home));
    law_navigation_commands_keep_their_direction(spec_command_id(spec_first_command(spec_ck(Key::Home))), continuous);
    lemma_first_command_is_owner(spec_ck(Key::End));
    law_navigation_commands_keep_their_direction(spec_command_id(spec_first_command(spec_ck(Key::End))), continuous);
    lemma_first_command_is_owner(spec_ck(Key::Space));
    law_navigation_commands_keep_their_direction(spec_command_id(spec_first_command(spec_ck(Key::Space))), continuous);
    lemma_first_command_is_owner(spec_ckm(Key::Space, false, true, false));
    law_navigation_commands_keep_their_direction(spec_command_id(spec_first_command(spec_ckm(Key::Space, false, true, false))), continuous);
    lemma_first_command_is_owner(spec_ck(Key::Up));
    law_navigation_commands_keep_their_direction(spec_command_id(spec_first_command(spec_ck(Key::Up))), continuous);
    lemma_first_command_is_owner(spec_ck(Key::Down));
    law_navigation_commands_keep_their_direction(spec_command_id(spec_first_command(spec_ck(Key::Down))), continuous);
    lemma_first_command_is_owner(spec_ck(Key::Left));
    law_navigation_commands_keep_their_direction(spec_command_id(spec_first_command(spec_ck(Key::Left))), continuous);
    lemma_first_command_is_owner(spec_ck(Key::Right));
    law_navigation_commands_keep_their_direction(spec_command_id(spec_first_command(spec_ck(Key::Right))), continuous);
}

/// The action of the command `id` (see [`spec_command_action`]).
pub fn command_action(id: &str, continuous: bool) -> (r: ReaderAction)
    ensures
        r == spec_command_action(id@, continuous),
{
    if same_text(id, "MoveToFirstPage") {
        ReaderAction::FirstPage
    } else if same_text(id, "MoveToPreviousPage") {
        ReaderAction::PreviousPage
    } else if same_text(id, "MoveToNextPage") {
        ReaderAction::NextPage
    } else if same_text(id, "MoveToLastPage") {
        ReaderAction::LastPage
    } else if same_text(id, "PrevTab") {
        ReaderAction::ForwardToShell
    } else if same_text(id, "NextTab") {
        ReaderAction::ForwardToShell
    } else if same_text(id, "ToggleUndockReader") {
        ReaderAction::ForwardToShell
    } else if same_text(id, "ToggleMenu") {
        ReaderAction::ForwardToShell
    } else if same_text(id, "MoveToPrevPageSingle") {
        ReaderAction::PreviousPageSingle
    } else if same_text(id, "MoveToNextPageSingle") {
        ReaderAction::NextPageSingle
    } else if same_text(id, "MovePrevPart") {
        ReaderAction::PreviousPageOrPart
    } else if same_text(id, "MoveNextPart") {
        ReaderAction::NextPageOrPart
    } else if same_text(id, "MoveFirstPart") {
        ReaderAction::FirstPart
    } else if same_text(id, "MoveLastPart") {
        ReaderAction::LastPart
    } else if same_text(id, "MovePartDown10") {
        ReaderAction::PartDown
    } else if same_text(id, "MovePartUp10") {
        ReaderAction::PartUp
    } else if same_text(id, "ToggleAutoScrolling") {
        ReaderAction::ToggleAutoScrolling
    } else if same_text(id, "DoublePageAutoScroll") {
        ReaderAction::ToggleTwoPageNavigation
    } else if same_text(id, "MoveUp") {
        ReaderAction::ScrollUp
    } else if same_text(id, "MoveDown") {
        ReaderAction::ScrollDown
    } else if same_text(id, "MoveLeft") {
        ReaderAction::ScrollLeft
    } else if same_text(id, "MoveRight") {
        ReaderAction::ScrollRight
    } else if same_text(id, "ToggleFullScreen") {
        ReaderAction::ToggleFullScreen
    } else if same_text(id, "ToggleTwoPages") {
        ReaderAction::ToggleTwoPages
    } else if same_text(id, "ToggleRealisticPages") {
        ReaderAction::ToggleRealisticPages
    } else if same_text(id, "ToggleMagnify") {
        ReaderAction::ToggleMagnifier
    } else if same_text(id, "Original") {
        ReaderAction::SetFit(ImageFitMode::Original)
    } else if same_text(id, "FitAll") {
        if continuous { ReaderAction::Nothing } else { ReaderAction::SetFit(ImageFitMode::Fit) }
    } else if same_text(id, "FitWidth") {
        ReaderAction::SetFit(ImageFitMode::FitWidth)
    } else if same_text(id, "FitWidthAdaptive") {
        ReaderAction::SetFit(ImageFitMode::FitWidthAdaptive)
    } else if same_text(id, "FitHeight") {
        if continuous { ReaderAction::Nothing } else { ReaderAction::SetFit(ImageFitMode::FitHeight) }
    } else if same_text(id, "FitBest") {
        ReaderAction::SetFit(ImageFitMode::BestFit)
    } else if same_text(id, "SinglePage") {
        ReaderAction::SetLayout(PageLayoutMode::Single)
    } else if same_text(id, "TwoPages") {
        ReaderAction::SetLayout(PageLayoutMode::Double)
    } else if same_text(id, "TwoPagesAdaptive") {
        ReaderAction::SetLayout(PageLayoutMode::DoubleAdaptive)
    } else if same_text(id, "Continuous") {
        ReaderAction::SetLayout(PageLayoutMode::Continuous)
    } else if same_text(id, "RightToLeft") {
        ReaderAction::ToggleRightToLeft
    } else if same_text(id, "OnlyFitIfOversized") {
        ReaderAction::ToggleFitOnlyIfOversized
    } else if same_text(id, "RotateC") {
        if continuous { ReaderAction::Nothing } else { ReaderAction::RotateRight }
    } else if same_text(id, "RotateCC") {
        if continuous { ReaderAction::Nothing } else { ReaderAction::RotateLeft }
    } else if same_text(id, "AutoRotate") {
        if continuous { ReaderAction::Nothing } else { ReaderAction::ToggleAutoRotate }
    } else if same_text(id, "ZoomIn") {
        ReaderAction::ZoomIn
    } else if same_text(id, "ZoomOut") {
        ReaderAction::ZoomOut
    } else if same_text(id, "StepZoomIn") {
        ReaderAction::StepZoomIn
    } else if same_text(id, "StepZoomOut") {
        ReaderAction::StepZoomOut
    } else if same_text(id, "PageRotateC") {
        ReaderAction::PageRotateRight
    } else if same_text(id, "PageRotateCC") {
        ReaderAction::PageRotateLeft
    } else if same_text(id, "Exit") {
        ReaderAction::Exit
    } else {
        ReaderAction::Nothing
    }
}

} // verus!
