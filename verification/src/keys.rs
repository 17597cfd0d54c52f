//! The reader's keyboard and pointer command table, and the lookup that
//! dispatches an input to the first command bound to it.

use vstd::prelude::*;

verus! {

/// A key or pointer input: letters, digits, navigation keys and the mouse
/// and wheel pseudo-keys the reader binds.
#[derive(Clone, Copy, Debug, PartialEq, Eq, Structural)]
pub enum Key {
    A,
    B,
    C,
    D,
    E,
    F,
    G,
    H,
    I,
    J,
    K,
    L,
    M,
    N,
    O,
    P,
    Q,
    R,
    S,
    T,
    U,
    V,
    W,
    X,
    Y,
    Z,
    D0,
    D1,
    D2,
    D3,
    D4,
    D5,
    D6,
    D7,
    D8,
    D9,
    Up,
    Down,
    Left,
    Right,
    Tab,
    Home,
    End,
    PageUp,
    PageDown,
    Space,
    Escape,
    MouseLeft,
    MouseDoubleLeft,
    MouseWheelUp,
    MouseWheelDown,
    MouseTiltLeft,
    MouseTiltRight,
}

/// Modifier state of an input.
#[derive(Clone, Copy, Debug, Default, PartialEq, Eq, Structural)]
pub struct Mods {
    pub ctrl: bool,
    pub shift: bool,
    pub alt: bool,
}

/// A key or pointer input together with its modifiers.
#[derive(Clone, Copy, Debug, PartialEq, Eq, Structural)]
pub struct CommandKey {
    pub key: Key,
    pub mods: Mods,
}

/// One reader command: its id (which the page view dispatches on), its
/// group and caption, and its default inputs.
#[derive(Debug, PartialEq, Eq)]
pub struct Command {
    pub id: &'static str,
    pub group: &'static str,
    pub text: &'static str,
    pub keys: Vec<CommandKey>,
}

/// An input without modifiers.
pub open spec fn spec_ck(key: Key) -> CommandKey {
    CommandKey { key, mods: Mods { ctrl: false, shift: false, alt: false } }
}

/// An input with the given modifiers.
pub open spec fn spec_ckm(key: Key, ctrl: bool, shift: bool, alt: bool) -> CommandKey {
    CommandKey { key, mods: Mods { ctrl, shift, alt } }
}

/// An input without modifiers.
pub fn ck(key: Key) -> (r: CommandKey)
    ensures
        r == spec_ck(key),
{
    CommandKey { key, mods: Mods { ctrl: false, shift: false, alt: false } }
}

/// An input with the given modifiers.
pub fn ckm(key: Key, ctrl: bool, shift: bool, alt: bool) -> (r: CommandKey)
    ensures
        r == spec_ckm(key, ctrl, shift, alt),
{
    CommandKey { key, mods: Mods { ctrl, shift, alt } }
}

/// The number of commands in the table.
pub open spec fn command_count() -> int {
    53
}

/// The id of the `i`-th command, in registration order.
pub open spec fn spec_command_id(i: int) -> Seq<char> {
    if i == 0 {
        "NextComic"@
    } else if i == 1 {
        "PrevComic"@
    } else if i == 2 {
        "RandomComic"@
    } else if i == 3 {
        "ShowBrowser"@
    } else if i == 4 {
        "MoveToFirstPage"@
    } else if i == 5 {
        "MoveToPreviousPage"@
    } else if i == 6 {
        "MoveToNextPage"@
    } else if i == 7 {
        "MoveToLastPage"@
    } else if i == 8 {
        "MoveToPrevBookmark"@
    } else if i == 9 {
        "MoveToNextBookmark"@
    } else if i == 10 {
        "PrevTab"@
    } else if i == 11 {
        "NextTab"@
    } else if i == 12 {
        "MoveToPrevPageSingle"@
    } else if i == 13 {
        "MoveToNextPageSingle"@
    } else if i == 14 {
        "MovePrevPart"@
    } else if i == 15 {
        "MoveNextPart"@
    } else if i == 16 {
        "MoveFirstPart"@
    } else if i == 17 {
        "MoveLastPart"@
    } else if i == 18 {
        "MovePartDown10"@
    } else if i == 19 {
        "MovePartUp10"@
    } else if i == 20 {
        "ToggleAutoScrolling"@
    } else if i == 21 {
        "DoublePageAutoScroll"@
    } else if i == 22 {
        "MoveUp"@
    } else if i == 23 {
        "MoveDown"@
    } else if i == 24 {
        "MoveLeft"@
    } else if i == 25 {
        "MoveRight"@
    } else if i == 26 {
        "ToggleUndockReader"@
    } else if i == 27 {
        "ToggleFullScreen"@
    } else if i == 28 {
        "ToggleTwoPages"@
    } else if i == 29 {
        "ToggleRealisticPages"@
    } else if i == 30 {
        "ToggleMagnify"@
    } else if i == 31 {
        "ToggleMenu"@
    } else if i == 32 {
        "Original"@
    } else if i == 33 {
        "FitAll"@
    } else if i == 34 {
        "FitWidth"@
    } else if i == 35 {
        "FitWidthAdaptive"@
    } else if i == 36 {
        "FitHeight"@
    } else if i == 37 {
        "FitBest"@
    } else if i == 38 {
        "SinglePage"@
    } else if i == 39 {
        "TwoPages"@
    } else if i == 40 {
        "TwoPagesAdaptive"@
    } else if i == 41 {
        "RightToLeft"@
    } else if i == 42 {
        "OnlyFitIfOversized"@
    } else if i == 43 {
        "RotateC"@
    } else if i == 44 {
        "RotateCC"@
    } else if i == 45 {
        "AutoRotate"@
    } else if i == 46 {
        "ZoomIn"@
    } else if i == 47 {
        "ZoomOut"@
    } else if i == 48 {
        "StepZoomIn"@
    } else if i == 49 {
        "StepZoomOut"@
    } else if i == 50 {
        "PageRotateC"@
    } else if i == 51 {
        "PageRotateCC"@
    } else if i == 52 {
        "Exit"@
    } else {
        Seq::empty()
    }
}

/// The group of the `i`-th command.
pub open spec fn spec_command_group(i: int) -> Seq<char> {
    if i == 0 {
        "Library"@
    } else if i == 1 {
        "Library"@
    } else if i == 2 {
        "Library"@
    } else if i == 3 {
        "Library"@
    } else if i == 4 {
        "Browse"@
    } else if i == 5 {
        "Browse"@
    } else if i == 6 {
        "Browse"@
    } else if i == 7 {
        "Browse"@
    } else if i == 8 {
        "Browse"@
    } else if i == 9 {
        "Browse"@
    } else if i == 10 {
        "Browse"@
    } else if i == 11 {
        "Browse"@
    } else if i == 12 {
        "Browse"@
    } else if i == 13 {
        "Browse"@
    } else if i == 14 {
        "Auto Scroll"@
    } else if i == 15 {
        "Auto Scroll"@
    } else if i == 16 {
        "Auto Scroll"@
    } else if i == 17 {
        "Auto Scroll"@
    } else if i == 18 {
        "Auto Scroll"@
    } else if i == 19 {
        "Auto Scroll"@
    } else if i == 20 {
        "Scroll"@
    } else if i == 21 {
        "Scroll"@
    } else if i == 22 {
        "Scroll"@
    } else if i == 23 {
        "Scroll"@
    } else if i == 24 {
        "Scroll"@
    } else if i == 25 {
        "Scroll"@
    } else if i == 26 {
        "Display Options"@
    } else if i == 27 {
        "Display Options"@
    } else if i == 28 {
        "Display Options"@
    } else if i == 29 {
        "Display Options"@
    } else if i == 30 {
        "Display Options"@
    } else if i == 31 {
        "Display Options"@
    } else if i == 32 {
        "Page Display"@
    } else if i == 33 {
        "Page Display"@
    } else if i == 34 {
        "Page Display"@
    } else if i == 35 {
        "Page Display"@
    } else if i == 36 {
        "Page Display"@
    } else if i == 37 {
        "Page Display"@
    } else if i == 38 {
        "Page Display"@
    } else if i == 39 {
        "Page Display"@
    } else if i == 40 {
        "Page Display"@
    } else if i == 41 {
        "Page Display"@
    } else if i == 42 {
        "Page Display"@
    } else if i == 43 {
        "ZoomAndRotate"@
    } else if i == 44 {
        "ZoomAndRotate"@
    } else if i == 45 {
        "ZoomAndRotate"@
    } else if i == 46 {
        "ZoomAndRotate"@
    } else if i == 47 {
        "ZoomAndRotate"@
    } else if i == 48 {
        "ZoomAndRotate"@
    } else if i == 49 {
        "ZoomAndRotate"@
    } else if i == 50 {
        "Edit"@
    } else if i == 51 {
        "Edit"@
    } else if i == 52 {
        "Other"@
    } else {
        Seq::empty()
    }
}

/// The caption of the `i`-th command.
pub open spec fn spec_command_text(i: int) -> Seq<char> {
    if i == 0 {
        "Next Book"@
    } else if i == 1 {
        "Previous Book"@
    } else if i == 2 {
        "Random Book"@
    } else if i == 3 {
        "Show Browser"@
    } else if i == 4 {
        "First Page"@
    } else if i == 5 {
        "Previous Page"@
    } else if i == 6 {
        "Next Page"@
    } else if i == 7 {
        "Last Page"@
    } else if i == 8 {
        "Previous Bookmark"@
    } else if i == 9 {
        "Next Bookmark"@
    } else if i == 10 {
        "Previous Tab"@
    } else if i == 11 {
        "Next Tab"@
    } else if i == 12 {
        "Single Page Back"@
    } else if i == 13 {
        "Single Page Forward"@
    } else if i == 14 {
        "Previous Part"@
    } else if i == 15 {
        "Next Part"@
    } else if i == 16 {
        "Page Start"@
    } else if i == 17 {
        "Page End"@
    } else if i == 18 {
        "Move Part 10% down"@
    } else if i == 19 {
        "Move Part 10% up"@
    } else if i == 20 {
        "Toggle Auto Scrolling"@
    } else if i == 21 {
        "Double Page Auto Scroll"@
    } else if i == 22 {
        "Up"@
    } else if i == 23 {
        "Down"@
    } else if i == 24 {
        "Left"@
    } else if i == 25 {
        "Right"@
    } else if i == 26 {
        "Toggle Undock Reader"@
    } else if i == 27 {
        "Toggle Full Screen"@
    } else if i == 28 {
        "Toggle Two Pages"@
    } else if i == 29 {
        "Toggle Realistic Display"@
    } else if i == 30 {
        "Toggle Magnifier"@
    } else if i == 31 {
        "Toggle Menu"@
    } else if i == 32 {
        "Original Size"@
    } else if i == 33 {
        "Fit All"@
    } else if i == 34 {
        "Fit Width"@
    } else if i == 35 {
        "Fit Width (adaptive)"@
    } else if i == 36 {
        "Fit Height"@
    } else if i == 37 {
        "Best Fit"@
    } else if i == 38 {
        "Single Page"@
    } else if i == 39 {
        "Two Pages"@
    } else if i == 40 {
        "Two Pages (adaptive)"@
    } else if i == 41 {
        "Right to Left"@
    } else if i == 42 {
        "Only Fit if oversized"@
    } else if i == 43 {
        "Rotate Right"@
    } else if i == 44 {
        "Rotate Left"@
    } else if i == 45 {
        "Autorotate Double Pages"@
    } else if i == 46 {
        "Zoom In"@
    } else if i == 47 {
        "Zoom Out"@
    } else if i == 48 {
        "Step Zoom In"@
    } else if i == 49 {
        "Step Zoom Out"@
    } else if i == 50 {
        "Rotate Page Right"@
    } else if i == 51 {
        "Rotate Page Left"@
    } else if i == 52 {
        "Exit"@
    } else {
        Seq::empty()
    }
}

/// The default inputs of the `i`-th command.
pub open spec fn spec_command_keys(i: int) -> Seq<CommandKey> {
    if i == 0 {
        seq![spec_ck(Key::N)]
    } else if i == 1 {
        seq![spec_ck(Key::P)]
    } else if i == 2 {
        seq![spec_ck(Key::L)]
    } else if i == 3 {
        seq![spec_ck(Key::MouseLeft), spec_ck(Key::Escape)]
    } else if i == 4 {
        seq![spec_ckm(Key::Home, true, false, false)]
    } else if i == 5 {
        seq![spec_ck(Key::PageUp), spec_ckm(Key::Left, false, false, true)]
    } else if i == 6 {
        seq![spec_ck(Key::PageDown), spec_ckm(Key::Right, false, false, true)]
    } else if i == 7 {
        seq![spec_ckm(Key::End, true, false, false)]
    } else if i == 8 {
        seq![spec_ckm(Key::PageUp, true, false, false)]
    } else if i == 9 {
        seq![spec_ckm(Key::PageDown, true, false, false)]
    } else if i == 10 {
        seq![spec_ckm(Key::Tab, false, true, false)]
    } else if i == 11 {
        seq![spec_ck(Key::Tab)]
    } else if i == 12 {
        seq![spec_ckm(Key::PageUp, false, true, false)]
    } else if i == 13 {
        seq![spec_ckm(Key::PageDown, false, true, false)]
    } else if i == 14 {
        seq![spec_ckm(Key::Space, false, true, false)]
    } else if i == 15 {
        seq![spec_ck(Key::Space)]
    } else if i == 16 {
        seq![spec_ck(Key::Home)]
    } else if i == 17 {
        seq![spec_ck(Key::End)]
    } else if i == 18 {
        seq![spec_ck(Key::V), spec_ckm(Key::Down, true, false, false)]
    } else if i == 19 {
        seq![spec_ck(Key::B), spec_ckm(Key::Up, true, false, false)]
    } else if i == 20 {
        seq![spec_ck(Key::S)]
    } else if i == 21 {
        seq![spec_ckm(Key::S, false, true, false)]
    } else if i == 22 {
        seq![spec_ck(Key::Up), spec_ck(Key::MouseWheelUp)]
    } else if i == 23 {
        seq![spec_ck(Key::Down), spec_ck(Key::MouseWheelDown)]
    } else if i == 24 {
        seq![spec_ck(Key::Left), spec_ck(Key::MouseTiltLeft)]
    } else if i == 25 {
        seq![spec_ck(Key::Right), spec_ck(Key::MouseTiltRight)]
    } else if i == 26 {
        seq![spec_ck(Key::D)]
    } else if i == 27 {
        seq![spec_ck(Key::F), spec_ck(Key::MouseDoubleLeft)]
    } else if i == 28 {
        seq![spec_ck(Key::T)]
    } else if i == 29 {
        seq![spec_ckm(Key::D, false, true, false)]
    } else if i == 30 {
        seq![spec_ck(Key::M)]
    } else if i == 31 {
        seq![spec_ck(Key::K)]
    } else if i == 32 {
        seq![spec_ck(Key::D1)]
    } else if i == 33 {
        seq![spec_ck(Key::D2)]
    } else if i == 34 {
        seq![spec_ck(Key::D3)]
    } else if i == 35 {
        seq![spec_ck(Key::D4)]
    } else if i == 36 {
        seq![spec_ck(Key::D5)]
    } else if i == 37 {
        seq![spec_ck(Key::D6)]
    } else if i == 38 {
        seq![spec_ck(Key::D7)]
    } else if i == 39 {
        seq![spec_ck(Key::D8)]
    } else if i == 40 {
        seq![spec_ck(Key::D9)]
    } else if i == 41 {
        seq![spec_ck(Key::D0)]
    } else if i == 42 {
        seq![spec_ck(Key::O)]
    } else if i == 43 {
        seq![spec_ck(Key::R)]
    } else if i == 44 {
        seq![spec_ckm(Key::R, false, true, false)]
    } else if i == 45 {
        seq![spec_ck(Key::A)]
    } else if i == 46 {
        seq![spec_ckm(Key::MouseWheelUp, true, false, false)]
    } else if i == 47 {
        seq![spec_ckm(Key::MouseWheelDown, true, false, false)]
    } else if i == 48 {
        seq![spec_ck(Key::Z)]
    } else if i == 49 {
        seq![spec_ckm(Key::Z, false, true, false)]
    } else if i == 50 {
        seq![spec_ck(Key::Y)]
    } else if i == 51 {
        seq![spec_ckm(Key::Y, false, true, false)]
    } else if i == 52 {
        seq![spec_ck(Key::Q)]
    } else {
        Seq::empty()
    }
}

/// The index of the command an input is registered to, or -1 when no
/// command uses it.
pub open spec fn spec_key_owner(k: CommandKey) -> int {
    if k == spec_ck(Key::N) {
        0
    } else if k == spec_ck(Key::P) {
        1
    } else if k == spec_ck(Key::L) {
        2
    } else if k == spec_ck(Key::MouseLeft) {
        3
    } else if k == spec_ck(Key::Escape) {
        3
    } else if k == spec_ckm(Key::Home, true, false, false) {
        4
    } else if k == spec_ck(Key::PageUp) {
        5
    } else if k == spec_ckm(Key::Left, false, false, true) {
        5
    } else if k == spec_ck(Key::PageDown) {
        6
    } else if k == spec_ckm(Key::Right, false, false, true) {
        6
    } else if k == spec_ckm(Key::End, true, false, false) {
        7
    } else if k == spec_ckm(Key::PageUp, true, false, false) {
        8
    } else if k == spec_ckm(Key::PageDown, true, false, false) {
        9
    } else if k == spec_ckm(Key::Tab, false, true, false) {
        10
    } else if k == spec_ck(Key::Tab) {
        11
    } else if k == spec_ckm(Key::PageUp, false, true, false) {
        12
    } else if k == spec_ckm(Key::PageDown, false, true, false) {
        13
    } else if k == spec_ckm(Key::Space, false, true, false) {
        14
    } else if k == spec_ck(Key::Space) {
        15
    } else if k == spec_ck(Key::Home) {
        16
    } else if k == spec_ck(Key::End) {
        17
    } else if k == spec_ck(Key::V) {
        18
    } else if k == spec_ckm(Key::Down, true, false, false) {
        18
    } else if k == spec_ck(Key::B) {
        19
    } else if k == spec_ckm(Key::Up, true, false, false) {
        19
    } else if k == spec_ck(Key::S) {
        20
    } else if k == spec_ckm(Key::S, false, true, false) {
        21
    } else if k == spec_ck(Key::Up) {
        22
    } else if k == spec_ck(Key::MouseWheelUp) {
        22
    } else if k == spec_ck(Key::Down) {
        23
    } else if k == spec_ck(Key::MouseWheelDown) {
        23
    } else if k == spec_ck(Key::Left) {
        24
    } else if k == spec_ck(Key::MouseTiltLeft) {
        24
    } else if k == spec_ck(Key::Right) {
        25
    } else if k == spec_ck(Key::MouseTiltRight) {
        25
    } else if k == spec_ck(Key::D) {
        26
    } else if k == spec_ck(Key::F) {
        27
    } else if k == spec_ck(Key::MouseDoubleLeft) {
        27
    } else if k == spec_ck(Key::T) {
        28
    } else if k == spec_ckm(Key::D, false, true, false) {
        29
    } else if k == spec_ck(Key::M) {
        30
    } else if k == spec_ck(Key::K) {
        31
    } else if k == spec_ck(Key::D1) {
        32
    } else if k == spec_ck(Key::D2) {
        33
    } else if k == spec_ck(Key::D3) {
        34
    } else if k == spec_ck(Key::D4) {
        35
    } else if k == spec_ck(Key::D5) {
        36
    } else if k == spec_ck(Key::D6) {
        37
    } else if k == spec_ck(Key::D7) {
        38
    } else if k == spec_ck(Key::D8) {
        39
    } else if k == spec_ck(Key::D9) {
        40
    } else if k == spec_ck(Key::D0) {
        41
    } else if k == spec_ck(Key::O) {
        42
    } else if k == spec_ck(Key::R) {
        43
    } else if k == spec_ckm(Key::R, false, true, false) {
        44
    } else if k == spec_ck(Key::A) {
        45
    } else if k == spec_ckm(Key::MouseWheelUp, true, false, false) {
        46
    } else if k == spec_ckm(Key::MouseWheelDown, true, false, false) {
        47
    } else if k == spec_ck(Key::Z) {
        48
    } else if k == spec_ckm(Key::Z, false, true, false) {
        49
    } else if k == spec_ck(Key::Y) {
        50
    } else if k == spec_ckm(Key::Y, false, true, false) {
        51
    } else if k == spec_ck(Key::Q) {
        52
    } else {
        -1
    }
}

/// The reader commands in registration order. The order decides which
/// command an input dispatches to when several list it.
pub fn commands() -> (r: Vec<Command>)
    ensures
        r@.len() == command_count(),
        forall|i: int|
            0 <= i < command_count() ==> {
                &&& (#[trigger] r@[i]).id@ == spec_command_id(i)
                &&& r@[i].group@ == spec_command_group(i)
                &&& r@[i].text@ == spec_command_text(i)
                &&& r@[i].keys@ == spec_command_keys(i)
            },
{
    let mut v: Vec<Command> = Vec::new();
    v.push(Command { id: "NextComic", group: "Library", text: "Next Book", keys: vec![ck(Key::N)] });
    assert(v@[0].keys@ == spec_command_keys(0));
    v.push(Command { id: "PrevComic", group: "Library", text: "Previous Book", keys: vec![ck(Key::P)] });
    assert(v@[1].keys@ == spec_command_keys(1));
    v.push(Command { id: "RandomComic", group: "Library", text: "Random Book", keys: vec![ck(Key::L)] });
    assert(v@[2].keys@ == spec_command_keys(2));
    v.push(Command { id: "ShowBrowser", group: "Library", text: "Show Browser", keys: vec![ck(Key::MouseLeft), ck(Key::Escape)] });
    assert(v@[3].keys@ == spec_command_keys(3));
    v.push(Command { id: "MoveToFirstPage", group: "Browse", text: "First Page", keys: vec![ckm(Key::Home, true, false, false)] });
    assert(v@[4].keys@ == spec_command_keys(4));
    v.push(Command { id: "MoveToPreviousPage", group: "Browse", text: "Previous Page", keys: vec![ck(Key::PageUp), ckm(Key::Left, false, false, true)] });
    assert(v@[5].keys@ == spec_command_keys(5));
    v.push(Command { id: "MoveToNextPage", group: "Browse", text: "Next Page", keys: vec![ck(Key::PageDown), ckm(Key::Right, false, false, true)] });
    assert(v@[6].keys@ == spec_command_keys(6));
    v.push(Command { id: "MoveToLastPage", group: "Browse", text: "Last Page", keys: vec![ckm(Key::End, true, false, false)] });
    assert(v@[7].keys@ == spec_command_keys(7));
    v.push(Command { id: "MoveToPrevBookmark", group: "Browse", text: "Previous Bookmark", keys: vec![ckm(Key::PageUp, true, false, false)] });
    assert(v@[8].keys@ == spec_command_keys(8));
    v.push(Command { id: "MoveToNextBookmark", group: "Browse", text: "Next Bookmark", keys: vec![ckm(Key::PageDown, true, false, false)] });
    assert(v@[9].keys@ == spec_command_keys(9));
    v.push(Command { id: "PrevTab", group: "Browse", text: "Previous Tab", keys: vec![ckm(Key::Tab, false, true, false)] });
    assert(v@[10].keys@ == spec_command_keys(10));
    v.push(Command { id: "NextTab", group: "Browse", text: "Next Tab", keys: vec![ck(Key::Tab)] });
    assert(v@[11].keys@ == spec_command_keys(11));
    v.push(Command { id: "MoveToPrevPageSingle", group: "Browse", text: "Single Page Back", keys: vec![ckm(Key::PageUp, false, true, false)] });
    assert(v@[12].keys@ == spec_command_keys(12));
    v.push(Command { id: "MoveToNextPageSingle", group: "Browse", text: "Single Page Forward", keys: vec![ckm(Key::PageDown, false, true, false)] });
    assert(v@[13].keys@ == spec_command_keys(13));
    v.push(Command { id: "MovePrevPart", group: "Auto Scroll", text: "Previous Part", keys: vec![ckm(Key::Space, false, true, false)] });
    assert(v@[14].keys@ == spec_command_keys(14));
    v.push(Command { id: "MoveNextPart", group: "Auto Scroll", text: "Next Part", keys: vec![ck(Key::Space)] });
    assert(v@[15].keys@ == spec_command_keys(15));
    v.push(Command { id: "MoveFirstPart", group: "Auto Scroll", text: "Page Start", keys: vec![ck(Key::Home)] });
    assert(v@[16].keys@ == spec_command_keys(16));
    v.push(Command { id: "MoveLastPart", group: "Auto Scroll", text: "Page End", keys: vec![ck(Key::End)] });
    assert(v@[17].keys@ == spec_command_keys(17));
    v.push(Command { id: "MovePartDown10", group: "Auto Scroll", text: "Move Part 10% down", keys: vec![ck(Key::V), ckm(Key::Down, true, false, false)] });
    assert(v@[18].keys@ == spec_command_keys(18));
    v.push(Command { id: "MovePartUp10", group: "Auto Scroll", text: "Move Part 10% up", keys: vec![ck(Key::B), ckm(Key::Up, true, false, false)] });
    assert(v@[19].keys@ == spec_command_keys(19));
    v.push(Command { id: "ToggleAutoScrolling", group: "Scroll", text: "Toggle Auto Scrolling", keys: vec![ck(Key::S)] });
    assert(v@[20].keys@ == spec_command_keys(20));
    v.push(Command { id: "DoublePageAutoScroll", group: "Scroll", text: "Double Page Auto Scroll", keys: vec![ckm(Key::S, false, true, false)] });
    assert(v@[21].keys@ == spec_command_keys(21));
    v.push(Command { id: "MoveUp", group: "Scroll", text: "Up", keys: vec![ck(Key::Up), ck(Key::MouseWheelUp)] });
    assert(v@[22].keys@ == spec_command_keys(22));
    v.push(Command { id: "MoveDown", group: "Scroll", text: "Down", keys: vec![ck(Key::Down), ck(Key::MouseWheelDown)] });
    assert(v@[23].keys@ == spec_command_keys(23));
    v.push(Command { id: "MoveLeft", group: "Scroll", text: "Left", keys: vec![ck(Key::Left), ck(Key::MouseTiltLeft)] });
    assert(v@[24].keys@ == spec_command_keys(24));
    v.push(Command { id: "MoveRight", group: "Scroll", text: "Right", keys: vec![ck(Key::Right), ck(Key::MouseTiltRight)] });
    assert(v@[25].keys@ == spec_command_keys(25));
    v.push(Command { id: "ToggleUndockReader", group: "Display Options", text: "Toggle Undock Reader", keys: vec![ck(Key::D)] });
    assert(v@[26].keys@ == spec_command_keys(26));
    v.push(Command { id: "ToggleFullScreen", group: "Display Options", text: "Toggle Full Screen", keys: vec![ck(Key::F), ck(Key::MouseDoubleLeft)] });
    assert(v@[27].keys@ == spec_command_keys(27));
    v.push(Command { id: "ToggleTwoPages", group: "Display Options", text: "Toggle Two Pages", keys: vec![ck(Key::T)] });
    assert(v@[28].keys@ == spec_command_keys(28));
    v.push(Command { id: "ToggleRealisticPages", group: "Display Options", text: "Toggle Realistic Display", keys: vec![ckm(Key::D, false, true, false)] });
    assert(v@[29].keys@ == spec_command_keys(29));
    v.push(Command { id: "ToggleMagnify", group: "Display Options", text: "Toggle Magnifier", keys: vec![ck(Key::M)] });
    assert(v@[30].keys@ == spec_command_keys(30));
    v.push(Command { id: "ToggleMenu", group: "Display Options", text: "Toggle Menu", keys: vec![ck(Key::K)] });
    assert(v@[31].keys@ == spec_command_keys(31));
    v.push(Command { id: "Original", group: "Page Display", text: "Original Size", keys: vec![ck(Key::D1)] });
    assert(v@[32].keys@ == spec_command_keys(32));
    v.push(Command { id: "FitAll", group: "Page Display", text: "Fit All", keys: vec![ck(Key::D2)] });
    assert(v@[33].keys@ == spec_command_keys(33));
    v.push(Command { id: "FitWidth", group: "Page Display", text: "Fit Width", keys: vec![ck(Key::D3)] });
    assert(v@[34].keys@ == spec_command_keys(34));
    v.push(Command { id: "FitWidthAdaptive", group: "Page Display", text: "Fit Width (adaptive)", keys: vec![ck(Key::D4)] });
    assert(v@[35].keys@ == spec_command_keys(35));
    v.push(Command { id: "FitHeight", group: "Page Display", text: "Fit Height", keys: vec![ck(Key::D5)] });
    assert(v@[36].keys@ == spec_command_keys(36));
    v.push(Command { id: "FitBest", group: "Page Display", text: "Best Fit", keys: vec![ck(Key::D6)] });
    assert(v@[37].keys@ == spec_command_keys(37));
    v.push(Command { id: "SinglePage", group: "Page Display", text: "Single Page", keys: vec![ck(Key::D7)] });
    assert(v@[38].keys@ == spec_command_keys(38));
    v.push(Command { id: "TwoPages", group: "Page Display", text: "Two Pages", keys: vec![ck(Key::D8)] });
    assert(v@[39].keys@ == spec_command_keys(39));
    v.push(Command { id: "TwoPagesAdaptive", group: "Page Display", text: "Two Pages (adaptive)", keys: vec![ck(Key::D9)] });
    assert(v@[40].keys@ == spec_command_keys(40));
    v.push(Command { id: "RightToLeft", group: "Page Display", text: "Right to Left", keys: vec![ck(Key::D0)] });
    assert(v@[41].keys@ == spec_command_keys(41));
    v.push(Command { id: "OnlyFitIfOversized", group: "Page Display", text: "Only Fit if oversized", keys: vec![ck(Key::O)] });
    assert(v@[42].keys@ == spec_command_keys(42));
    v.push(Command { id: "RotateC", group: "ZoomAndRotate", text: "Rotate Right", keys: vec![ck(Key::R)] });
    assert(v@[43].keys@ == spec_command_keys(43));
    v.push(Command { id: "RotateCC", group: "ZoomAndRotate", text: "Rotate Left", keys: vec![ckm(Key::R, false, true, false)] });
    assert(v@[44].keys@ == spec_command_keys(44));
    v.push(Command { id: "AutoRotate", group: "ZoomAndRotate", text: "Autorotate Double Pages", keys: vec![ck(Key::A)] });
    assert(v@[45].keys@ == spec_command_keys(45));
    v.push(Command { id: "ZoomIn", group: "ZoomAndRotate", text: "Zoom In", keys: vec![ckm(Key::MouseWheelUp, true, false, false)] });
    assert(v@[46].keys@ == spec_command_keys(46));
    v.push(Command { id: "ZoomOut", group: "ZoomAndRotate", text: "Zoom Out", keys: vec![ckm(Key::MouseWheelDown, true, false, false)] });
    assert(v@[47].keys@ == spec_command_keys(47));
    v.push(Command { id: "StepZoomIn", group: "ZoomAndRotate", text: "Step Zoom In", keys: vec![ck(Key::Z)] });
    assert(v@[48].keys@ == spec_command_keys(48));
    v.push(Command { id: "StepZoomOut", group: "ZoomAndRotate", text: "Step Zoom Out", keys: vec![ckm(Key::Z, false, true, false)] });
    assert(v@[49].keys@ == spec_command_keys(49));
    v.push(Command { id: "PageRotateC", group: "Edit", text: "Rotate Page Right", keys: vec![ck(Key::Y)] });
    assert(v@[50].keys@ == spec_command_keys(50));
    v.push(Command { id: "PageRotateCC", group: "Edit", text: "Rotate Page Left", keys: vec![ckm(Key::Y, false, true, false)] });
    assert(v@[51].keys@ == spec_command_keys(51));
    v.push(Command { id: "Exit", group: "Other", text: "Exit", keys: vec![ck(Key::Q)] });
    assert(v@[52].keys@ == spec_command_keys(52));
    v
}

/// Whether the `i`-th command lists the input `k`.
pub open spec fn command_has_key(i: int, k: CommandKey) -> bool {
    spec_command_keys(i).contains(k)
}

/// The first command (in registration order) that lists `k`, or -1.
pub open spec fn spec_first_command(k: CommandKey) -> int {
    if exists|i: int| 0 <= i < command_count() && #[trigger] command_has_key(i, k) {
        choose|i: int|
            0 <= i < command_count() && #[trigger] command_has_key(i, k) && forall|j: int|
                0 <= j < i ==> !#[trigger] command_has_key(j, k)
    } else {
        -1
    }
}

/// Every default input of a command is owned by that command.
pub proof fn lemma_keys_owned(i: int, m: int)
    requires
        0 <= i < command_count(),
        0 <= m < spec_command_keys(i).len(),
    ensures
        spec_key_owner(spec_command_keys(i)[m]) == i,
{
}

/// A command that lists an input is the input's owner.
pub proof fn lemma_owner_of_listed(j: int, k: CommandKey)
    requires
        0 <= j < command_count(),
        command_has_key(j, k),
    ensures
        spec_key_owner(k) == j,
{
    let m = choose|m: int| 0 <= m < spec_command_keys(j).len() && spec_command_keys(j)[m] == k;
    lemma_keys_owned(j, m);
}

/// No input is listed by two commands, so the first command that lists an
/// input is its owner.
pub proof fn lemma_first_command_is_owner(k: CommandKey)
    ensures
        spec_first_command(k) == spec_key_owner(k),
        spec_first_command(k) == -1 <==> forall|i: int| 0 <= i < command_count() ==> !#[trigger] command_has_key(i, k),
{
    if exists|i: int| 0 <= i < command_count() && #[trigger] command_has_key(i, k) {
        let i = choose|i: int| 0 <= i < command_count() && #[trigger] command_has_key(i, k);
        lemma_owner_of_listed(i, k);
        assert forall|j: int| 0 <= j < i implies !#[trigger] command_has_key(j, k) by {
            if command_has_key(j, k) {
                lemma_owner_of_listed(j, k);
            }
        }
        let f = spec_first_command(k);
        lemma_owner_of_listed(f, k);
    } else {
        if spec_key_owner(k) >= 0 {
            let o = spec_key_owner(k);
            assert(0 <= o < command_count());
            assert(spec_command_keys(o)[0] == k || (spec_command_keys(o).len() > 1 && spec_command_keys(o)[1]
                == k));
            assert(spec_command_keys(o).contains(k));
            assert(command_has_key(o, k));
        }
    }
}

/// Every default input dispatches to the command that declares it: no
/// command's input is shadowed by an earlier registration.
pub proof fn law_every_key_resolves_to_its_command(i: int, m: int)
    requires
        0 <= i < command_count(),
        0 <= m < spec_command_keys(i).len(),
    ensures
        spec_first_command(spec_command_keys(i)[m]) == i,
{
    lemma_keys_owned(i, m);
    lemma_first_command_is_owner(spec_command_keys(i)[m]);
}

/// Whether `keys` lists `ckey`.
fn lists_key(keys: &Vec<CommandKey>, ckey: CommandKey) -> (r: bool)
    ensures
        r == keys@.contains(ckey),
{
    let mut i: usize = 0;
    while i < keys.len()
        invariant
            i <= keys@.len(),
            forall|j: int| 0 <= j < i ==> keys@[j] != ckey,
        decreases keys@.len() - i,
    {
        if keys[i] == ckey {
            assert(keys@[i as int] == ckey);
            return true;
        }
        i = i + 1;
    }
    false
}

/// A short fingerprint of a command id: its length and three of its
/// characters (the first, the seventh and the eleventh, or the last where
/// the id is shorter).
spec fn id_signature(s: Seq<char>) -> (int, char, char, char) {
    let l = s.len() as int;
    (l, s[0], s[if 6 < l { 6 } else { l - 1 }], s[if 10 < l { 10 } else { l - 1 }])
}

/// The command whose id has this fingerprint, or -1.
spec fn signature_index(sig: (int, char, char, char)) -> int {
    if sig == (9int, 'N', 'm', 'c') {
        0
    } else if sig == (9int, 'P', 'm', 'c') {
        1
    } else if sig == (11int, 'R', 'C', 'c') {
        2
    } else if sig == (11int, 'S', 'o', 'r') {
        3
    } else if sig == (15int, 'M', 'F', 't') {
        4
    } else if sig == (18int, 'M', 'P', 'i') {
        5
    } else if sig == (14int, 'M', 'N', 'P') {
        6
    } else if sig == (14int, 'M', 'L', 'P') {
        7
    } else if sig == (18int, 'M', 'P', 'B') {
        8
    } else if sig == (18int, 'M', 'N', 'B') {
        9
    } else if sig == (7int, 'P', 'b', 'b') {
        10
    } else if sig == (7int, 'N', 'b', 'b') {
        11
    } else if sig == (20int, 'M', 'P', 'P') {
        12
    } else if sig == (20int, 'M', 'N', 'P') {
        13
    } else if sig == (12int, 'M', 'e', 'r') {
        14
    } else if sig == (12int, 'M', 'x', 'r') {
        15
    } else if sig == (13int, 'M', 'r', 'a') {
        16
    } else if sig == (12int, 'M', 's', 'r') {
        17
    } else if sig == (14int, 'M', 'r', 'w') {
        18
    } else if sig == (12int, 'M', 'r', '1') {
        19
    } else if sig == (19int, 'T', 'A', 'S') {
        20
    } else if sig == (20int, 'D', 'P', 'A') {
        21
    } else if sig == (6int, 'M', 'p', 'p') {
        22
    } else if sig == (8int, 'M', 'w', 'n') {
        23
    } else if sig == (8int, 'M', 'f', 't') {
        24
    } else if sig == (9int, 'M', 'g', 't') {
        25
    } else if sig == (18int, 'T', 'U', 'c') {
        26
    } else if sig == (16int, 'T', 'F', 'S') {
        27
    } else if sig == (14int, 'T', 'T', 'a') {
        28
    } else if sig == (20int, 'T', 'R', 'i') {
        29
    } else if sig == (13int, 'T', 'M', 'i') {
        30
    } else if sig == (10int, 'T', 'M', 'u') {
        31
    } else if sig == (8int, 'O', 'a', 'l') {
        32
    } else if sig == (6int, 'F', 'l', 'l') {
        33
    } else if sig == (8int, 'F', 't', 'h') {
        34
    } else if sig == (16int, 'F', 't', 'a') {
        35
    } else if sig == (9int, 'F', 'g', 't') {
        36
    } else if sig == (7int, 'F', 't', 't') {
        37
    } else if sig == (10int, 'S', 'P', 'e') {
        38
    } else if sig == (8int, 'T', 'e', 's') {
        39
    } else if sig == (16int, 'T', 'e', 'a') {
        40
    } else if sig == (11int, 'R', 'o', 't') {
        41
    } else if sig == (18int, 'O', 't', 'v') {
        42
    } else if sig == (7int, 'R', 'C', 'C') {
        43
    } else if sig == (8int, 'R', 'C', 'C') {
        44
    } else if sig == (10int, 'A', 't', 'e') {
        45
    } else if sig == (6int, 'Z', 'n', 'n') {
        46
    } else if sig == (7int, 'Z', 't', 't') {
        47
    } else if sig == (10int, 'S', 'o', 'n') {
        48
    } else if sig == (11int, 'S', 'o', 't') {
        49
    } else if sig == (11int, 'P', 't', 'C') {
        50
    } else if sig == (12int, 'P', 't', 'C') {
        51
    } else if sig == (4int, 'E', 't', 't') {
        52
    } else {
        -1
    }
}

/// Each command's id fingerprint leads back to that command.
proof fn lemma_signature_index(k: int)
    requires
        0 <= k < command_count(),
    ensures
        signature_index(id_signature(spec_command_id(k))) == k,
{
    if k == 0 {
        reveal_strlit("NextComic");
    } else if k == 1 {
        reveal_strlit("PrevComic");
    } else if k == 2 {
        reveal_strlit("RandomComic");
    } else if k == 3 {
        reveal_strlit("ShowBrowser");
    } else if k == 4 {
        reveal_strlit("MoveToFirstPage");
    } else if k == 5 {
        reveal_strlit("MoveToPreviousPage");
    } else if k == 6 {
        reveal_strlit("MoveToNextPage");
    } else if k == 7 {
        reveal_strlit("MoveToLastPage");
    } else if k == 8 {
        reveal_strlit("MoveToPrevBookmark");
    } else if k == 9 {
        reveal_strlit("MoveToNextBookmark");
    } else if k == 10 {
        reveal_strlit("PrevTab");
    } else if k == 11 {
        reveal_strlit("NextTab");
    } else if k == 12 {
        reveal_strlit("MoveToPrevPageSingle");
    } else if k == 13 {
        reveal_strlit("MoveToNextPageSingle");
    } else if k == 14 {
        reveal_strlit("MovePrevPart");
    } else if k == 15 {
        reveal_strlit("MoveNextPart");
    } else if k == 16 {
        reveal_strlit("MoveFirstPart");
    } else if k == 17 {
        reveal_strlit("MoveLastPart");
    } else if k == 18 {
        reveal_strlit("MovePartDown10");
    } else if k == 19 {
        reveal_strlit("MovePartUp10");
    } else if k == 20 {
        reveal_strlit("ToggleAutoScrolling");
    } else if k == 21 {
        reveal_strlit("DoublePageAutoScroll");
    } else if k == 22 {
        reveal_strlit("MoveUp");
    } else if k == 23 {
        reveal_strlit("MoveDown");
    } else if k == 24 {
        reveal_strlit("MoveLeft");
    } else if k == 25 {
        reveal_strlit("MoveRight");
    } else if k == 26 {
        reveal_strlit("ToggleUndockReader");
    } else if k == 27 {
        reveal_strlit("ToggleFullScreen");
    } else if k == 28 {
        reveal_strlit("ToggleTwoPages");
    } else if k == 29 {
        reveal_strlit("ToggleRealisticPages");
    } else if k == 30 {
        reveal_strlit("ToggleMagnify");
    } else if k == 31 {
        reveal_strlit("ToggleMenu");
    } else if k == 32 {
        reveal_strlit("Original");
    } else if k == 33 {
        reveal_strlit("FitAll");
    } else if k == 34 {
        reveal_strlit("FitWidth");
    } else if k == 35 {
        reveal_strlit("FitWidthAdaptive");
    } else if k == 36 {
        reveal_strlit("FitHeight");
    } else if k == 37 {
        reveal_strlit("FitBest");
    } else if k == 38 {
        reveal_strlit("SinglePage");
    } else if k == 39 {
        reveal_strlit("TwoPages");
    } else if k == 40 {
        reveal_strlit("TwoPagesAdaptive");
    } else if k == 41 {
        reveal_strlit("RightToLeft");
    } else if k == 42 {
        reveal_strlit("OnlyFitIfOversized");
    } else if k == 43 {
        reveal_strlit("RotateC");
    } else if k == 44 {
        reveal_strlit("RotateCC");
    } else if k == 45 {
        reveal_strlit("AutoRotate");
    } else if k == 46 {
        reveal_strlit("ZoomIn");
    } else if k == 47 {
        reveal_strlit("ZoomOut");
    } else if k == 48 {
        reveal_strlit("StepZoomIn");
    } else if k == 49 {
        reveal_strlit("StepZoomOut");
    } else if k == 50 {
        reveal_strlit("PageRotateC");
    } else if k == 51 {
        reveal_strlit("PageRotateCC");
    } else if k == 52 {
        reveal_strlit("Exit");
    }
}

/// Every command has its own id: the dispatcher tells the commands apart.
pub proof fn law_command_ids_are_distinct(i: int, j: int)
    requires
        0 <= i < j < command_count(),
    ensures
        spec_command_id(i) != spec_command_id(j),
{
    lemma_signature_index(i);
    lemma_signature_index(j);
}

/// The command an input dispatches to: an exact match on key and
/// modifiers, the first registration winning.
pub fn command_for(ckey: CommandKey) -> (r: Option<Command>)
    ensures
        r.is_none() <==> spec_first_command(ckey) == -1,
        r matches Some(c) ==> {
            let i = spec_first_command(ckey);
            &&& 0 <= i < command_count()
            &&& c.id@ == spec_command_id(i)
            &&& c.group@ == spec_command_group(i)
            &&& c.text@ == spec_command_text(i)
            &&& c.keys@ == spec_command_keys(i)
        },
{
    let mut table = commands();
    let mut i: usize = 0;
    proof {
        lemma_first_command_is_owner(ckey);
    }
    while i < table.len()
        invariant
            table@.len() == command_count(),
            forall|j: int|
                0 <= j < command_count() ==> {
                    &&& (#[trigger] table@[j]).id@ == spec_command_id(j)
                    &&& table@[j].group@ == spec_command_group(j)
                    &&& table@[j].text@ == spec_command_text(j)
                    &&& table@[j].keys@ == spec_command_keys(j)
                },
            i <= command_count(),
            forall|j: int| 0 <= j < i ==> !#[trigger] command_has_key(j, ckey),
            spec_first_command(ckey) == spec_key_owner(ckey),
            spec_first_command(ckey) == -1 <==> forall|j: int|
                0 <= j < command_count() ==> !#[trigger] command_has_key(j, ckey),
        decreases command_count() - i,
    {
        let listed = lists_key(&table[i].keys, ckey);
        if listed {
            proof {
                assert(command_has_key(i as int, ckey));
                lemma_owner_of_listed(i as int, ckey);
            }
            let c = table.remove(i);
            return Some(c);
        }
        i = i + 1;
    }
    None
}

/// The shift bit of a GDK modifier state.
pub const SHIFT_MASK: u32 = 1;

/// The control bit of a GDK modifier state.
pub const CONTROL_MASK: u32 = 4;

/// The alt bit of a GDK modifier state.
pub const ALT_MASK: u32 = 8;

/// The letter key with alphabet index `i` (0 for `A`).
pub open spec fn spec_letter(i: int) -> Key {
    if i == 0 {
        Key::A
    } else if i == 1 {
        Key::B
    } else if i == 2 {
        Key::C
    } else if i == 3 {
        Key::D
    } else if i == 4 {
        Key::E
    } else if i == 5 {
        Key::F
    } else if i == 6 {
        Key::G
    } else if i == 7 {
        Key::H
    } else if i == 8 {
        Key::I
    } else if i == 9 {
        Key::J
    } else if i == 10 {
        Key::K
    } else if i == 11 {
        Key::L
    } else if i == 12 {
        Key::M
    } else if i == 13 {
        Key::N
    } else if i == 14 {
        Key::O
    } else if i == 15 {
        Key::P
    } else if i == 16 {
        Key::Q
    } else if i == 17 {
        Key::R
    } else if i == 18 {
        Key::S
    } else if i == 19 {
        Key::T
    } else if i == 20 {
        Key::U
    } else if i == 21 {
        Key::V
    } else if i == 22 {
        Key::W
    } else if i == 23 {
        Key::X
    } else if i == 24 {
        Key::Y
    } else if i == 25 {
        Key::Z
    } else {
        Key::Z
    }
}

/// The digit key of `d` (0 to 9).
pub open spec fn spec_digit(d: int) -> Key {
    if d == 0 {
        Key::D0
    } else if d == 1 {
        Key::D1
    } else if d == 2 {
        Key::D2
    } else if d == 3 {
        Key::D3
    } else if d == 4 {
        Key::D4
    } else if d == 5 {
        Key::D5
    } else if d == 6 {
        Key::D6
    } else if d == 7 {
        Key::D7
    } else if d == 8 {
        Key::D8
    } else if d == 9 {
        Key::D9
    } else {
        Key::D9
    }
}

/// The key a GDK key value stands for: letters in either case, digits,
/// the arrows, Tab, Home, End, Page Up and Down, Space and Escape.
pub open spec fn spec_key_of_keyval(keyval: u32) -> Option<Key> {
    if 0x61 <= keyval <= 0x7a {
        Some(spec_letter(keyval - 0x61))
    } else if 0x41 <= keyval <= 0x5a {
        Some(spec_letter(keyval - 0x41))
    } else if 0x30 <= keyval <= 0x39 {
        Some(spec_digit(keyval - 0x30))
    } else if keyval == 0xff52 {
        Some(Key::Up)
    } else if keyval == 0xff54 {
        Some(Key::Down)
    } else if keyval == 0xff51 {
        Some(Key::Left)
    } else if keyval == 0xff53 {
        Some(Key::Right)
    } else if keyval == 0xff09 {
        Some(Key::Tab)
    } else if keyval == 0xff50 {
        Some(Key::Home)
    } else if keyval == 0xff57 {
        Some(Key::End)
    } else if keyval == 0xff55 {
        Some(Key::PageUp)
    } else if keyval == 0xff56 {
        Some(Key::PageDown)
    } else if keyval == 0x20 {
        Some(Key::Space)
    } else if keyval == 0xff1b {
        Some(Key::Escape)
    } else {
        None
    }
}

fn letter(i: u32) -> (r: Key)
    requires
        i < 26,
    ensures
        r == spec_letter(i as int),
{
    match i {
        0 => Key::A,
        1 => Key::B,
        2 => Key::C,
        3 => Key::D,
        4 => Key::E,
        5 => Key::F,
        6 => Key::G,
        7 => Key::H,
        8 => Key::I,
        9 => Key::J,
        10 => Key::K,
        11 => Key::L,
        12 => Key::M,
        13 => Key::N,
        14 => Key::O,
        15 => Key::P,
        16 => Key::Q,
        17 => Key::R,
        18 => Key::S,
        19 => Key::T,
        20 => Key::U,
        21 => Key::V,
        22 => Key::W,
        23 => Key::X,
        24 => Key::Y,
        _ => Key::Z,
    }
}

fn digit(d: u32) -> (r: Key)
    requires
        d < 10,
    ensures
        r == spec_digit(d as int),
{
    match d {
        0 => Key::D0,
        1 => Key::D1,
        2 => Key::D2,
        3 => Key::D3,
        4 => Key::D4,
        5 => Key::D5,
        6 => Key::D6,
        7 => Key::D7,
        8 => Key::D8,
        _ => Key::D9,
    }
}

/// The input for a GDK key value and modifier state. Letters map case
/// insensitively: the shift state rides in the modifiers.
pub fn command_key_from_keyval(keyval: u32, state: u32) -> (r: Option<CommandKey>)
    ensures
        r == match spec_key_of_keyval(keyval) {
            Some(key) => Some(
                CommandKey {
                    key,
                    mods: Mods {
                        ctrl: state & CONTROL_MASK != 0,
                        shift: state & SHIFT_MASK != 0,
                        alt: state & ALT_MASK != 0,
                    },
                },
            ),
            None => None,
        },
{
    let base = if 0x61 <= keyval && keyval <= 0x7a {
        letter(keyval - 0x61)
    } else if 0x41 <= keyval && keyval <= 0x5a {
        letter(keyval - 0x41)
    } else if 0x30 <= keyval && keyval <= 0x39 {
        digit(keyval - 0x30)
    } else if keyval == 0xff52 {
        Key::Up
    } else if keyval == 0xff54 {
        Key::Down
    } else if keyval == 0xff51 {
        Key::Left
    } else if keyval == 0xff53 {
        Key::Right
    } else if keyval == 0xff09 {
        Key::Tab
    } else if keyval == 0xff50 {
        Key::Home
    } else if keyval == 0xff57 {
        Key::End
    } else if keyval == 0xff55 {
        Key::PageUp
    } else if keyval == 0xff56 {
        Key::PageDown
    } else if keyval == 0x20 {
        Key::Space
    } else if keyval == 0xff1b {
        Key::Escape
    } else {
        return None;
    };
    Some(
        CommandKey {
            key: base,
            mods: Mods {
                ctrl: state & CONTROL_MASK != 0,
                shift: state & SHIFT_MASK != 0,
                alt: state & ALT_MASK != 0,
            },
        },
    )
}

/// Each navigation key has exactly its own GDK key value: the arrows
/// (`Left` 0xff51, `Up` 0xff52, `Right` 0xff53, `Down` 0xff54), `Home`
/// 0xff50, `PageUp` 0xff55, `PageDown` 0xff56 and `End` 0xff57; no other
/// key value gives them.
pub proof fn law_navigation_keys_have_their_own_values(keyval: u32)
    ensures
        spec_key_of_keyval(keyval) == Some(Key::Left) <==> keyval == 0xff51,
        spec_key_of_keyval(keyval) == Some(Key::Up) <==> keyval == 0xff52,
        spec_key_of_keyval(keyval) == Some(Key::Right) <==> keyval == 0xff53,
        spec_key_of_keyval(keyval) == Some(Key::Down) <==> keyval == 0xff54,
        spec_key_of_keyval(keyval) == Some(Key::Home) <==> keyval == 0xff50,
        spec_key_of_keyval(keyval) == Some(Key::PageUp) <==> keyval == 0xff55,
        spec_key_of_keyval(keyval) == Some(Key::PageDown) <==> keyval == 0xff56,
        spec_key_of_keyval(keyval) == Some(Key::End) <==> keyval == 0xff57,
{
}

/// Letters map case insensitively: a capital letter's key value gives the
/// same key as the small letter's (the shift state rides in the modifiers).
pub proof fn law_letters_ignore_case(upper: u32)
    requires
        0x41 <= upper <= 0x5a,
    ensures
        spec_key_of_keyval(upper) == spec_key_of_keyval((upper + 0x20) as u32),
        spec_key_of_keyval(upper) is Some,
{
}

} // verus!
