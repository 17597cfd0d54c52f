use cr_ui::keys::{
    ck, ckm, command_for, command_key_from_keyval, commands, CommandKey, Key, Mods, ALT_MASK,
    CONTROL_MASK, SHIFT_MASK,
};

fn plain(key: Key) -> CommandKey {
    ck(key)
}

#[test]
fn exact_modifier_match_resolves_page_navigation() {
    assert_eq!(command_for(ck(Key::PageUp)).map(|c| c.id), Some("MoveToPreviousPage"));
    assert_eq!(
        command_for(ckm(Key::PageUp, false, true, false)).map(|c| c.id),
        Some("MoveToPrevPageSingle")
    );
    assert_eq!(
        command_for(ckm(Key::PageUp, true, false, false)).map(|c| c.id),
        Some("MoveToPrevBookmark")
    );
}

#[test]
fn unbound_modifier_combinations_fall_through() {
    assert_eq!(command_for(ckm(Key::F, true, false, false)), None);
    assert_eq!(command_for(ckm(Key::K, true, false, false)), None);
    assert_eq!(command_for(ckm(Key::N, false, true, false)), None);
}

#[test]
fn wheel_commands_match_with_ctrl() {
    assert_eq!(command_for(ck(Key::MouseWheelUp)).map(|c| c.id), Some("MoveUp"));
    assert_eq!(
        command_for(ckm(Key::MouseWheelUp, true, false, false)).map(|c| c.id),
        Some("ZoomIn")
    );
    assert_eq!(
        command_for(ckm(Key::MouseWheelDown, true, false, false)).map(|c| c.id),
        Some("ZoomOut")
    );
}

#[test]
fn fit_and_layout_digit_keys() {
    let expected = [
        (Key::D1, "Original"),
        (Key::D2, "FitAll"),
        (Key::D3, "FitWidth"),
        (Key::D4, "FitWidthAdaptive"),
        (Key::D5, "FitHeight"),
        (Key::D6, "FitBest"),
        (Key::D7, "SinglePage"),
        (Key::D8, "TwoPages"),
        (Key::D9, "TwoPagesAdaptive"),
        (Key::D0, "RightToLeft"),
    ];
    for (key, id) in expected {
        assert_eq!(command_for(ck(key)).map(|c| c.id), Some(id));
    }
    assert_eq!(command_for(plain(Key::Space)).map(|c| c.id), Some("MoveNextPart"));
    assert_eq!(
        command_for(ckm(Key::Space, false, true, false)).map(|c| c.id),
        Some("MovePrevPart")
    );
    assert_eq!(command_for(ck(Key::Q)).map(|c| c.id), Some("Exit"));
}

#[test]
fn command_ids_are_unique() {
    let table = commands();
    let mut ids: Vec<&str> = table.iter().map(|c| c.id).collect();
    let n = ids.len();
    ids.sort_unstable();
    ids.dedup();
    assert_eq!(ids.len(), n);
}

#[test]
fn letters_map_case_insensitively_with_shift_modifier() {
    // Key values of GDK: `R` is 0x52, `r` is 0x72.
    let shifted = command_key_from_keyval(0x52, SHIFT_MASK);
    assert_eq!(shifted.and_then(command_for).map(|c| c.id), Some("RotateCC"));
    let plain = command_key_from_keyval(0x72, 0);
    assert_eq!(plain.and_then(command_for).map(|c| c.id), Some("RotateC"));
}

#[test]
fn every_registered_key_resolves_to_its_own_command() {
    for command in commands() {
        for ckey in &command.keys {
            assert_eq!(
                command_for(*ckey).map(|c| c.id),
                Some(command.id),
                "key {ckey:?} of {} is shadowed by an earlier command",
                command.id
            );
        }
    }
}

#[test]
fn key_values_carry_every_modifier_bit() {
    let k = command_key_from_keyval(0xff55, CONTROL_MASK | ALT_MASK | SHIFT_MASK);
    assert_eq!(
        k,
        Some(CommandKey { key: Key::PageUp, mods: Mods { ctrl: true, shift: true, alt: true } })
    );
    assert_eq!(command_key_from_keyval(0x35, 0), Some(ck(Key::D5)));
    assert_eq!(command_key_from_keyval(0xff1b, 0), Some(ck(Key::Escape)));
    assert_eq!(command_key_from_keyval(0x20, 0), Some(ck(Key::Space)));
}

#[test]
fn unknown_key_values_give_no_input() {
    assert_eq!(command_key_from_keyval(0xffbe, 0), None);
    assert_eq!(command_key_from_keyval(0x2f, SHIFT_MASK), None);
}

#[test]
fn the_table_has_every_command_once() {
    assert_eq!(commands().len(), 53);
}
