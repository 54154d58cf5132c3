use jumppad::editor::{editor_binding, EditorBinding, EditorCommand, KeyPressModel, PressedKey};

/// The modifier set with only Ctrl held, as the override table keys it.
const CTRL: u32 = 0b100;
/// The physical code of the Z key.
const KEY_Z: u32 = 90;

/// Ctrl plus a key, on a platform where Ctrl is both the command and the
/// word-jump modifier.
fn ctrl_press(code: u32, key: PressedKey, latin: Option<char>) -> KeyPressModel {
    KeyPressModel {
        focused: true,
        modifiers: CTRL,
        shift: false,
        command: true,
        jump: true,
        code: Some(code),
        key,
        latin,
    }
}

#[test]
fn lib_override_wins_over_a_conflicting_hardcoded_default() {
    let overrides = vec![((CTRL, KEY_Z), EditorCommand::Redo)];
    let event = ctrl_press(KEY_Z, PressedKey::Other, Some('z'));
    assert_eq!(editor_binding(event, &overrides), Some(EditorBinding::Command(EditorCommand::Redo)));
}

#[test]
fn hardcoded_default_still_fires_with_no_overrides() {
    let event = ctrl_press(KEY_Z, PressedKey::Other, Some('z'));
    assert_eq!(editor_binding(event, &Vec::new()), Some(EditorBinding::Command(EditorCommand::Undo)));
}

#[test]
fn unfocused_status_returns_none_regardless_of_overrides() {
    let overrides = vec![((CTRL, KEY_Z), EditorCommand::Redo)];
    let mut event = ctrl_press(KEY_Z, PressedKey::Other, Some('z'));
    event.focused = false;
    assert_eq!(editor_binding(event, &overrides), None);
}

#[test]
fn an_override_for_other_modifiers_does_not_fire() {
    let overrides = vec![((CTRL | 1, KEY_Z), EditorCommand::DocumentEnd)];
    let event = ctrl_press(KEY_Z, PressedKey::Other, Some('z'));
    assert_eq!(editor_binding(event, &overrides), Some(EditorBinding::Command(EditorCommand::Undo)));
}

#[test]
fn the_builtin_tier_covers_word_deletes_document_ends_and_redo() {
    let none = Vec::new();
    assert_eq!(editor_binding(ctrl_press(8, PressedKey::Backspace, None), &none),
        Some(EditorBinding::Command(EditorCommand::WordDeleteBackward)));
    assert_eq!(editor_binding(ctrl_press(46, PressedKey::Delete, None), &none),
        Some(EditorBinding::Command(EditorCommand::WordDeleteForward)));
    assert_eq!(editor_binding(ctrl_press(38, PressedKey::ArrowUp, None), &none),
        Some(EditorBinding::Command(EditorCommand::DocumentStart)));
    let mut shifted = ctrl_press(40, PressedKey::ArrowDown, None);
    shifted.shift = true;
    assert_eq!(editor_binding(shifted, &none), Some(EditorBinding::Command(EditorCommand::SelectDocumentEnd)));
    let mut shift_z = ctrl_press(KEY_Z, PressedKey::Other, Some('z'));
    shift_z.shift = true;
    assert_eq!(editor_binding(shift_z, &none), Some(EditorBinding::Command(EditorCommand::Redo)));
    assert_eq!(editor_binding(ctrl_press(89, PressedKey::Other, Some('y')), &none),
        Some(EditorBinding::Command(EditorCommand::Redo)));
}

#[test]
fn other_keys_fall_to_the_stock_binding_dropping_command_held_text() {
    let none = Vec::new();
    assert_eq!(editor_binding(ctrl_press(78, PressedKey::Other, Some('n')), &none),
        Some(EditorBinding::Stock { drop_insert: true }));
    let plain = KeyPressModel {
        focused: true, modifiers: 0, shift: false, command: false, jump: false,
        code: Some(78), key: PressedKey::Other, latin: Some('n'),
    };
    assert_eq!(editor_binding(plain, &none), Some(EditorBinding::Stock { drop_insert: false }));
}
