use questcraft_core::keyboard::{
    key, pointer_events, Key, KeyAction, KeyDef, KeyFace, KeyboardLayout, KeyboardState,
    PointerEvent, QUARTERS_PER_UNIT, ROW_UNITS,
};

fn row_width(row: &[Key]) -> u32 {
    row.iter().map(|k| k.width).sum()
}

#[test]
fn qwerty_rows_are_fifteen_units_wide() {
    let l = KeyboardLayout::qwerty();
    let full = ROW_UNITS * QUARTERS_PER_UNIT;
    assert_eq!(full, 60);
    assert_eq!(row_width(&l.row1), full);
    assert_eq!(row_width(&l.row2), full);
    assert_eq!(row_width(&l.row3), full);
    assert_eq!(row_width(&l.row4), full);
    assert_eq!(row_width(&l.row5), full);
}

#[test]
fn qwerty_layout_contents() {
    let l = KeyboardLayout::qwerty();
    assert_eq!(l.name, "QWERTY");
    assert_eq!(l.row1.len(), 14);
    assert_eq!(l.row2.len(), 14);
    assert_eq!(l.row3.len(), 13);
    assert_eq!(l.row4.len(), 12);
    assert_eq!(l.row5.len(), 8);
    assert_eq!(l.row1[0], key(KeyDef::Char("`", "~"), 4));
    assert_eq!(l.row1[13], key(KeyDef::Backspace, 8));
    assert_eq!(l.row2[0], key(KeyDef::Tab, 6));
    assert_eq!(l.row2[1], key(KeyDef::Char("q", "Q"), 4));
    assert_eq!(l.row2[13], key(KeyDef::Char("\\", "|"), 6));
    assert_eq!(l.row3[0], key(KeyDef::CapsLock, 7));
    assert_eq!(l.row3[11], key(KeyDef::Char("'", "\""), 4));
    assert_eq!(l.row3[12], key(KeyDef::Enter, 9));
    assert_eq!(l.row4[0], key(KeyDef::Shift, 9));
    assert_eq!(l.row4[11], key(KeyDef::Shift, 11));
    assert_eq!(l.row5[3], key(KeyDef::Space, 25));
    assert_eq!(l.row5[0], key(KeyDef::Modifier(""), 5));
}

#[test]
fn new_keyboard_is_hidden_qwerty_without_shift() {
    let k = KeyboardState::new();
    assert!(k.hidden);
    assert!(!k.is_shift);
    assert_eq!(k.layout.name, "QWERTY");
}

#[test]
fn character_keys_type_lower_then_upper_with_shift() {
    let mut k = KeyboardState::new();
    assert_eq!(k.press(KeyDef::Char("a", "A")), KeyAction::SendText("a"));
    assert_eq!(k.press(KeyDef::Shift), KeyAction::NoAction);
    assert!(k.is_shift);
    assert_eq!(k.press(KeyDef::Char("a", "A")), KeyAction::SendText("A"));
    assert_eq!(k.press(KeyDef::Char("1", "!")), KeyAction::SendText("!"));
    // shift stays on until toggled again
    assert!(k.is_shift);
}

#[test]
fn special_keys_send_their_text() {
    let mut k = KeyboardState::new();
    assert_eq!(k.press(KeyDef::Tab), KeyAction::SendText("\t"));
    assert_eq!(k.press(KeyDef::Enter), KeyAction::SendText("\n"));
    assert_eq!(k.press(KeyDef::Space), KeyAction::SendText(" "));
    assert_eq!(k.press(KeyDef::Backspace), KeyAction::DeleteCharacter);
    assert_eq!(k.press(KeyDef::Modifier("")), KeyAction::NoAction);
    assert_eq!(k.press(KeyDef::Modifier("Fn")), KeyAction::NoAction);
    assert!(!k.is_shift);
    assert!(k.hidden);
}

#[test]
fn shift_keys_toggle_twice_restores() {
    let mut k = KeyboardState::new();
    k.press(KeyDef::CapsLock);
    assert!(k.is_shift);
    k.press(KeyDef::CapsLock);
    assert!(!k.is_shift);
    k.press(KeyDef::Shift);
    k.press(KeyDef::CapsLock);
    assert!(!k.is_shift);
}

#[test]
fn faces_follow_shift() {
    let mut k = KeyboardState::new();
    assert_eq!(k.face(KeyDef::Char("q", "Q")), KeyFace::Button("q"));
    assert_eq!(k.face(KeyDef::CapsLock), KeyFace::Toggle("Caps", false));
    assert_eq!(k.face(KeyDef::Shift), KeyFace::Toggle("\u{21E7} Shift", false));
    k.press(KeyDef::Shift);
    assert_eq!(k.face(KeyDef::Char("q", "Q")), KeyFace::Button("Q"));
    assert_eq!(k.face(KeyDef::CapsLock), KeyFace::Toggle("Caps", true));
    assert_eq!(k.face(KeyDef::Tab), KeyFace::Button("Tab"));
    assert_eq!(k.face(KeyDef::Enter), KeyFace::Button("Enter"));
    assert_eq!(k.face(KeyDef::Space), KeyFace::Button("Space"));
    assert_eq!(k.face(KeyDef::Backspace), KeyFace::Button("\u{232B}"));
    assert_eq!(k.face(KeyDef::Modifier("")), KeyFace::Spacer);
    assert_eq!(k.face(KeyDef::Modifier("Ctrl")), KeyFace::Disabled("Ctrl"));
}

#[test]
fn char_key_types_what_it_shows() {
    let mut k = KeyboardState::new();
    for shift_first in [false, true] {
        if shift_first != k.is_shift {
            k.press(KeyDef::Shift);
        }
        let def = KeyDef::Char("z", "Z");
        let shown = match k.face(def) {
            KeyFace::Button(label) => label,
            other => panic!("unexpected face {:?}", other),
        };
        assert_eq!(k.press(def), KeyAction::SendText(shown));
    }
}

#[test]
fn pointer_events_per_frame() {
    assert_eq!(
        pointer_events(false, true),
        vec![PointerEvent::Moved, PointerEvent::Pressed, PointerEvent::Released]
    );
    assert_eq!(pointer_events(true, true), vec![PointerEvent::Moved]);
    assert_eq!(pointer_events(true, false), vec![PointerEvent::Moved]);
    assert_eq!(pointer_events(false, false), vec![PointerEvent::Moved]);
}

#[test]
fn holding_the_trigger_clicks_once() {
    let states = [false, true, true, true, false, true, false, false];
    let mut events = Vec::new();
    for w in states.windows(2) {
        events.extend(pointer_events(w[0], w[1]));
    }
    let presses = events.iter().filter(|e| **e == PointerEvent::Pressed).count();
    let releases = events.iter().filter(|e| **e == PointerEvent::Released).count();
    let moves = events.iter().filter(|e| **e == PointerEvent::Moved).count();
    assert_eq!(presses, 2);
    assert_eq!(releases, 2);
    assert_eq!(moves, states.len() - 1);
}
