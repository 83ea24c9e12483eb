use terbulator::input::{KeyCode, KeyboardHandler, Modifiers, PhysicalKey};

fn letters() -> Vec<KeyCode> {
    vec![
        KeyCode::KeyA,
        KeyCode::KeyB,
        KeyCode::KeyC,
        KeyCode::KeyD,
        KeyCode::KeyE,
        KeyCode::KeyF,
        KeyCode::KeyG,
        KeyCode::KeyH,
        KeyCode::KeyI,
        KeyCode::KeyJ,
        KeyCode::KeyK,
        KeyCode::KeyL,
        KeyCode::KeyM,
        KeyCode::KeyN,
        KeyCode::KeyO,
        KeyCode::KeyP,
        KeyCode::KeyQ,
        KeyCode::KeyR,
        KeyCode::KeyS,
        KeyCode::KeyT,
        KeyCode::KeyU,
        KeyCode::KeyV,
        KeyCode::KeyW,
        KeyCode::KeyX,
        KeyCode::KeyY,
        KeyCode::KeyZ,
    ]
}

fn handler_with(control: bool, shift: bool) -> KeyboardHandler {
    let mut modifiers = Modifiers::empty();
    modifiers.set_control(control);
    modifiers.set_shift(shift);
    let mut handler = KeyboardHandler::new();
    handler.update_modifiers(modifiers);
    handler
}

#[test]
fn control_with_each_letter_gives_its_place_in_the_alphabet() {
    let handler = handler_with(true, false);
    for (i, code) in letters().into_iter().enumerate() {
        let expected = vec![b'a' + (i as u8) - b'a' + 1];
        assert_eq!(handler.handle_keycode(code), Some(expected));
    }
}

#[test]
fn letters_are_lower_case_and_upper_case_with_shift() {
    let plain = handler_with(false, false);
    let shifted = handler_with(false, true);
    for (i, code) in letters().into_iter().enumerate() {
        assert_eq!(plain.handle_keycode(code), Some(vec![b'a' + i as u8]));
        assert_eq!(shifted.handle_keycode(code), Some(vec![b'A' + i as u8]));
    }
}

#[test]
fn digits_and_their_shifted_symbols() {
    let plain = handler_with(false, false);
    let shifted = handler_with(false, true);
    let control = handler_with(true, false);
    let digits = vec![
        KeyCode::Digit0,
        KeyCode::Digit1,
        KeyCode::Digit2,
        KeyCode::Digit3,
        KeyCode::Digit4,
        KeyCode::Digit5,
        KeyCode::Digit6,
        KeyCode::Digit7,
        KeyCode::Digit8,
        KeyCode::Digit9,
    ];
    let symbols = b")!@#$%^&*(";
    for (i, code) in digits.into_iter().enumerate() {
        assert_eq!(plain.handle_keycode(code), Some(vec![b'0' + i as u8]));
        assert_eq!(shifted.handle_keycode(code), Some(vec![symbols[i]]));
        assert_eq!(control.handle_keycode(code), None);
    }
}

#[test]
fn named_keys_send_their_sequences() {
    let handler = handler_with(false, false);
    assert_eq!(handler.handle_keycode(KeyCode::Backspace), Some(vec![0x7f]));
    assert_eq!(handler.handle_keycode(KeyCode::Enter), Some(b"\r".to_vec()));
    assert_eq!(handler.handle_keycode(KeyCode::Tab), Some(b"\t".to_vec()));
    assert_eq!(handler.handle_keycode(KeyCode::Escape), Some(vec![0x1b]));
    assert_eq!(handler.handle_keycode(KeyCode::ArrowUp), Some(b"\x1b[A".to_vec()));
    assert_eq!(handler.handle_keycode(KeyCode::ArrowDown), Some(b"\x1b[B".to_vec()));
    assert_eq!(handler.handle_keycode(KeyCode::ArrowRight), Some(b"\x1b[C".to_vec()));
    assert_eq!(handler.handle_keycode(KeyCode::ArrowLeft), Some(b"\x1b[D".to_vec()));
    assert_eq!(handler.handle_keycode(KeyCode::Home), Some(b"\x1b[H".to_vec()));
    assert_eq!(handler.handle_keycode(KeyCode::End), Some(b"\x1b[F".to_vec()));
    assert_eq!(handler.handle_keycode(KeyCode::PageUp), Some(b"\x1b[5~".to_vec()));
    assert_eq!(handler.handle_keycode(KeyCode::PageDown), Some(b"\x1b[6~".to_vec()));
    assert_eq!(handler.handle_keycode(KeyCode::Insert), Some(b"\x1b[2~".to_vec()));
    assert_eq!(handler.handle_keycode(KeyCode::Delete), Some(b"\x1b[3~".to_vec()));
}

#[test]
fn function_keys_send_their_sequences() {
    let handler = handler_with(false, false);
    assert_eq!(handler.handle_keycode(KeyCode::F1), Some(b"\x1bOP".to_vec()));
    assert_eq!(handler.handle_keycode(KeyCode::F2), Some(b"\x1bOQ".to_vec()));
    assert_eq!(handler.handle_keycode(KeyCode::F3), Some(b"\x1bOR".to_vec()));
    assert_eq!(handler.handle_keycode(KeyCode::F4), Some(b"\x1bOS".to_vec()));
    assert_eq!(handler.handle_keycode(KeyCode::F5), Some(b"\x1b[15~".to_vec()));
    assert_eq!(handler.handle_keycode(KeyCode::F6), Some(b"\x1b[17~".to_vec()));
    assert_eq!(handler.handle_keycode(KeyCode::F7), Some(b"\x1b[18~".to_vec()));
    assert_eq!(handler.handle_keycode(KeyCode::F8), Some(b"\x1b[19~".to_vec()));
    assert_eq!(handler.handle_keycode(KeyCode::F9), Some(b"\x1b[20~".to_vec()));
    assert_eq!(handler.handle_keycode(KeyCode::F10), Some(b"\x1b[21~".to_vec()));
    assert_eq!(handler.handle_keycode(KeyCode::F11), Some(b"\x1b[23~".to_vec()));
    assert_eq!(handler.handle_keycode(KeyCode::F12), Some(b"\x1b[24~".to_vec()));
}

#[test]
fn space_is_nul_with_control() {
    assert_eq!(handler_with(true, false).handle_keycode(KeyCode::Space), Some(vec![0x00]));
    assert_eq!(handler_with(false, false).handle_keycode(KeyCode::Space), Some(vec![b' ']));
}

#[test]
fn punctuation_plain_and_shifted() {
    let plain = handler_with(false, false);
    let shifted = handler_with(false, true);
    let keys = vec![
        (KeyCode::Minus, b'-', b'_'),
        (KeyCode::Equal, b'=', b'+'),
        (KeyCode::BracketLeft, b'[', b'{'),
        (KeyCode::BracketRight, b']', b'}'),
        (KeyCode::Backslash, b'\\', b'|'),
        (KeyCode::Semicolon, b';', b':'),
        (KeyCode::Quote, b'\'', b'"'),
        (KeyCode::Comma, b',', b'<'),
        (KeyCode::Period, b'.', b'>'),
        (KeyCode::Slash, b'/', b'?'),
        (KeyCode::Backquote, b'`', b'~'),
    ];
    for (code, low, high) in keys {
        assert_eq!(plain.handle_keycode(code), Some(vec![low]));
        assert_eq!(shifted.handle_keycode(code), Some(vec![high]));
    }
}

#[test]
fn unknown_keys_send_nothing() {
    let handler = handler_with(false, false);
    assert_eq!(handler.handle_keycode(KeyCode::Other), None);
    assert_eq!(handler.handle_keycode(KeyCode::NumpadAdd), None);
    assert_eq!(handler.handle_key(&PhysicalKey::Unidentified), None);
    assert_eq!(handler.handle_key(&PhysicalKey::Code(KeyCode::KeyQ)), Some(vec![b'q']));
}
