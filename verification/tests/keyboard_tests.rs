use rhinco_tv::virtual_keyboard::{KeyboardMessage, KeyboardOutput, KeyType, LayoutType, VirtualKeyboard};

#[test]
fn typing_and_erasing() {
    let mut k = VirtualKeyboard::new(String::new());
    // Row 1 starts with 'q'.
    assert!(matches!(k.handle_message(KeyboardMessage::Press(1, 0)), KeyboardOutput::Input(s) if s == "q"));
    assert!(matches!(k.handle_message(KeyboardMessage::Press(2, 1)), KeyboardOutput::Input(s) if s == "qs"));
    assert!(matches!(k.backspace(), KeyboardOutput::Input(s) if s == "q"));
    assert!(matches!(k.backspace(), KeyboardOutput::Input(s) if s.is_empty()));
    assert!(matches!(k.backspace(), KeyboardOutput::Nothing));
}

#[test]
fn shift_upper_cases_and_limit_holds() {
    let mut k = VirtualKeyboard::new(String::new()).with_max_length(2);
    // Shift is the first key of row 3.
    assert!(matches!(k.handle_message(KeyboardMessage::Press(3, 0)), KeyboardOutput::Nothing));
    assert!(k.shift);
    assert!(matches!(k.handle_message(KeyboardMessage::Press(1, 1)), KeyboardOutput::Input(s) if s == "W"));
    // Space is the second key of the last row.
    assert!(matches!(k.handle_message(KeyboardMessage::Press(4, 1)), KeyboardOutput::Input(s) if s == "W "));
    assert!(matches!(k.handle_message(KeyboardMessage::Press(1, 2)), KeyboardOutput::Nothing));
    assert_eq!(k.value(), "W ");
}

#[test]
fn layout_toggle_keeps_the_cursor_on_a_key() {
    let mut k = VirtualKeyboard::new(String::new());
    assert!(matches!(k.handle_message(KeyboardMessage::Press(4, 0)), KeyboardOutput::Nothing));
    assert_eq!(k.layout, LayoutType::Symbols);
    assert!(matches!(k.handle_message(KeyboardMessage::Press(1, 0)), KeyboardOutput::Input(s) if s == "!"));
    assert!(matches!(k.handle_message(KeyboardMessage::Press(4, 2)), KeyboardOutput::Submit));
    assert!(matches!(k.handle_message(KeyboardMessage::Press(9, 9)), KeyboardOutput::Nothing));
}

#[test]
fn cursor_moves_stay_on_the_layout() {
    let mut k = VirtualKeyboard::new(String::new());
    for _ in 0..20 {
        k.move_right();
    }
    assert_eq!(k.cursor, (1, 9));
    k.move_down();
    k.move_down();
    k.move_down();
    assert_eq!(k.cursor.0, 4);
    assert!(k.cursor.1 < 3);
    for _ in 0..20 {
        k.move_left();
        k.move_up();
    }
    assert_eq!(k.cursor, (0, 0));
    let rows = k.current_layout();
    assert_eq!(rows.len(), 5);
    assert!(matches!(rows[4][2].key_type, KeyType::Submit));
}

#[test]
fn password_mode_hides_the_value() {
    let mut k = VirtualKeyboard::new("ab".to_string()).password();
    assert_eq!(k.display_value(), "**");
    k.set_value("xyz".to_string());
    assert_eq!(k.display_value(), "***");
    let plain = VirtualKeyboard::new("ab".to_string());
    assert_eq!(plain.display_value(), "ab");
}
