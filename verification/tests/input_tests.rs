use ssh_key_manager::input::InputField;

#[test]
fn test_input_field_insert() {
    let mut field = InputField::new("Test");
    field.insert_char('a');
    field.insert_char('b');
    field.insert_char('c');
    assert_eq!(field.value, "abc");
    assert_eq!(field.cursor_position, 3);
}

#[test]
fn test_input_field_backspace() {
    let mut field = InputField::new("Test").with_value("abc");
    field.backspace();
    assert_eq!(field.value, "ab");
    assert_eq!(field.cursor_position, 2);
}

#[test]
fn test_input_field_cursor_movement() {
    let mut field = InputField::new("Test").with_value("abcde");

    field.move_cursor_start();
    assert_eq!(field.cursor_position, 0);

    field.move_cursor_end();
    assert_eq!(field.cursor_position, 5);

    field.move_cursor_left();
    assert_eq!(field.cursor_position, 4);

    field.move_cursor_right();
    assert_eq!(field.cursor_position, 5);
}

#[test]
fn test_password_masking() {
    let field = InputField::new("Password").with_password().with_value("secret");

    assert_eq!(field.display_value(), "••••••");
}

#[test]
fn test_insert_in_the_middle() {
    let mut field = InputField::new("Test").with_value("ac");
    field.move_cursor_left();
    field.insert_char('b');
    assert_eq!(field.value, "abc");
    assert_eq!(field.cursor_position, 2);
}

#[test]
fn test_delete_char_at_cursor() {
    let mut field = InputField::new("Test").with_value("abc");
    field.move_cursor_start();
    field.delete_char();
    assert_eq!(field.value, "bc");
    assert_eq!(field.cursor_position, 0);
    field.move_cursor_end();
    field.delete_char();
    assert_eq!(field.value, "bc");
}

#[test]
fn test_clear_empties_the_field() {
    let mut field = InputField::new("Test").with_value("abc");
    field.clear();
    assert_eq!(field.value, "");
    assert_eq!(field.cursor_position, 0);
}
