use neonforge::keyboard::KeyboardState;

#[test]
fn new_keyboard_holds_nothing() {
    let k = KeyboardState::new();
    assert!(!k.shift_pressed());
    assert_eq!(k.last_keycode(), 0);
    assert_eq!(k.last_repeat_tick(), 0);
    for code in 0..=255u8 {
        assert!(!k.is_held(code));
    }
}

#[test]
fn shift_scancodes_set_and_clear_shift() {
    let mut k = KeyboardState::new();
    assert_eq!(k.get_key(0x2A, 1), None);
    assert!(k.shift_pressed());
    assert_eq!(k.get_key(0xAA, 2), None);
    assert!(!k.shift_pressed());
    assert_eq!(k.get_key(0x36, 3), None);
    assert!(k.shift_pressed());
    assert_eq!(k.get_key(0xB6, 4), None);
    assert!(!k.shift_pressed());
    assert_eq!(k.last_keycode(), 0);
    assert!(!k.is_held(0x2A));
}

#[test]
fn first_press_marks_key_held_and_last() {
    let mut k = KeyboardState::new();
    assert_eq!(k.get_key(0x1E, 42), None);
    assert!(k.is_held(0x1E));
    assert_eq!(k.last_keycode(), 0x1E);
    assert_eq!(k.last_repeat_tick(), 42);
}

#[test]
fn repeated_press_changes_nothing() {
    let mut k = KeyboardState::new();
    k.get_key(0x1E, 42);
    k.get_key(0x1E, 50);
    assert_eq!(k.last_repeat_tick(), 42);
    assert_eq!(k.last_keycode(), 0x1E);
    assert!(k.is_held(0x1E));
}

#[test]
fn release_forgets_key() {
    let mut k = KeyboardState::new();
    k.get_key(0x1E, 42);
    assert_eq!(k.get_key(0x9E, 43), None);
    assert!(!k.is_held(0x1E));
    assert_eq!(k.last_keycode(), 0);
    assert_eq!(k.last_repeat_tick(), 42);
}

#[test]
fn release_of_other_key_keeps_last() {
    let mut k = KeyboardState::new();
    k.get_key(0x1E, 1);
    k.get_key(0x30, 2);
    assert_eq!(k.last_keycode(), 0x30);
    k.get_key(0x9E, 3);
    assert_eq!(k.last_keycode(), 0x30);
    assert!(!k.is_held(0x1E));
    assert!(k.is_held(0x30));
}

#[test]
fn press_then_release_restores_held_keys() {
    let mut k = KeyboardState::new();
    k.get_key(0x10, 5);
    k.get_key(0x11, 6);
    k.get_key(0x91, 7);
    for code in 0..=255u8 {
        assert_eq!(k.is_held(code), code == 0x10);
    }
    assert_eq!(k.last_keycode(), 0);
    assert_eq!(k.last_repeat_tick(), 6);
}
