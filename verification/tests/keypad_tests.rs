use chip8_core::keypad::Keypad;

#[test]
fn new_keypad_is_all_released() {
    let k = Keypad::new();
    assert_eq!(k.key.len(), 16);
    assert!(k.key.iter().all(|&s| s == 0));
}

#[test]
fn press_and_release_one_key() {
    let mut k = Keypad::new();
    k.press(3, 1);
    assert_eq!(k.key[3], 1);
    assert!(k.key.iter().enumerate().all(|(i, &s)| i == 3 || s == 0));
    k.press(3, 0);
    assert!(k.key.iter().all(|&s| s == 0));
}

#[test]
fn press_out_of_range_is_ignored() {
    let mut k = Keypad::new();
    k.press(16, 1);
    k.press(1000, 1);
    assert!(k.key.iter().all(|&s| s == 0));
}
