use engine::common::{Keyboard, Mouse};
use engine::game::get_config;
use std::collections::HashSet;

#[test]
fn press_is_reported_once() {
    let mut m = Mouse::new();
    m.press_left();
    assert!(m.left_pressed());
    assert!(m.left_held());
    m.press_left();
    assert!(!m.left_pressed());
    assert!(m.left_held());
    m.release_left();
    assert!(!m.left_pressed());
    assert!(!m.left_held());
    m.press_left();
    assert!(m.left_pressed());
}

#[test]
fn right_button_is_independent() {
    let mut m = Mouse::new();
    m.press_right();
    assert!(m.right_pressed() && m.right_held());
    assert!(!m.left_pressed() && !m.left_held());
    m.press_right();
    assert!(!m.right_pressed() && m.right_held());
    m.release_right();
    assert!(!m.right_held());
}

#[test]
fn motion_accumulates_until_clear() {
    let mut m = Mouse::new();
    m.set_position(10, 20, 3, -4);
    m.set_position(12, 18, 2, -2);
    m.set_wheel(0, 1);
    assert_eq!(m.position(), (12, 18));
    assert_eq!(m.position_rel(), (5, -6));
    assert_eq!(m.wheel(), (0, 1));
    m.press_left();
    m.clear();
    assert_eq!(m.position_rel(), (0, 0));
    assert_eq!(m.wheel(), (0, 0));
    assert_eq!(m.position(), (12, 18));
    assert!(m.left_held());
}

#[test]
fn keyboard_press_and_release() {
    let mut k = Keyboard::new();
    k.press(32);
    k.press(13);
    assert!(k.pressed(32));
    k.release(32);
    assert!(!k.pressed(32));
    assert!(k.pressed(13));
    k.clear_pressed();
    assert!(!k.pressed(13));
}

#[test]
fn keyboard_hold_replaces_held_keys() {
    let mut k = Keyboard::default();
    k.hold([1, 2].into_iter().collect::<HashSet<i32>>());
    assert!(k.held(1) && k.held(2));
    k.hold([3].into_iter().collect::<HashSet<i32>>());
    assert!(!k.held(1) && k.held(3));
    assert!(!k.pressed(3));
}

#[test]
fn window_is_four_times_the_game() {
    let c = get_config();
    assert_eq!((c.window_width, c.window_height), (1280, 736));
}
