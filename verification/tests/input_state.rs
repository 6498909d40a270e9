use luowm::input::{abs_i32, InputEvent, InputState, Key, MouseButton};
use luowm::types::Point;

fn pt(x: i32, y: i32) -> Point {
    Point { x, y }
}

#[test]
fn new_state_is_centred_and_idle() {
    let s = InputState::new();
    assert_eq!(s.mouse_pos, pt(512, 384));
    assert!(!s.left_down && !s.right_down && !s.drag_active);
    assert_eq!(s.drag_start, None);
}

#[test]
fn left_press_starts_a_possible_drag() {
    let mut s = InputState::new();
    s.process(&InputEvent::MouseDown(pt(10, 10), MouseButton::Left));
    assert!(s.left_down);
    assert_eq!(s.drag_start, Some(pt(10, 10)));
    assert!(!s.drag_active);
    // mouse position only follows moves
    assert_eq!(s.mouse_pos, pt(512, 384));
}

#[test]
fn drag_starts_beyond_four_pixels() {
    let mut s = InputState::new();
    s.process(&InputEvent::MouseDown(pt(10, 10), MouseButton::Left));
    s.process(&InputEvent::MouseMove(pt(14, 6)));
    assert!(!s.drag_active);
    assert_eq!(s.mouse_pos, pt(14, 6));
    s.process(&InputEvent::MouseMove(pt(10, 15)));
    assert!(s.drag_active);
    // moving back does not end the drag
    s.process(&InputEvent::MouseMove(pt(10, 10)));
    assert!(s.drag_active);
}

#[test]
fn drag_threshold_negative_direction() {
    let mut s = InputState::new();
    s.process(&InputEvent::MouseDown(pt(100, 100), MouseButton::Left));
    s.process(&InputEvent::MouseMove(pt(95, 100)));
    assert!(s.drag_active);
}

#[test]
fn moves_without_button_never_drag() {
    let mut s = InputState::new();
    s.process(&InputEvent::MouseMove(pt(0, 0)));
    s.process(&InputEvent::MouseMove(pt(500, 500)));
    assert!(!s.drag_active);
    assert_eq!(s.mouse_pos, pt(500, 500));
}

#[test]
fn left_release_ends_drag() {
    let mut s = InputState::new();
    s.process(&InputEvent::MouseDown(pt(0, 0), MouseButton::Left));
    s.process(&InputEvent::MouseMove(pt(50, 50)));
    assert!(s.drag_active);
    s.process(&InputEvent::MouseUp(pt(50, 50), MouseButton::Left));
    assert!(!s.left_down && !s.drag_active);
    assert_eq!(s.drag_start, None);
}

#[test]
fn right_button_is_tracked_separately() {
    let mut s = InputState::new();
    s.process(&InputEvent::MouseDown(pt(1, 1), MouseButton::Right));
    assert!(s.right_down && !s.left_down);
    assert_eq!(s.drag_start, None);
    s.process(&InputEvent::MouseUp(pt(1, 1), MouseButton::Right));
    assert!(!s.right_down);
}

#[test]
fn middle_button_and_keys_change_nothing() {
    let before = InputState::new();
    let mut s = before;
    s.process(&InputEvent::MouseDown(pt(1, 1), MouseButton::Middle));
    s.process(&InputEvent::MouseUp(pt(1, 1), MouseButton::Middle));
    s.process(&InputEvent::KeyDown(Key::Char('h')));
    s.process(&InputEvent::KeyUp(Key::Enter));
    s.process(&InputEvent::NoEvent);
    assert_eq!(s, before);
}

#[test]
fn delta_is_position_minus_previous() {
    let mut s = InputState::new();
    s.process(&InputEvent::MouseMove(pt(30, 40)));
    assert_eq!(s.delta(pt(10, 50)), (20, -10));
}

#[test]
fn absolute_value() {
    assert_eq!(abs_i32(-7), 7);
    assert_eq!(abs_i32(7), 7);
    assert_eq!(abs_i32(0), 0);
    assert_eq!(abs_i32(i32::MAX), i32::MAX);
    assert_eq!(abs_i32(i32::MIN + 1), i32::MAX);
}
