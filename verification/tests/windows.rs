use luowm::types::{Point, Rect};
use luowm::window::{Window, WindowState};

fn pt(x: i32, y: i32) -> Point {
    Point { x, y }
}

#[test]
fn new_window_is_normal_unfocused_and_dirty() {
    let w = Window::new(3, "Hello", 10, 20, 200, 100);
    assert_eq!(w.id, 3);
    assert_eq!(w.title, "Hello");
    assert_eq!(w.rect, Rect::new(10, 20, 200, 100));
    assert_eq!(w.state, WindowState::Normal);
    assert!(!w.focused);
    assert!(w.content.is_empty());
    assert!(w.dirty);
}

#[test]
fn content_operations_mark_dirty() {
    let mut w = Window::new(1, "t", 0, 0, 200, 100);
    w.dirty = false;
    w.add_line("one");
    assert!(w.dirty);
    w.add_line("two");
    assert_eq!(w.content, vec!["one".to_string(), "two".to_string()]);
    w.dirty = false;
    w.clear_content();
    assert!(w.dirty);
    assert!(w.content.is_empty());
    w.dirty = false;
    w.set_content(vec!["a".to_string()]);
    assert!(w.dirty);
    assert_eq!(w.content, vec!["a".to_string()]);
}

#[test]
fn move_keeps_size() {
    let mut w = Window::new(1, "t", 0, 0, 200, 100);
    w.dirty = false;
    w.move_to(-30, 40);
    assert_eq!(w.rect, Rect::new(-30, 40, 200, 100));
    assert!(w.dirty);
}

#[test]
fn resize_has_a_minimum() {
    let mut w = Window::new(1, "t", 5, 6, 200, 100);
    w.resize(100, 50);
    assert_eq!(w.rect, Rect::new(5, 6, 120, 80));
    w.resize(120, 80);
    assert_eq!(w.rect, Rect::new(5, 6, 120, 80));
    w.resize(640, 480);
    assert_eq!(w.rect, Rect::new(5, 6, 640, 480));
    w.resize(0, 0);
    assert_eq!(w.rect, Rect::new(5, 6, 120, 80));
}

#[test]
fn hit_regions() {
    // frame 100..400 x 50..250; close 380..396 x 54..70; minimise 360..376 x 54..70
    let w = Window::new(1, "t", 100, 50, 300, 200);
    assert!(w.hit_close(pt(380, 54)));
    assert!(w.hit_close(pt(395, 69)));
    assert!(!w.hit_close(pt(396, 60)));
    assert!(w.hit_minimize(pt(360, 60)));
    assert!(!w.hit_minimize(pt(380, 60)));
    assert!(w.hit_titlebar(pt(150, 60)));
    assert!(!w.hit_titlebar(pt(385, 60)));
    assert!(!w.hit_titlebar(pt(365, 60)));
    assert!(w.hit_titlebar(pt(398, 60)));
    assert!(!w.hit_titlebar(pt(150, 74)));
    assert!(w.hit_body(pt(150, 74)));
    assert!(!w.hit_body(pt(150, 73)));
    assert!(!w.hit_body(pt(150, 250)));
    assert!(!w.hit_body(pt(99, 100)));
}
