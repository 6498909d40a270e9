use luowm::taskbar::{Taskbar, TASKBAR_H};
use luowm::types::{Point, Rect};

fn pt(x: i32, y: i32) -> Point {
    Point { x, y }
}

#[test]
fn new_taskbar_spans_the_bottom() {
    let t = Taskbar::new();
    assert_eq!(TASKBAR_H, 32);
    assert_eq!(t.rect, Rect::new(0, 736, 1024, 32));
    assert!(t.buttons.is_empty());
    assert_eq!(t.clock_str, "00:00");
}

#[test]
fn buttons_are_placed_in_slots() {
    let mut t = Taskbar::new();
    t.add_button(7, "Terminal");
    t.add_button(9, "File Manager");
    assert_eq!(t.buttons[0].rect, Rect::new(4, 740, 100, 24));
    assert_eq!(t.buttons[1].rect, Rect::new(108, 740, 100, 24));
    assert_eq!(t.buttons[0].win_id, 7);
    assert_eq!(t.buttons[1].label, "File Manager");
    assert!(!t.buttons[0].active && !t.buttons[1].active);
}

#[test]
fn labels_keep_fourteen_characters() {
    let mut t = Taskbar::new();
    t.add_button(1, "A very long window title");
    assert_eq!(t.buttons[0].label, "A very long wi");
    t.add_button(2, "ÄÖÜäöüßÄÖÜäöüßXYZ");
    assert_eq!(t.buttons[1].label, "ÄÖÜäöüßÄÖÜäöüß");
    t.add_button(3, "");
    assert_eq!(t.buttons[2].label, "");
}

#[test]
fn removing_a_button_closes_ranks() {
    let mut t = Taskbar::new();
    t.add_button(1, "one");
    t.add_button(2, "two");
    t.add_button(3, "three");
    t.remove_button(1);
    assert_eq!(t.buttons.len(), 2);
    assert_eq!(t.buttons[0].win_id, 2);
    assert_eq!(t.buttons[0].rect, Rect::new(4, 740, 100, 24));
    assert_eq!(t.buttons[1].win_id, 3);
    assert_eq!(t.buttons[1].rect, Rect::new(108, 740, 100, 24));
    t.remove_button(42);
    assert_eq!(t.buttons.len(), 2);
    t.remove_button(3);
    t.remove_button(2);
    assert!(t.buttons.is_empty());
}

#[test]
fn removing_drops_every_button_of_the_window() {
    let mut t = Taskbar::new();
    t.add_button(5, "a");
    t.add_button(6, "b");
    t.add_button(5, "c");
    t.remove_button(5);
    assert_eq!(t.buttons.len(), 1);
    assert_eq!(t.buttons[0].label, "b");
    assert_eq!(t.buttons[0].rect.x, 4);
}

#[test]
fn exactly_the_matching_button_is_active() {
    let mut t = Taskbar::new();
    t.add_button(1, "one");
    t.add_button(2, "two");
    t.set_active(2);
    assert!(!t.buttons[0].active && t.buttons[1].active);
    t.set_active(1);
    assert!(t.buttons[0].active && !t.buttons[1].active);
    t.set_active(99);
    assert!(!t.buttons[0].active && !t.buttons[1].active);
}

#[test]
fn hit_button_finds_the_window() {
    let mut t = Taskbar::new();
    t.add_button(1, "one");
    t.add_button(2, "two");
    assert_eq!(t.hit_button(pt(4, 740)), Some(1));
    assert_eq!(t.hit_button(pt(103, 763)), Some(1));
    assert_eq!(t.hit_button(pt(104, 750)), None);
    assert_eq!(t.hit_button(pt(108, 750)), Some(2));
    assert_eq!(t.hit_button(pt(500, 750)), None);
    assert_eq!(t.hit_button(pt(10, 739)), None);
}

#[test]
fn clock_text_is_replaced() {
    let mut t = Taskbar::new();
    t.set_clock("12:34");
    assert_eq!(t.clock_str, "12:34");
}
