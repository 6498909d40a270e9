use luowm::types::{Color, Point, Rect, Size};

#[test]
fn rect_new_keeps_fields() {
    let r = Rect::new(-5, 7, 100, 50);
    assert_eq!(r, Rect { x: -5, y: 7, w: 100, h: 50 });
}

#[test]
fn rect_contains_is_half_open() {
    let r = Rect::new(10, 20, 30, 40);
    assert!(r.contains(Point { x: 10, y: 20 }));
    assert!(r.contains(Point { x: 39, y: 59 }));
    assert!(!r.contains(Point { x: 40, y: 20 }));
    assert!(!r.contains(Point { x: 10, y: 60 }));
    assert!(!r.contains(Point { x: 9, y: 30 }));
    assert!(!r.contains(Point { x: 15, y: 19 }));
}

#[test]
fn empty_rect_contains_nothing() {
    let r = Rect::new(0, 0, 0, 0);
    assert!(!r.contains(Point { x: 0, y: 0 }));
}

#[test]
fn rect_parts() {
    let r = Rect::new(100, 50, 300, 200);
    assert_eq!(r.titlebar(), Rect::new(100, 50, 300, 24));
    assert_eq!(r.close_btn(), Rect::new(380, 54, 16, 16));
    assert_eq!(r.min_btn(), Rect::new(360, 54, 16, 16));
}

#[test]
fn colors() {
    assert_eq!(Color::rgb(1, 2, 3), Color { r: 1, g: 2, b: 3 });
    assert_eq!(Color::white(), Color::rgb(255, 255, 255));
    assert_eq!(Color::black(), Color::rgb(0, 0, 0));
    assert_eq!(Color::accent(), Color::rgb(0, 120, 215));
    assert_eq!(Color::accent_dark(), Color::rgb(0, 90, 160));
    assert_eq!(Color::red(), Color::rgb(196, 43, 28));
    assert_eq!(Color::green(), Color::rgb(16, 124, 16));
    assert_eq!(Color::amber(), Color::rgb(202, 80, 16));
    assert_eq!(Color::gray(), Color::rgb(60, 60, 60));
    assert_eq!(Color::dark_gray(), Color::rgb(30, 30, 30));
    assert_eq!(Color::light_gray(), Color::rgb(200, 200, 200));
    assert_eq!(Color::titlebar(), Color::rgb(40, 40, 40));
    assert_eq!(Color::titlebar_focus(), Color::rgb(0, 100, 180));
    assert_eq!(Color::desktop_bg(), Color::rgb(15, 15, 25));
    assert_eq!(Color::taskbar_bg(), Color::rgb(20, 20, 20));
}

#[test]
fn size_holds_dimensions() {
    let s = Size { w: 3, h: 4 };
    assert_eq!(s.w * s.h, 12);
}
