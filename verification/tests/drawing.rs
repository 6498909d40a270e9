use luowm::compositor::Compositor;
use luowm::desktop::Desktop;
use luowm::display::{DrawOp, SCREEN_H, SCREEN_W};
use luowm::input::InputEvent;
use luowm::render::draw_cursor;
use luowm::taskbar::{Taskbar, TASKBAR_H};
use luowm::types::{Color, Point, Rect};
use luowm::window::{Window, WindowState};

fn text(s: &str, x: i32, y: i32, color: Color) -> DrawOp {
    DrawOp::Text { text: s.to_string(), x, y, color }
}

#[test]
fn window_frame_operations() {
    let mut w = Window::new(1, "Hello", 100, 50, 300, 200);
    w.focused = true;
    let mut fb = Vec::new();
    w.draw(&mut fb);
    let expected = vec![
        DrawOp::FillRect { rect: Rect::new(104, 54, 300, 200), color: Color::rgb(0, 0, 0) },
        DrawOp::FillRect { rect: Rect::new(100, 50, 300, 200), color: Color::rgb(25, 25, 35) },
        DrawOp::FillRect { rect: Rect::new(100, 50, 300, 24), color: Color::rgb(0, 100, 180) },
        text("Hello", 108, 58, Color::white()),
        DrawOp::FillRect { rect: Rect::new(380, 54, 16, 16), color: Color::red() },
        text("x", 384, 58, Color::white()),
        DrawOp::FillRect { rect: Rect::new(360, 54, 16, 16), color: Color::amber() },
        text("-", 365, 58, Color::white()),
        DrawOp::Outline { rect: Rect::new(100, 50, 300, 200), color: Color::accent(), thickness: 1 },
    ];
    assert_eq!(fb, expected);
    assert!(!w.dirty);
}

#[test]
fn unfocused_window_colours() {
    let w0 = Window::new(1, "Hello", 0, 0, 300, 200);
    let mut w = w0;
    let mut fb = Vec::new();
    w.draw(&mut fb);
    assert_eq!(fb[2], DrawOp::FillRect { rect: Rect::new(0, 0, 300, 24), color: Color::titlebar() });
    assert_eq!(fb[8], DrawOp::Outline { rect: Rect::new(0, 0, 300, 200), color: Color::gray(), thickness: 1 });
}

#[test]
fn minimised_window_draws_nothing() {
    let mut w = Window::new(1, "Hello", 0, 0, 300, 200);
    w.state = WindowState::Minimized;
    let mut fb = vec![DrawOp::Pixel { x: 1, y: 1, color: Color::black() }];
    w.draw(&mut fb);
    assert_eq!(fb.len(), 1);
    assert!(w.dirty);
}

#[test]
fn title_is_cut_to_thirty_characters() {
    let mut w = Window::new(1, "abcdefghijklmnopqrstuvwxyz0123456789", 0, 0, 300, 200);
    let mut fb = Vec::new();
    w.draw(&mut fb);
    assert_eq!(fb[3], text("abcdefghijklmnopqrstuvwxyz0123", 8, 8, Color::white()));
}

#[test]
fn only_the_last_lines_that_fit_are_shown() {
    // height 100: (100 - 24 - 12) / 10 = 6 lines
    let mut w = Window::new(1, "t", 10, 20, 136, 100);
    for i in 0..9 {
        w.add_line(&format!("line {} with a long tail", i));
    }
    let mut fb = Vec::new();
    w.draw(&mut fb);
    assert_eq!(fb.len(), 9 + 6);
    // (136 - 16) / 6 = 20 characters per line
    assert_eq!(fb[9], text("line 3 with a long t", 18, 48, Color::light_gray()));
    assert_eq!(fb[14], text("line 8 with a long t", 18, 98, Color::light_gray()));
}

#[test]
fn short_windows_show_no_lines_or_all_lines() {
    // height 30: (30 - 36) / 10 rounds to 0 lines
    let mut w = Window::new(1, "t", 0, 0, 200, 30);
    w.add_line("a");
    let mut fb = Vec::new();
    w.draw(&mut fb);
    assert_eq!(fb.len(), 9);
    // height 20: (20 - 36) / 10 rounds to -1, which shows every line
    let mut w = Window::new(1, "t", 0, 0, 200, 20);
    w.add_line("a");
    w.add_line("b");
    let mut fb = Vec::new();
    w.draw(&mut fb);
    assert_eq!(fb.len(), 11);
    assert_eq!(fb[10], text("b", 8, 38, Color::light_gray()));
}

#[test]
fn taskbar_operations() {
    let mut t = Taskbar::new();
    t.add_button(1, "One");
    t.add_button(2, "Two");
    t.set_active(2);
    let mut fb = Vec::new();
    t.draw(&mut fb);
    assert_eq!(fb.len(), 1 + 1024 + 2 + 24 + 6 + 2 + 24);
    assert_eq!(fb[0], DrawOp::FillRect { rect: Rect::new(0, 736, 1024, 32), color: Color::taskbar_bg() });
    assert_eq!(fb[1], DrawOp::Pixel { x: 0, y: 736, color: Color::accent() });
    assert_eq!(fb[1024], DrawOp::Pixel { x: 1023, y: 736, color: Color::accent() });
    assert_eq!(
        fb[1026],
        DrawOp::TextCentered { text: "LUO OS".to_string(), rect: Rect::new(4, 740, 60, 24), color: Color::white() }
    );
    assert_eq!(fb[1027], DrawOp::Pixel { x: 68, y: 740, color: Color::gray() });
    assert_eq!(fb[1050], DrawOp::Pixel { x: 68, y: 763, color: Color::gray() });
    assert_eq!(fb[1051], DrawOp::FillRect { rect: Rect::new(4, 740, 100, 24), color: Color::gray() });
    assert_eq!(fb[1053], text("One", 8, 748, Color::white()));
    assert_eq!(fb[1054], DrawOp::FillRect { rect: Rect::new(108, 740, 100, 24), color: Color::accent_dark() });
    assert_eq!(
        fb[1058],
        DrawOp::TextCentered { text: "00:00".to_string(), rect: Rect::new(964, 740, 56, 24), color: Color::white() }
    );
    assert_eq!(fb[1059], DrawOp::Pixel { x: 960, y: 740, color: Color::gray() });
    assert_eq!(SCREEN_H - TASKBAR_H, 736);
}

#[test]
fn desktop_background_matches_the_float_gradient() {
    let d = Desktop::new();
    let mut fb = Vec::new();
    d.draw(&mut fb);
    let rows = (SCREEN_H - TASKBAR_H) as i32;
    for y in 0..rows {
        let shade = (y as f32 / (SCREEN_H - TASKBAR_H) as f32 * 20.0) as u8;
        let c = Color::rgb(5 + shade / 2, 5 + shade / 2, 15 + shade);
        let first = (y as usize) * SCREEN_W as usize;
        assert_eq!(fb[first], DrawOp::Pixel { x: 0, y, color: c });
        assert_eq!(fb[first + 1023], DrawOp::Pixel { x: 1023, y, color: c });
    }
}

#[test]
fn desktop_grid_and_icons() {
    let d = Desktop::new();
    let mut fb = Vec::new();
    d.draw(&mut fb);
    let bg = 736 * 1024;
    let grid = 19 * 1024;
    assert_eq!(fb.len(), bg + grid + 4 + 5 + 6 + 5);
    assert_eq!(fb[bg], DrawOp::Brighten { x: 0, y: 0, dr: 3, dg: 3, db: 5 });
    assert_eq!(fb[bg + grid - 1], DrawOp::Brighten { x: 1023, y: 720, dr: 3, dg: 3, db: 5 });
    let icons = &fb[bg + grid..];
    assert_eq!(icons[0], DrawOp::FillRect { rect: Rect::new(20, 40, 64, 64), color: Color::black() });
    assert_eq!(icons[1], DrawOp::Outline { rect: Rect::new(20, 40, 64, 64), color: Color::accent(), thickness: 1 });
    assert_eq!(icons[2], text(">_", 40, 62, Color::accent()));
    // "Terminal": (64 - 8 * 6) / 2 = 8
    assert_eq!(icons[3], text("Terminal", 28, 108, Color::white()));
    assert_eq!(
        icons[6],
        DrawOp::FillRect { rect: Rect::new(32, 156, 40, 30), color: Color::amber() }
    );
    // "Files": (64 - 30) / 2 = 17
    assert_eq!(icons[8], text("Files", 37, 208, Color::white()));
    assert_eq!(icons[12], DrawOp::FillCircle { cx: 52, cy: 268, r: 10, color: Color::dark_gray() });
    assert_eq!(icons[18], DrawOp::Line { x0: 52, y0: 370, x1: 52, y1: 388, color: Color::accent() });
    // "About": (64 - 30) / 2 = 17
    assert_eq!(icons[19], text("About", 37, 408, Color::white()));
}

#[test]
fn long_labels_are_centred_toward_zero() {
    let mut d = Desktop::new();
    d.icons.truncate(1);
    d.icons[0].label = "Terminal Emulator".to_string();
    let mut fb = Vec::new();
    d.draw(&mut fb);
    // (64 - 17 * 6) / 2 = -38 / 2 = -19
    assert_eq!(fb[fb.len() - 1], text("Terminal Emulator", 1, 108, Color::white()));
}

#[test]
fn cursor_is_outlined() {
    let mut fb = Vec::new();
    draw_cursor(&mut fb, Point { x: 100, y: 200 });
    assert_eq!(fb.len(), 44 * 6);
    assert_eq!(fb[0], DrawOp::Pixel { x: 100, y: 200, color: Color::white() });
    assert_eq!(fb[43], DrawOp::Pixel { x: 110, y: 208, color: Color::white() });
    assert_eq!(fb[44], DrawOp::Pixel { x: 99, y: 200, color: Color::black() });
    assert_eq!(fb[45], DrawOp::Pixel { x: 101, y: 200, color: Color::black() });
    assert_eq!(fb[46], DrawOp::Pixel { x: 100, y: 199, color: Color::black() });
    assert_eq!(fb[47], DrawOp::Pixel { x: 100, y: 201, color: Color::black() });
    assert_eq!(fb[44 * 5], DrawOp::Pixel { x: 100, y: 200, color: Color::white() });
}

#[test]
fn a_frame_ends_with_the_cursor() {
    let mut c = Compositor::new();
    c.open_window("A", 100, 100, 300, 200);
    c.handle_input(InputEvent::MouseMove(Point { x: 300, y: 400 }));
    let frame = c.render();
    let desktop = 736 * 1024 + 19 * 1024 + 20;
    let window = 9;
    let taskbar = 1 + 1024 + 2 + 24 + 3 + 2 + 24;
    assert_eq!(frame.len(), desktop + window + taskbar + 44 * 6);
    assert_eq!(frame[desktop + 1], DrawOp::FillRect { rect: Rect::new(100, 100, 300, 200), color: Color::rgb(25, 25, 35) });
    assert_eq!(frame[frame.len() - 1], DrawOp::Pixel { x: 310, y: 408, color: Color::white() });
    assert!(!c.windows[0].dirty);
}
