use luowm::desktop::{Desktop, DesktopAction};
use luowm::types::{Point, Rect};

fn pt(x: i32, y: i32) -> Point {
    Point { x, y }
}

#[test]
fn default_icons() {
    let d = Desktop::new();
    let labels: Vec<&str> = d.icons.iter().map(|i| i.label.as_str()).collect();
    assert_eq!(labels, vec!["Terminal", "Files", "AI Agent", "About"]);
    assert_eq!(d.icons[0].rect, Rect::new(20, 40, 64, 64));
    assert_eq!(d.icons[1].rect, Rect::new(20, 140, 64, 64));
    assert_eq!(d.icons[2].rect, Rect::new(20, 240, 64, 64));
    assert_eq!(d.icons[3].rect, Rect::new(20, 340, 64, 64));
    assert_eq!(d.icons[0].action, DesktopAction::OpenTerminal);
    assert_eq!(d.icons[1].action, DesktopAction::OpenFileManager);
    assert_eq!(d.icons[2].action, DesktopAction::OpenAIAgent);
    assert_eq!(d.icons[3].action, DesktopAction::OpenAbout);
}

#[test]
fn hit_icon_by_position() {
    let d = Desktop::new();
    assert_eq!(d.hit_icon(pt(20, 40)), Some(&DesktopAction::OpenTerminal));
    assert_eq!(d.hit_icon(pt(83, 103)), Some(&DesktopAction::OpenTerminal));
    assert_eq!(d.hit_icon(pt(50, 150)), Some(&DesktopAction::OpenFileManager));
    assert_eq!(d.hit_icon(pt(50, 250)), Some(&DesktopAction::OpenAIAgent));
    assert_eq!(d.hit_icon(pt(50, 403)), Some(&DesktopAction::OpenAbout));
    assert_eq!(d.hit_icon(pt(50, 120)), None);
    assert_eq!(d.hit_icon(pt(84, 50)), None);
    assert_eq!(d.hit_icon(pt(19, 50)), None);
}
