use luowm::agent::AgentCommand;
use luowm::compositor::Compositor;
use luowm::input::{InputEvent, MouseButton};
use luowm::types::{Point, Rect};

fn pt(x: i32, y: i32) -> Point {
    Point { x, y }
}

#[test]
fn ordinary_session_is_in_range() {
    let mut c = Compositor::new();
    assert!(c.can_open_window());
    c.open_window("A", 100, 100, 300, 200);
    assert!(c.can_handle_input(InputEvent::MouseDown(pt(150, 110), MouseButton::Left)));
    assert!(c.can_handle_input(InputEvent::MouseMove(pt(5, 5))));
    assert!(c.can_render());
    c.agents_handle().push(AgentCommand::OpenWindow { title: "B".to_string(), x: 0, y: 0, w: 10, h: 10 });
    c.agents_handle().push(AgentCommand::CloseWindow { id: 1 });
    assert!(c.can_process_agent_commands());
}

#[test]
fn exhausted_ids_cannot_open() {
    let mut c = Compositor::new();
    c.next_id = u32::MAX;
    assert!(!c.can_open_window());
    c.agents_handle().push(AgentCommand::OpenWindow { title: "B".to_string(), x: 0, y: 0, w: 10, h: 10 });
    assert!(!c.can_process_agent_commands());
    // a click on an icon would open a window too
    assert!(!c.can_handle_input(InputEvent::MouseDown(pt(20, 40), MouseButton::Left)));
    // a click on empty desktop opens nothing
    assert!(c.can_handle_input(InputEvent::MouseDown(pt(500, 500), MouseButton::Left)));
}

#[test]
fn second_open_can_run_out_of_ids() {
    let mut c = Compositor::new();
    c.next_id = u32::MAX - 1;
    c.agents_handle().push(AgentCommand::OpenWindow { title: "B".to_string(), x: 0, y: 0, w: 10, h: 10 });
    assert!(c.can_process_agent_commands());
    c.agents_handle().push(AgentCommand::OpenWindow { title: "C".to_string(), x: 0, y: 0, w: 10, h: 10 });
    assert!(!c.can_process_agent_commands());
}

#[test]
fn window_at_the_edge_of_the_coordinate_range() {
    let mut c = Compositor::new();
    c.open_window("A", i32::MAX - 10, 0, 100, 100);
    assert!(!c.can_handle_input(InputEvent::MouseDown(pt(i32::MAX - 5, 5), MouseButton::Left)));
    assert!(!c.can_render());
    c.windows[0].rect = Rect::new(0, 0, 100, 100);
    assert!(c.can_render());
}

#[test]
fn cursor_at_the_edge_cannot_be_drawn() {
    let mut c = Compositor::new();
    c.handle_input(InputEvent::MouseMove(pt(i32::MAX, 0)));
    assert!(!c.can_render());
}
