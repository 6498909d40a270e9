use luowm::agent::AgentCommand;
use luowm::compositor::Compositor;
use luowm::input::{InputEvent, Key, MouseButton};
use luowm::types::{Point, Rect};
use luowm::window::WindowState;

fn pt(x: i32, y: i32) -> Point {
    Point { x, y }
}

fn ids(c: &Compositor) -> Vec<u32> {
    c.windows.iter().map(|w| w.id).collect()
}

fn focused(c: &Compositor) -> Vec<u32> {
    c.windows.iter().filter(|w| w.focused).map(|w| w.id).collect()
}

fn active(c: &Compositor) -> Vec<u32> {
    c.taskbar.buttons.iter().filter(|b| b.active).map(|b| b.win_id).collect()
}

fn strings(v: &[&str]) -> Vec<String> {
    v.iter().map(|s| s.to_string()).collect()
}

#[test]
fn new_compositor() {
    let c = Compositor::new();
    assert!(c.windows.is_empty());
    assert_eq!(c.next_id, 1);
    assert!(c.ipc.connected);
    assert_eq!(c.ipc.port, "/dev/ttyS0");
    assert!(c.taskbar.buttons.is_empty());
    assert_eq!(c.desktop.icons.len(), 4);
    assert_eq!(c.input.mouse_pos, pt(512, 384));
}

#[test]
fn open_window_gives_fresh_ids_and_focus() {
    let mut c = Compositor::new();
    let a = c.open_window("A", 10, 10, 200, 100);
    let b = c.open_window("B", 20, 20, 200, 100);
    assert_eq!((a, b), (1, 2));
    assert_eq!(c.next_id, 3);
    assert_eq!(ids(&c), vec![1, 2]);
    assert_eq!(focused(&c), vec![2]);
    assert_eq!(active(&c), vec![2]);
    assert_eq!(c.taskbar.buttons.len(), 2);
    assert_eq!(c.taskbar.buttons[1].label, "B");
    assert_eq!(c.windows[1].rect, Rect::new(20, 20, 200, 100));
}

#[test]
fn close_window_focuses_the_new_top() {
    let mut c = Compositor::new();
    c.open_window("A", 0, 0, 200, 100);
    c.open_window("B", 0, 0, 200, 100);
    c.open_window("C", 0, 0, 200, 100);
    c.close_window(3);
    assert_eq!(ids(&c), vec![1, 2]);
    assert_eq!(focused(&c), vec![2]);
    assert_eq!(active(&c), vec![2]);
    assert_eq!(c.taskbar.buttons.iter().map(|b| b.win_id).collect::<Vec<_>>(), vec![1, 2]);
    c.close_window(1);
    assert_eq!(ids(&c), vec![2]);
    assert_eq!(c.taskbar.buttons[0].rect.x, 4);
    c.close_window(2);
    assert!(c.windows.is_empty());
    assert!(c.taskbar.buttons.is_empty());
}

#[test]
fn closing_an_unknown_window_refocuses_the_top() {
    let mut c = Compositor::new();
    c.open_window("A", 0, 0, 200, 100);
    c.open_window("B", 0, 0, 200, 100);
    c.focus_window(77);
    assert!(focused(&c).is_empty());
    assert!(active(&c).is_empty());
    c.close_window(77);
    assert_eq!(ids(&c), vec![1, 2]);
    assert_eq!(focused(&c), vec![2]);
    assert_eq!(active(&c), vec![2]);
}

#[test]
fn focus_window_raises_it() {
    let mut c = Compositor::new();
    c.open_window("A", 0, 0, 200, 100);
    c.open_window("B", 0, 0, 200, 100);
    c.open_window("C", 0, 0, 200, 100);
    c.focus_window(1);
    assert_eq!(ids(&c), vec![2, 3, 1]);
    assert_eq!(focused(&c), vec![1]);
    assert_eq!(active(&c), vec![1]);
    // buttons keep their order
    assert_eq!(c.taskbar.buttons.iter().map(|b| b.win_id).collect::<Vec<_>>(), vec![1, 2, 3]);
}

#[test]
fn write_and_append_content() {
    let mut c = Compositor::new();
    c.open_window("A", 0, 0, 200, 100);
    c.append_to_window(1, "first");
    c.append_to_window(1, "second");
    assert_eq!(c.windows[0].content, strings(&["first", "second"]));
    c.write_to_window(1, strings(&["x", "y", "z"]));
    assert_eq!(c.windows[0].content, strings(&["x", "y", "z"]));
    c.append_to_window(9, "ignored");
    c.write_to_window(9, strings(&["ignored"]));
    assert_eq!(c.windows[0].content, strings(&["x", "y", "z"]));
}

#[test]
fn clicking_the_terminal_icon_opens_a_terminal() {
    let mut c = Compositor::new();
    c.handle_input(InputEvent::MouseDown(pt(20, 40), MouseButton::Left));
    assert_eq!(c.windows.len(), 1);
    let w = &c.windows[0];
    assert_eq!(w.title, "Terminal");
    assert_eq!(w.rect, Rect::new(100, 80, 500, 320));
    assert_eq!(w.content, strings(&["  luo_os v1.0", "luo_os:~$ "]));
    assert!(w.focused);
}

#[test]
fn desktop_icons_open_their_applications() {
    let mut c = Compositor::new();
    c.handle_input(InputEvent::MouseDown(pt(30, 150), MouseButton::Left));
    assert_eq!(c.windows[0].title, "File Manager");
    assert_eq!(c.windows[0].rect, Rect::new(200, 100, 480, 360));
    assert_eq!(
        c.windows[0].content,
        strings(&["=== luo_os filesystem ===", "  readme.txt  (91 bytes)", "  motd.txt  (35 bytes)"])
    );
    let mut c = Compositor::new();
    c.handle_input(InputEvent::MouseDown(pt(30, 250), MouseButton::Left));
    assert_eq!(c.windows[0].title, "AI Agent");
    assert_eq!(c.windows[0].rect, Rect::new(300, 120, 520, 380));
    assert_eq!(c.windows[0].content.len(), 9);
    assert_eq!(c.windows[0].content[0], "=== luo_os AI Agent ===");
    assert_eq!(c.windows[0].content[3], "");
    assert_eq!(c.windows[0].content[8], "  - Window control API");
    let mut c = Compositor::new();
    c.handle_input(InputEvent::MouseDown(pt(30, 350), MouseButton::Left));
    assert_eq!(c.windows[0].title, "About luo_os");
    assert_eq!(c.windows[0].rect, Rect::new(250, 200, 400, 280));
    assert_eq!(c.windows[0].content.len(), 10);
    assert_eq!(c.windows[0].content[2], "Built from scratch by luokai25");
    assert_eq!(c.windows[0].content[9], "Goal: Human + AI desktop OS");
}

#[test]
fn clicking_empty_desktop_does_nothing() {
    let mut c = Compositor::new();
    c.handle_input(InputEvent::MouseDown(pt(500, 500), MouseButton::Left));
    assert!(c.windows.is_empty());
    assert!(c.input.left_down);
}

#[test]
fn dragging_a_window_by_its_title_bar() {
    let mut c = Compositor::new();
    let welcome = c.open_window("Welcome to luo_os", 120, 60, 500, 300);
    c.handle_input(InputEvent::MouseMove(pt(200, 200)));
    c.handle_input(InputEvent::MouseDown(pt(20, 40), MouseButton::Left));
    c.handle_input(InputEvent::MouseUp(pt(20, 40), MouseButton::Left));
    assert_eq!(ids(&c), vec![1, 2]);
    c.handle_input(InputEvent::MouseMove(pt(400, 300)));
    c.handle_input(InputEvent::MouseDown(pt(150, 65), MouseButton::Left));
    // the welcome window comes to the front and follows the pointer
    assert_eq!(ids(&c), vec![2, 1]);
    assert_eq!(focused(&c), vec![welcome]);
    c.handle_input(InputEvent::MouseMove(pt(160, 75)));
    assert_eq!(c.windows[1].rect, Rect::new(130, 70, 500, 300));
    c.handle_input(InputEvent::MouseMove(pt(180, 90)));
    assert_eq!(c.windows[1].rect, Rect::new(150, 85, 500, 300));
    c.handle_input(InputEvent::MouseUp(pt(180, 90), MouseButton::Left));
    c.handle_input(InputEvent::MouseMove(pt(300, 300)));
    assert_eq!(c.windows[1].rect, Rect::new(150, 85, 500, 300));
    c.handle_input(InputEvent::KeyDown(Key::Char('h')));
    c.handle_input(InputEvent::KeyUp(Key::Char('h')));
    assert_eq!(c.windows[1].rect, Rect::new(150, 85, 500, 300));
}

#[test]
fn dragging_stops_at_the_screen_origin() {
    let mut c = Compositor::new();
    c.open_window("A", 10, 10, 300, 200);
    c.handle_input(InputEvent::MouseDown(pt(50, 20), MouseButton::Left));
    c.handle_input(InputEvent::MouseMove(pt(0, 0)));
    assert_eq!(c.windows[0].rect, Rect::new(0, 0, 300, 200));
}

#[test]
fn close_button_closes_the_window() {
    let mut c = Compositor::new();
    c.open_window("A", 0, 0, 300, 200);
    c.open_window("B", 400, 0, 300, 200);
    // close button of A: x 280..296, y 4..20
    c.handle_input(InputEvent::MouseDown(pt(285, 10), MouseButton::Left));
    assert_eq!(ids(&c), vec![2]);
    assert_eq!(active(&c), vec![2]);
}

#[test]
fn top_window_takes_the_click() {
    let mut c = Compositor::new();
    c.open_window("A", 0, 0, 300, 200);
    c.open_window("B", 0, 0, 300, 200);
    c.handle_input(InputEvent::MouseDown(pt(285, 10), MouseButton::Left));
    assert_eq!(ids(&c), vec![1]);
}

#[test]
fn minimise_and_restore_from_the_taskbar() {
    let mut c = Compositor::new();
    c.open_window("A", 0, 0, 300, 200);
    c.open_window("B", 400, 0, 300, 200);
    // minimise button of A: x 260..276, y 4..20
    c.handle_input(InputEvent::MouseDown(pt(265, 10), MouseButton::Left));
    assert_eq!(c.windows[0].state, WindowState::Minimized);
    // A's taskbar button is the first slot
    c.handle_input(InputEvent::MouseDown(pt(10, 750), MouseButton::Left));
    assert_eq!(ids(&c), vec![2, 1]);
    assert_eq!(c.windows[1].state, WindowState::Normal);
    assert_eq!(focused(&c), vec![1]);
    assert_eq!(active(&c), vec![1]);
}

#[test]
fn body_click_focuses() {
    let mut c = Compositor::new();
    c.open_window("A", 0, 0, 300, 200);
    c.open_window("B", 400, 0, 300, 200);
    c.handle_input(InputEvent::MouseDown(pt(100, 100), MouseButton::Left));
    assert_eq!(ids(&c), vec![2, 1]);
    assert_eq!(focused(&c), vec![1]);
}

#[test]
fn agent_commands_are_processed_in_order() {
    let mut c = Compositor::new();
    c.agents_handle().push(AgentCommand::OpenWindow {
        title: "AI Output".to_string(),
        x: 350,
        y: 150,
        w: 400,
        h: 250,
    });
    c.agents_handle().push(AgentCommand::AppendLine { id: 1, line: "hello".to_string() });
    c.agents_handle().push(AgentCommand::MoveWindow { id: 1, x: 5, y: 6 });
    c.agents_handle().push(AgentCommand::ResizeWindow { id: 1, w: 10, h: 500 });
    c.agents_handle().push(AgentCommand::ListWindows);
    c.process_agent_commands();
    assert_eq!(c.windows.len(), 1);
    assert_eq!(c.windows[0].title, "AI Output");
    assert_eq!(c.windows[0].content, strings(&["hello"]));
    assert_eq!(c.windows[0].rect, Rect::new(5, 6, 120, 500));
    assert!(c.agents.commands.is_empty());
}

#[test]
fn agent_content_commands() {
    let mut c = Compositor::new();
    c.open_window("A", 0, 0, 300, 200);
    c.open_window("B", 0, 0, 300, 200);
    let q = c.agents_handle();
    q.push(AgentCommand::WriteContent { id: 1, lines: strings(&["a", "b"]) });
    q.push(AgentCommand::ClearContent { id: 2 });
    q.push(AgentCommand::AppendLine { id: 2, line: "c".to_string() });
    q.push(AgentCommand::FocusWindow { id: 1 });
    q.push(AgentCommand::RunCommand { cmd: "uptime".to_string() });
    c.process_agent_commands();
    assert_eq!(ids(&c), vec![2, 1]);
    assert_eq!(c.windows[1].content, strings(&["a", "b", "  Uptime: 42 seconds"]));
    assert_eq!(c.windows[0].content, strings(&["c"]));
    c.agents_handle().push(AgentCommand::CloseWindow { id: 1 });
    c.agents_handle().push(AgentCommand::RunCommand { cmd: "ps".to_string() });
    c.process_agent_commands();
    assert_eq!(ids(&c), vec![2]);
    assert_eq!(
        c.windows[0].content,
        strings(&["c", "  PID  NAME     STATE    TICKS", "  0    kernel   running  0"])
    );
}

#[test]
fn run_command_without_focus_is_dropped() {
    let mut c = Compositor::new();
    c.open_window("A", 0, 0, 300, 200);
    c.focus_window(5);
    c.agents_handle().push(AgentCommand::RunCommand { cmd: "ls".to_string() });
    c.process_agent_commands();
    assert!(c.windows[0].content.is_empty());
}

#[test]
fn set_clock_updates_the_taskbar() {
    let mut c = Compositor::new();
    c.set_clock("09:41");
    assert_eq!(c.taskbar.clock_str, "09:41");
}

#[test]
fn startup_session() {
    let mut c = Compositor::new();
    let welcome = c.open_window("Welcome to luo_os", 120, 60, 500, 300);
    c.append_to_window(welcome, "luo_os v1.0 Desktop");
    c.append_to_window(welcome, "");
    let events = vec![
        InputEvent::MouseMove(pt(200, 200)),
        InputEvent::MouseDown(pt(20, 40), MouseButton::Left),
        InputEvent::MouseUp(pt(20, 40), MouseButton::Left),
        InputEvent::MouseMove(pt(400, 300)),
        InputEvent::MouseDown(pt(150, 65), MouseButton::Left),
        InputEvent::MouseMove(pt(160, 75)),
        InputEvent::MouseMove(pt(180, 90)),
        InputEvent::MouseUp(pt(180, 90), MouseButton::Left),
        InputEvent::KeyDown(Key::Char('h')),
        InputEvent::KeyUp(Key::Char('h')),
    ];
    for ev in events {
        c.handle_input(ev);
    }
    let last = c.next_id - 1;
    c.agents_handle().push(AgentCommand::OpenWindow {
        title: "AI Output".to_string(),
        x: 350,
        y: 150,
        w: 400,
        h: 250,
    });
    c.agents_handle().push(AgentCommand::AppendLine {
        id: last,
        line: "Agent connected. Awaiting instructions.".to_string(),
    });
    c.process_agent_commands();
    assert_eq!(ids(&c), vec![2, 1, 3]);
    assert_eq!(c.next_id, 4);
    let terminal = &c.windows[0];
    assert_eq!(
        terminal.content,
        strings(&["  luo_os v1.0", "luo_os:~$ ", "Agent connected. Awaiting instructions."])
    );
    assert_eq!(c.windows[1].rect, Rect::new(150, 85, 500, 300));
    assert_eq!(focused(&c), vec![3]);
    assert_eq!(active(&c), vec![3]);
}
