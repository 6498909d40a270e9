use luowm::agent::{AgentCommand, AgentQueue, AgentResponse, WindowInfo};

#[test]
fn drain_returns_commands_in_push_order() {
    let mut q = AgentQueue::new();
    q.push(AgentCommand::FocusWindow { id: 1 });
    q.push(AgentCommand::ListWindows);
    q.push(AgentCommand::CloseWindow { id: 2 });
    let out = q.drain();
    assert_eq!(out.len(), 3);
    assert!(matches!(out[0], AgentCommand::FocusWindow { id: 1 }));
    assert!(matches!(out[1], AgentCommand::ListWindows));
    assert!(matches!(out[2], AgentCommand::CloseWindow { id: 2 }));
    assert!(q.commands.is_empty());
    assert!(q.drain().is_empty());
}

#[test]
fn new_queue_is_empty() {
    let mut q = AgentQueue::new();
    assert!(q.drain().is_empty());
}

#[test]
fn response_and_info_values() {
    let info = WindowInfo { id: 4, title: "T".to_string(), rect: [1, 2, 3, 4] };
    let r = AgentResponse::WindowList(vec![info.clone()]);
    match r {
        AgentResponse::WindowList(v) => assert_eq!(v[0].rect, [1, 2, 3, 4]),
        _ => panic!("wrong variant"),
    }
    assert!(matches!(AgentResponse::Success, AgentResponse::Success));
    assert!(matches!(AgentResponse::WindowId(3), AgentResponse::WindowId(3)));
}
