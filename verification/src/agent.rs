//! The agent control interface: commands that AI agents send to open, close,
//! move and fill windows, the replies they get, and the queue that holds
//! commands until the compositor processes them.
use vstd::prelude::*;

verus! {

#[derive(Debug, Clone)]
pub enum AgentCommand {
    OpenWindow { title: String, x: i32, y: i32, w: u32, h: u32 },
    CloseWindow { id: u32 },
    MoveWindow { id: u32, x: i32, y: i32 },
    ResizeWindow { id: u32, w: u32, h: u32 },
    WriteContent { id: u32, lines: Vec<String> },
    AppendLine { id: u32, line: String },
    ClearContent { id: u32 },
    FocusWindow { id: u32 },
    ListWindows,
    RunCommand { cmd: String },
}

#[derive(Debug, Clone)]
pub enum AgentResponse {
    Success,
    Error(String),
    WindowId(u32),
    WindowList(Vec<WindowInfo>),
    CommandOutput(String),
}

#[derive(Debug, Clone)]
pub struct WindowInfo {
    pub id: u32,
    pub title: String,
    /// x, y, w, h
    pub rect: [i32; 4],
}

/// Commands waiting for the compositor, oldest first.
#[derive(Debug)]
pub struct AgentQueue {
    pub commands: Vec<AgentCommand>,
}

impl AgentQueue {
    pub fn new() -> (q: Self)
        ensures
            q.commands@ == Seq::<AgentCommand>::empty(),
    {
        Self { commands: Vec::new() }
    }

    /// Adds a command behind the ones already waiting.
    pub fn push(&mut self, cmd: AgentCommand)
        ensures
            final(self).commands@ == old(self).commands@.push(cmd),
    {
        self.commands.push(cmd);
    }

    /// Hands out every waiting command, oldest first, and leaves the queue empty.
    pub fn drain(&mut self) -> (out: Vec<AgentCommand>)
        ensures
            out@ == old(self).commands@,
            final(self).commands@ == Seq::<AgentCommand>::empty(),
    {
        let mut out = Vec::new();
        std::mem::swap(&mut out, &mut self.commands);
        out
    }
}

/// Draining after a run of pushes onto an empty queue gives back exactly
/// the pushed commands, in the order they were pushed, and empties the queue.
pub proof fn lemma_drain_returns_pushes(cmds: Seq<AgentCommand>)
    ensures
        pushed_onto(Seq::empty(), cmds) == cmds,
    decreases cmds.len(),
{
    if cmds.len() > 0 {
        lemma_drain_returns_pushes(cmds.drop_last());
        assert(cmds.drop_last().push(cmds.last()) =~= cmds);
    }
}

/// The queue contents after pushing `cmds` one by one onto `start`, as `push` states it.
pub open spec fn pushed_onto(start: Seq<AgentCommand>, cmds: Seq<AgentCommand>) -> Seq<
    AgentCommand,
>
    decreases cmds.len(),
{
    if cmds.len() == 0 {
        start
    } else {
        pushed_onto(start, cmds.drop_last()).push(cmds.last())
    }
}

} // verus!
