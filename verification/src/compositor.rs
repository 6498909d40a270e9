//! The compositor: owns the windows, the taskbar, the desktop and the input state,
//! routes pointer events and agent commands to them, and composes each frame.
use vstd::prelude::*;
use crate::agent::{AgentCommand, AgentQueue};
use crate::desktop::{
    Desktop,
    DesktopAction,
    DesktopIconView,
    default_icons,
    icon_at,
    icon_search_defined,
};
use crate::input::{InputEvent, InputState, MouseButton};
use crate::invariants::{
    lemma_agent_run_keeps_wf,
    lemma_close_keeps_wf,
    lemma_focus_keeps_wf,
    lemma_input_keeps_wf,
    lemma_line_appended_keeps_wf,
    lemma_open_keeps_wf,
    lemma_render_keeps_wf,
    lemma_update_keeps_wf,
    well_formed,
};
use crate::ipc::{KernelIpc, kernel_reply};
use crate::display::{DrawCmd, DrawOp, ops_view};
use crate::render::{
    cursor_draw_defined,
    cursor_ops,
    desktop_ops,
    draw_cursor,
    drawn,
    icon_draw_defined,
    taskbar_draw_defined,
    taskbar_draw_ok,
    taskbar_ops,
    cursor_draw_ok,
    desktop_draw_ok,
    window_draw_ok,
    window_draw_defined,
    window_ops,
};
use crate::taskbar::{
    Taskbar,
    TaskButtonView,
    activate,
    new_button,
    relaid,
    slot_x,
    slots_fit,
    without_window,
    button_at,
    button_search_defined,
    BUTTON_STRIDE,
};
use crate::text::{split_lines, spec_lines, strings_view};
use crate::types::{Point, Rect};
use crate::window::{
    Window,
    WindowState,
    WindowView,
    body_test_defined,
    body_test_ok,
    close_test_defined,
    close_test_ok,
    min_test_ok,
    titlebar_test_ok,
    hits_body,
    hits_close,
    hits_minimize,
    hits_titlebar,
    min_test_defined,
    titlebar_test_defined,
};

verus! {

pub struct Compositor {
    pub windows: Vec<Window>,
    pub taskbar: Taskbar,
    pub desktop: Desktop,
    pub input: InputState,
    pub next_id: u32,
    pub agents: AgentQueue,
    pub ipc: KernelIpc,
    drag_win_id: Option<u32>,
    drag_offset: (i32, i32),
}

/// The compositor as a value: windows bottom to top, taskbar buttons in order.
pub struct CompositorView {
    pub windows: Seq<WindowView>,
    pub taskbar_rect: Rect,
    pub buttons: Seq<TaskButtonView>,
    pub clock: Seq<char>,
    pub icons: Seq<DesktopIconView>,
    pub input: InputState,
    pub next_id: u32,
    pub queue: Seq<AgentCommand>,
    pub ipc_connected: bool,
    pub ipc_port: Seq<char>,
    pub ipc_output: Seq<Seq<char>>,
    /// The window being dragged by its title bar, if any.
    pub drag_win_id: Option<u32>,
    /// Where in the dragged window's frame the pointer grabbed it.
    pub drag_offset: (i32, i32),
}

pub open spec fn windows_view(v: Seq<Window>) -> Seq<WindowView> {
    v.map_values(|w: Window| w@)
}

impl View for Compositor {
    type V = CompositorView;

    closed spec fn view(&self) -> CompositorView {
        CompositorView {
            windows: windows_view(self.windows@),
            taskbar_rect: self.taskbar.rect,
            buttons: self.taskbar.buttons_view(),
            clock: self.taskbar.clock_str@,
            icons: self.desktop.icons_view(),
            input: self.input,
            next_id: self.next_id,
            queue: self.agents.commands@,
            ipc_connected: self.ipc.connected,
            ipc_port: self.ipc.port@,
            ipc_output: strings_view(self.ipc.output_buf@),
            drag_win_id: self.drag_win_id,
            drag_offset: self.drag_offset,
        }
    }
}

/// `i` is the lowest index of a window with this id.
pub open spec fn is_first_with_id(s: Seq<WindowView>, id: u32, i: int) -> bool {
    &&& 0 <= i < s.len()
    &&& s[i].id == id
    &&& forall|j: int| 0 <= j < i ==> (#[trigger] s[j]).id != id
}

/// The lowest index of a window with this id, if there is one.
pub open spec fn find_window(s: Seq<WindowView>, id: u32) -> Option<int> {
    if exists|i: int| is_first_with_id(s, id, i) {
        Some(choose|i: int| is_first_with_id(s, id, i))
    } else {
        None
    }
}

/// The windows with `f` applied to the first window with this id (if any).
pub open spec fn update_window(
    s: Seq<WindowView>,
    id: u32,
    f: spec_fn(WindowView) -> WindowView,
) -> Seq<WindowView> {
    match find_window(s, id) {
        Some(i) => s.update(i, f(s[i])),
        None => s,
    }
}

/// Every window unfocused.
pub open spec fn unfocus_all(s: Seq<WindowView>) -> Seq<WindowView> {
    s.map_values(|w: WindowView| w.with_focus(false))
}

/// Exactly the windows with this id focused.
pub open spec fn focus_only(s: Seq<WindowView>, id: u32) -> Seq<WindowView> {
    s.map_values(|w: WindowView| w.with_focus(w.id == id))
}

/// The windows other than those with this id, in order.
pub open spec fn without_id(s: Seq<WindowView>, id: u32) -> Seq<WindowView> {
    s.filter(|w: WindowView| w.id != id)
}

/// The window at index `i` moved to the top.
pub open spec fn raise(s: Seq<WindowView>, i: int) -> Seq<WindowView> {
    s.remove(i).push(s[i])
}

impl CompositorView {
    pub open spec fn with_windows(self, windows: Seq<WindowView>) -> CompositorView {
        CompositorView { windows, ..self }
    }

    /// `open_window` can run without overflow: the id counter has room and
    /// the new taskbar button's position fits in an `i32`.
    pub open spec fn open_defined(self) -> bool {
        &&& self.next_id < u32::MAX
        &&& slot_x(self.buttons.len() as int) <= i32::MAX
        &&& i32::MIN <= self.taskbar_rect.x + slot_x(self.buttons.len() as int) <= i32::MAX
        &&& self.taskbar_rect.y + 4 <= i32::MAX
    }

    /// The state after opening a window: it gets the next id, goes on top with
    /// the focus, and its taskbar button is appended and highlighted.
    pub open spec fn opened(self, title: Seq<char>, x: i32, y: i32, w: u32, h: u32) -> CompositorView {
        let id = self.next_id;
        CompositorView {
            windows: unfocus_all(self.windows).push(
                WindowView::fresh(id, title, Rect { x, y, w, h }).with_focus(true),
            ),
            buttons: activate(
                self.buttons.push(
                    new_button(self.taskbar_rect, self.buttons.len() as int, id, title),
                ),
                id,
            ),
            next_id: (id + 1) as u32,
            ..self
        }
    }

    /// `close_window` can lay out the remaining buttons without overflow.
    pub open spec fn close_defined(self, id: u32) -> bool {
        slots_fit(without_window(self.buttons, id).len() as int)
    }

    /// The state after closing window `id`: its windows and buttons go, the
    /// remaining buttons close ranks, and the top window (if any) gets the focus.
    pub open spec fn closed(self, id: u32) -> CompositorView {
        let kept = without_id(self.windows, id);
        let buttons = relaid(without_window(self.buttons, id));
        if kept.len() > 0 {
            let top = kept.last();
            CompositorView {
                windows: kept.update(kept.len() - 1, top.with_focus(true)),
                buttons: activate(buttons, top.id),
                ..self
            }
        } else {
            CompositorView { windows: kept, buttons, ..self }
        }
    }

    /// The state after focusing window `id`: only windows with that id are
    /// focused, its button is highlighted, and the first such window goes on top.
    pub open spec fn focused(self, id: u32) -> CompositorView {
        let flagged = focus_only(self.windows, id);
        CompositorView {
            windows: match find_window(flagged, id) {
                Some(i) => raise(flagged, i),
                None => flagged,
            },
            buttons: activate(self.buttons, id),
            ..self
        }
    }

    /// The state after replacing the content of window `id`.
    pub open spec fn content_written(self, id: u32, lines: Seq<Seq<char>>) -> CompositorView {
        self.with_windows(
            update_window(self.windows, id, |w: WindowView| w.with_content(lines)),
        )
    }

    /// The state after appending one line to window `id`.
    pub open spec fn line_appended(self, id: u32, line: Seq<char>) -> CompositorView {
        self.with_windows(
            update_window(self.windows, id, |w: WindowView| w.with_content(w.content.push(line))),
        )
    }

    /// The state after appending the lines, one by one, to window `id`.
    pub open spec fn lines_appended(self, id: u32, lines: Seq<Seq<char>>) -> CompositorView {
        if lines.len() == 0 {
            self
        } else {
            self.with_windows(
                update_window(
                    self.windows,
                    id,
                    |w: WindowView| w.with_content(w.content + lines),
                ),
            )
        }
    }
}

/// What a left click on a window does, by the part of the window it lands on.
#[derive(Debug, Clone, Copy, PartialEq, Eq, Structural)]
pub enum WindowHit {
    Close,
    Minimize,
    Drag,
    Focus,
}

/// The effect of a click at `p` on a window with this frame: the close button,
/// then the minimise button, then the title bar, then the body are tried.
pub open spec fn window_hit(r: Rect, p: Point) -> Option<WindowHit> {
    if hits_close(r, p) {
        Some(WindowHit::Close)
    } else if hits_minimize(r, p) {
        Some(WindowHit::Minimize)
    } else if hits_titlebar(r, p) {
        Some(WindowHit::Drag)
    } else if hits_body(r, p) {
        Some(WindowHit::Focus)
    } else {
        None
    }
}

/// Every test that classifying a click at `p` makes stays inside `i32`.
pub open spec fn hit_test_defined(r: Rect, p: Point) -> bool {
    &&& close_test_defined(r, p)
    &&& (!hits_close(r, p) ==> min_test_defined(r, p))
    &&& (!hits_close(r, p) && !hits_minimize(r, p) ==> titlebar_test_defined(r, p))
    &&& (!hits_close(r, p) && !hits_minimize(r, p) && !hits_titlebar(r, p) ==> body_test_defined(
        r,
        p,
    ))
}

/// The effect and window id of a click at `p`, taken from the top-most window
/// (the last one) that the click hits.
pub open spec fn top_hit(s: Seq<WindowView>, p: Point) -> Option<(WindowHit, u32)>
    decreases s.len(),
{
    if s.len() == 0 {
        None
    } else {
        match window_hit(s.last().rect, p) {
            Some(h) => Some((h, s.last().id)),
            None => top_hit(s.drop_last(), p),
        }
    }
}

/// Each window that the top-down search reaches can be classified without overflow.
pub open spec fn scan_defined(s: Seq<WindowView>, p: Point) -> bool {
    forall|i: int|
        0 <= i < s.len() && (forall|j: int|
            i < j < s.len() ==> (#[trigger] window_hit(s[j].rect, p)) is None) ==> hit_test_defined(
            #[trigger] s[i].rect,
            p,
        )
}

/// The id of the top-most focused window.
pub open spec fn last_focused(s: Seq<WindowView>) -> Option<u32>
    decreases s.len(),
{
    if s.len() == 0 {
        None
    } else if s.last().focused {
        Some(s.last().id)
    } else {
        last_focused(s.drop_last())
    }
}

/// `v` if it is not negative, else 0.
pub open spec fn non_negative(v: int) -> int {
    if v >= 0 {
        v
    } else {
        0
    }
}

/// The lines the AI Agent window starts with.
pub open spec fn agent_window_lines() -> Seq<Seq<char>> {
    seq![
        "=== luo_os AI Agent ==="@,
        "Status: daemon.py not connected"@,
        "Run: python3 agent/daemon.py --mock"@,
        ""@,
        "Capabilities:"@,
        "  - Natural language OS commands"@,
        "  - File read/write"@,
        "  - Process management"@,
        "  - Window control API"@,
    ]
}

/// The lines the About window starts with.
pub open spec fn about_window_lines() -> Seq<Seq<char>> {
    seq![
        "luo_os v1.0"@,
        ""@,
        "Built from scratch by luokai25"@,
        ""@,
        "Stack:"@,
        "  Kernel:  C + ASM (x86-32)"@,
        "  Desktop: Rust (luowm)"@,
        "  AI:      Python (daemon.py)"@,
        ""@,
        "Goal: Human + AI desktop OS"@,
    ]
}

impl CompositorView {
    /// The state after the desktop icon action `a`: the application's window is
    /// opened and filled with its first lines.
    pub open spec fn desktop_action(self, a: DesktopAction) -> CompositorView {
        let id = self.next_id;
        match a {
            DesktopAction::OpenTerminal => self.opened("Terminal"@, 100, 80, 500, 320).lines_appended(
                id,
                spec_lines(kernel_reply(self.ipc_connected, "version"@)),
            ).line_appended(id, "luo_os:~$ "@),
            DesktopAction::OpenFileManager => self.opened(
                "File Manager"@,
                200,
                100,
                480,
                360,
            ).line_appended(id, "=== luo_os filesystem ==="@).lines_appended(
                id,
                spec_lines(kernel_reply(self.ipc_connected, "ls"@)),
            ),
            DesktopAction::OpenAIAgent => self.opened("AI Agent"@, 300, 120, 520, 380).lines_appended(
                id,
                agent_window_lines(),
            ),
            DesktopAction::OpenAbout => self.opened("About luo_os"@, 250, 200, 400, 280).lines_appended(
                id,
                about_window_lines(),
            ),
        }
    }

    /// The state after a left click at `cp`.
    pub open spec fn clicked(self, cp: Point) -> CompositorView {
        match top_hit(self.windows, cp) {
            Some((WindowHit::Close, id)) => self.closed(id),
            Some((WindowHit::Minimize, id)) => self.with_windows(
                update_window(
                    self.windows,
                    id,
                    |w: WindowView| w.with_state(WindowState::Minimized),
                ),
            ),
            Some((WindowHit::Drag, id)) => {
                let f = self.focused(id);
                match find_window(f.windows, id) {
                    Some(i) => CompositorView {
                        drag_win_id: Some(id),
                        drag_offset: (
                            (cp.x - f.windows[i].rect.x) as i32,
                            (cp.y - f.windows[i].rect.y) as i32,
                        ),
                        ..f
                    },
                    None => f,
                }
            },
            Some((WindowHit::Focus, id)) => self.focused(id),
            None => match button_at(self.buttons, cp) {
                Some(win_id) => self.with_windows(
                    update_window(
                        self.windows,
                        win_id,
                        |w: WindowView|
                            if w.state == WindowState::Minimized {
                                w.with_state(WindowState::Normal)
                            } else {
                                w
                            },
                    ),
                ).focused(win_id),
                None => match icon_at(self.icons, cp) {
                    Some(a) => self.desktop_action(a),
                    None => self,
                },
            },
        }
    }

    /// A left click at `cp` runs without overflow.
    pub open spec fn click_defined(self, cp: Point) -> bool {
        &&& scan_defined(self.windows, cp)
        &&& match top_hit(self.windows, cp) {
            Some((WindowHit::Close, id)) => self.close_defined(id),
            Some((WindowHit::Drag, id)) => {
                let f = self.focused(id);
                match find_window(f.windows, id) {
                    Some(i) => {
                        &&& i32::MIN <= cp.x - f.windows[i].rect.x <= i32::MAX
                        &&& i32::MIN <= cp.y - f.windows[i].rect.y <= i32::MAX
                    },
                    None => true,
                }
            },
            Some(_) => true,
            None => {
                &&& button_search_defined(self.buttons, cp)
                &&& (button_at(self.buttons, cp) is None ==> {
                    &&& icon_search_defined(self.icons, cp)
                    &&& (icon_at(self.icons, cp) is Some ==> self.open_defined())
                })
            },
        }
    }

    pub open spec fn with_input(self, input: InputState) -> CompositorView {
        CompositorView { input, ..self }
    }

    /// The state after the input event `ev`.
    pub open spec fn after_input(self, ev: InputEvent) -> CompositorView {
        let v = CompositorView { input: self.input.spec_process(ev), ..self };
        match ev {
            InputEvent::MouseDown(cp, MouseButton::Left) => v.clicked(cp),
            InputEvent::MouseUp(_, MouseButton::Left) => CompositorView { drag_win_id: None, ..v },
            InputEvent::MouseMove(mp) => match v.drag_win_id {
                Some(id) => v.with_windows(
                    update_window(
                        v.windows,
                        id,
                        |w: WindowView|
                            w.moved(
                                non_negative(mp.x - v.drag_offset.0) as i32,
                                non_negative(mp.y - v.drag_offset.1) as i32,
                            ),
                    ),
                ),
                None => v,
            },
            _ => v,
        }
    }

    /// The event `ev` is handled without overflow.
    pub open spec fn input_defined(self, ev: InputEvent) -> bool {
        &&& self.input.process_defined(ev)
        &&& match ev {
            InputEvent::MouseDown(cp, MouseButton::Left) => self.click_defined(cp),
            InputEvent::MouseMove(mp) => match self.drag_win_id {
                Some(_) => {
                    &&& i32::MIN <= mp.x - self.drag_offset.0 <= i32::MAX
                    &&& i32::MIN <= mp.y - self.drag_offset.1 <= i32::MAX
                },
                None => true,
            },
            _ => true,
        }
    }

    /// The state after one agent command.
    pub open spec fn agent_step(self, cmd: AgentCommand) -> CompositorView {
        match cmd {
            AgentCommand::OpenWindow { title, x, y, w, h } => self.opened(title@, x, y, w, h),
            AgentCommand::CloseWindow { id } => self.closed(id),
            AgentCommand::MoveWindow { id, x, y } => self.with_windows(
                update_window(self.windows, id, |win: WindowView| win.moved(x, y)),
            ),
            AgentCommand::ResizeWindow { id, w, h } => self.with_windows(
                update_window(self.windows, id, |win: WindowView| win.resized(w, h)),
            ),
            AgentCommand::WriteContent { id, lines } => self.content_written(
                id,
                strings_view(lines@),
            ),
            AgentCommand::AppendLine { id, line } => self.line_appended(id, line@),
            AgentCommand::ClearContent { id } => self.with_windows(
                update_window(self.windows, id, |win: WindowView| win.with_content(Seq::empty())),
            ),
            AgentCommand::FocusWindow { id } => self.focused(id),
            AgentCommand::ListWindows => self,
            AgentCommand::RunCommand { cmd } => match last_focused(self.windows) {
                Some(fid) => self.lines_appended(
                    fid,
                    spec_lines(kernel_reply(self.ipc_connected, cmd@)),
                ),
                None => self,
            },
        }
    }

    /// One agent command runs without overflow.
    pub open spec fn agent_step_defined(self, cmd: AgentCommand) -> bool {
        match cmd {
            AgentCommand::OpenWindow { .. } => self.open_defined(),
            AgentCommand::CloseWindow { id } => self.close_defined(id),
            _ => true,
        }
    }

    /// The state after running the commands in order.
    pub open spec fn agent_run(self, cmds: Seq<AgentCommand>) -> CompositorView
        decreases cmds.len(),
    {
        if cmds.len() == 0 {
            self
        } else {
            self.agent_run(cmds.drop_last()).agent_step(cmds.last())
        }
    }

    /// Every command of the run is reached in a state where it runs without overflow.
    pub open spec fn agent_run_defined(self, cmds: Seq<AgentCommand>) -> bool
        decreases cmds.len(),
    {
        cmds.len() == 0 || (self.agent_run_defined(cmds.drop_last()) && self.agent_run(
            cmds.drop_last(),
        ).agent_step_defined(cmds.last()))
    }

    /// The queue emptied, everything else unchanged.
    pub open spec fn drained(self) -> CompositorView {
        CompositorView { queue: Seq::empty(), ..self }
    }
}

/// A run that is defined throughout is defined on each of its prefixes.
proof fn lemma_run_defined_prefix(v: CompositorView, cmds: Seq<AgentCommand>, k: int)
    requires
        v.agent_run_defined(cmds),
        0 <= k <= cmds.len(),
    ensures
        v.agent_run_defined(cmds.take(k)),
    decreases cmds.len(),
{
    if k < cmds.len() {
        assert(cmds.drop_last().take(k) =~= cmds.take(k));
        lemma_run_defined_prefix(v, cmds.drop_last(), k);
    } else {
        assert(cmds.take(k) =~= cmds);
    }
}

/// Updating the first window with an id, keeping that id, leaves it the first.
proof fn lemma_find_after_update(s: Seq<WindowView>, id: u32, i: int, w: WindowView)
    requires
        find_window(s, id) == Some(i),
        w.id == s[i].id,
    ensures
        find_window(s.update(i, w), id) == Some(i),
{
    let k = choose|k: int| is_first_with_id(s, id, k);
    assert(is_first_with_id(s, id, k));
    assert(is_first_with_id(s.update(i, w), id, i));
    let m = choose|m: int| is_first_with_id(s.update(i, w), id, m);
    if m < i {
        assert(s.update(i, w)[m] == s[m]);
    }
    if i < m {
        assert(s.update(i, w)[i].id == id);
    }
}

/// Appending a run of lines and then one more line is appending the longer run.
proof fn lemma_append_step(v: CompositorView, id: u32, lines: Seq<Seq<char>>, line: Seq<char>)
    ensures
        v.lines_appended(id, lines).line_appended(id, line) == v.lines_appended(id, lines.push(line)),
{
    let s = v.windows;
    match find_window(s, id) {
        Some(i) => {
            let w = s[i];
            if lines.len() == 0 {
                assert(w.content.push(line) =~= w.content + lines.push(line));
            } else {
                let w1 = w.with_content(w.content + lines);
                lemma_find_after_update(s, id, i, w1);
                assert((w.content + lines).push(line) =~= w.content + lines.push(line));
                assert(s.update(i, w1).update(i, w1.with_content(w1.content.push(line))) =~= s.update(
                    i,
                    w.with_content(w.content + lines.push(line)),
                ));
            }
        },
        None => {},
    }
}


/// The operations that draw the windows, bottom to top.
pub open spec fn windows_ops(s: Seq<WindowView>) -> Seq<DrawCmd>
    decreases s.len(),
{
    if s.len() == 0 {
        Seq::empty()
    } else {
        windows_ops(s.drop_last()) + window_ops(s.last())
    }
}

/// One frame: the desktop, then the windows from the bottom up, then the
/// taskbar over them, and the mouse cursor last, on top of everything.
pub open spec fn frame_ops(v: CompositorView) -> Seq<DrawCmd> {
    desktop_ops(v.icons) + windows_ops(v.windows) + taskbar_ops(v.taskbar_rect, v.buttons, v.clock)
        + cursor_ops(v.input.mouse_pos)
}

/// The windows after a frame: every window that was drawn is no longer dirty.
pub open spec fn all_drawn(s: Seq<WindowView>) -> Seq<WindowView> {
    s.map_values(|w: WindowView| drawn(w))
}

impl CompositorView {
    /// Every part of the frame can be drawn without overflow.
    pub open spec fn render_defined(self) -> bool {
        &&& forall|i: int| 0 <= i < self.icons.len() ==> icon_draw_defined(#[trigger] self.icons[i])
        &&& forall|i: int|
            0 <= i < self.windows.len() ==> window_draw_defined(#[trigger] self.windows[i])
        &&& taskbar_draw_defined(self.taskbar_rect, self.buttons)
        &&& cursor_draw_defined(self.input.mouse_pos)
    }
}

/// Clears the focus flag of every window.
fn clear_focus(ws: &mut Vec<Window>)
    ensures
        windows_view(final(ws)@) == unfocus_all(windows_view(old(ws)@)),
{
    let mut i: usize = 0;
    while i < ws.len()
        invariant
            i <= ws@.len(),
            ws@.len() == old(ws)@.len(),
            forall|j: int| 0 <= j < i ==> #[trigger] windows_view(ws@)[j] == windows_view(old(ws)@)[j].with_focus(false),
            forall|j: int| i <= j < ws@.len() ==> #[trigger] windows_view(ws@)[j] == windows_view(old(ws)@)[j],
        decreases ws.len() - i,
    {
        let ghost before = ws@;
        assert(windows_view(before)[i as int] == windows_view(old(ws)@)[i as int]);
        ws[i].focused = false;
        proof {
            assert(ws@ =~= before.update(i as int, ws@[i as int]));
            assert(windows_view(ws@) =~= windows_view(before).update(
                i as int,
                windows_view(old(ws)@)[i as int].with_focus(false),
            ));
        }
        i = i + 1;
    }
    assert(windows_view(ws@) =~= unfocus_all(windows_view(old(ws)@)));
}

/// Focuses exactly the windows with this id.
fn set_focus_flags(ws: &mut Vec<Window>, id: u32)
    ensures
        windows_view(final(ws)@) == focus_only(windows_view(old(ws)@), id),
{
    let mut i: usize = 0;
    while i < ws.len()
        invariant
            i <= ws@.len(),
            ws@.len() == old(ws)@.len(),
            forall|j: int| 0 <= j < i ==> #[trigger] windows_view(ws@)[j] == windows_view(old(ws)@)[j].with_focus(windows_view(old(ws)@)[j].id == id),
            forall|j: int| i <= j < ws@.len() ==> #[trigger] windows_view(ws@)[j] == windows_view(old(ws)@)[j],
        decreases ws.len() - i,
    {
        let ghost before = ws@;
        assert(windows_view(before)[i as int] == windows_view(old(ws)@)[i as int]);
        let hit = ws[i].id == id;
        ws[i].focused = hit;
        proof {
            assert(ws@ =~= before.update(i as int, ws@[i as int]));
            assert(windows_view(ws@) =~= windows_view(before).update(
                i as int,
                windows_view(old(ws)@)[i as int].with_focus(hit),
            ));
        }
        i = i + 1;
    }
    assert(windows_view(ws@) =~= focus_only(windows_view(old(ws)@), id));
}

/// The index of the first window with this id.
fn position_of(ws: &Vec<Window>, id: u32) -> (r: Option<usize>)
    ensures
        match r {
            Some(i) => find_window(windows_view(ws@), id) == Some(i as int),
            None => find_window(windows_view(ws@), id) is None,
        },
        r is None ==> forall|j: int| 0 <= j < ws@.len() ==> (#[trigger] ws@[j]).id != id,
{
    let ghost s = windows_view(ws@);
    let mut i: usize = 0;
    while i < ws.len()
        invariant
            i <= ws@.len(),
            s == windows_view(ws@),
            forall|j: int| 0 <= j < i ==> (#[trigger] ws@[j]).id != id,
        decreases ws.len() - i,
    {
        if ws[i].id == id {
            proof {
                assert forall|j: int| 0 <= j < i implies (#[trigger] s[j]).id != id by {
                    assert(s[j].id == ws@[j].id);
                }
                assert(is_first_with_id(s, id, i as int));
                let k = choose|k: int| is_first_with_id(s, id, k);
                if k < i {
                    assert(s[k].id == ws@[k].id);
                }
                if i < k {
                    assert(s[i as int].id == id);
                }
            }
            return Some(i);
        }
        i = i + 1;
    }
    proof {
        if exists|k: int| is_first_with_id(s, id, k) {
            let k = choose|k: int| is_first_with_id(s, id, k);
            assert(s[k].id == ws@[k].id);
        }
    }
    None
}

/// Removes every window with this id, keeping the others in order.
fn retain_other_windows(ws: &mut Vec<Window>, id: u32)
    ensures
        windows_view(final(ws)@) == without_id(windows_view(old(ws)@), id),
{
    let ghost orig = windows_view(ws@);
    let ghost keep = |w: WindowView| w.id != id;
    let mut i: usize = 0;
    let ghost mut k: int = 0;
    while i < ws.len()
        invariant
            0 <= k <= orig.len(),
            i as int == orig.take(k).filter(keep).len(),
            windows_view(ws@) =~= orig.take(k).filter(keep) + orig.skip(k),
            keep == (|w: WindowView| w.id != id),
        decreases ws.len() - i,
    {
        proof {
            assert(orig.take(k + 1) =~= orig.take(k).push(orig[k]));
            orig.take(k).lemma_filter_push(orig[k], keep);
            assert(windows_view(ws@)[i as int] == orig[k]);
        }
        if ws[i].id == id {
            let ghost before = ws@;
            ws.remove(i);
            proof {
                assert(windows_view(ws@) =~= windows_view(before).remove(i as int));
                assert(orig.skip(k + 1) =~= orig.skip(k).drop_first());
            }
        } else {
            i = i + 1;
            proof {
                assert(orig.skip(k + 1) =~= orig.skip(k).drop_first());
            }
        }
        proof {
            k = k + 1;
        }
    }
    proof {
        assert(orig.take(k) =~= orig);
        assert(orig.skip(k) =~= Seq::<WindowView>::empty());
    }
}

impl Compositor {
    pub fn new() -> (c: Self)
        ensures
            c@.windows == Seq::<WindowView>::empty(),
            c@.taskbar_rect == Taskbar::spec_rect(),
            c@.buttons == Seq::<TaskButtonView>::empty(),
            c@.clock == seq!['0', '0', ':', '0', '0'],
            c@.icons == default_icons(),
            c@.input == InputState::spec_new(),
            c@.next_id == 1,
            c@.queue == Seq::<AgentCommand>::empty(),
            c@.ipc_connected,
            c@.ipc_port == "/dev/ttyS0"@,
            c@.ipc_output == Seq::<Seq<char>>::empty(),
            c@.drag_win_id is None,
            c@.drag_offset == (0i32, 0i32),
            well_formed(c@),
    {
        let agents = AgentQueue::new();
        let mut ipc = KernelIpc::new("/dev/ttyS0");
        ipc.connect();
        let c = Self {
            windows: Vec::new(),
            taskbar: Taskbar::new(),
            desktop: Desktop::new(),
            input: InputState::new(),
            next_id: 1,
            agents,
            ipc,
            drag_win_id: None,
            drag_offset: (0, 0),
        };
        assert(windows_view(c.windows@) =~= Seq::<WindowView>::empty());
        assert(c.taskbar.buttons_view() =~= Seq::<TaskButtonView>::empty());
        assert(strings_view(c.ipc.output_buf@) =~= Seq::<Seq<char>>::empty());
        c
    }

    pub fn open_window(&mut self, title: &str, x: i32, y: i32, w: u32, h: u32) -> (id: u32)
        requires
            old(self)@.open_defined(),
        ensures
            id == old(self)@.next_id,
            final(self)@ == old(self)@.opened(title@, x, y, w, h),
            well_formed(old(self)@) ==> well_formed(final(self)@),
    {
        proof {
            if well_formed(old(self)@) {
                lemma_open_keeps_wf(old(self)@, title@, x, y, w, h);
            }
        }
        let id = self.next_id;
        self.next_id = self.next_id + 1;
        let mut win = Window::new(id, title, x, y, w, h);
        win.focused = true;
        clear_focus(&mut self.windows);
        self.taskbar.add_button(id, title);
        self.taskbar.set_active(id);
        let ghost before = self.windows@;
        self.windows.push(win);
        proof {
            assert(windows_view(self.windows@) =~= windows_view(before).push(win@));
        }
        id
    }

    pub fn close_window(&mut self, id: u32)
        requires
            old(self)@.close_defined(id),
        ensures
            final(self)@ == old(self)@.closed(id),
            well_formed(old(self)@) ==> well_formed(final(self)@),
    {
        proof {
            if well_formed(old(self)@) {
                lemma_close_keeps_wf(old(self)@, id);
            }
        }
        retain_other_windows(&mut self.windows, id);
        self.taskbar.remove_button(id);
        let n = self.windows.len();
        if n > 0 {
            let ghost before = self.windows@;
            self.windows[n - 1].focused = true;
            let lid = self.windows[n - 1].id;
            proof {
                assert(self.windows@ =~= before.update(n - 1, self.windows@[n - 1]));
                assert(windows_view(self.windows@) =~= windows_view(before).update(
                    n - 1,
                    windows_view(before)[n - 1].with_focus(true),
                ));
            }
            self.taskbar.set_active(lid);
        }
    }

    pub fn focus_window(&mut self, id: u32)
        ensures
            final(self)@ == old(self)@.focused(id),
            well_formed(old(self)@) ==> well_formed(final(self)@),
    {
        proof {
            if well_formed(old(self)@) {
                lemma_focus_keeps_wf(old(self)@, id);
            }
        }
        set_focus_flags(&mut self.windows, id);
        self.taskbar.set_active(id);
        if let Some(pos) = position_of(&self.windows, id) {
            let ghost before = self.windows@;
            let win = self.windows.remove(pos);
            self.windows.push(win);
            proof {
                assert(windows_view(self.windows@) =~= raise(windows_view(before), pos as int));
            }
        }
    }

    pub fn write_to_window(&mut self, id: u32, lines: Vec<String>)
        ensures
            final(self)@ == old(self)@.content_written(id, strings_view(lines@)),
            well_formed(old(self)@) ==> well_formed(final(self)@),
    {
        proof {
            if well_formed(old(self)@) {
                let l = strings_view(lines@);
                lemma_update_keeps_wf(old(self)@, id, |w: WindowView| w.with_content(l));
            }
        }
        if let Some(i) = position_of(&self.windows, id) {
            let ghost before = self.windows@;
            self.windows[i].set_content(lines);
            proof {
                assert(self.windows@ =~= before.update(i as int, self.windows@[i as int]));
                assert(windows_view(self.windows@) =~= windows_view(before).update(
                    i as int,
                    windows_view(before)[i as int].with_content(strings_view(lines@)),
                ));
            }
        }
    }

    pub fn append_to_window(&mut self, id: u32, line: &str)
        ensures
            final(self)@ == old(self)@.line_appended(id, line@),
            well_formed(old(self)@) ==> well_formed(final(self)@),
    {
        proof {
            if well_formed(old(self)@) {
                lemma_line_appended_keeps_wf(old(self)@, id, line@);
            }
        }
        if let Some(i) = position_of(&self.windows, id) {
            let ghost before = self.windows@;
            self.windows[i].add_line(line);
            proof {
                assert(self.windows@ =~= before.update(i as int, self.windows@[i as int]));
                assert(windows_view(self.windows@) =~= windows_view(before).update(
                    i as int,
                    windows_view(before)[i as int].with_content(
                        windows_view(before)[i as int].content.push(line@),
                    ),
                ));
            }
        }
    }
}


/// Classifies a click at `p` on the window `w`.
fn classify(w: &Window, p: Point) -> (r: Option<WindowHit>)
    requires
        hit_test_defined(w.rect, p),
    ensures
        r == window_hit(w.rect, p),
{
    if w.hit_close(p) {
        Some(WindowHit::Close)
    } else if w.hit_minimize(p) {
        Some(WindowHit::Minimize)
    } else if w.hit_titlebar(p) {
        Some(WindowHit::Drag)
    } else if w.hit_body(p) {
        Some(WindowHit::Focus)
    } else {
        None
    }
}

/// Searches the windows from the top down for the first one a click at `p` hits.
fn top_window_hit(ws: &Vec<Window>, p: Point) -> (r: Option<(WindowHit, u32)>)
    requires
        scan_defined(windows_view(ws@), p),
    ensures
        r == top_hit(windows_view(ws@), p),
{
    let ghost s = windows_view(ws@);
    let mut i = ws.len();
    assert(s.take(i as int) =~= s);
    while i > 0
        invariant
            i <= ws@.len(),
            s == windows_view(ws@),
            scan_defined(s, p),
            forall|j: int| i <= j < s.len() ==> (#[trigger] window_hit(s[j].rect, p)) is None,
            top_hit(s, p) == top_hit(s.take(i as int), p),
        decreases i,
    {
        let k = i - 1;
        assert(s.take(i as int).drop_last() =~= s.take(k as int));
        assert(s.take(i as int).last() == s[k as int]);
        assert(s[k as int].rect == ws@[k as int].rect);
        assert(s[k as int].id == ws@[k as int].id);
        assert(hit_test_defined(s[k as int].rect, p));
        match classify(&ws[k], p) {
            Some(h) => {
                return Some((h, ws[k].id));
            },
            None => {},
        }
        i = k;
    }
    assert(s.take(0) =~= Seq::<WindowView>::empty());
    None
}

/// The id of the top-most focused window.
fn top_focused(ws: &Vec<Window>) -> (r: Option<u32>)
    ensures
        r == last_focused(windows_view(ws@)),
{
    let ghost s = windows_view(ws@);
    let mut i = ws.len();
    assert(s.take(i as int) =~= s);
    while i > 0
        invariant
            i <= ws@.len(),
            s == windows_view(ws@),
            last_focused(s) == last_focused(s.take(i as int)),
        decreases i,
    {
        let k = i - 1;
        assert(s.take(i as int).drop_last() =~= s.take(k as int));
        assert(s.take(i as int).last() == s[k as int]);
        assert(s[k as int].focused == ws@[k as int].focused);
        assert(s[k as int].id == ws@[k as int].id);
        if ws[k].focused {
            return Some(ws[k].id);
        }
        i = k;
    }
    assert(s.take(0) =~= Seq::<WindowView>::empty());
    None
}

/// `v` if it is not negative, else 0.
fn clamp_non_negative(v: i32) -> (r: i32)
    ensures
        r == non_negative(v as int),
{
    if v >= 0 {
        v
    } else {
        0
    }
}

impl Compositor {
    /// Appends the lines, one by one, to window `id`.
    fn append_lines(&mut self, id: u32, lines: &Vec<String>)
        ensures
            final(self)@ == old(self)@.lines_appended(id, strings_view(lines@)),
    {
        let ghost all = strings_view(lines@);
        let mut k: usize = 0;
        assert(all.take(0) =~= Seq::<Seq<char>>::empty());
        while k < lines.len()
            invariant
                k <= lines@.len(),
                all == strings_view(lines@),
                self@ == old(self)@.lines_appended(id, all.take(k as int)),
            decreases lines.len() - k,
        {
            proof {
                lemma_append_step(old(self)@, id, all.take(k as int), all[k as int]);
                assert(all.take(k + 1) =~= all.take(k as int).push(all[k as int]));
            }
            self.append_to_window(id, lines[k].as_str());
            k = k + 1;
        }
        assert(all.take(k as int) =~= all);
    }

    fn handle_desktop_action(&mut self, action: DesktopAction)
        requires
            old(self)@.open_defined(),
        ensures
            final(self)@ == old(self)@.desktop_action(action),
    {
        match action {
            DesktopAction::OpenTerminal => {
                let id = self.open_window("Terminal", 100, 80, 500, 320);
                let output = self.ipc.send_command("version");
                let lines = split_lines(output.as_str());
                self.append_lines(id, &lines);
                self.append_to_window(id, "luo_os:~$ ");
            },
            DesktopAction::OpenFileManager => {
                let id = self.open_window("File Manager", 200, 100, 480, 360);
                let output = self.ipc.send_command("ls");
                self.append_to_window(id, "=== luo_os filesystem ===");
                let lines = split_lines(output.as_str());
                self.append_lines(id, &lines);
            },
            DesktopAction::OpenAIAgent => {
                let id = self.open_window("AI Agent", 300, 120, 520, 380);
                let lines = vec![
                    "=== luo_os AI Agent ===".to_owned(),
                    "Status: daemon.py not connected".to_owned(),
                    "Run: python3 agent/daemon.py --mock".to_owned(),
                    "".to_owned(),
                    "Capabilities:".to_owned(),
                    "  - Natural language OS commands".to_owned(),
                    "  - File read/write".to_owned(),
                    "  - Process management".to_owned(),
                    "  - Window control API".to_owned(),
                ];
                assert(strings_view(lines@) =~= agent_window_lines());
                self.append_lines(id, &lines);
            },
            DesktopAction::OpenAbout => {
                let id = self.open_window("About luo_os", 250, 200, 400, 280);
                let lines = vec![
                    "luo_os v1.0".to_owned(),
                    "".to_owned(),
                    "Built from scratch by luokai25".to_owned(),
                    "".to_owned(),
                    "Stack:".to_owned(),
                    "  Kernel:  C + ASM (x86-32)".to_owned(),
                    "  Desktop: Rust (luowm)".to_owned(),
                    "  AI:      Python (daemon.py)".to_owned(),
                    "".to_owned(),
                    "Goal: Human + AI desktop OS".to_owned(),
                ];
                assert(strings_view(lines@) =~= about_window_lines());
                self.append_lines(id, &lines);
            },
        }
    }

    /// A left click at `cp` that lands on no window: the taskbar buttons are
    /// tried first, then the desktop icons.
    fn click_background(&mut self, cp: Point)
        requires
            top_hit(old(self)@.windows, cp) is None,
            old(self)@.click_defined(cp),
        ensures
            final(self)@ == old(self)@.clicked(cp),
    {
        if let Some(win_id) = self.taskbar.hit_button(cp) {
            if let Some(i) = position_of(&self.windows, win_id) {
                let ghost before = self.windows@;
                if self.windows[i].state == WindowState::Minimized {
                    self.windows[i].state = WindowState::Normal;
                }
                proof {
                    assert(self.windows@ =~= before.update(i as int, self.windows@[i as int]));
                    let w = windows_view(before)[i as int];
                    assert(windows_view(self.windows@) =~= windows_view(before).update(
                        i as int,
                        if w.state == WindowState::Minimized {
                            w.with_state(WindowState::Normal)
                        } else {
                            w
                        },
                    ));
                }
            }
            self.focus_window(win_id);
        } else {
            let hit = match self.desktop.hit_icon(cp) {
                Some(a) => Some(*a),
                None => None,
            };
            if let Some(action) = hit {
                self.handle_desktop_action(action);
            }
        }
    }

    /// A left click at `cp`: the top-most window hit reacts, else the background.
    fn click(&mut self, cp: Point)
        requires
            old(self)@.click_defined(cp),
        ensures
            final(self)@ == old(self)@.clicked(cp),
    {
        match top_window_hit(&self.windows, cp) {
            Some((WindowHit::Close, id)) => {
                self.close_window(id);
            },
            Some((WindowHit::Minimize, id)) => {
                if let Some(i) = position_of(&self.windows, id) {
                    let ghost before = self.windows@;
                    self.windows[i].state = WindowState::Minimized;
                    proof {
                        assert(self.windows@ =~= before.update(i as int, self.windows@[i as int]));
                        assert(windows_view(self.windows@) =~= windows_view(before).update(
                            i as int,
                            windows_view(before)[i as int].with_state(WindowState::Minimized),
                        ));
                    }
                }
            },
            Some((WindowHit::Drag, id)) => {
                self.focus_window(id);
                if let Some(i) = position_of(&self.windows, id) {
                    self.drag_win_id = Some(id);
                    self.drag_offset = (cp.x - self.windows[i].rect.x, cp.y - self.windows[i].rect.y);
                }
            },
            Some((WindowHit::Focus, id)) => {
                self.focus_window(id);
            },
            None => {
                self.click_background(cp);
            },
        }
    }

    /// A pointer move: the window being dragged follows the pointer, kept at
    /// non-negative coordinates.
    fn drag_to(&mut self, mp: Point)
        requires
            old(self)@.drag_win_id is Some ==> {
                &&& i32::MIN <= mp.x - old(self)@.drag_offset.0 <= i32::MAX
                &&& i32::MIN <= mp.y - old(self)@.drag_offset.1 <= i32::MAX
            },
        ensures
            final(self)@ == old(self)@.after_input(InputEvent::MouseMove(mp)).with_input(
                old(self)@.input,
            ),
    {
        if let Some(id) = self.drag_win_id {
            let new_x = mp.x - self.drag_offset.0;
            let new_y = mp.y - self.drag_offset.1;
            if let Some(i) = position_of(&self.windows, id) {
                let ghost before = self.windows@;
                let nx = clamp_non_negative(new_x);
                let ny = clamp_non_negative(new_y);
                self.windows[i].move_to(nx, ny);
                proof {
                    assert(self.windows@ =~= before.update(i as int, self.windows@[i as int]));
                    assert(windows_view(self.windows@) =~= windows_view(before).update(
                        i as int,
                        windows_view(before)[i as int].moved(nx, ny),
                    ));
                }
            }
        }
    }

    /// Processes one input event: hit testing, dragging and focus.
    pub fn handle_input(&mut self, ev: InputEvent)
        requires
            old(self)@.input_defined(ev),
        ensures
            final(self)@ == old(self)@.after_input(ev),
            well_formed(old(self)@) ==> well_formed(final(self)@),
    {
        proof {
            if well_formed(old(self)@) {
                lemma_input_keeps_wf(old(self)@, ev);
            }
        }
        self.input.process(&ev);
        match ev {
            InputEvent::MouseDown(cp, MouseButton::Left) => {
                self.click(cp);
            },
            InputEvent::MouseUp(_, MouseButton::Left) => {
                self.drag_win_id = None;
            },
            InputEvent::MouseMove(mp) => {
                self.drag_to(mp);
            },
            _ => {},
        }
    }

    /// Carries out one agent command.
    fn handle_agent_command(&mut self, cmd: AgentCommand)
        requires
            old(self)@.agent_step_defined(cmd),
        ensures
            final(self)@ == old(self)@.agent_step(cmd),
    {
        match cmd {
            AgentCommand::OpenWindow { title, x, y, w, h } => {
                self.open_window(title.as_str(), x, y, w, h);
            },
            AgentCommand::CloseWindow { id } => {
                self.close_window(id);
            },
            AgentCommand::MoveWindow { id, x, y } => {
                if let Some(i) = position_of(&self.windows, id) {
                    let ghost before = self.windows@;
                    self.windows[i].move_to(x, y);
                    proof {
                        assert(self.windows@ =~= before.update(i as int, self.windows@[i as int]));
                        assert(windows_view(self.windows@) =~= windows_view(before).update(
                            i as int,
                            windows_view(before)[i as int].moved(x, y),
                        ));
                    }
                }
            },
            AgentCommand::ResizeWindow { id, w, h } => {
                if let Some(i) = position_of(&self.windows, id) {
                    let ghost before = self.windows@;
                    self.windows[i].resize(w, h);
                    proof {
                        assert(self.windows@ =~= before.update(i as int, self.windows@[i as int]));
                        assert(windows_view(self.windows@) =~= windows_view(before).update(
                            i as int,
                            windows_view(before)[i as int].resized(w, h),
                        ));
                    }
                }
            },
            AgentCommand::WriteContent { id, lines } => {
                self.write_to_window(id, lines);
            },
            AgentCommand::AppendLine { id, line } => {
                self.append_to_window(id, line.as_str());
            },
            AgentCommand::ClearContent { id } => {
                if let Some(i) = position_of(&self.windows, id) {
                    let ghost before = self.windows@;
                    self.windows[i].clear_content();
                    proof {
                        assert(self.windows@ =~= before.update(i as int, self.windows@[i as int]));
                        assert(windows_view(self.windows@) =~= windows_view(before).update(
                            i as int,
                            windows_view(before)[i as int].with_content(Seq::empty()),
                        ));
                    }
                }
            },
            AgentCommand::FocusWindow { id } => {
                self.focus_window(id);
            },
            AgentCommand::RunCommand { cmd } => {
                let output = self.ipc.send_command(cmd.as_str());
                if let Some(id) = top_focused(&self.windows) {
                    let lines = split_lines(output.as_str());
                    self.append_lines(id, &lines);
                }
            },
            AgentCommand::ListWindows => {},
        }
    }

    /// Processes all pending agent commands, oldest first.
    pub fn process_agent_commands(&mut self)
        requires
            old(self)@.drained().agent_run_defined(old(self)@.queue),
        ensures
            final(self)@ == old(self)@.drained().agent_run(old(self)@.queue),
            well_formed(old(self)@) ==> well_formed(final(self)@),
    {
        proof {
            if well_formed(old(self)@) {
                assert(well_formed(old(self)@.drained()));
                lemma_agent_run_keeps_wf(old(self)@.drained(), old(self)@.queue);
            }
        }
        let mut cmds = self.agents.drain();
        let ghost start = self@;
        let ghost all = cmds@;
        assert(start == old(self)@.drained());
        assert(all.take(0) =~= Seq::<AgentCommand>::empty());
        let ghost mut k: int = 0;
        while cmds.len() > 0
            invariant
                0 <= k <= all.len(),
                cmds@ == all.skip(k),
                start.agent_run_defined(all),
                self@ == start.agent_run(all.take(k)),
            decreases cmds.len(),
        {
            let cmd = cmds.remove(0);
            proof {
                assert(cmd == all[k]);
                assert(all.take(k + 1).drop_last() =~= all.take(k));
                assert(all.take(k + 1).last() == all[k]);
                lemma_run_defined_prefix(start, all, k + 1);
                assert(all.skip(k + 1) =~= all.skip(k).drop_first());
            }
            self.handle_agent_command(cmd);
            proof {
                k = k + 1;
            }
        }
        assert(all.take(k) =~= all);
    }

    /// Renders one full frame and returns its display list.
    pub fn render(&mut self) -> (frame: Vec<DrawOp>)
        requires
            old(self)@.render_defined(),
        ensures
            ops_view(frame@) == frame_ops(old(self)@),
            final(self)@ == old(self)@.with_windows(all_drawn(old(self)@.windows)),
            well_formed(old(self)@) ==> well_formed(final(self)@),
    {
        proof {
            if well_formed(old(self)@) {
                lemma_render_keeps_wf(old(self)@);
            }
        }
        let mut fb: Vec<DrawOp> = Vec::new();
        assert(ops_view(fb@) =~= Seq::<DrawCmd>::empty());
        self.desktop.draw(&mut fb);
        let ghost s = windows_view(self.windows@);
        let ghost head = ops_view(fb@);
        assert(head =~= desktop_ops(old(self)@.icons));
        let mut i: usize = 0;
        assert(s.take(0) =~= Seq::<WindowView>::empty());
        assert(ops_view(fb@) =~= head + windows_ops(s.take(0)));
        while i < self.windows.len()
            invariant
                i <= self.windows@.len(),
                s.len() == self.windows@.len(),
                s == old(self)@.windows,
                self.taskbar == old(self).taskbar,
                self.input == old(self).input,
                self.desktop == old(self).desktop,
                self.next_id == old(self).next_id,
                self.agents == old(self).agents,
                self.ipc == old(self).ipc,
                self.drag_win_id == old(self).drag_win_id,
                self.drag_offset == old(self).drag_offset,
                old(self)@.render_defined(),
                forall|j: int| 0 <= j < i ==> #[trigger] windows_view(self.windows@)[j] == drawn(s[j]),
                forall|j: int| i <= j < s.len() ==> #[trigger] windows_view(self.windows@)[j] == s[j],
                ops_view(fb@) == head + windows_ops(s.take(i as int)),
            decreases self.windows.len() - i,
        {
            let ghost before = self.windows@;
            assert(windows_view(before)[i as int] == s[i as int]);
            assert(window_draw_defined(s[i as int]));
            self.windows[i].draw(&mut fb);
            proof {
                assert(self.windows@ =~= before.update(i as int, self.windows@[i as int]));
                assert(windows_view(self.windows@) =~= windows_view(before).update(
                    i as int,
                    drawn(s[i as int]),
                ));
                assert(s.take(i + 1).drop_last() =~= s.take(i as int));
                assert(ops_view(fb@) =~= head + windows_ops(s.take(i + 1)));
            }
            i = i + 1;
        }
        assert(s.take(i as int) =~= s);
        assert(windows_view(self.windows@) =~= all_drawn(s));
        self.taskbar.draw(&mut fb);
        draw_cursor(&mut fb, self.input.mouse_pos);
        assert(ops_view(fb@) =~= frame_ops(old(self)@));
        fb
    }

    /// Sets the taskbar clock text.
    pub fn set_clock(&mut self, time_str: &str)
        ensures
            final(self)@ == (CompositorView { clock: time_str@, ..old(self)@ }),
    {
        self.taskbar.set_clock(time_str);
    }

    /// The queue through which agents hand commands to this compositor.
    pub fn agents_handle(&mut self) -> (q: &mut AgentQueue)
        ensures
            q.commands@ == old(self)@.queue,
            final(self)@ == (CompositorView { queue: final(q).commands@, ..old(self)@ }),
    {
        &mut self.agents
    }
}


/// The window ids of the buttons, in order.
pub open spec fn button_ids(b: Seq<TaskButtonView>) -> Seq<u32> {
    b.map_values(|x: TaskButtonView| x.win_id)
}

/// `k` is the lowest index of a window with this id, so `find_window` finds it.
proof fn lemma_find_first(s: Seq<WindowView>, id: u32, k: int)
    requires
        is_first_with_id(s, id, k),
    ensures
        find_window(s, id) == Some(k),
{
    let m = choose|m: int| is_first_with_id(s, id, m);
    assert(is_first_with_id(s, id, m));
    if m < k {
        assert(s[m].id == id);
    }
    if k < m {
        assert(s[k].id == id);
    }
}

/// Windows with the same ids at the same places are searched alike.
proof fn lemma_find_same_ids(s: Seq<WindowView>, t: Seq<WindowView>, id: u32)
    requires
        s.len() == t.len(),
        forall|i: int| 0 <= i < s.len() ==> (#[trigger] s[i]).id == t[i].id,
    ensures
        find_window(s, id) == find_window(t, id),
{
    if exists|k: int| is_first_with_id(s, id, k) {
        let k = choose|k: int| is_first_with_id(s, id, k);
        assert forall|j: int| 0 <= j < k implies (#[trigger] t[j]).id != id by {
            assert(s[j].id == t[j].id);
        }
        assert(is_first_with_id(t, id, k));
        lemma_find_first(s, id, k);
        lemma_find_first(t, id, k);
    } else if exists|k: int| is_first_with_id(t, id, k) {
        let k = choose|k: int| is_first_with_id(t, id, k);
        assert forall|j: int| 0 <= j < k implies (#[trigger] s[j]).id != id by {
            assert(s[j].id == t[j].id);
        }
        assert(is_first_with_id(s, id, k));
    }
}

/// Raising the first window with an id: the first window with that id is then
/// the next one that had it (one place lower), or the raised one on top.
proof fn lemma_find_after_raise(t: Seq<WindowView>, id: u32, i0: int, j: int)
    requires
        is_first_with_id(t, id, i0),
        i0 < j <= t.len(),
        j < t.len() ==> t[j].id == id,
        forall|m: int| i0 < m < j ==> (#[trigger] t[m]).id != id,
    ensures
        find_window(raise(t, i0), id) == Some(if j < t.len() {
            j - 1
        } else {
            t.len() - 1
        }),
{
    let r = raise(t, i0);
    let n = t.len();
    let k = if j < n {
        j - 1
    } else {
        n - 1
    };
    assert forall|m: int| 0 <= m < k implies (#[trigger] r[m]).id != id by {
        if m < i0 {
            assert(r[m] == t[m]);
        } else {
            assert(r[m] == t[m + 1]);
        }
    }
    if j < n {
        assert(r[k] == t[j]);
    } else {
        assert(r[k] == t[i0]);
    }
    assert(is_first_with_id(r, id, k));
    lemma_find_first(r, id, k);
}

/// The window ids of the buttons that survive closing a window.
proof fn lemma_button_ids_filter(b: Seq<TaskButtonView>, id: u32)
    ensures
        button_ids(without_window(b, id)) == button_ids(b).filter(|x: u32| x != id),
    decreases b.len(),
{
    reveal(Seq::filter);
    if b.len() > 0 {
        lemma_button_ids_filter(b.drop_last(), id);
        assert(button_ids(b).drop_last() =~= button_ids(b.drop_last()));
        let f = without_window(b.drop_last(), id);
        if b.last().win_id != id {
            assert(button_ids(f.push(b.last())) =~= button_ids(f).push(b.last().win_id));
        }
    }
}

/// What an agent command does to the id counter, the taskbar's place and the
/// window ids of the buttons.
proof fn lemma_step_bookkeeping(v: CompositorView, cmd: AgentCommand)
    ensures
        v.agent_step(cmd).taskbar_rect == v.taskbar_rect,
        match cmd {
            AgentCommand::OpenWindow { .. } => {
                &&& v.agent_step(cmd).next_id == (v.next_id + 1) as u32
                &&& button_ids(v.agent_step(cmd).buttons) == button_ids(v.buttons).push(v.next_id)
            },
            AgentCommand::CloseWindow { id } => {
                &&& v.agent_step(cmd).next_id == v.next_id
                &&& button_ids(v.agent_step(cmd).buttons) == button_ids(v.buttons).filter(
                    |x: u32| x != id,
                )
            },
            _ => {
                &&& v.agent_step(cmd).next_id == v.next_id
                &&& button_ids(v.agent_step(cmd).buttons) == button_ids(v.buttons)
            },
        },
{
    let w = v.agent_step(cmd);
    match cmd {
        AgentCommand::OpenWindow { title, x, y, w: ww, h } => {
            assert(button_ids(w.buttons) =~= button_ids(v.buttons).push(v.next_id));
        },
        AgentCommand::CloseWindow { id } => {
            lemma_button_ids_filter(v.buttons, id);
            let kb = without_window(v.buttons, id);
            assert(button_ids(relaid(kb)) =~= button_ids(kb));
            if without_id(v.windows, id).len() > 0 {
                let top = without_id(v.windows, id).last();
                assert(button_ids(activate(relaid(kb), top.id)) =~= button_ids(kb));
            }
        },
        AgentCommand::FocusWindow { id } => {
            assert(button_ids(activate(v.buttons, id)) =~= button_ids(v.buttons));
        },
        AgentCommand::RunCommand { cmd: c } => {},
        _ => {},
    }
}

/// Scans the windows from the top for the first one a click at `p` hits,
/// checking on the way that each classification can run.
fn scan_ok(ws: &Vec<Window>, p: Point) -> (r: (bool, Option<(WindowHit, u32)>))
    ensures
        r.0 == scan_defined(windows_view(ws@), p),
        r.0 ==> r.1 == top_hit(windows_view(ws@), p),
{
    let ghost s = windows_view(ws@);
    let mut i = ws.len();
    assert(s.take(i as int) =~= s);
    while i > 0
        invariant
            i <= ws@.len(),
            s == windows_view(ws@),
            forall|j: int| i <= j < s.len() ==> (#[trigger] window_hit(s[j].rect, p)) is None,
            forall|j: int| i <= j < s.len() ==> hit_test_defined(#[trigger] s[j].rect, p),
            top_hit(s, p) == top_hit(s.take(i as int), p),
        decreases i,
    {
        let k = i - 1;
        assert(s.take(i as int).drop_last() =~= s.take(k as int));
        assert(s.take(i as int).last() == s[k as int]);
        assert(s[k as int].rect == ws@[k as int].rect);
        assert(s[k as int].id == ws@[k as int].id);
        let r = ws[k].rect;
        let ok = close_test_ok(r, p) && (ws[k].hit_close(p) || (min_test_ok(r, p) && (
        ws[k].hit_minimize(p) || (titlebar_test_ok(r, p) && (ws[k].hit_titlebar(p)
            || body_test_ok(r, p))))));
        if !ok {
            return (false, None);
        }
        match classify(&ws[k], p) {
            Some(h) => {
                proof {
                    assert forall|m: int|
                        0 <= m < s.len() && (forall|j: int|
                            m < j < s.len() ==> (#[trigger] window_hit(s[j].rect, p)) is None) implies hit_test_defined(
                        #[trigger] s[m].rect,
                        p,
                    ) by {
                        if m < k {
                            assert(window_hit(s[k as int].rect, p) is Some);
                        }
                    }
                }
                return (true, Some((h, ws[k].id)));
            },
            None => {},
        }
        i = k;
    }
    assert(s.take(0) =~= Seq::<WindowView>::empty());
    (true, None)
}

/// Whether every offset in range: `a - b` fits in an `i32`.
fn sub_fits(a: i32, b: i32) -> (r: bool)
    ensures
        r == (i32::MIN <= a - b <= i32::MAX),
{
    let d = a as i64 - b as i64;
    i32::MIN as i64 <= d && d <= i32::MAX as i64
}

impl Compositor {
    /// Whether `open_window` can run now.
    pub fn can_open_window(&self) -> (b: bool)
        ensures
            b == self@.open_defined(),
    {
        let n = self.taskbar.buttons.len();
        assert(self@.buttons.len() == n);
        if self.next_id == u32::MAX {
            return false;
        }
        if n > ((i32::MAX - 4) / BUTTON_STRIDE) as usize {
            return false;
        }
        let x = self.taskbar.rect.x as i64 + 4 + (n as i64) * 104;
        i32::MIN as i64 <= x && x <= i32::MAX as i64 && (self.taskbar.rect.y as i64) + 4
            <= i32::MAX as i64
    }

    /// Whether closing window `id` can lay out the remaining buttons.
    fn close_ok(&self, id: u32) -> (b: bool)
        ensures
            b == self@.close_defined(id),
    {
        let ghost bs = self@.buttons;
        let ghost keep = |x: TaskButtonView| x.win_id != id;
        let mut count: usize = 0;
        let mut k: usize = 0;
        assert(bs.take(0) =~= Seq::<TaskButtonView>::empty());
        while k < self.taskbar.buttons.len()
            invariant
                k <= bs.len(),
                bs == self@.buttons,
                bs.len() == self.taskbar.buttons@.len(),
                keep == (|x: TaskButtonView| x.win_id != id),
                count as int == bs.take(k as int).filter(keep).len(),
                count <= k,
            decreases self.taskbar.buttons.len() - k,
        {
            proof {
                assert(bs.take(k + 1) =~= bs.take(k as int).push(bs[k as int]));
                bs.take(k as int).lemma_filter_push(bs[k as int], keep);
                assert(bs[k as int].win_id == self.taskbar.buttons@[k as int].win_id);
            }
            if self.taskbar.buttons[k].win_id != id {
                count = count + 1;
            }
            k = k + 1;
        }
        assert(bs.take(k as int) =~= bs);
        count == 0 || count - 1 <= ((i32::MAX - 4) / BUTTON_STRIDE) as usize
    }

    /// Whether grabbing window `id` by its title bar at `cp` can record the grab offset.
    fn grab_ok(&self, id: u32, cp: Point) -> (b: bool)
        ensures
            b == (match find_window(self@.focused(id).windows, id) {
                Some(i) => {
                    &&& i32::MIN <= cp.x - self@.focused(id).windows[i].rect.x <= i32::MAX
                    &&& i32::MIN <= cp.y - self@.focused(id).windows[i].rect.y <= i32::MAX
                },
                None => true,
            }),
    {
        let ghost s = self@.windows;
        let ghost fl = focus_only(s, id);
        proof {
            assert forall|i: int| 0 <= i < s.len() implies (#[trigger] s[i]).id == fl[i].id && s[i].rect
                == fl[i].rect by {}
            lemma_find_same_ids(s, fl, id);
        }
        match position_of(&self.windows, id) {
            None => true,
            Some(i0) => {
                let n = self.windows.len();
                let mut j = i0 + 1;
                proof {
                    let k = choose|k: int| is_first_with_id(s, id, k);
                    assert(is_first_with_id(s, id, k));
                    assert(is_first_with_id(fl, id, i0 as int));
                }
                while j < n && self.windows[j].id != id
                    invariant
                        i0 < j <= n,
                        n == self.windows@.len(),
                        s == windows_view(self.windows@),
                        forall|m: int| i0 < m < j ==> (#[trigger] self.windows@[m]).id != id,
                    decreases n - j,
                {
                    j = j + 1;
                }
                proof {
                    assert forall|m: int| i0 < m < j implies (#[trigger] fl[m]).id != id by {
                        assert(fl[m].id == self.windows@[m].id);
                    }
                    if j < n {
                        assert(fl[j as int].id == self.windows@[j as int].id);
                    }
                    lemma_find_after_raise(fl, id, i0 as int, j as int);
                }
                let r = if j < n {
                    self.windows[j].rect
                } else {
                    self.windows[i0].rect
                };
                proof {
                    let t = raise(fl, i0 as int);
                    if j < n {
                        assert(t[j - 1] == fl[j as int]);
                        assert(fl[j as int].rect == self.windows@[j as int].rect);
                    } else {
                        assert(t[n - 1] == fl[i0 as int]);
                        assert(fl[i0 as int].rect == self.windows@[i0 as int].rect);
                    }
                }
                sub_fits(cp.x, r.x) && sub_fits(cp.y, r.y)
            },
        }
    }

    /// Whether a left click at `cp` can be handled.
    fn click_ok(&self, cp: Point) -> (b: bool)
        ensures
            b == self@.click_defined(cp),
    {
        let (ok, top) = scan_ok(&self.windows, cp);
        if !ok {
            return false;
        }
        match top {
            Some((WindowHit::Close, id)) => self.close_ok(id),
            Some((WindowHit::Drag, id)) => self.grab_ok(id, cp),
            Some(_) => true,
            None => {
                let (bok, bhit) = self.taskbar.search_ok(cp);
                if !bok {
                    return false;
                }
                if bhit {
                    return true;
                }
                let (iok, ihit) = self.desktop.search_ok(cp);
                if !iok {
                    false
                } else if ihit {
                    self.can_open_window()
                } else {
                    true
                }
            },
        }
    }

    /// Whether `handle_input(ev)` can run now.
    pub fn can_handle_input(&self, ev: InputEvent) -> (b: bool)
        ensures
            b == self@.input_defined(ev),
    {
        let process_ok = match ev {
            InputEvent::MouseMove(p) => {
                if self.input.left_down {
                    match self.input.drag_start {
                        Some(st) => {
                            let dx = p.x as i64 - st.x as i64;
                            let dy = p.y as i64 - st.y as i64;
                            (i32::MIN as i64) < dx && dx <= i32::MAX as i64 && (i32::MIN as i64)
                                < dy && dy <= i32::MAX as i64
                        },
                        None => true,
                    }
                } else {
                    true
                }
            },
            _ => true,
        };
        if !process_ok {
            return false;
        }
        match ev {
            InputEvent::MouseDown(cp, MouseButton::Left) => self.click_ok(cp),
            InputEvent::MouseMove(mp) => match self.drag_win_id {
                Some(_) => sub_fits(mp.x, self.drag_offset.0) && sub_fits(mp.y, self.drag_offset.1),
                None => true,
            },
            _ => true,
        }
    }

    /// Whether `render` can run now.
    pub fn can_render(&self) -> (b: bool)
        ensures
            b == self@.render_defined(),
    {
        if !desktop_draw_ok(&self.desktop) {
            proof {
                let i = choose|i: int|
                    0 <= i < self.desktop.icons_view().len() && !icon_draw_defined(
                        #[trigger] self.desktop.icons_view()[i],
                    );
                assert(!icon_draw_defined(self@.icons[i]));
            }
            return false;
        }
        let ghost s = self@.windows;
        let mut i: usize = 0;
        while i < self.windows.len()
            invariant
                i <= self.windows@.len(),
                s == windows_view(self.windows@),
                forall|j: int| 0 <= j < i ==> window_draw_defined(#[trigger] s[j]),
            decreases self.windows.len() - i,
        {
            assert(s[i as int] == self.windows@[i as int]@);
            if !window_draw_ok(&self.windows[i]) {
                assert(!window_draw_defined(self@.windows[i as int]));
                return false;
            }
            i = i + 1;
        }
        taskbar_draw_ok(&self.taskbar) && cursor_draw_ok(self.input.mouse_pos)
    }

    /// Whether `process_agent_commands` can run every waiting command now.
    pub fn can_process_agent_commands(&self) -> (b: bool)
        ensures
            b == self@.drained().agent_run_defined(self@.queue),
    {
        let ghost start = self@.drained();
        let ghost all = self@.queue;
        let mut next = self.next_id;
        let mut ids: Vec<u32> = Vec::new();
        let mut k: usize = 0;
        while k < self.taskbar.buttons.len()
            invariant
                k <= self.taskbar.buttons@.len(),
                ids@ == button_ids(self@.buttons).take(k as int),
            decreases self.taskbar.buttons.len() - k,
        {
            assert(self@.buttons[k as int].win_id == self.taskbar.buttons@[k as int].win_id);
            ids.push(self.taskbar.buttons[k].win_id);
            assert(button_ids(self@.buttons).take(k + 1) =~= button_ids(self@.buttons).take(
                k as int,
            ).push(self.taskbar.buttons@[k as int].win_id));
            k = k + 1;
        }
        assert(button_ids(self@.buttons).take(k as int) =~= button_ids(self@.buttons));
        let rx = self.taskbar.rect.x as i64;
        let ry = self.taskbar.rect.y as i64;
        let mut c: usize = 0;
        assert(all.take(0) =~= Seq::<AgentCommand>::empty());
        while c < self.agents.commands.len()
            invariant
                c <= all.len(),
                all == self@.queue,
                start == self@.drained(),
                all.len() == self.agents.commands@.len(),
                start.agent_run_defined(all.take(c as int)),
                next == start.agent_run(all.take(c as int)).next_id,
                ids@ == button_ids(start.agent_run(all.take(c as int)).buttons),
                start.agent_run(all.take(c as int)).taskbar_rect == start.taskbar_rect,
                start.taskbar_rect.x == rx,
                start.taskbar_rect.y == ry,
            decreases self.agents.commands.len() - c,
        {
            let ghost v = start.agent_run(all.take(c as int));
            let ghost cmd = all[c as int];
            proof {
                assert(all.take(c + 1).drop_last() =~= all.take(c as int));
                assert(all.take(c + 1).last() == cmd);
                lemma_step_bookkeeping(v, cmd);
                assert(cmd == self.agents.commands@[c as int]);
            }
            match &self.agents.commands[c] {
                AgentCommand::OpenWindow { .. } => {
                    let n = ids.len();
                    let ok = next < u32::MAX && n <= ((i32::MAX - 4) / BUTTON_STRIDE) as usize && {
                        let x = rx + 4 + (n as i64) * 104;
                        i32::MIN as i64 <= x && x <= i32::MAX as i64 && ry + 4 <= i32::MAX as i64
                    };
                    if !ok {
                        proof {
                            assert(button_ids(v.buttons).len() == v.buttons.len());
                            assert(!v.agent_step_defined(cmd));
                            assert(!start.agent_run_defined(all.take(c + 1)));
                            if start.agent_run_defined(all) {
                                lemma_run_defined_prefix(start, all, c + 1);
                            }
                        }
                        return false;
                    }
                    ids.push(next);
                    next = next + 1;
                },
                AgentCommand::CloseWindow { id } => {
                    let id = *id;
                    let ghost keep = |x: u32| x != id;
                    let ghost before = ids@;
                    let mut kept: Vec<u32> = Vec::new();
                    let mut m: usize = 0;
                    assert(before.take(0) =~= Seq::<u32>::empty());
                    while m < ids.len()
                        invariant
                            m <= before.len(),
                            before == ids@,
                            keep == (|x: u32| x != id),
                            kept@ == before.take(m as int).filter(keep),
                        decreases ids.len() - m,
                    {
                        proof {
                            assert(before.take(m + 1) =~= before.take(m as int).push(before[m as int]));
                            before.take(m as int).lemma_filter_push(before[m as int], keep);
                        }
                        if ids[m] != id {
                            kept.push(ids[m]);
                        }
                        m = m + 1;
                    }
                    assert(before.take(m as int) =~= before);
                    proof {
                        lemma_button_ids_filter(v.buttons, id);
                        assert(without_window(v.buttons, id).len() == button_ids(without_window(v.buttons, id)).len());
                    }
                    let cnt = kept.len();
                    if !(cnt == 0 || cnt - 1 <= ((i32::MAX - 4) / BUTTON_STRIDE) as usize) {
                        proof {
                            assert(button_ids(v.buttons).len() == v.buttons.len());
                            assert(!v.agent_step_defined(cmd));
                            assert(!start.agent_run_defined(all.take(c + 1)));
                            if start.agent_run_defined(all) {
                                lemma_run_defined_prefix(start, all, c + 1);
                            }
                        }
                        return false;
                    }
                    ids = kept;
                },
                _ => {},
            }
            c = c + 1;
        }
        assert(all.take(c as int) =~= all);
        true
    }
}

} // verus!
