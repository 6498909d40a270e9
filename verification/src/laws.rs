//! What the compositor's operations do, stated over their inputs and results:
//! the order in which a frame paints the windows, where a new window goes,
//! how focusing restacks the windows, which pointer events reach the windows,
//! and what the per-window agent commands change.
use vstd::prelude::*;
use crate::agent::AgentCommand;
use crate::compositor::{
    CompositorView,
    find_window,
    frame_ops,
    focus_only,
    unfocus_all,
    update_window,
    windows_ops,
    without_id,
};
use crate::display::DrawCmd;
use crate::input::{InputEvent, MouseButton};
use crate::invariants::{has_window, ids_unique, lemma_find_none, lemma_find_unique};
use crate::render::{cursor_ops, desktop_ops, taskbar_ops, window_ops};
use crate::seqs::lemma_filter_one_out;
use crate::taskbar::LABEL_CHARS;
use crate::text::prefix;
use crate::types::Rect;
use crate::window::{MIN_HEIGHT, MIN_WIDTH, WindowState, WindowView};

verus! {

/// A window stacked on top is painted after all the windows below it.
pub proof fn lemma_windows_ops_push(s: Seq<WindowView>, w: WindowView)
    ensures
        windows_ops(s.push(w)) == windows_ops(s) + window_ops(w),
{
    assert(s.push(w).drop_last() =~= s);
}

/// A lone window is painted by its own operations alone.
pub proof fn lemma_windows_ops_single(w: WindowView)
    ensures
        windows_ops(seq![w]) == window_ops(w),
{
    lemma_windows_ops_push(Seq::empty(), w);
    assert(Seq::<WindowView>::empty().push(w) =~= seq![w]);
    assert(windows_ops(Seq::<WindowView>::empty()) == Seq::<DrawCmd>::empty());
    assert(Seq::<DrawCmd>::empty() + window_ops(w) =~= window_ops(w));
}

/// Painting a lower stack and then a higher one is painting the whole stack:
/// the windows are painted bottom to top.
pub proof fn lemma_windows_ops_concat(a: Seq<WindowView>, b: Seq<WindowView>)
    ensures
        windows_ops(a + b) == windows_ops(a) + windows_ops(b),
    decreases b.len(),
{
    if b.len() == 0 {
        assert(a + b =~= a);
        assert(windows_ops(a) + Seq::<DrawCmd>::empty() =~= windows_ops(a));
    } else {
        lemma_windows_ops_concat(a, b.drop_last());
        assert((a + b).drop_last() =~= a + b.drop_last());
        assert((a + b).last() == b.last());
        assert(windows_ops(a) + windows_ops(b.drop_last()) + window_ops(b.last()) =~= windows_ops(
            a,
        ) + (windows_ops(b.drop_last()) + window_ops(b.last())));
    }
}

/// A frame paints the desktop first, then the windows from the bottom of the
/// stack to the top, each window over those below it, then the taskbar and
/// last the cursor: for every window, what lies below it in the stack is
/// painted before it and what lies above it after it.
pub proof fn lemma_frame_paints_bottom_to_top(v: CompositorView, i: int)
    requires
        0 <= i < v.windows.len(),
    ensures
        frame_ops(v) == desktop_ops(v.icons) + windows_ops(v.windows.take(i)) + window_ops(
            v.windows[i],
        ) + windows_ops(v.windows.skip(i + 1)) + taskbar_ops(v.taskbar_rect, v.buttons, v.clock)
            + cursor_ops(v.input.mouse_pos),
{
    let s = v.windows;
    assert(s =~= s.take(i).push(s[i]) + s.skip(i + 1));
    lemma_windows_ops_concat(s.take(i).push(s[i]), s.skip(i + 1));
    lemma_windows_ops_push(s.take(i), s[i]);
    let d = desktop_ops(v.icons);
    let t = taskbar_ops(v.taskbar_rect, v.buttons, v.clock);
    let c = cursor_ops(v.input.mouse_pos);
    assert(d + (windows_ops(s.take(i)) + window_ops(s[i]) + windows_ops(s.skip(i + 1))) + t + c
        =~= d + windows_ops(s.take(i)) + window_ops(s[i]) + windows_ops(s.skip(i + 1)) + t + c);
}

/// Opening a window puts a fresh window on top with exactly the given title
/// and frame, the next id and the focus; the windows below keep their order and
/// lose the focus; the id counter moves on; and a highlighted button for the new
/// window is appended to the taskbar, every other button unhighlighted.
pub proof fn lemma_open_puts_window_on_top(
    v: CompositorView,
    title: Seq<char>,
    x: i32,
    y: i32,
    w: u32,
    h: u32,
)
    requires
        v.open_defined(),
    ensures
        ({
            let r = v.opened(title, x, y, w, h);
            let n = v.windows.len();
            &&& r.windows.len() == n + 1
            &&& r.windows.last().id == v.next_id
            &&& r.windows.last().title == title
            &&& r.windows.last().rect == (Rect { x, y, w, h })
            &&& r.windows.last().focused
            &&& r.windows.last().state == WindowState::Normal
            &&& r.windows.last().content.len() == 0
            &&& forall|j: int|
                0 <= j < n ==> (#[trigger] r.windows[j]) == v.windows[j].with_focus(false)
            &&& r.next_id == v.next_id + 1
            &&& r.buttons.len() == v.buttons.len() + 1
            &&& r.buttons.last().win_id == v.next_id
            &&& r.buttons.last().active
            &&& r.buttons.last().label == prefix(title, LABEL_CHARS as nat)
            &&& forall|k: int|
                0 <= k < v.buttons.len() ==> (#[trigger] r.buttons[k]).win_id == v.buttons[k].win_id
                    && r.buttons[k].rect == v.buttons[k].rect && r.buttons[k].label
                    == v.buttons[k].label && (r.buttons[k].active <==> v.buttons[k].win_id
                    == v.next_id)
            &&& r.taskbar_rect == v.taskbar_rect
            &&& r.icons == v.icons
            &&& r.input == v.input
            &&& r.queue == v.queue
        }),
{
}

/// With unique ids, editing the window that holds an id edits it in place.
proof fn lemma_update_at(s: Seq<WindowView>, id: u32, i: int, f: spec_fn(WindowView) -> WindowView)
    requires
        ids_unique(s),
        0 <= i < s.len(),
        s[i].id == id,
    ensures
        update_window(s, id, f) == s.update(i, f(s[i])),
{
    lemma_find_unique(s, id, i);
}

/// With unique ids, editing an id that no window holds changes nothing.
proof fn lemma_update_absent(s: Seq<WindowView>, id: u32, f: spec_fn(WindowView) -> WindowView)
    requires
        ids_unique(s),
        !has_window(s, id),
    ensures
        update_window(s, id, f) == s,
{
    lemma_find_none(s, id);
}

/// Clearing a window's content through the agent queue empties exactly that
/// window's content and marks it for redrawing; its id, title, frame, state and
/// focus stay, and every other window and the rest of the state are unchanged.
/// Clearing an id that no window holds changes nothing.
pub proof fn lemma_agent_clear_empties_window(v: CompositorView, id: u32)
    requires
        ids_unique(v.windows),
    ensures
        ({
            let r = v.agent_step(AgentCommand::ClearContent { id });
            &&& r == v.with_windows(r.windows)
            &&& r.windows.len() == v.windows.len()
            &&& forall|i: int|
                0 <= i < v.windows.len() ==> {
                    let (a, b) = (#[trigger] r.windows[i], v.windows[i]);
                    if b.id == id {
                        &&& a.content.len() == 0
                        &&& a.dirty
                        &&& a.id == b.id && a.title == b.title && a.rect == b.rect
                        &&& a.state == b.state && a.focused == b.focused
                    } else {
                        a == b
                    }
                }
            &&& !has_window(v.windows, id) ==> r == v
        }),
{
    let s = v.windows;
    let f = |win: WindowView| win.with_content(Seq::empty());
    if has_window(s, id) {
        let i = choose|i: int| 0 <= i < s.len() && (#[trigger] s[i]).id == id;
        lemma_update_at(s, id, i, f);
    } else {
        lemma_update_absent(s, id, f);
        assert(v.with_windows(s) == v);
    }
}

/// Replacing a window's content through the agent queue gives exactly that
/// window the new lines; every other window is unchanged.
pub proof fn lemma_agent_write_sets_content(v: CompositorView, id: u32, lines: Vec<String>)
    requires
        ids_unique(v.windows),
    ensures
        ({
            let r = v.agent_step(AgentCommand::WriteContent { id, lines });
            &&& r == v.with_windows(r.windows)
            &&& r.windows.len() == v.windows.len()
            &&& forall|i: int|
                0 <= i < v.windows.len() ==> {
                    let (a, b) = (#[trigger] r.windows[i], v.windows[i]);
                    if b.id == id {
                        &&& a.content.len() == lines@.len()
                        &&& forall|k: int| 0 <= k < lines@.len() ==> a.content[k] == (#[trigger] lines@[k])@
                        &&& a.dirty
                        &&& a.id == b.id && a.title == b.title && a.rect == b.rect
                        &&& a.state == b.state && a.focused == b.focused
                    } else {
                        a == b
                    }
                }
            &&& !has_window(v.windows, id) ==> r == v
        }),
{
    let s = v.windows;
    let l = crate::text::strings_view(lines@);
    let f = |w: WindowView| w.with_content(l);
    if has_window(s, id) {
        let i = choose|i: int| 0 <= i < s.len() && (#[trigger] s[i]).id == id;
        lemma_update_at(s, id, i, f);
    } else {
        lemma_update_absent(s, id, f);
        assert(v.with_windows(s) == v);
    }
}

/// Appending a line through the agent queue adds exactly that line at the end
/// of that window's content; every other window is unchanged.
pub proof fn lemma_agent_append_adds_line(v: CompositorView, id: u32, line: String)
    requires
        ids_unique(v.windows),
    ensures
        ({
            let r = v.agent_step(AgentCommand::AppendLine { id, line });
            &&& r == v.with_windows(r.windows)
            &&& r.windows.len() == v.windows.len()
            &&& forall|i: int|
                0 <= i < v.windows.len() ==> {
                    let (a, b) = (#[trigger] r.windows[i], v.windows[i]);
                    if b.id == id {
                        &&& a.content.len() == b.content.len() + 1
                        &&& a.content.last() == line@
                        &&& a.content.drop_last() == b.content
                        &&& a.dirty
                        &&& a.id == b.id && a.title == b.title && a.rect == b.rect
                        &&& a.state == b.state && a.focused == b.focused
                    } else {
                        a == b
                    }
                }
            &&& !has_window(v.windows, id) ==> r == v
        }),
{
    let s = v.windows;
    let f = |w: WindowView| w.with_content(w.content.push(line@));
    if has_window(s, id) {
        let i = choose|i: int| 0 <= i < s.len() && (#[trigger] s[i]).id == id;
        lemma_update_at(s, id, i, f);
        assert(s[i].content.push(line@).drop_last() =~= s[i].content);
    } else {
        lemma_update_absent(s, id, f);
        assert(v.with_windows(s) == v);
    }
}

/// Moving a window through the agent queue puts exactly that window's top-left
/// corner at the given point and keeps its size; every other window is unchanged.
pub proof fn lemma_agent_move_places_window(v: CompositorView, id: u32, x: i32, y: i32)
    requires
        ids_unique(v.windows),
    ensures
        ({
            let r = v.agent_step(AgentCommand::MoveWindow { id, x, y });
            &&& r == v.with_windows(r.windows)
            &&& r.windows.len() == v.windows.len()
            &&& forall|i: int|
                0 <= i < v.windows.len() ==> {
                    let (a, b) = (#[trigger] r.windows[i], v.windows[i]);
                    if b.id == id {
                        &&& a.rect == (Rect { x, y, w: b.rect.w, h: b.rect.h })
                        &&& a.dirty
                        &&& a.id == b.id && a.title == b.title && a.content == b.content
                        &&& a.state == b.state && a.focused == b.focused
                    } else {
                        a == b
                    }
                }
            &&& !has_window(v.windows, id) ==> r == v
        }),
{
    let s = v.windows;
    let f = |win: WindowView| win.moved(x, y);
    if has_window(s, id) {
        let i = choose|i: int| 0 <= i < s.len() && (#[trigger] s[i]).id == id;
        lemma_update_at(s, id, i, f);
    } else {
        lemma_update_absent(s, id, f);
        assert(v.with_windows(s) == v);
    }
}

/// Resizing a window through the agent queue gives exactly that window the
/// requested size, but never less than the minimum width and height, and keeps
/// its position; every other window is unchanged.
pub proof fn lemma_agent_resize_sizes_window(v: CompositorView, id: u32, w: u32, h: u32)
    requires
        ids_unique(v.windows),
    ensures
        ({
            let r = v.agent_step(AgentCommand::ResizeWindow { id, w, h });
            &&& r == v.with_windows(r.windows)
            &&& r.windows.len() == v.windows.len()
            &&& forall|i: int|
                0 <= i < v.windows.len() ==> {
                    let (a, b) = (#[trigger] r.windows[i], v.windows[i]);
                    if b.id == id {
                        &&& a.rect.x == b.rect.x && a.rect.y == b.rect.y
                        &&& a.rect.w == (if w < MIN_WIDTH { MIN_WIDTH } else { w })
                        &&& a.rect.h == (if h < MIN_HEIGHT { MIN_HEIGHT } else { h })
                        &&& a.dirty
                        &&& a.id == b.id && a.title == b.title && a.content == b.content
                        &&& a.state == b.state && a.focused == b.focused
                    } else {
                        a == b
                    }
                }
            &&& !has_window(v.windows, id) ==> r == v
        }),
{
    let s = v.windows;
    let f = |win: WindowView| win.resized(w, h);
    if has_window(s, id) {
        let i = choose|i: int| 0 <= i < s.len() && (#[trigger] s[i]).id == id;
        lemma_update_at(s, id, i, f);
    } else {
        lemma_update_absent(s, id, f);
        assert(v.with_windows(s) == v);
    }
}

/// Focusing an open window raises it to the top with the focus, and leaves
/// every other window below it, unfocused, in the order they had; focusing an
/// id that no window holds only takes the focus away. Only that window's
/// taskbar button is highlighted afterwards.
pub proof fn lemma_focus_keeps_others_order(v: CompositorView, id: u32)
    requires
        ids_unique(v.windows),
    ensures
        ({
            let r = v.focused(id);
            &&& r == (CompositorView { windows: r.windows, buttons: r.buttons, ..v })
            &&& r.buttons.len() == v.buttons.len()
            &&& forall|k: int|
                0 <= k < v.buttons.len() ==> (#[trigger] r.buttons[k]).win_id == v.buttons[k].win_id
                    && r.buttons[k].rect == v.buttons[k].rect && r.buttons[k].label
                    == v.buttons[k].label && (r.buttons[k].active <==> v.buttons[k].win_id == id)
            &&& r.windows.len() == v.windows.len()
            &&& if has_window(v.windows, id) {
                &&& r.windows.last().id == id
                &&& forall|i: int|
                    0 <= i < v.windows.len() && (#[trigger] v.windows[i]).id == id
                        ==> r.windows.last() == v.windows[i].with_focus(true)
                &&& r.windows.drop_last() == unfocus_all(without_id(v.windows, id))
            } else {
                r.windows == unfocus_all(v.windows)
            }
        }),
{
    let s = v.windows;
    let fl = focus_only(s, id);
    assert(fl.len() == s.len());
    assert(ids_unique(fl)) by {
        assert forall|a: int, b: int|
            #![trigger fl[a], fl[b]]
            0 <= a < fl.len() && 0 <= b < fl.len() && a != b implies fl[a].id != fl[b].id by {
            assert(s[a].id != s[b].id);
        }
    }
    if has_window(s, id) {
        let i = choose|i: int| 0 <= i < s.len() && (#[trigger] s[i]).id == id;
        lemma_find_unique(fl, id, i);
        assert(find_window(fl, id) == Some(i));
        let r = v.focused(id);
        assert(r.windows == fl.remove(i).push(fl[i]));
        assert(r.windows.drop_last() =~= fl.remove(i));
        let pred = |w: WindowView| w.id != id;
        assert forall|j: int| 0 <= j < s.len() && j != i implies pred(#[trigger] s[j]) by {
            assert(s[j].id != s[i].id);
        }
        lemma_filter_one_out(s, pred, i);
        assert(without_id(s, id) == s.remove(i));
        assert(fl.remove(i) =~= unfocus_all(s.remove(i))) by {
            assert forall|j: int| 0 <= j < s.len() - 1 implies (#[trigger] fl.remove(i)[j])
                == unfocus_all(s.remove(i))[j] by {
                if j < i {
                    assert(s[j].id != s[i].id);
                } else {
                    assert(s[j + 1].id != s[i].id);
                }
            }
        }
        assert forall|k: int| 0 <= k < s.len() && (#[trigger] s[k]).id == id implies r.windows.last()
            == s[k].with_focus(true) by {
            if k != i {
                assert(s[k].id != s[i].id);
            }
        }
    } else {
        lemma_find_none(fl, id);
        assert(!has_window(fl, id)) by {
            if has_window(fl, id) {
                let k = choose|k: int| 0 <= k < fl.len() && (#[trigger] fl[k]).id == id;
                assert(s[k].id == id);
            }
        }
        assert(fl =~= unfocus_all(s)) by {
            assert forall|j: int| 0 <= j < s.len() implies (#[trigger] fl[j]) == unfocus_all(s)[j] by {
                assert(s[j].id != id);
            }
        }
    }
}

/// Only a left press, a left release and a pointer move reach the windows: any
/// other event (a right or middle press or release, a key, no event) updates the
/// input state and changes nothing else.
pub proof fn lemma_other_events_only_track_input(v: CompositorView, ev: InputEvent)
    requires
        match ev {
            InputEvent::MouseDown(_, MouseButton::Left) => false,
            InputEvent::MouseUp(_, MouseButton::Left) => false,
            InputEvent::MouseMove(_) => false,
            _ => true,
        },
    ensures
        v.after_input(ev) == v.with_input(v.input.spec_process(ev)),
{
}

/// A left release ends any window drag and changes nothing else but the input
/// state; a pointer move with no drag under way changes only the input state.
pub proof fn lemma_release_and_idle_move(v: CompositorView, ev: InputEvent)
    ensures
        (match ev {
            InputEvent::MouseUp(_, MouseButton::Left) => true,
            _ => false,
        }) ==> v.after_input(ev) == (CompositorView {
            drag_win_id: None,
            ..v.with_input(v.input.spec_process(ev))
        }),
        (ev is MouseMove && v.drag_win_id is None) ==> v.after_input(ev) == v.with_input(
            v.input.spec_process(ev),
        ),
{
}

} // verus!
