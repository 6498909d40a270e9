//! What every operation of the compositor keeps true: window ids are unique and
//! below the id counter, only the top window can have the focus, the taskbar has
//! exactly one button per window laid out in slots, the focused window's button
//! is the only highlighted one, and the input state machine is well formed.
use vstd::prelude::*;
use crate::agent::AgentCommand;
use crate::compositor::{
    CompositorView,
    WindowHit,
    top_hit,
    find_window,
    focus_only,
    is_first_with_id,
    raise,
    unfocus_all,
    update_window,
    without_id,
};
use crate::seqs::{lemma_filter_all, lemma_filter_one_out};
use crate::taskbar::{TaskButtonView, activate, relaid, slot_x, without_window};
use crate::desktop::{DesktopAction, icon_at};
use crate::input::{InputEvent, MouseButton, lemma_process_keeps_wf};
use crate::taskbar::button_at;
use crate::types::{Point, Rect};
use crate::window::{WindowState, WindowView};

verus! {

pub open spec fn ids_unique(s: Seq<WindowView>) -> bool {
    forall|i: int, j: int|
        #![trigger s[i], s[j]]
        0 <= i < s.len() && 0 <= j < s.len() && i != j ==> s[i].id != s[j].id
}

pub open spec fn ids_below(s: Seq<WindowView>, n: u32) -> bool {
    forall|i: int| 0 <= i < s.len() ==> (#[trigger] s[i]).id < n
}

pub open spec fn focus_on_top(s: Seq<WindowView>) -> bool {
    forall|i: int| 0 <= i < s.len() && (#[trigger] s[i]).focused ==> i == s.len() - 1
}

/// The id of the focused window, if there is one (it can only be the top one).
pub open spec fn focused_id(s: Seq<WindowView>) -> Option<u32> {
    if s.len() > 0 && s.last().focused {
        Some(s.last().id)
    } else {
        None
    }
}

pub open spec fn button_ids_unique(b: Seq<TaskButtonView>) -> bool {
    forall|i: int, j: int|
        #![trigger b[i], b[j]]
        0 <= i < b.len() && 0 <= j < b.len() && i != j ==> b[i].win_id != b[j].win_id
}

pub open spec fn has_button(b: Seq<TaskButtonView>, id: u32) -> bool {
    exists|k: int| 0 <= k < b.len() && (#[trigger] b[k]).win_id == id
}

pub open spec fn has_window(s: Seq<WindowView>, id: u32) -> bool {
    exists|k: int| 0 <= k < s.len() && (#[trigger] s[k]).id == id
}

/// One button per window, and one window per button.
pub open spec fn buttons_match(s: Seq<WindowView>, b: Seq<TaskButtonView>) -> bool {
    &&& b.len() == s.len()
    &&& forall|i: int| 0 <= i < s.len() ==> has_button(b, (#[trigger] s[i]).id)
    &&& forall|k: int| 0 <= k < b.len() ==> has_window(s, (#[trigger] b[k]).win_id)
}

/// Exactly the button of the focused window is highlighted.
pub open spec fn highlight_matches(s: Seq<WindowView>, b: Seq<TaskButtonView>) -> bool {
    forall|k: int|
        0 <= k < b.len() ==> ((#[trigger] b[k]).active <==> focused_id(s) == Some(b[k].win_id))
}

/// Every button sits in the slot of its index.
pub open spec fn buttons_laid_out(bar: Rect, b: Seq<TaskButtonView>) -> bool {
    forall|k: int|
        0 <= k < b.len() ==> (#[trigger] b[k]).rect == (Rect {
            x: slot_x(k) as i32,
            y: (bar.y + 4) as i32,
            w: 100,
            h: 24,
        })
}

pub open spec fn well_formed(v: CompositorView) -> bool {
    &&& ids_unique(v.windows)
    &&& ids_below(v.windows, v.next_id)
    &&& focus_on_top(v.windows)
    &&& button_ids_unique(v.buttons)
    &&& buttons_match(v.windows, v.buttons)
    &&& highlight_matches(v.windows, v.buttons)
    &&& v.taskbar_rect.x == 0
    &&& buttons_laid_out(v.taskbar_rect, v.buttons)
    &&& v.input.wf()
}

/// With unique ids, the window holding an id is the one `find_window` finds.
pub proof fn lemma_find_unique(s: Seq<WindowView>, id: u32, i: int)
    requires
        ids_unique(s),
        0 <= i < s.len(),
        s[i].id == id,
    ensures
        find_window(s, id) == Some(i),
{
    assert(is_first_with_id(s, id, i));
    let k = choose|k: int| is_first_with_id(s, id, k);
    assert(is_first_with_id(s, id, k));
    if k != i {
        assert(s[k].id != s[i].id);
    }
}

/// `find_window` finds nothing exactly when no window has the id.
pub proof fn lemma_find_none(s: Seq<WindowView>, id: u32)
    requires
        ids_unique(s),
    ensures
        find_window(s, id) is None <==> !has_window(s, id),
{
    if has_window(s, id) {
        let k = choose|k: int| 0 <= k < s.len() && (#[trigger] s[k]).id == id;
        lemma_find_unique(s, id, k);
    } else {
        if exists|i: int| is_first_with_id(s, id, i) {
            let i = choose|i: int| is_first_with_id(s, id, i);
            assert(s[i].id == id);
        }
    }
}

/// Changing one window in a way that keeps its id and focus flag keeps the state well formed.
pub proof fn lemma_update_keeps_wf(
    v: CompositorView,
    id: u32,
    f: spec_fn(WindowView) -> WindowView,
)
    requires
        well_formed(v),
        forall|w: WindowView| (#[trigger] f(w)).id == w.id && f(w).focused == w.focused,
    ensures
        well_formed(v.with_windows(update_window(v.windows, id, f))),
{
    let s = v.windows;
    let t = update_window(s, id, f);
    assert(t.len() == s.len());
    assert forall|i: int| 0 <= i < s.len() implies (#[trigger] t[i]).id == s[i].id && t[i].focused
        == s[i].focused by {
        match find_window(s, id) {
            Some(k) => {
                if i == k {
                    assert(f(s[k]).id == s[k].id);
                }
            },
            None => {},
        }
    }
    assert(focused_id(t) == focused_id(s));
    assert forall|i: int, j: int|
        #![trigger t[i], t[j]]
        0 <= i < t.len() && 0 <= j < t.len() && i != j implies t[i].id != t[j].id by {
        assert(s[i].id != s[j].id);
    }
    assert forall|i: int| 0 <= i < t.len() implies has_button(v.buttons, (#[trigger] t[i]).id) by {
        assert(has_button(v.buttons, s[i].id));
    }
    assert forall|k: int| 0 <= k < v.buttons.len() implies has_window(
        t,
        (#[trigger] v.buttons[k]).win_id,
    ) by {
        assert(has_window(s, v.buttons[k].win_id));
        let m = choose|m: int| 0 <= m < s.len() && (#[trigger] s[m]).id == v.buttons[k].win_id;
        assert(t[m].id == s[m].id);
    }
}

/// Opening a window keeps the state well formed.
pub proof fn lemma_open_keeps_wf(v: CompositorView, title: Seq<char>, x: i32, y: i32, w: u32, h: u32)
    requires
        well_formed(v),
        v.open_defined(),
    ensures
        well_formed(v.opened(title, x, y, w, h)),
{
    let s = v.windows;
    let b = v.buttons;
    let id = v.next_id;
    let o = v.opened(title, x, y, w, h);
    let t = o.windows;
    let c = o.buttons;
    let u = unfocus_all(s);
    assert(t.len() == s.len() + 1);
    assert forall|i: int| 0 <= i < s.len() implies (#[trigger] t[i]).id == s[i].id && !t[i].focused by {
        assert(t[i] == u[i]);
    }
    assert(t[s.len() as int].id == id && t[s.len() as int].focused);
    assert(c.len() == b.len() + 1);
    assert forall|k: int| 0 <= k < b.len() implies (#[trigger] c[k]).win_id == b[k].win_id && c[k].rect
        == b[k].rect by {}
    assert(c[b.len() as int].win_id == id);
    assert forall|i: int, j: int|
        #![trigger t[i], t[j]]
        0 <= i < t.len() && 0 <= j < t.len() && i != j implies t[i].id != t[j].id by {
        if i < s.len() && j < s.len() {
            assert(s[i].id != s[j].id);
        } else if i < s.len() {
            assert(s[i].id < id);
        } else {
            assert(s[j].id < id);
        }
    }
    assert forall|i: int| 0 <= i < t.len() implies (#[trigger] t[i]).id < o.next_id by {
        if i < s.len() {
            assert(s[i].id < id);
        }
    }
    assert forall|i: int| 0 <= i < t.len() && (#[trigger] t[i]).focused implies i == t.len() - 1 by {
        if i < s.len() {
            assert(!t[i].focused);
        }
    }
    assert forall|k: int| 0 <= k < b.len() implies (#[trigger] b[k]).win_id != id by {
        assert(has_window(s, b[k].win_id));
        let m = choose|m: int| 0 <= m < s.len() && (#[trigger] s[m]).id == b[k].win_id;
        assert(s[m].id < id);
    }
    assert forall|i: int, j: int|
        #![trigger c[i], c[j]]
        0 <= i < c.len() && 0 <= j < c.len() && i != j implies c[i].win_id != c[j].win_id by {
        if i < b.len() && j < b.len() {
            assert(b[i].win_id != b[j].win_id);
        } else if i < b.len() {
            assert(b[i].win_id != id);
        } else {
            assert(b[j].win_id != id);
        }
    }
    assert forall|i: int| 0 <= i < t.len() implies has_button(c, (#[trigger] t[i]).id) by {
        if i < s.len() {
            assert(has_button(b, s[i].id));
            let k = choose|k: int| 0 <= k < b.len() && (#[trigger] b[k]).win_id == s[i].id;
            assert(c[k].win_id == s[i].id);
        } else {
            assert(c[b.len() as int].win_id == t[i].id);
        }
    }
    assert forall|k: int| 0 <= k < c.len() implies has_window(t, (#[trigger] c[k]).win_id) by {
        if k < b.len() {
            assert(has_window(s, b[k].win_id));
            let m = choose|m: int| 0 <= m < s.len() && (#[trigger] s[m]).id == b[k].win_id;
            assert(t[m].id == s[m].id);
        } else {
            assert(t[s.len() as int].id == c[k].win_id);
        }
    }
    assert(focused_id(t) == Some(id));
    assert forall|k: int| 0 <= k < c.len() implies (#[trigger] c[k]).rect == (Rect {
        x: slot_x(k) as i32,
        y: (o.taskbar_rect.y + 4) as i32,
        w: 100,
        h: 24,
    }) by {
        if k < b.len() {
            assert(b[k].rect == c[k].rect);
        }
    }
}

/// Closing a window keeps the state well formed.
pub proof fn lemma_close_keeps_wf(v: CompositorView, id: u32)
    requires
        well_formed(v),
    ensures
        well_formed(v.closed(id)),
{
    let s = v.windows;
    let b = v.buttons;
    let wpred = |w: WindowView| w.id != id;
    let bpred = |bt: TaskButtonView| bt.win_id != id;
    let kept = without_id(s, id);
    let kb = without_window(b, id);
    // Exactly the windows and buttons with this id drop out; with unique ids
    // that is at most one of each, at matching positions in the invariant.
    if has_window(s, id) {
        let i = choose|i: int| 0 <= i < s.len() && (#[trigger] s[i]).id == id;
        assert forall|j: int| 0 <= j < s.len() && j != i implies wpred(#[trigger] s[j]) by {
            assert(s[i].id != s[j].id);
        }
        lemma_filter_one_out(s, wpred, i);
        assert(has_button(b, id));
        let bi = choose|k: int| 0 <= k < b.len() && (#[trigger] b[k]).win_id == id;
        assert forall|j: int| 0 <= j < b.len() && j != bi implies bpred(#[trigger] b[j]) by {
            assert(b[bi].win_id != b[j].win_id);
        }
        lemma_filter_one_out(b, bpred, bi);
        lemma_close_removed_wf(v, id, i, bi);
    } else {
        assert forall|j: int| 0 <= j < s.len() implies wpred(#[trigger] s[j]) by {}
        lemma_filter_all(s, wpred);
        assert forall|j: int| 0 <= j < b.len() implies bpred(#[trigger] b[j]) by {
            if b[j].win_id == id {
                assert(has_window(s, b[j].win_id));
            }
        }
        lemma_filter_all(b, bpred);
        lemma_close_kept_wf(v, id);
    }
}

/// The buttons laid out in slots again keep their ids, flags and everything but `x`.
proof fn lemma_relaid_fields(b: Seq<TaskButtonView>)
    ensures
        relaid(b).len() == b.len(),
        forall|k: int|
            0 <= k < b.len() ==> (#[trigger] relaid(b)[k]).win_id == b[k].win_id && relaid(b)[k].rect.y
                == b[k].rect.y && relaid(b)[k].rect.w == b[k].rect.w && relaid(b)[k].rect.h
                == b[k].rect.h && relaid(b)[k].rect.x == slot_x(k) as i32,
{
}

/// Closing a window whose id is at window index `i` and button index `bi`.
proof fn lemma_close_removed_wf(v: CompositorView, id: u32, i: int, bi: int)
    requires
        well_formed(v),
        0 <= i < v.windows.len(),
        v.windows[i].id == id,
        0 <= bi < v.buttons.len(),
        v.buttons[bi].win_id == id,
        without_id(v.windows, id) == v.windows.remove(i),
        without_window(v.buttons, id) == v.buttons.remove(bi),
    ensures
        well_formed(v.closed(id)),
{
    let s = v.windows;
    let b = v.buttons;
    let kept = s.remove(i);
    let kb = b.remove(bi);
    let rb = relaid(kb);
    lemma_relaid_fields(kb);
    let n = s.len();
    // indices of kept / kb map back into s / b
    assert forall|a: int| 0 <= a < kept.len() implies (#[trigger] kept[a]) == (if a < i {
        s[a]
    } else {
        s[a + 1]
    }) by {}
    assert forall|a: int| 0 <= a < kb.len() implies (#[trigger] kb[a]) == (if a < bi {
        b[a]
    } else {
        b[a + 1]
    }) by {}
    let c = v.closed(id);
    let t = c.windows;
    let cb = c.buttons;
    assert(t.len() == kept.len());
    assert(cb.len() == kb.len());
    assert forall|a: int| 0 <= a < t.len() implies (#[trigger] t[a]).id == kept[a].id && (a < t.len()
        - 1 ==> !t[a].focused) by {
        if a < t.len() - 1 {
            let orig = if a < i {
                a
            } else {
                a + 1
            };
            assert(kept[a] == s[orig]);
            assert(orig != n - 1);
            if s[orig].focused {
                assert(orig == n - 1);
            }
        }
    }
    assert forall|x: int, y: int|
        #![trigger t[x], t[y]]
        0 <= x < t.len() && 0 <= y < t.len() && x != y implies t[x].id != t[y].id by {
        let ox = if x < i {
            x
        } else {
            x + 1
        };
        let oy = if y < i {
            y
        } else {
            y + 1
        };
        assert(kept[x] == s[ox]);
        assert(kept[y] == s[oy]);
        assert(s[ox].id != s[oy].id);
    }
    assert forall|x: int| 0 <= x < t.len() implies (#[trigger] t[x]).id < c.next_id by {
        let ox = if x < i {
            x
        } else {
            x + 1
        };
        assert(kept[x] == s[ox]);
    }
    assert forall|x: int, y: int|
        #![trigger cb[x], cb[y]]
        0 <= x < cb.len() && 0 <= y < cb.len() && x != y implies cb[x].win_id != cb[y].win_id by {
        let ox = if x < bi {
            x
        } else {
            x + 1
        };
        let oy = if y < bi {
            y
        } else {
            y + 1
        };
        assert(kb[x] == b[ox]);
        assert(kb[y] == b[oy]);
        assert(b[ox].win_id != b[oy].win_id);
    }
    assert forall|a: int| 0 <= a < cb.len() implies (#[trigger] cb[a]).win_id == kb[a].win_id && cb[a].rect
        == rb[a].rect by {}
    assert forall|x: int| 0 <= x < t.len() implies has_button(cb, (#[trigger] t[x]).id) by {
        let ox = if x < i {
            x
        } else {
            x + 1
        };
        assert(kept[x] == s[ox]);
        assert(s[ox].id != id) by {
            assert(s[ox].id != s[i].id);
        }
        assert(has_button(b, s[ox].id));
        let k = choose|k: int| 0 <= k < b.len() && (#[trigger] b[k]).win_id == s[ox].id;
        assert(k != bi);
        let nk = if k < bi {
            k
        } else {
            k - 1
        };
        assert(kb[nk] == b[k]);
        assert(cb[nk].win_id == s[ox].id);
    }
    assert forall|y: int| 0 <= y < cb.len() implies has_window(t, (#[trigger] cb[y]).win_id) by {
        let oy = if y < bi {
            y
        } else {
            y + 1
        };
        assert(kb[y] == b[oy]);
        assert(b[oy].win_id != id) by {
            assert(b[oy].win_id != b[bi].win_id);
        }
        assert(has_window(s, b[oy].win_id));
        let m = choose|m: int| 0 <= m < s.len() && (#[trigger] s[m]).id == b[oy].win_id;
        assert(m != i);
        let nm = if m < i {
            m
        } else {
            m - 1
        };
        assert(kept[nm] == s[m]);
        assert(t[nm].id == s[m].id);
    }
    if kept.len() > 0 {
        assert(focused_id(t) == Some(kept.last().id));
    } else {
        assert(cb.len() == 0);
    }
    assert forall|k: int| 0 <= k < cb.len() implies (#[trigger] cb[k]).rect == (Rect {
        x: slot_x(k) as i32,
        y: (c.taskbar_rect.y + 4) as i32,
        w: 100,
        h: 24,
    }) by {
        let ok = if k < bi {
            k
        } else {
            k + 1
        };
        assert(kb[k] == b[ok]);
        assert(b[ok].rect == Rect {
            x: slot_x(ok) as i32,
            y: (v.taskbar_rect.y + 4) as i32,
            w: 100,
            h: 24,
        });
        assert(rb[k].rect.x == slot_x(k) as i32);
    }
}

/// Closing an id that no window has.
proof fn lemma_close_kept_wf(v: CompositorView, id: u32)
    requires
        well_formed(v),
        without_id(v.windows, id) == v.windows,
        without_window(v.buttons, id) == v.buttons,
    ensures
        well_formed(v.closed(id)),
{
    let s = v.windows;
    let b = v.buttons;
    let rb = relaid(b);
    lemma_relaid_fields(b);
    let c = v.closed(id);
    let t = c.windows;
    let cb = c.buttons;
    let n = s.len();
    assert(t.len() == n);
    assert forall|a: int| 0 <= a < n implies (#[trigger] t[a]).id == s[a].id && (a < n - 1
        ==> !t[a].focused) by {
        if a < n - 1 && s[a].focused {
            assert(a == n - 1);
        }
    }
    assert forall|x: int, y: int|
        #![trigger t[x], t[y]]
        0 <= x < t.len() && 0 <= y < t.len() && x != y implies t[x].id != t[y].id by {
        assert(s[x].id != s[y].id);
    }
    assert forall|x: int| 0 <= x < t.len() implies (#[trigger] t[x]).id < c.next_id by {
        assert(s[x].id < v.next_id);
    }
    assert forall|a: int| 0 <= a < cb.len() implies (#[trigger] cb[a]).win_id == b[a].win_id && cb[a].rect
        == rb[a].rect by {}
    assert forall|x: int, y: int|
        #![trigger cb[x], cb[y]]
        0 <= x < cb.len() && 0 <= y < cb.len() && x != y implies cb[x].win_id != cb[y].win_id by {
        assert(b[x].win_id != b[y].win_id);
    }
    assert forall|x: int| 0 <= x < t.len() implies has_button(cb, (#[trigger] t[x]).id) by {
        assert(has_button(b, s[x].id));
        let k = choose|k: int| 0 <= k < b.len() && (#[trigger] b[k]).win_id == s[x].id;
        assert(cb[k].win_id == s[x].id);
    }
    assert forall|y: int| 0 <= y < cb.len() implies has_window(t, (#[trigger] cb[y]).win_id) by {
        assert(has_window(s, b[y].win_id));
        let m = choose|m: int| 0 <= m < s.len() && (#[trigger] s[m]).id == b[y].win_id;
        assert(t[m].id == s[m].id);
    }
    if n > 0 {
        assert(focused_id(t) == Some(s.last().id));
    }
    assert forall|k: int| 0 <= k < cb.len() implies (#[trigger] cb[k]).rect == (Rect {
        x: slot_x(k) as i32,
        y: (c.taskbar_rect.y + 4) as i32,
        w: 100,
        h: 24,
    }) by {
        assert(b[k].rect == Rect {
            x: slot_x(k) as i32,
            y: (v.taskbar_rect.y + 4) as i32,
            w: 100,
            h: 24,
        });
    }
}

/// Focusing a window keeps the state well formed.
pub proof fn lemma_focus_keeps_wf(v: CompositorView, id: u32)
    requires
        well_formed(v),
    ensures
        well_formed(v.focused(id)),
{
    let s = v.windows;
    let b = v.buttons;
    let fl = focus_only(s, id);
    let c = v.focused(id);
    let t = c.windows;
    let cb = c.buttons;
    assert(fl.len() == s.len());
    assert forall|a: int| 0 <= a < s.len() implies (#[trigger] fl[a]).id == s[a].id && fl[a].focused
        == (s[a].id == id) by {}
    assert(ids_unique(fl)) by {
        assert forall|x: int, y: int|
            #![trigger fl[x], fl[y]]
            0 <= x < fl.len() && 0 <= y < fl.len() && x != y implies fl[x].id != fl[y].id by {
            assert(s[x].id != s[y].id);
        }
    }
    assert forall|a: int| 0 <= a < cb.len() implies (#[trigger] cb[a]).win_id == b[a].win_id && cb[a].rect
        == b[a].rect && cb[a].active == (b[a].win_id == id) by {}
    if has_window(s, id) {
        let i = choose|i: int| 0 <= i < s.len() && (#[trigger] s[i]).id == id;
        lemma_find_unique(fl, id, i);
        let n = s.len();
        assert(t == fl.remove(i).push(fl[i]));
        // position map of the raise: index a of t comes from index src(a) of s
        assert forall|a: int| 0 <= a < n implies (#[trigger] t[a]) == fl[if a == n - 1 {
            i
        } else if a < i {
            a
        } else {
            a + 1
        }] by {}
        assert forall|x: int, y: int|
            #![trigger t[x], t[y]]
            0 <= x < t.len() && 0 <= y < t.len() && x != y implies t[x].id != t[y].id by {
            let ox = if x == n - 1 {
                i
            } else if x < i {
                x
            } else {
                x + 1
            };
            let oy = if y == n - 1 {
                i
            } else if y < i {
                y
            } else {
                y + 1
            };
            assert(t[x] == fl[ox]);
            assert(t[y] == fl[oy]);
            assert(fl[ox].id != fl[oy].id);
        }
        assert forall|x: int| 0 <= x < t.len() implies (#[trigger] t[x]).id < c.next_id by {
            let ox = if x == n - 1 {
                i
            } else if x < i {
                x
            } else {
                x + 1
            };
            assert(t[x] == fl[ox]);
            assert(s[ox].id < v.next_id);
        }
        assert forall|x: int| 0 <= x < t.len() && (#[trigger] t[x]).focused implies x == t.len() - 1 by {
            let ox = if x == n - 1 {
                i
            } else if x < i {
                x
            } else {
                x + 1
            };
            assert(t[x] == fl[ox]);
            if x != n - 1 {
                assert(s[ox].id != s[i].id);
            }
        }
        assert forall|x: int| 0 <= x < t.len() implies has_button(cb, (#[trigger] t[x]).id) by {
            let ox = if x == n - 1 {
                i
            } else if x < i {
                x
            } else {
                x + 1
            };
            assert(t[x] == fl[ox]);
            assert(has_button(b, s[ox].id));
            let k = choose|k: int| 0 <= k < b.len() && (#[trigger] b[k]).win_id == s[ox].id;
            assert(cb[k].win_id == s[ox].id);
        }
        assert forall|y: int| 0 <= y < cb.len() implies has_window(t, (#[trigger] cb[y]).win_id) by {
            assert(has_window(s, b[y].win_id));
            let m = choose|m: int| 0 <= m < s.len() && (#[trigger] s[m]).id == b[y].win_id;
            let nm = if m == i {
                n - 1
            } else if m < i {
                m
            } else {
                m - 1
            };
            assert(t[nm] == fl[m]);
        }
        assert(focused_id(t) == Some(id));
    } else {
        lemma_find_none(fl, id);
        assert(!has_window(fl, id)) by {
            if has_window(fl, id) {
                let k = choose|k: int| 0 <= k < fl.len() && (#[trigger] fl[k]).id == id;
                assert(s[k].id == id);
            }
        }
        assert(t == fl);
        assert forall|x: int, y: int|
            #![trigger t[x], t[y]]
            0 <= x < t.len() && 0 <= y < t.len() && x != y implies t[x].id != t[y].id by {
            assert(s[x].id != s[y].id);
        }
        assert forall|x: int| 0 <= x < t.len() implies (#[trigger] t[x]).id < c.next_id by {
            assert(s[x].id < v.next_id);
        }
        assert forall|x: int| 0 <= x < t.len() implies !(#[trigger] t[x]).focused by {}
        assert forall|x: int| 0 <= x < t.len() implies has_button(cb, (#[trigger] t[x]).id) by {
            assert(has_button(b, s[x].id));
            let k = choose|k: int| 0 <= k < b.len() && (#[trigger] b[k]).win_id == s[x].id;
            assert(cb[k].win_id == s[x].id);
        }
        assert forall|y: int| 0 <= y < cb.len() implies has_window(t, (#[trigger] cb[y]).win_id) by {
            assert(has_window(s, b[y].win_id));
            let m = choose|m: int| 0 <= m < s.len() && (#[trigger] s[m]).id == b[y].win_id;
            assert(t[m].id == s[m].id);
        }
        assert forall|y: int| 0 <= y < cb.len() implies !(#[trigger] cb[y]).active by {
            if b[y].win_id == id {
                assert(has_window(s, b[y].win_id));
            }
        }
        assert(focused_id(t) is None);
    }
    assert forall|x: int, y: int|
        #![trigger cb[x], cb[y]]
        0 <= x < cb.len() && 0 <= y < cb.len() && x != y implies cb[x].win_id != cb[y].win_id by {
        assert(b[x].win_id != b[y].win_id);
    }
}

/// Appending lines to a window keeps the state well formed.
pub proof fn lemma_lines_appended_keeps_wf(v: CompositorView, id: u32, lines: Seq<Seq<char>>)
    requires
        well_formed(v),
    ensures
        well_formed(v.lines_appended(id, lines)),
{
    if lines.len() > 0 {
        lemma_update_keeps_wf(v, id, |w: WindowView| w.with_content(w.content + lines));
    }
}

/// Appending one line to a window keeps the state well formed.
pub proof fn lemma_line_appended_keeps_wf(v: CompositorView, id: u32, line: Seq<char>)
    requires
        well_formed(v),
    ensures
        well_formed(v.line_appended(id, line)),
{
    lemma_update_keeps_wf(v, id, |w: WindowView| w.with_content(w.content.push(line)));
}

/// Launching an application from a desktop icon keeps the state well formed.
pub proof fn lemma_desktop_action_keeps_wf(v: CompositorView, a: DesktopAction)
    requires
        well_formed(v),
        v.open_defined(),
    ensures
        well_formed(v.desktop_action(a)),
{
    let id = v.next_id;
    match a {
        DesktopAction::OpenTerminal => {
            let o = v.opened("Terminal"@, 100, 80, 500, 320);
            lemma_open_keeps_wf(v, "Terminal"@, 100, 80, 500, 320);
            let lines = crate::text::spec_lines(crate::ipc::kernel_reply(v.ipc_connected, "version"@));
            lemma_lines_appended_keeps_wf(o, id, lines);
            lemma_line_appended_keeps_wf(o.lines_appended(id, lines), id, "luo_os:~$ "@);
        },
        DesktopAction::OpenFileManager => {
            let o = v.opened("File Manager"@, 200, 100, 480, 360);
            lemma_open_keeps_wf(v, "File Manager"@, 200, 100, 480, 360);
            lemma_line_appended_keeps_wf(o, id, "=== luo_os filesystem ==="@);
            lemma_lines_appended_keeps_wf(
                o.line_appended(id, "=== luo_os filesystem ==="@),
                id,
                crate::text::spec_lines(crate::ipc::kernel_reply(v.ipc_connected, "ls"@)),
            );
        },
        DesktopAction::OpenAIAgent => {
            lemma_open_keeps_wf(v, "AI Agent"@, 300, 120, 520, 380);
            lemma_lines_appended_keeps_wf(
                v.opened("AI Agent"@, 300, 120, 520, 380),
                id,
                crate::compositor::agent_window_lines(),
            );
        },
        DesktopAction::OpenAbout => {
            lemma_open_keeps_wf(v, "About luo_os"@, 250, 200, 400, 280);
            lemma_lines_appended_keeps_wf(
                v.opened("About luo_os"@, 250, 200, 400, 280),
                id,
                crate::compositor::about_window_lines(),
            );
        },
    }
}

/// A left click keeps the state well formed.
pub proof fn lemma_click_keeps_wf(v: CompositorView, cp: Point)
    requires
        well_formed(v),
        v.click_defined(cp),
    ensures
        well_formed(v.clicked(cp)),
{
    match top_hit(v.windows, cp) {
        Some((WindowHit::Close, id)) => lemma_close_keeps_wf(v, id),
        Some((WindowHit::Minimize, id)) => lemma_update_keeps_wf(
            v,
            id,
            |w: WindowView| w.with_state(WindowState::Minimized),
        ),
        Some((WindowHit::Drag, id)) => lemma_focus_keeps_wf(v, id),
        Some((WindowHit::Focus, id)) => lemma_focus_keeps_wf(v, id),
        None => match button_at(v.buttons, cp) {
            Some(win_id) => {
                let f = |w: WindowView|
                    if w.state == WindowState::Minimized {
                        w.with_state(WindowState::Normal)
                    } else {
                        w
                    };
                lemma_update_keeps_wf(v, win_id, f);
                lemma_focus_keeps_wf(v.with_windows(update_window(v.windows, win_id, f)), win_id);
            },
            None => match icon_at(v.icons, cp) {
                Some(a) => lemma_desktop_action_keeps_wf(v, a),
                None => {},
            },
        },
    }
}

/// Every input event keeps the state well formed.
pub proof fn lemma_input_keeps_wf(v: CompositorView, ev: InputEvent)
    requires
        well_formed(v),
        v.input_defined(ev),
    ensures
        well_formed(v.after_input(ev)),
{
    lemma_process_keeps_wf(v.input, ev);
    let u = v.with_input(v.input.spec_process(ev));
    assert(well_formed(u));
    match ev {
        InputEvent::MouseDown(cp, MouseButton::Left) => lemma_click_keeps_wf(u, cp),
        InputEvent::MouseMove(mp) => match u.drag_win_id {
            Some(id) => lemma_update_keeps_wf(
                u,
                id,
                |w: WindowView|
                    w.moved(
                        crate::compositor::non_negative(mp.x - u.drag_offset.0) as i32,
                        crate::compositor::non_negative(mp.y - u.drag_offset.1) as i32,
                    ),
            ),
            None => {},
        },
        _ => {},
    }
}

/// Every agent command keeps the state well formed.
pub proof fn lemma_agent_step_keeps_wf(v: CompositorView, cmd: AgentCommand)
    requires
        well_formed(v),
        v.agent_step_defined(cmd),
    ensures
        well_formed(v.agent_step(cmd)),
{
    match cmd {
        AgentCommand::OpenWindow { title, x, y, w, h } => lemma_open_keeps_wf(v, title@, x, y, w, h),
        AgentCommand::CloseWindow { id } => lemma_close_keeps_wf(v, id),
        AgentCommand::MoveWindow { id, x, y } => lemma_update_keeps_wf(
            v,
            id,
            |win: WindowView| win.moved(x, y),
        ),
        AgentCommand::ResizeWindow { id, w, h } => lemma_update_keeps_wf(
            v,
            id,
            |win: WindowView| win.resized(w, h),
        ),
        AgentCommand::WriteContent { id, lines } => lemma_update_keeps_wf(
            v,
            id,
            |win: WindowView| win.with_content(crate::text::strings_view(lines@)),
        ),
        AgentCommand::AppendLine { id, line } => lemma_line_appended_keeps_wf(v, id, line@),
        AgentCommand::ClearContent { id } => lemma_update_keeps_wf(
            v,
            id,
            |win: WindowView| win.with_content(Seq::empty()),
        ),
        AgentCommand::FocusWindow { id } => lemma_focus_keeps_wf(v, id),
        AgentCommand::ListWindows => {},
        AgentCommand::RunCommand { cmd } => match crate::compositor::last_focused(v.windows) {
            Some(fid) => lemma_lines_appended_keeps_wf(
                v,
                fid,
                crate::text::spec_lines(crate::ipc::kernel_reply(v.ipc_connected, cmd@)),
            ),
            None => {},
        },
    }
}

/// Any run of agent commands keeps the state well formed.
pub proof fn lemma_agent_run_keeps_wf(v: CompositorView, cmds: Seq<AgentCommand>)
    requires
        well_formed(v),
        v.agent_run_defined(cmds),
    ensures
        well_formed(v.agent_run(cmds)),
    decreases cmds.len(),
{
    if cmds.len() > 0 {
        lemma_agent_run_keeps_wf(v, cmds.drop_last());
        lemma_agent_step_keeps_wf(v.agent_run(cmds.drop_last()), cmds.last());
    }
}

/// In a well-formed state, focusing an open window puts it on top with the focus.
pub proof fn lemma_focus_raises(v: CompositorView, id: u32)
    requires
        well_formed(v),
        has_window(v.windows, id),
    ensures
        v.focused(id).windows.len() == v.windows.len(),
        v.focused(id).windows.last().id == id,
        v.focused(id).windows.last().focused,
        focused_id(v.focused(id).windows) == Some(id),
{
    let s = v.windows;
    let fl = focus_only(s, id);
    let i = choose|i: int| 0 <= i < s.len() && (#[trigger] s[i]).id == id;
    assert(fl[i].id == s[i].id);
    assert forall|x: int, y: int|
        #![trigger fl[x], fl[y]]
        0 <= x < fl.len() && 0 <= y < fl.len() && x != y implies fl[x].id != fl[y].id by {
        assert(fl[x].id == s[x].id && fl[y].id == s[y].id);
        assert(s[x].id != s[y].id);
    }
    lemma_find_unique(fl, id, i);
}

/// In a well-formed state, closing a window leaves no window and no button with its id.
pub proof fn lemma_close_removes(v: CompositorView, id: u32)
    requires
        well_formed(v),
    ensures
        !has_window(v.closed(id).windows, id),
        !has_button(v.closed(id).buttons, id),
{
    lemma_close_keeps_wf(v, id);
    let c = v.closed(id);
    let kept = without_id(v.windows, id);
    let kb = without_window(v.buttons, id);
    if has_window(c.windows, id) {
        let k = choose|k: int| 0 <= k < c.windows.len() && (#[trigger] c.windows[k]).id == id;
        assert(kept.len() == c.windows.len());
        assert(c.windows[k].id == kept[k].id);
        v.windows.lemma_filter_pred(|w: WindowView| w.id != id, k);
    }
    if has_button(c.buttons, id) {
        let k = choose|k: int| 0 <= k < c.buttons.len() && (#[trigger] c.buttons[k]).win_id == id;
        assert(c.buttons[k].win_id == relaid(kb)[k].win_id);
        assert(relaid(kb)[k].win_id == kb[k].win_id);
        v.buttons.lemma_filter_pred(|b: TaskButtonView| b.win_id != id, k);
    }
}

/// Drawing a frame, which only marks windows clean, keeps the state well formed.
pub proof fn lemma_render_keeps_wf(v: CompositorView)
    requires
        well_formed(v),
    ensures
        well_formed(v.with_windows(crate::compositor::all_drawn(v.windows))),
{
    let s = v.windows;
    let t = crate::compositor::all_drawn(s);
    assert forall|i: int| 0 <= i < s.len() implies (#[trigger] t[i]).id == s[i].id && t[i].focused
        == s[i].focused by {}
    assert(focused_id(t) == focused_id(s));
    assert forall|i: int, j: int|
        #![trigger t[i], t[j]]
        0 <= i < t.len() && 0 <= j < t.len() && i != j implies t[i].id != t[j].id by {
        assert(s[i].id != s[j].id);
    }
    assert forall|i: int| 0 <= i < t.len() implies has_button(v.buttons, (#[trigger] t[i]).id) by {
        assert(has_button(v.buttons, s[i].id));
    }
    assert forall|k: int| 0 <= k < v.buttons.len() implies has_window(
        t,
        (#[trigger] v.buttons[k]).win_id,
    ) by {
        assert(has_window(s, v.buttons[k].win_id));
        let m = choose|m: int| 0 <= m < s.len() && (#[trigger] s[m]).id == v.buttons[k].win_id;
        assert(t[m].id == s[m].id);
    }
}

/// The id counter never goes back, so an id once handed out is never handed out
/// again: every agent command leaves it where it was or, opening a window, raises it by one.
pub proof fn lemma_agent_step_ids_fresh(v: CompositorView, cmd: AgentCommand)
    requires
        v.agent_step_defined(cmd),
    ensures
        v.agent_step(cmd).next_id == v.next_id || v.agent_step(cmd).next_id == v.next_id + 1,
{
}

/// The same holds of every input event.
pub proof fn lemma_input_ids_fresh(v: CompositorView, ev: InputEvent)
    requires
        v.input_defined(ev),
    ensures
        v.after_input(ev).next_id == v.next_id || v.after_input(ev).next_id == v.next_id + 1,
{
}

} // verus!
