//! The taskbar along the bottom edge: one button per open window, and a clock.
use vstd::prelude::*;
use crate::display::{SCREEN_H, SCREEN_W};
use crate::seqs::lemma_filter_member;
use crate::text::{prefix, take_chars};
use crate::types::{Point, Rect};

verus! {

/// Height of the taskbar in pixels.
pub const TASKBAR_H: u32 = 32;

/// Horizontal distance between the left edges of neighbouring buttons.
pub const BUTTON_STRIDE: i32 = 104;

/// Labels keep at most this many characters of the window title.
pub const LABEL_CHARS: usize = 14;

#[derive(Debug)]
pub struct TaskButton {
    pub rect: Rect,
    pub label: String,
    pub win_id: u32,
    pub active: bool,
}

pub struct TaskButtonView {
    pub rect: Rect,
    pub label: Seq<char>,
    pub win_id: u32,
    pub active: bool,
}

impl View for TaskButton {
    type V = TaskButtonView;

    open spec fn view(&self) -> TaskButtonView {
        TaskButtonView {
            rect: self.rect,
            label: self.label@,
            win_id: self.win_id,
            active: self.active,
        }
    }
}

pub open spec fn buttons_view(v: Seq<TaskButton>) -> Seq<TaskButtonView> {
    v.map_values(|b: TaskButton| b@)
}

/// The left edge, relative to the screen, that `remove_button` gives button `i`.
pub open spec fn slot_x(i: int) -> int {
    4 + i * BUTTON_STRIDE
}

/// The buttons with each one moved to the slot of its index.
pub open spec fn relaid(s: Seq<TaskButtonView>) -> Seq<TaskButtonView> {
    Seq::new(
        s.len(),
        |i: int| TaskButtonView { rect: Rect { x: slot_x(i) as i32, ..s[i].rect }, ..s[i] },
    )
}

/// The buttons that do not belong to window `win_id`.
pub open spec fn without_window(s: Seq<TaskButtonView>, win_id: u32) -> Seq<TaskButtonView> {
    s.filter(|b: TaskButtonView| b.win_id != win_id)
}

/// The button for window `win_id` that goes into slot `n` of a taskbar at `bar`:
/// inactive, labelled with the first `LABEL_CHARS` characters of the title.
pub open spec fn new_button(bar: Rect, n: int, win_id: u32, label: Seq<char>) -> TaskButtonView {
    TaskButtonView {
        rect: Rect { x: (bar.x + slot_x(n)) as i32, y: (bar.y + 4) as i32, w: 100, h: 24 },
        label: prefix(label, LABEL_CHARS as nat),
        win_id,
        active: false,
    }
}

/// The buttons with exactly those of window `win_id` highlighted.
pub open spec fn activate(s: Seq<TaskButtonView>, win_id: u32) -> Seq<TaskButtonView> {
    s.map_values(|b: TaskButtonView| TaskButtonView { active: b.win_id == win_id, ..b })
}

/// Every slot index below `n` has a left edge that fits in an `i32`.
pub open spec fn slots_fit(n: int) -> bool {
    n == 0 || slot_x(n - 1) <= i32::MAX
}

#[derive(Debug)]
pub struct Taskbar {
    pub rect: Rect,
    pub buttons: Vec<TaskButton>,
    pub clock_str: String,
}

/// `i` is the first button (in order) whose rectangle holds `p`.
pub open spec fn is_first_button_at(s: Seq<TaskButtonView>, p: Point, i: int) -> bool {
    &&& 0 <= i < s.len()
    &&& s[i].rect.has_point(p)
    &&& forall|j: int| 0 <= j < i ==> !(#[trigger] s[j].rect.has_point(p))
}

/// The window id of the first button (in order) whose rectangle holds `p`.
pub open spec fn button_at(s: Seq<TaskButtonView>, p: Point) -> Option<u32> {
    if exists|i: int| is_first_button_at(s, p, i) {
        Some(s[choose|i: int| is_first_button_at(s, p, i)].win_id)
    } else {
        None
    }
}

/// Each button that the search reaches can be tested without leaving `i32`.
pub open spec fn button_search_defined(s: Seq<TaskButtonView>, p: Point) -> bool {
    forall|i: int|
        0 <= i < s.len() && (forall|j: int| 0 <= j < i ==> !(#[trigger] s[j].rect.has_point(p)))
            ==> #[trigger] s[i].rect.contains_defined(p)
}

impl Taskbar {
    pub open spec fn buttons_view(self) -> Seq<TaskButtonView> {
        buttons_view(self.buttons@)
    }

    pub open spec fn spec_rect() -> Rect {
        Rect {
            x: 0,
            y: (SCREEN_H as i32 - TASKBAR_H as i32) as i32,
            w: SCREEN_W,
            h: TASKBAR_H,
        }
    }

    /// The button that `add_button` appends to these buttons.
    pub open spec fn new_button(self, win_id: u32, label: Seq<char>) -> TaskButtonView {
        new_button(self.rect, self.buttons@.len() as int, win_id, label)
    }

    /// `add_button` can place its button without leaving `i32`.
    pub open spec fn add_defined(self) -> bool {
        &&& slot_x(self.buttons@.len() as int) <= i32::MAX
        &&& i32::MIN <= self.rect.x + slot_x(self.buttons@.len() as int) <= i32::MAX
        &&& self.rect.y + 4 <= i32::MAX
    }

    /// Every button sits in its slot: `BUTTON_STRIDE` apart, 4 pixels in from
    /// the taskbar's left edge and top.
    pub open spec fn laid_out(self) -> bool {
        forall|i: int|
            0 <= i < self.buttons@.len() ==> (#[trigger] self.buttons@[i]).rect == (Rect {
                x: (self.rect.x + slot_x(i)) as i32,
                y: (self.rect.y + 4) as i32,
                w: 100,
                h: 24,
            })
    }

    pub fn new() -> (t: Self)
        ensures
            t.rect == Taskbar::spec_rect(),
            t.buttons@.len() == 0,
            t.clock_str@ == seq!['0', '0', ':', '0', '0'],
    {
        let rect = Rect::new(0, SCREEN_H as i32 - TASKBAR_H as i32, SCREEN_W, TASKBAR_H);
        let clock = "00:00";
        proof {
            reveal_strlit("00:00");
        }
        Self { rect, buttons: Vec::new(), clock_str: clock.to_owned() }
    }

    pub fn add_button(&mut self, win_id: u32, label: &str)
        requires
            old(self).add_defined(),
        ensures
            final(self).buttons_view() == old(self).buttons_view().push(
                old(self).new_button(win_id, label@),
            ),
            final(self).rect == old(self).rect,
            final(self).clock_str == old(self).clock_str,
    {
        let n = self.buttons.len();
        let x = 4 + n as i32 * BUTTON_STRIDE;
        let ghost before = self.buttons@;
        self.buttons.push(
            TaskButton {
                rect: Rect::new(self.rect.x + x, self.rect.y + 4, 100, 24),
                label: take_chars(label, LABEL_CHARS),
                win_id,
                active: false,
            },
        );
        proof {
            assert(buttons_view(self.buttons@) =~= buttons_view(before).push(
                old(self).new_button(win_id, label@),
            ));
        }
    }

    pub fn remove_button(&mut self, win_id: u32)
        requires
            slots_fit(without_window(old(self).buttons_view(), win_id).len() as int),
        ensures
            final(self).buttons_view() == relaid(without_window(old(self).buttons_view(), win_id)),
            final(self).rect == old(self).rect,
            final(self).clock_str == old(self).clock_str,
    {
        let ghost orig = self.buttons_view();
        let ghost keep = |b: TaskButtonView| b.win_id != win_id;
        let mut i: usize = 0;
        let ghost mut k: int = 0;
        while i < self.buttons.len()
            invariant
                0 <= k <= orig.len(),
                i as int == orig.take(k).filter(keep).len(),
                self.buttons_view() =~= orig.take(k).filter(keep) + orig.skip(k),
                keep == (|b: TaskButtonView| b.win_id != win_id),
                self.rect == old(self).rect,
                self.clock_str == old(self).clock_str,
            decreases self.buttons.len() - i,
        {
            proof {
                assert(orig.take(k + 1) =~= orig.take(k).push(orig[k]));
                orig.take(k).lemma_filter_push(orig[k], keep);
                assert(self.buttons_view()[i as int] == orig[k]);
            }
            if self.buttons[i].win_id == win_id {
                let ghost before = self.buttons@;
                self.buttons.remove(i);
                proof {
                    assert(buttons_view(self.buttons@) =~= buttons_view(before).remove(i as int));
                    assert(orig.skip(k + 1) =~= orig.skip(k).drop_first());
                }
            } else {
                i = i + 1;
                proof {
                    assert(orig.skip(k + 1) =~= orig.skip(k).drop_first());
                }
            }
            proof {
                k = k + 1;
            }
        }
        proof {
            assert(orig.take(k) =~= orig);
            assert(orig.skip(k) =~= Seq::<TaskButtonView>::empty());
        }
        let ghost kept = self.buttons_view();
        assert(kept =~= without_window(orig, win_id));
        let mut j: usize = 0;
        while j < self.buttons.len()
            invariant
                kept.len() == self.buttons@.len(),
                slots_fit(kept.len() as int),
                j <= kept.len(),
                forall|m: int| 0 <= m < j ==> #[trigger] self.buttons_view()[m] == relaid(kept)[m],
                forall|m: int| j <= m < kept.len() ==> #[trigger] self.buttons_view()[m] == kept[m],
                self.rect == old(self).rect,
                self.clock_str == old(self).clock_str,
            decreases self.buttons.len() - j,
        {
            let x = 4 + j as i32 * BUTTON_STRIDE;
            let ghost before = self.buttons@;
            let ghost old_view = self.buttons_view();
            assert(old_view[j as int] == kept[j as int]);
            self.buttons[j].rect.x = x;
            proof {
                assert(self.buttons@ =~= before.update(j as int, self.buttons@[j as int]));
                assert(self.buttons_view() =~= old_view.update(j as int, relaid(kept)[j as int]));
            }
            j = j + 1;
        }
        assert(self.buttons_view() =~= relaid(kept));
    }

    pub fn set_active(&mut self, win_id: u32)
        ensures
            final(self).buttons_view() == activate(old(self).buttons_view(), win_id),
            final(self).rect == old(self).rect,
            final(self).clock_str == old(self).clock_str,
    {
        let mut j: usize = 0;
        while j < self.buttons.len()
            invariant
                self.buttons@.len() == old(self).buttons@.len(),
                j <= self.buttons@.len(),
                self.rect == old(self).rect,
                self.clock_str == old(self).clock_str,
                forall|m: int|
                    0 <= m < j ==> #[trigger] self.buttons_view()[m] == (TaskButtonView {
                        active: old(self).buttons_view()[m].win_id == win_id,
                        ..old(self).buttons_view()[m]
                    }),
                forall|m: int|
                    j <= m < self.buttons@.len() ==> #[trigger] self.buttons_view()[m]
                        == old(self).buttons_view()[m],
            decreases self.buttons.len() - j,
        {
            let hit = self.buttons[j].win_id == win_id;
            let ghost before = self.buttons@;
            let ghost old_view = self.buttons_view();
            assert(old_view[j as int] == old(self).buttons_view()[j as int]);
            self.buttons[j].active = hit;
            proof {
                assert(self.buttons@ =~= before.update(j as int, self.buttons@[j as int]));
                assert(self.buttons_view() =~= old_view.update(j as int, self.buttons@[j as int]@));
            }
            j = j + 1;
        }
        assert(self.buttons_view() =~= activate(old(self).buttons_view(), win_id));
    }

    pub fn set_clock(&mut self, time_str: &str)
        ensures
            final(self).clock_str@ == time_str@,
            final(self).rect == old(self).rect,
            final(self).buttons_view() == old(self).buttons_view(),
    {
        self.clock_str = time_str.to_owned();
    }

    /// Whether `hit_button(p)` can run, and if so whether it would find a button.
    pub fn search_ok(&self, p: Point) -> (r: (bool, bool))
        ensures
            r.0 == button_search_defined(self.buttons_view(), p),
            r.0 ==> (r.1 == button_at(self.buttons_view(), p) is Some),
    {
        let ghost s = self.buttons_view();
        let mut i: usize = 0;
        while i < self.buttons.len()
            invariant
                i <= self.buttons@.len(),
                s == self.buttons_view(),
                forall|j: int| 0 <= j < i ==> !(#[trigger] s[j].rect.has_point(p)),
                forall|j: int| 0 <= j < i ==> (#[trigger] s[j].rect).contains_defined(p),
            decreases self.buttons.len() - i,
        {
            assert(s[i as int].rect == self.buttons@[i as int].rect);
            if !self.buttons[i].rect.contains_ok(p) {
                return (false, false);
            }
            if self.buttons[i].rect.contains(p) {
                proof {
                    assert(is_first_button_at(s, p, i as int));
                    assert forall|k: int|
                        0 <= k < s.len() && (forall|j: int|
                            0 <= j < k ==> !(#[trigger] s[j].rect.has_point(p))) implies #[trigger] s[k].rect.contains_defined(
                        p,
                    ) by {
                        if k > i {
                            assert(s[i as int].rect.has_point(p));
                        }
                    }
                }
                return (true, true);
            }
            i = i + 1;
        }
        proof {
            if exists|k: int| is_first_button_at(s, p, k) {
                let k = choose|k: int| is_first_button_at(s, p, k);
                assert(!s[k].rect.has_point(p));
            }
        }
        (true, false)
    }

    pub fn hit_button(&self, p: Point) -> (r: Option<u32>)
        requires
            button_search_defined(self.buttons_view(), p),
        ensures
            r == button_at(self.buttons_view(), p),
    {
        let ghost s = self.buttons_view();
        let mut i: usize = 0;
        while i < self.buttons.len()
            invariant
                i <= self.buttons@.len(),
                button_search_defined(self.buttons_view(), p),
                s == self.buttons_view(),
                forall|j: int| 0 <= j < i ==> !(#[trigger] self.buttons_view()[j].rect.has_point(p)),
            decreases self.buttons.len() - i,
        {
            assert(self.buttons_view()[i as int].rect == self.buttons[i as int].rect);
            if self.buttons[i].rect.contains(p) {
                proof {
                    assert(is_first_button_at(s, p, i as int));
                    let k = choose|k: int| is_first_button_at(s, p, k);
                    if k < i {
                        assert(!s[k].rect.has_point(p));
                    }
                    if i < k {
                        assert(s[i as int].rect.has_point(p));
                    }
                    assert(s[i as int].win_id == self.buttons@[i as int].win_id);
                }
                return Some(self.buttons[i].win_id);
            }
            i = i + 1;
        }
        proof {
            if exists|k: int| is_first_button_at(s, p, k) {
                let k = choose|k: int| is_first_button_at(s, p, k);
                assert(!s[k].rect.has_point(p));
            }
        }
        None
    }
}

/// Adding a button keeps every button in its slot.
pub proof fn lemma_add_keeps_layout(t: Taskbar, t2: Taskbar, win_id: u32, label: Seq<char>)
    requires
        t.laid_out(),
        t.add_defined(),
        t2.rect == t.rect,
        t2.buttons_view() == t.buttons_view().push(t.new_button(win_id, label)),
    ensures
        t2.laid_out(),
{
    assert(t.buttons_view().len() == t.buttons@.len());
    assert(t2.buttons_view().len() == t2.buttons@.len());
    assert forall|i: int| 0 <= i < t2.buttons@.len() implies (#[trigger] t2.buttons@[i]).rect == (
    Rect {
        x: (t2.rect.x + slot_x(i)) as i32,
        y: (t2.rect.y + 4) as i32,
        w: 100,
        h: 24,
    }) by {
        assert(t2.buttons_view()[i].rect == t2.buttons@[i].rect);
        if i < t.buttons@.len() {
            assert(t2.buttons_view()[i] == t.buttons_view()[i]);
            assert(t.buttons_view()[i].rect == t.buttons@[i].rect);
            assert(t.buttons@[i].rect == Rect {
                x: (t.rect.x + slot_x(i)) as i32,
                y: (t.rect.y + 4) as i32,
                w: 100,
                h: 24,
            });
        } else {
            assert(t2.buttons_view()[i] == t.new_button(win_id, label));
        }
    }
}

/// On a taskbar at the left screen edge, removing a window's button leaves the
/// other buttons in their order, each in the slot of its new index.
pub proof fn lemma_remove_keeps_layout(t: Taskbar, t2: Taskbar, win_id: u32)
    requires
        t.rect.x == 0,
        t.laid_out(),
        t2.rect == t.rect,
        t2.buttons_view() == relaid(without_window(t.buttons_view(), win_id)),
    ensures
        t2.laid_out(),
{
    let kept = without_window(t.buttons_view(), win_id);
    assert(t2.buttons_view().len() == t2.buttons@.len());
    assert forall|i: int| 0 <= i < kept.len() implies #[trigger] kept[i].rect.y == (t.rect.y + 4) as i32
        && kept[i].rect.w == 100 && kept[i].rect.h == 24 by {
        t.buttons_view().lemma_filter_pred(|b: TaskButtonView| b.win_id != win_id, i);
        reveal(Seq::filter);
        lemma_filter_member(t.buttons_view(), |b: TaskButtonView| b.win_id != win_id, i);
        let k = choose|k: int| 0 <= k < t.buttons_view().len() && t.buttons_view()[k] == kept[i];
        assert(t.buttons_view()[k].rect == t.buttons@[k].rect);
    }
    assert forall|i: int| 0 <= i < t2.buttons@.len() implies (#[trigger] t2.buttons@[i]).rect == (
    Rect {
        x: (t2.rect.x + slot_x(i)) as i32,
        y: (t2.rect.y + 4) as i32,
        w: 100,
        h: 24,
    }) by {
        assert(t2.buttons_view()[i].rect == t2.buttons@[i].rect);
    }
}

} // verus!
