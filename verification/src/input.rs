//! Pointer and keyboard events, and the state machine that tracks the mouse.
use vstd::prelude::*;
use crate::types::Point;

verus! {

/// One event from the input devices.
#[derive(Debug, Clone, Copy, PartialEq, Eq, Structural)]
pub enum InputEvent {
    MouseMove(Point),
    MouseDown(Point, MouseButton),
    MouseUp(Point, MouseButton),
    KeyDown(Key),
    KeyUp(Key),
    NoEvent,
}

#[derive(Debug, Clone, Copy, PartialEq, Eq, Structural)]
pub enum MouseButton {
    Left,
    Right,
    Middle,
}

#[derive(Debug, Clone, Copy, PartialEq, Eq, Structural)]
pub enum Key {
    Char(char),
    Enter,
    Backspace,
    Escape,
    Tab,
    Up,
    Down,
    Left,
    Right,
    F1,
    F2,
    F3,
    F4,
    Unknown,
}

/// A press-and-move counts as a drag once the pointer is this far (in either axis)
/// from where the left button went down.
pub const DRAG_THRESHOLD: i32 = 4;

/// Input state machine: tracks the mouse position and the button state.
#[derive(Debug, Clone, Copy, PartialEq, Eq, Structural)]
pub struct InputState {
    pub mouse_pos: Point,
    pub left_down: bool,
    pub right_down: bool,
    pub drag_start: Option<Point>,
    pub drag_active: bool,
}

pub open spec fn abs(v: int) -> int {
    if v < 0 {
        -v
    } else {
        v
    }
}

/// The absolute value of an `i32` other than `i32::MIN` (whose absolute value overflows).
pub fn abs_i32(v: i32) -> (a: i32)
    requires
        v != i32::MIN,
    ensures
        a == abs(v as int),
{
    if v < 0 {
        -v
    } else {
        v
    }
}

impl InputState {
    /// The left button is down exactly when a drag start is recorded,
    /// and a drag is only active while the left button is down.
    pub open spec fn wf(self) -> bool {
        &&& (self.left_down <==> self.drag_start is Some)
        &&& (self.drag_active ==> self.left_down)
    }

    pub open spec fn spec_new() -> InputState {
        InputState {
            mouse_pos: Point { x: 512, y: 384 },
            left_down: false,
            right_down: false,
            drag_start: None,
            drag_active: false,
        }
    }

    /// The distance test of a move against the drag start needs
    /// `p - start` (both axes) and its absolute value to stay inside `i32`.
    pub open spec fn process_defined(self, ev: InputEvent) -> bool {
        match ev {
            InputEvent::MouseMove(p) => (self.left_down && self.drag_start is Some) ==> {
                let s = self.drag_start->0;
                &&& i32::MIN < p.x - s.x <= i32::MAX
                &&& i32::MIN < p.y - s.y <= i32::MAX
            },
            _ => true,
        }
    }

    /// The state after one event.
    pub open spec fn spec_process(self, ev: InputEvent) -> InputState {
        match ev {
            InputEvent::MouseMove(p) => {
                let starts_drag = self.left_down && self.drag_start is Some && {
                    let s = self.drag_start->0;
                    abs(p.x - s.x) > DRAG_THRESHOLD || abs(p.y - s.y) > DRAG_THRESHOLD
                };
                InputState {
                    mouse_pos: p,
                    drag_active: if starts_drag {
                        true
                    } else {
                        self.drag_active
                    },
                    ..self
                }
            },
            InputEvent::MouseDown(p, MouseButton::Left) => InputState {
                left_down: true,
                drag_start: Some(p),
                drag_active: false,
                ..self
            },
            InputEvent::MouseUp(_, MouseButton::Left) => InputState {
                left_down: false,
                drag_start: None,
                drag_active: false,
                ..self
            },
            InputEvent::MouseDown(_, MouseButton::Right) => InputState { right_down: true, ..self },
            InputEvent::MouseUp(_, MouseButton::Right) => InputState { right_down: false, ..self },
            _ => self,
        }
    }

    pub fn new() -> (s: Self)
        ensures
            s == InputState::spec_new(),
            s.wf(),
    {
        Self {
            mouse_pos: Point { x: 512, y: 384 },
            left_down: false,
            right_down: false,
            drag_start: None,
            drag_active: false,
        }
    }

    pub fn process(&mut self, ev: &InputEvent)
        requires
            old(self).process_defined(*ev),
        ensures
            *final(self) == old(self).spec_process(*ev),
    {
        match ev {
            InputEvent::MouseMove(p) => {
                self.mouse_pos = *p;
                if self.left_down {
                    if let Some(start) = self.drag_start {
                        let dx = abs_i32(p.x - start.x);
                        let dy = abs_i32(p.y - start.y);
                        if dx > DRAG_THRESHOLD || dy > DRAG_THRESHOLD {
                            self.drag_active = true;
                        }
                    }
                }
            },
            InputEvent::MouseDown(p, MouseButton::Left) => {
                self.left_down = true;
                self.drag_start = Some(*p);
                self.drag_active = false;
            },
            InputEvent::MouseUp(_, MouseButton::Left) => {
                self.left_down = false;
                self.drag_start = None;
                self.drag_active = false;
            },
            InputEvent::MouseDown(_, MouseButton::Right) => {
                self.right_down = true;
            },
            InputEvent::MouseUp(_, MouseButton::Right) => {
                self.right_down = false;
            },
            _ => {},
        }
    }

    pub fn delta(&self, prev: Point) -> (d: (i32, i32))
        requires
            i32::MIN <= self.mouse_pos.x - prev.x <= i32::MAX,
            i32::MIN <= self.mouse_pos.y - prev.y <= i32::MAX,
        ensures
            d.0 == self.mouse_pos.x - prev.x,
            d.1 == self.mouse_pos.y - prev.y,
    {
        (self.mouse_pos.x - prev.x, self.mouse_pos.y - prev.y)
    }
}

/// Every event keeps the input state well formed.
pub proof fn lemma_process_keeps_wf(s: InputState, ev: InputEvent)
    requires
        s.wf(),
    ensures
        s.spec_process(ev).wf(),
{
}

/// Releasing the left button always ends any drag, whatever came before.
pub proof fn lemma_left_release_ends_drag(s: InputState, p: Point)
    ensures
        !s.spec_process(InputEvent::MouseUp(p, MouseButton::Left)).drag_active,
        !s.spec_process(InputEvent::MouseUp(p, MouseButton::Left)).left_down,
        s.spec_process(InputEvent::MouseUp(p, MouseButton::Left)).drag_start is None,
{
}

/// A drag is never active right after the left button goes down; it only becomes
/// active on a later move that leaves the threshold square around the press point.
pub proof fn lemma_drag_needs_distance(s: InputState, p: Point, q: Point)
    requires
        s.wf(),
        s.spec_process(InputEvent::MouseDown(p, MouseButton::Left)).process_defined(
            InputEvent::MouseMove(q),
        ),
    ensures
        !s.spec_process(InputEvent::MouseDown(p, MouseButton::Left)).drag_active,
        s.spec_process(InputEvent::MouseDown(p, MouseButton::Left)).spec_process(
            InputEvent::MouseMove(q),
        ).drag_active <==> (abs(q.x - p.x) > DRAG_THRESHOLD || abs(q.y - p.y) > DRAG_THRESHOLD),
{
}

} // verus!
