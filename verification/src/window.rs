//! A single top-level window: its geometry, state, text content and hit regions.
use vstd::prelude::*;
use crate::text::strings_view;
use crate::types::{Point, Rect};

verus! {

#[derive(Debug, Clone, Copy, PartialEq, Eq, Structural)]
pub enum WindowState {
    Normal,
    Minimized,
    Maximized,
    Closing,
}

/// The smallest width `resize` accepts.
pub const MIN_WIDTH: u32 = 120;

/// The smallest height `resize` accepts.
pub const MIN_HEIGHT: u32 = 80;

#[derive(Debug)]
pub struct Window {
    pub id: u32,
    pub title: String,
    pub rect: Rect,
    pub state: WindowState,
    pub focused: bool,
    /// Text lines displayed in the window body.
    pub content: Vec<String>,
    /// Set whenever the window changes; cleared once it has been drawn.
    pub dirty: bool,
}

/// A window as a value: its strings taken as character sequences.
pub struct WindowView {
    pub id: u32,
    pub title: Seq<char>,
    pub rect: Rect,
    pub state: WindowState,
    pub focused: bool,
    pub content: Seq<Seq<char>>,
    pub dirty: bool,
}

impl View for Window {
    type V = WindowView;

    open spec fn view(&self) -> WindowView {
        WindowView {
            id: self.id,
            title: self.title@,
            rect: self.rect,
            state: self.state,
            focused: self.focused,
            content: strings_view(self.content@),
            dirty: self.dirty,
        }
    }
}

/// `a` if it is at least `b`, else `b`.
pub open spec fn at_least(a: u32, b: u32) -> u32 {
    if a >= b {
        a
    } else {
        b
    }
}

impl WindowView {
    /// A freshly opened window: normal, unfocused, empty, and in need of drawing.
    pub open spec fn fresh(id: u32, title: Seq<char>, rect: Rect) -> WindowView {
        WindowView {
            id,
            title,
            rect,
            state: WindowState::Normal,
            focused: false,
            content: Seq::empty(),
            dirty: true,
        }
    }

    pub open spec fn with_content(self, content: Seq<Seq<char>>) -> WindowView {
        WindowView { content, dirty: true, ..self }
    }

    pub open spec fn moved(self, x: i32, y: i32) -> WindowView {
        WindowView { rect: Rect { x, y, ..self.rect }, dirty: true, ..self }
    }

    pub open spec fn resized(self, w: u32, h: u32) -> WindowView {
        WindowView {
            rect: Rect { w: at_least(w, MIN_WIDTH), h: at_least(h, MIN_HEIGHT), ..self.rect },
            dirty: true,
            ..self
        }
    }

    pub open spec fn with_focus(self, focused: bool) -> WindowView {
        WindowView { focused, ..self }
    }

    pub open spec fn with_state(self, state: WindowState) -> WindowView {
        WindowView { state, ..self }
    }
}

/// The point hits the close button of a window with this frame.
pub open spec fn hits_close(r: Rect, p: Point) -> bool {
    r.spec_close_btn().has_point(p)
}

/// The point hits the minimise button of a window with this frame.
pub open spec fn hits_minimize(r: Rect, p: Point) -> bool {
    r.spec_min_btn().has_point(p)
}

/// The point is on the title bar but on neither button.
pub open spec fn hits_titlebar(r: Rect, p: Point) -> bool {
    r.spec_titlebar().has_point(p) && !hits_close(r, p) && !hits_minimize(r, p)
}

/// The point is inside the window but below its title bar.
pub open spec fn hits_body(r: Rect, p: Point) -> bool {
    r.has_point(p) && !r.spec_titlebar().has_point(p)
}

/// The close-button test of `p` stays inside `i32`.
pub open spec fn close_test_defined(r: Rect, p: Point) -> bool {
    r.close_btn_defined() && r.spec_close_btn().contains_defined(p)
}

/// The minimise-button test of `p` stays inside `i32`.
pub open spec fn min_test_defined(r: Rect, p: Point) -> bool {
    r.min_btn_defined() && r.spec_min_btn().contains_defined(p)
}

/// The title-bar test of `p` stays inside `i32`; each button test is only
/// made when the tests before it let the evaluation get that far.
pub open spec fn titlebar_test_defined(r: Rect, p: Point) -> bool {
    &&& r.spec_titlebar().contains_defined(p)
    &&& (r.spec_titlebar().has_point(p) ==> close_test_defined(r, p))
    &&& (r.spec_titlebar().has_point(p) && !hits_close(r, p) ==> min_test_defined(r, p))
}

/// The body test of `p` stays inside `i32`.
pub open spec fn body_test_defined(r: Rect, p: Point) -> bool {
    &&& r.contains_defined(p)
    &&& (r.has_point(p) ==> r.spec_titlebar().contains_defined(p))
}

/// Whether the close-button test of `p` can run.
pub fn close_test_ok(r: Rect, p: Point) -> (b: bool)
    ensures
        b == close_test_defined(r, p),
{
    r.close_btn_ok() && r.close_btn().contains_ok(p)
}

/// Whether the minimise-button test of `p` can run.
pub fn min_test_ok(r: Rect, p: Point) -> (b: bool)
    ensures
        b == min_test_defined(r, p),
{
    r.min_btn_ok() && r.min_btn().contains_ok(p)
}

/// Whether the title-bar test of `p` can run.
pub fn titlebar_test_ok(r: Rect, p: Point) -> (b: bool)
    ensures
        b == titlebar_test_defined(r, p),
{
    let tb = r.titlebar();
    if !tb.contains_ok(p) {
        return false;
    }
    if !tb.contains(p) {
        return true;
    }
    if !close_test_ok(r, p) {
        return false;
    }
    if r.close_btn().contains(p) {
        return true;
    }
    min_test_ok(r, p)
}

/// Whether the body test of `p` can run.
pub fn body_test_ok(r: Rect, p: Point) -> (b: bool)
    ensures
        b == body_test_defined(r, p),
{
    if !r.contains_ok(p) {
        false
    } else if r.contains(p) {
        r.titlebar().contains_ok(p)
    } else {
        true
    }
}

impl Window {
    pub fn new(id: u32, title: &str, x: i32, y: i32, w: u32, h: u32) -> (win: Self)
        ensures
            win@ == WindowView::fresh(id, title@, Rect { x, y, w, h }),
    {
        let win = Self {
            id,
            title: title.to_owned(),
            rect: Rect::new(x, y, w, h),
            state: WindowState::Normal,
            focused: false,
            content: Vec::new(),
            dirty: true,
        };
        assert(strings_view(win.content@) =~= Seq::<Seq<char>>::empty());
        win
    }

    pub fn add_line(&mut self, line: &str)
        ensures
            final(self)@ == old(self)@.with_content(old(self)@.content.push(line@)),
    {
        let ghost before = self.content@;
        self.content.push(line.to_owned());
        proof {
            assert(strings_view(self.content@) =~= strings_view(before).push(line@));
        }
        self.dirty = true;
    }

    pub fn clear_content(&mut self)
        ensures
            final(self)@ == old(self)@.with_content(Seq::empty()),
    {
        self.content.clear();
        proof {
            assert(strings_view(self.content@) =~= Seq::<Seq<char>>::empty());
        }
        self.dirty = true;
    }

    pub fn set_content(&mut self, lines: Vec<String>)
        ensures
            final(self)@ == old(self)@.with_content(strings_view(lines@)),
    {
        self.content = lines;
        self.dirty = true;
    }

    pub fn move_to(&mut self, x: i32, y: i32)
        ensures
            final(self)@ == old(self)@.moved(x, y),
    {
        self.rect.x = x;
        self.rect.y = y;
        self.dirty = true;
    }

    pub fn resize(&mut self, w: u32, h: u32)
        ensures
            final(self)@ == old(self)@.resized(w, h),
    {
        self.rect.w = if w >= MIN_WIDTH {
            w
        } else {
            MIN_WIDTH
        };
        self.rect.h = if h >= MIN_HEIGHT {
            h
        } else {
            MIN_HEIGHT
        };
        self.dirty = true;
    }

    pub fn hit_close(&self, p: Point) -> (b: bool)
        requires
            close_test_defined(self.rect, p),
        ensures
            b == hits_close(self.rect, p),
    {
        self.rect.close_btn().contains(p)
    }

    pub fn hit_minimize(&self, p: Point) -> (b: bool)
        requires
            min_test_defined(self.rect, p),
        ensures
            b == hits_minimize(self.rect, p),
    {
        self.rect.min_btn().contains(p)
    }

    pub fn hit_titlebar(&self, p: Point) -> (b: bool)
        requires
            titlebar_test_defined(self.rect, p),
        ensures
            b == hits_titlebar(self.rect, p),
    {
        self.rect.titlebar().contains(p) && !self.hit_close(p) && !self.hit_minimize(p)
    }

    pub fn hit_body(&self, p: Point) -> (b: bool)
        requires
            body_test_defined(self.rect, p),
        ensures
            b == hits_body(self.rect, p),
    {
        self.rect.contains(p) && !self.rect.titlebar().contains(p)
    }
}

} // verus!
