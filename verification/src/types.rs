//! Core geometry and colour types shared by every part of the window manager.
use vstd::prelude::*;

verus! {

/// A point on the screen, in pixels.
#[derive(Debug, Clone, Copy, PartialEq, Eq, Structural)]
pub struct Point {
    pub x: i32,
    pub y: i32,
}

/// A width and a height, in pixels.
#[derive(Debug, Clone, Copy, PartialEq, Eq, Structural)]
pub struct Size {
    pub w: u32,
    pub h: u32,
}

/// An axis-aligned rectangle: top-left corner plus width and height.
#[derive(Debug, Clone, Copy, PartialEq, Eq, Structural)]
pub struct Rect {
    pub x: i32,
    pub y: i32,
    pub w: u32,
    pub h: u32,
}

impl Rect {
    /// The width as the signed value that screen arithmetic uses (`w as i32`).
    pub open spec fn wi(self) -> int {
        (self.w as i32) as int
    }

    /// The height as the signed value that screen arithmetic uses (`h as i32`).
    pub open spec fn hi(self) -> int {
        (self.h as i32) as int
    }

    /// One past the right-most column: `x + w`.
    pub open spec fn right(self) -> int {
        self.x + self.wi()
    }

    /// One past the bottom row: `y + h`.
    pub open spec fn bottom(self) -> int {
        self.y + self.hi()
    }

    /// The point lies inside the half-open rectangle `[x, x+w) x [y, y+h)`.
    pub open spec fn has_point(self, p: Point) -> bool {
        &&& self.x <= p.x
        &&& p.x < self.right()
        &&& self.y <= p.y
        &&& p.y < self.bottom()
    }

    /// The hit test of `p` against this rectangle stays inside `i32`:
    /// `x + w` is only computed once `p.x >= x`, and `y + h` once the
    /// horizontal test and `p.y >= y` have passed.
    pub open spec fn contains_defined(self, p: Point) -> bool {
        &&& (self.x <= p.x ==> i32::MIN <= self.right() <= i32::MAX)
        &&& (self.x <= p.x && p.x < self.right() && self.y <= p.y ==> i32::MIN <= self.bottom()
            <= i32::MAX)
    }

    /// The title bar: the top 24 rows of the rectangle.
    pub open spec fn spec_titlebar(self) -> Rect {
        Rect { x: self.x, y: self.y, w: self.w, h: 24 }
    }

    /// The close button: a 16x16 square 20 pixels left of the right edge, 4 below the top.
    pub open spec fn spec_close_btn(self) -> Rect {
        Rect { x: (self.right() - 20) as i32, y: (self.y + 4) as i32, w: 16, h: 16 }
    }

    /// The minimise button: a 16x16 square 40 pixels left of the right edge, 4 below the top.
    pub open spec fn spec_min_btn(self) -> Rect {
        Rect { x: (self.right() - 40) as i32, y: (self.y + 4) as i32, w: 16, h: 16 }
    }

    /// The close button's corner can be computed without leaving `i32`.
    pub open spec fn close_btn_defined(self) -> bool {
        &&& i32::MIN <= self.right() - 20
        &&& self.right() <= i32::MAX
        &&& self.y + 4 <= i32::MAX
    }

    /// The minimise button's corner can be computed without leaving `i32`.
    pub open spec fn min_btn_defined(self) -> bool {
        &&& i32::MIN <= self.right() - 40
        &&& self.right() <= i32::MAX
        &&& self.y + 4 <= i32::MAX
    }

    /// Whether `contains(p)` can run, that is whether `contains_defined(p)` holds.
    pub fn contains_ok(&self, p: Point) -> (b: bool)
        ensures
            b == self.contains_defined(p),
    {
        let right = self.x as i64 + (self.w as i32) as i64;
        let bottom = self.y as i64 + (self.h as i32) as i64;
        let lo = i32::MIN as i64;
        let hi = i32::MAX as i64;
        let x_ok = !(self.x <= p.x) || (lo <= right && right <= hi);
        let y_ok = !(self.x <= p.x && (p.x as i64) < right && self.y <= p.y) || (lo <= bottom
            && bottom <= hi);
        x_ok && y_ok
    }

    /// Whether `close_btn()` can run.
    pub fn close_btn_ok(&self) -> (b: bool)
        ensures
            b == self.close_btn_defined(),
    {
        let right = self.x as i64 + (self.w as i32) as i64;
        i32::MIN as i64 <= right - 20 && right <= i32::MAX as i64 && (self.y as i64) + 4
            <= i32::MAX as i64
    }

    /// Whether `min_btn()` can run.
    pub fn min_btn_ok(&self) -> (b: bool)
        ensures
            b == self.min_btn_defined(),
    {
        let right = self.x as i64 + (self.w as i32) as i64;
        i32::MIN as i64 <= right - 40 && right <= i32::MAX as i64 && (self.y as i64) + 4
            <= i32::MAX as i64
    }

    pub fn new(x: i32, y: i32, w: u32, h: u32) -> (r: Self)
        ensures
            r == (Rect { x, y, w, h }),
    {
        Self { x, y, w, h }
    }

    pub fn contains(&self, p: Point) -> (b: bool)
        requires
            self.contains_defined(p),
        ensures
            b == self.has_point(p),
    {
        p.x >= self.x && p.x < self.x + self.w as i32 && p.y >= self.y && p.y < self.y
            + self.h as i32
    }

    pub fn titlebar(&self) -> (r: Rect)
        ensures
            r == self.spec_titlebar(),
    {
        Rect::new(self.x, self.y, self.w, 24)
    }

    pub fn close_btn(&self) -> (r: Rect)
        requires
            self.close_btn_defined(),
        ensures
            r == self.spec_close_btn(),
    {
        Rect::new(self.x + self.w as i32 - 20, self.y + 4, 16, 16)
    }

    pub fn min_btn(&self) -> (r: Rect)
        requires
            self.min_btn_defined(),
        ensures
            r == self.spec_min_btn(),
    {
        Rect::new(self.x + self.w as i32 - 40, self.y + 4, 16, 16)
    }
}

/// A 24-bit RGB colour.
#[derive(Debug, Clone, Copy, PartialEq, Eq, Structural)]
pub struct Color {
    pub r: u8,
    pub g: u8,
    pub b: u8,
}

impl Color {
    pub open spec fn spec_rgb(r: u8, g: u8, b: u8) -> Color {
        Color { r, g, b }
    }

    pub fn rgb(r: u8, g: u8, b: u8) -> (c: Self)
        ensures
            c == Color::spec_rgb(r, g, b),
    {
        Self { r, g, b }
    }

    pub fn black() -> (c: Color)
        ensures
            c == Color::spec_rgb(0, 0, 0),
    {
        Color::rgb(0, 0, 0)
    }

    pub fn white() -> (c: Color)
        ensures
            c == Color::spec_rgb(255, 255, 255),
    {
        Color::rgb(255, 255, 255)
    }

    pub fn dark_gray() -> (c: Color)
        ensures
            c == Color::spec_rgb(30, 30, 30),
    {
        Color::rgb(30, 30, 30)
    }

    pub fn gray() -> (c: Color)
        ensures
            c == Color::spec_rgb(60, 60, 60),
    {
        Color::rgb(60, 60, 60)
    }

    pub fn light_gray() -> (c: Color)
        ensures
            c == Color::spec_rgb(200, 200, 200),
    {
        Color::rgb(200, 200, 200)
    }

    pub fn accent() -> (c: Color)
        ensures
            c == Color::spec_rgb(0, 120, 215),
    {
        Color::rgb(0, 120, 215)
    }

    pub fn accent_dark() -> (c: Color)
        ensures
            c == Color::spec_rgb(0, 90, 160),
    {
        Color::rgb(0, 90, 160)
    }

    pub fn red() -> (c: Color)
        ensures
            c == Color::spec_rgb(196, 43, 28),
    {
        Color::rgb(196, 43, 28)
    }

    pub fn green() -> (c: Color)
        ensures
            c == Color::spec_rgb(16, 124, 16),
    {
        Color::rgb(16, 124, 16)
    }

    pub fn amber() -> (c: Color)
        ensures
            c == Color::spec_rgb(202, 80, 16),
    {
        Color::rgb(202, 80, 16)
    }

    pub fn titlebar() -> (c: Color)
        ensures
            c == Color::spec_rgb(40, 40, 40),
    {
        Color::rgb(40, 40, 40)
    }

    pub fn titlebar_focus() -> (c: Color)
        ensures
            c == Color::spec_rgb(0, 100, 180),
    {
        Color::rgb(0, 100, 180)
    }

    pub fn desktop_bg() -> (c: Color)
        ensures
            c == Color::spec_rgb(15, 15, 25),
    {
        Color::rgb(15, 15, 25)
    }

    pub fn taskbar_bg() -> (c: Color)
        ensures
            c == Color::spec_rgb(20, 20, 20),
    {
        Color::rgb(20, 20, 20)
    }
}

} // verus!
