//! The screen and the drawing operations that a frame is made of.
//!
//! Drawing produces a display list: the framebuffer calls in the order they are
//! made. A rasteriser applies them to the pixels, later calls painting over
//! earlier ones.
use vstd::prelude::*;
use crate::types::{Color, Rect};

verus! {

/// Screen width in pixels.
pub const SCREEN_W: u32 = 1024;

/// Screen height in pixels.
pub const SCREEN_H: u32 = 768;

/// One framebuffer call.
#[derive(Debug, PartialEq, Eq)]
pub enum DrawOp {
    /// Set one pixel.
    Pixel { x: i32, y: i32, color: Color },
    /// Read one pixel and write it back with each channel raised by the given
    /// amounts, stopping at 255.
    Brighten { x: i32, y: i32, dr: u8, dg: u8, db: u8 },
    /// Fill a rectangle.
    FillRect { rect: Rect, color: Color },
    /// Draw the border of a rectangle, `thickness` pixels wide.
    Outline { rect: Rect, color: Color, thickness: u32 },
    /// Draw text with its top-left corner at `(x, y)`.
    Text { text: String, x: i32, y: i32, color: Color },
    /// Draw text centred in a rectangle.
    TextCentered { text: String, rect: Rect, color: Color },
    /// Fill a disc of radius `r` around `(cx, cy)`.
    FillCircle { cx: i32, cy: i32, r: i32, color: Color },
    /// Draw a line segment.
    Line { x0: i32, y0: i32, x1: i32, y1: i32, color: Color },
}

/// A drawing operation as a value, with its text as characters.
pub enum DrawCmd {
    Pixel { x: i32, y: i32, color: Color },
    Brighten { x: i32, y: i32, dr: u8, dg: u8, db: u8 },
    FillRect { rect: Rect, color: Color },
    Outline { rect: Rect, color: Color, thickness: u32 },
    Text { text: Seq<char>, x: i32, y: i32, color: Color },
    TextCentered { text: Seq<char>, rect: Rect, color: Color },
    FillCircle { cx: i32, cy: i32, r: i32, color: Color },
    Line { x0: i32, y0: i32, x1: i32, y1: i32, color: Color },
}

impl View for DrawOp {
    type V = DrawCmd;

    open spec fn view(&self) -> DrawCmd {
        match self {
            DrawOp::Pixel { x, y, color } => DrawCmd::Pixel { x: *x, y: *y, color: *color },
            DrawOp::Brighten { x, y, dr, dg, db } => DrawCmd::Brighten {
                x: *x,
                y: *y,
                dr: *dr,
                dg: *dg,
                db: *db,
            },
            DrawOp::FillRect { rect, color } => DrawCmd::FillRect { rect: *rect, color: *color },
            DrawOp::Outline { rect, color, thickness } => DrawCmd::Outline {
                rect: *rect,
                color: *color,
                thickness: *thickness,
            },
            DrawOp::Text { text, x, y, color } => DrawCmd::Text {
                text: text@,
                x: *x,
                y: *y,
                color: *color,
            },
            DrawOp::TextCentered { text, rect, color } => DrawCmd::TextCentered {
                text: text@,
                rect: *rect,
                color: *color,
            },
            DrawOp::FillCircle { cx, cy, r, color } => DrawCmd::FillCircle {
                cx: *cx,
                cy: *cy,
                r: *r,
                color: *color,
            },
            DrawOp::Line { x0, y0, x1, y1, color } => DrawCmd::Line {
                x0: *x0,
                y0: *y0,
                x1: *x1,
                y1: *y1,
                color: *color,
            },
        }
    }
}

pub open spec fn ops_view(v: Seq<DrawOp>) -> Seq<DrawCmd> {
    v.map_values(|op: DrawOp| op@)
}

/// Appends one operation to the display list.
pub fn emit(fb: &mut Vec<DrawOp>, op: DrawOp)
    ensures
        ops_view(final(fb)@) == ops_view(old(fb)@).push(op@),
{
    let ghost before = fb@;
    fb.push(op);
    assert(ops_view(fb@) =~= ops_view(before).push(op@));
}

/// `fb` holds the operations `ops` after the ones it held at `start`.
pub open spec fn appended(fb: Seq<DrawOp>, start: Seq<DrawOp>, ops: Seq<DrawCmd>) -> bool {
    ops_view(fb) == ops_view(start) + ops
}

/// `n` pixels of one colour along row `y`, left to right from column 0.
pub open spec fn row_ops(y: int, n: nat, color: Color) -> Seq<DrawCmd> {
    Seq::new(n, |x: int| DrawCmd::Pixel { x: x as i32, y: y as i32, color })
}

/// `n` pixels of one colour down column `x`, from row `y0`.
pub open spec fn column_ops(x: int, y0: int, n: nat, color: Color) -> Seq<DrawCmd> {
    Seq::new(n, |i: int| DrawCmd::Pixel { x: x as i32, y: (y0 + i) as i32, color })
}

/// Paints the pixels `0..n` of row `y`.
pub fn draw_row(fb: &mut Vec<DrawOp>, y: i32, n: i32, color: Color)
    requires
        n >= 0,
    ensures
        appended(final(fb)@, old(fb)@, row_ops(y as int, n as nat, color)),
{
    let mut x: i32 = 0;
    assert(ops_view(fb@) =~= ops_view(old(fb)@) + row_ops(y as int, 0, color));
    while x < n
        invariant
            0 <= x <= n,
            appended(fb@, old(fb)@, row_ops(y as int, x as nat, color)),
        decreases n - x,
    {
        emit(fb, DrawOp::Pixel { x, y, color });
        assert(row_ops(y as int, (x + 1) as nat, color) =~= row_ops(y as int, x as nat, color).push(
            DrawCmd::Pixel { x, y, color },
        ));
        x = x + 1;
    }
}

/// Paints the pixels of column `x` from row `y0` up to (not including) row `y1`.
pub fn draw_column(fb: &mut Vec<DrawOp>, x: i32, y0: i32, y1: i32, color: Color)
    requires
        y0 <= y1,
    ensures
        appended(final(fb)@, old(fb)@, column_ops(x as int, y0 as int, (y1 - y0) as nat, color)),
{
    let mut y: i32 = y0;
    assert(ops_view(fb@) =~= ops_view(old(fb)@) + column_ops(x as int, y0 as int, 0, color));
    while y < y1
        invariant
            y0 <= y <= y1,
            appended(fb@, old(fb)@, column_ops(x as int, y0 as int, (y - y0) as nat, color)),
        decreases y1 - y,
    {
        emit(fb, DrawOp::Pixel { x, y, color });
        assert(column_ops(x as int, y0 as int, (y + 1 - y0) as nat, color) =~= column_ops(
            x as int,
            y0 as int,
            (y - y0) as nat,
            color,
        ).push(DrawCmd::Pixel { x, y, color }));
        y = y + 1;
    }
}

} // verus!
