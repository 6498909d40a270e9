//! How each part of the screen draws itself into the display list.
use vstd::prelude::*;
use crate::desktop::{Desktop, DesktopAction, DesktopIconView};
use crate::display::{
    DrawCmd,
    DrawOp,
    SCREEN_H,
    SCREEN_W,
    appended,
    column_ops,
    draw_column,
    draw_row,
    emit,
    ops_view,
    row_ops,
};
use crate::taskbar::{TASKBAR_H, TaskButtonView, Taskbar};
use crate::text::{prefix, take_chars};
use crate::types::{Color, Point, Rect};
use crate::window::{Window, WindowState, WindowView};

verus! {

/// Division that rounds toward zero, as Rust's `/` does on signed integers.
pub open spec fn trunc_div(a: int, d: int) -> int {
    if a >= 0 {
        a / d
    } else {
        -((-a) / d)
    }
}

/// `a / 10`, rounding toward zero.
fn div10_toward_zero(a: i32) -> (q: i32)
    ensures
        q == trunc_div(a as int, 10),
{
    if a >= 0 {
        a / 10
    } else {
        let m = -(a as i64);
        let q = m / 10;
        -(q as i32)
    }
}

/// Window titles are cut to this many characters.
pub const TITLE_CHARS: usize = 30;

/// The index of the first content line a window shows: the body shows as many
/// of the last lines as fit 10 pixels apart below the title bar. (A negative
/// line capacity, which Rust turns into a huge `usize`, shows every line.)
pub open spec fn visible_start(w: WindowView) -> int {
    let q = trunc_div(w.rect.hi() - 24 - 12, 10);
    if q < 0 {
        0
    } else if w.content.len() > q {
        w.content.len() - q
    } else {
        0
    }
}

/// How many content lines the window shows.
pub open spec fn visible_count(w: WindowView) -> int {
    w.content.len() - visible_start(w)
}

/// The text operations for the visible content lines, each cut to the
/// characters that fit the window's width at 6 pixels per character.
pub open spec fn content_ops(w: WindowView) -> Seq<DrawCmd> {
    let start = visible_start(w);
    Seq::new(
        visible_count(w) as nat,
        |i: int|
            DrawCmd::Text {
                text: prefix(w.content[start + i], ((w.rect.w - 16) / 6) as nat),
                x: (w.rect.x + 8) as i32,
                y: (w.rect.y + 28 + i * 10) as i32,
                color: Color::spec_rgb(200, 200, 200),
            },
    )
}

/// The operations that draw a window: nothing when it is minimised, else its
/// shadow, background, title bar, title, close and minimise buttons, border, and
/// the visible content lines.
pub open spec fn window_ops(w: WindowView) -> Seq<DrawCmd> {
    if w.state == WindowState::Minimized {
        Seq::empty()
    } else {
        let r = w.rect;
        let tb = r.spec_titlebar();
        let cb = r.spec_close_btn();
        let mb = r.spec_min_btn();
        seq![
            DrawCmd::FillRect {
                rect: Rect { x: (r.x + 4) as i32, y: (r.y + 4) as i32, w: r.w, h: r.h },
                color: Color::spec_rgb(0, 0, 0),
            },
            DrawCmd::FillRect { rect: r, color: Color::spec_rgb(25, 25, 35) },
            DrawCmd::FillRect {
                rect: tb,
                color: if w.focused {
                    Color::spec_rgb(0, 100, 180)
                } else {
                    Color::spec_rgb(40, 40, 40)
                },
            },
            DrawCmd::Text {
                text: prefix(w.title, TITLE_CHARS as nat),
                x: (tb.x + 8) as i32,
                y: (tb.y + 8) as i32,
                color: Color::spec_rgb(255, 255, 255),
            },
            DrawCmd::FillRect { rect: cb, color: Color::spec_rgb(196, 43, 28) },
            DrawCmd::Text {
                text: "x"@,
                x: (cb.x + 4) as i32,
                y: (cb.y + 4) as i32,
                color: Color::spec_rgb(255, 255, 255),
            },
            DrawCmd::FillRect { rect: mb, color: Color::spec_rgb(202, 80, 16) },
            DrawCmd::Text {
                text: "-"@,
                x: (mb.x + 5) as i32,
                y: (mb.y + 4) as i32,
                color: Color::spec_rgb(255, 255, 255),
            },
            DrawCmd::Outline {
                rect: r,
                color: if w.focused {
                    Color::spec_rgb(0, 120, 215)
                } else {
                    Color::spec_rgb(60, 60, 60)
                },
                thickness: 1,
            },
        ] + content_ops(w)
    }
}

/// Drawing the window stays inside `i32` (and, when a content line is shown,
/// the width is at least the 16 pixels of margin that `w - 16` takes off).
pub open spec fn window_draw_defined(w: WindowView) -> bool {
    w.state != WindowState::Minimized ==> {
        &&& w.rect.x + 8 <= i32::MAX
        &&& w.rect.y + 28 <= i32::MAX
        &&& w.rect.close_btn_defined()
        &&& w.rect.min_btn_defined()
        &&& i32::MIN <= w.rect.hi() - 36
        &&& visible_count(w) > 0 ==> {
            &&& w.rect.w >= 16
            &&& (visible_count(w) - 1) * 10 <= i32::MAX
            &&& w.rect.y + 28 + (visible_count(w) - 1) * 10 <= i32::MAX
        }
    }
}

/// A window after being drawn: no longer dirty, unless it was minimised and so not drawn.
pub open spec fn drawn(w: WindowView) -> WindowView {
    if w.state == WindowState::Minimized {
        w
    } else {
        WindowView { dirty: false, ..w }
    }
}

impl Window {
    pub fn draw(&mut self, fb: &mut Vec<DrawOp>)
        requires
            window_draw_defined(old(self)@),
        ensures
            appended(final(fb)@, old(fb)@, window_ops(old(self)@)),
            final(self)@ == drawn(old(self)@),
    {
        if self.state == WindowState::Minimized {
            assert(ops_view(fb@) =~= ops_view(old(fb)@) + Seq::<DrawCmd>::empty());
            return ;
        }
        let ghost w = self@;
        let r = self.rect;
        emit(
            fb,
            DrawOp::FillRect { rect: Rect::new(r.x + 4, r.y + 4, r.w, r.h), color: Color::black() },
        );
        emit(fb, DrawOp::FillRect { rect: r, color: Color::rgb(25, 25, 35) });
        let tb = r.titlebar();
        let tb_color = if self.focused {
            Color::titlebar_focus()
        } else {
            Color::titlebar()
        };
        emit(fb, DrawOp::FillRect { rect: tb, color: tb_color });
        let title_short = take_chars(self.title.as_str(), TITLE_CHARS);
        emit(
            fb,
            DrawOp::Text { text: title_short, x: tb.x + 8, y: tb.y + 8, color: Color::white() },
        );
        let cb = r.close_btn();
        emit(fb, DrawOp::FillRect { rect: cb, color: Color::red() });
        let xs = "x".to_owned();
        emit(fb, DrawOp::Text { text: xs, x: cb.x + 4, y: cb.y + 4, color: Color::white() });
        let mb = r.min_btn();
        emit(fb, DrawOp::FillRect { rect: mb, color: Color::amber() });
        let dash = "-".to_owned();
        emit(fb, DrawOp::Text { text: dash, x: mb.x + 5, y: mb.y + 4, color: Color::white() });
        let border = if self.focused {
            Color::accent()
        } else {
            Color::gray()
        };
        emit(fb, DrawOp::Outline { rect: r, color: border, thickness: 1 });
        let ghost head = ops_view(fb@);
        assert(head =~= ops_view(old(fb)@) + window_ops(w).subrange(0, 9));
        let content_y = tb.y + 24 + 4;
        let content_x = r.x + 8;
        let hi = r.h as i32;
        let q = div10_toward_zero(hi - 24 - 12);
        let len = self.content.len();
        let start: usize = if q < 0 {
            0
        } else if len > q as usize {
            len - q as usize
        } else {
            0
        };
        assert(start as int == visible_start(w));
        let mut k: usize = start;
        assert(ops_view(fb@) =~= head + content_ops(w).take(0));
        while k < len
            invariant
                w == self@,
                w == old(self)@,
                len == self.content@.len(),
                start as int == visible_start(w),
                start <= k <= len,
                window_draw_defined(w),
                w.state != WindowState::Minimized,
                content_y as int == w.rect.y + 28,
                content_x as int == w.rect.x + 8,
                r == w.rect,
                ops_view(fb@) == head + content_ops(w).take(k - start),
                head == ops_view(old(fb)@) + window_ops(w).subrange(0, 9),
            decreases len - k,
        {
            let i = k - start;
            let n = ((r.w - 16) / 6) as usize;
            let short = take_chars(self.content[k].as_str(), n);
            assert(self@.content[k as int] == self.content@[k as int]@);
            let y = content_y + i as i32 * 10;
            emit(fb, DrawOp::Text { text: short, x: content_x, y, color: Color::light_gray() });
            assert(content_ops(w).take(i + 1) =~= content_ops(w).take(i as int).push(
                content_ops(w)[i as int],
            ));
            k = k + 1;
        }
        assert(content_ops(w).take(len - start) =~= content_ops(w));
        assert(window_ops(w) =~= window_ops(w).subrange(0, 9) + content_ops(w));
        assert(ops_view(fb@) =~= ops_view(old(fb)@) + window_ops(w));
        self.dirty = false;
    }
}


/// The operations that draw one taskbar button: its face (darker when its
/// window has the focus), its border, and its label.
pub open spec fn button_ops(b: TaskButtonView) -> Seq<DrawCmd> {
    seq![
        DrawCmd::FillRect {
            rect: b.rect,
            color: if b.active {
                Color::spec_rgb(0, 90, 160)
            } else {
                Color::spec_rgb(60, 60, 60)
            },
        },
        DrawCmd::Outline { rect: b.rect, color: Color::spec_rgb(200, 200, 200), thickness: 1 },
        DrawCmd::Text {
            text: b.label,
            x: (b.rect.x + 4) as i32,
            y: (b.rect.y + 8) as i32,
            color: Color::spec_rgb(255, 255, 255),
        },
    ]
}

/// The operations that draw the buttons, in order.
pub open spec fn buttons_ops(s: Seq<TaskButtonView>) -> Seq<DrawCmd>
    decreases s.len(),
{
    if s.len() == 0 {
        Seq::empty()
    } else {
        buttons_ops(s.drop_last()) + button_ops(s.last())
    }
}

/// Left edge of the clock box.
pub const CLOCK_X: i32 = 964;

/// The operations that draw the taskbar: background, top border, start button,
/// separator, window buttons, clock, and the separator before the clock.
pub open spec fn taskbar_ops(rect: Rect, buttons: Seq<TaskButtonView>, clock: Seq<char>) -> Seq<
    DrawCmd,
> {
    let start = Rect { x: (rect.x + 4) as i32, y: (rect.y + 4) as i32, w: 60, h: 24 };
    let clock_rect = Rect { x: CLOCK_X, y: (rect.y + 4) as i32, w: 56, h: 24 };
    seq![DrawCmd::FillRect { rect, color: Color::spec_rgb(20, 20, 20) }] + row_ops(
        rect.y as int,
        SCREEN_W as nat,
        Color::spec_rgb(0, 120, 215),
    ) + seq![
        DrawCmd::FillRect { rect: start, color: Color::spec_rgb(0, 120, 215) },
        DrawCmd::TextCentered {
            text: "LUO OS"@,
            rect: start,
            color: Color::spec_rgb(255, 255, 255),
        },
    ] + column_ops(68, rect.y + 4, 24, Color::spec_rgb(60, 60, 60)) + buttons_ops(buttons) + seq![
        DrawCmd::FillRect { rect: clock_rect, color: Color::spec_rgb(10, 10, 10) },
        DrawCmd::TextCentered { text: clock, rect: clock_rect, color: Color::spec_rgb(255, 255, 255) },
    ] + column_ops(CLOCK_X - 4, rect.y + 4, 24, Color::spec_rgb(60, 60, 60))
}

/// Drawing the taskbar stays inside `i32`.
pub open spec fn taskbar_draw_defined(rect: Rect, buttons: Seq<TaskButtonView>) -> bool {
    &&& rect.x + 4 <= i32::MAX
    &&& rect.y + 28 <= i32::MAX
    &&& forall|i: int|
        0 <= i < buttons.len() ==> (#[trigger] buttons[i]).rect.x + 4 <= i32::MAX && buttons[i].rect.y
            + 8 <= i32::MAX
}

impl Taskbar {
    pub fn draw(&self, fb: &mut Vec<DrawOp>)
        requires
            taskbar_draw_defined(self.rect, self.buttons_view()),
        ensures
            appended(
                final(fb)@,
                old(fb)@,
                taskbar_ops(self.rect, self.buttons_view(), self.clock_str@),
            ),
    {
        let ghost bs = self.buttons_view();
        emit(fb, DrawOp::FillRect { rect: self.rect, color: Color::taskbar_bg() });
        draw_row(fb, self.rect.y, SCREEN_W as i32, Color::accent());
        let start_rect = Rect::new(self.rect.x + 4, self.rect.y + 4, 60, 24);
        emit(fb, DrawOp::FillRect { rect: start_rect, color: Color::accent() });
        let logo = "LUO OS".to_owned();
        emit(fb, DrawOp::TextCentered { text: logo, rect: start_rect, color: Color::white() });
        draw_column(fb, 68, self.rect.y + 4, self.rect.y + 28, Color::gray());
        let ghost head = ops_view(fb@);
        let mut i: usize = 0;
        assert(bs.take(0) =~= Seq::<TaskButtonView>::empty());
        assert(ops_view(fb@) =~= head + buttons_ops(bs.take(0)));
        while i < self.buttons.len()
            invariant
                i <= self.buttons@.len(),
                bs == self.buttons_view(),
                taskbar_draw_defined(self.rect, bs),
                ops_view(fb@) == head + buttons_ops(bs.take(i as int)),
            decreases self.buttons.len() - i,
        {
            let btn = &self.buttons[i];
            assert(bs[i as int] == btn@);
            let color = if btn.active {
                Color::accent_dark()
            } else {
                Color::gray()
            };
            emit(fb, DrawOp::FillRect { rect: btn.rect, color });
            emit(
                fb,
                DrawOp::Outline { rect: btn.rect, color: Color::light_gray(), thickness: 1 },
            );
            let label = btn.label.clone();
            emit(
                fb,
                DrawOp::Text {
                    text: label,
                    x: btn.rect.x + 4,
                    y: btn.rect.y + 8,
                    color: Color::white(),
                },
            );
            assert(bs.take(i + 1).drop_last() =~= bs.take(i as int));
            assert(ops_view(fb@) =~= head + buttons_ops(bs.take(i + 1)));
            i = i + 1;
        }
        assert(bs.take(i as int) =~= bs);
        let clock_x = SCREEN_W as i32 - 60;
        let clock_rect = Rect::new(clock_x, self.rect.y + 4, 56, 24);
        emit(fb, DrawOp::FillRect { rect: clock_rect, color: Color::rgb(10, 10, 10) });
        let clock = self.clock_str.clone();
        emit(fb, DrawOp::TextCentered { text: clock, rect: clock_rect, color: Color::white() });
        draw_column(fb, clock_x - 4, self.rect.y + 4, self.rect.y + 28, Color::gray());
        assert(ops_view(fb@) =~= ops_view(old(fb)@) + taskbar_ops(
            self.rect,
            bs,
            self.clock_str@,
        ));
    }
}

/// The blue level of the desktop background at row `y` (0 at the top, 19 at the
/// bottom): `y / 736 * 20`, rounded down.
pub open spec fn bg_shade(y: int) -> int {
    y * 20 / (SCREEN_H - TASKBAR_H) as int
}

/// The desktop background colour of row `y`.
pub open spec fn bg_color(y: int) -> Color {
    Color::spec_rgb(
        (5 + bg_shade(y) / 2) as u8,
        (5 + bg_shade(y) / 2) as u8,
        (15 + bg_shade(y)) as u8,
    )
}

/// The background gradient: every pixel of the first `rows` rows, row by row.
pub open spec fn background_ops(rows: nat) -> Seq<DrawCmd>
    decreases rows,
{
    if rows == 0 {
        Seq::empty()
    } else {
        background_ops((rows - 1) as nat) + row_ops(rows - 1, SCREEN_W as nat, bg_color(rows - 1))
    }
}

/// Spacing of the grid lines over the desktop background.
pub const GRID_STEP: i32 = 40;

/// One grid line: every pixel of row `y` brightened a little.
pub open spec fn grid_row_ops(y: int) -> Seq<DrawCmd> {
    Seq::new(
        SCREEN_W as nat,
        |x: int| DrawCmd::Brighten { x: x as i32, y: y as i32, dr: 3, dg: 3, db: 5 },
    )
}

/// The first `k` grid lines, `GRID_STEP` rows apart from row 0.
pub open spec fn grid_ops(k: nat) -> Seq<DrawCmd>
    decreases k,
{
    if k == 0 {
        Seq::empty()
    } else {
        grid_ops((k - 1) as nat) + grid_row_ops(GRID_STEP * (k - 1))
    }
}

/// The number of grid lines above the taskbar.
pub open spec fn grid_lines() -> nat {
    19
}

/// The symbol drawn inside an icon's square.
pub open spec fn symbol_ops(r: Rect, a: DesktopAction) -> Seq<DrawCmd> {
    let c = Color::spec_rgb(0, 120, 215);
    match a {
        DesktopAction::OpenTerminal => seq![
            DrawCmd::Text { text: ">_"@, x: (r.x + 20) as i32, y: (r.y + 22) as i32, color: c },
        ],
        DesktopAction::OpenFileManager => seq![
            DrawCmd::FillRect {
                rect: Rect { x: (r.x + 12) as i32, y: (r.y + 16) as i32, w: 40, h: 30 },
                color: Color::spec_rgb(202, 80, 16),
            },
            DrawCmd::FillRect {
                rect: Rect { x: (r.x + 12) as i32, y: (r.y + 12) as i32, w: 20, h: 8 },
                color: Color::spec_rgb(202, 80, 16),
            },
        ],
        DesktopAction::OpenAIAgent => seq![
            DrawCmd::FillCircle { cx: (r.x + 32) as i32, cy: (r.y + 28) as i32, r: 14, color: c },
            DrawCmd::FillCircle {
                cx: (r.x + 32) as i32,
                cy: (r.y + 28) as i32,
                r: 10,
                color: Color::spec_rgb(30, 30, 30),
            },
            DrawCmd::FillCircle { cx: (r.x + 32) as i32, cy: (r.y + 28) as i32, r: 4, color: c },
        ],
        DesktopAction::OpenAbout => seq![
            DrawCmd::Text { text: "i"@, x: (r.x + 28) as i32, y: (r.y + 18) as i32, color: c },
            DrawCmd::Line {
                x0: (r.x + 32) as i32,
                y0: (r.y + 30) as i32,
                x1: (r.x + 32) as i32,
                y1: (r.y + 48) as i32,
                color: c,
            },
        ],
    }
}

/// The label's length in bytes (its UTF-8 encoding, as a `usize`), which positions it.
pub open spec fn label_bytes(label: Seq<char>) -> int {
    (vstd::utf8::encode_utf8(label).len() as usize) as int
}

/// Where an icon's label starts: centred under the square at 6 pixels per byte.
pub open spec fn label_x(i: DesktopIconView) -> int {
    i.rect.x + trunc_div(i.rect.wi() - label_bytes(i.label) * 6, 2)
}

/// The operations that draw one icon: a black square with a blue border, the
/// symbol of its action, and its label below.
pub open spec fn icon_ops(i: DesktopIconView) -> Seq<DrawCmd> {
    seq![
        DrawCmd::FillRect { rect: i.rect, color: Color::spec_rgb(0, 0, 0) },
        DrawCmd::Outline { rect: i.rect, color: Color::spec_rgb(0, 120, 215), thickness: 1 },
    ] + symbol_ops(i.rect, i.action) + seq![
        DrawCmd::Text {
            text: i.label,
            x: label_x(i) as i32,
            y: (i.rect.bottom() + 4) as i32,
            color: Color::spec_rgb(255, 255, 255),
        },
    ]
}

/// The operations that draw the icons, in order.
pub open spec fn icons_ops(s: Seq<DesktopIconView>) -> Seq<DrawCmd>
    decreases s.len(),
{
    if s.len() == 0 {
        Seq::empty()
    } else {
        icons_ops(s.drop_last()) + icon_ops(s.last())
    }
}

/// The operations that draw the desktop: the gradient, the grid, then the icons.
pub open spec fn desktop_ops(icons: Seq<DesktopIconView>) -> Seq<DrawCmd> {
    background_ops((SCREEN_H - TASKBAR_H) as nat) + grid_ops(grid_lines()) + icons_ops(icons)
}

/// The largest offsets from the icon's corner at which its symbol is drawn.
pub open spec fn symbol_extent(a: DesktopAction) -> (int, int) {
    match a {
        DesktopAction::OpenTerminal => (20, 22),
        DesktopAction::OpenFileManager => (12, 16),
        DesktopAction::OpenAIAgent => (32, 28),
        DesktopAction::OpenAbout => (32, 48),
    }
}

/// Drawing the icon stays inside `i32`.
pub open spec fn icon_draw_defined(i: DesktopIconView) -> bool {
    &&& i.rect.x + symbol_extent(i.action).0 <= i32::MAX
    &&& i.rect.y + symbol_extent(i.action).1 <= i32::MAX
    &&& label_bytes(i.label) * 6 <= i32::MAX
    &&& i32::MIN <= i.rect.wi() - label_bytes(i.label) * 6
    &&& i32::MIN <= label_x(i) <= i32::MAX
    &&& i32::MIN <= i.rect.bottom() <= i32::MAX
    &&& i.rect.bottom() + 4 <= i32::MAX
}

/// Draws one icon.
fn draw_icon(fb: &mut Vec<DrawOp>, icon: &crate::desktop::DesktopIcon)
    requires
        icon_draw_defined(icon@),
    ensures
        appended(final(fb)@, old(fb)@, icon_ops(icon@)),
{
    let r = icon.rect;
    emit(fb, DrawOp::FillRect { rect: r, color: Color::black() });
    emit(fb, DrawOp::Outline { rect: r, color: Color::accent(), thickness: 1 });
    let sym_color = Color::accent();
    match icon.action {
        DesktopAction::OpenTerminal => {
            let t = ">_".to_owned();
            emit(fb, DrawOp::Text { text: t, x: r.x + 20, y: r.y + 22, color: sym_color });
        },
        DesktopAction::OpenFileManager => {
            emit(
                fb,
                DrawOp::FillRect { rect: Rect::new(r.x + 12, r.y + 16, 40, 30), color: Color::amber() },
            );
            emit(
                fb,
                DrawOp::FillRect { rect: Rect::new(r.x + 12, r.y + 12, 20, 8), color: Color::amber() },
            );
        },
        DesktopAction::OpenAIAgent => {
            emit(fb, DrawOp::FillCircle { cx: r.x + 32, cy: r.y + 28, r: 14, color: sym_color });
            emit(
                fb,
                DrawOp::FillCircle { cx: r.x + 32, cy: r.y + 28, r: 10, color: Color::dark_gray() },
            );
            emit(fb, DrawOp::FillCircle { cx: r.x + 32, cy: r.y + 28, r: 4, color: sym_color });
        },
        DesktopAction::OpenAbout => {
            let t = "i".to_owned();
            emit(fb, DrawOp::Text { text: t, x: r.x + 28, y: r.y + 18, color: sym_color });
            emit(
                fb,
                DrawOp::Line { x0: r.x + 32, y0: r.y + 30, x1: r.x + 32, y1: r.y + 48, color: sym_color },
            );
        },
    }
    let bytes = icon.label.as_str().len();
    let wi = r.w as i32;
    let shift = half_toward_zero(wi - bytes as i32 * 6);
    let label = icon.label.clone();
    emit(
        fb,
        DrawOp::Text { text: label, x: r.x + shift, y: r.y + r.h as i32 + 4, color: Color::white() },
    );
    assert(ops_view(fb@) =~= ops_view(old(fb)@) + icon_ops(icon@));
}

/// `a / 2`, rounding toward zero.
fn half_toward_zero(a: i32) -> (q: i32)
    ensures
        q == trunc_div(a as int, 2),
{
    if a >= 0 {
        a / 2
    } else {
        let m = -(a as i64);
        let q = m / 2;
        -(q as i32)
    }
}

impl Desktop {
    pub fn draw(&self, fb: &mut Vec<DrawOp>)
        requires
            forall|i: int|
                0 <= i < self.icons_view().len() ==> icon_draw_defined(#[trigger] self.icons_view()[i]),
        ensures
            appended(final(fb)@, old(fb)@, desktop_ops(self.icons_view())),
    {
        let rows: i32 = (SCREEN_H - TASKBAR_H) as i32;
        let mut y: i32 = 0;
        assert(ops_view(fb@) =~= ops_view(old(fb)@) + background_ops(0));
        while y < rows
            invariant
                rows == 736,
                0 <= y <= rows,
                appended(fb@, old(fb)@, background_ops(y as nat)),
            decreases rows - y,
        {
            let shade: u8 = (y * 20 / rows) as u8;
            assert(shade as int == bg_shade(y as int));
            let c = Color::rgb(5 + shade / 2, 5 + shade / 2, 15 + shade);
            draw_row(fb, y, SCREEN_W as i32, c);
            assert(ops_view(fb@) =~= ops_view(old(fb)@) + background_ops((y + 1) as nat));
            y = y + 1;
        }
        let ghost bg = ops_view(fb@);
        y = 0;
        let ghost mut k: nat = 0;
        assert(ops_view(fb@) =~= bg + grid_ops(0));
        while y < rows
            invariant
                rows == 736,
                y == GRID_STEP * k,
                y < rows + GRID_STEP,
                bg == ops_view(old(fb)@) + background_ops(736),
                ops_view(fb@) == bg + grid_ops(k),
            decreases rows + GRID_STEP - y,
        {
            let mut x: i32 = 0;
            let ghost row_start = ops_view(fb@);
            assert(ops_view(fb@) =~= row_start + grid_row_ops(y as int).take(0));
            while x < SCREEN_W as i32
                invariant
                    0 <= x <= 1024,
                    ops_view(fb@) == row_start + grid_row_ops(y as int).take(x as int),
                decreases 1024 - x,
            {
                emit(fb, DrawOp::Brighten { x, y, dr: 3, dg: 3, db: 5 });
                assert(grid_row_ops(y as int).take(x + 1) =~= grid_row_ops(y as int).take(
                    x as int,
                ).push(DrawCmd::Brighten { x, y, dr: 3, dg: 3, db: 5 }));
                x = x + 1;
            }
            assert(grid_row_ops(y as int).take(1024) =~= grid_row_ops(y as int));
            assert(ops_view(fb@) =~= bg + grid_ops(k + 1));
            y = y + GRID_STEP;
            proof {
                k = k + 1;
            }
        }
        assert(k == grid_lines());
        let ghost icons = self.icons_view();
        let ghost head = ops_view(fb@);
        let mut i: usize = 0;
        assert(icons.take(0) =~= Seq::<DesktopIconView>::empty());
        assert(ops_view(fb@) =~= head + icons_ops(icons.take(0)));
        while i < self.icons.len()
            invariant
                i <= self.icons@.len(),
                icons == self.icons_view(),
                forall|j: int| 0 <= j < icons.len() ==> icon_draw_defined(#[trigger] icons[j]),
                ops_view(fb@) == head + icons_ops(icons.take(i as int)),
            decreases self.icons.len() - i,
        {
            assert(icons[i as int] == self.icons@[i as int]@);
            draw_icon(fb, &self.icons[i]);
            assert(icons.take(i + 1).drop_last() =~= icons.take(i as int));
            assert(ops_view(fb@) =~= head + icons_ops(icons.take(i + 1)));
            i = i + 1;
        }
        assert(icons.take(i as int) =~= icons);
        assert(ops_view(fb@) =~= ops_view(old(fb)@) + desktop_ops(icons));
    }
}


/// The arrow cursor: the offsets of its pixels from the hot spot.
pub open spec fn cursor_shape() -> Seq<(i32, i32)> {
    seq![
        (0i32, 0i32), (1i32, 0i32), (2i32, 0i32), (3i32, 0i32), (4i32, 0i32), (5i32, 0i32),
        (6i32, 0i32), (7i32, 0i32), (8i32, 0i32), (9i32, 0i32), (10i32, 0i32), (0i32, 1i32),
        (1i32, 1i32), (2i32, 1i32), (3i32, 1i32), (4i32, 1i32), (5i32, 1i32), (0i32, 2i32),
        (1i32, 2i32), (2i32, 2i32), (3i32, 2i32), (4i32, 2i32), (0i32, 3i32), (1i32, 3i32),
        (2i32, 3i32), (3i32, 3i32), (4i32, 3i32), (5i32, 3i32), (0i32, 4i32), (1i32, 4i32),
        (5i32, 4i32), (6i32, 4i32), (0i32, 5i32), (6i32, 5i32), (7i32, 5i32), (0i32, 6i32),
        (7i32, 6i32), (8i32, 6i32), (0i32, 7i32), (8i32, 7i32), (9i32, 7i32), (0i32, 8i32),
        (9i32, 8i32), (10i32, 8i32),
    ]
}

/// The cursor's pixels painted white.
pub open spec fn cursor_fill_ops(p: Point) -> Seq<DrawCmd> {
    Seq::new(
        cursor_shape().len(),
        |k: int|
            DrawCmd::Pixel {
                x: (p.x + cursor_shape()[k].0) as i32,
                y: (p.y + cursor_shape()[k].1) as i32,
                color: Color::spec_rgb(255, 255, 255),
            },
    )
}

/// The four black neighbours (left, right, above, below) of one cursor pixel.
pub open spec fn outline_of(p: Point, d: (i32, i32)) -> Seq<DrawCmd> {
    let black = Color::spec_rgb(0, 0, 0);
    seq![
        DrawCmd::Pixel { x: (p.x + d.0 - 1) as i32, y: (p.y + d.1) as i32, color: black },
        DrawCmd::Pixel { x: (p.x + d.0 + 1) as i32, y: (p.y + d.1) as i32, color: black },
        DrawCmd::Pixel { x: (p.x + d.0) as i32, y: (p.y + d.1 - 1) as i32, color: black },
        DrawCmd::Pixel { x: (p.x + d.0) as i32, y: (p.y + d.1 + 1) as i32, color: black },
    ]
}

/// The black outline around the first `n` cursor pixels.
pub open spec fn cursor_outline_ops(p: Point, n: nat) -> Seq<DrawCmd>
    decreases n,
{
    if n == 0 {
        Seq::empty()
    } else {
        cursor_outline_ops(p, (n - 1) as nat) + outline_of(p, cursor_shape()[n - 1])
    }
}

/// The operations that draw the cursor at `p`: the shape in white, a black
/// outline around it, and the shape in white again on top of the outline.
pub open spec fn cursor_ops(p: Point) -> Seq<DrawCmd> {
    cursor_fill_ops(p) + cursor_outline_ops(p, cursor_shape().len()) + cursor_fill_ops(p)
}

/// Drawing the cursor (and its outline) at `p` stays inside `i32`.
pub open spec fn cursor_draw_defined(p: Point) -> bool {
    &&& i32::MIN + 1 <= p.x
    &&& p.x + 11 <= i32::MAX
    &&& i32::MIN + 1 <= p.y
    &&& p.y + 9 <= i32::MAX
}

/// Paints the cursor's pixels white.
fn draw_cursor_fill(fb: &mut Vec<DrawOp>, p: Point, pts: &[(i32, i32); 44])
    requires
        cursor_draw_defined(p),
        pts@ == cursor_shape(),
    ensures
        appended(final(fb)@, old(fb)@, cursor_fill_ops(p)),
{
    let mut k: usize = 0;
    assert(ops_view(fb@) =~= ops_view(old(fb)@) + cursor_fill_ops(p).take(0));
    while k < 44
        invariant
            k <= 44,
            pts@ == cursor_shape(),
            cursor_draw_defined(p),
            ops_view(fb@) == ops_view(old(fb)@) + cursor_fill_ops(p).take(k as int),
        decreases 44 - k,
    {
        let (dx, dy) = pts[k];
        assert(0 <= dx <= 10 && 0 <= dy <= 8);
        emit(fb, DrawOp::Pixel { x: p.x + dx, y: p.y + dy, color: Color::white() });
        assert(cursor_fill_ops(p).take(k + 1) =~= cursor_fill_ops(p).take(k as int).push(
            cursor_fill_ops(p)[k as int],
        ));
        k = k + 1;
    }
    assert(cursor_fill_ops(p).take(44) =~= cursor_fill_ops(p));
}

/// Draws the mouse cursor with its hot spot at `p`.
pub fn draw_cursor(fb: &mut Vec<DrawOp>, p: Point)
    requires
        cursor_draw_defined(p),
    ensures
        appended(final(fb)@, old(fb)@, cursor_ops(p)),
{
    let pts: [(i32, i32); 44] = [
        (0, 0), (1, 0), (2, 0), (3, 0), (4, 0), (5, 0), (6, 0), (7, 0), (8, 0), (9, 0),
        (10, 0), (0, 1), (1, 1), (2, 1), (3, 1), (4, 1), (5, 1), (0, 2), (1, 2), (2, 2),
        (3, 2), (4, 2), (0, 3), (1, 3), (2, 3), (3, 3), (4, 3), (5, 3), (0, 4), (1, 4), (5, 4),
        (6, 4), (0, 5), (6, 5), (7, 5), (0, 6), (7, 6), (8, 6), (0, 7), (8, 7), (9, 7), (0, 8),
        (9, 8), (10, 8),
    ];
    assert(pts@ =~= cursor_shape());
    draw_cursor_fill(fb, p, &pts);
    let ghost filled = ops_view(fb@);
    let mut k: usize = 0;
    assert(ops_view(fb@) =~= filled + cursor_outline_ops(p, 0));
    while k < 44
        invariant
            k <= 44,
            pts@ == cursor_shape(),
            cursor_draw_defined(p),
            filled == ops_view(old(fb)@) + cursor_fill_ops(p),
            ops_view(fb@) == filled + cursor_outline_ops(p, k as nat),
        decreases 44 - k,
    {
        let (dx, dy) = pts[k];
        assert(0 <= dx <= 10 && 0 <= dy <= 8);
        let black = Color::black();
        emit(fb, DrawOp::Pixel { x: p.x + dx - 1, y: p.y + dy, color: black });
        emit(fb, DrawOp::Pixel { x: p.x + dx + 1, y: p.y + dy, color: black });
        emit(fb, DrawOp::Pixel { x: p.x + dx, y: p.y + dy - 1, color: black });
        emit(fb, DrawOp::Pixel { x: p.x + dx, y: p.y + dy + 1, color: black });
        assert(ops_view(fb@) =~= filled + cursor_outline_ops(p, (k + 1) as nat));
        k = k + 1;
    }
    let ghost outlined = ops_view(fb@);
    draw_cursor_fill(fb, p, &pts);
    assert(ops_view(fb@) =~= ops_view(old(fb)@) + cursor_ops(p));
}


/// `a / 10` on wide integers, rounding toward zero.
fn div10_wide(a: i64) -> (q: i64)
    requires
        i32::MIN as i64 - 100 <= a <= i32::MAX as i64,
    ensures
        q == trunc_div(a as int, 10),
{
    if a >= 0 {
        a / 10
    } else {
        -((-a) / 10)
    }
}

/// `a / 2` on wide integers, rounding toward zero.
fn div2_wide(a: i64) -> (q: i64)
    requires
        -(i32::MAX as i64) * 8 <= a <= (i32::MAX as i64) * 8,
    ensures
        q == trunc_div(a as int, 2),
{
    if a >= 0 {
        a / 2
    } else {
        -((-a) / 2)
    }
}

/// Whether `w.draw` can run.
pub fn window_draw_ok(w: &Window) -> (b: bool)
    ensures
        b == window_draw_defined(w@),
{
    if w.state == WindowState::Minimized {
        return true;
    }
    let r = w.rect;
    let x = r.x as i64;
    let y = r.y as i64;
    let hi = (r.h as i32) as i64;
    let max = i32::MAX as i64;
    if !(x + 8 <= max) || !(y + 28 <= max) || !r.close_btn_ok() || !r.min_btn_ok() || !(
    i32::MIN as i64 <= hi - 36) {
        return false;
    }
    let q = div10_wide(hi - 24 - 12);
    let len = w.content.len();
    let start: usize = if q < 0 {
        0
    } else if len > q as usize {
        len - q as usize
    } else {
        0
    };
    assert(start as int == visible_start(w@));
    let count = len - start;
    if count == 0 {
        return true;
    }
    if !(r.w >= 16) || count - 1 > (i32::MAX / 10) as usize {
        return false;
    }
    y + 28 + ((count - 1) as i64) * 10 <= max
}

/// Whether `draw_icon` can run.
fn icon_draw_ok(icon: &crate::desktop::DesktopIcon) -> (b: bool)
    ensures
        b == icon_draw_defined(icon@),
{
    let r = icon.rect;
    let (ex, ey): (i64, i64) = match icon.action {
        DesktopAction::OpenTerminal => (20, 22),
        DesktopAction::OpenFileManager => (12, 16),
        DesktopAction::OpenAIAgent => (32, 28),
        DesktopAction::OpenAbout => (32, 48),
    };
    let max = i32::MAX as i64;
    let min = i32::MIN as i64;
    if !(r.x as i64 + ex <= max) || !(r.y as i64 + ey <= max) {
        return false;
    }
    let bytes = icon.label.as_str().len();
    if bytes > (i32::MAX / 6) as usize {
        return false;
    }
    let b6 = bytes as i64 * 6;
    let wi = (r.w as i32) as i64;
    if wi - b6 < min {
        return false;
    }
    let lx = r.x as i64 + div2_wide(wi - b6);
    let bottom = r.y as i64 + (r.h as i32) as i64;
    min <= lx && lx <= max && min <= bottom && bottom <= max && bottom + 4 <= max
}

/// Whether `Desktop::draw` can run.
pub fn desktop_draw_ok(d: &Desktop) -> (b: bool)
    ensures
        b == forall|i: int|
            0 <= i < d.icons_view().len() ==> icon_draw_defined(#[trigger] d.icons_view()[i]),
{
    let mut i: usize = 0;
    while i < d.icons.len()
        invariant
            i <= d.icons@.len(),
            forall|j: int| 0 <= j < i ==> icon_draw_defined(#[trigger] d.icons_view()[j]),
        decreases d.icons.len() - i,
    {
        assert(d.icons_view()[i as int] == d.icons@[i as int]@);
        if !icon_draw_ok(&d.icons[i]) {
            return false;
        }
        i = i + 1;
    }
    true
}

/// Whether `Taskbar::draw` can run.
pub fn taskbar_draw_ok(t: &Taskbar) -> (b: bool)
    ensures
        b == taskbar_draw_defined(t.rect, t.buttons_view()),
{
    let max = i32::MAX as i64;
    if !((t.rect.x as i64) + 4 <= max) || !((t.rect.y as i64) + 28 <= max) {
        return false;
    }
    let mut i: usize = 0;
    while i < t.buttons.len()
        invariant
            i <= t.buttons@.len(),
            max == i32::MAX,
            forall|j: int|
                0 <= j < i ==> (#[trigger] t.buttons_view()[j]).rect.x + 4 <= i32::MAX
                    && t.buttons_view()[j].rect.y + 8 <= i32::MAX,
        decreases t.buttons.len() - i,
    {
        assert(t.buttons_view()[i as int].rect == t.buttons@[i as int].rect);
        let r = t.buttons[i].rect;
        if !((r.x as i64) + 4 <= max) || !((r.y as i64) + 8 <= max) {
            return false;
        }
        i = i + 1;
    }
    true
}

/// Whether `draw_cursor` can run at `p`.
pub fn cursor_draw_ok(p: Point) -> (b: bool)
    ensures
        b == cursor_draw_defined(p),
{
    i32::MIN + 1 <= p.x && p.x <= i32::MAX - 11 && i32::MIN + 1 <= p.y && p.y <= i32::MAX - 9
}

} // verus!
