//! The inside of a window, as it is painted.

use vstd::prelude::*;
use vstd::arithmetic::div_mod::lemma_fundamental_div_mod_converse;
use crate::geometry::{max_int, max_u16, min_int, min_u16, sub_floor, sub_u16, Rect};
use crate::protocol::{Cell, WindowState, WindowStateView};
use crate::text::{push_signed_decimal, signed_decimal};

verus! {

/// A colour of the terminal that a client runs in.
#[derive(Debug, Clone, Copy, PartialEq, Eq, Structural)]
pub enum PaintColor {
    Rgb(u8, u8, u8),
    White,
    Red,
}

/// One painted cell.
#[derive(Debug, Clone, Copy, PartialEq, Eq, Structural)]
pub struct Paint {
    pub x: u16,
    pub y: u16,
    pub ch: char,
    pub fg: PaintColor,
    pub bg: PaintColor,
    pub bold: bool,
    pub italic: bool,
    pub underline: bool,
    pub reversed: bool,
}

/// Paints the inside of a window from what the server sent.
pub struct TerminalWidget<'a> {
    pub state: &'a WindowState,
    pub selection: Option<((u16, u16), (u16, u16))>,
}

/// The cell of a window's screen that a cell of an area shows. The screen has all
/// columns inside the frame, also the last one, which the scroll bar covers.
pub open spec fn cell_shown(win: WindowStateView, area: Rect, row: int, col: int) -> Cell {
    let width = sub_floor(win.width as int, 2);
    let r = row + sub_floor(area.y as int, win.y + 1);
    let c = col + sub_floor(area.x as int, win.x + 1);
    let i = r * width + c;
    if 0 <= i < win.screen.len() {
        win.screen[i]
    } else {
        Cell::blank()
    }
}

/// Whether a place lies in a selection: the rows between its first and last are
/// selected whole, the first from the leftmost column of the selection on, and
/// the last up to its rightmost.
pub open spec fn is_selected(selection: Option<((u16, u16), (u16, u16))>, r: int, c: int) -> bool {
    match selection {
        Some((start, end)) => {
            let r1 = min_int(start.0 as int, end.0 as int);
            let r2 = max_int(start.0 as int, end.0 as int);
            let c1 = min_int(start.1 as int, end.1 as int);
            let c2 = max_int(start.1 as int, end.1 as int);
            r1 <= r <= r2 && (r == r1 ==> c1 <= c) && (r == r2 ==> c <= c2)
        },
        None => false,
    }
}

/// What is written over a window whose program ended.
pub open spec fn exit_text(code: Option<i32>) -> Seq<char> {
    " [ PROCESS EXITED WITH CODE "@ + signed_decimal(
        match code {
            Some(c) => c as int,
            None => 0,
        },
    ) + " ] "@
}

/// The character of that text at a place, where it lies there: in the middle of
/// the area, as far as there is room.
pub open spec fn exit_char(win: WindowStateView, area: Rect, x: int, y: int) -> Option<char> {
    let text = exit_text(win.exit_code);
    let start = area.x + sub_floor(area.width as int, text.len() as int) / 2;
    if !win.running && y == area.y + area.height as int / 2 && y < area.bottom_edge() && start <= x
        < start + text.len() && x < area.right_edge() {
        Some(text[x - start])
    } else {
        None
    }
}

/// Whether the cursor is shown at a place.
pub open spec fn cursor_at(win: WindowStateView, x: int, y: int) -> bool {
    match win.cursor_pos {
        Some((row, col)) => win.cursor_visible && x == win.x + 1 + col && y == win.y + 1 + row,
        None => false,
    }
}

/// One cell of an area, as it is painted.
pub open spec fn paint_at(
    win: WindowStateView,
    selection: Option<((u16, u16), (u16, u16))>,
    area: Rect,
    row: int,
    col: int,
) -> Paint {
    let x = area.x + col;
    let y = area.y + row;
    let cell = cell_shown(win, area, row, col);
    let over = exit_char(win, area, x, y);
    Paint {
        x: x as u16,
        y: y as u16,
        ch: match over {
            Some(c) => c,
            None => cell.ch,
        },
        fg: if over is Some {
            PaintColor::White
        } else {
            PaintColor::Rgb(cell.fg.0, cell.fg.1, cell.fg.2)
        },
        bg: if over is Some {
            PaintColor::Red
        } else {
            PaintColor::Rgb(cell.bg.0, cell.bg.1, cell.bg.2)
        },
        bold: over is Some || cell.is_bold(),
        italic: cell.is_italic(),
        underline: cell.is_underline(),
        reversed: is_selected(
            selection,
            row + sub_floor(area.y as int, win.y + 1),
            col + sub_floor(area.x as int, win.x + 1),
        ) || (cursor_at(win, x, y) && area.covers(x, y)),
    }
}

/// An area as it is painted, row by row.
pub open spec fn painted(
    win: WindowStateView,
    selection: Option<((u16, u16), (u16, u16))>,
    area: Rect,
) -> Seq<Paint> {
    Seq::new(
        (area.width * area.height) as nat,
        |i: int|
            paint_at(win, selection, area, i / (area.width as int), i % (area.width as int)),
    )
}

fn exit_message(code: Option<i32>) -> (r: Vec<char>)
    ensures
        r@ == exit_text(code),
{
    let mut s = String::new();
    s.append(" [ PROCESS EXITED WITH CODE ");
    let n: i64 = match code {
        Some(c) => c as i64,
        None => 0,
    };
    push_signed_decimal(&mut s, n);
    s.append(" ] ");
    assert(s@ =~= exit_text(code));
    crate::text::chars_of(s.as_str())
}

impl<'a> TerminalWidget<'a> {
    pub fn new(state: &'a WindowState) -> (r: Self)
        ensures
            r.state == state,
            r.selection is None,
    {
        TerminalWidget { state, selection: None }
    }

    pub fn with_selection(self, selection: Option<((u16, u16), (u16, u16))>) -> (r: Self)
        ensures
            r.state == self.state,
            r.selection == selection,
    {
        TerminalWidget { state: self.state, selection }
    }

    fn cell(&self, area: &Rect, row: u16, col: u16) -> (r: Cell)
        requires
            area.fits(),
            row < area.height,
            col < area.width,
        ensures
            r == cell_shown(self.state@, *area, row as int, col as int),
    {
        let win = self.state;
        let width: u64 = sub_u16(win.width, 2) as u64;
        let r: u64 = row as u64 + self.row_offset(area) as u64;
        let c: u64 = col as u64 + self.col_offset(area) as u64;
        assert(0 <= r * width <= 0x1ffff * 0xffff) by (nonlinear_arith)
            requires
                0 <= r <= 0x1ffff,
                0 <= width <= 0xffff,
        ;
        let i: u64 = r * width + c;
        let len: usize = win.screen.len();
        if i < len as u64 {
            win.screen[i as usize]
        } else {
            Cell::default()
        }
    }

    fn row_offset(&self, area: &Rect) -> (r: u16)
        ensures
            r == sub_floor(area.y as int, self.state.y + 1),
    {
        if area.y > self.state.y {
            area.y - self.state.y - 1
        } else {
            0
        }
    }

    fn col_offset(&self, area: &Rect) -> (r: u16)
        ensures
            r == sub_floor(area.x as int, self.state.x + 1),
    {
        if area.x > self.state.x {
            area.x - self.state.x - 1
        } else {
            0
        }
    }

    fn selected(&self, r: u32, c: u32) -> (b: bool)
        ensures
            b == is_selected(self.selection, r as int, c as int),
    {
        match self.selection {
            Some((start, end)) => {
                let r1: u32 = min_u16(start.0, end.0) as u32;
                let r2: u32 = max_u16(start.0, end.0) as u32;
                let c1: u32 = min_u16(start.1, end.1) as u32;
                let c2: u32 = max_u16(start.1, end.1) as u32;
                if r > r1 && r < r2 {
                    true
                } else if r == r1 && r == r2 {
                    c >= c1 && c <= c2
                } else if r == r1 {
                    c >= c1
                } else if r == r2 {
                    c <= c2
                } else {
                    false
                }
            },
            None => false,
        }
    }

    fn paint(&self, area: &Rect, message: &Vec<char>, row: u16, col: u16) -> (p: Paint)
        requires
            area.fits(),
            row < area.height,
            col < area.width,
            message@ == exit_text(self.state.exit_code),
        ensures
            p == paint_at(self.state@, self.selection, *area, row as int, col as int),
    {
        let win = self.state;
        let x: u16 = area.x + col;
        let y: u16 = area.y + row;
        let cell = self.cell(area, row, col);
        let len: usize = message.len();
        let short: u16 = if len < 0xffff {
            len as u16
        } else {
            0xffff
        };
        let start: u32 = area.x as u32 + (sub_u16(area.width, short) / 2) as u32;
        let middle: u16 = area.y + area.height / 2;
        let over: Option<char> = if !win.running && y == middle && y < area.bottom() && start
            <= x as u32 && ((x as u32 - start) as usize) < len && x < area.right() {
            Some(message[(x as u32 - start) as usize])
        } else {
            None
        };
        let r: u32 = row as u32 + self.row_offset(area) as u32;
        let c: u32 = col as u32 + self.col_offset(area) as u32;
        let cursor = match win.cursor_pos {
            Some((cursor_row, cursor_col)) => win.cursor_visible && x as u32 == win.x as u32 + 1
                + cursor_col as u32 && y as u32 == win.y as u32 + 1 + cursor_row as u32
                && area.contains(x, y),
            None => false,
        };
        let (ch, fg, bg) = match over {
            Some(ch) => (ch, PaintColor::White, PaintColor::Red),
            None => (
                cell.ch,
                PaintColor::Rgb(cell.fg.0, cell.fg.1, cell.fg.2),
                PaintColor::Rgb(cell.bg.0, cell.bg.1, cell.bg.2),
            ),
        };
        Paint {
            x,
            y,
            ch,
            fg,
            bg,
            bold: over.is_some() || cell.bold(),
            italic: cell.italic(),
            underline: cell.underline(),
            reversed: self.selected(r, c) || cursor,
        }
    }

    /// Paints an area.
    pub fn render(&self, area: Rect) -> (r: Vec<Paint>)
        requires
            area.fits(),
        ensures
            r@ == painted(self.state@, self.selection, area),
    {
        let message = exit_message(self.state.exit_code);
        let mut r: Vec<Paint> = Vec::new();
        let width: u16 = area.width;
        let mut row: u16 = 0;
        while row < area.height
            invariant
                row <= area.height,
                area.fits(),
                width == area.width,
                message@ == exit_text(self.state.exit_code),
                r@.len() == width * row,
                forall|i: int|
                    0 <= i < r@.len() ==> #[trigger] r@[i] == paint_at(
                        self.state@,
                        self.selection,
                        area,
                        i / (width as int),
                        i % (width as int),
                    ),
            decreases area.height - row,
        {
            let mut col: u16 = 0;
            while col < width
                invariant
                    row < area.height,
                    col <= width,
                    area.fits(),
                    width == area.width,
                    message@ == exit_text(self.state.exit_code),
                    r@.len() == width * row + col,
                    forall|i: int|
                        0 <= i < r@.len() ==> #[trigger] r@[i] == paint_at(
                            self.state@,
                            self.selection,
                            area,
                            i / (width as int),
                            i % (width as int),
                        ),
                decreases width - col,
            {
                proof {
                    assert(width * row == row * width) by (nonlinear_arith);
                    lemma_fundamental_div_mod_converse(
                        width * row + col,
                        width as int,
                        row as int,
                        col as int,
                    );
                }
                r.push(self.paint(&area, &message, row, col));
                col += 1;
            }
            assert(width * (row + 1) == width * row + width) by (nonlinear_arith);
            row += 1;
        }
        assert(area.width * area.height == width * area.height);
        assert(r@ =~= painted(self.state@, self.selection, area));
        r
    }
}

/// Every cell of an area is painted once, row by row, at its place. Inside a window
/// it is the cell of the window's screen there, with its character, colours and
/// attributes, where the program runs. It is reversed where it is selected, and
/// where the cursor is shown.
pub proof fn law_cells_are_painted_at_their_places(
    win: WindowStateView,
    selection: Option<((u16, u16), (u16, u16))>,
    area: Rect,
    row: int,
    col: int,
)
    requires
        area.fits(),
        0 <= row < area.height,
        0 <= col < area.width,
        win.x < area.x,
        win.y < area.y,
        area.x + area.width < win.x + win.width,
        area.y + area.height < win.y + win.height,
        win.screen.len() == (win.width - 2) * (win.height - 2),
    ensures
        ({
            let all = painted(win, selection, area);
            let p = all[row * area.width + col];
            let r = area.y + row - win.y - 1;
            let c = area.x + col - win.x - 1;
            let cell = win.screen[r * (win.width - 2) + c];
            let cursor = win.cursor_visible && win.cursor_pos == Some((r as u16, c as u16));
            &&& all.len() == area.width * area.height
            &&& p.x == area.x + col
            &&& p.y == area.y + row
            &&& win.running ==> {
                &&& p.ch == cell.ch
                &&& p.fg == PaintColor::Rgb(cell.fg.0, cell.fg.1, cell.fg.2)
                &&& p.bg == PaintColor::Rgb(cell.bg.0, cell.bg.1, cell.bg.2)
                &&& p.bold == cell.is_bold()
            }
            &&& p.italic == cell.is_italic()
            &&& p.underline == cell.is_underline()
            &&& cursor ==> p.reversed
            &&& selection is None ==> p.reversed == cursor
            &&& p.reversed == (cursor || is_selected(selection, r, c))
        }),
{
    let w = area.width as int;
    assert(0 <= row * w + col < w * area.height) by (nonlinear_arith)
        requires
            0 <= row < area.height,
            0 <= col < w,
    ;
    lemma_fundamental_div_mod_converse(row * w + col, w, row, col);
    let r = area.y + row - win.y - 1;
    let c = area.x + col - win.x - 1;
    let width = win.width - 2;
    assert(0 <= r * width + c < (win.width - 2) * (win.height - 2)) by (nonlinear_arith)
        requires
            0 <= r < win.height - 2,
            0 <= c < width,
            width == win.width - 2,
    ;
}

/// A selection within one row has the cells from one end to the other. One over
/// several rows has all cells of the rows between, those of the first row from the
/// leftmost column of the two ends on, and those of the last up to the rightmost.
/// The ends themselves are always in it.
pub proof fn law_selected_cells_lie_between_the_ends(a: (u16, u16), b: (u16, u16), r: int, c: int)
    ensures
        a.0 == b.0 ==> (is_selected(Some((a, b)), r, c) <==> r == a.0 && (a.1 <= c <= b.1 || b.1
            <= c <= a.1)),
        (a.0 < r < b.0 || b.0 < r < a.0) ==> is_selected(Some((a, b)), r, c),
        r < a.0 && r < b.0 || r > a.0 && r > b.0 ==> !is_selected(Some((a, b)), r, c),
        is_selected(Some((a, b)), a.0 as int, a.1 as int),
        is_selected(Some((a, b)), b.0 as int, b.1 as int),
        is_selected(Some((a, b)), r, c) <==> is_selected(Some((b, a)), r, c),
        !is_selected(None, r, c),
{
}

/// Over a window whose program has ended its exit code is written, white on red and
/// bold, in the middle row and as much in the middle as can be; nothing else is
/// covered by it.
pub proof fn law_exit_code_is_shown_in_the_middle(
    win: WindowStateView,
    area: Rect,
    x: int,
    y: int,
)
    requires
        area.fits(),
        area.covers(x, y),
    ensures
        ({
            let text = exit_text(win.exit_code);
            let p = paint_at(win, None, area, y - area.y, x - area.x);
            let start = area.x + sub_floor(area.width as int, text.len() as int) / 2;
            let over = !win.running && y == area.y + area.height as int / 2 && start <= x < start
                + text.len();
            &&& over ==> p.ch == text[x - start] && p.fg == PaintColor::White && p.bg
                == PaintColor::Red && p.bold
            &&& !over ==> p.fg != PaintColor::White && p.bg != PaintColor::Red
            &&& text.len() <= area.width ==> start - area.x <= area.x + area.width - (start
                + text.len()) <= start - area.x + 1
        }),
{
}

/// The text that is written then names the exit code, or zero where none is known.
pub proof fn law_exit_text_names_the_code(code: Option<i32>)
    ensures
        code matches Some(n) ==> exit_text(code) == " [ PROCESS EXITED WITH CODE "@ + (if n < 0 {
            seq!['-'] + crate::text::decimal((-n) as nat)
        } else {
            crate::text::decimal(n as nat)
        }) + " ] "@,
        code is None ==> exit_text(code) == exit_text(Some(0)),
{
}

} // verus!
