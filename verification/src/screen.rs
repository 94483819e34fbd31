//! What a terminal shows: the emulated screen, read cell by cell.

use vstd::prelude::*;
use vstd::arithmetic::div_mod::lemma_fundamental_div_mod_converse;
use vt100::Color;
use crate::color::{ansi_to_rgb, palette};
use crate::geometry::{min_int, sub_floor};
use crate::protocol::{law_attributes_are_told_apart, Cell};

verus! {

/// `vt100::Screen`, the state of an emulated terminal.
#[verifier::external_type_specification]
#[verifier::external_body]
pub struct ExScreen(vt100::Screen);

/// A colour as an application set it.
#[derive(Debug, Clone, Copy, PartialEq, Eq, Structural)]
pub enum Hue {
    Default,
    Indexed(u8),
    Rgb(u8, u8, u8),
}

/// Which mouse events an application asked for.
#[derive(Debug, Clone, Copy, PartialEq, Eq, Structural)]
pub enum MouseMode {
    Off,
    Press,
    PressRelease,
    ButtonMotion,
    AnyMotion,
}

/// A cell of the emulated screen.
pub struct VtCell {
    pub text: String,
    pub fg: Hue,
    pub bg: Hue,
    pub bold: bool,
    pub italic: bool,
    pub underline: bool,
    pub wide: bool,
    pub second: bool,
}

/// What a cell of the emulated screen holds.
#[verifier::ext_equal]
pub struct CellData {
    pub text: Seq<char>,
    pub fg: Hue,
    pub bg: Hue,
    pub bold: bool,
    pub italic: bool,
    pub underline: bool,
    /// Whether it is the first half of a character that takes two cells.
    pub wide: bool,
    /// Whether it is the second half of such a character.
    pub second: bool,
}

impl View for VtCell {
    type V = CellData;

    open spec fn view(&self) -> CellData {
        CellData {
            text: self.text@,
            fg: self.fg,
            bg: self.bg,
            bold: self.bold,
            italic: self.italic,
            underline: self.underline,
            wide: self.wide,
            second: self.second,
        }
    }
}

/// The rows that the application draws on, top to bottom.
pub uninterp spec fn screen_rows(s: vt100::Screen) -> Seq<Seq<CellData>>;

/// The rows that have scrolled off the top of the main screen, oldest first.
pub uninterp spec fn screen_history(s: vt100::Screen) -> Seq<Seq<CellData>>;

/// By how many rows the view is scrolled back.
pub uninterp spec fn screen_offset(s: vt100::Screen) -> nat;

/// Row and column of the cursor.
pub uninterp spec fn screen_cursor(s: vt100::Screen) -> (u16, u16);

/// Whether the application hides the cursor.
pub uninterp spec fn screen_cursor_hidden(s: vt100::Screen) -> bool;

/// Which mouse events the application asked for.
pub uninterp spec fn screen_mouse_mode(s: vt100::Screen) -> MouseMode;

/// The text in view, as plain lines.
pub uninterp spec fn screen_text(s: vt100::Screen) -> Seq<char>;

/// Whether the application draws on the alternate screen, from which no row is
/// kept.
pub uninterp spec fn screen_alternate(s: vt100::Screen) -> bool;

/// How many rows of history are kept at most.
pub uninterp spec fn screen_limit(s: vt100::Screen) -> nat;

/// The rows of the screen, main or alternate, that is not drawn on now. There are
/// none before the alternate screen is first used.
pub uninterp spec fn screen_other_rows(s: vt100::Screen) -> Seq<Seq<CellData>>;

/// Row and column of the cursor of the screen that is not drawn on now.
pub uninterp spec fn screen_other_cursor(s: vt100::Screen) -> (u16, u16);

/// How many rows the application draws on.
pub open spec fn screen_height(s: vt100::Screen) -> nat {
    screen_rows(s).len()
}

/// How many columns the application draws on.
pub open spec fn screen_width(s: vt100::Screen) -> nat {
    screen_rows(s)[0].len()
}

/// Whether a row has a width, and each half of a wide character in it is next to
/// its other half.
pub open spec fn whole_row(row: Seq<CellData>, width: int) -> bool {
    &&& row.len() == width
    &&& forall|i: int|
        0 <= i < width && #[trigger] row[i].wide ==> i + 1 < width && row[i + 1].second
    &&& forall|i: int| 0 <= i < width && #[trigger] row[i].second ==> 0 < i && row[i - 1].wide
}

/// Whether all rows are whole.
pub open spec fn whole_rows(rows: Seq<Seq<CellData>>, width: int) -> bool {
    forall|i: int| 0 <= i < rows.len() ==> whole_row(#[trigger] rows[i], width)
}

/// Whether there are rows and columns, the cursor is in one of the rows, and no
/// wide character is cut in half, on the main and on the alternate screen.
pub open spec fn screen_whole(s: vt100::Screen) -> bool {
    &&& 1 <= screen_height(s)
    &&& 1 <= screen_width(s)
    &&& screen_cursor(s).0 < screen_height(s)
    &&& screen_other_rows(s).len() == 0 || screen_other_rows(s).len() == screen_height(s)
    &&& whole_rows(screen_rows(s), screen_width(s) as int)
    &&& whole_rows(screen_other_rows(s), screen_width(s) as int)
}

/// Whether no cell holds a half of a wide character.
pub open spec fn narrow_rows(rows: Seq<Seq<CellData>>) -> bool {
    forall|i: int, j: int|
        0 <= i < rows.len() && 0 <= j < rows[i].len() ==> !(#[trigger] rows[i][j]).wide
            && !rows[i][j].second
}

/// Whether there is no wide character on the main or the alternate screen.
pub open spec fn screen_narrow(s: vt100::Screen) -> bool {
    narrow_rows(screen_rows(s)) && narrow_rows(screen_other_rows(s))
}

/// How far the view can be scrolled back.
pub open spec fn screen_reach(s: vt100::Screen) -> nat {
    if screen_alternate(s) {
        0
    } else {
        screen_history(s).len()
    }
}

/// The rows in view: as many rows of history as the view is scrolled back by,
/// then the first rows of the drawing area.
pub open spec fn visible_rows(s: vt100::Screen) -> Seq<Seq<CellData>> {
    let history = screen_history(s);
    let rows = screen_rows(s);
    let back = screen_offset(s) as int;
    let old = history.skip(history.len() - back);
    old.take(min_int(old.len() as int, rows.len() as int)) + rows.take(
        sub_floor(rows.len() as int, back),
    )
}

/// The cell in view at a row and column, if there is one.
pub open spec fn cell_at(s: vt100::Screen, row: int, col: int) -> Option<CellData> {
    let rows = visible_rows(s);
    if 0 <= row < rows.len() && 0 <= col < rows[row].len() {
        Some(rows[row][col])
    } else {
        None
    }
}

/// A cell that nothing was written to.
pub open spec fn empty_cell() -> CellData {
    CellData {
        text: Seq::empty(),
        fg: Hue::Default,
        bg: Hue::Default,
        bold: false,
        italic: false,
        underline: false,
        wide: false,
        second: false,
    }
}

/// Rows cut off or filled up with empty cells to a new size.
pub open spec fn resized_rows(rows: Seq<Seq<CellData>>, height: int, width: int) -> Seq<
    Seq<CellData>,
> {
    Seq::new(
        height as nat,
        |r: int|
            Seq::new(
                width as nat,
                |c: int|
                    if r < rows.len() && c < rows[r].len() {
                        rows[r][c]
                    } else {
                        empty_cell()
                    },
            ),
    )
}

/// Whether no row has the first half of a wide character in a column.
pub open spec fn clear_cut(rows: Seq<Seq<CellData>>, col: int) -> bool {
    forall|i: int|
        0 <= i < rows.len() && col < rows[i].len() ==> !(#[trigger] rows[i])[col].wide
}

/// Resizing cuts a wide character in half only where the new last column of a row
/// holds its first half.
pub proof fn law_resizing_keeps_rows_whole(
    rows: Seq<Seq<CellData>>,
    old_width: int,
    height: int,
    width: int,
)
    requires
        1 <= width,
        whole_rows(rows, old_width),
        clear_cut(rows, width - 1),
    ensures
        whole_rows(resized_rows(rows, height, width), width),
{
    let after = resized_rows(rows, height, width);
    assert forall|i: int| 0 <= i < after.len() implies whole_row(#[trigger] after[i], width) by {
        let row = after[i];
        assert forall|j: int| 0 <= j < width && #[trigger] row[j].wide implies j + 1 < width
            && row[j + 1].second by {
            assert(i < rows.len() && j < rows[i].len() && row[j] == rows[i][j]);
            assert(whole_row(rows[i], old_width));
            assert(rows[i][j].wide);
        }
        assert forall|j: int| 0 <= j < width && #[trigger] row[j].second implies 0 < j
            && row[j - 1].wide by {
            assert(i < rows.len() && j < rows[i].len() && row[j] == rows[i][j]);
            assert(whole_row(rows[i], old_width));
            assert(rows[i][j].second);
        }
    }
}

/// `vt100::Screen::cell`: the cell in view at a row and column, with what its
/// accessors report: its text, colours and attributes, and whether it is a half of a
/// wide character.
#[verifier::external_body]
pub(crate) fn screen_cell(s: &vt100::Screen, row: u16, col: u16) -> (r: Option<VtCell>)
    ensures
        match r {
            Some(c) => cell_at(*s, row as int, col as int) == Some(c@),
            None => cell_at(*s, row as int, col as int) is None,
        },
{
    let c = s.cell(row, col)?;
    let fg = match c.fgcolor() {
        Color::Default => Hue::Default,
        Color::Idx(i) => Hue::Indexed(i),
        Color::Rgb(r, g, b) => Hue::Rgb(r, g, b),
    };
    let bg = match c.bgcolor() {
        Color::Default => Hue::Default,
        Color::Idx(i) => Hue::Indexed(i),
        Color::Rgb(r, g, b) => Hue::Rgb(r, g, b),
    };
    let text = c.contents().to_string();
    let second = c.is_wide_continuation();
    Some(VtCell { text, fg, bg, bold: c.bold(), italic: c.italic(), underline: c.underline(),
        wide: c.is_wide(), second })
}

/// `vt100::Screen::scrollback`: by how many rows the view is scrolled back,
/// which is never more than it can be.
#[verifier::external_body]
pub(crate) fn screen_scrollback(s: &vt100::Screen) -> (r: usize)
    ensures
        r == screen_offset(*s),
        r <= screen_reach(*s),
{
    s.scrollback()
}

/// `vt100::Screen::size`: rows and columns of the drawing area.
#[verifier::external_body]
pub(crate) fn screen_size(s: &vt100::Screen) -> (r: (u16, u16))
    ensures
        r.0 == screen_height(*s),
        r.0 > 0 ==> r.1 == screen_width(*s),
{
    s.size()
}

/// `vt100::Screen::alternate_screen`: whether the application draws on the
/// alternate screen.
#[verifier::external_body]
pub(crate) fn screen_is_alternate(s: &vt100::Screen) -> (r: bool)
    ensures
        r == screen_alternate(*s),
{
    s.alternate_screen()
}

/// `vt100::Screen::cursor_position`: row and column of the cursor.
#[verifier::external_body]
pub(crate) fn screen_cursor_position(s: &vt100::Screen) -> (r: (u16, u16))
    ensures
        r == screen_cursor(*s),
{
    s.cursor_position()
}

/// `vt100::Screen::hide_cursor`: whether the application hides the cursor.
#[verifier::external_body]
pub(crate) fn screen_hides_cursor(s: &vt100::Screen) -> (r: bool)
    ensures
        r == screen_cursor_hidden(*s),
{
    s.hide_cursor()
}

/// `vt100::Screen::mouse_protocol_mode`: which mouse events the application
/// asked for.
#[verifier::external_body]
pub(crate) fn screen_mouse(s: &vt100::Screen) -> (r: MouseMode)
    ensures
        r == screen_mouse_mode(*s),
{
    match s.mouse_protocol_mode() {
        vt100::MouseProtocolMode::None => MouseMode::Off,
        vt100::MouseProtocolMode::Press => MouseMode::Press,
        vt100::MouseProtocolMode::PressRelease => MouseMode::PressRelease,
        vt100::MouseProtocolMode::ButtonMotion => MouseMode::ButtonMotion,
        vt100::MouseProtocolMode::AnyMotion => MouseMode::AnyMotion,
    }
}

/// `vt100::Screen::contents`: the text in view, as plain lines.
#[verifier::external_body]
pub(crate) fn screen_contents(s: &vt100::Screen) -> (r: String)
    ensures
        r@ == screen_text(*s),
{
    s.contents()
}

/// The colour of text: light grey where the application set none.
pub open spec fn text_color(h: Hue) -> (u8, u8, u8) {
    match h {
        Hue::Rgb(r, g, b) => (r, g, b),
        Hue::Indexed(i) => palette(i),
        Hue::Default => (200, 200, 200),
    }
}

/// The colour behind text: black where the application set none.
pub open spec fn back_color(h: Hue) -> (u8, u8, u8) {
    match h {
        Hue::Rgb(r, g, b) => (r, g, b),
        Hue::Indexed(i) => palette(i),
        Hue::Default => (0, 0, 0),
    }
}

/// The character that stands for the text of a cell.
pub open spec fn glyph(text: Seq<char>) -> char {
    if text.len() > 0 {
        text[0]
    } else {
        ' '
    }
}

/// The cell that clients see for a cell of the emulated screen; where there is
/// none, a blank.
pub open spec fn shown_cell(d: Option<CellData>) -> Cell {
    match d {
        Some(c) => Cell {
            ch: glyph(c.text),
            fg: text_color(c.fg),
            bg: back_color(c.bg),
            attrs: Cell::attr_bits(c.bold, c.italic, c.underline),
        },
        None => Cell::blank(),
    }
}

/// The part of the screen that a window of the given inner size shows, row by
/// row.
pub open spec fn shown_cells(s: vt100::Screen, width: int, height: int) -> Seq<Cell> {
    Seq::new((width * height) as nat, |i: int| shown_cell(cell_at(s, i / width, i % width)))
}

/// Where clients see the cursor.
pub open spec fn shown_cursor(s: vt100::Screen) -> Option<(u16, u16)> {
    if screen_cursor_hidden(s) {
        None
    } else {
        Some(screen_cursor(s))
    }
}

/// The first character of a text, or a blank.
pub fn first_char(text: &String) -> (c: char)
    ensures
        c == glyph(text@),
{
    if text.as_str().unicode_len() == 0 {
        ' '
    } else {
        text.as_str().get_char(0)
    }
}

fn convert_cell(c: &VtCell) -> (r: Cell)
    ensures
        r == shown_cell(Some(c@)),
{
    let fg: (u8, u8, u8) = match c.fg {
        Hue::Rgb(r, g, b) => (r, g, b),
        Hue::Indexed(i) => ansi_to_rgb(i),
        Hue::Default => (200, 200, 200),
    };
    let bg: (u8, u8, u8) = match c.bg {
        Hue::Rgb(r, g, b) => (r, g, b),
        Hue::Indexed(i) => ansi_to_rgb(i),
        Hue::Default => (0, 0, 0),
    };
    Cell::new(first_char(&c.text), fg, bg, c.bold, c.italic, c.underline)
}

/// Reads the part of the screen that a window of the given inner size shows.
pub fn read_cells(s: &vt100::Screen, width: u16, height: u16) -> (cells: Vec<Cell>)
    ensures
        cells@ == shown_cells(*s, width as int, height as int),
{
    let mut cells: Vec<Cell> = Vec::new();
    let mut row: u16 = 0;
    while row < height
        invariant
            row <= height,
            cells@.len() == width * row,
            forall|i: int|
                0 <= i < cells@.len() ==> #[trigger] cells@[i] == shown_cell(
                    cell_at(*s, i / (width as int), i % (width as int)),
                ),
        decreases height - row,
    {
        let mut col: u16 = 0;
        while col < width
            invariant
                row < height,
                col <= width,
                cells@.len() == width * row + col,
                forall|i: int|
                    0 <= i < cells@.len() ==> #[trigger] cells@[i] == shown_cell(
                        cell_at(*s, i / (width as int), i % (width as int)),
                    ),
            decreases width - col,
        {
            proof {
                assert(width * row == row * width) by (nonlinear_arith);
                lemma_fundamental_div_mod_converse(
                    width * row + col,
                    width as int,
                    row as int,
                    col as int,
                );
            }
            match screen_cell(s, row, col) {
                Some(c) => {
                    cells.push(convert_cell(&c));
                },
                None => {
                    cells.push(Cell::default());
                },
            }
            col += 1;
        }
        assert(width * (row + 1) == width * row + width) by (nonlinear_arith);
        row += 1;
    }
    assert(cells@ =~= shown_cells(*s, width as int, height as int));
    cells
}

/// Reads where the cursor is to be shown.
pub fn read_cursor(s: &vt100::Screen) -> (r: Option<(u16, u16)>)
    ensures
        r == shown_cursor(*s),
{
    if screen_hides_cursor(s) {
        None
    } else {
        Some(screen_cursor_position(s))
    }
}

/// Whether the application wants mouse events.
pub fn wants_mouse(s: &vt100::Screen) -> (r: bool)
    ensures
        r == (screen_mouse_mode(*s) != MouseMode::Off),
{
    screen_mouse(s) != MouseMode::Off
}

/// What clients see of a cell is what the application put there: its first
/// character, or a blank where it is empty, in the colours that were set, light
/// grey on black where none were, and bold, italic or underlined as it is. Where
/// the terminal has no cell, they see a blank.
pub proof fn law_shown_cell_is_the_terminals(c: CellData)
    ensures
        ({
            let seen = shown_cell(Some(c));
            &&& c.text.len() > 0 ==> seen.ch == c.text[0]
            &&& c.text.len() == 0 ==> seen.ch == ' '
            &&& match c.fg {
                Hue::Rgb(r, g, b) => seen.fg == (r, g, b),
                Hue::Indexed(i) => seen.fg == palette(i),
                Hue::Default => seen.fg == (200u8, 200u8, 200u8),
            }
            &&& match c.bg {
                Hue::Rgb(r, g, b) => seen.bg == (r, g, b),
                Hue::Indexed(i) => seen.bg == palette(i),
                Hue::Default => seen.bg == (0u8, 0u8, 0u8),
            }
            &&& seen.is_bold() == c.bold
            &&& seen.is_italic() == c.italic
            &&& seen.is_underline() == c.underline
        }),
        ({
            let none = shown_cell(None);
            &&& none.ch == ' '
            &&& none.fg == (200u8, 200u8, 200u8)
            &&& none.bg == (0u8, 0u8, 0u8)
            &&& !none.is_bold() && !none.is_italic() && !none.is_underline()
        }),
{
    law_attributes_are_told_apart(shown_cell(Some(c)), c.bold, c.italic, c.underline);
    law_attributes_are_told_apart(shown_cell(None), false, false, false);
}

/// Clients see the cursor where it is, unless the application hides it.
pub proof fn law_shown_cursor_is_the_terminals(s: vt100::Screen)
    ensures
        shown_cursor(s) is None <==> screen_cursor_hidden(s),
        shown_cursor(s) matches Some(place) ==> place == screen_cursor(s),
{
}

} // verus!
