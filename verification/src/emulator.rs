//! The emulator: it takes what an application writes, and keeps the rows that
//! scroll off its screen.

use vstd::prelude::*;
use crate::geometry::min_int;
use crate::screen::{
    resized_rows, screen_alternate, screen_cursor, screen_cursor_hidden, screen_height,
    screen_history, screen_limit, screen_mouse_mode, screen_narrow, screen_offset,
    screen_other_cursor, screen_other_rows, screen_reach, screen_rows, screen_whole, screen_width,
    CellData, MouseMode,
};

verus! {

/// `vt100::Parser`, an emulated terminal.
#[verifier::external_body]
pub struct Emulator {
    parser: vt100::Parser,
}

/// An emulator that nothing was written to yet.
pub uninterp spec fn emulator_new(rows: u16, cols: u16, limit: usize) -> Emulator;

/// An emulator after some more output.
pub uninterp spec fn emulator_after(e: Emulator, output: Seq<u8>) -> Emulator;

/// An emulator with its view scrolled back.
pub uninterp spec fn emulator_scrolled(e: Emulator, rows: nat) -> Emulator;

/// An emulator with another size.
pub uninterp spec fn emulator_resized(e: Emulator, rows: u16, cols: u16) -> Emulator;

/// The screen of an emulator.
pub uninterp spec fn emulator_screen(e: Emulator) -> vt100::Screen;

/// What the screen of a new emulator is.
pub open spec fn is_blank(s: vt100::Screen, rows: int, cols: int, limit: int) -> bool {
    &&& screen_rows(s) == resized_rows(Seq::empty(), rows, cols)
    &&& screen_other_rows(s) == Seq::<Seq<CellData>>::empty()
    &&& screen_history(s) == Seq::<Seq<CellData>>::empty()
    &&& screen_limit(s) == limit
    &&& screen_offset(s) == 0
    &&& screen_cursor(s) == (0u16, 0u16)
    &&& !screen_cursor_hidden(s)
    &&& screen_mouse_mode(s) == MouseMode::Off
    &&& !screen_alternate(s)
}

/// What scrolling the view and resizing leave as it is.
pub open spec fn same_history(a: vt100::Screen, b: vt100::Screen) -> bool {
    &&& screen_history(a) == screen_history(b)
    &&& screen_limit(a) == screen_limit(b)
    &&& screen_cursor_hidden(a) == screen_cursor_hidden(b)
    &&& screen_mouse_mode(a) == screen_mouse_mode(b)
    &&& screen_alternate(a) == screen_alternate(b)
}

/// Whether two screens have as many rows and columns.
pub open spec fn same_size(a: vt100::Screen, b: vt100::Screen) -> bool {
    screen_height(a) == screen_height(b) && screen_width(a) == screen_width(b)
}

/// The last rows of some, at most `n`.
pub open spec fn newest(rows: Seq<Seq<CellData>>, n: int) -> Seq<Seq<CellData>> {
    if rows.len() <= n {
        rows
    } else {
        rows.skip(rows.len() - n)
    }
}

/// Whether output consists of ASCII characters.
pub open spec fn is_ascii(output: Seq<u8>) -> bool {
    forall|i: int| 0 <= i < output.len() ==> #[trigger] output[i] < 0x80
}

/// Whether one byte of output wraps no line, wherever in a sequence it comes: it
/// is a control character, or no character of the widest kind is wider than what
/// is left of the line, or it can complete an ASCII character at most and the
/// line is not full.
pub open spec fn wraps_nothing(s: vt100::Screen, b: u8) -> bool {
    ||| b < 0x20
    ||| screen_cursor(s).1 + 3 <= screen_width(s)
    ||| b < 0x80 && screen_cursor(s).1 < screen_width(s)
}

/// Whether output is one whole control sequence: ESC, a bracket, parameters and a
/// final byte. It writes no character.
pub open spec fn is_sequence(output: Seq<u8>) -> bool {
    &&& 3 <= output.len()
    &&& output[0] == 0x1b
    &&& output[1] == 0x5b
    &&& forall|i: int| 2 <= i < output.len() - 1 ==> 0x20 <= #[trigger] output[i] <= 0x3f
    &&& 0x40 <= output.last() <= 0x7e
}

/// Whether output can be written to a screen on which no wide character is cut in
/// half: a screen of one or two columns takes ASCII alone, one of more than 65527
/// columns no tabulator, and one of a single row no more than a control sequence,
/// or a byte that wraps nothing, at a time.
pub open spec fn fits(s: vt100::Screen, output: Seq<u8>) -> bool {
    &&& 3 <= screen_width(s) || is_ascii(output)
    &&& screen_width(s) <= 65527 || !output.contains(9)
    &&& 2 <= screen_height(s) || is_sequence(output) || (output.len() == 1 && wraps_nothing(
        s,
        output[0],
    ))
}

/// Whether more rows scrolled off the main screen, and a view that was scrolled
/// back moved with the rows that it showed.
pub open spec fn scrolled_off(a: vt100::Screen, b: vt100::Screen, more: Seq<Seq<CellData>>) -> bool {
    &&& screen_history(b) == newest(screen_history(a) + more, screen_limit(a) as int)
    &&& screen_offset(b) == if screen_offset(a) == 0 {
        0
    } else {
        min_int(screen_history(b).len() as int, (screen_offset(a) + more.len()) as int)
    }
}

/// What one byte of output, or one control sequence, can do to the history: rows
/// scroll off the main screen, or nothing happens on the alternate screen, or the
/// other screen comes up, or the terminal starts over.
pub open spec fn one_step_on(a: vt100::Screen, b: vt100::Screen) -> bool {
    ||| !screen_alternate(a) && !screen_alternate(b) && exists|more: Seq<Seq<CellData>>|
        scrolled_off(a, b, more)
    ||| screen_alternate(a) && screen_alternate(b) && screen_history(b) == screen_history(a)
    ||| screen_alternate(a) != screen_alternate(b) && screen_history(b) == screen_history(a)
        && screen_offset(b) == 0
    ||| !screen_alternate(b) && screen_history(b).len() == 0 && screen_offset(b) == 0
}

/// The sequence that brings up the alternate screen, or the main one, and changes
/// nothing on either.
pub open spec fn switch_sequence(alternate: bool) -> Seq<u8> {
    seq![
        0x1b,
        0x5b,
        0x3f,
        0x34,
        0x37,
        if alternate {
            0x68
        } else {
            0x6c
        },
    ]
}

/// Whether the main and the alternate screen changed places. An alternate screen
/// that was not used before is blank.
pub open spec fn switched(a: vt100::Screen, b: vt100::Screen) -> bool {
    &&& screen_alternate(b) != screen_alternate(a)
    &&& screen_rows(b) == if screen_other_rows(a).len() == 0 {
        resized_rows(Seq::empty(), screen_height(a) as int, screen_width(a) as int)
    } else {
        screen_other_rows(a)
    }
    &&& screen_other_rows(b) == screen_rows(a)
    &&& screen_cursor(b) == screen_other_cursor(a)
    &&& screen_other_cursor(b) == screen_cursor(a)
    &&& screen_history(b) == screen_history(a)
    &&& screen_cursor_hidden(b) == screen_cursor_hidden(a)
    &&& screen_mouse_mode(b) == screen_mouse_mode(a)
    &&& screen_offset(b) == 0
}

/// A number in a sequence, with five digits.
pub open spec fn five_digits(n: int) -> Seq<u8> {
    seq![
        (0x30 + n / 10000 % 10) as u8,
        (0x30 + n / 1000 % 10) as u8,
        (0x30 + n / 100 % 10) as u8,
        (0x30 + n / 10 % 10) as u8,
        (0x30 + n % 10) as u8,
    ]
}

/// The sequences that move the cursor to a row and then to a column, which no
/// mode of the terminal changes.
pub open spec fn move_sequence(row: int, col: int) -> Seq<u8> {
    seq![0x1bu8, 0x5b] + five_digits(row + 1) + seq![0x64u8, 0x1b, 0x5b] + five_digits(col + 1)
        + seq![0x47u8]
}

/// The sequences that move the cursor and erase the character there.
pub open spec fn erase_sequence(row: int, col: int) -> Seq<u8> {
    move_sequence(row, col) + seq![0x1bu8, 0x5b, 0x58]
}

/// Whether nothing changed but rows of the screen that is drawn on, and the
/// cursor, which is at a row and column.
pub open spec fn drawn_at(a: vt100::Screen, b: vt100::Screen, row: int, col: int) -> bool {
    &&& screen_cursor(b) == (row as u16, col as u16)
    &&& screen_other_rows(b) == screen_other_rows(a)
    &&& screen_other_cursor(b) == screen_other_cursor(a)
    &&& screen_offset(b) == screen_offset(a)
    &&& same_history(b, a)
}

/// Whether a cell holds nothing, in whatever colour.
pub open spec fn is_erased(c: CellData) -> bool {
    c.text.len() == 0 && !c.wide && !c.second
}

/// Whether rows are others with the two cells of a wide character erased.
pub open spec fn wide_erased(
    a: Seq<Seq<CellData>>,
    b: Seq<Seq<CellData>>,
    row: int,
    col: int,
) -> bool {
    &&& b.len() == a.len()
    &&& forall|i: int| 0 <= i < a.len() && i != row ==> #[trigger] b[i] == a[i]
    &&& b[row].len() == a[row].len()
    &&& forall|j: int|
        0 <= j < a[row].len() && j != col && j != col + 1 ==> #[trigger] b[row][j] == a[row][j]
    &&& is_erased(b[row][col])
    &&& is_erased(b[row][col + 1])
}

impl Emulator {
    /// `vt100::Parser::new`: a terminal of the given size that keeps at most
    /// `limit` rows of history. It is blank. A size of zero makes the outside
    /// function overflow.
    #[verifier::external_body]
    pub(crate) fn new(rows: u16, cols: u16, limit: usize) -> (r: Emulator)
        requires
            1 <= rows,
            1 <= cols,
        ensures
            r == emulator_new(rows, cols, limit),
            is_blank(emulator_screen(r), rows as int, cols as int, limit as int),
    {
        Emulator { parser: vt100::Parser::new(rows, cols, limit) }
    }

    /// `vt100::Parser::process`: takes more output. What comes of it is a
    /// function of the terminal as it was and of the output.
    ///
    /// The outside function fails where a character wider than the screen comes
    /// (the widest has three columns), where a line wraps in a single row, at a
    /// tabulator behind column 65527, and in places where one half of a wide
    /// character is without the other.
    ///
    /// The size and the limit of the history stay, and the limit is kept to; no
    /// wide character is cut in half, and ASCII output brings none. What is said
    /// beyond that is what one byte or control sequence can do to the history, and
    /// what the sequences do that move the cursor, erase a wide character, and
    /// switch to the other screen.
    #[verifier::external_body]
    pub(crate) fn process(&mut self, output: &[u8])
        requires
            screen_whole(emulator_screen(*old(self))),
            fits(emulator_screen(*old(self)), output@),
        ensures
            *final(self) == emulator_after(*old(self), output@),
            same_size(emulator_screen(*final(self)), emulator_screen(*old(self))),
            screen_whole(emulator_screen(*final(self))),
            screen_limit(emulator_screen(*final(self))) == screen_limit(
                emulator_screen(*old(self)),
            ),
            screen_history(emulator_screen(*final(self))).len() <= screen_limit(
                emulator_screen(*final(self)),
            ),
            screen_offset(emulator_screen(*final(self))) <= screen_reach(
                emulator_screen(*final(self)),
            ),
            screen_narrow(emulator_screen(*old(self))) && is_ascii(output@) ==> screen_narrow(
                emulator_screen(*final(self)),
            ),
            output@.len() == 1 || is_sequence(output@) ==> one_step_on(
                emulator_screen(*old(self)),
                emulator_screen(*final(self)),
            ),
            forall|row: int, col: int|
                #![trigger move_sequence(row, col)]
                0 <= row < screen_height(emulator_screen(*old(self))) && 0 <= col < screen_width(
                    emulator_screen(*old(self)),
                ) && output@ == move_sequence(row, col) ==> drawn_at(
                    emulator_screen(*old(self)),
                    emulator_screen(*final(self)),
                    row,
                    col,
                ) && screen_rows(emulator_screen(*final(self))) == screen_rows(
                    emulator_screen(*old(self)),
                ),
            forall|row: int, col: int|
                #![trigger erase_sequence(row, col)]
                0 <= row < screen_height(emulator_screen(*old(self))) && 0 <= col < screen_width(
                    emulator_screen(*old(self)),
                ) && output@ == erase_sequence(row, col) && screen_rows(
                    emulator_screen(*old(self)),
                )[row][col].wide ==> drawn_at(
                    emulator_screen(*old(self)),
                    emulator_screen(*final(self)),
                    row,
                    col,
                ) && wide_erased(
                    screen_rows(emulator_screen(*old(self))),
                    screen_rows(emulator_screen(*final(self))),
                    row,
                    col,
                ),
            output@ == switch_sequence(!screen_alternate(emulator_screen(*old(self)))) ==> switched(
                emulator_screen(*old(self)),
                emulator_screen(*final(self)),
            ),
    {
        self.parser.process(output)
    }

    /// `vt100::Parser::screen`: the screen of the terminal.
    #[verifier::external_body]
    pub(crate) fn screen(&self) -> (r: &vt100::Screen)
        ensures
            *r == emulator_screen(*self),
    {
        self.parser.screen()
    }

    /// `vt100::Screen::set_scrollback`: scrolls the view back by a number of
    /// rows, or as far as it can be. Nothing else changes, so where the view was
    /// before makes no difference, and scrolling to where it is changes nothing.
    #[verifier::external_body]
    pub(crate) fn set_scrollback(&mut self, rows: usize)
        ensures
            *final(self) == emulator_scrolled(*old(self), rows as nat),
            forall|n: nat| #[trigger]
                emulator_scrolled(*final(self), n) == emulator_scrolled(*old(self), n),
            emulator_scrolled(*old(self), screen_offset(emulator_screen(*old(self)))) == *old(self),
            screen_offset(emulator_screen(*final(self))) == min_int(
                rows as int,
                screen_reach(emulator_screen(*old(self))) as int,
            ),
            screen_rows(emulator_screen(*final(self))) == screen_rows(emulator_screen(*old(self))),
            screen_other_rows(emulator_screen(*final(self))) == screen_other_rows(
                emulator_screen(*old(self)),
            ),
            screen_cursor(emulator_screen(*final(self))) == screen_cursor(
                emulator_screen(*old(self)),
            ),
            screen_other_cursor(emulator_screen(*final(self))) == screen_other_cursor(
                emulator_screen(*old(self)),
            ),
            same_history(emulator_screen(*final(self)), emulator_screen(*old(self))),
    {
        self.parser.screen_mut().set_scrollback(rows)
    }

    /// `vt100::Screen::set_size`: cuts off or fills up the rows of the main and
    /// of the alternate screen, and moves the cursor inside. History, view and
    /// modes stay. A size of zero makes the outside function overflow.
    #[verifier::external_body]
    pub(crate) fn set_size(&mut self, rows: u16, cols: u16)
        requires
            1 <= rows,
            1 <= cols,
        ensures
            *final(self) == emulator_resized(*old(self), rows, cols),
            screen_rows(emulator_screen(*final(self))) == resized_rows(
                screen_rows(emulator_screen(*old(self))),
                rows as int,
                cols as int,
            ),
            screen_other_rows(emulator_screen(*final(self))) == resized_rows(
                screen_other_rows(emulator_screen(*old(self))),
                rows as int,
                cols as int,
            ),
            screen_offset(emulator_screen(*final(self))) == screen_offset(
                emulator_screen(*old(self)),
            ),
            screen_cursor(emulator_screen(*final(self))) == (
                min_int(screen_cursor(emulator_screen(*old(self))).0 as int, rows - 1) as u16,
                min_int(screen_cursor(emulator_screen(*old(self))).1 as int, cols - 1) as u16,
            ),
            same_history(emulator_screen(*final(self)), emulator_screen(*old(self))),
    {
        self.parser.screen_mut().set_size(rows, cols)
    }
}

} // verus!
