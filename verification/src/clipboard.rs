//! Copying: the text of a selection, and how a terminal is told of it.

use vstd::prelude::*;
use vstd::utf8::encode_utf8;
use crate::geometry::{min_int, sub_floor, sub_u16};
use crate::protocol::{texts, Cell, WindowState, WindowStateView};
use crate::text::{
    is_space, law_trimmed_end_loses_white_space_alone, push_chars, trim_end, trimmed_end,
};

verus! {

/// A selection in a window, from one place to another, each by row and column.
#[derive(Debug, Clone, Copy)]
pub struct Selection {
    pub window_id: usize,
    pub start: (u16, u16),
    pub end: (u16, u16),
}

/// The earlier of two places, in reading order.
pub open spec fn earlier(a: (u16, u16), b: (u16, u16)) -> (u16, u16) {
    if a.0 < b.0 || (a.0 == b.0 && a.1 <= b.1) {
        a
    } else {
        b
    }
}

/// The later of two places, in reading order.
pub open spec fn later(a: (u16, u16), b: (u16, u16)) -> (u16, u16) {
    if a.0 < b.0 || (a.0 == b.0 && a.1 <= b.1) {
        b
    } else {
        a
    }
}

/// The first column of a row that is selected.
pub open spec fn first_col(from: (u16, u16), row: int) -> int {
    if row == from.0 {
        from.1 as int
    } else {
        0
    }
}

/// The column behind the last one of a row that is selected.
pub open spec fn end_col(to: (u16, u16), row: int, width: int) -> int {
    if row == to.0 {
        min_int(to.1 + 1, width)
    } else {
        width
    }
}

/// The characters of the cells from one place on the screen to another.
pub open spec fn cell_text(screen: Seq<Cell>, from: int, to: int) -> Seq<char> {
    let end = min_int(to, screen.len() as int);
    if from < end {
        Seq::new((end - from) as nat, |i: int| screen[from + i].ch)
    } else {
        Seq::empty()
    }
}

/// The selected text of one row, without the white space at its end. The screen
/// has `width` columns, and the first `cols` of them are in view.
pub open spec fn row_text(
    screen: Seq<Cell>,
    width: int,
    cols: int,
    from: (u16, u16),
    to: (u16, u16),
    row: int,
) -> Seq<char> {
    trimmed_end(
        cell_text(
            screen,
            row * width + first_col(from, row),
            row * width + end_col(to, row, cols),
        ),
    )
}

/// The selected text up to a row, with line ends between rows.
pub open spec fn rows_text(
    screen: Seq<Cell>,
    width: int,
    cols: int,
    from: (u16, u16),
    to: (u16, u16),
    row: int,
) -> Seq<char>
    decreases row - from.0,
{
    if row < from.0 {
        Seq::empty()
    } else if row == from.0 {
        row_text(screen, width, cols, from, to, row)
    } else {
        rows_text(screen, width, cols, from, to, row - 1).push('\n') + row_text(
            screen,
            width,
            cols,
            from,
            to,
            row,
        )
    }
}

/// The text of a selection in a window, without the column that the scroll bar
/// covers.
pub open spec fn selected_text(win: WindowStateView, start: (u16, u16), end: (u16, u16)) -> Seq<
    char,
> {
    let from = earlier(start, end);
    let to = later(start, end);
    rows_text(
        win.screen,
        sub_floor(win.width as int, 2),
        sub_floor(win.width as int, 3),
        from,
        to,
        to.0 as int,
    )
}

/// It does not matter in which direction text is selected.
pub proof fn law_selection_has_no_direction(
    win: WindowStateView,
    start: (u16, u16),
    end: (u16, u16),
)
    ensures
        selected_text(win, start, end) == selected_text(win, end, start),
{
}

/// Reads the text of a selection.
pub fn selection_text(win: &WindowState, start: (u16, u16), end: (u16, u16)) -> (r: String)
    ensures
        r@ == selected_text(win@, start, end),
{
    let forward = start.0 < end.0 || (start.0 == end.0 && start.1 <= end.1);
    let (from, to) = if forward {
        (start, end)
    } else {
        (end, start)
    };
    let width: u64 = sub_u16(win.width, 2) as u64;
    let cols: u64 = sub_u16(win.width, 3) as u64;
    let ghost w = sub_floor(win.width as int, 2);
    let ghost n = sub_floor(win.width as int, 3);
    let mut text = String::new();
    let mut row: u64 = from.0 as u64;
    while row <= to.0 as u64
        invariant
            from.0 <= row <= to.0 + 1,
            width == w,
            cols == n,
            0 <= w <= 0xffff,
            0 <= n <= 0xffff,
            text@ == rows_text(win.screen@, w, n, from, to, row - 1),
        decreases to.0 + 1 - row,
    {
        if row > from.0 as u64 {
            text.push('\n');
        }
        let first: u64 = if row == from.0 as u64 {
            from.1 as u64
        } else {
            0
        };
        let last: u64 = if row == to.0 as u64 && to.1 as u64 + 1 < cols {
            to.1 as u64 + 1
        } else {
            cols
        };
        assert(0 <= row * width <= 0xffff * 0xffff) by (nonlinear_arith)
            requires
                0 <= row <= 0xffff,
                0 <= width <= 0xffff,
        ;
        let base: u64 = row * width;
        let begin: u64 = base + first;
        let wanted: u64 = base + last;
        let len: usize = win.screen.len();
        let stop: u64 = if wanted < len as u64 {
            wanted
        } else {
            len as u64
        };
        let ghost whole = cell_text(win.screen@, begin as int, wanted as int);
        let mut line: Vec<char> = Vec::new();
        let mut i: u64 = begin;
        while i < stop
            invariant
                begin <= i,
                begin < stop ==> i <= stop,
                stop == min_int(wanted as int, len as int),
                len == win.screen@.len(),
                whole == cell_text(win.screen@, begin as int, wanted as int),
                line@ == if begin < stop {
                    whole.take(i - begin)
                } else {
                    Seq::empty()
                },
            decreases stop - i,
        {
            line.push(win.screen[i as usize].ch);
            assert(whole.take(i + 1 - begin) =~= whole.take(i - begin).push(
                win.screen@[i as int].ch,
            ));
            i += 1;
        }
        assert(line@ =~= whole);
        trim_end(&mut line);
        let ghost before = text@;
        push_chars(&mut text, &line);
        proof {
            assert(row * width == row as int * w);
            if row == from.0 {
                assert(text@ =~= row_text(win.screen@, w, n, from, to, row as int));
            }
        }
        row += 1;
    }
    text
}

/// The text in base64 that stands for bytes, in the standard alphabet with
/// padding.
pub uninterp spec fn base64_text(bytes: Seq<u8>) -> Seq<char>;

/// `base64::Engine::encode` of the standard engine: the base64 text of some
/// bytes. The outside function overflows where that text cannot be held in
/// memory; a quarter of the address space is well below.
#[verifier::external_body]
fn encode_base64(bytes: &[u8]) -> (r: String)
    requires
        bytes@.len() <= usize::MAX / 4,
    ensures
        r@ == base64_text(bytes@),
{
    base64::Engine::encode(&base64::engine::general_purpose::STANDARD, bytes)
}

/// How a terminal is told of copied text that is given in base64: as it is, and
/// through two programs that may sit in between.
pub open spec fn copy_sequences(b64: Seq<char>) -> Seq<Seq<char>> {
    seq![
        "\x1b]52;c;"@ + b64 + "\x1b\\"@,
        "\x1bPtmux;\x1b\x1b]52;c;"@ + b64 + "\x07\x1b\\"@,
        "\x1bP\x1b]52;c;"@ + b64 + "\x07\x1b\\"@,
    ]
}

fn surround(before: &str, text: &str, after: &str) -> (r: String)
    ensures
        r@ == before@ + text@ + after@,
{
    let mut s = String::new();
    s.append(before);
    s.append(text);
    s.append(after);
    assert(s@ =~= before@ + text@ + after@);
    s
}

/// Writes how a terminal is told of copied text that is given in base64.
pub fn osc52_sequences(b64: &str) -> (r: Vec<String>)
    ensures
        texts(r@) == copy_sequences(b64@),
{
    let mut r: Vec<String> = Vec::new();
    r.push(surround("\x1b]52;c;", b64, "\x1b\\"));
    r.push(surround("\x1bPtmux;\x1b\x1b]52;c;", b64, "\x07\x1b\\"));
    r.push(surround("\x1bP\x1b]52;c;", b64, "\x07\x1b\\"));
    assert(texts(r@) =~= copy_sequences(b64@));
    r
}

/// Writes how a terminal is told of copied text: nothing for no text.
pub fn osc52_copy(text: &str) -> (r: Vec<String>)
    requires
        encode_utf8(text@).len() <= usize::MAX / 4,
    ensures
        texts(r@) == if text@.len() == 0 {
            Seq::<Seq<char>>::empty()
        } else {
            copy_sequences(base64_text(encode_utf8(text@)))
        },
{
    if text.unicode_len() == 0 {
        let r: Vec<String> = Vec::new();
        assert(texts(r@) =~= Seq::<Seq<char>>::empty());
        return r;
    }
    let b64 = encode_base64(text.as_bytes());
    osc52_sequences(b64.as_str())
}

/// Forwards to a terminal that an application copied text, given in base64.
pub fn forward_copy(b64: &str) -> (r: String)
    ensures
        r@ == "\x1b]52;c;"@ + b64@ + "\x07"@,
{
    surround("\x1b]52;c;", b64, "\x07")
}

/// Lines, one after the other, with line ends between them.
pub open spec fn joined_lines(lines: Seq<Seq<char>>) -> Seq<char>
    decreases lines.len(),
{
    if lines.len() == 0 {
        Seq::empty()
    } else if lines.len() == 1 {
        lines[0]
    } else {
        joined_lines(lines.drop_last()).push('\n') + lines.last()
    }
}

/// Whether a text is what is left of some cells without white space at their end.
pub open spec fn is_text_of(text: Seq<char>, cells: Seq<Cell>) -> bool {
    &&& text.len() <= cells.len()
    &&& forall|i: int| 0 <= i < text.len() ==> #[trigger] text[i] == cells[i].ch
    &&& forall|i: int| text.len() <= i < cells.len() ==> is_space((#[trigger] cells[i]).ch)
    &&& text.len() > 0 ==> !is_space(text.last())
}

proof fn lemma_rows_are_lines(
    screen: Seq<Cell>,
    width: int,
    cols: int,
    from: (u16, u16),
    to: (u16, u16),
    row: int,
)
    requires
        from.0 <= row <= to.0,
    ensures
        rows_text(screen, width, cols, from, to, row) == joined_lines(
            Seq::new(
                (row - from.0 + 1) as nat,
                |k: int| row_text(screen, width, cols, from, to, from.0 + k),
            ),
        ),
    decreases row - from.0,
{
    let lines = Seq::new(
        (row - from.0 + 1) as nat,
        |k: int| row_text(screen, width, cols, from, to, from.0 + k),
    );
    if row > from.0 {
        lemma_rows_are_lines(screen, width, cols, from, to, row - 1);
        let fewer = Seq::new(
            (row - 1 - from.0 + 1) as nat,
            |k: int| row_text(screen, width, cols, from, to, from.0 + k),
        );
        assert(lines.drop_last() =~= fewer);
    }
}

/// The copied text has a line for each selected row. The first row is copied from
/// where the selection begins, the last one up to where it ends, and the rows
/// between them whole, as far as they are in view and without white space at the
/// end of a line. `r1`, `c1` are where the selection begins, in reading order, and
/// `r2`, `c2` where it ends.
pub proof fn law_every_selected_row_is_copied(
    win: WindowStateView,
    r1: u16,
    c1: u16,
    r2: u16,
    c2: u16,
)
    requires
        r1 < r2 || (r1 == r2 && c1 <= c2),
        4 <= win.width,
        r2 < win.height - 2,
        c1 < win.width - 3,
        c2 < win.width - 3,
        win.screen.len() == (win.width - 2) * (win.height - 2),
    ensures
        exists|lines: Seq<Seq<char>>|
            #![trigger joined_lines(lines)]
            {
                &&& selected_text(win, (r1, c1), (r2, c2)) == joined_lines(lines)
                &&& lines.len() == r2 - r1 + 1
                &&& forall|r: int|
                    r1 <= r <= r2 ==> {
                        let start = r * (win.width - 2) + if r == r1 {
                            c1 as int
                        } else {
                            0
                        };
                        let end = r * (win.width - 2) + if r == r2 {
                            c2 + 1
                        } else {
                            win.width - 3
                        };
                        is_text_of(#[trigger] lines[r - r1], win.screen.subrange(start, end))
                    }
            },
{
    let width = win.width - 2;
    let cols = win.width - 3;
    let from = (r1, c1);
    let to = (r2, c2);
    lemma_rows_are_lines(win.screen, width, cols, from, to, r2 as int);
    let lines = Seq::new(
        (r2 - r1 + 1) as nat,
        |k: int| row_text(win.screen, width, cols, from, to, r1 + k),
    );
    assert forall|r: int| r1 <= r <= r2 implies {
        let start = r * (win.width - 2) + if r == r1 {
            c1 as int
        } else {
            0
        };
        let end = r * (win.width - 2) + if r == r2 {
            c2 + 1
        } else {
            win.width - 3
        };
        is_text_of(#[trigger] lines[r - r1], win.screen.subrange(start, end))
    } by {
        let start = r * width + if r == r1 {
            c1 as int
        } else {
            0
        };
        let end = r * width + if r == r2 {
            c2 + 1
        } else {
            cols
        };
        assert(0 <= r * width && r * width + width <= win.screen.len()) by (nonlinear_arith)
            requires
                0 <= r < win.height - 2,
                0 <= width,
                width == win.width - 2,
                win.screen.len() == (win.width - 2) * (win.height - 2),
        ;
        let cells = win.screen.subrange(start, end);
        let chars = cell_text(win.screen, start, end);
        assert(start < end);
        assert(chars.len() == cells.len());
        law_trimmed_end_loses_white_space_alone(chars);
        let text = trimmed_end(chars);
        assert(lines[r - r1] == row_text(win.screen, width, cols, from, to, r));
        assert(row_text(win.screen, width, cols, from, to, r) == text);
        assert forall|i: int| 0 <= i < text.len() implies #[trigger] text[i] == cells[i].ch by {
            assert(text[i] == chars.take(text.len() as int)[i]);
            assert(chars[i] == win.screen[start + i].ch);
        }
        assert forall|i: int| text.len() <= i < cells.len() implies is_space(
            (#[trigger] cells[i]).ch,
        ) by {
            assert(is_space(chars[i]));
        }
    }
    assert(selected_text(win, (r1, c1), (r2, c2)) == joined_lines(lines));
}

/// Whether a text ends in another one.
pub open spec fn ends_in(text: Seq<char>, end: Seq<char>) -> bool {
    end.len() <= text.len() && text.skip(text.len() - end.len()) == end
}

/// A terminal is told of copied text by the text in base64, behind the mark that
/// sets the clipboard, and each sequence is ended.
pub proof fn law_copied_text_is_in_every_sequence(b64: Seq<char>, i: int)
    requires
        0 <= i < copy_sequences(b64).len(),
    ensures
        copy_sequences(b64).len() == 3,
        exists|before: Seq<char>, after: Seq<char>|
            #![trigger before + b64 + after]
            copy_sequences(b64)[i] == before + b64 + after && ends_in(before, "]52;c;"@)
                && before[0] == '\x1b' && ends_in(after, "\x1b\\"@),
{
    reveal_strlit("\x1b]52;c;");
    reveal_strlit("\x1bPtmux;\x1b\x1b]52;c;");
    reveal_strlit("\x1bP\x1b]52;c;");
    reveal_strlit("]52;c;");
    reveal_strlit("\x1b\\");
    reveal_strlit("\x07\x1b\\");
    let before = if i == 0 {
        "\x1b]52;c;"@
    } else if i == 1 {
        "\x1bPtmux;\x1b\x1b]52;c;"@
    } else {
        "\x1bP\x1b]52;c;"@
    };
    let after = if i == 0 {
        "\x1b\\"@
    } else {
        "\x07\x1b\\"@
    };
    assert(copy_sequences(b64)[i] == before + b64 + after);
    assert(before.skip(before.len() - 6) =~= "]52;c;"@);
    assert(after.skip(after.len() - 2) =~= "\x1b\\"@);
}

} // verus!
