//! The screen of a window: an emulator that takes any output, and whose history
//! can be dropped.

use vstd::array::array_as_slice;
use vstd::prelude::*;
use vstd::slice::slice_subrange;
use crate::emulator::{
    emulator_after, emulator_new, emulator_resized, emulator_screen, emulator_scrolled,
    erase_sequence, fits, five_digits, is_ascii, is_blank, is_erased, is_sequence, move_sequence,
    newest, one_step_on, same_history, same_size, scrolled_off,
    switch_sequence, switched, wraps_nothing, Emulator,
};
use crate::framing::joined;
use crate::geometry::min_int;
use crate::screen::{
    clear_cut, empty_cell, law_resizing_keeps_rows_whole, narrow_rows, resized_rows, screen_alternate,
    screen_cell, screen_cursor, screen_cursor_position, screen_height, screen_history,
    screen_is_alternate, screen_limit, screen_narrow, screen_offset,
    screen_other_cursor, screen_other_rows, screen_reach, screen_rows, screen_scrollback, screen_size, screen_whole,
    screen_width, visible_rows, whole_row, whole_rows, CellData, VtCell,
};
use crate::server::SCROLLBACK_SIZE;
use crate::terminal::{
    clears_at, clears_history, is_last_clear, last_bytes, law_sequence_is_found_in_pieces,
    HistoryWatch,
};

verus! {

/// Where the last sequence in output that drops the history ends.
pub open spec fn last_clear(output: Seq<u8>) -> Option<int> {
    if clears_history(output) {
        Some(choose|end: int| is_last_clear(output, end))
    } else {
        None
    }
}

/// Whether rows are others, cut off or filled up with empty cells to a new size,
/// with the first halves of wide characters erased that were cut in half.
pub open spec fn is_cut_to(
    a: Seq<Seq<CellData>>,
    b: Seq<Seq<CellData>>,
    height: int,
    width: int,
) -> bool {
    &&& b.len() == height
    &&& forall|r: int| 0 <= r < height ==> (#[trigger] b[r]).len() == width
    &&& forall|r: int, c: int|
        0 <= r < height && 0 <= c < width ==> if r < a.len() && c < a[r].len() {
            if c == width - 1 && a[r][c].wide && c + 1 < a[r].len() {
                is_erased(#[trigger] b[r][c])
            } else {
                b[r][c] == a[r][c]
            }
        } else {
            b[r][c] == empty_cell()
        }
}

/// Whether a screen is another one cut off or filled up to a new size, on the
/// main and the alternate screen, and with its cursor moved inside.
pub open spec fn resized(a: vt100::Screen, b: vt100::Screen, rows: int, cols: int) -> bool {
    &&& is_cut_to(screen_rows(a), screen_rows(b), rows, cols)
    &&& is_cut_to(screen_other_rows(a), screen_other_rows(b), rows, cols)
    &&& screen_offset(b) == screen_offset(a)
    &&& screen_cursor(b) == (
        min_int(screen_cursor(a).0 as int, rows - 1) as u16,
        min_int(screen_cursor(a).1 as int, cols - 1) as u16,
    )
    &&& same_history(b, a)
}

/// Where the parameters of a control sequence end, from some place on.
pub open spec fn params_end(output: Seq<u8>, from: int) -> int
    decreases output.len() - from,
{
    if 0 <= from < output.len() && 0x20 <= output[from] <= 0x3f {
        params_end(output, from + 1)
    } else {
        from
    }
}

/// The length of the control sequence that output begins with, or 0 where it
/// begins with none that is complete.
pub open spec fn sequence_len(output: Seq<u8>) -> int {
    let end = params_end(output, 2);
    if 3 <= output.len() && output[0] == 0x1b && output[1] == 0x5b && end < output.len() && 0x40
        <= output[end] <= 0x7e {
        end + 1
    } else {
        0
    }
}

/// Whether something was written to the second row, at its start.
pub open spec fn written_below(s: vt100::Screen) -> bool {
    screen_rows(s)[1][0].text.len() > 0
}

/// What a `TerminalScreen` says.
#[verifier::ext_equal]
pub struct Stage {
    pub emulator: Emulator,
    /// How many rows of history there are to see, where not all of them are.
    pub shown: Option<usize>,
    /// Whether all output so far was ASCII.
    pub plain: bool,
    /// Whether the history was dropped since this was last asked.
    pub dropped: bool,
    /// The last bytes of output.
    pub tail: Seq<u8>,
}

impl Stage {
    /// The emulated screen.
    pub open spec fn seen(self) -> vt100::Screen {
        emulator_screen(self.emulator)
    }

    /// How many rows of the history of the main screen there are to see.
    pub open spec fn kept(self) -> int {
        match self.shown {
            Some(n) => n as int,
            None => screen_history(self.seen()).len() as int,
        }
    }

    /// The rows of the history of the main screen that there are to see.
    pub open spec fn history(self) -> Seq<Seq<CellData>> {
        newest(screen_history(self.seen()), self.kept())
    }

    /// How far the view can be scrolled back.
    pub open spec fn reach(self) -> int {
        if screen_alternate(self.seen()) {
            0
        } else {
            self.kept()
        }
    }

    /// No wide character is cut in half, no more rows of history are kept than
    /// there are to be, the view shows none that was dropped, and where rows were
    /// dropped that the emulator still has, there is one at least.
    pub open spec fn wf(self) -> bool {
        &&& self.tail.len() <= 3
        &&& screen_whole(self.seen())
        &&& screen_limit(self.seen()) == SCROLLBACK_SIZE
        &&& screen_history(self.seen()).len() <= SCROLLBACK_SIZE
        &&& screen_offset(self.seen()) <= self.reach()
        &&& self.plain ==> screen_narrow(self.seen())
        &&& self.shown matches Some(n) ==> n <= SCROLLBACK_SIZE
        &&& self.shown matches Some(n) ==> !screen_alternate(self.seen()) ==> n < screen_history(
            self.seen(),
        ).len()
    }

    /// With no count of rows where all of them are to be seen.
    pub open spec fn trimmed(self) -> Stage {
        match self.shown {
            Some(n) => if !screen_alternate(self.seen()) && n >= screen_history(
                self.seen(),
            ).len() {
                Stage { shown: None, ..self }
            } else {
                self
            },
            None => self,
        }
    }

    /// With the history dropped.
    pub open spec fn cleared(self) -> Stage {
        Stage {
            emulator: emulator_scrolled(self.emulator, 0),
            shown: Some(0),
            dropped: true,
            ..self
        }.trimmed()
    }

    /// After a byte of output or a control sequence. Where rows were dropped that
    /// the emulator still has, the view is scrolled back to where these end, so that it moves with
    /// them: it then says how many rows came after them.
    pub open spec fn put(self, unit: Seq<u8>) -> Stage {
        let plain = self.plain && is_ascii(unit);
        match self.shown {
            None => Stage { emulator: emulator_after(self.emulator, unit), plain, ..self },
            Some(n) => if screen_alternate(self.seen()) {
                Stage {
                    emulator: emulator_after(self.emulator, unit),
                    plain,
                    ..self
                }.trimmed()
            } else {
                let mark: int = if n == 0 {
                    1
                } else {
                    n as int
                };
                let e = emulator_after(emulator_scrolled(self.emulator, mark as nat), unit);
                let end = screen_offset(emulator_screen(e)) as int;
                if screen_alternate(emulator_screen(e)) {
                    Stage { emulator: e, plain, ..self }
                } else if end == 0 {
                    Stage { emulator: e, plain, shown: None, ..self }
                } else {
                    let more = end - mark;
                    let view = if screen_offset(self.seen()) == 0 {
                        0
                    } else {
                        screen_offset(self.seen()) + more
                    };
                    Stage {
                        emulator: emulator_scrolled(e, view as nat),
                        plain,
                        shown: Some((n + more) as usize),
                        ..self
                    }.trimmed()
                }
            },
        }
    }

    /// After a byte of output that may wrap the line of a screen with one row
    /// before its end: with a second row for it to go on in, and without the first
    /// one where it does.
    pub open spec fn put_wrapping(self, b: u8) -> Stage {
        let cols = screen_width(self.seen()) as u16;
        let two = Stage { emulator: emulator_resized(self.emulator, 2, cols), ..self }.put(
            seq![b],
        );
        let below = if written_below(two.seen()) {
            two.put(seq![0x1b, 0x5b, 0x53])
        } else {
            two
        };
        Stage { emulator: emulator_resized(below.emulator, 1, cols), ..below }
    }

    /// After a byte of output, for which the line of a screen with one row has
    /// room or is made to go on in a second one.
    pub open spec fn put_somewhere(self, b: u8) -> Stage {
        if screen_height(self.seen()) >= 2 || wraps_nothing(self.seen(), b) {
            self.put(seq![b])
        } else {
            self.put_wrapping(b)
        }
    }

    /// After a byte of output. What a screen of fewer than three or more than
    /// 65527 columns cannot take is left out, and where the line of a screen with
    /// one row is full, a new line begins.
    pub open spec fn taken(self, b: u8) -> Stage {
        let s = self.seen();
        if (screen_width(s) < 3 && b >= 0x80) || (screen_width(s) > 65527 && b == 9) {
            self
        } else if screen_height(s) == 1 && b >= 0x20 && screen_cursor(s).1 >= screen_width(s) {
            self.put(seq![13u8]).put(seq![10u8]).put_somewhere(b)
        } else {
            self.put_somewhere(b)
        }
    }

    /// Whether output can be taken as a whole.
    pub open spec fn is_easy(self) -> bool {
        self.shown is None && 2 <= screen_height(self.seen()) && 3 <= screen_width(self.seen())
            <= 65527
    }

    /// After some output, byte by byte where need be, but with control sequences
    /// as a whole.
    pub open spec fn fed(self, output: Seq<u8>) -> Stage
        decreases output.len(),
    {
        if output.len() == 0 {
            self
        } else if self.is_easy() {
            Stage {
                emulator: emulator_after(self.emulator, output),
                plain: self.plain && is_ascii(output),
                ..self
            }
        } else if sequence_len(output) > 0 {
            self.put(output.take(sequence_len(output))).fed(output.skip(sequence_len(output)))
        } else {
            self.taken(output[0]).fed(output.skip(1))
        }
    }

    /// After some output, in which the last sequence that drops the history does
    /// so, also where it began earlier.
    pub open spec fn read(self, output: Seq<u8>) -> Stage {
        let all = self.tail + output;
        let start = Stage { tail: last_bytes(all), ..self };
        match last_clear(all) {
            Some(end) => {
                let cut = end - self.tail.len();
                start.fed(output.take(cut)).cleared().fed(output.skip(cut))
            },
            None => start.fed(output),
        }
    }
}

/// Rows that were dropped stay out of sight. With the view scrolled back to where
/// these end, and `n` rows after them, it says after more output how many there
/// are then: the rows to see are those that were to see and those that scrolled
/// off since, as far as the limit of the history allows.
pub proof fn law_dropped_rows_stay_out(
    a: vt100::Screen,
    b: vt100::Screen,
    more: Seq<Seq<CellData>>,
    n: int,
)
    requires
        scrolled_off(a, b, more),
        0 <= n < screen_history(a).len() <= screen_limit(a),
        screen_offset(a) == if n == 0 {
            1
        } else {
            n
        },
    ensures
        ({
            let now = n + screen_offset(b) - screen_offset(a);
            &&& 0 <= now <= n + more.len()
            &&& newest(screen_history(b), now) == newest(
                newest(screen_history(a), n) + more,
                now,
            )
            &&& n + more.len() < screen_limit(a) ==> now == n + more.len()
        }),
{
    let now = n + screen_offset(b) - screen_offset(a);
    assert(newest(screen_history(b), now) =~= newest(newest(screen_history(a), n) + more, now));
}

/// Whether some rows more scrolled off, and are all there is to see more of the
/// history, as far as its limit allows.
pub open spec fn grown_by(a: Stage, b: Stage, more: Seq<Seq<CellData>>) -> bool {
    &&& screen_history(b.seen()) == newest(
        screen_history(a.seen()) + more,
        SCROLLBACK_SIZE as int,
    )
    &&& b.history() == newest(a.history() + more, b.kept())
    &&& a.history().len() + more.len() < SCROLLBACK_SIZE ==> b.history().len()
        == a.history().len() + more.len()
}

/// Whether a view shows the same rows still, where dropped rows lie before them: it is
/// as far behind the rows that are there to see as it was, or at their end.
pub open spec fn stays_in_view(a: Stage, b: Stage) -> bool {
    a.shown is Some && b.shown is Some && !screen_alternate(a.seen()) && !screen_alternate(
        b.seen(),
    ) ==> if screen_offset(a.seen()) == 0 {
        screen_offset(b.seen()) == 0
    } else {
        b.kept() - screen_offset(b.seen()) == a.kept() - screen_offset(a.seen())
    }
}

proof fn lemma_grown_by_none(a: Stage, b: Stage)
    requires
        screen_history(b.seen()) == screen_history(a.seen()),
        screen_history(a.seen()).len() <= SCROLLBACK_SIZE,
        a.shown == b.shown || (a.shown is Some && b.shown is None && a.shown->0 >= screen_history(
            b.seen(),
        ).len()),
    ensures
        exists|more: Seq<Seq<CellData>>| grown_by(a, b, more),
{
    let none = Seq::<Seq<CellData>>::empty();
    let all = screen_history(a.seen());
    assert(all + none =~= all);
    assert(a.history() + none =~= a.history());
    assert(b.history() =~= newest(a.history() + none, b.kept()));
    assert(b.history() =~= a.history());
    assert(grown_by(a, b, none));
}

proof fn lemma_grown_whole(a: Stage, b: Stage)
    requires
        a.shown is None,
        b.shown is None,
        a.wf(),
        one_step_on(a.seen(), b.seen()),
    ensures
        screen_history(b.seen()).len() > 0 ==> exists|more: Seq<Seq<CellData>>|
            grown_by(a, b, more),
{
    if screen_history(b.seen()) == screen_history(a.seen()) {
        lemma_grown_by_none(a, b);
    } else if screen_history(b.seen()).len() > 0 {
        let more = choose|more: Seq<Seq<CellData>>| scrolled_off(a.seen(), b.seen(), more);
        assert(a.history() =~= screen_history(a.seen()));
        assert(b.history() =~= screen_history(b.seen()));
        assert(grown_by(a, b, more));
    }
}

proof fn lemma_grown_behind_mark(a: Stage, s0: vt100::Screen, s1: vt100::Screen, b: Stage)
    requires
        a.wf(),
        a.shown is Some,
        !screen_alternate(a.seen()),
        !screen_alternate(s0),
        screen_history(s0) == screen_history(a.seen()),
        screen_limit(s0) == SCROLLBACK_SIZE,
        screen_offset(s0) == if a.shown->0 == 0 {
            1
        } else {
            a.shown->0 as nat
        },
        one_step_on(s0, s1),
        !screen_alternate(s1),
        screen_offset(s1) > 0,
        screen_history(b.seen()) == screen_history(s1),
        match b.shown {
            Some(n) => n == a.shown->0 + screen_offset(s1) - screen_offset(s0),
            None => screen_history(s1).len() <= a.shown->0 + screen_offset(s1) - screen_offset(s0),
        },
    ensures
        exists|more: Seq<Seq<CellData>>| grown_by(a, b, more),
{
    let n = a.shown->0 as int;
    let more = choose|more: Seq<Seq<CellData>>| scrolled_off(s0, s1, more);
    law_dropped_rows_stay_out(s0, s1, more, n);
    let now = n + screen_offset(s1) - screen_offset(s0);
    let all = screen_history(s1);
    assert(b.history() =~= newest(all, now));
    assert(a.history().len() == n);
    assert(b.history() =~= newest(a.history() + more, b.kept()));
    assert(grown_by(a, b, more));
}

/// On a screen of the usual size, with no history dropped, an emulator is given
/// all of the output that is read, as it is, unless a sequence in it drops the
/// history.
pub proof fn law_all_output_is_taken(st: Stage, output: Seq<u8>)
    requires
        st.shown is None,
        2 <= screen_height(st.seen()),
        3 <= screen_width(st.seen()) <= 65527,
        !clears_history(st.tail + output),
        output.len() > 0,
    ensures
        st.read(output).emulator == emulator_after(st.emulator, output),
        st.read(output).shown is None,
        st.read(output).dropped == st.dropped,
{
}

/// Output that comes in two pieces is given to an emulator piece by piece.
pub proof fn law_pieces_of_output_are_taken_in_order(st: Stage, a: Seq<u8>, b: Seq<u8>)
    requires
        st.shown is None,
        2 <= screen_height(st.seen()),
        3 <= screen_width(st.seen()) <= 65527,
        2 <= screen_height(emulator_screen(emulator_after(st.emulator, a))),
        3 <= screen_width(emulator_screen(emulator_after(st.emulator, a))) <= 65527,
        !clears_history(st.tail + a + b),
        a.len() > 0,
        b.len() > 0,
    ensures
        st.read(a).read(b).emulator == emulator_after(emulator_after(st.emulator, a), b),
{
    let all = st.tail + a;
    law_sequence_is_found_in_pieces(all, b);
    assert(all + b =~= st.tail + a + b);
}

/// Output with a sequence that drops the history is taken as if it came in two pieces,
/// the first one ending with the last such sequence.
pub proof fn law_history_is_dropped_within_output(st: Stage, a: Seq<u8>, b: Seq<u8>)
    requires
        st.tail.len() <= 3,
        is_last_clear(st.tail + (a + b), (st.tail.len() + a.len()) as int),
    ensures
        st.read(a + b) == st.read(a).read(b),
{
    lemma_clear_ends_piece(st.tail, a, b);
    lemma_read_at_clear(st, a, b);
}

/// Where output ends with a sequence that drops the history, there is nothing more to
/// scroll back to, and that is remembered until it is asked for.
pub proof fn law_no_history_is_left_behind_its_sequence(st: Stage, output: Seq<u8>)
    requires
        is_last_clear(st.tail + output, (st.tail.len() + output.len()) as int),
    ensures
        st.read(output).reach() == 0,
        st.read(output).kept() == 0,
        st.read(output).dropped,
{
    lemma_last_clear(st.tail + output, (st.tail.len() + output.len()) as int);
    assert(output.skip(output.len() as int) =~= Seq::<u8>::empty());
    assert(output.take(output.len() as int) =~= output);
}

/// With no history dropped, the emulator is given each byte of output as it is where
/// its screen has room for it. On a screen of one row whose line is full, a new line
/// begins before; where a character wraps the line before its end, it does so on a
/// screen of two rows, of which one is left after that, the lower one where something
/// was written there. What a screen of fewer than three columns cannot show is left
/// out.
pub proof fn law_bytes_are_taken_on_small_screens(st: Stage, b: u8)
    requires
        st.shown is None,
        screen_width(st.seen()) <= 65527,
    ensures
        ({
            let s = st.seen();
            let e = st.emulator;
            let cols = screen_width(s) as u16;
            let full = screen_height(s) == 1 && b >= 0x20 && screen_cursor(s).1 >= screen_width(s);
            let after = st.taken(b).emulator;
            &&& screen_width(s) < 3 && b >= 0x80 ==> after == e
            &&& screen_width(s) >= 3 || b < 0x80 ==> {
                &&& !full && (screen_height(s) >= 2 || wraps_nothing(s, b)) ==> after
                    == emulator_after(e, seq![b])
                &&& full && wraps_nothing(
                    emulator_screen(emulator_after(emulator_after(e, seq![13u8]), seq![10u8])),
                    b,
                ) ==> after == emulator_after(
                    emulator_after(emulator_after(e, seq![13u8]), seq![10u8]),
                    seq![b],
                )
                &&& !full && screen_height(s) == 1 && !wraps_nothing(s, b) ==> {
                    let two = emulator_after(emulator_resized(e, 2, cols), seq![b]);
                    if written_below(emulator_screen(two)) {
                        after == emulator_resized(
                            emulator_after(two, seq![0x1b, 0x5b, 0x53]),
                            1,
                            cols,
                        )
                    } else {
                        after == emulator_resized(two, 1, cols)
                    }
                }
            }
        }),
        st.taken(b).shown is None,
        st.taken(b).dropped == st.dropped,
{
}

proof fn lemma_last_clear(output: Seq<u8>, end: int)
    requires
        is_last_clear(output, end),
    ensures
        last_clear(output) == Some(end),
{
    let found = choose|e: int| is_last_clear(output, e);
    assert(is_last_clear(output, found));
    assert(clears_at(output, found) && clears_at(output, end));
}

proof fn lemma_clear_ends_piece(tail: Seq<u8>, a: Seq<u8>, b: Seq<u8>)
    requires
        is_last_clear(tail + (a + b), (tail.len() + a.len()) as int),
    ensures
        last_clear(tail + a) == Some((tail.len() + a.len()) as int),
        last_clear(tail + (a + b)) == Some((tail.len() + a.len()) as int),
        last_clear(last_bytes(tail + a) + b) is None,
        last_bytes(last_bytes(tail + a) + b) == last_bytes(tail + (a + b)),
{
    let all = tail + (a + b);
    let end = (tail.len() + a.len()) as int;
    let first = tail + a;
    assert(all =~= first + b);
    assert(clears_at(first, end)) by {
        assert(first.subrange(end - 4, end) =~= all.subrange(end - 4, end));
    }
    assert(is_last_clear(first, end));
    lemma_last_clear(first, end);
    lemma_last_clear(all, end);
    let rest = last_bytes(first) + b;
    if clears_history(rest) {
        let e = choose|e: int| clears_at(rest, e);
        let cut = first.len() - last_bytes(first).len();
        assert(rest.subrange(e - 4, e) =~= all.subrange(e + cut - 4, e + cut));
        assert(clears_at(all, e + cut));
    }
    law_sequence_is_found_in_pieces(first, b);
}

/// The same with other bytes remembered.
spec fn remembering(st: Stage, tail: Seq<u8>) -> Stage {
    Stage { tail, ..st }
}

proof fn lemma_put_remembering(st: Stage, tail: Seq<u8>, unit: Seq<u8>)
    ensures
        remembering(st, tail).put(unit) == remembering(st.put(unit), tail),
        st.put(unit).tail == st.tail,
{
}

proof fn lemma_put_wrapping_remembering(st: Stage, tail: Seq<u8>, b: u8)
    ensures
        remembering(st, tail).put_wrapping(b) == remembering(st.put_wrapping(b), tail),
        st.put_wrapping(b).tail == st.tail,
{
    let cols = screen_width(st.seen()) as u16;
    let two = Stage { emulator: emulator_resized(st.emulator, 2, cols), ..st };
    lemma_put_remembering(two, tail, seq![b]);
    lemma_put_remembering(two.put(seq![b]), tail, seq![0x1b, 0x5b, 0x53]);
}

proof fn lemma_put_somewhere_remembering(st: Stage, tail: Seq<u8>, b: u8)
    ensures
        remembering(st, tail).put_somewhere(b) == remembering(st.put_somewhere(b), tail),
        st.put_somewhere(b).tail == st.tail,
{
    lemma_put_remembering(st, tail, seq![b]);
    lemma_put_wrapping_remembering(st, tail, b);
}

proof fn lemma_taken_remembering(st: Stage, tail: Seq<u8>, b: u8)
    ensures
        remembering(st, tail).taken(b) == remembering(st.taken(b), tail),
        st.taken(b).tail == st.tail,
{
    lemma_put_somewhere_remembering(st, tail, b);
    lemma_put_remembering(st, tail, seq![13u8]);
    let returned = st.put(seq![13u8]);
    lemma_put_remembering(returned, tail, seq![10u8]);
    lemma_put_somewhere_remembering(returned.put(seq![10u8]), tail, b);
}

/// The bytes that are remembered do not matter for what is done with more output.
proof fn lemma_fed_remembering(st: Stage, tail: Seq<u8>, output: Seq<u8>)
    ensures
        remembering(st, tail).fed(output) == remembering(st.fed(output), tail),
        st.fed(output).tail == st.tail,
    decreases output.len(),
{
    if output.len() > 0 && !st.is_easy() {
        let n = sequence_len(output);
        if n > 0 {
            lemma_sequence_len(output);
            lemma_put_remembering(st, tail, output.take(n));
            lemma_fed_remembering(st.put(output.take(n)), tail, output.skip(n));
        } else {
            lemma_taken_remembering(st, tail, output[0]);
            lemma_fed_remembering(st.taken(output[0]), tail, output.skip(1));
        }
    }
}

proof fn lemma_read_at_clear(st: Stage, a: Seq<u8>, b: Seq<u8>)
    requires
        last_clear(st.tail + a) == Some((st.tail.len() + a.len()) as int),
        last_clear(st.tail + (a + b)) == Some((st.tail.len() + a.len()) as int),
        last_clear(last_bytes(st.tail + a) + b) is None,
        last_bytes(last_bytes(st.tail + a) + b) == last_bytes(st.tail + (a + b)),
    ensures
        st.read(a + b) == st.read(a).read(b),
{
    assert((a + b).take(a.len() as int) =~= a);
    assert((a + b).skip(a.len() as int) =~= b);
    assert(a.take(a.len() as int) =~= a);
    assert(a.skip(a.len() as int) =~= Seq::<u8>::empty());
    let t1 = last_bytes(st.tail + a);
    let t2 = last_bytes(st.tail + (a + b));
    lemma_fed_remembering(st, t1, a);
    lemma_fed_remembering(st, t2, a);
    let mid = st.fed(a).cleared();
    assert(remembering(st.fed(a), t1).cleared() == remembering(mid, t1));
    assert(remembering(st.fed(a), t2).cleared() == remembering(mid, t2));
    assert(st.read(a) == remembering(mid, t1));
    assert(st.read(a + b) == remembering(mid, t2).fed(b));
    assert(st.read(a).read(b) == remembering(mid, t2).fed(b));
}

proof fn lemma_sequence_len(output: Seq<u8>)
    ensures
        0 <= sequence_len(output) <= output.len(),
{
    lemma_params_end(output, 2);
}

proof fn lemma_params_end(output: Seq<u8>, from: int)
    ensures
        from <= params_end(output, from),
    decreases output.len() - from,
{
    if 0 <= from < output.len() && 0x20 <= output[from] <= 0x3f {
        lemma_params_end(output, from + 1);
    }
}

/// The view can be scrolled back over all of the history where none was dropped, over
/// the rows since where some was, and not at all on the alternate screen.
pub proof fn law_view_reaches_over_the_history(st: Stage)
    ensures
        screen_alternate(st.seen()) ==> st.reach() == 0,
        !screen_alternate(st.seen()) && st.shown is None ==> st.reach() == screen_history(
            st.seen(),
        ).len() && st.history() == screen_history(st.seen()),
        !screen_alternate(st.seen()) && st.wf() ==> st.reach() == st.history().len(),
        st.wf() ==> st.history() == screen_history(st.seen()).skip(
            screen_history(st.seen()).len() - st.history().len(),
        ),
{
    assert(screen_history(st.seen()).skip(0) =~= screen_history(st.seen()));
}

/// An emulator with its view scrolled back and forth.
pub open spec fn scrolled_through(e: Emulator, views: Seq<nat>) -> Emulator
    decreases views.len(),
{
    if views.len() == 0 {
        e
    } else {
        emulator_scrolled(scrolled_through(e, views.drop_last()), views.last())
    }
}

/// Whether an emulator is another one, but for where its view is.
pub open spec fn same_but_view(a: Emulator, b: Emulator) -> bool {
    exists|views: Seq<nat>| b == #[trigger] scrolled_through(a, views)
}

/// Whether one emulator comes from another by taking a piece of output, and by
/// nothing else but scrolling its view.
pub open spec fn takes_piece(a: Emulator, piece: Seq<u8>, b: Emulator) -> bool {
    exists|before: Emulator| #[trigger]
        same_but_view(a, before) && same_but_view(emulator_after(before, piece), b)
}

/// Whether emulators come from each other by taking pieces, one after the other.
pub open spec fn is_chain(chain: Seq<Emulator>, pieces: Seq<Seq<u8>>) -> bool {
    &&& chain.len() == pieces.len() + 1
    &&& forall|i: int|
        0 <= i < pieces.len() ==> takes_piece(chain[i], #[trigger] pieces[i], chain[i + 1])
}

/// Whether one emulator comes from another by taking all of some output, in
/// pieces, and by nothing else but scrolling its view.
pub open spec fn takes_output(a: Emulator, output: Seq<u8>, b: Emulator) -> bool {
    exists|chain: Seq<Emulator>, pieces: Seq<Seq<u8>>| #[trigger]
        is_chain(chain, pieces) && chain[0] == a && joined(pieces) == output && same_but_view(
            chain.last(),
            b,
        )
}

proof fn lemma_same_view(e: Emulator)
    ensures
        same_but_view(e, e),
{
    assert(scrolled_through(e, Seq::empty()) == e);
}

proof fn lemma_scrolled_once(a: Emulator, b: Emulator, n: nat)
    requires
        same_but_view(a, b),
    ensures
        same_but_view(a, emulator_scrolled(b, n)),
{
    let views = choose|views: Seq<nat>| b == #[trigger] scrolled_through(a, views);
    let more = views.push(n);
    assert(more.drop_last() =~= views);
    assert(emulator_scrolled(b, n) == scrolled_through(a, more));
}

proof fn lemma_scrolled_both(a: Emulator, b: Emulator, c: Emulator)
    requires
        same_but_view(a, b),
        same_but_view(b, c),
    ensures
        same_but_view(a, c),
{
    let views = choose|views: Seq<nat>| c == #[trigger] scrolled_through(b, views);
    lemma_scrolled_more(a, b, views);
}

proof fn lemma_scrolled_more(a: Emulator, b: Emulator, views: Seq<nat>)
    requires
        same_but_view(a, b),
    ensures
        same_but_view(a, scrolled_through(b, views)),
    decreases views.len(),
{
    if views.len() > 0 {
        lemma_scrolled_more(a, b, views.drop_last());
        lemma_scrolled_once(a, scrolled_through(b, views.drop_last()), views.last());
    }
}

proof fn lemma_joined_push(pieces: Seq<Seq<u8>>, piece: Seq<u8>)
    ensures
        joined(pieces.push(piece)) == joined(pieces) + piece,
    decreases pieces.len(),
{
    let more = pieces.push(piece);
    if pieces.len() == 0 {
        assert(more.drop_first() =~= Seq::<Seq<u8>>::empty());
        assert(joined(more.drop_first()) =~= Seq::<u8>::empty());
        assert(joined(more) =~= joined(pieces) + piece);
    } else {
        assert(more.drop_first() =~= pieces.drop_first().push(piece));
        lemma_joined_push(pieces.drop_first(), piece);
        assert(joined(more) =~= joined(pieces) + piece);
    }
}

proof fn lemma_takes_nothing(e: Emulator)
    ensures
        takes_output(e, Seq::empty(), e),
{
    lemma_same_view(e);
    assert(joined(Seq::<Seq<u8>>::empty()) == Seq::<u8>::empty());
    assert(is_chain(seq![e], Seq::<Seq<u8>>::empty()));
}

proof fn lemma_takes_more(
    a: Emulator,
    output: Seq<u8>,
    from: Emulator,
    piece: Seq<u8>,
    b: Emulator,
)
    requires
        takes_output(a, output, from),
        takes_piece(from, piece, b),
    ensures
        takes_output(a, output + piece, b),
{
    let (chain, pieces) = choose|chain: Seq<Emulator>, pieces: Seq<Seq<u8>>| #[trigger]
        is_chain(chain, pieces) && chain[0] == a && joined(pieces) == output && same_but_view(
            chain.last(),
            from,
        );
    let before = choose|before: Emulator| #[trigger]
        same_but_view(from, before) && same_but_view(emulator_after(before, piece), b);
    lemma_scrolled_both(chain.last(), from, before);
    let longer = chain.push(b);
    let more = pieces.push(piece);
    lemma_joined_push(pieces, piece);
    assert(takes_piece(chain.last(), piece, b));
    assert forall|i: int| 0 <= i < more.len() implies takes_piece(
        longer[i],
        #[trigger] more[i],
        longer[i + 1],
    ) by {
        if i < pieces.len() {
            assert(takes_piece(chain[i], pieces[i], chain[i + 1]));
        }
    }
    lemma_same_view(b);
    assert(is_chain(longer, more));
}

proof fn lemma_view_of_taken(a: Emulator, output: Seq<u8>, b: Emulator, n: nat)
    requires
        takes_output(a, output, b),
    ensures
        takes_output(a, output, emulator_scrolled(b, n)),
{
    let (chain, pieces) = choose|chain: Seq<Emulator>, pieces: Seq<Seq<u8>>| #[trigger]
        is_chain(chain, pieces) && chain[0] == a && joined(pieces) == output && same_but_view(
            chain.last(),
            b,
        );
    lemma_scrolled_once(chain.last(), b, n);
}

proof fn lemma_takes_chain(
    a: Emulator,
    output: Seq<u8>,
    chain: Seq<Emulator>,
    pieces: Seq<Seq<u8>>,
    k: int,
)
    requires
        is_chain(chain, pieces),
        takes_output(a, output, chain[0]),
        0 <= k <= pieces.len(),
    ensures
        takes_output(a, output + joined(pieces.take(k)), chain[k]),
    decreases k,
{
    if k == 0 {
        assert(pieces.take(0) =~= Seq::<Seq<u8>>::empty());
        assert(output + joined(pieces.take(0)) =~= output);
    } else {
        lemma_takes_chain(a, output, chain, pieces, k - 1);
        assert(takes_piece(chain[k - 1], pieces[k - 1], chain[k]));
        let before = output + joined(pieces.take(k - 1));
        lemma_takes_more(a, before, chain[k - 1], pieces[k - 1], chain[k]);
        assert(pieces.take(k) =~= pieces.take(k - 1).push(pieces[k - 1]));
        lemma_joined_push(pieces.take(k - 1), pieces[k - 1]);
        assert(before + pieces[k - 1] =~= output + joined(pieces.take(k)));
    }
}

proof fn lemma_takes_both(
    a: Emulator,
    first: Seq<u8>,
    b: Emulator,
    second: Seq<u8>,
    c: Emulator,
)
    requires
        takes_output(a, first, b),
        takes_output(b, second, c),
    ensures
        takes_output(a, first + second, c),
{
    let (chain, pieces) = choose|chain: Seq<Emulator>, pieces: Seq<Seq<u8>>| #[trigger]
        is_chain(chain, pieces) && chain[0] == b && joined(pieces) == second && same_but_view(
            chain.last(),
            c,
        );
    let n = pieces.len() as int;
    lemma_takes_chain(a, first, chain, pieces, n);
    assert(pieces.take(n) =~= pieces);
    let (longer, more) = choose|longer: Seq<Emulator>, more: Seq<Seq<u8>>| #[trigger]
        is_chain(longer, more) && longer[0] == a && joined(more) == first + second
            && same_but_view(longer.last(), chain[n]);
    lemma_scrolled_both(longer.last(), chain[n], c);
}

/// Taking a byte of output or a control sequence gives it to the emulator.
proof fn lemma_put_takes(a: Emulator, output: Seq<u8>, st: Stage, unit: Seq<u8>)
    requires
        takes_output(a, output, st.emulator),
    ensures
        takes_output(a, output + unit, st.put(unit).emulator),
{
    let e = st.emulator;
    lemma_same_view(e);
    match st.shown {
        None => {
            lemma_same_view(emulator_after(e, unit));
            assert(takes_piece(e, unit, emulator_after(e, unit)));
            lemma_takes_more(a, output, e, unit, emulator_after(e, unit));
        },
        Some(n) => if screen_alternate(st.seen()) {
            lemma_same_view(emulator_after(e, unit));
            assert(takes_piece(e, unit, emulator_after(e, unit)));
            lemma_takes_more(a, output, e, unit, emulator_after(e, unit));
        } else {
            let mark: int = if n == 0 {
                1
            } else {
                n as int
            };
            let before = emulator_scrolled(e, mark as nat);
            let after = emulator_after(before, unit);
            lemma_scrolled_once(e, e, mark as nat);
            lemma_same_view(after);
            assert(takes_piece(e, unit, after));
            lemma_takes_more(a, output, e, unit, after);
            let more = screen_offset(emulator_screen(after)) - mark;
            let view = if screen_offset(st.seen()) == 0 {
                0
            } else {
                screen_offset(st.seen()) + more
            };
            lemma_view_of_taken(a, output + unit, after, view as nat);
        },
    }
}

/// The screen of a window: an emulated terminal that takes any output, and whose
/// history its application and its user can have dropped.
pub struct TerminalScreen {
    pub emulator: Emulator,
    pub shown: Option<usize>,
    pub plain: bool,
    pub dropped: bool,
    pub watch: HistoryWatch,
}

impl View for TerminalScreen {
    type V = Stage;

    open spec fn view(&self) -> Stage {
        Stage {
            emulator: self.emulator,
            shown: self.shown,
            plain: self.plain,
            dropped: self.dropped,
            tail: self.watch.tail@,
        }
    }
}

/// How far the view of an emulator can be scrolled back.
fn reach_of(e: &mut Emulator) -> (n: usize)
    ensures
        n == min_int(usize::MAX as int, screen_reach(emulator_screen(*old(e))) as int),
        *final(e) == *old(e),
{
    let view: usize = screen_scrollback(e.screen());
    e.set_scrollback(usize::MAX);
    let n: usize = screen_scrollback(e.screen());
    e.set_scrollback(view);
    n
}

/// Reads a cell of the rows that are drawn on, wherever the view is.
fn drawn_cell(e: &mut Emulator, row: u16, col: u16) -> (r: Option<VtCell>)
    ensures
        *final(e) == *old(e),
        ({
            let rows = screen_rows(emulator_screen(*old(e)));
            match r {
                Some(c) => row < rows.len() && col < rows[row as int].len() && c@
                    == rows[row as int][col as int],
                None => !(row < rows.len() && col < rows[row as int].len()),
            }
        }),
{
    let ghost rows = screen_rows(emulator_screen(*e));
    let view: usize = screen_scrollback(e.screen());
    e.set_scrollback(0);
    assert(visible_rows(emulator_screen(*e)) =~= rows);
    let r = screen_cell(e.screen(), row, col);
    e.set_scrollback(view);
    r
}

/// Finds the control sequence that output begins with. Returns its length, or 0.
fn sequence_at_start(output: &[u8]) -> (n: usize)
    ensures
        n == sequence_len(output@),
        n > 0 ==> n <= output@.len() && is_sequence(output@.take(n as int)),
{
    if output.len() < 3 || output[0] != 0x1b || output[1] != 0x5b {
        return 0;
    }
    let mut i: usize = 2;
    while i < output.len() && 0x20 <= output[i] && output[i] <= 0x3f
        invariant
            2 <= i <= output@.len(),
            params_end(output@, 2) == params_end(output@, i as int),
            forall|j: int| 2 <= j < i ==> 0x20 <= #[trigger] output@[j] <= 0x3f,
        decreases output@.len() - i,
    {
        i += 1;
    }
    if i < output.len() && 0x40 <= output[i] && output[i] <= 0x7e {
        i + 1
    } else {
        0
    }
}

/// Tells whether output consists of ASCII characters.
fn all_ascii(output: &[u8]) -> (r: bool)
    ensures
        r == is_ascii(output@),
{
    let mut i: usize = 0;
    while i < output.len()
        invariant
            i <= output@.len(),
            forall|j: int| 0 <= j < i ==> #[trigger] output@[j] < 0x80,
        decreases output@.len() - i,
    {
        if output[i] >= 0x80 {
            return false;
        }
        i += 1;
    }
    true
}

/// Whole rows end in no first half of a wide character.
proof fn lemma_whole_rows_end_clear(rows: Seq<Seq<CellData>>, width: int, col: int)
    requires
        whole_rows(rows, width),
        0 <= col,
        width - 1 <= col,
    ensures
        clear_cut(rows, col),
{
    assert forall|i: int| 0 <= i < rows.len() && col < rows[i].len() implies !(
    #[trigger] rows[i])[col].wide by {
        assert(whole_row(rows[i], width));
        if rows[i][col].wide {
            assert(col + 1 < width);
        }
    }
}

/// Rows without a wide character can be cut anywhere, and have none when resized.
proof fn lemma_narrow_rows(rows: Seq<Seq<CellData>>, height: int, width: int)
    requires
        narrow_rows(rows),
        1 <= width,
    ensures
        clear_cut(rows, width - 1),
        narrow_rows(resized_rows(rows, height, width)),
{
    assert forall|i: int| 0 <= i < rows.len() && width - 1 < rows[i].len() implies !(
    #[trigger] rows[i])[width - 1].wide by {
        assert(!rows[i][width - 1].wide);
    }
    let after = resized_rows(rows, height, width);
    assert forall|i: int, j: int| 0 <= i < after.len() && 0 <= j < after[i].len() implies !(
    #[trigger] after[i][j]).wide && !after[i][j].second by {
        if i < rows.len() && j < rows[i].len() {
            assert(!rows[i][j].wide && !rows[i][j].second);
        }
    }
}

/// Where no wide character is cut in half, rows are just cut off and filled up.
proof fn lemma_resized_is_cut(rows: Seq<Seq<CellData>>, height: int, width: int)
    requires
        1 <= height,
        1 <= width,
        clear_cut(rows, width - 1),
    ensures
        is_cut_to(rows, resized_rows(rows, height, width), height, width),
{
    let after = resized_rows(rows, height, width);
    assert forall|r: int, c: int| 0 <= r < height && 0 <= c < width implies if r < rows.len() && c
        < rows[r].len() {
        if c == width - 1 && rows[r][c].wide && c + 1 < rows[r].len() {
            is_erased(#[trigger] after[r][c])
        } else {
            after[r][c] == rows[r][c]
        }
    } else {
        after[r][c] == empty_cell()
    } by {
        if r < rows.len() && c == width - 1 && c < rows[r].len() {
            assert(!rows[r][width - 1].wide);
        }
    }
}

/// Whether rows are others with more empty rows below.
spec fn is_filled(a: Seq<Seq<CellData>>, b: Seq<Seq<CellData>>, width: int) -> bool {
    &&& a.len() <= b.len()
    &&& forall|i: int| 0 <= i < b.len() ==> (#[trigger] b[i]).len() == width
    &&& forall|i: int| 0 <= i < a.len() ==> (#[trigger] a[i]).len() == width
    &&& forall|i: int, j: int|
        0 <= i < b.len() && 0 <= j < width ==> #[trigger] b[i][j] == if i < a.len() {
            a[i][j]
        } else {
            empty_cell()
        }
}

/// Whether rows are others with the wide characters erased whose first half is in
/// a column, in the first `n` rows.
spec fn is_mended_upto(a: Seq<Seq<CellData>>, b: Seq<Seq<CellData>>, col: int, n: int) -> bool {
    &&& b.len() == a.len()
    &&& forall|i: int| 0 <= i < a.len() ==> (#[trigger] b[i]).len() == a[i].len()
    &&& forall|i: int, j: int|
        0 <= i < a.len() && 0 <= j < a[i].len() ==> if i < n && a[i][col].wide && (j == col || j
            == col + 1) {
            is_erased(#[trigger] b[i][j])
        } else {
            b[i][j] == a[i][j]
        }
}

/// Whether that was done in all rows.
spec fn is_mended(a: Seq<Seq<CellData>>, b: Seq<Seq<CellData>>, col: int) -> bool {
    is_mended_upto(a, b, col, a.len() as int)
}

proof fn lemma_mended_is_cut(
    a: Seq<Seq<CellData>>,
    filled: Seq<Seq<CellData>>,
    mended: Seq<Seq<CellData>>,
    w: int,
    height: int,
    width: int,
)
    requires
        is_filled(a, filled, w),
        is_mended(filled, mended, width - 1),
        1 <= height,
        1 <= width < w,
    ensures
        clear_cut(mended, width - 1),
        is_cut_to(a, resized_rows(mended, height, width), height, width),
{
    let after = resized_rows(mended, height, width);
    assert forall|i: int| 0 <= i < mended.len() && width - 1 < mended[i].len() implies !(
    #[trigger] mended[i])[width - 1].wide by {
        let c = mended[i][width - 1];
        assert(filled[i].len() == w);
    }
    assert forall|r: int, c: int| 0 <= r < height && 0 <= c < width implies if r < a.len() && c
        < a[r].len() {
        if c == width - 1 && a[r][c].wide && c + 1 < a[r].len() {
            is_erased(#[trigger] after[r][c])
        } else {
            after[r][c] == a[r][c]
        }
    } else {
        after[r][c] == empty_cell()
    } by {
        if r < mended.len() {
            assert(mended[r].len() == filled[r].len());
            assert(filled[r].len() == w);
            assert(after[r][c] == mended[r][c]);
            let old = filled[r][width - 1];
            let cell = filled[r][c];
        }
    }
}

fn push_number(output: &mut Vec<u8>, n: u16)
    ensures
        final(output)@ == old(output)@ + five_digits(n as int),
{
    output.push(0x30 + (n / 10000 % 10) as u8);
    output.push(0x30 + (n / 1000 % 10) as u8);
    output.push(0x30 + (n / 100 % 10) as u8);
    output.push(0x30 + (n / 10 % 10) as u8);
    output.push(0x30 + (n % 10) as u8);
    assert(output@ =~= old(output)@ + five_digits(n as int));
}

fn push_move(output: &mut Vec<u8>, row: u16, col: u16)
    requires
        row < u16::MAX,
        col < u16::MAX,
    ensures
        final(output)@ == old(output)@ + move_sequence(row as int, col as int),
{
    output.push(0x1b);
    output.push(0x5b);
    push_number(output, row + 1);
    output.push(0x64);
    output.push(0x1b);
    output.push(0x5b);
    push_number(output, col + 1);
    output.push(0x47);
    assert(output@ =~= old(output)@ + move_sequence(row as int, col as int));
}

proof fn lemma_sequences_fit(row: int, col: int)
    requires
        0 <= row < 0xffff,
        0 <= col < 0xffff,
    ensures
        is_ascii(move_sequence(row, col)),
        is_ascii(erase_sequence(row, col)),
        !move_sequence(row, col).contains(9),
        !erase_sequence(row, col).contains(9),
{
    assert forall|n: int, i: int| 0 <= n && 0 <= i < 5 implies 0x30 <= #[trigger] five_digits(
        n,
    )[i] <= 0x39 by {}
    let m = move_sequence(row, col);
    let e = erase_sequence(row, col);
    assert forall|i: int| 0 <= i < m.len() implies #[trigger] m[i] < 0x80 && m[i] != 9 by {
        if 2 <= i < 7 {
            assert(m[i] == five_digits(row + 1)[i - 2]);
        } else if 10 <= i < 15 {
            assert(m[i] == five_digits(col + 1)[i - 10]);
        }
    }
    assert forall|i: int| 0 <= i < e.len() implies #[trigger] e[i] < 0x80 && e[i] != 9 by {
        if i < m.len() {
            assert(e[i] == m[i]);
        }
    }
}

impl TerminalScreen {
    pub open spec fn wf(&self) -> bool {
        self@.wf()
    }

    /// Starts with a blank screen.
    pub fn new(rows: u16, cols: u16) -> (r: Self)
        requires
            1 <= rows,
            1 <= cols,
        ensures
            r.wf(),
            r@ == (Stage {
                emulator: emulator_new(rows, cols, SCROLLBACK_SIZE),
                shown: None,
                plain: true,
                dropped: false,
                tail: Seq::empty(),
            }),
            is_blank(r@.seen(), rows as int, cols as int, SCROLLBACK_SIZE as int),
    {
        TerminalScreen {
            emulator: Emulator::new(rows, cols, SCROLLBACK_SIZE),
            shown: None,
            plain: true,
            dropped: false,
            watch: HistoryWatch::new(),
        }
    }

    /// The screen to read from.
    pub fn screen(&self) -> (r: &vt100::Screen)
        ensures
            *r == self@.seen(),
    {
        self.emulator.screen()
    }

    /// How many rows of history the view can be scrolled back by.
    pub fn history_size(&mut self) -> (n: usize)
        requires
            old(self).wf(),
        ensures
            n == old(self)@.reach(),
            *final(self) == *old(self),
    {
        if screen_is_alternate(self.emulator.screen()) {
            return 0;
        }
        match self.shown {
            Some(n) => n,
            None => reach_of(&mut self.emulator),
        }
    }

    /// Scrolls the view back.
    pub fn scroll(&mut self, offset: usize)
        requires
            old(self).wf(),
        ensures
            final(self).wf(),
            final(self)@ == (Stage {
                emulator: emulator_scrolled(
                    old(self)@.emulator,
                    min_int(offset as int, old(self)@.reach()) as nat,
                ),
                ..old(self)@
            }),
            screen_offset(final(self)@.seen()) == min_int(offset as int, old(self)@.reach()),
            screen_rows(final(self)@.seen()) == screen_rows(old(self)@.seen()),
            screen_other_rows(final(self)@.seen()) == screen_other_rows(old(self)@.seen()),
            screen_cursor(final(self)@.seen()) == screen_cursor(old(self)@.seen()),
            same_history(final(self)@.seen(), old(self)@.seen()),
    {
        let most: usize = self.history_size();
        let reached: usize = if offset < most {
            offset
        } else {
            most
        };
        self.emulator.set_scrollback(reached);
    }

    /// Forgets the count of rows where all of them are to be seen.
    fn trim(&mut self)
        requires
            screen_history(old(self)@.seen()).len() <= SCROLLBACK_SIZE,
        ensures
            final(self)@ == old(self)@.trimmed(),
            final(self).watch == old(self).watch,
    {
        if let Some(n) = self.shown {
            if !screen_is_alternate(self.emulator.screen()) && reach_of(&mut self.emulator) <= n {
                self.shown = None;
            }
        }
    }

    /// Drops the history.
    pub fn clear_history(&mut self)
        requires
            old(self).wf(),
        ensures
            final(self).wf(),
            final(self)@ == old(self)@.cleared(),
            final(self)@.history() == Seq::<Seq<CellData>>::empty(),
            final(self)@.reach() == 0,
            final(self)@.emulator == emulator_scrolled(old(self)@.emulator, 0),
            final(self)@.dropped,
            screen_rows(final(self)@.seen()) == screen_rows(old(self)@.seen()),
            screen_other_rows(final(self)@.seen()) == screen_other_rows(old(self)@.seen()),
            screen_cursor(final(self)@.seen()) == screen_cursor(old(self)@.seen()),
            same_history(final(self)@.seen(), old(self)@.seen()),
    {
        self.emulator.set_scrollback(0);
        self.shown = Some(0);
        self.dropped = true;
        self.trim();
    }

    /// Tells whether the history was dropped since this was last asked.
    pub fn take_dropped(&mut self) -> (r: bool)
        requires
            old(self).wf(),
        ensures
            final(self).wf(),
            r == old(self)@.dropped,
            final(self)@ == (Stage { dropped: false, ..old(self)@ }),
    {
        let r = self.dropped;
        self.dropped = false;
        r
    }

    /// Takes a byte of output or a control sequence.
    fn put(&mut self, output: &[u8])
        requires
            old(self).wf(),
            output@.len() == 1 || is_sequence(output@),
            fits(old(self)@.seen(), output@),
        ensures
            final(self).wf(),
            final(self)@ == old(self)@.put(output@),
            final(self).watch == old(self).watch,
            same_size(final(self)@.seen(), old(self)@.seen()),
            screen_history(final(self)@.seen()).len() > 0 ==> exists|more: Seq<Seq<CellData>>|
                grown_by(old(self)@, final(self)@, more),
            stays_in_view(old(self)@, final(self)@),
    {
        let ghost before = self@;
        self.plain = self.plain && all_ascii(output);
        match self.shown {
            None => {
                self.emulator.process(output);
                proof {
                    lemma_grown_whole(before, self@);
                }
            },
            Some(n) => {
                if screen_is_alternate(self.emulator.screen()) {
                    self.emulator.process(output);
                    self.trim();
                    proof {
                        if screen_history(self@.seen()) == screen_history(before.seen()) {
                            lemma_grown_by_none(before, self@);
                        }
                    }
                } else {
                    let view: usize = screen_scrollback(self.emulator.screen());
                    let mark: usize = if n == 0 {
                        1
                    } else {
                        n
                    };
                    self.emulator.set_scrollback(mark);
                    let ghost s0 = self@.seen();
                    self.emulator.process(output);
                    let ghost s1 = self@.seen();
                    proof {
                        if screen_alternate(s1) {
                            lemma_grown_by_none(before, self@);
                        }
                    }
                    if !screen_is_alternate(self.emulator.screen()) {
                        let end: usize = screen_scrollback(self.emulator.screen());
                        if end == 0 {
                            self.shown = None;
                        } else {
                            let more: usize = end - mark;
                            self.shown = Some(n + more);
                            let moved: usize = if view == 0 {
                                0
                            } else {
                                view + more
                            };
                            self.emulator.set_scrollback(moved);
                            self.trim();
                            proof {
                                lemma_grown_behind_mark(before, s0, s1, self@);
                            }
                        }
                    }
                }
            },
        }
    }

    /// Takes a byte of output.
    fn put_byte(&mut self, b: u8)
        requires
            old(self).wf(),
            fits(old(self)@.seen(), seq![b]),
        ensures
            final(self).wf(),
            final(self)@ == old(self)@.put(seq![b]),
            final(self).watch == old(self).watch,
            same_size(final(self)@.seen(), old(self)@.seen()),
    {
        let one: [u8; 1] = [b];
        let output: &[u8] = array_as_slice(&one);
        assert(output@ =~= seq![b]);
        self.put(output);
    }

    /// Changes the size where that cuts no wide character in half.
    fn set_size(&mut self, rows: u16, cols: u16)
        requires
            old(self).wf(),
            1 <= rows,
            1 <= cols,
            clear_cut(screen_rows(old(self)@.seen()), cols - 1),
            clear_cut(screen_other_rows(old(self)@.seen()), cols - 1),
        ensures
            final(self).wf(),
            final(self)@ == (Stage {
                emulator: emulator_resized(old(self)@.emulator, rows, cols),
                ..old(self)@
            }),
            final(self).watch == old(self).watch,
            resized(old(self)@.seen(), final(self)@.seen(), rows as int, cols as int),
            screen_rows(final(self)@.seen()) == resized_rows(
                screen_rows(old(self)@.seen()),
                rows as int,
                cols as int,
            ),
            screen_other_rows(final(self)@.seen()) == resized_rows(
                screen_other_rows(old(self)@.seen()),
                rows as int,
                cols as int,
            ),
    {
        proof {
            let s = self@.seen();
            let width = screen_width(s) as int;
            lemma_resized_is_cut(screen_rows(s), rows as int, cols as int);
            lemma_resized_is_cut(screen_other_rows(s), rows as int, cols as int);
            law_resizing_keeps_rows_whole(screen_rows(s), width, rows as int, cols as int);
            law_resizing_keeps_rows_whole(screen_other_rows(s), width, rows as int, cols as int);
            if self@.plain {
                lemma_narrow_rows(screen_rows(s), rows as int, cols as int);
                lemma_narrow_rows(screen_other_rows(s), rows as int, cols as int);
            }
        }
        self.emulator.set_size(rows, cols);
    }

    /// Changes the number of rows.
    fn set_rows(&mut self, rows: u16)
        requires
            old(self).wf(),
            1 <= rows,
        ensures
            final(self).wf(),
            final(self)@ == (Stage {
                emulator: emulator_resized(
                    old(self)@.emulator,
                    rows,
                    screen_width(old(self)@.seen()) as u16,
                ),
                ..old(self)@
            }),
            final(self).watch == old(self).watch,
            resized(
                old(self)@.seen(),
                final(self)@.seen(),
                rows as int,
                screen_width(old(self)@.seen()) as int,
            ),
            screen_rows(final(self)@.seen()) == resized_rows(
                screen_rows(old(self)@.seen()),
                rows as int,
                screen_width(old(self)@.seen()) as int,
            ),
            screen_other_rows(final(self)@.seen()) == resized_rows(
                screen_other_rows(old(self)@.seen()),
                rows as int,
                screen_width(old(self)@.seen()) as int,
            ),
    {
        let (_, cols) = screen_size(self.emulator.screen());
        proof {
            let s = self@.seen();
            lemma_whole_rows_end_clear(screen_rows(s), cols as int, cols - 1);
            lemma_whole_rows_end_clear(screen_other_rows(s), cols as int, cols - 1);
        }
        self.set_size(rows, cols);
    }

    /// Takes a byte of output that may wrap the line of a screen with one row.
    fn put_wrapping(&mut self, b: u8)
        requires
            old(self).wf(),
            screen_width(old(self)@.seen()) >= 3 || b < 0x80,
            screen_width(old(self)@.seen()) <= 65527 || b != 9,
        ensures
            final(self).wf(),
            final(self)@ == old(self)@.put_wrapping(b),
            final(self).watch == old(self).watch,
            screen_height(final(self)@.seen()) == 1,
            screen_width(final(self)@.seen()) == screen_width(old(self)@.seen()),
    {
        self.set_rows(2);
        self.put_byte(b);
        assert(whole_row(screen_rows(self@.seen())[1], screen_width(self@.seen()) as int));
        let below = match drawn_cell(&mut self.emulator, 1, 0) {
            Some(c) => c.text.as_str().unicode_len() > 0,
            None => false,
        };
        if below {
            let up: [u8; 3] = [0x1b, 0x5b, 0x53];
            let output: &[u8] = array_as_slice(&up);
            assert(output@ =~= seq![0x1bu8, 0x5b, 0x53]);
            self.put(output);
        }
        self.set_rows(1);
    }

    /// Takes a byte of output, for which the line of a screen with one row has
    /// room or is made to go on in a second one.
    fn put_somewhere(&mut self, b: u8)
        requires
            old(self).wf(),
            screen_width(old(self)@.seen()) >= 3 || b < 0x80,
            screen_width(old(self)@.seen()) <= 65527 || b != 9,
        ensures
            final(self).wf(),
            final(self)@ == old(self)@.put_somewhere(b),
            final(self).watch == old(self).watch,
            same_size(final(self)@.seen(), old(self)@.seen()),
    {
        let (rows, cols) = screen_size(self.emulator.screen());
        let (_, col) = screen_cursor_position(self.emulator.screen());
        if rows >= 2 || b < 0x20 || col as u32 + 3 <= cols as u32 || (b < 0x80 && col < cols) {
            self.put_byte(b);
        } else {
            self.put_wrapping(b);
        }
    }

    /// Takes a byte of output.
    fn take(&mut self, b: u8)
        requires
            old(self).wf(),
        ensures
            final(self).wf(),
            final(self)@ == old(self)@.taken(b),
            final(self).watch == old(self).watch,
            same_size(final(self)@.seen(), old(self)@.seen()),
    {
        let (rows, cols) = screen_size(self.emulator.screen());
        if (cols < 3 && b >= 0x80) || (cols > 65527 && b == 9) {
            return;
        }
        let (_, col) = screen_cursor_position(self.emulator.screen());
        if rows == 1 && b >= 0x20 && col >= cols {
            self.put_byte(13);
            self.put_byte(10);
        }
        self.put_somewhere(b);
    }

    /// Takes output without looking for the sequence that drops the history.
    fn feed(&mut self, output: &[u8])
        requires
            old(self).wf(),
        ensures
            final(self).wf(),
            final(self)@ == old(self)@.fed(output@),
            final(self).watch == old(self).watch,
            same_size(final(self)@.seen(), old(self)@.seen()),
            2 <= screen_height(old(self)@.seen()) && 3 <= screen_width(old(self)@.seen()) <= 65527
                ==> takes_output(old(self)@.emulator, output@, final(self)@.emulator),
    {
        let ghost first = self@.emulator;
        proof {
            lemma_takes_nothing(first);
            assert(output@.take(0) =~= Seq::<u8>::empty());
        }
        let ghost end = self@.fed(output@);
        let ghost watch = self.watch;
        let ghost start = self@.seen();
        let (rows, cols) = screen_size(self.emulator.screen());
        let roomy = rows >= 2 && 3 <= cols && cols <= 65527;
        let mut i: usize = 0;
        assert(output@.skip(0) =~= output@);
        while i < output.len() && !(roomy && self.shown.is_none())
            invariant
                i <= output@.len(),
                self.wf(),
                self.watch == watch,
                same_size(self@.seen(), start),
                roomy == (2 <= screen_height(start) && 3 <= screen_width(start) <= 65527),
                end == self@.fed(output@.skip(i as int)),
                roomy ==> takes_output(first, output@.take(i as int), self@.emulator),
            decreases output@.len() - i,
        {
            let ghost now = self@;
            let rest = slice_subrange(output, i, output.len());
            assert(rest@ =~= output@.skip(i as int));
            let n: usize = sequence_at_start(rest);
            if n > 0 {
                let unit = slice_subrange(rest, 0, n);
                assert(unit@ =~= rest@.take(n as int));
                assert(rest@.skip(n as int) =~= output@.skip(i + n));
                self.put(unit);
                proof {
                    if roomy {
                        lemma_put_takes(first, output@.take(i as int), now, unit@);
                        assert(output@.take(i as int) + unit@ =~= output@.take(i + n));
                    }
                }
                i += n;
            } else {
                assert(rest@.skip(1) =~= output@.skip(i + 1));
                self.take(output[i]);
                proof {
                    if roomy {
                        lemma_put_takes(
                            first,
                            output@.take(i as int),
                            now,
                            seq![output@[i as int]],
                        );
                        assert(output@.take(i as int) + seq![output@[i as int]] =~= output@.take(
                            i + 1,
                        ));
                    }
                }
                i += 1;
            }
        }
        if i < output.len() {
            let rest = slice_subrange(output, i, output.len());
            assert(rest@ =~= output@.skip(i as int));
            let ghost before = self.emulator;
            self.plain = self.plain && all_ascii(rest);
            self.emulator.process(rest);
            proof {
                lemma_same_view(before);
                lemma_same_view(self.emulator);
                assert(takes_piece(before, rest@, self.emulator));
                lemma_takes_more(
                    first,
                    output@.take(i as int),
                    before,
                    rest@,
                    self.emulator,
                );
                assert(output@.take(i as int) + rest@ =~= output@);
            }
        } else {
            assert(output@.take(i as int) =~= output@);
        }
    }

    /// Takes output of the application. Where it holds the sequence that drops the
    /// history, also one that began earlier, the last one does.
    pub fn read(&mut self, output: &[u8])
        requires
            old(self).wf(),
        ensures
            final(self).wf(),
            final(self)@ == old(self)@.read(output@),
            same_size(final(self)@.seen(), old(self)@.seen()),
            last_clear(old(self)@.tail + output@) == Some(
                (old(self)@.tail + output@).len() as int,
            ) ==> final(self)@.history() == Seq::<Seq<CellData>>::empty(),
            2 <= screen_height(old(self)@.seen()) && 3 <= screen_width(old(self)@.seen()) <= 65527
                ==> takes_output(old(self)@.emulator, output@, final(self)@.emulator),
    {
        let ghost all = self.watch.tail@ + output@;
        let ghost before = self.watch.tail@.len();
        match self.watch.feed(output) {
            Some(n) => {
                assert(clears_at(all, before + n));
                assert(last_clear(all) == Some(before + n));
                let head = slice_subrange(output, 0, n);
                let tail = slice_subrange(output, n, output.len());
                assert(head@ =~= output@.take(n as int));
                assert(tail@ =~= output@.skip(n as int));
                let ghost first = self@;
                self.feed(head);
                let ghost mid = self@.emulator;
                self.clear_history();
                let ghost cleared = self@.emulator;
                self.feed(tail);
                proof {
                    if 2 <= screen_height(first.seen()) && 3 <= screen_width(first.seen())
                        <= 65527 {
                        lemma_view_of_taken(first.emulator, head@, mid, 0);
                        lemma_takes_both(
                            first.emulator,
                            head@,
                            cleared,
                            tail@,
                            self@.emulator,
                        );
                        assert(head@ + tail@ =~= output@);
                    }
                }
            },
            None => {
                self.feed(output);
            },
        }
    }

    /// Brings up the other screen, main or alternate. A sequence of which a part
    /// was read is cut short by it.
    fn switch(&mut self)
        requires
            old(self).wf(),
            screen_height(old(self)@.seen()) >= 2,
        ensures
            final(self).wf(),
            switched(old(self)@.seen(), final(self)@.seen()),
            same_size(final(self)@.seen(), old(self)@.seen()),
            final(self)@.history() == old(self)@.history(),
            final(self)@.plain == old(self)@.plain,
            final(self)@.dropped == old(self)@.dropped,
            final(self).watch == old(self).watch,
    {
        let to: u8 = if screen_is_alternate(self.emulator.screen()) {
            0x6c
        } else {
            0x68
        };
        let bytes: [u8; 6] = [0x1b, 0x5b, 0x3f, 0x34, 0x37, to];
        let output: &[u8] = array_as_slice(&bytes);
        proof {
            assert(output@ =~= switch_sequence(!screen_alternate(self@.seen())));
            assert(is_ascii(output@));
            assert(!output@.contains(9));
        }
        self.emulator.process(output);
        self.trim();
    }

    /// Erases the wide characters whose first half is in a column. A sequence of
    /// which a part was read is cut short by it.
    fn erase_wide(&mut self, col: u16)
        requires
            old(self).wf(),
            !old(self)@.plain,
            screen_height(old(self)@.seen()) >= 2,
            col + 1 < screen_width(old(self)@.seen()),
        ensures
            final(self).wf(),
            same_size(final(self)@.seen(), old(self)@.seen()),
            is_mended(
                screen_rows(old(self)@.seen()),
                screen_rows(final(self)@.seen()),
                col as int,
            ),
            screen_other_rows(final(self)@.seen()) == screen_other_rows(old(self)@.seen()),
            screen_other_cursor(final(self)@.seen()) == screen_other_cursor(old(self)@.seen()),
            screen_cursor(final(self)@.seen()).0 == screen_cursor(old(self)@.seen()).0,
            min_int(screen_cursor(final(self)@.seen()).1 as int, col as int) == min_int(
                screen_cursor(old(self)@.seen()).1 as int,
                col as int,
            ),
            screen_offset(final(self)@.seen()) == screen_offset(old(self)@.seen()),
            same_history(final(self)@.seen(), old(self)@.seen()),
            final(self)@ == (Stage { emulator: final(self)@.emulator, ..old(self)@ }),
    {
        let ghost start = self@;
        let ghost all = screen_rows(start.seen());
        let ghost width = screen_width(start.seen()) as int;
        let (rows, cols) = screen_size(self.emulator.screen());
        assert(width == cols);
        let (cursor_row, cursor_col) = screen_cursor_position(self.emulator.screen());
        let mut moved = false;
        let mut i: u16 = 0;
        while i < rows
            invariant
                i <= rows,
                rows == all.len(),
                self.wf(),
                !start.plain,
                all == screen_rows(start.seen()),
                screen_whole(start.seen()),
                screen_height(start.seen()) >= 2,
                width == screen_width(start.seen()),
                col + 1 < width <= 0xffff,
                same_size(self@.seen(), start.seen()),
                is_mended_upto(all, screen_rows(self@.seen()), col as int, i as int),
                screen_other_rows(self@.seen()) == screen_other_rows(start.seen()),
                screen_other_cursor(self@.seen()) == screen_other_cursor(start.seen()),
                !moved ==> screen_cursor(self@.seen()) == screen_cursor(start.seen()),
                screen_offset(self@.seen()) == screen_offset(start.seen()),
                same_history(self@.seen(), start.seen()),
                self@ == (Stage { emulator: self@.emulator, ..start }),
            decreases rows - i,
        {
            let ghost now = screen_rows(self@.seen());
            assert(whole_row(all[i as int], width));
            assert(now[i as int].len() == width);
            let wide = match drawn_cell(&mut self.emulator, i, col) {
                Some(c) => c.wide,
                None => false,
            };
            assert(now[i as int][col as int] == all[i as int][col as int]);
            if wide {
                let mut output: Vec<u8> = Vec::new();
                push_move(&mut output, i, col);
                output.push(0x1b);
                output.push(0x5b);
                output.push(0x58);
                assert(output@ =~= erase_sequence(i as int, col as int));
                proof {
                    lemma_sequences_fit(i as int, col as int);
                }
                self.emulator.process(output.as_slice());
                moved = true;
            }
            i += 1;
        }
        if moved {
            let to: u16 = if cursor_col < col {
                cursor_col
            } else {
                col
            };
            let mut output: Vec<u8> = Vec::new();
            push_move(&mut output, cursor_row, to);
            assert(output@ =~= move_sequence(cursor_row as int, to as int));
            proof {
                lemma_sequences_fit(cursor_row as int, to as int);
            }
            self.emulator.process(output.as_slice());
        }
    }

    /// Makes the screen narrower.
    fn narrow(&mut self, rows: u16, cols: u16)
        requires
            old(self).wf(),
            !old(self)@.plain,
            1 <= rows,
            1 <= cols < screen_width(old(self)@.seen()),
        ensures
            final(self).wf(),
            resized(old(self)@.seen(), final(self)@.seen(), rows as int, cols as int),
            final(self)@.history() == old(self)@.history(),
            final(self)@.tail == old(self)@.tail,
            final(self)@.dropped == old(self)@.dropped,
            !final(self)@.plain,
    {
        let ghost before = self@;
        let ghost s = before.seen();
        let ghost w = screen_width(s) as int;
        let view: usize = screen_scrollback(self.emulator.screen());
        let (height, _) = screen_size(self.emulator.screen());
        if height == 1 {
            self.set_rows(2);
        }
        let ghost first = screen_rows(self@.seen());
        let ghost h = first.len() as int;
        proof {
            assert forall|i: int| 0 <= i < screen_rows(s).len() implies (#[trigger] screen_rows(
                s,
            )[i]).len() == w by {
                assert(whole_row(screen_rows(s)[i], w));
            }
            assert forall|i: int| 0 <= i < screen_other_rows(s).len() implies (
            #[trigger] screen_other_rows(s)[i]).len() == w by {
                assert(whole_row(screen_other_rows(s)[i], w));
            }
            assert(is_filled(screen_rows(s), first, w));
        }
        self.erase_wide(cols - 1);
        let ghost mended = screen_rows(self@.seen());
        self.switch();
        let ghost second = screen_rows(self@.seen());
        assert(is_filled(screen_other_rows(s), second, w));
        self.erase_wide(cols - 1);
        let ghost other_mended = screen_rows(self@.seen());
        self.switch();
        proof {
            lemma_mended_is_cut(screen_rows(s), first, mended, w, rows as int, cols as int);
            lemma_mended_is_cut(
                screen_other_rows(s),
                second,
                other_mended,
                w,
                rows as int,
                cols as int,
            );
        }
        self.set_size(rows, cols);
        self.scroll(view);
        proof {
            let now = self@.seen();
            assert(screen_cursor(now) == (
                min_int(screen_cursor(s).0 as int, rows - 1) as u16,
                min_int(screen_cursor(s).1 as int, cols - 1) as u16,
            ));
            assert(same_history(now, s));
            assert(self@.history() == before.history());
            assert(screen_offset(now) == screen_offset(s));
        }
    }

    /// Resizes the screen. A wide character that is cut in half by that is erased,
    /// and a sequence of which a part was read may be cut short then.
    pub fn resize(&mut self, rows: u16, cols: u16)
        requires
            old(self).wf(),
            1 <= rows,
            1 <= cols,
        ensures
            final(self).wf(),
            resized(old(self)@.seen(), final(self)@.seen(), rows as int, cols as int),
            screen_height(final(self)@.seen()) == rows,
            screen_width(final(self)@.seen()) == cols,
            final(self)@.history() == old(self)@.history(),
            final(self)@.tail == old(self)@.tail,
            final(self)@.dropped == old(self)@.dropped,
            final(self)@.plain == old(self)@.plain,
            old(self)@.plain || cols >= screen_width(old(self)@.seen()) ==> final(self)@ == (Stage {
                emulator: emulator_resized(old(self)@.emulator, rows, cols),
                ..old(self)@
            }),
    {
        let (_, width) = screen_size(self.emulator.screen());
        if self.plain || cols >= width {
            proof {
                let s = self@.seen();
                if self.plain {
                    lemma_narrow_rows(screen_rows(s), rows as int, cols as int);
                    lemma_narrow_rows(screen_other_rows(s), rows as int, cols as int);
                } else {
                    lemma_whole_rows_end_clear(screen_rows(s), width as int, cols - 1);
                    lemma_whole_rows_end_clear(screen_other_rows(s), width as int, cols - 1);
                }
            }
            self.set_size(rows, cols);
        } else {
            self.narrow(rows, cols);
        }
    }
}

} // verus!
