//! Captures: the desktop or one window as plain text.

use std::collections::HashMap;
use vstd::prelude::*;
use crate::geometry::{sub_floor, Rect};
use crate::protocol::{ServerMessage, ServerMessageView};
use crate::screen::{cell_at, first_char, glyph, screen_cell, screen_contents, screen_text};
use crate::server::{ServerState, ServerStateView};
use crate::snapshot::{opt_message, TerminalView, WindowInfo, WindowInfoView};
use crate::text::chars_of;

verus! {

broadcast use vstd::std_specs::hash::group_hash_axioms;

/// The character of the empty desktop: a dotted frame.
pub open spec fn desktop_char(screen: Rect, x: int, y: int) -> char {
    if y == 0 || y == screen.height - 1 || x == 0 || x == screen.width - 1 {
        '.'
    } else {
        ' '
    }
}

/// How many rows of a window are drawn.
pub open spec fn drawn_height(win: WindowInfoView) -> int {
    if win.minimized {
        1
    } else {
        win.rect.height as int
    }
}

/// The title of a window as it is drawn.
pub open spec fn drawn_title(title: Seq<char>) -> Seq<char> {
    seq![' '] + title + seq![' ']
}

/// The character that a window puts at a place on the screen, if it covers it:
/// of its title, of the screen of its terminal, or of its border.
pub open spec fn window_char(
    win: WindowInfoView,
    term: Option<TerminalView<'_>>,
    x: int,
    y: int,
) -> Option<char> {
    let col = x - win.rect.x;
    let row = y - win.rect.y;
    let w = win.rect.width as int;
    let h = drawn_height(win);
    let title = drawn_title(win.title);
    if row == 0 && 2 <= col < w - 1 && col - 2 < title.len() {
        Some(title[col - 2])
    } else if !win.minimized && 1 <= col && col - 1 < sub_floor(w, 2) && 1 <= row && row - 1
        < sub_floor(h, 2) {
        match term {
            Some(t) => match cell_at(*t.screen, row - 1, col - 1) {
                Some(c) => Some(glyph(c.text)),
                None => None,
            },
            None => None,
        }
    } else if 0 <= col < w && 0 <= row < h {
        if row == 0 || row == h - 1 {
            Some('-')
        } else if col == 0 || col == w - 1 {
            Some('|')
        } else {
            None
        }
    } else {
        None
    }
}

/// The terminal of a window, if it is known.
pub open spec fn term_of<'a>(terms: Map<usize, TerminalView<'a>>, id: usize) -> Option<
    TerminalView<'a>,
> {
    if terms.contains_key(id) {
        Some(terms[id])
    } else {
        None
    }
}

/// The character at a place of the screen, under the first `n` windows of the
/// stack: what the frontmost window puts there that puts anything there.
pub open spec fn captured_char<'a>(
    st: ServerStateView,
    terms: Map<usize, TerminalView<'a>>,
    screen: Rect,
    x: int,
    y: int,
    n: int,
) -> char
    decreases n,
{
    if n <= 0 {
        desktop_char(screen, x, y)
    } else {
        let id = st.order[n - 1];
        if st.windows.contains_key(id) {
            match window_char(st.windows[id], term_of(terms, id), x, y) {
                Some(c) => c,
                None => captured_char(st, terms, screen, x, y, n - 1),
            }
        } else {
            captured_char(st, terms, screen, x, y, n - 1)
        }
    }
}

/// One line of a capture.
pub open spec fn captured_line<'a>(
    st: ServerStateView,
    terms: Map<usize, TerminalView<'a>>,
    screen: Rect,
    y: int,
) -> Seq<char> {
    Seq::new(
        screen.width as nat,
        |x: int| captured_char(st, terms, screen, x, y, st.order.len() as int),
    )
}

/// The first `n` lines of a capture, with line ends between them.
pub open spec fn captured_lines<'a>(
    st: ServerStateView,
    terms: Map<usize, TerminalView<'a>>,
    screen: Rect,
    n: int,
) -> Seq<char>
    decreases n,
{
    if n <= 0 {
        Seq::empty()
    } else if n == 1 {
        captured_line(st, terms, screen, 0)
    } else {
        captured_lines(st, terms, screen, n - 1).push('\n') + captured_line(
            st,
            terms,
            screen,
            n - 1,
        )
    }
}

fn char_of_window(
    win: &WindowInfo,
    title: &Vec<char>,
    term: Option<&TerminalView<'_>>,
    x: u16,
    y: u16,
) -> (r: Option<char>)
    requires
        title@ == win.title@,
    ensures
        r == window_char(
            win@,
            match term {
                Some(t) => Some(*t),
                None => None,
            },
            x as int,
            y as int,
        ),
{
    let col: i32 = x as i32 - win.rect.x as i32;
    let row: i32 = y as i32 - win.rect.y as i32;
    let w: i32 = win.rect.width as i32;
    let h: i32 = if win.minimized {
        1
    } else {
        win.rect.height as i32
    };
    if row == 0 && 2 <= col && col < w - 1 && ((col - 2) as usize == 0 || (col - 3) as usize
        <= title.len()) {
        let i: usize = (col - 2) as usize;
        let ghost drawn = drawn_title(win.title@);
        assert(drawn.len() == win.title@.len() + 2);
        if i == 0 {
            assert(drawn[0] == ' ');
            return Some(' ');
        }
        if i - 1 < title.len() {
            assert(drawn[i as int] == win.title@[i - 1]);
            return Some(title[i - 1]);
        }
        assert(drawn[i as int] == ' ');
        return Some(' ');
    }
    if !win.minimized && 1 <= col && col - 1 < w - 2 && 1 <= row && row - 1 < h - 2 {
        return match term {
            Some(t) => match screen_cell(t.screen, (row - 1) as u16, (col - 1) as u16) {
                Some(c) => Some(first_char(&c.text)),
                None => None,
            },
            None => None,
        };
    }
    if 0 <= col && col < w && 0 <= row && row < h {
        if row == 0 || row == h - 1 {
            Some('-')
        } else if col == 0 || col == w - 1 {
            Some('|')
        } else {
            None
        }
    } else {
        None
    }
}

impl ServerState {
    fn titles(&self) -> (r: Vec<Vec<char>>)
        ensures
            r@.len() == self@.order.len(),
            forall|i: int|
                0 <= i < r@.len() && self@.windows.contains_key(self@.order[i]) ==> (
                #[trigger] r@[i])@ == self@.windows[self@.order[i]].title,
    {
        let mut r: Vec<Vec<char>> = Vec::new();
        let mut i: usize = 0;
        while i < self.window_order.len()
            invariant
                i <= self.window_order@.len(),
                r@.len() == i,
                forall|j: int|
                    0 <= j < i && self@.windows.contains_key(self@.order[j]) ==> (
                    #[trigger] r@[j])@ == self@.windows[self@.order[j]].title,
            decreases self.window_order@.len() - i,
        {
            match self.windows.get(&self.window_order[i]) {
                Some(win) => {
                    r.push(chars_of(win.title.as_str()));
                },
                None => {
                    r.push(Vec::new());
                },
            }
            i += 1;
        }
        r
    }

    fn char_at<'a>(
        &self,
        titles: &Vec<Vec<char>>,
        terms: &HashMap<usize, TerminalView<'a>>,
        screen: &Rect,
        x: u16,
        y: u16,
    ) -> (c: char)
        requires
            titles@.len() == self@.order.len(),
            forall|i: int|
                0 <= i < titles@.len() && self@.windows.contains_key(self@.order[i]) ==> (
                #[trigger] titles@[i])@ == self@.windows[self@.order[i]].title,
            x < screen.width,
            y < screen.height,
        ensures
            c == captured_char(
                self@,
                terms@,
                *screen,
                x as int,
                y as int,
                self@.order.len() as int,
            ),
    {
        let mut n: usize = self.window_order.len();
        while n > 0
            invariant
                n <= self.window_order@.len(),
                titles@.len() == self@.order.len(),
                forall|i: int|
                    0 <= i < titles@.len() && self@.windows.contains_key(self@.order[i]) ==> (
                    #[trigger] titles@[i])@ == self@.windows[self@.order[i]].title,
                captured_char(
                    self@,
                    terms@,
                    *screen,
                    x as int,
                    y as int,
                    self@.order.len() as int,
                ) == captured_char(self@, terms@, *screen, x as int, y as int, n as int),
            decreases n,
        {
            n -= 1;
            let id: usize = self.window_order[n];
            if let Some(win) = self.windows.get(&id) {
                assert(titles@[n as int]@ == win.title@);
                if let Some(c) = char_of_window(win, &titles[n], terms.get(&id), x, y) {
                    return c;
                }
            }
        }
        if y == 0 || y == screen.height - 1 || x == 0 || x == screen.width - 1 {
            '.'
        } else {
            ' '
        }
    }

    /// The whole desktop as text.
    pub fn capture_full<'a>(
        &self,
        terms: &HashMap<usize, TerminalView<'a>>,
        screen: &Rect,
    ) -> (r: String)
        ensures
            r@ == captured_lines(self@, terms@, *screen, screen.height as int),
    {
        let titles = self.titles();
        let mut text = String::new();
        let mut y: u16 = 0;
        while y < screen.height
            invariant
                y <= screen.height,
                titles@.len() == self@.order.len(),
                forall|i: int|
                    0 <= i < titles@.len() && self@.windows.contains_key(self@.order[i]) ==> (
                    #[trigger] titles@[i])@ == self@.windows[self@.order[i]].title,
                text@ == captured_lines(self@, terms@, *screen, y as int),
            decreases screen.height - y,
        {
            if y > 0 {
                text.push('\n');
            }
            let ghost start = text@;
            let ghost line = captured_line(self@, terms@, *screen, y as int);
            let mut x: u16 = 0;
            assert(start + line.take(0) =~= start);
            while x < screen.width
                invariant
                    x <= screen.width,
                    y < screen.height,
                    titles@.len() == self@.order.len(),
                    forall|i: int|
                        0 <= i < titles@.len() && self@.windows.contains_key(self@.order[i])
                            ==> (#[trigger] titles@[i])@ == self@.windows[self@.order[i]].title,
                    line == captured_line(self@, terms@, *screen, y as int),
                    text@ == start + line.take(x as int),
                decreases screen.width - x,
            {
                text.push(self.char_at(&titles, terms, screen, x, y));
                assert(start + line.take(x + 1) =~= (start + line.take(x as int)).push(
                    line[x as int],
                ));
                x += 1;
            }
            assert(line.take(screen.width as int) =~= line);
            proof {
                if y == 0 {
                    assert(start + line =~= line);
                }
            }
            y += 1;
        }
        text
    }

    /// The text that a window shows, for clients, where there is any.
    pub fn capture_pane<'a>(
        &self,
        terms: &HashMap<usize, TerminalView<'a>>,
        window_id: usize,
    ) -> (r: Option<ServerMessage>)
        ensures
            opt_message(r) == pane_reply(self@, terms@, window_id),
    {
        match (self.windows.get(&window_id), terms.get(&window_id)) {
            (Some(_), Some(term)) => {
                let text = screen_contents(term.screen);
                if text.as_str().unicode_len() == 0 {
                    None
                } else {
                    Some(ServerMessage::PaneCaptured { window_id, text })
                }
            },
            _ => None,
        }
    }
}

/// The reply to a request for the text of a window: none where there is no text.
pub open spec fn pane_reply<'a>(
    st: ServerStateView,
    terms: Map<usize, TerminalView<'a>>,
    id: usize,
) -> Option<ServerMessageView> {
    if st.windows.contains_key(id) && terms.contains_key(id) && screen_text(
        *terms[id].screen,
    ).len() > 0 {
        Some(
            ServerMessageView::PaneCaptured { window_id: id, text: screen_text(*terms[id].screen) },
        )
    } else {
        None
    }
}

/// In a capture the frontmost window that puts a character at a place hides
/// what is behind it there.
pub proof fn law_front_window_hides_the_rest<'a>(
    st: ServerStateView,
    terms: Map<usize, TerminalView<'a>>,
    screen: Rect,
    x: int,
    y: int,
    top: int,
)
    requires
        st.wf(),
        0 <= top < st.order.len(),
        window_char(st.windows[st.order[top]], term_of(terms, st.order[top]), x, y) is Some,
        forall|j: int|
            top < j < st.order.len() ==> window_char(
                st.windows[#[trigger] st.order[j]],
                term_of(terms, st.order[j]),
                x,
                y,
            ) is None,
    ensures
        Some(captured_char(st, terms, screen, x, y, st.order.len() as int)) == window_char(
            st.windows[st.order[top]],
            term_of(terms, st.order[top]),
            x,
            y,
        ),
{
    lemma_hidden_below(st, terms, screen, x, y, top, st.order.len() as int);
}

proof fn lemma_hidden_below<'a>(
    st: ServerStateView,
    terms: Map<usize, TerminalView<'a>>,
    screen: Rect,
    x: int,
    y: int,
    top: int,
    n: int,
)
    requires
        st.wf(),
        0 <= top < n <= st.order.len(),
        window_char(st.windows[st.order[top]], term_of(terms, st.order[top]), x, y) is Some,
        forall|j: int|
            top < j < n ==> window_char(
                st.windows[#[trigger] st.order[j]],
                term_of(terms, st.order[j]),
                x,
                y,
            ) is None,
    ensures
        Some(captured_char(st, terms, screen, x, y, n)) == window_char(
            st.windows[st.order[top]],
            term_of(terms, st.order[top]),
            x,
            y,
        ),
    decreases n,
{
    assert(st.order.contains(st.order[n - 1]));
    if n - 1 > top {
        lemma_hidden_below(st, terms, screen, x, y, top, n - 1);
    }
}

/// The rows that a window takes up on the desktop: all of them, or just the first
/// where it is minimized.
pub open spec fn is_on_desktop(win: WindowInfoView, x: int, y: int) -> bool {
    &&& win.rect.x <= x < win.rect.x + win.rect.width
    &&& win.rect.y <= y < win.rect.y + if win.minimized || win.rect.height == 0 {
        1
    } else {
        win.rect.height as int
    }
}

proof fn lemma_uncovered<'a>(
    st: ServerStateView,
    terms: Map<usize, TerminalView<'a>>,
    screen: Rect,
    x: int,
    y: int,
    low: int,
    n: int,
)
    requires
        st.wf(),
        0 <= low <= n <= st.order.len(),
        forall|j: int|
            low <= j < n ==> !is_on_desktop(st.windows[#[trigger] st.order[j]], x, y),
    ensures
        captured_char(st, terms, screen, x, y, n) == captured_char(st, terms, screen, x, y, low),
    decreases n,
{
    if n > low {
        assert(st.order.contains(st.order[n - 1]));
        assert(!is_on_desktop(st.windows[st.order[n - 1]], x, y));
        lemma_uncovered(st, terms, screen, x, y, low, n - 1);
    }
}

proof fn lemma_captured_at<'a>(
    st: ServerStateView,
    terms: Map<usize, TerminalView<'a>>,
    screen: Rect,
    n: int,
    x: int,
    y: int,
)
    requires
        0 <= y < n <= screen.height,
        0 <= x < screen.width,
    ensures
        captured_lines(st, terms, screen, n).len() == n * screen.width + n - 1,
        captured_lines(st, terms, screen, n)[y * (screen.width + 1) + x] == captured_char(
            st,
            terms,
            screen,
            x,
            y,
            st.order.len() as int,
        ),
    decreases n,
{
    let w = screen.width as int;
    let all = captured_lines(st, terms, screen, n);
    let line = captured_line(st, terms, screen, n - 1);
    if n == 1 {
        assert(all == line);
        assert(y * (w + 1) + x == x) by (nonlinear_arith)
            requires
                y == 0,
        ;
        assert(n * w == w) by (nonlinear_arith)
            requires
                n == 1,
        ;
        assert(all[y * (w + 1) + x] == line[x]);
    } else {
        let rest = captured_lines(st, terms, screen, n - 1);
        lemma_captured_at(st, terms, screen, n - 1, x, 0);
        assert(n * w == (n - 1) * w + w) by (nonlinear_arith);
        assert((n - 1) * (w + 1) == (n - 1) * w + n - 1) by (nonlinear_arith);
        if y == n - 1 {
            assert(all[y * (w + 1) + x] == line[x]);
        } else {
            lemma_captured_at(st, terms, screen, n - 1, x, y);
            assert(0 <= y * (w + 1) + x < (n - 1) * (w + 1) - 1) by (nonlinear_arith)
                requires
                    0 <= y <= n - 2,
                    0 <= x < w,
            ;
            assert(all[y * (w + 1) + x] == rest[y * (w + 1) + x]);
        }
    }
}

/// A capture has a line for each row of the screen and a character for each of
/// its columns. Where no window is, it shows the desktop: dots along the edges of
/// the screen, and blanks.
pub proof fn law_capture_shows_the_desktop<'a>(
    st: ServerStateView,
    terms: Map<usize, TerminalView<'a>>,
    screen: Rect,
    x: int,
    y: int,
)
    requires
        st.wf(),
        0 <= x < screen.width,
        0 <= y < screen.height,
        forall|j: int|
            0 <= j < st.order.len() ==> !is_on_desktop(
                st.windows[#[trigger] st.order[j]],
                x,
                y,
            ),
    ensures
        ({
            let text = captured_lines(st, terms, screen, screen.height as int);
            let edge = x == 0 || y == 0 || x == screen.width - 1 || y == screen.height - 1;
            &&& text.len() == screen.height * (screen.width + 1) - 1
            &&& text[y * (screen.width + 1) + x] == if edge {
                '.'
            } else {
                ' '
            }
            &&& y < screen.height - 1 ==> text[y * (screen.width + 1) + screen.width] == '\n'
        }),
{
    let h = screen.height as int;
    let w = screen.width as int;
    lemma_captured_at(st, terms, screen, h, x, y);
    lemma_uncovered(st, terms, screen, x, y, 0, st.order.len() as int);
    assert(h * (w + 1) == h * w + h) by (nonlinear_arith);
    if y < h - 1 {
        lemma_line_ends(st, terms, screen, h, y);
    }
}

proof fn lemma_line_ends<'a>(
    st: ServerStateView,
    terms: Map<usize, TerminalView<'a>>,
    screen: Rect,
    n: int,
    y: int,
)
    requires
        0 <= y < n - 1,
        n <= screen.height,
        0 < screen.width,
    ensures
        captured_lines(st, terms, screen, n)[y * (screen.width + 1) + screen.width] == '\n',
    decreases n,
{
    let w = screen.width as int;
    lemma_captured_at(st, terms, screen, n - 1, 0, 0);
    assert((n - 1) * (w + 1) == (n - 1) * w + n - 1) by (nonlinear_arith);
    assert(y * (w + 1) == y * w + y) by (nonlinear_arith);
    if y == n - 2 {
        assert((n - 2) * w + w == (n - 1) * w) by (nonlinear_arith);
    } else {
        lemma_line_ends(st, terms, screen, n - 1, y);
        assert(0 <= y * (w + 1) + w < (n - 1) * (w + 1) - 1) by (nonlinear_arith)
            requires
                0 <= y < n - 2,
                0 < w,
        ;
    }
}

/// In a capture each window that nothing lies over shows its terminal: the cell
/// in row `r` and column `c` of the terminal is at that row and column inside the
/// frame of the window, as its first character, or as a blank where it is empty.
/// `top` is the place of the window in the stack.
pub proof fn law_capture_shows_the_terminal<'a>(
    st: ServerStateView,
    terms: Map<usize, TerminalView<'a>>,
    screen: Rect,
    top: int,
    r: int,
    c: int,
)
    requires
        st.wf(),
        0 <= top < st.order.len(),
        terms.contains_key(st.order[top]),
        ({
            let win = st.windows[st.order[top]];
            let x = win.rect.x + 1 + c;
            let y = win.rect.y + 1 + r;
            &&& !win.minimized
            &&& 0 <= c < win.rect.width - 2
            &&& 0 <= r < win.rect.height - 2
            &&& cell_at(*terms[st.order[top]].screen, r, c) is Some
            &&& x < screen.width
            &&& y < screen.height
            &&& forall|j: int|
                top < j < st.order.len() ==> !is_on_desktop(
                    st.windows[#[trigger] st.order[j]],
                    x,
                    y,
                )
        }),
    ensures
        ({
            let win = st.windows[st.order[top]];
            let x = win.rect.x + 1 + c;
            let y = win.rect.y + 1 + r;
            let text = cell_at(*terms[st.order[top]].screen, r, c)->0.text;
            captured_lines(st, terms, screen, screen.height as int)[y * (screen.width + 1) + x]
                == if text.len() > 0 {
                text[0]
            } else {
                ' '
            }
        }),
{
    let win = st.windows[st.order[top]];
    let x = win.rect.x + 1 + c;
    let y = win.rect.y + 1 + r;
    assert(st.order.contains(st.order[top]));
    lemma_captured_at(st, terms, screen, screen.height as int, x, y);
    lemma_uncovered(st, terms, screen, x, y, top + 1, st.order.len() as int);
}

/// In a capture each window that nothing lies over shows its frame: its title,
/// with a blank on either side, from its third column on, and around it dashes
/// above and below and bars on the sides. A minimized window has the first row
/// alone. `top` is the place of the window in the stack.
pub proof fn law_capture_shows_the_frame<'a>(
    st: ServerStateView,
    terms: Map<usize, TerminalView<'a>>,
    screen: Rect,
    top: int,
    col: int,
    row: int,
)
    requires
        st.wf(),
        0 <= top < st.order.len(),
        ({
            let win = st.windows[st.order[top]];
            let x = win.rect.x + col;
            let y = win.rect.y + row;
            &&& is_on_desktop(win, x, y)
            &&& win.minimized || win.rect.height > 0
            &&& row == 0 || row == win.rect.height - 1 || col == 0 || col == win.rect.width - 1
            &&& x < screen.width
            &&& y < screen.height
            &&& forall|j: int|
                top < j < st.order.len() ==> !is_on_desktop(
                    st.windows[#[trigger] st.order[j]],
                    x,
                    y,
                )
        }),
    ensures
        ({
            let win = st.windows[st.order[top]];
            let x = win.rect.x + col;
            let y = win.rect.y + row;
            let here = captured_lines(st, terms, screen, screen.height as int)[y * (screen.width
                + 1) + x];
            let last = col == win.rect.width - 1;
            if row == 0 && !last && 3 <= col < 3 + win.title.len() {
                here == win.title[col - 3]
            } else if row == 0 && !last && (col == 2 || col == 3 + win.title.len()) {
                here == ' '
            } else if row == 0 || row == win.rect.height - 1 {
                here == '-'
            } else {
                here == '|'
            }
        }),
{
    let win = st.windows[st.order[top]];
    let x = win.rect.x + col;
    let y = win.rect.y + row;
    assert(st.order.contains(st.order[top]));
    lemma_captured_at(st, terms, screen, screen.height as int, x, y);
    lemma_uncovered(st, terms, screen, x, y, top + 1, st.order.len() as int);
}

/// The capture of a window is all of the text that its terminal shows, and is sent
/// exactly where the window is there and shows any.
pub proof fn law_captured_pane_is_the_text<'a>(
    st: ServerStateView,
    terms: Map<usize, TerminalView<'a>>,
    id: usize,
)
    ensures
        pane_reply(st, terms, id) is Some <==> st.windows.contains_key(id) && terms.contains_key(id)
            && screen_text(*terms[id].screen).len() > 0,
        pane_reply(st, terms, id) matches Some(msg) ==> msg == (ServerMessageView::PaneCaptured {
            window_id: id,
            text: screen_text(*terms[id].screen),
        }),
{
}

/// In a capture the inside of a window is seen through where there is no cell of a
/// terminal: where no other window is, the desktop is there. `top` is the place of the
/// window in the stack.
pub proof fn law_capture_sees_through_missing_cells<'a>(
    st: ServerStateView,
    terms: Map<usize, TerminalView<'a>>,
    screen: Rect,
    top: int,
    r: int,
    c: int,
)
    requires
        st.wf(),
        0 <= top < st.order.len(),
        ({
            let win = st.windows[st.order[top]];
            let x = win.rect.x + 1 + c;
            let y = win.rect.y + 1 + r;
            &&& !win.minimized
            &&& 0 <= c < win.rect.width - 2
            &&& 0 <= r < win.rect.height - 2
            &&& !terms.contains_key(st.order[top]) || cell_at(
                *terms[st.order[top]].screen,
                r,
                c,
            ) is None
            &&& x < screen.width
            &&& y < screen.height
            &&& forall|j: int|
                0 <= j < st.order.len() && j != top ==> !is_on_desktop(
                    st.windows[#[trigger] st.order[j]],
                    x,
                    y,
                )
        }),
    ensures
        ({
            let win = st.windows[st.order[top]];
            let x = win.rect.x + 1 + c;
            let y = win.rect.y + 1 + r;
            let edge = x == 0 || y == 0 || x == screen.width - 1 || y == screen.height - 1;
            captured_lines(st, terms, screen, screen.height as int)[y * (screen.width + 1) + x]
                == if edge {
                '.'
            } else {
                ' '
            }
        }),
{
    let win = st.windows[st.order[top]];
    let x = win.rect.x + 1 + c;
    let y = win.rect.y + 1 + r;
    lemma_captured_at(st, terms, screen, screen.height as int, x, y);
    lemma_uncovered(st, terms, screen, x, y, top + 1, st.order.len() as int);
    lemma_uncovered(st, terms, screen, x, y, 0, top);
}

} // verus!
