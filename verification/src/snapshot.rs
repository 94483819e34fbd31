//! What the server knows of a window, and what it tells clients about it.

use vstd::prelude::*;
use crate::geometry::{sub_floor, sub_u16, Rect};
use crate::protocol::{
    opt_text, texts, Cell, ServerMessage, ServerMessageView, WindowState, WindowStateView,
};
use crate::screen::{
    read_cells, read_cursor, screen_mouse_mode, shown_cells, shown_cursor, wants_mouse, MouseMode,
};

verus! {

/// A window as the server keeps it.
pub struct WindowInfo {
    pub id: usize,
    pub title: String,
    pub rect: Rect,
    pub minimized: bool,
    pub focused: bool,
    /// Where the window was before it was maximized or made fullscreen.
    pub saved_rect: Option<Rect>,
    pub command: Option<String>,
    pub args: Vec<String>,
    /// By how many rows the view is scrolled back.
    pub scroll_offset: usize,
    /// The screen that clients were last told of.
    pub last_screen: Vec<Cell>,
    /// The cursor that clients were last told of.
    pub last_cursor_pos: Option<(u16, u16)>,
    pub fullscreen: bool,
}

/// What a `WindowInfo` says, over mathematical sequences.
#[verifier::ext_equal]
pub struct WindowInfoView {
    pub id: usize,
    pub title: Seq<char>,
    pub rect: Rect,
    pub minimized: bool,
    pub focused: bool,
    pub saved_rect: Option<Rect>,
    pub command: Option<Seq<char>>,
    pub args: Seq<Seq<char>>,
    pub scroll_offset: usize,
    pub last_screen: Seq<Cell>,
    pub last_cursor_pos: Option<(u16, u16)>,
    pub fullscreen: bool,
}

impl View for WindowInfo {
    type V = WindowInfoView;

    open spec fn view(&self) -> WindowInfoView {
        WindowInfoView {
            id: self.id,
            title: self.title@,
            rect: self.rect,
            minimized: self.minimized,
            focused: self.focused,
            saved_rect: self.saved_rect,
            command: opt_text(self.command),
            args: texts(self.args@),
            scroll_offset: self.scroll_offset,
            last_screen: self.last_screen@,
            last_cursor_pos: self.last_cursor_pos,
            fullscreen: self.fullscreen,
        }
    }
}

/// The terminal behind a window, as it is at one moment.
pub struct TerminalView<'a> {
    pub running: bool,
    pub exit_code: Option<i32>,
    /// How many rows of history there are.
    pub scrollback_size: usize,
    pub screen: &'a vt100::Screen,
}

/// The first place of an identifier at or after `from`.
pub open spec fn position_from(order: Seq<usize>, id: usize, from: int) -> Option<int>
    decreases order.len() - from,
{
    if from < 0 || from >= order.len() {
        None
    } else if order[from] == id {
        Some(from)
    } else {
        position_from(order, id, from + 1)
    }
}

/// The first place of an identifier in a list.
pub open spec fn position(order: Seq<usize>, id: usize) -> Option<int> {
    position_from(order, id, 0)
}

pub proof fn lemma_position_from(order: Seq<usize>, id: usize, from: int)
    requires
        0 <= from,
    ensures
        match position_from(order, id, from) {
            Some(p) => from <= p < order.len() && order[p] == id && forall|j: int|
                from <= j < p ==> order[j] != id,
            None => forall|j: int| from <= j < order.len() ==> order[j] != id,
        },
    decreases order.len() - from,
{
    if from < order.len() && order[from] != id {
        lemma_position_from(order, id, from + 1);
    }
}

/// Finds the first place of an identifier in a list.
pub fn find_position(order: &Vec<usize>, id: usize) -> (r: Option<usize>)
    ensures
        match r {
            Some(p) => position(order@, id) == Some(p as int) && p < order@.len() && order@[p as int]
                == id,
            None => position(order@, id) is None && !order@.contains(id),
        },
{
    let mut i: usize = 0;
    while i < order.len()
        invariant
            i <= order@.len(),
            position(order@, id) == position_from(order@, id, i as int),
        decreases order@.len() - i,
    {
        if order[i] == id {
            return Some(i);
        }
        i += 1;
    }
    proof {
        lemma_position_from(order@, id, 0);
    }
    None
}

/// The place of a window in the stack, counted from the back.
pub open spec fn z_of(order: Seq<usize>, id: usize) -> int {
    match position(order, id) {
        Some(p) => p,
        None => 0,
    }
}

/// What clients are told of a window.
pub open spec fn window_state(
    win: WindowInfoView,
    order: Seq<usize>,
    term: TerminalView<'_>,
) -> WindowStateView {
    WindowStateView {
        id: win.id,
        title: win.title,
        x: win.rect.x,
        y: win.rect.y,
        width: win.rect.width,
        height: win.rect.height,
        minimized: win.minimized,
        focused: win.focused,
        running: term.running,
        exit_code: term.exit_code,
        scroll_offset: win.scroll_offset,
        scrollback_size: term.scrollback_size,
        fullscreen: win.fullscreen,
        screen: shown_cells(
            *term.screen,
            sub_floor(win.rect.width as int, 2),
            sub_floor(win.rect.height as int, 2),
        ),
        cursor_pos: shown_cursor(*term.screen),
        cursor_visible: !win.minimized && win.focused && term.running,
        mouse_reporting: screen_mouse_mode(*term.screen) != MouseMode::Off,
        z_order: z_of(order, win.id) as usize,
    }
}

/// Builds what clients are told of a window.
pub fn build_window_state(
    win: &WindowInfo,
    window_order: &Vec<usize>,
    term: &TerminalView<'_>,
) -> (r: WindowState)
    ensures
        r@ == window_state(win@, window_order@, *term),
{
    let screen = read_cells(term.screen, sub_u16(win.rect.width, 2), sub_u16(win.rect.height, 2));
    let cursor_pos = read_cursor(term.screen);
    let z_order: usize = match find_position(window_order, win.id) {
        Some(p) => p,
        None => 0,
    };
    WindowState {
        id: win.id,
        title: win.title.clone(),
        x: win.rect.x,
        y: win.rect.y,
        width: win.rect.width,
        height: win.rect.height,
        minimized: win.minimized,
        focused: win.focused,
        running: term.running,
        exit_code: term.exit_code,
        scroll_offset: win.scroll_offset,
        scrollback_size: term.scrollback_size,
        fullscreen: win.fullscreen,
        screen,
        cursor_pos,
        cursor_visible: !win.minimized && win.focused && term.running,
        mouse_reporting: wants_mouse(term.screen),
        z_order,
    }
}

/// The cells that differ among the first `n`, with their places and new contents.
pub open spec fn changes_among(before: Seq<Cell>, after: Seq<Cell>, n: int) -> Seq<(usize, Cell)>
    decreases n,
{
    if n <= 0 {
        Seq::empty()
    } else if before[n - 1] != after[n - 1] {
        changes_among(before, after, n - 1).push(((n - 1) as usize, after[n - 1]))
    } else {
        changes_among(before, after, n - 1)
    }
}

/// The cells that differ between two screens of one size.
pub open spec fn changes(before: Seq<Cell>, after: Seq<Cell>) -> Seq<(usize, Cell)> {
    changes_among(before, after, after.len() as int)
}

/// Collects the cells that differ between two screens of one size.
pub fn changed_cells(before: &Vec<Cell>, after: &Vec<Cell>) -> (r: Vec<(usize, Cell)>)
    requires
        before@.len() == after@.len(),
    ensures
        r@ == changes(before@, after@),
{
    let mut r: Vec<(usize, Cell)> = Vec::new();
    let mut i: usize = 0;
    while i < after.len()
        invariant
            i <= after@.len(),
            before@.len() == after@.len(),
            r@ == changes_among(before@, after@, i as int),
        decreases after@.len() - i,
    {
        if before[i] != after[i] {
            r.push((i, after[i]));
        }
        i += 1;
    }
    r
}

/// A screen with one changed cell put in, where its place is on the screen.
pub open spec fn with_cell(screen: Seq<Cell>, change: (usize, Cell)) -> Seq<Cell> {
    if change.0 < screen.len() {
        screen.update(change.0 as int, change.1)
    } else {
        screen
    }
}

/// A screen with changed cells put in, one after the other.
pub open spec fn applied(screen: Seq<Cell>, cells: Seq<(usize, Cell)>) -> Seq<Cell>
    decreases cells.len(),
{
    if cells.len() == 0 {
        screen
    } else {
        with_cell(applied(screen, cells.drop_last()), cells.last())
    }
}

/// Puts changed cells into a screen.
pub fn apply_cells(screen: &mut Vec<Cell>, cells: &Vec<(usize, Cell)>)
    ensures
        final(screen)@ == applied(old(screen)@, cells@),
{
    let ghost before = screen@;
    let mut i: usize = 0;
    assert(cells@.take(0) =~= Seq::empty());
    while i < cells.len()
        invariant
            i <= cells@.len(),
            screen@ == applied(before, cells@.take(i as int)),
        decreases cells@.len() - i,
    {
        assert(cells@.take(i + 1).drop_last() =~= cells@.take(i as int));
        assert(cells@.take(i + 1).last() == cells@[i as int]);
        let (idx, cell) = cells[i];
        if idx < screen.len() {
            screen.set(idx, cell);
        }
        i += 1;
    }
    assert(cells@.take(cells@.len() as int) =~= cells@);
}

proof fn lemma_applied_among(before: Seq<Cell>, after: Seq<Cell>, n: int)
    requires
        before.len() == after.len(),
        0 <= n <= after.len(),
        after.len() <= usize::MAX,
    ensures
        applied(before, changes_among(before, after, n)) == after.take(n) + before.skip(n),
    decreases n,
{
    if n == 0 {
        assert(after.take(0) + before.skip(0) =~= before);
    } else {
        lemma_applied_among(before, after, n - 1);
        let prior = changes_among(before, after, n - 1);
        if before[n - 1] != after[n - 1] {
            assert(prior.push(((n - 1) as usize, after[n - 1])).drop_last() =~= prior);
        }
        assert(after.take(n) + before.skip(n) =~= (after.take(n - 1) + before.skip(n - 1)).update(
            n - 1,
            after[n - 1],
        ));
        assert((after.take(n - 1) + before.skip(n - 1)) =~= (after.take(n - 1) + before.skip(
            n - 1,
        )).update(n - 1, before[n - 1]));
    }
}

/// A client that puts the reported changes into the screen that it had before
/// has the screen that the server has now.
pub proof fn law_changes_give_the_new_screen(before: Seq<Cell>, after: Seq<Cell>)
    requires
        before.len() == after.len(),
        after.len() <= usize::MAX,
    ensures
        applied(before, changes(before, after)) == after,
{
    lemma_applied_among(before, after, after.len() as int);
    assert(after.take(after.len() as int) + before.skip(after.len() as int) =~= after);
}

proof fn lemma_changes_among_differ(before: Seq<Cell>, after: Seq<Cell>, n: int)
    requires
        before.len() == after.len(),
        0 <= n <= after.len(),
        after.len() <= usize::MAX,
    ensures
        forall|k: int|
            0 <= k < changes_among(before, after, n).len() ==> {
                let c = #[trigger] changes_among(before, after, n)[k];
                c.0 < n && before[c.0 as int] != after[c.0 as int] && c.1 == after[c.0 as int]
            },
        forall|i: int|
            0 <= i < n && before[i] != after[i] ==> changes_among(before, after, n).contains(
                (i as usize, #[trigger] after[i]),
            ),
    decreases n,
{
    if n > 0 {
        lemma_changes_among_differ(before, after, n - 1);
        let prior = changes_among(before, after, n - 1);
        let now = changes_among(before, after, n);
        assert forall|i: int| 0 <= i < n && before[i] != after[i] implies now.contains(
            (i as usize, #[trigger] after[i]),
        ) by {
            if i == n - 1 {
                assert(now[prior.len() as int] == (i as usize, after[i]));
            } else {
                assert(prior.contains((i as usize, after[i])));
                let k = choose|k: int|
                    0 <= k < prior.len() && prior[k] == (i as usize, after[i]);
                assert(now[k] == prior[k]);
            }
        }
    }
}

/// The reported changes are the cells that differ, and no others.
pub proof fn law_changes_are_the_differences(before: Seq<Cell>, after: Seq<Cell>)
    requires
        before.len() == after.len(),
        after.len() <= usize::MAX,
    ensures
        forall|i: int, c: Cell|
            0 <= i < after.len() ==> (#[trigger] changes(before, after).contains((i as usize, c))
                <==> before[i] != after[i] && c == after[i]),
{
    lemma_changes_among_differ(before, after, after.len() as int);
    assert forall|i: int, c: Cell| 0 <= i < after.len() implies (#[trigger] changes(
        before,
        after,
    ).contains((i as usize, c)) <==> before[i] != after[i] && c == after[i]) by {
        let all = changes(before, after);
        if all.contains((i as usize, c)) {
            let k = choose|k: int| 0 <= k < all.len() && all[k] == (i as usize, c);
            assert(changes_among(before, after, after.len() as int)[k].0 == i);
        }
    }
}

/// A window after clients were told its state.
pub open spec fn told(win: WindowInfoView, ws: WindowStateView) -> WindowInfoView {
    WindowInfoView { last_screen: ws.screen, last_cursor_pos: ws.cursor_pos, ..win }
}

/// What clients are told when a window's screen may have changed: everything
/// where the size of the screen changed, else the cells that differ; nothing
/// where neither a cell nor the cursor changed.
pub open spec fn change_report(win: WindowInfoView, ws: WindowStateView) -> Option<
    ServerMessageView,
> {
    if win.last_screen.len() != ws.screen.len() {
        Some(ServerMessageView::WindowUpdate { window: ws })
    } else {
        let cells = changes(win.last_screen, ws.screen);
        if cells.len() > 0 || win.last_cursor_pos != ws.cursor_pos {
            Some(
                ServerMessageView::ScreenDiff {
                    window_id: ws.id,
                    cells,
                    cursor_pos: ws.cursor_pos,
                    scrollback_size: ws.scrollback_size,
                    scroll_offset: ws.scroll_offset,
                },
            )
        } else {
            None
        }
    }
}

/// A client that has what it was last told of a window's screen and cursor, and
/// follows the report, has what the window shows now; where there is no report,
/// nothing had changed.
pub proof fn law_report_brings_client_up_to_date(win: WindowInfoView, ws: WindowStateView)
    requires
        ws.screen.len() <= usize::MAX,
    ensures
        match change_report(win, ws) {
            Some(ServerMessageView::WindowUpdate { window }) => window == ws
                && win.last_screen.len() != ws.screen.len(),
            Some(
                ServerMessageView::ScreenDiff {
                    window_id,
                    cells,
                    cursor_pos,
                    scrollback_size,
                    scroll_offset,
                },
            ) => window_id == ws.id && applied(win.last_screen, cells) == ws.screen && cursor_pos
                == ws.cursor_pos && scrollback_size == ws.scrollback_size && scroll_offset
                == ws.scroll_offset,
            Some(_) => false,
            None => win.last_screen == ws.screen && win.last_cursor_pos == ws.cursor_pos,
        },
{
    if win.last_screen.len() == ws.screen.len() {
        law_changes_give_the_new_screen(win.last_screen, ws.screen);
    }
}

/// The contents of an optional message.
pub open spec fn opt_message(m: Option<ServerMessage>) -> Option<ServerMessageView> {
    match m {
        Some(m) => Some(m@),
        None => None,
    }
}

fn copy_cells(v: &Vec<Cell>) -> (r: Vec<Cell>)
    ensures
        r@ == v@,
{
    let mut r: Vec<Cell> = Vec::new();
    let mut i: usize = 0;
    while i < v.len()
        invariant
            i <= v@.len(),
            r@ == v@.take(i as int),
        decreases v@.len() - i,
    {
        r.push(v[i]);
        i += 1;
    }
    r
}

/// Whether two cursor positions are the same.
pub fn same_cursor(a: &Option<(u16, u16)>, b: &Option<(u16, u16)>) -> (r: bool)
    ensures
        r == (*a == *b),
{
    match (a, b) {
        (Some(p), Some(q)) => p.0 == q.0 && p.1 == q.1,
        (None, None) => true,
        _ => false,
    }
}

impl WindowInfo {
    /// Remembers what clients are about to be told.
    pub fn update_last_state(&mut self, ws: &WindowState)
        ensures
            final(self)@ == told(old(self)@, ws@),
    {
        self.last_screen = copy_cells(&ws.screen);
        self.last_cursor_pos = ws.cursor_pos;
    }

    /// Finds what to tell clients of a window whose state is now `ws`, and
    /// remembers it.
    pub fn report_change(&mut self, ws: WindowState) -> (r: Option<ServerMessage>)
        requires
            ws.id == old(self).id,
        ensures
            final(self)@ == told(old(self)@, ws@),
            opt_message(r) == change_report(old(self)@, ws@),
    {
        if self.last_screen.len() != ws.screen.len() {
            self.update_last_state(&ws);
            return Some(ServerMessage::WindowUpdate { window: ws });
        }
        let cells = changed_cells(&self.last_screen, &ws.screen);
        let cursor_changed = !same_cursor(&self.last_cursor_pos, &ws.cursor_pos);
        self.update_last_state(&ws);
        if cells.len() > 0 || cursor_changed {
            Some(
                ServerMessage::ScreenDiff {
                    window_id: ws.id,
                    cells,
                    cursor_pos: ws.cursor_pos,
                    scrollback_size: ws.scrollback_size,
                    scroll_offset: ws.scroll_offset,
                },
            )
        } else {
            None
        }
    }
}

/// A screen does not differ from itself.
pub proof fn lemma_no_changes(screen: Seq<Cell>, n: int)
    ensures
        changes_among(screen, screen, n).len() == 0,
    decreases n,
{
    if n > 0 {
        lemma_no_changes(screen, n - 1);
    }
}

} // verus!
