//! What can be done to a single window: moving, resizing, hiding, scrolling.

use vstd::prelude::*;
use crate::geometry::{clamp_int, maximize, maximized, min_int, sub_floor, sub_u16, Rect};
use crate::server::{law_change_keeps_invariant, ServerState, ServerStateView, SCROLLBACK_SIZE};
use crate::snapshot::{WindowInfo, WindowInfoView};

verus! {

broadcast use vstd::std_specs::hash::group_hash_axioms;

/// The size that the terminal of a window is to have.
#[derive(Debug, Clone, Copy, PartialEq, Eq, Structural)]
pub struct TermSize {
    pub window_id: usize,
    pub rows: u16,
    pub cols: u16,
}

/// The terminal size inside a window of some size.
pub open spec fn inside(window_id: usize, width: u16, height: u16) -> TermSize {
    TermSize {
        window_id,
        rows: sub_floor(height as int, 2) as u16,
        cols: sub_floor(width as int, 2) as u16,
    }
}

pub(crate) fn term_size(window_id: usize, width: u16, height: u16) -> (r: TermSize)
    ensures
        r == inside(window_id, width, height),
{
    TermSize { window_id, rows: sub_u16(height, 2), cols: sub_u16(width, 2) }
}

impl WindowInfoView {
    pub open spec fn resized(self, width: u16, height: u16) -> WindowInfoView {
        WindowInfoView { rect: Rect::at(self.rect.x, self.rect.y, width, height), ..self }
    }

    pub open spec fn moved(self, x: u16, y: u16) -> WindowInfoView {
        WindowInfoView { rect: Rect { x, y, ..self.rect }, ..self }
    }

    pub open spec fn minimize_toggled(self) -> WindowInfoView {
        WindowInfoView { minimized: !self.minimized, ..self }
    }

    pub open spec fn renamed(self, title: Seq<char>) -> WindowInfoView {
        WindowInfoView { title, ..self }
    }

    /// Fullscreen fills the screen but for its frame. Leaving it puts the window
    /// back to where it was.
    pub open spec fn fullscreen_toggled(self, screen: Rect) -> WindowInfoView {
        if self.fullscreen {
            WindowInfoView {
                rect: match self.saved_rect {
                    Some(saved) => saved,
                    None => self.rect,
                },
                saved_rect: None,
                fullscreen: false,
                ..self
            }
        } else {
            WindowInfoView {
                saved_rect: Some(self.rect),
                rect: Rect::at(
                    1,
                    1,
                    sub_floor(screen.width as int, 2) as u16,
                    sub_floor(screen.height as int, 2) as u16,
                ),
                fullscreen: true,
                minimized: false,
                ..self
            }
        }
    }

    /// A window with a remembered place goes back to it. Another one remembers
    /// its place and grows until it hits another window or the frame.
    pub open spec fn maximize_toggled(self, screen: Rect, others: Seq<Rect>) -> WindowInfoView {
        match self.saved_rect {
            Some(saved) => WindowInfoView { rect: saved, saved_rect: None, ..self },
            None => WindowInfoView {
                saved_rect: Some(self.rect),
                rect: maximized(self.rect, screen, others),
                ..self
            },
        }
    }

    pub open spec fn scrolled(self, amount: i32) -> WindowInfoView {
        WindowInfoView {
            scroll_offset: clamp_int(
                self.scroll_offset + amount,
                0,
                SCROLLBACK_SIZE as int,
            ) as usize,
            ..self
        }
    }

    pub open spec fn scrolled_to(self, offset: usize) -> WindowInfoView {
        WindowInfoView {
            scroll_offset: min_int(offset as int, SCROLLBACK_SIZE as int) as usize,
            ..self
        }
    }
}

/// Minimizing twice leaves a window as it was.
pub proof fn law_minimize_twice_restores(win: WindowInfoView)
    ensures
        win.minimize_toggled().minimize_toggled() == win,
{
}

/// Leaving fullscreen puts a window back to where it was before.
pub proof fn law_fullscreen_twice_restores(win: WindowInfoView, screen: Rect, later: Rect)
    requires
        !win.fullscreen,
    ensures
        win.fullscreen_toggled(screen).fullscreen,
        !win.fullscreen_toggled(screen).fullscreen_toggled(later).fullscreen,
        win.fullscreen_toggled(screen).fullscreen_toggled(later).rect == win.rect,
{
}

/// Maximizing twice leaves a window as it was.
pub proof fn law_maximize_twice_restores(
    win: WindowInfoView,
    screen: Rect,
    others: Seq<Rect>,
    later: Rect,
    others_later: Seq<Rect>,
)
    requires
        win.saved_rect is None,
    ensures
        win.maximize_toggled(screen, others).maximize_toggled(later, others_later) == win,
{
}

/// However often and far a view is scrolled, it stays within the history that a
/// terminal keeps; scrolling back and forth by one amount within it returns.
pub proof fn law_scrolling_stays_in_history(win: WindowInfoView, amount: i32)
    requires
        win.scroll_offset <= SCROLLBACK_SIZE,
    ensures
        win.scrolled(amount).scroll_offset <= SCROLLBACK_SIZE,
        0 <= win.scroll_offset + amount <= SCROLLBACK_SIZE ==> win.scrolled(amount).scroll_offset
            == win.scroll_offset + amount,
{
}

/// A change to one window leaves the others and the stack as they are.
pub proof fn law_change_touches_one_window(
    st: ServerStateView,
    id: usize,
    win: WindowInfoView,
    other: usize,
)
    requires
        other != id,
    ensures
        st.changed(id, win).order == st.order,
        st.changed(id, win).active == st.active,
        st.changed(id, win).windows.contains_key(other) == st.windows.contains_key(other),
        st.windows.contains_key(other) ==> st.changed(id, win).windows[other] == st.windows[other],
{
}

/// The places of the windows among the first `n` of the stack that are not
/// minimized, all but one.
pub open spec fn rects_upto(st: ServerStateView, id: usize, n: int) -> Seq<Rect>
    decreases n,
{
    if n <= 0 {
        Seq::empty()
    } else {
        let k = st.order[n - 1];
        let rest = rects_upto(st, id, n - 1);
        if k != id && st.windows.contains_key(k) && !st.windows[k].minimized {
            rest.push(st.windows[k].rect)
        } else {
            rest
        }
    }
}

/// The places of all other windows that are not minimized.
pub open spec fn other_rects(st: ServerStateView, id: usize) -> Seq<Rect> {
    rects_upto(st, id, st.order.len() as int)
}

impl ServerStateView {
    /// With a window changed, if it exists.
    pub open spec fn changed(self, id: usize, win: WindowInfoView) -> ServerStateView {
        if self.windows.contains_key(id) {
            self.with_window(id, win)
        } else {
            self
        }
    }

    /// Whether maximizing a window stays within coordinates.
    pub open spec fn can_maximize(self, id: usize) -> bool {
        self.windows.contains_key(id) && self.windows[id].saved_rect is None
            ==> self.windows[id].rect.fits()
    }
}

impl ServerState {
    /// Puts a window back after a change.
    pub(crate) fn put_back(&mut self, id: usize, win: WindowInfo, Ghost(before): Ghost<ServerStateView>)
        requires
            before.wf(),
            before.windows.contains_key(id),
            old(self)@ == (ServerStateView { windows: before.windows.remove(id), ..before }),
            win.id == id,
            win.focused == before.windows[id].focused,
            win.scroll_offset <= SCROLLBACK_SIZE,
        ensures
            final(self).wf(),
            final(self)@ == before.with_window(id, win@),
    {
        let ghost view = win@;
        self.windows.insert(id, win);
        proof {
            law_change_keeps_invariant(before, id, view);
            assert(self@.windows =~= old(self)@.windows.insert(id, view));
            assert(self@.windows =~= before.windows.insert(id, view));
            assert(self@ =~= before.with_window(id, view));
        }
    }

    /// Takes a window out in order to change it.
    pub(crate) fn take_out(&mut self, id: usize) -> (r: Option<WindowInfo>)
        requires
            old(self).wf(),
        ensures
            match r {
                Some(win) => old(self)@.windows.contains_key(id) && win@ == old(self)@.windows[id]
                    && final(self)@ == (ServerStateView {
                    windows: old(self)@.windows.remove(id),
                    ..old(self)@
                }),
                None => !old(self)@.windows.contains_key(id) && final(self)@ == old(self)@,
            },
    {
        let r = self.windows.remove(&id);
        assert(self@.windows =~= old(self)@.windows.remove(id));
        proof {
            if r is None {
                assert(self@.windows =~= old(self)@.windows);
                assert(self@ =~= old(self)@);
            }
        }
        r
    }

    pub fn resize_window(&mut self, id: usize, width: u16, height: u16) -> (r: Option<TermSize>)
        requires
            old(self).wf(),
        ensures
            final(self).wf(),
            final(self)@ == old(self)@.changed(id, old(self)@.windows[id].resized(width, height)),
            r == if old(self)@.windows.contains_key(id) {
                Some(inside(id, width, height))
            } else {
                None
            },
    {
        let ghost before = self@;
        match self.take_out(id) {
            Some(mut win) => {
                assert(before.windows.contains_key(id));
                win.rect = Rect::new(win.rect.x, win.rect.y, width, height);
                assert(win@ =~= before.windows[id].resized(width, height));
                self.put_back(id, win, Ghost(before));
                Some(term_size(id, width, height))
            },
            None => None,
        }
    }

    pub fn move_window(&mut self, id: usize, x: u16, y: u16) -> (r: bool)
        requires
            old(self).wf(),
        ensures
            final(self).wf(),
            final(self)@ == old(self)@.changed(id, old(self)@.windows[id].moved(x, y)),
            r == old(self)@.windows.contains_key(id),
    {
        let ghost before = self@;
        match self.take_out(id) {
            Some(mut win) => {
                assert(before.windows.contains_key(id));
                win.rect.x = x;
                win.rect.y = y;
                assert(win@ =~= before.windows[id].moved(x, y));
                self.put_back(id, win, Ghost(before));
                true
            },
            None => false,
        }
    }

    pub fn toggle_minimize(&mut self, id: usize) -> (r: bool)
        requires
            old(self).wf(),
        ensures
            final(self).wf(),
            final(self)@ == old(self)@.changed(id, old(self)@.windows[id].minimize_toggled()),
            r == old(self)@.windows.contains_key(id),
    {
        let ghost before = self@;
        match self.take_out(id) {
            Some(mut win) => {
                assert(before.windows.contains_key(id));
                win.minimized = !win.minimized;
                assert(win@ =~= before.windows[id].minimize_toggled());
                self.put_back(id, win, Ghost(before));
                true
            },
            None => false,
        }
    }

    pub fn rename_window(&mut self, id: usize, title: String) -> (r: bool)
        requires
            old(self).wf(),
        ensures
            final(self).wf(),
            final(self)@ == old(self)@.changed(id, old(self)@.windows[id].renamed(title@)),
            r == old(self)@.windows.contains_key(id),
    {
        let ghost before = self@;
        match self.take_out(id) {
            Some(mut win) => {
                assert(before.windows.contains_key(id));
                let ghost text = title@;
                win.title = title;
                assert(win@ =~= before.windows[id].renamed(text));
                self.put_back(id, win, Ghost(before));
                true
            },
            None => false,
        }
    }

    /// Scrolls the view of a window back (or forth, by a negative amount).
    pub fn scroll_window(&mut self, id: usize, amount: i32) -> (r: Option<usize>)
        requires
            old(self).wf(),
        ensures
            final(self).wf(),
            final(self)@ == old(self)@.changed(id, old(self)@.windows[id].scrolled(amount)),
            r == if old(self)@.windows.contains_key(id) {
                Some(old(self)@.windows[id].scrolled(amount).scroll_offset)
            } else {
                None
            },
    {
        let ghost before = self@;
        match self.take_out(id) {
            Some(mut win) => {
                assert(before.windows.contains_key(id));
                let wanted: i64 = win.scroll_offset as i64 + amount as i64;
                let offset: usize = if wanted < 0 {
                    0
                } else if wanted > SCROLLBACK_SIZE as i64 {
                    SCROLLBACK_SIZE
                } else {
                    wanted as usize
                };
                win.scroll_offset = offset;
                assert(win@ =~= before.windows[id].scrolled(amount));
                self.put_back(id, win, Ghost(before));
                Some(offset)
            },
            None => None,
        }
    }

    /// Scrolls the view of a window to a number of rows back.
    pub fn scroll_window_to(&mut self, id: usize, offset: usize) -> (r: Option<usize>)
        requires
            old(self).wf(),
        ensures
            final(self).wf(),
            final(self)@ == old(self)@.changed(id, old(self)@.windows[id].scrolled_to(offset)),
            r == if old(self)@.windows.contains_key(id) {
                Some(old(self)@.windows[id].scrolled_to(offset).scroll_offset)
            } else {
                None
            },
    {
        let ghost before = self@;
        match self.take_out(id) {
            Some(mut win) => {
                assert(before.windows.contains_key(id));
                let reached: usize = if offset > SCROLLBACK_SIZE {
                    SCROLLBACK_SIZE
                } else {
                    offset
                };
                win.scroll_offset = reached;
                assert(win@ =~= before.windows[id].scrolled_to(offset));
                self.put_back(id, win, Ghost(before));
                Some(reached)
            },
            None => None,
        }
    }

    /// Enters or leaves fullscreen. Returns whether the window exists, and the
    /// size that its terminal is to have where that changes.
    pub fn toggle_fullscreen(&mut self, id: usize, screen: &Rect) -> (r: (bool, Option<TermSize>))
        requires
            old(self).wf(),
        ensures
            final(self).wf(),
            final(self)@ == old(self)@.changed(
                id,
                old(self)@.windows[id].fullscreen_toggled(*screen),
            ),
            r.0 == old(self)@.windows.contains_key(id),
            r.1 == fullscreen_size(old(self)@, id, *screen),
    {
        let ghost before = self@;
        match self.take_out(id) {
            Some(mut win) => {
                assert(before.windows.contains_key(id));
                let size: Option<TermSize>;
                if win.fullscreen {
                    match win.saved_rect {
                        Some(saved) => {
                            win.rect = saved;
                            win.saved_rect = None;
                            size = Some(term_size(id, saved.width, saved.height));
                        },
                        None => {
                            size = None;
                        },
                    }
                    win.fullscreen = false;
                } else {
                    win.saved_rect = Some(win.rect);
                    win.rect = Rect::new(1, 1, sub_u16(screen.width, 2), sub_u16(screen.height, 2));
                    win.fullscreen = true;
                    win.minimized = false;
                    size = Some(term_size(id, win.rect.width, win.rect.height));
                }
                assert(win@ =~= before.windows[id].fullscreen_toggled(*screen));
                self.put_back(id, win, Ghost(before));
                (true, size)
            },
            None => (false, None),
        }
    }

    /// Collects where the other windows are that are not minimized.
    pub fn rects_of_others(&self, id: usize) -> (r: Vec<Rect>)
        ensures
            r@ == other_rects(self@, id),
    {
        let mut r: Vec<Rect> = Vec::new();
        let mut i: usize = 0;
        while i < self.window_order.len()
            invariant
                i <= self.window_order@.len(),
                r@ == rects_upto(self@, id, i as int),
            decreases self.window_order@.len() - i,
        {
            let k: usize = self.window_order[i];
            if k != id {
                if let Some(win) = self.windows.get(&k) {
                    if !win.minimized {
                        r.push(win.rect);
                    }
                }
            }
            i += 1;
        }
        r
    }

    /// Maximizes a window, or puts it back.
    pub fn toggle_maximize(&mut self, id: usize, screen: &Rect) -> (r: Option<TermSize>)
        requires
            old(self).wf(),
            old(self)@.can_maximize(id),
        ensures
            final(self).wf(),
            final(self)@ == old(self)@.changed(
                id,
                old(self)@.windows[id].maximize_toggled(*screen, other_rects(old(self)@, id)),
            ),
            r == maximize_size(old(self)@, id, *screen),
    {
        let ghost before = self@;
        let others = self.rects_of_others(id);
        match self.take_out(id) {
            Some(mut win) => {
                assert(before.windows.contains_key(id));
                match win.saved_rect {
                    Some(saved) => {
                        win.rect = saved;
                        win.saved_rect = None;
                    },
                    None => {
                        win.saved_rect = Some(win.rect);
                        win.rect = maximize(win.rect, screen, &others);
                    },
                }
                let size = term_size(id, win.rect.width, win.rect.height);
                assert(win@ =~= before.windows[id].maximize_toggled(*screen, others@));
                self.put_back(id, win, Ghost(before));
                Some(size)
            },
            None => None,
        }
    }
}

/// The size that a terminal is to have after fullscreen is entered or left, where
/// that changes the size of its window.
pub open spec fn fullscreen_size(st: ServerStateView, id: usize, screen: Rect) -> Option<TermSize> {
    if st.windows.contains_key(id) && !(st.windows[id].fullscreen && st.windows[id].saved_rect
        is None) {
        let rect = st.windows[id].fullscreen_toggled(screen).rect;
        Some(inside(id, rect.width, rect.height))
    } else {
        None
    }
}

/// The size that a terminal is to have after its window is maximized or put back.
pub open spec fn maximize_size(st: ServerStateView, id: usize, screen: Rect) -> Option<TermSize> {
    if st.windows.contains_key(id) {
        let rect = st.windows[id].maximize_toggled(screen, other_rects(st, id)).rect;
        Some(inside(id, rect.width, rect.height))
    } else {
        None
    }
}

} // verus!
