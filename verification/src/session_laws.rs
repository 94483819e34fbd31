//! What clients can rely on: what each of their requests does to a session, and
//! what a server tells them.

use vstd::prelude::*;
use crate::arrange::{inside, other_rects, rects_upto};
use crate::geometry::{
    blocked, has_room, law_blocked_rectangle_stays, law_maximized_reaches_others_or_edge,
    maximized, taller_down, taller_up, wider_left, wider_right, Rect, MIN_HEIGHT, MIN_WIDTH,
};
use crate::protocol::{ClientMessageView, ServerMessageView, WindowStateView};
use crate::screen::{
    cell_at, screen_cursor, screen_cursor_hidden, screen_mouse_mode, shown_cell, MouseMode,
};
use crate::server::{
    all_states, dropped, law_focus_raises_one_window, state_of, states_upto, ServerStateView,
};
use crate::session::{report_of, update_of, ClientSize, PlanView, SessionView};
use crate::snapshot::{lemma_position_from, TerminalView, WindowInfoView};
use crate::solo::{lemma_shown, shown};

verus! {

/// Whether two sessions have the same windows, stack, focus, solo mode and
/// clients, but for what is known of one window.
pub open spec fn same_but_window(a: SessionView, b: SessionView, id: usize) -> bool {
    &&& b.writers == a.writers
    &&& b.sizes == a.sizes
    &&& b.screen == a.screen
    &&& b.state.order == a.state.order
    &&& b.state.active == a.state.active
    &&& b.state.solo == a.state.solo
    &&& b.state.next_id == a.state.next_id
    &&& b.state.windows.dom() == a.state.windows.dom()
    &&& forall|k: usize|
        k != id && a.state.windows.contains_key(k) ==> #[trigger] b.state.windows[k]
            == a.state.windows[k]
}

/// A request that is about a window that is not there changes nothing of the
/// windows, and nothing is done for it.
pub proof fn law_request_for_no_window_does_nothing(
    session: SessionView,
    client: u64,
    msg: ClientMessageView,
    id: usize,
)
    requires
        session.wf(),
        !session.state.windows.contains_key(id),
        match msg {
            ClientMessageView::ResizeWindow { window_id, .. } => window_id == id,
            ClientMessageView::MoveWindow { window_id, .. } => window_id == id,
            ClientMessageView::MinimizeWindow { window_id } => window_id == id,
            ClientMessageView::MaximizeWindow { window_id } => window_id == id,
            ClientMessageView::ToggleFullscreen { window_id } => window_id == id,
            ClientMessageView::Scroll { window_id, .. } => window_id == id,
            ClientMessageView::ScrollTo { window_id, .. } => window_id == id,
            ClientMessageView::ClearScrollback { window_id } => window_id == id,
            ClientMessageView::RenameWindow { window_id, .. } => window_id == id,
            ClientMessageView::ToggleSolo { window_id } => window_id == id,
            ClientMessageView::TemporaryExpand { window_id } => window_id == id,
            ClientMessageView::TemporaryCollapse { window_id } => window_id == id,
            ClientMessageView::Input { window_id, .. } => window_id == id,
            _ => false,
        },
    ensures
        session.after(client, msg) == session,
        session.plan(msg) == PlanView::Nothing,
{
}

/// A window that is moved is at the new place with its old size. Clients are told.
pub proof fn law_moved_window_keeps_its_size(
    session: SessionView,
    client: u64,
    id: usize,
    x: u16,
    y: u16,
)
    requires
        session.wf(),
        session.state.windows.contains_key(id),
    ensures
        ({
            let msg = ClientMessageView::MoveWindow { window_id: id, x, y };
            let after = session.after(client, msg);
            let was = session.state.windows[id];
            let win = after.state.windows[id];
            &&& same_but_window(session, after, id)
            &&& win.rect.x == x && win.rect.y == y
            &&& win.rect.width == was.rect.width && win.rect.height == was.rect.height
            &&& win == (WindowInfoView { rect: win.rect, ..was })
            &&& session.plan(msg) == (PlanView::Refresh { window_id: id })
        }),
{
    let msg = ClientMessageView::MoveWindow { window_id: id, x, y };
    assert(session.after(client, msg).state.windows.dom() =~= session.state.windows.dom());
}

/// A window that is resized keeps its place and has the new size, as far as
/// coordinates go. Its terminal gets the size that is left inside the frame.
pub proof fn law_resized_window_keeps_its_place(
    session: SessionView,
    client: u64,
    id: usize,
    width: u16,
    height: u16,
)
    requires
        session.wf(),
        session.state.windows.contains_key(id),
    ensures
        ({
            let msg = ClientMessageView::ResizeWindow { window_id: id, width, height };
            let after = session.after(client, msg);
            let was = session.state.windows[id];
            let win = after.state.windows[id];
            &&& same_but_window(session, after, id)
            &&& win.rect.x == was.rect.x && win.rect.y == was.rect.y
            &&& was.rect.x + width <= u16::MAX ==> win.rect.width == width
            &&& was.rect.y + height <= u16::MAX ==> win.rect.height == height
            &&& win == (WindowInfoView { rect: win.rect, ..was })
            &&& session.plan(msg) matches PlanView::Resize { size } && size.window_id == id && (2
                <= width ==> size.cols + 2 == width) && (2 <= height ==> size.rows + 2 == height)
        }),
{
    let msg = ClientMessageView::ResizeWindow { window_id: id, width, height };
    assert(session.after(client, msg).state.windows.dom() =~= session.state.windows.dom());
}

/// Minimizing a window minimizes it where it is shown and shows it where it is
/// minimized, and changes nothing else. Clients are told.
pub proof fn law_minimizing_changes_one_flag(session: SessionView, client: u64, id: usize)
    requires
        session.wf(),
        session.state.windows.contains_key(id),
    ensures
        ({
            let msg = ClientMessageView::MinimizeWindow { window_id: id };
            let after = session.after(client, msg);
            let was = session.state.windows[id];
            let win = after.state.windows[id];
            &&& same_but_window(session, after, id)
            &&& win.minimized != was.minimized
            &&& win == (WindowInfoView { minimized: win.minimized, ..was })
            &&& session.plan(msg) == (PlanView::Refresh { window_id: id })
        }),
{
    let msg = ClientMessageView::MinimizeWindow { window_id: id };
    assert(session.after(client, msg).state.windows.dom() =~= session.state.windows.dom());
}

/// A window that is renamed has the new name, and nothing else changes. Clients
/// are told.
pub proof fn law_renamed_window_has_the_name(
    session: SessionView,
    client: u64,
    id: usize,
    title: Seq<char>,
)
    requires
        session.wf(),
        session.state.windows.contains_key(id),
    ensures
        ({
            let msg = ClientMessageView::RenameWindow { window_id: id, title };
            let after = session.after(client, msg);
            let was = session.state.windows[id];
            let win = after.state.windows[id];
            &&& same_but_window(session, after, id)
            &&& win.title == title
            &&& win == (WindowInfoView { title: win.title, ..was })
            &&& session.plan(msg) == (PlanView::Refresh { window_id: id })
        }),
{
    let msg = ClientMessageView::RenameWindow { window_id: id, title };
    assert(session.after(client, msg).state.windows.dom() =~= session.state.windows.dom());
}

/// A window that becomes fullscreen is shown and fills the screen but for a frame
/// of one cell; one that was fullscreen is where it was before. Its terminal gets
/// the size inside the frame.
pub proof fn law_fullscreen_fills_the_screen(session: SessionView, client: u64, id: usize)
    requires
        session.wf(),
        session.state.windows.contains_key(id),
        2 <= session.screen.width,
        2 <= session.screen.height,
    ensures
        ({
            let msg = ClientMessageView::ToggleFullscreen { window_id: id };
            let after = session.after(client, msg);
            let was = session.state.windows[id];
            let win = after.state.windows[id];
            &&& same_but_window(session, after, id)
            &&& win.fullscreen != was.fullscreen
            &&& win.fullscreen ==> {
                &&& win.rect.x == 1 && win.rect.y == 1
                &&& win.rect.width == session.screen.width - 2
                &&& win.rect.height == session.screen.height - 2
                &&& win.saved_rect == Some(was.rect)
                &&& !win.minimized
            }
            &&& !win.fullscreen ==> {
                &&& was.saved_rect matches Some(saved) ==> win.rect == saved
                &&& was.saved_rect is None ==> win.rect == was.rect
                &&& win.saved_rect is None
                &&& win.minimized == was.minimized
            }
            &&& win == (WindowInfoView {
                rect: win.rect,
                saved_rect: win.saved_rect,
                fullscreen: win.fullscreen,
                minimized: win.minimized,
                ..was
            })
            &&& session.plan(msg) matches PlanView::Resize { size } ==> size == inside(
                id,
                win.rect.width,
                win.rect.height,
            )
            &&& win.fullscreen ==> session.plan(msg) is Resize
            &&& win.rect != was.rect ==> session.plan(msg) is Resize
        }),
{
    let msg = ClientMessageView::ToggleFullscreen { window_id: id };
    assert(session.after(client, msg).state.windows.dom() =~= session.state.windows.dom());
}

/// Scrolling moves the view of a window by the rows that were asked for, as far as
/// there can be history, and its terminal is scrolled to the same place.
pub proof fn law_scrolling_moves_the_view(
    session: SessionView,
    client: u64,
    id: usize,
    amount: i32,
    offset: usize,
)
    requires
        session.wf(),
        session.state.windows.contains_key(id),
    ensures
        ({
            let by = ClientMessageView::Scroll { window_id: id, amount };
            let to = ClientMessageView::ScrollTo { window_id: id, offset };
            let was = session.state.windows[id];
            let moved = session.after(client, by).state.windows[id];
            let there = session.after(client, to).state.windows[id];
            let wanted = was.scroll_offset + amount;
            &&& same_but_window(session, session.after(client, by), id)
            &&& same_but_window(session, session.after(client, to), id)
            &&& moved == (WindowInfoView { scroll_offset: moved.scroll_offset, ..was })
            &&& there == (WindowInfoView { scroll_offset: there.scroll_offset, ..was })
            &&& 0 <= wanted <= 3000 ==> moved.scroll_offset == wanted
            &&& wanted < 0 ==> moved.scroll_offset == 0
            &&& wanted > 3000 ==> moved.scroll_offset == 3000
            &&& offset <= 3000 ==> there.scroll_offset == offset
            &&& offset > 3000 ==> there.scroll_offset == 3000
            &&& session.plan(by) == (PlanView::Scroll {
                window_id: id,
                offset: moved.scroll_offset,
            })
            &&& session.plan(to) == (PlanView::Scroll {
                window_id: id,
                offset: there.scroll_offset,
            })
        }),
{
    let by = ClientMessageView::Scroll { window_id: id, amount };
    let to = ClientMessageView::ScrollTo { window_id: id, offset };
    assert(session.after(client, by).state.windows.dom() =~= session.state.windows.dom());
    assert(session.after(client, to).state.windows.dom() =~= session.state.windows.dom());
}

/// Clearing the history of a window shows its newest rows, and has its terminal
/// drop the history.
pub proof fn law_cleared_window_shows_its_newest_rows(
    session: SessionView,
    client: u64,
    id: usize,
)
    requires
        session.wf(),
        session.state.windows.contains_key(id),
    ensures
        ({
            let msg = ClientMessageView::ClearScrollback { window_id: id };
            let after = session.after(client, msg);
            let was = session.state.windows[id];
            &&& same_but_window(session, after, id)
            &&& after.state.windows[id] == (WindowInfoView { scroll_offset: 0, ..was })
            &&& session.plan(msg) == (PlanView::ClearHistory { window_id: id })
        }),
{
    let msg = ClientMessageView::ClearScrollback { window_id: id };
    assert(session.after(client, msg).state.windows.dom() =~= session.state.windows.dom());
}

/// What is typed goes to the terminal of the window as it is.
pub proof fn law_input_reaches_the_terminal(
    session: SessionView,
    client: u64,
    id: usize,
    data: Seq<u8>,
)
    requires
        session.wf(),
        session.state.windows.contains_key(id),
    ensures
        ({
            let msg = ClientMessageView::Input { window_id: id, data };
            &&& session.after(client, msg) == session
            &&& session.plan(msg) == (PlanView::Write { window_id: id, data })
        }),
{
}

/// Requests about files and captures change nothing of the session, and have the
/// server do what they name, with the path that they give.
pub proof fn law_files_and_captures_are_asked_for(
    session: SessionView,
    client: u64,
    path: Seq<char>,
    id: usize,
)
    ensures
        session.after(client, ClientMessageView::SaveLayout { path }) == session,
        session.plan(ClientMessageView::SaveLayout { path }) == (PlanView::SaveLayout { path }),
        session.after(client, ClientMessageView::LoadLayout { path }) == session,
        session.plan(ClientMessageView::LoadLayout { path }) == (PlanView::LoadLayout { path }),
        session.after(client, ClientMessageView::CapturePane { window_id: id }) == session,
        session.plan(ClientMessageView::CapturePane { window_id: id }) == (PlanView::CapturePane {
            window_id: id,
        }),
        session.after(client, ClientMessageView::CaptureFull) == session,
        session.plan(ClientMessageView::CaptureFull) == PlanView::CaptureFull,
        session.after(client, ClientMessageView::Disconnect) == session,
        session.plan(ClientMessageView::Disconnect) == PlanView::Disconnect,
{
}

/// A new window has the number that comes next, runs the command that was asked
/// for, and has a terminal that fills its frame. Where there is room for it, it is
/// at the place and has the size that were asked for. The other windows are left
/// alone until its terminal has started.
pub proof fn law_requested_window_is_opened(
    session: SessionView,
    client: u64,
    x: u16,
    y: u16,
    width: u16,
    height: u16,
    command: Option<Seq<char>>,
    args: Seq<Seq<char>>,
)
    requires
        session.wf(),
        has_room(session.screen),
        session.state.next_id < usize::MAX,
    ensures
        ({
            let msg = ClientMessageView::CreateWindow { x, y, width, height, command, args };
            let after = session.after(client, msg);
            &&& after.state.windows == session.state.windows
            &&& after.state.order == session.state.order
            &&& after.state.active == session.state.active
            &&& after.state.solo == session.state.solo
            &&& after.state.next_id == session.state.next_id + 1
            &&& after.writers == session.writers
            &&& after.sizes == session.sizes
            &&& session.plan(msg) matches PlanView::Spawn { window } && {
                &&& window.id == session.state.next_id
                &&& window.command == command
                &&& window.args == args
                &&& window.rows == window.rect.height - 2
                &&& window.cols == window.rect.width - 2
                &&& window.rect.x <= x
                &&& window.rect.y <= y
                &&& MIN_WIDTH <= width && x + width + 2 <= session.screen.width ==> window.rect.x
                    == x && window.rect.width == width
                &&& MIN_HEIGHT <= height && y + height + 2 <= session.screen.height
                    ==> window.rect.y == y && window.rect.height == height
                &&& MIN_WIDTH <= window.rect.width
                &&& MIN_HEIGHT <= window.rect.height
                &&& window.rect.x + window.rect.width < session.screen.width
                &&& window.rect.y + window.rect.height < session.screen.height
            }
        }),
{
}

/// Once its terminal has started, a new window is there, at the front and with the
/// focus, with its place, its command and a name by its number. The other windows
/// lose the focus and nothing else.
pub proof fn law_opened_window_is_there(
    st: ServerStateView,
    w: crate::server::NewWindowView,
    k: usize,
)
    requires
        st.wf(),
        w.id < st.next_id,
        !st.windows.contains_key(w.id),
    ensures
        ({
            let after = st.created(w);
            let win = after.windows[w.id];
            &&& after.windows.contains_key(k) <==> k == w.id || st.windows.contains_key(k)
            &&& st.windows.contains_key(k) ==> after.windows[k] == (WindowInfoView {
                focused: false,
                ..st.windows[k]
            })
            &&& win.id == w.id
            &&& win.rect == w.rect
            &&& win.command == w.command
            &&& win.args == w.args
            &&& win.title == "Terminal "@ + crate::text::decimal(w.id as nat)
            &&& win.focused && !win.minimized && !win.fullscreen
            &&& win.saved_rect is None
            &&& win.scroll_offset == 0
            &&& win.last_screen.len() == 0
            &&& after.order == st.order.push(w.id)
            &&& after.active == Some(w.id)
            &&& after.next_id == st.next_id
            &&& after.solo == st.solo
        }),
{
    crate::server::law_new_window_is_in_front(st, w);
}

/// A window that gets the focus is at the front and the one with the focus; the
/// others keep their order and lose the focus, and nothing else changes. Clients
/// are told of all windows.
pub proof fn law_focus_goes_to_one_window(session: SessionView, client: u64, id: usize, k: usize)
    requires
        session.wf(),
        session.state.windows.contains_key(id),
    ensures
        ({
            let msg = ClientMessageView::FocusWindow { window_id: id };
            let st = session.state;
            let after = session.after(client, msg).state;
            &&& after.active == Some(id)
            &&& after.order.len() == st.order.len()
            &&& after.order.last() == id
            &&& dropped(after.order, id) == dropped(st.order, id)
            &&& after.windows.contains_key(k) == st.windows.contains_key(k)
            &&& st.windows.contains_key(k) ==> after.windows[k] == (WindowInfoView {
                focused: k == id,
                ..st.windows[k]
            })
            &&& after.solo == st.solo
            &&& after.next_id == st.next_id
            &&& session.plan(msg) == PlanView::Sync
        }),
{
    law_focus_raises_one_window(session.state, id);
}

/// A window that is closed is gone. The others keep their order and are as they
/// were, but for the focus, and for being shown again where solo mode ends with
/// the window. The server lets go of the terminal.
pub proof fn law_closed_window_is_gone(session: SessionView, client: u64, id: usize, k: usize)
    requires
        session.wf(),
    ensures
        ({
            let msg = ClientMessageView::CloseWindow { window_id: id };
            let st = session.state;
            let after = session.after(client, msg).state;
            let ends = st.solo matches Some(solo) && solo.origin == id;
            &&& after.windows.contains_key(k) <==> k != id && st.windows.contains_key(k)
            &&& after.windows.contains_key(k) ==> {
                &&& after.windows[k] == (WindowInfoView {
                    focused: after.windows[k].focused,
                    minimized: after.windows[k].minimized,
                    ..st.windows[k]
                })
                &&& !ends ==> after.windows[k].minimized == st.windows[k].minimized
                &&& ends ==> after.windows[k].minimized == (st.windows[k].minimized
                    && !st.solo->0.hidden.contains(k))
                &&& after.windows[k].focused == (after.active == Some(k))
            }
            &&& after.order == dropped(st.order, id)
            &&& st.active != Some(id) ==> after.active == st.active
            &&& st.active == Some(id) ==> after.active == if after.order.len() > 0 {
                Some(after.order.last())
            } else {
                None
            }
            &&& after.solo == if ends {
                None
            } else {
                st.solo
            }
            &&& after.next_id == st.next_id
            &&& session.plan(msg) == (PlanView::Close { window_id: id })
        }),
{
    let st = session.state;
    crate::server::law_remove_keeps_invariant(st, id);
    if st.windows.contains_key(k) {
        assert(st.windows[k].focused == (st.active == Some(k)));
    }
}

/// Whether a rectangle is the place of another window that is shown.
pub open spec fn is_place_of_another(st: ServerStateView, id: usize, r: Rect) -> bool {
    exists|k: usize|
        k != id && #[trigger] st.windows.contains_key(k) && !st.windows[k].minimized
            && st.windows[k].rect == r
}

proof fn lemma_other_rects(st: ServerStateView, id: usize, n: int)
    requires
        st.wf(),
        0 <= n <= st.order.len(),
    ensures
        forall|j: int|
            0 <= j < n && #[trigger] st.order[j] != id && !st.windows[st.order[j]].minimized
                ==> rects_upto(st, id, n).contains(st.windows[st.order[j]].rect),
        forall|i: int|
            0 <= i < rects_upto(st, id, n).len() ==> is_place_of_another(
                st,
                id,
                #[trigger] rects_upto(st, id, n)[i],
            ),
    decreases n,
{
    if n > 0 {
        lemma_other_rects(st, id, n - 1);
        let k = st.order[n - 1];
        let rest = rects_upto(st, id, n - 1);
        let all = rects_upto(st, id, n);
        assert(st.order.contains(k));
        assert forall|j: int|
            0 <= j < n && #[trigger] st.order[j] != id
                && !st.windows[st.order[j]].minimized implies all.contains(
            st.windows[st.order[j]].rect,
        ) by {
            if j < n - 1 {
                let r = st.windows[st.order[j]].rect;
                assert(rest.contains(r));
                let i = choose|i: int| 0 <= i < rest.len() && rest[i] == r;
                assert(all[i] == r);
            } else {
                assert(all[rest.len() as int] == st.windows[k].rect);
            }
        }
        assert forall|i: int| 0 <= i < all.len() implies is_place_of_another(
            st,
            id,
            #[trigger] all[i],
        ) by {
            if i < rest.len() {
                assert(all[i] == rest[i]);
            } else {
                assert(st.windows.contains_key(k));
            }
        }
    }
}

/// What stops a window from growing are all other windows that are shown, and
/// nothing else, wherever they are in the stack.
pub proof fn law_all_other_shown_windows_are_in_the_way(st: ServerStateView, id: usize)
    requires
        st.wf(),
    ensures
        forall|k: usize|
            k != id && #[trigger] st.windows.contains_key(k) && !st.windows[k].minimized
                ==> other_rects(st, id).contains(st.windows[k].rect),
        forall|i: int|
            0 <= i < other_rects(st, id).len() ==> is_place_of_another(
                st,
                id,
                #[trigger] other_rects(st, id)[i],
            ),
{
    let n = st.order.len() as int;
    lemma_other_rects(st, id, n);
    assert forall|k: usize|
        k != id && #[trigger] st.windows.contains_key(k)
            && !st.windows[k].minimized implies other_rects(st, id).contains(
        st.windows[k].rect,
    ) by {
        assert(st.order.contains(k));
        let j = choose|j: int| 0 <= j < st.order.len() && st.order[j] == k;
        assert(st.order[j] == k);
    }
}

/// Whether a rectangle lies over another window that is shown.
pub open spec fn covers_another(st: ServerStateView, id: usize, r: Rect) -> bool {
    exists|k: usize|
        k != id && #[trigger] st.windows.contains_key(k) && !st.windows[k].minimized && r.meets(
            st.windows[k].rect,
        )
}

proof fn lemma_blocked_is_covering(st: ServerStateView, id: usize, r: Rect)
    requires
        st.wf(),
    ensures
        blocked(r, other_rects(st, id)) <==> covers_another(st, id, r),
{
    let others = other_rects(st, id);
    law_all_other_shown_windows_are_in_the_way(st, id);
    if blocked(r, others) {
        let i = choose|i: int| 0 <= i < others.len() && r.meets(#[trigger] others[i]);
        let k = choose|k: usize|
            k != id && #[trigger] st.windows.contains_key(k) && !st.windows[k].minimized
                && st.windows[k].rect == others[i];
    }
    if covers_another(st, id, r) {
        let k = choose|k: usize|
            k != id && #[trigger] st.windows.contains_key(k) && !st.windows[k].minimized
                && r.meets(st.windows[k].rect);
        let i = choose|i: int| 0 <= i < others.len() && others[i] == st.windows[k].rect;
        assert(r.meets(others[i]));
    }
}

/// A maximized window covers what it covered, and lies over no other shown window
/// that it did not lie over before. On each side it has grown until it reached the
/// frame of the screen, or a step more would have it lie over another shown
/// window. It remembers where it was, and goes back there the next time. Its
/// terminal gets the size inside its frame.
pub proof fn law_maximized_window_fills_the_free_space(
    session: SessionView,
    client: u64,
    id: usize,
)
    requires
        session.wf(),
        session.state.windows.contains_key(id),
        session.state.windows[id].saved_rect is None,
        session.state.windows[id].rect.fits(),
    ensures
        ({
            let msg = ClientMessageView::MaximizeWindow { window_id: id };
            let st = session.state;
            let after = session.after(client, msg);
            let was = st.windows[id];
            let win = after.state.windows[id];
            let m = win.rect;
            let back = after.after(client, msg);
            &&& same_but_window(session, after, id)
            &&& win == (WindowInfoView { rect: m, saved_rect: Some(was.rect), ..was })
            &&& m.encloses(was.rect)
            &&& !covers_another(st, id, was.rect) ==> !covers_another(st, id, m)
            &&& covers_another(st, id, was.rect) ==> m == was.rect
            &&& m.y <= 1 || covers_another(st, id, taller_up(m))
            &&& m.x <= 1 || covers_another(st, id, wider_left(m))
            &&& m.y + m.height >= session.screen.height - 1 || covers_another(
                st,
                id,
                taller_down(m),
            )
            &&& m.x + m.width >= session.screen.width - 1 || covers_another(
                st,
                id,
                wider_right(m),
            )
            &&& session.plan(msg) == (PlanView::Resize { size: inside(id, m.width, m.height) })
            &&& same_but_window(session, back, id)
            &&& back.state.windows[id] == was
        }),
{
    let msg = ClientMessageView::MaximizeWindow { window_id: id };
    let st = session.state;
    let others = other_rects(st, id);
    let r = st.windows[id].rect;
    let m = maximized(r, session.screen, others);
    law_maximized_reaches_others_or_edge(r, session.screen, others);
    if blocked(r, others) {
        law_blocked_rectangle_stays(r, session.screen, others);
    }
    lemma_blocked_is_covering(st, id, r);
    lemma_blocked_is_covering(st, id, m);
    lemma_blocked_is_covering(st, id, taller_up(m));
    lemma_blocked_is_covering(st, id, taller_down(m));
    lemma_blocked_is_covering(st, id, wider_left(m));
    lemma_blocked_is_covering(st, id, wider_right(m));
    let after = session.after(client, msg);
    assert(after.state.windows.dom() =~= st.windows.dom());
    assert(after.after(client, msg).state.windows.dom() =~= st.windows.dom());
}

/// What clients are told of a window is what the session has of it: its number,
/// name, place and size, whether it is minimized, focused or fullscreen, and how
/// far it is scrolled back. Whether its program runs, how that ended and how much
/// history there is comes from its terminal. Its height is its place in the stack.
pub open spec fn is_state_of<'a>(
    ws: WindowStateView,
    st: ServerStateView,
    terms: Map<usize, TerminalView<'a>>,
    id: usize,
) -> bool {
    let win = st.windows[id];
    let term = terms[id];
    &&& ws.id == id
    &&& ws.title == win.title
    &&& ws.x == win.rect.x && ws.y == win.rect.y
    &&& ws.width == win.rect.width && ws.height == win.rect.height
    &&& ws.minimized == win.minimized
    &&& ws.focused == win.focused
    &&& ws.fullscreen == win.fullscreen
    &&& ws.scroll_offset == win.scroll_offset
    &&& ws.running == term.running
    &&& ws.exit_code == term.exit_code
    &&& ws.scrollback_size == term.scrollback_size
    &&& ws.cursor_visible == (!win.minimized && win.focused && term.running)
    &&& screen_cursor_hidden(*term.screen) ==> ws.cursor_pos is None
    &&& !screen_cursor_hidden(*term.screen) ==> ws.cursor_pos == Some(screen_cursor(*term.screen))
    &&& ws.mouse_reporting == (screen_mouse_mode(*term.screen) != MouseMode::Off)
    &&& ws.z_order < st.order.len() && st.order[ws.z_order as int] == id
}

/// What clients are told of a window is its state, and all that they are told of
/// it: in an update, and in the messages about all windows, where each window is
/// in its place of the stack.
pub proof fn law_clients_are_told_the_state<'a>(
    session: SessionView,
    terms: Map<usize, TerminalView<'a>>,
    id: usize,
)
    requires
        session.wf(),
        session.state.order.len() <= usize::MAX,
        session.state.windows.contains_key(id),
        terms.contains_key(id),
    ensures
        update_of(session.state, terms, id) matches Some(ServerMessageView::WindowUpdate { window })
            && is_state_of(window, session.state, terms, id),
        report_of(session.state, terms, id) matches Some(ServerMessageView::WindowUpdate { window })
            ==> is_state_of(window, session.state, terms, id),
        report_of(session.state, terms, id) matches Some(
            ServerMessageView::ScreenDiff { window_id, scroll_offset, scrollback_size, .. },
        ) ==> window_id == id && scroll_offset == session.state.windows[id].scroll_offset
            && scrollback_size == terms[id].scrollback_size,
{
    lemma_state_of(session.state, terms, id);
}

proof fn lemma_state_of<'a>(st: ServerStateView, terms: Map<usize, TerminalView<'a>>, id: usize)
    requires
        st.wf(),
        st.order.len() <= usize::MAX,
        st.windows.contains_key(id),
        terms.contains_key(id),
    ensures
        state_of(st, terms, id) matches Some(ws) && is_state_of(ws, st, terms, id),
{
    assert(st.order.contains(id));
    lemma_position_from(st.order, id, 0);
}

proof fn lemma_all_states<'a>(st: ServerStateView, terms: Map<usize, TerminalView<'a>>, n: int)
    requires
        st.wf(),
        st.order.len() <= usize::MAX,
        forall|k: usize| #[trigger] st.windows.contains_key(k) ==> terms.contains_key(k),
        0 <= n <= st.order.len(),
    ensures
        states_upto(st, terms, n).len() == n,
        forall|i: int|
            0 <= i < n ==> is_state_of(
                #[trigger] states_upto(st, terms, n)[i],
                st,
                terms,
                st.order[i],
            ),
    decreases n,
{
    if n > 0 {
        lemma_all_states(st, terms, n - 1);
        let id = st.order[n - 1];
        assert(st.order.contains(id));
        assert(st.windows.contains_key(id));
        lemma_state_of(st, terms, id);
        let rest = states_upto(st, terms, n - 1);
        let all = states_upto(st, terms, n);
        assert forall|i: int| 0 <= i < n implies is_state_of(
            #[trigger] all[i],
            st,
            terms,
            st.order[i],
        ) by {
            if i < n - 1 {
                assert(all[i] == rest[i]);
            }
        }
    }
}

/// In the message about all windows there is each window once, back to front, with
/// its state, and whether solo mode is on and for which window.
pub proof fn law_sync_tells_of_every_window<'a>(
    session: SessionView,
    terms: Map<usize, TerminalView<'a>>,
)
    requires
        session.wf(),
        session.state.order.len() <= usize::MAX,
        forall|k: usize| #[trigger]
            session.state.windows.contains_key(k) ==> terms.contains_key(k),
    ensures
        session.sync(terms) matches ServerMessageView::FullSync {
            windows,
            solo_mode_active,
            solo_origin_id,
        } && windows == all_states(session.state, terms) && windows.len()
            == session.state.order.len() && (forall|i: int|
            0 <= i < windows.len() ==> is_state_of(
                #[trigger] windows[i],
                session.state,
                terms,
                session.state.order[i],
            )) && (solo_mode_active <==> session.state.solo is Some) && (solo_mode_active
            ==> solo_origin_id == Some(session.state.solo->0.origin)) && (!solo_mode_active
            ==> solo_origin_id is None),
{
    lemma_all_states(session.state, terms, session.state.order.len() as int);
}

/// The screen that clients are told of a window has a cell for each row and column
/// inside its frame, row by row, and each is the cell of the terminal there.
pub proof fn law_clients_are_told_every_cell<'a>(
    st: ServerStateView,
    terms: Map<usize, TerminalView<'a>>,
    id: usize,
    r: int,
    c: int,
)
    requires
        st.wf(),
        st.windows.contains_key(id),
        terms.contains_key(id),
        0 <= r < st.windows[id].rect.height - 2,
        0 <= c < st.windows[id].rect.width - 2,
    ensures
        ({
            let rect = st.windows[id].rect;
            let ws = state_of(st, terms, id)->0;
            &&& ws.screen.len() == (rect.width - 2) * (rect.height - 2)
            &&& ws.screen[r * (rect.width - 2) + c] == shown_cell(
                cell_at(*terms[id].screen, r, c),
            )
        }),
{
    let w = st.windows[id].rect.width - 2;
    let h = st.windows[id].rect.height - 2;
    assert(0 <= r * w + c < w * h) by (nonlinear_arith)
        requires
            0 <= r < h,
            0 <= c < w,
    ;
    vstd::arithmetic::div_mod::lemma_fundamental_div_mod_converse(r * w + c, w, r, c);
}

/// A client that reports its size, or connects, has that size; the others keep
/// theirs, and nothing of the windows changes.
pub proof fn law_reported_size_is_kept(
    session: SessionView,
    client: u64,
    width: u16,
    height: u16,
    s: ClientSize,
)
    requires
        session.wf(),
    ensures
        ({
            let first = ClientMessageView::Connect { term_size: (width, height) };
            let later = ClientMessageView::TerminalResize { width, height };
            let after = session.after(client, first);
            &&& session.after(client, later) == after
            &&& after.state == session.state
            &&& after.writers == session.writers
            &&& after.sizes.contains(s) <==> if s.id == client {
                s.width == width && s.height == height
            } else {
                session.sizes.contains(s)
            }
            &&& session.plan(first) == PlanView::Nothing
            &&& session.plan(later) == PlanView::Nothing
        }),
{
    let size = ClientSize { id: client, width, height };
    crate::session::lemma_without_size(session.sizes, client);
    let rest = crate::session::without_size(session.sizes, client);
    let all = rest.push(size);
    assert(all[rest.len() as int] == size);
    if all.contains(s) {
        let i = choose|i: int| 0 <= i < all.len() && all[i] == s;
        if i < rest.len() {
            assert(rest[i] == s);
            assert(rest.contains(s));
        }
    }
    if rest.contains(s) {
        let i = choose|i: int| 0 <= i < rest.len() && rest[i] == s;
        assert(all[i] == s);
    }
}

/// Solo mode that is turned on for a window shows that window, at the front and
/// with the focus, minimizes all others, and remembers those that it minimized.
/// Clients are told of all windows.
pub proof fn law_solo_shows_one_window(session: SessionView, client: u64, id: usize, k: usize)
    requires
        session.wf(),
        session.state.windows.contains_key(id),
        session.state.solo is None,
    ensures
        ({
            let msg = ClientMessageView::ToggleSolo { window_id: id };
            let st = session.state;
            let after = session.after(client, msg).state;
            &&& after.windows.contains_key(k) == st.windows.contains_key(k)
            &&& st.windows.contains_key(k) ==> after.windows[k] == (WindowInfoView {
                minimized: k != id,
                focused: k == id,
                ..st.windows[k]
            })
            &&& after.order.last() == id
            &&& dropped(after.order, id) == dropped(st.order, id)
            &&& after.active == Some(id)
            &&& after.solo is Some
            &&& after.solo->0.origin == id
            &&& after.solo->0.hidden.contains(k) <==> k != id && st.windows.contains_key(k)
                && !st.windows[k].minimized
            &&& session.plan(msg) == PlanView::Sync
        }),
{
    let st = session.state;
    lemma_shown(st, Some(id));
    crate::server::law_focus_raises_one_window(st, id);
    assert(st.order.contains(id));
}

/// Solo mode that is turned off for its window shows the windows again that it
/// minimized, and changes nothing else.
pub proof fn law_solo_ends_for_its_window(session: SessionView, client: u64, id: usize, k: usize)
    requires
        session.wf(),
        session.state.windows.contains_key(id),
        session.state.solo matches Some(solo) && solo.origin == id,
    ensures
        ({
            let msg = ClientMessageView::ToggleSolo { window_id: id };
            let st = session.state;
            let after = session.after(client, msg).state;
            &&& after.solo is None
            &&& after.order == st.order
            &&& after.active == st.active
            &&& after.windows.contains_key(k) == st.windows.contains_key(k)
            &&& st.windows.contains_key(k) ==> after.windows[k] == (WindowInfoView {
                minimized: st.windows[k].minimized && !st.solo->0.hidden.contains(k),
                ..st.windows[k]
            })
            &&& session.plan(msg) == PlanView::Sync
        }),
{
}

/// While solo mode is on, another window is shown for a moment or minimized again
/// on request, and nothing else changes; without solo mode nothing happens.
pub proof fn law_window_is_shown_beside_solo(
    session: SessionView,
    client: u64,
    id: usize,
    shown: bool,
)
    requires
        session.wf(),
        session.state.windows.contains_key(id),
    ensures
        ({
            let msg = if shown {
                ClientMessageView::TemporaryExpand { window_id: id }
            } else {
                ClientMessageView::TemporaryCollapse { window_id: id }
            };
            let after = session.after(client, msg);
            let beside = session.state.solo matches Some(solo) && solo.origin != id;
            &&& !beside ==> after == session && session.plan(msg) == PlanView::Nothing
            &&& beside ==> same_but_window(session, after, id) && after.state.windows[id] == (
            WindowInfoView { minimized: !shown, ..session.state.windows[id] }) && session.plan(msg)
                == (PlanView::Refresh { window_id: id })
        }),
{
    let msg = if shown {
        ClientMessageView::TemporaryExpand { window_id: id }
    } else {
        ClientMessageView::TemporaryCollapse { window_id: id }
    };
    assert(session.after(client, msg).state.windows.dom() =~= session.state.windows.dom());
}

/// A session is over exactly when it has no window and no client.
pub proof fn law_session_is_over_without_windows_and_clients(session: SessionView)
    requires
        session.wf(),
    ensures
        session.over() <==> session.writers.len() == 0 && forall|k: usize|
            !(#[trigger] session.state.windows.contains_key(k)),
{
    if forall|k: usize| !(#[trigger] session.state.windows.contains_key(k)) {
        assert(session.state.windows.dom() =~= Set::<usize>::empty());
    }
    if session.over() {
        assert forall|k: usize| !(#[trigger] session.state.windows.contains_key(k)) by {
            assert(!session.state.windows.dom().contains(k));
        }
    }
}

/// A window that remembers a place goes back to it when it is maximized, and forgets
/// it. Its terminal gets the size inside its frame.
pub proof fn law_maximized_window_goes_back(session: SessionView, client: u64, id: usize)
    requires
        session.wf(),
        session.state.windows.contains_key(id),
        session.state.windows[id].saved_rect is Some,
    ensures
        ({
            let msg = ClientMessageView::MaximizeWindow { window_id: id };
            let after = session.after(client, msg);
            let was = session.state.windows[id];
            let back = was.saved_rect->0;
            &&& same_but_window(session, after, id)
            &&& after.state.windows[id] == (WindowInfoView { rect: back, saved_rect: None, ..was })
            &&& session.plan(msg) == (PlanView::Resize {
                size: inside(id, back.width, back.height),
            })
        }),
{
    let msg = ClientMessageView::MaximizeWindow { window_id: id };
    assert(session.after(client, msg).state.windows.dom() =~= session.state.windows.dom());
}

/// Every request is accepted but two: one for a window where the screen has no room
/// for any, or where no number is left, and one to maximize a window that reaches
/// beyond coordinates.
pub proof fn law_requests_are_accepted(session: SessionView, msg: ClientMessageView)
    ensures
        !(msg is CreateWindow) && !(msg is MaximizeWindow) ==> session.accepts(msg),
        msg is CreateWindow && session.screen.width >= 12 && session.screen.height >= 5
            && session.state.next_id < usize::MAX ==> session.accepts(msg),
        msg matches ClientMessageView::MaximizeWindow { window_id } ==> (
        !session.state.windows.contains_key(window_id) || {
            let r = session.state.windows[window_id].rect;
            r.x + r.width <= u16::MAX && r.y + r.height <= u16::MAX
        } ==> session.accepts(msg)),
{
}

/// Clients are not told the same twice: once they were told of a window, there is
/// nothing more to tell of it until it changes. Being told changes nothing of the
/// session that clients can see.
pub proof fn law_nothing_is_told_twice<'a>(
    session: SessionView,
    terms: Map<usize, TerminalView<'a>>,
    id: usize,
)
    requires
        session.wf(),
    ensures
        ({
            let after = session.told_of(terms, id);
            &&& report_of(after.state, terms, id) is None
            &&& state_of(after.state, terms, id) == state_of(session.state, terms, id)
            &&& same_but_window(session, after, id)
            &&& session.state.windows.contains_key(id) ==> after.state.windows[id] == (
            WindowInfoView {
                last_screen: after.state.windows[id].last_screen,
                last_cursor_pos: after.state.windows[id].last_cursor_pos,
                ..session.state.windows[id]
            })
        }),
{
    let after = session.told_of(terms, id);
    assert(after.state.windows.dom() =~= session.state.windows.dom());
    if let Some(ws) = state_of(session.state, terms, id) {
        crate::snapshot::lemma_no_changes(ws.screen, ws.screen.len() as int);
    }
}

/// When the history of a terminal was dropped, its window shows its newest rows, and
/// nothing else changes.
pub proof fn law_dropped_history_scrolls_to_the_end(session: SessionView, id: usize)
    requires
        session.wf(),
    ensures
        same_but_window(session, session.at_newest_rows(id), id),
        session.state.windows.contains_key(id) ==> session.at_newest_rows(id).state.windows[id] == (
        WindowInfoView { scroll_offset: 0, ..session.state.windows[id] }),
{
    assert(session.at_newest_rows(id).state.windows.dom() =~= session.state.windows.dom());
}

/// Solo mode that is on for one window and turned on for another isolates that one: it
/// remembers all windows that were to be seen without solo mode, but the new one.
pub proof fn law_solo_changes_over(session: SessionView, client: u64, id: usize, k: usize)
    requires
        session.wf(),
        session.state.windows.contains_key(id),
        session.state.solo matches Some(solo) && solo.origin != id,
    ensures
        ({
            let msg = ClientMessageView::ToggleSolo { window_id: id };
            let st = session.state;
            let after = session.after(client, msg).state;
            &&& after.solo is Some
            &&& after.solo->0.origin == id
            &&& after.active == Some(id)
            &&& after.order.last() == id
            &&& after.windows.contains_key(k) == st.windows.contains_key(k)
            &&& st.windows.contains_key(k) ==> after.windows[k] == (WindowInfoView {
                minimized: k != id,
                focused: k == id,
                ..st.windows[k]
            })
            &&& after.solo->0.hidden.contains(k) <==> k != id && st.windows.contains_key(k) && (
            !st.windows[k].minimized || st.solo->0.hidden.contains(k))
            &&& session.plan(msg) == PlanView::Sync
        }),
{
    let st = session.state;
    let mid = st.together();
    crate::solo::lemma_together(st);
    lemma_shown(mid, Some(id));
    crate::server::law_focus_raises_one_window(mid, id);
    assert(mid.order.contains(id));
    crate::solo::lemma_alone(mid, id);
    crate::server::law_focus_raises_one_window(
        ServerStateView {
            windows: Map::new(
                |j: usize| mid.windows.contains_key(j),
                |j: usize| mid.windows[j].with_minimized(j != id),
            ),
            solo: Some(crate::server::SoloView { origin: id, hidden: shown(mid, Some(id)) }),
            ..mid
        },
        id,
    );
}

/// On request the shown windows are put into a grid on the screen that all clients
/// can show: each is inside its frame and no smaller than the smallest size, no two
/// overlap, and each terminal gets the size inside its window.
pub proof fn law_tiled_windows_do_not_overlap(
    session: SessionView,
    client: u64,
    i: int,
    j: int,
)
    requires
        session.wf(),
        0 <= i < shown(session.state, None).len(),
        0 <= j < shown(session.state, None).len(),
        i != j,
        crate::tiling::can_tile(session.screen, shown(session.state, None).len() as int),
    ensures
        ({
            let msg = ClientMessageView::TileWindows;
            let after = session.after(client, msg);
            let ids = shown(session.state, None);
            let a = after.state.windows[ids[i]].rect;
            let b = after.state.windows[ids[j]].rect;
            &&& !a.meets(b)
            &&& 1 <= a.x && a.x + a.width <= session.screen.width - 1
            &&& 1 <= a.y && a.y + a.height <= session.screen.height - 1
            &&& MIN_WIDTH <= a.width
            &&& MIN_HEIGHT <= a.height
            &&& after.writers == session.writers && after.sizes == session.sizes && after.screen
                == session.screen
            &&& session.plan(msg) matches PlanView::ResizeAll { sizes } && sizes.len() == ids.len()
                && sizes[i].window_id == ids[i] && sizes[i].cols + 2 == a.width && sizes[i].rows + 2
                == a.height
        }),
{
    let st = session.state;
    let n = shown(st, None).len() as int;
    crate::tiling::law_tiling_places_every_shown_window(st, session.screen);
    crate::tiling::law_tiles_do_not_overlap(session.screen, n, i, j);
    crate::tiling::law_tiling_changes_places_alone(st, session.screen, i);
}

/// A client that connects is told its number, and of every window as it is, back to
/// front, and whether one of them is isolated.
pub proof fn law_new_client_is_told_of_every_window<'a>(
    session: SessionView,
    id: u64,
    terms: Map<usize, TerminalView<'a>>,
)
    requires
        session.wf(),
        session.state.order.len() <= usize::MAX,
        forall|k: usize| #[trigger]
            session.state.windows.contains_key(k) ==> terms.contains_key(k),
    ensures
        session.welcome(id, terms) matches ServerMessageView::Welcome {
            session_id,
            windows,
            solo_mode_active,
            solo_origin_id,
        } && session_id == id && windows.len() == session.state.order.len() && (forall|i: int|
            0 <= i < windows.len() ==> is_state_of(
                #[trigger] windows[i],
                session.state,
                terms,
                session.state.order[i],
            )) && (solo_mode_active <==> session.state.solo is Some) && (solo_mode_active
            ==> solo_origin_id == Some(session.state.solo->0.origin)) && (!solo_mode_active
            ==> solo_origin_id is None),
{
    lemma_all_states(session.state, terms, session.state.order.len() as int);
}

/// When a window closed, clients are told which one, and after that of the windows
/// that are left.
pub proof fn law_closed_window_is_told<'a>(
    session: SessionView,
    window_id: usize,
    terms: Map<usize, TerminalView<'a>>,
)
    ensures
        session.farewell(window_id, terms).len() == 2,
        session.farewell(window_id, terms)[0] == (ServerMessageView::WindowClosed { window_id }),
        session.farewell(window_id, terms)[1] == session.sync(terms),
{
}

/// Clients are told all of a window that changed, where it and its terminal are there.
pub proof fn law_changed_window_is_told<'a>(
    session: SessionView,
    terms: Map<usize, TerminalView<'a>>,
    id: usize,
)
    requires
        session.wf(),
        session.state.order.len() <= usize::MAX,
    ensures
        update_of(session.state, terms, id) is Some <==> session.state.windows.contains_key(id)
            && terms.contains_key(id),
        update_of(session.state, terms, id) matches Some(msg) ==> (
        msg matches ServerMessageView::WindowUpdate { window } && is_state_of(
            window,
            session.state,
            terms,
            id,
        )),
{
    if session.state.windows.contains_key(id) && terms.contains_key(id) {
        law_clients_are_told_the_state(session, terms, id);
    }
}

} // verus!
