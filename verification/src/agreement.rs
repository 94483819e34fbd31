//! That clients and the server agree on what windows there are and what they
//! show.

use vstd::prelude::*;
use vstd::arithmetic::div_mod::lemma_fundamental_div_mod_converse;
use crate::client::{last_focused, ClientView};
use crate::geometry::Rect;
use crate::protocol::{ServerMessageView, WindowStateView};
use crate::screen::{cell_at, shown_cell};
use crate::server::{all_states, state_of, states_upto, ServerStateView};
use crate::snapshot::{
    change_report, law_report_brings_client_up_to_date, window_state, TerminalView, WindowInfoView,
};
use crate::store::{by_number, law_stored_window_is_found, lookup, stored, stored_all};
use crate::widgets::cell_shown;

verus! {

proof fn lemma_states_upto<'a>(
    st: ServerStateView,
    terms: Map<usize, TerminalView<'a>>,
    n: int,
)
    requires
        st.wf(),
        0 <= n <= st.order.len(),
        forall|id: usize| #[trigger] st.windows.contains_key(id) ==> terms.contains_key(id),
    ensures
        states_upto(st, terms, n).len() == n,
        by_number(stored_all(Seq::empty(), states_upto(st, terms, n))),
        forall|id: usize| #[trigger]
            lookup(stored_all(Seq::empty(), states_upto(st, terms, n)), id) == if exists|j: int|
                0 <= j < n && st.order[j] == id {
                state_of(st, terms, id)
            } else {
                None
            },
        last_focused(states_upto(st, terms, n)) == if st.active is Some && exists|j: int|
            0 <= j < n && st.order[j] == st.active->0 {
            st.active
        } else {
            None
        },
    decreases n,
{
    let now = states_upto(st, terms, n);
    if n == 0 {
        assert(stored_all(Seq::empty(), now) =~= Seq::empty());
    } else {
        lemma_states_upto(st, terms, n - 1);
        let rest = states_upto(st, terms, n - 1);
        let last = st.order[n - 1];
        assert(st.order.contains(last));
        assert(st.windows.contains_key(last));
        let ws = window_state(st.windows[last], st.order, terms[last]);
        assert(now =~= rest.push(ws));
        assert(now.drop_last() =~= rest);
        assert(ws.id == last);
        let before = stored_all(Seq::empty(), rest);
        let after = stored_all(Seq::empty(), now);
        assert(after == stored(before, ws));
        law_stored_window_is_found(before, ws, last);
        assert forall|id: usize| #[trigger] lookup(after, id) == if exists|j: int|
            0 <= j < n && st.order[j] == id {
            state_of(st, terms, id)
        } else {
            None
        } by {
            law_stored_window_is_found(before, ws, id);
            assert(lookup(before, id) == if exists|j: int| 0 <= j < n - 1 && st.order[j] == id {
                state_of(st, terms, id)
            } else {
                None
            });
            if exists|j: int| 0 <= j < n - 1 && st.order[j] == id {
                let j = choose|j: int| 0 <= j < n - 1 && st.order[j] == id;
                assert(0 <= j < n && st.order[j] == id);
            }
            if id == last {
                assert(0 <= n - 1 < n && st.order[n - 1] == id);
            }
            if exists|j: int| 0 <= j < n && st.order[j] == id {
                let j = choose|j: int| 0 <= j < n && st.order[j] == id;
                if j < n - 1 {
                    assert(0 <= j < n - 1 && st.order[j] == id);
                }
            }
        }
        if st.active is Some {
            let active = st.active->0;
            if exists|j: int| 0 <= j < n - 1 && st.order[j] == active {
                let j = choose|j: int| 0 <= j < n - 1 && st.order[j] == active;
                assert(0 <= j < n && st.order[j] == active);
                assert(st.order[j] != st.order[n - 1]);
            }
            if active == last {
                assert(0 <= n - 1 < n && st.order[n - 1] == active);
            }
            if exists|j: int| 0 <= j < n && st.order[j] == active {
                let j = choose|j: int| 0 <= j < n && st.order[j] == active;
                if j < n - 1 {
                    assert(0 <= j < n - 1 && st.order[j] == active);
                }
            }
        }
    }
}

/// A client that was told of all windows knows each of them as the server does,
/// knows no other, and has the same active window.
pub proof fn law_sync_makes_client_agree<'a>(
    st: ServerStateView,
    terms: Map<usize, TerminalView<'a>>,
    client: ClientView,
    id: usize,
)
    requires
        st.wf(),
        forall|k: usize| #[trigger] st.windows.contains_key(k) ==> terms.contains_key(k),
    ensures
        ({
            let after = client.synced(
                all_states(st, terms),
                st.solo is Some,
                crate::session::solo_origin(st),
            );
            &&& lookup(after.windows, id) == state_of(st, terms, id)
            &&& after.active == if st.active is Some && st.windows.contains_key(st.active->0) {
                st.active
            } else {
                None
            }
        }),
{
    let n = st.order.len() as int;
    lemma_states_upto(st, terms, n);
    assert(st.order.contains(id) <==> st.windows.contains_key(id));
    if st.order.contains(id) {
        let j = choose|j: int| 0 <= j < n && st.order[j] == id;
        assert(0 <= j < n && st.order[j] == id);
    }
    if st.active is Some {
        let active = st.active->0;
        assert(st.order.contains(active) <==> st.windows.contains_key(active));
        if st.order.contains(active) {
            let j = choose|j: int| 0 <= j < n && st.order[j] == active;
            assert(0 <= j < n && st.order[j] == active);
        }
    }
}

/// The client after a report, if there is one.
pub open spec fn after_report(client: ClientView, report: Option<ServerMessageView>) -> ClientView {
    match report {
        Some(msg) => client.after_server(msg),
        None => client,
    }
}

/// A client that shows what the server last told of a window's screen and cursor
/// shows after the next report what the window shows then.
pub proof fn law_report_reaches_client(client: ClientView, win: WindowInfoView, ws: WindowStateView)
    requires
        client.wf(),
        lookup(client.windows, ws.id) is Some,
        lookup(client.windows, ws.id)->0.screen == win.last_screen,
        lookup(client.windows, ws.id)->0.cursor_pos == win.last_cursor_pos,
        ws.screen.len() <= usize::MAX,
    ensures
        ({
            let after = after_report(client, change_report(win, ws));
            &&& lookup(after.windows, ws.id) is Some
            &&& lookup(after.windows, ws.id)->0.screen == ws.screen
            &&& lookup(after.windows, ws.id)->0.cursor_pos == ws.cursor_pos
        }),
{
    law_report_brings_client_up_to_date(win, ws);
    let known = lookup(client.windows, ws.id)->0;
    match change_report(win, ws) {
        Some(ServerMessageView::WindowUpdate { window }) => {
            law_stored_window_is_found(client.windows, window, ws.id);
        },
        Some(
            ServerMessageView::ScreenDiff {
                window_id,
                cells,
                cursor_pos,
                scrollback_size,
                scroll_offset,
            },
        ) => {
            law_stored_window_is_found(
                client.windows,
                WindowStateView {
                    screen: crate::snapshot::applied(known.screen, cells),
                    cursor_pos,
                    scrollback_size,
                    scroll_offset,
                    ..known
                },
                ws.id,
            );
        },
        _ => {},
    }
}

/// What a client paints inside the frame of a window is what the terminal shows
/// there: each cell of the window has the cell of the terminal in the same row
/// and column. `area` is the part of the window that is painted.
pub proof fn law_painted_cell_is_the_terminals<'a>(
    win: WindowInfoView,
    order: Seq<usize>,
    term: TerminalView<'a>,
    area: Rect,
    row: int,
    col: int,
)
    requires
        win.rect.x < area.x,
        win.rect.y < area.y,
        0 <= row < area.height,
        0 <= col < area.width,
        area.y + row < win.rect.y + win.rect.height - 1,
        area.x + col < win.rect.x + win.rect.width - 1,
    ensures
        cell_shown(window_state(win, order, term), area, row, col) == shown_cell(
            cell_at(
                *term.screen,
                area.y + row - win.rect.y - 1,
                area.x + col - win.rect.x - 1,
            ),
        ),
{
    let width = win.rect.width - 2;
    let height = win.rect.height - 2;
    let r = area.y + row - win.rect.y - 1;
    let c = area.x + col - win.rect.x - 1;
    assert(0 <= r * width + c < width * height) by (nonlinear_arith)
        requires
            0 <= r < height,
            0 <= c < width,
    ;
    lemma_fundamental_div_mod_converse(r * width + c, width, r, c);
}

} // verus!
