//! Layouts as a whole: what a session becomes when one is loaded.

use vstd::prelude::*;
use crate::geometry::{Rect, MIN_HEIGHT, MIN_WIDTH};
use crate::protocol::{texts, WindowConfigView};
use crate::server::{
    law_new_window_is_in_front, opened, planned, running_in, saved_config, saved_layout,
    ForegroundCommand, ServerStateView,
};
use crate::snapshot::WindowInfoView;

verus! {

/// After the windows of some configurations opened, one after the other.
pub open spec fn loaded(
    st: ServerStateView,
    configs: Seq<WindowConfigView>,
    screen: Rect,
) -> ServerStateView
    decreases configs.len(),
{
    if configs.len() == 0 {
        st
    } else {
        let before = loaded(st, configs.drop_last(), screen);
        before.reserved().created(planned(before.next_id, configs.last(), screen))
    }
}

/// The number of the window number `i` of those that open one after the other.
pub open spec fn number_of(st: ServerStateView, i: int) -> usize {
    (st.next_id + i) as usize
}

/// The windows of a layout are the windows of the session, back to front, with
/// numbers that were not handed out before. They are as their configurations
/// say, and the last one is active.
pub proof fn law_layout_opens_every_window(
    st: ServerStateView,
    configs: Seq<WindowConfigView>,
    screen: Rect,
)
    requires
        st.wf(),
        st.order.len() == 0,
        st.next_id + configs.len() <= usize::MAX,
    ensures
        ({
            let after = loaded(st, configs, screen);
            let n = configs.len() as int;
            &&& after.wf()
            &&& after.next_id == st.next_id + n
            &&& after.solo == st.solo
            &&& after.order == Seq::new(configs.len(), |i: int| number_of(st, i))
            &&& after.active == if n == 0 {
                st.active
            } else {
                Some(number_of(st, n - 1))
            }
            &&& forall|i: int|
                0 <= i < n ==> after.windows[#[trigger] number_of(st, i)] == (WindowInfoView {
                    focused: i == n - 1,
                    ..opened(planned(number_of(st, i), configs[i], screen))
                })
        }),
    decreases configs.len(),
{
    let n = configs.len() as int;
    let numbers = Seq::new(configs.len(), |i: int| number_of(st, i));
    if n == 0 {
        assert(st.order =~= numbers);
    } else {
        let fewer = configs.drop_last();
        law_layout_opens_every_window(st, fewer, screen);
        let before = loaded(st, fewer, screen);
        let w = planned(before.next_id, configs.last(), screen);
        let ready = before.reserved();
        assert(before.next_id == number_of(st, n - 1));
        assert(!before.windows.contains_key(w.id));
        assert forall|k: usize| #[trigger] ready.order.contains(k) <==> ready.windows.contains_key(
            k,
        ) by {
            assert(before.order.contains(k) <==> before.windows.contains_key(k));
        }
        assert forall|k: usize| #[trigger] ready.windows.contains_key(k) implies k < ready.next_id
            && ready.windows[k].id == k by {
            assert(before.windows.contains_key(k));
        }
        assert(ready.wf());
        law_new_window_is_in_front(ready, w);
        let after = loaded(st, configs, screen);
        assert(after.order =~= numbers);
        assert forall|i: int| 0 <= i < n implies after.windows[#[trigger] number_of(st, i)] == (
        WindowInfoView {
            focused: i == n - 1,
            ..opened(planned(number_of(st, i), configs[i], screen))
        }) by {
            let k = number_of(st, i);
            if i < n - 1 {
                assert(before.order[i] == k);
                assert(before.order.contains(k));
                assert(before.windows.contains_key(k));
                assert(fewer[i] == configs[i]);
            }
            assert(after.windows[k].focused == (after.active == Some(k)));
        }
    }
}

/// Whether a window lies on the screen as a window that opens does.
pub open spec fn lies_on(rect: Rect, screen: Rect) -> bool {
    &&& MIN_WIDTH <= rect.width
    &&& rect.width + 2 <= screen.width
    &&& rect.x + rect.width < screen.width
    &&& MIN_HEIGHT <= rect.height
    &&& rect.height + 2 <= screen.height
    &&& rect.y + rect.height < screen.height
}

/// A layout that was saved and is loaded again brings back the session: as many
/// windows, stacked as they were and in their places, each with the command that
/// ran in it, and the one at the front active. The windows have numbers that were
/// not handed out before. That holds where the windows lie on the screen; others
/// are moved onto it.
pub proof fn law_saved_layout_comes_back(
    st: ServerStateView,
    running: Map<usize, ForegroundCommand>,
    screen: Rect,
)
    requires
        st.wf(),
        st.next_id + st.order.len() <= usize::MAX,
        forall|i: int|
            0 <= i < st.order.len() ==> lies_on(st.windows[#[trigger] st.order[i]].rect, screen),
    ensures
        ({
            let after = loaded(st.cleared(), saved_layout(st, running), screen);
            &&& after.wf()
            &&& after.order.len() == st.order.len()
            &&& st.order.len() > 0 ==> after.active == Some(after.order.last())
            &&& forall|i: int|
                #![trigger after.order[i]]
                #![trigger st.order[i]]
                0 <= i < st.order.len() ==> {
                    let was = st.windows[st.order[i]];
                    let again = after.windows[after.order[i]];
                    &&& after.order[i] >= st.next_id
                    &&& again.rect == was.rect
                    &&& again.command == match running_in(running, st.order[i]) {
                        Some(f) => Some(f.command@),
                        None => was.command,
                    }
                    &&& again.args == match running_in(running, st.order[i]) {
                        Some(f) => texts(f.args@),
                        None => was.args,
                    }
                    &&& !again.minimized
                    &&& !again.fullscreen
                }
        }),
{
    let configs = saved_layout(st, running);
    let start = st.cleared();
    assert forall|k: usize| !(#[trigger] start.order.contains(k)) by {}
    law_layout_opens_every_window(start, configs, screen);
    let after = loaded(start, configs, screen);
    assert forall|i: int|
        #![trigger after.order[i]]
        #![trigger st.order[i]]
        0 <= i < st.order.len() implies {
        let was = st.windows[st.order[i]];
        let again = after.windows[after.order[i]];
        &&& after.order[i] >= st.next_id
        &&& again.rect == was.rect
        &&& again.command == match running_in(running, st.order[i]) {
            Some(f) => Some(f.command@),
            None => was.command,
        }
        &&& again.args == match running_in(running, st.order[i]) {
            Some(f) => texts(f.args@),
            None => was.args,
        }
        &&& !again.minimized
        &&& !again.fullscreen
    } by {
        assert(after.order[i] == number_of(start, i));
        assert(configs[i] == saved_config(
            st.windows[st.order[i]],
            running_in(running, st.order[i]),
        ));
        assert(lies_on(st.windows[st.order[i]].rect, screen));
    }
}

/// A layout that is saved says of each window, back to front, where it is, what it is
/// called and what runs in it: the command in the foreground of its terminal, where
/// that is known, and otherwise the one that it was opened with.
pub proof fn law_saved_layout_says_what_is_there(
    st: ServerStateView,
    running: Map<usize, ForegroundCommand>,
    i: int,
)
    requires
        0 <= i < st.order.len(),
    ensures
        saved_layout(st, running).len() == st.order.len(),
        ({
            let id = st.order[i];
            let win = st.windows[id];
            let saved = saved_layout(st, running)[i];
            &&& saved.x == win.rect.x && saved.y == win.rect.y
            &&& saved.width == win.rect.width && saved.height == win.rect.height
            &&& saved.title == Some(win.title)
            &&& running.contains_key(id) ==> saved.command == Some(running[id].command@)
            &&& running.contains_key(id) ==> saved.args == texts(running[id].args@)
            &&& !running.contains_key(id) ==> saved.command == win.command
            &&& !running.contains_key(id) ==> saved.args == win.args
        }),
{
}

} // verus!
