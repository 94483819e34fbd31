//! Solo mode: one window is shown, and the others are minimized for as long.

use vstd::prelude::*;
use crate::server::{
    law_focus_keeps_invariant, ServerState, ServerStateView, Solo, SoloView, SCROLLBACK_SIZE,
};
use crate::snapshot::{find_position, WindowInfoView};

verus! {

broadcast use vstd::std_specs::hash::group_hash_axioms;

/// The windows among the first `n` of the stack that are not minimized, without
/// one of them.
pub open spec fn shown_upto(st: ServerStateView, without: Option<usize>, n: int) -> Seq<usize>
    decreases n,
{
    if n <= 0 {
        Seq::empty()
    } else {
        let k = st.order[n - 1];
        let rest = shown_upto(st, without, n - 1);
        if without != Some(k) && st.windows.contains_key(k) && !st.windows[k].minimized {
            rest.push(k)
        } else {
            rest
        }
    }
}

/// The windows that are not minimized, back to front, without one of them.
pub open spec fn shown(st: ServerStateView, without: Option<usize>) -> Seq<usize> {
    shown_upto(st, without, st.order.len() as int)
}

proof fn lemma_shown_upto(st: ServerStateView, without: Option<usize>, n: int)
    requires
        st.wf(),
        0 <= n <= st.order.len(),
    ensures
        forall|k: usize| #[trigger]
            shown_upto(st, without, n).contains(k) <==> (exists|j: int|
                0 <= j < n && st.order[j] == k) && without != Some(k)
                && !st.windows[k].minimized,
        shown_upto(st, without, n).no_duplicates(),
    decreases n,
{
    if n > 0 {
        lemma_shown_upto(st, without, n - 1);
        let rest = shown_upto(st, without, n - 1);
        let all = shown_upto(st, without, n);
        let last = st.order[n - 1];
        assert(st.order.contains(last));
        assert(st.windows.contains_key(last));
        if rest.contains(last) {
            let j = choose|j: int| 0 <= j < n - 1 && st.order[j] == last;
            assert(st.order[j] != st.order[n - 1]);
        }
        assert forall|k: usize| #[trigger] all.contains(k) <==> (exists|j: int|
            0 <= j < n && st.order[j] == k) && without != Some(k) && !st.windows[k].minimized by {
            if all.contains(k) {
                let i = choose|i: int| 0 <= i < all.len() && all[i] == k;
                if i < rest.len() {
                    assert(rest[i] == k);
                    assert(rest.contains(k));
                    let j = choose|j: int| 0 <= j < n - 1 && st.order[j] == k;
                    assert(st.order[j] == k);
                } else {
                    assert(st.order[n - 1] == k);
                }
            }
            if (exists|j: int| 0 <= j < n && st.order[j] == k) && without != Some(k)
                && !st.windows[k].minimized {
                let j = choose|j: int| 0 <= j < n && st.order[j] == k;
                if j < n - 1 {
                    assert(st.order[j] == k);
                    assert(rest.contains(k));
                    let i = choose|i: int| 0 <= i < rest.len() && rest[i] == k;
                    assert(all[i] == k);
                } else {
                    assert(all[rest.len() as int] == k);
                }
            }
        }
        assert forall|i: int, j: int| 0 <= i < all.len() && 0 <= j < all.len() && i != j implies all[i]
            != all[j] by {
            if i == rest.len() {
                assert(rest[j] == all[j]);
                assert(rest.contains(all[j]));
            } else if j == rest.len() {
                assert(rest[i] == all[i]);
                assert(rest.contains(all[i]));
            }
        }
    }
}

/// The windows that are shown are those that are not minimized, each once.
pub proof fn lemma_shown(st: ServerStateView, without: Option<usize>)
    requires
        st.wf(),
    ensures
        forall|k: usize| #[trigger]
            shown(st, without).contains(k) <==> st.windows.contains_key(k) && without != Some(k)
                && !st.windows[k].minimized,
        shown(st, without).no_duplicates(),
{
    lemma_shown_upto(st, without, st.order.len() as int);
    assert forall|k: usize| #[trigger] shown(st, without).contains(k) <==> st.windows.contains_key(
        k,
    ) && without != Some(k) && !st.windows[k].minimized by {
        assert(st.order.contains(k) <==> st.windows.contains_key(k));
        if st.order.contains(k) {
            let j = choose|j: int| 0 <= j < st.order.len() && st.order[j] == k;
            assert(st.order[j] == k);
        }
    }
}

impl WindowInfoView {
    pub open spec fn with_minimized(self, minimized: bool) -> WindowInfoView {
        WindowInfoView { minimized, ..self }
    }
}

impl ServerStateView {
    /// With one window shown, focused and at the front, and all others
    /// minimized.
    pub open spec fn alone(self, id: usize) -> ServerStateView {
        ServerStateView {
            windows: Map::new(
                |k: usize| self.windows.contains_key(k),
                |k: usize| self.windows[k].with_minimized(k != id),
            ),
            solo: Some(SoloView { origin: id, hidden: shown(self, Some(id)) }),
            ..self
        }.focused(id)
    }

    /// Without solo mode, and with the windows shown that were minimized for it.
    pub open spec fn together(self) -> ServerStateView {
        match self.solo {
            Some(solo) => ServerStateView {
                windows: Map::new(
                    |k: usize| self.windows.contains_key(k),
                    |k: usize|
                        self.windows[k].with_minimized(
                            self.windows[k].minimized && !solo.hidden.contains(k),
                        ),
                ),
                solo: None,
                ..self
            },
            None => self,
        }
    }

    /// With solo mode turned on for a window, or off where it was on for it.
    pub open spec fn solo_toggled(self, id: usize) -> ServerStateView {
        if !self.windows.contains_key(id) {
            self
        } else {
            match self.solo {
                Some(solo) => if solo.origin == id {
                    self.together()
                } else {
                    self.together().alone(id)
                },
                None => self.alone(id),
            }
        }
    }

    /// Whether a window is one that solo mode hides.
    pub open spec fn beside_solo(self, id: usize) -> bool {
        self.windows.contains_key(id) && self.solo is Some && self.solo->0.origin != id
    }

    /// With a hidden window shown, or minimized again, while solo mode is on.
    pub open spec fn solo_shown(self, id: usize, shown: bool) -> ServerStateView {
        if self.beside_solo(id) {
            self.with_window(id, self.windows[id].with_minimized(!shown))
        } else {
            self
        }
    }

    /// Without a window, and without solo mode where it was on for that window.
    pub open spec fn closed(self, id: usize) -> ServerStateView {
        match self.solo {
            Some(solo) => if solo.origin == id {
                self.removed(id).together()
            } else {
                self.removed(id)
            },
            None => self.removed(id),
        }
    }
}

proof fn lemma_same_but_minimized(st: ServerStateView, after: ServerStateView)
    requires
        st.wf(),
        after.order == st.order,
        after.next_id == st.next_id,
        after.active == st.active,
        forall|k: usize| #[trigger]
            after.windows.contains_key(k) <==> st.windows.contains_key(k),
        forall|k: usize| #[trigger]
            after.windows.contains_key(k) ==> after.windows[k] == st.windows[k].with_minimized(
                after.windows[k].minimized,
            ),
    ensures
        after.wf(),
{
    assert forall|k: usize| #[trigger] after.order.contains(k) <==> after.windows.contains_key(
        k,
    ) by {
        assert(st.order.contains(k) <==> st.windows.contains_key(k));
    }
    assert forall|k: usize| #[trigger] after.windows.contains_key(k) implies {
        let win = after.windows[k];
        &&& win.id == k
        &&& k < after.next_id
        &&& win.focused == (after.active == Some(k))
        &&& win.scroll_offset <= SCROLLBACK_SIZE
    } by {
        assert(st.windows.contains_key(k));
    }
}

/// Turning solo mode on leaves one window to be seen; turning it off shows just
/// the windows again that could be seen before.
pub proof fn law_solo_restores_the_others(st: ServerStateView, id: usize)
    requires
        st.wf(),
        st.windows.contains_key(id),
        st.solo is None,
    ensures
        ({
            let on = st.solo_toggled(id);
            let off = on.solo_toggled(id);
            &&& on.wf() && off.wf()
            &&& on.solo is Some && on.solo->0.origin == id && off.solo is None
            &&& on.active == Some(id)
            &&& !on.windows[id].minimized
            &&& forall|k: usize| #[trigger]
                st.windows.contains_key(k) && k != id ==> on.windows[k].minimized
                    && off.windows[k].minimized == st.windows[k].minimized
        }),
{
    lemma_alone(st, id);
    let on = st.solo_toggled(id);
    lemma_together(on);
    lemma_shown(st, Some(id));
    let off = on.solo_toggled(id);
    assert(on.windows.contains_key(id));
    assert forall|k: usize| #[trigger] st.windows.contains_key(k) && k != id implies on.windows[k].minimized
        && off.windows[k].minimized == st.windows[k].minimized by {
        assert(on.solo->0.hidden == shown(st, Some(id)));
        assert(shown(st, Some(id)).contains(k) <==> !st.windows[k].minimized);
    }
}

/// Showing a hidden window for a moment and minimizing it again changes nothing.
pub proof fn law_hidden_window_returns(st: ServerStateView, id: usize)
    requires
        st.wf(),
        st.beside_solo(id),
        st.windows[id].minimized,
    ensures
        st.solo_shown(id, true).solo_shown(id, false) == st,
        !st.solo_shown(id, true).windows[id].minimized,
{
    let mid = st.solo_shown(id, true);
    assert(st.windows[id].with_minimized(false).with_minimized(true) =~= st.windows[id]);
    assert(mid.solo_shown(id, false).windows =~= st.windows);
    assert(mid.solo_shown(id, false) =~= st);
}

/// Turning solo mode on keeps the session in order.
pub proof fn lemma_alone(st: ServerStateView, id: usize)
    requires
        st.wf(),
    ensures
        st.alone(id).wf(),
{
    let mid = ServerStateView {
        windows: Map::new(
            |k: usize| st.windows.contains_key(k),
            |k: usize| st.windows[k].with_minimized(k != id),
        ),
        solo: Some(SoloView { origin: id, hidden: shown(st, Some(id)) }),
        ..st
    };
    lemma_same_but_minimized(st, mid);
    law_focus_keeps_invariant(mid, id);
}

/// Turning solo mode off keeps the session in order.
pub proof fn lemma_together(st: ServerStateView)
    requires
        st.wf(),
    ensures
        st.together().wf(),
{
    lemma_same_but_minimized(st, st.together());
}

impl ServerState {
    /// Collects the windows that are not minimized, without one of them.
    pub fn shown_windows(&self, without: Option<usize>) -> (r: Vec<usize>)
        ensures
            r@ == shown(self@, without),
    {
        let mut r: Vec<usize> = Vec::new();
        let mut i: usize = 0;
        while i < self.window_order.len()
            invariant
                i <= self.window_order@.len(),
                r@ == shown_upto(self@, without, i as int),
            decreases self.window_order@.len() - i,
        {
            let k: usize = self.window_order[i];
            let skip = match without {
                Some(w) => w == k,
                None => false,
            };
            if !skip {
                if let Some(win) = self.windows.get(&k) {
                    if !win.minimized {
                        r.push(k);
                    }
                }
            }
            i += 1;
        }
        r
    }

    /// Minimizes or shows each window of the stack.
    fn set_minimized(&mut self, flags: &Vec<bool>)
        requires
            old(self).wf(),
            flags@.len() == old(self)@.order.len(),
        ensures
            final(self)@.order == old(self)@.order,
            final(self)@.next_id == old(self)@.next_id,
            final(self)@.active == old(self)@.active,
            final(self)@.solo == old(self)@.solo,
            final(self)@.windows.dom() == old(self)@.windows.dom(),
            forall|j: int|
                0 <= j < flags@.len() ==> final(self)@.windows[#[trigger] old(self)@.order[j]]
                    == old(self)@.windows[old(self)@.order[j]].with_minimized(flags@[j]),
    {
        let ghost before = self@;
        let mut i: usize = 0;
        while i < self.window_order.len()
            invariant
                i <= self.window_order@.len(),
                before.wf(),
                flags@.len() == before.order.len(),
                self.window_order@ == before.order,
                self.next_window_id == before.next_id,
                self.active_window_id == before.active,
                self@.solo == before.solo,
                self@.windows.dom() =~= before.windows.dom(),
                forall|j: int|
                    0 <= j < i ==> self@.windows[#[trigger] before.order[j]]
                        == before.windows[before.order[j]].with_minimized(flags@[j]),
                forall|j: int|
                    i <= j < before.order.len() ==> self@.windows[#[trigger] before.order[j]]
                        == before.windows[before.order[j]],
            decreases self.window_order@.len() - i,
        {
            let id: usize = self.window_order[i];
            assert(before.order.contains(id));
            assert(self@.windows.contains_key(id));
            let ghost mid = self@.windows;
            if let Some(mut win) = self.windows.remove(&id) {
                win.minimized = flags[i];
                self.windows.insert(id, win);
                assert(self@.windows =~= mid.insert(id, win@));
            }
            i += 1;
        }
    }

    /// Turns solo mode off.
    pub fn leave_solo(&mut self)
        requires
            old(self).wf(),
        ensures
            final(self).wf(),
            final(self)@ == old(self)@.together(),
    {
        let ghost before = self@;
        proof {
            lemma_together(before);
        }
        match self.solo.take() {
            Some(solo) => {
                assert(self@ =~= (ServerStateView { solo: None, ..before }));
                let mut flags: Vec<bool> = Vec::new();
                let mut i: usize = 0;
                while i < self.window_order.len()
                    invariant
                        i <= self.window_order@.len(),
                        self@.wf(),
                        flags@.len() == i,
                        forall|j: int|
                            0 <= j < i ==> #[trigger] flags@[j] == (
                            self@.windows[self@.order[j]].minimized && !solo.hidden@.contains(
                                self@.order[j],
                            )),
                    decreases self.window_order@.len() - i,
                {
                    let id: usize = self.window_order[i];
                    assert(self@.order.contains(id));
                    assert(self@.windows.contains_key(id));
                    let hidden = match find_position(&solo.hidden, id) {
                        Some(p) => {
                            assert(solo.hidden@[p as int] == id);
                            true
                        },
                        None => false,
                    };
                    let was = match self.windows.get(&id) {
                        Some(win) => win.minimized,
                        None => false,
                    };
                    flags.push(was && !hidden);
                    i += 1;
                }
                let ghost mid = self@;
                self.set_minimized(&flags);
                assert forall|k: usize| mid.windows.contains_key(k) implies self@.windows[k]
                    == before.together().windows[k] by {
                    assert(mid.order.contains(k));
                    let j = choose|j: int| 0 <= j < mid.order.len() && mid.order[j] == k;
                    assert(mid.order[j] == k);
                }
                assert(self@.windows =~= before.together().windows);
                assert(self@ =~= before.together());
            },
            None => {
                assert(self@ =~= before);
            },
        }
    }

    /// Turns solo mode on.
    pub fn enter_solo(&mut self, id: usize)
        requires
            old(self).wf(),
        ensures
            final(self).wf(),
            final(self)@ == old(self)@.alone(id),
    {
        let ghost before = self@;
        proof {
            lemma_alone(before, id);
        }
        let hidden = self.shown_windows(Some(id));
        let mut flags: Vec<bool> = Vec::new();
        let mut i: usize = 0;
        while i < self.window_order.len()
            invariant
                i <= self.window_order@.len(),
                flags@.len() == i,
                forall|j: int| 0 <= j < i ==> #[trigger] flags@[j] == (self@.order[j] != id),
            decreases self.window_order@.len() - i,
        {
            flags.push(self.window_order[i] != id);
            i += 1;
        }
        self.set_minimized(&flags);
        self.solo = Some(Solo { origin: id, hidden });
        let ghost target = Map::new(
            |k: usize| before.windows.contains_key(k),
            |k: usize| before.windows[k].with_minimized(k != id),
        );
        assert forall|k: usize| before.windows.contains_key(k) implies self@.windows[k]
            == target[k] by {
            assert(before.order.contains(k));
            let j = choose|j: int| 0 <= j < before.order.len() && before.order[j] == k;
            assert(before.order[j] == k);
        }
        assert(self@.windows =~= target);
        proof {
            lemma_same_but_minimized(before, self@);
        }
        self.focus_window(id);
    }

    /// Turns solo mode on for a window, or off.
    pub fn toggle_solo(&mut self, id: usize) -> (r: bool)
        requires
            old(self).wf(),
        ensures
            final(self).wf(),
            final(self)@ == old(self)@.solo_toggled(id),
            r == old(self)@.windows.contains_key(id),
    {
        if !self.windows.contains_key(&id) {
            return false;
        }
        let same = match &self.solo {
            Some(solo) => solo.origin == id,
            None => false,
        };
        self.leave_solo();
        if !same {
            self.enter_solo(id);
        }
        true
    }

    /// Shows a hidden window, or minimizes it again, while solo mode is on.
    pub fn show_beside_solo(&mut self, id: usize, shown: bool) -> (r: bool)
        requires
            old(self).wf(),
        ensures
            final(self).wf(),
            final(self)@ == old(self)@.solo_shown(id, shown),
            r == old(self)@.beside_solo(id),
    {
        let ghost before = self@;
        let beside = match &self.solo {
            Some(solo) => solo.origin != id,
            None => false,
        };
        if !beside {
            return false;
        }
        match self.take_out(id) {
            Some(mut win) => {
                assert(before.windows.contains_key(id));
                win.minimized = !shown;
                assert(win@ =~= before.windows[id].with_minimized(!shown));
                self.put_back(id, win, Ghost(before));
                true
            },
            None => false,
        }
    }

    /// Closes a window.
    pub fn close_window(&mut self, id: usize)
        requires
            old(self).wf(),
        ensures
            final(self).wf(),
            final(self)@ == old(self)@.closed(id),
    {
        let origin_closes = match &self.solo {
            Some(solo) => solo.origin == id,
            None => false,
        };
        self.remove_window(id);
        if origin_closes {
            self.leave_solo();
        }
    }
}

/// The windows that are shown are listed back to front.
pub proof fn law_shown_windows_keep_their_order(
    st: ServerStateView,
    without: Option<usize>,
    i: int,
    j: int,
)
    requires
        st.wf(),
        0 <= i < j < shown(st, without).len(),
    ensures
        exists|a: int, b: int|
            0 <= a < b < st.order.len() && #[trigger] st.order[a] == shown(st, without)[i]
                && #[trigger] st.order[b] == shown(st, without)[j],
{
    lemma_shown_places(st, without, st.order.len() as int, i, j);
}

proof fn lemma_shown_places(st: ServerStateView, without: Option<usize>, n: int, i: int, j: int)
    requires
        0 <= n <= st.order.len(),
        0 <= i < j < shown_upto(st, without, n).len(),
    ensures
        exists|a: int, b: int|
            0 <= a < b < n && #[trigger] st.order[a] == shown_upto(st, without, n)[i]
                && #[trigger] st.order[b] == shown_upto(st, without, n)[j],
    decreases n,
{
    let rest = shown_upto(st, without, n - 1);
    let all = shown_upto(st, without, n);
    if j < rest.len() {
        lemma_shown_places(st, without, n - 1, i, j);
        assert(all[i] == rest[i] && all[j] == rest[j]);
    } else {
        assert(all[j] == st.order[n - 1]);
        lemma_shown_place(st, without, n - 1, i);
        let a = choose|a: int| 0 <= a < n - 1 && #[trigger] st.order[a] == rest[i];
        assert(all[i] == rest[i]);
        assert(st.order[a] == all[i] && st.order[n - 1] == all[j]);
    }
}

proof fn lemma_shown_place(st: ServerStateView, without: Option<usize>, n: int, i: int)
    requires
        0 <= n <= st.order.len(),
        0 <= i < shown_upto(st, without, n).len(),
    ensures
        exists|a: int| 0 <= a < n && #[trigger] st.order[a] == shown_upto(st, without, n)[i],
    decreases n,
{
    let rest = shown_upto(st, without, n - 1);
    let all = shown_upto(st, without, n);
    if i < rest.len() {
        lemma_shown_place(st, without, n - 1, i);
        assert(all[i] == rest[i]);
    } else {
        assert(st.order[n - 1] == all[i]);
    }
}

} // verus!
