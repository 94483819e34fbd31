//! The windows of a session, and how they are stacked.

use std::collections::HashMap;
use vstd::prelude::*;
use crate::geometry::{
    fit_window, fitted, has_room, sub_floor, sub_u16, Rect, MIN_HEIGHT, MIN_WIDTH,
};
use crate::protocol::{
    config_views, opt_text, state_views, texts, Layout, WindowConfig, WindowConfigView, WindowState,
    WindowStateView,
};
use crate::snapshot::{
    build_window_state, find_position, lemma_position_from, position, window_state, TerminalView,
    WindowInfo, WindowInfoView,
};
use crate::text::{copy_opt_string, copy_strings, decimal, push_decimal};

verus! {

broadcast use vstd::std_specs::hash::group_hash_axioms;

/// Width of the window that a session starts with.
pub const DEFAULT_WIDTH: u16 = 80;

/// Height of the window that a session starts with.
pub const DEFAULT_HEIGHT: u16 = 24;

/// Rows of history that a terminal keeps.
pub const SCROLLBACK_SIZE: usize = 3000;

/// Solo mode: one window is shown, and the others are minimized for as long.
pub struct Solo {
    /// The window that solo mode was turned on for.
    pub origin: usize,
    /// The windows that were minimized for it.
    pub hidden: Vec<usize>,
}

/// What a `Solo` says, over mathematical sequences.
#[verifier::ext_equal]
pub struct SoloView {
    pub origin: usize,
    pub hidden: Seq<usize>,
}

impl View for Solo {
    type V = SoloView;

    open spec fn view(&self) -> SoloView {
        SoloView { origin: self.origin, hidden: self.hidden@ }
    }
}

/// The windows of a session.
pub struct ServerState {
    pub windows: HashMap<usize, WindowInfo>,
    /// The stack of windows, back to front.
    pub window_order: Vec<usize>,
    pub next_window_id: usize,
    pub active_window_id: Option<usize>,
    pub solo: Option<Solo>,
}

/// What a `ServerState` says, over mathematical collections.
#[verifier::ext_equal]
pub struct ServerStateView {
    pub windows: Map<usize, WindowInfoView>,
    pub order: Seq<usize>,
    pub next_id: usize,
    pub active: Option<usize>,
    pub solo: Option<SoloView>,
}

/// What the windows of a session say.
pub open spec fn window_views(m: Map<usize, WindowInfo>) -> Map<usize, WindowInfoView> {
    m.map_values(|w: WindowInfo| w@)
}

/// What an optional solo mode says.
pub open spec fn opt_solo(s: Option<Solo>) -> Option<SoloView> {
    match s {
        Some(s) => Some(s@),
        None => None,
    }
}

impl View for ServerState {
    type V = ServerStateView;

    open spec fn view(&self) -> ServerStateView {
        ServerStateView {
            windows: window_views(self.windows@),
            order: self.window_order@,
            next_id: self.next_window_id,
            active: self.active_window_id,
            solo: opt_solo(self.solo),
        }
    }
}

impl ServerStateView {
    /// The stack holds each window once, every window knows its own number,
    /// numbers are not handed out again, just the active window is focused, and
    /// no view is scrolled back by more than a terminal keeps.
    pub open spec fn wf(self) -> bool {
        &&& self.order.no_duplicates()
        &&& forall|id: usize| #[trigger]
            self.order.contains(id) <==> self.windows.contains_key(id)
        &&& forall|id: usize| #[trigger]
            self.windows.contains_key(id) ==> {
                let win = self.windows[id];
                &&& win.id == id
                &&& id < self.next_id
                &&& win.focused == (self.active == Some(id))
                &&& win.scroll_offset <= SCROLLBACK_SIZE
            }
    }

    /// With one window changed.
    pub open spec fn with_window(self, id: usize, win: WindowInfoView) -> ServerStateView {
        ServerStateView { windows: self.windows.insert(id, win), ..self }
    }

    /// With a window focused and brought to the front. A number that no window
    /// has takes the focus from all.
    pub open spec fn focused(self, id: usize) -> ServerStateView {
        ServerStateView {
            windows: focus_only(self.windows, Some(id)),
            order: raised(self.order, id),
            active: Some(id),
            ..self
        }
    }

    /// Without a window. Where it was the active one, the window that is then at
    /// the front takes its place.
    pub open spec fn removed(self, id: usize) -> ServerStateView {
        let order = dropped(self.order, id);
        if self.active == Some(id) {
            let active = if order.len() > 0 {
                Some(order.last())
            } else {
                None
            };
            ServerStateView {
                windows: focus_only(self.windows.remove(id), active),
                order,
                active,
                ..self
            }
        } else {
            ServerStateView { windows: self.windows.remove(id), order, ..self }
        }
    }
}

/// The windows with the focus on one of them, or on none.
pub open spec fn focus_only(
    windows: Map<usize, WindowInfoView>,
    active: Option<usize>,
) -> Map<usize, WindowInfoView> {
    Map::new(
        |id: usize| windows.contains_key(id),
        |id: usize| WindowInfoView { focused: active == Some(id), ..windows[id] },
    )
}

/// A stack with one entry brought to the front.
pub open spec fn raised(order: Seq<usize>, id: usize) -> Seq<usize> {
    match position(order, id) {
        Some(p) => order.remove(p).push(id),
        None => order,
    }
}

/// A stack without one entry.
pub open spec fn dropped(order: Seq<usize>, id: usize) -> Seq<usize> {
    match position(order, id) {
        Some(p) => order.remove(p),
        None => order,
    }
}

/// The name that a new window gets.
pub open spec fn new_title(id: usize) -> Seq<char> {
    "Terminal "@ + decimal(id as nat)
}

fn make_title(id: usize) -> (r: String)
    ensures
        r@ == new_title(id),
{
    let mut s = String::new();
    s.append("Terminal ");
    push_decimal(&mut s, id as u64);
    assert(s@ =~= new_title(id));
    s
}

proof fn lemma_position(order: Seq<usize>, id: usize)
    ensures
        order.contains(id) <==> position(order, id) is Some,
        position(order, id) matches Some(p) ==> 0 <= p < order.len() && order[p] == id,
{
    lemma_position_from(order, id, 0);
    if order.contains(id) {
        let j = choose|j: int| 0 <= j < order.len() && order[j] == id;
        assert(order[j] == id);
    }
}

proof fn lemma_remove_at(order: Seq<usize>, p: int)
    requires
        order.no_duplicates(),
        0 <= p < order.len(),
    ensures
        order.remove(p).no_duplicates(),
        forall|k: usize| #[trigger]
            order.remove(p).contains(k) <==> order.contains(k) && k != order[p],
{
    let d = order.remove(p);
    assert forall|k: usize| #[trigger] d.contains(k) implies order.contains(k) && k != order[p] by {
        let j = choose|j: int| 0 <= j < d.len() && d[j] == k;
        if j < p {
            assert(order[j] == k);
        } else {
            assert(order[j + 1] == k);
        }
    }
    assert forall|k: usize| order.contains(k) && k != order[p] implies #[trigger] d.contains(k) by {
        let j = choose|j: int| 0 <= j < order.len() && order[j] == k;
        if j < p {
            assert(d[j] == k);
        } else {
            assert(d[j - 1] == k);
        }
    }
}

proof fn lemma_push_new(order: Seq<usize>, id: usize)
    requires
        order.no_duplicates(),
        !order.contains(id),
    ensures
        order.push(id).no_duplicates(),
        forall|k: usize| #[trigger] order.push(id).contains(k) <==> order.contains(k) || k == id,
{
    let r = order.push(id);
    assert forall|k: usize| #[trigger] r.contains(k) implies order.contains(k) || k == id by {
        let j = choose|j: int| 0 <= j < r.len() && r[j] == k;
        if j < order.len() {
            assert(order[j] == k);
        }
    }
    assert forall|k: usize| order.contains(k) || k == id implies #[trigger] r.contains(k) by {
        if k == id {
            assert(r[order.len() as int] == id);
        } else {
            let j = choose|j: int| 0 <= j < order.len() && order[j] == k;
            assert(r[j] == k);
        }
    }
    assert forall|i: int, j: int| 0 <= i < r.len() && 0 <= j < r.len() && i != j implies r[i]
        != r[j] by {
        if i == order.len() {
            assert(order[j] == r[j]);
        } else if j == order.len() {
            assert(order[i] == r[i]);
        }
    }
}

proof fn lemma_dropped(order: Seq<usize>, id: usize)
    requires
        order.no_duplicates(),
    ensures
        dropped(order, id).no_duplicates(),
        forall|k: usize| #[trigger]
            dropped(order, id).contains(k) <==> order.contains(k) && k != id,
        raised(order, id).no_duplicates(),
        forall|k: usize| #[trigger] raised(order, id).contains(k) <==> order.contains(k),
{
    lemma_position(order, id);
    match position(order, id) {
        Some(p) => {
            lemma_remove_at(order, p);
            lemma_push_new(order.remove(p), id);
        },
        None => {},
    }
}

/// A window at the front is the last of the stack; the other windows keep their
/// order.
pub proof fn law_focus_raises_one_window(st: ServerStateView, id: usize)
    requires
        st.wf(),
        st.windows.contains_key(id),
    ensures
        st.focused(id).order.last() == id,
        st.focused(id).order.len() == st.order.len(),
        dropped(st.focused(id).order, id) == dropped(st.order, id),
        st.focused(id).active == Some(id),
        st.focused(id).windows[id].focused,
        forall|k: usize| #[trigger]
            st.windows.contains_key(k) && k != id ==> !st.focused(id).windows[k].focused,
{
    assert(st.order.contains(id));
    lemma_position(st.order, id);
    lemma_dropped(st.order, id);
    let after = st.focused(id).order;
    let d = dropped(st.order, id);
    assert(after =~= d.push(id));
    lemma_position(after, id);
    lemma_position_from(after, id, 0);
    assert(!d.contains(id));
    assert forall|j: int| 0 <= j < d.len() implies after[j] != id by {
        assert(after[j] == d[j]);
    }
    assert(after[d.len() as int] == id);
    assert(position(after, id) == Some(d.len() as int));
    assert(dropped(after, id) =~= d);
}

/// Focusing keeps the session in order.
pub proof fn law_focus_keeps_invariant(st: ServerStateView, id: usize)
    requires
        st.wf(),
    ensures
        st.focused(id).wf(),
{
    lemma_dropped(st.order, id);
    let after = st.focused(id);
    assert forall|k: usize| #[trigger] after.order.contains(k) <==> after.windows.contains_key(
        k,
    ) by {
        assert(raised(st.order, id).contains(k) <==> st.order.contains(k));
    }
    assert forall|k: usize| #[trigger] after.windows.contains_key(k) implies {
        let win = after.windows[k];
        &&& win.id == k
        &&& k < after.next_id
        &&& win.focused == (after.active == Some(k))
        &&& win.scroll_offset <= SCROLLBACK_SIZE
    } by {
        assert(st.windows.contains_key(k));
    }
}

/// Removing a window keeps the session in order.
pub proof fn law_remove_keeps_invariant(st: ServerStateView, id: usize)
    requires
        st.wf(),
    ensures
        st.removed(id).wf(),
        !st.removed(id).windows.contains_key(id),
{
    lemma_dropped(st.order, id);
    let after = st.removed(id);
    assert forall|k: usize| #[trigger] after.order.contains(k) <==> after.windows.contains_key(
        k,
    ) by {
        assert(dropped(st.order, id).contains(k) <==> st.order.contains(k) && k != id);
    }
    assert forall|k: usize| #[trigger] after.windows.contains_key(k) implies {
        let win = after.windows[k];
        &&& win.id == k
        &&& k < after.next_id
        &&& win.focused == (after.active == Some(k))
        &&& win.scroll_offset <= SCROLLBACK_SIZE
    } by {
        assert(st.windows.contains_key(k));
    }
}

/// When the active window goes, the window at the front of the rest becomes the
/// active one. When another goes, the active one stays.
pub proof fn law_front_window_takes_over(st: ServerStateView, id: usize)
    requires
        st.wf(),
    ensures
        st.active == Some(id) && st.removed(id).order.len() > 0 ==> st.removed(id).active == Some(
            st.removed(id).order.last(),
        ) && st.removed(id).windows[st.removed(id).order.last()].focused,
        st.active == Some(id) && st.removed(id).order.len() == 0 ==> st.removed(id).active is None,
        st.active != Some(id) ==> st.removed(id).active == st.active,
{
    law_remove_keeps_invariant(st, id);
    let order = st.removed(id).order;
    if order.len() > 0 {
        assert(order.contains(order[order.len() - 1]));
        assert(st.removed(id).windows.contains_key(order.last()));
    }
}

impl ServerStateView {
    /// The window that is active is at the front of the stack.
    pub open spec fn active_in_front(self) -> bool {
        match self.active {
            Some(id) => self.windows.contains_key(id) ==> self.order.len() > 0
                && self.order.last() == id,
            None => true,
        }
    }

    /// Without windows.
    pub open spec fn is_first(self) -> bool {
        &&& self.windows == Map::<usize, WindowInfoView>::empty()
        &&& self.order == Seq::<usize>::empty()
        &&& self.next_id == 1
        &&& self.active is None
        &&& self.solo is None
    }
}

/// What happens to the windows of a session.
pub enum StateStep {
    Focus { id: usize },
    Remove { id: usize },
    Clear,
    /// One more number is handed out.
    Reserve,
    /// A window with such a number opens.
    Create { window: NewWindowView },
    /// Windows change, but neither which there are nor their stack or the focus.
    Change { windows: Map<usize, WindowInfoView>, solo: Option<SoloView> },
}

/// Whether one state of the windows of a session can follow another.
pub open spec fn follows(st: ServerStateView, step: StateStep, after: ServerStateView) -> bool {
    match step {
        StateStep::Focus { id } => after == st.focused(id),
        StateStep::Remove { id } => after == st.removed(id),
        StateStep::Clear => after == st.cleared(),
        StateStep::Reserve => st.next_id < usize::MAX && after == st.reserved(),
        StateStep::Create { window } => window.id < st.next_id && !st.windows.contains_key(
            window.id,
        ) && after == st.created(window),
        StateStep::Change { windows, solo } => windows.dom() == st.windows.dom() && after == (
        ServerStateView { windows, solo, ..st }),
    }
}

/// No step takes the active window from the front.
pub proof fn lemma_step_keeps_active_in_front(
    st: ServerStateView,
    step: StateStep,
    after: ServerStateView,
)
    requires
        st.wf(),
        st.active_in_front(),
        follows(st, step, after),
    ensures
        after.active_in_front(),
{
    match step {
        StateStep::Focus { id } => {
            assert(st.order.contains(id) <==> st.windows.contains_key(id));
            lemma_position(st.order, id);
        },
        StateStep::Remove { id } => {
            lemma_position(st.order, id);
            lemma_dropped(st.order, id);
        },
        StateStep::Create { window } => {
            law_new_window_is_in_front(st, window);
        },
        _ => {},
    }
}

/// In every state that the windows of a session come to, from none on and in
/// whatever steps, the active window is the one at the front. `states` are the
/// states, one after the other, and `steps` what happens between them.
pub proof fn law_active_window_is_in_front(
    states: Seq<ServerStateView>,
    steps: Seq<StateStep>,
    i: int,
)
    requires
        states.len() == steps.len() + 1,
        states[0].is_first(),
        forall|j: int| 0 <= j < states.len() ==> (#[trigger] states[j]).wf(),
        forall|j: int|
            0 <= j < steps.len() ==> follows(states[j], #[trigger] steps[j], states[j + 1]),
        0 <= i < states.len(),
    ensures
        states[i].active_in_front(),
    decreases i,
{
    if i > 0 {
        law_active_window_is_in_front(states, steps, i - 1);
        assert(follows(states[i - 1], steps[i - 1], states[i]));
        assert(states[i - 1].wf());
        lemma_step_keeps_active_in_front(states[i - 1], steps[i - 1], states[i]);
    }
}

/// Changing a window, but not its number, its focus or an amount of scrolling
/// that a terminal does not keep, keeps the session in order.
pub proof fn law_change_keeps_invariant(st: ServerStateView, id: usize, win: WindowInfoView)
    requires
        st.wf(),
        st.windows.contains_key(id),
        win.id == id,
        win.focused == st.windows[id].focused,
        win.scroll_offset <= SCROLLBACK_SIZE,
    ensures
        st.with_window(id, win).wf(),
{
    let after = st.with_window(id, win);
    assert forall|k: usize| #[trigger] after.order.contains(k) <==> after.windows.contains_key(
        k,
    ) by {
        assert(st.order.contains(k) <==> st.windows.contains_key(k));
    }
    assert forall|k: usize| #[trigger] after.windows.contains_key(k) implies {
        let w = after.windows[k];
        &&& w.id == k
        &&& k < after.next_id
        &&& w.focused == (after.active == Some(k))
        &&& w.scroll_offset <= SCROLLBACK_SIZE
    } by {
        assert(st.windows.contains_key(k));
    }
}

impl ServerState {
    pub open spec fn wf(&self) -> bool {
        self@.wf()
    }

    pub fn new() -> (r: Self)
        ensures
            r.wf(),
            r@ == (ServerStateView {
                windows: Map::empty(),
                order: Seq::empty(),
                next_id: 1,
                active: None,
                solo: None,
            }),
    {
        let r = ServerState {
            windows: HashMap::new(),
            window_order: Vec::new(),
            next_window_id: 1,
            active_window_id: None,
            solo: None,
        };
        assert(r@.windows =~= Map::empty());
        r
    }

    /// Puts the focus on one window, or on none.
    fn set_focus(&mut self, active: Option<usize>)
        requires
            forall|id: usize| #[trigger]
                old(self)@.order.contains(id) <==> old(self)@.windows.contains_key(id),
            old(self)@.order.no_duplicates(),
        ensures
            final(self)@ == (ServerStateView {
                windows: focus_only(old(self)@.windows, active),
                ..old(self)@
            }),
    {
        let ghost before = self@;
        let mut i: usize = 0;
        while i < self.window_order.len()
            invariant
                i <= self.window_order@.len(),
                self.window_order@ == before.order,
                self.next_window_id == before.next_id,
                self.active_window_id == before.active,
                opt_solo(self.solo) == before.solo,
                before.order.no_duplicates(),
                forall|id: usize| #[trigger]
                    before.order.contains(id) <==> before.windows.contains_key(id),
                self@.windows.dom() =~= before.windows.dom(),
                forall|j: int|
                    0 <= j < i ==> self@.windows[#[trigger] before.order[j]] == (WindowInfoView {
                        focused: active == Some(before.order[j]),
                        ..before.windows[before.order[j]]
                    }),
                forall|j: int|
                    i <= j < before.order.len() ==> self@.windows[#[trigger] before.order[j]]
                        == before.windows[before.order[j]],
            decreases self.window_order@.len() - i,
        {
            let id: usize = self.window_order[i];
            assert(before.order.contains(id));
            assert(self@.windows.contains_key(id));
            let ghost mid = self@.windows;
            if let Some(mut win) = self.windows.remove(&id) {
                win.focused = match active {
                    Some(a) => a == id,
                    None => false,
                };
                self.windows.insert(id, win);
                assert(self@.windows =~= mid.insert(id, win@));
            }
            i += 1;
        }
        assert forall|id: usize| before.windows.contains_key(id) implies self@.windows[id]
            == focus_only(before.windows, active)[id] by {
            assert(before.order.contains(id));
            let j = choose|j: int| 0 <= j < before.order.len() && before.order[j] == id;
            assert(before.order[j] == id);
        }
        assert(self@.windows =~= focus_only(before.windows, active));
    }

    fn focus_and_raise(&mut self, id: usize)
        requires
            forall|k: usize| #[trigger]
                old(self)@.order.contains(k) <==> old(self)@.windows.contains_key(k),
            old(self)@.order.no_duplicates(),
        ensures
            final(self)@ == old(self)@.focused(id),
    {
        self.set_focus(Some(id));
        self.active_window_id = Some(id);
        if let Some(pos) = find_position(&self.window_order, id) {
            let wid: usize = self.window_order.remove(pos);
            self.window_order.push(wid);
        }
        assert(self@ =~= old(self)@.focused(id));
    }

    /// Focuses a window and brings it to the front.
    pub fn focus_window(&mut self, id: usize)
        requires
            old(self).wf(),
        ensures
            final(self).wf(),
            final(self)@ == old(self)@.focused(id),
    {
        proof {
            law_focus_keeps_invariant(self@, id);
        }
        self.focus_and_raise(id);
    }

    /// Removes a window.
    pub fn remove_window(&mut self, id: usize)
        requires
            old(self).wf(),
        ensures
            final(self).wf(),
            final(self)@ == old(self)@.removed(id),
    {
        proof {
            law_remove_keeps_invariant(self@, id);
            lemma_dropped(self@.order, id);
        }
        let ghost before = self@;
        self.windows.remove(&id);
        assert(self@.windows =~= before.windows.remove(id));
        if let Some(pos) = find_position(&self.window_order, id) {
            self.window_order.remove(pos);
        }
        assert(self@.order == dropped(before.order, id));
        assert forall|k: usize| #[trigger] self@.order.contains(k) <==> self@.windows.contains_key(
            k,
        ) by {
            assert(before.order.contains(k) <==> before.windows.contains_key(k));
        }
        let was_active = match self.active_window_id {
            Some(a) => a == id,
            None => false,
        };
        if was_active {
            if self.window_order.len() > 0 {
                let front: usize = self.window_order[self.window_order.len() - 1];
                self.active_window_id = Some(front);
                self.set_focus(Some(front));
            } else {
                self.active_window_id = None;
                assert(self@.windows =~= focus_only(before.windows.remove(id), None)) by {
                    assert forall|k: usize| !self@.windows.contains_key(k) by {
                        assert(!self@.order.contains(k));
                    }
                }
            }
        }
        assert(self@ =~= before.removed(id));
    }
}

/// A window that is about to open: its number, its place, and the terminal that
/// it needs.
pub struct NewWindow {
    pub id: usize,
    pub rect: Rect,
    pub rows: u16,
    pub cols: u16,
    pub command: Option<String>,
    pub args: Vec<String>,
}

/// What a `NewWindow` says, over mathematical sequences.
#[verifier::ext_equal]
pub struct NewWindowView {
    pub id: usize,
    pub rect: Rect,
    pub rows: u16,
    pub cols: u16,
    pub command: Option<Seq<char>>,
    pub args: Seq<Seq<char>>,
}

impl View for NewWindow {
    type V = NewWindowView;

    open spec fn view(&self) -> NewWindowView {
        NewWindowView {
            id: self.id,
            rect: self.rect,
            rows: self.rows,
            cols: self.cols,
            command: opt_text(self.command),
            args: texts(self.args@),
        }
    }
}

/// The window that opens for a configuration.
pub open spec fn planned(id: usize, config: WindowConfigView, screen: Rect) -> NewWindowView {
    let rect = fitted(config.x, config.y, config.width, config.height, screen);
    NewWindowView {
        id,
        rect,
        rows: sub_floor(rect.height as int, 2) as u16,
        cols: sub_floor(rect.width as int, 2) as u16,
        command: config.command,
        args: config.args,
    }
}

/// A window that has just opened.
pub open spec fn opened(w: NewWindowView) -> WindowInfoView {
    WindowInfoView {
        id: w.id,
        title: new_title(w.id),
        rect: w.rect,
        minimized: false,
        focused: false,
        saved_rect: None,
        command: w.command,
        args: w.args,
        scroll_offset: 0,
        last_screen: Seq::empty(),
        last_cursor_pos: None,
        fullscreen: false,
    }
}

impl ServerStateView {
    /// With one more number handed out.
    pub open spec fn reserved(self) -> ServerStateView {
        ServerStateView { next_id: (self.next_id + 1) as usize, ..self }
    }

    /// With a new window, focused and at the front.
    pub open spec fn created(self, w: NewWindowView) -> ServerStateView {
        ServerStateView {
            windows: self.windows.insert(w.id, opened(w)),
            order: self.order.push(w.id),
            ..self
        }.focused(w.id)
    }

    /// Without any window.
    pub open spec fn cleared(self) -> ServerStateView {
        ServerStateView {
            windows: Map::empty(),
            order: Seq::empty(),
            active: match self.active {
                Some(id) => if self.windows.contains_key(id) {
                    None
                } else {
                    Some(id)
                },
                None => None,
            },
            solo: None,
            ..self
        }
    }
}

/// What clients are told of one window, if it is known and its terminal is.
pub open spec fn state_of<'a>(
    st: ServerStateView,
    terms: Map<usize, TerminalView<'a>>,
    id: usize,
) -> Option<WindowStateView> {
    if st.windows.contains_key(id) && terms.contains_key(id) {
        Some(window_state(st.windows[id], st.order, terms[id]))
    } else {
        None
    }
}

/// What clients are told of the first `n` windows of the stack.
pub open spec fn states_upto<'a>(
    st: ServerStateView,
    terms: Map<usize, TerminalView<'a>>,
    n: int,
) -> Seq<WindowStateView>
    decreases n,
{
    if n <= 0 {
        Seq::empty()
    } else {
        match state_of(st, terms, st.order[n - 1]) {
            Some(ws) => states_upto(st, terms, n - 1).push(ws),
            None => states_upto(st, terms, n - 1),
        }
    }
}

/// What clients are told of all windows, back to front.
pub open spec fn all_states<'a>(st: ServerStateView, terms: Map<usize, TerminalView<'a>>) -> Seq<
    WindowStateView,
> {
    states_upto(st, terms, st.order.len() as int)
}

/// The contents of an optional window state.
pub open spec fn opt_state(s: Option<WindowState>) -> Option<WindowStateView> {
    match s {
        Some(s) => Some(s@),
        None => None,
    }
}

/// A command that runs in the foreground of a terminal.
pub struct ForegroundCommand {
    pub command: String,
    pub args: Vec<String>,
}

/// How a window is written to a layout: with the command that runs in its
/// foreground, or else the one that it was opened with.
pub open spec fn saved_config(win: WindowInfoView, running: Option<ForegroundCommand>) -> WindowConfigView {
    WindowConfigView {
        x: win.rect.x,
        y: win.rect.y,
        width: win.rect.width,
        height: win.rect.height,
        command: match running {
            Some(f) => Some(f.command@),
            None => win.command,
        },
        args: match running {
            Some(f) => texts(f.args@),
            None => win.args,
        },
        title: Some(win.title),
    }
}

/// The command that runs in the foreground of a window, if one was found.
pub open spec fn running_in(running: Map<usize, ForegroundCommand>, id: usize) -> Option<
    ForegroundCommand,
> {
    if running.contains_key(id) {
        Some(running[id])
    } else {
        None
    }
}

/// The layout of a session, back to front.
pub open spec fn saved_layout(st: ServerStateView, running: Map<usize, ForegroundCommand>) -> Seq<
    WindowConfigView,
> {
    Seq::new(
        st.order.len(),
        |i: int| saved_config(st.windows[st.order[i]], running_in(running, st.order[i])),
    )
}

/// A window that lies on the screen as new windows do is restored from a layout
/// where it was, with the command that ran in it.
pub proof fn law_layout_restores_window(
    win: WindowInfoView,
    running: Option<ForegroundCommand>,
    screen: Rect,
    id: usize,
)
    requires
        has_room(screen),
        MIN_WIDTH <= win.rect.width,
        MIN_HEIGHT <= win.rect.height,
        win.rect.x + win.rect.width < screen.width,
        win.rect.y + win.rect.height < screen.height,
        win.rect.width + 2 <= screen.width,
        win.rect.height + 2 <= screen.height,
    ensures
        ({
            let again = planned(id, saved_config(win, running), screen);
            &&& again.rect == win.rect
            &&& again.command == match running {
                Some(f) => Some(f.command@),
                None => win.command,
            }
            &&& again.args == match running {
                Some(f) => texts(f.args@),
                None => win.args,
            }
        }),
{
}

/// A window opens with a number that no window had before, at the front and
/// focused; nothing else changes but the focus.
pub proof fn law_new_window_is_in_front(st: ServerStateView, w: NewWindowView)
    requires
        st.wf(),
        w.id < st.next_id,
        !st.windows.contains_key(w.id),
    ensures
        st.created(w).wf(),
        st.created(w).order == st.order.push(w.id),
        st.created(w).active == Some(w.id),
        st.created(w).windows.dom() == st.windows.dom().insert(w.id),
{
    let added = ServerStateView {
        windows: st.windows.insert(w.id, opened(w)),
        order: st.order.push(w.id),
        ..st
    };
    assert(!st.order.contains(w.id));
    lemma_push_new(st.order, w.id);
    lemma_position_from(added.order, w.id, 0);
    assert(added.order[st.order.len() as int] == w.id);
    assert forall|j: int| 0 <= j < st.order.len() implies added.order[j] != w.id by {
        assert(added.order[j] == st.order[j]);
    }
    assert(raised(added.order, w.id) =~= added.order);
    let after = st.created(w);
    assert forall|k: usize| #[trigger] after.order.contains(k) <==> after.windows.contains_key(
        k,
    ) by {
        assert(st.order.contains(k) <==> st.windows.contains_key(k));
        assert(added.order.contains(k) <==> st.order.contains(k) || k == w.id);
    }
    assert forall|k: usize| #[trigger] after.windows.contains_key(k) implies {
        let win = after.windows[k];
        &&& win.id == k
        &&& k < after.next_id
        &&& win.focused == (after.active == Some(k))
        &&& win.scroll_offset <= SCROLLBACK_SIZE
    } by {
        if k != w.id {
            assert(st.windows.contains_key(k));
        }
    }
    assert(after.windows.dom() =~= st.windows.dom().insert(w.id));
}

impl ServerState {
    /// Hands out the number of a new window, and works out where it goes and
    /// which terminal it needs. The number is used up even where that terminal
    /// cannot be started.
    pub fn create_window(&mut self, config: &WindowConfig, screen_size: &Rect) -> (w: NewWindow)
        requires
            old(self).wf(),
            has_room(*screen_size),
            old(self).next_window_id < usize::MAX,
        ensures
            final(self).wf(),
            final(self)@ == old(self)@.reserved(),
            w@ == planned(old(self).next_window_id, config@, *screen_size),
            w.id < final(self).next_window_id,
            !final(self)@.windows.contains_key(w.id),
    {
        let id: usize = self.next_window_id;
        self.next_window_id += 1;
        let rect = fit_window(config.x, config.y, config.width, config.height, screen_size);
        proof {
            let before = old(self)@;
            let after = self@;
            assert(after =~= before.reserved());
            assert forall|k: usize| #[trigger] after.windows.contains_key(k) implies {
                let win = after.windows[k];
                &&& win.id == k
                &&& k < after.next_id
                &&& win.focused == (after.active == Some(k))
                &&& win.scroll_offset <= SCROLLBACK_SIZE
            } by {
                assert(before.windows.contains_key(k));
            }
            if after.windows.contains_key(id) {
                assert(before.windows.contains_key(id));
            }
        }
        NewWindow {
            id,
            rect,
            rows: sub_u16(rect.height, 2),
            cols: sub_u16(rect.width, 2),
            command: copy_opt_string(&config.command),
            args: copy_strings(&config.args),
        }
    }

    /// Adds a window whose terminal was started.
    pub fn add_window(&mut self, w: NewWindow) -> (id: usize)
        requires
            old(self).wf(),
            w.id < old(self).next_window_id,
            !old(self)@.windows.contains_key(w.id),
        ensures
            final(self).wf(),
            final(self)@ == old(self)@.created(w@),
            id == w.id,
    {
        let ghost before = self@;
        let ghost wv = w@;
        proof {
            law_new_window_is_in_front(before, wv);
            assert(!before.order.contains(w.id));
            lemma_push_new(before.order, w.id);
        }
        let id: usize = w.id;
        let info = WindowInfo {
            id,
            title: make_title(id),
            rect: w.rect,
            minimized: false,
            focused: false,
            saved_rect: None,
            command: w.command,
            args: w.args,
            scroll_offset: 0,
            last_screen: Vec::new(),
            last_cursor_pos: None,
            fullscreen: false,
        };
        let ghost info_view = info@;
        assert(info_view =~= opened(wv));
        self.windows.insert(id, info);
        assert(self@.windows =~= before.windows.insert(id, info_view));
        self.window_order.push(id);
        assert forall|k: usize| #[trigger] self@.order.contains(k) <==> self@.windows.contains_key(
            k,
        ) by {
            assert(before.order.contains(k) <==> before.windows.contains_key(k));
            assert(before.order.push(id).contains(k) <==> before.order.contains(k) || k == id);
        }
        self.focus_and_raise(id);
        id
    }

    /// Removes all windows.
    pub fn clear(&mut self)
        requires
            old(self).wf(),
        ensures
            final(self).wf(),
            final(self)@ == old(self)@.cleared(),
    {
        if let Some(id) = self.active_window_id {
            if self.windows.contains_key(&id) {
                self.active_window_id = None;
            }
        }
        self.windows.clear();
        self.window_order.clear();
        self.solo = None;
        assert(self@.windows =~= Map::empty());
        assert(self@ =~= old(self)@.cleared());
    }

    /// What clients are told of a window.
    pub fn get_window_state<'a>(
        &self,
        terms: &HashMap<usize, TerminalView<'a>>,
        id: usize,
    ) -> (r: Option<WindowState>)
        ensures
            opt_state(r) == state_of(self@, terms@, id),
    {
        match (self.windows.get(&id), terms.get(&id)) {
            (Some(win), Some(term)) => Some(build_window_state(win, &self.window_order, term)),
            _ => None,
        }
    }

    /// What clients are told of all windows, back to front.
    pub fn get_all_window_states<'a>(&self, terms: &HashMap<usize, TerminalView<'a>>) -> (r: Vec<
        WindowState,
    >)
        ensures
            state_views(r@) == all_states(self@, terms@),
    {
        let mut r: Vec<WindowState> = Vec::new();
        let mut i: usize = 0;
        assert(state_views(r@) =~= states_upto(self@, terms@, 0));
        while i < self.window_order.len()
            invariant
                i <= self.window_order@.len(),
                state_views(r@) == states_upto(self@, terms@, i as int),
            decreases self.window_order@.len() - i,
        {
            let ghost before = r@;
            match self.get_window_state(terms, self.window_order[i]) {
                Some(ws) => {
                    r.push(ws);
                    assert(state_views(r@) =~= state_views(before).push(ws@));
                },
                None => {},
            }
            i += 1;
        }
        r
    }

    /// The layout of the session.
    pub fn layout(&self, running: &HashMap<usize, ForegroundCommand>) -> (r: Layout)
        requires
            self.wf(),
        ensures
            config_views(r.windows@) == saved_layout(self@, running@),
    {
        let mut layout = Layout::default();
        let mut i: usize = 0;
        while i < self.window_order.len()
            invariant
                self.wf(),
                i <= self.window_order@.len(),
                layout.windows@.len() == i,
                forall|j: int|
                    0 <= j < i ==> (#[trigger] layout.windows@[j])@ == saved_config(
                        self@.windows[self@.order[j]],
                        running_in(running@, self@.order[j]),
                    ),
            decreases self.window_order@.len() - i,
        {
            let id: usize = self.window_order[i];
            assert(self@.order.contains(id));
            assert(self@.windows.contains_key(id));
            if let Some(win) = self.windows.get(&id) {
                let (command, args) = match running.get(&id) {
                    Some(f) => (Some(f.command.clone()), copy_strings(&f.args)),
                    None => (copy_opt_string(&win.command), copy_strings(&win.args)),
                };
                let config = WindowConfig {
                    x: win.rect.x,
                    y: win.rect.y,
                    width: win.rect.width,
                    height: win.rect.height,
                    command,
                    args,
                    title: Some(win.title.clone()),
                };
                assert(config@ =~= saved_config(win@, running_in(running@, id)));
                layout.windows.push(config);
            }
            i += 1;
        }
        assert(config_views(layout.windows@) =~= saved_layout(self@, running@));
        layout
    }
}

/// Without one entry a stack has the entries before it and those behind it, as they
/// were.
pub proof fn law_rest_of_the_stack_keeps_its_order(order: Seq<usize>, id: usize, p: int)
    requires
        order.no_duplicates(),
    ensures
        0 <= p < order.len() && order[p] == id ==> dropped(order, id) == order.take(p) + order.skip(
            p + 1,
        ) && raised(order, id) == order.take(p) + order.skip(p + 1) + seq![id],
        !order.contains(id) ==> dropped(order, id) == order && raised(order, id) == order,
{
    lemma_position(order, id);
    if 0 <= p < order.len() && order[p] == id {
        assert(order.contains(id));
        let q = position(order, id)->0;
        assert(q == p);
        assert(order.remove(p) =~= order.take(p) + order.skip(p + 1));
        assert(order.remove(p).push(id) =~= order.take(p) + order.skip(p + 1) + seq![id]);
    }
}

/// A session that makes way for a layout has no window and no solo mode, and hands out
/// no number again.
pub proof fn law_cleared_session_has_no_window(st: ServerStateView, k: usize)
    requires
        st.wf(),
    ensures
        !st.cleared().windows.contains_key(k),
        st.cleared().order.len() == 0,
        st.cleared().solo is None,
        st.cleared().next_id == st.next_id,
        st.active is Some && st.windows.contains_key(st.active->0) ==> st.cleared().active is None,
        st.cleared().wf(),
{
    assert forall|j: usize| !(#[trigger] st.cleared().order.contains(j)) by {}
}

} // verus!
