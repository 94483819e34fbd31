//! A session: its windows, the clients that are connected to it, and what the
//! server does when something happens.

use std::collections::HashMap;
use vstd::prelude::*;
use crate::arrange::{fullscreen_size, inside, maximize_size, other_rects, TermSize};
use crate::capture::captured_lines;
use crate::geometry::{
    fit_request, has_room, min_int, min_u16, requested_extent, Rect, MIN_HEIGHT, MIN_WIDTH,
};
use crate::protocol::{
    config_views, opt_text, texts, ClientMessage, ClientMessageView, Layout, ServerMessage,
    ServerMessageView, WindowConfig, WindowConfigView,
};
use crate::server::{
    all_states, lemma_step_keeps_active_in_front, planned, state_of, NewWindow, NewWindowView,
    ServerState, ServerStateView, StateStep, DEFAULT_HEIGHT, DEFAULT_WIDTH,
};
use crate::snapshot::{
    build_window_state, change_report, lemma_position_from, opt_message, told, TerminalView,
};

verus! {

broadcast use vstd::std_specs::hash::group_hash_axioms;

/// The terminal size that a client has reported.
#[derive(Debug, Clone, Copy, PartialEq, Eq, Structural)]
pub struct ClientSize {
    pub id: u64,
    pub width: u16,
    pub height: u16,
}

/// What the server is to do for a message, once its own records are changed.
pub enum Plan {
    Nothing,
    /// Treat the client as gone.
    Disconnect,
    /// Start a terminal, and add the window if that works.
    Spawn { window: NewWindow },
    SaveLayout { path: String },
    LoadLayout { path: String },
    CapturePane { window_id: usize },
    CaptureFull,
    /// Let go of a terminal, and tell clients that its window closed.
    Close { window_id: usize },
    /// Tell clients of all windows.
    Sync,
    /// Write to a terminal, and tell clients what changed.
    Write { window_id: usize, data: Vec<u8> },
    /// Resize a terminal, and tell clients of its window.
    Resize { size: TermSize },
    /// Tell clients of a window.
    Refresh { window_id: usize },
    /// Scroll a view, and tell clients what changed.
    Scroll { window_id: usize, offset: usize },
    /// Drop the history of a terminal, and tell clients of its window.
    ClearHistory { window_id: usize },
    /// Resize terminals, and tell clients of all windows.
    ResizeAll { sizes: Vec<TermSize> },
}

/// What a `Plan` says, over mathematical sequences.
#[verifier::ext_equal]
pub enum PlanView {
    Nothing,
    Disconnect,
    Spawn { window: NewWindowView },
    SaveLayout { path: Seq<char> },
    LoadLayout { path: Seq<char> },
    CapturePane { window_id: usize },
    CaptureFull,
    Close { window_id: usize },
    Sync,
    Write { window_id: usize, data: Seq<u8> },
    Resize { size: TermSize },
    Refresh { window_id: usize },
    Scroll { window_id: usize, offset: usize },
    ClearHistory { window_id: usize },
    ResizeAll { sizes: Seq<TermSize> },
}

impl View for Plan {
    type V = PlanView;

    open spec fn view(&self) -> PlanView {
        match *self {
            Plan::Nothing => PlanView::Nothing,
            Plan::Disconnect => PlanView::Disconnect,
            Plan::Spawn { window } => PlanView::Spawn { window: window@ },
            Plan::SaveLayout { path } => PlanView::SaveLayout { path: path@ },
            Plan::LoadLayout { path } => PlanView::LoadLayout { path: path@ },
            Plan::CapturePane { window_id } => PlanView::CapturePane { window_id },
            Plan::CaptureFull => PlanView::CaptureFull,
            Plan::Close { window_id } => PlanView::Close { window_id },
            Plan::Sync => PlanView::Sync,
            Plan::Write { window_id, data } => PlanView::Write { window_id, data: data@ },
            Plan::Resize { size } => PlanView::Resize { size },
            Plan::Refresh { window_id } => PlanView::Refresh { window_id },
            Plan::Scroll { window_id, offset } => PlanView::Scroll { window_id, offset },
            Plan::ClearHistory { window_id } => PlanView::ClearHistory { window_id },
            Plan::ResizeAll { sizes } => PlanView::ResizeAll { sizes: sizes@ },
        }
    }
}

/// A session.
pub struct Session {
    pub state: ServerState,
    /// The clients that messages go to.
    pub writers: Vec<u64>,
    /// The terminal sizes of clients.
    pub sizes: Vec<ClientSize>,
    /// The part of the screen that all clients can show.
    pub screen: Rect,
}

/// What a `Session` says, over mathematical collections.
#[verifier::ext_equal]
pub struct SessionView {
    pub state: ServerStateView,
    pub writers: Seq<u64>,
    pub sizes: Seq<ClientSize>,
    pub screen: Rect,
}

impl View for Session {
    type V = SessionView;

    open spec fn view(&self) -> SessionView {
        SessionView {
            state: self.state@,
            writers: self.writers@,
            sizes: self.sizes@,
            screen: self.screen,
        }
    }
}

/// The sizes without that of one client.
pub open spec fn without_size(sizes: Seq<ClientSize>, id: u64) -> Seq<ClientSize>
    decreases sizes.len(),
{
    if sizes.len() == 0 {
        Seq::empty()
    } else if sizes.last().id == id {
        without_size(sizes.drop_last(), id)
    } else {
        without_size(sizes.drop_last(), id).push(sizes.last())
    }
}

/// The sizes with a new one for a client.
pub open spec fn with_size(sizes: Seq<ClientSize>, size: ClientSize) -> Seq<ClientSize> {
    without_size(sizes, size.id).push(size)
}

/// The smallest width.
pub open spec fn least_width(sizes: Seq<ClientSize>) -> int
    decreases sizes.len(),
{
    if sizes.len() <= 1 {
        sizes[0].width as int
    } else {
        min_int(least_width(sizes.drop_last()), sizes.last().width as int)
    }
}

/// The smallest height.
pub open spec fn least_height(sizes: Seq<ClientSize>) -> int
    decreases sizes.len(),
{
    if sizes.len() <= 1 {
        sizes[0].height as int
    } else {
        min_int(least_height(sizes.drop_last()), sizes.last().height as int)
    }
}

/// The part of the screen that all clients can show; a large one where there is
/// no client.
pub open spec fn effective_size(sizes: Seq<ClientSize>) -> Rect {
    if sizes.len() == 0 {
        Rect::at(0, 0, 200, 60)
    } else {
        Rect::at(0, 0, least_width(sizes) as u16, least_height(sizes) as u16)
    }
}

/// The clients without one.
pub open spec fn without_writer(writers: Seq<u64>, id: u64) -> Seq<u64>
    decreases writers.len(),
{
    if writers.len() == 0 {
        Seq::empty()
    } else if writers.last() == id {
        without_writer(writers.drop_last(), id)
    } else {
        without_writer(writers.drop_last(), id).push(writers.last())
    }
}

proof fn lemma_least(sizes: Seq<ClientSize>)
    requires
        sizes.len() > 0,
    ensures
        0 <= least_width(sizes) <= u16::MAX,
        0 <= least_height(sizes) <= u16::MAX,
        forall|i: int|
            0 <= i < sizes.len() ==> least_width(sizes) <= (#[trigger] sizes[i]).width
                && least_height(sizes) <= sizes[i].height,
        exists|i: int| 0 <= i < sizes.len() && least_width(sizes) == (#[trigger] sizes[i]).width,
        exists|i: int| 0 <= i < sizes.len() && least_height(sizes) == (#[trigger] sizes[i]).height,
    decreases sizes.len(),
{
    if sizes.len() > 1 {
        let rest = sizes.drop_last();
        lemma_least(rest);
        assert forall|i: int| 0 <= i < sizes.len() implies least_width(sizes) <= (
        #[trigger] sizes[i]).width && least_height(sizes) <= sizes[i].height by {
            if i < rest.len() {
                assert(rest[i] == sizes[i]);
            }
        }
        let a = choose|i: int| 0 <= i < rest.len() && least_width(rest) == (#[trigger] rest[i]).width;
        let b = choose|i: int|
            0 <= i < rest.len() && least_height(rest) == (#[trigger] rest[i]).height;
        assert(sizes[a] == rest[a] && sizes[b] == rest[b]);
        assert(sizes[sizes.len() - 1] == sizes.last());
    } else {
        assert(sizes[0].width == least_width(sizes));
    }
}

/// Every client can show the whole screen, and none of it is given away: some
/// client is no wider, and some client is no higher.
pub proof fn law_screen_fits_every_client(session: SessionView)
    requires
        session.wf(),
        session.sizes.len() > 0,
    ensures
        session.screen.x == 0 && session.screen.y == 0,
        forall|i: int|
            0 <= i < session.sizes.len() ==> session.screen.width <= (
            #[trigger] session.sizes[i]).width && session.screen.height
                <= session.sizes[i].height,
        exists|i: int|
            0 <= i < session.sizes.len() && session.screen.width == (
            #[trigger] session.sizes[i]).width,
        exists|i: int|
            0 <= i < session.sizes.len() && session.screen.height == (
            #[trigger] session.sizes[i]).height,
{
    lemma_least(session.sizes);
}

/// The size that a client reported last is the only one that counts for it; the
/// other clients' sizes stay.
pub proof fn law_last_reported_size_counts(sizes: Seq<ClientSize>, size: ClientSize)
    ensures
        with_size(sizes, size).contains(size),
        forall|s: ClientSize| #[trigger]
            with_size(sizes, size).contains(s) && s.id == size.id ==> s == size,
        forall|s: ClientSize| #[trigger]
            sizes.contains(s) && s.id != size.id ==> with_size(sizes, size).contains(s),
{
    lemma_without_size(sizes, size.id);
    let rest = without_size(sizes, size.id);
    let all = with_size(sizes, size);
    assert(all[rest.len() as int] == size);
    assert forall|s: ClientSize| #[trigger] all.contains(s) && s.id == size.id implies s
        == size by {
        let i = choose|i: int| 0 <= i < all.len() && all[i] == s;
        if i < rest.len() {
            assert(rest[i] == s);
            assert(rest.contains(s));
        }
    }
    assert forall|s: ClientSize| #[trigger]
        sizes.contains(s) && s.id != size.id implies all.contains(s) by {
        assert(rest.contains(s));
        let i = choose|i: int| 0 <= i < rest.len() && rest[i] == s;
        assert(all[i] == s);
    }
}

/// The sizes without that of a client are those of all others.
pub proof fn lemma_without_size(sizes: Seq<ClientSize>, id: u64)
    ensures
        forall|s: ClientSize| #[trigger]
            without_size(sizes, id).contains(s) <==> sizes.contains(s) && s.id != id,
    decreases sizes.len(),
{
    if sizes.len() > 0 {
        let rest = sizes.drop_last();
        lemma_without_size(rest, id);
        let inner = without_size(rest, id);
        let all = without_size(sizes, id);
        assert forall|s: ClientSize| #[trigger] all.contains(s) <==> sizes.contains(s) && s.id
            != id by {
            if all.contains(s) {
                let i = choose|i: int| 0 <= i < all.len() && all[i] == s;
                if i < inner.len() {
                    assert(inner[i] == s);
                    assert(inner.contains(s));
                    let j = choose|j: int| 0 <= j < rest.len() && rest[j] == s;
                    assert(sizes[j] == s);
                } else {
                    assert(sizes[sizes.len() - 1] == s);
                }
            }
            if sizes.contains(s) && s.id != id {
                let j = choose|j: int| 0 <= j < sizes.len() && sizes[j] == s;
                if j < rest.len() {
                    assert(rest[j] == s);
                    assert(inner.contains(s));
                    let i = choose|i: int| 0 <= i < inner.len() && inner[i] == s;
                    assert(all[i] == s);
                } else {
                    assert(all[inner.len() as int] == s);
                }
            }
        }
    }
}

/// The number of a window is not handed out a second time: whatever clients ask
/// for, the numbers of new windows only grow.
pub proof fn law_numbers_only_grow(session: SessionView, client: u64, msg: ClientMessageView)
    requires
        session.wf(),
        session.accepts(msg),
    ensures
        session.after(client, msg).state.next_id >= session.state.next_id,
        session.plan(msg) matches PlanView::Spawn { window } ==> window.id == session.state.next_id
            && session.after(client, msg).state.next_id == session.state.next_id + 1
            && !session.state.windows.contains_key(window.id),
{
    if session.state.windows.contains_key(session.state.next_id) {
        assert(session.state.windows[session.state.next_id].id < session.state.next_id);
    }
}

/// Whatever clients ask for, the active window stays the one at the front.
pub proof fn law_messages_keep_active_in_front(
    session: SessionView,
    client: u64,
    msg: ClientMessageView,
)
    requires
        session.wf(),
        session.accepts(msg),
        session.state.active_in_front(),
    ensures
        session.after(client, msg).state.active_in_front(),
{
    let st = session.state;
    match msg {
        ClientMessageView::FocusWindow { window_id } => {
            lemma_step_keeps_active_in_front(
                st,
                StateStep::Focus { id: window_id },
                st.focused(window_id),
            );
        },
        ClientMessageView::CloseWindow { window_id } => {
            lemma_step_keeps_active_in_front(
                st,
                StateStep::Remove { id: window_id },
                st.removed(window_id),
            );
        },
        ClientMessageView::ToggleSolo { window_id } => {
            assert(st.order.contains(window_id) <==> st.windows.contains_key(window_id));
            lemma_position_from(st.order, window_id, 0);
        },
        _ => {},
    }
}

/// The configuration that a request for a window amounts to on a screen.
pub open spec fn requested_window(
    x: u16,
    y: u16,
    width: u16,
    height: u16,
    command: Option<Seq<char>>,
    args: Seq<Seq<char>>,
    screen: Rect,
) -> WindowConfigView {
    WindowConfigView {
        x,
        y,
        width: requested_extent(
            x as int,
            width as int,
            screen.width as int,
            MIN_WIDTH as int,
        ) as u16,
        height: requested_extent(
            y as int,
            height as int,
            screen.height as int,
            MIN_HEIGHT as int,
        ) as u16,
        command,
        args,
        title: Some("New Terminal"@),
    }
}

impl SessionView {
    pub open spec fn wf(self) -> bool {
        self.state.wf() && self.screen == effective_size(self.sizes)
    }

    /// With a new terminal size for a client.
    pub open spec fn sized(self, size: ClientSize) -> SessionView {
        let sizes = with_size(self.sizes, size);
        SessionView { sizes, screen: effective_size(sizes), ..self }
    }

    /// With one more client, which has not told its size yet.
    pub open spec fn joined(self, id: u64) -> SessionView {
        let session = self.sized(ClientSize { id, width: 80, height: 24 });
        SessionView { writers: without_writer(self.writers, id).push(id), ..session }
    }

    /// Without a client.
    pub open spec fn left(self, id: u64) -> SessionView {
        let sizes = without_size(self.sizes, id);
        SessionView {
            sizes,
            screen: effective_size(sizes),
            writers: without_writer(self.writers, id),
            ..self
        }
    }

    /// Whether nothing is left to do: there is no window and no client.
    pub open spec fn over(self) -> bool {
        self.state.windows.dom() == Set::<usize>::empty() && self.writers.len() == 0
    }

    pub open spec fn has(self, id: usize) -> bool {
        self.state.windows.contains_key(id)
    }

    /// The messages that can be acted on: a new window needs a screen that has
    /// room for one and a number that is left, and maximizing needs a window
    /// that ends before coordinates do.
    pub open spec fn accepts(self, msg: ClientMessageView) -> bool {
        match msg {
            ClientMessageView::CreateWindow { .. } => has_room(self.screen) && self.state.next_id
                < usize::MAX,
            ClientMessageView::MaximizeWindow { window_id } => self.state.can_maximize(window_id),
            _ => true,
        }
    }

    /// The session after a message from a client.
    pub open spec fn after(self, client: u64, msg: ClientMessageView) -> SessionView {
        let state = self.state;
        match msg {
            ClientMessageView::Connect { term_size } => self.sized(
                ClientSize { id: client, width: term_size.0, height: term_size.1 },
            ),
            ClientMessageView::TerminalResize { width, height } => self.sized(
                ClientSize { id: client, width, height },
            ),
            ClientMessageView::CreateWindow { .. } => SessionView {
                state: state.reserved(),
                ..self
            },
            ClientMessageView::CloseWindow { window_id } => SessionView {
                state: state.closed(window_id),
                ..self
            },
            ClientMessageView::FocusWindow { window_id } => SessionView {
                state: state.focused(window_id),
                ..self
            },
            ClientMessageView::ResizeWindow { window_id, width, height } => SessionView {
                state: state.changed(window_id, state.windows[window_id].resized(width, height)),
                ..self
            },
            ClientMessageView::MoveWindow { window_id, x, y } => SessionView {
                state: state.changed(window_id, state.windows[window_id].moved(x, y)),
                ..self
            },
            ClientMessageView::MinimizeWindow { window_id } => SessionView {
                state: state.changed(window_id, state.windows[window_id].minimize_toggled()),
                ..self
            },
            ClientMessageView::MaximizeWindow { window_id } => SessionView {
                state: state.changed(
                    window_id,
                    state.windows[window_id].maximize_toggled(
                        self.screen,
                        other_rects(state, window_id),
                    ),
                ),
                ..self
            },
            ClientMessageView::ToggleFullscreen { window_id } => SessionView {
                state: state.changed(
                    window_id,
                    state.windows[window_id].fullscreen_toggled(self.screen),
                ),
                ..self
            },
            ClientMessageView::Scroll { window_id, amount } => SessionView {
                state: state.changed(window_id, state.windows[window_id].scrolled(amount)),
                ..self
            },
            ClientMessageView::ScrollTo { window_id, offset } => SessionView {
                state: state.changed(window_id, state.windows[window_id].scrolled_to(offset)),
                ..self
            },
            ClientMessageView::ClearScrollback { window_id } => SessionView {
                state: state.changed(window_id, state.windows[window_id].scrolled_to(0)),
                ..self
            },
            ClientMessageView::RenameWindow { window_id, title } => SessionView {
                state: state.changed(window_id, state.windows[window_id].renamed(title)),
                ..self
            },
            ClientMessageView::ToggleSolo { window_id } => SessionView {
                state: state.solo_toggled(window_id),
                ..self
            },
            ClientMessageView::TemporaryExpand { window_id } => SessionView {
                state: state.solo_shown(window_id, true),
                ..self
            },
            ClientMessageView::TemporaryCollapse { window_id } => SessionView {
                state: state.solo_shown(window_id, false),
                ..self
            },
            ClientMessageView::TileWindows => SessionView {
                state: state.tiled(self.screen),
                ..self
            },
            _ => self,
        }
    }

    /// What is to be done for a message from a client.
    pub open spec fn plan(self, msg: ClientMessageView) -> PlanView {
        let state = self.state;
        match msg {
            ClientMessageView::Connect { .. } => PlanView::Nothing,
            ClientMessageView::TerminalResize { .. } => PlanView::Nothing,
            ClientMessageView::Disconnect => PlanView::Disconnect,
            ClientMessageView::CreateWindow { x, y, width, height, command, args } =>
                PlanView::Spawn {
                window: planned(
                    state.next_id,
                    requested_window(x, y, width, height, command, args, self.screen),
                    self.screen,
                ),
            },
            ClientMessageView::SaveLayout { path } => PlanView::SaveLayout { path },
            ClientMessageView::LoadLayout { path } => PlanView::LoadLayout { path },
            ClientMessageView::CapturePane { window_id } => PlanView::CapturePane { window_id },
            ClientMessageView::CaptureFull => PlanView::CaptureFull,
            ClientMessageView::CloseWindow { window_id } => PlanView::Close { window_id },
            ClientMessageView::FocusWindow { .. } => PlanView::Sync,
            ClientMessageView::Input { window_id, data } => if self.has(window_id) {
                PlanView::Write { window_id, data }
            } else {
                PlanView::Nothing
            },
            ClientMessageView::ResizeWindow { window_id, width, height } => if self.has(window_id) {
                PlanView::Resize { size: inside(window_id, width, height) }
            } else {
                PlanView::Nothing
            },
            ClientMessageView::MoveWindow { window_id, .. } => self.refresh(window_id),
            ClientMessageView::MinimizeWindow { window_id } => self.refresh(window_id),
            ClientMessageView::RenameWindow { window_id, .. } => self.refresh(window_id),
            ClientMessageView::MaximizeWindow { window_id } => match maximize_size(
                state,
                window_id,
                self.screen,
            ) {
                Some(size) => PlanView::Resize { size },
                None => PlanView::Nothing,
            },
            ClientMessageView::ToggleFullscreen { window_id } => match fullscreen_size(
                state,
                window_id,
                self.screen,
            ) {
                Some(size) => PlanView::Resize { size },
                None => self.refresh(window_id),
            },
            ClientMessageView::Scroll { window_id, amount } => if self.has(window_id) {
                PlanView::Scroll {
                    window_id,
                    offset: state.windows[window_id].scrolled(amount).scroll_offset,
                }
            } else {
                PlanView::Nothing
            },
            ClientMessageView::ScrollTo { window_id, offset } => if self.has(window_id) {
                PlanView::Scroll {
                    window_id,
                    offset: state.windows[window_id].scrolled_to(offset).scroll_offset,
                }
            } else {
                PlanView::Nothing
            },
            ClientMessageView::ClearScrollback { window_id } => if self.has(window_id) {
                PlanView::ClearHistory { window_id }
            } else {
                PlanView::Nothing
            },
            ClientMessageView::ToggleSolo { window_id } => if self.has(window_id) {
                PlanView::Sync
            } else {
                PlanView::Nothing
            },
            ClientMessageView::TemporaryExpand { window_id } => if state.beside_solo(window_id) {
                PlanView::Refresh { window_id }
            } else {
                PlanView::Nothing
            },
            ClientMessageView::TemporaryCollapse { window_id } => if state.beside_solo(window_id) {
                PlanView::Refresh { window_id }
            } else {
                PlanView::Nothing
            },
            ClientMessageView::TileWindows => PlanView::ResizeAll {
                sizes: state.tile_sizes(self.screen),
            },
        }
    }

    pub open spec fn refresh(self, window_id: usize) -> PlanView {
        if self.has(window_id) {
            PlanView::Refresh { window_id }
        } else {
            PlanView::Nothing
        }
    }

    /// The message that tells clients of all windows.
    pub open spec fn sync<'a>(self, terms: Map<usize, TerminalView<'a>>) -> ServerMessageView {
        ServerMessageView::FullSync {
            windows: all_states(self.state, terms),
            solo_mode_active: self.state.solo is Some,
            solo_origin_id: solo_origin(self.state),
        }
    }

    /// What a client is told when it connects.
    pub open spec fn welcome<'a>(self, id: u64, terms: Map<usize, TerminalView<'a>>) -> ServerMessageView {
        ServerMessageView::Welcome {
            session_id: id,
            windows: all_states(self.state, terms),
            solo_mode_active: self.state.solo is Some,
            solo_origin_id: solo_origin(self.state),
        }
    }

    /// What clients are told when a window closed.
    pub open spec fn farewell<'a>(
        self,
        window_id: usize,
        terms: Map<usize, TerminalView<'a>>,
    ) -> Seq<ServerMessageView> {
        seq![ServerMessageView::WindowClosed { window_id }, self.sync(terms)]
    }

    /// With a window scrolled to its newest rows.
    pub open spec fn at_newest_rows(self, id: usize) -> SessionView {
        SessionView {
            state: self.state.changed(id, self.state.windows[id].scrolled_to(0)),
            ..self
        }
    }

    /// The session after clients were told of a window.
    pub open spec fn told_of<'a>(
        self,
        terms: Map<usize, TerminalView<'a>>,
        id: usize,
    ) -> SessionView {
        match state_of(self.state, terms, id) {
            Some(ws) => SessionView {
                state: self.state.with_window(id, told(self.state.windows[id], ws)),
                ..self
            },
            None => self,
        }
    }
}

/// What a list of messages says.
pub open spec fn message_views(v: Seq<ServerMessage>) -> Seq<ServerMessageView> {
    Seq::new(v.len(), |i: int| v[i]@)
}

/// The window that solo mode is on for.
pub open spec fn solo_origin(st: ServerStateView) -> Option<usize> {
    match st.solo {
        Some(solo) => Some(solo.origin),
        None => None,
    }
}

/// What clients are told when a window may show something else.
pub open spec fn report_of<'a>(
    st: ServerStateView,
    terms: Map<usize, TerminalView<'a>>,
    id: usize,
) -> Option<ServerMessageView> {
    match state_of(st, terms, id) {
        Some(ws) => change_report(st.windows[id], ws),
        None => None,
    }
}

/// What clients are told when a window itself changed.
pub open spec fn update_of<'a>(
    st: ServerStateView,
    terms: Map<usize, TerminalView<'a>>,
    id: usize,
) -> Option<ServerMessageView> {
    match state_of(st, terms, id) {
        Some(ws) => Some(ServerMessageView::WindowUpdate { window: ws }),
        None => None,
    }
}

/// The window that a session starts with where no layout is given.
pub open spec fn first_window() -> WindowConfigView {
    WindowConfigView {
        x: 5,
        y: 2,
        width: DEFAULT_WIDTH,
        height: DEFAULT_HEIGHT,
        command: None,
        args: Seq::empty(),
        title: Some("Terminal 1"@),
    }
}

pub fn default_window() -> (r: WindowConfig)
    ensures
        r@ == first_window(),
{
    let mut title = String::new();
    title.append("Terminal 1");
    let r = WindowConfig {
        x: 5,
        y: 2,
        width: DEFAULT_WIDTH,
        height: DEFAULT_HEIGHT,
        command: None,
        args: Vec::new(),
        title: Some(title),
    };
    assert(title@ =~= "Terminal 1"@);
    assert(r@ =~= first_window());
    r
}

/// The windows that a session starts with: those of its layout, or the usual one
/// where there is no layout.
pub open spec fn starting_configs(layout: Option<Seq<WindowConfigView>>) -> Seq<WindowConfigView> {
    match layout {
        Some(windows) => windows,
        None => seq![first_window()],
    }
}

pub fn starting_windows(layout: Option<Layout>) -> (r: Vec<WindowConfig>)
    ensures
        config_views(r@) == starting_configs(
            match layout {
                Some(l) => Some(config_views(l.windows@)),
                None => None,
            },
        ),
{
    match layout {
        Some(l) => l.windows,
        None => {
            let mut r: Vec<WindowConfig> = Vec::new();
            r.push(default_window());
            assert(config_views(r@) =~= seq![first_window()]);
            r
        },
    }
}

/// Works out the part of the screen that all clients can show.
pub fn recalculate_effective_size(sizes: &Vec<ClientSize>) -> (r: Rect)
    ensures
        r == effective_size(sizes@),
{
    if sizes.len() == 0 {
        return Rect::new(0, 0, 200, 60);
    }
    let mut w: u16 = sizes[0].width;
    let mut h: u16 = sizes[0].height;
    let mut i: usize = 1;
    while i < sizes.len()
        invariant
            1 <= i <= sizes@.len(),
            w == least_width(sizes@.take(i as int)),
            h == least_height(sizes@.take(i as int)),
        decreases sizes@.len() - i,
    {
        assert(sizes@.take(i + 1).drop_last() =~= sizes@.take(i as int));
        w = min_u16(w, sizes[i].width);
        h = min_u16(h, sizes[i].height);
        i += 1;
    }
    assert(sizes@.take(sizes@.len() as int) =~= sizes@);
    Rect::new(0, 0, w, h)
}

fn drop_size(sizes: &Vec<ClientSize>, id: u64) -> (r: Vec<ClientSize>)
    ensures
        r@ == without_size(sizes@, id),
{
    let mut r: Vec<ClientSize> = Vec::new();
    let mut i: usize = 0;
    assert(sizes@.take(0) =~= Seq::empty());
    while i < sizes.len()
        invariant
            i <= sizes@.len(),
            r@ == without_size(sizes@.take(i as int), id),
        decreases sizes@.len() - i,
    {
        assert(sizes@.take(i + 1).drop_last() =~= sizes@.take(i as int));
        if sizes[i].id != id {
            r.push(sizes[i]);
        }
        i += 1;
    }
    assert(sizes@.take(sizes@.len() as int) =~= sizes@);
    r
}

fn drop_writer(writers: &Vec<u64>, id: u64) -> (r: Vec<u64>)
    ensures
        r@ == without_writer(writers@, id),
{
    let mut r: Vec<u64> = Vec::new();
    let mut i: usize = 0;
    assert(writers@.take(0) =~= Seq::empty());
    while i < writers.len()
        invariant
            i <= writers@.len(),
            r@ == without_writer(writers@.take(i as int), id),
        decreases writers@.len() - i,
    {
        assert(writers@.take(i + 1).drop_last() =~= writers@.take(i as int));
        if writers[i] != id {
            r.push(writers[i]);
        }
        i += 1;
    }
    assert(writers@.take(writers@.len() as int) =~= writers@);
    r
}

impl Session {
    pub open spec fn wf(&self) -> bool {
        self@.wf()
    }

    /// A session without windows and clients.
    pub fn new() -> (r: Self)
        ensures
            r.wf(),
            r@ == (SessionView {
                state: ServerStateView {
                    windows: Map::empty(),
                    order: Seq::empty(),
                    next_id: 1,
                    active: None,
                    solo: None,
                },
                writers: Seq::empty(),
                sizes: Seq::empty(),
                screen: Rect::at(0, 0, 200, 60),
            }),
            r@.over(),
            r@.screen == effective_size(r@.sizes),
            forall|id: usize| !(#[trigger] r@.state.windows.contains_key(id)),
    {
        Session {
            state: ServerState::new(),
            writers: Vec::new(),
            sizes: Vec::new(),
            screen: Rect::new(0, 0, 200, 60),
        }
    }

    fn set_size(&mut self, size: ClientSize)
        requires
            old(self).wf(),
        ensures
            final(self).wf(),
            final(self)@ == old(self)@.sized(size),
    {
        let mut sizes = drop_size(&self.sizes, size.id);
        sizes.push(size);
        self.screen = recalculate_effective_size(&sizes);
        self.sizes = sizes;
        assert(self@ =~= old(self)@.sized(size));
    }

    /// A client connects. Returns what it is welcomed with.
    pub fn client_connected<'a>(
        &mut self,
        id: u64,
        terms: &HashMap<usize, TerminalView<'a>>,
    ) -> (r: ServerMessage)
        requires
            old(self).wf(),
        ensures
            final(self).wf(),
            final(self)@ == old(self)@.joined(id),
            r@ == (ServerMessageView::Welcome {
                session_id: id,
                windows: all_states(old(self)@.state, terms@),
                solo_mode_active: old(self)@.state.solo is Some,
                solo_origin_id: solo_origin(old(self)@.state),
            }),
            r@ == old(self)@.welcome(id, terms@),
    {
        self.set_size(ClientSize { id, width: 80, height: 24 });
        let mut writers = drop_writer(&self.writers, id);
        writers.push(id);
        self.writers = writers;
        assert(self@ =~= old(self)@.joined(id));
        let windows = self.state.get_all_window_states(terms);
        ServerMessage::Welcome {
            session_id: id,
            windows,
            solo_mode_active: self.solo_active(),
            solo_origin_id: self.solo_window(),
        }
    }

    /// A client is gone. Returns whether the session is over.
    pub fn client_disconnected(&mut self, id: u64) -> (r: bool)
        requires
            old(self).wf(),
        ensures
            final(self).wf(),
            final(self)@ == old(self)@.left(id),
            r == old(self)@.left(id).over(),
    {
        self.writers = drop_writer(&self.writers, id);
        let sizes = drop_size(&self.sizes, id);
        self.screen = recalculate_effective_size(&sizes);
        self.sizes = sizes;
        assert(self@ =~= old(self)@.left(id));
        self.is_over()
    }

    /// Whether there is no window and no client left.
    pub fn is_over(&self) -> (r: bool)
        requires
            self.wf(),
        ensures
            r == self@.over(),
    {
        proof {
            let st = self@.state;
            if st.order.len() == 0 {
                assert forall|k: usize| !st.windows.contains_key(k) by {
                    assert(!st.order.contains(k));
                }
                assert(st.windows.dom() =~= Set::<usize>::empty());
            } else {
                assert(st.order.contains(st.order[0]));
                assert(st.windows.contains_key(st.order[0]));
                assert(st.windows.dom().contains(st.order[0]));
            }
        }
        self.state.window_order.len() == 0 && self.writers.len() == 0
    }

    fn solo_active(&self) -> (r: bool)
        ensures
            r == (self@.state.solo is Some),
    {
        match &self.state.solo {
            Some(_) => true,
            None => false,
        }
    }

    fn solo_window(&self) -> (r: Option<usize>)
        ensures
            r == solo_origin(self@.state),
    {
        match &self.state.solo {
            Some(solo) => Some(solo.origin),
            None => None,
        }
    }

    /// Whether a message can be acted on.
    pub fn can_handle(&self, msg: &ClientMessage) -> (r: bool)
        ensures
            r == self@.accepts(msg@),
    {
        match msg {
            ClientMessage::CreateWindow { .. } => self.screen.width >= MIN_WIDTH + 2
                && self.screen.height >= MIN_HEIGHT + 2 && self.state.next_window_id < usize::MAX,
            ClientMessage::MaximizeWindow { window_id } => match self.state.windows.get(window_id) {
                Some(win) => match win.saved_rect {
                    Some(_) => true,
                    None => win.rect.width <= u16::MAX - win.rect.x && win.rect.height <= u16::MAX
                        - win.rect.y,
                },
                None => true,
            },
            _ => true,
        }
    }

    /// A client sent a message.
    pub fn handle_message(&mut self, client: u64, msg: ClientMessage) -> (r: Plan)
        requires
            old(self).wf(),
            old(self)@.accepts(msg@),
        ensures
            final(self).wf(),
            final(self)@ == old(self)@.after(client, msg@),
            r@ == old(self)@.plan(msg@),
            r@ matches PlanView::Spawn { window } ==> window.id < final(self)@.state.next_id
                && !final(self)@.state.windows.contains_key(window.id),
    {
        let ghost before = self@;
        match msg {
            ClientMessage::Connect { term_size } => {
                self.set_size(ClientSize { id: client, width: term_size.0, height: term_size.1 });
                Plan::Nothing
            },
            ClientMessage::TerminalResize { width, height } => {
                self.set_size(ClientSize { id: client, width, height });
                Plan::Nothing
            },
            ClientMessage::Disconnect => Plan::Disconnect,
            ClientMessage::CreateWindow { x, y, width, height, command, args } => {
                let mut title = String::new();
                title.append("New Terminal");
                let config = WindowConfig {
                    x,
                    y,
                    width: fit_request(x, width, self.screen.width, MIN_WIDTH),
                    height: fit_request(y, height, self.screen.height, MIN_HEIGHT),
                    command,
                    args,
                    title: Some(title),
                };
                assert(title@ =~= "New Terminal"@);
                assert(config@ =~= requested_window(
                    x,
                    y,
                    width,
                    height,
                    opt_text(command),
                    texts(args@),
                    self.screen,
                ));
                let screen = self.screen;
                let window = self.state.create_window(&config, &screen);
                Plan::Spawn { window }
            },
            ClientMessage::SaveLayout { path } => Plan::SaveLayout { path },
            ClientMessage::LoadLayout { path } => Plan::LoadLayout { path },
            ClientMessage::CapturePane { window_id } => Plan::CapturePane { window_id },
            ClientMessage::CaptureFull => Plan::CaptureFull,
            ClientMessage::CloseWindow { window_id } => {
                self.state.close_window(window_id);
                Plan::Close { window_id }
            },
            ClientMessage::FocusWindow { window_id } => {
                self.state.focus_window(window_id);
                Plan::Sync
            },
            ClientMessage::Input { window_id, data } => {
                if self.state.windows.contains_key(&window_id) {
                    Plan::Write { window_id, data }
                } else {
                    Plan::Nothing
                }
            },
            ClientMessage::ResizeWindow { window_id, width, height } => {
                match self.state.resize_window(window_id, width, height) {
                    Some(size) => Plan::Resize { size },
                    None => Plan::Nothing,
                }
            },
            ClientMessage::MoveWindow { window_id, x, y } => {
                if self.state.move_window(window_id, x, y) {
                    Plan::Refresh { window_id }
                } else {
                    Plan::Nothing
                }
            },
            ClientMessage::MinimizeWindow { window_id } => {
                if self.state.toggle_minimize(window_id) {
                    Plan::Refresh { window_id }
                } else {
                    Plan::Nothing
                }
            },
            ClientMessage::RenameWindow { window_id, title } => {
                if self.state.rename_window(window_id, title) {
                    Plan::Refresh { window_id }
                } else {
                    Plan::Nothing
                }
            },
            ClientMessage::MaximizeWindow { window_id } => {
                let screen = self.screen;
                match self.state.toggle_maximize(window_id, &screen) {
                    Some(size) => Plan::Resize { size },
                    None => Plan::Nothing,
                }
            },
            ClientMessage::ToggleFullscreen { window_id } => {
                let screen = self.screen;
                match self.state.toggle_fullscreen(window_id, &screen) {
                    (_, Some(size)) => Plan::Resize { size },
                    (true, None) => Plan::Refresh { window_id },
                    (false, None) => Plan::Nothing,
                }
            },
            ClientMessage::Scroll { window_id, amount } => {
                match self.state.scroll_window(window_id, amount) {
                    Some(offset) => Plan::Scroll { window_id, offset },
                    None => Plan::Nothing,
                }
            },
            ClientMessage::ScrollTo { window_id, offset } => {
                match self.state.scroll_window_to(window_id, offset) {
                    Some(offset) => Plan::Scroll { window_id, offset },
                    None => Plan::Nothing,
                }
            },
            ClientMessage::ClearScrollback { window_id } => {
                match self.state.scroll_window_to(window_id, 0) {
                    Some(_) => Plan::ClearHistory { window_id },
                    None => Plan::Nothing,
                }
            },
            ClientMessage::ToggleSolo { window_id } => {
                if self.state.toggle_solo(window_id) {
                    Plan::Sync
                } else {
                    Plan::Nothing
                }
            },
            ClientMessage::TemporaryExpand { window_id } => {
                if self.state.show_beside_solo(window_id, true) {
                    Plan::Refresh { window_id }
                } else {
                    Plan::Nothing
                }
            },
            ClientMessage::TemporaryCollapse { window_id } => {
                if self.state.show_beside_solo(window_id, false) {
                    Plan::Refresh { window_id }
                } else {
                    Plan::Nothing
                }
            },
            ClientMessage::TileWindows => {
                let screen = self.screen;
                let sizes = self.state.tile_windows(&screen);
                Plan::ResizeAll { sizes }
            },
        }
    }

    /// The message that tells clients of all windows.
    pub fn full_sync<'a>(&self, terms: &HashMap<usize, TerminalView<'a>>) -> (r: ServerMessage)
        ensures
            r@ == self@.sync(terms@),
    {
        let windows = self.state.get_all_window_states(terms);
        ServerMessage::FullSync {
            windows,
            solo_mode_active: self.solo_active(),
            solo_origin_id: self.solo_window(),
        }
    }

    /// A window may show something else than before: finds what to tell clients.
    pub fn window_needs_update<'a>(
        &mut self,
        window_id: usize,
        terms: &HashMap<usize, TerminalView<'a>>,
    ) -> (r: Option<ServerMessage>)
        requires
            old(self).wf(),
        ensures
            final(self).wf(),
            final(self)@ == old(self)@.told_of(terms@, window_id),
            opt_message(r) == report_of(old(self)@.state, terms@, window_id),
    {
        let ghost before = self.state@;
        match terms.get(&window_id) {
            Some(term) => match self.state.take_out(window_id) {
                Some(mut win) => {
                    assert(before.windows.contains_key(window_id));
                    let ws = build_window_state(&win, &self.state.window_order, term);
                    let r = win.report_change(ws);
                    self.state.put_back(window_id, win, Ghost(before));
                    assert(self@ =~= old(self)@.told_of(terms@, window_id));
                    r
                },
                None => None,
            },
            None => None,
        }
    }

    /// A window changed: finds what to tell clients.
    pub fn window_changed<'a>(
        &mut self,
        window_id: usize,
        terms: &HashMap<usize, TerminalView<'a>>,
    ) -> (r: Option<ServerMessage>)
        requires
            old(self).wf(),
        ensures
            final(self).wf(),
            final(self)@ == old(self)@.told_of(terms@, window_id),
            opt_message(r) == update_of(old(self)@.state, terms@, window_id),
    {
        let ghost before = self.state@;
        match terms.get(&window_id) {
            Some(term) => match self.state.take_out(window_id) {
                Some(mut win) => {
                    assert(before.windows.contains_key(window_id));
                    let ws = build_window_state(&win, &self.state.window_order, term);
                    win.update_last_state(&ws);
                    self.state.put_back(window_id, win, Ghost(before));
                    assert(self@ =~= old(self)@.told_of(terms@, window_id));
                    Some(ServerMessage::WindowUpdate { window: ws })
                },
                None => None,
            },
            None => None,
        }
    }

    /// The history of a terminal was dropped: shows its newest rows, and finds
    /// what to tell clients.
    pub fn history_dropped<'a>(
        &mut self,
        window_id: usize,
        terms: &HashMap<usize, TerminalView<'a>>,
    ) -> (r: Option<ServerMessage>)
        requires
            old(self).wf(),
        ensures
            final(self).wf(),
            final(self)@ == old(self)@.at_newest_rows(window_id).told_of(terms@, window_id),
            opt_message(r) == update_of(
                old(self)@.at_newest_rows(window_id).state,
                terms@,
                window_id,
            ),
    {
        self.state.scroll_window_to(window_id, 0);
        assert(self@ =~= old(self)@.at_newest_rows(window_id));
        self.window_changed(window_id, terms)
    }

    /// The terminal of a window ended: closes the window. Returns whether the
    /// session is over.
    pub fn window_closed(&mut self, window_id: usize) -> (r: bool)
        requires
            old(self).wf(),
        ensures
            final(self).wf(),
            final(self)@ == (SessionView {
                state: old(self)@.state.closed(window_id),
                ..old(self)@
            }),
            r == final(self)@.over(),
    {
        self.state.close_window(window_id);
        self.is_over()
    }

    /// Whether the screen has room for a new window, and a number is left for it.
    pub fn can_open(&self) -> (r: bool)
        ensures
            r == (has_room(self.screen) && self.state.next_window_id < usize::MAX),
    {
        self.screen.width >= MIN_WIDTH + 2 && self.screen.height >= MIN_HEIGHT + 2
            && self.state.next_window_id < usize::MAX
    }

    /// Works out the window that opens for a configuration of a layout.
    pub fn open_window(&mut self, config: &WindowConfig) -> (w: NewWindow)
        requires
            old(self).wf(),
            has_room(old(self).screen),
            old(self).state.next_window_id < usize::MAX,
        ensures
            final(self).wf(),
            final(self)@ == (SessionView { state: old(self)@.state.reserved(), ..old(self)@ }),
            w@ == planned(old(self).state.next_window_id, config@, old(self).screen),
            w.id < final(self)@.state.next_id,
            !final(self)@.state.windows.contains_key(w.id),
    {
        let screen = self.screen;
        self.state.create_window(config, &screen)
    }

    /// The terminal of a new window was started: adds the window.
    pub fn window_started(&mut self, w: NewWindow) -> (id: usize)
        requires
            old(self).wf(),
            w.id < old(self).state.next_window_id,
            !old(self)@.state.windows.contains_key(w.id),
        ensures
            final(self).wf(),
            final(self)@ == (SessionView { state: old(self)@.state.created(w@), ..old(self)@ }),
            id == w.id,
    {
        self.state.add_window(w)
    }

    /// Closes all windows, to make way for a layout.
    pub fn close_all(&mut self)
        requires
            old(self).wf(),
        ensures
            final(self).wf(),
            final(self)@ == (SessionView { state: old(self)@.state.cleared(), ..old(self)@ }),
    {
        self.state.clear();
    }

    /// The messages that tell clients that a window closed, and of the others.
    pub fn close_messages<'a>(
        &self,
        window_id: usize,
        terms: &HashMap<usize, TerminalView<'a>>,
    ) -> (r: Vec<ServerMessage>)
        ensures
            message_views(r@) == seq![
                ServerMessageView::WindowClosed { window_id },
                self@.sync(terms@),
            ],
            message_views(r@) == self@.farewell(window_id, terms@),
    {
        let mut r: Vec<ServerMessage> = Vec::new();
        r.push(ServerMessage::WindowClosed { window_id });
        r.push(self.full_sync(terms));
        assert(message_views(r@) =~= seq![
            ServerMessageView::WindowClosed { window_id },
            self@.sync(terms@),
        ]);
        r
    }

    /// The reply to a request for the whole desktop as text.
    pub fn capture_reply<'a>(&self, terms: &HashMap<usize, TerminalView<'a>>) -> (r: ServerMessage)
        ensures
            r@ == (ServerMessageView::FullCaptured {
                text: captured_lines(self@.state, terms@, self.screen, self.screen.height as int),
            }),
    {
        ServerMessage::FullCaptured { text: self.state.capture_full(terms, &self.screen) }
    }
}

/// The answer to a request to save the layout.
pub open spec fn save_answer(failure: Option<Seq<char>>) -> ServerMessageView {
    match failure {
        Some(e) => ServerMessageView::Error { message: "Failed to save layout: "@ + e },
        None => ServerMessageView::LayoutSaved,
    }
}

/// A client that asks to save the layout is told that it was saved, or what went
/// wrong.
pub proof fn law_failure_to_save_is_told(e: Seq<char>)
    ensures
        save_answer(None) == ServerMessageView::LayoutSaved,
        save_answer(Some(e)) matches ServerMessageView::Error { message } && message
            == "Failed to save layout: "@ + e,
{
}

/// The reply to a request to save the layout: what went wrong, if anything.
pub fn save_reply(failure: Option<String>) -> (r: ServerMessage)
    ensures
        r@ == match failure {
            Some(e) => ServerMessageView::Error { message: "Failed to save layout: "@ + e@ },
            None => ServerMessageView::LayoutSaved,
        },
        r@ == save_answer(opt_text(failure)),
{
    match failure {
        Some(e) => {
            let mut message = String::new();
            message.append("Failed to save layout: ");
            message.append(e.as_str());
            assert(message@ =~= "Failed to save layout: "@ + e@);
            ServerMessage::Error { message }
        },
        None => ServerMessage::LayoutSaved,
    }
}

proof fn lemma_without_writer(writers: Seq<u64>, id: u64)
    ensures
        forall|w: u64| #[trigger]
            without_writer(writers, id).contains(w) <==> writers.contains(w) && w != id,
    decreases writers.len(),
{
    if writers.len() > 0 {
        let rest = writers.drop_last();
        lemma_without_writer(rest, id);
        let inner = without_writer(rest, id);
        let all = without_writer(writers, id);
        assert forall|w: u64| #[trigger] all.contains(w) <==> writers.contains(w) && w != id by {
            if all.contains(w) {
                let i = choose|i: int| 0 <= i < all.len() && all[i] == w;
                if i < inner.len() {
                    assert(inner[i] == w);
                    assert(inner.contains(w));
                    let j = choose|j: int| 0 <= j < rest.len() && rest[j] == w;
                    assert(writers[j] == w);
                } else {
                    assert(writers[writers.len() - 1] == w);
                }
            }
            if writers.contains(w) && w != id {
                let j = choose|j: int| 0 <= j < writers.len() && writers[j] == w;
                if j < rest.len() {
                    assert(rest[j] == w);
                    assert(inner.contains(w));
                    let i = choose|i: int| 0 <= i < inner.len() && inner[i] == w;
                    assert(all[i] == w);
                } else {
                    assert(all[inner.len() as int] == w);
                }
            }
        }
    }
}

/// A client that connects is one that messages go to, with a size of 80 by 24 until
/// it reports another; one that is gone is neither told anything nor counts for the
/// size of the screen. Other clients and the windows are not touched.
pub proof fn law_clients_come_and_go(session: SessionView, id: u64, other: u64, s: ClientSize)
    ensures
        session.joined(id).writers.contains(other) <==> other == id || session.writers.contains(
            other,
        ),
        session.left(id).writers.contains(other) <==> other != id && session.writers.contains(other),
        session.joined(id).sizes.contains(s) <==> if s.id == id {
            s.width == 80 && s.height == 24
        } else {
            session.sizes.contains(s)
        },
        session.left(id).sizes.contains(s) <==> s.id != id && session.sizes.contains(s),
        session.joined(id).state == session.state,
        session.left(id).state == session.state,
        session.joined(id).wf() <==> session.state.wf(),
        session.left(id).wf() <==> session.state.wf(),
{
    lemma_without_writer(session.writers, id);
    lemma_without_size(session.sizes, id);
    let writers = without_writer(session.writers, id);
    let sizes = without_size(session.sizes, id);
    let joined = writers.push(id);
    let size = ClientSize { id, width: 80, height: 24 };
    let more = sizes.push(size);
    assert(joined[writers.len() as int] == id);
    assert(more[sizes.len() as int] == size);
    if joined.contains(other) {
        let i = choose|i: int| 0 <= i < joined.len() && joined[i] == other;
        if i < writers.len() {
            assert(writers[i] == other);
            assert(writers.contains(other));
        }
    }
    if writers.contains(other) {
        let i = choose|i: int| 0 <= i < writers.len() && writers[i] == other;
        assert(joined[i] == other);
    }
    if more.contains(s) {
        let i = choose|i: int| 0 <= i < more.len() && more[i] == s;
        if i < sizes.len() {
            assert(sizes[i] == s);
            assert(sizes.contains(s));
        }
    }
    if sizes.contains(s) {
        let i = choose|i: int| 0 <= i < sizes.len() && sizes[i] == s;
        assert(more[i] == s);
    }
}

/// A session without clients has a large screen.
pub proof fn law_screen_without_clients_is_large(session: SessionView)
    requires
        session.wf(),
        session.sizes.len() == 0,
    ensures
        session.screen == (Rect { x: 0, y: 0, width: 200, height: 60 }),
{
}

/// A session that is given no layout starts with one window of 80 by 24 that runs
/// no particular command, near the upper left corner; one that is given a layout
/// starts with its windows, in their order.
pub proof fn law_session_starts_with_its_layout(layout: Seq<WindowConfigView>)
    ensures
        starting_configs(Some(layout)) == layout,
        starting_configs(None).len() == 1,
        ({
            let w = starting_configs(None)[0];
            &&& w.x == 5 && w.y == 2
            &&& w.width == 80 && w.height == 24
            &&& w.command is None
            &&& w.args.len() == 0
        }),
{
}

} // verus!
