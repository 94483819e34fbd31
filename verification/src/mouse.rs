//! How a client reacts to the mouse.

use vstd::prelude::*;
use vstd::utf8::encode_utf8;
use crate::client::{
    action_views, item_quits, push_action, push_send, send, ActionView, Client, ClientAction,
    ClientView, DragState, RenameState, RenameStateView,
};
use crate::clipboard::{selected_text, selection_text, Selection};
use crate::geometry::{max_int, sub_floor, sub_u16, Rect};
use crate::hits::{HitTarget, Menu};
use crate::input::{
    button_code, button_number, encode_mouse, modifier_bits, mouse_report, text_bytes, MouseButton,
    MouseEvent, MouseKind,
};
use crate::protocol::{
    state_views, texts, ClientMessage, ClientMessageView, WindowState, WindowStateView,
    DEFAULT_TERM_HEIGHT, DEFAULT_TERM_WIDTH,
};
use crate::store::{find_window, known, law_stored_window_is_found, lookup, stored};

verus! {

/// Time within which a second click makes a double click, in milliseconds.
pub const DOUBLE_CLICK_MS: u64 = 500;

/// Least time between two messages of a drag, in milliseconds.
pub const DRAG_INTERVAL_MS: u64 = 16;

/// What becomes of a client, what is to be done, and whether the client ends.
#[verifier::ext_equal]
pub struct Outcome {
    pub client: ClientView,
    pub actions: Seq<ActionView>,
    pub quit: bool,
}

/// The outcome where nothing is to be done.
pub open spec fn quiet(client: ClientView) -> Outcome {
    Outcome { client, actions: Seq::empty(), quit: false }
}

/// The outcome where one message is sent.
pub open spec fn telling(client: ClientView, msg: ClientMessageView) -> Outcome {
    Outcome { client, actions: seq![send(msg)], quit: false }
}

impl Outcome {
    /// With something done before.
    pub open spec fn following(self, first: Seq<ActionView>) -> Outcome {
        Outcome { actions: first + self.actions, ..self }
    }
}

/// The column of a place inside a window, counted from its first column.
pub open spec fn col_in(win: WindowStateView, m: MouseEvent) -> u16 {
    sub_floor(m.column as int, win.x + 1) as u16
}

/// The row of a place inside a window, counted from its first row.
pub open spec fn row_in(win: WindowStateView, m: MouseEvent) -> u16 {
    sub_floor(m.row as int, win.y + 1) as u16
}

/// The report of the mouse to the application in a window.
pub open spec fn report(win: WindowStateView, m: MouseEvent, code: int, release: bool) -> ClientMessageView {
    ClientMessageView::Input {
        window_id: win.id,
        data: mouse_report(code, col_in(win, m) as int, row_in(win, m) as int, release),
    }
}

/// A window whose application wants the mouse.
pub open spec fn reporting(s: Seq<WindowStateView>, id: usize) -> bool {
    lookup(s, id) is Some && lookup(s, id)->0.mouse_reporting
}

/// The place of a window, as it is drawn.
pub open spec fn drawn_rect(win: WindowStateView) -> Rect {
    Rect::at(
        win.x,
        win.y,
        win.width,
        if win.minimized {
            1
        } else {
            win.height
        },
    )
}

/// What a drag amounts to: a window moves, or changes its size, by as much as
/// the mouse did.
pub open spec fn drag_message(state: DragState, m: MouseEvent) -> ClientMessageView {
    let dx = m.column - state.start_mouse.0;
    let dy = m.row - state.start_mouse.1;
    let rect = state.start_rect;
    if state.is_resize {
        ClientMessageView::ResizeWindow {
            window_id: state.window_id,
            width: (max_int(rect.width + dx, 10) % 0x10000) as u16,
            height: (max_int(rect.height + dy, 3) % 0x10000) as u16,
        }
    } else {
        ClientMessageView::MoveWindow {
            window_id: state.window_id,
            x: (max_int(rect.x + dx, 0) % 0x10000) as u16,
            y: (max_int(rect.y + dy, 0) % 0x10000) as u16,
        }
    }
}

/// The window that a scroll bar is used of, and where.
pub open spec fn track(win: WindowStateView, m: MouseEvent, always: bool) -> Seq<ActionView> {
    let inner_height = sub_floor(win.height as int, 2) as u16;
    if inner_height > 0 && win.scrollback_size > 0 {
        seq![
            ActionView::TrackScrollbar {
                window_id: win.id,
                inner_height,
                history: win.scrollback_size,
                row: row_in(win, m),
                always,
            },
        ]
    } else {
        Seq::empty()
    }
}

/// The message that a button of a window sends.
pub open spec fn button_message(target: HitTarget) -> Option<ClientMessageView> {
    match target {
        HitTarget::CloseButton(window_id) => Some(ClientMessageView::CloseWindow { window_id }),
        HitTarget::MinimizeButton(window_id) => Some(
            ClientMessageView::MinimizeWindow { window_id },
        ),
        HitTarget::MaximizeButton(window_id) => Some(
            ClientMessageView::MaximizeWindow { window_id },
        ),
        HitTarget::FullscreenButton(window_id) => Some(
            ClientMessageView::ToggleFullscreen { window_id },
        ),
        HitTarget::SoloButton(window_id) => Some(ClientMessageView::ToggleSolo { window_id }),
        HitTarget::ResetButton(window_id) => Some(
            ClientMessageView::ResizeWindow {
                window_id,
                width: (DEFAULT_TERM_WIDTH + 2) as u16,
                height: (DEFAULT_TERM_HEIGHT + 2) as u16,
            },
        ),
        _ => None,
    }
}

/// The request for a window where the mouse is.
pub open spec fn window_at(m: MouseEvent) -> ClientMessageView {
    ClientMessageView::CreateWindow {
        x: m.column,
        y: m.row,
        width: (DEFAULT_TERM_WIDTH + 2) as u16,
        height: (DEFAULT_TERM_HEIGHT + 2) as u16,
        command: None,
        args: Seq::empty(),
    }
}

impl ClientView {
    /// Whether the mouse, over a target, leaves a window that was shown for a
    /// moment.
    pub open spec fn hover_leaves(self, target: HitTarget) -> bool {
        self.expanded is Some && target.of_window() != self.expanded
    }

    /// The hidden window whose title the mouse is over, if it is to be shown.
    pub open spec fn hover_enters(self, target: HitTarget) -> Option<usize> {
        match target {
            HitTarget::WindowTitle(id) => if Some(id) != self.solo_origin && self.expanded != Some(
                id,
            ) && lookup(self.windows, id) is Some && lookup(self.windows, id)->0.minimized {
                Some(id)
            } else {
                None
            },
            _ => None,
        }
    }

    /// Whether the mouse is over the title of a window that solo mode hides.
    pub open spec fn over_hidden_title(self, target: HitTarget) -> bool {
        target matches HitTarget::WindowTitle(id) && Some(id) != self.solo_origin
    }

    /// While solo mode is on, a hidden window is shown while the mouse is over
    /// it.
    pub open spec fn hovered(self, target: HitTarget, kind: MouseKind) -> Outcome {
        if !self.solo_active || kind != MouseKind::Moved {
            quiet(self)
        } else {
            match self.hover_enters(target) {
                Some(id) => Outcome {
                    client: ClientView { expanded: Some(id), ..self },
                    actions: (match self.expanded {
                        Some(old) => seq![
                            send(ClientMessageView::TemporaryCollapse { window_id: old }),
                        ],
                        None => Seq::empty(),
                    }).push(send(ClientMessageView::TemporaryExpand { window_id: id })),
                    quit: false,
                },
                None => if !self.over_hidden_title(target) && self.hover_leaves(target) {
                    telling(
                        ClientView { expanded: None, ..self },
                        ClientMessageView::TemporaryCollapse { window_id: self.expanded->0 },
                    )
                } else {
                    quiet(self)
                },
            }
        }
    }

    /// The report of a move of the mouse to an application that wants it.
    pub open spec fn move_report(self, target: HitTarget, m: MouseEvent) -> Seq<ActionView> {
        match target {
            HitTarget::WindowContent(id) => if m.kind == MouseKind::Moved && reporting(
                self.windows,
                id,
            ) {
                seq![send(report(lookup(self.windows, id)->0, m, 35, false))]
            } else {
                Seq::empty()
            },
            _ => Seq::empty(),
        }
    }

    /// Whether a drag takes an event for itself.
    pub open spec fn drag_takes(self, kind: MouseKind) -> bool {
        self.drag is Some && (kind is Up || kind is Drag)
    }

    /// After an event that a drag takes.
    pub open spec fn drag_step(self, m: MouseEvent, now: u64) -> Outcome {
        let state = self.drag->0;
        if m.kind is Up || !known(self.windows, state.window_id) {
            quiet(ClientView { drag: None, ..self })
        } else if sub_floor(now as int, state.last_update as int) < DRAG_INTERVAL_MS {
            quiet(self)
        } else {
            telling(
                ClientView { drag: Some(DragState { last_update: now, ..state }), ..self },
                drag_message(state, m),
            )
        }
    }

    /// With a window as the active one.
    pub open spec fn activated(self, id: usize) -> ClientView {
        ClientView { active: Some(id), ..self }
    }

    /// With a drag of a window started: it changes the size of the window from
    /// its corner, or with the control key from near it; else it moves it.
    pub open spec fn drag_started(
        self,
        win: WindowStateView,
        target: HitTarget,
        m: MouseEvent,
        now: u64,
    ) -> ClientView {
        ClientView {
            drag: Some(
                DragState {
                    window_id: win.id,
                    start_mouse: (m.column, m.row),
                    start_rect: drawn_rect(win),
                    is_resize: target is WindowResize || (m.modifiers.control && m.column >= win.x
                        + win.width - 2 && m.row >= win.y + win.height - 1),
                    last_update: now,
                },
            ),
            ..self
        }
    }

    /// After a button went down over the inside of a window.
    pub open spec fn content_pressed(
        self,
        win: WindowStateView,
        m: MouseEvent,
        button: MouseButton,
        now: u64,
    ) -> Outcome {
        if win.mouse_reporting {
            telling(
                self,
                report(win, m, button_code(button) + modifier_bits(m.modifiers), false),
            )
        } else if button == MouseButton::Left && m.modifiers.control {
            quiet(
                ClientView {
                    pending: None,
                    selection: None,
                    ..self.drag_started(win, HitTarget::WindowContent(win.id), m, now)
                },
            )
        } else if button == MouseButton::Left {
            quiet(
                ClientView {
                    pending: Some((win.id, row_in(win, m), col_in(win, m))),
                    selection: None,
                    ..self
                },
            )
        } else if button == MouseButton::Right {
            Outcome {
                client: self,
                actions: seq![ActionView::Paste { window_id: win.id }],
                quit: false,
            }
        } else {
            quiet(self)
        }
    }

    /// After the left button went down over the frame of a window: a double
    /// click renames it, another click starts a drag.
    pub open spec fn frame_pressed(
        self,
        win: WindowStateView,
        target: HitTarget,
        m: MouseEvent,
        now: u64,
    ) -> ClientView {
        let double = match self.last_click {
            Some((id, at)) => id == win.id && sub_floor(now as int, at as int) < DOUBLE_CLICK_MS,
            None => false,
        };
        if double {
            ClientView {
                rename: Some(RenameStateView { window_id: win.id, input: win.title }),
                last_click: None,
                ..self
            }
        } else {
            ClientView { last_click: Some((win.id, now)), ..self.drag_started(win, target, m, now) }
        }
    }

    /// After a button went down over a target.
    pub open spec fn pressed(
        self,
        target: HitTarget,
        m: MouseEvent,
        button: MouseButton,
        now: u64,
    ) -> Outcome {
        let left = button == MouseButton::Left;
        match target {
            HitTarget::MenuLabel(menu) => if left {
                quiet(
                    ClientView {
                        menu: if self.menu == menu {
                            Menu::Closed
                        } else {
                            menu
                        },
                        ..self
                    },
                )
            } else {
                quiet(self)
            },
            HitTarget::MenuItem(menu, idx) => if left {
                Outcome {
                    client: self.item_chosen(menu, idx as int),
                    actions: self.item_actions(menu, idx as int),
                    quit: item_quits(menu, idx as int),
                }
            } else {
                quiet(self)
            },
            HitTarget::Deskbar(idx) => if left && idx < self.windows.len() {
                let id = self.windows[idx as int].id;
                telling(self.activated(id), ClientMessageView::FocusWindow { window_id: id })
            } else {
                quiet(self)
            },
            HitTarget::DeskbarMinimizeButton => if left {
                quiet(ClientView { deskbar_minimized: !self.deskbar_minimized, ..self })
            } else {
                quiet(self)
            },
            HitTarget::WindowContent(id) => self.activated(id).content_pressed(
                lookup(self.windows, id)->0,
                m,
                button,
                now,
            ).following(seq![send(ClientMessageView::FocusWindow { window_id: id })]),
            HitTarget::WindowScrollbar(id) => {
                let focus = seq![send(ClientMessageView::FocusWindow { window_id: id })];
                if left {
                    Outcome {
                        client: ClientView { scrollbar_drag: Some(id), ..self.activated(id) },
                        actions: focus + track(lookup(self.windows, id)->0, m, true),
                        quit: false,
                    }
                } else {
                    Outcome { client: self.activated(id), actions: focus, quit: false }
                }
            },
            HitTarget::WindowTitle(id) => self.window_frame(id, target, m, left, now),
            HitTarget::WindowBorder(id) => self.window_frame(id, target, m, left, now),
            HitTarget::WindowResize(id) => self.window_frame(id, target, m, left, now),
            HitTarget::Nothing => {
                let closed = ClientView { menu: Menu::Closed, ..self };
                if button == MouseButton::Right && m.modifiers.control {
                    telling(closed, window_at(m))
                } else {
                    quiet(closed)
                }
            },
            _ => match button_message(target) {
                Some(msg) => if left {
                    telling(self, msg)
                } else {
                    quiet(self)
                },
                None => quiet(self),
            },
        }
    }

    pub open spec fn window_frame(
        self,
        id: usize,
        target: HitTarget,
        m: MouseEvent,
        left: bool,
        now: u64,
    ) -> Outcome {
        let msg = ClientMessageView::FocusWindow { window_id: id };
        if left {
            telling(
                self.activated(id).frame_pressed(lookup(self.windows, id)->0, target, m, now),
                msg,
            )
        } else {
            telling(self.activated(id), msg)
        }
    }

    /// After the mouse moved over the inside of a window with the left button
    /// down.
    pub open spec fn selection_moved(self, win: WindowStateView, m: MouseEvent) -> ClientView {
        let here = (row_in(win, m), col_in(win, m));
        match self.pending {
            Some((id, row, col)) => if id == win.id && (row, col) != here {
                ClientView {
                    selection: Some(
                        Selection { window_id: win.id, start: (row, col), end: here },
                    ),
                    ..self
                }
            } else {
                self
            },
            None => match self.selection {
                Some(sel) => if sel.window_id == win.id {
                    ClientView { selection: Some(Selection { end: here, ..sel }), ..self }
                } else {
                    self
                },
                None => self,
            },
        }
    }

    /// The active window, if the mouse is over its inside.
    pub open spec fn active_under(self, target: HitTarget) -> Option<WindowStateView> {
        match self.active {
            Some(id) => if target == HitTarget::WindowContent(id) {
                lookup(self.windows, id)
            } else {
                None
            },
            None => None,
        }
    }

    /// After the mouse moved with a button down.
    pub open spec fn dragged(self, target: HitTarget, m: MouseEvent, button: MouseButton) -> Outcome {
        match self.scrollbar_drag {
            Some(id) => if button == MouseButton::Left && lookup(self.windows, id) is Some {
                Outcome {
                    client: self,
                    actions: track(lookup(self.windows, id)->0, m, false),
                    quit: false,
                }
            } else {
                quiet(self)
            },
            None => match self.active_under(target) {
                Some(win) => if win.mouse_reporting {
                    telling(
                        self,
                        report(win, m, 32 + button_code(button) + modifier_bits(m.modifiers), false),
                    )
                } else if button == MouseButton::Left {
                    quiet(self.selection_moved(win, m))
                } else {
                    quiet(self)
                },
                None => quiet(self),
            },
        }
    }

    /// The text that is copied when the left button goes up.
    pub open spec fn copied(self) -> Option<Seq<char>> {
        match self.selection {
            Some(sel) => match lookup(self.windows, sel.window_id) {
                Some(win) => if sel.start != sel.end {
                    Some(selected_text(win, sel.start, sel.end))
                } else {
                    None
                },
                None => None,
            },
            None => None,
        }
    }

    /// After a selection ended.
    pub open spec fn selection_ended(self) -> ClientView {
        ClientView {
            scrollbar_drag: None,
            clipboard: match self.copied() {
                Some(text) => text,
                None => self.clipboard,
            },
            selection: None,
            pending: None,
            ..self
        }
    }

    /// What is to be done when a selection ends.
    pub open spec fn copy_actions(self) -> Seq<ActionView> {
        match self.copied() {
            Some(text) => seq![ActionView::Copy { text }],
            None => Seq::empty(),
        }
    }

    /// The report that a button went up.
    pub open spec fn release_report(self, m: MouseEvent, button: MouseButton) -> Seq<ActionView> {
        match self.active {
            Some(id) => if reporting(self.windows, id) {
                seq![
                    send(
                        report(
                            lookup(self.windows, id)->0,
                            m,
                            button_code(button) + modifier_bits(m.modifiers),
                            true,
                        ),
                    ),
                ]
            } else {
                Seq::empty()
            },
            None => Seq::empty(),
        }
    }

    /// After a button went up.
    pub open spec fn released(self, m: MouseEvent, button: MouseButton) -> Outcome {
        if button == MouseButton::Left {
            Outcome {
                client: self.selection_ended(),
                actions: self.copy_actions() + self.release_report(m, button),
                quit: false,
            }
        } else {
            Outcome { client: self, actions: self.release_report(m, button), quit: false }
        }
    }

    /// The report of the wheel to an application that wants it.
    pub open spec fn wheel_report(self, target: HitTarget, m: MouseEvent, code: int) -> Seq<
        ActionView,
    > {
        match self.active_under(target) {
            Some(win) => if win.mouse_reporting {
                seq![send(report(win, m, code, false))]
            } else {
                Seq::empty()
            },
            None => Seq::empty(),
        }
    }

    /// After an event that no drag takes.
    pub open spec fn handled(self, target: HitTarget, m: MouseEvent, now: u64) -> Outcome {
        match m.kind {
            MouseKind::Down(button) => self.pressed(target, m, button, now),
            MouseKind::Drag(button) => self.dragged(target, m, button),
            MouseKind::Up(button) => self.released(m, button),
            MouseKind::ScrollUp => Outcome {
                client: self,
                actions: self.wheel_report(target, m, 64),
                quit: false,
            },
            MouseKind::ScrollDown => Outcome {
                client: self,
                actions: self.wheel_report(target, m, 65),
                quit: false,
            },
            _ => quiet(self),
        }
    }

    /// After a mouse event.
    pub open spec fn after_mouse(self, m: MouseEvent, now: u64) -> Outcome {
        let moved = ClientView { mouse: (m.column, m.row), ..self };
        let target = moved.target(m.column as int, m.row as int);
        let hover = moved.hovered(target, m.kind);
        let first = hover.actions + hover.client.move_report(target, m);
        if hover.client.drag_takes(m.kind) {
            hover.client.drag_step(m, now).following(first)
        } else {
            hover.client.handled(target, m, now).following(first)
        }
    }

    /// Whether a target needs its window when a button goes down on it.
    pub open spec fn needs_window(self, target: HitTarget, kind: MouseKind) -> Option<usize> {
        match kind {
            MouseKind::Down(button) => match target {
                HitTarget::WindowContent(id) => Some(id),
                HitTarget::WindowScrollbar(id) => if button == MouseButton::Left {
                    Some(id)
                } else {
                    None
                },
                HitTarget::WindowTitle(id) => if button == MouseButton::Left {
                    Some(id)
                } else {
                    None
                },
                HitTarget::WindowBorder(id) => if button == MouseButton::Left {
                    Some(id)
                } else {
                    None
                },
                HitTarget::WindowResize(id) => if button == MouseButton::Left {
                    Some(id)
                } else {
                    None
                },
                _ => None,
            },
            _ => None,
        }
    }

    /// Whether the window that an event is about is known: so it is where the
    /// targets were worked out after the windows last changed.
    pub open spec fn accepts(self, m: MouseEvent) -> bool {
        self.needs_window(self.target(m.column as int, m.row as int), m.kind) matches Some(id)
            ==> known(self.windows, id)
    }

    /// After text was pasted into a window: that of the system, or else the text
    /// that was copied here, which is then used up.
    pub open spec fn pasted(self, window_id: usize, system: Option<Seq<char>>) -> Outcome {
        match system {
            Some(text) => telling(
                self,
                ClientMessageView::Input { window_id, data: encode_utf8(text) },
            ),
            None => if self.clipboard.len() > 0 {
                telling(
                    ClientView { clipboard: Seq::empty(), ..self },
                    ClientMessageView::Input { window_id, data: encode_utf8(self.clipboard) },
                )
            } else {
                quiet(self)
            },
        }
    }

    /// After a scroll bar was used: the view is shown where it will be.
    pub open spec fn scrolled_to(self, window_id: usize, offset: usize, always: bool) -> Outcome {
        match lookup(self.windows, window_id) {
            Some(win) => if always || offset != win.scroll_offset {
                telling(
                    ClientView {
                        windows: stored(
                            self.windows,
                            WindowStateView { scroll_offset: offset, ..win },
                        ),
                        ..self
                    },
                    ClientMessageView::ScrollTo { window_id, offset },
                )
            } else {
                quiet(self)
            },
            None => quiet(self),
        }
    }
}

/// Once the targets are worked out, every mouse event can be handled.
pub proof fn law_updated_targets_are_accepted(client: ClientView, m: MouseEvent)
    requires
        client.wf(),
    ensures
        client.hits_updated().wf(),
        client.hits_updated().accepts(m),
{
    let after = client.hits_updated();
    let w = client.screen.width as int;
    let h = client.screen.height as int;
    if m.column < w && m.row < h {
        let i = m.row * w + m.column;
        assert(0 <= i < w * h) by (nonlinear_arith)
            requires
                0 <= m.column < w,
                0 <= m.row < h,
                i == m.row * w + m.column,
        ;
        crate::hits::law_hit_window_is_known(
            client.windows,
            client.menu,
            client.deskbar_minimized,
            w,
            i % w,
            i / w,
        );
    }
}

/// A click on a window, but not on one of its buttons, asks first that it be
/// brought to the front.
pub proof fn law_click_brings_window_to_front(
    client: ClientView,
    m: MouseEvent,
    button: MouseButton,
    id: usize,
    now: u64,
)
    requires
        client.wf(),
        m.kind == MouseKind::Down(button),
        ({
            let target = client.target(m.column as int, m.row as int);
            target == HitTarget::WindowContent(id) || target == HitTarget::WindowTitle(id) || target
                == HitTarget::WindowBorder(id) || target == HitTarget::WindowResize(id) || target
                == HitTarget::WindowScrollbar(id)
        }),
    ensures
        client.after_mouse(m, now).actions.len() > 0,
        client.after_mouse(m, now).actions[0] == send(
            ClientMessageView::FocusWindow { window_id: id },
        ),
        client.after_mouse(m, now).client.active == Some(id),
{
    let moved = ClientView { mouse: (m.column, m.row), ..client };
    let target = moved.target(m.column as int, m.row as int);
    let rest = moved.handled(target, m, now);
    assert(moved.hovered(target, m.kind) == quiet(moved));
    assert(Seq::<ActionView>::empty() + Seq::<ActionView>::empty() + rest.actions
        =~= rest.actions);
}

fn column_in(win: &WindowState, m: &MouseEvent) -> (r: u16)
    ensures
        r == col_in(win@, *m),
{
    if m.column > win.x {
        m.column - win.x - 1
    } else {
        0
    }
}

fn line_in(win: &WindowState, m: &MouseEvent) -> (r: u16)
    ensures
        r == row_in(win@, *m),
{
    if m.row > win.y {
        m.row - win.y - 1
    } else {
        0
    }
}

fn report_message(win: &WindowState, m: &MouseEvent, code: u32, release: bool) -> (r: ClientMessage)
    ensures
        r@ == report(win@, *m, code as int, release),
{
    ClientMessage::Input {
        window_id: win.id,
        data: encode_mouse(code, column_in(win, m), line_in(win, m), release),
    }
}

fn elapsed(now: u64, since: u64) -> (r: u64)
    ensures
        r == sub_floor(now as int, since as int),
{
    if now >= since {
        now - since
    } else {
        0
    }
}

/// What is left of a number in sixteen bits, and never less than a limit.
fn shifted(start: u16, by: i32, least: i32) -> (r: u16)
    requires
        -0xffff <= by <= 0xffff,
        0 <= least <= 0xffff,
    ensures
        r == max_int(start + by, least as int) % 0x10000,
{
    let sum: i32 = start as i32 + by;
    let kept: i32 = if sum < least {
        least
    } else {
        sum
    };
    let low: i32 = kept % 0x10000;
    low as u16
}

fn drag_update(state: &DragState, m: &MouseEvent) -> (r: ClientMessage)
    ensures
        r@ == drag_message(*state, *m),
{
    let dx: i32 = m.column as i32 - state.start_mouse.0 as i32;
    let dy: i32 = m.row as i32 - state.start_mouse.1 as i32;
    if state.is_resize {
        ClientMessage::ResizeWindow {
            window_id: state.window_id,
            width: shifted(state.start_rect.width, dx, 10),
            height: shifted(state.start_rect.height, dy, 3),
        }
    } else {
        ClientMessage::MoveWindow {
            window_id: state.window_id,
            x: shifted(state.start_rect.x, dx, 0),
            y: shifted(state.start_rect.y, dy, 0),
        }
    }
}

fn push_track(win: &WindowState, m: &MouseEvent, always: bool, out: &mut Vec<ClientAction>)
    ensures
        action_views(final(out)@) == action_views(old(out)@) + track(win@, *m, always),
{
    let inner_height: u16 = sub_u16(win.height, 2);
    let ghost done = action_views(out@);
    if inner_height > 0 && win.scrollback_size > 0 {
        push_action(
            out,
            ClientAction::TrackScrollbar {
                window_id: win.id,
                inner_height,
                history: win.scrollback_size,
                row: line_in(win, m),
                always,
            },
        );
        assert(action_views(out@) =~= done + track(win@, *m, always));
    } else {
        assert(done =~= done + track(win@, *m, always));
    }
}

fn is_moved(kind: MouseKind) -> (r: bool)
    ensures
        r == (kind == MouseKind::Moved),
{
    match kind {
        MouseKind::Moved => true,
        _ => false,
    }
}

impl Client {
    fn same_id(a: Option<usize>, b: Option<usize>) -> (r: bool)
        ensures
            r == (a == b),
    {
        match (a, b) {
            (Some(x), Some(y)) => x == y,
            (None, None) => true,
            _ => false,
        }
    }

    fn hover(&mut self, target: HitTarget, kind: MouseKind, out: &mut Vec<ClientAction>)
        requires
            old(self).wf(),
        ensures
            final(self).wf(),
            final(self)@ == old(self)@.hovered(target, kind).client,
            action_views(final(out)@) == action_views(old(out)@) + old(self)@.hovered(
                target,
                kind,
            ).actions,
    {
        let ghost done = action_views(out@);
        let ghost before = self@;
        let ghost outcome = before.hovered(target, kind);
        assert(done =~= done + Seq::<ActionView>::empty());
        if !self.solo_mode_active || !is_moved(kind) {
            return;
        }
        let mut entered: Option<usize> = None;
        let mut over_hidden = false;
        if let HitTarget::WindowTitle(id) = target {
            if !Self::same_id(Some(id), self.solo_origin_id) {
                over_hidden = true;
                if !Self::same_id(self.temporarily_expanded_id, Some(id)) {
                    if let Some(i) = find_window(&self.windows, id) {
                        if self.windows[i].minimized {
                            entered = Some(id);
                        }
                    }
                }
            }
        }
        assert(entered == before.hover_enters(target));
        match entered {
            Some(id) => {
                if let Some(old_id) = self.temporarily_expanded_id {
                    push_send(out, ClientMessage::TemporaryCollapse { window_id: old_id });
                }
                push_send(out, ClientMessage::TemporaryExpand { window_id: id });
                self.temporarily_expanded_id = Some(id);
                assert(action_views(out@) =~= done + outcome.actions);
                assert(self@ =~= outcome.client);
            },
            None => {
                if !over_hidden {
                    if let Some(old_id) = self.temporarily_expanded_id {
                        if !Self::same_id(target.window(), Some(old_id)) {
                            push_send(out, ClientMessage::TemporaryCollapse { window_id: old_id });
                            self.temporarily_expanded_id = None;
                            assert(action_views(out@) =~= done + outcome.actions);
                            assert(self@ =~= outcome.client);
                        }
                    }
                }
            },
        }
    }

    fn forward_move(&self, target: HitTarget, m: &MouseEvent, out: &mut Vec<ClientAction>)
        ensures
            action_views(final(out)@) == action_views(old(out)@) + self@.move_report(target, *m),
    {
        let ghost done = action_views(out@);
        assert(done =~= done + Seq::<ActionView>::empty());
        if !is_moved(m.kind) {
            return;
        }
        if let HitTarget::WindowContent(id) = target {
            if let Some(i) = find_window(&self.windows, id) {
                if self.windows[i].mouse_reporting {
                    push_send(out, report_message(&self.windows[i], m, 35, false));
                    assert(action_views(out@) =~= done + self@.move_report(target, *m));
                }
            }
        }
    }

    fn continue_drag(
        &mut self,
        state: DragState,
        m: &MouseEvent,
        now: u64,
        out: &mut Vec<ClientAction>,
    )
        requires
            old(self).wf(),
            old(self)@.drag == Some(state),
            old(self)@.drag_takes(m.kind),
        ensures
            final(self).wf(),
            final(self)@ == old(self)@.drag_step(*m, now).client,
            action_views(final(out)@) == action_views(old(out)@) + old(self)@.drag_step(
                *m,
                now,
            ).actions,
            !old(self)@.drag_step(*m, now).quit,
    {
        let ghost done = action_views(out@);
        let ghost outcome = self@.drag_step(*m, now);
        assert(done =~= done + Seq::<ActionView>::empty());
        let up = match m.kind {
            MouseKind::Up(_) => true,
            _ => false,
        };
        let gone = find_window(&self.windows, state.window_id).is_none();
        if up || gone {
            self.drag_state = None;
            assert(self@ =~= outcome.client);
            return;
        }
        if elapsed(now, state.last_update) < DRAG_INTERVAL_MS {
            return;
        }
        push_send(out, drag_update(&state, m));
        let mut next = state;
        next.last_update = now;
        self.drag_state = Some(next);
        assert(action_views(out@) =~= done + outcome.actions);
        assert(self@ =~= outcome.client);
    }

    fn start_drag(&mut self, i: usize, target: HitTarget, m: &MouseEvent, now: u64)
        requires
            old(self).wf(),
            i < old(self).windows@.len(),
        ensures
            final(self).wf(),
            final(self)@ == old(self)@.drag_started(
                old(self).windows@[i as int]@,
                target,
                *m,
                now,
            ),
    {
        let ghost view = self.windows@[i as int]@;
        let ghost before = self@;
        let win = &self.windows[i];
        let height: u16 = if win.minimized {
            1
        } else {
            win.height
        };
        let rect = Rect::new(win.x, win.y, win.width, height);
        let corner = match target {
            HitTarget::WindowResize(_) => true,
            _ => false,
        };
        let near = m.modifiers.control && m.column as i32 >= win.x as i32 + win.width as i32 - 2
            && m.row as i32 >= win.y as i32 + win.height as i32 - 1;
        let window_id: usize = win.id;
        self.drag_state = Some(
            DragState {
                window_id,
                start_mouse: (m.column, m.row),
                start_rect: rect,
                is_resize: corner || near,
                last_update: now,
            },
        );
        assert(self@ =~= before.drag_started(view, target, *m, now));
    }

    fn press_content(
        &mut self,
        i: usize,
        m: &MouseEvent,
        button: MouseButton,
        now: u64,
        out: &mut Vec<ClientAction>,
    )
        requires
            old(self).wf(),
            i < old(self).windows@.len(),
        ensures
            final(self).wf(),
            final(self)@ == old(self)@.content_pressed(
                old(self).windows@[i as int]@,
                *m,
                button,
                now,
            ).client,
            action_views(final(out)@) == action_views(old(out)@) + old(self)@.content_pressed(
                old(self).windows@[i as int]@,
                *m,
                button,
                now,
            ).actions,
    {
        let ghost done = action_views(out@);
        let ghost view = self.windows@[i as int]@;
        let ghost outcome = self@.content_pressed(view, *m, button, now);
        assert(done =~= done + Seq::<ActionView>::empty());
        if self.windows[i].mouse_reporting {
            let code: u32 = button_number(button, m.modifiers);
            push_send(out, report_message(&self.windows[i], m, code, false));
            assert(action_views(out@) =~= done + outcome.actions);
        } else {
            match button {
                MouseButton::Left => {
                    if m.modifiers.control {
                        let id: usize = self.windows[i].id;
                        self.start_drag(i, HitTarget::WindowContent(id), m, now);
                        self.pending_selection = None;
                        self.selection = None;
                        assert(self@ =~= outcome.client);
                    } else {
                        let win = &self.windows[i];
                        let start = (win.id, line_in(win, m), column_in(win, m));
                        self.pending_selection = Some(start);
                        self.selection = None;
                        assert(self@ =~= outcome.client);
                    }
                },
                MouseButton::Right => {
                    let window_id: usize = self.windows[i].id;
                    push_action(out, ClientAction::Paste { window_id });
                    assert(action_views(out@) =~= done + outcome.actions);
                },
                MouseButton::Middle => {},
            }
        }
    }

    fn press_frame(&mut self, i: usize, target: HitTarget, m: &MouseEvent, now: u64)
        requires
            old(self).wf(),
            i < old(self).windows@.len(),
        ensures
            final(self).wf(),
            final(self)@ == old(self)@.frame_pressed(
                old(self).windows@[i as int]@,
                target,
                *m,
                now,
            ),
    {
        let ghost view = self.windows@[i as int]@;
        let ghost before = self@;
        let id: usize = self.windows[i].id;
        let double = match self.last_click {
            Some((last_id, at)) => last_id == id && elapsed(now, at) < DOUBLE_CLICK_MS,
            None => false,
        };
        if double {
            let input = self.windows[i].title.clone();
            self.rename_state = Some(RenameState { window_id: id, input });
            self.last_click = None;
        } else {
            self.start_drag(i, target, m, now);
            self.last_click = Some((id, now));
        }
        assert(self@ =~= before.frame_pressed(view, target, *m, now));
    }

    fn press_window_frame(
        &mut self,
        id: usize,
        target: HitTarget,
        m: &MouseEvent,
        left: bool,
        now: u64,
        out: &mut Vec<ClientAction>,
    )
        requires
            old(self).wf(),
            left ==> known(old(self)@.windows, id),
        ensures
            final(self).wf(),
            final(self)@ == old(self)@.window_frame(id, target, *m, left, now).client,
            action_views(final(out)@) == action_views(old(out)@) + old(self)@.window_frame(
                id,
                target,
                *m,
                left,
                now,
            ).actions,
    {
        let ghost done = action_views(out@);
        let ghost before = self@;
        let ghost outcome = before.window_frame(id, target, *m, left, now);
        self.active_window_id = Some(id);
        assert(self@ =~= before.activated(id));
        push_send(out, ClientMessage::FocusWindow { window_id: id });
        assert(action_views(out@) =~= done + outcome.actions);
        if left {
            if let Some(i) = find_window(&self.windows, id) {
                self.press_frame(i, target, m, now);
            }
        }
    }

    fn press_button(&self, target: HitTarget, out: &mut Vec<ClientAction>)
        ensures
            action_views(final(out)@) == action_views(old(out)@) + (match button_message(target) {
                Some(msg) => seq![send(msg)],
                None => Seq::<ActionView>::empty(),
            }),
    {
        let ghost done = action_views(out@);
        assert(done =~= done + Seq::<ActionView>::empty());
        let msg = match target {
            HitTarget::CloseButton(window_id) => ClientMessage::CloseWindow { window_id },
            HitTarget::MinimizeButton(window_id) => ClientMessage::MinimizeWindow { window_id },
            HitTarget::MaximizeButton(window_id) => ClientMessage::MaximizeWindow { window_id },
            HitTarget::FullscreenButton(window_id) => ClientMessage::ToggleFullscreen { window_id },
            HitTarget::SoloButton(window_id) => ClientMessage::ToggleSolo { window_id },
            HitTarget::ResetButton(window_id) => ClientMessage::ResizeWindow {
                window_id,
                width: DEFAULT_TERM_WIDTH + 2,
                height: DEFAULT_TERM_HEIGHT + 2,
            },
            _ => {
                return;
            },
        };
        let ghost view = msg@;
        push_send(out, msg);
        assert(done.push(send(view)) =~= done + seq![send(view)]);
    }

    fn press(
        &mut self,
        target: HitTarget,
        m: &MouseEvent,
        button: MouseButton,
        now: u64,
        out: &mut Vec<ClientAction>,
    ) -> (r: bool)
        requires
            old(self).wf(),
            old(self)@.needs_window(target, MouseKind::Down(button)) matches Some(id) ==> known(
                old(self)@.windows,
                id,
            ),
        ensures
            final(self).wf(),
            final(self)@ == old(self)@.pressed(target, *m, button, now).client,
            action_views(final(out)@) == action_views(old(out)@) + old(self)@.pressed(
                target,
                *m,
                button,
                now,
            ).actions,
            r == old(self)@.pressed(target, *m, button, now).quit,
    {
        let ghost done = action_views(out@);
        let ghost before = self@;
        let ghost outcome = before.pressed(target, *m, button, now);
        assert(done =~= done + Seq::<ActionView>::empty());
        let left = button == MouseButton::Left;
        match target {
            HitTarget::MenuLabel(menu) => {
                if left {
                    self.menu = if self.menu == menu {
                        Menu::Closed
                    } else {
                        menu
                    };
                    assert(self@ =~= outcome.client);
                }
            },
            HitTarget::MenuItem(menu, idx) => {
                if left {
                    return self.execute_menu_item(menu, idx, out);
                }
            },
            HitTarget::Deskbar(idx) => {
                if left && idx < self.windows.len() {
                    let id: usize = self.windows[idx].id;
                    assert(before.windows[idx as int].id == id);
                    self.active_window_id = Some(id);
                    push_send(out, ClientMessage::FocusWindow { window_id: id });
                    assert(action_views(out@) =~= done + outcome.actions);
                    assert(self@ =~= outcome.client);
                }
            },
            HitTarget::DeskbarMinimizeButton => {
                if left {
                    self.deskbar_minimized = !self.deskbar_minimized;
                    assert(self@ =~= outcome.client);
                }
            },
            HitTarget::WindowContent(id) => {
                self.active_window_id = Some(id);
                assert(self@ =~= before.activated(id));
                push_send(out, ClientMessage::FocusWindow { window_id: id });
                let ghost focus = seq![send(ClientMessageView::FocusWindow { window_id: id })];
                assert(action_views(out@) =~= done + focus);
                if let Some(i) = find_window(&self.windows, id) {
                    let ghost inner = self@.content_pressed(
                        self.windows@[i as int]@,
                        *m,
                        button,
                        now,
                    );
                    self.press_content(i, m, button, now, out);
                    assert(done + focus + inner.actions =~= done + (focus + inner.actions));
                }
            },
            HitTarget::WindowScrollbar(id) => {
                self.active_window_id = Some(id);
                assert(self@ =~= before.activated(id));
                push_send(out, ClientMessage::FocusWindow { window_id: id });
                let ghost focus = seq![send(ClientMessageView::FocusWindow { window_id: id })];
                assert(action_views(out@) =~= done + focus);
                if left {
                    self.scrollbar_drag = Some(id);
                    assert(self@ =~= outcome.client);
                    if let Some(i) = find_window(&self.windows, id) {
                        push_track(&self.windows[i], m, true, out);
                        let ghost more = track(self.windows@[i as int]@, *m, true);
                        assert(done + focus + more =~= done + (focus + more));
                    }
                }
            },
            HitTarget::WindowTitle(id) | HitTarget::WindowBorder(id) | HitTarget::WindowResize(
                id,
            ) => {
                self.press_window_frame(id, target, m, left, now, out);
            },
            HitTarget::Nothing => {
                if button == MouseButton::Right && m.modifiers.control {
                    let args: Vec<String> = Vec::new();
                    assert(texts(args@) =~= Seq::empty());
                    push_send(
                        out,
                        ClientMessage::CreateWindow {
                            x: m.column,
                            y: m.row,
                            width: DEFAULT_TERM_WIDTH + 2,
                            height: DEFAULT_TERM_HEIGHT + 2,
                            command: None,
                            args,
                        },
                    );
                    assert(action_views(out@) =~= done + outcome.actions);
                }
                self.menu = Menu::Closed;
                assert(self@ =~= outcome.client);
            },
            _ => {
                if left {
                    self.press_button(target, out);
                }
            },
        }
        false
    }

    fn move_selection(&mut self, i: usize, m: &MouseEvent)
        requires
            old(self).wf(),
            i < old(self).windows@.len(),
        ensures
            final(self).wf(),
            final(self)@ == old(self)@.selection_moved(old(self).windows@[i as int]@, *m),
    {
        let ghost view = self.windows@[i as int]@;
        let ghost before = self@;
        let id: usize = self.windows[i].id;
        let row: u16 = line_in(&self.windows[i], m);
        let col: u16 = column_in(&self.windows[i], m);
        match self.pending_selection {
            Some((pending_id, start_row, start_col)) => {
                if pending_id == id && (start_row != row || start_col != col) {
                    self.selection = Some(
                        Selection { window_id: id, start: (start_row, start_col), end: (row, col) },
                    );
                }
            },
            None => {
                if let Some(sel) = self.selection {
                    if sel.window_id == id {
                        self.selection = Some(
                            Selection { window_id: id, start: sel.start, end: (row, col) },
                        );
                    }
                }
            },
        }
        assert(self@ =~= before.selection_moved(view, *m));
    }

    /// The place of the active window, if the mouse is over its inside.
    fn find_active_under(&self, target: HitTarget) -> (r: Option<usize>)
        ensures
            match r {
                Some(i) => i < self.windows@.len() && self@.active_under(target) == Some(
                    self.windows@[i as int]@,
                ),
                None => self@.active_under(target) is None,
            },
    {
        match self.active_window_id {
            Some(id) => {
                let over = match target {
                    HitTarget::WindowContent(hit_id) => hit_id == id,
                    _ => false,
                };
                if over {
                    find_window(&self.windows, id)
                } else {
                    None
                }
            },
            None => None,
        }
    }

    fn drag(
        &mut self,
        target: HitTarget,
        m: &MouseEvent,
        button: MouseButton,
        out: &mut Vec<ClientAction>,
    )
        requires
            old(self).wf(),
        ensures
            final(self).wf(),
            final(self)@ == old(self)@.dragged(target, *m, button).client,
            action_views(final(out)@) == action_views(old(out)@) + old(self)@.dragged(
                target,
                *m,
                button,
            ).actions,
            !old(self)@.dragged(target, *m, button).quit,
    {
        let ghost done = action_views(out@);
        let ghost outcome = self@.dragged(target, *m, button);
        assert(done =~= done + Seq::<ActionView>::empty());
        if let Some(id) = self.scrollbar_drag {
            if button == MouseButton::Left {
                if let Some(i) = find_window(&self.windows, id) {
                    push_track(&self.windows[i], m, false, out);
                }
            }
            return;
        }
        if let Some(i) = self.find_active_under(target) {
            if self.windows[i].mouse_reporting {
                let code: u32 = 32 + button_number(button, m.modifiers);
                push_send(out, report_message(&self.windows[i], m, code, false));
                assert(action_views(out@) =~= done + outcome.actions);
            } else if button == MouseButton::Left {
                self.move_selection(i, m);
            }
        }
    }

    fn end_selection(&mut self, out: &mut Vec<ClientAction>)
        requires
            old(self).wf(),
        ensures
            final(self).wf(),
            final(self)@ == old(self)@.selection_ended(),
            action_views(final(out)@) == action_views(old(out)@) + old(self)@.copy_actions(),
    {
        let ghost done = action_views(out@);
        let ghost before = self@;
        assert(done =~= done + Seq::<ActionView>::empty());
        self.scrollbar_drag = None;
        if let Some(sel) = self.selection {
            if let Some(i) = find_window(&self.windows, sel.window_id) {
                if sel.start.0 != sel.end.0 || sel.start.1 != sel.end.1 {
                    let text = selection_text(&self.windows[i], sel.start, sel.end);
                    push_action(out, ClientAction::Copy { text: text.clone() });
                    self.clipboard = text;
                    assert(action_views(out@) =~= done + before.copy_actions());
                }
            }
        }
        self.selection = None;
        self.pending_selection = None;
        assert(self@ =~= before.selection_ended());
    }

    fn report_release(&self, m: &MouseEvent, button: MouseButton, out: &mut Vec<ClientAction>)
        ensures
            action_views(final(out)@) == action_views(old(out)@) + self@.release_report(
                *m,
                button,
            ),
    {
        let ghost done = action_views(out@);
        assert(done =~= done + Seq::<ActionView>::empty());
        if let Some(id) = self.active_window_id {
            if let Some(i) = find_window(&self.windows, id) {
                if self.windows[i].mouse_reporting {
                    let code: u32 = button_number(button, m.modifiers);
                    push_send(out, report_message(&self.windows[i], m, code, true));
                    assert(action_views(out@) =~= done + self@.release_report(*m, button));
                }
            }
        }
    }

    fn report_wheel(&self, target: HitTarget, m: &MouseEvent, code: u32, out: &mut Vec<ClientAction>)
        ensures
            action_views(final(out)@) == action_views(old(out)@) + self@.wheel_report(
                target,
                *m,
                code as int,
            ),
    {
        let ghost done = action_views(out@);
        assert(done =~= done + Seq::<ActionView>::empty());
        if let Some(i) = self.find_active_under(target) {
            if self.windows[i].mouse_reporting {
                push_send(out, report_message(&self.windows[i], m, code, false));
                assert(action_views(out@) =~= done + self@.wheel_report(target, *m, code as int));
            }
        }
    }

    fn handle_rest(
        &mut self,
        target: HitTarget,
        m: &MouseEvent,
        now: u64,
        out: &mut Vec<ClientAction>,
    ) -> (r: bool)
        requires
            old(self).wf(),
            old(self)@.needs_window(target, m.kind) matches Some(id) ==> known(
                old(self)@.windows,
                id,
            ),
        ensures
            final(self).wf(),
            final(self)@ == old(self)@.handled(target, *m, now).client,
            action_views(final(out)@) == action_views(old(out)@) + old(self)@.handled(
                target,
                *m,
                now,
            ).actions,
            r == old(self)@.handled(target, *m, now).quit,
    {
        let ghost done = action_views(out@);
        let ghost before = self@;
        assert(done =~= done + Seq::<ActionView>::empty());
        match m.kind {
            MouseKind::Down(button) => {
                return self.press(target, m, button, now, out);
            },
            MouseKind::Drag(button) => {
                self.drag(target, m, button, out);
            },
            MouseKind::Up(button) => {
                if button == MouseButton::Left {
                    self.end_selection(out);
                    self.report_release(m, button, out);
                    let ghost copy = before.copy_actions();
                    let ghost up = before.release_report(*m, button);
                    assert(done + copy + up =~= done + (copy + up));
                } else {
                    self.report_release(m, button, out);
                }
            },
            MouseKind::ScrollUp => {
                self.report_wheel(target, m, 64, out);
            },
            MouseKind::ScrollDown => {
                self.report_wheel(target, m, 65, out);
            },
            _ => {},
        }
        false
    }

    /// Whether the window that an event is about is known.
    pub fn can_handle_mouse(&self, m: &MouseEvent) -> (r: bool)
        requires
            self.wf(),
        ensures
            r == self@.accepts(*m),
    {
        let target = self.get_hit(m.column, m.row);
        let needed: Option<usize> = match m.kind {
            MouseKind::Down(button) => match target {
                HitTarget::WindowContent(id) => Some(id),
                HitTarget::WindowScrollbar(id)
                | HitTarget::WindowTitle(id)
                | HitTarget::WindowBorder(id)
                | HitTarget::WindowResize(id) => if button == MouseButton::Left {
                    Some(id)
                } else {
                    None
                },
                _ => None,
            },
            _ => None,
        };
        match needed {
            Some(id) => find_window(&self.windows, id).is_some(),
            None => true,
        }
    }

    /// A mouse event. Returns whether the client ends.
    pub fn handle_mouse(&mut self, m: MouseEvent, now_ms: u64, out: &mut Vec<ClientAction>) -> (r:
        bool)
        requires
            old(self).wf(),
            old(self)@.accepts(m),
        ensures
            final(self).wf(),
            final(self)@ == old(self)@.after_mouse(m, now_ms).client,
            action_views(final(out)@) == action_views(old(out)@) + old(self)@.after_mouse(
                m,
                now_ms,
            ).actions,
            r == old(self)@.after_mouse(m, now_ms).quit,
    {
        let ghost done = action_views(out@);
        let ghost before = self@;
        self.last_mouse_pos = (m.column, m.row);
        let ghost moved = self@;
        assert(moved =~= (ClientView { mouse: (m.column, m.row), ..before }));
        let target = self.get_hit(m.column, m.row);
        self.hover(target, m.kind, out);
        let ghost hover = moved.hovered(target, m.kind);
        self.forward_move(target, &m, out);
        let ghost report = hover.client.move_report(target, m);
        assert(done + hover.actions + report =~= done + (hover.actions + report));
        let ghost first = hover.actions + report;
        let taken = match m.kind {
            MouseKind::Up(_) | MouseKind::Drag(_) => true,
            _ => false,
        };
        if taken {
            if let Some(state) = self.drag_state {
                let ghost step = self@.drag_step(m, now_ms);
                self.continue_drag(state, &m, now_ms, out);
                assert(done + first + step.actions =~= done + (first + step.actions));
                return false;
            }
        }
        let ghost rest = self@.handled(target, m, now_ms);
        let r = self.handle_rest(target, &m, now_ms, out);
        assert(done + first + rest.actions =~= done + (first + rest.actions));
        r
    }

    /// Pastes into a window: the text of the system's clipboard, if there is one,
    /// or else the text that was copied here.
    pub fn paste(&mut self, window_id: usize, system: Option<String>, out: &mut Vec<ClientAction>)
        requires
            old(self).wf(),
        ensures
            final(self).wf(),
            final(self)@ == old(self)@.pasted(
                window_id,
                match system {
                    Some(s) => Some(s@),
                    None => None,
                },
            ).client,
            action_views(final(out)@) == action_views(old(out)@) + old(self)@.pasted(
                window_id,
                match system {
                    Some(s) => Some(s@),
                    None => None,
                },
            ).actions,
    {
        let ghost done = action_views(out@);
        let ghost before = self@;
        assert(done =~= done + Seq::<ActionView>::empty());
        match system {
            Some(text) => {
                let ghost msg = ClientMessageView::Input {
                    window_id,
                    data: encode_utf8(text@),
                };
                push_send(
                    out,
                    ClientMessage::Input { window_id, data: text_bytes(text.as_str()) },
                );
                assert(done.push(send(msg)) =~= done + seq![send(msg)]);
            },
            None => {
                if self.clipboard.as_str().unicode_len() > 0 {
                    let ghost msg = ClientMessageView::Input {
                        window_id,
                        data: encode_utf8(before.clipboard),
                    };
                    push_send(
                        out,
                        ClientMessage::Input {
                            window_id,
                            data: text_bytes(self.clipboard.as_str()),
                        },
                    );
                    assert(done.push(send(msg)) =~= done + seq![send(msg)]);
                    self.clipboard = String::new();
                    assert(self@ =~= (ClientView { clipboard: Seq::empty(), ..before }));
                }
            },
        }
    }

    /// Scrolls the view of a window to where a scroll bar was moved.
    pub fn scroll_to(
        &mut self,
        window_id: usize,
        offset: usize,
        always: bool,
        out: &mut Vec<ClientAction>,
    )
        requires
            old(self).wf(),
        ensures
            final(self).wf(),
            final(self)@ == old(self)@.scrolled_to(window_id, offset, always).client,
            action_views(final(out)@) == action_views(old(out)@) + old(self)@.scrolled_to(
                window_id,
                offset,
                always,
            ).actions,
    {
        let ghost done = action_views(out@);
        let ghost before = self@;
        let ghost outcome = before.scrolled_to(window_id, offset, always);
        assert(done =~= done + Seq::<ActionView>::empty());
        if let Some(i) = find_window(&self.windows, window_id) {
            if always || self.windows[i].scroll_offset != offset {
                let ghost s = before.windows;
                let ghost was = self.windows@[i as int]@;
                let mut win = self.windows.remove(i);
                win.scroll_offset = offset;
                let ghost now = win@;
                self.windows.insert(i, win);
                proof {
                    let target = WindowStateView { scroll_offset: offset, ..was };
                    assert(now =~= target);
                    assert(state_views(self.windows@) =~= s.update(i as int, target));
                    law_stored_window_is_found(s, target, window_id);
                }
                push_send(out, ClientMessage::ScrollTo { window_id, offset });
                assert(action_views(out@) =~= done + outcome.actions);
                assert(self@ =~= outcome.client);
            }
        }
    }
}

} // verus!
