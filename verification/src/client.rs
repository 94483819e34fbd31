//! A client: what it knows of the session, and how it reacts to keys and to the
//! server.

use vstd::prelude::*;
use crate::clipboard::{forward_copy, Selection};
use crate::geometry::{max_int, max_u16, sub_floor, sub_u16, Rect};
use crate::hits::{build_hit_grid, hit_grid, item_count, HitTarget, Menu};
use crate::input::{encode_key, key_bytes, KeyCode, KeyEvent};
use crate::protocol::{
    state_views, Cell, ClientMessage, ClientMessageView, ServerMessage, ServerMessageView,
    WindowState, WindowStateView, DEFAULT_TERM_HEIGHT, DEFAULT_TERM_WIDTH,
};
use crate::snapshot::{applied, apply_cells};
use crate::store::{
    by_number, find_window, forget_window, forgotten, known, law_stored_window_is_found, lookup,
    place, store_window, stored, stored_all,
};
use crate::text::{decimal, own, push_decimal};

verus! {

/// A window that is being dragged.
#[derive(Debug, Clone, Copy)]
pub struct DragState {
    pub window_id: usize,
    /// Where the mouse was when the drag started, by column and row.
    pub start_mouse: (u16, u16),
    /// Where the window was when the drag started.
    pub start_rect: Rect,
    pub is_resize: bool,
    /// When the server was last told, in milliseconds.
    pub last_update: u64,
}

/// A window that is being renamed.
pub struct RenameState {
    pub window_id: usize,
    pub input: String,
}

/// What a `RenameState` says, over mathematical sequences.
#[verifier::ext_equal]
pub struct RenameStateView {
    pub window_id: usize,
    pub input: Seq<char>,
}

impl View for RenameState {
    type V = RenameStateView;

    open spec fn view(&self) -> RenameStateView {
        RenameStateView { window_id: self.window_id, input: self.input@ }
    }
}

/// What an optional `RenameState` says.
pub open spec fn opt_rename(r: Option<RenameState>) -> Option<RenameStateView> {
    match r {
        Some(r) => Some(r@),
        None => None,
    }
}

/// What is to be done for a client beside changing what it knows.
pub enum ClientAction {
    /// Send a message to the server.
    Send { msg: ClientMessage },
    /// Paste into a window, from the clipboard of the system if that works.
    Paste { window_id: usize },
    /// Put text on the clipboard of the system, and tell the terminal of it.
    Copy { text: String },
    /// Work out how far a place on a scroll bar scrolls back, and scroll there.
    TrackScrollbar {
        window_id: usize,
        inner_height: u16,
        history: usize,
        row: u16,
        /// Whether to scroll even to where the view is already.
        always: bool,
    },
    /// Write a file.
    SaveFile { name: String, text: String },
    /// Write to the terminal.
    WriteOut { text: String },
}

/// What a `ClientAction` says, over mathematical sequences.
#[verifier::ext_equal]
pub enum ActionView {
    Send { msg: ClientMessageView },
    Paste { window_id: usize },
    Copy { text: Seq<char> },
    TrackScrollbar {
        window_id: usize,
        inner_height: u16,
        history: usize,
        row: u16,
        always: bool,
    },
    SaveFile { name: Seq<char>, text: Seq<char> },
    WriteOut { text: Seq<char> },
}

impl View for ClientAction {
    type V = ActionView;

    open spec fn view(&self) -> ActionView {
        match *self {
            ClientAction::Send { msg } => ActionView::Send { msg: msg@ },
            ClientAction::Paste { window_id } => ActionView::Paste { window_id },
            ClientAction::Copy { text } => ActionView::Copy { text: text@ },
            ClientAction::TrackScrollbar { window_id, inner_height, history, row, always } =>
                ActionView::TrackScrollbar { window_id, inner_height, history, row, always },
            ClientAction::SaveFile { name, text } => ActionView::SaveFile {
                name: name@,
                text: text@,
            },
            ClientAction::WriteOut { text } => ActionView::WriteOut { text: text@ },
        }
    }
}

/// What a list of actions says.
pub open spec fn action_views(v: Seq<ClientAction>) -> Seq<ActionView> {
    Seq::new(v.len(), |i: int| v[i]@)
}

/// The action that sends a message.
pub open spec fn send(msg: ClientMessageView) -> ActionView {
    ActionView::Send { msg }
}

/// Adds an action.
pub fn push_action(out: &mut Vec<ClientAction>, action: ClientAction)
    ensures
        action_views(final(out)@) == action_views(old(out)@).push(action@),
{
    let ghost before = action_views(out@);
    let ghost a = action@;
    out.push(action);
    assert(action_views(out@) =~= before.push(a));
}

/// Adds the sending of a message.
pub fn push_send(out: &mut Vec<ClientAction>, msg: ClientMessage)
    ensures
        action_views(final(out)@) == action_views(old(out)@).push(send(msg@)),
{
    push_action(out, ClientAction::Send { msg });
}

/// A client.
pub struct Client {
    /// The windows of the session, in the order of their numbers.
    pub windows: Vec<WindowState>,
    pub active_window_id: Option<usize>,
    pub menu: Menu,
    pub selected_item: usize,
    pub clipboard: String,
    pub selection: Option<Selection>,
    /// A window, row and column at which a selection may start.
    pub pending_selection: Option<(usize, u16, u16)>,
    pub drag_state: Option<DragState>,
    pub scrollbar_drag: Option<usize>,
    pub rename_state: Option<RenameState>,
    pub last_screen_size: Rect,
    /// Column and row of the mouse.
    pub last_mouse_pos: (u16, u16),
    /// The window that was clicked last, and when, in milliseconds.
    pub last_click: Option<(usize, u64)>,
    /// What is at each place of the screen, row by row.
    pub hit_map: Vec<HitTarget>,
    pub solo_mode_active: bool,
    pub solo_origin_id: Option<usize>,
    pub temporarily_expanded_id: Option<usize>,
    pub deskbar_minimized: bool,
}

/// What a `Client` says, over mathematical sequences.
#[verifier::ext_equal]
pub struct ClientView {
    pub windows: Seq<WindowStateView>,
    pub active: Option<usize>,
    pub menu: Menu,
    pub selected: usize,
    pub clipboard: Seq<char>,
    pub selection: Option<Selection>,
    pub pending: Option<(usize, u16, u16)>,
    pub drag: Option<DragState>,
    pub scrollbar_drag: Option<usize>,
    pub rename: Option<RenameStateView>,
    pub screen: Rect,
    pub mouse: (u16, u16),
    pub last_click: Option<(usize, u64)>,
    pub hits: Seq<HitTarget>,
    pub solo_active: bool,
    pub solo_origin: Option<usize>,
    pub expanded: Option<usize>,
    pub deskbar_minimized: bool,
}

impl View for Client {
    type V = ClientView;

    open spec fn view(&self) -> ClientView {
        ClientView {
            windows: state_views(self.windows@),
            active: self.active_window_id,
            menu: self.menu,
            selected: self.selected_item,
            clipboard: self.clipboard@,
            selection: self.selection,
            pending: self.pending_selection,
            drag: self.drag_state,
            scrollbar_drag: self.scrollbar_drag,
            rename: opt_rename(self.rename_state),
            screen: self.last_screen_size,
            mouse: self.last_mouse_pos,
            last_click: self.last_click,
            hits: self.hit_map@,
            solo_active: self.solo_mode_active,
            solo_origin: self.solo_origin_id,
            expanded: self.temporarily_expanded_id,
            deskbar_minimized: self.deskbar_minimized,
        }
    }
}

/// A screen on which nothing is hit.
pub open spec fn no_hits(screen: Rect) -> Seq<HitTarget> {
    Seq::new((screen.width * screen.height) as nat, |i: int| HitTarget::Nothing)
}

/// The message that an entry of a menu sends, if any.
pub open spec fn item_message(active: Option<usize>, screen: Rect, menu: Menu, idx: int) -> Option<
    ClientMessageView,
> {
    match menu {
        Menu::File => if idx == 0 {
            Some(
                ClientMessageView::CreateWindow {
                    x: (sub_floor(screen.width as int, DEFAULT_TERM_WIDTH + 2) / 2) as u16,
                    y: max_int(
                        sub_floor(screen.height as int, DEFAULT_TERM_HEIGHT + 2) / 2,
                        2,
                    ) as u16,
                    width: (DEFAULT_TERM_WIDTH + 2) as u16,
                    height: (DEFAULT_TERM_HEIGHT + 2) as u16,
                    command: None,
                    args: Seq::empty(),
                },
            )
        } else if idx == 1 {
            Some(ClientMessageView::SaveLayout { path: "layout.json"@ })
        } else if idx == 2 {
            Some(ClientMessageView::LoadLayout { path: "layout.json"@ })
        } else if idx == 3 && active is Some {
            Some(ClientMessageView::CapturePane { window_id: active->0 })
        } else if idx == 4 {
            Some(ClientMessageView::CaptureFull)
        } else {
            None
        },
        Menu::Window => if idx == 5 {
            Some(ClientMessageView::TileWindows)
        } else {
            match active {
                Some(window_id) => if idx == 0 {
                    Some(ClientMessageView::CloseWindow { window_id })
                } else if idx == 1 {
                    Some(ClientMessageView::MinimizeWindow { window_id })
                } else if idx == 2 {
                    Some(ClientMessageView::MaximizeWindow { window_id })
                } else if idx == 3 {
                    Some(ClientMessageView::ToggleSolo { window_id })
                } else if idx == 4 {
                    Some(ClientMessageView::ToggleFullscreen { window_id })
                } else if idx == 6 {
                    Some(ClientMessageView::ClearScrollback { window_id })
                } else {
                    None
                },
                None => None,
            }
        },
        Menu::Closed => None,
    }
}

/// Whether an entry of a menu ends the client.
pub open spec fn item_quits(menu: Menu, idx: int) -> bool {
    menu == Menu::File && idx == 5
}

/// Whether a character is a letter, in either case.
pub open spec fn is_letter(c: char, lower: char, upper: char) -> bool {
    c == lower || c == upper
}

/// The entry of a menu that a letter stands for.
pub open spec fn mnemonic(menu: Menu, c: char) -> Option<int> {
    match menu {
        Menu::File => if is_letter(c, 'n', 'N') {
            Some(0)
        } else if is_letter(c, 'o', 'O') {
            Some(1)
        } else if is_letter(c, 'i', 'I') {
            Some(2)
        } else if is_letter(c, 'v', 'V') {
            Some(3)
        } else if is_letter(c, 'p', 'P') {
            Some(4)
        } else if is_letter(c, 'q', 'Q') {
            Some(5)
        } else {
            None
        },
        Menu::Window => if is_letter(c, 'z', 'Z') {
            Some(0)
        } else if is_letter(c, 'x', 'X') {
            Some(1)
        } else if is_letter(c, 'c', 'C') {
            Some(2)
        } else if is_letter(c, 's', 'S') {
            Some(3)
        } else if is_letter(c, 'f', 'F') {
            Some(4)
        } else if is_letter(c, 'g', 'G') {
            Some(5)
        } else if is_letter(c, 'l', 'L') {
            Some(6)
        } else {
            None
        },
        Menu::Closed => None,
    }
}

/// Every entry of a menu can be chosen by a letter.
pub proof fn law_every_entry_has_a_letter(menu: Menu, idx: int)
    requires
        0 <= idx < item_count(menu),
    ensures
        exists|c: char| mnemonic(menu, c) == Some(idx),
{
    let c = match menu {
        Menu::File => if idx == 0 {
            'n'
        } else if idx == 1 {
            'o'
        } else if idx == 2 {
            'i'
        } else if idx == 3 {
            'v'
        } else if idx == 4 {
            'p'
        } else {
            'q'
        },
        _ => if idx == 0 {
            'z'
        } else if idx == 1 {
            'x'
        } else if idx == 2 {
            'c'
        } else if idx == 3 {
            's'
        } else if idx == 4 {
            'f'
        } else if idx == 5 {
            'g'
        } else {
            'l'
        },
    };
    assert(mnemonic(menu, c) == Some(idx));
}

/// The entry of the open menu that a key chooses.
pub open spec fn chosen_item(menu: Menu, selected: usize, code: KeyCode) -> Option<int> {
    match code {
        KeyCode::Enter => Some(selected as int),
        KeyCode::Char(c) => mnemonic(menu, c),
        _ => None,
    }
}

/// The menu beside another.
pub open spec fn other_menu(menu: Menu) -> Menu {
    match menu {
        Menu::File => Menu::Window,
        Menu::Window => Menu::File,
        Menu::Closed => Menu::Closed,
    }
}

/// The number of the last window of a list that is focused.
pub open spec fn last_focused(s: Seq<WindowStateView>) -> Option<usize>
    decreases s.len(),
{
    if s.len() == 0 {
        None
    } else if s.last().focused {
        Some(s.last().id)
    } else {
        last_focused(s.drop_last())
    }
}

/// How far a key scrolls when the mouse is not over a window.
pub open spec fn scroll_key(key: KeyEvent) -> Option<i32> {
    if key.modifiers.shift && key.code == KeyCode::PageUp {
        Some(10i32)
    } else if key.modifiers.shift && key.code == KeyCode::PageDown {
        Some((-10) as i32)
    } else {
        None
    }
}

/// The message that a key is for the active window.
pub open spec fn window_key(id: usize, key: KeyEvent, over_window: bool) -> Option<
    ClientMessageView,
> {
    if !over_window && scroll_key(key) is Some {
        Some(ClientMessageView::Scroll { window_id: id, amount: scroll_key(key)->0 })
    } else {
        let data = key_bytes(key.code, key.modifiers);
        if data.len() > 0 {
            Some(ClientMessageView::Input { window_id: id, data })
        } else {
            None
        }
    }
}

/// The file that the capture of a window is written to.
pub open spec fn pane_file(window_id: usize, seconds: u64) -> Seq<char> {
    "capture_window_"@ + decimal(window_id as nat) + seq!['_'] + decimal(seconds as nat)
        + ".txt"@
}

/// The file that the capture of the desktop is written to.
pub open spec fn full_file(seconds: u64) -> Seq<char> {
    "capture_full_"@ + decimal(seconds as nat) + ".txt"@
}

impl ClientView {
    /// Windows stand by their numbers, and each place of the screen has a target.
    pub open spec fn wf(self) -> bool {
        by_number(self.windows) && self.hits.len() == self.screen.width * self.screen.height
    }

    /// What is at a place of the screen.
    pub open spec fn target(self, x: int, y: int) -> HitTarget {
        if x < self.screen.width && y < self.screen.height {
            self.hits[y * self.screen.width + x]
        } else {
            HitTarget::Nothing
        }
    }

    /// With the targets of what is shown now.
    pub open spec fn hits_updated(self) -> ClientView {
        ClientView {
            hits: hit_grid(self.windows, self.menu, self.deskbar_minimized, self.screen),
            ..self
        }
    }

    /// With another screen size. Where the number of places changes, nothing is
    /// hit until the targets are worked out again.
    pub open spec fn resized(self, width: u16, height: u16) -> ClientView {
        let screen = Rect::at(0, 0, width, height);
        ClientView {
            screen,
            hits: if self.hits.len() == width * height {
                self.hits
            } else {
                no_hits(screen)
            },
            ..self
        }
    }

    /// After an entry of a menu was chosen.
    pub open spec fn item_chosen(self, menu: Menu, idx: int) -> ClientView {
        if item_quits(menu, idx) {
            self
        } else {
            ClientView { menu: Menu::Closed, ..self }
        }
    }

    /// What is to be done for an entry of a menu.
    pub open spec fn item_actions(self, menu: Menu, idx: int) -> Seq<ActionView> {
        match item_message(self.active, self.screen, menu, idx) {
            Some(msg) => seq![send(msg)],
            None => Seq::empty(),
        }
    }

    /// Whether keys edit a name.
    pub open spec fn renames(self) -> bool {
        self.rename is Some
    }

    /// After a key while a window is being renamed.
    pub open spec fn rename_key(self, code: KeyCode) -> ClientView {
        let state = self.rename->0;
        let rename = match code {
            KeyCode::Enter => None,
            KeyCode::Esc => None,
            KeyCode::Backspace => Some(
                RenameStateView {
                    input: if state.input.len() > 0 {
                        state.input.drop_last()
                    } else {
                        state.input
                    },
                    ..state
                },
            ),
            KeyCode::Char(c) => Some(RenameStateView { input: state.input.push(c), ..state }),
            _ => Some(state),
        };
        ClientView { rename, ..self }
    }

    /// After a key while a menu is open.
    pub open spec fn menu_key(self, code: KeyCode) -> ClientView {
        match chosen_item(self.menu, self.selected, code) {
            Some(idx) => self.item_chosen(self.menu, idx),
            None => match code {
                KeyCode::Esc => ClientView { menu: Menu::Closed, ..self },
                KeyCode::Up => ClientView {
                    selected: sub_floor(self.selected as int, 1) as usize,
                    ..self
                },
                KeyCode::Down => if self.selected < item_count(self.menu) - 1 {
                    ClientView { selected: (self.selected + 1) as usize, ..self }
                } else {
                    self
                },
                KeyCode::Left => ClientView { menu: other_menu(self.menu), selected: 0, ..self },
                KeyCode::Right => ClientView { menu: other_menu(self.menu), selected: 0, ..self },
                _ => self,
            },
        }
    }

    /// After a key event.
    pub open spec fn after_key(self, key: KeyEvent) -> ClientView {
        if !key.press {
            self
        } else if self.renames() {
            self.rename_key(key.code)
        } else if self.menu != Menu::Closed {
            self.menu_key(key.code)
        } else {
            self
        }
    }

    /// What is to be done for a key event.
    pub open spec fn key_actions(self, key: KeyEvent) -> Seq<ActionView> {
        if !key.press {
            Seq::empty()
        } else if self.renames() {
            if key.code == KeyCode::Enter {
                seq![
                    send(
                        ClientMessageView::RenameWindow {
                            window_id: self.rename->0.window_id,
                            title: self.rename->0.input,
                        },
                    ),
                ]
            } else {
                Seq::empty()
            }
        } else if self.menu != Menu::Closed {
            match chosen_item(self.menu, self.selected, key.code) {
                Some(idx) => self.item_actions(self.menu, idx),
                None => Seq::empty(),
            }
        } else {
            match self.active {
                Some(id) => match window_key(
                    id,
                    key,
                    self.target(self.mouse.0 as int, self.mouse.1 as int).of_window() is Some,
                ) {
                    Some(msg) => seq![send(msg)],
                    None => Seq::empty(),
                },
                None => Seq::empty(),
            }
        }
    }

    /// Whether a key event ends the client.
    pub open spec fn key_quits(self, key: KeyEvent) -> bool {
        key.press && !self.renames() && self.menu != Menu::Closed && (match chosen_item(
            self.menu,
            self.selected,
            key.code,
        ) {
            Some(idx) => item_quits(self.menu, idx),
            None => false,
        })
    }

    /// With all windows of the session known anew.
    pub open spec fn synced(
        self,
        windows: Seq<WindowStateView>,
        solo_active: bool,
        solo_origin: Option<usize>,
    ) -> ClientView {
        ClientView {
            windows: stored_all(Seq::empty(), windows),
            active: last_focused(windows),
            solo_active,
            solo_origin,
            expanded: None,
            ..self
        }
    }

    /// With one window known anew.
    pub open spec fn updated(self, window: WindowStateView) -> ClientView {
        ClientView {
            windows: stored(self.windows, window),
            active: if window.focused {
                Some(window.id)
            } else {
                self.active
            },
            ..self
        }
    }

    /// After a message from the server.
    pub open spec fn after_server(self, msg: ServerMessageView) -> ClientView {
        match msg {
            ServerMessageView::Welcome { windows, solo_mode_active, solo_origin_id, .. } =>
                self.synced(windows, solo_mode_active, solo_origin_id),
            ServerMessageView::FullSync { windows, solo_mode_active, solo_origin_id } =>
                self.synced(windows, solo_mode_active, solo_origin_id),
            ServerMessageView::WindowCreated { window } => self.updated(window),
            ServerMessageView::WindowUpdate { window } => self.updated(window),
            ServerMessageView::WindowClosed { window_id } => ClientView {
                windows: forgotten(self.windows, window_id),
                ..self
            },
            ServerMessageView::ScreenDiff {
                window_id,
                cells,
                cursor_pos,
                scrollback_size,
                scroll_offset,
            } => match lookup(self.windows, window_id) {
                Some(win) => ClientView {
                    windows: stored(
                        self.windows,
                        WindowStateView {
                            screen: applied(win.screen, cells),
                            cursor_pos,
                            scrollback_size,
                            scroll_offset,
                            ..win
                        },
                    ),
                    ..self
                },
                None => self,
            },
            _ => self,
        }
    }
}

/// What is to be done for a message from the server.
pub open spec fn server_actions(msg: ServerMessageView, seconds: u64) -> Seq<ActionView> {
    match msg {
        ServerMessageView::PaneCaptured { window_id, text } => seq![
            ActionView::SaveFile { name: pane_file(window_id, seconds), text },
        ],
        ServerMessageView::FullCaptured { text } => seq![
            ActionView::SaveFile { name: full_file(seconds), text },
        ],
        ServerMessageView::ClipboardUpdate { text_b64 } => seq![
            ActionView::WriteOut { text: "\x1b]52;c;"@ + text_b64 + "\x07"@ },
        ],
        _ => Seq::empty(),
    }
}

fn find_mnemonic(menu: Menu, c: char) -> (r: Option<usize>)
    ensures
        match r {
            Some(i) => mnemonic(menu, c) == Some(i as int),
            None => mnemonic(menu, c) is None,
        },
{
    match menu {
        Menu::File => match c {
            'n' | 'N' => Some(0),
            'o' | 'O' => Some(1),
            'i' | 'I' => Some(2),
            'v' | 'V' => Some(3),
            'p' | 'P' => Some(4),
            'q' | 'Q' => Some(5),
            _ => None,
        },
        Menu::Window => match c {
            'z' | 'Z' => Some(0),
            'x' | 'X' => Some(1),
            'c' | 'C' => Some(2),
            's' | 'S' => Some(3),
            'f' | 'F' => Some(4),
            'g' | 'G' => Some(5),
            'l' | 'L' => Some(6),
            _ => None,
        },
        Menu::Closed => None,
    }
}

fn pane_file_name(window_id: usize, seconds: u64) -> (r: String)
    ensures
        r@ == pane_file(window_id, seconds),
{
    let mut name = own("capture_window_");
    push_decimal(&mut name, window_id as u64);
    name.push('_');
    push_decimal(&mut name, seconds);
    name.append(".txt");
    assert(name@ =~= pane_file(window_id, seconds));
    name
}

fn full_file_name(seconds: u64) -> (r: String)
    ensures
        r@ == full_file(seconds),
{
    let mut name = own("capture_full_");
    push_decimal(&mut name, seconds);
    name.append(".txt");
    assert(name@ =~= full_file(seconds));
    name
}

fn nothing_hit(size: usize) -> (r: Vec<HitTarget>)
    ensures
        r@ == Seq::new(size as nat, |i: int| HitTarget::Nothing),
{
    let mut r: Vec<HitTarget> = Vec::new();
    let mut i: usize = 0;
    while i < size
        invariant
            i <= size,
            r@ == Seq::new(i as nat, |j: int| HitTarget::Nothing),
        decreases size - i,
    {
        r.push(HitTarget::Nothing);
        assert(r@ =~= Seq::new((i + 1) as nat, |j: int| HitTarget::Nothing));
        i += 1;
    }
    r
}

/// How many places a screen has.
fn place_count(width: u16, height: u16) -> (r: usize)
    ensures
        r == width * height,
{
    assert(width * height <= 0xffff_ffff) by (nonlinear_arith)
        requires
            width <= 0xffff,
            height <= 0xffff,
    ;
    (width as usize) * (height as usize)
}

impl Client {
    pub open spec fn wf(&self) -> bool {
        self@.wf()
    }

    /// A client that knows of nothing yet.
    pub fn new(screen_size: Rect) -> (r: Self)
        ensures
            r.wf(),
            r@ == (ClientView {
                windows: Seq::empty(),
                active: None,
                menu: Menu::Closed,
                selected: 0,
                clipboard: Seq::empty(),
                selection: None,
                pending: None,
                drag: None,
                scrollbar_drag: None,
                rename: None,
                screen: screen_size,
                mouse: (0, 0),
                last_click: None,
                hits: no_hits(screen_size),
                solo_active: false,
                solo_origin: None,
                expanded: None,
                deskbar_minimized: false,
            }),
            forall|key: KeyEvent| (#[trigger] r@.key_actions(key)).len() == 0,
            forall|key: KeyEvent| #[trigger] r@.after_key(key) == r@,
    {
        let size: usize = place_count(screen_size.width, screen_size.height);
        let r = Client {
            windows: Vec::new(),
            active_window_id: None,
            menu: Menu::Closed,
            selected_item: 0,
            clipboard: String::new(),
            selection: None,
            pending_selection: None,
            drag_state: None,
            scrollbar_drag: None,
            rename_state: None,
            last_screen_size: screen_size,
            last_mouse_pos: (0, 0),
            last_click: None,
            hit_map: nothing_hit(size),
            solo_mode_active: false,
            solo_origin_id: None,
            temporarily_expanded_id: None,
            deskbar_minimized: false,
        };
        assert(r@.windows =~= Seq::empty());
        assert(r@.clipboard =~= Seq::empty());
        assert(r@.hits =~= no_hits(screen_size));
        r
    }

    /// Works out what is at each place of the screen.
    pub fn update_hit_map(&mut self)
        requires
            old(self).wf(),
        ensures
            final(self).wf(),
            final(self)@ == old(self)@.hits_updated(),
    {
        let screen = self.last_screen_size;
        self.hit_map = build_hit_grid(&self.windows, self.menu, self.deskbar_minimized, &screen);
        assert(self@ =~= old(self)@.hits_updated());
    }

    /// What is at a place of the screen.
    pub fn get_hit(&self, x: u16, y: u16) -> (r: HitTarget)
        requires
            self.wf(),
        ensures
            r == self@.target(x as int, y as int),
    {
        let w: u16 = self.last_screen_size.width;
        let h: u16 = self.last_screen_size.height;
        if x < w && y < h {
            assert(y * w + x < w * h && y * w + x <= 0xffff_ffff) by (nonlinear_arith)
                requires
                    x < w,
                    y < h,
                    w <= 0xffff,
                    h <= 0xffff,
            ;
            assert(0 <= y * w <= y * w + x);
            let idx: usize = (y as usize) * (w as usize) + (x as usize);
            self.hit_map[idx]
        } else {
            HitTarget::Nothing
        }
    }

    /// The screen of the client has another size.
    pub fn handle_resize(&mut self, width: u16, height: u16, out: &mut Vec<ClientAction>)
        requires
            old(self).wf(),
        ensures
            final(self).wf(),
            final(self)@ == old(self)@.resized(width, height),
            action_views(final(out)@) == action_views(old(out)@).push(
                send(ClientMessageView::TerminalResize { width, height }),
            ),
    {
        self.last_screen_size = Rect::new(0, 0, width, height);
        let size: usize = place_count(width, height);
        assert(self.last_screen_size.width == width && self.last_screen_size.height == height);
        if self.hit_map.len() != size {
            self.hit_map = nothing_hit(size);
            assert(self.hit_map@ =~= no_hits(self.last_screen_size));
        }
        push_send(out, ClientMessage::TerminalResize { width, height });
        assert(self@ =~= old(self)@.resized(width, height));
    }

    /// An entry of a menu was chosen. Returns whether the client ends.
    pub fn execute_menu_item(&mut self, menu: Menu, idx: usize, out: &mut Vec<ClientAction>) -> (r:
        bool)
        requires
            old(self).wf(),
        ensures
            final(self).wf(),
            final(self)@ == old(self)@.item_chosen(menu, idx as int),
            action_views(final(out)@) == action_views(old(out)@) + old(self)@.item_actions(
                menu,
                idx as int,
            ),
            r == item_quits(menu, idx as int),
    {
        let ghost done = action_views(out@);
        if menu == Menu::File && idx == 5 {
            assert(action_views(out@) =~= done + Seq::<ActionView>::empty());
            return true;
        }
        let msg = match menu {
            Menu::File => match idx {
                0 => {
                    let screen = self.last_screen_size;
                    let width: u16 = DEFAULT_TERM_WIDTH + 2;
                    let height: u16 = DEFAULT_TERM_HEIGHT + 2;
                    let args: Vec<String> = Vec::new();
                    assert(crate::protocol::texts(args@) =~= Seq::empty());
                    Some(
                        ClientMessage::CreateWindow {
                            x: sub_u16(screen.width, width) / 2,
                            y: max_u16(sub_u16(screen.height, height) / 2, 2),
                            width,
                            height,
                            command: None,
                            args,
                        },
                    )
                },
                1 => Some(ClientMessage::SaveLayout { path: own("layout.json") }),
                2 => Some(ClientMessage::LoadLayout { path: own("layout.json") }),
                3 => match self.active_window_id {
                    Some(window_id) => Some(ClientMessage::CapturePane { window_id }),
                    None => None,
                },
                4 => Some(ClientMessage::CaptureFull),
                _ => None,
            },
            Menu::Window => match self.active_window_id {
                Some(window_id) => match idx {
                    0 => Some(ClientMessage::CloseWindow { window_id }),
                    1 => Some(ClientMessage::MinimizeWindow { window_id }),
                    2 => Some(ClientMessage::MaximizeWindow { window_id }),
                    3 => Some(ClientMessage::ToggleSolo { window_id }),
                    4 => Some(ClientMessage::ToggleFullscreen { window_id }),
                    5 => Some(ClientMessage::TileWindows),
                    6 => Some(ClientMessage::ClearScrollback { window_id }),
                    _ => None,
                },
                None => if idx == 5 {
                    Some(ClientMessage::TileWindows)
                } else {
                    None
                },
            },
            Menu::Closed => None,
        };
        match msg {
            Some(m) => {
                let ghost view = m@;
                push_send(out, m);
                assert(done.push(send(view)) =~= done + seq![send(view)]);
            },
            None => {
                assert(done =~= done + Seq::<ActionView>::empty());
            },
        }
        self.menu = Menu::Closed;
        assert(self@ =~= old(self)@.item_chosen(menu, idx as int));
        false
    }

    /// A key while a window is being renamed.
    fn handle_rename_key(&mut self, code: KeyCode, out: &mut Vec<ClientAction>)
        requires
            old(self).wf(),
            old(self)@.renames(),
        ensures
            final(self).wf(),
            final(self)@ == old(self)@.rename_key(code),
            action_views(final(out)@) == action_views(old(out)@) + (if code == KeyCode::Enter {
                seq![
                    send(
                        ClientMessageView::RenameWindow {
                            window_id: old(self)@.rename->0.window_id,
                            title: old(self)@.rename->0.input,
                        },
                    ),
                ]
            } else {
                Seq::<ActionView>::empty()
            }),
    {
        let ghost done = action_views(out@);
        let ghost before = self@;
        assert(done =~= done + Seq::<ActionView>::empty());
        match self.rename_state.take() {
            Some(mut state) => {
                match code {
                    KeyCode::Enter => {
                        let ghost msg = ClientMessageView::RenameWindow {
                            window_id: state.window_id,
                            title: state.input@,
                        };
                        push_send(
                            out,
                            ClientMessage::RenameWindow {
                                window_id: state.window_id,
                                title: state.input,
                            },
                        );
                        assert(done.push(send(msg)) =~= done + seq![send(msg)]);
                    },
                    KeyCode::Esc => {},
                    KeyCode::Backspace => {
                        state.input.pop();
                        self.rename_state = Some(state);
                    },
                    KeyCode::Char(c) => {
                        state.input.push(c);
                        self.rename_state = Some(state);
                    },
                    _ => {
                        self.rename_state = Some(state);
                    },
                }
            },
            None => {},
        }
        assert(self@.rename =~= before.rename_key(code).rename);
        assert(self@ =~= before.rename_key(code));
    }

    /// A key while a menu is open. Returns whether the client ends.
    fn handle_menu_key(&mut self, code: KeyCode, out: &mut Vec<ClientAction>) -> (r: bool)
        requires
            old(self).wf(),
            old(self).menu != Menu::Closed,
        ensures
            final(self).wf(),
            final(self)@ == old(self)@.menu_key(code),
            action_views(final(out)@) == action_views(old(out)@) + (match chosen_item(
                old(self).menu,
                old(self).selected_item,
                code,
            ) {
                Some(idx) => old(self)@.item_actions(old(self).menu, idx),
                None => Seq::<ActionView>::empty(),
            }),
            r == (match chosen_item(old(self).menu, old(self).selected_item, code) {
                Some(idx) => item_quits(old(self).menu, idx),
                None => false,
            }),
    {
        let ghost done = action_views(out@);
        let ghost before = self@;
        assert(done =~= done + Seq::<ActionView>::empty());
        match code {
            KeyCode::Esc => {
                self.menu = Menu::Closed;
            },
            KeyCode::Up => {
                if self.selected_item > 0 {
                    self.selected_item = self.selected_item - 1;
                }
            },
            KeyCode::Down => {
                let last: usize = match self.menu {
                    Menu::File => 5,
                    Menu::Window => 6,
                    Menu::Closed => 0,
                };
                if self.selected_item < last {
                    self.selected_item = self.selected_item + 1;
                }
            },
            KeyCode::Left | KeyCode::Right => {
                self.menu = match self.menu {
                    Menu::File => Menu::Window,
                    Menu::Window => Menu::File,
                    Menu::Closed => Menu::Closed,
                };
                self.selected_item = 0;
            },
            KeyCode::Enter => {
                let menu = self.menu;
                let idx: usize = self.selected_item;
                return self.execute_menu_item(menu, idx, out);
            },
            KeyCode::Char(c) => {
                let menu = self.menu;
                if let Some(idx) = find_mnemonic(menu, c) {
                    return self.execute_menu_item(menu, idx, out);
                }
            },
            _ => {},
        }
        assert(self@ =~= before.menu_key(code));
        false
    }

    /// A key for the active window.
    fn send_key_to_window(
        &self,
        id: usize,
        key: &KeyEvent,
        is_over_window: bool,
        out: &mut Vec<ClientAction>,
    )
        ensures
            action_views(final(out)@) == action_views(old(out)@) + (match window_key(
                id,
                *key,
                is_over_window,
            ) {
                Some(msg) => seq![send(msg)],
                None => Seq::<ActionView>::empty(),
            }),
    {
        let ghost done = action_views(out@);
        let ghost sent = window_key(id, *key, is_over_window);
        assert(done =~= done + Seq::<ActionView>::empty());
        proof {
            if sent is Some {
                assert(done.push(send(sent->0)) =~= done + seq![send(sent->0)]);
            }
        }
        if !is_over_window && key.modifiers.shift {
            let amount: i32 = match key.code {
                KeyCode::PageUp => 10,
                KeyCode::PageDown => -10,
                _ => 0,
            };
            if amount != 0 {
                push_send(out, ClientMessage::Scroll { window_id: id, amount });
                return;
            }
        }
        let data = encode_key(key.code, key.modifiers);
        if data.len() > 0 {
            push_send(out, ClientMessage::Input { window_id: id, data });
        }
    }

    /// A key event. Returns whether the client ends.
    pub fn handle_key(&mut self, key: KeyEvent, out: &mut Vec<ClientAction>) -> (r: bool)
        requires
            old(self).wf(),
        ensures
            final(self).wf(),
            final(self)@ == old(self)@.after_key(key),
            action_views(final(out)@) == action_views(old(out)@) + old(self)@.key_actions(key),
            r == old(self)@.key_quits(key),
    {
        let ghost done = action_views(out@);
        assert(done =~= done + Seq::<ActionView>::empty());
        if !key.press {
            return false;
        }
        if self.rename_state.is_some() {
            self.handle_rename_key(key.code, out);
            return false;
        }
        if self.menu != Menu::Closed {
            return self.handle_menu_key(key.code, out);
        }
        let hit = self.get_hit(self.last_mouse_pos.0, self.last_mouse_pos.1);
        let is_over_window = hit.window().is_some();
        if let Some(id) = self.active_window_id {
            self.send_key_to_window(id, &key, is_over_window, out);
        }
        false
    }

    /// Learns of all windows anew.
    fn sync(
        &mut self,
        windows: Vec<WindowState>,
        solo_mode_active: bool,
        solo_origin_id: Option<usize>,
    )
        requires
            old(self).wf(),
        ensures
            final(self).wf(),
            final(self)@ == old(self)@.synced(
                state_views(windows@),
                solo_mode_active,
                solo_origin_id,
            ),
    {
        let ghost all = state_views(windows@);
        self.windows.clear();
        self.active_window_id = None;
        self.solo_mode_active = solo_mode_active;
        self.solo_origin_id = solo_origin_id;
        self.temporarily_expanded_id = None;
        let mut rest = windows;
        let n: usize = rest.len();
        let mut i: usize = 0;
        assert(state_views(self.windows@) =~= Seq::empty());
        assert(all.take(0) =~= Seq::empty());
        while i < n
            invariant
                i <= n,
                n == all.len(),
                rest@.len() == n - i,
                forall|j: int| 0 <= j < rest@.len() ==> (#[trigger] rest@[j])@ == all[i + j],
                by_number(state_views(self.windows@)),
                state_views(self.windows@) == stored_all(Seq::empty(), all.take(i as int)),
                self.active_window_id == last_focused(all.take(i as int)),
                self@ == (ClientView {
                    windows: self@.windows,
                    active: self@.active,
                    solo_active: solo_mode_active,
                    solo_origin: solo_origin_id,
                    expanded: None,
                    ..old(self)@
                }),
            decreases n - i,
        {
            let ghost before = self@;
            let ghost left = rest@;
            let win = rest.remove(0);
            assert(win@ == all[i as int]) by {
                assert(left[0]@ == all[i + 0]);
            }
            assert forall|j: int| 0 <= j < rest@.len() implies (#[trigger] rest@[j])@ == all[i + 1
                + j] by {
                assert(rest@[j] == left[j + 1]);
            }
            assert(all.take(i + 1).drop_last() =~= all.take(i as int));
            assert(all.take(i + 1).last() == all[i as int]);
            if win.focused {
                self.active_window_id = Some(win.id);
            }
            store_window(&mut self.windows, win);
            i += 1;
        }
        assert(all.take(n as int) =~= all);
        assert(self@ =~= old(self)@.synced(all, solo_mode_active, solo_origin_id));
    }

    fn update_window(&mut self, window: WindowState)
        requires
            old(self).wf(),
        ensures
            final(self).wf(),
            final(self)@ == old(self)@.updated(window@),
    {
        let ghost view = window@;
        if window.focused {
            self.active_window_id = Some(window.id);
        }
        store_window(&mut self.windows, window);
        assert(self@ =~= old(self)@.updated(view));
    }

    fn apply_diff(
        &mut self,
        window_id: usize,
        cells: &Vec<(usize, Cell)>,
        cursor_pos: Option<(u16, u16)>,
        scrollback_size: usize,
        scroll_offset: usize,
    )
        requires
            old(self).wf(),
        ensures
            final(self).wf(),
            final(self)@ == old(self)@.after_server(
                ServerMessageView::ScreenDiff {
                    window_id,
                    cells: cells@,
                    cursor_pos,
                    scrollback_size,
                    scroll_offset,
                },
            ),
    {
        let ghost before = self@;
        if let Some(i) = find_window(&self.windows, window_id) {
            let ghost s = before.windows;
            let ghost was = self.windows@[i as int]@;
            let mut win = self.windows.remove(i);
            apply_cells(&mut win.screen, cells);
            win.cursor_pos = cursor_pos;
            win.scrollback_size = scrollback_size;
            win.scroll_offset = scroll_offset;
            let ghost now = win@;
            self.windows.insert(i, win);
            proof {
                let target = WindowStateView {
                    screen: applied(was.screen, cells@),
                    cursor_pos,
                    scrollback_size,
                    scroll_offset,
                    ..was
                };
                assert(now =~= target);
                assert(state_views(self.windows@) =~= s.update(i as int, target));
                assert(stored(s, target) == s.update(i as int, target));
                law_stored_window_is_found(s, target, target.id);
                assert(self@ =~= (ClientView { windows: stored(s, target), ..before }));
            }
        }
    }

    /// A message from the server. Returns whether the client ends.
    pub fn handle_server(
        &mut self,
        msg: ServerMessage,
        now_secs: u64,
        out: &mut Vec<ClientAction>,
    ) -> (r: bool)
        requires
            old(self).wf(),
        ensures
            final(self).wf(),
            final(self)@ == old(self)@.after_server(msg@),
            action_views(final(out)@) == action_views(old(out)@) + server_actions(msg@, now_secs),
            r == (msg@ is Shutdown),
    {
        let ghost done = action_views(out@);
        let ghost before = self@;
        let ghost todo = server_actions(msg@, now_secs);
        proof {
            assert(done =~= done + Seq::<ActionView>::empty());
            if todo.len() == 1 {
                assert(done.push(todo[0]) =~= done + todo);
            }
        }
        match msg {
            ServerMessage::Welcome { session_id: _, windows, solo_mode_active, solo_origin_id } => {
                self.sync(windows, solo_mode_active, solo_origin_id);
            },
            ServerMessage::FullSync { windows, solo_mode_active, solo_origin_id } => {
                self.sync(windows, solo_mode_active, solo_origin_id);
            },
            ServerMessage::WindowCreated { window } => {
                self.update_window(window);
            },
            ServerMessage::WindowUpdate { window } => {
                self.update_window(window);
            },
            ServerMessage::WindowClosed { window_id } => {
                forget_window(&mut self.windows, window_id);
                assert(self@ =~= before.after_server(msg@));
            },
            ServerMessage::ScreenDiff {
                window_id,
                cells,
                cursor_pos,
                scrollback_size,
                scroll_offset,
            } => {
                self.apply_diff(window_id, &cells, cursor_pos, scrollback_size, scroll_offset);
            },
            ServerMessage::PaneCaptured { window_id, text } => {
                let name = pane_file_name(window_id, now_secs);
                push_action(out, ClientAction::SaveFile { name, text });
            },
            ServerMessage::FullCaptured { text } => {
                let name = full_file_name(now_secs);
                push_action(out, ClientAction::SaveFile { name, text });
            },
            ServerMessage::ClipboardUpdate { text_b64 } => {
                let text = forward_copy(text_b64.as_str());
                push_action(out, ClientAction::WriteOut { text });
            },
            ServerMessage::Shutdown => {
                return true;
            },
            _ => {},
        }
        false
    }
}

} // verus!
