//! Messages between client and server, screen cells, and the framing of
//! messages on a byte stream.

use vstd::prelude::*;
use crate::text::{copy_opt_string, copy_strings};

verus! {

/// Default TCP port for termplex.
pub const DEFAULT_PORT: u16 = 9876;

/// Default terminal width (internal area).
pub const DEFAULT_TERM_WIDTH: u16 = 80;

/// Default terminal height (internal area).
pub const DEFAULT_TERM_HEIGHT: u16 = 24;

/// Default bind address (localhost only).
pub const DEFAULT_BIND_ADDR: &'static str = "127.0.0.1";

/// A single cell in the terminal screen.
#[derive(Debug, Clone, Copy)]
pub struct Cell {
    pub ch: char,
    pub fg: (u8, u8, u8),
    pub bg: (u8, u8, u8),
    /// Bit 0: bold, bit 1: italic, bit 2: underline.
    pub attrs: u8,
}

impl Cell {
    /// The attribute byte that stands for the three flags.
    pub open spec fn attr_bits(bold: bool, italic: bool, underline: bool) -> u8 {
        ((if bold { 1int } else { 0 }) + (if italic { 2int } else { 0 }) + (if underline {
            4int
        } else {
            0
        })) as u8
    }

    /// Whether the cell is bold.
    pub open spec fn is_bold(self) -> bool {
        self.attrs & 1 != 0
    }

    /// Whether the cell is italic.
    pub open spec fn is_italic(self) -> bool {
        self.attrs & 2 != 0
    }

    /// Whether the cell is underlined.
    pub open spec fn is_underline(self) -> bool {
        self.attrs & 4 != 0
    }

    /// An empty cell: a light grey blank on black.
    pub open spec fn blank() -> Cell {
        Cell { ch: ' ', fg: (200, 200, 200), bg: (0, 0, 0), attrs: 0 }
    }

    pub fn bold(&self) -> (r: bool)
        ensures
            r == self.is_bold(),
    {
        self.attrs & 1 != 0
    }

    pub fn italic(&self) -> (r: bool)
        ensures
            r == self.is_italic(),
    {
        self.attrs & 2 != 0
    }

    pub fn underline(&self) -> (r: bool)
        ensures
            r == self.is_underline(),
    {
        self.attrs & 4 != 0
    }

    pub fn new(
        ch: char,
        fg: (u8, u8, u8),
        bg: (u8, u8, u8),
        bold: bool,
        italic: bool,
        underline: bool,
    ) -> (r: Self)
        ensures
            r == (Cell { ch, fg, bg, attrs: Cell::attr_bits(bold, italic, underline) }),
            r.is_bold() == bold,
            r.is_italic() == italic,
            r.is_underline() == underline,
    {
        let mut attrs: u8 = 0;
        if bold {
            attrs = attrs | 1;
        }
        if italic {
            attrs = attrs | 2;
        }
        if underline {
            attrs = attrs | 4;
        }
        proof {
            assert(0u8 | 1 == 1 && 0u8 | 2 == 2 && 0u8 | 4 == 4 && 1u8 | 2 == 3 && 1u8 | 4 == 5
                && 2u8 | 4 == 6 && 3u8 | 4 == 7) by (bit_vector);
            assert(forall|a: u8| #![trigger a & 1]
                a < 8 ==> ((a & 1 != 0) == (a == 1 || a == 3 || a == 5 || a == 7))) by (bit_vector);
            assert(forall|a: u8| #![trigger a & 2]
                a < 8 ==> ((a & 2 != 0) == (a == 2 || a == 3 || a == 6 || a == 7))) by (bit_vector);
            assert(forall|a: u8| #![trigger a & 4]
                a < 8 ==> ((a & 4 != 0) == (4 <= a))) by (bit_vector);
        }
        Self { ch, fg, bg, attrs }
    }
}

impl PartialEq for Cell {
    fn eq(&self, other: &Self) -> (r: bool) {
        self.ch == other.ch && self.fg.0 == other.fg.0 && self.fg.1 == other.fg.1 && self.fg.2
            == other.fg.2 && self.bg.0 == other.bg.0 && self.bg.1 == other.bg.1 && self.bg.2
            == other.bg.2 && self.attrs == other.attrs
    }
}

impl vstd::std_specs::cmp::PartialEqSpecImpl for Cell {
    open spec fn obeys_eq_spec() -> bool {
        true
    }

    open spec fn eq_spec(&self, other: &Self) -> bool {
        *self == *other
    }
}

impl Default for Cell {
    fn default() -> (r: Self)
        ensures
            r == Cell::blank(),
    {
        Self { ch: ' ', fg: (200, 200, 200), bg: (0, 0, 0), attrs: 0 }
    }
}

/// Messages sent from client to server.
#[derive(Debug)]
pub enum ClientMessage {
    /// Initial connection with the terminal size at connection time.
    Connect { term_size: (u16, u16) },
    /// Keyboard or mouse input for a specific window.
    Input { window_id: usize, data: Vec<u8> },
    /// Request to create a new terminal window.
    CreateWindow {
        x: u16,
        y: u16,
        width: u16,
        height: u16,
        command: Option<String>,
        args: Vec<String>,
    },
    /// Request to close a window.
    CloseWindow { window_id: usize },
    /// Focus a specific window.
    FocusWindow { window_id: usize },
    /// Resize a window.
    ResizeWindow { window_id: usize, width: u16, height: u16 },
    /// Move a window.
    MoveWindow { window_id: usize, x: u16, y: u16 },
    /// Toggle minimize on a window.
    MinimizeWindow { window_id: usize },
    /// Toggle maximize on a window.
    MaximizeWindow { window_id: usize },
    /// Toggle true fullscreen on a window.
    ToggleFullscreen { window_id: usize },
    /// Client terminal resized.
    TerminalResize { width: u16, height: u16 },
    /// Scroll request.
    Scroll { window_id: usize, amount: i32 },
    /// Scroll to absolute offset.
    ScrollTo { window_id: usize, offset: usize },
    /// Request layout save.
    SaveLayout { path: String },
    /// Request layout load.
    LoadLayout { path: String },
    /// Rename a window.
    RenameWindow { window_id: usize, title: String },
    /// Toggle solo mode for a window (minimize all others).
    ToggleSolo { window_id: usize },
    /// Temporarily expand a window in solo mode.
    TemporaryExpand { window_id: usize },
    /// Temporarily collapse a window back in solo mode.
    TemporaryCollapse { window_id: usize },
    /// Auto-tile all non-minimized windows.
    TileWindows,
    /// Capture pane content.
    CapturePane { window_id: usize },
    /// Capture full desktop content.
    CaptureFull,
    /// Client disconnecting.
    Disconnect,
    /// Clear the scrollback history of a window.
    ClearScrollback { window_id: usize },
}

/// What a `ClientMessage` says, over mathematical sequences.
#[verifier::ext_equal]
pub enum ClientMessageView {
    Connect { term_size: (u16, u16) },
    Input { window_id: usize, data: Seq<u8> },
    CreateWindow {
        x: u16,
        y: u16,
        width: u16,
        height: u16,
        command: Option<Seq<char>>,
        args: Seq<Seq<char>>,
    },
    CloseWindow { window_id: usize },
    FocusWindow { window_id: usize },
    ResizeWindow { window_id: usize, width: u16, height: u16 },
    MoveWindow { window_id: usize, x: u16, y: u16 },
    MinimizeWindow { window_id: usize },
    MaximizeWindow { window_id: usize },
    ToggleFullscreen { window_id: usize },
    TerminalResize { width: u16, height: u16 },
    Scroll { window_id: usize, amount: i32 },
    ScrollTo { window_id: usize, offset: usize },
    SaveLayout { path: Seq<char> },
    LoadLayout { path: Seq<char> },
    RenameWindow { window_id: usize, title: Seq<char> },
    ToggleSolo { window_id: usize },
    TemporaryExpand { window_id: usize },
    TemporaryCollapse { window_id: usize },
    TileWindows,
    CapturePane { window_id: usize },
    CaptureFull,
    Disconnect,
    ClearScrollback { window_id: usize },
}

/// The contents of an optional string.
pub open spec fn opt_text(s: Option<String>) -> Option<Seq<char>> {
    match s {
        Some(t) => Some(t@),
        None => None,
    }
}

/// The contents of a list of strings.
pub open spec fn texts(v: Seq<String>) -> Seq<Seq<char>> {
    Seq::new(v.len(), |i: int| v[i]@)
}

impl View for ClientMessage {
    type V = ClientMessageView;

    open spec fn view(&self) -> ClientMessageView {
        match *self {
            ClientMessage::Connect { term_size } => ClientMessageView::Connect { term_size },
            ClientMessage::Input { window_id, data } => ClientMessageView::Input {
                window_id,
                data: data@,
            },
            ClientMessage::CreateWindow { x, y, width, height, command, args } =>
                ClientMessageView::CreateWindow {
                x,
                y,
                width,
                height,
                command: opt_text(command),
                args: texts(args@),
            },
            ClientMessage::CloseWindow { window_id } => ClientMessageView::CloseWindow {
                window_id,
            },
            ClientMessage::FocusWindow { window_id } => ClientMessageView::FocusWindow {
                window_id,
            },
            ClientMessage::ResizeWindow { window_id, width, height } =>
                ClientMessageView::ResizeWindow { window_id, width, height },
            ClientMessage::MoveWindow { window_id, x, y } => ClientMessageView::MoveWindow {
                window_id,
                x,
                y,
            },
            ClientMessage::MinimizeWindow { window_id } => ClientMessageView::MinimizeWindow {
                window_id,
            },
            ClientMessage::MaximizeWindow { window_id } => ClientMessageView::MaximizeWindow {
                window_id,
            },
            ClientMessage::ToggleFullscreen { window_id } => ClientMessageView::ToggleFullscreen {
                window_id,
            },
            ClientMessage::TerminalResize { width, height } => ClientMessageView::TerminalResize {
                width,
                height,
            },
            ClientMessage::Scroll { window_id, amount } => ClientMessageView::Scroll {
                window_id,
                amount,
            },
            ClientMessage::ScrollTo { window_id, offset } => ClientMessageView::ScrollTo {
                window_id,
                offset,
            },
            ClientMessage::SaveLayout { path } => ClientMessageView::SaveLayout { path: path@ },
            ClientMessage::LoadLayout { path } => ClientMessageView::LoadLayout { path: path@ },
            ClientMessage::RenameWindow { window_id, title } => ClientMessageView::RenameWindow {
                window_id,
                title: title@,
            },
            ClientMessage::ToggleSolo { window_id } => ClientMessageView::ToggleSolo { window_id },
            ClientMessage::TemporaryExpand { window_id } => ClientMessageView::TemporaryExpand {
                window_id,
            },
            ClientMessage::TemporaryCollapse { window_id } =>
                ClientMessageView::TemporaryCollapse { window_id },
            ClientMessage::TileWindows => ClientMessageView::TileWindows,
            ClientMessage::CapturePane { window_id } => ClientMessageView::CapturePane {
                window_id,
            },
            ClientMessage::CaptureFull => ClientMessageView::CaptureFull,
            ClientMessage::Disconnect => ClientMessageView::Disconnect,
            ClientMessage::ClearScrollback { window_id } => ClientMessageView::ClearScrollback {
                window_id,
            },
        }
    }
}

impl Clone for ClientMessage {
    fn clone(&self) -> (r: Self)
        ensures
            r@ == self@,
    {
        match self {
            ClientMessage::Connect { term_size } => ClientMessage::Connect {
                term_size: (term_size.0, term_size.1),
            },
            ClientMessage::Input { window_id, data } => {
                let mut copy: Vec<u8> = Vec::new();
                copy.extend_from_slice(data.as_slice());
                assert(copy@ =~= data@);
                ClientMessage::Input { window_id: *window_id, data: copy }
            },
            ClientMessage::CreateWindow { x, y, width, height, command, args } =>
                ClientMessage::CreateWindow {
                x: *x,
                y: *y,
                width: *width,
                height: *height,
                command: copy_opt_string(command),
                args: copy_strings(args),
            },
            ClientMessage::CloseWindow { window_id } => ClientMessage::CloseWindow {
                window_id: *window_id,
            },
            ClientMessage::FocusWindow { window_id } => ClientMessage::FocusWindow {
                window_id: *window_id,
            },
            ClientMessage::ResizeWindow { window_id, width, height } =>
                ClientMessage::ResizeWindow {
                window_id: *window_id,
                width: *width,
                height: *height,
            },
            ClientMessage::MoveWindow { window_id, x, y } => ClientMessage::MoveWindow {
                window_id: *window_id,
                x: *x,
                y: *y,
            },
            ClientMessage::MinimizeWindow { window_id } => ClientMessage::MinimizeWindow {
                window_id: *window_id,
            },
            ClientMessage::MaximizeWindow { window_id } => ClientMessage::MaximizeWindow {
                window_id: *window_id,
            },
            ClientMessage::ToggleFullscreen { window_id } => ClientMessage::ToggleFullscreen {
                window_id: *window_id,
            },
            ClientMessage::TerminalResize { width, height } => ClientMessage::TerminalResize {
                width: *width,
                height: *height,
            },
            ClientMessage::Scroll { window_id, amount } => ClientMessage::Scroll {
                window_id: *window_id,
                amount: *amount,
            },
            ClientMessage::ScrollTo { window_id, offset } => ClientMessage::ScrollTo {
                window_id: *window_id,
                offset: *offset,
            },
            ClientMessage::SaveLayout { path } => ClientMessage::SaveLayout {
                path: path.clone(),
            },
            ClientMessage::LoadLayout { path } => ClientMessage::LoadLayout {
                path: path.clone(),
            },
            ClientMessage::RenameWindow { window_id, title } => ClientMessage::RenameWindow {
                window_id: *window_id,
                title: title.clone(),
            },
            ClientMessage::ToggleSolo { window_id } => ClientMessage::ToggleSolo {
                window_id: *window_id,
            },
            ClientMessage::TemporaryExpand { window_id } => ClientMessage::TemporaryExpand {
                window_id: *window_id,
            },
            ClientMessage::TemporaryCollapse { window_id } => ClientMessage::TemporaryCollapse {
                window_id: *window_id,
            },
            ClientMessage::TileWindows => ClientMessage::TileWindows,
            ClientMessage::CapturePane { window_id } => ClientMessage::CapturePane {
                window_id: *window_id,
            },
            ClientMessage::CaptureFull => ClientMessage::CaptureFull,
            ClientMessage::Disconnect => ClientMessage::Disconnect,
            ClientMessage::ClearScrollback { window_id } => ClientMessage::ClearScrollback {
                window_id: *window_id,
            },
        }
    }
}

/// Configuration for a single window in a layout.
#[derive(Debug, Clone)]
pub struct WindowConfig {
    pub x: u16,
    pub y: u16,
    pub width: u16,
    pub height: u16,
    pub command: Option<String>,
    pub args: Vec<String>,
    pub title: Option<String>,
}

/// What a `WindowConfig` says, over mathematical sequences.
#[verifier::ext_equal]
pub struct WindowConfigView {
    pub x: u16,
    pub y: u16,
    pub width: u16,
    pub height: u16,
    pub command: Option<Seq<char>>,
    pub args: Seq<Seq<char>>,
    pub title: Option<Seq<char>>,
}

impl View for WindowConfig {
    type V = WindowConfigView;

    open spec fn view(&self) -> WindowConfigView {
        WindowConfigView {
            x: self.x,
            y: self.y,
            width: self.width,
            height: self.height,
            command: opt_text(self.command),
            args: texts(self.args@),
            title: opt_text(self.title),
        }
    }
}

/// A complete layout of windows.
#[derive(Debug, Clone)]
pub struct Layout {
    pub windows: Vec<WindowConfig>,
}

/// What a list of window configurations says.
pub open spec fn config_views(v: Seq<WindowConfig>) -> Seq<WindowConfigView> {
    Seq::new(v.len(), |i: int| v[i]@)
}

impl Default for Layout {
    fn default() -> (r: Self)
        ensures
            r.windows@ == Seq::<WindowConfig>::empty(),
    {
        Layout { windows: Vec::new() }
    }
}

/// Window state sent from server.
#[derive(Debug, Clone)]
pub struct WindowState {
    pub id: usize,
    pub title: String,
    pub x: u16,
    pub y: u16,
    pub width: u16,
    pub height: u16,
    pub minimized: bool,
    pub focused: bool,
    pub running: bool,
    pub exit_code: Option<i32>,
    pub scroll_offset: usize,
    pub scrollback_size: usize,
    pub fullscreen: bool,
    /// Screen content: flat grid of cells (row-major).
    pub screen: Vec<Cell>,
    /// Cursor position (row, col).
    pub cursor_pos: Option<(u16, u16)>,
    /// Cursor visible.
    pub cursor_visible: bool,
    /// Mouse reporting enabled by the application.
    pub mouse_reporting: bool,
    /// Z-order position (0 = back, higher = front).
    pub z_order: usize,
}

/// What a `WindowState` says, over mathematical sequences.
#[verifier::ext_equal]
pub struct WindowStateView {
    pub id: usize,
    pub title: Seq<char>,
    pub x: u16,
    pub y: u16,
    pub width: u16,
    pub height: u16,
    pub minimized: bool,
    pub focused: bool,
    pub running: bool,
    pub exit_code: Option<i32>,
    pub scroll_offset: usize,
    pub scrollback_size: usize,
    pub fullscreen: bool,
    pub screen: Seq<Cell>,
    pub cursor_pos: Option<(u16, u16)>,
    pub cursor_visible: bool,
    pub mouse_reporting: bool,
    pub z_order: usize,
}

impl View for WindowState {
    type V = WindowStateView;

    open spec fn view(&self) -> WindowStateView {
        WindowStateView {
            id: self.id,
            title: self.title@,
            x: self.x,
            y: self.y,
            width: self.width,
            height: self.height,
            minimized: self.minimized,
            focused: self.focused,
            running: self.running,
            exit_code: self.exit_code,
            scroll_offset: self.scroll_offset,
            scrollback_size: self.scrollback_size,
            fullscreen: self.fullscreen,
            screen: self.screen@,
            cursor_pos: self.cursor_pos,
            cursor_visible: self.cursor_visible,
            mouse_reporting: self.mouse_reporting,
            z_order: self.z_order,
        }
    }
}

/// What a list of window states says.
pub open spec fn state_views(v: Seq<WindowState>) -> Seq<WindowStateView> {
    Seq::new(v.len(), |i: int| v[i]@)
}

/// Messages sent from server to client.
#[derive(Debug, Clone)]
pub enum ServerMessage {
    /// Connection established, with the current state.
    Welcome {
        /// Client session ID.
        session_id: u64,
        /// Current windows.
        windows: Vec<WindowState>,
        /// Whether solo mode is currently active.
        solo_mode_active: bool,
        /// The window ID that triggered solo mode.
        solo_origin_id: Option<usize>,
    },
    /// Full state sync (all windows).
    FullSync {
        windows: Vec<WindowState>,
        /// Whether solo mode is currently active.
        solo_mode_active: bool,
        /// The window ID that triggered solo mode.
        solo_origin_id: Option<usize>,
    },
    /// Single window updated.
    WindowUpdate { window: WindowState },
    /// Window closed.
    WindowClosed { window_id: usize },
    /// New window created.
    WindowCreated { window: WindowState },
    /// Sparse screen update (only changed cells).
    ScreenDiff {
        window_id: usize,
        /// List of (index, cell) for changed cells.
        cells: Vec<(usize, Cell)>,
        /// New cursor position.
        cursor_pos: Option<(u16, u16)>,
        /// Current scrollback size.
        scrollback_size: usize,
        /// Current scroll offset.
        scroll_offset: usize,
    },
    /// Pane captured content.
    PaneCaptured { window_id: usize, text: String },
    /// Full desktop captured content.
    FullCaptured { text: String },
    /// Error message.
    Error { message: String },
    /// Layout saved confirmation.
    LayoutSaved,
    /// Server shutting down.
    Shutdown,
    /// A window asked for by a launch command now exists.
    WindowCreatedConfirmation { window_id: usize },
    /// An application set the clipboard; the text is in base64.
    ClipboardUpdate { text_b64: String },
}

/// What a `ServerMessage` says, over mathematical sequences.
#[verifier::ext_equal]
pub enum ServerMessageView {
    Welcome {
        session_id: u64,
        windows: Seq<WindowStateView>,
        solo_mode_active: bool,
        solo_origin_id: Option<usize>,
    },
    FullSync {
        windows: Seq<WindowStateView>,
        solo_mode_active: bool,
        solo_origin_id: Option<usize>,
    },
    WindowUpdate { window: WindowStateView },
    WindowClosed { window_id: usize },
    WindowCreated { window: WindowStateView },
    ScreenDiff {
        window_id: usize,
        cells: Seq<(usize, Cell)>,
        cursor_pos: Option<(u16, u16)>,
        scrollback_size: usize,
        scroll_offset: usize,
    },
    PaneCaptured { window_id: usize, text: Seq<char> },
    FullCaptured { text: Seq<char> },
    Error { message: Seq<char> },
    LayoutSaved,
    Shutdown,
    WindowCreatedConfirmation { window_id: usize },
    ClipboardUpdate { text_b64: Seq<char> },
}

impl View for ServerMessage {
    type V = ServerMessageView;

    open spec fn view(&self) -> ServerMessageView {
        match *self {
            ServerMessage::Welcome { session_id, windows, solo_mode_active, solo_origin_id } =>
                ServerMessageView::Welcome {
                session_id,
                windows: state_views(windows@),
                solo_mode_active,
                solo_origin_id,
            },
            ServerMessage::FullSync { windows, solo_mode_active, solo_origin_id } =>
                ServerMessageView::FullSync {
                windows: state_views(windows@),
                solo_mode_active,
                solo_origin_id,
            },
            ServerMessage::WindowUpdate { window } => ServerMessageView::WindowUpdate {
                window: window@,
            },
            ServerMessage::WindowClosed { window_id } => ServerMessageView::WindowClosed {
                window_id,
            },
            ServerMessage::WindowCreated { window } => ServerMessageView::WindowCreated {
                window: window@,
            },
            ServerMessage::ScreenDiff {
                window_id,
                cells,
                cursor_pos,
                scrollback_size,
                scroll_offset,
            } => ServerMessageView::ScreenDiff {
                window_id,
                cells: cells@,
                cursor_pos,
                scrollback_size,
                scroll_offset,
            },
            ServerMessage::PaneCaptured { window_id, text } => ServerMessageView::PaneCaptured {
                window_id,
                text: text@,
            },
            ServerMessage::FullCaptured { text } => ServerMessageView::FullCaptured { text: text@ },
            ServerMessage::Error { message } => ServerMessageView::Error { message: message@ },
            ServerMessage::LayoutSaved => ServerMessageView::LayoutSaved,
            ServerMessage::Shutdown => ServerMessageView::Shutdown,
            ServerMessage::WindowCreatedConfirmation { window_id } =>
                ServerMessageView::WindowCreatedConfirmation { window_id },
            ServerMessage::ClipboardUpdate { text_b64 } => ServerMessageView::ClipboardUpdate {
                text_b64: text_b64@,
            },
        }
    }
}

/// A cell is bold, italic or underlined exactly where it was made so.
pub proof fn law_attributes_are_told_apart(cell: Cell, bold: bool, italic: bool, underline: bool)
    requires
        cell.attrs == Cell::attr_bits(bold, italic, underline),
    ensures
        cell.is_bold() == bold,
        cell.is_italic() == italic,
        cell.is_underline() == underline,
{
    assert(0u8 & 1 == 0 && 1u8 & 1 == 1 && 2u8 & 1 == 0 && 3u8 & 1 == 1 && 4u8 & 1 == 0 && 5u8 & 1
        == 1 && 6u8 & 1 == 0 && 7u8 & 1 == 1) by (bit_vector);
    assert(0u8 & 2 == 0 && 1u8 & 2 == 0 && 2u8 & 2 == 2 && 3u8 & 2 == 2 && 4u8 & 2 == 0 && 5u8 & 2
        == 0 && 6u8 & 2 == 2 && 7u8 & 2 == 2) by (bit_vector);
    assert(0u8 & 4 == 0 && 1u8 & 4 == 0 && 2u8 & 4 == 0 && 3u8 & 4 == 0 && 4u8 & 4 == 4 && 5u8 & 4
        == 4 && 6u8 & 4 == 4 && 7u8 & 4 == 4) by (bit_vector);
}

} // verus!
