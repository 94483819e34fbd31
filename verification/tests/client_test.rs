//! A client: keys, menus, the server, and what the mouse hits.

use termplex::client::{Client, ClientAction};
use termplex::events::{AppEvent, TerminalInput};
use termplex::geometry::Rect;
use termplex::hits::{HitTarget, Menu};
use termplex::input::{encode_key, encode_mouse, KeyCode, KeyEvent, Modifiers};
use termplex::protocol::{Cell, ClientMessage, ServerMessage, WindowState};
use termplex::store::{find_window, forget_window, store_window};

fn window(id: usize, x: u16, y: u16, width: u16, height: u16, z: usize) -> WindowState {
    WindowState {
        id,
        title: format!("Terminal {}", id),
        x,
        y,
        width,
        height,
        minimized: false,
        focused: false,
        running: true,
        exit_code: None,
        scroll_offset: 0,
        scrollback_size: 0,
        fullscreen: false,
        screen: vec![Cell::default(); (width.max(2) - 2) as usize * (height.max(2) - 2) as usize],
        cursor_pos: None,
        cursor_visible: false,
        mouse_reporting: false,
        z_order: z,
    }
}

fn sync(windows: Vec<WindowState>) -> ServerMessage {
    ServerMessage::FullSync { windows, solo_mode_active: false, solo_origin_id: None }
}

fn none() -> Modifiers {
    Modifiers { shift: false, alt: false, control: false }
}

fn key(code: KeyCode) -> KeyEvent {
    KeyEvent { code, modifiers: none(), press: true }
}

/// A client with a screen of 80 by 24 and two overlapping windows, the second in
/// front and focused.
fn client() -> Client {
    let mut c = Client::new(Rect::new(0, 0, 80, 24));
    let mut front = window(2, 20, 6, 30, 8, 1);
    front.focused = true;
    let mut out = Vec::new();
    c.handle_server(sync(vec![window(1, 4, 3, 30, 10, 0), front]), 0, &mut out);
    assert!(out.is_empty());
    c.update_hit_map();
    c
}

fn press(c: &mut Client, k: KeyEvent) -> (bool, Vec<ClientAction>) {
    let mut out = Vec::new();
    let quit = c.handle_key(k, &mut out);
    (quit, out)
}

#[test]
fn windows_are_known_by_number() {
    let mut v = Vec::new();
    store_window(&mut v, window(5, 0, 0, 10, 5, 0));
    store_window(&mut v, window(2, 0, 0, 10, 5, 0));
    store_window(&mut v, window(9, 0, 0, 10, 5, 0));
    store_window(&mut v, window(5, 7, 0, 10, 5, 0));
    assert_eq!(v.iter().map(|w| w.id).collect::<Vec<_>>(), vec![2, 5, 9]);
    assert_eq!(v[1].x, 7);
    assert_eq!(find_window(&v, 9), Some(2));
    assert_eq!(find_window(&v, 3), None);
    forget_window(&mut v, 5);
    forget_window(&mut v, 4);
    assert_eq!(v.iter().map(|w| w.id).collect::<Vec<_>>(), vec![2, 9]);
}

#[test]
fn sync_replaces_what_was_known() {
    let mut c = client();
    assert_eq!(c.active_window_id, Some(2));
    let mut out = Vec::new();
    let msg = ServerMessage::Welcome {
        session_id: 3,
        windows: vec![window(7, 1, 1, 10, 5, 0)],
        solo_mode_active: true,
        solo_origin_id: Some(7),
    };
    assert!(!c.handle_server(msg, 0, &mut out));
    assert_eq!(c.windows.len(), 1);
    assert_eq!(c.active_window_id, None);
    assert!(c.solo_mode_active);
    assert_eq!(c.solo_origin_id, Some(7));
}

#[test]
fn updates_change_one_window() {
    let mut c = client();
    let mut out = Vec::new();
    let mut w = window(1, 9, 9, 12, 5, 2);
    w.focused = true;
    c.handle_server(ServerMessage::WindowUpdate { window: w }, 0, &mut out);
    assert_eq!(c.active_window_id, Some(1));
    assert_eq!((c.windows.len(), c.windows[0].x), (2, 9));
    c.handle_server(ServerMessage::WindowCreated { window: window(4, 0, 0, 12, 5, 3) }, 0, &mut out);
    assert_eq!(c.windows.len(), 3);
    assert_eq!(c.active_window_id, Some(1));
    c.handle_server(ServerMessage::WindowClosed { window_id: 1 }, 0, &mut out);
    assert_eq!(c.windows.iter().map(|w| w.id).collect::<Vec<_>>(), vec![2, 4]);
    assert_eq!(c.active_window_id, Some(1));
    assert!(out.is_empty());
}

#[test]
fn changed_cells_are_put_in() {
    let mut c = client();
    let mut out = Vec::new();
    let x = Cell::new('x', (1, 1, 1), (2, 2, 2), false, false, false);
    let msg = ServerMessage::ScreenDiff {
        window_id: 1,
        cells: vec![(0, x), (100000, x), (5, x)],
        cursor_pos: Some((1, 2)),
        scrollback_size: 40,
        scroll_offset: 3,
    };
    c.handle_server(msg, 0, &mut out);
    let w = &c.windows[0];
    assert_eq!((w.screen[0].ch, w.screen[1].ch, w.screen[5].ch), ('x', ' ', 'x'));
    assert_eq!((w.cursor_pos, w.scrollback_size, w.scroll_offset), (Some((1, 2)), 40, 3));
    let msg = ServerMessage::ScreenDiff {
        window_id: 99,
        cells: vec![(0, x)],
        cursor_pos: None,
        scrollback_size: 0,
        scroll_offset: 0,
    };
    c.handle_server(msg, 0, &mut out);
    assert_eq!(c.windows.len(), 2);
}

#[test]
fn captures_are_written_to_files() {
    let mut c = client();
    let mut out = Vec::new();
    c.handle_server(
        ServerMessage::PaneCaptured { window_id: 4, text: "t".to_string() },
        1700,
        &mut out,
    );
    c.handle_server(ServerMessage::FullCaptured { text: "u".to_string() }, 1800, &mut out);
    c.handle_server(ServerMessage::ClipboardUpdate { text_b64: "aGk=".to_string() }, 0, &mut out);
    assert_eq!(out.len(), 3);
    assert!(
        matches!(&out[0], ClientAction::SaveFile { name, text } if name == "capture_window_4_1700.txt" && text == "t")
    );
    assert!(
        matches!(&out[1], ClientAction::SaveFile { name, text } if name == "capture_full_1800.txt" && text == "u")
    );
    assert!(matches!(&out[2], ClientAction::WriteOut { text } if text == "\x1b]52;c;aGk=\x07"));
}

#[test]
fn client_ends_with_the_server() {
    let mut c = client();
    let mut out = Vec::new();
    assert!(c.handle_server(ServerMessage::Shutdown, 0, &mut out));
    assert!(!c.handle_server(ServerMessage::LayoutSaved, 0, &mut out));
    assert!(!c.handle_server(
        ServerMessage::WindowCreatedConfirmation { window_id: 1 },
        0,
        &mut out
    ));
}

#[test]
fn front_window_is_hit() {
    let c = client();
    assert_eq!(c.get_hit(21, 6), HitTarget::WindowTitle(2));
    assert_eq!(c.get_hit(22, 6), HitTarget::CloseButton(2));
    assert_eq!(c.get_hit(27, 6), HitTarget::MinimizeButton(2));
    assert_eq!(c.get_hit(31, 6), HitTarget::MaximizeButton(2));
    assert_eq!(c.get_hit(41, 6), HitTarget::FullscreenButton(2));
    assert_eq!(c.get_hit(44, 6), HitTarget::WindowTitle(2));
    assert_eq!(c.get_hit(45, 6), HitTarget::SoloButton(2));
    assert_eq!(c.get_hit(49, 6), HitTarget::WindowTitle(2));
    assert_eq!(c.get_hit(25, 8), HitTarget::WindowContent(2));
    assert_eq!(c.get_hit(48, 8), HitTarget::WindowScrollbar(2));
    assert_eq!(c.get_hit(49, 8), HitTarget::WindowBorder(2));
    assert_eq!(c.get_hit(20, 13), HitTarget::WindowBorder(2));
    assert_eq!(c.get_hit(46, 13), HitTarget::ResetButton(2));
    assert_eq!(c.get_hit(49, 13), HitTarget::WindowResize(2));
    assert_eq!(c.get_hit(10, 8), HitTarget::WindowContent(1));
    assert_eq!(c.get_hit(60, 20), HitTarget::Nothing);
    assert_eq!(c.get_hit(80, 0), HitTarget::Nothing);
}

#[test]
fn minimized_window_is_its_title() {
    let mut c = client();
    c.windows[1].minimized = true;
    c.update_hit_map();
    assert_eq!(c.get_hit(21, 6), HitTarget::WindowTitle(2));
    assert_eq!(c.get_hit(23, 6), HitTarget::CloseButton(2));
    assert_eq!(c.get_hit(45, 6), HitTarget::WindowTitle(2));
    assert_eq!(c.get_hit(25, 8), HitTarget::WindowContent(1));
}

#[test]
fn bars_lie_over_windows() {
    let mut c = client();
    c.windows[0].x = 0;
    c.windows[0].y = 0;
    c.windows[0].width = 80;
    c.windows[0].height = 20;
    c.update_hit_map();
    assert_eq!(c.get_hit(2, 0), HitTarget::MenuLabel(Menu::File));
    assert_eq!(c.get_hit(8, 0), HitTarget::MinimizeButton(1));
    assert_eq!(c.get_hit(10, 0), HitTarget::MenuLabel(Menu::Window));
    assert_eq!(c.get_hit(17, 0), HitTarget::MenuLabel(Menu::Window));
    assert_eq!(c.get_hit(64, 0), HitTarget::Nothing);
    assert_eq!(c.get_hit(76, 0), HitTarget::DeskbarMinimizeButton);
    assert_eq!(c.get_hit(64, 1), HitTarget::Deskbar(0));
    assert_eq!(c.get_hit(79, 2), HitTarget::Deskbar(1));
    assert_eq!(c.get_hit(70, 3), HitTarget::Nothing);
    assert_eq!(c.get_hit(70, 4), HitTarget::WindowContent(1));
    c.deskbar_minimized = true;
    c.menu = Menu::Window;
    c.update_hit_map();
    assert_eq!(c.get_hit(76, 0), HitTarget::DeskbarMinimizeButton);
    assert_eq!(c.get_hit(70, 1), HitTarget::WindowContent(1));
    assert_eq!(c.get_hit(11, 2), HitTarget::MenuItem(Menu::Window, 0));
    assert_eq!(c.get_hit(28, 8), HitTarget::MenuItem(Menu::Window, 6));
    c.windows[0].fullscreen = true;
    c.update_hit_map();
    assert_eq!(c.get_hit(2, 0), HitTarget::CloseButton(1));
    assert_eq!(c.get_hit(11, 2), HitTarget::WindowContent(1));
}

#[test]
fn resizing_is_told_to_the_server() {
    let mut c = client();
    let mut out = Vec::new();
    let event = AppEvent::Terminal { input: TerminalInput::Resize { width: 100, height: 40 } };
    assert!(c.can_handle_event(&event));
    assert!(!c.handle_event(event, 0, 0, &mut out));
    assert_eq!(c.last_screen_size, Rect::new(0, 0, 100, 40));
    assert_eq!(c.hit_map.len(), 4000);
    assert_eq!(c.get_hit(21, 6), HitTarget::Nothing);
    assert!(matches!(
        out[0],
        ClientAction::Send { msg: ClientMessage::TerminalResize { width: 100, height: 40 } }
    ));
}

#[test]
fn names_are_edited() {
    let mut c = client();
    c.rename_state =
        Some(termplex::client::RenameState { window_id: 1, input: "ab".to_string() });
    assert!(press(&mut c, key(KeyCode::Backspace)).1.is_empty());
    press(&mut c, key(KeyCode::Char('z')));
    press(&mut c, key(KeyCode::Up));
    assert_eq!(c.rename_state.as_ref().unwrap().input, "az");
    let (quit, out) = press(&mut c, key(KeyCode::Enter));
    assert!(!quit && c.rename_state.is_none());
    assert!(
        matches!(&out[0], ClientAction::Send { msg: ClientMessage::RenameWindow { window_id: 1, title } } if title == "az")
    );
    c.rename_state = Some(termplex::client::RenameState { window_id: 1, input: String::new() });
    press(&mut c, key(KeyCode::Backspace));
    let (_, out) = press(&mut c, key(KeyCode::Esc));
    assert!(out.is_empty() && c.rename_state.is_none());
}

#[test]
fn menus_are_walked_with_keys() {
    let mut c = client();
    c.menu = Menu::File;
    press(&mut c, key(KeyCode::Up));
    assert_eq!(c.selected_item, 0);
    for _ in 0..9 {
        press(&mut c, key(KeyCode::Down));
    }
    assert_eq!(c.selected_item, 5);
    press(&mut c, key(KeyCode::Right));
    assert_eq!((c.menu, c.selected_item), (Menu::Window, 0));
    press(&mut c, key(KeyCode::Left));
    assert_eq!(c.menu, Menu::File);
    press(&mut c, key(KeyCode::Char('y')));
    assert_eq!(c.menu, Menu::File);
    press(&mut c, key(KeyCode::Esc));
    assert_eq!(c.menu, Menu::Closed);
}

#[test]
fn file_menu_acts() {
    let mut c = client();
    let mut act = |ch: char| {
        c.menu = Menu::File;
        let r = press(&mut c, key(KeyCode::Char(ch)));
        assert_eq!(c.menu, if r.0 { Menu::File } else { Menu::Closed });
        r
    };
    let (_, out) = act('N');
    assert!(
        matches!(&out[0], ClientAction::Send { msg: ClientMessage::CreateWindow { x: 0, y: 2, width: 82, height: 26, command: None, args } } if args.is_empty())
    );
    let (_, out) = act('o');
    assert!(
        matches!(&out[0], ClientAction::Send { msg: ClientMessage::SaveLayout { path } } if path == "layout.json")
    );
    let (_, out) = act('i');
    assert!(
        matches!(&out[0], ClientAction::Send { msg: ClientMessage::LoadLayout { path } } if path == "layout.json")
    );
    let (_, out) = act('v');
    assert!(matches!(
        out[0],
        ClientAction::Send { msg: ClientMessage::CapturePane { window_id: 2 } }
    ));
    let (_, out) = act('p');
    assert!(matches!(out[0], ClientAction::Send { msg: ClientMessage::CaptureFull }));
    let (quit, out) = act('q');
    assert!(quit && out.is_empty());
}

#[test]
fn window_menu_acts_on_the_active_window() {
    let mut c = client();
    let mut act = |idx: usize| {
        c.menu = Menu::Window;
        c.selected_item = idx;
        let (quit, mut out) = press(&mut c, key(KeyCode::Enter));
        assert!(!quit && c.menu == Menu::Closed && out.len() == 1);
        match out.remove(0) {
            ClientAction::Send { msg } => msg,
            _ => panic!("no message"),
        }
    };
    assert!(matches!(act(0), ClientMessage::CloseWindow { window_id: 2 }));
    assert!(matches!(act(1), ClientMessage::MinimizeWindow { window_id: 2 }));
    assert!(matches!(act(2), ClientMessage::MaximizeWindow { window_id: 2 }));
    assert!(matches!(act(3), ClientMessage::ToggleSolo { window_id: 2 }));
    assert!(matches!(act(4), ClientMessage::ToggleFullscreen { window_id: 2 }));
    assert!(matches!(act(5), ClientMessage::TileWindows));
    assert!(matches!(act(6), ClientMessage::ClearScrollback { window_id: 2 }));
    c.active_window_id = None;
    c.menu = Menu::Window;
    let (_, out) = press(&mut c, key(KeyCode::Char('z')));
    assert!(out.is_empty());
    c.menu = Menu::Window;
    let (_, out) = press(&mut c, key(KeyCode::Char('g')));
    assert_eq!(out.len(), 1);
}

fn bytes(code: KeyCode, shift: bool, alt: bool, control: bool) -> Vec<u8> {
    encode_key(code, Modifiers { shift, alt, control })
}

#[test]
fn keys_become_bytes() {
    assert_eq!(bytes(KeyCode::Char('a'), false, false, false), b"a");
    assert_eq!(bytes(KeyCode::Char('\u{e9}'), false, false, false), "\u{e9}".as_bytes());
    assert_eq!(bytes(KeyCode::Char('a'), false, true, false), b"\x1ba");
    assert_eq!(bytes(KeyCode::Char('c'), false, false, true), [3]);
    assert_eq!(bytes(KeyCode::Char('Z'), true, true, true), [27, 26]);
    assert_eq!(bytes(KeyCode::Char('['), false, false, true), [27]);
    assert_eq!(bytes(KeyCode::Char('\\'), false, false, true), [28]);
    assert_eq!(bytes(KeyCode::Char(']'), false, false, true), [29]);
    assert_eq!(bytes(KeyCode::Char('^'), false, false, true), [30]);
    assert_eq!(bytes(KeyCode::Char('_'), false, false, true), [31]);
    assert_eq!(bytes(KeyCode::Char(' '), false, false, true), [0]);
    assert_eq!(bytes(KeyCode::Char('1'), false, false, true), b"1");
    assert_eq!(bytes(KeyCode::Enter, false, true, false), [27, 13]);
    assert_eq!(bytes(KeyCode::Backspace, false, false, false), [127]);
    assert_eq!(bytes(KeyCode::Tab, false, false, false), [9]);
    assert_eq!(bytes(KeyCode::BackTab, true, false, false), b"\x1b[Z");
    assert_eq!(bytes(KeyCode::Esc, false, true, false), [27, 27]);
    assert!(bytes(KeyCode::Other, false, false, false).is_empty());
}

#[test]
fn special_keys_become_escape_sequences() {
    assert_eq!(bytes(KeyCode::Up, false, false, false), b"\x1b[A");
    assert_eq!(bytes(KeyCode::Left, false, false, true), b"\x1b[1;5D");
    assert_eq!(bytes(KeyCode::End, true, true, true), b"\x1b[1;8F");
    assert_eq!(bytes(KeyCode::PageUp, false, false, false), b"\x1b[5~");
    assert_eq!(bytes(KeyCode::Delete, true, false, false), b"\x1b[3;2~");
    assert_eq!(bytes(KeyCode::F(1), false, false, false), b"\x1bOP");
    assert_eq!(bytes(KeyCode::F(4), false, true, false), b"\x1b[1;3S");
    assert_eq!(bytes(KeyCode::F(5), false, false, false), b"\x1b[15~");
    assert_eq!(bytes(KeyCode::F(12), false, false, true), b"\x1b[24;5~");
    assert!(bytes(KeyCode::F(13), true, false, false).is_empty());
}

#[test]
fn mouse_reports_count_from_one() {
    assert_eq!(encode_mouse(0, 0, 0, false), b"\x1b[<0;1;1M");
    assert_eq!(encode_mouse(35, 119, 9, false), b"\x1b[<35;120;10M");
    assert_eq!(encode_mouse(2, 5, 65535, true), b"\x1b[<2;6;65536m");
}

#[test]
fn keys_go_to_the_active_window() {
    let mut c = client();
    let (_, out) = press(&mut c, key(KeyCode::Char('x')));
    assert!(
        matches!(&out[0], ClientAction::Send { msg: ClientMessage::Input { window_id: 2, data } } if data == b"x")
    );
    let mut up = key(KeyCode::Char('x'));
    up.press = false;
    assert!(press(&mut c, up).1.is_empty());
    c.active_window_id = None;
    assert!(press(&mut c, key(KeyCode::Char('x'))).1.is_empty());
}

#[test]
fn history_is_scrolled_with_keys_beside_windows() {
    let mut c = client();
    let mut k = key(KeyCode::PageUp);
    k.modifiers.shift = true;
    let (_, out) = press(&mut c, k);
    assert!(matches!(
        out[0],
        ClientAction::Send { msg: ClientMessage::Scroll { window_id: 2, amount: 10 } }
    ));
    k.code = KeyCode::PageDown;
    let (_, out) = press(&mut c, k);
    assert!(matches!(
        out[0],
        ClientAction::Send { msg: ClientMessage::Scroll { window_id: 2, amount: -10 } }
    ));
    c.last_mouse_pos = (25, 8);
    let (_, out) = press(&mut c, k);
    assert!(
        matches!(&out[0], ClientAction::Send { msg: ClientMessage::Input { data, .. } } if data == b"\x1b[6;2~")
    );
}

#[test]
fn every_entry_has_a_letter() {
    for (menu, letters) in [(Menu::File, "noivpq"), (Menu::Window, "zxcsfgl")] {
        for (idx, c) in letters.chars().enumerate() {
            let mut by_letter = client();
            by_letter.menu = menu;
            let a = press(&mut by_letter, key(KeyCode::Char(c)));
            let mut by_enter = client();
            by_enter.menu = menu;
            by_enter.selected_item = idx;
            let b = press(&mut by_enter, key(KeyCode::Enter));
            assert_eq!(a.0, b.0);
            assert_eq!(a.1.len(), b.1.len());
        }
    }
}
