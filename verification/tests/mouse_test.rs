//! How a client reacts to the mouse.

use termplex::client::{Client, ClientAction};
use termplex::clipboard::{osc52_copy, osc52_sequences, selection_text, Selection};
use termplex::geometry::Rect;
use termplex::hits::Menu;
use termplex::input::{Modifiers, MouseButton, MouseEvent, MouseKind};
use termplex::protocol::{Cell, ClientMessage, ServerMessage, WindowState};

fn window(id: usize, x: u16, y: u16, width: u16, height: u16, z: usize) -> WindowState {
    WindowState {
        id,
        title: format!("Terminal {}", id),
        x,
        y,
        width,
        height,
        minimized: false,
        focused: false,
        running: true,
        exit_code: None,
        scroll_offset: 0,
        scrollback_size: 0,
        fullscreen: false,
        screen: vec![Cell::default(); (width - 2) as usize * (height - 2) as usize],
        cursor_pos: None,
        cursor_visible: false,
        mouse_reporting: false,
        z_order: z,
    }
}

/// A client with a screen of 80 by 24 and two windows, the first one active.
fn client() -> Client {
    let mut c = Client::new(Rect::new(0, 0, 80, 24));
    let mut first = window(1, 4, 3, 30, 10, 0);
    first.focused = true;
    let mut out = Vec::new();
    let msg = ServerMessage::FullSync {
        windows: vec![first, window(2, 40, 6, 20, 8, 1)],
        solo_mode_active: false,
        solo_origin_id: None,
    };
    c.handle_server(msg, 0, &mut out);
    c.update_hit_map();
    c
}

fn event(kind: MouseKind, column: u16, row: u16) -> MouseEvent {
    let modifiers = Modifiers { shift: false, alt: false, control: false };
    MouseEvent { kind, column, row, modifiers }
}

fn mouse(c: &mut Client, m: MouseEvent, now: u64) -> (bool, Vec<ClientAction>) {
    assert!(c.can_handle_mouse(&m));
    let mut out = Vec::new();
    let quit = c.handle_mouse(m, now, &mut out);
    (quit, out)
}

fn left(c: &mut Client, column: u16, row: u16, now: u64) -> Vec<ClientAction> {
    mouse(c, event(MouseKind::Down(MouseButton::Left), column, row), now).1
}

fn sent(a: &ClientAction) -> &ClientMessage {
    match a {
        ClientAction::Send { msg } => msg,
        _ => panic!("no message"),
    }
}

fn input(a: &ClientAction) -> String {
    match sent(a) {
        ClientMessage::Input { data, .. } => String::from_utf8(data.clone()).unwrap(),
        _ => panic!("no input"),
    }
}

#[test]
fn buttons_of_a_window() {
    let mut c = client();
    assert!(matches!(sent(&left(&mut c, 42, 6, 0)[0]), ClientMessage::CloseWindow { window_id: 2 }));
    assert!(matches!(
        sent(&left(&mut c, 46, 6, 0)[0]),
        ClientMessage::MinimizeWindow { window_id: 2 }
    ));
    assert!(matches!(
        sent(&left(&mut c, 50, 6, 0)[0]),
        ClientMessage::MaximizeWindow { window_id: 2 }
    ));
    assert!(matches!(
        sent(&left(&mut c, 53, 6, 0)[0]),
        ClientMessage::ToggleFullscreen { window_id: 2 }
    ));
    assert!(matches!(sent(&left(&mut c, 56, 6, 0)[0]), ClientMessage::ToggleSolo { window_id: 2 }));
    assert!(matches!(
        sent(&left(&mut c, 56, 13, 0)[0]),
        ClientMessage::ResizeWindow { window_id: 2, width: 82, height: 26 }
    ));
    let (_, out) = mouse(&mut c, event(MouseKind::Down(MouseButton::Middle), 42, 6), 0);
    assert!(out.is_empty());
}

#[test]
fn menus_open_and_close() {
    let mut c = client();
    left(&mut c, 3, 0, 0);
    assert_eq!(c.menu, Menu::File);
    left(&mut c, 12, 0, 0);
    assert_eq!(c.menu, Menu::Window);
    left(&mut c, 12, 0, 0);
    assert_eq!(c.menu, Menu::Closed);
    c.menu = Menu::File;
    c.update_hit_map();
    let (quit, out) = mouse(&mut c, event(MouseKind::Down(MouseButton::Left), 5, 7), 0);
    assert!(quit && out.is_empty());
    left(&mut c, 70, 20, 0);
    assert_eq!(c.menu, Menu::Closed);
}

#[test]
fn deskbar_focuses_by_number() {
    let mut c = client();
    let out = left(&mut c, 70, 2, 0);
    assert!(matches!(sent(&out[0]), ClientMessage::FocusWindow { window_id: 2 }));
    assert_eq!(c.active_window_id, Some(2));
    assert!(left(&mut c, 77, 0, 0).is_empty());
    assert!(c.deskbar_minimized);
}

#[test]
fn new_window_opens_at_the_mouse() {
    let mut c = client();
    let mut m = event(MouseKind::Down(MouseButton::Right), 70, 20);
    assert!(mouse(&mut c, m, 0).1.is_empty());
    m.modifiers.control = true;
    let (_, out) = mouse(&mut c, m, 0);
    assert!(matches!(
        sent(&out[0]),
        ClientMessage::CreateWindow { x: 70, y: 20, width: 82, height: 26, command: None, .. }
    ));
}

#[test]
fn title_is_dragged() {
    let mut c = client();
    let out = left(&mut c, 40, 6, 1000);
    assert!(matches!(sent(&out[0]), ClientMessage::FocusWindow { window_id: 2 }));
    assert_eq!(c.active_window_id, Some(2));
    let drag = |x, y| event(MouseKind::Drag(MouseButton::Left), x, y);
    assert!(mouse(&mut c, drag(42, 8), 1010).1.is_empty());
    let (_, out) = mouse(&mut c, drag(43, 9), 1016);
    assert!(matches!(sent(&out[0]), ClientMessage::MoveWindow { window_id: 2, x: 43, y: 9 }));
    assert!(mouse(&mut c, drag(44, 9), 1020).1.is_empty());
    let (_, out) = mouse(&mut c, drag(0, 0), 1040);
    assert!(matches!(sent(&out[0]), ClientMessage::MoveWindow { window_id: 2, x: 0, y: 0 }));
    mouse(&mut c, event(MouseKind::Up(MouseButton::Left), 0, 0), 1041);
    assert!(c.drag_state.is_none());
    assert!(mouse(&mut c, drag(50, 9), 1100).1.is_empty());
}

#[test]
fn corner_resizes() {
    let mut c = client();
    left(&mut c, 59, 13, 1000);
    assert!(c.drag_state.unwrap().is_resize);
    let drag = |x, y| event(MouseKind::Drag(MouseButton::Left), x, y);
    let (_, out) = mouse(&mut c, drag(62, 15), 1100);
    assert!(matches!(
        sent(&out[0]),
        ClientMessage::ResizeWindow { window_id: 2, width: 23, height: 10 }
    ));
    let (_, out) = mouse(&mut c, drag(0, 0), 1200);
    assert!(matches!(
        sent(&out[0]),
        ClientMessage::ResizeWindow { window_id: 2, width: 10, height: 3 }
    ));
    c.windows.remove(1);
    assert!(mouse(&mut c, drag(5, 5), 1300).1.is_empty());
    assert!(c.drag_state.is_none());
}

#[test]
fn control_drags_from_inside() {
    let mut c = client();
    let mut m = event(MouseKind::Down(MouseButton::Left), 50, 9);
    m.modifiers.control = true;
    mouse(&mut c, m, 5);
    let drag = c.drag_state.unwrap();
    assert_eq!((drag.window_id, drag.is_resize), (2, false));
    assert!(c.pending_selection.is_none());
}

#[test]
fn double_click_renames() {
    let mut c = client();
    left(&mut c, 40, 6, 1000);
    mouse(&mut c, event(MouseKind::Up(MouseButton::Left), 40, 6), 1050);
    left(&mut c, 40, 6, 1499);
    let rename = c.rename_state.as_ref().unwrap();
    assert_eq!((rename.window_id, rename.input.as_str()), (2, "Terminal 2"));
    assert!(c.last_click.is_none());
    let mut c = client();
    left(&mut c, 40, 6, 1000);
    left(&mut c, 40, 6, 1500);
    assert!(c.rename_state.is_none());
    left(&mut c, 4, 3, 1600);
    assert!(c.rename_state.is_none());
}

#[test]
fn applications_get_the_mouse() {
    let mut c = client();
    c.windows[0].mouse_reporting = true;
    let (_, out) = mouse(&mut c, event(MouseKind::Moved, 10, 6), 0);
    assert_eq!(input(&out[0]), "\x1b[<35;6;3M");
    let mut m = event(MouseKind::Down(MouseButton::Right), 10, 6);
    m.modifiers = Modifiers { shift: true, alt: true, control: true };
    let (_, out) = mouse(&mut c, m, 0);
    assert!(matches!(sent(&out[0]), ClientMessage::FocusWindow { window_id: 1 }));
    assert_eq!(input(&out[1]), "\x1b[<30;6;3M");
    let (_, out) = mouse(&mut c, event(MouseKind::Drag(MouseButton::Middle), 11, 6), 0);
    assert_eq!(input(&out[0]), "\x1b[<33;7;3M");
    let (_, out) = mouse(&mut c, event(MouseKind::Up(MouseButton::Left), 2, 1), 0);
    assert_eq!(input(&out[0]), "\x1b[<0;1;1m");
    let (_, out) = mouse(&mut c, event(MouseKind::ScrollUp, 10, 6), 0);
    assert_eq!(input(&out[0]), "\x1b[<64;6;3M");
    let (_, out) = mouse(&mut c, event(MouseKind::ScrollDown, 10, 6), 0);
    assert_eq!(input(&out[0]), "\x1b[<65;6;3M");
    assert!(mouse(&mut c, event(MouseKind::ScrollDown, 50, 9), 0).1.is_empty());
    assert!(mouse(&mut c, event(MouseKind::Moved, 50, 9), 0).1.is_empty());
}

#[test]
fn text_is_selected_and_copied() {
    let mut c = client();
    let width = 28;
    for (i, ch) in "hello world".chars().enumerate() {
        c.windows[0].screen[width + i].ch = ch;
        c.windows[0].screen[2 * width + i].ch = ch.to_ascii_uppercase();
    }
    left(&mut c, 5 + 6, 4 + 1, 0);
    assert_eq!(c.pending_selection, Some((1, 1, 6)));
    let drag = |x, y| event(MouseKind::Drag(MouseButton::Left), x, y);
    mouse(&mut c, drag(5 + 6, 4 + 1), 10);
    assert!(c.selection.is_none());
    mouse(&mut c, drag(5 + 4, 4 + 2), 20);
    let sel: Selection = c.selection.unwrap();
    assert_eq!((sel.start, sel.end), ((1, 6), (2, 4)));
    let (_, out) = mouse(&mut c, event(MouseKind::Up(MouseButton::Left), 5 + 4, 4 + 2), 30);
    assert!(matches!(&out[0], ClientAction::Copy { text } if text == "world\nHELLO"));
    assert_eq!(c.clipboard, "world\nHELLO");
    assert!(c.selection.is_none() && c.pending_selection.is_none());
}

#[test]
fn control_drag_drops_the_selection() {
    let mut c = client();
    left(&mut c, 10, 6, 0);
    mouse(&mut c, event(MouseKind::Drag(MouseButton::Left), 14, 7), 10);
    assert!(c.selection.is_some());
    let mut m = event(MouseKind::Down(MouseButton::Left), 12, 7);
    m.modifiers.control = true;
    mouse(&mut c, m, 20);
    assert!(c.selection.is_none() && c.pending_selection.is_none());
    assert!(c.drag_state.is_some());
    let (_, out) = mouse(&mut c, event(MouseKind::Up(MouseButton::Left), 12, 7), 30);
    assert!(!out.iter().any(|a| matches!(a, ClientAction::Copy { .. })));
    assert!(c.clipboard.is_empty());
}

#[test]
fn selection_has_no_direction() {
    let mut w = window(1, 0, 0, 10, 4, 0);
    for (i, ch) in "abcdefg.hijklmn.".chars().enumerate() {
        w.screen[i].ch = ch;
    }
    assert_eq!(selection_text(&w, (0, 2), (1, 1)), "cdefg\nhi");
    assert_eq!(selection_text(&w, (1, 1), (0, 2)), "cdefg\nhi");
    assert_eq!(selection_text(&w, (0, 1), (0, 3)), "bcd");
    assert_eq!(selection_text(&w, (0, 0), (0, 60)), "abcdefg");
    assert_eq!(selection_text(&w, (1, 5), (9, 0)), "mn\n\n\n\n\n\n\n\n");
}

#[test]
fn paste_prefers_the_system() {
    let mut c = client();
    let (_, out) = mouse(&mut c, event(MouseKind::Down(MouseButton::Right), 10, 6), 0);
    assert!(matches!(out[1], ClientAction::Paste { window_id: 1 }));
    c.clipboard = "mine".to_string();
    let mut out = Vec::new();
    c.paste(1, Some("\u{fc}ber".to_string()), &mut out);
    assert_eq!(input(&out[0]), "\u{fc}ber");
    assert_eq!(c.clipboard, "mine");
    c.paste(1, None, &mut out);
    assert_eq!(input(&out[1]), "mine");
    assert_eq!(c.clipboard, "");
    c.paste(1, None, &mut out);
    assert_eq!(out.len(), 2);
}

#[test]
fn scroll_bar_is_tracked() {
    let mut c = client();
    let out = left(&mut c, 58, 9, 0);
    assert_eq!(out.len(), 1);
    c.windows[1].scrollback_size = 100;
    let out = left(&mut c, 58, 9, 0);
    assert!(matches!(
        out[1],
        ClientAction::TrackScrollbar {
            window_id: 2,
            inner_height: 6,
            history: 100,
            row: 2,
            always: true
        }
    ));
    let (_, out) = mouse(&mut c, event(MouseKind::Drag(MouseButton::Left), 3, 20), 0);
    assert!(matches!(
        out[0],
        ClientAction::TrackScrollbar { window_id: 2, row: 13, always: false, .. }
    ));
    let mut out = Vec::new();
    c.scroll_to(2, 30, false, &mut out);
    assert_eq!(c.windows[1].scroll_offset, 30);
    assert!(matches!(sent(&out[0]), ClientMessage::ScrollTo { window_id: 2, offset: 30 }));
    c.scroll_to(2, 30, false, &mut out);
    assert_eq!(out.len(), 1);
    c.scroll_to(2, 30, true, &mut out);
    assert_eq!(out.len(), 2);
    mouse(&mut c, event(MouseKind::Up(MouseButton::Left), 3, 20), 0);
    assert!(c.scrollbar_drag.is_none());
}

#[test]
fn hidden_windows_open_under_the_mouse() {
    let mut c = client();
    c.solo_mode_active = true;
    c.solo_origin_id = Some(1);
    c.windows[1].minimized = true;
    c.update_hit_map();
    let (_, out) = mouse(&mut c, event(MouseKind::Moved, 40, 6), 0);
    assert!(matches!(sent(&out[0]), ClientMessage::TemporaryExpand { window_id: 2 }));
    assert_eq!(c.temporarily_expanded_id, Some(2));
    assert!(mouse(&mut c, event(MouseKind::Moved, 40, 6), 0).1.is_empty());
    let (_, out) = mouse(&mut c, event(MouseKind::Moved, 70, 20), 0);
    assert!(matches!(sent(&out[0]), ClientMessage::TemporaryCollapse { window_id: 2 }));
    assert_eq!(c.temporarily_expanded_id, None);
    c.temporarily_expanded_id = Some(1);
    let (_, out) = mouse(&mut c, event(MouseKind::Moved, 40, 6), 0);
    assert!(matches!(sent(&out[0]), ClientMessage::TemporaryCollapse { window_id: 1 }));
    assert!(matches!(sent(&out[1]), ClientMessage::TemporaryExpand { window_id: 2 }));
}

#[test]
fn clicks_need_their_window() {
    let mut c = client();
    c.windows.remove(1);
    assert!(!c.can_handle_mouse(&event(MouseKind::Down(MouseButton::Left), 50, 9)));
    assert!(c.can_handle_mouse(&event(MouseKind::Moved, 50, 9)));
    c.update_hit_map();
    assert!(c.can_handle_mouse(&event(MouseKind::Down(MouseButton::Left), 50, 9)));
}

#[test]
fn copies_are_told_in_base64() {
    assert!(osc52_copy("").is_empty());
    assert_eq!(
        osc52_copy("hi"),
        vec![
            "\x1b]52;c;aGk=\x1b\\",
            "\x1bPtmux;\x1b\x1b]52;c;aGk=\x07\x1b\\",
            "\x1bP\x1b]52;c;aGk=\x07\x1b\\",
        ]
    );
    assert_eq!(osc52_sequences("eA==")[0], "\x1b]52;c;eA==\x1b\\");
}
