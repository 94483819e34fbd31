//! The windows of a session, and how the server changes them.

use std::collections::HashMap;

use termplex::arrange::TermSize;
use termplex::geometry::Rect;
use termplex::protocol::{ClientMessage, Layout, ServerMessage, WindowConfig};
use termplex::server::{ForegroundCommand, ServerState};
use termplex::session::{
    default_window, recalculate_effective_size, save_reply, starting_windows, ClientSize, Plan, Session,
};
use termplex::snapshot::TerminalView;

fn config(x: u16, y: u16, width: u16, height: u16) -> WindowConfig {
    WindowConfig { x, y, width, height, command: None, args: vec![], title: None }
}

fn open(session: &mut Session, x: u16, y: u16, width: u16, height: u16) -> usize {
    let w = session.open_window(&config(x, y, width, height));
    session.window_started(w)
}

/// A session on a large screen with three windows.
fn three() -> Session {
    let mut session = Session::new();
    assert_eq!(open(&mut session, 5, 5, 20, 6), 1);
    assert_eq!(open(&mut session, 40, 5, 20, 6), 2);
    assert_eq!(open(&mut session, 5, 30, 20, 6), 3);
    session
}

fn parsers(ids: &[usize], rows: u16, cols: u16) -> HashMap<usize, vt100::Parser> {
    ids.iter().map(|id| (*id, vt100::Parser::new(rows, cols, 3000))).collect()
}

fn views(parsers: &HashMap<usize, vt100::Parser>) -> HashMap<usize, TerminalView<'_>> {
    parsers
        .iter()
        .map(|(id, p)| {
            (
                *id,
                TerminalView { running: true, exit_code: None, scrollback_size: 0, screen: p.screen() },
            )
        })
        .collect()
}

fn focused(session: &Session) -> Vec<usize> {
    let mut ids: Vec<usize> =
        session.state.windows.values().filter(|w| w.focused).map(|w| w.id).collect();
    ids.sort();
    ids
}

fn rect(session: &Session, id: usize) -> Rect {
    session.state.windows.get(&id).unwrap().rect
}

fn minimized(session: &Session, id: usize) -> bool {
    session.state.windows.get(&id).unwrap().minimized
}

#[test]
fn windows_open_in_front() {
    let session = three();
    assert_eq!(session.state.window_order, vec![1, 2, 3]);
    assert_eq!(session.state.active_window_id, Some(3));
    assert_eq!(focused(&session), vec![3]);
    assert_eq!(session.state.windows.get(&2).unwrap().title, "Terminal 2");
    assert_eq!(session.state.next_window_id, 4);
}

#[test]
fn number_is_used_up_where_no_terminal_starts() {
    let mut session = Session::new();
    let w = session.open_window(&default_window());
    assert_eq!(w.id, 1);
    assert_eq!(w.rect, Rect::new(5, 2, 80, 24));
    assert_eq!((w.rows, w.cols), (22, 78));
    assert_eq!(open(&mut session, 0, 0, 20, 6), 2);
    assert!(!session.state.windows.contains_key(&1));
}

#[test]
fn focus_brings_to_the_front() {
    let mut session = three();
    let plan = session.handle_message(1, ClientMessage::FocusWindow { window_id: 1 });
    assert!(matches!(plan, Plan::Sync));
    assert_eq!(session.state.window_order, vec![2, 3, 1]);
    assert_eq!(focused(&session), vec![1]);
}

#[test]
fn focus_on_nothing_takes_the_focus_away() {
    let mut session = three();
    session.handle_message(1, ClientMessage::FocusWindow { window_id: 9 });
    assert_eq!(session.state.active_window_id, Some(9));
    assert!(focused(&session).is_empty());
    assert_eq!(session.state.window_order, vec![1, 2, 3]);
}

#[test]
fn front_window_takes_over() {
    let mut session = three();
    let plan = session.handle_message(1, ClientMessage::CloseWindow { window_id: 3 });
    assert!(matches!(plan, Plan::Close { window_id: 3 }));
    assert_eq!(session.state.active_window_id, Some(2));
    assert_eq!(focused(&session), vec![2]);
    session.handle_message(1, ClientMessage::CloseWindow { window_id: 1 });
    assert_eq!(session.state.active_window_id, Some(2));
    session.handle_message(1, ClientMessage::CloseWindow { window_id: 2 });
    assert_eq!(session.state.active_window_id, None);
    assert!(session.state.windows.is_empty());
}

#[test]
fn windows_move_and_resize() {
    let mut session = three();
    let plan =
        session.handle_message(1, ClientMessage::ResizeWindow { window_id: 1, width: 50, height: 10 });
    assert!(
        matches!(plan, Plan::Resize { size } if size == TermSize { window_id: 1, rows: 8, cols: 48 })
    );
    assert_eq!(rect(&session, 1), Rect::new(5, 5, 50, 10));
    let plan = session.handle_message(1, ClientMessage::MoveWindow { window_id: 1, x: 7, y: 9 });
    assert!(matches!(plan, Plan::Refresh { window_id: 1 }));
    assert_eq!(rect(&session, 1), Rect::new(7, 9, 50, 10));
    let plan = session.handle_message(1, ClientMessage::MoveWindow { window_id: 8, x: 7, y: 9 });
    assert!(matches!(plan, Plan::Nothing));
}

#[test]
fn minimizing_twice_restores() {
    let mut session = three();
    session.handle_message(1, ClientMessage::MinimizeWindow { window_id: 2 });
    assert!(minimized(&session, 2));
    session.handle_message(1, ClientMessage::MinimizeWindow { window_id: 2 });
    assert!(!minimized(&session, 2));
}

#[test]
fn fullscreen_twice_restores() {
    let mut session = three();
    let before = rect(&session, 1);
    session.handle_message(1, ClientMessage::MinimizeWindow { window_id: 1 });
    let plan = session.handle_message(1, ClientMessage::ToggleFullscreen { window_id: 1 });
    assert!(
        matches!(plan, Plan::Resize { size } if size == TermSize { window_id: 1, rows: 56, cols: 196 })
    );
    assert_eq!(rect(&session, 1), Rect::new(1, 1, 198, 58));
    assert!(!minimized(&session, 1));
    let plan = session.handle_message(1, ClientMessage::ToggleFullscreen { window_id: 1 });
    assert!(
        matches!(plan, Plan::Resize { size } if size == TermSize { window_id: 1, rows: 4, cols: 18 })
    );
    assert_eq!(rect(&session, 1), before);
    assert!(!session.state.windows.get(&1).unwrap().fullscreen);
}

#[test]
fn maximizing_twice_restores() {
    let mut session = three();
    let before = rect(&session, 1);
    assert!(session.can_handle(&ClientMessage::MaximizeWindow { window_id: 1 }));
    session.handle_message(1, ClientMessage::MaximizeWindow { window_id: 1 });
    assert_eq!(rect(&session, 1), Rect::new(1, 1, 39, 29));
    session.handle_message(1, ClientMessage::MaximizeWindow { window_id: 1 });
    assert_eq!(rect(&session, 1), before);
}

#[test]
fn minimized_windows_do_not_stop_maximizing() {
    let mut session = three();
    session.handle_message(1, ClientMessage::MinimizeWindow { window_id: 2 });
    session.handle_message(1, ClientMessage::MinimizeWindow { window_id: 3 });
    session.handle_message(1, ClientMessage::MaximizeWindow { window_id: 1 });
    assert_eq!(rect(&session, 1), Rect::new(1, 1, 198, 58));
}

#[test]
fn window_beyond_coordinates_cannot_be_maximized() {
    let mut session = three();
    session.handle_message(1, ClientMessage::MoveWindow { window_id: 1, x: 65530, y: 0 });
    assert!(!session.can_handle(&ClientMessage::MaximizeWindow { window_id: 1 }));
    assert!(session.can_handle(&ClientMessage::MaximizeWindow { window_id: 2 }));
    assert!(session.can_handle(&ClientMessage::MaximizeWindow { window_id: 9 }));
}

#[test]
fn scrolling_stays_in_the_history() {
    let mut session = three();
    let plan = session.handle_message(1, ClientMessage::Scroll { window_id: 1, amount: 10 });
    assert!(matches!(plan, Plan::Scroll { window_id: 1, offset: 10 }));
    let plan = session.handle_message(1, ClientMessage::Scroll { window_id: 1, amount: i32::MAX });
    assert!(matches!(plan, Plan::Scroll { window_id: 1, offset: 3000 }));
    let plan = session.handle_message(1, ClientMessage::Scroll { window_id: 1, amount: -2990 });
    assert!(matches!(plan, Plan::Scroll { window_id: 1, offset: 10 }));
    let plan = session.handle_message(1, ClientMessage::Scroll { window_id: 1, amount: -11 });
    assert!(matches!(plan, Plan::Scroll { window_id: 1, offset: 0 }));
    let plan = session.handle_message(1, ClientMessage::ScrollTo { window_id: 1, offset: 5000 });
    assert!(matches!(plan, Plan::Scroll { window_id: 1, offset: 3000 }));
    let plan = session.handle_message(1, ClientMessage::ClearScrollback { window_id: 1 });
    assert!(matches!(plan, Plan::ClearHistory { window_id: 1 }));
    assert_eq!(session.state.windows.get(&1).unwrap().scroll_offset, 0);
    let plan = session.handle_message(1, ClientMessage::Scroll { window_id: 7, amount: 10 });
    assert!(matches!(plan, Plan::Nothing));
}

#[test]
fn windows_are_renamed() {
    let mut session = three();
    let msg = ClientMessage::RenameWindow { window_id: 2, title: "logs".to_string() };
    assert!(matches!(session.handle_message(1, msg), Plan::Refresh { window_id: 2 }));
    assert_eq!(session.state.windows.get(&2).unwrap().title, "logs");
}

#[test]
fn input_goes_to_known_windows() {
    let mut session = three();
    let msg = ClientMessage::Input { window_id: 2, data: vec![1, 2] };
    assert!(
        matches!(session.handle_message(1, msg), Plan::Write { window_id: 2, data } if data == vec![1, 2])
    );
    let msg = ClientMessage::Input { window_id: 9, data: vec![1, 2] };
    assert!(matches!(session.handle_message(1, msg), Plan::Nothing));
}

#[test]
fn requests_without_a_window_are_passed_on() {
    let mut session = three();
    let save = ClientMessage::SaveLayout { path: "a".to_string() };
    assert!(matches!(session.handle_message(1, save), Plan::SaveLayout { path } if path == "a"));
    let load = ClientMessage::LoadLayout { path: "b".to_string() };
    assert!(matches!(session.handle_message(1, load), Plan::LoadLayout { path } if path == "b"));
    assert!(matches!(session.handle_message(1, ClientMessage::CaptureFull), Plan::CaptureFull));
    assert!(matches!(
        session.handle_message(1, ClientMessage::CapturePane { window_id: 2 }),
        Plan::CapturePane { window_id: 2 }
    ));
    assert!(matches!(session.handle_message(1, ClientMessage::Disconnect), Plan::Disconnect));
}

#[test]
fn screen_is_the_smallest_of_all_clients() {
    let none: HashMap<usize, TerminalView> = HashMap::new();
    let mut session = Session::new();
    assert_eq!(session.screen, Rect::new(0, 0, 200, 60));
    session.client_connected(1, &none);
    assert_eq!(session.screen, Rect::new(0, 0, 80, 24));
    session.handle_message(1, ClientMessage::Connect { term_size: (120, 50) });
    assert_eq!(session.screen, Rect::new(0, 0, 120, 50));
    session.client_connected(2, &none);
    session.handle_message(2, ClientMessage::TerminalResize { width: 100, height: 70 });
    assert_eq!(session.screen, Rect::new(0, 0, 100, 50));
    session.handle_message(2, ClientMessage::TerminalResize { width: 130, height: 40 });
    assert_eq!(session.screen, Rect::new(0, 0, 120, 40));
    session.client_disconnected(1);
    assert_eq!(session.screen, Rect::new(0, 0, 130, 40));
    let sizes = vec![
        ClientSize { id: 1, width: 10, height: 90 },
        ClientSize { id: 2, width: 20, height: 30 },
    ];
    assert_eq!(recalculate_effective_size(&sizes), Rect::new(0, 0, 10, 30));
}

#[test]
fn session_ends_without_windows_and_clients() {
    let none: HashMap<usize, TerminalView> = HashMap::new();
    let mut session = Session::new();
    open(&mut session, 1, 1, 20, 6);
    session.client_connected(1, &none);
    assert!(!session.window_closed(1));
    assert!(session.client_disconnected(1));
    let mut session = Session::new();
    open(&mut session, 1, 1, 20, 6);
    session.client_connected(1, &none);
    assert!(!session.client_disconnected(1));
    assert!(session.window_closed(1));
    assert!(session.is_over());
}

#[test]
fn client_is_welcomed_with_all_windows() {
    let mut session = three();
    let terminals = parsers(&[1, 2, 3], 4, 18);
    match session.client_connected(7, &views(&terminals)) {
        ServerMessage::Welcome { session_id, windows, solo_mode_active, solo_origin_id } => {
            assert_eq!(session_id, 7);
            assert_eq!(windows.iter().map(|w| w.id).collect::<Vec<_>>(), vec![1, 2, 3]);
            assert_eq!(windows.iter().map(|w| w.z_order).collect::<Vec<_>>(), vec![0, 1, 2]);
            assert!(windows[2].focused && windows[2].cursor_visible && !windows[0].cursor_visible);
            assert_eq!(windows[0].screen.len(), 18 * 4);
            assert!(!solo_mode_active && solo_origin_id.is_none());
        }
        _ => panic!("no welcome"),
    }
    assert_eq!(session.writers, vec![7]);
}

#[test]
fn requested_window_is_cut_to_the_screen() {
    let none: HashMap<usize, TerminalView> = HashMap::new();
    let mut session = Session::new();
    session.client_connected(1, &none);
    let msg = ClientMessage::CreateWindow {
        x: 10,
        y: 10,
        width: 82,
        height: 26,
        command: Some("top".to_string()),
        args: vec!["-b".to_string()],
    };
    assert!(session.can_handle(&msg));
    match session.handle_message(1, msg) {
        Plan::Spawn { window } => {
            assert_eq!(window.id, 1);
            assert_eq!(window.rect, Rect::new(10, 10, 68, 12));
            assert_eq!((window.rows, window.cols), (10, 66));
            assert_eq!(window.command, Some("top".to_string()));
            assert_eq!(window.args, vec!["-b"]);
        }
        _ => panic!("no window"),
    }
}

#[test]
fn tiny_screen_has_no_room_for_a_window() {
    let none: HashMap<usize, TerminalView> = HashMap::new();
    let mut session = Session::new();
    session.client_connected(1, &none);
    session.handle_message(1, ClientMessage::TerminalResize { width: 11, height: 24 });
    let msg = ClientMessage::CreateWindow {
        x: 0,
        y: 0,
        width: 10,
        height: 3,
        command: None,
        args: vec![],
    };
    assert!(!session.can_handle(&msg));
    assert!(!session.can_open());
    session.handle_message(1, ClientMessage::TerminalResize { width: 12, height: 5 });
    assert!(session.can_handle(&msg) && session.can_open());
}

#[test]
fn only_changes_are_reported() {
    let mut session = Session::new();
    open(&mut session, 1, 1, 10, 4);
    let mut terminals = parsers(&[1], 2, 8);
    match session.window_needs_update(1, &views(&terminals)) {
        Some(ServerMessage::WindowUpdate { window }) => assert_eq!(window.screen.len(), 16),
        _ => panic!("the first report is whole"),
    }
    assert!(session.window_needs_update(1, &views(&terminals)).is_none());
    terminals.get_mut(&1).unwrap().process(b"hi");
    match session.window_needs_update(1, &views(&terminals)) {
        Some(ServerMessage::ScreenDiff { window_id, cells, cursor_pos, .. }) => {
            assert_eq!(window_id, 1);
            assert_eq!(cells.len(), 2);
            assert_eq!((cells[0].0, cells[0].1.ch), (0, 'h'));
            assert_eq!((cells[1].0, cells[1].1.ch), (1, 'i'));
            assert_eq!(cursor_pos, Some((0, 2)));
        }
        _ => panic!("no changes"),
    }
    terminals.get_mut(&1).unwrap().process(b"\x1b[H");
    match session.window_needs_update(1, &views(&terminals)) {
        Some(ServerMessage::ScreenDiff { cells, cursor_pos, .. }) => {
            assert!(cells.is_empty());
            assert_eq!(cursor_pos, Some((0, 0)));
        }
        _ => panic!("the cursor moved"),
    }
    assert!(session.window_needs_update(5, &views(&terminals)).is_none());
}

#[test]
fn changed_window_is_reported_whole() {
    let mut session = three();
    let terminals = parsers(&[1, 2, 3], 4, 18);
    match session.window_changed(2, &views(&terminals)) {
        Some(ServerMessage::WindowUpdate { window }) => {
            assert_eq!((window.id, window.z_order, window.x), (2, 1, 40));
        }
        _ => panic!("no update"),
    }
    assert!(session.window_changed(9, &views(&terminals)).is_none());
    assert!(session.window_needs_update(2, &views(&terminals)).is_none());
}

#[test]
fn closing_is_told_with_the_rest() {
    let mut session = three();
    session.handle_message(1, ClientMessage::CloseWindow { window_id: 3 });
    let terminals = parsers(&[1, 2], 4, 18);
    let messages = session.close_messages(3, &views(&terminals));
    assert_eq!(messages.len(), 2);
    assert!(matches!(messages[0], ServerMessage::WindowClosed { window_id: 3 }));
    assert!(
        matches!(&messages[1], ServerMessage::FullSync { windows, .. } if windows.len() == 2 && windows[1].focused)
    );
}

#[test]
fn solo_hides_the_others_for_a_while() {
    let mut session = three();
    session.handle_message(1, ClientMessage::MinimizeWindow { window_id: 2 });
    let plan = session.handle_message(1, ClientMessage::ToggleSolo { window_id: 1 });
    assert!(matches!(plan, Plan::Sync));
    assert!(!minimized(&session, 1) && minimized(&session, 2) && minimized(&session, 3));
    assert_eq!(session.state.active_window_id, Some(1));
    let terminals = parsers(&[1, 2, 3], 4, 18);
    assert!(matches!(
        session.full_sync(&views(&terminals)),
        ServerMessage::FullSync { solo_mode_active: true, solo_origin_id: Some(1), .. }
    ));
    session.handle_message(1, ClientMessage::ToggleSolo { window_id: 1 });
    assert!(!minimized(&session, 1) && minimized(&session, 2) && !minimized(&session, 3));
    assert!(session.state.solo.is_none());
}

#[test]
fn solo_changes_over_to_another_window() {
    let mut session = three();
    session.handle_message(1, ClientMessage::ToggleSolo { window_id: 1 });
    session.handle_message(1, ClientMessage::ToggleSolo { window_id: 2 });
    assert!(minimized(&session, 1) && !minimized(&session, 2) && minimized(&session, 3));
    session.handle_message(1, ClientMessage::ToggleSolo { window_id: 2 });
    assert!(!minimized(&session, 1) && !minimized(&session, 2) && !minimized(&session, 3));
    assert!(matches!(
        session.handle_message(1, ClientMessage::ToggleSolo { window_id: 9 }),
        Plan::Nothing
    ));
}

#[test]
fn hidden_windows_are_shown_for_a_moment() {
    let mut session = three();
    let expand = ClientMessage::TemporaryExpand { window_id: 2 };
    assert!(matches!(session.handle_message(1, expand), Plan::Nothing));
    session.handle_message(1, ClientMessage::ToggleSolo { window_id: 1 });
    let expand = ClientMessage::TemporaryExpand { window_id: 2 };
    assert!(matches!(session.handle_message(1, expand), Plan::Refresh { window_id: 2 }));
    assert!(!minimized(&session, 2));
    let collapse = ClientMessage::TemporaryCollapse { window_id: 2 };
    assert!(matches!(session.handle_message(1, collapse), Plan::Refresh { window_id: 2 }));
    assert!(minimized(&session, 2));
    let collapse = ClientMessage::TemporaryCollapse { window_id: 1 };
    assert!(matches!(session.handle_message(1, collapse), Plan::Nothing));
    assert!(!minimized(&session, 1));
}

#[test]
fn solo_ends_with_its_window() {
    let mut session = three();
    session.handle_message(1, ClientMessage::ToggleSolo { window_id: 1 });
    session.handle_message(1, ClientMessage::CloseWindow { window_id: 1 });
    assert!(session.state.solo.is_none());
    assert!(!minimized(&session, 2) && !minimized(&session, 3));
}

#[test]
fn shown_windows_are_tiled() {
    let mut session = three();
    open(&mut session, 60, 20, 20, 6);
    session.handle_message(1, ClientMessage::MinimizeWindow { window_id: 2 });
    match session.handle_message(1, ClientMessage::TileWindows) {
        Plan::ResizeAll { sizes } => assert_eq!(
            sizes,
            vec![
                TermSize { window_id: 1, rows: 27, cols: 97 },
                TermSize { window_id: 3, rows: 27, cols: 97 },
                TermSize { window_id: 4, rows: 27, cols: 97 },
            ]
        ),
        _ => panic!("nothing tiled"),
    }
    assert_eq!(rect(&session, 1), Rect::new(1, 1, 99, 29));
    assert_eq!(rect(&session, 3), Rect::new(100, 1, 99, 29));
    assert_eq!(rect(&session, 4), Rect::new(1, 30, 99, 29));
    assert_eq!(rect(&session, 2), Rect::new(40, 5, 20, 6));
    assert!(!rect(&session, 1).intersects(&rect(&session, 3)));
    assert!(!rect(&session, 1).intersects(&rect(&session, 4)));
}

#[test]
fn nothing_is_tiled_without_room() {
    let none: HashMap<usize, TerminalView> = HashMap::new();
    let mut session = three();
    session.client_connected(1, &none);
    session.handle_message(1, ClientMessage::TerminalResize { width: 21, height: 10 });
    let before = rect(&session, 1);
    match session.handle_message(1, ClientMessage::TileWindows) {
        Plan::ResizeAll { sizes } => assert!(sizes.is_empty()),
        _ => panic!("another plan"),
    }
    assert_eq!(rect(&session, 1), before);
}

#[test]
fn flat_screens_are_tiled_in_fewer_rows() {
    let none: HashMap<usize, TerminalView> = HashMap::new();
    let mut session = three();
    open(&mut session, 2, 2, 20, 6);
    session.client_connected(1, &none);
    session.handle_message(1, ClientMessage::TerminalResize { width: 44, height: 5 });
    match session.handle_message(1, ClientMessage::TileWindows) {
        Plan::ResizeAll { sizes } => assert_eq!(sizes.len(), 4),
        _ => panic!("another plan"),
    }
    for i in 0..4 {
        let id = session.state.window_order[i];
        assert_eq!(rect(&session, id), Rect::new(1 + 10 * i as u16, 1, 10, 3));
    }
}

#[test]
fn narrow_screens_are_tiled_in_fewer_columns() {
    let none: HashMap<usize, TerminalView> = HashMap::new();
    let mut session = three();
    session.client_connected(1, &none);
    session.handle_message(1, ClientMessage::TerminalResize { width: 21, height: 24 });
    session.handle_message(1, ClientMessage::TileWindows);
    for i in 0..3 {
        let id = session.state.window_order[i];
        assert_eq!(rect(&session, id), Rect::new(1, 1 + 7 * i as u16, 19, 7));
    }
}

#[test]
fn layout_holds_what_runs() {
    let mut session = Session::new();
    let mut c = config(5, 5, 20, 6);
    c.command = Some("bash".to_string());
    let w = session.open_window(&c);
    session.window_started(w);
    open(&mut session, 40, 5, 20, 6);
    session.handle_message(1, ClientMessage::FocusWindow { window_id: 1 });
    let mut running = HashMap::new();
    running.insert(
        2,
        ForegroundCommand { command: "vim".to_string(), args: vec!["x".to_string()] },
    );
    let layout = session.state.layout(&running);
    assert_eq!(layout.windows.len(), 2);
    assert_eq!(layout.windows[0].command, Some("vim".to_string()));
    assert_eq!(layout.windows[0].args, vec!["x"]);
    assert_eq!(layout.windows[0].title, Some("Terminal 2".to_string()));
    assert_eq!(layout.windows[1].command, Some("bash".to_string()));
    assert_eq!((layout.windows[1].x, layout.windows[1].width), (5, 20));
}

#[test]
fn all_windows_close_for_a_layout() {
    let mut session = three();
    session.handle_message(1, ClientMessage::ToggleSolo { window_id: 1 });
    session.close_all();
    assert!(session.state.windows.is_empty() && session.state.window_order.is_empty());
    assert_eq!(session.state.active_window_id, None);
    assert!(session.state.solo.is_none());
    assert_eq!(session.state.next_window_id, 4);
    let mut state = ServerState::new();
    state.focus_window(8);
    state.clear();
    assert_eq!(state.active_window_id, Some(8));
}

#[test]
fn saving_is_answered() {
    assert!(matches!(save_reply(None), ServerMessage::LayoutSaved));
    assert!(
        matches!(save_reply(Some("disk".to_string())), ServerMessage::Error { message } if message == "Failed to save layout: disk")
    );
}

#[test]
fn desktop_is_captured_as_text() {
    let none: HashMap<usize, TerminalView> = HashMap::new();
    let mut session = Session::new();
    open(&mut session, 2, 1, 12, 4);
    open(&mut session, 10, 3, 10, 4);
    session.handle_message(1, ClientMessage::RenameWindow { window_id: 1, title: "ab".to_string() });
    session.handle_message(1, ClientMessage::MinimizeWindow { window_id: 2 });
    session.client_connected(1, &none);
    session.handle_message(1, ClientMessage::TerminalResize { width: 16, height: 7 });
    let mut terminals = parsers(&[1, 2], 1, 3);
    terminals.get_mut(&1).unwrap().process(b"xyz");
    let expected = [
        "................",
        ". -- ab ------ .",
        ". |xyz       | .",
        ". |       -- Ter",
        ". ------------ .",
        ".              .",
        "................",
    ];
    match session.capture_reply(&views(&terminals)) {
        ServerMessage::FullCaptured { text } => {
            assert_eq!(text.split('\n').collect::<Vec<_>>(), expected)
        }
        _ => panic!("no capture"),
    }
}

#[test]
fn window_is_captured_as_text() {
    let session = three();
    let mut terminals = parsers(&[1, 2, 3], 4, 18);
    terminals.get_mut(&2).unwrap().process(b"hello\r\nworld");
    match session.state.capture_pane(&views(&terminals), 2) {
        Some(ServerMessage::PaneCaptured { window_id, text }) => {
            assert_eq!((window_id, text.as_str()), (2, "hello\nworld"));
        }
        _ => panic!("no capture"),
    }
    assert!(session.state.capture_pane(&views(&terminals), 1).is_none());
    assert!(session.state.capture_pane(&views(&terminals), 9).is_none());
}

#[test]
fn layout_restores_windows_in_place() {
    let mut session = three();
    let layout = session.state.layout(&HashMap::new());
    let before: Vec<Rect> = [1, 2, 3].iter().map(|id| rect(&session, *id)).collect();
    session.close_all();
    let mut after = Vec::new();
    for c in &layout.windows {
        let w = session.open_window(c);
        after.push(w.rect);
        session.window_started(w);
    }
    assert_eq!(after, before);
    assert_eq!(session.state.window_order, vec![4, 5, 6]);
}

#[test]
fn numbers_only_grow() {
    let mut session = three();
    session.handle_message(1, ClientMessage::CloseWindow { window_id: 3 });
    assert_eq!(open(&mut session, 1, 1, 20, 6), 4);
}

#[test]
fn session_starts_with_its_layout_or_one_window() {
    let first = starting_windows(None);
    assert_eq!(first.len(), 1);
    assert_eq!((first[0].x, first[0].y, first[0].width, first[0].height), (5, 2, 80, 24));
    assert_eq!(first[0].title, Some("Terminal 1".to_string()));
    assert!(starting_windows(Some(Layout { windows: vec![] })).is_empty());
    let layout = Layout { windows: vec![config(1, 2, 30, 9), config(4, 5, 20, 6)] };
    let windows = starting_windows(Some(layout));
    assert_eq!(windows.len(), 2);
    assert_eq!((windows[1].x, windows[1].y, windows[1].width, windows[1].height), (4, 5, 20, 6));
}

#[test]
fn layout_is_saved_and_loaded() {
    let mut session = three();
    session.handle_message(1, ClientMessage::FocusWindow { window_id: 1 });
    let rects: Vec<Rect> =
        session.state.window_order.iter().map(|id| rect(&session, *id)).collect();
    let layout = session.state.layout(&HashMap::new());
    session.close_all();
    for config in &layout.windows {
        let w = session.open_window(config);
        session.window_started(w);
    }
    assert_eq!(session.state.window_order, vec![4, 5, 6]);
    assert_eq!(session.state.active_window_id, Some(6));
    let again: Vec<Rect> =
        session.state.window_order.iter().map(|id| rect(&session, *id)).collect();
    assert_eq!(again, rects);
}

#[test]
fn dropped_history_shows_the_newest_rows() {
    let mut session = three();
    let mut terminals = parsers(&[1, 2, 3], 4, 18);
    for i in 0..20 {
        terminals.get_mut(&2).unwrap().process(format!("{}\r\n", i).as_bytes());
    }
    session.handle_message(1, ClientMessage::ScrollTo { window_id: 2, offset: 9 });
    assert_eq!(session.state.windows.get(&2).unwrap().scroll_offset, 9);
    match session.history_dropped(2, &views(&terminals)) {
        Some(ServerMessage::WindowUpdate { window }) => {
            assert_eq!((window.id, window.scroll_offset), (2, 0));
        }
        _ => panic!("another message"),
    }
    assert_eq!(session.state.windows.get(&2).unwrap().scroll_offset, 0);
    assert!(session.history_dropped(7, &views(&terminals)).is_none());
}

#[test]
fn active_window_is_always_in_front() {
    let mut session = three();
    let in_front = |session: &Session| {
        assert_eq!(session.state.active_window_id, session.state.window_order.last().copied());
    };
    in_front(&session);
    for msg in [
        ClientMessage::FocusWindow { window_id: 1 },
        ClientMessage::MinimizeWindow { window_id: 1 },
        ClientMessage::ToggleSolo { window_id: 2 },
        ClientMessage::TileWindows,
        ClientMessage::CloseWindow { window_id: 3 },
        ClientMessage::CloseWindow { window_id: 2 },
    ] {
        session.handle_message(1, msg);
        in_front(&session);
    }
    assert_eq!(session.state.active_window_id, Some(1));
    session.close_all();
    in_front(&session);
}
