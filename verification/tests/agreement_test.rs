//! A client that follows the server shows what the server has.

use std::collections::HashMap;

use termplex::client::Client;
use termplex::geometry::Rect;
use termplex::protocol::{ClientMessage, ServerMessage, WindowConfig};
use termplex::session::Session;
use termplex::snapshot::{apply_cells, changed_cells, TerminalView};
use termplex::protocol::Cell;
use termplex::widgets::TerminalWidget;

fn view<'a>(parser: &'a vt100::Parser) -> TerminalView<'a> {
    TerminalView { running: true, exit_code: None, scrollback_size: 0, screen: parser.screen() }
}

#[test]
fn client_follows_the_server() {
    let mut session = Session::new();
    let mut parsers: HashMap<usize, vt100::Parser> = HashMap::new();
    for i in 0..3u16 {
        let config = WindowConfig {
            x: 3 * i,
            y: 2 * i,
            width: 20,
            height: 6,
            command: None,
            args: vec![],
            title: None,
        };
        let w = session.open_window(&config);
        parsers.insert(w.id, vt100::Parser::new(w.rows, w.cols, 3000));
        session.window_started(w);
    }
    session.handle_message(1, ClientMessage::FocusWindow { window_id: 2 });
    let mut client = Client::new(Rect::new(0, 0, 80, 24));
    let mut out = Vec::new();
    let terms: HashMap<usize, TerminalView> =
        parsers.iter().map(|(id, p)| (*id, view(p))).collect();
    client.handle_server(session.client_connected(1, &terms), 0, &mut out);
    assert_eq!(client.windows.len(), 3);
    assert_eq!(client.active_window_id, session.state.active_window_id);
    for id in 1..=3 {
        let expected = session.state.get_window_state(&terms, id).unwrap();
        let shown = client.windows.iter().find(|w| w.id == id).unwrap();
        assert_eq!((shown.x, shown.y, shown.z_order), (expected.x, expected.y, expected.z_order));
        assert!(shown.screen == expected.screen);
    }
    drop(terms);
    for (step, output) in [&b"hello"[..], b"\x1b[31m world\r\n$ ", b"", b"\x1b[2J\x1b[3;3Hx"]
        .iter()
        .enumerate()
    {
        parsers.get_mut(&2).unwrap().process(output);
        let terms: HashMap<usize, TerminalView> =
            parsers.iter().map(|(id, p)| (*id, view(p))).collect();
        if let Some(msg) = session.window_needs_update(2, &terms) {
            client.handle_server(msg, 0, &mut out);
        }
        let expected = session.state.get_window_state(&terms, 2).unwrap();
        let shown = client.windows.iter().find(|w| w.id == 2).unwrap();
        assert!(shown.screen == expected.screen, "after step {}", step);
        assert_eq!(shown.cursor_pos, expected.cursor_pos);
    }
}

#[test]
fn changes_give_the_new_screen() {
    let cell = |ch: char| Cell::new(ch, (1, 2, 3), (4, 5, 6), false, false, false);
    let before: Vec<Cell> = "abcdef".chars().map(cell).collect();
    let after: Vec<Cell> = "abXdeY".chars().map(cell).collect();
    let changes = changed_cells(&before, &after);
    assert_eq!(changes.iter().map(|c| c.0).collect::<Vec<_>>(), vec![2, 5]);
    let mut screen = before.clone();
    apply_cells(&mut screen, &changes);
    assert!(screen == after);
    assert!(changed_cells(&after, &after).is_empty());
}

#[test]
fn window_is_painted_as_its_terminal_shows_it() {
    let mut session = Session::new();
    let config = WindowConfig {
        x: 3,
        y: 2,
        width: 12,
        height: 6,
        command: None,
        args: vec![],
        title: None,
    };
    let w = session.open_window(&config);
    let mut parser = vt100::Parser::new(w.rows, w.cols, 3000);
    parser.process(b"one\r\ntwo\r\n012345678\x1b[4;10H!");
    let id = session.window_started(w);
    let terms = HashMap::from([(id, view(&parser))]);
    let state = session.state.get_window_state(&terms, id).unwrap();
    let paints = TerminalWidget::new(&state).render(Rect::new(4, 3, 9, 4));
    let lines: Vec<String> =
        paints.chunks(9).map(|row| row.iter().map(|p| p.ch).collect()).collect();
    assert_eq!(lines, ["one      ", "two      ", "012345678", "         "]);
    let paints = TerminalWidget::new(&state).render(Rect::new(13, 3, 1, 4));
    assert_eq!(paints[3].ch, '!');
}

#[test]
fn messages_act_in_their_order() {
    let mut client = Client::new(Rect::new(0, 0, 80, 24));
    let mut out = Vec::new();
    let sync = |solo_mode_active| ServerMessage::FullSync {
        windows: vec![],
        solo_mode_active,
        solo_origin_id: None,
    };
    assert!(!client.handle_server(sync(true), 0, &mut out));
    assert!(client.solo_mode_active);
    assert!(!client.handle_server(sync(false), 0, &mut out));
    assert!(!client.solo_mode_active);
    assert!(client.handle_server(ServerMessage::Shutdown, 0, &mut out));
}
