//! Cells and the defaults of the protocol.

use termplex::protocol::{Cell, ClientMessage, Layout, DEFAULT_BIND_ADDR, DEFAULT_PORT};

#[test]
fn cell_attributes_are_kept_apart() {
    let c = Cell::new('x', (1, 2, 3), (4, 5, 6), true, false, true);
    assert_eq!(c.ch, 'x');
    assert_eq!(c.fg, (1, 2, 3));
    assert_eq!(c.bg, (4, 5, 6));
    assert_eq!(c.attrs, 5);
    assert!(c.bold());
    assert!(!c.italic());
    assert!(c.underline());
    let d = Cell::new('x', (1, 2, 3), (4, 5, 6), false, true, false);
    assert_eq!(d.attrs, 2);
    assert!(!d.bold() && d.italic() && !d.underline());
}

#[test]
fn blank_cell_is_grey_on_black() {
    let c = Cell::default();
    assert_eq!(c.ch, ' ');
    assert_eq!(c.fg, (200, 200, 200));
    assert_eq!(c.bg, (0, 0, 0));
    assert_eq!(c.attrs, 0);
    assert!(c == Cell::new(' ', (200, 200, 200), (0, 0, 0), false, false, false));
    assert!(c != Cell::new(' ', (200, 200, 200), (0, 0, 1), false, false, false));
}

#[test]
fn defaults_of_the_protocol() {
    assert_eq!(DEFAULT_PORT, 9876);
    assert_eq!(DEFAULT_BIND_ADDR, "127.0.0.1");
    assert!(Layout::default().windows.is_empty());
}

#[test]
fn messages_are_copied() {
    let msg = ClientMessage::CreateWindow {
        x: 1,
        y: 2,
        width: 3,
        height: 4,
        command: Some("top".to_string()),
        args: vec!["-b".to_string(), "x".to_string()],
    };
    assert_eq!(format!("{:?}", msg.clone()), format!("{:?}", msg));
    let msg = ClientMessage::Input { window_id: 4, data: vec![1, 2, 3] };
    assert_eq!(format!("{:?}", msg.clone()), format!("{:?}", msg));
}
