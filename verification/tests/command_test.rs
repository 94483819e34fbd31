//! What the commands of the program ask of a server.

use termplex::command::{
    address, capture_request, capture_step, connect_step, first_messages, launch_request,
    server_args, CaptureStep, StartStep,
};
use termplex::protocol::{ClientMessage, ServerMessage};

#[test]
fn server_is_started_with_its_address() {
    assert_eq!(address("localhost", 9876), "localhost:9876");
    assert_eq!(
        server_args("127.0.0.1", 80, Some("l.json".to_string())),
        vec!["--server", "--host", "127.0.0.1", "--port", "80", "l.json"]
    );
    assert_eq!(
        server_args("h", 1, None),
        vec!["--server", "--host", "h", "--port", "1"]
    );
}

#[test]
fn launch_asks_for_a_window() {
    match launch_request("htop".to_string(), vec!["-d".to_string()]) {
        ClientMessage::CreateWindow { x, y, width, height, command, args } => {
            assert_eq!((x, y, width, height), (10, 10, 82, 26));
            assert_eq!(command, Some("htop".to_string()));
            assert_eq!(args, vec!["-d"]);
        }
        _ => panic!("another message"),
    }
}

#[test]
fn capture_asks_for_a_window_or_all() {
    assert!(matches!(capture_request(Some(4)), ClientMessage::CapturePane { window_id: 4 }));
    assert!(matches!(capture_request(None), ClientMessage::CaptureFull));
}

#[test]
fn capture_ends_with_a_text_or_an_error() {
    let full = ServerMessage::FullCaptured { text: "desk".to_string() };
    assert!(matches!(capture_step(full), CaptureStep::Done { text } if text == "desk"));
    let pane = ServerMessage::PaneCaptured { window_id: 1, text: "pane".to_string() };
    assert!(matches!(capture_step(pane), CaptureStep::Done { text } if text == "pane"));
    let error = ServerMessage::Error { message: "no".to_string() };
    assert!(
        matches!(capture_step(error), CaptureStep::Failed { message } if message == "Server error: no")
    );
    assert!(matches!(capture_step(ServerMessage::LayoutSaved), CaptureStep::Wait));
    assert!(matches!(capture_step(ServerMessage::Shutdown), CaptureStep::Wait));
}

#[test]
fn server_is_started_once_and_tried_ten_times() {
    assert_eq!(connect_step(None, true), StartStep::Ready);
    assert_eq!(connect_step(None, false), StartStep::Start);
    for tried in 0..10 {
        assert_eq!(connect_step(Some(tried), false), StartStep::WaitAndTry);
        assert_eq!(connect_step(Some(tried), true), StartStep::Ready);
    }
    assert_eq!(connect_step(Some(10), true), StartStep::Ready);
    assert_eq!(connect_step(Some(10), false), StartStep::GiveUp);
}

#[test]
fn client_tells_its_size_first() {
    let first = first_messages(80, 24, None);
    assert_eq!(first.len(), 1);
    assert!(matches!(first[0], ClientMessage::Connect { term_size: (80, 24) }));
    let first = first_messages(7, 5, Some("l.json".to_string()));
    assert_eq!(first.len(), 2);
    assert!(matches!(first[0], ClientMessage::Connect { term_size: (7, 5) }));
    assert!(matches!(&first[1], ClientMessage::LoadLayout { path } if path == "l.json"));
}
