//! Programs in terminals, the foreground, and dropped histories.

use termplex::geometry::Rect;
use termplex::terminal::{
    command_line, exit_code, foreground_command, should_hang_up, tty_name, HistoryWatch, TermEvent,
};
use termplex::window::Window;

fn s(t: &str) -> String {
    t.to_string()
}

#[test]
fn shells_are_started_as_login_shells() {
    let c = command_line(None, vec![], Some(s("/bin/zsh")), false);
    assert_eq!((c.program, c.args, c.sets_term), (s("/bin/zsh"), vec![s("-l")], true));
    let c = command_line(None, vec![], None, false);
    assert_eq!((c.program, c.args), (s("/bin/bash"), vec![s("-l")]));
    let c = command_line(Some(s("/usr/bin/fish")), vec![], None, false);
    assert_eq!((c.program, c.args), (s("/usr/bin/fish"), vec![s("-l")]));
    let c = command_line(Some(s("bash")), vec![s("-c"), s("ls")], None, false);
    assert_eq!((c.program, c.args), (s("bash"), vec![s("-c"), s("ls")]));
}

#[test]
fn other_programs_get_just_their_arguments() {
    let c = command_line(Some(s("htop")), vec![], Some(s("/bin/zsh")), false);
    assert_eq!((c.program, c.args), (s("htop"), vec![]));
    let c = command_line(Some(s("vim")), vec![s("a.txt")], None, false);
    assert_eq!((c.program, c.args), (s("vim"), vec![s("a.txt")]));
}

#[test]
fn windows_has_shells_of_its_own() {
    let c = command_line(None, vec![], None, true);
    assert_eq!((c.program, c.args, c.sets_term), (s("cmd.exe"), vec![], false));
    let c = command_line(None, vec![], Some(s("pwsh")), true);
    assert_eq!((c.program, c.args), (s("pwsh"), vec![]));
}

#[test]
fn exit_codes_and_hanging_up() {
    assert_eq!(exit_code(true), 0);
    assert_eq!(exit_code(false), 1);
    assert!(should_hang_up(true, 7));
    assert!(!should_hang_up(true, 0));
    assert!(!should_hang_up(false, 7));
    assert_ne!(TermEvent::Update, TermEvent::Closed);
}

#[test]
fn terminal_of_a_process_is_trimmed() {
    assert_eq!(tty_name("  pts/3 \n"), Some(s("pts/3")));
    assert_eq!(tty_name("pts/3"), Some(s("pts/3")));
    assert_eq!(tty_name(" ??\n"), None);
    assert_eq!(tty_name(" \n"), None);
    assert_eq!(tty_name(""), None);
}

#[test]
fn foreground_process_is_found() {
    let list = "STAT COMMAND\nSs   -bash\nS+   vim -p a.txt b.txt\nR+   ps -t pts/3\n";
    let f = foreground_command(list).unwrap();
    assert_eq!(f.command, "vim");
    assert_eq!(f.args, vec!["-p", "a.txt", "b.txt"]);
}

#[test]
fn shells_and_background_processes_are_passed_over() {
    let list = "STAT COMMAND\n\n  Ss+  -/bin/bash\nSs+ --zsh -i\nS    sleep 5\nS+\nS+ /usr/bin/top\n";
    let f = foreground_command(list).unwrap();
    assert_eq!(f.command, "/usr/bin/top");
    assert!(f.args.is_empty());
    assert!(foreground_command("STAT COMMAND\nSs+ /bin/dash\nS+ sh\n").is_none());
}

#[test]
fn first_line_is_a_heading() {
    assert!(foreground_command("S+ vim").is_none());
    assert!(foreground_command("").is_none());
    assert_eq!(foreground_command("x\nS+ a/./bash/. q\nS+ b").unwrap().command, "b");
    assert_eq!(foreground_command("x\nS+ bash/..").unwrap().command, "bash/..");
    assert_eq!(foreground_command("x\r\nS+ vim x\r\n").unwrap().args, vec!["x"]);
}

#[test]
fn history_is_dropped_by_its_sequence() {
    let mut watch = HistoryWatch::new();
    assert_eq!(watch.feed(b"hello \x1b[2J"), None);
    assert_eq!(watch.feed(b"a\x1b[3Jb"), Some(5));
    assert_eq!(watch.feed(b"more"), None);
    assert_eq!(watch.feed(b"\x1b[3J\x1b[3J."), Some(8));
}

#[test]
fn sequence_in_pieces_is_noticed_once() {
    let mut watch = HistoryWatch::new();
    assert_eq!(watch.feed(b"x\x1b"), None);
    assert_eq!(watch.feed(b"["), None);
    assert_eq!(watch.feed(b""), None);
    assert_eq!(watch.feed(b"3"), None);
    assert_eq!(watch.feed(b"J..."), Some(1));
    assert_eq!(watch.feed(b"J"), None);
    assert_eq!(watch.feed(b"\x1b\x1b[3"), None);
    assert_eq!(watch.feed(b"J"), Some(1));
}

#[test]
fn window_knows_the_size_of_its_terminal() {
    let mut w = Window::new(s("t"), Rect::new(1, 2, 80, 24), None, vec![s("x")]);
    assert_eq!(w.terminal_size(), (22, 78));
    assert!(!w.focused && !w.minimized && w.saved_rect.is_none());
    assert_eq!(w.resize(Rect::new(0, 0, 1, 1)), (0, 0));
    assert_eq!(w.rect, Rect::new(0, 0, 1, 1));
    assert_eq!(w.title, "t");
}
