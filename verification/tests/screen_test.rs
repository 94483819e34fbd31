//! The emulated screen, read through the terminal emulator itself.

use termplex::protocol::Cell;
use termplex::screen::{read_cells, read_cursor, wants_mouse};
use termplex::terminal_screen::TerminalScreen;

fn row(cells: &[Cell], width: usize, y: usize) -> String {
    cells[y * width..(y + 1) * width].iter().map(|c| c.ch).collect()
}

#[test]
fn text_and_colours_are_read() {
    let mut parser = vt100::Parser::new(3, 8, 100);
    parser.process(b"ab\x1b[1;31mC\x1b[0;3;4;38;2;9;8;7;48;5;208md");
    let cells = read_cells(parser.screen(), 8, 3);
    assert_eq!(cells.len(), 24);
    assert_eq!(row(&cells, 8, 0), "abCd    ");
    assert!(cells[0] == Cell::new('a', (200, 200, 200), (0, 0, 0), false, false, false));
    assert!(cells[2] == Cell::new('C', (205, 0, 0), (0, 0, 0), true, false, false));
    assert!(cells[3] == Cell::new('d', (9, 8, 7), (255, 102, 0), false, true, true));
    assert!(cells[4] == Cell::default());
}

#[test]
fn first_character_stands_for_a_cell() {
    let mut parser = vt100::Parser::new(1, 4, 0);
    parser.process("e\u{301}x".as_bytes());
    let cells = read_cells(parser.screen(), 4, 1);
    assert_eq!(cells[0].ch, 'e');
    assert_eq!(cells[1].ch, 'x');
}

#[test]
fn places_outside_the_screen_are_blank() {
    let mut parser = vt100::Parser::new(1, 2, 0);
    parser.process(b"xy");
    let cells = read_cells(parser.screen(), 4, 2);
    assert_eq!(row(&cells, 4, 0), "xy  ");
    assert!(cells[2] == Cell::default());
    assert!(cells[7] == Cell::default());
    assert!(read_cells(parser.screen(), 0, 5).is_empty());
}

#[test]
fn cursor_is_read_unless_hidden() {
    let mut parser = vt100::Parser::new(4, 10, 0);
    parser.process(b"\x1b[3;5H");
    assert_eq!(read_cursor(parser.screen()), Some((2, 4)));
    parser.process(b"\x1b[?25l");
    assert_eq!(read_cursor(parser.screen()), None);
}

#[test]
fn mouse_is_wanted_in_every_mode_but_none() {
    for mode in [9, 1000, 1002, 1003] {
        let mut parser = vt100::Parser::new(2, 2, 0);
        assert!(!wants_mouse(parser.screen()));
        parser.process(format!("\x1b[?{}h", mode).as_bytes());
        assert!(wants_mouse(parser.screen()));
        parser.process(format!("\x1b[?{}l", mode).as_bytes());
        assert!(!wants_mouse(parser.screen()));
    }
}

fn lines(screen: &TerminalScreen, width: usize, height: usize) -> Vec<String> {
    let cells = read_cells(screen.screen(), width as u16, height as u16);
    (0..height).map(|y| row(&cells, width, y)).collect()
}

fn fill(screen: &mut TerminalScreen, from: usize, to: usize) {
    for i in from..to {
        screen.read(format!("{}\r\n", i).as_bytes());
    }
}

#[test]
fn scrolling_shows_the_history() {
    let mut screen = TerminalScreen::new(2, 4);
    screen.read(b"1\r\n2\r\n3\r\n4\r\n5");
    assert_eq!(screen.history_size(), 3);
    assert_eq!(lines(&screen, 4, 2), ["4   ", "5   "]);
    screen.scroll(2);
    assert_eq!(lines(&screen, 4, 2), ["2   ", "3   "]);
    assert_eq!(screen.history_size(), 3);
    assert_eq!(lines(&screen, 4, 2), ["2   ", "3   "]);
    screen.scroll(1000);
    assert_eq!(lines(&screen, 4, 2), ["1   ", "2   "]);
    screen.scroll(1);
    assert_eq!(lines(&screen, 4, 2), ["3   ", "4   "]);
}

#[test]
fn resizing_cuts_off_and_fills_up() {
    let mut screen = TerminalScreen::new(2, 4);
    screen.read(b"abcd\r\nefgh");
    screen.resize(3, 2);
    assert_eq!(lines(&screen, 2, 3), ["ab", "ef", "  "]);
    assert_eq!(read_cursor(screen.screen()), Some((1, 1)));
    screen.resize(1, 3);
    assert_eq!(lines(&screen, 3, 1), ["ab "]);
}

#[test]
fn new_screens_are_blank() {
    let mut screen = TerminalScreen::new(2, 3);
    assert_eq!(lines(&screen, 3, 2), ["   ", "   "]);
    assert_eq!(read_cursor(screen.screen()), Some((0, 0)));
    assert!(!wants_mouse(screen.screen()));
    assert_eq!(screen.history_size(), 0);
    assert!(!screen.take_dropped());
}

#[test]
fn history_is_limited() {
    let mut screen = TerminalScreen::new(2, 8);
    fill(&mut screen, 0, 2900);
    assert_eq!(screen.history_size(), 2899);
    fill(&mut screen, 2900, 3200);
    assert_eq!(screen.history_size(), 3000);
    screen.scroll(3000);
    assert_eq!(lines(&screen, 8, 1), ["199     "]);
}

#[test]
fn sequence_drops_the_history_but_not_the_screen() {
    let mut screen = TerminalScreen::new(3, 6);
    fill(&mut screen, 0, 10);
    screen.scroll(4);
    screen.read(b"\x1b[1;31mred\x1b[?1000h\x1b[3Jx");
    assert_eq!(screen.history_size(), 0);
    assert!(screen.take_dropped());
    assert!(!screen.take_dropped());
    assert_eq!(lines(&screen, 6, 3), ["8     ", "9     ", "redx  "]);
    let cells = read_cells(screen.screen(), 6, 3);
    assert!(cells[15] == Cell::new('x', (205, 0, 0), (0, 0, 0), true, false, false));
    assert_eq!(read_cursor(screen.screen()), Some((2, 4)));
    assert!(wants_mouse(screen.screen()));
}

#[test]
fn rows_after_the_sequence_are_kept() {
    let mut screen = TerminalScreen::new(2, 4);
    fill(&mut screen, 0, 5);
    screen.read(b"a\r\nb\x1b[3J\r\nc\r\nd");
    assert_eq!(screen.history_size(), 2);
    screen.scroll(2);
    assert_eq!(lines(&screen, 4, 2), ["a   ", "b   "]);
    fill(&mut screen, 0, 3500);
    assert_eq!(screen.history_size(), 3000);
}

#[test]
fn sequence_in_pieces_drops_the_history() {
    let mut screen = TerminalScreen::new(2, 4);
    fill(&mut screen, 0, 5);
    screen.read(b"\x1b[");
    assert!(screen.history_size() > 0);
    screen.read(b"3");
    screen.read(b"J!");
    assert_eq!(screen.history_size(), 0);
    assert_eq!(lines(&screen, 4, 2), ["4   ", "!   "]);
    screen.read(b"\r\n?");
    assert_eq!(screen.history_size(), 1);
    assert!(screen.take_dropped());
}

#[test]
fn history_is_dropped_on_request() {
    let mut screen = TerminalScreen::new(2, 4);
    fill(&mut screen, 0, 5);
    screen.clear_history();
    assert_eq!(screen.history_size(), 0);
    assert_eq!(lines(&screen, 4, 2), ["4   ", "    "]);
    fill(&mut screen, 5, 7);
    assert_eq!(screen.history_size(), 2);
}

#[test]
fn clear_on_the_alternate_screen_drops_the_history_of_the_main_one() {
    let mut screen = TerminalScreen::new(2, 6);
    fill(&mut screen, 0, 5);
    screen.read(b"main\x1b[?1049h\x1b[Halt\x1b[3J.");
    assert_eq!(screen.history_size(), 0);
    assert_eq!(lines(&screen, 6, 2), ["alt.  ", "      "]);
    assert!(screen.take_dropped());
    screen.read(b"..\x1b[?1049l\r\na\r\nb\r\nc");
    assert!(!screen.take_dropped());
    assert_eq!(lines(&screen, 6, 2), ["b     ", "c     "]);
    assert_eq!(screen.history_size(), 3);
    screen.scroll(100);
    assert_eq!(lines(&screen, 6, 2), ["4     ", "main  "]);
    screen.scroll(0);
    screen.read(b"\x1b[?47h");
    screen.clear_history();
    screen.read(b"\x1b[?47l");
    assert_eq!(screen.history_size(), 0);
    assert_eq!(lines(&screen, 6, 2), ["b     ", "c     "]);
}

#[test]
fn terminal_that_starts_over_shows_its_new_history() {
    let mut screen = TerminalScreen::new(2, 4);
    fill(&mut screen, 0, 5);
    screen.clear_history();
    screen.read(b"\x1bcx\r\ny\r\nz");
    assert_eq!(screen.history_size(), 1);
    screen.scroll(1);
    assert_eq!(lines(&screen, 4, 2), ["x   ", "y   "]);
}

#[test]
fn dropping_the_history_leaves_the_terminal_as_it_was() {
    let mut screen = TerminalScreen::new(4, 6);
    fill(&mut screen, 0, 9);
    screen.read(b"\x1b[2;3r\x1b[3;5H\x1b7\x1b[1;1H\x1b[");
    screen.clear_history();
    screen.read(b"4;1Hlow\x1b8<\r\nup");
    assert_eq!(lines(&screen, 6, 4), ["6     ", "8   < ", "up    ", "low   "]);
    assert_eq!(screen.history_size(), 0);
    screen.read(b"\x1b[r\x1b[4;1H\r\n");
    assert_eq!(screen.history_size(), 1);
}

#[test]
fn view_stays_with_its_rows() {
    let mut screen = TerminalScreen::new(2, 4);
    fill(&mut screen, 0, 5);
    screen.clear_history();
    fill(&mut screen, 5, 10);
    screen.scroll(2);
    let seen = lines(&screen, 4, 2);
    assert_eq!(seen, ["7   ", "8   "]);
    fill(&mut screen, 10, 13);
    assert_eq!(lines(&screen, 4, 2), seen);
    assert_eq!(screen.history_size(), 8);
    screen.scroll(100);
    assert_eq!(lines(&screen, 4, 2), ["4   ", "5   "]);
}

#[test]
fn dropped_rows_make_way_for_new_ones() {
    let mut screen = TerminalScreen::new(2, 8);
    fill(&mut screen, 0, 3500);
    screen.clear_history();
    fill(&mut screen, 3500, 4500);
    assert_eq!(screen.history_size(), 1000);
    fill(&mut screen, 4500, 8000);
    assert_eq!(screen.history_size(), 3000);
    screen.scroll(3000);
    assert_eq!(lines(&screen, 8, 1), ["4999    "]);
}

#[test]
fn cut_wide_character_is_erased() {
    let mut screen = TerminalScreen::new(2, 6);
    screen.read("\x1b[1;3H\u{4e16}".as_bytes());
    screen.read("\x1b[2;2H\u{4e16}x\x1b[2;1H".as_bytes());
    screen.resize(2, 3);
    assert_eq!(lines(&screen, 3, 2), ["   ", " \u{4e16} "]);
    assert_eq!(read_cursor(screen.screen()), Some((1, 0)));
    screen.resize(2, 6);
    screen.read("\x1b[1;4H\u{4e16}\x1b[1;3Ha\x1b[1;1H\x1b[4P\x1b[K".as_bytes());
    assert_eq!(lines(&screen, 6, 2), ["      ", " \u{4e16}    "]);
    screen.read(b"ok");
    assert_eq!(lines(&screen, 6, 1), ["ok    "]);
}

#[test]
fn cut_wide_character_on_the_hidden_screen_is_erased() {
    let mut screen = TerminalScreen::new(2, 6);
    screen.read("\x1b[1;3H\u{4e16}\x1b[?1049h\x1b[Ha\u{4e16}b".as_bytes());
    screen.resize(2, 3);
    assert_eq!(lines(&screen, 3, 2), ["a\u{4e16} ", "   "]);
    screen.resize(2, 6);
    screen.read(b"\x1b[?1049l");
    assert_eq!(lines(&screen, 6, 2), ["      ", "      "]);
    screen.read(b"\x1b[1;3Hx\x1b[1;1H\x1b[2P\x1b[K");
    assert_eq!(lines(&screen, 6, 2), ["      ", "      "]);
}

#[test]
fn narrowing_keeps_what_is_not_cut() {
    let mut screen = TerminalScreen::new(3, 8);
    screen.read("0\r\n1\r\n2\r\n\u{e9}\u{4e16}56\r\nend".as_bytes());
    screen.scroll(1);
    screen.resize(3, 4);
    assert_eq!(screen.history_size(), 2);
    assert_eq!(lines(&screen, 4, 3), ["1   ", "2   ", "\u{e9}\u{4e16} 5"]);
    assert_eq!(read_cursor(screen.screen()), Some((2, 3)));
    assert!(!screen.take_dropped());
}

#[test]
fn narrow_screens_take_what_has_room() {
    let mut screen = TerminalScreen::new(2, 2);
    screen.read("a\u{17d8}b\u{17d8}\u{4e16}c\u{17d8}".as_bytes());
    assert_eq!(lines(&screen, 2, 2), ["ab", "c "]);
    let mut screen = TerminalScreen::new(2, 3);
    screen.read("\u{17d8}\u{17d8}\u{17d8}\u{4e16}z".as_bytes());
    assert_eq!(lines(&screen, 3, 2), ["\u{17d8}  ", "\u{4e16} z"]);
}

#[test]
fn single_row_wraps_into_the_history() {
    let mut screen = TerminalScreen::new(1, 4);
    screen.read(b"abcd\x1b[1mefg\x1b[0m");
    assert_eq!(lines(&screen, 4, 1), ["efg "]);
    assert_eq!(read_cursor(screen.screen()), Some((0, 3)));
    assert_eq!(screen.history_size(), 1);
    screen.read("\u{4e16}\u{4e16}\u{4e16}".as_bytes());
    assert_eq!(lines(&screen, 4, 1), ["\u{4e16}   "]);
    assert_eq!(screen.history_size(), 3);
    screen.read(b"\r\nabcd\r\nx");
    assert_eq!(screen.history_size(), 5);
    assert_eq!(lines(&screen, 4, 1), ["x   "]);
    screen.scroll(1);
    assert_eq!(lines(&screen, 4, 1), ["abcd"]);
}

#[test]
fn full_line_of_a_single_row_takes_sequences() {
    let mut screen = TerminalScreen::new(1, 4);
    screen.read(b"abcd\x1b[K\x1b[31m");
    assert_eq!(lines(&screen, 4, 1), ["abcd"]);
    assert_eq!(screen.history_size(), 0);
    screen.read(b"\x1b[2Dx");
    assert_eq!(lines(&screen, 4, 1), ["abxd"]);
    screen.read(b"\r\x1b[4CX\x1b[?1049hfull\x1b[?1049l");
    assert_eq!(lines(&screen, 4, 1), ["abxX"]);
    assert_eq!(screen.history_size(), 0);
}

#[test]
fn narrow_text_is_cut_and_wide_text_mended_together() {
    let mut screen = TerminalScreen::new(3, 6);
    screen.read("\u{4e16}\u{4e16}\u{4e16}\r\na\u{4e16}\u{4e16}\r\n\x1b[2;6H".as_bytes());
    screen.resize(3, 5);
    assert_eq!(lines(&screen, 5, 3), ["\u{4e16} \u{4e16}  ", "a\u{4e16} \u{4e16} ", "     "]);
    assert_eq!(read_cursor(screen.screen()), Some((1, 4)));
    screen.resize(3, 4);
    assert_eq!(lines(&screen, 4, 3), ["\u{4e16} \u{4e16} ", "a\u{4e16}  ", "    "]);
    screen.resize(1, 3);
    assert_eq!(lines(&screen, 3, 1), ["\u{4e16}  "]);
    screen.resize(1, 2);
    assert_eq!(lines(&screen, 2, 1), ["\u{4e16} "]);
    screen.resize(1, 1);
    assert_eq!(lines(&screen, 1, 1), [" "]);
    screen.read(b"abc");
    assert_eq!(lines(&screen, 1, 1), ["c"]);
    assert_eq!(screen.history_size(), 2);
}

/// Fails where a half of a wide character is without the other.
fn assert_whole(screen: &TerminalScreen) {
    let s = screen.screen();
    let (rows, cols) = s.size();
    for r in 0..rows {
        for c in 0..cols {
            let cell = s.cell(r, c).unwrap();
            let next = s.cell(r, c + 1);
            assert_eq!(cell.is_wide(), next.is_some_and(|n| n.is_wide_continuation()));
            assert!(c > 0 || !cell.is_wide_continuation());
        }
    }
}

#[test]
fn no_output_breaks_a_screen() {
    let pool: [&str; 40] = [
        "a", "hello", "\u{4e16}", "\u{4e16}\u{754c}", "\u{17d8}", "\u{e9}", "e\u{301}", "\u{301}",
        "\t", "\r", "\n", "\r\n", "\x08", "\x1b[K", "\x1b[1K", "\x1b[2K", "\x1b[J", "\x1b[1J",
        "\x1b[2J", "\x1b[3J", "\x1b[P", "\x1b[3P", "\x1b[@", "\x1b[4@", "\x1b[X", "\x1b[5X",
        "\x1b[L", "\x1b[2M", "\x1b[S", "\x1b[2T", "\x1b[2;3r", "\x1b[r", "\x1b[?6h", "\x1b[?6l",
        "\x1b7", "\x1b8", "\x1bM", "\x1b[?1049h", "\x1b[?1049l", "\x1b[?47h",
    ];
    let rare: [&str; 6] = ["\x1b[?47l", "\x1bc", "\x1b]0;title\x07", "\x1b[", "\u{1f600}", "\x1bP1$"];
    let mut seed: u64 = 12345;
    let mut next = |n: u64| {
        seed = seed.wrapping_mul(6364136223846793005).wrapping_add(1442695040888963407);
        (seed >> 33) % n
    };
    for _ in 0..150 {
        let mut screen = TerminalScreen::new(1 + next(4) as u16, 1 + next(9) as u16);
        for _ in 0..120 {
            match next(24) {
                0 => screen.resize(1 + next(5) as u16, 1 + next(9) as u16),
                1 => screen.scroll(next(6) as usize),
                2 => screen.clear_history(),
                3 => {
                    let place = format!("\x1b[{};{}H", 1 + next(5), 1 + next(10));
                    screen.read(place.as_bytes());
                }
                4 => screen.read(rare[next(6) as usize].as_bytes()),
                5 => screen.read(&[next(256) as u8]),
                _ => {
                    let piece = pool[next(40) as usize].as_bytes();
                    let cut = next(piece.len() as u64 + 1) as usize;
                    screen.read(&piece[..cut]);
                    screen.read(&piece[cut..]);
                }
            }
            let size = screen.history_size();
            assert!(screen.screen().scrollback() <= size && size <= 3000);
            if screen.screen().scrollback() == 0 {
                assert_whole(&screen);
            }
        }
    }
}
