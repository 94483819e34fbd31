//! What is painted, and where.

use termplex::client::RenameState;
use termplex::geometry::Rect;
use termplex::hits::Menu;
use termplex::protocol::{Cell, WindowState};
use termplex::scene::{
    back_to_front, deskbar_area, dropdown_rect, entry_rect, entry_style, entry_text, item_rect,
    menu_items, menu_label, menu_start, window_scene, EntryStyle,
};
use termplex::widgets::{Paint, PaintColor, TerminalWidget};

fn window(id: usize, x: u16, y: u16, width: u16, height: u16, z: usize) -> WindowState {
    WindowState {
        id,
        title: "logs".to_string(),
        x,
        y,
        width,
        height,
        minimized: false,
        focused: false,
        running: true,
        exit_code: None,
        scroll_offset: 0,
        scrollback_size: 0,
        fullscreen: false,
        screen: vec![Cell::default(); (width.max(2) - 2) as usize * (height.max(2) - 2) as usize],
        cursor_pos: None,
        cursor_visible: false,
        mouse_reporting: false,
        z_order: z,
    }
}

fn text(paints: &[Paint], width: usize, row: usize) -> String {
    paints[row * width..(row + 1) * width].iter().map(|p| p.ch).collect()
}

#[test]
fn cells_are_painted_row_by_row() {
    let mut w = window(1, 2, 3, 7, 4, 0);
    for (i, ch) in "abcd.efgh.".chars().enumerate() {
        w.screen[i] = Cell::new(ch, (i as u8, 0, 0), (0, 1, 0), i == 1, i == 2, i == 3);
    }
    let area = Rect::new(3, 4, 4, 2);
    let paints = TerminalWidget::new(&w).render(area);
    assert_eq!(paints.len(), 8);
    assert_eq!(text(&paints, 4, 0), "abcd");
    assert_eq!(text(&paints, 4, 1), "efgh");
    assert_eq!((paints[5].x, paints[5].y), (4, 5));
    assert_eq!(paints[5].fg, PaintColor::Rgb(6, 0, 0));
    assert_eq!(paints[5].bg, PaintColor::Rgb(0, 1, 0));
    assert!(paints[1].bold && paints[2].italic && paints[3].underline);
    assert!(!paints[0].bold && !paints[0].reversed);
}

#[test]
fn cut_off_window_is_painted_from_inside() {
    let mut w = window(1, 0, 0, 7, 5, 0);
    for i in 0..15 {
        w.screen[i].ch = (b'a' + i as u8) as char;
    }
    let paints = TerminalWidget::new(&w).render(Rect::new(2, 2, 2, 1));
    assert_eq!(text(&paints, 2, 0), "gh");
    let paints = TerminalWidget::new(&w).render(Rect::new(1, 6, 4, 1));
    assert_eq!(text(&paints, 4, 0), "    ");
}

#[test]
fn selection_is_reversed() {
    let w = window(1, 0, 0, 8, 6, 0);
    let widget = TerminalWidget::new(&w).with_selection(Some(((2, 1), (0, 3))));
    let paints = widget.render(Rect::new(1, 1, 5, 4));
    let marks: Vec<String> = (0..4)
        .map(|r| (0..5).map(|c| if paints[r * 5 + c].reversed { '#' } else { '.' }).collect())
        .collect();
    assert_eq!(marks, vec![".####", "#####", "####.", "....."]);
    let widget = TerminalWidget::new(&w).with_selection(Some(((1, 3), (1, 2))));
    let paints = widget.render(Rect::new(1, 1, 5, 4));
    assert_eq!(paints.iter().filter(|p| p.reversed).count(), 2);
}

#[test]
fn cursor_is_reversed_where_it_is_visible() {
    let mut w = window(1, 2, 2, 10, 6, 0);
    w.cursor_pos = Some((1, 3));
    let area = Rect::new(3, 3, 7, 4);
    assert!(TerminalWidget::new(&w).render(area).iter().all(|p| !p.reversed));
    w.cursor_visible = true;
    let paints = TerminalWidget::new(&w).render(area);
    let reversed: Vec<(u16, u16)> =
        paints.iter().filter(|p| p.reversed).map(|p| (p.x, p.y)).collect();
    assert_eq!(reversed, vec![(6, 4)]);
}

#[test]
fn ended_program_is_announced() {
    let mut w = window(1, 0, 0, 50, 5, 0);
    w.running = false;
    w.exit_code = Some(-3);
    let paints = TerminalWidget::new(&w).render(Rect::new(1, 1, 47, 3));
    let line = text(&paints, 47, 1);
    assert_eq!(line, "        [ PROCESS EXITED WITH CODE -3 ]        ");
    let p = &paints[47 + 8];
    assert_eq!((p.ch, p.fg, p.bg, p.bold), ('[', PaintColor::White, PaintColor::Red, true));
    assert_eq!(paints[47 + 6].bg, PaintColor::Rgb(0, 0, 0));
    w.exit_code = None;
    let paints = TerminalWidget::new(&w).render(Rect::new(1, 1, 10, 1));
    assert_eq!(text(&paints, 10, 0), " [ PROCESS");
}

#[test]
fn windows_are_painted_back_to_front() {
    let v = vec![
        window(1, 0, 0, 10, 5, 2),
        window(2, 0, 0, 10, 5, 0),
        window(3, 0, 0, 10, 5, 2),
        window(4, 0, 0, 10, 5, 1),
    ];
    assert_eq!(back_to_front(&v), vec![1, 3, 0, 2]);
    assert!(back_to_front(&vec![]).is_empty());
}

#[test]
fn window_has_its_parts() {
    let screen = Rect::new(0, 0, 80, 24);
    let mut w = window(1, 10, 5, 40, 10, 0);
    w.focused = true;
    let scene = window_scene(&w, &None, &screen).unwrap();
    assert_eq!(scene.area, Rect::new(10, 5, 40, 10));
    assert_eq!(scene.shadow, Some(Rect::new(11, 6, 40, 10)));
    assert_eq!(scene.title, format!(" [X] [_] [^] logs {} [F] [S] ", " ".repeat(11)));
    assert_eq!(scene.size_text, " 38x8 ");
    assert_eq!(scene.inner, Some(Rect::new(11, 6, 37, 8)));
    assert_eq!(scene.scroll_column, 48);
    assert_eq!(scene.track, vec![6, 7, 8, 9, 10, 11, 12, 13]);
    assert_eq!(scene.handle, Some((49, 14)));
}

#[test]
fn window_over_the_edge_is_cut_off() {
    let screen = Rect::new(0, 0, 80, 24);
    let w = window(1, 70, 20, 20, 10, 0);
    let scene = window_scene(&w, &None, &screen).unwrap();
    assert_eq!(scene.area, Rect::new(70, 20, 10, 4));
    assert!(scene.shadow.is_none());
    assert_eq!(scene.inner, Some(Rect::new(71, 21, 9, 3)));
    assert!(scene.track.is_empty() && scene.handle.is_none());
    assert!(window_scene(&window(1, 80, 3, 20, 10, 0), &None, &screen).is_none());
}

#[test]
fn minimized_window_has_a_title_only() {
    let screen = Rect::new(0, 0, 80, 24);
    let mut w = window(1, 10, 5, 40, 10, 0);
    w.minimized = true;
    let rename = Some(RenameState { window_id: 1, input: "new".to_string() });
    let scene = window_scene(&w, &rename, &screen).unwrap();
    assert_eq!(scene.area, Rect::new(10, 5, 40, 1));
    assert_eq!(scene.title, format!(" [X] [_] [^] > new_ {} [F] [S] ", " ".repeat(9)));
    assert!(scene.inner.is_none() && scene.track.is_empty() && scene.handle.is_none());
    let other = Some(RenameState { window_id: 2, input: "new".to_string() });
    assert!(window_scene(&w, &other, &screen).unwrap().title.starts_with(" [X] [_] [^] logs "));
}

#[test]
fn menus_have_their_places() {
    assert_eq!(menu_label(Menu::File), " File ");
    assert_eq!(menu_label(Menu::Window), " Window ");
    assert_eq!((menu_start(Menu::File), menu_start(Menu::Window)), (2, 10));
    for menu in [Menu::File, Menu::Window] {
        assert!(menu_items(menu).iter().all(|t| t.len() == 18));
    }
    assert_eq!(menu_items(Menu::File).len(), 6);
    assert_eq!(menu_items(Menu::Window)[6], " Clear History (L)");
    assert_eq!(dropdown_rect(Menu::Window), Rect::new(10, 1, 20, 9));
    assert_eq!(item_rect(Menu::File, 5), Rect::new(3, 7, 18, 1));
}

#[test]
fn deskbar_lists_windows() {
    let screen = Rect::new(0, 0, 80, 24);
    assert_eq!(deskbar_area(0, false, &screen), Rect::new(64, 0, 16, 3));
    assert_eq!(deskbar_area(4, false, &screen), Rect::new(64, 0, 16, 6));
    assert_eq!(deskbar_area(4, true, &screen), Rect::new(76, 0, 4, 1));
    assert_eq!(entry_rect(&Rect::new(64, 0, 16, 6), 2), Rect::new(65, 3, 14, 1));
    let mut w = window(1, 0, 0, 10, 5, 0);
    assert_eq!((entry_text(&w).as_str(), entry_style(&w)), ("  logs", EntryStyle::Plain));
    w.running = false;
    assert_eq!(entry_style(&w), EntryStyle::Ended);
    w.focused = true;
    assert_eq!((entry_text(&w).as_str(), entry_style(&w)), ("> logs", EntryStyle::Focused));
}
