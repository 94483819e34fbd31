//! Rectangles, new windows and maximizing.

use termplex::geometry::{fit_request, fit_window, is_blocked, maximize, Rect};

#[test]
fn rectangle_is_cut_off_where_coordinates_end() {
    let r = Rect::new(65530, 3, 10, 4);
    assert_eq!(r, Rect { x: 65530, y: 3, width: 5, height: 4 });
    assert_eq!(r.right(), 65535);
    assert_eq!(r.bottom(), 7);
    assert!(Rect::new(1, 1, 0, 4).is_empty());
}

#[test]
fn overlap_is_a_common_cell() {
    let a = Rect::new(0, 0, 10, 10);
    let b = Rect::new(9, 9, 5, 5);
    let c = Rect::new(10, 0, 5, 5);
    assert!(a.intersects(&b) && b.intersects(&a));
    assert!(!a.intersects(&c));
    assert_eq!(a.intersection(&b), Rect::new(9, 9, 1, 1));
    assert!(a.intersection(&c).is_empty());
    assert!(a.contains(9, 9) && !a.contains(10, 9));
}

#[test]
fn new_window_fits_on_the_screen() {
    let screen = Rect::new(0, 0, 80, 24);
    assert_eq!(fit_window(5, 2, 80, 24, &screen), Rect::new(1, 1, 78, 22));
    assert_eq!(fit_window(70, 20, 20, 10, &screen), Rect::new(59, 13, 20, 10));
    assert_eq!(fit_window(3, 3, 1, 1, &screen), Rect::new(3, 3, 10, 3));
}

#[test]
fn requested_size_is_cut_down_to_what_is_left() {
    assert_eq!(fit_request(10, 82, 80, 10), 68);
    assert_eq!(fit_request(75, 82, 80, 10), 10);
    assert_eq!(fit_request(0, 20, 80, 10), 20);
    assert_eq!(fit_request(100, 5, 80, 10), 5);
}

#[test]
fn maximized_window_stops_at_other_windows_and_the_frame() {
    let screen = Rect::new(0, 0, 80, 24);
    let win = Rect::new(20, 8, 20, 6);
    assert_eq!(maximize(win, &screen, &vec![]), Rect::new(1, 1, 78, 22));
    let other = Rect::new(50, 0, 10, 24);
    let grown = maximize(win, &screen, &vec![other]);
    assert_eq!(grown, Rect::new(1, 1, 49, 22));
    assert!(!is_blocked(&grown, &vec![other]));
    assert!(is_blocked(&Rect::new(1, 1, 50, 22), &vec![other]));
}

#[test]
fn window_over_the_frame_is_not_moved_by_maximizing() {
    let screen = Rect::new(0, 0, 80, 24);
    assert_eq!(maximize(Rect::new(0, 0, 90, 30), &screen, &vec![]), Rect::new(0, 0, 90, 30));
}
