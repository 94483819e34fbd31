//! Where the parts of the picture go: windows, menus and the deskbar.

use vstd::prelude::*;
use crate::client::{opt_rename, RenameState, RenameStateView};
use crate::geometry::{max_int, min_int, sub_floor, sub_u16, Rect};
use crate::hits::{
    deskbar_height, item_count, menu_column, window_hit, HitTarget, Menu, DESKBAR_WIDTH, MENU_WIDTH,
};
use crate::mouse::drawn_rect;
use crate::protocol::{state_views, texts, WindowState, WindowStateView};
use crate::text::{decimal, own, push_decimal};

verus! {

/// Where a window goes among others that stand back to front: in front of those
/// that are not higher in the stack.
pub open spec fn slot_from(s: Seq<WindowStateView>, order: Seq<int>, z: usize, k: int) -> int
    decreases order.len() - k,
{
    if k < 0 || k >= order.len() || s[order[k]].z_order > z {
        k
    } else {
        slot_from(s, order, z, k + 1)
    }
}

/// The places of the first `n` windows, back to front.
pub open spec fn paint_order_upto(s: Seq<WindowStateView>, n: int) -> Seq<int>
    decreases n,
{
    if n <= 0 {
        Seq::empty()
    } else {
        let rest = paint_order_upto(s, n - 1);
        rest.insert(slot_from(s, rest, s[n - 1].z_order, 0), n - 1)
    }
}

/// The places of all windows, back to front.
pub open spec fn paint_order(s: Seq<WindowStateView>) -> Seq<int> {
    paint_order_upto(s, s.len() as int)
}

proof fn lemma_slot(s: Seq<WindowStateView>, order: Seq<int>, z: usize, k: int)
    requires
        0 <= k <= order.len(),
    ensures
        k <= slot_from(s, order, z, k) <= order.len(),
        forall|j: int| k <= j < slot_from(s, order, z, k) ==> s[#[trigger] order[j]].z_order <= z,
        slot_from(s, order, z, k) < order.len() ==> s[order[slot_from(s, order, z, k)]].z_order
            > z,
    decreases order.len() - k,
{
    if k < order.len() && s[order[k]].z_order <= z {
        lemma_slot(s, order, z, k + 1);
    }
}

proof fn lemma_paint_order_upto(s: Seq<WindowStateView>, n: int)
    requires
        0 <= n <= s.len(),
    ensures
        paint_order_upto(s, n).len() == n,
        forall|a: int| 0 <= a < n ==> 0 <= #[trigger] paint_order_upto(s, n)[a] < n,
        forall|a: int, b: int|
            0 <= a < b < n ==> s[#[trigger] paint_order_upto(s, n)[a]].z_order
                <= s[#[trigger] paint_order_upto(s, n)[b]].z_order,
        forall|a: int, b: int|
            0 <= a < b < n ==> #[trigger] paint_order_upto(s, n)[a]
                != #[trigger] paint_order_upto(s, n)[b],
    decreases n,
{
    if n > 0 {
        lemma_paint_order_upto(s, n - 1);
        let rest = paint_order_upto(s, n - 1);
        let z = s[n - 1].z_order;
        lemma_slot(s, rest, z, 0);
        let k = slot_from(s, rest, z, 0);
        let all = paint_order_upto(s, n);
        assert forall|a: int| 0 <= a < n implies 0 <= #[trigger] all[a] < n by {
            if a < k {
                assert(all[a] == rest[a]);
            } else if a > k {
                assert(all[a] == rest[a - 1]);
            }
        }
        assert forall|a: int, b: int| 0 <= a < b < n implies s[#[trigger] all[a]].z_order
            <= s[#[trigger] all[b]].z_order && all[a] != all[b] by {
            let i = if a < k {
                a
            } else {
                a - 1
            };
            let j = if b < k {
                b
            } else {
                b - 1
            };
            if a != k && b != k {
                assert(all[a] == rest[i] && all[b] == rest[j]);
            } else if a == k {
                assert(all[b] == rest[j]);
                assert(k <= j);
                if k < j {
                    assert(s[rest[k]].z_order <= s[rest[j]].z_order);
                }
            } else {
                assert(all[a] == rest[i]);
            }
        }
    }
}

/// Every window is painted once, and none before one that is lower in the stack.
pub proof fn law_windows_are_painted_back_to_front(s: Seq<WindowStateView>)
    ensures
        paint_order(s).len() == s.len(),
        paint_order(s).no_duplicates(),
        forall|a: int| 0 <= a < s.len() ==> 0 <= #[trigger] paint_order(s)[a] < s.len(),
        forall|a: int, b: int|
            0 <= a < b < s.len() ==> s[#[trigger] paint_order(s)[a]].z_order
                <= s[#[trigger] paint_order(s)[b]].z_order,
{
    lemma_paint_order_upto(s, s.len() as int);
    let order = paint_order(s);
    assert forall|a: int, b: int|
        0 <= a < order.len() && 0 <= b < order.len() && a != b implies order[a] != order[b] by {
        if a < b {
            assert(order[a] != order[b]);
        } else {
            assert(order[b] != order[a]);
        }
    }
}

/// The numbers in a list.
pub open spec fn as_ints(v: Seq<usize>) -> Seq<int> {
    Seq::new(v.len(), |i: int| v[i] as int)
}

/// Sorts windows back to front. Returns their places.
pub fn back_to_front(v: &Vec<WindowState>) -> (r: Vec<usize>)
    ensures
        as_ints(r@) == paint_order(state_views(v@)),
{
    let ghost s = state_views(v@);
    let mut r: Vec<usize> = Vec::new();
    let mut i: usize = 0;
    assert(as_ints(r@) =~= paint_order_upto(s, 0));
    while i < v.len()
        invariant
            i <= v@.len(),
            s == state_views(v@),
            as_ints(r@) == paint_order_upto(s, i as int),
        decreases v@.len() - i,
    {
        let ghost rest = as_ints(r@);
        proof {
            lemma_paint_order_upto(s, i as int);
            assert(s[i as int] == v@[i as int]@);
        }
        let z: usize = v[i].z_order;
        let mut k: usize = 0;
        while k < r.len() && v[r[k]].z_order <= z
            invariant
                k <= r@.len(),
                i < v@.len(),
                s == state_views(v@),
                rest == as_ints(r@),
                rest.len() == r@.len(),
                forall|a: int| 0 <= a < rest.len() ==> 0 <= #[trigger] rest[a] < i,
                slot_from(s, rest, z, 0) == slot_from(s, rest, z, k as int),
            decreases r@.len() - k,
        {
            assert(rest[k as int] == r@[k as int]);
            assert(s[rest[k as int]] == v@[r@[k as int] as int]@);
            k += 1;
        }
        proof {
            if k < r@.len() {
                assert(rest[k as int] == r@[k as int]);
                assert(s[rest[k as int]] == v@[r@[k as int] as int]@);
            }
        }
        r.insert(k, i);
        assert(as_ints(r@) =~= rest.insert(k as int, i as int));
        i += 1;
    }
    r
}

/// The parts of a window that are painted.
pub struct WindowScene {
    /// The part of the window that is on the screen.
    pub area: Rect,
    /// The shadow of a focused window.
    pub shadow: Option<Rect>,
    pub title: String,
    /// The size of the terminal, below an open window.
    pub size_text: String,
    /// The inside of an open window.
    pub inner: Option<Rect>,
    /// The column of the scroll bar, and the rows of its track.
    pub scroll_column: u16,
    pub track: Vec<u16>,
    /// Column and row of the handle for resizing.
    pub handle: Option<(u16, u16)>,
}

/// What a `WindowScene` says, over mathematical sequences.
#[verifier::ext_equal]
pub struct WindowSceneView {
    pub area: Rect,
    pub shadow: Option<Rect>,
    pub title: Seq<char>,
    pub size_text: Seq<char>,
    pub inner: Option<Rect>,
    pub scroll_column: u16,
    pub track: Seq<u16>,
    pub handle: Option<(u16, u16)>,
}

impl View for WindowScene {
    type V = WindowSceneView;

    open spec fn view(&self) -> WindowSceneView {
        WindowSceneView {
            area: self.area,
            shadow: self.shadow,
            title: self.title@,
            size_text: self.size_text@,
            inner: self.inner,
            scroll_column: self.scroll_column,
            track: self.track@,
            handle: self.handle,
        }
    }
}

/// A number of blanks.
pub open spec fn blanks(n: int) -> Seq<char> {
    Seq::new(n as nat, |i: int| ' ')
}

/// The left part of a title line: the buttons and the name, or the name that is
/// being typed.
pub open spec fn title_start(win: WindowStateView, rename: Option<RenameStateView>) -> Seq<char> {
    match rename {
        Some(r) => if r.window_id == win.id {
            " [X] [_] [^] > "@ + r.input + "_ "@
        } else {
            " [X] [_] [^] "@ + win.title + " "@
        },
        None => " [X] [_] [^] "@ + win.title + " "@,
    }
}

/// A title line: its left part, and two buttons at the right end of the window
/// where there is room.
pub open spec fn title_line(win: WindowStateView, rename: Option<RenameStateView>) -> Seq<char> {
    let start = title_start(win, rename);
    let padding = sub_floor(
        sub_floor(sub_floor(win.width as int, start.len() as int % 0x10000), 9),
        2,
    );
    start + blanks(padding) + " [F] [S] "@
}

/// The size of the terminal in a window, in words.
pub open spec fn size_line(win: WindowStateView) -> Seq<char> {
    " "@ + decimal(sub_floor(win.width as int, 2) as nat) + "x"@ + decimal(
        sub_floor(win.height as int, 2) as nat,
    ) + " "@
}

/// The rows of the track of a scroll bar that are on the screen.
pub open spec fn track_rows(win: WindowStateView, area: Rect) -> Seq<u16> {
    let column = win.x + win.width - 2;
    let from = max_int(win.y + 1, area.y as int);
    let to = min_int(win.y + 1 + sub_floor(win.height as int, 2), area.bottom_edge());
    if area.x <= column < area.right_edge() && from < to {
        Seq::new((to - from) as nat, |i: int| (from + i) as u16)
    } else {
        Seq::empty()
    }
}

/// A rectangle, if it is not empty.
pub open spec fn unless_empty(r: Rect) -> Option<Rect> {
    if r.width == 0 || r.height == 0 {
        None
    } else {
        Some(r)
    }
}

/// The parts of a window that are painted, where any of it is on the screen.
pub open spec fn scene_of(
    win: WindowStateView,
    rename: Option<RenameStateView>,
    screen: Rect,
) -> Option<WindowSceneView> {
    let area = drawn_rect(win).common(screen);
    if area.width == 0 || area.height == 0 {
        None
    } else {
        Some(
            WindowSceneView {
                area,
                shadow: if win.focused {
                    unless_empty(
                        Rect::at(
                            (area.x + 1) as u16,
                            (area.y + 1) as u16,
                            area.width,
                            area.height,
                        ).common(screen),
                    )
                } else {
                    None
                },
                title: title_line(win, rename),
                size_text: size_line(win),
                inner: if win.minimized {
                    None
                } else {
                    unless_empty(
                        Rect::at(
                            (win.x + 1) as u16,
                            (win.y + 1) as u16,
                            sub_floor(win.width as int, 3) as u16,
                            sub_floor(win.height as int, 2) as u16,
                        ).common(area),
                    )
                },
                scroll_column: min_int(sub_floor(win.x + win.width, 2), 0xffff) as u16,
                track: if win.minimized {
                    Seq::empty()
                } else {
                    track_rows(win, area)
                },
                handle: {
                    let x = win.x + win.width - 1;
                    let y = win.y + win.height - 1;
                    if !win.minimized && area.covers(x, y) {
                        Some((x as u16, y as u16))
                    } else {
                        None
                    }
                },
            },
        )
    }
}

/// What an optional scene says.
pub open spec fn opt_scene(s: Option<WindowScene>) -> Option<WindowSceneView> {
    match s {
        Some(s) => Some(s@),
        None => None,
    }
}

fn push_blanks(s: &mut String, n: u16)
    ensures
        final(s)@ == old(s)@ + blanks(n as int),
{
    let ghost start = s@;
    let mut i: u16 = 0;
    assert(s@ =~= start + blanks(0));
    while i < n
        invariant
            i <= n,
            s@ == start + blanks(i as int),
        decreases n - i,
    {
        s.push(' ');
        assert(s@ =~= start + blanks(i + 1));
        i += 1;
    }
}

fn make_title_line(win: &WindowState, rename: &Option<RenameState>) -> (r: String)
    ensures
        r@ == title_line(win@, opt_rename(*rename)),
{
    let mut s = String::new();
    let renamed = match rename {
        Some(state) => state.window_id == win.id,
        None => false,
    };
    if renamed {
        if let Some(state) = rename {
            s.append(" [X] [_] [^] > ");
            s.append(state.input.as_str());
            s.append("_ ");
        }
    } else {
        s.append(" [X] [_] [^] ");
        s.append(win.title.as_str());
        s.append(" ");
    }
    assert(s@ =~= title_start(win@, opt_rename(*rename)));
    let len: usize = s.as_str().unicode_len();
    let short: u16 = (len % 0x10000) as u16;
    let padding: u16 = sub_u16(sub_u16(sub_u16(win.width, short), 9), 2);
    push_blanks(&mut s, padding);
    s.append(" [F] [S] ");
    s
}

fn make_size_line(win: &WindowState) -> (r: String)
    ensures
        r@ == size_line(win@),
{
    let mut s = String::new();
    s.append(" ");
    push_decimal(&mut s, sub_u16(win.width, 2) as u64);
    s.append("x");
    push_decimal(&mut s, sub_u16(win.height, 2) as u64);
    s.append(" ");
    assert(s@ =~= size_line(win@));
    s
}

fn find_track(win: &WindowState, area: &Rect) -> (r: Vec<u16>)
    ensures
        r@ == track_rows(win@, *area),
{
    let mut r: Vec<u16> = Vec::new();
    let column: i32 = win.x as i32 + win.width as i32 - 2;
    let first: i32 = win.y as i32 + 1;
    let from: i32 = if first > area.y as i32 {
        first
    } else {
        area.y as i32
    };
    let last: i32 = first + sub_u16(win.height, 2) as i32;
    let edge: i32 = area.bottom() as i32;
    let to: i32 = if last < edge {
        last
    } else {
        edge
    };
    if !(area.x as i32 <= column && column < area.right() as i32) || from >= to {
        return r;
    }
    let ghost whole = track_rows(win@, *area);
    let mut y: i32 = from;
    while y < to
        invariant
            from <= y <= to,
            0 <= from,
            to <= 0xffff,
            whole.len() == to - from,
            forall|i: int| 0 <= i < whole.len() ==> #[trigger] whole[i] == (from + i) as u16,
            r@ == whole.take(y - from),
        decreases to - y,
    {
        r.push(y as u16);
        assert(whole.take(y + 1 - from) =~= whole.take(y - from).push(y as u16));
        y += 1;
    }
    assert(whole.take(to - from) =~= whole);
    r
}

fn filled(r: Rect) -> (o: Option<Rect>)
    ensures
        o == unless_empty(r),
{
    if r.is_empty() {
        None
    } else {
        Some(r)
    }
}

/// Works out the parts of a window that are painted.
pub fn window_scene(win: &WindowState, rename: &Option<RenameState>, screen: &Rect) -> (r: Option<
    WindowScene,
>)
    ensures
        opt_scene(r) == scene_of(win@, opt_rename(*rename), *screen),
{
    let height: u16 = if win.minimized {
        1
    } else {
        win.height
    };
    let drawn = Rect::new(win.x, win.y, win.width, height);
    let area = drawn.intersection(screen);
    if area.is_empty() {
        return None;
    }
    assert(area.x < 0xffff && area.y < 0xffff && win.x < 0xffff && win.y < 0xffff);
    let shadow = if win.focused {
        filled(Rect::new(area.x + 1, area.y + 1, area.width, area.height).intersection(screen))
    } else {
        None
    };
    let inner = if win.minimized {
        None
    } else {
        filled(
            Rect::new(win.x + 1, win.y + 1, sub_u16(win.width, 3), sub_u16(win.height, 2)).intersection(
                &area,
            ),
        )
    };
    let right: i32 = win.x as i32 + win.width as i32;
    let scroll_column: u16 = if right < 2 {
        0
    } else if right - 2 > 0xffff {
        0xffff
    } else {
        (right - 2) as u16
    };
    let track = if win.minimized {
        Vec::new()
    } else {
        find_track(win, &area)
    };
    let hx: i32 = right - 1;
    let hy: i32 = win.y as i32 + win.height as i32 - 1;
    let handle = if !win.minimized && 0 <= hx && hx <= 0xffff && 0 <= hy && hy <= 0xffff
        && area.contains(hx as u16, hy as u16) {
        Some((hx as u16, hy as u16))
    } else {
        None
    };
    let scene = WindowScene {
        area,
        shadow,
        title: make_title_line(win, rename),
        size_text: make_size_line(win),
        inner,
        scroll_column,
        track,
        handle,
    };
    assert(scene@ =~= scene_of(win@, opt_rename(*rename), *screen)->0);
    Some(scene)
}

/// The label of a menu.
pub open spec fn label_text(menu: Menu) -> Seq<char> {
    match menu {
        Menu::File => " File "@,
        Menu::Window => " Window "@,
        Menu::Closed => ""@,
    }
}

/// The entries of a menu.
pub open spec fn item_texts(menu: Menu) -> Seq<Seq<char>> {
    match menu {
        Menu::File => seq![
            " New Terminal (N) "@,
            " Save Layout (O)  "@,
            " Load Layout (I)  "@,
            " Capture Pane (V) "@,
            " Capture Full (P) "@,
            " Quit (Q)         "@,
        ],
        Menu::Window => seq![
            " Close (Z)        "@,
            " Minimize (X)     "@,
            " Maximize (C)     "@,
            " Solo (S)         "@,
            " Fullscreen (F)   "@,
            " Tile Grid (G)    "@,
            " Clear History (L)"@,
        ],
        Menu::Closed => Seq::empty(),
    }
}

pub fn menu_label(menu: Menu) -> (r: String)
    ensures
        r@ == label_text(menu),
{
    match menu {
        Menu::File => own(" File "),
        Menu::Window => own(" Window "),
        Menu::Closed => own(""),
    }
}

pub fn menu_items(menu: Menu) -> (r: Vec<String>)
    ensures
        texts(r@) == item_texts(menu),
        r@.len() == item_count(menu),
{
    let mut r: Vec<String> = Vec::new();
    match menu {
        Menu::File => {
            r.push(own(" New Terminal (N) "));
            r.push(own(" Save Layout (O)  "));
            r.push(own(" Load Layout (I)  "));
            r.push(own(" Capture Pane (V) "));
            r.push(own(" Capture Full (P) "));
            r.push(own(" Quit (Q)         "));
        },
        Menu::Window => {
            r.push(own(" Close (Z)        "));
            r.push(own(" Minimize (X)     "));
            r.push(own(" Maximize (C)     "));
            r.push(own(" Solo (S)         "));
            r.push(own(" Fullscreen (F)   "));
            r.push(own(" Tile Grid (G)    "));
            r.push(own(" Clear History (L)"));
        },
        Menu::Closed => {},
    }
    assert(texts(r@) =~= item_texts(menu));
    r
}

/// The column at which the label of a menu starts.
pub fn menu_start(menu: Menu) -> (r: u16)
    ensures
        r == menu_column(menu),
{
    match menu {
        Menu::File => 2,
        Menu::Window => 10,
        Menu::Closed => 0,
    }
}

/// Where an open menu goes, with its frame.
pub fn dropdown_rect(menu: Menu) -> (r: Rect)
    ensures
        r == (Rect {
            x: menu_column(menu) as u16,
            y: 1,
            width: (MENU_WIDTH + 2) as u16,
            height: (item_count(menu) + 2) as u16,
        }),
{
    let count: u16 = match menu {
        Menu::File => 6,
        Menu::Window => 7,
        Menu::Closed => 0,
    };
    Rect::new(menu_start(menu), 1, MENU_WIDTH + 2, count + 2)
}

/// Where an entry of an open menu goes.
pub fn item_rect(menu: Menu, i: usize) -> (r: Rect)
    requires
        i < item_count(menu),
    ensures
        r == (Rect {
            x: (menu_column(menu) + 1) as u16,
            y: (2 + i) as u16,
            width: MENU_WIDTH,
            height: 1,
        }),
{
    Rect::new(menu_start(menu) + 1, 2 + i as u16, MENU_WIDTH, 1)
}

/// An open menu is hit where it is painted.
pub proof fn law_menu_is_hit_where_it_is_painted(menu: Menu, i: int, x: int)
    requires
        menu != Menu::Closed,
        0 <= i < item_count(menu),
    ensures
        menu_column(menu) + 1 <= x < menu_column(menu) + 1 + MENU_WIDTH ==> crate::hits::menu_hit(
            menu,
            x,
            2 + i,
        ) == Some(crate::hits::HitTarget::MenuItem(menu, i as usize)),
{
}

/// Where the deskbar goes for `n` windows.
pub open spec fn deskbar_rect(n: int, minimized: bool, screen: Rect) -> Rect {
    if minimized {
        Rect::at(sub_floor(screen.width as int, 4) as u16, 0, 4, 1)
    } else {
        Rect::at(
            sub_floor(screen.width as int, DESKBAR_WIDTH as int) as u16,
            0,
            DESKBAR_WIDTH,
            min_int(deskbar_height(n), 0xffff) as u16,
        )
    }
}

pub fn deskbar_area(n: usize, minimized: bool, screen: &Rect) -> (r: Rect)
    ensures
        r == deskbar_rect(n as int, minimized, *screen),
{
    if minimized {
        Rect::new(sub_u16(screen.width, 4), 0, 4, 1)
    } else {
        let height: u16 = if n <= 1 {
            3
        } else if n >= 0xfffd {
            0xffff
        } else {
            n as u16 + 2
        };
        Rect::new(sub_u16(screen.width, DESKBAR_WIDTH), 0, DESKBAR_WIDTH, height)
    }
}

/// How an entry of the deskbar is shown.
#[derive(Debug, Clone, Copy, PartialEq, Eq, Structural)]
pub enum EntryStyle {
    Focused,
    /// The program in the window ended.
    Ended,
    Plain,
}

/// How the entry of a window is shown.
pub open spec fn entry_style_of(win: WindowStateView) -> EntryStyle {
    if win.focused {
        EntryStyle::Focused
    } else if !win.running {
        EntryStyle::Ended
    } else {
        EntryStyle::Plain
    }
}

/// The text of the entry of a window.
pub open spec fn entry_text_of(win: WindowStateView) -> Seq<char> {
    (if win.focused {
        "> "@
    } else {
        "  "@
    }) + win.title
}

pub fn entry_style(win: &WindowState) -> (r: EntryStyle)
    ensures
        r == entry_style_of(win@),
{
    if win.focused {
        EntryStyle::Focused
    } else if !win.running {
        EntryStyle::Ended
    } else {
        EntryStyle::Plain
    }
}

pub fn entry_text(win: &WindowState) -> (r: String)
    ensures
        r@ == entry_text_of(win@),
{
    let mut s = String::new();
    if win.focused {
        s.append("> ");
    } else {
        s.append("  ");
    }
    s.append(win.title.as_str());
    assert(s@ =~= entry_text_of(win@));
    s
}

/// Where an entry of the deskbar goes.
pub fn entry_rect(area: &Rect, i: usize) -> (r: Rect)
    requires
        area.x < 0xffff,
        i < 0xffff,
    ensures
        r == Rect::at(
            (area.x + 1) as u16,
            (1 + i) as u16,
            (DESKBAR_WIDTH - 2) as u16,
            1,
        ),
{
    Rect::new(area.x + 1, 1 + i as u16, DESKBAR_WIDTH - 2, 1)
}

/// The buttons of a window are hit where they are painted: in the title line, which
/// begins in the second column, the buttons at the left, and in a window with room
/// for them those at the right.
pub proof fn law_buttons_are_hit_where_they_are_painted(
    win: WindowStateView,
    rename: Option<RenameStateView>,
    i: int,
)
    requires
        !win.minimized,
        22 <= win.width,
        3 <= win.height,
        0 <= i < 3,
        title_start(win, rename).len() + 11 <= win.width,
    ensures
        ({
            let line = title_line(win, rename);
            let w = win.width as int;
            &&& line.len() == w - 2
            &&& line[1 + i] == "[X]"@[i]
            &&& window_hit(win, win.x + 2 + i, win.y as int) == Some(HitTarget::CloseButton(win.id))
            &&& line[5 + i] == "[_]"@[i]
            &&& window_hit(win, win.x + 6 + i, win.y as int) == Some(
                HitTarget::MinimizeButton(win.id),
            )
            &&& line[9 + i] == "[^]"@[i]
            &&& window_hit(win, win.x + 10 + i, win.y as int) == Some(
                HitTarget::MaximizeButton(win.id),
            )
            &&& line[w - 10 + i] == "[F]"@[i]
            &&& window_hit(win, win.x + w - 9 + i, win.y as int) == Some(
                HitTarget::FullscreenButton(win.id),
            )
            &&& line[w - 6 + i] == "[S]"@[i]
            &&& window_hit(win, win.x + w - 5 + i, win.y as int) == Some(
                HitTarget::SoloButton(win.id),
            )
        }),
{
    reveal_strlit("[X]");
    reveal_strlit("[_]");
    reveal_strlit("[^]");
    reveal_strlit("[F]");
    reveal_strlit("[S]");
    reveal_strlit(" [X] [_] [^] ");
    reveal_strlit(" [X] [_] [^] > ");
    reveal_strlit(" [F] [S] ");
    reveal_strlit(" ");
    reveal_strlit("_ ");
    let start = title_start(win, rename);
    let line = title_line(win, rename);
    let padding = win.width - start.len() - 11;
    assert(line =~= start + blanks(padding) + " [F] [S] "@);
    assert(start.len() + padding == win.width - 11);
    assert(line[win.width - 10 + i] == " [F] [S] "@[1 + i]);
    assert(line[win.width - 6 + i] == " [F] [S] "@[5 + i]);
}

/// The title line of a window shows its name behind the buttons, and the name that
/// is typed instead while it is renamed.
pub proof fn law_title_line_shows_the_name(
    win: WindowStateView,
    rename: Option<RenameStateView>,
    i: int,
)
    ensures
        ({
            let renamed = rename is Some && rename->0.window_id == win.id;
            let line = title_line(win, rename);
            &&& !renamed && 0 <= i < win.title.len() ==> line[13 + i] == win.title[i]
            &&& renamed && 0 <= i < rename->0.input.len() ==> line[15 + i] == rename->0.input[i]
            &&& renamed ==> line[13] == '>' && line[15 + rename->0.input.len() as int] == '_'
        }),
{
    reveal_strlit(" [X] [_] [^] ");
    reveal_strlit(" [X] [_] [^] > ");
    reveal_strlit("_ ");
    reveal_strlit(" ");
}

/// The size that is shown for a window is that of its terminal, columns before
/// rows.
pub proof fn law_shown_size_is_the_terminals(win: WindowStateView)
    requires
        2 <= win.width,
        2 <= win.height,
    ensures
        size_line(win) == " "@ + decimal((win.width - 2) as nat) + "x"@ + decimal(
            (win.height - 2) as nat,
        ) + " "@,
{
}

/// A window is painted exactly where some of it is on the screen, and there just
/// the part that is. Its terminal is painted inside its frame and left of the scroll
/// bar, unless it is minimized, and the handle for resizing is its lower right
/// corner.
pub proof fn law_window_is_painted_where_it_is(
    win: WindowStateView,
    rename: Option<RenameStateView>,
    screen: Rect,
    x: int,
    y: int,
)
    requires
        screen.fits(),
        win.x + win.width < u16::MAX,
        win.y + win.height < u16::MAX,
        win.width >= 3,
        win.height >= 2,
    ensures
        ({
            let height = if win.minimized {
                1
            } else {
                win.height as int
            };
            let on_window = win.x <= x < win.x + win.width && win.y <= y < win.y + height;
            let on_screen = screen.x <= x < screen.x + screen.width && screen.y <= y < screen.y
                + screen.height;
            let inside = !win.minimized && win.x < x < win.x + win.width - 2 && win.y < y < win.y
                + win.height - 1;
            let scene = scene_of(win, rename, screen);
            &&& on_window && on_screen ==> scene is Some
            &&& scene is Some ==> {
                &&& scene->0.area.covers(x, y) <==> on_window && on_screen
                &&& inside && on_screen <==> scene->0.inner is Some && scene->0.inner->0.covers(
                    x,
                    y,
                )
                &&& scene->0.title == title_line(win, rename)
                &&& scene->0.size_text == size_line(win)
                &&& scene->0.handle matches Some(place) ==> place.0 == win.x + win.width - 1
                    && place.1 == win.y + win.height - 1
                &&& !win.minimized && x == win.x + win.width - 1 && y == win.y + win.height - 1
                    && on_screen ==> scene->0.handle is Some
                &&& win.minimized ==> scene->0.handle is None && scene->0.track.len() == 0
                &&& scene->0.scroll_column == win.x + win.width - 2
                &&& scene->0.shadow is Some ==> win.focused
                &&& win.focused ==> (scene->0.shadow is Some && scene->0.shadow->0.covers(x, y)
                    <==> scene->0.area.covers(x - 1, y - 1) && on_screen)
                &&& !win.minimized ==> scene->0.track == track_rows(win, scene->0.area)
            }
        }),
{
    let drawn = drawn_rect(win);
    let area = drawn.common(screen);
    let inner = Rect::at(
        (win.x + 1) as u16,
        (win.y + 1) as u16,
        sub_floor(win.width as int, 3) as u16,
        sub_floor(win.height as int, 2) as u16,
    );
    let both = inner.common(area);
    assert(drawn.covers(x, y) && screen.covers(x, y) <==> area.covers(x, y));
    let under = Rect::at((area.x + 1) as u16, (area.y + 1) as u16, area.width, area.height);
    if area.width > 0 && area.height > 0 {
        assert(under.covers(x, y) <==> area.covers(x - 1, y - 1));
        assert(under.covers(x, y) && screen.covers(x, y) <==> under.common(screen).covers(x, y));
    }
    assert(inner.covers(x, y) && area.covers(x, y) <==> both.covers(x, y));
}

/// The track of a scroll bar has the rows inside the frame of a window that are on
/// the screen, in their order.
pub proof fn law_track_has_the_rows_inside(win: WindowStateView, area: Rect, y: u16)
    requires
        area.fits(),
        2 <= win.height,
        2 <= win.width,
    ensures
        track_rows(win, area).contains(y) <==> area.x <= win.x + win.width - 2 < area.x
            + area.width && area.y <= y < area.y + area.height && win.y < y < win.y + win.height
            - 1,
        forall|i: int, j: int|
            0 <= i < j < track_rows(win, area).len() ==> #[trigger] track_rows(win, area)[i]
                < #[trigger] track_rows(win, area)[j],
{
    let rows = track_rows(win, area);
    let from = max_int(win.y + 1, area.y as int);
    if area.x <= win.x + win.width - 2 < area.x + area.width && area.y <= y < area.y + area.height
        && win.y < y < win.y + win.height - 1 {
        assert(rows[y - from] == y);
    }
}

/// The deskbar lists the name of a window, with a mark before the one that has the
/// focus, and tells one whose program has ended.
pub proof fn law_deskbar_lists_the_windows(win: WindowStateView)
    ensures
        entry_text_of(win).skip(2) == win.title,
        entry_text_of(win)[0] == '>' <==> win.focused,
        entry_style_of(win) == EntryStyle::Focused <==> win.focused,
        entry_style_of(win) == EntryStyle::Ended <==> !win.focused && !win.running,
{
    reveal_strlit("> ");
    reveal_strlit("  ");
    assert(entry_text_of(win).skip(2) =~= win.title);
}

/// The deskbar is hit where it is painted.
pub proof fn law_deskbar_is_hit_where_it_is_painted(
    n: int,
    minimized: bool,
    screen: Rect,
    x: int,
    y: int,
)
    requires
        0 <= n < 0xff00,
        16 <= screen.width,
    ensures
        deskbar_rect(n, minimized, screen).covers(x, y) <==> crate::hits::deskbar_hit(
            n,
            minimized,
            screen.width as int,
            x,
            y,
        ) is Some,
{
}

/// The letter in brackets of an entry of a menu chooses that entry, in either case.
pub proof fn law_letters_of_the_menus_choose_their_entries(menu: Menu, i: int, k: int, c: char)
    requires
        0 <= i < item_texts(menu).len(),
        0 <= k < item_texts(menu)[i].len() - 2,
        item_texts(menu)[i][k] == '(',
        item_texts(menu)[i][k + 2] == ')',
        c == item_texts(menu)[i][k + 1],
    ensures
        crate::client::mnemonic(menu, c) == Some(i),
        item_texts(menu).len() == item_count(menu),
{
    reveal_strlit(" New Terminal (N) ");
    reveal_strlit(" Save Layout (O)  ");
    reveal_strlit(" Load Layout (I)  ");
    reveal_strlit(" Capture Pane (V) ");
    reveal_strlit(" Capture Full (P) ");
    reveal_strlit(" Quit (Q)         ");
    reveal_strlit(" Close (Z)        ");
    reveal_strlit(" Minimize (X)     ");
    reveal_strlit(" Maximize (C)     ");
    reveal_strlit(" Solo (S)         ");
    reveal_strlit(" Fullscreen (F)   ");
    reveal_strlit(" Tile Grid (G)    ");
    reveal_strlit(" Clear History (L)");
}

/// The names of the menus are painted as wide as they are hit: each place of the menu
/// bar that is hit for a menu is one that its name is painted at. The name has a blank
/// on either side.
pub proof fn law_names_of_the_menus_are_hit(menu: Menu, x: int)
    requires
        menu != Menu::Closed,
    ensures
        crate::hits::menu_hit(Menu::Closed, x, 0) == Some(crate::hits::HitTarget::MenuLabel(menu))
            <==> menu_column(menu) <= x < menu_column(menu) + label_text(menu).len(),
        label_text(menu)[0] == ' ',
        label_text(menu).last() == ' ',
        label_text(Menu::File).subrange(1, 5) == "File"@,
        label_text(Menu::Window).subrange(1, 7) == "Window"@,
{
    reveal_strlit(" File ");
    reveal_strlit(" Window ");
    reveal_strlit("File");
    reveal_strlit("Window");
    assert(label_text(Menu::File).subrange(1, 5) =~= "File"@);
    assert(label_text(Menu::Window).subrange(1, 7) =~= "Window"@);
}

} // verus!
