//! What the mouse hits: windows, their buttons, the menus and the deskbar.

use vstd::prelude::*;
use vstd::arithmetic::div_mod::lemma_fundamental_div_mod_converse;
use crate::geometry::{max_int, sub_floor, sub_u16, Rect};
use crate::protocol::{state_views, WindowState, WindowStateView};
use crate::store::{by_number, known, lemma_has};

verus! {

/// Width of the deskbar.
pub const DESKBAR_WIDTH: u16 = 16;

/// Width of the entries of an open menu.
pub const MENU_WIDTH: u16 = 18;

/// The menus.
#[derive(Debug, Clone, Copy, PartialEq, Eq, Structural)]
pub enum Menu {
    /// No menu is open.
    Closed,
    File,
    Window,
}

/// What is at a place of the screen.
#[derive(Debug, Clone, Copy, PartialEq, Eq, Structural)]
pub enum HitTarget {
    Nothing,
    /// An entry of the deskbar, by its index.
    Deskbar(usize),
    MenuLabel(Menu),
    MenuItem(Menu, usize),
    WindowContent(usize),
    WindowTitle(usize),
    WindowBorder(usize),
    WindowResize(usize),
    CloseButton(usize),
    MinimizeButton(usize),
    MaximizeButton(usize),
    FullscreenButton(usize),
    SoloButton(usize),
    ResetButton(usize),
    WindowScrollbar(usize),
    DeskbarMinimizeButton,
}

impl HitTarget {
    /// The window that a target belongs to.
    pub open spec fn of_window(self) -> Option<usize> {
        match self {
            HitTarget::WindowContent(id) => Some(id),
            HitTarget::WindowTitle(id) => Some(id),
            HitTarget::WindowBorder(id) => Some(id),
            HitTarget::WindowResize(id) => Some(id),
            HitTarget::CloseButton(id) => Some(id),
            HitTarget::MinimizeButton(id) => Some(id),
            HitTarget::MaximizeButton(id) => Some(id),
            HitTarget::FullscreenButton(id) => Some(id),
            HitTarget::SoloButton(id) => Some(id),
            HitTarget::ResetButton(id) => Some(id),
            HitTarget::WindowScrollbar(id) => Some(id),
            _ => None,
        }
    }

    pub fn window(&self) -> (r: Option<usize>)
        ensures
            r == self.of_window(),
    {
        match self {
            HitTarget::WindowContent(id) => Some(*id),
            HitTarget::WindowTitle(id) => Some(*id),
            HitTarget::WindowBorder(id) => Some(*id),
            HitTarget::WindowResize(id) => Some(*id),
            HitTarget::CloseButton(id) => Some(*id),
            HitTarget::MinimizeButton(id) => Some(*id),
            HitTarget::MaximizeButton(id) => Some(*id),
            HitTarget::FullscreenButton(id) => Some(*id),
            HitTarget::SoloButton(id) => Some(*id),
            HitTarget::ResetButton(id) => Some(*id),
            HitTarget::WindowScrollbar(id) => Some(*id),
            _ => None,
        }
    }
}

/// The button in the title line of a window, counted in columns from the left
/// edge of the window.
pub open spec fn left_button(id: usize, col: int) -> Option<HitTarget> {
    if 10 <= col <= 12 {
        Some(HitTarget::MaximizeButton(id))
    } else if 6 <= col <= 8 {
        Some(HitTarget::MinimizeButton(id))
    } else if 2 <= col <= 4 {
        Some(HitTarget::CloseButton(id))
    } else {
        None
    }
}

/// What a minimized window has at a place, counted from its upper left cell.
pub open spec fn minimized_hit(id: usize, width: int, col: int, row: int) -> Option<HitTarget> {
    if row != 0 {
        None
    } else if left_button(id, col) is Some {
        left_button(id, col)
    } else if 0 <= col < width {
        Some(HitTarget::WindowTitle(id))
    } else {
        None
    }
}

/// What the frame and the inside of a window have at a place, counted from its
/// upper left cell.
pub open spec fn body_hit(id: usize, width: int, height: int, col: int, row: int) -> Option<
    HitTarget,
> {
    if !(0 <= col < width && 0 <= row < height) {
        None
    } else if row == 0 {
        Some(HitTarget::WindowTitle(id))
    } else if col == width - 1 && row == height - 1 {
        Some(HitTarget::WindowResize(id))
    } else if col == 0 || col == width - 1 || row == height - 1 {
        Some(HitTarget::WindowBorder(id))
    } else if col == width - 2 {
        Some(HitTarget::WindowScrollbar(id))
    } else {
        Some(HitTarget::WindowContent(id))
    }
}

/// What a window that is not minimized has at a place, counted from its upper
/// left cell: the buttons lie over its title line and its lower edge.
pub open spec fn open_hit(id: usize, width: int, height: int, col: int, row: int) -> Option<
    HitTarget,
> {
    if row == height - 1 && sub_floor(width, 5) <= col < width - 1 {
        Some(HitTarget::ResetButton(id))
    } else if row == 0 && sub_floor(width, 5) <= col < sub_floor(width, 5) + 4 {
        Some(HitTarget::SoloButton(id))
    } else if row == 0 && sub_floor(width, 9) <= col < sub_floor(width, 9) + 3 {
        Some(HitTarget::FullscreenButton(id))
    } else if row == 0 && left_button(id, col) is Some {
        left_button(id, col)
    } else {
        body_hit(id, width, height, col, row)
    }
}

/// What a window has at a place of the screen.
pub open spec fn window_hit(win: WindowStateView, x: int, y: int) -> Option<HitTarget> {
    if win.minimized {
        minimized_hit(win.id, win.width as int, x - win.x, y - win.y)
    } else {
        open_hit(win.id, win.width as int, win.height as int, x - win.x, y - win.y)
    }
}

/// Which of the first `n` windows is in front at a place: the one that has
/// anything there and is highest in the stack.
pub open spec fn front_at(s: Seq<WindowStateView>, x: int, y: int, n: int) -> Option<int>
    decreases n,
{
    if n <= 0 {
        None
    } else {
        let rest = front_at(s, x, y, n - 1);
        if window_hit(s[n - 1], x, y) is None {
            rest
        } else {
            match rest {
                Some(b) => if s[n - 1].z_order >= s[b].z_order {
                    Some(n - 1)
                } else {
                    Some(b)
                },
                None => Some(n - 1),
            }
        }
    }
}

/// What the windows have at a place.
pub open spec fn windows_hit(s: Seq<WindowStateView>, x: int, y: int) -> HitTarget {
    match front_at(s, x, y, s.len() as int) {
        Some(i) => match window_hit(s[i], x, y) {
            Some(t) => t,
            None => HitTarget::Nothing,
        },
        None => HitTarget::Nothing,
    }
}

/// Whether some window is fullscreen.
pub open spec fn has_fullscreen(s: Seq<WindowStateView>) -> bool {
    exists|i: int| 0 <= i < s.len() && (#[trigger] s[i]).fullscreen
}

/// Rows of the deskbar for `n` windows.
pub open spec fn deskbar_height(n: int) -> int {
    max_int(n + 2, 3)
}

/// What the deskbar has at a place. It covers what is behind it.
pub open spec fn deskbar_hit(n: int, minimized: bool, width: int, x: int, y: int) -> Option<
    HitTarget,
> {
    if minimized {
        if y == 0 && sub_floor(width, 4) <= x < width {
            Some(HitTarget::DeskbarMinimizeButton)
        } else {
            None
        }
    } else if 0 <= y < deskbar_height(n) && sub_floor(width, DESKBAR_WIDTH as int) <= x < width {
        if y == 0 && x >= sub_floor(width, 4) {
            Some(HitTarget::DeskbarMinimizeButton)
        } else if 1 <= y < deskbar_height(n) - 1 {
            Some(HitTarget::Deskbar((y - 1) as usize))
        } else {
            Some(HitTarget::Nothing)
        }
    } else {
        None
    }
}

/// How many entries a menu has.
pub open spec fn item_count(menu: Menu) -> int {
    match menu {
        Menu::File => 6,
        Menu::Window => 7,
        Menu::Closed => 0,
    }
}

/// The column at which the label of a menu starts.
pub open spec fn menu_column(menu: Menu) -> int {
    match menu {
        Menu::File => 2,
        Menu::Window => 10,
        Menu::Closed => 0,
    }
}

/// What the menu bar and the open menu have at a place.
pub open spec fn menu_hit(open: Menu, x: int, y: int) -> Option<HitTarget> {
    if y == 0 && 2 <= x < 8 {
        Some(HitTarget::MenuLabel(Menu::File))
    } else if y == 0 && 10 <= x < 18 {
        Some(HitTarget::MenuLabel(Menu::Window))
    } else if open != Menu::Closed && 2 <= y < 2 + item_count(open) && menu_column(open) + 1 <= x
        < menu_column(open) + 1 + MENU_WIDTH {
        Some(HitTarget::MenuItem(open, (y - 2) as usize))
    } else {
        None
    }
}

/// What is at a place of the screen: the menus lie over the deskbar, and that
/// lies over the windows. A fullscreen window has neither over it.
pub open spec fn hit_at(
    s: Seq<WindowStateView>,
    open: Menu,
    deskbar_minimized: bool,
    width: int,
    x: int,
    y: int,
) -> HitTarget {
    if has_fullscreen(s) {
        windows_hit(s, x, y)
    } else {
        match menu_hit(open, x, y) {
            Some(t) => t,
            None => match deskbar_hit(s.len() as int, deskbar_minimized, width, x, y) {
                Some(t) => t,
                None => windows_hit(s, x, y),
            },
        }
    }
}

/// What is at each place of the screen, row by row.
pub open spec fn hit_grid(
    s: Seq<WindowStateView>,
    open: Menu,
    deskbar_minimized: bool,
    screen: Rect,
) -> Seq<HitTarget> {
    Seq::new(
        (screen.width * screen.height) as nat,
        |i: int|
            hit_at(
                s,
                open,
                deskbar_minimized,
                screen.width as int,
                i % (screen.width as int),
                i / (screen.width as int),
            ),
    )
}

proof fn lemma_front_at(s: Seq<WindowStateView>, x: int, y: int, n: int)
    requires
        0 <= n <= s.len(),
    ensures
        match front_at(s, x, y, n) {
            Some(b) => 0 <= b < n && window_hit(s[b], x, y) is Some && forall|i: int|
                0 <= i < n && window_hit(#[trigger] s[i], x, y) is Some ==> s[i].z_order
                    <= s[b].z_order,
            None => forall|i: int| 0 <= i < n ==> window_hit(#[trigger] s[i], x, y) is None,
        },
    decreases n,
{
    if n > 0 {
        lemma_front_at(s, x, y, n - 1);
    }
}

/// The mouse hits the window that is highest in the stack among those that have
/// anything under it.
pub proof fn law_front_window_is_hit(s: Seq<WindowStateView>, x: int, y: int)
    ensures
        windows_hit(s, x, y) != HitTarget::Nothing ==> exists|b: int|
            0 <= b < s.len() && window_hit(s[b], x, y) == Some(windows_hit(s, x, y)) && forall|i: int|
                0 <= i < s.len() && window_hit(#[trigger] s[i], x, y) is Some ==> s[i].z_order
                    <= s[b].z_order,
        windows_hit(s, x, y) == HitTarget::Nothing ==> forall|i: int|
            0 <= i < s.len() ==> window_hit(#[trigger] s[i], x, y) is None,
{
    lemma_front_at(s, x, y, s.len() as int);
    match front_at(s, x, y, s.len() as int) {
        Some(b) => {
            lemma_window_hit_of(s[b], x, y);
            assert(window_hit(s[b], x, y) == Some(windows_hit(s, x, y)));
        },
        None => {},
    }
}

proof fn lemma_window_hit_of(win: WindowStateView, x: int, y: int)
    ensures
        window_hit(win, x, y) matches Some(t) ==> t.of_window() == Some(win.id),
{
}

/// Whatever belongs to a window belongs to one that is known.
pub proof fn law_hit_window_is_known(
    s: Seq<WindowStateView>,
    open: Menu,
    deskbar_minimized: bool,
    width: int,
    x: int,
    y: int,
)
    requires
        by_number(s),
    ensures
        hit_at(s, open, deskbar_minimized, width, x, y).of_window() matches Some(id) ==> known(
            s,
            id,
        ),
{
    lemma_front_at(s, x, y, s.len() as int);
    match front_at(s, x, y, s.len() as int) {
        Some(b) => {
            lemma_window_hit_of(s[b], x, y);
            lemma_has(s, s[b].id);
        },
        None => {},
    }
}

/// A fullscreen window hides the menus and the deskbar.
pub proof fn law_fullscreen_hides_the_bars(
    s: Seq<WindowStateView>,
    open: Menu,
    deskbar_minimized: bool,
    width: int,
    x: int,
    y: int,
)
    requires
        has_fullscreen(s),
    ensures
        hit_at(s, open, deskbar_minimized, width, x, y) == windows_hit(s, x, y),
{
}

fn hit_left_button(id: usize, col: i32) -> (r: Option<HitTarget>)
    ensures
        r == left_button(id, col as int),
{
    if 10 <= col && col <= 12 {
        Some(HitTarget::MaximizeButton(id))
    } else if 6 <= col && col <= 8 {
        Some(HitTarget::MinimizeButton(id))
    } else if 2 <= col && col <= 4 {
        Some(HitTarget::CloseButton(id))
    } else {
        None
    }
}

fn hit_body(id: usize, width: i32, height: i32, col: i32, row: i32) -> (r: Option<HitTarget>)
    requires
        0 <= width <= 0xffff,
        0 <= height <= 0xffff,
    ensures
        r == body_hit(id, width as int, height as int, col as int, row as int),
{
    if !(0 <= col && col < width && 0 <= row && row < height) {
        None
    } else if row == 0 {
        Some(HitTarget::WindowTitle(id))
    } else if col == width - 1 && row == height - 1 {
        Some(HitTarget::WindowResize(id))
    } else if col == 0 || col == width - 1 || row == height - 1 {
        Some(HitTarget::WindowBorder(id))
    } else if col == width - 2 {
        Some(HitTarget::WindowScrollbar(id))
    } else {
        Some(HitTarget::WindowContent(id))
    }
}

/// Finds what a window has at a place of the screen.
pub fn hit_window(win: &WindowState, x: u16, y: u16) -> (r: Option<HitTarget>)
    ensures
        r == window_hit(win@, x as int, y as int),
{
    let id: usize = win.id;
    let col: i32 = x as i32 - win.x as i32;
    let row: i32 = y as i32 - win.y as i32;
    let width: i32 = win.width as i32;
    let height: i32 = win.height as i32;
    if win.minimized {
        if row != 0 {
            return None;
        }
        let button = hit_left_button(id, col);
        if button.is_some() {
            return button;
        }
        if 0 <= col && col < width {
            return Some(HitTarget::WindowTitle(id));
        }
        return None;
    }
    let from_5: i32 = sub_u16(win.width, 5) as i32;
    let from_9: i32 = sub_u16(win.width, 9) as i32;
    if row == height - 1 && from_5 <= col && col < width - 1 {
        return Some(HitTarget::ResetButton(id));
    }
    if row == 0 {
        if from_5 <= col && col < from_5 + 4 {
            return Some(HitTarget::SoloButton(id));
        }
        if from_9 <= col && col < from_9 + 3 {
            return Some(HitTarget::FullscreenButton(id));
        }
        let button = hit_left_button(id, col);
        if button.is_some() {
            return button;
        }
    }
    hit_body(id, width, height, col, row)
}

/// Finds what the windows have at a place of the screen.
pub fn hit_windows(v: &Vec<WindowState>, x: u16, y: u16) -> (r: HitTarget)
    ensures
        r == windows_hit(state_views(v@), x as int, y as int),
{
    let ghost s = state_views(v@);
    let mut best: Option<usize> = None;
    let mut found = HitTarget::Nothing;
    let mut i: usize = 0;
    while i < v.len()
        invariant
            i <= v@.len(),
            s == state_views(v@),
            match best {
                Some(b) => front_at(s, x as int, y as int, i as int) == Some(b as int) && b
                    < v@.len() && window_hit(s[b as int], x as int, y as int) == Some(found),
                None => front_at(s, x as int, y as int, i as int) is None && found
                    == HitTarget::Nothing,
            },
        decreases v@.len() - i,
    {
        assert(s[i as int] == v@[i as int]@);
        if let Some(t) = hit_window(&v[i], x, y) {
            let over = match best {
                Some(b) => {
                    assert(s[b as int] == v@[b as int]@);
                    v[i].z_order >= v[b].z_order
                },
                None => true,
            };
            if over {
                best = Some(i);
                found = t;
            }
        }
        i += 1;
    }
    found
}

/// Whether some window is fullscreen.
pub fn any_fullscreen(v: &Vec<WindowState>) -> (r: bool)
    ensures
        r == has_fullscreen(state_views(v@)),
{
    let ghost s = state_views(v@);
    let mut i: usize = 0;
    while i < v.len()
        invariant
            i <= v@.len(),
            s == state_views(v@),
            forall|j: int| 0 <= j < i ==> !(#[trigger] s[j]).fullscreen,
        decreases v@.len() - i,
    {
        assert(s[i as int] == v@[i as int]@);
        if v[i].fullscreen {
            return true;
        }
        i += 1;
    }
    false
}

fn hit_deskbar(n: usize, minimized: bool, width: u16, x: u16, y: u16) -> (r: Option<HitTarget>)
    ensures
        r == deskbar_hit(n as int, minimized, width as int, x as int, y as int),
{
    if minimized {
        if y == 0 && sub_u16(width, 4) <= x && x < width {
            Some(HitTarget::DeskbarMinimizeButton)
        } else {
            None
        }
    } else if (y <= 2 || (y - 1) as usize <= n) && sub_u16(width, DESKBAR_WIDTH) <= x && x < width {
        if y == 0 && x >= sub_u16(width, 4) {
            Some(HitTarget::DeskbarMinimizeButton)
        } else if 1 <= y && (y as usize <= n || y <= 1) {
            Some(HitTarget::Deskbar((y - 1) as usize))
        } else {
            Some(HitTarget::Nothing)
        }
    } else {
        None
    }
}

fn hit_menu(open: Menu, x: u16, y: u16) -> (r: Option<HitTarget>)
    ensures
        r == menu_hit(open, x as int, y as int),
{
    if y == 0 && 2 <= x && x < 8 {
        return Some(HitTarget::MenuLabel(Menu::File));
    }
    if y == 0 && 10 <= x && x < 18 {
        return Some(HitTarget::MenuLabel(Menu::Window));
    }
    let (column, count): (u16, u16) = match open {
        Menu::File => (2, 6),
        Menu::Window => (10, 7),
        Menu::Closed => (0, 0),
    };
    if open != Menu::Closed && 2 <= y && y < 2 + count && column + 1 <= x && x < column + 1
        + MENU_WIDTH {
        Some(HitTarget::MenuItem(open, (y - 2) as usize))
    } else {
        None
    }
}

/// Finds what is at each place of the screen.
pub fn build_hit_grid(
    v: &Vec<WindowState>,
    open: Menu,
    deskbar_minimized: bool,
    screen: &Rect,
) -> (r: Vec<HitTarget>)
    ensures
        r@ == hit_grid(state_views(v@), open, deskbar_minimized, *screen),
{
    let ghost s = state_views(v@);
    let ghost grid = hit_grid(s, open, deskbar_minimized, *screen);
    let width: u16 = screen.width;
    let height: u16 = screen.height;
    let bars = !any_fullscreen(v);
    let mut r: Vec<HitTarget> = Vec::new();
    let mut y: u16 = 0;
    while y < height
        invariant
            y <= height,
            width == screen.width,
            s == state_views(v@),
            bars == !has_fullscreen(s),
            r@.len() == width * y,
            forall|i: int|
                0 <= i < r@.len() ==> #[trigger] r@[i] == hit_at(
                    s,
                    open,
                    deskbar_minimized,
                    width as int,
                    i % (width as int),
                    i / (width as int),
                ),
        decreases height - y,
    {
        let mut x: u16 = 0;
        while x < width
            invariant
                x <= width,
                s == state_views(v@),
                bars == !has_fullscreen(s),
                r@.len() == width * y + x,
                forall|i: int|
                    0 <= i < r@.len() ==> #[trigger] r@[i] == hit_at(
                        s,
                        open,
                        deskbar_minimized,
                        width as int,
                        i % (width as int),
                        i / (width as int),
                    ),
            decreases width - x,
        {
            proof {
                assert(width * y == y * width) by (nonlinear_arith);
                lemma_fundamental_div_mod_converse(
                    width * y + x,
                    width as int,
                    y as int,
                    x as int,
                );
            }
            let menu = if bars {
                hit_menu(open, x, y)
            } else {
                None
            };
            let target = match menu {
                Some(t) => t,
                None => {
                    let bar = if bars {
                        hit_deskbar(v.len(), deskbar_minimized, width, x, y)
                    } else {
                        None
                    };
                    match bar {
                        Some(t) => t,
                        None => hit_windows(v, x, y),
                    }
                },
            };
            r.push(target);
            x += 1;
        }
        assert(width * (y + 1) == width * y + width) by (nonlinear_arith);
        y += 1;
    }
    assert(screen.width * screen.height == width * height) by (nonlinear_arith)
        requires
            width == screen.width,
            height == screen.height,
    ;
    assert(r@ =~= grid);
    r
}

/// A window is hit at every cell that it takes up, and nowhere else. A minimized
/// window takes up its first row.
pub proof fn law_window_is_hit_where_it_is(win: WindowStateView, x: int, y: int)
    requires
        13 <= win.width,
        1 <= win.height,
    ensures
        window_hit(win, x, y) is Some <==> win.x <= x < win.x + win.width && win.y <= y < win.y
            + if win.minimized {
            1
        } else {
            win.height as int
        },
        window_hit(win, x, y) matches Some(t) ==> t.of_window() == Some(win.id),
{
}

/// Each part of a window is hit where it is: the title in the first row, the corner
/// for resizing at the lower right, the scroll bar left of the right edge, the
/// terminal inside of that, and the border around it. In the first row there are
/// buttons of three cells: from the left those that close, minimize and maximize
/// the window, and at the right those for fullscreen and solo mode. In the last row
/// there is one that resets the size.
pub proof fn law_parts_of_a_window_are_hit(win: WindowStateView, col: int, row: int)
    requires
        !win.minimized,
        22 <= win.width,
        3 <= win.height,
        0 <= col < win.width,
        0 <= row < win.height,
    ensures
        ({
            let hit = window_hit(win, win.x + col, win.y + row)->0;
            let w = win.width as int;
            let last = win.height - 1;
            &&& 1 <= row < last && 1 <= col < w - 2 ==> hit == HitTarget::WindowContent(win.id)
            &&& 1 <= row < last && col == w - 2 ==> hit == HitTarget::WindowScrollbar(win.id)
            &&& 1 <= row < last && (col == 0 || col == w - 1) ==> hit == HitTarget::WindowBorder(
                win.id,
            )
            &&& row == last && col < w - 5 ==> hit == HitTarget::WindowBorder(win.id)
            &&& row == last && w - 5 <= col < w - 1 ==> hit == HitTarget::ResetButton(win.id)
            &&& row == last && col == w - 1 ==> hit == HitTarget::WindowResize(win.id)
            &&& row == 0 && 2 <= col <= 4 ==> hit == HitTarget::CloseButton(win.id)
            &&& row == 0 && 6 <= col <= 8 ==> hit == HitTarget::MinimizeButton(win.id)
            &&& row == 0 && 10 <= col <= 12 ==> hit == HitTarget::MaximizeButton(win.id)
            &&& row == 0 && w - 9 <= col <= w - 7 ==> hit == HitTarget::FullscreenButton(win.id)
            &&& row == 0 && w - 5 <= col <= w - 2 ==> hit == HitTarget::SoloButton(win.id)
            &&& row == 0 && (col < 2 || col == 5 || col == 9 || 12 < col < w - 9 || col == w - 6
                || col == w - 1) ==> hit == HitTarget::WindowTitle(win.id)
        }),
{
}

/// A minimized window has its title and the buttons that close, minimize and
/// maximize it.
pub proof fn law_parts_of_a_minimized_window_are_hit(win: WindowStateView, col: int)
    requires
        win.minimized,
        13 <= win.width,
        0 <= col < win.width,
    ensures
        ({
            let hit = window_hit(win, win.x + col, win.y as int)->0;
            &&& 2 <= col <= 4 ==> hit == HitTarget::CloseButton(win.id)
            &&& 6 <= col <= 8 ==> hit == HitTarget::MinimizeButton(win.id)
            &&& 10 <= col <= 12 ==> hit == HitTarget::MaximizeButton(win.id)
            &&& col < 2 || col == 5 || col == 9 || 12 < col ==> hit == HitTarget::WindowTitle(
                win.id,
            )
        }),
{
}

/// Without a fullscreen window the menus are hit first, then the deskbar, and then
/// the windows. The deskbar is at the right edge and has an entry for each window,
/// from its second row on; when it is minimized there is just the button that
/// brings it back.
pub proof fn law_bars_lie_over_the_windows(
    s: Seq<WindowStateView>,
    open: Menu,
    minimized: bool,
    width: int,
    x: int,
    y: int,
)
    requires
        !has_fullscreen(s),
        s.len() <= usize::MAX,
        40 <= width,
        0 <= x < width,
        0 <= y,
    ensures
        ({
            let hit = hit_at(s, open, minimized, width, x, y);
            let over_menu = open != Menu::Closed && menu_column(open) + 1 <= x < menu_column(open)
                + 1 + MENU_WIDTH && 2 <= y < 2 + item_count(open);
            &&& y == 0 && 2 <= x < 8 ==> hit == HitTarget::MenuLabel(Menu::File)
            &&& y == 0 && 10 <= x < 18 ==> hit == HitTarget::MenuLabel(Menu::Window)
            &&& over_menu ==> hit == HitTarget::MenuItem(open, (y - 2) as usize)
            &&& y == 0 && width - 4 <= x ==> hit == HitTarget::DeskbarMinimizeButton
            &&& !over_menu && !minimized && width - 16 <= x && 1 <= y <= s.len() ==> hit
                == HitTarget::Deskbar((y - 1) as usize)
            &&& !over_menu && !minimized && width - 16 <= x && y == s.len() + 1 && s.len() > 0
                ==> hit == HitTarget::Nothing
            &&& !over_menu && !(y == 0 && (2 <= x < 8 || 10 <= x < 18)) && (x < width - 16 || y
                > s.len() + 2) ==> hit == windows_hit(s, x, y)
            &&& !over_menu && minimized && y > 0 ==> hit == windows_hit(s, x, y)
        }),
{
}

/// What is hit at a place is worked out for every place of the screen.
pub proof fn law_every_place_has_its_target(
    s: Seq<WindowStateView>,
    open: Menu,
    minimized: bool,
    screen: Rect,
    x: int,
    y: int,
)
    requires
        0 <= x < screen.width,
        0 <= y < screen.height,
    ensures
        hit_grid(s, open, minimized, screen).len() == screen.width * screen.height,
        hit_grid(s, open, minimized, screen)[y * screen.width + x] == hit_at(
            s,
            open,
            minimized,
            screen.width as int,
            x,
            y,
        ),
{
    let w = screen.width as int;
    assert(0 <= y * w + x < w * screen.height) by (nonlinear_arith)
        requires
            0 <= x < w,
            0 <= y < screen.height,
    ;
    lemma_fundamental_div_mod_converse(y * w + x, w, y, x);
}

/// Some window is fullscreen exactly where one of them is.
pub proof fn law_fullscreen_is_noticed(s: Seq<WindowStateView>, i: int)
    requires
        0 <= i < s.len(),
        s[i].fullscreen,
    ensures
        has_fullscreen(s),
{
}

/// In a window of any size the rows between the first and the last have the border at
/// the edges, the scroll bar left of the right one, and the terminal between.
pub proof fn law_inside_of_any_window_is_hit(win: WindowStateView, col: int, row: int)
    requires
        !win.minimized,
        3 <= win.width,
        1 <= row < win.height - 1,
        0 <= col < win.width,
    ensures
        ({
            let hit = window_hit(win, win.x + col, win.y + row);
            &&& col == 0 || col == win.width - 1 ==> hit == Some(HitTarget::WindowBorder(win.id))
            &&& col == win.width - 2 ==> hit == Some(HitTarget::WindowScrollbar(win.id))
            &&& 1 <= col < win.width - 2 ==> hit == Some(HitTarget::WindowContent(win.id))
        }),
        window_hit(win, win.x + win.width - 1, win.y + win.height - 1) == Some(
            HitTarget::WindowResize(win.id),
        ),
{
}

/// In the title line of a window of any usual width the buttons at the right end come
/// first, then those at the left, and the rest is the title; in the last line a button
/// stands before the corner, and the rest is border.
pub proof fn law_buttons_of_any_window_are_hit(win: WindowStateView, col: int)
    requires
        !win.minimized,
        9 <= win.width,
        2 <= win.height,
        0 <= col < win.width,
    ensures
        ({
            let hit = window_hit(win, win.x + col, win.y as int);
            let low = window_hit(win, win.x + col, win.y + win.height - 1);
            let solo = win.width - 5 <= col < win.width - 1;
            let full = win.width - 9 <= col < win.width - 6;
            &&& solo <==> hit == Some(HitTarget::SoloButton(win.id))
            &&& full <==> hit == Some(HitTarget::FullscreenButton(win.id))
            &&& !solo && !full ==> {
                &&& 2 <= col <= 4 <==> hit == Some(HitTarget::CloseButton(win.id))
                &&& 6 <= col <= 8 <==> hit == Some(HitTarget::MinimizeButton(win.id))
                &&& 10 <= col <= 12 <==> hit == Some(HitTarget::MaximizeButton(win.id))
                &&& col < 2 || col == 5 || col == 9 || col > 12 <==> hit == Some(
                    HitTarget::WindowTitle(win.id),
                )
            }
            &&& solo <==> low == Some(HitTarget::ResetButton(win.id))
            &&& col == win.width - 1 <==> low == Some(HitTarget::WindowResize(win.id))
            &&& col < win.width - 5 <==> low == Some(HitTarget::WindowBorder(win.id))
        }),
{
}

} // verus!
