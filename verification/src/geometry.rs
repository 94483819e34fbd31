//! Rectangles of character cells, and where windows go on the screen.

use vstd::prelude::*;

verus! {

/// Smallest width that a new window gets.
pub const MIN_WIDTH: u16 = 10;

/// Smallest height that a new window gets.
pub const MIN_HEIGHT: u16 = 3;

/// A rectangle on the screen: the position of its upper left cell, and its size.
#[derive(Debug, Clone, Copy, PartialEq, Eq, Structural)]
pub struct Rect {
    pub x: u16,
    pub y: u16,
    pub width: u16,
    pub height: u16,
}

/// The smaller of two numbers.
pub open spec fn min_int(a: int, b: int) -> int {
    if a <= b {
        a
    } else {
        b
    }
}

/// The larger of two numbers.
pub open spec fn max_int(a: int, b: int) -> int {
    if a <= b {
        b
    } else {
        a
    }
}

/// `v`, moved into the range from `lo` to `hi`.
pub open spec fn clamp_int(v: int, lo: int, hi: int) -> int {
    if v < lo {
        lo
    } else if v > hi {
        hi
    } else {
        v
    }
}

/// What is left of `a` after taking `b` away, never below zero.
pub open spec fn sub_floor(a: int, b: int) -> int {
    if a >= b {
        a - b
    } else {
        0
    }
}

pub fn min_u16(a: u16, b: u16) -> (r: u16)
    ensures
        r == min_int(a as int, b as int),
{
    if a <= b {
        a
    } else {
        b
    }
}

pub fn max_u16(a: u16, b: u16) -> (r: u16)
    ensures
        r == max_int(a as int, b as int),
{
    if a <= b {
        b
    } else {
        a
    }
}

pub fn sub_u16(a: u16, b: u16) -> (r: u16)
    ensures
        r == sub_floor(a as int, b as int),
{
    if a >= b {
        a - b
    } else {
        0
    }
}

impl Rect {
    /// The rectangle at a position with a size, cut off where coordinates end.
    pub open spec fn at(x: u16, y: u16, width: u16, height: u16) -> Rect {
        Rect {
            x,
            y,
            width: min_int(width as int, u16::MAX - x) as u16,
            height: min_int(height as int, u16::MAX - y) as u16,
        }
    }

    /// The column just right of the rectangle.
    pub open spec fn right_edge(self) -> int {
        min_int(self.x + self.width, u16::MAX as int)
    }

    /// The row just below the rectangle.
    pub open spec fn bottom_edge(self) -> int {
        min_int(self.y + self.height, u16::MAX as int)
    }

    /// Whether the rectangle ends before coordinates do.
    pub open spec fn fits(self) -> bool {
        self.x + self.width <= u16::MAX && self.y + self.height <= u16::MAX
    }

    /// Whether a cell lies in the rectangle.
    pub open spec fn covers(self, px: int, py: int) -> bool {
        self.x <= px < self.right_edge() && self.y <= py < self.bottom_edge()
    }

    /// Whether two rectangles overlap.
    pub open spec fn meets(self, other: Rect) -> bool {
        self.x < other.right_edge() && other.x < self.right_edge() && self.y < other.bottom_edge()
            && other.y < self.bottom_edge()
    }

    /// The part that two rectangles share.
    pub open spec fn common(self, other: Rect) -> Rect {
        let x = max_int(self.x as int, other.x as int);
        let y = max_int(self.y as int, other.y as int);
        Rect {
            x: x as u16,
            y: y as u16,
            width: sub_floor(min_int(self.right_edge(), other.right_edge()), x) as u16,
            height: sub_floor(min_int(self.bottom_edge(), other.bottom_edge()), y) as u16,
        }
    }

    /// Whether every cell of `other` lies in the rectangle, edge for edge.
    pub open spec fn encloses(self, other: Rect) -> bool {
        self.x <= other.x && self.y <= other.y && other.x + other.width <= self.x + self.width
            && other.y + other.height <= self.y + self.height
    }

    pub fn new(x: u16, y: u16, width: u16, height: u16) -> (r: Self)
        ensures
            r == Rect::at(x, y, width, height),
            r.fits(),
    {
        Rect { x, y, width: min_u16(width, u16::MAX - x), height: min_u16(height, u16::MAX - y) }
    }

    pub fn right(&self) -> (r: u16)
        ensures
            r == self.right_edge(),
    {
        if self.width <= u16::MAX - self.x {
            self.x + self.width
        } else {
            u16::MAX
        }
    }

    pub fn bottom(&self) -> (r: u16)
        ensures
            r == self.bottom_edge(),
    {
        if self.height <= u16::MAX - self.y {
            self.y + self.height
        } else {
            u16::MAX
        }
    }

    pub fn is_empty(&self) -> (r: bool)
        ensures
            r == (self.width == 0 || self.height == 0),
    {
        self.width == 0 || self.height == 0
    }

    pub fn contains(&self, px: u16, py: u16) -> (r: bool)
        ensures
            r == self.covers(px as int, py as int),
    {
        self.x <= px && px < self.right() && self.y <= py && py < self.bottom()
    }

    pub fn intersects(&self, other: &Rect) -> (r: bool)
        ensures
            r == self.meets(*other),
    {
        self.x < other.right() && self.right() > other.x && self.y < other.bottom() && self.bottom()
            > other.y
    }

    pub fn intersection(&self, other: &Rect) -> (r: Rect)
        ensures
            r == self.common(*other),
            r.fits(),
    {
        let x: u16 = max_u16(self.x, other.x);
        let y: u16 = max_u16(self.y, other.y);
        Rect {
            x,
            y,
            width: sub_u16(min_u16(self.right(), other.right()), x),
            height: sub_u16(min_u16(self.bottom(), other.bottom()), y),
        }
    }
}

/// Two rectangles that are not empty overlap exactly where some cell lies in
/// both, and that cell then lies in the shared part. A rectangle in the last
/// column or row that coordinates reach has no cell of its own.
pub proof fn law_overlap_is_a_common_cell(a: Rect, b: Rect)
    requires
        a.fits(),
        b.fits(),
        a.width > 0 && a.height > 0 && b.width > 0 && b.height > 0,
    ensures
        a.meets(b) <==> exists|px: int, py: int| #[trigger]
            a.covers(px, py) && b.covers(px, py),
        forall|px: int, py: int| #[trigger]
            a.common(b).covers(px, py) <==> a.covers(px, py) && b.covers(px, py),
{
    if a.meets(b) {
        let px = max_int(a.x as int, b.x as int);
        let py = max_int(a.y as int, b.y as int);
        assert(a.covers(px, py) && b.covers(px, py));
    }
}

/// The rectangle that a new window gets on a screen.
pub open spec fn fitted(x: u16, y: u16, width: u16, height: u16, screen: Rect) -> Rect {
    let w = clamp_int(width as int, MIN_WIDTH as int, sub_floor(screen.width as int, 2));
    let h = clamp_int(height as int, MIN_HEIGHT as int, sub_floor(screen.height as int, 2));
    Rect {
        x: min_int(x as int, sub_floor(sub_floor(screen.width as int, w), 1)) as u16,
        y: min_int(y as int, sub_floor(sub_floor(screen.height as int, h), 1)) as u16,
        width: w as u16,
        height: h as u16,
    }
}

/// Whether a screen has room for a window of the smallest size.
pub open spec fn has_room(screen: Rect) -> bool {
    MIN_WIDTH + 2 <= screen.width && MIN_HEIGHT + 2 <= screen.height
}

/// Makes a window fit on the screen: its size first, then its position.
pub fn fit_window(x: u16, y: u16, width: u16, height: u16, screen: &Rect) -> (r: Rect)
    requires
        has_room(*screen),
    ensures
        r == fitted(x, y, width, height, *screen),
        r.fits(),
{
    let w: u16 = max_u16(MIN_WIDTH, min_u16(width, sub_u16(screen.width, 2)));
    let h: u16 = max_u16(MIN_HEIGHT, min_u16(height, sub_u16(screen.height, 2)));
    let fx: u16 = min_u16(x, sub_u16(sub_u16(screen.width, w), 1));
    let fy: u16 = min_u16(y, sub_u16(sub_u16(screen.height, h), 1));
    Rect::new(fx, fy, w, h)
}

/// A new window lies on the screen, at least one column left of its right edge
/// and one row above its bottom edge, and is no smaller than the smallest size.
pub proof fn law_new_window_is_on_screen(x: u16, y: u16, width: u16, height: u16, screen: Rect)
    requires
        has_room(screen),
    ensures
        ({
            let r = fitted(x, y, width, height, screen);
            &&& r.x + r.width < screen.width
            &&& r.y + r.height < screen.height
            &&& MIN_WIDTH <= r.width
            &&& MIN_HEIGHT <= r.height
        }),
{
}

/// The size that a request for a window at a position is cut down to: what is
/// left of the screen there, but never less than the smallest size.
pub open spec fn requested_extent(pos: int, wanted: int, screen: int, least: int) -> int {
    min_int(wanted, max_int(sub_floor(sub_floor(screen, pos), 2), least))
}

pub fn fit_request(pos: u16, wanted: u16, screen: u16, least: u16) -> (r: u16)
    ensures
        r == requested_extent(pos as int, wanted as int, screen as int, least as int),
{
    min_u16(wanted, max_u16(sub_u16(sub_u16(screen, pos), 2), least))
}

/// Whether a rectangle overlaps one of the others.
pub open spec fn blocked(r: Rect, others: Seq<Rect>) -> bool {
    exists|i: int| 0 <= i < others.len() && r.meets(#[trigger] others[i])
}

pub fn is_blocked(r: &Rect, others: &Vec<Rect>) -> (b: bool)
    ensures
        b == blocked(*r, others@),
{
    let mut i: usize = 0;
    while i < others.len()
        invariant
            i <= others@.len(),
            forall|j: int| 0 <= j < i ==> !r.meets(#[trigger] others@[j]),
        decreases others@.len() - i,
    {
        if r.intersects(&others[i]) {
            return true;
        }
        i += 1;
    }
    false
}

/// One row more at the top.
pub open spec fn taller_up(r: Rect) -> Rect {
    Rect { y: (r.y - 1) as u16, height: (r.height + 1) as u16, ..r }
}

/// One row more at the bottom.
pub open spec fn taller_down(r: Rect) -> Rect {
    Rect { height: (r.height + 1) as u16, ..r }
}

/// One column more on the left.
pub open spec fn wider_left(r: Rect) -> Rect {
    Rect { x: (r.x - 1) as u16, width: (r.width + 1) as u16, ..r }
}

/// One column more on the right.
pub open spec fn wider_right(r: Rect) -> Rect {
    Rect { width: (r.width + 1) as u16, ..r }
}

/// `r` grown upwards until the row below the menu bar or another window.
pub open spec fn grown_up(r: Rect, others: Seq<Rect>) -> Rect
    decreases r.y,
{
    if r.y > 1 && !blocked(taller_up(r), others) {
        grown_up(taller_up(r), others)
    } else {
        r
    }
}

/// `r` grown downwards until the row `limit` or another window.
pub open spec fn grown_down(r: Rect, limit: int, others: Seq<Rect>) -> Rect
    decreases limit - (r.y + r.height),
{
    if r.y + r.height < limit && r.height < u16::MAX && !blocked(taller_down(r), others) {
        grown_down(taller_down(r), limit, others)
    } else {
        r
    }
}

/// `r` grown to the left until the second column or another window.
pub open spec fn grown_left(r: Rect, others: Seq<Rect>) -> Rect
    decreases r.x,
{
    if r.x > 1 && !blocked(wider_left(r), others) {
        grown_left(wider_left(r), others)
    } else {
        r
    }
}

/// `r` grown to the right until the column `limit` or another window.
pub open spec fn grown_right(r: Rect, limit: int, others: Seq<Rect>) -> Rect
    decreases limit - (r.x + r.width),
{
    if r.x + r.width < limit && r.width < u16::MAX && !blocked(wider_right(r), others) {
        grown_right(wider_right(r), limit, others)
    } else {
        r
    }
}

/// `r` grown in all directions, up, down, left and right in this order, until
/// it reaches the others or the frame of the screen.
pub open spec fn maximized(r: Rect, screen: Rect, others: Seq<Rect>) -> Rect {
    let up = grown_up(r, others);
    let down = grown_down(up, sub_floor(screen.height as int, 1), others);
    let left = grown_left(down, others);
    grown_right(left, sub_floor(screen.width as int, 1), others)
}

/// Grows a rectangle in all directions until it would overlap one of the
/// others or leave the screen.
pub fn maximize(r: Rect, screen: &Rect, others: &Vec<Rect>) -> (m: Rect)
    requires
        r.fits(),
    ensures
        m == maximized(r, *screen, others@),
        m.fits(),
{
    let mut cur: Rect = r;
    while cur.y > 1
        invariant
            cur.fits(),
            grown_up(cur, others@) == grown_up(r, others@),
        ensures
            cur.fits(),
            cur == grown_up(r, others@),
        decreases cur.y,
    {
        let t: Rect = Rect { x: cur.x, y: cur.y - 1, width: cur.width, height: cur.height + 1 };
        assert(t == taller_up(cur));
        if is_blocked(&t, others) {
            break;
        }
        cur = t;
    }
    let ghost up = cur;
    let limit: u16 = sub_u16(screen.height, 1);
    while cur.y + cur.height < limit
        invariant
            cur.fits(),
            limit <= u16::MAX,
            grown_down(cur, limit as int, others@) == grown_down(up, limit as int, others@),
        ensures
            cur.fits(),
            cur == grown_down(up, limit as int, others@),
        decreases limit - (cur.y + cur.height),
    {
        let t: Rect = Rect { x: cur.x, y: cur.y, width: cur.width, height: cur.height + 1 };
        assert(t == taller_down(cur));
        if is_blocked(&t, others) {
            break;
        }
        cur = t;
    }
    let ghost down = cur;
    while cur.x > 1
        invariant
            cur.fits(),
            grown_left(cur, others@) == grown_left(down, others@),
        ensures
            cur.fits(),
            cur == grown_left(down, others@),
        decreases cur.x,
    {
        let t: Rect = Rect { x: cur.x - 1, y: cur.y, width: cur.width + 1, height: cur.height };
        assert(t == wider_left(cur));
        if is_blocked(&t, others) {
            break;
        }
        cur = t;
    }
    let ghost left = cur;
    let limit_w: u16 = sub_u16(screen.width, 1);
    while cur.x + cur.width < limit_w
        invariant
            cur.fits(),
            grown_right(cur, limit_w as int, others@) == grown_right(left, limit_w as int, others@),
        ensures
            cur.fits(),
            cur == grown_right(left, limit_w as int, others@),
        decreases limit_w - (cur.x + cur.width),
    {
        let t: Rect = Rect { x: cur.x, y: cur.y, width: cur.width + 1, height: cur.height };
        assert(t == wider_right(cur));
        if is_blocked(&t, others) {
            break;
        }
        cur = t;
    }
    cur
}

/// A larger rectangle overlaps whatever a smaller one inside it overlaps.
proof fn lemma_blocked_inside(a: Rect, b: Rect, others: Seq<Rect>)
    requires
        b.encloses(a),
        a.fits(),
        b.fits(),
    ensures
        blocked(a, others) ==> blocked(b, others),
{
    if blocked(a, others) {
        let i = choose|i: int| 0 <= i < others.len() && a.meets(#[trigger] others[i]);
        assert(b.meets(others[i]));
    }
}

proof fn lemma_grown_up(r: Rect, others: Seq<Rect>)
    requires
        r.fits(),
    ensures
        ({
            let g = grown_up(r, others);
            &&& g.fits()
            &&& g.encloses(r)
            &&& g.x == r.x && g.width == r.width && g.y + g.height == r.y + r.height
            &&& g.y <= 1 || blocked(taller_up(g), others)
            &&& r.y >= 1 ==> g.y >= 1
            &&& !blocked(r, others) ==> !blocked(g, others)
        }),
    decreases r.y,
{
    if r.y > 1 && !blocked(taller_up(r), others) {
        lemma_grown_up(taller_up(r), others);
    }
}

proof fn lemma_grown_down(r: Rect, limit: int, others: Seq<Rect>)
    requires
        r.fits(),
        limit < u16::MAX,
    ensures
        ({
            let g = grown_down(r, limit, others);
            &&& g.fits()
            &&& g.encloses(r)
            &&& g.x == r.x && g.y == r.y && g.width == r.width
            &&& g.y + g.height >= limit || blocked(taller_down(g), others)
            &&& r.y + r.height <= limit ==> g.y + g.height <= limit
            &&& !blocked(r, others) ==> !blocked(g, others)
        }),
    decreases limit - (r.y + r.height),
{
    if r.y + r.height < limit && r.height < u16::MAX && !blocked(taller_down(r), others) {
        lemma_grown_down(taller_down(r), limit, others);
    }
}

proof fn lemma_grown_left(r: Rect, others: Seq<Rect>)
    requires
        r.fits(),
    ensures
        ({
            let g = grown_left(r, others);
            &&& g.fits()
            &&& g.encloses(r)
            &&& g.y == r.y && g.height == r.height && g.x + g.width == r.x + r.width
            &&& g.x <= 1 || blocked(wider_left(g), others)
            &&& r.x >= 1 ==> g.x >= 1
            &&& !blocked(r, others) ==> !blocked(g, others)
        }),
    decreases r.x,
{
    if r.x > 1 && !blocked(wider_left(r), others) {
        lemma_grown_left(wider_left(r), others);
    }
}

proof fn lemma_grown_right(r: Rect, limit: int, others: Seq<Rect>)
    requires
        r.fits(),
        limit < u16::MAX,
    ensures
        ({
            let g = grown_right(r, limit, others);
            &&& g.fits()
            &&& g.encloses(r)
            &&& g.x == r.x && g.y == r.y && g.height == r.height
            &&& g.x + g.width >= limit || blocked(wider_right(g), others)
            &&& r.x + r.width <= limit ==> g.x + g.width <= limit
            &&& !blocked(r, others) ==> !blocked(g, others)
        }),
    decreases limit - (r.x + r.width),
{
    if r.x + r.width < limit && r.width < u16::MAX && !blocked(wider_right(r), others) {
        lemma_grown_right(wider_right(r), limit, others);
    }
}

/// A maximized window has grown in every direction as far as it can: on each
/// side it has reached the frame of the screen, or one step more would overlap
/// another window. It still covers what it covered, and it overlaps no window
/// unless it did before.
pub proof fn law_maximized_reaches_others_or_edge(r: Rect, screen: Rect, others: Seq<Rect>)
    requires
        r.fits(),
    ensures
        ({
            let m = maximized(r, screen, others);
            &&& m.encloses(r)
            &&& !blocked(r, others) ==> !blocked(m, others)
            &&& m.y <= 1 || blocked(taller_up(m), others)
            &&& m.x <= 1 || blocked(wider_left(m), others)
            &&& m.y + m.height >= screen.height - 1 || blocked(taller_down(m), others)
            &&& m.x + m.width >= screen.width - 1 || blocked(wider_right(m), others)
        }),
{
    let bottom = sub_floor(screen.height as int, 1);
    let right = sub_floor(screen.width as int, 1);
    let up = grown_up(r, others);
    let down = grown_down(up, bottom, others);
    let left = grown_left(down, others);
    let m = grown_right(left, right, others);
    lemma_grown_up(r, others);
    lemma_grown_down(up, bottom, others);
    lemma_grown_left(down, others);
    lemma_grown_right(left, right, others);
    if m.y > 1 {
        lemma_blocked_inside(taller_up(up), taller_up(m), others);
    }
    if m.x > 1 {
        lemma_blocked_inside(wider_left(left), wider_left(m), others);
    }
    if m.y + m.height < screen.height - 1 {
        lemma_blocked_inside(taller_down(down), taller_down(m), others);
    }
}

/// A window inside the frame of the screen stays inside it when maximized.
pub proof fn law_maximized_stays_inside_frame(r: Rect, screen: Rect, others: Seq<Rect>)
    requires
        r.x >= 1,
        r.y >= 1,
        r.x + r.width <= screen.width - 1,
        r.y + r.height <= screen.height - 1,
    ensures
        ({
            let m = maximized(r, screen, others);
            &&& m.x >= 1
            &&& m.y >= 1
            &&& m.x + m.width <= screen.width - 1
            &&& m.y + m.height <= screen.height - 1
        }),
{
    let bottom = sub_floor(screen.height as int, 1);
    let right = sub_floor(screen.width as int, 1);
    let up = grown_up(r, others);
    let down = grown_down(up, bottom, others);
    let left = grown_left(down, others);
    lemma_grown_up(r, others);
    lemma_grown_down(up, bottom, others);
    lemma_grown_left(down, others);
    lemma_grown_right(left, right, others);
}

/// A rectangle that already overlaps one of the others does not grow.
pub proof fn law_blocked_rectangle_stays(r: Rect, screen: Rect, others: Seq<Rect>)
    requires
        r.fits(),
        blocked(r, others),
    ensures
        maximized(r, screen, others) == r,
{
    if r.y > 1 {
        lemma_blocked_inside(r, taller_up(r), others);
    }
    if r.y + r.height < screen.height - 1 {
        lemma_blocked_inside(r, taller_down(r), others);
    }
    if r.x > 1 {
        lemma_blocked_inside(r, wider_left(r), others);
    }
    if r.x + r.width < screen.width - 1 {
        lemma_blocked_inside(r, wider_right(r), others);
    }
}

/// Where nothing is in the way, a maximized rectangle fills the screen but for a
/// frame of one cell.
pub proof fn law_free_rectangle_fills_the_screen(r: Rect, screen: Rect)
    requires
        1 <= r.x,
        1 <= r.y,
        r.x + r.width <= screen.width - 1,
        r.y + r.height <= screen.height - 1,
    ensures
        ({
            let m = maximized(r, screen, Seq::empty());
            &&& m.x == 1
            &&& m.y == 1
            &&& m.width == screen.width - 2
            &&& m.height == screen.height - 2
        }),
{
    law_maximized_reaches_others_or_edge(r, screen, Seq::empty());
    law_maximized_stays_inside_frame(r, screen, Seq::empty());
}

/// A request for a window at a place is cut down to what is left of the screen
/// there, but for a frame, and never to less than the smallest size; what fits is
/// left as it is.
pub proof fn law_request_is_cut_to_the_screen(pos: int, wanted: int, screen: int, least: int)
    requires
        0 <= pos,
        0 <= wanted,
        0 <= screen,
        0 <= least,
    ensures
        requested_extent(pos, wanted, screen, least) <= wanted,
        pos + wanted + 2 <= screen ==> requested_extent(pos, wanted, screen, least) == wanted,
        wanted <= least ==> requested_extent(pos, wanted, screen, least) == wanted,
        wanted > least && pos + wanted + 2 > screen ==> requested_extent(pos, wanted, screen, least)
            == if pos + least + 2 <= screen {
            screen - pos - 2
        } else {
            least
        },
{
}

/// A new window that fits on the screen is where it was asked for. One that is too
/// large is cut to the screen but for a frame, and one too far right or down is
/// moved so that it ends a cell before the edge.
pub proof fn law_new_window_is_as_asked_where_it_fits(
    x: u16,
    y: u16,
    width: u16,
    height: u16,
    screen: Rect,
)
    requires
        has_room(screen),
    ensures
        ({
            let r = fitted(x, y, width, height, screen);
            &&& MIN_WIDTH <= width <= screen.width - 2 ==> r.width == width
            &&& width > screen.width - 2 ==> r.width == screen.width - 2
            &&& width < MIN_WIDTH ==> r.width == MIN_WIDTH
            &&& MIN_HEIGHT <= height <= screen.height - 2 ==> r.height == height
            &&& height > screen.height - 2 ==> r.height == screen.height - 2
            &&& height < MIN_HEIGHT ==> r.height == MIN_HEIGHT
            &&& x + r.width < screen.width ==> r.x == x
            &&& x + r.width >= screen.width ==> r.x + r.width == screen.width - 1
            &&& y + r.height < screen.height ==> r.y == y
            &&& y + r.height >= screen.height ==> r.y + r.height == screen.height - 1
        }),
{
}

/// A rectangle grows up and down before it grows to the sides: with its own columns
/// it could not be taller.
pub proof fn law_maximized_grows_up_and_down_first(r: Rect, screen: Rect, others: Seq<Rect>)
    requires
        r.fits(),
    ensures
        ({
            let m = maximized(r, screen, others);
            let tall = Rect { x: r.x, width: r.width, ..m };
            &&& tall.y <= 1 || blocked(taller_up(tall), others)
            &&& tall.y + tall.height >= screen.height - 1 || blocked(taller_down(tall), others)
            &&& !blocked(r, others) ==> !blocked(tall, others)
        }),
{
    let bottom = sub_floor(screen.height as int, 1);
    let up = grown_up(r, others);
    let down = grown_down(up, bottom, others);
    let left = grown_left(down, others);
    lemma_grown_up(r, others);
    lemma_grown_down(up, bottom, others);
    lemma_grown_left(down, others);
    lemma_grown_right(left, sub_floor(screen.width as int, 1), others);
    let m = maximized(r, screen, others);
    let tall = Rect { x: r.x, width: r.width, ..m };
    assert(tall == down);
    if down.y > 1 {
        lemma_blocked_inside(taller_up(up), taller_up(down), others);
    }
}

/// A rectangle that ends before coordinates do is made as it is asked for; another is
/// cut off where they end.
pub proof fn law_rectangle_is_made_as_asked(x: u16, y: u16, width: u16, height: u16)
    ensures
        ({
            let r = Rect::at(x, y, width, height);
            &&& r.x == x && r.y == y
            &&& x + width <= u16::MAX ==> r.width == width
            &&& x + width > u16::MAX ==> r.x + r.width == u16::MAX
            &&& y + height <= u16::MAX ==> r.height == height
            &&& y + height > u16::MAX ==> r.y + r.height == u16::MAX
        }),
{
}

/// A rectangle covers the cells from its position on, as many columns and rows as it
/// has.
pub proof fn law_rectangle_covers_its_cells(r: Rect, px: int, py: int)
    requires
        r.fits(),
    ensures
        r.covers(px, py) <==> r.x <= px < r.x + r.width && r.y <= py < r.y + r.height,
        r.right_edge() == r.x + r.width,
        r.bottom_edge() == r.y + r.height,
{
}

} // verus!
