//! Tiling: all windows that are shown, side by side in a grid.

use vstd::prelude::*;
use vstd::arithmetic::div_mod::{
    lemma_div_is_ordered, lemma_div_nonincreasing, lemma_div_pos_is_pos, lemma_fundamental_div_mod,
    lemma_mod_bound, lemma_multiply_divide_lt,
};
use crate::arrange::{inside, term_size, TermSize};
use crate::geometry::{sub_floor, sub_u16, Rect, MIN_HEIGHT, MIN_WIDTH};
use crate::server::{ServerState, ServerStateView, SCROLLBACK_SIZE};
use crate::snapshot::{lemma_position_from, position, WindowInfoView};
use crate::solo::{lemma_shown, shown};

verus! {

broadcast use vstd::std_specs::hash::group_hash_axioms;

/// The first number from `c` on whose square is at least `n`.
pub open spec fn root_up(n: int, c: int) -> int
    decreases n - c,
{
    if c >= n || c * c >= n {
        c
    } else {
        root_up(n, c + 1)
    }
}

/// Columns of a grid for `n` windows: as many as makes it about square.
pub open spec fn grid_cols(n: int) -> int {
    root_up(n, 1)
}

/// The rows that `n` windows take in `cols` columns.
pub open spec fn rows_for(n: int, cols: int) -> int {
    (n - 1) / cols + 1
}

/// The part of the screen that is divided: all but its frame.
pub open spec fn desk(screen: Rect) -> Rect {
    Rect {
        x: 1,
        y: 1,
        width: sub_floor(screen.width as int, 2) as u16,
        height: sub_floor(screen.height as int, 2) as u16,
    }
}

/// Whether `cols` columns and `rows` rows of the smallest windows have room on
/// the screen.
pub open spec fn has_grid(screen: Rect, cols: int, rows: int) -> bool {
    cols * MIN_WIDTH <= desk(screen).width && rows * MIN_HEIGHT <= desk(screen).height
}

/// Whether there is a grid in which each of `n` windows gets at least the
/// smallest size.
pub open spec fn can_tile(screen: Rect, n: int) -> bool {
    n > 0 && exists|cols: int, rows: int|
        cols >= 1 && rows >= 1 && cols * rows >= n && #[trigger] has_grid(screen, cols, rows)
}

/// Columns of the grid that `n` windows are put into: those of the grid that is
/// about square where it has room, and else those that follow from as many rows
/// as have room.
pub open spec fn tile_cols(screen: Rect, n: int) -> int {
    if has_grid(screen, grid_cols(n), rows_for(n, grid_cols(n))) {
        grid_cols(n)
    } else {
        rows_for(n, desk(screen).height as int / MIN_HEIGHT as int)
    }
}

/// Rows of the grid that `n` windows are put into.
pub open spec fn tile_rows(screen: Rect, n: int) -> int {
    rows_for(n, tile_cols(screen, n))
}

/// The place of the window number `i` of `n` in the grid, row by row.
pub open spec fn tile(screen: Rect, n: int, i: int) -> Rect {
    let w = desk(screen).width as int / tile_cols(screen, n);
    let h = desk(screen).height as int / tile_rows(screen, n);
    Rect {
        x: (1 + i % tile_cols(screen, n) * w) as u16,
        y: (1 + i / tile_cols(screen, n) * h) as u16,
        width: w as u16,
        height: h as u16,
    }
}

impl WindowInfoView {
    /// At a place in the grid.
    pub open spec fn tiled_at(self, rect: Rect) -> WindowInfoView {
        WindowInfoView { rect, saved_rect: None, fullscreen: false, ..self }
    }
}

impl ServerStateView {
    /// With the windows that are shown put into a grid, back to front, where
    /// there is room for it.
    pub open spec fn tiled(self, screen: Rect) -> ServerStateView {
        let ids = shown(self, None);
        if can_tile(screen, ids.len() as int) {
            ServerStateView {
                windows: Map::new(
                    |k: usize| self.windows.contains_key(k),
                    |k: usize|
                        match position(ids, k) {
                            Some(i) => self.windows[k].tiled_at(
                                tile(screen, ids.len() as int, i),
                            ),
                            None => self.windows[k],
                        },
                ),
                ..self
            }
        } else {
            self
        }
    }

    /// The sizes that terminals are to have after tiling.
    pub open spec fn tile_sizes(self, screen: Rect) -> Seq<TermSize> {
        let ids = shown(self, None);
        if can_tile(screen, ids.len() as int) {
            Seq::new(
                ids.len(),
                |i: int|
                    {
                        let rect = tile(screen, ids.len() as int, i);
                        inside(ids[i], rect.width, rect.height)
                    },
            )
        } else {
            Seq::empty()
        }
    }
}

proof fn lemma_root_up(n: int, c: int)
    requires
        1 <= c,
        1 <= n,
    ensures
        c <= root_up(n, c),
        root_up(n, c) <= n || root_up(n, c) == c,
        root_up(n, c) * root_up(n, c) >= n,
    decreases n - c,
{
    if c >= n {
        assert(c * c >= n) by (nonlinear_arith)
            requires
                c >= n,
                n >= 1,
        ;
    } else if c * c < n {
        lemma_root_up(n, c + 1);
    }
}

/// `n` windows in `cols` columns fill no more than their rows.
proof fn lemma_rows_for(n: int, cols: int)
    requires
        n >= 1,
        cols >= 1,
    ensures
        1 <= rows_for(n, cols) <= n,
        n <= cols * rows_for(n, cols),
        n <= rows_for(n, cols) * cols,
{
    lemma_fundamental_div_mod(n - 1, cols);
    lemma_mod_bound(n - 1, cols);
    lemma_div_pos_is_pos(n - 1, cols);
    lemma_div_nonincreasing(n - 1, cols);
    let q = (n - 1) / cols;
    assert(cols * (q + 1) == cols * q + cols && (q + 1) * cols == cols * q + cols)
        by (nonlinear_arith);
}

/// As few rows as `n` windows take: where `rows` of them are enough, no more
/// are used.
proof fn lemma_few_rows(n: int, cols: int, rows: int)
    requires
        n >= 1,
        cols >= 1,
        n <= rows * cols,
    ensures
        rows_for(n, cols) <= rows,
{
    assert(rows * cols == cols * rows) by (nonlinear_arith);
    lemma_multiply_divide_lt(n - 1, cols, rows);
}

/// The grid that is used has room wherever some grid has.
proof fn lemma_tile_grid(screen: Rect, n: int)
    requires
        n >= 1,
    ensures
        can_tile(screen, n) <==> desk(screen).height >= MIN_HEIGHT && has_grid(
            screen,
            tile_cols(screen, n),
            tile_rows(screen, n),
        ),
        can_tile(screen, n) ==> 1 <= tile_cols(screen, n) <= n,
{
    lemma_root_up(n, 1);
    lemma_rows_for(n, grid_cols(n));
    let most: int = desk(screen).height as int / MIN_HEIGHT as int;
    if can_tile(screen, n) {
        let (cols, rows) = choose|cols: int, rows: int|
            cols >= 1 && rows >= 1 && cols * rows >= n && #[trigger] has_grid(screen, cols, rows);
        assert(1 <= rows <= most);
        assert(n <= cols * most) by (nonlinear_arith)
            requires
                n <= cols * rows,
                rows <= most,
                cols >= 1,
        ;
        lemma_few_rows(n, most, cols);
        lemma_rows_for(n, most);
        let used: int = rows_for(n, most);
        assert(n <= most * used);
        lemma_few_rows(n, used, most);
    }
    if desk(screen).height >= MIN_HEIGHT && has_grid(
        screen,
        tile_cols(screen, n),
        tile_rows(screen, n),
    ) {
        lemma_rows_for(n, most);
        lemma_rows_for(n, tile_cols(screen, n));
        assert(tile_cols(screen, n) * tile_rows(screen, n) >= n);
    }
}

proof fn lemma_tile(screen: Rect, n: int, i: int)
    requires
        can_tile(screen, n),
        0 <= i < n,
    ensures
        ({
            let cols = tile_cols(screen, n);
            let rows = tile_rows(screen, n);
            let w = desk(screen).width as int / cols;
            let h = desk(screen).height as int / rows;
            &&& 0 < cols <= desk(screen).width
            &&& 0 < rows <= desk(screen).height
            &&& MIN_WIDTH <= w <= desk(screen).width
            &&& MIN_HEIGHT <= h <= desk(screen).height
            &&& 0 <= i % cols < cols
            &&& 0 <= i / cols < rows
            &&& 0 <= i % cols * w
            &&& i % cols * w + w <= desk(screen).width
            &&& 0 <= i / cols * h
            &&& i / cols * h + h <= desk(screen).height
            &&& i == cols * (i / cols) + i % cols
        }),
{
    lemma_tile_grid(screen, n);
    let cols = tile_cols(screen, n);
    let rows = tile_rows(screen, n);
    let dw = desk(screen).width as int;
    let dh = desk(screen).height as int;
    let w = dw / cols;
    let h = dh / rows;
    lemma_fundamental_div_mod(i, cols);
    lemma_mod_bound(i, cols);
    lemma_div_pos_is_pos(i, cols);
    lemma_div_pos_is_pos(n - 1, cols);
    lemma_div_is_ordered(i, n - 1, cols);
    lemma_fundamental_div_mod(dw, cols);
    lemma_fundamental_div_mod(dh, rows);
    lemma_mod_bound(dw, cols);
    lemma_mod_bound(dh, rows);
    let c = i % cols;
    let r = i / cols;
    assert(MIN_WIDTH <= w) by (nonlinear_arith)
        requires
            cols * 10 <= dw,
            dw < cols * w + cols,
            cols > 0,
            MIN_WIDTH == 10,
    ;
    assert(MIN_HEIGHT <= h) by (nonlinear_arith)
        requires
            rows * 3 <= dh,
            dh < rows * h + rows,
            rows > 0,
            MIN_HEIGHT == 3,
    ;
    assert(0 <= c * w && c * w + w <= cols * w && w <= cols * w) by (nonlinear_arith)
        requires
            0 <= c < cols,
            0 <= w,
    ;
    assert(0 <= r * h && r * h + h <= rows * h && h <= rows * h) by (nonlinear_arith)
        requires
            0 <= r < rows,
            0 <= h,
    ;
}

/// Tiled windows lie inside the frame of the screen, have at least the smallest
/// size, and do not overlap.
pub proof fn law_tiles_do_not_overlap(screen: Rect, n: int, i: int, j: int)
    requires
        can_tile(screen, n),
        0 <= i < n,
        0 <= j < n,
        i != j,
    ensures
        desk(screen).encloses(tile(screen, n, i)),
        MIN_WIDTH <= tile(screen, n, i).width,
        MIN_HEIGHT <= tile(screen, n, i).height,
        !tile(screen, n, i).meets(tile(screen, n, j)),
{
    lemma_tile(screen, n, i);
    lemma_tile(screen, n, j);
    let cols = tile_cols(screen, n);
    let w = desk(screen).width as int / cols;
    let h = desk(screen).height as int / tile_rows(screen, n);
    let (ci, ri) = (i % cols, i / cols);
    let (cj, rj) = (j % cols, j / cols);
    if ci < cj {
        lemma_step(ci, cj, w);
    } else if cj < ci {
        lemma_step(cj, ci, w);
    } else if ri < rj {
        lemma_step(ri, rj, h);
    } else if rj < ri {
        lemma_step(rj, ri, h);
    }
}

proof fn lemma_step(a: int, b: int, d: int)
    requires
        a < b,
        0 <= d,
    ensures
        a * d + d <= b * d,
{
    assert(a * d + d <= b * d) by (nonlinear_arith)
        requires
            a < b,
            0 <= d,
    ;
}

/// After tiling, every window that is shown has a place of its own in the grid,
/// and the minimized ones are as they were.
pub proof fn law_tiling_places_every_shown_window(st: ServerStateView, screen: Rect)
    requires
        st.wf(),
        can_tile(screen, shown(st, None).len() as int),
    ensures
        st.tiled(screen).wf(),
        forall|k: usize| #[trigger]
            st.windows.contains_key(k) && st.windows[k].minimized ==> st.tiled(screen).windows[k]
                == st.windows[k],
        forall|i: int|
            0 <= i < shown(st, None).len() ==> st.tiled(screen).windows[#[trigger] shown(st, None)[i]].rect
                == tile(screen, shown(st, None).len() as int, i),
{
    let ids = shown(st, None);
    let after = st.tiled(screen);
    lemma_shown(st, None);
    assert forall|k: usize| #[trigger] after.order.contains(k) <==> after.windows.contains_key(
        k,
    ) by {
        assert(st.order.contains(k) <==> st.windows.contains_key(k));
    }
    assert forall|k: usize| #[trigger] after.windows.contains_key(k) implies {
        let win = after.windows[k];
        &&& win.id == k
        &&& k < after.next_id
        &&& win.focused == (after.active == Some(k))
        &&& win.scroll_offset <= SCROLLBACK_SIZE
    } by {
        assert(st.windows.contains_key(k));
    }
    assert forall|k: usize| #[trigger]
        st.windows.contains_key(k) && st.windows[k].minimized implies after.windows[k]
        == st.windows[k] by {
        lemma_position_from(ids, k, 0);
        assert(!ids.contains(k));
    }
    assert forall|i: int| 0 <= i < ids.len() implies after.windows[#[trigger] ids[i]].rect == tile(
        screen,
        ids.len() as int,
        i,
    ) by {
        lemma_position_from(ids, ids[i], 0);
        assert(ids.contains(ids[i]));
    }
}

/// Works out how many columns a grid for some windows has.
fn columns_for(n: usize) -> (c: u128)
    requires
        n > 0,
    ensures
        c == grid_cols(n as int),
        0 < c <= n,
{
    let mut c: u128 = 1;
    while c < n as u128 && c * c < n as u128
        invariant
            1 <= c <= n,
            grid_cols(n as int) == root_up(n as int, c as int),
            c < n ==> c * c <= u128::MAX,
        decreases n - c,
    {
        c += 1;
        assert(c < n ==> c * c <= u128::MAX) by (nonlinear_arith)
            requires
                c <= n,
                n <= u64::MAX,
        ;
    }
    c
}

/// Works out how many rows some windows take in `cols` columns.
fn rows_of(n: usize, cols: u128) -> (rows: u128)
    requires
        n > 0,
        cols > 0,
    ensures
        rows == rows_for(n as int, cols as int),
        0 < rows <= n,
{
    proof {
        lemma_rows_for(n as int, cols as int);
    }
    (n as u128 - 1) / cols + 1
}

/// Tells whether a grid of the smallest windows has room.
fn fits_grid(screen: &Rect, cols: u128, rows: u128) -> (r: bool)
    ensures
        r == has_grid(*screen, cols as int, rows as int),
{
    let width: u128 = sub_u16(screen.width, 2) as u128;
    let height: u128 = sub_u16(screen.height, 2) as u128;
    cols <= width && rows <= height && cols * (MIN_WIDTH as u128) <= width && rows * (
    MIN_HEIGHT as u128) <= height
}

impl ServerState {
    /// Puts the windows that are shown into a grid.
    pub fn tile_windows(&mut self, screen: &Rect) -> (r: Vec<TermSize>)
        requires
            old(self).wf(),
        ensures
            final(self).wf(),
            final(self)@ == old(self)@.tiled(*screen),
            r@ == old(self)@.tile_sizes(*screen),
    {
        let ghost before = self@;
        let ids = self.shown_windows(None);
        let mut sizes: Vec<TermSize> = Vec::new();
        let n: usize = ids.len();
        if n == 0 {
            return sizes;
        }
        let desk_width: u16 = sub_u16(screen.width, 2);
        let desk_height: u16 = sub_u16(screen.height, 2);
        proof {
            lemma_tile_grid(*screen, n as int);
        }
        if desk_height < MIN_HEIGHT {
            return sizes;
        }
        let mut cols: u128 = columns_for(n);
        let mut rows: u128 = rows_of(n, cols);
        if !fits_grid(screen, cols, rows) {
            cols = rows_of(n, (desk_height / MIN_HEIGHT) as u128);
            rows = rows_of(n, cols);
            if !fits_grid(screen, cols, rows) {
                return sizes;
            }
        }
        assert(can_tile(*screen, n as int));
        proof {
            lemma_tile(*screen, n as int, 0);
            lemma_shown(before, None);
        }
        let w: u16 = desk_width / (cols as u16);
        let h: u16 = desk_height / (rows as u16);
        let mut i: usize = 0;
        while i < n
            invariant
                i <= n,
                n == ids@.len(),
                ids@ == shown(before, None),
                ids@.no_duplicates(),
                forall|k: usize| #[trigger]
                    ids@.contains(k) <==> before.windows.contains_key(k)
                        && !before.windows[k].minimized,
                before.wf(),
                self.wf(),
                can_tile(*screen, n as int),
                cols == tile_cols(*screen, n as int),
                rows == tile_rows(*screen, n as int),
                w == desk(*screen).width as int / tile_cols(*screen, n as int),
                h == desk(*screen).height as int / tile_rows(*screen, n as int),
                0 < cols <= n,
                self@.order == before.order,
                self@.next_id == before.next_id,
                self@.active == before.active,
                self@.solo == before.solo,
                self@.windows.dom() =~= before.windows.dom(),
                forall|j: int|
                    0 <= j < i ==> self@.windows[#[trigger] ids@[j]]
                        == before.windows[ids@[j]].tiled_at(tile(*screen, n as int, j)),
                forall|k: usize|
                    before.windows.contains_key(k) && (forall|j: int| 0 <= j < i ==> ids@[j] != k)
                        ==> #[trigger] self@.windows[k] == before.windows[k],
                sizes@ == before.tile_sizes(*screen).take(i as int),
            decreases n - i,
        {
            let id: usize = ids[i];
            proof {
                lemma_tile(*screen, n as int, i as int);
                assert(ids@.contains(id));
                assert(self@.windows.contains_key(id));
            }
            let ghost mid = self@;
            let col: u16 = (i as u128 % cols) as u16;
            let row: u16 = (i as u128 / cols) as u16;
            let rect = Rect { x: 1 + col * w, y: 1 + row * h, width: w, height: h };
            assert(rect == tile(*screen, n as int, i as int));
            match self.take_out(id) {
                Some(mut win) => {
                    win.rect = rect;
                    win.saved_rect = None;
                    win.fullscreen = false;
                    assert(win@ =~= mid.windows[id].tiled_at(rect));
                    self.put_back(id, win, Ghost(mid));
                },
                None => {},
            }
            sizes.push(term_size(id, w, h));
            assert(before.tile_sizes(*screen).take(i + 1) =~= before.tile_sizes(*screen).take(
                i as int,
            ).push(inside(id, w, h)));
            i += 1;
        }
        assert(before.tile_sizes(*screen).take(n as int) =~= before.tile_sizes(*screen));
        assert forall|k: usize| before.windows.contains_key(k) implies self@.windows[k]
            == before.tiled(*screen).windows[k] by {
            lemma_position_from(ids@, k, 0);
            match position(ids@, k) {
                Some(p) => {
                    assert(ids@[p] == k);
                },
                None => {},
            }
        }
        assert(self@.windows =~= before.tiled(*screen).windows);
        assert(self@ =~= before.tiled(*screen));
        sizes
    }
}

/// The place after another one in a grid is in the next column, or first in the next
/// row.
proof fn lemma_next_place(i: int, cols: int)
    requires
        0 <= i,
        0 < cols,
    ensures
        0 <= i % cols < cols,
        i % cols + 1 < cols ==> (i + 1) / cols == i / cols && (i + 1) % cols == i % cols + 1,
        i % cols + 1 >= cols ==> i % cols + 1 == cols && (i + 1) / cols == i / cols + 1 && (i + 1)
            % cols == 0,
{
    let c = i % cols;
    let r = i / cols;
    lemma_mod_bound(i, cols);
    lemma_fundamental_div_mod(i, cols);
    assert(cols * r == r * cols && (r + 1) * cols == r * cols + cols) by (nonlinear_arith);
    if c + 1 < cols {
        vstd::arithmetic::div_mod::lemma_fundamental_div_mod_converse(i + 1, cols, r, c + 1);
    } else {
        vstd::arithmetic::div_mod::lemma_fundamental_div_mod_converse(i + 1, cols, r + 1, 0);
    }
}

/// The tiles of a grid are as large as the screen allows, all of one size, and
/// come row by row: each is right of the one before, or begins the next row.
pub proof fn law_tiles_fill_the_screen_row_by_row(screen: Rect, n: int, i: int)
    requires
        can_tile(screen, n),
        0 <= i < n,
    ensures
        ({
            let cols = tile_cols(screen, n);
            let rows = tile_rows(screen, n);
            let t = tile(screen, n, i);
            &&& cols * rows >= n
            &&& cols * (rows - 1) < n
            &&& t.width * cols <= screen.width - 2 < (t.width + 1) * cols
            &&& t.height * rows <= screen.height - 2 < (t.height + 1) * rows
            &&& i == 0 ==> t.x == 1 && t.y == 1
            &&& i + 1 < n ==> {
                let next = tile(screen, n, i + 1);
                &&& next.width == t.width && next.height == t.height
                &&& (next.y == t.y && next.x == t.x + t.width) || (next.x == 1 && next.y == t.y
                    + t.height)
                &&& next.y == t.y <==> t.x + 2 * t.width <= t.width * cols + 1
            }
        }),
{
    lemma_tile(screen, n, i);
    lemma_tile_grid(screen, n);
    let cols = tile_cols(screen, n);
    let rows = tile_rows(screen, n);
    lemma_rows_for(n, cols);
    let dw = desk(screen).width as int;
    let dh = desk(screen).height as int;
    let w = dw / cols;
    let h = dh / rows;
    lemma_fundamental_div_mod(dw, cols);
    lemma_fundamental_div_mod(dh, rows);
    lemma_mod_bound(dw, cols);
    lemma_mod_bound(dh, rows);
    lemma_fundamental_div_mod(n - 1, cols);
    lemma_mod_bound(n - 1, cols);
    assert((w + 1) * cols == cols * w + cols && w * cols == cols * w) by (nonlinear_arith);
    assert((h + 1) * rows == rows * h + rows && h * rows == rows * h) by (nonlinear_arith);
    if i == 0 {
        assert(0int / cols == 0 && 0int % cols == 0) by {
            vstd::arithmetic::div_mod::lemma_fundamental_div_mod_converse(0, cols, 0, 0);
        }
        assert(0 * w == 0 && 0 * h == 0);
    }
    if i + 1 < n {
        lemma_tile(screen, n, i + 1);
        let c = i % cols;
        let r = i / cols;
        lemma_next_place(i, cols);
        if c + 1 < cols {
            assert((c + 1) * w == c * w + w) by (nonlinear_arith);
            assert(c * w + 2 * w <= cols * w) by (nonlinear_arith)
                requires
                    c + 2 <= cols,
                    0 <= w,
            ;
        } else {
            assert((r + 1) * h == r * h + h) by (nonlinear_arith);
            assert(0 * w == 0);
            assert(c * w + w == cols * w) by (nonlinear_arith)
                requires
                    c + 1 == cols,
            ;
        }
    }
}

/// Tiling gives each shown window, in the order of the stack, the next tile, takes
/// it out of fullscreen and out of being maximized, and leaves all else of it, the
/// minimized windows, the stack and the focus alone. The terminals get the sizes
/// inside the tiles. Where no grid has room, nothing changes.
pub proof fn law_tiling_changes_places_alone(st: ServerStateView, screen: Rect, i: int)
    requires
        st.wf(),
        0 <= i < shown(st, None).len(),
    ensures
        ({
            let ids = shown(st, None);
            let after = st.tiled(screen);
            let sizes = st.tile_sizes(screen);
            let k = ids[i];
            let win = after.windows[k];
            &&& after.order == st.order && after.active == st.active && after.solo == st.solo
                && after.next_id == st.next_id
            &&& can_tile(screen, ids.len() as int) ==> {
                &&& sizes.len() == ids.len()
                &&& sizes[i].window_id == k
                &&& sizes[i].rows == win.rect.height - 2
                &&& sizes[i].cols == win.rect.width - 2
                &&& win.saved_rect is None
                &&& !win.fullscreen
                &&& win == (WindowInfoView {
                    rect: win.rect,
                    saved_rect: None,
                    fullscreen: false,
                    ..st.windows[k]
                })
            }
            &&& !can_tile(screen, ids.len() as int) ==> after == st && sizes.len() == 0
        }),
{
    let ids = shown(st, None);
    lemma_shown(st, None);
    assert(ids.contains(ids[i]));
    lemma_position_from(ids, ids[i], 0);
    if can_tile(screen, ids.len() as int) {
        law_tiling_places_every_shown_window(st, screen);
        lemma_tile(screen, ids.len() as int, i);
    }
}

/// Where a grid that is about square has room, that is the one: it has as many
/// columns as make at least as many places when there are as many rows, and no
/// column more.
pub proof fn law_square_grid_is_preferred(screen: Rect, n: int, c: int)
    requires
        n >= 1,
        c >= 1,
        c * c >= n,
        (c - 1) * (c - 1) < n,
        has_grid(screen, c, (n - 1) / c + 1),
    ensures
        tile_cols(screen, n) == c,
{
    lemma_root_is(n, 1, c);
}

proof fn lemma_root_is(n: int, from: int, c: int)
    requires
        1 <= from <= c,
        n >= 1,
        c * c >= n,
        (c - 1) * (c - 1) < n,
    ensures
        root_up(n, from) == c,
    decreases c - from,
{
    if from < c {
        assert(from * from < n) by (nonlinear_arith)
            requires
                1 <= from <= c - 1,
                (c - 1) * (c - 1) < n,
        ;
        assert(from < n) by (nonlinear_arith)
            requires
                1 <= from,
                from * from < n,
        ;
        lemma_root_is(n, from + 1, c);
    }
}

} // verus!
