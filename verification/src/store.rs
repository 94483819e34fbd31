//! The windows that a client knows, by number.

use vstd::prelude::*;
use crate::protocol::{state_views, WindowState, WindowStateView};

verus! {

/// Whether windows stand in the order of their numbers, each once.
pub open spec fn by_number(s: Seq<WindowStateView>) -> bool {
    forall|i: int, j: int| 0 <= i < j < s.len() ==> (#[trigger] s[i]).id < (#[trigger] s[j]).id
}

/// The first place from `i` on of a window whose number is not below `id`.
pub open spec fn place_from(s: Seq<WindowStateView>, id: usize, i: int) -> int
    decreases s.len() - i,
{
    if i < 0 || i >= s.len() || s[i].id >= id {
        i
    } else {
        place_from(s, id, i + 1)
    }
}

/// Where a window with a number stands, or would stand.
pub open spec fn place(s: Seq<WindowStateView>, id: usize) -> int {
    place_from(s, id, 0)
}

/// Whether there is a window with a number.
pub open spec fn known(s: Seq<WindowStateView>, id: usize) -> bool {
    place(s, id) < s.len() && s[place(s, id)].id == id
}

/// The window with a number.
pub open spec fn lookup(s: Seq<WindowStateView>, id: usize) -> Option<WindowStateView> {
    if known(s, id) {
        Some(s[place(s, id)])
    } else {
        None
    }
}

/// With a window added, or put in place of the one with its number.
pub open spec fn stored(s: Seq<WindowStateView>, win: WindowStateView) -> Seq<WindowStateView> {
    if known(s, win.id) {
        s.update(place(s, win.id), win)
    } else {
        s.insert(place(s, win.id), win)
    }
}

/// Without the window with a number.
pub open spec fn forgotten(s: Seq<WindowStateView>, id: usize) -> Seq<WindowStateView> {
    if known(s, id) {
        s.remove(place(s, id))
    } else {
        s
    }
}

pub proof fn lemma_place_from(s: Seq<WindowStateView>, id: usize, i: int)
    requires
        0 <= i <= s.len(),
    ensures
        i <= place_from(s, id, i) <= s.len(),
        place_from(s, id, i) < s.len() ==> s[place_from(s, id, i)].id >= id,
        forall|j: int| i <= j < place_from(s, id, i) ==> (#[trigger] s[j]).id < id,
    decreases s.len() - i,
{
    if i < s.len() && s[i].id < id {
        lemma_place_from(s, id, i + 1);
    }
}

/// A window is known exactly where one with its number stands in the list.
pub proof fn lemma_has(s: Seq<WindowStateView>, id: usize)
    requires
        by_number(s),
    ensures
        known(s, id) <==> exists|i: int| 0 <= i < s.len() && (#[trigger] s[i]).id == id,
        forall|i: int| 0 <= i < s.len() && (#[trigger] s[i]).id == id ==> place(s, id) == i,
{
    lemma_place_from(s, id, 0);
    let p = place(s, id);
    assert forall|i: int| 0 <= i < s.len() && (#[trigger] s[i]).id == id implies p == i by {
        if p < i {
            assert(s[p].id < s[i].id);
        }
    }
}

proof fn lemma_stored(s: Seq<WindowStateView>, win: WindowStateView)
    requires
        by_number(s),
    ensures
        by_number(stored(s, win)),
        0 <= place(s, win.id) < stored(s, win).len(),
        stored(s, win)[place(s, win.id)] == win,
{
    lemma_place_from(s, win.id, 0);
    let p = place(s, win.id);
    let after = stored(s, win);
    assert forall|i: int, j: int| 0 <= i < j < after.len() implies (#[trigger] after[i]).id < (
    #[trigger] after[j]).id by {
        if known(s, win.id) {
            if i == p {
                assert(s[p].id < s[j].id);
            } else if j == p {
                assert(s[i].id < s[p].id);
            } else {
                assert(s[i].id < s[j].id);
            }
        } else {
            let a = if i < p {
                i
            } else {
                i - 1
            };
            let b = if j < p {
                j
            } else {
                j - 1
            };
            if i != p && j != p {
                assert(after[i] == s[a] && after[j] == s[b]);
                assert(s[a].id < s[b].id);
            } else if i == p {
                assert(after[j] == s[b]);
                if p < b {
                    assert(s[p].id < s[b].id);
                }
            } else {
                assert(after[i] == s[a]);
            }
        }
    }
}

/// What is stored is found again under its number, and nothing else changes.
pub proof fn law_stored_window_is_found(s: Seq<WindowStateView>, win: WindowStateView, id: usize)
    requires
        by_number(s),
    ensures
        by_number(stored(s, win)),
        lookup(stored(s, win), id) == if id == win.id {
            Some(win)
        } else {
            lookup(s, id)
        },
{
    lemma_stored(s, win);
    let after = stored(s, win);
    let p = place(s, win.id);
    lemma_has(s, id);
    lemma_has(after, id);
    lemma_place_from(s, win.id, 0);
    if id == win.id {
        assert(after[p].id == id);
    } else {
        if known(s, id) {
            let i = place(s, id);
            if known(s, win.id) || i < p {
                assert(after[i] == s[i]);
            } else {
                assert(after[i + 1] == s[i]);
            }
        }
        if known(after, id) {
            let i = place(after, id);
            assert(i != p);
            if known(s, win.id) || i < p {
                assert(s[i] == after[i]);
            } else {
                assert(s[i - 1] == after[i]);
            }
        }
    }
}

/// What is forgotten is not found again, and nothing else changes.
pub proof fn law_forgotten_window_is_gone(s: Seq<WindowStateView>, gone: usize, id: usize)
    requires
        by_number(s),
    ensures
        by_number(forgotten(s, gone)),
        lookup(forgotten(s, gone), id) == if id == gone {
            None
        } else {
            lookup(s, id)
        },
{
    let after = forgotten(s, gone);
    let p = place(s, gone);
    lemma_has(s, gone);
    lemma_place_from(s, gone, 0);
    assert(by_number(after)) by {
        assert forall|i: int, j: int| 0 <= i < j < after.len() implies (#[trigger] after[i]).id < (
        #[trigger] after[j]).id by {
            if known(s, gone) {
                let a = if i < p {
                    i
                } else {
                    i + 1
                };
                let b = if j < p {
                    j
                } else {
                    j + 1
                };
                assert(after[i] == s[a] && after[j] == s[b]);
                assert(s[a].id < s[b].id);
            }
        }
    }
    lemma_has(s, id);
    lemma_has(after, id);
    if known(s, gone) {
        if known(after, id) {
            let i = place(after, id);
            if i < p {
                assert(s[i] == after[i]);
            } else {
                assert(s[i + 1] == after[i]);
            }
        }
        if known(s, id) && id != gone {
            let i = place(s, id);
            if i < p {
                assert(after[i] == s[i]);
            } else {
                assert(after[i - 1] == s[i]);
            }
        }
    }
}

/// The windows of a list, stored one after the other.
pub open spec fn stored_all(s: Seq<WindowStateView>, more: Seq<WindowStateView>) -> Seq<
    WindowStateView,
>
    decreases more.len(),
{
    if more.len() == 0 {
        s
    } else {
        stored(stored_all(s, more.drop_last()), more.last())
    }
}

fn find_place(v: &Vec<WindowState>, id: usize) -> (r: usize)
    ensures
        r == place(state_views(v@), id),
        r <= v@.len(),
{
    let ghost s = state_views(v@);
    let mut i: usize = 0;
    while i < v.len() && v[i].id < id
        invariant
            i <= v@.len(),
            s == state_views(v@),
            place(s, id) == place_from(s, id, i as int),
        decreases v@.len() - i,
    {
        assert(s[i as int].id == v@[i as int].id);
        i += 1;
    }
    assert(i < v@.len() ==> s[i as int].id == v@[i as int].id);
    i
}

/// Finds the place of the window with a number.
pub fn find_window(v: &Vec<WindowState>, id: usize) -> (r: Option<usize>)
    ensures
        match r {
            Some(i) => i < v@.len() && known(state_views(v@), id) && i == place(state_views(v@), id)
                && v@[i as int].id == id && lookup(state_views(v@), id) == Some(v@[i as int]@),
            None => !known(state_views(v@), id),
        },
{
    let i: usize = find_place(v, id);
    assert(i < v@.len() ==> state_views(v@)[i as int] == v@[i as int]@);
    if i < v.len() && v[i].id == id {
        Some(i)
    } else {
        None
    }
}

/// Adds a window, or puts it in place of the one with its number.
pub fn store_window(v: &mut Vec<WindowState>, win: WindowState)
    requires
        by_number(state_views(old(v)@)),
    ensures
        by_number(state_views(final(v)@)),
        state_views(final(v)@) == stored(state_views(old(v)@), win@),
{
    let ghost s = state_views(v@);
    let ghost w = win@;
    proof {
        lemma_stored(s, w);
    }
    let i: usize = find_place(v, win.id);
    assert(i < v@.len() ==> s[i as int] == v@[i as int]@);
    if i < v.len() && v[i].id == win.id {
        v.set(i, win);
        assert(state_views(v@) =~= s.update(i as int, w));
    } else {
        v.insert(i, win);
        assert(state_views(v@) =~= s.insert(i as int, w));
    }
}

/// Forgets the window with a number.
pub fn forget_window(v: &mut Vec<WindowState>, id: usize)
    requires
        by_number(state_views(old(v)@)),
    ensures
        by_number(state_views(final(v)@)),
        state_views(final(v)@) == forgotten(state_views(old(v)@), id),
{
    let ghost s = state_views(v@);
    proof {
        law_forgotten_window_is_gone(s, id, id);
    }
    if let Some(i) = find_window(v, id) {
        v.remove(i);
        assert(state_views(v@) =~= s.remove(i as int));
    }
}

/// A window is found by its number exactly where it is there.
pub proof fn law_window_is_found_where_it_is(s: Seq<WindowStateView>, id: usize, i: int)
    requires
        by_number(s),
        0 <= i < s.len(),
    ensures
        s[i].id == id ==> lookup(s, id) == Some(s[i]),
        lookup(s, id) matches Some(win) ==> win.id == id && s.contains(win),
{
    lemma_has(s, id);
    if s[i].id == id {
        lemma_place_is(s, id, 0, i);
    }
    if known(s, id) {
        lemma_place_bounds(s, id, 0);
        assert(s[place(s, id)] == lookup(s, id)->0);
    }
}

proof fn lemma_place_bounds(s: Seq<WindowStateView>, id: usize, k: int)
    requires
        0 <= k,
    ensures
        k <= place_from(s, id, k),
    decreases s.len() - k,
{
    if k < s.len() && s[k].id < id {
        lemma_place_bounds(s, id, k + 1);
    }
}

proof fn lemma_place_is(s: Seq<WindowStateView>, id: usize, k: int, i: int)
    requires
        by_number(s),
        0 <= k <= i < s.len(),
        s[i].id == id,
    ensures
        place_from(s, id, k) == i,
    decreases i - k,
{
    if k < i {
        assert(s[k].id < s[i].id);
        lemma_place_is(s, id, k + 1, i);
    }
}

} // verus!
