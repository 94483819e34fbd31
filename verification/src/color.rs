//! The 256 colours that terminal applications name by number.

use vstd::prelude::*;

verus! {

/// The sixteen basic colours.
pub open spec fn basic_color(idx: u8) -> (u8, u8, u8) {
    match idx {
        0 => (0, 0, 0),
        1 => (205, 0, 0),
        2 => (0, 205, 0),
        3 => (205, 205, 0),
        4 => (0, 0, 238),
        5 => (205, 0, 205),
        6 => (0, 205, 205),
        7 => (229, 229, 229),
        8 => (127, 127, 127),
        9 => (255, 0, 0),
        10 => (0, 255, 0),
        11 => (255, 255, 0),
        12 => (0, 0, 255),
        13 => (255, 0, 255),
        14 => (0, 255, 255),
        _ => (255, 255, 255),
    }
}

/// The red, green and blue parts of a numbered colour: sixteen basic colours, a
/// cube with six levels per part, and 24 levels of grey.
pub open spec fn palette(idx: u8) -> (u8, u8, u8) {
    if idx < 16 {
        basic_color(idx)
    } else if idx < 232 {
        let i = idx - 16;
        ((i / 36 * 51) as u8, (i % 36 / 6 * 51) as u8, (i % 6 * 51) as u8)
    } else {
        let v = ((idx - 232) * 10 + 8) as u8;
        (v, v, v)
    }
}

pub fn ansi_to_rgb(idx: u8) -> (r: (u8, u8, u8))
    ensures
        r == palette(idx),
{
    match idx {
        0 => (0, 0, 0),
        1 => (205, 0, 0),
        2 => (0, 205, 0),
        3 => (205, 205, 0),
        4 => (0, 0, 238),
        5 => (205, 0, 205),
        6 => (0, 205, 205),
        7 => (229, 229, 229),
        8 => (127, 127, 127),
        9 => (255, 0, 0),
        10 => (0, 255, 0),
        11 => (255, 255, 0),
        12 => (0, 0, 255),
        13 => (255, 0, 255),
        14 => (0, 255, 255),
        15 => (255, 255, 255),
        _ => {
            if idx < 232 {
                let i: u8 = idx - 16;
                ((i / 36) * 51, ((i % 36) / 6) * 51, (i % 6) * 51)
            } else {
                let level: u8 = idx - 232;
                let v: u8 = level * 10 + 8;
                (v, v, v)
            }
        },
    }
}

/// The numbered colours from 16 on are a cube: six even steps from nothing to full
/// for each of red, green and blue, of which blue changes fastest.
pub proof fn law_cube_has_every_mixture(r: int, g: int, b: int)
    requires
        0 <= r < 6,
        0 <= g < 6,
        0 <= b < 6,
    ensures
        palette((16 + 36 * r + 6 * g + b) as u8) == ((51 * r) as u8, (51 * g) as u8, (51 * b) as u8),
{
    let i = 36 * r + 6 * g + b;
    assert(i / 36 == r && i % 36 == 6 * g + b) by {
        vstd::arithmetic::div_mod::lemma_fundamental_div_mod_converse(i, 36, r, 6 * g + b);
    }
    assert((6 * g + b) / 6 == g) by {
        vstd::arithmetic::div_mod::lemma_fundamental_div_mod_converse(6 * g + b, 6, g, b);
    }
    assert(i % 6 == b) by {
        vstd::arithmetic::div_mod::lemma_fundamental_div_mod_converse(i, 6, 6 * r + g, b);
    }
}

/// The last 24 numbered colours are greys, each lighter than the one before by the
/// same step, and neither black nor white.
pub proof fn law_greys_rise_evenly(i: int)
    requires
        0 <= i < 24,
    ensures
        ({
            let (r, g, b) = palette((232 + i) as u8);
            &&& r == g && g == b
            &&& 0 < r < 255
            &&& r == 8 + 10 * i
        }),
{
}

/// The first sixteen colours are black, red, green, yellow, blue, magenta, cyan
/// and white, and then the same again, lighter: which parts a colour has goes by
/// the bits of its number.
pub proof fn law_basic_colors_go_by_their_bits(idx: u8)
    requires
        idx < 8,
    ensures
        ({
            let (r, g, b) = palette(idx);
            let (lr, lg, lb) = palette((idx + 8) as u8);
            &&& (r > 0) == (idx % 2 == 1) && (g > 0) == (idx / 2 % 2 == 1) && (b > 0) == (idx / 4
                % 2 == 1)
            &&& r <= lr && g <= lg && b <= lb
            &&& (r, g, b) != (lr, lg, lb)
            &&& idx > 0 ==> (lr == 255) == (r > 0) && (lg == 255) == (g > 0) && (lb == 255) == (b
                > 0)
            &&& 0 < idx < 7 ==> (lr == 0 || lr == 255) && (lg == 0 || lg == 255) && (lb == 0 || lb
                == 255)
            &&& 0 < idx < 7 && idx != 4 ==> (r == 0 || r == 205) && (g == 0 || g == 205) && (b == 0
                || b == 205)
            &&& idx == 4 ==> b == 238
            &&& idx == 7 ==> r == 229 && g == 229 && b == 229
            &&& idx == 0 ==> lr == 127 && lg == 127 && lb == 127
        }),
{
}

} // verus!
