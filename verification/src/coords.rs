//! Toroidal coordinate arithmetic: the grid has no edges, so moving off one
//! side wraps to the opposite side. All components index the flat cell
//! sequence through `pos` and enumerate neighbors through `adjacent`.

use vstd::prelude::*;

verus! {

/// The coordinate one step towards zero, wrapping to `bound - 1` at zero;
/// equal to `(c - 1) mod bound` in mathematical (Euclidean) terms.
pub open spec fn wrap_dec(c: int, bound: int) -> int {
    if c == 0 {
        bound - 1
    } else {
        c - 1
    }
}

/// The coordinate one step away from zero, wrapping to zero at `bound - 1`;
/// equal to `(c + 1) mod bound` in mathematical (Euclidean) terms.
pub open spec fn wrap_inc(c: int, bound: int) -> int {
    if c + 1 == bound {
        0
    } else {
        c + 1
    }
}

/// Row-major index of the coordinate `(x, y)` on a grid of the given width.
pub open spec fn pos_spec(x: int, y: int, width: int) -> int {
    y * width + x
}

/// The eight toroidal neighbors of `(x, y)`, in reading order: the three
/// cells of the row above, the two beside, the three of the row below.
pub open spec fn adj_at(x: int, y: int, w: int, h: int, i: int) -> (int, int) {
    let l = wrap_dec(x, w);
    let r = wrap_inc(x, w);
    let u = wrap_dec(y, h);
    let d = wrap_inc(y, h);
    if i == 0 {
        (l, u)
    } else if i == 1 {
        (x, u)
    } else if i == 2 {
        (r, u)
    } else if i == 3 {
        (l, y)
    } else if i == 4 {
        (r, y)
    } else if i == 5 {
        (l, d)
    } else if i == 6 {
        (x, d)
    } else {
        (r, d)
    }
}

/// The x coordinate of the cell left of a given x coordinate.
pub fn left(x: u16, width: u16) -> (r: u16)
    requires
        0 < width,
        x < width,
    ensures
        r == wrap_dec(x as int, width as int),
        r < width,
{
    if x == 0 {
        width - 1
    } else {
        x - 1
    }
}

/// The x coordinate of the cell right of a given x coordinate.
pub fn right(x: u16, width: u16) -> (r: u16)
    requires
        0 < width,
        x < width,
    ensures
        r == wrap_inc(x as int, width as int),
        r < width,
{
    if x + 1 == width {
        0
    } else {
        x + 1
    }
}

/// The y coordinate of the cell above a given y coordinate.
pub fn up(y: u16, height: u16) -> (r: u16)
    requires
        0 < height,
        y < height,
    ensures
        r == wrap_dec(y as int, height as int),
        r < height,
{
    if y == 0 {
        height - 1
    } else {
        y - 1
    }
}

/// The y coordinate of the cell below a given y coordinate.
pub fn down(y: u16, height: u16) -> (r: u16)
    requires
        0 < height,
        y < height,
    ensures
        r == wrap_inc(y as int, height as int),
        r < height,
{
    if y + 1 == height {
        0
    } else {
        y + 1
    }
}

/// The row-major grid position of a given coordinate.
pub fn pos(x: u16, y: u16, width: u16) -> (r: usize)
    ensures
        r == pos_spec(x as int, y as int, width as int),
{
    proof {
        lemma_u16_mul_add_fits(y as int, width as int, x as int);
    }
    y as usize * width as usize + x as usize
}

proof fn lemma_u16_mul_add_fits(y: int, w: int, x: int) by (nonlinear_arith)
    requires
        0 <= y <= 0xFFFF,
        0 <= w <= 0xFFFF,
        0 <= x <= 0xFFFF,
    ensures
        0 <= y * w + x <= 0xFFFF_FFFF,
{
}

/// A row-major position built from in-bounds coordinates lies inside the grid.
pub proof fn lemma_pos_in_bounds(x: int, y: int, w: int, h: int) by (nonlinear_arith)
    requires
        0 <= x < w,
        0 <= y < h,
    ensures
        0 <= pos_spec(x, y, w) < w * h,
{
}

/// Distinct coordinates of one grid have distinct row-major positions.
pub broadcast proof fn lemma_pos_injective(x1: int, y1: int, x2: int, y2: int, w: int)
    ensures
        (0 <= x1 < w && 0 <= y1 && 0 <= x2 < w && 0 <= y2 && #[trigger] pos_spec(x1, y1, w)
            == #[trigger] pos_spec(x2, y2, w)) ==> (x1 == x2 && y1 == y2),
{
    if 0 <= x1 < w && 0 <= y1 && 0 <= x2 < w && 0 <= y2 && pos_spec(x1, y1, w) == pos_spec(
        x2,
        y2,
        w,
    ) {
        lemma_pos_injective_nl(x1, y1, x2, y2, w);
    }
}

proof fn lemma_pos_injective_nl(x1: int, y1: int, x2: int, y2: int, w: int) by (nonlinear_arith)
    requires
        0 <= x1 < w,
        0 <= y1,
        0 <= x2 < w,
        0 <= y2,
        y1 * w + x1 == y2 * w + x2,
    ensures
        x1 == x2 && y1 == y2,
{
}

/// Wraparound is self-inverse: stepping right then left (or down then up)
/// returns to the starting coordinate, and the other way round.
pub proof fn lemma_wrap_roundtrip(c: int, bound: int)
    requires
        0 <= c < bound,
    ensures
        wrap_dec(wrap_inc(c, bound), bound) == c,
        wrap_inc(wrap_dec(c, bound), bound) == c,
{
}

/// The branching wraparound helpers compute the mathematical modulus
/// `(c - 1) mod bound` and `(c + 1) mod bound` for in-bounds coordinates.
pub proof fn lemma_wrap_is_mod(c: int, bound: int)
    requires
        0 <= c < bound,
    ensures
        wrap_dec(c, bound) == (c - 1) % bound,
        wrap_inc(c, bound) == (c + 1) % bound,
{
    if c == 0 {
        vstd::arithmetic::div_mod::lemma_mod_add_multiples_vanish(-1, bound);
        vstd::arithmetic::div_mod::lemma_small_mod((bound - 1) as nat, bound as nat);
    } else {
        vstd::arithmetic::div_mod::lemma_small_mod((c - 1) as nat, bound as nat);
    }
    if c + 1 == bound {
        vstd::arithmetic::div_mod::lemma_mod_self_0(bound);
    } else {
        vstd::arithmetic::div_mod::lemma_small_mod((c + 1) as nat, bound as nat);
    }
}

/// Calculate the eight adjacent cells of a coordinate, with toroidal
/// wraparound: coordinates past an edge wrap to the opposite edge.
pub fn adjacent(x: u16, y: u16, width: u16, height: u16) -> (r: [(u16, u16); 8])
    requires
        0 < width,
        0 < height,
        x < width,
        y < height,
    ensures
        forall|i: int|
            0 <= i < 8 ==> (#[trigger] r@[i]).0 < width && r@[i].1 < height && (
            r@[i].0 as int,
            r@[i].1 as int,
            ) == adj_at(x as int, y as int, width as int, height as int, i),
{
    let l = left(x, width);
    let r = right(x, width);
    let u = up(y, height);
    let d = down(y, height);
    let out: [(u16, u16); 8] = [(l, u), (x, u), (r, u), (l, y), (r, y), (l, d), (x, d), (r, d)];
    out
}

/// On grids at least three cells wide and high, the eight neighbors of any
/// in-bounds coordinate are pairwise distinct. On a grid only two cells wide
/// (or high), the left and right (or up and down) neighbors coincide, so
/// duplicates appear; that boundary case is excluded here.
pub proof fn lemma_adjacent_distinct(x: int, y: int, w: int, h: int)
    requires
        0 <= x < w,
        0 <= y < h,
        3 <= w,
        3 <= h,
    ensures
        forall|i: int, j: int|
            0 <= i < 8 && 0 <= j < 8 && i != j ==> adj_at(x, y, w, h, i) != adj_at(x, y, w, h, j),
{
    assert(wrap_dec(x, w) != x && wrap_inc(x, w) != x && wrap_dec(x, w) != wrap_inc(x, w));
    assert(wrap_dec(y, h) != y && wrap_inc(y, h) != y && wrap_dec(y, h) != wrap_inc(y, h));
}

} // verus!
