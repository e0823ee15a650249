//! The board: a toroidal grid of cells with a difficulty preset, seeded
//! monster placement, and the adjacency value query.
//!
//! Placement policy: a linear congruential generator is stepped once per
//! cell; a cell receives a monster when the low byte of the draw falls below
//! the difficulty's density threshold (monsters per 256 cells), with the
//! monster's level drawn uniformly from `1..=9`. Cell 0 never receives a
//! monster, so at least one empty cell always exists for the initial reveal.
//! The placement is a pure function of the stored seed, so it is
//! reproducible; each reset continues the generator's stream.

use vstd::prelude::*;
use crate::cell::Cell;
use crate::coords::{wrap_dec, wrap_inc, pos_spec, pos, adj_at, adjacent, lemma_pos_in_bounds};

verus! {

broadcast use crate::coords::lemma_pos_injective;

/// The four difficulty presets; each fixes the grid dimensions and the
/// monster density.
#[derive(Clone, Copy, PartialEq, Eq, Structural, Debug)]
pub enum Difficulty {
    EASY,
    HUGE,
    EXTREME,
    BLIND,
}

pub open spec fn width_of(d: Difficulty) -> int {
    match d {
        Difficulty::EASY => 16,
        Difficulty::HUGE => 50,
        Difficulty::EXTREME => 30,
        Difficulty::BLIND => 30,
    }
}

pub open spec fn height_of(d: Difficulty) -> int {
    match d {
        Difficulty::EASY => 16,
        Difficulty::HUGE => 25,
        Difficulty::EXTREME => 16,
        Difficulty::BLIND => 16,
    }
}

/// Monsters per 256 cells, rising with the difficulty. BLIND shares
/// EXTREME's grid but conceals the numbers at the presentation layer, and
/// packs the densest placement.
pub open spec fn density_of(d: Difficulty) -> int {
    match d {
        Difficulty::EASY => 32,
        Difficulty::HUGE => 40,
        Difficulty::EXTREME => 48,
        Difficulty::BLIND => 64,
    }
}

/// The grid dimensions of a difficulty preset, as (width, height).
pub fn size_of(d: Difficulty) -> (s: (u16, u16))
    ensures
        s.0 == width_of(d),
        s.1 == height_of(d),
{
    match d {
        Difficulty::EASY => (16, 16),
        Difficulty::HUGE => (50, 25),
        Difficulty::EXTREME => (30, 16),
        Difficulty::BLIND => (30, 16),
    }
}

/// The monster density of a difficulty preset, per 256 cells.
pub fn density(d: Difficulty) -> (t: u64)
    ensures
        t == density_of(d),
{
    match d {
        Difficulty::EASY => 32,
        Difficulty::HUGE => 40,
        Difficulty::EXTREME => 48,
        Difficulty::BLIND => 64,
    }
}

/// The characters the presentation layer draws the frame and concealed
/// cells with.
pub enum Window {
    /// The symbol printed for concealed cells.
    Concealed,
    /// The upper and lower boundary symbol.
    HorzBoundary,
    /// The left and right boundary symbol.
    VertBoundary,
    TopLeftCorner,
    TopRightCorner,
    BottomLeftCorner,
    BottomRightCorner,
}

impl Window {
    pub open spec fn symbol_spec(self) -> char {
        match self {
            Window::Concealed => '\u{2592}',
            Window::HorzBoundary => '\u{2500}',
            Window::VertBoundary => '\u{2502}',
            Window::TopLeftCorner => '\u{250C}',
            Window::TopRightCorner => '\u{2510}',
            Window::BottomLeftCorner => '\u{2514}',
            Window::BottomRightCorner => '\u{2518}',
        }
    }

    /// The character this frame element is drawn with.
    pub fn symbol(&self) -> (c: char)
        ensures
            c == self.symbol_spec(),
    {
        match self {
            Window::Concealed => '\u{2592}',
            Window::HorzBoundary => '\u{2500}',
            Window::VertBoundary => '\u{2502}',
            Window::TopLeftCorner => '\u{250C}',
            Window::TopRightCorner => '\u{2510}',
            Window::BottomLeftCorner => '\u{2514}',
            Window::BottomRightCorner => '\u{2518}',
        }
    }
}

/// The modulus of the placement generator.
pub const LCG_MOD: u64 = 0x8000_0000;

/// One step of the placement generator: a linear congruential generator
/// with multiplier 1103515245, increment 12345, modulus 2^31.
pub open spec fn lcg_next(s: int) -> int {
    (s * 1103515245 + 12345) % 0x8000_0000
}

/// The generator state consumed by cell `i` when placing from `seed`:
/// the seed is first reduced into the generator's range, then stepped once
/// per cell.
pub open spec fn rand_at(seed: int, i: int) -> int
    decreases i,
{
    if i <= 0 {
        lcg_next(seed % 0x8000_0000)
    } else {
        lcg_next(rand_at(seed, i - 1))
    }
}

/// The cell that placement assigns to index `i` of a grid drawn from
/// `seed`: fresh terrain, or a fresh cell holding a monster of a level in
/// `1..=9`. Index 0 is always left empty.
pub open spec fn cell_at(d: Difficulty, seed: int, i: int) -> Cell {
    let r = rand_at(seed, i);
    if i != 0 && r % 256 < density_of(d) {
        Cell { revealed: false, flag: None, level: Some((1 + (r / 256) % 9) as u8) }
    } else {
        Cell::fresh()
    }
}

proof fn lemma_lcg_mul_fits(s: int) by (nonlinear_arith)
    requires
        0 <= s < 0x8000_0000,
    ensures
        0 <= s * 1103515245 + 12345 < 0xFFFF_FFFF_FFFF_FFFF,
{
}

/// One exec step of the placement generator.
fn lcg_step(s: u64) -> (r: u64)
    requires
        s < 0x8000_0000,
    ensures
        r == lcg_next(s as int),
        r < 0x8000_0000,
{
    proof {
        lemma_lcg_mul_fits(s as int);
    }
    (s * 1103515245 + 12345) % LCG_MOD
}

pub struct Board {
    /// Height of the grid.
    pub height: u16,
    /// Width of the grid.
    pub width: u16,
    /// The grid. The cells are enumerated like you would read a book: left
    /// to right, until you reach the line ending.
    pub grid: Vec<Cell>,
    /// The difficulty of the game.
    pub difficulty: Difficulty,
    /// The generator state the next placement will draw from.
    pub seed: u64,
}

impl Board {
    /// Structural well-formedness: positive dimensions, a grid of exactly
    /// `width * height` cells, every cell's levels in range.
    pub open spec fn wf(self) -> bool {
        &&& 0 < self.width
        &&& 0 < self.height
        &&& self.grid@.len() == self.width as int * self.height as int
        &&& forall|i: int| 0 <= i < self.grid@.len() ==> (#[trigger] self.grid@[i]).wf()
    }

    pub open spec fn in_bounds(self, x: int, y: int) -> bool {
        0 <= x < self.width && 0 <= y < self.height
    }

    /// The cell at coordinate `(x, y)`.
    pub open spec fn cell_of(self, x: int, y: int) -> Cell {
        self.grid@[pos_spec(x, y, self.width as int)]
    }

    /// The monster level at `(x, y)`, counting empty terrain as 0.
    pub open spec fn level_at(self, x: int, y: int) -> int {
        match self.cell_of(x, y).level {
            Some(l) => l as int,
            None => 0,
        }
    }

    /// The value of a cell: the sum of the monster levels of its eight
    /// toroidal neighbors. A cell of value 0 is called free.
    pub open spec fn val_spec(self, x: int, y: int) -> int {
        let w = self.width as int;
        let h = self.height as int;
        self.level_at(wrap_dec(x, w), wrap_dec(y, h)) + self.level_at(x, wrap_dec(y, h))
            + self.level_at(wrap_inc(x, w), wrap_dec(y, h)) + self.level_at(wrap_dec(x, w), y)
            + self.level_at(wrap_inc(x, w), y) + self.level_at(wrap_dec(x, w), wrap_inc(y, h))
            + self.level_at(x, wrap_inc(y, h)) + self.level_at(wrap_inc(x, w), wrap_inc(y, h))
    }

    /// A free cell: empty terrain whose eight neighbors hold no monster.
    pub open spec fn is_free(self, x: int, y: int) -> bool {
        self.cell_of(x, y).level is None && self.val_spec(x, y) == 0
    }

    /// What placement promises: the grid holds exactly the cells the seed
    /// draws, and the stored seed has advanced to the end of the stream.
    pub open spec fn placed_from(self, pre: Board) -> bool {
        &&& self.width == pre.width
        &&& self.height == pre.height
        &&& self.difficulty == pre.difficulty
        &&& self.grid@.len() == pre.grid@.len()
        &&& forall|i: int|
            0 <= i < self.grid@.len() ==> self.grid@[i] == cell_at(
                pre.difficulty,
                pre.seed as int,
                i,
            )
        &&& self.seed == rand_at(pre.seed as int, self.grid@.len() - 1)
    }

    /// Allocate the grid of a difficulty preset and place its monsters,
    /// drawing from the given seed.
    pub fn new(difficulty: Difficulty, seed: u64) -> (b: Board)
        ensures
            b.wf(),
            b.difficulty == difficulty,
            b.width == width_of(difficulty),
            b.height == height_of(difficulty),
            b.placed_from(
                Board {
                    width: (width_of(difficulty) as u16),
                    height: (height_of(difficulty) as u16),
                    grid: b.grid,
                    difficulty,
                    seed,
                },
            ),
    {
        let (width, height) = size_of(difficulty);
        proof {
            lemma_u16_product_fits(width as int, height as int);
        }
        let n: usize = width as usize * height as usize;
        let mut grid: Vec<Cell> = Vec::new();
        let mut i: usize = 0;
        while i < n
            invariant
                grid@.len() == i,
                i <= n,
                forall|j: int| 0 <= j < i ==> (#[trigger] grid@[j]).wf(),
            decreases n - i,
        {
            grid.push(Cell::new());
            i += 1;
        }
        let mut board = Board { width, height, grid, difficulty, seed };
        board.place_monsters();
        board
    }

    /// Clear every cell and regenerate the monster placement from the
    /// stored seed; the seed advances so the next reset draws fresh cells.
    /// Every cell comes back concealed and unflagged, holding at most a
    /// monster of a level in `1..=9` as the density policy draws it.
    pub fn reset(&mut self)
        requires
            old(self).wf(),
        ensures
            final(self).wf(),
            final(self).placed_from(*old(self)),
            forall|i: int|
                0 <= i < final(self).grid@.len() ==> !(#[trigger] final(self).grid@[i]).revealed
                    && final(self).grid@[i].flag is None,
    {
        self.place_monsters();
    }

    /// Overwrite every cell with the placement the stored seed draws:
    /// unrevealed, unflagged, empty at index 0, and elsewhere a monster of
    /// a level in `1..=9` wherever the draw falls below the difficulty's
    /// density threshold.
    pub fn place_monsters(&mut self)
        requires
            old(self).wf(),
        ensures
            final(self).wf(),
            final(self).placed_from(*old(self)),
    {
        let ghost pre = *self;
        let n: usize = self.grid.len();
        let thresh = density(self.difficulty);
        let mut s: u64 = self.seed % LCG_MOD;
        let mut i: usize = 0;
        while i < n
            invariant
                self.width == pre.width,
                self.height == pre.height,
                self.difficulty == pre.difficulty,
                self.seed == pre.seed,
                self.grid@.len() == pre.grid@.len(),
                n == self.grid@.len(),
                thresh == density_of(pre.difficulty),
                i <= n,
                s < 0x8000_0000,
                s == if i == 0 {
                    pre.seed as int % 0x8000_0000
                } else {
                    rand_at(pre.seed as int, i - 1)
                },
                forall|j: int|
                    0 <= j < i ==> self.grid@[j] == cell_at(pre.difficulty, pre.seed as int, j),
                forall|j: int| i <= j < n ==> self.grid@[j] == pre.grid@[j],
            decreases n - i,
        {
            s = lcg_step(s);
            proof {
                assert(s == rand_at(pre.seed as int, i as int));
            }
            let c = if i != 0 && s % 256 < thresh {
                let lvl: u8 = (1 + (s / 256) % 9) as u8;
                Cell { revealed: false, flag: None, level: Some(lvl) }
            } else {
                Cell::new()
            };
            proof {
                assert(c == cell_at(pre.difficulty, pre.seed as int, i as int));
            }
            self.grid.set(i, c);
            i += 1;
        }
        self.seed = s;
        proof {
            assert(n >= 1) by {
                lemma_u16_product_pos(pre.width as int, pre.height as int);
            }
            assert(forall|j: int|
                0 <= j < n ==> (#[trigger] self.grid@[j]).wf());
        }
    }

    /// Get the value of a cell: the sum of the monster levels of its eight
    /// toroidal neighbors. A cell of value 0 is called free.
    pub fn val(&self, x: u16, y: u16) -> (v: u8)
        requires
            self.wf(),
            x < self.width,
            y < self.height,
        ensures
            v == self.val_spec(x as int, y as int),
            v <= 72,
    {
        let lx = crate::coords::left(x, self.width);
        let rx = crate::coords::right(x, self.width);
        let uy = crate::coords::up(y, self.height);
        let dy = crate::coords::down(y, self.height);
        let v: u8 = self.level_u8(lx, uy) + self.level_u8(x, uy) + self.level_u8(rx, uy)
            + self.level_u8(lx, y) + self.level_u8(rx, y) + self.level_u8(lx, dy)
            + self.level_u8(x, dy) + self.level_u8(rx, dy);
        v
    }

    /// The monster level at an in-bounds coordinate, counting empty terrain
    /// as 0.
    fn level_u8(&self, x: u16, y: u16) -> (l: u8)
        requires
            self.wf(),
            x < self.width,
            y < self.height,
        ensures
            l == self.level_at(x as int, y as int),
            l <= 9,
    {
        let p = pos(x, y, self.width);
        proof {
            lemma_pos_in_bounds(x as int, y as int, self.width as int, self.height as int);
        }
        match self.grid[p].level {
            Some(l) => l,
            None => 0,
        }
    }

    /// Push the coordinate on the work stack when it is still concealed and
    /// holds no monster.
    fn push_candidate(&self, stack: &mut Vec<(u16, u16)>, nx: u16, ny: u16)
        requires
            self.wf(),
            nx < self.width,
            ny < self.height,
        ensures
            final(stack)@ == if !self.cell_of(nx as int, ny as int).revealed && self.cell_of(
                nx as int,
                ny as int,
            ).level is None {
                old(stack)@.push((nx, ny))
            } else {
                old(stack)@
            },
    {
        let p = pos(nx, ny, self.width);
        proof {
            lemma_pos_in_bounds(nx as int, ny as int, self.width as int, self.height as int);
        }
        if !self.grid[p].revealed && self.grid[p].level.is_none() {
            stack.push((nx, ny));
        }
    }

    /// Reveal the cell at `(x, y)` and flood outward: a revealed free cell
    /// reveals each of its eight neighbors in turn, and monster cells are
    /// never auto-revealed. The "already revealed" check is the sole
    /// termination guard the toroidal grid admits — there is no edge to
    /// stop at — so each cell is revealed at most once, the flood visits at
    /// most `width * height` cells, and the loop's measure is the count of
    /// still-concealed cells.
    #[verifier::rlimit(100)]
    pub fn reveal_at(&mut self, x: u16, y: u16)
        requires
            old(self).wf(),
            x < old(self).width,
            y < old(self).height,
            old(self).cell_of(x as int, y as int).level is None,
        ensures
            final(self).wf(),
            reveal_rel(*old(self), *final(self), x as int, y as int),
    {
        let ghost pre = *self;
        let mut stack: Vec<(u16, u16)> = Vec::new();
        stack.push((x, y));
        proof {
            assert(stack@[0] == (x, y));
        }
        while stack.len() > 0
            invariant
                self.wf(),
                pre.wf(),
                x < pre.width,
                y < pre.height,
                pre.cell_of(x as int, y as int).level is None,
                self.width == pre.width,
                self.height == pre.height,
                self.difficulty == pre.difficulty,
                self.seed == pre.seed,
                self.grid@.len() == pre.grid@.len(),
                forall|i: int|
                    0 <= i < pre.grid@.len() ==> (#[trigger] self.grid@[i]).level
                        == pre.grid@[i].level && self.grid@[i].flag == pre.grid@[i].flag,
                forall|i: int|
                    0 <= i < pre.grid@.len() && (#[trigger] pre.grid@[i]).revealed
                        ==> self.grid@[i].revealed,
                self.cell_of(x as int, y as int).revealed || stack_has(
                    stack@,
                    x as int,
                    y as int,
                ),
                pre.cell_of(x as int, y as int).revealed ==> self.grid@ == pre.grid@ && (forall|
                    j: int,
                |
                    0 <= j < stack@.len() ==> (#[trigger] stack@[j]) == (x, y)),
                forall|j: int|
                    0 <= j < stack@.len() ==> pre.in_bounds(
                        (#[trigger] stack@[j]).0 as int,
                        stack@[j].1 as int,
                    ) && pre.cell_of(stack@[j].0 as int, stack@[j].1 as int).level is None,
                forall|j: int|
                    0 <= j < stack@.len() ==> ((#[trigger] stack@[j]) == (x, y) || spread_from(
                        pre,
                        *self,
                        stack@[j].0 as int,
                        stack@[j].1 as int,
                    )),
                forall|cx: int, cy: int|
                    pre.in_bounds(cx, cy) && #[trigger] newly_revealed(pre, *self, cx, cy)
                        ==> pre.cell_of(cx, cy).level is None && ((cx == x as int && cy
                        == y as int) || spread_from(pre, *self, cx, cy)),
                forall|cx: int, cy: int|
                    pre.in_bounds(cx, cy) && #[trigger] newly_revealed(pre, *self, cx, cy)
                        && pre.is_free(cx, cy) ==> forall|k: int|
                        0 <= k < 8 ==> #[trigger] neighbor_pending(
                            pre,
                            *self,
                            stack@,
                            cx,
                            cy,
                            k,
                        ),
            decreases unrevealed_count(self.grid@), stack@.len(),
        {
            let ghost stack0 = stack@;
            let ghost board0 = *self;
            let popped = stack.pop();
            let (cx, cy) = popped.unwrap();
            proof {
                assert(stack0[stack0.len() - 1] == (cx, cy));
            }
            let p = pos(cx, cy, self.width);
            proof {
                lemma_pos_in_bounds(cx as int, cy as int, self.width as int, self.height as int);
            }
            if !self.grid[p].revealed {
                let mut c = self.grid[p];
                c.revealed = true;
                proof {
                    lemma_unrevealed_count_update(self.grid@, p as int, c);
                }
                self.grid.set(p, c);
                proof {
                    lemma_val_agrees(pre, *self, cx as int, cy as int);
                }
                let v = self.val(cx, cy);
                if v == 0 {
                    proof {
                        assert(pre.is_free(cx as int, cy as int));
                    }
                    let nbrs = adjacent(cx, cy, self.width, self.height);
                    let ghost sbase = stack@;
                    let mut k: usize = 0;
                    while k < 8
                        invariant
                            k <= 8,
                            self.wf(),
                            pre.wf(),
                            self.width == pre.width,
                            self.height == pre.height,
                            cx < pre.width,
                            cy < pre.height,
                            pre.is_free(cx as int, cy as int),
                            self.cell_of(cx as int, cy as int).revealed,
                            forall|i: int|
                                0 <= i < pre.grid@.len() ==> (#[trigger] self.grid@[i]).level
                                    == pre.grid@[i].level,
                            self.grid@.len() == pre.grid@.len(),
                            forall|kk: int|
                                0 <= kk < 8 ==> (#[trigger] nbrs@[kk]).0 < pre.width
                                    && nbrs@[kk].1 < pre.height && (
                                nbrs@[kk].0 as int,
                                nbrs@[kk].1 as int,
                                ) == adj_at(
                                    cx as int,
                                    cy as int,
                                    pre.width as int,
                                    pre.height as int,
                                    kk,
                                ),
                            // the stack only grows, by eligible neighbors of (cx, cy)
                            forall|j: int|
                                0 <= j < sbase.len() ==> #[trigger] stack@[j] == sbase[j],
                            stack@.len() >= sbase.len(),
                            forall|j: int|
                                sbase.len() <= j < stack@.len() ==> {
                                    let e = #[trigger] stack@[j];
                                    &&& pre.in_bounds(e.0 as int, e.1 as int)
                                    &&& pre.cell_of(e.0 as int, e.1 as int).level is None
                                    &&& is_adj(
                                        pre.width as int,
                                        pre.height as int,
                                        cx as int,
                                        cy as int,
                                        e.0 as int,
                                        e.1 as int,
                                    )
                                },
                            // the first k neighbors are already settled
                            forall|kk: int|
                                0 <= kk < k ==> #[trigger] neighbor_pending(
                                    pre,
                                    *self,
                                    stack@,
                                    cx as int,
                                    cy as int,
                                    kk,
                                ),
                        decreases 8 - k,
                    {
                        let (nx, ny) = nbrs[k];
                        let ghost smid = stack@;
                        self.push_candidate(&mut stack, nx, ny);
                        proof {
                            let n = adj_at(
                                cx as int,
                                cy as int,
                                pre.width as int,
                                pre.height as int,
                                k as int,
                            );
                            assert(n == (nx as int, ny as int));
                            lemma_pos_in_bounds(n.0, n.1, pre.width as int, pre.height as int);
                            assert(self.cell_of(n.0, n.1).level == pre.cell_of(n.0, n.1).level);
                            assert(neighbor_pending(
                                pre,
                                *self,
                                stack@,
                                cx as int,
                                cy as int,
                                k as int,
                            )) by {
                                if pre.cell_of(n.0, n.1).level is None && !self.cell_of(
                                    n.0,
                                    n.1,
                                ).revealed {
                                    assert(stack@ == smid.push((nx, ny)));
                                    assert(stack@[stack@.len() - 1] == (nx, ny));
                                }
                            }
                            assert forall|kk: int| 0 <= kk < k + 1 implies #[trigger] neighbor_pending(
                                pre,
                                *self,
                                stack@,
                                cx as int,
                                cy as int,
                                kk,
                            ) by {
                                if kk < k {
                                    assert(neighbor_pending(
                                        pre,
                                        *self,
                                        smid,
                                        cx as int,
                                        cy as int,
                                        kk,
                                    ));
                                    let n = adj_at(
                                        cx as int,
                                        cy as int,
                                        pre.width as int,
                                        pre.height as int,
                                        kk,
                                    );
                                    if pre.cell_of(n.0, n.1).level is None && !self.cell_of(
                                        n.0,
                                        n.1,
                                    ).revealed && stack_has(smid, n.0, n.1) {
                                        let j = choose|j: int|
                                            0 <= j < smid.len() && (#[trigger] smid[j]).0 == n.0
                                                && smid[j].1 == n.1;
                                        assert(stack@[j] == smid[j]);
                                    }
                                }
                            }
                        }
                        k += 1;
                    }
                }
            }
            proof {
                let s1 = stack0.subrange(0, stack0.len() - 1);
                let cxi = cx as int;
                let cyi = cy as int;
                let xi = x as int;
                let yi = y as int;
                lemma_pos_in_bounds(cxi, cyi, pre.width as int, pre.height as int);
                assert(self.cell_of(cxi, cyi).revealed);
                assert(forall|j: int| 0 <= j < s1.len() ==> #[trigger] stack@[j] == stack0[j]);
                // the target stays revealed or pending
                assert(self.cell_of(xi, yi).revealed || stack_has(stack@, xi, yi)) by {
                    lemma_pos_in_bounds(xi, yi, pre.width as int, pre.height as int);
                    if !self.cell_of(xi, yi).revealed {
                        assert(!board0.cell_of(xi, yi).revealed);
                        assert(stack_has(stack0, xi, yi));
                        let j = choose|j: int|
                            0 <= j < stack0.len() && (#[trigger] stack0[j]).0 == xi && stack0[j].1
                                == yi;
                        assert(stack0[j].0 == x && stack0[j].1 == y);
                        if j == stack0.len() - 1 {
                            assert(stack0[j] == (cx, cy));
                            assert(false);
                        }
                        assert(stack@[j] == stack0[j]);
                        assert(stack_has(stack@, xi, yi));
                    }
                }
                // an already-revealed target means nothing changed
                if pre.cell_of(xi, yi).revealed {
                    assert(stack0[stack0.len() - 1] == (x, y));
                    assert(self.grid@ == pre.grid@);
                }
                assert(step_frame(pre, board0, *self, cxi, cyi));
                assert((cxi == xi && cyi == yi) || spread_from(pre, board0, cxi, cyi)) by {
                    assert(stack0[stack0.len() - 1] == (x, y) || spread_from(
                        pre,
                        board0,
                        cxi,
                        cyi,
                    ));
                }
                assert((pre.is_free(cxi, cyi) && !board0.cell_of(cxi, cyi).revealed)
                    ==> forall|k: int|
                    0 <= k < 8 ==> #[trigger] neighbor_pending(pre, *self, stack@, cxi, cyi, k));
                assert(stack@.len() > stack0.len() - 1 ==> pre.is_free(cxi, cyi));
                lemma_step_stack(pre, board0, *self, stack0, stack@, x, y, cx, cy);
                lemma_step_sound(pre, board0, *self, xi, yi, cxi, cyi);
                lemma_step_pending(pre, board0, *self, stack0, stack@, cx, cy);
            }
        }
        proof {
            if pre.cell_of(x as int, y as int).revealed {
                assert(self.grid@ =~= pre.grid@);
            }
            assert forall|cx: int, cy: int|
                pre.in_bounds(cx, cy) && #[trigger] newly_revealed(pre, *self, cx, cy)
                    && pre.is_free(cx, cy) implies forall|k: int|
                0 <= k < 8 ==> #[trigger] neighbor_covered(pre, *self, cx, cy, k) by {
                assert forall|k: int| 0 <= k < 8 implies #[trigger] neighbor_covered(
                    pre,
                    *self,
                    cx,
                    cy,
                    k,
                ) by {
                    assert(neighbor_pending(pre, *self, stack@, cx, cy, k));
                }
            }
        }
    }
}

/// True when `(bx, by)` is one of the eight toroidal neighbors of `(ax, ay)`.
pub open spec fn is_adj(w: int, h: int, ax: int, ay: int, bx: int, by: int) -> bool {
    exists|k: int| 0 <= k < 8 && #[trigger] adj_at(ax, ay, w, h, k) == (bx, by)
}

/// True when the work stack holds the coordinate `(cx, cy)`.
pub open spec fn stack_has(s: Seq<(u16, u16)>, cx: int, cy: int) -> bool {
    exists|j: int| 0 <= j < s.len() && (#[trigger] s[j]).0 == cx && s[j].1 == cy
}

/// The cell at `(cx, cy)` is revealed in `post` but was not in `pre`.
pub open spec fn newly_revealed(pre: Board, post: Board, cx: int, cy: int) -> bool {
    post.cell_of(cx, cy).revealed && !pre.cell_of(cx, cy).revealed
}

/// The cell `(cx, cy)` borders some free cell that `cur` shows revealed;
/// flood reveal spreads to a cell only from such a neighbor.
pub open spec fn spread_from(pre: Board, cur: Board, cx: int, cy: int) -> bool {
    exists|dx: int, dy: int|
        pre.in_bounds(dx, dy) && (#[trigger] cur.cell_of(dx, dy)).revealed && pre.is_free(dx, dy)
            && is_adj(pre.width as int, pre.height as int, dx, dy, cx, cy)
}

/// Neighbor `k` of `(cx, cy)`, if it holds no monster, is revealed in
/// `post`.
pub open spec fn neighbor_covered(pre: Board, post: Board, cx: int, cy: int, k: int) -> bool {
    let n = adj_at(cx, cy, pre.width as int, pre.height as int, k);
    pre.cell_of(n.0, n.1).level is None ==> post.cell_of(n.0, n.1).revealed
}

/// Neighbor `k` of `(cx, cy)`, if it holds no monster, is revealed in
/// `cur` or still waiting on the work stack.
pub open spec fn neighbor_pending(
    pre: Board,
    cur: Board,
    st: Seq<(u16, u16)>,
    cx: int,
    cy: int,
    k: int,
) -> bool {
    let n = adj_at(cx, cy, pre.width as int, pre.height as int, k);
    pre.cell_of(n.0, n.1).level is None ==> cur.cell_of(n.0, n.1).revealed || stack_has(
        st,
        n.0,
        n.1,
    )
}

/// What a flood reveal promises. Only `revealed` flags change, and only
/// from concealed to revealed; the target ends revealed; revealing an
/// already-revealed cell is a no-op; no monster cell is ever auto-revealed;
/// every other newly revealed cell borders a revealed free cell; and every
/// newly revealed free cell has all its monster-free neighbors revealed, so
/// the flood stops exactly at the cells bordering a monster.
pub open spec fn reveal_rel(pre: Board, post: Board, x: int, y: int) -> bool {
    &&& post.width == pre.width
    &&& post.height == pre.height
    &&& post.difficulty == pre.difficulty
    &&& post.seed == pre.seed
    &&& post.grid@.len() == pre.grid@.len()
    &&& forall|i: int|
        0 <= i < pre.grid@.len() ==> (#[trigger] post.grid@[i]).level == pre.grid@[i].level
            && post.grid@[i].flag == pre.grid@[i].flag
    &&& forall|i: int|
        0 <= i < pre.grid@.len() && (#[trigger] pre.grid@[i]).revealed ==> post.grid@[i].revealed
    &&& post.cell_of(x, y).revealed
    &&& (pre.cell_of(x, y).revealed ==> post.grid@ == pre.grid@)
    &&& forall|cx: int, cy: int|
        pre.in_bounds(cx, cy) && #[trigger] newly_revealed(pre, post, cx, cy) ==> pre.cell_of(
            cx,
            cy,
        ).level is None && ((cx == x && cy == y) || spread_from(pre, post, cx, cy))
    &&& forall|cx: int, cy: int|
        pre.in_bounds(cx, cy) && #[trigger] newly_revealed(pre, post, cx, cy) && pre.is_free(
            cx,
            cy,
        ) ==> forall|k: int| 0 <= k < 8 ==> #[trigger] neighbor_covered(pre, post, cx, cy, k)
}

/// How many cells of the grid are still concealed; the measure the flood
/// loop runs down.
pub open spec fn unrevealed_count(g: Seq<Cell>) -> nat
    decreases g.len(),
{
    if g.len() == 0 {
        0
    } else {
        unrevealed_count(g.drop_last()) + (if g.last().revealed {
            0nat
        } else {
            1nat
        })
    }
}

/// The count of concealed cells never exceeds the grid size: together
/// with the flood loop's measure this bounds a flood reveal by
/// `width * height` cell visits.
pub proof fn lemma_unrevealed_count_le_len(g: Seq<Cell>)
    ensures
        unrevealed_count(g) <= g.len(),
    decreases g.len(),
{
    if g.len() > 0 {
        lemma_unrevealed_count_le_len(g.drop_last());
    }
}

/// Revealing one concealed cell strictly shrinks the count of concealed
/// cells.
proof fn lemma_unrevealed_count_update(g: Seq<Cell>, i: int, c: Cell)
    requires
        0 <= i < g.len(),
        !g[i].revealed,
        c.revealed,
    ensures
        unrevealed_count(g.update(i, c)) < unrevealed_count(g),
    decreases g.len(),
{
    let gu = g.update(i, c);
    if i == g.len() - 1 {
        assert(gu.drop_last() =~= g.drop_last());
    } else {
        assert(gu.drop_last() =~= g.drop_last().update(i, c));
        lemma_unrevealed_count_update(g.drop_last(), i, c);
    }
}

/// A spread witness survives revealing further cells: revealing is
/// monotone.
proof fn lemma_spread_monotone(pre: Board, a: Board, b: Board, cx: int, cy: int)
    requires
        pre.wf(),
        a.width == pre.width,
        a.height == pre.height,
        b.width == pre.width,
        a.grid@.len() == pre.grid@.len(),
        b.grid@.len() == pre.grid@.len(),
        forall|i: int|
            0 <= i < pre.grid@.len() && (#[trigger] a.grid@[i]).revealed ==> b.grid@[i].revealed,
        spread_from(pre, a, cx, cy),
    ensures
        spread_from(pre, b, cx, cy),
{
    let (dx, dy) = choose|dx: int, dy: int|
        pre.in_bounds(dx, dy) && (#[trigger] a.cell_of(dx, dy)).revealed && pre.is_free(dx, dy)
            && is_adj(pre.width as int, pre.height as int, dx, dy, cx, cy);
    lemma_pos_in_bounds(dx, dy, pre.width as int, pre.height as int);
    assert(b.cell_of(dx, dy).revealed);
}

/// The frame of one flood iteration: between the boards `a` (start) and
/// `b` (end), only the popped cell's `revealed` flag may have changed, from
/// concealed to revealed.
spec fn step_frame(pre: Board, a: Board, b: Board, cxi: int, cyi: int) -> bool {
    &&& pre.wf()
    &&& a.width == pre.width
    &&& a.height == pre.height
    &&& b.width == pre.width
    &&& b.height == pre.height
    &&& a.grid@.len() == pre.grid@.len()
    &&& b.grid@.len() == pre.grid@.len()
    &&& pre.in_bounds(cxi, cyi)
    &&& forall|i: int|
        0 <= i < pre.grid@.len() ==> (#[trigger] a.grid@[i]).level == pre.grid@[i].level
    &&& forall|i: int|
        0 <= i < pre.grid@.len() ==> (#[trigger] b.grid@[i]).level == pre.grid@[i].level
    &&& forall|i: int|
        0 <= i < pre.grid@.len() && (#[trigger] a.grid@[i]).revealed ==> b.grid@[i].revealed
    &&& forall|i: int|
        0 <= i < pre.grid@.len() && i != pos_spec(cxi, cyi, pre.width as int) ==> (
        #[trigger] b.grid@[i]).revealed == a.grid@[i].revealed
    &&& b.cell_of(cxi, cyi).revealed
}

/// After one flood iteration every newly revealed cell is still
/// monster-free and traceable to the target or to a revealed free neighbor.
proof fn lemma_step_sound(pre: Board, a: Board, b: Board, xi: int, yi: int, cxi: int, cyi: int)
    requires
        step_frame(pre, a, b, cxi, cyi),
        pre.cell_of(cxi, cyi).level is None,
        (cxi == xi && cyi == yi) || spread_from(pre, a, cxi, cyi),
        forall|ax: int, ay: int|
            pre.in_bounds(ax, ay) && #[trigger] newly_revealed(pre, a, ax, ay) ==> pre.cell_of(
                ax,
                ay,
            ).level is None && ((ax == xi && ay == yi) || spread_from(pre, a, ax, ay)),
    ensures
        forall|ax: int, ay: int|
            pre.in_bounds(ax, ay) && #[trigger] newly_revealed(pre, b, ax, ay) ==> pre.cell_of(
                ax,
                ay,
            ).level is None && ((ax == xi && ay == yi) || spread_from(pre, b, ax, ay)),
{
    assert forall|ax: int, ay: int|
        pre.in_bounds(ax, ay) && #[trigger] newly_revealed(pre, b, ax, ay) implies pre.cell_of(
        ax,
        ay,
    ).level is None && ((ax == xi && ay == yi) || spread_from(pre, b, ax, ay)) by {
        lemma_pos_in_bounds(ax, ay, pre.width as int, pre.height as int);
        if newly_revealed(pre, a, ax, ay) {
            if !(ax == xi && ay == yi) {
                lemma_spread_monotone(pre, a, b, ax, ay);
            }
        } else {
            assert(ax == cxi && ay == cyi);
            if !(ax == xi && ay == yi) {
                lemma_spread_monotone(pre, a, b, cxi, cyi);
            }
        }
    }
}

/// After one flood iteration, every monster-free neighbor of a newly
/// revealed free cell is still revealed or waiting on the stack.
proof fn lemma_step_pending(
    pre: Board,
    a: Board,
    b: Board,
    s0: Seq<(u16, u16)>,
    s1: Seq<(u16, u16)>,
    cx: u16,
    cy: u16,
)
    requires
        step_frame(pre, a, b, cx as int, cy as int),
        s0.len() > 0,
        s0[s0.len() - 1] == (cx, cy),
        s1.len() >= s0.len() - 1,
        forall|j: int| 0 <= j < s0.len() - 1 ==> #[trigger] s1[j] == s0[j],
        forall|ax: int, ay: int|
            pre.in_bounds(ax, ay) && #[trigger] newly_revealed(pre, a, ax, ay) && pre.is_free(
                ax,
                ay,
            ) ==> forall|k: int| 0 <= k < 8 ==> #[trigger] neighbor_pending(pre, a, s0, ax, ay, k),
        (pre.is_free(cx as int, cy as int) && !a.cell_of(cx as int, cy as int).revealed)
            ==> forall|k: int|
            0 <= k < 8 ==> #[trigger] neighbor_pending(pre, b, s1, cx as int, cy as int, k),
    ensures
        forall|ax: int, ay: int|
            pre.in_bounds(ax, ay) && #[trigger] newly_revealed(pre, b, ax, ay) && pre.is_free(
                ax,
                ay,
            ) ==> forall|k: int| 0 <= k < 8 ==> #[trigger] neighbor_pending(pre, b, s1, ax, ay, k),
{
    let w = pre.width as int;
    let h = pre.height as int;
    let cxi = cx as int;
    let cyi = cy as int;
    assert forall|ax: int, ay: int|
        pre.in_bounds(ax, ay) && #[trigger] newly_revealed(pre, b, ax, ay) && pre.is_free(
            ax,
            ay,
        ) implies forall|k: int|
        0 <= k < 8 ==> #[trigger] neighbor_pending(pre, b, s1, ax, ay, k) by {
        assert forall|k: int| 0 <= k < 8 implies #[trigger] neighbor_pending(
            pre,
            b,
            s1,
            ax,
            ay,
            k,
        ) by {
            lemma_pos_in_bounds(ax, ay, w, h);
            let n = adj_at(ax, ay, w, h, k);
            lemma_pos_in_bounds(n.0, n.1, w, h);
            if ax == cxi && ay == cyi && !a.cell_of(cxi, cyi).revealed {
                assert(neighbor_pending(pre, b, s1, cxi, cyi, k));
            } else {
                assert(newly_revealed(pre, a, ax, ay));
                assert(neighbor_pending(pre, a, s0, ax, ay, k));
                if pre.cell_of(n.0, n.1).level is None {
                    if a.cell_of(n.0, n.1).revealed {
                        assert(b.cell_of(n.0, n.1).revealed);
                    } else if stack_has(s0, n.0, n.1) {
                        let j = choose|j: int|
                            0 <= j < s0.len() && (#[trigger] s0[j]).0 == n.0 && s0[j].1 == n.1;
                        if j < s0.len() - 1 {
                            assert(s1[j] == s0[j]);
                            assert(stack_has(s1, n.0, n.1));
                        } else {
                            assert(n.0 == cxi && n.1 == cyi);
                            assert(b.cell_of(n.0, n.1).revealed);
                        }
                    }
                }
            }
        }
    }
}

/// After one flood iteration the stack still holds only in-bounds,
/// monster-free coordinates, each the target or a neighbor of a revealed
/// free cell.
proof fn lemma_step_stack(
    pre: Board,
    a: Board,
    b: Board,
    s0: Seq<(u16, u16)>,
    s1: Seq<(u16, u16)>,
    x: u16,
    y: u16,
    cx: u16,
    cy: u16,
)
    requires
        step_frame(pre, a, b, cx as int, cy as int),
        s0.len() > 0,
        s0[s0.len() - 1] == (cx, cy),
        forall|j: int|
            0 <= j < s0.len() ==> pre.in_bounds((#[trigger] s0[j]).0 as int, s0[j].1 as int)
                && pre.cell_of(s0[j].0 as int, s0[j].1 as int).level is None,
        forall|j: int|
            0 <= j < s0.len() ==> ((#[trigger] s0[j]) == (x, y) || spread_from(
                pre,
                a,
                s0[j].0 as int,
                s0[j].1 as int,
            )),
        s1.len() >= s0.len() - 1,
        forall|j: int| 0 <= j < s0.len() - 1 ==> #[trigger] s1[j] == s0[j],
        forall|j: int|
            s0.len() - 1 <= j < s1.len() ==> pre.in_bounds(
                (#[trigger] s1[j]).0 as int,
                s1[j].1 as int,
            ) && pre.cell_of(s1[j].0 as int, s1[j].1 as int).level is None && is_adj(
                pre.width as int,
                pre.height as int,
                cx as int,
                cy as int,
                s1[j].0 as int,
                s1[j].1 as int,
            ),
        s1.len() > s0.len() - 1 ==> pre.is_free(cx as int, cy as int),
    ensures
        forall|j: int|
            0 <= j < s1.len() ==> pre.in_bounds((#[trigger] s1[j]).0 as int, s1[j].1 as int)
                && pre.cell_of(s1[j].0 as int, s1[j].1 as int).level is None,
        forall|j: int|
            0 <= j < s1.len() ==> ((#[trigger] s1[j]) == (x, y) || spread_from(
                pre,
                b,
                s1[j].0 as int,
                s1[j].1 as int,
            )),
{
    assert forall|j: int| 0 <= j < s1.len() implies ((#[trigger] s1[j]) == (x, y) || spread_from(
        pre,
        b,
        s1[j].0 as int,
        s1[j].1 as int,
    )) by {
        if j < s0.len() - 1 {
            if s0[j] != (x, y) {
                lemma_spread_monotone(pre, a, b, s0[j].0 as int, s0[j].1 as int);
            }
        } else {
            assert(pre.in_bounds(cx as int, cy as int) && b.cell_of(
                cx as int,
                cy as int,
            ).revealed && pre.is_free(cx as int, cy as int) && is_adj(
                pre.width as int,
                pre.height as int,
                cx as int,
                cy as int,
                s1[j].0 as int,
                s1[j].1 as int,
            ));
            assert(spread_from(pre, b, s1[j].0 as int, s1[j].1 as int));
        }
    }
}

/// Two boards whose cells hold the same monster levels agree on every
/// cell value.
proof fn lemma_val_agrees(a: Board, b: Board, x: int, y: int)
    requires
        a.wf(),
        b.width == a.width,
        b.height == a.height,
        b.grid@.len() == a.grid@.len(),
        forall|i: int| 0 <= i < a.grid@.len() ==> (#[trigger] b.grid@[i]).level == a.grid@[i].level,
        a.in_bounds(x, y),
    ensures
        b.val_spec(x, y) == a.val_spec(x, y),
        b.cell_of(x, y).level == a.cell_of(x, y).level,
{
    let w = a.width as int;
    let h = a.height as int;
    lemma_pos_in_bounds(x, y, w, h);
    lemma_pos_in_bounds(wrap_dec(x, w), wrap_dec(y, h), w, h);
    lemma_pos_in_bounds(x, wrap_dec(y, h), w, h);
    lemma_pos_in_bounds(wrap_inc(x, w), wrap_dec(y, h), w, h);
    lemma_pos_in_bounds(wrap_dec(x, w), y, w, h);
    lemma_pos_in_bounds(wrap_inc(x, w), y, w, h);
    lemma_pos_in_bounds(wrap_dec(x, w), wrap_inc(y, h), w, h);
    lemma_pos_in_bounds(x, wrap_inc(y, h), w, h);
    lemma_pos_in_bounds(wrap_inc(x, w), wrap_inc(y, h), w, h);
}

proof fn lemma_u16_product_fits(w: int, h: int) by (nonlinear_arith)
    requires
        0 <= w <= 0xFFFF,
        0 <= h <= 0xFFFF,
    ensures
        w * h <= 0xFFFF_FFFF,
{
}

proof fn lemma_u16_product_pos(w: int, h: int) by (nonlinear_arith)
    requires
        0 < w,
        0 < h,
    ensures
        1 <= w * h,
{
}

} // verus!
