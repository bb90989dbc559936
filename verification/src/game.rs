//! The cellular automaton: grid state and the generation step.
//!
//! The grid tracks a fixed rectangular region of cells; a coordinate inside
//! the region maps to alive or dead, and every coordinate outside it reads
//! as dead.  The tracked region is chosen when the grid is built and never
//! grows, so a birth on the far side of its edge is dropped — deliberately:
//! the scene only ever seeds and draws a small bounded board.
//!
//! Cells are stored row-major in a single vector: the cell at `(x, y)`
//! stands at index `y * width + x`.

use vstd::prelude::*;
use crate::model::Instance;
use crate::model::as_ints;
use crate::model::flat_raw;
use crate::model::lemma_as_ints_add;
use crate::model::lemma_flat_raw_len;
use crate::model::lemma_flat_raw_take_step;
use vstd::arithmetic::div_mod::lemma_fundamental_div_mod;
use vstd::arithmetic::div_mod::lemma_mod_division_less_than_divisor;

verus! {

/// The standard Game-of-Life transition for one cell: a live cell survives
/// with 2 or 3 live neighbors, a dead cell is born with exactly 3, and
/// every other cell is dead in the next generation.
pub open spec fn rule(alive: bool, neighbors: int) -> bool {
    if alive {
        2 <= neighbors <= 3
    } else {
        neighbors == 3
    }
}

/// A neighbor's contribution to a neighbor count.
pub open spec fn count_live(alive: bool) -> int {
    if alive {
        1
    } else {
        0
    }
}

/// The grid of cells, together with the automaton that advances it.
pub struct Game {
    pub width: usize,
    pub height: usize,
    pub cells: Vec<bool>,
}

/// Row-major cell storage puts `(x, y)` at an index below the total count.
proof fn lemma_index_bounds(w: int, h: int, x: int, y: int)
    requires
        0 <= x < w,
        0 <= y < h,
    ensures
        0 <= y * w + x < w * h,
{
    assert(0 <= y * w + x < w * h) by (nonlinear_arith)
        requires
            0 <= x < w,
            0 <= y < h,
    ;
}

/// Row-major indices are distinct for distinct in-bounds coordinates.
proof fn lemma_index_injective(w: int, x1: int, y1: int, x2: int, y2: int)
    requires
        0 <= x1 < w,
        0 <= x2 < w,
        y1 * w + x1 == y2 * w + x2,
    ensures
        x1 == x2 && y1 == y2,
{
    assert(x1 == x2 && y1 == y2) by (nonlinear_arith)
        requires
            0 <= x1 < w,
            0 <= x2 < w,
            y1 * w + x1 == y2 * w + x2,
    ;
}

/// A storage index below `w * h` decomposes into the unique in-bounds
/// coordinate it stores: column `k % w`, row `k / w`.
proof fn lemma_scan_decompose(k: int, w: int, h: int)
    requires
        0 <= k,
        0 < w,
        k < w * h,
    ensures
        0 <= k % w < w,
        0 <= k / w < h,
        (k / w) * w + (k % w) == k,
{
    lemma_fundamental_div_mod(k, w);
    lemma_mod_division_less_than_divisor(k, w);
    assert((k / w) * w == w * (k / w));
    assert(k / w >= 0) by (nonlinear_arith)
        requires
            0 <= k,
            0 < w,
            k == w * (k / w) + (k % w),
            0 <= k % w < w,
    ;
    assert(k / w < h) by (nonlinear_arith)
        requires
            0 < w,
            k < w * h,
            k == w * (k / w) + (k % w),
            0 <= k % w < w,
    ;
}

impl Game {
    /// The grid's internal shape is consistent: one stored cell per tracked
    /// coordinate, with both sides of the region small enough that every
    /// coordinate fits comfortably in the machine's integer types.
    pub open spec fn wf(self) -> bool {
        &&& self.cells@.len() == self.width * self.height
        &&& self.width <= 0xFFFF
        &&& self.height <= 0xFFFF
    }

    pub open spec fn grid_width(self) -> int {
        self.width as int
    }

    pub open spec fn grid_height(self) -> int {
        self.height as int
    }

    /// Whether `(x, y)` lies in the tracked region.
    pub open spec fn in_bounds(self, x: int, y: int) -> bool {
        0 <= x < self.grid_width() && 0 <= y < self.grid_height()
    }

    /// Whether the cell at `(x, y)` is alive.  Total over all coordinates:
    /// anything outside the tracked region is dead.
    pub open spec fn live(self, x: int, y: int) -> bool {
        self.in_bounds(x, y) && self.cells@[y * self.grid_width() + x]
    }

    /// How many of the 8 adjacent cells (orthogonal and diagonal) are
    /// alive, untracked neighbors counting as dead.
    pub open spec fn neighbor_count(self, x: int, y: int) -> int {
        count_live(self.live(x + 1, y)) + count_live(self.live(x - 1, y)) + count_live(
            self.live(x, y + 1),
        ) + count_live(self.live(x, y - 1)) + count_live(self.live(x - 1, y + 1)) + count_live(
            self.live(x + 1, y + 1),
        ) + count_live(self.live(x - 1, y - 1)) + count_live(self.live(x + 1, y - 1))
    }

    /// The cell at `(x, y)` in the next generation, evaluated entirely
    /// against the current one.
    pub open spec fn next_cell(self, x: int, y: int) -> bool {
        rule(self.live(x, y), self.neighbor_count(x, y))
    }

    /// `post` is `pre` advanced by exactly one synchronous generation: same
    /// tracked region, and every tracked cell stepped by [`rule`] against
    /// the frozen `pre` state.
    pub open spec fn step_of(pre: Game, post: Game) -> bool {
        &&& post.grid_width() == pre.grid_width()
        &&& post.grid_height() == pre.grid_height()
        &&& forall|x: int, y: int|
            pre.in_bounds(x, y) ==> #[trigger] post.live(x, y) == pre.next_cell(x, y)
    }

    /// An all-dead grid tracking the given region.
    pub fn with_size(width: usize, height: usize) -> (g: Game)
        requires
            width <= 0xFFFF,
            height <= 0xFFFF,
        ensures
            g.wf(),
            g.grid_width() == width,
            g.grid_height() == height,
            forall|x: int, y: int| !g.live(x, y),
    {
        proof {
            assert(width * height <= 0xFFFF * 0xFFFF) by (nonlinear_arith)
                requires
                    width <= 0xFFFF,
                    height <= 0xFFFF,
            ;
        }
        let total = width * height;
        let mut cells: Vec<bool> = Vec::new();
        let mut i: usize = 0;
        while i < total
            invariant
                i <= total,
                cells@.len() == i,
                forall|k: int| 0 <= k < i ==> !cells@[k],
            decreases total - i,
        {
            cells.push(false);
            i = i + 1;
        }
        let g = Game { width, height, cells };
        proof {
            assert forall|x: int, y: int| !g.live(x, y) by {
                if g.in_bounds(x, y) {
                    lemma_index_bounds(g.grid_width(), g.grid_height(), x, y);
                }
            }
        }
        g
    }

    /// Looks a cell up by coordinate, in-bounds or not: the value of
    /// [`Game::live`] at that coordinate.
    fn live_at(&self, x: i64, y: i64) -> (alive: bool)
        requires
            self.wf(),
        ensures
            alive == self.live(x as int, y as int),
    {
        if x >= 0 && y >= 0 && x < self.width as i64 && y < self.height as i64 {
            let xi = x as usize;
            let yi = y as usize;
            proof {
                assert(self.cells.len() == self.cells@.len());
                lemma_index_bounds(self.grid_width(), self.grid_height(), x as int, y as int);
            }
            let idx: usize = yi * self.width + xi;
            self.cells[idx]
        } else {
            false
        }
    }

    /// Looks a cell up by its grid coordinate.  Coordinates outside the
    /// tracked region read as dead.
    pub fn get(&self, cell: (i32, i32)) -> (alive: bool)
        requires
            self.wf(),
        ensures
            alive == self.live(cell.0 as int, cell.1 as int),
    {
        self.live_at(cell.0 as i64, cell.1 as i64)
    }

    /// Seeds a cell.  Seeding the same coordinate again just overwrites it:
    /// last write wins.
    pub fn insert(&mut self, cell: (i32, i32), alive: bool)
        requires
            old(self).wf(),
            old(self).in_bounds(cell.0 as int, cell.1 as int),
        ensures
            final(self).wf(),
            final(self).grid_width() == old(self).grid_width(),
            final(self).grid_height() == old(self).grid_height(),
            forall|x: int, y: int|
                #[trigger] final(self).live(x, y) == (if x == cell.0 as int && y == cell.1 as int {
                    alive
                } else {
                    old(self).live(x, y)
                }),
    {
        let xi = cell.0 as usize;
        let yi = cell.1 as usize;
        proof {
            assert(self.cells.len() == self.cells@.len());
            lemma_index_bounds(
                self.grid_width(),
                self.grid_height(),
                cell.0 as int,
                cell.1 as int,
            );
        }
        let idx: usize = yi * self.width + xi;
        self.cells[idx] = alive;
        proof {
            let cx = cell.0 as int;
            let cy = cell.1 as int;
            assert forall|x: int, y: int|
                #[trigger] self.live(x, y) == (if x == cx && y == cy {
                    alive
                } else {
                    old(self).live(x, y)
                }) by {
                if self.in_bounds(x, y) {
                    lemma_index_bounds(self.grid_width(), self.grid_height(), x, y);
                    if x != cx || y != cy {
                        if y * self.grid_width() + x == cy * self.grid_width() + cx {
                            lemma_index_injective(self.grid_width(), x, y, cx, cy);
                        }
                    }
                }
            }
        }
    }

    /// Counts the live cells among the 8 neighbors of `cell`, diagonals
    /// included, with untracked neighbors counting as dead.
    pub fn get_neighbors(&self, cell: (i32, i32)) -> (n: u32)
        requires
            self.wf(),
        ensures
            n == self.neighbor_count(cell.0 as int, cell.1 as int),
    {
        let x = cell.0 as i64;
        let y = cell.1 as i64;
        let mut count: u32 = 0;
        if self.live_at(x + 1, y) {
            count = count + 1;
        }
        if self.live_at(x - 1, y) {
            count = count + 1;
        }
        if self.live_at(x, y + 1) {
            count = count + 1;
        }
        if self.live_at(x, y - 1) {
            count = count + 1;
        }
        if self.live_at(x - 1, y + 1) {
            count = count + 1;
        }
        if self.live_at(x + 1, y + 1) {
            count = count + 1;
        }
        if self.live_at(x - 1, y - 1) {
            count = count + 1;
        }
        if self.live_at(x + 1, y - 1) {
            count = count + 1;
        }
        count
    }

    /// Advances the grid one generation in place.
    ///
    /// Every cell of the next generation is computed against the frozen
    /// previous one — neighbor counts never observe a partial update — and
    /// the tracked region stays as it was, so a birth outside it is
    /// dropped.
    pub fn update(&mut self)
        requires
            old(self).wf(),
        ensures
            final(self).wf(),
            Game::step_of(*old(self), *final(self)),
    {
        let w = self.width;
        let h = self.height;
        let mut next: Vec<bool> = Vec::new();
        let mut y: usize = 0;
        while y < h
            invariant
                self == old(self),
                self.wf(),
                w == self.width,
                h == self.height,
                y <= h,
                next@.len() == y * self.grid_width(),
                forall|i: int, j: int|
                    0 <= i < self.grid_width() && 0 <= j < y ==> next@[j * self.grid_width() + i]
                        == #[trigger] self.next_cell(i, j),
            decreases h - y,
        {
            let mut x: usize = 0;
            while x < w
                invariant
                    self == old(self),
                    self.wf(),
                    w == self.width,
                    h == self.height,
                    y < h,
                    x <= w,
                    next@.len() == y * self.grid_width() + x,
                    forall|i: int, j: int|
                        0 <= i < self.grid_width() && 0 <= j <= y && (j < y || i < x)
                            ==> next@[j * self.grid_width() + i] == #[trigger] self.next_cell(i, j),
                decreases w - x,
            {
                let n = self.get_neighbors((x as i32, y as i32));
                let alive = self.live_at(x as i64, y as i64);
                let born = if alive {
                    n >= 2 && n <= 3
                } else {
                    n == 3
                };
                next.push(born);
                proof {
                    let wi = self.grid_width();
                    assert forall|i: int, j: int|
                        0 <= i < wi && 0 <= j <= y && (j < y || i < x + 1)
                            ==> next@[j * wi + i] == #[trigger] self.next_cell(i, j) by {
                        if 0 <= i < wi && 0 <= j <= y && (j < y || i < x + 1) {
                            if j == y && i == x {
                                assert(next@[j * wi + i] == born);
                            } else {
                                assert(j * wi + i < y * wi + x) by (nonlinear_arith)
                                    requires
                                        0 <= i < wi,
                                        0 <= j <= y,
                                        j < y || i < x,
                                ;
                                assert(0 <= j * wi + i) by (nonlinear_arith)
                                    requires
                                        0 <= i,
                                        0 <= j,
                                        0 <= wi,
                                ;
                            }
                        }
                    }
                }
                x = x + 1;
            }
            proof {
                assert((y + 1) * self.grid_width() == y * self.grid_width() + self.grid_width())
                    by (nonlinear_arith);
            }
            y = y + 1;
        }
        self.cells = next;
        proof {
            assert(self.cells@.len() == self.width * self.height) by (nonlinear_arith)
                requires
                    self.cells@.len() == (self.height as int) * (self.width as int),
            ;
            assert forall|x: int, y: int|
                old(self).in_bounds(x, y) implies #[trigger] self.live(x, y) == old(
                self,
            ).next_cell(x, y) by {
                lemma_index_bounds(self.grid_width(), self.grid_height(), x, y);
                assert(next@[y * self.grid_width() + x] == old(self).next_cell(x, y));
            }
        }
    }

    /// The coordinates of the live cells among the first `k` storage
    /// slots, in row-major scan order.
    pub open spec fn live_cells_upto(self, k: int) -> Seq<(int, int)>
        decreases k,
    {
        if k <= 0 {
            Seq::empty()
        } else {
            let x = (k - 1) % self.grid_width();
            let y = (k - 1) / self.grid_width();
            if self.live(x, y) {
                self.live_cells_upto(k - 1).push((x, y))
            } else {
                self.live_cells_upto(k - 1)
            }
        }
    }

    /// The coordinates of every live cell, in row-major scan order.
    pub open spec fn live_cells(self) -> Seq<(int, int)> {
        self.live_cells_upto(self.grid_width() * self.grid_height())
    }

    /// How many cells are alive.
    pub open spec fn live_count(self) -> int {
        self.live_cells().len() as int
    }

    /// Emits one [`Instance`] per live cell, in row-major scan order:
    /// instance `m` sits at the coordinates of the `m`-th live cell.
    pub fn make_instances(&self) -> (v: Vec<Instance>)
        requires
            self.wf(),
        ensures
            v@.len() == self.live_count(),
            forall|m: int|
                0 <= m < v@.len() ==> ((#[trigger] v@[m]).x as int, v@[m].y as int)
                    == self.live_cells()[m],
    {
        let w = self.width;
        let h = self.height;
        let total = self.cells.len();
        let mut v: Vec<Instance> = Vec::new();
        let mut k: usize = 0;
        while k < total
            invariant
                self.wf(),
                w == self.width,
                h == self.height,
                total == self.cells@.len(),
                k <= total,
                v@.len() == self.live_cells_upto(k as int).len(),
                forall|m: int|
                    0 <= m < v@.len() ==> ((#[trigger] v@[m]).x as int, v@[m].y as int)
                        == self.live_cells_upto(k as int)[m],
            decreases total - k,
        {
            proof {
                if w == 0 {
                    assert(self.width * self.height == 0) by (nonlinear_arith)
                        requires
                            self.width == 0,
                    ;
                }
                lemma_scan_decompose(k as int, self.grid_width(), self.grid_height());
            }
            let x = k % w;
            let y = k / w;
            let alive = self.cells[k];
            if alive {
                v.push(Instance { x: x as i32, y: y as i32 });
            }
            k = k + 1;
        }
        proof {
            assert(self.grid_width() * self.grid_height() == total) by (nonlinear_arith)
                requires
                    total == (self.width as int) * (self.height as int),
            ;
        }
        v
    }

    /// Flattens the live cells into the instance buffer the GPU consumes:
    /// 16 integer matrix entries per live cell, in row-major scan order.
    pub fn make_list(&self) -> (r: Vec<i32>)
        requires
            self.wf(),
        ensures
            as_ints(r@) == flat_raw(self.live_cells()),
            r@.len() == 16 * self.live_count(),
    {
        let instances = self.make_instances();
        let mut out: Vec<i32> = Vec::new();
        let mut i: usize = 0;
        while i < instances.len()
            invariant
                self.wf(),
                i <= instances@.len(),
                instances@.len() == self.live_count(),
                forall|m: int|
                    0 <= m < instances@.len() ==> ((#[trigger] instances@[m]).x as int,
                    instances@[m].y as int) == self.live_cells()[m],
                as_ints(out@) == flat_raw(self.live_cells().take(i as int)),
            decreases instances@.len() - i,
        {
            let ghost prev = out@;
            let mut raw = instances[i].to_raw();
            let ghost raw_view = raw@;
            out.append(&mut raw);
            proof {
                lemma_as_ints_add(prev, raw_view);
                lemma_flat_raw_take_step(self.live_cells(), i as int);
            }
            i = i + 1;
        }
        proof {
            assert(self.live_cells().take(self.live_count()) =~= self.live_cells());
            lemma_flat_raw_len(self.live_cells());
        }
        out
    }

    /// The grid the scene starts from: a 10 by 10 tracked region with the
    /// four-cell seed pattern alive in its corner.
    pub fn new() -> (g: Game)
        ensures
            g.wf(),
            g.grid_width() == 10,
            g.grid_height() == 10,
            forall|x: int, y: int|
                #[trigger] g.live(x, y) == ((x == 0 && y == 0) || (x == 1 && y == 0) || (x == 1
                    && y == 1) || (x == 2 && y == 1)),
    {
        let mut g = Game::with_size(10, 10);
        g.insert((0, 0), true);
        g.insert((1, 0), true);
        g.insert((1, 1), true);
        g.insert((2, 1), true);
        g
    }
}

/// The transition rule, case by case: a live cell with 2 or 3 live
/// neighbors survives; a live cell with any other count dies; a dead cell
/// with exactly 3 live neighbors is born; every other dead cell stays
/// dead.
pub proof fn lemma_rule_cases(alive: bool, neighbors: int)
    ensures
        (alive && (neighbors == 2 || neighbors == 3)) ==> rule(alive, neighbors),
        (alive && (neighbors < 2 || neighbors > 3)) ==> !rule(alive, neighbors),
        (!alive && neighbors == 3) ==> rule(alive, neighbors),
        (!alive && neighbors != 3) ==> !rule(alive, neighbors),
{
}

/// Advancing a grid is a pure function of the grid: any two grids that
/// stand one generation after the same grid agree on every cell.
pub proof fn lemma_step_deterministic(pre: Game, a: Game, b: Game)
    requires
        Game::step_of(pre, a),
        Game::step_of(pre, b),
    ensures
        forall|x: int, y: int| #[trigger] a.live(x, y) == b.live(x, y),
{
    assert forall|x: int, y: int| #[trigger] a.live(x, y) == b.live(x, y) by {
        if !pre.in_bounds(x, y) {
            assert(!a.in_bounds(x, y));
            assert(!b.in_bounds(x, y));
        }
    }
}

/// Two grids that track the same region and agree on every cell project
/// to the same live-cell list, slot for slot.
proof fn lemma_live_cells_upto_agree(a: Game, b: Game, k: int)
    requires
        a.grid_width() == b.grid_width(),
        a.grid_height() == b.grid_height(),
        forall|x: int, y: int| #[trigger] a.live(x, y) == b.live(x, y),
    ensures
        a.live_cells_upto(k) == b.live_cells_upto(k),
    decreases k,
{
    if k > 0 {
        lemma_live_cells_upto_agree(a, b, k - 1);
    }
}

/// Grids that agree on every cell have the same projection, so the whole
/// render output of a generation is determined by what is alive in it.
pub proof fn lemma_projection_agrees(a: Game, b: Game)
    requires
        a.grid_width() == b.grid_width(),
        a.grid_height() == b.grid_height(),
        forall|x: int, y: int| #[trigger] a.live(x, y) == b.live(x, y),
    ensures
        a.live_cells() == b.live_cells(),
        flat_raw(a.live_cells()) == flat_raw(b.live_cells()),
{
    lemma_live_cells_upto_agree(a, b, a.grid_width() * a.grid_height());
}

/// The live-cell list up to slot `k` holds exactly the live cells whose
/// storage index lies below `k`.
proof fn lemma_live_cells_upto_contains(g: Game, k: int, x: int, y: int)
    requires
        g.wf(),
        0 <= k <= g.grid_width() * g.grid_height(),
    ensures
        g.live_cells_upto(k).contains((x, y)) <==> (g.live(x, y) && y * g.grid_width() + x < k),
    decreases k,
{
    let w = g.grid_width();
    if k > 0 {
        assert(0 < w && 0 < g.grid_height()) by (nonlinear_arith)
            requires
                0 <= w,
                0 <= g.grid_height(),
                0 < k <= w * g.grid_height(),
        ;
        lemma_live_cells_upto_contains(g, k - 1, x, y);
        lemma_scan_decompose(k - 1, w, g.grid_height());
        let cx = (k - 1) % w;
        let cy = (k - 1) / w;
        let s = g.live_cells_upto(k - 1);
        if g.live(cx, cy) {
            let t = g.live_cells_upto(k);
            assert(t == s.push((cx, cy)));
            if t.contains((x, y)) {
                let m = choose|m: int| 0 <= m < t.len() && t[m] == (x, y);
                if m < s.len() {
                    assert(s[m] == (x, y));
                    assert(s.contains((x, y)));
                } else {
                    assert((x, y) == (cx, cy));
                }
            }
            if g.live(x, y) && y * w + x < k {
                if y * w + x < k - 1 {
                    let m = choose|m: int| 0 <= m < s.len() && s[m] == (x, y);
                    assert(t[m] == (x, y));
                    assert(t.contains((x, y)));
                } else {
                    lemma_index_injective(w, x, y, cx, cy);
                    assert(t[s.len() as int] == (x, y));
                    assert(t.contains((x, y)));
                }
            }
        } else {
            if g.live(x, y) && y * w + x == k - 1 {
                lemma_index_injective(w, x, y, cx, cy);
            }
        }
    }
}

/// The projection is exact: it lists every live cell, only live cells,
/// and each exactly once.
pub proof fn lemma_projection_exact(g: Game)
    requires
        g.wf(),
    ensures
        forall|x: int, y: int| #[trigger] g.live(x, y) <==> g.live_cells().contains((x, y)),
        forall|i: int, j: int|
            0 <= i < j < g.live_count() ==> g.live_cells()[i] != g.live_cells()[j],
{
    let w = g.grid_width();
    let h = g.grid_height();
    assert forall|x: int, y: int| #[trigger] g.live(x, y) <==> g.live_cells().contains(
        (x, y),
    ) by {
        lemma_live_cells_upto_contains(g, w * h, x, y);
        if g.live(x, y) {
            lemma_index_bounds(w, h, x, y);
        }
    }
    lemma_live_cells_upto_distinct(g, w * h);
}

/// No cell appears twice in the live-cell list up to slot `k`.
proof fn lemma_live_cells_upto_distinct(g: Game, k: int)
    requires
        g.wf(),
        0 <= k <= g.grid_width() * g.grid_height(),
    ensures
        forall|i: int, j: int|
            0 <= i < j < g.live_cells_upto(k).len() ==> g.live_cells_upto(k)[i]
                != g.live_cells_upto(k)[j],
    decreases k,
{
    let w = g.grid_width();
    let h = g.grid_height();
    if k > 0 {
        lemma_live_cells_upto_distinct(g, k - 1);
        assert(0 < w && 0 < h) by (nonlinear_arith)
            requires
                0 <= w,
                0 <= h,
                0 < k <= w * h,
        ;
        lemma_scan_decompose(k - 1, w, h);
        let cx = (k - 1) % w;
        let cy = (k - 1) / w;
        let s = g.live_cells_upto(k - 1);
        let t = g.live_cells_upto(k);
        if g.live(cx, cy) {
            assert forall|i: int, j: int| 0 <= i < j < t.len() implies t[i] != t[j] by {
                if j == s.len() {
                    assert(s[i] == t[i]);
                    assert(s.contains(s[i]));
                    lemma_live_cells_upto_contains(g, k - 1, s[i].0, s[i].1);
                    assert(s[i].1 * w + s[i].0 < k - 1);
                    assert(t[j] == (cx, cy));
                }
            }
        }
    }
}

/// Projecting an all-dead grid yields no instances at all.
pub proof fn lemma_projection_all_dead(g: Game)
    requires
        g.wf(),
        forall|x: int, y: int| !(#[trigger] g.live(x, y)),
    ensures
        g.live_cells() == Seq::<(int, int)>::empty(),
        flat_raw(g.live_cells()) == Seq::<int>::empty(),
{
    let s = g.live_cells();
    if s.len() > 0 {
        assert(s.contains(s[0]));
        lemma_projection_exact(g);
        assert(g.live(s[0].0, s[0].1));
    }
    assert(s =~= Seq::<(int, int)>::empty());
}

impl Default for Game {
    /// The same grid as [`Game::new`].
    fn default() -> (g: Game)
        ensures
            g.wf(),
            g.grid_width() == 10,
            g.grid_height() == 10,
            forall|x: int, y: int|
                #[trigger] g.live(x, y) == ((x == 0 && y == 0) || (x == 1 && y == 0) || (x == 1
                    && y == 1) || (x == 2 && y == 1)),
    {
        Game::new()
    }
}

} // verus!

