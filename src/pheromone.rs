//! The two pheromone fields: grids of intensities in `[0, FULL]`, one cell per
//! whole distance unit, that decay every tick and are refilled by agents.
use vstd::prelude::*;
use crate::fixed::{Vec2, SCALE};

verus! {

/// Intensity of a freshly marked cell (one whole unit of pheromone).
pub const FULL: u32 = 1000;

/// Largest grid side, in cells.
pub const MAX_SIDE: usize = 32768;

/// A grid of intensities, row by row: the cell `(x, y)` is `cells[y * width + x]`.
pub struct Grid {
    pub width: usize,
    pub height: usize,
    pub cells: Vec<u32>,
}

/// Which of the two fields a deposit goes to.
#[derive(Clone, Copy, Debug, PartialEq, Eq, Structural)]
pub enum Trail {
    /// Marks the way back to the nest; laid by agents that carry no food.
    Home,
    /// Marks the way to a food source; laid by agents that carry food home.
    Food,
}

/// A cell after one decay step of `rate`: reduced by `rate`, never below zero.
pub open spec fn decayed(c: int, rate: int) -> int {
    if c > rate {
        c - rate
    } else {
        0
    }
}

/// A cell after `k` decay steps of `rate` with no deposit in between.
pub open spec fn decayed_times(c: int, rate: int, k: nat) -> int
    decreases k,
{
    if k == 0 {
        c
    } else {
        decayed(decayed_times(c, rate, (k - 1) as nat), rate)
    }
}

/// Grid cell of a coordinate: its whole-unit part, `0` below zero, and the last
/// cell beyond the far edge.
pub open spec fn cell_of(v: int, side: int) -> int {
    if v < 0 {
        0
    } else if v / (SCALE as int) >= side {
        side - 1
    } else {
        v / (SCALE as int)
    }
}

impl Grid {
    pub open spec fn wf(&self) -> bool {
        &&& 0 < self.width <= MAX_SIDE
        &&& 0 < self.height <= MAX_SIDE
        &&& self.cells@.len() == self.width * self.height
        &&& forall|i: int| 0 <= i < self.cells@.len() ==> self.cells@[i] <= FULL
    }

    pub open spec fn at(&self, x: int, y: int) -> int {
        self.cells@[y * self.width + x] as int
    }

    /// A grid of the given size with every cell at zero.
    pub fn new(width: usize, height: usize) -> (g: Grid)
        requires
            0 < width <= MAX_SIDE,
            0 < height <= MAX_SIDE,
        ensures
            g.wf(),
            g.width == width,
            g.height == height,
            forall|i: int| 0 <= i < g.cells@.len() ==> g.cells@[i] == 0,
    {
        assert(width * height <= MAX_SIDE * MAX_SIDE) by (nonlinear_arith)
            requires
                0 < width <= MAX_SIDE,
                0 < height <= MAX_SIDE,
        ;
        let n = width * height;
        let mut cells: Vec<u32> = Vec::with_capacity(n);
        let mut i: usize = 0;
        while i < n
            invariant
                i <= n,
                cells@.len() == i,
                forall|j: int| 0 <= j < i ==> cells@[j] == 0,
            decreases n - i,
        {
            cells.push(0);
            i = i + 1;
        }
        Grid { width, height, cells }
    }

    /// Intensity of the cell `(x, y)`.
    pub fn get(&self, x: usize, y: usize) -> (r: u32)
        requires
            self.wf(),
            x < self.width,
            y < self.height,
        ensures
            r == self.at(x as int, y as int),
            r <= FULL,
    {
        proof {
            lemma_cell_index(x as int, y as int, self.width as int, self.height as int);
        }
        self.cells[y * self.width + x]
    }

    /// Every cell loses `rate`, and stops at zero.
    pub fn decay(&mut self, rate: u32)
        requires
            old(self).wf(),
        ensures
            final(self).wf(),
            final(self).width == old(self).width,
            final(self).height == old(self).height,
            final(self).cells@.len() == old(self).cells@.len(),
            forall|i: int|
                0 <= i < old(self).cells@.len() ==> final(self).cells@[i] as int == decayed(
                    old(self).cells@[i] as int,
                    rate as int,
                ),
    {
        let n = self.cells.len();
        let mut i: usize = 0;
        while i < n
            invariant
                self.wf(),
                self.width == old(self).width,
                self.height == old(self).height,
                n == self.cells@.len(),
                n == old(self).cells@.len(),
                i <= n,
                forall|j: int|
                    0 <= j < i ==> self.cells@[j] as int == decayed(
                        old(self).cells@[j] as int,
                        rate as int,
                    ),
                forall|j: int| i <= j < n ==> self.cells@[j] == old(self).cells@[j],
            decreases n - i,
        {
            let c = self.cells[i];
            let v = if c > rate {
                c - rate
            } else {
                0
            };
            self.cells.set(i, v);
            i = i + 1;
        }
    }

    /// Sets the cell `(x, y)` to `FULL`, whatever it held.
    pub fn mark(&mut self, x: usize, y: usize)
        requires
            old(self).wf(),
            x < old(self).width,
            y < old(self).height,
        ensures
            final(self).wf(),
            final(self).width == old(self).width,
            final(self).height == old(self).height,
            final(self).cells@ == old(self).cells@.update(
                y * old(self).width + x,
                FULL,
            ),
    {
        proof {
            lemma_cell_index(x as int, y as int, self.width as int, self.height as int);
        }
        let k = y * self.width + x;
        self.cells.set(k, FULL);
    }
}

pub proof fn lemma_cell_index(x: int, y: int, w: int, h: int)
    requires
        0 <= x < w,
        0 <= y < h,
        w <= MAX_SIDE,
        h <= MAX_SIDE,
    ensures
        0 <= y * w + x < w * h,
        y * w + x <= MAX_SIDE * MAX_SIDE,
{
    assert(0 <= y * w + x < w * h && w * h <= MAX_SIDE * MAX_SIDE) by (nonlinear_arith)
        requires
            0 <= x < w,
            0 <= y < h,
            w <= MAX_SIDE,
            h <= MAX_SIDE,
    ;
}

/// With no deposit, a cell loses `rate` per decay step and is never negative:
/// after `k` steps it holds `max(0, c - k * rate)`.
pub proof fn lemma_decay_closed_form(c: int, rate: int, k: nat)
    requires
        c >= 0,
        rate >= 0,
    ensures
        decayed_times(c, rate, k) == if c > k * rate {
            c - k * rate
        } else {
            0
        },
    decreases k,
{
    if k == 0 {
        assert(k * rate == 0);
    } else {
        lemma_decay_closed_form(c, rate, (k - 1) as nat);
        let j = (k - 1) as nat;
        assert(j * rate + rate == k * rate) by (nonlinear_arith)
            requires
                j + 1 == k,
        ;
        assert(j * rate >= 0) by (nonlinear_arith)
            requires
                rate >= 0,
        ;
        let prev = decayed_times(c, rate, j);
        assert(decayed_times(c, rate, k) == decayed(prev, rate));
        if c > j * rate {
            assert(prev == c - j * rate);
        } else {
            assert(prev == 0);
        }
    }
}

/// With a positive rate and no deposit, a cell reaches exactly zero after
/// `k` steps once `k * rate >= c`, and stays at zero for every later step.
pub proof fn lemma_decay_reaches_zero(c: int, rate: int, k: nat, later: nat)
    requires
        c >= 0,
        rate > 0,
        k * rate >= c,
        later >= k,
    ensures
        decayed_times(c, rate, k) == 0,
        decayed_times(c, rate, later) == 0,
{
    lemma_decay_closed_form(c, rate, k);
    lemma_decay_closed_form(c, rate, later);
    assert(later * rate >= k * rate) by (nonlinear_arith)
        requires
            later >= k,
            rate > 0,
    ;
}

/// Marking a cell twice leaves the grid as marking it once: the cell holds
/// `FULL` whatever it held before.
pub proof fn lemma_mark_idempotent(cells: Seq<u32>, k: int)
    requires
        0 <= k < cells.len(),
    ensures
        cells.update(k, FULL).update(k, FULL) == cells.update(k, FULL),
        cells.update(k, FULL)[k] == FULL,
{
    assert(cells.update(k, FULL).update(k, FULL) =~= cells.update(k, FULL));
}

/// The two fields that agents read and mark.
pub struct PheromoneField {
    pub home: Grid,
    pub food: Grid,
}

impl PheromoneField {
    pub open spec fn wf(&self) -> bool {
        &&& self.home.wf()
        &&& self.food.wf()
        &&& self.home.width == self.food.width
        &&& self.home.height == self.food.height
    }

    /// Two all-zero fields of `width` by `height` cells.
    pub fn new(width: usize, height: usize) -> (f: PheromoneField)
        requires
            0 < width <= MAX_SIDE,
            0 < height <= MAX_SIDE,
        ensures
            f.wf(),
            f.home.width == width,
            f.home.height == height,
            forall|i: int| 0 <= i < f.home.cells@.len() ==> f.home.cells@[i] == 0,
            forall|i: int| 0 <= i < f.food.cells@.len() ==> f.food.cells@[i] == 0,
    {
        PheromoneField { home: Grid::new(width, height), food: Grid::new(width, height) }
    }

    /// One decay step of `rate` on every cell of both fields.
    pub fn decay(&mut self, rate: u32)
        requires
            old(self).wf(),
        ensures
            final(self).wf(),
            final(self).home.width == old(self).home.width,
            final(self).home.height == old(self).home.height,
            forall|i: int|
                0 <= i < old(self).home.cells@.len() ==> final(self).home.cells@[i] as int
                    == decayed(old(self).home.cells@[i] as int, rate as int),
            forall|i: int|
                0 <= i < old(self).food.cells@.len() ==> final(self).food.cells@[i] as int
                    == decayed(old(self).food.cells@[i] as int, rate as int),
    {
        self.home.decay(rate);
        self.food.decay(rate);
    }

    /// Marks the cell under `position` on the chosen trail with `FULL`.
    /// The cell is the position's whole-unit part, held inside the grid.
    pub fn deposit(&mut self, position: Vec2, trail: Trail)
        requires
            old(self).wf(),
        ensures
            final(self).wf(),
            final(self).home.width == old(self).home.width,
            final(self).home.height == old(self).home.height,
            ({
                let w = old(self).home.width as int;
                let k = cell_of(position.y as int, old(self).home.height as int) * w + cell_of(
                    position.x as int,
                    w,
                );
                match trail {
                    Trail::Home => final(self).home.cells@ == old(self).home.cells@.update(k, FULL)
                        && final(self).food == old(self).food,
                    Trail::Food => final(self).food.cells@ == old(self).food.cells@.update(k, FULL)
                        && final(self).home == old(self).home,
                }
            }),
    {
        let x = grid_cell(position.x, self.home.width);
        let y = grid_cell(position.y, self.home.height);
        match trail {
            Trail::Home => self.home.mark(x, y),
            Trail::Food => self.food.mark(x, y),
        }
    }
}

/// The cell of a coordinate along a side of `side` cells (see `cell_of`).
pub fn grid_cell(v: i64, side: usize) -> (r: usize)
    requires
        0 < side <= MAX_SIDE,
    ensures
        r == cell_of(v as int, side as int),
        r < side,
{
    if v < 0 {
        0
    } else {
        let c = (v as u64) / (SCALE as u64);
        if c >= side as u64 {
            side - 1
        } else {
            c as usize
        }
    }
}

} // verus!
