//! Sensing: three square sampling boxes ahead of an agent, one per candidate
//! heading, and the heading whose box holds the most pheromone.
use vstd::prelude::*;
use crate::fixed::{in_range, tdiv, Vec2, LIMIT, SCALE};
use crate::pheromone::{Grid, FULL, MAX_SIDE};

verus! {

/// Distance between an agent and the near side of a sampling box, in units.
pub const SEPARATION: i64 = 10;

/// Edge of a sampling box, in units.
pub const VISION_SIZE: i64 = 20;

/// cos(pi / 5) and sin(pi / 5), in steps of `1 / SCALE`.
pub const COS_FIFTH: i64 = 809;
pub const SIN_FIFTH: i64 = 588;

/// An axis-aligned box `[x0, x1) x [y0, y1)` in fixed-point coordinates.
#[derive(Clone, Copy, Debug, PartialEq, Eq, Structural)]
pub struct SampleBox {
    pub x0: i64,
    pub y0: i64,
    pub x1: i64,
    pub y1: i64,
}

/// First cell of a box edge: the whole-unit part, `0` below zero.
pub open spec fn first_cell(v: int) -> int {
    if v < 0 {
        0
    } else {
        v / (SCALE as int)
    }
}

pub open spec fn min_of(a: int, b: int) -> int {
    if a < b {
        a
    } else {
        b
    }
}

/// Sum of the cells `x0 .. x1` of row `y`.
pub open spec fn row_sum(g: Grid, y: int, x0: int, x1: int) -> int
    decreases x1 - x0,
{
    if x1 <= x0 {
        0
    } else {
        row_sum(g, y, x0, x1 - 1) + g.at(x1 - 1, y)
    }
}

/// Sum of the cells `x0 .. x1` of the rows `y0 .. y1`.
pub open spec fn area_sum(g: Grid, x0: int, x1: int, y0: int, y1: int) -> int
    decreases y1 - y0,
{
    if y1 <= y0 {
        0
    } else {
        area_sum(g, x0, x1, y0, y1 - 1) + row_sum(g, y1 - 1, x0, x1)
    }
}

/// Sum of the intensities of the grid cells that a box covers; cells outside
/// the grid count for nothing.
pub open spec fn box_score(g: Grid, b: SampleBox) -> int {
    area_sum(
        g,
        min_of(first_cell(b.x0 as int), g.width as int),
        min_of(first_cell(b.x1 as int), g.width as int),
        min_of(first_cell(b.y0 as int), g.height as int),
        min_of(first_cell(b.y1 as int), g.height as int),
    )
}

/// Among the first `n` scores, the index and value of the first greatest one,
/// starting from the value `-1` at index `0`.
pub open spec fn best_of(scores: Seq<int>, n: int) -> (int, int)
    decreases n,
{
    if n <= 0 {
        (0, -1)
    } else {
        let prev = best_of(scores, n - 1);
        if scores[n - 1] > prev.1 {
            (n - 1, scores[n - 1])
        } else {
            prev
        }
    }
}

pub open spec fn scores_of(g: Grid, boxes: Seq<SampleBox>) -> Seq<int> {
    Seq::new(boxes.len(), |i: int| box_score(g, boxes[i]))
}

/// `h` turned by a fifth of a half turn, counter-clockwise for `sign == 1`.
pub open spec fn turned(h: Vec2, sign: int) -> Vec2 {
    Vec2 {
        x: tdiv(h.x * COS_FIFTH - sign * h.y * SIN_FIFTH, SCALE as int) as i64,
        y: tdiv(sign * h.x * SIN_FIFTH + h.y * COS_FIFTH, SCALE as int) as i64,
    }
}

/// The three candidate headings: straight on, turned right, turned left.
pub open spec fn candidate_headings(h: Vec2) -> Seq<Vec2> {
    seq![h, turned(h, -1), turned(h, 1)]
}

/// The sampling box ahead of `p` along the heading `d` (of length `SCALE`).
pub open spec fn box_ahead(p: Vec2, d: Vec2) -> SampleBox {
    let x0 = p.x + (SEPARATION + VISION_SIZE) * d.x - (VISION_SIZE / 2) * SCALE;
    let y0 = p.y + (SEPARATION + VISION_SIZE) * d.y;
    SampleBox {
        x0: x0 as i64,
        y0: y0 as i64,
        x1: (x0 + VISION_SIZE * SCALE) as i64,
        y1: (y0 + VISION_SIZE * SCALE) as i64,
    }
}

/// The heading whose box scores highest (first one on ties), if that score is
/// above zero.
pub open spec fn sensed(g: Grid, p: Vec2, h: Vec2) -> Option<Vec2> {
    let hs = candidate_headings(h);
    let boxes = Seq::new(3, |i: int| box_ahead(p, hs[i]));
    let b = best_of(scores_of(g, boxes), 3);
    if b.1 > 0 {
        Some(hs[b.0])
    } else {
        None
    }
}

proof fn lemma_row_bound(g: Grid, y: int, x0: int, x1: int)
    requires
        g.wf(),
        0 <= y < g.height,
        0 <= x0,
        x1 <= g.width,
    ensures
        0 <= row_sum(g, y, x0, x1),
        x0 <= x1 ==> row_sum(g, y, x0, x1) <= (x1 - x0) * FULL,
    decreases x1 - x0,
{
    if x1 > x0 {
        lemma_row_bound(g, y, x0, x1 - 1);
        crate::pheromone::lemma_cell_index(x1 - 1, y, g.width as int, g.height as int);
    }
}

proof fn lemma_area_bound(g: Grid, x0: int, x1: int, y0: int, y1: int)
    requires
        g.wf(),
        0 <= x0 <= x1 <= g.width,
        0 <= y0,
        y1 <= g.height,
    ensures
        0 <= area_sum(g, x0, x1, y0, y1),
        y0 <= y1 ==> area_sum(g, x0, x1, y0, y1) <= (y1 - y0) * ((x1 - x0) * FULL),
    decreases y1 - y0,
{
    if y1 > y0 {
        lemma_area_bound(g, x0, x1, y0, y1 - 1);
        lemma_row_bound(g, y1 - 1, x0, x1);
        assert((y1 - 1 - y0) * ((x1 - x0) * FULL) + (x1 - x0) * FULL == (y1 - y0) * ((x1 - x0)
            * FULL)) by (nonlinear_arith);
    }
}

fn start_cell(v: i64, side: usize) -> (r: usize)
    requires
        side <= MAX_SIDE,
    ensures
        r == min_of(first_cell(v as int), side as int),
{
    if v < 0 {
        0
    } else {
        let c = (v as u64) / (SCALE as u64);
        if c < side as u64 {
            c as usize
        } else {
            side
        }
    }
}

/// Sum of the grid cells that `b` covers.
pub fn box_total(b: &SampleBox, g: &Grid) -> (r: u64)
    requires
        g.wf(),
    ensures
        r == box_score(*g, *b),
{
    let x0 = start_cell(b.x0, g.width);
    let x1 = start_cell(b.x1, g.width);
    let y0 = start_cell(b.y0, g.height);
    let y1 = start_cell(b.y1, g.height);
    let mut total: u64 = 0;
    let mut y = y0;
    if y1 < y0 {
        proof {
            assert(area_sum(*g, x0 as int, x1 as int, y0 as int, y1 as int) == 0);
        }
        return 0;
    }
    while y < y1
        invariant
            g.wf(),
            y0 <= y <= y1,
            y1 <= g.height,
            x1 <= g.width,
            total == area_sum(*g, x0 as int, x1 as int, y0 as int, y as int),
            total <= (y - y0) * (MAX_SIDE * FULL),
        decreases y1 - y,
    {
        let mut row: u64 = 0;
        let mut x = x0;
        if x1 < x0 {
            proof {
                lemma_area_nonneg_empty(*g, x0 as int, x1 as int, y0 as int, (y + 1) as int);
                lemma_area_nonneg_empty(*g, x0 as int, x1 as int, y0 as int, y as int);
            }
        }
        while x < x1
            invariant
                g.wf(),
                y0 <= y < y1,
                y1 <= g.height,
                x1 <= g.width,
                x0 <= x,
                x <= x1 || x == x0,
                row == row_sum(*g, y as int, x0 as int, x as int),
                row <= (x - x0) * FULL,
            decreases x1 - x,
        {
            let c = g.get(x, y);
            assert((x - x0) * FULL + FULL == (x + 1 - x0) * FULL) by (nonlinear_arith);
            row = row + c as u64;
            x = x + 1;
        }
        proof {
            if x1 < x0 {
                assert(row == 0);
            }
            assert(row <= MAX_SIDE * FULL) by (nonlinear_arith)
                requires
                    row <= (x - x0) * FULL,
                    x - x0 <= MAX_SIDE,
            ;
            assert((y - y0) * (MAX_SIDE * FULL) + MAX_SIDE * FULL == (y + 1 - y0) * (MAX_SIDE
                * FULL)) by (nonlinear_arith);
            assert((y + 1 - y0) * (MAX_SIDE * FULL) <= MAX_SIDE * (MAX_SIDE * FULL))
                by (nonlinear_arith)
                requires
                    y + 1 - y0 <= MAX_SIDE,
            ;
        }
        total = total + row;
        y = y + 1;
    }
    total
}

proof fn lemma_area_nonneg_empty(g: Grid, x0: int, x1: int, y0: int, y1: int)
    requires
        x1 < x0,
    ensures
        area_sum(g, x0, x1, y0, y1) == 0,
    decreases y1 - y0,
{
    if y1 > y0 {
        lemma_area_nonneg_empty(g, x0, x1, y0, y1 - 1);
    }
}

/// Scores every box on the grid and returns the index and score of the first
/// box with the greatest score; `(0, -1)` when there is no box.
pub fn index_calculator(boxes: &Vec<SampleBox>, grid: &Grid) -> (r: (usize, i64))
    requires
        grid.wf(),
    ensures
        r.0 as int == best_of(scores_of(*grid, boxes@), boxes@.len() as int).0,
        r.1 as int == best_of(scores_of(*grid, boxes@), boxes@.len() as int).1,
{
    let ghost scores = scores_of(*grid, boxes@);
    let mut best: i64 = -1;
    let mut best_index: usize = 0;
    let mut i: usize = 0;
    while i < boxes.len()
        invariant
            grid.wf(),
            scores == scores_of(*grid, boxes@),
            i <= boxes@.len(),
            best_index as int == best_of(scores, i as int).0,
            best as int == best_of(scores, i as int).1,
            -1 <= best <= MAX_SIDE * (MAX_SIDE * FULL),
        decreases boxes@.len() - i,
    {
        let score = box_total(&boxes[i], grid);
        proof {
            lemma_box_bound(*grid, boxes@[i as int]);
        }
        if score as i64 > best {
            best = score as i64;
            best_index = i;
        }
        i = i + 1;
    }
    (best_index, best)
}

proof fn lemma_box_bound(g: Grid, b: SampleBox)
    requires
        g.wf(),
    ensures
        0 <= box_score(g, b) <= MAX_SIDE * (MAX_SIDE * FULL),
{
    let x0 = min_of(first_cell(b.x0 as int), g.width as int);
    let x1 = min_of(first_cell(b.x1 as int), g.width as int);
    let y0 = min_of(first_cell(b.y0 as int), g.height as int);
    let y1 = min_of(first_cell(b.y1 as int), g.height as int);
    if x1 < x0 {
        lemma_area_nonneg_empty(g, x0, x1, y0, y1);
    } else {
        lemma_area_bound(g, x0, x1, y0, y1);
        if y0 <= y1 {
            assert((y1 - y0) * ((x1 - x0) * FULL) <= MAX_SIDE * (MAX_SIDE * FULL))
                by (nonlinear_arith)
                requires
                    0 <= y1 - y0 <= MAX_SIDE,
                    0 <= x1 - x0 <= MAX_SIDE,
            ;
        }
    }
}

/// `h` turned by a fifth of a half turn; `sign` is `1` (counter-clockwise) or `-1`.
pub fn turn(h: Vec2, sign: i64) -> (r: Vec2)
    requires
        in_range(h, 2 * SCALE),
        sign == 1 || sign == -1,
    ensures
        r == turned(h, sign as int),
        in_range(r, 3 * SCALE),
{
    assert(-2000 * 809 <= h.x * COS_FIFTH <= 2000 * 809 && -2000 * 809 <= h.y * COS_FIFTH <= 2000
        * 809 && -2000 * 588 <= (sign * h.y) * SIN_FIFTH <= 2000 * 588 && -2000 * 588 <= (sign
        * h.x) * SIN_FIFTH <= 2000 * 588 && -2000 <= sign * h.x <= 2000 && -2000 <= sign * h.y
        <= 2000) by (nonlinear_arith)
        requires
            in_range(h, 2000),
            sign == 1 || sign == -1,
            COS_FIFTH == 809,
            SIN_FIFTH == 588,
    ;
    let nx = h.x * COS_FIFTH - sign * h.y * SIN_FIFTH;
    let ny = sign * h.x * SIN_FIFTH + h.y * COS_FIFTH;
    proof {
        assert(-3 * SCALE * SCALE <= nx <= 3 * SCALE * SCALE && -3 * SCALE * SCALE <= ny <= 3 * SCALE
            * SCALE) by (nonlinear_arith)
            requires
                in_range(h, 2 * SCALE),
                sign == 1 || sign == -1,
                nx == h.x * COS_FIFTH - sign * h.y * SIN_FIFTH,
                ny == sign * h.x * SIN_FIFTH + h.y * COS_FIFTH,
        ;
        lemma_tdiv_small(nx as int);
        lemma_tdiv_small(ny as int);
    }
    let x = crate::fixed::mul_div(nx, 1, SCALE);
    let y = crate::fixed::mul_div(ny, 1, SCALE);
    Vec2 { x, y }
}

proof fn lemma_tdiv_small(n: int)
    requires
        -3 * SCALE * SCALE <= n <= 3 * SCALE * SCALE,
    ensures
        -3 * SCALE <= tdiv(n, SCALE as int) <= 3 * SCALE,
        tdiv(n * 1, SCALE as int) == tdiv(n, SCALE as int),
{
}

/// The sampling box ahead of `position` along `heading`.
pub fn sample_box(position: Vec2, heading: Vec2) -> (r: SampleBox)
    requires
        in_range(position, LIMIT as int),
        in_range(heading, 3 * SCALE),
    ensures
        r == box_ahead(position, heading),
{
    let ahead: i64 = SEPARATION + VISION_SIZE;
    assert(-90000 <= ahead * heading.x <= 90000 && -90000 <= ahead * heading.y <= 90000)
        by (nonlinear_arith)
        requires
            ahead == 30,
            in_range(heading, 3000),
    ;
    let x0 = position.x + ahead * heading.x - (VISION_SIZE / 2) * SCALE;
    let y0 = position.y + ahead * heading.y;
    SampleBox { x0, y0, x1: x0 + VISION_SIZE * SCALE, y1: y0 + VISION_SIZE * SCALE }
}

/// Senses both fields from `position` looking along `heading`: for each field,
/// the candidate heading whose box holds the most pheromone (the first on
/// ties), or none when no box holds any.
pub fn ant_rays(position: Vec2, heading: Vec2, home_grid: &Grid, food_grid: &Grid) -> (r: (
    Option<Vec2>,
    Option<Vec2>,
))
    requires
        in_range(position, LIMIT as int),
        in_range(heading, 2 * SCALE),
        home_grid.wf(),
        food_grid.wf(),
    ensures
        r.0 == sensed(*home_grid, position, heading),
        r.1 == sensed(*food_grid, position, heading),
        r.0 is Some ==> in_range(r.0->0, 3 * SCALE),
        r.1 is Some ==> in_range(r.1->0, 3 * SCALE),
        (forall|i: int|
            0 <= i < 3 ==> box_score(*home_grid, box_ahead(position, #[trigger] candidate_headings(heading)[i]))
                == 0) ==> r.0 is None,
        (forall|i: int|
            0 <= i < 3 ==> box_score(*food_grid, box_ahead(position, #[trigger] candidate_headings(heading)[i]))
                == 0) ==> r.1 is None,
{
    let right = turn(heading, -1);
    let left = turn(heading, 1);
    let headings = [heading, right, left];
    let mut boxes: Vec<SampleBox> = Vec::new();
    boxes.push(sample_box(position, heading));
    boxes.push(sample_box(position, right));
    boxes.push(sample_box(position, left));
    let ghost hs = candidate_headings(heading);
    assert(boxes@ =~= Seq::new(3, |i: int| box_ahead(position, hs[i])));
    let (home_index, home_score) = index_calculator(&boxes, home_grid);
    let (food_index, food_score) = index_calculator(&boxes, food_grid);
    proof {
        lemma_best_in_range(scores_of(*home_grid, boxes@), 3);
        lemma_best_in_range(scores_of(*food_grid, boxes@), 3);
    }
    let home_angle = if home_score > 0 {
        Some(headings[home_index])
    } else {
        None
    };
    let food_angle = if food_score > 0 {
        Some(headings[food_index])
    } else {
        None
    };
    proof {
        lemma_best_zero(*home_grid, boxes@);
        lemma_best_zero(*food_grid, boxes@);
    }
    (home_angle, food_angle)
}

proof fn lemma_best_in_range(scores: Seq<int>, n: int)
    requires
        0 <= n,
    ensures
        0 <= best_of(scores, n).0 < if n == 0 {
            1
        } else {
            n
        },
    decreases n,
{
    if n > 0 {
        lemma_best_in_range(scores, n - 1);
    }
}

proof fn lemma_best_zero(g: Grid, boxes: Seq<SampleBox>)
    requires
        boxes.len() == 3,
    ensures
        (forall|i: int| 0 <= i < 3 ==> box_score(g, #[trigger] boxes[i]) == 0) ==> best_of(
            scores_of(g, boxes),
            3,
        ).1 <= 0,
{
    let sc = scores_of(g, boxes);
    if forall|i: int| 0 <= i < 3 ==> box_score(g, #[trigger] boxes[i]) == 0 {
        assert(box_score(g, boxes[0]) == 0 && box_score(g, boxes[1]) == 0 && box_score(g, boxes[2]) == 0);
        assert(sc[0] == 0 && sc[1] == 0 && sc[2] == 0);
        assert(best_of(sc, 0).1 == -1);
        assert(best_of(sc, 1).1 == 0);
        assert(best_of(sc, 2).1 == 0);
        assert(best_of(sc, 3).1 == 0);
    }
}

} // verus!
