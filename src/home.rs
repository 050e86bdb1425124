//! The nest: a disc of fixed centre and radius, and the ring just outside it
//! where agents are born.
use vstd::prelude::*;
use rand::rngs::StdRng;
use crate::fixed::{root, tdiv, 
    dist_sq, distance_sq, in_range, is_zero, mul_div, norm_sq, normalize, plus, scaled, unit_of,
    Vec2, LIMIT, SCALE,
};
use crate::random::{draw, seeded, unseeded};

verus! {

/// Distance outside the nest's edge at which agents spawn, in units.
pub const SPAWN_GAP: i64 = 5;

/// Draws of a random direction before falling back to a fixed one.
pub const DIRECTION_TRIES: u32 = 64;

/// Largest nest radius, in steps (a thousand units), for which spawn points
/// are proved to lie outside the nest.
pub const RING_RADIUS_LIMIT: i64 = 1000000;

/// Largest coordinate magnitude of the nest centre and of its radius.
pub const HOME_LIMIT: i64 = 268435456;

pub struct Home {
    pub position: Vec2,
    pub radius: i64,
    pub rng: StdRng,
}

/// A spawn heading: the direction of some vector of the ring between half
/// the unit and the unit, of length `SCALE` up to rounding.
pub open spec fn is_spawn_heading(h: Vec2) -> bool {
    &&& (SCALE - 3) * (SCALE - 3) <= norm_sq(h) <= (SCALE + 2) * (SCALE + 2)
    &&& exists|d: Vec2|
        (SCALE / 2) * (SCALE / 2) <= norm_sq(d) <= SCALE * SCALE && in_range(d, SCALE as int)
            && unit_of(d) == Some(h)
}

pub open spec fn abs(a: int) -> int {
    if a < 0 {
        -a
    } else {
        a
    }
}

/// Rounding `x * s / l` toward zero loses less than one.
proof fn lemma_tdiv_near(x: int, s: int, l: int)
    requires
        l > 0,
        s >= 0,
    ensures
        abs(tdiv(x * s, l)) * l <= abs(x) * s,
        abs(x) * s < (abs(tdiv(x * s, l)) + 1) * l,
{
    let p = abs(x) * s;
    assert(p >= 0 && (x >= 0 ==> x * s == p) && (x < 0 ==> x * s == -p)) by (nonlinear_arith)
        requires
            p == abs(x) * s,
            s >= 0,
            abs(x) == if x < 0 { -x } else { x },
    ;
    let q = p / l;
    assert(q >= 0 && q * l <= p && p < (q + 1) * l) by (nonlinear_arith)
        requires
            q == p / l,
            p >= 0,
            l > 0,
    ;
    assert(abs(tdiv(x * s, l)) == q);
}

proof fn lemma_square_le(p: int, q: int)
    requires
        0 <= p <= q,
    ensures
        p * p <= q * q,
{
    assert(p * p <= q * q) by (nonlinear_arith)
        requires
            0 <= p <= q,
    ;
}

/// A heading of length `SCALE` up to rounding, stretched to `r + SPAWN_GAP`
/// units, ends strictly outside the disc of radius `r` (for `r` up to
/// `RING_RADIUS_LIMIT`).
proof fn lemma_spawn_outside(h: Vec2, r: int)
    requires
        (SCALE - 3) * (SCALE - 3) <= norm_sq(h) <= (SCALE + 2) * (SCALE + 2),
        0 <= r <= RING_RADIUS_LIMIT,
    ensures
        ({
            let big = r + SPAWN_GAP * SCALE;
            let u = tdiv(h.x * big, SCALE as int);
            let v = tdiv(h.y * big, SCALE as int);
            u * u + v * v > r * r
        }),
{
    let sc = SCALE as int;
    let big = r + SPAWN_GAP * SCALE;
    let u = tdiv(h.x * big, sc);
    let v = tdiv(h.y * big, sc);
    lemma_tdiv_near(h.x as int, big, sc);
    lemma_tdiv_near(h.y as int, big, sc);
    let a = abs(u);
    let b = abs(v);
    let hx = abs(h.x as int);
    let hy = abs(h.y as int);
    assert(a * a == u * u && b * b == v * v && hx * hx == h.x * h.x && hy * hy == h.y * h.y)
        by (nonlinear_arith)
        requires
            a == abs(u),
            b == abs(v),
            hx == abs(h.x as int),
            hy == abs(h.y as int),
    ;
    assert(hx <= sc + 2 && hy <= sc + 2) by (nonlinear_arith)
        requires
            hx * hx + hy * hy <= (sc + 2) * (sc + 2),
            hx >= 0,
            hy >= 0,
            sc == 1000,
    ;
    assert(a * sc <= (sc + 2) * big && b * sc <= (sc + 2) * big) by (nonlinear_arith)
        requires
            a * sc <= hx * big,
            b * sc <= hy * big,
            hx <= sc + 2,
            hy <= sc + 2,
            big >= 0,
    ;
    lemma_square_le(hx * big, (a + 1) * sc);
    lemma_square_le(hy * big, (b + 1) * sc);
    assert((hx * big) * (hx * big) == (hx * hx) * (big * big)) by (nonlinear_arith);
    assert((hy * big) * (hy * big) == (hy * hy) * (big * big)) by (nonlinear_arith);
    assert(((a + 1) * sc) * ((a + 1) * sc) == ((a + 1) * (a + 1)) * (sc * sc)) by (nonlinear_arith);
    assert(((b + 1) * sc) * ((b + 1) * sc) == ((b + 1) * (b + 1)) * (sc * sc)) by (nonlinear_arith);
    assert(((a + 1) * (a + 1) + (b + 1) * (b + 1)) * (sc * sc) == ((a + 1) * (a + 1)) * (sc * sc)
        + ((b + 1) * (b + 1)) * (sc * sc)) by (nonlinear_arith);
    assert((hx * hx + hy * hy) * (big * big) == (hx * hx) * (big * big) + (hy * hy) * (big * big))
        by (nonlinear_arith);
    assert(hx * big >= 0 && hy * big >= 0) by (nonlinear_arith)
        requires
            hx >= 0,
            hy >= 0,
            big >= 0,
    ;
    assert((hx * hx + hy * hy) * (big * big) >= 994009 * (big * big)) by (nonlinear_arith)
        requires
            hx * hx + hy * hy >= 997 * 997,
    ;
    let x = a * a + b * b;
    assert(x * 1000000 + 2 * (a + b) * 1000000 + 2000000 >= 994009 * (big * big)) by (nonlinear_arith)
        requires
            ((a + 1) * (a + 1) + (b + 1) * (b + 1)) * 1000000 >= 994009 * (big * big),
            x == a * a + b * b,
    ;
    assert(2 * (a + b) * 1000000 <= 4008000 * big) by (nonlinear_arith)
        requires
            a * 1000 <= 1002 * big,
            b * 1000 <= 1002 * big,
    ;
    assert(big * (9995992000 - 5991 * big) > 25000002000000) by (nonlinear_arith)
        requires
            5000 <= big <= 1005000,
    {
        if big <= 500000 {
            assert(9995992000 - 5991 * big >= 7000000000);
            assert(big * (9995992000 - 5991 * big) >= 5000 * 7000000000) by (nonlinear_arith)
                requires
                    big >= 5000,
                    9995992000 - 5991 * big >= 7000000000,
            ;
        } else {
            assert(9995992000 - 5991 * big >= 3975037000);
            assert(big * (9995992000 - 5991 * big) >= 500000 * 3975037000) by (nonlinear_arith)
                requires
                    big >= 500000,
                    9995992000 - 5991 * big >= 3975037000,
            ;
        }
    }
    assert(x * 1000000 > (big - 5000) * (big - 5000) * 1000000) by (nonlinear_arith)
        requires
            x * 1000000 + 4008000 * big + 2000000 >= 994009 * (big * big),
            big * (9995992000 - 5991 * big) > 25000002000000,
    ;
    assert(x > r * r) by (nonlinear_arith)
        requires
            x * 1000000 > (big - 5000) * (big - 5000) * 1000000,
            big - 5000 == r,
    ;
}

/// A draw of the ring between half the unit and the unit normalizes to a
/// vector of length `SCALE` up to rounding.
proof fn lemma_unit_length(d: Vec2)
    requires
        (SCALE / 2) * (SCALE / 2) <= norm_sq(d) <= SCALE * SCALE,
        in_range(d, SCALE as int),
    ensures
        unit_of(d) is Some,
        (SCALE - 3) * (SCALE - 3) <= norm_sq(unit_of(d)->0) <= (SCALE + 2) * (SCALE + 2),
{
    let n = norm_sq(d);
    let sc = SCALE as int;
    crate::fixed::lemma_below_root(n, 500);
    let l = root(n);
    assert(n >= 0);
    crate::fixed::lemma_root_exists(n);
    if d.x == 0 && d.y == 0 {
        assert(n == 0);
    }
    assert(!is_zero(d));
    let h = unit_of(d)->0;
    crate::fixed::lemma_components_within_length(d);
    lemma_tdiv_near(d.x as int, sc, l);
    lemma_tdiv_near(d.y as int, sc, l);
    let a = abs(h.x as int);
    let b = abs(h.y as int);
    let ax = abs(d.x as int);
    let ay = abs(d.y as int);
    assert(h.x == tdiv(d.x * sc, l) && h.y == tdiv(d.y * sc, l));
    assert(a * a == h.x * h.x && b * b == h.y * h.y && ax * ax == d.x * d.x && ay * ay == d.y * d.y)
        by (nonlinear_arith)
        requires
            a == abs(h.x as int),
            b == abs(h.y as int),
            ax == abs(d.x as int),
            ay == abs(d.y as int),
    ;
    // upper bound
    assert((a * a + b * b) * (l * l) <= n * (sc * sc)) by (nonlinear_arith)
        requires
            0 <= a * l <= ax * sc,
            0 <= b * l <= ay * sc,
            a >= 0,
            b >= 0,
            l > 0,
            n == ax * ax + ay * ay,
    ;
    assert(n * (sc * sc) < ((sc + 2) * l) * ((sc + 2) * l)) by (nonlinear_arith)
        requires
            n < (l + 1) * (l + 1),
            500 <= l,
            sc == 1000,
    ;
    assert(a * a + b * b <= (sc + 2) * (sc + 2)) by (nonlinear_arith)
        requires
            (a * a + b * b) * (l * l) < ((sc + 2) * l) * ((sc + 2) * l),
            l > 0,
    ;
    // lower bound
    assert(((a + 1) * (a + 1) + (b + 1) * (b + 1)) * (l * l) >= n * (sc * sc)) by (nonlinear_arith)
        requires
            ax * sc < (a + 1) * l,
            ay * sc < (b + 1) * l,
            ax >= 0,
            ay >= 0,
            sc > 0,
            l > 0,
            n == ax * ax + ay * ay,
    ;
    assert(n * (sc * sc) >= (l * l) * (sc * sc)) by (nonlinear_arith)
        requires
            l * l <= n,
    ;
    assert((a + 1) * (a + 1) + (b + 1) * (b + 1) >= sc * sc) by (nonlinear_arith)
        requires
            ((a + 1) * (a + 1) + (b + 1) * (b + 1)) * (l * l) >= (l * l) * (sc * sc),
            l > 0,
    ;
    crate::fixed::lemma_tdiv_within(d.x as int, sc, l);
    crate::fixed::lemma_tdiv_within(d.y as int, sc, l);
    assert(a * a + b * b >= (sc - 3) * (sc - 3)) by (nonlinear_arith)
        requires
            (a + 1) * (a + 1) + (b + 1) * (b + 1) >= sc * sc,
            0 <= a <= sc,
            0 <= b <= sc,
            sc == 1000,
    ;
}


/// The spawn point for heading `h` around a nest at `centre` of radius `radius`:
/// `centre + h * (radius + SPAWN_GAP)`.
pub open spec fn spawn_point(centre: Vec2, radius: int, h: Vec2) -> Vec2 {
    plus(centre, scaled(h, radius + SPAWN_GAP * SCALE, SCALE as int))
}

impl Home {
    pub open spec fn wf(&self) -> bool {
        &&& in_range(self.position, HOME_LIMIT as int)
        &&& 0 <= self.radius <= HOME_LIMIT
    }

    /// A nest at `position` of radius `radius`, drawing from an unseeded generator.
    pub fn new(position: Vec2, radius: i64) -> (h: Home)
        requires
            in_range(position, HOME_LIMIT as int),
            0 <= radius <= HOME_LIMIT,
        ensures
            h.wf(),
            h.position == position,
            h.radius == radius,
    {
        Home { position, radius, rng: unseeded() }
    }

    /// A nest whose spawn draws are fixed by `seed`.
    pub fn with_seed(position: Vec2, radius: i64, seed: u64) -> (h: Home)
        requires
            in_range(position, HOME_LIMIT as int),
            0 <= radius <= HOME_LIMIT,
        ensures
            h.wf(),
            h.position == position,
            h.radius == radius,
    {
        Home { position, radius, rng: seeded(seed) }
    }

    /// Whether `position` lies in the nest: within `radius` of its centre.
    pub fn touching_home(&self, position: Vec2) -> (r: bool)
        requires
            self.wf(),
            in_range(position, LIMIT as int / 2),
        ensures
            r == (dist_sq(position, self.position) <= self.radius * self.radius),
    {
        assert(self.radius * self.radius <= HOME_LIMIT * HOME_LIMIT) by (nonlinear_arith)
            requires
                0 <= self.radius <= HOME_LIMIT,
        ;
        distance_sq(position, self.position) <= (self.radius * self.radius) as u64
    }

    /// A random spawn: a point on the ring `SPAWN_GAP` units outside the nest,
    /// and the heading from the centre to that point, so that the agent starts
    /// facing away from the nest.
    pub fn generate_starting_position(&mut self) -> (r: (Vec2, Vec2))
        requires
            old(self).wf(),
        ensures
            final(self).wf(),
            final(self).position == old(self).position,
            final(self).radius == old(self).radius,
            is_spawn_heading(r.1),
            in_range(r.1, SCALE as int),
            r.0 == spawn_point(old(self).position, old(self).radius as int, r.1),
            old(self).radius <= RING_RADIUS_LIMIT ==> dist_sq(r.0, old(self).position) > old(
                self,
            ).radius * old(self).radius,
    {
        let h = random_direction(&mut self.rng);
        let reach = self.radius + SPAWN_GAP * SCALE;
        let dx = mul_div(h.x, reach, SCALE);
        let dy = mul_div(h.y, reach, SCALE);
        proof {
            crate::fixed::lemma_tdiv_within(h.x as int, reach as int, SCALE as int);
            crate::fixed::lemma_tdiv_within(h.y as int, reach as int, SCALE as int);
        }
        proof {
            if self.radius <= RING_RADIUS_LIMIT {
                lemma_spawn_outside(h, self.radius as int);
            }
        }
        (Vec2 { x: self.position.x + dx, y: self.position.y + dy }, h)
    }
}

/// A random direction, uniform over angles: draws points of the square until
/// one falls in the unit disc (and is not the centre), then normalizes it.
fn random_direction(rng: &mut StdRng) -> (h: Vec2)
    ensures
        is_spawn_heading(h),
        in_range(h, SCALE as int),
{
    let mut tries: u32 = 0;
    while tries < DIRECTION_TRIES
        decreases DIRECTION_TRIES - tries,
    {
        let x = draw(rng, -SCALE, SCALE + 1);
        let y = draw(rng, -SCALE, SCALE + 1);
        let d = Vec2 { x, y };
        assert(x * x <= SCALE * SCALE && y * y <= SCALE * SCALE) by (nonlinear_arith)
            requires
                -SCALE <= x <= SCALE,
                -SCALE <= y <= SCALE,
        ;
        assert(0 <= x * x && 0 <= y * y) by (nonlinear_arith);
        if (SCALE / 2) * (SCALE / 2) <= x * x + y * y && x * x + y * y <= SCALE * SCALE {
            let u = normalize(d);
            proof {
                lemma_unit_length(d);
            }
            match u {
                Some(h) => {
                    return h;
                },
                None => {},
            }
        }
        tries = tries + 1;
    }
    let d = Vec2 { x: SCALE, y: 0 };
    let u = normalize(d);
    proof {
        crate::fixed::lemma_root_is(SCALE * SCALE, SCALE as int);
        assert(norm_sq(d) == SCALE * SCALE);
        assert(SCALE / 2 == 500);
        assert(500 * 500 <= SCALE * SCALE);
        lemma_unit_length(d);
    }
    match u {
        Some(h) => h,
        None => Vec2 { x: SCALE, y: 0 },
    }
}

} // verus!
