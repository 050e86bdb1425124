//! The agent population: one slot per agent, kept as parallel vectors, with
//! the three-state behaviour and the steering integrator.
use vstd::prelude::*;
use rand::rngs::StdRng;
use rayon::iter::{IntoParallelRefIterator, ParallelIterator};
use crate::fixed::{
    clamp_magnitude, clamped, dist_sq, distance_sq, in_range, lemma_tdiv_bound, minus,
    negated, normalize, plus, scale, scaled, unit_of, Vec2, LIMIT, SCALE,
};
use crate::random::{draw, seeded, unseeded};

verus! {

/// Number of agents of a population made by `Ant::new`.
pub const TOTAL_ANTS: usize = 1000;

/// Largest window side, in units.
pub const MAX_WINDOW: i64 = 32768;

/// Coordinates of agents saturate at this magnitude (a million units, far
/// outside any window).
pub const POS_LIMIT: i64 = 1073741824;

/// Largest tick length accepted by the integrator, in milliseconds.
pub const MAX_DT: u64 = 100000;

/// Largest top speed, in steps per second.
pub const MAX_SPEED_LIMIT: i64 = 100000;

/// Largest steering strength.
pub const MAX_STEER: i64 = 10000;

/// A target closer than this many units counts as reached.
pub const CAPTURE_RADIUS: i64 = 5;

/// Within this many units of the nest centre a returning agent heads straight for it.
pub const NEAR_HOME: i64 = 100;

/// Milliseconds per second.
pub const MILLIS: i64 = 1000;

#[derive(Clone, Copy, Debug, PartialEq, Eq, Structural)]
pub enum AntState {
    /// Searching for food.
    Foraging,
    /// Heading for a food item that it has claimed.
    ToFood,
    /// Carrying food back to the nest.
    Returning,
}

/// What the integrator reads and writes of one agent.
#[derive(Clone, Copy, Debug, PartialEq, Eq, Structural)]
pub struct Motion {
    pub position: Vec2,
    pub velocity: Vec2,
    pub desired_direction: Vec2,
    /// Direction of travel, of length `SCALE`, taken from the velocity. As an
    /// angle this is `atan(vy / vx)`, less a half turn when `vx < 0`, up to a
    /// whole turn; it is kept as a vector so that no angle is ever computed.
    pub heading: Vec2,
}

/// What steers one agent: its state and the cues it holds.
#[derive(Clone, Copy, Debug, PartialEq, Eq, Structural)]
pub struct Cues {
    pub state: AntState,
    pub home_direction: Option<Vec2>,
    pub food_direction: Option<Vec2>,
    pub target: Option<Vec2>,
}

/// Population-wide constants of the integrator.
#[derive(Clone, Copy, Debug, PartialEq, Eq, Structural)]
pub struct Tuning {
    /// Top speed, in steps per second.
    pub max_speed: i64,
    /// Steering gain (per second) and the largest steering acceleration (in
    /// units per second squared).
    pub steer_strength: i64,
    /// Weight of a random nudge, in steps of `1 / SCALE`.
    pub wander_strength: i64,
    /// Window extent, in steps.
    pub width: i64,
    pub height: i64,
    /// Centre of the nest, which returning agents head for when near it.
    pub nest: Vec2,
}

/// The agents, slot `i` of every vector belonging to agent `i`.
pub struct Ant {
    pub tuning: Tuning,
    pub heading: Vec<Vec2>,
    pub position: Vec<Vec2>,
    pub velocity: Vec<Vec2>,
    pub desired_direction: Vec<Vec2>,
    pub home_pheromones_direction: Vec<Option<Vec2>>,
    pub food_pheromones_direction: Vec<Option<Vec2>>,
    pub state: Vec<AntState>,
    pub target_food_position: Vec<Option<Vec2>>,
    pub target_food_index: Vec<Option<u32>>,
    pub rng: StdRng,
}

pub open spec fn tuning_ok(t: Tuning) -> bool {
    &&& 0 < t.max_speed <= MAX_SPEED_LIMIT
    &&& 0 < t.steer_strength <= MAX_STEER
    &&& 0 <= t.wander_strength <= SCALE
    &&& 0 < t.width <= MAX_WINDOW * SCALE
    &&& 0 < t.height <= MAX_WINDOW * SCALE
    &&& in_range(t.nest, MAX_WINDOW * SCALE)
}

pub open spec fn dir_ok(d: Option<Vec2>) -> bool {
    d is Some ==> in_range(d->0, SCALE as int)
}

pub open spec fn motion_ok(m: Motion, t: Tuning) -> bool {
    &&& in_range(m.position, POS_LIMIT as int)
    &&& in_range(m.velocity, t.max_speed as int)
    &&& in_range(m.desired_direction, SCALE as int)
    &&& in_range(m.heading, SCALE as int)
}

pub open spec fn cues_ok(c: Cues) -> bool {
    &&& dir_ok(c.home_direction)
    &&& dir_ok(c.food_direction)
    &&& (c.target is Some ==> in_range(c.target->0, LIMIT as int / 2))
}

/// The persistent random walk: the previous direction nudged by `random`
/// scaled by the wander strength, renormalized; kept as it was if the nudge
/// cancels it exactly.
pub open spec fn wandered(prev: Vec2, random: Vec2, wander: int) -> Vec2 {
    match unit_of(plus(prev, scaled(random, wander, SCALE as int))) {
        Some(u) => u,
        None => prev,
    }
}

/// The direction from `from` to `to`, or `prev` where the two coincide.
pub open spec fn toward(from: Vec2, to: Vec2, prev: Vec2) -> Vec2 {
    match unit_of(minus(to, from)) {
        Some(u) => u,
        None => prev,
    }
}

/// The direction an agent wants to go, from its state and cues.
pub open spec fn desired_after(m: Motion, c: Cues, t: Tuning, random: Vec2) -> Vec2 {
    let wander = wandered(m.desired_direction, random, t.wander_strength as int);
    match c.state {
        AntState::Foraging => match c.food_direction {
            Some(d) => d,
            None => wander,
        },
        AntState::ToFood => match c.target {
            Some(p) => toward(m.position, p, m.desired_direction),
            None => wander,
        },
        AntState::Returning => if dist_sq(t.nest, m.position) < (NEAR_HOME * SCALE) * (NEAR_HOME
            * SCALE) {
            toward(m.position, t.nest, m.desired_direction)
        } else {
            match c.home_direction {
                Some(d) => d,
                None => wander,
            }
        },
    }
}

/// The velocity after one tick of `dt` milliseconds of steering toward `desired`.
pub open spec fn velocity_after(v: Vec2, desired: Vec2, t: Tuning, dt: int) -> Vec2 {
    let wanted = scaled(desired, t.max_speed as int, SCALE as int);
    let force = clamped(
        scaled(minus(wanted, v), t.steer_strength as int, 1),
        t.steer_strength * SCALE,
    );
    clamped(plus(v, scaled(force, dt, MILLIS as int)), t.max_speed as int)
}

/// `after` is one tick of `dt` from `before` for some random nudge.
pub open spec fn moved_somehow(before: Motion, after: Motion, c: Cues, t: Tuning, dt: int) -> bool {
    exists|random: Vec2| in_range(random, SCALE as int) && after == moved(before, c, t, random, dt)
}

/// A coordinate held within `POS_LIMIT`.
pub open spec fn held(c: int) -> int {
    if c > POS_LIMIT {
        POS_LIMIT as int
    } else if c < -POS_LIMIT {
        -POS_LIMIT
    } else {
        c
    }
}

pub open spec fn outside(p: Vec2, t: Tuning) -> bool {
    p.x > t.width || p.x < 0 || p.y > t.height || p.y < 0
}

/// One tick of the integrator for one agent: choose a direction, steer the
/// velocity toward it, move, turn back at the window's edge (velocity and
/// direction negated, the position kept), and face the direction of travel.
pub open spec fn moved(m: Motion, c: Cues, t: Tuning, random: Vec2, dt: int) -> Motion {
    let desired = desired_after(m, c, t, random);
    let v = velocity_after(m.velocity, desired, t, dt);
    let step = scaled(v, dt, MILLIS as int);
    let p = Vec2 { x: held(m.position.x + step.x) as i64, y: held(m.position.y + step.y) as i64 };
    let bounce = outside(p, t);
    let v2 = if bounce {
        negated(v)
    } else {
        v
    };
    let d2 = if bounce {
        negated(desired)
    } else {
        desired
    };
    Motion {
        position: p,
        velocity: v2,
        desired_direction: d2,
        heading: match unit_of(v2) {
            Some(u) => u,
            None => m.heading,
        },
    }
}

/// Relies on rayon's `par_iter` with `map` and `collect`: `steer` is applied
/// to every input, on worker threads, and the results are collected in input
/// order.
#[verifier::external_body]
fn steer_all(inputs: &Vec<(Motion, Cues, Vec2)>, t: Tuning, dt: u64) -> (r: Vec<Motion>)
    requires
        tuning_ok(t),
        dt <= MAX_DT,
        forall|j: int|
            0 <= j < inputs@.len() ==> motion_ok((#[trigger] inputs@[j]).0, t) && cues_ok(
                inputs@[j].1,
            ) && in_range(inputs@[j].2, SCALE as int),
    ensures
        r@.len() == inputs@.len(),
        forall|j: int|
            0 <= j < inputs@.len() ==> #[trigger] r@[j] == moved(
                inputs@[j].0,
                inputs@[j].1,
                t,
                inputs@[j].2,
                dt as int,
            ) && motion_ok(r@[j], t),
{
    inputs.par_iter().map(|(m, c, random)| steer(*m, *c, t, *random, dt)).collect()
}

fn hold(c: i64) -> (r: i64)
    ensures
        r == held(c as int),
{
    if c > POS_LIMIT {
        POS_LIMIT
    } else if c < -POS_LIMIT {
        -POS_LIMIT
    } else {
        c
    }
}

fn wander_from(prev: Vec2, random: Vec2, wander: i64) -> (r: Vec2)
    requires
        in_range(prev, SCALE as int),
        in_range(random, SCALE as int),
        0 <= wander <= SCALE,
    ensures
        r == wandered(prev, random, wander as int),
        in_range(r, SCALE as int),
{
    let nudge = scale(random, wander, SCALE);
    proof {
        lemma_tdiv_bound(random.x as int, SCALE as int, wander as int, SCALE as int);
        lemma_tdiv_bound(random.y as int, SCALE as int, wander as int, SCALE as int);
        assert((SCALE as int * wander as int) / SCALE as int == wander as int) by (nonlinear_arith);
    }
    let v = Vec2 { x: prev.x + nudge.x, y: prev.y + nudge.y };
    match normalize(v) {
        Some(u) => u,
        None => prev,
    }
}

fn direction_to(from: Vec2, to: Vec2, prev: Vec2) -> (r: Vec2)
    requires
        in_range(from, LIMIT as int / 2),
        in_range(to, LIMIT as int / 2),
        in_range(prev, SCALE as int),
    ensures
        r == toward(from, to, prev),
        in_range(r, SCALE as int),
{
    match normalize(Vec2 { x: to.x - from.x, y: to.y - from.y }) {
        Some(u) => u,
        None => prev,
    }
}

/// The direction an agent wants to go (see `desired_after`).
pub fn choose_direction(m: Motion, c: Cues, t: Tuning, random: Vec2) -> (r: Vec2)
    requires
        tuning_ok(t),
        motion_ok(m, t),
        cues_ok(c),
        in_range(random, SCALE as int),
    ensures
        r == desired_after(m, c, t, random),
        in_range(r, SCALE as int),
{
    match c.state {
        AntState::Foraging => match c.food_direction {
            Some(d) => d,
            None => wander_from(m.desired_direction, random, t.wander_strength),
        },
        AntState::ToFood => match c.target {
            Some(p) => direction_to(m.position, p, m.desired_direction),
            None => wander_from(m.desired_direction, random, t.wander_strength),
        },
        AntState::Returning => {
            let near = NEAR_HOME * SCALE;
            if distance_sq(t.nest, m.position) < (near * near) as u64 {
                direction_to(m.position, t.nest, m.desired_direction)
            } else {
                match c.home_direction {
                    Some(d) => d,
                    None => wander_from(m.desired_direction, random, t.wander_strength),
                }
            }
        },
    }
}

/// One tick of the integrator for one agent (see `moved`); `random` is the
/// agent's random nudge for this tick, each coordinate in `[-SCALE, SCALE]`.
pub fn steer(m: Motion, c: Cues, t: Tuning, random: Vec2, dt: u64) -> (r: Motion)
    requires
        tuning_ok(t),
        motion_ok(m, t),
        cues_ok(c),
        in_range(random, SCALE as int),
        dt <= MAX_DT,
    ensures
        r == moved(m, c, t, random, dt as int),
        motion_ok(r, t),
{
    let desired = choose_direction(m, c, t, random);
    let wanted = scale(desired, t.max_speed, SCALE);
    proof {
        lemma_tdiv_bound(desired.x as int, SCALE as int, t.max_speed as int, SCALE as int);
        lemma_tdiv_bound(desired.y as int, SCALE as int, t.max_speed as int, SCALE as int);
        assert((SCALE as int * t.max_speed as int) / SCALE as int == t.max_speed as int)
            by (nonlinear_arith);
    }
    let diff = Vec2 { x: wanted.x - m.velocity.x, y: wanted.y - m.velocity.y };
    let pushed = scale(diff, t.steer_strength, 1);
    proof {
        lemma_tdiv_bound(diff.x as int, 2 * MAX_SPEED_LIMIT, t.steer_strength as int, 1);
        lemma_tdiv_bound(diff.y as int, 2 * MAX_SPEED_LIMIT, t.steer_strength as int, 1);
        assert((2 * MAX_SPEED_LIMIT * t.steer_strength) / 1 <= 2 * MAX_SPEED_LIMIT * MAX_STEER)
            by (nonlinear_arith)
            requires
                0 < t.steer_strength <= MAX_STEER,
        ;
    }
    let force = clamp_magnitude(pushed, t.steer_strength * SCALE);
    let kick = scale(force, dt as i64, MILLIS);
    proof {
        lemma_tdiv_bound(force.x as int, t.steer_strength * SCALE, dt as int, MILLIS as int);
        lemma_tdiv_bound(force.y as int, t.steer_strength * SCALE, dt as int, MILLIS as int);
        assert((t.steer_strength * SCALE * dt) / MILLIS as int <= MAX_STEER * SCALE * MAX_DT
            / MILLIS as int) by (nonlinear_arith)
            requires
                0 < t.steer_strength <= MAX_STEER,
                0 <= dt <= MAX_DT,
        ;
    }
    let v = clamp_magnitude(
        Vec2 { x: m.velocity.x + kick.x, y: m.velocity.y + kick.y },
        t.max_speed,
    );
    let step = scale(v, dt as i64, MILLIS);
    proof {
        lemma_tdiv_bound(v.x as int, t.max_speed as int, dt as int, MILLIS as int);
        lemma_tdiv_bound(v.y as int, t.max_speed as int, dt as int, MILLIS as int);
        assert((t.max_speed * dt) / MILLIS as int <= MAX_SPEED_LIMIT * MAX_DT / MILLIS as int)
            by (nonlinear_arith)
            requires
                0 < t.max_speed <= MAX_SPEED_LIMIT,
                0 <= dt <= MAX_DT,
        ;
    }
    let p = Vec2 { x: hold(m.position.x + step.x), y: hold(m.position.y + step.y) };
    let bounce = p.x > t.width || p.x < 0 || p.y > t.height || p.y < 0;
    let v2 = if bounce {
        Vec2 { x: -v.x, y: -v.y }
    } else {
        v
    };
    let d2 = if bounce {
        Vec2 { x: -desired.x, y: -desired.y }
    } else {
        desired
    };
    let heading = match normalize(v2) {
        Some(u) => u,
        None => m.heading,
    };
    Motion { position: p, velocity: v2, desired_direction: d2, heading }
}

impl Ant {
    /// `count` agents for a `w` by `h` window, all foraging at the nest
    /// centre, moving east at one unit per second, with no cue and no target.
    pub open spec fn fresh(&self, count: int, w: int, h: int) -> bool {
        &&& self.len() == count
        &&& self.tuning == standard_tuning(w, h)
        &&& forall|i: int|
            0 <= i < count ==> #[trigger] self.motion_at(i) == (Motion {
                position: self.tuning.nest,
                velocity: Vec2 { x: SCALE, y: 0 },
                desired_direction: Vec2 { x: SCALE, y: 0 },
                heading: Vec2 { x: SCALE, y: 0 },
            }) && self.cues_at(i) == (Cues {
                state: AntState::Foraging,
                home_direction: None,
                food_direction: None,
                target: None,
            }) && self.target_food_index@[i] is None
    }

    pub open spec fn len(&self) -> int {
        self.state@.len() as int
    }

    pub open spec fn motion_at(&self, i: int) -> Motion {
        Motion {
            position: self.position@[i],
            velocity: self.velocity@[i],
            desired_direction: self.desired_direction@[i],
            heading: self.heading@[i],
        }
    }

    pub open spec fn cues_at(&self, i: int) -> Cues {
        Cues {
            state: self.state@[i],
            home_direction: self.home_pheromones_direction@[i],
            food_direction: self.food_pheromones_direction@[i],
            target: self.target_food_position@[i],
        }
    }

    /// Agent `i`'s values are within range, and it holds a target (index and
    /// position together) exactly when it is heading for food.
    pub open spec fn slot_ok(&self, i: int) -> bool {
        &&& motion_ok(self.motion_at(i), self.tuning)
        &&& cues_ok(self.cues_at(i))
        &&& (self.target_food_index@[i] is Some) == (self.state@[i] == AntState::ToFood)
        &&& (self.target_food_position@[i] is Some) == (self.target_food_index@[i] is Some)
    }

    pub open spec fn wf(&self) -> bool {
        &&& tuning_ok(self.tuning)
        &&& self.heading@.len() == self.len()
        &&& self.position@.len() == self.len()
        &&& self.velocity@.len() == self.len()
        &&& self.desired_direction@.len() == self.len()
        &&& self.home_pheromones_direction@.len() == self.len()
        &&& self.food_pheromones_direction@.len() == self.len()
        &&& self.target_food_position@.len() == self.len()
        &&& self.target_food_index@.len() == self.len()
        &&& forall|i: int| 0 <= i < self.len() ==> #[trigger] self.slot_ok(i)
    }

    /// `TOTAL_ANTS` agents at the centre of a `screen_w` by `screen_h` window
    /// (in units), drawing from an unseeded generator.
    pub fn new(screen_w: i64, screen_h: i64) -> (a: Ant)
        requires
            0 < screen_w <= MAX_WINDOW,
            0 < screen_h <= MAX_WINDOW,
        ensures
            a.wf(),
            a.fresh(TOTAL_ANTS as int, screen_w as int, screen_h as int),
    {
        Ant::build(screen_w, screen_h, TOTAL_ANTS, unseeded())
    }

    /// `count` agents whose random walk is fixed by `seed`.
    pub fn with_seed(screen_w: i64, screen_h: i64, count: usize, seed: u64) -> (a: Ant)
        requires
            0 < screen_w <= MAX_WINDOW,
            0 < screen_h <= MAX_WINDOW,
        ensures
            a.wf(),
            a.len() == count,
            a.tuning == standard_tuning(screen_w as int, screen_h as int),
            a.fresh(count as int, screen_w as int, screen_h as int),
    {
        Ant::build(screen_w, screen_h, count, seeded(seed))
    }

    fn build(screen_w: i64, screen_h: i64, count: usize, rng: StdRng) -> (a: Ant)
        requires
            0 < screen_w <= MAX_WINDOW,
            0 < screen_h <= MAX_WINDOW,
        ensures
            a.wf(),
            a.len() == count,
            a.tuning == standard_tuning(screen_w as int, screen_h as int),
            a.fresh(count as int, screen_w as int, screen_h as int),
    {
        let width = screen_w * SCALE;
        let height = screen_h * SCALE;
        let tuning = Tuning {
            max_speed: 50 * SCALE,
            steer_strength: 100,
            wander_strength: SCALE / 10,
            width,
            height,
            nest: Vec2 { x: width / 2, y: height / 2 },
        };
        let east = Vec2 { x: SCALE, y: 0 };
        let mut a = Ant {
            tuning,
            heading: Vec::new(),
            position: Vec::new(),
            velocity: Vec::new(),
            desired_direction: Vec::new(),
            home_pheromones_direction: Vec::new(),
            food_pheromones_direction: Vec::new(),
            state: Vec::new(),
            target_food_position: Vec::new(),
            target_food_index: Vec::new(),
            rng,
        };
        let mut i: usize = 0;
        while i < count
            invariant
                i <= count,
                a.len() == i,
                a.wf(),
                a.tuning == tuning,
                tuning == standard_tuning(screen_w as int, screen_h as int),
                east == (Vec2 { x: SCALE, y: 0 }),
                forall|j: int|
                    0 <= j < i ==> #[trigger] a.motion_at(j) == (Motion {
                        position: tuning.nest,
                        velocity: east,
                        desired_direction: east,
                        heading: east,
                    }) && a.cues_at(j) == (Cues {
                        state: AntState::Foraging,
                        home_direction: None,
                        food_direction: None,
                        target: None,
                    }) && a.target_food_index@[j] is None,
            decreases count - i,
        {
            let ghost prev = a;
            a.heading.push(east);
            a.position.push(tuning.nest);
            a.velocity.push(east);
            a.desired_direction.push(east);
            a.home_pheromones_direction.push(None);
            a.food_pheromones_direction.push(None);
            a.state.push(AntState::Foraging);
            a.target_food_position.push(None);
            a.target_food_index.push(None);
            assert(a.slot_ok(i as int));
            assert forall|j: int| 0 <= j < a.len() implies #[trigger] a.slot_ok(j) by {
                if j < i {
                    assert(prev.slot_ok(j));
                }
            }
            assert forall|j: int| 0 <= j < i + 1 implies #[trigger] a.motion_at(j) == (Motion {
                position: tuning.nest,
                velocity: east,
                desired_direction: east,
                heading: east,
            }) && a.cues_at(j) == (Cues {
                state: AntState::Foraging,
                home_direction: None,
                food_direction: None,
                target: None,
            }) && a.target_food_index@[j] is None by {
                if j < i {
                    assert(prev.motion_at(j) == a.motion_at(j));
                }
            }
            i = i + 1;
        }
        a
    }
}

/// The tuning of a population made for a `w` by `h` window.
pub open spec fn standard_tuning(w: int, h: int) -> Tuning {
    Tuning {
        max_speed: (50 * SCALE) as i64,
        steer_strength: 100,
        wander_strength: (SCALE / 10) as i64,
        width: (w * SCALE) as i64,
        height: (h * SCALE) as i64,
        nest: Vec2 { x: (w * SCALE / 2) as i64, y: (h * SCALE / 2) as i64 },
    }
}

impl Ant {
    /// Agent `i` heads for food, holds a target position, and is less than
    /// `CAPTURE_RADIUS` units from it.
    pub open spec fn has_reached_food(&self, i: int) -> bool {
        match self.target_food_position@[i] {
            None => false,
            Some(p) => self.state@[i] == AntState::ToFood && dist_sq(p, self.position@[i]) < (
            CAPTURE_RADIUS * SCALE) * (CAPTURE_RADIUS * SCALE),
        }
    }

    /// `self` and `other` agree on the tuning and on every agent but `i`.
    pub open spec fn same_except(&self, other: &Ant, i: int) -> bool {
        &&& self.tuning == other.tuning
        &&& self.len() == other.len()
        &&& forall|j: int|
            0 <= j < self.len() && j != i ==> #[trigger] self.motion_at(j) == other.motion_at(j)
                && self.cues_at(j) == other.cues_at(j) && self.target_food_index@[j]
                == other.target_food_index@[j]
    }

    /// The values the integrator reads and writes of agent `i`.
    pub fn motion(&self, i: usize) -> (m: Motion)
        requires
            self.wf(),
            i < self.len(),
        ensures
            m == self.motion_at(i as int),
    {
        Motion {
            position: self.position[i],
            velocity: self.velocity[i],
            desired_direction: self.desired_direction[i],
            heading: self.heading[i],
        }
    }

    /// The state and cues that steer agent `i`.
    pub fn cues(&self, i: usize) -> (c: Cues)
        requires
            self.wf(),
            i < self.len(),
        ensures
            c == self.cues_at(i as int),
    {
        Cues {
            state: self.state[i],
            home_direction: self.home_pheromones_direction[i],
            food_direction: self.food_pheromones_direction[i],
            target: self.target_food_position[i],
        }
    }

    fn put_motion(&mut self, i: usize, m: Motion)
        requires
            old(self).wf(),
            i < old(self).len(),
            motion_ok(m, old(self).tuning),
        ensures
            final(self).wf(),
            final(self).same_except(old(self), i as int),
            final(self).motion_at(i as int) == m,
            final(self).cues_at(i as int) == old(self).cues_at(i as int),
            final(self).target_food_index@ == old(self).target_food_index@,
            final(self).state@ == old(self).state@,
    {
        let ghost prev = *self;
        self.position.set(i, m.position);
        self.velocity.set(i, m.velocity);
        self.desired_direction.set(i, m.desired_direction);
        self.heading.set(i, m.heading);
        assert forall|j: int| 0 <= j < self.len() implies #[trigger] self.slot_ok(j) by {
            assert(prev.slot_ok(j));
        }
        assert forall|j: int| 0 <= j < self.len() && j != i implies #[trigger] self.motion_at(j)
            == prev.motion_at(j) && self.cues_at(j) == prev.cues_at(j)
            && self.target_food_index@[j] == prev.target_food_index@[j] by {}
    }

    /// Places agent `i` at `init_data[i].0` facing `init_data[i].1`, moving
    /// that way at top speed, for every agent.
    pub fn initialize(&mut self, init_data: &[(Vec2, Vec2)])
        requires
            old(self).wf(),
            init_data@.len() >= old(self).len(),
            forall|i: int|
                0 <= i < init_data@.len() ==> in_range(#[trigger] init_data@[i].0, POS_LIMIT as int)
                    && in_range(init_data@[i].1, SCALE as int),
        ensures
            final(self).wf(),
            final(self).len() == old(self).len(),
            final(self).tuning == old(self).tuning,
            final(self).target_food_index@ == old(self).target_food_index@,
            forall|i: int|
                0 <= i < old(self).len() ==> #[trigger] final(self).motion_at(i) == (Motion {
                    position: init_data@[i].0,
                    velocity: scaled(init_data@[i].1, old(self).tuning.max_speed as int, SCALE as int),
                    desired_direction: init_data@[i].1,
                    heading: init_data@[i].1,
                }) && final(self).cues_at(i) == old(self).cues_at(i),
    {
        let n = self.state.len();
        let mut i: usize = 0;
        while i < n
            invariant
                self.wf(),
                n == self.len(),
                n == old(self).len(),
                self.tuning == old(self).tuning,
                self.target_food_index@ == old(self).target_food_index@,
                init_data@.len() >= n,
                i <= n,
                forall|k: int|
                    0 <= k < init_data@.len() ==> in_range(#[trigger] init_data@[k].0, POS_LIMIT as int)
                        && in_range(init_data@[k].1, SCALE as int),
                forall|j: int|
                    0 <= j < i ==> #[trigger] self.motion_at(j) == (Motion {
                        position: init_data@[j].0,
                        velocity: scaled(init_data@[j].1, old(self).tuning.max_speed as int, SCALE as int),
                        desired_direction: init_data@[j].1,
                        heading: init_data@[j].1,
                    }),
                forall|j: int| 0 <= j < n ==> #[trigger] self.cues_at(j) == old(self).cues_at(j),
            decreases n - i,
        {
            let (p, d) = init_data[i];
            let v = scale(d, self.tuning.max_speed, SCALE);
            proof {
                lemma_tdiv_bound(d.x as int, SCALE as int, self.tuning.max_speed as int, SCALE as int);
                lemma_tdiv_bound(d.y as int, SCALE as int, self.tuning.max_speed as int, SCALE as int);
                assert((SCALE as int * self.tuning.max_speed as int) / SCALE as int
                    == self.tuning.max_speed as int) by (nonlinear_arith);
            }
            let ghost before = *self;
            self.put_motion(i, Motion { position: p, velocity: v, desired_direction: d, heading: d });
            assert forall|j: int| 0 <= j < i + 1 implies #[trigger] self.motion_at(j) == (Motion {
                position: init_data@[j].0,
                velocity: scaled(init_data@[j].1, old(self).tuning.max_speed as int, SCALE as int),
                desired_direction: init_data@[j].1,
                heading: init_data@[j].1,
            }) by {
                if j < i {
                    assert(before.motion_at(j) == self.motion_at(j));
                }
            }
            assert forall|j: int| 0 <= j < n implies #[trigger] self.cues_at(j) == old(self).cues_at(j) by {
                if j != i {
                    assert(before.motion_at(j) == self.motion_at(j));
                }
            }
            i = i + 1;
        }
    }

    /// Sends a foraging agent `i` toward the food item `food_index` at
    /// `food_position`. An agent in any other state is left as it is.
    pub fn set_food_target(&mut self, index: usize, food_position: Vec2, food_index: u32)
        requires
            old(self).wf(),
            index < old(self).len(),
            in_range(food_position, LIMIT as int / 2),
        ensures
            final(self).wf(),
            old(self).state@[index as int] != AntState::Foraging ==> *final(self) == *old(self),
            old(self).state@[index as int] == AntState::Foraging ==> {
                &&& final(self).same_except(old(self), index as int)
                &&& final(self).state@[index as int] == AntState::ToFood
                &&& final(self).target_food_index@[index as int] == Some(food_index)
                &&& final(self).target_food_position@[index as int] == Some(food_position)
                &&& final(self).desired_direction@[index as int] == toward(
                    old(self).position@[index as int],
                    food_position,
                    old(self).desired_direction@[index as int],
                )
                &&& final(self).position@[index as int] == old(self).position@[index as int]
                &&& final(self).velocity@[index as int] == old(self).velocity@[index as int]
                &&& final(self).heading@[index as int] == old(self).heading@[index as int]
                &&& final(self).home_pheromones_direction@[index as int] == old(
                    self,
                ).home_pheromones_direction@[index as int]
                &&& final(self).food_pheromones_direction@[index as int] == old(
                    self,
                ).food_pheromones_direction@[index as int]
            },
    {
        if self.state[index] == AntState::Foraging {
            let ghost prev = *self;
            assert(prev.slot_ok(index as int));
            let d = direction_to(self.position[index], food_position, self.desired_direction[index]);
            self.state.set(index, AntState::ToFood);
            self.target_food_index.set(index, Some(food_index));
            self.target_food_position.set(index, Some(food_position));
            self.desired_direction.set(index, d);
            assert forall|j: int| 0 <= j < self.len() implies #[trigger] self.slot_ok(j) by {
                assert(prev.slot_ok(j));
            }
            assert forall|j: int| 0 <= j < self.len() && j != index implies #[trigger] self.motion_at(j)
                == prev.motion_at(j) && self.cues_at(j) == prev.cues_at(j)
                && self.target_food_index@[j] == prev.target_food_index@[j] by {}
        }
    }

    /// Whether agent `i` has reached its food: it is heading for food, holds a
    /// target, and is less than `CAPTURE_RADIUS` units from it.
    pub fn food_acquired(&self, index: usize) -> (r: bool)
        requires
            self.wf(),
            index < self.len(),
        ensures
            r == self.has_reached_food(index as int),
    {
        assert(self.slot_ok(index as int));
        match self.target_food_position[index] {
            None => false,
            Some(p) => {
                let reach = CAPTURE_RADIUS * SCALE;
                self.state[index] == AntState::ToFood && distance_sq(p, self.position[index]) < (
                reach * reach) as u64
            },
        }
    }

    /// Stores the sensed directions of agent `i`, each as a unit vector; an
    /// absent (or zero) direction clears the stored one.
    pub fn set_pheromones_direction(
        &mut self,
        index: usize,
        home_angle: Option<Vec2>,
        food_angle: Option<Vec2>,
    )
        requires
            old(self).wf(),
            index < old(self).len(),
            home_angle is Some ==> in_range(home_angle->0, LIMIT as int),
            food_angle is Some ==> in_range(food_angle->0, LIMIT as int),
        ensures
            final(self).wf(),
            final(self).same_except(old(self), index as int),
            final(self).motion_at(index as int) == old(self).motion_at(index as int),
            final(self).state@ == old(self).state@,
            final(self).target_food_index@ == old(self).target_food_index@,
            final(self).target_food_position@ == old(self).target_food_position@,
            final(self).home_pheromones_direction@[index as int] == match home_angle {
                None => None,
                Some(d) => unit_of(d),
            },
            final(self).food_pheromones_direction@[index as int] == match food_angle {
                None => None,
                Some(d) => unit_of(d),
            },
    {
        let ghost prev = *self;
        let home = match home_angle {
            None => None,
            Some(d) => normalize(d),
        };
        let food = match food_angle {
            None => None,
            Some(d) => normalize(d),
        };
        self.home_pheromones_direction.set(index, home);
        self.food_pheromones_direction.set(index, food);
        assert forall|j: int| 0 <= j < self.len() implies #[trigger] self.slot_ok(j) by {
            assert(prev.slot_ok(j));
        }
        assert forall|j: int| 0 <= j < self.len() && j != index implies #[trigger] self.motion_at(j)
            == prev.motion_at(j) && self.cues_at(j) == prev.cues_at(j)
            && self.target_food_index@[j] == prev.target_food_index@[j] by {}
    }

    /// Reverses agent `i`'s velocity, so that it retraces its way.
    pub fn set_antiparallel(&mut self, index: usize)
        requires
            old(self).wf(),
            index < old(self).len(),
        ensures
            final(self).wf(),
            final(self).same_except(old(self), index as int),
            final(self).velocity@[index as int] == negated(old(self).velocity@[index as int]),
            final(self).position@ == old(self).position@,
            final(self).desired_direction@ == old(self).desired_direction@,
            final(self).heading@ == old(self).heading@,
            final(self).cues_at(index as int) == old(self).cues_at(index as int),
            final(self).state@ == old(self).state@,
            final(self).target_food_index@ == old(self).target_food_index@,
    {
        let ghost prev = *self;
        assert(prev.slot_ok(index as int));
        let v = self.velocity[index];
        self.velocity.set(index, Vec2 { x: -v.x, y: -v.y });
        assert forall|j: int| 0 <= j < self.len() implies #[trigger] self.slot_ok(j) by {
            assert(prev.slot_ok(j));
        }
        assert forall|j: int| 0 <= j < self.len() && j != index implies #[trigger] self.motion_at(j)
            == prev.motion_at(j) && self.cues_at(j) == prev.cues_at(j)
            && self.target_food_index@[j] == prev.target_food_index@[j] by {}
    }

    /// Puts agent `i` in `state` with no food target (index and position cleared).
    pub fn set_state(&mut self, index: usize, state: AntState)
        requires
            old(self).wf(),
            index < old(self).len(),
            state != AntState::ToFood,
        ensures
            final(self).wf(),
            final(self).same_except(old(self), index as int),
            final(self).motion_at(index as int) == old(self).motion_at(index as int),
            final(self).state@ == old(self).state@.update(index as int, state),
            final(self).target_food_index@ == old(self).target_food_index@.update(index as int, None),
            final(self).target_food_position@ == old(self).target_food_position@.update(
                index as int,
                None,
            ),
            final(self).home_pheromones_direction@ == old(self).home_pheromones_direction@,
            final(self).food_pheromones_direction@ == old(self).food_pheromones_direction@,
    {
        let ghost prev = *self;
        self.state.set(index, state);
        self.target_food_index.set(index, None);
        self.target_food_position.set(index, None);
        assert forall|j: int| 0 <= j < self.len() implies #[trigger] self.slot_ok(j) by {
            assert(prev.slot_ok(j));
        }
        assert forall|j: int| 0 <= j < self.len() && j != index implies #[trigger] self.motion_at(j)
            == prev.motion_at(j) && self.cues_at(j) == prev.cues_at(j)
            && self.target_food_index@[j] == prev.target_food_index@[j] by {}
    }

    /// One tick of `dt` milliseconds for every agent (see `moved`), each with
    /// its own random nudge; the agents are integrated in parallel. States,
    /// targets and sensed cues are kept.
    pub fn update(&mut self, dt: u64)
        requires
            old(self).wf(),
            dt <= MAX_DT,
        ensures
            final(self).wf(),
            final(self).tuning == old(self).tuning,
            final(self).len() == old(self).len(),
            final(self).state@ == old(self).state@,
            final(self).target_food_index@ == old(self).target_food_index@,
            forall|i: int|
                0 <= i < old(self).len() ==> #[trigger] final(self).cues_at(i) == old(self).cues_at(i),
            forall|i: int|
                0 <= i < old(self).len() ==> moved_somehow(
                    old(self).motion_at(i),
                    #[trigger] final(self).motion_at(i),
                    old(self).cues_at(i),
                    old(self).tuning,
                    dt as int,
                ),
    {
        let n = self.state.len();
        let mut inputs: Vec<(Motion, Cues, Vec2)> = Vec::new();
        let mut i: usize = 0;
        while i < n
            invariant
                self.wf(),
                n == self.len(),
                n == old(self).len(),
                self.tuning == old(self).tuning,
                i <= n,
                inputs@.len() == i,
                self.state@ == old(self).state@,
                self.target_food_index@ == old(self).target_food_index@,
                forall|j: int|
                    0 <= j < n ==> #[trigger] self.motion_at(j) == old(self).motion_at(j)
                        && self.cues_at(j) == old(self).cues_at(j),
                forall|j: int|
                    0 <= j < i ==> (#[trigger] inputs@[j]).0 == old(self).motion_at(j)
                        && inputs@[j].1 == old(self).cues_at(j) && in_range(inputs@[j].2, SCALE as int),
            decreases n - i,
        {
            let ghost s0 = *self;
            let rx = draw(&mut self.rng, -SCALE, SCALE);
            let ry = draw(&mut self.rng, -SCALE, SCALE);
            assert forall|j: int| 0 <= j < self.len() implies #[trigger] self.slot_ok(j) by {
                assert(s0.slot_ok(j));
            }
            assert forall|j: int| 0 <= j < n implies #[trigger] self.motion_at(j) == old(self).motion_at(j)
                && self.cues_at(j) == old(self).cues_at(j) by {
                assert(s0.motion_at(j) == old(self).motion_at(j));
            }
            let ghost inputs0 = inputs@;
            inputs.push((self.motion(i), self.cues(i), Vec2 { x: rx, y: ry }));
            assert forall|j: int| 0 <= j < i + 1 implies (#[trigger] inputs@[j]).0 == old(self).motion_at(j)
                && inputs@[j].1 == old(self).cues_at(j) && in_range(inputs@[j].2, SCALE as int) by {
                if j < i {
                    assert(inputs@[j] == inputs0[j]);
                } else {
                    assert(self.motion_at(j) == old(self).motion_at(j));
                }
            }
            i = i + 1;
        }
        assert forall|j: int| 0 <= j < inputs@.len() implies motion_ok((#[trigger] inputs@[j]).0, self.tuning)
            && cues_ok(inputs@[j].1) && in_range(inputs@[j].2, SCALE as int) by {
            assert(self.slot_ok(j));
            assert(self.motion_at(j) == old(self).motion_at(j));
        }
        assert forall|j: int| 0 <= j < n implies #[trigger] self.cues_at(j) == old(self).cues_at(j) by {
            assert(self.motion_at(j) == old(self).motion_at(j));
        }
        let outputs = steer_all(&inputs, self.tuning, dt);
        let mut i: usize = 0;
        while i < n
            invariant
                self.wf(),
                n == self.len(),
                n == old(self).len(),
                self.tuning == old(self).tuning,
                i <= n,
                inputs@.len() == n,
                outputs@.len() == n,
                self.state@ == old(self).state@,
                self.target_food_index@ == old(self).target_food_index@,
                forall|j: int| 0 <= j < n ==> #[trigger] self.cues_at(j) == old(self).cues_at(j),
                forall|j: int|
                    0 <= j < n ==> (#[trigger] inputs@[j]).0 == old(self).motion_at(j)
                        && inputs@[j].1 == old(self).cues_at(j) && in_range(inputs@[j].2, SCALE as int),
                forall|j: int|
                    0 <= j < n ==> #[trigger] outputs@[j] == moved(
                        inputs@[j].0,
                        inputs@[j].1,
                        self.tuning,
                        inputs@[j].2,
                        dt as int,
                    ) && motion_ok(outputs@[j], self.tuning),
                forall|j: int| 0 <= j < i ==> #[trigger] self.motion_at(j) == outputs@[j],
            decreases n - i,
        {
            let ghost before = *self;
            assert(motion_ok(outputs@[i as int], self.tuning));
            self.put_motion(i, outputs[i]);
            assert forall|j: int| 0 <= j < n implies #[trigger] self.cues_at(j) == old(self).cues_at(j) by {
                assert(before.slot_ok(j));
                if j != i {
                    assert(before.motion_at(j) == self.motion_at(j));
                }
            }
            assert forall|j: int| 0 <= j < i + 1 implies #[trigger] self.motion_at(j) == outputs@[j] by {
                if j < i {
                    assert(before.motion_at(j) == self.motion_at(j));
                }
            }
            i = i + 1;
        }
        assert forall|j: int| 0 <= j < old(self).len() implies moved_somehow(
            old(self).motion_at(j),
            #[trigger] self.motion_at(j),
            old(self).cues_at(j),
            old(self).tuning,
            dt as int,
        ) by {
            assert(self.motion_at(j) == outputs@[j]);
            assert(inputs@[j].0 == old(self).motion_at(j));
            let r = inputs@[j].2;
            assert(in_range(r, SCALE as int));
        }
    }
}

} // verus!
