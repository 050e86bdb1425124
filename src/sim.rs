//! One simulation: the agents, the nest, the food and the two pheromone
//! fields, advanced one tick at a time.
use vstd::prelude::*;
use arrayvec::ArrayVec;
use crate::ant::{toward, Ant, AntState, Motion, MAX_DT, MAX_WINDOW, TOTAL_ANTS};
use crate::fixed::{dist_sq, distance_sq, in_range, negated, scaled, unit_of, Vec2, LIMIT, SCALE};
use crate::food::{Food, FoodState};
use crate::home::{is_spawn_heading, spawn_point, Home, HOME_LIMIT};
use crate::pheromone::{cell_of, decayed, PheromoneField, Trail, FULL};
use crate::sensing::{ant_rays, sensed};

verus! {

/// Distance beyond the window's far corner where collected food is shown, in units.
pub const FAR_AWAY: i64 = 2000;

/// Margin of the food scatter strip from the window's left, right and top edges, in units.
pub const FOOD_MARGIN: i64 = 50;

/// Far edge of the food scatter strip, in units from the top.
pub const FOOD_STRIP_END: i64 = 100;

#[verifier::external_type_specification]
#[verifier::external_body]
#[verifier::reject_recursive_types(T)]
pub struct ExArrayVec<T, const CAP: usize>(ArrayVec<T, CAP>);

/// The spawn points and headings held in a buffer, in order.
pub uninterp spec fn spawn_list(v: ArrayVec<(Vec2, Vec2), TOTAL_ANTS>) -> Seq<(Vec2, Vec2)>;

/// Relies on arrayvec's `ArrayVec::new`: an empty vector.
#[verifier::external_body]
fn spawn_buffer() -> (r: ArrayVec<(Vec2, Vec2), TOTAL_ANTS>)
    ensures
        spawn_list(r) == Seq::<(Vec2, Vec2)>::empty(),
{
    ArrayVec::new()
}

/// Relies on arrayvec's `ArrayVec::push`: appends `item` (and panics when the
/// vector is full).
#[verifier::external_body]
fn spawn_push(v: &mut ArrayVec<(Vec2, Vec2), TOTAL_ANTS>, item: (Vec2, Vec2))
    requires
        spawn_list(*old(v)).len() < TOTAL_ANTS,
    ensures
        spawn_list(*final(v)) == spawn_list(*old(v)).push(item),
{
    v.push(item)
}

/// Relies on arrayvec's `ArrayVec::as_slice`: the items, in order.
#[verifier::external_body]
fn spawn_slice(v: &ArrayVec<(Vec2, Vec2), TOTAL_ANTS>) -> (r: &[(Vec2, Vec2)])
    ensures
        r@ == spawn_list(*v),
{
    v.as_slice()
}

/// The constants of one simulation.
#[derive(Clone, Copy, Debug, PartialEq, Eq, Structural)]
pub struct Config {
    /// Window size, in units; the pheromone grids have one cell per unit.
    pub width: i64,
    pub height: i64,
    pub total_ants: usize,
    pub total_food: usize,
    /// Nest radius, in steps.
    pub home_radius: i64,
    /// How far an agent sees food, in steps.
    pub ant_vision: i64,
    /// Intensity each cell loses per tick (`pheromone::FULL` is one whole unit).
    pub pheromone_decay: u32,
}

impl Config {
    pub open spec fn wf(&self) -> bool {
        &&& 0 < self.width <= MAX_WINDOW
        &&& 0 < self.height <= MAX_WINDOW
        &&& self.total_ants <= TOTAL_ANTS
        &&& self.total_food <= u32::MAX
        &&& 0 <= self.home_radius <= HOME_LIMIT
        &&& 0 <= self.ant_vision <= LIMIT / 2
    }

    /// The constants of a 1500 by 900 window with 1000 agents, 10000 food
    /// items, a nest of radius 50, vision 150 and a decay of 0.009 per tick.
    pub fn standard() -> (c: Config)
        ensures
            c.wf(),
            c == (Config {
                width: 1500,
                height: 900,
                total_ants: 1000,
                total_food: 10000,
                home_radius: (50 * SCALE) as i64,
                ant_vision: (150 * SCALE) as i64,
                pheromone_decay: 9,
            }),
    {
        Config {
            width: 1500,
            height: 900,
            total_ants: 1000,
            total_food: 10000,
            home_radius: 50 * SCALE,
            ant_vision: 150 * SCALE,
            pheromone_decay: 9,
        }
    }
}

/// The whole simulation.
pub struct MainState {
    pub config: Config,
    pub ants: Ant,
    pub home: Home,
    pub food: Food,
    pub pheromones: PheromoneField,
}

/// Every agent that holds a food target points at a slot of the store whose
/// item is `Targeted`, and no two agents hold the same target.
pub open spec fn exclusive(targets: Seq<Option<u32>>, states: Seq<FoodState>) -> bool {
    &&& forall|i: int|
        0 <= i < targets.len() && (#[trigger] targets[i]) is Some ==> {
            let j = targets[i]->0 as int;
            j < states.len() && states[j] == FoodState::Targeted
        }
    &&& forall|a: int, b: int|
        0 <= a < targets.len() && 0 <= b < targets.len() && a != b && (#[trigger] targets[a]) is Some
            ==> #[trigger] targets[b] != targets[a]
}

pub open spec fn claims_exclusive(ants: &Ant, food: &Food) -> bool {
    exclusive(ants.target_food_index@, food.state@)
}

/// Position of a state in the life cycle of a food item.
pub open spec fn rank(s: FoodState) -> int {
    match s {
        FoodState::Available => 0,
        FoodState::Targeted => 1,
        FoodState::Collected => 2,
    }
}

/// No item has gone back in its life cycle from `before` to `after`.
pub open spec fn no_regress(before: Seq<FoodState>, after: Seq<FoodState>) -> bool {
    &&& before.len() == after.len()
    &&& forall|j: int| 0 <= j < before.len() ==> rank(#[trigger] before[j]) <= rank(after[j])
}

proof fn lemma_mark_keeps(first: Seq<u32>, mid: Seq<u32>, last: Seq<u32>, rate: int)
    requires
        decayed_or_marked(first, mid, rate),
        mid.len() == last.len(),
        forall|k: int| 0 <= k < mid.len() ==> last[k] == mid[k] || last[k] == FULL,
    ensures
        decayed_or_marked(first, last, rate),
{
    assert forall|k: int| 0 <= k < first.len() implies #[trigger] last[k] as int == decayed(first[k] as int, rate)
        || last[k] == FULL by {
        assert(mid[k] as int == decayed(first[k] as int, rate) || mid[k] == FULL);
    }
}

proof fn lemma_unchanged_or_full(cells: Seq<u32>, k0: int)
    requires
        0 <= k0 < cells.len(),
    ensures
        cells.update(k0, FULL).len() == cells.len(),
        forall|k: int|
            0 <= k < cells.len() ==> #[trigger] cells.update(k0, FULL)[k] == cells[k] || cells.update(
                k0,
                FULL,
            )[k] == FULL,
{
}

proof fn lemma_collected_chain(a: &Food, b: &Food, c: &Food, far: Vec2)
    requires
        b.wf(),
        c.wf(),
        kept_or_collected(a, b, far),
        kept_or_collected(b, c, far),
        no_regress(b.state@, c.state@),
    ensures
        kept_or_collected(a, c, far),
{
    assert forall|j: int| 0 <= j < a.position@.len() implies #[trigger] c.position@[j]
        == a.position@[j] || (c.position@[j] == Some(far) && c.state@[j] == FoodState::Collected) by {
        assert(b.position@[j] == a.position@[j] || (b.position@[j] == Some(far) && b.state@[j]
            == FoodState::Collected));
        assert(c.position@[j] == b.position@[j] || (c.position@[j] == Some(far) && c.state@[j]
            == FoodState::Collected));
        assert(rank(b.state@[j]) <= rank(c.state@[j]));
    }
}

proof fn lemma_no_regress_chain(a: Seq<FoodState>, b: Seq<FoodState>, c: Seq<FoodState>)
    requires
        no_regress(a, b),
        no_regress(b, c),
    ensures
        no_regress(a, c),
{
    assert forall|j: int| 0 <= j < a.len() implies rank(#[trigger] a[j]) <= rank(c[j]) by {
        assert(rank(a[j]) <= rank(b[j]));
        assert(rank(b[j]) <= rank(c[j]));
    }
}

/// Dropping one agent's target keeps claims exclusive.
proof fn lemma_drop_target(targets: Seq<Option<u32>>, states: Seq<FoodState>, i: int)
    requires
        exclusive(targets, states),
        0 <= i < targets.len(),
    ensures
        exclusive(targets.update(i, None), states),
{
    let t = targets.update(i, None);
    assert forall|a: int, b: int|
        0 <= a < t.len() && 0 <= b < t.len() && a != b && (#[trigger] t[a]) is Some implies #[trigger] t[b]
            != t[a] by {
        assert(targets[a] == t[a]);
        if b != i {
            assert(targets[b] == t[b]);
        }
    }
    assert forall|a: int| 0 <= a < t.len() && (#[trigger] t[a]) is Some implies ({
        let j = t[a]->0 as int;
        j < states.len() && states[j] == FoodState::Targeted
    }) by {
        assert(targets[a] == t[a]);
    }
}

/// Collecting the item that agent `i` held, and dropping that target, keeps
/// claims exclusive.
proof fn lemma_collect_target(targets: Seq<Option<u32>>, states: Seq<FoodState>, i: int)
    requires
        exclusive(targets, states),
        0 <= i < targets.len(),
        targets[i] is Some,
    ensures
        exclusive(
            targets.update(i, None),
            states.update(targets[i]->0 as int, FoodState::Collected),
        ),
{
    let j = targets[i]->0 as int;
    let t = targets.update(i, None);
    let s2 = states.update(j, FoodState::Collected);
    lemma_drop_target(targets, states, i);
    assert forall|a: int| 0 <= a < t.len() && (#[trigger] t[a]) is Some implies ({
        let k = t[a]->0 as int;
        k < s2.len() && s2[k] == FoodState::Targeted
    }) by {
        assert(targets[a] == t[a]);
        assert(a != i);
        assert(targets[a] != targets[i]);
    }
}

/// Claiming an `Available` item for an agent without a target keeps claims
/// exclusive.
proof fn lemma_claim_target(targets: Seq<Option<u32>>, states: Seq<FoodState>, i: int, j: u32)
    requires
        exclusive(targets, states),
        0 <= i < targets.len(),
        targets[i] is None,
        j < states.len(),
        states[j as int] == FoodState::Available,
    ensures
        exclusive(targets.update(i, Some(j)), states.update(j as int, FoodState::Targeted)),
{
    let t = targets.update(i, Some(j));
    let s2 = states.update(j as int, FoodState::Targeted);
    assert forall|a: int| 0 <= a < t.len() && (#[trigger] t[a]) is Some implies ({
        let k = t[a]->0 as int;
        k < s2.len() && s2[k] == FoodState::Targeted
    }) by {
        if a != i {
            assert(targets[a] == t[a]);
        }
    }
    assert forall|a: int, b: int|
        0 <= a < t.len() && 0 <= b < t.len() && a != b && (#[trigger] t[a]) is Some implies #[trigger] t[b]
            != t[a] by {
        if a == i {
            if targets[b] is Some {
                assert(targets[b] == t[b]);
            }
        } else if b == i {
            assert(targets[a] == t[a]);
        } else {
            assert(targets[a] == t[a]);
            assert(targets[b] == t[b]);
        }
    }
}

/// A claim succeeds only on an `Available` item and leaves it `Targeted`, and
/// no step of the life cycle leads back to `Available`: of two claims of one
/// item within a tick, or at any later time, at most one succeeds.
pub proof fn lemma_claim_once(before: Seq<FoodState>, between: Seq<FoodState>, j: int)
    requires
        0 <= j < before.len(),
        before[j] == FoodState::Available,
        no_regress(before.update(j, FoodState::Targeted), between),
    ensures
        between[j] != FoodState::Available,
{
    assert(rank(before.update(j, FoodState::Targeted)[j]) <= rank(between[j]));
}

/// No two agents of a well-formed simulation hold the same food item.
pub proof fn lemma_one_claimant(s: &MainState, a: int, b: int)
    requires
        s.wf(),
        0 <= a < s.ants.len(),
        0 <= b < s.ants.len(),
        a != b,
        s.ants.target_food_index@[a] is Some,
    ensures
        s.ants.target_food_index@[b] != s.ants.target_food_index@[a],
        s.food.state@[s.ants.target_food_index@[a]->0 as int] == FoodState::Targeted,
{
}

/// Item `j` is the first, in store order, that agent at `p` may claim.
pub open spec fn first_visible(food: &Food, p: Vec2, vision: int, j: int) -> bool {
    &&& 0 <= j < food.food_generated
    &&& visible_food(food, p, vision, j)
    &&& forall|k: int| 0 <= k < j ==> !visible_food(food, p, vision, k)
}

/// Each cell of `now` is its value in `before` after one decay step of
/// `rate`, or has been marked `FULL` since.
pub open spec fn decayed_or_marked(before: Seq<u32>, now: Seq<u32>, rate: int) -> bool {
    &&& before.len() == now.len()
    &&& forall|k: int|
        0 <= k < before.len() ==> #[trigger] now[k] as int == decayed(before[k] as int, rate)
            || now[k] == FULL
}

/// Each item of `now` is where it was in `before`, or has been collected and
/// moved to `far`.
pub open spec fn kept_or_collected(before: &Food, now: &Food, far: Vec2) -> bool {
    &&& before.position@.len() == now.position@.len()
    &&& forall|j: int|
        0 <= j < before.position@.len() ==> #[trigger] now.position@[j] == before.position@[j]
            || (now.position@[j] == Some(far) && now.state@[j] == FoodState::Collected)
}

/// Where collected food is put: beyond the window's far corner.
pub open spec fn far_away(c: Config) -> Vec2 {
    Vec2 { x: ((c.width + FAR_AWAY) * SCALE) as i64, y: ((c.height + FAR_AWAY) * SCALE) as i64 }
}

/// Item `j` is one that agent `i` may claim: placed, still `Available`, and
/// less than `vision` away.
pub open spec fn visible_food(food: &Food, p: Vec2, vision: int, j: int) -> bool {
    &&& food.position@[j] is Some
    &&& food.state@[j] == FoodState::Available
    &&& dist_sq(food.position@[j]->0, p) < vision * vision
}

/// Capture for agent `i` took `before` to `after`.
pub open spec fn captured(before: MainState, after: MainState, i: int) -> bool {
    &&& after.wf()
    &&& after.config == before.config
    &&& after.ants.len() == before.ants.len()
    &&& after.food.food_generated == before.food.food_generated
    &&& no_regress(before.food.state@, after.food.state@)
    &&& after.home == before.home
    &&& after.pheromones == before.pheromones
    &&& kept_or_collected(&before.food, &after.food, far_away(before.config))
    &&& !before.ants.has_reached_food(i) ==> after.ants == before.ants
        && after.food == before.food
    &&& before.ants.has_reached_food(i) ==> {
        let j = before.ants.target_food_index@[i]->0 as int;
        &&& after.ants.same_except(&before.ants, i)
        &&& after.ants.state@ == before.ants.state@.update(
            i,
            AntState::Returning,
        )
        &&& after.ants.target_food_index@[i] is None
        &&& after.ants.target_food_position@[i] is None
        &&& after.ants.velocity@[i] == negated(
            before.ants.velocity@[i],
        )
        &&& after.ants.position@ == before.ants.position@
        &&& after.food.state@ == before.food.state@.update(
            j,
            FoodState::Collected,
        )
        &&& after.food.position@ == before.food.position@.update(
            j,
            Some(far_away(before.config)),
        )
    }
}

/// A claim for agent `i` took `before` to `after`.
pub open spec fn claimed(before: MainState, after: MainState, i: int) -> bool {
    &&& after.wf()
    &&& after.config == before.config
    &&& after.ants.len() == before.ants.len()
    &&& after.food.food_generated == before.food.food_generated
    &&& no_regress(before.food.state@, after.food.state@)
    &&& after.home == before.home
    &&& after.pheromones == before.pheromones
    &&& after.food.position@ == before.food.position@
    &&& kept_or_collected(&before.food, &after.food, far_away(before.config))
    &&& (before.ants.state@[i] != AntState::Foraging || forall|k: int|
        0 <= k < before.food.food_generated ==> !visible_food(
            &before.food,
            before.ants.position@[i],
            before.config.ant_vision as int,
            k,
        )) ==> after.ants == before.ants && after.food == before.food
    &&& forall|j: int|
        before.ants.state@[i] == AntState::Foraging && first_visible(
            &before.food,
            before.ants.position@[i],
            before.config.ant_vision as int,
            j,
        ) ==> {
            &&& after.food.state@ == before.food.state@.update(
                j,
                FoodState::Targeted,
            )
            &&& after.food.position@ == before.food.position@
            &&& after.ants.same_except(&before.ants, i)
            &&& after.ants.state@[i] == AntState::ToFood
            &&& after.ants.target_food_index@[i] == Some(j as u32)
            &&& after.ants.target_food_position@[i] == before.food.position@[j]
            &&& after.ants.position@[i] == before.ants.position@[i]
            &&& after.ants.velocity@[i] == before.ants.velocity@[i]
            &&& after.ants.heading@[i] == before.ants.heading@[i]
            &&& after.ants.home_pheromones_direction@[i] == before.ants.home_pheromones_direction@[i]
            &&& after.ants.food_pheromones_direction@[i] == before.ants.food_pheromones_direction@[i]
            &&& after.ants.desired_direction@[i] == toward(
                before.ants.position@[i],
                before.food.position@[j]->0,
                before.ants.desired_direction@[i],
            )
        }
}

/// Arrival for agent `i` took `before` to `after`.
pub open spec fn arrived(before: MainState, after: MainState, i: int) -> bool {
    &&& after.wf()
    &&& after.config == before.config
    &&& after.ants.len() == before.ants.len()
    &&& after.food == before.food
    &&& after.home == before.home
    &&& after.pheromones == before.pheromones
    &&& ({
        let touching = dist_sq(before.ants.position@[i], before.home.position)
            <= before.home.radius * before.home.radius;
        &&& !touching ==> after.ants == before.ants
        &&& touching ==> {
            &&& after.ants.same_except(&before.ants, i)
            &&& after.ants.state@[i] == AntState::Foraging
            &&& after.ants.target_food_index@[i] is None
            &&& after.ants.target_food_position@[i] is None
            &&& after.ants.velocity@[i] == negated(
                before.ants.velocity@[i],
            )
            &&& after.ants.position@ == before.ants.position@
        }
    })
}

/// Marking and sensing for agent `i` took `before` to `after`.
pub open spec fn marked_and_sensed(before: MainState, after: MainState, i: int) -> bool {
    &&& after.wf()
    &&& after.config == before.config
    &&& after.ants.len() == before.ants.len()
    &&& after.food == before.food
    &&& after.home == before.home
    &&& ({
        let p = before.ants.position@[i];
        let w = before.config.width as int;
        let k = cell_of(p.y as int, before.config.height as int) * w + cell_of(
            p.x as int,
            w,
        );
        &&& before.ants.state@[i] != AntState::Returning ==> {
            &&& after.pheromones.home.cells@ == before.pheromones.home.cells@.update(k, FULL)
            &&& after.pheromones.food == before.pheromones.food
        }
        &&& before.ants.state@[i] == AntState::Returning ==> {
            &&& after.pheromones.food.cells@ == before.pheromones.food.cells@.update(k, FULL)
            &&& after.pheromones.home == before.pheromones.home
        }
    })
    &&& after.pheromones.home.cells@.len() == before.pheromones.home.cells@.len()
    &&& after.pheromones.food.cells@.len() == before.pheromones.food.cells@.len()
    &&& forall|k: int|
        0 <= k < before.pheromones.home.cells@.len() ==> #[trigger] after.pheromones.home.cells@[k]
            == before.pheromones.home.cells@[k] || after.pheromones.home.cells@[k] == FULL
    &&& forall|k: int|
        0 <= k < before.pheromones.food.cells@.len() ==> #[trigger] after.pheromones.food.cells@[k]
            == before.pheromones.food.cells@[k] || after.pheromones.food.cells@[k] == FULL
    &&& after.ants.same_except(&before.ants, i)
    &&& after.ants.motion_at(i) == before.ants.motion_at(i)
    &&& after.ants.state@ == before.ants.state@
    &&& after.ants.target_food_index@ == before.ants.target_food_index@
    &&& after.ants.target_food_position@ == before.ants.target_food_position@
    &&& after.ants.home_pheromones_direction@[i] == match sensed(
        after.pheromones.home,
        before.ants.position@[i],
        before.ants.heading@[i],
    ) {
        None => None,
        Some(d) => unit_of(d),
    }
    &&& after.ants.food_pheromones_direction@[i] == match sensed(
        after.pheromones.food,
        before.ants.position@[i],
        before.ants.heading@[i],
    ) {
        None => None,
        Some(d) => unit_of(d),
    }
}

/// Agent `i`'s whole turn took `before` to `after`: capture, claim, arrival,
/// then marking and sensing.
pub open spec fn turn_taken(before: MainState, after: MainState, i: int) -> bool {
    exists|m1: MainState, m2: MainState, m3: MainState|
        captured(before, m1, i) && claimed(m1, m2, i) && arrived(m2, m3, i) && marked_and_sensed(
            m3,
            after,
            i,
        )
}

/// `after` is `before` with both fields decayed by the configured rate.
pub open spec fn fields_decayed(before: MainState, after: MainState) -> bool {
    &&& after.wf()
    &&& after.config == before.config
    &&& after.ants == before.ants
    &&& after.food == before.food
    &&& after.home == before.home
    &&& after.pheromones.home.cells@.len() == before.pheromones.home.cells@.len()
    &&& after.pheromones.food.cells@.len() == before.pheromones.food.cells@.len()
    &&& forall|k: int|
        0 <= k < before.pheromones.home.cells@.len() ==> #[trigger] after.pheromones.home.cells@[k] as int
            == decayed(before.pheromones.home.cells@[k] as int, before.config.pheromone_decay as int)
    &&& forall|k: int|
        0 <= k < before.pheromones.food.cells@.len() ==> #[trigger] after.pheromones.food.cells@[k] as int
            == decayed(before.pheromones.food.cells@[k] as int, before.config.pheromone_decay as int)
}

/// After the turns, all agents moved for `dt` milliseconds (see `Ant::update`).
pub open spec fn all_moved(before: MainState, after: MainState, dt: int) -> bool {
    &&& after.wf()
    &&& after.config == before.config
    &&& after.food == before.food
    &&& after.home == before.home
    &&& after.pheromones == before.pheromones
    &&& after.ants.len() == before.ants.len()
    &&& after.ants.tuning == before.ants.tuning
    &&& after.ants.target_food_index@ == before.ants.target_food_index@
    &&& forall|i: int|
        0 <= i < before.ants.len() ==> #[trigger] after.ants.cues_at(i) == before.ants.cues_at(i)
    &&& forall|i: int|
        0 <= i < before.ants.len() ==> crate::ant::moved_somehow(
            before.ants.motion_at(i),
            #[trigger] after.ants.motion_at(i),
            before.ants.cues_at(i),
            before.ants.tuning,
            dt,
        )
}

/// A whole tick took `before` to `after`: the fields decayed, every agent
/// took its turn in index order, then all agents moved.
pub open spec fn ticked(before: MainState, after: MainState, dt: int, trace: Seq<MainState>) -> bool {
    &&& trace.len() == before.ants.len() + 1
    &&& fields_decayed(before, trace[0])
    &&& forall|i: int| 0 <= i < before.ants.len() ==> turn_taken(#[trigger] trace[i], trace[i + 1], i)
    &&& all_moved(trace[before.ants.len() as int], after, dt)
}

impl MainState {
    pub open spec fn wf(&self) -> bool {
        &&& self.config.wf()
        &&& self.ants.wf()
        &&& self.ants.tuning.width == self.config.width * SCALE
        &&& self.ants.tuning.height == self.config.height * SCALE
        &&& self.ants.len() == self.config.total_ants
        &&& self.home.wf()
        &&& self.food.wf()
        &&& self.food.capacity() == self.config.total_food
        &&& self.pheromones.wf()
        &&& self.pheromones.home.width == self.config.width
        &&& self.pheromones.home.height == self.config.height
        &&& claims_exclusive(&self.ants, &self.food)
    }

    /// A simulation of `config` whose random draws are fixed by `seed`:
    /// agents at the window's centre, an empty food store and blank fields.
    pub fn new(config: Config, seed: u64) -> (s: MainState)
        requires
            config.wf(),
        ensures
            s.wf(),
            s.config == config,
            s.ants.len() == config.total_ants,
            s.food.capacity() == config.total_food,
            s.food.food_generated == 0,
            s.food.is_empty(),
            s.ants.fresh(config.total_ants as int, config.width as int, config.height as int),
            forall|i: int| 0 <= i < s.ants.len() ==> (#[trigger] s.ants.target_food_index@[i]) is None,
            s.home.position == (Vec2 {
                x: (config.width * SCALE / 2) as i64,
                y: (config.height * SCALE / 2) as i64,
            }),
            s.home.radius == config.home_radius,
            forall|k: int| 0 <= k < s.pheromones.home.cells@.len() ==> #[trigger] s.pheromones.home.cells@[k] == 0,
            forall|k: int| 0 <= k < s.pheromones.food.cells@.len() ==> #[trigger] s.pheromones.food.cells@[k] == 0,
    {
        let centre = Vec2 { x: config.width * SCALE / 2, y: config.height * SCALE / 2 };
        let ants = Ant::with_seed(config.width, config.height, config.total_ants, seed);
        let home = Home::with_seed(centre, config.home_radius, seed.wrapping_add(1));
        let food = Food::with_seed(config.total_food, seed.wrapping_add(2));
        let pheromones = PheromoneField::new(config.width as usize, config.height as usize);
        assert forall|i: int| 0 <= i < ants.len() implies (#[trigger] ants.target_food_index@[i])
            is None by {
            assert(ants.slot_ok(i));
            assert(ants.state@[i] == AntState::Foraging);
        }
        MainState { config, ants, home, food, pheromones }
    }

    /// Spawns every agent on the ring around the nest, facing away from it,
    /// and scatters the whole food store over the strip along the window's top.
    pub fn initilize_positions(&mut self)
        requires
            old(self).wf(),
            old(self).food.food_generated == 0,
            old(self).config.width > 2 * FOOD_MARGIN,
            forall|i: int|
                0 <= i < old(self).ants.len() ==> (#[trigger] old(self).ants.target_food_index@[i]) is None,
        ensures
            final(self).wf(),
            final(self).config == old(self).config,
            final(self).home.position == old(self).home.position,
            final(self).home.radius == old(self).home.radius,
            final(self).pheromones == old(self).pheromones,
            final(self).ants.len() == old(self).ants.len(),
            final(self).ants.tuning == old(self).ants.tuning,
            final(self).food.food_generated == old(self).config.total_food,
            forall|i: int|
                0 <= i < old(self).ants.len() ==> #[trigger] final(self).ants.cues_at(i) == old(
                    self,
                ).ants.cues_at(i) && exists|h: Vec2|
                    is_spawn_heading(h) && final(self).ants.motion_at(i) == (Motion {
                        position: spawn_point(
                            old(self).home.position,
                            old(self).home.radius as int,
                            h,
                        ),
                        velocity: scaled(h, old(self).ants.tuning.max_speed as int, SCALE as int),
                        desired_direction: h,
                        heading: h,
                    }),
            forall|k: int|
                0 <= k < old(self).config.total_food ==> {
                    &&& #[trigger] final(self).food.state@[k] == FoodState::Available
                    &&& final(self).food.position@[k] is Some
                    &&& FOOD_MARGIN * SCALE <= final(self).food.position@[k]->0.x < (old(
                        self,
                    ).config.width - FOOD_MARGIN) * SCALE
                    &&& FOOD_MARGIN * SCALE <= final(self).food.position@[k]->0.y < FOOD_STRIP_END
                        * SCALE
                },
    {
        let n = self.ants.state.len();
        let mut init_data = spawn_buffer();
        let mut i: usize = 0;
        while i < n
            invariant
                self.home.wf(),
                self.home.position == old(self).home.position,
                self.home.radius == old(self).home.radius,
                self.config == old(self).config,
                self.ants == old(self).ants,
                self.food == old(self).food,
                self.pheromones == old(self).pheromones,
                n == self.ants.len(),
                n <= TOTAL_ANTS,
                i <= n,
                spawn_list(init_data).len() == i,
                forall|k: int|
                    0 <= k < i ==> in_range(#[trigger] spawn_list(init_data)[k].0, LIMIT as int / 2)
                        && in_range(spawn_list(init_data)[k].1, SCALE as int) && is_spawn_heading(
                        spawn_list(init_data)[k].1,
                    ) && spawn_list(init_data)[k].0 == spawn_point(
                        old(self).home.position,
                        old(self).home.radius as int,
                        spawn_list(init_data)[k].1,
                    ),
            decreases n - i,
        {
            let (p, h) = self.home.generate_starting_position();
            proof {
                crate::fixed::lemma_tdiv_within(h.x as int, self.home.radius + 5 * SCALE, SCALE as int);
                crate::fixed::lemma_tdiv_within(h.y as int, self.home.radius + 5 * SCALE, SCALE as int);
            }
            assert(in_range(p, LIMIT as int / 2));
            spawn_push(&mut init_data, (p, h));
            i = i + 1;
        }
        let ghost ants0 = self.ants;
        let spawns = spawn_slice(&init_data);
        self.ants.initialize(spawns);
        assert forall|k: int| 0 <= k < ants0.len() implies #[trigger] self.ants.cues_at(k) == ants0.cues_at(k)
            && exists|h: Vec2|
            is_spawn_heading(h) && self.ants.motion_at(k) == (Motion {
                position: spawn_point(old(self).home.position, old(self).home.radius as int, h),
                velocity: scaled(h, ants0.tuning.max_speed as int, SCALE as int),
                desired_direction: h,
                heading: h,
            }) by {
            let e = spawn_list(init_data)[k];
            assert(in_range(spawn_list(init_data)[k].0, LIMIT as int / 2));
            assert(spawns@[k] == e);
            let h = e.1;
            assert(is_spawn_heading(h));
            assert(self.ants.motion_at(k) == (Motion {
                position: spawn_point(old(self).home.position, old(self).home.radius as int, h),
                velocity: scaled(h, ants0.tuning.max_speed as int, SCALE as int),
                desired_direction: h,
                heading: h,
            }));
        }
        let w = self.config.width;
        self.food.add_food(
            Vec2 { x: FOOD_MARGIN * SCALE, y: FOOD_MARGIN * SCALE },
            Vec2 { x: (w - FOOD_MARGIN) * SCALE, y: FOOD_STRIP_END * SCALE },
            self.config.total_food as u32,
        );
    }
}

impl MainState {
    /// The first placed, `Available` item within the vision of agent `i`, in
    /// store order.
    pub fn find_food(&self, i: usize) -> (r: Option<usize>)
        requires
            self.wf(),
            i < self.ants.len(),
        ensures
            match r {
                Some(j) => j < self.food.food_generated && visible_food(
                    &self.food,
                    self.ants.position@[i as int],
                    self.config.ant_vision as int,
                    j as int,
                ) && forall|k: int|
                    0 <= k < j ==> !visible_food(
                        &self.food,
                        self.ants.position@[i as int],
                        self.config.ant_vision as int,
                        k,
                    ),
                None => forall|k: int|
                    0 <= k < self.food.food_generated ==> !visible_food(
                        &self.food,
                        self.ants.position@[i as int],
                        self.config.ant_vision as int,
                        k,
                    ),
            },
    {
        let p = self.ants.position[i];
        assert(self.ants.slot_ok(i as int));
        let vision = self.config.ant_vision;
        assert(vision * vision <= (LIMIT / 2) * (LIMIT / 2)) by (nonlinear_arith)
            requires
                0 <= vision <= LIMIT / 2,
        ;
        let reach = (vision * vision) as u64;
        let n = self.food.food_generated as usize;
        let mut j: usize = 0;
        while j < n
            invariant
                self.wf(),
                i < self.ants.len(),
                p == self.ants.position@[i as int],
                in_range(p, LIMIT as int / 2),
                vision == self.config.ant_vision,
                reach == vision * vision,
                n == self.food.food_generated,
                j <= n,
                forall|k: int|
                    0 <= k < j ==> !visible_food(&self.food, p, vision as int, k),
            decreases n - j,
        {
            match self.food.position[j] {
                Some(k) => {
                    assert(self.food.position@[j as int] is Some);
                    assert(in_range(k, LIMIT as int / 2));
                    if self.food.state[j] == FoodState::Available && distance_sq(k, p) < reach {
                        return Some(j);
                    }
                },
                None => {},
            }
            j = j + 1;
        }
        None
    }

    /// Capture, the first part of an agent's turn: an agent that has reached
    /// its food turns back to carry it home, and the item is collected and
    /// moved out of the field.
    pub fn capture(&mut self, i: usize)
        requires
            old(self).wf(),
            i < old(self).ants.len(),
        ensures
            captured(*old(self), *final(self), i as int),
    {
        let w = self.config.width;
        let h = self.config.height;
        let far = Vec2 { x: (w + FAR_AWAY) * SCALE, y: (h + FAR_AWAY) * SCALE };
        if self.ants.food_acquired(i) {
            let ghost ants0 = self.ants;
            let target = self.ants.target_food_index[i];
            let ghost targets = self.ants.target_food_index@;
            let ghost states = self.food.state@;
            assert(self.ants.slot_ok(i as int));
            self.ants.set_state(i, AntState::Returning);
            let ghost ants1 = self.ants;
            self.ants.set_antiparallel(i);
            assert forall|j: int| 0 <= j < self.ants.len() && j != i implies #[trigger] self.ants.motion_at(j)
                == ants0.motion_at(j) && self.ants.cues_at(j) == ants0.cues_at(j)
                && self.ants.target_food_index@[j] == ants0.target_food_index@[j] by {
                assert(self.ants.motion_at(j) == ants1.motion_at(j));
                assert(ants1.motion_at(j) == ants0.motion_at(j));
            }
            assert forall|k: int| 0 <= k < self.ants.len() implies self.ants.position@[k]
                == ants0.position@[k] by {
                assert(ants1.motion_at(k) == ants0.motion_at(k));
            }
            assert(self.ants.position@ =~= ants0.position@);
            match target {
                Some(j) => {
                    proof {
                        lemma_collect_target(targets, states, i as int);
                    }
                    self.food.collect(j as usize, far);
                },
                None => {},
            }
        }
    }

    /// Claim, the second part of an agent's turn: a foraging agent claims the
    /// first visible `Available` item and heads for it.
    pub fn claim_nearby(&mut self, i: usize)
        requires
            old(self).wf(),
            i < old(self).ants.len(),
        ensures
            claimed(*old(self), *final(self), i as int),
    {
        if self.ants.state[i] == AntState::Foraging {
            match self.find_food(i) {
                Some(j) => {
                    match self.food.position[j] {
                        Some(k) => {
                            let ghost targets = self.ants.target_food_index@;
                            let ghost states = self.food.state@;
                            assert(self.ants.slot_ok(i as int));
                            proof {
                                lemma_claim_target(targets, states, i as int, j as u32);
                            }
                            self.food.claim(j);
                            let ghost ants0 = self.ants;
                            assert(ants0.state@[i as int] == AntState::Foraging);
                            self.ants.set_food_target(i, k, j as u32);
                            assert(self.ants.same_except(&ants0, i as int));
                            assert forall|a: int| 0 <= a < targets.len() implies #[trigger] self.ants.target_food_index@[a]
                                == targets.update(i as int, Some(j as u32))[a] by {
                                if a != i {
                                    assert(self.ants.motion_at(a) == ants0.motion_at(a));
                                }
                            }
                            assert(self.ants.target_food_index@ =~= targets.update(i as int, Some(j as u32)));
                            assert(self.food.state@ == states.update(j as int, FoodState::Targeted));
                        },
                        None => {},
                    }
                },
                None => {},
            }
        }
    }

    /// Arrival, the third part of an agent's turn: an agent in the nest starts
    /// foraging again and turns back.
    pub fn arrive(&mut self, i: usize)
        requires
            old(self).wf(),
            i < old(self).ants.len(),
        ensures
            arrived(*old(self), *final(self), i as int),
    {
        assert(self.ants.slot_ok(i as int));
        if self.home.touching_home(self.ants.position[i]) {
            proof {
                lemma_drop_target(self.ants.target_food_index@, self.food.state@, i as int);
            }
            let ghost ants0 = self.ants;
            self.ants.set_state(i, AntState::Foraging);
            let ghost ants1 = self.ants;
            self.ants.set_antiparallel(i);
            assert forall|j: int| 0 <= j < self.ants.len() && j != i implies #[trigger] self.ants.motion_at(j)
                == ants0.motion_at(j) && self.ants.cues_at(j) == ants0.cues_at(j)
                && self.ants.target_food_index@[j] == ants0.target_food_index@[j] by {
                assert(self.ants.motion_at(j) == ants1.motion_at(j));
                assert(ants1.motion_at(j) == ants0.motion_at(j));
            }
            assert forall|k: int| 0 <= k < self.ants.len() implies self.ants.position@[k]
                == ants0.position@[k] by {
                assert(ants1.motion_at(k) == ants0.motion_at(k));
            }
            assert(self.ants.position@ =~= ants0.position@);
        }
    }

    /// Marking and sensing, the last part of an agent's turn: the agent marks
    /// its cell (the home trail unless it carries food, then the food trail)
    /// and senses both fields.
    pub fn mark_and_sense(&mut self, i: usize)
        requires
            old(self).wf(),
            i < old(self).ants.len(),
        ensures
            marked_and_sensed(*old(self), *final(self), i as int),
    {
        assert(self.ants.slot_ok(i as int));
        let trail = if self.ants.state[i] != AntState::Returning {
            Trail::Home
        } else {
            Trail::Food
        };
        let ghost p0 = self.pheromones;
        self.pheromones.deposit(self.ants.position[i], trail);
        proof {
            let w = p0.home.width as int;
            let pos = self.ants.position@[i as int];
            let k0 = cell_of(pos.y as int, p0.home.height as int) * w + cell_of(pos.x as int, w);
            crate::pheromone::lemma_cell_index(
                cell_of(pos.x as int, w),
                cell_of(pos.y as int, p0.home.height as int),
                w,
                p0.home.height as int,
            );
            lemma_unchanged_or_full(p0.home.cells@, k0);
            lemma_unchanged_or_full(p0.food.cells@, k0);
        }
        let (home_angle, food_angle) = ant_rays(
            self.ants.position[i],
            self.ants.heading[i],
            &self.pheromones.home,
            &self.pheromones.food,
        );
        self.ants.set_pheromones_direction(i, home_angle, food_angle);
    }


    /// An agent's whole turn in a tick: capture, claim, arrival, mark and sense.
    fn visit(&mut self, i: usize)
        requires
            old(self).wf(),
            i < old(self).ants.len(),
        ensures
            final(self).wf(),
            final(self).config == old(self).config,
            final(self).ants.len() == old(self).ants.len(),
            final(self).food.food_generated == old(self).food.food_generated,
            no_regress(old(self).food.state@, final(self).food.state@),
            final(self).home.position == old(self).home.position,
            final(self).home.radius == old(self).home.radius,
            old(self).pheromones.home.cells@.len() == final(self).pheromones.home.cells@.len(),
            old(self).pheromones.food.cells@.len() == final(self).pheromones.food.cells@.len(),
            forall|k: int|
                0 <= k < old(self).pheromones.home.cells@.len() ==> #[trigger] final(self).pheromones.home.cells@[k]
                    == old(self).pheromones.home.cells@[k] || final(self).pheromones.home.cells@[k] == FULL,
            forall|k: int|
                0 <= k < old(self).pheromones.food.cells@.len() ==> #[trigger] final(self).pheromones.food.cells@[k]
                    == old(self).pheromones.food.cells@[k] || final(self).pheromones.food.cells@[k] == FULL,
            kept_or_collected(&old(self).food, &final(self).food, far_away(old(self).config)),
            turn_taken(*old(self), *final(self), i as int),
    {
        let ghost s0 = *self;
        self.capture(i);
        let ghost s1 = *self;
        self.claim_nearby(i);
        let ghost s2 = *self;
        self.arrive(i);
        let ghost s3 = *self;
        self.mark_and_sense(i);
        proof {
            assert(captured(s0, s1, i as int) && claimed(s1, s2, i as int) && arrived(s2, s3, i as int)
                && marked_and_sensed(s3, *self, i as int));
            lemma_no_regress_chain(s0.food.state@, s1.food.state@, s2.food.state@);
            lemma_collected_chain(&s0.food, &s1.food, &s2.food, far_away(s0.config));
        }
    }


    /// One tick of `dt` milliseconds: both fields decay; then every agent in
    /// index order captures, claims, arrives, marks and senses; then all agents
    /// move. Food items only move forward in their life cycle, and claims
    /// stay exclusive.
    #[verifier::rlimit(60)]
    pub fn update(&mut self, dt: u64)
        requires
            old(self).wf(),
            dt <= MAX_DT,
        ensures
            final(self).wf(),
            final(self).config == old(self).config,
            final(self).ants.len() == old(self).ants.len(),
            final(self).food.food_generated == old(self).food.food_generated,
            no_regress(old(self).food.state@, final(self).food.state@),
            final(self).home.position == old(self).home.position,
            final(self).home.radius == old(self).home.radius,
            decayed_or_marked(
                old(self).pheromones.home.cells@,
                final(self).pheromones.home.cells@,
                old(self).config.pheromone_decay as int,
            ),
            decayed_or_marked(
                old(self).pheromones.food.cells@,
                final(self).pheromones.food.cells@,
                old(self).config.pheromone_decay as int,
            ),
            kept_or_collected(&old(self).food, &final(self).food, far_away(old(self).config)),
            exists|trace: Seq<MainState>| ticked(*old(self), *final(self), dt as int, trace),
    {
        self.pheromones.decay(self.config.pheromone_decay);
        let ghost rate = self.config.pheromone_decay as int;
        assert(fields_decayed(*old(self), *self));
        let ghost mut trace: Seq<MainState> = seq![*self];
        let n = self.ants.state.len();
        let mut i: usize = 0;
        while i < n
            invariant
                self.wf(),
                self.config == old(self).config,
                n == self.ants.len(),
                n == old(self).ants.len(),
                i <= n,
                self.food.food_generated == old(self).food.food_generated,
                no_regress(old(self).food.state@, self.food.state@),
                self.home.position == old(self).home.position,
                self.home.radius == old(self).home.radius,
                rate == self.config.pheromone_decay,
                decayed_or_marked(old(self).pheromones.home.cells@, self.pheromones.home.cells@, rate),
                decayed_or_marked(old(self).pheromones.food.cells@, self.pheromones.food.cells@, rate),
                kept_or_collected(&old(self).food, &self.food, far_away(self.config)),
                trace.len() == i + 1,
                fields_decayed(*old(self), trace[0]),
                trace[i as int] == *self,
                forall|k: int| 0 <= k < i ==> turn_taken(#[trigger] trace[k], trace[k + 1], k),
            decreases n - i,
        {
            let ghost p0 = self.pheromones;
            let ghost f0 = self.food;
            self.visit(i);
            proof {
                lemma_mark_keeps(old(self).pheromones.home.cells@, p0.home.cells@, self.pheromones.home.cells@, rate);
                lemma_mark_keeps(old(self).pheromones.food.cells@, p0.food.cells@, self.pheromones.food.cells@, rate);
                lemma_collected_chain(&old(self).food, &f0, &self.food, far_away(self.config));
                lemma_no_regress_chain(old(self).food.state@, f0.state@, self.food.state@);
                let ghost prev = trace;
                trace = trace.push(*self);
                assert forall|k: int| 0 <= k < i + 1 implies turn_taken(#[trigger] trace[k], trace[k + 1], k) by {
                    if k < i {
                        assert(trace[k] == prev[k] && trace[k + 1] == prev[k + 1]);
                    }
                }
            }
            i = i + 1;
        }
        let ghost targets = self.ants.target_food_index@;
        let ghost turned = *self;
        self.ants.update(dt);
        assert(self.ants.target_food_index@ == targets);
        assert(all_moved(turned, *self, dt as int));
        assert(ticked(*old(self), *self, dt as int, trace));
    }

}

} // verus!
