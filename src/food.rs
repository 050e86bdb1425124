//! The food store: a fixed number of slots, filled by random scatter, each
//! item claimed by at most one agent and collected once.
use vstd::prelude::*;
use rand::rngs::StdRng;
use crate::fixed::{in_range, Vec2, LIMIT};
use crate::random::{draw, seeded, unseeded};

verus! {

/// Number of food slots of a store made by `Food::new`.
pub const TOTAL_FOOD: usize = 10000;

/// Where a food item stands in its life: `Available`, then `Targeted` by one
/// agent, then `Collected` for good.
#[derive(Clone, Copy, Debug, PartialEq, Eq, Structural)]
pub enum FoodState {
    Available,
    Targeted,
    Collected,
}

/// Fixed-capacity food items; an item's index is its handle.
pub struct Food {
    pub position: Vec<Option<Vec2>>,
    pub state: Vec<FoodState>,
    pub food_generated: u32,
    pub rng: StdRng,
}

impl Food {
    /// Slots, states and positions agree; every stored position lies within
    /// the range that distance computations accept.
    pub open spec fn wf(&self) -> bool {
        &&& self.position@.len() == self.state@.len()
        &&& self.food_generated <= self.state@.len()
        &&& self.state@.len() <= u32::MAX
        &&& forall|i: int|
            0 <= i < self.position@.len() && (#[trigger] self.position@[i]) is Some
                ==> in_range(self.position@[i]->0, LIMIT as int / 2)
    }

    /// No slot holds an item yet: every position is none, every state `Available`.
    pub open spec fn is_empty(&self) -> bool {
        forall|k: int|
            0 <= k < self.state@.len() ==> #[trigger] self.position@[k] is None && self.state@[k]
                == FoodState::Available
    }

    pub open spec fn capacity(&self) -> int {
        self.state@.len() as int
    }

    /// An empty store of `TOTAL_FOOD` slots, drawing from an unseeded generator.
    pub fn new() -> (f: Food)
        ensures
            f.wf(),
            f.capacity() == TOTAL_FOOD,
            f.food_generated == 0,
            f.is_empty(),
    {
        Food::empty(TOTAL_FOOD, unseeded())
    }

    /// An empty store of `capacity` slots whose scatter is fixed by `seed`.
    pub fn with_seed(capacity: usize, seed: u64) -> (f: Food)
        requires
            capacity <= u32::MAX,
        ensures
            f.wf(),
            f.capacity() == capacity,
            f.food_generated == 0,
            f.is_empty(),
    {
        Food::empty(capacity, seeded(seed))
    }

    fn empty(capacity: usize, rng: StdRng) -> (f: Food)
        requires
            capacity <= u32::MAX,
        ensures
            f.wf(),
            f.capacity() == capacity,
            f.food_generated == 0,
            f.is_empty(),
    {
        let mut position: Vec<Option<Vec2>> = Vec::new();
        let mut state: Vec<FoodState> = Vec::new();
        let mut i: usize = 0;
        while i < capacity
            invariant
                i <= capacity,
                position@.len() == i,
                state@.len() == i,
                forall|j: int| 0 <= j < i ==> (#[trigger] position@[j]) is None,
                forall|j: int| 0 <= j < i ==> #[trigger] state@[j] == FoodState::Available,
            decreases capacity - i,
        {
            position.push(None);
            state.push(FoodState::Available);
            i = i + 1;
        }
        Food { position, state, food_generated: 0, rng }
    }

    /// Places `food` new items at independent random points of the rectangle
    /// `[bottom_left, top_right)`, each `Available`, after those placed so far.
    pub fn add_food(&mut self, bottom_left: Vec2, top_right: Vec2, food: u32)
        requires
            old(self).wf(),
            old(self).food_generated + food <= old(self).capacity(),
            food > 0 ==> bottom_left.x < top_right.x && bottom_left.y < top_right.y,
            in_range(bottom_left, LIMIT as int / 2),
            in_range(top_right, LIMIT as int / 2),
        ensures
            final(self).wf(),
            final(self).capacity() == old(self).capacity(),
            final(self).food_generated == old(self).food_generated + food,
            forall|i: int|
                0 <= i < old(self).capacity() && !(old(self).food_generated <= i
                    < final(self).food_generated) ==> final(self).position@[i] == old(
                    self,
                ).position@[i] && final(self).state@[i] == old(self).state@[i],
            forall|i: int|
                old(self).food_generated <= i < final(self).food_generated ==> {
                    &&& final(self).state@[i] == FoodState::Available
                    &&& final(self).position@[i] is Some
                    &&& bottom_left.x <= final(self).position@[i]->0.x < top_right.x
                    &&& bottom_left.y <= final(self).position@[i]->0.y < top_right.y
                },
    {
        let start = self.food_generated;
        let end = self.food_generated + food;
        let mut i = start;
        while i < end
            invariant
                self.wf(),
                start == old(self).food_generated,
                end == start + food,
                end <= self.capacity(),
                self.capacity() == old(self).capacity(),
                old(self).wf(),
                self.position@.len() == old(self).position@.len(),
                in_range(bottom_left, LIMIT as int / 2),
                in_range(top_right, LIMIT as int / 2),
                i < end ==> bottom_left.x < top_right.x && bottom_left.y < top_right.y,
                self.food_generated == start,
                start <= i <= end,
                forall|k: int|
                    0 <= k < old(self).capacity() && !(start <= k < i) ==> self.position@[k]
                        == old(self).position@[k] && self.state@[k] == old(self).state@[k],
                forall|k: int|
                    start <= k < i ==> {
                        &&& self.state@[k] == FoodState::Available
                        &&& self.position@[k] is Some
                        &&& bottom_left.x <= self.position@[k]->0.x < top_right.x
                        &&& bottom_left.y <= self.position@[k]->0.y < top_right.y
                    },
            decreases end - i,
        {
            let x = draw(&mut self.rng, bottom_left.x, top_right.x);
            let y = draw(&mut self.rng, bottom_left.y, top_right.y);
            self.position.set(i as usize, Some(Vec2 { x, y }));
            self.state.set(i as usize, FoodState::Available);
            i = i + 1;
        }
        self.food_generated = end;
    }

    /// Claims item `j` for one agent: moves it from `Available` to `Targeted`
    /// and returns true; any other item is left as it is, and false returned.
    pub fn claim(&mut self, j: usize) -> (claimed: bool)
        requires
            old(self).wf(),
            j < old(self).capacity(),
        ensures
            final(self).wf(),
            final(self).position == old(self).position,
            final(self).food_generated == old(self).food_generated,
            claimed == (old(self).state@[j as int] == FoodState::Available),
            final(self).state@ == if claimed {
                old(self).state@.update(j as int, FoodState::Targeted)
            } else {
                old(self).state@
            },
    {
        if self.state[j] == FoodState::Available {
            self.state.set(j, FoodState::Targeted);
            true
        } else {
            false
        }
    }

    /// Marks item `j` collected and moves it to `far_away`, a point outside the
    /// field kept only for display.
    pub fn collect(&mut self, j: usize, far_away: Vec2)
        requires
            old(self).wf(),
            j < old(self).capacity(),
            in_range(far_away, LIMIT as int / 2),
        ensures
            final(self).wf(),
            final(self).food_generated == old(self).food_generated,
            final(self).state@ == old(self).state@.update(j as int, FoodState::Collected),
            final(self).position@ == old(self).position@.update(j as int, Some(far_away)),
    {
        self.state.set(j, FoodState::Collected);
        self.position.set(j, Some(far_away));
    }
}

} // verus!
