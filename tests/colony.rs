use ant_colony::ant::{steer, Ant, AntState, Cues, Motion, Tuning};
use ant_colony::fixed::{clamp_magnitude, distance, isqrt, length, normalize, Vec2, SCALE};
use ant_colony::food::{Food, FoodState};
use ant_colony::home::Home;
use ant_colony::pheromone::{Grid, PheromoneField, Trail, FULL};
use ant_colony::sensing::{ant_rays, index_calculator, SampleBox};
use ant_colony::sim::{Config, MainState};

fn v(x: i64, y: i64) -> Vec2 {
    Vec2 { x, y }
}

fn small_config() -> Config {
    Config {
        width: 200,
        height: 200,
        total_ants: 1,
        total_food: 1,
        home_radius: 10 * SCALE,
        ant_vision: 150 * SCALE,
        pheromone_decay: 9,
    }
}

#[test]
fn integer_square_root_rounds_down() {
    assert_eq!(isqrt(0), 0);
    assert_eq!(isqrt(24), 4);
    assert_eq!(isqrt(25), 5);
    assert_eq!(isqrt(u64::MAX), 4294967295);
    assert_eq!(length(v(3000, -4000)), 5000);
}

#[test]
fn normalize_gives_unit_length_or_none() {
    assert_eq!(normalize(v(0, 0)), None);
    assert_eq!(normalize(v(30, 40)), Some(v(600, 800)));
    assert_eq!(normalize(v(-7, 0)), Some(v(-SCALE, 0)));
}

#[test]
fn clamp_magnitude_limits_length_only() {
    assert_eq!(clamp_magnitude(v(3, 4), 10), v(3, 4));
    assert_eq!(clamp_magnitude(v(30, -40), 10), v(6, -8));
}

#[test]
fn decay_floors_at_zero() {
    let mut g = Grid::new(3, 1);
    g.mark(0, 0);
    g.cells[1] = 5;
    g.decay(9);
    assert_eq!(g.get(0, 0), FULL - 9);
    assert_eq!(g.get(1, 0), 0);
    assert_eq!(g.get(2, 0), 0);
}

#[test]
fn all_zero_grid_stays_zero_after_decay() {
    let mut f = PheromoneField::new(10, 10);
    f.decay(9);
    assert!(f.home.cells.iter().all(|c| *c == 0));
    assert!(f.food.cells.iter().all(|c| *c == 0));
}

#[test]
fn full_cell_reaches_zero_after_ten_decays_of_a_tenth() {
    let mut g = Grid::new(10, 10);
    g.mark(4, 7);
    for _ in 0..9 {
        g.decay(FULL / 10);
    }
    assert_eq!(g.get(4, 7), FULL / 10);
    g.decay(FULL / 10);
    assert_eq!(g.get(4, 7), 0);
    g.decay(FULL / 10);
    assert_eq!(g.get(4, 7), 0);
}

#[test]
fn deposit_sets_full_whatever_the_cell_held() {
    let mut f = PheromoneField::new(20, 10);
    f.deposit(v(3500, 2200), Trail::Home);
    assert_eq!(f.home.get(3, 2), FULL);
    f.home.decay(400);
    f.deposit(v(3999, 2001), Trail::Home);
    assert_eq!(f.home.get(3, 2), FULL);
    assert_eq!(f.food.get(3, 2), 0);
    f.deposit(v(-5000, 99000), Trail::Food);
    assert_eq!(f.food.get(0, 9), FULL);
}

#[test]
fn set_food_target_only_from_foraging() {
    let mut a = Ant::with_seed(100, 100, 2, 7);
    a.set_food_target(0, v(80 * SCALE, 50 * SCALE), 3);
    assert_eq!(a.state[0], AntState::ToFood);
    assert_eq!(a.target_food_index[0], Some(3));
    assert_eq!(a.target_food_position[0], Some(v(80 * SCALE, 50 * SCALE)));
    assert_eq!(a.desired_direction[0], v(SCALE, 0));
    a.set_food_target(0, v(10 * SCALE, 10 * SCALE), 9);
    assert_eq!(a.state[0], AntState::ToFood);
    assert_eq!(a.target_food_index[0], Some(3));
    a.set_state(1, AntState::Returning);
    a.set_food_target(1, v(10 * SCALE, 10 * SCALE), 9);
    assert_eq!(a.state[1], AntState::Returning);
    assert_eq!(a.target_food_index[1], None);
}

#[test]
fn food_acquired_within_capture_radius() {
    let mut a = Ant::with_seed(100, 100, 1, 1);
    assert!(!a.food_acquired(0));
    let p = a.position[0];
    a.set_food_target(0, v(p.x + 4999, p.y), 0);
    assert!(a.food_acquired(0));
    let mut b = Ant::with_seed(100, 100, 1, 1);
    b.set_food_target(0, v(p.x + 5000, p.y), 0);
    assert!(!b.food_acquired(0));
    let mut c = Ant::with_seed(100, 100, 1, 1);
    c.set_food_target(0, p, 0);
    assert!(c.food_acquired(0));
}

#[test]
fn sense_is_none_on_empty_fields() {
    let home = Grid::new(100, 100);
    let food = Grid::new(100, 100);
    assert_eq!(ant_rays(v(50 * SCALE, 50 * SCALE), v(SCALE, 0), &home, &food), (None, None));
}

#[test]
fn sense_picks_the_box_with_pheromone() {
    let mut home = Grid::new(100, 100);
    let food = Grid::new(100, 100);
    // straight ahead of (50, 50) facing +x: box [70, 90) x [50, 70)
    home.mark(75, 55);
    let (h, f) = ant_rays(v(50 * SCALE, 50 * SCALE), v(SCALE, 0), &home, &food);
    assert_eq!(h, Some(v(SCALE, 0)));
    assert_eq!(f, None);
}

#[test]
fn index_calculator_prefers_first_of_equal_scores() {
    let mut g = Grid::new(10, 10);
    g.mark(1, 1);
    g.mark(5, 5);
    let boxes = vec![
        SampleBox { x0: 0, y0: 0, x1: 1000, y1: 1000 },
        SampleBox { x0: 1000, y0: 1000, x1: 2000, y1: 2000 },
        SampleBox { x0: 5000, y0: 5000, x1: 6000, y1: 6000 },
    ];
    assert_eq!(index_calculator(&boxes, &g), (1, FULL as i64));
    assert_eq!(index_calculator(&vec![], &g), (0, -1));
    let outside = vec![SampleBox { x0: 50000, y0: 0, x1: 60000, y1: 1000 }];
    assert_eq!(index_calculator(&outside, &g), (0, 0));
}

#[test]
fn add_food_places_items_inside_the_rectangle() {
    let mut f = Food::with_seed(20, 5);
    f.add_food(v(1000, 2000), v(3000, 2500), 12);
    assert_eq!(f.food_generated, 12);
    for i in 0..12 {
        let p = f.position[i].unwrap();
        assert!(p.x >= 1000 && p.x < 3000 && p.y >= 2000 && p.y < 2500);
        assert_eq!(f.state[i], FoodState::Available);
    }
    assert!(f.position[12].is_none());
    let first = f.position[0];
    assert!((1..12).any(|i| f.position[i] != first));
}

#[test]
fn claim_succeeds_once() {
    let mut f = Food::with_seed(2, 5);
    f.add_food(v(0, 0), v(10, 10), 2);
    assert!(f.claim(1));
    assert!(!f.claim(1));
    assert_eq!(f.state[1], FoodState::Targeted);
    assert_eq!(f.state[0], FoodState::Available);
}

#[test]
fn spawn_points_lie_on_the_ring() {
    let mut h = Home::with_seed(v(500 * SCALE, 300 * SCALE), 50 * SCALE, 11);
    for _ in 0..20 {
        let (p, d) = h.generate_starting_position();
        let dx = (p.x - 500 * SCALE) as f64;
        let dy = (p.y - 300 * SCALE) as f64;
        let r = (dx * dx + dy * dy).sqrt();
        assert!((r - 55000.0).abs() < 200.0);
        let heading = ((d.x * d.x + d.y * d.y) as f64).sqrt();
        assert!((heading - 1000.0).abs() < 5.0);
        assert!(!h.touching_home(p));
    }
    assert!(h.touching_home(v(550 * SCALE, 300 * SCALE)));
    assert!(!h.touching_home(v(550 * SCALE + 1, 300 * SCALE)));
}

fn tuning() -> Tuning {
    Tuning {
        max_speed: 50 * SCALE,
        steer_strength: 100,
        wander_strength: 100,
        width: 1500 * SCALE,
        height: 900 * SCALE,
        nest: v(750 * SCALE, 450 * SCALE),
    }
}

#[test]
fn crossing_the_width_reflects_velocity_and_direction() {
    let m = Motion {
        position: v(1501 * SCALE, 400 * SCALE),
        velocity: v(20 * SCALE, 0),
        desired_direction: v(SCALE, 0),
        heading: v(SCALE, 0),
    };
    let c = Cues { state: AntState::Foraging, home_direction: None, food_direction: Some(v(SCALE, 0)), target: None };
    let r = steer(m, c, tuning(), v(0, 0), 0);
    assert_eq!(r.position, m.position);
    assert_eq!(r.velocity, v(-20 * SCALE, 0));
    assert_eq!(r.desired_direction, v(-SCALE, 0));
    assert_eq!(r.heading, v(-SCALE, 0));
}

#[test]
fn steering_accelerates_toward_target() {
    let m = Motion {
        position: v(100 * SCALE, 100 * SCALE),
        velocity: v(0, 0),
        desired_direction: v(SCALE, 0),
        heading: v(SCALE, 0),
    };
    let c = Cues { state: AntState::ToFood, home_direction: None, food_direction: None, target: Some(v(100 * SCALE, 200 * SCALE)) };
    let r = steer(m, c, tuning(), v(0, 0), 100);
    // force 100 units/s^2 straight down for 0.1 s: 10 units/s, then 1 unit moved
    assert_eq!(r.desired_direction, v(0, SCALE));
    assert_eq!(r.velocity, v(0, 10 * SCALE));
    assert_eq!(r.position, v(100 * SCALE, 101 * SCALE));
    assert_eq!(r.heading, v(0, SCALE));
}

#[test]
fn foraging_agent_claims_visible_food() {
    let mut s = MainState::new(small_config(), 3);
    s.ants.position[0] = v(20 * SCALE, 20 * SCALE);
    s.food.position[0] = Some(v(50 * SCALE, 60 * SCALE));
    s.food.food_generated = 1;
    s.update(16);
    assert_eq!(s.ants.state[0], AntState::ToFood);
    assert_eq!(s.food.state[0], FoodState::Targeted);
    assert_eq!(s.ants.target_food_index[0], Some(0));
}

#[test]
fn reaching_food_turns_the_agent_home() {
    let mut s = MainState::new(small_config(), 3);
    let p = v(20 * SCALE, 20 * SCALE);
    s.ants.position[0] = p;
    s.ants.velocity[0] = v(3 * SCALE, 4 * SCALE);
    s.food.position[0] = Some(p);
    s.food.food_generated = 1;
    assert!(s.food.claim(0));
    s.ants.set_food_target(0, p, 0);
    assert!(s.ants.food_acquired(0));
    s.update(0);
    assert_eq!(s.ants.state[0], AntState::Returning);
    assert_eq!(s.ants.velocity[0], v(-3 * SCALE, -4 * SCALE));
    assert_eq!(s.food.state[0], FoodState::Collected);
    assert_eq!(s.food.position[0], Some(v(2200 * SCALE, 2200 * SCALE)));
    assert_eq!(s.ants.target_food_index[0], None);
    assert_eq!(s.pheromones.food.get(20, 20), FULL);
}

#[test]
fn returning_agent_in_the_nest_forages_again() {
    let mut s = MainState::new(small_config(), 4);
    s.ants.set_state(0, AntState::Returning);
    s.ants.velocity[0] = v(SCALE, 0);
    s.update(0);
    assert_eq!(s.ants.state[0], AntState::Foraging);
    assert_eq!(s.ants.velocity[0], v(-SCALE, 0));
    assert_eq!(s.pheromones.home.get(100, 100), FULL);
}

#[test]
fn initialization_spawns_and_scatters() {
    let mut s = MainState::new(Config::standard(), 9);
    s.initilize_positions();
    assert_eq!(s.food.food_generated, 10000);
    let p = s.ants.position[0];
    let dx = (p.x - 750 * SCALE) as f64;
    let dy = (p.y - 450 * SCALE) as f64;
    assert!(((dx * dx + dy * dy).sqrt() - 55000.0).abs() < 200.0);
    let f = s.food.position[9999].unwrap();
    assert!(f.x >= 50 * SCALE && f.x < 1450 * SCALE && f.y >= 50 * SCALE && f.y < 100 * SCALE);
}

#[test]
fn distance_rounds_down() {
    assert_eq!(distance(v(0, 0), v(3000, 4000)), 5000);
    assert_eq!(distance(v(0, 0), v(1, 1)), 1);
    assert_eq!(distance(v(-2, 0), v(2, 0)), 4);
}

#[test]
fn sensed_directions_are_stored_as_unit_vectors() {
    let mut a = Ant::with_seed(100, 100, 1, 2);
    a.set_pheromones_direction(0, Some(v(0, -250)), None);
    assert_eq!(a.home_pheromones_direction[0], Some(v(0, -SCALE)));
    assert_eq!(a.food_pheromones_direction[0], None);
    a.set_pheromones_direction(0, None, Some(v(0, 0)));
    assert_eq!(a.home_pheromones_direction[0], None);
    assert_eq!(a.food_pheromones_direction[0], None);
}

#[test]
fn antiparallel_negates_velocity() {
    let mut a = Ant::with_seed(100, 100, 2, 2);
    a.velocity[1] = v(7, -9);
    a.set_antiparallel(1);
    assert_eq!(a.velocity[1], v(-7, 9));
    assert_eq!(a.velocity[0], v(SCALE, 0));
}

#[test]
fn initialize_sets_position_heading_and_speed() {
    let mut a = Ant::with_seed(100, 100, 2, 2);
    a.initialize(&[(v(1000, 2000), v(0, SCALE)), (v(3000, 4000), v(-SCALE, 0))]);
    assert_eq!(a.position[1], v(3000, 4000));
    assert_eq!(a.velocity[0], v(0, 50 * SCALE));
    assert_eq!(a.desired_direction[1], v(-SCALE, 0));
    assert_eq!(a.heading[1], v(-SCALE, 0));
}

#[test]
fn update_moves_every_agent_within_top_speed() {
    let mut a = Ant::with_seed(100, 100, 50, 5);
    for _ in 0..30 {
        a.update(16);
    }
    for i in 0..50 {
        let s = a.velocity[i];
        assert!(s.x * s.x + s.y * s.y <= 50 * SCALE * 50 * SCALE);
        assert_eq!(a.state[i], AntState::Foraging);
    }
    assert!((0..50).any(|i| a.position[i] != v(50 * SCALE, 50 * SCALE)));
}

#[test]
fn unseeded_constructors_work() {
    let a = Ant::new(1500, 900);
    assert_eq!(a.state.len(), 1000);
    assert_eq!(a.position[0], v(750 * SCALE, 450 * SCALE));
    let f = Food::new();
    assert_eq!(f.state.len(), 10000);
    assert_eq!(f.food_generated, 0);
    let mut h = Home::new(v(0, 0), 50 * SCALE);
    let (p, _) = h.generate_starting_position();
    assert!(!h.touching_home(p));
}

#[test]
fn a_full_tick_runs_on_the_standard_world() {
    let mut s = MainState::new(Config::standard(), 1);
    s.initilize_positions();
    s.update(16);
    s.update(16);
    let marked = s.pheromones.home.cells.iter().filter(|c| **c > 0).count();
    assert!(marked > 0);
    assert!(s.food.state.iter().all(|st| *st != FoodState::Collected));
}

#[test]
fn two_agents_in_sight_of_one_item_only_first_claims() {
    let config = Config { total_ants: 2, ..small_config() };
    let mut s = MainState::new(config, 8);
    s.ants.position[0] = v(20 * SCALE, 20 * SCALE);
    s.ants.position[1] = v(30 * SCALE, 20 * SCALE);
    s.food.position[0] = Some(v(25 * SCALE, 40 * SCALE));
    s.food.food_generated = 1;
    s.update(16);
    assert_eq!(s.ants.state[0], AntState::ToFood);
    assert_eq!(s.ants.target_food_index[0], Some(0));
    assert_eq!(s.ants.state[1], AntState::Foraging);
    assert_eq!(s.ants.target_food_index[1], None);
    assert_eq!(s.food.state[0], FoodState::Targeted);
}

#[test]
fn decay_by_rate_over_several_ticks() {
    let mut g = Grid::new(2, 1);
    g.mark(0, 0);
    g.cells[1] = 20;
    for _ in 0..3 {
        g.decay(9);
    }
    assert_eq!(g.get(0, 0), FULL - 27);
    assert_eq!(g.get(1, 0), 0);
}

#[test]
fn standard_config_values() {
    let c = Config::standard();
    assert_eq!((c.width, c.height), (1500, 900));
    assert_eq!((c.total_ants, c.total_food), (1000, 10000));
    assert_eq!(c.home_radius, 50 * SCALE);
    assert_eq!(c.ant_vision, 150 * SCALE);
    assert_eq!(c.pheromone_decay, 9);
}

#[test]
fn clamp_magnitude_never_exceeds_the_bound() {
    assert_eq!(clamp_magnitude(v(3, 3), 4), v(2, 2));
    assert_eq!(clamp_magnitude(v(-7, 7), 9), v(-6, 6));
    let r = clamp_magnitude(v(123456, -98765), 1000);
    assert!(r.x * r.x + r.y * r.y <= 1000 * 1000);
}

#[test]
fn fresh_food_store_is_empty() {
    let f = Food::with_seed(5, 1);
    assert!(f.position.iter().all(|p| p.is_none()));
    assert!(f.state.iter().all(|s| *s == FoodState::Available));
    let mut g = Food::with_seed(3, 1);
    g.add_food(v(10, 10), v(10, 10), 0);
    assert_eq!(g.food_generated, 0);
}

#[test]
fn small_world_decays_to_zero_in_one_tick() {
    let config = Config { width: 10, height: 10, total_ants: 0, total_food: 0, ..small_config() };
    let mut s = MainState::new(config, 2);
    s.update(16);
    assert!(s.pheromones.home.cells.iter().all(|c| *c == 0));
    assert!(s.pheromones.food.cells.iter().all(|c| *c == 0));
}

#[test]
fn fresh_agent_crossing_the_window_edge_turns_back() {
    let mut a = Ant::new(80, 100);
    a.set_pheromones_direction(0, None, Some(v(SCALE, 0)));
    a.update(1000);
    assert_eq!(a.desired_direction[0], v(-SCALE, 0));
    assert!(a.velocity[0].x < 0);
    assert_eq!(a.velocity[0].y, 0);
    assert!(a.position[0].x > 80 * SCALE);
    assert_eq!(a.position[0].y, 50 * SCALE);
    assert_eq!(a.position[0].x, 40 * SCALE - a.velocity[0].x);
    assert_eq!(a.state[0], AntState::Foraging);
}

#[test]
fn initialize_accepts_a_longer_slice() {
    let mut a = Ant::with_seed(100, 100, 1, 2);
    a.initialize(&[(v(1000, 2000), v(0, SCALE)), (v(3000, 4000), v(-SCALE, 0))]);
    assert_eq!(a.position[0], v(1000, 2000));
    assert_eq!(a.position.len(), 1);
}
