//! Ant-colony foraging: agents search for food, carry it back to a nest and
//! recruit nestmates through two decaying pheromone fields.
//!
//! All geometry is fixed-point: one distance unit is `fixed::SCALE` steps,
//! a unit direction vector has length `SCALE`, and a pheromone intensity of
//! one is `pheromone::FULL`.
pub mod fixed;
pub mod pheromone;
pub mod sensing;
pub mod random;
pub mod food;
pub mod home;
pub mod ant;
pub mod sim;
