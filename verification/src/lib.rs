//! A deterministic, tick-driven simulation engine for a grid-based snake
//! game on a toroidal board.
//!
//! The engine owns the playfield, the snake's body, movement, collision
//! detection, reward placement, and win/loss determination.  A thin
//! rendering/input layer drives it by calling [`World::step`] once per tick
//! and [`World::change_snake_direction`] on input events; randomness for
//! reward placement is injected through the [`RandomSource`] capability.

pub mod grid;
pub mod rng;
pub mod world;

pub use grid::next_cell;
pub use grid::Direction;
pub use rng::RandomSource;
pub use rng::ScriptedSource;
pub use rng::XorShiftSource;
pub use world::GameState;
pub use world::Snake;
pub use world::SnakeCell;
pub use world::World;
