//! Core of a terminal snake game: the grid model, directional movement with
//! the anti-reversal rule, self- and wall-collision detection, growth and
//! score bookkeeping, random apple placement, and the time-paced update step.
//!
//! Rendering and keyboard input are kept outside this crate, behind the
//! `Controller` and `Renderer` interfaces.

pub mod game;
pub mod logic;
pub mod map;
mod occupancy;
mod rng;
pub mod state;

pub use game::{Controller, Game, RenderInfo, Renderer};
pub use logic::{Config, Direction, Field, Input, SnakeHead, Vec2};
pub use map::Grid;
pub use state::State;
