//! A toroidal, four-colour variant of Conway's Game of Life whose generations
//! advance on a wall-clock timer.
//!
//! The engine is `game::GameLogic`. Its behaviour is stated over the
//! mathematical model in `torus`, `rules`, `seeding`, `census` and `timing`, and
//! every executable function is proved against that model.

pub mod census;
mod clock;
mod entropy;
pub mod game;
pub mod rules;
pub mod seeding;
pub mod timing;
pub mod torus;
