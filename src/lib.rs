//! Simulation core of a grid-based snake game: the snake's body and movement,
//! the evasive food, the tick coordinator and the high-score table.

pub mod block;
pub mod direction;
pub mod food;
pub mod game;
mod random;
pub mod score;
pub mod snake;
