//! Simulation core of a grid snake game: headings, edge-detecting input
//! latches, the play area, the snake's movement and growth, food placement
//! and the collision rules that tie them together.

pub mod direction;
pub mod level;
pub mod snake;
pub mod apple;
pub mod world;
pub mod latch;
pub mod game;
pub mod screen;
pub mod render;
pub mod pacing;
