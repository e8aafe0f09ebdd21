//! Simulation core of a planetary arcade shooter: central gravity, collision
//! resolution, the playing / game-over state machine and the timers that gate
//! spawning and firing, all on exact fixed-point arithmetic.

pub mod asteroids;
pub mod cannon_ball;
pub mod common;
pub mod extensions;
pub mod game;
pub mod input;
pub mod player;
pub mod timer;
pub mod ui;
pub mod vector;
pub mod world;
