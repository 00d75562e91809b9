//! A first-person raycasting engine for character-grid displays.
//!
//! Everything is computed in integer fixed-point arithmetic: lengths, angles and
//! ratios are signed counts of millionths (`fixed::ONE` stands for 1.0).  A
//! frame is produced in three steps: the player is moved (`player`), one ray
//! per screen column is walked through the level grid (`ray`), and the
//! shaded columns are packed into half-block character cells (`frame`).
//! The `engine` holds the level, the player and the size of the screen; the
//! `session` is the game loop around it, as a state machine that leaves the
//! keyboard, the terminal and the clock to its caller.

pub mod engine;
pub mod fixed;
pub mod frame;
pub mod grid;
pub mod player;
pub mod ray;
pub mod session;
pub mod shade;
pub mod text;
pub mod trig;

