//! Camera-relative movement for a third-person player, and the world it walks
//! in, on fixed-point numbers.
//!
//! Every number is a whole number of millionths: a length in millionths of a
//! unit, a time in millionths of a second, a speed in millionths of a unit a
//! second. `vector::ONE` stands for 1.
//!
//! Each frame, `player::player_movement` reads which of the steering keys are
//! down, adds up the camera's axes for the directions they ask for, lays the
//! sum flat, and carries the player along it by the distance covered at its
//! speed. `laws` states what holds of every such frame.

pub mod camera;
pub mod input;
pub mod laws;
pub mod lengths;
pub mod player;
pub mod root;
pub mod scene;
pub mod vector;
pub mod world;
