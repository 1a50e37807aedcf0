//! Decision logic of a gyro mouse: turning controller motion and buttons into
//! cursor movement and clicks, and keeping the controller stream alive.
pub mod backend;
pub mod binary64;
pub mod config;
pub mod engine;
pub mod gyromouse;
pub mod mouse;
pub mod time;
pub mod vector;
