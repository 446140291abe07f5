pub mod builder;
pub mod camera;
pub mod generator;
pub mod geometry;
pub mod laws;
pub mod map;
pub mod progress;
pub mod random;
pub mod rooms;
pub mod runner;
pub mod state;
