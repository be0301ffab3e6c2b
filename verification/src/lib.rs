//! Time-driven wallpaper scheduling: which image a desktop should show at a
//! given time of day, when it changes, and the commands that make a wallpaper
//! daemon follow.

pub mod clock;
pub mod schedule;
pub mod text;
pub mod config;
pub mod protocol;
pub mod scheduler;
pub mod model;
pub mod order;
