//! Beatmaps, the step charts of another rhythm game.

pub mod beatmap;
pub mod types;
