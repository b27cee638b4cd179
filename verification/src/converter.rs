//! Conversions between the formats of different games.

pub mod ddr2osu;
