//! Tools for the data files of a dance rhythm game: step charts, archives and
//! wave banks are decoded from bytes, and charts are turned into timed hit
//! objects for a beatmap.

pub mod converter;
pub mod ddr;
pub mod mini_parser;
pub mod name_map;
pub mod osu;
pub mod utils;
pub mod xact3;
