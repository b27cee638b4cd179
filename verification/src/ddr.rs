//! The formats of the arcade game's data files.

pub mod arc;
pub mod musicdb;
pub mod ssq;
