//! Wave banks and the wave files that their sounds are written to.
//!
//! The wave format for ADPCM sound is laid down in the Microsoft Multimedia
//! Standards Update of 15 April 1994.

pub mod adpcm;
pub mod xwb;
