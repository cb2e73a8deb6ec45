//! Chord-symbol parsing, circle-of-fifths key search and scale-degree
//! labelling over the twelve-tone cyclic group of pitch classes.

pub mod pitch;
pub mod quality;
pub mod text;
pub mod parser;
pub mod depth;
pub mod interval;
pub mod analysis;
pub mod session;
