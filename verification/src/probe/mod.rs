//! The stat probe: reading spots from rows of text, choosing their preflop ranges,
//! pot sizes and bet sizes.

pub mod notation;
pub mod ranges;
pub mod spots;
pub mod sample;
pub mod screen;
pub mod tally;
pub mod input_file;
