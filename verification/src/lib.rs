//! Verified core of a flop-statistics program: card notation, hand evaluation,
//! preflop range text, and the decision rules used when reading solver trees.

pub mod text;
pub mod unicode_case;
pub mod cards;
pub mod hand_eval;
pub mod debug_run;
pub mod probe;
pub mod csv_out;
