//! The flop debug exporter: strict card notation, range text normalization,
//! solver-tree action rules, and the labels of its exported rows.

pub mod notation;
pub mod ranges;
pub mod tree;
pub mod labels;
pub mod scenarios;
pub mod walk;
pub mod rows;
