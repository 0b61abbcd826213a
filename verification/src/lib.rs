//! Polygenic risk scoring of one sample's variant records against a table of
//! per-variant effect weights.
//!
//! Every line of a variant file is classified on its own: a header, a record
//! that adds nothing, or a record that matches a weight and adds a hit. The
//! classifications are folded into a tally whose combine operation is
//! associative and has an identity, so the work can be partitioned freely.
//!
//! Weights are single-precision numbers that this crate carries as bit
//! patterns and never computes with: a tally lists the hits, and the caller
//! sums weight times dosage over them.

pub mod chromosome;
pub mod input;
pub mod laws;
pub mod record;
pub mod score;
pub mod tally;
pub mod text;
pub mod weights;
