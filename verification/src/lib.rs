//! Comparison of the phoneme sequences that two text-to-phoneme pipelines
//! produce for the same sentence.

pub mod aligned;
pub mod boundary;
pub mod counters;
pub mod labels;
pub mod policy;
pub mod render;
pub mod run;
pub mod segment;
pub mod text;
pub mod verdict;
