//! Cleaning of multilingual text corpora.
//!
//! A [`patterns::PatternSet`] holds removal patterns and an ordered list of substitution
//! rules. A line that any removal pattern matches is dropped; every other line
//! is rewritten by the substitution rules, one after the other.

pub mod engine;
pub mod jobs;
pub mod laws;
pub mod line;
pub mod model;
pub mod patterns;
pub mod pipeline;
pub mod scan;
pub mod text;
