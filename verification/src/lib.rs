//! Robust weighted-batch summaries: per-dimension mean, deviation and three
//! weighted order statistics, plus normalized "typical point" weights derived
//! from a clustering collaborator's output.
//!
//! Scalar samples are IEEE 754 binary32 / binary64 values carried by their bit
//! patterns (`u32` / `u64`), so that every comparison and every selection
//! decision is ordinary integer logic.  The rounding arithmetic itself is
//! delegated to software float routines behind narrow trusted wrappers.

pub mod bits;
pub mod config;
pub mod errors;
pub mod softfp;
pub mod sorting;
pub mod summary;
pub mod typical;
