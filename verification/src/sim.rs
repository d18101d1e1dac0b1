//! The three execution drivers over the shared program state — the
//! sequential reference, the five-stage in-order pipeline, and the
//! out-of-order scheduler with program-order retirement — together with
//! the proof that the pipeline agrees with the reference on straight-line
//! programs.

pub mod normal;
pub mod in_order;
pub mod out_of_order;
pub mod equivalence;
