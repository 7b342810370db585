//! Secret-santa matching: a fixed-point-free random permutation (a
//! derangement) over the participants, redrawn until the per-participant
//! exclusion rules hold, and contiguous chunks of a shuffled theme list
//! handed to each giver.
pub mod derangement;
pub mod errors;
pub mod matcher;
mod rng;
pub mod themes;
