//! A proof-of-existence claim registry, together with a few small verified
//! helpers (summing with overflow detection, bubble sorting, traffic light
//! timings).

pub mod registry;
pub mod laws;
pub mod summing;
pub mod lights;
pub mod sorting;
