//! Parts records: per-game part-type discriminants.

pub mod elden_ring;
