//! Point records: per-game point-type discriminants.

pub mod nightreign;
