//! Map-layout records: the per-game record-type discriminants and the plain
//! record shapes of the map studio format. The heavier record decoders print
//! human-readable summaries only and live with the binary; the discriminant
//! tables here are the format's stable surface.

pub mod event;
pub mod model;
pub mod parts;
pub mod point;
pub mod route;

use vstd::prelude::*;

verus! {

/// Failure of decoding one map-layout record.
#[derive(Clone, Copy, Debug, PartialEq, Eq, Structural)]
pub enum MsbError {
    /// A record's bytes are shorter than, or misaligned for, its layout.
    UnalignedValue,
    /// An event record names a type id with no known data layout.
    UnknownEventDataType(i32),
    /// A parts record names a type id with no known data layout.
    UnknownPartDataType(i32),
    /// A point record names a type id with no known data layout.
    UnknownPointDataType(i32),
}

} // verus!
