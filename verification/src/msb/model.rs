//! Model records: type discriminants.

use vstd::prelude::*;

verus! {

/// A model record's type discriminant: none are known yet,
/// so every id maps to the explicit unknown variant.
#[derive(Copy, Clone, Debug, PartialEq, Eq, Structural)]
pub enum ModelType {
    Unknown,
}

} // verus!
