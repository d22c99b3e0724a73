//! Route records: type discriminants.

use vstd::prelude::*;

verus! {

/// A route record's type discriminant: none are known yet,
/// so every id maps to the explicit unknown variant.
#[derive(Copy, Clone, Debug, PartialEq, Eq, Structural)]
pub enum RouteType {
    Unknown,
}

} // verus!
