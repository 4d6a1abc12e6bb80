use vstd::prelude::*;

verus! {

/// Returned when a variable-output hasher cannot produce the requested
/// number of bytes (always the case for zero).
#[derive(Clone, Copy, Debug, PartialEq, Eq, Structural)]
pub struct InvalidOutputSize;

} // verus!
