use vstd::prelude::*;

verus! {

/// Error type for operations that never actually fail.
///
/// Verus requires every datatype to be inhabited, so the type carries one
/// nominal variant; no function of this library ever constructs it.
#[derive(Debug, PartialEq, Eq)]
pub enum Void {
    Absurd,
}

} // verus!
