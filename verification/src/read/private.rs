//! The seal that keeps the set of byte sources closed.

use vstd::prelude::*;

verus! {

/// Implemented only by the byte sources of this library.
pub trait Sealed {

}

} // verus!
