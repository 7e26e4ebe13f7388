//! What the contracts of this crate are stated over.

use vstd::prelude::*;

verus! {

/// The views of the items of a sequence, in order.
pub open spec fn views<T: View>(s: Seq<T>) -> Seq<T::V> {
    Seq::new(s.len(), |i: int| s[i]@)
}

} // verus!
