//! Whether a type's `<` follows its specified comparison.

use vstd::prelude::*;
use vstd::std_specs::cmp::PartialOrdSpec;

verus! {

/// The type's comparison operators agree with its specified ordering
/// (true of the integer types).
pub open spec fn obeys_order<T: PartialOrd>() -> bool {
    T::obeys_partial_cmp_spec()
}

} // verus!
