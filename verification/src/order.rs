//! What an ordered map needs of the order of its keys.

use vstd::prelude::*;

verus! {

/// Whether the order of `K` is one that an ordered map can rely on: whether
/// comparing two keys always gives what the order of `K` says.
pub open spec fn keys_ordered<K: Ord>() -> bool {
    vstd::laws_cmp::obeys_cmp::<K>()
}

} // verus!
