//! Moving through a list that wraps around at its ends.

use vstd::prelude::*;

verus! {

/// The index after `i` in a list of `n` items, wrapping to the first.
pub open spec fn wrap_next(i: int, n: int) -> int {
    (i + 1) % n
}

/// The index before `i` in a list of `n` items, wrapping to the last.
pub open spec fn wrap_prev(i: int, n: int) -> int {
    if i == 0 { n - 1 } else { i - 1 }
}

} // verus!
