//! How large drawing buffers grow.

use vstd::arithmetic::power2::pow2;
use vstd::prelude::*;

verus! {

/// The least number of elements that is worth a buffer.
pub const LEAST_CAPACITY: usize = 1024;

/// Does a buffer of `capacity` suffice for `count` elements without being larger than it has to? Its
/// size is a power of two, so that a window being resized does not need another buffer for every
/// frame.
pub open spec fn suits(capacity: int, count: int) -> bool {
    &&& exists|k: nat| capacity == #[trigger] pow2(k)
    &&& capacity >= count
    &&& capacity >= LEAST_CAPACITY
    &&& capacity == LEAST_CAPACITY || capacity < 2 * count
}

/// The capacity that holds `count` elements: what there is if it suffices, else the next that suits.
pub fn grown_capacity(capacity: usize, count: usize) -> (n: usize)
    requires
        count <= usize::MAX / 2,
    ensures
        count <= capacity ==> n == capacity,
        count > capacity ==> suits(n as int, count as int),
{
    if count <= capacity {
        return capacity;
    }
    let mut n: usize = LEAST_CAPACITY;
    proof {
        vstd::arithmetic::power2::lemma2_to64();
    }
    let ghost mut k: nat = 10;
    while n < count
        invariant
            count <= usize::MAX / 2,
            n == pow2(k),
            n >= LEAST_CAPACITY,
            n == LEAST_CAPACITY || n < 2 * count,
        decreases 2 * count - n,
    {
        proof {
            vstd::arithmetic::power2::lemma_pow2_unfold(k + 1);
            k = k + 1;
        }
        n = n * 2;
    }
    n
}

} // verus!
