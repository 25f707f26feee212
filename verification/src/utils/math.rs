use vstd::prelude::*;

verus! {

/// Half intervals of indices: the multiples of `n[1] / 2` from 0 up to
/// `original_length`.
pub fn half(n: &[u64], original_length: u64) -> (r: Vec<u64>)
    requires
        n@.len() >= 2,
        n@[1] / 2 > 0,
        original_length / (n@[1] / 2) < u64::MAX,
    ensures
        r@.len() == original_length / (n@[1] / 2) + 1,
        forall|i: int| 0 <= i < r@.len() ==> #[trigger] r@[i] == i * (n@[1] / 2),
{
    crate::math::zscore::half(n, original_length)
}

} // verus!
