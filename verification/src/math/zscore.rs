use vstd::prelude::*;

verus! {

/// Half intervals of indices: the multiples of `n[1] / 2` from 0 up to
/// `original_length`.
pub fn half(n: &[u64], original_length: u64) -> (r: Vec<u64>)
    requires
        n@.len() >= 2,
        n@[1] / 2 > 0,
        original_length / (n@[1] / 2) < u64::MAX,
    ensures
        r@.len() == original_length / (n@[1] / 2) + 1,
        forall|i: int| 0 <= i < r@.len() ==> #[trigger] r@[i] == i * (n@[1] / 2),
{
    let previous_step: u64 = n[1];
    let next_step: u64 = previous_step / 2;
    let length: u64 = original_length / next_step;
    let mut result: Vec<u64> = Vec::new();
    let mut a: u64 = 0;
    proof {
        assert(length * next_step <= original_length) by (nonlinear_arith)
            requires
                length == original_length / next_step,
                next_step > 0,
        ;
    }
    while a <= length
        invariant
            next_step == n@[1] / 2,
            next_step > 0,
            length == original_length / next_step,
            length < u64::MAX,
            length * next_step <= original_length,
            a <= length + 1,
            result@.len() == a,
            forall|i: int| 0 <= i < a ==> #[trigger] result@[i] == i * next_step,
        decreases length + 1 - a,
    {
        proof {
            assert(a * next_step <= length * next_step) by (nonlinear_arith)
                requires
                    a <= length,
            ;
        }
        result.push(a * next_step);
        a = a + 1;
    }
    result
}

} // verus!
