use vstd::prelude::*;

verus! {

/// A value with a position on the x axis.
pub trait X: Clone {
    fn x(&self) -> i64;
}

impl X for i64 {
    /// A number stands at itself.
    fn x(&self) -> (r: i64)
        ensures
            r == *self,
    {
        *self
    }
}

} // verus!
