use vstd::prelude::*;

verus! {

/// A strategy that never trades.
#[derive(Debug, Clone, Copy, Default)]
pub struct EmptyStrategy;

impl EmptyStrategy {
    pub fn new() -> (r: Self)
        ensures
            r == EmptyStrategy,
    {
        Self
    }
}

} // verus!
