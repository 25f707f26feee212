use vstd::prelude::*;

verus! {

/// The direction of a Kagi line.
#[derive(Debug, Clone, Copy, PartialEq, Eq, Structural)]
pub enum KagiDirection {
    Up,
    Down,
}

} // verus!
