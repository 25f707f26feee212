use vstd::prelude::*;

verus! {

/// A record without fields.
#[derive(Debug, Clone, Copy)]
pub struct EmptyStruct {}

} // verus!
