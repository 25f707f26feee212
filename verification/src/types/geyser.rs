use vstd::prelude::*;

verus! {

/// A block: its slot, its hash and its UNIX time in seconds.
#[derive(Debug, Clone)]
pub struct BlockInfo {
    pub slot: u64,
    pub blockhash: String,
    pub time: i64,
}

} // verus!
