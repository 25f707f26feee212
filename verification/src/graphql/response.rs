use vstd::prelude::*;

verus! {

/// A position in a GraphQL query.
#[derive(Debug, Clone, Copy)]
pub struct Location {
    pub line: i32,
    pub column: i32,
}

/// A step of the path to a field of a GraphQL response.
#[derive(Debug, Clone)]
pub enum PathFragment {
    Key(String),
    Index(i32),
}

} // verus!
