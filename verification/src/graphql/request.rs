use vstd::prelude::*;

verus! {

/// A GraphQL request: the variables, the query and the operation's name.
pub struct GraphqlRequest<Variables> {
    pub variables: Variables,
    pub query: &'static str,
    pub operation_name: &'static str,
}

} // verus!
