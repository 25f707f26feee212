use vstd::prelude::*;

use crate::drift_cpi::AccountType;

verus! {

/// Registry of program account decoders that match a discriminant,
/// such as "User", to a specific account type.
#[derive(Clone, Copy, Debug)]
pub enum ProgramDecoder {
    Drift(AccountType),
}

} // verus!
