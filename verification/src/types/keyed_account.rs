use vstd::prelude::*;

use crate::drift_cpi::Pubkey;

verus! {

/// An account as the chain holds it.
#[derive(Clone, Debug, PartialEq, Eq, Default)]
pub struct Account {
    /// Lamports in the account
    pub lamports: u64,
    /// Data held in this account
    pub data: Vec<u8>,
    /// The program that owns this account
    pub owner: Pubkey,
    /// This account's data contains a loaded program
    pub executable: bool,
    /// The epoch at which this account will next owe rent
    pub rent_epoch: u64,
}

/// An account with its address and the slot it was seen at.
#[derive(Clone)]
pub struct AcctCtx {
    pub key: Pubkey,
    pub account: Account,
    pub slot: u64,
}

/// An account with its address, its slot and its decoded contents.
#[derive(Clone)]
pub struct DecodedAcctCtx<T: Clone> {
    pub key: Pubkey,
    pub account: Account,
    pub slot: u64,
    pub decoded: T,
}

/// The accounts that a lookup of `keys` found, each with its address and
/// the slot of the lookup; the addresses found nothing at are left out.
pub open spec fn fetched(keys: Seq<Pubkey>, accounts: Seq<Option<Account>>, slot: u64) -> Seq<AcctCtx>
    decreases accounts.len(),
{
    if accounts.len() == 0 {
        Seq::empty()
    } else {
        let prev = fetched(keys, accounts.drop_last(), slot);
        match accounts.last() {
            Some(a) => prev.push(AcctCtx { key: keys[accounts.len() - 1], account: a, slot }),
            None => prev,
        }
    }
}

/// Pairs the results of looking up `keys` (one per key, in order, at
/// `slot`) with their addresses, leaving out the addresses that hold no
/// account.
pub fn fetched_accounts(keys: &[Pubkey], accounts: Vec<Option<Account>>, slot: u64) -> (r: Vec<AcctCtx>)
    requires
        accounts@.len() <= keys@.len(),
    ensures
        r@ == fetched(keys@, accounts@, slot),
{
    let ghost all = accounts@;
    let mut rest = accounts;
    let mut out: Vec<AcctCtx> = Vec::new();
    let mut i: usize = 0;
    while rest.len() > 0
        invariant
            all.len() <= keys@.len(),
            i + rest@.len() == all.len(),
            rest@ == all.skip(i as int),
            out@ == fetched(keys@, all.take(i as int), slot),
        decreases rest@.len(),
    {
        let a = rest.remove(0);
        assert(a == all[i as int]);
        assert(all.take(i + 1).drop_last() =~= all.take(i as int));
        assert(all.take(i + 1).last() == a);
        match a {
            Some(account) => {
                out.push(AcctCtx { key: keys[i], account, slot });
            },
            None => {},
        }
        assert(rest@ =~= all.skip(i + 1));
        i = i + 1;
    }
    assert(all.take(all.len() as int) =~= all);
    out
}

} // verus!
