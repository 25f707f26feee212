use vstd::prelude::*;

use crate::drift_cpi::Pubkey;
use crate::types::keyed_account::{Account, AcctCtx};

verus! {

/// An account as an instruction sees it: its address, how the instruction
/// may use it, and its contents.
#[derive(Clone, Debug)]
pub struct AccountInfo {
    pub key: Pubkey,
    pub is_signer: bool,
    pub is_writable: bool,
    pub lamports: u64,
    pub data: Vec<u8>,
    pub owner: Pubkey,
    pub executable: bool,
    pub rent_epoch: u64,
}

/// The account of `a` under address `key`, with the given uses.
pub open spec fn info_of(a: Account, key: Pubkey, signs: bool, writable: bool, exec: bool) -> AccountInfo {
    AccountInfo {
        key,
        is_signer: signs,
        is_writable: writable,
        lamports: a.lamports,
        data: a.data,
        owner: a.owner,
        executable: exec,
        rent_epoch: a.rent_epoch,
    }
}

/// Two account views agree: same fields, same data bytes.
pub open spec fn same_info(x: AccountInfo, y: AccountInfo) -> bool {
    &&& x.key == y.key
    &&& x.is_signer == y.is_signer
    &&& x.is_writable == y.is_writable
    &&& x.lamports == y.lamports
    &&& x.data@ == y.data@
    &&& x.owner == y.owner
    &&& x.executable == y.executable
    &&& x.rent_epoch == y.rent_epoch
}

/// Copies the bytes of `v`.
fn copy_bytes(v: &Vec<u8>) -> (r: Vec<u8>)
    ensures
        r@ == v@,
{
    let mut out: Vec<u8> = Vec::new();
    let mut i: usize = 0;
    while i < v.len()
        invariant
            i <= v@.len(),
            out@ == v@.take(i as int),
        decreases v@.len() - i,
    {
        out.push(v[i]);
        assert(v@.take(i + 1) =~= v@.take(i as int).push(v@[i as int]));
        i = i + 1;
    }
    assert(v@.take(v@.len() as int) =~= v@);
    out
}

impl Account {
    /// The account as an instruction sees it under address `key`.
    pub fn to_account_info(&self, key: Pubkey, signs: bool, writable: bool, exec: bool) -> (r: AccountInfo)
        ensures
            same_info(r, info_of(*self, key, signs, writable, exec)),
    {
        AccountInfo {
            key,
            is_signer: signs,
            is_writable: writable,
            lamports: self.lamports,
            data: copy_bytes(&self.data),
            owner: self.owner,
            executable: exec,
            rent_epoch: self.rent_epoch,
        }
    }
}

impl AcctCtx {
    /// The account as an instruction sees it, under its own address; the
    /// address given is not used.
    pub fn to_account_info(&self, _key: Pubkey, signs: bool, writable: bool, exec: bool) -> (r: AccountInfo)
        ensures
            same_info(r, info_of(self.account, self.key, signs, writable, exec)),
    {
        self.account.to_account_info(self.key, signs, writable, exec)
    }
}

} // verus!
