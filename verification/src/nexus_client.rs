use vstd::prelude::*;

use crate::cache::Cache;
use crate::types::geyser::BlockInfo;
use crate::types::keyed_account::{Account, AcctCtx};
use crate::utils::ring_map::{after_insert, lookup};
use crate::drift_cpi::{AccountType, Pubkey};

verus! {

/// Registry of program account decoders that match a discriminant,
/// such as "User", to a specific account type.
#[derive(Clone, Copy, Debug)]
pub enum ProgramDecoder {
    Drift(AccountType),
}

/// What `solana_sdk::hash::Hash` displays for a hash: its base58 text.
pub uninterp spec fn hash_text(bytes: Seq<u8>) -> Seq<char>;

/// `<solana_sdk::hash::Hash as Display>::fmt` through `to_string`: the
/// base58 text of the hash; what the text is, is left to `hash_text`.
#[verifier::external_body]
fn hash_to_string(bytes: [u8; 32]) -> (r: String)
    ensures
        r@ == hash_text(bytes@),
{
    solana_sdk::hash::Hash::new_from_array(bytes).to_string()
}

/// An instruction of a transaction message: the place of its program among
/// the message's keys, the places of its accounts, and its data.
#[derive(Clone, Debug)]
pub struct CompiledInstruction {
    pub program_id_index: u32,
    pub accounts: Vec<u8>,
    pub data: Vec<u8>,
}

/// An instruction with its program and accounts resolved.
#[derive(Clone, Debug)]
pub struct Ix {
    pub program: Pubkey,
    pub accounts: Vec<Pubkey>,
    pub data: Vec<u8>,
}

/// A transaction seen on the stream.
#[derive(Debug)]
pub struct TxStub {
    pub ixs: Vec<Ix>,
    pub slot: u64,
    pub blockhash: String,
    pub signature: [u8; 64],
    pub signer: Pubkey,
}

/// Why a streamed transaction could not be read.
#[derive(Debug, Clone, Copy, PartialEq, Eq, Structural)]
pub enum StreamError {
    /// No account key at the program's place.
    ProgramNotFound { index: u32 },
    /// The message has no account key, so no signer.
    SignerNotFound,
    /// The signature is not 64 bytes.
    BadSignature,
    /// The blockhash is not 32 bytes.
    BadBlockhash,
    /// An account update's address is not 32 bytes.
    BadAccountKey,
    /// An account update's owner is not 32 bytes.
    BadOwner,
}

/// The keys at the places in `idx` that exist, in order.
pub open spec fn ix_accounts(keys: Seq<Pubkey>, idx: Seq<u8>) -> Seq<Pubkey>
    decreases idx.len(),
{
    if idx.len() == 0 {
        Seq::empty()
    } else {
        let prev = ix_accounts(keys, idx.drop_last());
        if (idx.last() as int) < keys.len() {
            prev.push(keys[idx.last() as int])
        } else {
            prev
        }
    }
}

/// The first instruction whose program place has no key.
pub open spec fn program_error(keys_len: nat, ixs: Seq<CompiledInstruction>) -> Option<u32>
    decreases ixs.len(),
{
    if ixs.len() == 0 {
        None
    } else {
        match program_error(keys_len, ixs.drop_last()) {
            Some(i) => Some(i),
            None => if (ixs.last().program_id_index as int) < keys_len {
                None
            } else {
                Some(ixs.last().program_id_index)
            },
        }
    }
}

/// The error of reading a transaction, checked in this order: the
/// instructions, then the signer, the signature and the blockhash.
pub open spec fn decode_error(
    keys_len: nat,
    ixs: Seq<CompiledInstruction>,
    signature: Seq<u8>,
    blockhash: Seq<u8>,
) -> Option<StreamError> {
    match program_error(keys_len, ixs) {
        Some(i) => Some(StreamError::ProgramNotFound { index: i }),
        None => if keys_len == 0 {
            Some(StreamError::SignerNotFound)
        } else if signature.len() != 64 {
            Some(StreamError::BadSignature)
        } else if blockhash.len() != 32 {
            Some(StreamError::BadBlockhash)
        } else {
            None
        },
    }
}

/// The address held in 32 bytes.
pub fn key_from_bytes(b: &[u8]) -> (r: Option<Pubkey>)
    ensures
        match r {
            Some(k) => b@.len() == 32 && k.0@ == b@,
            None => b@.len() != 32,
        },
{
    if b.len() != 32 {
        return None;
    }
    let mut k = [0u8; 32];
    let mut i: usize = 0;
    while i < 32
        invariant
            b@.len() == 32,
            i <= 32,
            forall|j: int| 0 <= j < i ==> k@[j] == b@[j],
        decreases 32 - i,
    {
        k[i] = b[i];
        i = i + 1;
    }
    assert(k@ =~= b@);
    Some(Pubkey(k))
}

/// Reads a streamed account update of `slot`: the account's address, and
/// the account made of its lamports, data, owner, executable flag and rent
/// epoch. The address and the owner must be 32 bytes each, the address
/// checked first.
pub fn account_update(
    pubkey: &[u8],
    slot: u64,
    lamports: u64,
    data: Vec<u8>,
    owner: &[u8],
    executable: bool,
    rent_epoch: u64,
) -> (r: Result<AcctCtx, StreamError>)
    ensures
        match r {
            Ok(ctx) => {
                &&& pubkey@.len() == 32
                &&& owner@.len() == 32
                &&& ctx.key.0@ == pubkey@
                &&& ctx.slot == slot
                &&& ctx.account.lamports == lamports
                &&& ctx.account.data@ == data@
                &&& ctx.account.owner.0@ == owner@
                &&& ctx.account.executable == executable
                &&& ctx.account.rent_epoch == rent_epoch
            },
            Err(e) => if pubkey@.len() != 32 {
                e == StreamError::BadAccountKey
            } else {
                owner@.len() != 32 && e == StreamError::BadOwner
            },
        },
{
    let key = match key_from_bytes(pubkey) {
        Some(k) => k,
        None => return Err(StreamError::BadAccountKey),
    };
    let owner = match key_from_bytes(owner) {
        Some(k) => k,
        None => return Err(StreamError::BadOwner),
    };
    Ok(AcctCtx { key, account: Account { lamports, data, owner, executable, rent_epoch }, slot })
}

/// The accounts of an instruction: the keys at its account places that
/// exist.
fn resolve_accounts(keys: &[Pubkey], idx: &[u8]) -> (r: Vec<Pubkey>)
    ensures
        r@ == ix_accounts(keys@, idx@),
{
    let mut out: Vec<Pubkey> = Vec::new();
    let mut i: usize = 0;
    while i < idx.len()
        invariant
            i <= idx@.len(),
            out@ == ix_accounts(keys@, idx@.take(i as int)),
        decreases idx@.len() - i,
    {
        assert(idx@.take(i + 1).drop_last() =~= idx@.take(i as int));
        let p = idx[i] as usize;
        if p < keys.len() {
            out.push(keys[p]);
        }
        i = i + 1;
    }
    assert(idx@.take(idx@.len() as int) =~= idx@);
    out
}

/// Copies the bytes.
fn copy_data(v: &Vec<u8>) -> (r: Vec<u8>)
    ensures
        r@ == v@,
{
    let mut out: Vec<u8> = Vec::new();
    let mut i: usize = 0;
    while i < v.len()
        invariant
            i <= v@.len(),
            out@ == v@.take(i as int),
        decreases v@.len() - i,
    {
        out.push(v[i]);
        assert(v@.take(i + 1) =~= v@.take(i as int).push(v@[i as int]));
        i = i + 1;
    }
    assert(v@.take(v@.len() as int) =~= v@);
    out
}

/// The address whose bytes are `b`.
pub open spec fn key_of(b: Seq<u8>) -> Pubkey {
    choose|k: Pubkey| k.0@ == b
}

/// The addresses of the message's keys.
pub open spec fn keys_of(account_keys: Seq<Vec<u8>>) -> Seq<Pubkey> {
    account_keys.map_values(|b: Vec<u8>| key_of(b@))
}

/// The key with bytes `b`, which are 32.
fn key_at(b: &Vec<u8>) -> (r: Pubkey)
    requires
        b@.len() == 32,
    ensures
        r == key_of(b@),
{
    match key_from_bytes(b.as_slice()) {
        Some(k) => {
            proof {
                assert(exists|x: Pubkey| x.0@ == b@);
                let c = key_of(b@);
                broadcast use vstd::array::group_array_axioms;
                assert(c.0 =~= k.0);
            }
            k
        },
        None => {
            proof {
                assert(false);
            }
            Pubkey([0u8; 32])
        },
    }
}

/// Reads a streamed transaction of `slot`: resolves each instruction's
/// program and accounts among the message's keys, takes the first key as
/// the signer, and checks the signature and the blockhash. Every key must
/// be 32 bytes.
pub fn decode_transaction(
    slot: u64,
    account_keys: &[Vec<u8>],
    instructions: &[CompiledInstruction],
    signature: &[u8],
    recent_blockhash: &[u8],
) -> (r: Result<TxStub, StreamError>)
    requires
        forall|i: int| 0 <= i < account_keys@.len() ==> (#[trigger] account_keys@[i])@.len() == 32,
    ensures
        match r {
            Ok(tx) => {
                let keys = keys_of(account_keys@);
                &&& decode_error(
                    account_keys@.len(),
                    instructions@,
                    signature@,
                    recent_blockhash@,
                ) is None
                &&& tx.slot == slot
                &&& tx.signer == keys[0]
                &&& tx.signature@ == signature@
                &&& tx.blockhash@ == hash_text(recent_blockhash@)
                &&& tx.ixs@.len() == instructions@.len()
                &&& forall|i: int|
                    0 <= i < instructions@.len() ==> {
                        let ix = #[trigger] instructions@[i];
                        &&& tx.ixs@[i].program == keys[ix.program_id_index as int]
                        &&& tx.ixs@[i].accounts@ == ix_accounts(keys, ix.accounts@)
                        &&& tx.ixs@[i].data@ == ix.data@
                    }
            },
            Err(e) => decode_error(
                account_keys@.len(),
                instructions@,
                signature@,
                recent_blockhash@,
            ) == Some(e),
        },
{
    let ghost kv = keys_of(account_keys@);
    let mut keys: Vec<Pubkey> = Vec::new();
    let mut i: usize = 0;
    while i < account_keys.len()
        invariant
            i <= account_keys@.len(),
            kv == keys_of(account_keys@),
            forall|j: int| 0 <= j < account_keys@.len() ==> (#[trigger] account_keys@[j])@.len() == 32,
            keys@ == kv.take(i as int),
        decreases account_keys@.len() - i,
    {
        let k = key_at(&account_keys[i]);
        keys.push(k);
        assert(kv.take(i + 1) =~= kv.take(i as int).push(kv[i as int]));
        i = i + 1;
    }
    assert(kv.take(kv.len() as int) =~= kv);
    let n = keys.len();
    let mut ixs: Vec<Ix> = Vec::new();
    let mut j: usize = 0;
    while j < instructions.len()
        invariant
            j <= instructions@.len(),
            keys@ == kv,
            n == kv.len(),
            kv.len() == account_keys@.len(),
            program_error(n as nat, instructions@.take(j as int)) is None,
            ixs@.len() == j,
            forall|q: int|
                0 <= q < j ==> {
                    let ix = #[trigger] instructions@[q];
                    &&& ixs@[q].program == kv[ix.program_id_index as int]
                    &&& ixs@[q].accounts@ == ix_accounts(kv, ix.accounts@)
                    &&& ixs@[q].data@ == ix.data@
                },
        decreases instructions@.len() - j,
    {
        let ix = &instructions[j];
        assert(instructions@.take(j + 1).drop_last() =~= instructions@.take(j as int));
        let p = ix.program_id_index as usize;
        if p >= n {
            proof {
                lemma_program_error_prefix(n as nat, instructions@, j + 1);
                assert(instructions@.take(instructions@.len() as int) =~= instructions@);
            }
            return Err(StreamError::ProgramNotFound { index: ix.program_id_index });
        }
        let accounts = resolve_accounts(keys.as_slice(), ix.accounts.as_slice());
        ixs.push(Ix { program: keys[p], accounts, data: copy_data(&ix.data) });
        j = j + 1;
    }
    assert(instructions@.take(instructions@.len() as int) =~= instructions@);
    if n == 0 {
        return Err(StreamError::SignerNotFound);
    }
    if signature.len() != 64 {
        return Err(StreamError::BadSignature);
    }
    if recent_blockhash.len() != 32 {
        return Err(StreamError::BadBlockhash);
    }
    let mut sig = [0u8; 64];
    let mut a: usize = 0;
    while a < 64
        invariant
            signature@.len() == 64,
            a <= 64,
            forall|b: int| 0 <= b < a ==> sig@[b] == signature@[b],
        decreases 64 - a,
    {
        sig[a] = signature[a];
        a = a + 1;
    }
    assert(sig@ =~= signature@);
    let mut bh = [0u8; 32];
    let mut a: usize = 0;
    while a < 32
        invariant
            recent_blockhash@.len() == 32,
            a <= 32,
            forall|b: int| 0 <= b < a ==> bh@[b] == recent_blockhash@[b],
        decreases 32 - a,
    {
        bh[a] = recent_blockhash[a];
        a = a + 1;
    }
    assert(bh@ =~= recent_blockhash@);
    Ok(TxStub { ixs, slot, blockhash: hash_to_string(bh), signature: sig, signer: keys[0] })
}

/// A program error in a prefix is the first error of the whole.
proof fn lemma_program_error_prefix(keys_len: nat, ixs: Seq<CompiledInstruction>, j: int)
    requires
        0 <= j <= ixs.len(),
        program_error(keys_len, ixs.take(j)) is Some,
    ensures
        program_error(keys_len, ixs) == program_error(keys_len, ixs.take(j)),
    decreases ixs.len(),
{
    if j < ixs.len() {
        assert(ixs.drop_last().take(j) =~= ixs.take(j));
        lemma_program_error_prefix(keys_len, ixs.drop_last(), j);
    } else {
        assert(ixs.take(j) =~= ixs);
    }
}

/// The sum of the request sizes.
pub open spec fn requested_total(s: Seq<usize>) -> int
    decreases s.len(),
{
    if s.len() == 0 {
        0
    } else {
        requested_total(s.drop_last()) + s.last()
    }
}

/// The sizes of the requests that fetch the latest `limit` (1000 by
/// default) signatures of an address: one request when at most 1000 are
/// asked for; otherwise chunks of 1000 that together cover the whole limit,
/// the last one holding the rest.
pub fn signature_request_limits(limit: Option<usize>) -> (r: Vec<usize>)
    ensures
        ({
            let l = match limit {
                Some(l) => l,
                None => 1000,
            };
            &&& requested_total(r@) == l
            &&& l <= 1000 ==> r@ == seq![l]
            &&& l > 1000 ==> r@.len() == (l + 999) / 1000 && forall|i: int|
                0 <= i < r@.len() ==> #[trigger] r@[i] == (if l - 1000 * i >= 1000 {
                    1000
                } else {
                    l - 1000 * i
                })
        }),
{
    let l: usize = match limit {
        Some(l) => l,
        None => 1000,
    };
    let mut r: Vec<usize> = Vec::new();
    if l <= 1000 {
        r.push(l);
        assert(r@ =~= seq![l]);
        assert(r@.drop_last() =~= Seq::<usize>::empty());
        assert(requested_total(r@.drop_last()) == 0);
        return r;
    }
    let chunk_size: usize = 1000;
    let mut start: usize = 0;
    while start < l
        invariant
            l > 1000,
            chunk_size == 1000,
            start <= l,
            requested_total(r@) == start,
            start < l ==> start == 1000 * r@.len(),
            start == l ==> r@.len() == (l + 999) / 1000,
            forall|i: int|
                0 <= i < r@.len() ==> #[trigger] r@[i] == (if l - 1000 * i >= 1000 {
                    1000
                } else {
                    l - 1000 * i
                }),
        decreases l - start,
    {
        let end = if l - start >= chunk_size {
            start + chunk_size
        } else {
            l
        };
        let ghost before = r@;
        r.push(end - start);
        proof {
            assert(r@.drop_last() =~= before);
            if end == l {
                assert(1000 * (r@.len() - 1) < l <= 1000 * (r@.len() - 1) + 1000);
                assert((l + 999) / 1000 == r@.len());
            }
        }
        start = end;
    }
    r
}

/// The ranges of keys that the account lookups for `n` keys ask for: all
/// keys at once when there are at most 100 of them, else chunks of 100 in
/// order, the last holding the rest.
pub fn account_chunk_ranges(n: usize) -> (r: Vec<(usize, usize)>)
    ensures
        n <= 100 ==> r@ == seq![(0usize, n)],
        n > 100 ==> r@.len() == (n + 99) / 100 && forall|i: int|
            0 <= i < r@.len() ==> (#[trigger] r@[i]).0 == 100 * i && r@[i].1 == (if 100 * i + 100 <= n {
                100 * i + 100
            } else {
                n as int
            }),
{
    let mut r: Vec<(usize, usize)> = Vec::new();
    if n <= 100 {
        r.push((0, n));
        assert(r@ =~= seq![(0usize, n)]);
        return r;
    }
    let mut start: usize = 0;
    while start < n
        invariant
            n > 100,
            start <= n,
            start < n ==> start == 100 * r@.len(),
            start == n ==> r@.len() == (n + 99) / 100,
            forall|i: int|
                0 <= i < r@.len() ==> (#[trigger] r@[i]).0 == 100 * i && r@[i].1 == (if 100 * i + 100 <= n {
                    100 * i + 100
                } else {
                    n as int
                }),
        decreases n - start,
    {
        let end = if n - start >= 100 {
            start + 100
        } else {
            n
        };
        r.push((start, end));
        proof {
            if end == n {
                assert(100 * (r@.len() - 1) < n <= 100 * (r@.len() - 1) + 100);
                assert((n + 99) / 100 == r@.len());
            }
        }
        start = end;
    }
    r
}

impl Cache {
    /// Takes in a slot update: the latest slot only moves forward.
    pub fn observe_slot(&mut self, slot: u64)
        ensures
            final(self).slot == (if slot > old(self).slot {
                slot
            } else {
                old(self).slot
            }),
            final(self).depth == old(self).depth,
            final(self).accounts == old(self).accounts,
            final(self).key_registry == old(self).key_registry,
            final(self).blocks == old(self).blocks,
    {
        if slot > self.slot {
            self.slot = slot;
        }
    }

    /// Takes in a block's metadata: a block with a time is stored under its
    /// slot; one without a time is passed over.
    pub fn observe_block(&mut self, slot: u64, blockhash: String, block_time: Option<i64>)
        requires
            old(self).blocks.capacity() > 0,
        ensures
            final(self).blocks@ == match block_time {
                Some(time) => after_insert(
                    old(self).blocks@,
                    old(self).blocks.capacity(),
                    slot,
                    BlockInfo { slot, blockhash, time },
                ),
                None => old(self).blocks@,
            },
            block_time matches Some(time) ==> lookup(final(self).blocks@, slot) == Some(
                BlockInfo { slot, blockhash, time },
            ),
            final(self).blocks.capacity() == old(self).blocks.capacity(),
            final(self).slot == old(self).slot,
            final(self).depth == old(self).depth,
            final(self).accounts == old(self).accounts,
            final(self).key_registry == old(self).key_registry,
    {
        broadcast use vstd::laws_eq::group_laws_eq;

        if let Some(time) = block_time {
            self.blocks.insert(slot, BlockInfo { slot, blockhash, time });
        }
    }
}

} // verus!
