use vstd::prelude::*;

use crate::drift_client::client::map_put;
use crate::drift_client::types::{PerpOracle, SpotOracle};
use crate::drift_cpi::{PerpMarket, Pubkey, SpotMarket};
use crate::types::geyser::BlockInfo;
use crate::types::keyed_account::AcctCtx;
use crate::utils::ring_map::{
    after_insert, distinct_keys, has_key, lemma_push_entry, lemma_update_entry, lookup, position,
    RingMap,
};

verus! {

broadcast use vstd::laws_eq::group_laws_eq;

/// The groups of account keys that the cache keeps a registry of.
#[derive(Debug, Clone, Copy, PartialEq, Eq, Structural, Hash)]
pub enum CacheKeyRegistry {
    PerpMarkets,
    SpotMarkets,
}

/// Why the cache could not answer.
#[derive(Debug, Clone, Copy, PartialEq, Eq)]
pub enum CacheError {
    /// No block was stored for this slot.
    BlockNotFound { slot: u64 },
    /// No block is stored at all.
    NoBlocks,
    /// No updates are stored for this account.
    ProgramNotFound { key: Pubkey },
    /// Every stored update of the account is newer than the slot.
    NoSlotAtOrBefore { slot: u64, key: Pubkey },
    /// The account's ring holds no update.
    SlotNotFound { key: Pubkey },
    /// The registry holds no keys for this group.
    RegistryKeyNotFound,
    /// No spot market has the quote market index of a perp market.
    SpotMarketNotFound,
}

/// The last update, in the order the updates came, whose slot is at most
/// `slot`.
pub open spec fn latest_at_or_before(s: Seq<(u64, AcctCtx)>, slot: u64) -> Option<AcctCtx>
    decreases s.len(),
{
    if s.len() == 0 {
        None
    } else if s.last().1.slot <= slot {
        Some(s.last().1)
    } else {
        latest_at_or_before(s.drop_last(), slot)
    }
}

/// The newest update of a ring, if any.
pub open spec fn newest_of(s: Seq<(u64, AcctCtx)>) -> Option<AcctCtx> {
    if s.len() > 0 {
        Some(s.last().1)
    } else {
        None
    }
}

/// The update of a ring at a slot: the one stored under that slot, else the
/// last at or before it; with no slot, the newest.
pub open spec fn closest_update(s: Seq<(u64, AcctCtx)>, slot: Option<u64>) -> Option<AcctCtx> {
    match slot {
        Some(x) => if has_key(s, x) {
            lookup(s, x)
        } else {
            latest_at_or_before(s, x)
        },
        None => newest_of(s),
    }
}

/// The update each ring holds for a slot (exactly that slot), or its newest
/// one when no slot is given, in the order of the rings; rings with none
/// are skipped.
pub open spec fn updates_at(rings: Seq<(Pubkey, RingMap<u64, AcctCtx>)>, slot: Option<u64>) -> Seq<
    AcctCtx,
>
    decreases rings.len(),
{
    if rings.len() == 0 {
        Seq::empty()
    } else {
        let rest = updates_at(rings.drop_last(), slot);
        let r = rings.last().1@;
        let pick = match slot {
            Some(x) => lookup(r, x),
            None => newest_of(r),
        };
        match pick {
            Some(a) => rest.push(a),
            None => rest,
        }
    }
}

/// The accounts among `s` whose key is listed in `keys`, in order.
pub open spec fn with_keys(s: Seq<AcctCtx>, keys: Seq<Pubkey>) -> Seq<AcctCtx>
    decreases s.len(),
{
    if s.len() == 0 {
        Seq::empty()
    } else {
        let rest = with_keys(s.drop_last(), keys);
        if keys.contains(s.last().key) {
            rest.push(s.last())
        } else {
            rest
        }
    }
}

/// The keys listed for a registry group, if any (the first entry for it).
pub open spec fn registry_lookup(reg: Seq<(CacheKeyRegistry, Vec<Pubkey>)>, group: CacheKeyRegistry) -> Option<
    Seq<Pubkey>,
>
    decreases reg.len(),
{
    if reg.len() == 0 {
        None
    } else if reg[0].0 == group {
        Some(reg[0].1@)
    } else {
        registry_lookup(reg.drop_first(), group)
    }
}

pub struct Cache {
    /// The latest slot seen
    pub slot: u64,
    /// How many versions back to keep in the cache
    pub depth: usize,
    /// Key is slot
    pub blocks: RingMap<u64, BlockInfo>,
    /// One ring of updates per address, in the order the addresses came
    pub accounts: Vec<(Pubkey, RingMap<u64, AcctCtx>)>,
    /// The key lists of the registered groups
    pub key_registry: Vec<(CacheKeyRegistry, Vec<Pubkey>)>,
}

impl Cache {
    /// The account rings, one per address, in the order the addresses came.
    pub open spec fn rings(&self) -> Seq<(Pubkey, RingMap<u64, AcctCtx>)> {
        self.accounts@
    }

    /// The registered key lists.
    pub open spec fn registry(&self) -> Seq<(CacheKeyRegistry, Vec<Pubkey>)> {
        self.key_registry@
    }

    /// No address has two rings, and every ring keeps at least one update.
    pub open spec fn wf(&self) -> bool {
        &&& distinct_keys(self.rings())
        &&& forall|i: int| 0 <= i < self.rings().len() ==> (#[trigger] self.rings()[i]).1.capacity() > 0
    }

    pub fn new(depth: usize) -> (r: Self)
        ensures
            r.wf(),
            r.slot == 0,
            r.depth == depth,
            r.blocks@ == Seq::<(u64, BlockInfo)>::empty(),
            r.blocks.capacity() == depth,
            r.rings() == Seq::<(Pubkey, RingMap<u64, AcctCtx>)>::empty(),
            r.registry() == Seq::<(CacheKeyRegistry, Vec<Pubkey>)>::empty(),
    {
        Self {
            slot: 0,
            blocks: RingMap::new(depth),
            depth,
            accounts: Vec::new(),
            key_registry: Vec::new(),
        }
    }

    /// The block stored for `slot`, or the newest block when no slot is given.
    pub fn block(&self, slot: Option<u64>) -> (r: Result<&BlockInfo, CacheError>)
        ensures
            match slot {
                Some(s) => match lookup(self.blocks@, s) {
                    Some(b) => r == Ok::<&BlockInfo, CacheError>(&b),
                    None => r == Err::<&BlockInfo, CacheError>(CacheError::BlockNotFound { slot: s }),
                },
                None => if self.blocks@.len() > 0 {
                    r == Ok::<&BlockInfo, CacheError>(&self.blocks@.last().1)
                } else {
                    r == Err::<&BlockInfo, CacheError>(CacheError::NoBlocks)
                },
            },
    {
        match slot {
            Some(s) => match self.blocks.get(&s) {
                Some(b) => Ok(b),
                None => Err(CacheError::BlockNotFound { slot: s }),
            },
            None => match self.blocks.newest() {
                Some(e) => Ok(e.1),
                None => Err(CacheError::NoBlocks),
            },
        }
    }

    /// Where the ring of `key` stands, if there is one.
    fn find(&self, key: &Pubkey) -> (r: Option<usize>)
        requires
            self.wf(),
        ensures
            match r {
                Some(i) => has_key(self.rings(), *key) && i < self.rings().len() && position(
                    self.rings(),
                    *key,
                ) == i as int,
                None => !has_key(self.rings(), *key),
            },
    {
        let mut i: usize = 0;
        while i < self.accounts.len()
            invariant
                i <= self.accounts@.len(),
                forall|j: int| 0 <= j < i ==> #[trigger] self.accounts@[j].0 != *key,
                distinct_keys(self.accounts@),
            decreases self.accounts@.len() - i,
        {
            if self.accounts[i].0.equals(key) {
                proof {
                    assert(has_key(self.rings(), *key));
                    let p = position(self.rings(), *key);
                    assert(self.accounts@[p].0 == *key);
                    assert(self.accounts@[i as int].0 == *key);
                }
                return Some(i);
            }
            i = i + 1;
        }
        None
    }

    /// The last update, in the order they came, whose slot is at most `slot`.
    fn latest_at_or_before(ring: &RingMap<u64, AcctCtx>, slot: u64) -> (r: Option<&AcctCtx>)
        ensures
            match latest_at_or_before(ring@, slot) {
                Some(a) => r == Some(&a),
                None => r is None,
            },
    {
        let values = ring.values();
        let mut i: usize = values.len();
        assert(ring@.take(i as int) =~= ring@);
        while i > 0
            invariant
                i <= values@.len(),
                values@.len() == ring@.len(),
                forall|j: int| 0 <= j < ring@.len() ==> *values@[j] == #[trigger] ring@[j].1,
                latest_at_or_before(ring@, slot) == latest_at_or_before(ring@.take(i as int), slot),
            decreases i,
        {
            let a = values[i - 1];
            assert(ring@.take(i as int).drop_last() =~= ring@.take(i - 1));
            if a.slot <= slot {
                return Some(a);
            }
            i = i - 1;
        }
        None
    }

    /// The update of `key` at `slot`: the one stored for that slot, else the
    /// most recent one at or before it; with no slot, the newest.
    fn take_closest_slot_for_account(&self, key: &Pubkey, slot: Option<u64>) -> (r: Result<
        &AcctCtx,
        CacheError,
    >)
        requires
            self.wf(),
        ensures
            match lookup(self.rings(), *key) {
                None => r == Err::<&AcctCtx, CacheError>(CacheError::ProgramNotFound { key: *key }),
                Some(ring) => match closest_update(ring@, slot) {
                    Some(a) => r == Ok::<&AcctCtx, CacheError>(&a),
                    None => r == Err::<&AcctCtx, CacheError>(
                        match slot {
                            Some(s) => CacheError::NoSlotAtOrBefore { slot: s, key: *key },
                            None => CacheError::SlotNotFound { key: *key },
                        },
                    ),
                },
            },
    {
        let i = match self.find(key) {
            Some(i) => i,
            None => return Err(CacheError::ProgramNotFound { key: *key }),
        };
        let ring = &self.accounts[i].1;
        match slot {
            Some(s) => match ring.get(&s) {
                Some(acct) => Ok(acct),
                None => match Self::latest_at_or_before(ring, s) {
                    Some(a) => Ok(a),
                    None => Err(CacheError::NoSlotAtOrBefore { slot: s, key: *key }),
                },
            },
            None => match ring.newest() {
                Some(e) => Ok(e.1),
                None => Err(CacheError::SlotNotFound { key: *key }),
            },
        }
    }

    /// The update of `key` at `slot`, as `take_closest_slot_for_account`.
    pub fn account(&self, key: &Pubkey, slot: Option<u64>) -> (r: Result<&AcctCtx, CacheError>)
        requires
            self.wf(),
        ensures
            match lookup(self.rings(), *key) {
                None => r == Err::<&AcctCtx, CacheError>(CacheError::ProgramNotFound { key: *key }),
                Some(ring) => match closest_update(ring@, slot) {
                    Some(a) => r == Ok::<&AcctCtx, CacheError>(&a),
                    None => r == Err::<&AcctCtx, CacheError>(
                        match slot {
                            Some(s) => CacheError::NoSlotAtOrBefore { slot: s, key: *key },
                            None => CacheError::SlotNotFound { key: *key },
                        },
                    ),
                },
            },
    {
        self.take_closest_slot_for_account(key, slot)
    }

    /// Each account's update at exactly `slot`, or its newest update when
    /// no slot is given.
    pub fn accounts(&self, slot: Option<u64>) -> (r: Result<Vec<&AcctCtx>, CacheError>)
        ensures
            match r {
                Ok(v) => v@.map_values(|a: &AcctCtx| *a) == updates_at(self.rings(), slot),
                Err(_) => false,
            },
    {
        let mut out: Vec<&AcctCtx> = Vec::new();
        let mut i: usize = 0;
        while i < self.accounts.len()
            invariant
                i <= self.accounts@.len(),
                out@.map_values(|a: &AcctCtx| *a) == updates_at(self.accounts@.take(i as int), slot),
            decreases self.accounts@.len() - i,
        {
            let ring = &self.accounts[i].1;
            let pick = match slot {
                Some(s) => ring.get(&s),
                None => match ring.newest() {
                    Some(e) => Some(e.1),
                    None => None,
                },
            };
            assert(self.accounts@.take(i + 1).drop_last() =~= self.accounts@.take(i as int));
            match pick {
                Some(a) => {
                    out.push(a);
                },
                None => {},
            }
            assert(out@.map_values(|a: &AcctCtx| *a) =~= updates_at(
                self.accounts@.take(i + 1),
                slot,
            ));
            i = i + 1;
        }
        assert(self.accounts@.take(self.accounts@.len() as int) =~= self.accounts@);
        Ok(out)
    }

    /// Whether `key` is listed in `keys`.
    fn listed(keys: &Vec<Pubkey>, key: &Pubkey) -> (r: bool)
        ensures
            r == keys@.contains(*key),
    {
        let mut i: usize = 0;
        while i < keys.len()
            invariant
                i <= keys@.len(),
                forall|j: int| 0 <= j < i ==> keys@[j] != *key,
            decreases keys@.len() - i,
        {
            if keys[i].equals(key) {
                assert(keys@[i as int] == *key);
                return true;
            }
            i = i + 1;
        }
        false
    }

    /// The keys registered for `group`, if any.
    fn registered(&self, group: &CacheKeyRegistry) -> (r: Option<&Vec<Pubkey>>)
        ensures
            match registry_lookup(self.registry(), *group) {
                Some(keys) => r matches Some(v) && v@ == keys,
                None => r is None,
            },
    {
        let mut i: usize = 0;
        assert(self.key_registry@.skip(0) =~= self.key_registry@);
        while i < self.key_registry.len()
            invariant
                i <= self.key_registry@.len(),
                registry_lookup(self.key_registry@, *group) == registry_lookup(
                    self.key_registry@.skip(i as int),
                    *group,
                ),
            decreases self.key_registry@.len() - i,
        {
            assert(self.key_registry@.skip(i as int).drop_first() =~= self.key_registry@.skip(i + 1));
            if self.key_registry[i].0 == *group {
                return Some(&self.key_registry[i].1);
            }
            i = i + 1;
        }
        None
    }

    /// Registers the keys of a group, in place of any registered before.
    pub fn register(&mut self, group: CacheKeyRegistry, keys: Vec<Pubkey>)
        requires
            old(self).wf(),
        ensures
            final(self).wf(),
            final(self).rings() == old(self).rings(),
            registry_lookup(final(self).registry(), group) == Some(keys@),
            forall|g: CacheKeyRegistry|
                g != group ==> #[trigger] registry_lookup(final(self).registry(), g)
                    == registry_lookup(old(self).registry(), g),
            final(self).slot == old(self).slot,
            final(self).depth == old(self).depth,
            final(self).blocks == old(self).blocks,
    {
        let ghost old_reg = self.key_registry@;
        let mut rest: Vec<(CacheKeyRegistry, Vec<Pubkey>)> = Vec::new();
        let mut i: usize = 0;
        while self.key_registry.len() > 0
            invariant
                forall|g: CacheKeyRegistry|
                    g != group ==> #[trigger] registry_lookup(old_reg, g) == match registry_lookup(
                        rest@,
                        g,
                    ) {
                        Some(k) => Some(k),
                        None => registry_lookup(self.key_registry@, g),
                    },
                forall|j: int| 0 <= j < rest@.len() ==> (#[trigger] rest@[j]).0 != group,
                self.accounts == old(self).accounts,
                self.slot == old(self).slot,
                self.depth == old(self).depth,
                self.blocks == old(self).blocks,
            decreases self.key_registry@.len(),
        {
            let e = self.key_registry.remove(0);
            if e.0 != group {
                proof {
                    lemma_registry_push(rest@, e);
                }
                rest.push(e);
            }
        }
        let ghost r0 = rest@;
        rest.insert(0, (group, keys));
        proof {
            assert(rest@.drop_first() =~= r0);
            assert(rest@[0] == (group, keys));
            assert(registry_lookup(self.key_registry@, group) is None);
            assert forall|g: CacheKeyRegistry| g != group implies #[trigger] registry_lookup(rest@, g)
                == registry_lookup(old_reg, g) by {
                assert(registry_lookup(rest@, g) == registry_lookup(r0, g));
                assert(self.key_registry@.len() == 0);
            }
        }
        self.key_registry = rest;
    }

    /// The updates at `slot` (see `accounts`) of the accounts registered
    /// for `group`.
    pub fn registry_keys(&self, group: &CacheKeyRegistry, slot: Option<u64>) -> (r: Result<
        Vec<&AcctCtx>,
        CacheError,
    >)
        ensures
            match registry_lookup(self.registry(), *group) {
                None => r == Err::<Vec<&AcctCtx>, CacheError>(CacheError::RegistryKeyNotFound),
                Some(keys) => match r {
                    Ok(v) => v@.map_values(|a: &AcctCtx| *a) == with_keys(
                        updates_at(self.rings(), slot),
                        keys,
                    ),
                    Err(_) => false,
                },
            },
    {
        let accts = match self.accounts(slot) {
            Ok(a) => a,
            Err(e) => return Err(e),
        };
        let keys = match self.registered(group) {
            Some(k) => k,
            None => return Err(CacheError::RegistryKeyNotFound),
        };
        let ghost all = accts@.map_values(|a: &AcctCtx| *a);
        let mut out: Vec<&AcctCtx> = Vec::new();
        let mut i: usize = 0;
        while i < accts.len()
            invariant
                i <= accts@.len(),
                all == accts@.map_values(|a: &AcctCtx| *a),
                out@.map_values(|a: &AcctCtx| *a) == with_keys(all.take(i as int), keys@),
            decreases accts@.len() - i,
        {
            let a = accts[i];
            assert(all.take(i + 1).drop_last() =~= all.take(i as int));
            if Self::listed(keys, &a.key) {
                out.push(a);
            }
            assert(out@.map_values(|a: &AcctCtx| *a) =~= with_keys(all.take(i + 1), keys@));
            i = i + 1;
        }
        assert(all.take(accts@.len() as int) =~= all);
        Ok(out)
    }

    /// The ring of `key`.
    pub fn ring(&self, key: &Pubkey) -> (r: Result<&RingMap<u64, AcctCtx>, CacheError>)
        requires
            self.wf(),
        ensures
            match lookup(self.rings(), *key) {
                Some(ring) => r == Ok::<&RingMap<u64, AcctCtx>, CacheError>(&ring),
                None => r == Err::<&RingMap<u64, AcctCtx>, CacheError>(
                    CacheError::ProgramNotFound { key: *key },
                ),
            },
    {
        match self.find(key) {
            Some(i) => Ok(&self.accounts[i].1),
            None => Err(CacheError::ProgramNotFound { key: *key }),
        }
    }

    /// Stores an update of an account under `slot`, making a ring of
    /// `depth` updates for an address seen the first time.
    pub fn insert_account(&mut self, key: Pubkey, slot: u64, ctx: AcctCtx)
        requires
            old(self).wf(),
            old(self).depth > 0,
        ensures
            final(self).wf(),
            final(self).slot == old(self).slot,
            final(self).depth == old(self).depth,
            final(self).blocks == old(self).blocks,
            final(self).registry() == old(self).registry(),
            forall|k: Pubkey|
                k != key ==> #[trigger] lookup(final(self).rings(), k) == lookup(old(self).rings(), k),
            match lookup(old(self).rings(), key) {
                Some(ring) => lookup(final(self).rings(), key) matches Some(nr) && nr@
                    == after_insert(ring@, ring.capacity(), slot, ctx) && nr.capacity()
                    == ring.capacity(),
                None => lookup(final(self).rings(), key) matches Some(nr) && nr@ == seq![(slot, ctx)]
                    && nr.capacity() == old(self).depth,
            },
    {
        let ghost s0 = self.accounts@;
        match self.find(&key) {
            Some(i) => {
                let (k, mut ring) = self.accounts.remove(i);
                proof {
                    assert(s0[i as int].0 == key);
                    assert(ring == s0[i as int].1);
                    assert(ring.capacity() > 0);
                }
                ring.insert(slot, ctx);
                self.accounts.insert(i, (k, ring));
                proof {
                    assert(self.accounts@ =~= s0.update(i as int, (key, ring)));
                    lemma_update_entry(s0, key, ring);
                }
            },
            None => {
                let mut ring: RingMap<u64, AcctCtx> = RingMap::new(self.depth);
                ring.insert(slot, ctx);
                proof {
                    assert(ring@ =~= seq![(slot, ctx)]);
                    lemma_push_entry(s0, key, ring);
                }
                self.accounts.push((key, ring));
            },
        }
    }
}

/// The first spot market of index `index`, if any.
pub open spec fn spot_by_index(spots: Seq<SpotMarket>, index: u16) -> Option<SpotMarket>
    decreases spots.len(),
{
    if spots.len() == 0 {
        None
    } else if spots[0].market_index == index {
        Some(spots[0])
    } else {
        spot_by_index(spots.drop_first(), index)
    }
}

/// The oracles of the markets: for each perp market in turn, its oracle and
/// that of its quote spot market, a later market's entry replacing an
/// earlier one of the same oracle; `None` when a quote spot market is
/// missing.
pub open spec fn oracles_of(perps: Seq<PerpMarket>, spots: Seq<SpotMarket>) -> Option<
    (Seq<(Pubkey, PerpOracle)>, Seq<(Pubkey, SpotOracle)>),
>
    decreases perps.len(),
{
    if perps.len() == 0 {
        Some((Seq::empty(), Seq::empty()))
    } else {
        match oracles_of(perps.drop_last(), spots) {
            None => None,
            Some((po, so)) => {
                let perp = perps.last();
                match spot_by_index(spots, perp.quote_spot_market_index) {
                    None => None,
                    Some(spot) => Some(
                        (
                            map_put(
                                po,
                                perp.amm.oracle,
                                PerpOracle { market: perp, source: perp.amm.oracle_source },
                            ),
                            map_put(
                                so,
                                spot.oracle,
                                SpotOracle { market: spot, source: spot.oracle_source },
                            ),
                        ),
                    ),
                }
            },
        }
    }
}

/// The first spot market of index `index`.
fn find_spot(spots: &[SpotMarket], index: u16) -> (r: Option<SpotMarket>)
    ensures
        r == spot_by_index(spots@, index),
{
    let mut i: usize = 0;
    assert(spots@.skip(0) =~= spots@);
    while i < spots.len()
        invariant
            i <= spots@.len(),
            spot_by_index(spots@, index) == spot_by_index(spots@.skip(i as int), index),
        decreases spots@.len() - i,
    {
        assert(spots@.skip(i as int).drop_first() =~= spots@.skip(i + 1));
        if spots[i].market_index == index {
            return Some(spots[i]);
        }
        i = i + 1;
    }
    None
}

fn put_perp_oracle(m: &mut Vec<(Pubkey, PerpOracle)>, k: Pubkey, v: PerpOracle)
    requires
        distinct_keys(old(m)@),
    ensures
        final(m)@ == map_put(old(m)@, k, v),
        distinct_keys(final(m)@),
{
    let mut i: usize = 0;
    while i < m.len()
        invariant
            i <= m@.len(),
            forall|j: int| 0 <= j < i ==> #[trigger] m@[j].0 != k,
            distinct_keys(m@),
            m@ == old(m)@,
        decreases m@.len() - i,
    {
        if m[i].0.equals(&k) {
            proof {
                assert(has_key(m@, k));
                let p = position(m@, k);
                assert(m@[p].0 == k);
                crate::utils::ring_map::lemma_update_entry(m@, k, v);
            }
            m.set(i, (k, v));
            return ;
        }
        i = i + 1;
    }
    proof {
        crate::utils::ring_map::lemma_push_entry(m@, k, v);
    }
    m.push((k, v));
}

fn put_spot_oracle(m: &mut Vec<(Pubkey, SpotOracle)>, k: Pubkey, v: SpotOracle)
    requires
        distinct_keys(old(m)@),
    ensures
        final(m)@ == map_put(old(m)@, k, v),
        distinct_keys(final(m)@),
{
    let mut i: usize = 0;
    while i < m.len()
        invariant
            i <= m@.len(),
            forall|j: int| 0 <= j < i ==> #[trigger] m@[j].0 != k,
            distinct_keys(m@),
            m@ == old(m)@,
        decreases m@.len() - i,
    {
        if m[i].0.equals(&k) {
            proof {
                assert(has_key(m@, k));
                let p = position(m@, k);
                assert(m@[p].0 == k);
                crate::utils::ring_map::lemma_update_entry(m@, k, v);
            }
            m.set(i, (k, v));
            return ;
        }
        i = i + 1;
    }
    proof {
        crate::utils::ring_map::lemma_push_entry(m@, k, v);
    }
    m.push((k, v));
}

/// The oracles that the cache watches, by oracle address: those of
/// the perp markets and of their quote spot markets.
pub fn oracle_registry(perps: &[PerpMarket], spots: &[SpotMarket]) -> (r: Result<
    (Vec<(Pubkey, PerpOracle)>, Vec<(Pubkey, SpotOracle)>),
    CacheError,
>)
    ensures
        match r {
            Ok((po, so)) => oracles_of(perps@, spots@) == Some((po@, so@)) && distinct_keys(po@)
                && distinct_keys(so@),
            Err(e) => oracles_of(perps@, spots@) is None && e == CacheError::SpotMarketNotFound,
        },
{
    let mut po: Vec<(Pubkey, PerpOracle)> = Vec::new();
    let mut so: Vec<(Pubkey, SpotOracle)> = Vec::new();
    let mut i: usize = 0;
    while i < perps.len()
        invariant
            i <= perps@.len(),
            oracles_of(perps@.take(i as int), spots@) == Some((po@, so@)),
            distinct_keys(po@),
            distinct_keys(so@),
        decreases perps@.len() - i,
    {
        let perp = perps[i];
        assert(perps@.take(i + 1).drop_last() =~= perps@.take(i as int));
        assert(perps@.take(i + 1).last() == perp);
        match find_spot(spots, perp.quote_spot_market_index) {
            None => {
                proof {
                    lemma_oracles_none(perps@, spots@, i + 1);
                }
                return Err(CacheError::SpotMarketNotFound);
            },
            Some(spot) => {
                put_perp_oracle(&mut po, perp.amm.oracle, PerpOracle { market: perp, source: perp.amm.oracle_source });
                put_spot_oracle(&mut so, spot.oracle, SpotOracle { market: spot, source: spot.oracle_source });
            },
        }
        i = i + 1;
    }
    assert(perps@.take(perps@.len() as int) =~= perps@);
    Ok((po, so))
}

proof fn lemma_oracles_none(perps: Seq<PerpMarket>, spots: Seq<SpotMarket>, j: int)
    requires
        0 <= j <= perps.len(),
        oracles_of(perps.take(j), spots) is None,
    ensures
        oracles_of(perps, spots) is None,
    decreases perps.len(),
{
    if j < perps.len() {
        assert(perps.drop_last().take(j) =~= perps.take(j));
        lemma_oracles_none(perps.drop_last(), spots, j);
    } else {
        assert(perps.take(j) =~= perps);
    }
}

/// Reading at a slot without an update of its own gives the newest stored
/// update at or before that slot: it is one of the stored updates, its slot
/// is at most the slot asked for, and every update stored after it is
/// later than that slot; nothing comes back only when every stored update
/// is later. When the stored slots increase, its slot is the largest one
/// at or before the slot asked for.
pub proof fn lemma_latest_at_or_before(s: Seq<(u64, AcctCtx)>, slot: u64)
    ensures
        match latest_at_or_before(s, slot) {
            Some(a) => exists|i: int|
                #![trigger s[i]]
                0 <= i < s.len() && s[i].1 == a && a.slot <= slot && forall|j: int|
                    i < j < s.len() ==> (#[trigger] s[j]).1.slot > slot,
            None => forall|j: int| 0 <= j < s.len() ==> (#[trigger] s[j]).1.slot > slot,
        },
        (forall|i: int, j: int| 0 <= i < j < s.len() ==> s[i].1.slot < s[j].1.slot) ==> (
        latest_at_or_before(s, slot) matches Some(a) ==> forall|j: int|
            0 <= j < s.len() && (#[trigger] s[j]).1.slot <= slot ==> s[j].1.slot <= a.slot),
    decreases s.len(),
{
    if s.len() > 0 {
        let p = s.drop_last();
        lemma_latest_at_or_before(p, slot);
        if s.last().1.slot <= slot {
            let i = s.len() - 1;
            assert(s[i].1 == s.last().1);
        } else {
            match latest_at_or_before(p, slot) {
                Some(a) => {
                    let i = choose|i: int|
                        #![trigger p[i]]
                        0 <= i < p.len() && p[i].1 == a && a.slot <= slot && forall|j: int|
                            i < j < p.len() ==> (#[trigger] p[j]).1.slot > slot;
                    assert(s[i] == p[i]);
                    assert forall|j: int| i < j < s.len() implies (#[trigger] s[j]).1.slot > slot by {
                        if j < p.len() {
                            assert(s[j] == p[j]);
                        }
                    }
                },
                None => {
                    assert forall|j: int| 0 <= j < s.len() implies (#[trigger] s[j]).1.slot > slot by {
                        if j < p.len() {
                            assert(s[j] == p[j]);
                        }
                    }
                },
            }
        }
        if forall|i: int, j: int| 0 <= i < j < s.len() ==> s[i].1.slot < s[j].1.slot {
            if let Some(a) = latest_at_or_before(s, slot) {
                let i = choose|i: int|
                    #![trigger s[i]]
                    0 <= i < s.len() && s[i].1 == a && a.slot <= slot && forall|j: int|
                        i < j < s.len() ==> (#[trigger] s[j]).1.slot > slot;
                assert forall|j: int| 0 <= j < s.len() && (#[trigger] s[j]).1.slot <= slot implies s[j].1.slot
                    <= a.slot by {
                    if j > i {
                    } else if j < i {
                        assert(s[j].1.slot < s[i].1.slot);
                    }
                }
            }
        }
    }
}

/// Reading an account at a slot with no update of its own gives the newest
/// stored update at or before it (see `lemma_latest_at_or_before`).
pub proof fn lemma_closest_update_between(s: Seq<(u64, AcctCtx)>, slot: u64)
    requires
        !has_key(s, slot),
    ensures
        closest_update(s, Some(slot)) == latest_at_or_before(s, slot),
        match closest_update(s, Some(slot)) {
            Some(a) => exists|i: int|
                #![trigger s[i]]
                0 <= i < s.len() && s[i].1 == a && a.slot <= slot && forall|j: int|
                    i < j < s.len() ==> (#[trigger] s[j]).1.slot > slot,
            None => forall|j: int| 0 <= j < s.len() ==> (#[trigger] s[j]).1.slot > slot,
        },
{
    lemma_latest_at_or_before(s, slot);
}

/// Reading an account at the slot of an update just stored gives that
/// update back.
pub proof fn lemma_account_after_insert(s: Seq<(u64, AcctCtx)>, cap: nat, slot: u64, ctx: AcctCtx)
    requires
        distinct_keys(s),
        s.len() <= cap,
        cap > 0,
    ensures
        closest_update(after_insert(s, cap, slot, ctx), Some(slot)) == Some(ctx),
{
    crate::utils::ring_map::lemma_get_after_insert(s, cap, slot, ctx);
    let t = after_insert(s, cap, slot, ctx);
    assert(has_key(t, slot)) by {
        let p = position(t, slot);
        assert(t[p].0 == slot);
    }
}

proof fn lemma_registry_push(s: Seq<(CacheKeyRegistry, Vec<Pubkey>)>, e: (CacheKeyRegistry, Vec<Pubkey>))
    ensures
        forall|g: CacheKeyRegistry|
            #[trigger] registry_lookup(s.push(e), g) == match registry_lookup(s, g) {
                Some(k) => Some(k),
                None => if e.0 == g {
                    Some(e.1@)
                } else {
                    None
                },
            },
    decreases s.len(),
{
    if s.len() > 0 {
        lemma_registry_push(s.drop_first(), e);
        assert(s.push(e).drop_first() =~= s.drop_first().push(e));
        assert(s.push(e)[0] == s[0]);
        assert forall|g: CacheKeyRegistry|
            #[trigger] registry_lookup(s.push(e), g) == match registry_lookup(s, g) {
                Some(k) => Some(k),
                None => if e.0 == g {
                    Some(e.1@)
                } else {
                    None
                },
            } by {
            if s[0].0 != g {
                assert(registry_lookup(s.push(e), g) == registry_lookup(s.drop_first().push(e), g));
                assert(registry_lookup(s, g) == registry_lookup(s.drop_first(), g));
            }
        }
    } else {
        assert(s.push(e).drop_first() =~= Seq::<(CacheKeyRegistry, Vec<Pubkey>)>::empty());
        assert(s.push(e)[0] == e);
        assert forall|g: CacheKeyRegistry|
            #[trigger] registry_lookup(s.push(e), g) == match registry_lookup(s, g) {
                Some(k) => Some(k),
                None => if e.0 == g {
                    Some(e.1@)
                } else {
                    None
                },
            } by {
            if e.0 != g {
                assert(registry_lookup(s.push(e).drop_first(), g) is None);
            }
        }
    }
}

} // verus!
