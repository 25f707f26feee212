use vstd::prelude::*;

use crate::drift_cpi::{PerpMarket, Pubkey, SpotMarket};

verus! {

/// An address lookup table: its address and the addresses it lists.
#[derive(Clone, Debug)]
pub struct AddressLookupTableAccount {
    pub key: Pubkey,
    pub addresses: Vec<Pubkey>,
}

/// The market indexes are `0..n` in some order: each is below the count
/// and no two are equal.
pub open spec fn indexes_aligned(keys: Seq<u16>) -> bool {
    &&& forall|i: int| 0 <= i < keys.len() ==> #[trigger] keys[i] < keys.len()
    &&& forall|i: int, j: int| 0 <= i < j < keys.len() ==> keys[i] != keys[j]
}

/// How many slots among the first `n` are filled.
pub open spec fn filled<T>(s: Seq<Option<T>>, n: int) -> nat
    decreases n,
{
    if n <= 0 {
        0
    } else {
        filled(s, n - 1) + if s[n - 1] is Some {
            1nat
        } else {
            0nat
        }
    }
}

proof fn lemma_filled_update<T>(s: Seq<Option<T>>, n: int, j: int, x: T)
    requires
        0 <= j < s.len(),
        0 <= n <= s.len(),
        s[j] is None,
    ensures
        filled(s.update(j, Some(x)), n) == filled(s, n) + if j < n {
            1nat
        } else {
            0nat
        },
    decreases n,
{
    if n > 0 {
        lemma_filled_update(s, n - 1, j, x);
    }
}

proof fn lemma_filled_all<T>(s: Seq<Option<T>>, n: int)
    requires
        0 <= n <= s.len(),
        filled(s, n) == n,
    ensures
        forall|k: int| 0 <= k < n ==> #[trigger] s[k] is Some,
    decreases n,
{
    if n > 0 {
        lemma_filled_bound(s, n - 1);
        lemma_filled_all(s, n - 1);
    }
}

proof fn lemma_filled_bound<T>(s: Seq<Option<T>>, n: int)
    requires
        0 <= n <= s.len(),
    ensures
        filled(s, n) <= n,
    decreases n,
{
    if n > 0 {
        lemma_filled_bound(s, n - 1);
    }
}

/// `items` put in the order of their indexes: item `i` lands at `keys[i]`.
fn arrange<T: Copy>(items: &Vec<T>, keys: &Vec<u16>) -> (r: Vec<T>)
    requires
        items@.len() == keys@.len(),
        indexes_aligned(keys@),
    ensures
        r@.len() == items@.len(),
        forall|i: int| 0 <= i < items@.len() ==> r@[keys@[i] as int] == #[trigger] items@[i],
{
    let n = items.len();
    let mut slots: Vec<Option<T>> = Vec::new();
    let mut k: usize = 0;
    while k < n
        invariant
            k <= n,
            slots@.len() == k,
            forall|j: int| 0 <= j < k ==> #[trigger] slots@[j] is None,
        decreases n - k,
    {
        slots.push(None);
        k = k + 1;
    }
    proof {
        assert(filled(slots@, n as int) == 0) by {
            lemma_filled_zero(slots@, n as int);
        }
    }
    let mut i: usize = 0;
    while i < n
        invariant
            n == items@.len(),
            n == keys@.len(),
            indexes_aligned(keys@),
            slots@.len() == n,
            i <= n,
            filled(slots@, n as int) == i,
            forall|j: int| 0 <= j < i ==> slots@[keys@[j] as int] == Some(#[trigger] items@[j]),
            forall|j: int|
                #![trigger keys@[j]]
                i <= j < n ==> slots@[keys@[j] as int] is None,
        decreases n - i,
    {
        let key = keys[i] as usize;
        proof {
            lemma_filled_update(slots@, n as int, key as int, items@[i as int]);
        }
        slots.set(key, Some(items[i]));
        i = i + 1;
    }
    proof {
        lemma_filled_all(slots@, n as int);
    }
    let mut out: Vec<T> = Vec::new();
    let mut m: usize = 0;
    while m < n
        invariant
            n == items@.len(),
            n == keys@.len(),
            indexes_aligned(keys@),
            slots@.len() == n,
            m <= n,
            out@.len() == m,
            forall|j: int| 0 <= j < n ==> #[trigger] slots@[j] is Some,
            forall|j: int| 0 <= j < m ==> Some(#[trigger] out@[j]) == slots@[j],
            forall|j: int| 0 <= j < n ==> slots@[keys@[j] as int] == Some(#[trigger] items@[j]),
        decreases n - m,
    {
        match slots[m] {
            Some(x) => out.push(x),
            None => {
                assert(false);
            },
        }
        m = m + 1;
    }
    out
}

proof fn lemma_filled_zero<T>(s: Seq<Option<T>>, n: int)
    requires
        0 <= n <= s.len(),
        forall|j: int| 0 <= j < n ==> #[trigger] s[j] is None,
    ensures
        filled(s, n) == 0,
    decreases n,
{
    if n > 0 {
        lemma_filled_zero(s, n - 1);
    }
}

/// Static-ish metadata from onchain drift program
#[derive(Clone)]
pub struct ProgramData {
    spot_markets: Vec<SpotMarket>,
    perp_markets: Vec<PerpMarket>,
    pub lookup_table: AddressLookupTableAccount,
}

impl ProgramData {
    pub closed spec fn spot(&self) -> Seq<SpotMarket> {
        self.spot_markets@
    }

    pub closed spec fn perp(&self) -> Seq<PerpMarket> {
        self.perp_markets@
    }

    pub closed spec fn table(&self) -> AddressLookupTableAccount {
        self.lookup_table
    }

    /// Return an uninitialized instance of `ProgramData` (useful for bootstrapping)
    pub fn uninitialized() -> (r: Self)
        ensures
            r.spot().len() == 0,
            r.perp().len() == 0,
            r.table().key.0@ == Seq::new(32, |i: int| 0u8),
            r.table().addresses@.len() == 0,
    {
        let r = Self {
            spot_markets: Vec::new(),
            perp_markets: Vec::new(),
            lookup_table: AddressLookupTableAccount { key: Pubkey([0u8; 32]), addresses: Vec::new() },
        };
        assert(r.lookup_table.key.0@ =~= Seq::new(32, |i: int| 0u8));
        r
    }

    /// Initialize `ProgramData`: the markets are kept in the order of their
    /// indexes, which must be `0..n` in some order.
    pub fn new(
        spot: Vec<SpotMarket>,
        perp: Vec<PerpMarket>,
        lookup_table: AddressLookupTableAccount,
    ) -> (r: Self)
        requires
            indexes_aligned(spot@.map_values(|m: SpotMarket| m.market_index)),
            indexes_aligned(perp@.map_values(|m: PerpMarket| m.market_index)),
        ensures
            r.spot().len() == spot@.len(),
            r.perp().len() == perp@.len(),
            forall|i: int|
                0 <= i < spot@.len() ==> r.spot()[spot@[i].market_index as int] == #[trigger] spot@[i],
            forall|i: int|
                0 <= i < perp@.len() ==> r.perp()[perp@[i].market_index as int] == #[trigger] perp@[i],
            r.table() == lookup_table,
    {
        let mut spot_keys: Vec<u16> = Vec::new();
        let mut i: usize = 0;
        while i < spot.len()
            invariant
                i <= spot@.len(),
                spot_keys@ == spot@.map_values(|m: SpotMarket| m.market_index).take(i as int),
            decreases spot@.len() - i,
        {
            spot_keys.push(spot[i].market_index);
            assert(spot@.map_values(|m: SpotMarket| m.market_index).take(i + 1)
                =~= spot@.map_values(|m: SpotMarket| m.market_index).take(i as int).push(spot@[i as int].market_index));
            i = i + 1;
        }
        assert(spot_keys@ =~= spot@.map_values(|m: SpotMarket| m.market_index));
        let mut perp_keys: Vec<u16> = Vec::new();
        let mut j: usize = 0;
        while j < perp.len()
            invariant
                j <= perp@.len(),
                perp_keys@ == perp@.map_values(|m: PerpMarket| m.market_index).take(j as int),
            decreases perp@.len() - j,
        {
            perp_keys.push(perp[j].market_index);
            assert(perp@.map_values(|m: PerpMarket| m.market_index).take(j + 1)
                =~= perp@.map_values(|m: PerpMarket| m.market_index).take(j as int).push(perp@[j as int].market_index));
            j = j + 1;
        }
        assert(perp_keys@ =~= perp@.map_values(|m: PerpMarket| m.market_index));
        let spot_markets = arrange(&spot, &spot_keys);
        let perp_markets = arrange(&perp, &perp_keys);
        Self { spot_markets, perp_markets, lookup_table }
    }

    /// Return known spot markets
    pub fn spot_market_configs(&self) -> (r: &[SpotMarket])
        ensures
            r@ == self.spot(),
    {
        self.spot_markets.as_slice()
    }

    /// Return known perp markets
    pub fn perp_market_configs(&self) -> (r: &[PerpMarket])
        ensures
            r@ == self.perp(),
    {
        self.perp_markets.as_slice()
    }

    /// Return the spot market config given a market index
    pub fn spot_market_config_by_index(&self, market_index: u16) -> (r: Option<&SpotMarket>)
        ensures
            r == (if (market_index as int) < self.spot().len() {
                Some(&self.spot()[market_index as int])
            } else {
                None
            }),
    {
        let i = market_index as usize;
        if i < self.spot_markets.len() {
            Some(&self.spot_markets[i])
        } else {
            None
        }
    }

    /// Return the perp market config given a market index
    pub fn perp_market_config_by_index(&self, market_index: u16) -> (r: Option<&PerpMarket>)
        ensures
            r == (if (market_index as int) < self.perp().len() {
                Some(&self.perp()[market_index as int])
            } else {
                None
            }),
    {
        let i = market_index as usize;
        if i < self.perp_markets.len() {
            Some(&self.perp_markets[i])
        } else {
            None
        }
    }
}

} // verus!
