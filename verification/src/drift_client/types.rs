use vstd::prelude::*;

use std::cmp::Ordering;

use crate::drift_client::bigint::BigNum;
use crate::drift_client::utils::{
    drift_address, key_bytes_of, le_bytes_u16, seed_perp_market, seed_spot_market,
    DriftUtils,
};
use crate::drift_cpi::{
    MarketType, OracleSource, Order, OrderStatus, PerpMarket, PositionDirection, Pubkey,
    SpotMarket,
};

verus! {

/// Identifies a market by index and kind.
#[derive(Copy, Clone, Debug, Default, PartialEq, Eq, Structural, Hash)]
pub struct MarketId {
    pub index: u16,
    pub kind: MarketType,
}

impl MarketId {
    /// Id of a perp market
    pub fn perp(index: u16) -> (r: Self)
        ensures
            r == (MarketId { index, kind: MarketType::Perp }),
    {
        Self { index, kind: MarketType::Perp }
    }

    /// Id of a spot market
    pub fn spot(index: u16) -> (r: Self)
        ensures
            r == (MarketId { index, kind: MarketType::Spot }),
    {
        Self { index, kind: MarketType::Spot }
    }

    /// `MarketId` for the USDC Spot Market
    pub fn quote_spot() -> (r: Self)
        ensures
            r == (MarketId { index: 0, kind: MarketType::Spot }),
    {
        Self { index: 0, kind: MarketType::Spot }
    }

    /// The address of the market's account, if the program derives one: the
    /// program address of the market's seed and its index.
    pub open spec fn spec_key(&self) -> Option<Seq<u8>> {
        drift_address(
            seq![
                if self.kind == MarketType::Spot {
                    seed_spot_market()
                } else {
                    seed_perp_market()
                },
                le_bytes_u16(self.index),
            ],
        )
    }

    /// The address of the market's account, if the program derives one.
    pub fn key(&self) -> (r: Option<Pubkey>)
        ensures
            key_bytes_of(r) == self.spec_key(),
    {
        match self.kind {
            MarketType::Spot => DriftUtils::spot_market_pda(self.index),
            MarketType::Perp => DriftUtils::perp_market_pda(self.index),
        }
    }

    /// Whether the market is of kind `other`.
    pub fn kind_eq(&self, other: MarketType) -> (r: bool)
        ensures
            r == (self.kind == other),
    {
        match (self.kind, other) {
            (MarketType::Spot, MarketType::Spot) => true,
            (MarketType::Perp, MarketType::Perp) => true,
            _ => false,
        }
    }
}

impl From<(u16, MarketType)> for MarketId {
    fn from(value: (u16, MarketType)) -> (r: Self) {
        Self { index: value.0, kind: value.1 }
    }
}

impl vstd::std_specs::convert::FromSpecImpl<(u16, MarketType)> for MarketId {
    open spec fn obeys_from_spec() -> bool {
        true
    }

    open spec fn from_spec(value: (u16, MarketType)) -> Self {
        MarketId { index: value.0, kind: value.1 }
    }
}

/// An order of the decentralized limit order book.
pub struct DlobNode {
    pub order: Order,
}

impl PartialEq for DlobNode {
    fn eq(&self, other: &Self) -> (r: bool) {
        self.order.order_id == other.order.order_id && self.order.base_asset_amount
            == other.order.base_asset_amount
    }
}

impl vstd::std_specs::cmp::PartialEqSpecImpl for DlobNode {
    open spec fn obeys_eq_spec() -> bool {
        true
    }

    open spec fn eq_spec(&self, other: &Self) -> bool {
        self.order.order_id == other.order.order_id && self.order.base_asset_amount
            == other.order.base_asset_amount
    }
}

impl Eq for DlobNode {

}

impl DlobNode {
    pub fn new(order: Order) -> (r: Self)
        ensures
            r.order == order,
    {
        Self { order }
    }

    pub fn slot(&self) -> (r: u64)
        ensures
            r == self.order.slot,
    {
        self.order.slot
    }

    /// Whether the order is completely filled.
    pub fn filled(&self) -> (r: bool)
        ensures
            r == (self.order.base_asset_amount == self.order.base_asset_amount_filled
                || self.order.status == OrderStatus::Filled),
    {
        self.order.base_asset_amount == self.order.base_asset_amount_filled || match self.order.status {
            OrderStatus::Filled => true,
            _ => false,
        }
    }

    pub fn is_bid(&self) -> (r: bool)
        ensures
            r == (self.order.direction == PositionDirection::Long),
    {
        match self.order.direction {
            PositionDirection::Long => true,
            PositionDirection::Short => false,
        }
    }

    pub fn is_ask(&self) -> (r: bool)
        ensures
            r == (self.order.direction == PositionDirection::Short),
    {
        match self.order.direction {
            PositionDirection::Long => false,
            PositionDirection::Short => true,
        }
    }
}

/// Helper type for Accounts included in drift instructions
///
/// Provides sorting implementation matching drift program
#[derive(Copy, Clone, Debug)]
pub enum RemainingAccount {
    Oracle { pubkey: Pubkey },
    Spot { pubkey: Pubkey, writable: bool },
    Perp { pubkey: Pubkey, writable: bool },
}

/// Lexicographic order of byte strings.
pub open spec fn bytes_lt(a: Seq<u8>, b: Seq<u8>) -> bool {
    exists|i: int|
        0 <= i < a.len() && i < b.len() && a.take(i) == b.take(i) && a[i] < b[i]
}

impl RemainingAccount {
    pub open spec fn spec_pubkey(self) -> Pubkey {
        match self {
            RemainingAccount::Oracle { pubkey } => pubkey,
            RemainingAccount::Spot { pubkey, .. } => pubkey,
            RemainingAccount::Perp { pubkey, .. } => pubkey,
        }
    }

    /// Whether the account is writable (never for an oracle).
    pub open spec fn spec_writable(self) -> bool {
        match self {
            RemainingAccount::Oracle { .. } => false,
            RemainingAccount::Spot { writable, .. } => writable,
            RemainingAccount::Perp { writable, .. } => writable,
        }
    }

    pub open spec fn spec_discriminant(self) -> u8 {
        match self {
            RemainingAccount::Oracle { .. } => 0,
            RemainingAccount::Spot { .. } => 1,
            RemainingAccount::Perp { .. } => 2,
        }
    }

    /// Accounts sort by kind (oracles, then spot markets, then perp
    /// markets) and then by address; writability plays no part.
    pub open spec fn precedes(self, other: Self) -> bool {
        self.spec_discriminant() < other.spec_discriminant() || (self.spec_discriminant()
            == other.spec_discriminant() && bytes_lt(self.spec_pubkey().0@, other.spec_pubkey().0@))
    }

    pub open spec fn same_rank(self, other: Self) -> bool {
        self.spec_discriminant() == other.spec_discriminant() && self.spec_pubkey().0@
            == other.spec_pubkey().0@
    }

    pub fn pubkey(&self) -> (r: &Pubkey)
        ensures
            *r == self.spec_pubkey(),
    {
        match self {
            Self::Oracle { pubkey } => pubkey,
            Self::Spot { pubkey, .. } => pubkey,
            Self::Perp { pubkey, .. } => pubkey,
        }
    }

    /// The address, and whether the account is writable (never for an oracle).
    pub fn parts(self) -> (r: (Pubkey, bool))
        ensures
            r == (match self {
                RemainingAccount::Oracle { pubkey } => (pubkey, false),
                RemainingAccount::Spot { pubkey, writable } => (pubkey, writable),
                RemainingAccount::Perp { pubkey, writable } => (pubkey, writable),
            }),
    {
        match self {
            Self::Oracle { pubkey } => (pubkey, false),
            Self::Spot { pubkey, writable } => (pubkey, writable),
            Self::Perp { pubkey, writable } => (pubkey, writable),
        }
    }

    pub fn discriminant(&self) -> (r: u8)
        ensures
            r == self.spec_discriminant(),
    {
        match self {
            Self::Oracle { .. } => 0,
            Self::Spot { .. } => 1,
            Self::Perp { .. } => 2,
        }
    }

    /// Orders two accounts as the Drift program does.
    pub fn compare(&self, other: &Self) -> (r: Ordering)
        ensures
            (r == Ordering::Less) == self.precedes(*other),
            (r == Ordering::Greater) == other.precedes(*self),
            (r == Ordering::Equal) == self.same_rank(*other),
    {
        let a = self.discriminant();
        let b = other.discriminant();
        if a < b {
            return Ordering::Less;
        }
        if a > b {
            return Ordering::Greater;
        }
        let (lt, gt) = Self::bytes_order(&self.pubkey().0, &other.pubkey().0);
        if lt {
            Ordering::Less
        } else if gt {
            Ordering::Greater
        } else {
            Ordering::Equal
        }
    }


    /// Whether this account sorts before `other`.
    pub fn is_before(&self, other: &Self) -> (r: bool)
        ensures
            r == self.precedes(*other),
    {
        match self.compare(other) {
            Ordering::Less => true,
            _ => false,
        }
    }

    /// Whether this account and `other` sort the same.
    pub fn ranks_with(&self, other: &Self) -> (r: bool)
        ensures
            r == self.same_rank(*other),
    {
        proof {
            lemma_remaining_account_order_total(*self, *other);
        }
        match self.compare(other) {
            Ordering::Equal => true,
            _ => false,
        }
    }

    /// Whether `x` sorts before `y`, and whether `y` sorts before `x`.
    fn bytes_order(x: &[u8; 32], y: &[u8; 32]) -> (r: (bool, bool))
        ensures
            r.0 == bytes_lt(x@, y@),
            r.1 == bytes_lt(y@, x@),
            !r.0 && !r.1 ==> x@ == y@,
            !(r.0 && r.1),
    {
        let mut i: usize = 0;
        while i < 32
            invariant
                i <= 32,
                x@.len() == 32,
                y@.len() == 32,
                x@.take(i as int) == y@.take(i as int),
            decreases 32 - i,
        {
            if x[i] < y[i] {
                assert(bytes_lt(x@, y@)) by {
                    assert(x@.take(i as int) == y@.take(i as int));
                }
                proof {
                    Self::lemma_lt_not_lt(y@, x@, i as int);
                }
                return (true, false);
            }
            if x[i] > y[i] {
                assert(bytes_lt(y@, x@)) by {
                    assert(y@.take(i as int) == x@.take(i as int));
                }
                proof {
                    Self::lemma_lt_not_lt(x@, y@, i as int);
                }
                return (false, true);
            }
            assert(x@.take(i + 1) =~= x@.take(i as int).push(x@[i as int]));
            assert(y@.take(i + 1) =~= y@.take(i as int).push(y@[i as int]));
            i = i + 1;
        }
        assert(x@ =~= x@.take(32));
        assert(y@ =~= y@.take(32));
        proof {
            Self::lemma_equal_not_lt(x@, y@);
        }
        (false, false)
    }

    proof fn lemma_lt_not_lt(a: Seq<u8>, b: Seq<u8>, k: int)
        requires
            0 <= k < a.len(),
            a.len() == b.len(),
            a.take(k) == b.take(k),
            a[k] > b[k],
        ensures
            !bytes_lt(a, b),
            a != b,
    {
        if bytes_lt(a, b) {
            let i = choose|i: int|
                0 <= i < a.len() && i < b.len() && a.take(i) == b.take(i) && a[i] < b[i];
            if i < k {
                assert(a.take(k)[i] == a[i]);
                assert(b.take(k)[i] == b[i]);
                assert(a.take(k)[i] == b.take(k)[i]);
            } else if i > k {
                assert(a.take(i)[k] == a[k]);
                assert(b.take(i)[k] == b[k]);
                assert(a.take(i)[k] == b.take(i)[k]);
            }
        }
    }

    proof fn lemma_equal_not_lt(a: Seq<u8>, b: Seq<u8>)
        requires
            a == b,
        ensures
            !bytes_lt(a, b),
            !bytes_lt(b, a),
    {
    }
}

/// An account that an instruction reads or writes.
#[derive(Clone, Copy, Debug, PartialEq, Eq)]
pub struct AccountMeta {
    /// An account's public key.
    pub pubkey: Pubkey,
    /// True if an `Instruction` requires a `Transaction` signature matching `pubkey`.
    pub is_signer: bool,
    /// True if the account data or metadata may be mutated during program execution.
    pub is_writable: bool,
}

/// The account meta of a remaining account: never a signer.
pub open spec fn meta_of(a: RemainingAccount) -> AccountMeta {
    AccountMeta { pubkey: a.spec_pubkey(), is_signer: false, is_writable: a.spec_writable() }
}

impl From<RemainingAccount> for AccountMeta {
    fn from(value: RemainingAccount) -> (r: Self) {
        let (pubkey, is_writable) = value.parts();
        AccountMeta { pubkey, is_writable, is_signer: false }
    }
}

impl vstd::std_specs::convert::FromSpecImpl<RemainingAccount> for AccountMeta {
    open spec fn obeys_from_spec() -> bool {
        true
    }

    open spec fn from_spec(value: RemainingAccount) -> Self {
        meta_of(value)
    }
}

/// Two byte strings of one length that differ have a first place where
/// they differ.
proof fn lemma_first_difference(a: Seq<u8>, b: Seq<u8>, n: int)
    requires
        0 <= n <= a.len(),
        a.len() == b.len(),
        a.take(n) != b.take(n),
    ensures
        exists|i: int| 0 <= i < n && a.take(i) == b.take(i) && #[trigger] a[i] != b[i],
    decreases n,
{
    if n > 0 {
        if a.take(n - 1) != b.take(n - 1) {
            lemma_first_difference(a, b, n - 1);
            let i = choose|i: int| 0 <= i < n - 1 && a.take(i) == b.take(i) && #[trigger] a[i] != b[i];
            assert(0 <= i < n && a.take(i) == b.take(i) && a[i] != b[i]);
        } else {
            if a[n - 1] == b[n - 1] {
                assert(a.take(n) =~= a.take(n - 1).push(a[n - 1]));
                assert(b.take(n) =~= b.take(n - 1).push(b[n - 1]));
            }
            assert(a[n - 1] != b[n - 1]);
        }
    } else {
        assert(a.take(0) =~= b.take(0));
    }
}

/// Byte strings of one length: of two different ones, one sorts first.
proof fn lemma_bytes_total(a: Seq<u8>, b: Seq<u8>)
    requires
        a.len() == b.len(),
    ensures
        a != b ==> bytes_lt(a, b) || bytes_lt(b, a),
        !(bytes_lt(a, b) && bytes_lt(b, a)),
        a == b ==> !bytes_lt(a, b),
{
    if a != b {
        assert(a.take(a.len() as int) =~= a);
        assert(b.take(b.len() as int) =~= b);
        lemma_first_difference(a, b, a.len() as int);
        let i = choose|i: int| 0 <= i < a.len() && a.take(i) == b.take(i) && #[trigger] a[i] != b[i];
        if a[i] < b[i] {
            assert(bytes_lt(a, b));
        } else {
            assert(b.take(i) == a.take(i));
            assert(bytes_lt(b, a));
        }
    }
    if bytes_lt(a, b) && bytes_lt(b, a) {
        let i = choose|i: int| 0 <= i < a.len() && i < b.len() && a.take(i) == b.take(i) && a[i] < b[i];
        let j = choose|j: int| 0 <= j < b.len() && j < a.len() && b.take(j) == a.take(j) && b[j] < a[j];
        if i < j {
            assert(b.take(j)[i] == a.take(j)[i]);
        } else if j < i {
            assert(a.take(i)[j] == b.take(i)[j]);
        }
    }
}

/// Byte strings of one length sort transitively.
proof fn lemma_bytes_transitive(a: Seq<u8>, b: Seq<u8>, c: Seq<u8>)
    requires
        a.len() == b.len(),
        b.len() == c.len(),
        bytes_lt(a, b),
        bytes_lt(b, c),
    ensures
        bytes_lt(a, c),
{
    let i = choose|i: int| 0 <= i < a.len() && i < b.len() && a.take(i) == b.take(i) && a[i] < b[i];
    let j = choose|j: int| 0 <= j < b.len() && j < c.len() && b.take(j) == c.take(j) && b[j] < c[j];
    if i < j {
        assert(b.take(j)[i] == c.take(j)[i]);
        assert(a.take(i) =~= c.take(i)) by {
            assert forall|k: int| 0 <= k < i implies a.take(i)[k] == c.take(i)[k] by {
                assert(a.take(i)[k] == b.take(i)[k]);
                assert(b.take(j)[k] == c.take(j)[k]);
            }
        }
        assert(0 <= i < a.len() && i < c.len() && a.take(i) == c.take(i) && a[i] < c[i]);
    } else if j < i {
        assert(a.take(i)[j] == b.take(i)[j]);
        assert(a.take(j) =~= c.take(j)) by {
            assert forall|k: int| 0 <= k < j implies a.take(j)[k] == c.take(j)[k] by {
                assert(a.take(i)[k] == b.take(i)[k]);
                assert(b.take(j)[k] == c.take(j)[k]);
            }
        }
        assert(0 <= j < a.len() && j < c.len() && a.take(j) == c.take(j) && a[j] < c[j]);
    } else {
        assert(a.take(i) =~= c.take(i));
        assert(0 <= i < a.len() && i < c.len() && a.take(i) == c.take(i) && a[i] < c[i]);
    }
}

/// The order of remaining accounts is total: of any two accounts exactly
/// one precedes the other, or they rank the same.
pub proof fn lemma_remaining_account_order_total(a: RemainingAccount, b: RemainingAccount)
    ensures
        a.precedes(b) || b.precedes(a) || a.same_rank(b),
        !(a.precedes(b) && b.precedes(a)),
        a.same_rank(b) ==> !a.precedes(b) && !b.precedes(a),
{
    lemma_bytes_total(a.spec_pubkey().0@, b.spec_pubkey().0@);
}

/// The order of remaining accounts is transitive.
pub proof fn lemma_remaining_account_order_transitive(
    a: RemainingAccount,
    b: RemainingAccount,
    c: RemainingAccount,
)
    requires
        a.precedes(b),
        b.precedes(c),
    ensures
        a.precedes(c),
{
    if a.spec_discriminant() == b.spec_discriminant() && b.spec_discriminant()
        == c.spec_discriminant() {
        lemma_bytes_transitive(a.spec_pubkey().0@, b.spec_pubkey().0@, c.spec_pubkey().0@);
    }
}

#[derive(Clone, Copy)]
pub struct PerpOracle {
    pub market: PerpMarket,
    pub source: OracleSource,
}

#[derive(Clone, Copy)]
pub struct SpotOracle {
    pub market: SpotMarket,
    pub source: OracleSource,
}

// AMM types

pub struct OptimalPegAndBudget {
    pub target_price: BigNum,
    pub new_peg: BigNum,
    pub budget: BigNum,
    pub check_lower_bound: bool,
}

pub struct AmmReservesAfterSwap {
    pub new_quote_asset_reserve: BigNum,
    pub new_base_asset_reserve: BigNum,
}

pub struct NewAmm {
    pub pre_peg_cost: BigNum,
    pub pk_numer: BigNum,
    pub pk_denom: BigNum,
    pub new_peg: BigNum,
}

pub struct SpreadReserve {
    pub base_asset_reserve: BigNum,
    pub quote_asset_reserve: BigNum,
}

pub struct OpenBidAsk {
    pub open_bids: BigNum,
    pub open_asks: BigNum,
}

pub struct Spread {
    pub long_spread: BigNum,
    pub short_spread: BigNum,
}

pub struct SpreadReserves {
    pub bid_reserves: SpreadReserve,
    pub ask_reserves: SpreadReserve,
}

pub struct VolSpread {
    pub long_vol_spread: BigNum,
    pub short_vol_spread: BigNum,
}

pub struct UpdatedAmmSpreadReserves {
    pub base_asset_reserve: BigNum,
    pub quote_asset_reserve: BigNum,
    pub sqrt_k: BigNum,
    pub new_peg: BigNum,
}

} // verus!
