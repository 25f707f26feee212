//! The parts of the Drift program's accounts and constants that the library reads,
//! held as plain values.
use vstd::prelude::*;

verus! {

pub const PERCENTAGE_PRECISION: u128 = 1_000_000;

pub const PERCENTAGE_PRECISION_I128: i128 = 1_000_000;

pub const PERCENTAGE_PRECISION_U64: u64 = 1_000_000;

pub const PRICE_PRECISION: u128 = 1_000_000;

pub const PRICE_PRECISION_I64: i64 = 1_000_000;

pub const PRICE_PRECISION_I128: i128 = 1_000_000;

pub const PEG_PRECISION: u128 = 1_000_000;

pub const PEG_PRECISION_I128: i128 = 1_000_000;

pub const QUOTE_PRECISION: u128 = 1_000_000;

pub const AMM_RESERVE_PRECISION: u128 = 1_000_000_000;

pub const BASE_PRECISION: u128 = 1_000_000_000;

/// `AMM_RESERVE_PRECISION / QUOTE_PRECISION`
pub const AMM_TO_QUOTE_PRECISION_RATIO: u128 = 1_000;

pub const AMM_TO_QUOTE_PRECISION_RATIO_I128: i128 = 1_000;

/// `AMM_RESERVE_PRECISION * PEG_PRECISION / QUOTE_PRECISION`
pub const AMM_TIMES_PEG_TO_QUOTE_PRECISION_RATIO: u128 = 1_000_000_000;

/// `PRICE_PRECISION / PEG_PRECISION`
pub const PRICE_DIV_PEG: u128 = 1;

pub const BID_ASK_SPREAD_PRECISION: u64 = 1_000_000;

pub const BID_ASK_SPREAD_PRECISION_I64: i64 = 1_000_000;

pub const MARGIN_PRECISION: u32 = 10_000;

pub const FUNDING_RATE_BUFFER_PRECISION: u128 = 1_000;

/// Five minutes in seconds.
pub const FIVE_MINUTE: u128 = 300;

/// `-25 * QUOTE_PRECISION`
pub const DEFAULT_REVENUE_SINCE_LAST_FUNDING_SPREAD_RETREAT: i64 = -25_000_000;

/// A Solana account address.
#[derive(Clone, Copy, Debug, PartialEq, Eq, Default, Hash)]
pub struct Pubkey(pub [u8; 32]);

impl Pubkey {
    /// Whether every byte is zero: the default address.
    pub open spec fn spec_is_zero(&self) -> bool {
        forall|i: int| 0 <= i < 32 ==> self.0@[i] == 0u8
    }

    /// Whether every byte is zero: the default address.
    pub fn is_zero(&self) -> (r: bool)
        ensures
            r == self.spec_is_zero(),
    {
        let mut i: usize = 0;
        while i < 32
            invariant
                i <= 32,
                forall|j: int| 0 <= j < i ==> self.0@[j] == 0u8,
            decreases 32 - i,
        {
            if self.0[i] != 0 {
                return false;
            }
            i = i + 1;
        }
        true
    }

    /// Whether two addresses are the same, byte for byte.
    pub fn equals(&self, other: &Pubkey) -> (r: bool)
        ensures
            r == (*self == *other),
    {
        let mut i: usize = 0;
        while i < 32
            invariant
                i <= 32,
                forall|j: int| 0 <= j < i ==> self.0@[j] == other.0@[j],
            decreases 32 - i,
        {
            if self.0[i] != other.0[i] {
                return false;
            }
            i = i + 1;
        }
        proof {
            broadcast use vstd::array::group_array_axioms;
            assert(self.0 =~= other.0);
        }
        true
    }
}

#[derive(Clone, Copy, Debug, PartialEq, Eq, Structural, Default, Hash)]
pub enum MarketType {
    #[default]
    Spot,
    Perp,
}

#[derive(Clone, Copy, Debug, PartialEq, Eq, Structural, Default, Hash)]
pub enum PositionDirection {
    #[default]
    Long,
    Short,
}

#[derive(Clone, Copy, Debug, PartialEq, Eq, Structural, Default, Hash)]
pub enum OrderStatus {
    #[default]
    Init,
    Open,
    Filled,
    Canceled,
}

#[derive(Clone, Copy, Debug, PartialEq, Eq, Structural, Default, Hash)]
pub enum OrderType {
    Market,
    #[default]
    Limit,
    TriggerMarket,
    TriggerLimit,
    Oracle,
}

#[derive(Clone, Copy, Debug, PartialEq, Eq, Structural, Default, Hash)]
pub enum OrderTriggerCondition {
    #[default]
    Above,
    Below,
    TriggeredAbove,
    TriggeredBelow,
}

#[derive(Clone, Copy, Debug, PartialEq, Eq, Structural, Default, Hash)]
pub enum SpotBalanceType {
    #[default]
    Deposit,
    Borrow,
}

#[derive(Clone, Copy, Debug, PartialEq, Eq, Structural, Default, Hash)]
pub enum OracleSource {
    #[default]
    Pyth,
    Switchboard,
    QuoteAsset,
    Pyth1K,
    Pyth1M,
    PythStableCoin,
    Prelaunch,
    PythPull,
    Pyth1KPull,
    Pyth1MPull,
    PythStableCoinPull,
    SwitchboardOnDemand,
    PythLazer,
}

#[derive(Clone, Copy, Debug, PartialEq, Eq, Structural)]
pub enum AssetType {
    Quote,
    Base,
}

#[derive(Clone, Copy, Debug, PartialEq, Eq, Structural)]
pub enum SwapDirection {
    Add,
    Remove,
}

#[derive(Clone, Copy, Debug, Default)]
pub struct HistoricalOracleData {
    pub last_oracle_price: i64,
    pub last_oracle_conf: u64,
    pub last_oracle_delay: i64,
    pub last_oracle_price_twap: i64,
    pub last_oracle_price_twap5min: i64,
    pub last_oracle_price_twap_ts: i64,
}

#[derive(Clone, Copy, Debug, Default)]
pub struct OraclePriceData {
    pub price: i64,
    pub confidence: u64,
    pub delay: i64,
    pub has_sufficient_number_of_data_points: bool,
}

/// The automated market maker of a perp market.
#[derive(Clone, Copy, Debug, Default)]
pub struct AMM {
    pub oracle: Pubkey,
    pub oracle_source: OracleSource,
    pub historical_oracle_data: HistoricalOracleData,
    pub base_asset_reserve: u128,
    pub quote_asset_reserve: u128,
    pub sqrt_k: u128,
    pub peg_multiplier: u128,
    pub terminal_quote_asset_reserve: u128,
    pub base_asset_amount_with_amm: i128,
    pub base_asset_amount_with_unsettled_lp: i128,
    pub min_base_asset_reserve: u128,
    pub max_base_asset_reserve: u128,
    pub total_exchange_fee: u128,
    pub total_fee_minus_distributions: i128,
    pub net_revenue_since_last_funding: i64,
    pub last24h_avg_funding_rate: i64,
    pub last_mark_price_twap: u64,
    pub last_mark_price_twap5min: u64,
    pub funding_period: i64,
    pub mark_std: u64,
    pub oracle_std: u64,
    pub long_intensity_volume: u64,
    pub short_intensity_volume: u64,
    pub volume24h: u64,
    pub last_oracle_conf_pct: u64,
    pub base_spread: u32,
    pub max_spread: u32,
    pub curve_update_intensity: u8,
}

#[derive(Clone, Copy, Debug, Default)]
pub struct PerpMarket {
    pub pubkey: Pubkey,
    pub amm: AMM,
    pub name: [u8; 32],
    pub margin_ratio_initial: u32,
    pub market_index: u16,
    pub quote_spot_market_index: u16,
}

#[derive(Clone, Copy, Debug, Default)]
pub struct SpotMarket {
    pub pubkey: Pubkey,
    pub oracle: Pubkey,
    pub mint: Pubkey,
    pub oracle_source: OracleSource,
    pub name: [u8; 32],
    pub cumulative_deposit_interest: u128,
    pub cumulative_borrow_interest: u128,
    pub decimals: u32,
    pub market_index: u16,
}

#[derive(Clone, Copy, Debug, Default)]
pub struct Order {
    pub slot: u64,
    pub price: u64,
    pub base_asset_amount: u64,
    pub base_asset_amount_filled: u64,
    pub quote_asset_amount_filled: u64,
    pub trigger_price: u64,
    pub auction_start_price: i64,
    pub auction_end_price: i64,
    pub max_ts: i64,
    pub oracle_price_offset: i32,
    pub order_id: u32,
    pub market_index: u16,
    pub status: OrderStatus,
    pub order_type: OrderType,
    pub market_type: MarketType,
    pub user_order_id: u8,
    pub existing_position_direction: PositionDirection,
    pub direction: PositionDirection,
    pub reduce_only: bool,
    pub post_only: bool,
    pub immediate_or_cancel: bool,
    pub trigger_condition: OrderTriggerCondition,
    pub auction_duration: u8,
}

#[derive(Clone, Copy, Debug, PartialEq, Eq, Structural, Default, Hash)]
pub enum PostOnlyParam {
    #[default]
    NotPostOnly,
    MustPostOnly,
    TryPostOnly,
    Slide,
}

/// The parameters of an order to place.
#[derive(Clone, Copy, Debug, Default)]
pub struct OrderParams {
    pub order_type: OrderType,
    pub market_type: MarketType,
    pub direction: PositionDirection,
    pub user_order_id: u8,
    pub base_asset_amount: u64,
    pub price: u64,
    pub market_index: u16,
    pub reduce_only: bool,
    pub post_only: PostOnlyParam,
    pub immediate_or_cancel: bool,
    pub max_ts: Option<i64>,
    pub trigger_price: Option<u64>,
    pub trigger_condition: OrderTriggerCondition,
    pub oracle_price_offset: Option<i32>,
    pub auction_duration: Option<u8>,
    pub auction_start_price: Option<i64>,
    pub auction_end_price: Option<i64>,
}

#[derive(Clone, Copy, Debug, Default)]
pub struct SpotPosition {
    pub scaled_balance: u64,
    pub open_bids: i64,
    pub open_asks: i64,
    pub cumulative_deposits: i64,
    pub market_index: u16,
    pub balance_type: SpotBalanceType,
    pub open_orders: u8,
}

#[derive(Clone, Copy, Debug, Default)]
pub struct PerpPosition {
    pub last_cumulative_funding_rate: i64,
    pub base_asset_amount: i64,
    pub quote_asset_amount: i64,
    pub quote_break_even_amount: i64,
    pub quote_entry_amount: i64,
    pub open_bids: i64,
    pub open_asks: i64,
    pub settled_pnl: i64,
    pub lp_shares: u64,
    pub last_base_asset_amount_per_lp: i64,
    pub last_quote_asset_amount_per_lp: i64,
    pub remainder_base_asset_amount: i32,
    pub market_index: u16,
    pub open_orders: u8,
    pub per_lp_base: i8,
}

/// A Drift user (sub)account.
#[derive(Clone, Copy, Debug, Default)]
pub struct User {
    /// The owner of this account
    pub authority: Pubkey,
    /// An address that may place and cancel orders for the user
    pub delegate: Pubkey,
    /// Encoded display name
    pub name: [u8; 32],
    pub spot_positions: [SpotPosition; 8],
    pub perp_positions: [PerpPosition; 8],
    pub orders: [Order; 32],
    pub settled_perp_pnl: i64,
    pub total_deposits: u64,
    pub total_withdraws: u64,
    pub sub_account_id: u16,
    /// Whether the user has any open order
    pub has_open_order: bool,
}

/// A Drift user's statistics over all its subaccounts.
#[derive(Clone, Copy, Debug, Default)]
pub struct UserStats {
    pub authority: Pubkey,
    pub taker_volume30d: u64,
    pub maker_volume30d: u64,
}

/// A decoded Drift program account.
#[derive(Clone, Copy, Debug)]
pub enum AccountType {
    User(User),
    UserStats(UserStats),
    PerpMarket(PerpMarket),
    SpotMarket(SpotMarket),
}

} // verus!
