use nexus::backtest::EmptyStrategy;
use nexus::bar::{BarHashTrait, BarHasher, BarTrait};
use nexus::bytes::any_bit_pattern_array::AnyBitPatternArray;
use nexus::cache::CacheKeyRegistry;
use nexus::drift_client::types::{AccountMeta, DlobNode, MarketId, RemainingAccount};
use nexus::drift_cpi::{MarketType, Order, OrderStatus, PositionDirection, Pubkey};
use nexus::math::entropy::{pattern_codes, pattern_histogram, EntropyBits, EntropySignal};
use nexus::types::trade::{Timeframe, TradeAction, TradeType};
use nexus::utils::timer::{unix_now, Timer};

#[test]
fn market_ids() {
    assert_eq!(MarketId::perp(3), MarketId { index: 3, kind: MarketType::Perp });
    assert_eq!(MarketId::spot(4), MarketId { index: 4, kind: MarketType::Spot });
    assert_eq!(MarketId::quote_spot(), MarketId::spot(0));
    assert_eq!(MarketId::from((5u16, MarketType::Perp)), MarketId::perp(5));
    assert!(MarketId::perp(1).kind_eq(MarketType::Perp));
    assert!(!MarketId::perp(1).kind_eq(MarketType::Spot));
    assert_eq!(MarketId::perp(2).key().unwrap().0, nexus::drift_client::utils::DriftUtils::perp_market_pda(2).unwrap().0);
    assert_eq!(MarketId::spot(2).key().unwrap().0, nexus::drift_client::utils::DriftUtils::spot_market_pda(2).unwrap().0);
}

fn key(b: u8) -> Pubkey {
    Pubkey([b; 32])
}

#[test]
fn remaining_accounts_sort_by_kind_then_address() {
    let oracle = RemainingAccount::Oracle { pubkey: key(9) };
    let spot = RemainingAccount::Spot { pubkey: key(1), writable: true };
    let perp = RemainingAccount::Perp { pubkey: key(0), writable: false };
    assert_eq!(oracle.compare(&spot), std::cmp::Ordering::Less);
    assert_eq!(perp.compare(&spot), std::cmp::Ordering::Greater);
    let spot2 = RemainingAccount::Spot { pubkey: key(2), writable: false };
    assert_eq!(spot.compare(&spot2), std::cmp::Ordering::Less);
    // writability plays no part
    let spot_ro = RemainingAccount::Spot { pubkey: key(1), writable: false };
    assert_eq!(spot.compare(&spot_ro), std::cmp::Ordering::Equal);
    assert!(oracle.is_before(&perp));
    assert!(spot.ranks_with(&spot_ro));
    assert_eq!(oracle.discriminant(), 0);
    assert_eq!(spot.discriminant(), 1);
    assert_eq!(perp.discriminant(), 2);
    assert_eq!(oracle.parts(), (key(9), false));
    assert_eq!(spot.parts(), (key(1), true));
    assert_eq!(*perp.pubkey(), key(0));
    let meta = AccountMeta::from(spot);
    assert_eq!(meta, AccountMeta { pubkey: key(1), is_signer: false, is_writable: true });
}

fn order(id: u32, base: u64, filled: u64, direction: PositionDirection) -> Order {
    Order {
        order_id: id,
        base_asset_amount: base,
        base_asset_amount_filled: filled,
        direction,
        slot: 42,
        ..Default::default()
    }
}

#[test]
fn dlob_nodes() {
    let bid = DlobNode::new(order(1, 10, 3, PositionDirection::Long));
    assert!(bid.is_bid() && !bid.is_ask());
    assert!(!bid.filled());
    assert_eq!(bid.slot(), 42);
    let done = DlobNode::new(order(2, 10, 10, PositionDirection::Short));
    assert!(done.filled() && done.is_ask());
    let status_filled = DlobNode::new(Order { status: OrderStatus::Filled, ..order(3, 10, 0, PositionDirection::Short) });
    assert!(status_filled.filled());
    // nodes are equal by order id and base amount
    assert!(DlobNode::new(order(1, 10, 0, PositionDirection::Short)) == bid);
    assert!(DlobNode::new(order(1, 11, 3, PositionDirection::Long)) != bid);
}

#[test]
fn trade_kinds() {
    assert!(TradeType::EnterLong.is_entry() && !TradeType::EnterLong.is_exit());
    assert!(TradeType::ExitShort.is_exit() && !TradeType::ExitShort.is_entry());
    assert!(TradeAction::EnterShort.is_entry());
    assert!(TradeAction::ExitLong.is_exit());
    assert_eq!(Timeframe::from("1m"), Timeframe::OneMinute);
    assert_eq!(Timeframe::from("1h"), Timeframe::OneHour);
    assert_eq!(Timeframe::from("1d"), Timeframe::OneDay);
    assert_eq!(Timeframe::from("weekly"), Timeframe::OneDay);
}

#[test]
fn entropy_bits_and_signals() {
    assert_eq!(EntropyBits::Two.bits(), 2);
    assert_eq!(EntropyBits::Two.patterns(), 3);
    assert_eq!(EntropyBits::Four.patterns(), 5);
    assert_eq!(EntropySignal::Up.signal(), 1);
    assert_eq!(EntropySignal::Down.signal(), -1);
    assert_eq!(EntropySignal::Neutral.signal(), 0);
}

#[test]
fn entropy_pattern_histogram() {
    // prices 5, 4, 6, 3, 2: falls between neighbours
    let falls = [true, false, true, true];
    let codes = pattern_codes(&falls, 5, 2);
    assert_eq!(codes, vec![1, 2, 0, 0, 0]);
    let hist = pattern_histogram(&falls, 5, 2);
    assert_eq!(hist.len(), 256);
    assert_eq!(hist[0], 3);
    assert_eq!(hist[1], 1);
    assert_eq!(hist[2], 1);
    assert_eq!(hist.iter().sum::<usize>(), 5);
}

#[test]
fn half_intervals() {
    assert_eq!(nexus::math::zscore::half(&[0, 10], 20), vec![0, 5, 10, 15, 20]);
    assert_eq!(nexus::utils::math::half(&[0, 4, 8], 5), vec![0, 2, 4]);
}

struct DatedBar(u64);

impl BarTrait for DatedBar {
    fn unix_date(&self) -> u64 {
        self.0
    }
}

#[test]
fn bar_hashes_depend_on_the_date_only() {
    let mut h = BarHasher::new();
    let a = h.hash_bar(&DatedBar(1_700_000_000));
    let b = h.hash_bar(&DatedBar(1_700_000_000));
    let c = h.hash_bar(&DatedBar(1_700_000_060));
    assert_eq!(a, b);
    assert_ne!(a, c);
}

#[test]
fn timers_run_forward() {
    let t = Timer::new();
    let ns = t.nanos();
    assert!(t.nanos() >= ns);
    assert!(t.seconds() < 60);
    assert!(t.millis() <= t.micros());
    assert!(unix_now() > 1_600_000_000);
}

#[test]
fn small_types() {
    let _ = EmptyStrategy::new();
    assert_ne!(CacheKeyRegistry::PerpMarkets, CacheKeyRegistry::SpotMarkets);
    let mut arr = AnyBitPatternArray { data: [1u8, 2, 3] };
    arr.as_array_mut()[0] = 9;
    assert_eq!(arr.as_array(), &[9, 2, 3]);
}
