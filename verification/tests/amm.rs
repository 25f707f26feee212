use nexus::drift_client::amm::AmmUtils;
use nexus::drift_client::bigint::BigNum;
use nexus::drift_cpi::{
    AssetType, HistoricalOracleData, OraclePriceData, PerpMarket, PositionDirection,
    SwapDirection, AMM,
};

fn big(x: i128) -> BigNum {
    BigNum::new(x)
}

fn val(x: &BigNum) -> i128 {
    x.value_i128().unwrap()
}

fn simple_amm() -> AMM {
    AMM {
        base_asset_reserve: 1_000_000_000,
        quote_asset_reserve: 2_000_000_000,
        sqrt_k: 1_414_213_562,
        peg_multiplier: 1_000_000,
        min_base_asset_reserve: 500_000_000,
        max_base_asset_reserve: 2_000_000_000,
        ..Default::default()
    }
}

#[test]
fn bignum_arithmetic() {
    let a = big(-7);
    let b = big(2);
    assert_eq!(val(&a.add_i(2)), -5);
    assert_eq!(val(&a.mul_i(2)), -14);
    // division truncates toward zero
    assert_eq!(val(&a.div_i(2)), -3);
    assert_eq!(val(&a.div_i(-2)), 3);
    assert_eq!(val(&a.abs()), 7);
    assert_eq!(val(&a.neg()), 7);
    assert_eq!(val(&a.max(&b)), 2);
    assert_eq!(val(&a.min(&b)), -7);
    assert!(a.le(&b) && !a.gt(&b) && !a.ge(&b) && !a.eq(&b));
    assert!(a.eq(&a.copy()));
    let huge = big(i128::MAX).mul_i(2);
    assert_eq!(huge.value_i128(), None);
    assert_eq!(val(&huge.div_i(2)), i128::MAX);
    assert_eq!(val(&BigNum::from_u64(u64::MAX)), u64::MAX as i128);
    assert_eq!(val(&BigNum::from_i64(i64::MIN)), i64::MIN as i128);
}

#[test]
fn max_spread_from_margin_ratio() {
    assert_eq!(AmmUtils::calc_max_spread(1_000), 100_000);
    assert_eq!(AmmUtils::calc_max_spread(0), 0);
}

#[test]
fn swap_direction_by_side() {
    assert_eq!(AmmUtils::swap_direction(AssetType::Base, PositionDirection::Long), SwapDirection::Remove);
    assert_eq!(AmmUtils::swap_direction(AssetType::Quote, PositionDirection::Short), SwapDirection::Remove);
    assert_eq!(AmmUtils::swap_direction(AssetType::Base, PositionDirection::Short), SwapDirection::Add);
    assert_eq!(AmmUtils::swap_direction(AssetType::Quote, PositionDirection::Long), SwapDirection::Add);
}

#[test]
fn clamp_and_sign() {
    assert_eq!(val(&AmmUtils::clamp_num(big(5), big(0), big(3))), 3);
    assert_eq!(val(&AmmUtils::clamp_num(big(-2), big(0), big(3))), 0);
    assert_eq!(val(&AmmUtils::clamp_num(big(2), big(0), big(3))), 2);
    assert_eq!(AmmUtils::sig_num(big(-5)), -1);
    assert_eq!(AmmUtils::sig_num(big(0)), 1);
    assert_eq!(AmmUtils::sig_num(big(9)), 1);
}

#[test]
fn price_and_peg_round_trip() {
    let price = AmmUtils::calc_price(big(1_000), big(2_000), big(1_000_000));
    assert_eq!(val(&price), 2_000_000);
    let peg = AmmUtils::calc_peg_from_target_price(big(2_000_000), big(1_000), big(2_000));
    assert_eq!(val(&peg), 1_000_000);
    // the peg never falls below one
    let peg = AmmUtils::calc_peg_from_target_price(big(0), big(1_000), big(2_000));
    assert_eq!(val(&peg), 1);
}

#[test]
fn swap_output_keeps_the_product() {
    let r = AmmUtils::calc_swap_output(big(100), big(25), SwapDirection::Add, big(10_000));
    assert_eq!(val(&r.new_quote_asset_reserve), 125);
    assert_eq!(val(&r.new_base_asset_reserve), 80);
    let r = AmmUtils::calc_swap_output(big(100), big(25), SwapDirection::Remove, big(10_000));
    assert_eq!(val(&r.new_quote_asset_reserve), 75);
    assert_eq!(val(&r.new_base_asset_reserve), 133);
}

#[test]
fn live_oracle_twap_clamps_the_oracle() {
    let hist = HistoricalOracleData {
        last_oracle_price_twap: 100,
        last_oracle_price_twap5min: 90,
        last_oracle_price_twap_ts: 0,
        ..Default::default()
    };
    let oracle = OraclePriceData { price: 200, ..Default::default() };
    assert_eq!(AmmUtils::calc_live_oracle_twap(hist, oracle, 10, 3_600), 100);
    assert_eq!(AmmUtils::calc_live_oracle_twap(hist, oracle, 10, 300), 91);
}

#[test]
fn open_bids_and_asks() {
    let r = AmmUtils::calc_market_open_bid_ask(big(100), big(50), big(200), None);
    assert_eq!(val(&r.open_bids), 100);
    assert_eq!(val(&r.open_asks), -50);
    let r = AmmUtils::calc_market_open_bid_ask(big(100), big(50), big(200), Some(big(30)));
    assert_eq!(val(&r.open_bids), 100);
    assert_eq!(val(&r.open_asks), 0);
}

#[test]
fn inventory_liquidity_ratio_of_thinner_side() {
    let r = AmmUtils::calc_inventory_liquidity_ratio(big(10), big(100), big(50), big(200));
    assert_eq!(val(&r), 200_000);
    let r = AmmUtils::calc_inventory_liquidity_ratio(big(10_000), big(100), big(50), big(200));
    assert_eq!(val(&r), 1_000_000);
}

#[test]
fn spread_without_curve_updates_is_half_the_base_spread() {
    let amm = AMM { base_spread: 101, curve_update_intensity: 0, ..simple_amm() };
    let s = AmmUtils::calc_spread_at(&amm, OraclePriceData::default(), 0, None).unwrap();
    assert_eq!(val(&s.long_spread), 50);
    assert_eq!(val(&s.short_spread), 50);
    let s = AmmUtils::calc_spread(&amm, OraclePriceData::default(), Some(5), None).unwrap();
    assert_eq!(val(&s.long_spread), 50);
}

#[test]
fn updated_amm_without_intensity_is_unchanged() {
    let amm = simple_amm();
    let updated = AmmUtils::calc_updated_amm(&amm, OraclePriceData { price: 3_000_000, ..Default::default() }).unwrap();
    assert_eq!(updated.peg_multiplier, amm.peg_multiplier);
    assert_eq!(updated.base_asset_reserve, amm.base_asset_reserve);
    assert_eq!(updated.quote_asset_reserve, amm.quote_asset_reserve);
}

#[test]
fn bid_and_ask_without_spread_meet_at_the_reserve_price() {
    let market = PerpMarket { amm: simple_amm(), ..Default::default() };
    let (bid, ask) = AmmUtils::bid_ask_price_values(&market, OraclePriceData::default(), false, 0).unwrap();
    assert_eq!(val(&bid), 2_000_000);
    assert_eq!(val(&ask), 2_000_000);
    let long = AmmUtils::side_price_value(&market, PositionDirection::Long, OraclePriceData::default(), 0).unwrap();
    assert_eq!(val(&long), 2_000_000);
}

#[test]
fn spread_reserves_without_spread_are_the_amm_reserves() {
    let amm = simple_amm();
    let r = AmmUtils::calc_spread_reserves_at(&amm, OraclePriceData::default(), 0).unwrap();
    assert_eq!(val(&r.bid_reserves.base_asset_reserve), 1_000_000_000);
    assert_eq!(val(&r.ask_reserves.quote_asset_reserve), 2_000_000_000);
}

#[test]
fn repeg_cost_of_the_same_peg_is_zero() {
    let amm = AMM { terminal_quote_asset_reserve: 1_000_000_000, ..simple_amm() };
    assert_eq!(val(&AmmUtils::calc_repeg_cost(&amm, big(1_000_000))), 0);
    // (2e9 - 1e9) * (2e6 - 1e6) / 1e3 / 1e6
    assert_eq!(val(&AmmUtils::calc_repeg_cost(&amm, big(2_000_000))), 1_000_000);
}
