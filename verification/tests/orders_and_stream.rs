use nexus::cache::{oracle_registry, Cache, CacheError};
use nexus::drift_client::orders::{
    base_total, cancel_orders_plan, market_listed, orders_by_market, placed_orders,
    rescaled_order, user_spot_position,
};
use nexus::drift_client::types::MarketId;
use nexus::drift_cpi::{
    MarketType, OrderParams, PerpMarket, PositionDirection, Pubkey, SpotMarket, SpotPosition,
    User, AMM,
};
use nexus::nexus_client::{
    account_chunk_ranges, account_update, decode_transaction, signature_request_limits, CompiledInstruction,
    StreamError,
};
use nexus::types::keyed_account::{fetched_accounts, Account};

fn order(market_index: u16, market_type: MarketType, base: u64) -> OrderParams {
    OrderParams {
        market_index,
        market_type,
        base_asset_amount: base,
        ..Default::default()
    }
}

fn bases(orders: &[OrderParams]) -> Vec<u64> {
    orders.iter().map(|o| o.base_asset_amount).collect()
}

fn sample_orders() -> Vec<OrderParams> {
    vec![
        order(1, MarketType::Perp, 10),
        order(0, MarketType::Spot, 5),
        order(1, MarketType::Perp, 20),
        order(2, MarketType::Perp, 7),
    ]
}

#[test]
fn orders_grouped_by_market_in_first_seen_order() {
    let groups = orders_by_market(&sample_orders(), None);
    let keys: Vec<u16> = groups.iter().map(|g| g.0).collect();
    assert_eq!(keys, vec![1, 0, 2]);
    assert_eq!(bases(&groups[0].1), vec![10, 20]);
    assert_eq!(bases(&groups[1].1), vec![5]);
    assert_eq!(bases(&groups[2].1), vec![7]);
    let placed = placed_orders(&groups);
    assert_eq!(bases(&placed), vec![10, 20, 5, 7]);
}

#[test]
fn order_filter_matches_index_and_kind() {
    let filter = [MarketId::perp(1), MarketId::spot(2)];
    let groups = orders_by_market(&sample_orders(), Some(&filter));
    assert_eq!(groups.len(), 1);
    assert_eq!(groups[0].0, 1);
    assert_eq!(bases(&groups[0].1), vec![10, 20]);
    assert!(market_listed(&filter, MarketId::spot(2)));
    assert!(!market_listed(&filter, MarketId::perp(2)));
    assert!(orders_by_market(&[], None).is_empty());
}

#[test]
fn order_base_totals() {
    assert_eq!(base_total(&sample_orders()), Some(42));
    assert_eq!(base_total(&[]), Some(0));
    let big = [order(0, MarketType::Perp, u64::MAX), order(0, MarketType::Perp, 1)];
    assert_eq!(base_total(&big), None);
}

#[test]
fn copied_order_takes_new_size_and_offset() {
    let mut o = order(3, MarketType::Perp, 100);
    o.max_ts = Some(77);
    o.price = 9;
    o.oracle_price_offset = Some(-4);
    let r = rescaled_order(o, 55, 12);
    assert_eq!(r.base_asset_amount, 55);
    assert_eq!(r.max_ts, None);
    assert_eq!(r.oracle_price_offset, Some(12));
    assert_eq!(r.price, 9);
    assert_eq!(r.market_index, 3);

    let mut limit = order(3, MarketType::Perp, 100);
    limit.oracle_price_offset = None;
    let r = rescaled_order(limit, 1, 12);
    assert_eq!(r.oracle_price_offset, None);
    assert_eq!(r.base_asset_amount, 1);
}

#[test]
fn user_spot_position_is_the_first_in_the_market() {
    let mut user = User::default();
    for (i, p) in user.spot_positions.iter_mut().enumerate() {
        *p = SpotPosition { market_index: 10 + i as u16, cumulative_deposits: i as i64, ..Default::default() };
    }
    user.spot_positions[5].market_index = 12;
    let p = user_spot_position(&user, 12).unwrap();
    assert_eq!(p.cumulative_deposits, 2);
    assert!(user_spot_position(&user, 99).is_none());
}

#[test]
fn cancel_plans() {
    let filter = [MarketId::perp(1)];
    assert!(cancel_orders_plan(Some(&filter), Some(MarketId::perp(2)), None).is_none());

    let p = cancel_orders_plan(Some(&filter), Some(MarketId::perp(1)), Some(PositionDirection::Short)).unwrap();
    assert_eq!(p.markets_readable, vec![MarketId::perp(1)]);
    assert_eq!(p.market_index, Some(1));
    assert_eq!(p.market_type, Some(MarketType::Perp));
    assert_eq!(p.direction, Some(PositionDirection::Short));

    let all = cancel_orders_plan(Some(&filter), None, Some(PositionDirection::Long)).unwrap();
    assert!(all.markets_readable.is_empty());
    assert_eq!(all.market_index, None);
    assert_eq!(all.market_type, None);
    assert_eq!(all.direction, None);
}

#[test]
fn signature_requests_by_limit() {
    assert_eq!(signature_request_limits(None), vec![1000]);
    assert_eq!(signature_request_limits(Some(250)), vec![250]);
    assert_eq!(signature_request_limits(Some(1000)), vec![1000]);
    assert_eq!(signature_request_limits(Some(2000)), vec![1000, 1000]);
    assert_eq!(signature_request_limits(Some(3000)), vec![1000, 1000, 1000]);
    assert_eq!(signature_request_limits(Some(2500)), vec![1000, 1000, 500]);
}

#[test]
fn account_lookups_in_chunks_of_100() {
    assert_eq!(account_chunk_ranges(0), vec![(0, 0)]);
    assert_eq!(account_chunk_ranges(100), vec![(0, 100)]);
    assert_eq!(account_chunk_ranges(101), vec![(0, 100), (100, 101)]);
    assert_eq!(account_chunk_ranges(300), vec![(0, 100), (100, 200), (200, 300)]);
}

#[test]
fn fetched_accounts_skip_missing_ones() {
    let keys = [Pubkey([1; 32]), Pubkey([2; 32]), Pubkey([3; 32])];
    let acct = |l: u64| Account { lamports: l, ..Default::default() };
    let got = fetched_accounts(&keys, vec![Some(acct(10)), None, Some(acct(30))], 77);
    assert_eq!(got.len(), 2);
    assert!(got[0].key == keys[0] && got[0].account.lamports == 10 && got[0].slot == 77);
    assert!(got[1].key == keys[2] && got[1].account.lamports == 30 && got[1].slot == 77);
    assert!(fetched_accounts(&keys, vec![], 1).is_empty());
}

fn keys() -> Vec<Vec<u8>> {
    vec![vec![1u8; 32], vec![2u8; 32], vec![3u8; 32]]
}

#[test]
fn decode_transaction_resolves_keys() {
    let ix = CompiledInstruction { program_id_index: 2, accounts: vec![0, 1, 5, 0], data: vec![9, 8] };
    let tx = decode_transaction(42, &keys(), &[ix], &[7u8; 64], &[0u8; 32]).unwrap();
    assert_eq!(tx.slot, 42);
    assert!(tx.signer == Pubkey([1; 32]));
    assert_eq!(tx.signature, [7u8; 64]);
    assert_eq!(tx.blockhash, "11111111111111111111111111111111");
    assert_eq!(tx.ixs.len(), 1);
    assert!(tx.ixs[0].program == Pubkey([3; 32]));
    let accounts: Vec<[u8; 32]> = tx.ixs[0].accounts.iter().map(|k| k.0).collect();
    assert_eq!(accounts, vec![[1u8; 32], [2u8; 32], [1u8; 32]]);
    assert_eq!(tx.ixs[0].data, vec![9, 8]);
}

#[test]
fn decode_transaction_errors() {
    let bad = CompiledInstruction { program_id_index: 9, accounts: vec![], data: vec![] };
    assert_eq!(
        decode_transaction(1, &keys(), &[bad], &[0u8; 64], &[0u8; 32]).unwrap_err(),
        StreamError::ProgramNotFound { index: 9 }
    );
    assert_eq!(
        decode_transaction(1, &[], &[], &[0u8; 64], &[0u8; 32]).unwrap_err(),
        StreamError::SignerNotFound
    );
    assert_eq!(
        decode_transaction(1, &keys(), &[], &[0u8; 10], &[0u8; 32]).unwrap_err(),
        StreamError::BadSignature
    );
    assert_eq!(
        decode_transaction(1, &keys(), &[], &[0u8; 64], &[0u8; 5]).unwrap_err(),
        StreamError::BadBlockhash
    );
}

#[test]
fn account_updates_need_32_byte_keys() {
    let ctx = match account_update(&[4u8; 32], 12, 500, vec![1, 2], &[5u8; 32], true, 3) {
        Ok(c) => c,
        Err(e) => panic!("a well formed update is read: {:?}", e),
    };
    assert!(ctx.key == Pubkey([4; 32]) && ctx.slot == 12);
    assert_eq!(ctx.account.lamports, 500);
    assert_eq!(ctx.account.data, vec![1, 2]);
    assert!(ctx.account.owner == Pubkey([5; 32]));
    assert!(ctx.account.executable && ctx.account.rent_epoch == 3);
    match account_update(&[4u8; 31], 12, 0, vec![], &[5u8; 3], false, 0) {
        Err(e) => assert_eq!(e, StreamError::BadAccountKey),
        Ok(_) => panic!("a short address is refused"),
    }
    match account_update(&[4u8; 32], 12, 0, vec![], &[5u8; 33], false, 0) {
        Err(e) => assert_eq!(e, StreamError::BadOwner),
        Ok(_) => panic!("a long owner is refused"),
    }
}

#[test]
fn slots_only_move_forward() {
    let mut cache = Cache::new(4);
    cache.observe_slot(5);
    assert_eq!(cache.slot, 5);
    cache.observe_slot(3);
    assert_eq!(cache.slot, 5);
    cache.observe_slot(9);
    assert_eq!(cache.slot, 9);
}

#[test]
fn blocks_with_a_time_are_stored() {
    let mut cache = Cache::new(2);
    cache.observe_block(5, "h5".to_string(), Some(100));
    let b = cache.block(Some(5)).unwrap();
    assert_eq!((b.slot, b.blockhash.as_str(), b.time), (5, "h5", 100));
    cache.observe_block(6, "h6".to_string(), None);
    assert_eq!(cache.block(Some(6)).unwrap_err(), CacheError::BlockNotFound { slot: 6 });
    cache.observe_block(7, "h7".to_string(), Some(101));
    cache.observe_block(8, "h8".to_string(), Some(102));
    assert_eq!(cache.block(Some(5)).unwrap_err(), CacheError::BlockNotFound { slot: 5 });
    assert_eq!(cache.block(None).unwrap().slot, 8);
}

fn perp(index: u16, oracle: u8, quote: u16) -> PerpMarket {
    PerpMarket {
        market_index: index,
        quote_spot_market_index: quote,
        amm: AMM { oracle: Pubkey([oracle; 32]), ..Default::default() },
        ..Default::default()
    }
}

fn spot(index: u16, oracle: u8) -> SpotMarket {
    SpotMarket { market_index: index, oracle: Pubkey([oracle; 32]), ..Default::default() }
}

#[test]
fn oracle_registry_lists_perp_and_quote_oracles() {
    let perps = [perp(0, 50, 0), perp(1, 51, 0), perp(2, 50, 1)];
    let spots = [spot(0, 60), spot(1, 61)];
    let (po, so) = oracle_registry(&perps, &spots).unwrap();
    let perp_keys: Vec<u8> = po.iter().map(|e| e.0 .0[0]).collect();
    assert_eq!(perp_keys, vec![50, 51]);
    // a later market of the same oracle replaces the earlier one
    assert_eq!(po[0].1.market.market_index, 2);
    let spot_keys: Vec<u8> = so.iter().map(|e| e.0 .0[0]).collect();
    assert_eq!(spot_keys, vec![60, 61]);

    let missing = [perp(0, 50, 7)];
    match oracle_registry(&missing, &spots) {
        Err(e) => assert_eq!(e, CacheError::SpotMarketNotFound),
        Ok(_) => panic!("a perp market without its quote spot market has no oracles"),
    }
}
