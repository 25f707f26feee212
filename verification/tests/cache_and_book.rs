use nexus::cache::{Cache, CacheError, CacheKeyRegistry};
use nexus::drift_client::orderbook::{InnerOrderbook, OrderbookError};
use nexus::drift_client::types::MarketId;
use nexus::drift_cpi::{MarketType, Order, OrderStatus, PositionDirection, Pubkey, User};
use nexus::types::geyser::BlockInfo;
use nexus::types::keyed_account::{Account, AcctCtx, DecodedAcctCtx};

fn key(b: u8) -> Pubkey {
    Pubkey([b; 32])
}

fn ctx(k: u8, slot: u64, lamports: u64) -> AcctCtx {
    AcctCtx {
        key: key(k),
        account: Account { lamports, ..Default::default() },
        slot,
    }
}

#[test]
fn cache_reads_back_stored_updates() {
    let mut cache = Cache::new(3);
    assert_eq!(cache.account(&key(1), None).err(), Some(CacheError::ProgramNotFound { key: key(1) }));
    cache.insert_account(key(1), 10, ctx(1, 10, 100));
    cache.insert_account(key(1), 20, ctx(1, 20, 200));
    cache.insert_account(key(2), 15, ctx(2, 15, 150));
    assert_eq!(cache.account(&key(1), Some(10)).unwrap().account.lamports, 100);
    assert_eq!(cache.account(&key(1), Some(20)).unwrap().account.lamports, 200);
    // no update at slot 17: the latest at or before it
    assert_eq!(cache.account(&key(1), Some(17)).unwrap().account.lamports, 100);
    assert_eq!(
        cache.account(&key(1), Some(5)).err(),
        Some(CacheError::NoSlotAtOrBefore { slot: 5, key: key(1) })
    );
    // no slot: the newest
    assert_eq!(cache.account(&key(1), None).unwrap().slot, 20);
    assert_eq!(cache.ring(&key(2)).unwrap().len(), 1);
    assert!(cache.ring(&key(3)).is_err());
}

#[test]
fn cache_keeps_depth_updates() {
    let mut cache = Cache::new(2);
    for slot in [1u64, 2, 3] {
        cache.insert_account(key(1), slot, ctx(1, slot, slot * 10));
    }
    assert_eq!(cache.ring(&key(1)).unwrap().len(), 2);
    assert!(cache.account(&key(1), Some(1)).is_err());
    assert_eq!(cache.account(&key(1), Some(3)).unwrap().account.lamports, 30);
}

#[test]
fn cache_accounts_and_registry() {
    let mut cache = Cache::new(4);
    cache.insert_account(key(1), 10, ctx(1, 10, 1));
    cache.insert_account(key(2), 10, ctx(2, 10, 2));
    cache.insert_account(key(2), 11, ctx(2, 11, 3));
    let at10: Vec<u64> = cache.accounts(Some(10)).unwrap().iter().map(|a| a.account.lamports).collect();
    assert_eq!(at10, vec![1, 2]);
    let newest: Vec<u64> = cache.accounts(None).unwrap().iter().map(|a| a.account.lamports).collect();
    assert_eq!(newest, vec![1, 3]);
    assert_eq!(cache.accounts(Some(11)).unwrap().len(), 1);
    assert_eq!(
        cache.registry_keys(&CacheKeyRegistry::PerpMarkets, None).err(),
        Some(CacheError::RegistryKeyNotFound)
    );
    cache.register(CacheKeyRegistry::PerpMarkets, vec![key(2)]);
    let perps = cache.registry_keys(&CacheKeyRegistry::PerpMarkets, None).unwrap();
    assert_eq!(perps.len(), 1);
    assert_eq!(perps[0].key, key(2));
    cache.register(CacheKeyRegistry::PerpMarkets, vec![key(1), key(2)]);
    assert_eq!(cache.registry_keys(&CacheKeyRegistry::PerpMarkets, None).unwrap().len(), 2);
}

#[test]
fn cache_blocks() {
    let mut cache = Cache::new(2);
    assert_eq!(cache.block(None).err(), Some(CacheError::NoBlocks));
    cache.blocks.insert(5, BlockInfo { slot: 5, blockhash: "a".to_string(), time: 100 });
    cache.blocks.insert(6, BlockInfo { slot: 6, blockhash: "b".to_string(), time: 101 });
    assert_eq!(cache.block(Some(5)).unwrap().blockhash, "a");
    assert_eq!(cache.block(None).unwrap().slot, 6);
    assert_eq!(cache.block(Some(7)).err(), Some(CacheError::BlockNotFound { slot: 7 }));
}

fn order(id: u32, market_index: u16, kind: MarketType, filled: bool) -> Order {
    Order {
        order_id: id,
        market_index,
        market_type: kind,
        base_asset_amount: 10,
        base_asset_amount_filled: if filled { 10 } else { 0 },
        direction: PositionDirection::Long,
        status: OrderStatus::Open,
        ..Default::default()
    }
}

#[test]
fn orderbook_takes_open_orders_and_drops_filled_ones() {
    let market = MarketId::perp(0);
    let mk = market.key().unwrap();
    let mut book = InnerOrderbook::new(vec![market]);
    assert!(!book.ready(&mk));
    assert_eq!(book.orders(&mk).err(), Some(OrderbookError::NotFound { market: mk }));
    assert_eq!(book.market_users(&market).err(), Some(OrderbookError::NotFound { market: mk }));
    book.insert_order(mk, key(1), order(1, 0, MarketType::Perp, false)).unwrap();
    book.insert_order(mk, key(1), order(2, 0, MarketType::Perp, false)).unwrap();
    book.insert_order(mk, key(2), order(3, 0, MarketType::Perp, false)).unwrap();
    assert!(book.ready(&mk));
    assert_eq!(book.market_users(&market).unwrap(), 2);
    assert_eq!(book.market_orders(&market).unwrap(), 3);
    // a filled order takes its id out
    book.insert_order(mk, key(1), order(1, 0, MarketType::Perp, true)).unwrap();
    assert_eq!(book.market_orders(&market).unwrap(), 2);
    let users = book.orders(&mk).unwrap();
    assert_eq!(users[0].0, key(1));
    assert_eq!(users[0].1.len(), 1);
    assert_eq!(users[0].1[0].order.order_id, 2);
}

fn user_with(orders: &[Order], has_open_order: bool) -> User {
    let mut u = User { has_open_order, ..Default::default() };
    for (i, o) in orders.iter().enumerate() {
        u.orders[i] = *o;
    }
    u
}

#[test]
fn orderbook_loads_users_in_its_markets() {
    let perp0 = MarketId::perp(0);
    let spot1 = MarketId::spot(1);
    let mut book = InnerOrderbook::new(vec![perp0]);
    let u = user_with(&[order(1, 0, MarketType::Perp, false), order(2, 1, MarketType::Spot, false)], true);
    let quiet = user_with(&[order(3, 0, MarketType::Perp, false)], false);
    let ctx = |k: u8, u: User| DecodedAcctCtx { key: key(k), account: Account::default(), slot: 1, decoded: u };
    book.load(vec![ctx(1, u), ctx(2, quiet)]).unwrap();
    assert_eq!(book.market_users(&perp0).unwrap(), 1);
    assert_eq!(book.market_orders(&perp0).unwrap(), 1);
    assert!(book.orders(&spot1.key().unwrap()).is_err());
    // insert_user takes every order, each in its own market (filled ones
    // included, which only make entries)
    let mut all = InnerOrderbook::new(vec![]);
    all.insert_user(ctx(1, u)).unwrap();
    assert_eq!(all.market_orders(&spot1).unwrap(), 1);
    assert_eq!(all.market_orders(&perp0).unwrap(), 1);
}
