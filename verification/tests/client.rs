use nexus::drift_client::client::{
    build_accounts, remaining_account_adds, MarketAdd, RemainingAccountMaps,
    RemainingAccountParams,
};
use nexus::drift_client::program_data::{AddressLookupTableAccount, ProgramData};
use nexus::drift_client::trader::DriftTrader;
use nexus::drift_client::types::{AccountMeta, MarketId};
use nexus::drift_cpi::{
    MarketType, OracleSource, PerpMarket, PerpPosition, Pubkey, SpotMarket, SpotPosition, User,
    UserStats, AMM,
};
use nexus::types::keyed_account::{Account, DecodedAcctCtx};

fn key(b: u8) -> Pubkey {
    Pubkey([b; 32])
}

fn program_data() -> ProgramData {
    // spot market i lives at key(10 + i) with oracle key(100 + i);
    // perp market i at key(20 + i) with oracle key(110 + i)
    let spot: Vec<SpotMarket> = (0..3u16)
        .rev()
        .map(|i| SpotMarket {
            market_index: i,
            pubkey: key(10 + i as u8),
            oracle: key(100 + i as u8),
            ..Default::default()
        })
        .collect();
    let perp: Vec<PerpMarket> = (0..2u16)
        .map(|i| PerpMarket {
            market_index: i,
            pubkey: key(20 + i as u8),
            amm: AMM { oracle: key(110 + i as u8), ..Default::default() },
            ..Default::default()
        })
        .collect();
    ProgramData::new(spot, perp, AddressLookupTableAccount { key: key(1), addresses: vec![] })
}

#[test]
fn program_data_orders_markets_by_index() {
    let pd = program_data();
    assert_eq!(pd.spot_market_configs().len(), 3);
    assert_eq!(pd.spot_market_config_by_index(2).unwrap().pubkey, key(12));
    assert_eq!(pd.perp_market_config_by_index(1).unwrap().pubkey, key(21));
    assert!(pd.spot_market_config_by_index(3).is_none());
    assert!(pd.perp_market_config_by_index(9).is_none());
    let empty = ProgramData::uninitialized();
    assert!(empty.spot_market_configs().is_empty());
    assert_eq!(empty.lookup_table.key, Pubkey::default());
}

fn meta(k: u8, writable: bool) -> AccountMeta {
    AccountMeta { pubkey: key(k), is_signer: false, is_writable: writable }
}

#[test]
fn build_accounts_sorts_oracles_spots_perps() {
    let pd = program_data();
    let base = vec![meta(200, true)];
    let mut user = User::default();
    user.perp_positions[3] = PerpPosition { market_index: 1, base_asset_amount: 5, ..Default::default() };
    user.spot_positions[0] = SpotPosition { market_index: 2, scaled_balance: 7, ..Default::default() };
    let r = build_accounts(&pd, base, &[user], &[MarketId::perp(0)], &[MarketId::spot(1)]);
    assert_eq!(
        r,
        vec![
            meta(200, true),
            // oracles by address
            meta(100, false),
            meta(101, false),
            meta(102, false),
            meta(110, false),
            meta(111, false),
            // spot markets, the writable one included once
            meta(10, false),
            meta(11, true),
            meta(12, false),
            // perp markets
            meta(20, false),
            meta(21, false),
        ]
    );
}

#[test]
fn build_accounts_writable_takes_priority() {
    let pd = program_data();
    let r = build_accounts(&pd, vec![], &[], &[MarketId::spot(0)], &[MarketId::spot(0)]);
    assert_eq!(r, vec![meta(100, false), meta(10, true)]);
}

#[test]
fn remaining_account_adds_in_order() {
    let mut user = User::default();
    // a free spot slot with open bids also brings the quote market
    user.spot_positions[1] = SpotPosition { market_index: 4, open_bids: 3, ..Default::default() };
    user.perp_positions[0] = PerpPosition { market_index: 2, base_asset_amount: 1, ..Default::default() };
    let params = RemainingAccountParams {
        user_accounts: vec![user],
        readable_perp_market_indexes: Some(vec![7]),
        writable_perp_market_indexes: None,
        readable_spot_market_indexes: None,
        writable_spot_market_indexes: Some(vec![8]),
        use_market_last_slot_cache: true,
    };
    let adds = remaining_account_adds(&params, 100, &[(5, 101), (6, 99)], &[(9, 100)]);
    let spot = |index: u16, writable: bool| MarketAdd { kind: MarketType::Spot, index, writable };
    let perp = |index: u16, writable: bool| MarketAdd { kind: MarketType::Perp, index, writable };
    let mut expected = vec![];
    // eight spot slots: all free; slot 1 has open bids
    for i in 0..8 {
        if i == 1 {
            expected.push(spot(4, false));
            expected.push(spot(0, false));
        } else {
            expected.push(spot(0, false));
        }
    }
    expected.push(perp(2, false));
    expected.push(perp(5, false));
    expected.push(perp(7, false));
    expected.push(spot(8, true));
    assert_eq!(adds, expected);
}

#[test]
fn remaining_account_maps_overwrite_and_list() {
    let mut maps = RemainingAccountMaps::new();
    let account = Account { lamports: 5, data: vec![1, 2], ..Default::default() };
    let spot = SpotMarket { market_index: 3, oracle: key(100), ..Default::default() };
    maps.add_spot_market(key(13), &spot, &account, &account, false);
    maps.add_spot_market(key(13), &spot, &account, &account, true);
    assert_eq!(maps.spot_market_account_map.len(), 1);
    assert!(maps.spot_market_account_map[0].1.is_writable);
    assert_eq!(maps.spot_market_account_map[0].1.data, vec![1, 2]);
    let perp = PerpMarket {
        market_index: 1,
        quote_spot_market_index: 0,
        amm: AMM { oracle: key(110), oracle_source: OracleSource::Prelaunch, ..Default::default() },
        ..Default::default()
    };
    let quote = maps.add_perp_market(key(21), 1, &perp, &account, &account, true);
    assert_eq!(quote, 0);
    let no_oracle = SpotMarket { market_index: 0, ..Default::default() };
    maps.add_spot_market(key(10), &no_oracle, &account, &account, false);
    let infos = maps.into_metas();
    let keys: Vec<Pubkey> = infos.iter().map(|i| i.key).collect();
    assert_eq!(keys, vec![key(100), key(110), key(13), key(10), key(21)]);
    // a prelaunch oracle of a writable perp market is writable
    assert!(infos[1].is_writable);
}

#[test]
fn best_user_is_the_last_with_most_pnl() {
    let u = |pnl: i64, k: u8| DecodedAcctCtx {
        key: key(k),
        account: Account::default(),
        slot: 0,
        decoded: User { settled_perp_pnl: pnl, ..Default::default() },
    };
    let trader = DriftTrader {
        authority: key(1),
        user_stats: DecodedAcctCtx { key: key(2), account: Account::default(), slot: 0, decoded: UserStats::default() },
        users: vec![u(5, 1), u(9, 2), u(9, 3), u(-1, 4)],
    };
    assert_eq!(trader.best_user().key, key(3));
}
