use nexus::drift_client::client::MarketAdd;
use nexus::drift_client::remaining::{remaining_account_metas, RemainingAccountsError};
use nexus::drift_cpi::{MarketType, OracleSource, PerpMarket, Pubkey, SpotMarket, AMM};
use nexus::types::keyed_account::Account;

fn key(b: u8) -> Pubkey {
    Pubkey([b; 32])
}

fn acct(l: u64) -> Account {
    Account { lamports: l, ..Default::default() }
}

fn spot_row(index: u16, oracle: u8) -> (Pubkey, SpotMarket, Account, Option<Account>) {
    let m = SpotMarket { market_index: index, oracle: key(oracle), ..Default::default() };
    (key(10 + index as u8), m, acct(100 + index as u64), Some(acct(200 + oracle as u64)))
}

fn perp_row(index: u16, oracle: u8, quote: u16, prelaunch: bool) -> (Pubkey, PerpMarket, Account, Option<Account>) {
    let m = PerpMarket {
        market_index: index,
        quote_spot_market_index: quote,
        amm: AMM {
            oracle: key(oracle),
            oracle_source: if prelaunch { OracleSource::Prelaunch } else { OracleSource::default() },
            ..Default::default()
        },
        ..Default::default()
    };
    (key(20 + index as u8), m, acct(300 + index as u64), Some(acct(400 + oracle as u64)))
}

fn add(kind: MarketType, index: u16, writable: bool) -> MarketAdd {
    MarketAdd { kind, index, writable }
}

#[test]
fn remaining_accounts_list_oracles_spots_perps() {
    let spots = [spot_row(0, 50), spot_row(1, 51)];
    let perps = [perp_row(0, 60, 0, true)];
    let adds = [
        add(MarketType::Perp, 0, true),
        add(MarketType::Spot, 1, false),
        add(MarketType::Spot, 1, true),
    ];
    let metas = remaining_account_metas(&adds, &spots, &perps).unwrap();
    let keys: Vec<u8> = metas.iter().map(|m| m.key.0[0]).collect();
    // oracles (perp's, quote's, spot 1's), spot markets 0 and 1, perp market 0
    assert_eq!(keys, vec![60, 50, 51, 10, 11, 20]);
    let writable: Vec<bool> = metas.iter().map(|m| m.is_writable).collect();
    // the prelaunch oracle of a writable perp market is writable; spot 1
    // was asked for as writable last
    assert_eq!(writable, vec![true, false, false, false, true, true]);
    assert!(metas.iter().all(|m| !m.is_signer && !m.executable));
    assert_eq!(metas[5].lamports, 300);
}

#[test]
fn remaining_accounts_zero_oracle_is_left_out() {
    let mut row = spot_row(3, 0);
    row.1.oracle = Pubkey::default();
    let metas = remaining_account_metas(&[add(MarketType::Spot, 3, false)], &[row], &[]).unwrap();
    assert_eq!(metas.len(), 1);
    assert!(metas[0].key == key(13));
}

#[test]
fn remaining_accounts_errors() {
    let spots = [spot_row(0, 50)];
    let perps = [perp_row(0, 60, 7, false)];
    assert_eq!(
        remaining_account_metas(&[add(MarketType::Spot, 4, false)], &spots, &perps).unwrap_err(),
        RemainingAccountsError::SpotMarketNotFound { index: 4 }
    );
    assert_eq!(
        remaining_account_metas(&[add(MarketType::Perp, 2, false)], &spots, &perps).unwrap_err(),
        RemainingAccountsError::PerpMarketNotFound { index: 2 }
    );
    assert_eq!(
        remaining_account_metas(&[add(MarketType::Perp, 0, false)], &spots, &perps).unwrap_err(),
        RemainingAccountsError::SpotMarketNotFound { index: 7 }
    );
    let mut no_oracle = spot_row(0, 50);
    no_oracle.3 = None;
    assert_eq!(
        remaining_account_metas(&[add(MarketType::Spot, 0, false)], &[no_oracle], &[]).unwrap_err(),
        RemainingAccountsError::OracleNotFound { oracle: key(50) }
    );
    assert!(remaining_account_metas(&[], &spots, &perps).unwrap().is_empty());
}
