use nexus::drift_client::utils::{id, BalanceError, DriftUtils};
use nexus::drift_cpi::{PerpPosition, Pubkey, SpotBalanceType, SpotMarket, SpotPosition};

fn sdk(k: &Pubkey) -> solana_sdk::pubkey::Pubkey {
    solana_sdk::pubkey::Pubkey::new_from_array(k.0)
}

fn expected(seeds: &[&[u8]]) -> [u8; 32] {
    solana_sdk::pubkey::Pubkey::find_program_address(seeds, &sdk(&id()))
        .0
        .to_bytes()
}

#[test]
fn program_id_is_drift() {
    assert_eq!(sdk(&id()).to_string(), "dRiftyHA39MWEi3m9aunc5MzRF1JYuBsbn6VPcn33UH");
}

#[test]
fn state_pda_matches_solana() {
    assert_eq!(DriftUtils::state_pda().unwrap().0, expected(&[b"drift_state"]));
}

#[test]
fn market_pdas_match_solana() {
    for index in [0u16, 1, 7, 300] {
        let le = index.to_le_bytes();
        assert_eq!(DriftUtils::spot_market_pda(index).unwrap().0, expected(&[b"spot_market", &le]));
        assert_eq!(DriftUtils::perp_market_pda(index).unwrap().0, expected(&[b"perp_market", &le]));
        assert_eq!(
            DriftUtils::spot_market_vault(index).unwrap().0,
            expected(&[b"spot_market_vault", &le])
        );
    }
    // spot and perp markets of one index live at different addresses
    assert_ne!(DriftUtils::spot_market_pda(1).unwrap().0, DriftUtils::perp_market_pda(1).unwrap().0);
}

#[test]
fn all_market_pdas_in_index_order() {
    let (spot, perp) = DriftUtils::market_pdas(3, 2);
    assert_eq!(spot.len(), 3);
    assert_eq!(perp.len(), 2);
    for (i, k) in spot.iter().enumerate() {
        assert_eq!(k.unwrap().0, expected(&[b"spot_market", &(i as u16).to_le_bytes()]));
    }
    for (i, k) in perp.iter().enumerate() {
        assert_eq!(k.unwrap().0, expected(&[b"perp_market", &(i as u16).to_le_bytes()]));
    }
    let (none_spot, none_perp) = DriftUtils::market_pdas(0, 0);
    assert!(none_spot.is_empty() && none_perp.is_empty());
}

#[test]
fn user_pdas_match_solana() {
    let authority = Pubkey([7u8; 32]);
    for sub in [0u16, 1, 513] {
        assert_eq!(
            DriftUtils::user_pda(&authority, sub).unwrap().0,
            expected(&[b"user", &authority.0, &sub.to_le_bytes()])
        );
    }
    assert_eq!(
        DriftUtils::user_stats_pda(&authority).unwrap().0,
        expected(&[b"user_stats", &authority.0])
    );
}

#[test]
fn names_encode_and_decode() {
    let bytes = DriftUtils::encode_name("SOL-PERP");
    assert_eq!(&bytes[..8], b"SOL-PERP");
    assert!(bytes[8..].iter().all(|b| *b == 0));
    let mut padded = [b' '; 32];
    padded[2..10].copy_from_slice(b"BTC-PERP");
    assert_eq!(DriftUtils::decode_name(&padded), "BTC-PERP");
    // zero bytes are not white space, so they stay
    assert_eq!(DriftUtils::decode_name(&bytes).len(), 32);
    assert!(DriftUtils::decode_name(&bytes).starts_with("SOL-PERP"));
}

fn usdc() -> SpotMarket {
    SpotMarket {
        decimals: 6,
        cumulative_deposit_interest: 10_000_000_000_000,
        cumulative_borrow_interest: 20_000_000_000_000,
        mint: Pubkey([3u8; 32]),
        ..Default::default()
    }
}

#[test]
fn spot_balance_scales_by_interest() {
    // 1_000_000 * 10^13 / 10^13
    let b = DriftUtils::spot_balance(1_000_000, &usdc(), &SpotBalanceType::Deposit, false).unwrap();
    assert_eq!(b.balance, 1_000_000);
    assert_eq!(b.mint, Pubkey([3u8; 32]));
    let b = DriftUtils::spot_balance(1_000_000, &usdc(), &SpotBalanceType::Borrow, false).unwrap();
    assert_eq!(b.balance, 500_000);
    let b = DriftUtils::spot_balance(1_000_000, &usdc(), &SpotBalanceType::Borrow, true).unwrap();
    assert_eq!(b.balance, 500_001);
    let b = DriftUtils::spot_balance(0, &usdc(), &SpotBalanceType::Borrow, true).unwrap();
    assert_eq!(b.balance, 0);
}

#[test]
fn spot_balance_errors() {
    let too_precise = SpotMarket { decimals: 20, ..usdc() };
    assert_eq!(
        DriftUtils::spot_balance(1, &too_precise, &SpotBalanceType::Deposit, false).err(),
        Some(BalanceError::CheckedSubOverflow)
    );
    assert_eq!(
        DriftUtils::spot_balance(u128::MAX, &usdc(), &SpotBalanceType::Deposit, false).err(),
        Some(BalanceError::CheckedMulOverflow)
    );
    let no_interest = SpotMarket { cumulative_deposit_interest: 0, ..usdc() };
    assert_eq!(
        DriftUtils::spot_balance(1, &no_interest, &SpotBalanceType::Deposit, false).err(),
        Some(BalanceError::CheckedDivOverflow)
    );
    let tiny_interest = SpotMarket { decimals: 19, cumulative_deposit_interest: 1, ..usdc() };
    assert_eq!(
        DriftUtils::spot_balance(u128::MAX, &tiny_interest, &SpotBalanceType::Deposit, true).err(),
        Some(BalanceError::CheckedAddOverflow)
    );
    assert_eq!(BalanceError::CheckedAddOverflow.message(), "Checked add overflow");
}

#[test]
fn position_slots() {
    assert!(DriftUtils::spot_position_available(&SpotPosition::default()));
    assert!(!DriftUtils::spot_position_available(&SpotPosition { scaled_balance: 1, ..Default::default() }));
    assert!(!DriftUtils::spot_position_available(&SpotPosition { open_orders: 1, ..Default::default() }));
    assert!(DriftUtils::perp_position_available(&PerpPosition::default()));
    assert!(!DriftUtils::perp_position_available(&PerpPosition { base_asset_amount: -3, ..Default::default() }));
    assert!(!DriftUtils::perp_position_available(&PerpPosition { open_bids: 1, ..Default::default() }));
    assert!(!DriftUtils::perp_position_available(&PerpPosition { quote_asset_amount: 5, ..Default::default() }));
    assert!(!DriftUtils::perp_position_available(&PerpPosition { lp_shares: 1, ..Default::default() }));
}
