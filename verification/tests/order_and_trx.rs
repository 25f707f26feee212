use nexus::drift_client::trader::{group_by_authority, top_trader_groups};
use nexus::drift_cpi::{Pubkey, User};
use nexus::trx_builder::{
    compute_budget_id, Commitment, ComputeBudgetIx, ConfirmStep, ConfirmTransactionConfig, ConfirmationStatus, SignatureStatus,
    TrxBuilder, MICRO_LAMPORTS_PER_LAMPORT,
};
use nexus::types::keyed_account::{Account, AcctCtx};
use nexus::utils::order::{common_sorted_indices, sorted_indices, sorted_indices_where};

#[test]
fn stable_sort_by_key() {
    assert_eq!(sorted_indices(&[3, 1, 3, 2, 1]), vec![1, 4, 3, 0, 2]);
    assert_eq!(sorted_indices(&[]), Vec::<usize>::new());
    assert_eq!(sorted_indices_where(&[5, 4, 3], &[true, false, true]), vec![2, 0]);
}

#[test]
fn common_dates_sorted() {
    let first = [30, 10, 20, 40];
    let second = [40, 10, 99];
    assert_eq!(common_sorted_indices(&first, &second), vec![1, 3]);
    assert_eq!(common_sorted_indices(&second, &first), vec![1, 0]);
}

fn user(auth: u8, pnl: i64, deposits: u64) -> User {
    User {
        authority: Pubkey([auth; 32]),
        settled_perp_pnl: pnl,
        total_deposits: deposits,
        ..Default::default()
    }
}

#[test]
fn traders_grouped_by_authority_in_pnl_order() {
    let users = [user(1, 50, 10), user(2, -5, 10), user(1, 10, 10), user(3, 0, 0)];
    let groups = top_trader_groups(&users);
    // users with deposits by pnl: 1 (-5), 2 (10), 0 (50)
    assert_eq!(groups, vec![(Pubkey([2; 32]), vec![1]), (Pubkey([1; 32]), vec![2, 0])]);
    let groups = group_by_authority(&users, &[3, 0, 3]);
    assert_eq!(groups, vec![(Pubkey([3; 32]), vec![3, 3]), (Pubkey([1; 32]), vec![0])]);
}

#[test]
fn confirmation_levels() {
    let (p, c, f) = (
        ConfirmationStatus::Processed,
        ConfirmationStatus::Confirmed,
        ConfirmationStatus::Finalized,
    );
    assert!(TrxBuilder::confirmation_at_least(&p, &p));
    assert!(TrxBuilder::confirmation_at_least(&c, &f));
    assert!(!TrxBuilder::confirmation_at_least(&f, &c));
    assert!(!TrxBuilder::confirmation_at_least(&c, &p));
    assert_eq!(TrxBuilder::tc_into_commitment(&f), Commitment::Finalized);
    assert_eq!(TrxBuilder::tc_into_commitment(&p), Commitment::Processed);
}

#[test]
fn confirm_steps() {
    let config = ConfirmTransactionConfig::default();
    assert_eq!(config.loop_rate_ms, 2000);
    let status = |failed: bool, c: Option<ConfirmationStatus>| {
        Some(SignatureStatus { slot: 77, failed, confirmation: c })
    };
    assert_eq!(TrxBuilder::confirm_step(&config, 3, 0, None), ConfirmStep::Poll);
    assert_eq!(
        TrxBuilder::confirm_step(&config, 3, 0, status(false, Some(ConfirmationStatus::Processed))),
        ConfirmStep::Poll
    );
    assert_eq!(
        TrxBuilder::confirm_step(&config, 3, 1, status(false, Some(ConfirmationStatus::Finalized))),
        ConfirmStep::Confirmed { slot: 77 }
    );
    assert_eq!(
        TrxBuilder::confirm_step(&config, 3, 1, status(true, Some(ConfirmationStatus::Confirmed))),
        ConfirmStep::Failed { slot: 77 }
    );
    assert_eq!(TrxBuilder::confirm_step(&config, 3, 2, status(false, None)), ConfirmStep::Dropped);
}

#[test]
fn priority_fees() {
    assert_eq!(TrxBuilder::average_priority_fee(&[10, 20, 30, 1000], Some(3)), Some(20));
    assert_eq!(TrxBuilder::average_priority_fee(&[10, 20], None), Some(15));
    assert_eq!(TrxBuilder::average_priority_fee(&[], None), None);
    assert_eq!(TrxBuilder::average_priority_fee(&[u64::MAX, 1], None), None);
    assert_eq!(TrxBuilder::average_priority_fee(&[7], Some(0)), None);
    assert_eq!(TrxBuilder::priority_fee(5), MICRO_LAMPORTS_PER_LAMPORT);
    assert_eq!(TrxBuilder::priority_fee(3_000_000), 3_000_000);
}

#[test]
fn empty_transactions() {
    let budget = compute_budget_id();
    assert!(TrxBuilder::is_empty(&[]));
    assert!(TrxBuilder::is_empty(&[budget, budget]));
    assert!(!TrxBuilder::is_empty(&[budget, Pubkey([1; 32])]));
}

#[test]
fn priority_fee_instructions() {
    assert_eq!(
        TrxBuilder::priority_fee_ixs(5, None),
        vec![ComputeBudgetIx::SetComputeUnitPrice(MICRO_LAMPORTS_PER_LAMPORT)]
    );
    assert_eq!(
        TrxBuilder::priority_fee_ixs(2_500_000, Some(200_000)),
        vec![
            ComputeBudgetIx::SetComputeUnitPrice(2_500_000),
            ComputeBudgetIx::SetComputeUnitLimit(200_000)
        ]
    );
}

#[test]
fn compute_budget_id_is_solanas() {
    let expected: solana_sdk::pubkey::Pubkey =
        "ComputeBudget111111111111111111111111111111".parse().unwrap();
    assert_eq!(compute_budget_id().0, expected.to_bytes());
}

#[test]
fn account_infos_copy_the_account() {
    let account = Account { lamports: 3, data: vec![1, 2, 3], owner: Pubkey([4; 32]), executable: false, rent_epoch: 8 };
    let info = account.to_account_info(Pubkey([5; 32]), true, false, true);
    assert_eq!(info.key, Pubkey([5; 32]));
    assert!(info.is_signer && !info.is_writable && info.executable);
    assert_eq!(info.data, vec![1, 2, 3]);
    assert_eq!(info.lamports, 3);
    assert_eq!(info.rent_epoch, 8);
    let ctx = AcctCtx { key: Pubkey([6; 32]), account, slot: 1 };
    // the context's own address is used
    assert_eq!(ctx.to_account_info(Pubkey([7; 32]), false, true, false).key, Pubkey([6; 32]));
}
