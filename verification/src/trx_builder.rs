use vstd::prelude::*;

use crate::drift_cpi::Pubkey;

verus! {

pub const MICRO_LAMPORTS_PER_LAMPORT: u64 = 1_000_000;

pub const LAMPORTS_PER_SOL: u64 = 1_000_000_000;

pub const MICRO_LAMPORTS_PER_SOL: u64 = 1_000_000_000_000_000;

/// How far the cluster has confirmed a transaction.
#[derive(Debug, Clone, Copy, PartialEq, Eq, Structural)]
pub enum ConfirmationStatus {
    Processed,
    Confirmed,
    Finalized,
}

/// The commitment level of a request.
#[derive(Debug, Clone, Copy, PartialEq, Eq, Structural)]
pub enum Commitment {
    Processed,
    Confirmed,
    Finalized,
}

/// The rank of a confirmation status: processed, then confirmed, then finalized.
pub open spec fn status_rank(s: ConfirmationStatus) -> int {
    match s {
        ConfirmationStatus::Processed => 0,
        ConfirmationStatus::Confirmed => 1,
        ConfirmationStatus::Finalized => 2,
    }
}

/// Config for confirming a transaction.
#[derive(Debug, Clone, Copy)]
pub struct ConfirmTransactionConfig {
    /// How often to check for confirmations, in milliseconds
    pub loop_rate_ms: u64,
    /// The minimum confirmation status to wait for
    pub min_confirmation: ConfirmationStatus,
}

impl Default for ConfirmTransactionConfig {
    fn default() -> (r: Self)
        ensures
            r.loop_rate_ms == 2000,
            r.min_confirmation == ConfirmationStatus::Confirmed,
    {
        Self { loop_rate_ms: 2000, min_confirmation: ConfirmationStatus::Confirmed }
    }
}

/// What the cluster reports of a signature: the slot, whether the
/// transaction failed, and how far it is confirmed.
#[derive(Debug, Clone, Copy, PartialEq, Eq, Structural)]
pub struct SignatureStatus {
    pub slot: u64,
    pub failed: bool,
    pub confirmation: Option<ConfirmationStatus>,
}

/// What to do after a status check.
#[derive(Debug, Clone, Copy, PartialEq, Eq, Structural)]
pub enum ConfirmStep {
    /// Wait for the next tick and check again.
    Poll,
    /// The transaction is confirmed in this slot.
    Confirmed { slot: u64 },
    /// The transaction is confirmed in this slot with an error: fetch its
    /// logs and report it.
    Failed { slot: u64 },
    /// No check confirmed the transaction: it was dropped.
    Dropped,
}

/// The step after check number `iteration` (from 0) of at most `max_checks`.
pub open spec fn confirm_step_spec(
    min: ConfirmationStatus,
    max_checks: u64,
    iteration: u64,
    status: Option<SignatureStatus>,
) -> ConfirmStep {
    match status {
        Some(s) if s.confirmation is Some && status_rank(min) <= status_rank(
            s.confirmation->0,
        ) => if s.failed {
            ConfirmStep::Failed { slot: s.slot }
        } else {
            ConfirmStep::Confirmed { slot: s.slot }
        },
        _ => if iteration + 1 < max_checks {
            ConfirmStep::Poll
        } else {
            ConfirmStep::Dropped
        },
    }
}

/// The address of Solana's compute budget program,
/// `ComputeBudget111111111111111111111111111111`.
pub open spec fn compute_budget_program_id() -> Seq<u8> {
    seq![
        3u8, 6, 70, 111, 229, 33, 23, 50, 255, 236, 173, 186, 114, 195, 155, 231, 188, 140, 229,
        187, 197, 247, 18, 107, 44, 67, 155, 58, 64, 0, 0, 0,
    ]
}

/// The address of Solana's compute budget program.
pub fn compute_budget_id() -> (r: Pubkey)
    ensures
        r.0@ == compute_budget_program_id(),
{
    let r = Pubkey(
        [
            3u8, 6, 70, 111, 229, 33, 23, 50, 255, 236, 173, 186, 114, 195, 155, 231, 188, 140,
            229, 187, 197, 247, 18, 107, 44, 67, 155, 58, 64, 0, 0, 0,
        ],
    );
    assert(r.0@ =~= compute_budget_program_id());
    r
}

/// An instruction of the compute budget program.
#[derive(Debug, Clone, Copy, PartialEq, Eq, Structural)]
pub enum ComputeBudgetIx {
    /// The price of a compute unit, in micro-lamports.
    SetComputeUnitPrice(u64),
    /// The most compute units the transaction may use.
    SetComputeUnitLimit(u32),
}

pub struct TrxBuilder;

impl TrxBuilder {
    /// Whether `test` is at least as far confirmed as `control`.
    pub fn confirmation_at_least(control: &ConfirmationStatus, test: &ConfirmationStatus) -> (r: bool)
        ensures
            r == (status_rank(*control) <= status_rank(*test)),
    {
        match (control, test) {
            (ConfirmationStatus::Processed, _) => true,
            (ConfirmationStatus::Confirmed, ConfirmationStatus::Confirmed) => true,
            (ConfirmationStatus::Confirmed, ConfirmationStatus::Finalized) => true,
            (ConfirmationStatus::Finalized, ConfirmationStatus::Finalized) => true,
            _ => false,
        }
    }

    /// The commitment that asks for a confirmation status.
    pub fn tc_into_commitment(confirmation: &ConfirmationStatus) -> (r: Commitment)
        ensures
            r == (match *confirmation {
                ConfirmationStatus::Processed => Commitment::Processed,
                ConfirmationStatus::Confirmed => Commitment::Confirmed,
                ConfirmationStatus::Finalized => Commitment::Finalized,
            }),
    {
        match confirmation {
            ConfirmationStatus::Processed => Commitment::Processed,
            ConfirmationStatus::Confirmed => Commitment::Confirmed,
            ConfirmationStatus::Finalized => Commitment::Finalized,
        }
    }

    /// The decision of confirming a transaction after check number
    /// `iteration` (counting from 0) of at most `max_checks` reported
    /// `status`: done once the transaction reaches the minimum confirmation,
    /// dropped once the checks run out, else another check.
    pub fn confirm_step(
        config: &ConfirmTransactionConfig,
        max_checks: u64,
        iteration: u64,
        status: Option<SignatureStatus>,
    ) -> (r: ConfirmStep)
        requires
            iteration < max_checks,
        ensures
            r == confirm_step_spec(config.min_confirmation, max_checks, iteration, status),
    {
        match status {
            Some(s) => match s.confirmation {
                Some(c) => {
                    if Self::confirmation_at_least(&config.min_confirmation, &c) {
                        return if s.failed {
                            ConfirmStep::Failed { slot: s.slot }
                        } else {
                            ConfirmStep::Confirmed { slot: s.slot }
                        };
                    }
                },
                None => {},
            },
            None => {},
        }
        if iteration + 1 < max_checks {
            ConfirmStep::Poll
        } else {
            ConfirmStep::Dropped
        }
    }

    /// The average of the first `window` (100 by default) recent
    /// prioritization fees; `None` where there is none: no fees, or a
    /// sum beyond `u64`.
    pub fn average_priority_fee(fees: &[u64], window: Option<usize>) -> (r: Option<u64>)
        ensures
            ({
                let w = match window {
                    Some(w) => w as int,
                    None => 100,
                };
                let n = if w < fees@.len() {
                    w
                } else {
                    fees@.len() as int
                };
                let total = fee_sum(fees@.take(n));
                match r {
                    Some(v) => n > 0 && total <= u64::MAX && v == total / n,
                    None => n == 0 || total > u64::MAX,
                }
            }),
    {
        let w: usize = match window {
            Some(w) => w,
            None => 100,
        };
        let n: usize = if w < fees.len() {
            w
        } else {
            fees.len()
        };
        let mut total: u64 = 0;
        let mut i: usize = 0;
        while i < n
            invariant
                w == (match window {
                    Some(x) => x,
                    None => 100usize,
                }),
                n == (if w < fees@.len() {
                    w as int
                } else {
                    fees@.len() as int
                }),
                n <= fees@.len(),
                i <= n,
                total == fee_sum(fees@.take(i as int)),
            decreases n - i,
        {
            assert(fees@.take(i + 1).drop_last() =~= fees@.take(i as int));
            match total.checked_add(fees[i]) {
                Some(t) => {
                    total = t;
                },
                None => {
                    proof {
                        assert(fees@.take(i + 1).last() == fees@[i as int]);
                        assert(fee_sum(fees@.take(i + 1)) == total + fees@[i as int]);
                        lemma_fee_sum_prefix(fees@.take(n as int), i + 1);
                        assert(fees@.take(n as int).take(i + 1) =~= fees@.take(i + 1));
                    }
                    return None;
                },
            }
            i = i + 1;
        }
        if n == 0 {
            return None;
        }
        Some(total / (n as u64))
    }

    /// The price of a compute unit: the recent average fee, at least one
    /// lamport.
    pub fn priority_fee(recent_average: u64) -> (r: u64)
        ensures
            r == (if recent_average >= MICRO_LAMPORTS_PER_LAMPORT {
                recent_average
            } else {
                MICRO_LAMPORTS_PER_LAMPORT
            }),
    {
        if recent_average >= MICRO_LAMPORTS_PER_LAMPORT {
            recent_average
        } else {
            MICRO_LAMPORTS_PER_LAMPORT
        }
    }

    /// The compute budget instructions that go first in a transaction to
    /// set its priority fee: the price of a compute unit (the recent
    /// average fee, at least one lamport), then the compute unit limit
    /// where one is given.
    pub fn priority_fee_ixs(recent_average: u64, cu_limit: Option<u32>) -> (r: Vec<ComputeBudgetIx>)
        ensures
            r@ == match cu_limit {
                Some(l) => seq![
                    ComputeBudgetIx::SetComputeUnitPrice(
                        if recent_average >= MICRO_LAMPORTS_PER_LAMPORT {
                            recent_average
                        } else {
                            MICRO_LAMPORTS_PER_LAMPORT
                        },
                    ),
                    ComputeBudgetIx::SetComputeUnitLimit(l),
                ],
                None => seq![
                    ComputeBudgetIx::SetComputeUnitPrice(
                        if recent_average >= MICRO_LAMPORTS_PER_LAMPORT {
                            recent_average
                        } else {
                            MICRO_LAMPORTS_PER_LAMPORT
                        },
                    ),
                ],
            },
    {
        let mut r: Vec<ComputeBudgetIx> = Vec::new();
        r.push(ComputeBudgetIx::SetComputeUnitPrice(Self::priority_fee(recent_average)));
        if let Some(l) = cu_limit {
            r.push(ComputeBudgetIx::SetComputeUnitLimit(l));
        }
        proof {
            if cu_limit is Some {
                assert(r@ =~= seq![r@[0], r@[1]]);
            } else {
                assert(r@ =~= seq![r@[0]]);
            }
        }
        r
    }

    /// Whether a transaction of instructions for these programs does
    /// nothing: it has no instruction besides compute budget ones.
    pub fn is_empty(program_ids: &[Pubkey]) -> (r: bool)
        ensures
            r == (forall|i: int| 0 <= i < program_ids@.len() ==> program_ids@[i].0@ == compute_budget_program_id()),
    {
        let compute_budget = compute_budget_id();
        let mut i: usize = 0;
        while i < program_ids.len()
            invariant
                i <= program_ids@.len(),
                compute_budget.0@ == compute_budget_program_id(),
                forall|j: int| 0 <= j < i ==> program_ids@[j].0@ == compute_budget_program_id(),
            decreases program_ids@.len() - i,
        {
            if !program_ids[i].equals(&compute_budget) {
                proof {
                    broadcast use vstd::array::group_array_axioms;

                    if program_ids@[i as int].0@ == compute_budget.0@ {
                        assert(program_ids@[i as int].0 =~= compute_budget.0);
                    }
                }
                return false;
            }
            i = i + 1;
        }
        true
    }
}

/// The sum of the fees.
pub open spec fn fee_sum(s: Seq<u64>) -> int
    decreases s.len(),
{
    if s.len() == 0 {
        0
    } else {
        fee_sum(s.drop_last()) + s.last()
    }
}

proof fn lemma_fee_sum_prefix(s: Seq<u64>, j: int)
    requires
        0 <= j <= s.len(),
    ensures
        fee_sum(s.take(j)) <= fee_sum(s),
    decreases s.len(),
{
    if j < s.len() {
        lemma_fee_sum_prefix(s.drop_last(), j);
        assert(s.drop_last().take(j) =~= s.take(j));
    } else {
        assert(s.take(j) =~= s);
    }
}

} // verus!
