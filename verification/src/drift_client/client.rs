use vstd::prelude::*;

use crate::drift_client::program_data::ProgramData;
use crate::drift_client::types::{
    lemma_remaining_account_order_total, lemma_remaining_account_order_transitive, meta_of,
    AccountMeta, MarketId, RemainingAccount,
};
use crate::drift_client::utils::{perp_position_free, spot_position_free, DriftUtils};
use crate::drift_cpi::{
    MarketType, OracleSource, PerpMarket, PerpPosition, Pubkey, SpotMarket, SpotPosition, User,
};
use crate::types::keyed_account::Account;
use crate::utils::account::{info_of, same_info, AccountInfo};
use crate::utils::ring_map::{distinct_keys, has_key, lemma_push_entry, lemma_update_entry, lookup, position};

verus! {

/// A market to include: its index, its kind and whether it is writable.
pub type MarketRequest = (u16, MarketType, bool);

/// Requests for the markets of `ids`, all writable or all readable.
pub open spec fn id_requests(ids: Seq<MarketId>, writable: bool) -> Seq<MarketRequest> {
    ids.map_values(|m: MarketId| (m.index, m.kind, writable))
}

/// Readable requests for the spot markets of the positions in use.
pub open spec fn spot_requests(ps: Seq<SpotPosition>) -> Seq<MarketRequest>
    decreases ps.len(),
{
    if ps.len() == 0 {
        Seq::empty()
    } else {
        let prev = spot_requests(ps.drop_last());
        if !spot_position_free(ps.last()) {
            prev.push((ps.last().market_index, MarketType::Spot, false))
        } else {
            prev
        }
    }
}

/// Readable requests for the perp markets of the positions in use.
pub open spec fn perp_requests(ps: Seq<PerpPosition>) -> Seq<MarketRequest>
    decreases ps.len(),
{
    if ps.len() == 0 {
        Seq::empty()
    } else {
        let prev = perp_requests(ps.drop_last());
        if !perp_position_free(ps.last()) {
            prev.push((ps.last().market_index, MarketType::Perp, false))
        } else {
            prev
        }
    }
}

/// The requests of each user in turn: spot positions, then perp positions.
pub open spec fn user_requests(users: Seq<User>) -> Seq<MarketRequest>
    decreases users.len(),
{
    if users.len() == 0 {
        Seq::empty()
    } else {
        user_requests(users.drop_last()) + spot_requests(users.last().spot_positions@)
            + perp_requests(users.last().perp_positions@)
    }
}

/// The markets, in the order they are considered: the writable ones, the
/// readable ones, those the users hold positions in, and the quote spot market.
pub open spec fn market_requests(
    users: Seq<User>,
    readable: Seq<MarketId>,
    writable: Seq<MarketId>,
) -> Seq<MarketRequest> {
    id_requests(writable, true) + id_requests(readable, false) + user_requests(users) + seq![
        (0u16, MarketType::Spot, false),
    ]
}

/// Whether a request for the same market comes among the first `n`.
pub open spec fn seen_before(reqs: Seq<MarketRequest>, n: int, index: u16, kind: MarketType) -> bool {
    exists|j: int| 0 <= j < n && #[trigger] reqs[j].0 == index && reqs[j].1 == kind
}

/// The market account and its oracle for a request.
pub open spec fn market_pair(r: MarketRequest, spot: Seq<SpotMarket>, perp: Seq<PerpMarket>) -> Seq<
    RemainingAccount,
> {
    if r.1 == MarketType::Spot {
        seq![
            RemainingAccount::Spot { pubkey: spot[r.0 as int].pubkey, writable: r.2 },
            RemainingAccount::Oracle { pubkey: spot[r.0 as int].oracle },
        ]
    } else {
        seq![
            RemainingAccount::Perp { pubkey: perp[r.0 as int].pubkey, writable: r.2 },
            RemainingAccount::Oracle { pubkey: perp[r.0 as int].amm.oracle },
        ]
    }
}

/// The accounts the requests bring, in order: each market the first time
/// it is requested, followed by its oracle.
pub open spec fn candidates(
    reqs: Seq<MarketRequest>,
    spot: Seq<SpotMarket>,
    perp: Seq<PerpMarket>,
) -> Seq<RemainingAccount>
    decreases reqs.len(),
{
    if reqs.len() == 0 {
        Seq::empty()
    } else {
        let prev = candidates(reqs.drop_last(), spot, perp);
        let r = reqs.last();
        if seen_before(reqs, reqs.len() - 1, r.0, r.1) {
            prev
        } else {
            prev + market_pair(r, spot, perp)
        }
    }
}

/// Each account precedes the next: the list is in the program's order with
/// no two accounts of the same rank.
pub open spec fn strictly_sorted(s: Seq<RemainingAccount>) -> bool {
    forall|i: int, j: int| 0 <= i < j < s.len() ==> (#[trigger] s[i]).precedes(#[trigger] s[j])
}

/// No candidate before place `k` has the rank of the candidate at `k`.
#[verifier::opaque]
pub open spec fn first_of_its_rank(cands: Seq<RemainingAccount>, k: int) -> bool {
    forall|j: int| 0 <= j < k ==> !(#[trigger] cands[j]).same_rank(cands[k])
}

/// `x` is a candidate that comes first of its rank.
pub open spec fn is_first_candidate(cands: Seq<RemainingAccount>, x: RemainingAccount) -> bool {
    exists|k: int| 0 <= k < cands.len() && #[trigger] cands[k] == x && first_of_its_rank(cands, k)
}

/// Every account of `s` is a candidate that comes first of its rank.
#[verifier::opaque]
pub open spec fn all_first(s: Seq<RemainingAccount>, cands: Seq<RemainingAccount>) -> bool {
    forall|i: int| 0 <= i < s.len() ==> #[trigger] is_first_candidate(cands, s[i])
}

/// Every candidate's rank has an account in `s`.
#[verifier::opaque]
pub open spec fn all_covered(s: Seq<RemainingAccount>, cands: Seq<RemainingAccount>) -> bool {
    forall|k: int| 0 <= k < cands.len() ==> #[trigger] has_rank(s, cands[k])
}

/// `s` holds, of each rank among `cands`, the first candidate of that rank,
/// and nothing else.
pub open spec fn first_of_each_rank(s: Seq<RemainingAccount>, cands: Seq<RemainingAccount>) -> bool {
    all_first(s, cands) && all_covered(s, cands)
}

/// Whether some account of `a` has the rank of `x`.
pub open spec fn has_rank(a: Seq<RemainingAccount>, x: RemainingAccount) -> bool {
    exists|i: int| 0 <= i < a.len() && (#[trigger] a[i]).same_rank(x)
}

/// Whether bit `index` of `seen` is set.
pub open spec fn bit_set(seen: u64, index: u16) -> bool {
    seen & (1u64 << (index as u64)) != 0
}

proof fn lemma_bits(s: u64, i: u64, j: u64)
    requires
        i < 64,
        j < 64,
    ensures
        (s | (1u64 << i)) & (1u64 << j) != 0 <==> (s & (1u64 << j) != 0 || i == j),
        0u64 & (1u64 << j) == 0,
{
    assert((s | (1u64 << i)) & (1u64 << j) != 0 <==> (s & (1u64 << j) != 0 || i == j))
        by (bit_vector)
        requires
            i < 64,
            j < 64,
    ;
    assert(0u64 & (1u64 << j) == 0) by (bit_vector);
}

/// Puts `x` in its place in a sorted list, unless an account of its rank is
/// already there.
fn insert_ranked(accounts: &mut Vec<RemainingAccount>, x: RemainingAccount)
    requires
        strictly_sorted(old(accounts)@),
    ensures
        strictly_sorted(final(accounts)@),
        has_rank(old(accounts)@, x) ==> final(accounts)@ == old(accounts)@,
        !has_rank(old(accounts)@, x) ==> exists|k: int|
            0 <= k <= old(accounts)@.len() && final(accounts)@ == old(accounts)@.insert(k, x),
{
    let ghost s = accounts@;
    let mut k: usize = 0;
    while k < accounts.len() && accounts[k].is_before(&x)
        invariant
            accounts@ == s,
            k <= s.len(),
            forall|j: int| 0 <= j < k ==> (#[trigger] s[j]).precedes(x),
        decreases s.len() - k,
    {
        k = k + 1;
    }
    if k < accounts.len() && accounts[k].ranks_with(&x) {
        return ;
    }
    proof {
        lemma_remaining_account_order_total(s[k as int], x);
        assert forall|i: int| 0 <= i < s.len() implies !(#[trigger] s[i]).same_rank(x) by {
            lemma_remaining_account_order_total(s[i], x);
            if i > k {
                if s[i].same_rank(x) {
                    lemma_remaining_account_order_total(s[k as int], s[i]);
                }
            }
        }
    }
    accounts.insert(k, x);
    proof {
        let t = accounts@;
        assert forall|a: int, b: int| 0 <= a < b < t.len() implies (#[trigger] t[a]).precedes(
            #[trigger] t[b],
        ) by {
            if b == k {
                assert(t[a] == s[a]);
            } else if a == k {
                assert(t[b] == s[b - 1]);
                lemma_remaining_account_order_total(s[k as int], x);
                if b - 1 > k {
                    lemma_remaining_account_order_transitive(x, s[k as int], s[b - 1]);
                }
            } else if a < k && b < k {
                assert(t[a] == s[a] && t[b] == s[b]);
            } else if a < k {
                assert(t[a] == s[a] && t[b] == s[b - 1]);
            } else {
                assert(t[a] == s[a - 1] && t[b] == s[b - 1]);
            }
        }
        assert(t == s.insert(k as int, x));
    }
}

/// Builds the accounts of an instruction: `base_accounts`, then the
/// accounts of the markets that the users' positions and the given markets
/// need, with their oracles, sorted as the program wants them (oracles,
/// spot markets, perp markets, each by address); writable markets take
/// priority over readable ones. Every market index is below 64 and has a
/// config.
pub fn build_accounts(
    program_data: &ProgramData,
    base_accounts: Vec<AccountMeta>,
    users: &[User],
    markets_readable: &[MarketId],
    markets_writable: &[MarketId],
) -> (r: Vec<AccountMeta>)
    requires
        forall|j: int|
            0 <= j < market_requests(users@, markets_readable@, markets_writable@).len() ==> {
                let q = #[trigger] market_requests(users@, markets_readable@, markets_writable@)[j];
                &&& q.0 < 64
                &&& q.1 == MarketType::Spot ==> q.0 < program_data.spot().len()
                &&& q.1 == MarketType::Perp ==> q.0 < program_data.perp().len()
            },
    ensures
        exists|rem: Seq<RemainingAccount>|
            {
                &&& strictly_sorted(rem)
                &&& first_of_each_rank(
                    rem,
                    candidates(
                        market_requests(users@, markets_readable@, markets_writable@),
                        program_data.spot(),
                        program_data.perp(),
                    ),
                )
                &&& r@ == base_accounts@ + rem.map_values(|a: RemainingAccount| meta_of(a))
            },
{
    let reqs = collect_requests(users, markets_readable, markets_writable);
    let ghost spot = program_data.spot();
    let ghost perp = program_data.perp();
    let mut seen_spot: u64 = 0;
    let mut seen_perp: u64 = 0;
    let mut accounts: Vec<RemainingAccount> = Vec::new();
    let mut i: usize = 0;
    proof {
        reveal(all_first);
        reveal(all_covered);
        assert(reqs@.take(0) =~= Seq::<MarketRequest>::empty());
        assert forall|idx: u16| idx < 64 implies !bit_set(seen_spot, idx) && !bit_set(seen_perp, idx) by {
            lemma_bits(0, 0, idx as u64);
        }
    }
    while i < reqs.len()
        invariant
            i <= reqs@.len(),
            spot == program_data.spot(),
            perp == program_data.perp(),
            forall|j: int|
                0 <= j < reqs@.len() ==> {
                    let q = #[trigger] reqs@[j];
                    &&& q.0 < 64
                    &&& q.1 == MarketType::Spot ==> q.0 < spot.len()
                    &&& q.1 == MarketType::Perp ==> q.0 < perp.len()
                },
            forall|idx: u16|
                idx < 64 ==> (#[trigger] bit_set(seen_spot, idx) <==> seen_before(
                    reqs@,
                    i as int,
                    idx,
                    MarketType::Spot,
                )),
            forall|idx: u16|
                idx < 64 ==> (#[trigger] bit_set(seen_perp, idx) <==> seen_before(
                    reqs@,
                    i as int,
                    idx,
                    MarketType::Perp,
                )),
            strictly_sorted(accounts@),
            first_of_each_rank(accounts@, candidates(reqs@.take(i as int), spot, perp)),
        decreases reqs@.len() - i,
    {
        let (index, kind, writable) = reqs[i];
        let ghost prefix = reqs@.take(i as int);
        let ghost c0 = candidates(prefix, spot, perp);
        proof {
            assert(reqs@.take(i + 1).drop_last() =~= prefix);
            assert(reqs@.take(i + 1).last() == reqs@[i as int]);
            assert(seen_before(reqs@.take(i + 1), i as int, index, kind) == seen_before(
                reqs@,
                i as int,
                index,
                kind,
            )) by {
                if seen_before(reqs@, i as int, index, kind) {
                    let j = choose|j: int|
                        0 <= j < i && #[trigger] reqs@[j].0 == index && reqs@[j].1 == kind;
                    assert(reqs@.take(i + 1)[j] == reqs@[j]);
                }
                if seen_before(reqs@.take(i + 1), i as int, index, kind) {
                    let j = choose|j: int|
                        0 <= j < i && #[trigger] reqs@.take(i + 1)[j].0 == index && reqs@.take(
                            i + 1,
                        )[j].1 == kind;
                    assert(reqs@.take(i + 1)[j] == reqs@[j]);
                }
            }
        }
        let old_seen: u64 = match kind {
            MarketType::Spot => seen_spot,
            MarketType::Perp => seen_perp,
        };
        let index_bit: u64 = 1u64 << (index as u64);
        let already = old_seen & index_bit > 0;
        proof {
            assert(already == bit_set(old_seen, index)) by {
                assert(old_seen & index_bit > 0 <==> old_seen & index_bit != 0) by (bit_vector);
            }
        }
        if !already {
            let new_seen = old_seen | index_bit;
            match kind {
                MarketType::Spot => {
                    seen_spot = new_seen;
                },
                MarketType::Perp => {
                    seen_perp = new_seen;
                },
            }
            proof {
                assert forall|idx: u16| idx < 64 implies #[trigger] bit_set(new_seen, idx) == (bit_set(
                    old_seen,
                    idx,
                ) || idx == index) by {
                    lemma_bits(old_seen, index as u64, idx as u64);
                }
            }
            let (account, oracle) = match kind {
                MarketType::Spot => {
                    let m = program_data.spot_market_config_by_index(index).unwrap();
                    (RemainingAccount::Spot { pubkey: m.pubkey, writable }, m.oracle)
                },
                MarketType::Perp => {
                    let m = program_data.perp_market_config_by_index(index).unwrap();
                    (RemainingAccount::Perp { pubkey: m.pubkey, writable }, m.amm.oracle)
                },
            };
            let oracle = RemainingAccount::Oracle { pubkey: oracle };
            let ghost a0 = accounts@;
            insert_ranked(&mut accounts, account);
            let ghost a1 = accounts@;
            insert_ranked(&mut accounts, oracle);
            proof {
                let pair = market_pair(reqs@[i as int], spot, perp);
                assert(pair =~= seq![account, oracle]);
                let c1 = c0 + pair;
                assert(candidates(reqs@.take(i + 1), spot, perp) == c1);
                lemma_first_of_each_rank_step(a0, c0, account, a1);
                lemma_first_of_each_rank_step(a1, c0.push(account), oracle, accounts@);
                assert(c0.push(account).push(oracle) =~= c1);
            }
        } else {
            proof {
                assert(candidates(reqs@.take(i + 1), spot, perp) == c0);
            }
        }
        proof {
            assert forall|idx: u16| idx < 64 implies #[trigger] seen_before(reqs@, i + 1, idx, kind)
                == (seen_before(reqs@, i as int, idx, kind) || idx == index) by {
                if idx == index {
                    assert(reqs@[i as int].0 == index && reqs@[i as int].1 == kind);
                }
                if seen_before(reqs@, i + 1, idx, kind) && !seen_before(reqs@, i as int, idx, kind) {
                    let j = choose|j: int|
                        0 <= j < i + 1 && #[trigger] reqs@[j].0 == idx && reqs@[j].1 == kind;
                    assert(j == i);
                }
            }
            let other = if kind == MarketType::Spot {
                MarketType::Perp
            } else {
                MarketType::Spot
            };
            assert forall|idx: u16| idx < 64 implies #[trigger] seen_before(reqs@, i + 1, idx, other)
                == seen_before(reqs@, i as int, idx, other) by {
                if seen_before(reqs@, i + 1, idx, other) {
                    let j = choose|j: int|
                        0 <= j < i + 1 && #[trigger] reqs@[j].0 == idx && reqs@[j].1 == other;
                    assert(j != i);
                }
            }
        }
        i = i + 1;
    }
    proof {
        assert(reqs@.take(reqs@.len() as int) =~= reqs@);
    }
    let ghost rem = accounts@;
    let mut out = base_accounts;
    let ghost base = out@;
    let mut k: usize = 0;
    while k < accounts.len()
        invariant
            k <= accounts@.len(),
            out@ == base + accounts@.take(k as int).map_values(|a: RemainingAccount| meta_of(a)),
        decreases accounts@.len() - k,
    {
        out.push(AccountMeta::from(accounts[k]));
        assert(accounts@.take(k + 1).map_values(|a: RemainingAccount| meta_of(a)) =~= accounts@.take(
            k as int,
        ).map_values(|a: RemainingAccount| meta_of(a)).push(meta_of(accounts@[k as int])));
        k = k + 1;
    }
    assert(accounts@.take(accounts@.len() as int) =~= accounts@);
    out
}

/// One more candidate: the list keeps the first account of each rank.
proof fn lemma_first_of_each_rank_step(
    a0: Seq<RemainingAccount>,
    c0: Seq<RemainingAccount>,
    x: RemainingAccount,
    a1: Seq<RemainingAccount>,
)
    requires
        first_of_each_rank(a0, c0),
        has_rank(a0, x) ==> a1 == a0,
        !has_rank(a0, x) ==> exists|k: int| 0 <= k <= a0.len() && a1 == a0.insert(k, x),
    ensures
        first_of_each_rank(a1, c0.push(x)),
{
    if has_rank(a0, x) {
        lemma_first_extend(a0, c0, x);
        lemma_covered_known(a0, c0, x);
    } else {
        let kk = choose|k: int| 0 <= k <= a0.len() && a1 == a0.insert(k, x);
        lemma_first_extend(a0, c0, x);
        lemma_covered_insert(a0, c0, x, kk);
        assert(c0.push(x).last() == x);
        lemma_first_insert(a0, c0.push(x), x, kk);
    }
}

/// Adding a candidate keeps each earlier candidate first of its rank.
proof fn lemma_first_prefix(c0: Seq<RemainingAccount>, x: RemainingAccount, k: int)
    requires
        0 <= k < c0.len(),
        first_of_its_rank(c0, k),
    ensures
        first_of_its_rank(c0.push(x), k),
{
    reveal(first_of_its_rank);
    let c1 = c0.push(x);
    assert forall|j: int| 0 <= j < k implies !(#[trigger] c1[j]).same_rank(c1[k]) by {
        assert(c1[j] == c0[j]);
        assert(c1[k] == c0[k]);
    }
}

proof fn lemma_first_extend(a0: Seq<RemainingAccount>, c0: Seq<RemainingAccount>, x: RemainingAccount)
    requires
        all_first(a0, c0),
    ensures
        all_first(a0, c0.push(x)),
{
    reveal(all_first);
    let c1 = c0.push(x);
    assert forall|i: int| 0 <= i < a0.len() implies #[trigger] is_first_candidate(c1, a0[i]) by {
        assert(is_first_candidate(c0, a0[i]));
        let k = choose|k: int| 0 <= k < c0.len() && #[trigger] c0[k] == a0[i] && first_of_its_rank(c0, k);
        lemma_first_prefix(c0, x, k);
        assert(c1[k] == c0[k]);
    }
}

/// The new candidate, of a rank not in `a0`, is first of its rank.
proof fn lemma_new_first(a0: Seq<RemainingAccount>, c0: Seq<RemainingAccount>, x: RemainingAccount)
    requires
        all_covered(a0, c0),
        !has_rank(a0, x),
    ensures
        first_of_its_rank(c0.push(x), c0.len() as int),
{
    reveal(first_of_its_rank);
    reveal(all_covered);
    let c1 = c0.push(x);
    let n = c0.len() as int;
    assert forall|j: int| 0 <= j < n implies !(#[trigger] c1[j]).same_rank(c1[n]) by {
        assert(c1[j] == c0[j]);
        assert(c1[n] == x);
        if c0[j].same_rank(x) {
            assert(has_rank(a0, c0[j]));
            let ii = choose|ii: int| 0 <= ii < a0.len() && (#[trigger] a0[ii]).same_rank(c0[j]);
            assert(a0[ii].same_rank(x));
        }
    }
}

proof fn lemma_first_insert(a0: Seq<RemainingAccount>, c1: Seq<RemainingAccount>, x: RemainingAccount, kk: int)
    requires
        all_first(a0, c1),
        c1.len() > 0,
        c1.last() == x,
        first_of_its_rank(c1, c1.len() - 1),
        0 <= kk <= a0.len(),
    ensures
        all_first(a0.insert(kk, x), c1),
{
    reveal(all_first);
    let a1 = a0.insert(kk, x);
    assert forall|i: int| 0 <= i < a1.len() implies #[trigger] is_first_candidate(c1, a1[i]) by {
        if i == kk {
            let n = c1.len() - 1;
            assert(c1[n] == a1[i]);
        } else {
            let ia = if i < kk {
                i
            } else {
                i - 1
            };
            assert(a1[i] == a0[ia]);
            assert(is_first_candidate(c1, a0[ia]));
        }
    }
}

proof fn lemma_covered_known(a0: Seq<RemainingAccount>, c0: Seq<RemainingAccount>, x: RemainingAccount)
    requires
        all_covered(a0, c0),
        has_rank(a0, x),
    ensures
        all_covered(a0, c0.push(x)),
{
    reveal(all_covered);
    let c1 = c0.push(x);
    assert forall|k: int| 0 <= k < c1.len() implies #[trigger] has_rank(a0, c1[k]) by {
        if k < c0.len() {
            assert(c1[k] == c0[k]);
        }
    }
}

proof fn lemma_covered_insert(a0: Seq<RemainingAccount>, c0: Seq<RemainingAccount>, x: RemainingAccount, kk: int)
    requires
        all_covered(a0, c0),
        !has_rank(a0, x),
        0 <= kk <= a0.len(),
    ensures
        all_covered(a0.insert(kk, x), c0.push(x)),
        first_of_its_rank(c0.push(x), c0.len() as int),
{
    lemma_new_first(a0, c0, x);
    reveal(all_covered);
    let c1 = c0.push(x);
    let a1 = a0.insert(kk, x);
    assert forall|k: int| 0 <= k < c1.len() implies #[trigger] has_rank(a1, c1[k]) by {
        if k == c0.len() {
            assert(a1[kk] == x);
            assert(a1[kk].same_rank(c1[k]));
        } else {
            assert(c1[k] == c0[k]);
            assert(has_rank(a0, c0[k]));
            let i = choose|i: int| 0 <= i < a0.len() && (#[trigger] a0[i]).same_rank(c0[k]);
            if i < kk {
                assert(a1[i] == a0[i]);
            } else {
                assert(a1[i + 1] == a0[i]);
            }
        }
    }
}

/// The market requests of `market_requests`, as a vector.
fn collect_requests(users: &[User], readable: &[MarketId], writable: &[MarketId]) -> (r: Vec<
    MarketRequest,
>)
    ensures
        r@ == market_requests(users@, readable@, writable@),
{
    let mut out: Vec<MarketRequest> = Vec::new();
    let mut i: usize = 0;
    while i < writable.len()
        invariant
            i <= writable@.len(),
            out@ == id_requests(writable@.take(i as int), true),
        decreases writable@.len() - i,
    {
        out.push((writable[i].index, writable[i].kind, true));
        assert(id_requests(writable@.take(i + 1), true) =~= id_requests(writable@.take(i as int), true).push(
            (writable@[i as int].index, writable@[i as int].kind, true),
        ));
        i = i + 1;
    }
    assert(writable@.take(writable@.len() as int) =~= writable@);
    let ghost w = out@;
    let mut i: usize = 0;
    while i < readable.len()
        invariant
            i <= readable@.len(),
            out@ == w + id_requests(readable@.take(i as int), false),
        decreases readable@.len() - i,
    {
        out.push((readable[i].index, readable[i].kind, false));
        assert(id_requests(readable@.take(i + 1), false) =~= id_requests(readable@.take(i as int), false).push(
            (readable@[i as int].index, readable@[i as int].kind, false),
        ));
        assert(w + id_requests(readable@.take(i + 1), false) =~= (w + id_requests(
            readable@.take(i as int),
            false,
        )).push((readable@[i as int].index, readable@[i as int].kind, false)));
        i = i + 1;
    }
    assert(readable@.take(readable@.len() as int) =~= readable@);
    let ghost wr = out@;
    let mut u: usize = 0;
    while u < users.len()
        invariant
            u <= users@.len(),
            out@ == wr + user_requests(users@.take(u as int)),
        decreases users@.len() - u,
    {
        let user = users[u];
        let ghost before = out@;
        let mut p: usize = 0;
        while p < 8
            invariant
                p <= 8,
                user.spot_positions@.len() == 8,
                out@ == before + spot_requests(user.spot_positions@.take(p as int)),
            decreases 8 - p,
        {
            let pos = user.spot_positions[p];
            assert(user.spot_positions@.take(p + 1).drop_last() =~= user.spot_positions@.take(p as int));
            if !DriftUtils::spot_position_available(&pos) {
                out.push((pos.market_index, MarketType::Spot, false));
            }
            assert(out@ =~= before + spot_requests(user.spot_positions@.take(p + 1)));
            p = p + 1;
        }
        assert(user.spot_positions@.take(8) =~= user.spot_positions@);
        let ghost mid = out@;
        let mut p: usize = 0;
        while p < 8
            invariant
                p <= 8,
                user.perp_positions@.len() == 8,
                out@ == mid + perp_requests(user.perp_positions@.take(p as int)),
            decreases 8 - p,
        {
            let pos = user.perp_positions[p];
            assert(user.perp_positions@.take(p + 1).drop_last() =~= user.perp_positions@.take(p as int));
            if !DriftUtils::perp_position_available(&pos) {
                out.push((pos.market_index, MarketType::Perp, false));
            }
            assert(out@ =~= mid + perp_requests(user.perp_positions@.take(p + 1)));
            p = p + 1;
        }
        assert(user.perp_positions@.take(8) =~= user.perp_positions@);
        assert(users@.take(u + 1).drop_last() =~= users@.take(u as int));
        assert(users@.take(u + 1).last() == user);
        assert(out@ =~= wr + user_requests(users@.take(u + 1)));
        u = u + 1;
    }
    assert(users@.take(users@.len() as int) =~= users@);
    out.push((0u16, MarketType::Spot, false));
    assert(out@ =~= market_requests(users@, readable@, writable@));
    out
}

/// What `remaining_accounts` is asked for besides the users' positions.
pub struct RemainingAccountParams {
    pub user_accounts: Vec<User>,
    pub readable_perp_market_indexes: Option<Vec<u16>>,
    pub writable_perp_market_indexes: Option<Vec<u16>>,
    pub readable_spot_market_indexes: Option<Vec<u16>>,
    pub writable_spot_market_indexes: Option<Vec<u16>>,
    pub use_market_last_slot_cache: bool,
}

/// A market to add to the remaining-account maps: its kind, its index and
/// whether it is writable.
#[derive(Clone, Copy, Debug, PartialEq, Eq, Structural)]
pub struct MarketAdd {
    pub kind: MarketType,
    pub index: u16,
    pub writable: bool,
}

/// The adds of one user's positions: for each spot position that is free
/// its market, and the quote market too when it has open bids or asks; then
/// the market of each perp position in use.
pub open spec fn user_adds(u: User) -> Seq<MarketAdd> {
    spot_adds(u.spot_positions@) + perp_adds(u.perp_positions@)
}

pub open spec fn spot_adds(ps: Seq<SpotPosition>) -> Seq<MarketAdd>
    decreases ps.len(),
{
    if ps.len() == 0 {
        Seq::empty()
    } else {
        let prev = spot_adds(ps.drop_last());
        let p = ps.last();
        if spot_position_free(p) {
            let with_market = prev.push(MarketAdd { kind: MarketType::Spot, index: p.market_index, writable: false });
            if p.open_asks != 0 || p.open_bids != 0 {
                with_market.push(MarketAdd { kind: MarketType::Spot, index: 0, writable: false })
            } else {
                with_market
            }
        } else {
            prev
        }
    }
}

pub open spec fn perp_adds(ps: Seq<PerpPosition>) -> Seq<MarketAdd>
    decreases ps.len(),
{
    if ps.len() == 0 {
        Seq::empty()
    } else {
        let prev = perp_adds(ps.drop_last());
        let p = ps.last();
        if !perp_position_free(p) {
            prev.push(MarketAdd { kind: MarketType::Perp, index: p.market_index, writable: false })
        } else {
            prev
        }
    }
}

pub open spec fn users_adds(users: Seq<User>) -> Seq<MarketAdd>
    decreases users.len(),
{
    if users.len() == 0 {
        Seq::empty()
    } else {
        users_adds(users.drop_last()) + user_adds(users.last())
    }
}

/// The cached markets updated after the user's account was: `(index, slot)`.
pub open spec fn cached_adds(markets: Seq<(u16, u64)>, kind: MarketType, last_user_slot: u64) -> Seq<
    MarketAdd,
>
    decreases markets.len(),
{
    if markets.len() == 0 {
        Seq::empty()
    } else {
        let prev = cached_adds(markets.drop_last(), kind, last_user_slot);
        let m = markets.last();
        if m.1 > last_user_slot {
            prev.push(MarketAdd { kind, index: m.0, writable: false })
        } else {
            prev
        }
    }
}

/// One add per listed index.
pub open spec fn index_adds(indexes: Option<Vec<u16>>, kind: MarketType, writable: bool) -> Seq<MarketAdd> {
    match indexes {
        Some(v) => v@.map_values(|i: u16| MarketAdd { kind, index: i, writable }),
        None => Seq::empty(),
    }
}

/// The markets `remaining_accounts` adds, in order: the users' positions;
/// with the market cache, the perp then spot markets updated after the
/// user's account; then the readable perp, readable spot, writable perp and
/// writable spot markets asked for.
pub open spec fn remaining_adds(
    params: RemainingAccountParams,
    last_user_slot: u64,
    cached_perps: Seq<(u16, u64)>,
    cached_spots: Seq<(u16, u64)>,
) -> Seq<MarketAdd> {
    users_adds(params.user_accounts@) + (if params.use_market_last_slot_cache {
        cached_adds(cached_perps, MarketType::Perp, last_user_slot) + cached_adds(
            cached_spots,
            MarketType::Spot,
            last_user_slot,
        )
    } else {
        Seq::empty()
    }) + index_adds(params.readable_perp_market_indexes, MarketType::Perp, false) + index_adds(
        params.readable_spot_market_indexes,
        MarketType::Spot,
        false,
    ) + index_adds(params.writable_perp_market_indexes, MarketType::Perp, true) + index_adds(
        params.writable_spot_market_indexes,
        MarketType::Spot,
        true,
    )
}

fn push_index_adds(out: &mut Vec<MarketAdd>, indexes: &Option<Vec<u16>>, kind: MarketType, writable: bool)
    ensures
        final(out)@ == old(out)@ + index_adds(*indexes, kind, writable),
{
    match indexes {
        Some(v) => {
            let ghost o = out@;
            let mut i: usize = 0;
            while i < v.len()
                invariant
                    i <= v@.len(),
                    out@ == o + v@.take(i as int).map_values(|x: u16| MarketAdd { kind, index: x, writable }),
                decreases v@.len() - i,
            {
                out.push(MarketAdd { kind, index: v[i], writable });
                assert(v@.take(i + 1).map_values(|x: u16| MarketAdd { kind, index: x, writable })
                    =~= v@.take(i as int).map_values(|x: u16| MarketAdd { kind, index: x, writable }).push(
                    MarketAdd { kind, index: v@[i as int], writable },
                ));
                i = i + 1;
            }
            assert(v@.take(v@.len() as int) =~= v@);
        },
        None => {
            assert(out@ =~= old(out)@ + Seq::<MarketAdd>::empty());
        },
    }
}

fn push_cached_adds(out: &mut Vec<MarketAdd>, markets: &[(u16, u64)], kind: MarketType, last_user_slot: u64)
    ensures
        final(out)@ == old(out)@ + cached_adds(markets@, kind, last_user_slot),
{
    let ghost o = out@;
    let mut i: usize = 0;
    while i < markets.len()
        invariant
            i <= markets@.len(),
            out@ == o + cached_adds(markets@.take(i as int), kind, last_user_slot),
        decreases markets@.len() - i,
    {
        assert(markets@.take(i + 1).drop_last() =~= markets@.take(i as int));
        let (index, slot) = markets[i];
        if slot > last_user_slot {
            out.push(MarketAdd { kind, index, writable: false });
        }
        assert(out@ =~= o + cached_adds(markets@.take(i + 1), kind, last_user_slot));
        i = i + 1;
    }
    assert(markets@.take(markets@.len() as int) =~= markets@);
}

/// The markets to add to the remaining-account maps, in the order they
/// are added; `cached_perps` and `cached_spots` are the `(index, slot)` of
/// the registered markets in the cache, read only with the market cache.
pub fn remaining_account_adds(
    params: &RemainingAccountParams,
    last_user_slot: u64,
    cached_perps: &[(u16, u64)],
    cached_spots: &[(u16, u64)],
) -> (r: Vec<MarketAdd>)
    ensures
        r@ == remaining_adds(*params, last_user_slot, cached_perps@, cached_spots@),
{
    let mut out: Vec<MarketAdd> = Vec::new();
    let users = &params.user_accounts;
    let mut u: usize = 0;
    while u < users.len()
        invariant
            u <= users@.len(),
            out@ == users_adds(users@.take(u as int)),
        decreases users@.len() - u,
    {
        let user = users[u];
        let ghost before = out@;
        let mut p: usize = 0;
        while p < 8
            invariant
                p <= 8,
                user.spot_positions@.len() == 8,
                out@ == before + spot_adds(user.spot_positions@.take(p as int)),
            decreases 8 - p,
        {
            let pos = user.spot_positions[p];
            assert(user.spot_positions@.take(p + 1).drop_last() =~= user.spot_positions@.take(p as int));
            if DriftUtils::spot_position_available(&pos) {
                out.push(MarketAdd { kind: MarketType::Spot, index: pos.market_index, writable: false });
                if pos.open_asks != 0 || pos.open_bids != 0 {
                    out.push(MarketAdd { kind: MarketType::Spot, index: 0, writable: false });
                }
            }
            assert(out@ =~= before + spot_adds(user.spot_positions@.take(p + 1)));
            p = p + 1;
        }
        assert(user.spot_positions@.take(8) =~= user.spot_positions@);
        let ghost mid = out@;
        let mut p: usize = 0;
        while p < 8
            invariant
                p <= 8,
                user.perp_positions@.len() == 8,
                out@ == mid + perp_adds(user.perp_positions@.take(p as int)),
            decreases 8 - p,
        {
            let pos = user.perp_positions[p];
            assert(user.perp_positions@.take(p + 1).drop_last() =~= user.perp_positions@.take(p as int));
            if !DriftUtils::perp_position_available(&pos) {
                out.push(MarketAdd { kind: MarketType::Perp, index: pos.market_index, writable: false });
            }
            assert(out@ =~= mid + perp_adds(user.perp_positions@.take(p + 1)));
            p = p + 1;
        }
        assert(user.perp_positions@.take(8) =~= user.perp_positions@);
        assert(users@.take(u + 1).drop_last() =~= users@.take(u as int));
        assert(out@ =~= users_adds(users@.take(u + 1)));
        u = u + 1;
    }
    assert(users@.take(users@.len() as int) =~= users@);
    let ghost s_users = out@;
    if params.use_market_last_slot_cache {
        push_cached_adds(&mut out, cached_perps, MarketType::Perp, last_user_slot);
        push_cached_adds(&mut out, cached_spots, MarketType::Spot, last_user_slot);
    }
    let ghost s_cache = out@;
    push_index_adds(&mut out, &params.readable_perp_market_indexes, MarketType::Perp, false);
    push_index_adds(&mut out, &params.readable_spot_market_indexes, MarketType::Spot, false);
    push_index_adds(&mut out, &params.writable_perp_market_indexes, MarketType::Perp, true);
    push_index_adds(&mut out, &params.writable_spot_market_indexes, MarketType::Spot, true);
    assert(out@ =~= remaining_adds(*params, last_user_slot, cached_perps@, cached_spots@));
    out
}

/// `s` with `k` mapped to `v`: in place when `k` is there, else last.
pub open spec fn map_put<K, V>(s: Seq<(K, V)>, k: K, v: V) -> Seq<(K, V)> {
    if has_key(s, k) {
        s.update(position(s, k), (k, v))
    } else {
        s.push((k, v))
    }
}

fn put_u16(m: &mut Vec<(u16, AccountInfo)>, k: u16, v: AccountInfo)
    requires
        distinct_keys(old(m)@),
    ensures
        final(m)@ == map_put(old(m)@, k, v),
        distinct_keys(final(m)@),
{
    let mut i: usize = 0;
    while i < m.len()
        invariant
            i <= m@.len(),
            forall|j: int| 0 <= j < i ==> #[trigger] m@[j].0 != k,
            distinct_keys(m@),
            m@ == old(m)@,
        decreases m@.len() - i,
    {
        if m[i].0 == k {
            proof {
                assert(has_key(m@, k));
                let p = position(m@, k);
                assert(m@[p].0 == k);
                lemma_update_entry(m@, k, v);
            }
            m.set(i, (k, v));
            return ;
        }
        i = i + 1;
    }
    proof {
        lemma_push_entry(m@, k, v);
    }
    m.push((k, v));
}

fn put_key(m: &mut Vec<(Pubkey, AccountInfo)>, k: Pubkey, v: AccountInfo)
    requires
        distinct_keys(old(m)@),
    ensures
        final(m)@ == map_put(old(m)@, k, v),
        distinct_keys(final(m)@),
{
    let mut i: usize = 0;
    while i < m.len()
        invariant
            i <= m@.len(),
            forall|j: int| 0 <= j < i ==> #[trigger] m@[j].0 != k,
            distinct_keys(m@),
            m@ == old(m)@,
        decreases m@.len() - i,
    {
        if m[i].0.equals(&k) {
            proof {
                assert(has_key(m@, k));
                let p = position(m@, k);
                assert(m@[p].0 == k);
                lemma_update_entry(m@, k, v);
            }
            m.set(i, (k, v));
            return ;
        }
        i = i + 1;
    }
    proof {
        lemma_push_entry(m@, k, v);
    }
    m.push((k, v));
}

/// The accounts an instruction needs besides its own: oracles by address,
/// spot and perp markets by index.
pub struct RemainingAccountMaps {
    pub oracle_account_map: Vec<(Pubkey, AccountInfo)>,
    pub spot_market_account_map: Vec<(u16, AccountInfo)>,
    pub perp_market_account_map: Vec<(u16, AccountInfo)>,
}

impl RemainingAccountMaps {
    /// No key occurs twice in a map.
    pub open spec fn wf(&self) -> bool {
        &&& distinct_keys(self.oracle_account_map@)
        &&& distinct_keys(self.spot_market_account_map@)
        &&& distinct_keys(self.perp_market_account_map@)
    }

    pub fn new() -> (r: Self)
        ensures
            r.wf(),
            r.oracle_account_map@.len() == 0,
            r.spot_market_account_map@.len() == 0,
            r.perp_market_account_map@.len() == 0,
    {
        Self {
            oracle_account_map: Vec::new(),
            spot_market_account_map: Vec::new(),
            perp_market_account_map: Vec::new(),
        }
    }

    /// Adds a spot market read from `market_account` at address `key`, and
    /// its oracle read from `oracle_account` unless the market has none.
    pub fn add_spot_market(
        &mut self,
        key: Pubkey,
        market: &SpotMarket,
        market_account: &Account,
        oracle_account: &Account,
        writable: bool,
    )
        requires
            old(self).wf(),
        ensures
            final(self).wf(),
            exists|info: AccountInfo|
                same_info(info, info_of(*market_account, key, false, writable, false))
                    && final(self).spot_market_account_map@ == map_put(
                    old(self).spot_market_account_map@,
                    market.market_index,
                    info,
                ),
            !market.oracle.spec_is_zero() ==> exists|info: AccountInfo|
                same_info(info, info_of(*oracle_account, market.oracle, false, false, false))
                    && final(self).oracle_account_map@ == map_put(
                    old(self).oracle_account_map@,
                    market.oracle,
                    info,
                ),
            market.oracle.spec_is_zero() ==> final(self).oracle_account_map@ == old(
                self,
            ).oracle_account_map@,
            final(self).perp_market_account_map@ == old(self).perp_market_account_map@,
    {
        let info = market_account.to_account_info(key, false, writable, false);
        put_u16(&mut self.spot_market_account_map, market.market_index, info);
        if !market.oracle.is_zero() {
            let oinfo = oracle_account.to_account_info(market.oracle, false, false, false);
            put_key(&mut self.oracle_account_map, market.oracle, oinfo);
        }
    }

    /// Adds a perp market read from `market_account` at address `key`, and
    /// its oracle, writable when the market is writable and its oracle is a
    /// prelaunch one. Returns the index of the quote spot market, which is
    /// to be added next as readable.
    pub fn add_perp_market(
        &mut self,
        key: Pubkey,
        market_index: u16,
        market: &PerpMarket,
        market_account: &Account,
        oracle_account: &Account,
        writable: bool,
    ) -> (r: u16)
        requires
            old(self).wf(),
        ensures
            final(self).wf(),
            r == market.quote_spot_market_index,
            exists|info: AccountInfo|
                same_info(info, info_of(*market_account, key, false, writable, false))
                    && final(self).perp_market_account_map@ == map_put(
                    old(self).perp_market_account_map@,
                    market_index,
                    info,
                ),
            exists|info: AccountInfo|
                same_info(
                    info,
                    info_of(
                        *oracle_account,
                        market.amm.oracle,
                        false,
                        market.amm.oracle_source == OracleSource::Prelaunch && writable,
                        false,
                    ),
                ) && final(self).oracle_account_map@ == map_put(
                    old(self).oracle_account_map@,
                    market.amm.oracle,
                    info,
                ),
            final(self).spot_market_account_map@ == old(self).spot_market_account_map@,
    {
        let info = market_account.to_account_info(key, false, writable, false);
        put_u16(&mut self.perp_market_account_map, market_index, info);
        let oracle_writable = match market.amm.oracle_source {
            OracleSource::Prelaunch => writable,
            _ => false,
        };
        let oinfo = oracle_account.to_account_info(market.amm.oracle, false, oracle_writable, false);
        put_key(&mut self.oracle_account_map, market.amm.oracle, oinfo);
        market.quote_spot_market_index
    }

    /// The accounts: oracles, then spot markets, then perp markets.
    pub fn into_metas(self) -> (r: Vec<AccountInfo>)
        ensures
            r@ == self.oracle_account_map@.map_values(|e: (Pubkey, AccountInfo)| e.1)
                + self.spot_market_account_map@.map_values(|e: (u16, AccountInfo)| e.1)
                + self.perp_market_account_map@.map_values(|e: (u16, AccountInfo)| e.1),
    {
        let RemainingAccountMaps {
            mut oracle_account_map,
            mut spot_market_account_map,
            mut perp_market_account_map,
        } = self;
        let ghost s1 = oracle_account_map@.map_values(|e: (Pubkey, AccountInfo)| e.1);
        let ghost s2 = spot_market_account_map@.map_values(|e: (u16, AccountInfo)| e.1);
        let ghost s3 = perp_market_account_map@.map_values(|e: (u16, AccountInfo)| e.1);
        let mut out: Vec<AccountInfo> = Vec::new();
        while oracle_account_map.len() > 0
            invariant
                out@ + oracle_account_map@.map_values(|e: (Pubkey, AccountInfo)| e.1) == s1,
            decreases oracle_account_map@.len(),
        {
            let ghost before = oracle_account_map@;
            let e = oracle_account_map.remove(0);
            assert(before.map_values(|e: (Pubkey, AccountInfo)| e.1) =~= seq![e.1]
                + oracle_account_map@.map_values(|e: (Pubkey, AccountInfo)| e.1));
            out.push(e.1);
            assert(out@ + oracle_account_map@.map_values(|e: (Pubkey, AccountInfo)| e.1) =~= s1);
        }
        assert(out@ =~= s1);
        while spot_market_account_map.len() > 0
            invariant
                out@ + spot_market_account_map@.map_values(|e: (u16, AccountInfo)| e.1) == s1 + s2,
            decreases spot_market_account_map@.len(),
        {
            let ghost before = spot_market_account_map@;
            let e = spot_market_account_map.remove(0);
            assert(before.map_values(|e: (u16, AccountInfo)| e.1) =~= seq![e.1]
                + spot_market_account_map@.map_values(|e: (u16, AccountInfo)| e.1));
            out.push(e.1);
            assert(out@ + spot_market_account_map@.map_values(|e: (u16, AccountInfo)| e.1) =~= s1 + s2);
        }
        assert(out@ =~= s1 + s2);
        while perp_market_account_map.len() > 0
            invariant
                out@ + perp_market_account_map@.map_values(|e: (u16, AccountInfo)| e.1) == s1 + s2 + s3,
            decreases perp_market_account_map@.len(),
        {
            let ghost before = perp_market_account_map@;
            let e = perp_market_account_map.remove(0);
            assert(before.map_values(|e: (u16, AccountInfo)| e.1) =~= seq![e.1]
                + perp_market_account_map@.map_values(|e: (u16, AccountInfo)| e.1));
            out.push(e.1);
            assert(out@ + perp_market_account_map@.map_values(|e: (u16, AccountInfo)| e.1) =~= s1 + s2
                + s3);
        }
        assert(out@ =~= s1 + s2 + s3);
        out
    }
}

} // verus!
