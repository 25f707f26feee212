use vstd::prelude::*;

use crate::drift_cpi::{Pubkey, User, UserStats};
use crate::types::keyed_account::DecodedAcctCtx;
use crate::utils::order::{sorted_indices_where, stably_sorted};
use crate::utils::ring_map::{distinct_keys, has_key, lemma_push_entry, lemma_update_entry, lookup, position};

verus! {

/// A token balance and the mint of the token.
#[derive(Clone, Copy, Debug)]
pub struct TokenBalance {
    pub balance: u128,
    pub mint: Pubkey,
}

/// A trader: an authority with its statistics and its user accounts.
pub struct DriftTrader {
    pub authority: Pubkey,
    pub user_stats: DecodedAcctCtx<UserStats>,
    pub users: Vec<DecodedAcctCtx<User>>,
}

impl DriftTrader {
    /// The user with the most settled perp pnl, the last of them on a tie;
    /// the trader must have a user.
    pub fn best_user(&self) -> (r: &DecodedAcctCtx<User>)
        requires
            self.users@.len() > 0,
        ensures
            exists|i: int|
                0 <= i < self.users@.len() && *r == self.users@[i] && (forall|j: int|
                    0 <= j < self.users@.len() ==> #[trigger] self.users@[j].decoded.settled_perp_pnl
                        <= r.decoded.settled_perp_pnl) && (forall|j: int|
                    i < j < self.users@.len() ==> #[trigger] self.users@[j].decoded.settled_perp_pnl
                        < r.decoded.settled_perp_pnl),
    {
        let mut best: usize = 0;
        let mut i: usize = 1;
        while i < self.users.len()
            invariant
                1 <= i <= self.users@.len(),
                best < i,
                forall|j: int|
                    0 <= j < i ==> #[trigger] self.users@[j].decoded.settled_perp_pnl
                        <= self.users@[best as int].decoded.settled_perp_pnl,
                forall|j: int|
                    best < j < i ==> #[trigger] self.users@[j].decoded.settled_perp_pnl
                        < self.users@[best as int].decoded.settled_perp_pnl,
            decreases self.users@.len() - i,
        {
            if self.users[i].decoded.settled_perp_pnl >= self.users[best].decoded.settled_perp_pnl {
                best = i;
            }
            i = i + 1;
        }
        &self.users[best]
    }
}

/// The places in `order` of the users of authority `k`, in order.
pub open spec fn places_of(order: Seq<usize>, users: Seq<User>, k: Pubkey) -> Seq<usize>
    decreases order.len(),
{
    if order.len() == 0 {
        Seq::empty()
    } else {
        let prev = places_of(order.drop_last(), users, k);
        if users[order.last() as int].authority == k {
            prev.push(order.last())
        } else {
            prev
        }
    }
}

/// Whether some user in `order` has authority `k`.
pub open spec fn has_authority(order: Seq<usize>, users: Seq<User>, k: Pubkey) -> bool {
    exists|p: int| 0 <= p < order.len() && users[order[p] as int].authority == k
}

/// The users grouped by authority, following `order`: each authority once,
/// with the places of its users in the order they come.
pub fn group_by_authority(users: &[User], order: &[usize]) -> (r: Vec<(Pubkey, Vec<usize>)>)
    requires
        forall|p: int| 0 <= p < order@.len() ==> #[trigger] order@[p] < users@.len(),
    ensures
        distinct_keys(r@),
        forall|k: Pubkey| #[trigger] has_key(r@, k) <==> has_authority(order@, users@, k),
        forall|k: Pubkey|
            has_key(r@, k) ==> (#[trigger] lookup(r@, k))->0@ == places_of(order@, users@, k),
{
    let mut groups: Vec<(Pubkey, Vec<usize>)> = Vec::new();
    let mut p: usize = 0;
    while p < order.len()
        invariant
            p <= order@.len(),
            forall|q: int| 0 <= q < order@.len() ==> #[trigger] order@[q] < users@.len(),
            distinct_keys(groups@),
            forall|k: Pubkey|
                #[trigger] has_key(groups@, k) <==> has_authority(order@.take(p as int), users@, k),
            forall|k: Pubkey|
                has_key(groups@, k) ==> (#[trigger] lookup(groups@, k))->0@ == places_of(
                    order@.take(p as int),
                    users@,
                    k,
                ),
        decreases order@.len() - p,
    {
        let i = order[p];
        let a = users[i].authority;
        let ghost g0 = groups@;
        let ghost pre = order@.take(p as int);
        let ghost post = order@.take(p + 1);
        proof {
            assert(post.drop_last() =~= pre);
            assert(post.last() == i);
            assert forall|k: Pubkey| #[trigger] has_authority(post, users@, k) <==> (has_authority(
                pre,
                users@,
                k,
            ) || k == a) by {
                if has_authority(post, users@, k) {
                    let q = choose|q: int| 0 <= q < post.len() && users@[post[q] as int].authority == k;
                    if q < p {
                        assert(pre[q] == post[q]);
                    }
                }
                if has_authority(pre, users@, k) {
                    let q = choose|q: int| 0 <= q < pre.len() && users@[pre[q] as int].authority == k;
                    assert(post[q] == pre[q]);
                }
                if k == a {
                    assert(post[p as int] == i);
                }
            }
        }
        let mut j: usize = 0;
        while j < groups.len() && !groups[j].0.equals(&a)
            invariant
                j <= groups@.len(),
                groups@ == g0,
                forall|q: int| 0 <= q < j ==> #[trigger] groups@[q].0 != a,
            decreases groups@.len() - j,
        {
            j = j + 1;
        }
        let found = j < groups.len();
        if found {
            let (k, mut places) = groups.remove(j);
            proof {
                assert(g0[j as int].0 == a);
                assert(has_key(g0, a));
                let q = position(g0, a);
                assert(g0[q].0 == a);
                assert(q == j as int);
            }
            places.push(i);
            groups.insert(j, (k, places));
            proof {
                assert(groups@ =~= g0.update(j as int, (a, places)));
                lemma_update_entry(g0, a, places);
            }
        } else {
            let mut places: Vec<usize> = Vec::new();
            places.push(i);
            proof {
                assert(!has_key(g0, a)) by {
                    if has_key(g0, a) {
                        let q = position(g0, a);
                        assert(g0[q].0 == a);
                    }
                }
                lemma_push_entry(g0, a, places);
            }
            groups.push((a, places));
        }
        proof {
            assert forall|k: Pubkey| #[trigger] has_key(groups@, k) <==> has_authority(post, users@, k) by {
                if k != a {
                    assert(lookup(groups@, k) == lookup(g0, k));
                } else {
                    assert(lookup(groups@, a) is Some);
                }
            }
            assert forall|k: Pubkey| has_key(groups@, k) implies (#[trigger] lookup(groups@, k))->0@
                == places_of(post, users@, k) by {
                if k != a {
                    assert(lookup(groups@, k) == lookup(g0, k));
                } else if has_key(g0, a) {
                    assert(places_of(post, users@, a) == places_of(pre, users@, a).push(i));
                } else {
                    assert(places_of(pre, users@, a) =~= Seq::<usize>::empty()) by {
                        lemma_places_empty(pre, users@, a);
                    }
                }
            }
        }
        p = p + 1;
    }
    assert(order@.take(order@.len() as int) =~= order@);
    groups
}

proof fn lemma_places_empty(order: Seq<usize>, users: Seq<User>, k: Pubkey)
    requires
        !has_authority(order, users, k),
    ensures
        places_of(order, users, k) == Seq::<usize>::empty(),
    decreases order.len(),
{
    if order.len() > 0 {
        assert(!has_authority(order.drop_last(), users, k)) by {
            if has_authority(order.drop_last(), users, k) {
                let q = choose|q: int|
                    0 <= q < order.drop_last().len() && users[order.drop_last()[q] as int].authority == k;
                assert(order[q] == order.drop_last()[q]);
            }
        }
        lemma_places_empty(order.drop_last(), users, k);
        assert(users[order[order.len() - 1] as int].authority != k);
    }
}

/// The groups of `DriftUtils::top_traders`: the users with deposits, sorted
/// by settled perp pnl (stably), grouped by authority.
pub fn top_trader_groups(users: &[User]) -> (r: Vec<(Pubkey, Vec<usize>)>)
    ensures
        exists|order: Seq<usize>|
            {
                &&& stably_sorted(users@.map_values(|u: User| u.settled_perp_pnl), order)
                &&& order.no_duplicates()
                &&& (forall|x: usize| #[trigger] order.contains(x) <==> (x < users@.len() && users@[x as int].total_deposits > 0))
                &&& distinct_keys(r@)
                &&& (forall|k: Pubkey| #[trigger] has_key(r@, k) <==> has_authority(order, users@, k))
                &&& (forall|k: Pubkey|
                    has_key(r@, k) ==> (#[trigger] lookup(r@, k))->0@ == places_of(order, users@, k))
            },
{
    let mut keys: Vec<i64> = Vec::new();
    let mut keep: Vec<bool> = Vec::new();
    let mut i: usize = 0;
    while i < users.len()
        invariant
            i <= users@.len(),
            keys@ == users@.take(i as int).map_values(|u: User| u.settled_perp_pnl),
            keep@.len() == i,
            forall|j: int| 0 <= j < i ==> #[trigger] keep@[j] == (users@[j].total_deposits > 0),
        decreases users@.len() - i,
    {
        keys.push(users[i].settled_perp_pnl);
        keep.push(users[i].total_deposits > 0);
        assert(users@.take(i + 1).map_values(|u: User| u.settled_perp_pnl) =~= users@.take(
            i as int,
        ).map_values(|u: User| u.settled_perp_pnl).push(users@[i as int].settled_perp_pnl));
        i = i + 1;
    }
    assert(users@.take(users@.len() as int) =~= users@);
    let order = sorted_indices_where(keys.as_slice(), keep.as_slice());
    proof {
        assert forall|p: int| 0 <= p < order@.len() implies #[trigger] order@[p] < users@.len() by {
            assert(order@.contains(order@[p]));
        }
    }
    group_by_authority(users, order.as_slice())
}

} // verus!
