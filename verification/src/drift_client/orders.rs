//! The decisions behind copying a trader's orders and cancelling our own:
//! which orders are kept, how they are grouped by market, how a copied
//! order is resized and which accounts and parameters a cancel carries.
use vstd::prelude::*;

use crate::drift_client::client::map_put;
use crate::drift_client::types::MarketId;
use crate::drift_cpi::{MarketType, OrderParams, PositionDirection, SpotPosition, User};
use crate::utils::ring_map::{distinct_keys, has_key, lemma_push_entry, lemma_update_entry, lookup, position};

verus! {

/// The market an order is placed in.
pub open spec fn market_of(o: OrderParams) -> MarketId {
    MarketId { index: o.market_index, kind: o.market_type }
}

/// Whether a market passes the filter: without a filter every market does.
pub open spec fn passes(filter: Option<Seq<MarketId>>, m: MarketId) -> bool {
    match filter {
        None => true,
        Some(f) => f.contains(m),
    }
}

/// A filter given as a slice, as a sequence.
pub open spec fn filter_view(filter: Option<&[MarketId]>) -> Option<Seq<MarketId>> {
    match filter {
        None => None,
        Some(f) => Some(f@),
    }
}

/// The orders that pass the filter, grouped by market index: the groups in
/// the order in which their market first comes, each group's orders in
/// their own order.
pub open spec fn grouped_orders(params: Seq<OrderParams>, filter: Option<Seq<MarketId>>) -> Seq<
    (u16, Seq<OrderParams>),
>
    decreases params.len(),
{
    if params.len() == 0 {
        Seq::empty()
    } else {
        let g = grouped_orders(params.drop_last(), filter);
        let o = params.last();
        if passes(filter, market_of(o)) {
            map_put(
                g,
                o.market_index,
                match lookup(g, o.market_index) {
                    Some(v) => v.push(o),
                    None => seq![o],
                },
            )
        } else {
            g
        }
    }
}

/// Groups of orders, each taken by its contents.
pub open spec fn groups_view(g: Seq<(u16, Vec<OrderParams>)>) -> Seq<(u16, Seq<OrderParams>)> {
    g.map_values(|e: (u16, Vec<OrderParams>)| (e.0, e.1@))
}

/// The orders of all groups, group after group.
pub open spec fn placed(g: Seq<(u16, Seq<OrderParams>)>) -> Seq<OrderParams>
    decreases g.len(),
{
    if g.len() == 0 {
        Seq::empty()
    } else {
        placed(g.drop_last()) + g.last().1
    }
}

/// The orders that pass the filter, in their order.
pub open spec fn kept_orders(params: Seq<OrderParams>, filter: Option<Seq<MarketId>>) -> Seq<OrderParams>
    decreases params.len(),
{
    if params.len() == 0 {
        Seq::empty()
    } else {
        let rest = kept_orders(params.drop_last(), filter);
        if passes(filter, market_of(params.last())) {
            rest.push(params.last())
        } else {
            rest
        }
    }
}

/// The sum of the orders' base amounts.
pub open spec fn base_sum(orders: Seq<OrderParams>) -> int
    decreases orders.len(),
{
    if orders.len() == 0 {
        0
    } else {
        base_sum(orders.drop_last()) + orders.last().base_asset_amount
    }
}

/// The first of the positions in market `market_index`, if any.
pub open spec fn first_spot_position(ps: Seq<SpotPosition>, market_index: u16) -> Option<SpotPosition>
    decreases ps.len(),
{
    if ps.len() == 0 {
        None
    } else if ps[0].market_index == market_index {
        Some(ps[0])
    } else {
        first_spot_position(ps.drop_first(), market_index)
    }
}

/// Whether `m` is one of the markets of `markets`.
pub fn market_listed(markets: &[MarketId], m: MarketId) -> (r: bool)
    ensures
        r == markets@.contains(m),
{
    let mut i: usize = 0;
    while i < markets.len()
        invariant
            i <= markets@.len(),
            forall|j: int| 0 <= j < i ==> markets@[j] != m,
        decreases markets@.len() - i,
    {
        if markets[i] == m {
            assert(markets@[i as int] == m);
            return true;
        }
        i = i + 1;
    }
    false
}

fn passes_filter(filter: Option<&[MarketId]>, m: MarketId) -> (r: bool)
    ensures
        r == passes(filter_view(filter), m),
{
    match filter {
        None => true,
        Some(f) => market_listed(f, m),
    }
}

/// Where the group of market `k` stands, if there is one.
fn group_position(groups: &Vec<(u16, Vec<OrderParams>)>, k: u16) -> (r: Option<usize>)
    requires
        distinct_keys(groups_view(groups@)),
    ensures
        match r {
            Some(j) => j < groups@.len() && groups@[j as int].0 == k && has_key(groups_view(groups@), k)
                && position(groups_view(groups@), k) == j,
            None => !has_key(groups_view(groups@), k),
        },
{
    let ghost gv = groups_view(groups@);
    let mut i: usize = 0;
    while i < groups.len()
        invariant
            i <= groups@.len(),
            gv == groups_view(groups@),
            distinct_keys(gv),
            forall|j: int| 0 <= j < i ==> #[trigger] gv[j].0 != k,
        decreases groups@.len() - i,
    {
        if groups[i].0 == k {
            proof {
                assert(gv[i as int].0 == k);
                assert(has_key(gv, k));
                let p = position(gv, k);
                assert(gv[p].0 == k);
            }
            return Some(i);
        }
        i = i + 1;
    }
    None
}

/// The orders that pass `filter`, grouped by market index, the groups in
/// the order in which their market first comes.
pub fn orders_by_market(params: &[OrderParams], filter: Option<&[MarketId]>) -> (r: Vec<
    (u16, Vec<OrderParams>),
>)
    ensures
        groups_view(r@) == grouped_orders(params@, filter_view(filter)),
        distinct_keys(groups_view(r@)),
{
    let ghost f = filter_view(filter);
    let mut groups: Vec<(u16, Vec<OrderParams>)> = Vec::new();
    let mut i: usize = 0;
    assert(groups_view(groups@) =~= Seq::<(u16, Seq<OrderParams>)>::empty());
    while i < params.len()
        invariant
            i <= params@.len(),
            f == filter_view(filter),
            groups_view(groups@) == grouped_orders(params@.take(i as int), f),
            distinct_keys(groups_view(groups@)),
        decreases params@.len() - i,
    {
        let o = params[i];
        assert(params@.take(i + 1).drop_last() =~= params@.take(i as int));
        assert(params@.take(i + 1).last() == o);
        let m = MarketId { index: o.market_index, kind: o.market_type };
        if passes_filter(filter, m) {
            let ghost gv = groups_view(groups@);
            let k = o.market_index;
            match group_position(&groups, k) {
                Some(j) => {
                    let ghost before = groups@;
                    let (key, mut v) = groups.remove(j);
                    v.push(o);
                    groups.insert(j, (key, v));
                    proof {
                        assert(lookup(gv, k) == Some(gv[j as int].1));
                        lemma_update_entry(gv, k, gv[j as int].1.push(o));
                        assert(groups_view(groups@) =~= gv.update(j as int, (k, gv[j as int].1.push(o))));
                    }
                },
                None => {
                    let mut v: Vec<OrderParams> = Vec::new();
                    v.push(o);
                    groups.push((k, v));
                    proof {
                        lemma_push_entry(gv, k, seq![o]);
                        assert(v@ =~= seq![o]);
                        assert(groups_view(groups@) =~= gv.push((k, seq![o])));
                    }
                },
            }
        }
        i = i + 1;
    }
    assert(params@.take(params@.len() as int) =~= params@);
    groups
}

/// The orders of all groups, group after group.
pub fn placed_orders(groups: &[(u16, Vec<OrderParams>)]) -> (r: Vec<OrderParams>)
    ensures
        r@ == placed(groups_view(groups@)),
{
    let mut out: Vec<OrderParams> = Vec::new();
    let mut i: usize = 0;
    while i < groups.len()
        invariant
            i <= groups@.len(),
            out@ == placed(groups_view(groups@.take(i as int))),
        decreases groups@.len() - i,
    {
        let g = &groups[i].1;
        let ghost start = out@;
        let mut j: usize = 0;
        while j < g.len()
            invariant
                j <= g@.len(),
                g@ == groups@[i as int].1@,
                out@ == start + g@.take(j as int),
            decreases g@.len() - j,
        {
            out.push(g[j]);
            assert(g@.take(j + 1) =~= g@.take(j as int).push(g@[j as int]));
            assert(out@ =~= start + g@.take(j + 1));
            j = j + 1;
        }
        proof {
            assert(g@.take(g@.len() as int) =~= g@);
            let t = groups_view(groups@.take(i + 1));
            assert(t.drop_last() =~= groups_view(groups@.take(i as int)));
            assert(t.last() == (groups@[i as int].0, g@));
        }
        i = i + 1;
    }
    assert(groups@.take(groups@.len() as int) =~= groups@);
    out
}

/// The sum of the orders' base amounts, `None` where it exceeds `u64::MAX`.
pub fn base_total(orders: &[OrderParams]) -> (r: Option<u64>)
    ensures
        match r {
            Some(t) => t == base_sum(orders@),
            None => base_sum(orders@) > u64::MAX,
        },
{
    let mut total: u64 = 0;
    let mut i: usize = 0;
    while i < orders.len()
        invariant
            i <= orders@.len(),
            total == base_sum(orders@.take(i as int)),
        decreases orders@.len() - i,
    {
        assert(orders@.take(i + 1).drop_last() =~= orders@.take(i as int));
        match total.checked_add(orders[i].base_asset_amount) {
            Some(t) => {
                total = t;
            },
            None => {
                proof {
                    lemma_base_sum_prefix(orders@, i + 1);
                }
                return None;
            },
        }
        i = i + 1;
    }
    assert(orders@.take(orders@.len() as int) =~= orders@);
    Some(total)
}

/// The sum over a prefix is at most the sum over the whole.
proof fn lemma_base_sum_prefix(orders: Seq<OrderParams>, n: int)
    requires
        0 <= n <= orders.len(),
    ensures
        base_sum(orders.take(n)) <= base_sum(orders),
    decreases orders.len(),
{
    if n < orders.len() {
        assert(orders.drop_last().take(n) =~= orders.take(n));
        lemma_base_sum_prefix(orders.drop_last(), n);
    } else {
        assert(orders.take(n) =~= orders);
    }
}

/// A copied order resized to our own balance: its base amount replaced,
/// no expiry, and, where it was priced at an offset from the oracle, the
/// new offset.
pub fn rescaled_order(o: OrderParams, base_asset_amount: u64, oracle_price_offset: i32) -> (r: OrderParams)
    ensures
        r == (OrderParams {
            base_asset_amount,
            max_ts: None,
            oracle_price_offset: if o.oracle_price_offset is Some {
                Some(oracle_price_offset)
            } else {
                None
            },
            ..o
        }),
{
    let mut r = o;
    r.base_asset_amount = base_asset_amount;
    r.max_ts = None;
    if o.oracle_price_offset.is_some() {
        r.oracle_price_offset = Some(oracle_price_offset);
    }
    r
}

/// The user's position in spot market `market_index`, if it has one.
pub fn user_spot_position(user: &User, market_index: u16) -> (r: Option<SpotPosition>)
    ensures
        r == first_spot_position(user.spot_positions@, market_index),
{
    let ps = &user.spot_positions;
    let mut i: usize = 0;
    assert(ps@.skip(0) =~= ps@);
    while i < 8
        invariant
            i <= 8,
            ps@ == user.spot_positions@,
            ps@.len() == 8,
            first_spot_position(ps@, market_index) == first_spot_position(ps@.skip(i as int), market_index),
        decreases 8 - i,
    {
        assert(ps@.skip(i as int).drop_first() =~= ps@.skip(i + 1));
        let p = ps[i];
        assert(ps@.skip(i as int)[0] == p);
        if p.market_index == market_index {
            return Some(p);
        }
        i = i + 1;
    }
    None
}

/// What a cancel of our orders carries: the markets to read, and the
/// market, kind and direction of the orders to cancel.
#[derive(Clone, Debug)]
pub struct CancelPlan {
    pub markets_readable: Vec<MarketId>,
    pub market_index: Option<u16>,
    pub market_type: Option<MarketType>,
    pub direction: Option<PositionDirection>,
}

/// The cancel to send: nothing where a filter is given and the market is
/// not in it; otherwise the market, if any, is read and its orders in
/// `direction` are cancelled; without a market every order is cancelled,
/// whatever the direction.
pub fn cancel_orders_plan(
    market_filter: Option<&[MarketId]>,
    market: Option<MarketId>,
    direction: Option<PositionDirection>,
) -> (r: Option<CancelPlan>)
    ensures
        match (market_filter, market) {
            (Some(f), Some(m)) if !f@.contains(m) => r is None,
            _ => r is Some,
        },
        r matches Some(p) ==> match market {
            Some(m) => p.markets_readable@ == seq![m] && p.market_index == Some(m.index)
                && p.market_type == Some(m.kind) && p.direction == direction,
            None => p.markets_readable@ == Seq::<MarketId>::empty() && p.market_index is None
                && p.market_type is None && p.direction is None,
        },
{
    if let (Some(f), Some(m)) = (market_filter, market) {
        if !market_listed(f, m) {
            return None;
        }
    }
    match market {
        Some(m) => {
            let mut readable: Vec<MarketId> = Vec::new();
            readable.push(m);
            assert(readable@ =~= seq![m]);
            Some(
                CancelPlan {
                    markets_readable: readable,
                    market_index: Some(m.index),
                    market_type: Some(m.kind),
                    direction,
                },
            )
        },
        None => {
            let readable: Vec<MarketId> = Vec::new();
            Some(
                CancelPlan {
                    markets_readable: readable,
                    market_index: None,
                    market_type: None,
                    direction: None,
                },
            )
        },
    }
}

/// Grouping orders by market and placing the groups one after another
/// places each order that passes the filter exactly once, and no other.
pub proof fn lemma_grouping_keeps_orders(params: Seq<OrderParams>, filter: Option<Seq<MarketId>>)
    ensures
        placed(grouped_orders(params, filter)).to_multiset() =~= kept_orders(params, filter).to_multiset(),
    decreases params.len(),
{
    broadcast use vstd::seq_lib::group_to_multiset_ensures;

    if params.len() > 0 {
        let rest = params.drop_last();
        let o = params.last();
        lemma_grouping_keeps_orders(rest, filter);
        if passes(filter, market_of(o)) {
            let g = grouped_orders(rest, filter);
            let k = o.market_index;
            if has_key(g, k) {
                let j = position(g, k);
                let old_group = g[j].1;
                let x = (k, old_group.push(o));
                assert(lookup(g, k) == Some(old_group));
                assert(grouped_orders(params, filter) == g.update(j, x));
                assert(kept_orders(params, filter) == kept_orders(rest, filter).push(o));
                lemma_placed_update(g, j, x);
                let a = placed(g.update(j, x)).to_multiset();
                let b = placed(g).to_multiset();
                assert(old_group.push(o).to_multiset() =~= old_group.to_multiset().insert(o));
                assert(a.add(old_group.to_multiset()) =~= b.add(old_group.to_multiset().insert(o)));
                let c = old_group.to_multiset();
                assert forall|v: OrderParams| #[trigger] a.count(v) == b.insert(o).count(v) by {
                    assert(a.add(c).count(v) == b.add(c.insert(o)).count(v));
                }
                assert(a =~= b.insert(o));
            } else {
                let t = g.push((k, seq![o]));
                assert(grouped_orders(params, filter) == t);
                assert(kept_orders(params, filter) == kept_orders(rest, filter).push(o));
                assert(t.drop_last() =~= g);
                assert(placed(t) == placed(g) + seq![o]);
                assert(placed(g) + seq![o] =~= placed(g).push(o));
            }
        }
    }
}

/// Placing a concatenation of groups places the first part, then the second.
proof fn lemma_placed_concat(a: Seq<(u16, Seq<OrderParams>)>, b: Seq<(u16, Seq<OrderParams>)>)
    ensures
        placed(a + b) =~= placed(a) + placed(b),
    decreases b.len(),
{
    if b.len() == 0 {
        assert(a + b =~= a);
    } else {
        assert((a + b).drop_last() =~= a + b.drop_last());
        assert((a + b).last() == b.last());
        lemma_placed_concat(a, b.drop_last());
    }
}

/// Replacing one group changes what is placed by that group's orders alone.
proof fn lemma_placed_update(g: Seq<(u16, Seq<OrderParams>)>, j: int, x: (u16, Seq<OrderParams>))
    requires
        0 <= j < g.len(),
    ensures
        placed(g.update(j, x)).to_multiset().add(g[j].1.to_multiset()) =~= placed(g).to_multiset().add(
            x.1.to_multiset(),
        ),
{
    let l = g.take(j);
    let r = g.skip(j + 1);
    let one = seq![g[j]];
    let other = seq![x];
    assert(g =~= l + one + r);
    assert(g.update(j, x) =~= l + other + r);
    lemma_placed_concat(l + one, r);
    lemma_placed_concat(l, one);
    lemma_placed_concat(l + other, r);
    lemma_placed_concat(l, other);
    assert(one.drop_last() =~= Seq::<(u16, Seq<OrderParams>)>::empty());
    assert(other.drop_last() =~= Seq::<(u16, Seq<OrderParams>)>::empty());
    reveal_with_fuel(placed, 2);
    assert(placed(one) =~= g[j].1);
    assert(placed(other) =~= x.1);
    vstd::seq_lib::lemma_multiset_commutative(placed(l) + g[j].1, placed(r));
    vstd::seq_lib::lemma_multiset_commutative(placed(l), g[j].1);
    vstd::seq_lib::lemma_multiset_commutative(placed(l) + x.1, placed(r));
    vstd::seq_lib::lemma_multiset_commutative(placed(l), x.1);
}

/// Each group holds only orders of its own market, and no two groups share
/// a market.
pub proof fn lemma_groups_by_market(params: Seq<OrderParams>, filter: Option<Seq<MarketId>>)
    ensures
        distinct_keys(grouped_orders(params, filter)),
        forall|i: int, m: int|
            0 <= i < grouped_orders(params, filter).len() && 0 <= m < grouped_orders(params, filter)[i].1.len()
                ==> #[trigger] grouped_orders(params, filter)[i].1[m].market_index == grouped_orders(
                params,
                filter,
            )[i].0,
    decreases params.len(),
{
    if params.len() > 0 {
        let rest = params.drop_last();
        let o = params.last();
        lemma_groups_by_market(rest, filter);
        let g = grouped_orders(rest, filter);
        let k = o.market_index;
        if passes(filter, market_of(o)) {
            if has_key(g, k) {
                let j = position(g, k);
                let v = g[j].1.push(o);
                lemma_update_entry(g, k, v);
                let t = g.update(j, (k, v));
                assert(grouped_orders(params, filter) == t);
                assert forall|i: int, m: int| 0 <= i < t.len() && 0 <= m < t[i].1.len() implies #[trigger] t[i].1[m].market_index
                    == t[i].0 by {
                    if i == j {
                        if m < g[j].1.len() {
                            assert(t[i].1[m] == g[j].1[m]);
                        }
                    } else {
                        assert(t[i] == g[i]);
                    }
                }
            } else {
                lemma_push_entry(g, k, seq![o]);
                let t = g.push((k, seq![o]));
                assert(grouped_orders(params, filter) == t);
                assert forall|i: int, m: int| 0 <= i < t.len() && 0 <= m < t[i].1.len() implies #[trigger] t[i].1[m].market_index
                    == t[i].0 by {
                    if i < g.len() {
                        assert(t[i] == g[i]);
                    }
                }
            }
        }
    }
}

} // verus!
