use vstd::prelude::*;

use crate::drift_client::types::{DlobNode, MarketId};
use crate::drift_cpi::{Order, OrderStatus, Pubkey, User};
use crate::types::keyed_account::DecodedAcctCtx;
use crate::utils::ring_map::{
    distinct_keys, has_key, lemma_push_entry, lemma_update_entry, lookup, position,
};

verus! {

/// Why the order book could not answer.
#[derive(Debug, Clone, Copy, PartialEq, Eq)]
pub enum OrderbookError {
    /// The book holds no orders for this market.
    NotFound { market: Pubkey },
    /// The program derives no address for this market.
    NoMarketAddress { market: MarketId },
}

/// Whether an order is completely filled.
pub open spec fn node_filled(o: Order) -> bool {
    o.base_asset_amount == o.base_asset_amount_filled || o.status == OrderStatus::Filled
}

/// The users of one market with their orders, in the order the users came.
pub open spec fn users_view(s: Seq<(Pubkey, Vec<DlobNode>)>) -> Seq<(Pubkey, Seq<DlobNode>)> {
    s.map_values(|e: (Pubkey, Vec<DlobNode>)| (e.0, e.1@))
}

/// The orders of a user after an order update: an open order joins the
/// user's orders, a filled one takes every order of its id out.
pub open spec fn orders_after(u: Seq<DlobNode>, node: DlobNode) -> Seq<DlobNode> {
    if node_filled(node.order) {
        u.filter(|o: DlobNode| o.order.order_id != node.order.order_id)
    } else {
        u.push(node)
    }
}

/// The users of a market after an order update of `user`: a user seen the
/// first time comes last.
pub open spec fn entries_after(m: Seq<(Pubkey, Seq<DlobNode>)>, user: Pubkey, node: DlobNode) -> Seq<
    (Pubkey, Seq<DlobNode>),
> {
    if has_key(m, user) {
        let p = position(m, user);
        m.update(p, (user, orders_after(m[p].1, node)))
    } else {
        m.push((user, orders_after(Seq::empty(), node)))
    }
}

/// The book after an order update of `user` in `market`; the market and the
/// user get an entry even when nothing is added.
pub open spec fn book_after(
    b: Map<Pubkey, Seq<(Pubkey, Seq<DlobNode>)>>,
    market: Pubkey,
    user: Pubkey,
    node: DlobNode,
) -> Map<Pubkey, Seq<(Pubkey, Seq<DlobNode>)>> {
    let m = if b.contains_key(market) {
        b[market]
    } else {
        Seq::empty()
    };
    b.insert(market, entries_after(m, user, node))
}

/// The market an order belongs to.
pub open spec fn order_market(o: Order) -> MarketId {
    MarketId { index: o.market_index, kind: o.market_type }
}

/// Whether the program derives an address for the market of an order.
pub open spec fn addressable(o: Order) -> bool {
    order_market(o).spec_key() is Some
}

/// The address of the market an order belongs to (meaningful when
/// `addressable(o)`).
pub open spec fn order_market_key(o: Order) -> Pubkey {
    choose|k: Pubkey| order_market(o).spec_key() == Some(k.0@)
}

/// Whether every order's market has an address.
pub open spec fn all_addressable(orders: Seq<Order>) -> bool {
    forall|k: int| 0 <= k < orders.len() ==> addressable(#[trigger] orders[k])
}

/// Whether every order that `load` takes in has a market address.
pub open spec fn load_addressable(users: Seq<DecodedAcctCtx<User>>, markets: Seq<MarketId>) -> bool
    decreases users.len(),
{
    if users.len() == 0 {
        true
    } else {
        &&& load_addressable(users.drop_last(), markets)
        &&& users.last().decoded.has_open_order ==> all_addressable(
            users.last().decoded.orders@.filter(|o: Order| in_markets(markets, o)),
        )
    }
}

/// The book after updates with each of `orders` of `user`, in order, each
/// in its own market.
pub open spec fn book_after_orders(
    b: Map<Pubkey, Seq<(Pubkey, Seq<DlobNode>)>>,
    user: Pubkey,
    orders: Seq<Order>,
) -> Map<Pubkey, Seq<(Pubkey, Seq<DlobNode>)>>
    decreases orders.len(),
{
    if orders.len() == 0 {
        b
    } else {
        book_after(
            book_after_orders(b, user, orders.drop_last()),
            order_market_key(orders.last()),
            user,
            DlobNode { order: orders.last() },
        )
    }
}

/// Whether an order belongs to one of `markets`.
pub open spec fn in_markets(markets: Seq<MarketId>, o: Order) -> bool {
    markets.contains(MarketId { index: o.market_index, kind: o.market_type })
}

/// The book after loading `users`: the orders in `markets` of each user
/// with an open order, user after user.
pub open spec fn book_after_load(
    b: Map<Pubkey, Seq<(Pubkey, Seq<DlobNode>)>>,
    users: Seq<DecodedAcctCtx<User>>,
    markets: Seq<MarketId>,
) -> Map<Pubkey, Seq<(Pubkey, Seq<DlobNode>)>>
    decreases users.len(),
{
    if users.len() == 0 {
        b
    } else {
        let prev = book_after_load(b, users.drop_last(), markets);
        let u = users.last();
        if u.decoded.has_open_order {
            book_after_orders(
                prev,
                u.key,
                u.decoded.orders@.filter(|o: Order| in_markets(markets, o)),
            )
        } else {
            prev
        }
    }
}

/// How many orders the users of a market hold together.
pub open spec fn order_count(s: Seq<(Pubkey, Seq<DlobNode>)>) -> int
    decreases s.len(),
{
    if s.len() == 0 {
        0
    } else {
        order_count(s.drop_last()) + s.last().1.len()
    }
}

proof fn lemma_users_view(s: Seq<(Pubkey, Vec<DlobNode>)>, k: Pubkey)
    requires
        distinct_keys(s),
    ensures
        distinct_keys(users_view(s)),
        has_key(users_view(s), k) == has_key(s, k),
        has_key(s, k) ==> position(users_view(s), k) == position(s, k),
{
    let v = users_view(s);
    assert forall|a: int, b: int| 0 <= a < b < v.len() implies #[trigger] v[a].0 != #[trigger] v[b].0 by {
        assert(v[a].0 == s[a].0);
        assert(v[b].0 == s[b].0);
    }
    if has_key(s, k) {
        let p = position(s, k);
        assert(v[p].0 == k);
        let q = position(v, k);
        assert(v[q].0 == k);
        assert(s[q].0 == k);
    }
    if has_key(v, k) {
        let q = position(v, k);
        assert(s[q].0 == v[q].0);
    }
}

/// For each market of a Drift user order, the orders of each user.
pub struct InnerOrderbook {
    markets: Vec<MarketId>,
    orderbook: Vec<(Pubkey, Vec<(Pubkey, Vec<DlobNode>)>)>,
}

impl View for InnerOrderbook {
    type V = Map<Pubkey, Seq<(Pubkey, Seq<DlobNode>)>>;

    /// Market address to its users with their orders.
    closed spec fn view(&self) -> Map<Pubkey, Seq<(Pubkey, Seq<DlobNode>)>> {
        Map::new(
            |m: Pubkey| has_key(self.orderbook@, m),
            |m: Pubkey|
                match lookup(self.orderbook@, m) {
                    Some(v) => users_view(v@),
                    None => Seq::empty(),
                },
        )
    }
}

impl InnerOrderbook {
    #[verifier::type_invariant]
    spec fn well_formed(self) -> bool {
        &&& distinct_keys(self.orderbook@)
        &&& forall|i: int|
            0 <= i < self.orderbook@.len() ==> distinct_keys(#[trigger] self.orderbook@[i].1@)
    }

    /// The markets whose orders `load` keeps.
    pub closed spec fn markets(&self) -> Seq<MarketId> {
        self.markets@
    }

    pub fn new(markets: Vec<MarketId>) -> (r: Self)
        ensures
            r@ == Map::<Pubkey, Seq<(Pubkey, Seq<DlobNode>)>>::empty(),
            r.markets() == markets@,
    {
        let r = Self { markets, orderbook: Vec::new() };
        assert(r@ =~= Map::<Pubkey, Seq<(Pubkey, Seq<DlobNode>)>>::empty());
        r
    }

    /// Where market `m` stands in `book`, if it is there.
    fn find_market(book: &Vec<(Pubkey, Vec<(Pubkey, Vec<DlobNode>)>)>, m: &Pubkey) -> (r: Option<
        usize,
    >)
        requires
            distinct_keys(book@),
        ensures
            match r {
                Some(i) => has_key(book@, *m) && i < book@.len() && position(book@, *m) == i as int,
                None => !has_key(book@, *m),
            },
    {
        let mut i: usize = 0;
        while i < book.len()
            invariant
                i <= book@.len(),
                forall|j: int| 0 <= j < i ==> #[trigger] book@[j].0 != *m,
                distinct_keys(book@),
            decreases book@.len() - i,
        {
            if book[i].0.equals(m) {
                proof {
                    assert(has_key(book@, *m));
                    let p = position(book@, *m);
                    assert(book@[p].0 == *m);
                    assert(book@[i as int].0 == *m);
                }
                return Some(i);
            }
            i = i + 1;
        }
        None
    }

    /// Where user `u` stands among `users`, if there.
    fn find_user(users: &Vec<(Pubkey, Vec<DlobNode>)>, u: &Pubkey) -> (r: Option<usize>)
        requires
            distinct_keys(users@),
        ensures
            match r {
                Some(i) => has_key(users@, *u) && i < users@.len() && position(users@, *u)
                    == i as int,
                None => !has_key(users@, *u),
            },
    {
        let mut i: usize = 0;
        while i < users.len()
            invariant
                i <= users@.len(),
                forall|j: int| 0 <= j < i ==> #[trigger] users@[j].0 != *u,
                distinct_keys(users@),
            decreases users@.len() - i,
        {
            if users[i].0.equals(u) {
                proof {
                    assert(has_key(users@, *u));
                    let p = position(users@, *u);
                    assert(users@[p].0 == *u);
                    assert(users@[i as int].0 == *u);
                }
                return Some(i);
            }
            i = i + 1;
        }
        None
    }

    /// Whether the book holds any user for `market`.
    pub fn ready(&self, market: &Pubkey) -> (r: bool)
        ensures
            r == (self@.contains_key(*market) && self@[*market].len() > 0),
    {
        proof {
            use_type_invariant(self);
        }
        match Self::find_market(&self.orderbook, market) {
            Some(i) => self.orderbook[i].1.len() > 0,
            None => false,
        }
    }

    /// The users of `market` with their orders.
    pub fn orders(&self, market: &Pubkey) -> (r: Result<&Vec<(Pubkey, Vec<DlobNode>)>, OrderbookError>)
        ensures
            match r {
                Ok(v) => self@.contains_key(*market) && users_view(v@) == self@[*market]
                    && distinct_keys(v@),
                Err(e) => !self@.contains_key(*market) && e == (OrderbookError::NotFound {
                    market: *market,
                }),
            },
    {
        proof {
            use_type_invariant(self);
        }
        match Self::find_market(&self.orderbook, market) {
            Some(i) => Ok(&self.orderbook[i].1),
            None => Err(OrderbookError::NotFound { market: *market }),
        }
    }

    /// How many users have orders in `market`.
    pub fn market_users(&self, market: &MarketId) -> (r: Result<usize, OrderbookError>)
        ensures
            match market.spec_key() {
                None => r == Err::<usize, OrderbookError>(OrderbookError::NoMarketAddress { market: *market }),
                Some(b) => exists|k: Pubkey|
                    #![trigger self@.contains_key(k)]
                    k.0@ == b && match r {
                        Ok(n) => self@.contains_key(k) && n == self@[k].len(),
                        Err(e) => !self@.contains_key(k) && e == (OrderbookError::NotFound { market: k }),
                    },
            },
    {
        let key = match market.key() {
            Some(k) => k,
            None => return Err(OrderbookError::NoMarketAddress { market: *market }),
        };
        let users = match self.orders(&key) {
            Ok(u) => u,
            Err(e) => return Err(e),
        };
        Ok(users.len())
    }

    /// How many orders the book holds for `market`; the count must fit in
    /// a `usize`.
    pub fn market_orders(&self, market: &MarketId) -> (r: Result<usize, OrderbookError>)
        requires
            forall|k: Pubkey|
                #![trigger self@[k]]
                self@.contains_key(k) && market.spec_key() == Some(k.0@) ==> order_count(self@[k])
                    <= usize::MAX,
        ensures
            match market.spec_key() {
                None => r == Err::<usize, OrderbookError>(OrderbookError::NoMarketAddress { market: *market }),
                Some(b) => exists|k: Pubkey|
                    #![trigger self@.contains_key(k)]
                    k.0@ == b && match r {
                        Ok(n) => self@.contains_key(k) && n == order_count(self@[k]),
                        Err(e) => !self@.contains_key(k) && e == (OrderbookError::NotFound { market: k }),
                    },
            },
    {
        let key = match market.key() {
            Some(k) => k,
            None => return Err(OrderbookError::NoMarketAddress { market: *market }),
        };
        let users = match self.orders(&key) {
            Ok(u) => u,
            Err(e) => return Err(e),
        };
        let ghost view = users_view(users@);
        assert(order_count(self@[key]) <= usize::MAX);
        let mut n: usize = 0;
        let mut i: usize = 0;
        while i < users.len()
            invariant
                i <= users@.len(),
                view == users_view(users@),
                n == order_count(view.take(i as int)),
                order_count(view) <= usize::MAX,
            decreases users@.len() - i,
        {
            proof {
                assert(view.take(i + 1).drop_last() =~= view.take(i as int));
                lemma_order_count_prefix(view, i + 1);
            }
            n = n + users[i].1.len();
            i = i + 1;
        }
        assert(view.take(users@.len() as int) =~= view);
        Ok(n)
    }

    /// Adds an open order to the orders of `user` in `market`, or takes a
    /// filled order's id out of them.
    pub fn insert_order(&mut self, market: Pubkey, user: Pubkey, order: Order) -> (r: Result<
        (),
        OrderbookError,
    >)
        ensures
            r is Ok,
            final(self)@ == book_after(old(self)@, market, user, DlobNode { order }),
            final(self).markets() == old(self).markets(),
    {
        proof {
            use_type_invariant(&*self);
        }
        let node = DlobNode::new(order);
        let filled = node.filled();
        let mut book: Vec<(Pubkey, Vec<(Pubkey, Vec<DlobNode>)>)> = Vec::new();
        std::mem::swap(&mut book, &mut self.orderbook);
        let ghost b0 = book@;
        let ghost v0 = old(self)@;
        let i = match Self::find_market(&book, &market) {
            Some(i) => i,
            None => {
                book.push((market, Vec::new()));
                proof {
                    assert(book@ == b0.push((market, book@.last().1)));
                    lemma_push_entry(b0, market, book@.last().1);
                }
                book.len() - 1
            },
        };
        let ghost b1 = book@;
        proof {
            assert(has_key(b1, market));
            assert(b1[i as int].0 == market);
            let q = position(b1, market);
            assert(b1[q].0 == market);
            assert(q == i as int);
            assert(distinct_keys(b1));
        }
        let (mk, mut users) = book.remove(i);
        let ghost u0 = users@;
        proof {
            assert(mk == market);
            assert(users == b1[i as int].1);
            assert(distinct_keys(u0));
            if has_key(b0, market) {
                assert(b1 == b0);
                assert(lookup(b0, market) == Some(users));
            } else {
                assert(i == b0.len());
            }
        }
        let j = match Self::find_user(&users, &user) {
            Some(j) => j,
            None => {
                users.push((user, Vec::new()));
                proof {
                    assert(users@ == u0.push((user, users@.last().1)));
                    lemma_push_entry(u0, user, users@.last().1);
                }
                users.len() - 1
            },
        };
        let ghost u1 = users@;
        proof {
            assert(has_key(u1, user));
            assert(u1[j as int].0 == user);
            let q = position(u1, user);
            assert(u1[q].0 == user);
            assert(q == j as int);
        }
        let (uk, nodes) = users.remove(j);
        let ghost n0 = nodes@;
        let new_nodes = if filled {
            Self::without_id(nodes, order.order_id)
        } else {
            let mut nodes = nodes;
            nodes.push(node);
            nodes
        };
        proof {
            assert(new_nodes@ == orders_after(n0, node));
        }
        users.insert(j, (uk, new_nodes));
        proof {
            assert(users@ =~= u1.update(j as int, (user, new_nodes)));
            lemma_update_entry(u1, user, new_nodes);
            lemma_users_view(u0, user);
            let m0 = users_view(u0);
            if has_key(u0, user) {
                assert(u1 == u0);
                assert(users_view(users@) =~= m0.update(j as int, (user, new_nodes@)));
            } else {
                assert(j == u0.len());
                assert(n0.len() == 0);
                assert(users_view(users@) =~= m0.push((user, new_nodes@)));
            }
            assert(users_view(users@) == entries_after(m0, user, node));
        }
        book.insert(i, (mk, users));
        proof {
            assert(book@ =~= b1.update(i as int, (market, users)));
            lemma_update_entry(b1, market, users);
            let nb = book@;
            assert forall|a: int| 0 <= a < nb.len() implies distinct_keys(#[trigger] nb[a].1@) by {
                if a != i as int {
                    assert(nb[a] == b1[a]);
                    if a < b0.len() {
                        assert(b1[a] == b0[a]);
                    }
                }
            }
        }
        self.orderbook = book;
        proof {
            let m0 = if v0.contains_key(market) {
                v0[market]
            } else {
                Seq::empty()
            };
            assert(users_view(u0) == m0) by {
                if !has_key(b0, market) {
                    assert(users_view(u0) =~= Seq::<(Pubkey, Seq<DlobNode>)>::empty());
                }
            }
            let target = book_after(v0, market, user, node);
            assert forall|m: Pubkey| #[trigger] self@.contains_key(m) == target.contains_key(m) by {
                if m != market {
                    assert(lookup(self.orderbook@, m) == lookup(b0, m));
                }
            }
            assert forall|m: Pubkey| #[trigger] self@.contains_key(m) implies self@[m] == target[m] by {
                if m != market {
                    assert(lookup(self.orderbook@, m) == lookup(b0, m));
                }
            }
            assert(self@ =~= target);
        }
        Ok(())
    }

    /// The orders whose id is not `id`, in order.
    fn without_id(nodes: Vec<DlobNode>, id: u32) -> (r: Vec<DlobNode>)
        ensures
            r@ == nodes@.filter(|o: DlobNode| o.order.order_id != id),
    {
        let mut out: Vec<DlobNode> = Vec::new();
        let mut i: usize = 0;
        let ghost pred = |o: DlobNode| o.order.order_id != id;
        while i < nodes.len()
            invariant
                i <= nodes@.len(),
                out@ == nodes@.take(i as int).filter(pred),
                pred == (|o: DlobNode| o.order.order_id != id),
            decreases nodes@.len() - i,
        {
            proof {
                assert(nodes@.take(i + 1).drop_last() =~= nodes@.take(i as int));
                reveal(Seq::filter);
            }
            if nodes[i].order.order_id != id {
                out.push(DlobNode::new(nodes[i].order));
            }
            i = i + 1;
        }
        assert(nodes@.take(nodes@.len() as int) =~= nodes@);
        out
    }

    /// The market address of an order, if the program derives one.
    fn market_key(o: &Order) -> (r: Option<Pubkey>)
        ensures
            match r {
                Some(k) => addressable(*o) && k == order_market_key(*o),
                None => !addressable(*o),
            },
    {
        let market = MarketId::from((o.market_index, o.market_type)).key();
        match market {
            Some(m) => {
                proof {
                    assert(order_market(*o).spec_key() == Some(m.0@));
                    let k = order_market_key(*o);
                    broadcast use vstd::array::group_array_axioms;

                    assert(k.0 =~= m.0);
                }
                Some(m)
            },
            None => None,
        }
    }

    /// Takes in every order of the user, each in its own market. An order
    /// whose market has no address stops it, with the orders before it
    /// taken in.
    pub fn insert_user(&mut self, user: DecodedAcctCtx<User>) -> (r: Result<(), OrderbookError>)
        ensures
            match r {
                Ok(()) => all_addressable(user.decoded.orders@) && final(self)@ == book_after_orders(
                    old(self)@,
                    user.key,
                    user.decoded.orders@,
                ),
                Err(e) => exists|k: int|
                    0 <= k < user.decoded.orders@.len() && all_addressable(user.decoded.orders@.take(k))
                        && !addressable(#[trigger] user.decoded.orders@[k]) && e == (
                    OrderbookError::NoMarketAddress { market: order_market(user.decoded.orders@[k]) })
                        && final(self)@ == book_after_orders(old(self)@, user.key, user.decoded.orders@.take(k)),
            },
            final(self).markets() == old(self).markets(),
    {
        let orders = user.decoded.orders;
        let mut i: usize = 0;
        while i < 32
            invariant
                i <= 32,
                orders@.len() == 32,
                orders == user.decoded.orders,
                all_addressable(orders@.take(i as int)),
                self@ == book_after_orders(old(self)@, user.key, orders@.take(i as int)),
                self.markets() == old(self).markets(),
            decreases 32 - i,
        {
            let o = orders[i];
            match Self::market_key(&o) {
                Some(market) => {
                    let _ = self.insert_order(market, user.key, o);
                },
                None => {
                    let m = MarketId::from((o.market_index, o.market_type));
                    assert(orders@[i as int] == o);
                    return Err(OrderbookError::NoMarketAddress { market: m });
                },
            }
            assert(orders@.take(i + 1).drop_last() =~= orders@.take(i as int));
            assert forall|k: int| 0 <= k < i + 1 implies addressable(#[trigger] orders@.take(i + 1)[k]) by {
                if k < i {
                    assert(orders@.take(i + 1)[k] == orders@.take(i as int)[k]);
                }
            }
            i = i + 1;
        }
        assert(orders@.take(32) =~= orders@);
        Ok(())
    }

    /// Whether the order's market is one of those the book keeps.
    fn kept(&self, o: &Order) -> (r: bool)
        ensures
            r == in_markets(self.markets(), *o),
    {
        let id = MarketId::from((o.market_index, o.market_type));
        let mut i: usize = 0;
        while i < self.markets.len()
            invariant
                i <= self.markets@.len(),
                id == (MarketId { index: o.market_index, kind: o.market_type }),
                forall|j: int| 0 <= j < i ==> self.markets@[j] != id,
            decreases self.markets@.len() - i,
        {
            if self.markets[i] == id {
                assert(self.markets@[i as int] == id);
                return true;
            }
            i = i + 1;
        }
        false
    }

    /// Takes in the orders, in the book's markets, of each user with an
    /// open order. An order whose market has no address stops it.
    pub fn load(&mut self, users: Vec<DecodedAcctCtx<User>>) -> (r: Result<(), OrderbookError>)
        ensures
            match r {
                Ok(()) => load_addressable(users@, old(self).markets()) && final(self)@
                    == book_after_load(old(self)@, users@, old(self).markets()),
                Err(e) => !load_addressable(users@, old(self).markets()) && e is NoMarketAddress,
            },
            final(self).markets() == old(self).markets(),
    {
        let ghost markets = self.markets();
        let mut i: usize = 0;
        while i < users.len()
            invariant
                i <= users@.len(),
                self.markets() == markets,
                markets == old(self).markets(),
                load_addressable(users@.take(i as int), markets),
                self@ == book_after_load(old(self)@, users@.take(i as int), markets),
            decreases users@.len() - i,
        {
            let ghost before = self@;
            assert(users@.take(i + 1).drop_last() =~= users@.take(i as int));
            assert(users@.take(i + 1).last() == users@[i as int]);
            if users[i].decoded.has_open_order {
                let orders = users[i].decoded.orders;
                let key = users[i].key;
                let ghost pred = |o: Order| in_markets(markets, o);
                let mut kept: Vec<Order> = Vec::new();
                let mut k: usize = 0;
                while k < 32
                    invariant
                        k <= 32,
                        orders@.len() == 32,
                        self.markets() == markets,
                        pred == (|o: Order| in_markets(markets, o)),
                        kept@ == orders@.take(k as int).filter(pred),
                    decreases 32 - k,
                {
                    proof {
                        assert(orders@.take(k + 1).drop_last() =~= orders@.take(k as int));
                        reveal(Seq::filter);
                    }
                    if self.kept(&orders[k]) {
                        kept.push(orders[k]);
                    }
                    k = k + 1;
                }
                assert(orders@.take(32) =~= orders@);
                let mut j: usize = 0;
                while j < kept.len()
                    invariant
                        j <= kept@.len(),
                        self.markets() == markets,
                        markets == old(self).markets(),
                        i < users@.len(),
                        users@[i as int].decoded.has_open_order,
                        kept@ == users@[i as int].decoded.orders@.filter(|o: Order| in_markets(markets, o)),
                        all_addressable(kept@.take(j as int)),
                        self@ == book_after_orders(before, key, kept@.take(j as int)),
                    decreases kept@.len() - j,
                {
                    let o = kept[j];
                    match Self::market_key(&o) {
                        Some(market) => {
                            let _ = self.insert_order(market, key, o);
                        },
                        None => {
                            proof {
                                assert(!addressable(kept@[j as int]));
                                assert(!all_addressable(kept@));
                                assert(users@.take(i + 1).drop_last() =~= users@.take(i as int));
                                assert(users@.take(i + 1).last() == users@[i as int]);
                                assert(!load_addressable(users@.take(i + 1), markets));
                                lemma_load_addressable_prefix(users@, markets, i + 1);
                            }
                            let m = MarketId::from((o.market_index, o.market_type));
                            return Err(OrderbookError::NoMarketAddress { market: m });
                        },
                    }
                    assert(kept@.take(j + 1).drop_last() =~= kept@.take(j as int));
                    assert forall|q: int| 0 <= q < j + 1 implies addressable(#[trigger] kept@.take(j + 1)[q]) by {
                        if q < j {
                            assert(kept@.take(j + 1)[q] == kept@.take(j as int)[q]);
                        }
                    }
                    j = j + 1;
                }
                assert(kept@.take(kept@.len() as int) =~= kept@);
            }
            i = i + 1;
        }
        assert(users@.take(users@.len() as int) =~= users@);
        Ok(())
    }
}

/// What a prefix of the users asks of market addresses, all of them ask.
proof fn lemma_load_addressable_prefix(users: Seq<DecodedAcctCtx<User>>, markets: Seq<MarketId>, n: int)
    requires
        0 <= n <= users.len(),
    ensures
        load_addressable(users, markets) ==> load_addressable(users.take(n), markets),
    decreases users.len(),
{
    if n < users.len() {
        assert(users.drop_last().take(n) =~= users.take(n));
        lemma_load_addressable_prefix(users.drop_last(), markets, n);
    } else {
        assert(users.take(n) =~= users);
    }
}

/// Once a filled order is taken in, its user holds no order of its id in
/// that market, and an open order taken in is the user's last order there.
pub proof fn lemma_order_update(
    b: Map<Pubkey, Seq<(Pubkey, Seq<DlobNode>)>>,
    market: Pubkey,
    user: Pubkey,
    node: DlobNode,
)
    requires
        b.contains_key(market) ==> distinct_keys(b[market]),
    ensures
        lookup(book_after(b, market, user, node)[market], user) matches Some(os) && (if node_filled(
            node.order,
        ) {
            forall|i: int| 0 <= i < os.len() ==> (#[trigger] os[i]).order.order_id
                != node.order.order_id
        } else {
            os.len() > 0 && os.last() == node
        }),
{
    let m = if b.contains_key(market) {
        b[market]
    } else {
        Seq::empty()
    };
    let u = if has_key(m, user) {
        m[position(m, user)].1
    } else {
        Seq::<DlobNode>::empty()
    };
    let nu = orders_after(u, node);
    if has_key(m, user) {
        lemma_update_entry(m, user, nu);
    } else {
        lemma_push_entry(m, user, nu);
    }
    assert(lookup(book_after(b, market, user, node)[market], user) == Some(nu));
    if node_filled(node.order) {
        let pred = |o: DlobNode| o.order.order_id != node.order.order_id;
        assert forall|i: int| 0 <= i < nu.len() implies (#[trigger] nu[i]).order.order_id
            != node.order.order_id by {
            u.lemma_filter_pred(pred, i);
        }
    }
}

proof fn lemma_order_count_prefix(s: Seq<(Pubkey, Seq<DlobNode>)>, j: int)
    requires
        0 <= j <= s.len(),
    ensures
        order_count(s.take(j)) <= order_count(s),
        j > 0 ==> order_count(s.take(j)) == order_count(s.take(j - 1)) + s[j - 1].1.len(),
    decreases s.len(),
{
    if j > 0 {
        assert(s.take(j).drop_last() =~= s.take(j - 1));
    }
    if s.len() > 0 && j < s.len() {
        lemma_order_count_prefix(s.drop_last(), j);
        assert(s.drop_last().take(j) =~= s.take(j));
    } else if j == s.len() {
        assert(s.take(j) =~= s);
    }
}

} // verus!
