//! The remaining accounts of an instruction: the planned market additions
//! folded, with the markets and oracles looked up, into the maps of
//! `RemainingAccountMaps`, and the accounts that come out of them.
use vstd::prelude::*;

use crate::drift_client::client::{
    index_adds, map_put, remaining_adds, MarketAdd, RemainingAccountMaps, RemainingAccountParams,
};
use crate::drift_cpi::{MarketType, OracleSource, PerpMarket, Pubkey, SpotMarket};
use crate::types::keyed_account::Account;
use crate::utils::account::{info_of, same_info, AccountInfo};
use crate::utils::ring_map::{distinct_keys, has_key, lemma_push_entry, lemma_update_entry, lookup, position};

verus! {

/// An account to pass: its address, its contents and whether it is
/// writable.
pub type AccountEntry = (Pubkey, Account, bool);

/// A spot market as looked up: its address, the market, its account and
/// the account of its oracle, if found.
pub type SpotRow = (Pubkey, SpotMarket, Account, Option<Account>);

/// A perp market as looked up: its address, the market, its account and
/// the account of its oracle, if found.
pub type PerpRow = (Pubkey, PerpMarket, Account, Option<Account>);

/// The oracles by address, the spot markets by index and the perp markets
/// by index.
pub type EntryMaps = (Seq<(Pubkey, AccountEntry)>, Seq<(u16, AccountEntry)>, Seq<(u16, AccountEntry)>);

/// Why the remaining accounts could not be made.
#[derive(Debug, Clone, Copy, PartialEq, Eq)]
pub enum RemainingAccountsError {
    /// No spot market of this index was looked up.
    SpotMarketNotFound { index: u16 },
    /// No perp market of this index was looked up.
    PerpMarketNotFound { index: u16 },
    /// The account of this oracle was not found.
    OracleNotFound { oracle: Pubkey },
}

/// The account an instruction sees for an entry.
pub open spec fn entry_info(e: AccountEntry) -> AccountInfo {
    info_of(e.1, e.0, false, e.2, false)
}

/// Whether there is an entry and it is writable.
pub open spec fn writable_entry(e: Option<AccountEntry>) -> bool {
    e matches Some(x) && x.2
}

/// The first spot market of index `index` among the rows.
pub open spec fn spot_row(rows: Seq<SpotRow>, index: u16) -> Option<SpotRow>
    decreases rows.len(),
{
    if rows.len() == 0 {
        None
    } else if rows[0].1.market_index == index {
        Some(rows[0])
    } else {
        spot_row(rows.drop_first(), index)
    }
}

/// The first perp market of index `index` among the rows.
pub open spec fn perp_row(rows: Seq<PerpRow>, index: u16) -> Option<PerpRow>
    decreases rows.len(),
{
    if rows.len() == 0 {
        None
    } else if rows[0].1.market_index == index {
        Some(rows[0])
    } else {
        perp_row(rows.drop_first(), index)
    }
}

/// The maps after adding a spot market: the market under its index, and
/// its oracle, readable, unless the market has none; the oracle's account
/// must have been found all the same.
pub open spec fn spot_step(st: EntryMaps, row: SpotRow, writable: bool) -> Result<EntryMaps, RemainingAccountsError> {
    match row.3 {
        None => Err(RemainingAccountsError::OracleNotFound { oracle: row.1.oracle }),
        Some(oa) => Ok(
            (
                if !row.1.oracle.spec_is_zero() {
                    map_put(st.0, row.1.oracle, (row.1.oracle, oa, false))
                } else {
                    st.0
                },
                map_put(st.1, row.1.market_index, (row.0, row.2, writable)),
                st.2,
            ),
        ),
    }
}

/// The maps after one planned addition. A perp market brings its oracle,
/// writable when the market is and the oracle is a prelaunch one, and its
/// quote spot market, readable.
pub open spec fn add_step(st: EntryMaps, a: MarketAdd, spots: Seq<SpotRow>, perps: Seq<PerpRow>) -> Result<
    EntryMaps,
    RemainingAccountsError,
> {
    if a.kind == MarketType::Spot {
        match spot_row(spots, a.index) {
            None => Err(RemainingAccountsError::SpotMarketNotFound { index: a.index }),
            Some(row) => spot_step(st, row, a.writable),
        }
    } else {
        match perp_row(perps, a.index) {
            None => Err(RemainingAccountsError::PerpMarketNotFound { index: a.index }),
            Some(p) => match p.3 {
                None => Err(RemainingAccountsError::OracleNotFound { oracle: p.1.amm.oracle }),
                Some(oa) => {
                    let st1 = (
                        map_put(
                            st.0,
                            p.1.amm.oracle,
                            (
                                p.1.amm.oracle,
                                oa,
                                p.1.amm.oracle_source == OracleSource::Prelaunch && a.writable,
                            ),
                        ),
                        st.1,
                        map_put(st.2, a.index, (p.0, p.2, a.writable)),
                    );
                    match spot_row(spots, p.1.quote_spot_market_index) {
                        None => Err(
                            RemainingAccountsError::SpotMarketNotFound {
                                index: p.1.quote_spot_market_index,
                            },
                        ),
                        Some(q) => spot_step(st1, q, false),
                    }
                },
            },
        }
    }
}

/// The maps after the planned additions, in order, from empty maps; the
/// first addition that cannot be made gives the error.
pub open spec fn fold_adds(adds: Seq<MarketAdd>, spots: Seq<SpotRow>, perps: Seq<PerpRow>) -> Result<
    EntryMaps,
    RemainingAccountsError,
>
    decreases adds.len(),
{
    if adds.len() == 0 {
        Ok((Seq::empty(), Seq::empty(), Seq::empty()))
    } else {
        match fold_adds(adds.drop_last(), spots, perps) {
            Err(e) => Err(e),
            Ok(st) => add_step(st, adds.last(), spots, perps),
        }
    }
}

/// The entries, oracles first, then spot markets, then perp markets.
pub open spec fn entries_in_order(st: EntryMaps) -> Seq<AccountEntry> {
    st.0.map_values(|e: (Pubkey, AccountEntry)| e.1) + st.1.map_values(|e: (u16, AccountEntry)| e.1)
        + st.2.map_values(|e: (u16, AccountEntry)| e.1)
}

/// A map of accounts holds the entries of a map of entries, key for key.
pub open spec fn entries_match<K>(m: Seq<(K, AccountInfo)>, s: Seq<(K, AccountEntry)>) -> bool {
    &&& m.len() == s.len()
    &&& forall|i: int|
        0 <= i < m.len() ==> (#[trigger] m[i]).0 == s[i].0 && same_info(m[i].1, entry_info(s[i].1))
}

/// The maps hold the entries.
pub open spec fn maps_match(maps: RemainingAccountMaps, st: EntryMaps) -> bool {
    &&& entries_match(maps.oracle_account_map@, st.0)
    &&& entries_match(maps.spot_market_account_map@, st.1)
    &&& entries_match(maps.perp_market_account_map@, st.2)
}

/// Putting matching values under one key in matching maps keeps them
/// matching.
proof fn lemma_put_match<K>(m: Seq<(K, AccountInfo)>, s: Seq<(K, AccountEntry)>, k: K, info: AccountInfo, e: AccountEntry)
    requires
        entries_match(m, s),
        distinct_keys(m),
        same_info(info, entry_info(e)),
    ensures
        entries_match(map_put(m, k, info), map_put(s, k, e)),
        distinct_keys(s),
{
    assert forall|a: int, b: int| 0 <= a < b < s.len() implies #[trigger] s[a].0 != #[trigger] s[b].0 by {
        assert(m[a].0 == s[a].0);
        assert(m[b].0 == s[b].0);
    }
    if has_key(m, k) {
        let p = position(m, k);
        assert(m[p].0 == k);
        assert(s[p].0 == k);
        assert(has_key(s, k));
        let q = position(s, k);
        assert(s[q].0 == k);
        assert(m[q].0 == k);
        assert(p == q);
    } else {
        if has_key(s, k) {
            let q = position(s, k);
            assert(m[q].0 == k);
        }
    }
}

/// The first spot market of index `index` among the rows.
fn find_spot_row(rows: &[SpotRow], index: u16) -> (r: Option<&SpotRow>)
    ensures
        match r {
            Some(row) => spot_row(rows@, index) == Some(*row),
            None => spot_row(rows@, index) is None,
        },
{
    let mut i: usize = 0;
    assert(rows@.skip(0) =~= rows@);
    while i < rows.len()
        invariant
            i <= rows@.len(),
            spot_row(rows@, index) == spot_row(rows@.skip(i as int), index),
        decreases rows@.len() - i,
    {
        assert(rows@.skip(i as int).drop_first() =~= rows@.skip(i + 1));
        assert(rows@.skip(i as int)[0] == rows@[i as int]);
        if rows[i].1.market_index == index {
            return Some(&rows[i]);
        }
        i = i + 1;
    }
    None
}

/// The first perp market of index `index` among the rows.
fn find_perp_row(rows: &[PerpRow], index: u16) -> (r: Option<&PerpRow>)
    ensures
        match r {
            Some(row) => perp_row(rows@, index) == Some(*row),
            None => perp_row(rows@, index) is None,
        },
{
    let mut i: usize = 0;
    assert(rows@.skip(0) =~= rows@);
    while i < rows.len()
        invariant
            i <= rows@.len(),
            perp_row(rows@, index) == perp_row(rows@.skip(i as int), index),
        decreases rows@.len() - i,
    {
        assert(rows@.skip(i as int).drop_first() =~= rows@.skip(i + 1));
        assert(rows@.skip(i as int)[0] == rows@[i as int]);
        if rows[i].1.market_index == index {
            return Some(&rows[i]);
        }
        i = i + 1;
    }
    None
}

/// Adds a looked-up spot market to the maps.
fn add_spot_row(maps: &mut RemainingAccountMaps, row: &SpotRow, writable: bool, Ghost(st): Ghost<EntryMaps>) -> (r: Result<
    (),
    RemainingAccountsError,
>)
    requires
        old(maps).wf(),
        maps_match(*old(maps), st),
    ensures
        final(maps).wf(),
        match spot_step(st, *row, writable) {
            Ok(st2) => r is Ok && maps_match(*final(maps), st2),
            Err(e) => r == Err::<(), RemainingAccountsError>(e),
        },
{
    match &row.3 {
        None => Err(RemainingAccountsError::OracleNotFound { oracle: row.1.oracle }),
        Some(oa) => {
            let ghost m0 = *maps;
            maps.add_spot_market(row.0, &row.1, &row.2, oa, writable);
            proof {
                let info = choose|info: AccountInfo|
                    same_info(info, info_of(row.2, row.0, false, writable, false))
                        && maps.spot_market_account_map@ == map_put(
                        m0.spot_market_account_map@,
                        row.1.market_index,
                        info,
                    );
                lemma_put_match(m0.spot_market_account_map@, st.1, row.1.market_index, info, (row.0, row.2, writable));
                if !row.1.oracle.spec_is_zero() {
                    let oinfo = choose|oinfo: AccountInfo|
                        same_info(oinfo, info_of(*oa, row.1.oracle, false, false, false))
                            && maps.oracle_account_map@ == map_put(
                            m0.oracle_account_map@,
                            row.1.oracle,
                            oinfo,
                        );
                    lemma_put_match(m0.oracle_account_map@, st.0, row.1.oracle, oinfo, (row.1.oracle, *oa, false));
                }
            }
            Ok(())
        },
    }
}

/// The accounts an instruction needs for the planned additions `adds`
/// (see `remaining_account_adds`), given the looked-up spot and perp
/// markets: the additions folded into maps of oracles by address, spot
/// markets by index and perp markets by index, a later addition of a key
/// replacing an earlier one in its place, and the accounts of the maps
/// listed oracles first, then spot markets, then perp markets.
pub fn remaining_account_metas(adds: &[MarketAdd], spots: &[SpotRow], perps: &[PerpRow]) -> (r: Result<
    Vec<AccountInfo>,
    RemainingAccountsError,
>)
    ensures
        match fold_adds(adds@, spots@, perps@) {
            Ok(st) => r matches Ok(metas) && metas@.len() == entries_in_order(st).len() && (forall|i: int|
                0 <= i < metas@.len() ==> same_info(#[trigger] metas@[i], entry_info(entries_in_order(st)[i])))
                && distinct_keys(st.0) && distinct_keys(st.1) && distinct_keys(st.2),
            Err(e) => r == Err::<Vec<AccountInfo>, RemainingAccountsError>(e),
        },
{
    let mut maps = RemainingAccountMaps::new();
    let ghost mut st: EntryMaps = (Seq::empty(), Seq::empty(), Seq::empty());
    let mut i: usize = 0;
    while i < adds.len()
        invariant
            i <= adds@.len(),
            maps.wf(),
            fold_adds(adds@.take(i as int), spots@, perps@) == Ok::<EntryMaps, RemainingAccountsError>(st),
            maps_match(maps, st),
        decreases adds@.len() - i,
    {
        let a = adds[i];
        assert(adds@.take(i + 1).drop_last() =~= adds@.take(i as int));
        assert(adds@.take(i + 1).last() == a);
        let ghost next = add_step(st, a, spots@, perps@);
        if a.kind == MarketType::Spot {
            let row = match find_spot_row(spots, a.index) {
                Some(row) => row,
                None => {
                    proof {
                        lemma_fold_err(adds@, spots@, perps@, i + 1);
                    }
                    return Err(RemainingAccountsError::SpotMarketNotFound { index: a.index });
                },
            };
            match add_spot_row(&mut maps, row, a.writable, Ghost(st)) {
                Ok(()) => {},
                Err(e) => {
                    proof {
                        lemma_fold_err(adds@, spots@, perps@, i + 1);
                    }
                    return Err(e);
                },
            }
            proof {
                st = next->Ok_0;
            }
        } else {
            let p = match find_perp_row(perps, a.index) {
                Some(p) => p,
                None => {
                    proof {
                        lemma_fold_err(adds@, spots@, perps@, i + 1);
                    }
                    return Err(RemainingAccountsError::PerpMarketNotFound { index: a.index });
                },
            };
            let oa = match &p.3 {
                Some(oa) => oa,
                None => {
                    proof {
                        lemma_fold_err(adds@, spots@, perps@, i + 1);
                    }
                    return Err(RemainingAccountsError::OracleNotFound { oracle: p.1.amm.oracle });
                },
            };
            let ghost m0 = maps;
            let quote = maps.add_perp_market(p.0, a.index, &p.1, &p.2, oa, a.writable);
            let ghost st1: EntryMaps = (
                map_put(
                    st.0,
                    p.1.amm.oracle,
                    (p.1.amm.oracle, *oa, p.1.amm.oracle_source == OracleSource::Prelaunch && a.writable),
                ),
                st.1,
                map_put(st.2, a.index, (p.0, p.2, a.writable)),
            );
            proof {
                let info = choose|info: AccountInfo|
                    same_info(info, info_of(p.2, p.0, false, a.writable, false))
                        && maps.perp_market_account_map@ == map_put(
                        m0.perp_market_account_map@,
                        a.index,
                        info,
                    );
                lemma_put_match(m0.perp_market_account_map@, st.2, a.index, info, (p.0, p.2, a.writable));
                let w = p.1.amm.oracle_source == OracleSource::Prelaunch && a.writable;
                let oinfo = choose|oinfo: AccountInfo|
                    same_info(oinfo, info_of(*oa, p.1.amm.oracle, false, w, false))
                        && maps.oracle_account_map@ == map_put(
                        m0.oracle_account_map@,
                        p.1.amm.oracle,
                        oinfo,
                    );
                lemma_put_match(m0.oracle_account_map@, st.0, p.1.amm.oracle, oinfo, (p.1.amm.oracle, *oa, w));
                assert(maps_match(maps, st1));
            }
            let q = match find_spot_row(spots, quote) {
                Some(q) => q,
                None => {
                    proof {
                        lemma_fold_err(adds@, spots@, perps@, i + 1);
                    }
                    return Err(RemainingAccountsError::SpotMarketNotFound { index: quote });
                },
            };
            match add_spot_row(&mut maps, q, false, Ghost(st1)) {
                Ok(()) => {},
                Err(e) => {
                    proof {
                        lemma_fold_err(adds@, spots@, perps@, i + 1);
                    }
                    return Err(e);
                },
            }
            proof {
                st = next->Ok_0;
            }
        }
        i = i + 1;
    }
    assert(adds@.take(adds@.len() as int) =~= adds@);
    proof {
        assert(distinct_keys(st.0) && distinct_keys(st.1) && distinct_keys(st.2)) by {
            lemma_match_distinct(maps.oracle_account_map@, st.0);
            lemma_match_distinct(maps.spot_market_account_map@, st.1);
            lemma_match_distinct(maps.perp_market_account_map@, st.2);
        }
    }
    let ghost fin = maps;
    let metas = maps.into_metas();
    proof {
        let e = entries_in_order(st);
        let o = fin.oracle_account_map@;
        let s = fin.spot_market_account_map@;
        let pm = fin.perp_market_account_map@;
        assert forall|i: int| 0 <= i < metas@.len() implies same_info(#[trigger] metas@[i], entry_info(e[i])) by {
            if i < o.len() {
                assert(metas@[i] == o[i].1);
            } else if i < o.len() + s.len() {
                assert(metas@[i] == s[i - o.len()].1);
            } else {
                assert(metas@[i] == pm[i - o.len() - s.len()].1);
            }
        }
    }
    Ok(metas)
}

/// Matching maps hold distinct keys when the account map does.
proof fn lemma_match_distinct<K>(m: Seq<(K, AccountInfo)>, s: Seq<(K, AccountEntry)>)
    requires
        entries_match(m, s),
        distinct_keys(m),
    ensures
        distinct_keys(s),
{
    assert forall|a: int, b: int| 0 <= a < b < s.len() implies #[trigger] s[a].0 != #[trigger] s[b].0 by {
        assert(m[a].0 == s[a].0);
        assert(m[b].0 == s[b].0);
    }
}

/// An addition that fails makes the whole fold fail with its error.
proof fn lemma_fold_err(adds: Seq<MarketAdd>, spots: Seq<SpotRow>, perps: Seq<PerpRow>, j: int)
    requires
        0 <= j <= adds.len(),
        fold_adds(adds.take(j), spots, perps) is Err,
    ensures
        fold_adds(adds, spots, perps) == fold_adds(adds.take(j), spots, perps),
    decreases adds.len(),
{
    if j < adds.len() {
        assert(adds.drop_last().take(j) =~= adds.take(j));
        lemma_fold_err(adds.drop_last(), spots, perps, j);
    } else {
        assert(adds.take(j) =~= adds);
    }
}

/// Putting a value under a key keeps the keys distinct, makes the key read
/// the value and leaves the other keys alone.
proof fn lemma_map_put<K, V>(s: Seq<(K, V)>, k: K, v: V)
    requires
        distinct_keys(s),
    ensures
        distinct_keys(map_put(s, k, v)),
        lookup(map_put(s, k, v), k) == Some(v),
        forall|o: K| o != k ==> #[trigger] lookup(map_put(s, k, v), o) == lookup(s, o),
{
    if has_key(s, k) {
        lemma_update_entry(s, k, v);
    } else {
        lemma_push_entry(s, k, v);
    }
}

/// A spot step keeps the keys distinct, and leaves the perp markets alone.
proof fn lemma_spot_step(st: EntryMaps, row: SpotRow, writable: bool)
    requires
        distinct_keys(st.0),
        distinct_keys(st.1),
        distinct_keys(st.2),
        spot_step(st, row, writable) is Ok,
    ensures
        ({
            let st2 = spot_step(st, row, writable)->Ok_0;
            &&& distinct_keys(st2.0)
            &&& distinct_keys(st2.1)
            &&& distinct_keys(st2.2)
            &&& st2.2 == st.2
            &&& lookup(st2.1, row.1.market_index) == Some((row.0, row.2, writable))
            &&& forall|o: u16| o != row.1.market_index ==> #[trigger] lookup(st2.1, o) == lookup(st.1, o)
        }),
{
    let oa = row.3->Some_0;
    lemma_map_put(st.1, row.1.market_index, (row.0, row.2, writable));
    if !row.1.oracle.spec_is_zero() {
        lemma_map_put(st.0, row.1.oracle, (row.1.oracle, oa, false));
    }
}

/// What one addition that succeeds does: the keys stay distinct; a spot
/// addition puts its market, and a perp addition its market and its quote
/// spot market, the quote one readable; every other market keeps its entry.
proof fn lemma_add_step(st: EntryMaps, a: MarketAdd, spots: Seq<SpotRow>, perps: Seq<PerpRow>)
    requires
        distinct_keys(st.0),
        distinct_keys(st.1),
        distinct_keys(st.2),
        add_step(st, a, spots, perps) is Ok,
    ensures
        ({
            let st2 = add_step(st, a, spots, perps)->Ok_0;
            &&& distinct_keys(st2.0)
            &&& distinct_keys(st2.1)
            &&& distinct_keys(st2.2)
            &&& a.kind == MarketType::Spot ==> {
                &&& st2.2 == st.2
                &&& spot_row(spots, a.index) matches Some(row) && row.1.market_index == a.index
                &&& lookup(st2.1, a.index) matches Some(e) && e.2 == a.writable
                &&& forall|o: u16| o != a.index ==> #[trigger] lookup(st2.1, o) == lookup(st.1, o)
            }
            &&& a.kind != MarketType::Spot ==> {
                &&& lookup(st2.2, a.index) matches Some(e) && e.2 == a.writable
                &&& forall|o: u16| o != a.index ==> #[trigger] lookup(st2.2, o) == lookup(st.2, o)
                &&& perp_row(perps, a.index) matches Some(p) && lookup(st2.1, p.1.quote_spot_market_index) is Some
                &&& forall|o: u16| #[trigger] lookup(st.1, o) is Some ==> lookup(st2.1, o) is Some
            }
        }),
{
    if a.kind == MarketType::Spot {
        let row = spot_row(spots, a.index)->Some_0;
        lemma_spot_row_index(spots, a.index);
        lemma_spot_step(st, row, a.writable);
    } else {
        let p = perp_row(perps, a.index)->Some_0;
        let oa = p.3->Some_0;
        let st1: EntryMaps = (
            map_put(
                st.0,
                p.1.amm.oracle,
                (p.1.amm.oracle, oa, p.1.amm.oracle_source == OracleSource::Prelaunch && a.writable),
            ),
            st.1,
            map_put(st.2, a.index, (p.0, p.2, a.writable)),
        );
        lemma_map_put(
            st.0,
            p.1.amm.oracle,
            (p.1.amm.oracle, oa, p.1.amm.oracle_source == OracleSource::Prelaunch && a.writable),
        );
        lemma_map_put(st.2, a.index, (p.0, p.2, a.writable));
        let q = spot_row(spots, p.1.quote_spot_market_index)->Some_0;
        lemma_spot_row_index(spots, p.1.quote_spot_market_index);
        lemma_spot_step(st1, q, false);
        let st2 = spot_step(st1, q, false)->Ok_0;
        assert forall|o: u16| #[trigger] lookup(st.1, o) is Some implies lookup(st2.1, o) is Some by {
            if o != q.1.market_index {
                assert(lookup(st2.1, o) == lookup(st.1, o));
            }
        }
    }
}

/// The spot market found for an index has that index.
proof fn lemma_spot_row_index(rows: Seq<SpotRow>, index: u16)
    ensures
        spot_row(rows, index) matches Some(row) ==> row.1.market_index == index,
    decreases rows.len(),
{
    if rows.len() > 0 && rows[0].1.market_index != index {
        lemma_spot_row_index(rows.drop_first(), index);
    }
}

/// A fold that succeeds keeps the keys of each map distinct.
proof fn lemma_fold_distinct(adds: Seq<MarketAdd>, spots: Seq<SpotRow>, perps: Seq<PerpRow>)
    requires
        fold_adds(adds, spots, perps) is Ok,
    ensures
        distinct_keys(fold_adds(adds, spots, perps)->Ok_0.0),
        distinct_keys(fold_adds(adds, spots, perps)->Ok_0.1),
        distinct_keys(fold_adds(adds, spots, perps)->Ok_0.2),
    decreases adds.len(),
{
    if adds.len() > 0 {
        lemma_fold_distinct(adds.drop_last(), spots, perps);
        let st = fold_adds(adds.drop_last(), spots, perps)->Ok_0;
        lemma_add_step(st, adds.last(), spots, perps);
    }
}

/// Every planned addition is covered: when the fold succeeds, each spot
/// market added is in the spot map, and each perp market added is in the
/// perp map with its quote spot market in the spot map.
pub proof fn lemma_adds_covered(adds: Seq<MarketAdd>, spots: Seq<SpotRow>, perps: Seq<PerpRow>)
    requires
        fold_adds(adds, spots, perps) is Ok,
    ensures
        ({
            let st = fold_adds(adds, spots, perps)->Ok_0;
            forall|k: int|
                0 <= k < adds.len() ==> if (#[trigger] adds[k]).kind == MarketType::Spot {
                    lookup(st.1, adds[k].index) is Some
                } else {
                    &&& lookup(st.2, adds[k].index) is Some
                    &&& perp_row(perps, adds[k].index) matches Some(p) && lookup(
                        st.1,
                        p.1.quote_spot_market_index,
                    ) is Some
                }
        }),
    decreases adds.len(),
{
    if adds.len() > 0 {
        let pre = adds.drop_last();
        lemma_adds_covered(pre, spots, perps);
        lemma_fold_distinct(pre, spots, perps);
        let st = fold_adds(pre, spots, perps)->Ok_0;
        let a = adds.last();
        lemma_add_step(st, a, spots, perps);
        let st2 = fold_adds(adds, spots, perps)->Ok_0;
        assert forall|k: int| 0 <= k < adds.len() implies if (#[trigger] adds[k]).kind == MarketType::Spot {
            lookup(st2.1, adds[k].index) is Some
        } else {
            &&& lookup(st2.2, adds[k].index) is Some
            &&& perp_row(perps, adds[k].index) matches Some(p) && lookup(st2.1, p.1.quote_spot_market_index) is Some
        } by {
            if k < adds.len() - 1 {
                assert(adds[k] == pre[k]);
                let b = adds[k];
                if b.kind == MarketType::Spot {
                    if a.kind == MarketType::Spot && b.index != a.index {
                        assert(lookup(st2.1, b.index) == lookup(st.1, b.index));
                    }
                } else {
                    if a.kind != MarketType::Spot && b.index != a.index {
                        assert(lookup(st2.2, b.index) == lookup(st.2, b.index));
                    }
                    let p = perp_row(perps, b.index)->Some_0;
                    if a.kind == MarketType::Spot && p.1.quote_spot_market_index != a.index {
                        assert(lookup(st2.1, p.1.quote_spot_market_index) == lookup(st.1, p.1.quote_spot_market_index));
                    }
                }
            }
        }
    }
}

/// Writable spot markets stay writable: when the planned additions end
/// with writable spot additions only (from place `n` on), each of those
/// markets comes out writable.
pub proof fn lemma_writable_spots_kept(adds: Seq<MarketAdd>, spots: Seq<SpotRow>, perps: Seq<PerpRow>, n: int)
    requires
        0 <= n <= adds.len(),
        forall|k: int| n <= k < adds.len() ==> (#[trigger] adds[k]).kind == MarketType::Spot && adds[k].writable,
        fold_adds(adds, spots, perps) is Ok,
    ensures
        forall|k: int|
            n <= k < adds.len() ==> writable_entry(lookup(fold_adds(adds, spots, perps)->Ok_0.1, (#[trigger] adds[k]).index)),
    decreases adds.len(),
{
    if adds.len() > n {
        let pre = adds.drop_last();
        assert forall|k: int| n <= k < pre.len() implies (#[trigger] pre[k]).kind == MarketType::Spot
            && pre[k].writable by {
            assert(pre[k] == adds[k]);
        }
        lemma_writable_spots_kept(pre, spots, perps, n);
        lemma_fold_distinct(pre, spots, perps);
        let st = fold_adds(pre, spots, perps)->Ok_0;
        let a = adds.last();
        lemma_add_step(st, a, spots, perps);
        let st2 = fold_adds(adds, spots, perps)->Ok_0;
        assert forall|k: int| n <= k < adds.len() implies writable_entry(lookup(st2.1, (#[trigger] adds[k]).index)) by {
            if k < adds.len() - 1 {
                assert(adds[k] == pre[k]);
                if adds[k].index != a.index {
                    assert(lookup(st2.1, adds[k].index) == lookup(st.1, adds[k].index));
                }
            }
        }
    }
}

/// Writable perp markets stay writable: when from place `n` on the planned
/// additions are writable perp additions or spot additions, each of those
/// perp markets comes out writable.
pub proof fn lemma_writable_perps_kept(adds: Seq<MarketAdd>, spots: Seq<SpotRow>, perps: Seq<PerpRow>, n: int)
    requires
        0 <= n <= adds.len(),
        forall|k: int| n <= k < adds.len() ==> (#[trigger] adds[k]).kind == MarketType::Spot || adds[k].writable,
        fold_adds(adds, spots, perps) is Ok,
    ensures
        forall|k: int|
            n <= k < adds.len() && (#[trigger] adds[k]).kind != MarketType::Spot ==> writable_entry(lookup(fold_adds(adds, spots, perps)->Ok_0.2, adds[k].index)),
    decreases adds.len(),
{
    if adds.len() > n {
        let pre = adds.drop_last();
        assert forall|k: int| n <= k < pre.len() implies (#[trigger] pre[k]).kind == MarketType::Spot
            || pre[k].writable by {
            assert(pre[k] == adds[k]);
        }
        lemma_writable_perps_kept(pre, spots, perps, n);
        lemma_fold_distinct(pre, spots, perps);
        let st = fold_adds(pre, spots, perps)->Ok_0;
        let a = adds.last();
        lemma_add_step(st, a, spots, perps);
        let st2 = fold_adds(adds, spots, perps)->Ok_0;
        assert forall|k: int| n <= k < adds.len() && (#[trigger] adds[k]).kind != MarketType::Spot implies writable_entry(lookup(st2.2, adds[k].index)) by {
            if k < adds.len() - 1 {
                assert(adds[k] == pre[k]);
                if a.kind != MarketType::Spot && adds[k].index != a.index {
                    assert(lookup(st2.2, adds[k].index) == lookup(st.2, adds[k].index));
                }
            }
        }
    }
}

/// The markets asked for as writable come out writable: when the additions
/// that `remaining_account_adds` plans fold without error, each writable
/// spot market index asked for has a writable entry in the spot map, and
/// each writable perp market index one in the perp map.
pub proof fn lemma_remaining_writable(
    params: RemainingAccountParams,
    last_user_slot: u64,
    cached_perps: Seq<(u16, u64)>,
    cached_spots: Seq<(u16, u64)>,
    spots: Seq<SpotRow>,
    perps: Seq<PerpRow>,
)
    requires
        fold_adds(remaining_adds(params, last_user_slot, cached_perps, cached_spots), spots, perps) is Ok,
    ensures
        ({
            let st = fold_adds(remaining_adds(params, last_user_slot, cached_perps, cached_spots), spots, perps)->Ok_0;
            &&& params.writable_spot_market_indexes matches Some(v) ==> forall|j: int|
                0 <= j < v@.len() ==> writable_entry(lookup(st.1, #[trigger] v@[j]))
            &&& params.writable_perp_market_indexes matches Some(v) ==> forall|j: int|
                0 <= j < v@.len() ==> writable_entry(lookup(st.2, #[trigger] v@[j]))
        }),
{
    let a = remaining_adds(params, last_user_slot, cached_perps, cached_spots);
    let wp = index_adds(params.writable_perp_market_indexes, MarketType::Perp, true);
    let ws = index_adds(params.writable_spot_market_indexes, MarketType::Spot, true);
    let n2 = a.len() - ws.len();
    let n1 = n2 - wp.len();
    assert forall|k: int| n2 <= k < a.len() implies (#[trigger] a[k]).kind == MarketType::Spot && a[k].writable by {
        assert(a[k] == ws[k - n2]);
    }
    lemma_writable_spots_kept(a, spots, perps, n2);
    assert forall|k: int| n1 <= k < a.len() implies (#[trigger] a[k]).kind == MarketType::Spot || a[k].writable by {
        if k < n2 {
            assert(a[k] == wp[k - n1]);
        } else {
            assert(a[k] == ws[k - n2]);
        }
    }
    lemma_writable_perps_kept(a, spots, perps, n1);
    let st = fold_adds(a, spots, perps)->Ok_0;
    if let Some(v) = params.writable_spot_market_indexes {
        assert forall|j: int| 0 <= j < v@.len() implies writable_entry(lookup(st.1, #[trigger] v@[j])) by {
            assert(a[n2 + j] == ws[j]);
            assert(a[n2 + j].index == v@[j]);
        }
    }
    if let Some(v) = params.writable_perp_market_indexes {
        assert forall|j: int| 0 <= j < v@.len() implies writable_entry(lookup(st.2, #[trigger] v@[j])) by {
            assert(a[n1 + j] == wp[j]);
            assert(a[n1 + j].index == v@[j]);
            assert(a[n1 + j].kind != MarketType::Spot);
        }
    }
}

} // verus!
