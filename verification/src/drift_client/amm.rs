use vstd::prelude::*;

use crate::drift_client::bigint::{iabs, imax, imin, tdiv, BigNum};
use crate::utils::timer::unix_now;
use crate::drift_client::types::{
    AmmReservesAfterSwap, NewAmm, OpenBidAsk, OptimalPegAndBudget, Spread, SpreadReserve,
    SpreadReserves, UpdatedAmmSpreadReserves, VolSpread,
};
use crate::drift_cpi::{
    AssetType, HistoricalOracleData, OraclePriceData, PerpMarket, PositionDirection, SwapDirection, AMM,
    AMM_RESERVE_PRECISION,
    AMM_TIMES_PEG_TO_QUOTE_PRECISION_RATIO, AMM_TO_QUOTE_PRECISION_RATIO, AMM_TO_QUOTE_PRECISION_RATIO_I128, BID_ASK_SPREAD_PRECISION, BID_ASK_SPREAD_PRECISION_I64,
    DEFAULT_REVENUE_SINCE_LAST_FUNDING_SPREAD_RETREAT,
    FIVE_MINUTE, FUNDING_RATE_BUFFER_PRECISION, MARGIN_PRECISION, QUOTE_PRECISION, PEG_PRECISION, PEG_PRECISION_I128, PERCENTAGE_PRECISION, PERCENTAGE_PRECISION_I128, PRICE_PRECISION_I128, PRICE_DIV_PEG,
    PRICE_PRECISION,
};

verus! {

pub open spec fn in_i64(x: int) -> bool {
    i64::MIN <= x <= i64::MAX
}

/// Reserve price of an AMM: `quote * PRICE_PRECISION * peg / PEG_PRECISION / base`.
pub open spec fn price_of(base: int, quote: int, peg: int) -> int {
    tdiv(tdiv(quote * 1_000_000 * peg, 1_000_000), base)
}

/// The peg that puts the reserve price at `target`.
pub open spec fn peg_from_target_price(target: int, base: int, quote: int) -> int {
    imax(tdiv(tdiv(target * base, quote) + 0, 1), 1)
}

/// The cost of moving the AMM's peg to `new_peg`.
pub open spec fn repeg_cost(amm: AMM, new_peg: int) -> int {
    tdiv(
        tdiv(
            (amm.quote_asset_reserve - amm.terminal_quote_asset_reserve) * (new_peg
                - amm.peg_multiplier),
            1_000,
        ),
        1_000_000,
    )
}

/// The input reserve after a swap, and the output reserve that keeps the product.
pub open spec fn swap_output(reserve: int, amount: int, dir: SwapDirection, product: int) -> (
    int,
    int,
) {
    let new_input = if dir == SwapDirection::Add {
        reserve + amount
    } else {
        reserve - amount
    };
    (new_input, tdiv(product, new_input))
}

/// The reserves after swapping `amount` of the given asset into or out of the AMM.
pub open spec fn reserves_after_swap(
    amm: AMM,
    input: AssetType,
    amount: int,
    dir: SwapDirection,
) -> (int, int) {
    let product = amm.sqrt_k * amm.sqrt_k;
    if input == AssetType::Quote {
        swap_output(
            amm.quote_asset_reserve as int,
            tdiv(amount * 1_000_000_000, amm.peg_multiplier as int),
            dir,
            product,
        )
    } else {
        swap_output(amm.base_asset_reserve as int, amount, dir, product)
    }
}

/// `max(min, min(x, max))`
pub open spec fn clamp(x: int, lo: int, hi: int) -> int {
    imax(lo, imin(x, hi))
}

/// `-1` for a negative number, `1` otherwise.
pub open spec fn sign_of(x: int) -> int {
    if x < 0 {
        -1
    } else {
        1
    }
}

/// Open asks (as a negative amount) and open bids (positive) that the reserve
/// bounds still allow, each dropped to zero when half of it is below the step size.
pub open spec fn open_bid_ask(base: int, min_base: int, max_base: int, step: Option<int>) -> (
    int,
    int,
) {
    let asks = if min_base < base {
        let a = (base - min_base) * -1;
        match step {
            Some(s) => if tdiv(iabs(a), 2) < s {
                0
            } else {
                a
            },
            None => a,
        }
    } else {
        0
    };
    let bids = if max_base > base {
        let b = max_base - base;
        match step {
            Some(s) => if tdiv(b, 2) < s {
                0
            } else {
                b
            },
            None => b,
        }
    } else {
        0
    };
    (bids, asks)
}

/// The AMM's position as a fraction (in `PERCENTAGE_PRECISION`) of its thinner side.
pub open spec fn inventory_liquidity_ratio(
    amount_with_amm: int,
    base: int,
    min_base: int,
    max_base: int,
) -> int {
    let (bids, asks) = open_bid_ask(base, min_base, max_base, None);
    let min_side = imin(iabs(bids), iabs(asks));
    imin(1_000_000, iabs(tdiv(amount_with_amm * 1_000_000, imax(min_side, 1))))
}

/// How much the spread on the side of the AMM's position is widened.
pub open spec fn inventory_scale(
    amount_with_amm: int,
    base: int,
    min_base: int,
    max_base: int,
    dir_spread: int,
    max_spread: int,
) -> int {
    if amount_with_amm == 0 {
        1
    } else {
        let inv = inventory_liquidity_ratio(amount_with_amm, base, min_base, max_base);
        let inv_max = imax(10_000_000, tdiv(max_spread * 1_000_000, imax(dir_spread, 1)));
        tdiv(imin(inv_max, 1_000_000 + tdiv(inv_max * inv, 1_000_000)), 1_000_000)
    }
}

/// The oracle TWAP brought up to `now`, with the oracle price clamped to a
/// third of the TWAP around it.
pub open spec fn live_oracle_twap(
    hist: HistoricalOracleData,
    oracle: OraclePriceData,
    now: int,
    period: int,
) -> int {
    let twap = if period == 300 {
        hist.last_oracle_price_twap5min as int
    } else {
        hist.last_oracle_price_twap as int
    };
    let since_last = imax(1, now - hist.last_oracle_price_twap_ts);
    let since_start = imax(0, period - since_last);
    let clamp_range = tdiv(twap, 3);
    let clamped = imin(twap + clamp_range, imax(oracle.price as int, twap - clamp_range));
    tdiv(twap * since_start + clamped * since_last, since_start + since_last)
}

/// Every `i64` step of `live_oracle_twap` stays in range.
pub open spec fn live_oracle_twap_fits(
    hist: HistoricalOracleData,
    oracle: OraclePriceData,
    now: int,
    period: int,
) -> bool {
    let twap = if period == 300 {
        hist.last_oracle_price_twap5min as int
    } else {
        hist.last_oracle_price_twap as int
    };
    let since_last = imax(1, now - hist.last_oracle_price_twap_ts);
    let since_start = imax(0, period - since_last);
    let clamp_range = tdiv(twap, 3);
    let clamped = imin(twap + clamp_range, imax(oracle.price as int, twap - clamp_range));
    &&& in_i64(now - hist.last_oracle_price_twap_ts)
    &&& in_i64(period - since_last)
    &&& in_i64(twap + clamp_range)
    &&& in_i64(twap - clamp_range)
    &&& in_i64(twap * since_start)
    &&& in_i64(clamped * since_last)
    &&& in_i64(twap * since_start + clamped * since_last)
    &&& in_i64(since_start + since_last)
}


/// The oracle confidence as a fraction of the reserve price, floored by the
/// last recorded confidence (decayed with the time since the last update).
pub open spec fn oracle_conf_pct(amm: AMM, oracle: OraclePriceData, reserve: int, now: int) -> int {
    let since = imax(0, now - amm.historical_oracle_data.last_oracle_price_twap_ts);
    let last = amm.last_oracle_conf_pct as int;
    let lower = if since > 0 {
        last - tdiv(last, imax(21 - since, 5))
    } else {
        last
    };
    imax(tdiv(oracle.confidence * 1_000_000, reserve), lower)
}

/// The oracle's standard deviation brought up to `now`.
pub open spec fn live_oracle_std(amm: AMM, oracle: OraclePriceData, now: int) -> int {
    let since_last = imax(1, now - amm.historical_oracle_data.last_oracle_price_twap_ts);
    let since_start = imax(0, amm.funding_period - since_last);
    let twap = live_oracle_twap(amm.historical_oracle_data, oracle, now, amm.funding_period as int);
    iabs(oracle.price - twap) + tdiv(amm.oracle_std * since_start, since_start + since_last)
}

/// Every `i64` step of `live_oracle_std` stays in range.
pub open spec fn live_oracle_std_fits(amm: AMM, oracle: OraclePriceData, now: int) -> bool {
    let since_last = imax(1, now - amm.historical_oracle_data.last_oracle_price_twap_ts);
    let since_start = imax(0, amm.funding_period - since_last);
    let twap = live_oracle_twap(amm.historical_oracle_data, oracle, now, amm.funding_period as int);
    &&& in_i64(now - amm.historical_oracle_data.last_oracle_price_twap_ts)
    &&& in_i64(amm.funding_period - since_last)
    &&& live_oracle_twap_fits(amm.historical_oracle_data, oracle, now, amm.funding_period as int)
    &&& in_i64(oracle.price - twap)
    &&& in_i64(iabs(oracle.price - twap))
    &&& in_i64(since_start + since_last)
}

/// The long and short spreads implied by volatility.
pub open spec fn vol_spread(
    conf_pct: int,
    reserve: int,
    mark_std: int,
    oracle_std: int,
    long_intensity: int,
    short_intensity: int,
    volume_24h: int,
) -> (int, int) {
    let avg_std_pct = tdiv(tdiv((mark_std + oracle_std) * 1_000_000, reserve), 2);
    let spread = imax(conf_pct, tdiv(avg_std_pct, 2));
    let long_factor = clamp(
        tdiv(long_intensity * 1_000_000, imax(1, volume_24h)),
        10_000,
        1_600_000,
    );
    let short_factor = clamp(
        tdiv(short_intensity * 1_000_000, imax(1, volume_24h)),
        10_000,
        1_600_000,
    );
    let conf_component = if conf_pct <= 2_500 {
        tdiv(conf_pct, 10)
    } else {
        conf_pct
    };
    (
        imax(conf_component, tdiv(spread * long_factor, 1_000_000)),
        imax(conf_component, tdiv(spread * short_factor, 1_000_000)),
    )
}

/// How far the AMM's position value exceeds its net base value, per unit of fees.
pub open spec fn effective_leverage(amm: AMM, reserve: int) -> int {
    let net_base_value = tdiv(
        (amm.quote_asset_reserve - amm.terminal_quote_asset_reserve) * amm.peg_multiplier,
        1_000_000_000,
    );
    let local_base_value = tdiv(amm.base_asset_amount_with_amm * reserve, 1_000_000_000);
    let gap = imax(0, local_base_value - net_base_value);
    tdiv(gap, imax(0, amm.total_fee_minus_distributions as int) + 1) + 0
}

/// The offset of the reference price from the reserve price, from the mark
/// premiums over three horizons and the AMM's inventory.
pub open spec fn reference_point_offset(
    amm: AMM,
    reserve: int,
    liquidity_fraction: int,
    max_offset_pct: int,
) -> int {
    if amm.last24h_avg_funding_rate == 0 {
        0
    } else {
        let m = tdiv(max_offset_pct * reserve, 1_000_000);
        let minute = clamp(
            amm.last_mark_price_twap5min - amm.historical_oracle_data.last_oracle_price_twap5min,
            m * -1,
            m,
        );
        let hour = clamp(
            amm.last_mark_price_twap - amm.historical_oracle_data.last_oracle_price_twap,
            m * -1,
            m,
        );
        let day = clamp(tdiv(amm.last24h_avg_funding_rate as int, 1_000) * 24, m * -1, m);
        let avg = tdiv(minute + hour + day, 3);
        let inventory = clamp(tdiv(liquidity_fraction * max_offset_pct, 1_000_000), m * -1, m);
        let offset = if sign_of(inventory) != sign_of(avg) {
            0
        } else {
            avg + inventory
        };
        clamp(offset, m * -1, m)
    }
}

/// The long and short spreads of the AMM, before they are capped.
pub open spec fn spread_terms(
    amm: AMM,
    pct: int,
    conf: int,
    reserve: int,
    oracle_std: int,
) -> (int, int, int) {
    let (lv, sv) = vol_spread(
        conf,
        reserve,
        amm.mark_std as int,
        oracle_std,
        amm.long_intensity_volume as int,
        amm.short_intensity_volume as int,
        amm.volume24h as int,
    );
    let half_base = tdiv(amm.base_spread as int, 2);
    let l0 = imax(half_base, lv);
    let s0 = imax(half_base, sv);
    let (l1, s1) = if pct > 0 {
        (l0, imax(s0, iabs(pct) + sv))
    } else if pct < 0 {
        (imax(l0, iabs(pct) + lv), s0)
    } else {
        (l0, s0)
    };
    let baseline = imin(
        imax(iabs(pct), imax(conf * 2, tdiv(imax(amm.mark_std as int, oracle_std) * 1_000_000, reserve))),
        1_000_000,
    );
    let max_target = imax(amm.max_spread as int, baseline);
    let baa = amm.base_asset_amount_with_amm as int;
    let inv = inventory_scale(
        baa,
        amm.base_asset_reserve as int,
        amm.min_base_asset_reserve as int,
        amm.max_base_asset_reserve as int,
        if baa > 0 {
            l1
        } else {
            s1
        },
        max_target,
    );
    let (l2, s2) = if baa > 0 {
        (l1 * inv, s1)
    } else if baa < 0 {
        (l1, s1 * inv)
    } else {
        (l1, s1)
    };
    let (l3, s3) = if amm.total_fee_minus_distributions > 0 {
        let scale = imin(10, 1 + effective_leverage(amm, reserve));
        if baa > 0 {
            (l2 * scale, s2)
        } else {
            (l2, s2 * scale)
        }
    } else {
        (l2 * 10, s2 * 10)
    };
    let net_rev = amm.net_revenue_since_last_funding as int;
    let (l4, s4) = if net_rev < -25_000_000 {
        let max_retreat = tdiv(max_target, 10);
        let retreat = if net_rev >= -25_000_000_000 {
            imin(max_retreat, tdiv(amm.base_spread * iabs(net_rev), 25_000_000))
        } else {
            max_retreat
        };
        let half = tdiv(retreat, 2);
        if baa > 0 {
            (l3 + retreat, s3 + half)
        } else if baa < 0 {
            (l3 + half, s3 + retreat)
        } else {
            (l3 + half, s3 + half)
        }
    } else {
        (l3, s3)
    };
    (l4, s4, max_target)
}

/// The long and short spreads of the AMM: `spread_terms`, scaled down to
/// the target maximum when their sum exceeds it.
pub open spec fn spread_inner(
    amm: AMM,
    pct: int,
    conf: int,
    reserve: int,
    oracle_std: int,
) -> (int, int) {
    let (l, s, max_target) = spread_terms(amm, pct, conf, reserve, oracle_std);
    let total = l + s;
    if total > max_target {
        if l > s {
            let nl = tdiv(l * max_target, total);
            (nl, max_target - nl)
        } else {
            let ns = tdiv(s * max_target, total);
            (max_target - ns, ns)
        }
    } else {
        (l, s)
    }
}


/// The spreads: half the base spread each when the AMM has no base spread
/// or no curve update intensity, otherwise `spread_inner` with the oracle's
/// distance from the reserve price, its confidence and its live deviation.
pub open spec fn spread_value(amm: AMM, oracle: OraclePriceData, now: int, reserve: int) -> (
    int,
    int,
) {
    if amm.base_spread == 0 || amm.curve_update_intensity == 0 {
        ((amm.base_spread / 2) as int, (amm.base_spread / 2) as int)
    } else {
        spread_inner(
            amm,
            tdiv((reserve - oracle.price) * 1_000_000, reserve),
            oracle_conf_pct(amm, oracle, reserve, now),
            reserve,
            live_oracle_std(amm, oracle, now),
        )
    }
}

/// `spread_value` can be computed: every step stays in range and divides by
/// a nonzero number.
pub open spec fn spread_defined(amm: AMM, oracle: OraclePriceData, now: int, reserve: int) -> bool {
    amm.base_spread == 0 || amm.curve_update_intensity == 0 || {
        &&& reserve != 0
        &&& in_i64(now - amm.historical_oracle_data.last_oracle_price_twap_ts)
        &&& live_oracle_std_fits(amm, oracle, now)
        &&& amm.total_fee_minus_distributions < i128::MAX
    }
}

/// The quote reserve after widening by `spread`.
pub open spec fn spread_reserve_quote(amm: AMM, spread: int) -> int {
    let f0 = tdiv(spread, 2);
    let f = if f0 == 0 {
        if spread >= 0 {
            1
        } else {
            -1
        }
    } else {
        f0
    };
    let delta = tdiv(tdiv(amm.quote_asset_reserve as int, 1_000_000), f);
    if delta >= 0 {
        amm.quote_asset_reserve + delta
    } else {
        amm.quote_asset_reserve - delta
    }
}

/// The (base, quote) reserves widened by `spread`; the base reserve keeps `sqrt_k^2`.
pub open spec fn spread_reserve(amm: AMM, spread: int) -> (int, int) {
    if spread == 0 {
        (amm.base_asset_reserve as int, amm.quote_asset_reserve as int)
    } else {
        let q = spread_reserve_quote(amm, spread);
        (tdiv(amm.sqrt_k * amm.sqrt_k, q), q)
    }
}

pub open spec fn spread_reserve_defined(amm: AMM, spread: int) -> bool {
    spread == 0 || spread_reserve_quote(amm, spread) != 0
}

/// The offset of the reference price, used when the curve update intensity exceeds 100.
pub open spec fn reference_offset(amm: AMM, reserve: int) -> int {
    if amm.curve_update_intensity > 100 {
        let max_offset = imax(tdiv(amm.max_spread as int, 5), 100 * (amm.curve_update_intensity - 100));
        let liq = inventory_liquidity_ratio(
            amm.base_asset_amount_with_amm as int,
            amm.base_asset_reserve as int,
            amm.min_base_asset_reserve as int,
            amm.max_base_asset_reserve as int,
        );
        reference_point_offset(
            amm,
            reserve,
            liq * sign_of(amm.base_asset_amount_with_amm + amm.base_asset_amount_with_unsettled_lp),
            max_offset,
        )
    } else {
        0
    }
}

/// The bid reserves and the ask reserves, each as (base, quote).
pub open spec fn spread_reserves(amm: AMM, oracle: OraclePriceData, now: int) -> (
    (int, int),
    (int, int),
) {
    let rp = price_of(
        amm.base_asset_reserve as int,
        amm.quote_asset_reserve as int,
        amm.peg_multiplier as int,
    );
    let off = reference_offset(amm, rp);
    let (long, short) = spread_value(amm, oracle, now, rp);
    (spread_reserve(amm, short * -1 + off), spread_reserve(amm, long + off))
}

pub open spec fn spread_reserves_defined(amm: AMM, oracle: OraclePriceData, now: int) -> bool {
    let rp = price_of(
        amm.base_asset_reserve as int,
        amm.quote_asset_reserve as int,
        amm.peg_multiplier as int,
    );
    let off = reference_offset(amm, rp);
    let (long, short) = spread_value(amm, oracle, now, rp);
    &&& amm.base_asset_reserve != 0
    &&& spread_defined(amm, oracle, now, rp)
    &&& spread_reserve_defined(amm, short * -1 + off)
    &&& spread_reserve_defined(amm, long + off)
}


/// What `calc_spread` gives at time `t`: the spreads where they can be
/// computed, `None` exactly where the computation would panic.
pub open spec fn spread_outcome(
    amm: AMM,
    oracle: OraclePriceData,
    t: i64,
    reserve: Option<int>,
    r: Option<(int, int)>,
) -> bool {
    let rp = match reserve {
        Some(p) => p,
        None => price_of(
            amm.base_asset_reserve as int,
            amm.quote_asset_reserve as int,
            amm.peg_multiplier as int,
        ),
    };
    let ok = spread_defined(amm, oracle, t as int, rp) && (reserve is None && amm.base_spread != 0
        && amm.curve_update_intensity != 0 ==> amm.base_asset_reserve != 0);
    match r {
        Some(v) => ok && v == spread_value(amm, oracle, t as int, rp),
        None => !ok,
    }
}

/// What `calc_spread_reserves` gives at time `t`.
pub open spec fn spread_reserves_outcome(
    amm: AMM,
    oracle: OraclePriceData,
    t: i64,
    r: Option<((int, int), (int, int))>,
) -> bool {
    match r {
        Some(v) => spread_reserves_defined(amm, oracle, t as int) && v == spread_reserves(
            amm,
            oracle,
            t as int,
        ),
        None => !spread_reserves_defined(amm, oracle, t as int),
    }
}


pub open spec fn opt_value(o: Option<BigNum>) -> Option<int> {
    match o {
        Some(p) => Some(p.value()),
        None => None,
    }
}

pub open spec fn spread_values(r: Option<Spread>) -> Option<(int, int)> {
    match r {
        Some(s) => Some((s.long_spread.value(), s.short_spread.value())),
        None => None,
    }
}

pub open spec fn reserves_values(r: Option<SpreadReserves>) -> Option<((int, int), (int, int))> {
    match r {
        Some(x) => Some(
            (
                (x.bid_reserves.base_asset_reserve.value(), x.bid_reserves.quote_asset_reserve.value()),
                (x.ask_reserves.base_asset_reserve.value(), x.ask_reserves.quote_asset_reserve.value()),
            ),
        ),
        None => None,
    }
}


/// The target price, the peg that reaches it, the budget for the repeg and
/// whether the lower bound is to be checked.
pub open spec fn optimal_peg_and_budget(amm: AMM, oracle: OraclePriceData) -> (int, int, int, bool) {
    let bar = amm.base_asset_reserve as int;
    let qar = amm.quote_asset_reserve as int;
    let reserve_before = price_of(bar, qar, amm.peg_multiplier as int);
    let tp = oracle.price as int;
    let new_peg = peg_from_target_price(tp, bar, qar);
    let pre_peg_cost = repeg_cost(amm, new_peg);
    let budget = imax(amm.total_fee_minus_distributions - tdiv(amm.total_exchange_fee as int, 2), 0);
    if budget < pre_peg_cost {
        let half_max_price_spread = tdiv(tdiv(amm.max_spread as int, 2) * tp, 1_000_000);
        let gap = reserve_before - tp;
        if iabs(gap) > half_max_price_spread {
            let mark_adj = iabs(gap) - half_max_price_spread;
            let new_target = if gap < 0 {
                reserve_before + mark_adj
            } else {
                reserve_before - mark_adj
            };
            let new_optimal_peg = peg_from_target_price(new_target, bar, qar);
            (new_target, new_optimal_peg, repeg_cost(amm, new_optimal_peg), false)
        } else {
            (
                tp,
                new_peg,
                budget,
                !(amm.total_fee_minus_distributions < (amm.total_exchange_fee / 2) as int),
            )
        }
    } else {
        (tp, new_peg, budget, true)
    }
}

/// The cost of scaling `k` by `num / denom`, as the Drift SDK computes it.
pub open spec fn adjust_k_cost(amm: AMM, num: int, denom: int) -> int {
    let x = amm.base_asset_reserve as int;
    let y = amm.quote_asset_reserve as int;
    let d = amm.base_asset_amount_with_amm as int;
    let q = amm.peg_multiplier as int;
    let quote_scale = y * d * q;
    let p = tdiv(num * 1_000_000, denom);
    let a = tdiv(quote_scale * 1_000_000 * 1_000_000, x + d);
    let b = tdiv(tdiv(quote_scale * p * 1_000_000 * 1_000_000, 1_000_000), tdiv(x * p, 1_000_000) + d);
    tdiv(tdiv(tdiv(tdiv(a - b, 1_000_000), 1_000_000), 1_000), 1_000_000) * -1
}

pub open spec fn adjust_k_cost_defined(amm: AMM, num: int, denom: int) -> bool {
    let x = amm.base_asset_reserve as int;
    let d = amm.base_asset_amount_with_amm as int;
    let p = tdiv(num * 1_000_000, denom);
    denom != 0 && x + d != 0 && tdiv(x * p, 1_000_000) + d != 0
}

/// The peg that the budget can pay for, moving toward the target price.
pub open spec fn budgeted_peg(amm: AMM, budget: int, target_price: int) -> int {
    let per0 = (amm.quote_asset_reserve - amm.terminal_quote_asset_reserve) / 1_000;
    let per = if per0 > 0 {
        per0 + 1
    } else {
        per0
    };
    let target_peg = tdiv(
        tdiv(target_price * amm.base_asset_reserve, amm.quote_asset_reserve as int),
        1,
    );
    let change = target_peg - amm.peg_multiplier;
    let use_target = (per < 0 && change > 0) || (per > 0 && change < 0);
    if per == 0 || use_target {
        target_peg
    } else {
        imax(amm.peg_multiplier + tdiv(budget * 1_000_000, per), 1)
    }
}

pub open spec fn budgeted_peg_defined(amm: AMM) -> bool {
    amm.quote_asset_reserve >= amm.terminal_quote_asset_reserve && amm.quote_asset_reserve != 0
}

pub open spec fn in_u128(x: int) -> bool {
    0 <= x <= u128::MAX
}

/// `amm` with its base reserve and `sqrt_k` scaled by `num / denom` and its
/// quote reserve recomputed from `sqrt_k^2`.
pub open spec fn scaled_amm(amm: AMM, num: int, denom: int) -> AMM {
    let base = tdiv(amm.base_asset_reserve * num, denom);
    let sqrt_k = tdiv(amm.sqrt_k * num, denom);
    AMM {
        base_asset_reserve: base as u128,
        sqrt_k: sqrt_k as u128,
        quote_asset_reserve: ((sqrt_k * sqrt_k) / base) as u128,
        ..amm
    }
}

pub open spec fn scaled_amm_defined(amm: AMM, num: int, denom: int) -> bool {
    let base = tdiv(amm.base_asset_reserve * num, denom);
    let sqrt_k = tdiv(amm.sqrt_k * num, denom);
    denom != 0 && in_u128(base) && in_u128(sqrt_k) && in_u128(sqrt_k * sqrt_k) && base != 0
}

/// The quote reserve after closing the AMM's whole position in `amm`.
pub open spec fn terminal_quote_after_close(amm: AMM, position: int) -> int {
    let dir = if position > 0 {
        PositionDirection::Short
    } else {
        PositionDirection::Long
    };
    let sd = if dir == PositionDirection::Long {
        SwapDirection::Remove
    } else {
        SwapDirection::Add
    };
    reserves_after_swap(amm, AssetType::Base, iabs(position), sd).0
}

pub open spec fn terminal_quote_defined(amm: AMM, position: int) -> bool {
    let t = terminal_quote_after_close(amm, position);
    &&& position != i128::MIN
    &&& amm.sqrt_k * amm.sqrt_k <= u128::MAX
    &&& t != 0
    &&& in_u128(t)
}

/// The repeg cost, the `k` scale (numerator, denominator) and the new peg.
pub open spec fn new_amm(amm: AMM, oracle: OraclePriceData) -> Option<(int, int, int, int)> {
    let (tp, new_peg, budget, _) = optimal_peg_and_budget(amm, oracle);
    let pre = repeg_cost(amm, new_peg);
    if pre >= budget && pre > 0 {
        let deficit = adjust_k_cost(amm, 999, 1_000);
        let pre1 = budget + iabs(deficit);
        let a1 = scaled_amm(amm, 999, 1_000);
        let a2 = AMM {
            terminal_quote_asset_reserve: terminal_quote_after_close(
                a1,
                amm.base_asset_amount_with_amm as int,
            ) as u128,
            ..a1
        };
        if adjust_k_cost_defined(amm, 999, 1_000) && deficit <= 0 && scaled_amm_defined(
            amm,
            999,
            1_000,
        ) && terminal_quote_defined(a1, amm.base_asset_amount_with_amm as int)
            && budgeted_peg_defined(a2) {
            let p2 = budgeted_peg(a2, pre1, tp);
            Some((repeg_cost(a2, p2), 999, 1_000, p2))
        } else {
            None
        }
    } else {
        Some((pre, 1, 1, new_peg))
    }
}

pub open spec fn new_amm_defined(amm: AMM) -> bool {
    amm.base_asset_reserve != 0 && amm.quote_asset_reserve != 0
}

/// The AMM after its peg and `k` are brought up to date with the oracle.
pub open spec fn updated_amm(amm: AMM, oracle: OraclePriceData) -> Option<AMM> {
    if amm.curve_update_intensity == 0 {
        Some(amm)
    } else if !new_amm_defined(amm) {
        None
    } else {
        match new_amm(amm, oracle) {
            Some((pre, num, denom, new_peg)) => {
                let a1 = AMM { peg_multiplier: new_peg as u128, ..scaled_amm(amm, num, denom) };
                let tq = terminal_quote_after_close(a1, amm.base_asset_amount_with_amm as int);
                let tfmd = amm.total_fee_minus_distributions - pre;
                let rev = amm.net_revenue_since_last_funding - pre;
                if scaled_amm_defined(amm, num, denom) && in_u128(new_peg)
                    && terminal_quote_defined(a1, amm.base_asset_amount_with_amm as int)
                    && i128::MIN <= tfmd <= i128::MAX && in_i64(rev) {
                    Some(
                        AMM {
                            terminal_quote_asset_reserve: tq as u128,
                            total_fee_minus_distributions: tfmd as i128,
                            net_revenue_since_last_funding: rev as i64,
                            ..a1
                        },
                    )
                } else {
                    None
                }
            },
            None => None,
        }
    }
}


/// The reserves on the side of `dir` of the updated AMM at time `t`, with
/// its `sqrt_k` and peg: the long side takes the bid reserves.
pub open spec fn updated_amm_spread_reserves(
    amm: AMM,
    dir: PositionDirection,
    oracle: OraclePriceData,
    t: int,
) -> Option<(int, int, int, int)> {
    match updated_amm(amm, oracle) {
        Some(a) => if spread_reserves_defined(a, oracle, t) {
            let (bid, ask) = spread_reserves(a, oracle, t);
            let side = if dir == PositionDirection::Long {
                bid
            } else {
                ask
            };
            Some((side.0, side.1, a.sqrt_k as int, a.peg_multiplier as int))
        } else {
            None
        },
        None => None,
    }
}

/// The bid and ask prices of a market in `PRICE_PRECISION` units, from the
/// AMM (updated first when `with_update`) at time `t`.
pub open spec fn bid_ask_price_values(
    market: PerpMarket,
    oracle: OraclePriceData,
    with_update: bool,
    t: int,
) -> Option<(int, int)> {
    let amm = if with_update {
        updated_amm(market.amm, oracle)
    } else {
        Some(market.amm)
    };
    match amm {
        Some(a) => if spread_reserves_defined(a, oracle, t) {
            let (bid, ask) = spread_reserves(a, oracle, t);
            if bid.0 != 0 && ask.0 != 0 {
                Some(
                    (
                        price_of(bid.0, bid.1, a.peg_multiplier as int),
                        price_of(ask.0, ask.1, a.peg_multiplier as int),
                    ),
                )
            } else {
                None
            }
        } else {
            None
        },
        None => None,
    }
}

/// The price on the side of `dir` after updating the AMM, in `PRICE_PRECISION` units.
pub open spec fn side_price_value(
    market: PerpMarket,
    dir: PositionDirection,
    oracle: OraclePriceData,
    t: int,
) -> Option<int> {
    match updated_amm_spread_reserves(market.amm, dir, oracle, t) {
        Some((b, q, _, peg)) => if b != 0 {
            Some(price_of(b, q, peg))
        } else {
            None
        },
        None => None,
    }
}

pub open spec fn pair_values(r: Option<(BigNum, BigNum)>) -> Option<(int, int)> {
    match r {
        Some((a, b)) => Some((a.value(), b.value())),
        None => None,
    }
}

pub struct AmmUtils;

impl AmmUtils {
    /// The largest spread allowed for an initial margin ratio:
    /// `margin_ratio_init * (BID_ASK_SPREAD_PRECISION / MARGIN_PRECISION)`.
    pub fn calc_max_spread(margin_ratio_init: u32) -> (r: u32)
        requires
            margin_ratio_init * 100 <= u32::MAX,
        ensures
            r == margin_ratio_init * 100,
    {
        margin_ratio_init * ((BID_ASK_SPREAD_PRECISION / (MARGIN_PRECISION as u64)) as u32)
    }

    /// Which way a swap moves the reserve of the given asset.
    pub fn swap_direction(asset_type: AssetType, dir: PositionDirection) -> (r: SwapDirection)
        ensures
            r == (if (dir == PositionDirection::Long && asset_type == AssetType::Base) || (dir
                == PositionDirection::Short && asset_type == AssetType::Quote) {
                SwapDirection::Remove
            } else {
                SwapDirection::Add
            }),
    {
        let long = match dir {
            PositionDirection::Long => true,
            PositionDirection::Short => false,
        };
        let base = match asset_type {
            AssetType::Base => true,
            AssetType::Quote => false,
        };
        if (long && base) || (!long && !base) {
            SwapDirection::Remove
        } else {
            SwapDirection::Add
        }
    }

    /// The oracle TWAP over `period` brought up to `now`.
    pub fn calc_live_oracle_twap(
        hist_oracle_data: HistoricalOracleData,
        oracle: OraclePriceData,
        now: i64,
        period: i64,
    ) -> (r: i64)
        requires
            live_oracle_twap_fits(hist_oracle_data, oracle, now as int, period as int),
        ensures
            r == live_oracle_twap(hist_oracle_data, oracle, now as int, period as int),
    {
        let oracle_twap = if period == (FIVE_MINUTE as i64) {
            hist_oracle_data.last_oracle_price_twap5min
        } else {
            hist_oracle_data.last_oracle_price_twap
        };
        let d = now - hist_oracle_data.last_oracle_price_twap_ts;
        let since_last_update: i64 = if 1 >= d {
            1
        } else {
            d
        };
        let e = period - since_last_update;
        let since_start: i64 = if 0 >= e {
            0
        } else {
            e
        };
        let clamp_range = Self::div_i64(oracle_twap, 3);
        let hi = oracle_twap + clamp_range;
        let lo = oracle_twap - clamp_range;
        let floor = if oracle.price >= lo {
            oracle.price
        } else {
            lo
        };
        let clamped_oracle_price = if hi <= floor {
            hi
        } else {
            floor
        };
        let num = oracle_twap * since_start + clamped_oracle_price * since_last_update;
        Self::div_i64(num, since_start + since_last_update)
    }

    /// Truncating `i64` division.
    fn div_i64(a: i64, b: i64) -> (r: i64)
        requires
            b > 0,
        ensures
            r == tdiv(a as int, b as int),
    {
        let r = BigNum::from_i64(a).div(&BigNum::from_i64(b));
        let q = r.to_i128();
        proof {
            assert(iabs(tdiv(a as int, b as int)) <= iabs(a as int)) by (nonlinear_arith)
                requires
                    b > 0,
            ;
        }
        match q {
            Some(v) => v as i64,
            None => 0,
        }
    }

    pub fn clamp_num(x: BigNum, min: BigNum, max: BigNum) -> (r: BigNum)
        ensures
            r.value() == clamp(x.value(), min.value(), max.value()),
    {
        min.max(&x.min(&max))
    }

    pub fn sig_num(x: BigNum) -> (r: i8)
        ensures
            r == sign_of(x.value()),
    {
        if x.lt(&BigNum::from_i128(0)) {
            -1
        } else {
            1
        }
    }

    /// `quote * PRICE_PRECISION * peg / PEG_PRECISION / base`
    pub fn calc_price(
        base_asset_reserve: BigNum,
        quote_asset_reserve: BigNum,
        peg_multiplier: BigNum,
    ) -> (r: BigNum)
        requires
            base_asset_reserve.value() != 0,
        ensures
            r.value() == price_of(
                base_asset_reserve.value(),
                quote_asset_reserve.value(),
                peg_multiplier.value(),
            ),
    {
        quote_asset_reserve.mul(&BigNum::from_u128(PRICE_PRECISION)).mul(&peg_multiplier).div(
            &BigNum::from_u128(PEG_PRECISION),
        ).div(&base_asset_reserve)
    }

    pub fn calc_peg_from_target_price(
        target_price: BigNum,
        base_asset_reserve: BigNum,
        quote_asset_reserve: BigNum,
    ) -> (r: BigNum)
        requires
            quote_asset_reserve.value() != 0,
        ensures
            r.value() == peg_from_target_price(
                target_price.value(),
                base_asset_reserve.value(),
                quote_asset_reserve.value(),
            ),
    {
        target_price.mul(&base_asset_reserve).div(&quote_asset_reserve).add(
            &BigNum::from_u128(PRICE_DIV_PEG / 2),
        ).div(&BigNum::from_u128(PRICE_DIV_PEG)).max(&BigNum::from_i128(1))
    }

    pub fn calc_repeg_cost(amm: &AMM, new_peg: BigNum) -> (r: BigNum)
        ensures
            r.value() == repeg_cost(*amm, new_peg.value()),
    {
        let dqar = BigNum::from_u128(amm.quote_asset_reserve).sub(
            &BigNum::from_u128(amm.terminal_quote_asset_reserve),
        );
        dqar.mul(&new_peg.sub(&BigNum::from_u128(amm.peg_multiplier))).div(
            &BigNum::from_u128(AMM_TO_QUOTE_PRECISION_RATIO),
        ).div(&BigNum::from_u128(PEG_PRECISION))
    }

    pub fn calc_swap_output(
        input_asset_reserve: BigNum,
        swap_amount: BigNum,
        swap_direction: SwapDirection,
        product: BigNum,
    ) -> (r: AmmReservesAfterSwap)
        requires
            swap_output(
                input_asset_reserve.value(),
                swap_amount.value(),
                swap_direction,
                product.value(),
            ).0 != 0,
        ensures
            (r.new_quote_asset_reserve.value(), r.new_base_asset_reserve.value()) == swap_output(
                input_asset_reserve.value(),
                swap_amount.value(),
                swap_direction,
                product.value(),
            ),
    {
        let new_input_asset_reserve = match swap_direction {
            SwapDirection::Add => input_asset_reserve.add(&swap_amount),
            SwapDirection::Remove => input_asset_reserve.sub(&swap_amount),
        };
        let new_output_asset_reserve = product.div(&new_input_asset_reserve);
        AmmReservesAfterSwap {
            new_quote_asset_reserve: new_input_asset_reserve,
            new_base_asset_reserve: new_output_asset_reserve,
        }
    }

    /// The reserves after a swap; `sqrt_k * sqrt_k` is computed in `u128`,
    /// which `requires` keeps from overflowing.
    pub fn calc_amm_reserves_after_swap(
        amm: &AMM,
        input_asset_type: AssetType,
        swap_amount: BigNum,
        swap_direction: SwapDirection,
    ) -> (r: AmmReservesAfterSwap)
        requires
            swap_amount.value() >= 0,
            amm.sqrt_k * amm.sqrt_k <= u128::MAX,
            input_asset_type == AssetType::Quote ==> amm.peg_multiplier != 0,
            reserves_after_swap(*amm, input_asset_type, swap_amount.value(), swap_direction).0
                != 0,
        ensures
            (r.new_quote_asset_reserve.value(), r.new_base_asset_reserve.value())
                == reserves_after_swap(*amm, input_asset_type, swap_amount.value(), swap_direction),
    {
        let k = BigNum::from_u128(amm.sqrt_k * amm.sqrt_k);
        match input_asset_type {
            AssetType::Quote => Self::calc_swap_output(
                BigNum::from_u128(amm.quote_asset_reserve),
                swap_amount.mul(&BigNum::from_u128(AMM_TIMES_PEG_TO_QUOTE_PRECISION_RATIO)).div(
                    &BigNum::from_u128(amm.peg_multiplier),
                ),
                swap_direction,
                k,
            ),
            AssetType::Base => Self::calc_swap_output(
                BigNum::from_u128(amm.base_asset_reserve),
                swap_amount,
                swap_direction,
                k,
            ),
        }
    }

    pub fn calc_market_open_bid_ask(
        base_asset_reserve: BigNum,
        min_base_asset_reserve: BigNum,
        max_base_asset_reserve: BigNum,
        step_size: Option<BigNum>,
    ) -> (r: OpenBidAsk)
        ensures
            (r.open_bids.value(), r.open_asks.value()) == open_bid_ask(
                base_asset_reserve.value(),
                min_base_asset_reserve.value(),
                max_base_asset_reserve.value(),
                match step_size {
                    Some(s) => Some(s.value()),
                    None => None,
                },
            ),
    {
        let zero = BigNum::from_i128(0);
        let open_asks = if min_base_asset_reserve.lt(&base_asset_reserve) {
            let a = base_asset_reserve.sub(&min_base_asset_reserve).mul_i(-1);
            match &step_size {
                Some(step) => {
                    if a.abs().div_i(2).lt(step) {
                        BigNum::from_i128(0)
                    } else {
                        a
                    }
                },
                None => a,
            }
        } else {
            zero.copy()
        };
        let open_bids = if max_base_asset_reserve.gt(&base_asset_reserve) {
            let b = max_base_asset_reserve.sub(&base_asset_reserve);
            match &step_size {
                Some(step) => {
                    if b.div_i(2).lt(step) {
                        BigNum::from_i128(0)
                    } else {
                        b
                    }
                },
                None => b,
            }
        } else {
            zero
        };
        OpenBidAsk { open_bids, open_asks }
    }

    pub fn calc_inventory_liquidity_ratio(
        base_asset_amount_with_amm: BigNum,
        base_asset_reserve: BigNum,
        min_base_asset_reserve: BigNum,
        max_base_asset_reserve: BigNum,
    ) -> (r: BigNum)
        ensures
            r.value() == inventory_liquidity_ratio(
                base_asset_amount_with_amm.value(),
                base_asset_reserve.value(),
                min_base_asset_reserve.value(),
                max_base_asset_reserve.value(),
            ),
    {
        let OpenBidAsk { open_bids, open_asks } = Self::calc_market_open_bid_ask(
            base_asset_reserve,
            min_base_asset_reserve,
            max_base_asset_reserve,
            None,
        );
        let min_side_liquidity = open_bids.abs().min(&open_asks.abs());
        let pct = BigNum::from_u128(PERCENTAGE_PRECISION);
        pct.min(
            &base_asset_amount_with_amm.mul(&pct).div(&min_side_liquidity.max(&BigNum::from_i128(1))).abs(),
        )
    }

    pub fn calc_inventory_scale(
        base_asset_amount_with_amm: BigNum,
        base_asset_reserve: BigNum,
        min_base_asset_reserve: BigNum,
        max_base_asset_reserve: BigNum,
        dir_spread: BigNum,
        max_spread: BigNum,
    ) -> (r: BigNum)
        ensures
            r.value() == inventory_scale(
                base_asset_amount_with_amm.value(),
                base_asset_reserve.value(),
                min_base_asset_reserve.value(),
                max_base_asset_reserve.value(),
                dir_spread.value(),
                max_spread.value(),
            ),
    {
        if base_asset_amount_with_amm.eq(&BigNum::from_i128(0)) {
            return BigNum::from_i128(1);
        }
        let max_bid_ask_inventory_skew_factor = BigNum::from_u64(BID_ASK_SPREAD_PRECISION * 10);
        let inventory_scale = Self::calc_inventory_liquidity_ratio(
            base_asset_amount_with_amm,
            base_asset_reserve,
            min_base_asset_reserve,
            max_base_asset_reserve,
        );
        let bas = BigNum::from_u64(BID_ASK_SPREAD_PRECISION);
        let inventory_scale_max = max_bid_ask_inventory_skew_factor.max(
            &max_spread.mul(&bas).div(&dir_spread.max(&BigNum::from_i128(1))),
        );
        let inventory_scale_capped = inventory_scale_max.min(
            &bas.add(
                &inventory_scale_max.mul(&inventory_scale).div(
                    &BigNum::from_u128(PERCENTAGE_PRECISION),
                ),
            ),
        ).div(&bas);
        inventory_scale_capped
    }

    pub fn new_oracle_conf_pct(
        amm: &AMM,
        oracle: OraclePriceData,
        reserve_price: BigNum,
        now: i64,
    ) -> (r: BigNum)
        requires
            in_i64(now - amm.historical_oracle_data.last_oracle_price_twap_ts),
            reserve_price.value() != 0,
        ensures
            r.value() == oracle_conf_pct(*amm, oracle, reserve_price.value(), now as int),
    {
        let conf_interval = BigNum::from_u64(oracle.confidence);
        let d = now - amm.historical_oracle_data.last_oracle_price_twap_ts;
        let since_last_update: i64 = if 0 >= d {
            0
        } else {
            d
        };
        let mut lower_bound_conf_pct = BigNum::from_u64(amm.last_oracle_conf_pct);
        if since_last_update > 0 {
            let e = 21 - since_last_update;
            let divisor = BigNum::from_i64(if e >= 5 {
                e
            } else {
                5
            });
            lower_bound_conf_pct = BigNum::from_u64(amm.last_oracle_conf_pct).sub(
                &BigNum::from_u64(amm.last_oracle_conf_pct).div(&divisor),
            );
        }
        let conf_interval_pct = conf_interval.mul(&BigNum::from_u64(BID_ASK_SPREAD_PRECISION)).div(
            &reserve_price,
        );
        conf_interval_pct.max(&lower_bound_conf_pct)
    }

    pub fn calc_live_oracle_std(amm: &AMM, oracle: OraclePriceData, now: i64) -> (r: BigNum)
        requires
            live_oracle_std_fits(*amm, oracle, now as int),
        ensures
            r.value() == live_oracle_std(*amm, oracle, now as int),
    {
        let d = now - amm.historical_oracle_data.last_oracle_price_twap_ts;
        let since_last_update: i64 = if 1 >= d {
            1
        } else {
            d
        };
        let e = amm.funding_period - since_last_update;
        let since_start: i64 = if 0 >= e {
            0
        } else {
            e
        };
        let live_oracle_twap = Self::calc_live_oracle_twap(
            amm.historical_oracle_data,
            oracle,
            now,
            amm.funding_period,
        );
        let delta = oracle.price - live_oracle_twap;
        let abs_delta = if delta < 0 {
            -delta
        } else {
            delta
        };
        let price_delta_vs_twap = BigNum::from_i64(abs_delta);
        price_delta_vs_twap.add(
            &BigNum::from_u64(amm.oracle_std).mul(&BigNum::from_i64(since_start)).div(
                &BigNum::from_i64(since_start + since_last_update),
            ),
        )
    }

    pub fn calc_vol_spread(
        last_oracle_conf_pct: BigNum,
        reserve_price: BigNum,
        mark_std: BigNum,
        oracle_std: BigNum,
        long_intensity: BigNum,
        short_intensity: BigNum,
        volume_24h: BigNum,
    ) -> (r: VolSpread)
        requires
            reserve_price.value() != 0,
        ensures
            (r.long_vol_spread.value(), r.short_vol_spread.value()) == vol_spread(
                last_oracle_conf_pct.value(),
                reserve_price.value(),
                mark_std.value(),
                oracle_std.value(),
                long_intensity.value(),
                short_intensity.value(),
                volume_24h.value(),
            ),
    {
        let pct = BigNum::from_u128(PERCENTAGE_PRECISION);
        let market_avg_std_pct = mark_std.add(&oracle_std).mul(&pct).div(&reserve_price).div_i(2);
        let vol_spread = last_oracle_conf_pct.max(&market_avg_std_pct.div_i(2));
        let clamp_min = BigNum::from_i128(10_000);
        let clamp_max = BigNum::from_i128(1_600_000);
        let one = BigNum::from_i128(1);
        let long_vol_spread_factor = Self::clamp_num(
            long_intensity.mul(&pct).div(&one.max(&volume_24h)),
            clamp_min.copy(),
            clamp_max.copy(),
        );
        let short_vol_spread_factor = Self::clamp_num(
            short_intensity.mul(&pct).div(&one.max(&volume_24h)),
            clamp_min,
            clamp_max,
        );
        let conf_component = if last_oracle_conf_pct.le(&BigNum::from_i128(2_500)) {
            last_oracle_conf_pct.div_i(10)
        } else {
            last_oracle_conf_pct.copy()
        };
        let long_vol_spread = conf_component.max(&vol_spread.mul(&long_vol_spread_factor).div(&pct));
        let short_vol_spread = conf_component.max(
            &vol_spread.mul(&short_vol_spread_factor).div(&pct),
        );
        VolSpread { long_vol_spread, short_vol_spread }
    }

    pub fn calc_effective_leverage(amm: &AMM, reserve_price: BigNum) -> (r: BigNum)
        requires
            amm.total_fee_minus_distributions < i128::MAX,
        ensures
            r.value() == effective_leverage(*amm, reserve_price.value()),
    {
        let net_base_asset_amount = BigNum::from_i128(amm.base_asset_amount_with_amm);
        let terminal_quote_asset_reserve = BigNum::from_u128(amm.terminal_quote_asset_reserve);
        let peg_multiplier = BigNum::from_u128(amm.peg_multiplier);
        let net_base_asset_value = BigNum::from_u128(amm.quote_asset_reserve).sub(
            &terminal_quote_asset_reserve,
        ).mul(&peg_multiplier).div(&BigNum::from_u128(AMM_TIMES_PEG_TO_QUOTE_PRECISION_RATIO));
        let local_base_asset_value = net_base_asset_amount.mul(&reserve_price).div(
            &BigNum::from_u128(AMM_TO_QUOTE_PRECISION_RATIO * PRICE_PRECISION),
        );
        let effective_gap = BigNum::from_i128(0).max(
            &local_base_asset_value.sub(&net_base_asset_value),
        );
        let fees: i128 = if 0 >= amm.total_fee_minus_distributions {
            0
        } else {
            amm.total_fee_minus_distributions
        };
        effective_gap.div(&BigNum::from_i128(fees + 1)).add(
            &BigNum::from_u128(1 / QUOTE_PRECISION),
        )
    }

    pub fn calc_reference_point_offset(
        amm: &AMM,
        reserve_price: BigNum,
        liquidity_fraction: BigNum,
        max_offset_pct: BigNum,
    ) -> (r: BigNum)
        ensures
            r.value() == reference_point_offset(
                *amm,
                reserve_price.value(),
                liquidity_fraction.value(),
                max_offset_pct.value(),
            ),
    {
        let last_24h_avg_funding_rate = BigNum::from_i64(amm.last24h_avg_funding_rate);
        let oracle_twap_fast = BigNum::from_i64(
            amm.historical_oracle_data.last_oracle_price_twap5min,
        );
        let mark_twap_fast = BigNum::from_u64(amm.last_mark_price_twap5min);
        let oracle_twap_slow = BigNum::from_i64(amm.historical_oracle_data.last_oracle_price_twap);
        let mark_twap_slow = BigNum::from_u64(amm.last_mark_price_twap);
        if last_24h_avg_funding_rate.eq(&BigNum::from_i128(0)) {
            return BigNum::from_i128(0);
        }
        let pct = BigNum::from_u128(PERCENTAGE_PRECISION);
        let max_offset_in_price = max_offset_pct.mul(&reserve_price).div(&pct);
        let lo = max_offset_in_price.mul_i(-1);
        let mark_premium_minute = Self::clamp_num(
            mark_twap_fast.sub(&oracle_twap_fast),
            lo.copy(),
            max_offset_in_price.copy(),
        );
        let mark_premium_hour = Self::clamp_num(
            mark_twap_slow.sub(&oracle_twap_slow),
            lo.copy(),
            max_offset_in_price.copy(),
        );
        let mark_premium_day = Self::clamp_num(
            last_24h_avg_funding_rate.div(&BigNum::from_u128(FUNDING_RATE_BUFFER_PRECISION)).mul_i(24),
            lo.copy(),
            max_offset_in_price.copy(),
        );
        let mark_premium_avg_pct = mark_premium_minute.add(&mark_premium_hour).add(
            &mark_premium_day,
        ).div_i(3);
        let inventory_pct = Self::clamp_num(
            liquidity_fraction.mul(&max_offset_pct).div(&pct),
            lo.copy(),
            max_offset_in_price.copy(),
        );
        let mut offset_pct = mark_premium_avg_pct.add(&inventory_pct);
        if Self::sig_num(inventory_pct) != Self::sig_num(mark_premium_avg_pct) {
            offset_pct = BigNum::from_i128(0);
        }
        Self::clamp_num(offset_pct, lo, max_offset_in_price)
    }


    pub fn calc_spread_inner(
        amm: &AMM,
        last_oracle_reserve_price_spread_pct: BigNum,
        last_oracle_conf_pct: BigNum,
        reserve_price: BigNum,
        oracle_std: BigNum,
    ) -> (r: Spread)
        requires
            reserve_price.value() != 0,
            amm.total_fee_minus_distributions < i128::MAX,
        ensures
            (r.long_spread.value(), r.short_spread.value()) == spread_inner(
                *amm,
                last_oracle_reserve_price_spread_pct.value(),
                last_oracle_conf_pct.value(),
                reserve_price.value(),
                oracle_std.value(),
            ),
    {
        let ghost pct = last_oracle_reserve_price_spread_pct.value();
        let zero = BigNum::from_i128(0);
        let VolSpread { long_vol_spread, short_vol_spread } = Self::calc_vol_spread(
            last_oracle_conf_pct.copy(),
            reserve_price.copy(),
            BigNum::from_u64(amm.mark_std),
            oracle_std.copy(),
            BigNum::from_u64(amm.long_intensity_volume),
            BigNum::from_u64(amm.short_intensity_volume),
            BigNum::from_u64(amm.volume24h),
        );
        let half_base = BigNum::from_i128(amm.base_spread as i128).div_i(2);
        let mut long_spread = half_base.max(&long_vol_spread);
        let mut short_spread = half_base.max(&short_vol_spread);
        if last_oracle_reserve_price_spread_pct.gt(&zero) {
            short_spread = short_spread.max(
                &last_oracle_reserve_price_spread_pct.abs().add(&short_vol_spread),
            );
        } else if last_oracle_reserve_price_spread_pct.lt(&zero) {
            long_spread = long_spread.max(
                &last_oracle_reserve_price_spread_pct.abs().add(&long_vol_spread),
            );
        }
        let pct_precision = BigNum::from_u128(PERCENTAGE_PRECISION);
        let max_spread_baseline = {
            let a = last_oracle_reserve_price_spread_pct.abs();
            let b = last_oracle_conf_pct.mul_i(2);
            let c = BigNum::from_u64(amm.mark_std).max(&oracle_std).mul(&pct_precision).div(
                &reserve_price,
            );
            let first = a.max(&b.max(&c));
            let second = BigNum::from_u64(BID_ASK_SPREAD_PRECISION);
            first.min(&second)
        };
        let max_target_spread = BigNum::from_i128(amm.max_spread as i128).max(&max_spread_baseline);
        let inventory_spread_scale = Self::calc_inventory_scale(
            BigNum::from_i128(amm.base_asset_amount_with_amm),
            BigNum::from_u128(amm.base_asset_reserve),
            BigNum::from_u128(amm.min_base_asset_reserve),
            BigNum::from_u128(amm.max_base_asset_reserve),
            if amm.base_asset_amount_with_amm > 0 {
                long_spread.copy()
            } else {
                short_spread.copy()
            },
            max_target_spread.copy(),
        );
        if amm.base_asset_amount_with_amm > 0 {
            long_spread = long_spread.mul(&inventory_spread_scale);
        } else if amm.base_asset_amount_with_amm < 0 {
            short_spread = short_spread.mul(&inventory_spread_scale);
        }
        let max_spread_scale = BigNum::from_i128(10);
        if amm.total_fee_minus_distributions > 0 {
            let effective_leverage = Self::calc_effective_leverage(amm, reserve_price.copy());
            let spread_scale = max_spread_scale.min(&effective_leverage.add_i(1));
            if amm.base_asset_amount_with_amm > 0 {
                long_spread = long_spread.mul(&spread_scale);
            } else {
                short_spread = short_spread.mul(&spread_scale);
            }
        } else {
            long_spread = long_spread.mul(&max_spread_scale);
            short_spread = short_spread.mul(&max_spread_scale);
        }
        if amm.net_revenue_since_last_funding < DEFAULT_REVENUE_SINCE_LAST_FUNDING_SPREAD_RETREAT {
            let max_retreat = max_target_spread.div_i(10);
            let mut revenue_retreat_amount = max_retreat.copy();
            if amm.net_revenue_since_last_funding >= DEFAULT_REVENUE_SINCE_LAST_FUNDING_SPREAD_RETREAT
                * 1_000 {
                let net = amm.net_revenue_since_last_funding;
                let abs_net: i64 = if net < 0 {
                    -net
                } else {
                    net
                };
                revenue_retreat_amount = max_retreat.min(
                    &BigNum::from_i128(amm.base_spread as i128).mul(&BigNum::from_i64(abs_net)).div(
                        &BigNum::from_i64(25_000_000),
                    ),
                );
            }
            let half_revenue_retreat_amount = revenue_retreat_amount.div_i(2);
            if amm.base_asset_amount_with_amm > 0 {
                long_spread = long_spread.add(&revenue_retreat_amount);
                short_spread = short_spread.add(&half_revenue_retreat_amount);
            } else if amm.base_asset_amount_with_amm < 0 {
                long_spread = long_spread.add(&half_revenue_retreat_amount);
                short_spread = short_spread.add(&revenue_retreat_amount);
            } else {
                long_spread = long_spread.add(&half_revenue_retreat_amount);
                short_spread = short_spread.add(&half_revenue_retreat_amount);
            }
        }
        proof {
            let (l, s, m) = spread_terms(
                *amm,
                pct,
                last_oracle_conf_pct.value(),
                reserve_price.value(),
                oracle_std.value(),
            );
            assert(l == long_spread.value() && s == short_spread.value()
                && m == max_target_spread.value());
        }
        let total_spread = long_spread.add(&short_spread);
        if total_spread.gt(&max_target_spread) {
            if long_spread.gt(&short_spread) {
                long_spread = long_spread.mul(&max_target_spread).div(&total_spread);
                short_spread = max_target_spread.sub(&long_spread);
            } else {
                short_spread = short_spread.mul(&max_target_spread).div(&total_spread);
                long_spread = max_target_spread.sub(&short_spread);
            }
        }
        Spread { long_spread, short_spread }
    }


    fn fits_i64(x: &BigNum) -> (r: bool)
        ensures
            r == in_i64(x.value()),
    {
        x.ge(&BigNum::from_i64(i64::MIN)) && x.le(&BigNum::from_i64(i64::MAX))
    }

    /// Whether `calc_live_oracle_twap` can run on these values.
    pub fn live_oracle_twap_fits(
        hist: HistoricalOracleData,
        oracle: OraclePriceData,
        now: i64,
        period: i64,
    ) -> (r: bool)
        ensures
            r == live_oracle_twap_fits(hist, oracle, now as int, period as int),
    {
        let twap = BigNum::from_i64(
            if period == (FIVE_MINUTE as i64) {
                hist.last_oracle_price_twap5min
            } else {
                hist.last_oracle_price_twap
            },
        );
        let d = BigNum::from_i64(now).sub(&BigNum::from_i64(hist.last_oracle_price_twap_ts));
        let since_last = BigNum::from_i128(1).max(&d);
        let e = BigNum::from_i64(period).sub(&since_last);
        let since_start = BigNum::from_i128(0).max(&e);
        let clamp_range = twap.div_i(3);
        let hi = twap.add(&clamp_range);
        let lo = twap.sub(&clamp_range);
        let clamped = hi.min(&BigNum::from_i64(oracle.price).max(&lo));
        let a = twap.mul(&since_start);
        let b = clamped.mul(&since_last);
        Self::fits_i64(&d) && Self::fits_i64(&e) && Self::fits_i64(&hi) && Self::fits_i64(&lo)
            && Self::fits_i64(&a) && Self::fits_i64(&b) && Self::fits_i64(&a.add(&b))
            && Self::fits_i64(&since_start.add(&since_last))
    }

    /// Whether `calc_live_oracle_std` can run on these values.
    pub fn live_oracle_std_fits(amm: &AMM, oracle: OraclePriceData, now: i64) -> (r: bool)
        ensures
            r == live_oracle_std_fits(*amm, oracle, now as int),
    {
        let d = BigNum::from_i64(now).sub(
            &BigNum::from_i64(amm.historical_oracle_data.last_oracle_price_twap_ts),
        );
        if !Self::fits_i64(&d) {
            return false;
        }
        let since_last = BigNum::from_i128(1).max(&d);
        let e = BigNum::from_i64(amm.funding_period).sub(&since_last);
        if !Self::fits_i64(&e) {
            return false;
        }
        let since_start = BigNum::from_i128(0).max(&e);
        if !Self::live_oracle_twap_fits(
            amm.historical_oracle_data,
            oracle,
            now,
            amm.funding_period,
        ) {
            return false;
        }
        let twap = Self::calc_live_oracle_twap(
            amm.historical_oracle_data,
            oracle,
            now,
            amm.funding_period,
        );
        let delta = BigNum::from_i64(oracle.price).sub(&BigNum::from_i64(twap));
        Self::fits_i64(&delta) && Self::fits_i64(&delta.abs()) && Self::fits_i64(
            &since_start.add(&since_last),
        )
    }

    /// The long and short spreads of the AMM at `now` (read from the clock
    /// when `None`); `None` where the computation would panic.
    pub fn calc_spread(
        amm: &AMM,
        oracle: OraclePriceData,
        now: Option<i64>,
        reserve_price: Option<BigNum>,
    ) -> (r: Option<Spread>)
        ensures
            exists|t: i64|
                (now matches Some(n) ==> t == n) && #[trigger] spread_outcome(
                    *amm,
                    oracle,
                    t,
                    opt_value(reserve_price),
                    spread_values(r),
                ),
    {
        let t: i64 = match now {
            Some(n) => n,
            None => unix_now(),
        };
        let ghost rp = opt_value(reserve_price);
        let r = Self::calc_spread_at(amm, oracle, t, reserve_price);
        assert(spread_outcome(*amm, oracle, t, rp, spread_values(r)));
        r
    }

    /// The long and short spreads of the AMM at UNIX time `t`; `None` where
    /// the computation would panic.
    pub fn calc_spread_at(
        amm: &AMM,
        oracle: OraclePriceData,
        t: i64,
        reserve_price: Option<BigNum>,
    ) -> (r: Option<Spread>)
        ensures
            spread_outcome(*amm, oracle, t, opt_value(reserve_price), spread_values(r)),
    {
        if amm.base_spread == 0 || amm.curve_update_intensity == 0 {
            let half = BigNum::from_i128((amm.base_spread / 2) as i128);
            return Some(Spread { long_spread: half.copy(), short_spread: half });
        }
        let reserve_price = match reserve_price {
            Some(p) => p,
            None => {
                if amm.base_asset_reserve == 0 {
                    return None;
                }
                Self::calc_price(
                    BigNum::from_u128(amm.base_asset_reserve),
                    BigNum::from_u128(amm.quote_asset_reserve),
                    BigNum::from_u128(amm.peg_multiplier),
                )
            },
        };
        if reserve_price.eq(&BigNum::from_i128(0)) || amm.total_fee_minus_distributions == i128::MAX
        {
            return None;
        }
        if !Self::fits_i64(
            &BigNum::from_i64(t).sub(
                &BigNum::from_i64(amm.historical_oracle_data.last_oracle_price_twap_ts),
            ),
        ) {
            return None;
        }
        if !Self::live_oracle_std_fits(amm, oracle, t) {
            return None;
        }
        let target_mark_spread_pct = reserve_price.sub(&BigNum::from_i64(oracle.price)).mul(
            &BigNum::from_i64(BID_ASK_SPREAD_PRECISION_I64),
        ).div(&reserve_price);
        let live_oracle_std = Self::calc_live_oracle_std(amm, oracle, t);
        let conf_interval_pct = Self::new_oracle_conf_pct(amm, oracle, reserve_price.copy(), t);
        Some(
            Self::calc_spread_inner(
                amm,
                target_mark_spread_pct,
                conf_interval_pct,
                reserve_price,
                live_oracle_std,
            ),
        )
    }

    /// The reserves widened by `spread`.
    fn calc_spread_reserve(spread: BigNum, amm: &AMM) -> (r: Option<SpreadReserve>)
        ensures
            match r {
                Some(x) => spread_reserve_defined(*amm, spread.value()) && (
                x.base_asset_reserve.value(),
                x.quote_asset_reserve.value(),
            ) == spread_reserve(*amm, spread.value()),
                None => !spread_reserve_defined(*amm, spread.value()),
            },
    {
        if spread.eq(&BigNum::from_i128(0)) {
            return Some(
                SpreadReserve {
                    base_asset_reserve: BigNum::from_u128(amm.base_asset_reserve),
                    quote_asset_reserve: BigNum::from_u128(amm.quote_asset_reserve),
                },
            );
        }
        let mut spread_fraction = spread.div_i(2);
        if spread_fraction.eq(&BigNum::from_i128(0)) {
            spread_fraction = if spread.ge(&BigNum::from_i128(0)) {
                BigNum::from_i128(1)
            } else {
                BigNum::from_i128(-1)
            };
        }
        let quote_asset_reserve_delta = BigNum::from_u128(amm.quote_asset_reserve).div(
            &BigNum::from_u64(BID_ASK_SPREAD_PRECISION),
        ).div(&spread_fraction);
        let quote_asset_reserve = if quote_asset_reserve_delta.ge(&BigNum::from_i128(0)) {
            BigNum::from_u128(amm.quote_asset_reserve).add(&quote_asset_reserve_delta)
        } else {
            BigNum::from_u128(amm.quote_asset_reserve).sub(&quote_asset_reserve_delta)
        };
        if quote_asset_reserve.eq(&BigNum::from_i128(0)) {
            return None;
        }
        let base_asset_reserve = BigNum::from_u128(amm.sqrt_k).mul(
            &BigNum::from_u128(amm.sqrt_k),
        ).div(&quote_asset_reserve);
        Some(SpreadReserve { base_asset_reserve, quote_asset_reserve })
    }

    /// The bid and ask reserves of the AMM at `now` (read from the clock when
    /// `None`); `None` where the computation would panic.
    pub fn calc_spread_reserves(amm: &AMM, oracle: OraclePriceData, now: Option<i64>) -> (r:
        Option<SpreadReserves>)
        ensures
            exists|t: i64|
                (now matches Some(n) ==> t == n) && #[trigger] spread_reserves_outcome(
                    *amm,
                    oracle,
                    t,
                    reserves_values(r),
                ),
    {
        let t: i64 = match now {
            Some(n) => n,
            None => unix_now(),
        };
        let r = Self::calc_spread_reserves_at(amm, oracle, t);
        assert(spread_reserves_outcome(*amm, oracle, t, reserves_values(r)));
        r
    }

    /// The bid and ask reserves of the AMM at UNIX time `t`; `None` where the
    /// computation would panic.
    pub fn calc_spread_reserves_at(amm: &AMM, oracle: OraclePriceData, t: i64) -> (r: Option<
        SpreadReserves,
    >)
        ensures
            spread_reserves_outcome(*amm, oracle, t, reserves_values(r)),
    {
        if amm.base_asset_reserve == 0 {
            return None;
        }
        let reserve_price = Self::calc_price(
            BigNum::from_u128(amm.base_asset_reserve),
            BigNum::from_u128(amm.quote_asset_reserve),
            BigNum::from_u128(amm.peg_multiplier),
        );
        let mut reference_price_offset = BigNum::from_i128(0);
        if amm.curve_update_intensity > 100 {
            let other = BigNum::from_u128(PERCENTAGE_PRECISION / 10_000).mul(
                &BigNum::from_i128(amm.curve_update_intensity as i128).sub(
                    &BigNum::from_i128(100),
                ),
            );
            let max_offset = BigNum::from_i128(amm.max_spread as i128).div_i(5).max(&other);
            let liq_frac = Self::calc_inventory_liquidity_ratio(
                BigNum::from_i128(amm.base_asset_amount_with_amm),
                BigNum::from_u128(amm.base_asset_reserve),
                BigNum::from_u128(amm.min_base_asset_reserve),
                BigNum::from_u128(amm.max_base_asset_reserve),
            );
            let sig = Self::sig_num(
                BigNum::from_i128(amm.base_asset_amount_with_amm).add(
                    &BigNum::from_i128(amm.base_asset_amount_with_unsettled_lp),
                ),
            );
            let liq_frac_signed = liq_frac.mul_i(sig as i128);
            reference_price_offset = Self::calc_reference_point_offset(
                amm,
                reserve_price.copy(),
                liq_frac_signed,
                max_offset,
            );
        }
        let spread = match Self::calc_spread_at(amm, oracle, t, Some(reserve_price)) {
            Some(s) => s,
            None => return None,
        };
        let Spread { long_spread, short_spread } = spread;
        let ask_reserves = match Self::calc_spread_reserve(
            long_spread.add(&reference_price_offset),
            amm,
        ) {
            Some(x) => x,
            None => return None,
        };
        let bid_reserves = match Self::calc_spread_reserve(
            short_spread.mul_i(-1).add(&reference_price_offset),
            amm,
        ) {
            Some(x) => x,
            None => return None,
        };
        Some(SpreadReserves { bid_reserves, ask_reserves })
    }


    pub fn calc_optimal_peg_and_budget(amm: &AMM, oracle: OraclePriceData) -> (r:
        OptimalPegAndBudget)
        requires
            new_amm_defined(*amm),
        ensures
            (r.target_price.value(), r.new_peg.value(), r.budget.value(), r.check_lower_bound)
                == optimal_peg_and_budget(*amm, oracle),
    {
        let bar = BigNum::from_u128(amm.base_asset_reserve);
        let qar = BigNum::from_u128(amm.quote_asset_reserve);
        let reserve_price_before = Self::calc_price(
            bar.copy(),
            qar.copy(),
            BigNum::from_u128(amm.peg_multiplier),
        );
        let target_price = oracle.price;
        let new_peg = Self::calc_peg_from_target_price(
            BigNum::from_i64(target_price),
            bar.copy(),
            qar.copy(),
        );
        let pre_peg_cost = Self::calc_repeg_cost(amm, new_peg.copy());
        let total_fee_lb = BigNum::from_u128(amm.total_exchange_fee).div_i(2);
        let budget = BigNum::from_i128(amm.total_fee_minus_distributions).sub(&total_fee_lb).max(
            &BigNum::from_i128(0),
        );
        let mut check_lower_bound = true;
        if budget.lt(&pre_peg_cost) {
            let half_max_price_spread = BigNum::from_i128(amm.max_spread as i128).div_i(2).mul(
                &BigNum::from_i64(target_price),
            ).div(&BigNum::from_u64(BID_ASK_SPREAD_PRECISION));
            let target_price_gap = reserve_price_before.sub(&BigNum::from_i64(target_price));
            if target_price_gap.abs().gt(&half_max_price_spread) {
                let mark_adj = target_price_gap.abs().sub(&half_max_price_spread);
                let new_target_price = if target_price_gap.lt(&BigNum::from_i128(0)) {
                    reserve_price_before.add(&mark_adj)
                } else {
                    reserve_price_before.sub(&mark_adj)
                };
                let new_optimal_peg = Self::calc_peg_from_target_price(
                    new_target_price.copy(),
                    bar,
                    qar,
                );
                let new_budget = Self::calc_repeg_cost(amm, new_optimal_peg.copy());
                check_lower_bound = false;
                return OptimalPegAndBudget {
                    target_price: new_target_price,
                    new_peg: new_optimal_peg,
                    budget: new_budget,
                    check_lower_bound,
                };
            } else if amm.total_fee_minus_distributions < (amm.total_exchange_fee / 2) as i128 {
                check_lower_bound = false;
            }
        }
        OptimalPegAndBudget {
            target_price: BigNum::from_i64(target_price),
            new_peg,
            budget,
            check_lower_bound,
        }
    }

    pub fn calc_adjust_k_cost(amm: &AMM, num: BigNum, denom: BigNum) -> (r: BigNum)
        requires
            adjust_k_cost_defined(*amm, num.value(), denom.value()),
        ensures
            r.value() == adjust_k_cost(*amm, num.value(), denom.value()),
    {
        let x = BigNum::from_u128(amm.base_asset_reserve);
        let y = BigNum::from_u128(amm.quote_asset_reserve);
        let d = BigNum::from_i128(amm.base_asset_amount_with_amm);
        let q = BigNum::from_u128(amm.peg_multiplier);
        let quote_scale = y.mul(&d).mul(&q);
        let p = num.mul(&BigNum::from_i128(PRICE_PRECISION_I128)).div(&denom);
        let pct = BigNum::from_i128(PERCENTAGE_PRECISION_I128);
        let price = BigNum::from_i128(PRICE_PRECISION_I128);
        quote_scale.mul(&pct).mul(&pct).div(&x.add(&d)).sub(
            &quote_scale.mul(&p).mul(&pct).mul(&pct).div(&price).div(
                &x.mul(&p).div(&price).add(&d),
            ),
        ).div(&pct).div(&pct).div(&BigNum::from_i128(AMM_TO_QUOTE_PRECISION_RATIO_I128)).div(
            &BigNum::from_i128(PEG_PRECISION_I128),
        ).mul_i(-1)
    }

    pub fn calc_budgeted_peg(amm: &AMM, budget: BigNum, target_price: BigNum) -> (r: BigNum)
        requires
            budgeted_peg_defined(*amm),
        ensures
            r.value() == budgeted_peg(*amm, budget.value(), target_price.value()),
    {
        let mut per_peg_cost: u128 = (amm.quote_asset_reserve - amm.terminal_quote_asset_reserve)
            / (AMM_RESERVE_PRECISION / PRICE_PRECISION);
        proof {
            let diff = (amm.quote_asset_reserve - amm.terminal_quote_asset_reserve) as int;
            assert(diff / 1000 < u128::MAX) by (nonlinear_arith)
                requires
                    0 <= diff <= u128::MAX,
            ;
        }
        if per_peg_cost > 0 {
            per_peg_cost = per_peg_cost + 1;
        }
        let target_peg = target_price.mul(&BigNum::from_u128(amm.base_asset_reserve)).div(
            &BigNum::from_u128(amm.quote_asset_reserve),
        ).div(&BigNum::from_u128(PRICE_DIV_PEG));
        let peg_change_dir = target_peg.sub(&BigNum::from_u128(amm.peg_multiplier));
        let zero = BigNum::from_i128(0);
        let use_target_peg = per_peg_cost > 0 && peg_change_dir.lt(&zero);
        if per_peg_cost == 0 || use_target_peg {
            return target_peg;
        }
        let budget_delta_peg = budget.mul(&BigNum::from_u128(PEG_PRECISION)).div(
            &BigNum::from_u128(per_peg_cost),
        );
        BigNum::from_u128(amm.peg_multiplier).add(&budget_delta_peg).max(&BigNum::from_i128(1))
    }

    /// `amm` with base reserve and `sqrt_k` scaled by `num / denom`; `None`
    /// where a conversion back to `u128` or the `u128` arithmetic fails.
    fn scale_amm(amm: &AMM, num: &BigNum, denom: &BigNum) -> (r: Option<AMM>)
        ensures
            match r {
                Some(a) => scaled_amm_defined(*amm, num.value(), denom.value()) && a
                    == scaled_amm(*amm, num.value(), denom.value()),
                None => !scaled_amm_defined(*amm, num.value(), denom.value()),
            },
    {
        if denom.eq(&BigNum::from_i128(0)) {
            return None;
        }
        let base = match BigNum::from_u128(amm.base_asset_reserve).mul(num).div(denom).to_u128() {
            Some(v) => v,
            None => return None,
        };
        let sqrt_k = match BigNum::from_u128(amm.sqrt_k).mul(num).div(denom).to_u128() {
            Some(v) => v,
            None => return None,
        };
        let kk = match sqrt_k.checked_mul(sqrt_k) {
            Some(v) => v,
            None => return None,
        };
        if base == 0 {
            return None;
        }
        let mut a = *amm;
        a.base_asset_reserve = base;
        a.sqrt_k = sqrt_k;
        a.quote_asset_reserve = kk / base;
        Some(a)
    }

    /// The terminal quote reserve after closing `position` on `amm`.
    fn terminal_quote(amm: &AMM, position: i128) -> (r: Option<u128>)
        ensures
            match r {
                Some(t) => terminal_quote_defined(*amm, position as int) && t
                    == terminal_quote_after_close(*amm, position as int),
                None => !terminal_quote_defined(*amm, position as int),
            },
    {
        if position == i128::MIN {
            return None;
        }
        if amm.sqrt_k.checked_mul(amm.sqrt_k).is_none() {
            return None;
        }
        let close_dir = if position > 0 {
            PositionDirection::Short
        } else {
            PositionDirection::Long
        };
        let abs_position: i128 = if position < 0 {
            -position
        } else {
            position
        };
        let sd = Self::swap_direction(AssetType::Base, close_dir);
        let new_input = match sd {
            SwapDirection::Add => BigNum::from_u128(amm.base_asset_reserve).add_i(abs_position),
            SwapDirection::Remove => BigNum::from_u128(amm.base_asset_reserve).sub(
                &BigNum::from_i128(abs_position),
            ),
        };
        if new_input.eq(&BigNum::from_i128(0)) {
            return None;
        }
        let AmmReservesAfterSwap { new_quote_asset_reserve, .. } =
            Self::calc_amm_reserves_after_swap(
            amm,
            AssetType::Base,
            BigNum::from_i128(abs_position),
            sd,
        );
        new_quote_asset_reserve.to_u128()
    }

    /// The repeg cost, the `k` scale and the new peg; `None` where the
    /// computation would panic.
    pub fn calc_new_amm(amm: &AMM, oracle: OraclePriceData) -> (r: Option<NewAmm>)
        requires
            new_amm_defined(*amm),
        ensures
            match r {
                Some(x) => new_amm(*amm, oracle) == Some(
                    (x.pre_peg_cost.value(), x.pk_numer.value(), x.pk_denom.value(), x.new_peg.value()),
                ),
                None => new_amm(*amm, oracle) is None,
            },
    {
        let mut pk_numer = BigNum::from_i128(1);
        let mut pk_denom = BigNum::from_i128(1);
        let OptimalPegAndBudget { target_price, new_peg, budget, .. } =
            Self::calc_optimal_peg_and_budget(amm, oracle);
        let mut new_peg = new_peg;
        let mut pre_peg_cost = Self::calc_repeg_cost(amm, new_peg.copy());
        if pre_peg_cost.ge(&budget) && pre_peg_cost.gt(&BigNum::from_i128(0)) {
            pk_numer = BigNum::from_i128(999);
            pk_denom = BigNum::from_i128(1000);
            let x = BigNum::from_u128(amm.base_asset_reserve);
            let d = BigNum::from_i128(amm.base_asset_amount_with_amm);
            let p = pk_numer.mul(&BigNum::from_i128(PRICE_PRECISION_I128)).div(&pk_denom);
            if x.add(&d).eq(&BigNum::from_i128(0)) || x.mul(&p).div(
                &BigNum::from_i128(PRICE_PRECISION_I128),
            ).add(&d).eq(&BigNum::from_i128(0)) {
                return None;
            }
            let deficit_made_up = Self::calc_adjust_k_cost(amm, pk_numer.copy(), pk_denom.copy());
            if deficit_made_up.gt(&BigNum::from_i128(0)) {
                return None;
            }
            pre_peg_cost = budget.add(&deficit_made_up.abs());
            let a1 = match Self::scale_amm(amm, &pk_numer, &pk_denom) {
                Some(a) => a,
                None => return None,
            };
            let tq = match Self::terminal_quote(&a1, amm.base_asset_amount_with_amm) {
                Some(t) => t,
                None => return None,
            };
            let mut a2 = a1;
            a2.terminal_quote_asset_reserve = tq;
            if a2.quote_asset_reserve < a2.terminal_quote_asset_reserve
                || a2.quote_asset_reserve == 0 {
                return None;
            }
            new_peg = Self::calc_budgeted_peg(&a2, pre_peg_cost, target_price);
            pre_peg_cost = Self::calc_repeg_cost(&a2, new_peg.copy());
        }
        Some(NewAmm { pre_peg_cost, pk_numer, pk_denom, new_peg })
    }

    /// The AMM with its peg and `k` brought up to date with the oracle;
    /// `None` where the computation would panic.
    pub fn calc_updated_amm(amm: &AMM, oracle: OraclePriceData) -> (r: Option<AMM>)
        ensures
            r == updated_amm(*amm, oracle),
    {
        if amm.curve_update_intensity == 0 {
            return Some(*amm);
        }
        if amm.base_asset_reserve == 0 || amm.quote_asset_reserve == 0 {
            return None;
        }
        let NewAmm { pre_peg_cost, pk_numer, pk_denom, new_peg } = match Self::calc_new_amm(
            amm,
            oracle,
        ) {
            Some(x) => x,
            None => return None,
        };
        let scaled = match Self::scale_amm(amm, &pk_numer, &pk_denom) {
            Some(a) => a,
            None => return None,
        };
        let peg = match new_peg.to_u128() {
            Some(v) => v,
            None => return None,
        };
        let mut new_amm = scaled;
        new_amm.peg_multiplier = peg;
        let tq = match Self::terminal_quote(&new_amm, amm.base_asset_amount_with_amm) {
            Some(t) => t,
            None => return None,
        };
        new_amm.terminal_quote_asset_reserve = tq;
        let tfmd = match BigNum::from_i128(amm.total_fee_minus_distributions).sub(
            &pre_peg_cost,
        ).to_i128() {
            Some(v) => v,
            None => return None,
        };
        let rev_big = BigNum::from_i64(amm.net_revenue_since_last_funding).sub(&pre_peg_cost);
        if !Self::fits_i64(&rev_big) {
            return None;
        }
        let rev = match rev_big.to_i128() {
            Some(v) => v as i64,
            None => return None,
        };
        new_amm.total_fee_minus_distributions = tfmd;
        new_amm.net_revenue_since_last_funding = rev;
        Some(new_amm)
    }


    /// The reserves on the side of `dir` of the updated AMM at time `t`;
    /// `None` where the computation would panic.
    pub fn calc_updated_amm_spread_reserves(
        amm: &AMM,
        dir: PositionDirection,
        oracle: OraclePriceData,
        t: i64,
    ) -> (r: Option<UpdatedAmmSpreadReserves>)
        ensures
            match r {
                Some(x) => updated_amm_spread_reserves(*amm, dir, oracle, t as int) == Some(
                    (
                        x.base_asset_reserve.value(),
                        x.quote_asset_reserve.value(),
                        x.sqrt_k.value(),
                        x.new_peg.value(),
                    ),
                ),
                None => updated_amm_spread_reserves(*amm, dir, oracle, t as int) is None,
            },
    {
        let new_amm = match Self::calc_updated_amm(amm, oracle) {
            Some(a) => a,
            None => return None,
        };
        let SpreadReserves { bid_reserves: long_reserves, ask_reserves: short_reserves } =
            match Self::calc_spread_reserves_at(&new_amm, oracle, t) {
            Some(x) => x,
            None => return None,
        };
        let dir_reserves = match dir {
            PositionDirection::Long => long_reserves,
            PositionDirection::Short => short_reserves,
        };
        Some(
            UpdatedAmmSpreadReserves {
                base_asset_reserve: dir_reserves.base_asset_reserve,
                quote_asset_reserve: dir_reserves.quote_asset_reserve,
                sqrt_k: BigNum::from_u128(new_amm.sqrt_k),
                new_peg: BigNum::from_u128(new_amm.peg_multiplier),
            },
        )
    }

    /// The bid and ask prices in `PRICE_PRECISION` units at time `t`; `None`
    /// where the computation would panic.
    pub fn bid_ask_price_values(
        market: &PerpMarket,
        oracle: OraclePriceData,
        with_update: bool,
        t: i64,
    ) -> (r: Option<(BigNum, BigNum)>)
        ensures
            pair_values(r) == bid_ask_price_values(*market, oracle, with_update, t as int),
    {
        let amm = if with_update {
            match Self::calc_updated_amm(&market.amm, oracle) {
                Some(a) => a,
                None => return None,
            }
        } else {
            market.amm
        };
        let SpreadReserves { bid_reserves, ask_reserves } = match Self::calc_spread_reserves_at(
            &amm,
            oracle,
            t,
        ) {
            Some(x) => x,
            None => return None,
        };
        let zero = BigNum::from_i128(0);
        if bid_reserves.base_asset_reserve.eq(&zero) || ask_reserves.base_asset_reserve.eq(&zero) {
            return None;
        }
        let bid = Self::calc_price(
            bid_reserves.base_asset_reserve,
            bid_reserves.quote_asset_reserve,
            BigNum::from_u128(amm.peg_multiplier),
        );
        let ask = Self::calc_price(
            ask_reserves.base_asset_reserve,
            ask_reserves.quote_asset_reserve,
            BigNum::from_u128(amm.peg_multiplier),
        );
        Some((bid, ask))
    }

    /// The price on the side of `dir` after updating the AMM, in
    /// `PRICE_PRECISION` units at time `t`; `ask_price` takes the long side
    /// and `bid_price` the short side.
    pub fn side_price_value(
        market: &PerpMarket,
        dir: PositionDirection,
        oracle: OraclePriceData,
        t: i64,
    ) -> (r: Option<BigNum>)
        ensures
            opt_value(r) == side_price_value(*market, dir, oracle, t as int),
    {
        let UpdatedAmmSpreadReserves { base_asset_reserve, quote_asset_reserve, new_peg, .. } =
            match Self::calc_updated_amm_spread_reserves(&market.amm, dir, oracle, t) {
            Some(x) => x,
            None => return None,
        };
        if base_asset_reserve.eq(&BigNum::from_i128(0)) {
            return None;
        }
        Some(Self::calc_price(base_asset_reserve, quote_asset_reserve, new_peg))
    }

}

/// The inner spread calculation never widens the spreads past the maximum
/// target spread: when their sum exceeds it they are scaled down to it.
pub proof fn lemma_spread_within_max_target(
    amm: AMM,
    pct: int,
    conf: int,
    reserve: int,
    oracle_std: int,
)
    ensures
        spread_inner(amm, pct, conf, reserve, oracle_std).0 + spread_inner(
            amm,
            pct,
            conf,
            reserve,
            oracle_std,
        ).1 <= spread_terms(amm, pct, conf, reserve, oracle_std).2,
{
}

/// The reference price offset stays within the bound `m` that the maximum
/// offset gives at the reserve price, on either side.
pub proof fn lemma_reference_offset_bounded(
    amm: AMM,
    reserve: int,
    liquidity_fraction: int,
    max_offset_pct: int,
)
    ensures
        iabs(reference_point_offset(amm, reserve, liquidity_fraction, max_offset_pct)) <= iabs(
            tdiv(max_offset_pct * reserve, 1_000_000),
        ),
{
}

/// Bringing an AMM up to date moves its peg to the oracle when the budget
/// allows: with a curve update intensity, and when moving the peg all the
/// way costs nothing or less than the fee budget (the fees minus
/// distributions, less half the exchange fees), the updated AMM has the
/// peg `oracle price * base reserve / quote reserve` (at least 1), keeps
/// its base reserve and `sqrt_k`, takes `sqrt_k^2 / base` as its quote
/// reserve, and pays the cost out of its fees.
pub proof fn lemma_update_repegs_to_oracle(amm: AMM, oracle: OraclePriceData)
    requires
        amm.curve_update_intensity > 0,
        updated_amm(amm, oracle) is Some,
        ({
            let target_peg = imax(
                tdiv(oracle.price * amm.base_asset_reserve, amm.quote_asset_reserve as int),
                1,
            );
            let cost = tdiv(
                tdiv(
                    (amm.quote_asset_reserve - amm.terminal_quote_asset_reserve) * (target_peg
                        - amm.peg_multiplier),
                    1_000,
                ),
                1_000_000,
            );
            let budget = imax(
                amm.total_fee_minus_distributions - tdiv(amm.total_exchange_fee as int, 2),
                0,
            );
            cost <= 0 || cost < budget
        }),
    ensures
        ({
            let target_peg = imax(
                tdiv(oracle.price * amm.base_asset_reserve, amm.quote_asset_reserve as int),
                1,
            );
            let cost = tdiv(
                tdiv(
                    (amm.quote_asset_reserve - amm.terminal_quote_asset_reserve) * (target_peg
                        - amm.peg_multiplier),
                    1_000,
                ),
                1_000_000,
            );
            let a = updated_amm(amm, oracle)->Some_0;
            &&& a.peg_multiplier == target_peg
            &&& a.base_asset_reserve == amm.base_asset_reserve
            &&& a.sqrt_k == amm.sqrt_k
            &&& a.quote_asset_reserve == (amm.sqrt_k * amm.sqrt_k) / (amm.base_asset_reserve as int)
            &&& a.total_fee_minus_distributions == amm.total_fee_minus_distributions - cost
        }),
{
    assert(tdiv(amm.base_asset_reserve * 1, 1) == amm.base_asset_reserve);
    assert(tdiv(amm.sqrt_k * 1, 1) == amm.sqrt_k);
    let t = tdiv(oracle.price * amm.base_asset_reserve, amm.quote_asset_reserve as int);
    assert(tdiv(t + 0, 1) == t);
}

/// The gap between the reserve price and the oracle widens the side it
/// points to. For an AMM without inventory whose revenue has not fallen
/// into the retreat and whose spreads stay under the target maximum: a
/// reserve price above the oracle (a positive gap) makes the short spread
/// at least the gap plus the short volatility spread and leaves the long
/// spread at the larger of half the base spread and the long volatility
/// spread (times 10 when the AMM has no fees); a reserve price below the
/// oracle does the same with the sides swapped, the short side scaled by
/// the leverage factor.
pub proof fn lemma_spread_gap_side(amm: AMM, pct: int, conf: int, reserve: int, oracle_std: int)
    requires
        amm.base_asset_amount_with_amm == 0,
        amm.net_revenue_since_last_funding >= -25_000_000,
        spread_terms(amm, pct, conf, reserve, oracle_std).0 + spread_terms(amm, pct, conf, reserve, oracle_std).1
            <= spread_terms(amm, pct, conf, reserve, oracle_std).2,
    ensures
        ({
            let (lv, sv) = vol_spread(
                conf,
                reserve,
                amm.mark_std as int,
                oracle_std,
                amm.long_intensity_volume as int,
                amm.short_intensity_volume as int,
                amm.volume24h as int,
            );
            let half = amm.base_spread / 2;
            let long_scale: int = if amm.total_fee_minus_distributions > 0 {
                1
            } else {
                10
            };
            let short_scale: int = if amm.total_fee_minus_distributions > 0 {
                imin(10, 1 + effective_leverage(amm, reserve))
            } else {
                10
            };
            let (long, short) = spread_inner(amm, pct, conf, reserve, oracle_std);
            &&& pct > 0 ==> short >= iabs(pct) + sv && long == imax(half as int, lv) * long_scale
            &&& pct < 0 ==> long >= iabs(pct) + lv && short == imax(half as int, sv) * short_scale
        }),
{
    let (lv, sv) = vol_spread(
        conf,
        reserve,
        amm.mark_std as int,
        oracle_std,
        amm.long_intensity_volume as int,
        amm.short_intensity_volume as int,
        amm.volume24h as int,
    );
    let half_base = tdiv(amm.base_spread as int, 2);
    assert(half_base == amm.base_spread / 2);
    let l0 = imax(half_base, lv);
    let s0 = imax(half_base, sv);
    let lev = effective_leverage(amm, reserve);
    let net_base_value = tdiv(
        (amm.quote_asset_reserve - amm.terminal_quote_asset_reserve) * amm.peg_multiplier,
        1_000_000_000,
    );
    let local_base_value = tdiv(amm.base_asset_amount_with_amm * reserve, 1_000_000_000);
    let gap = imax(0, local_base_value - net_base_value);
    let den = imax(0, amm.total_fee_minus_distributions as int) + 1;
    assert(tdiv(gap, den) >= 0);
    assert(lev >= 0);
    let scale = if amm.total_fee_minus_distributions > 0 {
        imin(10, 1 + lev)
    } else {
        10
    };
    assert(scale >= 1);
    if pct > 0 {
        let s1 = imax(s0, iabs(pct) + sv);
        assert(s1 >= 0);
        assert(s1 * scale >= s1) by (nonlinear_arith)
            requires
                s1 >= 0,
                scale >= 1,
        ;
    } else if pct < 0 {
        let l1 = imax(l0, iabs(pct) + lv);
        assert(l1 >= 0);
        assert(l1 * 10 >= l1);
    }
}

/// An AMM whose curve is never updated comes out of the update unchanged.
pub proof fn lemma_no_update_without_intensity(amm: AMM, oracle: OraclePriceData)
    requires
        amm.curve_update_intensity == 0,
    ensures
        updated_amm(amm, oracle) == Some(amm),
{
}

} // verus!
