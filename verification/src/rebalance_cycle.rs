//! One account's rebalance, in two steps around the auctions' minimum amounts
//! (which are queried for the tokens to sell): first the account is valued,
//! paused if too small, its minimum balance enforced and the controller run;
//! then the trades are built within the account's selling limit.
use vstd::prelude::*;
use crate::chain::{Pair, Timestamp};
use crate::decimal::{Decimal, unit, mul_atomics};
use crate::fixed_i128::FixedI128;
use crate::rebalance::{
    TargetHelper, dt_atomics, get_inputs, inputs_scan, inputs_sum_fits, prices_known, pid_apply,
    pid_buys, pid_convert, pid_first_error, pid_in_range, pid_sells, rebalance_dt, updated_target,
    update_targets_last, verify_account_balance, do_pid, min_amounts_scan, set_auction_min_amounts,
};
use crate::rebalancer::{BaseDenom, ContractError, ParsedTarget, RebalancerConfig};
use crate::target_override::{verify_targets, verify_targets_fits, verify_targets_result};
use crate::trades::{AuctionFundsMsg, RebalanceTrade, generate_trades_msgs, trades_result, trades_safe};

verus! {

/// The minimum account value of the base denomination `base`: that of its
/// first entry in the whitelist, zero if it has none.
pub open spec fn base_min_from(min_values: Seq<BaseDenom>, base: Seq<char>, k: int) -> int
    decreases min_values.len() - k,
{
    if k < 0 || k >= min_values.len() {
        0
    } else if min_values[k].denom@ == base {
        min_values[k].min_balance_limit as int
    } else {
        base_min_from(min_values, base, k + 1)
    }
}

fn find_base_min(min_values: &Vec<BaseDenom>, base: &String) -> (r: u128)
    ensures
        r == base_min_from(min_values@, base@, 0),
{
    let mut k: usize = 0;
    while k < min_values.len()
        invariant
            0 <= k <= min_values.len(),
            base_min_from(min_values@, base@, 0) == base_min_from(min_values@, base@, k as int),
        decreases min_values.len() - k,
    {
        if min_values[k].denom == *base {
            return min_values[k].min_balance_limit;
        }
        k = k + 1;
    }
    0
}

/// The plan of an account's rebalance.
#[derive(Clone, Debug, PartialEq, Eq)]
pub enum RebalancePlan {
    /// The account's value is zero or below its minimum: it is to be paused.
    Pause { total_value: Decimal },
    /// The controller ran: the targets with its memory, the account's value,
    /// and the tokens to sell and to buy.
    Trade {
        targets: Vec<ParsedTarget>,
        total_value: Decimal,
        to_sell: Vec<TargetHelper>,
        to_buy: Vec<TargetHelper>,
    },
}

/// The targets after the controller, in the account's order.
pub open spec fn pid_applied(total: Decimal, hs: Seq<TargetHelper>, config: RebalancerConfig, dt: int) -> Seq<TargetHelper> {
    hs.map_values(|h: TargetHelper| pid_apply(total, h, config.pid, dt))
}

/// The stored targets keeping the controller's memory.
pub open spec fn remembered(targets: Seq<ParsedTarget>, applied: Seq<TargetHelper>) -> Seq<ParsedTarget> {
    targets.map_values(|t: ParsedTarget| updated_target(t, applied, 0))
}

/// The account is too small to rebalance: its value in whole base units is
/// zero or below the minimum.
pub open spec fn too_small(total: int, min_value: int) -> bool {
    total / unit() == 0 || total / unit() < min_value
}

/// The helpers the controller runs on: after the minimum balance override
/// where the account has a minimum balance target.
pub open spec fn controlled_helpers(config: RebalancerConfig, total: int, hs: Seq<TargetHelper>) -> Result<Seq<TargetHelper>, ContractError> {
    if config.has_min_balance {
        verify_targets_result(config.target_override_strategy, Decimal { atomics: total as u128 }, hs)
    } else {
        Ok(hs)
    }
}

/// The controller's time step, or the error of computing it.
pub open spec fn plan_dt(config: RebalancerConfig, now: Timestamp, cycle_period: u64) -> Result<int, ContractError> {
    if config.last_rebalance.spec_seconds() != 0 && cycle_period == 0 {
        Err(ContractError::CheckedFromRatioError)
    } else {
        Ok(dt_atomics(config.last_rebalance.spec_seconds(), now.spec_seconds(), cycle_period as int))
    }
}

/// What `plan_rebalance` yields: `Ok(None)` to pause, with the account's
/// value; else the remembered targets, the value, and the tokens to sell and
/// to buy.
pub open spec fn plan_spec(
    config: RebalancerConfig,
    now: Timestamp,
    cycle_period: u64,
    min_values: Seq<BaseDenom>,
    prices: Seq<(Pair, Decimal)>,
    balances: Seq<Result<u128, String>>,
) -> Result<(int, Option<(Seq<ParsedTarget>, Seq<TargetHelper>, Seq<TargetHelper>)>), ContractError> {
    match inputs_scan(config, prices, balances, config.targets.len() as int) {
        Err(e) => Err(e),
        Ok((total, hs)) => if too_small(total, base_min_from(min_values, config.base_denom@, 0)) {
            Ok((total, None))
        } else {
            match controlled_helpers(config, total, hs) {
                Err(e) => Err(e),
                Ok(hs2) => match plan_dt(config, now, cycle_period) {
                    Err(e) => Err(e),
                    Ok(dt) => {
                        let tv = Decimal { atomics: total as u128 };
                        match pid_first_error(tv, hs2, hs2.len() as int) {
                            Some(e) => Err(e),
                            None => Ok(
                                (
                                    total,
                                    Some(
                                        (
                                            remembered(config.targets@, pid_applied(tv, hs2, config, dt)),
                                            pid_sells(tv, hs2, config.pid, dt, hs2.len() as int),
                                            pid_buys(tv, hs2, config.pid, dt, hs2.len() as int),
                                        ),
                                    ),
                                ),
                            ),
                        }
                    },
                },
            }
        },
    }
}

/// The arithmetic of a plan stays in range: the minimum balance override
/// where it runs, a non-zero time step, coefficients that fit signed, and the
/// controller's terms for every target.
pub open spec fn plan_fits(
    config: RebalancerConfig,
    now: Timestamp,
    cycle_period: u64,
    min_values: Seq<BaseDenom>,
    prices: Seq<(Pair, Decimal)>,
    balances: Seq<Result<u128, String>>,
) -> bool {
    &&& balances.len() == config.targets.len()
    &&& prices_known(config, prices)
    &&& inputs_sum_fits(config, prices, balances)
    &&& config.last_rebalance.spec_seconds() <= now.spec_seconds()
    &&& config.pid.p.atomics <= i128::MAX
    &&& config.pid.i.atomics <= i128::MAX
    &&& config.pid.d.atomics <= i128::MAX
    &&& inputs_scan(config, prices, balances, config.targets.len() as int) matches Ok((total, hs)) ==> {
        &&& config.has_min_balance ==> verify_targets_fits(
            config.target_override_strategy,
            Decimal { atomics: total as u128 },
            hs,
        )
        &&& plan_dt(config, now, cycle_period) matches Ok(dt) ==> dt != 0
        &&& controlled_helpers(config, total, hs) matches Ok(hs2) ==> plan_dt(config, now, cycle_period) matches Ok(dt)
            ==> forall|j: int|
            0 <= j < hs2.len() ==> (#[trigger] pid_convert(Decimal { atomics: total as u128 }, hs2[j])) is Ok
                ==> pid_in_range(Decimal { atomics: total as u128 }, hs2[j], config.pid, dt)
        &&& controlled_helpers(config, total, hs) matches Ok(hs2) ==> plan_dt(config, now, cycle_period) matches Ok(_)
            ==> forall|j: int|
            0 <= j < hs2.len() && pid_first_error(Decimal { atomics: total as u128 }, hs2, j) is None
                && (#[trigger] hs2[j]).balance_value.atomics <= i128::MAX ==> mul_atomics(
                total,
                hs2[j].target.percentage.atomics as int,
            ) <= u128::MAX
    }
}

/// Plans an account's rebalance from its balances (one per target, as
/// queried), the prices of its targets against its base denomination, and
/// the base denominations' minimum values.
pub fn plan_rebalance(
    config: &RebalancerConfig,
    now: Timestamp,
    cycle_period: u64,
    min_values: &Vec<BaseDenom>,
    prices: &Vec<(Pair, Decimal)>,
    balances: &Vec<Result<u128, String>>,
) -> (r: Result<RebalancePlan, ContractError>)
    requires
        plan_fits(*config, now, cycle_period, min_values@, prices@, balances@),
    ensures
        match plan_spec(*config, now, cycle_period, min_values@, prices@, balances@) {
            Err(e) => r == Err::<RebalancePlan, ContractError>(e),
            Ok((total, None)) => r matches Ok(RebalancePlan::Pause { total_value }) && total_value.atomics == total,
            Ok((total, Some((targets, sells, buys)))) => r matches Ok(RebalancePlan::Trade { targets: t, total_value, to_sell, to_buy })
                && t@ == targets && total_value.atomics == total && to_sell@ == sells && to_buy@ == buys,
        },
{
    let (total, helpers) = match get_inputs(config, prices, balances) {
        Ok(x) => x,
        Err(e) => {
            return Err(e);
        },
    };
    let min_value = find_base_min(min_values, &config.base_denom);
    if verify_account_balance(total.to_uint_floor(), min_value).is_err() {
        return Ok(RebalancePlan::Pause { total_value: total });
    }
    let helpers = if config.has_min_balance {
        match verify_targets(config.target_override_strategy, total, helpers) {
            Ok(h) => h,
            Err(e) => {
                return Err(e);
            },
        }
    } else {
        helpers
    };
    let dt = match rebalance_dt(config.last_rebalance, now, cycle_period) {
        Ok(d) => d,
        Err(e) => {
            return Err(e);
        },
    };
    proof {
        assert(dt.atomics <= 10 * unit());
    }
    let dt_signed = FixedI128 { atomics: dt.atomics as i128 };
    let mut helpers = helpers;
    let ghost hs2 = helpers@;
    let (to_sell, to_buy) = match do_pid(total, &mut helpers, config.pid, dt_signed) {
        Ok(x) => x,
        Err(e) => {
            return Err(e);
        },
    };
    proof {
        assert(helpers@ =~= pid_applied(total, hs2, *config, dt.atomics as int));
    }
    let mut targets = clone_targets(&config.targets);
    update_targets_last(&mut targets, &helpers);
    proof {
        assert(targets@ =~= remembered(config.targets@, helpers@));
    }
    Ok(RebalancePlan::Trade { targets, total_value: total, to_sell, to_buy })
}

fn clone_targets(ts: &Vec<ParsedTarget>) -> (r: Vec<ParsedTarget>)
    ensures
        r@ == ts@,
{
    let mut out: Vec<ParsedTarget> = Vec::new();
    let mut k: usize = 0;
    while k < ts.len()
        invariant
            0 <= k <= ts.len(),
            out@ == ts@.take(k as int),
        decreases ts.len() - k,
    {
        out.push(crate::rebalance::copy_target(&ts[k]));
        proof {
            assert(ts@.take(k as int + 1) =~= ts@.take(k as int).push(ts@[k as int]));
        }
        k = k + 1;
    }
    proof {
        assert(ts@.take(ts@.len() as int) =~= ts@);
    }
    out
}

/// The value the account allows to be sold this cycle.
pub open spec fn max_sell_of(config: RebalancerConfig, total: Decimal) -> int {
    mul_atomics(config.max_limit.atomics as int, total.atomics as int)
}

/// Builds the account's trades from a plan: the auctions' minimum amounts are
/// set on the tokens to sell (from the cache, else as queried, one entry per
/// token to sell), then sold tokens are matched with bought ones within the
/// account's limit. The configuration records this rebalance's time and the
/// controller's memory.
pub fn trade_rebalance(
    config: RebalancerConfig,
    targets: Vec<ParsedTarget>,
    total_value: Decimal,
    to_sell: Vec<TargetHelper>,
    to_buy: Vec<TargetHelper>,
    min_amount_limits: &mut Vec<(String, u128)>,
    queried: &Vec<Result<Option<u128>, String>>,
    pairs: &Vec<(Pair, String)>,
    now: Timestamp,
) -> (r: Result<(RebalancerConfig, Vec<AuctionFundsMsg>, Vec<RebalanceTrade>), ContractError>)
    requires
        queried.len() == to_sell.len(),
        max_sell_of(config, total_value) <= u128::MAX,
        min_amounts_scan(old(min_amount_limits)@, to_sell@, queried@, to_sell.len() as int) matches Ok((sells, _))
            ==> trades_safe(config.has_min_balance, sells, to_buy@, max_sell_of(config, total_value), pairs@),
    ensures
        match min_amounts_scan(old(min_amount_limits)@, to_sell@, queried@, to_sell.len() as int) {
            Err(e) => r == Err::<(RebalancerConfig, Vec<AuctionFundsMsg>, Vec<RebalanceTrade>), ContractError>(e),
            Ok((sells, cache)) => r matches Ok((c, msgs, trades)) && {
                &&& final(min_amount_limits)@ == cache
                &&& c == (RebalancerConfig { targets: targets, last_rebalance: now, ..config })
                &&& (msgs@, trades@) == trades_result(config.has_min_balance, sells, to_buy@, max_sell_of(config, total_value), pairs@)
            },
        },
{
    let mut to_sell = to_sell;
    match set_auction_min_amounts(&mut to_sell, min_amount_limits, queried) {
        Ok(()) => {},
        Err(e) => {
            return Err(e);
        },
    }
    let max_sell = config.max_limit.mul(total_value);
    let (msgs, trades) = generate_trades_msgs(to_sell, to_buy, pairs, config.has_min_balance, max_sell);
    let mut config = config;
    config.targets = targets;
    config.last_rebalance = now;
    Ok((config, msgs, trades))
}

} // verus!
