//! One rebalance cycle: when a cycle may run and which accounts it visits, the
//! value of each account's targets, the PID controller, the minimum balance
//! override, and the trades sent to the auctions.
use vstd::prelude::*;
use crate::chain::{Pair, Timestamp};
use crate::decimal::{Decimal, unit, mul_atomics, div_atomics, div_fits};
use crate::fixed_i128::{FixedI128, div_trunc, in_i128, smul_atomics, sdiv_atomics};
use crate::rebalancer::{
    ContractError, DEFAULT_SYSTEM_LIMIT, MAX_PID_DT_VALUE, ParsedPID, ParsedTarget,
    RebalancerConfig, TargetOverrideStrategy,
};
use crate::rebalancer_admin::SystemRebalanceStatus;
use crate::services::start_of_cycle;

verus! {

/// Where a system rebalance begins: the account to continue after (if any),
/// the start of the cycle, and the prices to use if they were fetched already.
#[derive(Clone, Debug, PartialEq, Eq)]
pub struct CycleBegin {
    pub limit: u64,
    pub start_from: Option<String>,
    pub cycle_start: Timestamp,
    pub prices: Option<Vec<(Pair, Decimal)>>,
}

/// `t` plus `s` seconds fits the timestamp range.
pub open spec fn plus_fits(t: Timestamp, s: u64) -> bool {
    t.nanos as int + s as int * 1_000_000_000 <= u64::MAX
}

/// A run at `now` starts a new cycle from the cycle `now` falls in: the first
/// cycle once its start has come, or after a cycle under way outlived its
/// period.
pub open spec fn begins_new_cycle(status: SystemRebalanceStatus, now: Timestamp, cycle_period: u64) -> bool {
    match status {
        SystemRebalanceStatus::NotStarted { cycle_start } => now.nanos >= cycle_start.nanos,
        SystemRebalanceStatus::Processing { cycle_started, .. } => now.nanos >= cycle_started.nanos
            + cycle_period * 1_000_000_000,
        SystemRebalanceStatus::Finished { .. } => false,
    }
}

/// Decides whether a system rebalance may run now, and from where: a new
/// cycle starts once the previous one is finished and its time has come, or
/// when a cycle under way has outlived its period; otherwise the cycle under
/// way goes on after the last account it visited.
pub fn begin_system_rebalance(
    status: SystemRebalanceStatus,
    now: Timestamp,
    cycle_period: u64,
    limit: Option<u64>,
) -> (r: Result<CycleBegin, ContractError>)
    requires
        begins_new_cycle(status, now, cycle_period) ==> cycle_period > 0,
        status matches SystemRebalanceStatus::Processing { cycle_started, .. } ==> plus_fits(
            cycle_started,
            cycle_period,
        ),
    ensures
        limit == Some(0u64) ==> r == Err::<CycleBegin, ContractError>(ContractError::LimitIsZero),
        limit != Some(0u64) ==> match status {
            SystemRebalanceStatus::NotStarted { cycle_start } => if now.nanos < cycle_start.nanos {
                r == Err::<CycleBegin, ContractError>(
                    ContractError::CycleNotStartedYet(cycle_start.spec_seconds() as u64),
                )
            } else {
                r matches Ok(b) && b.start_from is None && b.prices is None && b.cycle_start.nanos
                    == now.nanos - (now.spec_seconds() % cycle_period as int) * 1_000_000_000
            },
            SystemRebalanceStatus::Processing { cycle_started, start_from, prices } => if now.nanos
                >= cycle_started.nanos + cycle_period * 1_000_000_000 {
                r matches Ok(b) && b.start_from is None && b.prices is None && b.cycle_start.nanos
                    == now.nanos - (now.spec_seconds() % cycle_period as int) * 1_000_000_000
            } else {
                r matches Ok(b) && b.start_from == Some(start_from) && b.prices == Some(prices)
                    && b.cycle_start == cycle_started
            },
            SystemRebalanceStatus::Finished { next_cycle } => if now.nanos < next_cycle.nanos {
                r == Err::<CycleBegin, ContractError>(
                    ContractError::CycleNotStartedYet(next_cycle.spec_seconds() as u64),
                )
            } else {
                r matches Ok(b) && b.start_from is None && b.prices is None && b.cycle_start
                    == next_cycle
            },
        },
        r matches Ok(b) ==> b.limit == match limit {
            Some(l) => l,
            None => DEFAULT_SYSTEM_LIMIT,
        },
{
    let limit = match limit {
        Some(l) => l,
        None => DEFAULT_SYSTEM_LIMIT,
    };
    if limit == 0 {
        return Err(ContractError::LimitIsZero);
    }
    match status {
        SystemRebalanceStatus::NotStarted { cycle_start } => {
            if now.nanos < cycle_start.nanos {
                Err(ContractError::CycleNotStartedYet(cycle_start.seconds()))
            } else {
                Ok(CycleBegin {
                    limit,
                    start_from: None,
                    cycle_start: start_of_cycle(now, cycle_period),
                    prices: None,
                })
            }
        },
        SystemRebalanceStatus::Processing { cycle_started, start_from, prices } => {
            if now.nanos >= cycle_started.plus_seconds(cycle_period).nanos {
                Ok(CycleBegin {
                    limit,
                    start_from: None,
                    cycle_start: start_of_cycle(now, cycle_period),
                    prices: None,
                })
            } else {
                Ok(CycleBegin {
                    limit,
                    start_from: Some(start_from),
                    cycle_start: cycle_started,
                    prices: Some(prices),
                })
            }
        },
        SystemRebalanceStatus::Finished { next_cycle } => {
            if now.nanos < next_cycle.nanos {
                Err(ContractError::CycleNotStartedYet(next_cycle.seconds()))
            } else {
                Ok(CycleBegin { limit, start_from: None, cycle_start: next_cycle, prices: None })
            }
        },
    }
}

/// How many of the fetched accounts a run visits: at most `limit` (one more
/// than the limit is fetched to learn whether accounts remain).
pub fn visit_count(fetched: u64, limit: u64) -> (r: u64)
    ensures
        r == if fetched > limit {
            limit
        } else {
            fetched
        },
{
    if fetched > limit {
        limit
    } else {
        fetched
    }
}

/// The status after a run: finished, with the next cycle one period after the
/// start of this one, if every remaining account was visited; otherwise still
/// processing, to continue after the last account visited.
pub fn end_system_rebalance(
    fetched: u64,
    limit: u64,
    cycle_start: Timestamp,
    cycle_period: u64,
    last_visited: Option<String>,
    prices: Vec<(Pair, Decimal)>,
) -> (r: SystemRebalanceStatus)
    requires
        plus_fits(cycle_start, cycle_period),
        fetched > limit ==> last_visited is Some,
    ensures
        fetched <= limit ==> (r matches SystemRebalanceStatus::Finished { next_cycle } && next_cycle.nanos
            == cycle_start.nanos + cycle_period * 1_000_000_000),
        fetched > limit ==> r == (SystemRebalanceStatus::Processing {
            cycle_started: cycle_start,
            start_from: last_visited.unwrap(),
            prices,
        }),
{
    if fetched <= limit {
        SystemRebalanceStatus::Finished { next_cycle: cycle_start.plus_seconds(cycle_period) }
    } else {
        SystemRebalanceStatus::Processing {
            cycle_started: cycle_start,
            start_from: last_visited.unwrap(),
            prices,
        }
    }
}

/// An account may be rebalanced only if its value is not zero and reaches the
/// minimum of its base denomination.
pub fn verify_account_balance(total_value: u128, min_value: u128) -> (r: Result<(), ContractError>)
    ensures
        total_value == 0 ==> r == Err::<(), ContractError>(ContractError::AccountBalanceIsZero),
        total_value != 0 && total_value < min_value ==> r == Err::<(), ContractError>(
            ContractError::InvalidAccountMinValue(total_value, min_value),
        ),
        total_value != 0 && total_value >= min_value ==> r is Ok,
{
    if total_value == 0 {
        return Err(ContractError::AccountBalanceIsZero);
    }
    if total_value < min_value {
        return Err(ContractError::InvalidAccountMinValue(total_value, min_value));
    }
    Ok(())
}

/// The controller's time step, in cycles: one on the first rebalance, else the
/// seconds since the last rebalance over the cycle period, at most ten.
pub open spec fn dt_atomics(last_secs: int, now_secs: int, cycle_period: int) -> int {
    if last_secs == 0 {
        unit()
    } else {
        let q = div_atomics((now_secs - last_secs) * unit(), cycle_period * unit());
        if q <= MAX_PID_DT_VALUE * unit() {
            q
        } else {
            MAX_PID_DT_VALUE * unit()
        }
    }
}

/// Computes the controller's time step.
pub fn rebalance_dt(last_rebalance: Timestamp, now: Timestamp, cycle_period: u64) -> (r: Result<
    Decimal,
    ContractError,
>)
    requires
        last_rebalance.spec_seconds() <= now.spec_seconds(),
    ensures
        last_rebalance.spec_seconds() != 0 && cycle_period == 0 ==> r == Err::<Decimal, ContractError>(
            ContractError::CheckedFromRatioError,
        ),
        !(last_rebalance.spec_seconds() != 0 && cycle_period == 0) ==> (r matches Ok(d) && d.atomics
            == dt_atomics(last_rebalance.spec_seconds(), now.spec_seconds(), cycle_period as int)),
{
    let last = last_rebalance.seconds();
    if last == 0 {
        return Ok(Decimal::one());
    }
    let now_s = now.seconds();
    let diff = match Decimal::from_uint((now_s - last) as u128) {
        Ok(d) => d,
        Err(_) => {
            return Err(ContractError::DecimalRangeExceeded);
        },
    };
    let period = match Decimal::from_uint(cycle_period as u128) {
        Ok(d) => d,
        Err(_) => {
            return Err(ContractError::DecimalRangeExceeded);
        },
    };
    proof {
        crate::decimal::lemma_u64_whole_fits((now_s - last) as u64);
        crate::decimal::lemma_u64_whole_fits(cycle_period);
    }
    let q = match diff.checked_div(period) {
        Some(q) => q,
        None => {
            proof {
                if cycle_period != 0 {
                    lemma_dt_fits((now_s - last) as int, cycle_period as int);
                }
            }
            return Err(ContractError::CheckedFromRatioError);
        },
    };
    let cap = match Decimal::from_uint(MAX_PID_DT_VALUE) {
        Ok(d) => d,
        Err(_) => {
            return Err(ContractError::DecimalRangeExceeded);
        },
    };
    Ok(q.min(cap))
}

proof fn lemma_dt_fits(diff: int, period: int)
    requires
        0 <= diff <= u64::MAX,
        1 <= period <= u64::MAX,
    ensures
        div_fits(diff * unit(), period * unit()),
{
    assert(period * unit() >= unit()) by (nonlinear_arith)
        requires
            period >= 1,
    ;
    assert(diff * unit() * unit() / (period * unit()) <= diff * unit() * unit() / unit()) by {
        vstd::arithmetic::div_mod::lemma_div_is_ordered_by_denominator(
            diff * unit() * unit(),
            unit(),
            period * unit(),
        );
        assert(diff * unit() * unit() >= 0) by (nonlinear_arith)
            requires
                diff >= 0,
        ;
    }
    assert(diff * unit() * unit() / unit() == diff * unit()) by {
        vstd::arithmetic::div_mod::lemma_div_by_multiple(diff * unit(), unit());
    }
    assert(diff * unit() <= u128::MAX) by (nonlinear_arith)
        requires
            0 <= diff <= u64::MAX,
    ;
}


/// A target during a rebalance, with what the cycle learned of it.
#[derive(Clone, Debug, PartialEq, Eq)]
pub struct TargetHelper {
    pub target: ParsedTarget,
    /// The price of the denomination in base units (one for the base itself).
    pub price: Decimal,
    /// The account's balance of the denomination.
    pub balance_amount: u128,
    /// The balance's value in the base denomination.
    pub balance_value: Decimal,
    /// The value the controller wants traded.
    pub value_to_trade: Decimal,
    /// The smallest value an auction accepts of this denomination.
    pub auction_min_send_value: Decimal,
}

/// A copy of a stored target.
pub fn copy_target(t: &ParsedTarget) -> (r: ParsedTarget)
    ensures
        r == *t,
{
    ParsedTarget {
        denom: t.denom.clone(),
        percentage: t.percentage,
        min_balance: t.min_balance,
        last_input: t.last_input,
        last_i: t.last_i,
    }
}

/// A copy of a helper.
pub fn copy_helper(h: &TargetHelper) -> (r: TargetHelper)
    ensures
        r == *h,
{
    TargetHelper {
        target: copy_target(&h.target),
        price: h.price,
        balance_amount: h.balance_amount,
        balance_value: h.balance_value,
        value_to_trade: h.value_to_trade,
        auction_min_send_value: h.auction_min_send_value,
    }
}

/// The price of `denom` against `base` among `prices`, from index `k` on: the
/// first pair (base, denom) found.
pub open spec fn price_from(prices: Seq<(Pair, Decimal)>, base: Seq<char>, denom: Seq<char>, k: int) -> Option<Decimal>
    decreases prices.len() - k,
{
    if k < 0 || k >= prices.len() {
        None
    } else if prices[k].0.0@ == base && prices[k].0.1@ == denom {
        Some(prices[k].1)
    } else {
        price_from(prices, base, denom, k + 1)
    }
}

fn find_price(prices: &Vec<(Pair, Decimal)>, base: &String, denom: &String) -> (r: Option<Decimal>)
    ensures
        r == price_from(prices@, base@, denom@, 0),
{
    let mut k: usize = 0;
    while k < prices.len()
        invariant
            0 <= k <= prices.len(),
            price_from(prices@, base@, denom@, 0) == price_from(prices@, base@, denom@, k as int),
        decreases prices.len() - k,
    {
        if prices[k].0.0 == *base && prices[k].0.1 == *denom {
            return Some(prices[k].1);
        }
        k = k + 1;
    }
    None
}

/// The price used for a target: one for the base denomination itself.
pub open spec fn target_price(prices: Seq<(Pair, Decimal)>, base: Seq<char>, denom: Seq<char>) -> Option<Decimal> {
    if denom == base {
        Some(Decimal { atomics: unit() as u128 })
    } else {
        price_from(prices, base, denom, 0)
    }
}

/// The helper of a target, given its price and queried balance; or the error
/// of valuing it.
pub open spec fn input_helper(t: ParsedTarget, price: Decimal, balance: Result<u128, String>) -> Result<TargetHelper, ContractError> {
    match balance {
        Err(e) => Err(ContractError::Std(e)),
        Ok(bal) => if bal * unit() > u128::MAX {
            Err(ContractError::DecimalRangeExceeded)
        } else if !div_fits(bal * unit(), price.atomics as int) {
            Err(ContractError::CheckedFromRatioError)
        } else {
            Ok(
                TargetHelper {
                    target: t,
                    price,
                    balance_amount: bal,
                    balance_value: Decimal { atomics: div_atomics(bal * unit(), price.atomics as int) as u128 },
                    value_to_trade: Decimal { atomics: 0 },
                    auction_min_send_value: Decimal { atomics: 0 },
                },
            )
        },
    }
}

/// The helpers of the first `n` targets and the sum of their values.
pub open spec fn inputs_scan(
    config: RebalancerConfig,
    prices: Seq<(Pair, Decimal)>,
    balances: Seq<Result<u128, String>>,
    n: int,
) -> Result<(int, Seq<TargetHelper>), ContractError>
    decreases n,
{
    if n <= 0 {
        Ok((0, Seq::empty()))
    } else {
        match inputs_scan(config, prices, balances, n - 1) {
            Err(e) => Err(e),
            Ok((total, hs)) => {
                let t = config.targets@[n - 1];
                match input_helper(t, target_price(prices, config.base_denom@, t.denom@).unwrap(), balances[n - 1]) {
                    Err(e) => Err(e),
                    Ok(h) => Ok((total + h.balance_value.atomics, hs.push(h))),
                }
            },
        }
    }
}

/// Every target has a price.
pub open spec fn prices_known(config: RebalancerConfig, prices: Seq<(Pair, Decimal)>) -> bool {
    forall|j: int|
        0 <= j < config.targets.len() ==> (#[trigger] target_price(
            prices,
            config.base_denom@,
            config.targets@[j].denom@,
        )) is Some
}

/// The running sums of the targets' values fit the decimal range.
pub open spec fn inputs_sum_fits(
    config: RebalancerConfig,
    prices: Seq<(Pair, Decimal)>,
    balances: Seq<Result<u128, String>>,
) -> bool {
    forall|n: int|
        0 <= n <= config.targets.len() ==> (#[trigger] inputs_scan(config, prices, balances, n) matches Ok((total, _)) ==> total <= u128::MAX)
}

/// Values each target of the account: its balance (as queried) over its price
/// against the base denomination. Returns the account's total value and the
/// helpers, in the targets' order.
pub fn get_inputs(
    config: &RebalancerConfig,
    prices: &Vec<(Pair, Decimal)>,
    balances: &Vec<Result<u128, String>>,
) -> (r: Result<(Decimal, Vec<TargetHelper>), ContractError>)
    requires
        balances.len() == config.targets.len(),
        prices_known(*config, prices@),
        inputs_sum_fits(*config, prices@, balances@),
    ensures
        match inputs_scan(*config, prices@, balances@, config.targets.len() as int) {
            Err(e) => r == Err::<(Decimal, Vec<TargetHelper>), ContractError>(e),
            Ok((total, hs)) => r matches Ok((t, v)) && t.atomics == total && v@ == hs,
        },
{
    let mut total = Decimal::zero();
    let mut out: Vec<TargetHelper> = Vec::new();
    let mut k: usize = 0;
    while k < config.targets.len()
        invariant
            0 <= k <= config.targets.len(),
            balances.len() == config.targets.len(),
            prices_known(*config, prices@),
            inputs_sum_fits(*config, prices@, balances@),
            inputs_scan(*config, prices@, balances@, k as int) == Ok::<(int, Seq<TargetHelper>), ContractError>((total.atomics as int, out@)),
        decreases config.targets.len() - k,
    {
        let t = &config.targets[k];
        proof {
            assert(target_price(prices@, config.base_denom@, config.targets@[k as int].denom@) is Some);
        }
        let price = if t.denom == config.base_denom {
            Decimal::one()
        } else {
            find_price(prices, &config.base_denom, &t.denom).unwrap()
        };
        let bal = match &balances[k] {
            Ok(b) => *b,
            Err(e) => {
                proof {
                    lemma_inputs_error_stays(*config, prices@, balances@, k + 1, config.targets.len() as int);
                }
                return Err(ContractError::Std(e.clone()));
            },
        };
        let bal_d = match Decimal::from_uint(bal) {
            Ok(d) => d,
            Err(_) => {
                proof {
                    lemma_inputs_error_stays(*config, prices@, balances@, k + 1, config.targets.len() as int);
                }
                return Err(ContractError::DecimalRangeExceeded);
            },
        };
        let value = match bal_d.checked_div(price) {
            Some(v) => v,
            None => {
                proof {
                    lemma_inputs_error_stays(*config, prices@, balances@, k + 1, config.targets.len() as int);
                }
                return Err(ContractError::CheckedFromRatioError);
            },
        };
        proof {
            assert(inputs_scan(*config, prices@, balances@, k + 1) matches Ok((tt, _)) && tt == total.atomics + value.atomics);
            assert(total.atomics + value.atomics <= u128::MAX);
        }
        total = total.add(value);
        out.push(TargetHelper {
            target: copy_target(t),
            price,
            balance_amount: bal,
            balance_value: value,
            value_to_trade: Decimal::zero(),
            auction_min_send_value: Decimal::zero(),
        });
        k = k + 1;
    }
    Ok((total, out))
}

proof fn lemma_inputs_error_stays(
    config: RebalancerConfig,
    prices: Seq<(Pair, Decimal)>,
    balances: Seq<Result<u128, String>>,
    n: int,
    m: int,
)
    requires
        0 <= n <= m,
        inputs_scan(config, prices, balances, n) is Err,
    ensures
        inputs_scan(config, prices, balances, m) == inputs_scan(config, prices, balances, n),
    decreases m - n,
{
    if m > n {
        lemma_inputs_error_stays(config, prices, balances, n, m - 1);
    }
}


/// The controller's error for a target: its share of the total value minus its
/// current value.
pub open spec fn pid_error(total: Decimal, h: TargetHelper) -> int {
    mul_atomics(total.atomics as int, h.target.percentage.atomics as int) - h.balance_value.atomics
}

/// The change of the target's value since the last rebalance (zero the first time).
pub open spec fn pid_change(h: TargetHelper) -> int {
    match h.target.last_input {
        Some(li) => h.balance_value.atomics - li.atomics,
        None => 0,
    }
}

/// The proportional term.
pub open spec fn pid_p(total: Decimal, h: TargetHelper, pid: ParsedPID) -> int {
    smul_atomics(pid_error(total, h), pid.p.atomics as int)
}

/// The integral term: the last one plus error times coefficient times step.
pub open spec fn pid_i(total: Decimal, h: TargetHelper, pid: ParsedPID, dt: int) -> int {
    h.target.last_i.atomics + smul_atomics(smul_atomics(pid_error(total, h), pid.i.atomics as int), dt)
}

/// The derivative term: change times coefficient over step.
pub open spec fn pid_d(h: TargetHelper, pid: ParsedPID, dt: int) -> int {
    sdiv_atomics(smul_atomics(pid_change(h), pid.d.atomics as int), dt)
}

/// The controller's output: positive to buy, negative to sell.
pub open spec fn pid_output(total: Decimal, h: TargetHelper, pid: ParsedPID, dt: int) -> int {
    pid_p(total, h, pid) + pid_i(total, h, pid, dt) - pid_d(h, pid, dt)
}

/// The signed conversions a target needs: its value and its share of the total.
pub open spec fn pid_convert(total: Decimal, h: TargetHelper) -> Result<(), ContractError> {
    if h.balance_value.atomics > i128::MAX {
        Err(ContractError::SignedDecimalRangeExceeded)
    } else if mul_atomics(total.atomics as int, h.target.percentage.atomics as int) > i128::MAX {
        Err(ContractError::SignedDecimalRangeExceeded)
    } else {
        Ok(())
    }
}

/// Every step of the controller stays in range for a target.
pub open spec fn pid_in_range(total: Decimal, h: TargetHelper, pid: ParsedPID, dt: int) -> bool {
    let e = pid_error(total, h);
    &&& mul_atomics(total.atomics as int, h.target.percentage.atomics as int) <= u128::MAX
    &&& in_i128(pid_p(total, h, pid))
    &&& in_i128(smul_atomics(e, pid.i.atomics as int))
    &&& in_i128(smul_atomics(smul_atomics(e, pid.i.atomics as int), dt))
    &&& in_i128(pid_i(total, h, pid, dt))
    &&& (h.target.last_input matches Some(li) ==> li.atomics <= i128::MAX)
    &&& in_i128(smul_atomics(pid_change(h), pid.d.atomics as int))
    &&& in_i128(pid_d(h, pid, dt))
    &&& in_i128(pid_p(total, h, pid) + pid_i(total, h, pid, dt))
    &&& in_i128(pid_output(total, h, pid, dt))
}

/// The target after the controller ran: the value to trade is the output's
/// size, and its memory holds this value and integral term.
pub open spec fn pid_apply(total: Decimal, h: TargetHelper, pid: ParsedPID, dt: int) -> TargetHelper {
    let out = pid_output(total, h, pid, dt);
    TargetHelper {
        value_to_trade: Decimal { atomics: (if out < 0 { -out } else { out }) as u128 },
        target: ParsedTarget {
            last_input: Some(h.balance_value),
            last_i: FixedI128 { atomics: pid_i(total, h, pid, dt) as i128 },
            ..h.target
        },
        ..h
    }
}

/// The targets to sell among the first `n`: those with a negative output.
pub open spec fn pid_sells(total: Decimal, hs: Seq<TargetHelper>, pid: ParsedPID, dt: int, n: int) -> Seq<TargetHelper>
    decreases n,
{
    if n <= 0 {
        Seq::empty()
    } else if pid_output(total, hs[n - 1], pid, dt) < 0 {
        pid_sells(total, hs, pid, dt, n - 1).push(pid_apply(total, hs[n - 1], pid, dt))
    } else {
        pid_sells(total, hs, pid, dt, n - 1)
    }
}

/// The targets to buy among the first `n`: those with a positive output.
pub open spec fn pid_buys(total: Decimal, hs: Seq<TargetHelper>, pid: ParsedPID, dt: int, n: int) -> Seq<TargetHelper>
    decreases n,
{
    if n <= 0 {
        Seq::empty()
    } else if pid_output(total, hs[n - 1], pid, dt) > 0 {
        pid_buys(total, hs, pid, dt, n - 1).push(pid_apply(total, hs[n - 1], pid, dt))
    } else {
        pid_buys(total, hs, pid, dt, n - 1)
    }
}

/// The first conversion error among the first `n` targets.
pub open spec fn pid_first_error(total: Decimal, hs: Seq<TargetHelper>, n: int) -> Option<ContractError>
    decreases n,
{
    if n <= 0 {
        None
    } else {
        match pid_first_error(total, hs, n - 1) {
            Some(e) => Some(e),
            None => match pid_convert(total, hs[n - 1]) {
                Err(e) => Some(e),
                Ok(_) => None,
            },
        }
    }
}

/// Runs the PID controller over the targets: each target's output is
/// proportional, integral and derivative terms of its error (its share of the
/// total value minus its value); targets with a negative output are to be
/// sold, with a positive one bought, by the output's size. Each target
/// remembers its value and integral term for the next cycle.
pub fn do_pid(
    total_value: Decimal,
    targets: &mut Vec<TargetHelper>,
    pid: ParsedPID,
    dt: FixedI128,
) -> (r: Result<(Vec<TargetHelper>, Vec<TargetHelper>), ContractError>)
    requires
        dt.atomics != 0,
        pid.p.atomics <= i128::MAX,
        pid.i.atomics <= i128::MAX,
        pid.d.atomics <= i128::MAX,
        forall|j: int|
            0 <= j < old(targets).len() ==> (#[trigger] pid_convert(total_value, old(targets)@[j])) is Ok
                ==> pid_in_range(total_value, old(targets)@[j], pid, dt.atomics as int),
        forall|j: int|
            0 <= j < old(targets).len() && pid_first_error(total_value, old(targets)@, j) is None
                && (#[trigger] old(targets)@[j]).balance_value.atomics <= i128::MAX ==> mul_atomics(
                total_value.atomics as int,
                old(targets)@[j].target.percentage.atomics as int,
            ) <= u128::MAX,
    ensures
        pid_first_error(total_value, old(targets)@, old(targets).len() as int) matches Some(e) ==> r
            == Err::<(Vec<TargetHelper>, Vec<TargetHelper>), ContractError>(e),
        pid_first_error(total_value, old(targets)@, old(targets).len() as int) is None ==> r is Ok,
        final(targets).len() == old(targets).len(),
        forall|j: int|
            0 <= j < old(targets).len() ==> (#[trigger] final(targets)@[j]) == if pid_first_error(
                total_value,
                old(targets)@,
                j + 1,
            ) is None {
                pid_apply(total_value, old(targets)@[j], pid, dt.atomics as int)
            } else {
                old(targets)@[j]
            },
        r matches Ok((sell, buy)) ==> {
            &&& final(targets).len() == old(targets).len()
            &&& forall|j: int|
                0 <= j < old(targets).len() ==> (#[trigger] final(targets)@[j]) == pid_apply(
                    total_value,
                    old(targets)@[j],
                    pid,
                    dt.atomics as int,
                )
            &&& sell@ == pid_sells(total_value, old(targets)@, pid, dt.atomics as int, old(targets).len() as int)
            &&& buy@ == pid_buys(total_value, old(targets)@, pid, dt.atomics as int, old(targets).len() as int)
        },
{
    let ghost orig = targets@;
    let mut to_sell: Vec<TargetHelper> = Vec::new();
    let mut to_buy: Vec<TargetHelper> = Vec::new();
    let coef_p = FixedI128 { atomics: pid.p.atomics as i128 };
    let coef_i = FixedI128 { atomics: pid.i.atomics as i128 };
    let coef_d = FixedI128 { atomics: pid.d.atomics as i128 };
    let mut k: usize = 0;
    while k < targets.len()
        invariant
            0 <= k <= targets.len(),
            targets.len() == orig.len(),
            orig == old(targets)@,
            dt.atomics != 0,
            coef_p.atomics == pid.p.atomics,
            coef_i.atomics == pid.i.atomics,
            coef_d.atomics == pid.d.atomics,
            forall|j: int|
                0 <= j < orig.len() ==> (#[trigger] pid_convert(total_value, orig[j])) is Ok
                    ==> pid_in_range(total_value, orig[j], pid, dt.atomics as int),
            forall|j: int|
                0 <= j < orig.len() && pid_first_error(total_value, orig, j) is None
                    && (#[trigger] orig[j]).balance_value.atomics <= i128::MAX ==> mul_atomics(
                    total_value.atomics as int,
                    orig[j].target.percentage.atomics as int,
                ) <= u128::MAX,
            pid_first_error(total_value, orig, k as int) is None,
            forall|j: int| 0 <= j < k ==> (#[trigger] targets@[j]) == pid_apply(total_value, orig[j], pid, dt.atomics as int),
            forall|j: int| k <= j < orig.len() ==> (#[trigger] targets@[j]) == orig[j],
            to_sell@ == pid_sells(total_value, orig, pid, dt.atomics as int, k as int),
            to_buy@ == pid_buys(total_value, orig, pid, dt.atomics as int, k as int),
        decreases orig.len() - k,
    {
        let h = copy_helper(&targets[k]);
        proof {
            assert(h == orig[k as int]);
        }
        let input = match FixedI128::try_from_decimal(h.balance_value) {
            Ok(x) => x,
            Err(_) => {
                proof {
                    assert(pid_first_error(total_value, orig, k + 1) == Some(ContractError::SignedDecimalRangeExceeded));
                    lemma_pid_error_stays(total_value, orig, k + 1, orig.len() as int);
                    lemma_pid_stopped_at(total_value, orig, k as int, targets@, pid, dt.atomics as int);
                }
                return Err(ContractError::SignedDecimalRangeExceeded);
            },
        };
        let share = total_value.checked_mul(h.target.percentage);
        let target_value = match share {
            Some(tv) => match FixedI128::try_from_decimal(tv) {
                Ok(x) => x,
                Err(_) => {
                    proof {
                        assert(pid_first_error(total_value, orig, k + 1) == Some(ContractError::SignedDecimalRangeExceeded));
                        lemma_pid_error_stays(total_value, orig, k + 1, orig.len() as int);
                        lemma_pid_stopped_at(total_value, orig, k as int, targets@, pid, dt.atomics as int);
                    }
                    return Err(ContractError::SignedDecimalRangeExceeded);
                },
            },
            None => {
                proof {
                    assert(pid_first_error(total_value, orig, k + 1) == Some(ContractError::SignedDecimalRangeExceeded));
                    lemma_pid_error_stays(total_value, orig, k + 1, orig.len() as int);
                    lemma_pid_stopped_at(total_value, orig, k as int, targets@, pid, dt.atomics as int);
                }
                return Err(ContractError::SignedDecimalRangeExceeded);
            },
        };
        proof {
            assert(pid_convert(total_value, orig[k as int]) is Ok);
            assert(pid_in_range(total_value, orig[k as int], pid, dt.atomics as int));
        }
        let error = target_value.sub(input);
        let p = error.mul(coef_p);
        let i = h.target.last_i.add(error.mul(coef_i).mul(dt));
        let change = match h.target.last_input {
            Some(li) => input.sub(FixedI128 { atomics: li.atomics as i128 }),
            None => FixedI128::zero(),
        };
        let d = change.mul(coef_d).div(dt);
        let output = p.add(i).sub(d);
        let updated = TargetHelper {
            value_to_trade: output.abs(),
            target: ParsedTarget {
                denom: h.target.denom.clone(),
                percentage: h.target.percentage,
                min_balance: h.target.min_balance,
                last_input: Some(h.balance_value),
                last_i: i,
            },
            price: h.price,
            balance_amount: h.balance_amount,
            balance_value: h.balance_value,
            auction_min_send_value: h.auction_min_send_value,
        };
        proof {
            assert(output.atomics == pid_output(total_value, orig[k as int], pid, dt.atomics as int));
            assert(updated == pid_apply(total_value, orig[k as int], pid, dt.atomics as int));
        }
        if output.is_negative() {
            to_sell.push(copy_helper(&updated));
        } else if !output.is_zero() {
            to_buy.push(copy_helper(&updated));
        }
        targets.set(k, updated);
        k = k + 1;
    }
    proof {
        assert forall|j: int| 0 <= j < orig.len() implies (#[trigger] targets@[j]) == if pid_first_error(
            total_value,
            orig,
            j + 1,
        ) is None {
            pid_apply(total_value, orig[j], pid, dt.atomics as int)
        } else {
            orig[j]
        } by {
            lemma_pid_no_error_prefix(total_value, orig, j + 1, orig.len() as int);
        }
    }
    Ok((to_sell, to_buy))
}

proof fn lemma_pid_no_error_prefix(total: Decimal, hs: Seq<TargetHelper>, m: int, n: int)
    requires
        0 <= m <= n,
        pid_first_error(total, hs, n) is None,
    ensures
        pid_first_error(total, hs, m) is None,
    decreases n - m,
{
    if m < n {
        lemma_pid_no_error_prefix(total, hs, m, n - 1);
    }
}

/// When the controller stops at target `k`, the targets before it were
/// updated and the others are as they were.
proof fn lemma_pid_stopped_at(total: Decimal, orig: Seq<TargetHelper>, k: int, cur: Seq<TargetHelper>, pid: ParsedPID, dt: int)
    requires
        0 <= k < orig.len(),
        cur.len() == orig.len(),
        pid_first_error(total, orig, k) is None,
        pid_first_error(total, orig, k + 1) is Some,
        forall|j: int| 0 <= j < k ==> (#[trigger] cur[j]) == pid_apply(total, orig[j], pid, dt),
        forall|j: int| k <= j < orig.len() ==> (#[trigger] cur[j]) == orig[j],
    ensures
        forall|j: int|
            0 <= j < orig.len() ==> (#[trigger] cur[j]) == if pid_first_error(total, orig, j + 1) is None {
                pid_apply(total, orig[j], pid, dt)
            } else {
                orig[j]
            },
{
    assert forall|j: int| 0 <= j < orig.len() implies (#[trigger] cur[j]) == if pid_first_error(total, orig, j + 1) is None {
        pid_apply(total, orig[j], pid, dt)
    } else {
        orig[j]
    } by {
        if j < k {
            lemma_pid_no_error_prefix(total, orig, j + 1, k);
        } else {
            lemma_pid_error_stays(total, orig, k + 1, j + 1);
        }
    }
}

proof fn lemma_pid_error_stays(total: Decimal, hs: Seq<TargetHelper>, n: int, m: int)
    requires
        0 <= n <= m,
        pid_first_error(total, hs, n) is Some,
    ensures
        pid_first_error(total, hs, m) == pid_first_error(total, hs, n),
    decreases m - n,
{
    if m > n {
        lemma_pid_error_stays(total, hs, n, m - 1);
    }
}


proof fn lemma_trunc_unit(e: int)
    ensures
        div_trunc(e * unit(), unit()) == e,
        div_trunc(0, unit()) == 0,
{
    if e >= 0 {
        assert((e * unit()) / unit() == e) by (nonlinear_arith);
    } else {
        assert(((-e) * unit()) / unit() == -e) by (nonlinear_arith);
        assert(-(e * unit()) == (-e) * unit()) by (nonlinear_arith);
    }
}

/// With only a proportional coefficient of 1 (and no integral memory), the
/// controller's output is the target's error: its share of the total value
/// minus its current value.
pub proof fn lemma_pid_proportional_is_error(total: Decimal, h: TargetHelper, pid: ParsedPID, dt: int)
    requires
        pid.p.atomics == unit(),
        pid.i.atomics == 0,
        pid.d.atomics == 0,
        h.target.last_i.atomics == 0,
        dt != 0,
    ensures
        pid_output(total, h, pid, dt) == (total.atomics * h.target.percentage.atomics) / unit()
            - h.balance_value.atomics,
{
    let e = pid_error(total, h);
    lemma_trunc_unit(e);
    lemma_trunc_unit(0);
    assert(smul_atomics(e, 0) == 0);
    assert(smul_atomics(0, dt) == 0);
    assert(smul_atomics(pid_change(h), 0) == 0);
    assert(div_trunc(0int * unit(), dt) == 0);
}

/// With only an integral coefficient of 1 and a step of one unit, the
/// controller's output is the last integral term plus the target's error.
pub proof fn lemma_pid_integral_adds_error(total: Decimal, h: TargetHelper, pid: ParsedPID)
    requires
        pid.p.atomics == 0,
        pid.i.atomics == unit(),
        pid.d.atomics == 0,
    ensures
        pid_output(total, h, pid, unit()) == h.target.last_i.atomics + (total.atomics
            * h.target.percentage.atomics) / unit() - h.balance_value.atomics,
{
    let e = pid_error(total, h);
    lemma_trunc_unit(e);
    lemma_trunc_unit(0);
    assert(smul_atomics(e, 0) == 0);
    assert(smul_atomics(pid_change(h), 0) == 0);
    assert(div_trunc(0int * unit(), unit()) == 0);
}

/// With only a derivative coefficient (and no integral memory), a target whose
/// value rose since the last rebalance is never bought, and it is sold once
/// the rise times the coefficient reaches one unit per unit of the step.
pub proof fn lemma_pid_derivative_opposes_rise(total: Decimal, h: TargetHelper, pid: ParsedPID, dt: int)
    requires
        pid.p.atomics == 0,
        pid.i.atomics == 0,
        h.target.last_i.atomics == 0,
        dt > 0,
        h.target.last_input matches Some(li) && li.atomics <= h.balance_value.atomics,
    ensures
        pid_output(total, h, pid, dt) <= 0,
        (h.balance_value.atomics - h.target.last_input->Some_0.atomics) * pid.d.atomics >= unit() * dt
            ==> pid_output(total, h, pid, dt) < 0,
{
    let e = pid_error(total, h);
    let c = pid_change(h);
    let d = pid.d.atomics as int;
    lemma_trunc_unit(0);
    assert(smul_atomics(e, 0) == 0);
    assert(smul_atomics(0, dt) == 0);
    assert(c >= 0);
    assert(c * d >= 0) by (nonlinear_arith)
        requires
            c >= 0,
            d >= 0,
    ;
    let m = (c * d) / unit();
    assert(smul_atomics(c, d) == m);
    assert(m >= 0) by (nonlinear_arith)
        requires
            c * d >= 0,
            m == (c * d) / unit(),
    ;
    assert(m * unit() >= 0) by (nonlinear_arith)
        requires
            m >= 0,
    ;
    assert(pid_d(h, pid, dt) == (m * unit()) / dt);
    assert((m * unit()) / dt >= 0) by (nonlinear_arith)
        requires
            m * unit() >= 0,
            dt > 0,
    ;
    if c * d >= unit() * dt {
        assert(m >= dt) by (nonlinear_arith)
            requires
                c * d >= unit() * dt,
                m == (c * d) / unit(),
        ;
        assert((m * unit()) / dt >= 1) by (nonlinear_arith)
            requires
                m >= dt,
                dt > 0,
        ;
    }
}

/// The controller remembers a target's value and integral term: run again on
/// the target it left, with the value unchanged and neither a proportional nor
/// an integral coefficient, it outputs the integral term it kept (here, with
/// no integral coefficient in the first run either, the target's old one): the
/// derivative term sees no change.
pub proof fn lemma_pid_remembers(total: Decimal, h: TargetHelper, pid: ParsedPID, dt: int, pid2: ParsedPID, dt2: int)
    requires
        pid.i.atomics == 0,
        pid2.p.atomics == 0,
        pid2.i.atomics == 0,
        dt2 != 0,
    ensures
        pid_output(total, pid_apply(total, h, pid, dt), pid2, dt2) == h.target.last_i.atomics,
{
    let h2 = pid_apply(total, h, pid, dt);
    lemma_trunc_unit(0);
    assert(smul_atomics(pid_error(total, h), 0) == 0);
    assert(smul_atomics(0, dt) == 0);
    assert(pid_i(total, h, pid, dt) == h.target.last_i.atomics);
    assert(h2.target.last_i.atomics == h.target.last_i.atomics);
    assert(pid_change(h2) == 0);
    assert(smul_atomics(pid_error(total, h2), 0) == 0);
    assert(smul_atomics(0, dt2) == 0);
    assert(smul_atomics(0, pid2.d.atomics as int) == 0);
    assert(div_trunc(0int * unit(), dt2) == 0);
}

/// The controller sells exactly the targets with a negative output, by the
/// output's size, and buys exactly those with a positive one, by the output
/// (outputs within the signed 128-bit range, as `do_pid` requires).
pub proof fn lemma_pid_sells_and_buys(total: Decimal, hs: Seq<TargetHelper>, pid: ParsedPID, dt: int, n: int)
    requires
        0 <= n <= hs.len(),
        forall|j: int| 0 <= j < n ==> in_i128(pid_output(total, #[trigger] hs[j], pid, dt)),
    ensures
        ({
            let sells = pid_sells(total, hs, pid, dt, n);
            let buys = pid_buys(total, hs, pid, dt, n);
            &&& forall|i: int|
                0 <= i < sells.len() ==> exists|j: int|
                    0 <= j < n && pid_output(total, hs[j], pid, dt) < 0 && #[trigger] sells[i] == pid_apply(
                        total,
                        hs[j],
                        pid,
                        dt,
                    ) && sells[i].value_to_trade.atomics == -pid_output(total, hs[j], pid, dt)
                        && sells[i].target.denom == hs[j].target.denom
            &&& forall|j: int|
                0 <= j < n && pid_output(total, #[trigger] hs[j], pid, dt) < 0 ==> sells.contains(
                    pid_apply(total, hs[j], pid, dt),
                )
            &&& forall|i: int|
                0 <= i < buys.len() ==> exists|j: int|
                    0 <= j < n && pid_output(total, hs[j], pid, dt) > 0 && #[trigger] buys[i] == pid_apply(
                        total,
                        hs[j],
                        pid,
                        dt,
                    ) && buys[i].value_to_trade.atomics == pid_output(total, hs[j], pid, dt)
                        && buys[i].target.denom == hs[j].target.denom
            &&& forall|j: int|
                0 <= j < n && pid_output(total, #[trigger] hs[j], pid, dt) > 0 ==> buys.contains(
                    pid_apply(total, hs[j], pid, dt),
                )
        }),
    decreases n,
{
    if n > 0 {
        lemma_pid_sells_and_buys(total, hs, pid, dt, n - 1);
        let s1 = pid_sells(total, hs, pid, dt, n - 1);
        let b1 = pid_buys(total, hs, pid, dt, n - 1);
        let sells = pid_sells(total, hs, pid, dt, n);
        let buys = pid_buys(total, hs, pid, dt, n);
        let h = hs[n - 1];
        let o = pid_output(total, h, pid, dt);
        let a = pid_apply(total, h, pid, dt);
        assert(in_i128(pid_output(total, hs[n - 1], pid, dt)));
        assert(a.value_to_trade.atomics == if o < 0 { -o } else { o });
        assert forall|i: int| 0 <= i < sells.len() implies exists|j: int|
            0 <= j < n && pid_output(total, hs[j], pid, dt) < 0 && #[trigger] sells[i] == pid_apply(
                total,
                hs[j],
                pid,
                dt,
            ) && sells[i].value_to_trade.atomics == -pid_output(total, hs[j], pid, dt)
                && sells[i].target.denom == hs[j].target.denom by {
            if i < s1.len() {
                assert(sells[i] == s1[i]);
            } else {
                assert(sells[i] == a);
                assert(hs[n - 1] == h);
            }
        }
        assert forall|j: int| 0 <= j < n && pid_output(total, #[trigger] hs[j], pid, dt) < 0 implies sells.contains(
            pid_apply(total, hs[j], pid, dt),
        ) by {
            if j < n - 1 {
                let i = choose|i: int| 0 <= i < s1.len() && s1[i] == pid_apply(total, hs[j], pid, dt);
                if o < 0 {
                    assert(sells[i] == s1[i]);
                }
            } else {
                assert(sells[sells.len() - 1] == a);
            }
        }
        assert forall|i: int| 0 <= i < buys.len() implies exists|j: int|
            0 <= j < n && pid_output(total, hs[j], pid, dt) > 0 && #[trigger] buys[i] == pid_apply(
                total,
                hs[j],
                pid,
                dt,
            ) && buys[i].value_to_trade.atomics == pid_output(total, hs[j], pid, dt)
                && buys[i].target.denom == hs[j].target.denom by {
            if i < b1.len() {
                assert(buys[i] == b1[i]);
            } else {
                assert(buys[i] == a);
                assert(hs[n - 1] == h);
            }
        }
        assert forall|j: int| 0 <= j < n && pid_output(total, #[trigger] hs[j], pid, dt) > 0 implies buys.contains(
            pid_apply(total, hs[j], pid, dt),
        ) by {
            if j < n - 1 {
                let i = choose|i: int| 0 <= i < b1.len() && b1[i] == pid_apply(total, hs[j], pid, dt);
                if o > 0 {
                    assert(buys[i] == b1[i]);
                }
            } else {
                assert(buys[buys.len() - 1] == a);
            }
        }
    }
}

/// The minimum send amount cached for `denom`, from index `k` on.
pub open spec fn cached_min(cache: Seq<(String, u128)>, denom: Seq<char>, k: int) -> Option<u128>
    decreases cache.len() - k,
{
    if k < 0 || k >= cache.len() {
        None
    } else if cache[k].0@ == denom {
        Some(cache[k].1)
    } else {
        cached_min(cache, denom, k + 1)
    }
}

fn find_cached(cache: &Vec<(String, u128)>, denom: &String) -> (r: Option<u128>)
    ensures
        r == cached_min(cache@, denom@, 0),
{
    let mut k: usize = 0;
    while k < cache.len()
        invariant
            0 <= k <= cache.len(),
            cached_min(cache@, denom@, 0) == cached_min(cache@, denom@, k as int),
        decreases cache.len() - k,
    {
        if cache[k].0 == *denom {
            return Some(cache[k].1);
        }
        k = k + 1;
    }
    None
}

/// The smallest value an auction accepts, given its minimum send amount and
/// the token's price.
pub open spec fn min_send_value(amount: u128, price: Decimal) -> Result<Decimal, ContractError> {
    if amount * unit() > u128::MAX {
        Err(ContractError::DecimalRangeExceeded)
    } else if !div_fits(amount * unit(), price.atomics as int) {
        Err(ContractError::CheckedFromRatioError)
    } else {
        Ok(Decimal { atomics: div_atomics(amount * unit(), price.atomics as int) as u128 })
    }
}

fn min_send_value_exec(amount: u128, price: Decimal) -> (r: Result<Decimal, ContractError>)
    ensures
        r == min_send_value(amount, price),
{
    let a = match Decimal::from_uint(amount) {
        Ok(d) => d,
        Err(_) => {
            return Err(ContractError::DecimalRangeExceeded);
        },
    };
    match a.checked_div(price) {
        Some(v) => Ok(v),
        None => Err(ContractError::CheckedFromRatioError),
    }
}

/// One token to sell: its minimum send value from the cache, or else from the
/// queried minimum amount of its auction (then cached).
pub open spec fn min_amount_step(
    cache: Seq<(String, u128)>,
    h: TargetHelper,
    queried: Result<Option<u128>, String>,
) -> Result<(TargetHelper, Seq<(String, u128)>), ContractError> {
    match cached_min(cache, h.target.denom@, 0) {
        Some(amount) => match min_send_value(amount, h.price) {
            Err(e) => Err(e),
            Ok(v) => Ok((TargetHelper { auction_min_send_value: v, ..h }, cache)),
        },
        None => match queried {
            Err(e) => Err(ContractError::Std(e)),
            Ok(None) => Err(ContractError::NoMinAuctionAmountFound),
            Ok(Some(amount)) => match min_send_value(amount, h.price) {
                Err(e) => Err(e),
                Ok(v) => Ok((TargetHelper { auction_min_send_value: v, ..h }, cache.push((h.target.denom, amount)))),
            },
        },
    }
}

/// The first `n` tokens to sell with their minimum send values, and the cache.
pub open spec fn min_amounts_scan(
    cache: Seq<(String, u128)>,
    hs: Seq<TargetHelper>,
    queried: Seq<Result<Option<u128>, String>>,
    n: int,
) -> Result<(Seq<TargetHelper>, Seq<(String, u128)>), ContractError>
    decreases n,
{
    if n <= 0 {
        Ok((Seq::empty(), cache))
    } else {
        match min_amounts_scan(cache, hs, queried, n - 1) {
            Err(e) => Err(e),
            Ok((out, c)) => match min_amount_step(c, hs[n - 1], queried[n - 1]) {
                Err(e) => Err(e),
                Ok((h, c2)) => Ok((out.push(h), c2)),
            },
        }
    }
}

proof fn lemma_min_amounts_error_stays(
    cache: Seq<(String, u128)>,
    hs: Seq<TargetHelper>,
    queried: Seq<Result<Option<u128>, String>>,
    n: int,
    m: int,
)
    requires
        0 <= n <= m,
        min_amounts_scan(cache, hs, queried, n) is Err,
    ensures
        min_amounts_scan(cache, hs, queried, m) == min_amounts_scan(cache, hs, queried, n),
    decreases m - n,
{
    if m > n {
        lemma_min_amounts_error_stays(cache, hs, queried, n, m - 1);
    }
}

/// The smallest value an auction accepts is its minimum amount valued as
/// balances are, in the base denomination: the amount over the token's price,
/// rounded down to 18 places.
pub proof fn lemma_min_send_value_is_amount_over_price(amount: u128, price: Decimal)
    ensures
        min_send_value(amount, price) matches Ok(v) ==> price.atomics > 0 && v.atomics * price.atomics
            <= amount * unit() * unit() && amount * unit() * unit() < (v.atomics + 1) * price.atomics,
        price.atomics > 0 && amount * unit() <= u128::MAX && (amount * unit() * unit()) / (price.atomics as int)
            <= u128::MAX ==> min_send_value(amount, price) is Ok,
{
    if min_send_value(amount, price) is Ok {
        let a = amount * unit() * unit();
        let p = price.atomics as int;
        let q = a / p;
        assert(q * p <= a < (q + 1) * p) by (nonlinear_arith)
            requires
                q == a / p,
                p > 0,
        ;
    }
}

proof fn lemma_cached_push(c: Seq<(String, u128)>, x: (String, u128), d: Seq<char>, k: int)
    requires
        0 <= k <= c.len(),
    ensures
        cached_min(c.push(x), d, k) == match cached_min(c, d, k) {
            Some(a) => Some(a),
            None => if x.0@ == d {
                Some(x.1)
            } else {
                None
            },
        },
    decreases c.len() - k,
{
    if k < c.len() {
        assert(c.push(x)[k] == c[k]);
        lemma_cached_push(c, x, d, k + 1);
    } else {
        assert(c.push(x)[k] == x);
        assert(cached_min(c.push(x), d, k + 1) is None);
    }
}

proof fn lemma_min_step_facts(c1: Seq<(String, u128)>, h: TargetHelper, q: Result<Option<u128>, String>)
    requires
        min_amount_step(c1, h, q) is Ok,
    ensures
        ({
            let (nh, c2) = min_amount_step(c1, h, q)->Ok_0;
            let d = h.target.denom@;
            &&& nh == TargetHelper { auction_min_send_value: nh.auction_min_send_value, ..h }
            &&& cached_min(c2, d, 0) matches Some(a) && min_send_value(a, h.price) == Ok::<Decimal, ContractError>(
                nh.auction_min_send_value,
            )
            &&& cached_min(c1, d, 0) is None ==> (q matches Ok(Some(a)) && cached_min(c2, d, 0) == Some(a))
            &&& cached_min(c1, d, 0) matches Some(a) ==> cached_min(c2, d, 0) == Some(a)
            &&& cache_step(c1, c2, d)
        }),
{
    let d = h.target.denom@;
    if cached_min(c1, d, 0) is None {
        let a = q->Ok_0->Some_0;
        lemma_cached_push(c1, (h.target.denom, a), d, 0);
        assert forall|e: Seq<char>| #[trigger] cached_min(c1, e, 0) is Some implies cached_min(c1.push((h.target.denom, a)), e, 0)
            == cached_min(c1, e, 0) by {
            lemma_cached_push(c1, (h.target.denom, a), e, 0);
        }
        assert forall|e: Seq<char>| e != d && #[trigger] cached_min(c1, e, 0) is None implies cached_min(
            c1.push((h.target.denom, a)),
            e,
            0,
        ) is None by {
            lemma_cached_push(c1, (h.target.denom, a), e, 0);
        }
    }
}

/// The tokens keep everything but their minimum send values.
pub open spec fn min_amounts_keep_tokens(hs: Seq<TargetHelper>, n: int, out: Seq<TargetHelper>) -> bool {
    &&& out.len() == n
    &&& forall|i: int|
        0 <= i < n ==> (#[trigger] out[i]) == TargetHelper {
            auction_min_send_value: out[i].auction_min_send_value,
            ..hs[i]
        }
}

/// Each token's minimum send value is `min_send_value` of an amount that the
/// cache holds for its denomination.
pub open spec fn min_amounts_valued(hs: Seq<TargetHelper>, n: int, out: Seq<TargetHelper>, c: Seq<(String, u128)>) -> bool {
    forall|i: int|
        0 <= i < n ==> (cached_min(c, (#[trigger] hs[i]).target.denom@, 0) matches Some(a)
            && min_send_value(a, hs[i].price) == Ok::<Decimal, ContractError>(out[i].auction_min_send_value))
}

/// A denomination the cache held keeps its amount.
pub open spec fn min_amounts_cache_kept(cache: Seq<(String, u128)>, c: Seq<(String, u128)>) -> bool {
    forall|d: Seq<char>| (#[trigger] cached_min(cache, d, 0)) is Some ==> cached_min(c, d, 0) == cached_min(cache, d, 0)
}

/// The first token of a denomination the cache missed has its amount queried
/// and cached.
pub open spec fn min_amounts_queried(
    cache: Seq<(String, u128)>,
    hs: Seq<TargetHelper>,
    queried: Seq<Result<Option<u128>, String>>,
    n: int,
    c: Seq<(String, u128)>,
) -> bool {
    forall|i: int|
        0 <= i < n && cached_min(cache, (#[trigger] hs[i]).target.denom@, 0) is None && (forall|j: int|
            0 <= j < i ==> (#[trigger] hs[j]).target.denom@ != hs[i].target.denom@) ==> (
        queried[i] matches Ok(Some(a)) && cached_min(c, hs[i].target.denom@, 0) == Some(a))
}

/// The cache gains no denomination but those of the tokens.
pub open spec fn min_amounts_cache_only(cache: Seq<(String, u128)>, hs: Seq<TargetHelper>, n: int, c: Seq<(String, u128)>) -> bool {
    forall|d: Seq<char>|
        cached_min(cache, d, 0) is None && (forall|j: int| 0 <= j < n ==> (#[trigger] hs[j]).target.denom@ != d)
            ==> #[trigger] cached_min(c, d, 0) is None
}

/// What setting the auctions' minimums over the first `n` tokens to sell
/// gives (`out`, and the cache `c`, starting from `cache`): nothing of a token
/// changes but its minimum send value, which is `min_send_value` of the
/// minimum amount of its auction (that amount over the token's price, see
/// `lemma_min_send_value_is_amount_over_price`); that amount stays in the
/// cache. A token already cached keeps the cached amount, the first token of a
/// denomination missing from the cache takes the amount queried for it, and
/// the cache gains no other denomination.
pub open spec fn min_amounts_from_amounts(
    cache: Seq<(String, u128)>,
    hs: Seq<TargetHelper>,
    queried: Seq<Result<Option<u128>, String>>,
    n: int,
    out: Seq<TargetHelper>,
    c: Seq<(String, u128)>,
) -> bool {
    &&& min_amounts_keep_tokens(hs, n, out)
    &&& min_amounts_valued(hs, n, out, c)
    &&& min_amounts_cache_kept(cache, c)
    &&& min_amounts_queried(cache, hs, queried, n, c)
    &&& min_amounts_cache_only(cache, hs, n, c)
}

/// How one step changes the cache: the cached denominations keep their
/// amounts, and no denomination but `d` is added.
pub open spec fn cache_step(c1: Seq<(String, u128)>, c: Seq<(String, u128)>, d: Seq<char>) -> bool {
    &&& forall|e: Seq<char>| #[trigger] cached_min(c1, e, 0) is Some ==> cached_min(c, e, 0) == cached_min(c1, e, 0)
    &&& forall|e: Seq<char>| e != d && #[trigger] cached_min(c1, e, 0) is None ==> cached_min(c, e, 0) is None
}

proof fn lemma_extend_keep(hs: Seq<TargetHelper>, n: int, out1: Seq<TargetHelper>, nh: TargetHelper)
    requires
        0 < n <= hs.len(),
        min_amounts_keep_tokens(hs, n - 1, out1),
        nh == (TargetHelper { auction_min_send_value: nh.auction_min_send_value, ..hs[n - 1] }),
    ensures
        min_amounts_keep_tokens(hs, n, out1.push(nh)),
{
    let out = out1.push(nh);
    assert forall|i: int| 0 <= i < n implies (#[trigger] out[i]) == TargetHelper {
        auction_min_send_value: out[i].auction_min_send_value,
        ..hs[i]
    } by {
        if i < n - 1 {
            assert(out[i] == out1[i]);
        }
    }
}

proof fn lemma_extend_valued(hs: Seq<TargetHelper>, n: int, out1: Seq<TargetHelper>, nh: TargetHelper, c1: Seq<(String, u128)>, c: Seq<(String, u128)>)
    requires
        0 < n <= hs.len(),
        out1.len() == n - 1,
        min_amounts_valued(hs, n - 1, out1, c1),
        cache_step(c1, c, hs[n - 1].target.denom@),
        cached_min(c, hs[n - 1].target.denom@, 0) matches Some(a) && min_send_value(a, hs[n - 1].price) == Ok::<
            Decimal,
            ContractError,
        >(nh.auction_min_send_value),
    ensures
        min_amounts_valued(hs, n, out1.push(nh), c),
{
    let out = out1.push(nh);
    assert forall|i: int| 0 <= i < n implies (cached_min(c, (#[trigger] hs[i]).target.denom@, 0) matches Some(a)
        && min_send_value(a, hs[i].price) == Ok::<Decimal, ContractError>(out[i].auction_min_send_value)) by {
        if i < n - 1 {
            assert(out[i] == out1[i]);
            assert(cached_min(c1, hs[i].target.denom@, 0) is Some);
        }
    }
}

proof fn lemma_extend_kept(
    cache: Seq<(String, u128)>,
    hs: Seq<TargetHelper>,
    queried: Seq<Result<Option<u128>, String>>,
    n: int,
    c1: Seq<(String, u128)>,
    c: Seq<(String, u128)>,
)
    requires
        0 < n <= hs.len(),
        cache_step(c1, c, hs[n - 1].target.denom@),
        cached_min(c1, hs[n - 1].target.denom@, 0) matches Some(a) ==> cached_min(c, hs[n - 1].target.denom@, 0) == Some(a),
        cached_min(c1, hs[n - 1].target.denom@, 0) is None ==> (queried[n - 1] matches Ok(Some(a))
            && cached_min(c, hs[n - 1].target.denom@, 0) == Some(a)),
        min_amounts_cache_kept(cache, c1),
        min_amounts_cache_only(cache, hs, n - 1, c1),
    ensures
        min_amounts_cache_kept(cache, c),
{
    assert forall|d: Seq<char>| (#[trigger] cached_min(cache, d, 0)) is Some implies cached_min(c, d, 0)
        == cached_min(cache, d, 0) by {
        assert(cached_min(c1, d, 0) == cached_min(cache, d, 0));
    }
}

proof fn lemma_extend_queried(
    cache: Seq<(String, u128)>,
    hs: Seq<TargetHelper>,
    queried: Seq<Result<Option<u128>, String>>,
    n: int,
    c1: Seq<(String, u128)>,
    c: Seq<(String, u128)>,
)
    requires
        0 < n <= hs.len(),
        cache_step(c1, c, hs[n - 1].target.denom@),
        cached_min(c1, hs[n - 1].target.denom@, 0) matches Some(a) ==> cached_min(c, hs[n - 1].target.denom@, 0) == Some(a),
        cached_min(c1, hs[n - 1].target.denom@, 0) is None ==> (queried[n - 1] matches Ok(Some(a))
            && cached_min(c, hs[n - 1].target.denom@, 0) == Some(a)),
        min_amounts_cache_kept(cache, c1),
        min_amounts_queried(cache, hs, queried, n - 1, c1),
        min_amounts_cache_only(cache, hs, n - 1, c1),
    ensures
        min_amounts_queried(cache, hs, queried, n, c),
{
    let d = hs[n - 1].target.denom@;
    assert forall|i: int| 0 <= i < n && cached_min(cache, (#[trigger] hs[i]).target.denom@, 0) is None && (forall|j: int|
        0 <= j < i ==> (#[trigger] hs[j]).target.denom@ != hs[i].target.denom@) implies (
        queried[i] matches Ok(Some(a)) && cached_min(c, hs[i].target.denom@, 0) == Some(a)) by {
        if i == n - 1 {
            assert(cached_min(c1, d, 0) is None);
        } else {
            assert(cached_min(c1, hs[i].target.denom@, 0) is Some);
        }
    }
}

proof fn lemma_extend_only(
    cache: Seq<(String, u128)>,
    hs: Seq<TargetHelper>,
    queried: Seq<Result<Option<u128>, String>>,
    n: int,
    c1: Seq<(String, u128)>,
    c: Seq<(String, u128)>,
)
    requires
        0 < n <= hs.len(),
        cache_step(c1, c, hs[n - 1].target.denom@),
        cached_min(c1, hs[n - 1].target.denom@, 0) matches Some(a) ==> cached_min(c, hs[n - 1].target.denom@, 0) == Some(a),
        cached_min(c1, hs[n - 1].target.denom@, 0) is None ==> (queried[n - 1] matches Ok(Some(a))
            && cached_min(c, hs[n - 1].target.denom@, 0) == Some(a)),
        min_amounts_cache_only(cache, hs, n - 1, c1),
    ensures
        min_amounts_cache_only(cache, hs, n, c),
{
    assert forall|e: Seq<char>|
        cached_min(cache, e, 0) is None && (forall|j: int| 0 <= j < n ==> (#[trigger] hs[j]).target.denom@ != e)
            implies #[trigger] cached_min(c, e, 0) is None by {
        assert(hs[n - 1].target.denom@ != e);
        assert(cached_min(c1, e, 0) is None);
    }
}

proof fn lemma_min_amounts_extend(
    cache: Seq<(String, u128)>,
    hs: Seq<TargetHelper>,
    queried: Seq<Result<Option<u128>, String>>,
    n: int,
    out1: Seq<TargetHelper>,
    c1: Seq<(String, u128)>,
)
    requires
        0 < n <= hs.len(),
        n <= queried.len(),
        min_amounts_from_amounts(cache, hs, queried, n - 1, out1, c1),
        min_amount_step(c1, hs[n - 1], queried[n - 1]) is Ok,
    ensures
        ({
            let (nh, c2) = min_amount_step(c1, hs[n - 1], queried[n - 1])->Ok_0;
            min_amounts_from_amounts(cache, hs, queried, n, out1.push(nh), c2)
        }),
{
    let h = hs[n - 1];
    lemma_min_step_facts(c1, h, queried[n - 1]);
    let (nh, c) = min_amount_step(c1, h, queried[n - 1])->Ok_0;
    lemma_extend_keep(hs, n, out1, nh);
    lemma_extend_valued(hs, n, out1, nh, c1, c);
    lemma_extend_kept(cache, hs, queried, n, c1, c);
    lemma_extend_queried(cache, hs, queried, n, c1, c);
    lemma_extend_only(cache, hs, queried, n, c1, c);
}

/// Setting the auctions' minimums over the first `n` tokens to sell changes
/// each token's minimum send value only, to the value of its auction's
/// minimum amount, as `min_amounts_from_amounts` details.
pub proof fn lemma_min_amounts_from_amounts(
    cache: Seq<(String, u128)>,
    hs: Seq<TargetHelper>,
    queried: Seq<Result<Option<u128>, String>>,
    n: int,
)
    requires
        0 <= n <= hs.len(),
        n <= queried.len(),
        min_amounts_scan(cache, hs, queried, n) is Ok,
    ensures
        ({
            let (out, c) = min_amounts_scan(cache, hs, queried, n)->Ok_0;
            min_amounts_from_amounts(cache, hs, queried, n, out, c)
        }),
    decreases n,
{
    if n > 0 {
        lemma_min_amounts_from_amounts(cache, hs, queried, n - 1);
        let (out1, c1) = min_amounts_scan(cache, hs, queried, n - 1)->Ok_0;
        lemma_min_amounts_extend(cache, hs, queried, n, out1, c1);
    } else {
        assert(min_amounts_scan(cache, hs, queried, 0) == Ok::<(Seq<TargetHelper>, Seq<(String, u128)>), ContractError>((Seq::<TargetHelper>::empty(), cache)));
    }
}

/// Sets the minimum value each auction accepts for each token to sell, from
/// the cache of minimum amounts where it has the token, else from the amount
/// queried from the auctions manager (one entry per token, used only on a
/// cache miss), which is then cached.
pub fn set_auction_min_amounts(
    to_sell: &mut Vec<TargetHelper>,
    min_amount_limits: &mut Vec<(String, u128)>,
    queried: &Vec<Result<Option<u128>, String>>,
) -> (r: Result<(), ContractError>)
    requires
        queried.len() == old(to_sell).len(),
    ensures
        match min_amounts_scan(old(min_amount_limits)@, old(to_sell)@, queried@, old(to_sell).len() as int) {
            Err(e) => r == Err::<(), ContractError>(e),
            Ok((out, cache)) => r is Ok && final(to_sell)@ == out && final(min_amount_limits)@ == cache,
        },
{
    let ghost orig = to_sell@;
    let ghost cache0 = min_amount_limits@;
    let mut out: Vec<TargetHelper> = Vec::new();
    let mut k: usize = 0;
    while k < to_sell.len()
        invariant
            0 <= k <= to_sell.len(),
            to_sell@ == orig,
            orig == old(to_sell)@,
            cache0 == old(min_amount_limits)@,
            queried.len() == orig.len(),
            min_amounts_scan(cache0, orig, queried@, k as int) == Ok::<(Seq<TargetHelper>, Seq<(String, u128)>), ContractError>((out@, min_amount_limits@)),
        decreases orig.len() - k,
    {
        let h = &to_sell[k];
        let v = match find_cached(min_amount_limits, &h.target.denom) {
            Some(amount) => match min_send_value_exec(amount, h.price) {
                Ok(v) => v,
                Err(e) => {
                    proof {
                        lemma_min_amounts_error_stays(cache0, orig, queried@, k + 1, orig.len() as int);
                    }
                    return Err(e);
                },
            },
            None => match &queried[k] {
                Err(e) => {
                    proof {
                        lemma_min_amounts_error_stays(cache0, orig, queried@, k + 1, orig.len() as int);
                    }
                    return Err(ContractError::Std(e.clone()));
                },
                Ok(None) => {
                    proof {
                        lemma_min_amounts_error_stays(cache0, orig, queried@, k + 1, orig.len() as int);
                    }
                    return Err(ContractError::NoMinAuctionAmountFound);
                },
                Ok(Some(amount)) => match min_send_value_exec(*amount, h.price) {
                    Ok(v) => {
                        min_amount_limits.push((h.target.denom.clone(), *amount));
                        v
                    },
                    Err(e) => {
                        proof {
                            lemma_min_amounts_error_stays(cache0, orig, queried@, k + 1, orig.len() as int);
                        }
                        return Err(e);
                    },
                },
            },
        };
        let mut nh = copy_helper(h);
        nh.auction_min_send_value = v;
        out.push(nh);
        k = k + 1;
    }
    *to_sell = out;
    Ok(())
}

/// The stored target after a rebalance: it keeps the controller's memory from
/// the first helper of the same denomination, if any.
pub open spec fn updated_target(t: ParsedTarget, hs: Seq<TargetHelper>, k: int) -> ParsedTarget
    decreases hs.len() - k,
{
    if k < 0 || k >= hs.len() {
        t
    } else if hs[k].target.denom@ == t.denom@ {
        ParsedTarget { last_input: hs[k].target.last_input, last_i: hs[k].target.last_i, ..t }
    } else {
        updated_target(t, hs, k + 1)
    }
}

fn update_one(t: &ParsedTarget, hs: &Vec<TargetHelper>) -> (r: ParsedTarget)
    ensures
        r == updated_target(*t, hs@, 0),
{
    let mut k: usize = 0;
    while k < hs.len()
        invariant
            0 <= k <= hs.len(),
            updated_target(*t, hs@, 0) == updated_target(*t, hs@, k as int),
        decreases hs.len() - k,
    {
        if hs[k].target.denom == t.denom {
            let mut nt = copy_target(t);
            nt.last_input = hs[k].target.last_input;
            nt.last_i = hs[k].target.last_i;
            return nt;
        }
        k = k + 1;
    }
    copy_target(t)
}

/// Keeps in each stored target the controller's memory of this rebalance.
pub fn update_targets_last(targets: &mut Vec<ParsedTarget>, hs: &Vec<TargetHelper>)
    ensures
        final(targets).len() == old(targets).len(),
        forall|j: int|
            0 <= j < old(targets).len() ==> (#[trigger] final(targets)@[j]) == updated_target(old(targets)@[j], hs@, 0),
{
    let ghost orig = targets@;
    let mut out: Vec<ParsedTarget> = Vec::new();
    let mut k: usize = 0;
    while k < targets.len()
        invariant
            0 <= k <= targets.len(),
            targets@ == orig,
            orig == old(targets)@,
            out.len() == k,
            forall|j: int| 0 <= j < k ==> (#[trigger] out@[j]) == updated_target(orig[j], hs@, 0),
        decreases orig.len() - k,
    {
        let nt = update_one(&targets[k], hs);
        out.push(nt);
        k = k + 1;
    }
    *targets = out;
}

/// The first pair with a zero price among the first `n`, if any.
pub open spec fn first_zero_price(prices: Seq<(Pair, Decimal)>, n: int) -> Option<int>
    decreases n,
{
    if n <= 0 {
        None
    } else {
        match first_zero_price(prices, n - 1) {
            Some(j) => Some(j),
            None => if prices[n - 1].1.atomics == 0 {
                Some(n - 1)
            } else {
                None
            },
        }
    }
}

/// The prices fetched for a cycle (every base denomination against every other
/// whitelisted denomination) must all be non-zero.
pub fn verify_prices(prices: &Vec<(Pair, Decimal)>) -> (r: Result<(), ContractError>)
    ensures
        match first_zero_price(prices@, prices.len() as int) {
            Some(j) => r == Err::<(), ContractError>(
                ContractError::PairPriceIsZero(prices@[j].0.0, prices@[j].0.1),
            ),
            None => r is Ok,
        },
{
    let mut k: usize = 0;
    while k < prices.len()
        invariant
            0 <= k <= prices.len(),
            first_zero_price(prices@, k as int) is None,
        decreases prices.len() - k,
    {
        if prices[k].1.is_zero() {
            proof {
                assert(first_zero_price(prices@, k + 1) == Some(k as int));
                lemma_zero_price_stays(prices@, k + 1, prices.len() as int);
            }
            return Err(ContractError::PairPriceIsZero(prices[k].0.0.clone(), prices[k].0.1.clone()));
        }
        k = k + 1;
    }
    Ok(())
}

proof fn lemma_zero_price_stays(prices: Seq<(Pair, Decimal)>, n: int, m: int)
    requires
        0 <= n <= m,
        first_zero_price(prices, n) is Some,
    ensures
        first_zero_price(prices, m) == first_zero_price(prices, n),
    decreases m - n,
{
    if m > n {
        lemma_zero_price_stays(prices, n, m - 1);
    }
}

} // verus!
