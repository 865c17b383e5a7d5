//! The minimum balance override: when an account's minimum balance target is
//! worth more than its share, that target's share is raised to cover it and
//! the other targets give way, proportionally or in order of priority.
use vstd::prelude::*;
use crate::decimal::{Decimal, unit, mul_atomics, div_atomics, div_fits};
use crate::rebalance::TargetHelper;
use crate::rebalancer::{ContractError, ParsedTarget, TargetOverrideStrategy};

verus! {

/// The smallest sum of shares accepted after an override (0.9999).
pub open spec fn closest_to_one() -> int {
    999_900_000_000_000_000
}

/// The first target with a minimum balance, among the first `n`.
pub open spec fn first_min_index(hs: Seq<TargetHelper>, n: int) -> Option<int>
    decreases n,
{
    if n <= 0 {
        None
    } else {
        match first_min_index(hs, n - 1) {
            Some(j) => Some(j),
            None => if hs[n - 1].target.min_balance is Some {
                Some(n - 1)
            } else {
                None
            },
        }
    }
}

/// `h` with its share set to `perc`.
pub open spec fn with_share(h: TargetHelper, perc: int) -> TargetHelper {
    TargetHelper { target: ParsedTarget { percentage: Decimal { atomics: perc as u128 }, ..h.target }, ..h }
}

/// One target of an override: the minimum balance target takes its new share;
/// once nothing is left over the others get nothing; otherwise a target is
/// scaled to the leftover (proportional) or served from it in order
/// (priority). Returns the target, the leftover after it, and what it adds to
/// the sum of shares.
pub open spec fn override_step(
    h: TargetHelper,
    min_denom: Seq<char>,
    new_perc: int,
    leftover: int,
    old_leftover: int,
    strategy: TargetOverrideStrategy,
) -> Result<(TargetHelper, int, int), ContractError> {
    if h.target.denom@ == min_denom {
        Ok((with_share(h, new_perc), leftover, 0))
    } else if leftover == 0 {
        Ok((with_share(h, 0), leftover, 0))
    } else {
        let pct = h.target.percentage.atomics as int;
        match strategy {
            TargetOverrideStrategy::Proportional => if !div_fits(pct, old_leftover) {
                Err(ContractError::CheckedFromRatioError)
            } else {
                let np = mul_atomics(div_atomics(pct, old_leftover), leftover);
                Ok((with_share(h, np), leftover, np))
            },
            TargetOverrideStrategy::Priority => if leftover >= pct {
                Ok((h, leftover - pct, pct))
            } else {
                Ok((with_share(h, leftover), 0, leftover))
            },
        }
    }
}

/// The step stays in range: a scaled share and the new sum fit.
pub open spec fn step_fits(
    h: TargetHelper,
    min_denom: Seq<char>,
    new_perc: int,
    leftover: int,
    old_leftover: int,
    strategy: TargetOverrideStrategy,
    total: int,
) -> bool {
    let pct = h.target.percentage.atomics as int;
    &&& (h.target.denom@ != min_denom && leftover != 0 && strategy == TargetOverrideStrategy::Proportional
        && div_fits(pct, old_leftover)) ==> mul_atomics(div_atomics(pct, old_leftover), leftover)
        <= u128::MAX
    &&& override_step(h, min_denom, new_perc, leftover, old_leftover, strategy) matches Ok((_, _, add))
        ==> total + add <= u128::MAX
}

/// The override over the first `n` targets: the new targets, the leftover and
/// the sum of shares.
pub open spec fn override_scan(
    hs: Seq<TargetHelper>,
    min_denom: Seq<char>,
    new_perc: int,
    start_leftover: int,
    old_leftover: int,
    strategy: TargetOverrideStrategy,
    n: int,
) -> Result<(Seq<TargetHelper>, int, int), ContractError>
    decreases n,
{
    if n <= 0 {
        Ok((Seq::empty(), start_leftover, new_perc))
    } else {
        match override_scan(hs, min_denom, new_perc, start_leftover, old_leftover, strategy, n - 1) {
            Err(e) => Err(e),
            Ok((out, lo, total)) => match override_step(hs[n - 1], min_denom, new_perc, lo, old_leftover, strategy) {
                Err(e) => Err(e),
                Ok((h, lo2, add)) => Ok((out.push(h), lo2, total + add)),
            },
        }
    }
}

/// Every step of the override stays in range.
pub open spec fn override_fits(
    hs: Seq<TargetHelper>,
    min_denom: Seq<char>,
    new_perc: int,
    start_leftover: int,
    old_leftover: int,
    strategy: TargetOverrideStrategy,
) -> bool {
    forall|n: int|
        0 <= n < hs.len() ==> ((#[trigger] override_scan(hs, min_denom, new_perc, start_leftover, old_leftover, strategy, n))
            matches Ok((_, lo, total)) ==> step_fits(hs[n], min_denom, new_perc, lo, old_leftover, strategy, total))
}

/// The minimum balance target's new share and the leftover for the others:
/// all of the value if the minimum is worth the whole account, else the
/// minimum's part of it.
pub open spec fn override_shares(min_value: int, total_value: int) -> Result<(int, int), ContractError> {
    if min_value >= total_value {
        Ok((unit(), 0))
    } else if !div_fits(min_value, total_value) {
        Err(ContractError::CheckedFromRatioError)
    } else {
        Ok((div_atomics(min_value, total_value), unit() - div_atomics(min_value, total_value)))
    }
}

/// The value of the minimum balance of `h` in the base denomination.
pub open spec fn min_value_of(h: TargetHelper) -> int {
    div_atomics(h.target.min_balance.unwrap() * unit(), h.price.atomics as int)
}

/// What `verify_targets` yields: the targets unchanged if the minimum balance
/// target's share already covers its minimum, else the overridden targets,
/// whose shares must add up to between 0.9999 and 1.
pub open spec fn verify_targets_result(
    strategy: TargetOverrideStrategy,
    total_value: Decimal,
    hs: Seq<TargetHelper>,
) -> Result<Seq<TargetHelper>, ContractError> {
    match first_min_index(hs, hs.len() as int) {
        None => Err(ContractError::NoMinBalanceTargetFound),
        Some(m) => {
            let t = hs[m];
            if t.target.min_balance.unwrap() * unit() > u128::MAX {
                Err(ContractError::DecimalRangeExceeded)
            } else if mul_atomics(total_value.atomics as int, t.target.percentage.atomics as int) < min_value_of(t) {
                match override_shares(min_value_of(t), total_value.atomics as int) {
                    Err(e) => Err(e),
                    Ok((np, lo)) => match override_scan(
                        hs,
                        t.target.denom@,
                        np,
                        lo,
                        unit() - t.target.percentage.atomics,
                        strategy,
                        hs.len() as int,
                    ) {
                        Err(e) => Err(e),
                        Ok((out, _, total)) => if total > unit() || total < closest_to_one() {
                            Err(ContractError::InvalidTargetPercentageRatio(Decimal { atomics: total as u128 }))
                        } else {
                            Ok(out)
                        },
                    },
                }
            } else {
                Ok(hs)
            }
        },
    }
}

/// The operations of `verify_targets` stay in range (else it would panic):
/// the price of the minimum balance target is not zero and its minimum's
/// value fits, its share is at most one and its share of the total fits, and
/// the override's steps fit.
pub open spec fn verify_targets_fits(
    strategy: TargetOverrideStrategy,
    total_value: Decimal,
    hs: Seq<TargetHelper>,
) -> bool {
    match first_min_index(hs, hs.len() as int) {
        None => true,
        Some(m) => {
            let t = hs[m];
            t.target.min_balance.unwrap() * unit() <= u128::MAX ==> {
                &&& div_fits(t.target.min_balance.unwrap() * unit(), t.price.atomics as int)
                &&& mul_atomics(total_value.atomics as int, t.target.percentage.atomics as int) <= u128::MAX
                &&& t.target.percentage.atomics <= unit()
                &&& override_shares(min_value_of(t), total_value.atomics as int) matches Ok((np, lo))
                    ==> override_fits(hs, t.target.denom@, np, lo, unit() - t.target.percentage.atomics, strategy)
            }
        },
    }
}

fn find_min_target(hs: &Vec<TargetHelper>) -> (r: Option<usize>)
    ensures
        match first_min_index(hs@, hs.len() as int) {
            Some(m) => r == Some(m as usize),
            None => r is None,
        },
{
    let mut k: usize = 0;
    while k < hs.len()
        invariant
            0 <= k <= hs.len(),
            first_min_index(hs@, k as int) is None,
        decreases hs.len() - k,
    {
        if hs[k].target.min_balance.is_some() {
            proof {
                assert(first_min_index(hs@, k + 1) == Some(k as int));
                lemma_first_min_stays(hs@, k + 1, hs.len() as int);
            }
            return Some(k);
        }
        k = k + 1;
    }
    None
}

proof fn lemma_first_min_props(hs: Seq<TargetHelper>, n: int)
    requires
        0 <= n <= hs.len(),
    ensures
        first_min_index(hs, n) matches Some(m) ==> 0 <= m < n && hs[m].target.min_balance is Some,
    decreases n,
{
    if n > 0 {
        lemma_first_min_props(hs, n - 1);
    }
}

proof fn lemma_first_min_stays(hs: Seq<TargetHelper>, n: int, m: int)
    requires
        0 <= n <= m,
        first_min_index(hs, n) is Some,
    ensures
        first_min_index(hs, m) == first_min_index(hs, n),
    decreases m - n,
{
    if m > n {
        lemma_first_min_stays(hs, n, m - 1);
    }
}

proof fn lemma_override_error_stays(
    hs: Seq<TargetHelper>,
    min_denom: Seq<char>,
    new_perc: int,
    start_leftover: int,
    old_leftover: int,
    strategy: TargetOverrideStrategy,
    n: int,
    m: int,
)
    requires
        0 <= n <= m,
        override_scan(hs, min_denom, new_perc, start_leftover, old_leftover, strategy, n) is Err,
    ensures
        override_scan(hs, min_denom, new_perc, start_leftover, old_leftover, strategy, m) == override_scan(
            hs,
            min_denom,
            new_perc,
            start_leftover,
            old_leftover,
            strategy,
            n,
        ),
    decreases m - n,
{
    if m > n {
        lemma_override_error_stays(hs, min_denom, new_perc, start_leftover, old_leftover, strategy, n, m - 1);
    }
}

fn set_share(h: &TargetHelper, perc: Decimal) -> (r: TargetHelper)
    ensures
        r == with_share(*h, perc.atomics as int),
{
    let mut t = crate::rebalance::copy_helper(h);
    t.target.percentage = perc;
    t
}

/// Applies the minimum balance override where the minimum balance target's
/// share of the account's value is worth less than its minimum balance.
#[verifier::loop_isolation(false)]
pub fn verify_targets(
    strategy: TargetOverrideStrategy,
    total_value: Decimal,
    targets: Vec<TargetHelper>,
) -> (r: Result<Vec<TargetHelper>, ContractError>)
    requires
        verify_targets_fits(strategy, total_value, targets@),
    ensures
        match verify_targets_result(strategy, total_value, targets@) {
            Ok(out) => r matches Ok(v) && v@ == out,
            Err(e) => r == Err::<Vec<TargetHelper>, ContractError>(e),
        },
{
    let m = match find_min_target(&targets) {
        Some(m) => m,
        None => {
            return Err(ContractError::NoMinBalanceTargetFound);
        },
    };
    proof {
        lemma_first_min_props(targets@, targets.len() as int);
    }
    let t = crate::rebalance::copy_helper(&targets[m]);
    let min_balance = match Decimal::from_uint(t.target.min_balance.unwrap()) {
        Ok(d) => d,
        Err(_) => {
            return Err(ContractError::DecimalRangeExceeded);
        },
    };
    let min_balance_target = min_balance.div(t.price);
    let real_target = total_value.mul(t.target.percentage);
    if !(real_target.atomics < min_balance_target.atomics) {
        return Ok(targets);
    }
    let (new_perc, start_leftover) = if min_balance_target.atomics >= total_value.atomics {
        (Decimal::one(), Decimal::zero())
    } else {
        let perc = match min_balance_target.checked_div(total_value) {
            Some(p) => p,
            None => {
                return Err(ContractError::CheckedFromRatioError);
            },
        };
        proof {
            assert(perc.atomics < unit()) by {
                lemma_ratio_below_one(min_balance_target.atomics as int, total_value.atomics as int);
            }
        }
        (perc, Decimal::one().sub(perc))
    };
    let old_leftover = Decimal::one().sub(t.target.percentage);
    let ghost min_denom = t.target.denom@;
    let mut leftover = start_leftover;
    let mut total = new_perc;
    let mut out: Vec<TargetHelper> = Vec::new();
    let mut k: usize = 0;
    while k < targets.len()
        invariant
            0 <= k <= targets.len(),
            min_denom == t.target.denom@,
            override_fits(targets@, min_denom, new_perc.atomics as int, start_leftover.atomics as int, old_leftover.atomics as int, strategy),
            override_scan(targets@, min_denom, new_perc.atomics as int, start_leftover.atomics as int, old_leftover.atomics as int, strategy, k as int)
                == Ok::<(Seq<TargetHelper>, int, int), ContractError>((out@, leftover.atomics as int, total.atomics as int)),
        decreases targets.len() - k,
    {
        let h = &targets[k];
        proof {
            assert(step_fits(targets@[k as int], min_denom, new_perc.atomics as int, leftover.atomics as int, old_leftover.atomics as int, strategy, total.atomics as int));
        }
        if h.target.denom == t.target.denom {
            out.push(set_share(h, new_perc));
        } else if leftover.is_zero() {
            out.push(set_share(h, Decimal::zero()));
        } else {
            match strategy {
                TargetOverrideStrategy::Proportional => {
                    let old_perc = match h.target.percentage.checked_div(old_leftover) {
                        Some(p) => p,
                        None => {
                            proof {
                                lemma_override_error_stays(targets@, min_denom, new_perc.atomics as int, start_leftover.atomics as int, old_leftover.atomics as int, strategy, k + 1, targets.len() as int);
                            }
                            return Err(ContractError::CheckedFromRatioError);
                        },
                    };
                    let np = old_perc.mul(leftover);
                    total = total.add(np);
                    out.push(set_share(h, np));
                },
                TargetOverrideStrategy::Priority => {
                    if leftover.atomics >= h.target.percentage.atomics {
                        leftover = leftover.sub(h.target.percentage);
                        total = total.add(h.target.percentage);
                        out.push(crate::rebalance::copy_helper(h));
                    } else {
                        total = total.add(leftover);
                        out.push(set_share(h, leftover));
                        leftover = Decimal::zero();
                    }
                },
            }
        }
        k = k + 1;
    }
    if total.atomics > crate::decimal::DECIMAL_FRACTIONAL || total.atomics < 999_900_000_000_000_000u128 {
        return Err(ContractError::InvalidTargetPercentageRatio(total));
    }
    Ok(out)
}

proof fn lemma_ratio_below_one(a: int, b: int)
    requires
        0 <= a < b,
    ensures
        div_atomics(a, b) < unit(),
{
    assert(a * unit() < b * unit()) by (nonlinear_arith)
        requires
            0 <= a < b,
    ;
    vstd::arithmetic::div_mod::lemma_div_is_ordered(a * unit(), b * unit() - 1, b);
    assert((b * unit() - 1) / b < unit()) by {
        vstd::arithmetic::div_mod::lemma_div_by_multiple(unit(), b);
        assert(b * unit() == unit() * b) by (nonlinear_arith);
        vstd::arithmetic::div_mod::lemma_div_is_ordered(b * unit() - 1, b * unit(), b);
        vstd::arithmetic::div_mod::lemma_fundamental_div_mod(b * unit() - 1, b);
        vstd::arithmetic::div_mod::lemma_mod_bound(b * unit() - 1, b);
        assert((b * unit() - 1) / b != unit()) by (nonlinear_arith)
            requires
                b > 0,
                b * ((b * unit() - 1) / b) + (b * unit() - 1) % b == b * unit() - 1,
                0 <= (b * unit() - 1) % b < b,
        ;
    }
}


/// Scaling a share by `lo / old_lo`, with `lo` at most `old_lo`, never raises it.
proof fn lemma_scaled_share_le(pct: int, lo: int, old_lo: int)
    requires
        0 <= pct,
        0 <= lo <= old_lo,
        0 < old_lo,
    ensures
        0 <= mul_atomics(div_atomics(pct, old_lo), lo) <= pct,
{
    let a = (pct * unit()) / old_lo;
    assert(0 <= a && a * old_lo <= pct * unit()) by (nonlinear_arith)
        requires
            a == (pct * unit()) / old_lo,
            0 <= pct,
            0 < old_lo,
    ;
    assert(0 <= a * lo <= a * old_lo) by (nonlinear_arith)
        requires
            0 <= a,
            0 <= lo <= old_lo,
    ;
    assert(0 <= (a * lo) / unit() <= pct) by (nonlinear_arith)
        requires
            0 <= a * lo <= pct * unit(),
            0 <= pct,
    ;
}

/// A share whose value falls short of `min_value` is below the share
/// `min_value` is worth.
proof fn lemma_short_share_below(total: int, pct: int, min_value: int)
    requires
        0 < total,
        0 <= pct,
        0 <= min_value,
        mul_atomics(total, pct) < min_value,
    ensures
        pct <= div_atomics(min_value, total),
{
    let q = (min_value * unit()) / total;
    assert(total * pct < min_value * unit()) by (nonlinear_arith)
        requires
            (total * pct) / unit() < min_value,
            0 < total,
            0 <= pct,
    ;
    assert(min_value * unit() < (q + 1) * total) by (nonlinear_arith)
        requires
            q == (min_value * unit()) / total,
            0 < total,
            0 <= min_value,
    ;
    assert(pct <= q) by (nonlinear_arith)
        requires
            total * pct < min_value * unit(),
            min_value * unit() < (q + 1) * total,
            0 < total,
    ;
}

/// Over the first `n` targets, the override gives each target of the
/// minimum balance denomination the new share and never raises another's.
proof fn lemma_scan_gives_way(
    hs: Seq<TargetHelper>,
    min_denom: Seq<char>,
    new_perc: int,
    start_leftover: int,
    old_leftover: int,
    strategy: TargetOverrideStrategy,
    n: int,
)
    requires
        0 <= n <= hs.len(),
        0 <= start_leftover <= old_leftover,
        override_scan(hs, min_denom, new_perc, start_leftover, old_leftover, strategy, n) is Ok,
    ensures
        ({
            let (out, lo, _) = override_scan(hs, min_denom, new_perc, start_leftover, old_leftover, strategy, n)->Ok_0;
            &&& out.len() == n
            &&& 0 <= lo <= start_leftover
            &&& strategy == TargetOverrideStrategy::Proportional ==> lo == start_leftover
            &&& forall|j: int| 0 <= j < n ==> (#[trigger] out[j]).target.denom == hs[j].target.denom
            &&& forall|j: int|
                0 <= j < n && hs[j].target.denom@ == min_denom ==> (#[trigger] out[j]).target.percentage.atomics
                    == new_perc as u128
            &&& forall|j: int|
                0 <= j < n && hs[j].target.denom@ != min_denom ==> (#[trigger] out[j]).target.percentage.atomics
                    <= hs[j].target.percentage.atomics
        }),
    decreases n,
{
    if n > 0 {
        lemma_scan_gives_way(hs, min_denom, new_perc, start_leftover, old_leftover, strategy, n - 1);
        let (out, lo, total) = override_scan(hs, min_denom, new_perc, start_leftover, old_leftover, strategy, n - 1)->Ok_0;
        let h = hs[n - 1];
        let pct = h.target.percentage.atomics as int;
        if h.target.denom@ != min_denom && lo != 0 && strategy == TargetOverrideStrategy::Proportional {
            lemma_scaled_share_le(pct, lo, old_leftover);
        }
        let (h2, lo2, add) = override_step(h, min_denom, new_perc, lo, old_leftover, strategy)->Ok_0;
        assert(override_scan(hs, min_denom, new_perc, start_leftover, old_leftover, strategy, n)->Ok_0.0 == out.push(h2));
    }
}

/// The minimum balance override never raises the share of a target of another
/// denomination than the minimum balance target's, never lowers that target's
/// share, and keeps the targets and their order.
pub proof fn lemma_override_gives_way(strategy: TargetOverrideStrategy, total_value: Decimal, hs: Seq<TargetHelper>)
    requires
        verify_targets_fits(strategy, total_value, hs),
        verify_targets_result(strategy, total_value, hs) is Ok,
    ensures
        ({
            let out = verify_targets_result(strategy, total_value, hs)->Ok_0;
            let m = first_min_index(hs, hs.len() as int)->Some_0;
            &&& out.len() == hs.len()
            &&& forall|j: int| 0 <= j < hs.len() ==> (#[trigger] out[j]).target.denom == hs[j].target.denom
            &&& out[m].target.percentage.atomics >= hs[m].target.percentage.atomics
            &&& forall|j: int|
                0 <= j < hs.len() && hs[j].target.denom@ != hs[m].target.denom@ ==> (#[trigger] out[j]).target.percentage.atomics
                    <= hs[j].target.percentage.atomics
        }),
{
    lemma_first_min_props(hs, hs.len() as int);
    let m = first_min_index(hs, hs.len() as int)->Some_0;
    let t = hs[m];
    let mv = min_value_of(t);
    let pct_m = t.target.percentage.atomics as int;
    let tv = total_value.atomics as int;
    if mul_atomics(tv, pct_m) < mv {
        let (np, lo) = override_shares(mv, tv)->Ok_0;
        if mv >= tv {
            assert(np == unit() && lo == 0);
        } else {
            assert(0 < tv);
            let x = t.target.min_balance.unwrap() as int * unit();
            let p = t.price.atomics as int;
            assert(p != 0);
            assert(mv >= 0) by (nonlinear_arith)
                requires
                    mv == (x * unit()) / p,
                    x >= 0,
                    p > 0,
            ;
            lemma_short_share_below(tv, pct_m, mv);
            assert(div_atomics(mv, tv) < unit()) by (nonlinear_arith)
                requires
                    0 <= mv < tv,
            ;
        }
        lemma_scan_gives_way(hs, t.target.denom@, np, lo, unit() - pct_m, strategy, hs.len() as int);
    }
}


/// The sum of the shares of the first `n` targets.
pub open spec fn shares_sum(hs: Seq<TargetHelper>, n: int) -> int
    decreases n,
{
    if n <= 0 {
        0
    } else {
        shares_sum(hs, n - 1) + hs[n - 1].target.percentage.atomics
    }
}

/// How many of the first `n` targets are of denomination `d`.
pub open spec fn denom_count(hs: Seq<TargetHelper>, d: Seq<char>, n: int) -> int
    decreases n,
{
    if n <= 0 {
        0
    } else {
        denom_count(hs, d, n - 1) + if hs[n - 1].target.denom@ == d { 1int } else { 0int }
    }
}

/// The sum the override computes is the new share, plus the shares it gives
/// the targets, less the new share once per target of the minimum balance
/// denomination.
proof fn lemma_scan_sum(
    hs: Seq<TargetHelper>,
    min_denom: Seq<char>,
    new_perc: int,
    start_leftover: int,
    old_leftover: int,
    strategy: TargetOverrideStrategy,
    n: int,
)
    requires
        0 <= n <= hs.len(),
        0 <= new_perc <= u128::MAX,
        0 <= start_leftover <= old_leftover,
        override_scan(hs, min_denom, new_perc, start_leftover, old_leftover, strategy, n) is Ok,
    ensures
        ({
            let (out, _, total) = override_scan(hs, min_denom, new_perc, start_leftover, old_leftover, strategy, n)->Ok_0;
            total == new_perc + shares_sum(out, n) - new_perc * denom_count(hs, min_denom, n)
        }),
    decreases n,
{
    if n > 0 {
        lemma_scan_sum(hs, min_denom, new_perc, start_leftover, old_leftover, strategy, n - 1);
        lemma_scan_gives_way(hs, min_denom, new_perc, start_leftover, old_leftover, strategy, n - 1);
        let (out, lo, total) = override_scan(hs, min_denom, new_perc, start_leftover, old_leftover, strategy, n - 1)->Ok_0;
        let h = hs[n - 1];
        let pct = h.target.percentage.atomics as int;
        if h.target.denom@ != min_denom && lo != 0 && strategy == TargetOverrideStrategy::Proportional {
            lemma_scaled_share_le(pct, lo, old_leftover);
        }
        let (h2, lo2, add) = override_step(h, min_denom, new_perc, lo, old_leftover, strategy)->Ok_0;
        let out2 = out.push(h2);
        assert(out2.len() == n);
        assert(out2.drop_last() == out);
        assert forall|j: int| 0 <= j < n - 1 implies out2[j] == out[j] by {}
        lemma_shares_sum_prefix(out2, out, n - 1);
        assert(shares_sum(out2, n) == shares_sum(out, n - 1) + h2.target.percentage.atomics);
        assert(override_scan(hs, min_denom, new_perc, start_leftover, old_leftover, strategy, n)->Ok_0
            == (out2, lo2, total + add));
        let c0 = denom_count(hs, min_denom, n - 1);
        if h.target.denom@ == min_denom {
            assert(h2.target.percentage.atomics == new_perc);
            assert(add == 0);
            assert(denom_count(hs, min_denom, n) == c0 + 1);
            assert(new_perc * (c0 + 1) == new_perc * c0 + new_perc) by (nonlinear_arith);
        } else {
            assert(h2.target.percentage.atomics == add);
            assert(denom_count(hs, min_denom, n) == c0);
        }
    }
}

proof fn lemma_shares_sum_prefix(a: Seq<TargetHelper>, b: Seq<TargetHelper>, n: int)
    requires
        0 <= n <= a.len(),
        n <= b.len(),
        forall|j: int| 0 <= j < n ==> a[j] == b[j],
    ensures
        shares_sum(a, n) == shares_sum(b, n),
    decreases n,
{
    if n > 0 {
        lemma_shares_sum_prefix(a, b, n - 1);
    }
}

proof fn lemma_denom_count_one(hs: Seq<TargetHelper>, m: int, n: int)
    requires
        0 <= m < hs.len(),
        0 <= n <= hs.len(),
        forall|j: int| 0 <= j < hs.len() && hs[j].target.denom@ == hs[m].target.denom@ ==> j == m,
    ensures
        denom_count(hs, hs[m].target.denom@, n) == if m < n { 1int } else { 0int },
    decreases n,
{
    if n > 0 {
        lemma_denom_count_one(hs, m, n - 1);
    }
}

/// Where the override runs and the minimum balance target is the only one of
/// its denomination, the shares of the targets it yields add up to between
/// 0.9999 and 1.
pub proof fn lemma_override_shares_add_up(strategy: TargetOverrideStrategy, total_value: Decimal, hs: Seq<TargetHelper>)
    requires
        verify_targets_fits(strategy, total_value, hs),
        verify_targets_result(strategy, total_value, hs) is Ok,
        first_min_index(hs, hs.len() as int) matches Some(m) && forall|j: int|
            0 <= j < hs.len() && hs[j].target.denom@ == hs[m].target.denom@ ==> j == m,
    ensures
        ({
            let out = verify_targets_result(strategy, total_value, hs)->Ok_0;
            let m = first_min_index(hs, hs.len() as int)->Some_0;
            mul_atomics(total_value.atomics as int, hs[m].target.percentage.atomics as int) < min_value_of(hs[m])
                ==> closest_to_one() <= shares_sum(out, out.len() as int) <= unit()
        }),
{
    lemma_first_min_props(hs, hs.len() as int);
    let m = first_min_index(hs, hs.len() as int)->Some_0;
    let t = hs[m];
    let mv = min_value_of(t);
    let pct_m = t.target.percentage.atomics as int;
    let tv = total_value.atomics as int;
    if mul_atomics(tv, pct_m) < mv {
        let (np, lo) = override_shares(mv, tv)->Ok_0;
        if mv >= tv {
            assert(np == unit() && lo == 0);
        } else {
            assert(0 < tv);
            let x = t.target.min_balance.unwrap() as int * unit();
            let p = t.price.atomics as int;
            assert(p != 0);
            assert(mv >= 0) by (nonlinear_arith)
                requires
                    mv == (x * unit()) / p,
                    x >= 0,
                    p > 0,
            ;
            lemma_short_share_below(tv, pct_m, mv);
            assert(div_atomics(mv, tv) < unit()) by (nonlinear_arith)
                requires
                    0 <= mv < tv,
            ;
            assert(0 <= div_atomics(mv, tv)) by (nonlinear_arith)
                requires
                    0 <= mv,
                    0 < tv,
            ;
        }
        lemma_scan_gives_way(hs, t.target.denom@, np, lo, unit() - pct_m, strategy, hs.len() as int);
        lemma_scan_sum(hs, t.target.denom@, np, lo, unit() - pct_m, strategy, hs.len() as int);
        lemma_denom_count_one(hs, m, hs.len() as int);
    }
}

} // verus!
