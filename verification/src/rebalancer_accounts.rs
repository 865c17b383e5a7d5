//! Pausing and resuming an account's rebalancing: who may do it, and whether
//! the account is worth enough to resume.
use vstd::prelude::*;
use crate::chain::Coin;
use crate::decimal::{Decimal, unit, div_fits};
use crate::messages::QueryFeeAction;
use crate::rebalancer::{BaseDenom, ContractError, RebalancerConfig, value_in_base};

verus! {

/// Why an account was paused.
#[derive(Clone, Debug, PartialEq, Eq)]
pub enum PauseReason {
    /// The system found the account's balance too small.
    EmptyBalance,
    /// The account's code is no longer whitelisted: its code id.
    NotWhitelistedAccountCodeId(u64),
    /// The account or its trustee paused it, for the given reason.
    AccountReason(String),
}

/// A paused account: who paused it, why, and its configuration.
#[derive(Clone, Debug, PartialEq, Eq)]
pub struct PauseData {
    pub pauser: String,
    pub reason: PauseReason,
    pub config: RebalancerConfig,
}

/// Who pauses an account, given who asks, who paused it already (if anyone)
/// and its trustee.
pub open spec fn pause_result(
    account: Seq<char>,
    sender: Seq<char>,
    current_pauser: Option<Seq<char>>,
    trustee: Option<Seq<char>>,
) -> Result<Seq<char>, ContractError> {
    match current_pauser {
        Some(p) => if sender == p || account == p {
            Err(ContractError::AccountAlreadyPaused)
        } else if sender == account {
            Ok(account)
        } else if trustee == Some(sender) {
            Ok(account)
        } else {
            Err(ContractError::NotAuthorizedToPause)
        },
        None => if sender == account {
            Ok(account)
        } else if trustee == Some(sender) {
            Ok(sender)
        } else {
            Err(ContractError::NotAuthorizedToPause)
        },
    }
}

/// The text of an optional address.
pub open spec fn opt_view(o: Option<String>) -> Option<Seq<char>> {
    match o {
        Some(s) => Some(s@),
        None => None,
    }
}

fn same_opt(a: &Option<String>, b: &String) -> (r: bool)
    ensures
        r == (opt_view(*a) == Some(b@)),
{
    match a {
        Some(x) => *x == *b,
        None => false,
    }
}

/// Decides a pause request: the account itself may always pause (and then
/// overrides a trustee's pause); its trustee may pause an active account; a
/// pauser may not pause twice. Returns the new pauser.
pub fn pause_decision(
    account: &String,
    sender: &String,
    current_pauser: &Option<String>,
    trustee: &Option<String>,
) -> (r: Result<String, ContractError>)
    ensures
        match pause_result(account@, sender@, opt_view(*current_pauser), opt_view(*trustee)) {
            Ok(p) => r matches Ok(q) && q@ == p,
            Err(e) => r == Err::<String, ContractError>(e),
        },
{
    match current_pauser {
        Some(p) => {
            if *sender == *p || *account == *p {
                return Err(ContractError::AccountAlreadyPaused);
            }
            if *sender == *account {
                return Ok(account.clone());
            }
            if same_opt(trustee, sender) {
                return Ok(account.clone());
            }
            Err(ContractError::NotAuthorizedToPause)
        },
        None => {
            if *sender == *account {
                return Ok(account.clone());
            }
            if same_opt(trustee, sender) {
                return Ok(sender.clone());
            }
            Err(ContractError::NotAuthorizedToPause)
        },
    }
}

/// Whether `sender` may resume the account: the account itself always, its
/// trustee unless the account paused itself.
pub open spec fn may_resume(
    account: Seq<char>,
    sender: Seq<char>,
    pauser: Seq<char>,
    trustee: Option<Seq<char>>,
) -> bool {
    sender == account || (trustee == Some(sender) && pauser != account)
}

/// Checks that `sender` may resume the account.
pub fn resume_authorized(account: &String, sender: &String, pauser: &String, trustee: &Option<String>) -> (r: Result<(), ContractError>)
    ensures
        may_resume(account@, sender@, pauser@, opt_view(*trustee)) ==> r is Ok,
        !may_resume(account@, sender@, pauser@, opt_view(*trustee)) ==> r == Err::<(), ContractError>(
            ContractError::NotAuthorizedToResume,
        ),
{
    if *sender == *account {
        return Ok(());
    }
    if same_opt(trustee, sender) && *pauser != *account {
        return Ok(());
    }
    Err(ContractError::NotAuthorizedToResume)
}

/// An account that paused itself can be resumed only by itself.
pub proof fn lemma_self_pause_blocks_trustee(
    account: Seq<char>,
    current_pauser: Option<Seq<char>>,
    trustee: Option<Seq<char>>,
    resumer: Seq<char>,
)
    requires
        pause_result(account, account, current_pauser, trustee) is Ok,
    ensures
        pause_result(account, account, current_pauser, trustee) == Ok::<Seq<char>, ContractError>(
            account,
        ),
        may_resume(account, resumer, account, trustee) ==> resumer == account,
{
}

/// A pause is refused to whoever paused the account already.
pub proof fn lemma_no_double_pause(account: Seq<char>, pauser: Seq<char>, trustee: Option<Seq<char>>)
    ensures
        pause_result(account, pauser, Some(pauser), trustee) == Err::<Seq<char>, ContractError>(
            ContractError::AccountAlreadyPaused,
        ),
{
}

/// The value of `balance` units of `denom` in the base denomination, given the
/// price of the pair (base, denom) as queried.
pub open spec fn base_value(
    denom: String,
    base: BaseDenom,
    balance: u128,
    price: Result<Decimal, String>,
) -> Result<int, ContractError> {
    if denom@ == base.denom@ {
        Ok(balance as int)
    } else {
        match price {
            Err(e) => Err(ContractError::Std(e)),
            Ok(p) => if p.atomics == 0 {
                Err(ContractError::PairPriceIsZero(base.denom, denom))
            } else if balance * unit() > u128::MAX {
                Err(ContractError::DecimalRangeExceeded)
            } else if !div_fits(balance * unit(), p.atomics as int) {
                Err(ContractError::CheckedFromRatioError)
            } else {
                Ok(value_in_base(balance as int, p.atomics as int))
            },
        }
    }
}

fn base_value_exec(
    denom: &String,
    base: &BaseDenom,
    balance: u128,
    price: &Result<Decimal, String>,
) -> (r: Result<u128, ContractError>)
    ensures
        match base_value(*denom, *base, balance, *price) {
            Ok(v) => r == Ok::<u128, ContractError>(v as u128) && v == r->Ok_0,
            Err(e) => r == Err::<u128, ContractError>(e),
        },
{
    if *denom == base.denom {
        return Ok(balance);
    }
    let price = match price {
        Ok(p) => *p,
        Err(e) => {
            return Err(ContractError::Std(e.clone()));
        },
    };
    if price.is_zero() {
        return Err(ContractError::PairPriceIsZero(base.denom.clone(), denom.clone()));
    }
    let bal_d = match Decimal::from_uint(balance) {
        Ok(d) => d,
        Err(_) => {
            return Err(ContractError::DecimalRangeExceeded);
        },
    };
    match bal_d.checked_div(price) {
        Some(v) => Ok(v.to_uint_floor()),
        None => Err(ContractError::CheckedFromRatioError),
    }
}

/// The running total of an account's value over its first `n` targets; once
/// the minimum is reached the remaining targets are not looked at.
pub open spec fn resume_scan(
    config: RebalancerConfig,
    base: BaseDenom,
    balances: Seq<Result<u128, String>>,
    prices: Seq<Result<Decimal, String>>,
    n: int,
) -> Result<(u128, bool), ContractError>
    decreases n,
{
    if n <= 0 {
        Ok((0u128, false))
    } else {
        match resume_scan(config, base, balances, prices, n - 1) {
            Err(e) => Err(e),
            Ok((total, met)) => if met {
                Ok((total, met))
            } else {
                match balances[n - 1] {
                    Err(e) => Err(ContractError::Std(e)),
                    Ok(bal) => match base_value(config.targets@[n - 1].denom, base, bal, prices[n - 1]) {
                        Err(e) => Err(e),
                        Ok(v) => if total + v > u128::MAX {
                            Err(ContractError::OverflowError)
                        } else {
                            Ok(((total + v) as u128, total + v >= base.min_balance_limit))
                        },
                    },
                }
            },
        }
    }
}

/// Whether a paused account may resume: the account's value (summed over its
/// targets, in the base denomination) must reach the base denomination's
/// minimum. Balances and prices are as queried for each target.
pub fn check_resume_value(
    config: &RebalancerConfig,
    base: &BaseDenom,
    balances: &Vec<Result<u128, String>>,
    prices: &Vec<Result<Decimal, String>>,
) -> (r: Result<(), ContractError>)
    requires
        balances.len() == config.targets.len(),
        prices.len() == config.targets.len(),
    ensures
        match resume_scan(*config, *base, balances@, prices@, config.targets.len() as int) {
            Err(e) => r == Err::<(), ContractError>(e),
            Ok((total, met)) => if met {
                r is Ok
            } else {
                r == Err::<(), ContractError>(
                    ContractError::InvalidAccountMinValue(total, base.min_balance_limit),
                )
            },
        },
{
    let mut total: u128 = 0;
    let mut met = false;
    let mut k: usize = 0;
    while k < config.targets.len()
        invariant
            0 <= k <= config.targets.len(),
            balances.len() == config.targets.len(),
            prices.len() == config.targets.len(),
            resume_scan(*config, *base, balances@, prices@, k as int) == Ok::<(u128, bool), ContractError>((total, met)),
            !met,
        decreases config.targets.len() - k,
    {
        let bal = match &balances[k] {
            Ok(b) => *b,
            Err(e) => {
                proof {
                    lemma_resume_error_stays(*config, *base, balances@, prices@, k + 1, config.targets.len() as int);
                }
                return Err(ContractError::Std(e.clone()));
            },
        };
        let v = match base_value_exec(&config.targets[k].denom, base, bal, &prices[k]) {
            Ok(v) => v,
            Err(e) => {
                proof {
                    lemma_resume_error_stays(*config, *base, balances@, prices@, k + 1, config.targets.len() as int);
                }
                return Err(e);
            },
        };
        total = match total.checked_add(v) {
            Some(t) => t,
            None => {
                proof {
                    lemma_resume_error_stays(*config, *base, balances@, prices@, k + 1, config.targets.len() as int);
                }
                return Err(ContractError::OverflowError);
            },
        };
        if total >= base.min_balance_limit {
            proof {
                lemma_resume_met_stays(*config, *base, balances@, prices@, k + 1, config.targets.len() as int);
            }
            return Ok(());
        }
        k = k + 1;
    }
    Err(ContractError::InvalidAccountMinValue(total, base.min_balance_limit))
}

proof fn lemma_resume_error_stays(
    config: RebalancerConfig,
    base: BaseDenom,
    balances: Seq<Result<u128, String>>,
    prices: Seq<Result<Decimal, String>>,
    n: int,
    m: int,
)
    requires
        0 <= n <= m,
        resume_scan(config, base, balances, prices, n) is Err,
    ensures
        resume_scan(config, base, balances, prices, m) == resume_scan(config, base, balances, prices, n),
    decreases m - n,
{
    if m > n {
        lemma_resume_error_stays(config, base, balances, prices, n, m - 1);
    }
}

proof fn lemma_resume_met_stays(
    config: RebalancerConfig,
    base: BaseDenom,
    balances: Seq<Result<u128, String>>,
    prices: Seq<Result<Decimal, String>>,
    n: int,
    m: int,
)
    requires
        0 <= n <= m,
        resume_scan(config, base, balances, prices, n) matches Ok((_, met)) && met,
    ensures
        resume_scan(config, base, balances, prices, m) == resume_scan(config, base, balances, prices, n),
    decreases m - n,
{
    if m > n {
        lemma_resume_met_stays(config, base, balances, prices, n, m - 1);
    }
}

/// The fees of the service: to register, and to resume after the system
/// paused an account.
#[derive(Clone, Debug, PartialEq, Eq)]
pub struct ServiceFeeConfig {
    pub denom: String,
    pub register_fee: u128,
    pub resume_fee: u128,
}

/// The fee an action costs: registering costs the registration fee; resuming
/// an account the system paused (empty balance, code no longer whitelisted)
/// costs the resume fee, one the account paused itself costs nothing, and
/// resuming an account that is not paused costs nothing.
pub open spec fn fee_amount(fees: ServiceFeeConfig, action: QueryFeeAction, reason: Option<PauseReason>) -> int {
    match action {
        QueryFeeAction::Register => fees.register_fee as int,
        QueryFeeAction::Resume => match reason {
            None => 0,
            Some(PauseReason::EmptyBalance) => fees.resume_fee as int,
            Some(PauseReason::NotWhitelistedAccountCodeId(_)) => fees.resume_fee as int,
            Some(PauseReason::AccountReason(_)) => 0,
        },
    }
}

/// The fee of an action as a coin, or `None` where it costs nothing.
pub fn service_fee(fees: &ServiceFeeConfig, action: QueryFeeAction, reason: &Option<PauseReason>) -> (r: Option<Coin>)
    ensures
        fee_amount(*fees, action, *reason) == 0 ==> r is None,
        fee_amount(*fees, action, *reason) != 0 ==> r == Some(
            Coin { denom: fees.denom, amount: fee_amount(*fees, action, *reason) as u128 },
        ),
{
    let amount = match action {
        QueryFeeAction::Register => fees.register_fee,
        QueryFeeAction::Resume => match reason {
            None => {
                return None;
            },
            Some(PauseReason::EmptyBalance) => fees.resume_fee,
            Some(PauseReason::NotWhitelistedAccountCodeId(_)) => fees.resume_fee,
            Some(PauseReason::AccountReason(_)) => 0,
        },
    };
    if amount != 0 {
        Some(Coin { denom: fees.denom.clone(), amount })
    } else {
        None
    }
}

} // verus!
