//! The rebalancer service: accounts register target percentages of their
//! balance per denomination, and each cycle a PID controller decides what to
//! sell and buy through the auctions to move towards the targets.
use vstd::prelude::*;
use crate::chain::{Pair, Timestamp};
use crate::decimal::{Decimal, decimal_parse, unit, mul_atomics, div_atomics, div_fits};
use crate::fixed_i128::FixedI128;
use crate::services::{OptionalField, ValenceError, apply_optional};

verus! {

/// The default length of a rebalance cycle: one day.
pub const DEFAULT_CYCLE_PERIOD: u64 = 86_400u64;

/// How many accounts a system rebalance visits when no limit is given.
pub const DEFAULT_SYSTEM_LIMIT: u64 = 50;

/// The time step of the controller is capped at ten cycles.
pub const MAX_PID_DT_VALUE: u128 = 10;

/// Errors of the rebalancer.
#[derive(Clone, Debug, PartialEq, Eq)]
pub enum ContractError {
    Valence(ValenceError),
    OverflowError,
    DecimalRangeExceeded,
    CheckedFromRatioError,
    SignedDecimalRangeExceeded,
    /// A query of the chain failed.
    Std(String),
    LimitIsZero,
    CycleNotStartedYet(u64),
    AccountBalanceIsZero,
    /// The account's value and the required minimum.
    InvalidAccountMinValue(u128, u128),
    NoMinBalanceTargetFound,
    /// The targets' basis points do not add up to 10000: their sum.
    InvalidTargetPercentage(u128),
    /// Adjusted target percentages do not add up to (nearly) one: their sum.
    InvalidTargetPercentageRatio(Decimal),
    NoMinAuctionAmountFound,
    PairDoesntExists(String, String),
    PairPriceIsZero(String, String),
    MustProvideRebalancerData,
    AccountAlreadyRegistered,
    BaseDenomNotWhitelisted(String),
    TwoTargetsMinimum,
    BpsOverflow,
    MultipleMinBalanceTargets,
    DenomNotWhitelisted(String),
    NotAuthorizedToPause,
    NotAuthorizedToResume,
    AccountAlreadyPaused,
    NotPaused,
    CantUpdateStatusToProcessing,
    CannotRemoveDenom(String),
    CannotRemoveBaseDenom(String),
    CycleStartTooFarInFuture,
}

/// How the other targets give way when a minimum balance raises one target.
#[derive(Clone, Copy, Debug, PartialEq, Eq, Structural)]
pub enum TargetOverrideStrategy {
    /// Scale the others down proportionally.
    Proportional,
    /// Keep the others in order until the remainder runs out.
    Priority,
}

/// A target as requested: a denomination, its share in basis points, and an
/// optional minimum balance.
#[derive(Clone, Debug, PartialEq, Eq)]
pub struct Target {
    pub denom: String,
    pub percentage: u64,
    pub min_balance: Option<u128>,
}

/// A target as stored, with the controller's memory.
#[derive(Clone, Debug, PartialEq, Eq)]
pub struct ParsedTarget {
    pub denom: String,
    pub percentage: Decimal,
    pub min_balance: Option<u128>,
    /// The input of the last rebalance.
    pub last_input: Option<Decimal>,
    /// The integral term of the last rebalance.
    pub last_i: FixedI128,
}

impl ParsedTarget {
    /// A fresh stored target: the basis points become a decimal, with no memory.
    pub fn from_target(t: Target) -> (r: ParsedTarget)
        ensures
            r.denom == t.denom,
            r.percentage.atomics == t.percentage as int * 100_000_000_000_000,
            r.min_balance == t.min_balance,
            r.last_input is None,
            r.last_i.atomics == 0,
    {
        ParsedTarget {
            denom: t.denom,
            percentage: Decimal::bps(t.percentage),
            min_balance: t.min_balance,
            last_input: None,
            last_i: FixedI128::zero(),
        }
    }
}

/// The controller's coefficients as text.
#[derive(Clone, Debug, PartialEq, Eq)]
pub struct PID {
    pub p: String,
    pub i: String,
    pub d: String,
}

/// The controller's coefficients.
#[derive(Clone, Copy, Debug, PartialEq, Eq, Structural)]
pub struct ParsedPID {
    pub p: Decimal,
    pub i: Decimal,
    pub d: Decimal,
}

impl ParsedPID {
    /// The proportional and integral coefficients may not exceed one.
    pub fn verify(self) -> (r: Result<ParsedPID, ValenceError>)
        ensures
            (self.p.atomics > unit() || self.i.atomics > unit()) ==> r == Err::<
                ParsedPID,
                ValenceError,
            >(ValenceError::PIDErrorOver),
            (self.p.atomics <= unit() && self.i.atomics <= unit()) ==> r == Ok::<
                ParsedPID,
                ValenceError,
            >(self),
    {
        let one = Decimal::one();
        if self.p.atomics > one.atomics || self.i.atomics > one.atomics {
            return Err(ValenceError::PIDErrorOver);
        }
        Ok(self)
    }
}

impl PID {
    /// Parses and checks the coefficients.
    pub fn into_parsed(&self) -> (r: Result<ParsedPID, ValenceError>)
        ensures
            (decimal_parse(self.p@) is None || decimal_parse(self.i@) is None || decimal_parse(
                self.d@,
            ) is None) ==> r == Err::<ParsedPID, ValenceError>(ValenceError::InvalidDecimal),
            decimal_parse(self.p@) matches Some(p) ==> decimal_parse(self.i@) matches Some(i)
                ==> decimal_parse(self.d@) matches Some(d) ==> {
                &&& (p > unit() || i > unit()) ==> r == Err::<ParsedPID, ValenceError>(
                    ValenceError::PIDErrorOver,
                )
                &&& (p <= unit() && i <= unit()) ==> r == Ok::<ParsedPID, ValenceError>(
                    ParsedPID {
                        p: Decimal { atomics: p },
                        i: Decimal { atomics: i },
                        d: Decimal { atomics: d },
                    },
                )
            },
    {
        let p = match Decimal::from_str(self.p.as_str()) {
            Some(x) => x,
            None => {
                return Err(ValenceError::InvalidDecimal);
            },
        };
        let i = match Decimal::from_str(self.i.as_str()) {
            Some(x) => x,
            None => {
                return Err(ValenceError::InvalidDecimal);
            },
        };
        let d = match Decimal::from_str(self.d.as_str()) {
            Some(x) => x,
            None => {
                return Err(ValenceError::InvalidDecimal);
            },
        };
        ParsedPID { p, i, d }.verify()
    }
}

/// A base denomination and the minimum account value it requires.
#[derive(Clone, Debug, PartialEq, Eq)]
pub struct BaseDenom {
    pub denom: String,
    pub min_balance_limit: u128,
}

/// What an account registers with.
#[derive(Clone, Debug, PartialEq, Eq)]
pub struct RebalancerData {
    pub trustee: Option<String>,
    pub base_denom: String,
    pub targets: Vec<Target>,
    pub pid: PID,
    /// The largest share of the account's value sold per cycle, in basis points.
    pub max_limit_bps: Option<u64>,
    pub target_override_strategy: TargetOverrideStrategy,
}

/// What an account may change.
#[derive(Clone, Debug, PartialEq, Eq)]
pub struct RebalancerUpdateData {
    pub trustee: Option<OptionalField<String>>,
    pub base_denom: Option<String>,
    pub targets: Vec<Target>,
    pub pid: Option<PID>,
    pub max_limit_bps: Option<OptionalField<u64>>,
    pub target_override_strategy: Option<TargetOverrideStrategy>,
}

/// An account's stored configuration.
#[derive(Clone, Debug, PartialEq, Eq)]
pub struct RebalancerConfig {
    /// Who paused the account, if it is paused.
    pub is_paused: Option<String>,
    pub trustee: Option<String>,
    pub base_denom: String,
    pub targets: Vec<ParsedTarget>,
    pub pid: ParsedPID,
    /// The largest share of the account's value sold per cycle.
    pub max_limit: Decimal,
    pub last_rebalance: Timestamp,
    pub has_min_balance: bool,
    pub target_override_strategy: TargetOverrideStrategy,
}

/// Some target has a minimum balance.
pub open spec fn any_min_balance(targets: Seq<Target>) -> bool {
    exists|i: int| 0 <= i < targets.len() && (#[trigger] targets[i]).min_balance is Some
}

fn parse_targets(targets: Vec<Target>) -> (r: (Vec<ParsedTarget>, bool))
    ensures
        r.0.len() == targets.len(),
        forall|i: int|
            0 <= i < targets.len() ==> {
                let t = #[trigger] targets@[i];
                let p = r.0@[i];
                &&& p.denom == t.denom
                &&& p.percentage.atomics == t.percentage as int * 100_000_000_000_000
                &&& p.min_balance == t.min_balance
                &&& p.last_input is None
                &&& p.last_i.atomics == 0
            },
        r.1 == any_min_balance(targets@),
{
    let mut out: Vec<ParsedTarget> = Vec::new();
    let mut has_min = false;
    let mut targets = targets;
    let ghost orig = targets@;
    let mut taken: usize = 0;
    let len = targets.len();
    while taken < len
        invariant
            taken <= len == orig.len(),
            targets@ == orig.subrange(taken as int, len as int),
            out.len() == taken,
            forall|i: int|
                0 <= i < taken ==> {
                    let t = #[trigger] orig[i];
                    let p = out@[i];
                    &&& p.denom == t.denom
                    &&& p.percentage.atomics == t.percentage as int * 100_000_000_000_000
                    &&& p.min_balance == t.min_balance
                    &&& p.last_input is None
                    &&& p.last_i.atomics == 0
                },
            has_min == exists|i: int| 0 <= i < taken && (#[trigger] orig[i]).min_balance is Some,
        decreases len - taken,
    {
        let t = targets.remove(0);
        proof {
            assert(t == orig[taken as int]);
            assert(targets@ =~= orig.subrange(taken + 1, len as int));
        }
        if t.min_balance.is_some() {
            has_min = true;
        }
        out.push(ParsedTarget::from_target(t));
        taken = taken + 1;
    }
    (out, has_min)
}

impl RebalancerData {
    /// The stored configuration of a registration: the limit defaults to all of
    /// the value, the targets start with no memory, the coefficients are parsed.
    pub fn to_config(self) -> (r: Result<RebalancerConfig, ValenceError>)
        ensures
            r matches Ok(c) ==> {
                &&& c.is_paused is None
                &&& c.trustee == self.trustee
                &&& c.base_denom == self.base_denom
                &&& c.targets.len() == self.targets.len()
                &&& forall|i: int|
                    0 <= i < self.targets.len() ==> {
                        let t = #[trigger] self.targets@[i];
                        let p = c.targets@[i];
                        &&& p.denom == t.denom
                        &&& p.percentage.atomics == t.percentage as int * 100_000_000_000_000
                        &&& p.min_balance == t.min_balance
                        &&& p.last_input is None
                        &&& p.last_i.atomics == 0
                    }
                &&& c.max_limit.atomics == match self.max_limit_bps {
                    Some(b) => b as int * 100_000_000_000_000,
                    None => unit(),
                }
                &&& c.last_rebalance.nanos == 0
                &&& c.has_min_balance == any_min_balance(self.targets@)
                &&& c.target_override_strategy == self.target_override_strategy
                &&& self.pid.into_parsed_spec() == Ok::<ParsedPID, ValenceError>(c.pid)
            },
            r matches Err(e) ==> self.pid.into_parsed_spec() == Err::<ParsedPID, ValenceError>(e),
    {
        let max_limit = match self.max_limit_bps {
            Some(b) => Decimal::bps(b),
            None => Decimal::one(),
        };
        let (targets, has_min_balance) = parse_targets(self.targets);
        let pid = match self.pid.into_parsed() {
            Ok(p) => p,
            Err(e) => {
                return Err(e);
            },
        };
        Ok(RebalancerConfig {
            is_paused: None,
            trustee: self.trustee,
            base_denom: self.base_denom,
            targets,
            pid,
            max_limit,
            last_rebalance: Timestamp { nanos: 0 },
            has_min_balance,
            target_override_strategy: self.target_override_strategy,
        })
    }
}

impl PID {
    /// What `into_parsed` yields.
    pub open spec fn into_parsed_spec(self) -> Result<ParsedPID, ValenceError> {
        match (decimal_parse(self.p@), decimal_parse(self.i@), decimal_parse(self.d@)) {
            (Some(p), Some(i), Some(d)) => if p > unit() || i > unit() {
                Err(ValenceError::PIDErrorOver)
            } else {
                Ok(
                    ParsedPID {
                        p: Decimal { atomics: p },
                        i: Decimal { atomics: i },
                        d: Decimal { atomics: d },
                    },
                )
            },
            _ => Err(ValenceError::InvalidDecimal),
        }
    }
}


/// `denom` is in the whitelist.
pub open spec fn whitelisted(whitelist: Seq<String>, denom: Seq<char>) -> bool {
    exists|i: int| 0 <= i < whitelist.len() && (#[trigger] whitelist[i])@ == denom
}

fn is_whitelisted(whitelist: &Vec<String>, denom: &String) -> (r: bool)
    ensures
        r == whitelisted(whitelist@, denom@),
{
    let mut i: usize = 0;
    while i < whitelist.len()
        invariant
            0 <= i <= whitelist.len(),
            forall|k: int| 0 <= k < i ==> (#[trigger] whitelist@[k])@ != denom@,
        decreases whitelist.len() - i,
    {
        if whitelist[i] == *denom {
            return true;
        }
        i = i + 1;
    }
    false
}

/// The value of `balance` units at `price` (units per base unit), in whole
/// base units rounded down.
pub open spec fn value_in_base(balance: int, price: int) -> int {
    div_atomics(balance * unit(), price) / unit()
}

/// The running state of checking a registration's targets.
#[derive(Clone, Copy, Debug, PartialEq, Eq, Structural)]
pub struct RegistrationScan {
    pub total_bps: u64,
    pub has_min_balance: bool,
    pub min_value_met: bool,
    pub total_value: u128,
}

/// One target of a registration: its share in range and adding up, at most one
/// minimum balance, a whitelisted denomination, its balance known, and, until
/// the account's value reaches the minimum, its value in the base denomination.
pub open spec fn registration_step(
    s: RegistrationScan,
    t: Target,
    whitelist: Seq<String>,
    base: BaseDenom,
    balance: Result<u128, String>,
    price: Result<Decimal, String>,
) -> Result<RegistrationScan, ContractError> {
    if !(1 <= t.percentage <= 9999) {
        Err(ContractError::Valence(ValenceError::InvalidMaxLimitRange))
    } else if s.total_bps + t.percentage > u64::MAX {
        Err(ContractError::BpsOverflow)
    } else if t.min_balance is Some && s.has_min_balance {
        Err(ContractError::MultipleMinBalanceTargets)
    } else if !whitelisted(whitelist, t.denom@) {
        Err(ContractError::DenomNotWhitelisted(t.denom))
    } else {
        match balance {
            Err(e) => Err(ContractError::Std(e)),
            Ok(bal) => {
                let next = RegistrationScan {
                    total_bps: (s.total_bps + t.percentage) as u64,
                    has_min_balance: s.has_min_balance || t.min_balance is Some,
                    ..s
                };
                if s.min_value_met {
                    Ok(next)
                } else {
                    let value: Result<int, ContractError> = if t.denom@ == base.denom@ {
                        Ok(bal as int)
                    } else {
                        match price {
                            Err(e) => Err(ContractError::Std(e)),
                            Ok(p) => if p.atomics == 0 {
                                Err(ContractError::PairPriceIsZero(base.denom, t.denom))
                            } else if bal * unit() > u128::MAX {
                                Err(ContractError::DecimalRangeExceeded)
                            } else if !div_fits(bal * unit(), p.atomics as int) {
                                Err(ContractError::CheckedFromRatioError)
                            } else {
                                Ok(value_in_base(bal as int, p.atomics as int))
                            },
                        }
                    };
                    match value {
                        Err(e) => Err(e),
                        Ok(v) => if s.total_value + v > u128::MAX {
                            Err(ContractError::OverflowError)
                        } else {
                            Ok(
                                RegistrationScan {
                                    total_value: (s.total_value + v) as u128,
                                    min_value_met: s.total_value + v >= base.min_balance_limit,
                                    ..next
                                },
                            )
                        },
                    }
                }
            },
        }
    }
}

/// The state after checking the first `n` targets.
pub open spec fn registration_scan(
    targets: Seq<Target>,
    whitelist: Seq<String>,
    base: BaseDenom,
    balances: Seq<Result<u128, String>>,
    prices: Seq<Result<Decimal, String>>,
    n: int,
) -> Result<RegistrationScan, ContractError>
    decreases n,
{
    if n <= 0 {
        Ok(
            RegistrationScan {
                total_bps: 0,
                has_min_balance: false,
                min_value_met: false,
                total_value: 0,
            },
        )
    } else {
        match registration_scan(targets, whitelist, base, balances, prices, n - 1) {
            Err(e) => Err(e),
            Ok(s) => registration_step(
                s,
                targets[n - 1],
                whitelist,
                base,
                balances[n - 1],
                prices[n - 1],
            ),
        }
    }
}

/// The whitelisted base denomination named `denom`, if any.
pub open spec fn find_base(whitelist: Seq<BaseDenom>, denom: Seq<char>) -> Option<BaseDenom> {
    if exists|i: int| 0 <= i < whitelist.len() && (#[trigger] whitelist[i]).denom@ == denom {
        Some(
            whitelist[choose|i: int|
                0 <= i < whitelist.len() && (#[trigger] whitelist[i]).denom@ == denom
                    && forall|k: int| 0 <= k < i ==> (#[trigger] whitelist[k]).denom@ != denom],
        )
    } else {
        None
    }
}

fn find_base_denom(whitelist: &Vec<BaseDenom>, denom: &String) -> (r: Option<BaseDenom>)
    ensures
        r == find_base(whitelist@, denom@),
{
    let mut i: usize = 0;
    while i < whitelist.len()
        invariant
            0 <= i <= whitelist.len(),
            forall|k: int| 0 <= k < i ==> (#[trigger] whitelist@[k]).denom@ != denom@,
        decreases whitelist.len() - i,
    {
        if whitelist[i].denom == *denom {
            proof {
                let c = choose|j: int|
                    0 <= j < whitelist@.len() && (#[trigger] whitelist@[j]).denom@ == denom@
                        && forall|k: int| 0 <= k < j ==> (#[trigger] whitelist@[k]).denom@ != denom@;
                assert(0 <= i < whitelist@.len() && whitelist@[i as int].denom@ == denom@
                    && forall|k: int| 0 <= k < i ==> (#[trigger] whitelist@[k]).denom@ != denom@);
                if c < i {
                    assert(whitelist@[c].denom@ != denom@);
                } else if c > i {
                    assert(whitelist@[i as int].denom@ != denom@);
                }
            }
            return Some(BaseDenom {
                denom: whitelist[i].denom.clone(),
                min_balance_limit: whitelist[i].min_balance_limit,
            });
        }
        i = i + 1;
    }
    None
}


fn registration_step_exec(
    s: RegistrationScan,
    t: &Target,
    whitelist: &Vec<String>,
    base: &BaseDenom,
    balance: &Result<u128, String>,
    price: &Result<Decimal, String>,
) -> (r: Result<RegistrationScan, ContractError>)
    ensures
        r == registration_step(s, *t, whitelist@, *base, *balance, *price),
{
    if !(1 <= t.percentage && t.percentage <= 9999) {
        return Err(ContractError::Valence(ValenceError::InvalidMaxLimitRange));
    }
    let total_bps = match s.total_bps.checked_add(t.percentage) {
        Some(x) => x,
        None => {
            return Err(ContractError::BpsOverflow);
        },
    };
    if t.min_balance.is_some() && s.has_min_balance {
        return Err(ContractError::MultipleMinBalanceTargets);
    }
    if !is_whitelisted(whitelist, &t.denom) {
        return Err(ContractError::DenomNotWhitelisted(t.denom.clone()));
    }
    let bal = match balance {
        Ok(b) => *b,
        Err(e) => {
            return Err(ContractError::Std(e.clone()));
        },
    };
    let next = RegistrationScan {
        total_bps,
        has_min_balance: s.has_min_balance || t.min_balance.is_some(),
        ..s
    };
    if s.min_value_met {
        return Ok(next);
    } else {
        let value = if t.denom == base.denom {
            bal
        } else {
            let price = match price {
                Ok(p) => *p,
                Err(e) => {
                    return Err(ContractError::Std(e.clone()));
                },
            };
            if price.is_zero() {
                return Err(ContractError::PairPriceIsZero(base.denom.clone(), t.denom.clone()));
            }
            let bal_d = match Decimal::from_uint(bal) {
                Ok(d) => d,
                Err(_) => {
                    return Err(ContractError::DecimalRangeExceeded);
                },
            };
            match bal_d.checked_div(price) {
                Some(v) => v.to_uint_floor(),
                None => {
                    return Err(ContractError::CheckedFromRatioError);
                },
            }
        };
        let total_value = match s.total_value.checked_add(value) {
            Some(x) => x,
            None => {
                return Err(ContractError::OverflowError);
            },
        };
        return Ok(RegistrationScan {
            total_value,
            min_value_met: total_value >= base.min_balance_limit,
            ..next
        });
    }
}

proof fn lemma_scan_error_stays(
    targets: Seq<Target>,
    whitelist: Seq<String>,
    base: BaseDenom,
    balances: Seq<Result<u128, String>>,
    prices: Seq<Result<Decimal, String>>,
    n: int,
    m: int,
)
    requires
        0 <= n <= m,
        registration_scan(targets, whitelist, base, balances, prices, n) is Err,
    ensures
        registration_scan(targets, whitelist, base, balances, prices, m) == registration_scan(
            targets,
            whitelist,
            base,
            balances,
            prices,
            n,
        ),
    decreases m - n,
{
    if m > n {
        lemma_scan_error_stays(targets, whitelist, base, balances, prices, n, m - 1);
    }
}

/// The outcome of checking a registration, given the account's balance of
/// each target and the price of each target against the base denomination
/// (as queried; a failed query is its error text).
pub open spec fn registration_result(
    already_registered: bool,
    base_whitelist: Seq<BaseDenom>,
    base_denom: Seq<char>,
    targets: Seq<Target>,
    whitelist: Seq<String>,
    balances: Seq<Result<u128, String>>,
    prices: Seq<Result<Decimal, String>>,
) -> Result<BaseDenom, ContractError> {
    if already_registered {
        Err(ContractError::AccountAlreadyRegistered)
    } else {
        match find_base(base_whitelist, base_denom) {
            None => Err(ContractError::BaseDenomNotWhitelisted(arbitrary())),
            Some(base) => if targets.len() < 2 {
                Err(ContractError::TwoTargetsMinimum)
            } else {
                match registration_scan(
                    targets,
                    whitelist,
                    base,
                    balances,
                    prices,
                    targets.len() as int,
                ) {
                    Err(e) => Err(e),
                    Ok(s) => if s.total_bps != 10000 {
                        Err(ContractError::InvalidTargetPercentage(s.total_bps as u128))
                    } else if !s.min_value_met {
                        Err(ContractError::InvalidAccountMinValue(s.total_value, base.min_balance_limit))
                    } else {
                        Ok(base)
                    },
                }
            },
        }
    }
}

/// Checks an account's registration: it is new, its base denomination is
/// whitelisted, it has at least two targets whose basis points are each in
/// 1..=9999 and add up to 10000, at most one has a minimum balance, all are
/// whitelisted, and the account's value reaches the base denomination's
/// minimum. Returns the base denomination.
pub fn validate_registration(
    already_registered: bool,
    base_whitelist: &Vec<BaseDenom>,
    base_denom: &String,
    targets: &Vec<Target>,
    whitelist: &Vec<String>,
    balances: &Vec<Result<u128, String>>,
    prices: &Vec<Result<Decimal, String>>,
) -> (r: Result<BaseDenom, ContractError>)
    requires
        balances.len() == targets.len(),
        prices.len() == targets.len(),
    ensures
        !already_registered && find_base(base_whitelist@, base_denom@) is None ==> r == Err::<
            BaseDenom,
            ContractError,
        >(ContractError::BaseDenomNotWhitelisted(*base_denom)),
        !(!already_registered && find_base(base_whitelist@, base_denom@) is None) ==> r
            == registration_result(
            already_registered,
            base_whitelist@,
            base_denom@,
            targets@,
            whitelist@,
            balances@,
            prices@,
        ),
{
    if already_registered {
        return Err(ContractError::AccountAlreadyRegistered);
    }
    let base = match find_base_denom(base_whitelist, base_denom) {
        Some(b) => b,
        None => {
            return Err(ContractError::BaseDenomNotWhitelisted(base_denom.clone()));
        },
    };
    if targets.len() < 2 {
        return Err(ContractError::TwoTargetsMinimum);
    }
    let mut s = RegistrationScan {
        total_bps: 0,
        has_min_balance: false,
        min_value_met: false,
        total_value: 0,
    };
    let mut k: usize = 0;
    while k < targets.len()
        invariant
            0 <= k <= targets.len(),
            balances.len() == targets.len(),
            prices.len() == targets.len(),
            find_base(base_whitelist@, base_denom@) == Some(base),
            targets.len() >= 2,
            !already_registered,
            registration_scan(targets@, whitelist@, base, balances@, prices@, k as int) == Ok::<
                RegistrationScan,
                ContractError,
            >(s),
        decreases targets.len() - k,
    {
        match registration_step_exec(s, &targets[k], whitelist, &base, &balances[k], &prices[k]) {
            Ok(ns) => {
                s = ns;
            },
            Err(e) => {
                proof {
                    assert(registration_scan(targets@, whitelist@, base, balances@, prices@, k + 1) == Err::<RegistrationScan, ContractError>(e));
                    lemma_scan_error_stays(targets@, whitelist@, base, balances@, prices@, k + 1, targets.len() as int);
                }
                return Err(e);
            },
        }
        k = k + 1;
    }
    if s.total_bps != 10000 {
        return Err(ContractError::InvalidTargetPercentage(s.total_bps as u128));
    }
    if !s.min_value_met {
        return Err(ContractError::InvalidAccountMinValue(s.total_value, base.min_balance_limit));
    }
    Ok(base)
}


/// The sum of the targets' basis points.
pub open spec fn bps_sum(targets: Seq<Target>, n: int) -> int
    decreases n,
{
    if n <= 0 {
        0
    } else {
        bps_sum(targets, n - 1) + targets[n - 1].percentage
    }
}

/// The first target among the first `n` that repeats a minimum balance, if any.
pub open spec fn second_min_balance(targets: Seq<Target>, n: int) -> Option<int>
    decreases n,
{
    if n <= 0 {
        None
    } else {
        match second_min_balance(targets, n - 1) {
            Some(k) => Some(k),
            None => if targets[n - 1].min_balance is Some && exists|j: int|
                0 <= j < n - 1 && (#[trigger] targets[j]).min_balance is Some {
                Some(n - 1)
            } else {
                None
            },
        }
    }
}

/// The first target among the first `n` that is not whitelisted, if any.
pub open spec fn first_unlisted(targets: Seq<Target>, whitelist: Seq<String>, n: int) -> Option<int>
    decreases n,
{
    if n <= 0 {
        None
    } else {
        match first_unlisted(targets, whitelist, n - 1) {
            Some(k) => Some(k),
            None => if !whitelisted(whitelist, targets[n - 1].denom@) {
                Some(n - 1)
            } else {
                None
            },
        }
    }
}

/// The first error in a list of new targets: a repeated minimum balance or a
/// denomination that is not whitelisted, whichever target comes first.
pub open spec fn new_targets_error(targets: Seq<Target>, whitelist: Seq<String>) -> Option<ContractError>
{
    let n = targets.len() as int;
    match (second_min_balance(targets, n), first_unlisted(targets, whitelist, n)) {
        (Some(a), Some(b)) => if a <= b {
            Some(ContractError::MultipleMinBalanceTargets)
        } else {
            Some(ContractError::DenomNotWhitelisted(targets[b].denom))
        },
        (Some(_), None) => Some(ContractError::MultipleMinBalanceTargets),
        (None, Some(b)) => Some(ContractError::DenomNotWhitelisted(targets[b].denom)),
        (None, None) => None,
    }
}

/// Checks a new list of targets in order; returns whether one has a minimum
/// balance.
fn check_new_targets(targets: &Vec<Target>, whitelist: &Vec<String>) -> (r: Result<
    bool,
    ContractError,
>)
    requires
        bps_sum(targets@, targets@.len() as int) <= u64::MAX,
    ensures
        new_targets_error(targets@, whitelist@) matches Some(e) ==> r == Err::<bool, ContractError>(e),
        new_targets_error(targets@, whitelist@) is None ==> {
            let sum = bps_sum(targets@, targets@.len() as int);
            &&& sum != 10000 ==> r == Err::<bool, ContractError>(
                ContractError::InvalidTargetPercentageRatio(
                    Decimal { atomics: (sum * 100_000_000_000_000) as u128 },
                ),
            )
            &&& sum == 10000 ==> r == Ok::<bool, ContractError>(any_min_balance(targets@))
        },
{
    let mut total: u64 = 0;
    let mut has_min = false;
    let mut k: usize = 0;
    while k < targets.len()
        invariant
            0 <= k <= targets.len(),
            bps_sum(targets@, targets@.len() as int) <= u64::MAX,
            total == bps_sum(targets@, k as int),
            second_min_balance(targets@, k as int) is None,
            first_unlisted(targets@, whitelist@, k as int) is None,
            has_min == exists|j: int| 0 <= j < k && (#[trigger] targets@[j]).min_balance is Some,
        decreases targets.len() - k,
    {
        proof {
            lemma_bps_sum_grows(targets@, k + 1, targets@.len() as int);
        }
        let t = &targets[k];
        total = total + t.percentage;
        if t.min_balance.is_some() && has_min {
            proof {
                assert(second_min_balance(targets@, k + 1) == Some(k as int));
                lemma_first_error_stays(targets@, whitelist@, k + 1, targets@.len() as int);
            }
            return Err(ContractError::MultipleMinBalanceTargets);
        }
        if t.min_balance.is_some() {
            has_min = true;
        }
        if !is_whitelisted(whitelist, &t.denom) {
            proof {
                assert(second_min_balance(targets@, k + 1) is None);
                assert(first_unlisted(targets@, whitelist@, k + 1) == Some(k as int));
                lemma_first_error_stays(targets@, whitelist@, k + 1, targets@.len() as int);
            }
            return Err(ContractError::DenomNotWhitelisted(t.denom.clone()));
        }
        k = k + 1;
    }
    proof {
        assert(any_min_balance(targets@) == has_min);
    }
    if total != 10000 {
        return Err(ContractError::InvalidTargetPercentageRatio(Decimal::bps(total)));
    }
    Ok(has_min)
}

proof fn lemma_bps_sum_grows(targets: Seq<Target>, n: int, m: int)
    requires
        0 <= n <= m <= targets.len(),
    ensures
        0 <= bps_sum(targets, n) <= bps_sum(targets, m),
    decreases m,
{
    if m > 0 {
        if n < m {
            lemma_bps_sum_grows(targets, n, m - 1);
        } else {
            lemma_bps_sum_grows(targets, m - 1, m - 1);
        }
    }
}

proof fn lemma_first_error_stays(targets: Seq<Target>, whitelist: Seq<String>, n: int, m: int)
    requires
        0 <= n <= m,
    ensures
        second_min_balance(targets, n) is Some ==> second_min_balance(targets, m) == second_min_balance(
            targets,
            n,
        ),
        first_unlisted(targets, whitelist, n) is Some ==> first_unlisted(targets, whitelist, m)
            == first_unlisted(targets, whitelist, n),
        second_min_balance(targets, m) matches Some(a) ==> (a >= n || second_min_balance(
            targets,
            n,
        ) == Some(a)),
        first_unlisted(targets, whitelist, m) matches Some(b) ==> (b >= n || first_unlisted(
            targets,
            whitelist,
            n,
        ) == Some(b)),
    decreases m - n,
{
    if n < m {
        lemma_first_error_stays(targets, whitelist, n, m - 1);
    }
}

/// The first stored target whose denomination is not whitelisted, if any.
pub open spec fn first_unlisted_stored(targets: Seq<ParsedTarget>, whitelist: Seq<String>) -> Option<int> {
    if exists|i: int| 0 <= i < targets.len() && !whitelisted(whitelist, (#[trigger] targets[i]).denom@) {
        Some(
            choose|i: int|
                0 <= i < targets.len() && !whitelisted(whitelist, (#[trigger] targets[i]).denom@)
                    && forall|k: int| 0 <= k < i ==> whitelisted(whitelist, (#[trigger] targets[k]).denom@),
        )
    } else {
        None
    }
}

proof fn lemma_first_unlisted_stored(ts: Seq<ParsedTarget>, whitelist: Seq<String>, i: int)
    requires
        0 <= i < ts.len(),
        !whitelisted(whitelist, ts[i].denom@),
        forall|k: int| 0 <= k < i ==> whitelisted(whitelist, (#[trigger] ts[k]).denom@),
    ensures
        first_unlisted_stored(ts, whitelist) == Some(i),
{
    let c = choose|j: int|
        0 <= j < ts.len() && !whitelisted(whitelist, (#[trigger] ts[j]).denom@)
            && forall|k: int| 0 <= k < j ==> whitelisted(whitelist, (#[trigger] ts[k]).denom@);
    assert(exists|j: int| 0 <= j < ts.len() && !whitelisted(whitelist, (#[trigger] ts[j]).denom@));
    assert(0 <= c < ts.len() && !whitelisted(whitelist, ts[c].denom@)
        && forall|k: int| 0 <= k < c ==> whitelisted(whitelist, (#[trigger] ts[k]).denom@));
    if c < i {
        assert(whitelisted(whitelist, ts[c].denom@));
    } else if c > i {
        assert(whitelisted(whitelist, ts[i].denom@));
    }
}

/// The first of two possible errors.
pub open spec fn first_error(a: Option<ContractError>, b: Option<ContractError>) -> Option<ContractError> {
    match a {
        Some(e) => Some(e),
        None => b,
    }
}

/// The error of an update's targets: new targets must be valid and add up to
/// 10000 basis points; without new targets, the stored ones must still be
/// whitelisted.
pub open spec fn update_targets_error(
    stored: Seq<ParsedTarget>,
    targets: Seq<Target>,
    whitelist: Seq<String>,
) -> Option<ContractError> {
    if targets.len() > 0 {
        match new_targets_error(targets, whitelist) {
            Some(e) => Some(e),
            None => if bps_sum(targets, targets.len() as int) != 10000 {
                Some(
                    ContractError::InvalidTargetPercentageRatio(
                        Decimal {
                            atomics: (bps_sum(targets, targets.len() as int) * 100_000_000_000_000) as u128,
                        },
                    ),
                )
            } else {
                None
            },
        }
    } else {
        match first_unlisted_stored(stored, whitelist) {
            Some(i) => Some(ContractError::DenomNotWhitelisted(stored[i].denom)),
            None => None,
        }
    }
}

/// The error of an update's other fields, in the order they are applied.
pub open spec fn update_fields_error(
    data: RebalancerUpdateData,
    trustee: Option<OptionalField<Result<String, String>>>,
    base_whitelist: Seq<BaseDenom>,
) -> Option<ContractError> {
    let trustee_error = match trustee {
        Some(OptionalField::Assign(Err(e))) => Some(ContractError::Std(e)),
        _ => None,
    };
    let base_error = match data.base_denom {
        Some(b) => if exists|i: int| 0 <= i < base_whitelist.len() && (#[trigger] base_whitelist[i]).denom@ == b@ {
            None
        } else {
            Some(ContractError::BaseDenomNotWhitelisted(b))
        },
        None => None,
    };
    let pid_error = match data.pid {
        Some(p) => match p.into_parsed_spec() {
            Err(e) => Some(ContractError::Valence(e)),
            Ok(_) => None,
        },
        None => None,
    };
    let limit_error = match data.max_limit_bps {
        Some(OptionalField::Assign(x)) => if 1 <= x <= 10000 {
            None
        } else {
            Some(ContractError::Valence(ValenceError::InvalidMaxLimitRange))
        },
        _ => None,
    };
    first_error(trustee_error, first_error(base_error, first_error(pid_error, limit_error)))
}

/// Applies an account's update to its configuration. A trustee to set comes
/// as the result of validating its address. Fails with the first error among
/// the targets, the trustee, the base denomination, the coefficients and the
/// limit, in that order.
#[verifier::loop_isolation(false)]
pub fn apply_update(
    config: RebalancerConfig,
    data: RebalancerUpdateData,
    trustee: Option<OptionalField<Result<String, String>>>,
    whitelist: &Vec<String>,
    base_whitelist: &Vec<BaseDenom>,
) -> (r: Result<RebalancerConfig, ContractError>)
    requires
        bps_sum(data.targets@, data.targets@.len() as int) <= u64::MAX,
    ensures
        first_error(
            update_targets_error(config.targets@, data.targets@, whitelist@),
            update_fields_error(data, trustee, base_whitelist@),
        ) matches Some(e) ==> r == Err::<RebalancerConfig, ContractError>(e),
        first_error(
            update_targets_error(config.targets@, data.targets@, whitelist@),
            update_fields_error(data, trustee, base_whitelist@),
        ) is None ==> r is Ok,
        r matches Ok(c) ==> {
            &&& data.targets.len() > 0 ==> {
                &&& c.has_min_balance == any_min_balance(data.targets@)
                &&& c.targets.len() == data.targets.len()
                &&& forall|i: int|
                    0 <= i < c.targets.len() ==> (#[trigger] c.targets@[i]).denom
                        == data.targets@[i].denom && c.targets@[i].percentage.atomics
                        == data.targets@[i].percentage as int * 100_000_000_000_000
                        && c.targets@[i].min_balance == data.targets@[i].min_balance
                        && c.targets@[i].last_input is None
            }
            &&& data.targets.len() == 0 ==> {
                &&& c.has_min_balance == config.has_min_balance
                &&& c.targets.len() == config.targets.len()
                &&& forall|i: int|
                    0 <= i < c.targets.len() ==> (#[trigger] c.targets@[i]).denom
                        == config.targets@[i].denom && c.targets@[i].percentage
                        == config.targets@[i].percentage && c.targets@[i].min_balance
                        == config.targets@[i].min_balance
                &&& data.pid is None ==> c.targets == config.targets
            }
            &&& trustee is None ==> c.trustee == config.trustee
            &&& trustee matches Some(OptionalField::Clear) ==> c.trustee is None
            &&& trustee matches Some(OptionalField::Assign(Ok(t))) ==> c.trustee == Some(t)
            &&& data.base_denom matches Some(b) ==> c.base_denom == b
            &&& data.base_denom is None ==> c.base_denom == config.base_denom
            &&& data.pid matches Some(p) ==> p.into_parsed_spec() == Ok::<ParsedPID, ValenceError>(
                c.pid,
            ) && forall|i: int|
                0 <= i < c.targets.len() ==> (#[trigger] c.targets@[i]).last_input is None
                    && c.targets@[i].last_i.atomics == 0
            &&& data.pid is None ==> c.pid == config.pid
            &&& data.max_limit_bps matches Some(OptionalField::Assign(x)) ==> c.max_limit.atomics
                == x * 100_000_000_000_000
            &&& data.max_limit_bps matches Some(OptionalField::Clear) ==> c.max_limit.atomics
                == unit()
            &&& data.max_limit_bps is None ==> c.max_limit == config.max_limit
            &&& data.target_override_strategy matches Some(st) ==> c.target_override_strategy == st
            &&& data.target_override_strategy is None ==> c.target_override_strategy
                == config.target_override_strategy
            &&& c.is_paused == config.is_paused
            &&& c.last_rebalance == config.last_rebalance
        },
{
    let ghost input = config;
    let mut config = config;
    if data.targets.len() > 0 {
        let has_min = match check_new_targets(&data.targets, whitelist) {
            Ok(h) => h,
            Err(e) => {
                return Err(e);
            },
        };
        let (targets, _) = parse_targets(data.targets);
        config.has_min_balance = has_min;
        config.targets = targets;
    } else {
        let mut i: usize = 0;
        while i < config.targets.len()
            invariant
                0 <= i <= config.targets.len(),
                config == input,
                data.targets.len() == 0,
                forall|k: int|
                    0 <= k < i ==> whitelisted(whitelist@, (#[trigger] config.targets@[k]).denom@),
            decreases config.targets.len() - i,
        {
            if !is_whitelisted(whitelist, &config.targets[i].denom) {
                proof {
                    lemma_first_unlisted_stored(config.targets@, whitelist@, i as int);
                    assert(update_targets_error(input.targets@, data.targets@, whitelist@) == Some(
                        ContractError::DenomNotWhitelisted(config.targets@[i as int].denom),
                    ));
                    assert(first_error(
                        update_targets_error(input.targets@, data.targets@, whitelist@),
                        update_fields_error(data, trustee, base_whitelist@),
                    ) == Some(ContractError::DenomNotWhitelisted(config.targets@[i as int].denom)));
                }
                let d = config.targets[i].denom.clone();
                assert(d == config.targets@[i as int].denom);
                return Err(ContractError::DenomNotWhitelisted(d));
            }
            i = i + 1;
        }
        proof {
            assert(first_unlisted_stored(config.targets@, whitelist@) is None);
        }
    }
    match trustee {
        None => {},
        Some(OptionalField::Clear) => {
            config.trustee = None;
        },
        Some(OptionalField::Assign(Ok(t))) => {
            config.trustee = Some(t);
        },
        Some(OptionalField::Assign(Err(e))) => {
            return Err(ContractError::Std(e));
        },
    }
    match data.base_denom {
        Some(b) => {
            let mut found = false;
            let mut i: usize = 0;
            while i < base_whitelist.len()
                invariant
                    0 <= i <= base_whitelist.len(),
                    found <==> exists|k: int|
                        0 <= k < i && (#[trigger] base_whitelist@[k]).denom@ == b@,
                decreases base_whitelist.len() - i,
            {
                if base_whitelist[i].denom == b {
                    found = true;
                }
                i = i + 1;
            }
            if !found {
                return Err(ContractError::BaseDenomNotWhitelisted(b));
            }
            config.base_denom = b;
        },
        None => {},
    }
    match data.pid {
        Some(p) => {
            config.pid = match p.into_parsed() {
                Ok(x) => x,
                Err(e) => {
                    return Err(ContractError::Valence(e));
                },
            };
            let ghost before = config.targets@;
            let ghost before_cfg = config;
            let mut i: usize = 0;
            while i < config.targets.len()
                invariant
                    0 <= i <= config.targets.len(),
                    config.has_min_balance == before_cfg.has_min_balance,
                    config.trustee == before_cfg.trustee,
                    config.base_denom == before_cfg.base_denom,
                    config.pid == before_cfg.pid,
                    config.max_limit == before_cfg.max_limit,
                    config.target_override_strategy == before_cfg.target_override_strategy,
                    config.is_paused == before_cfg.is_paused,
                    config.last_rebalance == before_cfg.last_rebalance,
                    config.targets.len() == before.len(),
                    forall|k: int|
                        0 <= k < config.targets.len() ==> (#[trigger] config.targets@[k]).denom
                            == before[k].denom && config.targets@[k].percentage
                            == before[k].percentage && config.targets@[k].min_balance
                            == before[k].min_balance,
                    forall|k: int|
                        0 <= k < i ==> (#[trigger] config.targets@[k]).last_input is None
                            && config.targets@[k].last_i.atomics == 0,
                    forall|k: int|
                        i <= k < config.targets.len() ==> (#[trigger] config.targets@[k]) == before[k],
                decreases config.targets.len() - i,
            {
                let mut t = config.targets.remove(i);
                t.last_input = None;
                t.last_i = FixedI128::zero();
                config.targets.insert(i, t);
                i = i + 1;
            }
        },
        None => {},
    }
    match data.max_limit_bps {
        Some(OptionalField::Assign(x)) => {
            if !(1 <= x && x <= 10000) {
                return Err(ContractError::Valence(ValenceError::InvalidMaxLimitRange));
            }
            config.max_limit = Decimal::bps(x);
        },
        Some(OptionalField::Clear) => {
            config.max_limit = Decimal::one();
        },
        None => {},
    }
    match data.target_override_strategy {
        Some(st) => {
            config.target_override_strategy = st;
        },
        None => {},
    }
    Ok(config)
}

/// The rebalancer's queries.
#[derive(Clone, Debug, PartialEq, Eq)]
pub enum QueryMsg {
    GetConfig { addr: String },
    GetPausedConfig { addr: String },
    GetSystemStatus,
    GetWhiteLists,
    GetManagersAddrs,
    GetAdmin,
    GetServiceFee { account: String, action: crate::messages::QueryFeeAction },
    GetAllConfigs { start_after: Option<String>, limit: Option<u64> },
}


/// The denominations accounts may target, and the base denominations.
#[derive(Clone, Debug, PartialEq, Eq)]
pub struct WhitelistsResponse {
    pub denom_whitelist: Vec<String>,
    pub base_denom_whitelist: Vec<BaseDenom>,
}

proof fn lemma_scan_ok_facts(
    targets: Seq<Target>,
    whitelist: Seq<String>,
    base: BaseDenom,
    balances: Seq<Result<u128, String>>,
    prices: Seq<Result<Decimal, String>>,
    n: int,
)
    requires
        0 <= n <= targets.len(),
        registration_scan(targets, whitelist, base, balances, prices, n) is Ok,
    ensures
        ({
            let st = registration_scan(targets, whitelist, base, balances, prices, n)->Ok_0;
            &&& st.total_bps == bps_sum(targets, n)
            &&& st.has_min_balance == exists|j: int| 0 <= j < n && (#[trigger] targets[j]).min_balance is Some
            &&& forall|i: int| 0 <= i < n ==> whitelisted(whitelist, (#[trigger] targets[i]).denom@)
            &&& forall|i: int| 0 <= i < n ==> 1 <= (#[trigger] targets[i]).percentage <= 9999
            &&& forall|i: int, j: int|
                0 <= i < j < n ==> !((#[trigger] targets[i]).min_balance is Some && (#[trigger] targets[j]).min_balance is Some)
        }),
    decreases n,
{
    if n > 0 {
        lemma_scan_ok_facts(targets, whitelist, base, balances, prices, n - 1);
        let prev = registration_scan(targets, whitelist, base, balances, prices, n - 1)->Ok_0;
        let t = targets[n - 1];
        if t.min_balance is Some {
            assert(!prev.has_min_balance);
        }
    }
}

/// An accepted registration has at least two targets, each whitelisted with a
/// share of 1 to 9999 basis points, the shares adding up to 10000, and at most
/// one target with a minimum balance.
pub proof fn lemma_registration_targets_valid(
    already_registered: bool,
    base_whitelist: Seq<BaseDenom>,
    base_denom: Seq<char>,
    targets: Seq<Target>,
    whitelist: Seq<String>,
    balances: Seq<Result<u128, String>>,
    prices: Seq<Result<Decimal, String>>,
)
    requires
        registration_result(already_registered, base_whitelist, base_denom, targets, whitelist, balances, prices) is Ok,
    ensures
        targets.len() >= 2,
        bps_sum(targets, targets.len() as int) == 10000,
        forall|i: int| 0 <= i < targets.len() ==> whitelisted(whitelist, (#[trigger] targets[i]).denom@),
        forall|i: int| 0 <= i < targets.len() ==> 1 <= (#[trigger] targets[i]).percentage <= 9999,
        forall|i: int, j: int|
            0 <= i < j < targets.len() ==> !((#[trigger] targets[i]).min_balance is Some && (#[trigger] targets[j]).min_balance is Some),
{
    let base = find_base(base_whitelist, base_denom).unwrap();
    lemma_scan_ok_facts(targets, whitelist, base, balances, prices, targets.len() as int);
}

/// The errors of a registration that come from the account's balances and
/// prices: a failed query, a zero price, a conversion out of range, or a value
/// below the base denomination's minimum.
pub open spec fn value_error(e: ContractError) -> bool {
    ||| e is Std
    ||| e is PairPriceIsZero
    ||| e is DecimalRangeExceeded
    ||| e is CheckedFromRatioError
    ||| e is OverflowError
    ||| e is InvalidAccountMinValue
}

proof fn lemma_scan_valid_targets(
    targets: Seq<Target>,
    whitelist: Seq<String>,
    base: BaseDenom,
    balances: Seq<Result<u128, String>>,
    prices: Seq<Result<Decimal, String>>,
    n: int,
)
    requires
        0 <= n <= targets.len(),
        bps_sum(targets, targets.len() as int) == 10000,
        forall|i: int| 0 <= i < targets.len() ==> whitelisted(whitelist, (#[trigger] targets[i]).denom@),
        forall|i: int| 0 <= i < targets.len() ==> 1 <= (#[trigger] targets[i]).percentage <= 9999,
        forall|i: int, j: int|
            0 <= i < j < targets.len() ==> !((#[trigger] targets[i]).min_balance is Some && (#[trigger] targets[j]).min_balance is Some),
    ensures
        match registration_scan(targets, whitelist, base, balances, prices, n) {
            Ok(st) => st.total_bps == bps_sum(targets, n) && st.has_min_balance == exists|j: int|
                0 <= j < n && (#[trigger] targets[j]).min_balance is Some,
            Err(e) => value_error(e),
        },
    decreases n,
{
    if n > 0 {
        lemma_scan_valid_targets(targets, whitelist, base, balances, prices, n - 1);
        lemma_bps_sum_grows(targets, n, targets.len() as int);
        let t = targets[n - 1];
        if let Ok(prev) = registration_scan(targets, whitelist, base, balances, prices, n - 1) {
            if t.min_balance is Some && prev.has_min_balance {
                let j = choose|j: int| 0 <= j < n - 1 && (#[trigger] targets[j]).min_balance is Some;
                assert(targets[j].min_balance is Some && targets[n - 1].min_balance is Some);
            }
            if let Ok(st) = registration_scan(targets, whitelist, base, balances, prices, n) {
                assert(st.has_min_balance == exists|j: int| 0 <= j < n && (#[trigger] targets[j]).min_balance is Some) by {
                    if prev.has_min_balance {
                        let j = choose|j: int| 0 <= j < n - 1 && (#[trigger] targets[j]).min_balance is Some;
                        assert(0 <= j < n && targets[j].min_balance is Some);
                    }
                    if t.min_balance is Some {
                        assert(targets[n - 1].min_balance is Some);
                    }
                }
            }
        }
    }
}

/// A registration whose targets are well formed (at least two, each
/// whitelisted with a share of 1 to 9999 basis points, the shares adding up to
/// 10000, at most one with a minimum balance) by a new account with a
/// whitelisted base denomination is accepted, or refused only for its
/// balances and prices (`value_error`).
pub proof fn lemma_registration_refused_only_for_value(
    base_whitelist: Seq<BaseDenom>,
    base_denom: Seq<char>,
    targets: Seq<Target>,
    whitelist: Seq<String>,
    balances: Seq<Result<u128, String>>,
    prices: Seq<Result<Decimal, String>>,
)
    requires
        find_base(base_whitelist, base_denom) is Some,
        targets.len() >= 2,
        bps_sum(targets, targets.len() as int) == 10000,
        forall|i: int| 0 <= i < targets.len() ==> whitelisted(whitelist, (#[trigger] targets[i]).denom@),
        forall|i: int| 0 <= i < targets.len() ==> 1 <= (#[trigger] targets[i]).percentage <= 9999,
        forall|i: int, j: int|
            0 <= i < j < targets.len() ==> !((#[trigger] targets[i]).min_balance is Some && (#[trigger] targets[j]).min_balance is Some),
    ensures
        match registration_result(false, base_whitelist, base_denom, targets, whitelist, balances, prices) {
            Ok(b) => Some(b) == find_base(base_whitelist, base_denom),
            Err(e) => value_error(e),
        },
{
    let base = find_base(base_whitelist, base_denom).unwrap();
    lemma_scan_valid_targets(targets, whitelist, base, balances, prices, targets.len() as int);
}

} // verus!
