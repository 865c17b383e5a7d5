//! The price oracle: prices come from recent auctions when there are enough of
//! them, from a path of swap pools otherwise, or from the admin when the price
//! has not been updated for long enough.
use std::collections::VecDeque;
use vstd::prelude::*;
use crate::auction_package::Price;
use crate::chain::{Pair, Timestamp};
use crate::decimal::{Decimal, unit, div_atomics, lemma_u64_whole_fits, lemma_mul_whole, lemma_floor_le};

verus! {

/// Auction prices older than this many seconds are ignored.
pub const TEN_DAYS: u64 = 864_000u64;

/// Errors of the price oracle.
#[derive(Clone, Debug, PartialEq, Eq)]
pub enum ContractError {
    InvalidPair,
    DecimalRangeExceeded,
    OverflowError,
    CheckedFromRatioError,
    NotAdmin,
    PairAuctionNotFound,
    NotEnoughTwaps,
    NoAuctionInLast3Days,
    PriceIsZero,
    NoTermsForManualUpdate,
    PricePathAlreadyExists,
    PricePathNotFound,
    PricePathIsEmpty,
    PricePathIsWrong,
    NoAstroPath(Pair),
}

/// The oracle's settings.
#[derive(Clone, Debug, PartialEq, Eq)]
pub struct Config {
    pub auction_manager_addr: String,
    /// Seconds after the last update before the admin may set a price.
    pub seconds_allow_manual_change: u64,
    /// Seconds after the last auction within which auction prices are fresh.
    pub seconds_auction_prices_fresh: u64,
}

/// One swap in a price path: a pool and the denominations it swaps.
#[derive(Clone, Debug, PartialEq, Eq)]
pub struct PriceStep {
    pub denom1: String,
    pub denom2: String,
    pub pool_address: String,
}

/// The auction prices can be used: there are at least three, and the most
/// recent one is fresh.
pub open spec fn auction_prices_usable(fresh_secs: int, now: Timestamp, prices: Seq<Price>) -> bool {
    prices.len() >= 3 && prices[0].time.spec_seconds() + fresh_secs >= now.spec_seconds()
}

/// Whether the recent auction prices may set the oracle's price.
pub fn can_update_price_from_auction(config: &Config, now: Timestamp, auction_prices: &VecDeque<Price>) -> (r:
    bool)
    requires
        auction_prices.len() >= 3 ==> auction_prices@[0].time.spec_seconds()
            + config.seconds_auction_prices_fresh <= u64::MAX,
    ensures
        r == auction_prices_usable(
            config.seconds_auction_prices_fresh as int,
            now,
            auction_prices@,
        ),
{
    if auction_prices.len() < 3 {
        return false;
    }
    if auction_prices[0].time.seconds() + config.seconds_auction_prices_fresh < now.seconds() {
        return false;
    }
    true
}

/// A price recorded at `t` still counts at `now`: it is less than ten days old.
pub open spec fn counts(t: Timestamp, now: Timestamp) -> bool {
    t.spec_seconds() + TEN_DAYS > now.spec_seconds()
}

/// The weight of a counted price: ten days minus its age, in seconds.
pub open spec fn weight(t: Timestamp, now: Timestamp) -> int {
    TEN_DAYS - (now.spec_seconds() - t.spec_seconds())
}

/// The sum of the weights of the counted prices among the first `n`.
pub open spec fn total_weight(prices: Seq<Price>, now: Timestamp, n: int) -> int
    decreases n,
{
    if n <= 0 {
        0
    } else {
        total_weight(prices, now, n - 1) + if counts(prices[n - 1].time, now) {
            weight(prices[n - 1].time, now)
        } else {
            0
        }
    }
}

/// The sum of price times weight (in atomics) of the counted prices among the first `n`.
pub open spec fn weighted_sum(prices: Seq<Price>, now: Timestamp, n: int) -> int
    decreases n,
{
    if n <= 0 {
        0
    } else {
        weighted_sum(prices, now, n - 1) + if counts(prices[n - 1].time, now) {
            prices[n - 1].price.atomics * weight(prices[n - 1].time, now)
        } else {
            0
        }
    }
}

/// `get_weighted_avg_price` stays in range: no price lies in the future, at
/// least one counts, and the sums fit.
pub open spec fn weighted_avg_defined(prices: Seq<Price>, now: Timestamp) -> bool {
    &&& prices.len() > 0
    &&& forall|i: int|
        0 <= i < prices.len() ==> #[trigger] prices[i].time.spec_seconds() + TEN_DAYS <= u64::MAX
    &&& forall|i: int|
        0 <= i < prices.len() && counts(#[trigger] prices[i].time, now)
            ==> prices[i].time.spec_seconds() <= now.spec_seconds()
    &&& total_weight(prices, now, prices.len() as int) > 0
    &&& total_weight(prices, now, prices.len() as int) * unit() <= u128::MAX
    &&& weighted_sum(prices, now, prices.len() as int) <= u128::MAX
    &&& div_atomics(
        weighted_sum(prices, now, prices.len() as int),
        total_weight(prices, now, prices.len() as int) * unit(),
    ) <= u128::MAX
}

proof fn lemma_sums_nonneg(prices: Seq<Price>, now: Timestamp, n: int)
    requires
        0 <= n <= prices.len(),
        forall|i: int|
            0 <= i < prices.len() && counts(#[trigger] prices[i].time, now)
                ==> prices[i].time.spec_seconds() <= now.spec_seconds(),
    ensures
        0 <= total_weight(prices, now, n),
        0 <= weighted_sum(prices, now, n),
    decreases n,
{
    if n > 0 {
        lemma_sums_nonneg(prices, now, n - 1);
        let p = prices[n - 1];
        if counts(p.time, now) {
            assert(p.price.atomics * weight(p.time, now) >= 0) by (nonlinear_arith)
                requires
                    weight(p.time, now) >= 0,
                    p.price.atomics >= 0,
            ;
        }
    }
}

proof fn lemma_sums_grow(prices: Seq<Price>, now: Timestamp, n: int, m: int)
    requires
        0 <= n <= m <= prices.len(),
        forall|i: int|
            0 <= i < prices.len() && counts(#[trigger] prices[i].time, now)
                ==> prices[i].time.spec_seconds() <= now.spec_seconds(),
    ensures
        0 <= total_weight(prices, now, n) <= total_weight(prices, now, m),
        0 <= weighted_sum(prices, now, n) <= weighted_sum(prices, now, m),
    decreases m - n,
{
    if n < m {
        lemma_sums_grow(prices, now, n, m - 1);
        let p = prices[m - 1];
        if counts(p.time, now) {
            assert(p.price.atomics * weight(p.time, now) >= 0) by (nonlinear_arith)
                requires
                    weight(p.time, now) >= 0,
                    p.price.atomics >= 0,
            ;
        }
    } else {
        lemma_sums_nonneg(prices, now, n);
    }
}

/// The time-weighted average of the prices of the last ten days: each price
/// weighs ten days minus its age, so recent prices count more. The time is that
/// of the first price.
pub fn get_weighted_avg_price(prices: &VecDeque<Price>, now: Timestamp) -> (r: Price)
    requires
        weighted_avg_defined(prices@, now),
    ensures
        r.time == prices@[0].time,
        r.price.atomics == weighted_sum(prices@, now, prices@.len() as int) / total_weight(
            prices@,
            now,
            prices@.len() as int,
        ),
{
    let ghost n = prices@.len() as int;
    let mut total = Decimal::zero();
    let mut sum = Decimal::zero();
    let mut i: usize = 0;
    while i < prices.len()
        invariant
            0 <= i <= prices.len(),
            weighted_avg_defined(prices@, now),
            n == prices@.len(),
            total.atomics == total_weight(prices@, now, i as int) * unit(),
            sum.atomics == weighted_sum(prices@, now, i as int),
        decreases prices.len() - i,
    {
        let p = prices[i];
        proof {
            lemma_sums_grow(prices@, now, i + 1, n);
        }
        if p.time.seconds() + TEN_DAYS > now.seconds() {
            let age = now.seconds() - p.time.seconds();
            let w = TEN_DAYS - age;
            proof {
                lemma_u64_whole_fits(w);
                assert(total_weight(prices@, now, i + 1) * unit() <= total_weight(prices@, now, n)
                    * unit()) by (nonlinear_arith)
                    requires
                        total_weight(prices@, now, i + 1) <= total_weight(prices@, now, n),
                ;
                assert(total_weight(prices@, now, i + 1) * unit() == total_weight(prices@, now, i as int)
                    * unit() + w * unit()) by (nonlinear_arith)
                    requires
                        total_weight(prices@, now, i + 1) == total_weight(prices@, now, i as int) + w,
                ;
                lemma_mul_whole(p.price.atomics as int, w as int);
            }
            let weight_d = match Decimal::checked_from_ratio(w as u128, 1) {
                Some(d) => d,
                None => Decimal::zero(),
            };
            proof {
                assert(div_atomics(w as int, 1) == w * unit()) by {
                    assert(w as int * unit() / 1 == w * unit());
                }
            }
            total = total.add(weight_d);
            sum = sum.add(p.price.mul(weight_d));
        }
        i = i + 1;
    }
    proof {
        crate::decimal::lemma_unit_cancels(0, 1);
        let ws = weighted_sum(prices@, now, n);
        let tw = total_weight(prices@, now, n);
        lemma_sums_grow(prices@, now, n, n);
        assert(div_atomics(ws, tw * unit()) == ws / tw) by {
            vstd::arithmetic::div_mod::lemma_div_denominator(ws * unit(), tw, unit());
            assert(tw * unit() == unit() * tw) by {
                vstd::arithmetic::mul::lemma_mul_is_commutative(tw, unit());
            }
            vstd::arithmetic::div_mod::lemma_div_denominator(ws * unit(), unit(), tw);
            vstd::arithmetic::div_mod::lemma_div_by_multiple(ws, unit());
        }
    }
    Price { price: sum.div(total), time: prices[0].time }
}

/// Checks an admin's price: it must be non-zero, and the last recorded price
/// (if any) must be at least `seconds_allow_manual_change` old.
pub fn check_manual_price(config: &Config, price: Decimal, last: Option<Price>, now: Timestamp) -> (r:
    Result<(), ContractError>)
    requires
        last matches Some(p) ==> p.time.spec_seconds() + config.seconds_allow_manual_change
            <= u64::MAX,
    ensures
        price.atomics == 0 ==> r == Err::<(), ContractError>(ContractError::PriceIsZero),
        price.atomics != 0 && last is Some && now.spec_seconds() < last.unwrap().time.spec_seconds()
            + config.seconds_allow_manual_change ==> r == Err::<(), ContractError>(
            ContractError::NoTermsForManualUpdate,
        ),
        price.atomics != 0 && (last is None || now.spec_seconds() >= last.unwrap().time.spec_seconds()
            + config.seconds_allow_manual_change) ==> r is Ok,
{
    if price.is_zero() {
        return Err(ContractError::PriceIsZero);
    }
    match last {
        Some(p) => {
            if now.seconds() < p.time.seconds() + config.seconds_allow_manual_change {
                return Err(ContractError::NoTermsForManualUpdate);
            }
        },
        None => {},
    }
    Ok(())
}

/// A price path for a pair must be new (when added) or known (when updated),
/// non-empty, start with the pair's first denomination and end with its second.
pub fn verify_price_path(pair: &Pair, path: &Vec<PriceStep>, exists: bool, adding: bool) -> (r: Result<
    (),
    ContractError,
>)
    ensures
        adding && exists ==> r == Err::<(), ContractError>(ContractError::PricePathAlreadyExists),
        !adding && !exists ==> r == Err::<(), ContractError>(ContractError::PricePathNotFound),
        adding != exists && path.len() == 0 ==> r == Err::<(), ContractError>(
            ContractError::PricePathIsEmpty,
        ),
        adding != exists && path.len() > 0 && (path@[0].denom1@ != pair.0@ || path@[path.len()
            - 1].denom2@ != pair.1@) ==> r == Err::<(), ContractError>(
            ContractError::PricePathIsWrong,
        ),
        adding != exists && path.len() > 0 && path@[0].denom1@ == pair.0@ && path@[path.len()
            - 1].denom2@ == pair.1@ ==> r is Ok,
{
    if adding && exists {
        return Err(ContractError::PricePathAlreadyExists);
    }
    if !adding && !exists {
        return Err(ContractError::PricePathNotFound);
    }
    if path.len() == 0 {
        return Err(ContractError::PricePathIsEmpty);
    }
    let first = &path[0];
    let last = &path[path.len() - 1];
    if !(first.denom1 == pair.0) || !(last.denom2 == pair.1) {
        return Err(ContractError::PricePathIsWrong);
    }
    Ok(())
}

/// The amount a swap step yields as a decimal: what was returned plus the
/// commission and spread taken by the pool.
pub fn swap_step_amount(return_amount: u128, commission_amount: u128, spread_amount: u128) -> (r:
    Result<Decimal, ContractError>)
    ensures
        return_amount + commission_amount + spread_amount > u128::MAX ==> r == Err::<
            Decimal,
            ContractError,
        >(ContractError::OverflowError),
        return_amount + commission_amount + spread_amount <= u128::MAX && (return_amount
            + commission_amount + spread_amount) * unit() > u128::MAX ==> r == Err::<
            Decimal,
            ContractError,
        >(ContractError::DecimalRangeExceeded),
        (return_amount + commission_amount + spread_amount) * unit() <= u128::MAX ==> r == Ok::<
            Decimal,
            ContractError,
        >(Decimal { atomics: ((return_amount + commission_amount + spread_amount) * unit()) as u128 }),
{
    let a = match return_amount.checked_add(commission_amount) {
        Some(x) => x,
        None => {
            return Err(ContractError::OverflowError);
        },
    };
    let b = match a.checked_add(spread_amount) {
        Some(x) => x,
        None => {
            return Err(ContractError::OverflowError);
        },
    };
    match Decimal::from_uint(b) {
        Ok(d) => Ok(d),
        Err(_) => Err(ContractError::DecimalRangeExceeded),
    }
}

/// The amount offered at a swap step: the running amount, rounded down.
pub fn swap_offer_amount(amount: Decimal) -> (r: u128)
    ensures
        r == amount.atomics as int / unit(),
{
    amount.to_uint_floor()
}

/// The amount a path starts with: one million units.
pub fn swap_start_amount() -> (r: Decimal)
    ensures
        r.atomics == 1_000_000 * unit(),
{
    proof {
        lemma_u64_whole_fits(1_000_000);
    }
    match Decimal::from_uint(1_000_000) {
        Ok(d) => d,
        Err(_) => vstd::pervasive::unreached(),
    }
}

/// The price of a path: what one million units of the first denomination
/// turned into, divided by one million.
pub fn swap_path_price(final_amount: Decimal, now: Timestamp) -> (r: Result<Price, ContractError>)
    ensures
        div_atomics(final_amount.atomics as int, 1_000_000 * unit()) <= u128::MAX ==> r == Ok::<
            Price,
            ContractError,
        >(
            Price {
                price: Decimal {
                    atomics: div_atomics(final_amount.atomics as int, 1_000_000 * unit()) as u128,
                },
                time: now,
            },
        ),
        div_atomics(final_amount.atomics as int, 1_000_000 * unit()) > u128::MAX ==> r == Err::<
            Price,
            ContractError,
        >(ContractError::CheckedFromRatioError),
{
    let million = swap_start_amount();
    match final_amount.checked_div(million) {
        Some(p) => Ok(Price { price: p, time: now }),
        None => Err(ContractError::CheckedFromRatioError),
    }
}

/// The price oracle's queries.
#[derive(Clone, Debug, PartialEq, Eq)]
pub enum QueryMsg {
    GetPrice { pair: Pair },
    GetAllPrices { from: Option<Pair>, limit: Option<u32> },
    GetConfig,
    GetAdmin,
}

/// The price oracle's migrations.
#[derive(Clone, Copy, Debug, PartialEq, Eq, Structural)]
pub enum MigrateMsg {
    NoStateChange,
}

proof fn lemma_sums_bounded(prices: Seq<Price>, now: Timestamp, lo: int, hi: int, n: int)
    requires
        0 <= n <= prices.len(),
        forall|i: int|
            0 <= i < prices.len() && counts(#[trigger] prices[i].time, now)
                ==> prices[i].time.spec_seconds() <= now.spec_seconds(),
        forall|i: int|
            0 <= i < prices.len() && counts(#[trigger] prices[i].time, now) ==> lo
                <= prices[i].price.atomics <= hi,
    ensures
        lo * total_weight(prices, now, n) <= weighted_sum(prices, now, n) <= hi * total_weight(prices, now, n),
    decreases n,
{
    if n > 0 {
        lemma_sums_bounded(prices, now, lo, hi, n - 1);
        let p = prices[n - 1];
        if counts(p.time, now) {
            let w = weight(p.time, now);
            let x = p.price.atomics as int;
            assert(lo * w <= x * w <= hi * w) by (nonlinear_arith)
                requires
                    w >= 0,
                    lo <= x <= hi,
            ;
            assert(lo * total_weight(prices, now, n) == lo * total_weight(prices, now, n - 1) + lo * w) by (nonlinear_arith)
                requires
                    total_weight(prices, now, n) == total_weight(prices, now, n - 1) + w,
            ;
            assert(hi * total_weight(prices, now, n) == hi * total_weight(prices, now, n - 1) + hi * w) by (nonlinear_arith)
                requires
                    total_weight(prices, now, n) == total_weight(prices, now, n - 1) + w,
            ;
        }
    }
}

/// The weighted average lies between the lowest and the highest price that
/// counts (is less than ten days old).
pub proof fn lemma_avg_within_counted_prices(prices: Seq<Price>, now: Timestamp, lo: int, hi: int)
    requires
        weighted_avg_defined(prices, now),
        forall|i: int|
            0 <= i < prices.len() && counts(#[trigger] prices[i].time, now) ==> lo
                <= prices[i].price.atomics <= hi,
    ensures
        lo <= weighted_sum(prices, now, prices.len() as int) / total_weight(
            prices,
            now,
            prices.len() as int,
        ) <= hi,
{
    let n = prices.len() as int;
    lemma_sums_bounded(prices, now, lo, hi, n);
    let s = weighted_sum(prices, now, n);
    let w = total_weight(prices, now, n);
    vstd::arithmetic::div_mod::lemma_fundamental_div_mod(s, w);
    vstd::arithmetic::div_mod::lemma_mod_bound(s, w);
    assert(lo <= s / w <= hi) by (nonlinear_arith)
        requires
            w > 0,
            lo * w <= s <= hi * w,
            s == w * (s / w) + s % w,
            0 <= s % w < w,
    ;
}

} // verus!
