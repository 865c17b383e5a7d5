//! A descending-price auction of one pair: funds providers deposit `pair.0`,
//! bidders pay in `pair.1`; the price falls linearly from the start price to
//! the end price over the auction's blocks.
use std::collections::VecDeque;
use vstd::prelude::*;
use crate::auction_package::{AuctionStrategy, ChainHaltConfig, MinAmount, Price, PriceFreshnessStrategy};
use crate::chain::{BlockInfo, Coin, Timestamp};
use crate::decimal::{
    Decimal, DECIMAL_FRACTIONAL, unit, mul_atomics, div_atomics, div_fits, lemma_unit_cancels,
    lemma_mul_whole, lemma_u64_whole_fits, lemma_floor_le,
};

verus! {

/// The number of past auction prices kept for the time-weighted average.
pub const TWAP_PRICE_MAX_LEN: u64 = 10;

/// `cosmwasm_std::Uint128 * cosmwasm_std::Decimal`: `x` times the decimal,
/// rounded down; the product must fit.
#[verifier::external_body]
fn uint_times_decimal(x: u128, d: u128) -> (r: u128)
    requires
        (x as int * d as int) / unit() <= u128::MAX,
    ensures
        r == (x as int * d as int) / unit(),
{
    (cosmwasm_std::Uint128::new(x) * cosmwasm_std::Decimal::raw(d)).u128()
}

/// Errors of the auction contract.
#[derive(Clone, Debug, PartialEq, Eq)]
pub enum ContractError {
    /// A checked integer operation left its range.
    OverflowError,
    DecimalRangeExceeded,
    CheckedFromRatioError,
    NotAdmin,
    AuctionAmountTooLow(u128),
    AuctionIsPaused,
    AuctionFinished,
    AuctionNotClosed,
    AuctionClosed,
    AuctionFinishedAndResolved,
    UnauthorizedToBid,
    BidMustBeCalledFromTx,
    AuctionNotStarted(u64),
    BidsNotResolved,
    AuctionStillGoing,
    NoFundsForAuction,
    NoFundsToWithdraw,
    ChainHalted,
    PriceTooOld,
    NoTokenMinAmount,
    InvalidAuctionEndBlock,
}

/// Where an auction stands.
#[derive(Clone, Debug, PartialEq, Eq)]
pub enum ActiveAuctionStatus {
    /// Bids are accepted.
    Started,
    /// Bidding is over; funds are not yet sent out.
    Finished,
    /// Sending out funds: the last provider paid, and the totals of `pair.0`
    /// and `pair.1` sent so far.
    CloseAuction(Option<String>, u128, u128),
    /// Everything was sent out.
    AuctionClosed,
}

/// The state of the current auction.
#[derive(Clone, Debug, PartialEq, Eq)]
pub struct ActiveAuction {
    pub status: ActiveAuctionStatus,
    pub start_block: u64,
    pub end_block: u64,
    /// The price at `start_block`.
    pub start_price: Decimal,
    /// The price at `end_block`.
    pub end_price: Decimal,
    /// The amount of `pair.0` still for sale.
    pub available_amount: u128,
    /// The amount of `pair.1` received from bidders.
    pub resolved_amount: u128,
    /// The amount of `pair.0` put up for sale.
    pub total_amount: u128,
    /// Rounding leftovers of `pair.0` and `pair.1` for the next auction.
    pub leftovers: [u128; 2],
    /// The last block checked for a chain halt.
    pub last_checked_block: BlockInfo,
}

/// The ids of the current and the next auction.
#[derive(Clone, Copy, Debug, PartialEq, Eq, Structural)]
pub struct AuctionIds {
    pub curr: u64,
    pub next: u64,
}

/// When the next auction starts and ends.
#[derive(Clone, Copy, Debug, PartialEq, Eq, Structural)]
pub struct NewAuctionParams {
    /// The start block; the current block where absent.
    pub start_block: Option<u64>,
    pub end_block: u64,
}

/// The price falls by this many atomics per block (rounded down).
pub open spec fn price_drop_per_block(t: ActiveAuction) -> int {
    (t.start_price.atomics - t.end_price.atomics) / (t.end_block - t.start_block)
}

/// The auction's price at height `h`, in atomics.
pub open spec fn price_at(t: ActiveAuction, h: int) -> int {
    t.start_price.atomics - price_drop_per_block(t) * (h - t.start_block)
}

/// The prices can be computed at height `h`.
pub open spec fn price_defined(t: ActiveAuction, h: int) -> bool {
    &&& t.start_block < t.end_block
    &&& t.end_price.atomics <= t.start_price.atomics
    &&& t.start_block <= h
    &&& price_drop_per_block(t) * (h - t.start_block) <= t.start_price.atomics
}

/// The auction's price at `curr_height`: the start price minus the per-block
/// drop (rounded down) times the blocks passed.
pub fn calc_price(terms: &ActiveAuction, curr_height: u64) -> (r: Decimal)
    requires
        price_defined(*terms, curr_height as int),
    ensures
        r.atomics == price_at(*terms, curr_height as int),
{
    let blocks = terms.end_block - terms.start_block;
    let passed = curr_height - terms.start_block;
    proof {
        lemma_u64_whole_fits(blocks);
        lemma_u64_whole_fits(passed);
    }
    let block_diff = match Decimal::from_uint(blocks as u128) {
        Ok(d) => d,
        Err(_) => vstd::pervasive::unreached(),
    };
    let price_diff = terms.start_price.sub(terms.end_price);
    let ghost diff = price_diff.atomics as int;
    proof {
        lemma_unit_cancels(diff, blocks as int);
        lemma_floor_le(diff, blocks as int);
        assert(diff / (blocks as int) <= diff) by {
            vstd::arithmetic::div_mod::lemma_div_is_ordered_by_denominator(diff, 1, blocks as int);
        }
    }
    let price_per_block = price_diff.div(block_diff);
    let block_passed = match Decimal::from_uint(passed as u128) {
        Ok(d) => d,
        Err(_) => vstd::pervasive::unreached(),
    };
    proof {
        lemma_mul_whole(price_per_block.atomics as int, passed as int);
    }
    let drop = price_per_block.mul(block_passed);
    terms.start_price.sub(drop)
}

/// The auction's price at `curr_height` where it can be computed (the blocks
/// are in order, the price falls, and the height is not before the start nor
/// so far after it that the price would drop below zero); `None` elsewhere.
pub fn price_at_height(terms: &ActiveAuction, curr_height: u64) -> (r: Option<Decimal>)
    ensures
        price_defined(*terms, curr_height as int) ==> r == Some(
            Decimal { atomics: price_at(*terms, curr_height as int) as u128 },
        ),
        !price_defined(*terms, curr_height as int) ==> r is None,
{
    if !(terms.start_block < terms.end_block) || terms.end_price.atomics > terms.start_price.atomics
        || terms.start_block > curr_height {
        return None;
    }
    let drop = (terms.start_price.atomics - terms.end_price.atomics) / ((terms.end_block
        - terms.start_block) as u128);
    match drop.checked_mul((curr_height - terms.start_block) as u128) {
        Some(total) => {
            if total > terms.start_price.atomics {
                return None;
            }
        },
        None => {
            return None;
        },
    }
    let p = calc_price(terms, curr_height);
    proof {
        assert(p.atomics >= 0);
    }
    Some(p)
}

/// The amount of `pair.0` bought for `amount` of `pair.1` at `price`: whole
/// units, rounded down.
pub open spec fn buy_spec(price: int, amount: int) -> int {
    (amount * unit()) / price
}

/// The part of `amount` refunded after buying `buy_spec` units, rounded down.
pub open spec fn leftover_spec(price: int, amount: int) -> int {
    (amount * unit() - buy_spec(price, amount) * price) / unit()
}

/// `calc_buy_amount` can run on these values.
pub open spec fn buy_defined(price: int, amount: int) -> bool {
    &&& amount * unit() <= u128::MAX
    &&& div_fits(amount * unit(), price)
}

/// How much of `pair.0` `amount` of `pair.1` buys at `price`, and how much of
/// `amount` is left over.
pub fn calc_buy_amount(price: Decimal, amount: u128) -> (r: (u128, u128))
    requires
        buy_defined(price.atomics as int, amount as int),
    ensures
        r.0 == buy_spec(price.atomics as int, amount as int),
        r.1 == leftover_spec(price.atomics as int, amount as int),
        r.1 <= amount,
        r.0 * price.atomics + r.1 * unit() <= amount * unit(),
{
    let ghost p = price.atomics as int;
    let ghost a = amount as int * unit();
    let amount_d = match Decimal::from_uint(amount) {
        Ok(d) => d,
        Err(_) => vstd::pervasive::unreached(),
    };
    let buy_amount = amount_d.div(price);
    let buy_floor = buy_amount.floor();
    let ghost k = a / p;
    proof {
        // floor(floor(a * unit / p) / unit) == floor(a / p)
        assert(a >= 0) by (nonlinear_arith)
            requires
                amount >= 0,
                a == amount as int * unit(),
        ;
        vstd::arithmetic::div_mod::lemma_div_denominator(a * unit(), p, unit());
        assert(p * unit() == unit() * p) by {
            vstd::arithmetic::mul::lemma_mul_is_commutative(p, unit());
        }
        vstd::arithmetic::div_mod::lemma_div_denominator(a * unit(), unit(), p);
        vstd::arithmetic::div_mod::lemma_div_by_multiple(a, unit());
        assert(buy_amount.atomics as int / unit() == k);
        lemma_floor_le(a, p);
        vstd::arithmetic::div_mod::lemma_div_pos_is_pos(a, p);
        lemma_mul_whole(p, k);
    }
    let cost = buy_floor.mul(price);
    proof {
        assert(cost.atomics == k * p);
        assert(k * p == p * k) by {
            vstd::arithmetic::mul::lemma_mul_is_commutative(k, p);
        }
    }
    let rest = amount_d.sub(cost);
    let leftover = rest.to_uint_floor();
    let bought = buy_floor.to_uint_floor();
    proof {
        vstd::arithmetic::div_mod::lemma_div_by_multiple(k, unit());
        lemma_floor_le(a - k * p, unit());
        assert(leftover <= amount) by {
            vstd::arithmetic::div_mod::lemma_div_is_ordered(a - k * p, a, unit());
            vstd::arithmetic::div_mod::lemma_div_by_multiple(amount as int, unit());
        }
    }
    (bought, leftover)
}

/// The chain was halted between `check` and `now`: more time passed than the
/// blocks' average time plus the tolerated cap.
pub open spec fn chain_halted(now: BlockInfo, check: BlockInfo, cfg: ChainHaltConfig) -> bool {
    now.time.spec_seconds() - check.time.spec_seconds() > ((now.height - check.height)
        * cfg.block_avg.atomics) / unit() + cfg.cap
}

/// `is_chain_halted` can run on these values.
pub open spec fn halt_check_defined(now: BlockInfo, check: BlockInfo, cfg: ChainHaltConfig) -> bool {
    &&& check.height <= now.height
    &&& check.time.spec_seconds() <= now.time.spec_seconds()
    &&& ((now.height - check.height) * cfg.block_avg.atomics) / unit() + cfg.cap <= u128::MAX
}

/// Whether the time between `check_block` and the current block exceeds what
/// the blocks in between should take by more than the configured cap.
pub fn is_chain_halted(now: &BlockInfo, check_block: &BlockInfo, halt_config: &ChainHaltConfig) -> (r:
    bool)
    requires
        halt_check_defined(*now, *check_block, *halt_config),
    ensures
        r == chain_halted(*now, *check_block, *halt_config),
{
    let block_diff = (now.height - check_block.height) as u128;
    let time_diff = (now.time.seconds() - check_block.time.seconds()) as u128;
    proof {
        assert((block_diff as int * halt_config.block_avg.atomics as int) / unit() >= 0) by {
            assert(block_diff as int * halt_config.block_avg.atomics as int >= 0) by (nonlinear_arith)
                requires
                    block_diff >= 0,
                    halt_config.block_avg.atomics >= 0,
            ;
            vstd::arithmetic::div_mod::lemma_div_pos_is_pos(
                block_diff as int * halt_config.block_avg.atomics as int,
                unit(),
            );
        }
    }
    let avg_time_passed = uint_times_decimal(block_diff, halt_config.block_avg.atomics);
    time_diff > avg_time_passed + halt_config.cap
}


/// Bids are accepted: the auction has started, is not over, and is not paused.
pub fn check_bid_allowed(auction: &ActiveAuction, is_paused: bool, height: u64) -> (r: Result<
    (),
    ContractError,
>)
    ensures
        !(auction.status is Started) ==> r == Err::<(), ContractError>(
            ContractError::AuctionFinished,
        ),
        auction.status is Started && auction.start_block > height ==> r == Err::<(), ContractError>(
            ContractError::AuctionNotStarted(auction.start_block),
        ),
        auction.status is Started && auction.start_block <= height && auction.end_block < height
            ==> r == Err::<(), ContractError>(ContractError::AuctionFinished),
        auction.status is Started && auction.start_block <= height && height <= auction.end_block
            && is_paused ==> r == Err::<(), ContractError>(ContractError::AuctionIsPaused),
        auction.status is Started && auction.start_block <= height && height <= auction.end_block
            && !is_paused ==> r is Ok,
{
    match auction.status {
        ActiveAuctionStatus::Started => {},
        _ => {
            return Err(ContractError::AuctionFinished);
        },
    }
    if auction.start_block > height {
        return Err(ContractError::AuctionNotStarted(auction.start_block));
    }
    if auction.end_block < height {
        return Err(ContractError::AuctionFinished);
    }
    if is_paused {
        return Err(ContractError::AuctionIsPaused);
    }
    Ok(())
}

/// The extra refund when a bid buys more than is available: the surplus units
/// valued at the price, rounded down.
pub open spec fn surplus_refund(p: int, buy: int, available: int) -> int {
    ((buy - available) * p) / unit()
}

/// `settle_bid` can run on these values without leaving a number's range
/// (a surplus too large to convert is reported as an error instead).
pub open spec fn bid_defined(a: ActiveAuction, cfg: ChainHaltConfig, block: BlockInfo, sent: int) -> bool {
    &&& halt_check_defined(block, a.last_checked_block, cfg)
    &&& !chain_halted(block, a.last_checked_block, cfg) ==> {
        let h = block.height as int;
        let p = price_at(a, h);
        let buy = buy_spec(p, sent);
        let lo = leftover_spec(p, sent);
        &&& price_defined(a, h)
        &&& buy_defined(p, sent)
        &&& buy <= a.available_amount ==> a.resolved_amount + (sent - lo) <= u128::MAX
        &&& buy > a.available_amount && (buy - a.available_amount) * unit() <= u128::MAX
            ==> a.resolved_amount + (sent - lo - surplus_refund(p, buy, a.available_amount as int))
            <= u128::MAX
    }
}

/// The surplus of a bid cannot be converted to a decimal.
pub open spec fn bid_surplus_too_large(a: ActiveAuction, cfg: ChainHaltConfig, block: BlockInfo, sent: int) -> bool {
    let p = price_at(a, block.height as int);
    let buy = buy_spec(p, sent);
    &&& !chain_halted(block, a.last_checked_block, cfg)
    &&& buy > a.available_amount
    &&& (buy - a.available_amount) * unit() > u128::MAX
}

/// Settles a bid of `sent` units of `pair.1` in `block`. Returns the updated
/// auction, the amount of `pair.0` bought and the amount of `pair.1` refunded.
///
/// If the chain halted since the last checked block, the auction finishes and
/// the whole bid is refunded. Otherwise the bid buys at the current price; if
/// it buys more than is available, it gets what is available and the surplus
/// is refunded at the same price, and the auction finishes.
pub fn settle_bid(auction: ActiveAuction, halt_config: &ChainHaltConfig, block: BlockInfo, sent: u128) -> (r:
    Result<(ActiveAuction, u128, u128), ContractError>)
    requires
        bid_defined(auction, *halt_config, block, sent as int),
    ensures
        bid_surplus_too_large(auction, *halt_config, block, sent as int) ==> r
            == Err::<(ActiveAuction, u128, u128), ContractError>(
            ContractError::DecimalRangeExceeded,
        ),
        !bid_surplus_too_large(auction, *halt_config, block, sent as int) ==> r is Ok,
        r matches Ok((a, buy, lo)) ==> {
            let p = price_at(auction, block.height as int);
            &&& a.last_checked_block == block
            &&& a.start_block == auction.start_block
            &&& a.end_block == auction.end_block
            &&& a.start_price == auction.start_price
            &&& a.end_price == auction.end_price
            &&& a.total_amount == auction.total_amount
            &&& a.leftovers == auction.leftovers
            // what is sold leaves the available amount
            &&& a.available_amount + buy == auction.available_amount
            // what the bidder pays is added to the resolved amount
            &&& a.resolved_amount + lo == auction.resolved_amount + sent
            &&& lo <= sent
            &&& chain_halted(block, auction.last_checked_block, *halt_config) ==> {
                &&& buy == 0
                &&& lo == sent
                &&& a.status == ActiveAuctionStatus::Finished
            }
            &&& !chain_halted(block, auction.last_checked_block, *halt_config) ==> {
                // the bidder gets no more than what was paid for at the current price
                &&& buy * p <= (sent - lo) * unit()
                &&& buy_spec(p, sent as int) <= auction.available_amount ==> {
                    &&& buy == buy_spec(p, sent as int)
                    &&& lo == leftover_spec(p, sent as int)
                    &&& a.status == (if a.available_amount == 0 {
                        ActiveAuctionStatus::Finished
                    } else {
                        auction.status
                    })
                }
                &&& buy_spec(p, sent as int) > auction.available_amount ==> {
                    &&& buy == auction.available_amount
                    &&& lo == leftover_spec(p, sent as int) + surplus_refund(
                        p,
                        buy_spec(p, sent as int),
                        auction.available_amount as int,
                    )
                    &&& a.available_amount == 0
                    &&& a.status == ActiveAuctionStatus::Finished
                }
            }
        },
{
    let mut auction = auction;
    let halted = is_chain_halted(&block, &auction.last_checked_block, halt_config);
    let (buy_amount, leftover_amount) = if halted {
        auction.status = ActiveAuctionStatus::Finished;
        (0u128, sent)
    } else {
        let curr_price = calc_price(&auction, block.height);
        let ghost p = curr_price.atomics as int;
        let (buy_amount, send_leftover) = calc_buy_amount(curr_price, sent);
        if buy_amount <= auction.available_amount {
            let available = auction.available_amount - buy_amount;
            if available == 0 {
                auction.status = ActiveAuctionStatus::Finished;
            }
            auction.available_amount = available;
            auction.resolved_amount = auction.resolved_amount + (sent - send_leftover);
            proof {
                assert(buy_amount * p <= (sent - send_leftover) * unit()) by (nonlinear_arith)
                    requires
                        buy_amount * p + send_leftover * unit() <= sent * unit(),
                ;
            }
            (buy_amount, send_leftover)
        } else {
            let surplus = buy_amount - auction.available_amount;
            let to_refund = match Decimal::from_uint(surplus) {
                Ok(d) => d,
                Err(_) => {
                    return Err(ContractError::DecimalRangeExceeded);
                },
            };
            let ghost av = auction.available_amount as int;
            proof {
                lemma_mul_whole(p, surplus as int);
                assert(surplus * p <= buy_amount * p) by (nonlinear_arith)
                    requires
                        surplus <= buy_amount,
                        p >= 0,
                ;
                assert(buy_amount * p <= sent * unit()) by (nonlinear_arith)
                    requires
                        buy_amount * p + send_leftover * unit() <= sent * unit(),
                        send_leftover >= 0,
                ;
                lemma_u64_whole_fits(0);
                assert(sent * unit() <= u128::MAX);
                assert(p * surplus == surplus * p) by {
                    vstd::arithmetic::mul::lemma_mul_is_commutative(p, surplus as int);
                }
            }
            let extra = to_refund.mul(curr_price).to_uint_floor();
            proof {
                lemma_floor_le(surplus * p, unit());
                lemma_floor_le(sent * unit() - buy_amount * p, unit());
                // the two refunds together stay within what was sent
                assert(send_leftover * unit() + extra * unit() <= sent * unit() - av * p)
                    by (nonlinear_arith)
                    requires
                        send_leftover * unit() <= sent * unit() - buy_amount * p,
                        extra * unit() <= surplus * p,
                        surplus == buy_amount - av,
                ;
                assert(av * p >= 0) by (nonlinear_arith)
                    requires
                        av >= 0,
                        p >= 0,
                ;
                assert(send_leftover + extra <= sent) by (nonlinear_arith)
                    requires
                        send_leftover * unit() + extra * unit() <= sent * unit() - av * p,
                        av * p >= 0,
                        unit() > 0,
                ;
                assert(av * p <= (sent - (send_leftover + extra)) * unit()) by (nonlinear_arith)
                    requires
                        send_leftover * unit() + extra * unit() <= sent * unit() - av * p,
                ;
            }
            let new_leftover = send_leftover + extra;
            let bought = auction.available_amount;
            auction.resolved_amount = auction.resolved_amount + (sent - new_leftover);
            auction.available_amount = 0;
            auction.status = ActiveAuctionStatus::Finished;
            (bought, new_leftover)
        }
    };
    auction.last_checked_block = block;
    Ok((auction, buy_amount, leftover_amount))
}


/// Funds sent to one provider when an auction closes.
#[derive(Clone, Debug, PartialEq, Eq)]
pub struct Payout {
    pub addr: String,
    pub coins: Vec<Coin>,
}

/// Sending out funds may go on: returns where to resume (the last provider
/// paid) and the totals of `pair.0` and `pair.1` sent so far.
pub fn finish_start(auction: &ActiveAuction, height: u64) -> (r: Result<
    (Option<String>, u128, u128),
    ContractError,
>)
    ensures
        auction.status is Started && auction.end_block > height && auction.available_amount != 0
            ==> r == Err::<(Option<String>, u128, u128), ContractError>(
            ContractError::AuctionStillGoing,
        ),
        !(auction.status is Started && auction.end_block > height && auction.available_amount
            != 0) ==> match auction.status {
            ActiveAuctionStatus::CloseAuction(addr, s, b) => r == Ok::<
                (Option<String>, u128, u128),
                ContractError,
            >((addr, s, b)),
            ActiveAuctionStatus::AuctionClosed => r == Err::<
                (Option<String>, u128, u128),
                ContractError,
            >(ContractError::AuctionClosed),
            _ => r == Ok::<(Option<String>, u128, u128), ContractError>((None, 0, 0)),
        },
{
    let still_going = match auction.status {
        ActiveAuctionStatus::Started => true,
        _ => false,
    };
    if still_going && auction.end_block > height && auction.available_amount != 0 {
        return Err(ContractError::AuctionStillGoing);
    }
    match &auction.status {
        ActiveAuctionStatus::CloseAuction(addr, s, b) => {
            let a = match addr {
                Some(x) => Some(x.clone()),
                None => None,
            };
            Ok((a, *s, *b))
        },
        ActiveAuctionStatus::AuctionClosed => Err(ContractError::AuctionClosed),
        _ => Ok((None, 0, 0)),
    }
}

/// A provider's share of the auction: `amount / total_amount`, in atomics.
pub open spec fn share_of(a: ActiveAuction, amount: int) -> int {
    (amount * unit()) / (a.total_amount as int)
}

/// The `pair.1` a provider of `amount` receives before rounding, in atomics.
pub open spec fn bought_atomics(a: ActiveAuction, amount: int) -> int {
    a.resolved_amount * share_of(a, amount)
}

/// The `pair.1` paid out: rounded down, except that a fractional part of at
/// least 0.9999 is rounded up.
pub open spec fn bought_payout(a: ActiveAuction, amount: int) -> int {
    let x = bought_atomics(a, amount);
    if x - (x / unit()) * unit() >= 9999 * 100_000_000_000_000 {
        if x == 0 {
            0
        } else {
            1 + (x - 1) / unit()
        }
    } else {
        x / unit()
    }
}

/// The unsold `pair.0` refunded to a provider of `amount`, rounded down.
pub open spec fn sold_payout(a: ActiveAuction, amount: int) -> int {
    if a.available_amount == 0 {
        0
    } else {
        (a.available_amount * share_of(a, amount)) / unit()
    }
}

/// `pair.0` sent to a provider: everything back if nothing was sold.
pub open spec fn entry_sold(a: ActiveAuction, amount: int) -> int {
    if a.resolved_amount == 0 {
        amount
    } else {
        sold_payout(a, amount)
    }
}

/// `pair.1` sent to a provider.
pub open spec fn entry_bought(a: ActiveAuction, amount: int) -> int {
    if a.resolved_amount == 0 {
        0
    } else {
        bought_payout(a, amount)
    }
}

/// The amounts involved in a provider's payout convert to decimals.
pub open spec fn entry_converts(a: ActiveAuction, amount: int) -> bool {
    a.resolved_amount == 0 || {
        &&& amount * unit() <= u128::MAX
        &&& a.total_amount * unit() <= u128::MAX
        &&& a.resolved_amount * unit() <= u128::MAX
        &&& a.available_amount != 0 ==> a.available_amount * unit() <= u128::MAX
    }
}

/// The payout of a provider stays within range: each step that follows a
/// successful conversion neither divides by zero nor overflows.
pub open spec fn entry_safe(a: ActiveAuction, amount: int) -> bool {
    a.resolved_amount == 0 || (amount * unit() <= u128::MAX && a.total_amount * unit()
        <= u128::MAX ==> {
        &&& a.total_amount != 0
        &&& share_of(a, amount) <= u128::MAX
        &&& a.resolved_amount * unit() <= u128::MAX ==> {
            &&& bought_atomics(a, amount) <= u128::MAX
            &&& a.available_amount != 0 && a.available_amount * unit() <= u128::MAX
                ==> a.available_amount * share_of(a, amount) <= u128::MAX
        }
    })
}

/// The first `n` entries all convert.
pub open spec fn prefix_converts(a: ActiveAuction, entries: Seq<(String, u128)>, n: int) -> bool {
    forall|j: int| 0 <= j < n ==> entry_converts(a, #[trigger] entries[j].1 as int)
}

/// `pair.0` sent to the first `n` entries.
pub open spec fn sum_sold(a: ActiveAuction, entries: Seq<(String, u128)>, n: int) -> int
    decreases n,
{
    if n <= 0 {
        0
    } else {
        sum_sold(a, entries, n - 1) + entry_sold(a, entries[n - 1].1 as int)
    }
}

/// `pair.1` sent to the first `n` entries.
pub open spec fn sum_bought(a: ActiveAuction, entries: Seq<(String, u128)>, n: int) -> int
    decreases n,
{
    if n <= 0 {
        0
    } else {
        sum_bought(a, entries, n - 1) + entry_bought(a, entries[n - 1].1 as int)
    }
}

proof fn lemma_sums_nonneg(a: ActiveAuction, entries: Seq<(String, u128)>, n: int)
    requires
        0 <= n <= entries.len(),
        a.resolved_amount == 0 || a.total_amount != 0,
    ensures
        sum_sold(a, entries, n) >= 0,
        sum_bought(a, entries, n) >= 0,
    decreases n,
{
    if n > 0 {
        lemma_sums_nonneg(a, entries, n - 1);
        let amount = entries[n - 1].1 as int;
        if a.resolved_amount != 0 {
            if a.total_amount != 0 {
                assert(amount * unit() >= 0) by (nonlinear_arith)
                    requires
                        amount >= 0,
                ;
                vstd::arithmetic::div_mod::lemma_div_pos_is_pos(
                    amount * unit(),
                    a.total_amount as int,
                );
            }
            let sh = share_of(a, amount);
            if sh >= 0 {
                assert(a.resolved_amount * sh >= 0) by (nonlinear_arith)
                    requires
                        sh >= 0,
                        a.resolved_amount >= 0,
                ;
                assert(a.available_amount * sh >= 0) by (nonlinear_arith)
                    requires
                        sh >= 0,
                        a.available_amount >= 0,
                ;
                lemma_floor_le(a.resolved_amount * sh, unit());
                lemma_floor_le(a.available_amount * sh, unit());
                if bought_atomics(a, amount) > 0 {
                    lemma_floor_le(bought_atomics(a, amount) - 1, unit());
                }
            }
        }
        assert(entry_sold(a, amount) >= 0 || a.total_amount == 0);
    }
}

/// The decimals of a payout convert and stay in range.
pub open spec fn distribution_defined(
    a: ActiveAuction,
    entries: Seq<(String, u128)>,
    init_sold: int,
    init_bought: int,
) -> bool {
    forall|i: int|
        0 <= i < entries.len() && #[trigger] prefix_converts(a, entries, i) ==> {
            &&& entry_safe(a, entries[i].1 as int)
            &&& prefix_converts(a, entries, i + 1) ==> {
                &&& init_sold + sum_sold(a, entries, i + 1) <= u128::MAX
                &&& init_bought + sum_bought(a, entries, i + 1) <= u128::MAX
            }
        }
}

/// The payout of one provider of `amount`: `(pair.0, pair.1)` to send.
fn entry_payout(a: &ActiveAuction, amount: u128) -> (r: Result<(u128, u128), ContractError>)
    requires
        entry_safe(*a, amount as int),
    ensures
        entry_converts(*a, amount as int) ==> r == Ok::<(u128, u128), ContractError>(
            (entry_sold(*a, amount as int) as u128, entry_bought(*a, amount as int) as u128),
        ),
        !entry_converts(*a, amount as int) ==> r == Err::<(u128, u128), ContractError>(
            ContractError::DecimalRangeExceeded,
        ),
{
    if a.resolved_amount == 0 {
        return Ok((amount, 0));
    }
    let amount_d = match Decimal::from_uint(amount) {
        Ok(d) => d,
        Err(_) => {
            return Err(ContractError::DecimalRangeExceeded);
        },
    };
    let total_d = match Decimal::from_uint(a.total_amount) {
        Ok(d) => d,
        Err(_) => {
            return Err(ContractError::DecimalRangeExceeded);
        },
    };
    proof {
        lemma_unit_cancels(amount as int, a.total_amount as int);
        assert(amount as int * unit() >= 0) by (nonlinear_arith)
            requires
                amount >= 0,
        ;
        vstd::arithmetic::div_mod::lemma_div_by_multiple(amount as int, unit());
        assert(div_atomics(amount_d.atomics as int, total_d.atomics as int) == share_of(
            *a,
            amount as int,
        )) by {
            vstd::arithmetic::div_mod::lemma_div_denominator(
                amount as int * unit() * unit(),
                unit(),
                a.total_amount as int,
            );
        }
    }
    let perc_of_total = amount_d.div(total_d);
    let resolved_d = match Decimal::from_uint(a.resolved_amount) {
        Ok(d) => d,
        Err(_) => {
            return Err(ContractError::DecimalRangeExceeded);
        },
    };
    proof {
        vstd::arithmetic::div_mod::lemma_div_pos_is_pos(
            amount as int * unit(),
            a.total_amount as int,
        );
        lemma_mul_whole(perc_of_total.atomics as int, a.resolved_amount as int);
        assert(perc_of_total.atomics as int * a.resolved_amount == a.resolved_amount * share_of(
            *a,
            amount as int,
        )) by {
            vstd::arithmetic::mul::lemma_mul_is_commutative(
                perc_of_total.atomics as int,
                a.resolved_amount as int,
            );
        }
    }
    let to_send = resolved_d.mul(perc_of_total);
    let frac = to_send.sub(to_send.floor());
    let bought = if frac.atomics >= crate::auction_package::CLOSEST_TO_ONE_POSSIBLE as u128
        * 100_000_000_000_000u128 {
        to_send.to_uint_ceil()
    } else {
        to_send.to_uint_floor()
    };
    let mut sold: u128 = 0;
    if a.available_amount != 0 {
        let available_d = match Decimal::from_uint(a.available_amount) {
            Ok(d) => d,
            Err(_) => {
                return Err(ContractError::DecimalRangeExceeded);
            },
        };
        proof {
            lemma_mul_whole(perc_of_total.atomics as int, a.available_amount as int);
            assert(perc_of_total.atomics as int * a.available_amount == a.available_amount
                * share_of(*a, amount as int)) by {
                vstd::arithmetic::mul::lemma_mul_is_commutative(
                    perc_of_total.atomics as int,
                    a.available_amount as int,
                );
            }
        }
        sold = available_d.mul(perc_of_total).to_uint_floor();
    }
    Ok((sold, bought))
}

/// The payouts of `entries`, in order: each provider gets back its deposit
/// where nothing was sold, else its share of what was received in `pair.1`
/// and, where something is left unsold, its share of that in `pair.0`.
pub open spec fn payouts_match(
    a: ActiveAuction,
    entries: Seq<(String, u128)>,
    sold_denom: Seq<char>,
    bought_denom: Seq<char>,
    payouts: Seq<Payout>,
) -> bool {
    &&& payouts.len() == entries.len()
    &&& forall|i: int|
        0 <= i < entries.len() ==> {
            let p = #[trigger] payouts[i];
            let amount = entries[i].1 as int;
            &&& p.addr@ == entries[i].0@
            &&& a.resolved_amount == 0 ==> p.coins@.len() == 1 && p.coins@[0].denom@ == sold_denom
                && p.coins@[0].amount == amount
            &&& a.resolved_amount != 0 ==> p.coins@.len() >= 1 && p.coins@[0].denom@ == bought_denom
                && p.coins@[0].amount == entry_bought(a, amount)
            &&& a.resolved_amount != 0 && a.available_amount != 0 ==> p.coins@.len() == 2
                && p.coins@[1].denom@ == sold_denom && p.coins@[1].amount == entry_sold(a, amount)
            &&& a.resolved_amount != 0 && a.available_amount == 0 ==> p.coins@.len() == 1
        }
}

/// Pays out `entries` (provider, deposited amount) in order, starting from the
/// totals already sent. Returns the payouts and the new totals of `pair.0` and
/// `pair.1` sent.
pub fn distribute(
    a: &ActiveAuction,
    entries: &Vec<(String, u128)>,
    sold_denom: &String,
    bought_denom: &String,
    init_sold: u128,
    init_bought: u128,
) -> (r: Result<(Vec<Payout>, u128, u128), ContractError>)
    requires
        distribution_defined(*a, entries@, init_sold as int, init_bought as int),
    ensures
        prefix_converts(*a, entries@, entries@.len() as int) ==> (r matches Ok((payouts, s, b)) && {
            &&& s == init_sold + sum_sold(*a, entries@, entries@.len() as int)
            &&& b == init_bought + sum_bought(*a, entries@, entries@.len() as int)
            &&& payouts_match(*a, entries@, sold_denom@, bought_denom@, payouts@)
        }),
        !prefix_converts(*a, entries@, entries@.len() as int) ==> r == Err::<
            (Vec<Payout>, u128, u128),
            ContractError,
        >(ContractError::DecimalRangeExceeded),
{
    let mut payouts: Vec<Payout> = Vec::new();
    let mut sold = init_sold;
    let mut bought = init_bought;
    let mut i: usize = 0;
    while i < entries.len()
        invariant
            0 <= i <= entries.len(),
            distribution_defined(*a, entries@, init_sold as int, init_bought as int),
            prefix_converts(*a, entries@, i as int),
            sold == init_sold + sum_sold(*a, entries@, i as int),
            bought == init_bought + sum_bought(*a, entries@, i as int),
            payouts.len() == i,
            forall|k: int|
                0 <= k < i ==> {
                    let p = #[trigger] payouts@[k];
                    let amount = entries@[k].1 as int;
                    &&& p.addr@ == entries@[k].0@
                    &&& a.resolved_amount == 0 ==> p.coins@.len() == 1 && p.coins@[0].denom@
                        == sold_denom@ && p.coins@[0].amount == amount
                    &&& a.resolved_amount != 0 ==> p.coins@.len() >= 1 && p.coins@[0].denom@
                        == bought_denom@ && p.coins@[0].amount == entry_bought(*a, amount)
                    &&& a.resolved_amount != 0 && a.available_amount != 0 ==> p.coins@.len() == 2
                        && p.coins@[1].denom@ == sold_denom@ && p.coins@[1].amount == entry_sold(
                        *a,
                        amount,
                    )
                    &&& a.resolved_amount != 0 && a.available_amount == 0 ==> p.coins@.len() == 1
                },
        decreases entries.len() - i,
    {
        let amount = entries[i].1;
        if !entry_converts_exec(a, amount) {
            proof {
                assert(!prefix_converts(*a, entries@, entries@.len() as int));
            }
            return Err(ContractError::DecimalRangeExceeded);
        }
        proof {
            assert(prefix_converts(*a, entries@, i + 1));
        }
        let (s, b) = match entry_payout(a, amount) {
            Ok(x) => x,
            Err(e) => {
                return Err(e);
            },
        };
        proof {
            lemma_sums_nonneg(*a, entries@, i as int);
        }
        sold = sold + s;
        bought = bought + b;
        let mut coins: Vec<Coin> = Vec::new();
        if a.resolved_amount == 0 {
            coins.push(Coin { denom: sold_denom.clone(), amount: s });
        } else {
            coins.push(Coin { denom: bought_denom.clone(), amount: b });
            if a.available_amount != 0 {
                coins.push(Coin { denom: sold_denom.clone(), amount: s });
            }
        }
        payouts.push(Payout { addr: entries[i].0.clone(), coins });
        i = i + 1;
    }
    Ok((payouts, sold, bought))
}

/// Whether one provider's amounts convert to decimals.
fn entry_converts_exec(a: &ActiveAuction, amount: u128) -> (r: bool)
    ensures
        r == entry_converts(*a, amount as int),
{
    if a.resolved_amount == 0 {
        return true;
    }
    let m = DECIMAL_FRACTIONAL;
    amount.checked_mul(m).is_some() && a.total_amount.checked_mul(m).is_some()
        && a.resolved_amount.checked_mul(m).is_some() && (a.available_amount == 0
        || a.available_amount.checked_mul(m).is_some())
}


/// What closing an auction leaves: the updated auction and, where something
/// was sold, the average price of the auction to record.
pub open spec fn closing_price(a: ActiveAuction) -> Option<int> {
    let sold = a.total_amount - a.available_amount;
    if a.total_amount != 0 && sold != 0 {
        Some((a.resolved_amount * unit() * unit()) / (sold * unit()))
    } else {
        None
    }
}

/// What ending a round of payouts yields: the auction and the price to record.
pub open spec fn close_round_result(
    auction: ActiveAuction,
    paid: int,
    limit: int,
    last_resolved: Option<String>,
    total_sold: int,
    total_bought: int,
    now: Timestamp,
) -> Result<(ActiveAuction, Option<Price>), ContractError> {
    if paid >= limit {
        Ok(
            (
                ActiveAuction {
                    status: ActiveAuctionStatus::CloseAuction(last_resolved, total_sold as u128, total_bought as u128),
                    ..auction
                },
                None,
            ),
        )
    } else if total_sold > auction.available_amount || total_bought > auction.resolved_amount
        || auction.available_amount > auction.total_amount {
        Err(ContractError::OverflowError)
    } else {
        let closed = ActiveAuction {
            status: ActiveAuctionStatus::AuctionClosed,
            leftovers: [(auction.available_amount - total_sold) as u128, (auction.resolved_amount - total_bought) as u128],
            ..auction
        };
        let sold = auction.total_amount - auction.available_amount;
        match closing_price(auction) {
            None => Ok((closed, None)),
            Some(p) => if auction.resolved_amount * unit() > u128::MAX || sold * unit() > u128::MAX {
                Err(ContractError::DecimalRangeExceeded)
            } else if p > u128::MAX {
                Err(ContractError::CheckedFromRatioError)
            } else {
                Ok((closed, Some(Price { price: Decimal { atomics: p as u128 }, time: now })))
            },
        }
    }
}

/// Ends a round of payouts. If fewer than `limit` providers were paid in this
/// round, everything was sent: the rounding leftovers are kept for the next
/// auction, the average price of what was sold is returned, and the auction is
/// closed. Otherwise the auction records where to resume and the totals sent.
pub fn close_round(
    auction: ActiveAuction,
    paid: u64,
    limit: u64,
    last_resolved: Option<String>,
    total_sold: u128,
    total_bought: u128,
    now: Timestamp,
) -> (r: Result<(ActiveAuction, Option<Price>), ContractError>)
    ensures
        r == close_round_result(
            auction,
            paid as int,
            limit as int,
            last_resolved,
            total_sold as int,
            total_bought as int,
            now,
        ),
{
    let mut auction = auction;
    if paid >= limit {
        auction.status = ActiveAuctionStatus::CloseAuction(last_resolved, total_sold, total_bought);
        return Ok((auction, None));
    }
    if total_sold > auction.available_amount {
        return Err(ContractError::OverflowError);
    }
    if total_bought > auction.resolved_amount {
        return Err(ContractError::OverflowError);
    }
    let leftover_sold = auction.available_amount - total_sold;
    let leftover_bought = auction.resolved_amount - total_bought;
    auction.leftovers = [leftover_sold, leftover_bought];
    if auction.available_amount > auction.total_amount {
        return Err(ContractError::OverflowError);
    }
    let sold_amount = auction.total_amount - auction.available_amount;
    let price = if auction.total_amount != 0 && sold_amount != 0 {
        let resolved_d = match Decimal::from_uint(auction.resolved_amount) {
            Ok(d) => d,
            Err(_) => {
                return Err(ContractError::DecimalRangeExceeded);
            },
        };
        let sold_d = match Decimal::from_uint(sold_amount) {
            Ok(d) => d,
            Err(_) => {
                return Err(ContractError::DecimalRangeExceeded);
            },
        };
        match resolved_d.checked_div(sold_d) {
            Some(avg) => Some(Price { price: avg, time: now }),
            None => {
                return Err(ContractError::CheckedFromRatioError);
            },
        }
    } else {
        None
    };
    auction.status = ActiveAuctionStatus::AuctionClosed;
    Ok((auction, price))
}

/// When an auction closes having sold something, the price it records is the
/// amount received over the amount sold (rounded down to 18 places), so that
/// the price times the amount sold comes to the amount received; when nothing
/// was sold, no price is recorded.
pub proof fn lemma_closing_price_is_average(
    auction: ActiveAuction,
    paid: int,
    limit: int,
    last_resolved: Option<String>,
    total_sold: int,
    total_bought: int,
    now: Timestamp,
)
    requires
        paid < limit,
        close_round_result(auction, paid, limit, last_resolved, total_sold, total_bought, now) is Ok,
    ensures
        ({
            let sold = auction.total_amount - auction.available_amount;
            let price = close_round_result(auction, paid, limit, last_resolved, total_sold, total_bought, now)->Ok_0.1;
            &&& sold > 0 ==> (price matches Some(p) && p.time == now
                && p.price.atomics * sold <= auction.resolved_amount * unit()
                && auction.resolved_amount * unit() < (p.price.atomics + 1) * sold)
            &&& sold == 0 ==> price is None
        }),
{
    let sold = auction.total_amount - auction.available_amount;
    if sold > 0 {
        let r = auction.resolved_amount as int;
        let q = (r * unit() * unit()) / (sold * unit());
        assert(q * (sold * unit()) <= r * unit() * unit() < (q + 1) * (sold * unit())) by (nonlinear_arith)
            requires
                q == (r * unit() * unit()) / (sold * unit()),
                sold > 0,
        ;
        assert(q * sold <= r * unit() < (q + 1) * sold) by (nonlinear_arith)
            requires
                q * (sold * unit()) <= r * unit() * unit() < (q + 1) * (sold * unit()),
        ;
    }
}

/// A round of payouts that closes a finished auction records, where something
/// was sold, the amount received over the amount sold as its price.
pub proof fn lemma_finish_records_average_price(
    auction: ActiveAuction,
    height: u64,
    limit: u64,
    entries: Seq<(String, u128)>,
    now: Timestamp,
)
    requires
        entries.len() < limit,
        finish_round(auction, height, limit, entries, now) is Ok,
    ensures
        ({
            let sold = auction.total_amount - auction.available_amount;
            let (closed, price) = finish_round(auction, height, limit, entries, now)->Ok_0;
            &&& closed.status == ActiveAuctionStatus::AuctionClosed
            &&& sold > 0 ==> (price matches Some(p) && p.time == now
                && p.price.atomics * sold <= auction.resolved_amount * unit()
                && auction.resolved_amount * unit() < (p.price.atomics + 1) * sold)
            &&& sold == 0 ==> price is None
        }),
{
    let last = if entries.len() > 0 {
        Some(entries.last().0)
    } else {
        resume_from(auction)
    };
    lemma_closing_price_is_average(
        auction,
        entries.len() as int,
        limit as int,
        last,
        resume_totals(auction).0 + sum_sold(auction, entries, entries.len() as int),
        resume_totals(auction).1 + sum_bought(auction, entries, entries.len() as int),
        now,
    );
}

/// Records a new auction price at the front of the recent prices, dropping the
/// oldest one once the list holds `TWAP_PRICE_MAX_LEN` prices.
pub fn push_twap_price(prices: VecDeque<Price>, price: Price) -> (r: VecDeque<Price>)
    ensures
        prices.len() >= TWAP_PRICE_MAX_LEN ==> r@ == seq![price] + prices@.drop_last(),
        prices.len() < TWAP_PRICE_MAX_LEN ==> r@ == seq![price] + prices@,
{
    let mut prices = prices;
    if prices.len() >= TWAP_PRICE_MAX_LEN as usize {
        prices.pop_back();
    }
    prices.push_front(price);
    prices
}


/// The funds of the next auction: where the payouts resume and the totals
/// already sent, as `finish_start` reads them from the status.
pub open spec fn resume_totals(a: ActiveAuction) -> (int, int) {
    match a.status {
        ActiveAuctionStatus::CloseAuction(_, s, b) => (s as int, b as int),
        _ => (0, 0),
    }
}

/// The outcome of a round of `finish_auction`.
#[derive(Clone, Debug, PartialEq, Eq)]
pub struct FinishOutcome {
    pub auction: ActiveAuction,
    pub payouts: Vec<Payout>,
    /// The average price of the auction, when it closed having sold something.
    pub price: Option<Price>,
    pub is_closed: bool,
}

/// Where the payouts resume: after the last provider paid, if any.
pub open spec fn resume_from(a: ActiveAuction) -> Option<String> {
    match a.status {
        ActiveAuctionStatus::CloseAuction(addr, _, _) => addr,
        _ => None,
    }
}

/// What a round of payouts of `entries` yields: the auction and the price to
/// record, or why it is refused.
pub open spec fn finish_round(
    auction: ActiveAuction,
    height: u64,
    limit: u64,
    entries: Seq<(String, u128)>,
    now: Timestamp,
) -> Result<(ActiveAuction, Option<Price>), ContractError> {
    if auction.status is Started && auction.end_block > height && auction.available_amount != 0 {
        Err(ContractError::AuctionStillGoing)
    } else if auction.status is AuctionClosed {
        Err(ContractError::AuctionClosed)
    } else if !prefix_converts(auction, entries, entries.len() as int) {
        Err(ContractError::DecimalRangeExceeded)
    } else {
        let last = if entries.len() > 0 {
            Some(entries.last().0)
        } else {
            resume_from(auction)
        };
        close_round_result(
            auction,
            entries.len() as int,
            limit as int,
            last,
            resume_totals(auction).0 + sum_sold(auction, entries, entries.len() as int),
            resume_totals(auction).1 + sum_bought(auction, entries, entries.len() as int),
            now,
        )
    }
}

/// One round of paying out a finished auction: `entries` are the next
/// providers (at most `limit`) after the last one paid, with their deposits.
/// Once fewer than `limit` are paid, everything was sent and the auction
/// closes; otherwise it records where to resume.
pub fn finish_auction(
    auction: ActiveAuction,
    height: u64,
    limit: u64,
    entries: &Vec<(String, u128)>,
    sold_denom: &String,
    bought_denom: &String,
    now: Timestamp,
) -> (r: Result<FinishOutcome, ContractError>)
    requires
        entries.len() <= limit,
        distribution_defined(
            auction,
            entries@,
            resume_totals(auction).0,
            resume_totals(auction).1,
        ),
    ensures
        match finish_round(auction, height, limit, entries@, now) {
            Err(e) => r == Err::<FinishOutcome, ContractError>(e),
            Ok((a, price)) => r matches Ok(out) && {
                &&& out.auction == a
                &&& out.price == price
                &&& out.is_closed == (entries.len() < limit)
                &&& payouts_match(auction, entries@, sold_denom@, bought_denom@, out.payouts@)
            },
        },
        r matches Ok(out) ==> {
            let sold = resume_totals(auction).0 + sum_sold(auction, entries@, entries@.len() as int);
            let bought = resume_totals(auction).1 + sum_bought(
                auction,
                entries@,
                entries@.len() as int,
            );
            &&& out.is_closed ==> {
                &&& out.auction.status == ActiveAuctionStatus::AuctionClosed
                // everything left unsold or received is either sent or kept
                &&& out.auction.leftovers[0] + sold == auction.available_amount
                &&& out.auction.leftovers[1] + bought == auction.resolved_amount
            }
            &&& !out.is_closed ==> (out.auction.status matches ActiveAuctionStatus::CloseAuction(
                _,
                s,
                b,
            ) && s == sold && b == bought)
        },
{
    let (start_from, init_sold, init_bought) = match finish_start(&auction, height) {
        Ok(x) => x,
        Err(e) => {
            return Err(e);
        },
    };
    let (payouts, total_sold, total_bought) = match distribute(
        &auction,
        entries,
        sold_denom,
        bought_denom,
        init_sold,
        init_bought,
    ) {
        Ok(x) => x,
        Err(e) => {
            return Err(e);
        },
    };
    let last_resolved = if entries.len() > 0 {
        Some(entries[entries.len() - 1].0.clone())
    } else {
        start_from
    };
    let paid = entries.len() as u64;
    let is_closed = paid < limit;
    match close_round(auction, paid, limit, last_resolved, total_sold, total_bought, now) {
        Ok((a, price)) => Ok(FinishOutcome { auction: a, payouts, price, is_closed }),
        Err(e) => Err(e),
    }
}

/// The multiplier for a price that is `days` old: the first entry whose age
/// threshold `days` exceeds, or 1.
pub open spec fn freshness_multiplier(multipliers: Seq<(Decimal, Decimal)>, days: int) -> int
    decreases multipliers.len(),
{
    if multipliers.len() == 0 {
        unit()
    } else if days > multipliers[0].0.atomics {
        multipliers[0].1.atomics as int
    } else {
        freshness_multiplier(multipliers.drop_first(), days)
    }
}

/// The oracle price's age in days, in atomics.
pub open spec fn age_in_days(price_time: Timestamp, now: Timestamp) -> int {
    ((now.spec_seconds() - price_time.spec_seconds()) * unit() * unit()) / (86400 * unit())
}

/// A percentage in basis points scaled by the freshness multiplier, capped at 75%.
pub open spec fn scaled_perc(bps: int, mult: int) -> int {
    let x = mul_atomics(bps * 100_000_000_000_000, mult);
    if x <= 7500 * 100_000_000_000_000 {
        x
    } else {
        7500int * 100_000_000_000_000int
    }
}

/// The multiplier for a price's age is that of the first entry whose age
/// threshold the age exceeds; where the age exceeds none, it is 1.
pub proof fn lemma_multiplier_is_first_exceeded(multipliers: Seq<(Decimal, Decimal)>, days: int)
    ensures
        (forall|i: int| 0 <= i < multipliers.len() ==> days <= (#[trigger] multipliers[i]).0.atomics)
            ==> freshness_multiplier(multipliers, days) == unit(),
        forall|i: int|
            0 <= i < multipliers.len() && days > (#[trigger] multipliers[i]).0.atomics && (forall|j: int|
                0 <= j < i ==> days <= (#[trigger] multipliers[j]).0.atomics) ==> freshness_multiplier(
                multipliers,
                days,
            ) == multipliers[i].1.atomics,
    decreases multipliers.len(),
{
    if multipliers.len() > 0 {
        let rest = multipliers.drop_first();
        lemma_multiplier_is_first_exceeded(rest, days);
        if days <= multipliers[0].0.atomics {
            assert forall|i: int|
                0 <= i < multipliers.len() && days > (#[trigger] multipliers[i]).0.atomics && (forall|j: int|
                    0 <= j < i ==> days <= (#[trigger] multipliers[j]).0.atomics) implies freshness_multiplier(
                multipliers,
                days,
            ) == multipliers[i].1.atomics by {
                assert(i > 0);
                assert(rest[i - 1] == multipliers[i]);
                assert forall|j: int| 0 <= j < i - 1 implies days <= (#[trigger] rest[j]).0.atomics by {
                    assert(rest[j] == multipliers[j + 1]);
                }
            }
            if forall|i: int| 0 <= i < multipliers.len() ==> days <= (#[trigger] multipliers[i]).0.atomics {
                assert forall|i: int| 0 <= i < rest.len() implies days <= (#[trigger] rest[i]).0.atomics by {
                    assert(rest[i] == multipliers[i + 1]);
                }
            }
        } else {
            assert forall|i: int|
                0 <= i < multipliers.len() && days > (#[trigger] multipliers[i]).0.atomics && (forall|j: int|
                    0 <= j < i ==> days <= (#[trigger] multipliers[j]).0.atomics) implies freshness_multiplier(
                multipliers,
                days,
            ) == multipliers[i].1.atomics by {
                if i > 0 {
                    assert(days <= multipliers[0].0.atomics);
                }
            }
        }
    }
}

/// A price's age counts whole days of 86400 seconds: a price `k` days and `s`
/// seconds old (`s` under a day) is at least `k` and under `k + 1` days old.
pub proof fn lemma_age_counts_days(price_time: Timestamp, now: Timestamp, k: int, s: int)
    requires
        0 <= k,
        0 <= s < 86400,
        now.spec_seconds() - price_time.spec_seconds() == k * 86400 + s,
    ensures
        k * unit() <= age_in_days(price_time, now) < (k + 1) * unit(),
{
    let secs = k * 86400 + s;
    assert((secs * unit() * unit()) / (86400 * unit()) == (secs * unit()) / 86400) by (nonlinear_arith)
        requires
            secs >= 0,
    ;
    assert(k * unit() <= (secs * unit()) / 86400 < (k + 1) * unit()) by (nonlinear_arith)
        requires
            secs == k * 86400 + s,
            0 <= s < 86400,
            k >= 0,
    ;
}

/// A price younger than every age threshold is not scaled: the auction starts
/// the strategy's start percentage above it and ends its end percentage below
/// it (each percentage capped at 75%).
pub proof fn lemma_fresh_price_unscaled(
    price_time: Timestamp,
    now: Timestamp,
    strategy: AuctionStrategy,
    freshness: PriceFreshnessStrategy,
)
    requires
        forall|i: int|
            0 <= i < freshness.multipliers@.len() ==> age_in_days(price_time, now)
                <= (#[trigger] freshness.multipliers@[i]).0.atomics,
    ensures
        ({
            let mult = freshness_multiplier(freshness.multipliers@, age_in_days(price_time, now));
            let sb = strategy.start_price_perc as int;
            let eb = strategy.end_price_perc as int;
            &&& mult == unit()
            &&& scaled_perc(sb, mult) == (if sb <= 7500 { sb } else { 7500 }) * 100_000_000_000_000
            &&& scaled_perc(eb, mult) == (if eb <= 7500 { eb } else { 7500 }) * 100_000_000_000_000
        }),
{
    lemma_multiplier_is_first_exceeded(freshness.multipliers@, age_in_days(price_time, now));
    let sb = strategy.start_price_perc as int;
    let eb = strategy.end_price_perc as int;
    let x = sb * 100_000_000_000_000;
    let y = eb * 100_000_000_000_000;
    assert((x * unit()) / unit() == x) by (nonlinear_arith);
    assert((y * unit()) / unit() == y) by (nonlinear_arith);
    assert(x <= 7500 * 100_000_000_000_000 <==> sb <= 7500);
    assert(y <= 7500 * 100_000_000_000_000 <==> eb <= 7500);
}

/// `get_strategy_prices` stays in range.
pub open spec fn strategy_prices_defined(
    price: Decimal,
    price_time: Timestamp,
    now: Timestamp,
    strategy: AuctionStrategy,
    freshness: PriceFreshnessStrategy,
) -> bool {
    let mult = freshness_multiplier(freshness.multipliers@, age_in_days(price_time, now));
    &&& price_time.spec_seconds() <= now.spec_seconds()
    &&& age_in_days(price_time, now) <= freshness.limit.atomics ==> {
        &&& mul_atomics(strategy.start_price_perc * 100_000_000_000_000, mult) <= u128::MAX
        &&& mul_atomics(strategy.end_price_perc * 100_000_000_000_000, mult) <= u128::MAX
        &&& price.atomics + mul_atomics(
            price.atomics as int,
            scaled_perc(strategy.start_price_perc as int, mult),
        ) <= u128::MAX
    }
}

/// The start and end prices of an auction: the oracle price raised and lowered
/// by the strategy's percentages, scaled by how old the price is (at most 75%).
/// A price older than the freshness limit is refused.
pub fn get_strategy_prices(
    price: Decimal,
    price_time: Timestamp,
    now: Timestamp,
    strategy: &AuctionStrategy,
    freshness: &PriceFreshnessStrategy,
) -> (r: Result<(Decimal, Decimal), ContractError>)
    requires
        strategy_prices_defined(price, price_time, now, *strategy, *freshness),
    ensures
        age_in_days(price_time, now) > freshness.limit.atomics ==> r == Err::<
            (Decimal, Decimal),
            ContractError,
        >(ContractError::PriceTooOld),
        age_in_days(price_time, now) <= freshness.limit.atomics ==> (r matches Ok((start, end)) && {
            let mult = freshness_multiplier(freshness.multipliers@, age_in_days(price_time, now));
            let sp = scaled_perc(strategy.start_price_perc as int, mult);
            let ep = scaled_perc(strategy.end_price_perc as int, mult);
            &&& start.atomics == price.atomics + mul_atomics(price.atomics as int, sp)
            &&& end.atomics == price.atomics - mul_atomics(price.atomics as int, ep)
            &&& end.atomics <= price.atomics <= start.atomics
        }),
{
    let secs = now.seconds() - price_time.seconds();
    proof {
        lemma_u64_whole_fits(secs);
        lemma_u64_whole_fits(86400);
        lemma_unit_cancels(secs as int * unit(), 86400);
        assert(secs as int * unit() >= 0) by (nonlinear_arith)
            requires
                secs >= 0,
        ;
        assert((secs as int * unit()) / 86400 <= secs as int * unit()) by {
            vstd::arithmetic::div_mod::lemma_div_is_ordered_by_denominator(
                secs as int * unit(),
                1,
                86400,
            );
        }
    }
    let elapsed = match Decimal::from_uint(secs as u128) {
        Ok(d) => d,
        Err(_) => vstd::pervasive::unreached(),
    };
    let day = match Decimal::from_uint(86400) {
        Ok(d) => d,
        Err(_) => vstd::pervasive::unreached(),
    };
    let days = elapsed.div(day);
    if days.atomics > freshness.limit.atomics {
        return Err(ContractError::PriceTooOld);
    }
    let mut multiplier = Decimal::one();
    let mut i: usize = 0;
    let mut found = false;
    proof {
        assert(freshness.multipliers@.skip(0) =~= freshness.multipliers@);
    }
    while i < freshness.multipliers.len()
        invariant
            0 <= i <= freshness.multipliers.len(),
            !found ==> freshness_multiplier(freshness.multipliers@, days.atomics as int)
                == freshness_multiplier(freshness.multipliers@.skip(i as int), days.atomics as int),
            found ==> multiplier.atomics == freshness_multiplier(
                freshness.multipliers@,
                days.atomics as int,
            ),
            !found ==> multiplier.atomics == unit(),
        decreases freshness.multipliers.len() - i,
    {
        if !found {
            proof {
                assert(freshness.multipliers@.skip(i as int).drop_first() =~= freshness.multipliers@.skip(
                    i + 1,
                ));
            }
            let (d, m) = freshness.multipliers[i];
            if days.atomics > d.atomics {
                multiplier = m;
                found = true;
            }
        }
        i = i + 1;
    }
    proof {
        if !found {
            assert(freshness.multipliers@.skip(freshness.multipliers.len() as int).len() == 0);
        }
    }
    let start_perc = Decimal::bps(strategy.start_price_perc).mul(multiplier).min(Decimal::bps(7500));
    let end_perc = Decimal::bps(strategy.end_price_perc).mul(multiplier).min(Decimal::bps(7500));
    proof {
        assert(price.atomics * end_perc.atomics <= price.atomics * unit()) by (nonlinear_arith)
            requires
                end_perc.atomics <= 7500 * 100_000_000_000_000,
                price.atomics >= 0,
        ;
        assert(price.atomics * end_perc.atomics >= 0) by (nonlinear_arith)
            requires
                end_perc.atomics >= 0,
                price.atomics >= 0,
        ;
        vstd::arithmetic::div_mod::lemma_div_is_ordered(
            price.atomics * end_perc.atomics,
            price.atomics * unit(),
            unit(),
        );
        vstd::arithmetic::div_mod::lemma_div_by_multiple(price.atomics as int, unit());
        vstd::arithmetic::div_mod::lemma_div_pos_is_pos(
            price.atomics * start_perc.atomics,
            unit(),
        );
        assert(price.atomics * start_perc.atomics >= 0) by (nonlinear_arith)
            requires
                start_perc.atomics >= 0,
                price.atomics >= 0,
        ;
        vstd::arithmetic::div_mod::lemma_div_pos_is_pos(
            price.atomics * start_perc.atomics,
            unit(),
        );
    }
    let start_price = price.add(price.mul(start_perc));
    let end_price = price.sub(price.mul(end_perc));
    Ok((start_price, end_price))
}


/// What opening the next auction does.
#[derive(Clone, Copy, Debug, PartialEq, Eq, Structural)]
pub enum OpenPlan {
    /// The deposits fall short of the minimum to start: refund them all.
    Refund { ids: AuctionIds, start_block: u64, end_block: u64 },
    /// Start the auction between these blocks.
    Start { ids: AuctionIds, start_block: u64, end_block: u64 },
}

/// Decides how to open the next auction. `total_funds` is the sum deposited
/// for the next auction, where one was recorded; `min_start` the minimum the
/// auctions manager requires to start an auction of this token.
pub fn plan_open_auction(
    params: NewAuctionParams,
    height: u64,
    is_paused: bool,
    active: &ActiveAuction,
    ids: AuctionIds,
    total_funds: Option<u128>,
    min_start: u128,
) -> (r: Result<OpenPlan, ContractError>)
    ensures
        ({
            let start = match params.start_block {
                Some(b) => b,
                None => height,
            };
            &&& params.end_block <= start ==> r == Err::<OpenPlan, ContractError>(
                ContractError::InvalidAuctionEndBlock,
            )
            &&& params.end_block > start && is_paused ==> r == Err::<OpenPlan, ContractError>(
                ContractError::AuctionIsPaused,
            )
            &&& params.end_block > start && !is_paused && !(active.status is AuctionClosed) ==> r
                == Err::<OpenPlan, ContractError>(ContractError::AuctionNotClosed)
            &&& params.end_block > start && !is_paused && active.status is AuctionClosed && (
            total_funds is None || total_funds == Some(0u128)) ==> r == Err::<
                OpenPlan,
                ContractError,
            >(ContractError::NoFundsForAuction)
            &&& params.end_block > start && !is_paused && active.status is AuctionClosed
                && total_funds is Some && total_funds.unwrap() != 0 && ids.next == u64::MAX ==> r == Err::<
                OpenPlan,
                ContractError,
            >(ContractError::OverflowError)
            &&& params.end_block > start && !is_paused && active.status is AuctionClosed
                && total_funds is Some && total_funds.unwrap() != 0 && ids.next < u64::MAX ==> {
                let t = total_funds.unwrap();
                let new_ids = AuctionIds { curr: ids.next, next: (ids.next + 1) as u64 };
                &&& t < min_start ==> r == Ok::<OpenPlan, ContractError>(
                    OpenPlan::Refund { ids: new_ids, start_block: start, end_block: params.end_block },
                )
                &&& t >= min_start ==> r == Ok::<OpenPlan, ContractError>(
                    OpenPlan::Start { ids: new_ids, start_block: start, end_block: params.end_block },
                )
            }
        }),
{
    let start_block = match params.start_block {
        Some(b) => b,
        None => height,
    };
    let end_block = params.end_block;
    if end_block <= start_block {
        return Err(ContractError::InvalidAuctionEndBlock);
    }
    if is_paused {
        return Err(ContractError::AuctionIsPaused);
    }
    match active.status {
        ActiveAuctionStatus::AuctionClosed => {},
        _ => {
            return Err(ContractError::AuctionNotClosed);
        },
    }
    let total = match total_funds {
        Some(t) => t,
        None => {
            return Err(ContractError::NoFundsForAuction);
        },
    };
    if total == 0 {
        return Err(ContractError::NoFundsForAuction);
    }
    if ids.next == u64::MAX {
        return Err(ContractError::OverflowError);
    }
    let new_ids = AuctionIds { curr: ids.next, next: ids.next + 1 };
    if total < min_start {
        Ok(OpenPlan::Refund { ids: new_ids, start_block, end_block })
    } else {
        Ok(OpenPlan::Start { ids: new_ids, start_block, end_block })
    }
}

/// The auction that starts: the deposits plus the unsold leftover of the
/// previous auction are for sale, and the previous `pair.1` leftover counts as
/// already received.
pub fn new_active_auction(
    start_block: u64,
    end_block: u64,
    start_price: Decimal,
    end_price: Decimal,
    total_funds: u128,
    previous: &ActiveAuction,
    block: BlockInfo,
) -> (r: ActiveAuction)
    requires
        total_funds + previous.leftovers[0] <= u128::MAX,
    ensures
        r.status == ActiveAuctionStatus::Started,
        r.start_block == start_block,
        r.end_block == end_block,
        r.start_price == start_price,
        r.end_price == end_price,
        r.available_amount == total_funds + previous.leftovers[0],
        r.total_amount == total_funds + previous.leftovers[0],
        r.resolved_amount == previous.leftovers[1],
        r.leftovers == [0u128, 0u128],
        r.last_checked_block == block,
{
    let total = total_funds + previous.leftovers[0];
    ActiveAuction {
        status: ActiveAuctionStatus::Started,
        start_block,
        end_block,
        start_price,
        end_price,
        available_amount: total,
        resolved_amount: previous.leftovers[1],
        total_amount: total,
        leftovers: [0, 0],
        last_checked_block: block,
    }
}

/// An optional amount, absent counting as zero.
pub open spec fn amount_or_zero(x: Option<u128>) -> int {
    match x {
        Some(v) => v as int,
        None => 0,
    }
}

/// The outcome of a deposit of `funds`: the sender's new deposit and the new
/// sum of deposits, or why it is refused.
pub open spec fn deposit_result(
    is_paused: bool,
    funds: u128,
    min_amount: Option<MinAmount>,
    sender_deposit: Option<u128>,
    deposits_sum: Option<u128>,
) -> Result<(u128, u128), ContractError> {
    let d = amount_or_zero(sender_deposit);
    let s = amount_or_zero(deposits_sum);
    if is_paused {
        Err(ContractError::AuctionIsPaused)
    } else if min_amount is None {
        Err(ContractError::NoTokenMinAmount)
    } else if funds < min_amount.unwrap().send {
        Err(ContractError::AuctionAmountTooLow(min_amount.unwrap().send))
    } else if d + funds > u128::MAX || s + funds > u128::MAX {
        Err(ContractError::OverflowError)
    } else {
        Ok(((d + funds) as u128, (s + funds) as u128))
    }
}

/// A deposit of `funds` for the next auction: checks the auction is not paused
/// and the deposit meets the per-deposit minimum (`None` where the auctions
/// manager has none for this token). Returns the sender's new deposit and the
/// new sum of deposits.
pub fn deposit_funds(
    is_paused: bool,
    funds: u128,
    min_amount: Option<MinAmount>,
    sender_deposit: Option<u128>,
    deposits_sum: Option<u128>,
) -> (r: Result<(u128, u128), ContractError>)
    ensures
        r == deposit_result(is_paused, funds, min_amount, sender_deposit, deposits_sum),
{
    if is_paused {
        return Err(ContractError::AuctionIsPaused);
    }
    let min = match min_amount {
        Some(m) => m.send,
        None => {
            return Err(ContractError::NoTokenMinAmount);
        },
    };
    if funds < min {
        return Err(ContractError::AuctionAmountTooLow(min));
    }
    let new_deposit = match sender_deposit {
        Some(x) => match x.checked_add(funds) {
            Some(v) => v,
            None => {
                return Err(ContractError::OverflowError);
            },
        },
        None => funds,
    };
    let new_sum = match deposits_sum {
        Some(x) => match x.checked_add(funds) {
            Some(v) => v,
            None => {
                return Err(ContractError::OverflowError);
            },
        },
        None => funds,
    };
    Ok((new_deposit, new_sum))
}

/// The outcome of withdrawing a deposit: the amount to send back and the new
/// sum of deposits, or why it is refused.
pub open spec fn withdraw_result(sender_deposit: Option<u128>, deposits_sum: Option<u128>) -> Result<
    (u128, Option<u128>),
    ContractError,
> {
    let d = amount_or_zero(sender_deposit);
    let s = amount_or_zero(deposits_sum);
    if d == 0 {
        Err(ContractError::NoFundsToWithdraw)
    } else if s < d {
        Err(ContractError::OverflowError)
    } else {
        Ok((d as u128, Some((s - d) as u128)))
    }
}

/// Withdrawing a deposit from the next auction: returns the amount to send
/// back and the new sum of deposits.
pub fn withdraw_deposit(sender_deposit: Option<u128>, deposits_sum: Option<u128>) -> (r: Result<
    (u128, Option<u128>),
    ContractError,
>)
    ensures
        r == withdraw_result(sender_deposit, deposits_sum),
{
    let amount = match sender_deposit {
        Some(x) => x,
        None => 0,
    };
    if amount == 0 {
        return Err(ContractError::NoFundsToWithdraw);
    }
    let sum = match deposits_sum {
        Some(x) => x,
        None => 0,
    };
    if sum < amount {
        return Err(ContractError::OverflowError);
    }
    Ok((amount, Some(sum - amount)))
}

/// The auction's queries.
#[derive(Clone, Copy, Debug, PartialEq, Eq, Structural)]
pub enum QueryMsg {
    GetConfig,
    /// The deposits of an address on the current and the next auction.
    GetFundsAmount,
    GetAuction,
    GetPrice,
    GetStrategy,
}


/// At its start block an auction asks its start price.
pub proof fn lemma_price_starts_at_start_price(t: ActiveAuction)
    ensures
        price_at(t, t.start_block as int) == t.start_price.atomics,
{
}

/// An auction's price never rises as blocks pass.
pub proof fn lemma_price_never_rises(t: ActiveAuction, h1: int, h2: int)
    requires
        t.start_block < t.end_block,
        t.end_price.atomics <= t.start_price.atomics,
        t.start_block <= h1 <= h2,
    ensures
        price_at(t, h2) <= price_at(t, h1),
{
    let d = price_drop_per_block(t);
    assert(d >= 0) by {
        vstd::arithmetic::div_mod::lemma_div_pos_is_pos(
            t.start_price.atomics - t.end_price.atomics,
            t.end_block - t.start_block,
        );
    }
    assert(d * (h1 - t.start_block) <= d * (h2 - t.start_block)) by (nonlinear_arith)
        requires
            d >= 0,
            t.start_block <= h1 <= h2,
    ;
}

/// Up to its end block an auction's price stays at or above its end price
/// (the per-block drop is rounded down).
pub proof fn lemma_price_not_below_end_price(t: ActiveAuction, h: int)
    requires
        t.start_block < t.end_block,
        t.end_price.atomics <= t.start_price.atomics,
        t.start_block <= h <= t.end_block,
    ensures
        t.end_price.atomics <= price_at(t, h) <= t.start_price.atomics,
{
    let diff = t.start_price.atomics - t.end_price.atomics;
    let blocks = t.end_block - t.start_block;
    let d = price_drop_per_block(t);
    lemma_floor_le(diff, blocks);
    assert(d * blocks == (diff / blocks) * blocks);
    assert(d * (h - t.start_block) <= d * blocks) by (nonlinear_arith)
        requires
            d >= 0,
            0 <= h - t.start_block <= blocks,
    ;
    assert(d * (h - t.start_block) >= 0) by (nonlinear_arith)
        requires
            d >= 0,
            h - t.start_block >= 0,
    ;
}

/// The deposits of an auction may be cleared once it is closed.
pub fn check_clean(auction: &ActiveAuction) -> (r: Result<(), ContractError>)
    ensures
        auction.status is AuctionClosed ==> r is Ok,
        !(auction.status is AuctionClosed) ==> r == Err::<(), ContractError>(ContractError::AuctionNotClosed),
{
    match auction.status {
        ActiveAuctionStatus::AuctionClosed => Ok(()),
        _ => Err(ContractError::AuctionNotClosed),
    }
}


/// A provider who deposits and then withdraws gets back everything they
/// deposited, and the sum of deposits returns to what the others deposited
/// (the sum always covers each deposit).
pub proof fn lemma_withdraw_returns_deposits(
    funds: u128,
    min_amount: Option<MinAmount>,
    sender_deposit: Option<u128>,
    deposits_sum: Option<u128>,
)
    requires
        amount_or_zero(sender_deposit) <= amount_or_zero(deposits_sum),
        deposit_result(false, funds, min_amount, sender_deposit, deposits_sum) is Ok,
    ensures
        ({
            let (d, s) = deposit_result(false, funds, min_amount, sender_deposit, deposits_sum)->Ok_0;
            &&& d == amount_or_zero(sender_deposit) + funds
            &&& d > 0 ==> withdraw_result(Some(d), Some(s)) == Ok::<(u128, Option<u128>), ContractError>(
                (d, Some((amount_or_zero(deposits_sum) - amount_or_zero(sender_deposit)) as u128)),
            )
        }),
{
}

} // verus!
