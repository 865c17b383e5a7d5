//! Matching what the controller wants sold with what it wants bought: each
//! trade sends an amount of a sold token to the auction of the pair (sold,
//! bought), within the account's per-cycle selling limit, the auctions'
//! minimum amounts and the minimum balance of the sold token.
use vstd::prelude::*;
use crate::chain::Pair;
use crate::decimal::{Decimal, unit, mul_atomics, div_atomics, div_fits};
use crate::rebalance::{TargetHelper, copy_helper};

verus! {

/// Funds of `denom` sent to the auction at `auction`.
#[derive(Clone, Debug, PartialEq, Eq)]
pub struct AuctionFundsMsg {
    pub auction: String,
    pub denom: String,
    pub amount: u128,
}

/// A trade: `amount` of `pair.0` sold for `pair.1`.
#[derive(Clone, Debug, PartialEq, Eq)]
pub struct RebalanceTrade {
    pub pair: Pair,
    pub amount: u128,
}

/// A value rounded up to whole units.
pub open spec fn ceil_units(a: int) -> int {
    if a == 0 {
        0
    } else {
        1 + (a - 1) / unit()
    }
}

/// The auction of the pair (sold, bought) among the known pairs, from index `k` on.
pub open spec fn pair_addr(pairs: Seq<(Pair, String)>, sold: Seq<char>, bought: Seq<char>, k: int) -> Option<String>
    decreases pairs.len() - k,
{
    if k < 0 || k >= pairs.len() {
        None
    } else if pairs[k].0.0@ == sold && pairs[k].0.1@ == bought {
        Some(pairs[k].1)
    } else {
        pair_addr(pairs, sold, bought, k + 1)
    }
}

/// The message and trade of selling `amount` of `sold` for `bought`, if the
/// pair has an auction.
pub open spec fn trade_out(pairs: Seq<(Pair, String)>, sold: String, bought: String, amount: int) -> Option<(AuctionFundsMsg, RebalanceTrade)> {
    match pair_addr(pairs, sold@, bought@, 0) {
        None => None,
        Some(a) => Some(
            (
                AuctionFundsMsg { auction: a, denom: sold, amount: amount as u128 },
                RebalanceTrade { pair: Pair(sold, bought), amount: amount as u128 },
            ),
        ),
    }
}

fn find_pair_addr(pairs: &Vec<(Pair, String)>, sold: &String, bought: &String) -> (r: Option<String>)
    ensures
        r == pair_addr(pairs@, sold@, bought@, 0),
{
    let mut k: usize = 0;
    while k < pairs.len()
        invariant
            0 <= k <= pairs.len(),
            pair_addr(pairs@, sold@, bought@, 0) == pair_addr(pairs@, sold@, bought@, k as int),
        decreases pairs.len() - k,
    {
        if pairs[k].0.0 == *sold && pairs[k].0.1 == *bought {
            return Some(pairs[k].1.clone());
        }
        k = k + 1;
    }
    None
}

/// Builds the message sending a trade's funds to its pair's auction; `None`
/// where the pair has no auction.
pub fn construct_msg(pairs: &Vec<(Pair, String)>, sold: &String, bought: &String, amount: u128) -> (r: Option<(AuctionFundsMsg, RebalanceTrade)>)
    ensures
        r == trade_out(pairs@, *sold, *bought, amount as int),
{
    match find_pair_addr(pairs, sold, bought) {
        None => None,
        Some(a) => Some(
            (
                AuctionFundsMsg { auction: a, denom: sold.clone(), amount },
                RebalanceTrade { pair: Pair(sold.clone(), bought.clone()), amount },
            ),
        ),
    }
}

/// `h` with `v` as its value to trade.
pub open spec fn with_vtt(h: TargetHelper, v: int) -> TargetHelper {
    TargetHelper { value_to_trade: Decimal { atomics: v as u128 }, ..h }
}

/// `h` after `amount` of it was sold: the balance of a token with a minimum
/// balance is tracked, so that later sales of it respect the minimum too.
pub open spec fn after_sale(h: TargetHelper, amount: int) -> TargetHelper {
    if h.target.min_balance is Some {
        TargetHelper { balance_amount: (h.balance_amount - amount) as u128, ..h }
    } else {
        h
    }
}

/// The value to sell after the minimum balance rule: `None` where the token
/// cannot be sold now (it would sell more than held, or the minimum balance
/// leaves nothing); where the sale would cross the minimum balance, the value
/// becomes that of the balance above the minimum (the amount over the price).
pub open spec fn after_min_balance(s: TargetHelper) -> Option<int> {
    let sv = s.value_to_trade.atomics as int;
    let sell_amount = ceil_units(mul_atomics(sv, s.price.atomics as int));
    match s.target.min_balance {
        None => Some(sv),
        Some(mb) => if s.balance_amount < sell_amount {
            None
        } else if s.balance_amount - sell_amount < mb {
            let diff = s.balance_amount - mb;
            if diff == 0 {
                None
            } else {
                Some(div_atomics(diff * unit(), s.price.atomics as int))
            }
        } else {
            Some(sv)
        },
    }
}

/// One sold token against one bought token, with `max_sell` the value still
/// allowed to be sold this cycle: nothing happens when either token is done or
/// the limit is used up; below an auction's minimum nothing is sold; otherwise
/// the smaller of the two values (the sold one capped by the limit) is traded.
/// Returns the two tokens, the limit left and, where the pair has an auction,
/// the message and trade with the value sold and the sold token's price.
pub open spec fn trade_step(s: TargetHelper, b: TargetHelper, max_sell: int, pairs: Seq<(Pair, String)>) -> (
    TargetHelper,
    TargetHelper,
    int,
    Option<(AuctionFundsMsg, RebalanceTrade, int, int)>,
) {
    let sv = s.value_to_trade.atomics as int;
    let bv = b.value_to_trade.atomics as int;
    let ms = s.auction_min_send_value.atomics as int;
    let p = s.price.atomics as int;
    if bv == 0 || sv == 0 || max_sell == 0 {
        (s, b, max_sell, None)
    } else {
        match after_min_balance(s) {
            None => (s, b, max_sell, None),
            Some(sv1) => if sv1 < ms {
                (with_vtt(s, 0), b, max_sell, None)
            } else if bv < ms {
                (with_vtt(s, sv1), b, max_sell, None)
            } else {
                let sv2 = if sv1 > max_sell { max_sell } else { sv1 };
                let v = if sv2 >= bv { bv } else { sv2 };
                let s1 = if sv2 >= bv { with_vtt(s, sv2 - bv) } else { with_vtt(s, 0) };
                let b1 = if sv2 >= bv { with_vtt(b, 0) } else { with_vtt(b, bv - sv2) };
                let amount = ceil_units(mul_atomics(v, p));
                match trade_out(pairs, s.target.denom, b.target.denom, amount) {
                    None => (s1, b1, max_sell, None),
                    Some((m, t)) => (after_sale(s1, amount), b1, max_sell - v, Some((m, t, v, p))),
                }
            },
        }
    }
}

/// The step's arithmetic stays in range (else the operations would panic).
pub open spec fn step_safe(s: TargetHelper, b: TargetHelper, max_sell: int) -> bool {
    let sv = s.value_to_trade.atomics as int;
    let bv = b.value_to_trade.atomics as int;
    let ms = s.auction_min_send_value.atomics as int;
    let p = s.price.atomics as int;
    (bv == 0 || sv == 0 || max_sell == 0) || {
        &&& mul_atomics(sv, p) <= u128::MAX
        &&& s.target.min_balance matches Some(mb) ==> (s.balance_amount >= ceil_units(mul_atomics(sv, p))
            && s.balance_amount - ceil_units(mul_atomics(sv, p)) < mb) ==> (s.balance_amount >= mb && (
        s.balance_amount - mb != 0 ==> ((s.balance_amount - mb) * unit() <= u128::MAX && div_fits(
            (s.balance_amount - mb) * unit(),
            p,
        ))))
        &&& after_min_balance(s) matches Some(sv1) ==> (sv1 >= ms && bv >= ms) ==> (mul_atomics(bv, p) <= u128::MAX
            && mul_atomics(if sv1 > max_sell { max_sell } else { sv1 }, p) <= u128::MAX)
    }
}

/// One sold token against the first `n` bought tokens: the sold token, the
/// bought tokens, the limit left and the outcomes.
pub open spec fn inner_scan(s: TargetHelper, bs: Seq<TargetHelper>, max_sell: int, pairs: Seq<(Pair, String)>, n: int) -> (
    TargetHelper,
    Seq<TargetHelper>,
    int,
    Seq<(AuctionFundsMsg, RebalanceTrade, int, int)>,
)
    decreases n,
{
    if n <= 0 {
        (s, bs, max_sell, Seq::empty())
    } else {
        let (s1, bs1, m1, out1) = inner_scan(s, bs, max_sell, pairs, n - 1);
        let (s2, b2, m2, o) = trade_step(s1, bs1[n - 1], m1, pairs);
        (
            s2,
            bs1.update(n - 1, b2),
            m2,
            match o {
                Some(x) => out1.push(x),
                None => out1,
            },
        )
    }
}

/// Every step of `inner_scan` stays in range.
pub open spec fn inner_safe(s: TargetHelper, bs: Seq<TargetHelper>, max_sell: int, pairs: Seq<(Pair, String)>, n: int) -> bool
    decreases n,
{
    if n <= 0 {
        true
    } else {
        let (s1, bs1, m1, _) = inner_scan(s, bs, max_sell, pairs, n - 1);
        inner_safe(s, bs, max_sell, pairs, n - 1) && step_safe(s1, bs1[n - 1], m1)
    }
}

/// The first `n` sold tokens, each against all bought tokens in order: the
/// bought tokens, the limit left and the outcomes.
pub open spec fn outer_scan(sells: Seq<TargetHelper>, bs: Seq<TargetHelper>, max_sell: int, pairs: Seq<(Pair, String)>, n: int) -> (
    Seq<TargetHelper>,
    int,
    Seq<(AuctionFundsMsg, RebalanceTrade, int, int)>,
)
    decreases n,
{
    if n <= 0 {
        (bs, max_sell, Seq::empty())
    } else {
        let (bs1, m1, out1) = outer_scan(sells, bs, max_sell, pairs, n - 1);
        let (_, bs2, m2, out2) = inner_scan(sells[n - 1], bs1, m1, pairs, bs1.len() as int);
        (bs2, m2, out1 + out2)
    }
}

/// Every step of `outer_scan` stays in range.
pub open spec fn outer_safe(sells: Seq<TargetHelper>, bs: Seq<TargetHelper>, max_sell: int, pairs: Seq<(Pair, String)>, n: int) -> bool
    decreases n,
{
    if n <= 0 {
        true
    } else {
        let (bs1, m1, _) = outer_scan(sells, bs, max_sell, pairs, n - 1);
        outer_safe(sells, bs, max_sell, pairs, n - 1) && inner_safe(sells[n - 1], bs1, m1, pairs, bs1.len() as int)
    }
}

proof fn lemma_inner_len(s: TargetHelper, bs: Seq<TargetHelper>, max_sell: int, pairs: Seq<(Pair, String)>, n: int)
    requires
        0 <= n <= bs.len(),
    ensures
        inner_scan(s, bs, max_sell, pairs, n).1.len() == bs.len(),
        forall|j: int| n <= j < bs.len() ==> (#[trigger] inner_scan(s, bs, max_sell, pairs, n).1[j]) == bs[j],
    decreases n,
{
    if n > 0 {
        lemma_inner_len(s, bs, max_sell, pairs, n - 1);
    }
}

proof fn lemma_outer_len(sells: Seq<TargetHelper>, bs: Seq<TargetHelper>, max_sell: int, pairs: Seq<(Pair, String)>, n: int)
    requires
        n >= 0,
    ensures
        outer_scan(sells, bs, max_sell, pairs, n).0.len() == bs.len(),
    decreases n,
{
    if n > 0 {
        lemma_outer_len(sells, bs, max_sell, pairs, n - 1);
        let (bs1, m1, _) = outer_scan(sells, bs, max_sell, pairs, n - 1);
        lemma_inner_len(sells[n - 1], bs1, m1, pairs, bs1.len() as int);
    }
}

/// Rounding up to whole units keeps the order.
proof fn lemma_ceil_mono(a: int, b: int)
    requires
        0 <= a <= b,
    ensures
        ceil_units(a) <= ceil_units(b),
{
    if a > 0 {
        assert((a - 1) / unit() <= (b - 1) / unit()) by (nonlinear_arith)
            requires
                0 <= a - 1 <= b - 1,
        ;
    }
}

/// A value within `d` whole units rounds up to at most `d` units.
proof fn lemma_ceil_within(x: int, d: int)
    requires
        0 <= x <= d * unit(),
    ensures
        ceil_units(x) <= d,
{
    if x > 0 {
        assert((x - 1) / unit() <= d - 1) by (nonlinear_arith)
            requires
                0 <= x - 1 < d * unit(),
        ;
    }
}

/// A value rounded up to whole units is no more than its atomics.
proof fn lemma_ceil_le(x: int)
    requires
        0 <= x,
    ensures
        0 <= ceil_units(x) <= x,
{
    if x > 0 {
        assert(0 <= (x - 1) / unit() <= x - 1) by (nonlinear_arith)
            requires
                0 <= x - 1,
        ;
    }
}

/// A product is monotone in its first factor.
proof fn lemma_mul_mono(v: int, w: int, p: int)
    requires
        0 <= v <= w,
        0 <= p,
    ensures
        0 <= mul_atomics(v, p) <= mul_atomics(w, p),
{
    assert(0 <= v * p <= w * p) by (nonlinear_arith)
        requires
            0 <= v <= w,
            0 <= p,
    ;
    assert(0 <= (v * p) / unit() <= (w * p) / unit()) by (nonlinear_arith)
        requires
            0 <= v * p <= w * p,
    ;
}

/// The value of `a` units at price `p`, priced again, is at most `a` units.
proof fn lemma_value_back(a: int, p: int)
    requires
        0 <= a,
        0 < p,
    ensures
        0 <= div_atomics(a, p),
        mul_atomics(div_atomics(a, p), p) <= a,
{
    let q = (a * unit()) / p;
    assert(0 <= q && q * p <= a * unit()) by (nonlinear_arith)
        requires
            q == (a * unit()) / p,
            0 <= a,
            0 < p,
    ;
    assert((q * p) / unit() <= a) by (nonlinear_arith)
        requires
            0 <= q * p <= a * unit(),
    ;
}

/// A step spends at most the limit left, prices what it sells at the sold
/// token's price, and never takes a token with a minimum balance below it.
proof fn lemma_step_facts(s: TargetHelper, b: TargetHelper, max_sell: int, pairs: Seq<(Pair, String)>)
    requires
        0 <= max_sell,
        step_safe(s, b, max_sell),
    ensures
        ({
            let (s2, b2, m2, o) = trade_step(s, b, max_sell, pairs);
            &&& 0 <= m2 <= max_sell
            &&& s2.target == s.target
            &&& s2.price == s.price
            &&& b2.target == b.target
            &&& o is None ==> m2 == max_sell && s2.balance_amount == s.balance_amount
            &&& o matches Some(x) ==> {
                &&& 0 <= x.2
                &&& m2 == max_sell - x.2
                &&& x.3 == s.price.atomics
                &&& x.0.amount == ceil_units(mul_atomics(x.2, x.3))
                &&& x.0.denom == s.target.denom
                &&& s.target.min_balance matches Some(mb) ==> {
                    &&& x.0.amount + mb <= s.balance_amount
                    &&& s2.balance_amount == s.balance_amount - x.0.amount
                }
                &&& s.target.min_balance is None ==> s2.balance_amount == s.balance_amount
            }
        }),
{
    let sv = s.value_to_trade.atomics as int;
    let bv = b.value_to_trade.atomics as int;
    let ms = s.auction_min_send_value.atomics as int;
    let p = s.price.atomics as int;
    if !(bv == 0 || sv == 0 || max_sell == 0) {
        if let Some(sv1) = after_min_balance(s) {
            if sv1 >= ms && bv >= ms {
                let sv2 = if sv1 > max_sell { max_sell } else { sv1 };
                let v = if sv2 >= bv { bv } else { sv2 };
                lemma_mul_mono(v, sv2, p);
                lemma_mul_mono(sv2, sv1, p);
                let amount = ceil_units(mul_atomics(v, p));
                lemma_ceil_le(mul_atomics(v, p));
                match s.target.min_balance {
                    Some(mb) => {
                        let sell_amount = ceil_units(mul_atomics(sv, p));
                        if s.balance_amount - sell_amount < mb {
                            let diff = s.balance_amount - mb;
                            lemma_value_back(diff * unit(), p);
                            lemma_ceil_within(mul_atomics(sv1, p), diff);
                            lemma_ceil_mono(mul_atomics(v, p), mul_atomics(sv1, p));
                        } else {
                            assert(sv1 == sv);
                            lemma_ceil_mono(mul_atomics(v, p), mul_atomics(sv, p));
                        }
                    },
                    None => {},
                }
                assert(0 <= amount <= u128::MAX);
            }
        }
    }
}

fn set_vtt(h: &TargetHelper, v: Decimal) -> (r: TargetHelper)
    ensures
        r == with_vtt(*h, v.atomics as int),
{
    let mut t = copy_helper(h);
    t.value_to_trade = v;
    t
}

fn trade_step_exec(s: &TargetHelper, b: &TargetHelper, max_sell: Decimal, pairs: &Vec<(Pair, String)>) -> (r: (
    TargetHelper,
    TargetHelper,
    Decimal,
    Option<(AuctionFundsMsg, RebalanceTrade)>,
))
    requires
        step_safe(*s, *b, max_sell.atomics as int),
    ensures
        ({
            let (s2, b2, m2, o) = trade_step(*s, *b, max_sell.atomics as int, pairs@);
            &&& r.0 == s2
            &&& r.1 == b2
            &&& r.2.atomics == m2
            &&& (r.3 is None <==> o is None)
            &&& r.3 matches Some((m, t)) ==> o->Some_0.0 == m && o->Some_0.1 == t
        }),
{
    proof {
        lemma_step_facts(*s, *b, max_sell.atomics as int, pairs@);
    }
    if b.value_to_trade.is_zero() || s.value_to_trade.is_zero() || max_sell.is_zero() {
        return (copy_helper(s), copy_helper(b), max_sell, None);
    }
    let sell_amount = s.value_to_trade.mul(s.price).to_uint_ceil();
    let mut sv = s.value_to_trade;
    match s.target.min_balance {
        Some(mb) => {
            if s.balance_amount < sell_amount {
                return (copy_helper(s), copy_helper(b), max_sell, None);
            } else if s.balance_amount - sell_amount < mb {
                let diff = s.balance_amount - mb;
                if diff == 0 {
                    return (copy_helper(s), copy_helper(b), max_sell, None);
                }
                let diff_d = match Decimal::from_uint(diff) {
                    Ok(d) => d,
                    Err(_) => vstd::pervasive::unreached(),
                };
                sv = diff_d.div(s.price);
            }
        },
        None => {},
    }
    if sv.atomics < s.auction_min_send_value.atomics {
        return (set_vtt(s, Decimal::zero()), copy_helper(b), max_sell, None);
    }
    if b.value_to_trade.atomics < s.auction_min_send_value.atomics {
        return (set_vtt(s, sv), copy_helper(b), max_sell, None);
    }
    if sv.atomics > max_sell.atomics {
        sv = max_sell;
    }
    let (v, s_rest, b_rest) = if sv.atomics >= b.value_to_trade.atomics {
        (b.value_to_trade, sv.sub(b.value_to_trade), Decimal::zero())
    } else {
        (sv, Decimal::zero(), b.value_to_trade.sub(sv))
    };
    proof {
        lemma_mul_mono(v.atomics as int, sv.atomics as int, s.price.atomics as int);
    }
    let amount = v.mul(s.price).to_uint_ceil();
    let out = construct_msg(pairs, &s.target.denom, &b.target.denom, amount);
    let s1 = set_vtt(s, s_rest);
    let b1 = set_vtt(b, b_rest);
    match out {
        None => (s1, b1, max_sell, None),
        Some(x) => {
            let mut s2 = s1;
            if s2.target.min_balance.is_some() {
                s2.balance_amount = s2.balance_amount - amount;
            }
            (s2, b1, max_sell.sub(v), Some(x))
        },
    }
}

/// The first bought token with a minimum balance.
pub open spec fn first_min_buy(bs: Seq<TargetHelper>, n: int) -> Option<int>
    decreases n,
{
    if n <= 0 {
        None
    } else {
        match first_min_buy(bs, n - 1) {
            Some(j) => Some(j),
            None => if bs[n - 1].target.min_balance is Some {
                Some(n - 1)
            } else {
                None
            },
        }
    }
}

/// Before matching, a bought token with a minimum balance that needs less
/// than the first sold token's auction minimum is bought at that minimum, so
/// that the minimum balance can be reached; the sold token's value to trade
/// shrinks by that minimum. Returns the tokens, the limit left and the message.
pub open spec fn pre_trade(has_min: bool, sells: Seq<TargetHelper>, bs: Seq<TargetHelper>, max_sell: int, pairs: Seq<(Pair, String)>) -> (Seq<TargetHelper>, Seq<TargetHelper>, int, Option<AuctionFundsMsg>) {
    if !has_min {
        (sells, bs, max_sell, None)
    } else {
        match first_min_buy(bs, bs.len() as int) {
            None => (sells, bs, max_sell, None),
            Some(bi) => {
                let b = bs[bi];
                let s = sells[0];
                let ms = s.auction_min_send_value.atomics as int;
                let sv = s.value_to_trade.atomics as int;
                if b.value_to_trade.atomics < ms {
                    let s2 = if sv < ms { with_vtt(s, 0) } else { with_vtt(s, sv - ms) };
                    let amount = ceil_units(mul_atomics(ms, s.price.atomics as int));
                    match trade_out(pairs, s.target.denom, b.target.denom, amount) {
                        Some((m, _)) => (sells.update(0, s2), bs.update(bi, with_vtt(b, 0)), max_sell - ms, Some(m)),
                        None => (sells.update(0, s2), bs.update(bi, with_vtt(b, 0)), max_sell, None),
                    }
                } else {
                    (sells, bs, max_sell, None)
                }
            },
        }
    }
}

/// The step before matching stays in range: there is a token to sell, its
/// auction minimum's amount fits, and the limit covers that minimum.
pub open spec fn pre_safe(has_min: bool, sells: Seq<TargetHelper>, bs: Seq<TargetHelper>, max_sell: int, pairs: Seq<(Pair, String)>) -> bool {
    has_min ==> (first_min_buy(bs, bs.len() as int) matches Some(bi) ==> (sells.len() > 0 && (bs[bi].value_to_trade.atomics
        < sells[0].auction_min_send_value.atomics ==> {
        let s = sells[0];
        &&& mul_atomics(s.auction_min_send_value.atomics as int, s.price.atomics as int) <= u128::MAX
        &&& pair_addr(pairs, s.target.denom@, bs[bi].target.denom@, 0) is Some ==> max_sell
            >= s.auction_min_send_value.atomics
    })))
}

fn find_min_buy(bs: &Vec<TargetHelper>) -> (r: Option<usize>)
    ensures
        match first_min_buy(bs@, bs.len() as int) {
            Some(m) => r == Some(m as usize) && 0 <= m < bs.len(),
            None => r is None,
        },
{
    let mut k: usize = 0;
    while k < bs.len()
        invariant
            0 <= k <= bs.len(),
            first_min_buy(bs@, k as int) is None,
        decreases bs.len() - k,
    {
        if bs[k].target.min_balance.is_some() {
            proof {
                assert(first_min_buy(bs@, k + 1) == Some(k as int));
                lemma_min_buy_stays(bs@, k + 1, bs.len() as int);
            }
            return Some(k);
        }
        k = k + 1;
    }
    None
}

proof fn lemma_min_buy_stays(bs: Seq<TargetHelper>, n: int, m: int)
    requires
        0 <= n <= m,
        first_min_buy(bs, n) is Some,
    ensures
        first_min_buy(bs, m) == first_min_buy(bs, n),
    decreases m - n,
{
    if m > n {
        lemma_min_buy_stays(bs, n, m - 1);
    }
}


/// The messages of a list of trades' outcomes.
pub open spec fn out_msgs(out: Seq<(AuctionFundsMsg, RebalanceTrade, int, int)>) -> Seq<AuctionFundsMsg> {
    out.map_values(|x: (AuctionFundsMsg, RebalanceTrade, int, int)| x.0)
}

/// The trades of a list of trades' outcomes.
pub open spec fn out_trades(out: Seq<(AuctionFundsMsg, RebalanceTrade, int, int)>) -> Seq<RebalanceTrade> {
    out.map_values(|x: (AuctionFundsMsg, RebalanceTrade, int, int)| x.1)
}

/// The value sold and the sold token's price of each of a list of outcomes.
pub open spec fn out_sales(out: Seq<(AuctionFundsMsg, RebalanceTrade, int, int)>) -> Seq<(int, int)> {
    out.map_values(|x: (AuctionFundsMsg, RebalanceTrade, int, int)| (x.2, x.3))
}

/// What `generate_trades_msgs` yields: the message of the step before
/// matching, if any, then those of the matched trades; and the matched trades.
pub open spec fn trades_result(
    has_min: bool,
    sells: Seq<TargetHelper>,
    bs: Seq<TargetHelper>,
    max_sell: int,
    pairs: Seq<(Pair, String)>,
) -> (Seq<AuctionFundsMsg>, Seq<RebalanceTrade>) {
    let (sells1, bs1, max1, pre) = pre_trade(has_min, sells, bs, max_sell, pairs);
    let (_, _, out) = outer_scan(sells1, bs1, max1, pairs, sells1.len() as int);
    let first = match pre {
        Some(m) => seq![m],
        None => Seq::empty(),
    };
    (first + out_msgs(out), out_trades(out))
}

/// The value sold by each message `generate_trades_msgs` yields, with the
/// price of the sold token, in the order of the messages.
pub open spec fn trades_sales(
    has_min: bool,
    sells: Seq<TargetHelper>,
    bs: Seq<TargetHelper>,
    max_sell: int,
    pairs: Seq<(Pair, String)>,
) -> Seq<(int, int)> {
    let (sells1, bs1, max1, pre) = pre_trade(has_min, sells, bs, max_sell, pairs);
    let (_, _, out) = outer_scan(sells1, bs1, max1, pairs, sells1.len() as int);
    let first = match pre {
        Some(_) => seq![(sells[0].auction_min_send_value.atomics as int, sells[0].price.atomics as int)],
        None => Seq::empty(),
    };
    first + out_sales(out)
}

/// The sum of the values sold.
pub open spec fn sum_values(sales: Seq<(int, int)>) -> int
    decreases sales.len(),
{
    if sales.len() == 0 {
        0
    } else {
        sum_values(sales.drop_last()) + sales.last().0
    }
}

/// Everything `generate_trades_msgs` computes stays in range.
pub open spec fn trades_safe(
    has_min: bool,
    sells: Seq<TargetHelper>,
    bs: Seq<TargetHelper>,
    max_sell: int,
    pairs: Seq<(Pair, String)>,
) -> bool {
    &&& pre_safe(has_min, sells, bs, max_sell, pairs)
    &&& {
        let (sells1, bs1, max1, _) = pre_trade(has_min, sells, bs, max_sell, pairs);
        outer_safe(sells1, bs1, max1, pairs, sells1.len() as int)
    }
}

proof fn lemma_out_push(out: Seq<(AuctionFundsMsg, RebalanceTrade, int, int)>, x: (AuctionFundsMsg, RebalanceTrade, int, int))
    ensures
        out_msgs(out.push(x)) == out_msgs(out).push(x.0),
        out_trades(out.push(x)) == out_trades(out).push(x.1),
        out_sales(out.push(x)) == out_sales(out).push((x.2, x.3)),
{
    assert(out_msgs(out.push(x)) =~= out_msgs(out).push(x.0));
    assert(out_trades(out.push(x)) =~= out_trades(out).push(x.1));
    assert(out_sales(out.push(x)) =~= out_sales(out).push((x.2, x.3)));
}

proof fn lemma_out_concat(a: Seq<(AuctionFundsMsg, RebalanceTrade, int, int)>, b: Seq<(AuctionFundsMsg, RebalanceTrade, int, int)>)
    ensures
        out_msgs(a + b) == out_msgs(a) + out_msgs(b),
        out_trades(a + b) == out_trades(a) + out_trades(b),
        out_sales(a + b) == out_sales(a) + out_sales(b),
{
    assert(out_msgs(a + b) =~= out_msgs(a) + out_msgs(b));
    assert(out_trades(a + b) =~= out_trades(a) + out_trades(b));
    assert(out_sales(a + b) =~= out_sales(a) + out_sales(b));
}

/// Matches the tokens to sell with the tokens to buy and builds the messages
/// that send the sold funds to the pairs' auctions (pairs without an auction
/// are skipped). `max_sell` is the value the account allows to be sold this
/// cycle: each sale lowers what is left of it, so that all the sales of the
/// cycle together stay within it. `pairs` are the auctions of the known pairs.
pub fn generate_trades_msgs(
    to_sell: Vec<TargetHelper>,
    to_buy: Vec<TargetHelper>,
    pairs: &Vec<(Pair, String)>,
    has_min_balance: bool,
    max_sell: Decimal,
) -> (r: (Vec<AuctionFundsMsg>, Vec<RebalanceTrade>))
    requires
        trades_safe(has_min_balance, to_sell@, to_buy@, max_sell.atomics as int, pairs@),
    ensures
        (r.0@, r.1@) == trades_result(has_min_balance, to_sell@, to_buy@, max_sell.atomics as int, pairs@),
{
    let mut sells = to_sell;
    let mut buys = to_buy;
    let mut max_sell = max_sell;
    let mut msgs: Vec<AuctionFundsMsg> = Vec::new();
    let mut trades: Vec<RebalanceTrade> = Vec::new();
    let ghost sells0 = sells@;
    let ghost buys0 = buys@;
    let ghost max0 = max_sell.atomics as int;
    if has_min_balance {
        match find_min_buy(&buys) {
            Some(bi) => {
                let s = copy_helper(&sells[0]);
                let b = copy_helper(&buys[bi]);
                if b.value_to_trade.atomics < s.auction_min_send_value.atomics {
                    let s2 = if s.value_to_trade.atomics < s.auction_min_send_value.atomics {
                        set_vtt(&s, Decimal::zero())
                    } else {
                        set_vtt(&s, s.value_to_trade.sub(s.auction_min_send_value))
                    };
                    let amount = s.auction_min_send_value.mul(s.price).to_uint_ceil();
                    let out = construct_msg(pairs, &s.target.denom, &b.target.denom, amount);
                    sells.set(0, s2);
                    buys.set(bi, set_vtt(&b, Decimal::zero()));
                    match out {
                        Some((m, _)) => {
                            max_sell = max_sell.sub(s.auction_min_send_value);
                            msgs.push(m);
                        },
                        None => {},
                    }
                }
            },
            None => {},
        }
    }
    let ghost pre = pre_trade(has_min_balance, sells0, buys0, max0, pairs@);
    assert(sells@ == pre.0 && buys@ == pre.1 && max_sell.atomics == pre.2);
    assert(msgs@ == match pre.3 {
        Some(m) => seq![m],
        None => Seq::<AuctionFundsMsg>::empty(),
    });
    let ghost first = msgs@;
    let ghost sells1 = sells@;
    let ghost buys1 = buys@;
    let mut k: usize = 0;
    while k < sells.len()
        invariant
            0 <= k <= sells.len(),
            sells@ == sells1,
            outer_safe(sells1, buys1, pre.2, pairs@, sells1.len() as int),
            ({
                let (bsk, mk, outk) = outer_scan(sells1, buys1, pre.2, pairs@, k as int);
                &&& buys@ == bsk
                &&& max_sell.atomics == mk
                &&& msgs@ == first + out_msgs(outk)
                &&& trades@ == out_trades(outk)
            }),
        decreases sells.len() - k,
    {
        proof {
            lemma_outer_safe_prefix(sells1, buys1, pre.2, pairs@, k + 1, sells1.len() as int);
            lemma_outer_len(sells1, buys1, pre.2, pairs@, k as int);
        }
        let ghost bs_before = buys@;
        let ghost m_before = max_sell.atomics as int;
        let ghost msgs_before = msgs@;
        let ghost trades_before = trades@;
        let mut s = copy_helper(&sells[k]);
        let mut j: usize = 0;
        while j < buys.len()
            invariant
                0 <= j <= buys.len(),
                buys.len() == bs_before.len(),
                inner_safe(sells1[k as int], bs_before, m_before, pairs@, bs_before.len() as int),
                ({
                    let (sj, bsj, mj, outj) = inner_scan(sells1[k as int], bs_before, m_before, pairs@, j as int);
                    &&& s == sj
                    &&& buys@ == bsj
                    &&& max_sell.atomics == mj
                    &&& msgs@ == msgs_before + out_msgs(outj)
                    &&& trades@ == trades_before + out_trades(outj)
                }),
            decreases buys.len() - j,
        {
            proof {
                lemma_inner_safe_prefix(sells1[k as int], bs_before, m_before, pairs@, j + 1, bs_before.len() as int);
                lemma_inner_len(sells1[k as int], bs_before, m_before, pairs@, j as int);
            }
            let ghost outj = inner_scan(sells1[k as int], bs_before, m_before, pairs@, j as int).3;
            let ghost spec_step = trade_step(s, buys@[j as int], max_sell.atomics as int, pairs@);
            let (s2, b2, m2, o) = trade_step_exec(&s, &buys[j], max_sell, pairs);
            s = s2;
            buys.set(j, b2);
            max_sell = m2;
            match o {
                Some((m, t)) => {
                    proof {
                        lemma_out_push(outj, spec_step.3->Some_0);
                    }
                    msgs.push(m);
                    trades.push(t);
                },
                None => {},
            }
            j = j + 1;
        }
        proof {
            let outk = outer_scan(sells1, buys1, pre.2, pairs@, k as int).2;
            let outi = inner_scan(sells1[k as int], bs_before, m_before, pairs@, bs_before.len() as int).3;
            lemma_out_concat(outk, outi);
        }
        k = k + 1;
    }
    (msgs, trades)
}

proof fn lemma_inner_safe_prefix(s: TargetHelper, bs: Seq<TargetHelper>, max_sell: int, pairs: Seq<(Pair, String)>, n: int, m: int)
    requires
        0 <= n <= m,
        inner_safe(s, bs, max_sell, pairs, m),
    ensures
        inner_safe(s, bs, max_sell, pairs, n),
    decreases m - n,
{
    if m > n {
        lemma_inner_safe_prefix(s, bs, max_sell, pairs, n, m - 1);
    }
}

proof fn lemma_outer_safe_prefix(sells: Seq<TargetHelper>, bs: Seq<TargetHelper>, max_sell: int, pairs: Seq<(Pair, String)>, n: int, m: int)
    requires
        0 <= n <= m,
        outer_safe(sells, bs, max_sell, pairs, m),
    ensures
        outer_safe(sells, bs, max_sell, pairs, n),
    decreases m - n,
{
    if m > n {
        lemma_outer_safe_prefix(sells, bs, max_sell, pairs, n, m - 1);
    }
}


/// The sum of the amounts a list of messages sends.
pub open spec fn sum_amounts(msgs: Seq<AuctionFundsMsg>) -> int
    decreases msgs.len(),
{
    if msgs.len() == 0 {
        0
    } else {
        sum_amounts(msgs.drop_last()) + msgs.last().amount
    }
}

proof fn lemma_sum_values_push(sales: Seq<(int, int)>, x: (int, int))
    ensures
        sum_values(sales.push(x)) == sum_values(sales) + x.0,
{
    assert(sales.push(x).drop_last() =~= sales);
}

proof fn lemma_sum_amounts_push(msgs: Seq<AuctionFundsMsg>, x: AuctionFundsMsg)
    ensures
        sum_amounts(msgs.push(x)) == sum_amounts(msgs) + x.amount,
{
    assert(msgs.push(x).drop_last() =~= msgs);
}

proof fn lemma_sum_values_concat(a: Seq<(int, int)>, b: Seq<(int, int)>)
    ensures
        sum_values(a + b) == sum_values(a) + sum_values(b),
    decreases b.len(),
{
    if b.len() == 0 {
        assert(a + b =~= a);
    } else {
        lemma_sum_values_concat(a, b.drop_last());
        assert((a + b).drop_last() =~= a + b.drop_last());
    }
}

/// Over the first `n` bought tokens, the sales of one sold token spend
/// exactly what they take off the limit, and each message sends the value
/// sold at the sold token's price.
proof fn lemma_inner_sales(s: TargetHelper, bs: Seq<TargetHelper>, max_sell: int, pairs: Seq<(Pair, String)>, n: int)
    requires
        0 <= n <= bs.len(),
        0 <= max_sell,
        inner_safe(s, bs, max_sell, pairs, n),
    ensures
        ({
            let (s2, _, m, out) = inner_scan(s, bs, max_sell, pairs, n);
            &&& 0 <= m <= max_sell
            &&& max_sell - m == sum_values(out_sales(out))
            &&& s2.target == s.target
            &&& s2.price == s.price
            &&& forall|i: int|
                0 <= i < out.len() ==> 0 <= (#[trigger] out[i]).2 && out[i].3 == s.price.atomics
                    && out[i].0.amount == ceil_units(mul_atomics(out[i].2, out[i].3))
        }),
    decreases n,
{
    if n > 0 {
        lemma_inner_sales(s, bs, max_sell, pairs, n - 1);
        lemma_inner_len(s, bs, max_sell, pairs, n - 1);
        let (s1, bs1, m1, out1) = inner_scan(s, bs, max_sell, pairs, n - 1);
        lemma_step_facts(s1, bs1[n - 1], m1, pairs);
        let (s2, b2, m2, o) = trade_step(s1, bs1[n - 1], m1, pairs);
        if let Some(x) = o {
            lemma_out_push(out1, x);
            lemma_sum_values_push(out_sales(out1), (x.2, x.3));
        }
    }
}

/// Over the first `n` bought tokens, the sales of a sold token with a minimum
/// balance never take its balance below that minimum: the balance left and
/// all that was sent of it add up to the balance it started with.
pub proof fn lemma_sales_keep_min_balance(s: TargetHelper, bs: Seq<TargetHelper>, max_sell: int, pairs: Seq<(Pair, String)>, n: int)
    requires
        0 <= n <= bs.len(),
        0 <= max_sell,
        inner_safe(s, bs, max_sell, pairs, n),
        s.target.min_balance is Some,
        s.balance_amount >= s.target.min_balance->Some_0,
    ensures
        ({
            let (s2, _, _, out) = inner_scan(s, bs, max_sell, pairs, n);
            &&& s2.balance_amount >= s.target.min_balance->Some_0
            &&& s2.balance_amount + sum_amounts(out_msgs(out)) == s.balance_amount
            &&& forall|i: int| 0 <= i < out.len() ==> (#[trigger] out[i]).0.denom == s.target.denom
        }),
    decreases n,
{
    if n > 0 {
        lemma_sales_keep_min_balance(s, bs, max_sell, pairs, n - 1);
        lemma_inner_sales(s, bs, max_sell, pairs, n - 1);
        lemma_inner_len(s, bs, max_sell, pairs, n - 1);
        let (s1, bs1, m1, out1) = inner_scan(s, bs, max_sell, pairs, n - 1);
        lemma_step_facts(s1, bs1[n - 1], m1, pairs);
        let (s2, b2, m2, o) = trade_step(s1, bs1[n - 1], m1, pairs);
        if let Some(x) = o {
            lemma_out_push(out1, x);
            lemma_sum_amounts_push(out_msgs(out1), x.0);
        }
    }
}

proof fn lemma_outer_sales(sells: Seq<TargetHelper>, bs: Seq<TargetHelper>, max_sell: int, pairs: Seq<(Pair, String)>, n: int)
    requires
        0 <= n <= sells.len(),
        0 <= max_sell,
        outer_safe(sells, bs, max_sell, pairs, n),
    ensures
        ({
            let (_, m, out) = outer_scan(sells, bs, max_sell, pairs, n);
            &&& 0 <= m <= max_sell
            &&& max_sell - m == sum_values(out_sales(out))
            &&& forall|i: int|
                0 <= i < out.len() ==> 0 <= (#[trigger] out[i]).2 && out[i].0.amount == ceil_units(
                    mul_atomics(out[i].2, out[i].3),
                )
        }),
    decreases n,
{
    if n > 0 {
        lemma_outer_sales(sells, bs, max_sell, pairs, n - 1);
        lemma_outer_safe_prefix(sells, bs, max_sell, pairs, n - 1, n);
        lemma_outer_len(sells, bs, max_sell, pairs, n - 1);
        let (bs1, m1, out1) = outer_scan(sells, bs, max_sell, pairs, n - 1);
        lemma_inner_sales(sells[n - 1], bs1, m1, pairs, bs1.len() as int);
        let out2 = inner_scan(sells[n - 1], bs1, m1, pairs, bs1.len() as int).3;
        lemma_out_concat(out1, out2);
        lemma_sum_values_concat(out_sales(out1), out_sales(out2));
        assert forall|i: int| 0 <= i < (out1 + out2).len() implies 0 <= (#[trigger] (out1 + out2)[i]).2
            && (out1 + out2)[i].0.amount == ceil_units(mul_atomics((out1 + out2)[i].2, (out1 + out2)[i].3)) by {
            if i >= out1.len() {
                assert((out1 + out2)[i] == out2[i - out1.len()]);
            }
        }
    }
}

/// All the sales of a cycle together stay within the value the account allows
/// to be sold: each message sends the value it sells at the sold token's
/// price, rounded up to whole units, and the values add up to at most
/// `max_sell`.
pub proof fn lemma_trades_within_limit(
    has_min: bool,
    sells: Seq<TargetHelper>,
    bs: Seq<TargetHelper>,
    max_sell: int,
    pairs: Seq<(Pair, String)>,
)
    requires
        0 <= max_sell,
        trades_safe(has_min, sells, bs, max_sell, pairs),
    ensures
        ({
            let msgs = trades_result(has_min, sells, bs, max_sell, pairs).0;
            let sales = trades_sales(has_min, sells, bs, max_sell, pairs);
            &&& sales.len() == msgs.len()
            &&& forall|i: int|
                0 <= i < sales.len() ==> 0 <= (#[trigger] sales[i]).0 && msgs[i].amount == ceil_units(
                    mul_atomics(sales[i].0, sales[i].1),
                )
            &&& sum_values(sales) <= max_sell
        }),
{
    let (sells1, bs1, max1, pre) = pre_trade(has_min, sells, bs, max_sell, pairs);
    assert(sells1.len() == sells.len());
    if let Some(m) = pre {
        let s0 = sells[0];
        lemma_ceil_le(mul_atomics(s0.auction_min_send_value.atomics as int, s0.price.atomics as int));
        lemma_mul_mono(0, s0.auction_min_send_value.atomics as int, s0.price.atomics as int);
    }
    lemma_outer_sales(sells1, bs1, max1, pairs, sells1.len() as int);
    let out = outer_scan(sells1, bs1, max1, pairs, sells1.len() as int).2;
    let first_msgs: Seq<AuctionFundsMsg> = match pre {
        Some(m) => seq![m],
        None => Seq::empty(),
    };
    let first_sales: Seq<(int, int)> = match pre {
        Some(_) => seq![(sells[0].auction_min_send_value.atomics as int, sells[0].price.atomics as int)],
        None => Seq::empty(),
    };
    lemma_sum_values_concat(first_sales, out_sales(out));
    assert(sum_values(first_sales) == if pre is Some { sells[0].auction_min_send_value.atomics as int } else { 0 }) by {
        if pre is Some {
            assert(first_sales.drop_last() =~= Seq::<(int, int)>::empty());
            assert(sum_values(first_sales.drop_last()) == 0);
            assert(first_sales.last().0 == sells[0].auction_min_send_value.atomics as int);
        } else {
            assert(first_sales.len() == 0);
        }
    }
    assert forall|i: int| 0 <= i < (first_sales + out_sales(out)).len() implies 0 <= (#[trigger] (first_sales
        + out_sales(out))[i]).0 && (first_msgs + out_msgs(out))[i].amount == ceil_units(
        mul_atomics((first_sales + out_sales(out))[i].0, (first_sales + out_sales(out))[i].1),
    ) by {
        if i >= first_sales.len() {
            let k = i - first_sales.len();
            assert((first_sales + out_sales(out))[i] == out_sales(out)[k]);
            assert((first_msgs + out_msgs(out))[i] == out_msgs(out)[k]);
            assert(out_sales(out)[k] == (out[k].2, out[k].3));
            assert(out_msgs(out)[k] == out[k].0);
        }
    }
}

/// The value sold of the denomination `d` by a list of messages, given the
/// value each one sells (in the same order).
pub open spec fn value_sold_of(msgs: Seq<AuctionFundsMsg>, sales: Seq<(int, int)>, d: Seq<char>) -> int
    decreases msgs.len(),
{
    if msgs.len() == 0 || sales.len() == 0 {
        0
    } else {
        value_sold_of(msgs.drop_last(), sales.drop_last(), d) + if msgs.last().denom@ == d {
            sales.last().0
        } else {
            0
        }
    }
}

/// The value the controller wants traded of the denomination `d`, over the
/// first `n` tokens of a list (to sell, or to buy).
pub open spec fn value_to_trade_of(sells: Seq<TargetHelper>, d: Seq<char>, n: int) -> int
    decreases n,
{
    if n <= 0 {
        0
    } else {
        value_to_trade_of(sells, d, n - 1) + if sells[n - 1].target.denom@ == d {
            sells[n - 1].value_to_trade.atomics as int
        } else {
            0
        }
    }
}

/// The step before matching sends the first sold token's auction minimum to
/// buy a token with a minimum balance: an account with a minimum balance, a
/// bought token with one that needs less than that auction minimum, and an
/// auction for the pair.
pub open spec fn forced_min_sale(has_min: bool, sells: Seq<TargetHelper>, bs: Seq<TargetHelper>, pairs: Seq<(Pair, String)>) -> bool {
    &&& pre_step_applies(has_min, sells, bs)
    &&& pair_addr(
        pairs,
        sells[0].target.denom@,
        bs[first_min_buy(bs, bs.len() as int)->Some_0].target.denom@,
        0,
    ) is Some
}

/// The step before matching applies: the account has a minimum balance, and
/// the first bought token with a minimum balance needs less than the first
/// sold token's auction minimum.
pub open spec fn pre_step_applies(has_min: bool, sells: Seq<TargetHelper>, bs: Seq<TargetHelper>) -> bool {
    &&& has_min
    &&& first_min_buy(bs, bs.len() as int) is Some
    &&& bs[first_min_buy(bs, bs.len() as int)->Some_0].value_to_trade.atomics
        < sells[0].auction_min_send_value.atomics
}

proof fn lemma_min_buy_index(bs: Seq<TargetHelper>, n: int)
    requires
        0 <= n <= bs.len(),
    ensures
        first_min_buy(bs, n) matches Some(i) ==> 0 <= i < n,
    decreases n,
{
    if n > 0 {
        lemma_min_buy_index(bs, n - 1);
    }
}

/// The value left to sell after the minimum balance rule is never more than
/// the controller asked.
proof fn lemma_after_min_balance_le(s: TargetHelper, b: TargetHelper, max_sell: int)
    requires
        step_safe(s, b, max_sell),
        !(b.value_to_trade.atomics == 0 || s.value_to_trade.atomics == 0 || max_sell == 0),
    ensures
        after_min_balance(s) matches Some(sv1) ==> 0 <= sv1 <= s.value_to_trade.atomics,
{
    let sv = s.value_to_trade.atomics as int;
    let p = s.price.atomics as int;
    let x = mul_atomics(sv, p);
    let sell_amount = ceil_units(x);
    if let Some(mb) = s.target.min_balance {
        if s.balance_amount >= sell_amount && s.balance_amount - sell_amount < mb {
            let diff = s.balance_amount - mb;
            if diff != 0 {
                assert(diff > 0);
                assert(p != 0);
                assert(sv * p >= 0) by (nonlinear_arith)
                    requires
                        sv >= 0,
                        p >= 0,
                ;
                assert(x >= 0) by (nonlinear_arith)
                    requires
                        sv * p >= 0,
                        x == (sv * p) / unit(),
                ;
                assert(x > 0);
                assert(diff <= (x - 1) / unit());
                assert(diff * unit() * unit() < sv * p) by (nonlinear_arith)
                    requires
                        diff <= (x - 1) / unit(),
                        x == (sv * p) / unit(),
                        x > 0,
                ;
                let q = div_atomics(diff * unit(), p);
                assert(q == (diff * unit() * unit()) / p);
                assert(0 <= q <= sv) by (nonlinear_arith)
                    requires
                        q == (diff * unit() * unit()) / p,
                        diff * unit() * unit() < sv * p,
                        diff > 0,
                        p > 0,
                ;
            }
        }
    }
}

/// A step sells no more than what the sold token's value to trade loses, and
/// its message sends the sold token.
proof fn lemma_step_value(s: TargetHelper, b: TargetHelper, max_sell: int, pairs: Seq<(Pair, String)>)
    requires
        0 <= max_sell,
        step_safe(s, b, max_sell),
    ensures
        ({
            let (s2, _, _, o) = trade_step(s, b, max_sell, pairs);
            &&& s2.target == s.target
            &&& s2.value_to_trade.atomics + (match o { Some(x) => x.2, None => 0 }) <= s.value_to_trade.atomics
            &&& o matches Some(x) ==> x.0.denom == s.target.denom
        }),
{
    lemma_step_facts(s, b, max_sell, pairs);
    if !(b.value_to_trade.atomics == 0 || s.value_to_trade.atomics == 0 || max_sell == 0) {
        lemma_after_min_balance_le(s, b, max_sell);
    }
}

/// Against all the bought tokens, a sold token sells no more than its value
/// to trade, and every message sends it.
proof fn lemma_inner_value(s: TargetHelper, bs: Seq<TargetHelper>, max_sell: int, pairs: Seq<(Pair, String)>, n: int)
    requires
        0 <= n <= bs.len(),
        0 <= max_sell,
        inner_safe(s, bs, max_sell, pairs, n),
    ensures
        ({
            let (s2, _, _, out) = inner_scan(s, bs, max_sell, pairs, n);
            &&& s2.target == s.target
            &&& s2.value_to_trade.atomics + sum_values(out_sales(out)) <= s.value_to_trade.atomics
            &&& forall|i: int| 0 <= i < out.len() ==> (#[trigger] out[i]).0.denom == s.target.denom
        }),
    decreases n,
{
    if n > 0 {
        lemma_inner_value(s, bs, max_sell, pairs, n - 1);
        lemma_inner_sales(s, bs, max_sell, pairs, n - 1);
        lemma_inner_len(s, bs, max_sell, pairs, n - 1);
        let (s1, bs1, m1, out1) = inner_scan(s, bs, max_sell, pairs, n - 1);
        lemma_step_value(s1, bs1[n - 1], m1, pairs);
        let (s2, b2, m2, o) = trade_step(s1, bs1[n - 1], m1, pairs);
        if let Some(x) = o {
            lemma_out_push(out1, x);
            lemma_sum_values_push(out_sales(out1), (x.2, x.3));
        }
    }
}

proof fn lemma_value_sold_concat(m1: Seq<AuctionFundsMsg>, s1: Seq<(int, int)>, m2: Seq<AuctionFundsMsg>, s2: Seq<(int, int)>, d: Seq<char>)
    requires
        m1.len() == s1.len(),
        m2.len() == s2.len(),
    ensures
        value_sold_of(m1 + m2, s1 + s2, d) == value_sold_of(m1, s1, d) + value_sold_of(m2, s2, d),
    decreases m2.len(),
{
    if m2.len() == 0 {
        assert(m1 + m2 =~= m1);
        assert(s1 + s2 =~= s1);
    } else {
        lemma_value_sold_concat(m1, s1, m2.drop_last(), s2.drop_last(), d);
        assert((m1 + m2).drop_last() =~= m1 + m2.drop_last());
        assert((s1 + s2).drop_last() =~= s1 + s2.drop_last());
    }
}

/// Messages that all send one denomination sell of it all their values, and
/// nothing of any other.
proof fn lemma_value_sold_one_denom(msgs: Seq<AuctionFundsMsg>, sales: Seq<(int, int)>, den: Seq<char>, d: Seq<char>)
    requires
        msgs.len() == sales.len(),
        forall|i: int| 0 <= i < msgs.len() ==> (#[trigger] msgs[i]).denom@ == den,
    ensures
        value_sold_of(msgs, sales, d) == if den == d { sum_values(sales) } else { 0 },
    decreases msgs.len(),
{
    if msgs.len() > 0 {
        let m1 = msgs.drop_last();
        assert forall|i: int| 0 <= i < m1.len() implies (#[trigger] m1[i]).denom@ == den by {
            assert(m1[i] == msgs[i]);
        }
        lemma_value_sold_one_denom(m1, sales.drop_last(), den, d);
        assert(msgs.last() == msgs[msgs.len() - 1]);
    }
}

/// Over the first `n` sold tokens, each sells no more of its denomination
/// than its value to trade.
proof fn lemma_outer_value(sells: Seq<TargetHelper>, bs: Seq<TargetHelper>, max_sell: int, pairs: Seq<(Pair, String)>, n: int, d: Seq<char>)
    requires
        0 <= n <= sells.len(),
        0 <= max_sell,
        outer_safe(sells, bs, max_sell, pairs, n),
    ensures
        ({
            let out = outer_scan(sells, bs, max_sell, pairs, n).2;
            value_sold_of(out_msgs(out), out_sales(out), d) <= value_to_trade_of(sells, d, n)
        }),
    decreases n,
{
    if n > 0 {
        lemma_outer_value(sells, bs, max_sell, pairs, n - 1, d);
        lemma_outer_sales(sells, bs, max_sell, pairs, n - 1);
        lemma_outer_safe_prefix(sells, bs, max_sell, pairs, n - 1, n);
        lemma_outer_len(sells, bs, max_sell, pairs, n - 1);
        let (bs1, m1, out1) = outer_scan(sells, bs, max_sell, pairs, n - 1);
        let s = sells[n - 1];
        lemma_inner_value(s, bs1, m1, pairs, bs1.len() as int);
        let out2 = inner_scan(s, bs1, m1, pairs, bs1.len() as int).3;
        lemma_out_concat(out1, out2);
        let msgs2 = out_msgs(out2);
        assert forall|i: int| 0 <= i < msgs2.len() implies (#[trigger] msgs2[i]).denom@ == s.target.denom@ by {
            assert(msgs2[i] == out2[i].0);
        }
        lemma_value_sold_one_denom(msgs2, out_sales(out2), s.target.denom@, d);
        lemma_value_sold_concat(out_msgs(out1), out_sales(out1), msgs2, out_sales(out2), d);
    }
}

proof fn lemma_value_to_trade_update(hs: Seq<TargetHelper>, k: int, x: TargetHelper, d: Seq<char>, n: int)
    requires
        0 <= k < hs.len(),
        0 <= n <= hs.len(),
        x.target == hs[k].target,
    ensures
        value_to_trade_of(hs.update(k, x), d, n) == value_to_trade_of(hs, d, n) + if k < n && hs[k].target.denom@
            == d {
            x.value_to_trade.atomics - hs[k].value_to_trade.atomics
        } else {
            0
        },
    decreases n,
{
    let u = hs.update(k, x);
    if n > 0 {
        assert(u[n - 1] == if n - 1 == k { x } else { hs[n - 1] });
        lemma_value_to_trade_update(hs, k, x, d, n - 1);
    }
}

/// Over all the messages of a cycle, no denomination is sold for more than
/// the controller wants sold of it; the one exception is the step before
/// matching, whose auction minimum may exceed the first sold token's value to
/// trade, by that difference at most (the token then sells nothing more).
pub proof fn lemma_sold_within_value_to_trade(
    has_min: bool,
    sells: Seq<TargetHelper>,
    bs: Seq<TargetHelper>,
    max_sell: int,
    pairs: Seq<(Pair, String)>,
    d: Seq<char>,
)
    requires
        0 <= max_sell,
        trades_safe(has_min, sells, bs, max_sell, pairs),
    ensures
        value_sold_of(
            trades_result(has_min, sells, bs, max_sell, pairs).0,
            trades_sales(has_min, sells, bs, max_sell, pairs),
            d,
        ) <= value_to_trade_of(sells, d, sells.len() as int) + if forced_min_sale(has_min, sells, bs, pairs)
            && sells[0].target.denom@ == d && sells[0].value_to_trade.atomics
            < sells[0].auction_min_send_value.atomics {
            sells[0].auction_min_send_value.atomics - sells[0].value_to_trade.atomics
        } else {
            0
        },
{
    let (sells1, bs1, max1, pre) = pre_trade(has_min, sells, bs, max_sell, pairs);
    assert(sells1.len() == sells.len());
    assert(0 <= max1);
    lemma_outer_value(sells1, bs1, max1, pairs, sells1.len() as int, d);
    let out = outer_scan(sells1, bs1, max1, pairs, sells1.len() as int).2;
    let first_msgs: Seq<AuctionFundsMsg> = match pre {
        Some(m) => seq![m],
        None => Seq::empty(),
    };
    let first_sales: Seq<(int, int)> = match pre {
        Some(_) => seq![(sells[0].auction_min_send_value.atomics as int, sells[0].price.atomics as int)],
        None => Seq::empty(),
    };
    assert(out_msgs(out).len() == out_sales(out).len());
    lemma_value_sold_concat(first_msgs, first_sales, out_msgs(out), out_sales(out), d);
    if pre_step_applies(has_min, sells, bs) {
        let s = sells[0];
        let sv = s.value_to_trade.atomics as int;
        let ms = s.auction_min_send_value.atomics as int;
        let s2 = if sv < ms { with_vtt(s, 0) } else { with_vtt(s, sv - ms) };
        assert(sells1 == sells.update(0, s2));
        lemma_value_to_trade_update(sells, 0, s2, d, sells.len() as int);
        if let Some(m) = pre {
            assert(m.denom == s.target.denom);
            assert(first_msgs.drop_last().len() == 0);
            assert(first_msgs.last() == m);
            assert(first_sales.last().0 == ms);
            assert(value_sold_of(first_msgs.drop_last(), first_sales.drop_last(), d) == 0);
            assert(value_sold_of(first_msgs, first_sales, d) == if s.target.denom@ == d { ms } else { 0 });
        } else {
            assert(value_sold_of(first_msgs, first_sales, d) == 0);
        }
    } else {
        assert(pre is None && sells1 == sells);
        assert(value_sold_of(first_msgs, first_sales, d) == 0);
    }
}

/// The value bought of the denomination `d` by a list of trades, given the
/// value each one sells (in the same order).
pub open spec fn value_bought_of(trades: Seq<RebalanceTrade>, sales: Seq<(int, int)>, d: Seq<char>) -> int
    decreases trades.len(),
{
    if trades.len() == 0 || sales.len() == 0 {
        0
    } else {
        value_bought_of(trades.drop_last(), sales.drop_last(), d) + if trades.last().pair.1@ == d {
            sales.last().0
        } else {
            0
        }
    }
}

proof fn lemma_value_to_trade_nonneg(hs: Seq<TargetHelper>, d: Seq<char>, n: int)
    ensures
        value_to_trade_of(hs, d, n) >= 0,
    decreases n,
{
    if n > 0 {
        lemma_value_to_trade_nonneg(hs, d, n - 1);
    }
}

proof fn lemma_value_bought_concat(t1: Seq<RebalanceTrade>, s1: Seq<(int, int)>, t2: Seq<RebalanceTrade>, s2: Seq<(int, int)>, d: Seq<char>)
    requires
        t1.len() == s1.len(),
        t2.len() == s2.len(),
    ensures
        value_bought_of(t1 + t2, s1 + s2, d) == value_bought_of(t1, s1, d) + value_bought_of(t2, s2, d),
    decreases t2.len(),
{
    if t2.len() == 0 {
        assert(t1 + t2 =~= t1);
        assert(s1 + s2 =~= s1);
    } else {
        lemma_value_bought_concat(t1, s1, t2.drop_last(), s2.drop_last(), d);
        assert((t1 + t2).drop_last() =~= t1 + t2.drop_last());
        assert((s1 + s2).drop_last() =~= s1 + s2.drop_last());
    }
}

/// A step buys no more than what the bought token's value to trade loses,
/// and its trade buys that token.
proof fn lemma_step_bought(s: TargetHelper, b: TargetHelper, max_sell: int, pairs: Seq<(Pair, String)>)
    requires
        0 <= max_sell,
        step_safe(s, b, max_sell),
    ensures
        ({
            let (_, b2, _, o) = trade_step(s, b, max_sell, pairs);
            &&& b2.target == b.target
            &&& b2.value_to_trade.atomics + (match o { Some(x) => x.2, None => 0 }) <= b.value_to_trade.atomics
            &&& o matches Some(x) ==> x.1.pair.1 == b.target.denom
        }),
{
    lemma_step_facts(s, b, max_sell, pairs);
}

/// Against the first `n` bought tokens, a sold token buys of each denomination
/// no more than the bought tokens' values to trade lose.
proof fn lemma_inner_bought(s: TargetHelper, bs: Seq<TargetHelper>, max_sell: int, pairs: Seq<(Pair, String)>, n: int, d: Seq<char>)
    requires
        0 <= n <= bs.len(),
        0 <= max_sell,
        inner_safe(s, bs, max_sell, pairs, n),
    ensures
        ({
            let (_, bsn, _, out) = inner_scan(s, bs, max_sell, pairs, n);
            value_bought_of(out_trades(out), out_sales(out), d) + value_to_trade_of(bsn, d, bs.len() as int)
                <= value_to_trade_of(bs, d, bs.len() as int)
        }),
    decreases n,
{
    if n > 0 {
        lemma_inner_bought(s, bs, max_sell, pairs, n - 1, d);
        lemma_inner_sales(s, bs, max_sell, pairs, n - 1);
        lemma_inner_len(s, bs, max_sell, pairs, n - 1);
        let (s1, bs1, m1, out1) = inner_scan(s, bs, max_sell, pairs, n - 1);
        lemma_step_bought(s1, bs1[n - 1], m1, pairs);
        let (s2, b2, m2, o) = trade_step(s1, bs1[n - 1], m1, pairs);
        lemma_value_to_trade_update(bs1, n - 1, b2, d, bs.len() as int);
        if let Some(x) = o {
            lemma_out_push(out1, x);
            let t1 = out_trades(out1);
            let sl1 = out_sales(out1);
            assert(t1.push(x.1).drop_last() =~= t1);
            assert(sl1.push((x.2, x.3)).drop_last() =~= sl1);
        }
    }
}

/// Over the first `n` sold tokens, the trades buy of each denomination no
/// more than the bought tokens' values to trade lose.
proof fn lemma_outer_bought(sells: Seq<TargetHelper>, bs: Seq<TargetHelper>, max_sell: int, pairs: Seq<(Pair, String)>, n: int, d: Seq<char>)
    requires
        0 <= n <= sells.len(),
        0 <= max_sell,
        outer_safe(sells, bs, max_sell, pairs, n),
    ensures
        ({
            let (bsn, _, out) = outer_scan(sells, bs, max_sell, pairs, n);
            value_bought_of(out_trades(out), out_sales(out), d) + value_to_trade_of(bsn, d, bs.len() as int)
                <= value_to_trade_of(bs, d, bs.len() as int)
        }),
    decreases n,
{
    if n > 0 {
        lemma_outer_bought(sells, bs, max_sell, pairs, n - 1, d);
        lemma_outer_sales(sells, bs, max_sell, pairs, n - 1);
        lemma_outer_safe_prefix(sells, bs, max_sell, pairs, n - 1, n);
        lemma_outer_len(sells, bs, max_sell, pairs, n - 1);
        let (bs1, m1, out1) = outer_scan(sells, bs, max_sell, pairs, n - 1);
        lemma_inner_bought(sells[n - 1], bs1, m1, pairs, bs1.len() as int, d);
        let out2 = inner_scan(sells[n - 1], bs1, m1, pairs, bs1.len() as int).3;
        lemma_out_concat(out1, out2);
        lemma_value_bought_concat(out_trades(out1), out_sales(out1), out_trades(out2), out_sales(out2), d);
    }
}

/// The matched trades of a cycle buy no denomination for more than the
/// controller wants bought of it; a token with a minimum balance that the step
/// before matching bought at an auction minimum is not bought again.
pub proof fn lemma_bought_within_value_to_trade(
    has_min: bool,
    sells: Seq<TargetHelper>,
    bs: Seq<TargetHelper>,
    max_sell: int,
    pairs: Seq<(Pair, String)>,
    d: Seq<char>,
)
    requires
        0 <= max_sell,
        trades_safe(has_min, sells, bs, max_sell, pairs),
    ensures
        ({
            let trades = trades_result(has_min, sells, bs, max_sell, pairs).1;
            let sales = trades_sales(has_min, sells, bs, max_sell, pairs);
            value_bought_of(trades, sales.skip(sales.len() - trades.len()), d) <= value_to_trade_of(
                bs,
                d,
                bs.len() as int,
            ) - if pre_step_applies(has_min, sells, bs) && bs[first_min_buy(
                bs,
                bs.len() as int,
            )->Some_0].target.denom@ == d {
                bs[first_min_buy(bs, bs.len() as int)->Some_0].value_to_trade.atomics as int
            } else {
                0
            }
        }),
{
    let (sells1, bs1, max1, pre) = pre_trade(has_min, sells, bs, max_sell, pairs);
    assert(sells1.len() == sells.len());
    lemma_outer_bought(sells1, bs1, max1, pairs, sells1.len() as int, d);
    let (bsn, _, out) = outer_scan(sells1, bs1, max1, pairs, sells1.len() as int);
    lemma_outer_len(sells1, bs1, max1, pairs, sells1.len() as int);
    lemma_value_to_trade_nonneg(bsn, d, bs.len() as int);
    let first_sales: Seq<(int, int)> = match pre {
        Some(_) => seq![(sells[0].auction_min_send_value.atomics as int, sells[0].price.atomics as int)],
        None => Seq::empty(),
    };
    let sales = trades_sales(has_min, sells, bs, max_sell, pairs);
    assert(sales == first_sales + out_sales(out));
    assert(sales.skip(sales.len() - out_trades(out).len()) =~= out_sales(out));
    if pre_step_applies(has_min, sells, bs) {
        let bi = first_min_buy(bs, bs.len() as int)->Some_0;
        lemma_min_buy_index(bs, bs.len() as int);
        assert(bs1 == bs.update(bi, with_vtt(bs[bi], 0)));
        lemma_value_to_trade_update(bs, bi, with_vtt(bs[bi], 0), d, bs.len() as int);
    } else {
        assert(bs1 == bs);
    }
}

} // verus!
