//! Types shared by the auctions, the auctions manager and the price oracle.
use vstd::prelude::*;
use crate::chain::{Pair, Timestamp};
use crate::decimal::Decimal;

verus! {

/// 0.9999 in basis points: the closest to one that rounding tolerates.
pub const CLOSEST_TO_ONE_POSSIBLE: u64 = 9999;

/// Errors shared by the auction contracts.
#[derive(Clone, Debug, PartialEq, Eq)]
pub enum AuctionError {
    DecimalRangeExceeded,
    InvalidPair,
    NotAdmin,
    NoAdminChangeData,
    NotNewAdmin,
    AdminChangeExpired,
    InvalidAuctionStrategyStartPrice,
    InvalidAuctionStrategyEndPrice,
}

/// How far above and below the oracle price an auction starts and ends, in
/// basis points.
#[derive(Clone, Copy, Debug, PartialEq, Eq, Structural)]
pub struct AuctionStrategy {
    pub start_price_perc: u64,
    pub end_price_perc: u64,
}

impl AuctionStrategy {
    /// The start percentage must be positive; the end percentage must lie
    /// strictly between 0 and 10000 basis points.
    pub fn verify(&self) -> (r: Result<(), AuctionError>)
        ensures
            self.start_price_perc == 0 ==> r == Err::<(), AuctionError>(
                AuctionError::InvalidAuctionStrategyStartPrice,
            ),
            self.start_price_perc != 0 && (self.end_price_perc == 0 || self.end_price_perc
                >= 10000) ==> r == Err::<(), AuctionError>(
                AuctionError::InvalidAuctionStrategyEndPrice,
            ),
            self.start_price_perc != 0 && 0 < self.end_price_perc < 10000 ==> r is Ok,
    {
        if self.start_price_perc == 0 {
            return Err(AuctionError::InvalidAuctionStrategyStartPrice);
        }
        if self.end_price_perc == 0 || self.end_price_perc >= 10000 {
            return Err(AuctionError::InvalidAuctionStrategyEndPrice);
        }
        Ok(())
    }
}

/// How long a gap between blocks the auction tolerates before it considers the
/// chain halted.
#[derive(Clone, Copy, Debug, PartialEq, Eq, Structural)]
pub struct ChainHaltConfig {
    /// Seconds of delay accepted beyond the expected block time.
    pub cap: u128,
    /// Average seconds per block.
    pub block_avg: Decimal,
}

/// Multipliers applied to the auction's price range when the oracle price is
/// old: `(days, multiplier)`, sorted by days in descending order.
#[derive(Clone, Debug, PartialEq, Eq)]
pub struct PriceFreshnessStrategy {
    /// Age in days beyond which a price is refused.
    pub limit: Decimal,
    pub multipliers: Vec<(Decimal, Decimal)>,
}

/// A price and when it was set.
#[derive(Clone, Copy, Debug, PartialEq, Eq, Structural)]
pub struct Price {
    pub price: Decimal,
    pub time: Timestamp,
}

/// The minimum amounts an auction accepts: per deposit, and in total to start.
#[derive(Clone, Copy, Debug, PartialEq, Eq, Structural)]
pub struct MinAmount {
    pub send: u128,
    pub start_auction: u128,
}

/// The configuration of one auction.
#[derive(Clone, Debug, PartialEq, Eq)]
pub struct AuctionConfig {
    pub is_paused: bool,
    pub pair: Pair,
    pub chain_halt_config: ChainHaltConfig,
    pub price_freshness_strategy: PriceFreshnessStrategy,
}

/// The multipliers are sorted by age threshold, largest first.
pub open spec fn sorted_desc(m: Seq<(Decimal, Decimal)>) -> bool {
    forall|i: int, j: int| 0 <= i < j < m.len() ==> (#[trigger] m[i]).0.atomics >= (#[trigger] m[j]).0.atomics
}

/// Whether a multiplier has the age threshold `a`.
pub open spec fn threshold_is(a: u128) -> spec_fn((Decimal, Decimal)) -> bool {
    |e: (Decimal, Decimal)| e.0.atomics == a
}

/// The multipliers with age threshold `a`, in their order.
pub open spec fn with_threshold(m: Seq<(Decimal, Decimal)>, a: u128) -> Seq<(Decimal, Decimal)> {
    m.filter(threshold_is(a))
}

/// Inserting `x` after every multiplier whose threshold is at least its own
/// puts it last among those of its threshold and moves no other.
proof fn lemma_threshold_after_insert(before: Seq<(Decimal, Decimal)>, p: int, x: (Decimal, Decimal), a: u128)
    requires
        0 <= p <= before.len(),
        sorted_desc(before),
        p < before.len() ==> before[p].0.atomics < x.0.atomics,
    ensures
        with_threshold(before.insert(p, x), a) == if x.0.atomics == a {
            with_threshold(before, a).push(x)
        } else {
            with_threshold(before, a)
        },
{
    let pred = threshold_is(a);
    let t = before.take(p);
    let d = before.skip(p);
    assert(before.insert(p, x) =~= t.push(x) + d);
    assert(before =~= t + d);
    Seq::filter_distributes_over_add(t.push(x), d, pred);
    Seq::filter_distributes_over_add(t, d, pred);
    t.lemma_filter_push(x, pred);
    if x.0.atomics == a {
        assert forall|i: int| 0 <= i < d.len() implies !pred(#[trigger] d[i]) by {
            assert(d[i] == before[p + i]);
            if i > 0 {
                assert(before[p].0.atomics >= before[p + i].0.atomics);
            }
        }
        d.lemma_all_neg_filter_empty(pred);
        assert(d.filter(pred) =~= Seq::<(Decimal, Decimal)>::empty());
        assert(t.filter(pred).push(x) + d.filter(pred) =~= t.filter(pred).push(x));
        assert(t.filter(pred) + d.filter(pred) =~= t.filter(pred));
    }
}

/// Sorts the freshness multipliers by age threshold, largest first, keeping
/// the order of equal thresholds.
pub fn sort_multipliers(multipliers: &Vec<(Decimal, Decimal)>) -> (r: Vec<(Decimal, Decimal)>)
    ensures
        sorted_desc(r@),
        r@.to_multiset() == multipliers@.to_multiset(),
        forall|a: u128| #[trigger] with_threshold(r@, a) == with_threshold(multipliers@, a),
{
    let mut out: Vec<(Decimal, Decimal)> = Vec::new();
    let mut k: usize = 0;
    assert(out@ =~= multipliers@.take(0));
    while k < multipliers.len()
        invariant
            0 <= k <= multipliers.len(),
            sorted_desc(out@),
            out@.to_multiset() == multipliers@.take(k as int).to_multiset(),
            forall|a: u128| #[trigger] with_threshold(out@, a) == with_threshold(multipliers@.take(k as int), a),
        decreases multipliers.len() - k,
    {
        let x = multipliers[k];
        let mut p: usize = 0;
        while p < out.len() && out[p].0.atomics >= x.0.atomics
            invariant
                0 <= p <= out.len(),
                forall|i: int| 0 <= i < p ==> (#[trigger] out@[i]).0.atomics >= x.0.atomics,
            decreases out.len() - p,
        {
            p = p + 1;
        }
        let ghost before = out@;
        out.insert(p, x);
        proof {
            assert(out@ == before.insert(p as int, x));
            assert forall|i: int, j: int| 0 <= i < j < out@.len() implies (#[trigger] out@[i]).0.atomics
                >= (#[trigger] out@[j]).0.atomics by {
                if j < p {
                    assert(out@[i] == before[i] && out@[j] == before[j]);
                } else if j == p {
                    assert(out@[i] == before[i]);
                } else if i == p {
                    assert(out@[j] == before[j - 1]);
                    if p < before.len() {
                        assert(before[p as int].0.atomics < x.0.atomics);
                        if j - 1 > p {
                            assert(before[p as int].0.atomics >= before[j - 1].0.atomics);
                        }
                    }
                } else if i < p {
                    assert(out@[i] == before[i] && out@[j] == before[j - 1]);
                    assert(before[i].0.atomics >= x.0.atomics);
                    if p < before.len() {
                        assert(before[p as int].0.atomics < x.0.atomics);
                    }
                } else {
                    assert(out@[i] == before[i - 1] && out@[j] == before[j - 1]);
                }
            }
            assert(multipliers@.take(k as int + 1) == multipliers@.take(k as int).push(x));
            vstd::seq_lib::to_multiset_insert(before, p as int, x);
            vstd::seq_lib::to_multiset_build(multipliers@.take(k as int), x);
            assert forall|a: u128| #[trigger] with_threshold(out@, a) == with_threshold(multipliers@.take(k as int + 1), a) by {
                lemma_threshold_after_insert(before, p as int, x, a);
                multipliers@.take(k as int).lemma_filter_push(x, threshold_is(a));
            }
        }
        k = k + 1;
    }
    proof {
        assert(multipliers@.take(multipliers.len() as int) == multipliers@);
    }
    out
}

} // verus!
