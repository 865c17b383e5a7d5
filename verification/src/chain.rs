//! Plain values that the contracts read from the chain: time, blocks, coins and
//! trading pairs.
use vstd::prelude::*;

verus! {

pub const NANOS_PER_SECOND: u64 = 1_000_000_000u64;

pub const SECONDS_PER_DAY: u64 = 86_400u64;

/// A point in time, in nanoseconds since the epoch.
#[derive(Clone, Copy, Debug, PartialEq, Eq, Structural)]
pub struct Timestamp {
    pub nanos: u64,
}

impl Timestamp {
    pub open spec fn spec_seconds(self) -> int {
        self.nanos as int / NANOS_PER_SECOND as int
    }

    pub fn from_nanos(nanos: u64) -> (r: Timestamp)
        ensures
            r.nanos == nanos,
    {
        Timestamp { nanos }
    }

    pub fn from_seconds(seconds: u64) -> (r: Timestamp)
        requires
            seconds as int * NANOS_PER_SECOND as int <= u64::MAX,
        ensures
            r.nanos == seconds as int * NANOS_PER_SECOND as int,
    {
        Timestamp { nanos: seconds * NANOS_PER_SECOND }
    }

    /// Whole seconds since the epoch.
    pub fn seconds(&self) -> (r: u64)
        ensures
            r == self.spec_seconds(),
    {
        self.nanos / NANOS_PER_SECOND
    }

    pub fn plus_seconds(&self, s: u64) -> (r: Timestamp)
        requires
            self.nanos as int + s as int * NANOS_PER_SECOND as int <= u64::MAX,
        ensures
            r.nanos == self.nanos as int + s as int * NANOS_PER_SECOND as int,
    {
        assert(s as int * NANOS_PER_SECOND as int <= u64::MAX);
        Timestamp { nanos: self.nanos + s * NANOS_PER_SECOND }
    }

    pub fn minus_seconds(&self, s: u64) -> (r: Timestamp)
        requires
            s as int * NANOS_PER_SECOND as int <= self.nanos,
        ensures
            r.nanos == self.nanos as int - s as int * NANOS_PER_SECOND as int,
    {
        Timestamp { nanos: self.nanos - s * NANOS_PER_SECOND }
    }
}

/// The block a message is executed in.
#[derive(Clone, Debug, PartialEq, Eq)]
pub struct BlockInfo {
    pub height: u64,
    pub time: Timestamp,
    pub chain_id: String,
}

/// An amount of one denomination.
#[derive(Clone, Debug, PartialEq, Eq)]
pub struct Coin {
    pub denom: String,
    pub amount: u128,
}

/// A trading pair: the denomination sold and the denomination bought.
#[derive(Clone, Debug, PartialEq, Eq)]
pub struct Pair(pub String, pub String);

/// Error for a pair whose two sides are the same denomination.
#[derive(Clone, Copy, Debug, PartialEq, Eq, Structural)]
pub struct InvalidPair;

impl Pair {
    /// A pair must trade two different denominations.
    pub fn verify(&self) -> (r: Result<(), InvalidPair>)
        ensures
            r is Ok <==> self.0@ != self.1@,
    {
        if self.0 == self.1 {
            Err(InvalidPair)
        } else {
            Ok(())
        }
    }
}

} // verus!
