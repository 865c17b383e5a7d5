//! The auctions manager's rules: who may open auctions, what a new auction
//! needs, and the migration of its stored minimum amounts.
use vstd::prelude::*;
use crate::auction::NewAuctionParams;
use crate::auction_package::{AuctionError, MinAmount};
use crate::chain::Pair;

verus! {

/// Messages the auctions manager accepts from the server that runs auctions.
#[derive(Clone, Debug, PartialEq, Eq)]
pub enum ServerMsgs {
    /// Open the next auction of a pair.
    OpenAuction { pair: Pair, params: NewAuctionParams },
}

/// The auctions manager's migrations.
#[derive(Clone, Copy, Debug, PartialEq, Eq, Structural)]
pub enum MigrateMsg {
    NoStateChange,
    ToV1,
}

/// Errors of the auctions manager.
#[derive(Clone, Debug, PartialEq, Eq)]
pub enum ContractError {
    Std(String),
    AuctionError(AuctionError),
    UnknownReplyId(u64),
    OracleAddrMissing,
    /// No minimum amount is set for the denomination.
    MustSetMinAuctionAmount(String),
    NotServer,
    NotAdmin,
    NoAdminChangeData,
    NotNewAdmin,
    AdminChangeExpired,
}

/// Only the server may open auctions.
pub fn verify_server(server: &String, sender: &String) -> (r: Result<(), ContractError>)
    ensures
        r is Ok <==> server@ == sender@,
        r is Err ==> r == Err::<(), ContractError>(ContractError::NotServer),
{
    if *server == *sender {
        Ok(())
    } else {
        Err(ContractError::NotServer)
    }
}

/// Checks a new auction: its pair must trade two denominations, and a minimum
/// amount for the sold denomination must be given or already stored. Returns
/// the minimum amount to store, if one was given.
pub fn check_new_auction(pair: &Pair, min_amount: Option<MinAmount>, stored: Option<MinAmount>) -> (r: Result<
    Option<MinAmount>,
    ContractError,
>)
    ensures
        pair.0@ == pair.1@ ==> r == Err::<Option<MinAmount>, ContractError>(
            ContractError::AuctionError(AuctionError::InvalidPair),
        ),
        pair.0@ != pair.1@ && min_amount is Some ==> r == Ok::<Option<MinAmount>, ContractError>(min_amount),
        pair.0@ != pair.1@ && min_amount is None && stored is Some ==> r == Ok::<
            Option<MinAmount>,
            ContractError,
        >(None),
        pair.0@ != pair.1@ && min_amount is None && stored is None ==> r == Err::<
            Option<MinAmount>,
            ContractError,
        >(ContractError::MustSetMinAuctionAmount(pair.0)),
{
    if pair.verify().is_err() {
        return Err(ContractError::AuctionError(AuctionError::InvalidPair));
    }
    match min_amount {
        Some(m) => Ok(Some(m)),
        None => match stored {
            Some(_) => Ok(None),
            None => Err(ContractError::MustSetMinAuctionAmount(pair.0.clone())),
        },
    }
}

/// The first migration: each denomination's single minimum amount becomes
/// both its minimum to send and its minimum to start an auction.
pub fn migrate_min_amounts(old: &Vec<(String, u128)>) -> (r: Vec<(String, MinAmount)>)
    ensures
        r.len() == old.len(),
        forall|i: int|
            0 <= i < old.len() ==> (#[trigger] r@[i]).0 == old@[i].0 && r@[i].1 == (MinAmount {
                send: old@[i].1,
                start_auction: old@[i].1,
            }),
{
    let mut out: Vec<(String, MinAmount)> = Vec::new();
    let mut k: usize = 0;
    while k < old.len()
        invariant
            0 <= k <= old.len(),
            out.len() == k,
            forall|i: int|
                0 <= i < k ==> (#[trigger] out@[i]).0 == old@[i].0 && out@[i].1 == (MinAmount {
                    send: old@[i].1,
                    start_auction: old@[i].1,
                }),
        decreases old.len() - k,
    {
        let amount = old[k].1;
        out.push((old[k].0.clone(), MinAmount { send: amount, start_auction: amount }));
        k = k + 1;
    }
    out
}

} // verus!
