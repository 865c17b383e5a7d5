//! Verified core logic of the Valence services: fixed-point arithmetic, auction
//! pricing and settlement, the price oracle's rules, and the rebalancer.
use vstd::prelude::*;

pub mod admin;
pub mod auction;
pub mod auction_package;
pub mod auctions_manager;
pub mod chain;
pub mod decimal;
pub mod events;
pub mod fixed_i128;
pub mod messages;
pub mod price_oracle;
pub mod rebalance;
pub mod rebalance_cycle;
pub mod rebalancer;
pub mod rebalancer_accounts;
pub mod rebalancer_admin;
pub mod services;
pub mod signed_decimal;
pub mod target_override;
pub mod trades;

verus! {

} // verus!
