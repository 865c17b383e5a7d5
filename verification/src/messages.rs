//! The messages exchanged between accounts, the services manager, the services
//! and the auctions manager. Message bodies that the chain carries as bytes are
//! `Vec<u8>`; the messages an account executes are `AccountMsg`.
use vstd::prelude::*;
use crate::admin::Expiration;
use crate::chain::Pair;
use crate::services::{AccountMsg, ValenceServices};

verus! {

/// What a service fee is asked for.
#[derive(Clone, Copy, Debug, PartialEq, Eq, Structural)]
pub enum QueryFeeAction {
    Register,
    Resume,
}

/// Messages an account accepts: from its admin (through the services
/// manager) and from the services it is registered to.
#[derive(Clone, Debug, PartialEq, Eq)]
pub enum AccountBaseExecuteMsg {
    /// Register the account to a service.
    RegisterToService { service_name: ValenceServices, data: Option<Vec<u8>> },
    /// Deregister the account from a service.
    DeregisterFromService { service_name: ValenceServices },
    /// Update the account's configuration of a service.
    UpdateService { service_name: ValenceServices, data: Vec<u8> },
    /// Pause a service for the account.
    PauseService { service_name: ValenceServices, reason: Option<String> },
    /// Resume a service for the account.
    ResumeService { service_name: ValenceServices },
    /// Messages that send funds, executed on behalf of a service.
    SendFundsByService { msgs: Vec<AccountMsg>, atomic: bool },
    /// Messages that send no funds, executed on behalf of a service.
    ExecuteByService { msgs: Vec<AccountMsg>, atomic: bool },
    /// Messages executed for the admin.
    ExecuteByAdmin { msgs: Vec<AccountMsg> },
    StartAdminChange { addr: String, expiration: Expiration },
    CancelAdminChange,
    ApproveAdminChange,
}

/// Admin messages of the services manager.
#[derive(Clone, Debug, PartialEq, Eq)]
pub enum ServicesManagerAdminMsg {
    AddService { name: ValenceServices, addr: String },
    UpdateService { name: ValenceServices, addr: String },
    RemoveService { name: ValenceServices },
    UpdateCodeIdWhitelist { to_add: Vec<u64>, to_remove: Vec<u64> },
    StartAdminChange { addr: String, expiration: Expiration },
    CancelAdminChange,
    Withdraw { denom: String },
}

/// Messages the services manager accepts from accounts and its admin.
#[derive(Clone, Debug, PartialEq, Eq)]
pub enum ServicesManagerExecuteMsg {
    RegisterToService { service_name: ValenceServices, data: Option<Vec<u8>> },
    DeregisterFromService { service_name: ValenceServices },
    UpdateService { service_name: ValenceServices, data: Vec<u8> },
    /// Pause a service for `pause_for`: callable by the account or its trustee.
    PauseService { service_name: ValenceServices, pause_for: String, reason: Option<String> },
    /// Resume a service for `resume_for`: callable by the account or its trustee.
    ResumeService { service_name: ValenceServices, resume_for: String },
    ApproveAdminChange,
    Admin(ServicesManagerAdminMsg),
}

/// Queries of the services manager.
#[derive(Clone, Debug, PartialEq, Eq)]
pub enum ServicesManagerQueryMsg {
    /// The service `addr` is, if it is one.
    IsService { addr: String },
    GetServiceAddr { service: ValenceServices },
    GetAdmin,
    GetAllServices { start_from: Option<String>, limit: Option<u64> },
    GetServiceFee { account: String, service: ValenceServices, action: QueryFeeAction },
    GetRebalancerConfig { account: String },
}

/// Messages every service accepts from the services manager; `A` is the
/// registration data and `B` the update data of the service.
#[derive(Clone, Debug, PartialEq, Eq)]
pub enum GeneralServiceExecuteMsg<A, B> {
    Register { register_for: String, data: Option<A> },
    Deregister { deregister_for: String },
    Update { update_for: String, data: B },
    Pause { pause_for: String, sender: String, reason: Option<String> },
    Resume { resume_for: String, sender: String },
}

/// Queries of the auctions manager.
#[derive(Clone, Debug, PartialEq, Eq)]
pub enum AuctionsManagerQueryMsg {
    GetPrice { pair: Pair },
    GetConfig { pair: Pair },
    GetPairAddr { pair: Pair },
    GetOracleAddr,
    GetMinLimit { denom: String },
    GetAdmin,
}

/// The account contract's queries.
#[derive(Clone, Copy, Debug, PartialEq, Eq, Structural)]
pub enum QueryMsg {
    GetAdmin,
}

/// The account contract's migrations.
#[derive(Clone, Copy, Debug, PartialEq, Eq, Structural)]
pub enum MigrateMsg {
    NoStateChange,
}

} // verus!
