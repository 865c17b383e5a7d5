//! The names under which the contracts' events are indexed: one per kind of
//! event, in kebab case.
use vstd::prelude::*;

verus! {

/// The kinds of events the contracts emit.
#[derive(Clone, Copy, Debug, PartialEq, Eq, Structural)]
pub enum ValenceEventKind {
    AccountCreation,
    AccountRegisterService,
    AccountUpdateService,
    AccountDeregisterService,
    AccountPauseService,
    AccountResumeService,
    AccountSendFundsByService,
    AccountExecuteByService,
    AccountExecuteByAdmin,
    AccountStartAdminChange,
    AccountCancelAdminChange,
    AccountApproveAdminChange,
    OracleUpdatePrice,
    OracleAddPath,
    OracleUpdatePath,
    OracleUpdateConfig,
    OracleStartAdminChange,
    OracleCancelAdminChange,
    OracleApproveAdminChange,
    AuctionManagerUpdateAuctionCodeId,
    AuctionManagerUpdateOracle,
    AuctionManagerMigrateAuction,
    AuctionManagerUpdateMinAmount,
    AuctionManagerStartAdminChange,
    AuctionManagerChangeServerAddr,
    AuctionManagerCancelAdminChange,
    AuctionManagerApproveAdminChange,
    AuctionInit,
    AuctionAuctionFunds,
    AuctionWithdrawFunds,
    AuctionDoBid,
    AuctionPause,
    AuctionResume,
    AuctionUpdateStrategy,
    AuctionUpdateChainHaltConfig,
    AuctionUpdatePriceFreshnessStrategy,
    AuctionOpen,
    AuctionOpenRefund,
    AuctionClose,
    ServicesManagerAddService,
    ServicesManagerUpdateService,
    ServicesManagerRemoveService,
    ServicesManagerUpdateCodeIdWhitelist,
    ServicesManagerWithdraw,
    ServicesManagerStartAdminChange,
    ServicesManagerCancelAdminChange,
    ServicesManagerApproveAdminChange,
    RebalancerRegister,
    RebalancerDeregister,
    RebalancerUpdate,
    RebalancerPause,
    RebalancerResume,
    RebalancerUpdateSystemStatus,
    RebalancerUpdateDenomWhitelist,
    RebalancerUpdateBaseDenomWhitelist,
    RebalancerUpdateServicesManager,
    RebalancerUpdateAuctionsManager,
    RebalancerUpdateCyclePeriod,
    RebalancerUpdateFees,
    RebalancerStartAdminChange,
    RebalancerCancelAdminChange,
    RebalancerApproveAdminChange,
    RebalancerCycle,
    RebalancerAccountRebalance,
    RebalancerAccountRebalancePause,
}

/// The indexed name of an event kind.
pub open spec fn event_name_spec(kind: ValenceEventKind) -> Seq<char> {
    match kind {
        ValenceEventKind::AccountCreation => "account-creation"@,
        ValenceEventKind::AccountRegisterService => "account-register-service"@,
        ValenceEventKind::AccountUpdateService => "account-update-service"@,
        ValenceEventKind::AccountDeregisterService => "account-deregister-service"@,
        ValenceEventKind::AccountPauseService => "account-pause-service"@,
        ValenceEventKind::AccountResumeService => "account-resume-service"@,
        ValenceEventKind::AccountSendFundsByService => "account-send-funds-by-service"@,
        ValenceEventKind::AccountExecuteByService => "account-execute-by-service"@,
        ValenceEventKind::AccountExecuteByAdmin => "account-execute-by-admin"@,
        ValenceEventKind::AccountStartAdminChange => "account-start-admin-change"@,
        ValenceEventKind::AccountCancelAdminChange => "account-cancel-admin-change"@,
        ValenceEventKind::AccountApproveAdminChange => "account-approve-admin-change"@,
        ValenceEventKind::OracleUpdatePrice => "oracle-update-price"@,
        ValenceEventKind::OracleAddPath => "oracle-add-path"@,
        ValenceEventKind::OracleUpdatePath => "oracle-update-path"@,
        ValenceEventKind::OracleUpdateConfig => "oracle-update-config"@,
        ValenceEventKind::OracleStartAdminChange => "oracle-start-admin-change"@,
        ValenceEventKind::OracleCancelAdminChange => "oracle-cancel-admin-change"@,
        ValenceEventKind::OracleApproveAdminChange => "oracle-approve-admin-change"@,
        ValenceEventKind::AuctionManagerUpdateAuctionCodeId => "auction-manager-update-auction-code-id"@,
        ValenceEventKind::AuctionManagerUpdateOracle => "auction-manager-update-oracle"@,
        ValenceEventKind::AuctionManagerMigrateAuction => "auction-manager-migrate-auction"@,
        ValenceEventKind::AuctionManagerUpdateMinAmount => "auction-manager-update-min-amount"@,
        ValenceEventKind::AuctionManagerStartAdminChange => "auction-manager-start-admin-change"@,
        ValenceEventKind::AuctionManagerChangeServerAddr => "auction-manager-change-server-addr"@,
        ValenceEventKind::AuctionManagerCancelAdminChange => "auction-manager-cancel-admin-change"@,
        ValenceEventKind::AuctionManagerApproveAdminChange => "auction-manager-approve-admin-change"@,
        ValenceEventKind::AuctionInit => "auction-init"@,
        ValenceEventKind::AuctionAuctionFunds => "auction-auction-funds"@,
        ValenceEventKind::AuctionWithdrawFunds => "auction-withdraw-funds"@,
        ValenceEventKind::AuctionDoBid => "auction-do-bid"@,
        ValenceEventKind::AuctionPause => "auction-pause"@,
        ValenceEventKind::AuctionResume => "auction-resume"@,
        ValenceEventKind::AuctionUpdateStrategy => "auction-update-strategy"@,
        ValenceEventKind::AuctionUpdateChainHaltConfig => "auction-update-chain-halt-config"@,
        ValenceEventKind::AuctionUpdatePriceFreshnessStrategy => "auction-update-price-freshness-strategy"@,
        ValenceEventKind::AuctionOpen => "auction-open"@,
        ValenceEventKind::AuctionOpenRefund => "auction-open-refund"@,
        ValenceEventKind::AuctionClose => "auction-close"@,
        ValenceEventKind::ServicesManagerAddService => "services-manager-add-service"@,
        ValenceEventKind::ServicesManagerUpdateService => "services-manager-update-service"@,
        ValenceEventKind::ServicesManagerRemoveService => "services-manager-remove-service"@,
        ValenceEventKind::ServicesManagerUpdateCodeIdWhitelist => "services-manager-update-code-id-whitelist"@,
        ValenceEventKind::ServicesManagerWithdraw => "services-manager-withdraw"@,
        ValenceEventKind::ServicesManagerStartAdminChange => "services-manager-start-admin-change"@,
        ValenceEventKind::ServicesManagerCancelAdminChange => "services-manager-cancel-admin-change"@,
        ValenceEventKind::ServicesManagerApproveAdminChange => "services-manager-approve-admin-change"@,
        ValenceEventKind::RebalancerRegister => "rebalancer-register"@,
        ValenceEventKind::RebalancerDeregister => "rebalancer-deregister"@,
        ValenceEventKind::RebalancerUpdate => "rebalancer-update"@,
        ValenceEventKind::RebalancerPause => "rebalancer-pause"@,
        ValenceEventKind::RebalancerResume => "rebalancer-resume"@,
        ValenceEventKind::RebalancerUpdateSystemStatus => "rebalancer-update-system-status"@,
        ValenceEventKind::RebalancerUpdateDenomWhitelist => "rebalancer-update-denom-whitelist"@,
        ValenceEventKind::RebalancerUpdateBaseDenomWhitelist => "rebalancer-update-base-denom-whitelist"@,
        ValenceEventKind::RebalancerUpdateServicesManager => "rebalancer-update-services-manager"@,
        ValenceEventKind::RebalancerUpdateAuctionsManager => "rebalancer-update-auctions-manager"@,
        ValenceEventKind::RebalancerUpdateCyclePeriod => "rebalancer-update-cycle-period"@,
        ValenceEventKind::RebalancerUpdateFees => "rebalancer-update-fees"@,
        ValenceEventKind::RebalancerStartAdminChange => "rebalancer-start-admin-change"@,
        ValenceEventKind::RebalancerCancelAdminChange => "rebalancer-cancel-admin-change"@,
        ValenceEventKind::RebalancerApproveAdminChange => "rebalancer-approve-admin-change"@,
        ValenceEventKind::RebalancerCycle => "rebalancer-cycle"@,
        ValenceEventKind::RebalancerAccountRebalance => "rebalancer-account-rebalance"@,
        ValenceEventKind::RebalancerAccountRebalancePause => "rebalancer-account-rebalance-pause"@,
    }
}

impl ValenceEventKind {
    /// The name the event is indexed under; no other kind has it (see
    /// `lemma_event_names_distinct`).
    pub fn event_name(&self) -> (r: String)
        ensures
            r@ == event_name_spec(*self),
            forall|k: ValenceEventKind| #[trigger] event_name_spec(k) == r@ ==> k == *self,
    {
        proof {
            assert forall|k: ValenceEventKind| #[trigger] event_name_spec(k) == event_name_spec(*self) implies k == *self by {
                lemma_event_names_distinct(k, *self);
            }
        }
        match self {
            ValenceEventKind::AccountCreation => "account-creation".to_string(),
            ValenceEventKind::AccountRegisterService => "account-register-service".to_string(),
            ValenceEventKind::AccountUpdateService => "account-update-service".to_string(),
            ValenceEventKind::AccountDeregisterService => "account-deregister-service".to_string(),
            ValenceEventKind::AccountPauseService => "account-pause-service".to_string(),
            ValenceEventKind::AccountResumeService => "account-resume-service".to_string(),
            ValenceEventKind::AccountSendFundsByService => "account-send-funds-by-service".to_string(),
            ValenceEventKind::AccountExecuteByService => "account-execute-by-service".to_string(),
            ValenceEventKind::AccountExecuteByAdmin => "account-execute-by-admin".to_string(),
            ValenceEventKind::AccountStartAdminChange => "account-start-admin-change".to_string(),
            ValenceEventKind::AccountCancelAdminChange => "account-cancel-admin-change".to_string(),
            ValenceEventKind::AccountApproveAdminChange => "account-approve-admin-change".to_string(),
            ValenceEventKind::OracleUpdatePrice => "oracle-update-price".to_string(),
            ValenceEventKind::OracleAddPath => "oracle-add-path".to_string(),
            ValenceEventKind::OracleUpdatePath => "oracle-update-path".to_string(),
            ValenceEventKind::OracleUpdateConfig => "oracle-update-config".to_string(),
            ValenceEventKind::OracleStartAdminChange => "oracle-start-admin-change".to_string(),
            ValenceEventKind::OracleCancelAdminChange => "oracle-cancel-admin-change".to_string(),
            ValenceEventKind::OracleApproveAdminChange => "oracle-approve-admin-change".to_string(),
            ValenceEventKind::AuctionManagerUpdateAuctionCodeId => "auction-manager-update-auction-code-id".to_string(),
            ValenceEventKind::AuctionManagerUpdateOracle => "auction-manager-update-oracle".to_string(),
            ValenceEventKind::AuctionManagerMigrateAuction => "auction-manager-migrate-auction".to_string(),
            ValenceEventKind::AuctionManagerUpdateMinAmount => "auction-manager-update-min-amount".to_string(),
            ValenceEventKind::AuctionManagerStartAdminChange => "auction-manager-start-admin-change".to_string(),
            ValenceEventKind::AuctionManagerChangeServerAddr => "auction-manager-change-server-addr".to_string(),
            ValenceEventKind::AuctionManagerCancelAdminChange => "auction-manager-cancel-admin-change".to_string(),
            ValenceEventKind::AuctionManagerApproveAdminChange => "auction-manager-approve-admin-change".to_string(),
            ValenceEventKind::AuctionInit => "auction-init".to_string(),
            ValenceEventKind::AuctionAuctionFunds => "auction-auction-funds".to_string(),
            ValenceEventKind::AuctionWithdrawFunds => "auction-withdraw-funds".to_string(),
            ValenceEventKind::AuctionDoBid => "auction-do-bid".to_string(),
            ValenceEventKind::AuctionPause => "auction-pause".to_string(),
            ValenceEventKind::AuctionResume => "auction-resume".to_string(),
            ValenceEventKind::AuctionUpdateStrategy => "auction-update-strategy".to_string(),
            ValenceEventKind::AuctionUpdateChainHaltConfig => "auction-update-chain-halt-config".to_string(),
            ValenceEventKind::AuctionUpdatePriceFreshnessStrategy => "auction-update-price-freshness-strategy".to_string(),
            ValenceEventKind::AuctionOpen => "auction-open".to_string(),
            ValenceEventKind::AuctionOpenRefund => "auction-open-refund".to_string(),
            ValenceEventKind::AuctionClose => "auction-close".to_string(),
            ValenceEventKind::ServicesManagerAddService => "services-manager-add-service".to_string(),
            ValenceEventKind::ServicesManagerUpdateService => "services-manager-update-service".to_string(),
            ValenceEventKind::ServicesManagerRemoveService => "services-manager-remove-service".to_string(),
            ValenceEventKind::ServicesManagerUpdateCodeIdWhitelist => "services-manager-update-code-id-whitelist".to_string(),
            ValenceEventKind::ServicesManagerWithdraw => "services-manager-withdraw".to_string(),
            ValenceEventKind::ServicesManagerStartAdminChange => "services-manager-start-admin-change".to_string(),
            ValenceEventKind::ServicesManagerCancelAdminChange => "services-manager-cancel-admin-change".to_string(),
            ValenceEventKind::ServicesManagerApproveAdminChange => "services-manager-approve-admin-change".to_string(),
            ValenceEventKind::RebalancerRegister => "rebalancer-register".to_string(),
            ValenceEventKind::RebalancerDeregister => "rebalancer-deregister".to_string(),
            ValenceEventKind::RebalancerUpdate => "rebalancer-update".to_string(),
            ValenceEventKind::RebalancerPause => "rebalancer-pause".to_string(),
            ValenceEventKind::RebalancerResume => "rebalancer-resume".to_string(),
            ValenceEventKind::RebalancerUpdateSystemStatus => "rebalancer-update-system-status".to_string(),
            ValenceEventKind::RebalancerUpdateDenomWhitelist => "rebalancer-update-denom-whitelist".to_string(),
            ValenceEventKind::RebalancerUpdateBaseDenomWhitelist => "rebalancer-update-base-denom-whitelist".to_string(),
            ValenceEventKind::RebalancerUpdateServicesManager => "rebalancer-update-services-manager".to_string(),
            ValenceEventKind::RebalancerUpdateAuctionsManager => "rebalancer-update-auctions-manager".to_string(),
            ValenceEventKind::RebalancerUpdateCyclePeriod => "rebalancer-update-cycle-period".to_string(),
            ValenceEventKind::RebalancerUpdateFees => "rebalancer-update-fees".to_string(),
            ValenceEventKind::RebalancerStartAdminChange => "rebalancer-start-admin-change".to_string(),
            ValenceEventKind::RebalancerCancelAdminChange => "rebalancer-cancel-admin-change".to_string(),
            ValenceEventKind::RebalancerApproveAdminChange => "rebalancer-approve-admin-change".to_string(),
            ValenceEventKind::RebalancerCycle => "rebalancer-cycle".to_string(),
            ValenceEventKind::RebalancerAccountRebalance => "rebalancer-account-rebalance".to_string(),
            ValenceEventKind::RebalancerAccountRebalancePause => "rebalancer-account-rebalance-pause".to_string(),
        }
    }
}


/// Different kinds of events have different names, so an event's name tells
/// its kind.
pub proof fn lemma_event_names_distinct(a: ValenceEventKind, b: ValenceEventKind)
    ensures
        event_name_spec(a) == event_name_spec(b) <==> a == b,
{
    if a != b {
        reveal_strlit("account-creation");
        assert("account-creation"@.len() == 16);
        assert("account-creation"@[0] == 'a');
        assert("account-creation"@[11] == 'a');
        reveal_strlit("account-register-service");
        assert("account-register-service"@.len() == 24);
        assert("account-register-service"@[8] == 'r');
        reveal_strlit("account-update-service");
        assert("account-update-service"@.len() == 22);
        assert("account-update-service"@[0] == 'a');
        assert("account-update-service"@[1] == 'c');
        assert("account-update-service"@[8] == 'u');
        reveal_strlit("account-deregister-service");
        assert("account-deregister-service"@.len() == 26);
        assert("account-deregister-service"@[0] == 'a');
        assert("account-deregister-service"@[8] == 'd');
        reveal_strlit("account-pause-service");
        assert("account-pause-service"@.len() == 21);
        assert("account-pause-service"@[0] == 'a');
        assert("account-pause-service"@[1] == 'c');
        reveal_strlit("account-resume-service");
        assert("account-resume-service"@.len() == 22);
        assert("account-resume-service"@[0] == 'a');
        assert("account-resume-service"@[1] == 'c');
        assert("account-resume-service"@[8] == 'r');
        reveal_strlit("account-send-funds-by-service");
        assert("account-send-funds-by-service"@.len() == 29);
        assert("account-send-funds-by-service"@[0] == 'a');
        assert("account-send-funds-by-service"@[1] == 'c');
        reveal_strlit("account-execute-by-service");
        assert("account-execute-by-service"@.len() == 26);
        assert("account-execute-by-service"@[0] == 'a');
        assert("account-execute-by-service"@[8] == 'e');
        reveal_strlit("account-execute-by-admin");
        assert("account-execute-by-admin"@.len() == 24);
        assert("account-execute-by-admin"@[8] == 'e');
        reveal_strlit("account-start-admin-change");
        assert("account-start-admin-change"@.len() == 26);
        assert("account-start-admin-change"@[0] == 'a');
        assert("account-start-admin-change"@[8] == 's');
        reveal_strlit("account-cancel-admin-change");
        assert("account-cancel-admin-change"@.len() == 27);
        assert("account-cancel-admin-change"@[0] == 'a');
        reveal_strlit("account-approve-admin-change");
        assert("account-approve-admin-change"@.len() == 28);
        assert("account-approve-admin-change"@[0] == 'a');
        reveal_strlit("oracle-update-price");
        assert("oracle-update-price"@.len() == 19);
        assert("oracle-update-price"@[0] == 'o');
        reveal_strlit("oracle-add-path");
        assert("oracle-add-path"@.len() == 15);
        reveal_strlit("oracle-update-path");
        assert("oracle-update-path"@.len() == 18);
        reveal_strlit("oracle-update-config");
        assert("oracle-update-config"@.len() == 20);
        reveal_strlit("oracle-start-admin-change");
        assert("oracle-start-admin-change"@.len() == 25);
        assert("oracle-start-admin-change"@[0] == 'o');
        reveal_strlit("oracle-cancel-admin-change");
        assert("oracle-cancel-admin-change"@.len() == 26);
        assert("oracle-cancel-admin-change"@[0] == 'o');
        assert("oracle-cancel-admin-change"@[8] == 'a');
        reveal_strlit("oracle-approve-admin-change");
        assert("oracle-approve-admin-change"@.len() == 27);
        assert("oracle-approve-admin-change"@[0] == 'o');
        reveal_strlit("auction-manager-update-auction-code-id");
        assert("auction-manager-update-auction-code-id"@.len() == 38);
        assert("auction-manager-update-auction-code-id"@[0] == 'a');
        reveal_strlit("auction-manager-update-oracle");
        assert("auction-manager-update-oracle"@.len() == 29);
        assert("auction-manager-update-oracle"@[0] == 'a');
        assert("auction-manager-update-oracle"@[1] == 'u');
        reveal_strlit("auction-manager-migrate-auction");
        assert("auction-manager-migrate-auction"@.len() == 31);
        assert("auction-manager-migrate-auction"@[0] == 'a');
        assert("auction-manager-migrate-auction"@[11] == 'a');
        assert("auction-manager-migrate-auction"@[17] == 'i');
        reveal_strlit("auction-manager-update-min-amount");
        assert("auction-manager-update-min-amount"@.len() == 33);
        assert("auction-manager-update-min-amount"@[0] == 'a');
        reveal_strlit("auction-manager-start-admin-change");
        assert("auction-manager-start-admin-change"@.len() == 34);
        assert("auction-manager-start-admin-change"@[0] == 'a');
        assert("auction-manager-start-admin-change"@[11] == 'a');
        assert("auction-manager-start-admin-change"@[16] == 's');
        assert("auction-manager-start-admin-change"@[18] == 'a');
        reveal_strlit("auction-manager-change-server-addr");
        assert("auction-manager-change-server-addr"@.len() == 34);
        assert("auction-manager-change-server-addr"@[0] == 'a');
        assert("auction-manager-change-server-addr"@[11] == 'a');
        assert("auction-manager-change-server-addr"@[16] == 'c');
        assert("auction-manager-change-server-addr"@[18] == 'a');
        reveal_strlit("auction-manager-cancel-admin-change");
        assert("auction-manager-cancel-admin-change"@.len() == 35);
        assert("auction-manager-cancel-admin-change"@[0] == 'a');
        reveal_strlit("auction-manager-approve-admin-change");
        assert("auction-manager-approve-admin-change"@.len() == 36);
        assert("auction-manager-approve-admin-change"@[0] == 'a');
        reveal_strlit("auction-init");
        assert("auction-init"@.len() == 12);
        assert("auction-init"@[8] == 'i');
        reveal_strlit("auction-auction-funds");
        assert("auction-auction-funds"@.len() == 21);
        assert("auction-auction-funds"@[0] == 'a');
        assert("auction-auction-funds"@[1] == 'u');
        reveal_strlit("auction-withdraw-funds");
        assert("auction-withdraw-funds"@.len() == 22);
        assert("auction-withdraw-funds"@[0] == 'a');
        assert("auction-withdraw-funds"@[1] == 'u');
        assert("auction-withdraw-funds"@[8] == 'w');
        reveal_strlit("auction-do-bid");
        assert("auction-do-bid"@.len() == 14);
        assert("auction-do-bid"@[8] == 'd');
        reveal_strlit("auction-pause");
        assert("auction-pause"@.len() == 13);
        assert("auction-pause"@[8] == 'p');
        reveal_strlit("auction-resume");
        assert("auction-resume"@.len() == 14);
        assert("auction-resume"@[8] == 'r');
        reveal_strlit("auction-update-strategy");
        assert("auction-update-strategy"@.len() == 23);
        reveal_strlit("auction-update-chain-halt-config");
        assert("auction-update-chain-halt-config"@.len() == 32);
        reveal_strlit("auction-update-price-freshness-strategy");
        assert("auction-update-price-freshness-strategy"@.len() == 39);
        reveal_strlit("auction-open");
        assert("auction-open"@.len() == 12);
        assert("auction-open"@[8] == 'o');
        reveal_strlit("auction-open-refund");
        assert("auction-open-refund"@.len() == 19);
        assert("auction-open-refund"@[0] == 'a');
        reveal_strlit("auction-close");
        assert("auction-close"@.len() == 13);
        assert("auction-close"@[8] == 'c');
        reveal_strlit("services-manager-add-service");
        assert("services-manager-add-service"@.len() == 28);
        assert("services-manager-add-service"@[0] == 's');
        reveal_strlit("services-manager-update-service");
        assert("services-manager-update-service"@.len() == 31);
        assert("services-manager-update-service"@[0] == 's');
        assert("services-manager-update-service"@[11] == 'n');
        assert("services-manager-update-service"@[17] == 'u');
        reveal_strlit("services-manager-remove-service");
        assert("services-manager-remove-service"@.len() == 31);
        assert("services-manager-remove-service"@[0] == 's');
        assert("services-manager-remove-service"@[11] == 'n');
        assert("services-manager-remove-service"@[17] == 'r');
        reveal_strlit("services-manager-update-code-id-whitelist");
        assert("services-manager-update-code-id-whitelist"@.len() == 41);
        reveal_strlit("services-manager-withdraw");
        assert("services-manager-withdraw"@.len() == 25);
        assert("services-manager-withdraw"@[0] == 's');
        reveal_strlit("services-manager-start-admin-change");
        assert("services-manager-start-admin-change"@.len() == 35);
        assert("services-manager-start-admin-change"@[0] == 's');
        reveal_strlit("services-manager-cancel-admin-change");
        assert("services-manager-cancel-admin-change"@.len() == 36);
        assert("services-manager-cancel-admin-change"@[0] == 's');
        reveal_strlit("services-manager-approve-admin-change");
        assert("services-manager-approve-admin-change"@.len() == 37);
        reveal_strlit("rebalancer-register");
        assert("rebalancer-register"@.len() == 19);
        assert("rebalancer-register"@[0] == 'r');
        reveal_strlit("rebalancer-deregister");
        assert("rebalancer-deregister"@.len() == 21);
        assert("rebalancer-deregister"@[0] == 'r');
        assert("rebalancer-deregister"@[1] == 'e');
        reveal_strlit("rebalancer-update");
        assert("rebalancer-update"@.len() == 17);
        assert("rebalancer-update"@[11] == 'u');
        reveal_strlit("rebalancer-pause");
        assert("rebalancer-pause"@.len() == 16);
        assert("rebalancer-pause"@[0] == 'r');
        assert("rebalancer-pause"@[11] == 'p');
        reveal_strlit("rebalancer-resume");
        assert("rebalancer-resume"@.len() == 17);
        assert("rebalancer-resume"@[11] == 'r');
        reveal_strlit("rebalancer-update-system-status");
        assert("rebalancer-update-system-status"@.len() == 31);
        assert("rebalancer-update-system-status"@[0] == 'r');
        assert("rebalancer-update-system-status"@[11] == 'u');
        assert("rebalancer-update-system-status"@[17] == '-');
        reveal_strlit("rebalancer-update-denom-whitelist");
        assert("rebalancer-update-denom-whitelist"@.len() == 33);
        assert("rebalancer-update-denom-whitelist"@[0] == 'r');
        reveal_strlit("rebalancer-update-base-denom-whitelist");
        assert("rebalancer-update-base-denom-whitelist"@.len() == 38);
        assert("rebalancer-update-base-denom-whitelist"@[0] == 'r');
        reveal_strlit("rebalancer-update-services-manager");
        assert("rebalancer-update-services-manager"@.len() == 34);
        assert("rebalancer-update-services-manager"@[0] == 'r');
        assert("rebalancer-update-services-manager"@[11] == 'u');
        assert("rebalancer-update-services-manager"@[16] == 'e');
        assert("rebalancer-update-services-manager"@[18] == 's');
        reveal_strlit("rebalancer-update-auctions-manager");
        assert("rebalancer-update-auctions-manager"@.len() == 34);
        assert("rebalancer-update-auctions-manager"@[0] == 'r');
        assert("rebalancer-update-auctions-manager"@[11] == 'u');
        assert("rebalancer-update-auctions-manager"@[16] == 'e');
        assert("rebalancer-update-auctions-manager"@[18] == 'a');
        reveal_strlit("rebalancer-update-cycle-period");
        assert("rebalancer-update-cycle-period"@.len() == 30);
        assert("rebalancer-update-cycle-period"@[11] == 'u');
        reveal_strlit("rebalancer-update-fees");
        assert("rebalancer-update-fees"@.len() == 22);
        assert("rebalancer-update-fees"@[0] == 'r');
        assert("rebalancer-update-fees"@[1] == 'e');
        assert("rebalancer-update-fees"@[8] == 'e');
        reveal_strlit("rebalancer-start-admin-change");
        assert("rebalancer-start-admin-change"@.len() == 29);
        assert("rebalancer-start-admin-change"@[0] == 'r');
        assert("rebalancer-start-admin-change"@[1] == 'e');
        reveal_strlit("rebalancer-cancel-admin-change");
        assert("rebalancer-cancel-admin-change"@.len() == 30);
        assert("rebalancer-cancel-admin-change"@[11] == 'c');
        reveal_strlit("rebalancer-approve-admin-change");
        assert("rebalancer-approve-admin-change"@.len() == 31);
        assert("rebalancer-approve-admin-change"@[0] == 'r');
        assert("rebalancer-approve-admin-change"@[11] == 'a');
        assert("rebalancer-approve-admin-change"@[17] == 'e');
        reveal_strlit("rebalancer-cycle");
        assert("rebalancer-cycle"@.len() == 16);
        assert("rebalancer-cycle"@[0] == 'r');
        assert("rebalancer-cycle"@[11] == 'c');
        reveal_strlit("rebalancer-account-rebalance");
        assert("rebalancer-account-rebalance"@.len() == 28);
        assert("rebalancer-account-rebalance"@[0] == 'r');
        reveal_strlit("rebalancer-account-rebalance-pause");
        assert("rebalancer-account-rebalance-pause"@.len() == 34);
        assert("rebalancer-account-rebalance-pause"@[0] == 'r');
        assert("rebalancer-account-rebalance-pause"@[11] == 'a');
        assert("rebalancer-account-rebalance-pause"@[16] == 'n');
        assert("rebalancer-account-rebalance-pause"@[18] == '-');
        assert(event_name_spec(a) != event_name_spec(b));
    }
}

} // verus!
