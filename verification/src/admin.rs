//! Two-step admin changes: the admin proposes a new admin with an expiration,
//! may cancel the proposal, and the proposed address approves it before it
//! expires.
use vstd::prelude::*;
use crate::chain::{BlockInfo, Timestamp};

verus! {

/// When a proposal stops being valid.
#[derive(Clone, Copy, Debug, PartialEq, Eq, Structural)]
pub enum Expiration {
    /// Expires once the block height reaches this height.
    AtHeight(u64),
    /// Expires once the block time reaches this time.
    AtTime(Timestamp),
    /// Never expires.
    Never,
}

/// The expiration has passed at `block`.
pub open spec fn expired(e: Expiration, block: BlockInfo) -> bool {
    match e {
        Expiration::AtHeight(h) => block.height >= h,
        Expiration::AtTime(t) => block.time.nanos >= t.nanos,
        Expiration::Never => false,
    }
}

/// `cw_utils::Expiration::is_expired` on the given expiration and block.
#[verifier::external_body]
fn expiration_is_expired(e: Expiration, block: &BlockInfo) -> (r: bool)
    ensures
        r == expired(e, *block),
{
    let e = match e {
        Expiration::AtHeight(h) => cw_utils::Expiration::AtHeight(h),
        Expiration::AtTime(t) => cw_utils::Expiration::AtTime(cosmwasm_std::Timestamp::from_nanos(t.nanos)),
        Expiration::Never => cw_utils::Expiration::Never {},
    };
    let b = cosmwasm_std::BlockInfo {
        height: block.height,
        time: cosmwasm_std::Timestamp::from_nanos(block.time.nanos),
        chain_id: block.chain_id.clone(),
    };
    e.is_expired(&b)
}

impl Expiration {
    pub fn is_expired(&self, block: &BlockInfo) -> (r: bool)
        ensures
            r == expired(*self, *block),
    {
        expiration_is_expired(*self, block)
    }
}

/// A proposed admin change.
#[derive(Clone, Debug, PartialEq, Eq)]
pub struct AdminChange {
    pub addr: String,
    pub expiration: Expiration,
}

/// Why an admin action was refused.
#[derive(Clone, Copy, Debug, PartialEq, Eq, Structural)]
pub enum AdminError {
    NotAdmin,
    NoAdminChangeData,
    NotNewAdmin,
    AdminChangeExpired,
}

/// The admin and the pending proposal, if any.
#[derive(Clone, Debug, PartialEq, Eq)]
pub struct AdminState {
    pub admin: String,
    pub pending: Option<AdminChange>,
}

/// The state and outcome of a proposal by `sender`.
pub open spec fn start_change(state: AdminState, sender: Seq<char>, addr: String, expiration: Expiration) -> (AdminState, Result<(), AdminError>) {
    if sender == state.admin@ {
        (AdminState { pending: Some(AdminChange { addr, expiration }), ..state }, Ok(()))
    } else {
        (state, Err(AdminError::NotAdmin))
    }
}

/// The state and outcome of an approval by `sender` at `block`.
pub open spec fn approve_change(state: AdminState, sender: Seq<char>, block: BlockInfo) -> (AdminState, Result<(), AdminError>) {
    match state.pending {
        None => (state, Err(AdminError::NoAdminChangeData)),
        Some(p) => if p.addr@ != sender {
            (state, Err(AdminError::NotNewAdmin))
        } else if expired(p.expiration, block) {
            (state, Err(AdminError::AdminChangeExpired))
        } else {
            (AdminState { admin: p.addr, pending: None }, Ok(()))
        },
    }
}

/// Only the admin may act.
pub fn verify_admin(state: &AdminState, sender: &String) -> (r: Result<(), AdminError>)
    ensures
        r is Ok <==> sender@ == state.admin@,
        r is Err ==> r == Err::<(), AdminError>(AdminError::NotAdmin),
{
    if state.admin == *sender {
        Ok(())
    } else {
        Err(AdminError::NotAdmin)
    }
}

/// The admin proposes `addr` (already validated) as the new admin; a previous
/// proposal is replaced.
pub fn start_admin_change(
    state: &mut AdminState,
    sender: &String,
    addr: String,
    expiration: Expiration,
) -> (r: Result<(), AdminError>)
    ensures
        sender@ != old(state).admin@ ==> r == Err::<(), AdminError>(AdminError::NotAdmin) && *final(state) == *old(state),
        sender@ == old(state).admin@ ==> r is Ok && final(state).admin == old(state).admin
            && final(state).pending == Some(AdminChange { addr, expiration }),
        (*final(state), r) == start_change(*old(state), sender@, addr, expiration),
{
    if state.admin == *sender {
        state.pending = Some(AdminChange { addr, expiration });
        Ok(())
    } else {
        Err(AdminError::NotAdmin)
    }
}

/// The admin withdraws the pending proposal.
pub fn cancel_admin_change(state: &mut AdminState, sender: &String) -> (r: Result<(), AdminError>)
    ensures
        sender@ != old(state).admin@ ==> r == Err::<(), AdminError>(AdminError::NotAdmin) && *final(state) == *old(state),
        sender@ == old(state).admin@ ==> r is Ok && final(state).admin == old(state).admin
            && final(state).pending is None,
{
    if state.admin == *sender {
        state.pending = None;
        Ok(())
    } else {
        Err(AdminError::NotAdmin)
    }
}

/// The proposed address accepts the change before it expires and becomes the
/// admin; the proposal is cleared.
pub fn approve_admin_change(state: &mut AdminState, sender: &String, block: &BlockInfo) -> (r: Result<
    (),
    AdminError,
>)
    ensures
        old(state).pending is None ==> r == Err::<(), AdminError>(AdminError::NoAdminChangeData)
            && *final(state) == *old(state),
        old(state).pending matches Some(p) ==> {
            &&& p.addr@ != sender@ ==> r == Err::<(), AdminError>(AdminError::NotNewAdmin)
                && *final(state) == *old(state)
            &&& p.addr@ == sender@ && expired(p.expiration, *block) ==> r == Err::<(), AdminError>(
                AdminError::AdminChangeExpired,
            ) && *final(state) == *old(state)
            &&& p.addr@ == sender@ && !expired(p.expiration, *block) ==> r is Ok && final(state).admin == p.addr && final(state).pending is None
        },
        (*final(state), r) == approve_change(*old(state), sender@, *block),
{
    let (addr, expiration) = match &state.pending {
        Some(p) => (p.addr.clone(), p.expiration),
        None => {
            return Err(AdminError::NoAdminChangeData);
        },
    };
    if !(addr == *sender) {
        return Err(AdminError::NotNewAdmin);
    }
    if expiration.is_expired(block) {
        return Err(AdminError::AdminChangeExpired);
    }
    state.admin = addr;
    state.pending = None;
    Ok(())
}

/// Once the admin proposes `addr`, `addr` becomes the admin by approving
/// before the proposal expires, and the proposal is cleared; anyone else who
/// approves is refused and nothing changes.
pub proof fn lemma_proposed_admin_takes_over(
    state: AdminState,
    addr: String,
    expiration: Expiration,
    approver: Seq<char>,
    block: BlockInfo,
)
    ensures
        ({
            let proposed = start_change(state, state.admin@, addr, expiration).0;
            &&& approver == addr@ && !expired(expiration, block) ==> approve_change(proposed, approver, block)
                == (AdminState { admin: addr, pending: None }, Ok::<(), AdminError>(()))
            &&& approver != addr@ ==> approve_change(proposed, approver, block) == (
                proposed,
                Err::<(), AdminError>(AdminError::NotNewAdmin),
            )
        }),
{
}

} // verus!
