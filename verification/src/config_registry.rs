//! Pause control with an audit record, and a snapshot of the contract's
//! configuration.
use vstd::prelude::*;
use crate::admin_action_log::{AdminActionLog, AdminActionType};
use crate::admin_manager::AdminManager;
use crate::constants::{
    MAX_DESCRIPTION_LEN, MAX_NAME_LEN, MAX_PAGE_LIMIT, MAX_PROJECTS_PER_USER,
    MAX_REVIEWS_PER_PROJECT, VERIFICATION_VALIDITY_PERIOD,
};
use crate::emergency_pause::EmergencyPause;
use crate::fee_manager::{FeeConfig, FeeManager};
use crate::types::{Addr, ContractError};

verus! {

/// The fixed limits the contract enforces.
#[derive(Clone, Copy, Debug, PartialEq, Eq, Structural)]
pub struct ContractLimits {
    pub max_page_limit: u32,
    pub max_projects_per_user: u32,
    pub max_reviews_per_project: u32,
    pub max_name_len: u32,
    pub max_description_len: u32,
    pub verification_validity_period: u64,
}

/// A snapshot of the contract's configuration.
pub struct ContractConfigView {
    pub version: Vec<u8>,
    pub admin_count: u32,
    pub admin_approval_threshold: u32,
    pub paused: bool,
    pub treasury: Option<Addr>,
    pub fees: FeeConfig,
    pub limits: ContractLimits,
}

/// Pause control with an audit record, and the configuration snapshot.
pub struct ConfigRegistry;

/// The version string `1.0.0`.
pub open spec fn version_bytes() -> Seq<u8> {
    seq![49u8, 46u8, 48u8, 46u8, 48u8]
}

impl ConfigRegistry {
    /// Whether the contract is paused.
    pub fn is_paused(pause: &EmergencyPause) -> (r: bool)
        ensures
            r == pause.paused,
    {
        pause.paused
    }

    /// Sets the pause flag on the word of an administrator, records the
    /// change and returns the previous flag.
    pub fn set_pause(
        pause: &mut EmergencyPause,
        admin: Addr,
        paused: bool,
        admins: &AdminManager,
        log: &mut AdminActionLog,
        now: u64,
    ) -> (r: Result<bool, ContractError>)
        requires
            old(log).wf(),
            old(log).has_room(),
        ensures
            final(log).wf(),
            r is Ok == admins.spec_is_admin(admin),
            r is Err ==> r == Err::<bool, ContractError>(ContractError::AdminOnly) && final(pause).paused
                == old(pause).paused && *final(log) == *old(log),
            r is Ok ==> r == Ok::<bool, ContractError>(old(pause).paused) && final(pause).paused == paused
                && AdminActionLog::records(
                old(log),
                final(log),
                admin,
                if paused { AdminActionType::ContractPaused } else { AdminActionType::ContractResumed },
                None,
                None,
                now,
            ),
    {
        admins.require_admin(admin)?;
        let previous = pause.paused;
        pause.paused = paused;
        if paused {
            log.record_action(admin, AdminActionType::ContractPaused, None, None, None, now);
        } else {
            log.record_action(admin, AdminActionType::ContractResumed, None, None, None, now);
        }
        Ok(previous)
    }

    /// The configuration snapshot: fees (zero when unset), treasury, pause
    /// flag, administrator count and threshold, and the fixed limits.
    pub fn get_config(pause: &EmergencyPause, admins: &AdminManager, fees: &FeeManager) -> (v:
        ContractConfigView)
        requires
            admins.wf(),
        ensures
            v.version@ == version_bytes(),
            v.admin_count == admins.admins@.len(),
            v.admin_approval_threshold == admins.spec_threshold(),
            v.paused == pause.paused,
            v.treasury == fees.treasury,
            v.fees == (match fees.fee_config {
                Some(c) => c,
                None => FeeConfig { token: None, verification_fee: 0, registration_fee: 0 },
            }),
            v.limits == (ContractLimits {
                max_page_limit: MAX_PAGE_LIMIT,
                max_projects_per_user: MAX_PROJECTS_PER_USER,
                max_reviews_per_project: MAX_REVIEWS_PER_PROJECT,
                max_name_len: MAX_NAME_LEN as u32,
                max_description_len: MAX_DESCRIPTION_LEN as u32,
                verification_validity_period: VERIFICATION_VALIDITY_PERIOD,
            }),
    {
        let f = match fees.fee_config {
            Some(c) => c,
            None => FeeConfig { token: None, verification_fee: 0, registration_fee: 0 },
        };
        let mut version: Vec<u8> = Vec::new();
        version.push(49u8);
        version.push(46u8);
        version.push(48u8);
        version.push(46u8);
        version.push(48u8);
        assert(version@ =~= version_bytes());
        ContractConfigView {
            version,
            admin_count: admins.get_admin_count(),
            admin_approval_threshold: admins.get_admin_approval_threshold(),
            paused: pause.paused,
            treasury: fees.treasury,
            fees: f,
            limits: ContractLimits {
                max_page_limit: MAX_PAGE_LIMIT,
                max_projects_per_user: MAX_PROJECTS_PER_USER,
                max_reviews_per_project: MAX_REVIEWS_PER_PROJECT,
                max_name_len: MAX_NAME_LEN as u32,
                max_description_len: MAX_DESCRIPTION_LEN as u32,
                verification_validity_period: VERIFICATION_VALIDITY_PERIOD,
            },
        }
    }
}

} // verus!
