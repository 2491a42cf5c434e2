//! The contract-wide pause switch.
use vstd::prelude::*;
use crate::admin_manager::AdminManager;
use crate::types::{Addr, ContractError};

verus! {

/// Whether mutating operations are currently suspended.
pub struct EmergencyPause {
    pub paused: bool,
}

impl EmergencyPause {
    pub fn new() -> (p: EmergencyPause)
        ensures
            !p.paused,
    {
        EmergencyPause { paused: false }
    }

    pub fn is_paused(&self) -> (r: bool)
        ensures
            r == self.paused,
    {
        self.paused
    }

    /// `Ok` exactly when the contract is not paused.
    pub fn require_not_paused(&self) -> (r: Result<(), ContractError>)
        ensures
            r is Ok == !self.paused,
            r is Err ==> r == Err::<(), ContractError>(ContractError::ContractPaused),
    {
        if self.paused {
            Err(ContractError::ContractPaused)
        } else {
            Ok(())
        }
    }

    /// Pauses the contract on the word of an administrator.
    pub fn pause(&mut self, admin: Addr, admins: &AdminManager) -> (r: Result<(), ContractError>)
        ensures
            r is Ok == admins.spec_is_admin(admin),
            r is Err ==> r == Err::<(), ContractError>(ContractError::AdminOnly) && final(self).paused
                == old(self).paused,
            r is Ok ==> final(self).paused,
    {
        admins.require_admin(admin)?;
        self.paused = true;
        Ok(())
    }

    /// Lifts the pause on the word of an administrator.
    pub fn unpause(&mut self, admin: Addr, admins: &AdminManager) -> (r: Result<(), ContractError>)
        ensures
            r is Ok == admins.spec_is_admin(admin),
            r is Err ==> r == Err::<(), ContractError>(ContractError::AdminOnly) && final(self).paused
                == old(self).paused,
            r is Ok ==> !final(self).paused,
    {
        admins.require_admin(admin)?;
        self.paused = false;
        Ok(())
    }
}

} // verus!
