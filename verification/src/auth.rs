//! Authorization checks shared by the mutating operations. The host has
//! already checked the caller's signature; these decide whether the signed
//! caller may act.
use vstd::prelude::*;
use crate::admin_manager::AdminManager;
use crate::types::{Addr, ContractError};

verus! {

/// `Ok` exactly when `caller` is a registered administrator, else
/// `AdminOnly`.
pub fn require_admin_auth(admins: &AdminManager, caller: Addr) -> (r: Result<(), ContractError>)
    ensures
        r == (if admins.spec_is_admin(caller) {
            Ok::<(), ContractError>(())
        } else {
            Err(ContractError::AdminOnly)
        }),
{
    if admins.is_admin(caller) {
        Ok(())
    } else {
        Err(ContractError::AdminOnly)
    }
}

/// `Ok` exactly when `caller` is `expected_owner`, else `Unauthorized`.
pub fn require_owner_auth(caller: Addr, expected_owner: Addr) -> (r: Result<(), ContractError>)
    ensures
        r == (if caller == expected_owner {
            Ok::<(), ContractError>(())
        } else {
            Err(ContractError::Unauthorized)
        }),
{
    if caller != expected_owner {
        return Err(ContractError::Unauthorized);
    }
    Ok(())
}

} // verus!
