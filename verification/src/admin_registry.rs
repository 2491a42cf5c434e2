//! A simpler administrator registry: one-time initialization, and adding or
//! removing administrators on the word of an existing one.
use vstd::prelude::*;
use crate::types::{Addr, ContractError};
use crate::utils::{contains_addr, lemma_without_len, no_dups, remove_item_addr, without};

verus! {

/// Whether initialization happened, and the administrators in the order
/// they were added.
pub struct AdminRegistry {
    pub initialized: bool,
    pub admins: Vec<Addr>,
}

impl AdminRegistry {
    /// No administrator is listed twice and the count fits in `u32`.
    pub open spec fn wf(&self) -> bool {
        &&& no_dups(self.admins@)
        &&& self.admins@.len() <= u32::MAX
    }

    pub open spec fn spec_is_admin(&self, a: Addr) -> bool {
        self.admins@.contains(a)
    }

    pub fn new() -> (r: AdminRegistry)
        ensures
            r.wf(),
            !r.initialized,
            r.admins@.len() == 0,
    {
        AdminRegistry { initialized: false, admins: Vec::new() }
    }

    /// Makes `admin` the first administrator. Only callable once.
    pub fn initialize(&mut self, admin: Addr)
        requires
            !old(self).initialized,
        ensures
            final(self).wf(),
            final(self).initialized,
            final(self).admins@ == seq![admin],
    {
        self.initialized = true;
        let mut admins: Vec<Addr> = Vec::new();
        admins.push(admin);
        self.admins = admins;
        assert(self.admins@ =~= seq![admin]);
    }

    pub fn is_admin(&self, address: Addr) -> (r: bool)
        ensures
            r == self.spec_is_admin(address),
    {
        contains_addr(&self.admins, address)
    }

    /// `Ok` exactly when `address` is an administrator, else `AdminOnly`.
    pub fn require_admin(&self, address: Addr) -> (r: Result<(), ContractError>)
        ensures
            r is Ok == self.spec_is_admin(address),
            r is Err ==> r == Err::<(), ContractError>(ContractError::AdminOnly),
    {
        if !self.is_admin(address) {
            return Err(ContractError::AdminOnly);
        }
        Ok(())
    }

    fn get_admin_count(&self) -> (n: u32)
        requires
            self.wf(),
        ensures
            n == self.admins@.len(),
    {
        self.admins.len() as u32
    }

    /// The administrators, in the order they were added.
    pub fn list_admins(&self) -> (r: &Vec<Addr>)
        ensures
            r@ == self.admins@,
    {
        &self.admins
    }

    /// Adds `new_admin` on the word of administrator `caller`; adding an
    /// existing administrator is refused.
    pub fn add_admin(&mut self, caller: Addr, new_admin: Addr) -> (r: Result<(), ContractError>)
        requires
            old(self).wf(),
            old(self).admins@.len() < u32::MAX,
        ensures
            final(self).wf(),
            r == (if !old(self).spec_is_admin(caller) {
                Err(ContractError::AdminOnly)
            } else if old(self).spec_is_admin(new_admin) {
                Err(ContractError::InvalidProjectData)
            } else {
                Ok::<(), ContractError>(())
            }),
            r is Err ==> *final(self) == *old(self),
            r is Ok ==> final(self).admins@ == old(self).admins@.push(new_admin) && final(self).initialized
                == old(self).initialized,
    {
        if !self.is_admin(caller) {
            return Err(ContractError::AdminOnly);
        }
        if self.is_admin(new_admin) {
            return Err(ContractError::InvalidProjectData);
        }
        self.admins.push(new_admin);
        proof {
            let s = self.admins@;
            assert forall|i: int, j: int| 0 <= i < s.len() && 0 <= j < s.len() && i != j implies s[i]
                != s[j] by {
                if i == s.len() - 1 && s[j] == new_admin {
                    assert(old(self).admins@[j] == new_admin);
                }
                if j == s.len() - 1 && s[i] == new_admin {
                    assert(old(self).admins@[i] == new_admin);
                }
            }
        }
        Ok(())
    }

    /// Removes `admin_to_remove` on the word of administrator `caller`; the
    /// last administrator stays.
    pub fn remove_admin(&mut self, caller: Addr, admin_to_remove: Addr) -> (r: Result<(), ContractError>)
        requires
            old(self).wf(),
        ensures
            final(self).wf(),
            r == (if !old(self).spec_is_admin(caller) {
                Err(ContractError::AdminOnly)
            } else if !old(self).spec_is_admin(admin_to_remove) {
                Err(ContractError::InvalidProjectData)
            } else if old(self).admins@.len() <= 1 {
                Err(ContractError::InvalidProjectData)
            } else {
                Ok::<(), ContractError>(())
            }),
            r is Err ==> *final(self) == *old(self),
            r is Ok ==> final(self).admins@ == without(old(self).admins@, admin_to_remove)
                && final(self).admins@.len() == old(self).admins@.len() - 1 && final(self).initialized
                == old(self).initialized,
    {
        if !self.is_admin(caller) {
            return Err(ContractError::AdminOnly);
        }
        if !self.is_admin(admin_to_remove) {
            return Err(ContractError::InvalidProjectData);
        }
        if self.get_admin_count() <= 1 {
            return Err(ContractError::InvalidProjectData);
        }
        let updated = remove_item_addr(&self.admins, admin_to_remove);
        proof {
            lemma_without_len(self.admins@, admin_to_remove);
        }
        self.admins = updated;
        Ok(())
    }
}

} // verus!
