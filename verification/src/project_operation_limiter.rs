//! Per-address limits on project registrations and updates per day and on
//! queries per minute; owners of a verified, active project get a higher
//! limit.
use vstd::prelude::*;
use std::collections::HashMap;
use crate::types::{Addr, ContractError, ProjectBook, VerificationStatus};

verus! {

broadcast use vstd::std_specs::hash::group_hash_axioms;

pub const SECONDS_PER_DAY: u64 = 86_400;
pub const SECONDS_PER_MINUTE: u64 = 60;
pub const PROJECT_REGISTRATIONS_PER_DAY: u32 = 5;
pub const PROJECT_UPDATES_PER_DAY: u32 = 20;
pub const PROJECT_QUERIES_PER_MINUTE: u32 = 60;
pub const VERIFIED_PROJECT_OPERATION_LIMIT_MULTIPLIER: u32 = 2;

/// How many operations an address made in one time bucket.
#[derive(Clone, Copy, Debug, PartialEq, Eq, Structural)]
pub struct OperationWindow {
    pub bucket: u64,
    pub count: u32,
}

/// The limited operations.
#[derive(Clone, Copy, Debug, PartialEq, Eq, Structural)]
pub enum Operation {
    Registration,
    Update,
    Query,
}

/// The current window of each address (by address id), per operation.
pub struct ProjectOperationLimiter {
    pub registrations: HashMap<u64, OperationWindow>,
    pub updates: HashMap<u64, OperationWindow>,
    pub queries: HashMap<u64, OperationWindow>,
}

/// Whether `who` owns an active, verified project.
pub open spec fn verified_owner(projects: ProjectBook, who: Addr) -> bool {
    exists|i: int|
        0 <= i < projects.projects@.len() && (#[trigger] projects.projects@[i]).owner == who && !projects.projects@[i].archived
            && projects.projects@[i].verification_status == VerificationStatus::Verified
}

/// The count already spent in the bucket of `now`.
pub open spec fn spent(m: Map<u64, OperationWindow>, who: Addr, now: u64, window: u64) -> u32 {
    if m.contains_key(who.id) && m[who.id].bucket == now / window { m[who.id].count } else { 0 }
}

/// The limit that applies to `who`.
pub open spec fn limit_for(projects: ProjectBook, who: Addr, default_limit: u32) -> u32 {
    if verified_owner(projects, who) {
        if default_limit * VERIFIED_PROJECT_OPERATION_LIMIT_MULTIPLIER > u32::MAX {
            u32::MAX
        } else {
            (default_limit * VERIFIED_PROJECT_OPERATION_LIMIT_MULTIPLIER) as u32
        }
    } else {
        default_limit
    }
}

/// Counts one operation of `who` in `m`, or refuses it once the limit of the
/// current bucket is reached.
fn consume_in(
    m: &mut HashMap<u64, OperationWindow>,
    who: Addr,
    now: u64,
    window: u64,
    default_limit: u32,
    projects: &ProjectBook,
) -> (r: Result<(), ContractError>)
    requires
        window > 0,
    ensures
        ({
            let prev = spent(old(m)@, who, now, window);
            let lim = limit_for(*projects, who, default_limit);
            &&& prev >= lim ==> r == Err::<(), ContractError>(ContractError::OperationLimitExceeded) && final(m)@ == old(m)@
            &&& prev < lim ==> r is Ok && final(m)@ == old(m)@.insert(who.id, OperationWindow { bucket: now / window, count: (prev + 1) as u32 })
        }),
{
    let bucket = now / window;
    let previous_count = match m.get(&who.id) {
        Some(w) => if w.bucket == bucket { w.count } else { 0 },
        None => 0,
    };
    let limit = if ProjectOperationLimiter::is_verified_owner(who, projects) {
        match default_limit.checked_mul(VERIFIED_PROJECT_OPERATION_LIMIT_MULTIPLIER) {
            Some(v) => v,
            None => u32::MAX,
        }
    } else {
        default_limit
    };
    if previous_count >= limit {
        return Err(ContractError::OperationLimitExceeded);
    }
    m.insert(who.id, OperationWindow { bucket, count: previous_count + 1 });
    Ok(())
}

impl ProjectOperationLimiter {
    pub fn new() -> (r: ProjectOperationLimiter)
        ensures
            r.registrations@ == Map::<u64, OperationWindow>::empty(),
            r.updates@ == Map::<u64, OperationWindow>::empty(),
            r.queries@ == Map::<u64, OperationWindow>::empty(),
    {
        ProjectOperationLimiter { registrations: HashMap::new(), updates: HashMap::new(), queries: HashMap::new() }
    }

    /// Whether `address` owns an active, verified project.
    fn is_verified_owner(address: Addr, projects: &ProjectBook) -> (r: bool)
        ensures
            r == verified_owner(*projects, address),
    {
        let mut i: usize = 0;
        while i < projects.projects.len()
            invariant
                i <= projects.projects@.len(),
                forall|j: int| 0 <= j < i ==> !((#[trigger] projects.projects@[j]).owner == address && !projects.projects@[j].archived
                    && projects.projects@[j].verification_status == VerificationStatus::Verified),
            decreases projects.projects@.len() - i,
        {
            let p = &projects.projects[i];
            if p.owner == address && !p.archived && p.verification_status == VerificationStatus::Verified {
                return true;
            }
            i = i + 1;
        }
        false
    }

    /// Counts a project registration by `address` today.
    pub fn consume_registration(&mut self, address: Addr, now: u64, projects: &ProjectBook) -> (r: Result<(), ContractError>)
        ensures
            ({
                let prev = spent(old(self).registrations@, address, now, SECONDS_PER_DAY);
                let lim = limit_for(*projects, address, PROJECT_REGISTRATIONS_PER_DAY);
                &&& prev >= lim ==> r == Err::<(), ContractError>(ContractError::OperationLimitExceeded)
                    && final(self).registrations@ == old(self).registrations@
                &&& prev < lim ==> r is Ok && final(self).registrations@ == old(self).registrations@.insert(
                    address.id,
                    OperationWindow { bucket: now / SECONDS_PER_DAY, count: (prev + 1) as u32 },
                )
                &&& final(self).updates == old(self).updates && final(self).queries == old(self).queries
            }),
    {
        consume_in(&mut self.registrations, address, now, SECONDS_PER_DAY, PROJECT_REGISTRATIONS_PER_DAY, projects)
    }

    /// Counts a project update by `address` today.
    pub fn consume_update(&mut self, address: Addr, now: u64, projects: &ProjectBook) -> (r: Result<(), ContractError>)
        ensures
            ({
                let prev = spent(old(self).updates@, address, now, SECONDS_PER_DAY);
                let lim = limit_for(*projects, address, PROJECT_UPDATES_PER_DAY);
                &&& prev >= lim ==> r == Err::<(), ContractError>(ContractError::OperationLimitExceeded)
                    && final(self).updates@ == old(self).updates@
                &&& prev < lim ==> r is Ok && final(self).updates@ == old(self).updates@.insert(
                    address.id,
                    OperationWindow { bucket: now / SECONDS_PER_DAY, count: (prev + 1) as u32 },
                )
                &&& final(self).registrations == old(self).registrations && final(self).queries == old(self).queries
            }),
    {
        consume_in(&mut self.updates, address, now, SECONDS_PER_DAY, PROJECT_UPDATES_PER_DAY, projects)
    }

    /// Counts a query by `address` this minute.
    pub fn consume_query(&mut self, address: Addr, now: u64, projects: &ProjectBook) -> (r: Result<(), ContractError>)
        ensures
            ({
                let prev = spent(old(self).queries@, address, now, SECONDS_PER_MINUTE);
                let lim = limit_for(*projects, address, PROJECT_QUERIES_PER_MINUTE);
                &&& prev >= lim ==> r == Err::<(), ContractError>(ContractError::OperationLimitExceeded)
                    && final(self).queries@ == old(self).queries@
                &&& prev < lim ==> r is Ok && final(self).queries@ == old(self).queries@.insert(
                    address.id,
                    OperationWindow { bucket: now / SECONDS_PER_MINUTE, count: (prev + 1) as u32 },
                )
                &&& final(self).registrations == old(self).registrations && final(self).updates == old(self).updates
            }),
    {
        consume_in(&mut self.queries, address, now, SECONDS_PER_MINUTE, PROJECT_QUERIES_PER_MINUTE, projects)
    }
}


/// An address is never counted past its limit within one time bucket: an
/// accepted operation raises its count in the current bucket by one, to at
/// most the limit, and leaves every other address's count as it was.
pub proof fn lemma_count_stays_within_limit(m: Map<u64, OperationWindow>, who: Addr, now: u64, window: u64, lim: u32)
    requires
        window > 0,
        spent(m, who, now, window) < lim,
    ensures
        ({
            let prev = spent(m, who, now, window);
            let m2 = m.insert(who.id, OperationWindow { bucket: now / window, count: (prev + 1) as u32 });
            &&& spent(m2, who, now, window) == prev + 1
            &&& spent(m2, who, now, window) <= lim
            &&& forall|other: Addr, t: u64| other.id != who.id ==> #[trigger] spent(m2, other, t, window) == spent(m, other, t, window)
        }),
{
    let prev = spent(m, who, now, window);
    let m2 = m.insert(who.id, OperationWindow { bucket: now / window, count: (prev + 1) as u32 });
    assert(m2.contains_key(who.id));
    assert(m2[who.id].bucket == now / window);
    assert(m2[who.id].count == prev + 1);
    assert forall|other: Addr, t: u64| other.id != who.id implies #[trigger] spent(m2, other, t, window) == spent(m, other, t, window) by {
        assert(m2.contains_key(other.id) == m.contains_key(other.id));
        if m.contains_key(other.id) {
            assert(m2[other.id] == m[other.id]);
        }
    }
}

/// The limit applied to an address is the default one unless the address
/// owns a project that is not archived and whose verification status is
/// `Verified`; then it is doubled, capped at `u32::MAX`. Owning only
/// unverified or archived projects earns nothing.
pub proof fn lemma_limit_doubles_only_for_verified_owners(projects: ProjectBook, who: Addr, default_limit: u32)
    ensures
        (forall|i: int|
            0 <= i < projects.projects@.len() && (#[trigger] projects.projects@[i]).owner == who
                && !projects.projects@[i].archived ==> projects.projects@[i].verification_status
                != VerificationStatus::Verified) ==> limit_for(projects, who, default_limit) == default_limit,
        (exists|i: int|
            0 <= i < projects.projects@.len() && (#[trigger] projects.projects@[i]).owner == who
                && !projects.projects@[i].archived && projects.projects@[i].verification_status
                == VerificationStatus::Verified) ==> limit_for(projects, who, default_limit) == (if 2 * default_limit
            > u32::MAX { u32::MAX as int } else { 2 * default_limit }),
{
}

} // verus!
