//! Probation after a verification is approved: a monitoring period, after
//! which the project is promoted to full verification, and during which an
//! administrator can revoke the verification without a full review.
use vstd::prelude::*;
use std::collections::HashMap;
use crate::admin_action_log::{AdminActionLog, AdminActionType};
use crate::admin_manager::AdminManager;
use crate::constants::{DEFAULT_PROBATIONARY_DURATION_SECS, MAX_PAGE_LIMIT};
use crate::types::{Addr, ContractError, Project, ProjectBook, VerificationBook, VerificationRecord, VerificationStatus};
use crate::utils::{contains_u64, remove_item_u64, without};

verus! {

broadcast use vstd::std_specs::hash::group_hash_axioms;

/// The probation of one project.
#[derive(Clone, Copy, Debug, PartialEq, Eq, Structural)]
pub struct ProbationRecord {
    pub project_id: u64,
    pub request_id: u64,
    pub approved_by: Addr,
    pub started_at: u64,
    pub probation_until: u64,
    pub is_promoted: bool,
    pub is_revoked: bool,
    pub enhanced_monitoring: bool,
    pub incident_count: u32,
}

/// An incident reported against a project on probation.
pub struct ProbationIncident {
    pub incident_id: u32,
    pub project_id: u64,
    pub reporter: Addr,
    pub details: Vec<u8>,
    pub recorded_at: u64,
}

/// The configured period (default 30 days), the records by project id, the
/// projects on probation, and the reported incidents in order.
pub struct ProbationRegistry {
    pub duration: Option<u64>,
    pub records: HashMap<u64, ProbationRecord>,
    pub active: Vec<u64>,
    pub incidents: Vec<ProbationIncident>,
}

impl ProbationRegistry {
    pub fn new() -> (r: ProbationRegistry)
        ensures
            r.duration is None,
            r.records@ == Map::<u64, ProbationRecord>::empty(),
            r.active@.len() == 0,
            r.incidents@.len() == 0,
    {
        ProbationRegistry { duration: None, records: HashMap::new(), active: Vec::new(), incidents: Vec::new() }
    }

    pub open spec fn spec_duration(&self) -> u64 {
        match self.duration {
            Some(d) => d,
            None => DEFAULT_PROBATIONARY_DURATION_SECS,
        }
    }

    /// Whether a project is on probation at `now`: it has a record, neither
    /// promoted nor revoked, whose period has not ended.
    pub open spec fn spec_in_probation(&self, pid: u64, now: u64) -> bool {
        self.records@.contains_key(pid) && !self.records@[pid].is_revoked && !self.records@[pid].is_promoted
            && now < self.records@[pid].probation_until
    }

    /// The length of the probation period.
    pub fn get_probation_duration(&self) -> (d: u64)
        ensures
            d == self.spec_duration(),
    {
        match self.duration {
            Some(d) => d,
            None => DEFAULT_PROBATIONARY_DURATION_SECS,
        }
    }

    /// Sets the probation period on the word of an administrator, while
    /// changes need no second approval. Zero is refused.
    pub fn set_probation_duration(&mut self, admin: Addr, duration_secs: u64, admins: &AdminManager) -> (r: Result<
        (),
        ContractError,
    >)
        ensures
            r == (if !admins.spec_is_admin(admin) {
                Err(ContractError::AdminOnly)
            } else if admins.spec_threshold() > 1 {
                Err(ContractError::Unauthorized)
            } else if duration_secs == 0 {
                Err(ContractError::InvalidProjectData)
            } else {
                Ok::<(), ContractError>(())
            }),
            r is Err ==> *final(self) == *old(self),
            r is Ok ==> *final(self) == (ProbationRegistry { duration: Some(duration_secs), ..*old(self) }),
    {
        admins.require_admin(admin)?;
        if admins.get_admin_approval_threshold() > 1 {
            return Err(ContractError::Unauthorized);
        }
        if duration_secs == 0 {
            return Err(ContractError::InvalidProjectData);
        }
        self.duration = Some(duration_secs);
        Ok(())
    }

    /// Starts the probation of a project whose verification `admin` just
    /// approved.
    pub fn start_probation(&mut self, project_id: u64, request_id: u64, admin: Addr, now: u64) -> (r: ProbationRecord)
        ensures
            r == (ProbationRecord {
                project_id,
                request_id,
                approved_by: admin,
                started_at: now,
                probation_until: if now + old(self).spec_duration() > u64::MAX { u64::MAX } else { (now + old(self).spec_duration()) as u64 },
                is_promoted: false,
                is_revoked: false,
                enhanced_monitoring: true,
                incident_count: 0,
            }),
            final(self).records@ == old(self).records@.insert(project_id, r),
            final(self).active@ == (if old(self).active@.contains(project_id) { old(self).active@ } else { old(self).active@.push(project_id) }),
            final(self).duration == old(self).duration,
            final(self).incidents == old(self).incidents,
    {
        let duration = self.get_probation_duration();
        let record = ProbationRecord {
            project_id,
            request_id,
            approved_by: admin,
            started_at: now,
            probation_until: now.saturating_add(duration),
            is_promoted: false,
            is_revoked: false,
            enhanced_monitoring: true,
            incident_count: 0,
        };
        self.records.insert(project_id, record);
        if !contains_u64(&self.active, project_id) {
            self.active.push(project_id);
        }
        record
    }

    /// Whether a project is on probation at `now`.
    pub fn is_in_probation(&self, project_id: u64, now: u64) -> (r: bool)
        ensures
            r == self.spec_in_probation(project_id, now),
    {
        match self.records.get(&project_id) {
            Some(rec) => !rec.is_revoked && !rec.is_promoted && now < rec.probation_until,
            None => false,
        }
    }

    /// The probation record of a project, if any.
    pub fn get_probation_record(&self, project_id: u64) -> (r: Option<ProbationRecord>)
        ensures
            r == (if self.records@.contains_key(project_id) { Some(self.records@[project_id]) } else { None }),
    {
        match self.records.get(&project_id) {
            Some(rec) => Some(*rec),
            None => None,
        }
    }

    /// The status to show for a project: `Probationary` for a verified
    /// project on probation, else its stored status; `None` for no project.
    pub fn get_effective_verification_status(&self, project_id: u64, now: u64, projects: &ProjectBook) -> (r: Option<
        VerificationStatus,
    >)
        ensures
            r == (if !projects.has(project_id) {
                None
            } else if projects.at(project_id).verification_status == VerificationStatus::Verified
                && self.spec_in_probation(project_id, now) {
                Some(VerificationStatus::Probationary)
            } else {
                Some(projects.at(project_id).verification_status)
            }),
    {
        let status = match projects.get_project(project_id) {
            Some(p) => p.verification_status,
            None => return None,
        };
        if status == VerificationStatus::Verified {
            if self.is_in_probation(project_id, now) {
                Some(VerificationStatus::Probationary)
            } else {
                Some(VerificationStatus::Verified)
            }
        } else {
            Some(status)
        }
    }

    /// Promotes a project whose probation period has ended; returns whether
    /// it did. Anyone may call it, any number of times.
    pub fn check_and_promote_probation(&mut self, project_id: u64, now: u64) -> (r: Result<bool, ContractError>)
        ensures
            ({
                let rec = old(self).records@[project_id];
                let due = old(self).records@.contains_key(project_id) && !rec.is_revoked && !rec.is_promoted
                    && now >= rec.probation_until;
                &&& r == Ok::<bool, ContractError>(due)
                &&& !due ==> *final(self) == *old(self)
                &&& due ==> final(self).records@ == old(self).records@.insert(
                    project_id,
                    ProbationRecord { is_promoted: true, enhanced_monitoring: false, ..rec },
                ) && final(self).active@ == without(old(self).active@, project_id) && final(self).duration == old(self).duration
                    && final(self).incidents == old(self).incidents
            }),
    {
        let mut record = match self.get_probation_record(project_id) {
            Some(r) => r,
            None => return Ok(false),
        };
        if record.is_revoked || record.is_promoted {
            return Ok(false);
        }
        if now >= record.probation_until {
            record.is_promoted = true;
            record.enhanced_monitoring = false;
            self.records.insert(project_id, record);
            self.active = remove_item_u64(&self.active, project_id);
            Ok(true)
        } else {
            Ok(false)
        }
    }

    /// Revokes the verification of a project on probation, on the word of an
    /// administrator, without a full review: the probation ends revoked, the
    /// project becomes unverified, its verification record notes the reason,
    /// and the action is logged.
    pub fn revoke_during_probation(
        &mut self,
        admin: Addr,
        project_id: u64,
        reason: Vec<u8>,
        now: u64,
        admins: &AdminManager,
        projects: &mut ProjectBook,
        verifications: &mut VerificationBook,
        log: &mut AdminActionLog,
    ) -> (r: Result<(), ContractError>)
        requires
            old(projects).wf(),
            old(verifications).wf(),
            old(log).wf(),
            old(log).has_room(),
        ensures
            final(projects).wf(),
            final(verifications).wf(),
            final(log).wf(),
            r == (if !admins.spec_is_admin(admin) {
                Err(ContractError::AdminOnly)
            } else if admins.spec_threshold() > 1 {
                Err(ContractError::Unauthorized)
            } else if !old(self).spec_in_probation(project_id, now) {
                Err(ContractError::InvalidStatus)
            } else if !old(projects).has(project_id) {
                Err(ContractError::ProjectNotFound)
            } else {
                Ok::<(), ContractError>(())
            }),
            r is Err ==> *final(self) == *old(self) && final(projects).projects@ == old(projects).projects@
                && *final(verifications) == *old(verifications) && *final(log) == *old(log),
            r is Ok ==> {
                let rec = old(self).records@[project_id];
                &&& final(self).records@ == old(self).records@.insert(
                    project_id,
                    ProbationRecord { is_revoked: true, enhanced_monitoring: false, ..rec },
                )
                &&& final(self).active@ == without(old(self).active@, project_id)
                &&& final(self).duration == old(self).duration
                &&& final(self).incidents == old(self).incidents
                &&& final(projects).projects@ == old(projects).projects@.update(
                    project_id - 1,
                    Project {
                        verification_status: VerificationStatus::Unverified,
                        updated_at: now,
                        ..old(projects).at(project_id)
                    },
                )
                &&& old(verifications).has_record(project_id) ==> final(verifications).records@ == old(verifications).records@.update(
                    old(verifications).index_of(project_id),
                    VerificationRecord {
                        status: VerificationStatus::Unverified,
                        revoke_reason: Some(reason),
                        decided_at: now,
                        ..old(verifications).records@[old(verifications).index_of(project_id)]
                    },
                )
                &&& !old(verifications).has_record(project_id) ==> *final(verifications) == *old(verifications)
                &&& AdminActionLog::records(old(log), final(log), admin, AdminActionType::VerificationRevoked, Some(project_id), None, now)
            },
    {
        admins.require_admin(admin)?;
        if admins.get_admin_approval_threshold() > 1 {
            return Err(ContractError::Unauthorized);
        }
        if !self.is_in_probation(project_id, now) {
            return Err(ContractError::InvalidStatus);
        }
        let project = match projects.get_project(project_id) {
            Some(p) => p,
            None => return Err(ContractError::ProjectNotFound),
        };
        let mut record = match self.get_probation_record(project_id) {
            Some(r) => r,
            None => return Err(ContractError::VerificationNotFound),
        };
        record.is_revoked = true;
        record.enhanced_monitoring = false;
        self.records.insert(project_id, record);
        self.active = remove_item_u64(&self.active, project_id);
        projects.set_verification_state_keep(project_id, VerificationStatus::Unverified, now);
        match verifications.find(project_id) {
            Some(idx) => verifications.revoke_at(idx, reason, now),
            None => {},
        }
        log.record_action(admin, AdminActionType::VerificationRevoked, Some(project_id), None, None, now);
        Ok(())
    }

    /// Reports an incident against a project on probation; returns its
    /// number (the project's incident count after it, stopping at the
    /// largest value).
    pub fn record_probation_incident(&mut self, reporter: Addr, project_id: u64, details: Vec<u8>, now: u64) -> (r: Result<
        u32,
        ContractError,
    >)
        ensures
            ({
                let rec = old(self).records@[project_id];
                let n: u32 = if rec.incident_count < u32::MAX { (rec.incident_count + 1) as u32 } else { u32::MAX };
                &&& !old(self).spec_in_probation(project_id, now) ==> r == Err::<u32, ContractError>(ContractError::InvalidStatus)
                    && *final(self) == *old(self)
                &&& old(self).spec_in_probation(project_id, now) ==> {
                    &&& r == Ok::<u32, ContractError>(n)
                    &&& final(self).records@ == old(self).records@.insert(project_id, ProbationRecord { incident_count: n, ..rec })
                    &&& final(self).incidents@.len() == old(self).incidents@.len() + 1
                    &&& final(self).incidents@.drop_last() == old(self).incidents@
                    &&& final(self).incidents@.last().incident_id == n && final(self).incidents@.last().project_id == project_id
                    &&& final(self).incidents@.last().reporter == reporter && final(self).incidents@.last().details@ == details@
                    &&& final(self).incidents@.last().recorded_at == now
                    &&& final(self).active == old(self).active && final(self).duration == old(self).duration
                }
            }),
    {
        if !self.is_in_probation(project_id, now) {
            return Err(ContractError::InvalidStatus);
        }
        let mut record = match self.get_probation_record(project_id) {
            Some(r) => r,
            None => return Err(ContractError::VerificationNotFound),
        };
        let incident_id = record.incident_count.saturating_add(1);
        record.incident_count = incident_id;
        self.incidents.push(ProbationIncident { incident_id, project_id, reporter, details, recorded_at: now });
        self.records.insert(project_id, record);
        proof {
            assert(self.incidents@.drop_last() =~= old(self).incidents@);
        }
        Ok(incident_id)
    }

    /// Number of incidents reported against a project.
    pub fn get_probation_incident_count(&self, project_id: u64) -> (n: u32)
        ensures
            n == (if self.records@.contains_key(project_id) { self.records@[project_id].incident_count } else { 0 }),
    {
        match self.records.get(&project_id) {
            Some(r) => r.incident_count,
            None => 0,
        }
    }

    /// A page of the projects on probation at `now`, in the order their
    /// probations started: positions `start_index` onward, at most `limit`
    /// (0 or more than the cap means the cap).
    pub fn list_probationary_projects(&self, start_index: u32, limit: u32, now: u64) -> (r: Vec<u64>)
        ensures
            ({
                let live = self.active@.filter(|pid: u64| self.spec_in_probation(pid, now));
                let lim: int = if limit == 0 || limit > MAX_PAGE_LIMIT { MAX_PAGE_LIMIT as int } else { limit as int };
                let end = if start_index + lim < live.len() { start_index + lim } else { live.len() as int };
                r@ == (if start_index >= live.len() { Seq::empty() } else { live.subrange(start_index as int, end) })
            }),
    {
        let mut live: Vec<u64> = Vec::new();
        let mut i: usize = 0;
        while i < self.active.len()
            invariant
                i <= self.active@.len(),
                live@ == self.active@.take(i as int).filter(|pid: u64| self.spec_in_probation(pid, now)),
            decreases self.active@.len() - i,
        {
            proof {
                assert(self.active@.take(i + 1).drop_last() =~= self.active@.take(i as int));
                reveal_with_fuel(Seq::<_>::filter, 1);
            }
            let pid = self.active[i];
            if self.is_in_probation(pid, now) {
                live.push(pid);
            }
            i = i + 1;
        }
        assert(self.active@.take(i as int) =~= self.active@);
        let lim: u32 = if limit == 0 || limit > MAX_PAGE_LIMIT { MAX_PAGE_LIMIT } else { limit };
        let total = live.len();
        if start_index as usize >= total {
            return Vec::new();
        }
        let sum: u64 = start_index as u64 + lim as u64;
        let end: usize = if sum < total as u64 { sum as usize } else { total };
        let mut out: Vec<u64> = Vec::new();
        let mut k: usize = start_index as usize;
        while k < end
            invariant
                start_index <= k <= end <= total == live@.len(),
                out@ == live@.subrange(start_index as int, k as int),
            decreases end - k,
        {
            out.push(live[k]);
            k = k + 1;
            assert(out@ =~= live@.subrange(start_index as int, k as int));
        }
        out
    }
}


/// A promoted or revoked probation is over: the project is no longer on
/// probation at any time.
pub proof fn lemma_ended_probation(reg: ProbationRegistry, pid: u64, now: u64)
    requires
        reg.records@.contains_key(pid),
        reg.records@[pid].is_promoted || reg.records@[pid].is_revoked,
    ensures
        !reg.spec_in_probation(pid, now),
{
}

} // verus!
