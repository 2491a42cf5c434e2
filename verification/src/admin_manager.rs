//! Administrators, the approval threshold and multi-signature proposals.
//!
//! A refused request leaves every piece of state as it was.
use vstd::prelude::*;
use crate::admin_action_log::{AdminActionLog, AdminActionType};
use crate::constants::{DEFAULT_VERIFICATION_DURATION_SECS, MAX_PAGE_LIMIT};
use crate::fee_manager::{FeeConfig, FeeManager};
use crate::governance_ranges::{ExternalParams, GovernanceParam, GovernanceRanges, ParamRange};
use crate::types::{Addr, ContractError, ProjectBook, VerificationBook, VerificationStatus, validate_transition, transition_allowed};
use crate::utils::{bytes_eq, contains_addr, copy_text, lemma_without_len, no_dups, remove_item_addr, without};

verus! {

/// The life cycle of a proposal.
#[derive(Clone, Copy, Debug, PartialEq, Eq, Structural)]
pub enum ProposalStatus {
    Pending,
    Approved,
    Rejected,
    Executed,
}

/// The change that a proposal makes once executed.
pub enum ProposalPayload {
    AddAdmin(Addr),
    RemoveAdmin(Addr),
    /// Token, verification fee, registration fee, treasury.
    SetFee(Option<Addr>, u128, u128, Addr),
    SetThreshold(u32),
    ApproveVerification(u64),
    RejectVerification(u64),
    /// Project id and the reason for the revocation.
    RevokeVerification(u64, Vec<u8>),
    /// A new allowed range for a governance parameter.
    SetParamRange(GovernanceParam, ParamRange),
}

/// A proposal together with the administrators who approved it.
pub struct AdminProposal {
    pub id: u64,
    pub proposer: Addr,
    pub action_type: AdminActionType,
    pub payload_hash: Vec<u8>,
    pub payload: ProposalPayload,
    pub approvals: Vec<Addr>,
    pub status: ProposalStatus,
    pub created_at: u64,
    pub expires_at: u64,
}

/// The audit action type that a proposal of this payload records.
pub open spec fn action_type_of(p: ProposalPayload) -> AdminActionType {
    match p {
        ProposalPayload::AddAdmin(_) => AdminActionType::AdminAdded,
        ProposalPayload::RemoveAdmin(_) => AdminActionType::AdminRemoved,
        ProposalPayload::SetFee(_, _, _, _) => AdminActionType::FeeChanged,
        ProposalPayload::SetThreshold(_) => AdminActionType::ThresholdChanged,
        ProposalPayload::ApproveVerification(_) => AdminActionType::VerificationApproved,
        ProposalPayload::RejectVerification(_) => AdminActionType::VerificationRejected,
        ProposalPayload::RevokeVerification(_, _) => AdminActionType::VerificationRevoked,
        ProposalPayload::SetParamRange(_, _) => AdminActionType::ParamRangeChanged,
    }
}

/// `a + b`, capped at `u64::MAX`.
pub open spec fn sat_add(a: u64, b: u64) -> u64 {
    if a + b > u64::MAX { u64::MAX } else { (a + b) as u64 }
}

/// Administrators and governance settings. Proposal `i` sits at position `i`.
pub struct AdminManager {
    pub admins: Vec<Addr>,
    pub approval_threshold: Option<u32>,
    pub verification_duration: Option<u64>,
    pub proposals: Vec<AdminProposal>,
}

impl AdminManager {
    /// No administrator is listed twice, every proposal sits at its id and
    /// no proposal counts an approval twice.
    pub open spec fn wf(&self) -> bool {
        &&& no_dups(self.admins@)
        &&& self.admins@.len() <= u32::MAX
        &&& forall|i: int| 0 <= i < self.proposals@.len() ==> (#[trigger] self.proposals@[i]).id == i
        &&& forall|i: int| 0 <= i < self.proposals@.len() ==> no_dups((#[trigger] self.proposals@[i]).approvals@)
    }

    /// One more administrator and one more proposal can be numbered.
    pub open spec fn has_room(&self) -> bool {
        &&& self.admins@.len() < u32::MAX
        &&& self.proposals@.len() < u64::MAX
    }

    pub open spec fn spec_is_admin(&self, a: Addr) -> bool {
        self.admins@.contains(a)
    }

    /// The configured approval threshold, 1 when none was set.
    pub open spec fn spec_threshold(&self) -> u32 {
        match self.approval_threshold {
            Some(t) => t,
            None => 1,
        }
    }

    pub open spec fn spec_duration(&self) -> u64 {
        match self.verification_duration {
            Some(d) => d,
            None => DEFAULT_VERIFICATION_DURATION_SECS,
        }
    }

    pub fn new() -> (m: AdminManager)
        ensures
            m.wf(),
            m.admins@.len() == 0,
            m.approval_threshold.is_none(),
            m.verification_duration.is_none(),
            m.proposals@.len() == 0,
    {
        AdminManager {
            admins: Vec::new(),
            approval_threshold: None,
            verification_duration: None,
            proposals: Vec::new(),
        }
    }

    /// Makes `admin` the first administrator. Refused once an administrator
    /// list exists.
    pub fn initialize(&mut self, admin: Addr) -> (r: Result<(), ContractError>)
        requires
            old(self).wf(),
        ensures
            final(self).wf(),
            old(self).admins@.len() > 0 ==> r == Err::<(), ContractError>(ContractError::AlreadyInitialized)
                && *final(self) == *old(self),
            old(self).admins@.len() == 0 ==> r is Ok && final(self).admins@ == seq![admin]
                && final(self).approval_threshold == old(self).approval_threshold
                && final(self).verification_duration == old(self).verification_duration
                && final(self).proposals == old(self).proposals,
    {
        if self.admins.len() > 0 {
            return Err(ContractError::AlreadyInitialized);
        }
        self.admins.push(admin);
        proof {
            assert(self.admins@ =~= seq![admin]);
        }
        Ok(())
    }

    /// Whether `address` is an administrator.
    pub fn is_admin(&self, address: Addr) -> (r: bool)
        ensures
            r == self.spec_is_admin(address),
    {
        contains_addr(&self.admins, address)
    }

    /// `Ok` exactly when `address` is an administrator, else `AdminOnly`.
    pub fn require_admin(&self, address: Addr) -> (r: Result<(), ContractError>)
        ensures
            r is Ok == self.spec_is_admin(address),
            r is Err ==> r == Err::<(), ContractError>(ContractError::AdminOnly),
    {
        if self.is_admin(address) {
            Ok(())
        } else {
            Err(ContractError::AdminOnly)
        }
    }

    /// The administrators, in the order they were added.
    pub fn get_admin_list(&self) -> (r: &Vec<Addr>)
        ensures
            r@ == self.admins@,
    {
        &self.admins
    }

    pub fn get_admin_count(&self) -> (n: u32)
        requires
            self.wf(),
        ensures
            n == self.admins@.len(),
    {
        self.admins.len() as u32
    }

    /// Adds `new_admin` on the word of administrator `caller`. Adding an
    /// existing administrator changes nothing; once the threshold is above
    /// 1 the change must go through a proposal.
    pub fn add_admin(&mut self, caller: Addr, new_admin: Addr, log: &mut AdminActionLog, now: u64) -> (r:
        Result<(), ContractError>)
        requires
            old(self).wf(),
            old(self).has_room(),
            old(log).wf(),
            old(log).has_room(),
        ensures
            final(self).wf(),
            final(log).wf(),
            !old(self).spec_is_admin(caller) ==> r == Err::<(), ContractError>(ContractError::AdminOnly),
            old(self).spec_is_admin(caller) && old(self).spec_threshold() > 1 ==> r == Err::<
                (),
                ContractError,
            >(ContractError::MultiSigRequired),
            r is Err ==> *final(self) == *old(self) && *final(log) == *old(log),
            old(self).spec_is_admin(caller) && old(self).spec_threshold() <= 1 ==> r is Ok,
            r is Ok && old(self).spec_is_admin(new_admin) ==> *final(self) == *old(self) && *final(log)
                == *old(log),
            r is Ok && !old(self).spec_is_admin(new_admin) ==> {
                &&& final(self).admins@ == old(self).admins@.push(new_admin)
                &&& final(self).approval_threshold == old(self).approval_threshold
                &&& final(self).verification_duration == old(self).verification_duration
                &&& final(self).proposals == old(self).proposals
                &&& AdminActionLog::records(
                    old(log),
                    final(log),
                    caller,
                    AdminActionType::AdminAdded,
                    None,
                    Some(new_admin),
                    now,
                )
            },
    {
        self.require_admin(caller)?;
        if self.get_admin_approval_threshold() > 1 {
            return Err(ContractError::MultiSigRequired);
        }
        if self.is_admin(new_admin) {
            return Ok(());
        }
        self.push_admin(new_admin);
        log.record_action(caller, AdminActionType::AdminAdded, None, Some(new_admin), None, now);
        Ok(())
    }

    fn push_admin(&mut self, a: Addr)
        requires
            old(self).wf(),
            old(self).has_room(),
            !old(self).spec_is_admin(a),
        ensures
            final(self).wf(),
            final(self).admins@ == old(self).admins@.push(a),
            final(self).approval_threshold == old(self).approval_threshold,
            final(self).verification_duration == old(self).verification_duration,
            final(self).proposals == old(self).proposals,
    {
        self.admins.push(a);
        proof {
            let s = self.admins@;
            assert forall|i: int, j: int| 0 <= i < s.len() && 0 <= j < s.len() && i != j implies s[i]
                != s[j] by {
                if i == s.len() - 1 {
                    if s[j] == a {
                        assert(old(self).admins@[j] == a);
                    }
                } else if j == s.len() - 1 {
                    if s[i] == a {
                        assert(old(self).admins@[i] == a);
                    }
                }
            }
        }
    }

    fn drop_admin(&mut self, a: Addr)
        requires
            old(self).wf(),
            old(self).spec_is_admin(a),
        ensures
            final(self).wf(),
            final(self).admins@ == without(old(self).admins@, a),
            final(self).admins@.len() == old(self).admins@.len() - 1,
            final(self).approval_threshold == old(self).approval_threshold,
            final(self).verification_duration == old(self).verification_duration,
            final(self).proposals == old(self).proposals,
    {
        let updated = remove_item_addr(&self.admins, a);
        proof {
            lemma_without_len(self.admins@, a);
        }
        self.admins = updated;
    }

    /// Removes `admin_to_remove` on the word of administrator `caller`. The
    /// last administrator cannot be removed; once the threshold is above 1
    /// the change must go through a proposal.
    pub fn remove_admin(
        &mut self,
        caller: Addr,
        admin_to_remove: Addr,
        log: &mut AdminActionLog,
        now: u64,
    ) -> (r: Result<(), ContractError>)
        requires
            old(self).wf(),
            old(log).wf(),
            old(log).has_room(),
        ensures
            final(self).wf(),
            final(log).wf(),
            r == (if !old(self).spec_is_admin(caller) {
                Err(ContractError::AdminOnly)
            } else if old(self).spec_threshold() > 1 {
                Err(ContractError::MultiSigRequired)
            } else if !old(self).spec_is_admin(admin_to_remove) {
                Err(ContractError::AdminNotFound)
            } else if old(self).admins@.len() <= 1 {
                Err(ContractError::CannotRemoveLastAdmin)
            } else {
                Ok::<(), ContractError>(())
            }),
            r is Err ==> *final(self) == *old(self) && *final(log) == *old(log),
            r is Ok ==> {
                &&& final(self).admins@ == without(old(self).admins@, admin_to_remove)
                &&& final(self).admins@.len() == old(self).admins@.len() - 1
                &&& final(self).approval_threshold == old(self).approval_threshold
                &&& final(self).verification_duration == old(self).verification_duration
                &&& final(self).proposals == old(self).proposals
                &&& AdminActionLog::records(
                    old(log),
                    final(log),
                    caller,
                    AdminActionType::AdminRemoved,
                    None,
                    Some(admin_to_remove),
                    now,
                )
            },
    {
        self.require_admin(caller)?;
        if self.get_admin_approval_threshold() > 1 {
            return Err(ContractError::MultiSigRequired);
        }
        if !self.is_admin(admin_to_remove) {
            return Err(ContractError::AdminNotFound);
        }
        if self.admins.len() <= 1 {
            return Err(ContractError::CannotRemoveLastAdmin);
        }
        self.drop_admin(admin_to_remove);
        log.record_action(caller, AdminActionType::AdminRemoved, None, Some(admin_to_remove), None, now);
        Ok(())
    }

    /// Sets how long an approved verification stays active, on the word of
    /// an administrator; zero restores the default.
    pub fn set_verification_duration(&mut self, caller: Addr, duration_secs: u64) -> (r: Result<
        (),
        ContractError,
    >)
        requires
            old(self).wf(),
        ensures
            final(self).wf(),
            r is Ok == old(self).spec_is_admin(caller),
            r is Err ==> r == Err::<(), ContractError>(ContractError::AdminOnly) && *final(self)
                == *old(self),
            r is Ok ==> final(self).verification_duration == (if duration_secs == 0 { None } else { Some(duration_secs) })
                && final(self).spec_duration() == (if duration_secs == 0 { DEFAULT_VERIFICATION_DURATION_SECS } else { duration_secs })
                && final(self).admins
                == old(self).admins && final(self).approval_threshold == old(self).approval_threshold
                && final(self).proposals == old(self).proposals,
    {
        self.require_admin(caller)?;
        self.verification_duration = if duration_secs == 0 { None } else { Some(duration_secs) };
        Ok(())
    }

    /// The configured verification duration, or the default.
    pub fn get_verification_duration(&self) -> (d: u64)
        ensures
            d == self.spec_duration(),
    {
        match self.verification_duration {
            Some(d) => d,
            None => DEFAULT_VERIFICATION_DURATION_SECS,
        }
    }

    /// The number of approvals a proposal needs; 1 unless configured.
    pub fn get_admin_approval_threshold(&self) -> (t: u32)
        ensures
            t == self.spec_threshold(),
    {
        match self.approval_threshold {
            Some(t) => t,
            None => 1,
        }
    }

    /// Sets the approval threshold directly. Allowed only while the
    /// threshold is at most 1; afterwards only a proposal can change it.
    pub fn set_admin_approval_threshold(&mut self, caller: Addr, threshold: u32) -> (r: Result<
        (),
        ContractError,
    >)
        requires
            old(self).wf(),
        ensures
            final(self).wf(),
            r == (if !old(self).spec_is_admin(caller) {
                Err(ContractError::AdminOnly)
            } else if threshold == 0 || threshold > old(self).admins@.len() {
                Err(ContractError::InvalidProjectData)
            } else if old(self).spec_threshold() > 1 {
                Err(ContractError::Unauthorized)
            } else {
                Ok::<(), ContractError>(())
            }),
            r is Err ==> *final(self) == *old(self),
            r is Ok ==> final(self).approval_threshold == Some(threshold) && final(self).admins
                == old(self).admins && final(self).verification_duration == old(
                self,
            ).verification_duration && final(self).proposals == old(self).proposals,
    {
        self.require_admin(caller)?;
        if threshold == 0 || threshold > self.get_admin_count() {
            return Err(ContractError::InvalidProjectData);
        }
        let current_threshold = self.get_admin_approval_threshold();
        if current_threshold > 1 {
            return Err(ContractError::Unauthorized);
        }
        self.approval_threshold = Some(threshold);
        Ok(())
    }

    /// The audit action type of a payload.
    pub fn action_type_for(payload: &ProposalPayload) -> (t: AdminActionType)
        ensures
            t == action_type_of(*payload),
    {
        match payload {
            ProposalPayload::AddAdmin(_) => AdminActionType::AdminAdded,
            ProposalPayload::RemoveAdmin(_) => AdminActionType::AdminRemoved,
            ProposalPayload::SetFee(_, _, _, _) => AdminActionType::FeeChanged,
            ProposalPayload::SetThreshold(_) => AdminActionType::ThresholdChanged,
            ProposalPayload::ApproveVerification(_) => AdminActionType::VerificationApproved,
            ProposalPayload::RejectVerification(_) => AdminActionType::VerificationRejected,
            ProposalPayload::RevokeVerification(_, _) => AdminActionType::VerificationRevoked,
            ProposalPayload::SetParamRange(_, _) => AdminActionType::ParamRangeChanged,
        }
    }

    /// Files a proposal with the proposer's approval already counted. It
    /// starts `Approved` when one approval meets the threshold, else
    /// `Pending`. `payload_hash` is the digest of the payload's encoding.
    pub fn create_proposal(
        &mut self,
        proposer: Addr,
        payload: ProposalPayload,
        expires_at: u64,
        payload_hash: Vec<u8>,
        now: u64,
    ) -> (r: Result<u64, ContractError>)
        requires
            old(self).wf(),
            old(self).has_room(),
        ensures
            final(self).wf(),
            r is Err <==> !old(self).spec_is_admin(proposer),
            r is Err ==> r == Err::<u64, ContractError>(ContractError::AdminOnly) && *final(self)
                == *old(self),
            r is Ok ==> {
                let id = r->Ok_0;
                let p = final(self).proposals@.last();
                &&& id == old(self).proposals@.len()
                &&& final(self).proposals@.len() == old(self).proposals@.len() + 1
                &&& final(self).proposals@.drop_last() == old(self).proposals@
                &&& p.id == id
                &&& p.proposer == proposer
                &&& p.action_type == action_type_of(payload)
                &&& p.payload_hash@ == payload_hash@
                &&& p.payload == payload
                &&& p.approvals@ == seq![proposer]
                &&& p.status == (if 1 >= old(self).spec_threshold() {
                    ProposalStatus::Approved
                } else {
                    ProposalStatus::Pending
                })
                &&& p.created_at == now
                &&& p.expires_at == expires_at
                &&& final(self).admins == old(self).admins
                &&& final(self).approval_threshold == old(self).approval_threshold
                &&& final(self).verification_duration == old(self).verification_duration
            },
    {
        self.require_admin(proposer)?;
        let id = self.proposals.len() as u64;
        let action_type = Self::action_type_for(&payload);
        let mut approvals: Vec<Addr> = Vec::new();
        approvals.push(proposer);
        let threshold = self.get_admin_approval_threshold();
        let status = if approvals.len() as u64 >= threshold as u64 {
            ProposalStatus::Approved
        } else {
            ProposalStatus::Pending
        };
        let ghost hash_view = payload_hash@;
        let proposal = AdminProposal {
            id,
            proposer,
            action_type,
            payload_hash,
            payload,
            approvals,
            status,
            created_at: now,
            expires_at,
        };
        self.proposals.push(proposal);
        proof {
            assert(self.proposals@.drop_last() =~= old(self).proposals@);
            assert(approvals@ =~= seq![proposer]);
            assert forall|i: int| 0 <= i < self.proposals@.len() implies no_dups(
                (#[trigger] self.proposals@[i]).approvals@,
            ) by {
                if i < old(self).proposals@.len() {
                    assert(self.proposals@[i] == old(self).proposals@[i]);
                }
            }
        }
        Ok(id)
    }

    /// Adds `admin`'s approval to a pending proposal; the proposal becomes
    /// `Approved` once its approvals reach the threshold.
    pub fn approve_proposal(&mut self, admin: Addr, proposal_id: u64) -> (r: Result<(), ContractError>)
        requires
            old(self).wf(),
            old(self).admins@.len() < u32::MAX,
        ensures
            final(self).wf(),
            r == (if !old(self).spec_is_admin(admin) {
                Err(ContractError::AdminOnly)
            } else if proposal_id >= old(self).proposals@.len() {
                Err(ContractError::InvalidStatus)
            } else if old(self).proposals@[proposal_id as int].status != ProposalStatus::Pending {
                Err(ContractError::InvalidStatus)
            } else if old(self).proposals@[proposal_id as int].approvals@.contains(admin) {
                Err(ContractError::Unauthorized)
            } else {
                Ok::<(), ContractError>(())
            }),
            r is Err ==> *final(self) == *old(self),
            r is Ok ==> {
                let p = old(self).proposals@[proposal_id as int];
                let q = final(self).proposals@[proposal_id as int];
                &&& final(self).proposals@.len() == old(self).proposals@.len()
                &&& forall|i: int| 0 <= i < old(self).proposals@.len() && i != proposal_id
                    ==> #[trigger] final(self).proposals@[i] == old(self).proposals@[i]
                &&& q.approvals@ == p.approvals@.push(admin)
                &&& q.status == (if p.approvals@.len() + 1 >= old(self).spec_threshold() {
                    ProposalStatus::Approved
                } else {
                    ProposalStatus::Pending
                })
                &&& q.id == p.id && q.proposer == p.proposer && q.action_type == p.action_type
                &&& q.payload_hash == p.payload_hash && q.payload == p.payload
                &&& q.created_at == p.created_at && q.expires_at == p.expires_at
                &&& final(self).admins == old(self).admins
                &&& final(self).approval_threshold == old(self).approval_threshold
                &&& final(self).verification_duration == old(self).verification_duration
            },
    {
        self.require_admin(admin)?;
        if proposal_id >= self.proposals.len() as u64 {
            return Err(ContractError::InvalidStatus);
        }
        let idx = proposal_id as usize;
        if self.proposals[idx].status != ProposalStatus::Pending {
            return Err(ContractError::InvalidStatus);
        }
        if contains_addr(&self.proposals[idx].approvals, admin) {
            return Err(ContractError::Unauthorized);
        }
        let threshold = self.get_admin_approval_threshold();
        let mut proposal = self.proposals.remove(idx);
        let ghost p0 = proposal;
        proposal.approvals.push(admin);
        if proposal.approvals.len() as u64 >= threshold as u64 {
            proposal.status = ProposalStatus::Approved;
        }
        self.proposals.insert(idx, proposal);
        proof {
            assert(self.proposals@ =~= old(self).proposals@.update(idx as int, proposal));
            let s = proposal.approvals@;
            assert(no_dups(p0.approvals@));
            assert forall|i: int, j: int| 0 <= i < s.len() && 0 <= j < s.len() && i != j implies s[i]
                != s[j] by {
                if i == s.len() - 1 && s[j] == admin {
                    assert(p0.approvals@[j] == admin);
                }
                if j == s.len() - 1 && s[i] == admin {
                    assert(p0.approvals@[i] == admin);
                }
            }
            assert forall|i: int| 0 <= i < self.proposals@.len() implies no_dups(
                (#[trigger] self.proposals@[i]).approvals@,
            ) by {
                if i != idx {
                    assert(self.proposals@[i] == old(self).proposals@[i]);
                }
            }
        }
        Ok(())
    }

    /// Rejects a pending proposal.
    pub fn reject_proposal(&mut self, admin: Addr, proposal_id: u64) -> (r: Result<(), ContractError>)
        requires
            old(self).wf(),
        ensures
            final(self).wf(),
            r == (if !old(self).spec_is_admin(admin) {
                Err(ContractError::AdminOnly)
            } else if proposal_id >= old(self).proposals@.len() {
                Err(ContractError::InvalidStatus)
            } else if old(self).proposals@[proposal_id as int].status != ProposalStatus::Pending {
                Err(ContractError::InvalidStatus)
            } else {
                Ok::<(), ContractError>(())
            }),
            r is Err ==> *final(self) == *old(self),
            r is Ok ==> final(self).proposals@ == old(self).proposals@.update(
                proposal_id as int,
                AdminProposal {
                    status: ProposalStatus::Rejected,
                    ..old(self).proposals@[proposal_id as int]
                },
            ) && final(self).admins == old(self).admins && final(self).approval_threshold == old(
                self,
            ).approval_threshold && final(self).verification_duration == old(
                self,
            ).verification_duration,
    {
        self.require_admin(admin)?;
        if proposal_id >= self.proposals.len() as u64 {
            return Err(ContractError::InvalidStatus);
        }
        let idx = proposal_id as usize;
        if self.proposals[idx].status != ProposalStatus::Pending {
            return Err(ContractError::InvalidStatus);
        }
        self.set_proposal_status(idx, ProposalStatus::Rejected);
        Ok(())
    }

    fn set_proposal_status(&mut self, idx: usize, status: ProposalStatus)
        requires
            old(self).wf(),
            idx < old(self).proposals@.len(),
        ensures
            final(self).wf(),
            final(self).proposals@ == old(self).proposals@.update(
                idx as int,
                AdminProposal { status, ..old(self).proposals@[idx as int] },
            ),
            final(self).admins == old(self).admins,
            final(self).approval_threshold == old(self).approval_threshold,
            final(self).verification_duration == old(self).verification_duration,
    {
        let mut proposal = self.proposals.remove(idx);
        proposal.status = status;
        self.proposals.insert(idx, proposal);
        proof {
            assert(self.proposals@ =~= old(self).proposals@.update(idx as int, proposal));
            assert forall|i: int| 0 <= i < self.proposals@.len() implies no_dups(
                (#[trigger] self.proposals@[i]).approvals@,
            ) by {
                if i != idx {
                    assert(self.proposals@[i] == old(self).proposals@[i]);
                }
            }
        }
    }

    /// The error, if any, that refuses executing proposal `id` given the
    /// digest `hash` of its stored payload, in the order the checks run.
    pub open spec fn execute_error(
        &self,
        caller: Addr,
        id: u64,
        hash: Seq<u8>,
        now: u64,
        projects: &ProjectBook,
        verifications: &VerificationBook,
        fees: &FeeManager,
        ext: ExternalParams,
    ) -> Option<ContractError> {
        if !self.spec_is_admin(caller) {
            Some(ContractError::AdminOnly)
        } else if id >= self.proposals@.len() {
            Some(ContractError::InvalidStatus)
        } else {
            let p = self.proposals@[id as int];
            if hash != p.payload_hash@ {
                Some(ContractError::PayloadHashMismatch)
            } else if p.expires_at != 0 && now >= p.expires_at {
                Some(ContractError::ProposalExpired)
            } else if p.status != ProposalStatus::Approved {
                Some(ContractError::InvalidStatus)
            } else if p.approvals@.len() < self.spec_threshold() {
                Some(ContractError::Unauthorized)
            } else {
                match p.payload {
                    ProposalPayload::AddAdmin(_) => None,
                    ProposalPayload::RemoveAdmin(a) => if !self.spec_is_admin(a) {
                        Some(ContractError::AdminNotFound)
                    } else if self.admins@.len() <= 1 {
                        Some(ContractError::CannotRemoveLastAdmin)
                    } else {
                        None
                    },
                    ProposalPayload::SetFee(_, _, _, _) => None,
                    ProposalPayload::SetThreshold(t) => if t == 0 || t > self.admins@.len() {
                        Some(ContractError::InvalidProjectData)
                    } else if t < self.spec_threshold() && p.approvals@.len() <= t {
                        Some(ContractError::ThresholdDowngradeRequiresSupermajority)
                    } else {
                        None
                    },
                    ProposalPayload::ApproveVerification(pid) => if !projects.has(pid) {
                        Some(ContractError::ProjectNotFound)
                    } else if !verifications.has_record(pid) {
                        Some(ContractError::VerificationNotFound)
                    } else if !transition_allowed(projects.at(pid).verification_status, VerificationStatus::Verified) {
                        Some(ContractError::InvalidStatusTransition)
                    } else {
                        None
                    },
                    ProposalPayload::RejectVerification(pid) => if !projects.has(pid) {
                        Some(ContractError::ProjectNotFound)
                    } else if !verifications.has_record(pid) {
                        Some(ContractError::VerificationNotFound)
                    } else if !transition_allowed(projects.at(pid).verification_status, VerificationStatus::Rejected) {
                        Some(ContractError::InvalidStatusTransition)
                    } else {
                        None
                    },
                    ProposalPayload::RevokeVerification(pid, _) => if !projects.has(pid) {
                        Some(ContractError::ProjectNotFound)
                    } else if projects.at(pid).verification_status != VerificationStatus::Verified {
                        Some(ContractError::InvalidStatus)
                    } else if !verifications.has_record(pid) {
                        Some(ContractError::VerificationNotFound)
                    } else {
                        None
                    },
                    ProposalPayload::SetParamRange(param, range) => if range.min > range.max {
                        Some(ContractError::InvalidParamRange)
                    } else if !range.spec_contains(GovernanceRanges::spec_current_value(param, self, fees, ext)) {
                        Some(ContractError::InvalidParamRange)
                    } else {
                        None
                    },
                }
            }
        }
    }

    /// Executes an approved proposal whose stored payload still has the
    /// digest `computed_hash` and that has not expired, applies its payload
    /// and marks it `Executed`. A range change is applied and logged as
    /// `GovernanceRanges::apply_range` does.
    #[verifier::spinoff_prover]
    #[verifier::rlimit(60)]
    pub fn execute_proposal(
        &mut self,
        caller: Addr,
        proposal_id: u64,
        computed_hash: &Vec<u8>,
        now: u64,
        fees: &mut FeeManager,
        projects: &mut ProjectBook,
        verifications: &mut VerificationBook,
        ranges: &mut GovernanceRanges,
        ext: ExternalParams,
        log: &mut AdminActionLog,
    ) -> (r: Result<(), ContractError>)
        requires
            old(self).wf(),
            old(self).has_room(),
            old(projects).wf(),
            old(verifications).wf(),
            old(log).wf(),
            old(log).has_room(),
        ensures
            final(self).wf(),
            final(projects).wf(),
            final(verifications).wf(),
            final(log).wf(),
            ({
                let e = old(self).execute_error(
                    caller,
                    proposal_id,
                    computed_hash@,
                    now,
                    old(projects),
                    old(verifications),
                    old(fees),
                    ext,
                );
                &&& e is Some ==> r == Err::<(), ContractError>(e->Some_0)
                &&& e is None ==> r is Ok
            }),
            r is Err ==> *final(ranges) == *old(ranges) && *final(log) == *old(log),
            r is Ok && !(old(self).proposals@[proposal_id as int].payload is SetParamRange) ==> *final(ranges)
                == *old(ranges) && *final(log) == *old(log),
            r is Err ==> *final(self) == *old(self) && *final(fees) == *old(fees) && *final(projects)
                == *old(projects) && *final(verifications) == *old(verifications),
            r is Ok ==> {
                let p = old(self).proposals@[proposal_id as int];
                &&& final(self).proposals@ == old(self).proposals@.update(
                    proposal_id as int,
                    AdminProposal { status: ProposalStatus::Executed, ..p },
                )
                &&& final(self).verification_duration == old(self).verification_duration
                &&& match p.payload {
                    ProposalPayload::AddAdmin(a) => {
                        &&& final(self).admins@ == (if old(self).spec_is_admin(a) {
                            old(self).admins@
                        } else {
                            old(self).admins@.push(a)
                        })
                        &&& final(self).approval_threshold == old(self).approval_threshold
                        &&& *final(fees) == *old(fees)
                        &&& *final(projects) == *old(projects)
                        &&& *final(verifications) == *old(verifications)
                    },
                    ProposalPayload::RemoveAdmin(a) => {
                        &&& final(self).admins@ == without(old(self).admins@, a)
                        &&& final(self).admins@.len() == old(self).admins@.len() - 1
                        &&& final(self).approval_threshold == old(self).approval_threshold
                        &&& *final(fees) == *old(fees)
                        &&& *final(projects) == *old(projects)
                        &&& *final(verifications) == *old(verifications)
                    },
                    ProposalPayload::SetFee(token, verification_fee, registration_fee, treasury) => {
                        &&& final(fees).fee_config == Some(FeeConfig { token, verification_fee, registration_fee })
                        &&& final(fees).treasury == Some(treasury)
                        &&& final(fees).history == old(fees).history
                        &&& final(fees).project_paid == old(fees).project_paid
                        &&& final(fees).project_payments == old(fees).project_payments
                        &&& final(fees).registration_paid == old(fees).registration_paid
                        &&& final(fees).registration_payments == old(fees).registration_payments
                        &&& final(fees).refunds == old(fees).refunds
                        &&& final(self).admins == old(self).admins
                        &&& final(self).approval_threshold == old(self).approval_threshold
                        &&& *final(projects) == *old(projects)
                        &&& *final(verifications) == *old(verifications)
                    },
                    ProposalPayload::SetThreshold(t) => {
                        &&& final(self).approval_threshold == Some(t)
                        &&& final(self).admins == old(self).admins
                        &&& *final(fees) == *old(fees)
                        &&& *final(projects) == *old(projects)
                        &&& *final(verifications) == *old(verifications)
                    },
                    ProposalPayload::ApproveVerification(pid) => {
                        let i = old(verifications).index_of(pid);
                        let rec = old(verifications).records@[i];
                        &&& final(verifications).records@ == old(verifications).records@.update(
                            i,
                            crate::types::VerificationRecord {
                                status: VerificationStatus::Verified,
                                decided_at: now,
                                expires_at: sat_add(now, old(self).spec_duration()),
                                ..rec
                            },
                        )
                        &&& final(projects).projects@ == old(projects).projects@.update(
                            pid - 1,
                            crate::types::Project {
                                verification_status: VerificationStatus::Verified,
                                current_verification_id: Some(rec.request_id),
                                updated_at: now,
                                ..old(projects).at(pid)
                            },
                        )
                        &&& final(self).admins == old(self).admins
                        &&& final(self).approval_threshold == old(self).approval_threshold
                        &&& *final(fees) == *old(fees)
                    },
                    ProposalPayload::RejectVerification(pid) => {
                        let i = old(verifications).index_of(pid);
                        let rec = old(verifications).records@[i];
                        &&& final(verifications).records@ == old(verifications).records@.update(
                            i,
                            crate::types::VerificationRecord {
                                status: VerificationStatus::Rejected,
                                decided_at: now,
                                ..rec
                            },
                        )
                        &&& final(projects).projects@ == old(projects).projects@.update(
                            pid - 1,
                            crate::types::Project {
                                verification_status: VerificationStatus::Rejected,
                                current_verification_id: Some(rec.request_id),
                                updated_at: now,
                                ..old(projects).at(pid)
                            },
                        )
                        &&& final(self).admins == old(self).admins
                        &&& final(self).approval_threshold == old(self).approval_threshold
                        &&& *final(fees) == *old(fees)
                    },
                    ProposalPayload::RevokeVerification(pid, reason) => {
                        let i = old(verifications).index_of(pid);
                        let rec = old(verifications).records@[i];
                        let new_rec = final(verifications).records@[i];
                        &&& new_rec.status == VerificationStatus::Unverified
                        &&& new_rec.revoke_reason matches Some(rr) && rr@ == reason@
                        &&& new_rec.request_id == rec.request_id
                        &&& new_rec.project_id == rec.project_id
                        &&& new_rec.requester == rec.requester
                        &&& new_rec.evidence_cid == rec.evidence_cid
                        &&& new_rec.requested_at == rec.requested_at
                        &&& new_rec.decided_at == rec.decided_at
                        &&& new_rec.expires_at == rec.expires_at
                        &&& final(verifications).records@.len() == old(verifications).records@.len()
                        &&& forall|j: int| 0 <= j < old(verifications).records@.len() && j != i
                            ==> #[trigger] final(verifications).records@[j] == old(verifications).records@[j]
                        &&& final(projects).projects@ == old(projects).projects@.update(
                            pid - 1,
                            crate::types::Project {
                                verification_status: VerificationStatus::Unverified,
                                current_verification_id: Some(rec.request_id),
                                updated_at: now,
                                ..old(projects).at(pid)
                            },
                        )
                        &&& final(self).admins == old(self).admins
                        &&& final(self).approval_threshold == old(self).approval_threshold
                        &&& *final(fees) == *old(fees)
                    },
                    ProposalPayload::SetParamRange(param, range) => {
                        &&& GovernanceRanges::only_changed(old(ranges), final(ranges), param, range)
                        &&& AdminActionLog::records(old(log), final(log), caller, AdminActionType::ParamRangeChanged, None, None, now)
                        &&& final(self).admins == old(self).admins
                        &&& final(self).approval_threshold == old(self).approval_threshold
                        &&& *final(fees) == *old(fees)
                        &&& *final(projects) == *old(projects)
                        &&& *final(verifications) == *old(verifications)
                    },
                }
            },
    {
        self.require_admin(caller)?;
        if proposal_id >= self.proposals.len() as u64 {
            return Err(ContractError::InvalidStatus);
        }
        let idx = proposal_id as usize;
        if !bytes_eq(computed_hash, &self.proposals[idx].payload_hash) {
            return Err(ContractError::PayloadHashMismatch);
        }
        let expires_at = self.proposals[idx].expires_at;
        if expires_at != 0 && now >= expires_at {
            return Err(ContractError::ProposalExpired);
        }
        if self.proposals[idx].status != ProposalStatus::Approved {
            return Err(ContractError::InvalidStatus);
        }
        let threshold = self.get_admin_approval_threshold();
        let approvals = self.proposals[idx].approvals.len();
        if (approvals as u64) < (threshold as u64) {
            return Err(ContractError::Unauthorized);
        }
        match &self.proposals[idx].payload {
            ProposalPayload::AddAdmin(new_admin) => {
                let a = *new_admin;
                if !self.is_admin(a) {
                    self.push_admin(a);
                }
            },
            ProposalPayload::RemoveAdmin(admin_to_remove) => {
                let a = *admin_to_remove;
                if !self.is_admin(a) {
                    return Err(ContractError::AdminNotFound);
                }
                if self.admins.len() <= 1 {
                    return Err(ContractError::CannotRemoveLastAdmin);
                }
                self.drop_admin(a);
            },
            ProposalPayload::SetFee(token, verification_fee, registration_fee, treasury) => {
                fees.fee_config = Some(
                    FeeConfig {
                        token: *token,
                        verification_fee: *verification_fee,
                        registration_fee: *registration_fee,
                    },
                );
                fees.treasury = Some(*treasury);
            },
            ProposalPayload::SetThreshold(new_threshold) => {
                let t = *new_threshold;
                if t == 0 || t > self.get_admin_count() {
                    return Err(ContractError::InvalidProjectData);
                }
                if t < threshold && approvals as u64 <= t as u64 {
                    return Err(ContractError::ThresholdDowngradeRequiresSupermajority);
                }
                self.approval_threshold = Some(t);
            },
            ProposalPayload::ApproveVerification(project_id) => {
                let pid = *project_id;
                let status = match projects.get_project(pid) {
                    Some(p) => p.verification_status,
                    None => return Err(ContractError::ProjectNotFound),
                };
                let ri = match verifications.find(pid) {
                    Some(ri) => ri,
                    None => return Err(ContractError::VerificationNotFound),
                };
                validate_transition(status, VerificationStatus::Verified)?;
                let request_id = verifications.records[ri].request_id;
                let expires = now.saturating_add(self.get_verification_duration());
                verifications.decide(ri, VerificationStatus::Verified, now, expires);
                projects.set_verification_state(pid, VerificationStatus::Verified, request_id, now);
            },
            ProposalPayload::RejectVerification(project_id) => {
                let pid = *project_id;
                let status = match projects.get_project(pid) {
                    Some(p) => p.verification_status,
                    None => return Err(ContractError::ProjectNotFound),
                };
                let ri = match verifications.find(pid) {
                    Some(ri) => ri,
                    None => return Err(ContractError::VerificationNotFound),
                };
                validate_transition(status, VerificationStatus::Rejected)?;
                let request_id = verifications.records[ri].request_id;
                let expires = verifications.records[ri].expires_at;
                verifications.decide(ri, VerificationStatus::Rejected, now, expires);
                projects.set_verification_state(pid, VerificationStatus::Rejected, request_id, now);
            },
            ProposalPayload::RevokeVerification(project_id, reason) => {
                let pid = *project_id;
                let status = match projects.get_project(pid) {
                    Some(p) => p.verification_status,
                    None => return Err(ContractError::ProjectNotFound),
                };
                if status != VerificationStatus::Verified {
                    return Err(ContractError::InvalidStatus);
                }
                let ri = match verifications.find(pid) {
                    Some(ri) => ri,
                    None => return Err(ContractError::VerificationNotFound),
                };
                let request_id = verifications.records[ri].request_id;
                let r = copy_text(reason);
                verifications.revoke(ri, r);
                projects.set_verification_state(pid, VerificationStatus::Unverified, request_id, now);
            },
            ProposalPayload::SetParamRange(param, range) => {
                let pm = *param;
                let rg = *range;
                ranges.apply_range(caller, pm, rg, &*self, &*fees, ext, log, now)?;
            },
        }
        self.set_proposal_status(idx, ProposalStatus::Executed);
        Ok(())
    }

    /// The proposal with this id, if there is one.
    pub fn get_proposal(&self, proposal_id: u64) -> (r: Option<&AdminProposal>)
        ensures
            r.is_some() == (proposal_id < self.proposals@.len()),
            r.is_some() ==> *r.unwrap() == self.proposals@[proposal_id as int],
    {
        if proposal_id < self.proposals.len() as u64 {
            Some(&self.proposals[proposal_id as usize])
        } else {
            None
        }
    }

    /// A page of proposals in id order: those with ids `start`,
    /// `start + 1`, ..., at most `min(limit, MAX_PAGE_LIMIT)` of them.
    pub fn list_proposals(&self, start: u32, limit: u32) -> (page: Vec<&AdminProposal>)
        ensures
            ({
                let total = self.proposals@.len() as int;
                let lim = if limit < MAX_PAGE_LIMIT { limit as int } else { MAX_PAGE_LIMIT as int };
                let avail = if start >= total { 0 } else { total - start };
                let n = if avail < lim { avail } else { lim };
                &&& page@.len() == n
                &&& forall|k: int| 0 <= k < n ==> *(#[trigger] page@[k]) == self.proposals@[start + k]
            }),
    {
        let lim: u32 = if limit < MAX_PAGE_LIMIT { limit } else { MAX_PAGE_LIMIT };
        let total = self.proposals.len();
        let mut page: Vec<&AdminProposal> = Vec::new();
        let mut i: usize = start as usize;
        let mut count: u32 = 0;
        while i < total && count < lim
            invariant
                total == self.proposals@.len(),
                start <= i,
                i <= total || i == start,
                count == i - start,
                count <= lim,
                lim == (if limit < MAX_PAGE_LIMIT { limit } else { MAX_PAGE_LIMIT }),
                page@.len() == count,
                forall|k: int| 0 <= k < count ==> *(#[trigger] page@[k]) == self.proposals@[start + k],
            decreases total - i,
        {
            page.push(&self.proposals[i]);
            count = count + 1;
            i = i + 1;
        }
        page
    }
}

/// A proposal executes only once it is approved and at least as many
/// distinct administrators as the threshold asks for have approved it.
pub proof fn lemma_execution_needs_threshold(
    m: AdminManager,
    caller: Addr,
    id: u64,
    hash: Seq<u8>,
    now: u64,
    projects: ProjectBook,
    verifications: VerificationBook,
    fees: FeeManager,
    ext: ExternalParams,
)
    requires
        m.wf(),
        m.execute_error(caller, id, hash, now, &projects, &verifications, &fees, ext) is None,
    ensures
        m.spec_is_admin(caller),
        id < m.proposals@.len(),
        m.proposals@[id as int].status == ProposalStatus::Approved,
        m.proposals@[id as int].approvals@.len() >= m.spec_threshold(),
        no_dups(m.proposals@[id as int].approvals@),
{
}

/// Lowering the threshold needs more approvals than the proposed threshold:
/// a downgrade approved by no more administrators than it would install is
/// never executed.
pub proof fn lemma_downgrade_needs_supermajority(
    m: AdminManager,
    caller: Addr,
    id: u64,
    hash: Seq<u8>,
    now: u64,
    projects: ProjectBook,
    verifications: VerificationBook,
    fees: FeeManager,
    ext: ExternalParams,
)
    requires
        id < m.proposals@.len(),
        m.proposals@[id as int].payload matches ProposalPayload::SetThreshold(t) && t < m.spec_threshold()
            && m.proposals@[id as int].approvals@.len() <= t,
    ensures
        m.execute_error(caller, id, hash, now, &projects, &verifications, &fees, ext) is Some,
{
}

/// Approving a pending proposal that is short of the threshold never takes
/// it past the threshold, and approves it exactly when the threshold is
/// reached.
pub proof fn lemma_approval_stops_at_threshold(old_m: AdminManager, new_m: AdminManager, admin: Addr, id: u64)
    requires
        old_m.wf(),
        id < old_m.proposals@.len(),
        old_m.proposals@[id as int].status == ProposalStatus::Pending,
        old_m.proposals@[id as int].approvals@.len() < old_m.spec_threshold(),
        new_m.proposals@.len() == old_m.proposals@.len(),
        new_m.approval_threshold == old_m.approval_threshold,
        new_m.proposals@[id as int].approvals@ == old_m.proposals@[id as int].approvals@.push(admin),
        new_m.proposals@[id as int].status == (if old_m.proposals@[id as int].approvals@.len() + 1
            >= old_m.spec_threshold() {
            ProposalStatus::Approved
        } else {
            ProposalStatus::Pending
        }),
    ensures
        new_m.proposals@[id as int].approvals@.len() <= new_m.spec_threshold(),
        (new_m.proposals@[id as int].status == ProposalStatus::Approved)
            <==> new_m.proposals@[id as int].approvals@.len() == new_m.spec_threshold(),
{
}

/// A proposal runs at most once: once executed it is marked `Executed`,
/// and executing it again is refused, whoever asks and whatever else holds.
pub proof fn lemma_executed_not_again(
    m: AdminManager,
    caller: Addr,
    id: u64,
    hash: Seq<u8>,
    now: u64,
    projects: ProjectBook,
    verifications: VerificationBook,
    fees: FeeManager,
    ext: ExternalParams,
)
    requires
        id < m.proposals@.len(),
        m.proposals@[id as int].status == ProposalStatus::Executed,
    ensures
        m.execute_error(caller, id, hash, now, &projects, &verifications, &fees, ext) is Some,
{
}

} // verus!
