//! Disputes claiming that a project duplicates another, and their
//! resolution by administrators.
use vstd::prelude::*;
use std::collections::HashMap;
use crate::admin_action_log::{AdminActionLog, AdminActionType};
use crate::admin_manager::AdminManager;
use crate::collection_registry::list_in;
use crate::types::{Addr, ContractError, Project, ProjectBook};
use crate::utils::{contains_u64, copy_ids, is_valid_cid, valid_cid};

verus! {

broadcast use vstd::std_specs::hash::group_hash_axioms;

#[derive(Clone, Copy, Debug, PartialEq, Eq, Structural)]
pub enum DisputeStatus {
    Pending,
    Resolved,
    Rejected,
}

/// How an administrator settles a dispute.
#[derive(Clone, Copy, Debug, PartialEq, Eq, Structural)]
pub enum DisputeResolutionAction {
    Reject,
    ArchiveProject(u64),
    LinkDuplicates,
}

/// A claim that `project_id` duplicates `original_project_id`.
pub struct DuplicateDispute {
    pub id: u64,
    pub project_id: u64,
    pub original_project_id: u64,
    pub creator: Addr,
    pub evidence_cid: Vec<u8>,
    pub status: DisputeStatus,
    pub created_at: u64,
    pub resolved_at: u64,
}

/// Disputes by id, dispute ids by project, and the next id (1 when unset).
pub struct DisputeRegistry {
    pub disputes: HashMap<u64, DuplicateDispute>,
    pub by_project: HashMap<u64, Vec<u64>>,
    pub next_id: Option<u64>,
}

/// The disputes of `ids` that are stored, in order.
pub open spec fn existing_disputes(ids: Seq<u64>, m: Map<u64, DuplicateDispute>) -> Seq<DuplicateDispute>
    decreases ids.len(),
{
    if ids.len() == 0 {
        Seq::empty()
    } else {
        let rest = existing_disputes(ids.drop_last(), m);
        if m.contains_key(ids.last()) { rest.push(m[ids.last()]) } else { rest }
    }
}

impl DisputeRegistry {
    pub fn new() -> (r: DisputeRegistry)
        ensures
            r.disputes@ == Map::<u64, DuplicateDispute>::empty(),
            r.by_project@ == Map::<u64, Vec<u64>>::empty(),
            r.next_id is None,
    {
        DisputeRegistry { disputes: HashMap::new(), by_project: HashMap::new(), next_id: None }
    }

    pub open spec fn spec_next_id(&self) -> u64 {
        match self.next_id {
            Some(n) => n,
            None => 1,
        }
    }

    /// Opens a dispute claiming that `project_id` duplicates
    /// `original_project_id`, with IPFS evidence. Both projects must exist,
    /// differ, and the first must not be archived.
    pub fn open_duplicate_dispute(
        &mut self,
        project_id: u64,
        original_project_id: u64,
        creator: Addr,
        evidence_cid: Vec<u8>,
        now: u64,
        projects: &ProjectBook,
    ) -> (r: Result<u64, ContractError>)
        ensures
            ({
                let err = if project_id == original_project_id {
                    Some(ContractError::CannotLinkToSelf)
                } else if !projects.has(project_id) || !projects.has(original_project_id) {
                    Some(ContractError::ProjectNotFound)
                } else if projects.at(project_id).archived {
                    Some(ContractError::AlreadyArchived)
                } else if evidence_cid@.len() == 0 || !valid_cid(evidence_cid@) {
                    Some(ContractError::InvalidProjectData)
                } else {
                    None
                };
                let id = old(self).spec_next_id();
                &&& err is Some ==> r == Err::<u64, ContractError>(err->Some_0) && *final(self) == *old(self)
                &&& err is None ==> {
                    let d = final(self).disputes@[id];
                    &&& r == Ok::<u64, ContractError>(id)
                    &&& final(self).disputes@ == old(self).disputes@.insert(id, d)
                    &&& d.id == id && d.project_id == project_id && d.original_project_id == original_project_id
                    &&& d.creator == creator && d.evidence_cid@ == evidence_cid@ && d.status == DisputeStatus::Pending
                    &&& d.created_at == now && d.resolved_at == 0
                    &&& list_in(final(self).by_project@, project_id) == list_in(old(self).by_project@, project_id).push(id)
                    &&& forall|k: u64| k != project_id ==> #[trigger] list_in(final(self).by_project@, k) == list_in(old(self).by_project@, k)
                    &&& final(self).next_id == Some(if id < u64::MAX { (id + 1) as u64 } else { id })
                }
            }),
    {
        if project_id == original_project_id {
            return Err(ContractError::CannotLinkToSelf);
        }
        let archived = match projects.get_project(project_id) {
            Some(p) => p.archived,
            None => return Err(ContractError::ProjectNotFound),
        };
        if projects.get_project(original_project_id).is_none() {
            return Err(ContractError::ProjectNotFound);
        }
        if archived {
            return Err(ContractError::AlreadyArchived);
        }
        if evidence_cid.len() == 0 || !is_valid_cid(&evidence_cid) {
            return Err(ContractError::InvalidProjectData);
        }
        let dispute_id = match self.next_id {
            Some(n) => n,
            None => 1,
        };
        let dispute = DuplicateDispute {
            id: dispute_id,
            project_id,
            original_project_id,
            creator,
            evidence_cid,
            status: DisputeStatus::Pending,
            created_at: now,
            resolved_at: 0,
        };
        self.disputes.insert(dispute_id, dispute);
        let mut list = match self.by_project.get(&project_id) {
            Some(v) => copy_ids(v),
            None => Vec::new(),
        };
        list.push(dispute_id);
        self.by_project.insert(project_id, list);
        self.next_id = Some(dispute_id.saturating_add(1));
        proof {
            assert(self.disputes@ =~= old(self).disputes@.insert(dispute_id, dispute));
            assert forall|k: u64| k != project_id implies #[trigger] list_in(self.by_project@, k) == list_in(old(self).by_project@, k) by {
                if old(self).by_project@.contains_key(k) {
                    assert(self.by_project@[k] == old(self).by_project@[k]);
                }
            }
        }
        Ok(dispute_id)
    }

    /// The error, if any, that refuses settling dispute `dispute_id` with
    /// `action`, in the order the checks run.
    pub open spec fn resolve_error(
        &self,
        dispute_id: u64,
        admin_ok: bool,
        action: DisputeResolutionAction,
        projects: &ProjectBook,
    ) -> Option<ContractError> {
        let d = self.disputes@[dispute_id];
        if !admin_ok {
            Some(ContractError::AdminOnly)
        } else if !self.disputes@.contains_key(dispute_id) {
            Some(ContractError::ProjectNotFound)
        } else if d.status != DisputeStatus::Pending {
            Some(ContractError::InvalidStatus)
        } else {
            match action {
                DisputeResolutionAction::Reject => None,
                DisputeResolutionAction::ArchiveProject(p) => if p != d.project_id && p != d.original_project_id {
                    Some(ContractError::ProjectNotFound)
                } else if !projects.has(p) {
                    Some(ContractError::ProjectNotFound)
                } else if projects.at(p).archived {
                    Some(ContractError::AlreadyArchived)
                } else {
                    None
                },
                DisputeResolutionAction::LinkDuplicates => if !projects.has(d.project_id)
                    || !projects.has(d.original_project_id) {
                    Some(ContractError::ProjectNotFound)
                } else if projects.at(d.project_id).linked_projects@.contains(d.original_project_id) {
                    Some(ContractError::AlreadyLinked)
                } else {
                    None
                },
            }
        }
    }

    /// Settles a pending dispute on the word of an administrator: reject it,
    /// archive one of the two projects, or link the two projects. The
    /// settlement is logged.
    pub fn resolve_duplicate_dispute(
        &mut self,
        dispute_id: u64,
        admin: Addr,
        action: DisputeResolutionAction,
        now: u64,
        admins: &AdminManager,
        projects: &mut ProjectBook,
        log: &mut AdminActionLog,
    ) -> (r: Result<(), ContractError>)
        requires
            old(projects).wf(),
            old(log).wf(),
            old(log).has_room(),
        ensures
            final(projects).wf(),
            final(log).wf(),
            ({
                let d = old(self).disputes@[dispute_id];
                let err = old(self).resolve_error(dispute_id, admins.spec_is_admin(admin), action, old(projects));
                let new_status = if action is Reject { DisputeStatus::Rejected } else { DisputeStatus::Resolved };
                let kind = if action is Reject {
                    AdminActionType::DuplicateDisputeRejected
                } else {
                    AdminActionType::DuplicateDisputeResolved
                };
                &&& err is Some ==> r == Err::<(), ContractError>(err->Some_0) && *final(self) == *old(self)
                    && final(projects).projects@ == old(projects).projects@ && *final(log) == *old(log)
                &&& err is None ==> {
                    &&& r is Ok
                    &&& final(self).disputes@ == old(self).disputes@.insert(
                        dispute_id,
                        DuplicateDispute { status: new_status, resolved_at: now, ..d },
                    )
                    &&& final(self).by_project == old(self).by_project
                    &&& final(self).next_id == old(self).next_id
                    &&& AdminActionLog::records(old(log), final(log), admin, kind, Some(d.project_id), None, now)
                    &&& action is Reject ==> final(projects).projects@ == old(projects).projects@
                    &&& action matches DisputeResolutionAction::ArchiveProject(p) ==> final(projects).projects@
                        == old(projects).projects@.update(p - 1, Project { archived: true, updated_at: now, ..old(projects).at(p) })
                    &&& action is LinkDuplicates ==> {
                        &&& final(projects).projects@.len() == old(projects).projects@.len()
                        &&& final(projects).at(d.project_id).linked_projects@ == old(projects).at(d.project_id).linked_projects@.push(
                            d.original_project_id,
                        )
                        &&& final(projects).at(d.project_id) == Project {
                            linked_projects: final(projects).at(d.project_id).linked_projects,
                            ..old(projects).at(d.project_id)
                        }
                        &&& forall|k: u64| k != d.project_id && old(projects).has(k) ==> #[trigger] final(projects).at(k) == old(projects).at(k)
                    }
                }
            }),
    {
        if !admins.is_admin(admin) {
            return Err(ContractError::AdminOnly);
        }
        let (pid, oid) = match self.disputes.get(&dispute_id) {
            Some(d) => {
                if d.status != DisputeStatus::Pending {
                    return Err(ContractError::InvalidStatus);
                }
                (d.project_id, d.original_project_id)
            },
            None => return Err(ContractError::ProjectNotFound),
        };
        let (status, kind) = match action {
            DisputeResolutionAction::Reject => (DisputeStatus::Rejected, AdminActionType::DuplicateDisputeRejected),
            DisputeResolutionAction::ArchiveProject(p) => {
                if p != pid && p != oid {
                    return Err(ContractError::ProjectNotFound);
                }
                let archived = match projects.get_project(p) {
                    Some(pr) => pr.archived,
                    None => return Err(ContractError::ProjectNotFound),
                };
                if archived {
                    return Err(ContractError::AlreadyArchived);
                }
                projects.set_archived(p, true, now);
                (DisputeStatus::Resolved, AdminActionType::DuplicateDisputeResolved)
            },
            DisputeResolutionAction::LinkDuplicates => {
                let linked = match projects.get_project(pid) {
                    Some(pr) => contains_u64(&pr.linked_projects, oid),
                    None => return Err(ContractError::ProjectNotFound),
                };
                if projects.get_project(oid).is_none() {
                    return Err(ContractError::ProjectNotFound);
                }
                if linked {
                    return Err(ContractError::AlreadyLinked);
                }
                projects.push_link(pid, oid);
                (DisputeStatus::Resolved, AdminActionType::DuplicateDisputeResolved)
            },
        };
        let mut dispute = match self.disputes.remove(&dispute_id) {
            Some(d) => d,
            None => return Err(ContractError::ProjectNotFound),
        };
        dispute.status = status;
        dispute.resolved_at = now;
        self.disputes.insert(dispute_id, dispute);
        proof {
            assert(self.disputes@ =~= old(self).disputes@.insert(dispute_id, dispute));
        }
        log.record_action(admin, kind, Some(pid), None, None, now);
        Ok(())
    }

    /// The dispute with this id, if any.
    pub fn get_duplicate_dispute(&self, dispute_id: u64) -> (r: Option<&DuplicateDispute>)
        ensures
            r.is_some() == self.disputes@.contains_key(dispute_id),
            r.is_some() ==> *r.unwrap() == self.disputes@[dispute_id],
    {
        self.disputes.get(&dispute_id)
    }

    /// The disputes opened against a project, oldest first.
    pub fn get_disputes_for_project(&self, project_id: u64) -> (r: Vec<&DuplicateDispute>)
        ensures
            ({
                let ds = existing_disputes(list_in(self.by_project@, project_id), self.disputes@);
                &&& r@.len() == ds.len()
                &&& forall|i: int| 0 <= i < ds.len() ==> *#[trigger] r@[i] == ds[i]
            }),
    {
        let ids = match self.by_project.get(&project_id) {
            Some(v) => copy_ids(v),
            None => Vec::new(),
        };
        let mut out: Vec<&DuplicateDispute> = Vec::new();
        let mut i: usize = 0;
        while i < ids.len()
            invariant
                i <= ids@.len(),
                ({
                    let ds = existing_disputes(ids@.take(i as int), self.disputes@);
                    &&& out@.len() == ds.len()
                    &&& forall|k: int| 0 <= k < ds.len() ==> *#[trigger] out@[k] == ds[k]
                }),
            decreases ids@.len() - i,
        {
            proof {
                assert(ids@.take(i + 1).drop_last() =~= ids@.take(i as int));
            }
            if let Some(d) = self.disputes.get(&ids[i]) {
                out.push(d);
            }
            i = i + 1;
        }
        assert(ids@.take(i as int) =~= ids@);
        out
    }
}

/// A dispute is settled at most once: once resolved or rejected it is no
/// longer pending, and settling it again is refused, with `InvalidStatus`
/// when an administrator asks.
pub proof fn lemma_settled_not_again(
    reg: DisputeRegistry,
    dispute_id: u64,
    admin_ok: bool,
    action: DisputeResolutionAction,
    projects: ProjectBook,
)
    requires
        reg.disputes@.contains_key(dispute_id),
        reg.disputes@[dispute_id].status != DisputeStatus::Pending,
    ensures
        reg.resolve_error(dispute_id, admin_ok, action, &projects) is Some,
        admin_ok ==> reg.resolve_error(dispute_id, admin_ok, action, &projects) == Some(ContractError::InvalidStatus),
{
}

} // verus!
