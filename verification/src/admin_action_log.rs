//! Append-only audit trail of administrative actions.
//!
//! Entry ids are dense and start at 1; pages are read newest first.
use vstd::prelude::*;
use crate::constants::MAX_ADMIN_ACTION_LOG_PAGE;
use crate::types::Addr;

verus! {

/// The kind of administrative action that an entry records.
#[derive(Clone, Copy, Debug, PartialEq, Eq, Structural)]
pub enum AdminActionType {
    AdminAdded,
    AdminRemoved,
    FeeChanged,
    ThresholdChanged,
    VerificationApproved,
    VerificationRejected,
    VerificationRevoked,
    CollectionCreated,
    CollectionUpdated,
    CollectionDeleted,
    ContractPaused,
    ContractResumed,
    DuplicateDisputeRejected,
    DuplicateDisputeResolved,
    FeeRefunded,
    ParamRangeChanged,
    ProjectAddedToCollection,
    ProjectFeatured,
    ProjectRemovedFromCollection,
    ProjectUnfeatured,
}

/// One audit-trail entry.
pub struct AdminActionEntry {
    pub id: u64,
    pub admin: Addr,
    pub action_type: AdminActionType,
    pub target_id: Option<u64>,
    pub target_address: Option<Addr>,
    pub timestamp: u64,
    pub reason_cid: Option<Vec<u8>>,
}

/// The audit trail: entry `i` (counting from 1) sits at position `i - 1`.
pub struct AdminActionLog {
    pub entries: Vec<AdminActionEntry>,
}

/// The page size actually used for a requested `limit`: 0 and values above
/// the cap both mean the cap.
pub open spec fn effective_log_limit(limit: u32) -> u32 {
    if limit == 0 || limit > MAX_ADMIN_ACTION_LOG_PAGE {
        MAX_ADMIN_ACTION_LOG_PAGE
    } else {
        limit
    }
}

/// Positions of the entries recorded by `admin`, oldest first.
pub open spec fn admin_positions(entries: Seq<AdminActionEntry>, admin: Addr) -> Seq<usize>
    decreases entries.len(),
{
    if entries.len() == 0 {
        Seq::empty()
    } else {
        let rest = admin_positions(entries.drop_last(), admin);
        if entries.last().admin == admin {
            rest.push((entries.len() - 1) as usize)
        } else {
            rest
        }
    }
}

impl AdminActionLog {
    /// Every entry sits at the position its id names.
    pub open spec fn wf(&self) -> bool {
        forall|i: int| 0 <= i < self.entries@.len() ==> (#[trigger] self.entries@[i]).id == i + 1
    }

    /// One more entry can be numbered.
    pub open spec fn has_room(&self) -> bool {
        self.entries@.len() < u64::MAX
    }

    /// The entry that `record_action` appends.
    pub open spec fn appended(
        &self,
        admin: Addr,
        action_type: AdminActionType,
        target_id: Option<u64>,
        target_address: Option<Addr>,
        now: u64,
    ) -> bool {
        let e = self.entries@.last();
        &&& e.id == self.entries@.len()
        &&& e.admin == admin
        &&& e.action_type == action_type
        &&& e.target_id == target_id
        &&& e.target_address == target_address
        &&& e.timestamp == now
    }

    /// `new` is `old` with one more entry recorded as described.
    pub open spec fn records(
        old: &AdminActionLog,
        new: &AdminActionLog,
        admin: Addr,
        action_type: AdminActionType,
        target_id: Option<u64>,
        target_address: Option<Addr>,
        now: u64,
    ) -> bool {
        &&& new.wf()
        &&& new.entries@.len() == old.entries@.len() + 1
        &&& new.entries@.drop_last() == old.entries@
        &&& new.appended(admin, action_type, target_id, target_address, now)
    }

    pub fn new() -> (log: AdminActionLog)
        ensures
            log.wf(),
            log.entries@.len() == 0,
    {
        AdminActionLog { entries: Vec::new() }
    }

    /// Appends an entry with the next id and returns that id.
    pub fn record_action(
        &mut self,
        admin: Addr,
        action_type: AdminActionType,
        target_id: Option<u64>,
        target_address: Option<Addr>,
        reason_cid: Option<Vec<u8>>,
        now: u64,
    ) -> (id: u64)
        requires
            old(self).wf(),
            old(self).has_room(),
        ensures
            AdminActionLog::records(old(self), final(self), admin, action_type, target_id, target_address, now),
            final(self).entries@.last().reason_cid == reason_cid,
            id == final(self).entries@.len(),
    {
        let id = self.get_next_id();
        let entry = AdminActionEntry {
            id,
            admin,
            action_type,
            target_id,
            target_address,
            timestamp: now,
            reason_cid,
        };
        self.entries.push(entry);
        proof {
            assert(self.entries@.drop_last() =~= old(self).entries@);
        }
        id
    }

    /// The entry with this id, if there is one.
    pub fn get_log_entry(&self, log_id: u64) -> (r: Option<&AdminActionEntry>)
        ensures
            r.is_some() == (1 <= log_id <= self.entries@.len()),
            r.is_some() ==> *r.unwrap() == self.entries@[log_id - 1],
    {
        let n = self.entries.len();
        if 1 <= log_id && log_id <= n as u64 {
            Some(&self.entries[(log_id - 1) as usize])
        } else {
            None
        }
    }

    /// Number of recorded entries.
    pub fn get_action_log_count(&self) -> (n: u64)
        ensures
            n == self.entries@.len(),
    {
        self.entries.len() as u64
    }

    /// The id the next entry will get.
    fn get_next_id(&self) -> (id: u64)
        requires
            self.has_room(),
        ensures
            id == self.entries@.len() + 1,
    {
        self.entries.len() as u64 + 1
    }

    /// A page of entries, newest first: the entries with ids
    /// `count - start_index`, `count - start_index - 1`, ... down to 1, at most
    /// `effective_log_limit(limit)` of them.
    pub fn list_admin_actions(&self, start_index: u32, limit: u32) -> (page: Vec<&AdminActionEntry>)
        requires
            self.wf(),
        ensures
            ({
                let count = self.entries@.len() as int;
                let start = if start_index >= count { 0 } else { count - start_index };
                let n = if start < effective_log_limit(limit) { start } else { effective_log_limit(limit) as int };
                &&& page@.len() == n
                &&& forall|k: int| 0 <= k < n ==> *(#[trigger] page@[k]) == self.entries@[start - 1 - k]
            }),
    {
        let count = self.entries.len() as u64;
        let mut entries: Vec<&AdminActionEntry> = Vec::new();
        if count == 0 {
            return entries;
        }
        let effective_limit = if limit == 0 || limit > MAX_ADMIN_ACTION_LOG_PAGE {
            MAX_ADMIN_ACTION_LOG_PAGE
        } else {
            limit
        };
        let start_idx = count.saturating_sub(start_index as u64);
        let mut i: u32 = 0;
        while i < effective_limit && start_idx > i as u64
            invariant
                count == self.entries@.len(),
                self.entries@.len() <= usize::MAX,
                start_idx <= count,
                start_idx == (if start_index >= count { 0 } else { count - start_index }),
                effective_limit == effective_log_limit(limit),
                i <= effective_limit,
                i <= start_idx,
                entries@.len() == i,
                forall|k: int| 0 <= k < i ==> *(#[trigger] entries@[k]) == self.entries@[start_idx - 1 - k],
            decreases effective_limit - i,
        {
            let id = start_idx - i as u64;
            let idx = (id - 1) as usize;
            assert(idx == start_idx - 1 - i);
            let e = &self.entries[idx];
            let ghost prev = entries@;
            entries.push(e);
            assert(forall|k: int| 0 <= k < i ==> entries@[k] == prev[k]);
            i = i + 1;
        }
        entries
    }

    /// Positions of the entries recorded by `admin`, oldest first.
    fn admin_entry_positions(&self, admin: Addr) -> (r: Vec<usize>)
        ensures
            r@ == admin_positions(self.entries@, admin),
            forall|k: int| 0 <= k < r@.len() ==> #[trigger] r@[k] < self.entries@.len(),
    {
        let mut r: Vec<usize> = Vec::new();
        let mut i: usize = 0;
        while i < self.entries.len()
            invariant
                i <= self.entries@.len(),
                r@ == admin_positions(self.entries@.subrange(0, i as int), admin),
                forall|k: int| 0 <= k < r@.len() ==> #[trigger] r@[k] < i,
            decreases self.entries@.len() - i,
        {
            proof {
                assert(self.entries@.subrange(0, i + 1).drop_last() =~= self.entries@.subrange(0, i as int));
            }
            if self.entries[i].admin == admin {
                r.push(i);
            }
            i = i + 1;
        }
        proof {
            assert(self.entries@.subrange(0, i as int) =~= self.entries@);
        }
        r
    }

    /// A page of the entries recorded by `admin`, newest first: skips the
    /// newest `start_index` of them and returns at most
    /// `effective_log_limit(limit)` of the rest.
    pub fn get_admin_action_log_by_admin(&self, admin: Addr, start_index: u32, limit: u32) -> (page:
        Vec<&AdminActionEntry>)
        ensures
            ({
                let pos = admin_positions(self.entries@, admin);
                let total = pos.len() as int;
                let avail = if start_index >= total { 0 } else { total - start_index };
                let n = if avail < effective_log_limit(limit) { avail } else { effective_log_limit(limit) as int };
                &&& page@.len() == n
                &&& forall|k: int| 0 <= k < n ==>
                    *(#[trigger] page@[k]) == self.entries@[pos[total - 1 - start_index - k] as int]
            }),
    {
        let ids = self.admin_entry_positions(admin);
        let total = ids.len();
        let mut entries: Vec<&AdminActionEntry> = Vec::new();
        if total == 0 {
            return entries;
        }
        let effective_limit = if limit == 0 || limit > MAX_ADMIN_ACTION_LOG_PAGE {
            MAX_ADMIN_ACTION_LOG_PAGE
        } else {
            limit
        };
        let mut skipped: u32 = 0;
        let mut collected: u32 = 0;
        let mut pos: usize = total;
        while pos > 0 && !(skipped >= start_index && collected >= effective_limit)
            invariant
                total == ids@.len(),
                ids@ == admin_positions(self.entries@, admin),
                forall|k: int| 0 <= k < ids@.len() ==> #[trigger] ids@[k] < self.entries@.len(),
                effective_limit == effective_log_limit(limit),
                pos <= total,
                skipped == (if total - pos < start_index { total - pos } else { start_index as int }),
                collected == (if total - pos < start_index { 0 } else { total - pos - start_index }),
                collected <= effective_limit,
                entries@.len() == collected,
                forall|k: int| 0 <= k < collected ==>
                    *(#[trigger] entries@[k]) == self.entries@[ids@[total - 1 - start_index - k] as int],
            decreases pos,
        {
            pos = pos - 1;
            let log_id = ids[pos];
            if skipped < start_index {
                skipped = skipped + 1;
            } else {
                entries.push(&self.entries[log_id]);
                collected = collected + 1;
            }
        }
        entries
    }
}

} // verus!
