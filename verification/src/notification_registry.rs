//! Notification preferences of users, the notice that a project changed,
//! and per-user digest queues.
//!
//! Delivery happens elsewhere: this registry stores preferences and queues
//! and builds the notices and digests that are published.
use vstd::prelude::*;
use std::collections::HashMap;
use crate::collection_registry::list_in;
use crate::constants::MAX_PAGE_LIMIT;
use crate::types::{Addr, ContractError};
use crate::utils::{contains_u64, copy_ids};

verus! {

broadcast use vstd::std_specs::hash::group_hash_axioms;

/// How often a user wants queued notifications delivered.
#[derive(Clone, Copy, Debug, PartialEq, Eq, Structural)]
pub enum DigestFrequency {
    /// No digest: every notification is delivered at once.
    Immediate,
    Daily,
    Weekly,
}

/// What happened to a project.
#[derive(Clone, Copy, Debug, PartialEq, Eq, Structural)]
pub enum NotificationKind {
    ProjectUpdate,
    VerificationRevoked,
}

/// A user's global preferences.
pub struct UserNotificationPrefs {
    pub digest_frequency: DigestFrequency,
    pub notify_on_all: bool,
    pub opted_out: bool,
    pub kinds: Vec<NotificationKind>,
}

/// A user's preferences for one project.
pub struct ProjectNotificationOverride {
    pub opted_out: bool,
    pub kinds: Option<Vec<NotificationKind>>,
}

/// One write of a per-project override; the latest write for a user and
/// project wins.
pub struct OverrideEntry {
    pub user: Addr,
    pub project_id: u64,
    pub prefs: ProjectNotificationOverride,
}

/// The notice that a project changed, with its follower count then.
#[derive(Clone, Copy, Debug, PartialEq, Eq, Structural)]
pub struct ProjectUpdateNotificationEvent {
    pub project_id: u64,
    pub update_kind: NotificationKind,
    pub follower_count: u32,
    pub timestamp: u64,
}

/// A flushed digest queue, to be delivered at the user's frequency.
pub struct UserDigestScheduledEvent {
    pub user: Addr,
    pub project_ids: Vec<u64>,
    pub frequency: DigestFrequency,
}

/// Preferences by user address id, override writes, and digest queues by
/// user address id.
pub struct NotificationRegistry {
    pub prefs: HashMap<u64, UserNotificationPrefs>,
    pub overrides: Vec<OverrideEntry>,
    pub queues: HashMap<u64, Vec<u64>>,
}

/// The latest override write for a user and project.
pub open spec fn override_lookup(es: Seq<OverrideEntry>, user: Addr, pid: u64) -> Option<ProjectNotificationOverride>
    decreases es.len(),
{
    if es.len() == 0 {
        None
    } else if es.last().user == user && es.last().project_id == pid {
        Some(es.last().prefs)
    } else {
        override_lookup(es.drop_last(), user, pid)
    }
}

/// A queue after `pid` was enqueued: unchanged when present, else appended,
/// dropping the oldest entry when full.
pub open spec fn enqueued(q: Seq<u64>, pid: u64) -> Seq<u64> {
    if q.contains(pid) {
        q
    } else if q.len() >= MAX_PAGE_LIMIT {
        q.drop_first().push(pid)
    } else {
        q.push(pid)
    }
}

impl NotificationRegistry {
    pub fn new() -> (r: NotificationRegistry)
        ensures
            r.prefs@ == Map::<u64, UserNotificationPrefs>::empty(),
            r.overrides@.len() == 0,
            r.queues@ == Map::<u64, Vec<u64>>::empty(),
    {
        NotificationRegistry { prefs: HashMap::new(), overrides: Vec::new(), queues: HashMap::new() }
    }

    /// Sets or replaces a user's global preferences.
    pub fn set_notification_prefs(
        &mut self,
        user: Addr,
        opted_out: bool,
        notify_on_all: bool,
        digest_frequency: DigestFrequency,
        kinds: Vec<NotificationKind>,
    ) -> (r: Result<(), ContractError>)
        ensures
            r is Ok,
            final(self).prefs@.dom() == old(self).prefs@.dom().insert(user.id),
            forall|k: u64| k != user.id && old(self).prefs@.contains_key(k) ==> #[trigger] final(self).prefs@[k] == old(self).prefs@[k],
            ({
                let p = final(self).prefs@[user.id];
                p.opted_out == opted_out && p.notify_on_all == notify_on_all && p.digest_frequency == digest_frequency
                    && p.kinds@ == kinds@
            }),
            final(self).overrides == old(self).overrides,
            final(self).queues == old(self).queues,
    {
        self.prefs.insert(user.id, UserNotificationPrefs { digest_frequency, notify_on_all, opted_out, kinds });
        proof {
            assert(self.prefs@.dom() =~= old(self).prefs@.dom().insert(user.id));
        }
        Ok(())
    }

    /// A user's global preferences, if set.
    pub fn get_notification_prefs(&self, user: Addr) -> (r: Option<&UserNotificationPrefs>)
        ensures
            r.is_some() == self.prefs@.contains_key(user.id),
            r.is_some() ==> *r.unwrap() == self.prefs@[user.id],
    {
        self.prefs.get(&user.id)
    }

    /// Sets or replaces a user's preferences for one project.
    pub fn set_project_notification_override(
        &mut self,
        user: Addr,
        project_id: u64,
        opted_out: bool,
        kinds: Option<Vec<NotificationKind>>,
    ) -> (r: Result<(), ContractError>)
        ensures
            r is Ok,
            final(self).overrides@.len() == old(self).overrides@.len() + 1,
            final(self).overrides@.drop_last() == old(self).overrides@,
            final(self).overrides@.last().user == user,
            final(self).overrides@.last().project_id == project_id,
            final(self).overrides@.last().prefs.opted_out == opted_out,
            final(self).overrides@.last().prefs.kinds == kinds,
            final(self).prefs == old(self).prefs,
            final(self).queues == old(self).queues,
    {
        self.overrides.push(OverrideEntry { user, project_id, prefs: ProjectNotificationOverride { opted_out, kinds } });
        proof {
            assert(self.overrides@.drop_last() =~= old(self).overrides@);
        }
        Ok(())
    }

    /// A user's preferences for one project, if set.
    pub fn get_project_notification_override(&self, user: Addr, project_id: u64) -> (r: Option<&ProjectNotificationOverride>)
        ensures
            r.is_some() == override_lookup(self.overrides@, user, project_id).is_some(),
            r.is_some() ==> *r.unwrap() == override_lookup(self.overrides@, user, project_id)->Some_0,
    {
        let mut i: usize = self.overrides.len();
        assert(self.overrides@.take(i as int) =~= self.overrides@);
        while i > 0
            invariant
                i <= self.overrides@.len(),
                override_lookup(self.overrides@, user, project_id) == override_lookup(self.overrides@.take(i as int), user, project_id),
            decreases i,
        {
            assert(self.overrides@.take(i as int).drop_last() =~= self.overrides@.take(i - 1));
            if self.overrides[i - 1].user == user && self.overrides[i - 1].project_id == project_id {
                return Some(&self.overrides[i - 1].prefs);
            }
            i = i - 1;
        }
        None
    }

    /// The notice that a project changed, with its follower count at `now`.
    pub fn emit_project_notification(project_id: u64, update_kind: NotificationKind, follower_count: u32, now: u64) -> (e:
        ProjectUpdateNotificationEvent)
        ensures
            e == (ProjectUpdateNotificationEvent { project_id, update_kind, follower_count, timestamp: now }),
    {
        ProjectUpdateNotificationEvent { project_id, update_kind, follower_count, timestamp: now }
    }

    /// Adds a project to a user's digest queue, once; a full queue drops its
    /// oldest entry.
    pub fn enqueue_digest(&mut self, user: Addr, project_id: u64)
        ensures
            list_in(final(self).queues@, user.id) == enqueued(list_in(old(self).queues@, user.id), project_id),
            final(self).queues@.dom() == old(self).queues@.dom().insert(user.id),
            forall|k: u64| k != user.id && old(self).queues@.contains_key(k) ==> #[trigger] final(self).queues@[k] == old(self).queues@[k],
            final(self).prefs == old(self).prefs,
            final(self).overrides == old(self).overrides,
    {
        let mut queue = match self.queues.get(&user.id) {
            Some(v) => copy_ids(v),
            None => Vec::new(),
        };
        if !contains_u64(&queue, project_id) {
            if queue.len() >= MAX_PAGE_LIMIT as usize {
                queue.remove(0);
            }
            queue.push(project_id);
        }
        self.queues.insert(user.id, queue);
        proof {
            assert(self.queues@.dom() =~= old(self).queues@.dom().insert(user.id));
        }
    }

    /// A page of a user's digest queue: positions `start_index` onward, at
    /// most `limit` (0 or more than the cap means the cap).
    pub fn get_digest_queue(&self, user: Addr, start_index: u32, limit: u32) -> (r: Vec<u64>)
        ensures
            ({
                let q = list_in(self.queues@, user.id);
                let lim: int = if limit == 0 || limit > MAX_PAGE_LIMIT { MAX_PAGE_LIMIT as int } else { limit as int };
                let end = if start_index + lim < q.len() { start_index + lim } else { q.len() as int };
                r@ == (if start_index >= q.len() { Seq::empty() } else { q.subrange(start_index as int, end) })
            }),
    {
        let lim: u32 = if limit == 0 || limit > MAX_PAGE_LIMIT { MAX_PAGE_LIMIT } else { limit };
        let q = match self.queues.get(&user.id) {
            Some(v) => copy_ids(v),
            None => Vec::new(),
        };
        let total = q.len();
        if start_index as usize >= total {
            return Vec::new();
        }
        let sum: u64 = start_index as u64 + lim as u64;
        let end: usize = if sum < total as u64 { sum as usize } else { total };
        let mut out: Vec<u64> = Vec::new();
        let mut k: usize = start_index as usize;
        while k < end
            invariant
                start_index <= k <= end <= total == q@.len(),
                out@ == q@.subrange(start_index as int, k as int),
            decreases end - k,
        {
            out.push(q[k]);
            k = k + 1;
            assert(out@ =~= q@.subrange(start_index as int, k as int));
        }
        out
    }

    /// Empties a user's digest queue and returns the digest to deliver, at
    /// the user's frequency (`None` without preferences); an empty queue
    /// gives no digest and changes nothing.
    pub fn flush_digest_queue(&mut self, user: Addr) -> (r: Result<Option<UserDigestScheduledEvent>, ContractError>)
        ensures
            ({
                let q = list_in(old(self).queues@, user.id);
                let freq = if old(self).prefs@.contains_key(user.id) { old(self).prefs@[user.id].digest_frequency } else { DigestFrequency::Immediate };
                &&& q.len() == 0 ==> (r matches Ok(None) && *final(self) == *old(self))
                &&& q.len() > 0 ==> (r matches Ok(Some(e)) && e.user == user && e.project_ids@ == q && e.frequency == freq
                    && final(self).queues@ == old(self).queues@.remove(user.id) && final(self).prefs == old(self).prefs
                    && final(self).overrides == old(self).overrides)
            }),
    {
        let queue = match self.queues.get(&user.id) {
            Some(v) => copy_ids(v),
            None => Vec::new(),
        };
        if queue.len() == 0 {
            return Ok(None);
        }
        let frequency = match self.prefs.get(&user.id) {
            Some(p) => p.digest_frequency,
            None => DigestFrequency::Immediate,
        };
        self.queues.remove(&user.id);
        Ok(Some(UserDigestScheduledEvent { user, project_ids: queue, frequency }))
    }
}


/// Enqueuing is idempotent and keeps a queue within its cap.
pub proof fn lemma_enqueue_idempotent_and_bounded(q: Seq<u64>, pid: u64)
    requires
        q.len() <= MAX_PAGE_LIMIT,
    ensures
        enqueued(enqueued(q, pid), pid) == enqueued(q, pid),
        enqueued(q, pid).len() <= MAX_PAGE_LIMIT,
        enqueued(q, pid).contains(pid),
{
    let r = enqueued(q, pid);
    if !q.contains(pid) {
        assert(r[r.len() - 1] == pid);
    }
}

} // verus!
