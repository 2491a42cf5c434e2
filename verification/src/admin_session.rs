//! Administrator sessions with an expiry, an inactivity timeout and a
//! per-administrator audit trail of session events.
use vstd::prelude::*;
use std::collections::HashMap;
use crate::admin_manager::AdminManager;
use crate::collection_registry::list_in;
use crate::types::{Addr, ContractError};
use crate::utils::{copy_ids, copy_text, text};
use vstd::string::StringSliceAdditionalSpecFns;

verus! {

broadcast use vstd::std_specs::hash::group_hash_axioms;

/// Session length when none is asked for: 24 hours.
pub const DEFAULT_SESSION_TIMEOUT_SECS: u64 = 86_400;
/// Longest allowed session: 7 days.
pub const MAX_SESSION_TIMEOUT_SECS: u64 = 604_800;
/// A session unused this long is invalidated: 1 hour.
pub const INACTIVITY_TIMEOUT_SECS: u64 = 3_600;
/// Sessions an administrator can hold before the oldest is revoked.
pub const MAX_SESSIONS_PER_ADMIN: u32 = 5;
/// Audit entries kept per administrator.
pub const MAX_SESSION_HISTORY: u32 = 100;

/// An administrator session.
pub struct AdminSession {
    pub session_id: u64,
    pub admin: Addr,
    pub created_at: u64,
    pub expires_at: u64,
    pub last_activity_at: u64,
    pub is_active: bool,
    pub description: Vec<u8>,
}

/// What happened to a session.
#[derive(Clone, Copy, Debug, PartialEq, Eq, Structural)]
pub enum SessionAction {
    Created,
    Refreshed,
    Revoked,
    Expired,
    Invalidated,
}

/// One audit-trail entry.
pub struct SessionAuditEntry {
    pub session_id: u64,
    pub admin: Addr,
    pub action: SessionAction,
    pub timestamp: u64,
    pub description: Vec<u8>,
}

/// Sessions by id, each administrator's session ids (keyed by address id)
/// and audit trails (keyed by address id).
pub struct AdminSessionManager {
    pub sessions: HashMap<u64, AdminSession>,
    pub admin_sessions: HashMap<u64, Vec<u64>>,
    pub history: HashMap<u64, Vec<SessionAuditEntry>>,
    /// The stored session counter; the next id is one past it.
    pub next_session_id: Option<u64>,
}

/// An audit entry as plain values: session, administrator, action, time and
/// description.
pub type AuditView = (u64, Addr, SessionAction, u64, Seq<u8>);

pub open spec fn audit_view(e: SessionAuditEntry) -> AuditView {
    (e.session_id, e.admin, e.action, e.timestamp, e.description@)
}

/// An audit trail as plain values.
pub open spec fn trail_view(h: Seq<SessionAuditEntry>) -> Seq<AuditView> {
    h.map_values(|e: SessionAuditEntry| audit_view(e))
}

/// The stored audit trail of administrator id `k`, as plain values.
pub open spec fn trail_of(m: Map<u64, Vec<SessionAuditEntry>>, k: u64) -> Seq<AuditView> {
    if m.contains_key(k) { trail_view(m[k]@) } else { Seq::empty() }
}

/// `h` with `e` appended, keeping the newest `MAX_SESSION_HISTORY` entries.
pub open spec fn push_trim(h: Seq<AuditView>, e: AuditView) -> Seq<AuditView> {
    let full = h.push(e);
    if full.len() > MAX_SESSION_HISTORY { full.skip(full.len() - MAX_SESSION_HISTORY) } else { full }
}

/// The audit trails after `e` was recorded for administrator id `k`.
pub open spec fn audited(old: Map<u64, Vec<SessionAuditEntry>>, new: Map<u64, Vec<SessionAuditEntry>>, k: u64, e: AuditView) -> bool {
    &&& new.contains_key(k)
    &&& trail_of(new, k) == push_trim(trail_of(old, k), e)
    &&& forall|j: u64| j != k ==> #[trigger] new.contains_key(j) == old.contains_key(j)
    &&& forall|j: u64| j != k && old.contains_key(j) ==> #[trigger] new[j] == old[j]
}

/// The id the next session gets.
pub open spec fn next_id_of(n: Option<u64>) -> u64 {
    match n {
        Some(v) => (v + 1) as u64,
        None => 1,
    }
}

/// The session with `is_active` cleared.
pub open spec fn deactivated(s: AdminSession) -> AdminSession {
    AdminSession { is_active: false, ..s }
}

/// Records an audit entry in one administrator's trail.
fn record_audit(
    history: &mut HashMap<u64, Vec<SessionAuditEntry>>,
    session_id: u64,
    admin: Addr,
    action: SessionAction,
    description: Vec<u8>,
    now: u64,
)
    ensures
        audited(old(history)@, final(history)@, admin.id, (session_id, admin, action, now, description@)),
{
    let ghost desc = description@;
    let mut h: Vec<SessionAuditEntry> = match history.remove(&admin.id) {
        Some(v) => v,
        None => Vec::new(),
    };
    let ghost before = trail_view(h@);
    assert(before == trail_of(old(history)@, admin.id));
    h.push(SessionAuditEntry { session_id, admin, action, timestamp: now, description });
    let ghost full = h@;
    assert(trail_view(full) =~= before.push((session_id, admin, action, now, desc)));
    let ghost mut k: int = 0;
    while h.len() > MAX_SESSION_HISTORY as usize
        invariant
            0 <= k <= full.len(),
            h@ == full.skip(k),
            k == 0 || full.len() - k >= MAX_SESSION_HISTORY,
        decreases h@.len(),
    {
        h.remove(0);
        proof {
            assert(h@ =~= full.skip(k + 1));
            k = k + 1;
        }
    }
    proof {
        let fv = before.push((session_id, admin, action, now, desc));
        assert(trail_view(h@) =~= fv.skip(k));
        if fv.len() > MAX_SESSION_HISTORY {
            assert(k == fv.len() - MAX_SESSION_HISTORY);
        } else {
            assert(k == 0);
            assert(fv.skip(0) =~= fv);
        }
    }
    history.insert(admin.id, h);
}

impl AdminSessionManager {
    /// The last session id handed out (0 before the first).
    pub open spec fn last_issued(&self) -> u64 {
        match self.next_session_id {
            Some(v) => v,
            None => 0,
        }
    }

    /// Every stored session carries an id already handed out, so a fresh id
    /// never collides with an earlier session.
    pub open spec fn wf(&self) -> bool {
        forall|k: u64| #[trigger] self.sessions@.contains_key(k) ==> 1 <= k <= self.last_issued()
    }

    pub fn new() -> (m: AdminSessionManager)
        ensures
            m.wf(),
            m.sessions@ == Map::<u64, AdminSession>::empty(),
            m.admin_sessions@ == Map::<u64, Vec<u64>>::empty(),
            m.history@ == Map::<u64, Vec<SessionAuditEntry>>::empty(),
            m.next_session_id.is_none(),
    {
        AdminSessionManager {
            sessions: HashMap::new(),
            admin_sessions: HashMap::new(),
            history: HashMap::new(),
            next_session_id: None,
        }
    }

    /// The session with this id, if any.
    pub fn get_session(&self, session_id: u64) -> (r: Option<&AdminSession>)
        ensures
            r.is_some() == self.sessions@.contains_key(session_id),
            r.is_some() ==> *r.unwrap() == self.sessions@[session_id],
    {
        self.sessions.get(&session_id)
    }

    /// The session ids of an administrator, oldest first.
    pub fn get_admin_sessions(&self, admin: Addr) -> (r: Vec<u64>)
        ensures
            r@ == list_in(self.admin_sessions@, admin.id),
    {
        match self.admin_sessions.get(&admin.id) {
            Some(v) => copy_ids(v),
            None => Vec::new(),
        }
    }

    /// The audit trail of an administrator, oldest first.
    pub fn get_session_history(&self, admin: Addr) -> (r: Vec<&SessionAuditEntry>)
        ensures
            r@.len() == trail_of(self.history@, admin.id).len(),
            forall|i: int| 0 <= i < r@.len() ==> audit_view(*#[trigger] r@[i]) == trail_of(self.history@, admin.id)[i],
    {
        let mut out: Vec<&SessionAuditEntry> = Vec::new();
        match self.history.get(&admin.id) {
            Some(h) => {
                let mut i: usize = 0;
                while i < h.len()
                    invariant
                        i <= h@.len(),
                        self.history@.contains_key(admin.id),
                        *h == self.history@[admin.id],
                        out@.len() == i,
                        forall|j: int| 0 <= j < i ==> audit_view(*#[trigger] out@[j]) == trail_view(h@)[j],
                    decreases h@.len() - i,
                {
                    out.push(&h[i]);
                    i = i + 1;
                }
            },
            None => {},
        }
        out
    }

    /// The audit entries of an administrator from `start_index` up to (not
    /// including) `start_index + limit`.
    pub fn get_session_history_paginated(&self, admin: Addr, start_index: u32, limit: u32) -> (r: Vec<&SessionAuditEntry>)
        requires
            start_index + limit <= u32::MAX,
        ensures
            ({
                let t = trail_of(self.history@, admin.id);
                let end = if start_index + limit < t.len() { start_index + limit } else { t.len() as int };
                let n = if start_index < end { end - start_index } else { 0 };
                &&& r@.len() == n
                &&& forall|i: int| 0 <= i < n ==> audit_view(*#[trigger] r@[i]) == t[start_index + i]
            }),
    {
        let all = self.get_session_history(admin);
        let total = all.len();
        let sum = start_index + limit;
        let end: usize = if (sum as usize) < total { sum as usize } else { total };
        let mut out: Vec<&SessionAuditEntry> = Vec::new();
        let mut i: usize = start_index as usize;
        while i < end
            invariant
                start_index <= i,
                end <= total == all@.len(),
                i <= end || i == start_index,
                out@.len() == i - start_index,
                forall|j: int| 0 <= j < out@.len() ==> *#[trigger] out@[j] == *all@[start_index + j],
            decreases end - i,
        {
            out.push(all[i]);
            i = i + 1;
        }
        out
    }

    /// The next session id.
    fn next_session_id(&self) -> (id: u64)
        requires
            self.next_session_id is Some ==> self.next_session_id->Some_0 < u64::MAX,
        ensures
            id == next_id_of(self.next_session_id),
    {
        match self.next_session_id {
            Some(v) => v + 1,
            None => 1,
        }
    }

    /// Clears the active flag of a session and records `action`.
    fn deactivate(&mut self, session_id: u64, action: SessionAction, description: Vec<u8>, now: u64) -> (r: Result<
        (),
        ContractError,
    >)
        ensures
            !old(self).sessions@.contains_key(session_id) ==> r == Err::<(), ContractError>(ContractError::Unauthorized)
                && *final(self) == *old(self),
            old(self).sessions@.contains_key(session_id) ==> {
                let s = old(self).sessions@[session_id];
                &&& r is Ok
                &&& final(self).sessions@ == old(self).sessions@.insert(session_id, deactivated(s))
                &&& audited(old(self).history@, final(self).history@, s.admin.id, (session_id, s.admin, action, now, description@))
                &&& final(self).admin_sessions == old(self).admin_sessions
                &&& final(self).next_session_id == old(self).next_session_id
            },
    {
        if self.sessions.get(&session_id).is_none() {
            return Err(ContractError::Unauthorized);
        }
        let mut session = match self.sessions.remove(&session_id) {
            Some(s) => s,
            None => return Err(ContractError::Unauthorized),
        };
        session.is_active = false;
        let admin = session.admin;
        self.sessions.insert(session_id, session);
        proof {
            assert(self.sessions@ =~= old(self).sessions@.insert(session_id, deactivated(old(self).sessions@[session_id])));
        }
        record_audit(&mut self.history, session_id, admin, action, description, now);
        Ok(())
    }

    /// Opens a session for `admin` lasting `timeout_secs` (24 hours when
    /// unset, at most 7 days). An administrator already holding the maximum
    /// number of sessions has the oldest one revoked.
    pub fn create_session(
        &mut self,
        admin: Addr,
        timeout_secs: Option<u64>,
        description: Option<Vec<u8>>,
        now: u64,
    ) -> (r: Result<u64, ContractError>)
        requires
            old(self).wf(),
            old(self).next_session_id is Some ==> old(self).next_session_id->Some_0 < u64::MAX,
            ({
                let t = match timeout_secs { Some(t) => t, None => DEFAULT_SESSION_TIMEOUT_SECS };
                t <= MAX_SESSION_TIMEOUT_SECS ==> now + t <= u64::MAX
            }),
        ensures
            final(self).wf(),
            !old(self).sessions@.contains_key(next_id_of(old(self).next_session_id)),
            ({
                let t = match timeout_secs { Some(t) => t, None => DEFAULT_SESSION_TIMEOUT_SECS };
                let sid = next_id_of(old(self).next_session_id);
                let list = list_in(old(self).admin_sessions@, admin.id);
                let full = list.len() >= MAX_SESSIONS_PER_ADMIN;
                let oldest = list[0];
                &&& t > MAX_SESSION_TIMEOUT_SECS ==> r == Err::<u64, ContractError>(ContractError::InvalidProjectData)
                    && *final(self) == *old(self)
                &&& t <= MAX_SESSION_TIMEOUT_SECS && full && oldest != sid && !old(self).sessions@.contains_key(oldest)
                    ==> r == Err::<u64, ContractError>(ContractError::Unauthorized) && *final(self) == *old(self)
                &&& r is Ok ==> {
                    let s = final(self).sessions@[sid];
                    let with_new = old(self).sessions@.insert(sid, s);
                    &&& r == Ok::<u64, ContractError>(sid)
                    &&& s.session_id == sid && s.admin == admin && s.created_at == now && s.expires_at == now + t
                    &&& s.last_activity_at == now
                    &&& s.description@ == (match description { Some(d) => d@, None => "Admin session".spec_bytes() })
                    &&& !full ==> final(self).sessions@ == with_new && s.is_active
                    &&& full ==> final(self).sessions@ == with_new.insert(oldest, deactivated(with_new[oldest]))
                        && (oldest != sid ==> s.is_active)
                    &&& list_in(final(self).admin_sessions@, admin.id) == list.push(sid)
                    &&& forall|k: u64| k != admin.id ==> #[trigger] list_in(final(self).admin_sessions@, k) == list_in(old(self).admin_sessions@, k)
                    &&& final(self).next_session_id == Some(sid)
                    &&& !full ==> audited(old(self).history@, final(self).history@, admin.id, (
                        sid,
                        admin,
                        SessionAction::Created,
                        now,
                        match description { Some(d) => d@, None => "Session created".spec_bytes() },
                    ))
                    &&& full ==> exists|mid: Map<u64, Vec<SessionAuditEntry>>| #![auto]
                        audited(old(self).history@, mid, with_new[oldest].admin.id, (
                            oldest,
                            with_new[oldest].admin,
                            SessionAction::Revoked,
                            now,
                            "Session revoked".spec_bytes(),
                        )) && audited(mid, final(self).history@, admin.id, (
                            sid,
                            admin,
                            SessionAction::Created,
                            now,
                            match description { Some(d) => d@, None => "Session created".spec_bytes() },
                        ))
                }
                &&& (t <= MAX_SESSION_TIMEOUT_SECS && !(full && oldest != sid && !old(self).sessions@.contains_key(oldest))) ==> r is Ok
            }),
    {
        let timeout = match timeout_secs {
            Some(t) => t,
            None => DEFAULT_SESSION_TIMEOUT_SECS,
        };
        if timeout > MAX_SESSION_TIMEOUT_SECS {
            return Err(ContractError::InvalidProjectData);
        }
        let session_id = self.next_session_id();
        let sessions = self.get_admin_sessions(admin);
        let full = sessions.len() >= MAX_SESSIONS_PER_ADMIN as usize;
        if full {
            let oldest = sessions[0];
            if oldest != session_id && self.get_session(oldest).is_none() {
                return Err(ContractError::Unauthorized);
            }
        }
        let (session_desc, audit_desc) = match &description {
            Some(d) => (copy_text(d), copy_text(d)),
            None => (text("Admin session".as_bytes()), text("Session created".as_bytes())),
        };
        let session = AdminSession {
            session_id,
            admin,
            created_at: now,
            expires_at: now + timeout,
            last_activity_at: now,
            is_active: true,
            description: session_desc,
        };
        self.sessions.insert(session_id, session);
        let ghost with_new = self.sessions@;
        if full {
            let oldest = sessions[0];
            let _ = self.deactivate(oldest, SessionAction::Revoked, text("Session revoked".as_bytes()), now);
        }
        let mut list = sessions;
        list.push(session_id);
        self.admin_sessions.insert(admin.id, list);
        let ghost mid = self.history@;
        record_audit(&mut self.history, session_id, admin, SessionAction::Created, audit_desc, now);
        self.next_session_id = Some(session_id);
        proof {
            if full {
                assert(audited(mid, self.history@, admin.id, (
                    session_id,
                    admin,
                    SessionAction::Created,
                    now,
                    match description { Some(d) => d@, None => "Session created".spec_bytes() },
                )));
            }
            assert forall|k: u64| k != admin.id implies #[trigger] list_in(self.admin_sessions@, k) == list_in(old(self).admin_sessions@, k) by {
                if old(self).admin_sessions@.contains_key(k) {
                    assert(self.admin_sessions@[k] == old(self).admin_sessions@[k]);
                }
            }
        }
        Ok(session_id)
    }

    /// Checks that `admin`'s session is active, unexpired and recently
    /// used. An expired session is marked expired, an idle one invalidated;
    /// both are refused.
    pub fn validate_session(&mut self, admin: Addr, session_id: u64, now: u64) -> (r: Result<(), ContractError>)
        requires
            old(self).wf(),
            ({
                let s = old(self).sessions@[session_id];
                old(self).sessions@.contains_key(session_id) && s.admin == admin && s.is_active && now <= s.expires_at
                    ==> now >= s.last_activity_at
            }),
        ensures
            final(self).wf(),
            ({
                let s = old(self).sessions@[session_id];
                let usable = old(self).sessions@.contains_key(session_id) && s.admin == admin && s.is_active;
                &&& !usable ==> r == Err::<(), ContractError>(ContractError::Unauthorized) && *final(self) == *old(self)
                &&& usable && now > s.expires_at ==> r == Err::<(), ContractError>(ContractError::Unauthorized)
                    && final(self).sessions@ == old(self).sessions@.insert(session_id, deactivated(s))
                    && audited(old(self).history@, final(self).history@, admin.id, (session_id, admin, SessionAction::Expired, now, "Session expired".spec_bytes()))
                    && final(self).admin_sessions == old(self).admin_sessions
                    && final(self).next_session_id == old(self).next_session_id
                &&& usable && now <= s.expires_at && now - s.last_activity_at > INACTIVITY_TIMEOUT_SECS ==> r == Err::<(), ContractError>(ContractError::Unauthorized)
                    && final(self).sessions@ == old(self).sessions@.insert(session_id, deactivated(s))
                    && audited(old(self).history@, final(self).history@, admin.id, (session_id, admin, SessionAction::Invalidated, now, "Session invalidated due to inactivity".spec_bytes()))
                    && final(self).admin_sessions == old(self).admin_sessions
                    && final(self).next_session_id == old(self).next_session_id
                &&& usable && now <= s.expires_at && now - s.last_activity_at <= INACTIVITY_TIMEOUT_SECS ==> r is Ok && *final(self) == *old(self)
            }),
    {
        let (s_admin, active, expires_at, last) = match self.get_session(session_id) {
            Some(s) => (s.admin, s.is_active, s.expires_at, s.last_activity_at),
            None => return Err(ContractError::Unauthorized),
        };
        if s_admin != admin || !active {
            return Err(ContractError::Unauthorized);
        }
        if now > expires_at {
            let _ = self.deactivate(session_id, SessionAction::Expired, text("Session expired".as_bytes()), now);
            return Err(ContractError::Unauthorized);
        }
        if now - last > INACTIVITY_TIMEOUT_SECS {
            let _ = self.deactivate(
                session_id,
                SessionAction::Invalidated,
                text("Session invalidated due to inactivity".as_bytes()),
                now,
            );
            return Err(ContractError::Unauthorized);
        }
        Ok(())
    }

    /// Marks an active, unexpired session as used now.
    pub fn refresh_session(&mut self, session_id: u64, now: u64) -> (r: Result<(), ContractError>)
        requires
            old(self).wf(),
        ensures
            final(self).wf(),
            ({
                let s = old(self).sessions@[session_id];
                let ok = old(self).sessions@.contains_key(session_id) && s.is_active && now <= s.expires_at;
                &&& !ok ==> r == Err::<(), ContractError>(ContractError::Unauthorized) && *final(self) == *old(self)
                &&& ok ==> r is Ok
                    && final(self).sessions@ == old(self).sessions@.insert(session_id, AdminSession { last_activity_at: now, ..s })
                    && audited(old(self).history@, final(self).history@, s.admin.id, (session_id, s.admin, SessionAction::Refreshed, now, "Session refreshed".spec_bytes()))
                    && final(self).admin_sessions == old(self).admin_sessions
                    && final(self).next_session_id == old(self).next_session_id
            }),
    {
        match self.sessions.get(&session_id) {
            Some(s) => {
                if !s.is_active || now > s.expires_at {
                    return Err(ContractError::Unauthorized);
                }
            },
            None => return Err(ContractError::Unauthorized),
        }
        let mut session = match self.sessions.remove(&session_id) {
            Some(s) => s,
            None => return Err(ContractError::Unauthorized),
        };
        session.last_activity_at = now;
        let admin = session.admin;
        self.sessions.insert(session_id, session);
        record_audit(&mut self.history, session_id, admin, SessionAction::Refreshed, text("Session refreshed".as_bytes()), now);
        Ok(())
    }

    /// Revokes one of `admin`'s sessions.
    pub fn revoke_session(&mut self, admin: Addr, session_id: u64, now: u64) -> (r: Result<(), ContractError>)
        requires
            old(self).wf(),
        ensures
            final(self).wf(),
            ({
                let s = old(self).sessions@[session_id];
                let ok = old(self).sessions@.contains_key(session_id) && s.admin == admin;
                &&& !ok ==> r == Err::<(), ContractError>(ContractError::Unauthorized) && *final(self) == *old(self)
                &&& ok ==> r is Ok
                    && final(self).sessions@ == old(self).sessions@.insert(session_id, deactivated(s))
                    && audited(old(self).history@, final(self).history@, admin.id, (session_id, admin, SessionAction::Revoked, now, "Session revoked".spec_bytes()))
                    && final(self).admin_sessions == old(self).admin_sessions
                    && final(self).next_session_id == old(self).next_session_id
            }),
    {
        match self.get_session(session_id) {
            Some(s) => {
                if s.admin != admin {
                    return Err(ContractError::Unauthorized);
                }
            },
            None => return Err(ContractError::Unauthorized),
        }
        self.deactivate(session_id, SessionAction::Revoked, text("Session revoked".as_bytes()), now)
    }
}

/// The session ids of the administrators `admins`, in order.
pub open spec fn all_ids(admins: Seq<Addr>, m: Map<u64, Vec<u64>>) -> Seq<u64>
    decreases admins.len(),
{
    if admins.len() == 0 {
        Seq::empty()
    } else {
        all_ids(admins.drop_last(), m) + list_in(m, admins.last().id)
    }
}

/// The sessions among `ids` that are active and unexpired at `now`.
pub open spec fn live_among(ids: Seq<u64>, m: Map<u64, AdminSession>, now: u64) -> Seq<AdminSession>
    decreases ids.len(),
{
    if ids.len() == 0 {
        Seq::empty()
    } else {
        let rest = live_among(ids.drop_last(), m, now);
        let x = ids.last();
        if m.contains_key(x) && m[x].is_active && now <= m[x].expires_at { rest.push(m[x]) } else { rest }
    }
}

/// The sessions a cleanup over `ids` expires, in order: active ones past
/// their expiry, each once, at most `batch` of them.
pub open spec fn to_expire(ids: Seq<u64>, m: Map<u64, AdminSession>, batch: u32, now: u64) -> Seq<u64>
    decreases ids.len(),
{
    if ids.len() == 0 {
        Seq::empty()
    } else {
        let rest = to_expire(ids.drop_last(), m, batch, now);
        let x = ids.last();
        if rest.len() < batch && m.contains_key(x) && m[x].is_active && now > m[x].expires_at && !rest.contains(x) {
            rest.push(x)
        } else {
            rest
        }
    }
}

/// The audit trail of administrator id `k` after the sessions `ex` were
/// marked expired, in order.
pub open spec fn expire_trail(t: Seq<AuditView>, ex: Seq<u64>, m: Map<u64, AdminSession>, k: u64, now: u64) -> Seq<AuditView>
    decreases ex.len(),
{
    if ex.len() == 0 {
        t
    } else {
        let t2 = expire_trail(t, ex.drop_last(), m, k, now);
        let x = ex.last();
        if m[x].admin.id == k {
            push_trim(t2, (x, m[x].admin, SessionAction::Expired, now, "Session expired".spec_bytes()))
        } else {
            t2
        }
    }
}

impl AdminSessionManager {
    /// Every session id of every administrator, in the order of the
    /// administrator list.
    fn collect_ids(&self, admins: &AdminManager) -> (r: Vec<u64>)
        ensures
            r@ == all_ids(admins.admins@, self.admin_sessions@),
    {
        let list = admins.get_admin_list();
        let mut out: Vec<u64> = Vec::new();
        let mut i: usize = 0;
        while i < list.len()
            invariant
                i <= list@.len(),
                list@ == admins.admins@,
                out@ == all_ids(list@.take(i as int), self.admin_sessions@),
            decreases list@.len() - i,
        {
            proof {
                assert(list@.take(i + 1).drop_last() =~= list@.take(i as int));
            }
            let ids = self.get_admin_sessions(list[i]);
            let mut j: usize = 0;
            let ghost base = out@;
            while j < ids.len()
                invariant
                    j <= ids@.len(),
                    out@ == base + ids@.take(j as int),
                decreases ids@.len() - j,
            {
                out.push(ids[j]);
                j = j + 1;
                assert(out@ =~= base + ids@.take(j as int));
            }
            assert(ids@.take(j as int) =~= ids@);
            i = i + 1;
        }
        assert(list@.take(i as int) =~= list@);
        out
    }

    /// The active, unexpired sessions of all administrators.
    pub fn get_all_active_sessions(&self, now: u64, admins: &AdminManager) -> (r: Vec<&AdminSession>)
        ensures
            ({
                let live = live_among(all_ids(admins.admins@, self.admin_sessions@), self.sessions@, now);
                &&& r@.len() == live.len()
                &&& forall|i: int| 0 <= i < live.len() ==> *#[trigger] r@[i] == live[i]
            }),
    {
        let ids = self.collect_ids(admins);
        let mut out: Vec<&AdminSession> = Vec::new();
        let mut i: usize = 0;
        while i < ids.len()
            invariant
                i <= ids@.len(),
                ({
                    let live = live_among(ids@.take(i as int), self.sessions@, now);
                    &&& out@.len() == live.len()
                    &&& forall|k: int| 0 <= k < live.len() ==> *#[trigger] out@[k] == live[k]
                }),
            decreases ids@.len() - i,
        {
            proof {
                assert(ids@.take(i + 1).drop_last() =~= ids@.take(i as int));
            }
            if let Some(s) = self.sessions.get(&ids[i]) {
                if s.is_active && now <= s.expires_at {
                    out.push(s);
                }
            }
            i = i + 1;
        }
        assert(ids@.take(i as int) =~= ids@);
        out
    }

    /// Marks expired every active session past its expiry, at most
    /// `batch_size` of them, visiting administrators in list order; returns
    /// how many it marked.
    pub fn cleanup_expired_sessions(&mut self, batch_size: u32, now: u64, admins: &AdminManager) -> (r: Result<
        u32,
        ContractError,
    >)
        requires
            old(self).wf(),
        ensures
            final(self).wf(),
            ({
                let ex = to_expire(all_ids(admins.admins@, old(self).admin_sessions@), old(self).sessions@, batch_size, now);
                &&& r == Ok::<u32, ContractError>(ex.len() as u32)
                &&& final(self).sessions@.dom() == old(self).sessions@.dom()
                &&& forall|k: u64| #[trigger] final(self).sessions@.contains_key(k) ==> final(self).sessions@[k] == (if ex.contains(k) {
                    deactivated(old(self).sessions@[k])
                } else {
                    old(self).sessions@[k]
                })
                &&& forall|k: u64| #[trigger] trail_of(final(self).history@, k) == expire_trail(trail_of(old(self).history@, k), ex, old(self).sessions@, k, now)
                &&& final(self).admin_sessions == old(self).admin_sessions
                &&& final(self).next_session_id == old(self).next_session_id
            }),
    {
        let ids = self.collect_ids(admins);
        let ghost m0 = self.sessions@;
        let mut cleaned: u32 = 0;
        let mut i: usize = 0;
        let ghost mut ex: Seq<u64> = Seq::empty();
        while i < ids.len()
            invariant
                i <= ids@.len(),
                ex == to_expire(ids@.take(i as int), m0, batch_size, now),
                cleaned == ex.len(),
                cleaned <= batch_size,
                self.sessions@.dom() == m0.dom(),
                forall|k: u64| #[trigger] self.sessions@.contains_key(k) ==> self.sessions@[k] == (if ex.contains(k) {
                    deactivated(m0[k])
                } else {
                    m0[k]
                }),
                forall|k: u64| #[trigger] trail_of(self.history@, k) == expire_trail(trail_of(old(self).history@, k), ex, m0, k, now),
                m0 == old(self).sessions@,
                self.admin_sessions == old(self).admin_sessions,
                self.next_session_id == old(self).next_session_id,
            decreases ids@.len() - i,
        {
            proof {
                assert(ids@.take(i + 1).drop_last() =~= ids@.take(i as int));
            }
            let x = ids[i];
            if cleaned < batch_size {
                let expire = match self.sessions.get(&x) {
                    Some(s) => s.is_active && now > s.expires_at,
                    None => false,
                };
                if expire {
                    proof {
                        assert(!ex.contains(x));
                    }
                    let ghost hprev = self.history@;
                    let _ = self.deactivate(x, SessionAction::Expired, text("Session expired".as_bytes()), now);
                    cleaned = cleaned + 1;
                    proof {
                        let ex0 = ex;
                        let a = m0[x].admin.id;
                        assert(ex0.push(x).drop_last() =~= ex0);
                        assert forall|k: u64| #[trigger] trail_of(self.history@, k) == expire_trail(trail_of(old(self).history@, k), ex0.push(x), m0, k, now) by {
                            if k != a {
                                if hprev.contains_key(k) {
                                    assert(self.history@[k] == hprev[k]);
                                }
                                assert(trail_of(self.history@, k) == trail_of(hprev, k));
                            }
                        }
                        ex = ex.push(x);
                        assert(self.sessions@.dom() =~= m0.dom());
                        assert forall|k: u64| k != x implies (#[trigger] ex.contains(k) <==> ex0.contains(k)) by {
                            if ex.contains(k) {
                                let j = choose|j: int| 0 <= j < ex.len() && ex[j] == k;
                                assert(j < ex0.len());
                                assert(ex0[j] == k);
                            }
                            if ex0.contains(k) {
                                let j = choose|j: int| 0 <= j < ex0.len() && ex0[j] == k;
                                assert(ex[j] == k);
                            }
                        }
                        assert(ex[ex.len() - 1] == x);
                    }
                } else {
                    proof {
                        if m0.contains_key(x) && m0[x].is_active && now > m0[x].expires_at {
                            assert(ex.contains(x));
                        }
                    }
                }
            }
            i = i + 1;
        }
        assert(ids@.take(i as int) =~= ids@);
        Ok(cleaned)
    }
}


/// An audit trail never holds more than `MAX_SESSION_HISTORY` entries, and
/// the entry just recorded is its newest.
pub proof fn lemma_trail_bounded(h: Seq<AuditView>, e: AuditView)
    requires
        h.len() <= MAX_SESSION_HISTORY,
    ensures
        push_trim(h, e).len() <= MAX_SESSION_HISTORY,
        push_trim(h, e).last() == e,
{
}

/// Session ids are unique: the id the next session gets lies above every
/// stored session's id, so creating a session never overwrites an earlier
/// one, and two sessions created one after the other get different ids.
pub proof fn lemma_session_ids_unique(m0: AdminSessionManager, m1: AdminSessionManager)
    requires
        m0.wf(),
        m0.next_session_id is Some ==> m0.next_session_id->Some_0 < u64::MAX,
        m1.wf(),
        m1.next_session_id == Some(next_id_of(m0.next_session_id)),
        next_id_of(m0.next_session_id) < u64::MAX,
    ensures
        forall|k: u64| #[trigger] m0.sessions@.contains_key(k) ==> k < next_id_of(m0.next_session_id),
        !m0.sessions@.contains_key(next_id_of(m0.next_session_id)),
        !m1.sessions@.contains_key(next_id_of(m1.next_session_id)),
        next_id_of(m1.next_session_id) != next_id_of(m0.next_session_id),
{
}

} // verus!
