//! Archiving of inactive projects after a notice period, and search among
//! archived projects.
//!
//! A project becomes archivable once it has been inactive for the configured
//! threshold and a notice about its current activity stamp is at least
//! `AUTO_ARCHIVE_NOTICE_SECS` old.
use vstd::prelude::*;
use std::collections::HashMap;
use crate::admin_manager::AdminManager;
use crate::constants::MAX_PAGE_LIMIT;
use crate::types::{Addr, ContractError, Project, ProjectBook};
use crate::utils::{lower_byte, normalize, normalize_name};

verus! {

broadcast use vstd::std_specs::hash::group_hash_axioms;

/// Length of the notice period before archival: 30 days.
pub const AUTO_ARCHIVE_NOTICE_SECS: u64 = 2_592_000;
/// Default inactivity threshold: 365 days.
pub const DEFAULT_AUTO_ARCHIVE_THRESHOLD_SECS: u64 = 31_536_000;
/// Smallest allowed inactivity threshold: one year (365 days).
pub const MIN_AUTO_ARCHIVE_THRESHOLD_SECS: u64 = 31_536_000;
/// Largest allowed inactivity threshold: ten years (3650 days).
pub const MAX_AUTO_ARCHIVE_THRESHOLD_SECS: u64 = 315_360_000;
/// Most projects one batch scans or archives.
pub const MAX_AUTO_ARCHIVE_BATCH_SIZE: u32 = 50;
/// Most projects one search scans.
pub const MAX_ARCHIVED_SEARCH_SCAN: u32 = 200;

/// Whether automatic archival runs, and after how long without activity.
#[derive(Clone, Copy, Debug, PartialEq, Eq, Structural)]
pub struct AutoArchiveConfig {
    pub enabled: bool,
    pub inactivity_threshold_secs: u64,
}

/// Delivery state of a pre-archival notice.
#[derive(Clone, Copy, Debug, PartialEq, Eq, Structural)]
pub enum AutoArchiveNoticeStatus {
    Pending,
    Delivered,
    Failed,
}

/// A notice that a project is about to be archived.
#[derive(Clone, Copy, Debug, PartialEq, Eq, Structural)]
pub struct AutoArchiveNotice {
    pub project_id: u64,
    pub owner: Addr,
    pub last_activity_at: u64,
    pub notified_at: u64,
    pub archive_eligible_at: u64,
    pub status: AutoArchiveNoticeStatus,
}

/// The record of an automatic archival.
#[derive(Clone, Copy, Debug, PartialEq, Eq, Structural)]
pub struct AutoArchiveRecord {
    pub project_id: u64,
    pub owner: Addr,
    pub last_activity_at: u64,
    pub notified_at: u64,
    pub archived_at: u64,
    pub archived_by: Addr,
    pub restored_at: Option<u64>,
}

/// What one archival batch did.
pub struct AutoArchiveBatchResult {
    pub scanned_projects: u32,
    pub archived_count: u32,
    pub archived_project_ids: Vec<u64>,
    pub next_project_id: Option<u64>,
    pub has_more: bool,
}

/// One page of archived projects matching a query.
pub struct ArchivedProjectSearchResult<'a> {
    pub projects: Vec<&'a Project>,
    pub next_cursor: Option<u64>,
    pub has_more: bool,
    pub scanned_projects: u32,
}

/// The configuration, and the notices and archival records by project id.
pub struct AutoArchiveRegistry {
    pub config: Option<AutoArchiveConfig>,
    pub notices: HashMap<u64, AutoArchiveNotice>,
    pub records: HashMap<u64, AutoArchiveRecord>,
}

/// `a + b`, capped at `u64::MAX`.
pub open spec fn sat_add(a: u64, b: u64) -> u64 {
    if a + b > u64::MAX { u64::MAX } else { (a + b) as u64 }
}

/// `a - b`, floored at 0.
pub open spec fn sat_sub(a: u64, b: u64) -> u64 {
    if a >= b { (a - b) as u64 } else { 0 }
}

/// The built-in configuration: enabled, with the default threshold.
pub open spec fn spec_default_config() -> AutoArchiveConfig {
    AutoArchiveConfig { enabled: true, inactivity_threshold_secs: DEFAULT_AUTO_ARCHIVE_THRESHOLD_SECS }
}

/// When the notice window of a project opens.
pub open spec fn spec_notice_start(last_activity_at: u64, threshold_secs: u64) -> u64 {
    sat_sub(sat_add(last_activity_at, threshold_secs), AUTO_ARCHIVE_NOTICE_SECS)
}

/// The page size used for a requested `limit`.
pub open spec fn batch_limit(limit: u32) -> u32 {
    if limit == 0 || limit > MAX_AUTO_ARCHIVE_BATCH_SIZE { MAX_AUTO_ARCHIVE_BATCH_SIZE } else { limit }
}

/// Whether `needle` occurs in `hay`.
pub open spec fn occurs_in(hay: Seq<u8>, needle: Seq<u8>) -> bool {
    exists|s: int| 0 <= s && s + needle.len() <= hay.len() && #[trigger] hay.subrange(s, s + needle.len()) == needle
}

/// Whether each byte of `needle` equals the byte of `hay` at `s` past it,
/// ignoring ASCII case.
pub open spec fn offset_matches(hay: Seq<u8>, needle: Seq<u8>, s: int) -> bool {
    forall|j: int| 0 <= j < needle.len() ==> lower_byte(#[trigger] hay[s + j]) == lower_byte(needle[j])
}

/// The case-insensitive containment test of the search: an empty needle
/// matches; texts over 256 bytes never match otherwise.
pub open spec fn spec_contains_ignore_case(hay: Seq<u8>, needle: Seq<u8>) -> bool {
    if needle.len() == 0 {
        true
    } else if hay.len() < needle.len() || hay.len() > 256 {
        false
    } else {
        occurs_in(normalize_name(hay), normalize_name(needle))
    }
}

/// Whether the query matches the project's name, slug, category or
/// description.
pub open spec fn spec_project_matches(p: Project, query: Seq<u8>) -> bool {
    spec_contains_ignore_case(p.name@, query) || spec_contains_ignore_case(p.slug@, query)
        || spec_contains_ignore_case(p.category@, query) || spec_contains_ignore_case(p.description@, query)
}

impl AutoArchiveRegistry {
    pub fn new() -> (r: AutoArchiveRegistry)
        ensures
            r.config.is_none(),
            r.notices@ == Map::<u64, AutoArchiveNotice>::empty(),
            r.records@ == Map::<u64, AutoArchiveRecord>::empty(),
    {
        AutoArchiveRegistry { config: None, notices: HashMap::new(), records: HashMap::new() }
    }

    /// The configuration in force.
    pub open spec fn spec_config(&self) -> AutoArchiveConfig {
        match self.config {
            Some(c) => c,
            None => spec_default_config(),
        }
    }

    /// The notice that makes project `p` archivable at `now`, if it is.
    pub open spec fn spec_eligible(&self, p: Project, now: u64) -> Option<AutoArchiveNotice> {
        let config = self.spec_config();
        if !config.enabled || p.archived {
            None
        } else if now < sat_add(p.updated_at, config.inactivity_threshold_secs) {
            None
        } else if !self.notices@.contains_key(p.id) {
            None
        } else {
            let notice = self.notices@[p.id];
            if notice.last_activity_at != p.updated_at || now < sat_add(notice.notified_at, AUTO_ARCHIVE_NOTICE_SECS) {
                None
            } else {
                Some(notice)
            }
        }
    }

    /// Ids in `[lo, hi)` of the projects archivable at `now`, in order.
    pub open spec fn eligible_ids(&self, ps: Seq<Project>, lo: u64, hi: int, now: u64) -> Seq<u64>
        decreases hi - lo,
    {
        if hi <= lo {
            Seq::empty()
        } else {
            let rest = self.eligible_ids(ps, lo, hi - 1, now);
            let id = (hi - 1) as u64;
            if 1 <= id <= ps.len() && self.spec_eligible(ps[id - 1], now) is Some {
                rest.push(id)
            } else {
                rest
            }
        }
    }

    /// The built-in configuration.
    pub fn default_config() -> (c: AutoArchiveConfig)
        ensures
            c == spec_default_config(),
    {
        AutoArchiveConfig { enabled: true, inactivity_threshold_secs: DEFAULT_AUTO_ARCHIVE_THRESHOLD_SECS }
    }

    /// The configuration in force.
    pub fn get_config(&self) -> (c: AutoArchiveConfig)
        ensures
            c == self.spec_config(),
    {
        match self.config {
            Some(c) => c,
            None => Self::default_config(),
        }
    }

    /// Stores a configuration on the word of an administrator; the
    /// threshold must lie within the allowed bounds.
    pub fn set_config(&mut self, admin: Addr, config: AutoArchiveConfig, admins: &AdminManager) -> (r: Result<
        (),
        ContractError,
    >)
        ensures
            r == (if !admins.spec_is_admin(admin) {
                Err(ContractError::AdminOnly)
            } else if config.inactivity_threshold_secs < MIN_AUTO_ARCHIVE_THRESHOLD_SECS
                || config.inactivity_threshold_secs > MAX_AUTO_ARCHIVE_THRESHOLD_SECS {
                Err(ContractError::AutoArchiveThresholdInvalid)
            } else {
                Ok::<(), ContractError>(())
            }),
            r is Err ==> *final(self) == *old(self),
            r is Ok ==> final(self).config == Some(config) && final(self).notices == old(self).notices
                && final(self).records == old(self).records,
    {
        admins.require_admin(admin)?;
        if config.inactivity_threshold_secs < MIN_AUTO_ARCHIVE_THRESHOLD_SECS
            || config.inactivity_threshold_secs > MAX_AUTO_ARCHIVE_THRESHOLD_SECS {
            return Err(ContractError::AutoArchiveThresholdInvalid);
        }
        self.config = Some(config);
        Ok(())
    }

    /// The notice of a project, if any.
    pub fn get_notice(&self, project_id: u64) -> (r: Option<AutoArchiveNotice>)
        ensures
            r == (if self.notices@.contains_key(project_id) { Some(self.notices@[project_id]) } else { None }),
    {
        match self.notices.get(&project_id) {
            Some(n) => Some(*n),
            None => None,
        }
    }

    /// The archival record of a project, if any.
    pub fn get_record(&self, project_id: u64) -> (r: Option<AutoArchiveRecord>)
        ensures
            r == (if self.records@.contains_key(project_id) { Some(self.records@[project_id]) } else { None }),
    {
        match self.records.get(&project_id) {
            Some(n) => Some(*n),
            None => None,
        }
    }

    /// When the notice window opens for a project last active at
    /// `last_activity_at`.
    pub fn notice_start(last_activity_at: u64, threshold_secs: u64) -> (t: u64)
        ensures
            t == spec_notice_start(last_activity_at, threshold_secs),
    {
        last_activity_at.saturating_add(threshold_secs).saturating_sub(AUTO_ARCHIVE_NOTICE_SECS)
    }

    /// Issues a notice for a project inside its notice window. Returns
    /// `false` when a live notice for the same activity stamp exists.
    pub fn notify_project(&mut self, keeper: Addr, project_id: u64, now: u64, projects: &ProjectBook) -> (r:
        Result<bool, ContractError>)
        requires
            projects.wf(),
        ensures
            ({
                let config = old(self).spec_config();
                let p = projects.at(project_id);
                let live = old(self).notices@.contains_key(project_id)
                    && old(self).notices@[project_id].last_activity_at == p.updated_at
                    && old(self).notices@[project_id].status != AutoArchiveNoticeStatus::Failed;
                &&& r == (if !config.enabled {
                    Err(ContractError::AutoArchiveDisabled)
                } else if !projects.has(project_id) {
                    Err(ContractError::ProjectNotFound)
                } else if p.archived {
                    Err(ContractError::AlreadyArchived)
                } else if now < spec_notice_start(p.updated_at, config.inactivity_threshold_secs) {
                    Err(ContractError::AutoArchiveNotDue)
                } else if live {
                    Ok(false)
                } else {
                    Ok::<bool, ContractError>(true)
                })
                &&& r != Ok::<bool, ContractError>(true) ==> *final(self) == *old(self)
                &&& r == Ok::<bool, ContractError>(true) ==> final(self).notices@ == old(self).notices@.insert(
                    project_id,
                    AutoArchiveNotice {
                        project_id,
                        owner: p.owner,
                        last_activity_at: p.updated_at,
                        notified_at: now,
                        archive_eligible_at: sat_add(p.updated_at, config.inactivity_threshold_secs),
                        status: AutoArchiveNoticeStatus::Pending,
                    },
                ) && final(self).config == old(self).config && final(self).records == old(self).records
            }),
    {
        let config = self.get_config();
        if !config.enabled {
            return Err(ContractError::AutoArchiveDisabled);
        }
        let (archived, updated_at, owner) = match projects.get_project(project_id) {
            Some(p) => (p.archived, p.updated_at, p.owner),
            None => return Err(ContractError::ProjectNotFound),
        };
        if archived {
            return Err(ContractError::AlreadyArchived);
        }
        if now < Self::notice_start(updated_at, config.inactivity_threshold_secs) {
            return Err(ContractError::AutoArchiveNotDue);
        }
        if let Some(existing) = self.get_notice(project_id) {
            if existing.last_activity_at == updated_at && existing.status != AutoArchiveNoticeStatus::Failed {
                return Ok(false);
            }
        }
        let notice = AutoArchiveNotice {
            project_id,
            owner,
            last_activity_at: updated_at,
            notified_at: now,
            archive_eligible_at: updated_at.saturating_add(config.inactivity_threshold_secs),
            status: AutoArchiveNoticeStatus::Pending,
        };
        self.notices.insert(project_id, notice);
        Ok(true)
    }

    /// Records whether a notice reached the owner, on the word of an
    /// administrator.
    pub fn record_notice_delivery(
        &mut self,
        admin: Addr,
        project_id: u64,
        delivered: bool,
        admins: &AdminManager,
    ) -> (r: Result<(), ContractError>)
        ensures
            r == (if !admins.spec_is_admin(admin) {
                Err(ContractError::AdminOnly)
            } else if !old(self).notices@.contains_key(project_id) {
                Err(ContractError::AutoArchiveNoticeNotFound)
            } else {
                Ok::<(), ContractError>(())
            }),
            r is Err ==> *final(self) == *old(self),
            r is Ok ==> final(self).notices@ == old(self).notices@.insert(
                project_id,
                AutoArchiveNotice {
                    status: if delivered { AutoArchiveNoticeStatus::Delivered } else { AutoArchiveNoticeStatus::Failed },
                    ..old(self).notices@[project_id]
                },
            ) && final(self).config == old(self).config && final(self).records == old(self).records,
    {
        admins.require_admin(admin)?;
        let mut notice = match self.get_notice(project_id) {
            Some(n) => n,
            None => return Err(ContractError::AutoArchiveNoticeNotFound),
        };
        notice.status = if delivered { AutoArchiveNoticeStatus::Delivered } else { AutoArchiveNoticeStatus::Failed };
        self.notices.insert(project_id, notice);
        Ok(())
    }

    /// The notice that makes `project` archivable at `now`, if it is.
    fn eligible_for_archive(&self, project: &Project, config: &AutoArchiveConfig, now: u64) -> (r: Option<
        AutoArchiveNotice,
    >)
        requires
            *config == self.spec_config(),
        ensures
            r == self.spec_eligible(*project, now),
    {
        if !config.enabled || project.archived {
            return None;
        }
        if now < project.updated_at.saturating_add(config.inactivity_threshold_secs) {
            return None;
        }
        let notice = match self.get_notice(project.id) {
            Some(n) => n,
            None => return None,
        };
        if notice.last_activity_at != project.updated_at
            || now < notice.notified_at.saturating_add(AUTO_ARCHIVE_NOTICE_SECS) {
            return None;
        }
        Some(notice)
    }
}


impl AutoArchiveRegistry {
    /// Whether the batch starting at `lo`, having reached `hi`, archives
    /// project `k`.
    pub open spec fn selected(&self, ps: Seq<Project>, lo: u64, hi: int, now: u64, k: u64) -> bool {
        lo <= k < hi && 1 <= k <= ps.len() && self.spec_eligible(ps[k - 1], now) is Some
    }

    /// The record kept when project `p` is archived at `now` by `keeper`.
    pub open spec fn spec_record(&self, p: Project, now: u64, keeper: Addr) -> AutoArchiveRecord {
        AutoArchiveRecord {
            project_id: p.id,
            owner: p.owner,
            last_activity_at: p.updated_at,
            notified_at: self.notices@[p.id].notified_at,
            archived_at: now,
            archived_by: keeper,
            restored_at: None,
        }
    }

    /// The records a batch over `[lo, hi)` adds.
    pub open spec fn batch_records(&self, ps: Seq<Project>, lo: u64, hi: int, now: u64, keeper: Addr) -> Map<
        u64,
        AutoArchiveRecord,
    > {
        Map::new(|k: u64| self.selected(ps, lo, hi, now, k), |k: u64| self.spec_record(ps[k - 1], now, keeper))
    }

    /// The projects after a batch over `[lo, hi)` archived the selected ones.
    pub open spec fn batch_projects(&self, ps: Seq<Project>, lo: u64, hi: int, now: u64) -> Seq<Project> {
        Seq::new(
            ps.len(),
            |i: int|
                if self.selected(ps, lo, hi, now, (i + 1) as u64) {
                    Project { archived: true, ..ps[i] }
                } else {
                    ps[i]
                },
        )
    }

    /// Where a batch may scan up to: one past the last project, or the
    /// batch width past `start`, whichever comes first.
    pub open spec fn scan_end(start: u64, count: u64) -> u64 {
        let a = sat_add(start, MAX_AUTO_ARCHIVE_BATCH_SIZE as u64);
        let b = sat_add(count, 1);
        if a < b { a } else { b }
    }

    /// The batch stopped at cursor `c` with archived ids `ids`: it scanned
    /// until the end of its range or until `lim` projects were archived.
    pub open spec fn batch_stop(&self, ps: Seq<Project>, start: u64, lim: u32, now: u64, c: int, ids: Seq<u64>) -> bool {
        let end = Self::scan_end(start, ps.len() as u64);
        &&& start <= c <= end
        &&& ids == self.eligible_ids(ps, start, c, now)
        &&& c < end ==> ids.len() == lim
        &&& c > start ==> self.eligible_ids(ps, start, c - 1, now).len() < lim
    }

    /// The ids a batch archives are exactly the selected ones.
    pub proof fn lemma_eligible_ids(&self, ps: Seq<Project>, lo: u64, hi: int, now: u64)
        requires
            hi <= u64::MAX + 1,
        ensures
            forall|k: u64| #[trigger]
                self.eligible_ids(ps, lo, hi, now).contains(k) <==> self.selected(ps, lo, hi, now, k),
        decreases hi - lo,
    {
        if hi > lo {
            self.lemma_eligible_ids(ps, lo, hi - 1, now);
            let rest = self.eligible_ids(ps, lo, hi - 1, now);
            let id = (hi - 1) as u64;
            assert forall|k: u64| #[trigger]
                self.eligible_ids(ps, lo, hi, now).contains(k) <==> self.selected(ps, lo, hi, now, k) by {
                if 1 <= id <= ps.len() && self.spec_eligible(ps[id - 1], now) is Some {
                    assert(self.eligible_ids(ps, lo, hi, now) == rest.push(id));
                    if rest.push(id).contains(k) {
                        let j = choose|j: int| 0 <= j < rest.push(id).len() && rest.push(id)[j] == k;
                        if j < rest.len() {
                            assert(rest.contains(k));
                        }
                    }
                    if k == id {
                        assert(rest.push(id)[rest.len() as int] == k);
                    } else if rest.contains(k) {
                        let j = choose|j: int| 0 <= j < rest.len() && rest[j] == k;
                        assert(rest.push(id)[j] == k);
                    }
                }
            }
        }
    }

    /// Archives, within one bounded range of ids, every project whose
    /// inactivity threshold and notice period have both elapsed, and keeps
    /// a record of each archival. The range starts at `start_project_id`
    /// (0 means the first project) and ends after the batch width, at the
    /// last project, or once `limit` projects are archived.
    pub fn archive_inactive_batch(
        &mut self,
        keeper: Addr,
        start_project_id: u64,
        limit: u32,
        now: u64,
        projects: &mut ProjectBook,
    ) -> (r: Result<AutoArchiveBatchResult, ContractError>)
        requires
            old(projects).wf(),
        ensures
            final(projects).wf(),
            ({
                let ps = old(projects).projects@;
                let count = ps.len();
                let start: u64 = if start_project_id == 0 { 1 } else { start_project_id };
                &&& !old(self).spec_config().enabled <==> r is Err
                &&& r is Err ==> r == Err::<AutoArchiveBatchResult, ContractError>(ContractError::AutoArchiveDisabled)
                &&& (r is Err || start > count) ==> *final(self) == *old(self) && final(projects).projects@
                    == ps
                &&& r matches Ok(res) ==> start > count ==> res.scanned_projects == 0 && res.archived_count == 0
                    && res.archived_project_ids@.len() == 0 && res.next_project_id is None && !res.has_more
                &&& r matches Ok(res) ==> start <= count ==> {
                    let c = start + res.scanned_projects;
                    let ids = res.archived_project_ids@;
                    &&& old(self).batch_stop(ps, start, batch_limit(limit), now, c, ids)
                    &&& res.archived_count == ids.len()
                    &&& res.has_more == (c <= count)
                    &&& res.next_project_id == (if c <= count { Some(c as u64) } else { None })
                    &&& final(projects).projects@ == old(self).batch_projects(ps, start, c, now)
                    &&& final(self).records@ == old(self).records@.union_prefer_right(
                        old(self).batch_records(ps, start, c, now, keeper),
                    )
                    &&& final(self).config == old(self).config
                    &&& final(self).notices == old(self).notices
                    &&& forall|k: u64| #[trigger] ids.contains(k) <==> old(self).selected(ps, start, c, now, k)
                }
            }),
    {
        let config = self.get_config();
        if !config.enabled {
            return Err(ContractError::AutoArchiveDisabled);
        }
        let count = projects.count();
        let start: u64 = if start_project_id == 0 { 1 } else { start_project_id };
        if count == 0 || start > count {
            return Ok(
                AutoArchiveBatchResult {
                    scanned_projects: 0,
                    archived_count: 0,
                    archived_project_ids: Vec::new(),
                    next_project_id: None,
                    has_more: false,
                },
            );
        }
        let effective_limit: u32 = if limit == 0 || limit > MAX_AUTO_ARCHIVE_BATCH_SIZE {
            MAX_AUTO_ARCHIVE_BATCH_SIZE
        } else {
            limit
        };
        let a = start.saturating_add(MAX_AUTO_ARCHIVE_BATCH_SIZE as u64);
        let b = count.saturating_add(1);
        let scan_end: u64 = if a < b { a } else { b };
        let ghost ps = projects.projects@;
        let ghost old_self = *self;
        let mut archived_ids: Vec<u64> = Vec::new();
        let mut scanned: u32 = 0;
        let mut cursor: u64 = start;
        proof {
            old_self.lemma_eligible_ids(ps, start, cursor as int, now);
            assert(old_self.batch_projects(ps, start, cursor as int, now) =~= ps);
            assert(old_self.records@.union_prefer_right(old_self.batch_records(ps, start, cursor as int, now, keeper))
                =~= old_self.records@);
        }
        while cursor < scan_end && archived_ids.len() < effective_limit as usize
            invariant
                old_self == *old(self),
                ps == old(projects).projects@,
                config == old_self.spec_config(),
                count == ps.len(),
                1 <= start <= count,
                scan_end == Self::scan_end(start, count),
                effective_limit == batch_limit(limit),
                start <= cursor <= scan_end,
                scanned == cursor - start,
                projects.wf(),
                projects.projects@ == old_self.batch_projects(ps, start, cursor as int, now),
                self.config == old_self.config,
                self.notices == old_self.notices,
                self.records@ == old_self.records@.union_prefer_right(
                    old_self.batch_records(ps, start, cursor as int, now, keeper),
                ),
                archived_ids@ == old_self.eligible_ids(ps, start, cursor as int, now),
                archived_ids@.len() <= effective_limit,
                cursor > start ==> old_self.eligible_ids(ps, start, cursor - 1, now).len() < effective_limit,
                forall|k: u64| #[trigger]
                    archived_ids@.contains(k) <==> old_self.selected(ps, start, cursor as int, now, k),
            decreases scan_end - cursor,
        {
            let ghost before = projects.projects@;
            assert(before[cursor - 1] == ps[cursor - 1]);
            let found = match projects.get_project(cursor) {
                Some(p) => match self.eligible_for_archive(p, &config, now) {
                    Some(notice) => Some((notice, p.owner, p.updated_at)),
                    None => None,
                },
                None => None,
            };
            if let Some((notice, owner, updated_at)) = found {
                projects.set_archived(cursor, true, updated_at);
                let record = AutoArchiveRecord {
                    project_id: cursor,
                    owner,
                    last_activity_at: updated_at,
                    notified_at: notice.notified_at,
                    archived_at: now,
                    archived_by: keeper,
                    restored_at: None,
                };
                self.records.insert(cursor, record);
                archived_ids.push(cursor);
            }
            scanned = scanned + 1;
            cursor = cursor + 1;
            proof {
                assert(archived_ids@ =~= old_self.eligible_ids(ps, start, cursor as int, now));
                old_self.lemma_eligible_ids(ps, start, cursor as int, now);
                assert(projects.projects@ =~= old_self.batch_projects(ps, start, cursor as int, now));
                assert(self.records@ =~= old_self.records@.union_prefer_right(
                    old_self.batch_records(ps, start, cursor as int, now, keeper),
                ));
            }
        }
        let has_more = cursor <= count;
        let next_project_id = if has_more { Some(cursor) } else { None };
        let archived_count = archived_ids.len() as u32;
        Ok(
            AutoArchiveBatchResult {
                scanned_projects: scanned,
                archived_count,
                archived_project_ids: archived_ids,
                next_project_id,
                has_more,
            },
        )
    }
}


/// Whether `who` may manage project `p`: its owner or one of its
/// maintainers.
pub open spec fn manages(p: Project, who: Addr) -> bool {
    p.owner == who || p.maintainers@.contains(who)
}

/// Ids in `[lo, hi)` of the archived projects that match `query`, in order.
pub open spec fn matching_ids(ps: Seq<Project>, lo: u64, hi: int, query: Seq<u8>) -> Seq<u64>
    decreases hi - lo,
{
    if hi <= lo {
        Seq::empty()
    } else {
        let rest = matching_ids(ps, lo, hi - 1, query);
        let id = (hi - 1) as u64;
        if 1 <= id <= ps.len() && ps[id - 1].archived && spec_project_matches(ps[id - 1], query) {
            rest.push(id)
        } else {
            rest
        }
    }
}

impl AutoArchiveRegistry {
    /// Forgets the notice of a restored project and stamps its archival
    /// record, if any, with the restoration time.
    pub fn on_project_restored(&mut self, project_id: u64, now: u64)
        ensures
            final(self).config == old(self).config,
            final(self).notices@ == old(self).notices@.remove(project_id),
            final(self).records@ == (if old(self).records@.contains_key(project_id) {
                old(self).records@.insert(
                    project_id,
                    AutoArchiveRecord { restored_at: Some(now), ..old(self).records@[project_id] },
                )
            } else {
                old(self).records@
            }),
    {
        self.notices.remove(&project_id);
        if let Some(r) = self.get_record(project_id) {
            let mut record = r;
            record.restored_at = Some(now);
            self.records.insert(project_id, record);
        }
    }

    /// Brings an archived project back, on the word of its owner, one of
    /// its maintainers or an administrator. The project's activity stamp
    /// becomes `now`, its notice is dropped and its archival record notes
    /// the restoration.
    pub fn restore_archived_project(
        &mut self,
        project_id: u64,
        caller: Addr,
        now: u64,
        admins: &AdminManager,
        projects: &mut ProjectBook,
    ) -> (r: Result<(), ContractError>)
        requires
            old(projects).wf(),
        ensures
            final(projects).wf(),
            r == (if !old(projects).has(project_id) {
                Err(ContractError::ProjectNotFound)
            } else if !manages(old(projects).at(project_id), caller) && !admins.spec_is_admin(caller) {
                Err(ContractError::Unauthorized)
            } else if !old(projects).at(project_id).archived {
                Err(ContractError::ProjectNotArchived)
            } else {
                Ok::<(), ContractError>(())
            }),
            r is Err ==> *final(self) == *old(self) && final(projects).projects@ == old(projects).projects@,
            r is Ok ==> {
                &&& final(projects).projects@ == old(projects).projects@.update(
                    project_id - 1,
                    Project { archived: false, updated_at: now, ..old(projects).at(project_id) },
                )
                &&& final(self).config == old(self).config
                &&& final(self).notices@ == old(self).notices@.remove(project_id)
                &&& final(self).records@ == (if old(self).records@.contains_key(project_id) {
                    old(self).records@.insert(
                        project_id,
                        AutoArchiveRecord { restored_at: Some(now), ..old(self).records@[project_id] },
                    )
                } else {
                    old(self).records@
                })
            },
    {
        let archived = match projects.get_project(project_id) {
            Some(p) => {
                let allowed = p.owner == caller || crate::utils::contains_addr(&p.maintainers, caller)
                    || admins.is_admin(caller);
                if !allowed {
                    return Err(ContractError::Unauthorized);
                }
                p.archived
            },
            None => return Err(ContractError::ProjectNotFound),
        };
        if !archived {
            return Err(ContractError::ProjectNotArchived);
        }
        projects.set_archived(project_id, false, now);
        self.on_project_restored(project_id, now);
        Ok(())
    }

    /// Case-insensitive (ASCII) containment of `needle` in `haystack`.
    pub fn contains_ignore_case(haystack: &Vec<u8>, needle: &Vec<u8>) -> (r: bool)
        ensures
            r == spec_contains_ignore_case(haystack@, needle@),
    {
        if needle.len() == 0 {
            return true;
        }
        let hay = normalize(haystack);
        let nee = normalize(needle);
        let hl = hay.len();
        let nl = nee.len();
        if nl == 0 || hl < nl || hl > 256 {
            return false;
        }
        let mut start: usize = 0;
        while start <= hl - nl
            invariant
                hay@ == normalize_name(haystack@),
                nee@ == normalize_name(needle@),
                hl == hay@.len(),
                nl == nee@.len(),
                1 <= nl <= hl <= 256,
                start <= hl - nl + 1,
                forall|s: int| 0 <= s < start ==> #[trigger] hay@.subrange(s, s + nl) != nee@,
            decreases hl - nl + 1 - start,
        {
            let mut matched = true;
            let mut off: usize = 0;
            while off < nl
                invariant
                    hl == hay@.len(),
                    nl == nee@.len(),
                    start + nl <= hl,
                    off <= nl,
                    matched ==> forall|j: int| 0 <= j < off ==> hay@[start + j] == nee@[j],
                    !matched ==> exists|j: int| 0 <= j < nl && hay@[start + j] != nee@[j],
                ensures
                    matched ==> off == nl && forall|j: int| 0 <= j < nl ==> hay@[start + j] == nee@[j],
                    !matched ==> exists|j: int| 0 <= j < nl && hay@[start + j] != nee@[j],
                decreases nl - off,
            {
                if hay[start + off] != nee[off] {
                    matched = false;
                    assert(hay@[start + off] != nee@[off as int]);
                    break;
                }
                off = off + 1;
            }
            if matched && off == nl {
                assert(hay@.subrange(start as int, start + nl) =~= nee@);
                return true;
            }
            proof {
                let j = choose|j: int| 0 <= j < nl && hay@[start + j] != nee@[j];
                assert(hay@.subrange(start as int, start + nl)[j] != nee@[j]);
            }
            start = start + 1;
        }
        false
    }

    /// Whether `query` occurs in the project's name, slug, category or
    /// description, ignoring ASCII case.
    pub fn project_matches(project: &Project, query: &Vec<u8>) -> (r: bool)
        ensures
            r == spec_project_matches(*project, query@),
    {
        Self::contains_ignore_case(&project.name, query) || Self::contains_ignore_case(&project.slug, query)
            || Self::contains_ignore_case(&project.category, query) || Self::contains_ignore_case(
            &project.description,
            query,
        )
    }
}


/// Where a search may scan up to: one past the last project, or the scan
/// width past `start`, whichever comes first.
pub open spec fn search_end(start: u64, count: u64) -> u64 {
    let a = sat_add(start, MAX_ARCHIVED_SEARCH_SCAN as u64);
    let b = sat_add(count, 1);
    if a < b { a } else { b }
}

/// The page size a search uses for a requested `limit`.
pub open spec fn search_limit(limit: u32) -> u32 {
    if limit == 0 || limit > MAX_PAGE_LIMIT { MAX_PAGE_LIMIT } else { limit }
}

impl AutoArchiveRegistry {
    /// One page of archived projects whose name, slug, category or
    /// description contains `query` (ignoring ASCII case), scanning ids from
    /// `start_cursor` (0 means the first project). A scan visits a bounded
    /// number of ids and stops early once `limit` projects matched; the
    /// result tells where to continue.
    pub fn search_archived_projects<'a>(
        query: &Vec<u8>,
        start_cursor: u64,
        limit: u32,
        projects: &'a ProjectBook,
    ) -> (r: Result<ArchivedProjectSearchResult<'a>, ContractError>)
        requires
            projects.wf(),
        ensures
            ({
                let ps = projects.projects@;
                let count = ps.len();
                let start: u64 = if start_cursor == 0 { 1 } else { start_cursor };
                &&& query@.len() > 256 <==> r is Err
                &&& r is Err ==> r == Err::<ArchivedProjectSearchResult<'a>, ContractError>(ContractError::InvalidInput)
                &&& r matches Ok(res) ==> start > count ==> res.projects@.len() == 0 && res.next_cursor is None
                    && !res.has_more && res.scanned_projects == 0
                &&& r matches Ok(res) ==> start <= count ==> {
                    let c = start + res.scanned_projects;
                    let end = search_end(start, count as u64);
                    let lim = search_limit(limit);
                    let ids = matching_ids(ps, start, c, query@);
                    &&& start <= c <= end
                    &&& c < end ==> ids.len() == lim
                    &&& c > start ==> matching_ids(ps, start, c - 1, query@).len() < lim
                    &&& res.projects@.len() == ids.len()
                    &&& forall|j: int| 0 <= j < ids.len() ==> *res.projects@[j] == ps[ids[j] - 1]
                    &&& res.has_more == (c <= count)
                    &&& res.next_cursor == (if c <= count { Some(c as u64) } else { None })
                }
            }),
    {
        if query.len() > 256 {
            return Err(ContractError::InvalidInput);
        }
        let count = projects.count();
        let start: u64 = if start_cursor == 0 { 1 } else { start_cursor };
        if count == 0 || start > count {
            return Ok(
                ArchivedProjectSearchResult {
                    projects: Vec::new(),
                    next_cursor: None,
                    has_more: false,
                    scanned_projects: 0,
                },
            );
        }
        let effective_limit: u32 = if limit == 0 || limit > MAX_PAGE_LIMIT { MAX_PAGE_LIMIT } else { limit };
        let a = start.saturating_add(MAX_ARCHIVED_SEARCH_SCAN as u64);
        let b = count.saturating_add(1);
        let end: u64 = if a < b { a } else { b };
        let ghost ps = projects.projects@;
        let mut found: Vec<&'a Project> = Vec::new();
        let ghost mut ids: Seq<u64> = Seq::empty();
        let mut scanned: u32 = 0;
        let mut cursor: u64 = start;
        while cursor < end && found.len() < effective_limit as usize
            invariant
                ps == projects.projects@,
                projects.wf(),
                count == ps.len(),
                1 <= start <= count,
                end == search_end(start, count),
                effective_limit == search_limit(limit),
                start <= cursor <= end,
                scanned == cursor - start,
                ids == matching_ids(ps, start, cursor as int, query@),
                found@.len() == ids.len(),
                found@.len() <= effective_limit,
                forall|j: int| 0 <= j < ids.len() ==> *found@[j] == ps[ids[j] - 1],
                cursor > start ==> matching_ids(ps, start, cursor - 1, query@).len() < effective_limit,
            decreases end - cursor,
        {
            if let Some(p) = projects.get_project(cursor) {
                if p.archived && Self::project_matches(p, query) {
                    found.push(p);
                    proof {
                        ids = ids.push(cursor);
                    }
                }
            }
            scanned = scanned + 1;
            cursor = cursor + 1;
        }
        let has_more = cursor <= count;
        Ok(
            ArchivedProjectSearchResult {
                projects: found,
                next_cursor: if has_more { Some(cursor) } else { None },
                has_more,
                scanned_projects: scanned,
            },
        )
    }
}


/// A batch archives a project only when the project is unarchived, its
/// inactivity threshold has passed, and a notice about its current activity
/// stamp is at least the notice period old: recording a notice's delivery
/// does not shorten the wait.
pub proof fn lemma_archived_only_after_notice(reg: AutoArchiveRegistry, ps: Seq<Project>, lo: u64, hi: int, now: u64, k: u64)
    requires
        reg.selected(ps, lo, hi, now, k),
    ensures
        !ps[k - 1].archived,
        reg.spec_config().enabled,
        now >= sat_add(ps[k - 1].updated_at, reg.spec_config().inactivity_threshold_secs),
        reg.notices@.contains_key(ps[k - 1].id),
        reg.notices@[ps[k - 1].id].last_activity_at == ps[k - 1].updated_at,
        now >= sat_add(reg.notices@[ps[k - 1].id].notified_at, AUTO_ARCHIVE_NOTICE_SECS),
{
}

/// A search over ids `[lo, hi)` lists an id exactly when a project has that
/// id, the project is archived, and the query occurs, ignoring ASCII case,
/// in its name, its slug, its category or its description.
pub proof fn lemma_search_lists_every_matching_field(ps: Seq<Project>, lo: u64, hi: int, query: Seq<u8>, k: u64)
    requires
        hi <= u64::MAX as int + 1,
    ensures
        matching_ids(ps, lo, hi, query).contains(k) <==> {
            &&& lo <= k < hi
            &&& 1 <= k <= ps.len()
            &&& ps[k - 1].archived
            &&& {
                ||| spec_contains_ignore_case(ps[k - 1].name@, query)
                ||| spec_contains_ignore_case(ps[k - 1].slug@, query)
                ||| spec_contains_ignore_case(ps[k - 1].category@, query)
                ||| spec_contains_ignore_case(ps[k - 1].description@, query)
            }
        },
    decreases hi - lo,
{
    if hi > lo {
        lemma_search_lists_every_matching_field(ps, lo, hi - 1, query, k);
        let rest = matching_ids(ps, lo, hi - 1, query);
        let id = (hi - 1) as u64;
        if 1 <= id <= ps.len() && ps[id - 1].archived && spec_project_matches(ps[id - 1], query) {
            let all = rest.push(id);
            assert(all[rest.len() as int] == id);
            if rest.contains(k) {
                let j = choose|j: int| 0 <= j < rest.len() && rest[j] == k;
                assert(all[j] == k);
            }
            if all.contains(k) && k != id {
                let j = choose|j: int| 0 <= j < all.len() && all[j] == k;
                assert(rest[j] == k);
            }
        }
    }
}

/// The containment test of the search: an empty query is found in every
/// text; otherwise a text longer than 256 bytes never contains it, and a
/// shorter one contains it exactly when, at some offset, each byte of the
/// query equals the text's byte there once ASCII letters are folded to
/// lower case.
pub proof fn lemma_contains_ignore_case_by_offset(hay: Seq<u8>, needle: Seq<u8>)
    ensures
        needle.len() == 0 ==> spec_contains_ignore_case(hay, needle),
        needle.len() > 0 && hay.len() > 256 ==> !spec_contains_ignore_case(hay, needle),
        hay.len() <= 256 ==> (spec_contains_ignore_case(hay, needle) <==> exists|s: int|
            0 <= s && s + needle.len() <= hay.len() && #[trigger] offset_matches(hay, needle, s)),
{
    let h = normalize_name(hay);
    let n = normalize_name(needle);
    assert(h.len() == hay.len() && n.len() == needle.len());
    assert(forall|i: int| 0 <= i < hay.len() ==> #[trigger] h[i] == lower_byte(hay[i]));
    assert(forall|i: int| 0 <= i < needle.len() ==> #[trigger] n[i] == lower_byte(needle[i]));
    if needle.len() > 0 && hay.len() <= 256 {
        if spec_contains_ignore_case(hay, needle) {
            let s = choose|s: int| 0 <= s && s + n.len() <= h.len() && #[trigger] h.subrange(s, s + n.len()) == n;
            assert forall|j: int| 0 <= j < needle.len() implies lower_byte(#[trigger] hay[s + j]) == lower_byte(needle[j]) by {
                assert(h.subrange(s, s + n.len())[j] == n[j]);
            }
            assert(offset_matches(hay, needle, s));
        }
        if exists|s: int| 0 <= s && s + needle.len() <= hay.len() && #[trigger] offset_matches(hay, needle, s) {
            let s = choose|s: int| 0 <= s && s + needle.len() <= hay.len() && #[trigger] offset_matches(hay, needle, s);
            assert forall|j: int| 0 <= j < n.len() implies #[trigger] h.subrange(s, s + n.len())[j] == n[j] by {
                assert(h[s + j] == lower_byte(hay[s + j]));
                assert(lower_byte(hay[s + j]) == lower_byte(needle[j]));
            }
            assert(h.subrange(s, s + n.len()) =~= n);
        }
    }
    if needle.len() == 0 {
        assert(offset_matches(hay, needle, 0));
    }
}

} // verus!
