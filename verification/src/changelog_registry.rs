//! Release notes of projects: entries pointing at IPFS content, listed
//! newest or oldest first.
use vstd::prelude::*;
use std::collections::HashMap;
use crate::collection_registry::list_in;
use crate::constants::MAX_PAGE_LIMIT;
use crate::types::{Addr, ContractError, ProjectBook};
use crate::utils::{bytes_eq, copy_ids, is_valid_cid, remove_item_u64, valid_cid, without};

verus! {

broadcast use vstd::std_specs::hash::group_hash_axioms;

/// One changelog entry.
pub struct ChangelogEntry {
    pub id: u64,
    pub project_id: u64,
    pub cid: Vec<u8>,
    pub created_at: u64,
    pub description: Option<Vec<u8>>,
    pub version: Option<Vec<u8>>,
    pub changelog_cid: Option<Vec<u8>>,
}

/// The order of a changelog listing.
#[derive(Clone, Copy, Debug, PartialEq, Eq, Structural)]
pub enum ChangelogSortMode {
    Newest,
    Oldest,
}

/// Entries by id, entry ids by project, and the next id (1 when unset).
pub struct ChangelogRegistry {
    pub entries: HashMap<u64, ChangelogEntry>,
    pub by_project: HashMap<u64, Vec<u64>>,
    pub next_id: Option<u64>,
}

/// Whether `a` stays before `x` when `x` is placed in a listing.
pub open spec fn stays_before(a: ChangelogEntry, x: ChangelogEntry, mode: ChangelogSortMode) -> bool {
    match mode {
        ChangelogSortMode::Newest => a.created_at >= x.created_at,
        ChangelogSortMode::Oldest => a.created_at <= x.created_at,
    }
}

/// `s`, already in listing order, with `x` placed after every entry that
/// stays before it.
pub open spec fn place(s: Seq<ChangelogEntry>, x: ChangelogEntry, mode: ChangelogSortMode) -> Seq<ChangelogEntry>
    decreases s.len(),
{
    if s.len() == 0 {
        seq![x]
    } else if stays_before(s.last(), x, mode) {
        s.push(x)
    } else {
        place(s.drop_last(), x, mode).push(s.last())
    }
}

/// `s` in listing order: by creation time, newest or oldest first, entries
/// of equal time in their original order.
pub open spec fn listing(s: Seq<ChangelogEntry>, mode: ChangelogSortMode) -> Seq<ChangelogEntry>
    decreases s.len(),
{
    if s.len() == 0 {
        Seq::empty()
    } else {
        place(listing(s.drop_last(), mode), s.last(), mode)
    }
}

/// The stored entries of `ids`, in order.
pub open spec fn existing_entries(ids: Seq<u64>, m: Map<u64, ChangelogEntry>) -> Seq<ChangelogEntry>
    decreases ids.len(),
{
    if ids.len() == 0 {
        Seq::empty()
    } else {
        let rest = existing_entries(ids.drop_last(), m);
        if m.contains_key(ids.last()) { rest.push(m[ids.last()]) } else { rest }
    }
}

/// Placing `x` at position `j` is what `place` does when the entries from
/// `j` on go after `x` and the one before `j` stays before it.
pub proof fn lemma_place_at(s: Seq<ChangelogEntry>, x: ChangelogEntry, mode: ChangelogSortMode, j: int)
    requires
        0 <= j <= s.len(),
        forall|k: int| j <= k < s.len() ==> !stays_before(#[trigger] s[k], x, mode),
        j == 0 || stays_before(s[j - 1], x, mode),
    ensures
        place(s, x, mode) == s.take(j).push(x) + s.skip(j),
    decreases s.len() - j,
{
    if s.len() == 0 {
        assert(s.take(j).push(x) + s.skip(j) =~= seq![x]);
    } else if j == s.len() {
        assert(s.take(j).push(x) + s.skip(j) =~= s.push(x));
    } else {
        let d = s.drop_last();
        assert(!stays_before(s[s.len() - 1], x, mode));
        lemma_place_at(d, x, mode, j);
        assert(d.take(j).push(x) + d.skip(j) + seq![s.last()] =~= s.take(j).push(x) + s.skip(j));
    }
}

impl ChangelogRegistry {
    pub fn new() -> (r: ChangelogRegistry)
        ensures
            r.entries@ == Map::<u64, ChangelogEntry>::empty(),
            r.by_project@ == Map::<u64, Vec<u64>>::empty(),
            r.next_id is None,
    {
        ChangelogRegistry { entries: HashMap::new(), by_project: HashMap::new(), next_id: None }
    }

    pub open spec fn spec_next_id(&self) -> u64 {
        match self.next_id {
            Some(n) => n,
            None => 1,
        }
    }

    /// Whether an entry of the project already points at `cid`.
    pub open spec fn cid_used(&self, project_id: u64, cid: Seq<u8>) -> bool {
        exists|i: int| 0 <= i < existing_entries(list_in(self.by_project@, project_id), self.entries@).len()
            && (#[trigger] existing_entries(list_in(self.by_project@, project_id), self.entries@)[i]).cid@ == cid
    }

    /// The error, if any, that refuses adding an entry.
    pub open spec fn add_error(
        &self,
        project_id: u64,
        owner: Addr,
        cid: Seq<u8>,
        version: Option<Seq<u8>>,
        changelog_cid: Option<Seq<u8>>,
        projects: &ProjectBook,
    ) -> Option<ContractError> {
        if !projects.has(project_id) {
            Some(ContractError::ProjectNotFound)
        } else if projects.at(project_id).owner != owner {
            Some(ContractError::Unauthorized)
        } else if cid.len() == 0 || !valid_cid(cid) {
            Some(ContractError::InvalidCid)
        } else if version is Some && version->Some_0.len() == 0 {
            Some(ContractError::InvalidProjectData)
        } else if changelog_cid is Some && (changelog_cid->Some_0.len() == 0 || !valid_cid(changelog_cid->Some_0)) {
            Some(ContractError::InvalidCid)
        } else if self.cid_used(project_id, cid) {
            Some(ContractError::DuplicateReview)
        } else {
            None
        }
    }

    /// Whether an entry of the project already points at `cid`.
    fn find_cid(&self, project_id: u64, cid: &Vec<u8>) -> (r: bool)
        ensures
            r == self.cid_used(project_id, cid@),
    {
        let ids = match self.by_project.get(&project_id) {
            Some(v) => copy_ids(v),
            None => Vec::new(),
        };
        let mut i: usize = 0;
        while i < ids.len()
            invariant
                i <= ids@.len(),
                ids@ == list_in(self.by_project@, project_id),
                forall|k: int| 0 <= k < existing_entries(ids@.take(i as int), self.entries@).len()
                    ==> (#[trigger] existing_entries(ids@.take(i as int), self.entries@)[k]).cid@ != cid@,
            decreases ids@.len() - i,
        {
            proof {
                assert(ids@.take(i + 1).drop_last() =~= ids@.take(i as int));
            }
            let ghost es0 = existing_entries(ids@.take(i as int), self.entries@);
            let ghost es1 = existing_entries(ids@.take(i + 1), self.entries@);
            if let Some(e) = self.entries.get(&ids[i]) {
                if bytes_eq(&e.cid, cid) {
                    proof {
                        let es = existing_entries(ids@.take(i + 1), self.entries@);
                        assert(es[es.len() - 1].cid@ == cid@);
                        assert(ids@.take(i + 1) =~= ids@.take(i + 1));
                        lemma_entries_prefix(ids@, (i + 1) as int, self.entries@);
                        let all = existing_entries(ids@, self.entries@);
                        assert(all[es.len() - 1] == es[es.len() - 1]);
                    }
                    return true;
                }
            }
            proof {
                assert forall|k: int| 0 <= k < es1.len() implies (#[trigger] es1[k]).cid@ != cid@ by {
                    if k < es0.len() {
                        assert(es1[k] == es0[k]);
                    }
                }
            }
            i = i + 1;
        }
        proof {
            assert(ids@.take(i as int) =~= ids@);
        }
        false
    }

    /// Adds a changelog entry on the word of the project's owner; the entry
    /// must point at valid IPFS content not used by another entry of the
    /// project. Returns the entry's id.
    pub fn add_changelog_entry(
        &mut self,
        project_id: u64,
        owner: Addr,
        cid: Vec<u8>,
        description: Option<Vec<u8>>,
        version: Option<Vec<u8>>,
        changelog_cid: Option<Vec<u8>>,
        now: u64,
        projects: &ProjectBook,
    ) -> (r: Result<u64, ContractError>)
        requires
            old(self).spec_next_id() < u64::MAX,
        ensures
            ({
                let opt = |o: Option<Vec<u8>>| match o { Some(v) => Some(v@), None => None::<Seq<u8>> };
                let err = old(self).add_error(project_id, owner, cid@, opt(version), opt(changelog_cid), projects);
                let id = old(self).spec_next_id();
                &&& err is Some ==> r == Err::<u64, ContractError>(err->Some_0) && *final(self) == *old(self)
                &&& err is None ==> {
                    let e = final(self).entries@[id];
                    &&& r == Ok::<u64, ContractError>(id)
                    &&& final(self).entries@ == old(self).entries@.insert(id, e)
                    &&& e.id == id && e.project_id == project_id && e.cid@ == cid@ && e.created_at == now
                    &&& opt(e.description) == opt(description) && opt(e.version) == opt(version)
                    &&& opt(e.changelog_cid) == opt(changelog_cid)
                    &&& list_in(final(self).by_project@, project_id) == list_in(old(self).by_project@, project_id).push(id)
                    &&& forall|k: u64| k != project_id ==> #[trigger] list_in(final(self).by_project@, k) == list_in(old(self).by_project@, k)
                    &&& final(self).next_id == Some((id + 1) as u64)
                }
            }),
    {
        match projects.get_project(project_id) {
            Some(p) => {
                if p.owner != owner {
                    return Err(ContractError::Unauthorized);
                }
            },
            None => return Err(ContractError::ProjectNotFound),
        }
        if cid.len() == 0 || !is_valid_cid(&cid) {
            return Err(ContractError::InvalidCid);
        }
        if let Some(v) = &version {
            if v.len() == 0 {
                return Err(ContractError::InvalidProjectData);
            }
        }
        if let Some(c) = &changelog_cid {
            if c.len() == 0 || !is_valid_cid(c) {
                return Err(ContractError::InvalidCid);
            }
        }
        if self.find_cid(project_id, &cid) {
            return Err(ContractError::DuplicateReview);
        }
        let changelog_id = match self.next_id {
            Some(n) => n,
            None => 1,
        };
        let entry = ChangelogEntry {
            id: changelog_id,
            project_id,
            cid,
            created_at: now,
            description,
            version,
            changelog_cid,
        };
        self.entries.insert(changelog_id, entry);
        let mut list = match self.by_project.get(&project_id) {
            Some(v) => copy_ids(v),
            None => Vec::new(),
        };
        list.push(changelog_id);
        self.by_project.insert(project_id, list);
        self.next_id = Some(changelog_id + 1);
        proof {
            assert(self.entries@ =~= old(self).entries@.insert(changelog_id, entry));
            assert forall|k: u64| k != project_id implies #[trigger] list_in(self.by_project@, k) == list_in(old(self).by_project@, k) by {
                if old(self).by_project@.contains_key(k) {
                    assert(self.by_project@[k] == old(self).by_project@[k]);
                }
            }
        }
        Ok(changelog_id)
    }

    /// Removes a changelog entry on the word of its project's owner.
    pub fn remove_changelog_entry(&mut self, changelog_id: u64, owner: Addr, projects: &ProjectBook) -> (r: Result<
        (),
        ContractError,
    >)
        ensures
            ({
                let e = old(self).entries@[changelog_id];
                let err = if !old(self).entries@.contains_key(changelog_id) {
                    Some(ContractError::ReviewNotFound)
                } else if !projects.has(e.project_id) {
                    Some(ContractError::ProjectNotFound)
                } else if projects.at(e.project_id).owner != owner {
                    Some(ContractError::Unauthorized)
                } else {
                    None
                };
                &&& err is Some ==> r == Err::<(), ContractError>(err->Some_0) && *final(self) == *old(self)
                &&& err is None ==> r is Ok && final(self).entries@ == old(self).entries@.remove(changelog_id)
                    && list_in(final(self).by_project@, e.project_id) == without(list_in(old(self).by_project@, e.project_id), changelog_id)
                    && (forall|k: u64| k != e.project_id ==> #[trigger] list_in(final(self).by_project@, k) == list_in(old(self).by_project@, k))
                    && final(self).next_id == old(self).next_id
            }),
    {
        let pid = match self.entries.get(&changelog_id) {
            Some(e) => e.project_id,
            None => return Err(ContractError::ReviewNotFound),
        };
        match projects.get_project(pid) {
            Some(p) => {
                if p.owner != owner {
                    return Err(ContractError::Unauthorized);
                }
            },
            None => return Err(ContractError::ProjectNotFound),
        }
        let list = match self.by_project.get(&pid) {
            Some(v) => copy_ids(v),
            None => Vec::new(),
        };
        let updated = remove_item_u64(&list, changelog_id);
        self.by_project.insert(pid, updated);
        self.entries.remove(&changelog_id);
        proof {
            assert forall|k: u64| k != pid implies #[trigger] list_in(self.by_project@, k) == list_in(old(self).by_project@, k) by {
                if old(self).by_project@.contains_key(k) {
                    assert(self.by_project@[k] == old(self).by_project@[k]);
                }
            }
        }
        Ok(())
    }

    /// A changelog entry by id.
    pub fn get_changelog_entry(&self, changelog_id: u64) -> (r: Option<&ChangelogEntry>)
        ensures
            r.is_some() == self.entries@.contains_key(changelog_id),
            r.is_some() ==> *r.unwrap() == self.entries@[changelog_id],
    {
        self.entries.get(&changelog_id)
    }

    /// Number of changelog entries of a project.
    pub fn get_changelog_count(&self, project_id: u64) -> (n: u32)
        ensures
            n as int == (if list_in(self.by_project@, project_id).len() <= u32::MAX {
                list_in(self.by_project@, project_id).len() as int
            } else {
                u32::MAX as int
            }),
    {
        let l = match self.by_project.get(&project_id) {
            Some(v) => v.len(),
            None => 0,
        };
        if l > u32::MAX as usize { u32::MAX } else { l as u32 }
    }

    /// A page of a project's changelog in listing order: positions
    /// `start_index` onward, at most `limit` (0 or more than the cap means
    /// the cap); empty for a missing project.
    pub fn get_project_changelog(
        &self,
        project_id: u64,
        start_index: u32,
        limit: u32,
        sort_mode: ChangelogSortMode,
        projects: &ProjectBook,
    ) -> (r: Vec<&ChangelogEntry>)
        requires
            start_index < list_in(self.by_project@, project_id).len() ==> start_index + MAX_PAGE_LIMIT <= u32::MAX,
        ensures
            ({
                let ids = list_in(self.by_project@, project_id);
                let sorted = listing(existing_entries(ids, self.entries@), sort_mode);
                let lim: int = if limit == 0 || limit > MAX_PAGE_LIMIT { MAX_PAGE_LIMIT as int } else { limit as int };
                let end0 = if start_index + lim < ids.len() { start_index + lim } else { ids.len() as int };
                let end = if end0 < sorted.len() { end0 } else { sorted.len() as int };
                let page = if !projects.has(project_id) || ids.len() == 0 || start_index >= ids.len() || start_index >= end {
                    Seq::<ChangelogEntry>::empty()
                } else {
                    sorted.subrange(start_index as int, end)
                };
                &&& r@.len() == page.len()
                &&& forall|k: int| 0 <= k < page.len() ==> *#[trigger] r@[k] == page[k]
            }),
    {
        if projects.get_project(project_id).is_none() {
            return Vec::new();
        }
        let lim: u32 = if limit == 0 || limit > MAX_PAGE_LIMIT { MAX_PAGE_LIMIT } else { limit };
        let ids = match self.by_project.get(&project_id) {
            Some(v) => copy_ids(v),
            None => Vec::new(),
        };
        let total = ids.len();
        if total == 0 || start_index as usize >= total {
            return Vec::new();
        }
        let mut sorted: Vec<&ChangelogEntry> = Vec::new();
        let ghost mut g: Seq<ChangelogEntry> = Seq::empty();
        let mut i: usize = 0;
        while i < total
            invariant
                i <= total == ids@.len(),
                ids@ == list_in(self.by_project@, project_id),
                g == listing(existing_entries(ids@.take(i as int), self.entries@), sort_mode),
                sorted@.len() == g.len(),
                forall|k: int| 0 <= k < g.len() ==> *#[trigger] sorted@[k] == g[k],
            decreases total - i,
        {
            proof {
                assert(ids@.take(i + 1).drop_last() =~= ids@.take(i as int));
            }
            let ghost x0 = existing_entries(ids@.take(i as int), self.entries@);
            let ghost x1 = existing_entries(ids@.take(i + 1), self.entries@);
            if let Some(e) = self.entries.get(&ids[i]) {
                proof {
                    assert(x1 == x0.push(*e));
                    assert(x1.drop_last() =~= x0);
                }
                let mut j: usize = sorted.len();
                while j > 0
                    invariant
                        j <= sorted@.len() == g.len(),
                        forall|k: int| 0 <= k < g.len() ==> *#[trigger] sorted@[k] == g[k],
                        forall|k: int| j <= k < g.len() ==> !stays_before(#[trigger] g[k], *e, sort_mode),
                    ensures
                        j <= g.len(),
                        forall|k: int| j <= k < g.len() ==> !stays_before(#[trigger] g[k], *e, sort_mode),
                        j == 0 || stays_before(g[j - 1], *e, sort_mode),
                    decreases j,
                {
                    let a = sorted[j - 1];
                    let before = match sort_mode {
                        ChangelogSortMode::Newest => a.created_at >= e.created_at,
                        ChangelogSortMode::Oldest => a.created_at <= e.created_at,
                    };
                    proof {
                        assert(*a == g[j - 1]);
                    }
                    if before {
                        break;
                    }
                    j = j - 1;
                }
                proof {
                    lemma_place_at(g, *e, sort_mode, j as int);
                }
                let ghost old_g = g;
                let ghost old_sorted = sorted@;
                sorted.insert(j, e);
                proof {
                    g = g.take(j as int).push(*e) + g.skip(j as int);
                    assert forall|k: int| 0 <= k < g.len() implies *#[trigger] sorted@[k] == g[k] by {
                        if k < j {
                            assert(sorted@[k] == old_sorted[k]);
                        } else if k > j {
                            assert(sorted@[k] == old_sorted[k - 1]);
                        }
                    }
                    assert(g == listing(x1, sort_mode));
                }
            } else {
                proof {
                    assert(x1 == x0);
                }
            }
            i = i + 1;
        }
        proof {
            assert(ids@.take(i as int) =~= ids@);
        }
        let sum: u32 = start_index + lim;
        let end0: usize = if (sum as usize) < total { sum as usize } else { total };
        let mut out: Vec<&ChangelogEntry> = Vec::new();
        let mut k: usize = start_index as usize;
        while k < end0 && k < sorted.len()
            invariant
                start_index <= k,
                k <= end0 || k == start_index,
                k <= sorted@.len() || k == start_index,
                end0 <= total,
                sorted@.len() == g.len(),
                forall|m: int| 0 <= m < g.len() ==> *#[trigger] sorted@[m] == g[m],
                out@.len() == k - start_index,
                forall|m: int| 0 <= m < out@.len() ==> *#[trigger] out@[m] == g[start_index + m],
            decreases end0 - k,
        {
            out.push(sorted[k]);
            k = k + 1;
        }
        out
    }
}

/// The stored entries of a prefix of `ids` are a prefix of those of `ids`.
pub proof fn lemma_entries_prefix(ids: Seq<u64>, n: int, m: Map<u64, ChangelogEntry>)
    requires
        0 <= n <= ids.len(),
    ensures
        existing_entries(ids.take(n), m).len() <= existing_entries(ids, m).len(),
        forall|k: int| 0 <= k < existing_entries(ids.take(n), m).len() ==> #[trigger] existing_entries(ids.take(n), m)[k]
            == existing_entries(ids, m)[k],
    decreases ids.len() - n,
{
    if n < ids.len() {
        assert(ids.drop_last().take(n) =~= ids.take(n));
        lemma_entries_prefix(ids.drop_last(), n, m);
    } else {
        assert(ids.take(n) =~= ids);
    }
}


/// Whether `s` is in listing order.
pub open spec fn in_order(s: Seq<ChangelogEntry>, mode: ChangelogSortMode) -> bool {
    forall|i: int, j: int| 0 <= i < j < s.len() ==> stays_before(#[trigger] s[i], #[trigger] s[j], mode)
}

/// Placing an entry into an ordered listing keeps it ordered and adds
/// exactly that entry.
pub proof fn lemma_place_ordered(s: Seq<ChangelogEntry>, x: ChangelogEntry, mode: ChangelogSortMode)
    requires
        in_order(s, mode),
    ensures
        in_order(place(s, x, mode), mode),
        place(s, x, mode).len() == s.len() + 1,
        place(s, x, mode).to_multiset() == s.to_multiset().insert(x),
    decreases s.len(),
{
    broadcast use vstd::seq_lib::group_to_multiset_ensures;
    if s.len() == 0 {
        assert(place(s, x, mode) =~= seq![x]);
        assert(seq![x] =~= Seq::<ChangelogEntry>::empty().push(x));
    } else if stays_before(s.last(), x, mode) {
        let p = s.push(x);
        assert forall|i: int, j: int| 0 <= i < j < p.len() implies stays_before(#[trigger] p[i], #[trigger] p[j], mode) by {
            if j == s.len() {
                assert(stays_before(s[i], s[s.len() - 1], mode) || i == s.len() - 1);
            }
        }
    } else {
        let d = s.drop_last();
        assert(in_order(d, mode));
        lemma_place_ordered(d, x, mode);
        let q = place(d, x, mode);
        let p = q.push(s.last());
        assert forall|i: int, j: int| 0 <= i < j < p.len() implies stays_before(#[trigger] p[i], #[trigger] p[j], mode) by {
            if j == q.len() {
                assert(q.to_multiset().count(p[i]) > 0) by {
                    assert(q.contains(q[i]));
                }
                assert(d.to_multiset().insert(x).count(q[i]) > 0);
                if q[i] != x {
                    assert(d.to_multiset().count(q[i]) > 0);
                    assert(d.contains(q[i]));
                    let k = choose|k: int| 0 <= k < d.len() && d[k] == q[i];
                    assert(stays_before(s[k], s[s.len() - 1], mode));
                } else {
                    assert(!stays_before(s.last(), x, mode));
                }
            }
        }
        assert(s =~= d.push(s.last()));
    }
}

/// A listing is ordered by creation time (newest or oldest first) and
/// holds exactly the listed entries.
pub proof fn lemma_listing_ordered(s: Seq<ChangelogEntry>, mode: ChangelogSortMode)
    ensures
        in_order(listing(s, mode), mode),
        listing(s, mode).len() == s.len(),
        listing(s, mode).to_multiset() == s.to_multiset(),
    decreases s.len(),
{
    broadcast use vstd::seq_lib::group_to_multiset_ensures;
    if s.len() > 0 {
        lemma_listing_ordered(s.drop_last(), mode);
        lemma_place_ordered(listing(s.drop_last(), mode), s.last(), mode);
        assert(s =~= s.drop_last().push(s.last()));
    }
}

} // verus!
