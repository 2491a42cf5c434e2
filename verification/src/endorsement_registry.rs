//! Endorsements of projects by users, one per user and project.
//!
//! Endorsers of a project are kept in an indexed list; removing one moves
//! the last endorser into its place. Projects endorsed under the older
//! layout keep a plain list, which is copied into the indexed list the
//! first time the project is endorsed or unendorsed again.
use vstd::prelude::*;
use std::collections::HashMap;
use crate::constants::MAX_PAGE_LIMIT;
use crate::types::{Addr, ContractError, ProjectBook};
use crate::utils::{contains_addr, no_dups};

verus! {

broadcast use vstd::std_specs::hash::group_hash_axioms;

/// Endorsers by project id: the indexed lists, and the lists of the older
/// layout.
pub struct EndorsementRegistry {
    pub indexed: HashMap<u64, Vec<Addr>>,
    pub legacy: HashMap<u64, Vec<Addr>>,
}

/// The list stored under `k`, empty when absent.
pub open spec fn addrs_in(m: Map<u64, Vec<Addr>>, k: u64) -> Seq<Addr> {
    if m.contains_key(k) { m[k]@ } else { Seq::empty() }
}

/// `s` with position `i` filled by its last element and the last dropped.
pub open spec fn swap_remove(s: Seq<Addr>, i: int) -> Seq<Addr> {
    s.update(i, s.last()).drop_last()
}

impl EndorsementRegistry {
    pub fn new() -> (r: EndorsementRegistry)
        ensures
            r.wf(),
            r.indexed@ == Map::<u64, Vec<Addr>>::empty(),
            r.legacy@ == Map::<u64, Vec<Addr>>::empty(),
    {
        EndorsementRegistry { indexed: HashMap::new(), legacy: HashMap::new() }
    }

    /// No list names an endorser twice.
    pub open spec fn wf(&self) -> bool {
        &&& forall|k: u64| #[trigger] self.indexed@.contains_key(k) ==> no_dups(self.indexed@[k]@)
        &&& forall|k: u64| #[trigger] self.legacy@.contains_key(k) ==> no_dups(self.legacy@[k]@)
    }

    /// Number of endorsements of a project.
    pub open spec fn count(&self, pid: u64) -> nat {
        if self.indexed@.contains_key(pid) { self.indexed@[pid]@.len() } else { addrs_in(self.legacy@, pid).len() }
    }

    /// The indexed list of a project once the older layout was copied in.
    pub open spec fn indexed_list(&self, pid: u64) -> Seq<Addr> {
        if self.indexed@.contains_key(pid) { self.indexed@[pid]@ } else { addrs_in(self.legacy@, pid) }
    }

    pub open spec fn spec_has_endorsed(&self, pid: u64, user: Addr) -> bool {
        addrs_in(self.indexed@, pid).contains(user) || addrs_in(self.legacy@, pid).contains(user)
    }

    /// Whether `user` endorsed the project, in either layout.
    pub fn has_endorsed(&self, project_id: u64, user: Addr) -> (r: bool)
        ensures
            r == self.spec_has_endorsed(project_id, user),
    {
        let a = match self.indexed.get(&project_id) {
            Some(v) => contains_addr(v, user),
            None => false,
        };
        a || match self.legacy.get(&project_id) {
            Some(v) => contains_addr(v, user),
            None => false,
        }
    }

    /// Number of endorsements of a project.
    pub fn get_endorsement_count(&self, project_id: u64) -> (n: u32)
        ensures
            n as int == (if self.count(project_id) <= u32::MAX { self.count(project_id) as int } else { u32::MAX as int }),
    {
        let l = match self.indexed.get(&project_id) {
            Some(v) => v.len(),
            None => match self.legacy.get(&project_id) {
                Some(v) => v.len(),
                None => 0,
            },
        };
        if l > u32::MAX as usize { u32::MAX } else { l as u32 }
    }

    /// Copies a project's older-layout list into the indexed list when it
    /// has no indexed list yet.
    fn ensure_indexed(&mut self, project_id: u64)
        requires
            old(self).wf(),
        ensures
            final(self).wf(),
            final(self).legacy == old(self).legacy,
            addrs_in(final(self).indexed@, project_id) == old(self).indexed_list(project_id),
            final(self).indexed_list(project_id) == old(self).indexed_list(project_id),
            final(self).count(project_id) == old(self).count(project_id),
            forall|k: u64| k != project_id ==> #[trigger] final(self).indexed@.contains_key(k) == old(self).indexed@.contains_key(k),
            forall|k: u64| k != project_id && old(self).indexed@.contains_key(k) ==> #[trigger] final(self).indexed@[k] == old(self).indexed@[k],
    {
        if self.indexed.get(&project_id).is_some() {
            return;
        }
        let copy = match self.legacy.get(&project_id) {
            Some(v) => {
                let mut c: Vec<Addr> = Vec::new();
                let mut i: usize = 0;
                while i < v.len()
                    invariant
                        i <= v@.len(),
                        c@ == v@.take(i as int),
                    decreases v@.len() - i,
                {
                    c.push(v[i]);
                    i = i + 1;
                    assert(c@ =~= v@.take(i as int));
                }
                assert(v@.take(i as int) =~= v@);
                c
            },
            None => return,
        };
        if copy.len() == 0 {
            return;
        }
        self.indexed.insert(project_id, copy);
    }

    /// Records `user`'s endorsement of an existing project.
    pub fn endorse_project(&mut self, project_id: u64, user: Addr, projects: &ProjectBook) -> (r: Result<(), ContractError>)
        requires
            old(self).wf(),
        ensures
            final(self).wf(),
            r == (if !projects.has(project_id) {
                Err(ContractError::ProjectNotFound)
            } else if old(self).spec_has_endorsed(project_id, user) {
                Err(ContractError::AlreadyEndorsed)
            } else {
                Ok::<(), ContractError>(())
            }),
            !projects.has(project_id) ==> *final(self) == *old(self),
            projects.has(project_id) ==> final(self).legacy == old(self).legacy,
            r is Ok ==> addrs_in(final(self).indexed@, project_id) == old(self).indexed_list(project_id).push(user)
                && final(self).count(project_id) == old(self).count(project_id) + 1,
            r is Err && projects.has(project_id) ==> final(self).indexed_list(project_id) == old(self).indexed_list(project_id),
            forall|k: u64| k != project_id ==> #[trigger] addrs_in(final(self).indexed@, k) == addrs_in(old(self).indexed@, k)
                && final(self).indexed@.contains_key(k) == old(self).indexed@.contains_key(k),
    {
        if projects.get_project(project_id).is_none() {
            return Err(ContractError::ProjectNotFound);
        }
        self.ensure_indexed(project_id);
        if self.has_endorsed(project_id, user) {
            proof {
                assert forall|k: u64| k != project_id implies #[trigger] addrs_in(self.indexed@, k) == addrs_in(old(self).indexed@, k) by {}
            }
            return Err(ContractError::AlreadyEndorsed);
        }
        let mut list = match self.indexed.remove(&project_id) {
            Some(v) => v,
            None => Vec::new(),
        };
        proof {
            assert(!list@.contains(user));
        }
        list.push(user);
        self.indexed.insert(project_id, list);
        proof {
            assert forall|i: int, j: int| 0 <= i < list@.len() && 0 <= j < list@.len() && i != j implies list@[i] != list@[j] by {
                if i == list@.len() - 1 {
                    assert(list@[j] != user);
                } else if j == list@.len() - 1 {
                    assert(list@[i] != user);
                }
            }
        }
        Ok(())
    }

    /// Withdraws `user`'s endorsement of an existing project; the last
    /// endorser takes its place in the list.
    pub fn unendorse_project(&mut self, project_id: u64, user: Addr, projects: &ProjectBook) -> (r: Result<(), ContractError>)
        requires
            old(self).wf(),
            old(self).spec_has_endorsed(project_id, user) ==> old(self).indexed_list(project_id).contains(user),
        ensures
            final(self).wf(),
            r == (if !projects.has(project_id) {
                Err(ContractError::ProjectNotFound)
            } else if !old(self).spec_has_endorsed(project_id, user) {
                Err(ContractError::NotEndorsed)
            } else {
                Ok::<(), ContractError>(())
            }),
            !projects.has(project_id) ==> *final(self) == *old(self),
            projects.has(project_id) ==> final(self).legacy == old(self).legacy,
            r is Ok ==> {
                let s = old(self).indexed_list(project_id);
                let i = s.index_of(user);
                &&& addrs_in(final(self).indexed@, project_id) == swap_remove(s, i)
                &&& final(self).indexed@.contains_key(project_id)
                &&& final(self).count(project_id) == old(self).count(project_id) - 1
            },
            r is Err && projects.has(project_id) ==> final(self).indexed_list(project_id) == old(self).indexed_list(project_id),
            forall|k: u64| k != project_id ==> #[trigger] addrs_in(final(self).indexed@, k) == addrs_in(old(self).indexed@, k)
                && final(self).indexed@.contains_key(k) == old(self).indexed@.contains_key(k),
    {
        if projects.get_project(project_id).is_none() {
            return Err(ContractError::ProjectNotFound);
        }
        self.ensure_indexed(project_id);
        if !self.has_endorsed(project_id, user) {
            return Err(ContractError::NotEndorsed);
        }
        let mut list = match self.indexed.remove(&project_id) {
            Some(v) => v,
            None => Vec::new(),
        };
        let ghost s = list@;
        let mut index: usize = 0;
        while index < list.len() && list[index] != user
            invariant
                list@ == s,
                s.contains(user),
                index <= s.len(),
                forall|j: int| 0 <= j < index ==> s[j] != user,
            decreases s.len() - index,
        {
            index = index + 1;
        }
        proof {
            if index == s.len() {
                let j = choose|j: int| 0 <= j < s.len() && s[j] == user;
                assert(false);
            }
            assert(s[index as int] == user);
            assert(s.index_of(user) == index) by {
                let f = s.index_of(user);
                assert(s[f] == user);
            }
        }
        let last_index = list.len() - 1;
        if index != last_index {
            let last_user = list[last_index];
            list.set(index, last_user);
        }
        list.pop();
        proof {
            assert(list@ =~= swap_remove(s, index as int));
            let l = list@;
            assert forall|i: int, j: int| 0 <= i < l.len() && 0 <= j < l.len() && i != j implies l[i] != l[j] by {
                if i == index {
                    assert(l[i] == s[s.len() - 1]);
                    assert(l[j] == s[j]);
                } else if j == index {
                    assert(l[j] == s[s.len() - 1]);
                    assert(l[i] == s[i]);
                } else {
                    assert(l[i] == s[i] && l[j] == s[j]);
                }
            }
        }
        self.indexed.insert(project_id, list);
        Ok(())
    }

    /// A page of a project's endorsers: positions `start_index` onward, at
    /// most `limit` (0 or more than the cap means the cap). A project only
    /// in the older layout is paged from its plain list.
    pub fn get_project_endorsements(&self, project_id: u64, start_index: u32, limit: u32) -> (r: Vec<Addr>)
        ensures
            ({
                let lim: int = if limit == 0 || limit > MAX_PAGE_LIMIT { MAX_PAGE_LIMIT as int } else { limit as int };
                let src = if self.indexed@.contains_key(project_id) { self.indexed@[project_id]@ } else { addrs_in(self.legacy@, project_id) };
                let end = if start_index + lim < src.len() { start_index + lim } else { src.len() as int };
                r@ == (if start_index < end { src.subrange(start_index as int, end) } else { Seq::empty() })
            }),
    {
        let lim: u32 = if limit == 0 || limit > MAX_PAGE_LIMIT { MAX_PAGE_LIMIT } else { limit };
        let src: &Vec<Addr> = match self.indexed.get(&project_id) {
            Some(v) => v,
            None => match self.legacy.get(&project_id) {
                Some(v) => v,
                None => {
                    return Vec::new();
                },
            },
        };
        let total = src.len();
        let mut out: Vec<Addr> = Vec::new();
        let mut i: usize = start_index as usize;
        let sum: u64 = start_index as u64 + lim as u64;
        let end: usize = if sum < total as u64 { sum as usize } else { total };
        assert(out@ =~= Seq::<Addr>::empty());
        while i < end
            invariant
                start_index <= i,
                end <= total == src@.len(),
                i <= end || i == start_index,
                i <= end ==> out@ == src@.subrange(start_index as int, i as int),
                i > end ==> out@.len() == 0,
            decreases end - i,
        {
            out.push(src[i]);
            i = i + 1;
            assert(out@ =~= src@.subrange(start_index as int, i as int));
        }
        proof {
            if !(start_index < end) {
                assert(out@ =~= Seq::<Addr>::empty());
            }
        }
        out
    }
}


/// Withdrawing an endorsement undoes making it: a list without `user`, with
/// `user` appended and then removed, is the list it was.
pub proof fn lemma_unendorse_undoes_endorse(s: Seq<Addr>, user: Addr)
    requires
        no_dups(s),
        !s.contains(user),
    ensures
        swap_remove(s.push(user), s.push(user).index_of(user)) == s,
{
    let t = s.push(user);
    let i = t.index_of(user);
    assert(t[s.len() as int] == user);
    assert(t.contains(user));
    assert(i == s.len()) by {
        if i < s.len() {
            assert(t[i] == s[i]);
        }
    }
    assert(swap_remove(t, i) =~= s);
}

} // verus!
