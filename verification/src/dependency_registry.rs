//! Dependencies a project declares: on another registered project, on
//! external content by IPFS id, or on an external URL.
use vstd::prelude::*;
use std::collections::HashMap;
use crate::collection_registry::{decimal, push_decimal};
use crate::constants::MAX_SOCIAL_LINK_URL_LEN;
use crate::types::{Addr, ContractError, ProjectBook};
use crate::utils::{bytes_eq, has_prefix, is_valid_cid, starts_with, text, valid_cid};
use vstd::string::StringSliceAdditionalSpecFns;

verus! {

broadcast use vstd::std_specs::hash::group_hash_axioms;

/// What a dependency points at: exactly one of a project, an IPFS content
/// id or a URL.
pub struct DependencyRef {
    pub project_id: Option<u64>,
    pub external_cid: Option<Vec<u8>>,
    pub external_url: Option<Vec<u8>>,
}

/// A declared dependency.
pub struct ProjectDependency {
    pub reference: DependencyRef,
    pub version: Option<Vec<u8>>,
    pub description: Option<Vec<u8>>,
}

/// A stored dependency under its identity key.
pub struct DependencyEntry {
    pub key: Vec<u8>,
    pub dependency: ProjectDependency,
}

/// Each project's dependencies by project id, in the order they were added.
pub struct DependencyRegistry {
    pub entries: HashMap<u64, Vec<DependencyEntry>>,
}

/// An optional text as bytes.
pub open spec fn opt_bytes(t: Option<Vec<u8>>) -> Option<Seq<u8>> {
    match t {
        Some(v) => Some(v@),
        None => None,
    }
}

/// A reference as plain values.
pub open spec fn ref_view(r: DependencyRef) -> (Option<u64>, Option<Seq<u8>>, Option<Seq<u8>>) {
    (r.project_id, opt_bytes(r.external_cid), opt_bytes(r.external_url))
}

/// A dependency as plain values.
pub open spec fn dep_view(d: ProjectDependency) -> (
    (Option<u64>, Option<Seq<u8>>, Option<Seq<u8>>),
    Option<Seq<u8>>,
    Option<Seq<u8>>,
) {
    (ref_view(d.reference), opt_bytes(d.version), opt_bytes(d.description))
}

/// A URL dependency: 1 to 256 bytes, starting `http://` or `https://`.
pub open spec fn url_ok(url: Seq<u8>) -> bool {
    &&& 0 < url.len() <= MAX_SOCIAL_LINK_URL_LEN
    &&& (starts_with(url, "http://".spec_bytes()) || starts_with(url, "https://".spec_bytes()))
}

/// The error, if any, that refuses a reference.
pub open spec fn ref_error(r: DependencyRef, projects: ProjectBook) -> Option<ContractError> {
    let n = (if r.project_id is Some { 1int } else { 0 }) + (if r.external_cid is Some { 1int } else { 0 }) + (
    if r.external_url is Some { 1int } else { 0 });
    if n != 1 {
        Some(ContractError::InvalidDependencyReference)
    } else if r.external_cid is Some && !valid_cid(r.external_cid->Some_0@) {
        Some(ContractError::InvalidDependencyCid)
    } else if r.external_url is Some && !url_ok(r.external_url->Some_0@) {
        Some(ContractError::InvalidDependencyUrl)
    } else if r.project_id is Some && !projects.has(r.project_id->Some_0) {
        Some(ContractError::DependencyProjectNotFound)
    } else {
        None
    }
}

/// The identity key of a reference: `PID:` and the decimal id, `CID:` and
/// the content id, or `URL:` and the URL.
pub open spec fn dep_key(r: DependencyRef) -> Seq<u8> {
    if r.project_id is Some {
        "PID:".spec_bytes() + decimal(r.project_id->Some_0)
    } else if r.external_cid is Some {
        "CID:".spec_bytes() + r.external_cid->Some_0@
    } else {
        "URL:".spec_bytes() + r.external_url->Some_0@
    }
}

/// `ks` without the occurrences of `key`.
pub open spec fn drop_key(ks: Seq<Seq<u8>>, key: Seq<u8>) -> Seq<Seq<u8>> {
    ks.filter(|k: Seq<u8>| k != key)
}

/// The keys of a project's entries, in order.
pub open spec fn keys_of(es: Seq<DependencyEntry>) -> Seq<Seq<u8>> {
    es.map_values(|e: DependencyEntry| e.key@)
}

/// The dependencies of a project's entries, as plain values, in order.
pub open spec fn deps_of(es: Seq<DependencyEntry>) -> Seq<(
    (Option<u64>, Option<Seq<u8>>, Option<Seq<u8>>),
    Option<Seq<u8>>,
    Option<Seq<u8>>,
)> {
    es.map_values(|e: DependencyEntry| dep_view(e.dependency))
}

/// A reference built by the caller, checked exactly as stored ones are.
fn check_ref(r: &DependencyRef, projects: &ProjectBook) -> (res: Result<(), ContractError>)
    ensures
        res is Ok == (ref_error(*r, *projects) is None),
        res is Err ==> res == Err::<(), ContractError>(ref_error(*r, *projects)->Some_0),
{
    let has_pid = r.project_id.is_some();
    let has_cid = r.external_cid.is_some();
    let has_url = r.external_url.is_some();
    let cnt: u8 = (if has_pid { 1u8 } else { 0u8 }) + (if has_cid { 1u8 } else { 0u8 }) + (if has_url { 1u8 } else { 0u8 });
    if cnt != 1 {
        return Err(ContractError::InvalidDependencyReference);
    }
    if let Some(cid) = &r.external_cid {
        if !is_valid_cid(cid) {
            return Err(ContractError::InvalidDependencyCid);
        }
    }
    if let Some(url) = &r.external_url {
        let len = url.len();
        if len == 0 || len > MAX_SOCIAL_LINK_URL_LEN {
            return Err(ContractError::InvalidDependencyUrl);
        }
        if !has_prefix(url, "http://".as_bytes()) && !has_prefix(url, "https://".as_bytes()) {
            return Err(ContractError::InvalidDependencyUrl);
        }
    }
    if let Some(pid) = r.project_id {
        if projects.get_project(pid).is_none() {
            return Err(ContractError::DependencyProjectNotFound);
        }
    }
    Ok(())
}

/// The identity key of a reference that names exactly one target.
fn dependency_key(r: &DependencyRef) -> (k: Vec<u8>)
    requires
        r.project_id is Some || r.external_cid is Some || r.external_url is Some,
    ensures
        k@ == dep_key(*r),
{
    if let Some(pid) = r.project_id {
        let mut k = text("PID:".as_bytes());
        push_decimal(&mut k, pid);
        return k;
    }
    if let Some(cid) = &r.external_cid {
        let mut k = text("CID:".as_bytes());
        let mut i: usize = 0;
        let ghost base = k@;
        while i < cid.len()
            invariant
                i <= cid@.len(),
                k@ == base + cid@.take(i as int),
            decreases cid@.len() - i,
        {
            k.push(cid[i]);
            i = i + 1;
            assert(k@ =~= base + cid@.take(i as int));
        }
        assert(cid@.take(i as int) =~= cid@);
        return k;
    }
    let mut k = text("URL:".as_bytes());
    match &r.external_url {
        Some(url) => {
            let mut i: usize = 0;
            let ghost base = k@;
            while i < url.len()
                invariant
                    i <= url@.len(),
                    k@ == base + url@.take(i as int),
                decreases url@.len() - i,
            {
                k.push(url[i]);
                i = i + 1;
                assert(k@ =~= base + url@.take(i as int));
            }
            assert(url@.take(i as int) =~= url@);
        },
        None => {},
    }
    k
}

impl DependencyRegistry {
    pub fn new() -> (r: DependencyRegistry)
        ensures
            r.entries@ == Map::<u64, Vec<DependencyEntry>>::empty(),
    {
        DependencyRegistry { entries: HashMap::new() }
    }

    /// The stored entries of a project.
    pub open spec fn entries_of(&self, pid: u64) -> Seq<DependencyEntry> {
        if self.entries@.contains_key(pid) { self.entries@[pid]@ } else { Seq::empty() }
    }

    /// Position of the entry with key `key`, if any.
    fn find(es: &Vec<DependencyEntry>, key: &Vec<u8>) -> (r: Option<usize>)
        ensures
            r is None ==> !keys_of(es@).contains(key@),
            r matches Some(i) ==> i < es@.len() && es@[i as int].key@ == key@ && keys_of(es@).contains(key@)
                && forall|j: int| 0 <= j < i ==> #[trigger] es@[j].key@ != key@,
    {
        let mut i: usize = 0;
        while i < es.len()
            invariant
                i <= es@.len(),
                forall|j: int| 0 <= j < i ==> es@[j].key@ != key@,
            decreases es@.len() - i,
        {
            if bytes_eq(&es[i].key, key) {
                assert(keys_of(es@)[i as int] == key@);
                return Some(i);
            }
            i = i + 1;
        }
        proof {
            if keys_of(es@).contains(key@) {
                let j = choose|j: int| 0 <= j < keys_of(es@).len() && keys_of(es@)[j] == key@;
                assert(es@[j].key@ == key@);
            }
        }
        None
    }

    /// The error, if any, that refuses a change by `caller` of a project's
    /// dependencies.
    pub open spec fn owner_error(caller: Addr, project_id: u64, projects: ProjectBook) -> Option<ContractError> {
        if !projects.has(project_id) {
            Some(ContractError::ProjectNotFound)
        } else if projects.at(project_id).owner != caller {
            Some(ContractError::Unauthorized)
        } else {
            None
        }
    }

    /// Adds a dependency on the word of the project's owner. The reference
    /// must name exactly one valid target, not declared before.
    pub fn add_dependency(&mut self, project_id: u64, caller: Addr, dependency: ProjectDependency, projects: &ProjectBook) -> (r: Result<
        (),
        ContractError,
    >)
        ensures
            ({
                let es = old(self).entries_of(project_id);
                let key = dep_key(dependency.reference);
                let err = if Self::owner_error(caller, project_id, *projects) is Some {
                    Self::owner_error(caller, project_id, *projects)
                } else if ref_error(dependency.reference, *projects) is Some {
                    ref_error(dependency.reference, *projects)
                } else if keys_of(es).contains(key) {
                    Some(ContractError::DuplicateDependency)
                } else {
                    None
                };
                &&& err is Some ==> r == Err::<(), ContractError>(err->Some_0) && *final(self) == *old(self)
                &&& err is None ==> r is Ok && {
                    let ne = final(self).entries_of(project_id);
                    &&& final(self).entries@.dom() == old(self).entries@.dom().insert(project_id)
                    &&& forall|k: u64| k != project_id && old(self).entries@.contains_key(k) ==> #[trigger] final(self).entries@[k] == old(self).entries@[k]
                    &&& keys_of(ne) == keys_of(es).push(key)
                    &&& deps_of(ne) == deps_of(es).push(dep_view(dependency))
                }
            }),
    {
        match projects.get_project(project_id) {
            Some(p) => {
                if p.owner != caller {
                    return Err(ContractError::Unauthorized);
                }
            },
            None => return Err(ContractError::ProjectNotFound),
        }
        check_ref(&dependency.reference, projects)?;
        let key = self::dependency_key(&dependency.reference);
        let dup = match self.entries.get(&project_id) {
            Some(es) => Self::find(es, &key).is_some(),
            None => false,
        };
        if dup {
            return Err(ContractError::DuplicateDependency);
        }
        let mut es = match self.entries.remove(&project_id) {
            Some(v) => v,
            None => Vec::new(),
        };
        let ghost before = es@;
        let ghost dv = dep_view(dependency);
        let ghost kv = key@;
        es.push(DependencyEntry { key, dependency });
        proof {
            assert(keys_of(es@) =~= keys_of(before).push(kv));
            assert(deps_of(es@) =~= deps_of(before).push(dv));
        }
        self.entries.insert(project_id, es);
        Ok(())
    }

    /// Replaces the details of a declared dependency, on the word of the
    /// project's owner; the dependency keeps its reference and its place.
    pub fn update_dependency(
        &mut self,
        project_id: u64,
        caller: Addr,
        dependency_key: DependencyRef,
        new_dependency: ProjectDependency,
        projects: &ProjectBook,
    ) -> (r: Result<(), ContractError>)
        ensures
            ({
                let es = old(self).entries_of(project_id);
                let key = dep_key(dependency_key);
                let err = if Self::owner_error(caller, project_id, *projects) is Some {
                    Self::owner_error(caller, project_id, *projects)
                } else if ref_error(dependency_key, *projects) is Some {
                    ref_error(dependency_key, *projects)
                } else if ref_error(new_dependency.reference, *projects) is Some {
                    ref_error(new_dependency.reference, *projects)
                } else if !keys_of(es).contains(key) {
                    Some(ContractError::DependencyNotFound)
                } else {
                    None
                };
                &&& err is Some ==> r == Err::<(), ContractError>(err->Some_0) && *final(self) == *old(self)
                &&& err is None ==> r is Ok && {
                    let ne = final(self).entries_of(project_id);
                    &&& final(self).entries@.dom() == old(self).entries@.dom()
                    &&& forall|k: u64| k != project_id && old(self).entries@.contains_key(k) ==> #[trigger] final(self).entries@[k] == old(self).entries@[k]
                    &&& keys_of(ne) == keys_of(es)
                    &&& exists|i: int| 0 <= i < es.len() && #[trigger] keys_of(es)[i] == key
                        && (forall|j: int| 0 <= j < i ==> keys_of(es)[j] != key)
                        && deps_of(ne) == deps_of(es).update(
                        i,
                        (ref_view(dependency_key), opt_bytes(new_dependency.version), opt_bytes(new_dependency.description)),
                    )
                }
            }),
    {
        match projects.get_project(project_id) {
            Some(p) => {
                if p.owner != caller {
                    return Err(ContractError::Unauthorized);
                }
            },
            None => return Err(ContractError::ProjectNotFound),
        }
        check_ref(&dependency_key, projects)?;
        check_ref(&new_dependency.reference, projects)?;
        let key = self::dependency_key(&dependency_key);
        let pos = match self.entries.get(&project_id) {
            Some(es) => Self::find(es, &key),
            None => None,
        };
        let idx = match pos {
            Some(i) => i,
            None => return Err(ContractError::DependencyNotFound),
        };
        let mut es = match self.entries.remove(&project_id) {
            Some(v) => v,
            None => return Err(ContractError::DependencyNotFound),
        };
        let ghost before = es@;
        proof {
            let ks = keys_of(before);
            assert(ks[idx as int] == key@);
            assert forall|j: int| 0 <= j < idx implies ks[j] != key@ by {
                assert(before[j].key@ != key@);
            }
        }
        let ghost nv = (ref_view(dependency_key), opt_bytes(new_dependency.version), opt_bytes(new_dependency.description));
        let mut stored = new_dependency;
        stored.reference = dependency_key;
        let old_entry = es.remove(idx);
        es.insert(idx, DependencyEntry { key: old_entry.key, dependency: stored });
        proof {
            assert(keys_of(es@) =~= keys_of(before));
            assert(deps_of(es@) =~= deps_of(before).update(idx as int, nv));
        }
        self.entries.insert(project_id, es);
        proof {
            assert(self.entries@.dom() =~= old(self).entries@.dom());
        }
        Ok(())
    }

    /// Removes a declared dependency on the word of the project's owner.
    pub fn remove_dependency(&mut self, project_id: u64, caller: Addr, dependency_key: DependencyRef, projects: &ProjectBook) -> (r:
        Result<(), ContractError>)
        ensures
            ({
                let es = old(self).entries_of(project_id);
                let key = dep_key(dependency_key);
                let err = if Self::owner_error(caller, project_id, *projects) is Some {
                    Self::owner_error(caller, project_id, *projects)
                } else if ref_error(dependency_key, *projects) is Some {
                    ref_error(dependency_key, *projects)
                } else if !keys_of(es).contains(key) {
                    Some(ContractError::DependencyNotFound)
                } else {
                    None
                };
                &&& err is Some ==> r == Err::<(), ContractError>(err->Some_0) && *final(self) == *old(self)
                &&& err is None ==> r is Ok && {
                    let ne = final(self).entries_of(project_id);
                    &&& final(self).entries@.dom() == old(self).entries@.dom()
                    &&& forall|k: u64| k != project_id && old(self).entries@.contains_key(k) ==> #[trigger] final(self).entries@[k] == old(self).entries@[k]
                    &&& keys_of(ne) == drop_key(keys_of(es), key)
                    &&& forall|j: int| 0 <= j < ne.len() ==> #[trigger] ne[j].key@ != key
                }
            }),
    {
        match projects.get_project(project_id) {
            Some(p) => {
                if p.owner != caller {
                    return Err(ContractError::Unauthorized);
                }
            },
            None => return Err(ContractError::ProjectNotFound),
        }
        check_ref(&dependency_key, projects)?;
        let key = self::dependency_key(&dependency_key);
        let found = match self.entries.get(&project_id) {
            Some(es) => Self::find(es, &key).is_some(),
            None => false,
        };
        if !found {
            return Err(ContractError::DependencyNotFound);
        }
        let es = match self.entries.remove(&project_id) {
            Some(v) => v,
            None => return Err(ContractError::DependencyNotFound),
        };
        let ghost before = es@;
        let mut kept: Vec<DependencyEntry> = Vec::new();
        let mut rest = es;
        let ghost mut taken: int = 0;
        while rest.len() > 0
            invariant
                0 <= taken <= before.len(),
                rest@ == before.skip(taken),
                keys_of(kept@) == drop_key(keys_of(before.take(taken)), key@),
                forall|j: int| 0 <= j < kept@.len() ==> #[trigger] kept@[j].key@ != key@,
            decreases rest@.len(),
        {
            let e = rest.remove(0);
            proof {
                assert(before.take(taken + 1).drop_last() =~= before.take(taken));
                assert(keys_of(before.take(taken + 1)) =~= keys_of(before.take(taken)).push(e.key@));
                reveal_with_fuel(Seq::<_>::filter, 1);
                assert(keys_of(before.take(taken + 1)).drop_last() =~= keys_of(before.take(taken)));
            }
            if !bytes_eq(&e.key, &key) {
                let ghost kv = e.key@;
                let ghost prev = kept@;
                assert(kv != key@);
                kept.push(e);
                proof {
                    assert(keys_of(kept@) =~= keys_of(prev).push(kv));
                    assert(kept@[kept@.len() - 1].key@ == kv);
                    assert forall|j: int| 0 <= j < kept@.len() implies #[trigger] kept@[j].key@ != key@ by {
                        if j < prev.len() {
                            assert(kept@[j] == prev[j]);
                            assert(prev[j].key@ != key@);
                        } else {
                            assert(j == prev.len());
                        }
                    }
                }
            }
            proof {
                assert(rest@ =~= before.skip(taken + 1));
                taken = taken + 1;
            }
        }
        proof {
            assert(before.take(taken) =~= before);
        }
        self.entries.insert(project_id, kept);
        proof {
            assert(self.entries@.dom() =~= old(self).entries@.dom());
            assert(self.entries_of(project_id) == kept@);
            assert(before == old(self).entries_of(project_id));
        }
        Ok(())
    }

    /// The dependencies of a project, in the order they were added.
    pub fn get_dependencies(&self, project_id: u64) -> (r: Vec<&ProjectDependency>)
        ensures
            r@.len() == self.entries_of(project_id).len(),
            forall|i: int| 0 <= i < r@.len() ==> *#[trigger] r@[i] == self.entries_of(project_id)[i].dependency,
    {
        let mut out: Vec<&ProjectDependency> = Vec::new();
        match self.entries.get(&project_id) {
            Some(es) => {
                let mut i: usize = 0;
                while i < es.len()
                    invariant
                        i <= es@.len(),
                        self.entries@.contains_key(project_id),
                        *es == self.entries@[project_id],
                        out@.len() == i,
                        forall|j: int| 0 <= j < i ==> *#[trigger] out@[j] == es@[j].dependency,
                    decreases es@.len() - i,
                {
                    out.push(&es[i].dependency);
                    i = i + 1;
                }
            },
            None => {},
        }
        out
    }
}

} // verus!
