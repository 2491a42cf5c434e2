//! Bookmarks of users: a flat list of bookmarked projects, folders (which
//! may nest) that organise a subset of them, and smart folders that select
//! bookmarks by category, tag or verification status.
use vstd::prelude::*;
use std::collections::HashMap;
use crate::collection_registry::list_in;
use crate::constants::{
    MAX_BOOKMARKS_PER_FOLDER, MAX_BOOKMARK_FOLDERS_PER_USER, MAX_FOLDER_DEPTH, MAX_FOLDER_NAME_LEN, MAX_PAGE_LIMIT,
    MAX_SMART_FOLDERS_PER_USER,
};
use crate::types::{Addr, ContractError, Project, ProjectBook, VerificationStatus};
use crate::utils::{bytes_eq, contains_u64, copy_ids, remove_item_u64, without, lemma_without_contains};

verus! {

broadcast use vstd::std_specs::hash::group_hash_axioms;

/// A folder of bookmarks.
pub struct BookmarkFolder {
    pub id: u64,
    pub owner: Addr,
    pub name: Vec<u8>,
    pub parent_id: Option<u64>,
    pub created_at: u64,
    pub updated_at: u64,
}

/// A required verification status, or none.
#[derive(Clone, Copy, Debug, PartialEq, Eq, Structural)]
pub enum VerificationStatusFilter {
    Any,
    Is(VerificationStatus),
}

/// What a smart folder selects: every set criterion must hold.
pub struct SmartFolderFilter {
    pub category: Option<Vec<u8>>,
    pub tag: Option<Vec<u8>>,
    pub verification_status: VerificationStatusFilter,
}

/// A folder whose bookmarks are those matching its filter.
pub struct SmartFolder {
    pub id: u64,
    pub owner: Addr,
    pub name: Vec<u8>,
    pub filter: SmartFolderFilter,
    pub created_at: u64,
    pub updated_at: u64,
}

/// Everything one user has: bookmarks, folders by id, the folder ids in
/// creation order, each folder's projects, the folder each foldered project
/// is in, smart folders by id and their ids, and the next ids (1 when
/// unset).
pub struct UserBookmarks {
    pub bookmarks: Vec<u64>,
    pub folders: HashMap<u64, BookmarkFolder>,
    pub folder_ids: Vec<u64>,
    pub folder_lists: HashMap<u64, Vec<u64>>,
    pub folder_index: HashMap<u64, u64>,
    pub smart_folders: HashMap<u64, SmartFolder>,
    pub smart_ids: Vec<u64>,
    pub next_folder_id: Option<u64>,
    pub next_smart_id: Option<u64>,
}

/// The bookmark state of every user, by address id.
pub struct BookmarkRegistry {
    pub users: HashMap<u64, UserBookmarks>,
}

/// The projects of a page: positions `start` onward, at most `limit` (0 or
/// more than the cap means the cap).
pub open spec fn page_from(s: Seq<u64>, start: u32, limit: u32) -> Seq<u64> {
    let lim: int = if limit == 0 || limit > MAX_PAGE_LIMIT { MAX_PAGE_LIMIT as int } else { limit as int };
    let end = if start + lim < s.len() { start + lim } else { s.len() as int };
    if start >= s.len() { Seq::empty() } else { s.subrange(start as int, end) }
}

/// A page of `s`.
fn page(s: &Vec<u64>, start: u32, limit: u32) -> (r: Vec<u64>)
    ensures
        r@ == page_from(s@, start, limit),
{
    let lim: u32 = if limit == 0 || limit > MAX_PAGE_LIMIT { MAX_PAGE_LIMIT } else { limit };
    let total = s.len();
    if start as usize >= total {
        return Vec::new();
    }
    let sum: u64 = start as u64 + lim as u64;
    let end: usize = if sum < total as u64 { sum as usize } else { total };
    let mut out: Vec<u64> = Vec::new();
    let mut k: usize = start as usize;
    while k < end
        invariant
            start <= k <= end <= total == s@.len(),
            out@ == s@.subrange(start as int, k as int),
        decreases end - k,
    {
        out.push(s[k]);
        k = k + 1;
        assert(out@ =~= s@.subrange(start as int, k as int));
    }
    out
}

/// Whether a folder name is acceptable, and the error otherwise.
pub open spec fn name_error(name: Seq<u8>) -> Option<ContractError> {
    if name.len() == 0 {
        Some(ContractError::InvalidProjectData)
    } else if name.len() > MAX_FOLDER_NAME_LEN {
        Some(ContractError::InvalidProjectName)
    } else {
        None
    }
}

/// The depth a new folder under the chain starting at `parent` gets, counted
/// from `d`, or the error that refuses it.
pub open spec fn depth_from(folders: Map<u64, BookmarkFolder>, parent: Option<u64>, d: nat) -> Result<nat, ContractError>
    decreases MAX_FOLDER_DEPTH + 1 - d,
{
    if d > MAX_FOLDER_DEPTH {
        Err(ContractError::FolderDepthExceeded)
    } else {
        match parent {
            None => Ok(d),
            Some(p) => if !folders.contains_key(p) {
                Err(ContractError::FolderNotFound)
            } else {
                depth_from(folders, folders[p].parent_id, d + 1)
            },
        }
    }
}

/// Whether a project meets every criterion a filter sets.
pub open spec fn filter_matches(f: SmartFolderFilter, pid: u64, projects: ProjectBook) -> bool {
    let has_criteria = f.category is Some || f.tag is Some || f.verification_status is Is;
    if !has_criteria {
        true
    } else if !projects.has(pid) {
        false
    } else {
        let p = projects.at(pid);
        &&& (f.category is Some ==> p.category@ == f.category->Some_0@)
        &&& (f.verification_status matches VerificationStatusFilter::Is(vs) ==> p.verification_status == vs)
        &&& (f.tag is Some ==> p.tags is Some && exists|i: int| 0 <= i < p.tags->Some_0@.len()
            && (#[trigger] p.tags->Some_0@[i])@ == f.tag->Some_0@)
    }
}

/// The folders of `ids` that exist, in order.
pub open spec fn existing_folders(ids: Seq<u64>, m: Map<u64, BookmarkFolder>) -> Seq<BookmarkFolder>
    decreases ids.len(),
{
    if ids.len() == 0 {
        Seq::empty()
    } else {
        let rest = existing_folders(ids.drop_last(), m);
        if m.contains_key(ids.last()) { rest.push(m[ids.last()]) } else { rest }
    }
}

/// The smart folders of `ids` that exist, in order.
pub open spec fn existing_smart(ids: Seq<u64>, m: Map<u64, SmartFolder>) -> Seq<SmartFolder>
    decreases ids.len(),
{
    if ids.len() == 0 {
        Seq::empty()
    } else {
        let rest = existing_smart(ids.drop_last(), m);
        if m.contains_key(ids.last()) { rest.push(m[ids.last()]) } else { rest }
    }
}

impl UserBookmarks {
    /// A user with nothing yet.
    pub fn empty() -> (r: UserBookmarks)
        ensures
            r.bookmarks@.len() == 0,
            r.folders@ == Map::<u64, BookmarkFolder>::empty(),
            r.folder_ids@.len() == 0,
            r.folder_lists@ == Map::<u64, Vec<u64>>::empty(),
            r.folder_index@ == Map::<u64, u64>::empty(),
            r.smart_folders@ == Map::<u64, SmartFolder>::empty(),
            r.smart_ids@.len() == 0,
            r.next_folder_id is None,
            r.next_smart_id is None,
    {
        UserBookmarks {
            bookmarks: Vec::new(),
            folders: HashMap::new(),
            folder_ids: Vec::new(),
            folder_lists: HashMap::new(),
            folder_index: HashMap::new(),
            smart_folders: HashMap::new(),
            smart_ids: Vec::new(),
            next_folder_id: None,
            next_smart_id: None,
        }
    }
}

impl BookmarkRegistry {
    pub fn new() -> (r: BookmarkRegistry)
        ensures
            r.wf(),
            r.users@ == Map::<u64, UserBookmarks>::empty(),
    {
        BookmarkRegistry { users: HashMap::new() }
    }

    pub open spec fn has_user(&self, u: Addr) -> bool {
        self.users@.contains_key(u.id)
    }

    /// The flat bookmark list of `u`.
    pub open spec fn bm(&self, u: Addr) -> Seq<u64> {
        if self.has_user(u) { self.users@[u.id].bookmarks@ } else { Seq::empty() }
    }

    /// The folders of `u` by id.
    pub open spec fn folders(&self, u: Addr) -> Map<u64, BookmarkFolder> {
        if self.has_user(u) { self.users@[u.id].folders@ } else { Map::empty() }
    }

    /// The folder ids of `u`, in creation order.
    pub open spec fn fids(&self, u: Addr) -> Seq<u64> {
        if self.has_user(u) { self.users@[u.id].folder_ids@ } else { Seq::empty() }
    }

    /// The projects in folder `f` of `u`.
    pub open spec fn flist(&self, u: Addr, f: u64) -> Seq<u64> {
        if self.has_user(u) { list_in(self.users@[u.id].folder_lists@, f) } else { Seq::empty() }
    }

    /// Whether `u` has a stored (possibly empty) list for folder `f`.
    pub open spec fn has_flist(&self, u: Addr, f: u64) -> bool {
        self.has_user(u) && self.users@[u.id].folder_lists@.contains_key(f)
    }

    /// The folder each foldered project of `u` is in.
    pub open spec fn findex(&self, u: Addr) -> Map<u64, u64> {
        if self.has_user(u) { self.users@[u.id].folder_index@ } else { Map::empty() }
    }

    /// The smart folders of `u` by id.
    pub open spec fn smart(&self, u: Addr) -> Map<u64, SmartFolder> {
        if self.has_user(u) { self.users@[u.id].smart_folders@ } else { Map::empty() }
    }

    /// The smart-folder ids of `u`, in creation order.
    pub open spec fn sids(&self, u: Addr) -> Seq<u64> {
        if self.has_user(u) { self.users@[u.id].smart_ids@ } else { Seq::empty() }
    }

    /// The id the next folder of `u` gets.
    pub open spec fn nextf(&self, u: Addr) -> u64 {
        if self.has_user(u) && self.users@[u.id].next_folder_id is Some { self.users@[u.id].next_folder_id->Some_0 } else { 1 }
    }

    /// The id the next smart folder of `u` gets.
    pub open spec fn nexts(&self, u: Addr) -> u64 {
        if self.has_user(u) && self.users@[u.id].next_smart_id is Some { self.users@[u.id].next_smart_id->Some_0 } else { 1 }
    }

    /// Other users are untouched.
    pub open spec fn others_same(old: &BookmarkRegistry, new: &BookmarkRegistry, u: Addr) -> bool {
        &&& forall|k: u64| k != u.id ==> #[trigger] new.users@.contains_key(k) == old.users@.contains_key(k)
        &&& forall|k: u64| k != u.id && old.users@.contains_key(k) ==> #[trigger] new.users@[k] == old.users@[k]
    }

    /// Every project filed in a folder of `u` is bookmarked, and sits in
    /// the folder the index names.
    pub open spec fn filed_ok(&self, u: Addr) -> bool {
        &&& forall|p: u64| #[trigger] self.findex(u).contains_key(p) ==> self.bm(u).contains(p)
        &&& forall|f: u64, p: u64| #[trigger] self.flist(u, f).contains(p) ==> self.findex(u).contains_key(p)
            && self.findex(u)[p] == f
    }

    /// The registry invariant: for every user, filed projects are bookmarked.
    pub open spec fn wf(&self) -> bool {
        forall|u: Addr| #[trigger] self.filed_ok(u)
    }

    /// `u`'s state other than the listed parts is untouched.
    pub open spec fn same_but(
        old: &BookmarkRegistry,
        new: &BookmarkRegistry,
        u: Addr,
        bm: bool,
        folders: bool,
        fids: bool,
        flists: bool,
        findex: bool,
        smart: bool,
        sids: bool,
        nextf: bool,
        nexts: bool,
    ) -> bool {
        &&& BookmarkRegistry::others_same(old, new, u)
        &&& !bm ==> new.bm(u) == old.bm(u)
        &&& !folders ==> new.folders(u) == old.folders(u)
        &&& !fids ==> new.fids(u) == old.fids(u)
        &&& !flists ==> forall|f: u64| #[trigger] new.flist(u, f) == old.flist(u, f) && new.has_flist(u, f) == old.has_flist(u, f)
        &&& !findex ==> new.findex(u) == old.findex(u)
        &&& !smart ==> new.smart(u) == old.smart(u)
        &&& !sids ==> new.sids(u) == old.sids(u)
        &&& !nextf ==> new.nextf(u) == old.nextf(u)
        &&& !nexts ==> new.nexts(u) == old.nexts(u)
    }

    /// Takes `u`'s state out (an empty one when `u` has none).
    fn take_user(&mut self, u: Addr) -> (r: UserBookmarks)
        ensures
            final(self).users@ == old(self).users@.remove(u.id),
            r.bookmarks@ == old(self).bm(u),
            r.folders@ == old(self).folders(u),
            r.folder_ids@ == old(self).fids(u),
            forall|f: u64| #[trigger] list_in(r.folder_lists@, f) == old(self).flist(u, f)
                && r.folder_lists@.contains_key(f) == old(self).has_flist(u, f),
            r.folder_index@ == old(self).findex(u),
            r.smart_folders@ == old(self).smart(u),
            r.smart_ids@ == old(self).sids(u),
            (if r.next_folder_id is Some { r.next_folder_id->Some_0 } else { 1 }) == old(self).nextf(u),
            (if r.next_smart_id is Some { r.next_smart_id->Some_0 } else { 1 }) == old(self).nexts(u),
    {
        match self.users.remove(&u.id) {
            Some(r) => r,
            None => UserBookmarks::empty(),
        }
    }

    /// Puts `u`'s state back.
    fn put_user(&mut self, u: Addr, rec: UserBookmarks)
        requires
            !old(self).users@.contains_key(u.id),
        ensures
            final(self).users@ == old(self).users@.insert(u.id, rec),
            final(self).has_user(u),
            final(self).bm(u) == rec.bookmarks@,
            final(self).folders(u) == rec.folders@,
            final(self).fids(u) == rec.folder_ids@,
            forall|f: u64| #[trigger] final(self).flist(u, f) == list_in(rec.folder_lists@, f)
                && final(self).has_flist(u, f) == rec.folder_lists@.contains_key(f),
            final(self).findex(u) == rec.folder_index@,
            final(self).smart(u) == rec.smart_folders@,
            final(self).sids(u) == rec.smart_ids@,
            final(self).nextf(u) == (if rec.next_folder_id is Some { rec.next_folder_id->Some_0 } else { 1 }),
            final(self).nexts(u) == (if rec.next_smart_id is Some { rec.next_smart_id->Some_0 } else { 1 }),
    {
        self.users.insert(u.id, rec);
    }

    /// Whether `user` bookmarked the project.
    pub fn is_bookmarked(&self, project_id: u64, user: Addr) -> (r: bool)
        ensures
            r == self.bm(user).contains(project_id),
    {
        match self.users.get(&user.id) {
            Some(rec) => contains_u64(&rec.bookmarks, project_id),
            None => false,
        }
    }

    /// Bookmarks an existing project for `user`.
    pub fn bookmark_project(&mut self, project_id: u64, user: Addr, projects: &ProjectBook) -> (r: Result<(), ContractError>)
        requires
            old(self).wf(),
        ensures
            final(self).wf(),
            r == (if !projects.has(project_id) {
                Err(ContractError::ProjectNotFound)
            } else if old(self).bm(user).contains(project_id) {
                Err(ContractError::AlreadyBookmarked)
            } else {
                Ok::<(), ContractError>(())
            }),
            r is Err ==> *final(self) == *old(self),
            r is Ok ==> final(self).bm(user) == old(self).bm(user).push(project_id)
                && BookmarkRegistry::same_but(old(self), final(self), user, true, false, false, false, false, false, false, false, false),
    {
        if projects.get_project(project_id).is_none() {
            return Err(ContractError::ProjectNotFound);
        }
        if self.is_bookmarked(project_id, user) {
            return Err(ContractError::AlreadyBookmarked);
        }
        let mut rec = self.take_user(user);
        rec.bookmarks.push(project_id);
        self.put_user(user, rec);
        proof {
            assert forall|q: u64| old(self).bm(user).contains(q) implies #[trigger] self.bm(user).contains(q) by {
                let i = choose|i: int| 0 <= i < old(self).bm(user).len() && old(self).bm(user)[i] == q;
                assert(self.bm(user)[i] == q);
            }
            lemma_wf_bookmarks_grow(old(self), self, user);
        }
        Ok(())
    }

    /// Removes `user`'s bookmark of an existing project, taking it out of
    /// its folder too.
    pub fn unbookmark_project(&mut self, project_id: u64, user: Addr, projects: &ProjectBook) -> (r: Result<(), ContractError>)
        requires
            old(self).wf(),
        ensures
            final(self).wf(),
            r == (if !projects.has(project_id) {
                Err(ContractError::ProjectNotFound)
            } else if !old(self).bm(user).contains(project_id) {
                Err(ContractError::NotBookmarked)
            } else {
                Ok::<(), ContractError>(())
            }),
            r is Err ==> *final(self) == *old(self),
            r is Ok ==> {
                &&& final(self).bm(user) == without(old(self).bm(user), project_id)
                &&& old(self).findex(user).contains_key(project_id) ==> {
                    let f = old(self).findex(user)[project_id];
                    &&& final(self).findex(user) == old(self).findex(user).remove(project_id)
                    &&& final(self).flist(user, f) == without(old(self).flist(user, f), project_id)
                    &&& final(self).has_flist(user, f)
                    &&& forall|g: u64| g != f ==> #[trigger] final(self).flist(user, g) == old(self).flist(user, g)
                        && final(self).has_flist(user, g) == old(self).has_flist(user, g)
                    &&& BookmarkRegistry::same_but(old(self), final(self), user, true, false, false, true, true, false, false, false, false)
                }
                &&& !old(self).findex(user).contains_key(project_id) ==> BookmarkRegistry::same_but(
                    old(self),
                    final(self),
                    user,
                    true,
                    false,
                    false,
                    false,
                    false,
                    false,
                    false,
                    false,
                    false,
                )
            },
    {
        if projects.get_project(project_id).is_none() {
            return Err(ContractError::ProjectNotFound);
        }
        if !self.is_bookmarked(project_id, user) {
            return Err(ContractError::NotBookmarked);
        }
        let mut rec = self.take_user(user);
        let ghost r0 = rec;
        let folder = match rec.folder_index.get(&project_id) {
            Some(f) => Some(*f),
            None => None,
        };
        if let Some(f) = folder {
            let list = match rec.folder_lists.get(&f) {
                Some(v) => copy_ids(v),
                None => Vec::new(),
            };
            let updated = remove_item_u64(&list, project_id);
            rec.folder_lists.insert(f, updated);
            rec.folder_index.remove(&project_id);
            proof {
                assert(list@ == list_in(r0.folder_lists@, f));
                assert(list_in(rec.folder_lists@, f) == without(list_in(r0.folder_lists@, f), project_id));
                assert forall|g: u64| g != f implies #[trigger] list_in(rec.folder_lists@, g) == list_in(r0.folder_lists@, g) by {
                    if r0.folder_lists@.contains_key(g) {
                        assert(rec.folder_lists@[g] == r0.folder_lists@[g]);
                    }
                }
            }
        }
        rec.bookmarks = remove_item_u64(&rec.bookmarks, project_id);
        self.put_user(user, rec);
        proof {
            if let Some(f) = folder {
                assert(old(self).findex(user).contains_key(project_id));
                assert(f == old(self).findex(user)[project_id]);
                assert(self.findex(user) =~= old(self).findex(user).remove(project_id));
                assert(list_in(r0.folder_lists@, f) == old(self).flist(user, f));
                assert(self.flist(user, f) == list_in(rec.folder_lists@, f));
                assert forall|g: u64| g != f implies #[trigger] self.flist(user, g) == old(self).flist(user, g)
                    && self.has_flist(user, g) == old(self).has_flist(user, g) by {
                    assert(self.flist(user, g) == list_in(rec.folder_lists@, g));
                    assert(list_in(rec.folder_lists@, g) == list_in(r0.folder_lists@, g));
                }
            } else {
                assert(!old(self).findex(user).contains_key(project_id));
                assert forall|g: u64| #[trigger] self.flist(user, g) == old(self).flist(user, g)
                    && self.has_flist(user, g) == old(self).has_flist(user, g) by {
                    assert(self.flist(user, g) == list_in(rec.folder_lists@, g));
                }
            }
        }
        proof {
            lemma_wf_unfile(old(self), self, user, project_id, true);
        }
        Ok(())
    }

    /// A page of `user`'s bookmarks.
    pub fn get_user_bookmarks(&self, user: Addr, start_index: u32, limit: u32) -> (r: Vec<u64>)
        ensures
            r@ == page_from(self.bm(user), start_index, limit),
    {
        match self.users.get(&user.id) {
            Some(rec) => page(&rec.bookmarks, start_index, limit),
            None => page(&Vec::new(), start_index, limit),
        }
    }

    /// A depth that `depth_from` accepts stays within the maximum.
    proof fn lemma_depth_bound(folders: Map<u64, BookmarkFolder>, parent: Option<u64>, d: nat)
        ensures
            depth_from(folders, parent, d) matches Ok(n) ==> n <= MAX_FOLDER_DEPTH,
        decreases MAX_FOLDER_DEPTH + 1 - d,
    {
        if d <= MAX_FOLDER_DEPTH {
            if let Some(p) = parent {
                if folders.contains_key(p) {
                    Self::lemma_depth_bound(folders, folders[p].parent_id, d + 1);
                }
            }
        }
    }

    fn validate_folder_name(name: &Vec<u8>) -> (r: Result<(), ContractError>)
        ensures
            r is Ok == (name_error(name@) is None),
            r is Err ==> r == Err::<(), ContractError>(name_error(name@)->Some_0),
    {
        if name.len() == 0 {
            return Err(ContractError::InvalidProjectData);
        }
        if name.len() > MAX_FOLDER_NAME_LEN {
            return Err(ContractError::InvalidProjectName);
        }
        Ok(())
    }

    /// The depth of a new folder under `parent_id`, counted from
    /// `current_depth`.
    fn compute_folder_depth(folders: &HashMap<u64, BookmarkFolder>, parent_id: Option<u64>, current_depth: u32) -> (r: Result<
        u32,
        ContractError,
    >)
        ensures
            match depth_from(folders@, parent_id, current_depth as nat) {
                Ok(d) => r == Ok::<u32, ContractError>(d as u32),
                Err(e) => r == Err::<u32, ContractError>(e),
            },
        decreases MAX_FOLDER_DEPTH + 1 - current_depth,
    {
        if current_depth > MAX_FOLDER_DEPTH {
            return Err(ContractError::FolderDepthExceeded);
        }
        match parent_id {
            None => Ok(current_depth),
            Some(pid) => {
                let next = match folders.get(&pid) {
                    Some(f) => f.parent_id,
                    None => return Err(ContractError::FolderNotFound),
                };
                Self::compute_folder_depth(folders, next, current_depth + 1)
            },
        }
    }

    /// The error, if any, that refuses creating a folder.
    pub open spec fn create_folder_error(&self, user: Addr, name: Seq<u8>, parent_id: Option<u64>) -> Option<ContractError> {
        let fs = self.folders(user);
        if name_error(name) is Some {
            name_error(name)
        } else if self.fids(user).len() >= MAX_BOOKMARK_FOLDERS_PER_USER {
            Some(ContractError::MaxFoldersExceeded)
        } else if parent_id is Some && !fs.contains_key(parent_id->Some_0) {
            Some(ContractError::FolderNotFound)
        } else {
            let d = match parent_id {
                Some(p) => depth_from(fs, fs[p].parent_id, 1),
                None => Ok(0nat),
            };
            match d {
                Err(e) => Some(e),
                Ok(n) => if n >= MAX_FOLDER_DEPTH { Some(ContractError::FolderDepthExceeded) } else { None },
            }
        }
    }

    /// Creates a folder for `user`, at top level or inside one of the
    /// user's folders, within the folder count and nesting depth. Returns
    /// its id.
    pub fn create_folder(&mut self, user: Addr, name: Vec<u8>, parent_id: Option<u64>, now: u64) -> (r: Result<u64, ContractError>)
        requires
            old(self).wf(),
            old(self).nextf(user) < u64::MAX,
        ensures
            final(self).wf(),
            ({
                let err = old(self).create_folder_error(user, name@, parent_id);
                let id = old(self).nextf(user);
                &&& err is Some ==> r == Err::<u64, ContractError>(err->Some_0) && *final(self) == *old(self)
                &&& err is None ==> {
                    let f = final(self).folders(user)[id];
                    &&& r == Ok::<u64, ContractError>(id)
                    &&& final(self).folders(user) == old(self).folders(user).insert(id, f)
                    &&& f.id == id && f.owner == user && f.name@ == name@ && f.parent_id == parent_id
                    &&& f.created_at == now && f.updated_at == now
                    &&& final(self).fids(user) == old(self).fids(user).push(id)
                    &&& final(self).flist(user, id).len() == 0 && final(self).has_flist(user, id)
                    &&& forall|g: u64| g != id ==> #[trigger] final(self).flist(user, g) == old(self).flist(user, g)
                        && final(self).has_flist(user, g) == old(self).has_flist(user, g)
                    &&& final(self).nextf(user) == id + 1
                    &&& BookmarkRegistry::same_but(old(self), final(self), user, false, true, true, true, false, false, false, true, false)
                }
            }),
    {
        Self::validate_folder_name(&name)?;
        let (count, depth) = match self.users.get(&user.id) {
            Some(rec) => {
                let count = rec.folder_ids.len();
                if count >= MAX_BOOKMARK_FOLDERS_PER_USER as usize {
                    return Err(ContractError::MaxFoldersExceeded);
                }
                let depth = match parent_id {
                    Some(pid) => {
                        let grand = match rec.folders.get(&pid) {
                            Some(p) => p.parent_id,
                            None => return Err(ContractError::FolderNotFound),
                        };
                        proof {
                            Self::lemma_depth_bound(rec.folders@, grand, 1);
                        }
                        Self::compute_folder_depth(&rec.folders, grand, 1)?
                    },
                    None => 0u32,
                };
                (count, depth)
            },
            None => {
                if parent_id.is_some() {
                    return Err(ContractError::FolderNotFound);
                }
                (0usize, 0u32)
            },
        };
        if depth >= MAX_FOLDER_DEPTH {
            return Err(ContractError::FolderDepthExceeded);
        }
        let mut rec = self.take_user(user);
        let ghost r0 = rec;
        let id = match rec.next_folder_id {
            Some(n) => n,
            None => 1,
        };
        let folder = BookmarkFolder { id, owner: user, name, parent_id, created_at: now, updated_at: now };
        rec.folders.insert(id, folder);
        rec.folder_lists.insert(id, Vec::new());
        rec.folder_ids.push(id);
        rec.next_folder_id = Some(id + 1);
        proof {
            assert(rec.folders@ =~= r0.folders@.insert(id, folder));
            assert forall|g: u64| g != id implies #[trigger] list_in(rec.folder_lists@, g) == list_in(r0.folder_lists@, g) by {
                if r0.folder_lists@.contains_key(g) {
                    assert(rec.folder_lists@[g] == r0.folder_lists@[g]);
                }
            }
        }
        self.put_user(user, rec);
        proof {
            assert forall|g: u64| g != id implies #[trigger] self.flist(user, g) == old(self).flist(user, g)
                && self.has_flist(user, g) == old(self).has_flist(user, g) by {
                assert(self.flist(user, g) == list_in(rec.folder_lists@, g));
            }
        }
        proof {
            assert forall|g: u64, q: u64| #[trigger] self.flist(user, g).contains(q) implies old(self).flist(user, g).contains(q) by {
                if g == id {
                    assert(self.flist(user, id) == list_in(rec.folder_lists@, id));
                    assert(self.flist(user, id).len() == 0);
                }
            }
            lemma_wf_bookmarks_grow(old(self), self, user);
        }
        Ok(id)
    }

    /// Deletes one of `user`'s folders; its projects stay bookmarked but are
    /// no longer in a folder.
    #[verifier::spinoff_prover]
    pub fn delete_folder(&mut self, user: Addr, folder_id: u64) -> (r: Result<(), ContractError>)
        requires
            old(self).wf(),
        ensures
            final(self).wf(),
            !old(self).folders(user).contains_key(folder_id) ==> r == Err::<(), ContractError>(ContractError::FolderNotFound)
                && *final(self) == *old(self),
            old(self).folders(user).contains_key(folder_id) ==> {
                let inside = old(self).flist(user, folder_id);
                &&& r is Ok
                &&& final(self).folders(user) == old(self).folders(user).remove(folder_id)
                &&& !final(self).has_flist(user, folder_id)
                &&& forall|g: u64| g != folder_id ==> #[trigger] final(self).flist(user, g) == old(self).flist(user, g)
                    && final(self).has_flist(user, g) == old(self).has_flist(user, g)
                &&& final(self).fids(user) == without(old(self).fids(user), folder_id)
                &&& forall|p: u64| #[trigger] final(self).findex(user).contains_key(p) == (old(self).findex(user).contains_key(p) && !inside.contains(p))
                &&& forall|p: u64| #[trigger] final(self).findex(user).contains_key(p) ==> final(self).findex(user)[p] == old(self).findex(user)[p]
                &&& BookmarkRegistry::same_but(old(self), final(self), user, false, true, true, true, true, false, false, false, false)
            },
    {
        match self.users.get(&user.id) {
            Some(rec) => {
                if rec.folders.get(&folder_id).is_none() {
                    return Err(ContractError::FolderNotFound);
                }
            },
            None => return Err(ContractError::FolderNotFound),
        }
        let mut rec = self.take_user(user);
        let ghost r0 = rec;
        let inside = match rec.folder_lists.get(&folder_id) {
            Some(v) => copy_ids(v),
            None => Vec::new(),
        };
        proof {
            assert(list_in(r0.folder_lists@, folder_id) == old(self).flist(user, folder_id));
            assert(inside@ == list_in(r0.folder_lists@, folder_id));
        }
        let mut i: usize = 0;
        while i < inside.len()
            invariant
                i <= inside@.len(),
                rec.folders == r0.folders,
                rec.folder_lists == r0.folder_lists,
                rec.folder_ids == r0.folder_ids,
                rec.bookmarks == r0.bookmarks,
                rec.smart_folders == r0.smart_folders,
                rec.smart_ids == r0.smart_ids,
                rec.next_folder_id == r0.next_folder_id,
                rec.next_smart_id == r0.next_smart_id,
                forall|p: u64| #[trigger] rec.folder_index@.contains_key(p) == (r0.folder_index@.contains_key(p) && !inside@.take(i as int).contains(p)),
                forall|p: u64| #[trigger] rec.folder_index@.contains_key(p) ==> rec.folder_index@[p] == r0.folder_index@[p],
            decreases inside@.len() - i,
        {
            let pid = inside[i];
            rec.folder_index.remove(&pid);
            proof {
                assert forall|p: u64| #[trigger] rec.folder_index@.contains_key(p) == (r0.folder_index@.contains_key(p) && !inside@.take(i + 1).contains(p)) by {
                    let t0 = inside@.take(i as int);
                    let t1 = inside@.take(i + 1);
                    assert(t1 =~= t0.push(pid));
                    if t0.contains(p) {
                        let j = choose|j: int| 0 <= j < t0.len() && t0[j] == p;
                        assert(t1[j] == p);
                    }
                    if t1.contains(p) && p != pid {
                        let j = choose|j: int| 0 <= j < t1.len() && t1[j] == p;
                        assert(j < t0.len());
                        assert(t0[j] == p);
                    }
                    if p == pid {
                        assert(t1[i as int] == p);
                    }
                }
            }
            i = i + 1;
        }
        proof {
            assert(inside@.take(i as int) =~= inside@);
        }
        rec.folders.remove(&folder_id);
        rec.folder_lists.remove(&folder_id);
        rec.folder_ids = remove_item_u64(&rec.folder_ids, folder_id);
        proof {
            assert forall|g: u64| g != folder_id implies #[trigger] list_in(rec.folder_lists@, g) == list_in(r0.folder_lists@, g) by {
                if r0.folder_lists@.contains_key(g) {
                    assert(rec.folder_lists@[g] == r0.folder_lists@[g]);
                }
            }
        }
        self.put_user(user, rec);
        proof {
            assert forall|g: u64| g != folder_id implies #[trigger] self.flist(user, g) == old(self).flist(user, g)
                && self.has_flist(user, g) == old(self).has_flist(user, g) by {
                assert(self.flist(user, g) == list_in(rec.folder_lists@, g));
            }
            assert(inside@ == old(self).flist(user, folder_id));
            assert(self.findex(user) == rec.folder_index@);
            assert(self.folders(user) =~= old(self).folders(user).remove(folder_id));
            assert(self.bm(user) == old(self).bm(user));
            assert(self.smart(user) == old(self).smart(user));
            assert(self.sids(user) == old(self).sids(user));
            assert(self.nextf(user) == old(self).nextf(user));
            assert(self.nexts(user) == old(self).nexts(user));
        }
        proof {
            lemma_wf_drop_folder(old(self), self, user, folder_id);
        }
        Ok(())
    }

    /// Renames one of `user`'s folders.
    pub fn rename_folder(&mut self, user: Addr, folder_id: u64, new_name: Vec<u8>, now: u64) -> (r: Result<(), ContractError>)
        requires
            old(self).wf(),
        ensures
            final(self).wf(),
            ({
                let err = if name_error(new_name@) is Some {
                    name_error(new_name@)
                } else if !old(self).folders(user).contains_key(folder_id) {
                    Some(ContractError::FolderNotFound)
                } else {
                    None
                };
                &&& err is Some ==> r == Err::<(), ContractError>(err->Some_0) && *final(self) == *old(self)
                &&& err is None ==> {
                    let f = final(self).folders(user)[folder_id];
                    &&& r is Ok
                    &&& final(self).folders(user) == old(self).folders(user).insert(folder_id, f)
                    &&& f.name@ == new_name@ && f.updated_at == now
                    &&& f == (BookmarkFolder { name: f.name, updated_at: now, ..old(self).folders(user)[folder_id] })
                    &&& BookmarkRegistry::same_but(old(self), final(self), user, false, true, false, false, false, false, false, false, false)
                }
            }),
    {
        Self::validate_folder_name(&new_name)?;
        match self.users.get(&user.id) {
            Some(rec) => {
                if rec.folders.get(&folder_id).is_none() {
                    return Err(ContractError::FolderNotFound);
                }
            },
            None => return Err(ContractError::FolderNotFound),
        }
        let mut rec = self.take_user(user);
        let ghost r0 = rec;
        let mut folder = match rec.folders.remove(&folder_id) {
            Some(f) => f,
            None => {
                self.put_user(user, rec);
                return Err(ContractError::FolderNotFound);
            },
        };
        folder.name = new_name;
        folder.updated_at = now;
        rec.folders.insert(folder_id, folder);
        proof {
            assert(rec.folders@ =~= r0.folders@.insert(folder_id, folder));
        }
        self.put_user(user, rec);
        proof {
            assert forall|g: u64| #[trigger] self.flist(user, g) == old(self).flist(user, g)
                && self.has_flist(user, g) == old(self).has_flist(user, g) by {
                assert(self.flist(user, g) == list_in(rec.folder_lists@, g));
            }
        }
        proof {
            lemma_wf_bookmarks_grow(old(self), self, user);
        }
        Ok(())
    }

    /// One of `user`'s folders, if it exists.
    pub fn get_folder(&self, user: Addr, folder_id: u64) -> (r: Option<&BookmarkFolder>)
        ensures
            r.is_some() == self.folders(user).contains_key(folder_id),
            r.is_some() ==> *r.unwrap() == self.folders(user)[folder_id],
    {
        match self.users.get(&user.id) {
            Some(rec) => rec.folders.get(&folder_id),
            None => None,
        }
    }

    /// All of `user`'s folders, in creation order.
    pub fn list_folders(&self, user: Addr) -> (r: Vec<&BookmarkFolder>)
        ensures
            ({
                let fs = existing_folders(self.fids(user), self.folders(user));
                &&& r@.len() == fs.len()
                &&& forall|k: int| 0 <= k < fs.len() ==> *#[trigger] r@[k] == fs[k]
            }),
    {
        let mut out: Vec<&BookmarkFolder> = Vec::new();
        match self.users.get(&user.id) {
            Some(rec) => {
                let mut i: usize = 0;
                while i < rec.folder_ids.len()
                    invariant
                        i <= rec.folder_ids@.len(),
                        self.users@.contains_key(user.id),
                        *rec == self.users@[user.id],
                        ({
                            let fs = existing_folders(rec.folder_ids@.take(i as int), rec.folders@);
                            &&& out@.len() == fs.len()
                            &&& forall|k: int| 0 <= k < fs.len() ==> *#[trigger] out@[k] == fs[k]
                        }),
                    decreases rec.folder_ids@.len() - i,
                {
                    proof {
                        assert(rec.folder_ids@.take(i + 1).drop_last() =~= rec.folder_ids@.take(i as int));
                    }
                    if let Some(f) = rec.folders.get(&rec.folder_ids[i]) {
                        out.push(f);
                    }
                    i = i + 1;
                }
                proof {
                    assert(rec.folder_ids@.take(i as int) =~= rec.folder_ids@);
                }
            },
            None => {},
        }
        out
    }

    /// `user`'s folders directly inside folder `parent_id`, in creation
    /// order.
    pub fn list_child_folders(&self, user: Addr, parent_id: u64) -> (r: Vec<&BookmarkFolder>)
        ensures
            ({
                let fs = existing_folders(self.fids(user), self.folders(user)).filter(|f: BookmarkFolder| f.parent_id == Some(parent_id));
                &&& r@.len() == fs.len()
                &&& forall|k: int| 0 <= k < fs.len() ==> *#[trigger] r@[k] == fs[k]
            }),
    {
        let all = self.list_folders(user);
        let ghost fs_all = existing_folders(self.fids(user), self.folders(user));
        let mut out: Vec<&BookmarkFolder> = Vec::new();
        let mut i: usize = 0;
        while i < all.len()
            invariant
                i <= all@.len() == fs_all.len(),
                forall|k: int| 0 <= k < fs_all.len() ==> *#[trigger] all@[k] == fs_all[k],
                ({
                    let fs = fs_all.take(i as int).filter(|f: BookmarkFolder| f.parent_id == Some(parent_id));
                    &&& out@.len() == fs.len()
                    &&& forall|k: int| 0 <= k < fs.len() ==> *#[trigger] out@[k] == fs[k]
                }),
            decreases all@.len() - i,
        {
            proof {
                assert(fs_all.take(i + 1).drop_last() =~= fs_all.take(i as int));
                reveal_with_fuel(Seq::<_>::filter, 1);
            }
            let f = all[i];
            if f.parent_id == Some(parent_id) {
                out.push(f);
            }
            i = i + 1;
        }
        proof {
            assert(fs_all.take(i as int) =~= fs_all);
        }
        out
    }

    /// The folder a bookmarked project of `user` is in, if any.
    pub fn get_bookmark_folder(&self, project_id: u64, user: Addr) -> (r: Option<u64>)
        ensures
            r == (if self.findex(user).contains_key(project_id) { Some(self.findex(user)[project_id]) } else { None }),
    {
        match self.users.get(&user.id) {
            Some(rec) => match rec.folder_index.get(&project_id) {
                Some(f) => Some(*f),
                None => None,
            },
            None => None,
        }
    }

    /// A page of the projects in one of `user`'s folders.
    pub fn get_folder_bookmarks(&self, user: Addr, folder_id: u64, start_index: u32, limit: u32) -> (r: Vec<u64>)
        ensures
            r@ == page_from(self.flist(user, folder_id), start_index, limit),
    {
        let list = match self.users.get(&user.id) {
            Some(rec) => match rec.folder_lists.get(&folder_id) {
                Some(v) => copy_ids(v),
                None => Vec::new(),
            },
            None => Vec::new(),
        };
        page(&list, start_index, limit)
    }

    /// Moves a bookmarked project of `user` into one of the user's folders,
    /// out of the folder it was in. Moving it to its own folder changes
    /// nothing; a full target folder refuses the move and changes nothing.
    #[verifier::spinoff_prover]
    pub fn move_bookmark_to_folder(&mut self, user: Addr, project_id: u64, folder_id: u64) -> (r: Result<(), ContractError>)
        requires
            old(self).wf(),
        ensures
            final(self).wf(),
            ({
                let ix = old(self).findex(user);
                let moved_out = ix.contains_key(project_id) && ix[project_id] != folder_id;
                let target = old(self).flist(user, folder_id);
                let early = if !old(self).bm(user).contains(project_id) {
                    Some(ContractError::NotBookmarked)
                } else if !old(self).folders(user).contains_key(folder_id) {
                    Some(ContractError::FolderNotFound)
                } else {
                    None
                };
                let same = ix.contains_key(project_id) && ix[project_id] == folder_id;
                let full = target.len() >= MAX_BOOKMARKS_PER_FOLDER;
                &&& early is Some ==> r == Err::<(), ContractError>(early->Some_0) && *final(self) == *old(self)
                &&& early is None && same ==> r is Ok && *final(self) == *old(self)
                &&& early is None && !same && full ==> r == Err::<(), ContractError>(ContractError::CollectionFull)
                    && *final(self) == *old(self)
                &&& early is None && !same && !full ==> {
                    &&& r is Ok
                    &&& moved_out ==> final(self).flist(user, ix[project_id]) == without(old(self).flist(user, ix[project_id]), project_id)
                        && final(self).has_flist(user, ix[project_id])
                    &&& final(self).flist(user, folder_id) == target.push(project_id) && final(self).has_flist(user, folder_id)
                    &&& final(self).findex(user) == ix.insert(project_id, folder_id)
                    &&& forall|g: u64| g != folder_id && !(moved_out && g == ix[project_id]) ==> #[trigger] final(self).flist(user, g) == old(self).flist(user, g)
                        && final(self).has_flist(user, g) == old(self).has_flist(user, g)
                    &&& BookmarkRegistry::same_but(old(self), final(self), user, false, false, false, true, true, false, false, false, false)
                }
            }),
    {
        if !self.is_bookmarked(project_id, user) {
            return Err(ContractError::NotBookmarked);
        }
        let (current, target_len) = match self.users.get(&user.id) {
            Some(rec) => {
                if rec.folders.get(&folder_id).is_none() {
                    return Err(ContractError::FolderNotFound);
                }
                let cur = match rec.folder_index.get(&project_id) {
                    Some(f) => Some(*f),
                    None => None,
                };
                let n = match rec.folder_lists.get(&folder_id) {
                    Some(v) => v.len(),
                    None => 0,
                };
                (cur, n)
            },
            None => return Err(ContractError::FolderNotFound),
        };
        if current == Some(folder_id) {
            return Ok(());
        }
        if target_len >= MAX_BOOKMARKS_PER_FOLDER as usize {
            return Err(ContractError::CollectionFull);
        }
        let mut rec = self.take_user(user);
        let ghost r0 = rec;
        if let Some(old_f) = current {
            let list = match rec.folder_lists.get(&old_f) {
                Some(v) => copy_ids(v),
                None => Vec::new(),
            };
            proof {
                assert(list@ == list_in(r0.folder_lists@, old_f));
            }
            let updated = remove_item_u64(&list, project_id);
            rec.folder_lists.insert(old_f, updated);
        }
        let ghost r1 = rec;
        let mut target = match rec.folder_lists.get(&folder_id) {
            Some(v) => copy_ids(v),
            None => Vec::new(),
        };
        proof {
            assert(target@ == list_in(r0.folder_lists@, folder_id));
            assert(list_in(r0.folder_lists@, folder_id) == old(self).flist(user, folder_id));
        }
        target.push(project_id);
        rec.folder_lists.insert(folder_id, target);
        rec.folder_index.insert(project_id, folder_id);
        self.put_user(user, rec);
        proof {
            assert forall|g: u64| g != folder_id && !(current is Some && g == current->Some_0) implies #[trigger] self.flist(user, g) == old(self).flist(user, g)
                && self.has_flist(user, g) == old(self).has_flist(user, g) by {
                assert(self.flist(user, g) == list_in(rec.folder_lists@, g));
                assert(list_in(r0.folder_lists@, g) == old(self).flist(user, g));
                if r0.folder_lists@.contains_key(g) {
                    assert(rec.folder_lists@[g] == r0.folder_lists@[g]);
                }
            }
            if let Some(old_f) = current {
                assert(self.flist(user, old_f) == list_in(rec.folder_lists@, old_f));
                assert(list_in(r0.folder_lists@, old_f) == old(self).flist(user, old_f));
                assert(rec.folder_lists@[old_f] == r1.folder_lists@[old_f]);
            }
            assert(self.flist(user, folder_id) == list_in(rec.folder_lists@, folder_id));
        }
        proof {
            lemma_wf_move(old(self), self, user, project_id, folder_id);
        }
        Ok(())
    }

    /// Takes a bookmarked project of `user` out of its folder; it stays
    /// bookmarked.
    pub fn remove_bookmark_from_folder(&mut self, user: Addr, project_id: u64) -> (r: Result<(), ContractError>)
        requires
            old(self).wf(),
        ensures
            final(self).wf(),
            ({
                let ix = old(self).findex(user);
                &&& !ix.contains_key(project_id) ==> r == Err::<(), ContractError>(ContractError::FolderNotFound)
                    && *final(self) == *old(self)
                &&& ix.contains_key(project_id) ==> {
                    let f = ix[project_id];
                    &&& r is Ok
                    &&& final(self).findex(user) == ix.remove(project_id)
                    &&& final(self).flist(user, f) == without(old(self).flist(user, f), project_id) && final(self).has_flist(user, f)
                    &&& forall|g: u64| g != f ==> #[trigger] final(self).flist(user, g) == old(self).flist(user, g)
                        && final(self).has_flist(user, g) == old(self).has_flist(user, g)
                    &&& BookmarkRegistry::same_but(old(self), final(self), user, false, false, false, true, true, false, false, false, false)
                }
            }),
    {
        let f = match self.get_bookmark_folder(project_id, user) {
            Some(f) => f,
            None => return Err(ContractError::FolderNotFound),
        };
        let mut rec = self.take_user(user);
        let ghost r0 = rec;
        let list = match rec.folder_lists.get(&f) {
            Some(v) => copy_ids(v),
            None => Vec::new(),
        };
        proof {
            assert(list@ == list_in(r0.folder_lists@, f));
            assert(list_in(r0.folder_lists@, f) == old(self).flist(user, f));
        }
        let updated = remove_item_u64(&list, project_id);
        rec.folder_lists.insert(f, updated);
        rec.folder_index.remove(&project_id);
        self.put_user(user, rec);
        proof {
            assert forall|g: u64| g != f implies #[trigger] self.flist(user, g) == old(self).flist(user, g)
                && self.has_flist(user, g) == old(self).has_flist(user, g) by {
                assert(self.flist(user, g) == list_in(rec.folder_lists@, g));
                assert(list_in(r0.folder_lists@, g) == old(self).flist(user, g));
                if r0.folder_lists@.contains_key(g) {
                    assert(rec.folder_lists@[g] == r0.folder_lists@[g]);
                }
            }
            assert(self.flist(user, f) == list_in(rec.folder_lists@, f));
        }
        proof {
            lemma_wf_unfile(old(self), self, user, project_id, false);
        }
        Ok(())
    }

    /// Creates a smart folder for `user`. Returns its id.
    pub fn create_smart_folder(&mut self, user: Addr, name: Vec<u8>, filter: SmartFolderFilter, now: u64) -> (r: Result<
        u64,
        ContractError,
    >)
        requires
            old(self).wf(),
            old(self).nexts(user) < u64::MAX,
        ensures
            final(self).wf(),
            ({
                let err = if name_error(name@) is Some {
                    name_error(name@)
                } else if old(self).sids(user).len() >= MAX_SMART_FOLDERS_PER_USER {
                    Some(ContractError::MaxSmartFoldersExceeded)
                } else {
                    None
                };
                let id = old(self).nexts(user);
                &&& err is Some ==> r == Err::<u64, ContractError>(err->Some_0) && *final(self) == *old(self)
                &&& err is None ==> {
                    let f = final(self).smart(user)[id];
                    &&& r == Ok::<u64, ContractError>(id)
                    &&& final(self).smart(user) == old(self).smart(user).insert(id, f)
                    &&& f.id == id && f.owner == user && f.name@ == name@ && f.filter == filter
                    &&& f.created_at == now && f.updated_at == now
                    &&& final(self).sids(user) == old(self).sids(user).push(id)
                    &&& final(self).nexts(user) == id + 1
                    &&& BookmarkRegistry::same_but(old(self), final(self), user, false, false, false, false, false, true, true, false, true)
                }
            }),
    {
        Self::validate_folder_name(&name)?;
        let count = match self.users.get(&user.id) {
            Some(rec) => rec.smart_ids.len(),
            None => 0,
        };
        if count >= MAX_SMART_FOLDERS_PER_USER as usize {
            return Err(ContractError::MaxSmartFoldersExceeded);
        }
        let mut rec = self.take_user(user);
        let ghost r0 = rec;
        let id = match rec.next_smart_id {
            Some(n) => n,
            None => 1,
        };
        let sf = SmartFolder { id, owner: user, name, filter, created_at: now, updated_at: now };
        rec.smart_folders.insert(id, sf);
        rec.smart_ids.push(id);
        rec.next_smart_id = Some(id + 1);
        proof {
            assert(rec.smart_folders@ =~= r0.smart_folders@.insert(id, sf));
        }
        self.put_user(user, rec);
        proof {
            assert forall|g: u64| #[trigger] self.flist(user, g) == old(self).flist(user, g)
                && self.has_flist(user, g) == old(self).has_flist(user, g) by {
                assert(self.flist(user, g) == list_in(rec.folder_lists@, g));
            }
        }
        proof {
            lemma_wf_bookmarks_grow(old(self), self, user);
        }
        Ok(id)
    }

    /// Deletes one of `user`'s smart folders.
    pub fn delete_smart_folder(&mut self, user: Addr, smart_folder_id: u64) -> (r: Result<(), ContractError>)
        requires
            old(self).wf(),
        ensures
            final(self).wf(),
            !old(self).smart(user).contains_key(smart_folder_id) ==> r == Err::<(), ContractError>(ContractError::SmartFolderNotFound)
                && *final(self) == *old(self),
            old(self).smart(user).contains_key(smart_folder_id) ==> r is Ok
                && final(self).smart(user) == old(self).smart(user).remove(smart_folder_id)
                && final(self).sids(user) == without(old(self).sids(user), smart_folder_id)
                && BookmarkRegistry::same_but(old(self), final(self), user, false, false, false, false, false, true, true, false, false),
    {
        match self.users.get(&user.id) {
            Some(rec) => {
                if rec.smart_folders.get(&smart_folder_id).is_none() {
                    return Err(ContractError::SmartFolderNotFound);
                }
            },
            None => return Err(ContractError::SmartFolderNotFound),
        }
        let mut rec = self.take_user(user);
        rec.smart_folders.remove(&smart_folder_id);
        rec.smart_ids = remove_item_u64(&rec.smart_ids, smart_folder_id);
        self.put_user(user, rec);
        proof {
            assert forall|g: u64| #[trigger] self.flist(user, g) == old(self).flist(user, g)
                && self.has_flist(user, g) == old(self).has_flist(user, g) by {
                assert(self.flist(user, g) == list_in(rec.folder_lists@, g));
            }
        }
        proof {
            lemma_wf_bookmarks_grow(old(self), self, user);
        }
        Ok(())
    }

    /// One of `user`'s smart folders, if it exists.
    pub fn get_smart_folder(&self, user: Addr, smart_folder_id: u64) -> (r: Option<&SmartFolder>)
        ensures
            r.is_some() == self.smart(user).contains_key(smart_folder_id),
            r.is_some() ==> *r.unwrap() == self.smart(user)[smart_folder_id],
    {
        match self.users.get(&user.id) {
            Some(rec) => rec.smart_folders.get(&smart_folder_id),
            None => None,
        }
    }

    /// All of `user`'s smart folders, in creation order.
    pub fn list_smart_folders(&self, user: Addr) -> (r: Vec<&SmartFolder>)
        ensures
            ({
                let fs = existing_smart(self.sids(user), self.smart(user));
                &&& r@.len() == fs.len()
                &&& forall|k: int| 0 <= k < fs.len() ==> *#[trigger] r@[k] == fs[k]
            }),
    {
        let mut out: Vec<&SmartFolder> = Vec::new();
        match self.users.get(&user.id) {
            Some(rec) => {
                let mut i: usize = 0;
                while i < rec.smart_ids.len()
                    invariant
                        i <= rec.smart_ids@.len(),
                        self.users@.contains_key(user.id),
                        *rec == self.users@[user.id],
                        ({
                            let fs = existing_smart(rec.smart_ids@.take(i as int), rec.smart_folders@);
                            &&& out@.len() == fs.len()
                            &&& forall|k: int| 0 <= k < fs.len() ==> *#[trigger] out@[k] == fs[k]
                        }),
                    decreases rec.smart_ids@.len() - i,
                {
                    proof {
                        assert(rec.smart_ids@.take(i + 1).drop_last() =~= rec.smart_ids@.take(i as int));
                    }
                    if let Some(f) = rec.smart_folders.get(&rec.smart_ids[i]) {
                        out.push(f);
                    }
                    i = i + 1;
                }
                proof {
                    assert(rec.smart_ids@.take(i as int) =~= rec.smart_ids@);
                }
            },
            None => {},
        }
        out
    }

    /// Whether a project meets every criterion the filter sets; a filter
    /// without criteria matches every project.
    pub fn project_matches_filter(project_id: u64, filter: &SmartFolderFilter, projects: &ProjectBook) -> (r: bool)
        ensures
            r == filter_matches(*filter, project_id, *projects),
    {
        let is_status = match filter.verification_status {
            VerificationStatusFilter::Is(_) => true,
            VerificationStatusFilter::Any => false,
        };
        if !(filter.category.is_some() || filter.tag.is_some() || is_status) {
            return true;
        }
        let project = match projects.get_project(project_id) {
            Some(p) => p,
            None => return false,
        };
        if let Some(cat) = &filter.category {
            if !bytes_eq(&project.category, cat) {
                return false;
            }
        }
        if let VerificationStatusFilter::Is(vs) = filter.verification_status {
            if project.verification_status != vs {
                return false;
            }
        }
        if let Some(tag) = &filter.tag {
            match &project.tags {
                Some(tags) => {
                    let mut found = false;
                    let mut i: usize = 0;
                    while i < tags.len()
                        invariant
                            i <= tags@.len(),
                            found == exists|k: int| 0 <= k < i && (#[trigger] tags@[k])@ == tag@,
                        decreases tags@.len() - i,
                    {
                        if bytes_eq(&tags[i], tag) {
                            found = true;
                        }
                        i = i + 1;
                    }
                    if !found {
                        return false;
                    }
                },
                None => return false,
            }
        }
        true
    }

    /// A page of the bookmarks of `user` that one of the user's smart
    /// folders selects, in bookmark order.
    pub fn get_smart_folder_bookmarks(&self, user: Addr, smart_folder_id: u64, start_index: u32, limit: u32, projects: &ProjectBook) -> (r:
        Result<Vec<u64>, ContractError>)
        ensures
            !self.smart(user).contains_key(smart_folder_id) ==> r == Err::<Vec<u64>, ContractError>(ContractError::SmartFolderNotFound),
            self.smart(user).contains_key(smart_folder_id) ==> (r matches Ok(v) && v@ == page_from(
                self.bm(user).filter(|pid: u64| filter_matches(self.smart(user)[smart_folder_id].filter, pid, *projects)),
                start_index,
                limit,
            )),
    {
        let rec = match self.users.get(&user.id) {
            Some(rec) => rec,
            None => return Err(ContractError::SmartFolderNotFound),
        };
        let sf = match rec.smart_folders.get(&smart_folder_id) {
            Some(sf) => sf,
            None => return Err(ContractError::SmartFolderNotFound),
        };
        let mut matched: Vec<u64> = Vec::new();
        let mut i: usize = 0;
        while i < rec.bookmarks.len()
            invariant
                i <= rec.bookmarks@.len(),
                matched@ == rec.bookmarks@.take(i as int).filter(|pid: u64| filter_matches(sf.filter, pid, *projects)),
            decreases rec.bookmarks@.len() - i,
        {
            proof {
                assert(rec.bookmarks@.take(i + 1).drop_last() =~= rec.bookmarks@.take(i as int));
                reveal_with_fuel(Seq::<_>::filter, 1);
            }
            let pid = rec.bookmarks[i];
            if Self::project_matches_filter(pid, &sf.filter, projects) {
                matched.push(pid);
            }
            i = i + 1;
        }
        proof {
            assert(rec.bookmarks@.take(i as int) =~= rec.bookmarks@);
        }
        Ok(page(&matched, start_index, limit))
    }
}

/// Other users keep the invariant when only `user` changed, so it holds
/// everywhere once it holds for `user`.
proof fn lemma_wf_from_user(old: &BookmarkRegistry, new: &BookmarkRegistry, user: Addr)
    requires
        old.wf(),
        BookmarkRegistry::others_same(old, new, user),
        new.filed_ok(user),
    ensures
        new.wf(),
{
    assert forall|u: Addr| #[trigger] new.filed_ok(u) by {
        if u.id != user.id {
            assert(old.filed_ok(u));
            assert(new.has_user(u) == old.has_user(u));
            if old.has_user(u) {
                assert(new.users@[u.id] == old.users@[u.id]);
            }
            assert(new.bm(u) == old.bm(u));
            assert(new.findex(u) == old.findex(u));
            assert forall|f: u64| #[trigger] new.flist(u, f) == old.flist(u, f) by {}
        } else {
            assert(u == user);
        }
    }
}

/// The invariant survives a change that leaves `user`'s index alone, only
/// adds bookmarks, and only takes projects out of folder lists.
proof fn lemma_wf_bookmarks_grow(old: &BookmarkRegistry, new: &BookmarkRegistry, user: Addr)
    requires
        old.wf(),
        BookmarkRegistry::others_same(old, new, user),
        forall|p: u64| old.bm(user).contains(p) ==> #[trigger] new.bm(user).contains(p),
        new.findex(user) == old.findex(user),
        forall|f: u64, p: u64| #[trigger] new.flist(user, f).contains(p) ==> old.flist(user, f).contains(p),
    ensures
        new.wf(),
{
    assert(old.filed_ok(user));
    assert forall|p: u64| #[trigger] new.findex(user).contains_key(p) implies new.bm(user).contains(p) by {
        assert(old.bm(user).contains(p));
    }
    lemma_wf_from_user(old, new, user);
}

/// The invariant survives taking project `p` out of its folder `f0`
/// (and, when `unbookmark`, out of the bookmarks too).
proof fn lemma_wf_unfile(old: &BookmarkRegistry, new: &BookmarkRegistry, user: Addr, p: u64, unbookmark: bool)
    requires
        old.wf(),
        BookmarkRegistry::others_same(old, new, user),
        new.bm(user) == (if unbookmark { without(old.bm(user), p) } else { old.bm(user) }),
        old.findex(user).contains_key(p) ==> {
            let f0 = old.findex(user)[p];
            &&& new.findex(user) == old.findex(user).remove(p)
            &&& new.flist(user, f0) == without(old.flist(user, f0), p)
            &&& forall|g: u64| g != f0 ==> #[trigger] new.flist(user, g) == old.flist(user, g)
        },
        !old.findex(user).contains_key(p) ==> new.findex(user) == old.findex(user)
            && forall|g: u64| #[trigger] new.flist(user, g) == old.flist(user, g),
    ensures
        new.wf(),
{
    assert(old.filed_ok(user));
    assert forall|q: u64| #[trigger] new.findex(user).contains_key(q) implies new.bm(user).contains(q) by {
        assert(old.findex(user).contains_key(q));
        assert(old.bm(user).contains(q));
        if unbookmark {
            lemma_without_contains(old.bm(user), p, q);
        }
    }
    assert forall|g: u64, q: u64| #[trigger] new.flist(user, g).contains(q) implies new.findex(user).contains_key(q)
        && new.findex(user)[q] == g by {
        if old.findex(user).contains_key(p) {
            let f0 = old.findex(user)[p];
            if g == f0 {
                lemma_without_contains(old.flist(user, f0), p, q);
                assert(old.flist(user, g).contains(q));
            } else {
                assert(old.flist(user, g).contains(q));
                assert(old.findex(user)[q] == g);
            }
        } else {
            assert(old.flist(user, g).contains(q));
        }
    }
    lemma_wf_from_user(old, new, user);
}

/// The invariant survives moving bookmarked project `p` into folder `t`,
/// out of the folder it was in.
proof fn lemma_wf_move(old: &BookmarkRegistry, new: &BookmarkRegistry, user: Addr, p: u64, t: u64)
    requires
        old.wf(),
        BookmarkRegistry::others_same(old, new, user),
        old.bm(user).contains(p),
        !(old.findex(user).contains_key(p) && old.findex(user)[p] == t),
        new.bm(user) == old.bm(user),
        new.findex(user) == old.findex(user).insert(p, t),
        new.flist(user, t) == old.flist(user, t).push(p),
        old.findex(user).contains_key(p) ==> new.flist(user, old.findex(user)[p]) == without(
            old.flist(user, old.findex(user)[p]),
            p,
        ),
        forall|g: u64| g != t && !(old.findex(user).contains_key(p) && g == old.findex(user)[p])
            ==> #[trigger] new.flist(user, g) == old.flist(user, g),
    ensures
        new.wf(),
{
    assert(old.filed_ok(user));
    assert forall|q: u64| #[trigger] new.findex(user).contains_key(q) implies new.bm(user).contains(q) by {
        if q != p {
            assert(old.findex(user).contains_key(q));
        }
    }
    assert forall|g: u64, q: u64| #[trigger] new.flist(user, g).contains(q) implies new.findex(user).contains_key(q)
        && new.findex(user)[q] == g by {
        let ix = old.findex(user);
        if g == t {
            let l = old.flist(user, t);
            if q != p {
                let i = choose|i: int| 0 <= i < l.push(p).len() && l.push(p)[i] == q;
                assert(i < l.len());
                assert(l.contains(q));
            }
        } else if ix.contains_key(p) && g == ix[p] {
            lemma_without_contains(old.flist(user, g), p, q);
            assert(old.flist(user, g).contains(q));
        } else {
            assert(old.flist(user, g).contains(q));
            assert(ix[q] == g);
        }
    }
    lemma_wf_from_user(old, new, user);
}

/// The invariant survives deleting folder `f`: its projects leave the
/// index and its list goes.
proof fn lemma_wf_drop_folder(old: &BookmarkRegistry, new: &BookmarkRegistry, user: Addr, f: u64)
    requires
        old.wf(),
        BookmarkRegistry::others_same(old, new, user),
        new.bm(user) == old.bm(user),
        !new.has_flist(user, f),
        forall|g: u64| g != f ==> #[trigger] new.flist(user, g) == old.flist(user, g),
        forall|p: u64| #[trigger] new.findex(user).contains_key(p) == (old.findex(user).contains_key(p)
            && !old.flist(user, f).contains(p)),
        forall|p: u64| #[trigger] new.findex(user).contains_key(p) ==> new.findex(user)[p] == old.findex(user)[p],
    ensures
        new.wf(),
{
    assert(old.filed_ok(user));
    assert forall|q: u64| #[trigger] new.findex(user).contains_key(q) implies new.bm(user).contains(q) by {
        assert(old.findex(user).contains_key(q));
    }
    assert forall|g: u64, q: u64| #[trigger] new.flist(user, g).contains(q) implies new.findex(user).contains_key(q)
        && new.findex(user)[q] == g by {
        if g == f {
            assert(new.flist(user, f) == Seq::<u64>::empty());
        } else {
            assert(old.flist(user, g).contains(q));
            assert(old.findex(user)[q] == g);
            if old.flist(user, f).contains(q) {
                assert(old.findex(user)[q] == f);
            }
        }
    }
    lemma_wf_from_user(old, new, user);
}

/// A tag criterion is met exactly when one of the project's tags, at any
/// position in its list, equals the filter's tag: a filter that sets only a
/// tag selects a project exactly when the project exists and carries the tag.
pub proof fn lemma_tag_filter_matches_any_position(f: SmartFolderFilter, pid: u64, projects: ProjectBook)
    requires
        f.category is None,
        f.verification_status is Any,
        f.tag is Some,
    ensures
        filter_matches(f, pid, projects) <==> {
            &&& 1 <= pid <= projects.projects@.len()
            &&& projects.projects@[pid - 1].tags is Some
            &&& exists|i: int|
                0 <= i < projects.projects@[pid - 1].tags->Some_0@.len()
                    && (#[trigger] projects.projects@[pid - 1].tags->Some_0@[i])@ == f.tag->Some_0@
        },
{
}

/// The filter that keeps only the category criterion of `f`.
pub open spec fn category_part(f: SmartFolderFilter) -> SmartFolderFilter {
    SmartFolderFilter { category: f.category, tag: None, verification_status: VerificationStatusFilter::Any }
}

/// The filter that keeps only the tag criterion of `f`.
pub open spec fn tag_part(f: SmartFolderFilter) -> SmartFolderFilter {
    SmartFolderFilter { category: None, tag: f.tag, verification_status: VerificationStatusFilter::Any }
}

/// The filter that keeps only the verification-status criterion of `f`.
pub open spec fn status_part(f: SmartFolderFilter) -> SmartFolderFilter {
    SmartFolderFilter { category: None, tag: None, verification_status: f.verification_status }
}

/// A category criterion is met exactly when the project exists and its
/// category equals the filter's, byte for byte; a status criterion exactly
/// when the project exists and has that verification status. A filter with
/// several criteria matches exactly when the project meets each of them; a
/// filter with none matches every id.
pub proof fn lemma_filter_criteria(f: SmartFolderFilter, pid: u64, projects: ProjectBook)
    ensures
        f.category is Some ==> (filter_matches(category_part(f), pid, projects) <==> (1 <= pid <= projects.projects@.len()
            && projects.projects@[pid - 1].category@ == f.category->Some_0@)),
        f.verification_status is Is ==> (filter_matches(status_part(f), pid, projects) <==> (1 <= pid
            <= projects.projects@.len() && projects.projects@[pid - 1].verification_status
            == f.verification_status->Is_0)),
        f.category is None && f.tag is None && f.verification_status is Any ==> filter_matches(f, pid, projects),
        !(f.category is None && f.tag is None && f.verification_status is Any) ==> (filter_matches(f, pid, projects) <==> {
            &&& (f.category is Some ==> filter_matches(category_part(f), pid, projects))
            &&& (f.tag is Some ==> filter_matches(tag_part(f), pid, projects))
            &&& (f.verification_status is Is ==> filter_matches(status_part(f), pid, projects))
        }),
{
}

} // verus!
