//! A hierarchy of project categories with per-category project statistics.
//!
//! Categories form a forest at most `MAX_CATEGORY_HIERARCHY_DEPTH` levels
//! deep. Names are unique up to ASCII case. Deleting a category can move its
//! projects and children under another category.
use vstd::prelude::*;
use std::collections::HashMap;
use crate::admin_manager::AdminManager;
use crate::constants::{MAX_CATEGORY_LEN, MAX_PAGE_LIMIT};
use crate::types::{Addr, ContractError, ProjectBook};
use crate::utils::{
    blank, bytes_eq, copy_ids, is_blank, normalize, normalize_name, without,
};

verus! {

broadcast use vstd::std_specs::hash::group_hash_axioms;

pub const MAX_CATEGORY_HIERARCHY_DEPTH: u32 = 5;
pub const MAX_CATEGORY_CHILDREN: u32 = 50;
pub const MAX_CATEGORY_DESCRIPTION_LEN: usize = 512;
pub const MAX_PROJECT_CATEGORIES: u32 = 200;

/// A category of projects.
pub struct ProjectCategory {
    pub id: u64,
    pub name: Vec<u8>,
    pub description: Vec<u8>,
    pub parent_id: Option<u64>,
    pub active: bool,
    pub created_at: u64,
    pub updated_at: u64,
}

/// A category's fields as plain values.
pub open spec fn category_view(c: ProjectCategory) -> (u64, Seq<u8>, Seq<u8>, Option<u64>, bool, u64, u64) {
    (c.id, c.name@, c.description@, c.parent_id, c.active, c.created_at, c.updated_at)
}

/// Project counts of a category and of its sub-hierarchy.
#[derive(Clone, Copy, Debug, PartialEq, Eq, Structural)]
pub struct ProjectCategoryStats {
    pub direct_project_count: u64,
    pub direct_active_project_count: u64,
    pub direct_child_count: u64,
    pub descendant_project_count: u64,
    pub hierarchy_active_project_count: u64,
}

/// What deleting a category did.
#[derive(Clone, Copy, Debug, PartialEq, Eq, Structural)]
pub struct ProjectCategoryMigrationResult {
    pub deleted_category_id: u64,
    pub migrated_project_count: u64,
    pub reparented_child_count: u32,
    pub migration_target_id: Option<u64>,
}

/// All-zero statistics.
pub open spec fn spec_empty_stats() -> ProjectCategoryStats {
    ProjectCategoryStats {
        direct_project_count: 0,
        direct_active_project_count: 0,
        direct_child_count: 0,
        descendant_project_count: 0,
        hierarchy_active_project_count: 0,
    }
}

/// The category state: records by id, child lists, statistics, the list of
/// ids in creation order and the last id handed out.
pub struct CategoryRegistry {
    pub categories: HashMap<u64, ProjectCategory>,
    pub children: HashMap<u64, Vec<u64>>,
    pub stats: HashMap<u64, ProjectCategoryStats>,
    pub category_list: Vec<u64>,
    pub last_id: u64,
}

/// The children recorded for `id` in a child map.
pub open spec fn children_in(m: Map<u64, Vec<u64>>, id: u64) -> Seq<u64> {
    if m.contains_key(id) {
        m[id]@
    } else {
        Seq::empty()
    }
}

/// `cats` with every listed child that exists moved under `migrate_to`
/// and stamped with `now`.
pub open spec fn reparent_map(
    cats: Map<u64, ProjectCategory>,
    kids: Seq<u64>,
    migrate_to: Option<u64>,
    now: u64,
) -> Map<u64, ProjectCategory> {
    Map::new(
        |k: u64| cats.contains_key(k),
        |k: u64| if kids.contains(k) {
            ProjectCategory { parent_id: migrate_to, updated_at: now, ..cats[k] }
        } else {
            cats[k]
        },
    )
}

/// How many of `kids` exist in `cats`, capped at `u32::MAX`.
pub open spec fn count_existing(kids: Seq<u64>, cats: Map<u64, ProjectCategory>) -> u32
    decreases kids.len(),
{
    if kids.len() == 0 {
        0
    } else {
        let rest = count_existing(kids.drop_last(), cats);
        if cats.contains_key(kids.last()) {
            if rest == u32::MAX { u32::MAX } else { (rest + 1) as u32 }
        } else {
            rest
        }
    }
}

/// `a + b`, capped at `u64::MAX`.
pub open spec fn sat_add64(a: u64, b: u64) -> u64 {
    if a + b > u64::MAX { u64::MAX } else { (a + b) as u64 }
}

/// The records of the listed ids that exist, in list order.
pub open spec fn existing_records(ids: Seq<u64>, cats: Map<u64, ProjectCategory>) -> Seq<ProjectCategory>
    decreases ids.len(),
{
    if ids.len() == 0 {
        Seq::empty()
    } else {
        let rest = existing_records(ids.drop_last(), cats);
        if cats.contains_key(ids.last()) { rest.push(cats[ids.last()]) } else { rest }
    }
}

/// The larger of two numbers.
pub open spec fn max_u32(a: u32, b: u32) -> u32 {
    if a >= b { a } else { b }
}

/// The errors of the name check: empty or blank names, names over the
/// length limit.
pub open spec fn name_error(name: Seq<u8>) -> Option<ContractError> {
    if name.len() == 0 || is_blank(name) {
        Some(ContractError::InvalidProjectCategory)
    } else if name.len() > MAX_CATEGORY_LEN {
        Some(ContractError::ProjectCategoryTooLong)
    } else {
        None
    }
}

impl CategoryRegistry {
    pub fn new() -> (r: CategoryRegistry)
        ensures
            r.wf(),
            r.category_list@.len() == 0,
            r.categories@ == Map::<u64, ProjectCategory>::empty(),
    {
        CategoryRegistry {
            categories: HashMap::new(),
            children: HashMap::new(),
            stats: HashMap::new(),
            category_list: Vec::new(),
            last_id: 0,
        }
    }

    /// The listed ids are exactly the stored categories, each once, every
    /// category is stored under its own id, and no two categories have names
    /// that normalize alike.
    pub open spec fn wf(&self) -> bool {
        &&& crate::utils::no_dups(self.category_list@)
        &&& forall|a: u64, b: u64| #[trigger] self.categories@.contains_key(a) && #[trigger] self.categories@.contains_key(b)
            && a != b ==> normalize_name(self.categories@[a].name@) != normalize_name(self.categories@[b].name@)
        &&& forall|id: u64| #[trigger] self.categories@.contains_key(id) <==> self.category_list@.contains(id)
        &&& forall|id: u64| #[trigger] self.categories@.contains_key(id) ==> self.categories@[id].id == id
        &&& forall|id: u64| #[trigger] self.categories@.contains_key(id) ==> id <= self.last_id
        &&& self.category_list@.len() <= u32::MAX
    }

    /// The parent of `id`, if `id` is a category with one.
    pub open spec fn parent_of(&self, id: u64) -> Option<u64> {
        if self.categories@.contains_key(id) {
            self.categories@[id].parent_id
        } else {
            None
        }
    }

    /// The children recorded for `id`.
    pub open spec fn children_of(&self, id: u64) -> Seq<u64> {
        children_in(self.children@, id)
    }

    /// The number of levels from `cursor` up to its root, counting from
    /// `depth` levels already walked; `None` once the depth limit is hit.
    pub open spec fn depth_from(&self, cursor: u64, depth: u32) -> Option<u32>
        decreases MAX_CATEGORY_HIERARCHY_DEPTH - depth,
    {
        if depth >= MAX_CATEGORY_HIERARCHY_DEPTH {
            None
        } else {
            match self.parent_of(cursor) {
                Some(p) => self.depth_from(p, (depth + 1) as u32),
                None => Some((depth + 1) as u32),
            }
        }
    }

    /// The level of `id` in its tree (a root is at level 1), if within the
    /// depth limit.
    pub open spec fn spec_depth(&self, id: u64) -> Option<u32> {
        self.depth_from(id, 0)
    }

    /// Whether `ancestor` is reached from `cursor` within `steps` steps up
    /// the parent chain (`cursor` itself counts).
    pub open spec fn reaches(&self, cursor: u64, ancestor: u64, steps: nat) -> bool
        decreases steps,
    {
        if steps == 0 {
            false
        } else if cursor == ancestor {
            true
        } else {
            match self.parent_of(cursor) {
                Some(p) => self.reaches(p, ancestor, (steps - 1) as nat),
                None => false,
            }
        }
    }

    /// Whether `candidate` is `ancestor` or lies below it, looking at most
    /// `MAX_CATEGORY_HIERARCHY_DEPTH` levels up.
    pub open spec fn spec_is_descendant(&self, candidate: u64, ancestor: u64) -> bool {
        self.reaches(candidate, ancestor, MAX_CATEGORY_HIERARCHY_DEPTH as nat)
    }

    /// The deepest level reached below the first `n` of `kids`, whose parent
    /// sits at level `d`; `d` itself when there are none.
    pub open spec fn kids_height(&self, kids: Seq<u64>, d: u32, n: nat) -> u32
        decreases MAX_CATEGORY_HIERARCHY_DEPTH - d, n,
    {
        if n == 0 || n > kids.len() || d >= MAX_CATEGORY_HIERARCHY_DEPTH {
            d
        } else {
            let c = kids[n - 1];
            let ch = if d + 1 >= MAX_CATEGORY_HIERARCHY_DEPTH {
                (d + 1) as u32
            } else {
                self.kids_height(self.children_of(c), (d + 1) as u32, self.children_of(c).len())
            };
            max_u32(self.kids_height(kids, d, (n - 1) as nat), ch)
        }
    }

    /// The deepest level of the subtree under `id`, with `id` at level `d`,
    /// capped at the depth limit.
    pub open spec fn spec_subtree_height(&self, id: u64, d: u32) -> u32 {
        if d >= MAX_CATEGORY_HIERARCHY_DEPTH {
            d
        } else {
            self.kids_height(self.children_of(id), d, self.children_of(id).len())
        }
    }

    /// The error, if any, of placing category `category_id` (or a new
    /// category when `None`) under `parent_id`.
    pub open spec fn parent_error(&self, category_id: Option<u64>, parent_id: Option<u64>) -> Option<
        ContractError,
    > {
        match parent_id {
            None => None,
            Some(pid) => if category_id == Some(pid) {
                Some(ContractError::ProjectCategoryHierarchyInvalid)
            } else if !self.categories@.contains_key(pid) {
                Some(ContractError::ProjectCategoryNotFound)
            } else if !self.categories@[pid].active {
                Some(ContractError::ProjectCategoryInactive)
            } else if category_id is Some && self.spec_is_descendant(pid, category_id->Some_0) {
                Some(ContractError::ProjectCategoryHierarchyInvalid)
            } else if self.spec_depth(pid) is None {
                Some(ContractError::ProjectCategoryHierarchyInvalid)
            } else {
                let h = match category_id {
                    Some(c) => self.spec_subtree_height(c, 1),
                    None => 1,
                };
                if self.spec_depth(pid)->Some_0 + h > MAX_CATEGORY_HIERARCHY_DEPTH {
                    Some(ContractError::ProjectCategoryHierarchyInvalid)
                } else {
                    None
                }
            },
        }
    }

    /// Whether some listed category other than `exclude` has a name that
    /// normalizes to `normalized`.
    pub open spec fn name_taken(&self, normalized: Seq<u8>, exclude: Option<u64>) -> bool {
        exists|i: int|
            0 <= i < self.category_list@.len() && Some(#[trigger] self.category_list@[i]) != exclude
                && self.categories@.contains_key(self.category_list@[i])
                && normalize_name(self.categories@[self.category_list@[i]].name@) == normalized
    }

    /// All-zero statistics.
    pub fn empty_stats() -> (s: ProjectCategoryStats)
        ensures
            s == spec_empty_stats(),
    {
        ProjectCategoryStats {
            direct_project_count: 0,
            direct_active_project_count: 0,
            direct_child_count: 0,
            descendant_project_count: 0,
            hierarchy_active_project_count: 0,
        }
    }

    /// Whether `parent_id` can take `additional` more children.
    pub open spec fn has_capacity(&self, parent_id: u64, additional: nat) -> bool {
        self.children_of(parent_id).len() + additional <= MAX_CATEGORY_CHILDREN
    }

    fn ensure_child_capacity(&self, parent_id: u64, additional: u32) -> (r: Result<(), ContractError>)
        ensures
            r is Ok == self.has_capacity(parent_id, additional as nat),
            r is Err ==> r == Err::<(), ContractError>(ContractError::ProjectCategoryHierarchyInvalid),
    {
        let n = self.child_count(parent_id);
        if n as u128 + additional as u128 > MAX_CATEGORY_CHILDREN as u128 {
            return Err(ContractError::ProjectCategoryHierarchyInvalid);
        }
        Ok(())
    }

    /// The child list of `parent_id` with `child_id` appended unless present.
    pub open spec fn appended_children(&self, parent_id: u64, child_id: u64) -> Seq<u64> {
        if self.children_of(parent_id).contains(child_id) {
            self.children_of(parent_id)
        } else {
            self.children_of(parent_id).push(child_id)
        }
    }

    /// Records `child_id` as a child of `parent_id`; the capacity was checked.
    fn append_child(&mut self, parent_id: u64, child_id: u64)
        requires
            old(self).children_of(parent_id).contains(child_id) || old(self).has_capacity(parent_id, 1),
        ensures
            final(self).children@.contains_key(parent_id),
            final(self).children_of(parent_id) == old(self).appended_children(parent_id, child_id),
            forall|k: u64| k != parent_id ==> #[trigger] final(self).children_of(k) == old(self).children_of(k),
            final(self).children@.dom() == old(self).children@.dom().insert(parent_id),
            final(self).categories == old(self).categories,
            final(self).stats == old(self).stats,
            final(self).category_list == old(self).category_list,
            final(self).last_id == old(self).last_id,
    {
        let mut kids = self.child_ids(parent_id);
        if !crate::utils::contains_u64(&kids, child_id) {
            kids.push(child_id);
        }
        self.children.insert(parent_id, kids);
        proof {
            assert forall|k: u64| k != parent_id implies #[trigger] self.children_of(k) == old(self).children_of(k) by {
                if old(self).children@.contains_key(k) {
                    assert(self.children@[k] == old(self).children@[k]);
                }
            }
        }
    }

    /// The child list of `parent_id` without `child_id`.
    pub open spec fn removed_children(&self, parent_id: u64, child_id: u64) -> Seq<u64> {
        without(self.children_of(parent_id), child_id)
    }

    /// Drops `child_id` from the children of `parent_id`; an emptied list is
    /// removed.
    fn remove_child(&mut self, parent_id: u64, child_id: u64)
        ensures
            final(self).children_of(parent_id) == old(self).removed_children(parent_id, child_id),
            final(self).children@.contains_key(parent_id) == (old(self).removed_children(parent_id, child_id).len() > 0),
            forall|k: u64| k != parent_id ==> #[trigger] final(self).children_of(k) == old(self).children_of(k),
            forall|k: u64| k != parent_id ==> #[trigger] final(self).children@.contains_key(k) == old(self).children@.contains_key(k),
            final(self).categories == old(self).categories,
            final(self).stats == old(self).stats,
            final(self).category_list == old(self).category_list,
            final(self).last_id == old(self).last_id,
    {
        let kids = self.child_ids(parent_id);
        let remaining = crate::utils::remove_item_u64(&kids, child_id);
        if remaining.len() == 0 {
            self.children.remove(&parent_id);
        } else {
            self.children.insert(parent_id, remaining);
        }
        proof {
            assert forall|k: u64| k != parent_id implies #[trigger] self.children_of(k) == old(self).children_of(k) by {
                if old(self).children@.contains_key(k) {
                    assert(self.children@[k] == old(self).children@[k]);
                }
            }
            if remaining@.len() == 0 {
                assert(self.children_of(parent_id) =~= remaining@);
            }
        }
    }

    /// Creates a category on the word of an administrator. Its statistics
    /// start from the projects already filed under the exact name.
    pub fn create_category(
        &mut self,
        admin: Addr,
        name: Vec<u8>,
        description: Vec<u8>,
        parent_id: Option<u64>,
        now: u64,
        admins: &AdminManager,
        projects: &ProjectBook,
    ) -> (r: Result<ProjectCategory, ContractError>)
        requires
            old(self).wf(),
            old(self).last_id < u64::MAX,
        ensures
            final(self).wf(),
            ({
                let e = if !admins.spec_is_admin(admin) {
                    Some(ContractError::AdminOnly)
                } else if name_error(name@) is Some {
                    name_error(name@)
                } else if description@.len() > MAX_CATEGORY_DESCRIPTION_LEN {
                    Some(ContractError::InvalidInput)
                } else if old(self).name_taken(normalize_name(name@), None) {
                    Some(ContractError::ProjectCategoryAlreadyExists)
                } else if old(self).category_list@.len() >= MAX_PROJECT_CATEGORIES {
                    Some(ContractError::InvalidInput)
                } else if old(self).parent_error(None, parent_id) is Some {
                    old(self).parent_error(None, parent_id)
                } else if parent_id is Some && !old(self).has_capacity(parent_id->Some_0, 1) {
                    Some(ContractError::ProjectCategoryHierarchyInvalid)
                } else {
                    None
                };
                &&& e is Some ==> r == Err::<ProjectCategory, ContractError>(e->Some_0)
                &&& e is None ==> r is Ok
            }),
            r is Err ==> *final(self) == *old(self),
            r is Ok ==> {
                let id = r->Ok_0.id;
                let c = final(self).categories@[id];
                &&& category_view(r->Ok_0) == category_view(c)
                &&& final(self).first_named(normalize_name(name@)) == Some(id)
                &&& id == old(self).last_id + 1
                &&& final(self).last_id == id
                &&& !old(self).categories@.contains_key(id)
                &&& final(self).categories@.dom() == old(self).categories@.dom().insert(id)
                &&& forall|k: u64| k != id && old(self).categories@.contains_key(k) ==> #[trigger] final(self).categories@[k] == old(self).categories@[k]
                &&& c.id == id && c.name@ == name@ && c.description@ == description@
                &&& c.parent_id == parent_id && c.active && c.created_at == now && c.updated_at == now
                &&& final(self).category_list@ == old(self).category_list@.push(id)
                &&& match parent_id {
                    Some(p) => final(self).children_of(p) == old(self).appended_children(p, id)
                        && forall|k: u64| k != p ==> #[trigger] final(self).children_of(k) == old(self).children_of(k),
                    None => final(self).children == old(self).children,
                }
                &&& final(self).stats@ == old(self).stats@.insert(id, ProjectCategoryStats {
                    direct_project_count: crate::types::ids_in_category(projects.projects@, name@).len() as u64,
                    direct_active_project_count: crate::types::active_in_category(projects.projects@, name@) as u64,
                    ..spec_empty_stats()
                })
            },
    {
        admins.require_admin(admin)?;
        let normalized = Self::validate_name(&name)?;
        if description.len() > MAX_CATEGORY_DESCRIPTION_LEN {
            return Err(ContractError::InvalidInput);
        }
        if self.find_name(&normalized, None) {
            return Err(ContractError::ProjectCategoryAlreadyExists);
        }
        if self.category_list.len() as u64 >= MAX_PROJECT_CATEGORIES as u64 {
            return Err(ContractError::InvalidInput);
        }
        self.validate_parent(None, parent_id)?;
        if let Some(parent_id) = parent_id {
            self.ensure_child_capacity(parent_id, 1)?;
        }
        let id = self.last_id.saturating_add(1);
        self.last_id = id;
        if let Some(parent_id) = parent_id {
            self.append_child(parent_id, id);
            proof {
                assert forall|k: u64| k != parent_id implies #[trigger] children_in(self.children@, k)
                    == old(self).children_of(k) by {
                    assert(self.children_of(k) == old(self).children_of(k));
                }
            }
        }
        let ghost mid = self.children;
        let (total, active) = projects.count_in_category(&name);
        let mut stats = Self::empty_stats();
        stats.direct_project_count = total;
        stats.direct_active_project_count = active;
        let created = ProjectCategory {
            id,
            name: crate::utils::copy_text(&name),
            description: crate::utils::copy_text(&description),
            parent_id,
            active: true,
            created_at: now,
            updated_at: now,
        };
        let category = ProjectCategory {
            id,
            name,
            description,
            parent_id,
            active: true,
            created_at: now,
            updated_at: now,
        };
        proof {
            assert(!old(self).categories@.contains_key(id));
            assert(!old(self).category_list@.contains(id));
        }
        self.categories.insert(id, category);
        self.category_list.push(id);
        self.stats.insert(id, stats);
        proof {
            assert(self.children == mid);
            if let Some(p) = parent_id {
                assert forall|k: u64| k != p implies #[trigger] self.children_of(k) == old(self).children_of(k) by {
                    assert(children_in(mid@, k) == old(self).children_of(k));
                }
            }
            let l = self.category_list@;
            assert forall|i: int, j: int| 0 <= i < l.len() && 0 <= j < l.len() && i != j implies l[i] != l[j] by {
                if i == l.len() - 1 && l[j] == id {
                    assert(old(self).category_list@[j] == id);
                }
                if j == l.len() - 1 && l[i] == id {
                    assert(old(self).category_list@[i] == id);
                }
            }
            assert forall|k: u64| #[trigger] self.categories@.contains_key(k) <==> self.category_list@.contains(k) by {
                if k != id {
                    if old(self).category_list@.contains(k) {
                        let i = choose|i: int| 0 <= i < old(self).category_list@.len() && old(self).category_list@[i] == k;
                        assert(self.category_list@[i] == k);
                    }
                    if self.category_list@.contains(k) {
                        let i = choose|i: int| 0 <= i < self.category_list@.len() && self.category_list@[i] == k;
                        assert(i < old(self).category_list@.len());
                        assert(old(self).category_list@[i] == k);
                    }
                } else {
                    assert(self.category_list@[self.category_list@.len() - 1] == id);
                }
            }
            self.lemma_first_named(normalize_name(self.categories@[id].name@));
            assert(self.categories@.contains_key(id));
        }
        Ok(created)
    }

    /// The stored statistics of `id`, all zero when none are stored.
    pub open spec fn stats_of(&self, id: u64) -> ProjectCategoryStats {
        if self.stats@.contains_key(id) { self.stats@[id] } else { spec_empty_stats() }
    }

    fn get_stats_or_empty(&self, id: u64) -> (s: ProjectCategoryStats)
        ensures
            s == self.stats_of(id),
    {
        match self.stats.get(&id) {
            Some(s) => *s,
            None => Self::empty_stats(),
        }
    }

    /// The error, if any, that refuses `update_category`.
    pub open spec fn update_error(
        &self,
        admin_ok: bool,
        category_id: u64,
        name: Seq<u8>,
        description: Seq<u8>,
        parent_id: Option<u64>,
        active: bool,
    ) -> Option<ContractError> {
        if !admin_ok {
            Some(ContractError::AdminOnly)
        } else if !self.categories@.contains_key(category_id) {
            Some(ContractError::ProjectCategoryNotFound)
        } else if name_error(name) is Some {
            name_error(name)
        } else if description.len() > MAX_CATEGORY_DESCRIPTION_LEN {
            Some(ContractError::InvalidInput)
        } else if self.parent_error(Some(category_id), parent_id) is Some {
            self.parent_error(Some(category_id), parent_id)
        } else if self.name_taken(normalize_name(name), Some(category_id)) {
            Some(ContractError::ProjectCategoryAlreadyExists)
        } else if !active && (self.stats_of(category_id).direct_project_count > 0
            || self.children_of(category_id).len() > 0) {
            Some(ContractError::ProjectCategoryHasProjects)
        } else if active && parent_id is Some && !self.categories@.contains_key(parent_id->Some_0) {
            Some(ContractError::ProjectCategoryNotFound)
        } else if active && parent_id is Some && !self.categories@[parent_id->Some_0].active {
            Some(ContractError::ProjectCategoryInactive)
        } else if self.categories@[category_id].parent_id != parent_id && parent_id is Some
            && !self.children_of(parent_id->Some_0).contains(category_id)
            && !self.has_capacity(parent_id->Some_0, 1) {
            Some(ContractError::ProjectCategoryHierarchyInvalid)
        } else {
            None
        }
    }

    /// Renames, re-describes, re-parents or (de)activates a category on the
    /// word of an administrator. A rename moves the projects filed under the
    /// old name to the new one.
    pub fn update_category(
        &mut self,
        admin: Addr,
        category_id: u64,
        name: Vec<u8>,
        description: Vec<u8>,
        parent_id: Option<u64>,
        active: bool,
        now: u64,
        admins: &AdminManager,
        projects: &mut ProjectBook,
    ) -> (r: Result<ProjectCategory, ContractError>)
        requires
            old(self).wf(),
            old(projects).wf(),
        ensures
            final(self).wf(),
            final(projects).wf(),
            ({
                let e = old(self).update_error(admins.spec_is_admin(admin), category_id, name@, description@, parent_id, active);
                &&& e is Some ==> r == Err::<ProjectCategory, ContractError>(e->Some_0)
                &&& e is None ==> r is Ok
            }),
            r is Err ==> *final(self) == *old(self) && *final(projects) == *old(projects),
            r is Ok ==> {
                let old_c = old(self).categories@[category_id];
                let c = final(self).categories@[category_id];
                &&& category_view(r->Ok_0) == category_view(c)
                &&& final(self).first_named(normalize_name(name@)) == Some(category_id)
                &&& normalize_name(name@) != normalize_name(old_c.name@) ==> final(self).first_named(
                    normalize_name(old_c.name@),
                ) is None
                &&& final(self).categories@.dom() == old(self).categories@.dom()
                &&& forall|k: u64| k != category_id && old(self).categories@.contains_key(k) ==> #[trigger] final(self).categories@[k] == old(self).categories@[k]
                &&& c.id == category_id && c.name@ == name@ && c.description@ == description@
                &&& c.parent_id == parent_id && c.active == active
                &&& c.created_at == old_c.created_at && c.updated_at == now
                &&& final(self).category_list == old(self).category_list
                &&& final(self).stats == old(self).stats
                &&& final(self).last_id == old(self).last_id
                &&& (old_c.name@ == name@ ==> *final(projects) == *old(projects))
                &&& (old_c.name@ != name@ ==> final(projects).projects@.len() == old(projects).projects@.len()
                    && forall|i: int| 0 <= i < old(projects).projects@.len() ==> {
                        let p = #[trigger] final(projects).projects@[i];
                        let q = old(projects).projects@[i];
                        &&& (q.category@ == old_c.name@ ==> p.category@ == name@)
                        &&& (q.category@ != old_c.name@ ==> p.category == q.category)
                        &&& p.id == q.id && p.owner == q.owner && p.archived == q.archived
                        &&& p.verification_status == q.verification_status && p.updated_at == q.updated_at
                    })
                &&& (old_c.parent_id == parent_id ==> final(self).children == old(self).children)
                &&& (old_c.parent_id != parent_id ==> {
                    &&& (old_c.parent_id matches Some(q) ==> final(self).children_of(q) == old(self).removed_children(q, category_id))
                    &&& (parent_id matches Some(p) ==> final(self).children_of(p) == old(self).appended_children(p, category_id))
                    &&& forall|k: u64| Some(k) != old_c.parent_id && Some(k) != parent_id ==> #[trigger] final(self).children_of(k) == old(self).children_of(k)
                })
            },
    {
        admins.require_admin(admin)?;
        let (old_parent, old_created) = match self.get_category(category_id) {
            Some(c) => (c.parent_id, c.created_at),
            None => return Err(ContractError::ProjectCategoryNotFound),
        };
        let normalized = Self::validate_name(&name)?;
        if description.len() > MAX_CATEGORY_DESCRIPTION_LEN {
            return Err(ContractError::InvalidInput);
        }
        self.validate_parent(Some(category_id), parent_id)?;
        if self.find_name(&normalized, Some(category_id)) {
            return Err(ContractError::ProjectCategoryAlreadyExists);
        }
        let stats = self.get_stats_or_empty(category_id);
        if !active && (stats.direct_project_count > 0 || self.child_count(category_id) > 0) {
            return Err(ContractError::ProjectCategoryHasProjects);
        }
        if active && parent_id.is_some() {
            let pid = parent_id.unwrap();
            match self.get_category(pid) {
                Some(p) => {
                    if !p.active {
                        return Err(ContractError::ProjectCategoryInactive);
                    }
                },
                None => return Err(ContractError::ProjectCategoryNotFound),
            }
        }
        if old_parent != parent_id {
            if let Some(pid) = parent_id {
                let kids = self.child_ids(pid);
                if !crate::utils::contains_u64(&kids, category_id) {
                    self.ensure_child_capacity(pid, 1)?;
                }
            }
        }
        let ghost cats0 = self.categories@;
        let old_name = match self.categories.get(&category_id) {
            Some(c) => crate::utils::copy_text(&c.name),
            None => Vec::new(),
        };
        if !bytes_eq(&name, &old_name) {
            projects.migrate_category(&old_name, &name);
        }
        if old_parent != parent_id {
            if let Some(q) = old_parent {
                self.remove_child(q, category_id);
            }
            let ghost mid = *self;
            if let Some(p) = parent_id {
                self.append_child(p, category_id);
                proof {
                    if let Some(q) = old_parent {
                        assert(self.children_of(q) == mid.children_of(q));
                    }
                }
            }
            proof {
                assert forall|k: u64| Some(k) != old_parent && Some(k) != parent_id implies #[trigger] children_in(self.children@, k) == old(self).children_of(k) by {
                    assert(mid.children_of(k) == old(self).children_of(k));
                    assert(self.children_of(k) == mid.children_of(k));
                }
                if let Some(q) = old_parent {
                    assert(children_in(self.children@, q) == old(self).removed_children(q, category_id));
                }
                if let Some(p) = parent_id {
                    assert(children_in(self.children@, p) == old(self).appended_children(p, category_id));
                }
            }
        }
        let ghost mid2 = self.children;
        let updated = ProjectCategory {
            id: category_id,
            name: crate::utils::copy_text(&name),
            description: crate::utils::copy_text(&description),
            parent_id,
            active,
            created_at: old_created,
            updated_at: now,
        };
        let category = ProjectCategory {
            id: category_id,
            name,
            description,
            parent_id,
            active,
            created_at: old_created,
            updated_at: now,
        };
        self.categories.insert(category_id, category);
        proof {
            assert(self.children == mid2);
            if old_parent != parent_id {
                assert forall|k: u64| Some(k) != old_parent && Some(k) != parent_id implies #[trigger] self.children_of(k) == old(self).children_of(k) by {
                    assert(children_in(mid2@, k) == old(self).children_of(k));
                }
            }
            assert forall|k: u64| #[trigger] self.categories@.contains_key(k) <==> self.category_list@.contains(k) by {
                assert(self.categories@.contains_key(k) == old(self).categories@.contains_key(k));
            }
            assert(self.categories@[category_id].name@ == updated.name@);
            self.lemma_first_named(normalize_name(self.categories@[category_id].name@));
            assert(self.categories@.contains_key(category_id));
            assert(self.first_named(normalize_name(self.categories@[category_id].name@)) == Some(category_id));
            let on = normalize_name(old(self).categories@[category_id].name@);
            self.lemma_first_named(on);
            if normalize_name(self.categories@[category_id].name@) != on {
                if let Some(x) = self.first_named(on) {
                    assert(x != category_id);
                    assert(self.categories@[x] == old(self).categories@[x]);
                    assert(old(self).categories@.contains_key(x));
                    assert(normalize_name(old(self).categories@[x].name@) != on);
                }
            }
        }
        Ok(updated)
    }

    /// The error, if any, that refuses `delete_category`.
    pub open spec fn delete_error(
        &self,
        admin_ok: bool,
        category_id: u64,
        migrate_to: Option<u64>,
        projects: &ProjectBook,
    ) -> Option<ContractError> {
        let kids = self.children_of(category_id);
        if !admin_ok {
            Some(ContractError::AdminOnly)
        } else if !self.categories@.contains_key(category_id) {
            Some(ContractError::ProjectCategoryNotFound)
        } else if migrate_to is Some && !self.categories@.contains_key(migrate_to->Some_0) {
            Some(ContractError::ProjectCategoryNotFound)
        } else if migrate_to is Some && !self.categories@[migrate_to->Some_0].active {
            Some(ContractError::ProjectCategoryInactive)
        } else if migrate_to is Some && (migrate_to->Some_0 == category_id
            || self.spec_is_descendant(migrate_to->Some_0, category_id)) {
            Some(ContractError::ProjectCategoryHierarchyInvalid)
        } else if migrate_to is Some && self.spec_depth(migrate_to->Some_0) is None {
            Some(ContractError::ProjectCategoryHierarchyInvalid)
        } else if migrate_to is Some && exists|i: int| 0 <= i < kids.len()
            && self.spec_depth(migrate_to->Some_0)->Some_0 + self.spec_subtree_height(#[trigger] kids[i], 1)
                > MAX_CATEGORY_HIERARCHY_DEPTH {
            Some(ContractError::ProjectCategoryHierarchyInvalid)
        } else if migrate_to is Some && !self.has_capacity(migrate_to->Some_0, kids.len()) {
            Some(ContractError::ProjectCategoryHierarchyInvalid)
        } else if migrate_to is None && crate::types::ids_in_category(
            projects.projects@,
            self.categories@[category_id].name@,
        ).len() > 0 {
            Some(ContractError::ProjectCategoryHasProjects)
        } else {
            None
        }
    }

    /// Deletes a category on the word of an administrator. With a target,
    /// its projects move to the target's name and its children move under
    /// the target; without one, the category must hold no projects and its
    /// children become roots.
    pub fn delete_category(
        &mut self,
        admin: Addr,
        category_id: u64,
        migrate_to: Option<u64>,
        now: u64,
        admins: &AdminManager,
        projects: &mut ProjectBook,
    ) -> (r: Result<ProjectCategoryMigrationResult, ContractError>)
        requires
            old(self).wf(),
            old(projects).wf(),
        ensures
            final(self).wf(),
            final(projects).wf(),
            ({
                let e = old(self).delete_error(admins.spec_is_admin(admin), category_id, migrate_to, old(projects));
                &&& e is Some ==> r == Err::<ProjectCategoryMigrationResult, ContractError>(e->Some_0)
                &&& e is None ==> r is Ok
            }),
            r is Err ==> *final(self) == *old(self) && *final(projects) == *old(projects),
            r is Ok ==> {
                let kids = old(self).children_of(category_id);
                let c = old(self).categories@[category_id];
                let res = r->Ok_0;
                &&& res.deleted_category_id == category_id
                &&& res.migration_target_id == migrate_to
                &&& res.reparented_child_count == count_existing(kids, old(self).categories@)
                &&& res.migrated_project_count == (if migrate_to is Some {
                    crate::types::ids_in_category(old(projects).projects@, c.name@).len()
                } else {
                    0
                })
                &&& final(self).first_named(normalize_name(c.name@)) is None
                &&& final(self).categories@ == reparent_map(old(self).categories@, kids, migrate_to, now).remove(category_id)
                &&& final(self).category_list@ == without(old(self).category_list@, category_id)
                &&& final(self).stats@ == old(self).stats@.remove(category_id)
                &&& final(self).last_id == old(self).last_id
                &&& !final(self).children@.contains_key(category_id)
                &&& (migrate_to matches Some(t) ==> forall|i: int| 0 <= i < kids.len() && kids[i] != category_id
                    && old(self).categories@.contains_key(kids[i])
                    ==> final(self).children_of(t).contains(#[trigger] kids[i]))
                &&& forall|k: u64| k != category_id && Some(k) != migrate_to && Some(k) != c.parent_id
                    ==> #[trigger] final(self).children_of(k) == old(self).children_of(k)
                &&& (migrate_to is None ==> *final(projects) == *old(projects))
                &&& (migrate_to matches Some(t) ==> final(projects).projects@.len() == old(projects).projects@.len()
                    && forall|i: int| 0 <= i < old(projects).projects@.len() ==> {
                        let p = #[trigger] final(projects).projects@[i];
                        let q = old(projects).projects@[i];
                        &&& (q.category@ == c.name@ ==> p.category@ == old(self).categories@[t].name@)
                        &&& (q.category@ != c.name@ ==> p.category == q.category)
                        &&& p.id == q.id && p.owner == q.owner && p.archived == q.archived
                    })
            },
    {
        admins.require_admin(admin)?;
        let (cat_parent, cat_name) = match self.get_category(category_id) {
            Some(c) => (c.parent_id, crate::utils::copy_text(&c.name)),
            None => return Err(ContractError::ProjectCategoryNotFound),
        };
        let children = self.child_ids(category_id);
        if let Some(target_id) = migrate_to {
            let target_active = match self.get_category(target_id) {
                Some(t) => t.active,
                None => return Err(ContractError::ProjectCategoryNotFound),
            };
            if !target_active {
                return Err(ContractError::ProjectCategoryInactive);
            }
            if target_id == category_id || self.is_descendant(target_id, category_id) {
                return Err(ContractError::ProjectCategoryHierarchyInvalid);
            }
            let target_depth = match self.depth(target_id) {
                Some(d) => d,
                None => return Err(ContractError::ProjectCategoryHierarchyInvalid),
            };
            let mut i: usize = 0;
            while i < children.len()
                invariant
                    *self == *old(self),
                    *projects == *old(projects),
                    old(self).wf(),
                    old(projects).wf(),
                    children@ == self.children_of(category_id),
                    admins.spec_is_admin(admin),
                    self.categories@.contains_key(category_id),
                    self.categories@.contains_key(target_id),
                    self.categories@[target_id].active,
                    target_id != category_id,
                    !self.spec_is_descendant(target_id, category_id),
                    self.spec_depth(target_id) == Some(target_depth),
                    migrate_to == Some(target_id),
                    i <= children@.len(),
                    forall|j: int| 0 <= j < i ==> !(target_depth + self.spec_subtree_height(#[trigger] children@[j], 1)
                        > MAX_CATEGORY_HIERARCHY_DEPTH),
                decreases children@.len() - i,
            {
                let h = self.subtree_height(children[i], 1);
                if target_depth as u64 + h as u64 > MAX_CATEGORY_HIERARCHY_DEPTH as u64 {
                    proof {
                        let kids = self.children_of(category_id);
                        assert(self.spec_depth(target_id)->Some_0 + self.spec_subtree_height(kids[i as int], 1)
                            > MAX_CATEGORY_HIERARCHY_DEPTH);
                    }
                    return Err(ContractError::ProjectCategoryHierarchyInvalid);
                }
                i = i + 1;
            }
            let n = self.child_count(target_id);
            if n as u128 + children.len() as u128 > MAX_CATEGORY_CHILDREN as u128 {
                return Err(ContractError::ProjectCategoryHierarchyInvalid);
            }
        }
        let (in_category, _) = projects.count_in_category(&cat_name);
        if in_category > 0 && migrate_to.is_none() {
            return Err(ContractError::ProjectCategoryHasProjects);
        }
        let mut migrated_project_count: u64 = 0;
        if let Some(target_id) = migrate_to {
            let target_name = match self.categories.get(&target_id) {
                Some(t) => crate::utils::copy_text(&t.name),
                None => Vec::new(),
            };
            migrated_project_count = projects.migrate_category(&cat_name, &target_name);
        }
        let ghost old_children_len = self.children_of(migrate_to.unwrap_or(0)).len();
        let mut reparented_child_count: u32 = 0;
        let mut i: usize = 0;
        while i < children.len()
            invariant
                old(self).wf(),
                children@ == old(self).children_of(category_id),
                i <= children@.len(),
                self.categories@ == reparent_map(old(self).categories@, children@.subrange(0, i as int), migrate_to, now),
                self.category_list == old(self).category_list,
                self.stats == old(self).stats,
                self.last_id == old(self).last_id,
                reparented_child_count == count_existing(children@.subrange(0, i as int), old(self).categories@),
                migrate_to matches Some(t) ==> children_in(self.children@, t).len() <= old(self).children_of(t).len() + i,
                migrate_to matches Some(t) ==> old(self).children_of(t).len() + children@.len() <= MAX_CATEGORY_CHILDREN,
                migrate_to matches Some(t) ==> forall|j: int| 0 <= j < i && old(self).categories@.contains_key(children@[j])
                        ==> children_in(self.children@, t).contains(#[trigger] children@[j]),
                migrate_to matches Some(t) ==> forall|k: u64| k != t ==> #[trigger] children_in(self.children@, k) == old(self).children_of(k),
                migrate_to matches Some(t) ==> t != category_id,
                migrate_to is None ==> self.children == old(self).children,
            decreases children@.len() - i,
        {
            let child_id = children[i];
            let ghost pre = children@.subrange(0, i as int);
            let ghost post = children@.subrange(0, i + 1);
            let ghost cats_before = self.categories@;
            proof {
                assert(post.drop_last() =~= pre);
                assert(post == pre.push(child_id));
                assert forall|k: u64| post.contains(k) <==> (pre.contains(k) || k == child_id) by {
                    if post.contains(k) && k != child_id {
                        let w = choose|w: int| 0 <= w < post.len() && post[w] == k;
                        assert(w < pre.len());
                        assert(pre[w] == k);
                    }
                    if pre.contains(k) {
                        let w = choose|w: int| 0 <= w < pre.len() && pre[w] == k;
                        assert(post[w] == k);
                    }
                    if k == child_id {
                        assert(post[i as int] == k);
                    }
                }
            }
            let removed = self.categories.remove(&child_id);
            match removed {
                Some(mut child) => {
                    child.parent_id = migrate_to;
                    child.updated_at = now;
                    self.categories.insert(child_id, child);
                    if let Some(target_id) = migrate_to {
                        let ghost before = *self;
                        self.append_child(target_id, child_id);
                        proof {
                            assert forall|k: u64| k != target_id implies #[trigger] children_in(self.children@, k) == old(self).children_of(k) by {
                                assert(self.children_of(k) == before.children_of(k));
                            }
                            assert forall|j: int| 0 <= j < i + 1 && old(self).categories@.contains_key(children@[j])
                                implies self.children_of(target_id).contains(#[trigger] children@[j]) by {
                                if j < i {
                                    let c = children@[j];
                                    assert(before.children_of(target_id).contains(c));
                                    let w = choose|w: int| 0 <= w < before.children_of(target_id).len() && before.children_of(target_id)[w] == c;
                                    assert(self.children_of(target_id)[w] == c);
                                } else {
                                    if !before.children_of(target_id).contains(child_id) {
                                        assert(self.children_of(target_id).last() == child_id);
                                    }
                                }
                            }
                        }
                    }
                    reparented_child_count = reparented_child_count.saturating_add(1);
                },
                None => {
                    proof {
                        assert(!cats_before.contains_key(child_id));
                        assert(!old(self).categories@.contains_key(child_id));
                    }
                },
            }
            proof {
                let target = reparent_map(old(self).categories@, post, migrate_to, now);
                assert forall|k: u64| #[trigger] self.categories@.contains_key(k) == target.contains_key(k) by {}
                assert forall|k: u64| self.categories@.contains_key(k) implies #[trigger] self.categories@[k] == target[k] by {
                    if k != child_id {
                        assert(self.categories@[k] == cats_before[k]);
                    }
                }
                assert(self.categories@ =~= target);
            }
            i = i + 1;
        }
        proof {
            assert(children@.subrange(0, children@.len() as int) =~= children@);
        }
        let ghost before_parent = *self;
        if let Some(parent_id) = cat_parent {
            self.remove_child(parent_id, category_id);
        }
        let ghost before_list = *self;
        let remaining = crate::utils::remove_item_u64(&self.category_list, category_id);
        self.category_list = remaining;
        self.categories.remove(&category_id);
        self.stats.remove(&category_id);
        self.children.remove(&category_id);
        proof {
            crate::utils::lemma_without_len(old(self).category_list@, category_id);
            assert forall|k: u64| #[trigger] self.categories@.contains_key(k) <==> self.category_list@.contains(k) by {
                crate::utils::lemma_without_contains(old(self).category_list@, category_id, k);
                assert(self.categories@.contains_key(k) == (old(self).categories@.contains_key(k) && k != category_id));
            }
            assert forall|k: u64| #[trigger] self.categories@.contains_key(k) implies self.categories@[k].id == k by {
                assert(old(self).categories@.contains_key(k));
            }
            assert forall|k: u64| k != category_id && Some(k) != migrate_to && Some(k) != cat_parent
                implies #[trigger] self.children_of(k) == old(self).children_of(k) by {
                assert(before_list.children_of(k) == before_parent.children_of(k));
                assert(children_in(self.children@, k) == children_in(before_list.children@, k));
            }
            if let Some(t) = migrate_to {
                assert forall|j: int| 0 <= j < children@.len() && children@[j] != category_id
                    && old(self).categories@.contains_key(children@[j])
                    implies self.children_of(t).contains(#[trigger] children@[j]) by {
                    assert(before_parent.children_of(t).contains(children@[j]));
                    if cat_parent == Some(t) {
                        crate::utils::lemma_without_contains(before_parent.children_of(t), category_id, children@[j]);
                    } else {
                        assert(before_list.children_of(t) == before_parent.children_of(t));
                    }
                    assert(children_in(self.children@, t) == children_in(before_list.children@, t));
                }
            }
        }
        proof {
            self.lemma_first_named(normalize_name(old(self).categories@[category_id].name@));
        }
        Ok(ProjectCategoryMigrationResult {
            deleted_category_id: category_id,
            migrated_project_count,
            reparented_child_count,
            migration_target_id: migrate_to,
        })
    }

    /// Totals of projects and of active projects over the first `n` of
    /// `kids` and their subtrees, whose parent sits at level `d`.
    pub open spec fn kids_totals(&self, kids: Seq<u64>, d: u32, n: nat) -> (u64, u64)
        decreases MAX_CATEGORY_HIERARCHY_DEPTH - d, n,
    {
        if n == 0 || n > kids.len() || d >= MAX_CATEGORY_HIERARCHY_DEPTH {
            (0, 0)
        } else {
            let c = kids[n - 1];
            let rest = self.kids_totals(kids, d, (n - 1) as nat);
            let ch = if d + 1 >= MAX_CATEGORY_HIERARCHY_DEPTH {
                (0u64, 0u64)
            } else {
                let own = self.stats_of(c);
                let below = self.kids_totals(self.children_of(c), (d + 1) as u32, self.children_of(c).len());
                (sat_add64(own.direct_project_count, below.0), sat_add64(own.direct_active_project_count, below.1))
            };
            (sat_add64(rest.0, ch.0), sat_add64(rest.1, ch.1))
        }
    }

    /// Project and active-project totals of the subtree under `id`, placed
    /// at level `d`, counting at most to the depth limit.
    pub open spec fn spec_totals(&self, id: u64, d: u32) -> (u64, u64) {
        if d >= MAX_CATEGORY_HIERARCHY_DEPTH {
            (0, 0)
        } else {
            let own = self.stats_of(id);
            let below = self.kids_totals(self.children_of(id), d, self.children_of(id).len());
            (sat_add64(own.direct_project_count, below.0), sat_add64(own.direct_active_project_count, below.1))
        }
    }

    fn hierarchy_totals(&self, category_id: u64, depth: u32) -> (r: (u64, u64))
        ensures
            r == self.spec_totals(category_id, depth),
        decreases MAX_CATEGORY_HIERARCHY_DEPTH - depth,
    {
        if depth >= MAX_CATEGORY_HIERARCHY_DEPTH {
            return (0, 0);
        }
        let stats = self.get_stats_or_empty(category_id);
        let kids = self.child_ids(category_id);
        let mut projects: u64 = 0;
        let mut active: u64 = 0;
        let mut i: usize = 0;
        while i < kids.len()
            invariant
                depth < MAX_CATEGORY_HIERARCHY_DEPTH,
                kids@ == self.children_of(category_id),
                i <= kids@.len(),
                (projects, active) == self.kids_totals(kids@, depth, i as nat),
            decreases kids@.len() - i,
        {
            let (cp, ca) = if depth + 1 >= MAX_CATEGORY_HIERARCHY_DEPTH {
                (0u64, 0u64)
            } else {
                self.hierarchy_totals(kids[i], depth + 1)
            };
            projects = projects.saturating_add(cp);
            active = active.saturating_add(ca);
            i = i + 1;
        }
        (stats.direct_project_count.saturating_add(projects), stats.direct_active_project_count.saturating_add(active))
    }

    /// The statistics of a category: its own counts, its number of
    /// children, and the totals of its sub-hierarchy.
    pub fn get_stats(&self, category_id: u64) -> (r: Option<ProjectCategoryStats>)
        ensures
            r.is_some() == self.categories@.contains_key(category_id),
            r.is_some() ==> {
                let s = r.unwrap();
                let direct = self.stats_of(category_id);
                let t = self.spec_totals(category_id, 0);
                &&& s.direct_project_count == direct.direct_project_count
                &&& s.direct_active_project_count == direct.direct_active_project_count
                &&& s.direct_child_count == self.children_of(category_id).len()
                &&& s.descendant_project_count == (if t.0 >= direct.direct_project_count {
                    (t.0 - direct.direct_project_count) as u64
                } else {
                    0
                })
                &&& s.hierarchy_active_project_count == t.1
            },
    {
        if self.get_category(category_id).is_none() {
            return None;
        }
        let direct = self.get_stats_or_empty(category_id);
        let (hierarchy_projects, hierarchy_active) = self.hierarchy_totals(category_id, 0);
        Some(ProjectCategoryStats {
            direct_project_count: direct.direct_project_count,
            direct_active_project_count: direct.direct_active_project_count,
            direct_child_count: self.child_count(category_id) as u64,
            descendant_project_count: hierarchy_projects.saturating_sub(direct.direct_project_count),
            hierarchy_active_project_count: hierarchy_active,
        })
    }

    /// A page of categories in creation order: the listed ids from
    /// `start_index`, at most `limit` of them (0 or above the cap means the
    /// cap).
    pub fn list_categories(&self, start_index: u32, limit: u32) -> (page: Vec<&ProjectCategory>)
        requires
            self.wf(),
        ensures
            ({
                let lim = if limit == 0 || limit > MAX_PAGE_LIMIT { MAX_PAGE_LIMIT as int } else { limit as int };
                let total = self.category_list@.len() as int;
                let n = if start_index >= total { 0 } else if total - start_index < lim { total - start_index } else { lim };
                &&& page@.len() == n
                &&& forall|k: int| 0 <= k < n ==> *(#[trigger] page@[k]) == self.categories@[self.category_list@[start_index + k]]
            }),
    {
        let effective_limit = if limit == 0 || limit > MAX_PAGE_LIMIT { MAX_PAGE_LIMIT } else { limit };
        let total = self.category_list.len();
        let mut page: Vec<&ProjectCategory> = Vec::new();
        if start_index as usize >= total {
            return page;
        }
        let end = if total - (start_index as usize) < effective_limit as usize {
            total
        } else {
            start_index as usize + effective_limit as usize
        };
        let mut index: usize = start_index as usize;
        while index < end
            invariant
                self.wf(),
                total == self.category_list@.len(),
                start_index <= index <= end <= total,
                page@.len() == index - start_index,
                forall|k: int| 0 <= k < index - start_index ==> *(#[trigger] page@[k]) == self.categories@[self.category_list@[start_index + k]],
            decreases end - index,
        {
            let id = self.category_list[index];
            proof {
                assert(self.category_list@.contains(id));
            }
            match self.categories.get(&id) {
                Some(c) => page.push(c),
                None => {},
            }
            index = index + 1;
        }
        page
    }

    /// The existing children of a category, in the order they were added;
    /// empty for an unknown category.
    pub fn list_children(&self, category_id: u64) -> (page: Vec<&ProjectCategory>)
        ensures
            !self.categories@.contains_key(category_id) ==> page@.len() == 0,
            self.categories@.contains_key(category_id) ==> {
                let recs = existing_records(self.children_of(category_id), self.categories@);
                &&& page@.len() == recs.len()
                &&& forall|k: int| 0 <= k < recs.len() ==> *(#[trigger] page@[k]) == recs[k]
            },
    {
        let mut page: Vec<&ProjectCategory> = Vec::new();
        if self.get_category(category_id).is_none() {
            return page;
        }
        let kids = self.child_ids(category_id);
        let mut i: usize = 0;
        while i < kids.len()
            invariant
                kids@ == self.children_of(category_id),
                i <= kids@.len(),
                ({
                    let recs = existing_records(kids@.subrange(0, i as int), self.categories@);
                    &&& page@.len() == recs.len()
                    &&& forall|k: int| 0 <= k < recs.len() ==> *(#[trigger] page@[k]) == recs[k]
                }),
            decreases kids@.len() - i,
        {
            proof {
                assert(kids@.subrange(0, i + 1).drop_last() =~= kids@.subrange(0, i as int));
            }
            match self.categories.get(&kids[i]) {
                Some(c) => page.push(c),
                None => {},
            }
            i = i + 1;
        }
        proof {
            assert(kids@.subrange(0, i as int) =~= kids@);
        }
        page
    }

    /// The first listed category, from position `i` on, whose name
    /// normalizes to `n`.
    pub open spec fn first_from(&self, n: Seq<u8>, i: int) -> Option<u64>
        decreases self.category_list@.len() - i,
    {
        if i < 0 || i >= self.category_list@.len() {
            None
        } else {
            let id = self.category_list@[i];
            if self.categories@.contains_key(id) && normalize_name(self.categories@[id].name@) == n {
                Some(id)
            } else {
                self.first_from(n, i + 1)
            }
        }
    }

    /// What `first_from` finds: a listed category with the name, found
    /// whenever one is listed from position `i` on.
    proof fn lemma_first_from(&self, n: Seq<u8>, i: int)
        requires
            self.wf(),
            0 <= i <= self.category_list@.len(),
        ensures
            self.first_from(n, i) matches Some(id) ==> self.categories@.contains_key(id)
                && normalize_name(self.categories@[id].name@) == n,
            (exists|j: int| i <= j < self.category_list@.len() && self.categories@.contains_key(#[trigger] self.category_list@[j])
                && normalize_name(self.categories@[self.category_list@[j]].name@) == n) ==> self.first_from(n, i) is Some,
        decreases self.category_list@.len() - i,
    {
        if i < self.category_list@.len() {
            self.lemma_first_from(n, i + 1);
            if exists|j: int| i <= j < self.category_list@.len() && self.categories@.contains_key(#[trigger] self.category_list@[j])
                && normalize_name(self.categories@[self.category_list@[j]].name@) == n {
                let j = choose|j: int| i <= j < self.category_list@.len() && self.categories@.contains_key(#[trigger] self.category_list@[j])
                    && normalize_name(self.categories@[self.category_list@[j]].name@) == n;
                if j > i {
                    assert(i + 1 <= j);
                }
            }
        }
    }

    /// Names resolve exactly: the lookup of a normalized name gives the one
    /// category with that name, and nothing when there is none.
    pub proof fn lemma_first_named(&self, n: Seq<u8>)
        requires
            self.wf(),
        ensures
            forall|id: u64| #[trigger] self.categories@.contains_key(id) && normalize_name(self.categories@[id].name@) == n
                ==> self.first_named(n) == Some(id),
            self.first_named(n) matches Some(id) ==> self.categories@.contains_key(id)
                && normalize_name(self.categories@[id].name@) == n,
    {
        self.lemma_first_from(n, 0);
        assert forall|id: u64| #[trigger] self.categories@.contains_key(id) && normalize_name(self.categories@[id].name@) == n
            implies self.first_named(n) == Some(id) by {
            assert(self.category_list@.contains(id));
            let j = choose|j: int| 0 <= j < self.category_list@.len() && self.category_list@[j] == id;
            assert(self.categories@.contains_key(self.category_list@[j]));
            let x = self.first_named(n)->Some_0;
            if x != id {
                assert(normalize_name(self.categories@[x].name@) != normalize_name(self.categories@[id].name@));
            }
        }
    }

    /// The first listed category whose name normalizes to `n`.
    pub open spec fn first_named(&self, n: Seq<u8>) -> Option<u64> {
        self.first_from(n, 0)
    }

    fn find_by_name(&self, normalized: &Vec<u8>) -> (r: Option<u64>)
        ensures
            r == self.first_named(normalized@),
            r matches Some(id) ==> self.categories@.contains_key(id)
                && normalize_name(self.categories@[id].name@) == normalized@,
    {
        let mut i: usize = 0;
        while i < self.category_list.len()
            invariant
                i <= self.category_list@.len(),
                self.first_named(normalized@) == self.first_from(normalized@, i as int),
            decreases self.category_list@.len() - i,
        {
            let id = self.category_list[i];
            match self.categories.get(&id) {
                Some(c) => {
                    let n = normalize(&c.name);
                    if bytes_eq(&n, normalized) {
                        return Some(id);
                    }
                },
                None => {},
            }
            i = i + 1;
        }
        None
    }

    /// The category whose name matches `name` up to ASCII case.
    pub fn get_category_by_name(&self, name: &Vec<u8>) -> (r: Option<&ProjectCategory>)
        requires
            self.wf(),
        ensures
            r is None == self.first_named(normalize_name(name@)) is None,
            r matches Some(c) ==> self.first_named(normalize_name(name@)) == Some(c.id)
                && *c == self.categories@[c.id],
    {
        let normalized = normalize(name);
        match self.find_by_name(&normalized) {
            Some(id) => self.categories.get(&id),
            None => None,
        }
    }

    /// A project may be filed under `category` unless the category found
    /// under that name is inactive.
    pub fn validate_project_category(&self, category: &Vec<u8>) -> (r: Result<(), ContractError>)
        requires
            self.wf(),
        ensures
            r is Err <==> (self.first_named(normalize_name(category@)) matches Some(id)
                && !self.categories@[id].active),
            r is Err ==> r == Err::<(), ContractError>(ContractError::ProjectCategoryInactive),
    {
        match self.get_category_by_name(category) {
            Some(record) => {
                if !record.active {
                    return Err(ContractError::ProjectCategoryInactive);
                }
                Ok(())
            },
            None => Ok(()),
        }
    }

    /// Stores `stats` for the category found under `category`'s name.
    fn store_stats(&mut self, id: u64, stats: ProjectCategoryStats)
        ensures
            final(self).stats@ == old(self).stats@.insert(id, stats),
            final(self).categories == old(self).categories,
            final(self).children == old(self).children,
            final(self).category_list == old(self).category_list,
            final(self).last_id == old(self).last_id,
    {
        self.stats.insert(id, stats);
    }

    /// Counts a project newly filed under `category`.
    pub fn on_project_assigned(&mut self, category: &Vec<u8>, archived: bool)
        requires
            old(self).wf(),
        ensures
            final(self).wf(),
            final(self).categories == old(self).categories,
            final(self).children == old(self).children,
            final(self).category_list == old(self).category_list,
            old(self).first_named(normalize_name(category@)) is None ==> final(self).stats == old(self).stats,
            old(self).first_named(normalize_name(category@)) matches Some(id) ==> {
                let s = old(self).stats_of(id);
                final(self).stats@ == old(self).stats@.insert(id, ProjectCategoryStats {
                    direct_project_count: sat_add64(s.direct_project_count, 1),
                    direct_active_project_count: if archived { s.direct_active_project_count } else { sat_add64(s.direct_active_project_count, 1) },
                    ..s
                })
            },
    {
        let normalized = normalize(category);
        if let Some(id) = self.find_by_name(&normalized) {
            let mut stats = self.get_stats_or_empty(id);
            stats.direct_project_count = stats.direct_project_count.saturating_add(1);
            if !archived {
                stats.direct_active_project_count = stats.direct_active_project_count.saturating_add(1);
            }
            self.store_stats(id, stats);
        }
    }

    /// Uncounts a project leaving `category`.
    pub fn on_project_unassigned(&mut self, category: &Vec<u8>, was_archived: bool)
        requires
            old(self).wf(),
        ensures
            final(self).wf(),
            final(self).categories == old(self).categories,
            final(self).children == old(self).children,
            final(self).category_list == old(self).category_list,
            old(self).first_named(normalize_name(category@)) is None ==> final(self).stats == old(self).stats,
            old(self).first_named(normalize_name(category@)) matches Some(id) ==> {
                let s = old(self).stats_of(id);
                final(self).stats@ == old(self).stats@.insert(id, ProjectCategoryStats {
                    direct_project_count: if s.direct_project_count > 0 { (s.direct_project_count - 1) as u64 } else { 0 },
                    direct_active_project_count: if was_archived { s.direct_active_project_count }
                        else if s.direct_active_project_count > 0 { (s.direct_active_project_count - 1) as u64 } else { 0 },
                    ..s
                })
            },
    {
        let normalized = normalize(category);
        if let Some(id) = self.find_by_name(&normalized) {
            let mut stats = self.get_stats_or_empty(id);
            stats.direct_project_count = stats.direct_project_count.saturating_sub(1);
            if !was_archived {
                stats.direct_active_project_count = stats.direct_active_project_count.saturating_sub(1);
            }
            self.store_stats(id, stats);
        }
    }

    /// Adjusts the active count when a project of `category` is archived
    /// (`active == false`) or restored.
    pub fn on_project_active_changed(&mut self, category: &Vec<u8>, active: bool)
        requires
            old(self).wf(),
        ensures
            final(self).wf(),
            final(self).categories == old(self).categories,
            final(self).children == old(self).children,
            final(self).category_list == old(self).category_list,
            old(self).first_named(normalize_name(category@)) is None ==> final(self).stats == old(self).stats,
            old(self).first_named(normalize_name(category@)) matches Some(id) ==> {
                let s = old(self).stats_of(id);
                final(self).stats@ == old(self).stats@.insert(id, ProjectCategoryStats {
                    direct_active_project_count: if active { sat_add64(s.direct_active_project_count, 1) }
                        else if s.direct_active_project_count > 0 { (s.direct_active_project_count - 1) as u64 } else { 0 },
                    ..s
                })
            },
    {
        let normalized = normalize(category);
        if let Some(id) = self.find_by_name(&normalized) {
            let mut stats = self.get_stats_or_empty(id);
            if active {
                stats.direct_active_project_count = stats.direct_active_project_count.saturating_add(1);
            } else {
                stats.direct_active_project_count = stats.direct_active_project_count.saturating_sub(1);
            }
            self.store_stats(id, stats);
        }
    }

    /// The category with this id, if there is one.
    pub fn get_category(&self, category_id: u64) -> (r: Option<&ProjectCategory>)
        ensures
            r.is_some() == self.categories@.contains_key(category_id),
            r.is_some() ==> *r.unwrap() == self.categories@[category_id],
    {
        self.categories.get(&category_id)
    }

    fn parent_id(&self, category_id: u64) -> (r: Option<u64>)
        ensures
            r == self.parent_of(category_id),
    {
        match self.categories.get(&category_id) {
            Some(c) => c.parent_id,
            None => None,
        }
    }

    fn child_ids(&self, category_id: u64) -> (r: Vec<u64>)
        ensures
            r@ == self.children_of(category_id),
    {
        match self.children.get(&category_id) {
            Some(v) => copy_ids(v),
            None => Vec::new(),
        }
    }

    fn child_count(&self, category_id: u64) -> (n: usize)
        ensures
            n == self.children_of(category_id).len(),
    {
        match self.children.get(&category_id) {
            Some(v) => v.len(),
            None => 0,
        }
    }

    /// The level of `category_id` in its tree, if within the depth limit.
    fn depth(&self, category_id: u64) -> (r: Option<u32>)
        ensures
            r == self.spec_depth(category_id),
    {
        let mut cursor = category_id;
        let mut depth: u32 = 0;
        while depth < MAX_CATEGORY_HIERARCHY_DEPTH
            invariant
                depth <= MAX_CATEGORY_HIERARCHY_DEPTH,
                self.depth_from(cursor, depth) == self.spec_depth(category_id),
            decreases MAX_CATEGORY_HIERARCHY_DEPTH - depth,
        {
            depth = depth + 1;
            match self.parent_id(cursor) {
                Some(parent) => cursor = parent,
                None => return Some(depth),
            }
        }
        None
    }

    /// Whether `candidate` is `ancestor` or lies below it.
    fn is_descendant(&self, candidate_id: u64, ancestor_id: u64) -> (r: bool)
        ensures
            r == self.spec_is_descendant(candidate_id, ancestor_id),
    {
        let mut cursor = candidate_id;
        let mut i: u32 = 0;
        while i < MAX_CATEGORY_HIERARCHY_DEPTH
            invariant
                i <= MAX_CATEGORY_HIERARCHY_DEPTH,
                self.reaches(cursor, ancestor_id, (MAX_CATEGORY_HIERARCHY_DEPTH - i) as nat)
                    == self.spec_is_descendant(candidate_id, ancestor_id),
            decreases MAX_CATEGORY_HIERARCHY_DEPTH - i,
        {
            if cursor == ancestor_id {
                return true;
            }
            match self.parent_id(cursor) {
                Some(parent) => cursor = parent,
                None => return false,
            }
            i = i + 1;
        }
        false
    }

    /// The deepest level of the subtree under `category_id`, placed at
    /// level `current_depth`.
    fn subtree_height(&self, category_id: u64, current_depth: u32) -> (h: u32)
        ensures
            h == self.spec_subtree_height(category_id, current_depth),
        decreases MAX_CATEGORY_HIERARCHY_DEPTH - current_depth,
    {
        if current_depth >= MAX_CATEGORY_HIERARCHY_DEPTH {
            return current_depth;
        }
        let kids = self.child_ids(category_id);
        let mut height = current_depth;
        let mut i: usize = 0;
        while i < kids.len()
            invariant
                current_depth < MAX_CATEGORY_HIERARCHY_DEPTH,
                kids@ == self.children_of(category_id),
                i <= kids@.len(),
                height == self.kids_height(kids@, current_depth, i as nat),
            decreases kids@.len() - i,
        {
            let child = kids[i];
            let ch = self.subtree_height(child, current_depth + 1);
            height = if height >= ch { height } else { ch };
            i = i + 1;
        }
        height
    }

    /// Checks that the category `category_id` (a new one when `None`) may
    /// sit under `parent_id`.
    fn validate_parent(&self, category_id: Option<u64>, parent_id: Option<u64>) -> (r: Result<
        (),
        ContractError,
    >)
        ensures
            r is Ok == self.parent_error(category_id, parent_id) is None,
            r is Err ==> r == Err::<(), ContractError>(self.parent_error(category_id, parent_id)->Some_0),
    {
        let parent_id = match parent_id {
            Some(parent_id) => parent_id,
            None => return Ok(()),
        };
        if category_id == Some(parent_id) {
            return Err(ContractError::ProjectCategoryHierarchyInvalid);
        }
        let active = match self.get_category(parent_id) {
            Some(p) => p.active,
            None => return Err(ContractError::ProjectCategoryNotFound),
        };
        if !active {
            return Err(ContractError::ProjectCategoryInactive);
        }
        if let Some(category_id) = category_id {
            if self.is_descendant(parent_id, category_id) {
                return Err(ContractError::ProjectCategoryHierarchyInvalid);
            }
        }
        let parent_depth = match self.depth(parent_id) {
            Some(d) => d,
            None => return Err(ContractError::ProjectCategoryHierarchyInvalid),
        };
        let subtree_height = match category_id {
            Some(category_id) => self.subtree_height(category_id, 1),
            None => 1,
        };
        if parent_depth as u64 + subtree_height as u64 > MAX_CATEGORY_HIERARCHY_DEPTH as u64 {
            return Err(ContractError::ProjectCategoryHierarchyInvalid);
        }
        Ok(())
    }

    /// Checks a name and returns its normalized form.
    fn validate_name(name: &Vec<u8>) -> (r: Result<Vec<u8>, ContractError>)
        ensures
            name_error(name@) is Some ==> r == Err::<Vec<u8>, ContractError>(name_error(name@)->Some_0),
            name_error(name@) is None ==> r is Ok && r->Ok_0@ == normalize_name(name@),
    {
        if name.len() == 0 || blank(name) {
            return Err(ContractError::InvalidProjectCategory);
        }
        if name.len() > MAX_CATEGORY_LEN {
            return Err(ContractError::ProjectCategoryTooLong);
        }
        Ok(normalize(name))
    }

    /// Whether a listed category other than `exclude` carries the
    /// normalized name.
    fn find_name(&self, normalized: &Vec<u8>, exclude: Option<u64>) -> (r: bool)
        ensures
            r == self.name_taken(normalized@, exclude),
    {
        let mut i: usize = 0;
        while i < self.category_list.len()
            invariant
                i <= self.category_list@.len(),
                forall|j: int|
                    0 <= j < i ==> !(Some(#[trigger] self.category_list@[j]) != exclude
                        && self.categories@.contains_key(self.category_list@[j])
                        && normalize_name(self.categories@[self.category_list@[j]].name@) == normalized@),
            decreases self.category_list@.len() - i,
        {
            let id = self.category_list[i];
            if Some(id) != exclude {
                match self.categories.get(&id) {
                    Some(c) => {
                        let n = normalize(&c.name);
                        if bytes_eq(&n, normalized) {
                            return true;
                        }
                    },
                    None => {},
                }
            }
            i = i + 1;
        }
        false
    }
}

proof fn lemma_kids_active_from_active_counts(a: CategoryRegistry, b: CategoryRegistry, kids: Seq<u64>, d: u32, n: nat)
    requires
        forall|x: u64| #[trigger] a.children_of(x) == b.children_of(x),
        forall|x: u64| (#[trigger] a.stats_of(x)).direct_active_project_count == b.stats_of(x).direct_active_project_count,
    ensures
        a.kids_totals(kids, d, n).1 == b.kids_totals(kids, d, n).1,
    decreases MAX_CATEGORY_HIERARCHY_DEPTH - d, n,
{
    if !(n == 0 || n > kids.len() || d >= MAX_CATEGORY_HIERARCHY_DEPTH) {
        lemma_kids_active_from_active_counts(a, b, kids, d, (n - 1) as nat);
        if d + 1 < MAX_CATEGORY_HIERARCHY_DEPTH {
            let c = kids[n - 1];
            assert(a.children_of(c) == b.children_of(c));
            assert(a.stats_of(c).direct_active_project_count == b.stats_of(c).direct_active_project_count);
            lemma_kids_active_from_active_counts(a, b, a.children_of(c), (d + 1) as u32, a.children_of(c).len());
        }
    }
}

/// The active-project total of a sub-hierarchy is made of the categories'
/// active counts alone: two registries with the same hierarchy and the same
/// active count in every category report the same total, whatever their
/// project counts, so archived projects never count as active.
pub proof fn lemma_active_total_from_active_counts(a: CategoryRegistry, b: CategoryRegistry, id: u64, d: u32)
    requires
        forall|x: u64| #[trigger] a.children_of(x) == b.children_of(x),
        forall|x: u64| (#[trigger] a.stats_of(x)).direct_active_project_count == b.stats_of(x).direct_active_project_count,
    ensures
        a.spec_totals(id, d).1 == b.spec_totals(id, d).1,
{
    assert(a.children_of(id) == b.children_of(id));
    assert(a.stats_of(id).direct_active_project_count == b.stats_of(id).direct_active_project_count);
    lemma_kids_active_from_active_counts(a, b, a.children_of(id), d, a.children_of(id).len());
}

proof fn lemma_kids_no_active(r: CategoryRegistry, kids: Seq<u64>, d: u32, n: nat)
    requires
        forall|x: u64| (#[trigger] r.stats_of(x)).direct_active_project_count == 0,
    ensures
        r.kids_totals(kids, d, n).1 == 0,
    decreases MAX_CATEGORY_HIERARCHY_DEPTH - d, n,
{
    if !(n == 0 || n > kids.len() || d >= MAX_CATEGORY_HIERARCHY_DEPTH) {
        lemma_kids_no_active(r, kids, d, (n - 1) as nat);
        if d + 1 < MAX_CATEGORY_HIERARCHY_DEPTH {
            let c = kids[n - 1];
            assert(r.stats_of(c).direct_active_project_count == 0);
            lemma_kids_no_active(r, r.children_of(c), (d + 1) as u32, r.children_of(c).len());
        }
    }
}

/// Where no category holds an active project, no sub-hierarchy reports one,
/// however many projects it holds.
pub proof fn lemma_no_active_projects_no_active_total(r: CategoryRegistry, id: u64, d: u32)
    requires
        forall|x: u64| (#[trigger] r.stats_of(x)).direct_active_project_count == 0,
    ensures
        r.spec_totals(id, d).1 == 0,
{
    assert(r.stats_of(id).direct_active_project_count == 0);
    lemma_kids_no_active(r, r.children_of(id), d, r.children_of(id).len());
}

proof fn lemma_kids_active_within_total(r: CategoryRegistry, kids: Seq<u64>, d: u32, n: nat)
    requires
        forall|x: u64| (#[trigger] r.stats_of(x)).direct_active_project_count <= r.stats_of(x).direct_project_count,
    ensures
        r.kids_totals(kids, d, n).1 <= r.kids_totals(kids, d, n).0,
    decreases MAX_CATEGORY_HIERARCHY_DEPTH - d, n,
{
    if !(n == 0 || n > kids.len() || d >= MAX_CATEGORY_HIERARCHY_DEPTH) {
        lemma_kids_active_within_total(r, kids, d, (n - 1) as nat);
        if d + 1 < MAX_CATEGORY_HIERARCHY_DEPTH {
            let c = kids[n - 1];
            assert(r.stats_of(c).direct_active_project_count <= r.stats_of(c).direct_project_count);
            lemma_kids_active_within_total(r, r.children_of(c), (d + 1) as u32, r.children_of(c).len());
        }
    }
}

/// Where every category holds no more active projects than projects, the
/// active total of a sub-hierarchy never exceeds its project total.
pub proof fn lemma_active_total_within_project_total(r: CategoryRegistry, id: u64, d: u32)
    requires
        forall|x: u64| (#[trigger] r.stats_of(x)).direct_active_project_count <= r.stats_of(x).direct_project_count,
    ensures
        r.spec_totals(id, d).1 <= r.spec_totals(id, d).0,
{
    assert(r.stats_of(id).direct_active_project_count <= r.stats_of(id).direct_project_count);
    lemma_kids_active_within_total(r, r.children_of(id), d, r.children_of(id).len());
}

proof fn lemma_kids_projects_from_project_counts(a: CategoryRegistry, b: CategoryRegistry, kids: Seq<u64>, d: u32, n: nat)
    requires
        forall|x: u64| #[trigger] a.children_of(x) == b.children_of(x),
        forall|x: u64| (#[trigger] a.stats_of(x)).direct_project_count == b.stats_of(x).direct_project_count,
    ensures
        a.kids_totals(kids, d, n).0 == b.kids_totals(kids, d, n).0,
    decreases MAX_CATEGORY_HIERARCHY_DEPTH - d, n,
{
    if !(n == 0 || n > kids.len() || d >= MAX_CATEGORY_HIERARCHY_DEPTH) {
        lemma_kids_projects_from_project_counts(a, b, kids, d, (n - 1) as nat);
        if d + 1 < MAX_CATEGORY_HIERARCHY_DEPTH {
            let c = kids[n - 1];
            assert(a.children_of(c) == b.children_of(c));
            assert(a.stats_of(c).direct_project_count == b.stats_of(c).direct_project_count);
            lemma_kids_projects_from_project_counts(a, b, a.children_of(c), (d + 1) as u32, a.children_of(c).len());
        }
    }
}

/// The project total of a sub-hierarchy is made of the categories' project
/// counts alone: two registries with the same hierarchy and the same project
/// count in every category report the same total, whatever their active
/// counts.
pub proof fn lemma_project_total_from_project_counts(a: CategoryRegistry, b: CategoryRegistry, id: u64, d: u32)
    requires
        forall|x: u64| #[trigger] a.children_of(x) == b.children_of(x),
        forall|x: u64| (#[trigger] a.stats_of(x)).direct_project_count == b.stats_of(x).direct_project_count,
    ensures
        a.spec_totals(id, d).0 == b.spec_totals(id, d).0,
{
    assert(a.children_of(id) == b.children_of(id));
    assert(a.stats_of(id).direct_project_count == b.stats_of(id).direct_project_count);
    lemma_kids_projects_from_project_counts(a, b, a.children_of(id), d, a.children_of(id).len());
}

/// Totals add up level by level: a category totals its own counts plus the
/// totals over all its children, so one with no children totals its own
/// counts; and each child of a category adds the totals of the child's
/// own sub-hierarchy, one level down, to those of the children before it
/// (saturating at `u64::MAX`); children at the depth limit add nothing.
pub proof fn lemma_totals_add_up_by_child(r: CategoryRegistry, id: u64, d: u32, n: nat)
    requires
        d < MAX_CATEGORY_HIERARCHY_DEPTH,
    ensures
        r.children_of(id).len() == 0 ==> r.spec_totals(id, d) == (r.stats_of(id).direct_project_count, r.stats_of(
            id,
        ).direct_active_project_count),
        ({
            let all = r.kids_totals(r.children_of(id), d, r.children_of(id).len());
            let own = r.stats_of(id);
            r.spec_totals(id, d) == (sat_add64(own.direct_project_count, all.0), sat_add64(own.direct_active_project_count, all.1))
        }),
        1 <= n <= r.children_of(id).len() ==> ({
            let kids = r.children_of(id);
            let before = r.kids_totals(kids, d, (n - 1) as nat);
            let child = if d + 1 < MAX_CATEGORY_HIERARCHY_DEPTH { r.spec_totals(kids[n - 1], (d + 1) as u32) } else { (0u64, 0u64) };
            r.kids_totals(kids, d, n) == (sat_add64(before.0, child.0), sat_add64(before.1, child.1))
        }),
{
}

} // verus!
