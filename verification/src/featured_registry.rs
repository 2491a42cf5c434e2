//! Projects highlighted by administrators, oldest first; featuring into a
//! full list drops the oldest entry.
use vstd::prelude::*;
use crate::admin_action_log::{AdminActionLog, AdminActionType};
use crate::admin_manager::AdminManager;
use crate::constants::MAX_FEATURED_PROJECTS;
use crate::pagination::{page_of, paginate};
use crate::types::{Addr, ContractError, Project, ProjectBook};
use crate::utils::{contains_u64, remove_item_u64, without};

verus! {

/// The featured project ids, oldest first.
pub struct FeaturedRegistry {
    pub featured: Vec<u64>,
}

/// The list after featuring `id`: the oldest entry goes when the list is
/// full.
pub open spec fn after_feature(ids: Seq<u64>, id: u64) -> Seq<u64> {
    if ids.len() >= MAX_FEATURED_PROJECTS { ids.drop_first().push(id) } else { ids.push(id) }
}

/// The projects of `ids` that exist, in order.
pub open spec fn existing_projects(ids: Seq<u64>, ps: Seq<Project>) -> Seq<Project>
    decreases ids.len(),
{
    if ids.len() == 0 {
        Seq::empty()
    } else {
        let rest = existing_projects(ids.drop_last(), ps);
        let id = ids.last();
        if 1 <= id <= ps.len() { rest.push(ps[id - 1]) } else { rest }
    }
}

impl FeaturedRegistry {
    pub fn new() -> (r: FeaturedRegistry)
        ensures
            r.featured@.len() == 0,
    {
        FeaturedRegistry { featured: Vec::new() }
    }

    /// Features or unfeatures an existing project on the word of an
    /// administrator. Each change is logged; featuring a featured project, or
    /// unfeaturing one that is not, changes nothing and logs nothing.
    pub fn set_featured(
        &mut self,
        admin: Addr,
        project_id: u64,
        featured: bool,
        now: u64,
        admins: &AdminManager,
        projects: &ProjectBook,
        log: &mut AdminActionLog,
    ) -> (r: Result<(), ContractError>)
        requires
            old(log).wf(),
            old(log).has_room(),
        ensures
            final(log).wf(),
            r == (if !admins.spec_is_admin(admin) {
                Err(ContractError::AdminOnly)
            } else if !projects.has(project_id) {
                Err(ContractError::ProjectNotFound)
            } else {
                Ok::<(), ContractError>(())
            }),
            r is Err ==> *final(self) == *old(self) && *final(log) == *old(log),
            r is Ok ==> {
                let ids = old(self).featured@;
                let already = ids.contains(project_id);
                &&& featured && !already ==> final(self).featured@ == after_feature(ids, project_id)
                &&& !featured && already ==> final(self).featured@ == without(ids, project_id)
                &&& featured == already ==> final(self).featured@ == ids && *final(log) == *old(log)
                &&& featured != already ==> AdminActionLog::records(
                    old(log),
                    final(log),
                    admin,
                    if featured { AdminActionType::ProjectFeatured } else { AdminActionType::ProjectUnfeatured },
                    Some(project_id),
                    None,
                    now,
                )
            },
    {
        admins.require_admin(admin)?;
        if projects.get_project(project_id).is_none() {
            return Err(ContractError::ProjectNotFound);
        }
        let already = contains_u64(&self.featured, project_id);
        if featured && !already {
            if self.featured.len() >= MAX_FEATURED_PROJECTS as usize {
                self.featured.remove(0);
            }
            self.featured.push(project_id);
        } else if !featured && already {
            self.featured = remove_item_u64(&self.featured, project_id);
        } else {
            return Ok(());
        }
        let action_type = if featured { AdminActionType::ProjectFeatured } else { AdminActionType::ProjectUnfeatured };
        log.record_action(admin, action_type, Some(project_id), None, None, now);
        Ok(())
    }

    /// A page of the featured projects, oldest first.
    pub fn list_featured_projects<'a>(&self, start_index: u32, limit: u32, projects: &'a ProjectBook) -> (r: Vec<&'a Project>)
        ensures
            ({
                let ps = existing_projects(page_of(self.featured@, start_index, limit), projects.projects@);
                &&& r@.len() == ps.len()
                &&& forall|i: int| 0 <= i < ps.len() ==> *#[trigger] r@[i] == ps[i]
            }),
    {
        let ids = paginate(&self.featured, start_index, limit);
        let mut out: Vec<&'a Project> = Vec::new();
        let mut i: usize = 0;
        while i < ids.len()
            invariant
                i <= ids@.len(),
                ({
                    let ps = existing_projects(ids@.take(i as int), projects.projects@);
                    &&& out@.len() == ps.len()
                    &&& forall|k: int| 0 <= k < ps.len() ==> *#[trigger] out@[k] == ps[k]
                }),
            decreases ids@.len() - i,
        {
            proof {
                assert(ids@.take(i + 1).drop_last() =~= ids@.take(i as int));
            }
            if let Some(p) = projects.get_project(ids[i]) {
                out.push(p);
            }
            i = i + 1;
        }
        assert(ids@.take(i as int) =~= ids@);
        out
    }

    /// Number of featured projects.
    pub fn get_featured_count(&self) -> (n: u32)
        ensures
            n as int == (if self.featured@.len() <= u32::MAX { self.featured@.len() as int } else { u32::MAX as int }),
    {
        let l = self.featured.len();
        if l > u32::MAX as usize { u32::MAX } else { l as u32 }
    }
}


/// The featured list never grows past its cap, keeps insertion order, and
/// always holds the project just featured.
pub proof fn lemma_featured_projects_cap(ids: Seq<u64>, id: u64)
    requires
        ids.len() <= MAX_FEATURED_PROJECTS,
    ensures
        after_feature(ids, id).len() <= MAX_FEATURED_PROJECTS,
        after_feature(ids, id).last() == id,
        after_feature(ids, id).drop_last() == (if ids.len() >= MAX_FEATURED_PROJECTS { ids.drop_first() } else { ids }),
{
    assert(after_feature(ids, id).drop_last() =~= (if ids.len() >= MAX_FEATURED_PROJECTS { ids.drop_first() } else { ids }));
}

} // verus!
