//! Curated collections of projects, public or private, with share links.
//!
//! A refused request leaves every piece of state as it was.
use vstd::prelude::*;
use std::collections::HashMap;
use crate::admin_action_log::{AdminActionLog, AdminActionType};
use crate::admin_manager::AdminManager;
use crate::constants::{
    MAX_COLLECTIONS, MAX_COLLECTION_DESCRIPTION_LEN, MAX_COLLECTION_NAME_LEN,
    MAX_PROJECTS_PER_COLLECTION,
};
use crate::pagination::{page_of, paginate};
use vstd::string::StringSliceAdditionalSpecFns;
use crate::types::{Addr, ContractError, ProjectBook};
use crate::utils::{
    bytes_eq, contains_u64, copy_ids, lemma_without_contains, lemma_without_len, no_dups,
    remove_item_u64, without,
};

verus! {

broadcast use vstd::std_specs::hash::group_hash_axioms;

/// A named collection of projects.
pub struct Collection {
    pub id: u64,
    pub owner: Addr,
    pub name: Vec<u8>,
    pub description: Vec<u8>,
    pub is_public: bool,
    pub created_at: u64,
    pub updated_at: u64,
}

/// The collection state.
pub struct CollectionRegistry {
    /// Every collection by id.
    pub collections: HashMap<u64, Collection>,
    /// The projects of each collection, in the order they were added.
    pub project_ids: HashMap<u64, Vec<u64>>,
    /// Ids of all collections in creation order.
    pub collection_list: Vec<u64>,
    /// Ids of the public collections; `None` until first written.
    pub public_list: Option<Vec<u64>>,
    /// Ids of each owner's collections, keyed by the owner's address id.
    pub user_collections: HashMap<u64, Vec<u64>>,
    /// The share token of each collection that has one.
    pub share_tokens: HashMap<u64, Vec<u8>>,
    /// The id the next collection gets; 1 when unset.
    pub next_id: Option<u64>,
}

/// The id the next collection gets.
pub open spec fn next_of(next: Option<u64>) -> u64 {
    match next {
        Some(n) => n,
        None => 1,
    }
}

/// The stored list under `key`, empty when absent.
pub open spec fn list_in(m: Map<u64, Vec<u64>>, key: u64) -> Seq<u64> {
    if m.contains_key(key) { m[key]@ } else { Seq::empty() }
}

/// The public list as stored, empty when unset.
pub open spec fn public_seq(p: Option<Vec<u64>>) -> Seq<u64> {
    match p {
        Some(v) => v@,
        None => Seq::empty(),
    }
}

/// The error of the name check.
pub open spec fn collection_name_error(name: Seq<u8>) -> Option<ContractError> {
    if name.len() == 0 {
        Some(ContractError::InvalidProjectData)
    } else if name.len() > MAX_COLLECTION_NAME_LEN {
        Some(ContractError::InvalidProjectName)
    } else {
        None
    }
}

/// The error of the description check.
pub open spec fn collection_description_error(d: Seq<u8>) -> Option<ContractError> {
    if d.len() == 0 || d.len() > MAX_COLLECTION_DESCRIPTION_LEN {
        Some(ContractError::InvalidProjectData)
    } else {
        None
    }
}

impl CollectionRegistry {
    pub fn new() -> (r: CollectionRegistry)
        ensures
            r.wf(),
            r.collection_list@.len() == 0,
    {
        CollectionRegistry {
            collections: HashMap::new(),
            project_ids: HashMap::new(),
            collection_list: Vec::new(),
            public_list: None,
            user_collections: HashMap::new(),
            share_tokens: HashMap::new(),
            next_id: None,
        }
    }

    /// The listed ids are the stored collections, each once; every
    /// collection is stored under its id, below the next id; project lists
    /// stay within their cap.
    pub open spec fn wf_core(&self) -> bool {
        &&& no_dups(self.collection_list@)
        &&& forall|id: u64| #[trigger] self.collections@.contains_key(id) <==> self.collection_list@.contains(id)
        &&& forall|id: u64| #[trigger] self.collections@.contains_key(id) ==> self.collections@[id].id == id
            && id < next_of(self.next_id)
        &&& forall|id: u64| #[trigger] self.project_ids@.contains_key(id) ==> self.project_ids@[id]@.len()
            <= MAX_PROJECTS_PER_COLLECTION
    }

    /// The public list holds exactly the stored collections that are public.
    pub open spec fn public_ok(&self) -> bool {
        forall|id: u64| #[trigger] public_seq(self.public_list).contains(id) <==> (self.collections@.contains_key(id)
            && self.collections@[id].is_public)
    }

    /// The registry invariant.
    pub open spec fn wf(&self) -> bool {
        self.wf_core() && self.public_ok()
    }

    /// Another collection can be numbered.
    pub open spec fn has_room(&self) -> bool {
        next_of(self.next_id) < u64::MAX
    }

    /// Whether a listed collection other than `exclude` is named `name`.
    pub open spec fn name_used(&self, name: Seq<u8>, exclude: Option<u64>) -> bool {
        exists|i: int|
            0 <= i < self.collection_list@.len() && Some(#[trigger] self.collection_list@[i]) != exclude
                && self.collections@.contains_key(self.collection_list@[i])
                && self.collections@[self.collection_list@[i]].name@ == name
    }

    /// The projects of a collection, empty when none are stored.
    pub open spec fn projects_of(&self, id: u64) -> Seq<u64> {
        list_in(self.project_ids@, id)
    }

    /// The error, if any, that refuses creating a collection.
    pub open spec fn create_error(&self, name: Seq<u8>, description: Seq<u8>) -> Option<ContractError> {
        if collection_name_error(name) is Some {
            collection_name_error(name)
        } else if collection_description_error(description) is Some {
            collection_description_error(description)
        } else if self.name_used(name, None) {
            Some(ContractError::CollectionExists)
        } else if self.collection_list@.len() >= MAX_COLLECTIONS {
            Some(ContractError::MaxProjectsExceeded)
        } else {
            None
        }
    }

    /// What creating collection `id` did to the state.
    pub open spec fn created(
        old: &CollectionRegistry,
        new: &CollectionRegistry,
        id: u64,
        creator: Addr,
        name: Seq<u8>,
        description: Seq<u8>,
        is_public: bool,
        now: u64,
    ) -> bool {
        let c = new.collections@[id];
        &&& id == next_of(old.next_id)
        &&& new.next_id == Some((id + 1) as u64)
        &&& !old.collections@.contains_key(id)
        &&& new.collections@.dom() == old.collections@.dom().insert(id)
        &&& forall|k: u64| k != id && old.collections@.contains_key(k) ==> #[trigger] new.collections@[k] == old.collections@[k]
        &&& c.id == id && c.owner == creator && c.name@ == name && c.description@ == description
        &&& c.is_public == is_public && c.created_at == now && c.updated_at == now
        &&& new.project_ids@.contains_key(id) && new.project_ids@[id]@.len() == 0
        &&& forall|k: u64| k != id ==> #[trigger] new.projects_of(k) == old.projects_of(k)
        &&& new.collection_list@ == old.collection_list@.push(id)
        &&& list_in(new.user_collections@, creator.id) == list_in(old.user_collections@, creator.id).push(id)
        &&& forall|k: u64| k != creator.id ==> #[trigger] list_in(new.user_collections@, k) == list_in(old.user_collections@, k)
        &&& (is_public ==> new.public_list is Some && public_seq(new.public_list) == public_seq(old.public_list).push(id))
        &&& (!is_public ==> new.public_list == old.public_list)
        &&& new.share_tokens == old.share_tokens
    }

    fn validate_name(name: &Vec<u8>) -> (r: Result<(), ContractError>)
        ensures
            r is Ok == collection_name_error(name@) is None,
            r is Err ==> r == Err::<(), ContractError>(collection_name_error(name@)->Some_0),
    {
        let len = name.len();
        if len == 0 {
            return Err(ContractError::InvalidProjectData);
        }
        if len > MAX_COLLECTION_NAME_LEN {
            return Err(ContractError::InvalidProjectName);
        }
        Ok(())
    }

    fn validate_description(description: &Vec<u8>) -> (r: Result<(), ContractError>)
        ensures
            r is Ok == collection_description_error(description@) is None,
            r is Err ==> r == Err::<(), ContractError>(collection_description_error(description@)->Some_0),
    {
        let len = description.len();
        if len == 0 {
            return Err(ContractError::InvalidProjectData);
        }
        if len > MAX_COLLECTION_DESCRIPTION_LEN {
            return Err(ContractError::InvalidProjectData);
        }
        Ok(())
    }

    fn ensure_name_unique(&self, name: &Vec<u8>, exclude_id: Option<u64>) -> (r: Result<(), ContractError>)
        ensures
            r is Ok == !self.name_used(name@, exclude_id),
            r is Err ==> r == Err::<(), ContractError>(ContractError::CollectionExists),
    {
        let mut i: usize = 0;
        while i < self.collection_list.len()
            invariant
                i <= self.collection_list@.len(),
                forall|j: int|
                    0 <= j < i ==> !(Some(#[trigger] self.collection_list@[j]) != exclude_id
                        && self.collections@.contains_key(self.collection_list@[j])
                        && self.collections@[self.collection_list@[j]].name@ == name@),
            decreases self.collection_list@.len() - i,
        {
            let id = self.collection_list[i];
            if Some(id) != exclude_id {
                match self.collections.get(&id) {
                    Some(c) => {
                        if bytes_eq(&c.name, name) {
                            return Err(ContractError::CollectionExists);
                        }
                    },
                    None => {},
                }
            }
            i = i + 1;
        }
        Ok(())
    }

    /// The collection with this id, or `CollectionNotFound`.
    fn require_collection(&self, collection_id: u64) -> (r: Result<&Collection, ContractError>)
        ensures
            r is Ok == self.collections@.contains_key(collection_id),
            r is Ok ==> *r->Ok_0 == self.collections@[collection_id],
            r is Err ==> r == Err::<&Collection, ContractError>(ContractError::CollectionNotFound),
    {
        match self.collections.get(&collection_id) {
            Some(c) => Ok(c),
            None => Err(ContractError::CollectionNotFound),
        }
    }

    fn get_next_id(&self) -> (id: u64)
        ensures
            id == next_of(self.next_id),
    {
        match self.next_id {
            Some(n) => n,
            None => 1,
        }
    }

    fn user_list(&self, owner: Addr) -> (r: Vec<u64>)
        ensures
            r@ == list_in(self.user_collections@, owner.id),
    {
        match self.user_collections.get(&owner.id) {
            Some(v) => copy_ids(v),
            None => Vec::new(),
        }
    }

    fn public_ids(&self) -> (r: Vec<u64>)
        ensures
            r@ == public_seq(self.public_list),
    {
        match &self.public_list {
            Some(v) => copy_ids(v),
            None => Vec::new(),
        }
    }

    fn collection_project_ids(&self, collection_id: u64) -> (r: Vec<u64>)
        ensures
            r@ == self.projects_of(collection_id),
    {
        match self.project_ids.get(&collection_id) {
            Some(v) => copy_ids(v),
            None => Vec::new(),
        }
    }

    /// Creates a collection owned by `creator`; records the action when the
    /// creator is an administrator.
    fn create_collection_internal(
        &mut self,
        creator: Addr,
        name: Vec<u8>,
        description: Vec<u8>,
        is_public: bool,
        now: u64,
        admins: &AdminManager,
        log: &mut AdminActionLog,
    ) -> (r: Result<u64, ContractError>)
        requires
            old(self).wf(),
            old(self).has_room(),
            old(log).wf(),
            old(log).has_room(),
        ensures
            final(self).wf(),
            final(log).wf(),
            old(self).create_error(name@, description@) is Some ==> r == Err::<u64, ContractError>(
                old(self).create_error(name@, description@)->Some_0,
            ) && *final(self) == *old(self) && *final(log) == *old(log),
            old(self).create_error(name@, description@) is None ==> r is Ok && CollectionRegistry::created(
                old(self),
                final(self),
                r->Ok_0,
                creator,
                name@,
                description@,
                is_public,
                now,
            ) && (admins.spec_is_admin(creator) ==> AdminActionLog::records(
                old(log),
                final(log),
                creator,
                AdminActionType::CollectionCreated,
                Some(r->Ok_0),
                None,
                now,
            )) && (!admins.spec_is_admin(creator) ==> *final(log) == *old(log)),
    {
        Self::validate_name(&name)?;
        Self::validate_description(&description)?;
        self.ensure_name_unique(&name, None)?;
        let total = self.collection_list.len();
        if total as u64 >= MAX_COLLECTIONS as u64 {
            return Err(ContractError::MaxProjectsExceeded);
        }
        let id = self.get_next_id();
        proof {
            assert(!old(self).collections@.contains_key(id));
            assert(!old(self).collection_list@.contains(id));
        }
        let collection = Collection {
            id,
            owner: creator,
            name,
            description,
            is_public,
            created_at: now,
            updated_at: now,
        };
        self.collections.insert(id, collection);
        self.project_ids.insert(id, Vec::new());
        self.collection_list.push(id);
        let mut user_list = self.user_list(creator);
        user_list.push(id);
        self.user_collections.insert(creator.id, user_list);
        if is_public {
            let mut pub_list = self.public_ids();
            pub_list.push(id);
            self.public_list = Some(pub_list);
        }
        self.next_id = Some(id + 1);
        proof {
            let l = self.collection_list@;
            assert forall|i: int, j: int| 0 <= i < l.len() && 0 <= j < l.len() && i != j implies l[i] != l[j] by {
                if i == l.len() - 1 && l[j] == id {
                    assert(old(self).collection_list@[j] == id);
                }
                if j == l.len() - 1 && l[i] == id {
                    assert(old(self).collection_list@[i] == id);
                }
            }
            assert forall|k: u64| #[trigger] self.collections@.contains_key(k) <==> self.collection_list@.contains(k) by {
                if k != id {
                    if old(self).collection_list@.contains(k) {
                        let i = choose|i: int| 0 <= i < old(self).collection_list@.len() && old(self).collection_list@[i] == k;
                        assert(self.collection_list@[i] == k);
                    }
                    if self.collection_list@.contains(k) {
                        let i = choose|i: int| 0 <= i < self.collection_list@.len() && self.collection_list@[i] == k;
                        assert(i < old(self).collection_list@.len());
                        assert(old(self).collection_list@[i] == k);
                    }
                } else {
                    assert(self.collection_list@[self.collection_list@.len() - 1] == id);
                }
            }
            assert forall|k: u64| k != id implies #[trigger] self.projects_of(k) == old(self).projects_of(k) by {
                if old(self).project_ids@.contains_key(k) {
                    assert(self.project_ids@[k] == old(self).project_ids@[k]);
                }
            }
            assert forall|k: u64| k != creator.id implies #[trigger] list_in(self.user_collections@, k) == list_in(old(self).user_collections@, k) by {
                if old(self).user_collections@.contains_key(k) {
                    assert(self.user_collections@[k] == old(self).user_collections@[k]);
                }
            }
            let op = public_seq(old(self).public_list);
            assert(!op.contains(id));
            assert forall|k: u64| #[trigger] public_seq(self.public_list).contains(k) <==> (self.collections@.contains_key(k)
                && self.collections@[k].is_public) by {
                if is_public {
                    assert(public_seq(self.public_list) == op.push(id));
                    if k == id {
                        assert(op.push(id)[op.len() as int] == id);
                    } else {
                        if op.contains(k) {
                            let i = choose|i: int| 0 <= i < op.len() && op[i] == k;
                            assert(op.push(id)[i] == k);
                        }
                        if op.push(id).contains(k) {
                            let i = choose|i: int| 0 <= i < op.len() + 1 && op.push(id)[i] == k;
                            assert(i < op.len());
                            assert(op[i] == k);
                        }
                    }
                }
            }
        }
        if admins.is_admin(creator) {
            log.record_action(creator, AdminActionType::CollectionCreated, Some(id), None, None, now);
        }
        Ok(id)
    }

    /// Creates a public collection on the word of an administrator.
    pub fn create_collection(
        &mut self,
        admin: Addr,
        name: Vec<u8>,
        description: Vec<u8>,
        now: u64,
        admins: &AdminManager,
        log: &mut AdminActionLog,
    ) -> (r: Result<u64, ContractError>)
        requires
            old(self).wf(),
            old(self).has_room(),
            old(log).wf(),
            old(log).has_room(),
        ensures
            final(self).wf(),
            final(log).wf(),
            !admins.spec_is_admin(admin) ==> r == Err::<u64, ContractError>(ContractError::AdminOnly)
                && *final(self) == *old(self) && *final(log) == *old(log),
            admins.spec_is_admin(admin) && old(self).create_error(name@, description@) is Some ==> r
                == Err::<u64, ContractError>(old(self).create_error(name@, description@)->Some_0)
                && *final(self) == *old(self) && *final(log) == *old(log),
            admins.spec_is_admin(admin) && old(self).create_error(name@, description@) is None ==> r is Ok
                && CollectionRegistry::created(old(self), final(self), r->Ok_0, admin, name@, description@, true, now)
                && AdminActionLog::records(old(log), final(log), admin, AdminActionType::CollectionCreated, Some(r->Ok_0), None, now),
    {
        admins.require_admin(admin)?;
        self.create_collection_internal(admin, name, description, true, now, admins, log)
    }

    /// Creates a collection with the given visibility on the word of an
    /// administrator.
    pub fn create_collection_with_visibility(
        &mut self,
        admin: Addr,
        name: Vec<u8>,
        description: Vec<u8>,
        is_public: bool,
        now: u64,
        admins: &AdminManager,
        log: &mut AdminActionLog,
    ) -> (r: Result<u64, ContractError>)
        requires
            old(self).wf(),
            old(self).has_room(),
            old(log).wf(),
            old(log).has_room(),
        ensures
            final(self).wf(),
            final(log).wf(),
            !admins.spec_is_admin(admin) ==> r == Err::<u64, ContractError>(ContractError::AdminOnly)
                && *final(self) == *old(self) && *final(log) == *old(log),
            admins.spec_is_admin(admin) && old(self).create_error(name@, description@) is Some ==> r
                == Err::<u64, ContractError>(old(self).create_error(name@, description@)->Some_0)
                && *final(self) == *old(self) && *final(log) == *old(log),
            admins.spec_is_admin(admin) && old(self).create_error(name@, description@) is None ==> r is Ok
                && CollectionRegistry::created(old(self), final(self), r->Ok_0, admin, name@, description@, is_public, now)
                && AdminActionLog::records(old(log), final(log), admin, AdminActionType::CollectionCreated, Some(r->Ok_0), None, now),
    {
        admins.require_admin(admin)?;
        self.create_collection_internal(admin, name, description, is_public, now, admins, log)
    }

    /// Creates a collection owned by any signed-in `creator`.
    pub fn create_user_collection(
        &mut self,
        creator: Addr,
        name: Vec<u8>,
        description: Vec<u8>,
        is_public: bool,
        now: u64,
        admins: &AdminManager,
        log: &mut AdminActionLog,
    ) -> (r: Result<u64, ContractError>)
        requires
            old(self).wf(),
            old(self).has_room(),
            old(log).wf(),
            old(log).has_room(),
        ensures
            final(self).wf(),
            final(log).wf(),
            old(self).create_error(name@, description@) is Some ==> r == Err::<u64, ContractError>(
                old(self).create_error(name@, description@)->Some_0,
            ) && *final(self) == *old(self) && *final(log) == *old(log),
            old(self).create_error(name@, description@) is None ==> r is Ok && CollectionRegistry::created(
                old(self),
                final(self),
                r->Ok_0,
                creator,
                name@,
                description@,
                is_public,
                now,
            ),
    {
        self.create_collection_internal(creator, name, description, is_public, now, admins, log)
    }

    /// Renames and re-describes a collection on the word of an
    /// administrator; the name stays unique.
    pub fn update_collection(
        &mut self,
        admin: Addr,
        collection_id: u64,
        name: Vec<u8>,
        description: Vec<u8>,
        now: u64,
        admins: &AdminManager,
        log: &mut AdminActionLog,
    ) -> (r: Result<(), ContractError>)
        requires
            old(self).wf(),
            old(log).wf(),
            old(log).has_room(),
        ensures
            final(self).wf(),
            final(log).wf(),
            r == (if !admins.spec_is_admin(admin) {
                Err(ContractError::AdminOnly)
            } else if !old(self).collections@.contains_key(collection_id) {
                Err(ContractError::CollectionNotFound)
            } else if collection_name_error(name@) is Some {
                Err(collection_name_error(name@)->Some_0)
            } else if collection_description_error(description@) is Some {
                Err(collection_description_error(description@)->Some_0)
            } else if old(self).collections@[collection_id].name@ != name@ && old(self).name_used(name@, Some(collection_id)) {
                Err(ContractError::CollectionExists)
            } else {
                Ok::<(), ContractError>(())
            }),
            r is Err ==> *final(self) == *old(self) && *final(log) == *old(log),
            r is Ok ==> {
                let c = final(self).collections@[collection_id];
                let o = old(self).collections@[collection_id];
                &&& final(self).collections@.dom() == old(self).collections@.dom()
                &&& forall|k: u64| k != collection_id && old(self).collections@.contains_key(k) ==> #[trigger] final(self).collections@[k] == old(self).collections@[k]
                &&& c.id == o.id && c.owner == o.owner && c.is_public == o.is_public && c.created_at == o.created_at
                &&& c.name@ == name@ && c.description@ == description@ && c.updated_at == now
                &&& final(self).project_ids == old(self).project_ids
                &&& final(self).collection_list == old(self).collection_list
                &&& final(self).public_list == old(self).public_list
                &&& final(self).user_collections == old(self).user_collections
                &&& final(self).share_tokens == old(self).share_tokens
                &&& final(self).next_id == old(self).next_id
                &&& AdminActionLog::records(old(log), final(log), admin, AdminActionType::CollectionUpdated, Some(collection_id), None, now)
            },
    {
        admins.require_admin(admin)?;
        let (owner, is_public, created_at, same_name) = match self.require_collection(collection_id) {
            Ok(c) => (c.owner, c.is_public, c.created_at, bytes_eq(&c.name, &name)),
            Err(e) => return Err(e),
        };
        Self::validate_name(&name)?;
        Self::validate_description(&description)?;
        if !same_name {
            self.ensure_name_unique(&name, Some(collection_id))?;
        }
        let collection = Collection {
            id: collection_id,
            owner,
            name,
            description,
            is_public,
            created_at,
            updated_at: now,
        };
        self.collections.insert(collection_id, collection);
        proof {
            assert forall|k: u64| #[trigger] self.collections@.contains_key(k) <==> self.collection_list@.contains(k) by {
                assert(self.collections@.contains_key(k) == old(self).collections@.contains_key(k));
            }
        }
        log.record_action(admin, AdminActionType::CollectionUpdated, Some(collection_id), None, None, now);
        Ok(())
    }

    /// Deletes a collection and everything stored for it, on the word of an
    /// administrator.
    pub fn delete_collection(
        &mut self,
        admin: Addr,
        collection_id: u64,
        now: u64,
        admins: &AdminManager,
        log: &mut AdminActionLog,
    ) -> (r: Result<(), ContractError>)
        requires
            old(self).wf(),
            old(log).wf(),
            old(log).has_room(),
        ensures
            final(self).wf(),
            final(log).wf(),
            r == (if !admins.spec_is_admin(admin) {
                Err(ContractError::AdminOnly)
            } else if !old(self).collections@.contains_key(collection_id) {
                Err(ContractError::CollectionNotFound)
            } else {
                Ok::<(), ContractError>(())
            }),
            r is Err ==> *final(self) == *old(self) && *final(log) == *old(log),
            r is Ok ==> {
                let owner = old(self).collections@[collection_id].owner;
                &&& final(self).collections@ == old(self).collections@.remove(collection_id)
                &&& final(self).project_ids@ == old(self).project_ids@.remove(collection_id)
                &&& final(self).share_tokens@ == old(self).share_tokens@.remove(collection_id)
                &&& final(self).collection_list@ == without(old(self).collection_list@, collection_id)
                &&& final(self).public_list is Some
                &&& public_seq(final(self).public_list) == without(public_seq(old(self).public_list), collection_id)
                &&& list_in(final(self).user_collections@, owner.id) == without(list_in(old(self).user_collections@, owner.id), collection_id)
                &&& forall|k: u64| k != owner.id ==> #[trigger] list_in(final(self).user_collections@, k) == list_in(old(self).user_collections@, k)
                &&& final(self).next_id == old(self).next_id
                &&& AdminActionLog::records(old(log), final(log), admin, AdminActionType::CollectionDeleted, Some(collection_id), None, now)
            },
    {
        admins.require_admin(admin)?;
        let owner = match self.require_collection(collection_id) {
            Ok(c) => c.owner,
            Err(e) => return Err(e),
        };
        let updated = remove_item_u64(&self.collection_list, collection_id);
        proof {
            lemma_without_len(self.collection_list@, collection_id);
        }
        self.collection_list = updated;
        let pub_list = self.public_ids();
        self.public_list = Some(remove_item_u64(&pub_list, collection_id));
        let user_list = self.user_list(owner);
        self.user_collections.insert(owner.id, remove_item_u64(&user_list, collection_id));
        self.collections.remove(&collection_id);
        self.project_ids.remove(&collection_id);
        self.share_tokens.remove(&collection_id);
        proof {
            assert forall|k: u64| #[trigger] self.collections@.contains_key(k) <==> self.collection_list@.contains(k) by {
                lemma_without_contains(old(self).collection_list@, collection_id, k);
            }
            assert forall|k: u64| #[trigger] public_seq(self.public_list).contains(k) <==> (self.collections@.contains_key(k)
                && self.collections@[k].is_public) by {
                lemma_without_contains(public_seq(old(self).public_list), collection_id, k);
            }
            assert forall|k: u64| k != owner.id implies #[trigger] list_in(self.user_collections@, k) == list_in(old(self).user_collections@, k) by {
                if old(self).user_collections@.contains_key(k) {
                    assert(self.user_collections@[k] == old(self).user_collections@[k]);
                }
            }
        }
        log.record_action(admin, AdminActionType::CollectionDeleted, Some(collection_id), None, None, now);
        Ok(())
    }

    /// Adds `id` to the public list unless present (`public`), or removes
    /// it (`!public`); the list is written in either case.
    fn write_public(&mut self, id: u64, public: bool)
        ensures
            final(self).public_list is Some,
            public ==> public_seq(final(self).public_list) == (if public_seq(old(self).public_list).contains(id) {
                public_seq(old(self).public_list)
            } else {
                public_seq(old(self).public_list).push(id)
            }),
            !public ==> public_seq(final(self).public_list) == without(public_seq(old(self).public_list), id),
            final(self).collections == old(self).collections,
            final(self).project_ids == old(self).project_ids,
            final(self).collection_list == old(self).collection_list,
            final(self).user_collections == old(self).user_collections,
            final(self).share_tokens == old(self).share_tokens,
            final(self).next_id == old(self).next_id,
    {
        let mut pub_list = self.public_ids();
        if public {
            if !contains_u64(&pub_list, id) {
                pub_list.push(id);
            }
            self.public_list = Some(pub_list);
        } else {
            self.public_list = Some(remove_item_u64(&pub_list, id));
        }
    }

    /// Replaces the visibility of a stored collection and stamps it.
    fn set_visibility_field(&mut self, collection_id: u64, is_public: bool, now: u64)
        requires
            old(self).wf_core(),
            old(self).collections@.contains_key(collection_id),
        ensures
            final(self).wf_core(),
            final(self).collections@ == old(self).collections@.insert(
                collection_id,
                Collection { is_public, updated_at: now, ..old(self).collections@[collection_id] },
            ),
            final(self).project_ids == old(self).project_ids,
            final(self).collection_list == old(self).collection_list,
            final(self).public_list == old(self).public_list,
            final(self).user_collections == old(self).user_collections,
            final(self).share_tokens == old(self).share_tokens,
            final(self).next_id == old(self).next_id,
    {
        let mut c = self.collections.remove(&collection_id).unwrap();
        c.is_public = is_public;
        c.updated_at = now;
        self.collections.insert(collection_id, c);
        proof {
            assert(self.collections@ =~= old(self).collections@.insert(
                collection_id,
                Collection { is_public, updated_at: now, ..old(self).collections@[collection_id] },
            ));
            assert forall|k: u64| #[trigger] self.collections@.contains_key(k) <==> self.collection_list@.contains(k) by {
                assert(self.collections@.contains_key(k) == old(self).collections@.contains_key(k));
            }
        }
    }

    /// Flips a collection's visibility; allowed to its owner and to
    /// administrators. Returns the new visibility.
    pub fn toggle_collection_visibility(
        &mut self,
        caller: Addr,
        collection_id: u64,
        now: u64,
        admins: &AdminManager,
    ) -> (r: Result<bool, ContractError>)
        requires
            old(self).wf(),
        ensures
            final(self).wf(),
            r == (if !old(self).collections@.contains_key(collection_id) {
                Err(ContractError::CollectionNotFound)
            } else if old(self).collections@[collection_id].owner != caller && !admins.spec_is_admin(caller) {
                Err(ContractError::NotCollectionOwner)
            } else {
                Ok::<bool, ContractError>(!old(self).collections@[collection_id].is_public)
            }),
            r is Err ==> *final(self) == *old(self),
            r is Ok ==> {
                let v = r->Ok_0;
                let p = public_seq(old(self).public_list);
                &&& final(self).collections@ == old(self).collections@.insert(
                    collection_id,
                    Collection { is_public: v, updated_at: now, ..old(self).collections@[collection_id] },
                )
                &&& public_seq(final(self).public_list) == (if v {
                    if p.contains(collection_id) { p } else { p.push(collection_id) }
                } else {
                    without(p, collection_id)
                })
                &&& final(self).project_ids == old(self).project_ids
                &&& final(self).collection_list == old(self).collection_list
                &&& final(self).user_collections == old(self).user_collections
                &&& final(self).share_tokens == old(self).share_tokens
            },
    {
        let (owner, was_public) = match self.require_collection(collection_id) {
            Ok(c) => (c.owner, c.is_public),
            Err(e) => return Err(e),
        };
        if owner != caller && !admins.is_admin(caller) {
            return Err(ContractError::NotCollectionOwner);
        }
        let new_visibility = !was_public;
        let ghost p0 = public_seq(self.public_list);
        let ghost c0 = self.collections@;
        self.set_visibility_field(collection_id, new_visibility, now);
        self.write_public(collection_id, new_visibility);
        proof {
            lemma_public_after_visibility(p0, public_seq(self.public_list), c0, self.collections@, collection_id, new_visibility);
        }
        Ok(new_visibility)
    }

    /// Sets a collection's visibility; allowed to its owner and to
    /// administrators. Setting the current visibility changes nothing.
    pub fn set_collection_visibility(
        &mut self,
        caller: Addr,
        collection_id: u64,
        is_public: bool,
        now: u64,
        admins: &AdminManager,
    ) -> (r: Result<(), ContractError>)
        requires
            old(self).wf(),
        ensures
            final(self).wf(),
            r == (if !old(self).collections@.contains_key(collection_id) {
                Err(ContractError::CollectionNotFound)
            } else if old(self).collections@[collection_id].owner != caller && !admins.spec_is_admin(caller) {
                Err(ContractError::NotCollectionOwner)
            } else {
                Ok::<(), ContractError>(())
            }),
            r is Err ==> *final(self) == *old(self),
            r is Ok && old(self).collections@[collection_id].is_public == is_public ==> *final(self) == *old(self),
            r is Ok && old(self).collections@[collection_id].is_public != is_public ==> {
                let p = public_seq(old(self).public_list);
                &&& final(self).collections@ == old(self).collections@.insert(
                    collection_id,
                    Collection { is_public, updated_at: now, ..old(self).collections@[collection_id] },
                )
                &&& public_seq(final(self).public_list) == (if is_public {
                    if p.contains(collection_id) { p } else { p.push(collection_id) }
                } else {
                    without(p, collection_id)
                })
                &&& final(self).project_ids == old(self).project_ids
                &&& final(self).collection_list == old(self).collection_list
                &&& final(self).user_collections == old(self).user_collections
                &&& final(self).share_tokens == old(self).share_tokens
            },
    {
        let (owner, was_public) = match self.require_collection(collection_id) {
            Ok(c) => (c.owner, c.is_public),
            Err(e) => return Err(e),
        };
        if owner != caller && !admins.is_admin(caller) {
            return Err(ContractError::NotCollectionOwner);
        }
        if was_public == is_public {
            return Ok(());
        }
        let ghost p0 = public_seq(self.public_list);
        let ghost c0 = self.collections@;
        self.set_visibility_field(collection_id, is_public, now);
        self.write_public(collection_id, is_public);
        proof {
            lemma_public_after_visibility(p0, public_seq(self.public_list), c0, self.collections@, collection_id, is_public);
        }
        Ok(())
    }

    /// A public collection by id; private and unknown ones give `None`.
    pub fn get_collection(&self, collection_id: u64) -> (r: Option<&Collection>)
        ensures
            r.is_some() == (self.collections@.contains_key(collection_id) && self.collections@[collection_id].is_public),
            r.is_some() ==> *r.unwrap() == self.collections@[collection_id],
    {
        match self.collections.get(&collection_id) {
            Some(c) => if c.is_public { Some(c) } else { None },
            None => None,
        }
    }

    /// A collection as seen by `caller`: public ones, and private ones to
    /// their owner and to administrators.
    pub fn get_collection_for_caller(&self, caller: Addr, collection_id: u64, admins: &AdminManager) -> (r: Result<
        &Collection,
        ContractError,
    >)
        ensures
            !self.collections@.contains_key(collection_id) ==> r == Err::<&Collection, ContractError>(ContractError::CollectionNotFound),
            self.collections@.contains_key(collection_id) ==> {
                let c = self.collections@[collection_id];
                if c.is_public || c.owner == caller || admins.spec_is_admin(caller) {
                    r is Ok && *r->Ok_0 == c
                } else {
                    r == Err::<&Collection, ContractError>(ContractError::CollectionPrivate)
                }
            },
    {
        let c = self.require_collection(collection_id)?;
        if c.is_public || c.owner == caller || admins.is_admin(caller) {
            Ok(c)
        } else {
            Err(ContractError::CollectionPrivate)
        }
    }

    /// The ids that `list_collections` pages over: the stored public list,
    /// or, while none is stored, the listed collections that are public.
    pub open spec fn listing_ids(&self) -> Seq<u64> {
        match self.public_list {
            Some(v) => v@,
            None => self.collection_list@.filter(|id: u64| self.collections@.contains_key(id) && self.collections@[id].is_public),
        }
    }

    fn compute_public_ids(&self) -> (r: Vec<u64>)
        ensures
            r@ == self.collection_list@.filter(|id: u64| self.collections@.contains_key(id) && self.collections@[id].is_public),
    {
        let ghost f = |id: u64| self.collections@.contains_key(id) && self.collections@[id].is_public;
        let mut r: Vec<u64> = Vec::new();
        let mut i: usize = 0;
        while i < self.collection_list.len()
            invariant
                i <= self.collection_list@.len(),
                f == (|id: u64| self.collections@.contains_key(id) && self.collections@[id].is_public),
                r@ == self.collection_list@.subrange(0, i as int).filter(f),
            decreases self.collection_list@.len() - i,
        {
            proof {
                reveal_with_fuel(Seq::<_>::filter, 1);
                assert(self.collection_list@.subrange(0, i + 1).drop_last() =~= self.collection_list@.subrange(0, i as int));
            }
            let id = self.collection_list[i];
            match self.collections.get(&id) {
                Some(c) => if c.is_public {
                    r.push(id);
                },
                None => {},
            }
            i = i + 1;
        }
        proof {
            assert(self.collection_list@.subrange(0, i as int) =~= self.collection_list@);
        }
        r
    }

    /// The stored records of `ids`, skipping ids with none.
    fn records_of(&self, ids: &Vec<u64>) -> (page: Vec<&Collection>)
        ensures
            ({
                let recs = existing_collections(ids@, self.collections@);
                &&& page@.len() == recs.len()
                &&& forall|k: int| 0 <= k < recs.len() ==> *(#[trigger] page@[k]) == recs[k]
            }),
    {
        let mut page: Vec<&Collection> = Vec::new();
        let mut i: usize = 0;
        while i < ids.len()
            invariant
                i <= ids@.len(),
                ({
                    let recs = existing_collections(ids@.subrange(0, i as int), self.collections@);
                    &&& page@.len() == recs.len()
                    &&& forall|k: int| 0 <= k < recs.len() ==> *(#[trigger] page@[k]) == recs[k]
                }),
            decreases ids@.len() - i,
        {
            proof {
                assert(ids@.subrange(0, i + 1).drop_last() =~= ids@.subrange(0, i as int));
            }
            match self.collections.get(&ids[i]) {
                Some(c) => page.push(c),
                None => {},
            }
            i = i + 1;
        }
        proof {
            assert(ids@.subrange(0, i as int) =~= ids@);
        }
        page
    }

    /// A page of public collections.
    pub fn list_collections(&self, start_index: u32, limit: u32) -> (page: Vec<&Collection>)
        ensures
            ({
                let recs = existing_collections(page_of(self.listing_ids(), start_index, limit), self.collections@);
                &&& page@.len() == recs.len()
                &&& forall|k: int| 0 <= k < recs.len() ==> *(#[trigger] page@[k]) == recs[k]
            }),
    {
        let ids = match &self.public_list {
            Some(v) => copy_ids(v),
            None => self.compute_public_ids(),
        };
        let page_ids = paginate(&ids, start_index, limit);
        self.records_of(&page_ids)
    }

    /// Same as `list_collections`.
    pub fn list_public_collections(&self, start_index: u32, limit: u32) -> (page: Vec<&Collection>)
        ensures
            ({
                let recs = existing_collections(page_of(self.listing_ids(), start_index, limit), self.collections@);
                &&& page@.len() == recs.len()
                &&& forall|k: int| 0 <= k < recs.len() ==> *(#[trigger] page@[k]) == recs[k]
            }),
    {
        self.list_collections(start_index, limit)
    }

    /// A page of `owner`'s collections.
    pub fn list_user_collections(&self, owner: Addr, start_index: u32, limit: u32) -> (page: Vec<&Collection>)
        ensures
            ({
                let recs = existing_collections(
                    page_of(list_in(self.user_collections@, owner.id), start_index, limit),
                    self.collections@,
                );
                &&& page@.len() == recs.len()
                &&& forall|k: int| 0 <= k < recs.len() ==> *(#[trigger] page@[k]) == recs[k]
            }),
    {
        let ids = self.user_list(owner);
        let page_ids = paginate(&ids, start_index, limit);
        self.records_of(&page_ids)
    }

    /// Adds an existing project to a collection on the word of an
    /// administrator.
    pub fn add_project_to_collection(
        &mut self,
        admin: Addr,
        collection_id: u64,
        project_id: u64,
        now: u64,
        admins: &AdminManager,
        projects: &ProjectBook,
        log: &mut AdminActionLog,
    ) -> (r: Result<(), ContractError>)
        requires
            old(self).wf(),
            old(log).wf(),
            old(log).has_room(),
        ensures
            final(self).wf(),
            final(log).wf(),
            r == (if !admins.spec_is_admin(admin) {
                Err(ContractError::AdminOnly)
            } else if !old(self).collections@.contains_key(collection_id) {
                Err(ContractError::CollectionNotFound)
            } else if !projects.has(project_id) {
                Err(ContractError::ProjectNotFound)
            } else if old(self).projects_of(collection_id).contains(project_id) {
                Err(ContractError::AlreadyInCollection)
            } else if old(self).projects_of(collection_id).len() >= MAX_PROJECTS_PER_COLLECTION {
                Err(ContractError::CollectionFull)
            } else {
                Ok::<(), ContractError>(())
            }),
            r is Err ==> *final(self) == *old(self) && *final(log) == *old(log),
            r is Ok ==> {
                &&& final(self).projects_of(collection_id) == old(self).projects_of(collection_id).push(project_id)
                &&& forall|k: u64| k != collection_id ==> #[trigger] final(self).projects_of(k) == old(self).projects_of(k)
                &&& final(self).collections == old(self).collections
                &&& final(self).collection_list == old(self).collection_list
                &&& final(self).public_list == old(self).public_list
                &&& final(self).user_collections == old(self).user_collections
                &&& final(self).share_tokens == old(self).share_tokens
                &&& final(self).next_id == old(self).next_id
                &&& AdminActionLog::records(old(log), final(log), admin, AdminActionType::ProjectAddedToCollection, Some(collection_id), None, now)
            },
    {
        admins.require_admin(admin)?;
        if let Err(e) = self.require_collection(collection_id) {
            return Err(e);
        }
        if projects.get_project(project_id).is_none() {
            return Err(ContractError::ProjectNotFound);
        }
        let mut ids = self.collection_project_ids(collection_id);
        if contains_u64(&ids, project_id) {
            return Err(ContractError::AlreadyInCollection);
        }
        if ids.len() as u64 >= MAX_PROJECTS_PER_COLLECTION as u64 {
            return Err(ContractError::CollectionFull);
        }
        ids.push(project_id);
        self.project_ids.insert(collection_id, ids);
        proof {
            assert forall|k: u64| k != collection_id implies #[trigger] self.projects_of(k) == old(self).projects_of(k) by {
                if old(self).project_ids@.contains_key(k) {
                    assert(self.project_ids@[k] == old(self).project_ids@[k]);
                }
            }
        }
        log.record_action(admin, AdminActionType::ProjectAddedToCollection, Some(collection_id), None, None, now);
        Ok(())
    }

    /// Removes a project from a collection on the word of an administrator.
    pub fn remove_project_from_collection(
        &mut self,
        admin: Addr,
        collection_id: u64,
        project_id: u64,
        now: u64,
        admins: &AdminManager,
        log: &mut AdminActionLog,
    ) -> (r: Result<(), ContractError>)
        requires
            old(self).wf(),
            old(log).wf(),
            old(log).has_room(),
        ensures
            final(self).wf(),
            final(log).wf(),
            r == (if !admins.spec_is_admin(admin) {
                Err(ContractError::AdminOnly)
            } else if !old(self).collections@.contains_key(collection_id) {
                Err(ContractError::CollectionNotFound)
            } else if !old(self).projects_of(collection_id).contains(project_id) {
                Err(ContractError::NotInCollection)
            } else {
                Ok::<(), ContractError>(())
            }),
            r is Err ==> *final(self) == *old(self) && *final(log) == *old(log),
            r is Ok ==> {
                &&& final(self).projects_of(collection_id) == without(old(self).projects_of(collection_id), project_id)
                &&& forall|k: u64| k != collection_id ==> #[trigger] final(self).projects_of(k) == old(self).projects_of(k)
                &&& final(self).collections == old(self).collections
                &&& final(self).collection_list == old(self).collection_list
                &&& final(self).public_list == old(self).public_list
                &&& final(self).user_collections == old(self).user_collections
                &&& final(self).share_tokens == old(self).share_tokens
                &&& final(self).next_id == old(self).next_id
                &&& AdminActionLog::records(old(log), final(log), admin, AdminActionType::ProjectRemovedFromCollection, Some(collection_id), None, now)
            },
    {
        admins.require_admin(admin)?;
        if let Err(e) = self.require_collection(collection_id) {
            return Err(e);
        }
        let ids = self.collection_project_ids(collection_id);
        if !contains_u64(&ids, project_id) {
            return Err(ContractError::NotInCollection);
        }
        let updated = remove_item_u64(&ids, project_id);
        proof {
            crate::utils::lemma_filter_len_le(ids@, project_id);
        }
        self.project_ids.insert(collection_id, updated);
        proof {
            assert forall|k: u64| k != collection_id implies #[trigger] self.projects_of(k) == old(self).projects_of(k) by {
                if old(self).project_ids@.contains_key(k) {
                    assert(self.project_ids@[k] == old(self).project_ids@[k]);
                }
            }
        }
        log.record_action(admin, AdminActionType::ProjectRemovedFromCollection, Some(collection_id), None, None, now);
        Ok(())
    }

    /// A page of the projects of a public collection; empty for private or
    /// unknown ones.
    pub fn list_collection_projects(&self, collection_id: u64, start_index: u32, limit: u32) -> (page: Vec<u64>)
        ensures
            (self.collections@.contains_key(collection_id) && self.collections@[collection_id].is_public)
                ==> page@ == page_of(self.projects_of(collection_id), start_index, limit),
            !(self.collections@.contains_key(collection_id) && self.collections@[collection_id].is_public)
                ==> page@.len() == 0,
    {
        match self.collections.get(&collection_id) {
            Some(col) => {
                if !col.is_public {
                    return Vec::new();
                }
            },
            None => return Vec::new(),
        }
        let ids = self.collection_project_ids(collection_id);
        paginate(&ids, start_index, limit)
    }

    /// A page of a collection's projects as seen by `caller`.
    pub fn list_collection_projects_for_caller(
        &self,
        caller: Addr,
        collection_id: u64,
        start_index: u32,
        limit: u32,
        admins: &AdminManager,
    ) -> (r: Result<Vec<u64>, ContractError>)
        ensures
            !self.collections@.contains_key(collection_id) ==> r == Err::<Vec<u64>, ContractError>(ContractError::CollectionNotFound),
            self.collections@.contains_key(collection_id) ==> {
                let c = self.collections@[collection_id];
                if !c.is_public && c.owner != caller && !admins.spec_is_admin(caller) {
                    r == Err::<Vec<u64>, ContractError>(ContractError::CollectionPrivate)
                } else {
                    r is Ok && r->Ok_0@ == page_of(self.projects_of(collection_id), start_index, limit)
                }
            },
    {
        let (is_public, owner) = match self.require_collection(collection_id) {
            Ok(c) => (c.is_public, c.owner),
            Err(e) => return Err(e),
        };
        if !is_public && owner != caller && !admins.is_admin(caller) {
            return Err(ContractError::CollectionPrivate);
        }
        let ids = self.collection_project_ids(collection_id);
        Ok(paginate(&ids, start_index, limit))
    }

    /// Number of projects in a collection.
    pub fn get_collection_project_count(&self, collection_id: u64) -> (n: u32)
        requires
            self.wf(),
        ensures
            n == self.projects_of(collection_id).len(),
    {
        match self.project_ids.get(&collection_id) {
            Some(v) => v.len() as u32,
            None => 0,
        }
    }

    /// Stores the token derived from `digest` (the SHA-256 digest of
    /// `share_seed(collection_id, ledger time, ledger sequence)`) and
    /// returns the share link; allowed to the owner and to administrators.
    pub fn generate_collection_share_link(
        &mut self,
        caller: Addr,
        collection_id: u64,
        digest: &Vec<u8>,
        admins: &AdminManager,
    ) -> (r: Result<Vec<u8>, ContractError>)
        requires
            old(self).wf(),
        ensures
            final(self).wf(),
            !old(self).collections@.contains_key(collection_id) ==> r == Err::<Vec<u8>, ContractError>(ContractError::CollectionNotFound),
            old(self).collections@.contains_key(collection_id) && old(self).collections@[collection_id].owner != caller
                && !admins.spec_is_admin(caller) ==> r == Err::<Vec<u8>, ContractError>(ContractError::NotCollectionOwner),
            old(self).collections@.contains_key(collection_id) && (old(self).collections@[collection_id].owner == caller
                || admins.spec_is_admin(caller)) ==> r is Ok,
            r is Err ==> *final(self) == *old(self),
            r is Ok ==> {
                let token = hex_of(take32(digest@));
                &&& r->Ok_0@ == share_link(collection_id, token)
                &&& final(self).share_tokens@.contains_key(collection_id)
                &&& final(self).share_tokens@[collection_id]@ == token
                &&& forall|k: u64| k != collection_id ==> #[trigger] final(self).share_tokens@.contains_key(k)
                    == old(self).share_tokens@.contains_key(k)
                &&& forall|k: u64| k != collection_id && old(self).share_tokens@.contains_key(k)
                    ==> #[trigger] final(self).share_tokens@[k] == old(self).share_tokens@[k]
                &&& final(self).collections == old(self).collections
                &&& final(self).project_ids == old(self).project_ids
                &&& final(self).collection_list == old(self).collection_list
                &&& final(self).public_list == old(self).public_list
                &&& final(self).user_collections == old(self).user_collections
                &&& final(self).next_id == old(self).next_id
            },
    {
        let owner = match self.require_collection(collection_id) {
            Ok(c) => c.owner,
            Err(e) => return Err(e),
        };
        if owner != caller && !admins.is_admin(caller) {
            return Err(ContractError::NotCollectionOwner);
        }
        let token_hex = bytes_to_hex(digest);
        let link = format_share_link(collection_id, &token_hex);
        self.share_tokens.insert(collection_id, token_hex);
        Ok(link)
    }

    /// The collection that `share_token` opens: the stored token itself or
    /// the full share link built from it.
    pub fn get_collection_by_share_token(&self, collection_id: u64, share_token: &Vec<u8>) -> (r: Result<
        &Collection,
        ContractError,
    >)
        ensures
            !self.collections@.contains_key(collection_id) ==> r == Err::<&Collection, ContractError>(ContractError::CollectionNotFound),
            self.collections@.contains_key(collection_id) && !self.share_tokens@.contains_key(collection_id)
                ==> r == Err::<&Collection, ContractError>(ContractError::ShareTokenNotFound),
            self.collections@.contains_key(collection_id) && self.share_tokens@.contains_key(collection_id) ==> {
                let stored = self.share_tokens@[collection_id]@;
                if stored != share_token@ && share_link(collection_id, stored) != share_token@ {
                    r == Err::<&Collection, ContractError>(ContractError::InvalidShareToken)
                } else {
                    r is Ok && *r->Ok_0 == self.collections@[collection_id]
                }
            },
    {
        let collection = self.require_collection(collection_id)?;
        let stored = match self.share_tokens.get(&collection_id) {
            Some(tok) => tok,
            None => return Err(ContractError::ShareTokenNotFound),
        };
        let full_link = format_share_link(collection_id, stored);
        if !bytes_eq(stored, share_token) && !bytes_eq(&full_link, share_token) {
            return Err(ContractError::InvalidShareToken);
        }
        Ok(collection)
    }

    /// Removes a collection's share token; allowed to the owner and to
    /// administrators.
    pub fn revoke_collection_share_link(&mut self, caller: Addr, collection_id: u64, admins: &AdminManager) -> (r:
        Result<(), ContractError>)
        requires
            old(self).wf(),
        ensures
            final(self).wf(),
            r == (if !old(self).collections@.contains_key(collection_id) {
                Err(ContractError::CollectionNotFound)
            } else if old(self).collections@[collection_id].owner != caller && !admins.spec_is_admin(caller) {
                Err(ContractError::NotCollectionOwner)
            } else {
                Ok::<(), ContractError>(())
            }),
            r is Err ==> *final(self) == *old(self),
            r is Ok ==> final(self).share_tokens@ == old(self).share_tokens@.remove(collection_id)
                && final(self).collections == old(self).collections
                && final(self).project_ids == old(self).project_ids
                && final(self).collection_list == old(self).collection_list
                && final(self).public_list == old(self).public_list
                && final(self).user_collections == old(self).user_collections
                && final(self).next_id == old(self).next_id,
    {
        let owner = match self.require_collection(collection_id) {
            Ok(c) => c.owner,
            Err(e) => return Err(e),
        };
        if owner != caller && !admins.is_admin(caller) {
            return Err(ContractError::NotCollectionOwner);
        }
        self.share_tokens.remove(&collection_id);
        Ok(())
    }

    /// Number of collections.
    pub fn get_collection_count(&self) -> (n: u64)
        ensures
            n == self.collection_list@.len(),
    {
        self.collection_list.len() as u64
    }
}

/// The records of the listed ids that exist, in list order.
pub open spec fn existing_collections(ids: Seq<u64>, cols: Map<u64, Collection>) -> Seq<Collection>
    decreases ids.len(),
{
    if ids.len() == 0 {
        Seq::empty()
    } else {
        let rest = existing_collections(ids.drop_last(), cols);
        if cols.contains_key(ids.last()) { rest.push(cols[ids.last()]) } else { rest }
    }
}

/// The first 32 bytes of `b` (all of them when shorter).
pub open spec fn take32(b: Seq<u8>) -> Seq<u8> {
    if b.len() <= 32 { b } else { b.subrange(0, 32) }
}

/// The lower-case hex digit of a value below 16.
pub open spec fn hex_digit(v: u8) -> u8 {
    if v < 10 { (48 + v) as u8 } else { (87 + v) as u8 }
}

/// Lower-case hex text of `b`, two digits per byte.
pub open spec fn hex_of(b: Seq<u8>) -> Seq<u8>
    decreases b.len(),
{
    if b.len() == 0 {
        Seq::empty()
    } else {
        hex_of(b.drop_last()).push(hex_digit((b.last() / 16) as u8)).push(hex_digit((b.last() % 16) as u8))
    }
}

/// Decimal digits of `n`, most significant first.
pub open spec fn decimal(n: u64) -> Seq<u8>
    decreases n,
{
    if n < 10 {
        seq![(48 + n) as u8]
    } else {
        decimal(n / 10).push((48 + n % 10) as u8)
    }
}

/// The share link of a collection: the site prefix, the collection id in
/// decimal, `?key=` and the first 128 bytes of the token.
pub open spec fn share_link(id: u64, token: Seq<u8>) -> Seq<u8> {
    let t = if token.len() <= 128 { token } else { token.subrange(0, 128) };
    "https://dongle.hub/c/".spec_bytes() + decimal(id) + "?key=".spec_bytes() + t
}

/// Lower-case hex text of the first 32 bytes of `bytes`.
pub fn bytes_to_hex(bytes: &Vec<u8>) -> (r: Vec<u8>)
    ensures
        r@ == hex_of(take32(bytes@)),
{
    let n = if bytes.len() < 32 { bytes.len() } else { 32 };
    let mut r: Vec<u8> = Vec::new();
    let mut i: usize = 0;
    while i < n
        invariant
            n <= bytes@.len(),
            n == (if bytes@.len() < 32 { bytes@.len() } else { 32 }),
            i <= n,
            r@ == hex_of(bytes@.subrange(0, i as int)),
        decreases n - i,
    {
        let b = bytes[i];
        let hi = b / 16;
        let lo = b % 16;
        r.push(if hi < 10 { 48 + hi } else { 87 + hi });
        r.push(if lo < 10 { 48 + lo } else { 87 + lo });
        proof {
            assert(bytes@.subrange(0, i + 1).drop_last() =~= bytes@.subrange(0, i as int));
        }
        i = i + 1;
    }
    proof {
        assert(bytes@.subrange(0, n as int) =~= take32(bytes@));
    }
    r
}

/// Appends the decimal digits of `n`.
pub(crate) fn push_decimal(out: &mut Vec<u8>, n: u64)
    ensures
        final(out)@ == old(out)@ + decimal(n),
    decreases n,
{
    if n >= 10 {
        push_decimal(out, n / 10);
    }
    out.push(48 + (n % 10) as u8);
    proof {
        if n < 10 {
            assert(decimal(n) =~= seq![(48 + n) as u8]);
        }
        assert(final(out)@ =~= old(out)@ + decimal(n)) by {
            if n >= 10 {
                assert(old(out)@ + decimal(n / 10) + seq![(48 + n % 10) as u8] =~= old(out)@ + decimal(n));
            }
        }
    }
}

/// Appends all of `b`.
fn push_all(out: &mut Vec<u8>, b: &[u8])
    ensures
        final(out)@ == old(out)@ + b@,
{
    let mut i: usize = 0;
    while i < b.len()
        invariant
            i <= b@.len(),
            out@ == old(out)@ + b@.subrange(0, i as int),
        decreases b@.len() - i,
    {
        out.push(b[i]);
        i = i + 1;
        assert(out@ =~= old(out)@ + b@.subrange(0, i as int));
    }
    assert(b@.subrange(0, i as int) =~= b@);
}

/// The share link of collection `id` for `token`.
pub fn format_share_link(id: u64, token: &Vec<u8>) -> (r: Vec<u8>)
    ensures
        r@ == share_link(id, token@),
{
    let mut out: Vec<u8> = Vec::new();
    push_all(&mut out, "https://dongle.hub/c/".as_bytes());
    push_decimal(&mut out, id);
    push_all(&mut out, "?key=".as_bytes());
    let t_cap = if token.len() < 128 { token.len() } else { 128 };
    let mut i: usize = 0;
    let ghost before = out@;
    while i < t_cap
        invariant
            t_cap <= token@.len(),
            t_cap == (if token@.len() < 128 { token@.len() } else { 128 }),
            i <= t_cap,
            out@ == before + token@.subrange(0, i as int),
        decreases t_cap - i,
    {
        out.push(token[i]);
        i = i + 1;
        assert(out@ =~= before + token@.subrange(0, i as int));
    }
    proof {
        let t = if token@.len() <= 128 { token@ } else { token@.subrange(0, 128) };
        assert(token@.subrange(0, t_cap as int) =~= t);
        assert(out@ =~= share_link(id, token@));
    }
    out
}

/// The 20 bytes whose SHA-256 digest becomes a share token: the collection
/// id and the ledger time as big-endian 8-byte numbers, then the ledger
/// sequence as a big-endian 4-byte number.
pub open spec fn spec_share_seed(collection_id: u64, timestamp: u64, sequence: u32) -> Seq<u8> {
    be_bytes(collection_id as nat, 8) + be_bytes(timestamp as nat, 8) + be_bytes(sequence as nat, 4)
}

/// The `n` low bytes of `x`, most significant first.
pub open spec fn be_bytes(x: nat, n: nat) -> Seq<u8>
    decreases n,
{
    if n == 0 {
        Seq::empty()
    } else {
        be_bytes(x / 256, (n - 1) as nat).push((x % 256) as u8)
    }
}

fn push_be(out: &mut Vec<u8>, x: u64, n: u32)
    requires
        n <= 8,
    ensures
        final(out)@ == old(out)@ + be_bytes(x as nat, n as nat),
    decreases n,
{
    if n > 0 {
        push_be(out, x / 256, n - 1);
        out.push((x % 256) as u8);
        assert(final(out)@ =~= old(out)@ + be_bytes(x as nat, n as nat));
    } else {
        assert(final(out)@ =~= old(out)@ + be_bytes(x as nat, n as nat));
    }
}

/// The bytes hashed into a collection's share token.
pub fn share_seed(collection_id: u64, timestamp: u64, sequence: u32) -> (r: Vec<u8>)
    ensures
        r@ == spec_share_seed(collection_id, timestamp, sequence),
{
    let mut out: Vec<u8> = Vec::new();
    push_be(&mut out, collection_id, 8);
    push_be(&mut out, timestamp, 8);
    push_be(&mut out, sequence as u64, 4);
    assert(out@ =~= spec_share_seed(collection_id, timestamp, sequence));
    out
}

/// After changing the visibility of collection `cid` to `v` and updating
/// the public list to match, the list again holds exactly the public
/// collections.
proof fn lemma_public_after_visibility(
    p: Seq<u64>,
    np: Seq<u64>,
    old_c: Map<u64, Collection>,
    new_c: Map<u64, Collection>,
    cid: u64,
    v: bool,
)
    requires
        forall|id: u64| #[trigger] p.contains(id) <==> (old_c.contains_key(id) && old_c[id].is_public),
        old_c.contains_key(cid),
        new_c == old_c.insert(cid, Collection { is_public: v, ..new_c[cid] }),
        np == (if v {
            if p.contains(cid) { p } else { p.push(cid) }
        } else {
            without(p, cid)
        }),
    ensures
        forall|id: u64| #[trigger] np.contains(id) <==> (new_c.contains_key(id) && new_c[id].is_public),
{
    assert forall|id: u64| #[trigger] np.contains(id) <==> (new_c.contains_key(id) && new_c[id].is_public) by {
        if v {
            if !p.contains(cid) {
                if id == cid {
                    assert(p.push(cid)[p.len() as int] == cid);
                } else {
                    if p.contains(id) {
                        let i = choose|i: int| 0 <= i < p.len() && p[i] == id;
                        assert(p.push(cid)[i] == id);
                    }
                    if p.push(cid).contains(id) {
                        let i = choose|i: int| 0 <= i < p.len() + 1 && p.push(cid)[i] == id;
                        assert(i < p.len());
                        assert(p[i] == id);
                    }
                }
            }
        } else {
            lemma_without_contains(p, cid, id);
        }
    }
}

} // verus!
