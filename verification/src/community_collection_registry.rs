//! Community collections: user-created, curator-run collections of projects
//! with vote-driven inclusion, admin-made templates, a featured list and
//! revenue attribution between creator and curators.
use vstd::prelude::*;
use std::collections::HashMap;
use crate::admin_action_log::{AdminActionLog, AdminActionType};
use crate::admin_manager::AdminManager;
use crate::collection_registry::list_in;
use crate::constants::{
    DEFAULT_COMMUNITY_COL_APPROVAL_THRESHOLD, DEFAULT_COMMUNITY_COL_CREATOR_SHARE_BPS,
    DEFAULT_COMMUNITY_COL_DISAPPROVAL_THRESHOLD, MAX_COMMUNITY_COLLECTIONS, MAX_COMMUNITY_COL_CREATOR_SHARE_BPS,
    MAX_COMMUNITY_COL_CURATORS, MAX_COMMUNITY_COL_DESCRIPTION_LEN, MAX_COMMUNITY_COL_NAME_LEN,
    MAX_COMMUNITY_COL_PROJECTS, MAX_COMMUNITY_COL_TAGS_LEN, MAX_FEATURED_COMMUNITY_COLLECTIONS,
    MIN_COMMUNITY_COL_CREATOR_SHARE_BPS,
};
use crate::types::{Addr, ContractError, ProjectBook};
use crate::pagination::{page_of, paginate};
use crate::utils::{bytes_eq, contains_addr, contains_u64, copy_ids, copy_text, normalize, normalize_name, remove_item_u64, text, without};
use vstd::string::StringSliceAdditionalSpecFns;

verus! {

broadcast use vstd::std_specs::hash::group_hash_axioms;

/// The starter templates an administrator can instantiate.
#[derive(Clone, Copy, Debug, PartialEq, Eq, Structural)]
pub enum CommunityCollectionTemplateId {
    Defi,
    Nft,
    Dao,
    Gaming,
    Infra,
    Stablecoins,
    PublicGoods,
    Verified,
}

/// Where a project stands with respect to a collection.
#[derive(Clone, Copy, Debug, PartialEq, Eq, Structural)]
pub enum CommunityColInclusionStatus {
    Included,
    Pending,
    Excluded,
}

/// One member's vote on including a project.
#[derive(Clone, Copy, Debug, PartialEq, Eq, Structural)]
pub struct CommunityCollectionVote {
    pub collection_id: u64,
    pub project_id: u64,
    pub voter: Addr,
    pub approve: bool,
    pub created_at: u64,
}

/// Cumulative revenue attributed to a collection's creator and curators.
#[derive(Clone, Copy, Debug, PartialEq, Eq, Structural)]
pub struct CommunityColRevenueSnapshot {
    pub collection_id: u64,
    pub creator_cumulative_attributed: u128,
    pub curators_cumulative_attributed: u128,
    pub total_cumulative_attributed: u128,
    pub as_of_timestamp: u64,
}

/// A community collection.
pub struct CommunityCollection {
    pub id: u64,
    pub creator: Addr,
    pub curators: Vec<Addr>,
    pub approval_threshold: u32,
    pub disapproval_threshold: u32,
    pub name: Vec<u8>,
    pub description: Vec<u8>,
    pub tags: Option<Vec<u8>>,
    pub is_template: bool,
    pub template_source: Option<CommunityCollectionTemplateId>,
    pub is_featured: bool,
    pub creator_revenue_share_bps: u32,
    pub created_at: u64,
    pub updated_at: u64,
}

/// One write to the name index: `name` now names `id`, or nothing.
pub struct NameEntry {
    pub name: Vec<u8>,
    pub id: Option<u64>,
}

/// Vote counts of one project in one collection, as last written.
#[derive(Clone, Copy, Debug, PartialEq, Eq, Structural)]
pub struct VoteTally {
    pub collection_id: u64,
    pub project_id: u64,
    pub approvals: u32,
    pub disapprovals: u32,
}

/// Cumulative revenue figures of one collection.
#[derive(Clone, Copy, Debug, PartialEq, Eq, Structural)]
pub struct RevenueTotals {
    pub creator: u128,
    pub curators: u128,
    pub events: u64,
}

/// The community-collection state.
pub struct CommunityCollectionRegistry {
    /// The id the next collection gets.
    pub next_id: u64,
    pub collections: HashMap<u64, CommunityCollection>,
    /// Writes to the index from normalized names to ids; the latest write
    /// for a name wins.
    pub names: Vec<NameEntry>,
    pub project_ids: HashMap<u64, Vec<u64>>,
    /// Ids of the non-template collections, in creation order.
    pub collection_list: Vec<u64>,
    /// Collection ids by creator address id.
    pub by_creator: HashMap<u64, Vec<u64>>,
    /// Collection ids by curator address id.
    pub by_curator: HashMap<u64, Vec<u64>>,
    /// (collection, project) pairs a curator added directly.
    pub curator_included: Vec<(u64, u64)>,
    /// (collection, project) pairs a curator removed directly.
    pub curator_excluded: Vec<(u64, u64)>,
    pub votes: Vec<CommunityCollectionVote>,
    /// Writes of vote counts; the latest write for a pair wins.
    pub tallies: Vec<VoteTally>,
    /// Featured collection ids, oldest first.
    pub featured: Vec<u64>,
    pub revenue: HashMap<u64, RevenueTotals>,
}

/// The id the index gives a normalized name, if any.
pub open spec fn name_lookup(es: Seq<NameEntry>, k: Seq<u8>) -> Option<u64>
    decreases es.len(),
{
    if es.len() == 0 {
        None
    } else if es.last().name@ == k {
        es.last().id
    } else {
        name_lookup(es.drop_last(), k)
    }
}

/// The vote counts of a project in a collection: (approvals, disapprovals).
pub open spec fn tally_of(ts: Seq<VoteTally>, id: u64, pid: u64) -> (u32, u32)
    decreases ts.len(),
{
    if ts.len() == 0 {
        (0, 0)
    } else if ts.last().collection_id == id && ts.last().project_id == pid {
        (ts.last().approvals, ts.last().disapprovals)
    } else {
        tally_of(ts.drop_last(), id, pid)
    }
}

/// The vote of `voter` on a project in a collection, if cast.
pub open spec fn vote_lookup(vs: Seq<CommunityCollectionVote>, id: u64, pid: u64, voter: Addr) -> Option<
    CommunityCollectionVote,
>
    decreases vs.len(),
{
    if vs.len() == 0 {
        None
    } else if vs.last().collection_id == id && vs.last().project_id == pid && vs.last().voter == voter {
        Some(vs.last())
    } else {
        vote_lookup(vs.drop_last(), id, pid, voter)
    }
}

/// An optional text as bytes.
pub open spec fn opt_text(t: Option<Vec<u8>>) -> Option<Seq<u8>> {
    match t {
        Some(v) => Some(v@),
        None => None,
    }
}

/// Name, description and tags are within their bounds.
pub open spec fn metadata_ok(name: Seq<u8>, description: Seq<u8>, tags: Option<Seq<u8>>) -> bool {
    &&& 0 < name.len() <= MAX_COMMUNITY_COL_NAME_LEN
    &&& 0 < description.len() <= MAX_COMMUNITY_COL_DESCRIPTION_LEN
    &&& match tags {
        Some(t) => t.len() <= MAX_COMMUNITY_COL_TAGS_LEN,
        None => true,
    }
}

/// Thresholds are both zero (voting off) or both positive.
pub open spec fn thresholds_ok(approval: u32, disapproval: u32) -> bool {
    (approval == 0) == (disapproval == 0)
}

/// A creator share is within bounds and leaves curators at least 10% when
/// there are curators.
pub open spec fn revenue_share_ok(creator_share_bps: u32, num_curators: u32) -> bool {
    &&& MIN_COMMUNITY_COL_CREATOR_SHARE_BPS <= creator_share_bps <= MAX_COMMUNITY_COL_CREATOR_SHARE_BPS
    &&& !(num_curators > 0 && (if creator_share_bps <= 10_000 { 10_000 - creator_share_bps } else { 0 }) < 1_000)
}

/// Whether `a` may curate `c`: its creator or one of its curators.
pub open spec fn is_curator(c: CommunityCollection, a: Addr) -> bool {
    c.creator == a || c.curators@.contains(a)
}

/// Number of addresses in `s` with id `k`.
pub open spec fn count_key(s: Seq<Addr>, k: u64) -> nat
    decreases s.len(),
{
    if s.len() == 0 {
        0
    } else {
        count_key(s.drop_last(), k) + if s.last().id == k { 1nat } else { 0nat }
    }
}

/// The projects copied into a new collection from `s`: those that exist
/// (ids 1 to `count`), each once, at most the cap, in order.
pub open spec fn seeded(s: Seq<u64>, count: nat) -> Seq<u64>
    decreases s.len(),
{
    if s.len() == 0 {
        Seq::empty()
    } else {
        let r = seeded(s.drop_last(), count);
        let x = s.last();
        if 1 <= x <= count && !r.contains(x) && r.len() < MAX_COMMUNITY_COL_PROJECTS {
            r.push(x)
        } else {
            r
        }
    }
}

/// The default name, description and tags of a template.
pub open spec fn template_text(t: CommunityCollectionTemplateId) -> (Seq<u8>, Seq<u8>, Seq<u8>) {
    match t {
        CommunityCollectionTemplateId::Defi => (
            "Stellar DeFi Darlings".spec_bytes(),
            "Well-known liquidity pools, DEXs, lending and borrowing products on Stellar.".spec_bytes(),
            "defi,dex,lending,liquidity".spec_bytes(),
        ),
        CommunityCollectionTemplateId::Nft => (
            "NFT & Marketplaces".spec_bytes(),
            "Marketplaces, trading venues and minting tools for Stellar NFTs.".spec_bytes(),
            "nft,marketplace,minting".spec_bytes(),
        ),
        CommunityCollectionTemplateId::Dao => (
            "DAO & Governance Tools".spec_bytes(),
            "DAO frameworks, voting systems, treasury management and multisig contracts.".spec_bytes(),
            "dao,governance,multisig,treasury".spec_bytes(),
        ),
        CommunityCollectionTemplateId::Gaming => (
            "Gaming & Metaverse".spec_bytes(),
            "On-chain game worlds, land, in-game assets and metaverse projects.".spec_bytes(),
            "gaming,metaverse,game-assets".spec_bytes(),
        ),
        CommunityCollectionTemplateId::Infra => (
            "Infrastructure & Tooling".spec_bytes(),
            "Oracles, RPC, bridges, block explorers, indexing and SDKs for Stellar.".spec_bytes(),
            "infra,tooling,oracle,rpc,bridge".spec_bytes(),
        ),
        CommunityCollectionTemplateId::Stablecoins => (
            "Stablecoins & Payments".spec_bytes(),
            "Fiat-backed and algorithmic stablecoins plus payment-focused contracts.".spec_bytes(),
            "stablecoin,stablecoins, payments".spec_bytes(),
        ),
        CommunityCollectionTemplateId::PublicGoods => (
            "Public Goods & Sustainability".spec_bytes(),
            "Retroactive public-goods funding, carbon, R&D grants and open-source stewards.".spec_bytes(),
            "public-goods,sustainability,grants".spec_bytes(),
        ),
        CommunityCollectionTemplateId::Verified => (
            "Audited & Verified".spec_bytes(),
            "A starter collection curated from the registry's verified set \u{2014} trust but verify.".spec_bytes(),
            "verified,audited,trusted".spec_bytes(),
        ),
    }
}

/// Appends `item` to the list stored under `key`.
fn append_to_list(m: &mut HashMap<u64, Vec<u64>>, key: u64, item: u64)
    ensures
        list_in(final(m)@, key) == list_in(old(m)@, key).push(item),
        final(m)@.contains_key(key),
        forall|k: u64| k != key ==> #[trigger] final(m)@.contains_key(k) == old(m)@.contains_key(k),
        forall|k: u64| k != key && old(m)@.contains_key(k) ==> #[trigger] final(m)@[k] == old(m)@[k],
{
    let mut list = match m.get(&key) {
        Some(v) => copy_ids(v),
        None => Vec::new(),
    };
    list.push(item);
    m.insert(key, list);
}

impl CommunityCollectionRegistry {
    pub fn new() -> (r: CommunityCollectionRegistry)
        ensures
            r.wf(),
            r.next_id == 1,
            r.collections@ == Map::<u64, CommunityCollection>::empty(),
            r.names@.len() == 0,
            r.project_ids@ == Map::<u64, Vec<u64>>::empty(),
            r.collection_list@.len() == 0,
            r.by_creator@ == Map::<u64, Vec<u64>>::empty(),
            r.by_curator@ == Map::<u64, Vec<u64>>::empty(),
            r.curator_included@.len() == 0,
            r.curator_excluded@.len() == 0,
            r.votes@.len() == 0,
            r.tallies@.len() == 0,
            r.featured@.len() == 0,
            r.revenue@ == Map::<u64, RevenueTotals>::empty(),
    {
        CommunityCollectionRegistry {
            next_id: 1,
            collections: HashMap::new(),
            names: Vec::new(),
            project_ids: HashMap::new(),
            collection_list: Vec::new(),
            by_creator: HashMap::new(),
            by_curator: HashMap::new(),
            curator_included: Vec::new(),
            curator_excluded: Vec::new(),
            votes: Vec::new(),
            tallies: Vec::new(),
            featured: Vec::new(),
            revenue: HashMap::new(),
        }
    }

    /// The projects of a collection, empty when none are stored.
    pub open spec fn projects_of(&self, id: u64) -> Seq<u64> {
        list_in(self.project_ids@, id)
    }

    /// Every collection is stored under its own id, below the next id; the
    /// featured list names stored collections, and a collection is flagged
    /// featured exactly when it is listed there.
    pub open spec fn wf(&self) -> bool {
        &&& forall|k: u64| #[trigger] self.collections@.contains_key(k) ==> self.collections@[k].id == k
            && k < self.next_id
        &&& crate::utils::no_dups(self.featured@)
        &&& forall|i: int| 0 <= i < self.featured@.len() ==> self.collections@.contains_key(#[trigger] self.featured@[i])
        &&& forall|k: u64| #[trigger] self.collections@.contains_key(k) ==> (self.collections@[k].is_featured
            <==> self.featured@.contains(k))
    }

    /// Whether another collection than `exclude` holds the normalized form
    /// of `name`.
    pub open spec fn name_taken(&self, name: Seq<u8>, exclude: Option<u64>) -> bool {
        match name_lookup(self.names@, normalize_name(name)) {
            Some(existing) => exclude != Some(existing),
            None => false,
        }
    }

    /// Checks name, description and tags lengths.
    fn validate_metadata(name: &Vec<u8>, description: &Vec<u8>, tags: &Option<Vec<u8>>) -> (r: Result<
        (),
        ContractError,
    >)
        ensures
            r is Ok == metadata_ok(name@, description@, opt_text(*tags)),
            r is Err ==> r == Err::<(), ContractError>(ContractError::CommunityColInvalidMetadata),
    {
        let nlen = name.len();
        let dlen = description.len();
        if nlen == 0 || nlen > MAX_COMMUNITY_COL_NAME_LEN {
            return Err(ContractError::CommunityColInvalidMetadata);
        }
        if dlen == 0 || dlen > MAX_COMMUNITY_COL_DESCRIPTION_LEN {
            return Err(ContractError::CommunityColInvalidMetadata);
        }
        if let Some(t) = tags {
            if t.len() > MAX_COMMUNITY_COL_TAGS_LEN {
                return Err(ContractError::CommunityColInvalidMetadata);
            }
        }
        Ok(())
    }

    /// Both thresholds zero turns voting off; otherwise both must be
    /// positive.
    pub fn validate_thresholds(approval: u32, disapproval: u32) -> (r: Result<(), ContractError>)
        ensures
            r is Ok == thresholds_ok(approval, disapproval),
            r is Err ==> r == Err::<(), ContractError>(ContractError::CommunityColThresholdInvalid),
    {
        if (approval == 0) != (disapproval == 0) {
            return Err(ContractError::CommunityColThresholdInvalid);
        }
        Ok(())
    }

    /// The creator share must lie between 10% and 90% and leave curators at
    /// least 10% when there are curators.
    pub fn validate_revenue_share(creator_share_bps: u32, num_curators: u32) -> (r: Result<(), ContractError>)
        ensures
            r is Ok == revenue_share_ok(creator_share_bps, num_curators),
            r is Err ==> r == Err::<(), ContractError>(ContractError::CommunityColRevenueShareInvalid),
    {
        if creator_share_bps < MIN_COMMUNITY_COL_CREATOR_SHARE_BPS
            || creator_share_bps > MAX_COMMUNITY_COL_CREATOR_SHARE_BPS {
            return Err(ContractError::CommunityColRevenueShareInvalid);
        }
        let remaining = 10_000u32.saturating_sub(creator_share_bps);
        if num_curators > 0 && remaining < 1_000u32 {
            return Err(ContractError::CommunityColRevenueShareInvalid);
        }
        Ok(())
    }

    /// Whether `addr` is the collection's creator or one of its curators.
    fn check_curator(col: &CommunityCollection, addr: Addr) -> (r: bool)
        ensures
            r == is_curator(*col, addr),
    {
        if col.creator == addr {
            return true;
        }
        contains_addr(&col.curators, addr)
    }

    fn require_curator(col: &CommunityCollection, addr: Addr) -> (r: Result<(), ContractError>)
        ensures
            r is Ok == is_curator(*col, addr),
            r is Err ==> r == Err::<(), ContractError>(ContractError::CommunityColNotCurator),
    {
        if Self::check_curator(col, addr) {
            Ok(())
        } else {
            Err(ContractError::CommunityColNotCurator)
        }
    }

    /// Templates refuse changes of their project set, votes, featuring and
    /// revenue.
    pub fn require_not_template(col: &CommunityCollection) -> (r: Result<(), ContractError>)
        ensures
            r is Ok == !col.is_template,
            r is Err ==> r == Err::<(), ContractError>(ContractError::CommunityColIsTemplate),
    {
        if col.is_template {
            Err(ContractError::CommunityColIsTemplate)
        } else {
            Ok(())
        }
    }

    /// The id the index gives `norm`, searching from the latest write.
    fn lookup_name(&self, norm: &Vec<u8>) -> (r: Option<u64>)
        ensures
            r == name_lookup(self.names@, norm@),
    {
        let mut i: usize = self.names.len();
        assert(self.names@.take(i as int) =~= self.names@);
        while i > 0
            invariant
                i <= self.names@.len(),
                name_lookup(self.names@, norm@) == name_lookup(self.names@.take(i as int), norm@),
            decreases i,
        {
            let ghost pre = self.names@.take(i as int);
            assert(pre.drop_last() =~= self.names@.take(i - 1));
            if bytes_eq(&self.names[i - 1].name, norm) {
                return self.names[i - 1].id;
            }
            i = i - 1;
        }
        None
    }

    /// Refuses a name whose normalized form names another collection.
    fn ensure_name_unique(&self, name: &Vec<u8>, exclude_id: Option<u64>) -> (r: Result<(), ContractError>)
        ensures
            r is Ok == !self.name_taken(name@, exclude_id),
            r is Err ==> r == Err::<(), ContractError>(ContractError::CommunityColNameExists),
    {
        let norm = normalize(name);
        if let Some(existing) = self.lookup_name(&norm) {
            let other = match exclude_id {
                Some(e) => e != existing,
                None => true,
            };
            if other {
                return Err(ContractError::CommunityColNameExists);
            }
        }
        Ok(())
    }

    /// The projects of a collection, as a list.
    fn get_project_ids(&self, id: u64) -> (r: Vec<u64>)
        ensures
            r@ == self.projects_of(id),
    {
        match self.project_ids.get(&id) {
            Some(v) => copy_ids(v),
            None => Vec::new(),
        }
    }

    /// The default name, description and tags of a template.
    fn template_defaults(template: CommunityCollectionTemplateId) -> (r: (Vec<u8>, Vec<u8>, Option<Vec<u8>>))
        ensures
            r.0@ == template_text(template).0,
            r.1@ == template_text(template).1,
            opt_text(r.2) == Some(template_text(template).2),
    {
        match template {
            CommunityCollectionTemplateId::Defi => (
                text("Stellar DeFi Darlings".as_bytes()),
                text("Well-known liquidity pools, DEXs, lending and borrowing products on Stellar.".as_bytes()),
                Some(text("defi,dex,lending,liquidity".as_bytes())),
            ),
            CommunityCollectionTemplateId::Nft => (
                text("NFT & Marketplaces".as_bytes()),
                text("Marketplaces, trading venues and minting tools for Stellar NFTs.".as_bytes()),
                Some(text("nft,marketplace,minting".as_bytes())),
            ),
            CommunityCollectionTemplateId::Dao => (
                text("DAO & Governance Tools".as_bytes()),
                text("DAO frameworks, voting systems, treasury management and multisig contracts.".as_bytes()),
                Some(text("dao,governance,multisig,treasury".as_bytes())),
            ),
            CommunityCollectionTemplateId::Gaming => (
                text("Gaming & Metaverse".as_bytes()),
                text("On-chain game worlds, land, in-game assets and metaverse projects.".as_bytes()),
                Some(text("gaming,metaverse,game-assets".as_bytes())),
            ),
            CommunityCollectionTemplateId::Infra => (
                text("Infrastructure & Tooling".as_bytes()),
                text("Oracles, RPC, bridges, block explorers, indexing and SDKs for Stellar.".as_bytes()),
                Some(text("infra,tooling,oracle,rpc,bridge".as_bytes())),
            ),
            CommunityCollectionTemplateId::Stablecoins => (
                text("Stablecoins & Payments".as_bytes()),
                text("Fiat-backed and algorithmic stablecoins plus payment-focused contracts.".as_bytes()),
                Some(text("stablecoin,stablecoins, payments".as_bytes())),
            ),
            CommunityCollectionTemplateId::PublicGoods => (
                text("Public Goods & Sustainability".as_bytes()),
                text("Retroactive public-goods funding, carbon, R&D grants and open-source stewards.".as_bytes()),
                Some(text("public-goods,sustainability,grants".as_bytes())),
            ),
            CommunityCollectionTemplateId::Verified => (
                text("Audited & Verified".as_bytes()),
                text("A starter collection curated from the registry's verified set \u{2014} trust but verify.".as_bytes()),
                Some(text("verified,audited,trusted".as_bytes())),
            ),
        }
    }
}


/// `n` copies of `x`.
pub open spec fn repeat(x: u64, n: nat) -> Seq<u64> {
    Seq::new(n, |_i: int| x)
}

/// The value of an optional setting, or its default.
pub open spec fn or_default(o: Option<u32>, d: u32) -> u32 {
    match o {
        Some(x) => x,
        None => d,
    }
}

/// The curators handed in, or none.
pub open spec fn curator_seq(o: Option<Vec<Addr>>) -> Seq<Addr> {
    match o {
        Some(v) => v@,
        None => Seq::empty(),
    }
}

/// Appends `item` to the list of every key in `keys`, once per occurrence.
fn append_each(m: &mut HashMap<u64, Vec<u64>>, keys: &Vec<Addr>, item: u64)
    ensures
        forall|k: u64| #[trigger] list_in(final(m)@, k) == list_in(old(m)@, k) + repeat(item, count_key(keys@, k)),
{
    let mut i: usize = 0;
    assert(keys@.take(0) =~= Seq::<Addr>::empty());
    assert forall|k: u64| #[trigger] list_in(m@, k) == list_in(old(m)@, k) + repeat(item, count_key(keys@.take(0), k)) by {
        assert(list_in(m@, k) =~= list_in(old(m)@, k) + repeat(item, 0));
    }
    while i < keys.len()
        invariant
            i <= keys@.len(),
            forall|k: u64| #[trigger] list_in(m@, k) == list_in(old(m)@, k) + repeat(item, count_key(keys@.take(i as int), k)),
        decreases keys@.len() - i,
    {
        let key = keys[i].id;
        let ghost prev = m@;
        append_to_list(m, key, item);
        proof {
            assert(keys@.take(i + 1).drop_last() =~= keys@.take(i as int));
            assert forall|k: u64| #[trigger] list_in(m@, k) == list_in(old(m)@, k) + repeat(item, count_key(keys@.take(i + 1), k)) by {
                if k == key {
                    assert(list_in(m@, k) =~= list_in(old(m)@, k) + repeat(item, count_key(keys@.take(i + 1), k)));
                } else {
                    if prev.contains_key(k) {
                        assert(m@[k] == prev[k]);
                    }
                    assert(list_in(m@, k) == list_in(prev, k));
                }
            }
        }
        i = i + 1;
    }
    assert(keys@.take(i as int) =~= keys@);
}

impl CommunityCollectionRegistry {
    /// `new` is `old` with collection `c` added under the next id, holding
    /// projects `pids`; a `listed` collection also enters the global, creator
    /// and curator lists.
    pub open spec fn created(
        old: &CommunityCollectionRegistry,
        new: &CommunityCollectionRegistry,
        c: CommunityCollection,
        pids: Seq<u64>,
        listed: bool,
    ) -> bool {
        let id = c.id;
        &&& id == old.next_id
        &&& new.next_id == old.next_id + 1
        &&& new.collections@ == old.collections@.insert(id, c)
        &&& new.names@.len() == old.names@.len() + 1
        &&& new.names@.drop_last() == old.names@
        &&& new.names@.last().name@ == normalize_name(c.name@)
        &&& new.names@.last().id == Some(id)
        &&& new.project_ids@.dom() == old.project_ids@.dom().insert(id)
        &&& new.projects_of(id) == pids
        &&& forall|k: u64| k != id ==> #[trigger] new.projects_of(k) == old.projects_of(k)
        &&& listed ==> {
            &&& new.collection_list@ == old.collection_list@.push(id)
            &&& list_in(new.by_creator@, c.creator.id) == list_in(old.by_creator@, c.creator.id).push(id)
            &&& forall|k: u64| k != c.creator.id ==> #[trigger] list_in(new.by_creator@, k) == list_in(old.by_creator@, k)
            &&& forall|k: u64| #[trigger] list_in(new.by_curator@, k) == list_in(old.by_curator@, k) + repeat(
                id,
                count_key(c.curators@, k),
            )
        }
        &&& !listed ==> new.collection_list == old.collection_list && new.by_creator == old.by_creator
            && new.by_curator == old.by_curator
        &&& new.curator_included == old.curator_included
        &&& new.curator_excluded == old.curator_excluded
        &&& new.votes == old.votes
        &&& new.tallies == old.tallies
        &&& new.featured == old.featured
        &&& new.revenue == old.revenue
    }

    /// Stores a new collection under the next id.
    fn insert_collection(&mut self, col: CommunityCollection, pids: Vec<u64>, listed: bool)
        requires
            old(self).wf(),
            old(self).next_id < u64::MAX,
            col.id == old(self).next_id,
            !col.is_featured,
        ensures
            final(self).wf(),
            CommunityCollectionRegistry::created(old(self), final(self), col, pids@, listed),
    {
        let id = col.id;
        let creator = col.creator;
        let norm = normalize(&col.name);
        let ghost cv = col;
        if listed {
            append_each(&mut self.by_curator, &col.curators, id);
            append_to_list(&mut self.by_creator, creator.id, id);
            self.collection_list.push(id);
        }
        self.collections.insert(id, col);
        self.names.push(NameEntry { name: norm, id: Some(id) });
        self.project_ids.insert(id, pids);
        self.next_id = id + 1;
        proof {
            assert(!old(self).featured@.contains(id));
            assert(self.names@.drop_last() =~= old(self).names@);
            assert forall|k: u64| k != id implies #[trigger] self.projects_of(k) == old(self).projects_of(k) by {
                if old(self).project_ids@.contains_key(k) {
                    assert(self.project_ids@[k] == old(self).project_ids@[k]);
                }
            }
            if listed {
                assert forall|k: u64| k != creator.id implies #[trigger] list_in(self.by_creator@, k) == list_in(
                    old(self).by_creator@,
                    k,
                ) by {
                    if old(self).by_creator@.contains_key(k) {
                        assert(self.by_creator@[k] == old(self).by_creator@[k]);
                    }
                }
            }
        }
    }

    /// The error, if any, that refuses `create`.
    pub open spec fn create_error(
        &self,
        name: Seq<u8>,
        description: Seq<u8>,
        tags: Option<Seq<u8>>,
        approval: u32,
        disapproval: u32,
        curators: Seq<Addr>,
        share_bps: u32,
    ) -> Option<ContractError> {
        if !metadata_ok(name, description, tags) {
            Some(ContractError::CommunityColInvalidMetadata)
        } else if !thresholds_ok(approval, disapproval) {
            Some(ContractError::CommunityColThresholdInvalid)
        } else if self.name_taken(name, None) {
            Some(ContractError::CommunityColNameExists)
        } else if curators.len() > MAX_COMMUNITY_COL_CURATORS {
            Some(ContractError::CommunityColCuratorsEmpty)
        } else if !revenue_share_ok(share_bps, curators.len() as u32) {
            Some(ContractError::CommunityColRevenueShareInvalid)
        } else if self.collection_list@.len() >= MAX_COMMUNITY_COLLECTIONS {
            Some(ContractError::MaxProjectsExceeded)
        } else {
            None
        }
    }

    /// Creates a community collection owned by `creator`. Unset thresholds
    /// and share take their defaults; the creator and the initial curators
    /// curate it.
    pub fn create(
        &mut self,
        creator: Addr,
        name: Vec<u8>,
        description: Vec<u8>,
        tags: Option<Vec<u8>>,
        approval_threshold: Option<u32>,
        disapproval_threshold: Option<u32>,
        creator_revenue_share_bps: Option<u32>,
        initial_curators: Option<Vec<Addr>>,
        now: u64,
    ) -> (r: Result<u64, ContractError>)
        requires
            old(self).wf(),
            old(self).next_id < u64::MAX,
        ensures
            final(self).wf(),
            ({
                let a = or_default(approval_threshold, DEFAULT_COMMUNITY_COL_APPROVAL_THRESHOLD);
                let d = or_default(disapproval_threshold, DEFAULT_COMMUNITY_COL_DISAPPROVAL_THRESHOLD);
                let bps = or_default(creator_revenue_share_bps, DEFAULT_COMMUNITY_COL_CREATOR_SHARE_BPS);
                let curators = curator_seq(initial_curators);
                let err = old(self).create_error(name@, description@, opt_text(tags), a, d, curators, bps);
                &&& err is Some ==> r == Err::<u64, ContractError>(err->Some_0) && *final(self) == *old(self)
                &&& err is None ==> r == Ok::<u64, ContractError>(old(self).next_id) && {
                    let c = final(self).collections@[old(self).next_id];
                    &&& CommunityCollectionRegistry::created(old(self), final(self), c, Seq::empty(), true)
                    &&& c.creator == creator && c.curators@ == curators
                    &&& c.approval_threshold == a && c.disapproval_threshold == d
                    &&& c.name@ == name@ && c.description@ == description@ && opt_text(c.tags) == opt_text(tags)
                    &&& !c.is_template && c.template_source is None && !c.is_featured
                    &&& c.creator_revenue_share_bps == bps && c.created_at == now && c.updated_at == now
                }
            }),
    {
        Self::validate_metadata(&name, &description, &tags)?;
        let a_t = match approval_threshold {
            Some(x) => x,
            None => DEFAULT_COMMUNITY_COL_APPROVAL_THRESHOLD,
        };
        let d_t = match disapproval_threshold {
            Some(x) => x,
            None => DEFAULT_COMMUNITY_COL_DISAPPROVAL_THRESHOLD,
        };
        Self::validate_thresholds(a_t, d_t)?;
        self.ensure_name_unique(&name, None)?;
        let curators = match initial_curators {
            Some(v) => v,
            None => Vec::new(),
        };
        if curators.len() > MAX_COMMUNITY_COL_CURATORS as usize {
            return Err(ContractError::CommunityColCuratorsEmpty);
        }
        let share_bps = match creator_revenue_share_bps {
            Some(x) => x,
            None => DEFAULT_COMMUNITY_COL_CREATOR_SHARE_BPS,
        };
        Self::validate_revenue_share(share_bps, curators.len() as u32)?;
        if self.collection_list.len() >= MAX_COMMUNITY_COLLECTIONS as usize {
            return Err(ContractError::MaxProjectsExceeded);
        }
        let id = self.next_id;
        let col = CommunityCollection {
            id,
            creator,
            curators,
            approval_threshold: a_t,
            disapproval_threshold: d_t,
            name,
            description,
            tags,
            is_template: false,
            template_source: None,
            is_featured: false,
            creator_revenue_share_bps: share_bps,
            created_at: now,
            updated_at: now,
        };
        self.insert_collection(col, Vec::new(), true);
        proof {
            assert(self.collections@[id] == col);
        }
        Ok(id)
    }

    /// The projects of `s` that exist, each once, up to the cap.
    fn seed_projects(s: &Vec<u64>, projects: &ProjectBook) -> (r: Vec<u64>)
        ensures
            r@ == seeded(s@, projects.projects@.len()),
    {
        let mut out: Vec<u64> = Vec::new();
        let mut i: usize = 0;
        while i < s.len()
            invariant
                i <= s@.len(),
                out@ == seeded(s@.take(i as int), projects.projects@.len()),
            decreases s@.len() - i,
        {
            let pid = s[i];
            proof {
                assert(s@.take(i + 1).drop_last() =~= s@.take(i as int));
            }
            if projects.get_project(pid).is_some() && !contains_u64(&out, pid) {
                if out.len() < MAX_COMMUNITY_COL_PROJECTS as usize {
                    out.push(pid);
                }
            }
            i = i + 1;
        }
        assert(s@.take(i as int) =~= s@);
        out
    }

    /// The error, if any, that refuses `create_template`.
    pub open spec fn template_error(&self, admins: &AdminManager, admin: Addr, name: Seq<u8>, description: Seq<u8>, tags: Seq<u8>) -> Option<ContractError> {
        if !admins.spec_is_admin(admin) {
            Some(ContractError::AdminOnly)
        } else if !metadata_ok(name, description, Some(tags)) {
            Some(ContractError::CommunityColInvalidMetadata)
        } else if self.name_taken(name, None) {
            Some(ContractError::CommunityColNameExists)
        } else {
            None
        }
    }

    /// Creates a template collection from one of the starter templates, on
    /// the word of an administrator. A template has no curators and no
    /// voting; it starts with the seed projects that exist, each once.
    pub fn create_template(
        &mut self,
        admin: Addr,
        template_id: CommunityCollectionTemplateId,
        override_name: Option<Vec<u8>>,
        override_description: Option<Vec<u8>>,
        seed_projects: Option<Vec<u64>>,
        now: u64,
        admins: &AdminManager,
        projects: &ProjectBook,
    ) -> (r: Result<u64, ContractError>)
        requires
            old(self).wf(),
            old(self).next_id < u64::MAX,
        ensures
            final(self).wf(),
            ({
                let name = match override_name { Some(n) => n@, None => template_text(template_id).0 };
                let description = match override_description { Some(d) => d@, None => template_text(template_id).1 };
                let tags = template_text(template_id).2;
                let seeds = match seed_projects { Some(v) => v@, None => Seq::empty() };
                let err = old(self).template_error(admins, admin, name, description, tags);
                &&& err is Some ==> r == Err::<u64, ContractError>(err->Some_0) && *final(self) == *old(self)
                &&& err is None ==> r == Ok::<u64, ContractError>(old(self).next_id) && {
                    let c = final(self).collections@[old(self).next_id];
                    &&& CommunityCollectionRegistry::created(
                        old(self),
                        final(self),
                        c,
                        seeded(seeds, projects.projects@.len()),
                        false,
                    )
                    &&& c.creator == admin && c.curators@.len() == 0
                    &&& c.approval_threshold == 0 && c.disapproval_threshold == 0
                    &&& c.name@ == name && c.description@ == description && opt_text(c.tags) == Some(tags)
                    &&& c.is_template && c.template_source is None && !c.is_featured
                    &&& c.creator_revenue_share_bps == DEFAULT_COMMUNITY_COL_CREATOR_SHARE_BPS
                    &&& c.created_at == now && c.updated_at == now
                }
            }),
    {
        admins.require_admin(admin)?;
        let (def_name, def_desc, def_tags) = Self::template_defaults(template_id);
        let name = match override_name {
            Some(n) => n,
            None => def_name,
        };
        let description = match override_description {
            Some(d) => d,
            None => def_desc,
        };
        Self::validate_metadata(&name, &description, &def_tags)?;
        self.ensure_name_unique(&name, None)?;
        let id = self.next_id;
        let col = CommunityCollection {
            id,
            creator: admin,
            curators: Vec::new(),
            approval_threshold: 0,
            disapproval_threshold: 0,
            name,
            description,
            tags: def_tags,
            is_template: true,
            template_source: None,
            is_featured: false,
            creator_revenue_share_bps: DEFAULT_COMMUNITY_COL_CREATOR_SHARE_BPS,
            created_at: now,
            updated_at: now,
        };
        let seed_ids = match &seed_projects {
            Some(pids) => Self::seed_projects(pids, projects),
            None => Vec::new(),
        };
        proof {
            assert(seeded(Seq::<u64>::empty(), projects.projects@.len()) =~= Seq::<u64>::empty());
        }
        self.insert_collection(col, seed_ids, false);
        proof {
            assert(self.collections@[id] == col);
        }
        Ok(id)
    }

    /// The error, if any, that refuses `create_from_template`.
    pub open spec fn from_template_error(
        &self,
        source_id: u64,
        name: Seq<u8>,
        description: Seq<u8>,
        tags: Option<Seq<u8>>,
        approval: u32,
        disapproval: u32,
        curators: Seq<Addr>,
        share_bps: u32,
    ) -> Option<ContractError> {
        if !metadata_ok(name, description, tags) {
            Some(ContractError::CommunityColInvalidMetadata)
        } else if self.name_taken(name, None) {
            Some(ContractError::CommunityColNameExists)
        } else if !thresholds_ok(approval, disapproval) {
            Some(ContractError::CommunityColThresholdInvalid)
        } else if !self.collections@.contains_key(source_id) {
            Some(ContractError::CommunityColNotFound)
        } else if curators.len() > MAX_COMMUNITY_COL_CURATORS {
            Some(ContractError::CommunityColCuratorsEmpty)
        } else if !revenue_share_ok(share_bps, curators.len() as u32) {
            Some(ContractError::CommunityColRevenueShareInvalid)
        } else if self.collection_list@.len() >= MAX_COMMUNITY_COLLECTIONS {
            Some(ContractError::MaxProjectsExceeded)
        } else {
            None
        }
    }

    /// Creates a collection owned by `caller` that starts with the projects
    /// of an existing collection (those that still exist, each once, up to
    /// the cap) and copies its description and template origin. The given
    /// description must still be valid.
    pub fn create_from_template(
        &mut self,
        caller: Addr,
        source_collection_id: u64,
        name: Vec<u8>,
        description: Vec<u8>,
        tags: Option<Vec<u8>>,
        approval_threshold: Option<u32>,
        disapproval_threshold: Option<u32>,
        creator_revenue_share_bps: Option<u32>,
        initial_curators: Option<Vec<Addr>>,
        now: u64,
        projects: &ProjectBook,
    ) -> (r: Result<u64, ContractError>)
        requires
            old(self).wf(),
            old(self).next_id < u64::MAX,
        ensures
            final(self).wf(),
            ({
                let a = or_default(approval_threshold, DEFAULT_COMMUNITY_COL_APPROVAL_THRESHOLD);
                let d = or_default(disapproval_threshold, DEFAULT_COMMUNITY_COL_DISAPPROVAL_THRESHOLD);
                let bps = or_default(creator_revenue_share_bps, DEFAULT_COMMUNITY_COL_CREATOR_SHARE_BPS);
                let curators = curator_seq(initial_curators);
                let err = old(self).from_template_error(
                    source_collection_id,
                    name@,
                    description@,
                    opt_text(tags),
                    a,
                    d,
                    curators,
                    bps,
                );
                &&& err is Some ==> r == Err::<u64, ContractError>(err->Some_0) && *final(self) == *old(self)
                &&& err is None ==> r == Ok::<u64, ContractError>(old(self).next_id) && {
                    let c = final(self).collections@[old(self).next_id];
                    let source = old(self).collections@[source_collection_id];
                    &&& CommunityCollectionRegistry::created(
                        old(self),
                        final(self),
                        c,
                        seeded(old(self).projects_of(source_collection_id), projects.projects@.len()),
                        true,
                    )
                    &&& c.creator == caller && c.curators@ == curators
                    &&& c.approval_threshold == a && c.disapproval_threshold == d
                    &&& c.name@ == name@ && c.description@ == source.description@ && opt_text(c.tags) == opt_text(tags)
                    &&& !c.is_template && c.template_source == source.template_source && !c.is_featured
                    &&& c.creator_revenue_share_bps == bps && c.created_at == now && c.updated_at == now
                }
            }),
    {
        Self::validate_metadata(&name, &description, &tags)?;
        self.ensure_name_unique(&name, None)?;
        let a_t = match approval_threshold {
            Some(x) => x,
            None => DEFAULT_COMMUNITY_COL_APPROVAL_THRESHOLD,
        };
        let d_t = match disapproval_threshold {
            Some(x) => x,
            None => DEFAULT_COMMUNITY_COL_DISAPPROVAL_THRESHOLD,
        };
        Self::validate_thresholds(a_t, d_t)?;
        let (template_source, source_description) = match self.collections.get(&source_collection_id) {
            Some(src) => (src.template_source, copy_text(&src.description)),
            None => return Err(ContractError::CommunityColNotFound),
        };
        let curators = match initial_curators {
            Some(v) => v,
            None => Vec::new(),
        };
        if curators.len() > MAX_COMMUNITY_COL_CURATORS as usize {
            return Err(ContractError::CommunityColCuratorsEmpty);
        }
        let share_bps = match creator_revenue_share_bps {
            Some(x) => x,
            None => DEFAULT_COMMUNITY_COL_CREATOR_SHARE_BPS,
        };
        Self::validate_revenue_share(share_bps, curators.len() as u32)?;
        if self.collection_list.len() >= MAX_COMMUNITY_COLLECTIONS as usize {
            return Err(ContractError::MaxProjectsExceeded);
        }
        let id = self.next_id;
        let col = CommunityCollection {
            id,
            creator: caller,
            curators,
            approval_threshold: a_t,
            disapproval_threshold: d_t,
            name,
            description: source_description,
            tags,
            is_template: false,
            template_source,
            is_featured: false,
            creator_revenue_share_bps: share_bps,
            created_at: now,
            updated_at: now,
        };
        let source_pids = self.get_project_ids(source_collection_id);
        let cloned = Self::seed_projects(&source_pids, projects);
        self.insert_collection(col, cloned, true);
        proof {
            assert(self.collections@[id] == col);
        }
        Ok(id)
    }
}


/// The stored collections of `ids`, skipping ids with none.
pub open spec fn existing_cols(ids: Seq<u64>, cols: Map<u64, CommunityCollection>) -> Seq<CommunityCollection>
    decreases ids.len(),
{
    if ids.len() == 0 {
        Seq::empty()
    } else {
        let rest = existing_cols(ids.drop_last(), cols);
        if cols.contains_key(ids.last()) { rest.push(cols[ids.last()]) } else { rest }
    }
}

/// `page` lists exactly `recs`, in order.
pub open spec fn lists(page: Seq<&CommunityCollection>, recs: Seq<CommunityCollection>) -> bool {
    &&& page.len() == recs.len()
    &&& forall|k: int| 0 <= k < recs.len() ==> *(#[trigger] page[k]) == recs[k]
}

/// `s` with its first `x` taken out.
pub open spec fn removes_first(s: Seq<Addr>, x: Addr, r: Seq<Addr>) -> bool {
    exists|j: int| 0 <= j < s.len() && s[j] == x && !s.take(j).contains(x) && r == s.remove(j)
}

impl CommunityCollectionRegistry {
    /// The collection with this id, if any.
    pub fn get(&self, id: u64) -> (r: Option<&CommunityCollection>)
        ensures
            r.is_some() == self.collections@.contains_key(id),
            r.is_some() ==> *r.unwrap() == self.collections@[id],
    {
        self.collections.get(&id)
    }

    /// Number of non-template collections.
    pub fn get_count(&self) -> (n: u32)
        ensures
            n as int == (if self.collection_list@.len() <= u32::MAX { self.collection_list@.len() as int } else { u32::MAX as int }),
    {
        let l = self.collection_list.len();
        if l > u32::MAX as usize { u32::MAX } else { l as u32 }
    }

    /// The stored collections of `ids`, skipping ids with none.
    fn records_of(&self, ids: &Vec<u64>) -> (page: Vec<&CommunityCollection>)
        ensures
            lists(page@, existing_cols(ids@, self.collections@)),
    {
        let mut page: Vec<&CommunityCollection> = Vec::new();
        let mut i: usize = 0;
        while i < ids.len()
            invariant
                i <= ids@.len(),
                lists(page@, existing_cols(ids@.take(i as int), self.collections@)),
            decreases ids@.len() - i,
        {
            proof {
                assert(ids@.take(i + 1).drop_last() =~= ids@.take(i as int));
            }
            match self.collections.get(&ids[i]) {
                Some(c) => page.push(c),
                None => {},
            }
            i = i + 1;
        }
        proof {
            assert(ids@.take(i as int) =~= ids@);
        }
        page
    }

    /// A page of the non-template collections, in creation order.
    pub fn list(&self, start_index: u32, limit: u32) -> (page: Vec<&CommunityCollection>)
        ensures
            lists(page@, existing_cols(page_of(self.collection_list@, start_index, limit), self.collections@)),
    {
        let ids = paginate(&self.collection_list, start_index, limit);
        self.records_of(&ids)
    }

    /// A page of the collections created by `creator`.
    pub fn list_by_creator(&self, creator: Addr, start_index: u32, limit: u32) -> (page: Vec<&CommunityCollection>)
        ensures
            lists(page@, existing_cols(page_of(list_in(self.by_creator@, creator.id), start_index, limit), self.collections@)),
    {
        let ids = match self.by_creator.get(&creator.id) {
            Some(v) => copy_ids(v),
            None => Vec::new(),
        };
        let page_ids = paginate(&ids, start_index, limit);
        self.records_of(&page_ids)
    }

    /// A page of the collections `curator` was made a curator of.
    pub fn list_by_curator(&self, curator: Addr, start_index: u32, limit: u32) -> (page: Vec<&CommunityCollection>)
        ensures
            lists(page@, existing_cols(page_of(list_in(self.by_curator@, curator.id), start_index, limit), self.collections@)),
    {
        let ids = match self.by_curator.get(&curator.id) {
            Some(v) => copy_ids(v),
            None => Vec::new(),
        };
        let page_ids = paginate(&ids, start_index, limit);
        self.records_of(&page_ids)
    }

    /// Number of projects in a collection.
    pub fn get_project_count(&self, id: u64) -> (n: u32)
        ensures
            n as int == (if self.projects_of(id).len() <= u32::MAX { self.projects_of(id).len() as int } else { u32::MAX as int }),
    {
        let l = match self.project_ids.get(&id) {
            Some(v) => v.len(),
            None => 0,
        };
        if l > u32::MAX as usize { u32::MAX } else { l as u32 }
    }

    /// A page of a collection's projects.
    pub fn list_projects(&self, id: u64, start_index: u32, limit: u32) -> (page: Vec<u64>)
        ensures
            page@ == page_of(self.projects_of(id), start_index, limit),
    {
        let ids = self.get_project_ids(id);
        paginate(&ids, start_index, limit)
    }

    /// Adds a project to a collection's set; a curator's addition is
    /// remembered so that votes no longer decide the project.
    fn include_project(&mut self, id: u64, project_id: u64, by_curator: bool) -> (r: Result<(), ContractError>)
        ensures
            r == (if old(self).projects_of(id).contains(project_id) {
                Err(ContractError::CommunityColAlreadyIncluded)
            } else if old(self).projects_of(id).len() >= MAX_COMMUNITY_COL_PROJECTS {
                Err(ContractError::CommunityColFull)
            } else {
                Ok::<(), ContractError>(())
            }),
            r is Err ==> *final(self) == *old(self),
            r is Ok ==> {
                &&& final(self).project_ids@ == old(self).project_ids@.insert(id, final(self).project_ids@[id])
                &&& final(self).projects_of(id) == old(self).projects_of(id).push(project_id)
                &&& by_curator ==> final(self).curator_included@ == old(self).curator_included@.push((id, project_id))
                &&& !by_curator ==> final(self).curator_included == old(self).curator_included
                &&& *final(self) == CommunityCollectionRegistry {
                    project_ids: final(self).project_ids,
                    curator_included: final(self).curator_included,
                    ..*old(self)
                }
            },
    {
        let mut ids = self.get_project_ids(id);
        if contains_u64(&ids, project_id) {
            return Err(ContractError::CommunityColAlreadyIncluded);
        }
        if ids.len() >= MAX_COMMUNITY_COL_PROJECTS as usize {
            return Err(ContractError::CommunityColFull);
        }
        ids.push(project_id);
        self.project_ids.insert(id, ids);
        if by_curator {
            self.curator_included.push((id, project_id));
        }
        Ok(())
    }

    /// Takes a project out of a collection's set; a curator's removal is
    /// remembered so that votes no longer decide the project.
    fn exclude_project(&mut self, id: u64, project_id: u64, by_curator: bool) -> (r: Result<(), ContractError>)
        ensures
            r == (if !old(self).projects_of(id).contains(project_id) {
                Err(ContractError::CommunityColNotIncluded)
            } else {
                Ok::<(), ContractError>(())
            }),
            r is Err ==> *final(self) == *old(self),
            r is Ok ==> {
                &&& final(self).project_ids@ == old(self).project_ids@.insert(id, final(self).project_ids@[id])
                &&& final(self).projects_of(id) == without(old(self).projects_of(id), project_id)
                &&& by_curator ==> final(self).curator_excluded@ == old(self).curator_excluded@.push((id, project_id))
                &&& !by_curator ==> final(self).curator_excluded == old(self).curator_excluded
                &&& *final(self) == CommunityCollectionRegistry {
                    project_ids: final(self).project_ids,
                    curator_excluded: final(self).curator_excluded,
                    ..*old(self)
                }
            },
    {
        let ids = self.get_project_ids(id);
        if !contains_u64(&ids, project_id) {
            return Err(ContractError::CommunityColNotIncluded);
        }
        let updated = remove_item_u64(&ids, project_id);
        self.project_ids.insert(id, updated);
        if by_curator {
            self.curator_excluded.push((id, project_id));
        }
        Ok(())
    }

    /// The error, if any, that refuses a curator's change of a collection.
    pub open spec fn curator_error(&self, id: u64, who: Addr, check_template: bool) -> Option<ContractError> {
        if !self.collections@.contains_key(id) {
            Some(ContractError::CommunityColNotFound)
        } else if check_template && self.collections@[id].is_template {
            Some(ContractError::CommunityColIsTemplate)
        } else if !is_curator(self.collections@[id], who) {
            Some(ContractError::CommunityColNotCurator)
        } else {
            None
        }
    }

    /// Changes name, description and tags on the word of a curator. A new
    /// name must not name another collection; the name index follows it.
    pub fn update_metadata(
        &mut self,
        id: u64,
        updater: Addr,
        name: Vec<u8>,
        description: Vec<u8>,
        tags: Option<Vec<u8>>,
        now: u64,
    ) -> (r: Result<(), ContractError>)
        requires
            old(self).wf(),
        ensures
            final(self).wf(),
            ({
                let old_col = old(self).collections@[id];
                let renamed = old_col.name@ != name@;
                let err = if old(self).curator_error(id, updater, false) is Some {
                    old(self).curator_error(id, updater, false)
                } else if renamed && old(self).name_taken(name@, Some(id)) {
                    Some(ContractError::CommunityColNameExists)
                } else {
                    None
                };
                &&& err is Some ==> r == Err::<(), ContractError>(err->Some_0) && *final(self) == *old(self)
                &&& err is None ==> {
                    let c = final(self).collections@[id];
                    &&& r is Ok
                    &&& final(self).collections@ == old(self).collections@.insert(id, c)
                    &&& c.name@ == name@ && c.description@ == description@ && opt_text(c.tags) == opt_text(tags)
                    &&& c.updated_at == now
                    &&& c == CommunityCollection { name: c.name, description: c.description, tags: c.tags, updated_at: now, ..old_col }
                    &&& renamed ==> final(self).names@.len() == old(self).names@.len() + 2
                        && final(self).names@.take(old(self).names@.len() as int) == old(self).names@
                        && final(self).names@[old(self).names@.len() as int].name@ == normalize_name(old_col.name@)
                        && final(self).names@[old(self).names@.len() as int].id is None
                        && final(self).names@.last().name@ == normalize_name(name@)
                        && final(self).names@.last().id == Some(id)
                    &&& !renamed ==> final(self).names == old(self).names
                    &&& *final(self) == CommunityCollectionRegistry {
                        collections: final(self).collections,
                        names: final(self).names,
                        ..*old(self)
                    }
                }
            }),
    {
        let renamed = match self.collections.get(&id) {
            Some(col) => {
                Self::require_curator(col, updater)?;
                !bytes_eq(&col.name, &name)
            },
            None => return Err(ContractError::CommunityColNotFound),
        };
        if renamed {
            self.ensure_name_unique(&name, Some(id))?;
        }
        let mut col = match self.collections.remove(&id) {
            Some(c) => c,
            None => return Err(ContractError::CommunityColNotFound),
        };
        let ghost old_col = col;
        if renamed {
            let old_norm = normalize(&col.name);
            let new_norm = normalize(&name);
            self.names.push(NameEntry { name: old_norm, id: None });
            self.names.push(NameEntry { name: new_norm, id: Some(id) });
        }
        col.name = name;
        col.description = description;
        col.tags = tags;
        col.updated_at = now;
        self.collections.insert(id, col);
        proof {
            assert(self.collections@ =~= old(self).collections@.insert(id, col));
            if renamed {
                assert(self.names@.take(old(self).names@.len() as int) =~= old(self).names@);
            }
        }
        Ok(())
    }

    /// Sets the voting thresholds on the word of a curator.
    pub fn set_thresholds(&mut self, id: u64, updater: Addr, approval: u32, disapproval: u32, now: u64) -> (r:
        Result<(), ContractError>)
        requires
            old(self).wf(),
        ensures
            final(self).wf(),
            ({
                let err = if old(self).curator_error(id, updater, true) is Some {
                    old(self).curator_error(id, updater, true)
                } else if !thresholds_ok(approval, disapproval) {
                    Some(ContractError::CommunityColThresholdInvalid)
                } else {
                    None
                };
                &&& err is Some ==> r == Err::<(), ContractError>(err->Some_0) && *final(self) == *old(self)
                &&& err is None ==> r is Ok && final(self).collections@ == old(self).collections@.insert(
                    id,
                    CommunityCollection {
                        approval_threshold: approval,
                        disapproval_threshold: disapproval,
                        updated_at: now,
                        ..old(self).collections@[id]
                    },
                ) && *final(self) == CommunityCollectionRegistry { collections: final(self).collections, ..*old(self) }
            }),
    {
        match self.collections.get(&id) {
            Some(col) => {
                Self::require_not_template(col)?;
                Self::require_curator(col, updater)?;
            },
            None => return Err(ContractError::CommunityColNotFound),
        }
        Self::validate_thresholds(approval, disapproval)?;
        let mut col = match self.collections.remove(&id) {
            Some(c) => c,
            None => return Err(ContractError::CommunityColNotFound),
        };
        col.approval_threshold = approval;
        col.disapproval_threshold = disapproval;
        col.updated_at = now;
        self.collections.insert(id, col);
        proof {
            assert(self.collections@ =~= old(self).collections@.insert(id, col));
        }
        Ok(())
    }

    /// Sets the creator's revenue share, on the word of the creator only.
    pub fn set_revenue_share(&mut self, id: u64, updater: Addr, creator_share_bps: u32, now: u64) -> (r: Result<
        (),
        ContractError,
    >)
        requires
            old(self).wf(),
        ensures
            final(self).wf(),
            ({
                let c = old(self).collections@[id];
                let err = if !old(self).collections@.contains_key(id) {
                    Some(ContractError::CommunityColNotFound)
                } else if c.is_template {
                    Some(ContractError::CommunityColIsTemplate)
                } else if c.creator != updater {
                    Some(ContractError::CommunityColNotCurator)
                } else if !revenue_share_ok(creator_share_bps, c.curators@.len() as u32) {
                    Some(ContractError::CommunityColRevenueShareInvalid)
                } else {
                    None
                };
                &&& err is Some ==> r == Err::<(), ContractError>(err->Some_0) && *final(self) == *old(self)
                &&& err is None ==> r is Ok && final(self).collections@ == old(self).collections@.insert(
                    id,
                    CommunityCollection { creator_revenue_share_bps: creator_share_bps, updated_at: now, ..c },
                ) && *final(self) == CommunityCollectionRegistry { collections: final(self).collections, ..*old(self) }
            }),
    {
        match self.collections.get(&id) {
            Some(col) => {
                Self::require_not_template(col)?;
                if col.creator != updater {
                    return Err(ContractError::CommunityColNotCurator);
                }
                Self::validate_revenue_share(creator_share_bps, col.curators.len() as u32)?;
            },
            None => return Err(ContractError::CommunityColNotFound),
        }
        let mut col = match self.collections.remove(&id) {
            Some(c) => c,
            None => return Err(ContractError::CommunityColNotFound),
        };
        col.creator_revenue_share_bps = creator_share_bps;
        col.updated_at = now;
        self.collections.insert(id, col);
        proof {
            assert(self.collections@ =~= old(self).collections@.insert(id, col));
        }
        Ok(())
    }

    /// Adds a curator, on the word of a curator. The creator and existing
    /// curators cannot be added again; the curator cap and the revenue split
    /// must still hold.
    pub fn add_curator(&mut self, id: u64, actor: Addr, new_curator: Addr, now: u64) -> (r: Result<
        (),
        ContractError,
    >)
        requires
            old(self).wf(),
        ensures
            final(self).wf(),
            ({
                let c = old(self).collections@[id];
                let err = if old(self).curator_error(id, actor, false) is Some {
                    old(self).curator_error(id, actor, false)
                } else if is_curator(c, new_curator) {
                    Some(ContractError::AlreadyMaintainerAdded)
                } else if c.curators@.len() >= MAX_COMMUNITY_COL_CURATORS {
                    Some(ContractError::CommunityColCuratorsEmpty)
                } else if !revenue_share_ok(c.creator_revenue_share_bps, (c.curators@.len() + 1) as u32) {
                    Some(ContractError::CommunityColRevenueShareInvalid)
                } else {
                    None
                };
                &&& err is Some ==> r == Err::<(), ContractError>(err->Some_0) && *final(self) == *old(self)
                &&& err is None ==> {
                    let n = final(self).collections@[id];
                    &&& r is Ok
                    &&& final(self).collections@ == old(self).collections@.insert(id, n)
                    &&& n.curators@ == c.curators@.push(new_curator)
                    &&& n == CommunityCollection { curators: n.curators, updated_at: now, ..c }
                    &&& list_in(final(self).by_curator@, new_curator.id) == list_in(old(self).by_curator@, new_curator.id).push(id)
                    &&& forall|k: u64| k != new_curator.id ==> #[trigger] list_in(final(self).by_curator@, k) == list_in(old(self).by_curator@, k)
                    &&& *final(self) == CommunityCollectionRegistry {
                        collections: final(self).collections,
                        by_curator: final(self).by_curator,
                        ..*old(self)
                    }
                }
            }),
    {
        match self.collections.get(&id) {
            Some(col) => {
                Self::require_curator(col, actor)?;
                if col.creator == new_curator || contains_addr(&col.curators, new_curator) {
                    return Err(ContractError::AlreadyMaintainerAdded);
                }
                if col.curators.len() >= MAX_COMMUNITY_COL_CURATORS as usize {
                    return Err(ContractError::CommunityColCuratorsEmpty);
                }
                Self::validate_revenue_share(col.creator_revenue_share_bps, col.curators.len() as u32 + 1)?;
            },
            None => return Err(ContractError::CommunityColNotFound),
        }
        let mut col = match self.collections.remove(&id) {
            Some(c) => c,
            None => return Err(ContractError::CommunityColNotFound),
        };
        col.curators.push(new_curator);
        col.updated_at = now;
        self.collections.insert(id, col);
        let ghost prev = self.by_curator@;
        append_to_list(&mut self.by_curator, new_curator.id, id);
        proof {
            assert(self.collections@ =~= old(self).collections@.insert(id, col));
            assert forall|k: u64| k != new_curator.id implies #[trigger] list_in(self.by_curator@, k) == list_in(old(self).by_curator@, k) by {
                if old(self).by_curator@.contains_key(k) {
                    assert(self.by_curator@[k] == old(self).by_curator@[k]);
                }
            }
        }
        Ok(())
    }

    /// `s` with its first `x` taken out, and whether there was one.
    fn remove_first_addr(s: &Vec<Addr>, x: Addr) -> (r: (Vec<Addr>, bool))
        ensures
            r.1 == s@.contains(x),
            r.1 ==> removes_first(s@, x, r.0@),
    {
        let mut out: Vec<Addr> = Vec::new();
        let mut removed = false;
        let mut i: usize = 0;
        let ghost mut j: int = 0;
        while i < s.len()
            invariant
                i <= s@.len(),
                !removed ==> out@ == s@.take(i as int) && !s@.take(i as int).contains(x),
                removed ==> 0 <= j < i && s@[j] == x && !s@.take(j).contains(x) && out@ == s@.take(j) + s@.subrange(j + 1, i as int),
            decreases s@.len() - i,
        {
            if !removed && s[i] == x {
                removed = true;
                proof {
                    j = i as int;
                    assert(s@.subrange(j + 1, i + 1) =~= Seq::<Addr>::empty());
                    assert(out@ =~= s@.take(j) + s@.subrange(j + 1, i + 1));
                }
            } else {
                out.push(s[i]);
                proof {
                    if removed {
                        assert(out@ =~= s@.take(j) + s@.subrange(j + 1, i + 1));
                    } else {
                        assert(out@ =~= s@.take(i + 1));
                        assert forall|k: int| 0 <= k < i + 1 implies #[trigger] s@.take(i + 1)[k] != x by {
                            if k < i {
                                assert(s@.take(i as int)[k] == s@.take(i + 1)[k]);
                            }
                        }
                    }
                }
            }
            i = i + 1;
        }
        proof {
            if removed {
                assert(out@ =~= s@.remove(j));
                assert(s@.contains(x)) by {
                    assert(s@[j] == x);
                }
            } else {
                assert(s@.take(i as int) =~= s@);
            }
        }
        (out, removed)
    }

    /// Removes a curator, on the word of a curator. The creator stays; the
    /// last named curator cannot be removed.
    pub fn remove_curator(&mut self, id: u64, actor: Addr, curator_to_remove: Addr, now: u64) -> (r: Result<
        (),
        ContractError,
    >)
        requires
            old(self).wf(),
        ensures
            final(self).wf(),
            ({
                let c = old(self).collections@[id];
                let err = if old(self).curator_error(id, actor, false) is Some {
                    old(self).curator_error(id, actor, false)
                } else if c.creator == curator_to_remove {
                    Some(ContractError::CommunityColCreatorIsImmutable)
                } else if c.curators@.len() == 1 {
                    Some(ContractError::CommunityColCuratorsEmpty)
                } else if !c.curators@.contains(curator_to_remove) {
                    Some(ContractError::CommunityColNotCurator)
                } else {
                    None
                };
                &&& err is Some ==> r == Err::<(), ContractError>(err->Some_0) && *final(self) == *old(self)
                &&& err is None ==> {
                    let n = final(self).collections@[id];
                    &&& r is Ok
                    &&& final(self).collections@ == old(self).collections@.insert(id, n)
                    &&& removes_first(c.curators@, curator_to_remove, n.curators@)
                    &&& n == CommunityCollection { curators: n.curators, updated_at: now, ..c }
                    &&& list_in(final(self).by_curator@, curator_to_remove.id) == without(list_in(old(self).by_curator@, curator_to_remove.id), id)
                    &&& forall|k: u64| k != curator_to_remove.id ==> #[trigger] list_in(final(self).by_curator@, k) == list_in(old(self).by_curator@, k)
                    &&& *final(self) == CommunityCollectionRegistry {
                        collections: final(self).collections,
                        by_curator: final(self).by_curator,
                        ..*old(self)
                    }
                }
            }),
    {
        let new_curators = match self.collections.get(&id) {
            Some(col) => {
                Self::require_curator(col, actor)?;
                if col.creator == curator_to_remove {
                    return Err(ContractError::CommunityColCreatorIsImmutable);
                }
                if col.curators.len() == 1 {
                    return Err(ContractError::CommunityColCuratorsEmpty);
                }
                let (rest, removed) = Self::remove_first_addr(&col.curators, curator_to_remove);
                if !removed {
                    return Err(ContractError::CommunityColNotCurator);
                }
                rest
            },
            None => return Err(ContractError::CommunityColNotFound),
        };
        let mut col = match self.collections.remove(&id) {
            Some(c) => c,
            None => return Err(ContractError::CommunityColNotFound),
        };
        col.curators = new_curators;
        col.updated_at = now;
        self.collections.insert(id, col);
        let list = match self.by_curator.get(&curator_to_remove.id) {
            Some(v) => copy_ids(v),
            None => Vec::new(),
        };
        let updated = remove_item_u64(&list, id);
        self.by_curator.insert(curator_to_remove.id, updated);
        proof {
            assert(self.collections@ =~= old(self).collections@.insert(id, col));
            assert forall|k: u64| k != curator_to_remove.id implies #[trigger] list_in(self.by_curator@, k) == list_in(old(self).by_curator@, k) by {
                if old(self).by_curator@.contains_key(k) {
                    assert(self.by_curator@[k] == old(self).by_curator@[k]);
                }
            }
        }
        Ok(())
    }

    /// Adds an existing project directly, on the word of a curator.
    pub fn curator_add_project(&mut self, id: u64, curator: Addr, project_id: u64, projects: &ProjectBook) -> (r:
        Result<(), ContractError>)
        ensures
            ({
                let err = if old(self).curator_error(id, curator, true) is Some {
                    old(self).curator_error(id, curator, true)
                } else if !projects.has(project_id) {
                    Some(ContractError::ProjectNotFound)
                } else if old(self).projects_of(id).contains(project_id) {
                    Some(ContractError::CommunityColAlreadyIncluded)
                } else if old(self).projects_of(id).len() >= MAX_COMMUNITY_COL_PROJECTS {
                    Some(ContractError::CommunityColFull)
                } else {
                    None
                };
                &&& err is Some ==> r == Err::<(), ContractError>(err->Some_0) && *final(self) == *old(self)
                &&& err is None ==> r is Ok
                    && final(self).project_ids@ == old(self).project_ids@.insert(id, final(self).project_ids@[id])
                    && final(self).projects_of(id) == old(self).projects_of(id).push(project_id)
                    && final(self).curator_included@ == old(self).curator_included@.push((id, project_id))
                    && *final(self) == CommunityCollectionRegistry {
                        project_ids: final(self).project_ids,
                        curator_included: final(self).curator_included,
                        ..*old(self)
                    }
            }),
    {
        match self.collections.get(&id) {
            Some(col) => {
                Self::require_not_template(col)?;
                Self::require_curator(col, curator)?;
            },
            None => return Err(ContractError::CommunityColNotFound),
        }
        if projects.get_project(project_id).is_none() {
            return Err(ContractError::ProjectNotFound);
        }
        self.include_project(id, project_id, true)
    }

    /// Takes a project out directly, on the word of a curator.
    pub fn curator_remove_project(&mut self, id: u64, curator: Addr, project_id: u64) -> (r: Result<(), ContractError>)
        ensures
            ({
                let err = if old(self).curator_error(id, curator, true) is Some {
                    old(self).curator_error(id, curator, true)
                } else if !old(self).projects_of(id).contains(project_id) {
                    Some(ContractError::CommunityColNotIncluded)
                } else {
                    None
                };
                &&& err is Some ==> r == Err::<(), ContractError>(err->Some_0) && *final(self) == *old(self)
                &&& err is None ==> r is Ok
                    && final(self).project_ids@ == old(self).project_ids@.insert(id, final(self).project_ids@[id])
                    && final(self).projects_of(id) == without(old(self).projects_of(id), project_id)
                    && final(self).curator_excluded@ == old(self).curator_excluded@.push((id, project_id))
                    && *final(self) == CommunityCollectionRegistry {
                        project_ids: final(self).project_ids,
                        curator_excluded: final(self).curator_excluded,
                        ..*old(self)
                    }
            }),
    {
        match self.collections.get(&id) {
            Some(col) => {
                Self::require_not_template(col)?;
                Self::require_curator(col, curator)?;
            },
            None => return Err(ContractError::CommunityColNotFound),
        }
        self.exclude_project(id, project_id, true)
    }
}


/// `a + b` capped at `u128::MAX`.
pub open spec fn sat_add128(a: u128, b: u128) -> u128 {
    if a + b > u128::MAX { u128::MAX } else { (a + b) as u128 }
}

/// `a * b` capped at `u128::MAX`.
pub open spec fn sat_mul128(a: u128, b: u128) -> u128 {
    if a * b > u128::MAX { u128::MAX } else { (a * b) as u128 }
}

/// `a - b` floored at 0.
pub open spec fn sat_sub128(a: u128, b: u128) -> u128 {
    if a >= b { (a - b) as u128 } else { 0 }
}

/// The creator's part of an attribution of `total` at `share_bps`.
pub open spec fn creator_part(total: u128, share_bps: u32) -> u128 {
    sat_mul128(total, share_bps as u128) / 10_000
}

/// The cumulative figures of a collection, zero when none are stored.
pub open spec fn totals_of(m: Map<u64, RevenueTotals>, id: u64) -> RevenueTotals {
    if m.contains_key(id) { m[id] } else { RevenueTotals { creator: 0, curators: 0, events: 0 } }
}

/// The featured list after featuring `id`: the oldest entry goes when the
/// list is full.
pub open spec fn featured_after_add(ids: Seq<u64>, id: u64) -> Seq<u64> {
    if ids.len() >= MAX_FEATURED_COMMUNITY_COLLECTIONS { ids.drop_first().push(id) } else { ids.push(id) }
}

/// Whether `v` holds the pair `x`.
fn contains_pair(v: &Vec<(u64, u64)>, x: (u64, u64)) -> (r: bool)
    ensures
        r == v@.contains(x),
{
    let mut i: usize = 0;
    while i < v.len()
        invariant
            i <= v@.len(),
            forall|j: int| 0 <= j < i ==> v@[j] != x,
        decreases v@.len() - i,
    {
        if v[i].0 == x.0 && v[i].1 == x.1 {
            assert(v@[i as int] == x);
            return true;
        }
        i = i + 1;
    }
    false
}

impl CommunityCollectionRegistry {
    /// The vote counts of a project in a collection.
    fn get_tally(&self, id: u64, project_id: u64) -> (r: (u32, u32))
        ensures
            r == tally_of(self.tallies@, id, project_id),
    {
        let mut i: usize = self.tallies.len();
        assert(self.tallies@.take(i as int) =~= self.tallies@);
        while i > 0
            invariant
                i <= self.tallies@.len(),
                tally_of(self.tallies@, id, project_id) == tally_of(self.tallies@.take(i as int), id, project_id),
            decreases i,
        {
            assert(self.tallies@.take(i as int).drop_last() =~= self.tallies@.take(i - 1));
            let t = self.tallies[i - 1];
            if t.collection_id == id && t.project_id == project_id {
                return (t.approvals, t.disapprovals);
            }
            i = i - 1;
        }
        (0, 0)
    }

    /// The vote `voter` cast on a project in a collection, if any.
    pub fn get_vote(&self, id: u64, project_id: u64, voter: Addr) -> (r: Option<CommunityCollectionVote>)
        ensures
            r == vote_lookup(self.votes@, id, project_id, voter),
    {
        let mut i: usize = self.votes.len();
        assert(self.votes@.take(i as int) =~= self.votes@);
        while i > 0
            invariant
                i <= self.votes@.len(),
                vote_lookup(self.votes@, id, project_id, voter) == vote_lookup(self.votes@.take(i as int), id, project_id, voter),
            decreases i,
        {
            assert(self.votes@.take(i as int).drop_last() =~= self.votes@.take(i - 1));
            let v = self.votes[i - 1];
            if v.collection_id == id && v.project_id == project_id && v.voter == voter {
                return Some(v);
            }
            i = i - 1;
        }
        None
    }

    /// Whether a project is in a collection, has votes but is not in it, or
    /// neither.
    pub fn get_inclusion_status(&self, id: u64, project_id: u64) -> (r: CommunityColInclusionStatus)
        ensures
            r == (if self.projects_of(id).contains(project_id) {
                CommunityColInclusionStatus::Included
            } else if tally_of(self.tallies@, id, project_id) == (0u32, 0u32) {
                CommunityColInclusionStatus::Excluded
            } else {
                CommunityColInclusionStatus::Pending
            }),
    {
        let ids = self.get_project_ids(id);
        if contains_u64(&ids, project_id) {
            return CommunityColInclusionStatus::Included;
        }
        let (ap, dp) = self.get_tally(id, project_id);
        if ap == 0 && dp == 0 {
            return CommunityColInclusionStatus::Excluded;
        }
        CommunityColInclusionStatus::Pending
    }

    /// Records a member's vote on including a project. Once the approvals
    /// reach the approval threshold the project joins the collection; once
    /// the disapprovals reach the disapproval threshold it leaves it;
    /// neither happens after a curator decided on the project directly.
    pub fn cast_vote(
        &mut self,
        id: u64,
        voter: Addr,
        project_id: u64,
        approve: bool,
        now: u64,
        projects: &ProjectBook,
    ) -> (r: Result<(), ContractError>)
        ensures
            ({
                let c = old(self).collections@[id];
                let err = if !old(self).collections@.contains_key(id) {
                    Some(ContractError::CommunityColNotFound)
                } else if c.is_template {
                    Some(ContractError::CommunityColIsTemplate)
                } else if !projects.has(project_id) {
                    Some(ContractError::ProjectNotFound)
                } else if c.approval_threshold == 0 {
                    Some(ContractError::CommunityColThresholdInvalid)
                } else if vote_lookup(old(self).votes@, id, project_id, voter) is Some {
                    Some(ContractError::CommunityColVoteAlreadyCast)
                } else {
                    None
                };
                let (a0, d0) = tally_of(old(self).tallies@, id, project_id);
                let a = if approve { (if a0 < u32::MAX { (a0 + 1) as u32 } else { a0 }) } else { a0 };
                let d = if approve { d0 } else { (if d0 < u32::MAX { (d0 + 1) as u32 } else { d0 }) };
                let decided = old(self).curator_included@.contains((id, project_id))
                    || old(self).curator_excluded@.contains((id, project_id));
                let base = old(self).projects_of(id);
                let joins = approve && !decided && a >= c.approval_threshold && !base.contains(project_id)
                    && base.len() < MAX_COMMUNITY_COL_PROJECTS;
                let leaves = !approve && !decided && d >= c.disapproval_threshold && base.contains(project_id);
                &&& err is Some ==> r == Err::<(), ContractError>(err->Some_0) && *final(self) == *old(self)
                &&& err is None ==> {
                    &&& r is Ok
                    &&& final(self).votes@ == old(self).votes@.push(
                        CommunityCollectionVote { collection_id: id, project_id, voter, approve, created_at: now },
                    )
                    &&& final(self).tallies@ == old(self).tallies@.push(
                        VoteTally { collection_id: id, project_id, approvals: a, disapprovals: d },
                    )
                    &&& joins ==> final(self).project_ids@ == old(self).project_ids@.insert(id, final(self).project_ids@[id])
                        && final(self).projects_of(id) == base.push(project_id)
                    &&& leaves ==> final(self).project_ids@ == old(self).project_ids@.insert(id, final(self).project_ids@[id])
                        && final(self).projects_of(id) == without(base, project_id)
                    &&& !joins && !leaves ==> final(self).project_ids == old(self).project_ids
                    &&& *final(self) == CommunityCollectionRegistry {
                        votes: final(self).votes,
                        tallies: final(self).tallies,
                        project_ids: final(self).project_ids,
                        ..*old(self)
                    }
                }
            }),
    {
        let (thr_a, thr_d) = match self.collections.get(&id) {
            Some(col) => {
                Self::require_not_template(col)?;
                (col.approval_threshold, col.disapproval_threshold)
            },
            None => return Err(ContractError::CommunityColNotFound),
        };
        if projects.get_project(project_id).is_none() {
            return Err(ContractError::ProjectNotFound);
        }
        if thr_a == 0 {
            return Err(ContractError::CommunityColThresholdInvalid);
        }
        if self.get_vote(id, project_id, voter).is_some() {
            return Err(ContractError::CommunityColVoteAlreadyCast);
        }
        self.votes.push(CommunityCollectionVote { collection_id: id, project_id, voter, approve, created_at: now });
        let (a0, d0) = self.get_tally(id, project_id);
        let (new_ap, new_dp) = if approve {
            (a0.saturating_add(1), d0)
        } else {
            (a0, d0.saturating_add(1))
        };
        self.tallies.push(VoteTally { collection_id: id, project_id, approvals: new_ap, disapprovals: new_dp });
        let curator_included = contains_pair(&self.curator_included, (id, project_id));
        let curator_excluded = contains_pair(&self.curator_excluded, (id, project_id));
        if approve && !curator_included && !curator_excluded && new_ap >= thr_a {
            let _ = self.include_project(id, project_id, false);
        } else if !approve && !curator_included && !curator_excluded && new_dp >= thr_d {
            let _ = self.exclude_project(id, project_id, false);
        }
        Ok(())
    }

    /// Features or unfeatures a collection, on the word of an administrator.
    /// Featuring into a full list drops the oldest entry from the list and
    /// clears that collection's featured flag. Each change is logged; asking
    /// for the current state changes nothing.
    pub fn set_featured(
        &mut self,
        admin: Addr,
        id: u64,
        featured: bool,
        now: u64,
        admins: &AdminManager,
        log: &mut AdminActionLog,
    ) -> (r: Result<(), ContractError>)
        requires
            old(self).wf(),
            old(log).wf(),
            old(log).has_room(),
        ensures
            final(self).wf(),
            final(log).wf(),
            ({
                let c = old(self).collections@[id];
                let ids = old(self).featured@;
                let already = ids.contains(id);
                let err = if !admins.spec_is_admin(admin) {
                    Some(ContractError::AdminOnly)
                } else if !old(self).collections@.contains_key(id) {
                    Some(ContractError::CommunityColNotFound)
                } else if c.is_template {
                    Some(ContractError::CommunityColIsTemplate)
                } else {
                    None
                };
                &&& err is Some ==> r == Err::<(), ContractError>(err->Some_0) && *final(self) == *old(self)
                    && *final(log) == *old(log)
                &&& err is None ==> r is Ok
                &&& (err is None && featured && !already) ==> {
                    &&& final(self).featured@ == featured_after_add(ids, id)
                    &&& final(self).collections@ == (if ids.len() >= MAX_FEATURED_COMMUNITY_COLLECTIONS
                        && old(self).collections@.contains_key(ids[0]) {
                        old(self).collections@.insert(
                            ids[0],
                            CommunityCollection { is_featured: false, updated_at: now, ..old(self).collections@[ids[0]] },
                        ).insert(id, CommunityCollection { is_featured: true, updated_at: now, ..c })
                    } else {
                        old(self).collections@.insert(id, CommunityCollection { is_featured: true, updated_at: now, ..c })
                    })
                    &&& AdminActionLog::records(old(log), final(log), admin, AdminActionType::ProjectFeatured, Some(id), None, now)
                    &&& *final(self) == CommunityCollectionRegistry {
                        featured: final(self).featured,
                        collections: final(self).collections,
                        ..*old(self)
                    }
                }
                &&& (err is None && !featured && already) ==> {
                    &&& final(self).featured@ == without(ids, id)
                    &&& final(self).collections@ == old(self).collections@.insert(id, CommunityCollection { is_featured: false, updated_at: now, ..c })
                    &&& AdminActionLog::records(old(log), final(log), admin, AdminActionType::ProjectUnfeatured, Some(id), None, now)
                    &&& *final(self) == CommunityCollectionRegistry {
                        featured: final(self).featured,
                        collections: final(self).collections,
                        ..*old(self)
                    }
                }
                &&& (err is None && featured == already) ==> *final(self) == *old(self) && *final(log) == *old(log)
            }),
    {
        admins.require_admin(admin)?;
        let col_id = match self.collections.get(&id) {
            Some(col) => {
                Self::require_not_template(col)?;
                col.id
            },
            None => return Err(ContractError::CommunityColNotFound),
        };
        let already = contains_u64(&self.featured, id);
        if featured && !already {
            let mut ids = copy_ids(&self.featured);
            let full = ids.len() >= MAX_FEATURED_COMMUNITY_COLLECTIONS as usize;
            let evicted = if full { ids[0] } else { 0 };
            if full {
                let mut replaced: Vec<u64> = Vec::new();
                let l = ids.len();
                let mut i: usize = 1;
                while i < l
                    invariant
                        l == ids@.len(),
                        1 <= i <= l,
                        replaced@ == ids@.subrange(1, i as int),
                    decreases l - i,
                {
                    replaced.push(ids[i]);
                    i = i + 1;
                    assert(replaced@ =~= ids@.subrange(1, i as int));
                }
                assert(replaced@ =~= ids@.drop_first());
                ids = replaced;
            }
            ids.push(id);
            self.featured = copy_ids(&ids);
            if full {
                if let Some(ev0) = self.collections.remove(&evicted) {
                    let mut ev = ev0;
                    ev.is_featured = false;
                    ev.updated_at = now;
                    self.collections.insert(evicted, ev);
                }
            }
            let mut col = match self.collections.remove(&id) {
                Some(c) => c,
                None => return Ok(()),
            };
            col.is_featured = true;
            col.updated_at = now;
            self.collections.insert(col_id, col);
            proof {
                let ids0 = old(self).featured@;
                let c0 = old(self).collections@;
                if ids0.len() >= MAX_FEATURED_COMMUNITY_COLLECTIONS && c0.contains_key(ids0[0]) {
                    assert(self.collections@ =~= c0.insert(
                        ids0[0],
                        CommunityCollection { is_featured: false, updated_at: now, ..c0[ids0[0]] },
                    ).insert(id, CommunityCollection { is_featured: true, updated_at: now, ..c0[id] }));
                } else {
                    assert(self.collections@ =~= c0.insert(id, CommunityCollection { is_featured: true, updated_at: now, ..c0[id] }));
                }
                assert(self.featured@ =~= featured_after_add(ids0, id));
                lemma_feature_keeps_flags(*old(self), *self, id, now);
            }
            log.record_action(admin, AdminActionType::ProjectFeatured, Some(id), None, None, now);
        } else if !featured && already {
            let updated = remove_item_u64(&self.featured, id);
            self.featured = updated;
            let mut col = match self.collections.remove(&id) {
                Some(c) => c,
                None => return Ok(()),
            };
            col.is_featured = false;
            col.updated_at = now;
            self.collections.insert(col_id, col);
            proof {
                let c0 = old(self).collections@;
                assert(self.collections@ =~= c0.insert(id, CommunityCollection { is_featured: false, updated_at: now, ..c0[id] }));
                lemma_unfeature_keeps_flags(*old(self), *self, id, now);
            }
            log.record_action(admin, AdminActionType::ProjectUnfeatured, Some(id), None, None, now);
        }
        Ok(())
    }

    /// A page of the featured collections, oldest first.
    pub fn list_featured(&self, start_index: u32, limit: u32) -> (page: Vec<&CommunityCollection>)
        ensures
            lists(page@, existing_cols(page_of(self.featured@, start_index, limit), self.collections@)),
    {
        let ids = paginate(&self.featured, start_index, limit);
        self.records_of(&ids)
    }

    /// Number of featured collections.
    pub fn get_featured_count(&self) -> (n: u32)
        ensures
            n as int == (if self.featured@.len() <= u32::MAX { self.featured@.len() as int } else { u32::MAX as int }),
    {
        let l = self.featured.len();
        if l > u32::MAX as usize { u32::MAX } else { l as u32 }
    }

    /// Attributes revenue `total_amount_scaled` to a collection: the creator
    /// gets its share in basis points (rounded down), the curators the rest.
    /// Cumulative figures saturate at the largest value.
    pub fn attribute_revenue(&mut self, caller: Addr, id: u64, total_amount_scaled: u128, now: u64) -> (r: Result<
        CommunityColRevenueSnapshot,
        ContractError,
    >)
        ensures
            ({
                let c = old(self).collections@[id];
                let t = totals_of(old(self).revenue@, id);
                let creator_amount = creator_part(total_amount_scaled, c.creator_revenue_share_bps);
                let curators_amount = sat_sub128(total_amount_scaled, creator_amount);
                let new_creator = sat_add128(t.creator, creator_amount);
                let new_curators = sat_add128(t.curators, curators_amount);
                let new_count = if t.events < u64::MAX { (t.events + 1) as u64 } else { t.events };
                &&& !old(self).collections@.contains_key(id) ==> r == Err::<CommunityColRevenueSnapshot, ContractError>(
                    ContractError::CommunityColNotFound,
                ) && *final(self) == *old(self)
                &&& old(self).collections@.contains_key(id) && c.is_template ==> r == Err::<
                    CommunityColRevenueSnapshot,
                    ContractError,
                >(ContractError::CommunityColIsTemplate) && *final(self) == *old(self)
                &&& old(self).collections@.contains_key(id) && !c.is_template ==> {
                    &&& r == Ok::<CommunityColRevenueSnapshot, ContractError>(
                        CommunityColRevenueSnapshot {
                            collection_id: id,
                            creator_cumulative_attributed: new_creator,
                            curators_cumulative_attributed: new_curators,
                            total_cumulative_attributed: sat_add128(new_creator, new_curators),
                            as_of_timestamp: now,
                        },
                    )
                    &&& final(self).revenue@ == old(self).revenue@.insert(
                        id,
                        RevenueTotals { creator: new_creator, curators: new_curators, events: new_count },
                    )
                    &&& *final(self) == CommunityCollectionRegistry { revenue: final(self).revenue, ..*old(self) }
                }
            }),
    {
        let share_bps = match self.collections.get(&id) {
            Some(col) => {
                Self::require_not_template(col)?;
                col.creator_revenue_share_bps
            },
            None => return Err(ContractError::CommunityColNotFound),
        };
        let share = share_bps as u128;
        let product = match total_amount_scaled.checked_mul(share) {
            Some(p) => p,
            None => u128::MAX,
        };
        let creator_amount = product / 10_000u128;
        let curators_amount = total_amount_scaled.saturating_sub(creator_amount);
        let t = match self.revenue.get(&id) {
            Some(t) => *t,
            None => RevenueTotals { creator: 0, curators: 0, events: 0 },
        };
        let new_creator = t.creator.saturating_add(creator_amount);
        let new_curators = t.curators.saturating_add(curators_amount);
        let new_total = new_creator.saturating_add(new_curators);
        let new_count = t.events.saturating_add(1);
        self.revenue.insert(id, RevenueTotals { creator: new_creator, curators: new_curators, events: new_count });
        Ok(
            CommunityColRevenueSnapshot {
                collection_id: id,
                creator_cumulative_attributed: new_creator,
                curators_cumulative_attributed: new_curators,
                total_cumulative_attributed: new_total,
                as_of_timestamp: now,
            },
        )
    }

    /// The cumulative revenue of a non-template collection.
    pub fn get_revenue_snapshot(&self, id: u64, now: u64) -> (r: Option<CommunityColRevenueSnapshot>)
        ensures
            ({
                let t = totals_of(self.revenue@, id);
                r == (if !self.collections@.contains_key(id) || self.collections@[id].is_template {
                    None
                } else {
                    Some(
                        CommunityColRevenueSnapshot {
                            collection_id: id,
                            creator_cumulative_attributed: t.creator,
                            curators_cumulative_attributed: t.curators,
                            total_cumulative_attributed: sat_add128(t.creator, t.curators),
                            as_of_timestamp: now,
                        },
                    )
                })
            }),
    {
        match self.collections.get(&id) {
            Some(col) => {
                if col.is_template {
                    return None;
                }
            },
            None => return None,
        }
        let t = match self.revenue.get(&id) {
            Some(t) => *t,
            None => RevenueTotals { creator: 0, curators: 0, events: 0 },
        };
        Some(
            CommunityColRevenueSnapshot {
                collection_id: id,
                creator_cumulative_attributed: t.creator,
                curators_cumulative_attributed: t.curators,
                total_cumulative_attributed: t.creator.saturating_add(t.curators),
                as_of_timestamp: now,
            },
        )
    }
}


/// Attribution splits the amount exactly: the creator's part and the
/// curators' part add up to the amount attributed, as long as the share is
/// at most 100% and the product does not saturate.
pub proof fn lemma_revenue_split_exact(total: u128, share_bps: u32)
    requires
        share_bps <= 10_000,
        total * share_bps <= u128::MAX,
    ensures
        creator_part(total, share_bps) <= total,
        creator_part(total, share_bps) + sat_sub128(total, creator_part(total, share_bps)) == total,
{
    assert(total * share_bps <= total * 10_000) by (nonlinear_arith)
        requires
            share_bps <= 10_000,
    ;
    assert((total * share_bps) / 10_000 <= total) by (nonlinear_arith)
        requires
            total * share_bps <= total * 10_000,
    ;
}

/// Once a member's vote is recorded, a second vote of that member on the
/// same project in the same collection is refused.
pub proof fn lemma_one_vote_per_member(votes: Seq<CommunityCollectionVote>, v: CommunityCollectionVote)
    ensures
        vote_lookup(votes.push(v), v.collection_id, v.project_id, v.voter) == Some(v),
{
    assert(votes.push(v).last() == v);
}

/// The featured list never grows past its cap and always holds the
/// collection just featured.
pub proof fn lemma_featured_cap(ids: Seq<u64>, id: u64)
    requires
        ids.len() <= MAX_FEATURED_COMMUNITY_COLLECTIONS,
    ensures
        featured_after_add(ids, id).len() <= MAX_FEATURED_COMMUNITY_COLLECTIONS,
        featured_after_add(ids, id).contains(id),
{
    let r = featured_after_add(ids, id);
    assert(r[r.len() - 1] == id);
}

/// Featuring `id` (evicting the oldest entry from a full list and
/// clearing its flag) keeps the flags in step with the featured list.
proof fn lemma_feature_keeps_flags(old: CommunityCollectionRegistry, new: CommunityCollectionRegistry, id: u64, now: u64)
    requires
        old.wf(),
        old.collections@.contains_key(id),
        !old.featured@.contains(id),
        new.featured@ == featured_after_add(old.featured@, id),
        new.collections@ == (if old.featured@.len() >= MAX_FEATURED_COMMUNITY_COLLECTIONS
            && old.collections@.contains_key(old.featured@[0]) {
            old.collections@.insert(
                old.featured@[0],
                CommunityCollection { is_featured: false, updated_at: now, ..old.collections@[old.featured@[0]] },
            ).insert(id, CommunityCollection { is_featured: true, updated_at: now, ..old.collections@[id] })
        } else {
            old.collections@.insert(id, CommunityCollection { is_featured: true, updated_at: now, ..old.collections@[id] })
        }),
        new.next_id == old.next_id,
    ensures
        crate::utils::no_dups(new.featured@),
        forall|i: int| 0 <= i < new.featured@.len() ==> new.collections@.contains_key(#[trigger] new.featured@[i]),
        forall|k: u64| #[trigger] new.collections@.contains_key(k) ==> (new.collections@[k].is_featured
            <==> new.featured@.contains(k)),
{
    let ids = old.featured@;
    let full = ids.len() >= MAX_FEATURED_COMMUNITY_COLLECTIONS;
    let base = if full { ids.drop_first() } else { ids };
    assert(new.featured@ == base.push(id));
    assert forall|k: u64| #[trigger] base.contains(k) <==> (ids.contains(k) && !(full && k == ids[0])) by {
        if full {
            if base.contains(k) {
                let j = choose|j: int| 0 <= j < base.len() && base[j] == k;
                assert(ids[j + 1] == k);
                assert(j + 1 != 0);
            }
            if ids.contains(k) && k != ids[0] {
                let j = choose|j: int| 0 <= j < ids.len() && ids[j] == k;
                assert(j != 0);
                assert(base[j - 1] == k);
            }
        }
    }
    assert forall|k: u64| #[trigger] new.featured@.contains(k) <==> (base.contains(k) || k == id) by {
        if new.featured@.contains(k) && k != id {
            let j = choose|j: int| 0 <= j < new.featured@.len() && new.featured@[j] == k;
            assert(j < base.len());
            assert(base[j] == k);
        }
        if base.contains(k) {
            let j = choose|j: int| 0 <= j < base.len() && base[j] == k;
            assert(new.featured@[j] == k);
        }
        if k == id {
            assert(new.featured@[base.len() as int] == id);
        }
    }
    let nf = new.featured@;
    assert forall|a: int, b: int| 0 <= a < nf.len() && 0 <= b < nf.len() && a != b implies nf[a] != nf[b] by {
        if a < base.len() && b < base.len() {
            if full {
                assert(base[a] == ids[a + 1]);
                assert(base[b] == ids[b + 1]);
            }
        } else if a < base.len() {
            assert(base.contains(base[a]));
        } else {
            assert(base.contains(base[b]));
        }
    }
    assert forall|i: int| 0 <= i < nf.len() implies new.collections@.contains_key(#[trigger] nf[i]) by {
        if i < base.len() {
            assert(base.contains(nf[i]));
            let j = choose|j: int| 0 <= j < ids.len() && ids[j] == nf[i];
            assert(old.collections@.contains_key(ids[j]));
        }
    }
    assert forall|k: u64| #[trigger] new.collections@.contains_key(k) implies (new.collections@[k].is_featured
        <==> new.featured@.contains(k)) by {
        assert(old.collections@.contains_key(k));
        if k != id && !(full && k == ids[0]) {
            assert(new.collections@[k] == old.collections@[k]);
        }
        if full && k == ids[0] && k != id {
            assert(!base.contains(k));
        }
    }
}

/// Unfeaturing `id` keeps the flags in step with the featured list.
proof fn lemma_unfeature_keeps_flags(old: CommunityCollectionRegistry, new: CommunityCollectionRegistry, id: u64, now: u64)
    requires
        old.wf(),
        old.collections@.contains_key(id),
        old.featured@.contains(id),
        new.featured@ == without(old.featured@, id),
        new.collections@ == old.collections@.insert(id, CommunityCollection { is_featured: false, updated_at: now, ..old.collections@[id] }),
    ensures
        crate::utils::no_dups(new.featured@),
        forall|i: int| 0 <= i < new.featured@.len() ==> new.collections@.contains_key(#[trigger] new.featured@[i]),
        forall|k: u64| #[trigger] new.collections@.contains_key(k) ==> (new.collections@[k].is_featured
            <==> new.featured@.contains(k)),
{
    crate::utils::lemma_without_len(old.featured@, id);
    assert forall|i: int| 0 <= i < new.featured@.len() implies new.collections@.contains_key(#[trigger] new.featured@[i]) by {
        let k = new.featured@[i];
        crate::utils::lemma_without_contains(old.featured@, id, k);
        assert(new.featured@.contains(k));
        let j = choose|j: int| 0 <= j < old.featured@.len() && old.featured@[j] == k;
        assert(old.collections@.contains_key(old.featured@[j]));
    }
    assert forall|k: u64| #[trigger] new.collections@.contains_key(k) implies (new.collections@[k].is_featured
        <==> new.featured@.contains(k)) by {
        crate::utils::lemma_without_contains(old.featured@, id, k);
    }
}

} // verus!
