//! Detection of forks and migrations between registered projects, and the
//! immutable parent links recorded for them.
//!
//! Detection reads two projects and reports the signals that relate them:
//! same owner, shared maintainers, similar names (edit-distance similarity
//! of at least 60%) and the same repository. A link needs at least one
//! signal, the child owner's or an administrator's word, and may not close a
//! cycle of parents.
use vstd::prelude::*;
use std::collections::HashMap;
use crate::admin_manager::AdminManager;
use crate::collection_registry::list_in;
use crate::constants::MAX_PAGE_LIMIT;
use crate::types::{Addr, ContractError, Project, ProjectBook, VerificationBook, VerificationRecord};
use crate::utils::{bytes_eq, contains_addr, copy_ids, lower_byte, normalize, normalize_name};

verus! {

broadcast use vstd::std_specs::hash::group_hash_axioms;

/// Names shorter than this never count as similar.
pub const MIN_SIMILAR_NAME_LENGTH: usize = 3;
/// Similarity, in basis points, from which names count as similar.
pub const SIMILAR_NAME_THRESHOLD_BPS: u32 = 6_000;
/// Longest chain of parents followed when looking for a cycle.
pub const MAX_FORK_ANCESTRY_DEPTH: usize = 16;
/// Most children one project can have.
pub const MAX_FORK_CHILDREN: u32 = 1_000;

/// Evidence that two projects are related.
#[derive(Clone, Copy, Debug, PartialEq, Eq, Structural)]
pub enum ForkSignal {
    SameOwner,
    SharedMaintainer,
    SimilarName,
    SameRepository,
}

/// Review aggregates of a project.
#[derive(Clone, Copy, Debug, PartialEq, Eq, Structural)]
pub struct ProjectStats {
    pub rating_sum: u64,
    pub review_count: u32,
    pub average_rating: u32,
}

/// What detection found between a child and a parent.
pub struct ForkDetection {
    pub child_project_id: u64,
    pub parent_project_id: u64,
    pub signals: Vec<ForkSignal>,
    pub shared_team_members: Vec<Addr>,
    pub confidence_bps: u32,
}

/// Parent data copied into a link, with its provenance.
pub struct ForkDataMerge {
    pub review_stats: ProjectStats,
    pub verification_record: Option<VerificationRecord>,
    pub merged_at: u64,
}

/// The recorded parent of a child project.
pub struct ForkRelationship {
    pub child_project_id: u64,
    pub parent_project_id: u64,
    pub signals: Vec<ForkSignal>,
    pub shared_team_members: Vec<Addr>,
    pub confidence_bps: u32,
    pub linked_by: Addr,
    pub created_at: u64,
    pub merged_data: Option<ForkDataMerge>,
}

/// Links by child id, parents by child id, and children by parent id.
pub struct ForkRegistry {
    pub relationships: HashMap<u64, ForkRelationship>,
    pub parent_of: HashMap<u64, u64>,
    pub children: HashMap<u64, Vec<u64>>,
}

/// The smallest of three numbers.
pub open spec fn min3(a: nat, b: nat, c: nat) -> nat {
    if a <= b && a <= c { a } else if b <= c { b } else { c }
}

/// The edit (Levenshtein) distance between `a` and `b`: the fewest byte
/// insertions, deletions and substitutions that turn one into the other.
pub open spec fn lev(a: Seq<u8>, b: Seq<u8>) -> nat
    decreases a.len() + b.len(),
{
    if a.len() == 0 {
        b.len()
    } else if b.len() == 0 {
        a.len()
    } else {
        min3(
            lev(a.drop_last(), b.drop_last()) + (if a.last() == b.last() { 0nat } else { 1nat }),
            lev(a, b.drop_last()) + 1,
            lev(a.drop_last(), b) + 1,
        )
    }
}

/// Name similarity in basis points: 0 for an empty or over-long name,
/// 10 000 for equal normalized names, else the share of the longer name
/// that the edit distance leaves unchanged, rounded down.
pub open spec fn similarity(left: Seq<u8>, right: Seq<u8>) -> u32 {
    let l = normalize_name(left);
    let r = normalize_name(right);
    if l.len() == 0 || r.len() == 0 {
        0
    } else if l == r {
        10_000
    } else if l.len() > 64 || r.len() > 64 {
        0
    } else {
        let m: int = if l.len() >= r.len() { l.len() as int } else { r.len() as int };
        let matching: int = if lev(l, r) <= m { m - lev(l, r) } else { 0 };
        ((matching * 10_000) / m) as u32
    }
}

/// The maintainers of `child` that also maintain `parent`, in order.
pub open spec fn shared_of(child: Seq<Addr>, parent: Seq<Addr>) -> Seq<Addr>
    decreases child.len(),
{
    if child.len() == 0 {
        Seq::empty()
    } else {
        let rest = shared_of(child.drop_last(), parent);
        if parent.contains(child.last()) { rest.push(child.last()) } else { rest }
    }
}

/// Whether both projects name the same repository, ignoring ASCII case.
pub open spec fn same_repo(c: Project, p: Project) -> bool {
    match (c.repository_url, p.repository_url) {
        (Some(a), Some(b)) => normalize_name(a@) == normalize_name(b@),
        _ => false,
    }
}

/// Whether the names are long enough and similar enough.
pub open spec fn names_similar(c: Project, p: Project) -> bool {
    normalize_name(c.name@).len() >= MIN_SIMILAR_NAME_LENGTH && normalize_name(p.name@).len() >= MIN_SIMILAR_NAME_LENGTH
        && similarity(c.name@, p.name@) >= SIMILAR_NAME_THRESHOLD_BPS
}

/// The signals relating a child `c` to a parent `p`, in the order
/// detection checks them.
pub open spec fn signals_of(c: Project, p: Project) -> Seq<ForkSignal> {
    let s0: Seq<ForkSignal> = if c.owner == p.owner { seq![ForkSignal::SameOwner] } else { Seq::empty() };
    let s1 = if shared_of(c.maintainers@, p.maintainers@).len() > 0 { s0.push(ForkSignal::SharedMaintainer) } else { s0 };
    let s2 = if names_similar(c, p) { s1.push(ForkSignal::SimilarName) } else { s1 };
    if same_repo(c, p) { s2.push(ForkSignal::SameRepository) } else { s2 }
}

/// The addresses on both teams: the owner when shared, then the shared
/// maintainers.
pub open spec fn team_of(c: Project, p: Project) -> Seq<Addr> {
    let t0: Seq<Addr> = if c.owner == p.owner { seq![c.owner] } else { Seq::empty() };
    t0 + shared_of(c.maintainers@, p.maintainers@)
}

/// The confidence of a detection in basis points, capped at 10 000.
pub open spec fn confidence_of(c: Project, p: Project) -> u32 {
    let total: int = (if c.owner == p.owner { 3_000int } else { 0 }) + (if shared_of(c.maintainers@, p.maintainers@).len()
        > 0 { 2_500int } else { 0 }) + (if names_similar(c, p) { similarity(c.name@, p.name@) as int } else { 0 }) + (
    if same_repo(c, p) { 4_500int } else { 0 });
    if total > 10_000 { 10_000 } else { total as u32 }
}

/// The outcome of walking up from `cursor` looking for `child`, for at most
/// `fuel` steps.
pub open spec fn ancestry(parents: Map<u64, u64>, child: u64, cursor: u64, fuel: nat) -> Option<ContractError>
    decreases fuel,
{
    if fuel == 0 {
        Some(ContractError::InvalidInput)
    } else if cursor == child {
        Some(ContractError::CircularDependency)
    } else {
        let next = if parents.contains_key(cursor) { parents[cursor] } else { 0 };
        if next == 0 { None } else { ancestry(parents, child, next, (fuel - 1) as nat) }
    }
}

/// The first record of `rs` for request `rid`, if any.
pub open spec fn record_for(rs: Seq<VerificationRecord>, rid: u64) -> Option<VerificationRecord>
    decreases rs.len(),
{
    if rs.len() == 0 {
        None
    } else if rs[0].request_id == rid {
        Some(rs[0])
    } else {
        record_for(rs.drop_first(), rid)
    }
}

/// `lev` never exceeds the sum of the lengths.
pub proof fn lemma_lev_bound(a: Seq<u8>, b: Seq<u8>)
    ensures
        lev(a, b) <= a.len() + b.len(),
    decreases a.len() + b.len(),
{
    if a.len() > 0 && b.len() > 0 {
        lemma_lev_bound(a.drop_last(), b.drop_last());
        lemma_lev_bound(a, b.drop_last());
        lemma_lev_bound(a.drop_last(), b);
    }
}

/// The edit distance of `a` and `b`, by dynamic programming over rows.
fn edit_distance(a: &Vec<u8>, b: &Vec<u8>) -> (d: u32)
    requires
        a@.len() <= 64,
        b@.len() <= 64,
    ensures
        d == lev(a@, b@),
{
    let n = a.len();
    let m = b.len();
    let mut previous: Vec<u32> = Vec::new();
    let mut j: usize = 0;
    while j <= m
        invariant
            j <= m + 1,
            m == b@.len() <= 64,
            previous@.len() == j,
            forall|k: int| 0 <= k < j ==> previous@[k] == lev(a@.take(0), b@.take(k)),
        decreases m + 1 - j,
    {
        proof {
            assert(a@.take(0).len() == 0);
            assert(b@.take(j as int).len() == j);
            assert(lev(a@.take(0), b@.take(j as int)) == j);
        }
        previous.push(j as u32);
        j = j + 1;
    }
    let mut i: usize = 1;
    while i <= n
        invariant
            1 <= i <= n + 1,
            n == a@.len() <= 64,
            m == b@.len() <= 64,
            previous@.len() == m + 1,
            forall|k: int| 0 <= k <= m ==> #[trigger] previous@[k] == lev(a@.take(i - 1), b@.take(k)),
        decreases n + 1 - i,
    {
        let mut current: Vec<u32> = Vec::new();
        current.push(i as u32);
        proof {
            assert(b@.take(0).len() == 0);
            assert(lev(a@.take(i as int), b@.take(0)) == i) by {
                assert(a@.take(i as int).len() == i);
            }
        }
        let mut j: usize = 1;
        while j <= m
            invariant
                1 <= i <= n,
                1 <= j <= m + 1,
                n == a@.len() <= 64,
                m == b@.len() <= 64,
                previous@.len() == m + 1,
                current@.len() == j,
                forall|k: int| 0 <= k <= m ==> #[trigger] previous@[k] == lev(a@.take(i - 1), b@.take(k)),
                forall|k: int| 0 <= k < j ==> #[trigger] current@[k] == lev(a@.take(i as int), b@.take(k)),
            decreases m + 1 - j,
        {
            proof {
                let ai = a@.take(i as int);
                let bj = b@.take(j as int);
                assert(ai.drop_last() =~= a@.take(i - 1));
                assert(bj.drop_last() =~= b@.take(j - 1));
                assert(ai.last() == a@[i - 1]);
                assert(bj.last() == b@[j - 1]);
                lemma_lev_bound(a@.take(i - 1), b@.take(j - 1));
                lemma_lev_bound(ai, b@.take(j - 1));
                lemma_lev_bound(a@.take(i - 1), bj);
            }
            let cost: u32 = if a[i - 1] != b[j - 1] { 1 } else { 0 };
            let substitution = previous[j - 1] + cost;
            let insertion = current[j - 1] + 1;
            let deletion = previous[j] + 1;
            let best = if substitution <= insertion && substitution <= deletion {
                substitution
            } else if insertion <= deletion {
                insertion
            } else {
                deletion
            };
            current.push(best);
            j = j + 1;
        }
        previous = current;
        i = i + 1;
    }
    proof {
        assert(a@.take(n as int) =~= a@);
        assert(b@.take(m as int) =~= b@);
    }
    previous[m]
}

impl ForkRegistry {
    pub fn new() -> (r: ForkRegistry)
        ensures
            r.relationships@ == Map::<u64, ForkRelationship>::empty(),
            r.parent_of@ == Map::<u64, u64>::empty(),
            r.children@ == Map::<u64, Vec<u64>>::empty(),
    {
        ForkRegistry { relationships: HashMap::new(), parent_of: HashMap::new(), children: HashMap::new() }
    }

    /// Name similarity in basis points after ASCII case folding.
    pub fn name_similarity_bps(left: &Vec<u8>, right: &Vec<u8>) -> (r: u32)
        ensures
            r == similarity(left@, right@),
    {
        let l = normalize(left);
        let r = normalize(right);
        let ll = l.len();
        let rl = r.len();
        if ll == 0 || rl == 0 {
            return 0;
        }
        if bytes_eq(&l, &r) {
            return 10_000;
        }
        if ll > 64 || rl > 64 {
            return 0;
        }
        let dist = edit_distance(&l, &r);
        let max_len: u32 = if ll >= rl { ll as u32 } else { rl as u32 };
        let matching = max_len.saturating_sub(dist);
        proof {
            assert(matching <= 64);
            assert(matching * 10_000 <= 640_000) by (nonlinear_arith)
                requires
                    matching <= 64,
            ;
        }
        (matching * 10_000) / max_len
    }

    /// The maintainers of `child` that also maintain `parent`.
    fn shared_maintainers(child: &Project, parent: &Project) -> (r: Vec<Addr>)
        ensures
            r@ == shared_of(child.maintainers@, parent.maintainers@),
    {
        let mut out: Vec<Addr> = Vec::new();
        let mut i: usize = 0;
        while i < child.maintainers.len()
            invariant
                i <= child.maintainers@.len(),
                out@ == shared_of(child.maintainers@.take(i as int), parent.maintainers@),
            decreases child.maintainers@.len() - i,
        {
            proof {
                assert(child.maintainers@.take(i + 1).drop_last() =~= child.maintainers@.take(i as int));
            }
            let m = child.maintainers[i];
            if contains_addr(&parent.maintainers, m) {
                out.push(m);
            }
            i = i + 1;
        }
        assert(child.maintainers@.take(i as int) =~= child.maintainers@);
        out
    }

    /// Whether both projects name the same repository, ignoring ASCII case.
    fn same_repository(child: &Project, parent: &Project) -> (r: bool)
        ensures
            r == same_repo(*child, *parent),
    {
        match (&child.repository_url, &parent.repository_url) {
            (Some(a), Some(b)) => bytes_eq(a, b) || bytes_eq(&normalize(a), &normalize(b)),
            _ => false,
        }
    }

    /// The signals relating a child to a parent, the shared team members and
    /// a confidence score; nothing is written.
    pub fn detect(child_project_id: u64, parent_project_id: u64, projects: &ProjectBook) -> (r: Result<ForkDetection, ContractError>)
        ensures
            r is Err ==> r == Err::<ForkDetection, ContractError>(
                if child_project_id == parent_project_id {
                    ContractError::CannotLinkToSelf
                } else {
                    ContractError::ProjectNotFound
                },
            ),
            r is Ok == (child_project_id != parent_project_id && projects.has(child_project_id) && projects.has(parent_project_id)),
            r matches Ok(d) ==> {
                let c = projects.at(child_project_id);
                let p = projects.at(parent_project_id);
                &&& d.child_project_id == child_project_id && d.parent_project_id == parent_project_id
                &&& d.signals@ == signals_of(c, p)
                &&& d.shared_team_members@ == team_of(c, p)
                &&& d.confidence_bps == confidence_of(c, p)
            },
    {
        if child_project_id == parent_project_id {
            return Err(ContractError::CannotLinkToSelf);
        }
        let child = match projects.get_project(child_project_id) {
            Some(c) => c,
            None => return Err(ContractError::ProjectNotFound),
        };
        let parent = match projects.get_project(parent_project_id) {
            Some(p) => p,
            None => return Err(ContractError::ProjectNotFound),
        };
        let mut signals: Vec<ForkSignal> = Vec::new();
        let mut team: Vec<Addr> = Vec::new();
        let mut confidence: u32 = 0;
        if child.owner == parent.owner {
            signals.push(ForkSignal::SameOwner);
            team.push(child.owner);
            confidence = confidence + 3_000;
        }
        let ghost t0 = team@;
        let shared = Self::shared_maintainers(child, parent);
        if shared.len() > 0 {
            signals.push(ForkSignal::SharedMaintainer);
            let mut k: usize = 0;
            while k < shared.len()
                invariant
                    k <= shared@.len(),
                    team@ == t0 + shared@.take(k as int),
                decreases shared@.len() - k,
            {
                team.push(shared[k]);
                k = k + 1;
                assert(team@ =~= t0 + shared@.take(k as int));
            }
            assert(shared@.take(k as int) =~= shared@);
            confidence = confidence + 2_500;
        } else {
            assert(team@ =~= t0 + shared@);
        }
        let nc = normalize(&child.name);
        let np = normalize(&parent.name);
        let min_len = if nc.len() < np.len() { nc.len() } else { np.len() };
        if min_len >= MIN_SIMILAR_NAME_LENGTH {
            let similarity = Self::name_similarity_bps(&child.name, &parent.name);
            if similarity >= SIMILAR_NAME_THRESHOLD_BPS {
                signals.push(ForkSignal::SimilarName);
                confidence = confidence + similarity;
            }
        }
        if Self::same_repository(child, parent) {
            signals.push(ForkSignal::SameRepository);
            confidence = confidence + 4_500;
        }
        proof {
            let c = *child;
            let p = *parent;
            let s0: Seq<ForkSignal> = if c.owner == p.owner { seq![ForkSignal::SameOwner] } else { Seq::empty() };
            assert(signals@ =~= signals_of(c, p));
        }
        Ok(
            ForkDetection {
                child_project_id,
                parent_project_id,
                signals,
                shared_team_members: team,
                confidence_bps: if confidence > 10_000 { 10_000 } else { confidence },
            },
        )
    }

    /// Refuses a link whose parent chain reaches the child, or is longer
    /// than the depth followed.
    fn ensure_no_ancestry_cycle(&self, child_project_id: u64, parent_project_id: u64) -> (r: Result<(), ContractError>)
        ensures
            r is Ok == ancestry(self.parent_of@, child_project_id, parent_project_id, MAX_FORK_ANCESTRY_DEPTH as nat) is None,
            r is Err ==> r == Err::<(), ContractError>(
                ancestry(self.parent_of@, child_project_id, parent_project_id, MAX_FORK_ANCESTRY_DEPTH as nat)->Some_0,
            ),
    {
        let mut cursor = parent_project_id;
        let mut step: usize = 0;
        while step < MAX_FORK_ANCESTRY_DEPTH
            invariant
                step <= MAX_FORK_ANCESTRY_DEPTH,
                ancestry(self.parent_of@, child_project_id, parent_project_id, MAX_FORK_ANCESTRY_DEPTH as nat)
                    == ancestry(self.parent_of@, child_project_id, cursor, (MAX_FORK_ANCESTRY_DEPTH - step) as nat),
            decreases MAX_FORK_ANCESTRY_DEPTH - step,
        {
            if cursor == child_project_id {
                return Err(ContractError::CircularDependency);
            }
            let next = match self.parent_of.get(&cursor) {
                Some(p) => *p,
                None => 0,
            };
            if next == 0 {
                return Ok(());
            }
            cursor = next;
            step = step + 1;
        }
        Err(ContractError::InvalidInput)
    }

    /// A copy of the first record for request `rid`, if any.
    fn find_record(rs: &Vec<VerificationRecord>, rid: u64) -> (r: Option<VerificationRecord>)
        ensures
            match record_for(rs@, rid) {
                Some(rec) => r is Some && r->Some_0.view_tuple() == rec.view_tuple(),
                None => r is None,
            },
    {
        let mut i: usize = 0;
        assert(rs@.skip(0) =~= rs@);
        while i < rs.len()
            invariant
                i <= rs@.len(),
                record_for(rs@, rid) == record_for(rs@.skip(i as int), rid),
            decreases rs@.len() - i,
        {
            assert(rs@.skip(i as int).drop_first() =~= rs@.skip(i + 1));
            if rs[i].request_id == rid {
                return Some(rs[i].duplicate());
            }
            i = i + 1;
        }
        None
    }

    /// The parent's review aggregates (zero when none) and the record of its
    /// current verification request, stamped `now`.
    fn parent_data(
        parent: &Project,
        parent_project_id: u64,
        now: u64,
        stats: &HashMap<u64, ProjectStats>,
        verifications: &VerificationBook,
    ) -> (r: ForkDataMerge)
        ensures
            r.review_stats == (if stats@.contains_key(parent_project_id) { stats@[parent_project_id] } else {
                ProjectStats { rating_sum: 0, review_count: 0, average_rating: 0 }
            }),
            r.merged_at == now,
            match parent.current_verification_id {
                Some(rid) => match record_for(verifications.records@, rid) {
                    Some(rec) => r.verification_record is Some && r.verification_record->Some_0.view_tuple() == rec.view_tuple(),
                    None => r.verification_record is None,
                },
                None => r.verification_record is None,
            },
    {
        let review_stats = match stats.get(&parent_project_id) {
            Some(s) => *s,
            None => ProjectStats { rating_sum: 0, review_count: 0, average_rating: 0 },
        };
        let verification_record = match parent.current_verification_id {
            Some(rid) => Self::find_record(&verifications.records, rid),
            None => None,
        };
        ForkDataMerge { review_stats, verification_record, merged_at: now }
    }

    /// The error, if any, that refuses a link.
    pub open spec fn link_error(
        &self,
        child: u64,
        parent: u64,
        caller: Addr,
        admins: &AdminManager,
        projects: &ProjectBook,
    ) -> Option<ContractError> {
        if !projects.has(child) {
            Some(ContractError::ProjectNotFound)
        } else if projects.at(child).owner != caller && !admins.spec_is_admin(caller) {
            Some(ContractError::Unauthorized)
        } else if self.parent_of@.contains_key(child) {
            Some(ContractError::AlreadyLinked)
        } else if child == parent {
            Some(ContractError::CannotLinkToSelf)
        } else if !projects.has(parent) {
            Some(ContractError::ProjectNotFound)
        } else if signals_of(projects.at(child), projects.at(parent)).len() == 0 {
            Some(ContractError::InvalidInput)
        } else if ancestry(self.parent_of@, child, parent, MAX_FORK_ANCESTRY_DEPTH as nat) is Some {
            ancestry(self.parent_of@, child, parent, MAX_FORK_ANCESTRY_DEPTH as nat)
        } else if list_in(self.children@, parent).len() >= MAX_FORK_CHILDREN {
            Some(ContractError::MaxProjectsExceeded)
        } else {
            None
        }
    }

    /// Records `parent_project_id` as the parent of `child_project_id`, on
    /// the word of the child's owner or an administrator. The link carries
    /// the detected signals and, when asked, a copy of the parent's review
    /// aggregates and current verification record. A child has one parent
    /// for good.
    pub fn link(
        &mut self,
        child_project_id: u64,
        parent_project_id: u64,
        caller: Addr,
        merge_parent_data: bool,
        now: u64,
        admins: &AdminManager,
        projects: &ProjectBook,
        stats: &HashMap<u64, ProjectStats>,
        verifications: &VerificationBook,
    ) -> (r: Result<(), ContractError>)
        ensures
            ({
                let err = old(self).link_error(child_project_id, parent_project_id, caller, admins, projects);
                let c = projects.at(child_project_id);
                let p = projects.at(parent_project_id);
                &&& err is Some ==> r == Err::<(), ContractError>(err->Some_0) && *final(self) == *old(self)
                &&& err is None ==> {
                    let rel = final(self).relationships@[child_project_id];
                    &&& r is Ok
                    &&& final(self).relationships@ == old(self).relationships@.insert(child_project_id, rel)
                    &&& final(self).parent_of@ == old(self).parent_of@.insert(child_project_id, parent_project_id)
                    &&& list_in(final(self).children@, parent_project_id) == list_in(old(self).children@, parent_project_id).push(child_project_id)
                    &&& forall|k: u64| k != parent_project_id ==> #[trigger] list_in(final(self).children@, k) == list_in(old(self).children@, k)
                    &&& rel.child_project_id == child_project_id && rel.parent_project_id == parent_project_id
                    &&& rel.signals@ == signals_of(c, p) && rel.shared_team_members@ == team_of(c, p)
                    &&& rel.confidence_bps == confidence_of(c, p) && rel.linked_by == caller && rel.created_at == now
                    &&& rel.merged_data is Some == merge_parent_data
                    &&& merge_parent_data ==> rel.merged_data->Some_0.merged_at == now
                        && rel.merged_data->Some_0.review_stats == (if stats@.contains_key(parent_project_id) { stats@[parent_project_id] } else {
                            ProjectStats { rating_sum: 0, review_count: 0, average_rating: 0 }
                        })
                        && match p.current_verification_id {
                            Some(rid) => match record_for(verifications.records@, rid) {
                                Some(rec) => rel.merged_data->Some_0.verification_record is Some
                                    && rel.merged_data->Some_0.verification_record->Some_0.view_tuple() == rec.view_tuple(),
                                None => rel.merged_data->Some_0.verification_record is None,
                            },
                            None => rel.merged_data->Some_0.verification_record is None,
                        }
                }
            }),
    {
        match projects.get_project(child_project_id) {
            Some(child) => {
                if child.owner != caller && !admins.is_admin(caller) {
                    return Err(ContractError::Unauthorized);
                }
            },
            None => return Err(ContractError::ProjectNotFound),
        }
        if self.parent_of.get(&child_project_id).is_some() {
            return Err(ContractError::AlreadyLinked);
        }
        let detection = Self::detect(child_project_id, parent_project_id, projects)?;
        if detection.signals.len() == 0 {
            return Err(ContractError::InvalidInput);
        }
        self.ensure_no_ancestry_cycle(child_project_id, parent_project_id)?;
        let mut children = match self.children.get(&parent_project_id) {
            Some(v) => copy_ids(v),
            None => Vec::new(),
        };
        if children.len() >= MAX_FORK_CHILDREN as usize {
            return Err(ContractError::MaxProjectsExceeded);
        }
        let merged_data = if merge_parent_data {
            match projects.get_project(parent_project_id) {
                Some(parent) => Some(Self::parent_data(parent, parent_project_id, now, stats, verifications)),
                None => return Err(ContractError::ProjectNotFound),
            }
        } else {
            None
        };
        let relationship = ForkRelationship {
            child_project_id,
            parent_project_id,
            signals: detection.signals,
            shared_team_members: detection.shared_team_members,
            confidence_bps: detection.confidence_bps,
            linked_by: caller,
            created_at: now,
            merged_data,
        };
        children.push(child_project_id);
        self.relationships.insert(child_project_id, relationship);
        self.parent_of.insert(child_project_id, parent_project_id);
        self.children.insert(parent_project_id, children);
        proof {
            assert(self.relationships@ =~= old(self).relationships@.insert(child_project_id, relationship));
            assert forall|k: u64| k != parent_project_id implies #[trigger] list_in(self.children@, k) == list_in(old(self).children@, k) by {
                if old(self).children@.contains_key(k) {
                    assert(self.children@[k] == old(self).children@[k]);
                }
            }
        }
        Ok(())
    }

    /// The link recorded for a child, if any.
    pub fn get_relationship(&self, child_project_id: u64) -> (r: Option<&ForkRelationship>)
        ensures
            r.is_some() == self.relationships@.contains_key(child_project_id),
            r.is_some() ==> *r.unwrap() == self.relationships@[child_project_id],
    {
        self.relationships.get(&child_project_id)
    }

    /// The parent recorded for a child, if any.
    pub fn get_parent(&self, child_project_id: u64) -> (r: Option<u64>)
        ensures
            r == (if self.parent_of@.contains_key(child_project_id) { Some(self.parent_of@[child_project_id]) } else { None }),
    {
        match self.parent_of.get(&child_project_id) {
            Some(p) => Some(*p),
            None => None,
        }
    }

    /// A page of an existing project's children, in link order: positions
    /// `start_index` onward, at most `limit` (0 or more than the cap means
    /// the cap).
    pub fn list_children(&self, parent_project_id: u64, start_index: u32, limit: u32, projects: &ProjectBook) -> (r: Vec<u64>)
        ensures
            ({
                let lim: int = if limit == 0 || limit > MAX_PAGE_LIMIT { MAX_PAGE_LIMIT as int } else { limit as int };
                let kids = list_in(self.children@, parent_project_id);
                let end = if start_index + lim < kids.len() { start_index + lim } else { kids.len() as int };
                r@ == (if !projects.has(parent_project_id) || start_index >= kids.len() {
                    Seq::empty()
                } else {
                    kids.subrange(start_index as int, end)
                })
            }),
    {
        if projects.get_project(parent_project_id).is_none() {
            return Vec::new();
        }
        let lim: u32 = if limit == 0 || limit > MAX_PAGE_LIMIT { MAX_PAGE_LIMIT } else { limit };
        let kids = match self.children.get(&parent_project_id) {
            Some(v) => copy_ids(v),
            None => Vec::new(),
        };
        let total = kids.len();
        if start_index as usize >= total {
            return Vec::new();
        }
        let sum: u64 = start_index as u64 + lim as u64;
        let end: usize = if sum < total as u64 { sum as usize } else { total };
        let mut out: Vec<u64> = Vec::new();
        let mut i: usize = start_index as usize;
        while i < end
            invariant
                start_index <= i <= end <= total == kids@.len(),
                out@ == kids@.subrange(start_index as int, i as int),
            decreases end - i,
        {
            out.push(kids[i]);
            i = i + 1;
            assert(out@ =~= kids@.subrange(start_index as int, i as int));
        }
        out
    }
}


/// The edit distance does not depend on the order of its arguments.
pub proof fn lemma_lev_symmetric(a: Seq<u8>, b: Seq<u8>)
    ensures
        lev(a, b) == lev(b, a),
    decreases a.len() + b.len(),
{
    if a.len() > 0 && b.len() > 0 {
        lemma_lev_symmetric(a.drop_last(), b.drop_last());
        lemma_lev_symmetric(a, b.drop_last());
        lemma_lev_symmetric(a.drop_last(), b);
    }
}

/// Name similarity is symmetric and at most 10 000 basis points.
pub proof fn lemma_similarity_symmetric_bounded(left: Seq<u8>, right: Seq<u8>)
    ensures
        similarity(left, right) == similarity(right, left),
        similarity(left, right) <= 10_000,
{
    let l = normalize_name(left);
    let r = normalize_name(right);
    lemma_lev_symmetric(l, r);
    if l.len() > 0 && r.len() > 0 && l != r && l.len() <= 64 && r.len() <= 64 {
        let m: int = if l.len() >= r.len() { l.len() as int } else { r.len() as int };
        let matching: int = if lev(l, r) <= m { m - lev(l, r) } else { 0 };
        assert(0 <= matching <= m);
        assert((matching * 10_000) / m <= 10_000) by (nonlinear_arith)
            requires
                0 <= matching <= m,
                m > 0,
        ;
    }
}

/// Two byte strings are equal once ASCII letters are folded to lower case.
pub open spec fn eq_ignore_ascii_case(a: Seq<u8>, b: Seq<u8>) -> bool {
    a.len() == b.len() && forall|i: int| 0 <= i < a.len() ==> lower_byte(#[trigger] a[i]) == lower_byte(b[i])
}

proof fn lemma_same_repo_ignores_case(c: Project, p: Project)
    ensures
        same_repo(c, p) <==> (match (c.repository_url, p.repository_url) {
            (Some(a), Some(b)) => eq_ignore_ascii_case(a@, b@),
            _ => false,
        }),
{
    match (c.repository_url, p.repository_url) {
        (Some(a), Some(b)) => {
            let la = normalize_name(a@);
            let lb = normalize_name(b@);
            assert(la.len() == a@.len() && lb.len() == b@.len());
            assert(forall|i: int| 0 <= i < a@.len() ==> #[trigger] la[i] == lower_byte(a@[i]));
            assert(forall|i: int| 0 <= i < b@.len() ==> #[trigger] lb[i] == lower_byte(b@[i]));
            if la == lb {
                assert forall|i: int| 0 <= i < a@.len() implies lower_byte(#[trigger] a@[i]) == lower_byte(b@[i]) by {
                    assert(la[i] == lb[i]);
                }
            }
            if eq_ignore_ascii_case(a@, b@) {
                assert(la =~= lb);
            }
        },
        _ => {},
    }
}

/// Detection reports a shared repository exactly when both projects name a
/// repository and the two URLs are equal ignoring ASCII case, so projects
/// with different repositories never get that signal; a shared repository
/// alone brings the confidence to 4 500 basis points. A shared owner is
/// reported exactly when the owners are the same address. The confidence
/// never exceeds 10 000 and is zero exactly when no signal is reported.
pub proof fn lemma_detection_signals(c: Project, p: Project)
    ensures
        signals_of(c, p).contains(ForkSignal::SameRepository) <==> (match (c.repository_url, p.repository_url) {
            (Some(a), Some(b)) => eq_ignore_ascii_case(a@, b@),
            _ => false,
        }),
        signals_of(c, p).contains(ForkSignal::SameOwner) <==> c.owner == p.owner,
        signals_of(c, p).contains(ForkSignal::SameRepository) ==> confidence_of(c, p) >= 4_500,
        confidence_of(c, p) <= 10_000,
        confidence_of(c, p) == 0 <==> signals_of(c, p).len() == 0,
{
    lemma_same_repo_ignores_case(c, p);
    let s0: Seq<ForkSignal> = if c.owner == p.owner { seq![ForkSignal::SameOwner] } else { Seq::empty() };
    let s1 = if shared_of(c.maintainers@, p.maintainers@).len() > 0 { s0.push(ForkSignal::SharedMaintainer) } else { s0 };
    let s2 = if names_similar(c, p) { s1.push(ForkSignal::SimilarName) } else { s1 };
    let s = signals_of(c, p);
    assert(forall|i: int| 0 <= i < s2.len() ==> s2[i] != ForkSignal::SameRepository);
    assert(forall|i: int| 0 < i < s.len() ==> s[i] != ForkSignal::SameOwner);
    if same_repo(c, p) {
        assert(s[s.len() - 1] == ForkSignal::SameRepository);
        assert(s.contains(ForkSignal::SameRepository));
    } else {
        assert(s == s2);
        assert(!s.contains(ForkSignal::SameRepository));
    }
    if c.owner == p.owner {
        assert(s[0] == ForkSignal::SameOwner);
    } else {
        assert(forall|i: int| 0 <= i < s.len() ==> s[i] != ForkSignal::SameOwner);
    }
    if names_similar(c, p) {
        lemma_similarity_symmetric_bounded(c.name@, p.name@);
    }
}

proof fn lemma_shared_nonempty(child: Seq<Addr>, parent: Seq<Addr>)
    ensures
        shared_of(child, parent).len() > 0 <==> exists|i: int| 0 <= i < child.len() && parent.contains(#[trigger] child[i]),
    decreases child.len(),
{
    if child.len() > 0 {
        let init = child.drop_last();
        lemma_shared_nonempty(init, parent);
        if exists|i: int| 0 <= i < init.len() && parent.contains(#[trigger] init[i]) {
            let i = choose|i: int| 0 <= i < init.len() && parent.contains(#[trigger] init[i]);
            assert(child[i] == init[i]);
        }
        if exists|i: int| 0 <= i < child.len() && parent.contains(#[trigger] child[i]) {
            let i = choose|i: int| 0 <= i < child.len() && parent.contains(#[trigger] child[i]);
            if i < child.len() - 1 {
                assert(init[i] == child[i]);
            }
        }
    }
}

/// Detection reports shared maintainers exactly when some maintainer of the
/// child also maintains the parent.
pub proof fn lemma_shared_maintainer_signal(c: Project, p: Project)
    ensures
        signals_of(c, p).contains(ForkSignal::SharedMaintainer) <==> exists|i: int|
            0 <= i < c.maintainers@.len() && p.maintainers@.contains(#[trigger] c.maintainers@[i]),
{
    lemma_shared_nonempty(c.maintainers@, p.maintainers@);
    let s0: Seq<ForkSignal> = if c.owner == p.owner { seq![ForkSignal::SameOwner] } else { Seq::empty() };
    let has = shared_of(c.maintainers@, p.maintainers@).len() > 0;
    let s1 = if has { s0.push(ForkSignal::SharedMaintainer) } else { s0 };
    let s2 = if names_similar(c, p) { s1.push(ForkSignal::SimilarName) } else { s1 };
    let s = signals_of(c, p);
    assert(forall|i: int| 0 <= i < s0.len() ==> s0[i] != ForkSignal::SharedMaintainer);
    if has {
        assert(s[s0.len() as int] == ForkSignal::SharedMaintainer);
    } else {
        assert(forall|i: int| 0 <= i < s.len() ==> s[i] != ForkSignal::SharedMaintainer);
    }
}

/// The confidence of a detection is the sum of 3 000 basis points for a
/// shared owner, 2 500 for at least one shared maintainer, the name
/// similarity when both normalized names have at least three bytes and are
/// at least 60% similar, and 4 500 for repository URLs that are equal
/// ignoring ASCII case, capped at 10 000; the similar-name signal is
/// reported exactly when its share is counted.
pub proof fn lemma_confidence_sums_signals(c: Project, p: Project)
    ensures
        ({
            let owner: int = if c.owner == p.owner { 3_000 } else { 0 };
            let team: int = if exists|i: int|
                0 <= i < c.maintainers@.len() && p.maintainers@.contains(#[trigger] c.maintainers@[i]) { 2_500 } else { 0 };
            let similar = normalize_name(c.name@).len() >= 3 && normalize_name(p.name@).len() >= 3 && similarity(c.name@, p.name@)
                >= 6_000;
            let name: int = if similar { similarity(c.name@, p.name@) as int } else { 0 };
            let repo: int = if (match (c.repository_url, p.repository_url) {
                (Some(a), Some(b)) => eq_ignore_ascii_case(a@, b@),
                _ => false,
            }) { 4_500 } else { 0 };
            let total = owner + team + name + repo;
            &&& confidence_of(c, p) == (if total > 10_000 { 10_000 } else { total })
            &&& signals_of(c, p).contains(ForkSignal::SimilarName) <==> similar
        }),
{
    lemma_detection_signals(c, p);
    lemma_shared_maintainer_signal(c, p);
    lemma_shared_nonempty(c.maintainers@, p.maintainers@);
    let s0: Seq<ForkSignal> = if c.owner == p.owner { seq![ForkSignal::SameOwner] } else { Seq::empty() };
    let s1 = if shared_of(c.maintainers@, p.maintainers@).len() > 0 { s0.push(ForkSignal::SharedMaintainer) } else { s0 };
    let s2 = if names_similar(c, p) { s1.push(ForkSignal::SimilarName) } else { s1 };
    let s = signals_of(c, p);
    assert(forall|i: int| 0 <= i < s1.len() ==> s1[i] != ForkSignal::SimilarName);
    if names_similar(c, p) {
        assert(s[s1.len() as int] == ForkSignal::SimilarName);
    } else {
        assert(forall|i: int| 0 <= i < s.len() ==> s[i] != ForkSignal::SimilarName);
    }
    lemma_same_repo_ignores_case(c, p);
}

} // verus!
