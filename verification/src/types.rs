//! Values shared by every registry: account addresses, the error type,
//! project records and small vector utilities.
use vstd::prelude::*;

verus! {

/// An account on the ledger, identified by a number that the host assigns.
#[derive(Clone, Copy, Debug, PartialEq, Eq, Structural)]
pub struct Addr {
    pub id: u64,
}

impl Addr {
    pub fn new(id: u64) -> (a: Addr)
        ensures
            a.id == id,
    {
        Addr { id }
    }
}

/// Errors returned by the registry operations.
#[derive(Clone, Copy, Debug, PartialEq, Eq, Structural)]
pub enum ContractError {
    /// Contract has already been initialized
    AlreadyInitialized,
    /// Unauthorized access - caller is not permitted
    Unauthorized,
    /// Project not found
    ProjectNotFound,
    /// Invalid rating - must be between 1 and 5
    InvalidRating,
    /// Review not found
    ReviewNotFound,
    /// Duplicate review submission for the same project and author
    DuplicateReview,
    /// Caller is not the owner of the targeted review
    NotReviewOwner,
    /// Verification record not found
    VerificationNotFound,
    /// Invalid verification status transition
    InvalidStatusTransition,
    /// Only admin can perform this action
    AdminOnly,
    /// Fee configuration not set
    FeeConfigNotSet,
    /// Treasury address not set
    TreasuryNotSet,
    /// Insufficient fee paid
    InsufficientFee,
    /// Invalid project data - missing required fields
    InvalidProjectData,
    /// Project name too long
    ProjectNameTooLong,
    /// Invalid project name format
    InvalidProjectNameFormat,
    /// Cannot remove last admin
    CannotRemoveLastAdmin,
    /// Admin not found
    AdminNotFound,
    /// Invalid project name - empty or whitespace only
    InvalidProjectName,
    /// Invalid project description - empty or whitespace only
    InvalidProjectDescription,
    /// Invalid project category - empty or whitespace only
    InvalidProjectCategory,
    /// Project description too long
    ProjectDescriptionTooLong,
    /// Project description contains invalid characters
    InvalidProjectDescriptionFormat,
    /// Maximum number of projects exceeded
    MaxProjectsExceeded,
    /// Invalid project website
    InvalidProjectWebsite,
    /// Invalid project logo CID
    InvalidProjectLogoCid,
    /// Invalid project metadata CID
    InvalidProjectMetadataCid,
    /// Project category too long
    ProjectCategoryTooLong,
    /// Project website too long
    ProjectWebsiteTooLong,
    /// Project is not in a revocable state (must be Verified)
    VerificationNotRevocable,
    /// No pending ownership transfer found for this project
    TransferNotFound,
    /// Caller is not the designated recipient of the pending transfer
    NotPendingTransferRecipient,
    /// Verification has expired and is no longer active
    VerificationExpired,
    /// Project with this name or slug already exists
    ProjectAlreadyExists,
    /// Invalid CID format
    InvalidCid,
    /// Invalid input provided
    InvalidInput,
    /// Invalid project slug
    InvalidProjectSlug,
    /// Invalid status for the requested operation
    InvalidStatus,
    /// Project is already archived
    AlreadyArchived,
    /// Project is not archived
    ProjectNotArchived,
    /// Project is too young for this operation
    ProjectTooYoung,
    /// Verified field is frozen and cannot be modified
    VerifiedFieldFrozen,
    /// Project name is reserved
    ReservedName,
    /// Duplicate project name
    DuplicateProjectName,
    /// Cannot link a project to itself
    CannotLinkToSelf,
    /// Projects are already linked
    AlreadyLinked,
    /// Already following this project
    AlreadyFollowing,
    /// Not following this project
    NotFollowing,
    /// Review has already been reported
    AlreadyReported,
    /// Review is already hidden
    ReviewAlreadyHidden,
    /// Review is not hidden
    ReviewNotHidden,
    /// Collection not found
    CollectionNotFound,
    /// Collection already exists
    CollectionExists,
    /// Project is already in the collection
    AlreadyInCollection,
    /// Reviews are disabled for this project
    ReviewsDisabled,
    /// Project owner cannot review their own project
    OwnerCannotReview,
    /// Invalid name format
    InvalidNameFormat,
    /// The review author is not eligible
    ReviewerNotEligible,
    /// Review fee is required
    ReviewFeeRequired,
    /// Collection is full
    CollectionFull,
    /// Contract is paused
    ContractPaused,
    /// Project is already bookmarked
    AlreadyBookmarked,
    /// Project is already endorsed
    AlreadyEndorsed,
    /// Project is not bookmarked
    NotBookmarked,
    /// Project is not endorsed
    NotEndorsed,
    /// Timelock action has not expired yet
    TimelockNotExpired,
    /// Stored proposal payload does not match its recorded hash
    PayloadHashMismatch,
    /// Tag list is invalid (empty, over-length, too many, bad charset, or duplicates)
    InvalidTags,
    /// Admin proposal has passed its expiry time and can no longer be executed
    ProposalExpired,
    /// No refund is recorded for the given project.
    NoRefundAvailable,
    /// The recorded refund has already been paid out.
    RefundAlreadyClaimed,
    /// A checked arithmetic operation overflowed.
    ArithmeticOverflow,
    /// Project is not in the collection
    NotInCollection,
    /// A SetThreshold proposal that would lower the threshold must be approved
    /// by strictly more admins than the proposed new threshold (supermajority
    /// rule). This prevents the multi-sig quorum from being silently dismantled
    /// by exactly the number of colluding admins it is meant to require.
    ThresholdDowngradeRequiresSupermajority,
    /// Adding this dependency would create a circular reference in the
    /// transitive project-dependency graph (project A depends on B which
    /// depends back on A, directly or indirectly).
    CircularDependency,
    /// Adding this dependency would make the transitive project-dependency
    /// chain deeper than `MAX_DEPENDENCY_DEPTH` levels.
    DependencyDepthExceeded,
    /// Multi-signature admin approval is required for this operation.
    MultiSigRequired,
    /// The stored fee payment has expired and is no longer valid.
    FeePaymentExpired,
    /// The linked project referenced by this operation no longer exists.
    LinkedProjectNotFound,
    /// The maintainer is already on the project maintainer list.
    AlreadyMaintainerAdded,
    /// The dispute is not in a pending state and cannot be resolved.
    DisputeNotPending,
    /// Too many evidence links supplied (max MAX_EVIDENCE_LINKS_PER_REVIEW).
    TooManyEvidenceLinks,
    /// Evidence link URL is empty or has an invalid scheme.
    InvalidEvidenceLink,
    /// Evidence link URL exceeds MAX_EVIDENCE_LINK_URL_LEN bytes.
    EvidenceLinkTooLong,
    /// The requested review has been archived and is no longer in primary storage.
    /// Use `get_archived_review` to retrieve the compact archived record.
    ReviewArchived,
    /// The requested review has not been archived; the operation requires an
    /// archived review (e.g., `set_archived_review_arweave_tx`).
    ReviewNotArchived,
    /// Maximum number of appeals for the current rejection has been reached.
    /// The project must follow the manual review process after the cap is hit.
    AppealLimitExceeded,
    /// The requested verification appeal does not exist or is no longer valid.
    AppealNotFound,
    /// The verification appeal has already been reviewed and cannot be changed.
    AppealAlreadyReviewed,
    /// Automatic archival is disabled by the current configuration.
    AutoArchiveDisabled,
    /// The project is not yet inside its 30-day pre-archival notice window.
    AutoArchiveNotDue,
    /// No valid pre-archival notice exists for the project.
    AutoArchiveNoticeNotFound,
    /// The 30-day notice period has not elapsed since notification.
    AutoArchiveNoticeTooEarly,
    /// Configured inactivity threshold is outside allowed bounds.
    AutoArchiveThresholdInvalid,
    /// Collection private.
    CollectionPrivate,
    /// Community col already included.
    CommunityColAlreadyIncluded,
    /// Community col creator is immutable.
    CommunityColCreatorIsImmutable,
    /// Community col curators empty.
    CommunityColCuratorsEmpty,
    /// Community col full.
    CommunityColFull,
    /// Community col invalid metadata.
    CommunityColInvalidMetadata,
    /// Community col is template.
    CommunityColIsTemplate,
    /// Community col name exists.
    CommunityColNameExists,
    /// Community col not curator.
    CommunityColNotCurator,
    /// Community col not found.
    CommunityColNotFound,
    /// Community col not included.
    CommunityColNotIncluded,
    /// Community col revenue share invalid.
    CommunityColRevenueShareInvalid,
    /// Community col threshold invalid.
    CommunityColThresholdInvalid,
    /// Community col vote already cast.
    CommunityColVoteAlreadyCast,
    /// Dependency not found.
    DependencyNotFound,
    /// Dependency project not found.
    DependencyProjectNotFound,
    /// Duplicate dependency.
    DuplicateDependency,
    /// Folder depth exceeded.
    FolderDepthExceeded,
    /// Folder not found.
    FolderNotFound,
    /// Invalid dependency cid.
    InvalidDependencyCid,
    /// Invalid dependency reference.
    InvalidDependencyReference,
    /// Invalid dependency url.
    InvalidDependencyUrl,
    /// Invalid param range.
    InvalidParamRange,
    /// Invalid share token.
    InvalidShareToken,
    /// Max folders exceeded.
    MaxFoldersExceeded,
    /// Max smart folders exceeded.
    MaxSmartFoldersExceeded,
    /// Not collection owner.
    NotCollectionOwner,
    /// Operation limit exceeded.
    OperationLimitExceeded,
    /// Parameter out of range.
    ParameterOutOfRange,
    /// Project category already exists.
    ProjectCategoryAlreadyExists,
    /// Project category has projects.
    ProjectCategoryHasProjects,
    /// Project category hierarchy invalid.
    ProjectCategoryHierarchyInvalid,
    /// Project category inactive.
    ProjectCategoryInactive,
    /// Project category not found.
    ProjectCategoryNotFound,
    /// Share token not found.
    ShareTokenNotFound,
    /// Smart folder not found.
    SmartFolderNotFound,
}

/// The numeric code under which each error is reported to callers.
pub open spec fn error_code(e: ContractError) -> u32 {
    match e {
        ContractError::AlreadyInitialized => 1,
        ContractError::Unauthorized => 2,
        ContractError::ProjectNotFound => 3,
        ContractError::InvalidRating => 4,
        ContractError::ReviewNotFound => 5,
        ContractError::DuplicateReview => 6,
        ContractError::NotReviewOwner => 7,
        ContractError::VerificationNotFound => 8,
        ContractError::InvalidStatusTransition => 9,
        ContractError::AdminOnly => 10,
        ContractError::FeeConfigNotSet => 11,
        ContractError::TreasuryNotSet => 12,
        ContractError::InsufficientFee => 13,
        ContractError::InvalidProjectData => 14,
        ContractError::ProjectNameTooLong => 15,
        ContractError::InvalidProjectNameFormat => 16,
        ContractError::CannotRemoveLastAdmin => 17,
        ContractError::AdminNotFound => 18,
        ContractError::InvalidProjectName => 19,
        ContractError::InvalidProjectDescription => 20,
        ContractError::InvalidProjectCategory => 21,
        ContractError::ProjectDescriptionTooLong => 22,
        ContractError::InvalidProjectDescriptionFormat => 23,
        ContractError::MaxProjectsExceeded => 24,
        ContractError::InvalidProjectWebsite => 25,
        ContractError::InvalidProjectLogoCid => 26,
        ContractError::InvalidProjectMetadataCid => 27,
        ContractError::ProjectCategoryTooLong => 28,
        ContractError::ProjectWebsiteTooLong => 29,
        ContractError::VerificationNotRevocable => 30,
        ContractError::TransferNotFound => 31,
        ContractError::NotPendingTransferRecipient => 32,
        ContractError::VerificationExpired => 33,
        ContractError::ProjectAlreadyExists => 34,
        ContractError::InvalidCid => 35,
        ContractError::InvalidInput => 36,
        ContractError::InvalidProjectSlug => 37,
        ContractError::InvalidStatus => 38,
        ContractError::AlreadyArchived => 39,
        ContractError::ProjectNotArchived => 40,
        ContractError::ProjectTooYoung => 41,
        ContractError::VerifiedFieldFrozen => 42,
        ContractError::ReservedName => 43,
        ContractError::DuplicateProjectName => 44,
        ContractError::CannotLinkToSelf => 45,
        ContractError::AlreadyLinked => 46,
        ContractError::AlreadyFollowing => 47,
        ContractError::NotFollowing => 48,
        ContractError::AlreadyReported => 49,
        ContractError::ReviewAlreadyHidden => 50,
        ContractError::ReviewNotHidden => 51,
        ContractError::CollectionNotFound => 52,
        ContractError::CollectionExists => 53,
        ContractError::AlreadyInCollection => 54,
        ContractError::ReviewsDisabled => 55,
        ContractError::OwnerCannotReview => 56,
        ContractError::InvalidNameFormat => 57,
        ContractError::ReviewerNotEligible => 58,
        ContractError::ReviewFeeRequired => 59,
        ContractError::CollectionFull => 60,
        ContractError::ContractPaused => 61,
        ContractError::AlreadyBookmarked => 62,
        ContractError::AlreadyEndorsed => 63,
        ContractError::NotBookmarked => 64,
        ContractError::NotEndorsed => 65,
        ContractError::TimelockNotExpired => 66,
        ContractError::PayloadHashMismatch => 67,
        ContractError::InvalidTags => 68,
        ContractError::ProposalExpired => 69,
        ContractError::NoRefundAvailable => 70,
        ContractError::RefundAlreadyClaimed => 71,
        ContractError::ArithmeticOverflow => 72,
        ContractError::NotInCollection => 73,
        ContractError::ThresholdDowngradeRequiresSupermajority => 74,
        ContractError::CircularDependency => 75,
        ContractError::DependencyDepthExceeded => 76,
        ContractError::MultiSigRequired => 77,
        ContractError::FeePaymentExpired => 78,
        ContractError::LinkedProjectNotFound => 79,
        ContractError::AlreadyMaintainerAdded => 80,
        ContractError::DisputeNotPending => 81,
        ContractError::TooManyEvidenceLinks => 82,
        ContractError::InvalidEvidenceLink => 83,
        ContractError::EvidenceLinkTooLong => 84,
        ContractError::ReviewArchived => 85,
        ContractError::ReviewNotArchived => 86,
        ContractError::AppealLimitExceeded => 87,
        ContractError::AppealNotFound => 88,
        ContractError::AppealAlreadyReviewed => 89,
        ContractError::AutoArchiveDisabled => 90,
        ContractError::AutoArchiveNotDue => 91,
        ContractError::AutoArchiveNoticeNotFound => 92,
        ContractError::AutoArchiveNoticeTooEarly => 93,
        ContractError::AutoArchiveThresholdInvalid => 94,
        ContractError::CollectionPrivate => 95,
        ContractError::CommunityColAlreadyIncluded => 96,
        ContractError::CommunityColCreatorIsImmutable => 97,
        ContractError::CommunityColCuratorsEmpty => 98,
        ContractError::CommunityColFull => 99,
        ContractError::CommunityColInvalidMetadata => 100,
        ContractError::CommunityColIsTemplate => 101,
        ContractError::CommunityColNameExists => 102,
        ContractError::CommunityColNotCurator => 103,
        ContractError::CommunityColNotFound => 104,
        ContractError::CommunityColNotIncluded => 105,
        ContractError::CommunityColRevenueShareInvalid => 106,
        ContractError::CommunityColThresholdInvalid => 107,
        ContractError::CommunityColVoteAlreadyCast => 108,
        ContractError::DependencyNotFound => 109,
        ContractError::DependencyProjectNotFound => 110,
        ContractError::DuplicateDependency => 111,
        ContractError::FolderDepthExceeded => 112,
        ContractError::FolderNotFound => 113,
        ContractError::InvalidDependencyCid => 114,
        ContractError::InvalidDependencyReference => 115,
        ContractError::InvalidDependencyUrl => 116,
        ContractError::InvalidParamRange => 117,
        ContractError::InvalidShareToken => 118,
        ContractError::MaxFoldersExceeded => 119,
        ContractError::MaxSmartFoldersExceeded => 120,
        ContractError::NotCollectionOwner => 121,
        ContractError::OperationLimitExceeded => 122,
        ContractError::ParameterOutOfRange => 123,
        ContractError::ProjectCategoryAlreadyExists => 124,
        ContractError::ProjectCategoryHasProjects => 125,
        ContractError::ProjectCategoryHierarchyInvalid => 126,
        ContractError::ProjectCategoryInactive => 127,
        ContractError::ProjectCategoryNotFound => 128,
        ContractError::ShareTokenNotFound => 129,
        ContractError::SmartFolderNotFound => 130,
    }
}

impl ContractError {
    /// The numeric code under which the error is reported to callers.
    pub fn code(&self) -> (c: u32)
        ensures
            c == error_code(*self),
    {
        match self {
            ContractError::AlreadyInitialized => 1,
            ContractError::Unauthorized => 2,
            ContractError::ProjectNotFound => 3,
            ContractError::InvalidRating => 4,
            ContractError::ReviewNotFound => 5,
            ContractError::DuplicateReview => 6,
            ContractError::NotReviewOwner => 7,
            ContractError::VerificationNotFound => 8,
            ContractError::InvalidStatusTransition => 9,
            ContractError::AdminOnly => 10,
            ContractError::FeeConfigNotSet => 11,
            ContractError::TreasuryNotSet => 12,
            ContractError::InsufficientFee => 13,
            ContractError::InvalidProjectData => 14,
            ContractError::ProjectNameTooLong => 15,
            ContractError::InvalidProjectNameFormat => 16,
            ContractError::CannotRemoveLastAdmin => 17,
            ContractError::AdminNotFound => 18,
            ContractError::InvalidProjectName => 19,
            ContractError::InvalidProjectDescription => 20,
            ContractError::InvalidProjectCategory => 21,
            ContractError::ProjectDescriptionTooLong => 22,
            ContractError::InvalidProjectDescriptionFormat => 23,
            ContractError::MaxProjectsExceeded => 24,
            ContractError::InvalidProjectWebsite => 25,
            ContractError::InvalidProjectLogoCid => 26,
            ContractError::InvalidProjectMetadataCid => 27,
            ContractError::ProjectCategoryTooLong => 28,
            ContractError::ProjectWebsiteTooLong => 29,
            ContractError::VerificationNotRevocable => 30,
            ContractError::TransferNotFound => 31,
            ContractError::NotPendingTransferRecipient => 32,
            ContractError::VerificationExpired => 33,
            ContractError::ProjectAlreadyExists => 34,
            ContractError::InvalidCid => 35,
            ContractError::InvalidInput => 36,
            ContractError::InvalidProjectSlug => 37,
            ContractError::InvalidStatus => 38,
            ContractError::AlreadyArchived => 39,
            ContractError::ProjectNotArchived => 40,
            ContractError::ProjectTooYoung => 41,
            ContractError::VerifiedFieldFrozen => 42,
            ContractError::ReservedName => 43,
            ContractError::DuplicateProjectName => 44,
            ContractError::CannotLinkToSelf => 45,
            ContractError::AlreadyLinked => 46,
            ContractError::AlreadyFollowing => 47,
            ContractError::NotFollowing => 48,
            ContractError::AlreadyReported => 49,
            ContractError::ReviewAlreadyHidden => 50,
            ContractError::ReviewNotHidden => 51,
            ContractError::CollectionNotFound => 52,
            ContractError::CollectionExists => 53,
            ContractError::AlreadyInCollection => 54,
            ContractError::ReviewsDisabled => 55,
            ContractError::OwnerCannotReview => 56,
            ContractError::InvalidNameFormat => 57,
            ContractError::ReviewerNotEligible => 58,
            ContractError::ReviewFeeRequired => 59,
            ContractError::CollectionFull => 60,
            ContractError::ContractPaused => 61,
            ContractError::AlreadyBookmarked => 62,
            ContractError::AlreadyEndorsed => 63,
            ContractError::NotBookmarked => 64,
            ContractError::NotEndorsed => 65,
            ContractError::TimelockNotExpired => 66,
            ContractError::PayloadHashMismatch => 67,
            ContractError::InvalidTags => 68,
            ContractError::ProposalExpired => 69,
            ContractError::NoRefundAvailable => 70,
            ContractError::RefundAlreadyClaimed => 71,
            ContractError::ArithmeticOverflow => 72,
            ContractError::NotInCollection => 73,
            ContractError::ThresholdDowngradeRequiresSupermajority => 74,
            ContractError::CircularDependency => 75,
            ContractError::DependencyDepthExceeded => 76,
            ContractError::MultiSigRequired => 77,
            ContractError::FeePaymentExpired => 78,
            ContractError::LinkedProjectNotFound => 79,
            ContractError::AlreadyMaintainerAdded => 80,
            ContractError::DisputeNotPending => 81,
            ContractError::TooManyEvidenceLinks => 82,
            ContractError::InvalidEvidenceLink => 83,
            ContractError::EvidenceLinkTooLong => 84,
            ContractError::ReviewArchived => 85,
            ContractError::ReviewNotArchived => 86,
            ContractError::AppealLimitExceeded => 87,
            ContractError::AppealNotFound => 88,
            ContractError::AppealAlreadyReviewed => 89,
            ContractError::AutoArchiveDisabled => 90,
            ContractError::AutoArchiveNotDue => 91,
            ContractError::AutoArchiveNoticeNotFound => 92,
            ContractError::AutoArchiveNoticeTooEarly => 93,
            ContractError::AutoArchiveThresholdInvalid => 94,
            ContractError::CollectionPrivate => 95,
            ContractError::CommunityColAlreadyIncluded => 96,
            ContractError::CommunityColCreatorIsImmutable => 97,
            ContractError::CommunityColCuratorsEmpty => 98,
            ContractError::CommunityColFull => 99,
            ContractError::CommunityColInvalidMetadata => 100,
            ContractError::CommunityColIsTemplate => 101,
            ContractError::CommunityColNameExists => 102,
            ContractError::CommunityColNotCurator => 103,
            ContractError::CommunityColNotFound => 104,
            ContractError::CommunityColNotIncluded => 105,
            ContractError::CommunityColRevenueShareInvalid => 106,
            ContractError::CommunityColThresholdInvalid => 107,
            ContractError::CommunityColVoteAlreadyCast => 108,
            ContractError::DependencyNotFound => 109,
            ContractError::DependencyProjectNotFound => 110,
            ContractError::DuplicateDependency => 111,
            ContractError::FolderDepthExceeded => 112,
            ContractError::FolderNotFound => 113,
            ContractError::InvalidDependencyCid => 114,
            ContractError::InvalidDependencyReference => 115,
            ContractError::InvalidDependencyUrl => 116,
            ContractError::InvalidParamRange => 117,
            ContractError::InvalidShareToken => 118,
            ContractError::MaxFoldersExceeded => 119,
            ContractError::MaxSmartFoldersExceeded => 120,
            ContractError::NotCollectionOwner => 121,
            ContractError::OperationLimitExceeded => 122,
            ContractError::ParameterOutOfRange => 123,
            ContractError::ProjectCategoryAlreadyExists => 124,
            ContractError::ProjectCategoryHasProjects => 125,
            ContractError::ProjectCategoryHierarchyInvalid => 126,
            ContractError::ProjectCategoryInactive => 127,
            ContractError::ProjectCategoryNotFound => 128,
            ContractError::ShareTokenNotFound => 129,
            ContractError::SmartFolderNotFound => 130,
        }
    }
}


/// Where a project stands in the verification process.
#[derive(Clone, Copy, Debug, PartialEq, Eq, Structural)]
pub enum VerificationStatus {
    Unverified,
    Pending,
    Verified,
    Rejected,
    Probationary,
}

/// A registered project, with the fields that the registries read.
pub struct Project {
    pub id: u64,
    pub owner: Addr,
    pub name: Vec<u8>,
    pub slug: Vec<u8>,
    pub description: Vec<u8>,
    pub category: Vec<u8>,
    pub tags: Option<Vec<Vec<u8>>>,
    pub repository_url: Option<Vec<u8>>,
    pub maintainers: Vec<Addr>,
    pub linked_projects: Vec<u64>,
    pub verification_status: VerificationStatus,
    pub current_verification_id: Option<u64>,
    pub archived: bool,
    pub created_at: u64,
    pub updated_at: u64,
}

/// All registered projects. Project ids are dense: the project with id `i`
/// sits at position `i - 1`, and the project count is the list's length.
pub struct ProjectBook {
    pub projects: Vec<Project>,
}

impl ProjectBook {
    /// Every project sits at the position its id names.
    pub open spec fn wf(&self) -> bool {
        forall|i: int| 0 <= i < self.projects@.len() ==> (#[trigger] self.projects@[i]).id == i + 1
    }

    /// Whether a project with this id exists.
    pub open spec fn has(&self, id: u64) -> bool {
        1 <= id <= self.projects@.len()
    }

    /// The project with this id (meaningful when `has(id)`).
    pub open spec fn at(&self, id: u64) -> Project {
        self.projects@[id - 1]
    }

    pub fn new() -> (b: ProjectBook)
        ensures
            b.wf(),
            b.projects@.len() == 0,
    {
        ProjectBook { projects: Vec::new() }
    }

    /// Number of registered projects.
    pub fn count(&self) -> (n: u64)
        ensures
            n == self.projects@.len(),
    {
        self.projects.len() as u64
    }

    /// The project with this id, if there is one.
    pub fn get_project(&self, id: u64) -> (r: Option<&Project>)
        ensures
            r.is_some() == self.has(id),
            self.has(id) ==> r == Some(&self.at(id)),
    {
        let n = self.projects.len();
        if 1 <= id && id <= n as u64 {
            let idx = (id - 1) as usize;
            Some(&self.projects[idx])
        } else {
            None
        }
    }

    /// Adds a project; its id is the next one in sequence.
    pub fn push_project(&mut self, p: Project)
        requires
            old(self).wf(),
            p.id == old(self).projects@.len() + 1,
        ensures
            final(self).wf(),
            final(self).projects@ == old(self).projects@.push(p),
    {
        self.projects.push(p);
    }

    /// Records a verification decision on the project with this id.
    pub fn set_verification_state(
        &mut self,
        id: u64,
        status: VerificationStatus,
        verification_id: u64,
        now: u64,
    )
        requires
            old(self).wf(),
            old(self).has(id),
        ensures
            final(self).wf(),
            final(self).projects@ == old(self).projects@.update(
                id - 1,
                Project {
                    verification_status: status,
                    current_verification_id: Some(verification_id),
                    updated_at: now,
                    ..old(self).at(id)
                },
            ),
    {
        let n = self.projects.len();
        assert(1 <= id <= n);
        let idx = (id - 1) as usize;
        let mut p = self.projects.remove(idx);
        p.verification_status = status;
        p.current_verification_id = Some(verification_id);
        p.updated_at = now;
        self.projects.insert(idx, p);
        proof {
            assert(self.projects@ =~= old(self).projects@.update(idx as int, p));
        }
    }

    /// Sets the verification status and the activity stamp of the project
    /// with this id.
    pub fn set_verification_state_keep(&mut self, id: u64, status: VerificationStatus, now: u64)
        requires
            old(self).wf(),
            old(self).has(id),
        ensures
            final(self).wf(),
            final(self).projects@ == old(self).projects@.update(
                id - 1,
                Project { verification_status: status, updated_at: now, ..old(self).at(id) },
            ),
    {
        let n = self.projects.len();
        assert(1 <= id <= n);
        let idx = (id - 1) as usize;
        let mut p = self.projects.remove(idx);
        p.verification_status = status;
        p.updated_at = now;
        self.projects.insert(idx, p);
        proof {
            assert(self.projects@ =~= old(self).projects@.update(idx as int, p));
        }
    }

    /// Sets the archive flag and the activity stamp of the project with this
    /// id.
    pub fn set_archived(&mut self, id: u64, archived: bool, updated_at: u64)
        requires
            old(self).wf(),
            old(self).has(id),
        ensures
            final(self).wf(),
            final(self).projects@ == old(self).projects@.update(
                id - 1,
                Project { archived, updated_at, ..old(self).at(id) },
            ),
    {
        let n = self.projects.len();
        assert(1 <= id <= n);
        let idx = (id - 1) as usize;
        let mut p = self.projects.remove(idx);
        p.archived = archived;
        p.updated_at = updated_at;
        self.projects.insert(idx, p);
        proof {
            assert(self.projects@ =~= old(self).projects@.update(idx as int, p));
        }
    }

    /// Records that the project with id `id` is linked to project `other`.
    pub fn push_link(&mut self, id: u64, other: u64)
        requires
            old(self).wf(),
            old(self).has(id),
        ensures
            final(self).wf(),
            final(self).projects@.len() == old(self).projects@.len(),
            final(self).at(id).linked_projects@ == old(self).at(id).linked_projects@.push(other),
            final(self).at(id) == (Project { linked_projects: final(self).at(id).linked_projects, ..old(self).at(id) }),
            forall|k: u64| k != id && old(self).has(k) ==> #[trigger] final(self).at(k) == old(self).at(k),
    {
        let n = self.projects.len();
        assert(1 <= id <= n);
        let idx = (id - 1) as usize;
        let mut p = self.projects.remove(idx);
        p.linked_projects.push(other);
        self.projects.insert(idx, p);
        proof {
            assert(self.projects@ =~= old(self).projects@.update(idx as int, p));
        }
    }

    /// Replaces the project with this id.
    pub fn set_project(&mut self, p: Project)
        requires
            old(self).wf(),
            old(self).has(p.id),
        ensures
            final(self).wf(),
            final(self).projects@ == old(self).projects@.update(p.id - 1, p),
    {
        let n = self.projects.len();
        assert(1 <= p.id <= n);
        let idx = (p.id - 1) as usize;
        self.projects.set(idx, p);
    }
}

/// Ids of the projects whose category is `name`, in id order.
pub open spec fn ids_in_category(ps: Seq<Project>, name: Seq<u8>) -> Seq<u64>
    decreases ps.len(),
{
    if ps.len() == 0 {
        Seq::empty()
    } else {
        let rest = ids_in_category(ps.drop_last(), name);
        if ps.last().category@ == name {
            rest.push(ps.last().id)
        } else {
            rest
        }
    }
}

/// Number of projects in category `name` that are not archived.
pub open spec fn active_in_category(ps: Seq<Project>, name: Seq<u8>) -> nat
    decreases ps.len(),
{
    if ps.len() == 0 {
        0
    } else {
        let rest = active_in_category(ps.drop_last(), name);
        if ps.last().category@ == name && !ps.last().archived {
            rest + 1
        } else {
            rest
        }
    }
}

impl ProjectBook {
    /// The number of projects in category `name`, and how many of them are
    /// not archived.
    pub fn count_in_category(&self, name: &Vec<u8>) -> (r: (u64, u64))
        ensures
            r.0 == ids_in_category(self.projects@, name@).len(),
            r.1 == active_in_category(self.projects@, name@),
    {
        let mut total: u64 = 0;
        let mut active: u64 = 0;
        let mut i: usize = 0;
        while i < self.projects.len()
            invariant
                i <= self.projects@.len(),
                total == ids_in_category(self.projects@.subrange(0, i as int), name@).len(),
                active == active_in_category(self.projects@.subrange(0, i as int), name@),
                active <= total <= i,
            decreases self.projects@.len() - i,
        {
            proof {
                assert(self.projects@.subrange(0, i + 1).drop_last() =~= self.projects@.subrange(0, i as int));
            }
            if crate::utils::bytes_eq(&self.projects[i].category, name) {
                total = total + 1;
                if !self.projects[i].archived {
                    active = active + 1;
                }
            }
            i = i + 1;
        }
        proof {
            assert(self.projects@.subrange(0, i as int) =~= self.projects@);
        }
        (total, active)
    }

    /// Moves every project of category `from` to category `to` and returns
    /// how many were moved.
    pub fn migrate_category(&mut self, from: &Vec<u8>, to: &Vec<u8>) -> (n: u64)
        requires
            old(self).wf(),
        ensures
            final(self).wf(),
            n == ids_in_category(old(self).projects@, from@).len(),
            final(self).projects@.len() == old(self).projects@.len(),
            forall|i: int| 0 <= i < old(self).projects@.len() ==> {
                let p = #[trigger] final(self).projects@[i];
                let q = old(self).projects@[i];
                &&& (q.category@ == from@ ==> p.category@ == to@)
                &&& (q.category@ != from@ ==> p.category == q.category)
                &&& p.id == q.id && p.owner == q.owner && p.name == q.name && p.slug == q.slug
                &&& p.description == q.description && p.tags == q.tags && p.repository_url == q.repository_url
                &&& p.maintainers == q.maintainers && p.verification_status == q.verification_status
                &&& p.current_verification_id == q.current_verification_id && p.archived == q.archived
                &&& p.created_at == q.created_at && p.updated_at == q.updated_at
            },
    {
        let mut n: u64 = 0;
        let mut i: usize = 0;
        while i < self.projects.len()
            invariant
                i <= self.projects@.len(),
                self.projects@.len() == old(self).projects@.len(),
                self.wf(),
                n == ids_in_category(old(self).projects@.subrange(0, i as int), from@).len(),
                n <= i,
                forall|j: int| i <= j < self.projects@.len() ==> #[trigger] self.projects@[j] == old(self).projects@[j],
                forall|j: int| 0 <= j < i ==> {
                    let p = #[trigger] self.projects@[j];
                    let q = old(self).projects@[j];
                    &&& (q.category@ == from@ ==> p.category@ == to@)
                    &&& (q.category@ != from@ ==> p.category == q.category)
                    &&& p.id == q.id && p.owner == q.owner && p.name == q.name && p.slug == q.slug
                    &&& p.description == q.description && p.tags == q.tags && p.repository_url == q.repository_url
                    &&& p.maintainers == q.maintainers && p.verification_status == q.verification_status
                    &&& p.current_verification_id == q.current_verification_id && p.archived == q.archived
                    &&& p.created_at == q.created_at && p.updated_at == q.updated_at
                },
            decreases self.projects@.len() - i,
        {
            proof {
                assert(old(self).projects@.subrange(0, i + 1).drop_last() =~= old(self).projects@.subrange(0, i as int));
            }
            if crate::utils::bytes_eq(&self.projects[i].category, from) {
                let mut p = self.projects.remove(i);
                p.category = crate::utils::copy_text(to);
                self.projects.insert(i, p);
                n = n + 1;
            }
            i = i + 1;
        }
        proof {
            assert(old(self).projects@.subrange(0, i as int) =~= old(self).projects@);
        }
        n
    }
}

/// The latest verification request of a project.
pub struct VerificationRecord {
    pub request_id: u64,
    pub project_id: u64,
    pub requester: Addr,
    pub evidence_cid: Vec<u8>,
    pub status: VerificationStatus,
    pub requested_at: u64,
    pub decided_at: u64,
    pub expires_at: u64,
    pub revoke_reason: Option<Vec<u8>>,
}

impl VerificationRecord {
    /// The record's fields as plain values.
    pub open spec fn view_tuple(&self) -> (u64, u64, Addr, Seq<u8>, VerificationStatus, u64, u64, u64, Option<Seq<u8>>) {
        (
            self.request_id,
            self.project_id,
            self.requester,
            self.evidence_cid@,
            self.status,
            self.requested_at,
            self.decided_at,
            self.expires_at,
            match self.revoke_reason {
                Some(r) => Some(r@),
                None => None,
            },
        )
    }

    /// A copy of the record.
    pub fn duplicate(&self) -> (r: VerificationRecord)
        ensures
            r.view_tuple() == self.view_tuple(),
    {
        VerificationRecord {
            request_id: self.request_id,
            project_id: self.project_id,
            requester: self.requester,
            evidence_cid: crate::utils::copy_text(&self.evidence_cid),
            status: self.status,
            requested_at: self.requested_at,
            decided_at: self.decided_at,
            expires_at: self.expires_at,
            revoke_reason: match &self.revoke_reason {
                Some(t) => Some(crate::utils::copy_text(t)),
                None => None,
            },
        }
    }
}

/// The current verification record of each project that has one.
pub struct VerificationBook {
    pub records: Vec<VerificationRecord>,
}

impl VerificationBook {
    /// No project has two current records.
    pub open spec fn wf(&self) -> bool {
        forall|i: int, j: int|
            0 <= i < self.records@.len() && 0 <= j < self.records@.len() && i != j
                ==> (#[trigger] self.records@[i]).project_id != (#[trigger] self.records@[j]).project_id
    }

    /// Whether the project has a current record.
    pub open spec fn has_record(&self, project_id: u64) -> bool {
        exists|i: int| 0 <= i < self.records@.len() && (#[trigger] self.records@[i]).project_id == project_id
    }

    /// Position of the project's current record (meaningful when it has one).
    pub open spec fn index_of(&self, project_id: u64) -> int {
        choose|i: int| 0 <= i < self.records@.len() && (#[trigger] self.records@[i]).project_id == project_id
    }

    /// Records a decision on the record at position `idx`.
    pub fn decide(
        &mut self,
        idx: usize,
        status: VerificationStatus,
        decided_at: u64,
        expires_at: u64,
    )
        requires
            old(self).wf(),
            idx < old(self).records@.len(),
        ensures
            final(self).wf(),
            final(self).records@ == old(self).records@.update(
                idx as int,
                VerificationRecord {
                    status,
                    decided_at,
                    expires_at,
                    ..old(self).records@[idx as int]
                },
            ),
    {
        let mut r = self.records.remove(idx);
        r.status = status;
        r.decided_at = decided_at;
        r.expires_at = expires_at;
        self.records.insert(idx, r);
        proof {
            assert(self.records@ =~= old(self).records@.update(idx as int, r));
            assert forall|i: int, j: int|
                0 <= i < self.records@.len() && 0 <= j < self.records@.len() && i != j
                implies (#[trigger] self.records@[i]).project_id != (#[trigger] self.records@[j]).project_id by {
                assert(self.records@[i].project_id == old(self).records@[i].project_id);
                assert(self.records@[j].project_id == old(self).records@[j].project_id);
            }
        }
    }

    /// Marks the record at position `idx` revoked for `reason`, decided at
    /// `now`.
    pub fn revoke_at(&mut self, idx: usize, reason: Vec<u8>, now: u64)
        requires
            old(self).wf(),
            idx < old(self).records@.len(),
        ensures
            final(self).wf(),
            final(self).records@ == old(self).records@.update(
                idx as int,
                VerificationRecord {
                    status: VerificationStatus::Unverified,
                    revoke_reason: Some(reason),
                    decided_at: now,
                    ..old(self).records@[idx as int]
                },
            ),
    {
        let mut r = self.records.remove(idx);
        r.status = VerificationStatus::Unverified;
        r.revoke_reason = Some(reason);
        r.decided_at = now;
        self.records.insert(idx, r);
        proof {
            assert(self.records@ =~= old(self).records@.update(idx as int, r));
            assert forall|i: int, j: int|
                0 <= i < self.records@.len() && 0 <= j < self.records@.len() && i != j
                implies (#[trigger] self.records@[i]).project_id != (#[trigger] self.records@[j]).project_id by {
                assert(self.records@[i].project_id == old(self).records@[i].project_id);
                assert(self.records@[j].project_id == old(self).records@[j].project_id);
            }
        }
    }

    /// Marks the record at position `idx` revoked for `reason`.
    pub fn revoke(&mut self, idx: usize, reason: Vec<u8>)
        requires
            old(self).wf(),
            idx < old(self).records@.len(),
        ensures
            final(self).wf(),
            final(self).records@ == old(self).records@.update(
                idx as int,
                VerificationRecord {
                    status: VerificationStatus::Unverified,
                    revoke_reason: Some(reason),
                    ..old(self).records@[idx as int]
                },
            ),
    {
        let mut r = self.records.remove(idx);
        r.status = VerificationStatus::Unverified;
        r.revoke_reason = Some(reason);
        self.records.insert(idx, r);
        proof {
            assert(self.records@ =~= old(self).records@.update(idx as int, r));
            assert forall|i: int, j: int|
                0 <= i < self.records@.len() && 0 <= j < self.records@.len() && i != j
                implies (#[trigger] self.records@[i]).project_id != (#[trigger] self.records@[j]).project_id by {
                assert(self.records@[i].project_id == old(self).records@[i].project_id);
                assert(self.records@[j].project_id == old(self).records@[j].project_id);
            }
        }
    }

    /// Position of the project's current record, if it has one.
    pub fn find(&self, project_id: u64) -> (r: Option<usize>)
        requires
            self.wf(),
        ensures
            r.is_some() == self.has_record(project_id),
            r.is_some() ==> r.unwrap() == self.index_of(project_id),
    {
        let mut i: usize = 0;
        while i < self.records.len()
            invariant
                0 <= i <= self.records@.len(),
                self.wf(),
                forall|j: int| 0 <= j < i ==> (#[trigger] self.records@[j]).project_id != project_id,
            decreases self.records@.len() - i,
        {
            if self.records[i].project_id == project_id {
                proof {
                    let k = self.index_of(project_id);
                    assert(self.records@[i as int].project_id == project_id);
                    assert(0 <= k < self.records@.len() && self.records@[k].project_id == project_id);
                    if k != i as int {
                        assert(self.records@[k].project_id != self.records@[i as int].project_id);
                    }
                }
                return Some(i);
            }
            i = i + 1;
        }
        None
    }
}

/// The verification status changes that the registry allows.
pub open spec fn transition_allowed(from: VerificationStatus, to: VerificationStatus) -> bool {
    match (from, to) {
        (VerificationStatus::Unverified, VerificationStatus::Pending) => true,
        (VerificationStatus::Rejected, VerificationStatus::Pending) => true,
        (VerificationStatus::Pending, VerificationStatus::Verified) => true,
        (VerificationStatus::Pending, VerificationStatus::Rejected) => true,
        (VerificationStatus::Verified, VerificationStatus::Unverified) => true,
        (VerificationStatus::Probationary, VerificationStatus::Verified) => true,
        (VerificationStatus::Probationary, VerificationStatus::Unverified) => true,
        _ => false,
    }
}

/// Checks a verification status change.
pub fn validate_transition(from: VerificationStatus, to: VerificationStatus) -> (r: Result<(), ContractError>)
    ensures
        r.is_ok() == transition_allowed(from, to),
        r.is_err() ==> r == Err::<(), ContractError>(ContractError::InvalidStatusTransition),
{
    let ok = match (from, to) {
        (VerificationStatus::Unverified, VerificationStatus::Pending) => true,
        (VerificationStatus::Rejected, VerificationStatus::Pending) => true,
        (VerificationStatus::Pending, VerificationStatus::Verified) => true,
        (VerificationStatus::Pending, VerificationStatus::Rejected) => true,
        (VerificationStatus::Verified, VerificationStatus::Unverified) => true,
        (VerificationStatus::Probationary, VerificationStatus::Verified) => true,
        (VerificationStatus::Probationary, VerificationStatus::Unverified) => true,
        _ => false,
    };
    if ok {
        Ok(())
    } else {
        Err(ContractError::InvalidStatusTransition)
    }
}

} // verus!
