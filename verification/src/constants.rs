//! Limits and defaults of the registry.
use vstd::prelude::*;

verus! {

pub const MAX_PROJECTS_PER_USER: u32 = 50;
pub const MAX_REVIEWS_PER_PROJECT: u32 = 20_000;
pub const MAX_REVIEWS_PER_USER: u32 = 200;
pub const MAX_PAGE_LIMIT: u32 = 100;
pub const MAX_TTL_BATCH_SIZE: u32 = 100;
pub const MAX_NAME_LEN: usize = 50;
pub const MAX_SLUG_LEN: usize = 64;
pub const MAX_DESCRIPTION_LEN: usize = 2048;
pub const MAX_CATEGORY_LEN: usize = 64;
pub const MAX_WEBSITE_LEN: usize = 256;
pub const MAX_CID_LEN: usize = 128;
pub const MIN_CID_LEN: usize = 46;
pub const MAX_DEPENDENCY_DEPTH: u32 = 5;
pub const MAX_TAGS_PER_PROJECT: u32 = 10;
pub const MAX_SOCIAL_LINKS: u32 = 10;
pub const MAX_SOCIAL_LINK_URL_LEN: usize = 256;
pub const VERIFICATION_VALIDITY_PERIOD: u64 = 31_536_000;
pub const MAX_FEATURED_PROJECTS: u32 = 20;
pub const MAX_COLLECTIONS: u32 = 100;
pub const MAX_COLLECTION_NAME_LEN: usize = 100;
pub const MAX_COLLECTION_DESCRIPTION_LEN: usize = 500;
pub const MAX_PROJECTS_PER_COLLECTION: u32 = 500;
pub const MAX_ADMIN_ACTION_LOG_PAGE: u32 = 100;
pub const DEFAULT_VERIFICATION_DURATION_SECS: u64 = 31_536_000;
pub const FEE_PAYMENT_EXPIRY_SECONDS: u64 = 604_800;
pub const REVIEW_UPDATE_COOLDOWN_SECONDS: u64 = 3600;
pub const CONTRACT_VERSION_MAJOR: u32 = 1;
pub const DEFAULT_PROBATIONARY_DURATION_SECS: u64 = 2_592_000;

pub const MAX_COMMUNITY_COL_NAME_LEN: usize = 100;
pub const MAX_COMMUNITY_COL_DESCRIPTION_LEN: usize = 500;
pub const MAX_COMMUNITY_COL_TAGS_LEN: usize = 256;
pub const MAX_COMMUNITY_COL_PROJECTS: u32 = 200;
pub const MAX_COMMUNITY_COL_CURATORS: u32 = 30;
pub const MAX_COMMUNITY_COLLECTIONS: u32 = 5_000;
pub const MAX_FEATURED_COMMUNITY_COLLECTIONS: u32 = 20;
pub const DEFAULT_COMMUNITY_COL_APPROVAL_THRESHOLD: u32 = 3;
pub const DEFAULT_COMMUNITY_COL_DISAPPROVAL_THRESHOLD: u32 = 3;
pub const DEFAULT_COMMUNITY_COL_CREATOR_SHARE_BPS: u32 = 6_000;
pub const MAX_COMMUNITY_COL_CREATOR_SHARE_BPS: u32 = 9_000;
pub const MIN_COMMUNITY_COL_CREATOR_SHARE_BPS: u32 = 1_000;

pub const MAX_FOLDER_DEPTH: u32 = 5;
pub const MAX_FOLDER_NAME_LEN: usize = 64;
pub const MAX_BOOKMARK_FOLDERS_PER_USER: u32 = 50;
pub const MAX_BOOKMARKS_PER_FOLDER: u32 = 200;
pub const MAX_SMART_FOLDERS_PER_USER: u32 = 20;

} // verus!
