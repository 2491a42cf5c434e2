//! Dongle: an on-chain registry for project discovery and verification.
//!
//! The library holds the registry's state as plain values and proves that
//! every operation does what its contract says. Account addresses are `Addr`
//! values; ledger time is handed in as `now`; signature checks happen before
//! an operation is called.
pub mod constants;
pub mod types;
pub mod utils;
pub mod admin_action_log;
pub mod fee_manager;
pub mod admin_manager;
pub mod auth;
pub mod governance_ranges;
pub mod emergency_pause;
pub mod config_registry;
pub mod admin_registry;
pub mod category_registry;
pub mod pagination;
pub mod collection_registry;
pub mod auto_archive_registry;
pub mod community_collection_registry;
pub mod admin_session;
pub mod featured_registry;
pub mod endorsement_registry;
pub mod dispute_registry;
pub mod dependency_registry;
pub mod fork_registry;
pub mod probation_registry;
pub mod notification_registry;
pub mod project_operation_limiter;
pub mod events;
pub mod changelog_registry;
pub mod bookmark_registry;
