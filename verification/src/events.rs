//! Event payloads that the registry publishes.
use vstd::prelude::*;
pub use crate::fee_manager::FeeOperation;
pub use crate::notification_registry::ProjectUpdateNotificationEvent;

verus! {

/// A project's verification expired at `expired_at`; noticed at `timestamp`.
#[derive(Clone, Copy, Debug, PartialEq, Eq, Structural)]
pub struct VerificationExpiredEvent {
    pub project_id: u64,
    pub expired_at: u64,
    pub timestamp: u64,
}

/// A project's probation ended with promotion at `promoted_at`.
#[derive(Clone, Copy, Debug, PartialEq, Eq, Structural)]
pub struct ProbationAutoPromotedEvent {
    pub project_id: u64,
    pub promoted_at: u64,
}

} // verus!
