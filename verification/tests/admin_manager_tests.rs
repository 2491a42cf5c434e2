use dongle::admin_action_log::{AdminActionLog, AdminActionType};
use dongle::admin_manager::{AdminManager, ProposalPayload, ProposalStatus};
use dongle::fee_manager::FeeManager;
use dongle::governance_ranges::{ExternalParams, GovernanceParam, GovernanceRanges, ParamRange};

const EXT: ExternalParams = ExternalParams { review_fee: 0, max_reviews_per_project: 20_000 };
use dongle::types::{Addr, ContractError, ProjectBook, VerificationBook};

fn setup() -> (AdminManager, AdminActionLog) {
    (AdminManager::new(), AdminActionLog::new())
}

#[test]
fn test_initialize_admin() {
    let (mut m, _log) = setup();
    let admin = Addr::new(1);
    m.initialize(admin).unwrap();
    assert!(m.is_admin(admin));
    assert_eq!(m.get_admin_count(), 1);
}

#[test]
fn test_initialize_only_once() {
    let (mut m, _log) = setup();
    m.initialize(Addr::new(1)).unwrap();
    assert_eq!(m.initialize(Addr::new(2)), Err(ContractError::AlreadyInitialized));
}

#[test]
fn test_add_admin_duplicate() {
    let (mut m, mut log) = setup();
    let admin1 = Addr::new(1);
    let admin2 = Addr::new(2);
    m.initialize(admin1).unwrap();
    m.add_admin(admin1, admin2, &mut log, 10).unwrap();
    m.add_admin(admin1, admin2, &mut log, 11).unwrap();
    assert!(m.is_admin(admin2));
    assert_eq!(m.get_admin_count(), 2);
    assert_eq!(log.get_action_log_count(), 1);
}

#[test]
fn test_add_admin_unauthorized() {
    let (mut m, mut log) = setup();
    let admin = Addr::new(1);
    let non_admin = Addr::new(2);
    let new_admin = Addr::new(3);
    m.initialize(admin).unwrap();
    let result = m.add_admin(non_admin, new_admin, &mut log, 10);
    assert_eq!(result, Err(ContractError::AdminOnly));
    assert!(!m.is_admin(new_admin));
}

#[test]
fn test_remove_admin() {
    let (mut m, mut log) = setup();
    let admin1 = Addr::new(1);
    let admin2 = Addr::new(2);
    m.initialize(admin1).unwrap();
    m.add_admin(admin1, admin2, &mut log, 10).unwrap();
    m.remove_admin(admin1, admin2, &mut log, 11).unwrap();
    assert!(!m.is_admin(admin2));
    assert_eq!(m.get_admin_count(), 1);
}

#[test]
fn admin_manager_test_cannot_remove_last_admin() {
    let (mut m, mut log) = setup();
    let admin = Addr::new(1);
    m.initialize(admin).unwrap();
    let result = m.remove_admin(admin, admin, &mut log, 10);
    assert_eq!(result, Err(ContractError::CannotRemoveLastAdmin));
    assert!(m.is_admin(admin));
}

#[test]
fn test_remove_non_existent_admin() {
    let (mut m, mut log) = setup();
    let admin = Addr::new(1);
    let non_admin = Addr::new(2);
    let another_admin = Addr::new(3);
    m.initialize(admin).unwrap();
    m.add_admin(admin, another_admin, &mut log, 10).unwrap();
    let result = m.remove_admin(admin, non_admin, &mut log, 11);
    assert_eq!(result, Err(ContractError::AdminNotFound));
    assert!(m.is_admin(another_admin));
}

#[test]
fn test_remove_admin_twice() {
    let (mut m, mut log) = setup();
    let admin1 = Addr::new(1);
    let admin2 = Addr::new(2);
    m.initialize(admin1).unwrap();
    m.add_admin(admin1, admin2, &mut log, 10).unwrap();
    m.remove_admin(admin1, admin2, &mut log, 11).unwrap();
    let result = m.remove_admin(admin1, admin2, &mut log, 12);
    assert_eq!(result, Err(ContractError::AdminNotFound));
    assert_eq!(m.get_admin_count(), 1);
}

#[test]
fn test_admin_can_remove_themselves() {
    let (mut m, mut log) = setup();
    let admin1 = Addr::new(1);
    let admin2 = Addr::new(2);
    let admin3 = Addr::new(3);
    m.initialize(admin1).unwrap();
    m.add_admin(admin1, admin2, &mut log, 10).unwrap();
    m.add_admin(admin1, admin3, &mut log, 11).unwrap();
    m.remove_admin(admin2, admin2, &mut log, 12).unwrap();
    assert!(m.is_admin(admin1));
    assert!(!m.is_admin(admin2));
    assert!(m.is_admin(admin3));
    assert_eq!(m.get_admin_count(), 2);
}

#[test]
fn admin_changes_are_logged_newest_first() {
    let (mut m, mut log) = setup();
    let admin1 = Addr::new(1);
    let admin2 = Addr::new(2);
    m.initialize(admin1).unwrap();
    m.add_admin(admin1, admin2, &mut log, 10).unwrap();
    m.remove_admin(admin2, admin2, &mut log, 20).unwrap();
    let page = log.list_admin_actions(0, 0);
    assert_eq!(page.len(), 2);
    assert_eq!(page[0].action_type, AdminActionType::AdminRemoved);
    assert_eq!(page[0].timestamp, 20);
    assert_eq!(page[1].action_type, AdminActionType::AdminAdded);
    let by_admin2 = log.get_admin_action_log_by_admin(admin2, 0, 10);
    assert_eq!(by_admin2.len(), 1);
    assert_eq!(by_admin2[0].id, 2);
}

#[test]
fn multisig_threshold_blocks_direct_admin_changes() {
    let (mut m, mut log) = setup();
    let admin1 = Addr::new(1);
    let admin2 = Addr::new(2);
    m.initialize(admin1).unwrap();
    m.add_admin(admin1, admin2, &mut log, 10).unwrap();
    assert_eq!(m.set_admin_approval_threshold(admin1, 3), Err(ContractError::InvalidProjectData));
    m.set_admin_approval_threshold(admin1, 2).unwrap();
    assert_eq!(m.get_admin_approval_threshold(), 2);
    assert_eq!(m.add_admin(admin1, Addr::new(3), &mut log, 11), Err(ContractError::MultiSigRequired));
    assert_eq!(m.set_admin_approval_threshold(admin1, 1), Err(ContractError::Unauthorized));
}

#[test]
fn proposal_needs_threshold_approvals_before_execution() {
    let (mut m, mut log) = setup();
    let admin1 = Addr::new(1);
    let admin2 = Addr::new(2);
    let admin3 = Addr::new(3);
    m.initialize(admin1).unwrap();
    m.add_admin(admin1, admin2, &mut log, 10).unwrap();
    m.set_admin_approval_threshold(admin1, 2).unwrap();
    let hash = vec![7u8, 7, 7];
    let id = m
        .create_proposal(admin1, ProposalPayload::AddAdmin(admin3), 0, hash.clone(), 100)
        .unwrap();
    assert_eq!(id, 0);
    assert_eq!(m.get_proposal(id).unwrap().status, ProposalStatus::Pending);
    let mut fees = FeeManager::new();
    let mut projects = ProjectBook::new();
    let mut verifications = VerificationBook { records: Vec::new() };
    let r = m.execute_proposal(admin1, id, &hash, 101, &mut fees, &mut projects, &mut verifications, &mut GovernanceRanges::new(), EXT, &mut AdminActionLog::new());
    assert_eq!(r, Err(ContractError::InvalidStatus));
    assert_eq!(m.approve_proposal(admin1, id), Err(ContractError::Unauthorized));
    m.approve_proposal(admin2, id).unwrap();
    assert_eq!(m.get_proposal(id).unwrap().status, ProposalStatus::Approved);
    let wrong = vec![1u8];
    let r = m.execute_proposal(admin1, id, &wrong, 102, &mut fees, &mut projects, &mut verifications, &mut GovernanceRanges::new(), EXT, &mut AdminActionLog::new());
    assert_eq!(r, Err(ContractError::PayloadHashMismatch));
    m.execute_proposal(admin1, id, &hash, 103, &mut fees, &mut projects, &mut verifications, &mut GovernanceRanges::new(), EXT, &mut AdminActionLog::new()).unwrap();
    assert!(m.is_admin(admin3));
    assert_eq!(m.get_proposal(id).unwrap().status, ProposalStatus::Executed);
}

#[test]
fn threshold_downgrade_requires_supermajority() {
    let (mut m, mut log) = setup();
    let a1 = Addr::new(1);
    let a2 = Addr::new(2);
    let a3 = Addr::new(3);
    let a4 = Addr::new(4);
    m.initialize(a1).unwrap();
    m.add_admin(a1, a2, &mut log, 1).unwrap();
    m.add_admin(a1, a3, &mut log, 2).unwrap();
    m.add_admin(a1, a4, &mut log, 3).unwrap();
    m.set_admin_approval_threshold(a1, 3).unwrap();
    let hash = vec![1u8];
    let id = m.create_proposal(a1, ProposalPayload::SetThreshold(2), 0, hash.clone(), 4).unwrap();
    m.approve_proposal(a2, id).unwrap();
    let mut fees = FeeManager::new();
    let mut projects = ProjectBook::new();
    let mut verifications = VerificationBook { records: Vec::new() };
    // Two approvals do not reach the live threshold of three.
    let r = m.execute_proposal(a1, id, &hash, 5, &mut fees, &mut projects, &mut verifications, &mut GovernanceRanges::new(), EXT, &mut AdminActionLog::new());
    assert_eq!(r, Err(ContractError::InvalidStatus));
    m.approve_proposal(a3, id).unwrap();
    // Three approvals exceed the proposed threshold of two: the downgrade runs.
    m.execute_proposal(a1, id, &hash, 6, &mut fees, &mut projects, &mut verifications, &mut GovernanceRanges::new(), EXT, &mut AdminActionLog::new()).unwrap();
    assert_eq!(m.get_admin_approval_threshold(), 2);
    assert_eq!(m.get_proposal(id).unwrap().status, ProposalStatus::Executed);
}

#[test]
fn verification_duration_zero_restores_default() {
    let (mut m, _log) = setup();
    let a1 = Addr::new(1);
    m.initialize(a1).unwrap();
    assert_eq!(m.get_verification_duration(), 31_536_000);
    m.set_verification_duration(a1, 100).unwrap();
    assert_eq!(m.get_verification_duration(), 100);
    m.set_verification_duration(a1, 0).unwrap();
    assert_eq!(m.get_verification_duration(), 31_536_000);
    assert_eq!(m.set_verification_duration(Addr::new(9), 5), Err(ContractError::AdminOnly));
}

#[test]
fn expired_proposal_cannot_execute() {
    let (mut m, _log) = setup();
    let a1 = Addr::new(1);
    m.initialize(a1).unwrap();
    let hash = vec![9u8];
    let id = m.create_proposal(a1, ProposalPayload::SetThreshold(1), 50, hash.clone(), 10).unwrap();
    let mut fees = FeeManager::new();
    let mut projects = ProjectBook::new();
    let mut verifications = VerificationBook { records: Vec::new() };
    let r = m.execute_proposal(a1, id, &hash, 50, &mut fees, &mut projects, &mut verifications, &mut GovernanceRanges::new(), EXT, &mut AdminActionLog::new());
    assert_eq!(r, Err(ContractError::ProposalExpired));
}

#[test]
fn range_changes_pass_through_proposals_under_multisig() {
    let (mut m, mut log) = setup();
    let a1 = Addr::new(1);
    let a2 = Addr::new(2);
    m.initialize(a1).unwrap();
    m.add_admin(a1, a2, &mut log, 1).unwrap();
    m.set_admin_approval_threshold(a1, 2).unwrap();
    let mut ranges = GovernanceRanges::new();
    let fees = FeeManager::new();
    // The direct path is closed once the threshold is above one.
    let direct = ranges.set_range(a1, GovernanceParam::ApprovalThreshold, ParamRange { min: 1, max: 5 }, &m, &fees, EXT, &mut log, 2);
    assert_eq!(direct, Err(ContractError::MultiSigRequired));
    let hash = vec![7u8];
    let payload = ProposalPayload::SetParamRange(GovernanceParam::ApprovalThreshold, ParamRange { min: 1, max: 5 });
    let id = m.create_proposal(a1, payload, 0, hash.clone(), 3).unwrap();
    m.approve_proposal(a2, id).unwrap();
    let mut fees = FeeManager::new();
    let mut projects = ProjectBook::new();
    let mut verifications = VerificationBook { records: Vec::new() };
    let before = log.get_action_log_count();
    m.execute_proposal(a1, id, &hash, 4, &mut fees, &mut projects, &mut verifications, &mut ranges, EXT, &mut log).unwrap();
    assert_eq!(ranges.get_range(GovernanceParam::ApprovalThreshold), ParamRange { min: 1, max: 5 });
    assert_eq!(log.get_action_log_count(), before + 1);
    assert_eq!(m.get_proposal(id).unwrap().status, ProposalStatus::Executed);
    // A range that excludes the live threshold (2) is refused at execution.
    let bad = ProposalPayload::SetParamRange(GovernanceParam::ApprovalThreshold, ParamRange { min: 3, max: 5 });
    let id2 = m.create_proposal(a1, bad, 0, hash.clone(), 5).unwrap();
    m.approve_proposal(a2, id2).unwrap();
    let r = m.execute_proposal(a1, id2, &hash, 6, &mut fees, &mut projects, &mut verifications, &mut ranges, EXT, &mut log);
    assert_eq!(r, Err(ContractError::InvalidParamRange));
    assert_eq!(ranges.get_range(GovernanceParam::ApprovalThreshold), ParamRange { min: 1, max: 5 });
}
