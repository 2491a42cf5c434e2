use dongle::admin_action_log::{AdminActionLog, AdminActionType};
use dongle::admin_manager::AdminManager;
use dongle::auth::{require_admin_auth, require_owner_auth};
use dongle::config_registry::ConfigRegistry;
use dongle::emergency_pause::EmergencyPause;
use dongle::fee_manager::FeeManager;
use dongle::governance_ranges::{ExternalParams, GovernanceParam, GovernanceRanges, ParamRange};
use dongle::pagination::paginate;
use dongle::types::{Addr, ContractError};

fn admins() -> (AdminManager, Addr) {
    let mut m = AdminManager::new();
    let admin = Addr::new(1);
    m.initialize(admin).unwrap();
    (m, admin)
}

const EXT: ExternalParams = ExternalParams { review_fee: 0, max_reviews_per_project: 20_000 };

#[test]
fn default_ranges_admit_defaults() {
    let g = GovernanceRanges::new();
    assert_eq!(g.get_range(GovernanceParam::ApprovalThreshold), ParamRange { min: 1, max: 20 });
    assert_eq!(g.validate(GovernanceParam::ApprovalThreshold, 1), Ok(()));
    assert_eq!(g.validate(GovernanceParam::ApprovalThreshold, 21), Err(ContractError::ParameterOutOfRange));
    assert_eq!(g.validate(GovernanceParam::VerificationDuration, 86_399), Err(ContractError::ParameterOutOfRange));
    assert_eq!(GovernanceRanges::all_params().len(), 6);
    assert_eq!(g.get_all_ranges().len(), 6);
    assert!(ParamRange { min: 3, max: 5 }.contains(5));
    assert!(!ParamRange { min: 3, max: 5 }.contains(6));
}

#[test]
fn ranges_must_contain_current_value() {
    let (admins, admin) = admins();
    let fees = FeeManager::new();
    let mut log = AdminActionLog::new();
    let mut g = GovernanceRanges::new();
    assert_eq!(
        g.set_range(Addr::new(7), GovernanceParam::ApprovalThreshold, ParamRange { min: 1, max: 3 }, &admins, &fees, EXT, &mut log, 1),
        Err(ContractError::AdminOnly)
    );
    assert_eq!(
        g.set_range(admin, GovernanceParam::ApprovalThreshold, ParamRange { min: 5, max: 3 }, &admins, &fees, EXT, &mut log, 1),
        Err(ContractError::InvalidParamRange)
    );
    assert_eq!(
        g.set_range(admin, GovernanceParam::ApprovalThreshold, ParamRange { min: 2, max: 3 }, &admins, &fees, EXT, &mut log, 1),
        Err(ContractError::InvalidParamRange)
    );
    assert_eq!(
        GovernanceRanges::current_value(GovernanceParam::MaxReviewsPerProject, &admins, &fees, EXT),
        20_000
    );
    g.set_range(admin, GovernanceParam::ApprovalThreshold, ParamRange { min: 1, max: 3 }, &admins, &fees, EXT, &mut log, 1)
        .unwrap();
    assert_eq!(g.get_range(GovernanceParam::ApprovalThreshold), ParamRange { min: 1, max: 3 });
    assert_eq!(g.validate(GovernanceParam::ApprovalThreshold, 4), Err(ContractError::ParameterOutOfRange));
    assert_eq!(g.get_range(GovernanceParam::ReviewFee).min, 0);
    assert_eq!(log.get_action_log_count(), 1);
    assert_eq!(log.get_log_entry(1).unwrap().action_type, AdminActionType::ParamRangeChanged);
}

#[test]
fn pause_switches_and_blocks() {
    let (admins, admin) = admins();
    let mut p = EmergencyPause::new();
    assert!(!p.is_paused());
    assert_eq!(p.require_not_paused(), Ok(()));
    assert_eq!(p.pause(Addr::new(7), &admins), Err(ContractError::AdminOnly));
    p.pause(admin, &admins).unwrap();
    assert!(p.is_paused());
    assert_eq!(p.require_not_paused(), Err(ContractError::ContractPaused));
    p.unpause(admin, &admins).unwrap();
    assert!(!p.is_paused());
}

#[test]
fn config_registry_reports_previous_state() {
    let (admins, admin) = admins();
    let fees = FeeManager::new();
    let mut log = AdminActionLog::new();
    let mut p = EmergencyPause::new();
    assert_eq!(ConfigRegistry::set_pause(&mut p, Addr::new(7), true, &admins, &mut log, 1), Err(ContractError::AdminOnly));
    assert_eq!(ConfigRegistry::set_pause(&mut p, admin, true, &admins, &mut log, 1), Ok(false));
    assert!(ConfigRegistry::is_paused(&p));
    assert_eq!(ConfigRegistry::set_pause(&mut p, admin, false, &admins, &mut log, 2), Ok(true));
    let view = ConfigRegistry::get_config(&p, &admins, &fees);
    assert_eq!(view.admin_count, 1);
    assert_eq!(view.admin_approval_threshold, 1);
    assert!(!view.paused);
    assert_eq!(view.treasury, None);
}

#[test]
fn action_log_pages_newest_first() {
    let mut log = AdminActionLog::new();
    let a = Addr::new(1);
    let b = Addr::new(2);
    assert_eq!(log.record_action(a, AdminActionType::ParamRangeChanged, None, None, None, 10), 1);
    assert_eq!(log.record_action(b, AdminActionType::ParamRangeChanged, Some(4), None, None, 11), 2);
    assert_eq!(log.record_action(a, AdminActionType::ParamRangeChanged, None, Some(b), None, 12), 3);
    assert_eq!(log.get_action_log_count(), 3);
    let page = log.list_admin_actions(0, 10);
    assert_eq!(page.iter().map(|e| e.id).collect::<Vec<u64>>(), vec![3, 2, 1]);
    let by_a = log.get_admin_action_log_by_admin(a, 0, 10);
    assert_eq!(by_a.iter().map(|e| e.id).collect::<Vec<u64>>(), vec![3, 1]);
    assert_eq!(log.get_log_entry(2).unwrap().target_id, Some(4));
    assert!(log.get_log_entry(4).is_none());
}

#[test]
fn paginate_clamps_limits() {
    let items: Vec<u64> = (1..=150).collect();
    assert_eq!(paginate(&items, 0, 3), vec![1, 2, 3]);
    assert_eq!(paginate(&items, 148, 10), vec![149, 150]);
    assert_eq!(paginate(&items, 150, 10), Vec::<u64>::new());
    assert_eq!(paginate(&items, 0, 0).len(), 0);
    assert_eq!(paginate(&items, 0, 1000).len(), 100);
}

#[test]
fn auth_helpers_answer_exactly() {
    let (admins, admin) = admins();
    assert_eq!(require_admin_auth(&admins, admin), Ok(()));
    assert_eq!(require_admin_auth(&admins, Addr::new(2)), Err(ContractError::AdminOnly));
    assert_eq!(require_owner_auth(Addr::new(3), Addr::new(3)), Ok(()));
    assert_eq!(require_owner_auth(Addr::new(3), Addr::new(4)), Err(ContractError::Unauthorized));
}

#[test]
fn default_range_values() {
    assert_eq!(GovernanceRanges::default_range(GovernanceParam::VerificationFee), ParamRange { min: 0, max: 1_000_000_000_000 });
    assert_eq!(
        GovernanceRanges::default_range(GovernanceParam::VerificationDuration),
        ParamRange { min: 86_400, max: 157_680_000 }
    );
    assert_eq!(
        GovernanceRanges::default_range(GovernanceParam::MaxReviewsPerProject),
        ParamRange { min: 1, max: 100_000 }
    );
    assert_eq!(GovernanceRanges::all_params()[0], GovernanceParam::ApprovalThreshold);
}

#[test]
fn error_codes_match_the_published_table() {
    assert_eq!(ContractError::AlreadyInitialized.code(), 1);
    assert_eq!(ContractError::AdminOnly.code(), 10);
    assert_eq!(ContractError::InvalidParamRange.code(), 117);
    assert_eq!(ContractError::SmartFolderNotFound.code(), 130);
}
