use dongle::admin_action_log::AdminActionLog;
use dongle::admin_manager::AdminManager;
use dongle::admin_registry::AdminRegistry;
use dongle::fee_manager::FeeManager;
use dongle::types::{Addr, ContractError};

fn setup() -> (AdminRegistry, Addr) {
    (AdminRegistry::new(), Addr::new(1))
}

#[test]
fn test_initialize_contract_with_admin() {
    let (mut r, admin) = setup();
    r.initialize(admin);
    assert!(r.is_admin(admin));
    let admins = r.list_admins();
    assert_eq!(admins.len(), 1);
    assert_eq!(admins[0], admin);
}

#[test]
fn test_admin_can_add_new_admin() {
    let (mut r, admin) = setup();
    r.initialize(admin);
    let new_admin = Addr::new(2);
    r.add_admin(admin, new_admin).unwrap();
    assert!(r.is_admin(new_admin));
    assert_eq!(r.list_admins().len(), 2);
}

#[test]
fn test_non_admin_cannot_add_admin() {
    let (mut r, admin) = setup();
    r.initialize(admin);
    let result = r.add_admin(Addr::new(3), Addr::new(4));
    assert!(result.is_err());
}

#[test]
fn test_cannot_add_existing_admin() {
    let (mut r, admin) = setup();
    r.initialize(admin);
    let result = r.add_admin(admin, admin);
    assert!(result.is_err());
}

#[test]
fn test_admin_can_remove_another_admin() {
    let (mut r, admin) = setup();
    r.initialize(admin);
    let admin2 = Addr::new(2);
    r.add_admin(admin, admin2).unwrap();
    assert!(r.is_admin(admin2));
    r.remove_admin(admin, admin2).unwrap();
    assert!(!r.is_admin(admin2));
    assert_eq!(r.list_admins().len(), 1);
}

#[test]
fn admin_tests_test_cannot_remove_last_admin() {
    let (mut r, admin) = setup();
    r.initialize(admin);
    let result = r.remove_admin(admin, admin);
    assert!(result.is_err());
}

#[test]
fn test_non_admin_cannot_remove_admin() {
    let (mut r, admin) = setup();
    r.initialize(admin);
    let admin2 = Addr::new(2);
    r.add_admin(admin, admin2).unwrap();
    let result = r.remove_admin(Addr::new(9), admin2);
    assert!(result.is_err());
}

#[test]
fn test_multiple_admins_workflow() {
    let (mut r, admin1) = setup();
    r.initialize(admin1);
    let admin2 = Addr::new(2);
    r.add_admin(admin1, admin2).unwrap();
    let admin3 = Addr::new(3);
    r.add_admin(admin2, admin3).unwrap();
    assert!(r.is_admin(admin1));
    assert!(r.is_admin(admin2));
    assert!(r.is_admin(admin3));
    assert_eq!(r.list_admins().len(), 3);
    r.remove_admin(admin3, admin2).unwrap();
    assert!(!r.is_admin(admin2));
    assert_eq!(r.list_admins().len(), 2);
}

#[test]
fn test_only_admin_can_set_fee() {
    let mut admins = AdminManager::new();
    let admin = Addr::new(1);
    admins.initialize(admin).unwrap();
    let mut log = AdminActionLog::new();
    let mut fees = FeeManager::new();
    let treasury = Addr::new(50);
    fees.set_fee(admin, None, 1000000, 0, treasury, 10, &admins, &mut log).unwrap();
    let fee_config = fees.get_fee_config().unwrap();
    assert_eq!(fee_config.verification_fee, 1000000);
}

#[test]
fn test_non_admin_cannot_set_fee() {
    let mut admins = AdminManager::new();
    let admin = Addr::new(1);
    admins.initialize(admin).unwrap();
    let mut log = AdminActionLog::new();
    let mut fees = FeeManager::new();
    let non_admin = Addr::new(2);
    let treasury = Addr::new(50);
    let result = fees.set_fee(non_admin, None, 1000000, 0, treasury, 10, &admins, &mut log);
    assert!(result.is_err());
}

#[test]
fn registry_errors_are_exact() {
    let (mut r, admin) = setup();
    r.initialize(admin);
    assert_eq!(r.add_admin(Addr::new(5), Addr::new(6)), Err(ContractError::AdminOnly));
    assert_eq!(r.add_admin(admin, admin), Err(ContractError::InvalidProjectData));
    assert_eq!(r.remove_admin(admin, admin), Err(ContractError::InvalidProjectData));
}
