use dongle::admin_action_log::AdminActionLog;
use dongle::admin_manager::AdminManager;
use dongle::fee_manager::{FeeManager, Transfer};
use dongle::types::{Addr, ContractError, Project, ProjectBook, VerificationStatus};

fn project(id: u64, owner: Addr) -> Project {
    Project {
        id,
        owner,
        name: format!("P{}", id).into_bytes(),
        slug: format!("p{}", id).into_bytes(),
        description: b"Description".to_vec(),
        category: b"DeFi".to_vec(),
        tags: None,
        repository_url: None,
        maintainers: vec![],
        linked_projects: vec![],
        verification_status: VerificationStatus::Unverified,
        current_verification_id: None,
        archived: false,
        created_at: 0,
        updated_at: 0,
    }
}

struct Env {
    admins: AdminManager,
    admin: Addr,
    log: AdminActionLog,
    book: ProjectBook,
    fees: FeeManager,
    owner: Addr,
    token: Addr,
    treasury: Addr,
}

fn setup() -> Env {
    let mut admins = AdminManager::new();
    let admin = Addr::new(1);
    admins.initialize(admin).unwrap();
    let owner = Addr::new(10);
    let mut book = ProjectBook::new();
    book.push_project(project(1, owner));
    let mut log = AdminActionLog::new();
    let mut fees = FeeManager::new();
    let token = Addr::new(500);
    let treasury = Addr::new(600);
    fees.set_fee(admin, Some(token), 1_000, 50, treasury, 1, &admins, &mut log).unwrap();
    Env { admins, admin, log, book, fees, owner, token, treasury }
}

#[test]
fn payment_requires_configuration() {
    let mut fees = FeeManager::new();
    let mut book = ProjectBook::new();
    let owner = Addr::new(10);
    book.push_project(project(1, owner));
    assert_eq!(fees.get_fee_config().err(), Some(ContractError::FeeConfigNotSet));
    assert_eq!(fees.pay_fee(owner, 1, None, 5, &book), Err(ContractError::FeeConfigNotSet));
    assert!(!fees.is_fee_paid(1));
}

#[test]
fn paying_returns_the_transfer() {
    let mut e = setup();
    assert_eq!(e.fees.pay_fee(Addr::new(11), 1, Some(e.token), 5, &e.book), Err(ContractError::Unauthorized));
    assert_eq!(e.fees.pay_fee(e.owner, 2, Some(e.token), 5, &e.book), Err(ContractError::ProjectNotFound));
    assert_eq!(e.fees.pay_fee(e.owner, 1, Some(Addr::new(501)), 5, &e.book), Err(ContractError::InvalidProjectData));
    let t = e.fees.pay_fee(e.owner, 1, Some(e.token), 5, &e.book).unwrap();
    assert_eq!(t, Some(Transfer { token: e.token, from: e.owner, to: e.treasury, amount: 1_000 }));
    assert!(e.fees.is_fee_paid(1));
    let rec = e.fees.get_fee_payment_details(1).unwrap();
    assert_eq!(rec.amount, 1_000);
    assert_eq!(rec.paid_at, 5);
    let r = e.fees.pay_registration_fee(e.owner, Some(e.token), 6).unwrap();
    assert_eq!(r, Some(Transfer { token: e.token, from: e.owner, to: e.treasury, amount: 50 }));
    assert!(e.fees.is_registration_fee_paid(e.owner));
    assert_eq!(e.fees.get_registration_fee_payment_details(e.owner).unwrap().amount, 50);
}

#[test]
fn a_payment_is_consumed_once() {
    let mut e = setup();
    assert_eq!(e.fees.consume_fee_payment(1, e.owner, 1_000, 10), Err(ContractError::InsufficientFee));
    e.fees.pay_fee(e.owner, 1, Some(e.token), 5, &e.book).unwrap();
    assert_eq!(e.fees.consume_fee_payment(1, e.owner, 1_000, 10), Ok(()));
    assert!(!e.fees.is_fee_paid(1));
    assert_eq!(e.fees.consume_fee_payment(1, e.owner, 1_000, 11), Err(ContractError::InsufficientFee));
}

#[test]
fn a_payment_expires_after_a_week() {
    let mut e = setup();
    e.fees.pay_fee(e.owner, 1, Some(e.token), 5, &e.book).unwrap();
    assert_eq!(e.fees.consume_fee_payment(1, e.owner, 1_000, 5 + 604_800), Err(ContractError::FeePaymentExpired));
    assert!(e.fees.is_fee_paid(1));
    assert_eq!(e.fees.consume_fee_payment(1, e.owner, 1_000, 5 + 604_799), Ok(()));
    e.fees.pay_registration_fee(e.owner, Some(e.token), 6).unwrap();
    assert_eq!(
        e.fees.consume_registration_fee_payment(e.owner, 50, 6 + 604_800),
        Err(ContractError::FeePaymentExpired)
    );
    assert_eq!(e.fees.consume_registration_fee_payment(e.owner, 50, 7), Ok(()));
    assert!(!e.fees.is_registration_fee_paid(e.owner));
}

#[test]
fn cancelling_refunds_the_payer() {
    let mut e = setup();
    e.fees.pay_fee(e.owner, 1, Some(e.token), 5, &e.book).unwrap();
    assert_eq!(
        e.fees.cancel_fee_payment(Addr::new(12), 1, 6, &e.admins, &e.book, &mut e.log),
        Err(ContractError::Unauthorized)
    );
    let t = e.fees.cancel_fee_payment(e.owner, 1, 6, &e.admins, &e.book, &mut e.log).unwrap();
    assert_eq!(t, Some(Transfer { token: e.token, from: e.treasury, to: e.owner, amount: 1_000 }));
    assert!(!e.fees.is_fee_paid(1));
    assert!(e.fees.get_fee_payment_details(1).is_none());
    assert_eq!(
        e.fees.cancel_fee_payment(e.owner, 1, 7, &e.admins, &e.book, &mut e.log),
        Err(ContractError::InsufficientFee)
    );
}

#[test]
fn a_refund_is_claimed_once() {
    let mut e = setup();
    e.fees.pay_fee(e.owner, 1, Some(e.token), 5, &e.book).unwrap();
    assert_eq!(e.fees.record_verification_refund(1, 3, e.owner, 0, 8), Ok(None));
    let rec = e.fees.record_verification_refund(1, 3, e.owner, 400, 8).unwrap().unwrap();
    assert_eq!(rec.amount, 400);
    assert_eq!(rec.token, Some(e.token));
    let rec = e.fees.record_verification_refund(1, 4, e.owner, 100, 9).unwrap().unwrap();
    assert_eq!(rec.amount, 500);
    assert_eq!(
        e.fees.claim_fee_refund(Addr::new(12), 1, 10, &e.admins, &mut e.log),
        Err(ContractError::Unauthorized)
    );
    let t = e.fees.claim_fee_refund(e.owner, 1, 10, &e.admins, &mut e.log).unwrap();
    assert_eq!(t, Transfer { token: e.token, from: e.treasury, to: e.owner, amount: 500 });
    assert_eq!(e.fees.get_fee_refund(1).unwrap().claimed_at, Some(10));
    assert_eq!(
        e.fees.claim_fee_refund(e.owner, 1, 11, &e.admins, &mut e.log),
        Err(ContractError::RefundAlreadyClaimed)
    );
    assert_eq!(
        e.fees.claim_fee_refund(e.admin, 2, 11, &e.admins, &mut e.log),
        Err(ContractError::NoRefundAvailable)
    );
}
