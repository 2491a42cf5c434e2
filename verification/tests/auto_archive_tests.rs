use dongle::admin_manager::AdminManager;
use dongle::auto_archive_registry::{
    AutoArchiveConfig, AutoArchiveNoticeStatus, AutoArchiveRegistry, AUTO_ARCHIVE_NOTICE_SECS,
    DEFAULT_AUTO_ARCHIVE_THRESHOLD_SECS, MAX_AUTO_ARCHIVE_THRESHOLD_SECS, MIN_AUTO_ARCHIVE_THRESHOLD_SECS,
};
use dongle::types::{Addr, ContractError, Project, ProjectBook, VerificationStatus};

fn project(id: u64, owner: Addr, name: &str, updated_at: u64) -> Project {
    Project {
        id,
        owner,
        name: name.as_bytes().to_vec(),
        slug: name.to_lowercase().replace(' ', "-").into_bytes(),
        description: b"A project".to_vec(),
        category: b"DeFi".to_vec(),
        tags: None,
        repository_url: None,
        maintainers: vec![],
        linked_projects: vec![],
        verification_status: VerificationStatus::Unverified,
        current_verification_id: None,
        archived: false,
        created_at: 0,
        updated_at,
    }
}

fn setup() -> (AutoArchiveRegistry, AdminManager, ProjectBook, Addr, Addr) {
    let mut admins = AdminManager::new();
    let admin = Addr::new(1);
    admins.initialize(admin).unwrap();
    let owner = Addr::new(10);
    let mut book = ProjectBook::new();
    book.push_project(project(1, owner, "Hello World", 0));
    book.push_project(project(2, owner, "Other Thing", 0));
    let mut reg = AutoArchiveRegistry::new();
    let config = AutoArchiveConfig { enabled: true, inactivity_threshold_secs: MIN_AUTO_ARCHIVE_THRESHOLD_SECS };
    reg.set_config(admin, config, &admins).unwrap();
    (reg, admins, book, admin, owner)
}

#[test]
fn default_config_is_enabled_for_a_year() {
    let reg = AutoArchiveRegistry::new();
    let c = reg.get_config();
    assert!(c.enabled);
    assert_eq!(c.inactivity_threshold_secs, DEFAULT_AUTO_ARCHIVE_THRESHOLD_SECS);
    assert_eq!(DEFAULT_AUTO_ARCHIVE_THRESHOLD_SECS, 31_536_000);
}

#[test]
fn set_config_errors() {
    let (mut reg, admins, _book, admin, owner) = setup();
    let good = AutoArchiveConfig { enabled: true, inactivity_threshold_secs: MIN_AUTO_ARCHIVE_THRESHOLD_SECS };
    assert_eq!(reg.set_config(owner, good, &admins), Err(ContractError::AdminOnly));
    let short = AutoArchiveConfig { enabled: true, inactivity_threshold_secs: MIN_AUTO_ARCHIVE_THRESHOLD_SECS - 1 };
    assert_eq!(reg.set_config(admin, short, &admins), Err(ContractError::AutoArchiveThresholdInvalid));
    let long = AutoArchiveConfig { enabled: true, inactivity_threshold_secs: 315_360_001 };
    assert_eq!(reg.set_config(admin, long, &admins), Err(ContractError::AutoArchiveThresholdInvalid));
    assert_eq!(reg.get_config(), good);
    let half_year = AutoArchiveConfig { enabled: true, inactivity_threshold_secs: 182 * 86_400 };
    assert_eq!(reg.set_config(admin, half_year, &admins), Err(ContractError::AutoArchiveThresholdInvalid));
    let eight_years = AutoArchiveConfig { enabled: true, inactivity_threshold_secs: 8 * 365 * 86_400 };
    assert_eq!(reg.set_config(admin, eight_years, &admins), Ok(()));
    assert_eq!(reg.get_config(), eight_years);
}

#[test]
fn notice_start_saturates() {
    assert_eq!(AutoArchiveRegistry::notice_start(0, MIN_AUTO_ARCHIVE_THRESHOLD_SECS), 28_944_000);
    assert_eq!(AutoArchiveRegistry::notice_start(0, 1000), 0);
    assert_eq!(MIN_AUTO_ARCHIVE_THRESHOLD_SECS, 365 * 86_400);
    assert_eq!(MAX_AUTO_ARCHIVE_THRESHOLD_SECS, 3650 * 86_400);
    assert_eq!(AutoArchiveRegistry::notice_start(u64::MAX, 10), u64::MAX - AUTO_ARCHIVE_NOTICE_SECS);
}

#[test]
fn notify_project_window_and_idempotence() {
    let (mut reg, _admins, book, _admin, owner) = setup();
    let keeper = Addr::new(99);
    assert_eq!(reg.notify_project(keeper, 1, 28_000_000, &book), Err(ContractError::AutoArchiveNotDue));
    assert_eq!(reg.notify_project(keeper, 7, 30_000_000, &book), Err(ContractError::ProjectNotFound));
    assert_eq!(reg.notify_project(keeper, 1, 28_944_000, &book), Ok(true));
    let notice = reg.get_notice(1).unwrap();
    assert_eq!(notice.owner, owner);
    assert_eq!(notice.notified_at, 28_944_000);
    assert_eq!(notice.archive_eligible_at, MIN_AUTO_ARCHIVE_THRESHOLD_SECS);
    assert_eq!(notice.status, AutoArchiveNoticeStatus::Pending);
    assert_eq!(reg.notify_project(keeper, 1, 29_000_000, &book), Ok(false));
    assert_eq!(reg.get_notice(1).unwrap().notified_at, 28_944_000);
}

#[test]
fn failed_notice_can_be_reissued() {
    let (mut reg, admins, book, admin, owner) = setup();
    let keeper = Addr::new(99);
    assert_eq!(reg.record_notice_delivery(admin, 1, true, &admins), Err(ContractError::AutoArchiveNoticeNotFound));
    reg.notify_project(keeper, 1, 28_944_000, &book).unwrap();
    assert_eq!(reg.record_notice_delivery(owner, 1, false, &admins), Err(ContractError::AdminOnly));
    reg.record_notice_delivery(admin, 1, false, &admins).unwrap();
    assert_eq!(reg.get_notice(1).unwrap().status, AutoArchiveNoticeStatus::Failed);
    assert_eq!(reg.notify_project(keeper, 1, 30_000_000, &book), Ok(true));
    assert_eq!(reg.get_notice(1).unwrap().notified_at, 30_000_000);
}

#[test]
fn disabled_config_refuses_work() {
    let (mut reg, admins, mut book, admin, _owner) = setup();
    let off = AutoArchiveConfig { enabled: false, inactivity_threshold_secs: MIN_AUTO_ARCHIVE_THRESHOLD_SECS };
    reg.set_config(admin, off, &admins).unwrap();
    assert_eq!(reg.notify_project(admin, 1, 40_000_000, &book), Err(ContractError::AutoArchiveDisabled));
    assert!(matches!(
        reg.archive_inactive_batch(admin, 0, 10, 40_000_000, &mut book),
        Err(ContractError::AutoArchiveDisabled)
    ));
}

#[test]
fn archival_waits_for_notice_period() {
    let (mut reg, _admins, mut book, _admin, owner) = setup();
    let keeper = Addr::new(99);
    reg.notify_project(keeper, 1, 30_000_000, &book).unwrap();
    // Threshold elapsed, but the notice is younger than the notice period.
    let early = reg.archive_inactive_batch(keeper, 0, 10, 32_000_000, &mut book).unwrap();
    assert_eq!(early.archived_count, 0);
    assert_eq!(early.scanned_projects, 2);
    assert!(!early.has_more);
    assert_eq!(early.next_project_id, None);
    assert!(!book.get_project(1).unwrap().archived);
    // Once the notice period has passed, the noticed project is archived.
    let done = reg.archive_inactive_batch(keeper, 0, 10, 30_000_000 + AUTO_ARCHIVE_NOTICE_SECS, &mut book).unwrap();
    assert_eq!(done.archived_count, 1);
    assert_eq!(done.archived_project_ids, vec![1]);
    assert!(book.get_project(1).unwrap().archived);
    assert!(!book.get_project(2).unwrap().archived);
    let record = reg.get_record(1).unwrap();
    assert_eq!(record.owner, owner);
    assert_eq!(record.archived_by, keeper);
    assert_eq!(record.notified_at, 30_000_000);
    assert_eq!(record.restored_at, None);
    // An archived project is not noticed again.
    assert_eq!(reg.notify_project(keeper, 1, 40_000_000, &book), Err(ContractError::AlreadyArchived));
}

#[test]
fn batch_stops_at_limit_and_reports_cursor() {
    let (mut reg, _admins, mut book, _admin, _owner) = setup();
    let keeper = Addr::new(99);
    reg.notify_project(keeper, 1, 28_944_000, &book).unwrap();
    reg.notify_project(keeper, 2, 28_944_000, &book).unwrap();
    let now = 28_944_000 + AUTO_ARCHIVE_NOTICE_SECS;
    let first = reg.archive_inactive_batch(keeper, 0, 1, now, &mut book).unwrap();
    assert_eq!(first.archived_project_ids, vec![1]);
    assert_eq!(first.scanned_projects, 1);
    assert!(first.has_more);
    assert_eq!(first.next_project_id, Some(2));
    let second = reg.archive_inactive_batch(keeper, 2, 1, now, &mut book).unwrap();
    assert_eq!(second.archived_project_ids, vec![2]);
    assert!(!second.has_more);
    let past_end = reg.archive_inactive_batch(keeper, 3, 1, now, &mut book).unwrap();
    assert_eq!(past_end.scanned_projects, 0);
    assert_eq!(past_end.next_project_id, None);
}

#[test]
fn restore_brings_project_back() {
    let (mut reg, admins, mut book, _admin, owner) = setup();
    let keeper = Addr::new(99);
    reg.notify_project(keeper, 1, 28_944_000, &book).unwrap();
    reg.archive_inactive_batch(keeper, 0, 10, 28_944_000 + AUTO_ARCHIVE_NOTICE_SECS, &mut book).unwrap();
    let stranger = Addr::new(77);
    assert_eq!(
        reg.restore_archived_project(1, stranger, 40_000_000, &admins, &mut book),
        Err(ContractError::Unauthorized)
    );
    assert_eq!(
        reg.restore_archived_project(5, owner, 40_000_000, &admins, &mut book),
        Err(ContractError::ProjectNotFound)
    );
    assert_eq!(reg.restore_archived_project(1, owner, 40_000_000, &admins, &mut book), Ok(()));
    let p = book.get_project(1).unwrap();
    assert!(!p.archived);
    assert_eq!(p.updated_at, 40_000_000);
    assert!(reg.get_notice(1).is_none());
    assert_eq!(reg.get_record(1).unwrap().restored_at, Some(40_000_000));
    assert_eq!(
        reg.restore_archived_project(1, owner, 40_000_001, &admins, &mut book),
        Err(ContractError::ProjectNotArchived)
    );
}

#[test]
fn contains_ignore_case_examples() {
    let hay = b"Hello World".to_vec();
    assert!(AutoArchiveRegistry::contains_ignore_case(&hay, &b"WORLD".to_vec()));
    assert!(AutoArchiveRegistry::contains_ignore_case(&hay, &b"lo wo".to_vec()));
    assert!(AutoArchiveRegistry::contains_ignore_case(&hay, &Vec::new()));
    assert!(!AutoArchiveRegistry::contains_ignore_case(&hay, &b"worlds".to_vec()));
    assert!(!AutoArchiveRegistry::contains_ignore_case(&vec![b'a'; 300], &b"a".to_vec()));
}

#[test]
fn search_finds_archived_matches_only() {
    let (mut reg, _admins, mut book, _admin, _owner) = setup();
    let keeper = Addr::new(99);
    reg.notify_project(keeper, 1, 28_944_000, &book).unwrap();
    reg.archive_inactive_batch(keeper, 0, 10, 28_944_000 + AUTO_ARCHIVE_NOTICE_SECS, &mut book).unwrap();
    let found = AutoArchiveRegistry::search_archived_projects(&b"hello".to_vec(), 0, 10, &book).ok().unwrap();
    assert_eq!(found.projects.len(), 1);
    assert_eq!(found.projects[0].id, 1);
    assert_eq!(found.scanned_projects, 2);
    assert!(!found.has_more);
    let none = AutoArchiveRegistry::search_archived_projects(&b"other".to_vec(), 0, 10, &book).ok().unwrap();
    assert_eq!(none.projects.len(), 0);
    assert!(matches!(
        AutoArchiveRegistry::search_archived_projects(&vec![b'x'; 257], 0, 10, &book),
        Err(ContractError::InvalidInput)
    ));
}
