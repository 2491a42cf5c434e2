use dongle::changelog_registry::{ChangelogRegistry, ChangelogSortMode};
use dongle::notification_registry::{DigestFrequency, NotificationKind, NotificationRegistry};
use dongle::project_operation_limiter::ProjectOperationLimiter;
use dongle::types::{Addr, ContractError, Project, ProjectBook, VerificationStatus};

fn project(id: u64, owner: Addr, status: VerificationStatus) -> Project {
    Project {
        id,
        owner,
        name: format!("P{}", id).into_bytes(),
        slug: format!("p{}", id).into_bytes(),
        description: b"Description".to_vec(),
        category: b"DeFi".to_vec(),
        tags: None,
        repository_url: None,
        maintainers: vec![],
        linked_projects: vec![],
        verification_status: status,
        current_verification_id: None,
        archived: false,
        created_at: 0,
        updated_at: 0,
    }
}

fn cid(n: u8) -> Vec<u8> {
    let mut v = b"Qm".to_vec();
    v.extend(std::iter::repeat(b'a' + n).take(44));
    v
}

#[test]
fn notification_prefs_and_overrides() {
    let mut reg = NotificationRegistry::new();
    let user = Addr::new(3);
    assert!(reg.get_notification_prefs(user).is_none());
    reg.set_notification_prefs(user, false, true, DigestFrequency::Daily, vec![NotificationKind::ProjectUpdate])
        .unwrap();
    let p = reg.get_notification_prefs(user).unwrap();
    assert_eq!(p.digest_frequency, DigestFrequency::Daily);
    assert!(p.notify_on_all);
    assert_eq!(p.kinds, vec![NotificationKind::ProjectUpdate]);
    reg.set_project_notification_override(user, 7, true, None).unwrap();
    reg.set_project_notification_override(user, 7, false, Some(vec![NotificationKind::VerificationRevoked])).unwrap();
    let o = reg.get_project_notification_override(user, 7).unwrap();
    assert!(!o.opted_out);
    assert_eq!(o.kinds, Some(vec![NotificationKind::VerificationRevoked]));
    assert!(reg.get_project_notification_override(user, 8).is_none());
    assert!(reg.get_project_notification_override(Addr::new(4), 7).is_none());
}

#[test]
fn notification_event_carries_its_inputs() {
    let e = NotificationRegistry::emit_project_notification(5, NotificationKind::ProjectUpdate, 42, 1_000);
    assert_eq!(e.project_id, 5);
    assert_eq!(e.update_kind, NotificationKind::ProjectUpdate);
    assert_eq!(e.follower_count, 42);
    assert_eq!(e.timestamp, 1_000);
}

#[test]
fn digest_queue_is_idempotent_capped_and_flushed() {
    let mut reg = NotificationRegistry::new();
    let user = Addr::new(3);
    assert!(reg.flush_digest_queue(user).unwrap().is_none());
    reg.enqueue_digest(user, 1);
    reg.enqueue_digest(user, 1);
    reg.enqueue_digest(user, 2);
    assert_eq!(reg.get_digest_queue(user, 0, 10), vec![1, 2]);
    for pid in 3..=101u64 {
        reg.enqueue_digest(user, pid);
    }
    let q = reg.get_digest_queue(user, 0, 100);
    assert_eq!(q.len(), 100);
    assert_eq!(q[0], 2);
    assert_eq!(q[99], 101);
    let digest = reg.flush_digest_queue(user).unwrap().unwrap();
    assert_eq!(digest.user, user);
    assert_eq!(digest.project_ids.len(), 100);
    assert_eq!(digest.frequency, DigestFrequency::Immediate);
    assert_eq!(reg.get_digest_queue(user, 0, 10).len(), 0);
    reg.set_notification_prefs(user, false, false, DigestFrequency::Weekly, vec![]).unwrap();
    reg.enqueue_digest(user, 9);
    assert_eq!(reg.flush_digest_queue(user).unwrap().unwrap().frequency, DigestFrequency::Weekly);
}

#[test]
fn limiter_counts_per_day_and_resets() {
    let book = ProjectBook::new();
    let mut lim = ProjectOperationLimiter::new();
    let who = Addr::new(5);
    for _ in 0..5 {
        lim.consume_registration(who, 100, &book).unwrap();
    }
    assert_eq!(lim.consume_registration(who, 200, &book), Err(ContractError::OperationLimitExceeded));
    // Another address is counted on its own.
    lim.consume_registration(Addr::new(6), 200, &book).unwrap();
    // The next day starts a new bucket.
    lim.consume_registration(who, 86_400, &book).unwrap();
    for _ in 0..20 {
        lim.consume_update(who, 10, &book).unwrap();
    }
    assert_eq!(lim.consume_update(who, 10, &book), Err(ContractError::OperationLimitExceeded));
    for _ in 0..60 {
        lim.consume_query(who, 59, &book).unwrap();
    }
    assert_eq!(lim.consume_query(who, 59, &book), Err(ContractError::OperationLimitExceeded));
    lim.consume_query(who, 60, &book).unwrap();
}

#[test]
fn verified_owners_get_double_limits() {
    let owner = Addr::new(5);
    let mut book = ProjectBook::new();
    book.push_project(project(1, owner, VerificationStatus::Verified));
    let mut lim = ProjectOperationLimiter::new();
    for _ in 0..10 {
        lim.consume_registration(owner, 100, &book).unwrap();
    }
    assert_eq!(lim.consume_registration(owner, 100, &book), Err(ContractError::OperationLimitExceeded));
}

#[test]
fn changelog_entries_and_ordering() {
    let owner = Addr::new(5);
    let mut book = ProjectBook::new();
    book.push_project(project(1, owner, VerificationStatus::Unverified));
    let mut reg = ChangelogRegistry::new();
    assert_eq!(
        reg.add_changelog_entry(1, Addr::new(6), cid(0), None, None, None, 10, &book),
        Err(ContractError::Unauthorized)
    );
    assert_eq!(
        reg.add_changelog_entry(2, owner, cid(0), None, None, None, 10, &book),
        Err(ContractError::ProjectNotFound)
    );
    assert_eq!(
        reg.add_changelog_entry(1, owner, b"bad".to_vec(), None, None, None, 10, &book),
        Err(ContractError::InvalidCid)
    );
    assert_eq!(
        reg.add_changelog_entry(1, owner, cid(0), None, Some(Vec::new()), None, 10, &book),
        Err(ContractError::InvalidProjectData)
    );
    let a = reg.add_changelog_entry(1, owner, cid(0), None, Some(b"1.0".to_vec()), None, 30, &book).unwrap();
    let b = reg.add_changelog_entry(1, owner, cid(1), None, None, None, 10, &book).unwrap();
    let c = reg.add_changelog_entry(1, owner, cid(2), None, None, None, 30, &book).unwrap();
    assert_eq!((a, b, c), (1, 2, 3));
    assert_eq!(
        reg.add_changelog_entry(1, owner, cid(1), None, None, None, 40, &book),
        Err(ContractError::DuplicateReview)
    );
    assert_eq!(reg.get_changelog_count(1), 3);
    let newest: Vec<u64> =
        reg.get_project_changelog(1, 0, 10, ChangelogSortMode::Newest, &book).iter().map(|e| e.id).collect();
    assert_eq!(newest, vec![1, 3, 2]);
    let oldest: Vec<u64> =
        reg.get_project_changelog(1, 0, 10, ChangelogSortMode::Oldest, &book).iter().map(|e| e.id).collect();
    assert_eq!(oldest, vec![2, 1, 3]);
    assert_eq!(reg.remove_changelog_entry(b, Addr::new(6), &book), Err(ContractError::Unauthorized));
    reg.remove_changelog_entry(b, owner, &book).unwrap();
    assert!(reg.get_changelog_entry(b).is_none());
    assert_eq!(reg.get_changelog_count(1), 2);
    assert_eq!(reg.remove_changelog_entry(b, owner, &book), Err(ContractError::ReviewNotFound));
}
