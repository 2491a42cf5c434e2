use std::collections::HashMap;

use dongle::admin_action_log::AdminActionLog;
use dongle::admin_manager::AdminManager;
use dongle::dependency_registry::{DependencyRef, DependencyRegistry, ProjectDependency};
use dongle::dispute_registry::{DisputeRegistry, DisputeResolutionAction, DisputeStatus};
use dongle::endorsement_registry::EndorsementRegistry;
use dongle::featured_registry::FeaturedRegistry;
use dongle::fork_registry::{ForkRegistry, ForkSignal, ProjectStats};
use dongle::probation_registry::ProbationRegistry;
use dongle::types::{Addr, ContractError, Project, ProjectBook, VerificationBook, VerificationStatus};

const CID: &str = "QmYwAPJzv5CZsnA625s3Xf2nemtYgPpHdWEz79ojWnPbdG";

fn project(id: u64, owner: Addr, name: &str) -> Project {
    Project {
        id,
        owner,
        name: name.as_bytes().to_vec(),
        slug: name.to_lowercase().into_bytes(),
        description: b"Description".to_vec(),
        category: b"DeFi".to_vec(),
        tags: None,
        repository_url: None,
        maintainers: vec![],
        linked_projects: vec![],
        verification_status: VerificationStatus::Unverified,
        current_verification_id: None,
        archived: false,
        created_at: 0,
        updated_at: 0,
    }
}

fn admins() -> (AdminManager, Addr) {
    let mut m = AdminManager::new();
    let admin = Addr::new(1);
    m.initialize(admin).unwrap();
    (m, admin)
}

fn book_of(names: &[(&str, u64)]) -> ProjectBook {
    let mut b = ProjectBook::new();
    for (i, (name, owner)) in names.iter().enumerate() {
        b.push_project(project(i as u64 + 1, Addr::new(*owner), name));
    }
    b
}

#[test]
fn featured_projects_keep_the_newest_twenty() {
    let (admins, admin) = admins();
    let mut log = AdminActionLog::new();
    let mut b = ProjectBook::new();
    for i in 1..=22u64 {
        b.push_project(project(i, Addr::new(9), &format!("P{}", i)));
    }
    let mut reg = FeaturedRegistry::new();
    assert_eq!(reg.set_featured(Addr::new(9), 1, true, 5, &admins, &b, &mut log), Err(ContractError::AdminOnly));
    assert_eq!(reg.set_featured(admin, 99, true, 5, &admins, &b, &mut log), Err(ContractError::ProjectNotFound));
    for i in 1..=21u64 {
        reg.set_featured(admin, i, true, 5, &admins, &b, &mut log).unwrap();
    }
    assert_eq!(reg.get_featured_count(), 20);
    let page = reg.list_featured_projects(0, 100, &b);
    assert_eq!(page.len(), 20);
    assert_eq!(page[0].id, 2);
    assert_eq!(page[19].id, 21);
    reg.set_featured(admin, 5, false, 6, &admins, &b, &mut log).unwrap();
    assert_eq!(reg.get_featured_count(), 19);
    let logged = log.get_action_log_count();
    reg.set_featured(admin, 5, false, 7, &admins, &b, &mut log).unwrap();
    assert_eq!(reg.get_featured_count(), 19);
    reg.set_featured(admin, 6, true, 8, &admins, &b, &mut log).unwrap();
    assert_eq!(reg.get_featured_count(), 19);
    assert_eq!(log.get_action_log_count(), logged);
}

#[test]
fn unendorse_undoes_endorse() {
    let b = book_of(&[("Alpha", 9)]);
    let mut reg = EndorsementRegistry::new();
    let user = Addr::new(3);
    assert_eq!(reg.endorse_project(2, user, &b), Err(ContractError::ProjectNotFound));
    reg.endorse_project(1, user, &b).unwrap();
    assert!(reg.has_endorsed(1, user));
    assert_eq!(reg.get_endorsement_count(1), 1);
    assert_eq!(reg.endorse_project(1, user, &b), Err(ContractError::AlreadyEndorsed));
    reg.endorse_project(1, Addr::new(4), &b).unwrap();
    assert_eq!(reg.get_project_endorsements(1, 0, 10), vec![user, Addr::new(4)]);
    reg.unendorse_project(1, user, &b).unwrap();
    assert!(!reg.has_endorsed(1, user));
    assert_eq!(reg.get_endorsement_count(1), 1);
    assert_eq!(reg.get_project_endorsements(1, 0, 10), vec![Addr::new(4)]);
    assert_eq!(reg.unendorse_project(1, user, &b), Err(ContractError::NotEndorsed));
}

#[test]
fn disputes_open_and_resolve() {
    let (admins, admin) = admins();
    let mut log = AdminActionLog::new();
    let mut b = book_of(&[("Alpha", 9), ("Alpha Copy", 8)]);
    let mut reg = DisputeRegistry::new();
    let creator = Addr::new(9);
    let cid = CID.as_bytes().to_vec();
    assert_eq!(reg.open_duplicate_dispute(2, 2, creator, cid.clone(), 1, &b), Err(ContractError::CannotLinkToSelf));
    assert_eq!(reg.open_duplicate_dispute(2, 3, creator, cid.clone(), 1, &b), Err(ContractError::ProjectNotFound));
    assert_eq!(
        reg.open_duplicate_dispute(2, 1, creator, b"short".to_vec(), 1, &b),
        Err(ContractError::InvalidProjectData)
    );
    let id = reg.open_duplicate_dispute(2, 1, creator, cid.clone(), 1, &b).unwrap();
    assert_eq!(id, 1);
    let id2 = reg.open_duplicate_dispute(2, 1, creator, cid.clone(), 2, &b).unwrap();
    assert_eq!(id2, 2);
    assert_eq!(reg.get_disputes_for_project(2).len(), 2);
    assert_eq!(
        reg.resolve_duplicate_dispute(id, creator, DisputeResolutionAction::Reject, 3, &admins, &mut b, &mut log),
        Err(ContractError::AdminOnly)
    );
    assert_eq!(
        reg.resolve_duplicate_dispute(id, admin, DisputeResolutionAction::ArchiveProject(7), 3, &admins, &mut b, &mut log),
        Err(ContractError::ProjectNotFound)
    );
    reg.resolve_duplicate_dispute(id, admin, DisputeResolutionAction::ArchiveProject(2), 3, &admins, &mut b, &mut log)
        .unwrap();
    assert!(b.get_project(2).unwrap().archived);
    let d = reg.get_duplicate_dispute(id).unwrap();
    assert_eq!(d.status, DisputeStatus::Resolved);
    assert_eq!(d.resolved_at, 3);
    assert_eq!(
        reg.resolve_duplicate_dispute(id, admin, DisputeResolutionAction::Reject, 4, &admins, &mut b, &mut log),
        Err(ContractError::InvalidStatus)
    );
    reg.resolve_duplicate_dispute(id2, admin, DisputeResolutionAction::LinkDuplicates, 5, &admins, &mut b, &mut log)
        .unwrap();
    assert_eq!(b.get_project(2).unwrap().linked_projects, vec![1]);
}

fn dep_project(id: u64) -> ProjectDependency {
    ProjectDependency {
        reference: DependencyRef { project_id: Some(id), external_cid: None, external_url: None },
        version: Some(b"1.0".to_vec()),
        description: None,
    }
}

fn dep_url(url: &str) -> ProjectDependency {
    ProjectDependency {
        reference: DependencyRef { project_id: None, external_cid: None, external_url: Some(url.as_bytes().to_vec()) },
        version: None,
        description: None,
    }
}

#[test]
fn dependencies_are_keyed_by_target() {
    let b = book_of(&[("Alpha", 9), ("Beta", 9)]);
    let owner = Addr::new(9);
    let mut reg = DependencyRegistry::new();
    assert_eq!(reg.add_dependency(1, Addr::new(3), dep_project(2), &b), Err(ContractError::Unauthorized));
    assert_eq!(reg.add_dependency(5, owner, dep_project(2), &b), Err(ContractError::ProjectNotFound));
    assert_eq!(reg.add_dependency(1, owner, dep_project(7), &b), Err(ContractError::DependencyProjectNotFound));
    assert_eq!(reg.add_dependency(1, owner, dep_url("ftp://x"), &b), Err(ContractError::InvalidDependencyUrl));
    let both = ProjectDependency {
        reference: DependencyRef { project_id: Some(2), external_cid: None, external_url: Some(b"https://a".to_vec()) },
        version: None,
        description: None,
    };
    assert_eq!(reg.add_dependency(1, owner, both, &b), Err(ContractError::InvalidDependencyReference));
    let bad_cid = ProjectDependency {
        reference: DependencyRef { project_id: None, external_cid: Some(b"Qm".to_vec()), external_url: None },
        version: None,
        description: None,
    };
    assert_eq!(reg.add_dependency(1, owner, bad_cid, &b), Err(ContractError::InvalidDependencyCid));
    reg.add_dependency(1, owner, dep_project(2), &b).unwrap();
    reg.add_dependency(1, owner, dep_url("https://example.com"), &b).unwrap();
    assert_eq!(reg.add_dependency(1, owner, dep_project(2), &b), Err(ContractError::DuplicateDependency));
    assert_eq!(reg.get_dependencies(1).len(), 2);
    let key = DependencyRef { project_id: Some(2), external_cid: None, external_url: None };
    let mut updated = dep_project(2);
    updated.version = Some(b"2.0".to_vec());
    reg.update_dependency(1, owner, key, updated, &b).unwrap();
    assert_eq!(reg.get_dependencies(1)[0].version, Some(b"2.0".to_vec()));
    let key = DependencyRef { project_id: Some(2), external_cid: None, external_url: None };
    reg.remove_dependency(1, owner, key, &b).unwrap();
    let left = reg.get_dependencies(1);
    assert_eq!(left.len(), 1);
    assert_eq!(left[0].reference.external_url, Some(b"https://example.com".to_vec()));
    let key = DependencyRef { project_id: Some(2), external_cid: None, external_url: None };
    assert_eq!(reg.remove_dependency(1, owner, key, &b), Err(ContractError::DependencyNotFound));
}

#[test]
fn name_similarity_values() {
    let s = |a: &str, b: &str| ForkRegistry::name_similarity_bps(&a.as_bytes().to_vec(), &b.as_bytes().to_vec());
    assert_eq!(s("Dongle", "dongle"), 10_000);
    assert_eq!(s("kitten", "sitting"), 5_714);
    assert_eq!(s("abcd", "abce"), 7_500);
    assert_eq!(s("", "abc"), 0);
    assert_eq!(s("abc", "xyz"), 0);
    assert_eq!(s("sitting", "kitten"), s("kitten", "sitting"));
}

#[test]
fn fork_detection_and_links() {
    let (admins, _admin) = admins();
    let b = book_of(&[("Stellar Swap", 9), ("Stellar Swapp", 9), ("Unrelated", 7)]);
    let d = ForkRegistry::detect(2, 1, &b).ok().unwrap();
    assert_eq!(d.signals, vec![ForkSignal::SameOwner, ForkSignal::SimilarName]);
    assert_eq!(d.shared_team_members, vec![Addr::new(9)]);
    assert_eq!(d.confidence_bps, 10_000);
    assert!(matches!(ForkRegistry::detect(1, 1, &b), Err(ContractError::CannotLinkToSelf)));
    assert!(matches!(ForkRegistry::detect(1, 9, &b), Err(ContractError::ProjectNotFound)));
    let stats: HashMap<u64, ProjectStats> = HashMap::new();
    let verifications = VerificationBook { records: vec![] };
    let mut reg = ForkRegistry::new();
    assert_eq!(
        reg.link(2, 1, Addr::new(7), false, 10, &admins, &b, &stats, &verifications),
        Err(ContractError::Unauthorized)
    );
    assert_eq!(
        reg.link(3, 1, Addr::new(7), false, 10, &admins, &b, &stats, &verifications),
        Err(ContractError::InvalidInput)
    );
    reg.link(2, 1, Addr::new(9), true, 10, &admins, &b, &stats, &verifications).unwrap();
    assert_eq!(reg.get_parent(2), Some(1));
    let rel = reg.get_relationship(2).unwrap();
    assert_eq!(rel.linked_by, Addr::new(9));
    assert_eq!(rel.merged_data.as_ref().unwrap().review_stats.review_count, 0);
    assert_eq!(reg.list_children(1, 0, 10, &b), vec![2]);
    assert_eq!(
        reg.link(2, 1, Addr::new(9), false, 11, &admins, &b, &stats, &verifications),
        Err(ContractError::AlreadyLinked)
    );
    // Linking the parent under its own child would close a cycle.
    assert_eq!(
        reg.link(1, 2, Addr::new(9), false, 12, &admins, &b, &stats, &verifications),
        Err(ContractError::CircularDependency)
    );
}

#[test]
fn probation_runs_its_course() {
    let (admins, admin) = admins();
    let mut reg = ProbationRegistry::new();
    assert_eq!(reg.get_probation_duration(), 2_592_000);
    assert_eq!(reg.set_probation_duration(Addr::new(5), 100, &admins), Err(ContractError::AdminOnly));
    assert_eq!(reg.set_probation_duration(admin, 0, &admins), Err(ContractError::InvalidProjectData));
    reg.set_probation_duration(admin, 1_000, &admins).unwrap();
    let rec = reg.start_probation(1, 7, admin, 50);
    assert_eq!(rec.probation_until, 1_050);
    assert!(rec.enhanced_monitoring);
    assert!(reg.is_in_probation(1, 1_049));
    assert!(!reg.is_in_probation(1, 1_050));
    assert_eq!(reg.list_probationary_projects(0, 10, 60), vec![1]);
    assert_eq!(reg.record_probation_incident(Addr::new(3), 1, b"spam".to_vec(), 60), Ok(1));
    assert_eq!(reg.record_probation_incident(Addr::new(3), 1, b"more".to_vec(), 61), Ok(2));
    assert_eq!(reg.get_probation_incident_count(1), 2);
    assert_eq!(reg.record_probation_incident(Addr::new(3), 2, b"x".to_vec(), 61), Err(ContractError::InvalidStatus));
    assert_eq!(reg.check_and_promote_probation(1, 1_000), Ok(false));
    assert_eq!(reg.check_and_promote_probation(1, 1_050), Ok(true));
    assert_eq!(reg.check_and_promote_probation(1, 1_051), Ok(false));
    let done = reg.get_probation_record(1).unwrap();
    assert!(done.is_promoted);
    assert!(!done.enhanced_monitoring);
    assert_eq!(reg.list_probationary_projects(0, 10, 60).len(), 0);
}

#[test]
fn effective_status_shows_probation() {
    let (_admins, admin) = admins();
    let mut b = book_of(&[("Alpha", 9)]);
    b.set_verification_state_keep(1, VerificationStatus::Verified, 5);
    let mut reg = ProbationRegistry::new();
    assert_eq!(reg.get_effective_verification_status(1, 10, &b), Some(VerificationStatus::Verified));
    reg.start_probation(1, 1, admin, 10);
    assert_eq!(reg.get_effective_verification_status(1, 11, &b), Some(VerificationStatus::Probationary));
    assert_eq!(reg.get_effective_verification_status(2, 11, &b), None);
}
