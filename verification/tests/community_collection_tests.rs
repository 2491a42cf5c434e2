use dongle::admin_action_log::AdminActionLog;
use dongle::admin_manager::AdminManager;
use dongle::community_collection_registry::{
    CommunityColInclusionStatus, CommunityCollectionRegistry, CommunityCollectionTemplateId,
};
use dongle::types::{Addr, ContractError, Project, ProjectBook, VerificationStatus};

fn project(id: u64, owner: Addr) -> Project {
    Project {
        id,
        owner,
        name: format!("Project {}", id).into_bytes(),
        slug: format!("project-{}", id).into_bytes(),
        description: b"Description".to_vec(),
        category: b"DeFi".to_vec(),
        tags: None,
        repository_url: None,
        maintainers: vec![],
        linked_projects: vec![],
        verification_status: VerificationStatus::Unverified,
        current_verification_id: None,
        archived: false,
        created_at: 0,
        updated_at: 0,
    }
}

fn book(n: u64) -> ProjectBook {
    let mut b = ProjectBook::new();
    for i in 1..=n {
        b.push_project(project(i, Addr::new(500)));
    }
    b
}

fn admins() -> (AdminManager, Addr) {
    let mut m = AdminManager::new();
    let admin = Addr::new(1);
    m.initialize(admin).unwrap();
    (m, admin)
}

fn create_simple(reg: &mut CommunityCollectionRegistry, creator: Addr, name: &str, curators: Vec<Addr>) -> u64 {
    reg.create(
        creator,
        name.as_bytes().to_vec(),
        b"A community list".to_vec(),
        None,
        Some(2),
        Some(2),
        None,
        Some(curators),
        100,
    )
    .unwrap()
}

#[test]
fn create_assigns_ids_and_defaults() {
    let mut reg = CommunityCollectionRegistry::new();
    let creator = Addr::new(2);
    let id = reg
        .create(creator, b"Best DeFi".to_vec(), b"desc".to_vec(), None, None, None, None, None, 100)
        .unwrap();
    assert_eq!(id, 1);
    let c = reg.get(id).unwrap();
    assert_eq!(c.creator, creator);
    assert_eq!(c.approval_threshold, 3);
    assert_eq!(c.disapproval_threshold, 3);
    assert_eq!(c.creator_revenue_share_bps, 6_000);
    assert!(!c.is_template);
    assert_eq!(reg.get_count(), 1);
    let id2 = create_simple(&mut reg, creator, "Second", vec![]);
    assert_eq!(id2, 2);
    assert_eq!(reg.list_by_creator(creator, 0, 10).len(), 2);
}

#[test]
fn create_errors() {
    let mut reg = CommunityCollectionRegistry::new();
    let creator = Addr::new(2);
    assert_eq!(
        reg.create(creator, Vec::new(), b"d".to_vec(), None, None, None, None, None, 1),
        Err(ContractError::CommunityColInvalidMetadata)
    );
    assert_eq!(
        reg.create(creator, b"n".to_vec(), b"d".to_vec(), None, Some(0), Some(2), None, None, 1),
        Err(ContractError::CommunityColThresholdInvalid)
    );
    assert_eq!(
        reg.create(creator, b"n".to_vec(), b"d".to_vec(), None, None, None, Some(500), None, 1),
        Err(ContractError::CommunityColRevenueShareInvalid)
    );
    create_simple(&mut reg, creator, "Same Name", vec![]);
    assert_eq!(
        reg.create(creator, b"same name".to_vec(), b"d".to_vec(), None, None, None, None, None, 1),
        Err(ContractError::CommunityColNameExists)
    );
    assert_eq!(reg.get_count(), 1);
}

#[test]
fn validators_follow_bounds() {
    assert_eq!(CommunityCollectionRegistry::validate_thresholds(0, 0), Ok(()));
    assert_eq!(
        CommunityCollectionRegistry::validate_thresholds(0, 1),
        Err(ContractError::CommunityColThresholdInvalid)
    );
    assert_eq!(CommunityCollectionRegistry::validate_revenue_share(9_000, 3), Ok(()));
    assert_eq!(CommunityCollectionRegistry::validate_revenue_share(1_000, 0), Ok(()));
    assert_eq!(
        CommunityCollectionRegistry::validate_revenue_share(9_001, 0),
        Err(ContractError::CommunityColRevenueShareInvalid)
    );
    assert_eq!(
        CommunityCollectionRegistry::validate_revenue_share(999, 0),
        Err(ContractError::CommunityColRevenueShareInvalid)
    );
}

#[test]
fn votes_include_and_exclude_projects() {
    let mut reg = CommunityCollectionRegistry::new();
    let projects = book(3);
    let creator = Addr::new(2);
    let id = create_simple(&mut reg, creator, "Voted", vec![]);
    assert_eq!(reg.get_inclusion_status(id, 1), CommunityColInclusionStatus::Excluded);
    reg.cast_vote(id, Addr::new(10), 1, true, 5, &projects).unwrap();
    assert_eq!(reg.get_project_count(id), 0);
    assert_eq!(reg.get_inclusion_status(id, 1), CommunityColInclusionStatus::Pending);
    assert_eq!(
        reg.cast_vote(id, Addr::new(10), 1, true, 6, &projects),
        Err(ContractError::CommunityColVoteAlreadyCast)
    );
    reg.cast_vote(id, Addr::new(11), 1, true, 7, &projects).unwrap();
    assert_eq!(reg.list_projects(id, 0, 10), vec![1]);
    assert_eq!(reg.get_inclusion_status(id, 1), CommunityColInclusionStatus::Included);
    assert!(reg.get_vote(id, 1, Addr::new(11)).unwrap().approve);
    reg.cast_vote(id, Addr::new(12), 1, false, 8, &projects).unwrap();
    reg.cast_vote(id, Addr::new(13), 1, false, 9, &projects).unwrap();
    assert_eq!(reg.get_project_count(id), 0);
    assert_eq!(
        reg.cast_vote(id, Addr::new(14), 9, true, 10, &projects),
        Err(ContractError::ProjectNotFound)
    );
    assert_eq!(
        reg.cast_vote(99, Addr::new(14), 1, true, 10, &projects),
        Err(ContractError::CommunityColNotFound)
    );
}

#[test]
fn curators_manage_projects_directly() {
    let mut reg = CommunityCollectionRegistry::new();
    let projects = book(2);
    let creator = Addr::new(2);
    let curator = Addr::new(3);
    let id = create_simple(&mut reg, creator, "Curated", vec![curator]);
    assert_eq!(
        reg.curator_add_project(id, Addr::new(4), 1, &projects),
        Err(ContractError::CommunityColNotCurator)
    );
    reg.curator_add_project(id, curator, 1, &projects).unwrap();
    assert_eq!(reg.list_projects(id, 0, 10), vec![1]);
    assert_eq!(reg.list_by_curator(curator, 0, 10).len(), 1);
    reg.curator_remove_project(id, creator, 1).unwrap();
    assert_eq!(reg.get_project_count(id), 0);
    assert_eq!(reg.get_inclusion_status(id, 1), CommunityColInclusionStatus::Excluded);
    reg.add_curator(id, creator, Addr::new(4), 200).unwrap();
    assert_eq!(reg.get(id).unwrap().curators.len(), 2);
    reg.remove_curator(id, creator, curator, 201).unwrap();
    assert_eq!(reg.get(id).unwrap().curators, vec![Addr::new(4)]);
}

#[test]
fn revenue_is_split_by_creator_share() {
    let mut reg = CommunityCollectionRegistry::new();
    let creator = Addr::new(2);
    let id = reg
        .create(creator, b"Rev".to_vec(), b"d".to_vec(), None, None, None, Some(6_000), Some(vec![Addr::new(3)]), 1)
        .unwrap();
    let snap = reg.attribute_revenue(creator, id, 1_000, 50).unwrap();
    assert_eq!(snap.creator_cumulative_attributed, 600);
    assert_eq!(snap.curators_cumulative_attributed, 400);
    assert_eq!(snap.total_cumulative_attributed, 1_000);
    let snap2 = reg.attribute_revenue(creator, id, 333, 60).unwrap();
    assert_eq!(snap2.creator_cumulative_attributed, 600 + 199);
    assert_eq!(snap2.curators_cumulative_attributed, 400 + 134);
    assert_eq!(snap2.total_cumulative_attributed, 1_333);
    assert_eq!(reg.get_revenue_snapshot(id, 70).unwrap().total_cumulative_attributed, 1_333);
    assert_eq!(reg.attribute_revenue(creator, 42, 1, 1), Err(ContractError::CommunityColNotFound));
}

#[test]
fn templates_refuse_votes_and_revenue() {
    let mut reg = CommunityCollectionRegistry::new();
    let (admins, admin) = admins();
    let projects = book(2);
    assert_eq!(
        reg.create_template(Addr::new(9), CommunityCollectionTemplateId::Defi, None, None, None, 1, &admins, &projects),
        Err(ContractError::AdminOnly)
    );
    let tid = reg
        .create_template(admin, CommunityCollectionTemplateId::Defi, None, None, Some(vec![1, 1, 7, 2]), 1, &admins, &projects)
        .unwrap();
    let t = reg.get(tid).unwrap();
    assert!(t.is_template);
    assert_eq!(t.name, b"Stellar DeFi Darlings".to_vec());
    assert_eq!(reg.list_projects(tid, 0, 10), vec![1, 2]);
    assert_eq!(reg.cast_vote(tid, Addr::new(5), 1, true, 2, &projects), Err(ContractError::CommunityColIsTemplate));
    assert_eq!(reg.attribute_revenue(admin, tid, 10, 2), Err(ContractError::CommunityColIsTemplate));
    let copy = reg
        .create_from_template(Addr::new(5), tid, b"My DeFi".to_vec(), b"d".to_vec(), None, None, None, None, None, 3, &projects)
        .unwrap();
    assert!(!reg.get(copy).unwrap().is_template);
    assert_eq!(reg.get(copy).unwrap().description, reg.get(tid).unwrap().description);
    assert_eq!(reg.list_projects(copy, 0, 10), vec![1, 2]);
}

#[test]
fn featured_list_is_capped() {
    let mut reg = CommunityCollectionRegistry::new();
    let (admins, admin) = admins();
    let mut log = AdminActionLog::new();
    let creator = Addr::new(2);
    for i in 0..21 {
        let id = create_simple(&mut reg, creator, &format!("Col {}", i), vec![]);
        reg.set_featured(admin, id, true, 10, &admins, &mut log).unwrap();
    }
    assert_eq!(reg.get_featured_count(), 20);
    let page = reg.list_featured(0, 100);
    assert_eq!(page.len(), 20);
    assert_eq!(page[0].id, 2);
    // The collection dropped from the full list loses its featured flag.
    assert!(!reg.get(1).unwrap().is_featured);
    assert!(reg.get(2).unwrap().is_featured);
    assert!(reg.get(21).unwrap().is_featured);
    assert_eq!(
        reg.set_featured(creator, 1, true, 10, &admins, &mut log),
        Err(ContractError::AdminOnly)
    );
}

#[test]
fn require_not_template_tells_templates_apart() {
    let mut reg = CommunityCollectionRegistry::new();
    let (admins, admin) = admins();
    let projects = book(1);
    let tid = reg
        .create_template(admin, CommunityCollectionTemplateId::Nft, None, None, None, 1, &admins, &projects)
        .unwrap();
    let cid = create_simple(&mut reg, Addr::new(2), "Plain", vec![]);
    assert_eq!(
        CommunityCollectionRegistry::require_not_template(reg.get(tid).unwrap()),
        Err(ContractError::CommunityColIsTemplate)
    );
    assert_eq!(CommunityCollectionRegistry::require_not_template(reg.get(cid).unwrap()), Ok(()));
}
