use dongle::admin_manager::AdminManager;
use dongle::category_registry::CategoryRegistry;
use dongle::types::{Addr, ContractError, Project, ProjectBook, VerificationStatus};

fn project(id: u64, category: &str, archived: bool) -> Project {
    Project {
        id,
        owner: Addr::new(100),
        name: format!("P{}", id).into_bytes(),
        slug: format!("p{}", id).into_bytes(),
        description: b"Description".to_vec(),
        category: category.as_bytes().to_vec(),
        tags: None,
        repository_url: None,
        maintainers: vec![],
        linked_projects: vec![],
        verification_status: VerificationStatus::Unverified,
        current_verification_id: None,
        archived,
        created_at: 0,
        updated_at: 0,
    }
}

fn setup() -> (CategoryRegistry, AdminManager, Addr, ProjectBook) {
    let mut admins = AdminManager::new();
    let admin = Addr::new(1);
    admins.initialize(admin).unwrap();
    let mut b = ProjectBook::new();
    b.push_project(project(1, "DeFi", false));
    b.push_project(project(2, "DeFi", true));
    b.push_project(project(3, "NFT", false));
    (CategoryRegistry::new(), admins, admin, b)
}

#[test]
fn categories_are_created_with_counts() {
    let (mut reg, admins, admin, b) = setup();
    assert_eq!(
        reg.create_category(Addr::new(7), b"DeFi".to_vec(), Vec::new(), None, 1, &admins, &b).err(),
        Some(ContractError::AdminOnly)
    );
    assert_eq!(
        reg.create_category(admin, b"   ".to_vec(), Vec::new(), None, 1, &admins, &b).err(),
        Some(ContractError::InvalidProjectCategory)
    );
    assert_eq!(
        reg.create_category(admin, vec![b'c'; 65], Vec::new(), None, 1, &admins, &b).err(),
        Some(ContractError::ProjectCategoryTooLong)
    );
    let defi = reg.create_category(admin, b"DeFi".to_vec(), b"Finance".to_vec(), None, 1, &admins, &b).unwrap().id;
    assert_eq!(defi, 1);
    assert_eq!(
        reg.create_category(admin, b"defi".to_vec(), Vec::new(), None, 1, &admins, &b).err(),
        Some(ContractError::ProjectCategoryAlreadyExists)
    );
    let stats = reg.get_stats(defi).unwrap();
    assert_eq!(stats.direct_project_count, 2);
    assert_eq!(stats.direct_active_project_count, 1);
    assert_eq!(reg.get_category_by_name(&b"DEFI".to_vec()).unwrap().id, defi);
    assert_eq!(
        reg.create_category(admin, b"Lending".to_vec(), Vec::new(), Some(9), 2, &admins, &b).err(),
        Some(ContractError::ProjectCategoryNotFound)
    );
    let lending = reg.create_category(admin, b"Lending".to_vec(), Vec::new(), Some(defi), 2, &admins, &b).unwrap().id;
    let kids = reg.list_children(defi);
    assert_eq!(kids.len(), 1);
    assert_eq!(kids[0].id, lending);
    assert_eq!(reg.get_category(lending).unwrap().parent_id, Some(defi));
    assert_eq!(reg.list_categories(0, 10).len(), 2);
}

#[test]
fn inactive_categories_refuse_projects() {
    let (mut reg, admins, admin, mut b) = setup();
    let nft = reg.create_category(admin, b"NFT".to_vec(), Vec::new(), None, 1, &admins, &b).unwrap().id;
    assert_eq!(reg.validate_project_category(&b"nft".to_vec()), Ok(()));
    assert_eq!(reg.validate_project_category(&b"Unknown".to_vec()), Ok(()));
    // A category that still holds projects cannot be deactivated.
    assert_eq!(
        reg.update_category(admin, nft, b"NFT".to_vec(), Vec::new(), None, false, 5, &admins, &mut b).err(),
        Some(ContractError::ProjectCategoryHasProjects)
    );
    let gaming = reg.create_category(admin, b"Gaming".to_vec(), Vec::new(), None, 1, &admins, &b).unwrap().id;
    reg.update_category(admin, gaming, b"Gaming".to_vec(), Vec::new(), None, false, 5, &admins, &mut b).unwrap();
    assert!(!reg.get_category(gaming).unwrap().active);
    assert_eq!(reg.validate_project_category(&b"gaming".to_vec()), Err(ContractError::ProjectCategoryInactive));
    assert_eq!(
        reg.update_category(admin, 42, b"X".to_vec(), Vec::new(), None, true, 5, &admins, &mut b).err(),
        Some(ContractError::ProjectCategoryNotFound)
    );
}

#[test]
fn deleting_a_category_migrates_its_projects() {
    let (mut reg, admins, admin, mut b) = setup();
    let defi = reg.create_category(admin, b"DeFi".to_vec(), Vec::new(), None, 1, &admins, &b).unwrap().id;
    let finance = reg.create_category(admin, b"Finance".to_vec(), Vec::new(), None, 1, &admins, &b).unwrap().id;
    assert_eq!(
        reg.delete_category(admin, defi, None, 2, &admins, &mut b),
        Err(ContractError::ProjectCategoryHasProjects)
    );
    assert_eq!(
        reg.delete_category(admin, defi, Some(defi), 2, &admins, &mut b),
        Err(ContractError::ProjectCategoryHierarchyInvalid)
    );
    let res = reg.delete_category(admin, defi, Some(finance), 2, &admins, &mut b).unwrap();
    assert_eq!(res.deleted_category_id, defi);
    assert_eq!(res.migrated_project_count, 2);
    assert_eq!(res.migration_target_id, Some(finance));
    assert_eq!(b.get_project(1).unwrap().category, b"Finance".to_vec());
    assert_eq!(b.get_project(2).unwrap().category, b"Finance".to_vec());
    assert_eq!(b.get_project(3).unwrap().category, b"NFT".to_vec());
    assert!(reg.get_category(defi).is_none());
}

#[test]
fn empty_stats_are_zero() {
    let s = CategoryRegistry::empty_stats();
    assert_eq!(s.direct_project_count, 0);
    assert_eq!(s.direct_active_project_count, 0);
    assert_eq!(s.direct_child_count, 0);
    assert_eq!(s.descendant_project_count, 0);
    assert_eq!(s.hierarchy_active_project_count, 0);
}

#[test]
fn renaming_moves_the_name() {
    let (mut reg, admins, admin, mut b) = setup();
    let defi = reg.create_category(admin, b"DeFi".to_vec(), Vec::new(), None, 1, &admins, &b).unwrap().id;
    let nft = reg.create_category(admin, b"NFT".to_vec(), Vec::new(), None, 1, &admins, &b).unwrap().id;
    assert_eq!(
        reg.update_category(admin, nft, b"defi".to_vec(), Vec::new(), None, true, 2, &admins, &mut b).err(),
        Some(ContractError::ProjectCategoryAlreadyExists)
    );
    let updated = reg
        .update_category(admin, defi, b"Finance".to_vec(), b"Money".to_vec(), None, true, 3, &admins, &mut b)
        .unwrap();
    assert_eq!(updated.id, defi);
    assert_eq!(updated.name, b"Finance".to_vec());
    assert_eq!(updated.description, b"Money".to_vec());
    assert_eq!(updated.updated_at, 3);
    assert!(reg.get_category_by_name(&b"DeFi".to_vec()).is_none());
    assert_eq!(reg.get_category_by_name(&b"finance".to_vec()).unwrap().id, defi);
    assert_eq!(b.get_project(1).unwrap().category, b"Finance".to_vec());
}

#[test]
fn deleting_into_the_parent_keeps_the_children() {
    let (mut reg, admins, admin, mut b) = setup();
    let root = reg.create_category(admin, b"Root".to_vec(), Vec::new(), None, 1, &admins, &b).unwrap().id;
    let mid = reg.create_category(admin, b"Mid".to_vec(), Vec::new(), Some(root), 1, &admins, &b).unwrap().id;
    let leaf = reg.create_category(admin, b"Leaf".to_vec(), Vec::new(), Some(mid), 1, &admins, &b).unwrap().id;
    let res = reg.delete_category(admin, mid, Some(root), 2, &admins, &mut b).unwrap();
    assert_eq!(res.reparented_child_count, 1);
    assert_eq!(reg.get_category(leaf).unwrap().parent_id, Some(root));
    let kids: Vec<u64> = reg.list_children(root).iter().map(|c| c.id).collect();
    assert_eq!(kids, vec![leaf]);
    assert!(reg.get_category_by_name(&b"Mid".to_vec()).is_none());
}

#[test]
fn create_returns_the_category() {
    let (mut reg, admins, admin, b) = setup();
    let c = reg.create_category(admin, b"DeFi".to_vec(), b"Finance".to_vec(), None, 7, &admins, &b).unwrap();
    assert_eq!(c.id, 1);
    assert_eq!(c.name, b"DeFi".to_vec());
    assert_eq!(c.description, b"Finance".to_vec());
    assert!(c.active);
    assert_eq!(c.created_at, 7);
    assert_eq!(c.parent_id, None);
}
