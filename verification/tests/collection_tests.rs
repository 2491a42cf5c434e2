use dongle::admin_action_log::AdminActionLog;
use dongle::admin_manager::AdminManager;
use dongle::collection_registry::{bytes_to_hex, format_share_link, share_seed, CollectionRegistry};
use dongle::types::{Addr, ContractError, Project, ProjectBook, VerificationStatus};

fn project(id: u64) -> Project {
    Project {
        id,
        owner: Addr::new(100),
        name: format!("P{}", id).into_bytes(),
        slug: format!("p{}", id).into_bytes(),
        description: b"Description".to_vec(),
        category: b"DeFi".to_vec(),
        tags: None,
        repository_url: None,
        maintainers: vec![],
        linked_projects: vec![],
        verification_status: VerificationStatus::Unverified,
        current_verification_id: None,
        archived: false,
        created_at: 0,
        updated_at: 0,
    }
}

fn setup() -> (CollectionRegistry, AdminManager, Addr, AdminActionLog, ProjectBook) {
    let mut admins = AdminManager::new();
    let admin = Addr::new(1);
    admins.initialize(admin).unwrap();
    let mut b = ProjectBook::new();
    b.push_project(project(1));
    b.push_project(project(2));
    (CollectionRegistry::new(), admins, admin, AdminActionLog::new(), b)
}

#[test]
fn admin_collections_hold_projects() {
    let (mut reg, admins, admin, mut log, b) = setup();
    assert_eq!(
        reg.create_collection(Addr::new(5), b"Top".to_vec(), b"d".to_vec(), 1, &admins, &mut log),
        Err(ContractError::AdminOnly)
    );
    let id = reg.create_collection(admin, b"Top".to_vec(), b"Best projects".to_vec(), 1, &admins, &mut log).unwrap();
    assert_eq!(id, 1);
    assert_eq!(
        reg.create_collection(admin, b"Top".to_vec(), b"again".to_vec(), 1, &admins, &mut log),
        Err(ContractError::CollectionExists)
    );
    assert_eq!(reg.get_collection_count(), 1);
    reg.add_project_to_collection(admin, id, 1, 2, &admins, &b, &mut log).unwrap();
    reg.add_project_to_collection(admin, id, 2, 2, &admins, &b, &mut log).unwrap();
    assert_eq!(
        reg.add_project_to_collection(admin, id, 1, 2, &admins, &b, &mut log),
        Err(ContractError::AlreadyInCollection)
    );
    assert_eq!(
        reg.add_project_to_collection(admin, id, 9, 2, &admins, &b, &mut log),
        Err(ContractError::ProjectNotFound)
    );
    assert_eq!(
        reg.add_project_to_collection(admin, 7, 1, 2, &admins, &b, &mut log),
        Err(ContractError::CollectionNotFound)
    );
    assert_eq!(reg.list_collection_projects(id, 0, 10), vec![1, 2]);
    assert_eq!(reg.get_collection_project_count(id), 2);
    reg.remove_project_from_collection(admin, id, 1, 3, &admins, &mut log).unwrap();
    assert_eq!(reg.list_collection_projects(id, 0, 10), vec![2]);
    assert!(log.get_action_log_count() >= 4);
}

#[test]
fn private_collections_are_hidden_from_strangers() {
    let (mut reg, admins, _admin, mut log, _b) = setup();
    let owner = Addr::new(5);
    let id = reg.create_user_collection(owner, b"Mine".to_vec(), b"d".to_vec(), false, 1, &admins, &mut log).unwrap();
    let stranger = Addr::new(6);
    assert_eq!(reg.get_collection_for_caller(stranger, id, &admins).err(), Some(ContractError::CollectionPrivate));
    assert_eq!(reg.get_collection_for_caller(owner, id, &admins).unwrap().id, id);
    assert_eq!(reg.list_user_collections(owner, 0, 10).len(), 1);
    assert_eq!(reg.list_public_collections(0, 10).len(), 0);
    assert_eq!(reg.toggle_collection_visibility(owner, id, 2, &admins), Ok(true));
    assert_eq!(reg.get_collection_for_caller(stranger, id, &admins).unwrap().id, id);
    assert_eq!(reg.list_public_collections(0, 10).len(), 1);
    assert_eq!(
        reg.set_collection_visibility(stranger, id, false, 3, &admins).err(),
        Some(ContractError::NotCollectionOwner)
    );
}

#[test]
fn share_links_open_collections() {
    let (mut reg, admins, _admin, mut log, _b) = setup();
    let owner = Addr::new(5);
    let id = reg.create_user_collection(owner, b"Mine".to_vec(), b"d".to_vec(), false, 1, &admins, &mut log).unwrap();
    let digest: Vec<u8> = (0u8..40).collect();
    assert_eq!(
        reg.generate_collection_share_link(Addr::new(6), id, &digest, &admins),
        Err(ContractError::NotCollectionOwner)
    );
    let link = reg.generate_collection_share_link(owner, id, &digest, &admins).unwrap();
    let token = bytes_to_hex(&digest);
    assert_eq!(token.len(), 64);
    assert_eq!(&token[..6], b"000102");
    let expected = format!("https://dongle.hub/c/{}?key={}", id, String::from_utf8(token.clone()).unwrap());
    assert_eq!(link, expected.into_bytes());
    assert_eq!(reg.get_collection_by_share_token(id, &token).unwrap().id, id);
    assert_eq!(reg.get_collection_by_share_token(id, &link).unwrap().id, id);
    assert_eq!(
        reg.get_collection_by_share_token(id, &b"nope".to_vec()).err(),
        Some(ContractError::InvalidShareToken)
    );
    reg.revoke_collection_share_link(owner, id, &admins).unwrap();
    assert_eq!(reg.get_collection_by_share_token(id, &token).err(), Some(ContractError::ShareTokenNotFound));
}

#[test]
fn share_helpers_exact_values() {
    assert_eq!(bytes_to_hex(&vec![0xab, 0x01, 0xff]), b"ab01ff".to_vec());
    assert_eq!(format_share_link(42, &b"cafe".to_vec()), b"https://dongle.hub/c/42?key=cafe".to_vec());
    assert_eq!(format_share_link(0, &Vec::new()), b"https://dongle.hub/c/0?key=".to_vec());
    assert_eq!(
        share_seed(1, 2, 3),
        vec![0, 0, 0, 0, 0, 0, 0, 1, 0, 0, 0, 0, 0, 0, 0, 2, 0, 0, 0, 3]
    );
}
