use dongle::bookmark_registry::{BookmarkRegistry, SmartFolderFilter, VerificationStatusFilter};
use dongle::types::{Addr, ContractError, Project, ProjectBook, VerificationStatus};

fn project(id: u64, category: &str, tags: Option<Vec<&str>>, status: VerificationStatus) -> Project {
    Project {
        id,
        owner: Addr::new(100),
        name: format!("P{}", id).into_bytes(),
        slug: format!("p{}", id).into_bytes(),
        description: b"Description".to_vec(),
        category: category.as_bytes().to_vec(),
        tags: tags.map(|t| t.iter().map(|s| s.as_bytes().to_vec()).collect()),
        repository_url: None,
        maintainers: vec![],
        linked_projects: vec![],
        verification_status: status,
        current_verification_id: None,
        archived: false,
        created_at: 0,
        updated_at: 0,
    }
}

fn book() -> ProjectBook {
    let mut b = ProjectBook::new();
    b.push_project(project(1, "DeFi", Some(vec!["dex"]), VerificationStatus::Verified));
    b.push_project(project(2, "NFT", None, VerificationStatus::Unverified));
    b.push_project(project(3, "DeFi", Some(vec!["lending", "dex"]), VerificationStatus::Unverified));
    b
}

#[test]
fn bookmarks_add_and_remove() {
    let b = book();
    let mut reg = BookmarkRegistry::new();
    let user = Addr::new(5);
    assert_eq!(reg.bookmark_project(9, user, &b), Err(ContractError::ProjectNotFound));
    reg.bookmark_project(1, user, &b).unwrap();
    reg.bookmark_project(2, user, &b).unwrap();
    assert_eq!(reg.bookmark_project(1, user, &b), Err(ContractError::AlreadyBookmarked));
    assert!(reg.is_bookmarked(1, user));
    assert!(!reg.is_bookmarked(1, Addr::new(6)));
    assert_eq!(reg.get_user_bookmarks(user, 0, 10), vec![1, 2]);
    assert_eq!(reg.get_user_bookmarks(user, 1, 10), vec![2]);
    reg.unbookmark_project(1, user, &b).unwrap();
    assert_eq!(reg.unbookmark_project(1, user, &b), Err(ContractError::NotBookmarked));
    assert_eq!(reg.get_user_bookmarks(user, 0, 10), vec![2]);
}

#[test]
fn folders_nest_to_a_bounded_depth() {
    let mut reg = BookmarkRegistry::new();
    let user = Addr::new(5);
    assert_eq!(reg.create_folder(user, Vec::new(), None, 1), Err(ContractError::InvalidProjectData));
    assert_eq!(reg.create_folder(user, vec![b'n'; 65], None, 1), Err(ContractError::InvalidProjectName));
    assert_eq!(reg.create_folder(user, b"x".to_vec(), Some(4), 1), Err(ContractError::FolderNotFound));
    let mut parent = None;
    let mut ids = vec![];
    for level in 0..5 {
        let id = reg.create_folder(user, format!("L{}", level).into_bytes(), parent, 1).unwrap();
        ids.push(id);
        parent = Some(id);
    }
    assert_eq!(ids, vec![1, 2, 3, 4, 5]);
    assert_eq!(reg.create_folder(user, b"too deep".to_vec(), parent, 1), Err(ContractError::FolderDepthExceeded));
    assert_eq!(reg.list_folders(user).len(), 5);
    let children = reg.list_child_folders(user, 1);
    assert_eq!(children.len(), 1);
    assert_eq!(children[0].id, 2);
    reg.rename_folder(user, 2, b"Renamed".to_vec(), 9).unwrap();
    let f = reg.get_folder(user, 2).unwrap();
    assert_eq!(f.name, b"Renamed".to_vec());
    assert_eq!(f.updated_at, 9);
}

#[test]
fn moving_bookmarks_between_folders() {
    let b = book();
    let mut reg = BookmarkRegistry::new();
    let user = Addr::new(5);
    let f1 = reg.create_folder(user, b"One".to_vec(), None, 1).unwrap();
    let f2 = reg.create_folder(user, b"Two".to_vec(), None, 1).unwrap();
    assert_eq!(reg.move_bookmark_to_folder(user, 1, f1), Err(ContractError::NotBookmarked));
    reg.bookmark_project(1, user, &b).unwrap();
    assert_eq!(reg.move_bookmark_to_folder(user, 1, 77), Err(ContractError::FolderNotFound));
    reg.move_bookmark_to_folder(user, 1, f1).unwrap();
    assert_eq!(reg.get_bookmark_folder(1, user), Some(f1));
    assert_eq!(reg.get_folder_bookmarks(user, f1, 0, 10), vec![1]);
    reg.move_bookmark_to_folder(user, 1, f2).unwrap();
    assert_eq!(reg.get_bookmark_folder(1, user), Some(f2));
    assert_eq!(reg.get_folder_bookmarks(user, f1, 0, 10).len(), 0);
    assert_eq!(reg.get_folder_bookmarks(user, f2, 0, 10), vec![1]);
    reg.remove_bookmark_from_folder(user, 1).unwrap();
    assert_eq!(reg.get_bookmark_folder(1, user), None);
    assert!(reg.is_bookmarked(1, user));
    reg.move_bookmark_to_folder(user, 1, f2).unwrap();
    reg.delete_folder(user, f2).unwrap();
    assert_eq!(reg.get_bookmark_folder(1, user), None);
    assert!(reg.is_bookmarked(1, user));
    assert_eq!(reg.get_user_bookmarks(user, 0, 10), vec![1]);
    assert!(reg.get_folder(user, f2).is_none());
    assert_eq!(reg.delete_folder(user, f2), Err(ContractError::FolderNotFound));
}

#[test]
fn smart_folders_select_by_filter() {
    let b = book();
    let mut reg = BookmarkRegistry::new();
    let user = Addr::new(5);
    for pid in 1..=3 {
        reg.bookmark_project(pid, user, &b).unwrap();
    }
    let defi = SmartFolderFilter {
        category: Some(b"DeFi".to_vec()),
        tag: None,
        verification_status: VerificationStatusFilter::Any,
    };
    let sid = reg.create_smart_folder(user, b"DeFi".to_vec(), defi, 1).unwrap();
    assert_eq!(reg.get_smart_folder_bookmarks(user, sid, 0, 10, &b), Ok(vec![1, 3]));
    let dex_verified = SmartFolderFilter {
        category: None,
        tag: Some(b"dex".to_vec()),
        verification_status: VerificationStatusFilter::Is(VerificationStatus::Verified),
    };
    assert!(BookmarkRegistry::project_matches_filter(1, &dex_verified, &b));
    assert!(!BookmarkRegistry::project_matches_filter(3, &dex_verified, &b));
    assert!(!BookmarkRegistry::project_matches_filter(2, &dex_verified, &b));
    let everything = SmartFolderFilter { category: None, tag: None, verification_status: VerificationStatusFilter::Any };
    assert!(BookmarkRegistry::project_matches_filter(42, &everything, &b));
    let sid2 = reg.create_smart_folder(user, b"All".to_vec(), everything, 1).unwrap();
    assert_eq!(reg.list_smart_folders(user).len(), 2);
    assert_eq!(reg.get_smart_folder_bookmarks(user, sid2, 0, 10, &b), Ok(vec![1, 2, 3]));
    reg.delete_smart_folder(user, sid).unwrap();
    assert!(reg.get_smart_folder(user, sid).is_none());
    assert_eq!(reg.get_smart_folder_bookmarks(user, sid, 0, 10, &b), Err(ContractError::SmartFolderNotFound));
}

#[test]
fn a_full_folder_refuses_a_move_and_changes_nothing() {
    let mut b = ProjectBook::new();
    for id in 1..=201u64 {
        b.push_project(project(id, "DeFi", None, VerificationStatus::Unverified));
    }
    let mut reg = BookmarkRegistry::new();
    let user = Addr::new(5);
    let full = reg.create_folder(user, b"Full".to_vec(), None, 1).unwrap();
    let other = reg.create_folder(user, b"Other".to_vec(), None, 1).unwrap();
    for id in 1..=201u64 {
        reg.bookmark_project(id, user, &b).unwrap();
    }
    for id in 1..=200u64 {
        reg.move_bookmark_to_folder(user, id, full).unwrap();
    }
    reg.move_bookmark_to_folder(user, 201, other).unwrap();
    assert_eq!(reg.move_bookmark_to_folder(user, 201, full), Err(ContractError::CollectionFull));
    assert_eq!(reg.get_bookmark_folder(201, user), Some(other));
    assert_eq!(reg.get_folder_bookmarks(user, other, 0, 10), vec![201]);
    assert_eq!(reg.get_folder_bookmarks(user, full, 0, 100).len(), 100);
}
