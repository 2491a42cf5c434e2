use dongle::admin_manager::AdminManager;
use dongle::admin_session::{AdminSessionManager, SessionAction, DEFAULT_SESSION_TIMEOUT_SECS};
use dongle::admin_action_log::AdminActionLog;
use dongle::types::{Addr, ContractError};

#[test]
fn test_create_session() {
    let mut m = AdminSessionManager::new();
    let admin = Addr::new(7);
    let session_id = m.create_session(admin, None, None, 1_000).unwrap();
    let session = m.get_session(session_id).unwrap();
    assert!(session.is_active);
    assert_eq!(session.admin, admin);
}

#[test]
fn test_validate_session() {
    let mut m = AdminSessionManager::new();
    let admin = Addr::new(7);
    let session_id = m.create_session(admin, Some(3600), None, 1_000).unwrap();
    assert!(m.validate_session(admin, session_id, 1_000).is_ok());
}

#[test]
fn test_revoke_session() {
    let mut m = AdminSessionManager::new();
    let admin = Addr::new(7);
    let session_id = m.create_session(admin, None, None, 1_000).unwrap();
    m.revoke_session(admin, session_id, 1_010).unwrap();
    let session = m.get_session(session_id).unwrap();
    assert!(!session.is_active);
}

#[test]
fn session_defaults_and_expiry() {
    let mut m = AdminSessionManager::new();
    let admin = Addr::new(1);
    let id = m.create_session(admin, None, None, 100).unwrap();
    let s = m.get_session(id).unwrap();
    assert_eq!(s.expires_at, 100 + DEFAULT_SESSION_TIMEOUT_SECS);
    assert_eq!(s.description, b"Admin session".to_vec());
    // Past expiry: refused and marked expired.
    assert_eq!(m.validate_session(admin, id, 100 + DEFAULT_SESSION_TIMEOUT_SECS + 1), Err(ContractError::Unauthorized));
    assert!(!m.get_session(id).unwrap().is_active);
    let h = m.get_session_history(admin);
    assert_eq!(h.len(), 2);
    assert_eq!(h[0].action, SessionAction::Created);
    assert_eq!(h[1].action, SessionAction::Expired);
}

#[test]
fn session_timeout_too_long_is_refused() {
    let mut m = AdminSessionManager::new();
    assert_eq!(m.create_session(Addr::new(1), Some(7 * 24 * 3600 + 1), None, 0), Err(ContractError::InvalidProjectData));
    assert!(m.get_session(1).is_none());
}

#[test]
fn idle_session_is_invalidated() {
    let mut m = AdminSessionManager::new();
    let admin = Addr::new(2);
    let id = m.create_session(admin, None, Some(b"CLI".to_vec()), 0).unwrap();
    assert_eq!(m.get_session(id).unwrap().description, b"CLI".to_vec());
    assert_eq!(m.validate_session(admin, id, 3_601), Err(ContractError::Unauthorized));
    let h = m.get_session_history(admin);
    assert_eq!(h.last().unwrap().action, SessionAction::Invalidated);
    // Wrong administrator is refused without change.
    assert_eq!(m.revoke_session(Addr::new(3), id, 5), Err(ContractError::Unauthorized));
}

#[test]
fn refresh_updates_activity() {
    let mut m = AdminSessionManager::new();
    let admin = Addr::new(2);
    let id = m.create_session(admin, None, None, 0).unwrap();
    m.refresh_session(id, 3_000).unwrap();
    assert_eq!(m.get_session(id).unwrap().last_activity_at, 3_000);
    assert!(m.validate_session(admin, id, 6_000).is_ok());
    assert_eq!(m.refresh_session(99, 1), Err(ContractError::Unauthorized));
}

#[test]
fn cleanup_marks_expired_sessions() {
    let mut admins = AdminManager::new();
    let a = Addr::new(1);
    admins.initialize(a).unwrap();
    let mut m = AdminSessionManager::new();
    let id = m.create_session(a, Some(10), None, 0).unwrap();
    assert_eq!(m.get_all_active_sessions(5, &admins).len(), 1);
    assert_eq!(m.cleanup_expired_sessions(10, 100, &admins), Ok(1));
    assert!(!m.get_session(id).unwrap().is_active);
    assert_eq!(m.get_all_active_sessions(100, &admins).len(), 0);
    assert_eq!(m.cleanup_expired_sessions(10, 200, &admins), Ok(0));
    let _ = AdminActionLog::new();
}

#[test]
fn history_is_paginated() {
    let mut m = AdminSessionManager::new();
    let admin = Addr::new(4);
    let id = m.create_session(admin, None, None, 0).unwrap();
    m.refresh_session(id, 1).unwrap();
    m.refresh_session(id, 2).unwrap();
    let page = m.get_session_history_paginated(admin, 1, 5);
    assert_eq!(page.len(), 2);
    assert_eq!(page[0].action, SessionAction::Refreshed);
    assert_eq!(m.get_session_history_paginated(admin, 5, 5).len(), 0);
}

#[test]
fn sessions_get_distinct_ids_and_are_kept() {
    let mut m = AdminSessionManager::new();
    let a = Addr::new(1);
    let b = Addr::new(2);
    let id1 = m.create_session(a, None, None, 10).unwrap();
    let id2 = m.create_session(b, None, None, 11).unwrap();
    assert_eq!(id1, 1);
    assert_eq!(id2, 2);
    assert_eq!(m.get_session(id1).unwrap().admin, a);
    assert_eq!(m.get_session(id2).unwrap().admin, b);
    assert!(m.get_session(id1).unwrap().is_active);
}
