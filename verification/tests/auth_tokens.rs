use deconet::auth::AuthManager;
use deconet::errors::CryptoError;

#[test]
fn register_authenticate_validate() {
    let mut manager = AuthManager::new();
    manager.register_user("alice", "hunter2").unwrap();
    let token = manager.authenticate_user("alice", "hunter2").unwrap();
    let identity = manager.validate_token(&token.value).unwrap();
    assert_eq!(identity.username, "alice");
    assert_eq!(identity.id, token.identity_id);
}

#[test]
fn wrong_password_is_rejected() {
    let mut manager = AuthManager::new();
    manager.register_user("alice", "hunter2").unwrap();
    let err = manager.authenticate_user("alice", "wrong").unwrap_err();
    assert_eq!(err, CryptoError::InvalidCredentials);
}

#[test]
fn unknown_user_gets_the_same_error() {
    let mut manager = AuthManager::new();
    manager.register_user("alice", "hunter2").unwrap();
    let err = manager.authenticate_user("bob", "hunter2").unwrap_err();
    assert_eq!(err, CryptoError::InvalidCredentials);
}

#[test]
fn duplicate_registration_is_refused() {
    let mut manager = AuthManager::new();
    manager.register_user("alice", "hunter2").unwrap();
    let err = manager.register_user("alice", "other").unwrap_err();
    assert_eq!(err, CryptoError::DuplicateUser);
}

#[test]
fn two_tokens_for_one_identity_differ() {
    let mut manager = AuthManager::new();
    manager.register_user("alice", "hunter2").unwrap();
    let t1 = manager.authenticate_user("alice", "hunter2").unwrap();
    let t2 = manager.authenticate_user("alice", "hunter2").unwrap();
    assert_ne!(t1.value, t2.value);
    assert_eq!(t1.identity_id, t2.identity_id);
}

#[test]
fn token_value_is_not_derived_from_the_username() {
    let mut manager = AuthManager::new();
    manager.register_user("alice", "hunter2").unwrap();
    let token = manager.authenticate_user("alice", "hunter2").unwrap();
    assert_eq!(token.value.len(), 64);
    assert!(!token.value.contains("alice"));
}

#[test]
fn revoked_token_no_longer_validates() {
    let mut manager = AuthManager::new();
    manager.register_user("alice", "hunter2").unwrap();
    let token = manager.authenticate_user("alice", "hunter2").unwrap();
    assert!(manager.validate_token(&token.value).is_some());
    manager.revoke_token(&token.value);
    assert!(manager.validate_token(&token.value).is_none());
    manager.revoke_token(&token.value);
    assert!(manager.validate_token(&token.value).is_none());
}

#[test]
fn unknown_token_does_not_validate() {
    let mut manager = AuthManager::new();
    manager.register_user("alice", "hunter2").unwrap();
    assert!(manager.validate_token("feedfacefeedface").is_none());
}

#[test]
fn issue_token_needs_a_registered_identity() {
    let mut manager = AuthManager::new();
    let err = manager.issue_token(1).unwrap_err();
    assert_eq!(err, CryptoError::UnknownIdentity);
}

#[test]
fn changed_password_replaces_the_old_one() {
    let mut manager = AuthManager::new();
    manager.register_user("alice", "hunter2").unwrap();
    let token = manager.authenticate_user("alice", "hunter2").unwrap();
    manager.change_password(token.identity_id, "hunter2", "correct horse").unwrap();
    assert!(manager.authenticate_user("alice", "hunter2").is_err());
    assert!(manager.authenticate_user("alice", "correct horse").is_ok());
}

#[test]
fn change_password_needs_the_old_password() {
    let mut manager = AuthManager::new();
    manager.register_user("alice", "hunter2").unwrap();
    let err = manager.change_password(1, "wrong", "new").unwrap_err();
    assert_eq!(err, CryptoError::InvalidCredentials);
    assert!(manager.authenticate_user("alice", "hunter2").is_ok());
}
