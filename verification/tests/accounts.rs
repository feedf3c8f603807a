use deconet::account;
use deconet::recovery;
use deconet::registration;
use deconet::session::Session;
use deconet::verification;

#[test]
fn account_login_checks_both_fields() {
    let user = account::User::new("admin", "password", "admin@example.com", true);
    assert!(user.login("admin", "password"));
    assert!(!user.login("admin", "wrong"));
    assert!(!user.login("other", "password"));
    assert!(user.is_admin());
    assert_eq!(user.get_email(), "admin@example.com");
    assert!(user.is_password_expired());
}

#[test]
fn account_password_changes_take_effect() {
    let mut user = account::User::new("admin", "password", "admin@example.com", false);
    user.change_password("fresh");
    assert!(!user.login("admin", "password"));
    assert!(user.login("admin", "fresh"));
    user.reset_password();
    assert!(user.login("admin", "new_password"));
}

#[test]
fn account_store_operations() {
    let mut users = Vec::new();
    users.push(account::User::add_user("a", "pw-a", "a@example.com", false));
    users.push(account::User::add_user("b", "pw-b", "b@example.com", true));
    assert!(account::User::get_user(&users, "a").is_some());
    account::User::update_user(&mut users, "a", "new@example.com", true);
    let updated = account::User::get_user(&users, "a").unwrap();
    assert_eq!(updated.get_email(), "new@example.com");
    assert!(updated.is_admin());
    account::User::delete_user(&mut users, "a");
    assert!(account::User::get_user(&users, "a").is_none());
    assert_eq!(users.len(), 1);
}

#[test]
fn registration_enforces_password_length() {
    let user = registration::User::new("user123", "user@example.com", "password123");
    assert!(user.is_password_valid());
    assert!(user.register().is_ok());

    let weak = registration::User::new("user123", "user@example.com", "short");
    assert!(!weak.is_password_valid());
    assert_eq!(weak.register().unwrap_err(), "Password is too short");
}

#[test]
fn registration_email_checks() {
    let mut user = registration::User::new("user123", "user@example.com", "password123");
    assert!(user.is_email_valid());
    user.set_email("nowhere");
    assert!(!user.is_email_valid());
    user.set_email_with_confirmation("back@example.com");
    assert_eq!(user.get_email(), "back@example.com");
    user.update_username("renamed");
    assert_eq!(user.get_username(), "renamed");
    user.update_password("longenough");
    assert!(user.is_password_valid());
}

#[test]
fn registration_lookup_builds_a_record() {
    let user = registration::User::find_user_by_username("someone").unwrap();
    assert_eq!(user.get_username(), "someone");
    assert_eq!(user.get_email(), "user@example.com");
}

#[test]
fn recovery_requires_a_long_token() {
    let mut user = recovery::User::new("user123", "user@example.com", "password123");
    assert_eq!(user.get_username(), "user123");
    assert!(user.validate_reset_token("valid_reset_token"));
    assert!(!user.validate_reset_token("short"));
    assert!(user.reset_password_with_token("valid_reset_token", "new_password123").is_ok());
    assert_eq!(
        user.reset_password_with_token("short", "x").unwrap_err(),
        "Invalid reset token"
    );
}

#[test]
fn verification_marks_the_account() {
    let mut user = verification::User::new("user123", "user@example.com", "password123");
    assert!(!user.is_verified());
    assert!(user.verify_account("valid_verification_token").is_ok());
    assert!(user.is_verified());
    user.set_verified(false);
    assert!(!user.is_verified());
}

#[test]
fn session_lifecycle() {
    let mut session = Session::new();
    assert!(!session.is_logged_in());
    session.login();
    assert!(session.is_logged_in());
    session.logout();
    assert!(!session.is_logged_in());
    assert!(session.get_user_id().is_none());
}

#[test]
fn session_logins_record_ids() {
    let mut session = Session::new();
    session.login_with_id(42);
    assert_eq!(session.get_user_id(), Some(42));
    session.login_with_fingerprint("print");
    assert_eq!(session.get_user_id(), Some(2));
    session.login_with_token("tok");
    assert_eq!(session.get_user_id(), Some(3));
    session.login_with_smart_card("card");
    assert_eq!(session.get_user_id(), Some(4));
    session.set_user_id(7);
    assert_eq!(session.get_user_id(), Some(7));
    assert!(!session.is_admin());
}

#[test]
fn session_password_login() {
    let mut session = Session::new();
    assert!(session.login_with_username_password("admin", "password").is_ok());
    assert!(session.is_logged_in());
    assert!(session.is_admin());
    let mut other = Session::new();
    assert!(other.login_with_username_password("admin", "nope").is_err());
    assert!(!other.is_logged_in());
}
