//! Tests of account signup and login.

use quiz_auth::error::{map_login_error, ModelError};
use quiz_auth::user::{BasicAuthUsers, Users};

#[test]
fn signup_and_login_scenario() {
    let mut users = Users::new();

    let alice = users.signup_with_basic_auth("alice", "pw1").unwrap();
    assert_eq!(alice.username, "alice");

    let duplicate = users.signup_with_basic_auth("alice", "pw2").unwrap_err();
    assert_eq!(
        duplicate,
        ModelError::DuplicateUsername("alice".to_string())
    );

    let logged_in = users.login_with_basic_auth("alice", "pw1").unwrap();
    assert_eq!(logged_in.id, alice.id);
    assert_eq!(logged_in.username, "alice");

    assert_eq!(
        users.login_with_basic_auth("alice", "wrong"),
        Err(ModelError::AuthenticationFailed)
    );

    assert_eq!(
        users.login_with_basic_auth("bob", "x"),
        Err(ModelError::UserDoesNotExist("bob".to_string()))
    );
}

#[test]
fn signup_mints_distinct_ids() {
    let mut users = Users::new();
    let alice = users.signup_with_basic_auth("alice", "pw1").unwrap();
    let bob = users.signup_with_basic_auth("bob", "pw2").unwrap();
    assert_ne!(alice.id, bob.id);
}

#[test]
fn credentials_verify_by_user_id() {
    let mut creds = BasicAuthUsers::new();
    let cred = creds.create_by_user_id_and_password("7", "secret").unwrap();
    assert_eq!(cred.user_id, "7");
    assert!(cred.password_hash.starts_with("$argon2"));
    assert_eq!(creds.verify_password_hash_by_user_id("7", "secret"), Ok(true));
    assert_eq!(creds.verify_password_hash_by_user_id("7", "wrong"), Ok(false));
    let missing = creds.verify_password_hash_by_user_id("8", "secret").unwrap_err();
    assert_eq!(
        missing,
        ModelError::Generic("Error getting basic auth information for ID '8'".to_string())
    );
}

#[test]
fn login_failures_collapse_at_the_request_boundary() {
    assert_eq!(
        map_login_error(&ModelError::AuthenticationFailed),
        (401, "Unauthorized")
    );
    assert_eq!(
        map_login_error(&ModelError::UserDoesNotExist("bob".to_string())),
        (401, "Unauthorized")
    );
}

#[test]
fn model_error_messages_are_stable() {
    assert_eq!(
        ModelError::AuthenticationFailed.message(),
        "Authentication failed"
    );
    assert_eq!(
        ModelError::DuplicateUsername("alice".to_string()).message(),
        "Username 'alice' already exists."
    );
    assert_eq!(
        ModelError::UserDoesNotExist("bob".to_string()).message(),
        "User does not exist bob"
    );
    assert_eq!(ModelError::InsertError.message(), "Could not insert document");
    assert_eq!(
        ModelError::Generic("anything".to_string()).message(),
        "anything"
    );
    assert_eq!(
        ModelError::PasswordHashError.message(),
        "Unable to process password hash"
    );
}
