//! Tests of the password vault.

use quiz_auth::error::ModelError;
use quiz_auth::vault::{hash_password, verify_password};

#[test]
fn verify_accepts_own_hash() {
    let hp = hash_password("hunter2").unwrap();
    assert_eq!(verify_password("hunter2", hp.hash.as_str()), Ok(true));
}

#[test]
fn verify_rejects_other_password() {
    let hp = hash_password("hunter2").unwrap();
    assert_eq!(verify_password("HUNTER2", hp.hash.as_str()), Ok(false));
    assert_eq!(verify_password("", hp.hash.as_str()), Ok(false));
}

#[test]
fn verify_rejects_hash_of_other_password() {
    let other = hash_password("other password").unwrap();
    assert_eq!(verify_password("hunter2", other.hash.as_str()), Ok(false));
}

#[test]
fn repeated_hashing_draws_fresh_salts() {
    let first = hash_password("same password").unwrap();
    let second = hash_password("same password").unwrap();
    assert_ne!(first.salt, second.salt);
    assert_ne!(first.hash, second.hash);
}

#[test]
fn hash_embeds_its_salt() {
    let hp = hash_password("pw").unwrap();
    assert!(hp.hash.contains(hp.salt.as_str()));
    assert!(hp.hash.starts_with("$argon2"));
}

#[test]
fn corrupt_stored_hash_is_an_error() {
    assert_eq!(
        verify_password("pw", "not-a-phc-string"),
        Err(ModelError::PasswordHashError)
    );
}
