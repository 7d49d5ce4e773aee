//! Tests of session issuance, resolution and revocation.

use quiz_auth::session::{
    issue_decide, issue_start, CookieJar, IssueStep, SessionError, SessionStorage,
};

#[test]
fn cache_operations_behave_like_a_map() {
    let mut storage = SessionStorage::new();
    assert!(!storage.has_key("session:aaaaaaaa"));
    storage.set_ex("session:aaaaaaaa", "A1");
    assert!(storage.has_key("session:aaaaaaaa"));
    assert_eq!(storage.get("session:aaaaaaaa"), Some("A1".to_string()));
    assert_eq!(storage.del("session:aaaaaaaa"), 1);
    assert!(!storage.has_key("session:aaaaaaaa"));
    assert_eq!(storage.del("session:aaaaaaaa"), 0);
}

#[test]
fn issued_keys_are_well_formed() {
    let mut storage = SessionStorage::new();
    let mut jar = CookieJar::new();
    storage.create_session("A1", &mut jar).unwrap();
    let key = jar.value().unwrap();
    assert_eq!(key.chars().count(), 16);
    assert!(key.starts_with("session:"));
    for c in key.chars().skip(8) {
        assert!("abcdefghijklmnopqrstuvwxyz0123456789".contains(c));
    }
}

#[test]
fn sequentially_issued_keys_are_distinct() {
    let mut storage = SessionStorage::new();
    let mut jar1 = CookieJar::new();
    let mut jar2 = CookieJar::new();
    storage.create_session("A1", &mut jar1).unwrap();
    storage.create_session("A2", &mut jar2).unwrap();
    assert_ne!(jar1.value().unwrap(), jar2.value().unwrap());
}

#[test]
fn many_issued_keys_are_pairwise_distinct() {
    let mut storage = SessionStorage::new();
    let mut keys = Vec::new();
    for i in 0..50 {
        let mut jar = CookieJar::new();
        let account = format!("A{}", i);
        storage.create_session(account.as_str(), &mut jar).unwrap();
        keys.push(jar.value().unwrap());
    }
    for i in 0..keys.len() {
        for j in (i + 1)..keys.len() {
            assert_ne!(keys[i], keys[j]);
        }
    }
}

#[test]
fn retry_budget_exhausts_at_exactly_100_collisions() {
    let mut budget = issue_start();
    for _ in 0..99 {
        assert_eq!(issue_decide(&mut budget, true), IssueStep::Retry);
    }
    assert_eq!(issue_decide(&mut budget, true), IssueStep::Fail);
}

#[test]
fn a_free_key_commits_even_on_the_last_probe() {
    let mut budget = issue_start();
    for _ in 0..99 {
        assert_eq!(issue_decide(&mut budget, true), IssueStep::Retry);
    }
    assert_eq!(issue_decide(&mut budget, false), IssueStep::Commit);
}

#[test]
fn resolve_after_issue_returns_the_issued_account() {
    let mut storage = SessionStorage::new();
    let mut jar = CookieJar::new();
    storage.create_session("A1", &mut jar).unwrap();
    assert_eq!(storage.get_session(&jar), Ok(Some("A1".to_string())));
}

#[test]
fn resolve_with_no_cookie_returns_none() {
    let storage = SessionStorage::new();
    let jar = CookieJar::new();
    assert_eq!(storage.get_session(&jar), Ok(None));
}

#[test]
fn resolve_after_expiry_returns_none() {
    let mut storage = SessionStorage::new();
    let mut jar = CookieJar::new();
    storage.create_session("A1", &mut jar).unwrap();
    let key = jar.value().unwrap();
    assert_eq!(storage.del(key.as_str()), 1);
    assert_eq!(storage.get_session(&jar), Ok(None));
}

#[test]
fn revoke_without_a_session_counts_zero() {
    let mut storage = SessionStorage::new();
    let mut jar = CookieJar::new();
    assert_eq!(storage.delete_session(&mut jar), Ok(0));
}

#[test]
fn revoke_after_issue_counts_one_and_resolves_to_none() {
    let mut storage = SessionStorage::new();
    let mut jar = CookieJar::new();
    storage.create_session("A1", &mut jar).unwrap();
    assert_eq!(storage.delete_session(&mut jar), Ok(1));
    assert_eq!(storage.get_session(&jar), Ok(None));
    assert!(jar.value().is_none());
}

#[test]
fn a_stale_cookie_revokes_as_zero() {
    let mut storage = SessionStorage::new();
    let mut jar = CookieJar::with_value(Some("session:zzzzzzzz".to_string()));
    assert_eq!(storage.delete_session(&mut jar), Ok(0));
    assert!(jar.value().is_none());
}

#[test]
fn session_error_messages_are_stable() {
    assert_eq!(SessionError::Build.message(), "Unable to build session");
    assert_eq!(
        SessionError::Rand.message(),
        "Unable to seed the session key generator"
    );
    assert_eq!(SessionError::Redis.message(), "Session cache is unreachable");
}
