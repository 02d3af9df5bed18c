use misato_security::auth::{AuthError, AuthStore, Role};

fn store_with_root() -> AuthStore {
    let mut store = AuthStore::new();
    let created = store.ensure_root_account(b"root", b"root-password", b"bootstrap-token");
    assert!(created);
    store
}

#[test]
fn bootstrap_is_idempotent() {
    let mut store = store_with_root();
    // A second bootstrap, even under another name, changes nothing.
    assert!(!store.ensure_root_account(b"root", b"root-password", b"bootstrap-token"));
    assert!(!store.ensure_root_account(b"other-root", b"pw", b"other-token"));
    // The operator token still works, the never-installed one does not.
    assert!(store.validate(b"bootstrap-token", Role::Root).is_some());
    assert!(store.validate(b"other-token", Role::User).is_none());
}

#[test]
fn issued_tokens_are_unique_across_accounts() {
    let mut store = store_with_root();
    assert!(store.signup(b"u1", b"pw1", Role::User, None).is_ok());
    assert!(store.signup(b"u2", b"pw2", Role::User, None).is_ok());
    let mut tokens: Vec<Vec<u8>> = vec![b"bootstrap-token".to_vec()];
    for _ in 0..10 {
        tokens.push(store.issue(b"u1").unwrap());
        tokens.push(store.issue(b"u2").unwrap());
        tokens.push(store.issue(b"root").unwrap());
    }
    // Revocation must not make a token string reusable.
    store.revoke_all(b"u1");
    for _ in 0..5 {
        tokens.push(store.issue(b"u1").unwrap());
    }
    for i in 0..tokens.len() {
        for j in (i + 1)..tokens.len() {
            assert_ne!(tokens[i], tokens[j]);
        }
    }
}

#[test]
fn issue_fails_for_missing_account() {
    let mut store = store_with_root();
    assert!(store.issue(b"nobody").is_none());
}

#[test]
fn revoke_one_invalidates_only_that_token() {
    let mut store = store_with_root();
    assert!(store.signup(b"u1", b"pw1", Role::User, None).is_ok());
    let t1 = store.issue(b"u1").unwrap();
    let t2 = store.issue(b"u1").unwrap();
    store.revoke_one(b"u1", &t1);
    assert!(store.validate(&t1, Role::User).is_none());
    assert_eq!(store.validate(&t2, Role::User).unwrap(), b"u1".to_vec());
    // Revoking again, or revoking an unknown token or account, is a no-op.
    store.revoke_one(b"u1", &t1);
    store.revoke_one(b"u1", b"never-issued");
    store.revoke_one(b"nobody", &t2);
    assert!(store.validate(&t2, Role::User).is_some());
}

#[test]
fn revoke_all_invalidates_everything_and_is_idempotent() {
    let mut store = store_with_root();
    assert!(store.signup(b"u1", b"pw1", Role::User, None).is_ok());
    let t1 = store.issue(b"u1").unwrap();
    let t2 = store.issue(b"u1").unwrap();
    let root_token = store.issue(b"root").unwrap();
    store.revoke_all(b"u1");
    assert!(store.validate(&t1, Role::User).is_none());
    assert!(store.validate(&t2, Role::User).is_none());
    // Another account's tokens are untouched.
    assert!(store.validate(&root_token, Role::Root).is_some());
    // Calling it twice changes nothing and does not fail.
    store.revoke_all(b"u1");
    assert!(store.validate(&t1, Role::User).is_none());
    // The account itself survives and can log in again.
    assert!(store.login(b"u1", b"pw1").is_some());
}

#[test]
fn delete_account_cascades_to_its_tokens() {
    let mut store = store_with_root();
    assert!(store.signup(b"u1", b"pw1", Role::User, None).is_ok());
    let t1 = store.issue(b"u1").unwrap();
    let t2 = store.issue(b"u1").unwrap();
    let root_token = store.issue(b"root").unwrap();
    store.delete_account(b"u1");
    assert!(store.validate(&t1, Role::User).is_none());
    assert!(store.validate(&t2, Role::User).is_none());
    assert!(store.login(b"u1", b"pw1").is_none());
    assert!(store.validate(&root_token, Role::Root).is_some());
    // Deleting again is a no-op.
    store.delete_account(b"u1");
}

#[test]
fn login_round_trip() {
    let mut store = store_with_root();
    assert!(store.signup(b"u1", b"anypassword", Role::User, None).is_ok());
    let t1 = store.login(b"u1", b"anypassword").expect("correct password must log in");
    assert!(store.login(b"u1", b"wrongpassword").is_none());
    assert!(store.login(b"unknown", b"anypassword").is_none());
    assert_eq!(store.validate(&t1, Role::User).unwrap(), b"u1".to_vec());
    store.revoke_all(b"u1");
    assert!(store.validate(&t1, Role::User).is_none());
}

#[test]
fn admin_signup_requires_admin_or_root_token() {
    let mut store = store_with_root();
    // The operator's root token opens an admin account.
    assert!(store.signup(b"a1", b"pw-a1", Role::Admin, Some(b"bootstrap-token")).is_ok());
    let admin_token = store.login(b"a1", b"pw-a1").unwrap();
    // An admin token opens another admin account.
    assert!(store.signup(b"a2", b"pw-a2", Role::Admin, Some(&admin_token)).is_ok());
    // A user token does not, whatever the rest of the request.
    assert!(store.signup(b"u1", b"pw-u1", Role::User, None).is_ok());
    let user_token = store.login(b"u1", b"pw-u1").unwrap();
    assert_eq!(
        store.signup(b"a3", b"pw-a3", Role::Admin, Some(&user_token)),
        Err(AuthError::Unauthorized)
    );
    // No token at all does not either, nor does an unissued string.
    assert_eq!(store.signup(b"a3", b"pw-a3", Role::Admin, None), Err(AuthError::Unauthorized));
    assert_eq!(
        store.signup(b"a3", b"pw-a3", Role::Admin, Some(b"made-up")),
        Err(AuthError::Unauthorized)
    );
    // The refused signups created no account.
    assert!(store.login(b"a3", b"pw-a3").is_none());
}

#[test]
fn root_signup_is_never_authorized() {
    let mut store = store_with_root();
    assert_eq!(
        store.signup(b"r2", b"pw", Role::Root, Some(b"bootstrap-token")),
        Err(AuthError::Unauthorized)
    );
}

#[test]
fn duplicate_username_is_refused() {
    let mut store = store_with_root();
    assert!(store.signup(b"u1", b"pw1", Role::User, None).is_ok());
    assert_eq!(store.signup(b"u1", b"pw2", Role::User, None), Err(AuthError::AccountExists));
    assert_eq!(store.signup(b"root", b"pw2", Role::User, None), Err(AuthError::AccountExists));
    // The first credential still stands.
    assert!(store.login(b"u1", b"pw1").is_some());
    assert!(store.login(b"u1", b"pw2").is_none());
}

#[test]
fn validate_leaks_nothing_about_why_it_failed() {
    let mut store = store_with_root();
    assert!(store.signup(b"u1", b"pw1", Role::User, None).is_ok());
    let user_token = store.login(b"u1", b"pw1").unwrap();
    // Unbound, malformed and insufficient-role tokens all give the same outcome.
    assert_eq!(store.validate(b"", Role::User), None);
    assert_eq!(store.validate(b"not-a-token", Role::User), None);
    assert_eq!(store.validate(&user_token, Role::Admin), None);
    assert_eq!(store.validate(&user_token, Role::Root), None);
    // The same token is fine where the role suffices.
    assert_eq!(store.validate(&user_token, Role::User).unwrap(), b"u1".to_vec());
}

#[test]
fn role_covers_ordering() {
    let mut store = store_with_root();
    assert!(store.signup(b"a1", b"pw-a1", Role::Admin, Some(b"bootstrap-token")).is_ok());
    let admin_token = store.login(b"a1", b"pw-a1").unwrap();
    // Admin standing covers admin and user demands, not root.
    assert!(store.validate(&admin_token, Role::User).is_some());
    assert!(store.validate(&admin_token, Role::Admin).is_some());
    assert!(store.validate(&admin_token, Role::Root).is_none());
    // Root standing covers everything.
    assert!(store.validate(b"bootstrap-token", Role::User).is_some());
    assert!(store.validate(b"bootstrap-token", Role::Admin).is_some());
    assert!(store.validate(b"bootstrap-token", Role::Root).is_some());
}
