use misato_security::password::{generate_salt, Password, HASH_SIZE, SALT_SIZE};

#[test]
fn generate_salt_has_requested_length() {
    assert_eq!(generate_salt(0).len(), 0);
    assert_eq!(generate_salt(16).len(), 16);
    assert_eq!(generate_salt(SALT_SIZE).len(), SALT_SIZE);
}

#[test]
fn hash_password_draws_fresh_salt_every_time() {
    let first = Password::hash_password(b"anypassword");
    let second = Password::hash_password(b"anypassword");
    assert_eq!(first.salt.len(), SALT_SIZE);
    assert_eq!(first.hash.len(), HASH_SIZE);
    assert_ne!(first.salt, second.salt);
    assert_ne!(first.hash, second.hash);
}

#[test]
fn hash_password_salt_is_deterministic() {
    let salt = generate_salt(SALT_SIZE);
    let first = Password::hash_password_salt(&salt, b"anypassword");
    let second = Password::hash_password_salt(&salt, b"anypassword");
    assert_eq!(first.salt, second.salt);
    assert_eq!(first.salt, salt);
    assert_eq!(first.hash, second.hash);
}

#[test]
fn hash_password_salt_distinguishes_passwords() {
    let salt = generate_salt(SALT_SIZE);
    let one = Password::hash_password_salt(&salt, b"anypassword");
    let other = Password::hash_password_salt(&salt, b"anotherpassword");
    assert_eq!(one.salt, other.salt);
    assert_ne!(one.hash, other.hash);
}

#[test]
fn hash_password_salt_matches_underlying_derivation() {
    // The stored hash really is the derivation of salt and password, not
    // either input handed back.
    let salt = generate_salt(8);
    let cred = Password::hash_password_salt(&salt, b"anypassword");
    let expected = argon2::hash_raw(b"anypassword", &salt, &argon2::Config::default()).unwrap();
    assert_eq!(cred.hash, expected);
    assert_ne!(cred.hash.as_slice(), b"anypassword".as_slice());
    assert_ne!(cred.hash, salt);
}

#[test]
fn verify_accepts_the_hashed_password_and_rejects_others() {
    let cred = Password::hash_password(b"anypassword");
    assert!(cred.is_correct_password(b"anypassword"));
    assert!(!cred.is_correct_password(b"anotherpassword"));
    assert!(!cred.is_correct_password(b""));
}

#[test]
fn try_hash_rejects_salts_the_derivation_rejects() {
    assert!(Password::try_hash_password_salt(b"", b"anypassword").is_none());
    assert!(Password::try_hash_password_salt(b"short7!", b"anypassword").is_none());
    let cred = Password::try_hash_password_salt(b"justlong", b"anypassword").unwrap();
    assert_eq!(cred.salt, b"justlong".to_vec());
    assert!(cred.is_correct_password(b"anypassword"));
}

#[test]
fn empty_password_still_hashes_and_verifies() {
    let cred = Password::hash_password(b"");
    assert!(cred.is_correct_password(b""));
    assert!(!cred.is_correct_password(b"x"));
}

#[test]
fn default_credential_matches_no_password() {
    let cred = Password::default();
    assert_eq!(cred.salt.len(), 0);
    assert_eq!(cred.hash.len(), 0);
    assert!(!cred.is_correct_password(b""));
    assert!(!cred.is_correct_password(b"anypassword"));
}
