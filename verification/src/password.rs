//! Salted password hashing and verification.
//!
//! A [`Password`] pairs a salt with the digest that a memory-hard key
//! derivation function computes from the salt and a plaintext password. A
//! fresh credential draws a random salt every time, so hashing the same
//! plaintext twice yields distinct records; verification re-derives the
//! digest from the stored salt and compares it to the stored hash.

use vstd::prelude::*;

verus! {

/// Number of random salt bytes drawn for a fresh credential.
pub const SALT_SIZE: usize = 256;

/// Byte length of the digest derived for a fresh credential.
pub const HASH_SIZE: usize = 32;

/// The digest that the Argon2 key-derivation function (rust-argon2, default
/// configuration) computes for a given output length, salt and password. The
/// digest depends on those three arguments alone; no short statement of its
/// value exists, so it only has a name here.
pub uninterp spec fn argon2_digest_of(hash_len: nat, salt: Seq<u8>, password: Seq<u8>) -> Seq<u8>;

/// The salt and password lengths that the derivation function accepts under
/// its default configuration; everything else about that configuration is
/// fixed and valid.
pub open spec fn argon2_accepts(salt: Seq<u8>, password: Seq<u8>) -> bool {
    &&& 8 <= salt.len() <= 0xFFFF_FFFF
    &&& password.len() <= 0xFFFF_FFFF
}

/// Relies on rand::random: a uniformly random value; nothing can be promised
/// of which value comes back.
pub assume_specification<T>[ rand::random::<T> ]() -> (r: T)
    where
        rand::distributions::Standard: rand::distributions::Distribution<T>,
;

/// Relies on argon2::hash_raw (rust-argon2) with `Config::default()`: it
/// returns `Ok` exactly when the salt is 8 to 2^32 - 1 bytes long and the
/// password at most 2^32 - 1 bytes (every other input of the default
/// configuration is fixed and within bounds), and the hash it returns is the
/// 32-byte digest determined by the salt and the password alone.
#[verifier::external_body]
fn argon2_hash(password: &[u8], salt: &[u8]) -> (r: Option<Vec<u8>>)
    ensures
        r is Some <==> argon2_accepts(salt@, password@),
        r matches Some(h) ==> h@.len() == HASH_SIZE && h@ == argon2_digest_of(
            HASH_SIZE as nat,
            salt@,
            password@,
        ),
{
    argon2::hash_raw(password, salt, &argon2::Config::default()).ok()
}

/// Relies on argon2::verify_raw (rust-argon2) with `Config::default()`: it
/// re-derives the very digest that argon2::hash_raw computes — at the
/// stored hash's own length — and compares it to the stored hash in
/// constant time (via constant_time_eq, which also reports differing
/// lengths as unequal); when the salt, password or hash length falls
/// outside the documented bounds it returns `Err`, which is reported as a
/// mismatch.
#[verifier::external_body]
fn argon2_verify(password: &[u8], salt: &[u8], hash: &[u8]) -> (r: bool)
    ensures
        r == (argon2_accepts(salt@, password@) && 4 <= hash@.len() <= 0xFFFF_FFFF && hash@
            == argon2_digest_of(hash@.len(), salt@, password@)),
{
    argon2::verify_raw(password, salt, hash, &argon2::Config::default()).unwrap_or(false)
}

/// A salted credential: the salt that was drawn when it was created and the
/// digest derived from that salt and the plaintext password.
#[derive(Clone, Debug, Eq, Hash, PartialEq)]
pub struct Password {
    pub salt: Vec<u8>,
    pub hash: Vec<u8>,
}

/// `c` is a credential that hashing the plaintext `password` under a fresh
/// salt can produce: full-size salt, and the hash is the digest of that salt
/// and the password.
pub open spec fn hashed_from(c: Password, password: Seq<u8>) -> bool {
    &&& c.salt@.len() == SALT_SIZE
    &&& c.hash@.len() == HASH_SIZE
    &&& c.hash@ == argon2_digest_of(HASH_SIZE as nat, c.salt@, password)
}

/// `c` is the credential that hashing `password` under the given `salt`
/// produces: the salt is kept as handed in and the hash is the digest of the
/// two.
pub open spec fn salted_from(c: Password, salt: Seq<u8>, password: Seq<u8>) -> bool {
    &&& c.salt@ == salt
    &&& c.hash@.len() == HASH_SIZE
    &&& c.hash@ == argon2_digest_of(HASH_SIZE as nat, salt, password)
}

/// The stored hash of `c` equals the digest re-derived from the stored salt
/// and the plaintext `password`; exactly when this holds does verification
/// succeed.
pub open spec fn credential_matches(c: Password, password: Seq<u8>) -> bool {
    &&& argon2_accepts(c.salt@, password)
    &&& 4 <= c.hash@.len() <= 0xFFFF_FFFF
    &&& c.hash@ == argon2_digest_of(c.hash@.len(), c.salt@, password)
}

/// Draws `size` random bytes; used for fresh salts and fresh token material.
pub fn generate_salt(size: usize) -> (r: Vec<u8>)
    ensures
        r@.len() == size,
{
    let mut out: Vec<u8> = Vec::new();
    let mut i: usize = 0;
    while i < size
        invariant
            i <= size,
            out@.len() == i,
        decreases size - i,
    {
        let b: u8 = rand::random::<u8>();
        out.push(b);
        i = i + 1;
    }
    out
}

impl Default for Password {
    /// An empty credential: no salt, no hash. It matches no password, since
    /// an empty salt is below the accepted minimum.
    fn default() -> (r: Self)
        ensures
            r.salt@.len() == 0,
            r.hash@.len() == 0,
    {
        Password { salt: Vec::new(), hash: Vec::new() }
    }
}

impl Password {
    /// Hashes a password under a freshly drawn full-size random salt.
    pub fn hash_password(password: &[u8]) -> (r: Self)
        requires
            password@.len() <= 0xFFFF_FFFF,
        ensures
            hashed_from(r, password@),
    {
        let salt = generate_salt(SALT_SIZE);
        let hash = match argon2_hash(password, salt.as_slice()) {
            Some(h) => h,
            None => vstd::pervasive::unreached(),
        };
        Password { salt, hash }
    }

    /// Hashes a password under a caller-supplied salt; deterministic in the
    /// pair of arguments. The salt must be of a length the derivation
    /// function accepts.
    pub fn hash_password_salt(salt: &[u8], password: &[u8]) -> (r: Password)
        requires
            argon2_accepts(salt@, password@),
        ensures
            salted_from(r, salt@, password@),
    {
        let hash = match argon2_hash(password, salt) {
            Some(h) => h,
            None => vstd::pervasive::unreached(),
        };
        Password { salt: vstd::slice::slice_to_vec(salt), hash }
    }

    /// Like [`Password::hash_password_salt`], but accepts any input and
    /// reports a salt or password the derivation function rejects as `None`
    /// instead of requiring the caller to rule it out.
    pub fn try_hash_password_salt(salt: &[u8], password: &[u8]) -> (r: Option<Password>)
        ensures
            r is Some <==> argon2_accepts(salt@, password@),
            r matches Some(c) ==> salted_from(c, salt@, password@),
    {
        match argon2_hash(password, salt) {
            Some(hash) => Some(Password { salt: vstd::slice::slice_to_vec(salt), hash }),
            None => None,
        }
    }

    /// Re-derives the digest from the stored salt and the supplied plaintext
    /// and compares it to the stored hash in constant time. Any rejected
    /// input (such as a malformed salt length) yields `false`, never a
    /// panic.
    pub fn is_correct_password(&self, password: &[u8]) -> (r: bool)
        ensures
            r == credential_matches(*self, password@),
    {
        argon2_verify(password, self.salt.as_slice(), self.hash.as_slice())
    }
}

/// Hashing with a salt is deterministic: two credentials derived from the
/// same salt and the same password are byte-identical in salt and hash.
pub proof fn lemma_hash_with_salt_deterministic(
    c1: Password,
    c2: Password,
    salt: Seq<u8>,
    password: Seq<u8>,
)
    requires
        salted_from(c1, salt, password),
        salted_from(c2, salt, password),
    ensures
        c1.salt@ == c2.salt@,
        c1.hash@ == c2.hash@,
{
}

/// A credential freshly hashed from a password verifies against that same
/// password.
pub proof fn lemma_fresh_credential_verifies(c: Password, password: Seq<u8>)
    requires
        hashed_from(c, password),
        password.len() <= 0xFFFF_FFFF,
    ensures
        credential_matches(c, password),
{
}

/// A credential hashed from a password under a given salt verifies against
/// that same password.
pub proof fn lemma_salted_credential_verifies(c: Password, salt: Seq<u8>, password: Seq<u8>)
    requires
        salted_from(c, salt, password),
        argon2_accepts(salt, password),
    ensures
        credential_matches(c, password),
{
}

} // verus!
