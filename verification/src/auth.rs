//! Account-bound bearer-token authentication.
//!
//! An [`AuthStore`] holds the accounts of a deployment: each account has a
//! unique username, a privilege tier, a salted credential and a set of
//! active bearer tokens. The store also keeps the log of every token ever
//! issued, so that no token string is handed out twice, not even after
//! revocation. All operations are decision functions over this state; a
//! caller that keeps the state elsewhere performs the resulting reads and
//! writes itself.

use vstd::prelude::*;

use crate::password::{
    credential_matches, generate_salt, hashed_from, Password,
};

verus! {

/// Number of random bytes drawn for a fresh bearer token (256 bits).
pub const TOKEN_SIZE: usize = 32;

/// Privilege tiers, from highest to lowest.
#[derive(Clone, Copy, Debug, PartialEq, Eq, Structural)]
pub enum Role {
    Root,
    Admin,
    User,
}

/// The privilege `held` suffices where `required` is demanded: root covers
/// everything, admin covers admin and user, user covers only user.
pub open spec fn role_covers(held: Role, required: Role) -> bool {
    match required {
        Role::User => true,
        Role::Admin => held == Role::Admin || held == Role::Root,
        Role::Root => held == Role::Root,
    }
}

impl Role {
    /// Runtime counterpart of [`role_covers`].
    pub fn covers(self, required: Role) -> (r: bool)
        ensures
            r == role_covers(self, required),
    {
        match required {
            Role::User => true,
            Role::Admin => match self {
                Role::Admin => true,
                Role::Root => true,
                Role::User => false,
            },
            Role::Root => match self {
                Role::Root => true,
                _ => false,
            },
        }
    }
}

/// Failures of the account operations that are reported to the caller.
/// Failed validation and failed login are deliberately not in this list:
/// they collapse into a single empty outcome, so that a caller cannot tell
/// a missing account from a wrong password or an unbound token.
#[derive(Clone, Copy, Debug, PartialEq, Eq, Structural)]
pub enum AuthError {
    /// The caller's token does not grant the privilege the operation needs.
    Unauthorized,
    /// The username is already taken.
    AccountExists,
}

/// A principal: unique username, privilege tier, salted credential, and the
/// account's currently active bearer tokens.
#[derive(Clone, Debug)]
pub struct Account {
    pub username: Vec<u8>,
    pub role: Role,
    pub password: Password,
    pub tokens: Vec<Vec<u8>>,
}

/// `t` is one of the account's active tokens.
pub open spec fn account_has_token(a: Account, t: Seq<u8>) -> bool {
    exists|k: int| 0 <= k < a.tokens@.len() && a.tokens@[k]@ == t
}

/// The account store: every known account, and the log of every token ever
/// issued (revoked ones included), kept so that no token string is ever
/// reused.
pub struct AuthStore {
    pub accounts: Vec<Account>,
    pub issued: Vec<Vec<u8>>,
}

impl AuthStore {
    /// Some account carries this username.
    pub open spec fn has_account(self, u: Seq<u8>) -> bool {
        exists|i: int|
            0 <= i < self.accounts@.len() && self.accounts@[i].username@ == u
    }

    /// Some account holds the role `Root`.
    pub open spec fn has_root(self) -> bool {
        exists|i: int| 0 <= i < self.accounts@.len() && self.accounts@[i].role == Role::Root
    }

    /// `t` was issued at some point (it may have been revoked since).
    pub open spec fn token_issued(self, t: Seq<u8>) -> bool {
        exists|m: int| 0 <= m < self.issued@.len() && self.issued@[m]@ == t
    }

    /// `t` is active on some account, whatever that account's role.
    pub open spec fn token_active(self, t: Seq<u8>) -> bool {
        exists|i: int|
            0 <= i < self.accounts@.len() && account_has_token(self.accounts@[i], t)
    }

    /// `t` is active on the account named `u`, whose role covers `required`.
    pub open spec fn token_binds(self, t: Seq<u8>, u: Seq<u8>, required: Role) -> bool {
        exists|i: int|
            0 <= i < self.accounts@.len() && self.accounts@[i].username@ == u
                && account_has_token(self.accounts@[i], t) && role_covers(
                self.accounts@[i].role,
                required,
            )
    }

    /// `t` is active on some account whose role covers `required`; exactly
    /// then does validation succeed.
    pub open spec fn token_accepted(self, t: Seq<u8>, required: Role) -> bool {
        exists|i: int|
            0 <= i < self.accounts@.len() && account_has_token(self.accounts@[i], t)
                && role_covers(self.accounts@[i].role, required)
    }

    /// The password `p` opens the account named `u`; exactly then does login
    /// succeed.
    pub open spec fn password_accepted(self, u: Seq<u8>, p: Seq<u8>) -> bool {
        exists|i: int|
            0 <= i < self.accounts@.len() && self.accounts@[i].username@ == u
                && credential_matches(self.accounts@[i].password, p)
    }

    /// Well-formedness, established by the constructor and preserved by
    /// every operation: usernames are unique; the issued log never repeats
    /// a token; every active token appears in the issued log; and no token
    /// string is active twice, neither on one account nor across two.
    pub open spec fn wf(self) -> bool {
        let accs = self.accounts@;
        &&& (forall|i: int, j: int|
            0 <= i < j < accs.len() ==> accs[i].username@ != accs[j].username@)
        &&& (forall|m: int, n: int|
            0 <= m < n < self.issued@.len() ==> self.issued@[m]@ != self.issued@[n]@)
        &&& (forall|i: int, k: int|
            0 <= i < accs.len() && 0 <= k < accs[i].tokens@.len() ==> self.token_issued(
                accs[i].tokens@[k]@,
            ))
        &&& (forall|i: int, k: int, l: int|
            0 <= i < accs.len() && 0 <= k < l < accs[i].tokens@.len() ==> accs[i].tokens@[k]@
                != accs[i].tokens@[l]@)
        &&& (forall|i: int, j: int, k: int, l: int|
            0 <= i < j < accs.len() && 0 <= k < accs[i].tokens@.len() && 0 <= l
                < accs[j].tokens@.len() ==> accs[i].tokens@[k]@ != accs[j].tokens@[l]@)
    }

    /// An empty store: no accounts, nothing issued.
    pub fn new() -> (r: Self)
        ensures
            r.wf(),
            r.accounts@.len() == 0,
            r.issued@.len() == 0,
    {
        AuthStore { accounts: Vec::new(), issued: Vec::new() }
    }
}

/// Byte-for-byte equality of two byte strings.
fn bytes_eq(a: &[u8], b: &[u8]) -> (r: bool)
    ensures
        r == (a@ == b@),
{
    if a.len() != b.len() {
        return false;
    }
    let mut i: usize = 0;
    while i < a.len()
        invariant
            a@.len() == b@.len(),
            i <= a@.len(),
            forall|j: int| 0 <= j < i ==> a@[j] == b@[j],
        decreases a@.len() - i,
    {
        if a[i] != b[i] {
            return false;
        }
        i = i + 1;
    }
    proof {
        assert(a@ =~= b@);
    }
    true
}

/// Position of `token` in the account's active set, if it is active.
fn token_index(a: &Account, token: &[u8]) -> (r: Option<usize>)
    ensures
        r matches Some(k) ==> k < a.tokens@.len() && a.tokens@[k as int]@ == token@,
        r is None ==> !account_has_token(*a, token@),
{
    let mut k: usize = 0;
    let n = a.tokens.len();
    while k < n
        invariant
            n == a.tokens@.len(),
            k <= n,
            forall|j: int| 0 <= j < k ==> a.tokens@[j]@ != token@,
        decreases n - k,
    {
        if bytes_eq(a.tokens[k].as_slice(), token) {
            return Some(k);
        }
        k = k + 1;
    }
    None
}

/// Runtime counterpart of [`account_has_token`].
fn account_contains(a: &Account, token: &[u8]) -> (r: bool)
    ensures
        r == account_has_token(*a, token@),
{
    token_index(a, token).is_some()
}

impl AuthStore {
    /// Index of the account named `username`, if any.
    fn find_index(&self, username: &[u8]) -> (r: Option<usize>)
        ensures
            r matches Some(i) ==> i < self.accounts@.len() && self.accounts@[i as int].username@
                == username@,
            r is None ==> !self.has_account(username@),
    {
        let mut i: usize = 0;
        let n = self.accounts.len();
        while i < n
            invariant
                n == self.accounts@.len(),
                i <= n,
                forall|j: int| 0 <= j < i ==> self.accounts@[j].username@ != username@,
            decreases n - i,
        {
            if bytes_eq(self.accounts[i].username.as_slice(), username) {
                return Some(i);
            }
            i = i + 1;
        }
        None
    }

    /// Runtime counterpart of [`AuthStore::token_issued`].
    fn is_issued(&self, token: &[u8]) -> (r: bool)
        ensures
            r == self.token_issued(token@),
    {
        let mut m: usize = 0;
        let n = self.issued.len();
        while m < n
            invariant
                n == self.issued@.len(),
                m <= n,
                forall|j: int| 0 <= j < m ==> self.issued@[j]@ != token@,
            decreases n - m,
        {
            if bytes_eq(self.issued[m].as_slice(), token) {
                return true;
            }
            m = m + 1;
        }
        false
    }

    /// Looks the presented token up and returns the username it is bound
    /// to, provided that account's role covers `required`. A malformed
    /// token, an unbound token and a token of insufficient role all yield
    /// the same empty outcome, so that the result leaks nothing about which
    /// of them it was.
    pub fn validate(&self, token: &[u8], required: Role) -> (r: Option<Vec<u8>>)
        ensures
            r is Some <==> self.token_accepted(token@, required),
            r matches Some(u) ==> self.token_binds(token@, u@, required),
    {
        let mut i: usize = 0;
        let n = self.accounts.len();
        while i < n
            invariant
                n == self.accounts@.len(),
                i <= n,
                forall|j: int|
                    0 <= j < i ==> !(account_has_token(self.accounts@[j], token@) && role_covers(
                        self.accounts@[j].role,
                        required,
                    )),
            decreases n - i,
        {
            if account_contains(&self.accounts[i], token) && self.accounts[i].role.covers(
                required,
            ) {
                return Some(vstd::slice::slice_to_vec(self.accounts[i].username.as_slice()));
            }
            i = i + 1;
        }
        None
    }
}

impl AuthStore {
    /// What issuing the fresh token `t` to the account named `u` does to the
    /// store: that account's token list grows by exactly `t`, every other
    /// account is untouched, and `t` is appended to the issued log.
    pub open spec fn issue_post(pre: Self, post: Self, u: Seq<u8>, t: Seq<u8>) -> bool {
        &&& post.accounts@.len() == pre.accounts@.len()
        &&& (forall|j: int|
            0 <= j < pre.accounts@.len() && pre.accounts@[j].username@ != u
                ==> post.accounts@[j] == pre.accounts@[j])
        &&& (forall|j: int|
            0 <= j < pre.accounts@.len() && pre.accounts@[j].username@ == u ==> {
                &&& post.accounts@[j].username@ == u
                &&& post.accounts@[j].role == pre.accounts@[j].role
                &&& post.accounts@[j].password == pre.accounts@[j].password
                &&& post.accounts@[j].tokens@.len() == pre.accounts@[j].tokens@.len() + 1
                &&& (forall|k: int|
                    0 <= k < pre.accounts@[j].tokens@.len() ==> post.accounts@[j].tokens@[k]@
                        == pre.accounts@[j].tokens@[k]@)
                &&& post.accounts@[j].tokens@[pre.accounts@[j].tokens@.len() as int]@ == t
            })
        &&& post.issued@.len() == pre.issued@.len() + 1
        &&& (forall|m: int|
            0 <= m < pre.issued@.len() ==> post.issued@[m]@ == pre.issued@[m]@)
        &&& post.issued@[pre.issued@.len() as int]@ == t
    }

    /// Appends the caller-supplied token to the named account's active set
    /// and records it in the issued log. Succeeds exactly when the account
    /// exists and the token string has never been issued before; otherwise
    /// the store is left untouched. The token itself comes from the caller,
    /// so that what this function guarantees holds whatever the caller's
    /// source of randomness returned.
    pub fn issue_token(&mut self, username: &[u8], token: &[u8]) -> (r: bool)
        requires
            old(self).wf(),
        ensures
            final(self).wf(),
            r == (old(self).has_account(username@) && !old(self).token_issued(token@)),
            !r ==> *final(self) == *old(self),
            r ==> Self::issue_post(*old(self), *final(self), username@, token@),
    {
        let idx = match self.find_index(username) {
            Some(i) => i,
            None => {
                return false;
            },
        };
        if self.is_issued(token) {
            return false;
        }
        let ghost pre = *self;
        let t_account = vstd::slice::slice_to_vec(token);
        let t_log = vstd::slice::slice_to_vec(token);
        let mut a = self.accounts.remove(idx);
        a.tokens.push(t_account);
        self.accounts.insert(idx, a);
        self.issued.push(t_log);
        proof {
            assert(self.accounts@ =~= pre.accounts@.update(idx as int, self.accounts@[idx as int]));
            lemma_issue_token_wf(pre, *self, idx as int, username@, token@);
        }
        true
    }

    /// Issues a fresh random token to the named account and returns it.
    /// Returns nothing when the account does not exist — and, with
    /// negligible probability, when the random draw repeats an already
    /// issued token string; either way the store is then left untouched, so
    /// a used token string is never handed out again.
    pub fn issue(&mut self, username: &[u8]) -> (r: Option<Vec<u8>>)
        requires
            old(self).wf(),
        ensures
            final(self).wf(),
            !old(self).has_account(username@) ==> r is None,
            r is None ==> *final(self) == *old(self),
            r matches Some(t) ==> old(self).has_account(username@) && !old(self).token_issued(t@)
                && Self::issue_post(*old(self), *final(self), username@, t@),
    {
        let token = generate_salt(TOKEN_SIZE);
        if self.issue_token(username, token.as_slice()) {
            Some(token)
        } else {
            None
        }
    }
}

impl AuthStore {
    /// What revoking the token `t` on the account named `u` does to the
    /// store: `t` is no longer active on that account, every other token of
    /// that account keeps its standing, every other account is untouched,
    /// and nothing leaves the issued log. When there is nothing to revoke —
    /// no such account, or the token is not active on it — the store is
    /// unchanged, which makes revocation idempotent.
    pub open spec fn revoke_one_post(pre: Self, post: Self, u: Seq<u8>, t: Seq<u8>) -> bool {
        &&& post.accounts@.len() == pre.accounts@.len()
        &&& post.issued == pre.issued
        &&& (forall|j: int|
            0 <= j < pre.accounts@.len() && pre.accounts@[j].username@ != u
                ==> post.accounts@[j] == pre.accounts@[j])
        &&& (forall|j: int|
            0 <= j < pre.accounts@.len() && pre.accounts@[j].username@ == u ==> {
                &&& post.accounts@[j].username@ == u
                &&& post.accounts@[j].role == pre.accounts@[j].role
                &&& post.accounts@[j].password == pre.accounts@[j].password
                &&& !account_has_token(post.accounts@[j], t)
                &&& (forall|t2: Seq<u8>|
                    t2 != t ==> (account_has_token(post.accounts@[j], t2) <==> account_has_token(
                        pre.accounts@[j],
                        t2,
                    )))
            })
        &&& (forall|j: int|
            0 <= j < pre.accounts@.len() && pre.accounts@[j].username@ == u
                ==> !account_has_token(pre.accounts@[j], t)) ==> post == pre
    }

    /// What revoking every token of the account named `u` does to the
    /// store: that account keeps its name, role and credential but no
    /// active tokens; every other account is untouched; nothing leaves the
    /// issued log. When the account is absent or already has no tokens the
    /// store is unchanged, which makes the operation idempotent.
    pub open spec fn revoke_all_post(pre: Self, post: Self, u: Seq<u8>) -> bool {
        &&& post.accounts@.len() == pre.accounts@.len()
        &&& post.issued == pre.issued
        &&& (forall|j: int|
            0 <= j < pre.accounts@.len() && pre.accounts@[j].username@ != u
                ==> post.accounts@[j] == pre.accounts@[j])
        &&& (forall|j: int|
            0 <= j < pre.accounts@.len() && pre.accounts@[j].username@ == u ==> {
                &&& post.accounts@[j].username@ == u
                &&& post.accounts@[j].role == pre.accounts@[j].role
                &&& post.accounts@[j].password == pre.accounts@[j].password
                &&& post.accounts@[j].tokens@.len() == 0
            })
        &&& (forall|j: int|
            0 <= j < pre.accounts@.len() && pre.accounts@[j].username@ == u
                ==> pre.accounts@[j].tokens@.len() == 0) ==> post == pre
    }

    /// What deleting the account named `u` does to the store: that account
    /// is removed outright — its tokens with it — and the issued log is
    /// kept, so none of its token strings can ever be issued again. Absent
    /// account: no change.
    pub open spec fn delete_account_post(pre: Self, post: Self, u: Seq<u8>) -> bool {
        &&& (!pre.has_account(u) ==> post == pre)
        &&& (pre.has_account(u) ==> exists|i: int|
            0 <= i < pre.accounts@.len() && pre.accounts@[i].username@ == u && post.accounts@
                == pre.accounts@.remove(i))
        &&& post.issued == pre.issued
    }

    /// Removes one token from the named account's active set. Revoking a
    /// token that is not active, or naming an account that does not exist,
    /// changes nothing and is not an error.
    pub fn revoke_one(&mut self, username: &[u8], token: &[u8])
        requires
            old(self).wf(),
        ensures
            final(self).wf(),
            Self::revoke_one_post(*old(self), *final(self), username@, token@),
    {
        let idx = match self.find_index(username) {
            Some(i) => i,
            None => {
                return ;
            },
        };
        let ghost pre = *self;
        match token_index(&self.accounts[idx], token) {
            None => {
                // The token is not active on this account: nothing to revoke.
                proof {
                    lemma_username_unique(pre, idx as int, username@);
                }
            },
            Some(k) => {
                let mut a = self.accounts.remove(idx);
                a.tokens.remove(k);
                self.accounts.insert(idx, a);
                proof {
                    assert(self.accounts@ =~= pre.accounts@.update(
                        idx as int,
                        self.accounts@[idx as int],
                    ));
                    lemma_revoke_one_wf(pre, *self, idx as int, k as int, username@, token@);
                }
            },
        }
    }

    /// Clears the named account's entire active token set. Calling it again,
    /// or on an absent account, changes nothing.
    pub fn revoke_all(&mut self, username: &[u8])
        requires
            old(self).wf(),
        ensures
            final(self).wf(),
            Self::revoke_all_post(*old(self), *final(self), username@),
    {
        let idx = match self.find_index(username) {
            Some(i) => i,
            None => {
                return ;
            },
        };
        let ghost pre = *self;
        if self.accounts[idx].tokens.len() == 0 {
            proof {
                lemma_username_unique(pre, idx as int, username@);
            }
            return ;
        }
        let mut a = self.accounts.remove(idx);
        a.tokens = Vec::new();
        self.accounts.insert(idx, a);
        proof {
            assert(self.accounts@ =~= pre.accounts@.update(idx as int, self.accounts@[idx as int]));
            lemma_revoke_all_wf(pre, *self, idx as int, username@);
        }
    }

    /// Removes the account outright. Its active tokens disappear with it,
    /// and since the issued log is kept, none of its token strings is ever
    /// issued again. Deleting an absent account changes nothing.
    pub fn delete_account(&mut self, username: &[u8])
        requires
            old(self).wf(),
        ensures
            final(self).wf(),
            Self::delete_account_post(*old(self), *final(self), username@),
            !final(self).has_account(username@),
    {
        let idx = match self.find_index(username) {
            Some(i) => i,
            None => {
                return ;
            },
        };
        let ghost pre = *self;
        self.accounts.remove(idx);
        proof {
            lemma_username_unique(pre, idx as int, username@);
            lemma_delete_account_wf(pre, *self, idx as int, username@);
        }
    }
}

/// The token the caller presented, as the byte string it holds.
pub open spec fn opt_token_view(t: Option<&[u8]>) -> Option<Seq<u8>> {
    match t {
        Some(b) => Some(b@),
        None => None,
    }
}

/// Whether a signup for `role` is allowed on the strength of the presented
/// token: anyone may open a user account; an admin account takes a valid
/// token of admin or root standing; a root account is never opened through
/// signup — it exists only through bootstrap.
pub open spec fn signup_authorized(s: AuthStore, role: Role, presented: Option<Seq<u8>>) -> bool {
    match role {
        Role::User => true,
        Role::Admin => match presented {
            Some(t) => s.token_accepted(t, Role::Admin),
            None => false,
        },
        Role::Root => false,
    }
}

impl AuthStore {
    /// What a successful signup does to the store: one new account at the
    /// end — the given name and role, a credential freshly hashed from the
    /// password, no active tokens — and nothing else.
    pub open spec fn signup_post(pre: Self, post: Self, u: Seq<u8>, role: Role, p: Seq<u8>) -> bool {
        &&& post.accounts@.len() == pre.accounts@.len() + 1
        &&& (forall|j: int|
            0 <= j < pre.accounts@.len() ==> post.accounts@[j] == pre.accounts@[j])
        &&& post.accounts@[pre.accounts@.len() as int].username@ == u
        &&& post.accounts@[pre.accounts@.len() as int].role == role
        &&& hashed_from(post.accounts@[pre.accounts@.len() as int].password, p)
        &&& post.accounts@[pre.accounts@.len() as int].tokens@.len() == 0
        &&& post.issued == pre.issued
    }

    /// What the bootstrap does to the store when it runs: one new root
    /// account at the end, with a credential hashed from the operator's
    /// password and the operator-supplied token as its single active token,
    /// which is also recorded in the issued log.
    pub open spec fn bootstrap_post(pre: Self, post: Self, u: Seq<u8>, p: Seq<u8>, t: Seq<u8>) -> bool {
        &&& post.accounts@.len() == pre.accounts@.len() + 1
        &&& (forall|j: int|
            0 <= j < pre.accounts@.len() ==> post.accounts@[j] == pre.accounts@[j])
        &&& post.accounts@[pre.accounts@.len() as int].username@ == u
        &&& post.accounts@[pre.accounts@.len() as int].role == Role::Root
        &&& hashed_from(post.accounts@[pre.accounts@.len() as int].password, p)
        &&& post.accounts@[pre.accounts@.len() as int].tokens@.len() == 1
        &&& post.accounts@[pre.accounts@.len() as int].tokens@[0]@ == t
        &&& post.issued@.len() == pre.issued@.len() + 1
        &&& (forall|m: int| 0 <= m < pre.issued@.len() ==> post.issued@[m] == pre.issued@[m])
        &&& post.issued@[pre.issued@.len() as int]@ == t
    }

    /// Runtime counterpart of [`AuthStore::has_root`].
    fn find_root(&self) -> (r: bool)
        ensures
            r == self.has_root(),
    {
        let mut i: usize = 0;
        let n = self.accounts.len();
        while i < n
            invariant
                n == self.accounts@.len(),
                i <= n,
                forall|j: int| 0 <= j < i ==> self.accounts@[j].role != Role::Root,
            decreases n - i,
        {
            if self.accounts[i].role.covers(Role::Root) {
                return true;
            }
            i = i + 1;
        }
        false
    }

    /// Opens an account. A user account is open to anyone; an admin account
    /// only to a caller presenting a token of admin or root standing; a
    /// root account never — such a request fails with `Unauthorized` whatever the
    /// rest of the request looks like. A taken username fails with
    /// `AccountExists`. On success the account starts with a fresh salted
    /// credential and no tokens; a failed signup leaves the store
    /// untouched.
    pub fn signup(
        &mut self,
        username: &[u8],
        password: &[u8],
        role: Role,
        presented: Option<&[u8]>,
    ) -> (r: Result<(), AuthError>)
        requires
            old(self).wf(),
            password@.len() <= 0xFFFF_FFFF,
        ensures
            final(self).wf(),
            (r == Err::<(), AuthError>(AuthError::Unauthorized)) <==> !signup_authorized(
                *old(self),
                role,
                opt_token_view(presented),
            ),
            (r == Err::<(), AuthError>(AuthError::AccountExists)) <==> (signup_authorized(
                *old(self),
                role,
                opt_token_view(presented),
            ) && old(self).has_account(username@)),
            r is Ok <==> (signup_authorized(*old(self), role, opt_token_view(presented)) && !old(
                self,
            ).has_account(username@)),
            r is Ok ==> Self::signup_post(*old(self), *final(self), username@, role, password@),
            !(r is Ok) ==> *final(self) == *old(self),
    {
        let authorized = match role {
            Role::User => true,
            Role::Admin => match presented {
                Some(t) => self.validate(t, Role::Admin).is_some(),
                None => false,
            },
            Role::Root => false,
        };
        if !authorized {
            return Err(AuthError::Unauthorized);
        }
        match self.find_index(username) {
            Some(_) => Err(AuthError::AccountExists),
            None => {
                let ghost pre = *self;
                let account = Account {
                    username: vstd::slice::slice_to_vec(username),
                    role,
                    password: Password::hash_password(password),
                    tokens: Vec::new(),
                };
                self.accounts.push(account);
                proof {
                    lemma_new_account_wf(pre, *self, username@);
                }
                Ok(())
            },
        }
    }

    /// Checks the password against the named account's credential and, when
    /// it matches, issues a fresh token for the session. A missing account
    /// and a wrong password yield the same empty outcome, and — with
    /// negligible probability — so does a random draw that repeats an
    /// already issued token string; in every empty outcome the store is
    /// left untouched.
    pub fn login(&mut self, username: &[u8], password: &[u8]) -> (r: Option<Vec<u8>>)
        requires
            old(self).wf(),
        ensures
            final(self).wf(),
            r is None ==> *final(self) == *old(self),
            !old(self).password_accepted(username@, password@) ==> r is None,
            r matches Some(t) ==> old(self).password_accepted(username@, password@) && !old(
                self,
            ).token_issued(t@) && Self::issue_post(*old(self), *final(self), username@, t@),
    {
        let idx = match self.find_index(username) {
            Some(i) => i,
            None => {
                return None;
            },
        };
        if !self.accounts[idx].password.is_correct_password(password) {
            proof {
                lemma_username_unique(*self, idx as int, username@);
            }
            return None;
        }
        self.issue(username)
    }

    /// Idempotent bootstrap of the root principal: a no-op whenever a root
    /// account already exists, so process start-up may call it
    /// unconditionally and in any order. Otherwise it creates the root
    /// account with a credential hashed from the operator-supplied password
    /// and with the operator-supplied out-of-band token as its first
    /// session token. Returns whether it created the account.
    pub fn ensure_root_account(
        &mut self,
        username: &[u8],
        password: &[u8],
        initial_token: &[u8],
    ) -> (r: bool)
        requires
            old(self).wf(),
            password@.len() <= 0xFFFF_FFFF,
        ensures
            final(self).wf(),
            r == (!old(self).has_root() && !old(self).has_account(username@) && !old(
                self,
            ).token_issued(initial_token@)),
            !r ==> *final(self) == *old(self),
            r ==> Self::bootstrap_post(*old(self), *final(self), username@, password@,
            initial_token@),
    {
        if self.find_root() {
            return false;
        }
        if self.find_index(username).is_some() {
            return false;
        }
        if self.is_issued(initial_token) {
            return false;
        }
        let ghost pre = *self;
        let mut first_tokens: Vec<Vec<u8>> = Vec::new();
        first_tokens.push(vstd::slice::slice_to_vec(initial_token));
        let account = Account {
            username: vstd::slice::slice_to_vec(username),
            role: Role::Root,
            password: Password::hash_password(password),
            tokens: first_tokens,
        };
        self.accounts.push(account);
        self.issued.push(vstd::slice::slice_to_vec(initial_token));
        proof {
            lemma_bootstrap_wf(pre, *self, username@, initial_token@);
        }
        true
    }
}

/// The store stays well-formed when a fresh account with no tokens is
/// appended under an unused username.
proof fn lemma_new_account_wf(pre: AuthStore, post: AuthStore, u: Seq<u8>)
    requires
        pre.wf(),
        !pre.has_account(u),
        post.accounts@.len() == pre.accounts@.len() + 1,
        forall|j: int| 0 <= j < pre.accounts@.len() ==> post.accounts@[j] == pre.accounts@[j],
        post.accounts@[pre.accounts@.len() as int].username@ == u,
        post.accounts@[pre.accounts@.len() as int].tokens@.len() == 0,
        post.issued == pre.issued,
    ensures
        post.wf(),
{
    let last = pre.accounts@.len() as int;
    assert forall|i: int, j: int|
        0 <= i < j < post.accounts@.len() implies post.accounts@[i].username@
        != post.accounts@[j].username@ by {
        if j == last {
            assert(post.accounts@[i].username@ == pre.accounts@[i].username@);
        }
    }
    assert forall|i: int, k: int|
        0 <= i < post.accounts@.len() && 0 <= k < post.accounts@[i].tokens@.len()
        implies post.token_issued(post.accounts@[i].tokens@[k]@) by {
        assert(i != last);
        assert(pre.token_issued(pre.accounts@[i].tokens@[k]@));
        let m = choose|m: int|
            0 <= m < pre.issued@.len() && pre.issued@[m]@ == pre.accounts@[i].tokens@[k]@;
        assert(post.issued@[m]@ == post.accounts@[i].tokens@[k]@);
    }
}

/// The store stays well-formed when the bootstrap appends the root account
/// with its single, never-before-issued token.
proof fn lemma_bootstrap_wf(pre: AuthStore, post: AuthStore, u: Seq<u8>, t: Seq<u8>)
    requires
        pre.wf(),
        !pre.has_account(u),
        !pre.token_issued(t),
        post.accounts@.len() == pre.accounts@.len() + 1,
        forall|j: int| 0 <= j < pre.accounts@.len() ==> post.accounts@[j] == pre.accounts@[j],
        post.accounts@[pre.accounts@.len() as int].username@ == u,
        post.accounts@[pre.accounts@.len() as int].tokens@.len() == 1,
        post.accounts@[pre.accounts@.len() as int].tokens@[0]@ == t,
        post.issued@.len() == pre.issued@.len() + 1,
        forall|m: int| 0 <= m < pre.issued@.len() ==> post.issued@[m] == pre.issued@[m],
        post.issued@[pre.issued@.len() as int]@ == t,
    ensures
        post.wf(),
{
    let last = pre.accounts@.len() as int;
    assert forall|i: int, j: int|
        0 <= i < j < post.accounts@.len() implies post.accounts@[i].username@
        != post.accounts@[j].username@ by {
        if j == last {
            assert(post.accounts@[i].username@ == pre.accounts@[i].username@);
        }
    }
    // Every token active in pre is issued in pre, hence differs from t.
    assert forall|i: int, k: int|
        0 <= i < pre.accounts@.len() && 0 <= k < pre.accounts@[i].tokens@.len()
        implies pre.accounts@[i].tokens@[k]@ != t by {
        assert(pre.token_issued(pre.accounts@[i].tokens@[k]@));
    }
    assert forall|i: int, k: int|
        0 <= i < post.accounts@.len() && 0 <= k < post.accounts@[i].tokens@.len()
        implies post.token_issued(post.accounts@[i].tokens@[k]@) by {
        if i == last {
            assert(post.issued@[pre.issued@.len() as int]@ == t);
        } else {
            assert(pre.token_issued(pre.accounts@[i].tokens@[k]@));
            let m = choose|m: int|
                0 <= m < pre.issued@.len() && pre.issued@[m]@ == pre.accounts@[i].tokens@[k]@;
            assert(post.issued@[m]@ == post.accounts@[i].tokens@[k]@);
        }
    }
}

/// In a well-formed store, only index `idx` carries its username.
proof fn lemma_username_unique(s: AuthStore, idx: int, u: Seq<u8>)
    requires
        s.wf(),
        0 <= idx < s.accounts@.len(),
        s.accounts@[idx].username@ == u,
    ensures
        forall|j: int| 0 <= j < s.accounts@.len() && s.accounts@[j].username@ == u ==> j == idx,
{
    assert forall|j: int|
        0 <= j < s.accounts@.len() && s.accounts@[j].username@ == u implies j == idx by {
        if j != idx {
            assert(s.accounts@[idx].username@ != s.accounts@[j].username@);
        }
    }
}

/// The store stays well-formed when one account's token set is cleared, and
/// the clearing does exactly what `revoke_all_post` says.
proof fn lemma_revoke_all_wf(pre: AuthStore, post: AuthStore, idx: int, u: Seq<u8>)
    requires
        pre.wf(),
        0 <= idx < pre.accounts@.len(),
        pre.accounts@[idx].username@ == u,
        pre.accounts@[idx].tokens@.len() > 0,
        post.accounts@.len() == pre.accounts@.len(),
        post.issued == pre.issued,
        forall|j: int| 0 <= j < pre.accounts@.len() && j != idx ==> post.accounts@[j]
            == pre.accounts@[j],
        post.accounts@[idx].username@ == u,
        post.accounts@[idx].role == pre.accounts@[idx].role,
        post.accounts@[idx].password == pre.accounts@[idx].password,
        post.accounts@[idx].tokens@.len() == 0,
    ensures
        post.wf(),
        AuthStore::revoke_all_post(pre, post, u),
{
    lemma_username_unique(pre, idx, u);
    assert forall|i: int, k: int|
        0 <= i < post.accounts@.len() && 0 <= k < post.accounts@[i].tokens@.len()
        implies post.token_issued(post.accounts@[i].tokens@[k]@) by {
        assert(i != idx);
        assert(pre.token_issued(pre.accounts@[i].tokens@[k]@));
        let m = choose|m: int|
            0 <= m < pre.issued@.len() && pre.issued@[m]@ == pre.accounts@[i].tokens@[k]@;
        assert(post.issued@[m]@ == post.accounts@[i].tokens@[k]@);
    }
}

/// The store stays well-formed when one token is removed from one account,
/// and the removal does exactly what `revoke_one_post` says.
proof fn lemma_revoke_one_wf(
    pre: AuthStore,
    post: AuthStore,
    idx: int,
    k: int,
    u: Seq<u8>,
    t: Seq<u8>,
)
    requires
        pre.wf(),
        0 <= idx < pre.accounts@.len(),
        pre.accounts@[idx].username@ == u,
        0 <= k < pre.accounts@[idx].tokens@.len(),
        pre.accounts@[idx].tokens@[k]@ == t,
        post.accounts@.len() == pre.accounts@.len(),
        post.issued == pre.issued,
        forall|j: int| 0 <= j < pre.accounts@.len() && j != idx ==> post.accounts@[j]
            == pre.accounts@[j],
        post.accounts@[idx].username@ == u,
        post.accounts@[idx].role == pre.accounts@[idx].role,
        post.accounts@[idx].password == pre.accounts@[idx].password,
        post.accounts@[idx].tokens@ == pre.accounts@[idx].tokens@.remove(k),
    ensures
        post.wf(),
        AuthStore::revoke_one_post(pre, post, u, t),
{
    lemma_username_unique(pre, idx, u);
    let pt = pre.accounts@[idx].tokens@;
    let qt = post.accounts@[idx].tokens@;
    // Where each surviving token of the edited account came from.
    assert forall|l: int| 0 <= l < qt.len() implies qt[l] == pt[if l < k {
        l
    } else {
        l + 1
    }] by {}
    // The revoked token is gone: every other index of the account held a
    // different string.
    assert forall|l: int| 0 <= l < qt.len() implies qt[l]@ != t by {
        if l < k {
            assert(pt[l]@ != pt[k]@);
        } else {
            assert(pt[l + 1]@ != pt[k]@);
        }
    }
    // Tokens other than the revoked one keep their standing.
    assert forall|t2: Seq<u8>|
        t2 != t implies (account_has_token(post.accounts@[idx], t2) <==> account_has_token(
        pre.accounts@[idx],
        t2,
    )) by {
        if account_has_token(post.accounts@[idx], t2) {
            let l = choose|l: int| 0 <= l < qt.len() && qt[l]@ == t2;
            if l < k {
                assert(pt[l]@ == t2);
            } else {
                assert(pt[l + 1]@ == t2);
            }
        }
        if account_has_token(pre.accounts@[idx], t2) {
            let l = choose|l: int| 0 <= l < pt.len() && pt[l]@ == t2;
            assert(l != k);
            if l < k {
                assert(qt[l]@ == t2);
            } else {
                assert(qt[l - 1]@ == t2);
            }
        }
    }
    // Well-formedness: the edited account's tokens are a subset of the old
    // ones; everything else is untouched.
    assert forall|i: int, kk: int|
        0 <= i < post.accounts@.len() && 0 <= kk < post.accounts@[i].tokens@.len()
        implies post.token_issued(post.accounts@[i].tokens@[kk]@) by {
        let v = post.accounts@[i].tokens@[kk]@;
        if i == idx {
            assert(v == pt[if kk < k {
                kk
            } else {
                kk + 1
            }]@);
        }
        assert(pre.token_issued(v));
        let m = choose|m: int| 0 <= m < pre.issued@.len() && pre.issued@[m]@ == v;
        assert(post.issued@[m]@ == v);
    }
    assert forall|i: int, kk: int, ll: int|
        0 <= i < post.accounts@.len() && 0 <= kk < ll < post.accounts@[i].tokens@.len()
        implies post.accounts@[i].tokens@[kk]@ != post.accounts@[i].tokens@[ll]@ by {
        if i == idx {
            let k0 = if kk < k {
                kk
            } else {
                kk + 1
            };
            let l0 = if ll < k {
                ll
            } else {
                ll + 1
            };
            assert(pt[k0]@ != pt[l0]@);
        }
    }
    assert forall|i: int, j: int, kk: int, ll: int|
        0 <= i < j < post.accounts@.len() && 0 <= kk < post.accounts@[i].tokens@.len() && 0 <= ll
            < post.accounts@[j].tokens@.len() implies post.accounts@[i].tokens@[kk]@
        != post.accounts@[j].tokens@[ll]@ by {
        let k0 = if i == idx && kk >= k {
            kk + 1
        } else {
            kk
        };
        let l0 = if j == idx && ll >= k {
            ll + 1
        } else {
            ll
        };
        assert(post.accounts@[i].tokens@[kk]@ == pre.accounts@[i].tokens@[k0]@);
        assert(post.accounts@[j].tokens@[ll]@ == pre.accounts@[j].tokens@[l0]@);
    }
}

/// The store stays well-formed when an account is removed, and the removal
/// does exactly what `delete_account_post` says.
proof fn lemma_delete_account_wf(pre: AuthStore, post: AuthStore, idx: int, u: Seq<u8>)
    requires
        pre.wf(),
        0 <= idx < pre.accounts@.len(),
        pre.accounts@[idx].username@ == u,
        forall|j: int| 0 <= j < pre.accounts@.len() && pre.accounts@[j].username@ == u ==> j == idx,
        post.accounts@ == pre.accounts@.remove(idx),
        post.issued == pre.issued,
    ensures
        post.wf(),
        AuthStore::delete_account_post(pre, post, u),
        !post.has_account(u),
{
    assert forall|j: int| 0 <= j < post.accounts@.len() implies post.accounts@[j]
        == pre.accounts@[if j < idx {
        j
    } else {
        j + 1
    }] by {}
    assert forall|i: int, k: int|
        0 <= i < post.accounts@.len() && 0 <= k < post.accounts@[i].tokens@.len()
        implies post.token_issued(post.accounts@[i].tokens@[k]@) by {
        let i0 = if i < idx {
            i
        } else {
            i + 1
        };
        assert(pre.token_issued(pre.accounts@[i0].tokens@[k]@));
        let m = choose|m: int|
            0 <= m < pre.issued@.len() && pre.issued@[m]@ == pre.accounts@[i0].tokens@[k]@;
        assert(post.issued@[m]@ == post.accounts@[i].tokens@[k]@);
    }
    assert forall|i: int, j: int, kk: int, ll: int|
        0 <= i < j < post.accounts@.len() && 0 <= kk < post.accounts@[i].tokens@.len() && 0 <= ll
            < post.accounts@[j].tokens@.len() implies post.accounts@[i].tokens@[kk]@
        != post.accounts@[j].tokens@[ll]@ by {
        let i0 = if i < idx {
            i
        } else {
            i + 1
        };
        let j0 = if j < idx {
            j
        } else {
            j + 1
        };
        assert(pre.accounts@[i0].tokens@[kk]@ != pre.accounts@[j0].tokens@[ll]@);
    }
    assert(!post.has_account(u)) by {
        if post.has_account(u) {
            let j = choose|j: int|
                0 <= j < post.accounts@.len() && post.accounts@[j].username@ == u;
            let j0 = if j < idx {
                j
            } else {
                j + 1
            };
            assert(pre.accounts@[j0].username@ == u);
        }
    }
}

/// The store stays well-formed across an issuance, and the issued token is
/// active on the target account afterwards.
proof fn lemma_issue_token_wf(pre: AuthStore, post: AuthStore, idx: int, u: Seq<u8>, t: Seq<u8>)
    requires
        pre.wf(),
        !pre.token_issued(t),
        0 <= idx < pre.accounts@.len(),
        pre.accounts@[idx].username@ == u,
        post.accounts@.len() == pre.accounts@.len(),
        forall|j: int| 0 <= j < pre.accounts@.len() && j != idx ==> post.accounts@[j]
            == pre.accounts@[j],
        post.accounts@[idx].username@ == u,
        post.accounts@[idx].role == pre.accounts@[idx].role,
        post.accounts@[idx].password == pre.accounts@[idx].password,
        post.accounts@[idx].tokens@ == pre.accounts@[idx].tokens@.push(
            post.accounts@[idx].tokens@[pre.accounts@[idx].tokens@.len() as int],
        ),
        post.accounts@[idx].tokens@[pre.accounts@[idx].tokens@.len() as int]@ == t,
        post.issued@ == pre.issued@.push(post.issued@[pre.issued@.len() as int]),
        post.issued@[pre.issued@.len() as int]@ == t,
    ensures
        post.wf(),
        AuthStore::issue_post(pre, post, u, t),
{
    let accs = post.accounts@;
    // Any account index other than idx is untouched; idx gained exactly t.
    assert forall|j: int|
        0 <= j < pre.accounts@.len() && pre.accounts@[j].username@ == u implies j == idx by {
        if j != idx {
            assert(pre.accounts@[idx].username@ != pre.accounts@[j].username@);
        }
    }
    // Active tokens of pre are issued in pre, hence differ from t.
    assert forall|i: int, k: int|
        0 <= i < pre.accounts@.len() && 0 <= k < pre.accounts@[i].tokens@.len()
        implies pre.accounts@[i].tokens@[k]@ != t by {
        assert(pre.token_issued(pre.accounts@[i].tokens@[k]@));
    }
    // Every active token of post is in post's issued log.
    assert forall|i: int, k: int|
        0 <= i < accs.len() && 0 <= k < accs[i].tokens@.len() implies post.token_issued(
        accs[i].tokens@[k]@,
    ) by {
        if i == idx && k == pre.accounts@[idx].tokens@.len() {
            assert(post.issued@[pre.issued@.len() as int]@ == t);
        } else {
            assert(accs[i].tokens@[k]@ == pre.accounts@[i].tokens@[k]@);
            assert(pre.token_issued(pre.accounts@[i].tokens@[k]@));
            let m = choose|m: int|
                0 <= m < pre.issued@.len() && pre.issued@[m]@ == pre.accounts@[i].tokens@[k]@;
            assert(post.issued@[m]@ == accs[i].tokens@[k]@);
        }
    }
}

/// A token binds to at most one username: whatever roles are demanded, two
/// bindings of the same token name the same account.
pub proof fn lemma_token_binds_unique(
    s: AuthStore,
    t: Seq<u8>,
    u1: Seq<u8>,
    u2: Seq<u8>,
    r1: Role,
    r2: Role,
)
    requires
        s.wf(),
        s.token_binds(t, u1, r1),
        s.token_binds(t, u2, r2),
    ensures
        u1 == u2,
{
    let i1 = choose|i: int|
        0 <= i < s.accounts@.len() && s.accounts@[i].username@ == u1 && account_has_token(
            s.accounts@[i],
            t,
        ) && role_covers(s.accounts@[i].role, r1);
    let i2 = choose|i: int|
        0 <= i < s.accounts@.len() && s.accounts@[i].username@ == u2 && account_has_token(
            s.accounts@[i],
            t,
        ) && role_covers(s.accounts@[i].role, r2);
    if i1 != i2 {
        let k1 = choose|k: int|
            0 <= k < s.accounts@[i1].tokens@.len() && s.accounts@[i1].tokens@[k]@ == t;
        let k2 = choose|k: int|
            0 <= k < s.accounts@[i2].tokens@.len() && s.accounts@[i2].tokens@[k]@ == t;
        assert(false);
    }
}

/// In a well-formed store a token is active on at most one account: if it
/// is active on the account at `i`, it is on no other.
proof fn lemma_token_only_at(s: AuthStore, i: int, t: Seq<u8>)
    requires
        s.wf(),
        0 <= i < s.accounts@.len(),
        account_has_token(s.accounts@[i], t),
    ensures
        forall|j: int|
            0 <= j < s.accounts@.len() && j != i ==> !account_has_token(s.accounts@[j], t),
{
    let k = choose|k: int| 0 <= k < s.accounts@[i].tokens@.len() && s.accounts@[i].tokens@[k]@ == t;
    assert forall|j: int|
        0 <= j < s.accounts@.len() && j != i implies !account_has_token(s.accounts@[j], t) by {
        if account_has_token(s.accounts@[j], t) {
            let l = choose|l: int|
                0 <= l < s.accounts@[j].tokens@.len() && s.accounts@[j].tokens@[l]@ == t;
            lemma_active_tokens_distinct(s, i, k, j, l);
        }
    }
}

/// Revoking one token revokes it everywhere: after `revoke_one` on the
/// account a token is bound to, that token is active nowhere in the store.
pub proof fn lemma_revoke_one_revokes(pre: AuthStore, post: AuthStore, u: Seq<u8>, t: Seq<u8>)
    requires
        pre.wf(),
        AuthStore::revoke_one_post(pre, post, u, t),
        pre.token_binds(t, u, Role::User),
    ensures
        !post.token_active(t),
{
    let i = choose|i: int|
        0 <= i < pre.accounts@.len() && pre.accounts@[i].username@ == u && account_has_token(
            pre.accounts@[i],
            t,
        ) && role_covers(pre.accounts@[i].role, Role::User);
    lemma_token_only_at(pre, i, t);
    lemma_username_unique(pre, i, u);
    if post.token_active(t) {
        let j = choose|j: int|
            0 <= j < post.accounts@.len() && account_has_token(post.accounts@[j], t);
        if pre.accounts@[j].username@ == u {
            assert(!account_has_token(post.accounts@[j], t));
        } else {
            assert(post.accounts@[j] == pre.accounts@[j]);
            assert(j != i);
        }
    }
}

/// Revoking one token leaves every other binding standing: a different
/// token bound to any account before `revoke_one` is still bound to it
/// after, with the same standing.
pub proof fn lemma_revoke_one_keeps_others(
    pre: AuthStore,
    post: AuthStore,
    u: Seq<u8>,
    t: Seq<u8>,
    t2: Seq<u8>,
    u2: Seq<u8>,
    required: Role,
)
    requires
        pre.wf(),
        AuthStore::revoke_one_post(pre, post, u, t),
        t2 != t,
        pre.token_binds(t2, u2, required),
    ensures
        post.token_binds(t2, u2, required),
{
    let i = choose|i: int|
        0 <= i < pre.accounts@.len() && pre.accounts@[i].username@ == u2 && account_has_token(
            pre.accounts@[i],
            t2,
        ) && role_covers(pre.accounts@[i].role, required);
    if pre.accounts@[i].username@ == u {
        assert(account_has_token(post.accounts@[i], t2) <==> account_has_token(
            pre.accounts@[i],
            t2,
        ));
        assert(post.accounts@[i].username@ == u2 && account_has_token(post.accounts@[i], t2)
            && role_covers(post.accounts@[i].role, required));
    } else {
        assert(post.accounts@[i] == pre.accounts@[i]);
    }
}

/// Revoking all of an account's tokens invalidates every one of them: no
/// token previously bound to the account is active anywhere afterwards.
pub proof fn lemma_revoke_all_revokes(pre: AuthStore, post: AuthStore, u: Seq<u8>, t: Seq<u8>)
    requires
        pre.wf(),
        AuthStore::revoke_all_post(pre, post, u),
        pre.token_binds(t, u, Role::User),
    ensures
        !post.token_active(t),
{
    let i = choose|i: int|
        0 <= i < pre.accounts@.len() && pre.accounts@[i].username@ == u && account_has_token(
            pre.accounts@[i],
            t,
        ) && role_covers(pre.accounts@[i].role, Role::User);
    lemma_token_only_at(pre, i, t);
    if post.token_active(t) {
        let j = choose|j: int|
            0 <= j < post.accounts@.len() && account_has_token(post.accounts@[j], t);
        if pre.accounts@[j].username@ == u {
            assert(post.accounts@[j].tokens@.len() == 0);
        } else {
            assert(post.accounts@[j] == pre.accounts@[j]);
            assert(j != i);
        }
    }
}

/// Revoking all tokens twice is the same as doing it once: the second
/// revocation finds nothing to clear and leaves the store exactly as the
/// first left it.
pub proof fn lemma_revoke_all_idempotent(
    pre: AuthStore,
    mid: AuthStore,
    post: AuthStore,
    u: Seq<u8>,
)
    requires
        AuthStore::revoke_all_post(pre, mid, u),
        AuthStore::revoke_all_post(mid, post, u),
    ensures
        post == mid,
{
    assert forall|j: int|
        0 <= j < mid.accounts@.len() && mid.accounts@[j].username@ == u
        implies mid.accounts@[j].tokens@.len() == 0 by {
        if pre.accounts@[j].username@ != u {
            assert(mid.accounts@[j] == pre.accounts@[j]);
        }
    }
}

/// Account deletion cascades: after `delete_account`, no token that was
/// bound to the deleted account is active anywhere.
pub proof fn lemma_delete_account_revokes(pre: AuthStore, post: AuthStore, u: Seq<u8>, t: Seq<u8>)
    requires
        pre.wf(),
        AuthStore::delete_account_post(pre, post, u),
        pre.token_binds(t, u, Role::User),
    ensures
        !post.token_active(t),
{
    let i = choose|i: int|
        0 <= i < pre.accounts@.len() && pre.accounts@[i].username@ == u && account_has_token(
            pre.accounts@[i],
            t,
        ) && role_covers(pre.accounts@[i].role, Role::User);
    lemma_token_only_at(pre, i, t);
    lemma_username_unique(pre, i, u);
    assert(pre.has_account(u));
    let i0 = choose|i0: int|
        0 <= i0 < pre.accounts@.len() && pre.accounts@[i0].username@ == u && post.accounts@
            == pre.accounts@.remove(i0);
    assert(i0 == i);
    if post.token_active(t) {
        let j = choose|j: int|
            0 <= j < post.accounts@.len() && account_has_token(post.accounts@[j], t);
        let j0 = if j < i {
            j
        } else {
            j + 1
        };
        assert(post.accounts@[j] == pre.accounts@[j0]);
        assert(j0 != i);
    }
}

/// The issued log never repeats: two distinct entries hold distinct token
/// strings, so no run of issuance, over however many accounts, produces the
/// same token twice.
pub proof fn lemma_issued_tokens_distinct(s: AuthStore)
    requires
        s.wf(),
    ensures
        forall|m: int, n: int|
            0 <= m < n < s.issued@.len() ==> s.issued@[m]@ != s.issued@[n]@,
{
}

/// No token string is active twice: not twice on one account, and not on
/// two different accounts.
pub proof fn lemma_active_tokens_distinct(s: AuthStore, i: int, k: int, j: int, l: int)
    requires
        s.wf(),
        0 <= i < s.accounts@.len(),
        0 <= j < s.accounts@.len(),
        0 <= k < s.accounts@[i].tokens@.len(),
        0 <= l < s.accounts@[j].tokens@.len(),
        i != j || k != l,
    ensures
        s.accounts@[i].tokens@[k]@ != s.accounts@[j].tokens@[l]@,
{
}

} // verus!
