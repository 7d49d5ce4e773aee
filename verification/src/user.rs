//! Accounts and their credentials: signup and login.
//!
//! The directory stores one account per username and exactly one credential
//! per account. Fresh identifiers are minted from the store's size, so their
//! freshness is a proved property rather than a probabilistic one.

use vstd::prelude::*;

use crate::error::ModelError;
use crate::ident::{dec_of, decimal_string, lemma_dec_of_injective};
use crate::text::str_eq;
use crate::vault::{
    argon2_hash_of, argon2_verifies, hash_password, verify_password, MAX_PASSWORD_BYTES,
};
use vstd::utf8::encode_utf8;

verus! {

/// A registered account: an opaque identifier and its unique username.
#[derive(Debug, PartialEq, Eq)]
pub struct User {
    pub id: String,
    pub username: String,
}

/// The credential record backing an account: a salted password hash bound to
/// the account id.
#[derive(Debug, PartialEq, Eq)]
pub struct BasicAuthUser {
    pub id: String,
    pub password_hash: String,
    pub salt: String,
    pub user_id: String,
}

/// The credential store, holding one record per account.
pub struct BasicAuthUsers {
    creds: Vec<BasicAuthUser>,
}

impl BasicAuthUsers {
    /// The stored credential records.
    pub closed spec fn creds(&self) -> Seq<BasicAuthUser> {
        self.creds@
    }

    /// Every stored hash was produced by the password vault, so verifying
    /// against it can never fail structurally.
    pub closed spec fn wf(&self) -> bool {
        forall|i: int|
            0 <= i < self.creds@.len() ==> exists|p: Seq<char>, s: Seq<char>|
                (#[trigger] self.creds@[i]).password_hash@ == argon2_hash_of(p, s)
    }

    /// An empty credential store.
    pub fn new() -> (r: Self)
        ensures
            r.wf(),
            r.creds() == Seq::<BasicAuthUser>::empty(),
    {
        BasicAuthUsers { creds: Vec::new() }
    }

    /// Derives a salted hash for the password and stores a credential record
    /// binding it to `user_id`. Success is owed; only a password over
    /// Argon2's byte-length limit is refused.
    pub fn create_by_user_id_and_password(&mut self, user_id: &str, password: &str) -> (r: Result<
        BasicAuthUser,
        ModelError,
    >)
        requires
            old(self).wf(),
        ensures
            final(self).wf(),
            r matches Ok(c) ==> final(self).creds() == old(self).creds().push(c) && c.user_id@
                == user_id@ && c.password_hash@ == argon2_hash_of(password@, c.salt@)
                && argon2_verifies(password@, c.password_hash@),
            r matches Err(e) ==> e == ModelError::PasswordHashError && *final(self) == *old(self),
            r is Err ==> encode_utf8(password@).len() > MAX_PASSWORD_BYTES,
    {
        let hp = match hash_password(password) {
            Ok(hp) => hp,
            Err(e) => {
                return Err(e);
            },
        };
        let id = decimal_string(self.creds.len() as u64);
        let cred = BasicAuthUser {
            id,
            password_hash: hp.hash,
            salt: hp.salt,
            user_id: String::from_str(user_id),
        };
        let stored = BasicAuthUser {
            id: cred.id.clone(),
            password_hash: cred.password_hash.clone(),
            salt: cred.salt.clone(),
            user_id: cred.user_id.clone(),
        };
        self.creds.push(stored);
        proof {
            assert(self.creds@.last() == cred);
            assert(forall|i: int|
                0 <= i < old(self).creds@.len() ==> #[trigger] self.creds@[i] == old(
                    self,
                ).creds@[i]);
        }
        Ok(cred)
    }

    /// Verifies `password` against the credential stored for `user_id`.
    /// Zero or several matching records are a stored-data error; through
    /// `Users`, whose invariant keeps exactly one credential per account,
    /// that defensive branch is unreachable.
    pub fn verify_password_hash_by_user_id(&self, user_id: &str, password: &str) -> (r: Result<
        bool,
        ModelError,
    >)
        requires
            self.wf(),
        ensures
            r is Ok <==> ((exists|i: int|
                0 <= i < self.creds().len() && (#[trigger] self.creds()[i]).user_id@ == user_id@)
                && (forall|i: int, j: int|
                0 <= i < self.creds().len() && 0 <= j < self.creds().len() && (
                #[trigger] self.creds()[i]).user_id@ == user_id@ && (#[trigger] self.creds()[j]).user_id@
                    == user_id@ ==> i == j)),
            r matches Ok(b) ==> forall|i: int|
                0 <= i < self.creds().len() && (#[trigger] self.creds()[i]).user_id@ == user_id@
                    ==> b == argon2_verifies(password@, self.creds()[i].password_hash@),
            r matches Err(e) ==> e matches ModelError::Generic(_),
    {
        let n = self.creds.len();
        let mut found: usize = 0;
        let mut idx: usize = 0;
        let mut idx2: usize = 0;
        for j in 0..n
            invariant
                n == self.creds@.len(),
                found <= 2,
                found == 0 ==> forall|k: int|
                    0 <= k < j ==> (#[trigger] self.creds@[k]).user_id@ != user_id@,
                found == 1 ==> idx < j && self.creds@[idx as int].user_id@ == user_id@ && (forall|
                    k: int,
                |
                    0 <= k < j && (#[trigger] self.creds@[k]).user_id@ == user_id@ ==> k == idx),
                found == 2 ==> idx < idx2 < j && self.creds@[idx as int].user_id@ == user_id@
                    && self.creds@[idx2 as int].user_id@ == user_id@,
        {
            if str_eq(self.creds[j].user_id.as_str(), user_id) {
                if found == 0 {
                    idx = j;
                    found = 1;
                } else if found == 1 {
                    idx2 = j;
                    found = 2;
                }
            }
        }
        proof {
            if found == 1 {
                assert(self.creds()[idx as int].user_id@ == user_id@);
                assert(forall|i: int, j: int|
                    0 <= i < self.creds().len() && 0 <= j < self.creds().len() && (
                    #[trigger] self.creds()[i]).user_id@ == user_id@ && (
                    #[trigger] self.creds()[j]).user_id@ == user_id@ ==> i == j) by {
                    assert(forall|k: int|
                        0 <= k < self.creds@.len() && (#[trigger] self.creds@[k]).user_id@
                            == user_id@ ==> k == idx);
                }
            }
            if found == 2 {
                assert(self.creds()[idx as int].user_id@ == user_id@ && self.creds()[idx2 as int].user_id@
                    == user_id@ && idx != idx2);
            }
            if found == 0 {
                assert(forall|i: int|
                    0 <= i < self.creds().len() ==> (#[trigger] self.creds()[i]).user_id@
                        != user_id@);
            }
        }
        if found != 1 {
            let mut m = String::from_str("Error getting basic auth information for ID '");
            m.append(user_id);
            m.append("'");
            return Err(ModelError::Generic(m));
        }
        match verify_password(password, self.creds[idx].password_hash.as_str()) {
            Ok(b) => Ok(b),
            Err(_) => {
                proof {
                    let (p, s) = choose|p: Seq<char>, s: Seq<char>|
                        self.creds@[idx as int].password_hash@ == argon2_hash_of(p, s);
                    assert(self.creds@[idx as int].password_hash@ != argon2_hash_of(p, s));
                    assert(false);
                }
                Err(ModelError::PasswordHashError)
            },
        }
    }
}

/// Whether some stored account carries the given username.
pub open spec fn has_username(users: Seq<User>, name: Seq<char>) -> bool {
    exists|i: int| 0 <= i < users.len() && (#[trigger] users[i]).username@ == name
}

/// The account directory: accounts with their credential store.
pub struct Users {
    basic_auth_users: BasicAuthUsers,
    users: Vec<User>,
}

impl Users {
    /// The stored accounts.
    pub closed spec fn users(&self) -> Seq<User> {
        self.users@
    }

    /// The stored credential records, aligned with the accounts.
    pub closed spec fn creds(&self) -> Seq<BasicAuthUser> {
        self.basic_auth_users.creds()
    }

    /// Directory invariant: account ids are minted in order and unique,
    /// usernames are unique, and the i-th credential belongs to the i-th
    /// account — exactly one credential per account.
    pub closed spec fn wf(&self) -> bool {
        &&& self.basic_auth_users.wf()
        &&& forall|i: int|
            0 <= i < self.users@.len() ==> (#[trigger] self.users@[i]).id@ == dec_of(i as nat)
        &&& forall|i: int, j: int|
            0 <= i < j < self.users@.len() ==> (#[trigger] self.users@[i]).username@ != (
            #[trigger] self.users@[j]).username@
        &&& self.basic_auth_users.creds().len() == self.users@.len()
        &&& forall|i: int|
            0 <= i < self.users@.len() ==> (#[trigger] self.basic_auth_users.creds()[i]).user_id@
                == self.users@[i].id@
    }

    /// An empty account directory.
    pub fn new() -> (r: Self)
        ensures
            r.wf(),
            r.users() == Seq::<User>::empty(),
            r.creds() == Seq::<BasicAuthUser>::empty(),
    {
        Users { basic_auth_users: BasicAuthUsers::new(), users: Vec::new() }
    }

    /// What the directory invariant guarantees to callers: exactly one
    /// credential per account (the i-th credential belongs to the i-th
    /// account), and usernames and account ids are pairwise distinct.
    pub proof fn lemma_directory_alignment(&self)
        requires
            self.wf(),
        ensures
            self.creds().len() == self.users().len(),
            forall|i: int|
                0 <= i < self.users().len() ==> (#[trigger] self.creds()[i]).user_id@
                    == self.users()[i].id@,
            forall|i: int, j: int|
                0 <= i < j < self.users().len() ==> (#[trigger] self.users()[i]).username@ != (
                #[trigger] self.users()[j]).username@,
            forall|i: int, j: int|
                0 <= i < j < self.users().len() ==> (#[trigger] self.users()[i]).id@ != (
                #[trigger] self.users()[j]).id@,
    {
        assert forall|i: int, j: int|
            0 <= i < j < self.users().len() implies (#[trigger] self.users()[i]).id@ != (
        #[trigger] self.users()[j]).id@ by {
            if self.users()[i].id@ == self.users()[j].id@ {
                lemma_dec_of_injective(i as nat, j as nat);
            }
        };
    }

    /// Registers a new account: fails if the username is taken, otherwise
    /// mints a fresh id and stores the account together with a credential
    /// derived from the password. On a free username, success is owed up to
    /// Argon2's password byte-length limit.
    pub fn signup_with_basic_auth(&mut self, username: &str, password: &str) -> (r: Result<
        User,
        ModelError,
    >)
        requires
            old(self).wf(),
        ensures
            final(self).wf(),
            r matches Ok(u) ==> !has_username(old(self).users(), username@) && u.username@
                == username@ && u.id@ == dec_of(old(self).users().len() as nat)
                && final(self).users() == old(self).users().push(u)
                && final(self).creds().len() == old(self).creds().len() + 1
                && final(self).creds().last().user_id@ == u.id@
                && argon2_verifies(password@, final(self).creds().last().password_hash@),
            r matches Ok(u) ==> forall|i: int|
                0 <= i < old(self).users().len() ==> (#[trigger] old(self).users()[i]).id@
                    != u.id@,
            r matches Err(e) ==> *final(self) == *old(self) && (e matches
            ModelError::DuplicateUsername(_) || e == ModelError::PasswordHashError),
            r is Err ==> has_username(old(self).users(), username@) || encode_utf8(
                password@,
            ).len() > MAX_PASSWORD_BYTES,
            r is Err && r->Err_0 is DuplicateUsername ==> has_username(
                old(self).users(),
                username@,
            ) && r->Err_0->DuplicateUsername_0@ == username@,
            has_username(old(self).users(), username@) ==> r is Err
                && r->Err_0 is DuplicateUsername && r->Err_0->DuplicateUsername_0@ == username@,
    {
        let n = self.users.len();
        for i in 0..n
            invariant
                *self == *old(self),
                old(self).wf(),
                n == self.users@.len(),
                forall|k: int| 0 <= k < i ==> (#[trigger] self.users@[k]).username@ != username@,
        {
            if str_eq(self.users[i].username.as_str(), username) {
                return Err(ModelError::DuplicateUsername(String::from_str(username)));
            }
        }
        proof {
            assert(!has_username(self.users(), username@));
        }
        let id = decimal_string(n as u64);
        let cred = match self.basic_auth_users.create_by_user_id_and_password(
            id.as_str(),
            password,
        ) {
            Ok(c) => c,
            Err(e) => {
                proof {
                    assert(*self == *old(self));
                }
                return Err(e);
            },
        };
        let user = User { id, username: String::from_str(username) };
        let stored = User { id: user.id.clone(), username: user.username.clone() };
        proof {
            assert(stored == user);
        }
        self.users.push(stored);
        proof {
            assert(forall|k: int|
                0 <= k < n ==> #[trigger] self.users@[k] == old(self).users@[k]);
            assert(self.users@[n as int] == user);
            assert(user.id@ == dec_of(n as nat));
            assert(self.basic_auth_users.creds() == old(self).basic_auth_users.creds().push(cred));
            assert(self.basic_auth_users.creds()[n as int] == cred);
            assert(forall|k: int|
                0 <= k < n ==> #[trigger] self.basic_auth_users.creds()[k] == old(
                    self,
                ).basic_auth_users.creds()[k]);
            assert(self.wf());
            assert forall|i: int|
                0 <= i < old(self).users().len() implies (#[trigger] old(self).users()[i]).id@
                != user.id@ by {
                if old(self).users()[i].id@ == user.id@ {
                    lemma_dec_of_injective(i as nat, n as nat);
                }
            };
        }
        Ok(user)
    }

    /// Looks the account up by username and checks the password against its
    /// stored credential: a missing account and a wrong password are distinct
    /// errors (collapsed later at the request boundary).
    pub fn login_with_basic_auth(&self, username: &str, password: &str) -> (r: Result<
        User,
        ModelError,
    >)
        requires
            self.wf(),
        ensures
            !has_username(self.users(), username@) ==> (r matches Err(e) && e matches
            ModelError::UserDoesNotExist(nm) && nm@ == username@),
            forall|i: int|
                0 <= i < self.users().len() && (#[trigger] self.users()[i]).username@ == username@
                    ==> ((argon2_verifies(password@, self.creds()[i].password_hash@) ==> (
                r matches Ok(u) && u == self.users()[i])) && (!argon2_verifies(
                    password@,
                    self.creds()[i].password_hash@,
                ) ==> r == Err::<User, ModelError>(ModelError::AuthenticationFailed))),
    {
        let n = self.users.len();
        let mut midx: usize = 0;
        let mut found = false;
        for i in 0..n
            invariant
                n == self.users@.len(),
                !found ==> forall|k: int|
                    0 <= k < i ==> (#[trigger] self.users@[k]).username@ != username@,
                found ==> midx < i && self.users@[midx as int].username@ == username@,
        {
            if !found && str_eq(self.users[i].username.as_str(), username) {
                midx = i;
                found = true;
            }
        }
        if !found {
            proof {
                assert(!has_username(self.users(), username@));
            }
            return Err(ModelError::UserDoesNotExist(String::from_str(username)));
        }
        let u = &self.users[midx];
        proof {
            assert(self.creds()[midx as int].user_id@ == u.id@);
            assert forall|i: int, j: int|
                0 <= i < self.creds().len() && 0 <= j < self.creds().len() && (
                #[trigger] self.creds()[i]).user_id@ == u.id@ && (#[trigger] self.creds()[j]).user_id@
                == u.id@ implies i == j by {
                assert(self.creds()[i].user_id@ == dec_of(i as nat));
                assert(self.creds()[j].user_id@ == dec_of(j as nat));
                lemma_dec_of_injective(i as nat, j as nat);
            };
            assert forall|i: int|
                0 <= i < self.users().len() && (#[trigger] self.users()[i]).username@ == username@
                implies i == midx as int by {
                if i != midx as int {
                    assert(self.users@[i].username@ != self.users@[midx as int].username@);
                }
            };
        }
        let authenticated = match self.basic_auth_users.verify_password_hash_by_user_id(
            u.id.as_str(),
            password,
        ) {
            Ok(b) => b,
            Err(_) => {
                proof {
                    assert(false);
                }
                return Err(ModelError::AuthenticationFailed);
            },
        };
        if !authenticated {
            return Err(ModelError::AuthenticationFailed);
        }
        let result = User { id: u.id.clone(), username: u.username.clone() };
        proof {
            assert(result == self.users@[midx as int]);
        }
        Ok(result)
    }
}

} // verus!
