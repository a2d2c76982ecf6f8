//! User directory: identity records with globally unique emails and
//! usernames, dense sequential ids, and password fields that hold only
//! salted hashes. Signup, signin, lookup and partial update live here.

use crate::credentials::{
    hash_chars, hash_password, issue_token, lemma_hash_not_plaintext, lemma_token_roundtrip,
    lemma_verify_own_hash, lemma_verify_unique, now_seconds, token_decode, verify, verify_spec,
};
use crate::errors::AppError;
use crate::hex::str_eq;
use vstd::prelude::*;
use vstd::string::StringExecFns;

verus! {

/// Mathematical image of one user row.
pub ghost struct UserV {
    pub id: u128,
    pub email: Seq<char>,
    pub username: Seq<char>,
    pub password: Seq<char>,
    pub bio: Option<Seq<char>>,
    pub image: Option<Seq<char>>,
    pub created_at: i64,
    pub updated_at: i64,
}

/// One identity record. The password field holds the salted hash a signup
/// computed, never the plaintext.
#[derive(Debug)]
pub struct User {
    pub id: u128,
    pub email: String,
    pub username: String,
    pub password: String,
    pub bio: Option<String>,
    pub image: Option<String>,
    pub created_at: i64,
    pub updated_at: i64,
}

impl View for User {
    type V = UserV;

    open spec fn view(&self) -> UserV {
        UserV {
            id: self.id,
            email: self.email@,
            username: self.username@,
            password: self.password@,
            bio: match self.bio {
                Some(b) => Some(b@),
                None => None,
            },
            image: match self.image {
                Some(m) => Some(m@),
                None => None,
            },
            created_at: self.created_at,
            updated_at: self.updated_at,
        }
    }
}

/// The record a signup inserts, already hashed.
pub struct SignupUser {
    pub email: String,
    pub username: String,
    pub password: String,
}

/// A partial change to one user; absent fields stay as they are. Callers
/// that change the password hand in an already-hashed value.
pub struct UpdateUser {
    pub email: Option<String>,
    pub username: Option<String>,
    pub password: Option<String>,
    pub image: Option<String>,
    pub bio: Option<String>,
}

/// Some row of `s` carries email `e`.
pub open spec fn has_email(s: Seq<UserV>, e: Seq<char>) -> bool {
    exists|i: int| 0 <= i < s.len() && (#[trigger] s[i]).email == e
}

/// Some row of `s` carries username `u`.
pub open spec fn has_username(s: Seq<UserV>, u: Seq<char>) -> bool {
    exists|i: int| 0 <= i < s.len() && (#[trigger] s[i]).username == u
}

/// A row other than `except` carries email `e`.
pub open spec fn email_taken_by_other(s: Seq<UserV>, except: int, e: Seq<char>) -> bool {
    exists|j: int| 0 <= j < s.len() && j != except && (#[trigger] s[j]).email == e
}

/// A row other than `except` carries username `u`.
pub open spec fn username_taken_by_other(s: Seq<UserV>, except: int, u: Seq<char>) -> bool {
    exists|j: int| 0 <= j < s.len() && j != except && (#[trigger] s[j]).username == u
}

/// The error a signup reports on this directory state, if any: an empty
/// password is rejected by the hashing policy before the store is touched,
/// then each uniqueness constraint in turn.
pub open spec fn signup_outcome(
    s: Seq<UserV>,
    email: Seq<char>,
    username: Seq<char>,
    pw: Seq<char>,
) -> Option<AppError> {
    if pw.len() == 0 {
        Some(AppError::CredentialError)
    } else if has_email(s, email) {
        Some(AppError::DuplicateEmail)
    } else if has_username(s, username) {
        Some(AppError::DuplicateUsername)
    } else {
        None
    }
}

/// The owner of user identity records.
pub struct UserDirectory {
    pub rows: Vec<User>,
}

impl View for UserDirectory {
    type V = Seq<UserV>;

    open spec fn view(&self) -> Seq<UserV> {
        Seq::new(self.rows@.len(), |i: int| self.rows@[i]@)
    }
}

impl UserDirectory {
    /// Ids are dense insertion indices and emails and usernames are each
    /// globally unique: the constraints the storage layer enforces.
    pub open spec fn wf(&self) -> bool {
        &&& forall|i: int| 0 <= i < self@.len() ==> (#[trigger] self@[i]).id == i as u128
        &&& forall|i: int, j: int|
            0 <= i < j < self@.len() ==> (#[trigger] self@[i]).email != (#[trigger] self@[j]).email
        &&& forall|i: int, j: int|
            0 <= i < j < self@.len() ==> (#[trigger] self@[i]).username
                != (#[trigger] self@[j]).username
    }

    /// An empty directory, well formed by construction.
    pub fn new() -> (d: UserDirectory)
        ensures
            d@.len() == 0,
            d.wf(),
    {
        let d = UserDirectory { rows: Vec::new() };
        proof {
            assert(d@.len() == 0);
        }
        d
    }

    /// Index of the first row carrying `email`, if any.
    pub fn find_email_index(&self, email: &str) -> (r: Option<usize>)
        ensures
            match r {
                Some(i) => 0 <= i < self@.len() && self@[i as int].email == email@,
                None => !has_email(self@, email@),
            },
    {
        let n = self.rows.len();
        let mut i: usize = 0;
        while i < n
            invariant
                i <= n,
                n == self.rows@.len(),
                forall|j: int| 0 <= j < i ==> (#[trigger] self@[j]).email != email@,
            decreases n - i,
        {
            if str_eq(self.rows[i].email.as_str(), email) {
                return Some(i);
            }
            i = i + 1;
        }
        None
    }

    /// Index of the first row carrying `username`, if any.
    pub fn find_username_index(&self, username: &str) -> (r: Option<usize>)
        ensures
            match r {
                Some(i) => 0 <= i < self@.len() && self@[i as int].username == username@,
                None => !has_username(self@, username@),
            },
    {
        let n = self.rows.len();
        let mut i: usize = 0;
        while i < n
            invariant
                i <= n,
                n == self.rows@.len(),
                forall|j: int| 0 <= j < i ==> (#[trigger] self@[j]).username != username@,
            decreases n - i,
        {
            if str_eq(self.rows[i].username.as_str(), username) {
                return Some(i);
            }
            i = i + 1;
        }
        None
    }
}

/// A field-preserving copy of an optional string.
fn clone_opt(o: &Option<String>) -> (r: Option<String>)
    ensures
        (match r {
            Some(s) => o matches Some(t) && s@ == t@,
            None => o is None,
        }),
{
    match o {
        Some(s) => Some(s.clone()),
        None => None,
    }
}

impl User {
    /// A copy whose view equals this row's view.
    pub fn duplicate(&self) -> (u: User)
        ensures
            u@ == self@,
    {
        let u = User {
            id: self.id,
            email: self.email.clone(),
            username: self.username.clone(),
            password: self.password.clone(),
            bio: clone_opt(&self.bio),
            image: clone_opt(&self.image),
            created_at: self.created_at,
            updated_at: self.updated_at,
        };
        proof {
            assert(u@ == self@);
        }
        u
    }

    /// A fresh session token bound to this user's id, stamped with the
    /// wall clock (clamped to the epoch if the clock reads earlier).
    /// Always succeeds: the encoding needs no external signing key.
    pub fn generate_token(&self) -> (r: Result<String, AppError>)
        ensures
            match r {
                Ok(t) => token_decode(t@) == Some(self.id),
                Err(_) => false,
            },
    {
        let now = now_seconds();
        let ts: u64 = if now < 0 {
            0
        } else {
            now as u64
        };
        let t = issue_token(self.id, ts);
        proof {
            lemma_token_roundtrip(self.id, ts);
        }
        Ok(t)
    }

    /// Creates a new user: hashes the password, inserts a row under fresh
    /// dense id, and issues a token bound to that id. Fails with
    /// `CredentialError` on an empty password, `DuplicateEmail` or
    /// `DuplicateUsername` when the matching uniqueness constraint would
    /// fire, in that order; the directory is untouched on every failure.
    pub fn signup(
        d: &mut UserDirectory,
        email: &str,
        username: &str,
        naive_password: &str,
    ) -> (r: Result<(User, String), AppError>)
        requires
            old(d).wf(),
        ensures
            final(d).wf(),
            match r {
                Ok((u, t)) => {
                    &&& signup_outcome(old(d)@, email@, username@, naive_password@) is None
                    &&& final(d)@ == old(d)@.push(u@)
                    &&& u.id == old(d)@.len() as u128
                    &&& u@.email == email@
                    &&& u@.username == username@
                    &&& u@.password == hash_chars(naive_password@, old(d)@.len() as u64)
                    &&& u@.bio is None
                    &&& u@.image is None
                    &&& u.created_at == u.updated_at
                    &&& token_decode(t@) == Some(u.id)
                },
                Err(e) => {
                    &&& signup_outcome(old(d)@, email@, username@, naive_password@) == Some(e)
                    &&& final(d)@ == old(d)@
                },
            },
    {
        let len = d.rows.len();
        let hashed = match hash_password(naive_password, len as u64) {
            Ok(h) => h,
            Err(e) => {
                return Err(e);
            },
        };
        if d.find_email_index(email).is_some() {
            return Err(AppError::DuplicateEmail);
        }
        if d.find_username_index(username).is_some() {
            return Err(AppError::DuplicateUsername);
        }
        let record = SignupUser {
            email: String::from_str(email),
            username: String::from_str(username),
            password: hashed,
        };
        let now = now_seconds();
        let user = User {
            id: len as u128,
            email: record.email,
            username: record.username,
            password: record.password,
            bio: None,
            image: None,
            created_at: now,
            updated_at: now,
        };
        let copy = user.duplicate();
        d.rows.push(copy);
        proof {
            assert(d@ =~= old(d)@.push(user@));
        }
        let token = match user.generate_token() {
            Ok(t) => t,
            Err(_) => {
                // generate_token never fails; typed for signature fidelity.
                return Err(AppError::StorageError);
            },
        };
        Ok((user, token))
    }

    /// Authenticates by email and password and issues a fresh token. Any
    /// failure — unknown email or wrong password — is the single error
    /// kind `InvalidCredentials`, so a caller cannot enumerate accounts.
    pub fn signin(
        d: &UserDirectory,
        email: &str,
        naive_password: &str,
    ) -> (r: Result<(User, String), AppError>)
        requires
            d.wf(),
        ensures
            match r {
                Ok((u, t)) => {
                    &&& exists|i: int|
                        0 <= i < d@.len() && (#[trigger] d@[i]).email == email@ && u@ == d@[i]
                    &&& u@.email == email@
                    &&& verify_spec(naive_password@, u@.password)
                    &&& token_decode(t@) == Some(u.id)
                },
                Err(e) => {
                    &&& e == AppError::InvalidCredentials
                    &&& forall|i: int|
                        0 <= i < d@.len() && (#[trigger] d@[i]).email == email@ ==> !verify_spec(
                            naive_password@,
                            d@[i].password,
                        )
                },
            },
    {
        let idx = match d.find_email_index(email) {
            Some(i) => i,
            None => {
                return Err(AppError::InvalidCredentials);
            },
        };
        let row = &d.rows[idx];
        if !verify(naive_password, row.password.as_str()) {
            proof {
                assert forall|i: int|
                    0 <= i < d@.len() && (#[trigger] d@[i]).email == email@ implies !verify_spec(
                    naive_password@,
                    d@[i].password,
                ) by {
                    if i != idx as int {
                        assert(d@[i].email != d@[idx as int].email);
                    }
                }
            }
            return Err(AppError::InvalidCredentials);
        }
        let user = row.duplicate();
        let token = match user.generate_token() {
            Ok(t) => t,
            Err(_) => {
                return Err(AppError::InvalidCredentials);
            },
        };
        Ok((user, token))
    }

    /// Point lookup by id; `NotFound` exactly when no row has it.
    pub fn find(d: &UserDirectory, id: u128) -> (r: Result<User, AppError>)
        requires
            d.wf(),
        ensures
            match r {
                Ok(u) => (id as int) < d@.len() && u@ == d@[id as int],
                Err(e) => e == AppError::NotFound && (id as int) >= d@.len(),
            },
    {
        let n = d.rows.len();
        if id < n as u128 {
            let idx = id as usize;
            Ok(d.rows[idx].duplicate())
        } else {
            Err(AppError::NotFound)
        }
    }

    /// Point lookup by username; `NotFound` exactly when no row has it.
    pub fn find_by_username(d: &UserDirectory, username: &str) -> (r: Result<User, AppError>)
        ensures
            match r {
                Ok(u) => exists|i: int|
                    0 <= i < d@.len() && u@ == (#[trigger] d@[i]) && d@[i].username == username@,
                Err(e) => e == AppError::NotFound && !has_username(d@, username@),
            },
    {
        match d.find_username_index(username) {
            Some(i) => Ok(d.rows[i].duplicate()),
            None => Err(AppError::NotFound),
        }
    }

    /// Partial update: only the provided fields change, under the same
    /// uniqueness constraints as signup; the row's creation time and id
    /// are kept and the update time is restamped from the clock.
    pub fn update(d: &mut UserDirectory, user_id: u128, changeset: UpdateUser) -> (r: Result<
        User,
        AppError,
    >)
        requires
            old(d).wf(),
        ensures
            final(d).wf(),
            match r {
                Ok(u) => {
                    &&& (user_id as int) < old(d)@.len()
                    &&& final(d)@ == old(d)@.update(user_id as int, u@)
                    &&& u.id == user_id
                    &&& u@.email == (if changeset.email is Some {
                        changeset.email->0@
                    } else {
                        old(d)@[user_id as int].email
                    })
                    &&& u@.username == (if changeset.username is Some {
                        changeset.username->0@
                    } else {
                        old(d)@[user_id as int].username
                    })
                    &&& u@.password == (if changeset.password is Some {
                        changeset.password->0@
                    } else {
                        old(d)@[user_id as int].password
                    })
                    &&& u@.bio == (if changeset.bio is Some {
                        Some(changeset.bio->0@)
                    } else {
                        old(d)@[user_id as int].bio
                    })
                    &&& u@.image == (if changeset.image is Some {
                        Some(changeset.image->0@)
                    } else {
                        old(d)@[user_id as int].image
                    })
                    &&& u.created_at == old(d)@[user_id as int].created_at
                },
                Err(e) => {
                    &&& final(d)@ == old(d)@
                    &&& (e == AppError::NotFound ==> (user_id as int) >= old(d)@.len())
                    &&& (e == AppError::DuplicateEmail ==> changeset.email is Some
                        && email_taken_by_other(old(d)@, user_id as int, changeset.email->0@))
                    &&& (e == AppError::DuplicateUsername ==> changeset.username is Some
                        && username_taken_by_other(old(d)@, user_id as int, changeset.username->0@))
                    &&& (e == AppError::NotFound || e == AppError::DuplicateEmail || e
                        == AppError::DuplicateUsername)
                },
            },
    {
        let n = d.rows.len();
        if user_id >= n as u128 {
            return Err(AppError::NotFound);
        }
        let idx = user_id as usize;
        if let Some(e) = &changeset.email {
            if d.email_index_excluding(idx, e.as_str()).is_some() {
                return Err(AppError::DuplicateEmail);
            }
        }
        if let Some(uname) = &changeset.username {
            if d.username_index_excluding(idx, uname.as_str()).is_some() {
                return Err(AppError::DuplicateUsername);
            }
        }
        let now = now_seconds();
        let email = match changeset.email {
            Some(e) => e,
            None => d.rows[idx].email.clone(),
        };
        let username = match changeset.username {
            Some(u) => u,
            None => d.rows[idx].username.clone(),
        };
        let password = match changeset.password {
            Some(p) => p,
            None => d.rows[idx].password.clone(),
        };
        let bio = match changeset.bio {
            Some(b) => Some(b),
            None => clone_opt(&d.rows[idx].bio),
        };
        let image = match changeset.image {
            Some(m) => Some(m),
            None => clone_opt(&d.rows[idx].image),
        };
        let user = User {
            id: user_id,
            email,
            username,
            password,
            bio,
            image,
            created_at: d.rows[idx].created_at,
            updated_at: now,
        };
        let copy = user.duplicate();
        d.rows.remove(idx);
        d.rows.insert(idx, copy);
        proof {
            assert(d@ =~= old(d)@.update(user_id as int, user@));
            assert forall|i: int, j: int| 0 <= i < j < d@.len() implies (#[trigger] d@[i]).email
                != (#[trigger] d@[j]).email by {
                if i != idx as int && j != idx as int {
                    assert(old(d)@[i].email != old(d)@[j].email);
                }
            }
            assert forall|i: int, j: int| 0 <= i < j < d@.len() implies (#[trigger] d@[i]).username
                != (#[trigger] d@[j]).username by {
                if i != idx as int && j != idx as int {
                    assert(old(d)@[i].username != old(d)@[j].username);
                }
            }
        }
        Ok(user)
    }
}

impl UserDirectory {
    /// Index of a row other than `except` carrying `email`, if any.
    fn email_index_excluding(&self, except: usize, email: &str) -> (r: Option<usize>)
        ensures
            match r {
                Some(i) => 0 <= i < self@.len() && i != except && self@[i as int].email == email@,
                None => !email_taken_by_other(self@, except as int, email@),
            },
    {
        let n = self.rows.len();
        let mut i: usize = 0;
        while i < n
            invariant
                i <= n,
                n == self.rows@.len(),
                forall|j: int|
                    0 <= j < i && j != except ==> (#[trigger] self@[j]).email != email@,
            decreases n - i,
        {
            if i != except && str_eq(self.rows[i].email.as_str(), email) {
                return Some(i);
            }
            i = i + 1;
        }
        None
    }

    /// Index of a row other than `except` carrying `username`, if any.
    fn username_index_excluding(&self, except: usize, username: &str) -> (r: Option<usize>)
        ensures
            match r {
                Some(i) => 0 <= i < self@.len() && i != except && self@[i as int].username
                    == username@,
                None => !username_taken_by_other(self@, except as int, username@),
            },
    {
        let n = self.rows.len();
        let mut i: usize = 0;
        while i < n
            invariant
                i <= n,
                n == self.rows@.len(),
                forall|j: int|
                    0 <= j < i && j != except ==> (#[trigger] self@[j]).username != username@,
            decreases n - i,
        {
            if i != except && str_eq(self.rows[i].username.as_str(), username) {
                return Some(i);
            }
            i = i + 1;
        }
        None
    }
}

/// A user created by signup can sign back in with the same password, and
/// the stored password field never equals the plaintext: the hash both
/// verifies against its plaintext and differs from it.
pub proof fn lemma_signup_credentials_roundtrip(pw: Seq<char>, salt: u64)
    ensures
        verify_spec(pw, hash_chars(pw, salt)),
        hash_chars(pw, salt) != pw,
{
    lemma_verify_own_hash(pw, salt);
    lemma_hash_not_plaintext(pw, salt);
}

/// After a signup pushed row `u`, a signin with the signed-up password
/// finds a row carrying `u`'s email whose stored hash verifies — the exact
/// success condition of `signin` — and that stored hash is not the
/// plaintext.
pub proof fn lemma_signin_after_signup(s: Seq<UserV>, u: UserV, pw: Seq<char>, salt: u64)
    requires
        u.password == hash_chars(pw, salt),
    ensures
        exists|i: int|
            0 <= i < s.push(u).len() && (#[trigger] s.push(u)[i]).email == u.email && verify_spec(
                pw,
                s.push(u)[i].password,
            ),
        u.password != pw,
{
    lemma_verify_own_hash(pw, salt);
    lemma_hash_not_plaintext(pw, salt);
    assert(s.push(u)[s.len() as int] == u);
}

/// Only the signed-up password verifies against the stored hash: a signin
/// with any other password is rejected, with the same error an unknown
/// email gives.
pub proof fn lemma_wrong_password_rejected(stored_pw: Seq<char>, given_pw: Seq<char>, salt: u64)
    requires
        stored_pw != given_pw,
    ensures
        !verify_spec(given_pw, hash_chars(stored_pw, salt)),
{
    if verify_spec(given_pw, hash_chars(stored_pw, salt)) {
        lemma_verify_unique(stored_pw, given_pw, salt);
    }
}

} // verus!
