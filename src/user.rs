//! Identities: registered accounts and guests, and the store that keeps them.
use argon2::password_hash::rand_core::OsRng;
use argon2::password_hash::{PasswordHash, SaltString};
use argon2::Argon2;
use rand::distributions::{Alphanumeric, DistString};
use vstd::prelude::*;

use crate::encoding::{decimal, decimal_text};
use crate::error::Error;
use vstd::utf8::encode_utf8;

use crate::lookup::{first_at, first_match, lemma_first_match, lemma_no_match};
use crate::session::{copy_text, text_of};

verus! {

/// The kind of an account.
#[derive(Debug, Clone, Copy, PartialEq, Eq, Structural)]
pub enum UserType {
    User,
    Guest,
}

/// An identity record.
#[derive(Debug)]
pub struct User {
    /// Stable record id; it is the subject of every assertion minted for the identity.
    pub id: String,
    pub user_type: UserType,
    pub email: Option<String>,
    /// Absent for guests.
    pub password_hash: Option<String>,
    pub name: Option<String>,
    pub avatar_seed: Option<String>,
}

/// What a signup supplies.
#[derive(Debug)]
pub struct NewUser {
    /// Hashed on creation, never stored.
    pub password: Option<String>,
    pub email: Option<String>,
    pub avatar_seed: Option<String>,
    pub name: Option<String>,
}

/// Changes to an account; absent fields stay as they are.
#[derive(Debug)]
pub struct UserPatch {
    pub name: Option<String>,
    pub avatar_seed: Option<String>,
    pub password_hash: Option<String>,
}

/// The mathematical value of a [`User`].
pub struct UserView {
    pub id: Seq<char>,
    pub user_type: UserType,
    pub email: Option<Seq<char>>,
    pub password_hash: Option<Seq<char>>,
    pub name: Option<Seq<char>>,
    pub avatar_seed: Option<Seq<char>>,
}

impl View for User {
    type V = UserView;

    open spec fn view(&self) -> UserView {
        UserView {
            id: self.id@,
            user_type: self.user_type,
            email: text_of(self.email),
            password_hash: text_of(self.password_hash),
            name: text_of(self.name),
            avatar_seed: text_of(self.avatar_seed),
        }
    }
}

impl User {
    /// A copy of the record.
    pub fn duplicate(&self) -> (u: User)
        ensures
            u@ == self@,
    {
        User {
            id: self.id.clone(),
            user_type: self.user_type,
            email: copy_text(&self.email),
            password_hash: copy_text(&self.password_hash),
            name: copy_text(&self.name),
            avatar_seed: copy_text(&self.avatar_seed),
        }
    }
}

/// The id of the `n`-th record of a table: `table:n`.
pub open spec fn record_id(table: Seq<char>, n: nat) -> Seq<char> {
    table + seq![':'] + decimal(n)
}

/// Matches the account with id `id`.
pub open spec fn id_is(id: Seq<char>) -> spec_fn(UserView) -> bool {
    |u: UserView| u.id == id
}

/// Keeps the accounts whose id is not `id`.
pub open spec fn other_than(id: Seq<char>) -> spec_fn(UserView) -> bool {
    |u: UserView| u.id != id
}

/// Matches the guest account with id `id`.
pub open spec fn guest_id_is(id: Seq<char>) -> spec_fn(UserView) -> bool {
    |u: UserView| u.id == id && u.user_type == UserType::Guest
}

/// Matches the account with email `email`.
pub open spec fn email_is(email: Seq<char>) -> spec_fn(UserView) -> bool {
    |u: UserView| u.email == Some(email)
}

/// The first account that `p` matches.
pub open spec fn user_where(users: Seq<UserView>, p: spec_fn(UserView) -> bool) -> Option<UserView> {
    match first_match(users, p) {
        Some(i) => Some(users[i]),
        None => None,
    }
}

/// The accounts.
pub struct UserStore {
    users: Vec<User>,
    next_id: u64,
}

impl View for UserStore {
    type V = Seq<UserView>;

    closed spec fn view(&self) -> Seq<UserView> {
        self.users@.map_values(|u: User| u@)
    }
}

impl UserStore {
    /// The number that the next new account's id carries.
    pub closed spec fn fresh_id(&self) -> u64 {
        self.next_id
    }

    /// An empty store.
    pub fn new() -> (s: UserStore)
        ensures
            s@ == Seq::<UserView>::empty(),
    {
        let s = UserStore { users: Vec::new(), next_id: 1 };
        assert(s@ =~= Seq::<UserView>::empty());
        s
    }

    /// The first account with id `id`.
    pub fn find_by_id(&self, id: &str) -> (r: Option<User>)
        ensures
            match r {
                Some(u) => user_where(self@, id_is(id@)) == Some(u@),
                None => user_where(self@, id_is(id@)) is None,
            },
    {
        let key = id.to_owned();
        let n = self.users.len();
        let mut i: usize = 0;
        while i < n
            invariant
                n == self@.len(),
                key@ == id@,
                0 <= i <= n,
                forall|j: int| 0 <= j < i ==> !(id_is(id@))(#[trigger] self@[j]),
            decreases n - i,
        {
            assert(self@[i as int] == self.users@[i as int]@);
            if self.users[i].id == key {
                proof {
                    lemma_first_match(self@, id_is(id@), i as int);
                }
                return Some(self.users[i].duplicate());
            }
            i = i + 1;
        }
        proof {
            lemma_no_match(self@, id_is(id@));
        }
        None
    }

    /// The first account with email `email`.
    pub fn find_by_email(&self, email: &str) -> (r: Option<User>)
        ensures
            match r {
                Some(u) => user_where(self@, email_is(email@)) == Some(u@),
                None => user_where(self@, email_is(email@)) is None,
            },
    {
        let key = email.to_owned();
        let n = self.users.len();
        let mut i: usize = 0;
        while i < n
            invariant
                n == self@.len(),
                key@ == email@,
                0 <= i <= n,
                forall|j: int| 0 <= j < i ==> !(email_is(email@))(#[trigger] self@[j]),
            decreases n - i,
        {
            assert(self@[i as int] == self.users@[i as int]@);
            let found = match &self.users[i].email {
                Some(e) => *e == key,
                None => false,
            };
            if found {
                proof {
                    lemma_first_match(self@, email_is(email@), i as int);
                }
                return Some(self.users[i].duplicate());
            }
            i = i + 1;
        }
        proof {
            lemma_no_match(self@, email_is(email@));
        }
        None
    }

    /// The first guest account with id `id`.
    pub fn find_guest(&self, id: &str) -> (r: Option<User>)
        ensures
            match r {
                Some(u) => user_where(self@, guest_id_is(id@)) == Some(u@),
                None => user_where(self@, guest_id_is(id@)) is None,
            },
    {
        let key = id.to_owned();
        let n = self.users.len();
        let mut i: usize = 0;
        while i < n
            invariant
                n == self@.len(),
                key@ == id@,
                0 <= i <= n,
                forall|j: int| 0 <= j < i ==> !(guest_id_is(id@))(#[trigger] self@[j]),
            decreases n - i,
        {
            assert(self@[i as int] == self.users@[i as int]@);
            if self.users[i].id == key && self.users[i].user_type == UserType::Guest {
                proof {
                    lemma_first_match(self@, guest_id_is(id@), i as int);
                }
                return Some(self.users[i].duplicate());
            }
            i = i + 1;
        }
        proof {
            lemma_no_match(self@, guest_id_is(id@));
        }
        None
    }

    /// Removes every account with id `id`.
    pub fn remove(&mut self, id: &str)
        ensures
            final(self)@ == old(self)@.filter(other_than(id@)),
            final(self).fresh_id() == old(self).fresh_id(),
    {
        let key = id.to_owned();
        let ghost p = other_than(id@);
        let mut kept: Vec<User> = Vec::new();
        let n = self.users.len();
        let mut i: usize = 0;
        while i < n
            invariant
                n == self@.len(),
                self@ == old(self)@,
                self.fresh_id() == old(self).fresh_id(),
                key@ == id@,
                p == other_than(id@),
                0 <= i <= n,
                kept@.map_values(|u: User| u@) == self@.subrange(0, i as int).filter(p),
            decreases n - i,
        {
            proof {
                crate::lookup::lemma_filter_step(self@, p, i as int);
            }
            assert(self@[i as int] == self.users@[i as int]@);
            if !(self.users[i].id == key) {
                let u = self.users[i].duplicate();
                let ghost before = kept@.map_values(|u: User| u@);
                kept.push(u);
                assert(kept@.map_values(|u: User| u@) =~= before.push(self@[i as int]));
            }
            i = i + 1;
        }
        assert(self@.subrange(0, n as int) =~= self@);
        self.users = kept;
    }

    /// Adds `draft` under the next id, `user:n`; a store that has run out of
    /// ids refuses it.
    pub fn insert(&mut self, draft: User) -> (r: Result<User, Error>)
        ensures
            r is Ok <==> old(self).fresh_id() < u64::MAX,
            match r {
                Ok(u) => {
                    &&& u@ == UserView { id: record_id("user"@, old(self).fresh_id() as nat), ..draft@ }
                    &&& final(self)@ == old(self)@.push(u@)
                    &&& final(self).fresh_id() == old(self).fresh_id() + 1
                },
                Err(e) => final(self)@ == old(self)@ && final(self).fresh_id() == old(self).fresh_id()
                    && (e matches Error::StoreData(m) && m@ == "user"@),
            },
    {
        if self.next_id == u64::MAX {
            return Err(Error::StoreData(String::from_str("user")));
        }
        let mut id = String::from_str("user:");
        let number = decimal_text(self.next_id);
        id.append(number.as_str());
        proof {
            reveal_strlit("user:");
            reveal_strlit("user");
            assert(id@ =~= record_id("user"@, self.next_id as nat));
        }
        let user = User {
            id,
            user_type: draft.user_type,
            email: draft.email,
            password_hash: draft.password_hash,
            name: draft.name,
            avatar_seed: draft.avatar_seed,
        };
        let copy = user.duplicate();
        let ghost before = self@;
        self.users.push(user);
        self.next_id = self.next_id + 1;
        assert(self@ =~= before.push(copy@));
        Ok(copy)
    }

    /// Applies `patch` to the first account with id `id`.
    pub fn patch(&mut self, id: &str, patch: UserPatch) -> (r: Option<User>)
        ensures
            final(self).fresh_id() == old(self).fresh_id(),
            match r {
                Some(u) => exists|i: int|
                    first_at(old(self)@, id_is(id@), i) && final(self)@ == old(self)@.update(i, u@) && u@
                        == patched(old(self)@[i], patch),
                None => user_where(old(self)@, id_is(id@)) is None && final(self)@ == old(self)@,
            },
    {
        let key = id.to_owned();
        let n = self.users.len();
        let mut i: usize = 0;
        while i < n
            invariant
                n == self@.len(),
                key@ == id@,
                0 <= i <= n,
                self@ == old(self)@,
                self.fresh_id() == old(self).fresh_id(),
                forall|j: int| 0 <= j < i ==> !(id_is(id@))(#[trigger] self@[j]),
            decreases n - i,
        {
            assert(self@[i as int] == self.users@[i as int]@);
            if self.users[i].id == key {
                let ghost before = self@;
                let old_user = self.users[i].duplicate();
                let user = User {
                    id: old_user.id,
                    user_type: old_user.user_type,
                    email: old_user.email,
                    password_hash: match patch.password_hash {
                        Some(h) => Some(h),
                        None => old_user.password_hash,
                    },
                    name: match patch.name {
                        Some(v) => Some(v),
                        None => old_user.name,
                    },
                    avatar_seed: match patch.avatar_seed {
                        Some(v) => Some(v),
                        None => old_user.avatar_seed,
                    },
                };
                let copy = user.duplicate();
                self.users.set(i, user);
                assert(first_at(before, id_is(id@), i as int));
                assert(self@ =~= before.update(i as int, copy@));
                return Some(copy);
            }
            i = i + 1;
        }
        proof {
            lemma_no_match(self@, id_is(id@));
        }
        None
    }
}

/// An account after `patch`: each field the patch carries replaces the stored one.
pub open spec fn patched(u: UserView, patch: UserPatch) -> UserView {
    UserView {
        password_hash: match patch.password_hash {
            Some(h) => Some(h@),
            None => u.password_hash,
        },
        name: match patch.name {
            Some(v) => Some(v@),
            None => u.name,
        },
        avatar_seed: match patch.avatar_seed {
            Some(v) => Some(v@),
            None => u.avatar_seed,
        },
        ..u
    }
}

/// Whether `hash` is a PHC string that argon2 can read.
pub uninterp spec fn phc_parses(hash: Seq<char>) -> bool;

/// Whether the PHC string `hash` accepts the password `attempt`.
pub uninterp spec fn password_matches(hash: Seq<char>, attempt: Seq<char>) -> bool;

/// Relies on argon2's `PasswordHash::new`, which reads a PHC string or fails,
/// and `PasswordVerifier::verify_password` of `Argon2::default()`, which
/// recomputes the hash of `attempt` with the salt and parameters the string holds.
#[verifier::external_body]
fn check_password(hash: &str, attempt: &str) -> (r: Option<bool>)
    ensures
        match r {
            Some(b) => phc_parses(hash@) && b == password_matches(hash@, attempt@),
            None => !phc_parses(hash@),
        },
{
    let parsed = PasswordHash::new(hash).ok()?;
    Some(argon2::PasswordVerifier::verify_password(&Argon2::default(), attempt.as_bytes(), &parsed).is_ok())
}

/// The longest password argon2 hashes, in bytes.
pub const MAX_PASSWORD_BYTES: u64 = 0xFFFF_FFFF;

/// Whether argon2 takes `password`: at most `MAX_PASSWORD_BYTES` bytes of UTF-8.
pub open spec fn password_fits(password: Seq<char>) -> bool {
    encode_utf8(password).len() <= MAX_PASSWORD_BYTES
}

/// Relies on argon2's `PasswordHasher::hash_password` of `Argon2::default()`
/// with a random salt from `SaltString::generate`: with the default parameters
/// and a generated salt it fails exactly on a password over `MAX_PWD_LEN` bytes;
/// the PHC string of the hash reads back, and verifying the same password
/// against it succeeds.
#[verifier::external_body]
fn derive_hash(password: &str) -> (r: Option<String>)
    ensures
        r is Some <==> password_fits(password@),
        r is Some ==> phc_parses(r->0@) && password_matches(r->0@, password@),
{
    let salt = SaltString::generate(&mut OsRng);
    let hash = argon2::PasswordHasher::hash_password(&Argon2::default(), password.as_bytes(), &salt);
    hash.ok().map(|h| h.to_string())
}

/// Whether `c` is an ASCII letter or digit.
pub open spec fn is_alphanumeric(c: char) -> bool {
    ('0' <= c && c <= '9') || ('a' <= c && c <= 'z') || ('A' <= c && c <= 'Z')
}

/// Whether `t` is four ASCII letters or digits.
pub open spec fn is_guest_tag(t: Seq<char>) -> bool {
    t.len() == 4 && forall|i: int| 0 <= i < t.len() ==> is_alphanumeric(#[trigger] t[i])
}

/// The display name of a guest with tag `t`.
pub open spec fn guest_name(t: Seq<char>) -> Seq<char> {
    "Guest#"@ + t
}

/// Relies on `DistString::sample_string` of `rand`'s `Alphanumeric` with the
/// thread's random generator: four characters drawn from `A-Z`, `a-z`, `0-9`.
#[verifier::external_body]
fn guest_tag() -> (r: String)
    ensures
        is_guest_tag(r@),
{
    Alphanumeric.sample_string(&mut rand::thread_rng(), 4)
}

/// Derives and checks password hashes (argon2id, default parameters).
pub struct PasswordHasher;

impl PasswordHasher {
    pub fn new() -> PasswordHasher {
        PasswordHasher
    }

    /// The PHC string of `password` under a fresh random salt.
    pub fn derive(&self, password: &str) -> (r: Result<String, Error>)
        ensures
            r is Ok <==> password_fits(password@),
            match r {
                Ok(h) => phc_parses(h@) && password_matches(h@, password@),
                Err(e) => e == Error::PasswordHash,
            },
    {
        match derive_hash(password) {
            Some(h) => Ok(h),
            None => Err(Error::PasswordHash),
        }
    }

    /// Checks `attempted_password` against `password_hash`. Every failure,
    /// an unreadable hash included, is the same `WrongCredentials`.
    pub fn verify(&self, password_hash: &str, attempted_password: &str) -> (r: Result<(), Error>)
        ensures
            r is Ok <==> phc_parses(password_hash@) && password_matches(password_hash@, attempted_password@),
            r is Err ==> r == Err::<(), Error>(Error::WrongCredentials),
    {
        match check_password(password_hash, attempted_password) {
            Some(true) => Ok(()),
            _ => Err(Error::WrongCredentials),
        }
    }
}

/// The account that creating `new_user` adds: a registered account under the
/// next id, whose stored hash verifies the password, which itself is kept nowhere.
pub open spec fn created_user(
    before: Seq<UserView>,
    fresh: u64,
    new_user: NewUser,
    u: UserView,
    after: Seq<UserView>,
) -> bool {
    &&& after == before.push(u)
    &&& u.id == record_id("user"@, fresh as nat)
    &&& u.user_type == UserType::User
    &&& u.email == text_of(new_user.email)
    &&& u.name == text_of(new_user.name)
    &&& u.avatar_seed == text_of(new_user.avatar_seed)
    &&& u.password_hash matches Some(h) && phc_parses(h) && password_matches(h, new_user.password->0@)
}

/// The account that creating a guest adds: a guest under the next id, with no
/// email or password, named and seeded `Guest#` and a four-character tag.
pub open spec fn created_guest(before: Seq<UserView>, fresh: u64, u: UserView, after: Seq<UserView>) -> bool {
    &&& after == before.push(u)
    &&& u.id == record_id("user"@, fresh as nat)
    &&& u.user_type == UserType::Guest
    &&& u.password_hash is None
    &&& u.email is None
    &&& exists|t: Seq<char>|
        is_guest_tag(t) && u.name == Some(#[trigger] guest_name(t)) && u.avatar_seed == Some(guest_name(t))
}

/// Reads and writes accounts.
pub struct UserController;

impl UserController {
    /// The first account with id `id`.
    pub fn get(store: &UserStore, id: &str) -> (r: Option<User>)
        ensures
            match r {
                Some(u) => user_where(store@, id_is(id@)) == Some(u@),
                None => user_where(store@, id_is(id@)) is None,
            },
    {
        store.find_by_id(id)
    }

    /// The first account with email `email`.
    pub fn get_by_email(store: &UserStore, email: &str) -> (r: Option<User>)
        ensures
            match r {
                Some(u) => user_where(store@, email_is(email@)) == Some(u@),
                None => user_where(store@, email_is(email@)) is None,
            },
    {
        store.find_by_email(email)
    }

    /// Creates a registered account; the password is hashed and dropped.
    pub fn create(store: &mut UserStore, new_user: &NewUser) -> (r: Result<User, Error>)
        ensures
            r is Err ==> final(store)@ == old(store)@ && final(store).fresh_id() == old(store).fresh_id(),
            match new_user.password {
                None => r matches Err(Error::BadRequest(m)) && m@ == "password is required"@,
                Some(p) => if !password_fits(p@) {
                    r == Err::<User, Error>(Error::PasswordHash)
                } else if old(store).fresh_id() == u64::MAX {
                    r matches Err(Error::StoreData(m)) && m@ == "user"@
                } else {
                    r matches Ok(u) && created_user(old(store)@, old(store).fresh_id(), *new_user, u@, final(store)@)
                },
            },
    {
        let password = match &new_user.password {
            Some(p) => p,
            None => return Err(Error::BadRequest(String::from_str("password is required"))),
        };
        let hasher = PasswordHasher::new();
        let hash = match hasher.derive(password.as_str()) {
            Ok(h) => h,
            Err(e) => return Err(e),
        };
        let draft = User {
            id: String::new(),
            user_type: UserType::User,
            email: copy_text(&new_user.email),
            password_hash: Some(hash),
            name: copy_text(&new_user.name),
            avatar_seed: copy_text(&new_user.avatar_seed),
        };
        store.insert(draft)
    }

    /// Applies `user_patch` to the account with id `id`; no such account is a
    /// store failure.
    pub fn update(store: &mut UserStore, id: &str, user_patch: UserPatch) -> (r: Result<User, Error>)
        ensures
            match r {
                Ok(u) => exists|i: int|
                    first_at(old(store)@, id_is(id@), i) && final(store)@ == old(store)@.update(i, u@)
                        && u@ == patched(old(store)@[i], user_patch),
                Err(e) => user_where(old(store)@, id_is(id@)) is None && final(store)@ == old(store)@
                    && e is StoreData,
            },
    {
        match store.patch(id, user_patch) {
            Some(u) => Ok(u),
            None => Err(Error::StoreData(String::from_str("user"))),
        }
    }

    /// Creates a guest account named `Guest#` and four random letters or digits.
    pub fn create_guest(store: &mut UserStore) -> (r: Result<User, Error>)
        ensures
            r is Ok <==> old(store).fresh_id() < u64::MAX,
            match r {
                Ok(u) => created_guest(old(store)@, old(store).fresh_id(), u@, final(store)@),
                Err(e) => final(store)@ == old(store)@ && final(store).fresh_id() == old(store).fresh_id()
                    && (e matches Error::StoreData(m) && m@ == "user"@),
            },
    {
        let tag = guest_tag();
        let mut name = String::from_str("Guest#");
        name.append(tag.as_str());
        assert(name@ == guest_name(tag@));
        let seed = name.clone();
        let draft = User {
            id: String::new(),
            user_type: UserType::Guest,
            email: None,
            password_hash: None,
            name: Some(name),
            avatar_seed: Some(seed),
        };
        store.insert(draft)
    }
}

} // verus!
