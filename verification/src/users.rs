//! Account store: username to an argon2 password hash in PHC format. The
//! accounts live in memory; the caller writes them to the accounts file after
//! each change and reads them from it at start.

use vstd::prelude::*;

use argon2::password_hash::rand_core::OsRng;
use argon2::password_hash::{PasswordHash, PasswordHasher, PasswordVerifier, SaltString};
use argon2::Argon2;

use crate::strmap::StrMap;
use crate::text::{trim, trimmed};

verus! {

/// Whether `phc` parses as a PHC-format password hash (`PasswordHash::new`).
pub uninterp spec fn phc_parses(phc: Seq<char>) -> bool;

/// Whether argon2 accepts `password` (as its UTF-8 bytes) against the parsed
/// PHC hash `phc` (`Argon2::verify_password`).
pub uninterp spec fn argon2_accepts(password: Seq<char>, phc: Seq<char>) -> bool;

/// `Argon2::default().hash_password` with a fresh salt from
/// `SaltString::generate(&mut OsRng)`, rendered as a PHC string; an error is
/// rendered as its message. Claims of a hash it returns only what the crate's
/// documentation shows: the string parses as a PHC hash and argon2 accepts the
/// same password against it. The salt is random, so the string itself is not
/// stated.
#[verifier::external_body]
fn argon2_hash_fresh_salt(password: &str) -> (r: Result<String, String>)
    ensures
        r matches Ok(h) ==> phc_parses(h@) && argon2_accepts(password@, h@),
{
    let salt = SaltString::generate(&mut OsRng);
    match Argon2::default().hash_password(password.as_bytes(), &salt) {
        Ok(h) => Ok(h.to_string()),
        Err(e) => Err(e.to_string()),
    }
}

/// `PasswordHash::new(phc)` and, when it parses, whether
/// `Argon2::default().verify_password(password, &parsed)` succeeds. Claims:
/// an error exactly when the hash does not parse (carrying the parser's
/// message, which is not stated), otherwise `argon2_accepts`.
#[verifier::external_body]
fn argon2_check(password: &str, phc: &str) -> (r: Result<bool, String>)
    ensures
        r is Ok <==> phc_parses(phc@),
        r matches Ok(b) ==> b == argon2_accepts(password@, phc@),
{
    match PasswordHash::new(phc) {
        Ok(parsed) => Ok(Argon2::default().verify_password(password.as_bytes(), &parsed).is_ok()),
        Err(e) => Err(e.to_string()),
    }
}

/// Why an account operation failed.
#[derive(Debug)]
pub enum UserError {
    /// Blank username or empty password.
    EmptyCredentials,
    /// The username is already registered.
    UsernameTaken,
    /// Hashing the password failed; the hasher's message.
    Hash(String),
    /// A stored hash does not parse; the parser's message.
    HashParse(String),
}

/// A user error as plain values.
pub enum UserErrorV {
    EmptyCredentials,
    UsernameTaken,
    Hash(Seq<char>),
    HashParse(Seq<char>),
}

impl View for UserError {
    type V = UserErrorV;

    open spec fn view(&self) -> UserErrorV {
        match self {
            UserError::EmptyCredentials => UserErrorV::EmptyCredentials,
            UserError::UsernameTaken => UserErrorV::UsernameTaken,
            UserError::Hash(d) => UserErrorV::Hash(d@),
            UserError::HashParse(d) => UserErrorV::HashParse(d@),
        }
    }
}

/// The message of a user error.
pub open spec fn user_error_message(e: UserErrorV) -> Seq<char> {
    match e {
        UserErrorV::EmptyCredentials => "boş kullanıcı adı/şifre"@,
        UserErrorV::UsernameTaken => "kullanıcı adı zaten var"@,
        UserErrorV::Hash(d) => "argon2 hash: "@ + d,
        UserErrorV::HashParse(d) => "hash parse: "@ + d,
    }
}

impl UserError {
    /// The message of this error.
    pub fn message(&self) -> (m: String)
        ensures
            m@ == user_error_message(self@),
    {
        match self {
            UserError::EmptyCredentials => String::from_str("boş kullanıcı adı/şifre"),
            UserError::UsernameTaken => String::from_str("kullanıcı adı zaten var"),
            UserError::Hash(d) => String::from_str("argon2 hash: ").concat(d.as_str()),
            UserError::HashParse(d) => String::from_str("hash parse: ").concat(d.as_str()),
        }
    }
}

/// A username that `register` refuses: nothing but white space.
pub open spec fn blank(s: Seq<char>) -> bool {
    trim(s).len() == 0
}

/// What checking `password` for `username` against `accounts` gives: `false`
/// for an unknown user, `None` when the stored hash does not parse, else
/// whether argon2 accepts the password.
pub open spec fn verify_outcome(accounts: Map<Seq<char>, Seq<char>>, username: Seq<char>, password: Seq<char>) -> Option<bool> {
    if !accounts.contains_key(username) {
        Some(false)
    } else if !phc_parses(accounts[username]) {
        None
    } else {
        Some(argon2_accepts(password, accounts[username]))
    }
}

/// After a registration stores hash `h` for a new `username`, checking the
/// registered password succeeds, and every other user's check gives what it
/// gave before.
pub proof fn law_registered_password_verifies(
    before: Map<Seq<char>, Seq<char>>,
    username: Seq<char>,
    password: Seq<char>,
    h: Seq<char>,
)
    requires
        !before.contains_key(username),
        phc_parses(h),
        argon2_accepts(password, h),
    ensures
        verify_outcome(before.insert(username, h), username, password) == Some(true),
        forall|other: Seq<char>, q: Seq<char>|
            other != username ==> #[trigger] verify_outcome(before.insert(username, h), other, q)
                == verify_outcome(before, other, q),
{
}

/// Account storage; another backing store can take the place of the file.
pub trait UserStore {
    /// Create an account; fails if the username is taken.
    fn register(&mut self, username: &str, password: &str) -> Result<(), UserError>;

    /// Check a username and password; `Ok(true)` when they match.
    fn verify(&self, username: &str, password: &str) -> Result<bool, UserError>;

    /// Whether the account exists.
    fn user_exists(&self, username: &str) -> bool;
}

/// The accounts that a list of stored records describes; a later record for
/// the same username replaces an earlier one.
pub open spec fn accounts_from_records(records: Seq<(Seq<char>, Seq<char>)>) -> Map<
    Seq<char>,
    Seq<char>,
>
    decreases records.len(),
{
    if records.len() == 0 {
        Map::empty()
    } else {
        accounts_from_records(records.drop_last()).insert(
            records.last().0,
            records.last().1,
        )
    }
}

/// The views of a list of (username, hash) records.
pub open spec fn record_views(v: Seq<(String, String)>) -> Seq<(Seq<char>, Seq<char>)> {
    v.map_values(|r: (String, String)| (r.0@, r.1@))
}

/// The account store kept in the accounts file at `path`.
pub struct FileUserStore {
    path: String,
    accounts: StrMap<String>,
}

impl FileUserStore {
    /// Username to PHC hash.
    pub closed spec fn accounts(&self) -> Map<Seq<char>, Seq<char>> {
        self.accounts.map()
    }

    /// The accounts file path.
    pub closed spec fn path(&self) -> Seq<char> {
        self.path@
    }

    /// A store at `path` holding the given records (the file's contents).
    pub fn from_records(path: String, records: Vec<(String, String)>) -> (s: Self)
        ensures
            s.path() == path@,
            s.accounts() == accounts_from_records(record_views(records@)),
    {
        let mut accounts: StrMap<String> = StrMap::new();
        let mut i: usize = 0;
        while i < records.len()
            invariant
                i <= records@.len(),
                accounts.map() == accounts_from_records(record_views(records@.subrange(0, i as int))),
            decreases records@.len() - i,
        {
            let u = records[i].0.clone();
            let h = records[i].1.clone();
            proof {
                let p = record_views(records@.subrange(0, i + 1));
                assert(p.drop_last() =~= record_views(records@.subrange(0, i as int)));
                assert(p.last() == (u@, h@));
            }
            accounts.insert(u, h);
            i = i + 1;
        }
        assert(records@.subrange(0, records@.len() as int) =~= records@);
        FileUserStore { path, accounts }
    }

    /// The accounts file path.
    pub fn path_str(&self) -> (p: &str)
        ensures
            p@ == self.path(),
    {
        self.path.as_str()
    }

    /// The stored records (username, PHC hash), one per account; this is what
    /// the accounts file holds.
    pub fn records(&self) -> (r: Vec<(String, String)>)
        ensures
            accounts_from_records(record_views(r@)) == self.accounts(),
            r@.len() == self.accounts().dom().len(),
    {
        proof {
            use_type_invariant(&self.accounts);
            self.accounts.lemma_view();
        }
        let mut r: Vec<(String, String)> = Vec::new();
        let mut i: usize = 0;
        let n = self.accounts.len();
        while i < n
            invariant
                n == self.accounts.size(),
                i <= n,
                r@.len() == i,
                forall|j: int| 0 <= j < i ==> #[trigger] record_views(r@)[j] == (
                    self.accounts.keys()[j],
                    self.accounts.vals()[j],
                ),
                accounts_from_records(record_views(r@)) == Map::new(
                    |k: Seq<char>| exists|j: int| 0 <= j < i && self.accounts.keys()[j] == k,
                    |k: Seq<char>| self.accounts.map()[k],
                ),
            decreases n - i,
        {
            let u = self.accounts.key_at(i).clone();
            let h = self.accounts.value_at(i).clone();
            let ghost old_r = r@;
            r.push((u, h));
            proof {
                use_type_invariant(&self.accounts);
                self.accounts.lemma_view();
                assert(self.accounts.map().contains_key(self.accounts.keys()[i as int]));
                assert(record_views(r@).drop_last() =~= record_views(old_r));
                assert forall|j: int| 0 <= j < i + 1 implies #[trigger] record_views(r@)[j] == (
                    self.accounts.keys()[j],
                    self.accounts.vals()[j],
                ) by {
                    if j < i {
                        assert(record_views(old_r)[j] == record_views(r@)[j]);
                    }
                }
                let m1 = accounts_from_records(record_views(r@));
                let m2 = Map::new(
                    |k: Seq<char>| exists|j: int| 0 <= j < i + 1 && self.accounts.keys()[j] == k,
                    |k: Seq<char>| self.accounts.map()[k],
                );
                assert forall|k: Seq<char>| m1.contains_key(k) <==> m2.contains_key(k) by {
                    if k == self.accounts.keys()[i as int] {
                        assert(m2.contains_key(k));
                    }
                    if m2.contains_key(k) && k != self.accounts.keys()[i as int] {
                        let j = choose|j: int| 0 <= j < i + 1 && self.accounts.keys()[j] == k;
                        assert(j < i);
                    }
                }
                assert(record_views(r@).last() == (self.accounts.keys()[i as int], self.accounts.vals()[i as int]));
                assert(m1 == accounts_from_records(record_views(old_r)).insert(
                    self.accounts.keys()[i as int],
                    self.accounts.vals()[i as int],
                ));
                assert forall|k: Seq<char>| #[trigger] m1.contains_key(k) implies m1[k] == m2[k] by {
                    if k == self.accounts.keys()[i as int] {
                        assert(self.accounts.map()[k] == self.accounts.vals()[i as int]);
                    }
                }
                assert(m1 =~= m2);
            }
            i = i + 1;
        }
        proof {
            let m2 = Map::new(
                |k: Seq<char>| exists|j: int| 0 <= j < n && self.accounts.keys()[j] == k,
                |k: Seq<char>| self.accounts.map()[k],
            );
            assert(m2 =~= self.accounts.map());
        }
        r
    }

    /// Stores the outcome of hashing `username`'s password: a hash becomes the
    /// account unless the name is taken; a hashing failure is reported.
    pub fn add_hashed(&mut self, username: &str, hashed: Result<String, String>) -> (r: Result<
        (),
        UserError,
    >)
        ensures
            final(self).path() == old(self).path(),
            match hashed {
                Err(d) => r == Err::<(), UserError>(UserError::Hash(d)) && final(self).accounts()
                    == old(self).accounts(),
                Ok(h) => if old(self).accounts().contains_key(username@) {
                    r matches Err(UserError::UsernameTaken) && final(self).accounts() == old(
                        self,
                    ).accounts()
                } else {
                    r is Ok && final(self).accounts() == old(self).accounts().insert(
                        username@,
                        h@,
                    )
                },
            },
    {
        match hashed {
            Err(d) => Err(UserError::Hash(d)),
            Ok(h) => {
                if self.accounts.contains_key(username) {
                    Err(UserError::UsernameTaken)
                } else {
                    self.accounts.insert(String::from_str(username), h);
                    Ok(())
                }
            },
        }
    }
}

impl UserStore for FileUserStore {
    fn register(&mut self, username: &str, password: &str) -> (r: Result<(), UserError>)
        ensures
            final(self).path() == old(self).path(),
            r matches Err(UserError::EmptyCredentials) <==> (blank(username@) || password@.len()
                == 0),
            r matches Err(UserError::EmptyCredentials) ==> final(self).accounts() == old(
                self,
            ).accounts(),
            r matches Err(UserError::UsernameTaken) ==> old(self).accounts().contains_key(
                username@,
            ) && final(self).accounts() == old(self).accounts() && exists|h: Seq<char>|
                phc_parses(h) && argon2_accepts(password@, h),
            r matches Err(UserError::Hash(_)) ==> final(self).accounts() == old(self).accounts(),
            r is Err ==> (r matches Err(UserError::EmptyCredentials)) || (r matches Err(
                UserError::UsernameTaken,
            )) || (r matches Err(UserError::Hash(_))),
            r is Ok ==> !old(self).accounts().contains_key(username@) && exists|h: Seq<char>|
                phc_parses(h) && argon2_accepts(password@, h) && final(self).accounts() == old(
                    self,
                ).accounts().insert(username@, h),
    {
        if trimmed(username).as_str().unicode_len() == 0 || password.unicode_len() == 0 {
            return Err(UserError::EmptyCredentials);
        }
        let hashed = argon2_hash_fresh_salt(password);
        let ghost hv = hashed;
        let r = self.add_hashed(username, hashed);
        proof {
            if let Ok(h) = hv {
                assert(phc_parses(h@) && argon2_accepts(password@, h@));
            }
        }
        r
    }

    fn verify(&self, username: &str, password: &str) -> (r: Result<bool, UserError>)
        ensures
            match r {
                Ok(b) => verify_outcome(self.accounts(), username@, password@) == Some(b),
                Err(e) => verify_outcome(self.accounts(), username@, password@) is None
                    && e is HashParse,
            },
    {
        match self.accounts.get(username) {
            None => Ok(false),
            Some(phc) => match argon2_check(password, phc.as_str()) {
                Ok(b) => Ok(b),
                Err(e) => Err(UserError::HashParse(e)),
            },
        }
    }

    fn user_exists(&self, username: &str) -> (r: bool)
        ensures
            r == self.accounts().contains_key(username@),
    {
        self.accounts.contains_key(username)
    }
}

} // verus!
