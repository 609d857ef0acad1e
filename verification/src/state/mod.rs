//! The shortener's in-memory state: its links and the hash of the web password.

pub mod fetch;
pub mod link_time;
pub mod store;
pub mod sync;

use vstd::prelude::*;
use vstd::string::*;

use self::store::LinkStore;

verus! {

/// A point in time in UTC: whole seconds since the Unix epoch, and the
/// nanoseconds past that second (at or above one billion during a leap second).
#[derive(Clone, Copy, Debug, PartialEq, Eq, Structural)]
pub struct Timestamp {
    pub secs: i64,
    pub nanos: u32,
}

impl Timestamp {
    /// `self` is not later than `other`.
    pub open spec fn le(self, other: Timestamp) -> bool {
        self.secs < other.secs || (self.secs == other.secs && self.nanos <= other.nanos)
    }

    pub fn is_not_after(&self, other: &Timestamp) -> (r: bool)
        ensures
            r == self.le(*other),
    {
        self.secs < other.secs || (self.secs == other.secs && self.nanos <= other.nanos)
    }
}

/// A shortlink: the short name, the URL it expands to, when it was created and
/// how often it was followed.
#[derive(Debug)]
pub struct Link {
    pub shortname: String,
    pub longurl: String,
    pub created_at: Timestamp,
    pub clicks: usize,
}

/// What a [`Link`] holds, with its strings as sequences of characters.
pub struct LinkModel {
    pub shortname: Seq<char>,
    pub longurl: Seq<char>,
    pub created_at: Timestamp,
    pub clicks: usize,
}

impl View for Link {
    type V = LinkModel;

    open spec fn view(&self) -> LinkModel {
        LinkModel {
            shortname: self.shortname@,
            longurl: self.longurl@,
            created_at: self.created_at,
            clicks: self.clicks,
        }
    }
}

impl Clone for Link {
    fn clone(&self) -> (r: Self)
        ensures
            r == *self,
    {
        Link {
            shortname: self.shortname.clone(),
            longurl: self.longurl.clone(),
            created_at: self.created_at,
            clicks: self.clicks,
        }
    }
}

/// The whole state of the service.
pub struct State {
    pub(crate) links: LinkStore,
    pub(crate) password_hash: String,
}

impl State {
    /// The links, by shortname.
    pub open(crate) spec fn links_view(&self) -> Map<Seq<char>, LinkModel> {
        self.links@
    }

    /// The stored hash of the web password.
    pub open(crate) spec fn password_hash_view(&self) -> Seq<char> {
        self.password_hash@
    }

    /// The links, to read.
    pub fn links(&self) -> (r: &LinkStore)
        ensures
            r@ == self.links_view(),
    {
        &self.links
    }

    /// The stored hash of the web password.
    pub fn password_hash(&self) -> (r: &str)
        ensures
            r@ == self.password_hash_view(),
    {
        self.password_hash.as_str()
    }

    /// A state with no links and an empty password hash.
    pub fn new() -> (s: State)
        ensures
            s.links_view() == Map::<Seq<char>, LinkModel>::empty(),
            s.password_hash_view() == Seq::<char>::empty(),
    {
        State { links: LinkStore::new(), password_hash: String::new() }
    }
}

impl Default for State {
    fn default() -> (s: State)
        ensures
            s.links_view() == Map::<Seq<char>, LinkModel>::empty(),
            s.password_hash_view() == Seq::<char>::empty(),
    {
        State::new()
    }
}


#[verifier::external_type_specification]
#[verifier::external_body]
pub struct ExBcryptError(bcrypt::BcryptError);

/// What `bcrypt::verify` answers for a password and a stored hash:
/// `Some(matches)`, or `None` where it reports an error.
pub uninterp spec fn bcrypt_verdict(password: Seq<char>, hash: Seq<char>) -> Option<bool>;

/// A bcrypt hash as `bcrypt::hash` writes it at the default cost: the
/// version `2b`, the cost `12`, then 22 characters of salt and 31 of hash.
pub open spec fn is_default_cost_hash(h: Seq<char>) -> bool {
    &&& h.len() == 60
    &&& h.take(7) == "$2b$12$"@
}

/// Calls `bcrypt::hash` with `bcrypt::DEFAULT_COST`. Its salt comes from the
/// operating system's randomness, so nothing fixes the hash it returns; what
/// holds of every hash it returns is that `bcrypt::verify` accepts the same
/// password against it (the hash carries the cost and the salt that `verify`
/// reads back). It fails only when the randomness cannot be had.
#[verifier::external_body]
fn bcrypt_hash(password: &str) -> (r: Result<String, bcrypt::BcryptError>)
    ensures
        r matches Ok(h) ==> bcrypt_verdict(password@, h@) == Some(true) && is_default_cost_hash(h@),
{
    bcrypt::hash(password, bcrypt::DEFAULT_COST)
}

/// Calls `bcrypt::verify`, whose answer depends on the password and the
/// stored hash alone.
#[verifier::external_body]
fn bcrypt_verify(password: &str, hash: &str) -> (r: Result<bool, bcrypt::BcryptError>)
    ensures
        match r {
            Ok(b) => bcrypt_verdict(password@, hash@) == Some(b),
            Err(_) => bcrypt_verdict(password@, hash@) is None,
        },
{
    bcrypt::verify(password, hash)
}

/// Why a password could not be set or checked.
#[derive(Clone, Copy, Debug, PartialEq, Eq, Structural)]
pub enum PasswordError {
    /// No salt could be drawn to hash the password.
    Hashing,
    /// The stored hash is not one that bcrypt can read.
    UnreadableHash,
}

/// The answer to a password check, given what bcrypt says of it.
pub open spec fn password_check(verdict: Option<bool>) -> Result<bool, PasswordError> {
    match verdict {
        Some(b) => Ok(b),
        None => Err(PasswordError::UnreadableHash),
    }
}

impl State {
    /// Stores the bcrypt hash of the web password. The links are left as they are.
    pub fn set_password(&mut self, password: &str) -> (r: Result<(), PasswordError>)
        ensures
            final(self).links_view() == old(self).links_view(),
            r is Ok ==> bcrypt_verdict(password@, final(self).password_hash_view()) == Some(true),
            r is Ok ==> is_default_cost_hash(final(self).password_hash_view()),
            r is Ok ==> password_check(bcrypt_verdict(password@, final(self).password_hash_view())) == Ok::<
                bool,
                PasswordError,
            >(true),
            r is Err ==> r == Err::<(), PasswordError>(PasswordError::Hashing) && final(self).password_hash_view()
                == old(self).password_hash_view(),
    {
        match bcrypt_hash(password) {
            Ok(h) => {
                self.password_hash = h;
                Ok(())
            },
            Err(_) => Err(PasswordError::Hashing),
        }
    }

    /// Whether `password` is the web password.
    pub fn password_matches(&self, password: &str) -> (r: Result<bool, PasswordError>)
        ensures
            r == password_check(bcrypt_verdict(password@, self.password_hash_view())),
    {
        match bcrypt_verify(password, self.password_hash.as_str()) {
            Ok(b) => Ok(b),
            Err(_) => Err(PasswordError::UnreadableHash),
        }
    }
}

/// The record of a password that was checked against the stored hash and
/// matched it. Only [`State::approve`] makes one, so a change that asks for
/// one was approved by the web password.
#[derive(Debug)]
pub struct Approval {
    password: String,
    hash: String,
}

impl Approval {
    /// The password that was checked.
    pub closed spec fn password(&self) -> Seq<char> {
        self.password@
    }

    /// The stored hash it was checked against.
    pub closed spec fn hash(&self) -> Seq<char> {
        self.hash@
    }

    /// The check matched.
    #[verifier::type_invariant]
    pub open spec fn matched(&self) -> bool {
        bcrypt_verdict(self.password(), self.hash()) == Some(true)
    }
}

impl State {
    /// Checks `password` against the stored hash and, when it matches,
    /// returns the approval that a change of the links asks for.
    pub fn approve(&self, password: &str) -> (r: Result<Option<Approval>, PasswordError>)
        ensures
            match r {
                Ok(Some(a)) => {
                    &&& password_check(bcrypt_verdict(password@, self.password_hash_view())) == Ok::<bool, PasswordError>(
                        true,
                    )
                    &&& a.password() == password@
                    &&& a.hash() == self.password_hash_view()
                },
                Ok(None) => password_check(bcrypt_verdict(password@, self.password_hash_view())) == Ok::<
                    bool,
                    PasswordError,
                >(false),
                Err(e) => password_check(bcrypt_verdict(password@, self.password_hash_view())) == Err::<
                    bool,
                    PasswordError,
                >(e),
            },
    {
        match self.password_matches(password) {
            Ok(true) => Ok(Some(Approval { password: String::from_str(password), hash: self.password_hash.clone() })),
            Ok(false) => Ok(None),
            Err(e) => Err(e),
        }
    }
}

} // verus!
