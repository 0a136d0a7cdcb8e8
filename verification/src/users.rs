//! The authentication flow: registration, login, and user queries,
//! composed from the hasher, the token service, and a user store.
//!
//! Registration hashes the password and delegates persistence to the
//! store; a uniqueness conflict from the store surfaces as
//! `DuplicateUsername`, never silently swallowed or retried.  Login
//! fetches the record, verifies the password against the stored hash, and
//! only then issues a token carrying the record's roles.  A store miss and
//! a wrong password are tracked as distinct errors; the boundary layer is
//! expected to present them identically.

use vstd::prelude::*;

use crate::claims::bytes_seq_view;
use crate::codec::clone_bytes;
use crate::error::{Error, HashingError, ProvideError};
use crate::hashpw::{verify_spec, PasswordHasher};
use crate::store::{contains_username, UserModel, UserRecord, UserStore};
use crate::token::{issue_claims, now_seconds, roles_bounded, token_of, Jwt, NOW_CEILING};

verus! {

/// The public face of a stored user: everything but the password hash and
/// the roles.
#[verifier::ext_equal]
pub struct UserView {
    pub id: u64,
    pub username: Seq<u8>,
    pub email: Seq<u8>,
    pub active: bool,
    pub created_at: u64,
    pub updated_at: u64,
}

/// What a stored user looks like from outside.
pub open spec fn public_view(m: UserModel) -> UserView {
    UserView {
        id: m.id,
        username: m.username,
        email: m.email,
        active: m.active,
        created_at: m.created_at,
        updated_at: m.updated_at,
    }
}

/// A user as returned to callers: no password hash.
pub struct User {
    pub id: u64,
    pub username: Vec<u8>,
    pub email: Vec<u8>,
    pub active: bool,
    pub created_at: u64,
    pub updated_at: u64,
}

impl View for User {
    type V = UserView;

    open spec fn view(&self) -> UserView {
        UserView {
            id: self.id,
            username: self.username@,
            email: self.email@,
            active: self.active,
            created_at: self.created_at,
            updated_at: self.updated_at,
        }
    }
}

impl User {
    /// The public face of a stored record.
    pub fn from_record(u: &UserRecord) -> (r: User)
        ensures
            r@ == public_view(u@),
    {
        let r = User {
            id: u.id,
            username: clone_bytes(&u.username),
            email: clone_bytes(&u.email),
            active: u.active,
            created_at: u.created_at,
            updated_at: u.updated_at,
        };
        proof {
            assert(r@ =~= public_view(u@));
        }
        r
    }
}

/// The response body for a single user; `None` where the query matched no
/// record.
pub struct SingleUserResponseBody {
    pub user: Option<User>,
}

impl From<User> for SingleUserResponseBody {
    fn from(user: User) -> Self {
        SingleUserResponseBody { user: Some(user) }
    }
}

impl vstd::std_specs::convert::FromSpecImpl<User> for SingleUserResponseBody {
    open spec fn obeys_from_spec() -> bool {
        true
    }

    open spec fn from_spec(user: User) -> SingleUserResponseBody {
        SingleUserResponseBody { user: Some(user) }
    }
}

/// The response body for a successful login: the user and a signed token.
pub struct AuthenticatedUserResponseBody {
    pub user: User,
    pub token: Vec<u8>,
}

impl From<(User, Vec<u8>)> for AuthenticatedUserResponseBody {
    fn from(auth: (User, Vec<u8>)) -> Self {
        AuthenticatedUserResponseBody { user: auth.0, token: auth.1 }
    }
}

impl vstd::std_specs::convert::FromSpecImpl<(User, Vec<u8>)> for AuthenticatedUserResponseBody {
    open spec fn obeys_from_spec() -> bool {
        true
    }

    open spec fn from_spec(auth: (User, Vec<u8>)) -> AuthenticatedUserResponseBody {
        AuthenticatedUserResponseBody { user: auth.0, token: auth.1 }
    }
}

/// The response body for listing users.
pub struct MultiUsersResponseBody {
    pub users: Vec<User>,
    pub users_count: i32,
}

/// The request body for creating or registering a user.
pub struct UserRequestBody {
    pub username: Vec<u8>,
    pub email: Vec<u8>,
    pub password: Vec<u8>,
}

/// The request body for logging a user in.
pub struct CredentialsRequestBody {
    pub username: Vec<u8>,
    pub password: Vec<u8>,
}

/// A successful login outcome as of time `now`: some stored record
/// carries the username, the password verifies against its stored hash,
/// the response shows that record's public face, and the token is the one
/// issued for that record's roles from `now` for the service's duration.
pub open spec fn login_ok(
    users: Seq<UserModel>,
    hasher: PasswordHasher,
    jwt: Jwt,
    username: Seq<u8>,
    password: Seq<u8>,
    now: u64,
    b: AuthenticatedUserResponseBody,
) -> bool {
    exists|i: int|
        0 <= i < users.len() && {
            let m = #[trigger] users[i];
            &&& m.username == username
            &&& verify_spec(hasher.secret@, password, m.password_hash) == Some(true)
            &&& b.user@ == public_view(m)
            &&& b.token@ == token_of(jwt.secret@, issue_claims(m.roles, now, jwt.duration_minutes))
        }
}

/// Register a user: hash the password, then persist the record.  Succeeds
/// exactly when the store appends the record; a username conflict is
/// `DuplicateUsername`; every failure leaves the store unchanged.
pub fn register_user<S: UserStore>(
    store: &mut S,
    hasher: &PasswordHasher,
    username: &[u8],
    email: &[u8],
    password: &[u8],
) -> (r: Result<UserRecord, Error>)
    requires
        old(store).inv(),
        hasher.wf(),
        password@.len() <= 0xffffffff,
    ensures
        final(store).inv(),
        match r {
            Ok(u) => {
                &&& !contains_username(old(store).users(), username@)
                &&& final(store).users() == old(store).users().push(u@)
                &&& u@.username == username@
                &&& u@.email == email@
                &&& verify_spec(hasher.secret@, password@, u@.password_hash) == Some(true)
                &&& u@.roles.len() == 0
                &&& u@.active
                &&& u@.created_at == u@.updated_at
                &&& forall|i: int|
                    0 <= i < old(store).users().len() ==> (#[trigger] old(store).users()[i]).id
                        != u@.id
            },
            Err(Error::DuplicateUsername) => {
                &&& contains_username(old(store).users(), username@)
                &&& final(store).users() == old(store).users()
            },
            Err(Error::Store(pe)) => {
                &&& final(store).users() == old(store).users()
                &&& pe != ProvideError::UniqueViolation
            },
            Err(_) => false,
        },
{
    let stored = match hasher.hash(password) {
        Ok(h) => h,
        Err(e) => {
            return Err(e);
        },
    };
    match store.create_user(username, email, stored.as_slice()) {
        Ok(u) => Ok(u),
        Err(ProvideError::UniqueViolation) => Err(Error::DuplicateUsername),
        Err(e) => Err(Error::Store(e)),
    }
}

/// Create a user without hashing: the password is persisted as handed in.
/// Same store contract as registration.
pub fn add_user<S: UserStore>(
    store: &mut S,
    username: &[u8],
    email: &[u8],
    password: &[u8],
) -> (r: Result<UserRecord, Error>)
    requires
        old(store).inv(),
    ensures
        final(store).inv(),
        match r {
            Ok(u) => {
                &&& !contains_username(old(store).users(), username@)
                &&& final(store).users() == old(store).users().push(u@)
                &&& u@.username == username@
                &&& u@.email == email@
                &&& u@.password_hash == password@
                &&& u@.created_at == u@.updated_at
                &&& forall|i: int|
                    0 <= i < old(store).users().len() ==> (#[trigger] old(store).users()[i]).id
                        != u@.id
            },
            Err(Error::DuplicateUsername) => {
                &&& contains_username(old(store).users(), username@)
                &&& final(store).users() == old(store).users()
            },
            Err(Error::Store(pe)) => {
                &&& final(store).users() == old(store).users()
                &&& pe != ProvideError::UniqueViolation
            },
            Err(_) => false,
        },
{
    match store.create_user(username, email, password) {
        Ok(u) => Ok(u),
        Err(ProvideError::UniqueViolation) => Err(Error::DuplicateUsername),
        Err(e) => Err(Error::Store(e)),
    }
}

/// Look a user up by username; `None` where no record carries it.
pub fn find_user_by_username<S: UserStore>(store: &S, username: &[u8]) -> (r: Result<
    Option<UserRecord>,
    Error,
>)
    ensures
        match r {
            Ok(Some(u)) => {
                &&& u@.username == username@
                &&& exists|i: int| 0 <= i < store.users().len() && #[trigger] store.users()[i]
                    == u@
            },
            Ok(None) => !contains_username(store.users(), username@),
            Err(Error::Store(pe)) => pe == ProvideError::UnHandledError,
            Err(_) => false,
        },
{
    match store.get_user_by_username(username) {
        Ok(u) => Ok(u),
        Err(e) => Err(Error::Store(e)),
    }
}

/// List every user the store holds, with the count.
pub fn list_users<S: UserStore>(store: &S) -> (r: Result<MultiUsersResponseBody, Error>)
    ensures
        match r {
            Ok(b) => {
                &&& b.users@.len() == store.users().len()
                &&& b.users_count == store.users().len()
                &&& forall|i: int|
                    0 <= i < store.users().len() ==> #[trigger] b.users@[i]@ == public_view(
                        store.users()[i],
                    )
            },
            Err(Error::Store(ProvideError::ModelViolation)) => store.users().len() > 0x7fffffff,
            Err(Error::Store(pe)) => pe == ProvideError::UnHandledError,
            Err(_) => false,
        },
{
    let records = match store.get_all_users() {
        Ok(v) => v,
        Err(e) => {
            return Err(Error::Store(e));
        },
    };
    if records.len() > 2147483647 {
        return Err(Error::Store(ProvideError::ModelViolation));
    }
    let users_count = records.len() as i32;
    let mut users: Vec<User> = Vec::new();
    let mut i: usize = 0;
    while i < records.len()
        invariant
            i <= records@.len(),
            users@.len() == i,
            forall|j: int|
                0 <= j < i ==> #[trigger] users@[j]@ == public_view(
                    crate::store::records_view(records@)[j],
                ),
        decreases records.len() - i,
    {
        users.push(User::from_record(&records[i]));
        i = i + 1;
    }
    Ok(MultiUsersResponseBody { users, users_count })
}

/// Log a user in as of time `now`: fetch by username, verify the password
/// against the stored hash, and issue a token carrying the record's
/// roles.  Fetch precedes verify precedes issue; no token is issued for a
/// missing record or a failed verification.
pub fn login_at<S: UserStore>(
    store: &S,
    hasher: &PasswordHasher,
    jwt: &Jwt,
    username: &[u8],
    password: &[u8],
    now: u64,
) -> (r: Result<AuthenticatedUserResponseBody, Error>)
    requires
        hasher.wf(),
        jwt.wf(),
        password@.len() <= 0xffffffff,
        now <= NOW_CEILING,
        forall|i: int| 0 <= i < store.users().len() ==> roles_bounded(
            (#[trigger] store.users()[i]).roles,
        ),
    ensures
        match r {
            Ok(b) => login_ok(store.users(), *hasher, *jwt, username@, password@, now, b),
            Err(Error::UnknownUser) => !contains_username(store.users(), username@),
            Err(Error::InvalidCredentials) => exists|i: int|
                0 <= i < store.users().len() && {
                    let m = #[trigger] store.users()[i];
                    &&& m.username == username@
                    &&& verify_spec(hasher.secret@, password@, m.password_hash) == Some(false)
                },
            Err(Error::Hashing(HashingError::MalformedStoredHash)) => exists|i: int|
                0 <= i < store.users().len() && {
                    let m = #[trigger] store.users()[i];
                    &&& m.username == username@
                    &&& verify_spec(hasher.secret@, password@, m.password_hash) is None
                },
            Err(Error::Store(pe)) => pe == ProvideError::UnHandledError,
            Err(_) => false,
        },
{
    let rec = match store.get_user_by_username(username) {
        Err(e) => {
            return Err(Error::Store(e));
        },
        Ok(None) => {
            return Err(Error::UnknownUser);
        },
        Ok(Some(u)) => u,
    };
    let valid = match hasher.verify(password, rec.password_hash.as_slice()) {
        Err(e) => {
            return Err(e);
        },
        Ok(b) => b,
    };
    if !valid {
        return Err(Error::InvalidCredentials);
    }
    let user = User::from_record(&rec);
    let ghost i = choose|i: int| 0 <= i < store.users().len() && store.users()[i] == rec@;
    proof {
        assert(roles_bounded(store.users()[i].roles));
        assert(bytes_seq_view(rec.roles@) == store.users()[i].roles);
    }
    let token = jwt.issue_at(rec.roles, now);
    Ok(AuthenticatedUserResponseBody::from((user, token)))
}

/// Log a user in as of the machine clock: the outcome of `login_at` at
/// some instant below the clock ceiling, token included.
pub fn login_user<S: UserStore>(
    store: &S,
    hasher: &PasswordHasher,
    jwt: &Jwt,
    credentials: &CredentialsRequestBody,
) -> (r: Result<AuthenticatedUserResponseBody, Error>)
    requires
        hasher.wf(),
        jwt.wf(),
        credentials.password@.len() <= 0xffffffff,
        forall|i: int| 0 <= i < store.users().len() ==> roles_bounded(
            (#[trigger] store.users()[i]).roles,
        ),
    ensures
        match r {
            Ok(b) => exists|now: u64|
                now <= NOW_CEILING && #[trigger] login_ok(
                    store.users(),
                    *hasher,
                    *jwt,
                    credentials.username@,
                    credentials.password@,
                    now,
                    b,
                ),
            Err(Error::UnknownUser) => !contains_username(store.users(), credentials.username@),
            Err(Error::InvalidCredentials) => exists|i: int|
                0 <= i < store.users().len() && {
                    let m = #[trigger] store.users()[i];
                    &&& m.username == credentials.username@
                    &&& verify_spec(hasher.secret@, credentials.password@, m.password_hash)
                        == Some(false)
                },
            Err(Error::Hashing(HashingError::MalformedStoredHash)) => exists|i: int|
                0 <= i < store.users().len() && {
                    let m = #[trigger] store.users()[i];
                    &&& m.username == credentials.username@
                    &&& verify_spec(hasher.secret@, credentials.password@, m.password_hash)
                        is None
                },
            Err(Error::Store(pe)) => pe == ProvideError::UnHandledError,
            Err(_) => false,
        },
{
    let now = now_seconds();
    let r = login_at(
        store,
        hasher,
        jwt,
        credentials.username.as_slice(),
        credentials.password.as_slice(),
        now,
    );
    proof {
        if r is Ok {
            assert(login_ok(
                store.users(),
                *hasher,
                *jwt,
                credentials.username@,
                credentials.password@,
                now,
                r->Ok_0,
            ));
        }
    }
    r
}

} // verus!
