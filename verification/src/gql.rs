//! The operation entry points behind the query layer: free content,
//! gated content, and the user mutations, each a thin composition of the
//! flow functions with the access-control predicates.
//!
//! The boundary layer parses requests, builds a `Context` from the
//! presented token, and calls these; it renders the typed results back
//! onto the wire.

use vstd::prelude::*;

use crate::error::{Error, HashingError, ProvideError, TokenError};
use crate::hashpw::{verify_spec, PasswordHasher};
use crate::policy::{is_admin_at_spec, is_authenticated_at_spec, Context};
use crate::store::{contains_username, UserModel, UserStore};
use crate::token::{roles_bounded, Jwt, NOW_CEILING};
use crate::users::{
    add_user, list_users, login_ok, login_user, public_view, register_user,
    AuthenticatedUserResponseBody, CredentialsRequestBody, MultiUsersResponseBody,
    SingleUserResponseBody, User, UserRequestBody,
};
use vstd::string::StringExecFns;

verus! {

/// A piece of content handed back to a caller.
pub struct ContentResponseBody {
    pub content: String,
}

impl From<String> for ContentResponseBody {
    fn from(content: String) -> Self {
        ContentResponseBody { content }
    }
}

impl vstd::std_specs::convert::FromSpecImpl<String> for ContentResponseBody {
    open spec fn obeys_from_spec() -> bool {
        true
    }

    open spec fn from_spec(content: String) -> ContentResponseBody {
        ContentResponseBody { content }
    }
}

/// The read-only operations.
pub struct Query;

/// The mutating operations.
pub struct Mutation;

impl Query {
    /// Content for anyone; no check is made.
    pub fn content_for_all(&self) -> (r: ContentResponseBody)
        ensures
            r.content@ == "Hello, all"@,
    {
        ContentResponseBody::from(String::from_str("Hello, all"))
    }

    /// Content for authenticated users.  A request without a valid,
    /// unexpired token is rejected with a token error.
    pub fn content_for_user(&self, context: &Context) -> (r: Result<ContentResponseBody, Error>)
        ensures
            match r {
                Ok(b) => b.content@ == "Hello, user"@ && exists|now: u64|
                    now <= NOW_CEILING && #[trigger] is_authenticated_at_spec(*context, now),
                Err(e) => e == Error::Token(TokenError::Malformed) && exists|now: u64|
                    now <= NOW_CEILING && #[trigger] is_authenticated_at_spec(*context, now)
                        == false,
            },
    {
        if !context.is_authenticated() {
            return Err(Error::Token(TokenError::Malformed));
        }
        Ok(ContentResponseBody::from(String::from_str("Hello, user")))
    }

    /// Content for administrators.  A request that is not authenticated
    /// with the admin role is rejected with a token error.
    pub fn content_for_admin(&self, context: &Context) -> (r: Result<ContentResponseBody, Error>)
        ensures
            match r {
                Ok(b) => b.content@ == "Hello, admin"@ && exists|now: u64|
                    now <= NOW_CEILING && #[trigger] is_admin_at_spec(*context, now),
                Err(e) => e == Error::Token(TokenError::Malformed) && exists|now: u64|
                    now <= NOW_CEILING && #[trigger] is_admin_at_spec(*context, now) == false,
            },
    {
        if !context.is_admin() {
            return Err(Error::Token(TokenError::Malformed));
        }
        Ok(ContentResponseBody::from(String::from_str("Hello, admin")))
    }

    /// The list of users.
    pub fn users<S: UserStore>(&self, store: &S) -> (r: Result<MultiUsersResponseBody, Error>)
        ensures
            match r {
                Ok(b) => {
                    &&& b.users@.len() == store.users().len()
                    &&& b.users_count == store.users().len()
                    &&& forall|i: int|
                        0 <= i < store.users().len() ==> #[trigger] b.users@[i]@ == public_view(
                            store.users()[i],
                        )
                },
                Err(Error::Store(ProvideError::ModelViolation)) => store.users().len()
                    > 0x7fffffff,
                Err(Error::Store(pe)) => pe == ProvideError::UnHandledError,
                Err(_) => false,
            },
    {
        list_users(store)
    }
}

impl Mutation {
    /// Create a user, persisting the password as handed in.
    pub fn add_user<S: UserStore>(&self, store: &mut S, user: UserRequestBody) -> (r: Result<
        SingleUserResponseBody,
        Error,
    >)
        requires
            old(store).inv(),
        ensures
            final(store).inv(),
            match r {
                Ok(b) => {
                    &&& !contains_username(old(store).users(), user.username@)
                    &&& exists|m: UserModel|
                        {
                            &&& final(store).users() == old(store).users().push(m)
                            &&& m.username == user.username@
                            &&& forall|i: int|
                                0 <= i < old(store).users().len() ==> (#[trigger] old(
                                    store,
                                ).users()[i]).id != m.id
                            &&& b.user matches Some(u) && #[trigger] public_view(m) == u@
                        }
                },
                Err(Error::DuplicateUsername) => {
                    &&& contains_username(old(store).users(), user.username@)
                    &&& final(store).users() == old(store).users()
                },
                Err(Error::Store(pe)) => {
                    &&& final(store).users() == old(store).users()
                    &&& pe != ProvideError::UniqueViolation
                },
                Err(_) => false,
            },
    {
        match add_user(
            store,
            user.username.as_slice(),
            user.email.as_slice(),
            user.password.as_slice(),
        ) {
            Ok(rec) => {
                let u = User::from_record(&rec);
                proof {
                    assert(public_view(rec@) == u@);
                }
                Ok(SingleUserResponseBody::from(u))
            },
            Err(e) => Err(e),
        }
    }

    /// Register a user: the password is hashed before it is persisted.
    pub fn register_user<S: UserStore>(
        &self,
        store: &mut S,
        hasher: &PasswordHasher,
        user: UserRequestBody,
    ) -> (r: Result<SingleUserResponseBody, Error>)
        requires
            old(store).inv(),
            hasher.wf(),
            user.password@.len() <= 0xffffffff,
        ensures
            final(store).inv(),
            match r {
                Ok(b) => {
                    &&& !contains_username(old(store).users(), user.username@)
                    &&& exists|m: UserModel|
                        {
                            &&& final(store).users() == old(store).users().push(m)
                            &&& m.username == user.username@
                            &&& verify_spec(hasher.secret@, user.password@, m.password_hash)
                                == Some(true)
                            &&& forall|i: int|
                                0 <= i < old(store).users().len() ==> (#[trigger] old(
                                    store,
                                ).users()[i]).id != m.id
                            &&& b.user matches Some(u) && #[trigger] public_view(m) == u@
                        }
                },
                Err(Error::DuplicateUsername) => {
                    &&& contains_username(old(store).users(), user.username@)
                    &&& final(store).users() == old(store).users()
                },
                Err(Error::Store(pe)) => {
                    &&& final(store).users() == old(store).users()
                    &&& pe != ProvideError::UniqueViolation
                },
                Err(_) => false,
            },
    {
        match register_user(
            store,
            hasher,
            user.username.as_slice(),
            user.email.as_slice(),
            user.password.as_slice(),
        ) {
            Ok(rec) => {
                let u = User::from_record(&rec);
                proof {
                    assert(public_view(rec@) == u@);
                }
                Ok(SingleUserResponseBody::from(u))
            },
            Err(e) => Err(e),
        }
    }

    /// Log a user in as of the machine clock.
    pub fn login_user<S: UserStore>(
        &self,
        store: &S,
        hasher: &PasswordHasher,
        jwt: &Jwt,
        credentials: CredentialsRequestBody,
    ) -> (r: Result<AuthenticatedUserResponseBody, Error>)
        requires
            hasher.wf(),
            jwt.wf(),
            credentials.password@.len() <= 0xffffffff,
            forall|i: int| 0 <= i < store.users().len() ==> roles_bounded(
                (#[trigger] store.users()[i]).roles,
            ),
        ensures
            match r {
                Ok(b) => exists|now: u64|
                    now <= NOW_CEILING && #[trigger] login_ok(
                        store.users(),
                        *hasher,
                        *jwt,
                        credentials.username@,
                        credentials.password@,
                        now,
                        b,
                    ),
                Err(Error::UnknownUser) => !contains_username(
                    store.users(),
                    credentials.username@,
                ),
                Err(Error::InvalidCredentials) => exists|i: int|
                    0 <= i < store.users().len() && {
                        let m = #[trigger] store.users()[i];
                        &&& m.username == credentials.username@
                        &&& verify_spec(hasher.secret@, credentials.password@, m.password_hash)
                            == Some(false)
                    },
                Err(Error::Hashing(HashingError::MalformedStoredHash)) => exists|i: int|
                    0 <= i < store.users().len() && {
                        let m = #[trigger] store.users()[i];
                        &&& m.username == credentials.username@
                        &&& verify_spec(hasher.secret@, credentials.password@, m.password_hash)
                            is None
                    },
                Err(Error::Store(pe)) => pe == ProvideError::UnHandledError,
                Err(_) => false,
            },
    {
        login_user(store, hasher, jwt, &credentials)
    }
}

} // verus!
