//! Registration, login, queries, and the low-level codecs on concrete
//! values.

use users::client::get_graphql_str_list_users;
use users::error::Error;
use users::gql::{Mutation, Query};
use users::hashpw::PasswordHasher;
use users::settings::Argon;
use users::store::{InMemoryUserStore, UserStore};
use users::token::Jwt;
use users::users::{
    add_user, find_user_by_username, list_users, login_at, login_user, register_user,
    CredentialsRequestBody, UserRequestBody,
};

fn fast_hasher() -> PasswordHasher {
    PasswordHasher::new(&Argon {
        secret: String::from("pepper"),
        memory_size: Some(8),
        iterations: Some(1),
    })
    .expect("parameters are in range")
}

fn test_jwt() -> Jwt {
    Jwt {
        secret: b"token-secret".to_vec(),
        duration_minutes: 15,
    }
}

#[test]
fn register_then_duplicate_username() {
    let mut store = InMemoryUserStore::new();
    let hasher = fast_hasher();
    let first = register_user(
        &mut store,
        &hasher,
        b"alice",
        b"alice@example.com",
        b"s3cret",
    );
    let record = first.expect("registration succeeds on a fresh username");
    assert_eq!(record.username, b"alice".to_vec());
    assert_eq!(record.email, b"alice@example.com".to_vec());
    assert!(record.roles.is_empty());
    assert!(record.active);

    let again = register_user(
        &mut store,
        &hasher,
        b"alice",
        b"other@example.com",
        b"other",
    );
    assert!(matches!(again, Err(Error::DuplicateUsername)));
}

#[test]
fn login_wrong_then_right_password() {
    let mut store = InMemoryUserStore::new();
    let hasher = fast_hasher();
    let jwt = test_jwt();
    register_user(
        &mut store,
        &hasher,
        b"alice",
        b"alice@example.com",
        b"s3cret",
    )
    .expect("registration succeeds");

    let now: u64 = 1_700_000_000;
    let wrong = login_at(&store, &hasher, &jwt, b"alice", b"wrongpass", now);
    assert!(matches!(wrong, Err(Error::InvalidCredentials)));

    let right = login_at(&store, &hasher, &jwt, b"alice", b"s3cret", now)
        .expect("login succeeds with the registered password");
    assert_eq!(right.user.username, b"alice".to_vec());
    let claims = jwt
        .validate_at(&right.token, now)
        .expect("issued token validates");
    assert!(claims.roles.is_empty());
}

#[test]
fn login_token_authenticates_a_context() {
    let mut store = InMemoryUserStore::new();
    let hasher = fast_hasher();
    let jwt = test_jwt();
    register_user(
        &mut store,
        &hasher,
        b"alice",
        b"alice@example.com",
        b"s3cret",
    )
    .expect("registration succeeds");
    let now: u64 = 1_700_000_000;
    let body = login_at(&store, &hasher, &jwt, b"alice", b"s3cret", now).expect("login succeeds");
    let ctx = users::policy::Context {
        jwt,
        token: Some(body.token),
    };
    assert!(ctx.is_authenticated_at(now));
    // A fresh account has no roles, so no admin access.
    assert!(!ctx.is_admin_at(now));
    // Past the token's lifetime the same context is unauthenticated.
    assert!(!ctx.is_authenticated_at(now + 60 * 15));
}

#[test]
fn login_unknown_user() {
    let store = InMemoryUserStore::new();
    let hasher = fast_hasher();
    let jwt = test_jwt();
    let r = login_at(&store, &hasher, &jwt, b"bob", b"whatever", 1_700_000_000);
    assert!(matches!(r, Err(Error::UnknownUser)));
}

#[test]
fn login_with_clock() {
    let mut store = InMemoryUserStore::new();
    let hasher = fast_hasher();
    let jwt = test_jwt();
    register_user(
        &mut store,
        &hasher,
        b"alice",
        b"alice@example.com",
        b"s3cret",
    )
    .expect("registration succeeds");
    let body = login_user(
        &store,
        &hasher,
        &jwt,
        &CredentialsRequestBody {
            username: b"alice".to_vec(),
            password: b"s3cret".to_vec(),
        },
    )
    .expect("login succeeds");
    assert!(jwt.decode(&body.token).is_ok());
}

#[test]
fn find_and_list_users() {
    let mut store = InMemoryUserStore::new();
    add_user(&mut store, b"alice", b"alice@example.com", b"pw1").expect("fresh username");
    add_user(&mut store, b"bob", b"bob@example.com", b"pw2").expect("fresh username");

    let found = find_user_by_username(&store, b"alice").expect("store cannot fail");
    assert_eq!(found.expect("alice exists").username, b"alice".to_vec());
    let missing = find_user_by_username(&store, b"carol").expect("store cannot fail");
    assert!(missing.is_none());

    let body = list_users(&store).expect("store cannot fail");
    assert_eq!(body.users_count, 2);
    assert_eq!(body.users.len(), 2);
    assert_eq!(body.users[0].username, b"alice".to_vec());
    assert_eq!(body.users[1].username, b"bob".to_vec());
    // Each record gets a fresh identifier and creation-time stamps.
    assert_ne!(body.users[0].id, body.users[1].id);
    assert_eq!(body.users[0].created_at, body.users[0].updated_at);
}

#[test]
fn add_user_stores_password_as_given() {
    let mut store = InMemoryUserStore::new();
    let rec = add_user(&mut store, b"alice", b"alice@example.com", b"plain").expect("fresh");
    assert_eq!(rec.password_hash, b"plain".to_vec());
}

#[test]
fn query_and_mutation_entry_points() {
    let mut store = InMemoryUserStore::new();
    let hasher = fast_hasher();
    let jwt = test_jwt();
    let q = Query;
    let m = Mutation;

    assert_eq!(q.content_for_all().content, String::from("Hello, all"));

    let registered = m
        .register_user(
            &mut store,
            &hasher,
            UserRequestBody {
                username: b"alice".to_vec(),
                email: b"alice@example.com".to_vec(),
                password: b"s3cret".to_vec(),
            },
        )
        .expect("registration succeeds");
    assert_eq!(
        registered.user.expect("a user is returned").username,
        b"alice".to_vec()
    );

    let logged_in = m
        .login_user(
            &store,
            &hasher,
            &jwt,
            CredentialsRequestBody {
                username: b"alice".to_vec(),
                password: b"s3cret".to_vec(),
            },
        )
        .expect("login succeeds");

    let ctx = users::policy::Context {
        jwt: jwt.clone(),
        token: Some(logged_in.token),
    };
    assert!(q.content_for_user(&ctx).is_ok());
    // No admin role on the fresh account.
    assert!(q.content_for_admin(&ctx).is_err());

    let anonymous = users::policy::Context {
        jwt: jwt.clone(),
        token: None,
    };
    assert!(q.content_for_user(&anonymous).is_err());
    assert!(q.content_for_admin(&anonymous).is_err());

    let listed = q.users(&store).expect("store cannot fail");
    assert_eq!(listed.users_count, 1);
}

#[test]
fn admin_content_with_admin_token() {
    let jwt = test_jwt();
    let q = Query;
    let token = jwt.issue_at(vec![b"admin".to_vec()], 1_700_000_000);
    let ctx = users::policy::Context {
        jwt,
        token: Some(token),
    };
    // The token was issued at a fixed past instant within its lifetime
    // only if the machine clock agrees; check the time-explicit predicate
    // instead.
    assert!(ctx.is_admin_at(1_700_000_000));
}

#[test]
fn error_labels_collapse_credential_failures() {
    assert_eq!(Error::UnknownUser.label(), "invalid credentials");
    assert_eq!(Error::InvalidCredentials.label(), "invalid credentials");
    assert_eq!(
        Error::Token(users::error::TokenError::Expired).label(),
        "unauthenticated"
    );
}

#[test]
fn graphql_list_users_query_text() {
    assert_eq!(
        get_graphql_str_list_users(),
        String::from("{ \"query\": \"{ users { users { id, username, email, roles, active, createdAt, updatedAt }, usersCount } }\" }")
    );
}

#[test]
fn graphql_add_user_query_escapes_values() {
    let body = UserRequestBody {
        username: b"al\"ice".to_vec(),
        email: b"alice@example.com".to_vec(),
        password: b"tab\there\nand\\slash".to_vec(),
    };
    let q = users::client::get_graphql_str_add_user(&body);
    let text = String::from_utf8(q).expect("query is printable");
    let expected = "{ \"query\": \"mutation addUser($user: UserRequestBody!) { addUser(user: $user) { user { id, username, email, roles, active, createdAt, updatedAt } } }\", \"variables\": { \"user\": { \"username\": \"al\\\"ice\", \"email\": \"alice@example.com\", \"password\": \"tab\\there\\nand\\\\slash\" } } }";
    assert_eq!(text, expected);
}

#[test]
fn graphql_find_user_query_escapes_values() {
    let q = users::client::get_graphql_str_find_user(b"bob\x01");
    let text = String::from_utf8(q).expect("query is printable");
    let expected = "{ \"query\": \"query findUser($username: String!) { findUserByUsername(username: $username) { user { id, username, email, roles, active, createdAt, updatedAt } } }\", \"variables\": { \"username\": \"bob\\u0001\" } }";
    assert_eq!(text, expected);
}

#[test]
fn hashing_is_deterministic_under_a_fixed_salt() {
    let hasher = fast_hasher();
    let salt = b"0123456789abcdef".to_vec();
    let one = hasher.hash_with_salt(b"s3cret", &salt);
    let two = hasher.hash_with_salt(b"s3cret", &salt);
    assert_eq!(one, two);
    let other = hasher.hash_with_salt(b"different", &salt);
    assert_ne!(one, other);
    assert_eq!(hasher.verify(b"s3cret", &one), Ok(true));
    assert_eq!(hasher.verify(b"different", &other), Ok(true));
    assert_eq!(hasher.verify(b"different", &one), Ok(false));
}

#[test]
fn hex_round_trip_and_rejection() {
    let encoded = users::hex::hex_encode(&[0xde, 0xad, 0x01]);
    assert_eq!(encoded, b"dead01".to_vec());
    assert_eq!(
        users::hex::hex_decode(b"dead01"),
        Some(vec![0xde, 0xad, 0x01])
    );
    assert_eq!(users::hex::hex_decode(b"dead0"), None);
    assert_eq!(users::hex::hex_decode(b"zz"), None);
    assert_eq!(users::hex::hex_decode(b"DE"), None);
    assert_eq!(users::hex::hex_decode(b""), Some(vec![]));
}

#[test]
fn integer_fields_round_trip() {
    assert_eq!(users::codec::u32_to_be(0x01020304), vec![1, 2, 3, 4]);
    assert_eq!(users::codec::read_u32_at(&[1, 2, 3, 4], 0), 0x01020304);
    assert_eq!(
        users::codec::u64_to_be(0x0102030405060708),
        vec![1, 2, 3, 4, 5, 6, 7, 8]
    );
    assert_eq!(
        users::codec::read_u64_at(&[1, 2, 3, 4, 5, 6, 7, 8], 0),
        0x0102030405060708
    );
}

#[test]
fn claims_wire_format_round_trip() {
    let c = users::claims::ClaimSet {
        roles: vec![b"admin".to_vec(), b"editor".to_vec()],
        subject: b"John Doe".to_vec(),
        issuer: b"issuer".to_vec(),
        audience: b"audience".to_vec(),
        issued_at: 100,
        expires_at: 200,
    };
    let bytes = users::claims::encode_claims(&c);
    let back = users::claims::decode_claims(&bytes).expect("encoding decodes");
    assert_eq!(back.roles, c.roles);
    assert_eq!(back.subject, c.subject);
    assert_eq!(back.issuer, c.issuer);
    assert_eq!(back.audience, c.audience);
    assert_eq!(back.issued_at, 100);
    assert_eq!(back.expires_at, 200);
}

#[test]
fn claims_wire_format_is_strict() {
    let c = users::claims::ClaimSet {
        roles: vec![],
        subject: b"s".to_vec(),
        issuer: b"i".to_vec(),
        audience: b"a".to_vec(),
        issued_at: 100,
        expires_at: 200,
    };
    let good = users::claims::encode_claims(&c);

    // Trailing bytes: rejected.
    let mut padded = good.clone();
    padded.push(0);
    assert!(users::claims::decode_claims(&padded).is_none());

    // Truncation: rejected.
    assert!(users::claims::decode_claims(&good[..good.len() - 1]).is_none());
    assert!(users::claims::decode_claims(b"").is_none());
}
