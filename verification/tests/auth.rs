//! Password hashing, token, and access-policy behaviour on concrete
//! values.

use users::claims::ClaimSet;
use users::error::{Error, HashingError, TokenError};
use users::hashpw::PasswordHasher;
use users::policy::Context;
use users::settings::{Argon, Jwt as JwtSettings};
use users::token::{audience_vec, issuer_vec, Jwt};

fn fast_hasher() -> PasswordHasher {
    PasswordHasher::new(&Argon {
        secret: String::from("pepper"),
        memory_size: Some(8),
        iterations: Some(1),
    })
    .expect("parameters are in range")
}

fn test_jwt() -> Jwt {
    Jwt {
        secret: b"token-secret".to_vec(),
        duration_minutes: 15,
    }
}

#[test]
fn verify_accepts_hash_of_same_password() {
    let hasher = fast_hasher();
    let stored = hasher.hash(b"s3cret").expect("hashing cannot fail");
    assert_eq!(hasher.verify(b"s3cret", &stored), Ok(true));
}

#[test]
fn verify_rejects_hash_of_other_password() {
    let hasher = fast_hasher();
    let stored = hasher.hash(b"s3cret").expect("hashing cannot fail");
    assert_eq!(hasher.verify(b"wrongpass", &stored), Ok(false));
    assert_eq!(hasher.verify(b"", &stored), Ok(false));
}

#[test]
fn hash_twice_differs_and_both_verify() {
    let hasher = fast_hasher();
    let first = hasher.hash(b"s3cret").expect("hashing cannot fail");
    let second = hasher.hash(b"s3cret").expect("hashing cannot fail");
    assert_ne!(first, second);
    assert_eq!(hasher.verify(b"s3cret", &first), Ok(true));
    assert_eq!(hasher.verify(b"s3cret", &second), Ok(true));
}

#[test]
fn verify_errors_on_malformed_stored_hash() {
    let hasher = fast_hasher();
    assert_eq!(
        hasher.verify(b"s3cret", b"not a stored hash"),
        Err(Error::Hashing(HashingError::MalformedStoredHash))
    );
    assert_eq!(
        hasher.verify(b"s3cret", b""),
        Err(Error::Hashing(HashingError::MalformedStoredHash))
    );
}

#[test]
fn pepper_matters() {
    let hasher = fast_hasher();
    let other = PasswordHasher::new(&Argon {
        secret: String::from("other pepper"),
        memory_size: Some(8),
        iterations: Some(1),
    })
    .expect("parameters are in range");
    let stored = hasher.hash(b"s3cret").expect("hashing cannot fail");
    assert_eq!(other.verify(b"s3cret", &stored), Ok(false));
}

#[test]
fn hasher_rejects_bad_parameters() {
    let r = PasswordHasher::new(&Argon {
        secret: String::from("pepper"),
        memory_size: Some(4),
        iterations: Some(1),
    });
    assert!(matches!(r, Err(Error::Hashing(HashingError::Misconfigured))));
    let r = PasswordHasher::new(&Argon {
        secret: String::from("pepper"),
        memory_size: Some(8),
        iterations: Some(0),
    });
    assert!(matches!(r, Err(Error::Hashing(HashingError::Misconfigured))));
}

#[test]
fn issue_then_validate_returns_same_claims() {
    let jwt = test_jwt();
    let roles = vec![b"editor".to_vec(), b"admin".to_vec()];
    let now: u64 = 1_700_000_000;
    let token = jwt.issue_at(roles.clone(), now);
    let claims: ClaimSet = jwt.validate_at(&token, now).expect("fresh token validates");
    assert_eq!(claims.roles, roles);
    assert_eq!(claims.issuer, issuer_vec());
    assert_eq!(claims.audience, audience_vec());
    assert_eq!(claims.issued_at, now);
    assert_eq!(claims.expires_at, now + 60 * 15);
}

#[test]
fn expired_token_fails_with_expiry() {
    let jwt = test_jwt();
    let now: u64 = 1_700_000_000;
    let token = jwt.issue_at(vec![b"admin".to_vec()], now);
    let at_expiry = now + 60 * 15;
    assert!(matches!(
        jwt.validate_at(&token, at_expiry),
        Err(TokenError::Expired)
    ));
    assert!(matches!(
        jwt.validate_at(&token, at_expiry + 1_000_000),
        Err(TokenError::Expired)
    ));
    assert!(jwt.validate_at(&token, at_expiry - 1).is_ok());
}

#[test]
fn bit_flipped_signature_fails_with_signature_error() {
    let jwt = test_jwt();
    let now: u64 = 1_700_000_000;
    let token = jwt.issue_at(vec![b"admin".to_vec()], now);
    let dot = token.iter().rposition(|b| *b == b'.').expect("token has a dot");
    let mut sig = users::hex::hex_decode(&token[dot + 1..]).expect("signature segment is hex");
    sig[0] ^= 1;
    let mut forged = token[..dot + 1].to_vec();
    forged.extend_from_slice(&users::hex::hex_encode(&sig));
    assert!(matches!(
        jwt.validate_at(&forged, now),
        Err(TokenError::SignatureInvalid)
    ));
}

#[test]
fn tampered_claims_never_validate() {
    let jwt = test_jwt();
    let now: u64 = 1_700_000_000;
    let mut token = jwt.issue_at(vec![b"admin".to_vec()], now);
    // Flip a bit inside the claims segment (between the two dots).
    token[20] ^= 1;
    assert!(jwt.validate_at(&token, now).is_err());
}

#[test]
fn garbage_tokens_are_malformed() {
    let jwt = test_jwt();
    let now: u64 = 1_700_000_000;
    assert!(matches!(
        jwt.validate_at(b"", now),
        Err(TokenError::Malformed)
    ));
    assert!(matches!(
        jwt.validate_at(b"abc", now),
        Err(TokenError::Malformed)
    ));
    // Wrong algorithm header: rejected before any signature check.
    assert!(matches!(
        jwt.validate_at(b"4853323537.00.0000", now),
        Err(TokenError::Malformed)
    ));
    // Right header, but a two-byte signature cannot match an HMAC tag.
    assert!(matches!(
        jwt.validate_at(b"4853323536.00.0000", now),
        Err(TokenError::SignatureInvalid)
    ));
}

#[test]
fn token_from_other_secret_fails() {
    let jwt = test_jwt();
    let other = Jwt {
        secret: b"another secret".to_vec(),
        duration_minutes: 15,
    };
    let now: u64 = 1_700_000_000;
    let token = other.issue_at(vec![], now);
    assert!(matches!(
        jwt.validate_at(&token, now),
        Err(TokenError::SignatureInvalid)
    ));
}

#[test]
fn encode_and_decode_use_the_clock() {
    let jwt = test_jwt();
    let token = jwt
        .encode(users::token::PrivateClaims {
            roles: vec![b"admin".to_vec()],
        })
        .expect("issuance cannot fail");
    let claims = jwt.decode(&token).expect("fresh token validates");
    assert_eq!(claims.roles, vec![b"admin".to_vec()]);
}

#[test]
fn jwt_new_validates_configuration() {
    let good = Jwt::new(&users::settings::Settings {
        debug: false,
        testing: true,
        mode: String::from("testing"),
        argon: Argon {
            secret: String::from("pepper"),
            memory_size: Some(8),
            iterations: Some(1),
        },
        jwt: JwtSettings {
            secret: String::from("token-secret"),
            duration: 15,
        },
        database: users::settings::Database {
            url: String::from("postgres://localhost/users"),
        },
        service: users::settings::Service {
            host: String::from("localhost"),
            port: 5000,
        },
    });
    let jwt = good.expect("configuration is valid");
    assert_eq!(jwt.secret, b"token-secret".to_vec());
    assert_eq!(jwt.duration_minutes, 15);

    let mut settings = users::settings::Settings {
        debug: false,
        testing: true,
        mode: String::from("testing"),
        argon: Argon {
            secret: String::from("pepper"),
            memory_size: None,
            iterations: None,
        },
        jwt: JwtSettings {
            secret: String::from(""),
            duration: 15,
        },
        database: users::settings::Database {
            url: String::from(""),
        },
        service: users::settings::Service {
            host: String::from(""),
            port: 0,
        },
    };
    assert!(Jwt::new(&settings).is_err());
    settings.jwt.secret = String::from("token-secret");
    settings.jwt.duration = 0;
    assert!(Jwt::new(&settings).is_err());
    settings.jwt.duration = -5;
    assert!(Jwt::new(&settings).is_err());
}

#[test]
fn is_authenticated_cases() {
    let jwt = test_jwt();
    let now: u64 = 1_700_000_000;
    let token = jwt.issue_at(vec![], now);

    let absent = Context {
        jwt: jwt.clone(),
        token: None,
    };
    assert!(!absent.is_authenticated_at(now));
    assert!(!absent.is_authenticated());

    let fresh = Context {
        jwt: jwt.clone(),
        token: Some(token.clone()),
    };
    assert!(fresh.is_authenticated_at(now));

    let expired_time = now + 60 * 15;
    assert!(!fresh.is_authenticated_at(expired_time));
}

#[test]
fn is_admin_follows_roles_and_authentication() {
    let jwt = test_jwt();
    let now: u64 = 1_700_000_000;

    let admin_token = jwt.issue_at(vec![b"admin".to_vec()], now);
    let admin_ctx = Context {
        jwt: jwt.clone(),
        token: Some(admin_token),
    };
    assert!(admin_ctx.is_admin_at(now));

    let plain_token = jwt.issue_at(vec![], now);
    let plain_ctx = Context {
        jwt: jwt.clone(),
        token: Some(plain_token),
    };
    assert!(!plain_ctx.is_admin_at(now));

    // Expired admin token: not authenticated, so never admin.
    let expired_time = now + 60 * 15;
    assert!(!admin_ctx.is_authenticated_at(expired_time));
    assert!(!admin_ctx.is_admin_at(expired_time));

    let absent = Context { jwt, token: None };
    assert!(!absent.is_admin_at(now));
    assert!(!absent.is_admin());
}
