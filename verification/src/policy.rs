//! Access-control predicates over a request context.
//!
//! A request carries at most one presented token.  Authentication holds
//! exactly when a token is present and validates — signature and expiry
//! both — at the evaluation time; administration additionally asks for the
//! admin role among the validated claims.  Both predicates are pure: they
//! can be evaluated any number of times without touching the token, and a
//! request whose token is expired is treated exactly like one with no
//! token at all.

use vstd::prelude::*;

use crate::claims::{wf_claims, ClaimsModel};
use crate::codec::bytes_eq;
use crate::token::{token_of, validate_spec, Jwt, NOW_CEILING};

verus! {

/// The admin role, the bytes of `admin`.
pub open spec fn admin_role_bytes() -> Seq<u8> {
    seq![97u8, 100u8, 109u8, 105u8, 110u8]
}

/// The admin role as a vector.
pub fn admin_role_vec() -> (r: Vec<u8>)
    ensures
        r@ == admin_role_bytes(),
{
    let mut r: Vec<u8> = Vec::new();
    r.push(97);
    r.push(100);
    r.push(109);
    r.push(105);
    r.push(110);
    proof {
        assert(r@ =~= admin_role_bytes());
    }
    r
}

/// The per-request context: the token service and the token the request
/// presented, if any.
pub struct Context {
    pub jwt: Jwt,
    pub token: Option<Vec<u8>>,
}

/// Whether the context is authenticated at time `now`: a token is present
/// and validates under the service secret.
pub open spec fn is_authenticated_at_spec(ctx: Context, now: u64) -> bool {
    match ctx.token {
        Some(t) => validate_spec(ctx.jwt.secret@, t@, now) is Ok,
        None => false,
    }
}

/// Whether the context is an administrator at time `now`: authenticated,
/// and the validated claims carry the admin role.
pub open spec fn is_admin_at_spec(ctx: Context, now: u64) -> bool {
    match ctx.token {
        Some(t) => match validate_spec(ctx.jwt.secret@, t@, now) {
            Ok(c) => c.roles.contains(admin_role_bytes()),
            Err(_) => false,
        },
        None => false,
    }
}

impl Context {
    /// Authentication as of time `now`.
    pub fn is_authenticated_at(&self, now: u64) -> (r: bool)
        ensures
            r == is_authenticated_at_spec(*self, now),
    {
        match &self.token {
            None => false,
            Some(t) => match self.jwt.validate_at(t.as_slice(), now) {
                Ok(_) => true,
                Err(_) => false,
            },
        }
    }

    /// Authentication as of the machine clock.  With no token present the
    /// answer is `false` at every time.
    pub fn is_authenticated(&self) -> (r: bool)
        ensures
            exists|now: u64|
                now <= NOW_CEILING && r == #[trigger] is_authenticated_at_spec(*self, now),
            self.token is None ==> !r,
    {
        let now = crate::token::now_seconds();
        self.is_authenticated_at(now)
    }

    /// Administration as of time `now`.
    pub fn is_admin_at(&self, now: u64) -> (r: bool)
        ensures
            r == is_admin_at_spec(*self, now),
    {
        let t = match &self.token {
            None => {
                return false;
            },
            Some(t) => t,
        };
        let c = match self.jwt.validate_at(t.as_slice(), now) {
            Ok(c) => c,
            Err(_) => {
                return false;
            },
        };
        let admin = admin_role_vec();
        let mut i: usize = 0;
        while i < c.roles.len()
            invariant
                i <= c.roles@.len(),
                forall|j: int| 0 <= j < i ==> #[trigger] c.roles@[j]@ != admin_role_bytes(),
                admin@ == admin_role_bytes(),
                self.token is Some,
                validate_spec(self.jwt.secret@, self.token->Some_0@, now) == Ok::<
                    ClaimsModel,
                    crate::error::TokenError,
                >(c@),
            decreases c.roles.len() - i,
        {
            if bytes_eq(c.roles[i].as_slice(), admin.as_slice()) {
                proof {
                    assert(c@.roles[i as int] == admin_role_bytes());
                    assert(c@.roles.contains(admin_role_bytes()));
                }
                return true;
            }
            i = i + 1;
        }
        proof {
            if c@.roles.contains(admin_role_bytes()) {
                let k = choose|k: int|
                    0 <= k < c@.roles.len() && c@.roles[k] == admin_role_bytes();
                assert(c.roles@[k]@ == admin_role_bytes());
            }
        }
        false
    }

    /// Administration as of the machine clock.  With no token present the
    /// answer is `false` at every time.
    pub fn is_admin(&self) -> (r: bool)
        ensures
            exists|now: u64| now <= NOW_CEILING && r == #[trigger] is_admin_at_spec(*self, now),
            self.token is None ==> !r,
    {
        let now = crate::token::now_seconds();
        self.is_admin_at(now)
    }
}

/// With no token presented, no time authenticates the request.
pub proof fn lemma_absent_token_never_authenticated(ctx: Context, now: u64)
    requires
        ctx.token is None,
    ensures
        !is_authenticated_at_spec(ctx, now),
{
}

/// A well-formed token past its expiry never authenticates, exactly as if
/// no token had been presented.
pub proof fn lemma_expired_token_never_authenticated(ctx: Context, c: ClaimsModel, now: u64)
    requires
        ctx.token matches Some(t) && t@ == token_of(ctx.jwt.secret@, c),
        wf_claims(c),
        now >= c.expires_at,
    ensures
        !is_authenticated_at_spec(ctx, now),
{
    crate::token::lemma_validate_expired(ctx.jwt.secret@, c, now);
}

/// A freshly issued, unexpired token authenticates.
pub proof fn lemma_fresh_token_authenticated(ctx: Context, c: ClaimsModel, now: u64)
    requires
        ctx.token matches Some(t) && t@ == token_of(ctx.jwt.secret@, c),
        wf_claims(c),
        now < c.expires_at,
    ensures
        is_authenticated_at_spec(ctx, now),
{
    crate::token::lemma_validate_after_issue(ctx.jwt.secret@, c, now);
}

/// Administration implies authentication: whenever a context is not
/// authenticated at a time, it is not an administrator at that time,
/// whatever roles any token may claim.
pub proof fn lemma_admin_requires_authentication(ctx: Context, now: u64)
    ensures
        !is_authenticated_at_spec(ctx, now) ==> !is_admin_at_spec(ctx, now),
{
}

/// A validated claim set carrying the admin role makes the context an
/// administrator; one without it does not.
pub proof fn lemma_admin_follows_roles(ctx: Context, c: ClaimsModel, now: u64)
    requires
        ctx.token matches Some(t) && t@ == token_of(ctx.jwt.secret@, c),
        wf_claims(c),
        now < c.expires_at,
    ensures
        is_admin_at_spec(ctx, now) == c.roles.contains(admin_role_bytes()),
{
    crate::token::lemma_validate_after_issue(ctx.jwt.secret@, c, now);
}

} // verus!
