//! Issuing and validating signed, time-bounded tokens.
//!
//! A token is a printable byte string of three hex segments separated by
//! dots: a fixed algorithm header, the claim-set wire bytes, and an
//! HMAC-SHA-256 signature over `header ++ '.' ++ claim bytes` under the
//! service's symmetric secret.  Issuance and validation happen in the same
//! trust domain, so shared-secret signing suffices.  Validation classifies
//! a token as malformed, wrongly signed, or expired, and never returns
//! claims whose signature or expiry check failed.

use vstd::prelude::*;

use crate::claims::{
    bytes_seq_view, dec_claims, decode_claims, enc_claims, encode_claims, lemma_dec_enc,
    wf_claims, ClaimSet, ClaimsModel,
};
use crate::codec::{bytes_eq, push_all};
use crate::error::{Error, TokenError};
use crate::hex::{hex_decode, hex_encode, hex_digit, hex_of, lemma_hex_of_len, lemma_unhex_hex_of,
    unhex};
use crate::settings::Settings;
use vstd::slice::slice_subrange;
use vstd::string::StrSliceExecFns;
use vstd::utf8::encode_utf8;

verus! {

/// Tokens are issued with this lifetime cap: one hundred years in
/// minutes.
pub const MAX_DURATION_MINUTES: u64 = 52596000;

/// The clock value past which issue times are clamped, so that an expiry
/// computed with any accepted duration cannot overflow.
pub const NOW_CEILING: u64 = u64::MAX - 60 * 52596000;

/// The fixed algorithm header, the bytes of `HS256`.
pub open spec fn header_bytes() -> Seq<u8> {
    seq![72u8, 83u8, 50u8, 53u8, 54u8]
}

/// The fixed issuer identifier, the bytes of `https://www.acme.com`.
pub open spec fn issuer_bytes() -> Seq<u8> {
    seq![
        104u8, 116u8, 116u8, 112u8, 115u8, 58u8, 47u8, 47u8, 119u8, 119u8, 119u8, 46u8, 97u8,
        99u8, 109u8, 101u8, 46u8, 99u8, 111u8, 109u8,
    ]
}

/// The fixed subject identifier, the bytes of `John Doe`.
pub open spec fn subject_bytes() -> Seq<u8> {
    seq![74u8, 111u8, 104u8, 110u8, 32u8, 68u8, 111u8, 101u8]
}

/// The fixed audience identifier, the bytes of
/// `htts://acme-customer.com`.
pub open spec fn audience_bytes() -> Seq<u8> {
    seq![
        104u8, 116u8, 116u8, 115u8, 58u8, 47u8, 47u8, 97u8, 99u8, 109u8, 101u8, 45u8, 99u8,
        117u8, 115u8, 116u8, 111u8, 109u8, 101u8, 114u8, 46u8, 99u8, 111u8, 109u8,
    ]
}

/// The fixed algorithm header as a vector.
pub fn header_vec() -> (r: Vec<u8>)
    ensures
        r@ == header_bytes(),
{
    let mut r: Vec<u8> = Vec::new();
    r.push(72);
    r.push(83);
    r.push(50);
    r.push(53);
    r.push(54);
    proof {
        assert(r@ =~= header_bytes());
    }
    r
}

/// The fixed issuer identifier as a vector.
pub fn issuer_vec() -> (r: Vec<u8>)
    ensures
        r@ == issuer_bytes(),
{
    let mut r: Vec<u8> = Vec::new();
    r.push(104);
    r.push(116);
    r.push(116);
    r.push(112);
    r.push(115);
    r.push(58);
    r.push(47);
    r.push(47);
    r.push(119);
    r.push(119);
    r.push(119);
    r.push(46);
    r.push(97);
    r.push(99);
    r.push(109);
    r.push(101);
    r.push(46);
    r.push(99);
    r.push(111);
    r.push(109);
    proof {
        assert(r@ =~= issuer_bytes());
    }
    r
}

/// The fixed subject identifier as a vector.
pub fn subject_vec() -> (r: Vec<u8>)
    ensures
        r@ == subject_bytes(),
{
    let mut r: Vec<u8> = Vec::new();
    r.push(74);
    r.push(111);
    r.push(104);
    r.push(110);
    r.push(32);
    r.push(68);
    r.push(111);
    r.push(101);
    proof {
        assert(r@ =~= subject_bytes());
    }
    r
}

/// The fixed audience identifier as a vector.
pub fn audience_vec() -> (r: Vec<u8>)
    ensures
        r@ == audience_bytes(),
{
    let mut r: Vec<u8> = Vec::new();
    r.push(104);
    r.push(116);
    r.push(116);
    r.push(115);
    r.push(58);
    r.push(47);
    r.push(47);
    r.push(97);
    r.push(99);
    r.push(109);
    r.push(101);
    r.push(45);
    r.push(99);
    r.push(117);
    r.push(115);
    r.push(116);
    r.push(111);
    r.push(109);
    r.push(101);
    r.push(114);
    r.push(46);
    r.push(99);
    r.push(111);
    r.push(109);
    proof {
        assert(r@ =~= audience_bytes());
    }
    r
}

/// What HMAC-SHA-256 returns for a key and a message.  The result is a
/// function of the two arguments alone.
pub uninterp spec fn hmac_sha256_of(key: Seq<u8>, msg: Seq<u8>) -> Seq<u8>;

/// Relies on `hmac::Hmac` over `sha2::Sha256`: the tag is a function of
/// key and message alone and is 32 bytes long; `new_from_slice` accepts
/// keys of any length.
#[verifier::external_body]
fn hmac_sha256(key: &[u8], msg: &[u8]) -> (r: Vec<u8>)
    ensures
        r@ == hmac_sha256_of(key@, msg@),
        r@.len() == 32,
{
    let mut mac = <hmac::Hmac<sha2::Sha256> as hmac::KeyInit>::new_from_slice(key).expect(
        "HMAC accepts keys of any length",
    );
    hmac::Mac::update(&mut mac, msg);
    hmac::Mac::finalize(mac).into_bytes().to_vec()
}

/// Relies on `std::time::SystemTime::now`: seconds since the Unix epoch,
/// as the machine clock reports them; a clock set before the epoch reads
/// as zero.  Nothing more is promised of the value.
#[verifier::external_body]
fn epoch_seconds_raw() -> (r: u64) {
    match std::time::SystemTime::now().duration_since(std::time::UNIX_EPOCH) {
        Ok(since_epoch) => since_epoch.as_secs(),
        Err(_) => 0,
    }
}

/// The current clock, clamped to `NOW_CEILING` so that expiry arithmetic
/// cannot overflow for any accepted duration.
pub fn now_seconds() -> (r: u64)
    ensures
        r <= NOW_CEILING,
{
    let raw = epoch_seconds_raw();
    if raw > NOW_CEILING {
        NOW_CEILING
    } else {
        raw
    }
}

/// The signing input of a token: header, dot, claim bytes.
pub open spec fn signing_input(cb: Seq<u8>) -> Seq<u8> {
    header_bytes() + seq![46u8] + cb
}

/// The signature carried by a token over claim bytes `cb`.
pub open spec fn sig_bytes_of(secret: Seq<u8>, cb: Seq<u8>) -> Seq<u8> {
    hmac_sha256_of(secret, signing_input(cb))
}

/// The token issued for a claim set under a secret.
pub open spec fn token_of(secret: Seq<u8>, c: ClaimsModel) -> Seq<u8> {
    hex_of(header_bytes()) + seq![46u8] + hex_of(enc_claims(c)) + seq![46u8] + hex_of(
        sig_bytes_of(secret, enc_claims(c)),
    )
}

/// The index of the last dot in a byte string, or -1.
pub open spec fn find_last_dot(t: Seq<u8>) -> int
    decreases t.len(),
{
    if t.len() == 0 {
        -1
    } else if t.last() == 46 {
        t.len() - 1
    } else {
        find_last_dot(t.drop_last())
    }
}

/// The split of a token into decoded claim bytes and signature bytes, or
/// `None` if the string is not header-dot-hex-dot-hex under the fixed
/// header.
pub open spec fn parse_token(t: Seq<u8>) -> Option<(Seq<u8>, Seq<u8>)> {
    let j = find_last_dot(t);
    if t.len() >= 12 && t[10] == 46 && 11 <= j {
        match (unhex(t.subrange(0, 10)), unhex(t.subrange(11, j)), unhex(
            t.subrange(j + 1, t.len() as int),
        )) {
            (Some(h), Some(cb), Some(sb)) => if h == header_bytes() {
                Some((cb, sb))
            } else {
                None
            },
            _ => None,
        }
    } else {
        None
    }
}

/// What validation returns for a token under a secret at time `now`:
/// the claims exactly when the token parses, its signature matches the
/// claim bytes, and `now` lies strictly before the expiry; otherwise the
/// classification of the first failing check.
pub open spec fn validate_spec(secret: Seq<u8>, t: Seq<u8>, now: u64) -> Result<
    ClaimsModel,
    TokenError,
> {
    match parse_token(t) {
        None => Err(TokenError::Malformed),
        Some((cb, sb)) => if sb != sig_bytes_of(secret, cb) {
            Err(TokenError::SignatureInvalid)
        } else {
            match dec_claims(cb) {
                None => Err(TokenError::Malformed),
                Some(c) => if now >= c.expires_at {
                    Err(TokenError::Expired)
                } else {
                    Ok(c)
                },
            }
        },
    }
}

proof fn lemma_hex_of_no_dot(s: Seq<u8>)
    ensures
        forall|i: int| 0 <= i < hex_of(s).len() ==> hex_of(s)[i] != 46,
    decreases s.len(),
{
    if s.len() > 0 {
        lemma_hex_of_no_dot(s.drop_last());
        let h = hex_of(s);
        let hp = hex_of(s.drop_last());
        let d1 = hex_digit((s.last() / 16) as u8);
        let d2 = hex_digit((s.last() % 16) as u8);
        assert(d1 != 46);
        assert(d2 != 46);
        assert forall|i: int| 0 <= i < h.len() implies h[i] != 46 by {
            if i < hp.len() {
                assert(h[i] == hp[i]);
            } else {
                assert(h[i] == d1 || h[i] == d2);
            }
        }
    }
}

proof fn lemma_find_last_dot_app(x: Seq<u8>, b: Seq<u8>)
    requires
        forall|i: int| 0 <= i < b.len() ==> b[i] != 46,
    ensures
        find_last_dot(x + seq![46u8] + b) == x.len(),
    decreases b.len(),
{
    let t = x + seq![46u8] + b;
    if b.len() == 0 {
        assert(t.last() == 46);
    } else {
        assert(t.last() == b.last());
        assert(b.last() != 46);
        assert(t.drop_last() =~= x + seq![46u8] + b.drop_last());
        lemma_find_last_dot_app(x, b.drop_last());
    }
}

/// A token built by `token_of` parses back into its claim bytes and its
/// signature bytes.
proof fn lemma_parse_token_of(secret: Seq<u8>, c: ClaimsModel)
    requires
        wf_claims(c),
    ensures
        parse_token(token_of(secret, c)) == Some(
            (enc_claims(c), sig_bytes_of(secret, enc_claims(c))),
        ),
{
    lemma_parse_token_shape(enc_claims(c), sig_bytes_of(secret, enc_claims(c)));
}

/// Any string of the token shape (fixed header, hex claim bytes, hex
/// signature bytes) parses into exactly those two byte strings.
proof fn lemma_parse_token_shape(cb: Seq<u8>, sb: Seq<u8>)
    ensures
        parse_token(
            hex_of(header_bytes()) + seq![46u8] + hex_of(cb) + seq![46u8] + hex_of(sb),
        ) == Some((cb, sb)),
{
    let hh = hex_of(header_bytes());
    let hc = hex_of(cb);
    let hs = hex_of(sb);
    let t = hh + seq![46u8] + hc + seq![46u8] + hs;
    lemma_hex_of_len(header_bytes());
    lemma_hex_of_len(cb);
    lemma_hex_of_len(sb);
    let x = hh + seq![46u8] + hc;
    assert(t =~= x + seq![46u8] + hs);
    lemma_hex_of_no_dot(sb);
    lemma_find_last_dot_app(x, hs);
    let j = find_last_dot(t);
    assert(j == 11 + hc.len());
    assert(t.len() == 12 + hc.len() + hs.len());
    assert(t[10] == 46);
    assert(t.subrange(0, 10) =~= hh);
    assert(t.subrange(11, j) =~= hc);
    assert(t.subrange(j + 1, t.len() as int) =~= hs);
    lemma_unhex_hex_of(header_bytes());
    lemma_unhex_hex_of(cb);
    lemma_unhex_hex_of(sb);
}

/// A fresh token validates back to exactly the claims it was issued for.
pub proof fn lemma_validate_after_issue(secret: Seq<u8>, c: ClaimsModel, now: u64)
    requires
        wf_claims(c),
        now < c.expires_at,
    ensures
        validate_spec(secret, token_of(secret, c), now) == Ok::<ClaimsModel, TokenError>(c),
{
    lemma_parse_token_of(secret, c);
    lemma_dec_enc(c);
}

/// A token validated at or after its expiry fails as expired, whatever
/// else it carries; and validation never returns expired claims.
pub proof fn lemma_validate_expired(secret: Seq<u8>, c: ClaimsModel, now: u64)
    requires
        wf_claims(c),
        now >= c.expires_at,
    ensures
        validate_spec(secret, token_of(secret, c), now) == Err::<ClaimsModel, TokenError>(
            TokenError::Expired,
        ),
{
    lemma_parse_token_of(secret, c);
    lemma_dec_enc(c);
}

/// Validation only ever succeeds strictly before the expiry of the claims
/// it returns.
pub proof fn lemma_validate_ok_fresh(secret: Seq<u8>, t: Seq<u8>, now: u64)
    ensures
        match validate_spec(secret, t, now) {
            Ok(c) => now < c.expires_at,
            Err(_) => true,
        },
{
}

/// A token whose signature segment encodes anything but the signature of
/// its claim bytes fails with a signature error, at every time and before
/// any claim is decoded.
pub proof fn lemma_validate_bad_signature(secret: Seq<u8>, cb: Seq<u8>, sig2: Seq<u8>, now: u64)
    requires
        sig2 != sig_bytes_of(secret, cb),
    ensures
        validate_spec(
            secret,
            hex_of(header_bytes()) + seq![46u8] + hex_of(cb) + seq![46u8] + hex_of(sig2),
            now,
        ) == Err::<ClaimsModel, TokenError>(TokenError::SignatureInvalid),
{
    lemma_parse_token_shape(cb, sig2);
}

/// The roles placed in a token's claims: counted and sized for the wire
/// format.
pub open spec fn roles_bounded(roles: Seq<Seq<u8>>) -> bool {
    &&& roles.len() <= 0xffffffff
    &&& forall|i: int| 0 <= i < roles.len() ==> #[trigger] roles[i].len() <= 0xffffffff
}

/// The claim set issued for `roles` at time `now` with a lifetime of
/// `duration_minutes`.
pub open spec fn issue_claims(roles: Seq<Seq<u8>>, now: u64, duration_minutes: u64) -> ClaimsModel
    recommends
        now <= NOW_CEILING,
        duration_minutes <= MAX_DURATION_MINUTES,
{
    ClaimsModel {
        roles,
        subject: subject_bytes(),
        issuer: issuer_bytes(),
        audience: audience_bytes(),
        issued_at: now,
        expires_at: (now + 60 * duration_minutes) as u64,
    }
}

/// The claims a token carries: the roles of the authenticated user.
/// Issuer, subject, audience and the timestamps are the service's to set.
pub struct PrivateClaims {
    pub roles: Vec<Vec<u8>>,
}

/// The token service: issues tokens over the signing secret and validates
/// presented ones.  The secret and duration are set once at startup.
#[derive(Debug, Clone)]
pub struct Jwt {
    pub secret: Vec<u8>,
    pub duration_minutes: u64,
}

impl Jwt {
    /// A usable service: a nonempty secret and a positive, capped
    /// duration.
    pub open spec fn wf(&self) -> bool {
        &&& 1 <= self.duration_minutes <= MAX_DURATION_MINUTES
        &&& 1 <= self.secret@.len() <= 0xffffffff
    }

    /// Build the service from configuration, rejecting an empty secret
    /// and a lifetime that is zero, negative, or over the cap.
    pub fn new(settings: &Settings) -> (r: Result<Jwt, Error>)
        ensures
            match r {
                Ok(j) => {
                    &&& j.wf()
                    &&& j.secret@ == encode_utf8(settings.jwt.secret@)
                    &&& j.duration_minutes == settings.jwt.duration
                },
                Err(e) => {
                    &&& e == Error::Config
                    &&& (encode_utf8(settings.jwt.secret@).len() == 0 || !(1
                        <= settings.jwt.duration <= MAX_DURATION_MINUTES as i64)
                        || encode_utf8(settings.jwt.secret@).len() > 0xffffffff)
                },
            },
    {
        let secret = settings.jwt.secret.as_str().as_bytes_vec();
        if secret.len() == 0 || secret.len() > 0xffffffff {
            return Err(Error::Config);
        }
        if settings.jwt.duration < 1 || settings.jwt.duration > MAX_DURATION_MINUTES as i64 {
            return Err(Error::Config);
        }
        Ok(Jwt { secret, duration_minutes: settings.jwt.duration as u64 })
    }

    /// Issue a token for `roles` as of time `now`: claims from `now` to
    /// `now` plus the configured duration, signed with the service
    /// secret.
    pub fn issue_at(&self, roles: Vec<Vec<u8>>, now: u64) -> (t: Vec<u8>)
        requires
            self.wf(),
            now <= NOW_CEILING,
            roles_bounded(bytes_seq_view(roles@)),
        ensures
            t@ == token_of(
                self.secret@,
                issue_claims(bytes_seq_view(roles@), now, self.duration_minutes),
            ),
    {
        let ghost model = issue_claims(bytes_seq_view(roles@), now, self.duration_minutes);
        let expires_at = now + 60 * self.duration_minutes;
        let c = ClaimSet {
            roles,
            subject: subject_vec(),
            issuer: issuer_vec(),
            audience: audience_vec(),
            issued_at: now,
            expires_at,
        };
        proof {
            assert(c@ =~= model);
        }
        let cb = encode_claims(&c);
        let mut si = header_vec();
        si.push(46);
        push_all(&mut si, cb.as_slice());
        proof {
            assert(si@ =~= signing_input(cb@));
        }
        let sig = hmac_sha256(self.secret.as_slice(), si.as_slice());
        let mut t = hex_encode(header_vec().as_slice());
        t.push(46);
        let hc = hex_encode(cb.as_slice());
        push_all(&mut t, hc.as_slice());
        t.push(46);
        let hs = hex_encode(sig.as_slice());
        push_all(&mut t, hs.as_slice());
        proof {
            assert(t@ =~= token_of(self.secret@, model));
        }
        t
    }

    /// Issue a token for `claims.roles` as of the machine clock.  The
    /// clock value is clamped to `NOW_CEILING`, so issuance itself never
    /// fails.
    pub fn encode(&self, claims: PrivateClaims) -> (r: Result<Vec<u8>, Error>)
        requires
            self.wf(),
            roles_bounded(bytes_seq_view(claims.roles@)),
        ensures
            match r {
                Ok(t) => exists|now: u64|
                    now <= NOW_CEILING && t@ == token_of(
                        self.secret@,
                        #[trigger] issue_claims(
                            bytes_seq_view(claims.roles@),
                            now,
                            self.duration_minutes,
                        ),
                    ),
                Err(_) => false,
            },
    {
        let now = now_seconds();
        Ok(self.issue_at(claims.roles, now))
    }

    /// Validate a presented token as of time `now`, returning the claims
    /// or the classification of the first failing check.
    pub fn validate_at(&self, token: &[u8], now: u64) -> (r: Result<ClaimSet, TokenError>)
        ensures
            match r {
                Ok(c) => validate_spec(self.secret@, token@, now) == Ok::<
                    ClaimsModel,
                    TokenError,
                >(c@),
                Err(e) => validate_spec(self.secret@, token@, now) == Err::<
                    ClaimsModel,
                    TokenError,
                >(e),
            },
    {
        if token.len() < 12 {
            return Err(TokenError::Malformed);
        }
        if token[10] != 46 {
            return Err(TokenError::Malformed);
        }
        let j = match find_last_dot_exec(token) {
            Some(j) => j,
            None => {
                return Err(TokenError::Malformed);
            },
        };
        if j < 11 {
            return Err(TokenError::Malformed);
        }
        let hb = match hex_decode(slice_subrange(token, 0, 10)) {
            Some(h) => h,
            None => {
                return Err(TokenError::Malformed);
            },
        };
        let header = header_vec();
        if !bytes_eq(hb.as_slice(), header.as_slice()) {
            return Err(TokenError::Malformed);
        }
        let cb = match hex_decode(slice_subrange(token, 11, j)) {
            Some(c) => c,
            None => {
                return Err(TokenError::Malformed);
            },
        };
        let sb = match hex_decode(slice_subrange(token, j + 1, token.len())) {
            Some(s) => s,
            None => {
                return Err(TokenError::Malformed);
            },
        };
        let mut si = header_vec();
        si.push(46);
        push_all(&mut si, cb.as_slice());
        proof {
            assert(si@ =~= signing_input(cb@));
        }
        let mac = hmac_sha256(self.secret.as_slice(), si.as_slice());
        if !bytes_eq(sb.as_slice(), mac.as_slice()) {
            return Err(TokenError::SignatureInvalid);
        }
        let c = match decode_claims(cb.as_slice()) {
            Some(c) => c,
            None => {
                return Err(TokenError::Malformed);
            },
        };
        if now >= c.expires_at {
            return Err(TokenError::Expired);
        }
        Ok(c)
    }

    /// Validate a presented token as of the machine clock.
    pub fn decode(&self, token: &[u8]) -> (r: Result<ClaimSet, Error>)
        ensures
            match r {
                Ok(c) => exists|now: u64|
                    now <= NOW_CEILING && #[trigger] validate_spec(self.secret@, token@, now)
                        == Ok::<ClaimsModel, TokenError>(c@),
                Err(Error::Token(e)) => exists|now: u64|
                    now <= NOW_CEILING && #[trigger] validate_spec(self.secret@, token@, now)
                        == Err::<ClaimsModel, TokenError>(e),
                Err(_) => false,
            },
    {
        let now = now_seconds();
        match self.validate_at(token, now) {
            Ok(c) => Ok(c),
            Err(e) => Err(Error::Token(e)),
        }
    }
}

/// The position of the last dot in a byte string.
fn find_last_dot_exec(t: &[u8]) -> (r: Option<usize>)
    ensures
        match r {
            Some(j) => find_last_dot(t@) == j && j < t@.len(),
            None => find_last_dot(t@) == -1,
        },
{
    let mut i: usize = t.len();
    proof {
        assert(t@.take(t@.len() as int) =~= t@);
    }
    while i > 0
        invariant
            i <= t@.len(),
            find_last_dot(t@) == find_last_dot(t@.take(i as int)),
        decreases i,
    {
        if t[i - 1] == 46 {
            proof {
                assert(t@.take(i as int).last() == t@[i - 1]);
            }
            return Some(i - 1);
        }
        proof {
            assert(t@.take(i as int).last() == t@[i - 1]);
            assert(t@.take(i as int).drop_last() =~= t@.take(i - 1));
        }
        i = i - 1;
    }
    proof {
        assert(t@.take(0).len() == 0);
    }
    None
}

} // verus!
