//! Claim sets and their wire format.
//!
//! A claim set is the payload carried inside a signed token: the roles of
//! the authenticated user, fixed issuer/subject/audience identifiers, and
//! the issue and expiry times.  The wire format is length-prefixed and
//! strict: every field is preceded by its big-endian length, the expiry
//! must lie after the issue time, and trailing bytes are rejected, so a
//! byte string decodes to at most one claim set.

use vstd::prelude::*;

use crate::codec::{
    be32_bytes, be32_val, be64_bytes, be64_val, lemma_be32_round_trip, lemma_be64_round_trip,
    push_all, read_u32_at, read_u64_at, u32_to_be, u64_to_be,
};
use vstd::slice::{slice_subrange, slice_to_vec};

verus! {

/// The byte strings held by a sequence of byte vectors.
pub open spec fn bytes_seq_view(v: Seq<Vec<u8>>) -> Seq<Seq<u8>> {
    Seq::new(v.len(), |i: int| v[i]@)
}

/// The mathematical model of a claim set.
#[verifier::ext_equal]
pub struct ClaimsModel {
    pub roles: Seq<Seq<u8>>,
    pub subject: Seq<u8>,
    pub issuer: Seq<u8>,
    pub audience: Seq<u8>,
    pub issued_at: u64,
    pub expires_at: u64,
}

/// A claim set as carried inside a token.
pub struct ClaimSet {
    pub roles: Vec<Vec<u8>>,
    pub subject: Vec<u8>,
    pub issuer: Vec<u8>,
    pub audience: Vec<u8>,
    pub issued_at: u64,
    pub expires_at: u64,
}

impl View for ClaimSet {
    type V = ClaimsModel;

    open spec fn view(&self) -> ClaimsModel {
        ClaimsModel {
            roles: bytes_seq_view(self.roles@),
            subject: self.subject@,
            issuer: self.issuer@,
            audience: self.audience@,
            issued_at: self.issued_at,
            expires_at: self.expires_at,
        }
    }
}

/// A claim set that the wire format can carry: the expiry lies after the
/// issue time and every variable-length field fits its 32-bit length
/// prefix.
pub open spec fn wf_claims(c: ClaimsModel) -> bool {
    &&& c.issued_at < c.expires_at
    &&& c.subject.len() <= 0xffffffff
    &&& c.issuer.len() <= 0xffffffff
    &&& c.audience.len() <= 0xffffffff
    &&& c.roles.len() <= 0xffffffff
    &&& forall|i: int| 0 <= i < c.roles.len() ==> #[trigger] c.roles[i].len() <= 0xffffffff
}

/// A length-prefixed field: four big-endian length bytes, then the bytes.
pub open spec fn lp(x: Seq<u8>) -> Seq<u8>
    recommends
        x.len() <= 0xffffffff,
{
    be32_bytes(x.len() as u32) + x
}

/// The concatenation of the length-prefixed roles.
pub open spec fn enc_roles(roles: Seq<Seq<u8>>) -> Seq<u8>
    decreases roles.len(),
{
    if roles.len() == 0 {
        Seq::empty()
    } else {
        enc_roles(roles.drop_last()) + lp(roles.last())
    }
}

/// The wire encoding of a claim set.
pub open spec fn enc_claims(c: ClaimsModel) -> Seq<u8> {
    be64_bytes(c.issued_at) + be64_bytes(c.expires_at) + lp(c.issuer) + lp(c.subject) + lp(
        c.audience,
    ) + be32_bytes(c.roles.len() as u32) + enc_roles(c.roles)
}

/// Read a 64-bit field from the front, returning it with the remainder.
pub open spec fn take_u64(s: Seq<u8>) -> Option<(u64, Seq<u8>)> {
    if s.len() >= 8 {
        Some((be64_val(s.take(8)), s.skip(8)))
    } else {
        None
    }
}

/// Read a 32-bit field from the front, returning it with the remainder.
pub open spec fn take_u32(s: Seq<u8>) -> Option<(u32, Seq<u8>)> {
    if s.len() >= 4 {
        Some((be32_val(s.take(4)), s.skip(4)))
    } else {
        None
    }
}

/// Read a length-prefixed field from the front.
pub open spec fn take_lp(s: Seq<u8>) -> Option<(Seq<u8>, Seq<u8>)> {
    if s.len() >= 4 {
        let n = be32_val(s.take(4)) as int;
        if s.len() - 4 >= n {
            Some((s.subrange(4, 4 + n), s.skip(4 + n)))
        } else {
            None
        }
    } else {
        None
    }
}

/// Read `count` length-prefixed fields from the front.
pub open spec fn take_roles(s: Seq<u8>, count: nat) -> Option<(Seq<Seq<u8>>, Seq<u8>)>
    decreases count,
{
    if count == 0 {
        Some((Seq::empty(), s))
    } else {
        match take_lp(s) {
            Some((x, r)) => match take_roles(r, (count - 1) as nat) {
                Some((xs, r2)) => Some((seq![x] + xs, r2)),
                None => None,
            },
            None => None,
        }
    }
}

/// The claim set encoded by a byte string, or `None` if the bytes are not
/// the encoding of any well-formed claim set.
pub open spec fn dec_claims(s: Seq<u8>) -> Option<ClaimsModel> {
    match take_u64(s) {
        Some((iat, s1)) => match take_u64(s1) {
            Some((exp, s2)) => match take_lp(s2) {
                Some((iss, s3)) => match take_lp(s3) {
                    Some((sub, s4)) => match take_lp(s4) {
                        Some((aud, s5)) => match take_u32(s5) {
                            Some((cnt, s6)) => match take_roles(s6, cnt as nat) {
                                Some((roles, s7)) => if s7.len() == 0 && iat < exp {
                                    Some(
                                        ClaimsModel {
                                            roles,
                                            subject: sub,
                                            issuer: iss,
                                            audience: aud,
                                            issued_at: iat,
                                            expires_at: exp,
                                        },
                                    )
                                } else {
                                    None
                                },
                                None => None,
                            },
                            None => None,
                        },
                        None => None,
                    },
                    None => None,
                },
                None => None,
            },
            None => None,
        },
        None => None,
    }
}

proof fn lemma_take_u64_enc(n: u64, rest: Seq<u8>)
    ensures
        take_u64(be64_bytes(n) + rest) == Some((n, rest)),
{
    lemma_be64_round_trip(n);
    assert((be64_bytes(n) + rest).take(8) =~= be64_bytes(n));
    assert((be64_bytes(n) + rest).skip(8) =~= rest);
}

proof fn lemma_take_u32_enc(n: u32, rest: Seq<u8>)
    ensures
        take_u32(be32_bytes(n) + rest) == Some((n, rest)),
{
    lemma_be32_round_trip(n);
    assert((be32_bytes(n) + rest).take(4) =~= be32_bytes(n));
    assert((be32_bytes(n) + rest).skip(4) =~= rest);
}

proof fn lemma_take_lp_enc(x: Seq<u8>, rest: Seq<u8>)
    requires
        x.len() <= 0xffffffff,
    ensures
        take_lp(lp(x) + rest) == Some((x, rest)),
{
    lemma_be32_round_trip(x.len() as u32);
    let t = lp(x) + rest;
    assert(t.take(4) =~= be32_bytes(x.len() as u32));
    assert(t.len() - 4 == x.len() + rest.len());
    assert(t.subrange(4, 4 + x.len() as int) =~= x);
    assert(t.skip(4 + x.len() as int) =~= rest);
}

proof fn lemma_enc_roles_app(a: Seq<Seq<u8>>, b: Seq<Seq<u8>>)
    ensures
        enc_roles(a + b) == enc_roles(a) + enc_roles(b),
    decreases b.len(),
{
    if b.len() == 0 {
        assert(a + b =~= a);
        assert(enc_roles(a) + enc_roles(b) =~= enc_roles(a));
    } else {
        lemma_enc_roles_app(a, b.drop_last());
        assert((a + b).drop_last() =~= a + b.drop_last());
        assert((a + b).last() == b.last());
        assert(enc_roles(a) + enc_roles(b.drop_last()) + lp(b.last()) =~= enc_roles(a) + enc_roles(
            b,
        ));
    }
}

proof fn lemma_take_roles_enc(roles: Seq<Seq<u8>>, rest: Seq<u8>)
    requires
        forall|i: int| 0 <= i < roles.len() ==> #[trigger] roles[i].len() <= 0xffffffff,
    ensures
        take_roles(enc_roles(roles) + rest, roles.len()) == Some((roles, rest)),
    decreases roles.len(),
{
    if roles.len() == 0 {
        assert(enc_roles(roles) + rest =~= rest);
        assert(Seq::<Seq<u8>>::empty() =~= roles);
    } else {
        let first = roles[0];
        let tail = roles.skip(1);
        assert(roles =~= seq![first] + tail);
        lemma_enc_roles_app(seq![first], tail);
        assert(seq![first].drop_last() =~= Seq::<Seq<u8>>::empty());
        assert(enc_roles(Seq::<Seq<u8>>::empty()) + lp(first) =~= lp(first));
        assert(enc_roles(seq![first]) =~= lp(first));
        assert(enc_roles(roles) + rest =~= lp(first) + (enc_roles(tail) + rest));
        lemma_take_lp_enc(first, enc_roles(tail) + rest);
        lemma_take_roles_enc(tail, rest);
        assert(seq![first] + tail =~= roles);
    }
}

/// Decoding inverts encoding on every well-formed claim set.
#[verifier::rlimit(50)]
pub proof fn lemma_dec_enc(c: ClaimsModel)
    requires
        wf_claims(c),
    ensures
        dec_claims(enc_claims(c)) == Some(c),
{
    let e_iat = be64_bytes(c.issued_at);
    let e_exp = be64_bytes(c.expires_at);
    let e_iss = lp(c.issuer);
    let e_sub = lp(c.subject);
    let e_aud = lp(c.audience);
    let e_cnt = be32_bytes(c.roles.len() as u32);
    let e_roles = enc_roles(c.roles);
    let t = enc_claims(c);
    let r6 = e_roles;
    let r5 = e_cnt + r6;
    let r4 = e_aud + r5;
    let r3 = e_sub + r4;
    let r2 = e_iss + r3;
    let r1 = e_exp + r2;
    assert(t =~= e_iat + r1);
    lemma_take_u64_enc(c.issued_at, r1);
    lemma_take_u64_enc(c.expires_at, r2);
    lemma_take_lp_enc(c.issuer, r3);
    lemma_take_lp_enc(c.subject, r4);
    lemma_take_lp_enc(c.audience, r5);
    lemma_take_u32_enc(c.roles.len() as u32, r6);
    assert(r6 =~= e_roles + Seq::<u8>::empty());
    lemma_take_roles_enc(c.roles, Seq::<u8>::empty());
    assert(dec_claims(t) == Some(c));
}

/// Append a length-prefixed field.
fn push_lp(out: &mut Vec<u8>, x: &Vec<u8>)
    requires
        x@.len() <= 0xffffffff,
    ensures
        final(out)@ == old(out)@ + lp(x@),
{
    let n = u32_to_be(x.len() as u32);
    push_all(out, n.as_slice());
    push_all(out, x.as_slice());
    proof {
        assert(old(out)@ + be32_bytes(x@.len() as u32) + x@ =~= old(out)@ + lp(x@));
    }
}

/// Encode a claim set into its wire format.
pub fn encode_claims(c: &ClaimSet) -> (r: Vec<u8>)
    requires
        wf_claims(c@),
    ensures
        r@ == enc_claims(c@),
{
    let mut out = u64_to_be(c.issued_at);
    let exp = u64_to_be(c.expires_at);
    push_all(&mut out, exp.as_slice());
    push_lp(&mut out, &c.issuer);
    push_lp(&mut out, &c.subject);
    push_lp(&mut out, &c.audience);
    let cnt = u32_to_be(c.roles.len() as u32);
    push_all(&mut out, cnt.as_slice());
    let ghost prefix = out@;
    let mut i: usize = 0;
    while i < c.roles.len()
        invariant
            i <= c.roles@.len(),
            wf_claims(c@),
            out@ == prefix + enc_roles(bytes_seq_view(c.roles@).take(i as int)),
        decreases c.roles.len() - i,
    {
        proof {
            assert(c@.roles[i as int].len() <= 0xffffffff);
            assert(c@.roles[i as int] == c.roles@[i as int]@);
            assert(bytes_seq_view(c.roles@).take(i + 1).drop_last() =~= bytes_seq_view(
                c.roles@,
            ).take(i as int));
            assert(bytes_seq_view(c.roles@).take(i + 1).last() == c.roles@[i as int]@);
        }
        push_lp(&mut out, &c.roles[i]);
        proof {
            assert(out@ =~= prefix + enc_roles(bytes_seq_view(c.roles@).take(i + 1)));
        }
        i = i + 1;
    }
    proof {
        assert(bytes_seq_view(c.roles@).take(c.roles@.len() as int) =~= bytes_seq_view(c.roles@));
        assert(prefix + enc_roles(bytes_seq_view(c.roles@)) =~= enc_claims(c@));
    }
    out
}

/// Read a length-prefixed field at `pos`, returning it with the position
/// of the following byte.
fn take_lp_at(v: &[u8], pos: usize) -> (r: Option<(Vec<u8>, usize)>)
    requires
        pos <= v@.len(),
    ensures
        match r {
            Some(p) => {
                &&& take_lp(v@.skip(pos as int)) == Some((p.0@, v@.skip(p.1 as int)))
                &&& pos <= p.1 <= v@.len()
            },
            None => take_lp(v@.skip(pos as int)) is None,
        },
{
    if v.len() - pos < 4 {
        return None;
    }
    let n = read_u32_at(v, pos);
    proof {
        assert(v@.skip(pos as int).take(4) =~= v@.subrange(pos as int, pos + 4));
    }
    let n_us = n as usize;
    if v.len() - pos - 4 < n_us {
        return None;
    }
    let field = slice_to_vec(slice_subrange(v, pos + 4, pos + 4 + n_us));
    let next = pos + 4 + n_us;
    proof {
        assert(v@.skip(pos as int).subrange(4, 4 + n as int) =~= v@.subrange(
            pos + 4,
            pos + 4 + n as int,
        ));
        assert(v@.skip(pos as int).skip(4 + n as int) =~= v@.skip(next as int));
    }
    Some((field, next))
}

/// Read `cnt` length-prefixed roles at `start`, returning them with the
/// position of the following byte.
fn take_roles_at(v: &[u8], start: usize, cnt: u32) -> (r: Option<(Vec<Vec<u8>>, usize)>)
    requires
        start <= v@.len(),
    ensures
        match r {
            Some(p) => {
                &&& take_roles(v@.skip(start as int), cnt as nat) == Some(
                    (bytes_seq_view(p.0@), v@.skip(p.1 as int)),
                )
                &&& start <= p.1 <= v@.len()
            },
            None => take_roles(v@.skip(start as int), cnt as nat) is None,
        },
{
    let mut roles: Vec<Vec<u8>> = Vec::new();
    let mut i: u32 = 0;
    let mut pos: usize = start;
    proof {
        assert(bytes_seq_view(roles@) =~= Seq::<Seq<u8>>::empty());
        match take_roles(v@.skip(start as int), cnt as nat) {
            Some(p) => {
                assert(Seq::<Seq<u8>>::empty() + p.0 =~= p.0);
            },
            None => {},
        }
    }
    while i < cnt
        invariant
            i <= cnt,
            start <= pos <= v@.len(),
            match take_roles(v@.skip(pos as int), (cnt - i) as nat) {
                Some(p) => take_roles(v@.skip(start as int), cnt as nat) == Some(
                    (bytes_seq_view(roles@) + p.0, p.1),
                ),
                None => take_roles(v@.skip(start as int), cnt as nat) is None,
            },
        decreases cnt - i,
    {
        let r_role = take_lp_at(v, pos);
        match r_role {
            Some(p) => {
                let (role, p2) = p;
                proof {
                    let old_dv = bytes_seq_view(roles@);
                    match take_roles(v@.skip(p2 as int), (cnt - i - 1) as nat) {
                        Some(q) => {
                            assert(take_roles(v@.skip(pos as int), (cnt - i) as nat) == Some(
                                (seq![role@] + q.0, q.1),
                            ));
                            assert(old_dv + (seq![role@] + q.0) =~= (old_dv + seq![role@]) + q.0);
                        },
                        None => {},
                    }
                }
                let ghost pre = roles@;
                roles.push(role);
                proof {
                    assert(bytes_seq_view(roles@) =~= bytes_seq_view(pre) + seq![
                        roles@[pre.len() as int]@,
                    ]);
                }
                pos = p2;
                i = i + 1;
            },
            None => {
                return None;
            },
        }
    }
    Some((roles, pos))
}

/// Decode the wire format, accepting exactly the strings that `enc_claims`
/// produces from well-formed claim sets.
#[verifier::rlimit(50)]
pub fn decode_claims(v: &[u8]) -> (r: Option<ClaimSet>)
    ensures
        match r {
            Some(c) => dec_claims(v@) == Some(c@),
            None => dec_claims(v@) is None,
        },
{
    proof {
        assert(v@.skip(0) =~= v@);
    }
    if v.len() < 8 {
        return None;
    }
    let issued_at = read_u64_at(v, 0);
    proof {
        assert(v@.take(8) =~= v@.subrange(0, 8));
    }
    if v.len() - 8 < 8 {
        proof {
            assert(v@.skip(8).len() < 8);
        }
        return None;
    }
    let expires_at = read_u64_at(v, 8);
    proof {
        assert(v@.skip(8).take(8) =~= v@.subrange(8, 16));
        assert(v@.skip(8).skip(8) =~= v@.skip(16));
    }
    let r_iss = take_lp_at(v, 16);
    let (issuer, p3) = match r_iss {
        Some(p) => p,
        None => {
            return None;
        },
    };
    let r_sub = take_lp_at(v, p3);
    let (subject, p4) = match r_sub {
        Some(p) => p,
        None => {
            return None;
        },
    };
    let r_aud = take_lp_at(v, p4);
    let (audience, p5) = match r_aud {
        Some(p) => p,
        None => {
            return None;
        },
    };
    if v.len() - p5 < 4 {
        return None;
    }
    let cnt = read_u32_at(v, p5);
    proof {
        assert(v@.skip(p5 as int).take(4) =~= v@.subrange(p5 as int, p5 + 4));
        assert(v@.skip(p5 as int).skip(4) =~= v@.skip(p5 + 4));
    }
    let p6 = p5 + 4;
    let r_roles = take_roles_at(v, p6, cnt);
    let (roles, p7) = match r_roles {
        Some(p) => p,
        None => {
            return None;
        },
    };
    if p7 != v.len() {
        proof {
            assert(v@.skip(p7 as int).len() != 0);
        }
        return None;
    }
    if !(issued_at < expires_at) {
        return None;
    }
    let c = ClaimSet { roles, subject, issuer, audience, issued_at, expires_at };
    proof {
        assert(v@.skip(p7 as int).len() == 0);
        match dec_claims(v@) {
            Some(m) => {
                assert(m =~= c@);
            },
            None => {},
        }
    }
    Some(c)
}

} // verus!
