//! Password hashing and verification.
//!
//! A password is hashed with Argon2id under a fresh random salt, tunable
//! cost parameters, and the service-wide pepper.  The stored hash is a
//! printable byte string carrying the algorithm tag, both cost parameters,
//! the salt, and the digest, so verification is self-contained: it parses
//! the stored hash, recomputes the digest with the embedded parameters and
//! the service pepper, and compares.  A mismatch is `false`; only a stored
//! hash that is not in this format at all is an error.

use vstd::prelude::*;

use crate::codec::{be32_bytes, be32_val, bytes_eq, push_all, u32_to_be};
use crate::error::{Error, HashingError};
use crate::hex::{hex_decode, hex_encode, hex_of, lemma_hex_of_len, lemma_unhex_hex_of, unhex};
use crate::settings::Argon;
use vstd::slice::slice_subrange;
use vstd::string::StrSliceExecFns;
use vstd::utf8::encode_utf8;

verus! {

/// Cost parameters used when the configuration names none: memory in
/// KiB blocks and passes over the memory.
pub const DEFAULT_MEMORY_SIZE: u32 = 4096;

/// Default number of passes.
pub const DEFAULT_ITERATIONS: u32 = 192;

/// The smallest and largest accepted memory cost, in KiB blocks.
pub const MIN_MEMORY_SIZE: u32 = 8;

/// Largest accepted memory cost: two GiB of blocks, the algorithm's own
/// cap on 32-bit machines.
pub const MAX_MEMORY_SIZE: u32 = 0x200000;

/// The length of the random salt drawn for each hash.
pub const SALT_LEN: usize = 16;

/// The length of the Argon2id digest.
pub const DIGEST_LEN: usize = 32;

/// What Argon2id (version 0x13, one lane, 32-byte output) returns for a
/// password, salt, secret, and cost parameters.  The digest is a function
/// of these five arguments alone.
pub uninterp spec fn argon2id_digest(
    password: Seq<u8>,
    salt: Seq<u8>,
    secret: Seq<u8>,
    mem_cost: u32,
    iterations: u32,
) -> Seq<u8>;

/// Relies on `argon2::hash_raw` of the `rust-argon2` crate, with variant
/// Argon2id, version 0x13, one sequential lane, empty associated data and
/// a 32-byte digest: the digest is a function of password, salt, secret
/// and the two cost parameters, and the call returns `Ok` whenever the
/// context checks pass, which the preconditions here mirror.
#[verifier::external_body]
fn argon2id_hash_raw(
    password: &[u8],
    salt: &[u8],
    secret: &[u8],
    mem_cost: u32,
    iterations: u32,
) -> (r: Vec<u8>)
    requires
        MIN_MEMORY_SIZE <= mem_cost <= MAX_MEMORY_SIZE,
        1 <= iterations,
        8 <= salt@.len() <= 0xffffffff,
        password@.len() <= 0xffffffff,
        secret@.len() <= 0xffffffff,
    ensures
        r@ == argon2id_digest(password@, salt@, secret@, mem_cost, iterations),
        r@.len() == DIGEST_LEN,
{
    let config = argon2::Config {
        ad: &[],
        hash_length: 32,
        lanes: 1,
        mem_cost,
        secret,
        thread_mode: argon2::ThreadMode::Sequential,
        time_cost: iterations,
        variant: argon2::Variant::Argon2id,
        version: argon2::Version::Version13,
    };
    argon2::hash_raw(password, salt, &config).expect("parameters are validated by the caller")
}

/// Relies on `rand::random`: sixteen bytes drawn from the thread-local
/// generator.  Nothing is promised of the values.
#[verifier::external_body]
fn random_salt() -> (r: Vec<u8>)
    ensures
        r@.len() == SALT_LEN,
{
    rand::random::<[u8; 16]>().to_vec()
}

/// The algorithm tag of the stored-hash format, the bytes of `argon2id`.
pub open spec fn tag_bytes() -> Seq<u8> {
    seq![97u8, 114u8, 103u8, 111u8, 110u8, 50u8, 105u8, 100u8]
}

/// The algorithm tag as a vector.
fn tag_vec() -> (r: Vec<u8>)
    ensures
        r@ == tag_bytes(),
{
    let mut r: Vec<u8> = Vec::new();
    r.push(97);
    r.push(114);
    r.push(103);
    r.push(111);
    r.push(110);
    r.push(50);
    r.push(105);
    r.push(100);
    proof {
        assert(r@ =~= tag_bytes());
    }
    r
}

/// The stored-hash string for cost parameters, a salt, and a digest:
/// `$argon2id$` then both parameters, the salt, and the digest in hex,
/// separated by dollar signs.
pub open spec fn stored_of(mem_cost: u32, iterations: u32, salt: Seq<u8>, digest: Seq<u8>) -> Seq<
    u8,
> {
    seq![36u8] + tag_bytes() + seq![36u8] + hex_of(be32_bytes(mem_cost)) + hex_of(
        be32_bytes(iterations),
    ) + seq![36u8] + hex_of(salt) + seq![36u8] + hex_of(digest)
}

/// The parameters, salt, and digest carried by a stored hash, or `None`
/// if the bytes are not a stored hash with a 16-byte salt, a 32-byte
/// digest, and parameters in the accepted ranges.
pub open spec fn parse_stored(s: Seq<u8>) -> Option<(u32, u32, Seq<u8>, Seq<u8>)> {
    if s.len() == 124 && s[0] == 36 && s[9] == 36 && s[26] == 36 && s[59] == 36 && s.subrange(
        1,
        9,
    ) == tag_bytes() {
        match (unhex(s.subrange(10, 18)), unhex(s.subrange(18, 26)), unhex(s.subrange(27, 59)),
        unhex(s.subrange(60, 124))) {
            (Some(mb), Some(ib), Some(salt), Some(digest)) => {
                let mem_cost = be32_val(mb);
                let iterations = be32_val(ib);
                if MIN_MEMORY_SIZE <= mem_cost <= MAX_MEMORY_SIZE && 1 <= iterations {
                    Some((mem_cost, iterations, salt, digest))
                } else {
                    None
                }
            },
            _ => None,
        }
    } else {
        None
    }
}

/// What verification returns for a password against a stored hash under
/// the service pepper: `None` when the stored hash does not parse, and
/// otherwise whether the recomputed digest matches the stored one.
pub open spec fn verify_spec(secret: Seq<u8>, password: Seq<u8>, stored: Seq<u8>) -> Option<
    bool,
> {
    match parse_stored(stored) {
        None => None,
        Some((mem_cost, iterations, salt, digest)) => Some(
            digest == argon2id_digest(password, salt, secret, mem_cost, iterations),
        ),
    }
}

proof fn lemma_unhex_len(s: Seq<u8>)
    ensures
        match unhex(s) {
            Some(v) => 2 * v.len() == s.len(),
            None => true,
        },
    decreases s.len(),
{
    if s.len() >= 2 {
        lemma_unhex_len(s.skip(2));
    }
}

/// A stored hash parses back into exactly the parameters, salt, and
/// digest it was built from.
pub proof fn lemma_parse_stored_of(mem_cost: u32, iterations: u32, salt: Seq<u8>, digest: Seq<u8>)
    requires
        MIN_MEMORY_SIZE <= mem_cost <= MAX_MEMORY_SIZE,
        1 <= iterations,
        salt.len() == SALT_LEN,
        digest.len() == DIGEST_LEN,
    ensures
        parse_stored(stored_of(mem_cost, iterations, salt, digest)) == Some(
            (mem_cost, iterations, salt, digest),
        ),
{
    let hm = hex_of(be32_bytes(mem_cost));
    let hi = hex_of(be32_bytes(iterations));
    let hs = hex_of(salt);
    let hd = hex_of(digest);
    lemma_hex_of_len(be32_bytes(mem_cost));
    lemma_hex_of_len(be32_bytes(iterations));
    lemma_hex_of_len(salt);
    lemma_hex_of_len(digest);
    let t = stored_of(mem_cost, iterations, salt, digest);
    assert(t.len() == 124);
    assert(t[0] == 36);
    assert(t[9] == 36);
    assert(t[26] == 36);
    assert(t[59] == 36);
    assert(t.subrange(1, 9) =~= tag_bytes());
    assert(t.subrange(10, 18) =~= hm);
    assert(t.subrange(18, 26) =~= hi);
    assert(t.subrange(27, 59) =~= hs);
    assert(t.subrange(60, 124) =~= hd);
    lemma_unhex_hex_of(be32_bytes(mem_cost));
    lemma_unhex_hex_of(be32_bytes(iterations));
    lemma_unhex_hex_of(salt);
    lemma_unhex_hex_of(digest);
    crate::codec::lemma_be32_round_trip(mem_cost);
    crate::codec::lemma_be32_round_trip(iterations);
}

/// Verifying a password against a hash of that same password succeeds,
/// whatever salt the hash was drawn with.
pub proof fn lemma_verify_of_hash(
    secret: Seq<u8>,
    password: Seq<u8>,
    salt: Seq<u8>,
    mem_cost: u32,
    iterations: u32,
)
    requires
        MIN_MEMORY_SIZE <= mem_cost <= MAX_MEMORY_SIZE,
        1 <= iterations,
        salt.len() == SALT_LEN,
        argon2id_digest(password, salt, secret, mem_cost, iterations).len() == DIGEST_LEN,
    ensures
        verify_spec(
            secret,
            password,
            stored_of(
                mem_cost,
                iterations,
                salt,
                argon2id_digest(password, salt, secret, mem_cost, iterations),
            ),
        ) == Some(true),
{
    lemma_parse_stored_of(
        mem_cost,
        iterations,
        salt,
        argon2id_digest(password, salt, secret, mem_cost, iterations),
    );
}

/// Verifying any other password against that hash fails, as long as the
/// two passwords' digests differ under the hash's salt and parameters
/// (Argon2id gives colliding passwords no better odds than chance, but
/// collisions are not impossible, so they are excluded here).
pub proof fn lemma_verify_rejects_other(
    secret: Seq<u8>,
    tried: Seq<u8>,
    hashed: Seq<u8>,
    salt: Seq<u8>,
    mem_cost: u32,
    iterations: u32,
)
    requires
        MIN_MEMORY_SIZE <= mem_cost <= MAX_MEMORY_SIZE,
        1 <= iterations,
        salt.len() == SALT_LEN,
        argon2id_digest(hashed, salt, secret, mem_cost, iterations).len() == DIGEST_LEN,
        argon2id_digest(tried, salt, secret, mem_cost, iterations) != argon2id_digest(
            hashed,
            salt,
            secret,
            mem_cost,
            iterations,
        ),
    ensures
        verify_spec(
            secret,
            tried,
            stored_of(
                mem_cost,
                iterations,
                salt,
                argon2id_digest(hashed, salt, secret, mem_cost, iterations),
            ),
        ) == Some(false),
{
    lemma_parse_stored_of(
        mem_cost,
        iterations,
        salt,
        argon2id_digest(hashed, salt, secret, mem_cost, iterations),
    );
}

/// Hashes drawn with distinct salts are distinct stored strings, and each
/// still verifies against the password it hashed.
pub proof fn lemma_distinct_salts_distinct_hashes(
    secret: Seq<u8>,
    password: Seq<u8>,
    salt1: Seq<u8>,
    salt2: Seq<u8>,
    mem_cost: u32,
    iterations: u32,
)
    requires
        MIN_MEMORY_SIZE <= mem_cost <= MAX_MEMORY_SIZE,
        1 <= iterations,
        salt1.len() == SALT_LEN,
        salt2.len() == SALT_LEN,
        salt1 != salt2,
        argon2id_digest(password, salt1, secret, mem_cost, iterations).len() == DIGEST_LEN,
        argon2id_digest(password, salt2, secret, mem_cost, iterations).len() == DIGEST_LEN,
    ensures
        stored_of(
            mem_cost,
            iterations,
            salt1,
            argon2id_digest(password, salt1, secret, mem_cost, iterations),
        ) != stored_of(
            mem_cost,
            iterations,
            salt2,
            argon2id_digest(password, salt2, secret, mem_cost, iterations),
        ),
        verify_spec(
            secret,
            password,
            stored_of(
                mem_cost,
                iterations,
                salt1,
                argon2id_digest(password, salt1, secret, mem_cost, iterations),
            ),
        ) == Some(true),
        verify_spec(
            secret,
            password,
            stored_of(
                mem_cost,
                iterations,
                salt2,
                argon2id_digest(password, salt2, secret, mem_cost, iterations),
            ),
        ) == Some(true),
{
    let d1 = argon2id_digest(password, salt1, secret, mem_cost, iterations);
    let d2 = argon2id_digest(password, salt2, secret, mem_cost, iterations);
    lemma_parse_stored_of(mem_cost, iterations, salt1, d1);
    lemma_parse_stored_of(mem_cost, iterations, salt2, d2);
    lemma_verify_of_hash(secret, password, salt1, mem_cost, iterations);
    lemma_verify_of_hash(secret, password, salt2, mem_cost, iterations);
    if stored_of(mem_cost, iterations, salt1, d1) == stored_of(mem_cost, iterations, salt2, d2) {
        assert(parse_stored(stored_of(mem_cost, iterations, salt1, d1)) == parse_stored(
            stored_of(mem_cost, iterations, salt2, d2),
        ));
        assert(salt1 == salt2);
    }
}

/// The password hasher: the service-wide pepper and the two cost
/// parameters, validated once at construction.
#[derive(Debug, Clone)]
pub struct PasswordHasher {
    pub secret: Vec<u8>,
    pub memory_size: u32,
    pub iterations: u32,
}

impl PasswordHasher {
    /// A usable hasher: cost parameters in the accepted ranges and a
    /// pepper that Argon2 accepts.
    pub open spec fn wf(&self) -> bool {
        &&& MIN_MEMORY_SIZE <= self.memory_size <= MAX_MEMORY_SIZE
        &&& 1 <= self.iterations
        &&& self.secret@.len() <= 0xffffffff
    }

    /// Build the hasher from configuration, applying the default cost
    /// parameters where none are given and rejecting values outside the
    /// accepted ranges.
    pub fn new(settings: &Argon) -> (r: Result<PasswordHasher, Error>)
        ensures
            match r {
                Ok(h) => {
                    &&& h.wf()
                    &&& h.secret@ == encode_utf8(settings.secret@)
                    &&& h.memory_size == match settings.memory_size {
                        Some(m) => m,
                        None => DEFAULT_MEMORY_SIZE,
                    }
                    &&& h.iterations == match settings.iterations {
                        Some(i) => i,
                        None => DEFAULT_ITERATIONS,
                    }
                },
                Err(e) => e == Error::Hashing(HashingError::Misconfigured),
            },
    {
        let memory_size = match settings.memory_size {
            Some(m) => m,
            None => DEFAULT_MEMORY_SIZE,
        };
        let iterations = match settings.iterations {
            Some(i) => i,
            None => DEFAULT_ITERATIONS,
        };
        if memory_size < MIN_MEMORY_SIZE || memory_size > MAX_MEMORY_SIZE {
            return Err(Error::Hashing(HashingError::Misconfigured));
        }
        if iterations < 1 {
            return Err(Error::Hashing(HashingError::Misconfigured));
        }
        let secret = settings.secret.as_str().as_bytes_vec();
        if secret.len() > 0xffffffff {
            return Err(Error::Hashing(HashingError::Misconfigured));
        }
        Ok(PasswordHasher { secret, memory_size, iterations })
    }

    /// Hash a password under a caller-chosen salt: the digest under the
    /// embedded parameters and the pepper, in the stored-hash format.
    pub fn hash_with_salt(&self, password: &[u8], salt: &Vec<u8>) -> (r: Vec<u8>)
        requires
            self.wf(),
            salt@.len() == SALT_LEN,
            password@.len() <= 0xffffffff,
        ensures
            r@ == stored_of(
                self.memory_size,
                self.iterations,
                salt@,
                argon2id_digest(password@, salt@, self.secret@, self.memory_size, self.iterations),
            ),
            verify_spec(self.secret@, password@, r@) == Some(true),
    {
        let digest = argon2id_hash_raw(
            password,
            salt.as_slice(),
            self.secret.as_slice(),
            self.memory_size,
            self.iterations,
        );
        let mut out: Vec<u8> = Vec::new();
        out.push(36);
        let tag = tag_vec();
        push_all(&mut out, tag.as_slice());
        out.push(36);
        let hm = hex_encode(u32_to_be(self.memory_size).as_slice());
        push_all(&mut out, hm.as_slice());
        let hi = hex_encode(u32_to_be(self.iterations).as_slice());
        push_all(&mut out, hi.as_slice());
        out.push(36);
        let hs = hex_encode(salt.as_slice());
        push_all(&mut out, hs.as_slice());
        out.push(36);
        let hd = hex_encode(digest.as_slice());
        push_all(&mut out, hd.as_slice());
        proof {
            assert(out@ =~= stored_of(
                self.memory_size,
                self.iterations,
                salt@,
                argon2id_digest(password@, salt@, self.secret@, self.memory_size, self.iterations),
            ));
            lemma_verify_of_hash(
                self.secret@,
                password@,
                salt@,
                self.memory_size,
                self.iterations,
            );
        }
        out
    }

    /// Hash a password under a fresh random salt.  The result verifies
    /// against the password; with a well-formed hasher the operation
    /// cannot fail.
    pub fn hash(&self, password: &[u8]) -> (r: Result<Vec<u8>, Error>)
        requires
            self.wf(),
            password@.len() <= 0xffffffff,
        ensures
            match r {
                Ok(h) => {
                    &&& verify_spec(self.secret@, password@, h@) == Some(true)
                    &&& exists|salt: Seq<u8>|
                        salt.len() == SALT_LEN && h@ == stored_of(
                            self.memory_size,
                            self.iterations,
                            salt,
                            #[trigger] argon2id_digest(
                                password@,
                                salt,
                                self.secret@,
                                self.memory_size,
                                self.iterations,
                            ),
                        )
                },
                Err(_) => false,
            },
    {
        let salt = random_salt();
        Ok(self.hash_with_salt(password, &salt))
    }

    /// Verify a password against a stored hash: parse the stored hash,
    /// recompute the digest with the embedded parameters and the pepper,
    /// and compare.  A well-formed mismatch is `Ok(false)`; only a stored
    /// hash outside the format is an error.
    pub fn verify(&self, password: &[u8], stored: &[u8]) -> (r: Result<bool, Error>)
        requires
            self.wf(),
            password@.len() <= 0xffffffff,
        ensures
            match r {
                Ok(b) => verify_spec(self.secret@, password@, stored@) == Some(b),
                Err(e) => {
                    &&& verify_spec(self.secret@, password@, stored@) is None
                    &&& e == Error::Hashing(HashingError::MalformedStoredHash)
                },
            },
    {
        if stored.len() != 124 {
            return Err(Error::Hashing(HashingError::MalformedStoredHash));
        }
        if stored[0] != 36 || stored[9] != 36 || stored[26] != 36 || stored[59] != 36 {
            return Err(Error::Hashing(HashingError::MalformedStoredHash));
        }
        let tag = tag_vec();
        if !bytes_eq(slice_subrange(stored, 1, 9), tag.as_slice()) {
            return Err(Error::Hashing(HashingError::MalformedStoredHash));
        }
        let mb = match hex_decode(slice_subrange(stored, 10, 18)) {
            Some(v) => v,
            None => {
                return Err(Error::Hashing(HashingError::MalformedStoredHash));
            },
        };
        let ib = match hex_decode(slice_subrange(stored, 18, 26)) {
            Some(v) => v,
            None => {
                return Err(Error::Hashing(HashingError::MalformedStoredHash));
            },
        };
        let salt = match hex_decode(slice_subrange(stored, 27, 59)) {
            Some(v) => v,
            None => {
                return Err(Error::Hashing(HashingError::MalformedStoredHash));
            },
        };
        let digest = match hex_decode(slice_subrange(stored, 60, 124)) {
            Some(v) => v,
            None => {
                return Err(Error::Hashing(HashingError::MalformedStoredHash));
            },
        };
        proof {
            lemma_unhex_len(stored@.subrange(10, 18));
            lemma_unhex_len(stored@.subrange(18, 26));
            lemma_unhex_len(stored@.subrange(27, 59));
            lemma_unhex_len(stored@.subrange(60, 124));
        }
        let mem_cost = crate::codec::read_u32_at(mb.as_slice(), 0);
        let iterations = crate::codec::read_u32_at(ib.as_slice(), 0);
        proof {
            assert(mb@.subrange(0, 4) =~= mb@);
            assert(ib@.subrange(0, 4) =~= ib@);
        }
        if mem_cost < MIN_MEMORY_SIZE || mem_cost > MAX_MEMORY_SIZE {
            return Err(Error::Hashing(HashingError::MalformedStoredHash));
        }
        if iterations < 1 {
            return Err(Error::Hashing(HashingError::MalformedStoredHash));
        }
        let recomputed = argon2id_hash_raw(
            password,
            salt.as_slice(),
            self.secret.as_slice(),
            mem_cost,
            iterations,
        );
        Ok(bytes_eq(digest.as_slice(), recomputed.as_slice()))
    }
}

} // verus!
