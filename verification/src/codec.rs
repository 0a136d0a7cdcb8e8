//! Fixed-width big-endian integer fields and whole-buffer comparison,
//! the low-level pieces of the claim-set wire format.

use vstd::prelude::*;

verus! {

/// The four big-endian bytes of a 32-bit value.
pub open spec fn be32_bytes(n: u32) -> Seq<u8> {
    seq![
        (n / 256 / 256 / 256) as u8,
        ((n / 256 / 256) % 256) as u8,
        ((n / 256) % 256) as u8,
        (n % 256) as u8,
    ]
}

/// The 32-bit value of four big-endian bytes.
pub open spec fn be32_val(s: Seq<u8>) -> u32
    recommends
        s.len() == 4,
{
    (((s[0] * 256 + s[1]) * 256 + s[2]) * 256 + s[3]) as u32
}

/// The eight big-endian bytes of a 64-bit value.
pub open spec fn be64_bytes(n: u64) -> Seq<u8> {
    seq![
        (n / 256 / 256 / 256 / 256 / 256 / 256 / 256) as u8,
        ((n / 256 / 256 / 256 / 256 / 256 / 256) % 256) as u8,
        ((n / 256 / 256 / 256 / 256 / 256) % 256) as u8,
        ((n / 256 / 256 / 256 / 256) % 256) as u8,
        ((n / 256 / 256 / 256) % 256) as u8,
        ((n / 256 / 256) % 256) as u8,
        ((n / 256) % 256) as u8,
        (n % 256) as u8,
    ]
}

/// The 64-bit value of eight big-endian bytes.
pub open spec fn be64_val(s: Seq<u8>) -> u64
    recommends
        s.len() == 8,
{
    (((((((s[0] * 256 + s[1]) * 256 + s[2]) * 256 + s[3]) * 256 + s[4]) * 256 + s[5]) * 256
        + s[6]) * 256 + s[7]) as u64
}

pub proof fn lemma_be32_round_trip(n: u32)
    ensures
        be32_bytes(n).len() == 4,
        be32_val(be32_bytes(n)) == n,
{
}

pub proof fn lemma_be64_round_trip(n: u64)
    ensures
        be64_bytes(n).len() == 8,
        be64_val(be64_bytes(n)) == n,
{
}

/// Write the four big-endian bytes of `n`.
pub fn u32_to_be(n: u32) -> (r: Vec<u8>)
    ensures
        r@ == be32_bytes(n),
{
    let mut r: Vec<u8> = Vec::new();
    r.push((n / 256 / 256 / 256) as u8);
    r.push(((n / 256 / 256) % 256) as u8);
    r.push(((n / 256) % 256) as u8);
    r.push((n % 256) as u8);
    proof {
        assert(r@ =~= be32_bytes(n));
    }
    r
}

/// Write the eight big-endian bytes of `n`.
pub fn u64_to_be(n: u64) -> (r: Vec<u8>)
    ensures
        r@ == be64_bytes(n),
{
    let mut r: Vec<u8> = Vec::new();
    r.push((n / 256 / 256 / 256 / 256 / 256 / 256 / 256) as u8);
    r.push(((n / 256 / 256 / 256 / 256 / 256 / 256) % 256) as u8);
    r.push(((n / 256 / 256 / 256 / 256 / 256) % 256) as u8);
    r.push(((n / 256 / 256 / 256 / 256) % 256) as u8);
    r.push(((n / 256 / 256 / 256) % 256) as u8);
    r.push(((n / 256 / 256) % 256) as u8);
    r.push(((n / 256) % 256) as u8);
    r.push((n % 256) as u8);
    proof {
        assert(r@ =~= be64_bytes(n));
    }
    r
}

/// Read the 32-bit value stored big-endian at `pos`.
pub fn read_u32_at(v: &[u8], pos: usize) -> (r: u32)
    requires
        pos + 4 <= v@.len(),
    ensures
        r == be32_val(v@.subrange(pos as int, pos + 4)),
{
    let b0 = v[pos] as u32;
    let b1 = v[pos + 1] as u32;
    let b2 = v[pos + 2] as u32;
    let b3 = v[pos + 3] as u32;
    let r = ((b0 * 256 + b1) * 256 + b2) * 256 + b3;
    proof {
        let s = v@.subrange(pos as int, pos + 4);
        assert(s[0] == v@[pos as int]);
        assert(s[1] == v@[pos + 1]);
        assert(s[2] == v@[pos + 2]);
        assert(s[3] == v@[pos + 3]);
    }
    r
}

/// Read the 64-bit value stored big-endian at `pos`.
pub fn read_u64_at(v: &[u8], pos: usize) -> (r: u64)
    requires
        pos + 8 <= v@.len(),
    ensures
        r == be64_val(v@.subrange(pos as int, pos + 8)),
{
    let b0 = v[pos] as u64;
    let b1 = v[pos + 1] as u64;
    let b2 = v[pos + 2] as u64;
    let b3 = v[pos + 3] as u64;
    let b4 = v[pos + 4] as u64;
    let b5 = v[pos + 5] as u64;
    let b6 = v[pos + 6] as u64;
    let b7 = v[pos + 7] as u64;
    let r = ((((((b0 * 256 + b1) * 256 + b2) * 256 + b3) * 256 + b4) * 256 + b5) * 256 + b6) * 256
        + b7;
    proof {
        let s = v@.subrange(pos as int, pos + 8);
        assert(s[0] == v@[pos as int]);
        assert(s[1] == v@[pos + 1]);
        assert(s[2] == v@[pos + 2]);
        assert(s[3] == v@[pos + 3]);
        assert(s[4] == v@[pos + 4]);
        assert(s[5] == v@[pos + 5]);
        assert(s[6] == v@[pos + 6]);
        assert(s[7] == v@[pos + 7]);
    }
    r
}

/// A fresh byte vector with the same contents.
pub fn clone_bytes(v: &Vec<u8>) -> (r: Vec<u8>)
    ensures
        r@ == v@,
{
    vstd::slice::slice_to_vec(v.as_slice())
}

/// A fresh vector of byte vectors with the same contents.
pub fn clone_bytes_vec(v: &Vec<Vec<u8>>) -> (r: Vec<Vec<u8>>)
    ensures
        r@.len() == v@.len(),
        forall|i: int| 0 <= i < v@.len() ==> #[trigger] r@[i]@ == v@[i]@,
{
    let mut r: Vec<Vec<u8>> = Vec::new();
    let mut i: usize = 0;
    while i < v.len()
        invariant
            i <= v@.len(),
            r@.len() == i,
            forall|j: int| 0 <= j < i ==> #[trigger] r@[j]@ == v@[j]@,
        decreases v.len() - i,
    {
        r.push(clone_bytes(&v[i]));
        i = i + 1;
    }
    r
}

/// Append every byte of `x` to `out`.
pub fn push_all(out: &mut Vec<u8>, x: &[u8])
    ensures
        final(out)@ == old(out)@ + x@,
{
    let mut i: usize = 0;
    while i < x.len()
        invariant
            i <= x@.len(),
            out@ == old(out)@ + x@.take(i as int),
        decreases x.len() - i,
    {
        out.push(x[i]);
        proof {
            assert(x@.take(i + 1) =~= x@.take(i as int) + seq![x@[i as int]]);
            assert(old(out)@ + x@.take(i + 1) =~= (old(out)@ + x@.take(i as int)) + seq![
                x@[i as int],
            ]);
        }
        i = i + 1;
    }
    proof {
        assert(x@.take(x@.len() as int) =~= x@);
    }
}

/// Compare two byte strings.  The scan always walks the full length of
/// the shorter-circuit-free loop, so timing does not depend on where the
/// first difference lies.
pub fn bytes_eq(a: &[u8], b: &[u8]) -> (r: bool)
    ensures
        r == (a@ == b@),
{
    if a.len() != b.len() {
        return false;
    }
    let mut eq = true;
    let mut i: usize = 0;
    while i < a.len()
        invariant
            i <= a@.len(),
            a@.len() == b@.len(),
            eq == (forall|j: int| 0 <= j < i ==> a@[j] == b@[j]),
        decreases a.len() - i,
    {
        let same = a[i] == b[i];
        eq = eq && same;
        i = i + 1;
    }
    proof {
        if eq {
            assert(a@ =~= b@);
        }
    }
    eq
}

} // verus!
