//! Lowercase hexadecimal encoding of byte strings.
//!
//! Both the stored password-hash format and the token format carry raw
//! bytes (salts, digests, signatures) as hex text, so that a stored hash
//! and a token are plain printable byte strings.

use vstd::prelude::*;

verus! {

/// The hex character (as a byte) for a nibble value below 16.
pub open spec fn hex_digit(n: u8) -> u8
    recommends
        n < 16,
{
    if n < 10 {
        (n + 48) as u8
    } else {
        (n + 87) as u8
    }
}

/// The nibble value of a hex character, or `None` if the byte is not a
/// lowercase hex character.
pub open spec fn hex_val(c: u8) -> Option<u8> {
    if 48 <= c <= 57 {
        Some((c - 48) as u8)
    } else if 97 <= c <= 102 {
        Some((c - 87) as u8)
    } else {
        None
    }
}

/// The hex encoding of a byte string: two characters per byte, high
/// nibble first.
pub open spec fn hex_of(s: Seq<u8>) -> Seq<u8>
    decreases s.len(),
{
    if s.len() == 0 {
        Seq::empty()
    } else {
        hex_of(s.drop_last()) + seq![
            hex_digit((s.last() / 16) as u8),
            hex_digit((s.last() % 16) as u8),
        ]
    }
}

/// The bytes encoded by a hex string, or `None` if the string is not the
/// hex encoding of any byte string (odd length or a stray character).
pub open spec fn unhex(s: Seq<u8>) -> Option<Seq<u8>>
    decreases s.len(),
{
    if s.len() == 0 {
        Some(Seq::empty())
    } else if s.len() == 1 {
        None
    } else {
        match (hex_val(s[0]), hex_val(s[1])) {
            (Some(h), Some(l)) => match unhex(s.skip(2)) {
                Some(r) => Some(seq![(16 * h + l) as u8] + r),
                None => None,
            },
            _ => None,
        }
    }
}

pub proof fn lemma_hex_of_len(s: Seq<u8>)
    ensures
        hex_of(s).len() == 2 * s.len(),
    decreases s.len(),
{
    if s.len() > 0 {
        lemma_hex_of_len(s.drop_last());
    }
}

pub proof fn lemma_hex_of_app(a: Seq<u8>, b: Seq<u8>)
    ensures
        hex_of(a + b) == hex_of(a) + hex_of(b),
    decreases b.len(),
{
    if b.len() == 0 {
        assert(a + b =~= a);
        assert(hex_of(a) + hex_of(b) =~= hex_of(a));
    } else {
        lemma_hex_of_app(a, b.drop_last());
        assert((a + b).drop_last() =~= a + b.drop_last());
        assert((a + b).last() == b.last());
        assert(hex_of(a) + hex_of(b.drop_last()) + seq![
            hex_digit((b.last() / 16) as u8),
            hex_digit((b.last() % 16) as u8),
        ] =~= hex_of(a) + hex_of(b));
    }
}

proof fn lemma_hex_val_digit(n: u8)
    requires
        n < 16,
    ensures
        hex_val(hex_digit(n)) == Some(n),
{
}

/// Decoding inverts encoding: `unhex` recovers exactly the bytes that
/// `hex_of` was applied to.
pub proof fn lemma_unhex_hex_of(s: Seq<u8>)
    ensures
        unhex(hex_of(s)) == Some(s),
    decreases s.len(),
{
    if s.len() == 0 {
        assert(unhex(hex_of(s)) == Some(Seq::<u8>::empty()));
        assert(Seq::<u8>::empty() =~= s);
    } else {
        let s0 = s[0];
        let rest = s.skip(1);
        lemma_unhex_hex_of(rest);
        assert(s =~= seq![s0] + rest);
        lemma_hex_of_app(seq![s0], rest);
        let one = seq![s0];
        assert(one.drop_last() =~= Seq::<u8>::empty());
        assert(one.last() == s0);
        let d1 = hex_digit((s0 / 16) as u8);
        let d2 = hex_digit((s0 % 16) as u8);
        assert(hex_of(Seq::<u8>::empty()) =~= Seq::<u8>::empty());
        assert(hex_of(one) =~= hex_of(Seq::<u8>::empty()) + seq![d1, d2]);
        assert(hex_of(one) =~= seq![d1, d2]);
        let t = hex_of(s);
        assert(t =~= seq![d1, d2] + hex_of(rest));
        assert(t.len() >= 2);
        assert(t[0] == d1 && t[1] == d2);
        assert(s0 / 16 < 16 && s0 % 16 < 16);
        lemma_hex_val_digit((s0 / 16) as u8);
        lemma_hex_val_digit((s0 % 16) as u8);
        assert(t.skip(2) =~= hex_of(rest));
        assert(16 * (s0 / 16) + s0 % 16 == s0);
        assert(unhex(t) == Some(seq![s0] + rest));
        assert(seq![s0] + rest =~= s);
    }
}

proof fn lemma_unhex_odd(s: Seq<u8>)
    requires
        s.len() % 2 == 1,
    ensures
        unhex(s) is None,
    decreases s.len(),
{
    if s.len() > 1 {
        lemma_unhex_odd(s.skip(2));
    }
}

pub(crate) fn hex_digit_exec(n: u8) -> (r: u8)
    requires
        n < 16,
    ensures
        r == hex_digit(n),
{
    if n < 10 {
        n + 48
    } else {
        n + 87
    }
}

fn hex_val_exec(c: u8) -> (r: Option<u8>)
    ensures
        r == hex_val(c),
{
    if 48 <= c && c <= 57 {
        Some(c - 48)
    } else if 97 <= c && c <= 102 {
        Some(c - 87)
    } else {
        None
    }
}

/// Encode bytes as lowercase hex.
pub fn hex_encode(s: &[u8]) -> (r: Vec<u8>)
    ensures
        r@ == hex_of(s@),
{
    let mut r: Vec<u8> = Vec::new();
    let mut i: usize = 0;
    while i < s.len()
        invariant
            i <= s.len(),
            r@ == hex_of(s@.take(i as int)),
        decreases s.len() - i,
    {
        let b = s[i];
        assert(b / 16 < 16);
        let d1 = hex_digit_exec(b / 16);
        let d2 = hex_digit_exec(b % 16);
        r.push(d1);
        r.push(d2);
        proof {
            let pre = s@.take(i as int);
            let post = s@.take(i + 1);
            assert(post.drop_last() =~= pre);
            assert(post.last() == s@[i as int]);
            assert(r@ =~= hex_of(pre) + seq![d1, d2]);
        }
        i = i + 1;
    }
    proof {
        assert(s@.take(s@.len() as int) =~= s@);
    }
    r
}

/// Decode lowercase hex, rejecting anything that `hex_of` cannot have
/// produced.
pub fn hex_decode(s: &[u8]) -> (r: Option<Vec<u8>>)
    ensures
        match r {
            Some(v) => unhex(s@) == Some(v@),
            None => unhex(s@) is None,
        },
{
    if s.len() % 2 != 0 {
        proof {
            lemma_unhex_odd(s@);
        }
        return None;
    }
    let mut acc: Vec<u8> = Vec::new();
    let mut i: usize = 0;
    proof {
        assert(s@.skip(0) =~= s@);
        match unhex(s@) {
            Some(rest) => {
                assert(Seq::<u8>::empty() + rest =~= rest);
            },
            None => {},
        }
    }
    while i < s.len()
        invariant
            i <= s@.len(),
            i % 2 == 0,
            s@.len() % 2 == 0,
            match unhex(s@.skip(i as int)) {
                Some(rest) => unhex(s@) == Some(acc@ + rest),
                None => unhex(s@) is None,
            },
        decreases s.len() - i,
    {
        let h = hex_val_exec(s[i]);
        let l = hex_val_exec(s[i + 1]);
        proof {
            assert(s@.skip(i as int).len() >= 2);
            assert(s@.skip(i as int)[0] == s@[i as int]);
            assert(s@.skip(i as int)[1] == s@[i + 1]);
        }
        match (h, l) {
            (Some(hv), Some(lv)) => {
                assert(hv < 16 && lv < 16);
                let b = 16 * hv + lv;
                acc.push(b);
                proof {
                    assert(s@.skip(i as int).skip(2) =~= s@.skip(i + 2));
                    match unhex(s@.skip(i + 2)) {
                        Some(rest2) => {
                            assert(unhex(s@.skip(i as int)) == Some(seq![b] + rest2));
                            assert(acc@ + rest2 =~= acc@.drop_last() + (seq![b] + rest2));
                        },
                        None => {},
                    }
                }
                i = i + 2;
            },
            _ => {
                return None;
            },
        }
    }
    proof {
        assert(s@.skip(s@.len() as int) =~= Seq::<u8>::empty());
        assert(acc@ + Seq::<u8>::empty() =~= acc@);
    }
    Some(acc)
}

} // verus!
