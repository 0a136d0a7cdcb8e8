//! Query strings a client sends to the service.  The HTTP client itself
//! lives with the surrounding program; the query text, including the
//! JSON escaping of the values interpolated into it, is the library's.
//!
//! The escaping covers the quote, the backslash, and the control bytes;
//! bytes of 0x80 and above pass through unchanged.  Interpolated values
//! are therefore expected to be UTF-8 text, as they are when they come
//! from the request strings: a value that is not UTF-8 yields a byte
//! string that is exactly the stated concatenation but is not a JSON
//! document.

use vstd::prelude::*;

use crate::codec::push_all;
use crate::hex::hex_digit;
use crate::users::UserRequestBody;
use vstd::string::{StringExecFns, StringSliceAdditionalSpecFns};

verus! {

/// The escape sequence standing for one byte inside a JSON string: quote
/// and backslash are backslash-escaped, the named control characters get
/// their short forms, the remaining control bytes a `\u00..` escape, and
/// every other byte stands for itself.
pub open spec fn json_escape_byte(b: u8) -> Seq<u8> {
    if b == 34 {
        seq![92u8, 34u8]
    } else if b == 92 {
        seq![92u8, 92u8]
    } else if b == 8 {
        seq![92u8, 98u8]
    } else if b == 9 {
        seq![92u8, 116u8]
    } else if b == 10 {
        seq![92u8, 110u8]
    } else if b == 12 {
        seq![92u8, 102u8]
    } else if b == 13 {
        seq![92u8, 114u8]
    } else if b < 32 {
        seq![92u8, 117u8, 48u8, 48u8, hex_digit((b / 16) as u8), hex_digit((b % 16) as u8)]
    } else {
        seq![b]
    }
}

/// A byte string escaped for interpolation into a JSON string literal.
pub open spec fn json_escape(s: Seq<u8>) -> Seq<u8>
    decreases s.len(),
{
    if s.len() == 0 {
        Seq::empty()
    } else {
        json_escape(s.drop_last()) + json_escape_byte(s.last())
    }
}

/// Append one escaped byte.
fn push_json_escape_byte(out: &mut Vec<u8>, b: u8)
    ensures
        final(out)@ == old(out)@ + json_escape_byte(b),
{
    if b == 34 {
        out.push(92);
        out.push(34);
    } else if b == 92 {
        out.push(92);
        out.push(92);
    } else if b == 8 {
        out.push(92);
        out.push(98);
    } else if b == 9 {
        out.push(92);
        out.push(116);
    } else if b == 10 {
        out.push(92);
        out.push(110);
    } else if b == 12 {
        out.push(92);
        out.push(102);
    } else if b == 13 {
        out.push(92);
        out.push(114);
    } else if b < 32 {
        out.push(92);
        out.push(117);
        out.push(48);
        out.push(48);
        assert(b / 16 < 16);
        out.push(crate::hex::hex_digit_exec(b / 16));
        out.push(crate::hex::hex_digit_exec(b % 16));
    } else {
        out.push(b);
    }
    proof {
        assert(out@ =~= old(out)@ + json_escape_byte(b));
    }
}

/// Append a byte string, escaped.
fn push_json_escaped(out: &mut Vec<u8>, s: &[u8])
    ensures
        final(out)@ == old(out)@ + json_escape(s@),
{
    let mut i: usize = 0;
    proof {
        assert(s@.take(0) =~= Seq::<u8>::empty());
        assert(old(out)@ + json_escape(s@.take(0)) =~= old(out)@);
    }
    while i < s.len()
        invariant
            i <= s@.len(),
            out@ == old(out)@ + json_escape(s@.take(i as int)),
        decreases s.len() - i,
    {
        proof {
            assert(s@.take(i + 1).drop_last() =~= s@.take(i as int));
            assert(s@.take(i + 1).last() == s@[i as int]);
        }
        push_json_escape_byte(out, s[i]);
        proof {
            assert(out@ =~= old(out)@ + json_escape(s@.take(i + 1)));
        }
        i = i + 1;
    }
    proof {
        assert(s@.take(s@.len() as int) =~= s@);
    }
}

/// The query for listing users.
pub fn get_graphql_str_list_users() -> (r: String)
    ensures
        r@
            == "{ \"query\": \"{ users { users { id, username, email, roles, active, createdAt, updatedAt }, usersCount } }\" }"@,
{
    String::from_str(
        "{ \"query\": \"{ users { users { id, username, email, roles, active, createdAt, updatedAt }, usersCount } }\" }",
    )
}

/// The query for adding a user, with the request's values escaped into
/// the variables object.
pub fn get_graphql_str_add_user(user: &UserRequestBody) -> (r: Vec<u8>)
    ensures
        r@
            == (
        "{ \"query\": \"mutation addUser($user: UserRequestBody!) { addUser(user: $user) { user { id, username, email, roles, active, createdAt, updatedAt } } }\", \"variables\": { \"user\": { \"username\": \"").spec_bytes()
            + json_escape(user.username@) + ("\", \"email\": \"").spec_bytes() + json_escape(
            user.email@,
        ) + ("\", \"password\": \"").spec_bytes() + json_escape(user.password@) + (
        "\" } } }").spec_bytes(),
{
    let mut out: Vec<u8> = Vec::new();
    push_all(
        &mut out,
        "{ \"query\": \"mutation addUser($user: UserRequestBody!) { addUser(user: $user) { user { id, username, email, roles, active, createdAt, updatedAt } } }\", \"variables\": { \"user\": { \"username\": \"".as_bytes(),
    );
    push_json_escaped(&mut out, user.username.as_slice());
    push_all(&mut out, "\", \"email\": \"".as_bytes());
    push_json_escaped(&mut out, user.email.as_slice());
    push_all(&mut out, "\", \"password\": \"".as_bytes());
    push_json_escaped(&mut out, user.password.as_slice());
    push_all(&mut out, "\" } } }".as_bytes());
    out
}

/// The query for finding a user by username, with the name escaped into
/// the variables object.
pub fn get_graphql_str_find_user(username: &[u8]) -> (r: Vec<u8>)
    ensures
        r@
            == (
        "{ \"query\": \"query findUser($username: String!) { findUserByUsername(username: $username) { user { id, username, email, roles, active, createdAt, updatedAt } } }\", \"variables\": { \"username\": \"").spec_bytes()
            + json_escape(username@) + ("\" } }").spec_bytes(),
{
    let mut out: Vec<u8> = Vec::new();
    push_all(
        &mut out,
        "{ \"query\": \"query findUser($username: String!) { findUserByUsername(username: $username) { user { id, username, email, roles, active, createdAt, updatedAt } } }\", \"variables\": { \"username\": \"".as_bytes(),
    );
    push_json_escaped(&mut out, username);
    push_all(&mut out, "\" } }".as_bytes());
    out
}

} // verus!
