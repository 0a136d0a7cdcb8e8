//! The user store: the interface the flow layer depends on, and a
//! verified in-memory backend.
//!
//! A store owns the user records.  Its one structural obligation is the
//! uniqueness of usernames: creating a user either appends exactly one
//! record or fails leaving the store unchanged, and a uniqueness conflict
//! is reported as its own error, distinct from every other failure.

use vstd::prelude::*;

use crate::claims::bytes_seq_view;
use crate::codec::{bytes_eq, clone_bytes, clone_bytes_vec};
use crate::error::ProvideError;
use vstd::slice::slice_to_vec;

verus! {

/// The mathematical model of a stored user record.
#[verifier::ext_equal]
pub struct UserModel {
    pub id: u64,
    pub username: Seq<u8>,
    pub email: Seq<u8>,
    pub password_hash: Seq<u8>,
    pub roles: Seq<Seq<u8>>,
    pub active: bool,
    pub created_at: u64,
    pub updated_at: u64,
}

/// A user as the store holds it.  The username is unique across the
/// store; the password hash is never empty once the record exists; roles
/// default to none.
pub struct UserRecord {
    pub id: u64,
    pub username: Vec<u8>,
    pub email: Vec<u8>,
    pub password_hash: Vec<u8>,
    pub roles: Vec<Vec<u8>>,
    pub active: bool,
    pub created_at: u64,
    pub updated_at: u64,
}

impl View for UserRecord {
    type V = UserModel;

    open spec fn view(&self) -> UserModel {
        UserModel {
            id: self.id,
            username: self.username@,
            email: self.email@,
            password_hash: self.password_hash@,
            roles: bytes_seq_view(self.roles@),
            active: self.active,
            created_at: self.created_at,
            updated_at: self.updated_at,
        }
    }
}

/// The models of a sequence of records.
pub open spec fn records_view(v: Seq<UserRecord>) -> Seq<UserModel> {
    Seq::new(v.len(), |i: int| v[i]@)
}

/// Whether some record in `users` carries `name` as its username.
pub open spec fn contains_username(users: Seq<UserModel>, name: Seq<u8>) -> bool {
    exists|i: int| 0 <= i < users.len() && #[trigger] users[i].username == name
}

/// A fresh record with the same contents.
pub fn clone_record(u: &UserRecord) -> (r: UserRecord)
    ensures
        r@ == u@,
{
    let r = UserRecord {
        id: u.id,
        username: clone_bytes(&u.username),
        email: clone_bytes(&u.email),
        password_hash: clone_bytes(&u.password_hash),
        roles: clone_bytes_vec(&u.roles),
        active: u.active,
        created_at: u.created_at,
        updated_at: u.updated_at,
    };
    proof {
        assert(bytes_seq_view(r.roles@) =~= bytes_seq_view(u.roles@));
        assert(r@ =~= u@);
    }
    r
}

/// What the flow layer asks of a user store.  `create_user` is atomic
/// with respect to the uniqueness constraint: it appends exactly one
/// record — under an identifier no existing record carries, with its two
/// timestamps stamped to the same creation instant — or fails leaving the
/// store as it was, and reports a username conflict as `UniqueViolation`
/// and nothing else.  Reads leave the store untouched and fail only with
/// the backend's catch-all error; no call returns a wrong answer.
pub trait UserStore: Sized {
    /// The records the store holds, in insertion order.
    spec fn users(&self) -> Seq<UserModel>;

    /// The backend's own well-formedness: whatever it keeps between calls
    /// to meet the `create_user` promises (for the in-memory backend,
    /// that the next identifier lies above every stored one).
    /// Constructors establish it; every operation preserves it.
    spec fn inv(&self) -> bool;

    /// Append a new user with no roles, active, under a fresh identifier.
    fn create_user(&mut self, username: &[u8], email: &[u8], password_hash: &[u8]) -> (r: Result<
        UserRecord,
        ProvideError,
    >)
        requires
            old(self).inv(),
        ensures
            final(self).inv(),
            match r {
                Ok(u) => {
                    &&& !contains_username(old(self).users(), username@)
                    &&& final(self).users() == old(self).users().push(u@)
                    &&& u@.username == username@
                    &&& u@.email == email@
                    &&& u@.password_hash == password_hash@
                    &&& u@.roles.len() == 0
                    &&& u@.active
                    &&& u@.created_at == u@.updated_at
                    &&& forall|i: int|
                        0 <= i < old(self).users().len() ==> (#[trigger] old(self).users()[i]).id
                            != u@.id
                },
                Err(ProvideError::UniqueViolation) => {
                    &&& contains_username(old(self).users(), username@)
                    &&& final(self).users() == old(self).users()
                },
                Err(_) => final(self).users() == old(self).users(),
            },
    ;

    /// Look a user up by username.
    fn get_user_by_username(&self, username: &[u8]) -> (r: Result<Option<UserRecord>, ProvideError>)
        ensures
            match r {
                Ok(Some(u)) => {
                    &&& u@.username == username@
                    &&& exists|i: int|
                        0 <= i < self.users().len() && #[trigger] self.users()[i] == u@
                },
                Ok(None) => !contains_username(self.users(), username@),
                Err(e) => e == ProvideError::UnHandledError,
            },
    ;

    /// Every user the store holds.
    fn get_all_users(&self) -> (r: Result<Vec<UserRecord>, ProvideError>)
        ensures
            match r {
                Ok(v) => records_view(v@) == self.users(),
                Err(e) => e == ProvideError::UnHandledError,
            },
    ;
}

/// A user store held in memory: the backend used by tests and by any
/// caller that needs no persistence.  It stamps both timestamps of a new
/// record to a fixed epoch of zero; a persistent backend would stamp the
/// creation time.
pub struct InMemoryUserStore {
    pub records: Vec<UserRecord>,
    pub next_id: u64,
}

impl InMemoryUserStore {
    /// An empty store.
    pub fn new() -> (r: InMemoryUserStore)
        ensures
            r.users().len() == 0,
            r.inv(),
    {
        InMemoryUserStore { records: Vec::new(), next_id: 1 }
    }
}

impl UserStore for InMemoryUserStore {
    open spec fn users(&self) -> Seq<UserModel> {
        records_view(self.records@)
    }

    open spec fn inv(&self) -> bool {
        forall|i: int|
            0 <= i < self.records@.len() ==> (#[trigger] records_view(self.records@)[i]).id
                < self.next_id
    }

    fn create_user(&mut self, username: &[u8], email: &[u8], password_hash: &[u8]) -> (r: Result<
        UserRecord,
        ProvideError,
    >) {
        let mut i: usize = 0;
        while i < self.records.len()
            invariant
                i <= self.records@.len(),
                *self == *old(self),
                self.inv(),
                forall|j: int|
                    0 <= j < i ==> #[trigger] records_view(self.records@)[j].username != username@,
            decreases self.records.len() - i,
        {
            if bytes_eq(self.records[i].username.as_slice(), username) {
                proof {
                    assert(records_view(self.records@)[i as int].username == username@);
                }
                return Err(ProvideError::UniqueViolation);
            }
            i = i + 1;
        }
        if self.next_id == u64::MAX {
            // The identifier space is spent; refuse rather than repeat an
            // id.
            return Err(ProvideError::UnHandledError);
        }
        let record = UserRecord {
            id: self.next_id,
            username: slice_to_vec(username),
            email: slice_to_vec(email),
            password_hash: slice_to_vec(password_hash),
            roles: Vec::new(),
            active: true,
            created_at: 0,
            updated_at: 0,
        };
        self.next_id = self.next_id + 1;
        let ghost pre = self.records@;
        let copy = clone_record(&record);
        self.records.push(copy);
        proof {
            assert(bytes_seq_view(record.roles@) =~= Seq::<Seq<u8>>::empty());
            assert(records_view(self.records@) =~= records_view(pre).push(record@));
            assert forall|k: int| 0 <= k < records_view(pre).len() implies (
            #[trigger] records_view(pre)[k]).id != record@.id by {
                assert(records_view(pre)[k].id < record@.id);
            }
            assert forall|k: int| 0 <= k < self.records@.len() implies (
            #[trigger] records_view(self.records@)[k]).id < self.next_id by {
                if k < pre.len() {
                    assert(records_view(self.records@)[k] == records_view(pre)[k]);
                }
            }
        }
        Ok(record)
    }

    fn get_user_by_username(&self, username: &[u8]) -> (r: Result<
        Option<UserRecord>,
        ProvideError,
    >) {
        let mut i: usize = 0;
        while i < self.records.len()
            invariant
                i <= self.records@.len(),
                forall|j: int|
                    0 <= j < i ==> #[trigger] records_view(self.records@)[j].username != username@,
            decreases self.records.len() - i,
        {
            if bytes_eq(self.records[i].username.as_slice(), username) {
                let u = clone_record(&self.records[i]);
                proof {
                    assert(records_view(self.records@)[i as int] == u@);
                    assert(self.users()[i as int] == u@);
                    assert(u@.username =~= username@);
                }
                return Ok(Some(u));
            }
            i = i + 1;
        }
        Ok(None)
    }

    fn get_all_users(&self) -> (r: Result<Vec<UserRecord>, ProvideError>) {
        let mut out: Vec<UserRecord> = Vec::new();
        let mut i: usize = 0;
        while i < self.records.len()
            invariant
                i <= self.records@.len(),
                out@.len() == i,
                forall|j: int| 0 <= j < i ==> #[trigger] out@[j]@ == self.records@[j]@,
            decreases self.records.len() - i,
        {
            out.push(clone_record(&self.records[i]));
            i = i + 1;
        }
        proof {
            assert(records_view(out@) =~= records_view(self.records@));
        }
        Ok(out)
    }
}

} // verus!
