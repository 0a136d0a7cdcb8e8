//! A small user-account library: password hashing and verification,
//! signed time-bounded tokens, access-control predicates, and the
//! registration/login flow over a pluggable user store.

pub mod claims;
pub mod client;
pub mod codec;
pub mod gql;
pub mod error;
pub mod hashpw;
pub mod hex;
pub mod policy;
pub mod settings;
pub mod store;
pub mod token;
pub mod users;
