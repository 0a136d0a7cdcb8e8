//! Process configuration as plain data.
//!
//! The values are loaded once at startup by the surrounding program and
//! are immutable afterwards; the library only reads them through the
//! constructors of the hasher and the token service, which validate them.

use vstd::prelude::*;

verus! {

/// Where the user store lives.
#[derive(Debug, Clone)]
pub struct Database {
    pub url: String,
}

/// Where the service listens.
#[derive(Debug, Clone)]
pub struct Service {
    pub host: String,
    pub port: u16,
}

/// Password hashing configuration: the service-wide pepper and optional
/// cost parameters (defaults apply when absent).
#[derive(Debug, Clone)]
pub struct Argon {
    pub secret: String,
    pub memory_size: Option<u32>,
    pub iterations: Option<u32>,
}

/// Token signing configuration: the signing secret and the token lifetime
/// in minutes.
#[derive(Debug, Clone)]
pub struct Jwt {
    pub secret: String,
    pub duration: i64,
}

/// Everything the process is configured with.
#[derive(Debug, Clone)]
pub struct Settings {
    pub debug: bool,
    pub testing: bool,
    pub mode: String,
    pub argon: Argon,
    pub jwt: Jwt,
    pub database: Database,
    pub service: Service,
}

} // verus!
