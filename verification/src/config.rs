//! Startup configuration, built once and passed by reference to the
//! components that need it (the claims secret, the collaborators' addresses).
//! Reading and parsing the configuration file is the caller's concern; the
//! core only holds the resulting plain values.

use vstd::prelude::*;

verus! {

#[derive(Clone, Debug)]
pub struct Server {
    pub addr: String,
}

#[derive(Clone, Debug)]
pub struct Redis {
    pub addr: String,
}

#[derive(Clone, Debug)]
pub struct Postgres {
    pub addr: String,
}

#[derive(Clone, Debug)]
pub struct Mailer {
    pub server: String,
    pub username: String,
    pub password: String,
    pub verify_link: String,
}

#[derive(Clone, Debug)]
pub struct Jwt {
    pub secret: String,
}

#[derive(Clone, Debug)]
pub struct Config {
    pub server: Server,
    pub postgres: Postgres,
    pub redis: Redis,
    pub mailer: Mailer,
    pub jwt: Jwt,
}

} // verus!
