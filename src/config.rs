//! The service's configuration.
use vstd::prelude::*;
use crate::action::Macro;

verus! {

#[derive(Debug)]
pub struct Config {
    pub users: Users,
    pub imap: Imap,
    pub storage: Storage,
    pub macros: Vec<Macro>,
    pub ratelimit: Ratelimit,
}

/// One user, or several.
#[derive(Debug, Clone)]
pub enum Users {
    Single(User),
    Many(Vec<User>),
}

#[derive(Debug, Clone)]
pub struct User {
    pub username: String,
    pub password: String,
}

#[derive(Debug, Clone)]
pub struct Imap {
    pub server: String,
    pub port: u16,
    pub username: String,
    pub password: String,
    pub postfix: String,
}

#[derive(Debug, Clone)]
pub struct Storage {
    pub file_root: String,
    pub sqlite: String,
    pub frontend: String,
}

/// At most `num` requests from one address within `in_ms` milliseconds.
#[derive(Debug, Clone)]
pub struct Ratelimit {
    pub num: usize,
    pub in_ms: u128,
}

} // verus!
