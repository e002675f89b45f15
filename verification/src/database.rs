//! The database connection pool's settings.
use vstd::prelude::*;
use crate::text::{parse_usize, spec_parse_usize};

verus! {

/// What the connection pool needs to open a connection: the database's
/// location, and how many connections it has recycled.
pub struct DbPool {
    url: String,
    recycle_count: usize,
}

impl DbPool {
    pub closed spec fn spec_url(self) -> Seq<char> {
        self.url@
    }

    pub closed spec fn spec_recycle_count(self) -> usize {
        self.recycle_count
    }

    /// A pool manager for the database at `url`, with nothing recycled yet.
    pub fn new(url: &str) -> (p: DbPool)
        ensures
            p.spec_url() == url@,
            p.spec_recycle_count() == 0,
    {
        DbPool { url: url.to_owned(), recycle_count: 0 }
    }

    pub fn url(&self) -> (r: &String)
        ensures
            r@ == self.spec_url(),
    {
        &self.url
    }

    pub fn recycle_count(&self) -> (r: usize)
        ensures
            r == self.spec_recycle_count(),
    {
        self.recycle_count
    }
}

/// The size of the connection pool: the configured number when it is a
/// valid unsigned number, else one.
pub fn max_database_connections(setting: Option<String>) -> (n: usize)
    ensures
        n == (match setting {
            Some(s) => match spec_parse_usize(s@) {
                Some(v) => v,
                None => 1,
            },
            None => 1,
        }),
{
    match setting {
        Some(s) => match parse_usize(s.as_str()) {
            Some(v) => v,
            None => 1,
        },
        None => 1,
    }
}

} // verus!
