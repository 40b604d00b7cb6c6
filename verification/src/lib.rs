//! A database-backed logger for use with the `log` crate: the computations that turn log entries
//! into database statements and bound values, and database rows back into text.

pub mod clocks;
pub mod db;
pub mod logger;
pub mod order;
pub mod pgsql;
pub mod schema;
pub mod sqlite;
pub mod text;

use crate::db::pgsql::PostgresDb;
use crate::sqlite::InMemoryDb;
use crate::text::{can_truncate, truncate_str, truncated};
use std::sync::Arc;
use vstd::prelude::*;

verus! {

/// The database behind a connection.
pub enum ConnectionBackend {
    /// A PostgreSQL database.
    Postgres(PostgresDb),
    /// An in-memory SQLite database.
    InMemory(InMemoryDb),
}

/// Opaque type representing a connection to the logging database.  Clones share the database.
#[derive(Clone)]
pub struct Connection(Arc<ConnectionBackend>);

impl Connection {
    /// The database behind this connection.
    pub closed spec fn backend_spec(&self) -> ConnectionBackend {
        *self.0
    }

    /// Wraps a database in a connection.
    pub fn new(backend: ConnectionBackend) -> (r: Self)
        ensures
            r.backend_spec() == backend,
    {
        Connection(Arc::new(backend))
    }

    /// The database behind this connection.
    pub fn backend(&self) -> (r: &ConnectionBackend)
        ensures
            *r == self.backend_spec(),
    {
        &*self.0
    }
}

/// Fits the string in `input` within the specified `max_len` bytes.
pub fn truncate_option_str(input: Option<&str>, max_len: usize) -> (r: Option<String>)
    requires
        input matches Some(s) ==> can_truncate(s@, max_len as nat),
    ensures
        match input {
            Some(s) => r matches Some(t) && t@ == truncated(s@, max_len as nat),
            None => r is None,
        },
{
    match input {
        Some(s) => Some(truncate_str(s, max_len)),
        None => None,
    }
}

} // verus!
