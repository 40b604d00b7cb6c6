//! Database abstraction in terms of the operations needed by the server: its error type and
//! the conversions of in-memory values to what the database stores.

use crate::text::{
    can_truncate, decimal, push_decimal, push_signed_decimal, signed_decimal, truncate_str,
    truncated,
};
use std::sync::atomic::{AtomicU32, AtomicU64, Ordering};
use vstd::prelude::*;
use vstd::string::*;

pub mod pgsql;

verus! {

/// Database errors.  Any unexpected errors that come from the database are classified as
/// `BackendError`, but errors we know about have more specific types.
#[derive(Debug, PartialEq, Eq)]
pub enum DbError {
    /// The entity already exists.
    AlreadyExists,
    /// Any other failure reported by the database.
    BackendError(String),
    /// The stored data is not consistent.
    DataIntegrityError(String),
    /// The request cannot be served as written.
    InvalidRequest(String),
    /// The entity does not exist.
    NotFound,
    /// The database cannot be reached for now.
    Unavailable,
}

/// Result type for this module.
pub type DbResult<T> = Result<T, DbError>;

/// The text that describes a `DbError` to a person.
pub open spec fn db_error_text(e: DbError) -> Seq<char> {
    match e {
        DbError::AlreadyExists => "Already exists"@,
        DbError::BackendError(m) => "Database error: "@ + m@,
        DbError::DataIntegrityError(m) => "Data integrity error: "@ + m@,
        DbError::InvalidRequest(m) => "Invalid request: "@ + m@,
        DbError::NotFound => "Entity not found"@,
        DbError::Unavailable => "Service unavailable; back off and retry"@,
    }
}

impl DbError {
    /// Describes the error to a person.
    pub fn describe(&self) -> (r: String)
        ensures
            r@ == db_error_text(*self),
    {
        match self {
            DbError::AlreadyExists => String::from_str("Already exists"),
            DbError::BackendError(m) => String::from_str("Database error: ").concat(m.as_str()),
            DbError::DataIntegrityError(m) => String::from_str("Data integrity error: ").concat(
                m.as_str(),
            ),
            DbError::InvalidRequest(m) => String::from_str("Invalid request: ").concat(m.as_str()),
            DbError::NotFound => String::from_str("Entity not found"),
            DbError::Unavailable => String::from_str("Service unavailable; back off and retry"),
        }
    }
}

/// `<field> (<value>) is too large for <target>`.
pub open spec fn too_large_text(field: Seq<char>, value: nat, target: Seq<char>) -> Seq<char> {
    field + " ("@ + decimal(value) + ") is too large for "@ + target
}

/// Builds `<field> (<value>) is too large for <target>`.
pub fn too_large_message(field: &str, value: u64, target: &str) -> (r: String)
    ensures
        r@ == too_large_text(field@, value as nat, target@),
{
    let mut m = String::from_str(field);
    m.append(" (");
    push_decimal(&mut m, value as u128);
    m.append(") is too large for ");
    m.append(target);
    m
}

/// Converts an `u32` from the in-memory model to an `i16` suitable for storage.
pub fn u32_to_i16(field: &'static str, unsigned: u32) -> (r: DbResult<i16>)
    ensures
        unsigned <= i16::MAX ==> r == Ok::<i16, DbError>(unsigned as i16),
        unsigned > i16::MAX ==> (r matches Err(DbError::BackendError(m)) && m@ == too_large_text(
            field@,
            unsigned as nat,
            "i16"@,
        )),
{
    if unsigned > 32767 {
        return Err(DbError::BackendError(too_large_message(field, unsigned as u64, "i16")));
    }
    Ok(unsigned as i16)
}

/// Converts an `u64` from the in-memory model to an `i64` suitable for storage.
pub fn u64_to_i64(field: &'static str, unsigned: u64) -> (r: DbResult<i64>)
    ensures
        unsigned <= i64::MAX ==> r == Ok::<i64, DbError>(unsigned as i64),
        unsigned > i64::MAX ==> (r matches Err(DbError::BackendError(m)) && m@ == too_large_text(
            field@,
            unsigned as nat,
            "i64"@,
        )),
{
    if unsigned > 9223372036854775807 {
        return Err(DbError::BackendError(too_large_message(field, unsigned, "i64")));
    }
    Ok(unsigned as i64)
}

/// Fits the string in `input` within the specified `max_len` bytes.
pub fn truncate_option_str(input: Option<&str>, max_len: usize) -> (r: Option<String>)
    requires
        input matches Some(s) ==> can_truncate(s@, max_len as nat),
    ensures
        match input {
            Some(s) => r matches Some(t) && t@ == truncated(s@, max_len as nat),
            None => r is None,
        },
{
    match input {
        Some(s) => Some(truncate_str(s, max_len)),
        None => None,
    }
}

/// The `sqlx` pool of a PostgreSQL database.
///
/// The pool is held in a field of this opaque struct because `sqlx::Pool<DB: sqlx::Database>`
/// cannot be declared as an outside type: its bound names a trait of `sqlx`.
#[verifier::external_body]
pub struct SqlxPgPool {
    pub pool: sqlx::PgPool,
}

/// What a PostgreSQL pool connects with: host, port, database, username and password.
pub type PgConnectParams = (Seq<char>, u16, Seq<char>, Seq<char>, Seq<char>);

/// A pool of lazily opened connections to a PostgreSQL database, with the parameters that it
/// connects with.  Only `connect_lazy_pool` makes one.
pub struct PgPoolHandle {
    pool: SqlxPgPool,
    params: Ghost<PgConnectParams>,
}

impl PgPoolHandle {
    /// The host, port, database, username and password that the pool connects with.
    pub closed spec fn connect_params(&self) -> PgConnectParams {
        self.params@
    }

    /// The `sqlx` pool.
    pub closed spec fn lazy_pool(&self) -> SqlxPgPool {
        self.pool
    }

    /// The `sqlx` pool, to run statements on.
    pub fn sqlx_pool(&self) -> (r: &SqlxPgPool)
        ensures
            *r == self.lazy_pool(),
    {
        &self.pool
    }
}

/// A pool of connections to a SQLite database, held in a field of this opaque struct as
/// `SqlxPgPool` holds its pool.
#[verifier::external_body]
pub struct SqlitePoolHandle {
    pub pool: sqlx::SqlitePool,
}

/// An error reported by `sqlx`.
#[verifier::external_type_specification]
#[verifier::external_body]
pub struct ExSqlxError(sqlx::Error);

/// What the error handling of the backends reads of a `sqlx` error.
pub enum SqlxFailure {
    /// A query that had to return a row returned none.
    RowNotFound,
    /// The database rejected a statement.
    Database {
        /// The SQLSTATE code, when the database is PostgreSQL.
        pg_code: Option<String>,
        /// The database's own description of the failure.
        message: String,
        /// The description of the whole `sqlx` error.
        text: String,
    },
    /// Any other failure.
    Other {
        /// The description of the whole `sqlx` error.
        text: String,
    },
}

/// What the error handling reads of the `sqlx` error `e`: which of `RowNotFound`, `Database`
/// or another variant it is, and the texts described at `sqlx_failure`.
pub uninterp spec fn sqlx_failure_of(e: sqlx::Error) -> SqlxFailure;

/// Reads what the error handling needs out of a `sqlx` error.
///
/// Tells the variants `RowNotFound` and `Database` of `sqlx::Error` apart from the others, and
/// converts the error, its database error (through `Display`) and, for PostgreSQL, the error's
/// SQLSTATE code (`PgDatabaseError::code`, after `try_downcast_ref`) into strings.  All of these
/// depend on the error alone, so the result is named `sqlx_failure_of(e)`; what it holds for a
/// given error is left unstated, as the error's contents are opaque.
#[verifier::external_body]
pub(crate) fn sqlx_failure(e: &sqlx::Error) -> (r: SqlxFailure)
    ensures
        r == sqlx_failure_of(*e),
{
    match e {
        sqlx::Error::RowNotFound => SqlxFailure::RowNotFound,
        sqlx::Error::Database(d) => SqlxFailure::Database {
            pg_code: match d.try_downcast_ref::<sqlx::postgres::PgDatabaseError>() {
                Some(pg) => Some(pg.code().to_owned()),
                None => None,
            },
            message: d.to_string(),
            text: e.to_string(),
        },
        other => SqlxFailure::Other { text: other.to_string() },
    }
}

/// Reserves `count` consecutive numbers of a shared 32-bit counter and returns the first one.
/// Other holders of the counter may reserve numbers at the same time, so nothing is known of the
/// value returned; the counter wraps around on overflow.
pub(crate) fn reserve_u32(counter: &AtomicU32, count: u32) -> u32 {
    counter.fetch_add(count, Ordering::SeqCst)
}

/// Reserves `count` consecutive numbers of a shared 64-bit counter and returns the first one.
/// Other holders of the counter may reserve numbers at the same time, so nothing is known of the
/// value returned; the counter wraps around on overflow.
pub(crate) fn reserve_u64(counter: &AtomicU64, count: u64) -> u64 {
    counter.fetch_add(count, Ordering::SeqCst)
}

/// Whether opening a transaction should be tried again after it failed with `err`: only when
/// the database is unavailable for now.
pub fn begin_should_retry(err: &DbError) -> (r: bool)
    ensures
        r == (*err is Unavailable),
{
    match err {
        DbError::Unavailable => true,
        _ => false,
    }
}

/// `Log entries insertion created <affected> rows but expected <expected>`.
pub open spec fn row_count_text(affected: nat, expected: nat) -> Seq<char> {
    "Log entries insertion created "@ + decimal(affected) + " rows but expected "@ + decimal(
        expected,
    )
}

/// Checks that an insertion of `expected` rows affected `affected` rows.
pub fn check_rows_affected(affected: u64, expected: usize) -> (r: DbResult<()>)
    ensures
        affected == expected ==> r is Ok,
        affected != expected ==> (r matches Err(DbError::BackendError(m)) && m@ == row_count_text(
            affected as nat,
            expected as nat,
        )),
{
    if affected as u128 != expected as u128 {
        let mut m = String::from_str("Log entries insertion created ");
        push_decimal(&mut m, affected as u128);
        m.append(" rows but expected ");
        push_decimal(&mut m, expected as u128);
        return Err(DbError::BackendError(m));
    }
    Ok(())
}

/// The text that shows one stored log entry: `<secs>.<subsec> <hostname> <level> <module>
/// <filename>:<line> <message>`, with `NO-MODULE`, `NO-FILENAME` and `-1` for absent values.
pub open spec fn log_line(
    secs: int,
    subsec: int,
    hostname: Seq<char>,
    level: int,
    module: Option<Seq<char>>,
    filename: Option<Seq<char>>,
    line: Option<int>,
    message: Seq<char>,
) -> Seq<char> {
    signed_decimal(secs) + "."@ + signed_decimal(subsec) + " "@ + hostname + " "@ + signed_decimal(
        level,
    ) + " "@ + (match module {
        Some(m) => m,
        None => "NO-MODULE"@,
    }) + " "@ + (match filename {
        Some(f) => f,
        None => "NO-FILENAME"@,
    }) + ":"@ + signed_decimal(
        match line {
            Some(l) => l,
            None => -1,
        },
    ) + " "@ + message
}

/// The text of an optional string slice, if any.
pub open spec fn opt_str_text(o: Option<&str>) -> Option<Seq<char>> {
    match o {
        Some(s) => Some(s@),
        None => None,
    }
}

/// Renders one stored log entry as text, for tests and inspection.
pub fn format_log_line(
    secs: i64,
    subsec: i64,
    hostname: &str,
    level: i16,
    module: Option<&str>,
    filename: Option<&str>,
    line: Option<i16>,
    message: &str,
) -> (r: String)
    ensures
        r@ == log_line(
            secs as int,
            subsec as int,
            hostname@,
            level as int,
            opt_str_text(module),
            opt_str_text(filename),
            match line {
                Some(l) => Some(l as int),
                None => None,
            },
            message@,
        ),
{
    let mut out = String::new();
    push_signed_decimal(&mut out, secs as i128);
    out.append(".");
    push_signed_decimal(&mut out, subsec as i128);
    out.append(" ");
    out.append(hostname);
    out.append(" ");
    push_signed_decimal(&mut out, level as i128);
    out.append(" ");
    match module {
        Some(m) => out.append(m),
        None => out.append("NO-MODULE"),
    }
    out.append(" ");
    match filename {
        Some(f) => out.append(f),
        None => out.append("NO-FILENAME"),
    }
    out.append(":");
    let line_value: i128 = match line {
        Some(l) => l as i128,
        None => -1,
    };
    push_signed_decimal(&mut out, line_value);
    out.append(" ");
    out.append(message);
    out
}

} // verus!
