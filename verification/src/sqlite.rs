//! Implementation of the database abstraction using SQLite: the values bound to each inserted
//! row, the text that reads rows back, and the classification of errors.

use crate::clocks::{div_toward_zero, valid_unix_nanos};
use crate::db::pgsql::{
    entry_truncatable, line_fits, opt_text, opt_truncated, row_stores, subsecond_nanos, PgLogRow,
};
use crate::db::log_line;
use crate::db::{
    reserve_u64, sqlx_failure, sqlx_failure_of, too_large_text, DbError, DbResult,
    SqlitePoolHandle, SqlxFailure,
};
use crate::order::{
    column_list, is_identifier, lemma_orders_by_unique, order_by_words, orders_by, sorted_by,
    sorted_pair,
};
use crate::logger::{
    LogEntry, LOG_ENTRY_MAX_FILENAME_LENGTH, LOG_ENTRY_MAX_HOSTNAME_LENGTH,
    LOG_ENTRY_MAX_MESSAGE_LENGTH, LOG_ENTRY_MAX_MODULE_LENGTH,
};
use crate::text::{contains_exec, contains_seq, truncate_str, truncated};
use std::sync::atomic::AtomicU64;
use std::sync::Arc;
use vstd::prelude::*;
use vstd::string::*;

verus! {

/// A semaphore of Tokio.
#[verifier::external_type_specification]
#[verifier::external_body]
pub struct ExSemaphore(tokio::sync::Semaphore);

/// `tokio::sync::Semaphore::new` creates a semaphore with `permits` permits; it panics when
/// `permits` exceeds `Semaphore::MAX_PERMITS`, which is `usize::MAX >> 3`, that is `usize::MAX / 8`.  The semaphore is
/// opaque, so nothing is stated of it.
pub assume_specification[ tokio::sync::Semaphore::new ](permits: usize) -> tokio::sync::Semaphore
    requires
        permits <= usize::MAX / 8,
;

/// True when `e` is the error of this library that the SQLite failure `f` stands for: a failed
/// foreign key constraint means a missing entity, a failed unique constraint an existing one,
/// anything else a backend error that carries the description of the error.
pub open spec fn is_sqlite_error_for(f: SqlxFailure, e: DbError) -> bool {
    match f {
        SqlxFailure::RowNotFound => e == DbError::NotFound,
        SqlxFailure::Database { pg_code: _, message: _, text } => sqlite_text_error(text@, e),
        SqlxFailure::Other { text } => sqlite_text_error(text@, e),
    }
}

/// True when `e` is the error that a SQLite failure described by `text` stands for.
pub open spec fn sqlite_text_error(text: Seq<char>, e: DbError) -> bool {
    if contains_seq(text, "FOREIGN KEY constraint failed"@) {
        e == DbError::NotFound
    } else if contains_seq(text, "UNIQUE constraint failed"@) {
        e == DbError::AlreadyExists
    } else {
        e matches DbError::BackendError(m) && m@ == text
    }
}

fn sqlite_error_from_text(text: String) -> (r: DbError)
    ensures
        sqlite_text_error(text@, r),
{
    if contains_exec(text.as_str(), "FOREIGN KEY constraint failed") {
        DbError::NotFound
    } else if contains_exec(text.as_str(), "UNIQUE constraint failed") {
        DbError::AlreadyExists
    } else {
        DbError::BackendError(text)
    }
}

/// The error of this library that the SQLite failure `f` stands for.
pub fn sqlite_error_from_failure(f: SqlxFailure) -> (r: DbError)
    ensures
        is_sqlite_error_for(f, r),
{
    match f {
        SqlxFailure::RowNotFound => DbError::NotFound,
        SqlxFailure::Database { pg_code: _, message: _, text } => sqlite_error_from_text(text),
        SqlxFailure::Other { text } => sqlite_error_from_text(text),
    }
}

/// Takes a raw SQLx error `e` and converts it to our generic error type.
pub fn map_sqlx_error(e: sqlx::Error) -> (r: DbError)
    ensures
        is_sqlite_error_for(sqlx_failure_of(e), r),
{
    sqlite_error_from_failure(sqlx_failure(&e))
}

/// Converts an `u64` from the in-memory model to an `i64` suitable for storage.
pub fn u64_to_i64(field: &'static str, unsigned: u64) -> (r: DbResult<i64>)
    ensures
        unsigned <= i64::MAX ==> r == Ok::<i64, DbError>(unsigned as i64),
        unsigned > i64::MAX ==> (r matches Err(DbError::BackendError(m)) && m@ == too_large_text(
            field@,
            unsigned as nat,
            "i64"@,
        )),
{
    crate::db::u64_to_i64(field, unsigned)
}

/// `nanos` rounded up to the next whole microsecond (unchanged when it is one already).
pub open spec fn round_up_to_micros(nanos: int) -> int {
    if nanos % 1000 == 0 {
        nanos
    } else {
        nanos - nanos % 1000 + 1000
    }
}

/// The seconds and nanoseconds that the database stores for the time `nanos`: the time rounded
/// up to the next microsecond, split into seconds and the rest, both rounded toward zero.
pub open spec fn unpacked(nanos: int) -> (int, int) {
    let rounded = round_up_to_micros(nanos);
    let sec = div_toward_zero(rounded, 1_000_000_000);
    (sec, rounded - sec * 1_000_000_000)
}

/// Converts a timestamp into the seconds and nanoseconds pair needed by the database.
///
/// Nanoseconds are rounded to the next microsecond to emulate the behavior of the `pgsql`
/// implementation.
pub fn unpack_timestamp(ts: i128) -> (r: (i64, i64))
    requires
        valid_unix_nanos(ts as int),
    ensures
        r.0 == unpacked(ts as int).0,
        r.1 == unpacked(ts as int).1,
        r.0 * 1_000_000_000 + r.1 == round_up_to_micros(ts as int),
        -1_000_000_000 < r.1 < 1_000_000_000,
        r.1 % 1000 == 0,
{
    let nanos = ts;
    let nanos_only = nanos % 1000;
    let mut nanos = nanos / 1000 * 1000;
    if nanos_only > 0 {
        nanos = nanos + 1000;
    }
    assert(nanos == round_up_to_micros(ts as int)) by (nonlinear_arith)
        requires
            nanos_only == (if ts >= 0 {
                (ts as int) % 1000
            } else {
                -((-ts) % 1000)
            }),
            nanos == div_toward_zero(ts as int, 1000) * 1000 + (if nanos_only > 0 {
                1000int
            } else {
                0
            }),
    ;
    let sec = nanos / 1_000_000_000;
    let nsec = nanos % 1_000_000_000;
    assert(sec * 1_000_000_000 + nsec == nanos && -1_000_000_000 < nsec < 1_000_000_000 && nsec
        % 1000 == 0) by (nonlinear_arith)
        requires
            sec == div_toward_zero(nanos as int, 1_000_000_000),
            nsec == (if nanos >= 0 {
                (nanos as int) % 1_000_000_000
            } else {
                -((-nanos) % 1_000_000_000)
            }),
            nanos % 1000 == 0,
    ;
    (sec as i64, nsec as i64)
}

/// The values bound to one inserted row.
pub struct SqliteLogRow {
    pub timestamp_secs: i64,
    pub timestamp_nsecs: i64,
    pub sequence: i64,
    pub hostname: String,
    pub level: u8,
    pub module: Option<String>,
    pub filename: Option<String>,
    pub line: Option<u32>,
    pub message: String,
}

/// True when `row` stores `e` under sequence number `sequence`.
pub open spec fn sqlite_row_stores(row: SqliteLogRow, e: LogEntry, sequence: int) -> bool {
    &&& row.timestamp_secs == unpacked(e.timestamp as int).0
    &&& row.timestamp_nsecs == unpacked(e.timestamp as int).1
    &&& row.sequence == sequence
    &&& row.hostname@ == truncated(e.hostname@, LOG_ENTRY_MAX_HOSTNAME_LENGTH as nat)
    &&& row.level == e.level
    &&& opt_text(row.module) == opt_truncated(e.module, LOG_ENTRY_MAX_MODULE_LENGTH as nat)
    &&& opt_text(row.filename) == opt_truncated(e.filename, LOG_ENTRY_MAX_FILENAME_LENGTH as nat)
    &&& row.line == e.line
    &&& row.message@ == truncated(e.message@, LOG_ENTRY_MAX_MESSAGE_LENGTH as nat)
}

/// The values that store `e` under sequence number `sequence`, or the error that reports a
/// sequence number too large for the database.  The strings are cut to the column sizes, as the
/// PostgreSQL backend does.
pub fn sqlite_row(e: &LogEntry, sequence: u64) -> (r: DbResult<SqliteLogRow>)
    requires
        entry_truncatable(*e),
        valid_unix_nanos(e.timestamp as int),
    ensures
        sequence <= i64::MAX ==> (r matches Ok(row) && sqlite_row_stores(row, *e, sequence as int)),
        sequence > i64::MAX ==> (r matches Err(DbError::BackendError(m)) && m@ == too_large_text(
            "sequence"@,
            sequence as nat,
            "i64"@,
        )),
{
    let module = match e.module {
        Some(m) => Some(truncate_str(m, LOG_ENTRY_MAX_MODULE_LENGTH)),
        None => None,
    };
    let filename = match e.filename {
        Some(f) => Some(truncate_str(f, LOG_ENTRY_MAX_FILENAME_LENGTH)),
        None => None,
    };
    let hostname = truncate_str(e.hostname.as_str(), LOG_ENTRY_MAX_HOSTNAME_LENGTH);
    let message = truncate_str(e.message.as_str(), LOG_ENTRY_MAX_MESSAGE_LENGTH);
    let (timestamp_secs, timestamp_nsecs) = unpack_timestamp(e.timestamp);
    let sequence = match u64_to_i64("sequence", sequence) {
        Ok(s) => s,
        Err(err) => {
            return Err(err);
        },
    };
    Ok(
        SqliteLogRow {
            timestamp_secs,
            timestamp_nsecs,
            sequence,
            hostname,
            level: e.level,
            module,
            filename,
            line: e.line,
            message,
        },
    )
}

/// The sequence number of the entry at position `i` of a batch numbered from `start`, wrapping
/// around as the counter does.
pub open spec fn batch_sequence(start: u64, i: int) -> int {
    (start + i) % 0x1_0000_0000_0000_0000
}

/// The values that store the entry at position `i` of the batch `entries`, whose sequence numbers
/// start at `start`, or the error that reports a sequence number too large for the database.
/// Storing a batch takes its entries in order, one row each, and stops at the first error.
pub fn sqlite_batch_row(entries: &Vec<LogEntry>, start: u64, i: usize) -> (r: DbResult<
    SqliteLogRow,
>)
    requires
        i < entries.len(),
        entry_truncatable(entries@[i as int]),
        valid_unix_nanos(entries@[i as int].timestamp as int),
    ensures
        batch_sequence(start, i as int) <= i64::MAX ==> (r matches Ok(row) && sqlite_row_stores(
            row,
            entries@[i as int],
            batch_sequence(start, i as int),
        )),
        batch_sequence(start, i as int) > i64::MAX ==> (r matches Err(DbError::BackendError(m))
            && m@ == too_large_text("sequence"@, batch_sequence(start, i as int) as nat, "i64"@)),
{
    let sequence = start.wrapping_add(i as u64);
    sqlite_row(&entries[i], sequence)
}

/// The sequence number that follows `sequence`, wrapping around as the counter does.
pub fn next_sequence(sequence: u64) -> (r: u64)
    ensures
        r == (sequence + 1) % 0x1_0000_0000_0000_0000,
{
    sequence.wrapping_add(1)
}

/// The statement that inserts one row into the SQLite `logs` table, with a `?` for each value
/// of a `SqliteLogRow`, in the order of its fields.
pub open spec fn sqlite_insert_statement() -> Seq<char> {
    "
            INSERT INTO logs
                (timestamp_secs, timestamp_nsecs, sequence, hostname,
                    level, module, filename, line, message)
            VALUES (?, ?, ?, ?, ?, ?, ?, ?, ?)"@
}

/// The statement that inserts one row into the SQLite `logs` table.
pub fn sqlite_insert_query() -> (r: &'static str)
    ensures
        r@ == sqlite_insert_statement(),
{
    "
            INSERT INTO logs
                (timestamp_secs, timestamp_nsecs, sequence, hostname,
                    level, module, filename, line, message)
            VALUES (?, ?, ?, ?, ?, ?, ?, ?, ?)"
}

/// The query that reads all rows of the SQLite `logs` table back, oldest first and, among rows
/// of equal time, in the order of their sequence numbers.
pub open spec fn sqlite_select_statement() -> Seq<char> {
    "SELECT * FROM logs ORDER BY timestamp_secs, timestamp_nsecs, sequence"@
}

/// The query that reads all rows of the SQLite `logs` table back.
pub fn sqlite_select_query() -> (r: &'static str)
    ensures
        r@ == sqlite_select_statement(),
        orders_by(r@, seq![seconds_column(), nanoseconds_column(), sqlite_sequence_column()]),
{
    proof {
        lemma_sqlite_select_sorts_by_time(Seq::empty());
    }
    "SELECT * FROM logs ORDER BY timestamp_secs, timestamp_nsecs, sequence"
}

/// The column that holds the whole seconds of the time of a stored entry.
pub open spec fn seconds_column() -> Seq<char> {
    seq!['t', 'i', 'm', 'e', 's', 't', 'a', 'm', 'p', '_', 's', 'e', 'c', 's']
}

/// The column that holds the rest of the time of a stored entry, in nanoseconds.
pub open spec fn nanoseconds_column() -> Seq<char> {
    seq!['t', 'i', 'm', 'e', 's', 't', 'a', 'm', 'p', '_', 'n', 's', 'e', 'c', 's']
}

/// The column that holds the sequence number of a stored entry.
pub open spec fn sqlite_sequence_column() -> Seq<char> {
    seq!['s', 'e', 'q', 'u', 'e', 'n', 'c', 'e']
}

/// The query that reads entries back from SQLite returns them sorted by time, and among entries
/// of equal time by sequence number: it orders by exactly the columns `timestamp_secs`,
/// `timestamp_nsecs` and `sequence`, in that order; so in the rows it returns the pairs (seconds,
/// nanoseconds) never decrease, seconds first, and rows of equal time come with non-decreasing
/// sequence numbers.
pub proof fn lemma_sqlite_select_sorts_by_time(rows: Seq<Map<Seq<char>, int>>)
    ensures
        orders_by(
            sqlite_select_statement(),
            seq![seconds_column(), nanoseconds_column(), sqlite_sequence_column()],
        ),
        forall|keys: Seq<Seq<char>>|
            #[trigger] orders_by(sqlite_select_statement(), keys) ==> keys == seq![
                seconds_column(),
                nanoseconds_column(),
                sqlite_sequence_column(),
            ],
        sorted_by(rows, seq![seconds_column(), nanoseconds_column(), sqlite_sequence_column()])
            ==> forall|i: int, j: int|
            0 <= i < j < rows.len() ==> {
                let (a, b) = (rows[i], rows[j]);
                &&& (#[trigger] rows[i])[seconds_column()] <= (#[trigger] rows[j])[seconds_column()]
                &&& a[seconds_column()] == b[seconds_column()] ==> a[nanoseconds_column()]
                    <= b[nanoseconds_column()]
                &&& a[seconds_column()] == b[seconds_column()] && a[nanoseconds_column()]
                    == b[nanoseconds_column()] ==> a[sqlite_sequence_column()]
                    <= b[sqlite_sequence_column()]
            },
{
    let keys = seq![seconds_column(), nanoseconds_column(), sqlite_sequence_column()];
    let front = seq![
        'S', 'E', 'L', 'E', 'C', 'T', ' ', '*', ' ', 'F', 'R', 'O', 'M', ' ', 'l', 'o', 'g', 's',
    ];
    reveal_strlit("SELECT * FROM logs ORDER BY timestamp_secs, timestamp_nsecs, sequence");
    assert(keys.drop_last().drop_last() =~= seq![seconds_column()]);
    assert(column_list(keys.drop_last().drop_last()) == seconds_column());
    assert(column_list(keys.drop_last()) == seconds_column() + seq![',', ' '] + nanoseconds_column());
    assert(column_list(keys) == column_list(keys.drop_last()) + seq![',', ' ']
        + sqlite_sequence_column());
    assert(sqlite_select_statement() =~= front + order_by_words() + column_list(keys));
    assert forall|i: int| 0 <= i < keys.len() implies is_identifier(#[trigger] keys[i]) by {
        if i == 0 {
            assert(is_identifier(seconds_column()));
        } else if i == 1 {
            assert(is_identifier(nanoseconds_column()));
        } else {
            assert(is_identifier(sqlite_sequence_column()));
        }
    }
    assert(orders_by(sqlite_select_statement(), keys));
    assert forall|k: Seq<Seq<char>>| #[trigger] orders_by(sqlite_select_statement(), k) implies k
        == keys by {
        lemma_orders_by_unique(sqlite_select_statement(), k, keys);
    }
    if sorted_by(rows, keys) {
        assert forall|i: int, j: int| 0 <= i < j < rows.len() implies {
            let (a, b) = (rows[i], rows[j]);
            &&& (#[trigger] rows[i])[seconds_column()] <= (#[trigger] rows[j])[seconds_column()]
            &&& a[seconds_column()] == b[seconds_column()] ==> a[nanoseconds_column()]
                <= b[nanoseconds_column()]
            &&& a[seconds_column()] == b[seconds_column()] && a[nanoseconds_column()]
                == b[nanoseconds_column()] ==> a[sqlite_sequence_column()]
                <= b[sqlite_sequence_column()]
        } by {
            reveal_with_fuel(sorted_pair, 4);
            assert(sorted_pair(rows[i], rows[j], keys));
            assert(keys[0] == seconds_column());
            assert(keys.drop_first() =~= seq![nanoseconds_column(), sqlite_sequence_column()]);
            assert(keys.drop_first().drop_first() =~= seq![sqlite_sequence_column()]);
        }
    }
}

/// `Insertion didn't create one row`.
pub open spec fn single_row_text() -> Seq<char> {
    "Insertion didn't create one row"@
}

/// Checks that the insertion of one row affected exactly one row.
pub fn check_single_row(affected: u64) -> (r: DbResult<()>)
    ensures
        affected == 1 ==> r is Ok,
        affected != 1 ==> (r matches Err(DbError::BackendError(m)) && m@ == single_row_text()),
{
    if affected != 1 {
        return Err(DbError::BackendError(String::from_str("Insertion didn't create one row")));
    }
    Ok(())
}

/// Renders one row read from the `logs` table as text.
pub fn sqlite_log_line(
    timestamp_secs: i64,
    timestamp_nsecs: i64,
    hostname: &str,
    level: i8,
    module: Option<&str>,
    filename: Option<&str>,
    line: Option<i16>,
    message: &str,
) -> (r: String)
    ensures
        r@ == crate::db::log_line(
            timestamp_secs as int,
            timestamp_nsecs as int,
            hostname@,
            level as int,
            crate::db::opt_str_text(module),
            crate::db::opt_str_text(filename),
            match line {
                Some(l) => Some(l as int),
                None => None,
            },
            message@,
        ),
{
    crate::db::format_log_line(
        timestamp_secs,
        timestamp_nsecs,
        hostname,
        level as i16,
        module,
        filename,
        line,
        message,
    )
}

/// A database instance backed by an in-memory SQLite database.
pub struct InMemoryDb {
    pool: SqlitePoolHandle,
    sem: Arc<tokio::sync::Semaphore>,
    log_sequence: Arc<AtomicU64>,
}

impl InMemoryDb {
    /// The pool of connections of this database.
    pub closed spec fn pool_handle(&self) -> SqlitePoolHandle {
        self.pool
    }

    /// The semaphore that serializes the transactions of this database.
    pub closed spec fn transaction_semaphore(&self) -> Arc<tokio::sync::Semaphore> {
        self.sem
    }

    /// Wraps a connected pool whose schema is in place.  All transactions are serialized onto
    /// the database through a semaphore of one permit to avoid busy errors.
    pub fn new(pool: SqlitePoolHandle) -> (r: Self)
        ensures
            r.pool_handle() == pool,
    {
        let sem = Arc::new(tokio::sync::Semaphore::new(1));
        let log_sequence = Arc::new(AtomicU64::new(0));
        InMemoryDb { pool, sem, log_sequence }
    }

    /// The connection pool.
    pub fn pool(&self) -> (r: &SqlitePoolHandle)
        ensures
            *r == self.pool_handle(),
    {
        &self.pool
    }

    /// The semaphore that serializes transactions.
    pub fn semaphore(&self) -> (r: &Arc<tokio::sync::Semaphore>)
        ensures
            *r == self.transaction_semaphore(),
    {
        &self.sem
    }

    /// Reserves sequence numbers for `count` entries and returns the first one.  Other users of
    /// the database may reserve numbers at the same time, so nothing is known of the value.
    pub fn reserve_sequences(&self, count: usize) -> u64 {
        reserve_u64(&self.log_sequence, count as u64)
    }
}

/// The text that reading entry `e` back from the SQLite backend shows: its time rounded up to
/// the microsecond, and its strings cut to the column sizes.
pub open spec fn sqlite_entry_text(e: LogEntry) -> Seq<char> {
    log_line(
        unpacked(e.timestamp as int).0,
        unpacked(e.timestamp as int).1,
        truncated(e.hostname@, LOG_ENTRY_MAX_HOSTNAME_LENGTH as nat),
        e.level as int,
        opt_truncated(e.module, LOG_ENTRY_MAX_MODULE_LENGTH as nat),
        opt_truncated(e.filename, LOG_ENTRY_MAX_FILENAME_LENGTH as nat),
        match e.line {
            Some(l) => Some(l as int),
            None => None,
        },
        truncated(e.message@, LOG_ENTRY_MAX_MESSAGE_LENGTH as nat),
    )
}

/// Reading back a row that stores an entry shows the entry: when the database returns the
/// values that `sqlite_row` bound, with the level read as `i8` and the line as `i16` as the
/// backend reads them, `sqlite_log_line` renders `sqlite_entry_text` of the entry, for every
/// level and line that those column types hold.
pub proof fn lemma_sqlite_read_back(row: SqliteLogRow, e: LogEntry, sequence: int)
    requires
        sqlite_row_stores(row, e, sequence),
        e.level <= i8::MAX,
        line_fits(e),
    ensures
        log_line(
            row.timestamp_secs as int,
            row.timestamp_nsecs as int,
            row.hostname@,
            (row.level as i8) as int,
            opt_text(row.module),
            opt_text(row.filename),
            match row.line {
                Some(l) => Some((l as i16) as int),
                None => None,
            },
            row.message@,
        ) == sqlite_entry_text(e),
{
}

/// The SQLite backend shows what the PostgreSQL backend shows: when PostgreSQL hands back the
/// time of a row that stores an entry rounded up to the microsecond, which is what the SQLite
/// backend emulates, `pg_log_line` renders `sqlite_entry_text` of the entry, for every entry at
/// or after the Unix epoch whose line fits the column.
pub proof fn lemma_backends_show_the_same_line(
    row: PgLogRow,
    e: LogEntry,
    sequence: int,
    stored_nanos: int,
    stored_seconds: int,
)
    requires
        row_stores(row, e, sequence),
        line_fits(e),
        e.timestamp >= 0,
        stored_nanos == round_up_to_micros(e.timestamp as int),
        stored_seconds == stored_nanos / 1_000_000_000,
    ensures
        log_line(
            stored_seconds,
            subsecond_nanos(stored_nanos),
            row.hostname@,
            row.level as int,
            opt_text(row.module),
            opt_text(row.filename),
            match row.line {
                Some(l) => Some(l as int),
                None => None,
            },
            row.message@,
        ) == sqlite_entry_text(e),
{
    assert(stored_nanos >= 0);
    assert(unpacked(e.timestamp as int).0 == stored_seconds);
    assert(unpacked(e.timestamp as int).1 == subsecond_nanos(stored_nanos));
}

} // verus!
