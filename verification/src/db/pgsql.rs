//! Implementation of the database abstraction using PostgreSQL: the statements and bound values
//! that store log entries, the text that reads them back, and the classification of errors.

use crate::db::{
    reserve_u32, sqlx_failure, sqlx_failure_of, too_large_text, u32_to_i16, DbError, DbResult,
    PgConnectParams, PgPoolHandle, SqlxFailure,
};
use crate::logger::{
    LogEntry, LOG_ENTRY_MAX_FILENAME_LENGTH, LOG_ENTRY_MAX_HOSTNAME_LENGTH,
    LOG_ENTRY_MAX_MESSAGE_LENGTH, LOG_ENTRY_MAX_MODULE_LENGTH,
};
use crate::order::{
    column_list, is_identifier, lemma_orders_by_unique, order_by_words, orders_by, sorted_by,
    sorted_pair,
};
use crate::schema::{
    lemma_replace_all_passes_text, logs_marker, drop_index_statement, drop_table_statement, patch_query_text, patched_query,
    schema_statements_of, teardown_statements,
};
use crate::text::{
    can_truncate, count_char, decimal, occurs_at, replace_all, lemma_count_char_absent, lemma_count_char_concat,
    lemma_count_char_single, lemma_decimal_has_no_dollar, lemma_placeholder_token,
    lemma_placeholders_numbered_concat, lemma_placeholders_numbered_none,
    lemma_replace_all_keeps_count, placeholders_numbered_from, push_char, push_decimal,
    truncate_str, truncated,
};
use std::sync::atomic::AtomicU32;
use std::sync::Arc;
use vstd::prelude::*;
use vstd::string::*;

verus! {

/// The text of an optional string, if any.
pub open spec fn opt_text(o: Option<String>) -> Option<Seq<char>> {
    match o {
        Some(s) => Some(s@),
        None => None,
    }
}

/// An optional string cut down to `max_len` bytes, if any.
pub open spec fn opt_truncated(o: Option<&str>, max_len: nat) -> Option<Seq<char>> {
    match o {
        Some(s) => Some(truncated(s@, max_len)),
        None => None,
    }
}

/// True when the string fields of `e` can be cut to the column sizes without splitting a
/// character; `String::truncate` would panic otherwise.
pub open spec fn entry_truncatable(e: LogEntry) -> bool {
    &&& can_truncate(e.hostname@, LOG_ENTRY_MAX_HOSTNAME_LENGTH as nat)
    &&& can_truncate(e.message@, LOG_ENTRY_MAX_MESSAGE_LENGTH as nat)
    &&& (e.module matches Some(m) ==> can_truncate(m@, LOG_ENTRY_MAX_MODULE_LENGTH as nat))
    &&& (e.filename matches Some(f) ==> can_truncate(f@, LOG_ENTRY_MAX_FILENAME_LENGTH as nat))
}

/// True when the line of `e`, if any, fits the `SMALLINT` column.
pub open spec fn line_fits(e: LogEntry) -> bool {
    e.line matches Some(l) ==> l <= i16::MAX
}

/// True when the lines of the entries before position `i` all fit the `SMALLINT` column.
pub open spec fn lines_fit_before(entries: Seq<LogEntry>, i: int) -> bool {
    forall|j: int| 0 <= j < i ==> line_fits(#[trigger] entries[j])
}

/// True when every entry that storing `entries` reaches can be cut to the column sizes: the
/// entries up to and including the first one whose line does not fit.
pub open spec fn reached_entries_truncatable(entries: Seq<LogEntry>) -> bool {
    forall|i: int|
        0 <= i < entries.len() && lines_fit_before(entries, i) ==> entry_truncatable(
            #[trigger] entries[i],
        )
}

/// The values bound to one row of the insertion statement.
pub struct PgLogRow {
    /// Nanoseconds since the Unix epoch.
    pub timestamp: i128,
    /// Position of the entry among all entries written through the same connection.
    pub sequence: u32,
    pub hostname: String,
    pub level: i16,
    pub module: Option<String>,
    pub filename: Option<String>,
    pub line: Option<i16>,
    pub message: String,
}

/// One insertion statement and the rows whose values it binds, in order.
pub struct PgInsert {
    pub query: String,
    pub rows: Vec<PgLogRow>,
}

/// True when `row` stores `e` under sequence number `sequence`.
pub open spec fn row_stores(row: PgLogRow, e: LogEntry, sequence: int) -> bool {
    &&& row.timestamp == e.timestamp
    &&& row.sequence == sequence
    &&& row.hostname@ == truncated(e.hostname@, LOG_ENTRY_MAX_HOSTNAME_LENGTH as nat)
    &&& row.level == e.level as i16
    &&& opt_text(row.module) == opt_truncated(e.module, LOG_ENTRY_MAX_MODULE_LENGTH as nat)
    &&& opt_text(row.filename) == opt_truncated(e.filename, LOG_ENTRY_MAX_FILENAME_LENGTH as nat)
    &&& row.line == (match e.line {
        Some(l) => Some(l as i16),
        None => None::<i16>,
    })
    &&& row.message@ == truncated(e.message@, LOG_ENTRY_MAX_MESSAGE_LENGTH as nat)
}

/// The statement text before the rows of an insertion.
pub open spec fn insert_head() -> Seq<char> {
    "INSERT INTO logs\n                (timestamp, sequence, hostname, level, module, filename, line, message)\n            VALUES "@
}

/// The number of values bound for each row.
pub const PARAMS_PER_ROW: u64 = 8;

/// The first `count` placeholders of a row whose first placeholder is `$first`:
/// `$first, $first+1, ...`.
pub open spec fn placeholders(first: nat, count: nat) -> Seq<char>
    decreases count,
{
    if count == 0 {
        Seq::<char>::empty()
    } else {
        let k = (count - 1) as nat;
        placeholders(first, k) + (if k == 0 {
            seq!['$']
        } else {
            seq![',', ' ', '$']
        }) + decimal(first + k)
    }
}

/// The parenthesized placeholders of `rows` rows, separated by commas: `($1, ..., $8),($9, ...)`.
pub open spec fn values_clause(rows: nat) -> Seq<char>
    decreases rows,
{
    if rows == 0 {
        Seq::<char>::empty()
    } else {
        let k = (rows - 1) as nat;
        values_clause(k) + (if k == 0 {
            Seq::<char>::empty()
        } else {
            seq![',']
        }) + seq!['('] + placeholders(k * 8 + 1, 8) + seq![')']
    }
}

/// The statement that inserts `rows` rows into the `logs` table renamed for `suffix`.
pub open spec fn insert_query(rows: nat, suffix: Option<u32>) -> Seq<char> {
    patched_query(insert_head(), suffix) + values_clause(rows)
}

/// `sequence` advanced by `offset`, wrapping around as the `u32` counter does.
pub open spec fn sequence_at(start: u32, offset: int) -> int {
    (start + offset) % 0x1_0000_0000
}

/// True when `plan` stores all of `entries`, numbered from `start`, in the table renamed for
/// `suffix`.
pub open spec fn is_insert_for(
    plan: PgInsert,
    entries: Seq<LogEntry>,
    start: u32,
    suffix: Option<u32>,
) -> bool {
    &&& plan.query@ == insert_query(entries.len(), suffix)
    &&& plan.rows@.len() == entries.len()
    &&& forall|i: int|
        0 <= i < entries.len() ==> row_stores(
            #[trigger] plan.rows@[i],
            entries[i],
            sequence_at(start, i),
        )
}

/// True when `plan` stores all of `entries`, numbered consecutively from some start that the
/// shared counter handed out, in the table renamed for `suffix`.
pub open spec fn is_numbered_insert_for(
    plan: PgInsert,
    entries: Seq<LogEntry>,
    suffix: Option<u32>,
) -> bool {
    exists|start: u32| #[trigger] is_insert_for(plan, entries, start, suffix)
}

/// True when `k` is the first entry whose line does not fit the `SMALLINT` column.
pub open spec fn first_bad_line(entries: Seq<LogEntry>, k: int) -> bool {
    &&& 0 <= k < entries.len()
    &&& !line_fits(entries[k])
    &&& forall|j: int| 0 <= j < k ==> line_fits(#[trigger] entries[j])
}

/// True when `m` reports the first entry of `entries` whose line does not fit.
pub open spec fn is_line_error_for(m: Seq<char>, entries: Seq<LogEntry>) -> bool {
    exists|k: int|
        first_bad_line(entries, k) && m == too_large_text(
            "line"@,
            entries[k].line->0 as nat,
            "i16"@,
        )
}

/// Within one insertion the sequence numbers grow with the position of the entries, so that
/// entries of equal time come back, ordered by sequence, in the order in which they were
/// written; this holds whenever the numbers of the batch do not wrap around the `u32` counter.
pub proof fn lemma_batch_sequences_increase(
    plan: PgInsert,
    entries: Seq<LogEntry>,
    start: u32,
    suffix: Option<u32>,
)
    requires
        is_insert_for(plan, entries, start, suffix),
        start + entries.len() <= 0x1_0000_0000,
    ensures
        forall|i: int, j: int|
            0 <= i < j < plan.rows@.len() ==> #[trigger] plan.rows@[i].sequence
                < #[trigger] plan.rows@[j].sequence,
{
    assert forall|i: int, j: int| 0 <= i < j < plan.rows@.len() implies #[trigger] plan.rows@[i].sequence
        < #[trigger] plan.rows@[j].sequence by {
        assert(row_stores(plan.rows@[i], entries[i], sequence_at(start, i)));
        assert(row_stores(plan.rows@[j], entries[j], sequence_at(start, j)));
        assert(sequence_at(start, i) == start + i);
        assert(sequence_at(start, j) == start + j);
    }
}

proof fn lemma_placeholders_count(first: nat, count: nat)
    ensures
        count_char(placeholders(first, count), '$') == count,
    decreases count,
{
    if count > 0 {
        let k = (count - 1) as nat;
        let sep: Seq<char> = if k == 0 {
            seq!['$']
        } else {
            seq![',', ' ', '$']
        };
        lemma_placeholders_count(first, k);
        lemma_decimal_has_no_dollar(first + k);
        assert(count_char(sep, '$') == 1) by {
            lemma_count_char_single('$', '$');
            if k > 0 {
                lemma_count_char_single(',', '$');
                lemma_count_char_single(' ', '$');
                lemma_count_char_concat(seq![' '], seq!['$'], '$');
                lemma_count_char_concat(seq![','], seq![' '] + seq!['$'], '$');
                assert(sep =~= seq![','] + (seq![' '] + seq!['$']));
            }
        }
        lemma_count_char_concat(placeholders(first, k), sep, '$');
        lemma_count_char_concat(placeholders(first, k) + sep, decimal(first + k), '$');
    }
}

proof fn lemma_values_clause_count(rows: nat)
    ensures
        count_char(values_clause(rows), '$') == 8 * rows,
    decreases rows,
{
    if rows > 0 {
        let k = (rows - 1) as nat;
        let comma: Seq<char> = if k == 0 {
            Seq::<char>::empty()
        } else {
            seq![',']
        };
        lemma_values_clause_count(k);
        lemma_placeholders_count(k * 8 + 1, 8);
        assert(count_char(comma, '$') == 0) by {
            if k > 0 {
                lemma_count_char_single(',', '$');
            }
        }
        lemma_count_char_single('(', '$');
        lemma_count_char_single(')', '$');
        let a = values_clause(k);
        lemma_count_char_concat(a, comma, '$');
        lemma_count_char_concat(a + comma, seq!['('], '$');
        lemma_count_char_concat(a + comma + seq!['('], placeholders(k * 8 + 1, 8), '$');
        lemma_count_char_concat(
            a + comma + seq!['('] + placeholders(k * 8 + 1, 8),
            seq![')'],
            '$',
        );
    }
}

/// The insertion statement has exactly one `$` placeholder for each value that the plan binds:
/// eight for each row, whatever the suffix of the table, numbered `$1`, `$2`, ... in the order in
/// which they occur, as the values are bound.
pub proof fn lemma_insert_placeholders_match_values(
    plan: PgInsert,
    entries: Seq<LogEntry>,
    start: u32,
    suffix: Option<u32>,
)
    requires
        is_insert_for(plan, entries, start, suffix),
    ensures
        count_char(plan.query@, '$') == PARAMS_PER_ROW * plan.rows@.len(),
        placeholders_numbered_from(plan.query@, 0),
{
    lemma_insert_placeholders_numbered(entries.len(), suffix);
    let head = insert_head();
    lemma_insert_head_has_no_dollar(suffix);
    lemma_values_clause_count(entries.len());
    lemma_count_char_concat(patched_query(head, suffix), values_clause(entries.len()), '$');
}

proof fn lemma_insert_head_has_no_dollar(suffix: Option<u32>)
    ensures
        count_char(patched_query(insert_head(), suffix), '$') == 0,
{
    let head = insert_head();
    reveal_strlit(
        "INSERT INTO logs\n                (timestamp, sequence, hostname, level, module, filename, line, message)\n            VALUES ",
    );
    assert(!head.contains('$')) by {
        if head.contains('$') {
            let j = choose|j: int| 0 <= j < head.len() && head[j] == '$';
        }
    }
    lemma_count_char_absent(head, '$');
    match suffix {
        None => {},
        Some(n) => {
            let marker = logs_marker();
            let rep = logs_marker().push('_') + decimal(n as nat);
            assert(!marker.contains('$')) by {
                if marker.contains('$') {
                    let j = choose|j: int| 0 <= j < marker.len() && marker[j] == '$';
                }
            }
            assert(!logs_marker().push('_').contains('$')) by {
                if logs_marker().push('_').contains('$') {
                    let j = choose|j: int|
                        0 <= j < logs_marker().push('_').len() && logs_marker().push('_')[j] == '$';
                }
            }
            lemma_count_char_absent(marker, '$');
            lemma_count_char_absent(logs_marker().push('_'), '$');
            lemma_decimal_has_no_dollar(n as nat);
            lemma_count_char_concat(logs_marker().push('_'), decimal(n as nat), '$');
            lemma_replace_all_keeps_count(head, marker, rep, '$');
        },
    }
}

proof fn lemma_placeholders_numbered(first: nat, count: nat, before: nat)
    requires
        first == before + 1,
    ensures
        placeholders_numbered_from(placeholders(first, count), before),
        count_char(placeholders(first, count), '$') == count,
        count > 0 ==> placeholders(first, count)[0] == '$',
    decreases count,
{
    lemma_placeholders_count(first, count);
    if count > 0 {
        let k = (count - 1) as nat;
        let prev = placeholders(first, k);
        lemma_placeholders_numbered(first, k, before);
        lemma_placeholder_token(before + k);
        let token = seq!['$'] + decimal(before + k + 1);
        assert(first + k == before + k + 1);
        if k == 0 {
            assert(prev =~= Seq::<char>::empty());
            assert(placeholders(first, count) =~= token);
        } else {
            let gap = seq![',', ' '];
            lemma_count_char_single(',', '$');
            lemma_count_char_single(' ', '$');
            lemma_count_char_concat(seq![','], seq![' '], '$');
            assert(gap =~= seq![','] + seq![' ']);
            lemma_placeholders_numbered_none(gap, before + k);
            lemma_placeholders_numbered_concat(gap, token, before + k);
            lemma_placeholders_numbered_concat(prev, gap + token, before);
            assert(placeholders(first, count) =~= prev + (gap + token));
        }
    }
}

proof fn lemma_values_clause_numbered(rows: nat)
    ensures
        placeholders_numbered_from(values_clause(rows), 0),
        rows > 0 ==> values_clause(rows)[0] == '(',
    decreases rows,
{
    if rows == 0 {
        lemma_placeholders_numbered_none(Seq::<char>::empty(), 0);
    } else {
        let k = (rows - 1) as nat;
        let prev = values_clause(k);
        lemma_values_clause_numbered(k);
        lemma_values_clause_count(k);
        let comma: Seq<char> = if k == 0 {
            Seq::<char>::empty()
        } else {
            seq![',']
        };
        let group = placeholders(k * 8 + 1, 8);
        lemma_placeholders_numbered(k * 8 + 1, 8, k * 8);
        lemma_count_char_single('(', '$');
        lemma_count_char_single(')', '$');
        lemma_count_char_single(',', '$');
        lemma_placeholders_numbered_none(seq![')'], k * 8 + 8);
        lemma_placeholders_numbered_concat(group, seq![')'], k * 8);
        lemma_count_char_concat(group, seq![')'], '$');
        lemma_placeholders_numbered_none(seq!['('], k * 8);
        lemma_placeholders_numbered_concat(seq!['('], group + seq![')'], k * 8);
        lemma_count_char_concat(seq!['('], group + seq![')'], '$');
        let tail = seq!['('] + (group + seq![')']);
        assert(count_char(comma, '$') == 0);
        lemma_placeholders_numbered_none(comma, k * 8);
        lemma_placeholders_numbered_concat(comma, tail, k * 8);
        let rest = comma + tail;
        assert(rest[0] == ',' || rest[0] == '(');
        assert(8 * k == k * 8);
        lemma_placeholders_numbered_concat(prev, rest, 0);
        assert(values_clause(rows) =~= prev + rest);
        if k == 0 {
            assert(prev =~= Seq::<char>::empty());
        }
    }
}

/// The placeholders of the insertion statement of `rows` rows are exactly `$1` to `$<8 * rows>`,
/// each once and in the order of the bound values: the `$` that follows `j` others in the
/// statement is `$<j + 1>`, and there are eight of them for each row.
pub proof fn lemma_insert_placeholders_numbered(rows: nat, suffix: Option<u32>)
    ensures
        count_char(insert_query(rows, suffix), '$') == PARAMS_PER_ROW * rows,
        placeholders_numbered_from(insert_query(rows, suffix), 0),
{
    let head = patched_query(insert_head(), suffix);
    lemma_insert_head_has_no_dollar(suffix);
    lemma_values_clause_count(rows);
    lemma_values_clause_numbered(rows);
    lemma_count_char_concat(head, values_clause(rows), '$');
    lemma_placeholders_numbered_none(head, 0);
    lemma_placeholders_numbered_concat(head, values_clause(rows), 0);
}

fn push_placeholders(out: &mut String, first: u64, count: u64)
    requires
        first + count <= u64::MAX,
    ensures
        final(out)@ == old(out)@ + placeholders(first as nat, count as nat),
{
    let mut k: u64 = 0;
    while k < count
        invariant
            first + count <= u64::MAX,
            k <= count,
            out@ == old(out)@ + placeholders(first as nat, k as nat),
        decreases count - k,
    {
        let ghost before = out@;
        if k == 0 {
            push_char(out, '$');
        } else {
            push_char(out, ',');
            push_char(out, ' ');
            push_char(out, '$');
        }
        push_decimal(out, (first + k) as u128);
        assert(placeholders(first as nat, (k + 1) as nat) == placeholders(first as nat, k as nat)
            + (if k == 0 {
            seq!['$']
        } else {
            seq![',', ' ', '$']
        }) + decimal((first + k) as nat));
        assert(out@ =~= old(out)@ + placeholders(first as nat, (k + 1) as nat));
        k = k + 1;
    }
}

/// Builds the statement that inserts `rows` rows into the `logs` table renamed for `suffix`.
pub fn insert_query_text(rows: usize, suffix: Option<u32>) -> (r: String)
    requires
        rows <= u32::MAX,
    ensures
        r@ == insert_query(rows as nat, suffix),
        count_char(r@, '$') == PARAMS_PER_ROW * rows,
        placeholders_numbered_from(r@, 0),
{
    proof {
        lemma_insert_placeholders_numbered(rows as nat, suffix);
    }
    let mut query = patch_query_text(
        "INSERT INTO logs\n                (timestamp, sequence, hostname, level, module, filename, line, message)\n            VALUES ",
        suffix,
    );
    let ghost head = query@;
    let mut k: usize = 0;
    while k < rows
        invariant
            rows <= u32::MAX,
            k <= rows,
            query@ == head + values_clause(k as nat),
        decreases rows - k,
    {
        let ghost before = query@;
        if k > 0 {
            push_char(&mut query, ',');
        }
        push_char(&mut query, '(');
        let first: u64 = (k as u64) * PARAMS_PER_ROW + 1;
        push_placeholders(&mut query, first, PARAMS_PER_ROW);
        push_char(&mut query, ')');
        assert(query@ =~= head + values_clause((k + 1) as nat));
        k = k + 1;
    }
    query
}

/// The values that store `e` under sequence number `sequence`, or the message that reports a
/// line too large for the database.
pub fn pg_row(e: &LogEntry, sequence: u32) -> (r: DbResult<PgLogRow>)
    requires
        entry_truncatable(*e),
    ensures
        line_fits(*e) ==> (r matches Ok(row) && row_stores(row, *e, sequence as int)),
        !line_fits(*e) ==> (r matches Err(DbError::BackendError(m)) && m@ == too_large_text(
            "line"@,
            e.line->0 as nat,
            "i16"@,
        )),
{
    let module = match e.module {
        Some(m) => Some(truncate_str(m, LOG_ENTRY_MAX_MODULE_LENGTH)),
        None => None,
    };
    let filename = match e.filename {
        Some(f) => Some(truncate_str(f, LOG_ENTRY_MAX_FILENAME_LENGTH)),
        None => None,
    };
    let hostname = truncate_str(e.hostname.as_str(), LOG_ENTRY_MAX_HOSTNAME_LENGTH);
    let message = truncate_str(e.message.as_str(), LOG_ENTRY_MAX_MESSAGE_LENGTH);
    let line = match e.line {
        Some(n) => match u32_to_i16("line", n) {
            Ok(v) => Some(v),
            Err(err) => {
                return Err(err);
            },
        },
        None => None,
    };
    Ok(
        PgLogRow {
            timestamp: e.timestamp,
            sequence,
            hostname,
            level: e.level as i16,
            module,
            filename,
            line,
            message,
        },
    )
}

/// Builds the statement and the bound values that store `entries`, numbered from `start`, in the
/// table renamed for `suffix`.  Fails, before anything is stored, on the first entry whose line
/// does not fit the database.
pub fn plan_pg_insert(entries: &Vec<LogEntry>, start: u32, suffix: Option<u32>) -> (r: DbResult<
    PgInsert,
>)
    requires
        entries.len() <= u32::MAX,
        reached_entries_truncatable(entries@),
    ensures
        (forall|i: int| 0 <= i < entries.len() ==> line_fits(#[trigger] entries@[i])) ==> (r matches Ok(
            plan,
        ) && is_insert_for(plan, entries@, start, suffix)),
        !(forall|i: int| 0 <= i < entries.len() ==> line_fits(#[trigger] entries@[i])) ==> (r matches Err(
            DbError::BackendError(m),
        ) && is_line_error_for(m@, entries@)),
{
    let query = insert_query_text(entries.len(), suffix);
    let mut rows: Vec<PgLogRow> = Vec::new();
    let mut sequence = start;
    let mut i: usize = 0;
    while i < entries.len()
        invariant
            entries.len() <= u32::MAX,
            reached_entries_truncatable(entries@),
            i <= entries.len(),
            sequence == sequence_at(start, i as int),
            rows@.len() == i,
            forall|j: int| 0 <= j < i ==> line_fits(#[trigger] entries@[j]),
            forall|j: int|
                0 <= j < i ==> row_stores(#[trigger] rows@[j], entries@[j], sequence_at(start, j)),
        decreases entries.len() - i,
    {
        assert(lines_fit_before(entries@, i as int));
        assert(entry_truncatable(entries@[i as int]));
        let row = match pg_row(&entries[i], sequence) {
            Ok(row) => row,
            Err(err) => {
                assert(first_bad_line(entries@, i as int));
                return Err(err);
            },
        };
        rows.push(row);
        sequence = sequence.wrapping_add(1);
        proof {
            assert(sequence_at(start, i + 1) == (sequence_at(start, i as int) + 1) % 0x1_0000_0000)
                by (nonlinear_arith);
        }
        i = i + 1;
    }
    Ok(PgInsert { query, rows })
}

/// A handle to a Tokio runtime.
#[verifier::external_type_specification]
#[verifier::external_body]
pub struct ExRuntimeHandle(tokio::runtime::Handle);

/// Opens a lazily connecting pool to a PostgreSQL database, inside the Tokio runtime `runtime`.
///
/// Enters `runtime` (`tokio::runtime::Handle::enter`), builds
/// `sqlx::postgres::PgConnectOptions::new()` (which starts from the `PG*` environment variables
/// and `.pgpass`), overrides its host, port, database, username and password with the arguments,
/// and calls `sqlx::PgPool::connect_lazy_with`, which opens no connection but spawns the pool's
/// maintenance task; entering the runtime first is what lets that spawn succeed.  The contract
/// states that the pool connects with the five arguments, which the result records; the pool
/// itself is opaque.  `Handle::enter` panics only when the thread's storage is
/// being torn down, which is not a condition on values and is left unstated.
#[verifier::external_body]
pub(crate) fn connect_lazy_pool(
    runtime: &tokio::runtime::Handle,
    host: &str,
    port: u16,
    database: &str,
    username: &str,
    password: &str,
) -> (r: PgPoolHandle)
    ensures
        r.connect_params() == (host@, port, database@, username@, password@),
{
    let _entered = runtime.enter();
    let options = sqlx::postgres::PgConnectOptions::new().host(host).port(port).database(
        database,
    ).username(username).password(password);
    PgPoolHandle {
        pool: crate::db::SqlxPgPool { pool: sqlx::PgPool::connect_lazy_with(options) },
        params: Ghost((host@, port, database@, username@, password@)),
    }
}

/// A database instance backed by a PostgreSQL database.
pub struct PostgresDb {
    pool: PgPoolHandle,
    suffix: Option<u32>,
    log_sequence: Arc<AtomicU32>,
}

/// `SELECT * FROM logs ORDER BY timestamp, sequence`.
pub open spec fn select_entries_query() -> Seq<char> {
    "SELECT * FROM logs ORDER BY timestamp, sequence"@
}

/// The column that holds the time of a stored entry.
pub open spec fn timestamp_column() -> Seq<char> {
    seq!['t', 'i', 'm', 'e', 's', 't', 'a', 'm', 'p']
}

/// The column that holds the sequence number of a stored entry.
pub open spec fn sequence_column() -> Seq<char> {
    seq!['s', 'e', 'q', 'u', 'e', 'n', 'c', 'e']
}

/// The query that reads entries back returns them sorted by time, and among entries of equal
/// time by sequence number: it orders by exactly the columns `timestamp` and `sequence`, in that
/// order, whatever the suffix of the table; so in the rows it returns the timestamps never
/// decrease, and rows of equal timestamp come with non-decreasing sequence numbers.
pub proof fn lemma_select_entries_sorts_by_time(
    suffix: Option<u32>,
    rows: Seq<Map<Seq<char>, int>>,
)
    ensures
        orders_by(
            patched_query(select_entries_query(), suffix),
            seq![timestamp_column(), sequence_column()],
        ),
        forall|keys: Seq<Seq<char>>|
            #[trigger] orders_by(patched_query(select_entries_query(), suffix), keys) ==> keys
                == seq![timestamp_column(), sequence_column()],
        sorted_by(rows, seq![timestamp_column(), sequence_column()]) ==> forall|i: int, j: int|
            0 <= i < j < rows.len() ==> {
                &&& (#[trigger] rows[i])[timestamp_column()] <= (#[trigger] rows[j])[timestamp_column()]
                &&& rows[i][timestamp_column()] == rows[j][timestamp_column()] ==> rows[i][sequence_column()]
                    <= rows[j][sequence_column()]
            },
{
    let keys = seq![timestamp_column(), sequence_column()];
    let front = seq!['S', 'E', 'L', 'E', 'C', 'T', ' ', '*', ' ', 'F', 'R', 'O', 'M'];
    let tail = order_by_words() + column_list(keys);
    reveal_strlit("SELECT * FROM logs ORDER BY timestamp, sequence");
    assert(column_list(keys.drop_last()) == timestamp_column());
    assert(column_list(keys) == column_list(keys.drop_last()) + seq![',', ' '] + sequence_column());
    assert(select_entries_query() =~= front + (logs_marker() + tail));
    assert forall|i: int| 0 <= i < keys.len() implies is_identifier(#[trigger] keys[i]) by {
        if i == 0 {
            assert(is_identifier(timestamp_column()));
        } else {
            assert(is_identifier(sequence_column()));
        }
    }
    match suffix {
        None => {
            assert(patched_query(select_entries_query(), suffix) == (front + logs_marker())
                + order_by_words() + column_list(keys));
        },
        Some(n) => {
            let pat = logs_marker();
            let rep = logs_marker().push('_') + decimal(n as nat);
            let whole = front + (pat + tail);
            assert forall|i: int| 0 <= i < front.len() implies !occurs_at(
                front + (pat + tail),
                pat,
                i,
            ) by {
                if occurs_at(whole, pat, i) {
                    assert(whole.subrange(i, i + pat.len())[0] == whole[i]);
                    assert(whole.subrange(i, i + pat.len())[1] == whole[i + 1]);
                }
            }
            lemma_replace_all_passes_text(front, pat + tail, pat, rep);
            let empty = Seq::<char>::empty();
            assert forall|i: int| 0 <= i < tail.len() implies !occurs_at(tail + empty, pat, i) by {
                if occurs_at(tail + empty, pat, i) {
                    assert((tail + empty).subrange(i, i + pat.len())[1] == (tail + empty)[i + 1]);
                    assert((tail + empty)[i + 1] == 'l');
                }
            }
            lemma_replace_all_passes_text(tail, empty, pat, rep);
            assert(tail + empty =~= tail);
            assert(replace_all(empty, pat, rep) == empty);
            assert(pat + tail =~= pat + tail + empty);
            assert(replace_all(pat + tail, pat, rep) == rep + replace_all(tail, pat, rep)) by {
                let s2 = pat + tail;
                assert(s2.subrange(0, pat.len() as int) =~= pat);
                assert(s2.skip(pat.len() as int) =~= tail);
            }
            assert(patched_query(select_entries_query(), suffix) =~= (front + rep) + order_by_words()
                + column_list(keys));
        },
    }
    assert forall|k: Seq<Seq<char>>| #[trigger] orders_by(
        patched_query(select_entries_query(), suffix),
        k,
    ) implies k == keys by {
        lemma_orders_by_unique(patched_query(select_entries_query(), suffix), k, keys);
    }
    if sorted_by(rows, keys) {
        assert forall|i: int, j: int| 0 <= i < j < rows.len() implies {
            &&& (#[trigger] rows[i])[timestamp_column()] <= (#[trigger] rows[j])[timestamp_column()]
            &&& rows[i][timestamp_column()] == rows[j][timestamp_column()] ==> rows[i][sequence_column()]
                <= rows[j][sequence_column()]
        } by {
            reveal_with_fuel(sorted_pair, 3);
            assert(sorted_pair(rows[i], rows[j], keys));
            assert(keys[0] == timestamp_column());
            assert(keys.drop_first() =~= seq![sequence_column()]);
            assert(seq![sequence_column()][0] == sequence_column());
        }
    }
}

/// `Cannot insert <n> log entries at once; max is 4294967295`.
pub open spec fn too_many_entries_text(n: nat) -> Seq<char> {
    "Cannot insert "@ + decimal(n) + " log entries at once; max is "@ + decimal(u32::MAX as nat)
}

impl PostgresDb {
    /// The suffix that renames the `logs` table during tests, if any.
    pub closed spec fn table_suffix(&self) -> Option<u32> {
        self.suffix
    }

    /// The pool of connections of this database.
    pub closed spec fn pool_handle(&self) -> PgPoolHandle {
        self.pool
    }

    /// The host, port, database, username and password that this database connects with.
    pub open spec fn connect_params(&self) -> PgConnectParams {
        self.pool_handle().connect_params()
    }

    /// The counter that numbers the entries written through this database.
    pub closed spec fn sequence_counter(&self) -> Arc<AtomicU32> {
        self.log_sequence
    }

    /// Creates a new connection based on the given options, whose pool runs its background work
    /// on `runtime`; no connection is opened until the pool is first used.
    pub fn connect_lazy(
        runtime: &tokio::runtime::Handle,
        host: &str,
        port: u16,
        database: &str,
        username: &str,
        password: &str,
    ) -> (r: Self)
        ensures
            r.table_suffix() is None,
            r.connect_params() == (host@, port, database@, username@, password@),
    {
        PostgresDb {
            pool: connect_lazy_pool(runtime, host, port, database, username, password),
            suffix: None,
            log_sequence: Arc::new(AtomicU32::new(0)),
        }
    }

    /// The connection pool.
    pub fn pool(&self) -> (r: &PgPoolHandle)
        ensures
            *r == self.pool_handle(),
    {
        &self.pool
    }

    /// The suffix that renames the `logs` table during tests, if any.
    pub fn suffix(&self) -> (r: Option<u32>)
        ensures
            r == self.table_suffix(),
    {
        self.suffix
    }

    /// This database with its `logs` table renamed to `logs_<suffix>`, as tests set it up.
    pub fn with_suffix(self, suffix: u32) -> (r: Self)
        ensures
            r.table_suffix() == Some(suffix),
            r.pool_handle() == self.pool_handle(),
            r.sequence_counter() == self.sequence_counter(),
    {
        PostgresDb { pool: self.pool, suffix: Some(suffix), log_sequence: self.log_sequence }
    }

    /// Given a `query`, replaces table and index identifiers to account for the `suffix` rename
    /// used during tests.
    pub fn patch_query(&self, query: &str) -> (r: String)
        ensures
            r@ == patched_query(query@, self.table_suffix()),
    {
        patch_query_text(query, self.suffix)
    }

    /// The statements that create the table of this database from `schema`.
    pub fn setup_statements(&self, schema: &str) -> (r: Vec<String>)
        ensures
            r@.map_values(|s: String| s@) == schema_statements_of(schema@, self.table_suffix()),
    {
        crate::schema::schema_statements(schema, self.suffix)
    }

    /// The statements that delete the test table and its index.
    pub fn teardown_statements(&self) -> (r: Vec<String>)
        requires
            self.table_suffix() is Some,
        ensures
            r@.map_values(|s: String| s@) == seq![
                drop_index_statement(self.table_suffix()->0),
                drop_table_statement(self.table_suffix()->0),
            ],
    {
        match self.suffix {
            Some(suffix) => teardown_statements(suffix),
            None => Vec::new(),
        }
    }

    /// The query that reads all log entries back, oldest first.
    pub fn select_entries(&self) -> (r: String)
        ensures
            r@ == patched_query(select_entries_query(), self.table_suffix()),
            orders_by(r@, seq![timestamp_column(), sequence_column()]),
    {
        proof {
            lemma_select_entries_sorts_by_time(self.table_suffix(), Seq::empty());
        }
        self.patch_query("SELECT * FROM logs ORDER BY timestamp, sequence")
    }

    /// Prepares the insertion of `entries`: nothing for no entries, a failure for more entries
    /// than sequence numbers, and otherwise the statement and bound values, with sequence numbers
    /// reserved from the connection's counter.
    pub fn prepare_insert(&self, entries: Vec<LogEntry>) -> (r: DbResult<Option<PgInsert>>)
        requires
            entries.len() <= u32::MAX ==> reached_entries_truncatable(entries@),
        ensures
            entries.len() == 0 ==> r == Ok::<Option<PgInsert>, DbError>(None),
            entries.len() > u32::MAX ==> (r matches Err(DbError::BackendError(m)) && m@
                == too_many_entries_text(entries.len() as nat)),
            0 < entries.len() <= u32::MAX && (forall|i: int|
                0 <= i < entries.len() ==> line_fits(#[trigger] entries@[i])) ==> (r matches Ok(
                Some(plan),
            ) && is_numbered_insert_for(plan, entries@, self.table_suffix())),
            0 < entries.len() <= u32::MAX && !(forall|i: int|
                0 <= i < entries.len() ==> line_fits(#[trigger] entries@[i])) ==> (r matches Err(
                DbError::BackendError(m),
            ) && is_line_error_for(m@, entries@)),
    {
        let nentries = entries.len();
        if nentries == 0 {
            return Ok(None);
        }
        if nentries > 4294967295 {
            let mut m = String::from_str("Cannot insert ");
            push_decimal(&mut m, nentries as u128);
            m.append(" log entries at once; max is ");
            push_decimal(&mut m, 4294967295u128);
            return Err(DbError::BackendError(m));
        }
        let start = reserve_u32(&self.log_sequence, nentries as u32);
        match plan_pg_insert(&entries, start, self.suffix) {
            Ok(plan) => {
                assert(is_insert_for(plan, entries@, start, self.table_suffix()));
                assert(is_numbered_insert_for(plan, entries@, self.table_suffix()));
                Ok(Some(plan))
            },
            Err(e) => Err(e),
        }
    }
}

/// The sub-second part of a PostgreSQL timestamp as the backend prints it: the Unix time in
/// nanoseconds, remainder by one second, keeping the sign of the timestamp.
pub open spec fn subsecond_nanos(unix_nanos: int) -> int {
    if unix_nanos >= 0 {
        unix_nanos % 1_000_000_000
    } else {
        -((-unix_nanos) % 1_000_000_000)
    }
}

/// Renders one row read from the `logs` table as text.  `unix_seconds` and `unix_nanos` are the
/// row's timestamp as Unix seconds and nanoseconds.
pub fn pg_log_line(
    unix_seconds: i64,
    unix_nanos: i128,
    hostname: &str,
    level: i16,
    module: Option<&str>,
    filename: Option<&str>,
    line: Option<i16>,
    message: &str,
) -> (r: String)
    ensures
        r@ == crate::db::log_line(
            unix_seconds as int,
            subsecond_nanos(unix_nanos as int),
            hostname@,
            level as int,
            crate::db::opt_str_text(module),
            crate::db::opt_str_text(filename),
            match line {
                Some(l) => Some(l as int),
                None => None,
            },
            message@,
        ),
{
    let subsec = unix_nanos % 1_000_000_000;
    crate::db::format_log_line(
        unix_seconds,
        subsec as i64,
        hostname,
        level,
        module,
        filename,
        line,
        message,
    )
}

/// True when `e` is the error of this library that the PostgreSQL failure `f` stands for: a
/// foreign key violation (`23503`) means a missing entity, a unique violation (`23505`) an
/// existing one, anything else a backend error that carries the database's description.
pub open spec fn is_pg_error_for(f: SqlxFailure, e: DbError) -> bool {
    match f {
        SqlxFailure::RowNotFound => e == DbError::NotFound,
        SqlxFailure::Database { pg_code, message, text } => match pg_code {
            Some(code) => if code@ == "23503"@ {
                e == DbError::NotFound
            } else if code@ == "23505"@ {
                e == DbError::AlreadyExists
            } else {
                e matches DbError::BackendError(m) && m@ == "pgsql error "@ + code@ + ": "@
                    + message@
            },
            None => e matches DbError::BackendError(m) && m@ == text@,
        },
        SqlxFailure::Other { text } => e matches DbError::BackendError(m) && m@ == text@,
    }
}

/// The error of this library that the PostgreSQL failure `f` stands for.
pub fn pg_error_from_failure(f: SqlxFailure) -> (r: DbError)
    ensures
        is_pg_error_for(f, r),
{
    match f {
        SqlxFailure::RowNotFound => DbError::NotFound,
        SqlxFailure::Database { pg_code, message, text } => match pg_code {
            Some(code) => {
                if code == String::from_str("23503") {
                    DbError::NotFound
                } else if code == String::from_str("23505") {
                    DbError::AlreadyExists
                } else {
                    let mut m = String::from_str("pgsql error ");
                    m.append(code.as_str());
                    m.append(": ");
                    m.append(message.as_str());
                    DbError::BackendError(m)
                }
            },
            None => DbError::BackendError(text),
        },
        SqlxFailure::Other { text } => DbError::BackendError(text),
    }
}

/// Takes a raw SQLx error `e` and converts it to our generic error type.
pub fn map_sqlx_error(e: sqlx::Error) -> (r: DbError)
    ensures
        is_pg_error_for(sqlx_failure_of(e), r),
{
    pg_error_from_failure(sqlx_failure(&e))
}

} // verus!
