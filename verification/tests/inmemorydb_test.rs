//! Runs the SQLite backend of the library (its schema, statements, sequence counter, bound
//! values and row rendering) against a real in-memory SQLite database.

use db_logger::db::SqlitePoolHandle;
use db_logger::logger::{
    LogEntry, LOG_ENTRY_MAX_FILENAME_LENGTH, LOG_ENTRY_MAX_HOSTNAME_LENGTH,
    LOG_ENTRY_MAX_MESSAGE_LENGTH, LOG_ENTRY_MAX_MODULE_LENGTH,
};
use db_logger::schema::SQLITE_SCHEMA;
use db_logger::sqlite::{
    check_single_row, sqlite_batch_row, sqlite_insert_query, sqlite_log_line,
    sqlite_select_query, InMemoryDb,
};
use futures::TryStreamExt;
use sqlx::sqlite::SqlitePoolOptions;
use sqlx::Row;

/// An in-memory database, set up as the backend sets it up.
struct TestDb {
    db: InMemoryDb,
}

async fn setup() -> TestDb {
    let pool = SqlitePoolOptions::new().max_connections(1).connect(":memory:").await.unwrap();
    sqlx::raw_sql(SQLITE_SCHEMA).execute(&pool).await.unwrap();
    TestDb { db: InMemoryDb::new(SqlitePoolHandle { pool }) }
}

async fn put_log_entries(db: &mut TestDb, entries: Vec<LogEntry<'_, '_>>) {
    let _permit = db.db.semaphore().clone().acquire_owned().await.unwrap();
    let mut tx = db.db.pool().pool.begin().await.unwrap();
    let start = db.db.reserve_sequences(entries.len());
    for i in 0..entries.len() {
        let row = sqlite_batch_row(&entries, start, i).unwrap();
        let done = sqlx::query(sqlite_insert_query())
            .bind(row.timestamp_secs)
            .bind(row.timestamp_nsecs)
            .bind(row.sequence)
            .bind(row.hostname)
            .bind(row.level)
            .bind(row.module)
            .bind(row.filename)
            .bind(row.line)
            .bind(row.message)
            .execute(&mut *tx)
            .await
            .unwrap();
        check_single_row(done.rows_affected()).unwrap();
    }
    tx.commit().await.unwrap();
}

async fn get_log_entries(db: &mut TestDb) -> Vec<String> {
    let _permit = db.db.semaphore().clone().acquire_owned().await.unwrap();
    let mut rows = sqlx::query(sqlite_select_query()).fetch(&db.db.pool().pool);
    let mut entries = vec![];
    while let Some(row) = rows.try_next().await.unwrap() {
        let timestamp_secs: i64 = row.try_get("timestamp_secs").unwrap();
        let timestamp_nsecs: i64 = row.try_get("timestamp_nsecs").unwrap();
        let hostname: String = row.try_get("hostname").unwrap();
        let level: i8 = row.try_get("level").unwrap();
        let module: Option<String> = row.try_get("module").unwrap();
        let filename: Option<String> = row.try_get("filename").unwrap();
        let line: Option<i16> = row.try_get("line").unwrap();
        let message: String = row.try_get("message").unwrap();
        entries.push(sqlite_log_line(
            timestamp_secs,
            timestamp_nsecs,
            &hostname,
            level,
            module.as_deref(),
            filename.as_deref(),
            line,
            &message,
        ));
    }
    entries
}

fn run<F: std::future::Future<Output = ()>>(f: F) {
    tokio::runtime::Builder::new_current_thread().enable_all().build().unwrap().block_on(f)
}

#[test]
fn test_inmemorydb_log_entries_none() {
    run(async {
        let mut db = setup().await;
        put_log_entries(&mut db, vec![]).await;
        assert!(get_log_entries(&mut db).await.is_empty());
    });
}

#[test]
fn test_inmemorydb_log_entries_individual() {
    run(async {
        let mut db = setup().await;

        let entry1 = LogEntry {
            timestamp: 1_000_001_001,
            hostname: "fake-host1".to_owned(),
            level: 1,
            module: None,
            filename: None,
            line: None,
            message: "Entry without optional fields".to_owned(),
        };
        put_log_entries(&mut db, vec![entry1]).await;

        let entry2 = LogEntry {
            timestamp: 12_345_000_006_000,
            hostname: "fake-host2".to_owned(),
            level: 3,
            module: Some("the-module"),
            filename: Some("the-file"),
            line: Some(42),
            message: "Entry with optional fields".to_owned(),
        };
        put_log_entries(&mut db, vec![entry2]).await;

        let exp_entries = vec![
            "1.2000 fake-host1 1 NO-MODULE NO-FILENAME:-1 Entry without optional fields".to_owned(),
            "12345.6000 fake-host2 3 the-module the-file:42 Entry with optional fields".to_owned(),
        ];
        assert_eq!(exp_entries, get_log_entries(&mut db).await);
    });
}

#[test]
fn test_inmemorydb_log_entries_combined() {
    run(async {
        let mut db = setup().await;

        let entry1 = LogEntry {
            timestamp: 1_000_001_500,
            hostname: "fake-host1".to_owned(),
            level: 1,
            module: None,
            filename: None,
            line: None,
            message: "Entry without optional fields".to_owned(),
        };

        let entry2 = LogEntry {
            timestamp: 12_345_000_006_999,
            hostname: "fake-host2".to_owned(),
            level: 3,
            module: Some("the-module"),
            filename: Some("the-file"),
            line: Some(42),
            message: "Entry with optional fields".to_owned(),
        };

        put_log_entries(&mut db, vec![entry1, entry2]).await;

        let exp_entries = vec![
            "1.2000 fake-host1 1 NO-MODULE NO-FILENAME:-1 Entry without optional fields".to_owned(),
            "12345.7000 fake-host2 3 the-module the-file:42 Entry with optional fields".to_owned(),
        ];
        assert_eq!(exp_entries, get_log_entries(&mut db).await);
    });
}

#[test]
fn test_inmemorydb_log_entries_long_strings() {
    run(async {
        let mut db = setup().await;

        let mut long_string = String::with_capacity(5000);
        for i in 0..long_string.capacity() {
            long_string.push((b'0' + ((i % 10) as u8)) as char);
        }

        let entry = LogEntry {
            timestamp: 0,
            hostname: long_string.to_owned(),
            level: 5,
            module: Some(&long_string),
            filename: Some(&long_string),
            line: None,
            message: long_string.to_owned(),
        };
        put_log_entries(&mut db, vec![entry]).await;

        let truncated_hostname = &long_string[0..LOG_ENTRY_MAX_HOSTNAME_LENGTH];
        let truncated_module = &long_string[0..LOG_ENTRY_MAX_MODULE_LENGTH];
        let truncated_filename = &long_string[0..LOG_ENTRY_MAX_FILENAME_LENGTH];
        let truncated_message = &long_string[0..LOG_ENTRY_MAX_MESSAGE_LENGTH];

        let exp_entries = vec![format!(
            "0.0 {} 5 {} {}:-1 {}",
            truncated_hostname, truncated_module, truncated_filename, truncated_message
        )];
        assert_eq!(exp_entries, get_log_entries(&mut db).await);
    });
}
