use db_logger::db::DbError;
use db_logger::logger::{
    LogEntry, LOG_ENTRY_MAX_FILENAME_LENGTH, LOG_ENTRY_MAX_HOSTNAME_LENGTH,
    LOG_ENTRY_MAX_MESSAGE_LENGTH, LOG_ENTRY_MAX_MODULE_LENGTH,
};
use db_logger::sqlite::{
    check_single_row, next_sequence, sqlite_batch_row, sqlite_error_from_failure, sqlite_log_line,
    sqlite_row,
    u64_to_i64, unpack_timestamp, SqliteLogRow,
};
use db_logger::db::SqlxFailure;

/// Stores `entries` as the SQLite backend binds them, numbered from `first_sequence`, and reads
/// them back in the order of the backend's query.
fn store_and_read(entries: Vec<LogEntry>, first_sequence: u64) -> Vec<String> {
    let mut sequence = first_sequence;
    let mut rows: Vec<SqliteLogRow> = vec![];
    for entry in entries.iter() {
        rows.push(sqlite_row(entry, sequence).unwrap());
        sequence = next_sequence(sequence);
    }
    rows.sort_by_key(|r| (r.timestamp_secs, r.timestamp_nsecs, r.sequence));
    rows.iter()
        .map(|r| {
            sqlite_log_line(
                r.timestamp_secs,
                r.timestamp_nsecs,
                &r.hostname,
                r.level as i8,
                r.module.as_deref(),
                r.filename.as_deref(),
                r.line.map(|l| l as i16),
                &r.message,
            )
        })
        .collect()
}

#[test]
fn test_sqlite_rows_render_none() {
    assert!(store_and_read(vec![], 0).is_empty());
}

#[test]
fn test_sqlite_rows_render_individual() {
    let entry1 = LogEntry {
        timestamp: 1_000_001_001,
        hostname: "fake-host1".to_owned(),
        level: 1,
        module: None,
        filename: None,
        line: None,
        message: "Entry without optional fields".to_owned(),
    };
    let mut lines = store_and_read(vec![entry1], 0);

    let entry2 = LogEntry {
        timestamp: 12_345_000_006_000,
        hostname: "fake-host2".to_owned(),
        level: 3,
        module: Some("the-module"),
        filename: Some("the-file"),
        line: Some(42),
        message: "Entry with optional fields".to_owned(),
    };
    lines.extend(store_and_read(vec![entry2], 1));

    let exp_entries = vec![
        "1.2000 fake-host1 1 NO-MODULE NO-FILENAME:-1 Entry without optional fields".to_owned(),
        "12345.6000 fake-host2 3 the-module the-file:42 Entry with optional fields".to_owned(),
    ];
    assert_eq!(exp_entries, lines);
}

#[test]
fn test_sqlite_rows_render_combined() {
    let entry1 = LogEntry {
        timestamp: 1_000_001_500,
        hostname: "fake-host1".to_owned(),
        level: 1,
        module: None,
        filename: None,
        line: None,
        message: "Entry without optional fields".to_owned(),
    };

    let entry2 = LogEntry {
        timestamp: 12_345_000_006_999,
        hostname: "fake-host2".to_owned(),
        level: 3,
        module: Some("the-module"),
        filename: Some("the-file"),
        line: Some(42),
        message: "Entry with optional fields".to_owned(),
    };

    let exp_entries = vec![
        "1.2000 fake-host1 1 NO-MODULE NO-FILENAME:-1 Entry without optional fields".to_owned(),
        "12345.7000 fake-host2 3 the-module the-file:42 Entry with optional fields".to_owned(),
    ];
    assert_eq!(exp_entries, store_and_read(vec![entry1, entry2], 0));
}

#[test]
fn test_sqlite_rows_render_long_strings() {
    let mut long_string = String::with_capacity(5000);
    for i in 0..long_string.capacity() {
        long_string.push((b'0' + ((i % 10) as u8)) as char);
    }

    let entry = LogEntry {
        timestamp: 0,
        hostname: long_string.to_owned(),
        level: 5,
        module: Some(&long_string),
        filename: Some(&long_string),
        line: None,
        message: long_string.to_owned(),
    };

    let truncated_hostname = &long_string[0..LOG_ENTRY_MAX_HOSTNAME_LENGTH];
    let truncated_module = &long_string[0..LOG_ENTRY_MAX_MODULE_LENGTH];
    let truncated_filename = &long_string[0..LOG_ENTRY_MAX_FILENAME_LENGTH];
    let truncated_message = &long_string[0..LOG_ENTRY_MAX_MESSAGE_LENGTH];

    let exp_entries = vec![format!(
        "0.0 {} 5 {} {}:-1 {}",
        truncated_hostname, truncated_module, truncated_filename, truncated_message
    )];
    assert_eq!(exp_entries, store_and_read(vec![entry], 0));
}

#[test]
fn test_unpack_timestamp_rounds_up_to_microseconds() {
    assert_eq!((1, 2000), unpack_timestamp(1_000_001_001));
    assert_eq!((1, 1000), unpack_timestamp(1_000_001_000));
    assert_eq!((12345, 7000), unpack_timestamp(12_345_000_006_999));
    assert_eq!((0, 0), unpack_timestamp(0));
    assert_eq!((0, -1000), unpack_timestamp(-1_500));
    assert_eq!((-1, -999_999_000), unpack_timestamp(-1_999_999_001));
    assert_eq!((1, 0), unpack_timestamp(999_999_001));
}

#[test]
fn test_sqlite_row_sequence_too_large() {
    let entry = LogEntry {
        timestamp: 0,
        hostname: "h".to_owned(),
        level: 2,
        module: None,
        filename: None,
        line: Some(7),
        message: "m".to_owned(),
    };
    match sqlite_row(&entry, u64::MAX) {
        Ok(_) => panic!("Should have failed"),
        Err(e) => assert_eq!(
            DbError::BackendError("sequence (18446744073709551615) is too large for i64".to_owned()),
            e
        ),
    }
    let row = sqlite_row(&entry, i64::MAX as u64).unwrap();
    assert_eq!(i64::MAX, row.sequence);
    assert_eq!(Some(7), row.line);
    assert_eq!(2, row.level);
}

#[test]
fn test_sqlite_row_truncates_at_character_boundaries() {
    let host = "é".repeat(40);
    let entry = LogEntry {
        timestamp: 0,
        hostname: host.clone(),
        level: 3,
        module: Some("ü"),
        filename: None,
        line: None,
        message: "x".to_owned(),
    };
    let row = sqlite_row(&entry, 0).unwrap();
    assert_eq!("é".repeat(32), row.hostname);
    assert_eq!(Some("ü".to_owned()), row.module);
    assert_eq!(None, row.filename);
}

#[test]
fn test_next_sequence_wraps() {
    assert_eq!(1, next_sequence(0));
    assert_eq!(0, next_sequence(u64::MAX));
}

#[test]
fn test_check_single_row() {
    assert_eq!(Ok(()), check_single_row(1));
    assert_eq!(
        Err(DbError::BackendError("Insertion didn't create one row".to_owned())),
        check_single_row(0)
    );
    assert_eq!(
        Err(DbError::BackendError("Insertion didn't create one row".to_owned())),
        check_single_row(2)
    );
}

#[test]
fn test_sqlite_u64_to_i64() {
    assert_eq!(Ok(5), u64_to_i64("sequence", 5));
    assert_eq!(
        Err(DbError::BackendError("sequence (9223372036854775808) is too large for i64".to_owned())),
        u64_to_i64("sequence", 1 << 63)
    );
}

#[test]
fn test_sqlite_error_classification() {
    assert_eq!(DbError::NotFound, sqlite_error_from_failure(SqlxFailure::RowNotFound));
    assert_eq!(
        DbError::NotFound,
        sqlite_error_from_failure(SqlxFailure::Other {
            text: "error returned from database: FOREIGN KEY constraint failed".to_owned()
        })
    );
    assert_eq!(
        DbError::AlreadyExists,
        sqlite_error_from_failure(SqlxFailure::Database {
            pg_code: None,
            message: "UNIQUE constraint failed: logs.sequence".to_owned(),
            text: "error returned from database: UNIQUE constraint failed: logs.sequence".to_owned(),
        })
    );
    assert_eq!(
        DbError::BackendError("disk I/O error".to_owned()),
        sqlite_error_from_failure(SqlxFailure::Other { text: "disk I/O error".to_owned() })
    );
}

#[test]
fn test_sqlite_map_real_error() {
    assert_eq!(DbError::NotFound, db_logger::sqlite::map_sqlx_error(sqlx::Error::RowNotFound));
    assert_eq!(
        DbError::BackendError("encountered unexpected or invalid data: Protocol went wrong".to_owned()),
        db_logger::sqlite::map_sqlx_error(sqlx::Error::Protocol("Protocol went wrong".to_owned()))
    );
}

#[test]
fn test_sqlite_batch_row_numbers_from_start() {
    let entries: Vec<LogEntry> = (0..3)
        .map(|i| LogEntry {
            timestamp: 1_000 * i,
            hostname: "h".to_owned(),
            level: 2,
            module: None,
            filename: None,
            line: Some(i as u32),
            message: format!("m{}", i),
        })
        .collect();
    for i in 0..3 {
        let row = sqlite_batch_row(&entries, 40, i).unwrap();
        assert_eq!(40 + i as i64, row.sequence);
        assert_eq!(Some(i as u32), row.line);
    }
    let start = i64::MAX as u64 - 1;
    assert_eq!(i64::MAX - 1, sqlite_batch_row(&entries, start, 0).unwrap().sequence);
    assert_eq!(i64::MAX, sqlite_batch_row(&entries, start, 1).unwrap().sequence);
    match sqlite_batch_row(&entries, start, 2) {
        Ok(_) => panic!("Should have failed"),
        Err(e) => assert_eq!(
            DbError::BackendError(format!("sequence ({}) is too large for i64", i64::MAX as u64 + 1)),
            e
        ),
    }
}
