use db_logger::db::pgsql::{
    insert_query_text, map_sqlx_error, pg_error_from_failure, pg_log_line, plan_pg_insert,
    PgInsert,
};
use db_logger::db::{
    begin_should_retry, check_rows_affected, format_log_line, truncate_option_str, u32_to_i16,
    u64_to_i64, DbError, SqlxFailure,
};
use db_logger::logger::LogEntry;
use db_logger::schema::{patch_query_text, schema_statements, strip_sql_comments, teardown_statements};
use db_logger::text::{contains_exec, replace_all_exec, split_exec};

fn entry(timestamp: i128, line: Option<u32>) -> LogEntry<'static, 'static> {
    LogEntry {
        timestamp,
        hostname: "host".to_owned(),
        level: 4,
        module: Some("mod"),
        filename: Some("file.rs"),
        line,
        message: "message".to_owned(),
    }
}

#[test]
fn test_db_u32_to_i16() {
    assert_eq!(Ok(32767), u32_to_i16("line", 32767));
    assert_eq!(
        Err(DbError::BackendError("line (4294967295) is too large for i16".to_owned())),
        u32_to_i16("line", u32::MAX)
    );
}

#[test]
fn test_db_u64_to_i64() {
    assert_eq!(Ok(i64::MAX), u64_to_i64("sequence", i64::MAX as u64));
    assert_eq!(
        Err(DbError::BackendError("sequence (18446744073709551615) is too large for i64".to_owned())),
        u64_to_i64("sequence", u64::MAX)
    );
}

#[test]
fn test_truncate_option_str() {
    assert_eq!(None, truncate_option_str(None, 3));
    assert_eq!(Some("abc".to_owned()), truncate_option_str(Some("abcdef"), 3));
    assert_eq!(Some("ab".to_owned()), truncate_option_str(Some("ab"), 3));
    assert_eq!(Some("aé".to_owned()), truncate_option_str(Some("aéb"), 3));
    assert_eq!(Some("".to_owned()), db_logger::truncate_option_str(Some("xyz"), 0));
}

#[test]
fn test_db_error_descriptions() {
    assert_eq!("Already exists", DbError::AlreadyExists.describe());
    assert_eq!("Database error: boom", DbError::BackendError("boom".to_owned()).describe());
    assert_eq!("Data integrity error: bad", DbError::DataIntegrityError("bad".to_owned()).describe());
    assert_eq!("Invalid request: no", DbError::InvalidRequest("no".to_owned()).describe());
    assert_eq!("Entity not found", DbError::NotFound.describe());
    assert_eq!("Service unavailable; back off and retry", DbError::Unavailable.describe());
}

#[test]
fn test_begin_retries_only_when_unavailable() {
    assert!(begin_should_retry(&DbError::Unavailable));
    assert!(!begin_should_retry(&DbError::NotFound));
    assert!(!begin_should_retry(&DbError::BackendError("x".to_owned())));
}

#[test]
fn test_check_rows_affected() {
    assert_eq!(Ok(()), check_rows_affected(3, 3));
    assert_eq!(
        Err(DbError::BackendError("Log entries insertion created 2 rows but expected 3".to_owned())),
        check_rows_affected(2, 3)
    );
}

#[test]
fn test_format_log_line() {
    assert_eq!(
        "-5.-7 h -2 NO-MODULE f:0 m",
        format_log_line(-5, -7, "h", -2, None, Some("f"), Some(0), "m")
    );
    assert_eq!(
        "12345.6000 fake-host2 3 the-module the-file:42 Entry with optional fields",
        pg_log_line(
            12345,
            12_345_000_006_000,
            "fake-host2",
            3,
            Some("the-module"),
            Some("the-file"),
            Some(42),
            "Entry with optional fields"
        )
    );
    assert_eq!("-2.-500000000 h 1 m f:-1 x", pg_log_line(-2, -1_500_000_000, "h", 1, Some("m"), Some("f"), None, "x"));
}

#[test]
fn test_insert_query_text() {
    let head = "INSERT INTO logs\n                (timestamp, sequence, hostname, level, module, filename, line, message)\n            VALUES ";
    assert_eq!(format!("{}($1, $2, $3, $4, $5, $6, $7, $8)", head), insert_query_text(1, None));
    assert_eq!(
        format!(
            "{}($1, $2, $3, $4, $5, $6, $7, $8),($9, $10, $11, $12, $13, $14, $15, $16)",
            head.replace(" logs", " logs_7")
        ),
        insert_query_text(2, Some(7))
    );
    assert_eq!(head, insert_query_text(0, None));
}

#[test]
fn test_plan_pg_insert() {
    let entries = vec![entry(10, Some(1)), entry(20, None), entry(30, Some(32767))];
    let plan: PgInsert = plan_pg_insert(&entries, u32::MAX - 1, None).unwrap();
    assert_eq!(insert_query_text(3, None), plan.query);
    assert_eq!(3, plan.rows.len());
    let sequences: Vec<u32> = plan.rows.iter().map(|r| r.sequence).collect();
    assert_eq!(vec![u32::MAX - 1, u32::MAX, 0], sequences);
    assert_eq!(Some(1), plan.rows[0].line);
    assert_eq!(None, plan.rows[1].line);
    assert_eq!(Some(32767), plan.rows[2].line);
    assert_eq!(4, plan.rows[0].level);
    assert_eq!(20, plan.rows[1].timestamp);
    assert_eq!(Some("mod".to_owned()), plan.rows[2].module);
}

/// Renders the rows of `plan` as the PostgreSQL backend reads them back when the database keeps
/// each time rounded up to the microsecond.
fn pg_rows_rendered(plan: &PgInsert) -> Vec<String> {
    plan.rows
        .iter()
        .map(|r| {
            let stored = (r.timestamp + 999) / 1000 * 1000;
            pg_log_line(
                (stored / 1_000_000_000) as i64,
                stored,
                &r.hostname,
                r.level,
                r.module.as_deref(),
                r.filename.as_deref(),
                r.line,
                &r.message,
            )
        })
        .collect()
}

#[test]
fn test_pg_rows_render_as_sqlite_rows() {
    let entries = vec![
        LogEntry {
            timestamp: 1_000_001_500,
            hostname: "fake-host1".to_owned(),
            level: 1,
            module: None,
            filename: None,
            line: None,
            message: "Entry without optional fields".to_owned(),
        },
        LogEntry {
            timestamp: 12_345_000_006_999,
            hostname: "fake-host2".to_owned(),
            level: 3,
            module: Some("the-module"),
            filename: Some("the-file"),
            line: Some(42),
            message: "Entry with optional fields".to_owned(),
        },
    ];
    let plan = plan_pg_insert(&entries, 0, None).unwrap();
    let exp_entries = vec![
        "1.2000 fake-host1 1 NO-MODULE NO-FILENAME:-1 Entry without optional fields".to_owned(),
        "12345.7000 fake-host2 3 the-module the-file:42 Entry with optional fields".to_owned(),
    ];
    assert_eq!(exp_entries, pg_rows_rendered(&plan));
}

#[test]
fn test_insert_placeholders_match_values() {
    for n in [1usize, 2, 5] {
        let entries: Vec<LogEntry> = (0..n).map(|i| entry(i as i128, None)).collect();
        for suffix in [None, Some(3u32)] {
            let plan = plan_pg_insert(&entries, 9, suffix).unwrap();
            assert_eq!(8 * plan.rows.len(), plan.query.matches('$').count());
        }
    }
}

#[test]
fn test_plan_pg_insert_stops_before_untruncatable_entry() {
    // 63 ASCII bytes and then a two-byte character: cutting at 64 bytes would split it.
    let hostname = format!("{}é", "h".repeat(63));
    let mut late = entry(30, None);
    late.hostname = hostname;
    let entries = vec![entry(10, Some(1)), entry(20, Some(40000)), late];
    match plan_pg_insert(&entries, 0, None) {
        Ok(_) => panic!("Should have failed"),
        Err(e) => assert_eq!(DbError::BackendError("line (40000) is too large for i16".to_owned()), e),
    }
}

#[test]
fn test_batch_sequences_increase() {
    let entries: Vec<LogEntry> = (0..4).map(|_| entry(5, None)).collect();
    let plan = plan_pg_insert(&entries, 100, None).unwrap();
    for w in plan.rows.windows(2) {
        assert!(w[0].sequence < w[1].sequence);
    }
}

#[test]
fn test_plan_pg_insert_line_too_large() {
    let entries = vec![entry(10, Some(1)), entry(20, Some(40000)), entry(30, Some(50000))];
    match plan_pg_insert(&entries, 0, None) {
        Ok(_) => panic!("Should have failed"),
        Err(e) => assert_eq!(DbError::BackendError("line (40000) is too large for i16".to_owned()), e),
    }
}

#[test]
fn test_pg_error_classification() {
    let database = |code: &str| SqlxFailure::Database {
        pg_code: Some(code.to_owned()),
        message: "it broke".to_owned(),
        text: "error returned from database: it broke".to_owned(),
    };
    assert_eq!(DbError::NotFound, pg_error_from_failure(SqlxFailure::RowNotFound));
    assert_eq!(DbError::NotFound, pg_error_from_failure(database("23503")));
    assert_eq!(DbError::AlreadyExists, pg_error_from_failure(database("23505")));
    assert_eq!(
        DbError::BackendError("pgsql error 42P01: it broke".to_owned()),
        pg_error_from_failure(database("42P01"))
    );
    assert_eq!(
        DbError::BackendError("pool timed out while waiting for an open connection".to_owned()),
        map_sqlx_error(sqlx::Error::PoolTimedOut)
    );
}

#[test]
fn test_patch_query() {
    assert_eq!("SELECT * FROM logs", patch_query_text("SELECT * FROM logs", None));
    assert_eq!(
        "SELECT * FROM logs_42 ORDER BY timestamp",
        patch_query_text("SELECT * FROM logs ORDER BY timestamp", Some(42))
    );
    assert_eq!(
        "CREATE INDEX logs_9_by_timestamp ON logs_9 (timestamp)",
        patch_query_text("CREATE INDEX logs_by_timestamp ON logs (timestamp)", Some(9))
    );
    assert_eq!("blogs logs_1logs", patch_query_text("blogs logslogs", Some(1)));
}

#[test]
fn test_schema_statements() {
    let schema = "-- The logs.\nCREATE TABLE logs (\n    id INTEGER -- key\n);\n\nCREATE INDEX logs_by_timestamp ON logs (timestamp);\n";
    let statements = schema_statements(schema, Some(5));
    assert_eq!(
        vec![
            "\nCREATE TABLE logs_5 (\n    id INTEGER \n)".to_owned(),
            "\n\nCREATE INDEX logs_5_by_timestamp ON logs_5 (timestamp)".to_owned(),
            "\n".to_owned(),
        ],
        statements
    );
    assert_eq!(
        patch_query_text(&strip_sql_comments(schema), Some(5)),
        statements.join(";")
    );
    assert!(statements.iter().all(|s| !s.contains(';')));
}

#[test]
fn test_strip_sql_comments() {
    assert_eq!("a\nc", strip_sql_comments("a--b\nc--d"));
    assert_eq!("x - y\n", strip_sql_comments("x - y\n---z"));
    assert_eq!("", strip_sql_comments("-- only"));
}

#[test]
fn test_teardown_statements() {
    assert_eq!(
        vec!["DROP INDEX logs_17_by_timestamp".to_owned(), "DROP TABLE logs_17".to_owned()],
        teardown_statements(17)
    );
}

#[test]
fn test_teardown_drops_patched_production_names() {
    for suffix in [0u32, 7, 4294967295] {
        let teardown = teardown_statements(suffix);
        assert_eq!(patch_query_text("DROP INDEX logs_by_timestamp", Some(suffix)), teardown[0]);
        assert_eq!(patch_query_text("DROP TABLE logs", Some(suffix)), teardown[1]);
        assert_ne!("DROP INDEX logs_by_timestamp", teardown[0]);
        assert_ne!("DROP TABLE logs", teardown[1]);
    }
}

#[test]
fn test_text_helpers_match_std() {
    for (s, pat, rep) in [("aaaa", "aa", "b"), ("abcabc", "bc", "XY"), ("", "x", "y"), ("xyz", "q", "r")] {
        assert_eq!(s.replace(pat, rep), replace_all_exec(s, pat, rep));
        assert_eq!(s.contains(pat), contains_exec(s, pat));
    }
    for s in ["a;b;;c;", "", ";", "abc"] {
        let ours = split_exec(s, ';');
        let std: Vec<String> = s.split(';').map(|p| p.to_owned()).collect();
        assert_eq!(std, ours);
    }
}

#[test]
fn test_truncate_twice_cuts_at_smaller_limit() {
    let text = "héllo wörld ünïcode";
    for n in 0..=text.len() {
        if !text.is_char_boundary(n) {
            continue;
        }
        let once = truncate_option_str(Some(text), n);
        assert_eq!(once, truncate_option_str(once.as_deref(), n));
        for m in 0..=text.len() {
            if !text.is_char_boundary(m) {
                continue;
            }
            assert_eq!(
                truncate_option_str(Some(text), m.min(n)),
                truncate_option_str(once.as_deref(), m)
            );
        }
    }
}
