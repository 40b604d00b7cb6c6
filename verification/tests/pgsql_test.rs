use db_logger::pgsql::{
    connect_lazy, parse_u16, required_var_name, u32_to_i16, ConnectionOptions, EnvVar,
    IntErrorKind,
};
use db_logger::db::pgsql::PostgresDb;
use db_logger::ConnectionBackend;

fn present(s: &str) -> EnvVar {
    EnvVar::Present(s.to_owned())
}

#[test]
fn test_connectionoptions_from_env_ok() {
    let prefix = format!("TEST_{}", rand::random::<u32>());
    let opts = ConnectionOptions::from_vars(
        &prefix,
        present("the-host"),
        present("1234"),
        present("the-database"),
        present("the-username"),
        present("the-password"),
    )
    .unwrap();
    assert!(
        ConnectionOptions {
            host: "the-host".to_owned(),
            port: 1234,
            database: "the-database".to_owned(),
            username: "the-username".to_owned(),
            password: "the-password".to_owned(),
        } == opts
    );
}

/// Runs a test to validate that `ConnectionOptions::from_vars` fails when the `missing`
/// variable is not set.
fn do_connectionoptions_from_env_missing_test(missing: &str) {
    let prefix = format!("TEST_{}", rand::random::<u32>());
    let value = |name: &str, text: &str| {
        if missing == name {
            EnvVar::NotPresent
        } else {
            present(text)
        }
    };
    match ConnectionOptions::from_vars(
        &prefix,
        value("HOST", "host"),
        value("PORT", "5432"),
        value("DATABASE", "database"),
        value("USERNAME", "username"),
        value("PASSWORD", "password"),
    ) {
        Ok(_) => panic!("Should have failed"),
        Err(e) => assert!(e.contains(&format!("{}_{} not present", prefix, missing))),
    }
}

#[test]
fn test_connectionoptions_from_env_missing_host() {
    do_connectionoptions_from_env_missing_test("HOST");
}

#[test]
fn test_connectionoptions_from_env_missing_port() {
    do_connectionoptions_from_env_missing_test("PORT");
}

#[test]
fn test_connectionoptions_from_env_missing_database() {
    do_connectionoptions_from_env_missing_test("DATABASE");
}

#[test]
fn test_connectionoptions_from_env_missing_username() {
    do_connectionoptions_from_env_missing_test("USERNAME");
}

#[test]
fn test_connectionoptions_from_env_missing_password() {
    do_connectionoptions_from_env_missing_test("PASSWORD");
}

#[test]
fn test_connectionoptions_from_env_invalid_port() {
    let prefix = format!("TEST_{}", rand::random::<u32>());
    match ConnectionOptions::from_vars(
        &prefix,
        present("host"),
        present("abc"),
        present("database"),
        present("username"),
        present("password"),
    ) {
        Ok(_) => panic!("Should have failed"),
        Err(e) => assert!(e.contains("Invalid port number")),
    }
}

#[test]
fn test_connectionoptions_invalid_unicode_value() {
    match ConnectionOptions::from_vars(
        "P",
        present("host"),
        present("5432"),
        EnvVar::NotUnicode,
        present("username"),
        present("password"),
    ) {
        Ok(_) => panic!("Should have failed"),
        Err(e) => assert_eq!("Invalid value in environment variable P_DATABASE", e),
    }
}

#[test]
fn test_connectionoptions_first_failure_wins() {
    match ConnectionOptions::from_vars(
        "P",
        EnvVar::NotPresent,
        present("abc"),
        EnvVar::NotPresent,
        present("username"),
        present("password"),
    ) {
        Ok(_) => panic!("Should have failed"),
        Err(e) => assert_eq!("Required environment variable P_HOST not present", e),
    }
}

#[test]
fn test_invalid_port_messages_match_std() {
    for text in ["", "abc", "+", "-", "-1", "65536", "1 2", "99999a"] {
        let std_error = text.parse::<u16>().unwrap_err().to_string();
        match ConnectionOptions::from_vars(
            "P",
            present("h"),
            present(text),
            present("d"),
            present("u"),
            present("p"),
        ) {
            Ok(_) => panic!("Should have failed for {:?}", text),
            Err(e) => assert_eq!(format!("Invalid port number: {}", std_error), e),
        }
    }
}

#[test]
fn test_parse_u16_agrees_with_std() {
    for text in ["0", "+7", "65535", "00042", "5432", "", "+", "-", "-0", "65536", "a1", "1a", "١"] {
        let ours = parse_u16(text);
        match text.parse::<u16>() {
            Ok(v) => assert!(matches!(ours, Ok(o) if o == v), "{:?}", text),
            Err(e) => {
                let kind = match ours {
                    Ok(_) => panic!("{:?} should not parse", text),
                    Err(IntErrorKind::Empty) => std::num::IntErrorKind::Empty,
                    Err(IntErrorKind::InvalidDigit) => std::num::IntErrorKind::InvalidDigit,
                    Err(IntErrorKind::PosOverflow) => std::num::IntErrorKind::PosOverflow,
                };
                assert_eq!(e.kind(), &kind, "{:?}", text);
            }
        }
    }
}

#[test]
fn test_required_var_name() {
    assert_eq!("LOGGER_HOST", required_var_name("LOGGER", "HOST"));
}

#[test]
fn test_pgsql_u32_to_i16() {
    assert_eq!(Ok(0), u32_to_i16("line", 0));
    assert_eq!(Ok(32767), u32_to_i16("line", 32767));
    assert_eq!(Err("line (32768) is too large for i16".to_owned()), u32_to_i16("line", 32768));
}

#[test]
fn test_connect_lazy_opens_nothing() {
    let runtime = tokio::runtime::Runtime::new().unwrap();
    let conn = connect_lazy(
        runtime.handle(),
        ConnectionOptions {
            host: "localhost".to_owned(),
            port: 1,
            database: "db".to_owned(),
            username: "user".to_owned(),
            password: "pass".to_owned(),
        },
    );
    match conn.clone().backend() {
        ConnectionBackend::Postgres(db) => {
            assert_eq!(None, db.suffix());
            let options = db.pool().sqlx_pool().pool.connect_options();
            assert_eq!("localhost", options.get_host());
            assert_eq!(1, options.get_port());
            assert_eq!(Some("db"), options.get_database());
            assert_eq!("user", options.get_username());
        }
        ConnectionBackend::InMemory(_) => panic!("Expected a PostgreSQL connection"),
    }
}

#[test]
fn test_with_suffix_keeps_pool() {
    let runtime = tokio::runtime::Runtime::new().unwrap();
    let db = PostgresDb::connect_lazy(runtime.handle(), "the-host", 5432, "the-db", "me", "pw");
    let db = db.with_suffix(77);
    assert_eq!(Some(77), db.suffix());
    let options = db.pool().sqlx_pool().pool.connect_options();
    assert_eq!("the-host", options.get_host());
    assert_eq!(5432, options.get_port());
    assert_eq!(Some("the-db"), options.get_database());
    assert_eq!("me", options.get_username());
}

#[test]
fn test_connectionoptions_debug_text_scrubs_password() {
    let opts = ConnectionOptions {
        host: "the-host".to_owned(),
        port: 1234,
        database: "the-database".to_owned(),
        username: "the-username".to_owned(),
        password: "the-password".to_owned(),
    };
    let text = opts.debug_text();
    assert_eq!(
        "ConnectionOptions { host: \"the-host\", port: 1234, database: \"the-database\", \
         username: \"the-username\", password: \"scrubbed\" }",
        text
    );
    assert!(!text.contains("the-password"));

    let quoted = ConnectionOptions { host: "a\"b\n".to_owned(), ..Default::default() };
    assert_eq!(
        format!(
            "ConnectionOptions {{ host: {:?}, port: 0, database: \"\", username: \"\", password: \"scrubbed\" }}",
            "a\"b\n"
        ),
        quoted.debug_text()
    );
}
