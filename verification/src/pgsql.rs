//! Connection to a PostgreSQL database: its options, read from the environment, and the lazy
//! connection itself.

use crate::db::pgsql::PostgresDb;
use crate::db::too_large_text;
use crate::text::{chars_of, decimal, push_decimal, push_str_debug, str_debug};
use crate::{Connection, ConnectionBackend};
use vstd::prelude::*;
use vstd::string::*;

verus! {

/// Options to establish a connection to a PostgreSQL database.
#[derive(Default, PartialEq, Eq)]
pub struct ConnectionOptions {
    /// Host to connect to.
    pub host: String,
    /// Port to connect to (typically 5432).
    pub port: u16,
    /// Database name to connect to.
    pub database: String,
    /// Username to establish the connection with.
    pub username: String,
    /// Password to establish the connection with.
    pub password: String,
}

/// How the options show in test output: like `Debug` of the struct, but with the password
/// replaced by `"scrubbed"` so that it never reaches logs.
pub open spec fn options_debug_text(
    host: Seq<char>,
    port: u16,
    database: Seq<char>,
    username: Seq<char>,
) -> Seq<char> {
    "ConnectionOptions { host: "@ + str_debug(host) + ", port: "@ + decimal(port as nat)
        + ", database: "@ + str_debug(database) + ", username: "@ + str_debug(username)
        + ", password: "@ + str_debug("scrubbed"@) + " }"@
}

impl ConnectionOptions {
    /// Renders the options as `Debug` would, with the password scrubbed.
    pub fn debug_text(&self) -> (r: String)
        ensures
            r@ == options_debug_text(self.host@, self.port, self.database@, self.username@),
    {
        let mut out = String::from_str("ConnectionOptions { host: ");
        push_str_debug(&mut out, self.host.as_str());
        out.append(", port: ");
        push_decimal(&mut out, self.port as u128);
        out.append(", database: ");
        push_str_debug(&mut out, self.database.as_str());
        out.append(", username: ");
        push_str_debug(&mut out, self.username.as_str());
        out.append(", password: ");
        push_str_debug(&mut out, "scrubbed");
        out.append(" }");
        out
    }
}

/// What reading one environment variable gave.
pub enum EnvVar {
    /// The variable is set to this text.
    Present(String),
    /// The variable is not set.
    NotPresent,
    /// The variable is set to something that is not Unicode.
    NotUnicode,
}

/// `<prefix>_<suffix>`, the name of one of the variables that configure a connection.
pub open spec fn var_name(prefix: Seq<char>, suffix: Seq<char>) -> Seq<char> {
    prefix + "_"@ + suffix
}

/// Builds `<prefix>_<suffix>`.
pub fn required_var_name(prefix: &str, suffix: &str) -> (r: String)
    ensures
        r@ == var_name(prefix@, suffix@),
{
    let mut name = String::from_str(prefix);
    name.append("_");
    name.append(suffix);
    name
}

/// The value of the required variable `name` that reading it gave, or the message that says why
/// it cannot be used.
pub open spec fn required_var(name: Seq<char>, value: EnvVar) -> Result<Seq<char>, Seq<char>> {
    match value {
        EnvVar::Present(v) => Ok(v@),
        EnvVar::NotPresent => Err("Required environment variable "@ + name + " not present"@),
        EnvVar::NotUnicode => Err("Invalid value in environment variable "@ + name),
    }
}

/// The value of the required variable `name`, given what reading it gave.
pub fn get_required_var(name: &str, value: EnvVar) -> (r: Result<String, String>)
    ensures
        match required_var(name@, value) {
            Ok(v) => r matches Ok(s) && s@ == v,
            Err(m) => r matches Err(s) && s@ == m,
        },
{
    match value {
        EnvVar::Present(v) => Ok(v),
        EnvVar::NotPresent => {
            let mut m = String::from_str("Required environment variable ");
            m.append(name);
            m.append(" not present");
            Err(m)
        },
        EnvVar::NotUnicode => {
            let mut m = String::from_str("Invalid value in environment variable ");
            m.append(name);
            Err(m)
        },
    }
}

/// Why a text is not a `u16`, as `u16::from_str` tells it.
pub enum IntErrorKind {
    /// The text is empty.
    Empty,
    /// The text holds something that is not a decimal digit.
    InvalidDigit,
    /// The number is larger than `u16::MAX`.
    PosOverflow,
}

/// The value of a decimal digit character, if it is one.
pub open spec fn digit_value(c: char) -> Option<nat> {
    if '0' <= c <= '9' {
        Some((c as nat - '0' as nat) as nat)
    } else {
        None
    }
}

/// The `u16` whose decimal digits, read from the left after the value `acc`, are `digits`; the
/// first character that is not a digit, or the first digit past `u16::MAX`, ends the reading.
pub open spec fn read_digits(digits: Seq<char>, acc: nat) -> Result<u16, IntErrorKind>
    decreases digits.len(),
{
    if digits.len() == 0 {
        Ok(acc as u16)
    } else {
        match digit_value(digits[0]) {
            None => Err(IntErrorKind::InvalidDigit),
            Some(d) => if acc * 10 + d > u16::MAX {
                Err(IntErrorKind::PosOverflow)
            } else {
                read_digits(digits.drop_first(), acc * 10 + d)
            },
        }
    }
}

/// What `u16::from_str` gives for `s`: an optional `+`, then at least one decimal digit, with
/// no other character and a value of at most `u16::MAX`.
pub open spec fn parsed_u16(s: Seq<char>) -> Result<u16, IntErrorKind> {
    if s.len() == 0 {
        Err(IntErrorKind::Empty)
    } else if s.len() == 1 && (s[0] == '+' || s[0] == '-') {
        Err(IntErrorKind::InvalidDigit)
    } else if s[0] == '+' {
        read_digits(s.drop_first(), 0)
    } else {
        read_digits(s, 0)
    }
}

/// How `ParseIntError` describes each kind of failure.
pub open spec fn int_error_text(kind: IntErrorKind) -> Seq<char> {
    match kind {
        IntErrorKind::Empty => "cannot parse integer from empty string"@,
        IntErrorKind::InvalidDigit => "invalid digit found in string"@,
        IntErrorKind::PosOverflow => "number too large to fit in target type"@,
    }
}

/// Parses a port number as `u16::from_str` does.
pub fn parse_u16(s: &str) -> (r: Result<u16, IntErrorKind>)
    ensures
        r == parsed_u16(s@),
{
    let cs = chars_of(s);
    if cs.len() == 0 {
        return Err(IntErrorKind::Empty);
    }
    if cs.len() == 1 && (cs[0] == '+' || cs[0] == '-') {
        return Err(IntErrorKind::InvalidDigit);
    }
    let mut i: usize = if cs[0] == '+' {
        1
    } else {
        0
    };
    let ghost digits = if cs@[0] == '+' {
        cs@.drop_first()
    } else {
        cs@
    };
    assert(cs@.skip(i as int) =~= digits);
    let mut acc: u32 = 0;
    while i < cs.len()
        invariant
            cs@ == s@,
            i <= cs.len(),
            acc <= u16::MAX,
            read_digits(cs@.skip(i as int), acc as nat) == read_digits(digits, 0),
            parsed_u16(s@) == read_digits(digits, 0),
        decreases cs.len() - i,
    {
        let c = cs[i];
        assert(cs@.skip(i as int)[0] == c);
        assert(cs@.skip(i as int).drop_first() =~= cs@.skip(i + 1));
        if c < '0' || c > '9' {
            assert(digit_value(c) is None);
            assert(read_digits(cs@.skip(i as int), acc as nat) == Err::<u16, IntErrorKind>(
                IntErrorKind::InvalidDigit,
            ));
            return Err(IntErrorKind::InvalidDigit);
        }
        let d: u32 = (c as u32) - ('0' as u32);
        assert(digit_value(c) == Some(d as nat));
        let next = acc * 10 + d;
        if next > 65535 {
            assert(read_digits(cs@.skip(i as int), acc as nat) == Err::<u16, IntErrorKind>(
                IntErrorKind::PosOverflow,
            ));
            return Err(IntErrorKind::PosOverflow);
        }
        acc = next;
        i = i + 1;
    }
    assert(cs@.skip(i as int).len() == 0);
    Ok(acc as u16)
}

/// Appends to `out` how `ParseIntError` describes `kind`.
fn push_int_error(out: &mut String, kind: IntErrorKind)
    ensures
        final(out)@ == old(out)@ + int_error_text(kind),
{
    match kind {
        IntErrorKind::Empty => out.append("cannot parse integer from empty string"),
        IntErrorKind::InvalidDigit => out.append("invalid digit found in string"),
        IntErrorKind::PosOverflow => out.append("number too large to fit in target type"),
    }
}

/// The options that the variables `<prefix>_HOST`, `<prefix>_PORT`, `<prefix>_DATABASE`,
/// `<prefix>_USERNAME` and `<prefix>_PASSWORD` configure, as host, port, database, username and
/// password, or the message of the first variable, in that order, that cannot be used.
pub open spec fn options_from_vars(
    prefix: Seq<char>,
    host: EnvVar,
    port: EnvVar,
    database: EnvVar,
    username: EnvVar,
    password: EnvVar,
) -> Result<(Seq<char>, u16, Seq<char>, Seq<char>, Seq<char>), Seq<char>> {
    match required_var(var_name(prefix, "HOST"@), host) {
        Err(m) => Err(m),
        Ok(h) => match required_var(var_name(prefix, "PORT"@), port) {
            Err(m) => Err(m),
            Ok(p) => match parsed_u16(p) {
                Err(kind) => Err("Invalid port number: "@ + int_error_text(kind)),
                Ok(pn) => match required_var(var_name(prefix, "DATABASE"@), database) {
                    Err(m) => Err(m),
                    Ok(d) => match required_var(var_name(prefix, "USERNAME"@), username) {
                        Err(m) => Err(m),
                        Ok(u) => match required_var(var_name(prefix, "PASSWORD"@), password) {
                            Err(m) => Err(m),
                            Ok(pw) => Ok((h, pn, d, u, pw)),
                        },
                    },
                },
            },
        },
    }
}

impl ConnectionOptions {
    /// Initializes a set of options from what reading the environment variables whose name is
    /// prefixed with the given `prefix` gave: `<prefix>_HOST`, `<prefix>_PORT`,
    /// `<prefix>_DATABASE`, `<prefix>_USERNAME` and `<prefix>_PASSWORD`.
    pub fn from_vars(
        prefix: &str,
        host: EnvVar,
        port: EnvVar,
        database: EnvVar,
        username: EnvVar,
        password: EnvVar,
    ) -> (r: Result<ConnectionOptions, String>)
        ensures
            match options_from_vars(prefix@, host, port, database, username, password) {
                Ok((h, pn, d, u, pw)) => r matches Ok(o) && o.host@ == h && o.port == pn
                    && o.database@ == d && o.username@ == u && o.password@ == pw,
                Err(m) => r matches Err(s) && s@ == m,
            },
    {
        let host = match get_required_var(required_var_name(prefix, "HOST").as_str(), host) {
            Ok(v) => v,
            Err(m) => return Err(m),
        };
        let port_text = match get_required_var(required_var_name(prefix, "PORT").as_str(), port) {
            Ok(v) => v,
            Err(m) => return Err(m),
        };
        let port = match parse_u16(port_text.as_str()) {
            Ok(p) => p,
            Err(kind) => {
                let mut m = String::from_str("Invalid port number: ");
                push_int_error(&mut m, kind);
                return Err(m);
            },
        };
        let database = match get_required_var(
            required_var_name(prefix, "DATABASE").as_str(),
            database,
        ) {
            Ok(v) => v,
            Err(m) => return Err(m),
        };
        let username = match get_required_var(
            required_var_name(prefix, "USERNAME").as_str(),
            username,
        ) {
            Ok(v) => v,
            Err(m) => return Err(m),
        };
        let password = match get_required_var(
            required_var_name(prefix, "PASSWORD").as_str(),
            password,
        ) {
            Ok(v) => v,
            Err(m) => return Err(m),
        };
        Ok(ConnectionOptions { host, port, database, username, password })
    }
}

/// Factory to connect to a PostgreSQL database, whose pool runs its background work on
/// `runtime`.  No connection is opened until the database is first used.
pub fn connect_lazy(runtime: &tokio::runtime::Handle, opts: ConnectionOptions) -> (r: Connection)
    ensures
        r.backend_spec() matches ConnectionBackend::Postgres(db) && db.table_suffix() is None
            && db.connect_params() == (
            opts.host@,
            opts.port,
            opts.database@,
            opts.username@,
            opts.password@,
        ),
{
    let db = PostgresDb::connect_lazy(
        runtime,
        opts.host.as_str(),
        opts.port,
        opts.database.as_str(),
        opts.username.as_str(),
        opts.password.as_str(),
    );
    Connection::new(ConnectionBackend::Postgres(db))
}

/// Converts an `u32` from the in-memory model to an `i16` suitable for storage.
pub fn u32_to_i16(field: &'static str, unsigned: u32) -> (r: Result<i16, String>)
    ensures
        unsigned <= i16::MAX ==> r == Ok::<i16, String>(unsigned as i16),
        unsigned > i16::MAX ==> (r matches Err(m) && m@ == too_large_text(
            field@,
            unsigned as nat,
            "i16"@,
        )),
{
    if unsigned > 32767 {
        return Err(crate::db::too_large_message(field, unsigned as u64, "i16"));
    }
    Ok(unsigned as i16)
}

} // verus!
