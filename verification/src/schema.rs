//! Statements that set up and tear down the `logs` table of a PostgreSQL database, and the
//! renaming of that table that isolates test runs from each other.

use crate::text::{
    decimal, join_with, lemma_split_join, occurs_at, push_char, push_decimal, replace_all,
    replace_all_exec, split_exec, split_on, contains_seq,
};
use vstd::prelude::*;
use vstd::string::*;

verus! {

/// Schema of the PostgreSQL database: the `logs` table, with the column sizes of the field
/// limits, and its `logs_by_timestamp` index.
pub const PGSQL_SCHEMA: &'static str = "-- Log entries.
CREATE TABLE logs (
    timestamp TIMESTAMPTZ NOT NULL,
    sequence BIGINT NOT NULL,
    hostname VARCHAR(64) NOT NULL,
    level SMALLINT NOT NULL,
    module VARCHAR(64),
    filename VARCHAR(256),
    line SMALLINT,
    message VARCHAR(1024) NOT NULL,
    PRIMARY KEY (timestamp, sequence)
);

CREATE INDEX logs_by_timestamp ON logs (timestamp);
";

/// Schema of the SQLite database: the `logs` table, with the time split into seconds and
/// nanoseconds, and its `logs_by_timestamp` index.
pub const SQLITE_SCHEMA: &'static str = "-- Log entries.
CREATE TABLE logs (
    timestamp_secs INTEGER NOT NULL,
    timestamp_nsecs INTEGER NOT NULL,
    sequence INTEGER NOT NULL,
    hostname TEXT NOT NULL,
    level INTEGER NOT NULL,
    module TEXT,
    filename TEXT,
    line INTEGER,
    message TEXT NOT NULL,
    PRIMARY KEY (timestamp_secs, timestamp_nsecs, sequence)
);

CREATE INDEX logs_by_timestamp ON logs (timestamp_secs, timestamp_nsecs);
";

/// The text after which a PostgreSQL schema line is a comment: `--`, up to the end of the line.
pub open spec fn comment_pattern() -> Seq<char> {
    seq!['-', '-', '.', '*', '$']
}

/// `s` with every comment removed, where `in_comment` says whether the scan starts inside a
/// comment.  A comment starts at `--` and runs up to, but not including, the next newline.
pub open spec fn strip_comments_from(s: Seq<char>, in_comment: bool) -> Seq<char>
    decreases s.len(),
{
    if s.len() == 0 {
        s
    } else if in_comment {
        if s[0] == '\n' {
            seq!['\n'] + strip_comments_from(s.drop_first(), false)
        } else {
            strip_comments_from(s.drop_first(), true)
        }
    } else if s.len() >= 2 && s[0] == '-' && s[1] == '-' {
        strip_comments_from(s.skip(2), true)
    } else {
        seq![s[0]] + strip_comments_from(s.drop_first(), false)
    }
}

/// `s` without its `--` comments.
pub open spec fn sql_without_comments(s: Seq<char>) -> Seq<char> {
    strip_comments_from(s, false)
}

/// Compiles `pattern` as a regular expression in multi-line mode and replaces every match in
/// `haystack` by `replacement`.
///
/// Calls `regex::RegexBuilder::new(pattern).multi_line(true).build()` and then
/// `Regex::replace_all`.  The result is `None` only when the pattern does not compile.
/// The contract states the result for one pattern only, the comment pattern `--.*$` with an
/// empty replacement: in multi-line mode `$` matches before each `\n` and at the end, `.` matches
/// any character but `\n`, and `replace_all` replaces the leftmost-first, non-overlapping
/// matches, so each line loses the text from its first `--` to its end.  Nothing is stated of
/// other patterns.
#[verifier::external_body]
fn regex_replace_all_multi_line(pattern: &str, haystack: &str, replacement: &str) -> (r: Option<
    String,
>)
    ensures
        pattern@ == comment_pattern() && replacement@.len() == 0 ==> r is Some && r->0@
            == sql_without_comments(haystack@),
{
    match regex::RegexBuilder::new(pattern).multi_line(true).build() {
        Ok(re) => Some(re.replace_all(haystack, replacement).into_owned()),
        Err(_) => None,
    }
}

/// Removes the `--` comments of a schema so that its statements can be told apart by their `;`.
pub fn strip_sql_comments(schema: &str) -> (r: String)
    ensures
        r@ == sql_without_comments(schema@),
{
    let pattern = "--.*$";
    let replacement = "";
    proof {
        reveal_strlit("--.*$");
        reveal_strlit("");
        assert(pattern@ =~= comment_pattern());
    }
    match regex_replace_all_multi_line(pattern, schema, replacement) {
        Some(stripped) => stripped,
        None => String::new(),
    }
}

/// The name of the table that holds the log entries, with the blank that precedes it in every
/// statement of this library.
pub open spec fn logs_marker() -> Seq<char> {
    seq![' ', 'l', 'o', 'g', 's']
}

/// `query` with the `logs` table (and its indexes) renamed to `logs_<suffix>` when a suffix is
/// given, and unchanged otherwise.
pub open spec fn patched_query(query: Seq<char>, suffix: Option<u32>) -> Seq<char> {
    match suffix {
        None => query,
        Some(n) => replace_all(query, logs_marker(), logs_marker().push('_') + decimal(n as nat)),
    }
}

/// Renames the `logs` table in `query` to `logs_<suffix>` when a suffix is given, so that
/// concurrent test runs work on tables of their own.
pub fn patch_query_text(query: &str, suffix: Option<u32>) -> (r: String)
    ensures
        r@ == patched_query(query@, suffix),
{
    match suffix {
        None => query.to_owned(),
        Some(n) => {
            let marker = " logs";
            proof {
                reveal_strlit(" logs");
                assert(marker@ =~= logs_marker());
            }
            let mut renamed = String::new();
            renamed.append(marker);
            push_char(&mut renamed, '_');
            push_decimal(&mut renamed, n as u128);
            replace_all_exec(query, marker, renamed.as_str())
        },
    }
}

/// The statements of `schema` once its comments are gone and its table carries `suffix`, if any.
pub open spec fn schema_statements_of(schema: Seq<char>, suffix: Option<u32>) -> Seq<Seq<char>> {
    split_on(patched_query(sql_without_comments(schema), suffix), ';')
}

/// Turns a schema into the statements that create the `logs` table, renamed to `logs_<suffix>`
/// when a suffix is given: comments are removed, the table is renamed, and the text is cut at
/// every `;`.
pub fn schema_statements(schema: &str, suffix: Option<u32>) -> (r: Vec<String>)
    ensures
        r@.map_values(|s: String| s@) == schema_statements_of(schema@, suffix),
{
    let stripped = strip_sql_comments(schema);
    let patched = patch_query_text(stripped.as_str(), suffix);
    split_exec(patched.as_str(), ';')
}

/// `DROP INDEX logs_<suffix>_by_timestamp`.
pub open spec fn drop_index_statement(suffix: u32) -> Seq<char> {
    seq!['D', 'R', 'O', 'P', ' ', 'I', 'N', 'D', 'E', 'X'] + logs_marker().push('_') + decimal(
        suffix as nat,
    ) + seq!['_', 'b', 'y', '_', 't', 'i', 'm', 'e', 's', 't', 'a', 'm', 'p']
}

/// `DROP TABLE logs_<suffix>`.
pub open spec fn drop_table_statement(suffix: u32) -> Seq<char> {
    seq!['D', 'R', 'O', 'P', ' ', 'T', 'A', 'B', 'L', 'E'] + logs_marker().push('_') + decimal(
        suffix as nat,
    )
}

/// The statements that delete what `schema_statements` created for `suffix`: the index first,
/// then the table.  The names are written out rather than patched so that they can never name
/// the production table.
pub fn teardown_statements(suffix: u32) -> (r: Vec<String>)
    ensures
        r@.map_values(|s: String| s@) == seq![drop_index_statement(suffix), drop_table_statement(suffix)],
{
    let mut index = String::new();
    index.append("DROP INDEX logs_");
    push_decimal(&mut index, suffix as u128);
    index.append("_by_timestamp");
    let mut table = String::new();
    table.append("DROP TABLE logs_");
    push_decimal(&mut table, suffix as u128);
    proof {
        reveal_strlit("DROP INDEX logs_");
        reveal_strlit("_by_timestamp");
        reveal_strlit("DROP TABLE logs_");
        assert(index@ =~= drop_index_statement(suffix));
        assert(table@ =~= drop_table_statement(suffix));
    }
    let mut r: Vec<String> = Vec::new();
    r.push(index);
    r.push(table);
    assert(r@.map_values(|s: String| s@) =~= seq![drop_index_statement(suffix), drop_table_statement(suffix)]);
    r
}

/// `DROP INDEX logs_by_timestamp`, the statement that drops the index of the production table.
pub open spec fn production_drop_index() -> Seq<char> {
    seq!['D', 'R', 'O', 'P', ' ', 'I', 'N', 'D', 'E', 'X'] + logs_marker() + seq![
        '_', 'b', 'y', '_', 't', 'i', 'm', 'e', 's', 't', 'a', 'm', 'p',
    ]
}

/// `DROP TABLE logs`, the statement that drops the production table.
pub open spec fn production_drop_table() -> Seq<char> {
    seq!['D', 'R', 'O', 'P', ' ', 'T', 'A', 'B', 'L', 'E'] + logs_marker()
}

proof fn lemma_replace_all_passes_prefix(a: Seq<char>, b: Seq<char>, pat: Seq<char>, rep: Seq<char>)
    requires
        pat.len() > 0,
        !a.contains(pat[0]),
    ensures
        replace_all(a + b, pat, rep) == a + replace_all(b, pat, rep),
    decreases a.len(),
{
    if a.len() > 0 {
        let s = a + b;
        if a[0] == pat[0] {
            assert(a.contains(pat[0]));
        }
        if occurs_at(s, pat, 0) {
            assert(s.subrange(0, pat.len() as int)[0] == s[0]);
        }
        let t = a.drop_first();
        if t.contains(pat[0]) {
            let j = choose|j: int| 0 <= j < t.len() && t[j] == pat[0];
            assert(a[j + 1] == pat[0]);
        }
        lemma_replace_all_passes_prefix(t, b, pat, rep);
        assert(s.drop_first() =~= t + b);
        assert(a =~= seq![a[0]] + t);
    }
}

/// Replacing in `t + b` leaves `t` as it is when no occurrence of the pattern starts in `t`.
pub proof fn lemma_replace_all_passes_text(t: Seq<char>, b: Seq<char>, pat: Seq<char>, rep: Seq<char>)
    requires
        pat.len() > 0,
        forall|i: int| 0 <= i < t.len() ==> !occurs_at(t + b, pat, i),
    ensures
        replace_all(t + b, pat, rep) == t + replace_all(b, pat, rep),
    decreases t.len(),
{
    if t.len() > 0 {
        let s = t + b;
        assert(!occurs_at(s, pat, 0));
        let t2 = t.drop_first();
        assert(s.drop_first() =~= t2 + b);
        assert forall|i: int| 0 <= i < t2.len() implies !occurs_at(t2 + b, pat, i) by {
            assert(!occurs_at(s, pat, i + 1));
            if occurs_at(t2 + b, pat, i) {
                assert((t2 + b).subrange(i, i + pat.len()) =~= s.subrange(i + 1, i + 1 + pat.len()));
            }
        }
        lemma_replace_all_passes_text(t2, b, pat, rep);
        assert(t =~= seq![t[0]] + t2);
    }
}

proof fn lemma_replace_all_passes_char(c: char, b: Seq<char>, pat: Seq<char>, rep: Seq<char>)
    requires
        pat.len() >= 2,
        b.len() > 0,
        b[0] != pat[1],
    ensures
        replace_all(seq![c] + b, pat, rep) == seq![c] + replace_all(b, pat, rep),
{
    let s = seq![c] + b;
    if occurs_at(s, pat, 0) {
        assert(s.subrange(0, pat.len() as int)[1] == b[0]);
    }
    assert(s.drop_first() =~= b);
}

proof fn lemma_replace_all_at_pattern(b: Seq<char>, pat: Seq<char>, rep: Seq<char>)
    requires
        pat.len() > 0,
    ensures
        replace_all(pat + b, pat, rep) == rep + replace_all(b, pat, rep),
{
    let s = pat + b;
    assert(s.subrange(0, pat.len() as int) =~= pat);
    assert(s.skip(pat.len() as int) =~= b);
}

/// The statements that tear a test table down are the production statements that drop the
/// `logs` table and its `logs_by_timestamp` index, renamed as `patch_query` renames every
/// statement of that test database, so they delete what the renamed schema created; and they
/// never name the production table or index.
pub proof fn lemma_teardown_matches_patched_names(suffix: u32)
    ensures
        drop_index_statement(suffix) == patched_query(production_drop_index(), Some(suffix)),
        drop_table_statement(suffix) == patched_query(production_drop_table(), Some(suffix)),
        drop_index_statement(suffix) != production_drop_index(),
        drop_table_statement(suffix) != production_drop_table(),
{
    let pat = logs_marker();
    let rep = logs_marker().push('_') + decimal(suffix as nat);
    let drop = seq!['D', 'R', 'O', 'P'];
    let index = seq!['I', 'N', 'D', 'E', 'X'];
    let table = seq!['T', 'A', 'B', 'L', 'E'];
    let by_timestamp = seq!['_', 'b', 'y', '_', 't', 'i', 'm', 'e', 's', 't', 'a', 'm', 'p'];
    let empty = Seq::<char>::empty();
    assert(!drop.contains(' ')) by {
        if drop.contains(' ') {
            let j = choose|j: int| 0 <= j < drop.len() && drop[j] == ' ';
        }
    }
    assert(!index.contains(' ')) by {
        if index.contains(' ') {
            let j = choose|j: int| 0 <= j < index.len() && index[j] == ' ';
        }
    }
    assert(!table.contains(' ')) by {
        if table.contains(' ') {
            let j = choose|j: int| 0 <= j < table.len() && table[j] == ' ';
        }
    }
    assert(!by_timestamp.contains(' ')) by {
        if by_timestamp.contains(' ') {
            let j = choose|j: int| 0 <= j < by_timestamp.len() && by_timestamp[j] == ' ';
        }
    }
    assert(replace_all(empty, pat, rep) == empty);

    // DROP INDEX logs_by_timestamp
    lemma_replace_all_passes_prefix(by_timestamp, empty, pat, rep);
    assert(by_timestamp + empty =~= by_timestamp);
    lemma_replace_all_at_pattern(by_timestamp, pat, rep);
    lemma_replace_all_passes_prefix(index, pat + by_timestamp, pat, rep);
    lemma_replace_all_passes_char(' ', index + (pat + by_timestamp), pat, rep);
    lemma_replace_all_passes_prefix(drop, seq![' '] + (index + (pat + by_timestamp)), pat, rep);
    assert(production_drop_index() =~= drop + (seq![' '] + (index + (pat + by_timestamp))));
    assert(drop_index_statement(suffix) =~= drop + (seq![' '] + (index + (rep + by_timestamp))));

    // DROP TABLE logs
    lemma_replace_all_at_pattern(empty, pat, rep);
    assert(pat + empty =~= pat);
    assert(rep + empty =~= rep);
    lemma_replace_all_passes_prefix(table, pat, pat, rep);
    lemma_replace_all_passes_char(' ', table + pat, pat, rep);
    lemma_replace_all_passes_prefix(drop, seq![' '] + (table + pat), pat, rep);
    assert(production_drop_table() =~= drop + (seq![' '] + (table + pat)));
    assert(drop_table_statement(suffix) =~= drop + (seq![' '] + (table + rep)));

    // The renamed names are longer than the production ones.
    assert(decimal(suffix as nat).len() >= 1);
    assert(drop_index_statement(suffix).len() > production_drop_index().len());
    assert(drop_table_statement(suffix).len() > production_drop_table().len());
}

spec fn dashes_at(out: Seq<char>, i: int) -> bool {
    out[i] == '-' && out[i + 1] == '-'
}

proof fn lemma_strip_comments_no_dashes(s: Seq<char>, in_comment: bool)
    ensures
        ({
            let out = strip_comments_from(s, in_comment);
            &&& forall|i: int| 0 <= i < out.len() - 1 ==> !#[trigger] dashes_at(out, i)
            &&& out.len() > 0 && out[0] == '-' ==> !in_comment && s.len() > 0 && s[0] == '-' && !(
            s.len() >= 2 && s[1] == '-')
        }),
    decreases s.len(),
{
    if s.len() == 0 {
    } else if in_comment {
        lemma_strip_comments_no_dashes(s.drop_first(), s[0] != '\n');
        if s[0] == '\n' {
            let rest = strip_comments_from(s.drop_first(), false);
            let out = seq!['\n'] + rest;
            assert forall|i: int| 0 <= i < out.len() - 1 implies !#[trigger] dashes_at(out, i) by {
                if i > 0 {
                    assert(out[i] == rest[i - 1] && out[i + 1] == rest[i]);
                    assert(!dashes_at(rest, i - 1));
                }
            }
        }
    } else if s.len() >= 2 && s[0] == '-' && s[1] == '-' {
        lemma_strip_comments_no_dashes(s.skip(2), true);
    } else {
        let t = s.drop_first();
        lemma_strip_comments_no_dashes(t, false);
        let rest = strip_comments_from(t, false);
        let out = seq![s[0]] + rest;
        assert forall|i: int| 0 <= i < out.len() - 1 implies !#[trigger] dashes_at(out, i) by {
            if i > 0 {
                assert(out[i] == rest[i - 1] && out[i + 1] == rest[i]);
                assert(!dashes_at(rest, i - 1));
            } else if out[0] == '-' && out[1] == '-' {
                assert(rest[0] == '-');
                assert(t[0] == '-');
                assert(s[1] == '-');
            }
        }
    }
}

/// No comment survives the stripping: the text that `strip_sql_comments` leaves never holds
/// `--`, so a `;` inside a comment can never end a statement.
pub proof fn lemma_stripped_has_no_comment_marker(s: Seq<char>)
    ensures
        !contains_seq(sql_without_comments(s), seq!['-', '-']),
{
    lemma_strip_comments_no_dashes(s, false);
    let out = sql_without_comments(s);
    if contains_seq(out, seq!['-', '-']) {
        let i = choose|i: int| occurs_at(out, seq!['-', '-'], i);
        assert(out.subrange(i, i + 2)[0] == out[i]);
        assert(out.subrange(i, i + 2)[1] == out[i + 1]);
        assert(dashes_at(out, i));
    }
}

/// The statements of a schema, joined again with `;`, give back the schema without its
/// comments and with its table renamed; no statement holds a `;`.
pub proof fn lemma_schema_statements_join(schema: Seq<char>, suffix: Option<u32>)
    ensures
        join_with(schema_statements_of(schema, suffix), ';') == patched_query(
            sql_without_comments(schema),
            suffix,
        ),
        forall|k: int|
            0 <= k < schema_statements_of(schema, suffix).len() ==> !(
            #[trigger] schema_statements_of(schema, suffix)[k]).contains(';'),
{
    lemma_split_join(patched_query(sql_without_comments(schema), suffix), ';');
}

} // verus!
