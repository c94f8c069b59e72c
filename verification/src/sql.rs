//! The SQL transport log shared by PostgreSQL and SQLite: placeholder
//! binding per dialect, the bootstrap DDL, and how driver errors map to
//! `LogError`.

use vstd::prelude::*;

use crate::text::{concat, decimal, lemma_decimal_digits, push_char, push_decimal};
use crate::types::{opt_view, LogError};

verus! {

/// SQL dialect for query variants (locking).
#[derive(Clone, Copy, Debug, PartialEq, Eq, Structural)]
pub enum SqlDialect {
    /// `PostgreSQL`.
    Postgres,
    /// `SQLite`.
    Sqlite,
}

/// Number of `?` placeholders in a statement.
pub open spec fn count_marks(s: Seq<char>) -> nat
    decreases s.len(),
{
    if s.len() == 0 {
        0
    } else {
        count_marks(s.drop_last()) + if s.last() == '?' { 1nat } else { 0nat }
    }
}

/// A statement with its `?` placeholders numbered `$1`, `$2`, ... from the left.
pub open spec fn pg_placeholders(s: Seq<char>) -> Seq<char>
    decreases s.len(),
{
    if s.len() == 0 {
        Seq::empty()
    } else if s.last() == '?' {
        pg_placeholders(s.drop_last()) + seq!['$'] + decimal(count_marks(s.drop_last()) + 1)
    } else {
        pg_placeholders(s.drop_last()).push(s.last())
    }
}

/// The statement as the dialect's driver expects it.
pub open spec fn bind_sql_spec(dialect: SqlDialect, s: Seq<char>) -> Seq<char> {
    match dialect {
        SqlDialect::Sqlite => s,
        SqlDialect::Postgres => pg_placeholders(s),
    }
}

/// `SQLite` uses `?` placeholders; `PostgreSQL` uses `$1`, `$2`, …
pub fn bind_sql(dialect: SqlDialect, sql: &str) -> (out: String)
    requires
        dialect == SqlDialect::Postgres ==> count_marks(sql@) < u32::MAX,
    ensures
        out@ == bind_sql_spec(dialect, sql@),
{
    match dialect {
        SqlDialect::Sqlite => sql.to_owned(),
        SqlDialect::Postgres => {
            let len = sql.unicode_len();
            let mut out = String::new();
            let mut n: u32 = 1;
            let mut i: usize = 0;
            while i < len
                invariant
                    len == sql@.len(),
                    i <= len,
                    count_marks(sql@) < u32::MAX,
                    n == count_marks(sql@.take(i as int)) + 1,
                    out@ == pg_placeholders(sql@.take(i as int)),
                decreases len - i,
            {
                proof {
                    assert(sql@.take(i + 1).drop_last() =~= sql@.take(i as int));
                    lemma_count_marks_prefix(sql@, i + 1);
                }
                let ch = sql.get_char(i);
                if ch == '?' {
                    push_char(&mut out, '$');
                    push_decimal(&mut out, n as u64);
                    n = n + 1;
                } else {
                    push_char(&mut out, ch);
                }
                i = i + 1;
            }
            assert(sql@.take(len as int) =~= sql@);
            out
        },
    }
}

proof fn lemma_count_marks_prefix(s: Seq<char>, k: int)
    requires
        0 <= k <= s.len(),
    ensures
        count_marks(s.take(k)) <= count_marks(s),
    decreases s.len() - k,
{
    if k < s.len() {
        lemma_count_marks_prefix(s, k + 1);
        assert(s.take(k + 1).drop_last() =~= s.take(k));
    } else {
        assert(s.take(k) =~= s);
    }
}

/// After PostgreSQL binding no `?` is left: every placeholder became `$n`.
pub proof fn lemma_pg_binding_replaces_marks(s: Seq<char>)
    ensures
        forall|i: int| 0 <= i < pg_placeholders(s).len() ==> #[trigger] pg_placeholders(s)[i] != '?',
    decreases s.len(),
{
    if s.len() > 0 {
        let d = s.drop_last();
        lemma_pg_binding_replaces_marks(d);
        let p = pg_placeholders(d);
        if s.last() == '?' {
            let n = count_marks(d) + 1;
            lemma_decimal_digits(n);
            let r = p + seq!['$'] + decimal(n);
            assert forall|i: int| 0 <= i < r.len() implies #[trigger] r[i] != '?' by {
                if i < p.len() {
                    assert(r[i] == p[i]);
                } else if i == p.len() {
                    assert(r[i] == '$');
                } else {
                    assert(r[i] == decimal(n)[i - p.len() - 1]);
                }
            }
        } else {
            assert forall|i: int| 0 <= i < p.len() + 1 implies #[trigger] p.push(s.last())[i] != '?' by {
                if i < p.len() {
                    assert(p.push(s.last())[i] == p[i]);
                }
            }
        }
    }
}

/// A statement without placeholders is sent unchanged in both dialects.
pub proof fn lemma_bind_without_marks(dialect: SqlDialect, s: Seq<char>)
    requires
        forall|i: int| 0 <= i < s.len() ==> s[i] != '?',
    ensures
        bind_sql_spec(dialect, s) == s,
    decreases s.len(),
{
    if s.len() > 0 {
        let d = s.drop_last();
        assert forall|i: int| 0 <= i < d.len() implies d[i] != '?' by {
            assert(d[i] == s[i]);
        }
        lemma_bind_without_marks(dialect, d);
        lemma_bind_without_marks(SqlDialect::Postgres, d);
        assert(s.last() == s[s.len() - 1]);
        assert(d.push(s.last()) =~= s);
    }
}

/// Column type of the encrypted payload.
pub open spec fn payload_type(dialect: SqlDialect) -> Seq<char> {
    match dialect {
        SqlDialect::Postgres => "BYTEA"@,
        SqlDialect::Sqlite => "BLOB"@,
    }
}

/// Event table DDL before the payload column type.
pub const EVENT_TABLE_HEAD: &'static str = "
CREATE TABLE IF NOT EXISTS continuum_event (
    stream_key TEXT NOT NULL,
    seq BIGINT NOT NULL,
    event_id TEXT NOT NULL,
    ts_millis BIGINT NOT NULL,
    attempt INTEGER NOT NULL,
    actor_ref TEXT,
    payload_ciphertext ";

/// Event table DDL after the payload column type.
pub const EVENT_TABLE_TAIL: &'static str = " NOT NULL
)";

/// Stream counter table DDL.
pub const STREAM_TABLE: &'static str = "
CREATE TABLE IF NOT EXISTS continuum_stream (
    stream_key TEXT PRIMARY KEY,
    next_seq BIGINT NOT NULL DEFAULT 0
)";

/// Checkpoint table DDL.
pub const CHECKPOINT_TABLE: &'static str = "
CREATE TABLE IF NOT EXISTS continuum_checkpoint (
    subscription TEXT NOT NULL,
    stream_key TEXT NOT NULL,
    seq BIGINT NOT NULL,
    PRIMARY KEY (subscription, stream_key)
)";

/// Unique index that makes event ids idempotent per stream.
pub const EVENT_ID_INDEX: &'static str = "CREATE UNIQUE INDEX IF NOT EXISTS continuum_event_id ON continuum_event (stream_key, event_id)";

/// Index for reads in sequence order.
pub const STREAM_SEQ_INDEX: &'static str = "CREATE INDEX IF NOT EXISTS continuum_stream_seq ON continuum_event (stream_key, seq)";

/// Cluster-wide lock taken around PostgreSQL bootstrap.
pub const ADVISORY_LOCK: &'static str = "SELECT pg_advisory_lock(872349012)";

/// Release of the bootstrap lock.
pub const ADVISORY_UNLOCK: &'static str = "SELECT pg_advisory_unlock(872349012)";

/// The event table DDL of a dialect.
pub open spec fn event_table_spec(dialect: SqlDialect) -> Seq<char> {
    EVENT_TABLE_HEAD@ + payload_type(dialect) + EVENT_TABLE_TAIL@
}

/// `CREATE TABLE` for events, with the dialect's payload column type.
pub fn event_table(dialect: SqlDialect) -> (ddl: String)
    ensures
        ddl@ == event_table_spec(dialect),
{
    let ty: &str = match dialect {
        SqlDialect::Postgres => "BYTEA",
        SqlDialect::Sqlite => "BLOB",
    };
    let head = concat(EVENT_TABLE_HEAD, ty);
    concat(head.as_str(), EVENT_TABLE_TAIL)
}

/// Statements that bootstrap the schema, in the order they run.
pub open spec fn schema_statements_spec(dialect: SqlDialect) -> Seq<Seq<char>> {
    seq![event_table_spec(dialect), STREAM_TABLE@, CHECKPOINT_TABLE@, EVENT_ID_INDEX@, STREAM_SEQ_INDEX@]
}

/// The bootstrap DDL: three tables, then the two indexes.
pub fn schema_statements(dialect: SqlDialect) -> (stmts: Vec<String>)
    ensures
        stmts@.len() == 5,
        forall|i: int| 0 <= i < 5 ==> #[trigger] stmts@[i]@ == schema_statements_spec(dialect)[i],
{
    let mut stmts: Vec<String> = Vec::new();
    stmts.push(event_table(dialect));
    stmts.push(STREAM_TABLE.to_owned());
    stmts.push(CHECKPOINT_TABLE.to_owned());
    stmts.push(EVENT_ID_INDEX.to_owned());
    stmts.push(STREAM_SEQ_INDEX.to_owned());
    stmts
}

/// Whether bootstrap runs under the cluster-wide advisory lock: concurrent
/// `CREATE TABLE IF NOT EXISTS` races on PostgreSQL's catalog, not on SQLite.
pub fn bootstrap_needs_lock(dialect: SqlDialect) -> (r: bool)
    ensures
        r == (dialect == SqlDialect::Postgres),
{
    match dialect {
        SqlDialect::Postgres => true,
        SqlDialect::Sqlite => false,
    }
}

/// `LIKE` pattern that selects every stream of a topic.
pub fn like_prefix(topic_prefix: &str) -> (p: String)
    ensures
        p@ == topic_prefix@.push('%'),
{
    let mut p = topic_prefix.to_owned();
    push_char(&mut p, '%');
    p
}

/// Rows counted by `COUNT(*)` reported as the number removed
/// (`i64::cast_unsigned`, two's complement).
pub fn removed_count(count: i64) -> (n: u64)
    ensures
        count >= 0 ==> n == count,
        count < 0 ==> n == count + 18446744073709551616,
{
    if count >= 0 {
        count as u64
    } else {
        let m: u64 = (-(count + 1)) as u64;
        u64::MAX - m
    }
}

/// What the logic needs to know of a driver error: the message of a
/// unique-key violation, if it is one, and the error's text otherwise.
pub struct DbFailure {
    pub unique_violation: Option<String>,
    pub text: String,
}

/// Error mapping: a unique-key violation is a conflict carrying the
/// database's message; anything else is a backend error carrying its text.
pub fn map_db_failure(f: DbFailure) -> (e: LogError)
    ensures
        match f.unique_violation {
            Some(m) => e == LogError::Conflict(m),
            None => e == LogError::Backend(f.text),
        },
{
    match f.unique_violation {
        Some(m) => LogError::Conflict(m),
        None => LogError::Backend(f.text),
    }
}

#[verifier::external_type_specification]
#[verifier::external_body]
pub struct ExSqlxError(sqlx::Error);

/// The database's message of a `sqlx::Error` that is a unique-key violation
/// (`Error::Database` whose `is_unique_violation()` holds), and nothing for any
/// other error: read off the error value alone.
pub uninterp spec fn sqlx_unique_message(e: sqlx::Error) -> Option<Seq<char>>;

/// Reads a `sqlx::Error`: for `Error::Database` whose `is_unique_violation()`
/// holds, the database message (`message()`); the error's `Display` text in
/// every case. The first part is named by `sqlx_unique_message`; the text is
/// left unsaid, since for I/O errors it comes from the operating system.
#[verifier::external_body]
fn describe_sqlx_error(e: &sqlx::Error) -> (f: DbFailure)
    ensures
        opt_view(f.unique_violation) == sqlx_unique_message(*e),
{
    let unique_violation = match e {
        sqlx::Error::Database(db) if db.is_unique_violation() => Some(db.message().to_string()),
        _ => None,
    };
    DbFailure { unique_violation, text: e.to_string() }
}

/// Maps a driver error to a `LogError`: a unique-key violation is a conflict
/// carrying the database's message, any other error a backend error.
pub fn map_err(e: sqlx::Error) -> (r: LogError)
    ensures
        match sqlx_unique_message(e) {
            Some(m) => r matches LogError::Conflict(c) && c@ == m,
            None => r is Backend,
        },
{
    map_db_failure(describe_sqlx_error(&e))
}

} // verus!
