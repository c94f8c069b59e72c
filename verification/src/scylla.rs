//! ScyllaDB transport log: configuration and tuning types, the CQL it
//! prepares under a keyspace, per-append round-trip counters, and the
//! decisions taken between driver calls (block reservation by compare-and-set,
//! idempotent inserts).

use vstd::prelude::*;

use crate::seq_alloc::SeqBlock;
use crate::text::{
    ascii_lower_seq, concat, lemma_trim_lower_idempotent, owned, push_char, replace_all, replace_spec, str_eq,
    to_ascii_lowercase, trim, trim_spec,
};
use crate::memory::{records_after, records_from};
use crate::types::{EventRecordView, LogError, LogSeq};

verus! {

/// Per-append idempotency via `event_id IF NOT EXISTS` lightweight transactions (LWT).
#[derive(Clone, Copy, Debug, PartialEq, Eq, Structural)]
pub enum IdempotencyMode {
    /// Exactly-once append: LWT on `event_id` (default).
    Lwt,
    /// At-least-once append: skip LWT for higher throughput; callers must tolerate duplicates.
    NoLwt,
}

impl Default for IdempotencyMode {
    fn default() -> (m: Self)
        ensures
            m == IdempotencyMode::Lwt,
    {
        IdempotencyMode::Lwt
    }
}

/// Idempotency policy: one mode for all topics, or per-topic overrides.
pub enum IdempotencyPolicy {
    /// Apply the same [`IdempotencyMode`] to every topic.
    Global(IdempotencyMode),
    /// Use `default` unless `overrides` names a topic-specific mode.
    PerTopic {
        /// Mode for topics not listed in `overrides`.
        default: IdempotencyMode,
        /// Topic name → mode overrides, one entry per topic as in a map
        /// (see `topics_distinct`; were a topic listed twice, its first entry wins).
        overrides: Vec<(String, IdempotencyMode)>,
    },
}

/// The override listed for `topic`, the earliest entry first.
pub open spec fn override_for(overrides: Seq<(String, IdempotencyMode)>, topic: Seq<char>) -> Option<IdempotencyMode>
    decreases overrides.len(),
{
    if overrides.len() == 0 {
        None
    } else if overrides[0].0@ == topic {
        Some(overrides[0].1)
    } else {
        override_for(overrides.drop_first(), topic)
    }
}

/// No topic is listed twice: the overrides form a map from topic to mode.
pub open spec fn topics_distinct(overrides: Seq<(String, IdempotencyMode)>) -> bool {
    forall|i: int, j: int|
        0 <= i < j < overrides.len() ==> #[trigger] overrides[i].0@ != #[trigger] overrides[j].0@
}

/// With distinct topics, the override found for a listed topic is its own entry.
pub proof fn lemma_override_for_listed(overrides: Seq<(String, IdempotencyMode)>, i: int)
    requires
        topics_distinct(overrides),
        0 <= i < overrides.len(),
    ensures
        override_for(overrides, overrides[i].0@) == Some(overrides[i].1),
    decreases overrides.len(),
{
    if i > 0 {
        let rest = overrides.drop_first();
        assert(rest[i - 1] == overrides[i]);
        assert(overrides[0].0@ != overrides[i].0@);
        assert(topics_distinct(rest)) by {
            assert forall|a: int, b: int| 0 <= a < b < rest.len() implies #[trigger] rest[a].0@ != #[trigger] rest[b].0@ by {
                assert(rest[a] == overrides[a + 1] && rest[b] == overrides[b + 1]);
            }
        }
        lemma_override_for_listed(rest, i - 1);
    }
}

/// An unlisted topic finds no override.
pub proof fn lemma_override_for_unlisted(overrides: Seq<(String, IdempotencyMode)>, topic: Seq<char>)
    requires
        forall|i: int| 0 <= i < overrides.len() ==> #[trigger] overrides[i].0@ != topic,
    ensures
        override_for(overrides, topic) is None,
    decreases overrides.len(),
{
    if overrides.len() > 0 {
        let rest = overrides.drop_first();
        assert forall|i: int| 0 <= i < rest.len() implies #[trigger] rest[i].0@ != topic by {
            assert(rest[i] == overrides[i + 1]);
        }
        lemma_override_for_unlisted(rest, topic);
    }
}

impl IdempotencyPolicy {
    /// The mode this policy gives a topic.
    pub open spec fn mode_spec(&self, topic: Seq<char>) -> IdempotencyMode {
        match self {
            IdempotencyPolicy::Global(m) => *m,
            IdempotencyPolicy::PerTopic { default, overrides } => match override_for(overrides@, topic) {
                Some(m) => m,
                None => *default,
            },
        }
    }

    /// Per-topic resolution reads the overrides as a map: a listed topic gets
    /// its entry's mode (topics distinct), an unlisted one the default.
    pub open spec fn resolves_as_map(&self, topic: Seq<char>, m: IdempotencyMode) -> bool {
        self matches IdempotencyPolicy::PerTopic { default, overrides } ==> {
            &&& topics_distinct(overrides@) ==> forall|i: int|
                0 <= i < overrides@.len() && #[trigger] overrides@[i].0@ == topic ==> m == overrides@[i].1
            &&& (forall|i: int| 0 <= i < overrides@.len() ==> #[trigger] overrides@[i].0@ != topic) ==> m == default
        }
    }

    /// The mode a policy gives a topic resolves the overrides as a map.
    pub proof fn lemma_mode_spec_as_map(&self, topic: Seq<char>)
        ensures
            self.resolves_as_map(topic, self.mode_spec(topic)),
    {
        match self {
            IdempotencyPolicy::PerTopic { default, overrides } => {
                if topics_distinct(overrides@) {
                    assert forall|i: int| 0 <= i < overrides@.len() && #[trigger] overrides@[i].0@ == topic implies
                        override_for(overrides@, topic) == Some(overrides@[i].1) by {
                        lemma_override_for_listed(overrides@, i);
                    }
                }
                if forall|i: int| 0 <= i < overrides@.len() ==> #[trigger] overrides@[i].0@ != topic {
                    lemma_override_for_unlisted(overrides@, topic);
                }
            },
            _ => {},
        }
    }

    /// Resolve idempotency mode for a topic name.
    pub fn mode_for(&self, topic: &str) -> (m: IdempotencyMode)
        ensures
            m == self.mode_spec(topic@),
            self.resolves_as_map(topic@, m),
    {
        proof {
            self.lemma_mode_spec_as_map(topic@);
        }
        match self {
            IdempotencyPolicy::Global(m) => *m,
            IdempotencyPolicy::PerTopic { default, overrides } => {
                let mut i: usize = 0;
                assert(overrides@.skip(0) =~= overrides@);
                while i < overrides.len()
                    invariant
                        i <= overrides@.len(),
                        self.resolves_as_map(topic@, self.mode_spec(topic@)),
                        override_for(overrides@, topic@) == override_for(overrides@.skip(i as int), topic@),
                        self.mode_spec(topic@) == match override_for(overrides@, topic@) {
                            Some(m) => m,
                            None => *default,
                        },
                    decreases overrides@.len() - i,
                {
                    assert(overrides@.skip(i as int).drop_first() =~= overrides@.skip(i + 1));
                    assert(overrides@.skip(i as int)[0] == overrides@[i as int]);
                    if str_eq(overrides[i].0.as_str(), topic) {
                        assert(overrides@.skip(i as int)[0].0@ == topic@);
                        assert(override_for(overrides@.skip(i as int), topic@) == Some(overrides@[i as int].1));
                        return overrides[i].1;
                    }
                    i = i + 1;
                }
                *default
            },
        }
    }
}

impl Default for IdempotencyPolicy {
    fn default() -> (p: Self)
        ensures
            p == IdempotencyPolicy::Global(IdempotencyMode::Lwt),
    {
        IdempotencyPolicy::Global(IdempotencyMode::Lwt)
    }
}

/// Write consistency levels the backend selects from configuration.
#[derive(Clone, Copy, Debug, PartialEq, Eq, Structural)]
pub enum Consistency {
    One,
    LocalOne,
    LocalQuorum,
}

/// Consistency named by a configuration string, after trimming and ASCII
/// lower-casing: `one`, `local_one`, and `quorum` or `local_quorum` (both
/// meaning local quorum).
pub open spec fn consistency_spec(s: Seq<char>) -> Option<Consistency> {
    let t = ascii_lower_seq(trim_spec(s));
    if t == "one"@ {
        Some(Consistency::One)
    } else if t == "local_one"@ {
        Some(Consistency::LocalOne)
    } else if t == "quorum"@ || t == "local_quorum"@ {
        Some(Consistency::LocalQuorum)
    } else {
        None
    }
}

/// Consistency parsing reads a string only through its trimmed, lower-cased
/// form: parsing that form again gives the same answer, and an answer comes
/// exactly for `one`, `local_one`, `quorum` and `local_quorum`.
pub proof fn lemma_consistency_normalised(s: Seq<char>)
    ensures
        consistency_spec(ascii_lower_seq(trim_spec(s))) == consistency_spec(s),
        consistency_spec(s) is Some <==> ({
            let t = ascii_lower_seq(trim_spec(s));
            t == "one"@ || t == "local_one"@ || t == "quorum"@ || t == "local_quorum"@
        }),
{
    lemma_trim_lower_idempotent(s);
}

/// Parse write consistency from a string (`one`, `local_one`, `quorum`, `local_quorum`).
pub fn consistency_from_str(s: &str) -> (c: Option<Consistency>)
    ensures
        c == consistency_spec(s@),
{
    let t = trim(s);
    let l = to_ascii_lowercase(t.as_str());
    if str_eq(l.as_str(), "one") {
        Some(Consistency::One)
    } else if str_eq(l.as_str(), "local_one") {
        Some(Consistency::LocalOne)
    } else if str_eq(l.as_str(), "quorum") || str_eq(l.as_str(), "local_quorum") {
        Some(Consistency::LocalQuorum)
    } else {
        None
    }
}

/// Cache key for in-process topic+stream index entries (`topic_prefix|stream_key`).
pub fn stream_index_cache_key(topic_prefix: &str, stream_key: &str) -> (k: String)
    ensures
        k@ == topic_prefix@.push('|') + stream_key@,
{
    let mut k = owned(topic_prefix);
    push_char(&mut k, '|');
    k.append(stream_key);
    k
}

/// Whether the append debug counters are switched on by the value of their
/// environment variable: `1`, or `true` in any ASCII case.
pub open spec fn debug_ops_spec(value: Option<Seq<char>>) -> bool {
    match value {
        Some(v) => v == "1"@ || ascii_lower_seq(v) == "true"@,
        None => false,
    }
}

/// Reads the counters' switch (`v == "1" || v.eq_ignore_ascii_case("true")`).
pub fn debug_ops_enabled(value: Option<&str>) -> (on: bool)
    ensures
        on == debug_ops_spec(match value { Some(v) => Some(v@), None => None }),
{
    match value {
        Some(v) => {
            if str_eq(v, "1") {
                true
            } else {
                let l = to_ascii_lowercase(v);
                str_eq(l.as_str(), "true")
            }
        },
        None => false,
    }
}

/// Per-append round trips and statements, counted when switched on.
#[derive(Clone, Copy, Debug, PartialEq, Eq, Structural)]
pub struct AppendOpCounters {
    pub round_trips: u64,
    pub ops: u64,
}

impl AppendOpCounters {
    /// Counters at zero.
    pub fn new() -> (c: Self)
        ensures
            c == (AppendOpCounters { round_trips: 0, ops: 0 }),
    {
        AppendOpCounters { round_trips: 0, ops: 0 }
    }

    /// Record one storage round-trip comprising `ops` statements (counted as
    /// at least one); nothing changes while the counters are off. The counts
    /// wrap around at `u64::MAX`, as atomic additions do.
    pub fn record_round_trip(&mut self, enabled: bool, ops: u64)
        ensures
            !enabled ==> *final(self) == *old(self),
            enabled ==> final(self).round_trips == (old(self).round_trips + 1) % 18446744073709551616,
            enabled ==> final(self).ops == (old(self).ops + if ops >= 1 { ops as int } else { 1 })
                % 18446744073709551616,
    {
        if enabled {
            self.round_trips = self.round_trips.wrapping_add(1);
            let n: u64 = if ops >= 1 { ops } else { 1 };
            self.ops = self.ops.wrapping_add(n);
        }
    }

    /// Reset counters.
    pub fn reset(&mut self)
        ensures
            *final(self) == (AppendOpCounters { round_trips: 0, ops: 0 }),
    {
        self.round_trips = 0;
        self.ops = 0;
    }

    /// Snapshot `(round_trips, ops)`.
    pub fn snapshot(&self) -> (s: (u64, u64))
        ensures
            s == (self.round_trips, self.ops),
    {
        (self.round_trips, self.ops)
    }
}

/// Connection settings for the Scylla backend.
pub struct ScyllaLogConfig {
    /// Contact points (host:port). Driver discovers full topology.
    pub contact_points: Vec<String>,
    /// CQL keyspace for continuum tables.
    pub keyspace: String,
    /// Optional datacenter for DC-aware routing.
    pub datacenter: Option<String>,
    /// Optional username.
    pub username: Option<String>,
    /// Optional password.
    pub password: Option<String>,
}

impl Default for ScyllaLogConfig {
    fn default() -> (c: Self)
        ensures
            c.contact_points@.len() == 1,
            c.contact_points@[0]@ == "127.0.0.1:9042"@,
            c.keyspace@ == "continuum"@,
            c.datacenter is None,
            c.username is None,
            c.password is None,
    {
        let mut contact_points: Vec<String> = Vec::new();
        contact_points.push(owned("127.0.0.1:9042"));
        ScyllaLogConfig {
            contact_points,
            keyspace: owned("continuum"),
            datacenter: None,
            username: None,
            password: None,
        }
    }
}

/// Keyspace placeholder written in the statement templates.
pub const DEFAULT_KEYSPACE_PREFIX: &'static str = "continuum.";

/// A statement template moved into `keyspace`: every `continuum.` becomes `keyspace.`.
pub open spec fn qualify_spec(sql: Seq<char>, keyspace: Seq<char>) -> Seq<char> {
    replace_spec(sql, DEFAULT_KEYSPACE_PREFIX@, keyspace.push('.'))
}

/// Rewrites a statement template for the configured keyspace.
pub fn qualify_keyspace(sql: &str, keyspace: &str) -> (q: String)
    ensures
        q@ == qualify_spec(sql@, keyspace@),
{
    let mut ks_dot = owned(keyspace);
    push_char(&mut ks_dot, '.');
    proof {
        reveal_strlit("continuum.");
    }
    replace_all(sql, DEFAULT_KEYSPACE_PREFIX, ks_dot.as_str())
}

/// Statement templates the backend prepares, in preparation order.
pub open spec fn statement_templates() -> Seq<Seq<char>> {
    seq![
        "SELECT seq FROM continuum.continuum_event_id WHERE stream_key = ? AND event_id = ?"@,
        "INSERT INTO continuum.continuum_event (stream_key, seq, event_id, ts_millis, attempt, actor_ref, payload_ciphertext) VALUES (?, ?, ?, ?, ?, ?, ?)"@,
        "INSERT INTO continuum.continuum_event_id (stream_key, event_id, seq) VALUES (?, ?, ?) IF NOT EXISTS"@,
        "SELECT next_seq FROM continuum.continuum_stream WHERE stream_key = ?"@,
        "INSERT INTO continuum.continuum_stream (stream_key, next_seq) VALUES (?, ?) IF NOT EXISTS"@,
        "UPDATE continuum.continuum_stream SET next_seq = ? WHERE stream_key = ? IF next_seq = ?"@,
        "SELECT seq, event_id, ts_millis, attempt, actor_ref, payload_ciphertext FROM continuum.continuum_event WHERE stream_key = ? AND seq > ? LIMIT ?"@,
        "INSERT INTO continuum.continuum_checkpoint (subscription, stream_key, seq) VALUES (?, ?, ?)"@,
        "SELECT seq FROM continuum.continuum_checkpoint WHERE subscription = ? AND stream_key = ?"@,
        "SELECT COUNT(*) AS cnt FROM continuum.continuum_event WHERE stream_key = ? AND seq < ?"@,
        "DELETE FROM continuum.continuum_event WHERE stream_key = ? AND seq < ?"@,
        "INSERT INTO continuum.continuum_stream_index (topic_prefix, stream_key) VALUES (?, ?)"@,
        "SELECT stream_key FROM continuum.continuum_stream_index WHERE topic_prefix = ?"@
    ]
}

/// How a statement's trailing `seq <op> ?` condition compares a row's
/// sequence number with the bound bound to that `?`.
#[derive(Clone, Copy, Debug, PartialEq, Eq, Structural)]
pub enum SeqBound {
    /// `seq > ?`
    Above,
    /// `seq >= ?`
    AtLeast,
    /// `seq < ?`
    Below,
    /// `seq <= ?`
    AtMost,
    /// `seq = ?`
    Equal,
}

/// Whether a row numbered `seq` passes the condition against `bound`.
pub open spec fn bound_holds(b: SeqBound, seq: int, bound: int) -> bool {
    match b {
        SeqBound::Above => seq > bound,
        SeqBound::AtLeast => seq >= bound,
        SeqBound::Below => seq < bound,
        SeqBound::AtMost => seq <= bound,
        SeqBound::Equal => seq == bound,
    }
}

/// `s` ends with `t`.
pub open spec fn ends_with(s: Seq<char>, t: Seq<char>) -> bool {
    t.len() <= s.len() && s.subrange(s.len() - t.len(), s.len() as int) == t
}

/// The sequence-number condition a statement ends with (before an optional
/// ` LIMIT ?`), read off its text.
pub open spec fn seq_condition(stmt: Seq<char>) -> Option<SeqBound> {
    let core = if ends_with(stmt, " LIMIT ?"@) { stmt.subrange(0, stmt.len() - 8) } else { stmt };
    if ends_with(core, " seq > ?"@) {
        Some(SeqBound::Above)
    } else if ends_with(core, " seq >= ?"@) {
        Some(SeqBound::AtLeast)
    } else if ends_with(core, " seq < ?"@) {
        Some(SeqBound::Below)
    } else if ends_with(core, " seq <= ?"@) {
        Some(SeqBound::AtMost)
    } else if ends_with(core, " seq = ?"@) {
        Some(SeqBound::Equal)
    } else {
        None
    }
}

/// How many rows of `s` pass a condition against `bound`.
pub open spec fn rows_matching(s: Seq<EventRecordView>, b: SeqBound, bound: int) -> nat
    decreases s.len(),
{
    if s.len() == 0 {
        0
    } else {
        rows_matching(s.drop_last(), b, bound) + if bound_holds(b, s.last().seq as int, bound) {
            1nat
        } else {
            0nat
        }
    }
}

/// The event-read statement (the seventh prepared) asks for exactly the rows
/// a stream read returns: its condition holds of a row just when the row's
/// number is strictly above the bound, so for every stream the rows it
/// selects with bound `after` are the records `records_after` keeps (the
/// record at `after` itself is not returned again). Under the default
/// keyspace it is prepared as written.
pub proof fn lemma_read_statement_selects_after(s: Seq<EventRecordView>, after: i64)
    ensures
        seq_condition(statement_templates()[6]) is Some,
        forall|seq: int, bound: int|
            #[trigger] bound_holds(seq_condition(statement_templates()[6])->0, seq, bound) <==> seq > bound,
        forall|r: EventRecordView| #[trigger] records_after(s, after).contains(r) <==> (s.contains(r)
            && bound_holds(seq_condition(statement_templates()[6])->0, r.seq as int, after as int)),
        qualify_spec(statement_templates()[6], "continuum"@) == statement_templates()[6],
{
    reveal_strlit("SELECT seq, event_id, ts_millis, attempt, actor_ref, payload_ciphertext FROM continuum.continuum_event WHERE stream_key = ? AND seq > ? LIMIT ?");
    reveal_strlit(" LIMIT ?");
    reveal_strlit(" seq > ?");
    let stmt = statement_templates()[6];
    assert(stmt.subrange(stmt.len() - 8, stmt.len() as int) =~= " LIMIT ?"@);
    let core = stmt.subrange(0, stmt.len() - 8);
    assert(core.subrange(core.len() - 8, core.len() as int) =~= " seq > ?"@);
    assert(seq_condition(stmt) == Some(SeqBound::Above));
    crate::memory::lemma_records_after_members(s, after);
    lemma_default_keyspace_unchanged(stmt);
}

/// The truncate statements (the tenth and eleventh prepared: count, then
/// delete) act on exactly the rows truncation drops: their condition holds
/// of a row just when its number is strictly below the cut, so for every
/// stream the rows they leave are the records `records_from` keeps (the
/// record at the cut survives), and the count they report is the number of
/// records truncation removes. Under the default keyspace both are prepared
/// as written.
pub proof fn lemma_truncate_statements_drop_below(s: Seq<EventRecordView>, cut: i64)
    ensures
        seq_condition(statement_templates()[9]) is Some,
        seq_condition(statement_templates()[10]) == seq_condition(statement_templates()[9]),
        forall|seq: int, bound: int|
            #[trigger] bound_holds(seq_condition(statement_templates()[9])->0, seq, bound) <==> seq < bound,
        forall|r: EventRecordView| #[trigger] records_from(s, cut).contains(r) <==> (s.contains(r)
            && !bound_holds(seq_condition(statement_templates()[10])->0, r.seq as int, cut as int)),
        rows_matching(s, seq_condition(statement_templates()[9])->0, cut as int) == s.len() - records_from(s, cut).len(),
        qualify_spec(statement_templates()[9], "continuum"@) == statement_templates()[9],
        qualify_spec(statement_templates()[10], "continuum"@) == statement_templates()[10],
{
    reveal_strlit("SELECT COUNT(*) AS cnt FROM continuum.continuum_event WHERE stream_key = ? AND seq < ?");
    reveal_strlit("DELETE FROM continuum.continuum_event WHERE stream_key = ? AND seq < ?");
    reveal_strlit(" LIMIT ?");
    reveal_strlit(" seq > ?");
    reveal_strlit(" seq >= ?");
    reveal_strlit(" seq < ?");
    let c = statement_templates()[9];
    let d = statement_templates()[10];
    assert(c.subrange(c.len() - 8, c.len() as int)[1] != " LIMIT ?"@[1]);
    assert(c.subrange(c.len() - 8, c.len() as int)[5] != " seq > ?"@[5]);
    assert(c.subrange(c.len() - 9, c.len() as int)[0] != " seq >= ?"@[0]);
    assert(c.subrange(c.len() - 8, c.len() as int) =~= " seq < ?"@);
    assert(seq_condition(c) == Some(SeqBound::Below));
    assert(d.subrange(d.len() - 8, d.len() as int)[1] != " LIMIT ?"@[1]);
    assert(d.subrange(d.len() - 8, d.len() as int)[5] != " seq > ?"@[5]);
    assert(d.subrange(d.len() - 9, d.len() as int)[0] != " seq >= ?"@[0]);
    assert(d.subrange(d.len() - 8, d.len() as int) =~= " seq < ?"@);
    assert(seq_condition(d) == Some(SeqBound::Below));
    crate::memory::lemma_records_from_members(s, cut);
    lemma_rows_below_removed(s, cut);
    lemma_default_keyspace_unchanged(c);
    lemma_default_keyspace_unchanged(d);
}

proof fn lemma_rows_below_removed(s: Seq<EventRecordView>, cut: i64)
    ensures
        rows_matching(s, SeqBound::Below, cut as int) + records_from(s, cut).len() == s.len(),
    decreases s.len(),
{
    if s.len() > 0 {
        lemma_rows_below_removed(s.drop_last(), cut);
    }
}

/// The statements the backend prepares for a keyspace, in order: event-id
/// lookup, event insert, event-id insert (LWT), stream counter read, stream
/// row insert (LWT), counter compare-and-set, event read, checkpoint upsert,
/// checkpoint read, truncate count, truncate delete, stream-index insert and
/// stream-index read.
pub fn prepared_statements(keyspace: &str) -> (stmts: Vec<String>)
    ensures
        stmts@.len() == statement_templates().len(),
        forall|i: int| 0 <= i < stmts@.len() ==> #[trigger] stmts@[i]@ == qualify_spec(statement_templates()[i], keyspace@),
{
    let templates: [&'static str; 13] = [
        "SELECT seq FROM continuum.continuum_event_id WHERE stream_key = ? AND event_id = ?",
        "INSERT INTO continuum.continuum_event (stream_key, seq, event_id, ts_millis, attempt, actor_ref, payload_ciphertext) VALUES (?, ?, ?, ?, ?, ?, ?)",
        "INSERT INTO continuum.continuum_event_id (stream_key, event_id, seq) VALUES (?, ?, ?) IF NOT EXISTS",
        "SELECT next_seq FROM continuum.continuum_stream WHERE stream_key = ?",
        "INSERT INTO continuum.continuum_stream (stream_key, next_seq) VALUES (?, ?) IF NOT EXISTS",
        "UPDATE continuum.continuum_stream SET next_seq = ? WHERE stream_key = ? IF next_seq = ?",
        "SELECT seq, event_id, ts_millis, attempt, actor_ref, payload_ciphertext FROM continuum.continuum_event WHERE stream_key = ? AND seq > ? LIMIT ?",
        "INSERT INTO continuum.continuum_checkpoint (subscription, stream_key, seq) VALUES (?, ?, ?)",
        "SELECT seq FROM continuum.continuum_checkpoint WHERE subscription = ? AND stream_key = ?",
        "SELECT COUNT(*) AS cnt FROM continuum.continuum_event WHERE stream_key = ? AND seq < ?",
        "DELETE FROM continuum.continuum_event WHERE stream_key = ? AND seq < ?",
        "INSERT INTO continuum.continuum_stream_index (topic_prefix, stream_key) VALUES (?, ?)",
        "SELECT stream_key FROM continuum.continuum_stream_index WHERE topic_prefix = ?",
    ];
    let ghost tv = statement_templates();
    assert(templates@.len() == 13);
    assert forall|i: int| 0 <= i < 13 implies #[trigger] templates@[i]@ == tv[i] by {}
    let mut stmts: Vec<String> = Vec::new();
    let mut i: usize = 0;
    while i < 13
        invariant
            i <= 13,
            tv == statement_templates(),
            tv.len() == 13,
            templates@.len() == 13,
            forall|j: int| 0 <= j < 13 ==> #[trigger] templates@[j]@ == tv[j],
            stmts@.len() == i,
            forall|j: int| 0 <= j < i ==> #[trigger] stmts@[j]@ == qualify_spec(tv[j], keyspace@),
        decreases 13 - i,
    {
        let q = qualify_keyspace(templates[i], keyspace);
        stmts.push(q);
        i = i + 1;
    }
    stmts
}

/// `CREATE KEYSPACE` for the transport log (single replica, simple strategy).
pub open spec fn create_keyspace_spec(keyspace: Seq<char>) -> Seq<char> {
    "CREATE KEYSPACE IF NOT EXISTS "@ + keyspace
        + " WITH replication = {'class': 'SimpleStrategy', 'replication_factor': 1}"@
}

/// Table DDL after `CREATE TABLE IF NOT EXISTS {keyspace}.`, in creation order.
pub open spec fn table_bodies() -> Seq<Seq<char>> {
    seq![
        "continuum_event (
                stream_key text,
                seq bigint,
                event_id uuid,
                ts_millis bigint,
                attempt int,
                actor_ref text,
                payload_ciphertext blob,
                PRIMARY KEY ((stream_key), seq)
            ) WITH CLUSTERING ORDER BY (seq ASC)"@,
        "continuum_event_id (
                stream_key text,
                event_id uuid,
                seq bigint,
                PRIMARY KEY ((stream_key), event_id)
            )"@,
        "continuum_stream (
                stream_key text PRIMARY KEY,
                next_seq bigint
            )"@,
        "continuum_checkpoint (
                subscription text,
                stream_key text,
                seq bigint,
                PRIMARY KEY ((subscription), stream_key)
            )"@,
        "continuum_stream_index (
                topic_prefix text,
                stream_key text,
                PRIMARY KEY ((topic_prefix), stream_key)
            )"@
    ]
}

/// The CQL that bootstraps a keyspace: the keyspace itself, then five tables.
pub fn schema_cql(keyspace: &str) -> (stmts: Vec<String>)
    ensures
        stmts@.len() == 6,
        stmts@[0]@ == create_keyspace_spec(keyspace@),
        forall|i: int| 0 <= i < 5 ==> #[trigger] stmts@[i + 1]@ == "CREATE TABLE IF NOT EXISTS "@ + keyspace@ + "."@
            + table_bodies()[i],
{
    let mut stmts: Vec<String> = Vec::new();
    let head = concat("CREATE KEYSPACE IF NOT EXISTS ", keyspace);
    stmts.push(concat(head.as_str(), " WITH replication = {'class': 'SimpleStrategy', 'replication_factor': 1}"));
    let bodies: [&'static str; 5] = [
        "continuum_event (
                stream_key text,
                seq bigint,
                event_id uuid,
                ts_millis bigint,
                attempt int,
                actor_ref text,
                payload_ciphertext blob,
                PRIMARY KEY ((stream_key), seq)
            ) WITH CLUSTERING ORDER BY (seq ASC)",
        "continuum_event_id (
                stream_key text,
                event_id uuid,
                seq bigint,
                PRIMARY KEY ((stream_key), event_id)
            )",
        "continuum_stream (
                stream_key text PRIMARY KEY,
                next_seq bigint
            )",
        "continuum_checkpoint (
                subscription text,
                stream_key text,
                seq bigint,
                PRIMARY KEY ((subscription), stream_key)
            )",
        "continuum_stream_index (
                topic_prefix text,
                stream_key text,
                PRIMARY KEY ((topic_prefix), stream_key)
            )",
    ];
    let ghost tb = table_bodies();
    assert forall|i: int| 0 <= i < 5 implies #[trigger] bodies@[i]@ == tb[i] by {}
    let prefix = concat("CREATE TABLE IF NOT EXISTS ", keyspace);
    let mut prefix_dot = prefix;
    push_char(&mut prefix_dot, '.');
    assert(prefix_dot@ == "CREATE TABLE IF NOT EXISTS "@ + keyspace@ + "."@) by {
        reveal_strlit(".");
    }
    let mut i: usize = 0;
    while i < 5
        invariant
            i <= 5,
            tb == table_bodies(),
            bodies@.len() == 5,
            forall|j: int| 0 <= j < 5 ==> #[trigger] bodies@[j]@ == tb[j],
            prefix_dot@ == "CREATE TABLE IF NOT EXISTS "@ + keyspace@ + "."@,
            stmts@.len() == i + 1,
            stmts@[0]@ == create_keyspace_spec(keyspace@),
            forall|j: int| 0 <= j < i ==> #[trigger] stmts@[j + 1]@ == prefix_dot@ + tb[j],
        decreases 5 - i,
    {
        stmts.push(concat(prefix_dot.as_str(), bodies[i]));
        assert(stmts@[i + 1]@ == prefix_dot@ + tb[i as int]);
        i = i + 1;
    }
    stmts
}

/// Row limit sent with a CQL read (`i32::try_from(limit).unwrap_or(i32::MAX)`).
pub fn cql_limit(limit: usize) -> (n: i32)
    ensures
        n == if limit <= i32::MAX { limit as int } else { i32::MAX as int },
{
    if limit <= 2147483647usize {
        limit as i32
    } else {
        i32::MAX
    }
}

/// Attempt counter stored in CQL (`i32::try_from(attempt).unwrap_or(i32::MAX)`).
pub fn cql_attempt(attempt: u32) -> (n: i32)
    ensures
        n == if attempt <= i32::MAX { attempt as int } else { i32::MAX as int },
{
    if attempt <= 2147483647u32 {
        attempt as i32
    } else {
        i32::MAX
    }
}

/// Attempts at reserving a sequence block before giving up.
pub const RESERVE_ATTEMPTS: u32 = 64;

/// What follows one compare-and-set on a stream's counter.
#[derive(Clone, Copy, Debug, PartialEq, Eq, Structural)]
pub enum CasStep {
    /// The counter moved from `current` to `current + size`: this block is ours.
    Reserved(SeqBlock),
    /// Someone else moved it (or the row is missing): try again, creating the
    /// row first when `create_row` holds.
    Retry { create_row: bool },
    /// Out of attempts (after creating the row when `create_row` holds).
    Exhausted { create_row: bool },
}

/// Decides after a compare-and-set that tried to move the counter from
/// `current` to `current + size` on attempt `attempt` (from 0). A result that
/// could not be read counts as applied; a refused update that reports no
/// current value means the stream row is missing.
pub fn cas_step(attempt: u32, current: i64, size: i64, applied: bool, missing_row: bool) -> (step: CasStep)
    requires
        i64::MIN <= current + size <= i64::MAX,
        attempt < RESERVE_ATTEMPTS,
    ensures
        applied ==> step == CasStep::Reserved(SeqBlock { next: current, end: (current + size) as i64 }),
        !applied && attempt + 1 < RESERVE_ATTEMPTS ==> step == (CasStep::Retry { create_row: missing_row }),
        !applied && attempt + 1 >= RESERVE_ATTEMPTS ==> step == (CasStep::Exhausted { create_row: missing_row }),
{
    if applied {
        CasStep::Reserved(SeqBlock { next: current, end: current + size })
    } else if attempt + 1 < RESERVE_ATTEMPTS {
        CasStep::Retry { create_row: missing_row }
    } else {
        CasStep::Exhausted { create_row: missing_row }
    }
}

/// The error once reservation attempts run out.
pub fn reserve_exhausted() -> (e: LogError)
    ensures
        e matches LogError::Conflict(m) && m@ == "scylla seq block reservation CAS exhausted retries"@,
{
    LogError::Conflict(owned("scylla seq block reservation CAS exhausted retries"))
}

/// Sequence number an append reports for one record: the freshly allocated
/// one when its idempotent insert applied, otherwise the one already stored
/// for the event; an insert refused with no stored number is a conflict.
pub fn appended_seq(applied: bool, allocated: LogSeq, existing: Option<LogSeq>) -> (r: Result<LogSeq, LogError>)
    ensures
        applied ==> r == Ok::<LogSeq, LogError>(allocated),
        !applied && existing is Some ==> r == Ok::<LogSeq, LogError>(existing->0),
        !applied && existing is None ==> (r matches Err(LogError::Conflict(m)) && m@
            == "idempotency insert not applied but seq row missing"@),
{
    if applied {
        Ok(allocated)
    } else {
        match existing {
            Some(s) => Ok(s),
            None => Err(LogError::Conflict(owned("idempotency insert not applied but seq row missing"))),
        }
    }
}


/// Whether a lightweight transaction applied, from its `[applied]` row
/// (`applied`, current `next_seq`) when one could be read; a result without a
/// readable row counts as applied.
pub fn lwt_applied(row: Option<(bool, Option<i64>)>) -> (r: bool)
    ensures
        r == match row {
            Some((applied, _)) => applied,
            None => true,
        },
{
    match row {
        Some((applied, _)) => applied,
        None => true,
    }
}

/// Whether a refused compare-and-set found no stream row (it reports no current value).
pub fn lwt_missing_row(row: Option<(bool, Option<i64>)>) -> (r: bool)
    ensures
        r == match row {
            Some((applied, next)) => !applied && next is None,
            None => false,
        },
{
    match row {
        Some((applied, next)) => !applied && next.is_none(),
        None => false,
    }
}


/// Replacing a pattern by itself changes nothing.
proof fn lemma_replace_self(s: Seq<char>, p: Seq<char>)
    ensures
        replace_spec(s, p, p) == s,
    decreases s.len(),
{
    if s.len() > 0 && p.len() > 0 {
        if p.is_prefix_of(s) {
            lemma_replace_self(s.skip(p.len() as int), p);
            assert(p + s.skip(p.len() as int) =~= s);
        } else {
            lemma_replace_self(s.drop_first(), p);
            assert(seq![s[0]] + s.drop_first() =~= s);
        }
    }
}

/// Under the default keyspace `continuum`, every statement is prepared exactly as written.
pub proof fn lemma_default_keyspace_unchanged(sql: Seq<char>)
    ensures
        qualify_spec(sql, "continuum"@) == sql,
{
    reveal_strlit("continuum");
    reveal_strlit("continuum.");
    assert("continuum"@.push('.') =~= DEFAULT_KEYSPACE_PREFIX@);
    lemma_replace_self(sql, DEFAULT_KEYSPACE_PREFIX@);
}

} // verus!
