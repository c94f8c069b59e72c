use continuum::scylla::{
    appended_seq, cas_step, consistency_from_str, cql_attempt, cql_limit, debug_ops_enabled,
    prepared_statements, qualify_keyspace, schema_cql, stream_index_cache_key, AppendOpCounters,
    CasStep, Consistency, IdempotencyMode, IdempotencyPolicy, ScyllaLogConfig,
};
use continuum::seq_alloc::SeqBlock;
use continuum::types::{LogError, LogSeq};

#[test]
fn counters_disabled_by_default() {
    let mut counters = AppendOpCounters::new();
    counters.reset();
    counters.record_round_trip(debug_ops_enabled(None), 3);
    assert_eq!(counters.snapshot(), (0, 0));
}

#[test]
fn counters_when_enabled() {
    let enabled = debug_ops_enabled(Some("1"));
    let mut counters = AppendOpCounters::new();
    counters.reset();
    counters.record_round_trip(enabled, 2);
    counters.record_round_trip(enabled, 1);
    assert_eq!(counters.snapshot(), (2, 3));
}

#[test]
fn counters_switch_values() {
    assert!(debug_ops_enabled(Some("true")));
    assert!(debug_ops_enabled(Some("TRUE")));
    assert!(debug_ops_enabled(Some("True")));
    assert!(!debug_ops_enabled(Some("yes")));
    assert!(!debug_ops_enabled(Some("0")));
    assert!(!debug_ops_enabled(Some("")));
}

#[test]
fn counters_count_zero_ops_as_one_and_wrap() {
    let mut counters = AppendOpCounters { round_trips: u64::MAX, ops: u64::MAX - 1 };
    counters.record_round_trip(true, 0);
    assert_eq!(counters.snapshot(), (0, u64::MAX));
    counters.record_round_trip(true, 2);
    assert_eq!(counters.snapshot(), (1, 1));
}

#[test]
fn idempotency_policy_global() {
    let p = IdempotencyPolicy::Global(IdempotencyMode::NoLwt);
    assert_eq!(p.mode_for("any"), IdempotencyMode::NoLwt);
}

#[test]
fn idempotency_policy_per_topic_override() {
    let overrides = vec![("telemetry".to_string(), IdempotencyMode::NoLwt)];
    let p = IdempotencyPolicy::PerTopic {
        default: IdempotencyMode::Lwt,
        overrides,
    };
    assert_eq!(p.mode_for("payments"), IdempotencyMode::Lwt);
    assert_eq!(p.mode_for("telemetry"), IdempotencyMode::NoLwt);
}

#[test]
fn idempotency_policy_default_is_lwt() {
    assert_eq!(IdempotencyPolicy::default().mode_for("t"), IdempotencyMode::Lwt);
    assert_eq!(IdempotencyMode::default(), IdempotencyMode::Lwt);
}

#[test]
fn write_consistency_parsing() {
    assert_eq!(consistency_from_str("one"), Some(Consistency::One));
    assert_eq!(consistency_from_str("local_one"), Some(Consistency::LocalOne));
    assert_eq!(consistency_from_str(""), None);
}

#[test]
fn write_consistency_trims_and_ignores_case() {
    assert_eq!(consistency_from_str("  ONE "), Some(Consistency::One));
    assert_eq!(consistency_from_str("Quorum"), Some(Consistency::LocalQuorum));
    assert_eq!(consistency_from_str("local_quorum\n"), Some(Consistency::LocalQuorum));
    assert_eq!(consistency_from_str("all"), None);
}

#[test]
fn stream_index_cache_key_format() {
    assert_eq!(
        stream_index_cache_key("router|topic|", "router|topic|key1"),
        "router|topic||router|topic|key1"
    );
}

#[test]
fn scylla_config_defaults() {
    let c = ScyllaLogConfig::default();
    assert_eq!(c.contact_points, vec!["127.0.0.1:9042".to_string()]);
    assert_eq!(c.keyspace, "continuum");
    assert!(c.datacenter.is_none() && c.username.is_none() && c.password.is_none());
}

#[test]
fn keyspace_qualification_replaces_every_prefix() {
    assert_eq!(
        qualify_keyspace("SELECT a FROM continuum.t1 JOIN continuum.t2", "ks"),
        "SELECT a FROM ks.t1 JOIN ks.t2"
    );
    assert_eq!(qualify_keyspace("no prefix here", "ks"), "no prefix here");
    assert_eq!(qualify_keyspace("SELECT a FROM continuum.t1", "continuum"), "SELECT a FROM continuum.t1");
    let stmts = prepared_statements("bench");
    assert_eq!(stmts.len(), 13);
    assert_eq!(
        stmts[0],
        "SELECT seq FROM bench.continuum_event_id WHERE stream_key = ? AND event_id = ?"
    );
    assert_eq!(
        stmts[12],
        "SELECT stream_key FROM bench.continuum_stream_index WHERE topic_prefix = ?"
    );
}

#[test]
fn schema_cql_uses_keyspace() {
    let stmts = schema_cql("ks1");
    assert_eq!(stmts.len(), 6);
    assert_eq!(
        stmts[0],
        "CREATE KEYSPACE IF NOT EXISTS ks1 WITH replication = {'class': 'SimpleStrategy', 'replication_factor': 1}"
    );
    assert!(stmts[1].starts_with("CREATE TABLE IF NOT EXISTS ks1.continuum_event ("));
    assert!(stmts[5].starts_with("CREATE TABLE IF NOT EXISTS ks1.continuum_stream_index ("));
}

#[test]
fn cql_conversions_saturate() {
    assert_eq!(cql_limit(100), 100);
    assert_eq!(cql_limit(usize::MAX), i32::MAX);
    assert_eq!(cql_attempt(3), 3);
    assert_eq!(cql_attempt(u32::MAX), i32::MAX);
}

#[test]
fn cas_steps() {
    assert_eq!(cas_step(0, 10, 64, true, false), CasStep::Reserved(SeqBlock { next: 10, end: 74 }));
    assert_eq!(cas_step(0, 10, 64, false, true), CasStep::Retry { create_row: true });
    assert_eq!(cas_step(63, 10, 64, false, false), CasStep::Exhausted { create_row: false });
}

#[test]
fn appended_seq_cases() {
    assert_eq!(appended_seq(true, LogSeq(5), None).unwrap(), LogSeq(5));
    assert_eq!(appended_seq(false, LogSeq(5), Some(LogSeq(2))).unwrap(), LogSeq(2));
    assert!(matches!(appended_seq(false, LogSeq(5), None), Err(LogError::Conflict(_))));
}

#[test]
fn consistency_parse_reads_the_normalised_form() {
    for s in [" QUORUM ", "local_quorum", "\tOne\n", "LOCAL_one", "all", ""] {
        let normalised = s.trim().to_ascii_lowercase();
        assert_eq!(consistency_from_str(s), consistency_from_str(&normalised));
    }
    assert_eq!(consistency_from_str(" QUORUM "), Some(Consistency::LocalQuorum));
}

#[test]
fn cas_step_takes_any_counter() {
    assert_eq!(cas_step(0, -5, 64, true, false), CasStep::Reserved(SeqBlock { next: -5, end: 59 }));
}
