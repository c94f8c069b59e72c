use continuum::rows::{attempt_from_column, event_id_column, row_to_event, EventRow};
use continuum::seq_alloc::{allocate_seq_range, assign_seqs, fill_positions, new_positions, take_cached, take_reserved, usize_as_i64, SeqBlock};
use continuum::sql::{bind_sql, bootstrap_needs_lock, event_table, like_prefix, map_db_failure, map_err, removed_count, schema_statements, DbFailure, SqlDialect};
use continuum::surreal::{count_as_i64, SurrealLogConfig};
use continuum::tikv_keys::{
    checkpoint_key, decode_seq, encode_seq, event_key, event_prefix, idempotency_key, meta_key,
    scan_end, seq_from_event_key, stream_key_from_topic_index, topic_index_prefix, topic_stream_key,
};
use continuum::tikv_raw::{append_write_should_retry, engine_path, is_conflict_text, reservation_should_retry, scan_limit};
use continuum::topic_read::{key_of_stream, merge_stream_reads, row_key, TopicGather};
use continuum::types::{
    AppendRecord, EventRecord, LogBackendKind, LogDestination, LogError, LogSeq, LogStreamId, SubscriptionId,
};

#[test]
fn tikv_key_layout() {
    assert_eq!(meta_key("r|t|k"), "continuum/s/r|t|k/meta");
    assert_eq!(event_prefix("r|t|k"), "continuum/s/r|t|k/e/");
    assert_eq!(event_key("r|t|k", LogSeq(42)), "continuum/s/r|t|k/e/00000000000000000042");
    assert_eq!(
        idempotency_key("sk", 0x0123_4567_89ab_cdef_0123_4567_89ab_cdef),
        "continuum/s/sk/id/01234567-89ab-cdef-0123-456789abcdef"
    );
    assert_eq!(checkpoint_key(&SubscriptionId::new("sub"), "sk"), "continuum/cp/sub/sk");
    assert_eq!(topic_index_prefix("r|t|"), "continuum/topic/r|t|/streams/");
    assert_eq!(topic_stream_key("r|t|", "r|t|k"), "continuum/topic/r|t|/streams/r|t|k");
    assert_eq!(scan_end("ab"), vec![b'a', b'b', 0xff]);
}

#[test]
fn tikv_keys_read_back() {
    let k = event_key("r|t|k", LogSeq(7));
    assert_eq!(seq_from_event_key(k.as_bytes()).unwrap(), LogSeq(7));
    assert!(matches!(seq_from_event_key(b"continuum/s/x/e/abc"), Err(LogError::Backend(_))));
    assert!(matches!(seq_from_event_key(&[0xff, 0xfe]), Err(LogError::Backend(_))));
    let idx = topic_stream_key("r|t|", "r|t|k1");
    assert_eq!(stream_key_from_topic_index(idx.as_bytes(), "r|t|").unwrap(), "r|t|k1");
    assert!(matches!(stream_key_from_topic_index(b"elsewhere", "r|t|"), Err(LogError::Backend(_))));
}

#[test]
fn seq_bytes_roundtrip() {
    for s in [0i64, 1, 255, 256, -1, i64::MAX, i64::MIN] {
        let bytes = encode_seq(LogSeq(s));
        assert_eq!(bytes, s.to_le_bytes().to_vec());
        assert_eq!(decode_seq(&bytes), Ok(LogSeq(s)));
    }
    assert_eq!(decode_seq(&[1, 2, 3]), Err(()));
}

#[test]
fn stream_keys() {
    let s = LogStreamId::new(LogDestination::new("default", LogBackendKind::Scylla), "topic", Some("k1".to_string()));
    assert_eq!(s.destination.router_key(), "default@scylla");
    assert_eq!(s.storage_key(), "default@scylla|topic|k1");
    let t = LogStreamId::new(LogDestination::new("default", LogBackendKind::TikvRaw), "topic", None);
    assert_eq!(t.storage_key(), "default@tikv-raw|topic|");
}

#[test]
fn sql_binding() {
    assert_eq!(bind_sql(SqlDialect::Sqlite, "a = ? AND b = ?"), "a = ? AND b = ?");
    assert_eq!(bind_sql(SqlDialect::Postgres, "a = ? AND b = ?"), "a = $1 AND b = $2");
    let many = "?,".repeat(12);
    assert_eq!(bind_sql(SqlDialect::Postgres, &many), "$1,$2,$3,$4,$5,$6,$7,$8,$9,$10,$11,$12,");
    assert_eq!(bind_sql(SqlDialect::Postgres, "SELECT 1"), "SELECT 1");
}

#[test]
fn sql_schema() {
    let pg = event_table(SqlDialect::Postgres);
    assert!(pg.contains("payload_ciphertext BYTEA NOT NULL"));
    let lite = event_table(SqlDialect::Sqlite);
    assert!(lite.contains("payload_ciphertext BLOB NOT NULL"));
    assert!(lite.starts_with("\nCREATE TABLE IF NOT EXISTS continuum_event ("));
    let stmts = schema_statements(SqlDialect::Sqlite);
    assert_eq!(stmts.len(), 5);
    assert!(stmts[3].starts_with("CREATE UNIQUE INDEX"));
    assert!(bootstrap_needs_lock(SqlDialect::Postgres));
    assert!(!bootstrap_needs_lock(SqlDialect::Sqlite));
    assert_eq!(like_prefix("r|t|"), "r|t|%");
}

#[test]
fn sql_error_mapping() {
    let e = map_db_failure(DbFailure { unique_violation: Some("dup".to_string()), text: "x".to_string() });
    assert!(matches!(e, LogError::Conflict(m) if m == "dup"));
    let e = map_db_failure(DbFailure { unique_violation: None, text: "boom".to_string() });
    assert!(matches!(e, LogError::Backend(m) if m == "boom"));
    assert_eq!(removed_count(3), 3);
    assert_eq!(removed_count(-1), u64::MAX);
}

#[test]
fn topic_keys_of_streams() {
    assert_eq!(key_of_stream("r|t|k1", "r|t|").as_deref(), Some("k1"));
    assert_eq!(key_of_stream("r|t|", "r|t|"), None);
    assert_eq!(key_of_stream("r|u|k1", "r|t|"), None);
    assert_eq!(row_key(None, "r|t|"), None);
    assert_eq!(row_key(Some("r|t|k2"), "r|t|").as_deref(), Some("k2"));
}

fn event(seq: i64, id: u128) -> EventRecord {
    let s = LogStreamId::new(LogDestination::new("d", LogBackendKind::Scylla), "t", None);
    EventRecord::stored(&s, &AppendRecord::new(id, vec![], 0), LogSeq(seq))
}

#[test]
fn merged_topic_reads() {
    let parts = vec![vec![event(3, 1), event(5, 2)], vec![event(1, 3)], vec![event(2, 4)]];
    let rows = merge_stream_reads(parts, 3);
    // the second stream brings the count to the limit; the third is not read
    assert_eq!(rows.iter().map(|r| r.seq.0).collect::<Vec<_>>(), vec![1, 3, 5]);
    let rows = merge_stream_reads(vec![vec![event(4, 1)], vec![event(2, 2)]], 10);
    assert_eq!(rows.iter().map(|r| r.seq.0).collect::<Vec<_>>(), vec![2, 4]);
    let mut g = TopicGather::new(2);
    assert!(!g.absorb(vec![event(9, 1)]));
    assert!(g.absorb(vec![event(8, 2), event(7, 3)]));
    assert_eq!(g.finish().iter().map(|r| r.seq.0).collect::<Vec<_>>(), vec![7, 8]);
}

#[test]
fn sequence_allocation() {
    assert_eq!(allocate_seq_range(10, 3), vec![LogSeq(11), LogSeq(12), LogSeq(13)]);
    assert_eq!(usize_as_i64(5), 5);
    let mut b = SeqBlock::reserved(0, 64);
    assert_eq!(b.take_one(), Some(LogSeq(1)));
    assert_eq!(b.take_up_to(2), vec![LogSeq(2), LogSeq(3)]);
    assert_eq!(b.available(), 61);
    let mut cache = Some(SeqBlock { next: 62, end: 64 });
    assert_eq!(take_cached(&mut cache, 5), vec![LogSeq(63), LogSeq(64)]);
    assert_eq!(cache, Some(SeqBlock { next: 64, end: 64 }));
    assert!(take_cached(&mut cache, 5).is_empty());
    let (seqs, rest) = take_reserved(SeqBlock { next: 64, end: 128 }, 3);
    assert_eq!(seqs, vec![LogSeq(65), LogSeq(66), LogSeq(67)]);
    assert_eq!(rest, Some(SeqBlock { next: 67, end: 128 }));
    let (_, none) = take_reserved(SeqBlock { next: 0, end: 2 }, 5);
    assert_eq!(none, None);
}

#[test]
fn batch_append_bookkeeping() {
    let mut out = vec![LogSeq(4), LogSeq(0), LogSeq(9), LogSeq(0)];
    let positions = new_positions(&out);
    assert_eq!(positions, vec![1, 3]);
    let fresh = allocate_seq_range(20, positions.len());
    fill_positions(&mut out, &positions, &fresh);
    assert_eq!(out, vec![LogSeq(4), LogSeq(21), LogSeq(9), LogSeq(22)]);
}

#[test]
fn tikv_retry_decisions() {
    assert!(is_conflict_text("txn: write conflict on key"));
    assert!(is_conflict_text("Conflict"));
    assert!(!is_conflict_text("timeout"));
    assert!(reservation_should_retry(0, "write conflict"));
    assert!(!reservation_should_retry(15, "write conflict"));
    assert!(!reservation_should_retry(0, "region unavailable"));
    assert!(append_write_should_retry(3, &LogError::Conflict("race".to_string())));
    assert!(append_write_should_retry(3, &LogError::Backend("KeyError: Conflict".to_string())));
    assert!(!append_write_should_retry(3, &LogError::Backend("io".to_string())));
    assert!(!append_write_should_retry(15, &LogError::Conflict("race".to_string())));
    assert!(!append_write_should_retry(0, &LogError::Validation("bad".to_string())));
    assert_eq!(scan_limit(100), 100);
    assert_eq!(engine_path("127.0.0.1:2379"), "tikv://127.0.0.1:2379");
}

#[test]
fn surreal_settings() {
    let c = SurrealLogConfig::default();
    assert_eq!(c.namespace.as_deref(), Some("continuum"));
    assert_eq!(c.database.as_deref(), Some("transport"));
    assert_eq!(count_as_i64("read limit", 10).unwrap(), 10);
    if usize::MAX as u128 > i64::MAX as u128 {
        match count_as_i64("batch size", usize::MAX) {
            Err(LogError::Validation(m)) => {
                assert_eq!(m, format!("batch size {} exceeds i64::MAX", usize::MAX))
            }
            _ => panic!("expected a validation error"),
        }
    }
}

#[test]
fn rows_read_back_as_records() {
    let s = LogStreamId::new(LogDestination::new("d", LogBackendKind::Sqlite), "t", None);
    let row = EventRow {
        seq: 4,
        event_id: "01234567-89ab-cdef-0123-456789abcdef".to_string(),
        ts_millis: 77,
        attempt: 2,
        actor_ref: Some("actor".to_string()),
        payload_ciphertext: vec![9, 9],
    };
    let rec = row_to_event(&s, Some("k".to_string()), row).unwrap();
    assert_eq!(rec.event_id, 0x0123_4567_89ab_cdef_0123_4567_89ab_cdef);
    assert_eq!(rec.seq, LogSeq(4));
    assert_eq!(rec.key.as_deref(), Some("k"));
    assert_eq!(rec.attempt, 2);
    assert_eq!(rec.actor_ref.as_deref(), Some("actor"));
    let bad = EventRow { seq: 1, event_id: "not-a-uuid".to_string(), ts_millis: 0, attempt: 0, actor_ref: None, payload_ciphertext: vec![] };
    assert!(row_to_event(&s, None, bad).is_none());
    assert_eq!(attempt_from_column(-1), u32::MAX);
}

#[test]
fn event_id_column_reads_back() {
    let s = LogStreamId::new(LogDestination::new("d", LogBackendKind::Sqlite), "t", None);
    let id: u128 = 0x0123_4567_89ab_cdef_0123_4567_89ab_cdef;
    let text = event_id_column(id);
    assert_eq!(text, "01234567-89ab-cdef-0123-456789abcdef");
    let row = EventRow { seq: 1, event_id: text, ts_millis: 0, attempt: 0, actor_ref: None, payload_ciphertext: vec![] };
    assert_eq!(row_to_event(&s, None, row).unwrap().event_id, id);
}

#[test]
fn event_keys_sort_by_sequence_number() {
    let nine = event_key("r|t|", LogSeq(9));
    let ten = event_key("r|t|", LogSeq(10));
    let big = event_key("r|t|", LogSeq(i64::MAX));
    assert!(nine.as_bytes() < ten.as_bytes());
    assert!(ten.as_bytes() < big.as_bytes());
}

#[test]
fn driver_errors_other_than_unique_violations_are_backend_errors() {
    assert!(matches!(map_err(sqlx::Error::RowNotFound), LogError::Backend(_)));
    assert!(matches!(map_err(sqlx::Error::PoolTimedOut), LogError::Backend(_)));
}

#[test]
fn assigned_numbers_keep_known_events_and_number_new_ones_in_order() {
    let found = vec![LogSeq(0), LogSeq(7), LogSeq(0), LogSeq(0), LogSeq(3)];
    let (out, positions) = assign_seqs(found, 40);
    assert_eq!(out, vec![LogSeq(41), LogSeq(7), LogSeq(42), LogSeq(43), LogSeq(3)]);
    assert_eq!(positions, vec![0, 2, 3]);
    let (none_new, p) = assign_seqs(vec![LogSeq(1)], 9);
    assert_eq!(none_new, vec![LogSeq(1)]);
    assert!(p.is_empty());
}
