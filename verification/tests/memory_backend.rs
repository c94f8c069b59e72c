use continuum::memory::InMemoryLogBackend;
use continuum::types::{AppendRecord, LogBackendKind, LogDestination, LogError, LogSeq, LogStreamId, SubscriptionId};

fn stream(topic: &str, key: Option<&str>) -> LogStreamId {
    LogStreamId::new(LogDestination::new("default", LogBackendKind::Memory), topic, key.map(str::to_string))
}

fn rec(id: u128) -> AppendRecord {
    AppendRecord::new(id, vec![id as u8], 1_700_000_000_000)
}

#[test]
fn m1_append_single() {
    let mut b = InMemoryLogBackend::new();
    let seqs = b.append(stream("t", None), &[rec(1)]).unwrap();
    assert_eq!(seqs, vec![LogSeq(1)]);
}

#[test]
fn m2_append_batch() {
    let mut b = InMemoryLogBackend::new();
    let seqs = b.append(stream("t", None), &[rec(1), rec(2), rec(3)]).unwrap();
    assert_eq!(seqs, vec![LogSeq(1), LogSeq(2), LogSeq(3)]);
}

#[test]
fn m3_append_empty() {
    let mut b = InMemoryLogBackend::new();
    assert!(b.append(stream("t", None), &[]).unwrap().is_empty());
    assert!(b.read_from(stream("t", None), LogSeq(0), 10).unwrap().is_empty());
}

#[test]
fn m4_duplicate_event_id() {
    let mut b = InMemoryLogBackend::new();
    let first = b.append(stream("t", None), &[rec(7)]).unwrap();
    let again = b.append(stream("t", None), &[rec(7), rec(8)]).unwrap();
    assert_eq!(first, vec![LogSeq(1)]);
    assert_eq!(again, vec![LogSeq(1), LogSeq(2)]);
    assert_eq!(b.read_from(stream("t", None), LogSeq(0), 10).unwrap().len(), 2);
}

#[test]
fn m5_read_from_start() {
    let mut b = InMemoryLogBackend::new();
    b.append(stream("t", None), &[rec(1), rec(2)]).unwrap();
    let rows = b.read_from(stream("t", None), LogSeq(0), 10).unwrap();
    assert_eq!(rows.iter().map(|r| r.seq).collect::<Vec<_>>(), vec![LogSeq(1), LogSeq(2)]);
    assert_eq!(rows[0].payload_ciphertext, vec![1]);
    assert_eq!(rows[1].event_id, 2);
}

#[test]
fn m6_read_from_mid() {
    let mut b = InMemoryLogBackend::new();
    b.append(stream("t", None), &[rec(1), rec(2), rec(3)]).unwrap();
    let rows = b.read_from(stream("t", None), LogSeq(1), 1).unwrap();
    assert_eq!(rows.len(), 1);
    assert_eq!(rows[0].seq, LogSeq(2));
}

#[test]
fn m7_read_limit_zero() {
    let mut b = InMemoryLogBackend::new();
    b.append(stream("t", None), &[rec(1)]).unwrap();
    assert!(b.read_from(stream("t", None), LogSeq(0), 0).unwrap().is_empty());
}

#[test]
fn m8_read_wrong_stream() {
    let mut b = InMemoryLogBackend::new();
    b.append(stream("t", None), &[rec(1)]).unwrap();
    assert!(b.read_from(stream("other", None), LogSeq(0), 10).unwrap().is_empty());
}

#[test]
fn m9_checkpoint_none() {
    let b = InMemoryLogBackend::new();
    assert_eq!(b.load_checkpoint(&SubscriptionId::new("sub"), stream("t", None)).unwrap(), None);
}

#[test]
fn m10_checkpoint_roundtrip() {
    let mut b = InMemoryLogBackend::new();
    let sub = SubscriptionId::new("sub");
    b.commit_checkpoint(&sub, stream("t", None), LogSeq(5)).unwrap();
    assert_eq!(b.load_checkpoint(&sub, stream("t", None)).unwrap(), Some(LogSeq(5)));
}

#[test]
fn m11_checkpoint_monotonic() {
    let mut b = InMemoryLogBackend::new();
    let sub = SubscriptionId::new("sub");
    b.commit_checkpoint(&sub, stream("t", None), LogSeq(5)).unwrap();
    b.commit_checkpoint(&sub, stream("t", None), LogSeq(3)).unwrap();
    assert_eq!(b.load_checkpoint(&sub, stream("t", None)).unwrap(), Some(LogSeq(5)));
    b.commit_checkpoint(&sub, stream("t", None), LogSeq(9)).unwrap();
    assert_eq!(b.load_checkpoint(&sub, stream("t", None)).unwrap(), Some(LogSeq(9)));
}

#[test]
fn m12_truncate() {
    let mut b = InMemoryLogBackend::new();
    b.append(stream("t", None), &[rec(1), rec(2), rec(3), rec(4)]).unwrap();
    assert_eq!(b.truncate_before(stream("t", None), LogSeq(3)).unwrap(), 2);
    let rows = b.read_from(stream("t", None), LogSeq(0), 10).unwrap();
    assert_eq!(rows.iter().map(|r| r.seq).collect::<Vec<_>>(), vec![LogSeq(3), LogSeq(4)]);
}

#[test]
fn m13_truncate_before_min() {
    let mut b = InMemoryLogBackend::new();
    b.append(stream("t", None), &[rec(1), rec(2)]).unwrap();
    assert_eq!(b.truncate_before(stream("t", None), LogSeq(1)).unwrap(), 0);
    assert_eq!(b.truncate_before(stream("t", None), LogSeq(2)).unwrap(), 1);
    assert_eq!(b.truncate_before(stream("t", None), LogSeq(2)).unwrap(), 0);
    assert_eq!(b.read_from(stream("t", None), LogSeq(0), 10).unwrap().len(), 1);
}

#[test]
fn m14_e2e_lifecycle() {
    let mut b = InMemoryLogBackend::new();
    let sub = SubscriptionId::new("consumer");
    let s = stream("orders", None);
    let seqs = b.append(s.duplicate(), &[rec(1), rec(2), rec(3)]).unwrap();
    let rows = b.read_from(s.duplicate(), LogSeq(0), 2).unwrap();
    assert_eq!(rows.len(), 2);
    b.commit_checkpoint(&sub, s.duplicate(), rows[1].seq).unwrap();
    let cp = b.load_checkpoint(&sub, s.duplicate()).unwrap().unwrap();
    let rest = b.read_from(s.duplicate(), cp, 10).unwrap();
    assert_eq!(rest.len(), 1);
    assert_eq!(rest[0].seq, seqs[2]);
    assert_eq!(b.truncate_before(s.duplicate(), cp).unwrap(), 1);
}

#[test]
fn m15_independent_destinations() {
    let mut b = InMemoryLogBackend::new();
    let a = LogStreamId::new(LogDestination::new("a", LogBackendKind::Memory), "t", None);
    let c = LogStreamId::new(LogDestination::new("c", LogBackendKind::Memory), "t", None);
    assert_eq!(b.append(a.duplicate(), &[rec(1)]).unwrap(), vec![LogSeq(1)]);
    assert_eq!(b.append(c.duplicate(), &[rec(1)]).unwrap(), vec![LogSeq(1)]);
    assert_eq!(b.read_from(a, LogSeq(0), 10).unwrap().len(), 1);
}

#[test]
fn memory_log_backend_empty_topic_rejected() {
    let mut b = InMemoryLogBackend::new();
    assert!(matches!(b.append(stream("", None), &[rec(1)]), Err(LogError::Validation(_))));
}

#[test]
fn memory_log_backend_read_limit_validation() {
    let b = InMemoryLogBackend::new();
    assert!(matches!(b.read_from(stream("t", None), LogSeq(0), 10_001), Err(LogError::Validation(_))));
    assert!(b.read_from(stream("t", None), LogSeq(0), 10_000).is_ok());
    assert!(matches!(
        b.read_from_topic(stream("t", None), None, LogSeq(0), 10_001),
        Err(LogError::Validation(_))
    ));
}

#[test]
fn distinct_partition_keys() {
    let mut b = InMemoryLogBackend::new();
    assert_eq!(b.append(stream("t", Some("k1")), &[rec(1)]).unwrap(), vec![LogSeq(1)]);
    assert_eq!(b.append(stream("t", Some("k2")), &[rec(1)]).unwrap(), vec![LogSeq(1)]);
    assert_eq!(b.read_from(stream("t", Some("k1")), LogSeq(0), 10).unwrap().len(), 1);
}

#[test]
fn memory_log_backend_read_from_topic_all_keys() {
    let mut b = InMemoryLogBackend::new();
    b.append(stream("t", Some("k1")), &[rec(1), rec(2)]).unwrap();
    b.append(stream("t", Some("k2")), &[rec(3)]).unwrap();
    b.append(stream("other", None), &[rec(4)]).unwrap();
    let rows = b.read_from_topic(stream("t", None), None, LogSeq(0), 10).unwrap();
    assert_eq!(rows.len(), 3);
    assert_eq!(rows.iter().map(|r| r.seq).collect::<Vec<_>>(), vec![LogSeq(1), LogSeq(1), LogSeq(2)]);
    assert_eq!(rows[0].key.as_deref(), Some("k1"));
    assert_eq!(rows[1].key.as_deref(), Some("k2"));
}

#[test]
fn memory_log_backend_read_from_topic_single_key() {
    let mut b = InMemoryLogBackend::new();
    b.append(stream("t", Some("k1")), &[rec(1), rec(2)]).unwrap();
    b.append(stream("t", Some("k2")), &[rec(3)]).unwrap();
    let rows = b.read_from_topic(stream("t", None), Some("k2"), LogSeq(0), 10).unwrap();
    assert_eq!(rows.len(), 1);
    assert_eq!(rows[0].event_id, 3);
}

#[test]
fn memory_log_backend_read_from_topic_after_and_limit() {
    let mut b = InMemoryLogBackend::new();
    b.append(stream("t", Some("k1")), &[rec(1), rec(2), rec(3)]).unwrap();
    b.append(stream("t", Some("k2")), &[rec(4), rec(5)]).unwrap();
    let rows = b.read_from_topic(stream("t", None), None, LogSeq(1), 2).unwrap();
    assert_eq!(rows.iter().map(|r| r.seq).collect::<Vec<_>>(), vec![LogSeq(2), LogSeq(2)]);
}

#[test]
fn mixed_batch_of_known_repeated_and_new_ids() {
    let mut b = InMemoryLogBackend::new();
    assert_eq!(b.append(stream("t", None), &[rec(1), rec(2)]).unwrap(), vec![LogSeq(1), LogSeq(2)]);
    let seqs = b.append(stream("t", None), &[rec(2), rec(5), rec(5), rec(1), rec(6)]).unwrap();
    assert_eq!(seqs, vec![LogSeq(2), LogSeq(3), LogSeq(3), LogSeq(1), LogSeq(4)]);
    let rows = b.read_from(stream("t", None), LogSeq(0), 10).unwrap();
    assert_eq!(rows.iter().map(|r| r.event_id).collect::<Vec<_>>(), vec![1, 2, 5, 6]);
}

#[test]
fn empty_or_refused_batches_change_nothing() {
    let mut b = InMemoryLogBackend::new();
    assert!(b.append(stream("", None), &[]).unwrap().is_empty());
    assert!(matches!(b.append(stream("", None), &[rec(1)]), Err(LogError::Validation(_))));
    assert_eq!(b.next_seq(&stream("", None)), 0);
}

#[test]
fn topic_read_returns_lowest_numbers_across_keys() {
    let mut b = InMemoryLogBackend::new();
    b.append(stream("t", Some("a")), &[rec(1), rec(2), rec(3)]).unwrap();
    b.append(stream("t", Some("b")), &[rec(4), rec(5)]).unwrap();
    b.append(stream("u", Some("a")), &[rec(6)]).unwrap();
    let rows = b.read_from_topic(stream("t", None), None, LogSeq(0), 3).unwrap();
    assert_eq!(rows.iter().map(|r| r.seq).collect::<Vec<_>>(), vec![LogSeq(1), LogSeq(1), LogSeq(2)]);
    assert!(rows.iter().all(|r| r.topic == "t"));
    let all = b.read_from_topic(stream("t", None), None, LogSeq(1), 100).unwrap();
    assert_eq!(all.len(), 3);
}

#[test]
fn new_id_count_counts_unseen_ids_once() {
    let mut b = InMemoryLogBackend::new();
    b.append(stream("t", None), &[rec(1), rec(2)]).unwrap();
    assert_eq!(b.new_id_count(&stream("t", None), &[rec(2), rec(5), rec(5), rec(1), rec(6)]), 2);
    assert_eq!(b.new_id_count(&stream("other", None), &[rec(1), rec(1)]), 1);
}
