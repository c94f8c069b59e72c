//! In-memory log backend: idempotent append, ordered reads, monotonic
//! checkpoints and logical truncation, all kept in process memory.

use std::collections::HashMap;

use vstd::prelude::*;

use crate::assoc::{
    assoc_has, assoc_index, assoc_map, keys_unique, lemma_assoc_absent, lemma_assoc_get, lemma_assoc_push,
    lemma_assoc_update,
};
use crate::text::{owned, str_eq};
use crate::types::{
    records_view, stored_record, AppendRecordView, EventRecord, EventRecordView, LogSeq,
    LogStreamId, StreamIdView, AppendRecord, LogError, storage_key_spec, topic_is_valid,
    validate_topic, read_limit_is_valid, validate_read_limit, SubscriptionId, opt_str_view,
};

verus! {

broadcast use vstd::std_specs::hash::group_hash_axioms;

/// Abstract state of one stream.
#[verifier::ext_equal]
pub struct StreamModel {
    /// Last sequence number handed out (0 before the first append).
    pub next_seq: int,
    /// Records still stored, in append order.
    pub records: Seq<EventRecordView>,
    /// Sequence number of every event id ever appended (truncation keeps these).
    pub ids: Map<u128, i64>,
}

/// A stream that was never appended to.
pub open spec fn empty_stream() -> StreamModel {
    StreamModel { next_seq: 0, records: Seq::empty(), ids: Map::empty() }
}

/// Appending one record: a known event id gives back its sequence number and
/// changes nothing; a new one gets the next sequence number and is stored.
pub open spec fn append_one(m: StreamModel, stream: StreamIdView, rec: AppendRecordView) -> (StreamModel, i64) {
    if m.ids.contains_key(rec.event_id) {
        (m, m.ids[rec.event_id])
    } else {
        let seq = (m.next_seq + 1) as i64;
        (
            StreamModel {
                next_seq: m.next_seq + 1,
                records: m.records.push(stored_record(stream, rec, seq)),
                ids: m.ids.insert(rec.event_id, seq),
            },
            seq,
        )
    }
}

/// Appending a batch: the records one after the other, in order.
pub open spec fn append_batch(m: StreamModel, stream: StreamIdView, recs: Seq<AppendRecordView>) -> (StreamModel, Seq<i64>)
    decreases recs.len(),
{
    if recs.len() == 0 {
        (m, Seq::empty())
    } else {
        let (m1, seqs) = append_batch(m, stream, recs.drop_last());
        let (m2, s) = append_one(m1, stream, recs.last());
        (m2, seqs.push(s))
    }
}

/// Record `i` of a batch carries an event id that is neither in the stream
/// yet nor earlier in the batch: it is the one that gets stored.
pub open spec fn first_new(ids: Map<u128, i64>, recs: Seq<AppendRecordView>, i: int) -> bool {
    &&& !ids.contains_key(recs[i].event_id)
    &&& forall|k: int| 0 <= k < i ==> #[trigger] recs[k].event_id != recs[i].event_id
}

/// How many records of `recs` carry a new event id (first occurrences only).
pub open spec fn new_count(ids: Map<u128, i64>, recs: Seq<AppendRecordView>) -> nat
    decreases recs.len(),
{
    if recs.len() == 0 {
        0
    } else {
        new_count(ids, recs.drop_last()) + if first_new(ids, recs, recs.len() - 1) {
            1nat
        } else {
            0nat
        }
    }
}

/// Records whose sequence number is above `after`, in stored order.
pub open spec fn records_after(s: Seq<EventRecordView>, after: i64) -> Seq<EventRecordView>
    decreases s.len(),
{
    if s.len() == 0 {
        s
    } else if s.last().seq > after {
        records_after(s.drop_last(), after).push(s.last())
    } else {
        records_after(s.drop_last(), after)
    }
}

/// Records whose sequence number is at least `floor`, in stored order.
pub open spec fn records_from(s: Seq<EventRecordView>, floor: i64) -> Seq<EventRecordView>
    decreases s.len(),
{
    if s.len() == 0 {
        s
    } else if s.last().seq >= floor {
        records_from(s.drop_last(), floor).push(s.last())
    } else {
        records_from(s.drop_last(), floor)
    }
}

/// The first `limit` records.
pub open spec fn first_n(s: Seq<EventRecordView>, limit: nat) -> Seq<EventRecordView> {
    if s.len() <= limit {
        s
    } else {
        s.take(limit as int)
    }
}

/// What `read_from` returns on a stream: the first `limit` records above `after`.
pub open spec fn read_spec(m: StreamModel, after: i64, limit: nat) -> Seq<EventRecordView> {
    first_n(records_after(m.records, after), limit)
}


proof fn lemma_records_after_step(s: Seq<EventRecordView>, j: int, after: i64)
    requires
        0 <= j < s.len(),
    ensures
        records_after(s.take(j + 1), after) == if s[j].seq > after {
            records_after(s.take(j), after).push(s[j])
        } else {
            records_after(s.take(j), after)
        },
{
    assert(s.take(j + 1).drop_last() =~= s.take(j));
}

proof fn lemma_records_after_prefix(s: Seq<EventRecordView>, j: int, after: i64)
    requires
        0 <= j <= s.len(),
    ensures
        records_after(s.take(j), after).len() <= records_after(s, after).len(),
        records_after(s.take(j), after) == records_after(s, after).take(
            records_after(s.take(j), after).len() as int,
        ),
    decreases s.len(),
{
    if j == s.len() {
        assert(s.take(j) =~= s);
    } else {
        let t = s.drop_last();
        assert(s.take(j) =~= t.take(j));
        lemma_records_after_prefix(t, j, after);
    }
}

proof fn lemma_records_from_step(s: Seq<EventRecordView>, j: int, floor: i64)
    requires
        0 <= j < s.len(),
    ensures
        records_from(s.take(j + 1), floor) == if s[j].seq >= floor {
            records_from(s.take(j), floor).push(s[j])
        } else {
            records_from(s.take(j), floor)
        },
{
    assert(s.take(j + 1).drop_last() =~= s.take(j));
}

proof fn lemma_records_from_len(s: Seq<EventRecordView>, floor: i64)
    ensures
        records_from(s, floor).len() <= s.len(),
    decreases s.len(),
{
    if s.len() > 0 {
        lemma_records_from_len(s.drop_last(), floor);
    }
}

#[verifier::spinoff_prover]
proof fn lemma_records_from_subseq(s: Seq<EventRecordView>, floor: i64)
    ensures
        forall|i: int| 0 <= i < records_from(s, floor).len() ==> exists|k: int|
            0 <= k < s.len() && #[trigger] records_from(s, floor)[i] == s[k] && s[k].seq >= floor,
    decreases s.len(),
{
    if s.len() > 0 {
        lemma_records_from_subseq(s.drop_last(), floor);
        let r = records_from(s, floor);
        let r0 = records_from(s.drop_last(), floor);
        assert forall|i: int| 0 <= i < r.len() implies exists|k: int|
            0 <= k < s.len() && #[trigger] r[i] == s[k] && s[k].seq >= floor by {
            if i < r0.len() {
                let k = choose|k: int| 0 <= k < s.drop_last().len() && r0[i] == s.drop_last()[k] && s.drop_last()[k].seq >= floor;
                assert(r[i] == s[k]);
            } else {
                assert(r[i] == s[s.len() - 1]);
            }
        }
    }
}

proof fn lemma_records_from_order(s: Seq<EventRecordView>, floor: i64)
    requires
        forall|i: int, j: int| 0 <= i < j < s.len() ==> #[trigger] s[i].seq < #[trigger] s[j].seq,
    ensures
        forall|i: int, j: int|
            0 <= i < j < records_from(s, floor).len() ==> #[trigger] records_from(s, floor)[i].seq
                < #[trigger] records_from(s, floor)[j].seq,
    decreases s.len(),
{
    if s.len() > 0 {
        let t = s.drop_last();
        lemma_records_from_order(t, floor);
        lemma_records_from_subseq(t, floor);
        let r = records_from(s, floor);
        let r0 = records_from(t, floor);
        assert forall|i: int, j: int| 0 <= i < j < r.len() implies #[trigger] r[i].seq < #[trigger] r[j].seq by {
            if j >= r0.len() {
                let k = choose|k: int| 0 <= k < t.len() && r0[i] == t[k] && t[k].seq >= floor;
                assert(s[k] == t[k]);
                assert(r[j] == s[s.len() - 1]);
            }
        }
    }
}

/// Record sequence numbers strictly increase, all lie in `1..=next_seq`, and
/// every stored record's event id maps to its sequence number.
pub open spec fn stream_wf(m: StreamModel) -> bool {
    &&& 0 <= m.next_seq <= i64::MAX
    &&& forall|i: int, j: int|
        0 <= i < j < m.records.len() ==> #[trigger] m.records[i].seq < #[trigger] m.records[j].seq
    &&& forall|i: int|
        0 <= i < m.records.len() ==> 1 <= #[trigger] m.records[i].seq <= m.next_seq
    &&& forall|id: u128| #[trigger]
        m.ids.contains_key(id) ==> 1 <= m.ids[id] <= m.next_seq
    &&& forall|i: int|
        0 <= i < m.records.len() ==> m.ids.contains_key(#[trigger] m.records[i].event_id)
            && m.ids[m.records[i].event_id] == m.records[i].seq
}

/// The stream a stored record was appended to, read off its own fields.
pub open spec fn record_stream(r: EventRecordView) -> StreamIdView {
    StreamIdView { destination: r.destination, topic: r.topic, key: r.key }
}

/// Every record of `m` was appended to a stream whose storage key is `key`.
pub open spec fn stream_keyed(m: StreamModel, key: Seq<char>) -> bool {
    forall|j: int| 0 <= j < m.records.len() ==> storage_key_spec(record_stream(#[trigger] m.records[j])) == key
}

/// Appending to a stream keeps its records keyed by that stream.
proof fn lemma_append_batch_keyed(m: StreamModel, stream: StreamIdView, recs: Seq<AppendRecordView>)
    requires
        stream_keyed(m, storage_key_spec(stream)),
    ensures
        stream_keyed(append_batch(m, stream, recs).0, storage_key_spec(stream)),
    decreases recs.len(),
{
    if recs.len() > 0 {
        lemma_append_batch_keyed(m, stream, recs.drop_last());
        let m1 = append_batch(m, stream, recs.drop_last()).0;
        let m2 = append_one(m1, stream, recs.last()).0;
        assert forall|j: int| 0 <= j < m2.records.len() implies storage_key_spec(
            record_stream(#[trigger] m2.records[j]),
        ) == storage_key_spec(stream) by {
            if j < m1.records.len() {
                assert(m2.records[j] == m1.records[j]);
            } else {
                assert(record_stream(m2.records[j]) == stream);
            }
        }
    }
}

/// The value a checkpoint holds after a commit of `seq`: the larger of the
/// stored one and `seq`.
pub open spec fn committed_value(current: Option<i64>, seq: i64) -> i64 {
    match current {
        Some(c) => if seq > c { seq } else { c },
        None => seq,
    }
}

/// Abstract state of the whole backend.
#[verifier::ext_equal]
pub struct MemoryLogModel {
    /// Streams by storage key.
    pub streams: Map<Seq<char>, StreamModel>,
    /// Committed checkpoints by (subscription, storage key).
    pub checkpoints: Map<(Seq<char>, Seq<char>), i64>,
    /// Truncation floors by storage key.
    pub floors: Map<Seq<char>, i64>,
}

impl MemoryLogModel {
    /// The stream stored under `key`, or an empty one.
    pub open spec fn stream(self, key: Seq<char>) -> StreamModel {
        if self.streams.contains_key(key) {
            self.streams[key]
        } else {
            empty_stream()
        }
    }

    /// The truncation floor of `key` (0 when never truncated).
    pub open spec fn floor(self, key: Seq<char>) -> i64 {
        if self.floors.contains_key(key) {
            self.floors[key]
        } else {
            0
        }
    }

    /// The checkpoint of `sub` on `key`, if one was committed.
    pub open spec fn checkpoint(self, sub: Seq<char>, key: Seq<char>) -> Option<i64> {
        if self.checkpoints.contains_key((sub, key)) {
            Some(self.checkpoints[(sub, key)])
        } else {
            None
        }
    }
}

struct StreamState {
    key: String,
    next_seq: i64,
    records: Vec<EventRecord>,
    event_ids: HashMap<u128, i64>,
}

impl StreamState {
    spec fn model(&self) -> StreamModel {
        StreamModel {
            next_seq: self.next_seq as int,
            records: records_view(self.records@),
            ids: self.event_ids@,
        }
    }
}


/// Views of the records of a batch.
pub open spec fn append_views(s: Seq<AppendRecord>) -> Seq<AppendRecordView> {
    s.map_values(|r: AppendRecord| r@)
}

/// Sequence numbers of a result.
pub open spec fn seqs_view(s: Seq<LogSeq>) -> Seq<i64> {
    s.map_values(|q: LogSeq| q.0)
}

proof fn lemma_append_one_wf(m: StreamModel, stream: StreamIdView, rec: AppendRecordView)
    requires
        stream_wf(m),
        !m.ids.contains_key(rec.event_id) ==> m.next_seq < i64::MAX,
    ensures
        stream_wf(append_one(m, stream, rec).0),
        append_one(m, stream, rec).0.next_seq <= m.next_seq + 1,
{
    if !m.ids.contains_key(rec.event_id) {
        let m2 = append_one(m, stream, rec).0;
        assert forall|i: int| 0 <= i < m2.records.len() implies m2.ids.contains_key(
            #[trigger] m2.records[i].event_id,
        ) && m2.ids[m2.records[i].event_id] == m2.records[i].seq by {
            if i < m.records.len() {
                assert(m2.records[i] == m.records[i]);
                assert(m.ids.contains_key(m.records[i].event_id));
            }
        }
    }
}

/// A prefix of a batch holds no more new ids than the whole batch.
proof fn lemma_new_count_prefix(ids: Map<u128, i64>, recs: Seq<AppendRecordView>, i: int)
    requires
        0 <= i <= recs.len(),
    ensures
        new_count(ids, recs.take(i)) <= new_count(ids, recs),
    decreases recs.len(),
{
    if i == recs.len() {
        assert(recs.take(i) =~= recs);
    } else {
        lemma_new_count_prefix(ids, recs.drop_last(), i);
        assert(recs.drop_last().take(i) =~= recs.take(i));
    }
}

/// Record `i` is new exactly when its id is neither in `ids` nor earlier in the batch.
proof fn lemma_new_count_step(ids: Map<u128, i64>, recs: Seq<AppendRecordView>, i: int)
    requires
        0 <= i < recs.len(),
    ensures
        new_count(ids, recs.take(i + 1)) == new_count(ids, recs.take(i)) + if first_new(ids, recs, i) {
            1nat
        } else {
            0nat
        },
{
    let t = recs.take(i + 1);
    assert(t.drop_last() =~= recs.take(i));
    assert(t[i] == recs[i]);
    if first_new(ids, recs, i) {
        assert forall|k: int| 0 <= k < i implies #[trigger] t[k].event_id != t[i].event_id by {
            assert(t[k] == recs[k]);
        }
    }
    if first_new(ids, t, i) {
        assert forall|k: int| 0 <= k < i implies #[trigger] recs[k].event_id != recs[i].event_id by {
            assert(t[k] == recs[k]);
        }
    }
}

fn append_to_state(state: &mut StreamState, stream: &LogStreamId, records: &[AppendRecord]) -> (out: Vec<LogSeq>)
    requires
        stream_wf(old(state).model()),
        old(state).next_seq + new_count(old(state).model().ids, append_views(records@)) <= i64::MAX,
    ensures
        final(state).key == old(state).key,
        stream_wf(final(state).model()),
        (final(state).model(), seqs_view(out@)) == append_batch(
            old(state).model(),
            stream@,
            append_views(records@),
        ),
{
    let ghost m0 = state.model();
    let ghost recs = append_views(records@);
    let mut out: Vec<LogSeq> = Vec::new();
    let mut i: usize = 0;
    assert(recs.take(0) =~= Seq::<AppendRecordView>::empty());
    while i < records.len()
        invariant
            i <= records@.len(),
            recs == append_views(records@),
            state.key == old(state).key,
            stream_wf(state.model()),
            stream_wf(m0),
            m0.next_seq + new_count(m0.ids, recs) <= i64::MAX,
            (state.model(), seqs_view(out@)) == append_batch(m0, stream@, recs.take(i as int)),
        decreases records@.len() - i,
    {
        let rec = &records[i];
        let ghost before = state.model();
        assert(recs.take(i + 1).drop_last() =~= recs.take(i as int));
        assert(recs.take(i + 1).last() == rec@);
        proof {
            let pre = recs.take(i as int);
            lemma_new_count_prefix(m0.ids, recs, i as int);
            lemma_new_count_prefix(m0.ids, recs, i + 1);
            lemma_new_count_step(m0.ids, recs, i as int);
            crate::laws_memory::lemma_append_mixed_batch(m0, stream@, pre);
            assert(recs[i as int] == rec@);
            if !before.ids.contains_key(rec@.event_id) {
                assert forall|k: int| 0 <= k < i implies #[trigger] recs[k].event_id != recs[i as int].event_id by {
                    assert(pre[k] == recs[k]);
                }
                assert(first_new(m0.ids, recs, i as int));
            }
            lemma_append_one_wf(before, stream@, rec@);
        }
        match state.event_ids.get(&rec.event_id) {
            Some(s) => {
                out.push(LogSeq(*s));
            },
            None => {
                state.next_seq = state.next_seq + 1;
                let seq = state.next_seq;
                state.event_ids.insert(rec.event_id, seq);
                let stored = EventRecord::stored(stream, rec, LogSeq(seq));
                state.records.push(stored);
                out.push(LogSeq(seq));
                assert(records_view(state.records@) =~= before.records.push(
                    stored_record(stream@, rec@, seq),
                ));
            },
        }
        assert(seqs_view(out@) =~= append_batch(m0, stream@, recs.take(i as int)).1.push(
            append_one(before, stream@, rec@).1,
        ));
        i = i + 1;
    }
    assert(recs.take(records@.len() as int) =~= recs);
    out
}


/// Whether a record belongs to a topic read: same destination and topic,
/// above `after`, and with the requested partition key when one is given.
pub open spec fn topic_match(r: EventRecordView, stream: StreamIdView, topic_key: Option<Seq<char>>, after: i64) -> bool {
    &&& r.destination == stream.destination
    &&& r.topic == stream.topic
    &&& r.seq > after
    &&& match topic_key {
        None => true,
        Some(k) => r.key == Some(k),
    }
}

/// The records of `s` that belong to a topic read, in order.
pub open spec fn select_matching(s: Seq<EventRecordView>, stream: StreamIdView, topic_key: Option<Seq<char>>, after: i64) -> Seq<EventRecordView>
    decreases s.len(),
{
    if s.len() == 0 {
        s
    } else if topic_match(s.last(), stream, topic_key, after) {
        select_matching(s.drop_last(), stream, topic_key, after).push(s.last())
    } else {
        select_matching(s.drop_last(), stream, topic_key, after)
    }
}

/// Sequence numbers never decrease along `s`.
pub open spec fn sorted_by_seq(s: Seq<EventRecordView>) -> bool {
    forall|i: int, j: int| 0 <= i < j < s.len() ==> #[trigger] s[i].seq <= #[trigger] s[j].seq
}

/// Inserts `x` after every record whose sequence number is not above its own.
pub open spec fn insert_by_seq(s: Seq<EventRecordView>, x: EventRecordView) -> Seq<EventRecordView>
    decreases s.len(),
{
    if s.len() == 0 {
        seq![x]
    } else if s.last().seq <= x.seq {
        s.push(x)
    } else {
        insert_by_seq(s.drop_last(), x).push(s.last())
    }
}

/// Stable sort by sequence number.
pub open spec fn sort_by_seq(s: Seq<EventRecordView>) -> Seq<EventRecordView>
    decreases s.len(),
{
    if s.len() == 0 {
        s
    } else {
        insert_by_seq(sort_by_seq(s.drop_last()), s.last())
    }
}

proof fn lemma_insert_at(s: Seq<EventRecordView>, x: EventRecordView, p: int)
    requires
        sorted_by_seq(s),
        0 <= p <= s.len(),
        forall|q: int| 0 <= q < p ==> #[trigger] s[q].seq <= x.seq,
        p == s.len() || s[p].seq > x.seq,
    ensures
        insert_by_seq(s, x) == s.insert(p, x),
        sorted_by_seq(s.insert(p, x)),
    decreases s.len(),
{
    let t = s.insert(p, x);
    assert forall|i: int, j: int| 0 <= i < j < t.len() implies #[trigger] t[i].seq <= #[trigger] t[j].seq by {
        if i < p && j == p {
        } else if i == p && j > p {
            assert(t[j] == s[j - 1]);
        } else if i < p && j > p {
            assert(t[j] == s[j - 1]);
        } else if i > p {
            assert(t[i] == s[i - 1] && t[j] == s[j - 1]);
        }
    }
    if s.len() == 0 {
        assert(t =~= seq![x]);
    } else if s.last().seq <= x.seq {
        assert(p == s.len()) by {
            if p < s.len() {
                assert(s[p].seq <= s[s.len() - 1].seq);
            }
        }
        assert(t =~= s.push(x));
    } else {
        assert(p < s.len());
        let d = s.drop_last();
        assert(sorted_by_seq(d));
        lemma_insert_at(d, x, p);
        assert(t =~= d.insert(p, x).push(s.last()));
    }
}

proof fn lemma_sort_sorted(s: Seq<EventRecordView>)
    ensures
        sorted_by_seq(sort_by_seq(s)),
        sort_by_seq(s).len() == s.len(),
    decreases s.len(),
{
    if s.len() > 0 {
        let d = sort_by_seq(s.drop_last());
        lemma_sort_sorted(s.drop_last());
        let x = s.last();
        let p = first_above(d, x.seq, 0);
        lemma_first_above(d, x.seq, 0);
        lemma_insert_at(d, x, p);
    }
}

/// Position of the first record from `start` on with a sequence number above `seq`.
spec fn first_above(s: Seq<EventRecordView>, seq: i64, start: int) -> int
    decreases s.len() - start,
{
    if start >= s.len() {
        s.len() as int
    } else if s[start].seq > seq {
        start
    } else {
        first_above(s, seq, start + 1)
    }
}

proof fn lemma_first_above(s: Seq<EventRecordView>, seq: i64, start: int)
    requires
        0 <= start <= s.len(),
        forall|q: int| 0 <= q < start ==> #[trigger] s[q].seq <= seq,
    ensures
        start <= first_above(s, seq, start) <= s.len(),
        forall|q: int| 0 <= q < first_above(s, seq, start) ==> #[trigger] s[q].seq <= seq,
        first_above(s, seq, start) == s.len() || s[first_above(s, seq, start)].seq > seq,
    decreases s.len() - start,
{
    if start < s.len() && s[start].seq <= seq {
        lemma_first_above(s, seq, start + 1);
    }
}

/// Stable sort of records by sequence number (insertion sort): records with
/// equal numbers keep their order.
pub fn sort_records_by_seq(v: &Vec<EventRecord>) -> (out: Vec<EventRecord>)
    ensures
        records_view(out@) == sort_by_seq(records_view(v@)),
{
    let ghost src = records_view(v@);
    let mut out: Vec<EventRecord> = Vec::new();
    let mut j: usize = 0;
    assert(src.take(0) =~= Seq::<EventRecordView>::empty());
    while j < v.len()
        invariant
            j <= v@.len(),
            src == records_view(v@),
            records_view(out@) == sort_by_seq(src.take(j as int)),
        decreases v@.len() - j,
    {
        let rec = &v[j];
        let ghost prev = src.take(j as int);
        let ghost sorted = records_view(out@);
        assert(src.take(j + 1).drop_last() =~= prev);
        assert(src.take(j + 1).last() == rec@);
        proof {
            lemma_sort_sorted(prev);
            lemma_first_above(sorted, rec.seq.0, 0);
        }
        let mut p: usize = 0;
        while p < out.len() && out[p].seq.0 <= rec.seq.0
            invariant
                p <= out@.len(),
                sorted == records_view(out@),
                first_above(sorted, rec.seq.0, 0) == first_above(sorted, rec.seq.0, p as int),
            decreases out@.len() - p,
        {
            p = p + 1;
        }
        proof {
            lemma_first_above(sorted, rec.seq.0, 0);
            lemma_insert_at(sorted, rec@, p as int);
        }
        let copy = rec.duplicate();
        out.insert(p, copy);
        assert(records_view(out@) =~= sorted.insert(p as int, rec@));
        j = j + 1;
    }
    assert(src.take(v@.len() as int) =~= src);
    out
}

/// A stably sorted sequence is sorted and as long as the input.
pub proof fn lemma_sort_by_seq_sorted(s: Seq<EventRecordView>)
    ensures
        sorted_by_seq(sort_by_seq(s)),
        sort_by_seq(s).len() == s.len(),
{
    lemma_sort_sorted(s);
}

spec fn candidates(v: Seq<StreamState>, n: int, stream: StreamIdView, topic_key: Option<Seq<char>>, after: i64) -> Seq<EventRecordView>
    decreases n,
{
    if n <= 0 {
        Seq::empty()
    } else {
        candidates(v, n - 1, stream, topic_key, after) + select_matching(
            records_view(v[n - 1].records@),
            stream,
            topic_key,
            after,
        )
    }
}

/// Some stream of the model stores `x`.
pub open spec fn stored_in_model(m: MemoryLogModel, x: EventRecordView) -> bool {
    exists|k: Seq<char>| #[trigger] m.streams.contains_key(k) && m.streams[k].records.contains(x)
}

/// What a topic read draws from: every record stored in the model that
/// belongs to the read (destination, topic, partition key when one is
/// given, number above `after`), from all streams.
pub open spec fn topic_pool(m: MemoryLogModel, stream: StreamIdView, topic_key: Option<Seq<char>>, after: i64) -> Set<EventRecordView> {
    Set::new(|x: EventRecordView| topic_match(x, stream, topic_key, after) && stored_in_model(m, x))
}

/// A read after `after` keeps exactly the records numbered above `after`.
pub proof fn lemma_records_after_members(s: Seq<EventRecordView>, after: i64)
    ensures
        forall|r: EventRecordView| #[trigger] records_after(s, after).contains(r) <==> (s.contains(r) && r.seq > after),
    decreases s.len(),
{
    if s.len() > 0 {
        let d = s.drop_last();
        lemma_records_after_members(d, after);
        lemma_push_contains(d, s.last());
        lemma_push_contains(records_after(d, after), s.last());
        assert(d.push(s.last()) =~= s);
    }
}

/// Truncation at `floor` keeps exactly the records numbered `floor` or above.
pub proof fn lemma_records_from_members(s: Seq<EventRecordView>, floor: i64)
    ensures
        forall|r: EventRecordView| #[trigger] records_from(s, floor).contains(r) <==> (s.contains(r) && r.seq >= floor),
    decreases s.len(),
{
    if s.len() > 0 {
        let d = s.drop_last();
        lemma_records_from_members(d, floor);
        lemma_push_contains(d, s.last());
        lemma_push_contains(records_from(d, floor), s.last());
        assert(d.push(s.last()) =~= s);
    }
}

/// A topic read's answer `rows`, as the model fixes it: distinct records of
/// the pool, in sequence order, as many as the pool holds up to `limit`, and
/// none left out that is numbered below one returned.
pub open spec fn topic_read_result(
    m: MemoryLogModel,
    stream: StreamIdView,
    topic_key: Option<Seq<char>>,
    after: i64,
    limit: nat,
    rows: Seq<EventRecordView>,
) -> bool {
    let pool = topic_pool(m, stream, topic_key, after);
    &&& pool.finite()
    &&& rows.len() == if pool.len() <= limit { pool.len() } else { limit }
    &&& forall|i: int| 0 <= i < rows.len() ==> pool.contains(#[trigger] rows[i])
    &&& rows.no_duplicates()
    &&& sorted_by_seq(rows)
    &&& forall|x: EventRecordView, i: int|
        pool.contains(x) && !rows.contains(x) && 0 <= i < rows.len() ==> #[trigger] rows[i].seq <= #[trigger] x.seq
}

proof fn lemma_push_contains(a: Seq<EventRecordView>, y: EventRecordView)
    ensures
        forall|x: EventRecordView| #[trigger] a.push(y).contains(x) <==> (a.contains(x) || x == y),
{
    assert forall|x: EventRecordView| #[trigger] a.push(y).contains(x) <==> (a.contains(x) || x == y) by {
        if a.contains(x) {
            let i = choose|i: int| 0 <= i < a.len() && a[i] == x;
            assert(a.push(y)[i] == x);
        }
        if x == y {
            assert(a.push(y)[a.len() as int] == x);
        }
        if a.push(y).contains(x) && x != y {
            let i = choose|i: int| 0 <= i < a.push(y).len() && a.push(y)[i] == x;
            assert(a[i] == x);
        }
    }
}

proof fn lemma_concat_contains(a: Seq<EventRecordView>, b: Seq<EventRecordView>)
    ensures
        forall|x: EventRecordView| #[trigger] (a + b).contains(x) <==> (a.contains(x) || b.contains(x)),
{
    assert forall|x: EventRecordView| #[trigger] (a + b).contains(x) <==> (a.contains(x) || b.contains(x)) by {
        if a.contains(x) {
            let i = choose|i: int| 0 <= i < a.len() && a[i] == x;
            assert((a + b)[i] == x);
        }
        if b.contains(x) {
            let i = choose|i: int| 0 <= i < b.len() && b[i] == x;
            assert((a + b)[a.len() + i] == x);
        }
        if (a + b).contains(x) {
            let i = choose|i: int| 0 <= i < (a + b).len() && (a + b)[i] == x;
            if i < a.len() {
                assert(a[i] == x);
            } else {
                assert(b[i - a.len()] == x);
            }
        }
    }
}

proof fn lemma_concat_no_dups(a: Seq<EventRecordView>, b: Seq<EventRecordView>)
    requires
        a.no_duplicates(),
        b.no_duplicates(),
        forall|x: EventRecordView| a.contains(x) ==> !b.contains(x),
    ensures
        (a + b).no_duplicates(),
{
    let c = a + b;
    assert forall|i: int, j: int| 0 <= i < c.len() && 0 <= j < c.len() && i != j implies c[i] != c[j] by {
        if i < a.len() && j >= a.len() {
            assert(a.contains(c[i]) && b.contains(c[j]) && b[j - a.len()] == c[j]);
        } else if j < a.len() && i >= a.len() {
            assert(a.contains(c[j]) && b[i - a.len()] == c[i]);
        } else if i >= a.len() && j >= a.len() {
            assert(b[i - a.len()] == c[i] && b[j - a.len()] == c[j]);
        }
    }
}

proof fn lemma_select_members(s: Seq<EventRecordView>, stream: StreamIdView, topic_key: Option<Seq<char>>, after: i64)
    ensures
        forall|x: EventRecordView| #[trigger] select_matching(s, stream, topic_key, after).contains(x)
            <==> (s.contains(x) && topic_match(x, stream, topic_key, after)),
        s.no_duplicates() ==> select_matching(s, stream, topic_key, after).no_duplicates(),
    decreases s.len(),
{
    if s.len() > 0 {
        let d = s.drop_last();
        let y = s.last();
        lemma_select_members(d, stream, topic_key, after);
        lemma_push_contains(d, y);
        assert(d.push(y) =~= s);
        let sd = select_matching(d, stream, topic_key, after);
        lemma_push_contains(sd, y);
        if s.no_duplicates() {
            assert(d.no_duplicates()) by {
                assert forall|i: int, j: int| 0 <= i < d.len() && 0 <= j < d.len() && i != j implies d[i] != d[j] by {
                    assert(d[i] == s[i] && d[j] == s[j]);
                }
            }
            assert(!d.contains(y)) by {
                if d.contains(y) {
                    let i = choose|i: int| 0 <= i < d.len() && d[i] == y;
                    assert(s[i] == s[s.len() - 1]);
                }
            }
            if topic_match(y, stream, topic_key, after) {
                let t = sd.push(y);
                assert forall|i: int, j: int| 0 <= i < t.len() && 0 <= j < t.len() && i != j implies t[i] != t[j] by {
                    if i < sd.len() && j < sd.len() {
                        assert(t[i] == sd[i] && t[j] == sd[j]);
                    } else if i < sd.len() {
                        assert(sd.contains(t[i]));
                    } else if j < sd.len() {
                        assert(sd.contains(t[j]));
                    }
                }
            }
        }
    }
}

proof fn lemma_strict_no_dups(s: Seq<EventRecordView>)
    requires
        forall|i: int, j: int| 0 <= i < j < s.len() ==> #[trigger] s[i].seq < #[trigger] s[j].seq,
    ensures
        s.no_duplicates(),
{
    assert forall|i: int, j: int| 0 <= i < s.len() && 0 <= j < s.len() && i != j implies s[i] != s[j] by {
        if i < j {
            assert(s[i].seq < s[j].seq);
        } else {
            assert(s[j].seq < s[i].seq);
        }
    }
}

proof fn lemma_candidates_members(v: Seq<StreamState>, n: int, stream: StreamIdView, topic_key: Option<Seq<char>>, after: i64)
    requires
        0 <= n <= v.len(),
        keys_unique(stream_pairs(v)),
        forall|i: int| 0 <= i < v.len() ==> stream_wf(#[trigger] v[i].model()),
        forall|i: int| 0 <= i < v.len() ==> stream_keyed(#[trigger] v[i].model(), v[i].key@),
    ensures
        forall|x: EventRecordView| #[trigger] candidates(v, n, stream, topic_key, after).contains(x)
            <==> (topic_match(x, stream, topic_key, after) && exists|i: int| 0 <= i < n && #[trigger] v[i].model().records.contains(x)),
        candidates(v, n, stream, topic_key, after).no_duplicates(),
    decreases n,
{
    if n > 0 {
        lemma_candidates_members(v, n - 1, stream, topic_key, after);
        let a = candidates(v, n - 1, stream, topic_key, after);
        let recs = v[n - 1].model().records;
        assert(recs == records_view(v[n - 1].records@));
        let b = select_matching(recs, stream, topic_key, after);
        assert(stream_wf(v[n - 1].model()));
        lemma_strict_no_dups(recs);
        lemma_select_members(recs, stream, topic_key, after);
        lemma_concat_contains(a, b);
        assert(candidates(v, n, stream, topic_key, after) == a + b);
        assert forall|x: EventRecordView| a.contains(x) implies !b.contains(x) by {
            let i = choose|i: int| 0 <= i < n - 1 && #[trigger] v[i].model().records.contains(x);
            assert(stream_keyed(v[i].model(), v[i].key@));
            let ji = choose|j: int| 0 <= j < v[i].model().records.len() && v[i].model().records[j] == x;
            assert(storage_key_spec(record_stream(v[i].model().records[ji])) == v[i].key@);
            if b.contains(x) {
                assert(stream_keyed(v[n - 1].model(), v[n - 1].key@));
                let jn = choose|j: int| 0 <= j < recs.len() && recs[j] == x;
                assert(storage_key_spec(record_stream(recs[jn])) == v[n - 1].key@);
                let p = stream_pairs(v);
                assert(p[i].0 == v[i].key@ && p[n - 1].0 == v[n - 1].key@);
            }
        }
        lemma_concat_no_dups(a, b);
        assert forall|x: EventRecordView| #[trigger] (a + b).contains(x)
            <==> (topic_match(x, stream, topic_key, after) && exists|i: int| 0 <= i < n && #[trigger] v[i].model().records.contains(x)) by {
            if topic_match(x, stream, topic_key, after) && exists|i: int| 0 <= i < n && #[trigger] v[i].model().records.contains(x) {
                let i = choose|i: int| 0 <= i < n && #[trigger] v[i].model().records.contains(x);
                if i < n - 1 {
                    assert(a.contains(x));
                } else {
                    assert(b.contains(x));
                }
            }
        }
    }
}

proof fn lemma_insert_members(s: Seq<EventRecordView>, x: EventRecordView, p: int)
    requires
        0 <= p <= s.len(),
    ensures
        forall|y: EventRecordView| #[trigger] s.insert(p, x).contains(y) <==> (s.contains(y) || y == x),
        s.no_duplicates() && !s.contains(x) ==> s.insert(p, x).no_duplicates(),
{
    let t = s.insert(p, x);
    assert forall|y: EventRecordView| #[trigger] t.contains(y) <==> (s.contains(y) || y == x) by {
        if s.contains(y) {
            let i = choose|i: int| 0 <= i < s.len() && s[i] == y;
            if i < p {
                assert(t[i] == y);
            } else {
                assert(t[i + 1] == y);
            }
        }
        if y == x {
            assert(t[p] == y);
        }
        if t.contains(y) && y != x {
            let i = choose|i: int| 0 <= i < t.len() && t[i] == y;
            if i < p {
                assert(s[i] == y);
            } else if i > p {
                assert(s[i - 1] == y);
            }
        }
    }
    if s.no_duplicates() && !s.contains(x) {
        assert forall|i: int, j: int| 0 <= i < t.len() && 0 <= j < t.len() && i != j implies t[i] != t[j] by {
            let si = if i < p { i } else { i - 1 };
            let sj = if j < p { j } else { j - 1 };
            if i != p && j != p {
                assert(t[i] == s[si] && t[j] == s[sj]);
            } else if i == p {
                assert(t[j] == s[sj]);
            } else {
                assert(t[i] == s[si]);
            }
        }
    }
}

proof fn lemma_sort_members(s: Seq<EventRecordView>)
    ensures
        forall|y: EventRecordView| #[trigger] sort_by_seq(s).contains(y) <==> s.contains(y),
        s.no_duplicates() ==> sort_by_seq(s).no_duplicates(),
    decreases s.len(),
{
    if s.len() > 0 {
        let d = s.drop_last();
        let x = s.last();
        lemma_sort_members(d);
        lemma_sort_sorted(d);
        let sd = sort_by_seq(d);
        let p = first_above(sd, x.seq, 0);
        lemma_first_above(sd, x.seq, 0);
        lemma_insert_at(sd, x, p);
        lemma_insert_members(sd, x, p);
        lemma_push_contains(d, x);
        assert(d.push(x) =~= s);
        if s.no_duplicates() {
            assert(d.no_duplicates()) by {
                assert forall|i: int, j: int| 0 <= i < d.len() && 0 <= j < d.len() && i != j implies d[i] != d[j] by {
                    assert(d[i] == s[i] && d[j] == s[j]);
                }
            }
            assert(!d.contains(x)) by {
                if d.contains(x) {
                    let i = choose|i: int| 0 <= i < d.len() && d[i] == x;
                    assert(s[i] == s[s.len() - 1]);
                }
            }
        }
    }
}

struct CheckpointEntry {
    subscription: String,
    stream_key: String,
    seq: LogSeq,
}

struct FloorEntry {
    stream_key: String,
    floor: LogSeq,
}

spec fn stream_pairs(v: Seq<StreamState>) -> Seq<(Seq<char>, StreamModel)> {
    v.map_values(|e: StreamState| (e.key@, e.model()))
}

spec fn checkpoint_pairs(v: Seq<CheckpointEntry>) -> Seq<((Seq<char>, Seq<char>), i64)> {
    v.map_values(|e: CheckpointEntry| ((e.subscription@, e.stream_key@), e.seq.0))
}

spec fn floor_pairs(v: Seq<FloorEntry>) -> Seq<(Seq<char>, i64)> {
    v.map_values(|e: FloorEntry| (e.stream_key@, e.floor.0))
}

/// Process-local log backend (not durable across restarts).
pub struct InMemoryLogBackend {
    streams: Vec<StreamState>,
    checkpoints: Vec<CheckpointEntry>,
    floors: Vec<FloorEntry>,
}

impl View for InMemoryLogBackend {
    type V = MemoryLogModel;

    closed spec fn view(&self) -> MemoryLogModel {
        MemoryLogModel {
            streams: assoc_map(stream_pairs(self.streams@)),
            checkpoints: assoc_map(checkpoint_pairs(self.checkpoints@)),
            floors: assoc_map(floor_pairs(self.floors@)),
        }
    }
}

impl InMemoryLogBackend {
    /// Keys are unique in each table and every stream is well formed.
    pub closed spec fn wf(&self) -> bool {
        &&& keys_unique(stream_pairs(self.streams@))
        &&& keys_unique(checkpoint_pairs(self.checkpoints@))
        &&& keys_unique(floor_pairs(self.floors@))
        &&& forall|i: int| 0 <= i < self.streams@.len() ==> stream_wf(#[trigger] self.streams@[i].model())
        &&& forall|i: int| 0 <= i < self.streams@.len() ==> stream_keyed(
            #[trigger] self.streams@[i].model(),
            self.streams@[i].key@,
        )
    }

    /// Every stream in the model is well formed.
    pub proof fn lemma_wf_streams(&self)
        requires
            self.wf(),
        ensures
            forall|k: Seq<char>| #[trigger] stream_wf(self@.stream(k)),
    {
        let p = stream_pairs(self.streams@);
        assert forall|k: Seq<char>| #[trigger] stream_wf(self@.stream(k)) by {
            if self@.streams.contains_key(k) {
                let i = assoc_index(p, k);
                lemma_assoc_get(p, i);
                assert(self.streams@[i].model() == p[i].1);
            }
        }
    }

    /// New empty backend.
    pub fn new() -> (b: Self)
        ensures
            b.wf(),
            b@.streams == Map::<Seq<char>, StreamModel>::empty(),
            b@.checkpoints == Map::<(Seq<char>, Seq<char>), i64>::empty(),
            b@.floors == Map::<Seq<char>, i64>::empty(),
    {
        let b = InMemoryLogBackend { streams: Vec::new(), checkpoints: Vec::new(), floors: Vec::new() };
        assert(b@.streams =~= Map::<Seq<char>, StreamModel>::empty());
        assert(b@.checkpoints =~= Map::<(Seq<char>, Seq<char>), i64>::empty());
        assert(b@.floors =~= Map::<Seq<char>, i64>::empty());
        b
    }


    /// Appends a batch to a stream. An empty batch returns no sequence numbers
    /// and changes nothing; an empty topic is refused; otherwise each record
    /// gets the sequence number of an earlier append with the same event id,
    /// or the next free one, in order.
    pub fn append(&mut self, stream: LogStreamId, records: &[AppendRecord]) -> (r: Result<Vec<LogSeq>, LogError>)
        requires
            old(self).wf(),
            records@.len() > 0 && topic_is_valid(stream@.topic) ==> ({
                let m = old(self)@.stream(storage_key_spec(stream@));
                m.next_seq + new_count(m.ids, append_views(records@)) <= i64::MAX
            }),
        ensures
            final(self).wf(),
            records@.len() == 0 ==> r is Ok && r->Ok_0@.len() == 0 && final(self)@ == old(self)@,
            records@.len() > 0 && !topic_is_valid(stream@.topic) ==> r is Err && r->Err_0 is Validation
                && final(self)@ == old(self)@,
            records@.len() > 0 && topic_is_valid(stream@.topic) ==> {
                let key = storage_key_spec(stream@);
                let (m, seqs) = append_batch(old(self)@.stream(key), stream@, append_views(records@));
                &&& r is Ok
                &&& seqs_view(r->Ok_0@) == seqs
                &&& final(self)@.streams == old(self)@.streams.insert(key, m)
                &&& final(self)@.checkpoints == old(self)@.checkpoints
                &&& final(self)@.floors == old(self)@.floors
            },
    {
        if records.len() == 0 {
            return Ok(Vec::new());
        }
        match validate_topic(stream.topic.as_str()) {
            Err(e) => {
                return Err(e);
            },
            Ok(()) => {},
        }
        let key = stream.storage_key();
        let ghost pairs0 = stream_pairs(self.streams@);
        let idx = match self.find_stream(&key) {
            Some(i) => {
                proof {
                    lemma_assoc_get(pairs0, i as int);
                }
                i
            },
            None => {
                proof {
                    lemma_assoc_absent(pairs0, key@);
                    lemma_assoc_push(pairs0, key@, empty_stream());
                }
                let fresh = StreamState {
                    key,
                    next_seq: 0,
                    records: Vec::new(),
                    event_ids: HashMap::new(),
                };
                assert(fresh.model() =~= empty_stream());
                self.streams.push(fresh);
                assert(stream_pairs(self.streams@) =~= pairs0.push((key@, empty_stream())));
                self.streams.len() - 1
            },
        };
        let ghost pairs1 = stream_pairs(self.streams@);
        let ghost streams1 = self.streams@;
        proof {
            lemma_assoc_get(pairs1, idx as int);
            assert(self.streams@[idx as int].model() == pairs1[idx as int].1);
            assert forall|i: int| 0 <= i < streams1.len() implies stream_keyed(
                #[trigger] streams1[i].model(),
                streams1[i].key@,
            ) by {
                if i < old(self).streams@.len() {
                    assert(streams1[i] == old(self).streams@[i]);
                }
            }
            lemma_append_batch_keyed(streams1[idx as int].model(), stream@, append_views(records@));
        }
        let out = append_to_state(&mut self.streams[idx], &stream, records);
        proof {
            assert forall|i: int| 0 <= i < self.streams@.len() implies stream_keyed(
                #[trigger] self.streams@[i].model(),
                self.streams@[i].key@,
            ) by {
                if i != idx {
                    assert(self.streams@[i] == streams1[i]);
                }
            }
            let m = self.streams@[idx as int].model();
            assert(stream_pairs(self.streams@) =~= pairs1.update(idx as int, (pairs1[idx as int].0, m)));
            lemma_assoc_update(pairs1, idx as int, m);
            assert forall|i: int| 0 <= i < self.streams@.len() implies stream_wf(
                #[trigger] self.streams@[i].model(),
            ) by {
                if i != idx {
                    assert(self.streams@[i].model() == pairs1[i].1);
                }
            }
        }
        Ok(out)
    }


    /// How many records of a batch carry an event id the stream has not seen
    /// yet, counting a repeated id once: the count of fresh numbers an append
    /// of the batch hands out.
    pub fn new_id_count(&self, stream: &LogStreamId, records: &[AppendRecord]) -> (n: usize)
        requires
            self.wf(),
        ensures
            n == new_count(self@.stream(storage_key_spec(stream@)).ids, append_views(records@)),
    {
        let key = stream.storage_key();
        let ghost pairs = stream_pairs(self.streams@);
        let found = self.find_stream(&key);
        let ghost ids = self@.stream(key@).ids;
        proof {
            match found {
                Some(k) => {
                    lemma_assoc_get(pairs, k as int);
                    assert(ids == self.streams@[k as int].event_ids@);
                },
                None => {
                    lemma_assoc_absent(pairs, key@);
                    assert(ids == Map::<u128, i64>::empty());
                },
            }
        }
        let ghost recs = append_views(records@);
        let mut count: usize = 0;
        let mut i: usize = 0;
        assert(recs.take(0) =~= Seq::<AppendRecordView>::empty());
        while i < records.len()
            invariant
                i <= records@.len(),
                recs == append_views(records@),
                count <= i,
                count == new_count(ids, recs.take(i as int)),
                match found {
                    Some(k) => k < self.streams@.len() && ids == self.streams@[k as int].event_ids@,
                    None => ids == Map::<u128, i64>::empty(),
                },
            decreases records@.len() - i,
        {
            let id = records[i].event_id;
            let known = match found {
                Some(k) => self.streams[k].event_ids.contains_key(&id),
                None => false,
            };
            let mut seen = false;
            let mut j: usize = 0;
            while j < i && !seen
                invariant
                    j <= i,
                    i < records@.len(),
                    recs == append_views(records@),
                    id == recs[i as int].event_id,
                    !seen ==> forall|k: int| 0 <= k < j ==> #[trigger] recs[k].event_id != id,
                    seen ==> 0 < j && recs[j - 1].event_id == id,
                decreases i - j,
            {
                if records[j].event_id == id {
                    seen = true;
                }
                j = j + 1;
            }
            proof {
                lemma_new_count_step(ids, recs, i as int);
                assert(recs[i as int].event_id == id);
                if seen {
                    assert(recs[j - 1].event_id == recs[i as int].event_id);
                }
                assert((!known && !seen) == first_new(ids, recs, i as int));
            }
            if !known && !seen {
                count = count + 1;
            }
            i = i + 1;
        }
        assert(recs.take(records@.len() as int) =~= recs);
        count
    }

    /// Reads up to `limit` records of a stream with sequence numbers above
    /// `after`, in sequence order. A limit above [`MAX_READ_LIMIT`] is refused.
    pub fn read_from(&self, stream: LogStreamId, after: LogSeq, limit: usize) -> (r: Result<Vec<EventRecord>, LogError>)
        requires
            self.wf(),
        ensures
            !read_limit_is_valid(limit) ==> r is Err && r->Err_0 is Validation,
            read_limit_is_valid(limit) ==> r is Ok && records_view(r->Ok_0@) == read_spec(
                self@.stream(storage_key_spec(stream@)),
                after.0,
                limit as nat,
            ),
    {
        match validate_read_limit(limit) {
            Err(e) => {
                return Err(e);
            },
            Ok(()) => {},
        }
        let key = stream.storage_key();
        let ghost pairs = stream_pairs(self.streams@);
        let mut out: Vec<EventRecord> = Vec::new();
        if limit == 0 {
            assert(records_view(out@) =~= read_spec(self@.stream(key@), after.0, 0));
            return Ok(out);
        }
        match self.find_stream(&key) {
            None => {
                proof {
                    lemma_assoc_absent(pairs, key@);
                }
                assert(records_view(out@) =~= read_spec(self@.stream(key@), after.0, limit as nat));
                Ok(out)
            },
            Some(i) => {
                proof {
                    lemma_assoc_get(pairs, i as int);
                }
                let st = &self.streams[i];
                let ghost recs = records_view(st.records@);
                assert(self@.stream(key@).records == recs);
                let mut j: usize = 0;
                assert(recs.take(0) =~= Seq::<EventRecordView>::empty());
                assert(records_view(out@) =~= records_after(recs.take(0), after.0));
                while j < st.records.len() && out.len() < limit
                    invariant
                        j <= st.records@.len(),
                        recs == records_view(st.records@),
                        out@.len() <= limit,
                        records_view(out@) == records_after(recs.take(j as int), after.0),
                    decreases st.records@.len() - j,
                {
                    proof {
                        lemma_records_after_step(recs, j as int, after.0);
                    }
                    if st.records[j].seq.0 > after.0 {
                        let copy = st.records[j].duplicate();
                        out.push(copy);
                        assert(records_view(out@) =~= records_after(recs.take(j as int), after.0).push(recs[j as int]));
                    }
                    j = j + 1;
                }
                proof {
                    lemma_records_after_prefix(recs, j as int, after.0);
                    if j == st.records@.len() {
                        assert(recs.take(j as int) =~= recs);
                    }
                }
                assert(records_view(out@) =~= read_spec(self@.stream(key@), after.0, limit as nat));
                Ok(out)
            },
        }
    }


    /// Records of a topic read, before sorting: each stream's matching records, stream by stream.
    pub closed spec fn topic_candidates(&self, stream: StreamIdView, topic_key: Option<Seq<char>>, after: i64) -> Seq<EventRecordView> {
        candidates(self.streams@, self.streams@.len() as int, stream, topic_key, after)
    }

    /// The stably sorted candidates of a topic read, cut to `limit`, are the
    /// answer the model fixes.
    proof fn lemma_topic_read_model(&self, stream: StreamIdView, tk: Option<Seq<char>>, after: i64, limit: nat)
        requires
            self.wf(),
        ensures
            topic_read_result(self@, stream, tk, after, limit, first_n(sort_by_seq(self.topic_candidates(stream, tk, after)), limit)),
    {
        let v = self.streams@;
        let pairs = stream_pairs(v);
        let c = self.topic_candidates(stream, tk, after);
        let pool = topic_pool(self@, stream, tk, after);
        lemma_candidates_members(v, v.len() as int, stream, tk, after);
        lemma_sort_members(c);
        lemma_sort_sorted(c);
        let sorted = sort_by_seq(c);
        assert forall|x: EventRecordView| #[trigger] pool.contains(x) <==> c.contains(x) by {
            if c.contains(x) {
                let i = choose|i: int| 0 <= i < v.len() && #[trigger] v[i].model().records.contains(x);
                lemma_assoc_get(pairs, i);
                assert(pairs[i].0 == v[i].key@ && pairs[i].1 == v[i].model());
                assert(self@.streams.contains_key(v[i].key@) && self@.streams[v[i].key@].records.contains(x));
                assert(stored_in_model(self@, x));
            }
            if pool.contains(x) {
                let k = choose|k: Seq<char>| #[trigger] self@.streams.contains_key(k) && self@.streams[k].records.contains(x);
                assert(assoc_has(pairs, k));
                let i = assoc_index(pairs, k);
                lemma_assoc_get(pairs, i);
                assert(pairs[i].1 == v[i].model());
                assert(v[i].model().records.contains(x));
            }
        }
        assert(c.to_set() =~= pool);
        c.unique_seq_to_set();
        let rows = first_n(sorted, limit);
        assert forall|i: int| 0 <= i < rows.len() implies rows[i] == sorted[i] by {}
        assert forall|i: int| 0 <= i < rows.len() implies pool.contains(#[trigger] rows[i]) by {
            assert(sorted.contains(sorted[i]));
        }
        assert forall|x: EventRecordView, i: int|
            pool.contains(x) && !rows.contains(x) && 0 <= i < rows.len() implies #[trigger] rows[i].seq <= #[trigger] x.seq by {
            assert(sorted.contains(x));
            let j = choose|j: int| 0 <= j < sorted.len() && sorted[j] == x;
            if j < rows.len() {
                assert(rows[j] == x);
            }
            assert(sorted[i].seq <= sorted[j].seq);
        }
    }

    /// Reads up to `limit` records of a topic, over all partition keys or only
    /// `topic_key`, with sequence numbers above `after`, sorted by sequence
    /// number. A limit above [`MAX_READ_LIMIT`] is refused.
    pub fn read_from_topic(&self, stream: LogStreamId, topic_key: Option<&str>, after: LogSeq, limit: usize) -> (r: Result<Vec<EventRecord>, LogError>)
        requires
            self.wf(),
        ensures
            !read_limit_is_valid(limit) ==> r is Err && r->Err_0 is Validation,
            read_limit_is_valid(limit) ==> r is Ok && topic_read_result(
                self@,
                stream@,
                opt_str_view(topic_key),
                after.0,
                limit as nat,
                records_view(r->Ok_0@),
            ),
            read_limit_is_valid(limit) ==> r is Ok && records_view(r->Ok_0@) == first_n(
                sort_by_seq(self.topic_candidates(stream@, opt_str_view(topic_key), after.0)),
                limit as nat,
            ),
    {
        match validate_read_limit(limit) {
            Err(e) => {
                return Err(e);
            },
            Ok(()) => {},
        }
        let ghost tk = opt_str_view(topic_key);
        proof {
            self.lemma_topic_read_model(stream@, tk, after.0, limit as nat);
        }
        let mut out: Vec<EventRecord> = Vec::new();
        if limit == 0 {
            assert(records_view(out@) =~= first_n(sort_by_seq(self.topic_candidates(stream@, tk, after.0)), 0));
            return Ok(out);
        }
        let mut i: usize = 0;
        while i < self.streams.len()
            invariant
                i <= self.streams@.len(),
                tk == opt_str_view(topic_key),
                records_view(out@) == sort_by_seq(candidates(self.streams@, i as int, stream@, tk, after.0)),
            decreases self.streams@.len() - i,
        {
            let st = &self.streams[i];
            let ghost recs = records_view(st.records@);
            let ghost base = candidates(self.streams@, i as int, stream@, tk, after.0);
            let mut j: usize = 0;
            assert(recs.take(0) =~= Seq::<EventRecordView>::empty());
            assert(base + select_matching(recs.take(0), stream@, tk, after.0) =~= base);
            while j < st.records.len()
                invariant
                    j <= st.records@.len(),
                    recs == records_view(st.records@),
                    tk == opt_str_view(topic_key),
                    records_view(out@) == sort_by_seq(base + select_matching(recs.take(j as int), stream@, tk, after.0)),
                decreases st.records@.len() - j,
            {
                let rec = &st.records[j];
                assert(recs.take(j + 1).drop_last() =~= recs.take(j as int));
                let ghost prev = base + select_matching(recs.take(j as int), stream@, tk, after.0);
                let key_ok = match topic_key {
                    None => true,
                    Some(k) => match &rec.key {
                        Some(rk) => str_eq(rk.as_str(), k),
                        None => false,
                    },
                };
                if rec.destination.same_as(&stream.destination) && rec.topic == stream.topic && rec.seq.0 > after.0 && key_ok {
                    let ghost sorted = records_view(out@);
                    proof {
                        lemma_sort_sorted(prev);
                        lemma_first_above(sorted, rec.seq.0, 0);
                    }
                    let mut p: usize = 0;
                    while p < out.len() && out[p].seq.0 <= rec.seq.0
                        invariant
                            p <= out@.len(),
                            sorted == records_view(out@),
                            first_above(sorted, rec.seq.0, 0) == first_above(sorted, rec.seq.0, p as int),
                        decreases out@.len() - p,
                    {
                        p = p + 1;
                    }
                    proof {
                        lemma_first_above(sorted, rec.seq.0, 0);
                        lemma_insert_at(sorted, rec@, p as int);
                        assert(base + select_matching(recs.take(j + 1), stream@, tk, after.0) =~= prev.push(rec@));
                        assert(prev.push(rec@).drop_last() =~= prev);
                        assert(sort_by_seq(prev.push(rec@)) == insert_by_seq(sort_by_seq(prev), rec@));
                    }
                    let copy = rec.duplicate();
                    out.insert(p, copy);
                    assert(records_view(out@) =~= sorted.insert(p as int, rec@));
                } else {
                    assert(base + select_matching(recs.take(j + 1), stream@, tk, after.0) =~= prev);
                }
                j = j + 1;
            }
            assert(recs.take(st.records@.len() as int) =~= recs);
            i = i + 1;
        }
        proof {
            lemma_sort_sorted(self.topic_candidates(stream@, tk, after.0));
        }
        if out.len() > limit {
            out.truncate(limit);
        }
        assert(records_view(out@) =~= first_n(sort_by_seq(self.topic_candidates(stream@, tk, after.0)), limit as nat));
        Ok(out)
    }

    fn find_floor(&self, key: &String) -> (r: Option<usize>)
        ensures
            match r {
                Some(i) => i < self.floors@.len() && self.floors@[i as int].stream_key@ == key@,
                None => forall|i: int| 0 <= i < self.floors@.len() ==> self.floors@[i].stream_key@ != key@,
            },
    {
        let mut i: usize = 0;
        while i < self.floors.len()
            invariant
                i <= self.floors@.len(),
                forall|j: int| 0 <= j < i ==> self.floors@[j].stream_key@ != key@,
            decreases self.floors@.len() - i,
        {
            if self.floors[i].stream_key == *key {
                return Some(i);
            }
            i = i + 1;
        }
        None
    }

    fn find_checkpoint(&self, sub: &String, key: &String) -> (r: Option<usize>)
        ensures
            match r {
                Some(i) => i < self.checkpoints@.len() && self.checkpoints@[i as int].subscription@ == sub@
                    && self.checkpoints@[i as int].stream_key@ == key@,
                None => forall|i: int| 0 <= i < self.checkpoints@.len() ==> !(self.checkpoints@[i].subscription@ == sub@
                    && self.checkpoints@[i].stream_key@ == key@),
            },
    {
        let mut i: usize = 0;
        while i < self.checkpoints.len()
            invariant
                i <= self.checkpoints@.len(),
                forall|j: int| 0 <= j < i ==> !(self.checkpoints@[j].subscription@ == sub@
                    && self.checkpoints@[j].stream_key@ == key@),
            decreases self.checkpoints@.len() - i,
        {
            if self.checkpoints[i].subscription == *sub && self.checkpoints[i].stream_key == *key {
                return Some(i);
            }
            i = i + 1;
        }
        None
    }

    /// Commits a checkpoint; it only ever moves forward: a sequence number at
    /// or below the stored one leaves it as it is.
    pub fn commit_checkpoint(&mut self, subscription: &SubscriptionId, stream: LogStreamId, seq: LogSeq) -> (r: Result<(), LogError>)
        requires
            old(self).wf(),
        ensures
            final(self).wf(),
            r is Ok,
            final(self)@.checkpoints == old(self)@.checkpoints.insert(
                (subscription.0@, storage_key_spec(stream@)),
                committed_value(old(self)@.checkpoint(subscription.0@, storage_key_spec(stream@)), seq.0),
            ),
            final(self)@.streams == old(self)@.streams,
            final(self)@.floors == old(self)@.floors,
    {
        let key = stream.storage_key();
        let ghost pairs = checkpoint_pairs(self.checkpoints@);
        let ghost ck = (subscription.0@, key@);
        match self.find_checkpoint(&subscription.0, &key) {
            Some(i) => {
                proof {
                    lemma_assoc_get(pairs, i as int);
                }
                let current = self.checkpoints[i].seq;
                if seq.0 > current.0 {
                    self.checkpoints[i].seq = seq;
                    proof {
                        assert(checkpoint_pairs(self.checkpoints@) =~= pairs.update(i as int, (ck, seq.0)));
                        lemma_assoc_update(pairs, i as int, seq.0);
                    }
                } else {
                    assert(self@.checkpoints =~= old(self)@.checkpoints.insert(ck, current.0));
                }
            },
            None => {
                proof {
                    assert forall|j: int| 0 <= j < pairs.len() implies pairs[j].0 != ck by {
                        assert(pairs[j].0 == (self.checkpoints@[j].subscription@, self.checkpoints@[j].stream_key@));
                    }
                    lemma_assoc_absent(pairs, ck);
                    lemma_assoc_push(pairs, ck, seq.0);
                }
                self.checkpoints.push(CheckpointEntry { subscription: subscription.0.clone(), stream_key: key, seq });
                assert(checkpoint_pairs(self.checkpoints@) =~= pairs.push((ck, seq.0)));
            },
        }
        Ok(())
    }

    /// The committed checkpoint of `subscription` on `stream`, if any.
    pub fn load_checkpoint(&self, subscription: &SubscriptionId, stream: LogStreamId) -> (r: Result<Option<LogSeq>, LogError>)
        requires
            self.wf(),
        ensures
            r is Ok,
            match r->Ok_0 {
                Some(s) => self@.checkpoint(subscription.0@, storage_key_spec(stream@)) == Some(s.0),
                None => self@.checkpoint(subscription.0@, storage_key_spec(stream@)) is None,
            },
    {
        let key = stream.storage_key();
        let ghost pairs = checkpoint_pairs(self.checkpoints@);
        let ghost ck = (subscription.0@, key@);
        match self.find_checkpoint(&subscription.0, &key) {
            Some(i) => {
                proof {
                    lemma_assoc_get(pairs, i as int);
                }
                Ok(Some(self.checkpoints[i].seq))
            },
            None => {
                proof {
                    assert forall|j: int| 0 <= j < pairs.len() implies pairs[j].0 != ck by {
                        assert(pairs[j].0 == (self.checkpoints@[j].subscription@, self.checkpoints@[j].stream_key@));
                    }
                    lemma_assoc_absent(pairs, ck);
                }
                Ok(None)
            },
        }
    }

    /// The last sequence number handed out on a stream (0 for a new stream);
    /// an append of `n` records needs it at most `i64::MAX - n`.
    pub fn next_seq(&self, stream: &LogStreamId) -> (n: i64)
        requires
            self.wf(),
        ensures
            n == self@.stream(storage_key_spec(stream@)).next_seq,
    {
        let key = stream.storage_key();
        let ghost p = stream_pairs(self.streams@);
        match self.find_stream(&key) {
            Some(i) => {
                proof {
                    lemma_assoc_get(p, i as int);
                    assert(self.streams@[i as int].model() == p[i as int].1);
                }
                self.streams[i].next_seq
            },
            None => {
                proof {
                    assert forall|j: int| 0 <= j < p.len() implies p[j].0 != key@ by {
                        assert(p[j].0 == self.streams@[j].key@);
                    }
                    lemma_assoc_absent(p, key@);
                }
                0
            },
        }
    }

    /// Logically drops every record below `seq` and returns how many went.
    /// A `seq` at or below the stream's earlier truncation point does nothing.
    #[verifier::spinoff_prover]
    #[verifier::rlimit(40)]
    pub fn truncate_before(&mut self, stream: LogStreamId, seq: LogSeq) -> (r: Result<u64, LogError>)
        requires
            old(self).wf(),
        ensures
            final(self).wf(),
            r is Ok,
            ({
                let key = storage_key_spec(stream@);
                let old_stream = old(self)@.stream(key);
                if seq.0 <= old(self)@.floor(key) {
                    r->Ok_0 == 0 && final(self)@ == old(self)@
                } else {
                    &&& r->Ok_0 == old_stream.records.len() - records_from(old_stream.records, seq.0).len()
                    &&& final(self)@.floors == old(self)@.floors.insert(key, seq.0)
                    &&& final(self)@.streams == if old(self)@.streams.contains_key(key) {
                        old(self)@.streams.insert(
                            key,
                            StreamModel { records: records_from(old_stream.records, seq.0), ..old_stream },
                        )
                    } else {
                        old(self)@.streams
                    }
                    &&& final(self)@.checkpoints == old(self)@.checkpoints
                }
            }),
    {
        let key = stream.storage_key();
        let ghost fpairs = floor_pairs(self.floors@);
        let fidx = self.find_floor(&key);
        let current: i64 = match fidx {
            Some(i) => {
                proof {
                    lemma_assoc_get(fpairs, i as int);
                }
                self.floors[i].floor.0
            },
            None => {
                proof {
                    lemma_assoc_absent(fpairs, key@);
                }
                0
            },
        };
        if seq.0 <= current {
            return Ok(0);
        }
        let ghost spairs = stream_pairs(self.streams@);
        let removed: u64 = match self.find_stream(&key) {
            None => {
                proof {
                    lemma_assoc_absent(spairs, key@);
                }
                0
            },
            Some(i) => {
                proof {
                    lemma_assoc_get(spairs, i as int);
                }
                let ghost m0 = self.streams@[i as int].model();
                let ghost recs = m0.records;
                let mut kept: Vec<EventRecord> = Vec::new();
                let n = self.streams[i].records.len();
                let mut j: usize = 0;
                assert(recs.take(0) =~= Seq::<EventRecordView>::empty());
                while j < n
                    invariant
                        n == self.streams@[i as int].records@.len(),
                        i < self.streams@.len(),
                        self.streams@[i as int].model() == m0,
                        recs == m0.records,
                        j <= n,
                        records_view(kept@) == records_from(recs.take(j as int), seq.0),
                    decreases n - j,
                {
                    proof {
                        lemma_records_from_step(recs, j as int, seq.0);
                    }
                    if self.streams[i].records[j].seq.0 >= seq.0 {
                        let copy = self.streams[i].records[j].duplicate();
                        kept.push(copy);
                        assert(records_view(kept@) =~= records_from(recs.take(j as int), seq.0).push(recs[j as int]));
                    }
                    j = j + 1;
                }
                assert(recs.take(n as int) =~= recs);
                proof {
                    lemma_records_from_len(recs, seq.0);
                    lemma_records_from_order(recs, seq.0);
                    lemma_records_from_subseq(recs, seq.0);
                }
                let removed = (n - kept.len()) as u64;
                self.streams[i].records = kept;
                proof {
                    let m = self.streams@[i as int].model();
                    assert(m == StreamModel { records: records_from(recs, seq.0), ..m0 });
                    assert(stream_pairs(self.streams@) =~= spairs.update(i as int, (key@, m)));
                    lemma_assoc_update(spairs, i as int, m);
                    let r = records_from(recs, seq.0);
                    assert forall|a: int| 0 <= a < r.len() implies m0.ids.contains_key(#[trigger] r[a].event_id)
                        && m0.ids[r[a].event_id] == r[a].seq && 1 <= r[a].seq <= m0.next_seq by {
                        let k = choose|k: int| 0 <= k < recs.len() && r[a] == recs[k] && recs[k].seq >= seq.0;
                        assert(stream_wf(m0));
                        assert(m0.ids.contains_key(recs[k].event_id));
                    }
                    assert(stream_wf(m));
                    assert forall|q: int| 0 <= q < self.streams@.len() implies stream_keyed(
                        #[trigger] self.streams@[q].model(),
                        self.streams@[q].key@,
                    ) by {
                        if q != i {
                            assert(self.streams@[q] == old(self).streams@[q]);
                        } else {
                            assert(stream_keyed(m0, key@));
                            assert forall|a: int| 0 <= a < r.len() implies storage_key_spec(
                                record_stream(#[trigger] r[a]),
                            ) == key@ by {
                                let k = choose|k: int| 0 <= k < recs.len() && r[a] == recs[k] && recs[k].seq >= seq.0;
                            }
                        }
                    }
                    assert forall|q: int| 0 <= q < self.streams@.len() implies stream_wf(
                        #[trigger] self.streams@[q].model(),
                    ) by {
                        if q != i {
                            assert(self.streams@[q].model() == spairs[q].1);
                        }
                    }
                }
                removed
            },
        };
        match fidx {
            Some(i) => {
                self.floors[i].floor = seq;
                proof {
                    assert(floor_pairs(self.floors@) =~= fpairs.update(i as int, (key@, seq.0)));
                    lemma_assoc_update(fpairs, i as int, seq.0);
                }
            },
            None => {
                proof {
                    lemma_assoc_push(fpairs, key@, seq.0);
                }
                self.floors.push(FloorEntry { stream_key: key, floor: seq });
                assert(floor_pairs(self.floors@) =~= fpairs.push((key@, seq.0)));
            },
        }
        Ok(removed)
    }

    fn find_stream(&self, key: &String) -> (r: Option<usize>)
        ensures
            match r {
                Some(i) => i < self.streams@.len() && self.streams@[i as int].key@ == key@,
                None => forall|i: int| 0 <= i < self.streams@.len() ==> self.streams@[i].key@ != key@,
            },
    {
        let mut i: usize = 0;
        while i < self.streams.len()
            invariant
                i <= self.streams@.len(),
                forall|j: int| 0 <= j < i ==> self.streams@[j].key@ != key@,
            decreases self.streams@.len() - i,
        {
            if self.streams[i].key == *key {
                return Some(i);
            }
            i = i + 1;
        }
        None
    }
}

} // verus!
