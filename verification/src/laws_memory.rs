//! Laws of the in-memory log backend, stated over the models its operations
//! are specified with.

use vstd::prelude::*;

use crate::memory::{
    append_batch, append_one, committed_value, first_new, new_count, empty_stream, MemoryLogModel, first_n, read_spec, records_after, records_from,
    stream_wf, StreamModel,
};
use crate::types::{stored_record, AppendRecordView, EventRecordView, StreamIdView};

verus! {

/// No two records of a batch share an event id.
pub open spec fn distinct_ids(recs: Seq<AppendRecordView>) -> bool {
    forall|i: int, j: int|
        0 <= i < recs.len() && 0 <= j < recs.len() && i != j ==> recs[i].event_id != recs[j].event_id
}

/// None of the event ids of a batch was appended to the stream before.
pub open spec fn all_fresh(m: StreamModel, recs: Seq<AppendRecordView>) -> bool {
    forall|i: int| 0 <= i < recs.len() ==> !m.ids.contains_key(#[trigger] recs[i].event_id)
}

/// Every event id of a batch was appended to the stream before.
pub open spec fn all_known(m: StreamModel, recs: Seq<AppendRecordView>) -> bool {
    forall|i: int| 0 <= i < recs.len() ==> m.ids.contains_key(#[trigger] recs[i].event_id)
}

/// The records stored for a batch of fresh events appended after `next_seq`.
pub open spec fn fresh_records(stream: StreamIdView, recs: Seq<AppendRecordView>, next_seq: int) -> Seq<EventRecordView> {
    Seq::new(recs.len(), |i: int| stored_record(stream, recs[i], (next_seq + 1 + i) as i64))
}

/// Idempotent append: re-appending events that are already in the stream
/// returns their original sequence numbers and leaves the stream unchanged.
pub proof fn lemma_append_known_ids(m: StreamModel, stream: StreamIdView, recs: Seq<AppendRecordView>)
    requires
        all_known(m, recs),
    ensures
        append_batch(m, stream, recs).0 == m,
        append_batch(m, stream, recs).1 == recs.map_values(|r: AppendRecordView| m.ids[r.event_id]),
    decreases recs.len(),
{
    if recs.len() > 0 {
        let d = recs.drop_last();
        assert(all_known(m, d)) by {
            assert forall|i: int| 0 <= i < d.len() implies m.ids.contains_key(#[trigger] d[i].event_id) by {
                assert(d[i] == recs[i]);
            }
        }
        lemma_append_known_ids(m, stream, d);
        assert(m.ids.contains_key(recs[recs.len() - 1].event_id));
        assert(append_batch(m, stream, recs).1 =~= recs.map_values(
            |r: AppendRecordView| m.ids[r.event_id],
        ));
    }
}

/// Fresh append: a batch of new, distinct event ids gets the consecutive
/// sequence numbers after the stream's last one, and its records are stored
/// after the existing ones, in batch order.
pub proof fn lemma_append_fresh_ids(m: StreamModel, stream: StreamIdView, recs: Seq<AppendRecordView>)
    requires
        all_fresh(m, recs),
        distinct_ids(recs),
        0 <= m.next_seq,
        m.next_seq + recs.len() <= i64::MAX,
    ensures
        ({
            let (m2, seqs) = append_batch(m, stream, recs);
            &&& seqs.len() == recs.len()
            &&& forall|i: int| 0 <= i < recs.len() ==> #[trigger] seqs[i] == m.next_seq + 1 + i
            &&& m2.next_seq == m.next_seq + recs.len()
            &&& m2.records == m.records + fresh_records(stream, recs, m.next_seq)
            &&& forall|id: u128| #[trigger] m2.ids.contains_key(id) == (m.ids.contains_key(id) || exists|i: int|
                0 <= i < recs.len() && recs[i].event_id == id)
        }),
    decreases recs.len(),
{
    if recs.len() == 0 {
        assert(m.records + fresh_records(stream, recs, m.next_seq) =~= m.records);
    } else {
        let d = recs.drop_last();
        let x = recs.last();
        assert(all_fresh(m, d)) by {
            assert forall|i: int| 0 <= i < d.len() implies !m.ids.contains_key(#[trigger] d[i].event_id) by {
                assert(d[i] == recs[i]);
            }
        }
        assert(distinct_ids(d)) by {
            assert forall|i: int, j: int|
                0 <= i < d.len() && 0 <= j < d.len() && i != j implies d[i].event_id != d[j].event_id by {
                assert(d[i] == recs[i] && d[j] == recs[j]);
            }
        }
        lemma_append_fresh_ids(m, stream, d);
        let (m1, s1) = append_batch(m, stream, d);
        assert(!m1.ids.contains_key(x.event_id)) by {
            assert(!m.ids.contains_key(recs[recs.len() - 1].event_id));
            if exists|i: int| 0 <= i < d.len() && d[i].event_id == x.event_id {
                let i = choose|i: int| 0 <= i < d.len() && d[i].event_id == x.event_id;
                assert(recs[i].event_id == recs[recs.len() - 1].event_id);
            }
        }
        let (m2, s2) = append_batch(m, stream, recs);
        assert(m2.records =~= m.records + fresh_records(stream, recs, m.next_seq)) by {
            assert(m1.records =~= m.records + fresh_records(stream, d, m.next_seq));
        }
        assert forall|id: u128| #[trigger] m2.ids.contains_key(id) == (m.ids.contains_key(id) || exists|i: int|
            0 <= i < recs.len() && recs[i].event_id == id) by {
            if exists|i: int| 0 <= i < d.len() && d[i].event_id == id {
                let i = choose|i: int| 0 <= i < d.len() && d[i].event_id == id;
                assert(recs[i].event_id == id);
            }
            if exists|i: int| 0 <= i < recs.len() && recs[i].event_id == id {
                let i = choose|i: int| 0 <= i < recs.len() && recs[i].event_id == id;
                if i < d.len() {
                    assert(d[i].event_id == id);
                }
            }
        }
        assert forall|i: int| 0 <= i < recs.len() implies #[trigger] s2[i] == m.next_seq + 1 + i by {
            if i < d.len() {
                assert(s2[i] == s1[i]);
            }
        }
    }
}

proof fn lemma_records_after_concat(a: Seq<EventRecordView>, b: Seq<EventRecordView>, after: i64)
    requires
        forall|i: int| 0 <= i < a.len() ==> #[trigger] a[i].seq <= after,
        forall|i: int| 0 <= i < b.len() ==> #[trigger] b[i].seq > after,
    ensures
        records_after(a + b, after) == b,
    decreases a.len() + b.len(),
{
    if b.len() == 0 {
        assert(a + b =~= a);
        lemma_records_after_none(a, after);
    } else {
        let d = b.drop_last();
        assert((a + b).drop_last() =~= a + d);
        lemma_records_after_concat(a, d, after);
        assert(d.push(b.last()) =~= b);
    }
}

proof fn lemma_records_after_none(a: Seq<EventRecordView>, after: i64)
    requires
        forall|i: int| 0 <= i < a.len() ==> #[trigger] a[i].seq <= after,
    ensures
        records_after(a, after) == Seq::<EventRecordView>::empty(),
    decreases a.len(),
{
    if a.len() > 0 {
        lemma_records_after_none(a.drop_last(), after);
    }
}

/// Read your writes: after appending a batch of fresh, distinct events to a
/// well-formed stream, reading after the stream's previous last sequence
/// number returns exactly the appended records, in order (up to `limit`).
pub proof fn lemma_read_after_fresh_append(m: StreamModel, stream: StreamIdView, recs: Seq<AppendRecordView>, limit: nat)
    requires
        stream_wf(m),
        all_fresh(m, recs),
        distinct_ids(recs),
        m.next_seq + recs.len() <= i64::MAX,
    ensures
        read_spec(append_batch(m, stream, recs).0, m.next_seq as i64, limit) == first_n(
            fresh_records(stream, recs, m.next_seq),
            limit,
        ),
{
    lemma_append_fresh_ids(m, stream, recs);
    let f = fresh_records(stream, recs, m.next_seq);
    lemma_records_after_concat(m.records, f, m.next_seq as i64);
}

/// A fresh stream numbers its first batch of distinct events `1..=n`.
pub proof fn lemma_first_append_numbers_from_one(stream: StreamIdView, recs: Seq<AppendRecordView>)
    requires
        distinct_ids(recs),
        recs.len() <= i64::MAX,
    ensures
        forall|i: int| 0 <= i < recs.len() ==> #[trigger] append_batch(empty_stream(), stream, recs).1[i] == i + 1,
{
    lemma_append_fresh_ids(empty_stream(), stream, recs);
}

/// Checkpoints never move backwards: after a commit the checkpoint is at
/// least the committed value and at least what it was before.
pub proof fn lemma_checkpoint_monotonic(current: Option<i64>, seq: i64)
    ensures
        committed_value(current, seq) >= seq,
        current matches Some(c) ==> committed_value(current, seq) >= c,
        committed_value(Some(committed_value(current, seq)), seq) == committed_value(current, seq),
{
}

/// Truncation keeps exactly the records at or above the cut, so a read of the
/// truncated stream never returns a record below it.
pub proof fn lemma_truncated_reads_from_cut(records: Seq<EventRecordView>, cut: i64, after: i64)
    ensures
        forall|i: int| 0 <= i < records_from(records, cut).len() ==> #[trigger] records_from(records, cut)[i].seq >= cut,
        forall|i: int| 0 <= i < records_after(records_from(records, cut), after).len() ==> #[trigger] records_after(
            records_from(records, cut),
            after,
        )[i].seq >= cut,
    decreases records.len(),
{
    if records.len() > 0 {
        lemma_truncated_reads_from_cut(records.drop_last(), cut, after);
    }
    lemma_records_after_elems(records_from(records, cut), after);
}

proof fn lemma_records_after_elems(s: Seq<EventRecordView>, after: i64)
    ensures
        forall|i: int| 0 <= i < records_after(s, after).len() ==> exists|k: int|
            0 <= k < s.len() && #[trigger] records_after(s, after)[i] == s[k] && s[k].seq > after,
    decreases s.len(),
{
    if s.len() > 0 {
        lemma_records_after_elems(s.drop_last(), after);
        let r = records_after(s, after);
        let r0 = records_after(s.drop_last(), after);
        assert forall|i: int| 0 <= i < r.len() implies exists|k: int|
            0 <= k < s.len() && #[trigger] r[i] == s[k] && s[k].seq > after by {
            if i < r0.len() {
                let k = choose|k: int| 0 <= k < s.drop_last().len() && r0[i] == s.drop_last()[k] && s.drop_last()[k].seq > after;
                assert(r[i] == s[k]);
            } else {
                assert(r[i] == s[s.len() - 1]);
            }
        }
    }
}

/// Streams are independent: appending to one stream, or truncating it,
/// leaves every other stream (other destinations and other partition keys
/// included) exactly as it was.
pub proof fn lemma_other_streams_unchanged(before: MemoryLogModel, after: MemoryLogModel, key: Seq<char>, m: StreamModel, other: Seq<char>)
    requires
        after.streams == before.streams.insert(key, m) || after.streams == before.streams,
        other != key,
    ensures
        after.stream(other) == before.stream(other),
{
}

/// A truncation is remembered: once a stream was truncated at `cut`, a later
/// truncation at `cut` or below finds its floor at `cut` or above and removes nothing.
pub proof fn lemma_truncate_floor_remembered(before: MemoryLogModel, after: MemoryLogModel, key: Seq<char>, cut: i64, later: i64)
    requires
        after.floors == before.floors.insert(key, cut),
        later <= cut,
    ensures
        later <= after.floor(key),
{
}


/// The records a batch stores on a stream whose last number is `next_seq`:
/// one per new event id, in batch order, numbered on from `next_seq`.
pub open spec fn stored_news(ids: Map<u128, i64>, stream: StreamIdView, recs: Seq<AppendRecordView>, next_seq: int) -> Seq<EventRecordView>
    decreases recs.len(),
{
    if recs.len() == 0 {
        Seq::empty()
    } else {
        let before = stored_news(ids, stream, recs.drop_last(), next_seq);
        if first_new(ids, recs, recs.len() - 1) {
            before.push(stored_record(stream, recs.last(), (next_seq + new_count(ids, recs)) as i64))
        } else {
            before
        }
    }
}

/// Any batch, known, repeated and new event ids mixed: a record whose id the
/// stream already holds gets that id's number; a record repeating an id of
/// an earlier record of the batch gets that record's number; a record with a
/// new id gets the next number, counting the new ids up to and including it.
/// Exactly one record per new id is stored, in batch order, and the stream's
/// id map gains exactly the batch's new ids.
pub proof fn lemma_append_mixed_batch(m: StreamModel, stream: StreamIdView, recs: Seq<AppendRecordView>)
    requires
        0 <= m.next_seq,
        m.next_seq + new_count(m.ids, recs) <= i64::MAX,
    ensures
        ({
            let (m2, seqs) = append_batch(m, stream, recs);
            &&& seqs.len() == recs.len()
            &&& forall|i: int| 0 <= i < recs.len() && m.ids.contains_key(#[trigger] recs[i].event_id)
                ==> seqs[i] == m.ids[recs[i].event_id]
            &&& forall|i: int, j: int| 0 <= j < i < recs.len() && #[trigger] recs[j].event_id == #[trigger] recs[i].event_id
                ==> seqs[i] == seqs[j]
            &&& forall|i: int| 0 <= i < recs.len() && #[trigger] first_new(m.ids, recs, i)
                ==> seqs[i] == m.next_seq + new_count(m.ids, recs.take(i + 1))
            &&& m2.next_seq == m.next_seq + new_count(m.ids, recs)
            &&& m2.records == m.records + stored_news(m.ids, stream, recs, m.next_seq)
            &&& forall|id: u128| #[trigger] m2.ids.contains_key(id)
                <==> (m.ids.contains_key(id) || exists|j: int| 0 <= j < recs.len() && #[trigger] recs[j].event_id == id)
            &&& forall|j: int| 0 <= j < recs.len() ==> m2.ids.contains_key(#[trigger] recs[j].event_id)
                && m2.ids[recs[j].event_id] == seqs[j]
            &&& forall|id: u128| #[trigger] m.ids.contains_key(id) ==> m2.ids[id] == m.ids[id]
        }),
    decreases recs.len(),
{
    let n = recs.len() as int;
    if n == 0 {
        assert(m.records + Seq::<EventRecordView>::empty() =~= m.records);
    } else {
        let d = recs.drop_last();
        let x = recs.last();
        assert(recs.drop_last() =~= d);
        lemma_append_mixed_batch(m, stream, d);
        let (m1, s1) = append_batch(m, stream, d);
        let (m2, s) = append_one(m1, stream, x);
        let seqs = s1.push(s);
        assert(append_batch(m, stream, recs) == (m2, seqs));
        assert forall|i: int| 0 <= i < n - 1 implies #[trigger] first_new(m.ids, d, i) == first_new(m.ids, recs, i) by {
            assert(d[i] == recs[i]);
            if first_new(m.ids, recs, i) {
                assert forall|k: int| 0 <= k < i implies #[trigger] d[k].event_id != d[i].event_id by {
                    assert(d[k] == recs[k]);
                }
            }
            if first_new(m.ids, d, i) {
                assert forall|k: int| 0 <= k < i implies #[trigger] recs[k].event_id != recs[i].event_id by {
                    assert(d[k] == recs[k]);
                }
            }
        }
        let fresh = first_new(m.ids, recs, n - 1);
        if fresh {
            assert(!m1.ids.contains_key(x.event_id)) by {
                if m1.ids.contains_key(x.event_id) {
                    if !m.ids.contains_key(x.event_id) {
                        let j = choose|j: int| 0 <= j < d.len() && #[trigger] d[j].event_id == x.event_id;
                        assert(recs[j].event_id == recs[n - 1].event_id);
                    }
                }
            }
        } else {
            assert(m1.ids.contains_key(x.event_id)) by {
                if !m.ids.contains_key(x.event_id) {
                    let k = choose|k: int| 0 <= k < n - 1 && #[trigger] recs[k].event_id == recs[n - 1].event_id;
                    assert(d[k] == recs[k]);
                    assert(m1.ids.contains_key(d[k].event_id));
                }
            }
        }
        // sequence numbers
        assert forall|i: int| 0 <= i < n && m.ids.contains_key(#[trigger] recs[i].event_id)
            implies seqs[i] == m.ids[recs[i].event_id] by {
            if i < n - 1 {
                assert(d[i] == recs[i]);
            }
        }
        assert forall|i: int, j: int| 0 <= j < i < n && #[trigger] recs[j].event_id == #[trigger] recs[i].event_id
            implies seqs[i] == seqs[j] by {
            assert(d[j] == recs[j]);
            if i < n - 1 {
                assert(d[i] == recs[i]);
            } else {
                assert(m1.ids.contains_key(d[j].event_id));
            }
        }
        assert forall|i: int| 0 <= i < n && #[trigger] first_new(m.ids, recs, i)
            implies seqs[i] == m.next_seq + new_count(m.ids, recs.take(i + 1)) by {
            if i < n - 1 {
                assert(first_new(m.ids, d, i));
                assert(d.take(i + 1) =~= recs.take(i + 1));
            } else {
                assert(recs.take(i + 1) =~= recs);
                assert(recs.drop_last() =~= d);
            }
        }
        assert(recs.drop_last() =~= d);
        if fresh {
            assert(m2.records =~= m.records + stored_news(m.ids, stream, recs, m.next_seq));
        }
        // the id map
        assert forall|id: u128| #[trigger] m2.ids.contains_key(id)
            <==> (m.ids.contains_key(id) || exists|j: int| 0 <= j < n && #[trigger] recs[j].event_id == id) by {
            if exists|j: int| 0 <= j < n && #[trigger] recs[j].event_id == id {
                let j = choose|j: int| 0 <= j < n && #[trigger] recs[j].event_id == id;
                if j < n - 1 {
                    assert(d[j] == recs[j]);
                }
            }
            if m1.ids.contains_key(id) && !m.ids.contains_key(id) {
                let j = choose|j: int| 0 <= j < d.len() && #[trigger] d[j].event_id == id;
                assert(recs[j] == d[j]);
            }
        }
        assert forall|j: int| 0 <= j < n implies m2.ids.contains_key(#[trigger] recs[j].event_id)
            && m2.ids[recs[j].event_id] == seqs[j] by {
            if j < n - 1 {
                assert(d[j] == recs[j]);
                if fresh {
                    assert(d[j].event_id != x.event_id);
                }
            }
        }
    }
}


} // verus!
