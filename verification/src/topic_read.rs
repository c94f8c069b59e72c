//! Topic reads over stores that keep one partition per stream key: the
//! partition key recovered from a stored stream key, and the merge of
//! per-stream reads into one ordered, limited answer.

use vstd::prelude::*;

use crate::memory::{first_n, lemma_sort_by_seq_sorted, sort_by_seq, sort_records_by_seq, sorted_by_seq};
use crate::text::strip_prefix;
use crate::types::{records_view, EventRecord, EventRecordView};

verus! {

/// Partition key of a stored stream key under a topic prefix: what follows
/// the prefix, or `None` when the prefix does not match or nothing follows.
pub open spec fn key_of_stream_spec(stream_key: Seq<char>, topic_prefix: Seq<char>) -> Option<Seq<char>> {
    if topic_prefix.is_prefix_of(stream_key) && stream_key.len() > topic_prefix.len() {
        Some(stream_key.skip(topic_prefix.len() as int))
    } else {
        None
    }
}

/// The partition key of a stored stream key, as topic reads report it.
pub fn key_of_stream(stream_key: &str, topic_prefix: &str) -> (key: Option<String>)
    ensures
        match key {
            Some(k) => key_of_stream_spec(stream_key@, topic_prefix@) == Some(k@),
            None => key_of_stream_spec(stream_key@, topic_prefix@) is None,
        },
{
    match strip_prefix(stream_key, topic_prefix) {
        Some(rest) => {
            if rest.unicode_len() == 0 {
                None
            } else {
                Some(rest)
            }
        },
        None => None,
    }
}

/// Partition key of a row that may lack its stream key.
pub fn row_key(stream_key: Option<&str>, topic_prefix: &str) -> (key: Option<String>)
    ensures
        match stream_key {
            None => key is None,
            Some(sk) => match key {
                Some(k) => key_of_stream_spec(sk@, topic_prefix@) == Some(k@),
                None => key_of_stream_spec(sk@, topic_prefix@) is None,
            },
        },
{
    match stream_key {
        Some(sk) => key_of_stream(sk, topic_prefix),
        None => None,
    }
}

/// What per-stream reads contribute, taken in stream order until `limit`
/// rows are in hand (the stream that reaches the limit counts whole).
pub open spec fn gather(parts: Seq<Seq<EventRecordView>>, limit: int) -> Seq<EventRecordView>
    decreases parts.len(),
{
    if parts.len() == 0 {
        Seq::empty()
    } else if parts[0].len() >= limit {
        parts[0]
    } else {
        parts[0] + gather(parts.drop_first(), limit - parts[0].len())
    }
}

/// Views of a sequence of per-stream reads.
pub open spec fn parts_view(parts: Seq<Vec<EventRecord>>) -> Seq<Seq<EventRecordView>> {
    parts.map_values(|p: Vec<EventRecord>| records_view(p@))
}

/// The answer of a topic read from the rows gathered: sorted by sequence
/// number (stably) and cut at `limit`.
pub open spec fn topic_answer(rows: Seq<EventRecordView>, limit: nat) -> Seq<EventRecordView> {
    first_n(sort_by_seq(rows), limit)
}

/// Rows gathered so far by a topic read over several streams.
pub struct TopicGather {
    rows: Vec<EventRecord>,
    limit: usize,
}

impl TopicGather {
    /// Rows gathered so far.
    pub closed spec fn rows(&self) -> Seq<EventRecordView> {
        records_view(self.rows@)
    }

    /// Row limit of the read.
    pub closed spec fn limit(&self) -> nat {
        self.limit as nat
    }

    /// An empty gathering for a read of at most `limit` rows.
    pub fn new(limit: usize) -> (g: Self)
        ensures
            g.rows() == Seq::<EventRecordView>::empty(),
            g.limit() == limit,
    {
        let g = TopicGather { rows: Vec::new(), limit };
        assert(records_view(g.rows@) =~= Seq::<EventRecordView>::empty());
        g
    }

    /// Adds one stream's rows; `true` once the limit is reached, so that no
    /// further stream needs to be read.
    pub fn absorb(&mut self, part: Vec<EventRecord>) -> (done: bool)
        ensures
            final(self).rows() == old(self).rows() + records_view(part@),
            final(self).limit() == old(self).limit(),
            done == (final(self).rows().len() >= final(self).limit()),
    {
        let ghost before = records_view(self.rows@);
        let mut part = part;
        let ghost added = records_view(part@);
        self.rows.append(&mut part);
        assert(records_view(self.rows@) =~= before + added);
        self.rows.len() >= self.limit
    }

    /// The answer: the gathered rows sorted by sequence number, at most `limit` of them.
    pub fn finish(self) -> (out: Vec<EventRecord>)
        ensures
            records_view(out@) == topic_answer(self.rows(), self.limit()),
    {
        let mut out = sort_records_by_seq(&self.rows);
        if out.len() > self.limit {
            out.truncate(self.limit);
        }
        assert(records_view(out@) =~= topic_answer(records_view(self.rows@), self.limit as nat));
        out
    }
}

/// Merges per-stream reads taken in index order: streams are absorbed until
/// `limit` rows are in hand, then the rows are sorted and cut at `limit`.
pub fn merge_stream_reads(parts: Vec<Vec<EventRecord>>, limit: usize) -> (out: Vec<EventRecord>)
    ensures
        records_view(out@) == topic_answer(gather(parts_view(parts@), limit as int), limit as nat),
{
    let ghost pv = parts_view(parts@);
    if limit == 0 {
        let empty: Vec<EventRecord> = Vec::new();
        assert(records_view(empty@) =~= topic_answer(gather(pv, 0), 0));
        return empty;
    }
    let mut g = TopicGather::new(limit);
    let mut parts = parts;
    let ghost mut i: int = 0;
    assert(pv.skip(0) =~= pv);
    assert(Seq::<EventRecordView>::empty() + gather(pv, limit as int) =~= gather(pv, limit as int));
    loop
        invariant_except_break
            0 <= i <= pv.len(),
            parts_view(parts@) == pv.skip(i),
            g.limit() == limit,
            g.rows().len() < limit,
            g.rows() + gather(pv.skip(i), limit - g.rows().len()) == gather(pv, limit as int),
        ensures
            g.limit() == limit,
            g.rows() == gather(pv, limit as int),
        decreases pv.len() - i,
    {
        if parts.len() == 0 {
            assert(pv.skip(i) =~= Seq::<Seq<EventRecordView>>::empty());
            assert(g.rows() + Seq::<EventRecordView>::empty() =~= g.rows());
            break;
        }
        let ghost rows0 = g.rows();
        let ghost rest = pv.skip(i);
        let ghost lim: int = limit - rows0.len();
        assert(rest[0] == parts_view(parts@)[0]);
        assert(rest.drop_first() =~= pv.skip(i + 1));
        let part = parts.remove(0);
        proof {
            assert(records_view(part@) == rest[0]);
            assert(parts_view(parts@) =~= rest.drop_first());
            i = i + 1;
        }
        let done = g.absorb(part);
        if done {
            assert(rest[0].len() >= lim);
            break;
        }
        assert(rest[0].len() < lim);
        assert(rows0 + (rest[0] + gather(pv.skip(i), lim - rest[0].len())) =~= (rows0 + rest[0]) + gather(
            pv.skip(i),
            limit - (rows0 + rest[0]).len(),
        ));
    }
    g.finish()
}


/// A topic read answers in sequence order and with at most `limit` rows.
pub proof fn lemma_topic_answer_sorted(rows: Seq<EventRecordView>, limit: nat)
    ensures
        sorted_by_seq(topic_answer(rows, limit)),
        topic_answer(rows, limit).len() <= limit,
        topic_answer(rows, limit).len() <= rows.len(),
{
    lemma_sort_by_seq_sorted(rows);
}

} // verus!
