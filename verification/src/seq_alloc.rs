//! Sequence-number allocation shared by the storage backends: ranges
//! reserved in one storage round trip, client-side blocks handed out one
//! number at a time, and the bookkeeping of a batch append that mixes
//! already-stored and new events.

use vstd::prelude::*;

use crate::types::LogSeq;

verus! {

/// Size of the sequence blocks the Scylla and raw TiKV backends reserve per round trip.
pub const SEQ_BLOCK_SIZE: i64 = 64;

/// Sequence numbers of a result.
pub open spec fn seq_values(s: Seq<LogSeq>) -> Seq<i64> {
    s.map_values(|q: LogSeq| q.0)
}

/// `current + 1, current + 2, ..., current + count`.
pub open spec fn seq_range(current: int, count: nat) -> Seq<i64> {
    Seq::new(count, |i: int| (current + 1 + i) as i64)
}

/// `i64::try_from(value).unwrap_or(i64::MAX)`.
pub fn usize_as_i64(value: usize) -> (r: i64)
    ensures
        r == if value <= i64::MAX { value as int } else { i64::MAX as int },
{
    if value as u64 <= 9223372036854775807u64 {
        value as i64
    } else {
        i64::MAX
    }
}

/// The `count` sequence numbers after `current`, for a stream whose counter
/// stood at `current` and was moved to `current + count`.
pub fn allocate_seq_range(current: i64, count: usize) -> (seqs: Vec<LogSeq>)
    requires
        count <= i64::MAX,
        current + count <= i64::MAX,
    ensures
        seq_values(seqs@) == seq_range(current as int, count as nat),
{
    let mut seqs: Vec<LogSeq> = Vec::new();
    let mut k: usize = 0;
    while k < count
        invariant
            k <= count,
            count <= i64::MAX,
            current + count <= i64::MAX,
            seqs@.len() == k,
            seq_values(seqs@) == seq_range(current as int, k as nat),
        decreases count - k,
    {
        let ghost before = seqs@;
        let v: i64 = current + 1 + k as i64;
        seqs.push(LogSeq(v));
        assert(seqs@ == before.push(LogSeq(v)));
        assert forall|i: int| 0 <= i < k + 1 implies #[trigger] seq_values(seqs@)[i] == seq_range(current as int, (k + 1) as nat)[i] by {
            if i < k {
                assert(seqs@[i] == before[i]);
                assert(seq_values(before)[i] == seq_range(current as int, k as nat)[i]);
            }
        }
        assert(seq_values(seqs@) =~= seq_range(current as int, (k + 1) as nat));
        k = k + 1;
    }
    seqs
}

/// A reserved range of sequence numbers: `next + 1 ..= end` are still free.
#[derive(Clone, Copy, Debug, PartialEq, Eq, Structural)]
pub struct SeqBlock {
    pub next: i64,
    pub end: i64,
}

impl SeqBlock {
    /// A block well formed: `0 <= next <= end`.
    pub open spec fn wf(self) -> bool {
        0 <= self.next <= self.end
    }

    /// The block reserved when the stored counter stood at `current`:
    /// `current + 1 ..= current + size`.
    pub fn reserved(current: i64, size: i64) -> (b: SeqBlock)
        requires
            0 <= current,
            0 <= size,
            current + size <= i64::MAX,
        ensures
            b == (SeqBlock { next: current, end: (current + size) as i64 }),
            b.wf(),
    {
        SeqBlock { next: current, end: current + size }
    }

    /// How many numbers are still free.
    pub fn available(&self) -> (n: u64)
        requires
            self.wf(),
        ensures
            n == self.end - self.next,
    {
        (self.end - self.next) as u64
    }

    /// Whether a number is still free.
    pub fn has_seq(&self) -> (r: bool)
        ensures
            r == (self.next < self.end),
    {
        self.next < self.end
    }

    /// Hands out the next free number, if any.
    pub fn take_one(&mut self) -> (r: Option<LogSeq>)
        ensures
            old(self).next < old(self).end ==> r == Some(LogSeq((old(self).next + 1) as i64))
                && *final(self) == (SeqBlock { next: (old(self).next + 1) as i64, end: old(self).end }),
            old(self).next >= old(self).end ==> r is None && *final(self) == *old(self),
    {
        if self.next >= self.end {
            return None;
        }
        self.next = self.next + 1;
        Some(LogSeq(self.next))
    }

    /// Hands out up to `want` numbers, in order: `min(want, available)` of them.
    pub fn take_up_to(&mut self, want: usize) -> (seqs: Vec<LogSeq>)
        requires
            old(self).wf(),
        ensures
            final(self).wf(),
            final(self).end == old(self).end,
            seqs@.len() == if want <= old(self).end - old(self).next { want as int } else { old(self).end - old(self).next },
            final(self).next == old(self).next + seqs@.len(),
            seq_values(seqs@) == seq_range(old(self).next as int, seqs@.len()),
    {
        let avail = self.available();
        let take: usize = if (want as u64) <= avail { want } else { avail as usize };
        assert(take as int == if want <= self.end - self.next { want as int } else { self.end - self.next });
        let seqs = allocate_seq_range(self.next, take);
        assert(seqs@.len() == seq_values(seqs@).len());
        self.next = self.next + take as i64;
        seqs
    }
}

/// How many numbers a take of `want` gets from a block with `next` and `end`.
pub open spec fn take_count(want: int, next: int, end: int) -> int {
    if want <= end - next { want } else { end - next }
}

/// Takes up to `remaining` numbers from a stream's cached block. With no
/// cached block, or an exhausted one, nothing is taken and the cache stays:
/// the caller reserves a new block.
pub fn take_cached(cache: &mut Option<SeqBlock>, remaining: usize) -> (seqs: Vec<LogSeq>)
    requires
        old(cache).is_some() ==> old(cache).unwrap().wf(),
    ensures
        ({
            let o = *old(cache);
            if o.is_some() && o.unwrap().next < o.unwrap().end {
                let b = o.unwrap();
                let n = take_count(remaining as int, b.next as int, b.end as int);
                &&& seq_values(seqs@) == seq_range(b.next as int, n as nat)
                &&& *final(cache) == Some(SeqBlock { next: (b.next + n) as i64, end: b.end })
            } else {
                seqs@.len() == 0 && *final(cache) == o
            }
        }),
{
    match cache {
        Some(b) => {
            if b.has_seq() {
                let mut blk = *b;
                let seqs = blk.take_up_to(remaining);
                *cache = Some(blk);
                seqs
            } else {
                Vec::new()
            }
        },
        None => Vec::new(),
    }
}

/// Takes up to `remaining` numbers from a freshly reserved block; what is
/// left of it, if anything, becomes the stream's cached block.
pub fn take_reserved(block: SeqBlock, remaining: usize) -> (r: (Vec<LogSeq>, Option<SeqBlock>))
    requires
        block.wf(),
    ensures
        ({
            let n = take_count(remaining as int, block.next as int, block.end as int);
            &&& seq_values(r.0@) == seq_range(block.next as int, n as nat)
            &&& (block.next + n < block.end ==> r.1 == Some(SeqBlock { next: (block.next + n) as i64, end: block.end }))
            &&& (block.next + n >= block.end ==> r.1 is None)
        }),
{
    let mut blk = block;
    let seqs = blk.take_up_to(remaining);
    if blk.next < blk.end {
        (seqs, Some(blk))
    } else {
        (seqs, None)
    }
}

/// Numbers handed out by two successive takes from one block never overlap.
pub proof fn lemma_block_takes_disjoint(b: SeqBlock, first: nat, second: nat)
    requires
        b.wf(),
        b.next + first + second <= b.end,
    ensures
        forall|i: int, j: int|
            0 <= i < first && 0 <= j < second ==> #[trigger] seq_range(b.next as int, first)[i]
                < #[trigger] seq_range(b.next + first, second)[j],
{
}

/// Positions of a lookup result that are still `LogSeq(0)`, that is, whose
/// event was not stored yet, in order.
pub open spec fn zero_positions(out: Seq<LogSeq>) -> Seq<usize>
    decreases out.len(),
{
    if out.len() == 0 {
        Seq::empty()
    } else if out.last().0 == 0 {
        zero_positions(out.drop_last()).push((out.len() - 1) as usize)
    } else {
        zero_positions(out.drop_last())
    }
}

/// The positions listed by `zero_positions` are exactly the zero entries,
/// each once, in increasing order.
pub proof fn lemma_zero_positions(out: Seq<LogSeq>)
    requires
        out.len() <= usize::MAX,
    ensures
        forall|k: int| 0 <= k < zero_positions(out).len() ==> #[trigger] zero_positions(out)[k] < out.len()
            && out[zero_positions(out)[k] as int].0 == 0,
        forall|k: int, l: int| 0 <= k < l < zero_positions(out).len() ==> #[trigger] zero_positions(out)[k]
            < #[trigger] zero_positions(out)[l],
        forall|p: int| 0 <= p < out.len() && out[p].0 == 0 ==> exists|k: int|
            0 <= k < zero_positions(out).len() && #[trigger] zero_positions(out)[k] == p,
    decreases out.len(),
{
    if out.len() > 0 {
        let d = out.drop_last();
        lemma_zero_positions(d);
        let m = zero_positions(out);
        let m0 = zero_positions(d);
        if out.last().0 == 0 {
            assert(m == m0.push((out.len() - 1) as usize));
        } else {
            assert(m == m0);
        }
        assert forall|p: int| 0 <= p < out.len() && out[p].0 == 0 implies exists|k: int|
            0 <= k < m.len() && #[trigger] m[k] == p by {
            if p < d.len() {
                assert(d[p].0 == 0);
                let k = choose|k: int| 0 <= k < m0.len() && m0[k] == p;
                assert(m[k] == p);
            } else {
                assert(m[m.len() - 1] == p);
            }
        }
    }
}

/// Positions of a batch whose idempotency lookup found nothing: the entries
/// of `out` still at `LogSeq(0)`, in order.
pub fn new_positions(out: &Vec<LogSeq>) -> (idx: Vec<usize>)
    ensures
        idx@ == zero_positions(out@),
{
    let mut idx: Vec<usize> = Vec::new();
    let mut i: usize = 0;
    while i < out.len()
        invariant
            i <= out@.len(),
            idx@ == zero_positions(out@.take(i as int)),
        decreases out@.len() - i,
    {
        assert(out@.take(i + 1).drop_last() =~= out@.take(i as int));
        if out[i].0 == 0 {
            idx.push(i);
        }
        i = i + 1;
    }
    assert(out@.take(out@.len() as int) =~= out@);
    idx
}

/// Writes freshly allocated numbers at the given positions, the k-th number
/// at the k-th position; every other entry stays as it was.
pub fn fill_positions(out: &mut Vec<LogSeq>, positions: &Vec<usize>, seqs: &Vec<LogSeq>)
    requires
        seqs@.len() == positions@.len(),
        forall|k: int| 0 <= k < positions@.len() ==> #[trigger] positions@[k] < old(out)@.len(),
        forall|k: int, l: int| 0 <= k < l < positions@.len() ==> #[trigger] positions@[k]
            < #[trigger] positions@[l],
    ensures
        final(out)@.len() == old(out)@.len(),
        forall|k: int| 0 <= k < positions@.len() ==> final(out)@[#[trigger] positions@[k] as int] == seqs@[k],
        forall|i: int|
            0 <= i < old(out)@.len() && !positions@.contains(i as usize) ==> final(out)@[i] == old(out)@[i],
{
    let ghost base = out@;
    let ghost idx = positions@;
    let mut k: usize = 0;
    while k < positions.len()
        invariant
            k <= idx.len(),
            idx == positions@,
            seqs@.len() == idx.len(),
            out@.len() == base.len(),
            forall|q: int| 0 <= q < idx.len() ==> #[trigger] idx[q] < base.len(),
            forall|q: int, l: int| 0 <= q < l < idx.len() ==> #[trigger] idx[q] < #[trigger] idx[l],
            forall|q: int| 0 <= q < k ==> out@[#[trigger] idx[q] as int] == seqs@[q],
            forall|i: int| 0 <= i < base.len() && !idx.take(k as int).contains(i as usize) ==> out@[i] == base[i],
        decreases idx.len() - k,
    {
        let p = positions[k];
        out.set(p, seqs[k]);
        proof {
            assert forall|i: int| 0 <= i < base.len() && !idx.take(k + 1).contains(i as usize)
                implies out@[i] == base[i] by {
                assert(idx.take(k + 1)[k as int] == idx[k as int]);
                if idx.take(k as int).contains(i as usize) {
                    let w = choose|w: int| 0 <= w < k && idx.take(k as int)[w] == i as usize;
                    assert(idx.take(k + 1)[w] == i as usize);
                }
            }
        }
        k = k + 1;
    }
    assert(idx.take(idx.len() as int) =~= idx);
}


proof fn lemma_zero_positions_len(out: Seq<LogSeq>)
    ensures
        zero_positions(out).len() <= out.len(),
    decreases out.len(),
{
    if out.len() > 0 {
        lemma_zero_positions_len(out.drop_last());
    }
}

/// The numbers an append reports, from what the lookups found (`LogSeq(0)`
/// for an event not stored yet) and the stream's counter `current` before the
/// new ones were allocated: an event already stored keeps its number, and the
/// `k`-th new one (in batch order) gets `current + 1 + k`. Also gives the
/// positions of the new ones, which are the rows still to insert.
pub fn assign_seqs(found: Vec<LogSeq>, current: i64) -> (r: (Vec<LogSeq>, Vec<usize>))
    requires
        found@.len() <= i64::MAX,
        current + zero_positions(found@).len() <= i64::MAX,
    ensures
        r.1@ == zero_positions(found@),
        r.0@.len() == found@.len(),
        forall|i: int| 0 <= i < found@.len() && found@[i].0 != 0 ==> #[trigger] r.0@[i] == found@[i],
        forall|k: int| 0 <= k < r.1@.len() ==> (#[trigger] r.0@[r.1@[k] as int]).0 == current + 1 + k,
{
    let n: usize = found.len();
    let positions = new_positions(&found);
    proof {
        lemma_zero_positions(found@);
        lemma_zero_positions_len(found@);
    }
    let seqs = allocate_seq_range(current, positions.len());
    assert(seqs@.len() == seq_values(seqs@).len());
    let mut out = found;
    let ghost before = out@;
    fill_positions(&mut out, &positions, &seqs);
    proof {
        assert forall|i: int| 0 <= i < before.len() && before[i].0 != 0 implies #[trigger] out@[i] == before[i] by {
            assert(i < n);
            if positions@.contains(i as usize) {
                let k = choose|k: int| 0 <= k < positions@.len() && positions@[k] == i as usize;
                assert(before[positions@[k] as int].0 == 0);
            }
        }
        assert forall|k: int| 0 <= k < positions@.len() implies (#[trigger] out@[positions@[k] as int]).0 == current + 1 + k by {
            assert(seq_values(seqs@)[k] == seq_range(current as int, positions@.len() as nat)[k]);
        }
    }
    (out, positions)
}

} // verus!
