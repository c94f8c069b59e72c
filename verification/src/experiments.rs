//! Decisions of the benchmark runner around the measurements themselves:
//! whether a run can start, how its notes are assembled, how workloads name
//! their streams and pace their operations, and how results are written into
//! the experiments table.

use vstd::prelude::*;

use crate::dimensions::{
    backend_kind, experiment_slug, storage_slug, telemetry_slug, ExperimentId, RunDimensions,
    Storage, Telemetry,
};
use crate::matrix::MatrixEnv;
use crate::text::{
    concat, contains, contains_spec, decimal, owned, parse_uint, parse_uint_spec, push_char,
    push_decimal, split_on, split_spec, starts_with, strip_prefix, trim, trim_spec,
};
use crate::types::{LogDestination, LogSeq, LogStreamId};

verus! {

/// Outcome recorded in a run report.
#[derive(Clone, Copy, Debug, PartialEq, Eq, Structural)]
pub enum ReportStatus {
    Completed,
    Failed,
    SkippedUnsupported,
    SkippedNoRemote,
}

/// Why a run is skipped before it starts, and the note its report carries.
pub struct Skip {
    pub status: ReportStatus,
    pub notes: String,
}

/// The first reason, if any, for which a run cannot start: an unsupported
/// storage or telemetry mode, or a remote service the run needs that is not
/// configured (Surreal, then Scylla, then the `TiKV` PD endpoint).
pub open spec fn preflight_spec(dims: RunDimensions, env: MatrixEnv) -> Option<(ReportStatus, Seq<char>)> {
    if !(dims.telemetry == Telemetry::Off || dims.telemetry == Telemetry::Console) {
        Some((ReportStatus::SkippedUnsupported, "telemetry "@ + telemetry_slug(dims.telemetry) + " not implemented"@))
    } else if (dims.storage == Storage::SurrealTikv || dims.topology == crate::dimensions::Topology::RemoteSurreal)
        && !env.surreal_url {
        Some((ReportStatus::SkippedNoRemote, "CONTINUUM_BENCH_SURREAL_URL not set"@))
    } else if dims.storage == Storage::Scylla && !env.scylla_contact_points {
        Some((ReportStatus::SkippedNoRemote, "CONTINUUM_BENCH_SCYLLA_CONTACT_POINTS not set"@))
    } else if dims.storage == Storage::TikvRaw && !env.tikv_pd_endpoint {
        Some((ReportStatus::SkippedNoRemote, "CONTINUUM_BENCH_TIKV_PD_ENDPOINT not set"@))
    } else {
        None
    }
}

/// Checks whether a run can start (every storage is supported, so only
/// telemetry and remote services can stop it).
pub fn preflight(dims: RunDimensions, env: &MatrixEnv) -> (skip: Option<Skip>)
    ensures
        match skip {
            Some(s) => preflight_spec(dims, *env) == Some((s.status, s.notes@)),
            None => preflight_spec(dims, *env) is None,
        },
{
    if !dims.storage.is_supported() {
        let head = concat("storage ", dims.storage.slug());
        return Some(Skip { status: ReportStatus::SkippedUnsupported, notes: concat(head.as_str(), " unsupported in v0.1") });
    }
    if !dims.telemetry.is_supported() {
        let head = concat("telemetry ", dims.telemetry.slug());
        return Some(Skip { status: ReportStatus::SkippedUnsupported, notes: concat(head.as_str(), " not implemented") });
    }
    if dims.needs_remote_surreal() && !env.surreal_url {
        return Some(Skip { status: ReportStatus::SkippedNoRemote, notes: owned("CONTINUUM_BENCH_SURREAL_URL not set") });
    }
    if dims.needs_remote_scylla() && !env.scylla_contact_points {
        return Some(
            Skip { status: ReportStatus::SkippedNoRemote, notes: owned("CONTINUUM_BENCH_SCYLLA_CONTACT_POINTS not set") },
        );
    }
    if dims.needs_remote_tikv_raw() && !env.tikv_pd_endpoint {
        return Some(Skip { status: ReportStatus::SkippedNoRemote, notes: owned("CONTINUUM_BENCH_TIKV_PD_ENDPOINT not set") });
    }
    None
}

/// A run's notes: the results summary, then the debug notes after a space when there are any.
pub fn join_notes(summary: String, extra: Option<String>) -> (notes: String)
    ensures
        notes@ == match extra {
            Some(e) => summary@.push(' ') + e@,
            None => summary@,
        },
{
    match extra {
        Some(e) => {
            let mut notes = summary;
            push_char(&mut notes, ' ');
            notes.append(e.as_str());
            notes
        },
        None => summary,
    }
}

/// Target rate of a load tier in operations per second.
pub open spec fn load_target_spec(id: ExperimentId) -> u64 {
    match id {
        ExperimentId::BmL0 => 100,
        ExperimentId::BmL1 => 1000,
        ExperimentId::BmL2 => 10000,
        _ => 100000,
    }
}

/// Whether an experiment is a load tier (BM-L0 to BM-L3).
pub open spec fn is_load_tier(id: ExperimentId) -> bool {
    id == ExperimentId::BmL0 || id == ExperimentId::BmL1 || id == ExperimentId::BmL2 || id == ExperimentId::BmL3
}

/// Target operations per second of a load tier.
pub fn load_target_ops(id: ExperimentId) -> (ops: u64)
    requires
        is_load_tier(id),
    ensures
        ops == load_target_spec(id),
{
    match id {
        ExperimentId::BmL0 => 100,
        ExperimentId::BmL1 => 1000,
        ExperimentId::BmL2 => 10000,
        _ => 100000,
    }
}

/// The load tiers pace at 100, 1 000, 10 000 and 100 000 operations per
/// second: each tier ten times the one before, all four distinct.
pub proof fn lemma_load_tier_rates()
    ensures
        load_target_spec(ExperimentId::BmL0) == 100,
        load_target_spec(ExperimentId::BmL1) == 1000,
        load_target_spec(ExperimentId::BmL2) == 10000,
        load_target_spec(ExperimentId::BmL3) == 100000,
        load_target_spec(ExperimentId::BmL1) == 10 * load_target_spec(ExperimentId::BmL0),
        load_target_spec(ExperimentId::BmL2) == 10 * load_target_spec(ExperimentId::BmL1),
        load_target_spec(ExperimentId::BmL3) == 10 * load_target_spec(ExperimentId::BmL2),
        forall|a: ExperimentId, b: ExperimentId|
            is_load_tier(a) && is_load_tier(b) && a != b ==> #[trigger] load_target_spec(a) != #[trigger] load_target_spec(b),
{
}

/// Pause between paced operations, in nanoseconds, for a target rate.
pub fn tick_nanos(target_ops: u64) -> (n: u64)
    requires
        target_ops > 0,
    ensures
        n == 1000000000u64 / target_ops,
{
    1000000000u64 / target_ops
}

/// Label of a preloaded table size in metric names.
pub fn size_label(n: usize) -> (s: &'static str)
    ensures
        s@ == if n == 1000 {
            "1k"@
        } else if n == 10000 {
            "10k"@
        } else if n == 100000 {
            "100k"@
        } else {
            "other"@
        },
{
    if n == 1000 {
        "1k"
    } else if n == 10000 {
        "10k"
    } else if n == 100000 {
        "100k"
    } else {
        "other"
    }
}

/// Sequence number at which the truncation experiment cuts: half the last
/// one, rounded toward zero.
pub fn truncation_midpoint(last: LogSeq) -> (mid: LogSeq)
    ensures
        last.0 >= 0 ==> mid.0 == last.0 / 2,
        last.0 < 0 ==> mid.0 == -((-last.0) / 2),
{
    if last.0 >= 0 {
        LogSeq(last.0 / 2)
    } else {
        let m: u64 = ((-(last.0 + 1)) as u64) + 1;
        let h: u64 = m / 2;
        LogSeq(-(h as i64))
    }
}

/// `prefix` followed by the decimal form of `n`.
pub fn numbered(prefix: &str, n: u64) -> (s: String)
    ensures
        s@ == prefix@ + decimal(n as nat),
{
    let mut s = owned(prefix);
    push_decimal(&mut s, n);
    s
}

/// Partition key `partition_{idx}`.
pub fn partition_key(idx: usize) -> (k: String)
    ensures
        k@ == "partition_"@ + decimal(idx as nat),
{
    numbered("partition_", idx as u64)
}

/// Worker key `worker_{w}`.
pub fn worker_key(worker: usize) -> (k: String)
    ensures
        k@ == "worker_"@ + decimal(worker as nat),
{
    numbered("worker_", worker as u64)
}

/// Partition a load operation writes to when load is spread over `k > 1`
/// partitions: the operation index modulo `k` (an index beyond `usize`
/// counts as 0).
pub fn load_partition_index(op_index: u64, k: usize) -> (idx: usize)
    requires
        k > 0,
    ensures
        idx == (if op_index <= usize::MAX { op_index as int } else { 0 }) % (k as int),
{
    let i: usize = if op_index <= usize::MAX as u64 { op_index as usize } else { 0 };
    i % k
}

/// Partition of a worker in the spread-key workload: `offset + worker % k`.
pub fn spread_partition_index(offset: usize, worker: usize, k: usize) -> (idx: usize)
    requires
        k > 0,
        offset + worker % k <= usize::MAX,
    ensures
        idx == offset + worker % k,
{
    offset + worker % k
}

/// A count from an environment variable's value: the value parsed as a
/// `usize`, else `default`.
pub fn env_count_or(value: Option<&str>, default: usize) -> (n: usize)
    ensures
        n == match value {
            Some(v) => match parse_uint_spec(v@, usize::MAX as nat) {
                Some(k) => k as int,
                None => default as int,
            },
            None => default as int,
        },
{
    match value {
        Some(v) => match parse_uint(v, usize::MAX as u64) {
            Some(k) => k as usize,
            None => default,
        },
        None => default,
    }
}

/// Rows the multi-partition read experiment expects: `k` partitions of `per` rows.
pub fn expected_rows(k: usize, per: usize) -> (n: usize)
    requires
        k * per <= usize::MAX,
    ensures
        n == k * per,
{
    k * per
}

/// Standard stream of an experiment: destination `bench` on the storage's
/// backend kind, the given topic, no partition key.
pub fn bench_stream(storage: Storage, topic: &str) -> (s: LogStreamId)
    ensures
        s@.destination.logical == "bench"@,
        s@.destination.kind == crate::dimensions::backend_kind_spec(storage),
        s@.topic == topic@,
        s@.key is None,
{
    LogStreamId::new(LogDestination::new("bench", backend_kind(storage)), topic, None)
}

/// Stream of one load operation: the experiment's standard stream, keyed by
/// `partition_{i}` with `i` from `load_partition_index` when the load is
/// spread over `k > 1` partitions, unkeyed otherwise.
pub fn bench_stream_for_load(storage: Storage, topic: &str, op_index: u64, k: usize) -> (s: LogStreamId)
    ensures
        s@.destination.logical == "bench"@,
        s@.destination.kind == crate::dimensions::backend_kind_spec(storage),
        s@.topic == topic@,
        k > 1 ==> s@.key == Some(
            "partition_"@ + decimal(
                ((if op_index <= usize::MAX { op_index as int } else { 0 }) % (k as int)) as nat,
            ),
        ),
        k <= 1 ==> s@.key is None,
{
    let mut stream = bench_stream(storage, topic);
    if k > 1 {
        stream.key = Some(partition_key(load_partition_index(op_index, k)));
    }
    stream
}

/// Fixed ciphertext payload size for comparability across experiments.
pub const PAYLOAD_BYTES: usize = 256;

/// The payload of a benchmark record: `PAYLOAD_BYTES` zero bytes.
pub fn bench_payload() -> (p: Vec<u8>)
    ensures
        p@ == Seq::new(PAYLOAD_BYTES as nat, |i: int| 0u8),
{
    let mut p: Vec<u8> = Vec::new();
    let mut i: usize = 0;
    while i < PAYLOAD_BYTES
        invariant
            i <= PAYLOAD_BYTES,
            p@ == Seq::new(i as nat, |j: int| 0u8),
        decreases PAYLOAD_BYTES - i,
    {
        p.push(0u8);
        assert(p@ =~= Seq::new((i + 1) as nat, |j: int| 0u8));
        i = i + 1;
    }
    p
}

/// Progress of a paged scan of a stream in batches read after a cursor.
#[derive(Clone, Copy, Debug, PartialEq, Eq, Structural)]
pub struct PageScan {
    /// Rows seen so far.
    pub total: u64,
    /// Where the next batch starts (after this sequence number).
    pub cursor: LogSeq,
}

impl PageScan {
    /// A scan starting after `after`.
    pub fn new(after: LogSeq) -> (s: Self)
        ensures
            s == (PageScan { total: 0, cursor: after }),
    {
        PageScan { total: 0, cursor: after }
    }

    /// Takes in one batch, given its length and the sequence number of its
    /// last row: an empty batch ends the scan (`false`); otherwise the rows
    /// are counted and the cursor moves to the last one.
    pub fn advance(&mut self, batch_len: u64, last_seq: LogSeq) -> (more: bool)
        requires
            old(self).total + batch_len <= u64::MAX,
        ensures
            more == (batch_len > 0),
            !more ==> *final(self) == *old(self),
            more ==> *final(self) == (PageScan { total: (old(self).total + batch_len) as u64, cursor: last_seq }),
    {
        if batch_len == 0 {
            return false;
        }
        self.total = self.total + batch_len;
        self.cursor = last_seq;
        true
    }
}

/// A summary tagged with the run's storage and telemetry: `summary (storage/telemetry)`.
pub fn tagged_summary(summary: &str, storage: &str, telemetry: &str) -> (s: String)
    ensures
        s@ == summary@ + " ("@ + storage@ + "/"@ + telemetry@ + ")"@,
{
    let a = concat(summary, " (");
    let b = concat(a.as_str(), storage);
    let c = concat(b.as_str(), "/");
    let d = concat(c.as_str(), telemetry);
    concat(d.as_str(), ")")
}

/// Adds one more run's summary to an experiment's results cell, after `; `.
pub fn append_summary(cell: &mut String, summary: &str)
    ensures
        final(cell)@ == old(cell)@ + "; "@ + summary@,
{
    cell.append("; ");
    cell.append(summary);
}

/// A table line after writing `result` into the results column of the row
/// keyed `key`: a line that starts with `|`, mentions the key and has at least
/// six `|`-separated pieces keeps its first four columns and gets the result
/// as its fifth; every other line stays as it is.
pub open spec fn patch_line_spec(line: Seq<char>, key: Seq<char>, result: Seq<char>) -> Seq<char> {
    let cols = split_spec(line, '|');
    if line.len() > 0 && line[0] == '|' && contains_spec(line, key) && cols.len() >= 6 {
        seq!['|'] + cols[1] + seq!['|'] + cols[2] + seq!['|'] + cols[3] + seq!['|'] + cols[4] + "| "@ + result + " |"@
    } else {
        line
    }
}

/// Writes a result into one line of the experiments table.
pub fn patch_results_line(line: &str, key: &str, result: &str) -> (out: String)
    ensures
        out@ == patch_line_spec(line@, key@, result@),
{
    let starts = line.unicode_len() > 0 && line.get_char(0) == '|';
    if !(starts && contains(line, key)) {
        return owned(line);
    }
    let cols = split_on(line, '|');
    if cols.len() < 6 {
        return owned(line);
    }
    let mut out = String::new();
    push_char(&mut out, '|');
    out.append(cols[1].as_str());
    push_char(&mut out, '|');
    out.append(cols[2].as_str());
    push_char(&mut out, '|');
    out.append(cols[3].as_str());
    push_char(&mut out, '|');
    out.append(cols[4].as_str());
    out.append("| ");
    out.append(result);
    out.append(" |");
    out
}

/// Writes a result into every line of the table that carries the row key.
pub fn patch_results_table(lines: &Vec<String>, key: &str, result: &str) -> (out: Vec<String>)
    ensures
        out@.len() == lines@.len(),
        forall|i: int| 0 <= i < lines@.len() ==> #[trigger] out@[i]@ == patch_line_spec(lines@[i]@, key@, result@),
{
    let mut out: Vec<String> = Vec::new();
    let mut i: usize = 0;
    while i < lines.len()
        invariant
            i <= lines@.len(),
            out@.len() == i,
            forall|j: int| 0 <= j < i ==> #[trigger] out@[j]@ == patch_line_spec(lines@[j]@, key@, result@),
        decreases lines@.len() - i,
    {
        out.push(patch_results_line(lines[i].as_str(), key, result));
        i = i + 1;
    }
    out
}

/// Local disk path of an engine, when it keeps its data in a file or directory:
/// a `rocksdb://` path, or a `sqlite://` URL without its query.
pub open spec fn disk_path_spec(engine_path: Seq<char>) -> Option<Seq<char>> {
    if "rocksdb://"@.is_prefix_of(engine_path) {
        Some(engine_path.skip(10))
    } else if "sqlite://"@.is_prefix_of(engine_path) {
        Some(split_spec(engine_path.skip(9), '?')[0])
    } else {
        None
    }
}

/// Parse an engine path into a local disk path when applicable.
pub fn storage_disk_path(engine_path: &str) -> (p: Option<String>)
    ensures
        match p {
            Some(s) => disk_path_spec(engine_path@) == Some(s@),
            None => disk_path_spec(engine_path@) is None,
        },
{
    proof {
        reveal_strlit("rocksdb://");
        reveal_strlit("sqlite://");
    }
    match strip_prefix(engine_path, "rocksdb://") {
        Some(rest) => {
            return Some(rest);
        },
        None => {},
    }
    match strip_prefix(engine_path, "sqlite://") {
        Some(rest) => {
            let mut pieces = split_on(rest.as_str(), '?');
            let first = pieces.remove(0);
            Some(first)
        },
        None => None,
    }
}

/// Sum of the file sizes a walk of a storage path found.
pub open spec fn total_size(sizes: Seq<u64>) -> int
    decreases sizes.len(),
{
    if sizes.len() == 0 {
        0
    } else {
        total_size(sizes.drop_last()) + sizes.last()
    }
}

/// A prefix of the sizes never sums to more than all of them.
proof fn lemma_total_size_prefix(sizes: Seq<u64>, i: int)
    requires
        0 <= i <= sizes.len(),
    ensures
        0 <= total_size(sizes.take(i)) <= total_size(sizes),
    decreases sizes.len(),
{
    if i == sizes.len() {
        assert(sizes.take(i) =~= sizes);
        if sizes.len() > 0 {
            lemma_total_size_prefix(sizes.drop_last(), 0);
        }
    } else {
        lemma_total_size_prefix(sizes.drop_last(), i);
        assert(sizes.drop_last().take(i) =~= sizes.take(i));
    }
}

/// Bytes held under a storage path, from one walk of it: the sizes of the
/// files found there, or `None` where reading the tree failed (counted as 0).
pub fn dir_size_bytes(walk: Option<Vec<u64>>) -> (total: u64)
    requires
        walk matches Some(sizes) ==> total_size(sizes@) <= u64::MAX,
    ensures
        total == match walk {
            Some(sizes) => total_size(sizes@),
            None => 0,
        },
{
    match walk {
        None => 0,
        Some(sizes) => {
            let mut acc: u64 = 0;
            let mut i: usize = 0;
            while i < sizes.len()
                invariant
                    i <= sizes.len(),
                    total_size(sizes@) <= u64::MAX,
                    acc == total_size(sizes@.take(i as int)),
                decreases sizes.len() - i,
            {
                proof {
                    lemma_total_size_prefix(sizes@, i + 1);
                    assert(sizes@.take(i + 1).drop_last() =~= sizes@.take(i as int));
                }
                acc = acc + sizes[i];
                i = i + 1;
            }
            proof {
                assert(sizes@.take(i as int) =~= sizes@);
            }
            acc
        },
    }
}

/// Contact points named by a comma-separated list: each piece trimmed, empty ones left out.
pub open spec fn contact_points_spec(list: Seq<char>) -> Seq<Seq<char>> {
    crate::matrix::keep_where(
        split_spec(list, ',').map_values(|p: Seq<char>| trim_spec(p)),
        |p: Seq<char>| p.len() > 0,
    )
}

/// Parses the Scylla contact point list of the benchmark environment.
pub fn parse_contact_points(list: &str) -> (cps: Vec<String>)
    ensures
        cps@.len() == contact_points_spec(list@).len(),
        forall|i: int| 0 <= i < cps@.len() ==> #[trigger] cps@[i]@ == contact_points_spec(list@)[i],
{
    let pieces = split_on(list, ',');
    let ghost trimmed = split_spec(list@, ',').map_values(|p: Seq<char>| trim_spec(p));
    let ghost k = |p: Seq<char>| p.len() > 0;
    let mut cps: Vec<String> = Vec::new();
    let mut i: usize = 0;
    assert(trimmed.take(0) =~= Seq::<Seq<char>>::empty());
    while i < pieces.len()
        invariant
            i <= pieces@.len(),
            pieces@.len() == split_spec(list@, ',').len(),
            forall|j: int| 0 <= j < pieces@.len() ==> #[trigger] pieces@[j]@ == split_spec(list@, ',')[j],
            trimmed == split_spec(list@, ',').map_values(|p: Seq<char>| trim_spec(p)),
            k == (|p: Seq<char>| p.len() > 0),
            cps@.len() == crate::matrix::keep_where(trimmed.take(i as int), k).len(),
            forall|j: int| 0 <= j < cps@.len() ==> #[trigger] cps@[j]@ == crate::matrix::keep_where(trimmed.take(i as int), k)[j],
        decreases pieces@.len() - i,
    {
        let t = trim(pieces[i].as_str());
        assert(trimmed.take(i + 1).drop_last() =~= trimmed.take(i as int));
        assert(trimmed.take(i + 1).last() == t@);
        if t.unicode_len() > 0 {
            cps.push(t);
        }
        i = i + 1;
    }
    assert(trimmed.take(pieces@.len() as int) =~= trimmed);
    cps
}

/// Engine path of a Scylla run: `scylla://{contact points joined by ,}/{keyspace}`.
pub open spec fn join_commas(parts: Seq<Seq<char>>) -> Seq<char>
    decreases parts.len(),
{
    if parts.len() == 0 {
        Seq::empty()
    } else if parts.len() == 1 {
        parts[0]
    } else {
        join_commas(parts.drop_last()) + seq![','] + parts.last()
    }
}

/// Engine path of a Scylla run.
pub fn scylla_engine_path(contact_points: &Vec<String>, keyspace: &str) -> (p: String)
    ensures
        p@ == "scylla://"@ + join_commas(contact_points@.map_values(|s: String| s@)) + "/"@ + keyspace@,
{
    let ghost v = contact_points@.map_values(|s: String| s@);
    let mut joined = String::new();
    let mut i: usize = 0;
    assert(v.take(0) =~= Seq::<Seq<char>>::empty());
    while i < contact_points.len()
        invariant
            i <= contact_points@.len(),
            v == contact_points@.map_values(|s: String| s@),
            joined@ == join_commas(v.take(i as int)),
        decreases contact_points@.len() - i,
    {
        assert(v.take(i + 1).drop_last() =~= v.take(i as int));
        assert(v.take(i + 1).last() == contact_points@[i as int]@);
        if i > 0 {
            push_char(&mut joined, ',');
        } else {
            assert(v.take(1) =~= seq![v[0]]);
        }
        joined.append(contact_points[i].as_str());
        i = i + 1;
    }
    assert(v.take(contact_points@.len() as int) =~= v);
    let a = concat("scylla://", joined.as_str());
    let b = concat(a.as_str(), "/");
    concat(b.as_str(), keyspace)
}

} // verus!
