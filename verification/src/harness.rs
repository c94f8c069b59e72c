//! Benchmark harness decisions: which engine a dimension set is served by,
//! which handle a co-tenancy run shares, and how host descriptions are read
//! out of the text that system tools print.

use vstd::prelude::*;

use crate::dimensions::{Storage, Telemetry, Topology};
use crate::text::{
    concat, contains, contains_spec, lemma_split_nonempty, owned, split_on, split_spec, starts_with,
    trim, trim_spec,
};

verus! {

/// Whether a Surreal URL names a remote server (which needs a sign-in).
pub open spec fn remote_surreal_url_spec(url: Seq<char>) -> bool {
    "ws://"@.is_prefix_of(url) || "wss://"@.is_prefix_of(url) || "http://"@.is_prefix_of(url)
        || "https://"@.is_prefix_of(url)
}

/// Whether a Surreal URL names a remote server (`ws://`, `wss://`, `http://`, `https://`).
pub fn is_remote_surreal_url(url: &str) -> (r: bool)
    ensures
        r == remote_surreal_url_spec(url@),
{
    starts_with(url, "ws://") || starts_with(url, "wss://") || starts_with(url, "http://")
        || starts_with(url, "https://")
}

/// How a storage dimension is served.
#[derive(Clone, Copy, Debug, PartialEq, Eq, Structural)]
pub enum EngineRoute {
    /// The in-process log.
    Memory,
    /// An embedded or remote Surreal engine (by topology).
    Surreal,
    /// A remote Surreal stack on `TiKV`.
    SurrealTikv,
    Sqlite,
    Postgres,
    Scylla,
    TikvRaw,
}

/// The engine serving a storage dimension.
pub open spec fn engine_route_spec(storage: Storage) -> EngineRoute {
    match storage {
        Storage::Mem => EngineRoute::Memory,
        Storage::SurrealMem | Storage::SurrealRocksdb => EngineRoute::Surreal,
        Storage::SurrealTikv => EngineRoute::SurrealTikv,
        Storage::Sqlite => EngineRoute::Sqlite,
        Storage::Postgres => EngineRoute::Postgres,
        Storage::Scylla => EngineRoute::Scylla,
        Storage::TikvRaw => EngineRoute::TikvRaw,
    }
}

/// Why a backend cannot be built for a dimension set.
#[derive(Clone, Copy, Debug, PartialEq, Eq, Structural)]
pub enum BuildRefusal {
    UnsupportedStorage(Storage),
    UnsupportedTelemetry(Telemetry),
}

/// The engine to build for a storage and telemetry mode, or why none is built.
pub fn engine_route(storage: Storage, telemetry: Telemetry) -> (r: Result<EngineRoute, BuildRefusal>)
    ensures
        (telemetry == Telemetry::Off || telemetry == Telemetry::Console) ==> r == Ok::<EngineRoute, BuildRefusal>(
            engine_route_spec(storage),
        ),
        !(telemetry == Telemetry::Off || telemetry == Telemetry::Console) ==> r == Err::<EngineRoute, BuildRefusal>(
            BuildRefusal::UnsupportedTelemetry(telemetry),
        ),
{
    if !storage.is_supported() {
        return Err(BuildRefusal::UnsupportedStorage(storage));
    }
    if !telemetry.is_supported() {
        return Err(BuildRefusal::UnsupportedTelemetry(telemetry));
    }
    match storage {
        Storage::Mem => Ok(EngineRoute::Memory),
        Storage::SurrealMem | Storage::SurrealRocksdb => Ok(EngineRoute::Surreal),
        Storage::SurrealTikv => Ok(EngineRoute::SurrealTikv),
        Storage::Sqlite => Ok(EngineRoute::Sqlite),
        Storage::Postgres => Ok(EngineRoute::Postgres),
        Storage::Scylla => Ok(EngineRoute::Scylla),
        Storage::TikvRaw => Ok(EngineRoute::TikvRaw),
    }
}

/// Whether a backend is instrumented with console telemetry (off and stub run without).
pub fn console_telemetry(telemetry: Telemetry) -> (r: bool)
    ensures
        r == (telemetry == Telemetry::Console),
{
    match telemetry {
        Telemetry::Console => true,
        _ => false,
    }
}

/// Engine handle a shared-handle run opens once and shares.
#[derive(Clone, Copy, Debug, PartialEq, Eq, Structural)]
pub enum SharedKind {
    Surreal,
    Sqlite,
    Postgres,
}

/// The handle a run shares: only shared-handle runs on an embedded Surreal,
/// `SQLite` or PostgreSQL share one; the in-process log and the remote
/// engines do not.
pub fn shared_handle_kind(storage: Storage, topology: Topology) -> (k: Option<SharedKind>)
    ensures
        topology != Topology::SharedHandle ==> k is None,
        topology == Topology::SharedHandle ==> k == match storage {
            Storage::SurrealMem | Storage::SurrealRocksdb => Some(SharedKind::Surreal),
            Storage::Sqlite => Some(SharedKind::Sqlite),
            Storage::Postgres => Some(SharedKind::Postgres),
            _ => None,
        },
{
    if topology != Topology::SharedHandle {
        return None;
    }
    match storage {
        Storage::SurrealMem | Storage::SurrealRocksdb => Some(SharedKind::Surreal),
        Storage::Sqlite => Some(SharedKind::Sqlite),
        Storage::Postgres => Some(SharedKind::Postgres),
        _ => None,
    }
}

/// How a Surreal-served run connects.
#[derive(Clone, Copy, Debug, PartialEq, Eq, Structural)]
pub enum SurrealConnection {
    /// Reuse the shared handle.
    Shared,
    /// Connect to the configured remote URL.
    Remote,
    /// Open a fresh embedded engine for the storage.
    Embedded,
}

/// How a Surreal-served run connects: a shared-handle run reuses the shared
/// handle when there is one (else opens its own embedded engine); a remote
/// run goes to the remote URL; everything else opens an embedded engine.
pub fn surreal_connection(topology: Topology, has_shared: bool) -> (c: SurrealConnection)
    ensures
        c == if topology == Topology::SharedHandle {
            if has_shared { SurrealConnection::Shared } else { SurrealConnection::Embedded }
        } else if topology == Topology::RemoteSurreal {
            SurrealConnection::Remote
        } else {
            SurrealConnection::Embedded
        },
{
    if topology == Topology::SharedHandle {
        if has_shared {
            SurrealConnection::Shared
        } else {
            SurrealConnection::Embedded
        }
    } else if topology == Topology::RemoteSurreal {
        SurrealConnection::Remote
    } else {
        SurrealConnection::Embedded
    }
}

/// What follows the first `:` of a line, trimmed; the whole line without one.
pub open spec fn after_colon(line: Seq<char>) -> Seq<char> {
    let pieces = split_spec(line, ':');
    if pieces.len() > 1 {
        trim_spec(line.skip(pieces[0].len() as int + 1))
    } else {
        line
    }
}

/// The CPU model named by the first line that starts with `model name`.
pub open spec fn cpu_model_spec(lines: Seq<Seq<char>>) -> Seq<char>
    decreases lines.len(),
{
    if lines.len() == 0 {
        "unknown"@
    } else if "model name"@.is_prefix_of(lines[0]) {
        after_colon(lines[0])
    } else {
        cpu_model_spec(lines.drop_first())
    }
}

/// The CPU model from the lines of `/proc/cpuinfo`, `unknown` when none names it.
pub fn cpu_model_from_lines(lines: &Vec<String>) -> (model: String)
    ensures
        model@ == cpu_model_spec(lines@.map_values(|l: String| l@)),
{
    let ghost v = lines@.map_values(|l: String| l@);
    let mut i: usize = 0;
    assert(v.skip(0) =~= v);
    while i < lines.len()
        invariant
            i <= lines@.len(),
            v == lines@.map_values(|l: String| l@),
            cpu_model_spec(v) == cpu_model_spec(v.skip(i as int)),
        decreases lines@.len() - i,
    {
        assert(v.skip(i as int)[0] == lines@[i as int]@);
        assert(v.skip(i as int).drop_first() =~= v.skip(i + 1));
        let line = lines[i].as_str();
        if starts_with(line, "model name") {
            let pieces = split_on(line, ':');
            if pieces.len() > 1 {
                let head_len = pieces[0].unicode_len();
                proof {
                    lemma_split_head_bound(line@, ':');
                }
                let n = line.unicode_len();
                assert(head_len < n);
                let rest = crate::text::suffix_from(line, head_len + 1);
                return trim(rest.as_str());
            }
            return owned(line);
        }
        i = i + 1;
    }
    assert(v.skip(lines@.len() as int) =~= Seq::<Seq<char>>::empty());
    owned("unknown")
}

/// The first piece of a split with at least two pieces ends before the separator.
proof fn lemma_split_head_bound(s: Seq<char>, sep: char)
    ensures
        split_spec(s, sep)[0].len() <= s.len(),
        split_spec(s, sep).len() > 1 ==> split_spec(s, sep)[0].len() < s.len(),
    decreases s.len(),
{
    if s.len() > 0 {
        let d = s.drop_last();
        lemma_split_head_bound(d, sep);
        lemma_split_nonempty(d, sep);
        let init = split_spec(d, sep);
        if s.last() == sep {
            assert(split_spec(s, sep)[0] == init[0]);
        } else if init.len() == 1 {
            assert(split_spec(s, sep)[0] == init[0].push(s.last()));
        } else {
            assert(split_spec(s, sep)[0] == init[0]);
        }
    }
}

/// Operating system label: `linux WSL2 ({uname})` when the kernel version
/// mentions `Microsoft` or `WSL`, `linux ({uname})` otherwise; `uname` trimmed.
pub fn os_label(uname: &str, version: Option<&str>) -> (label: String)
    ensures
        label@ == match version {
            Some(v) if contains_spec(v@, "Microsoft"@) || contains_spec(v@, "WSL"@) => "linux WSL2 ("@ + trim_spec(
                uname@,
            ) + ")"@,
            _ => "linux ("@ + trim_spec(uname@) + ")"@,
        },
{
    let u = trim(uname);
    let wsl = match version {
        Some(v) => contains(v, "Microsoft") || contains(v, "WSL"),
        None => false,
    };
    let head = if wsl { concat("linux WSL2 (", u.as_str()) } else { concat("linux (", u.as_str()) };
    concat(head.as_str(), ")")
}

} // verus!
