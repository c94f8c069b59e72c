//! Raw TiKV transport log: configuration and the decisions taken between
//! transaction attempts.

use vstd::prelude::*;

use crate::text::{concat, contains, contains_spec, owned};
use crate::types::LogError;

verus! {

/// Connection settings for the raw TiKV backend.
pub struct TikvRawLogConfig {
    /// PD endpoint(s), e.g. `127.0.0.1:2379`.
    pub pd_endpoints: Vec<String>,
}

impl Default for TikvRawLogConfig {
    fn default() -> (c: Self)
        ensures
            c.pd_endpoints@.len() == 0,
    {
        TikvRawLogConfig { pd_endpoints: Vec::new() }
    }
}

/// Attempts of one optimistic transaction before giving up.
pub const TXN_ATTEMPTS: u32 = 16;

/// Whether a driver message reports a write conflict.
pub open spec fn conflict_text(msg: Seq<char>) -> bool {
    contains_spec(msg, "write conflict"@) || contains_spec(msg, "Conflict"@)
}

/// Whether a driver message reports a write conflict (`write conflict` or `Conflict` in it).
pub fn is_conflict_text(msg: &str) -> (r: bool)
    ensures
        r == conflict_text(msg@),
{
    contains(msg, "write conflict") || contains(msg, "Conflict")
}

/// After a failed commit of a block reservation on attempt `attempt`
/// (from 0): retry when attempts remain and the failure was a write
/// conflict; otherwise the error is returned.
pub fn reservation_should_retry(attempt: u32, msg: &str) -> (r: bool)
    ensures
        r == (attempt + 1 < TXN_ATTEMPTS && conflict_text(msg@)),
{
    if attempt < TXN_ATTEMPTS - 1 {
        is_conflict_text(msg)
    } else {
        false
    }
}

/// After a failed write transaction of an append on attempt `attempt`
/// (from 0): retry when attempts remain and the failure was a conflict, or a
/// backend error whose text reports a write conflict.
pub fn append_write_should_retry(attempt: u32, err: &LogError) -> (r: bool)
    ensures
        r == (attempt + 1 < TXN_ATTEMPTS && (err is Conflict || (err is Backend && conflict_text(err->Backend_0@)))),
{
    if attempt >= TXN_ATTEMPTS - 1 {
        return false;
    }
    match err {
        LogError::Conflict(_) => true,
        LogError::Backend(msg) => is_conflict_text(msg.as_str()),
        _ => false,
    }
}

/// Row limit of a range scan (`u32::try_from(limit).unwrap_or(u32::MAX)`).
pub fn scan_limit(limit: usize) -> (n: u32)
    ensures
        n == if limit <= u32::MAX { limit as int } else { u32::MAX as int },
{
    if limit as u64 <= 4294967295u64 {
        limit as u32
    } else {
        u32::MAX
    }
}

/// Rows a truncation removed (`u64::try_from(len).unwrap_or(0)`).
pub fn removed_rows(len: usize) -> (n: u64)
    ensures
        n == len,
{
    len as u64
}

/// Engine path reported for a PD endpoint.
pub fn engine_path(endpoint: &str) -> (p: String)
    ensures
        p@ == "tikv://"@ + endpoint@,
{
    concat("tikv://", endpoint)
}

/// The error once a block reservation runs out of attempts.
pub fn reservation_exhausted() -> (e: LogError)
    ensures
        e matches LogError::Conflict(m) && m@ == "tikv seq block reservation exhausted retries"@,
{
    LogError::Conflict(owned("tikv seq block reservation exhausted retries"))
}

/// The error once an append's write runs out of attempts.
pub fn append_exhausted() -> (e: LogError)
    ensures
        e matches LogError::Conflict(m) && m@ == "tikv append write exhausted retries"@,
{
    LogError::Conflict(owned("tikv append write exhausted retries"))
}

} // verus!
