//! SurrealDB transport log: namespace selection, the bootstrap schema, and
//! the conversions checked before a query is sent.

use vstd::prelude::*;

use crate::text::{concat, decimal, owned, u64_to_string};
use crate::types::LogError;

verus! {

/// Namespace/database selection for the Surreal backend.
pub struct SurrealLogConfig {
    /// Surreal namespace (optional — host may already select ns/db on the client).
    pub namespace: Option<String>,
    /// Surreal database name.
    pub database: Option<String>,
}

impl Default for SurrealLogConfig {
    fn default() -> (c: Self)
        ensures
            c.namespace matches Some(n) && n@ == "continuum"@,
            c.database matches Some(d) && d@ == "transport"@,
    {
        SurrealLogConfig { namespace: Some(owned("continuum")), database: Some(owned("transport")) }
    }
}

/// Schema bootstrap: event, stream counter and checkpoint tables with their
/// unique and ordered indexes.
pub const SCHEMA: &'static str = "
DEFINE TABLE IF NOT EXISTS continuum_event SCHEMAFULL;
DEFINE FIELD stream_key ON TABLE continuum_event TYPE string;
DEFINE FIELD seq ON TABLE continuum_event TYPE int;
DEFINE FIELD event_id ON TABLE continuum_event TYPE string;
DEFINE FIELD ts_millis ON TABLE continuum_event TYPE int;
DEFINE FIELD attempt ON TABLE continuum_event TYPE int;
DEFINE FIELD actor_ref ON TABLE continuum_event TYPE option<string>;
DEFINE FIELD payload_ciphertext ON TABLE continuum_event TYPE array<int>;
DEFINE INDEX continuum_event_id ON TABLE continuum_event FIELDS stream_key, event_id UNIQUE;
DEFINE INDEX continuum_stream_seq ON TABLE continuum_event FIELDS stream_key, seq;

DEFINE TABLE IF NOT EXISTS continuum_stream SCHEMAFULL;
DEFINE FIELD stream_key ON TABLE continuum_stream TYPE string;
DEFINE FIELD next_seq ON TABLE continuum_stream TYPE int DEFAULT 0;
DEFINE INDEX continuum_stream_key ON TABLE continuum_stream FIELDS stream_key UNIQUE;

DEFINE TABLE IF NOT EXISTS continuum_checkpoint SCHEMAFULL;
DEFINE FIELD subscription ON TABLE continuum_checkpoint TYPE string;
DEFINE FIELD stream_key ON TABLE continuum_checkpoint TYPE string;
DEFINE FIELD seq ON TABLE continuum_checkpoint TYPE int;
DEFINE INDEX continuum_checkpoint_key ON TABLE continuum_checkpoint FIELDS subscription, stream_key UNIQUE;
";

/// A count as the `i64` a query binds, refused (as a validation error that
/// names it) above `i64::MAX`: `what` is `batch size` for appends and
/// `read limit` for reads.
pub fn count_as_i64(what: &str, count: usize) -> (r: Result<i64, LogError>)
    ensures
        count <= i64::MAX ==> r == Ok::<i64, LogError>(count as i64),
        count > i64::MAX ==> (r matches Err(LogError::Validation(m)) && m@ == what@ + " "@ + decimal(
            count as nat,
        ) + " exceeds i64::MAX"@),
{
    if count as u64 <= 9223372036854775807u64 {
        Ok(count as i64)
    } else {
        let head = concat(what, " ");
        let digits = u64_to_string(count as u64);
        let mid = concat(head.as_str(), digits.as_str());
        Err(LogError::Validation(concat(mid.as_str(), " exceeds i64::MAX")))
    }
}

} // verus!
