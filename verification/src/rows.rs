//! Stored rows read back as records: the event id parsed from its text, the
//! attempt counter from its signed column, and the stream's identity added.

use vstd::prelude::*;

use crate::tikv_keys::{uuid_hyphenated, uuid_text};
use crate::types::{
    opt_view, EventRecord, EventRecordView, LogSeq, LogStreamId, StreamIdView,
};

verus! {

/// What `uuid::Uuid::parse_str` makes of a text, as a 128-bit value.
pub uninterp spec fn uuid_parsed(text: Seq<char>) -> Option<u128>;

/// `uuid::Uuid::parse_str(text)`, taken as its 128-bit value. The crate
/// reads simple, hyphenated, braced and URN forms (the result is named, not
/// written out); in particular the lower-case hyphenated form of a value,
/// which the crate's `Display` writes, reads back as that value.
#[verifier::external_body]
fn parse_uuid(text: &str) -> (r: Option<u128>)
    ensures
        r == uuid_parsed(text@),
        forall|v: u128| text@ == #[trigger] uuid_hyphenated(v) ==> r == Some(v),
{
    uuid::Uuid::parse_str(text).ok().map(|u| u.as_u128())
}

/// The text stored in a row's event id column: the id's lower-case
/// hyphenated UUID form, which `row_to_event` reads back as the same id.
pub fn event_id_column(event_id: u128) -> (s: String)
    ensures
        s@ == uuid_hyphenated(event_id),
{
    uuid_text(event_id)
}

/// A signed attempt column read back as the record's counter (two's complement).
pub fn attempt_from_column(attempt: i32) -> (a: u32)
    ensures
        attempt >= 0 ==> a == attempt,
        attempt < 0 ==> a == attempt + 4294967296,
{
    if attempt >= 0 {
        attempt as u32
    } else {
        let m: u32 = (-(attempt as i64) - 1) as u32;
        u32::MAX - m
    }
}

/// Columns of a stored event row.
pub struct EventRow {
    pub seq: i64,
    pub event_id: String,
    pub ts_millis: i64,
    pub attempt: i32,
    pub actor_ref: Option<String>,
    pub payload_ciphertext: Vec<u8>,
}

/// The record a row stands for on a stream, given its event id.
pub open spec fn row_record(stream: StreamIdView, key: Option<Seq<char>>, id: u128, row: EventRow) -> EventRecordView {
    EventRecordView {
        destination: stream.destination,
        event_id: id,
        topic: stream.topic,
        key,
        seq: row.seq,
        ts_millis: row.ts_millis,
        attempt: (if row.attempt >= 0 { row.attempt as int } else { row.attempt + 4294967296 }) as u32,
        actor_ref: opt_view(row.actor_ref),
        payload: row.payload_ciphertext@,
    }
}

/// The record of a row whose event id has been parsed: none when the id did not parse.
pub fn event_from_row(stream: &LogStreamId, key: Option<String>, event_id: Option<u128>, row: EventRow) -> (r: Option<EventRecord>)
    ensures
        match event_id {
            None => r is None,
            Some(id) => r matches Some(rec) && rec@ == row_record(stream@, opt_view(key), id, row),
        },
{
    match event_id {
        None => None,
        Some(id) => {
            let attempt = attempt_from_column(row.attempt);
            Some(EventRecord {
                destination: stream.destination.duplicate(),
                event_id: id,
                topic: stream.topic.clone(),
                key,
                seq: LogSeq(row.seq),
                ts_millis: row.ts_millis,
                attempt,
                actor_ref: row.actor_ref,
                payload_ciphertext: row.payload_ciphertext,
            })
        },
    }
}

/// Reads a stored row back as a record of `stream` with partition `key`;
/// a row whose event id is not a UUID is left out.
pub fn row_to_event(stream: &LogStreamId, key: Option<String>, row: EventRow) -> (r: Option<EventRecord>)
    ensures
        match uuid_parsed(row.event_id@) {
            None => r is None,
            Some(id) => r matches Some(rec) && rec@ == row_record(stream@, opt_view(key), id, row),
        },
        forall|v: u128| row.event_id@ == #[trigger] uuid_hyphenated(v) ==> (r matches Some(rec) && rec@ == row_record(
            stream@,
            opt_view(key),
            v,
            row,
        )),
{
    let id = parse_uuid(row.event_id.as_str());
    event_from_row(stream, key, id, row)
}

} // verus!
