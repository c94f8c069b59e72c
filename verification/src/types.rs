//! Stream identities, records and errors of the transport log.

use vstd::prelude::*;

use crate::text::{owned, push_char};

verus! {

/// Per-stream sequence number; the first record of a stream gets `LogSeq(1)`.
#[derive(Clone, Copy, Debug, PartialEq, Eq, Structural)]
pub struct LogSeq(pub i64);

/// Largest `limit` accepted by reads.
pub const MAX_READ_LIMIT: usize = 10000;

/// Separator between the parts of a storage key.
pub const STORAGE_KEY_SEP: char = '|';

/// Backend family a destination is routed to.
#[derive(Clone, Copy, Debug, PartialEq, Eq, Structural)]
pub enum LogBackendKind {
    Memory,
    Sqlite,
    Postgres,
    SurrealLocal,
    Scylla,
    TikvRaw,
}

/// Textual name of a backend kind inside router keys.
pub open spec fn kind_name(kind: LogBackendKind) -> Seq<char> {
    match kind {
        LogBackendKind::Memory => "memory"@,
        LogBackendKind::Sqlite => "sqlite"@,
        LogBackendKind::Postgres => "postgres"@,
        LogBackendKind::SurrealLocal => "surreal-local"@,
        LogBackendKind::Scylla => "scylla"@,
        LogBackendKind::TikvRaw => "tikv-raw"@,
    }
}

impl LogBackendKind {
    /// Textual name of the kind.
    pub fn as_str(self) -> (s: &'static str)
        ensures
            s@ == kind_name(self),
    {
        match self {
            LogBackendKind::Memory => "memory",
            LogBackendKind::Sqlite => "sqlite",
            LogBackendKind::Postgres => "postgres",
            LogBackendKind::SurrealLocal => "surreal-local",
            LogBackendKind::Scylla => "scylla",
            LogBackendKind::TikvRaw => "tikv-raw",
        }
    }
}

/// Logical destination: a name plus the backend family serving it.
#[derive(Debug)]
pub struct LogDestination {
    pub logical: String,
    pub kind: LogBackendKind,
}

/// Abstract value of a [`LogDestination`].
pub struct DestinationView {
    pub logical: Seq<char>,
    pub kind: LogBackendKind,
}

impl View for LogDestination {
    type V = DestinationView;

    open spec fn view(&self) -> DestinationView {
        DestinationView { logical: self.logical@, kind: self.kind }
    }
}

/// `logical@kind`: the part of every storage key that names the destination.
pub open spec fn router_key_spec(d: DestinationView) -> Seq<char> {
    d.logical.push('@') + kind_name(d.kind)
}

impl LogDestination {
    /// New destination.
    pub fn new(logical: &str, kind: LogBackendKind) -> (d: Self)
        ensures
            d@ == (DestinationView { logical: logical@, kind }),
    {
        LogDestination { logical: owned(logical), kind }
    }

    /// Copy with the same abstract value.
    pub fn duplicate(&self) -> (d: Self)
        ensures
            d@ == self@,
    {
        LogDestination { logical: self.logical.clone(), kind: self.kind }
    }

    /// Router key `logical@kind`.
    pub fn router_key(&self) -> (k: String)
        ensures
            k@ == router_key_spec(self@),
    {
        let mut k = self.logical.clone();
        push_char(&mut k, '@');
        k.append(self.kind.as_str());
        k
    }

    /// Whether two destinations have the same name and kind.
    pub fn same_as(&self, other: &LogDestination) -> (r: bool)
        ensures
            r == (self@ == other@),
    {
        self.kind == other.kind && self.logical == other.logical
    }
}

/// View of an optional string.
pub open spec fn opt_view(o: Option<String>) -> Option<Seq<char>> {
    match o {
        Some(s) => Some(s@),
        None => None,
    }
}

/// View of an optional string slice.
pub open spec fn opt_str_view(o: Option<&str>) -> Option<Seq<char>> {
    match o {
        Some(s) => Some(s@),
        None => None,
    }
}

/// Copy of an optional string with the same view.
pub fn copy_opt_string(o: &Option<String>) -> (r: Option<String>)
    ensures
        opt_view(r) == opt_view(*o),
{
    match o {
        Some(s) => Some(s.clone()),
        None => None,
    }
}

/// Whether two optional strings have the same view.
pub fn opt_string_eq(a: &Option<String>, b: &Option<String>) -> (r: bool)
    ensures
        r == (opt_view(*a) == opt_view(*b)),
{
    match (a, b) {
        (Some(x), Some(y)) => crate::text::str_eq(x.as_str(), y.as_str()),
        (None, None) => true,
        _ => false,
    }
}

/// Byte-for-byte copy of a payload.
pub fn copy_bytes(v: &Vec<u8>) -> (r: Vec<u8>)
    ensures
        r@ == v@,
{
    let mut out: Vec<u8> = Vec::new();
    let mut i: usize = 0;
    while i < v.len()
        invariant
            i <= v@.len(),
            out@ == v@.subrange(0, i as int),
        decreases v@.len() - i,
    {
        out.push(v[i]);
        assert(v@.subrange(0, i + 1) == v@.subrange(0, i as int).push(v@[i as int]));
        i = i + 1;
    }
    assert(v@.subrange(0, v@.len() as int) == v@);
    out
}

/// A stream: destination, topic and optional partition key.
#[derive(Debug)]
pub struct LogStreamId {
    pub destination: LogDestination,
    pub topic: String,
    pub key: Option<String>,
}

/// Abstract value of a [`LogStreamId`].
pub struct StreamIdView {
    pub destination: DestinationView,
    pub topic: Seq<char>,
    pub key: Option<Seq<char>>,
}

impl View for LogStreamId {
    type V = StreamIdView;

    open spec fn view(&self) -> StreamIdView {
        StreamIdView {
            destination: self.destination@,
            topic: self.topic@,
            key: opt_view(self.key),
        }
    }
}

/// The partition key, or nothing when the stream has none.
pub open spec fn key_or_empty(key: Option<Seq<char>>) -> Seq<char> {
    match key {
        Some(k) => k,
        None => Seq::empty(),
    }
}

/// `router|topic|`: the prefix shared by every stream of a topic.
pub open spec fn topic_prefix_spec(d: DestinationView, topic: Seq<char>) -> Seq<char> {
    router_key_spec(d).push('|') + topic.push('|')
}

/// `router|topic|key`: the storage key of a stream (`key` empty when absent).
pub open spec fn storage_key_spec(s: StreamIdView) -> Seq<char> {
    topic_prefix_spec(s.destination, s.topic) + key_or_empty(s.key)
}

/// Builds `router|topic|` for a destination and topic.
pub fn topic_prefix(destination: &LogDestination, topic: &str) -> (p: String)
    ensures
        p@ == topic_prefix_spec(destination@, topic@),
{
    let mut p = destination.router_key();
    push_char(&mut p, '|');
    p.append(topic);
    push_char(&mut p, '|');
    p
}

impl LogStreamId {
    /// New stream id.
    pub fn new(destination: LogDestination, topic: &str, key: Option<String>) -> (s: Self)
        ensures
            s@ == (StreamIdView { destination: destination@, topic: topic@, key: opt_view(key) }),
    {
        LogStreamId { destination, topic: owned(topic), key }
    }

    /// Copy with the same abstract value.
    pub fn duplicate(&self) -> (s: Self)
        ensures
            s@ == self@,
    {
        LogStreamId {
            destination: self.destination.duplicate(),
            topic: self.topic.clone(),
            key: copy_opt_string(&self.key),
        }
    }

    /// Storage key `router|topic|key`.
    pub fn storage_key(&self) -> (k: String)
        ensures
            k@ == storage_key_spec(self@),
    {
        let mut k = topic_prefix(&self.destination, self.topic.as_str());
        match &self.key {
            Some(key) => k.append(key.as_str()),
            None => {},
        }
        k
    }
}

/// A record handed to `append`; the event id is a UUID taken as its 128-bit value.
#[derive(Debug)]
pub struct AppendRecord {
    pub event_id: u128,
    pub ts_millis: i64,
    pub attempt: u32,
    pub actor_ref: Option<String>,
    pub payload_ciphertext: Vec<u8>,
}

/// Abstract value of an [`AppendRecord`].
pub struct AppendRecordView {
    pub event_id: u128,
    pub ts_millis: i64,
    pub attempt: u32,
    pub actor_ref: Option<Seq<char>>,
    pub payload: Seq<u8>,
}

impl View for AppendRecord {
    type V = AppendRecordView;

    open spec fn view(&self) -> AppendRecordView {
        AppendRecordView {
            event_id: self.event_id,
            ts_millis: self.ts_millis,
            attempt: self.attempt,
            actor_ref: opt_view(self.actor_ref),
            payload: self.payload_ciphertext@,
        }
    }
}

impl AppendRecord {
    /// First attempt of an event, without an actor reference.
    pub fn new(event_id: u128, payload_ciphertext: Vec<u8>, ts_millis: i64) -> (r: Self)
        ensures
            r@ == (AppendRecordView {
                event_id,
                ts_millis,
                attempt: 0,
                actor_ref: None,
                payload: payload_ciphertext@,
            }),
    {
        AppendRecord { event_id, ts_millis, attempt: 0, actor_ref: None, payload_ciphertext }
    }
}

/// A stored record as read back from a stream.
#[derive(Debug)]
pub struct EventRecord {
    pub destination: LogDestination,
    pub event_id: u128,
    pub topic: String,
    pub key: Option<String>,
    pub seq: LogSeq,
    pub ts_millis: i64,
    pub attempt: u32,
    pub actor_ref: Option<String>,
    pub payload_ciphertext: Vec<u8>,
}

/// Abstract value of an [`EventRecord`].
pub struct EventRecordView {
    pub destination: DestinationView,
    pub event_id: u128,
    pub topic: Seq<char>,
    pub key: Option<Seq<char>>,
    pub seq: i64,
    pub ts_millis: i64,
    pub attempt: u32,
    pub actor_ref: Option<Seq<char>>,
    pub payload: Seq<u8>,
}

impl View for EventRecord {
    type V = EventRecordView;

    open spec fn view(&self) -> EventRecordView {
        EventRecordView {
            destination: self.destination@,
            event_id: self.event_id,
            topic: self.topic@,
            key: opt_view(self.key),
            seq: self.seq.0,
            ts_millis: self.ts_millis,
            attempt: self.attempt,
            actor_ref: opt_view(self.actor_ref),
            payload: self.payload_ciphertext@,
        }
    }
}

/// The record stored when `rec` is appended to `stream` under `seq`.
pub open spec fn stored_record(stream: StreamIdView, rec: AppendRecordView, seq: i64) -> EventRecordView {
    EventRecordView {
        destination: stream.destination,
        event_id: rec.event_id,
        topic: stream.topic,
        key: stream.key,
        seq,
        ts_millis: rec.ts_millis,
        attempt: rec.attempt,
        actor_ref: rec.actor_ref,
        payload: rec.payload,
    }
}

/// Views of a sequence of records.
pub open spec fn records_view(s: Seq<EventRecord>) -> Seq<EventRecordView> {
    s.map_values(|r: EventRecord| r@)
}

impl EventRecord {
    /// Builds the stored form of `rec` on `stream` with sequence `seq`.
    pub fn stored(stream: &LogStreamId, rec: &AppendRecord, seq: LogSeq) -> (r: Self)
        ensures
            r@ == stored_record(stream@, rec@, seq.0),
    {
        EventRecord {
            destination: stream.destination.duplicate(),
            event_id: rec.event_id,
            topic: stream.topic.clone(),
            key: copy_opt_string(&stream.key),
            seq,
            ts_millis: rec.ts_millis,
            attempt: rec.attempt,
            actor_ref: copy_opt_string(&rec.actor_ref),
            payload_ciphertext: copy_bytes(&rec.payload_ciphertext),
        }
    }

    /// Copy with the same abstract value.
    pub fn duplicate(&self) -> (r: Self)
        ensures
            r@ == self@,
    {
        EventRecord {
            destination: self.destination.duplicate(),
            event_id: self.event_id,
            topic: self.topic.clone(),
            key: copy_opt_string(&self.key),
            seq: self.seq,
            ts_millis: self.ts_millis,
            attempt: self.attempt,
            actor_ref: copy_opt_string(&self.actor_ref),
            payload_ciphertext: copy_bytes(&self.payload_ciphertext),
        }
    }
}

/// Subscription (consumer group) identifier.
#[derive(Debug)]
pub struct SubscriptionId(pub String);

impl SubscriptionId {
    /// New subscription id.
    pub fn new(name: &str) -> (s: Self)
        ensures
            s.0@ == name@,
    {
        SubscriptionId(owned(name))
    }
}

/// Errors of log operations.
#[derive(Debug)]
pub enum LogError {
    /// The request is malformed (empty topic, read limit out of range).
    Validation(String),
    /// A concurrent writer or an idempotency race won.
    Conflict(String),
    /// The storage engine failed.
    Backend(String),
    /// An internal invariant of the backend broke.
    Internal(String),
}

/// Whether a topic is acceptable: it must not be empty.
pub open spec fn topic_is_valid(topic: Seq<char>) -> bool {
    topic.len() > 0
}

/// Rejects an empty topic with [`LogError::Validation`].
pub fn validate_topic(topic: &str) -> (r: Result<(), LogError>)
    ensures
        r is Ok <==> topic_is_valid(topic@),
        r is Err ==> r->Err_0 is Validation,
{
    if topic.unicode_len() == 0 {
        Err(LogError::Validation(owned("topic must not be empty")))
    } else {
        Ok(())
    }
}

/// Whether a read limit is acceptable: at most [`MAX_READ_LIMIT`].
pub open spec fn read_limit_is_valid(limit: usize) -> bool {
    limit <= MAX_READ_LIMIT
}

/// Rejects a read limit above [`MAX_READ_LIMIT`] with [`LogError::Validation`].
pub fn validate_read_limit(limit: usize) -> (r: Result<(), LogError>)
    ensures
        r is Ok <==> read_limit_is_valid(limit),
        r is Err ==> r->Err_0 is Validation,
{
    if limit > MAX_READ_LIMIT {
        Err(LogError::Validation(owned("read limit exceeds the maximum")))
    } else {
        Ok(())
    }
}

} // verus!
