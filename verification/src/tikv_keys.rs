//! Key layout of the raw TiKV transport log: stream metadata, events in
//! sequence order, idempotency markers, checkpoints and the per-topic stream
//! index, all under the `continuum/` prefix.

use vstd::prelude::*;
use vstd::arithmetic::power::pow;
use vstd::utf8::{decode_utf8, encode_utf8, valid_utf8};
use vstd::bytes::{
    lemma_auto_spec_u64_to_from_le_bytes, spec_u64_from_le_bytes, spec_u64_to_le_bytes,
    u64_from_le_bytes, u64_to_le_bytes,
};

use crate::text::{
    all_digits, decimal, digit_char, digits_value, lemma_decimal_digits, parse_i64, parse_i64_spec, push_char,
    strip_prefix, suffix_from, zero_padded, zero_padded_string, zeros,
};
use crate::types::{LogError, LogSeq, SubscriptionId};

verus! {

/// Lower-case hexadecimal digit for `n < 16`.
pub open spec fn hex_lower(n: nat) -> char {
    if n < 10 {
        digit_char(n)
    } else {
        ((n + 87) as u32) as char
    }
}

/// The `i`-th hexadecimal digit (most significant first) of a 128-bit value.
pub open spec fn uuid_nibble(v: u128, i: int) -> nat {
    ((v as int / pow(16, (31 - i) as nat)) % 16) as nat
}

/// Hyphenated lower-case form of a UUID: 8-4-4-4-12 hex digits.
pub open spec fn uuid_hyphenated(v: u128) -> Seq<char> {
    let h = Seq::new(32, |i: int| hex_lower(uuid_nibble(v, i)));
    h.subrange(0, 8) + seq!['-'] + h.subrange(8, 12) + seq!['-'] + h.subrange(12, 16) + seq!['-']
        + h.subrange(16, 20) + seq!['-'] + h.subrange(20, 32)
}

/// `uuid::Uuid::from_u128(id).to_string()`: the crate formats the UUID whose
/// big-endian bytes are `id` as 32 lower-case hex digits grouped 8-4-4-4-12.
#[verifier::external_body]
pub(crate) fn uuid_text(id: u128) -> (s: String)
    ensures
        s@ == uuid_hyphenated(id),
{
    uuid::Uuid::from_u128(id).to_string()
}

/// `std::str::from_utf8(bytes)` into an owned string: `Ok` exactly when the
/// bytes are valid UTF-8, with the characters they encode; otherwise the
/// error's text.
#[verifier::external_body]
fn utf8_text(bytes: &[u8]) -> (r: Result<String, String>)
    ensures
        match r {
            Ok(s) => valid_utf8(bytes@) && s@ == decode_utf8(bytes@),
            Err(_) => !valid_utf8(bytes@),
        },
{
    match std::str::from_utf8(bytes) {
        Ok(s) => Ok(s.to_string()),
        Err(e) => Err(e.to_string()),
    }
}

/// `continuum/`
pub open spec fn key_root() -> Seq<char> {
    seq!['c', 'o', 'n', 't', 'i', 'n', 'u', 'u', 'm', '/']
}

/// `continuum/s/{stream_key}/` followed by `tail`.
pub open spec fn stream_scoped(stream_key: Seq<char>, tail: Seq<char>) -> Seq<char> {
    key_root() + seq!['s', '/'] + stream_key + seq!['/'] + tail
}

/// Metadata key of a stream: `continuum/s/{stream_key}/meta`.
pub open spec fn meta_key_spec(stream_key: Seq<char>) -> Seq<char> {
    stream_scoped(stream_key, seq!['m', 'e', 't', 'a'])
}

/// Prefix of a stream's event keys: `continuum/s/{stream_key}/e/`.
pub open spec fn event_prefix_spec(stream_key: Seq<char>) -> Seq<char> {
    stream_scoped(stream_key, seq!['e', '/'])
}

/// Event key: the event prefix, then the sequence number zero-padded to 20 characters.
pub open spec fn event_key_spec(stream_key: Seq<char>, seq: i64) -> Seq<char> {
    event_prefix_spec(stream_key) + zero_padded(seq as int, 20)
}

/// Idempotency marker of an event id: `continuum/s/{stream_key}/id/{uuid}`.
pub open spec fn idempotency_key_spec(stream_key: Seq<char>, event_id: u128) -> Seq<char> {
    stream_scoped(stream_key, seq!['i', 'd', '/'] + uuid_hyphenated(event_id))
}

/// Checkpoint key: `continuum/cp/{subscription}/{stream_key}`.
pub open spec fn checkpoint_key_spec(subscription: Seq<char>, stream_key: Seq<char>) -> Seq<char> {
    key_root() + seq!['c', 'p', '/'] + subscription + seq!['/'] + stream_key
}

/// Prefix of the stream index of a topic: `continuum/topic/{topic_prefix}/streams/`.
pub open spec fn topic_index_prefix_spec(topic_prefix: Seq<char>) -> Seq<char> {
    key_root() + seq!['t', 'o', 'p', 'i', 'c', '/'] + topic_prefix + seq![
        '/',
        's',
        't',
        'r',
        'e',
        'a',
        'm',
        's',
        '/',
    ]
}

/// Index entry of a stream under its topic.
pub open spec fn topic_stream_key_spec(topic_prefix: Seq<char>, stream_key: Seq<char>) -> Seq<char> {
    topic_index_prefix_spec(topic_prefix) + stream_key
}

/// The characters after the last `/` (all of them when there is none).
pub open spec fn last_segment(s: Seq<char>) -> Seq<char>
    decreases s.len(),
{
    if s.len() == 0 {
        s
    } else if s.last() == '/' {
        Seq::empty()
    } else {
        last_segment(s.drop_last()).push(s.last())
    }
}

/// The sequence number an event key ends with, if the key is UTF-8 and its
/// last segment is an `i64`.
pub open spec fn seq_from_event_key_spec(key: Seq<u8>) -> Option<i64> {
    if valid_utf8(key) {
        parse_i64_spec(last_segment(decode_utf8(key)))
    } else {
        None
    }
}

fn push_root(out: &mut String)
    ensures
        final(out)@ == old(out)@ + key_root(),
{
    push_char(out, 'c');
    push_char(out, 'o');
    push_char(out, 'n');
    push_char(out, 't');
    push_char(out, 'i');
    push_char(out, 'n');
    push_char(out, 'u');
    push_char(out, 'u');
    push_char(out, 'm');
    push_char(out, '/');
    assert(final(out)@ =~= old(out)@ + key_root());
}

fn stream_scoped_start(stream_key: &str) -> (out: String)
    ensures
        out@ == stream_scoped(stream_key@, Seq::empty()),
{
    let mut out = String::new();
    push_root(&mut out);
    push_char(&mut out, 's');
    push_char(&mut out, '/');
    out.append(stream_key);
    push_char(&mut out, '/');
    assert(out@ =~= stream_scoped(stream_key@, Seq::empty()));
    out
}

proof fn lemma_stream_scoped(stream_key: Seq<char>, tail: Seq<char>)
    ensures
        stream_scoped(stream_key, tail) == stream_scoped(stream_key, Seq::empty()) + tail,
{
    assert(stream_scoped(stream_key, tail) =~= stream_scoped(stream_key, Seq::empty()) + tail);
}

/// Metadata key of a stream.
pub fn meta_key(stream_key: &str) -> (k: String)
    ensures
        k@ == meta_key_spec(stream_key@),
{
    let mut k = stream_scoped_start(stream_key);
    push_char(&mut k, 'm');
    push_char(&mut k, 'e');
    push_char(&mut k, 't');
    push_char(&mut k, 'a');
    proof {
        lemma_stream_scoped(stream_key@, seq!['m', 'e', 't', 'a']);
    }
    assert(k@ =~= meta_key_spec(stream_key@));
    k
}

/// Prefix of a stream's event keys.
pub fn event_prefix(stream_key: &str) -> (p: String)
    ensures
        p@ == event_prefix_spec(stream_key@),
{
    let mut p = stream_scoped_start(stream_key);
    push_char(&mut p, 'e');
    push_char(&mut p, '/');
    proof {
        lemma_stream_scoped(stream_key@, seq!['e', '/']);
    }
    assert(p@ =~= event_prefix_spec(stream_key@));
    p
}

/// Key of the event with sequence number `seq`; keys of non-negative
/// sequence numbers sort in sequence order.
pub fn event_key(stream_key: &str, seq: LogSeq) -> (k: String)
    ensures
        k@ == event_key_spec(stream_key@, seq.0),
{
    let mut k = event_prefix(stream_key);
    let digits = zero_padded_string(seq.0, 20);
    k.append(digits.as_str());
    k
}

/// Idempotency marker key of `event_id` on a stream.
pub fn idempotency_key(stream_key: &str, event_id: u128) -> (k: String)
    ensures
        k@ == idempotency_key_spec(stream_key@, event_id),
{
    let mut k = stream_scoped_start(stream_key);
    push_char(&mut k, 'i');
    push_char(&mut k, 'd');
    push_char(&mut k, '/');
    let id = uuid_text(event_id);
    k.append(id.as_str());
    proof {
        lemma_stream_scoped(stream_key@, seq!['i', 'd', '/'] + uuid_hyphenated(event_id));
    }
    assert(k@ =~= idempotency_key_spec(stream_key@, event_id));
    k
}

/// Checkpoint key of a subscription on a stream.
pub fn checkpoint_key(subscription: &SubscriptionId, stream_key: &str) -> (k: String)
    ensures
        k@ == checkpoint_key_spec(subscription.0@, stream_key@),
{
    let mut k = String::new();
    push_root(&mut k);
    push_char(&mut k, 'c');
    push_char(&mut k, 'p');
    push_char(&mut k, '/');
    k.append(subscription.0.as_str());
    push_char(&mut k, '/');
    k.append(stream_key);
    assert(k@ =~= checkpoint_key_spec(subscription.0@, stream_key@));
    k
}

/// Prefix of the stream index of a topic.
pub fn topic_index_prefix(topic_prefix: &str) -> (p: String)
    ensures
        p@ == topic_index_prefix_spec(topic_prefix@),
{
    let mut p = String::new();
    push_root(&mut p);
    push_char(&mut p, 't');
    push_char(&mut p, 'o');
    push_char(&mut p, 'p');
    push_char(&mut p, 'i');
    push_char(&mut p, 'c');
    push_char(&mut p, '/');
    p.append(topic_prefix);
    push_char(&mut p, '/');
    push_char(&mut p, 's');
    push_char(&mut p, 't');
    push_char(&mut p, 'r');
    push_char(&mut p, 'e');
    push_char(&mut p, 'a');
    push_char(&mut p, 'm');
    push_char(&mut p, 's');
    push_char(&mut p, '/');
    assert(p@ =~= topic_index_prefix_spec(topic_prefix@));
    p
}

/// Index entry of a stream under its topic.
pub fn topic_stream_key(topic_prefix: &str, stream_key: &str) -> (k: String)
    ensures
        k@ == topic_stream_key_spec(topic_prefix@, stream_key@),
{
    let mut k = topic_index_prefix(topic_prefix);
    k.append(stream_key);
    k
}

/// Exclusive upper bound of a prefix scan: the prefix's UTF-8 bytes, then `0xff`.
pub fn scan_end(prefix: &str) -> (end: Vec<u8>)
    ensures
        end@ == encode_utf8(prefix@).push(0xffu8),
{
    let mut end = prefix.as_bytes_vec();
    end.push(0xff);
    end
}

fn last_segment_of(text: &str) -> (seg: String)
    ensures
        seg@ == last_segment(text@),
{
    let n = text.unicode_len();
    let mut i: usize = n;
    assert(text@.take(n as int) =~= text@);
    assert(text@.subrange(n as int, n as int) =~= Seq::<char>::empty());
    assert(last_segment(text@) == last_segment(text@.take(n as int)) + text@.subrange(n as int, n as int));
    while i > 0 && text.get_char(i - 1) != '/'
        invariant
            n == text@.len(),
            i <= n,
            last_segment(text@) == last_segment(text@.take(i as int)) + text@.subrange(i as int, n as int),
        decreases i,
    {
        let ghost t = text@.take(i as int);
        assert(t.drop_last() =~= text@.take(i - 1));
        assert(last_segment(t) == last_segment(text@.take(i - 1)).push(text@[i - 1]));
        assert(text@.subrange(i - 1, n as int) =~= seq![text@[i - 1]] + text@.subrange(i as int, n as int));
        i = i - 1;
    }
    proof {
        if i == n {
            assert(text@.take(n as int) =~= text@);
        }
        assert(last_segment(text@.take(i as int)) =~= Seq::<char>::empty());
        assert(text@.subrange(i as int, n as int) =~= text@.skip(i as int));
    }
    suffix_from(text, i)
}

/// Sequence number of an event key: the `i64` after its last `/`.
/// Keys that are not UTF-8, or whose last segment is not an `i64`, are
/// refused with [`LogError::Backend`].
pub fn seq_from_event_key(key: &[u8]) -> (r: Result<LogSeq, LogError>)
    ensures
        match seq_from_event_key_spec(key@) {
            Some(v) => r == Ok::<LogSeq, LogError>(LogSeq(v)),
            None => r is Err && r->Err_0 is Backend,
        },
{
    let text = match utf8_text(key) {
        Ok(t) => t,
        Err(msg) => {
            return Err(LogError::Backend(msg));
        },
    };
    let seg = last_segment_of(text.as_str());
    match parse_i64(seg.as_str()) {
        Some(v) => Ok(LogSeq(v)),
        None => Err(LogError::Backend(crate::text::owned("invalid sequence number in event key"))),
    }
}

/// The stream key an index entry of `topic_prefix` names; an entry that is not
/// UTF-8 or lies outside the topic's index is refused with [`LogError::Backend`].
pub fn stream_key_from_topic_index(key: &[u8], topic_prefix: &str) -> (r: Result<String, LogError>)
    ensures
        valid_utf8(key@) && topic_index_prefix_spec(topic_prefix@).is_prefix_of(decode_utf8(key@))
            ==> r is Ok && r->Ok_0@ == decode_utf8(key@).skip(topic_index_prefix_spec(topic_prefix@).len() as int),
        !(valid_utf8(key@) && topic_index_prefix_spec(topic_prefix@).is_prefix_of(decode_utf8(key@)))
            ==> r is Err && r->Err_0 is Backend,
{
    let text = match utf8_text(key) {
        Ok(t) => t,
        Err(msg) => {
            return Err(LogError::Backend(msg));
        },
    };
    let prefix = topic_index_prefix(topic_prefix);
    match strip_prefix(text.as_str(), prefix.as_str()) {
        Some(rest) => Ok(rest),
        None => Err(LogError::Backend(crate::text::owned("topic index key prefix mismatch"))),
    }
}

proof fn lemma_last_segment_after_slash(a: Seq<char>, b: Seq<char>)
    requires
        a.len() > 0,
        a.last() == '/',
        forall|i: int| 0 <= i < b.len() ==> b[i] != '/',
    ensures
        last_segment(a + b) == b,
    decreases b.len(),
{
    if b.len() == 0 {
        assert(a + b =~= a);
    } else {
        let d = b.drop_last();
        assert((a + b).drop_last() =~= a + d);
        lemma_last_segment_after_slash(a, d);
        assert(d.push(b.last()) =~= b);
    }
}

proof fn lemma_zeros_then(k: nat, d: Seq<char>)
    requires
        all_digits(d),
    ensures
        all_digits(zeros(k) + d),
        digits_value(zeros(k) + d) == digits_value(d),
    decreases d.len(),
{
    if d.len() == 0 {
        assert(zeros(k) + d =~= zeros(k));
        lemma_zeros_value(k);
    } else {
        let t = d.drop_last();
        lemma_zeros_then(k, t);
        assert((zeros(k) + d).drop_last() =~= zeros(k) + t);
    }
}

proof fn lemma_zeros_value(k: nat)
    ensures
        all_digits(zeros(k)),
        digits_value(zeros(k)) == 0,
    decreases k,
{
    if k > 0 {
        lemma_zeros_value((k - 1) as nat);
        assert(zeros(k).drop_last() =~= zeros((k - 1) as nat));
    }
}

proof fn lemma_parse_zero_padded(n: i64, w: nat)
    ensures
        parse_i64_spec(zero_padded(n as int, w)) == Some(n),
        forall|i: int| 0 <= i < zero_padded(n as int, w).len() ==> #[trigger] zero_padded(n as int, w)[i] != '/',
{
    let m: nat = if n < 0 { (-n) as nat } else { n as nat };
    let digits = decimal(m);
    lemma_decimal_digits(m);
    let sign: Seq<char> = if n < 0 { seq!['-'] } else { Seq::empty() };
    let used = sign.len() + digits.len();
    let k: nat = if used < w { (w - used) as nat } else { 0 };
    let body = zeros(k) + digits;
    lemma_zeros_then(k, digits);
    assert(zero_padded(n as int, w) =~= sign + body);
    assert(body.len() > 0 && body[0] != '-' && body[0] != '+') by {
        if k > 0 {
            assert(body[0] == '0');
        } else {
            assert(body[0] == digits[0]);
            assert(all_digits(digits));
        }
    }
    if n < 0 {
        assert((sign + body).drop_first() =~= body);
    } else {
        assert(sign + body =~= body);
    }
}

/// Event keys give back their sequence number: decoding the UTF-8 bytes of
/// `event_key(stream_key, seq)` and parsing the segment after the last `/`
/// yields `seq`, for every stream key and every sequence number.
pub proof fn lemma_event_key_roundtrip(stream_key: Seq<char>, seq: i64)
    ensures
        seq_from_event_key_spec(encode_utf8(event_key_spec(stream_key, seq))) == Some(seq),
{
    broadcast use vstd::utf8::encode_utf8_valid_utf8, vstd::utf8::encode_utf8_decode_utf8;
    let k = event_key_spec(stream_key, seq);
    lemma_parse_zero_padded(seq, 20);
    let p = event_prefix_spec(stream_key);
    assert(p.last() == '/');
    lemma_last_segment_after_slash(p, zero_padded(seq as int, 20));
}

/// Topic index entries give back their stream key: the UTF-8 bytes of
/// `topic_stream_key(topic_prefix, stream_key)` decode to a string that starts
/// with the topic's index prefix and continues with exactly `stream_key`.
pub proof fn lemma_topic_index_roundtrip(topic_prefix: Seq<char>, stream_key: Seq<char>)
    ensures
        ({
            let key = encode_utf8(topic_stream_key_spec(topic_prefix, stream_key));
            &&& valid_utf8(key)
            &&& topic_index_prefix_spec(topic_prefix).is_prefix_of(decode_utf8(key))
            &&& decode_utf8(key).skip(topic_index_prefix_spec(topic_prefix).len() as int) == stream_key
        }),
{
    broadcast use vstd::utf8::encode_utf8_valid_utf8, vstd::utf8::encode_utf8_decode_utf8;
    let p = topic_index_prefix_spec(topic_prefix);
    let full = topic_stream_key_spec(topic_prefix, stream_key);
    assert(full.subrange(0, p.len() as int) =~= p);
    assert(full.skip(p.len() as int) =~= stream_key);
}

/// Stored form of a sequence number under an idempotency key: the eight
/// little-endian bytes of its two's-complement value.
pub open spec fn encode_seq_spec(seq: i64) -> Seq<u8> {
    spec_u64_to_le_bytes(seq as u64)
}

/// Sequence number read back from an idempotency value: defined exactly on
/// eight-byte values.
pub open spec fn decode_seq_spec(value: Seq<u8>) -> Option<i64> {
    if value.len() == 8 {
        Some(spec_u64_from_le_bytes(value) as i64)
    } else {
        None
    }
}

/// Encodes a sequence number for an idempotency value.
pub fn encode_seq(seq: LogSeq) -> (v: Vec<u8>)
    ensures
        v@ == encode_seq_spec(seq.0),
        v@.len() == 8,
{
    u64_to_le_bytes(seq.0 as u64)
}

/// Decodes an idempotency value; anything but eight bytes is refused.
pub fn decode_seq(value: &[u8]) -> (r: Result<LogSeq, ()>)
    ensures
        match r {
            Ok(s) => decode_seq_spec(value@) == Some(s.0),
            Err(()) => decode_seq_spec(value@) is None,
        },
{
    if value.len() != 8 {
        return Err(());
    }
    let raw = u64_from_le_bytes(value);
    Ok(LogSeq(raw as i64))
}

/// What `encode_seq` writes, `decode_seq` reads back unchanged.
pub proof fn lemma_seq_bytes_roundtrip(seq: i64)
    ensures
        decode_seq_spec(encode_seq_spec(seq)) == Some(seq),
{
    lemma_auto_spec_u64_to_from_le_bytes();
    let u = seq as u64;
    assert(spec_u64_from_le_bytes(spec_u64_to_le_bytes(u)) == u);
    assert((u as i64) == seq) by (bit_vector)
        requires
            u == seq as u64,
    ;
}


/// `10^w`.
pub open spec fn pow10(w: nat) -> nat
    decreases w,
{
    if w == 0 {
        1
    } else {
        10 * pow10((w - 1) as nat)
    }
}

/// Byte strings `a` and `b` first differ at position `i`, where `a` is the smaller
/// (or `a` ends there and `b` goes on).
pub open spec fn first_smaller_at(a: Seq<u8>, b: Seq<u8>, i: int) -> bool {
    &&& 0 <= i <= a.len()
    &&& i <= b.len()
    &&& a.take(i) == b.take(i)
    &&& if i == a.len() {
        i < b.len()
    } else {
        i < b.len() && a[i] < b[i]
    }
}

/// Lexicographic order of byte strings, as `Vec<u8>` and a key-value store's
/// scans order keys.
pub open spec fn bytes_less(a: Seq<u8>, b: Seq<u8>) -> bool {
    exists|i: int| #[trigger] first_smaller_at(a, b, i)
}

/// The last `w` decimal digits of `n`, most significant first.
spec fn fixed_digits(n: nat, w: nat) -> Seq<char>
    decreases w,
{
    if w == 0 {
        Seq::empty()
    } else {
        fixed_digits(n / 10, (w - 1) as nat).push(digit_char(n % 10))
    }
}

proof fn lemma_fixed_digits_ascii(n: nat, w: nat)
    ensures
        fixed_digits(n, w).len() == w,
        forall|j: int| 0 <= j < w ==> 48 <= (#[trigger] fixed_digits(n, w)[j] as u32) < 58,
    decreases w,
{
    broadcast use vstd::utf8::char_u32_cast;
    if w > 0 {
        lemma_fixed_digits_ascii(n / 10, (w - 1) as nat);
        let d = (n % 10) as nat;
        assert(((digit_char(d) as u32) as int) == d + 48);
        assert forall|j: int| 0 <= j < w implies 48 <= (#[trigger] fixed_digits(n, w)[j] as u32) < 58 by {
            if j < w - 1 {
                assert(fixed_digits(n, w)[j] == fixed_digits(n / 10, (w - 1) as nat)[j]);
            }
        }
    }
}

proof fn lemma_fixed_zero(k: nat)
    ensures
        fixed_digits(0, k) == zeros(k),
    decreases k,
{
    broadcast use vstd::utf8::char_u32_cast;
    if k > 0 {
        lemma_fixed_zero((k - 1) as nat);
        assert(((digit_char(0) as u32) as int) == 48);
        assert(digit_char(0) == '0');
        assert(fixed_digits(0, k) =~= zeros(k));
    }
}

proof fn lemma_decimal_len(n: nat, w: nat)
    requires
        w >= 1,
        n < pow10(w),
    ensures
        decimal(n).len() <= w,
    decreases n,
{
    if n >= 10 {
        assert(w >= 2) by {
            if w == 1 {
                assert(pow10(1) == 10 * pow10(0));
            }
        }
        let p = pow10((w - 1) as nat);
        assert(n / 10 < p) by (nonlinear_arith)
            requires
                n < 10 * p,
        ;
        lemma_decimal_len(n / 10, (w - 1) as nat);
    }
}

proof fn lemma_fixed_is_padded(n: nat, w: nat)
    requires
        decimal(n).len() <= w,
    ensures
        fixed_digits(n, w) == zeros((w - decimal(n).len()) as nat) + decimal(n),
    decreases w,
{
    let dn = decimal(n);
    if n < 10 {
        assert(w >= 1);
        lemma_fixed_zero((w - 1) as nat);
        assert(n / 10 == 0 && n % 10 == n);
        assert(fixed_digits(n, w) =~= zeros((w - 1) as nat) + dn);
    } else {
        lemma_fixed_is_padded(n / 10, (w - 1) as nat);
        let dq = decimal(n / 10);
        assert(dn == dq.push(digit_char((n % 10) as nat)));
        assert(fixed_digits(n, w) =~= zeros((w - dn.len()) as nat) + dn);
    }
}

proof fn lemma_padded_is_fixed(n: int, w: nat)
    requires
        w >= 1,
        0 <= n < pow10(w),
    ensures
        zero_padded(n, w) == fixed_digits(n as nat, w),
{
    lemma_decimal_len(n as nat, w);
    lemma_fixed_is_padded(n as nat, w);
    let dn = decimal(n as nat);
    if dn.len() == w {
        assert(zeros(0) + dn =~= dn);
    } else {
        assert(Seq::<char>::empty() + zeros((w - dn.len()) as nat) =~= zeros((w - dn.len()) as nat));
    }
}

proof fn lemma_fixed_order(a: nat, b: nat, w: nat) -> (i: int)
    requires
        a < b < pow10(w),
    ensures
        0 <= i < w,
        fixed_digits(a, w).take(i) == fixed_digits(b, w).take(i),
        (fixed_digits(a, w)[i] as u32) < (fixed_digits(b, w)[i] as u32),
    decreases w,
{
    broadcast use vstd::utf8::char_u32_cast;
    assert(w >= 1) by {
        if w == 0 {
            assert(pow10(0) == 1);
        }
    }
    lemma_fixed_digits_ascii(a, w);
    lemma_fixed_digits_ascii(b, w);
    let p = pow10((w - 1) as nat);
    let fa = fixed_digits(a, w);
    let fb = fixed_digits(b, w);
    let qa = fixed_digits(a / 10, (w - 1) as nat);
    let qb = fixed_digits(b / 10, (w - 1) as nat);
    assert(a / 10 <= b / 10) by (nonlinear_arith)
        requires
            a < b,
    ;
    assert(b / 10 < p) by (nonlinear_arith)
        requires
            b < 10 * p,
    ;
    if a / 10 < b / 10 {
        let i = lemma_fixed_order(a / 10, b / 10, (w - 1) as nat);
        assert(fa.take(i) =~= qa.take(i));
        assert(fb.take(i) =~= qb.take(i));
        assert(fa[i] == qa[i] && fb[i] == qb[i]);
        i
    } else {
        assert(a % 10 < b % 10) by (nonlinear_arith)
            requires
                a < b,
                a / 10 == b / 10,
        ;
        let i = (w - 1) as int;
        assert(fa.take(i) =~= qa);
        assert(fb.take(i) =~= qb);
        let da = (a % 10) as nat;
        let db = (b % 10) as nat;
        assert(((digit_char(da) as u32) as int) == da + 48);
        assert(((digit_char(db) as u32) as int) == db + 48);
        i
    }
}

proof fn lemma_encode_concat(x: Seq<char>, y: Seq<char>)
    ensures
        encode_utf8(x + y) == encode_utf8(x) + encode_utf8(y),
    decreases x.len(),
{
    if x.len() == 0 {
        assert(x + y =~= y);
        assert(encode_utf8(x) + encode_utf8(y) =~= encode_utf8(y));
    } else {
        assert((x + y)[0] == x[0]);
        assert((x + y).drop_first() =~= x.drop_first() + y);
        lemma_encode_concat(x.drop_first(), y);
        assert(encode_utf8(x + y) =~= encode_utf8(x) + encode_utf8(y));
    }
}

proof fn lemma_encode_ascii(d: Seq<char>)
    requires
        forall|j: int| 0 <= j < d.len() ==> (#[trigger] d[j] as u32) < 128,
    ensures
        encode_utf8(d).len() == d.len(),
        forall|j: int| 0 <= j < d.len() ==> (#[trigger] encode_utf8(d)[j] as u32) == (d[j] as u32),
    decreases d.len(),
{
    if d.len() > 0 {
        let c = d[0] as u32;
        assert(c < 128);
        assert((c & 0x7F) as u8 as u32 == c) by (bit_vector)
            requires
                c < 128,
        ;
        let rest = d.drop_first();
        assert forall|j: int| 0 <= j < rest.len() implies (#[trigger] rest[j] as u32) < 128 by {
            assert(rest[j] == d[j + 1]);
        }
        lemma_encode_ascii(rest);
        let e = encode_utf8(d);
        assert(e == seq![(c & 0x7F) as u8] + encode_utf8(rest));
        assert forall|j: int| 0 <= j < d.len() implies (#[trigger] e[j] as u32) == (d[j] as u32) by {
            if j > 0 {
                assert(e[j] == encode_utf8(rest)[j - 1]);
                assert(rest[j - 1] == d[j]);
            }
        }
    }
}

/// Event keys sort as their sequence numbers do: for `0 <= a < b`, the UTF-8
/// bytes of `event_key(stream_key, a)` come before those of
/// `event_key(stream_key, b)` in byte-wise order, so a key scan of a stream
/// meets its events in sequence order.
pub proof fn lemma_event_key_order(stream_key: Seq<char>, a: i64, b: i64)
    requires
        0 <= a < b,
    ensures
        bytes_less(encode_utf8(event_key_spec(stream_key, a)), encode_utf8(event_key_spec(stream_key, b))),
{
    assert(pow10(20) == 100000000000000000000nat) by {
        reveal_with_fuel(pow10, 21);
    }
    lemma_padded_is_fixed(a as int, 20);
    lemma_padded_is_fixed(b as int, 20);
    let za = fixed_digits(a as nat, 20);
    let zb = fixed_digits(b as nat, 20);
    lemma_fixed_digits_ascii(a as nat, 20);
    lemma_fixed_digits_ascii(b as nat, 20);
    let i = lemma_fixed_order(a as nat, b as nat, 20);
    let p = event_prefix_spec(stream_key);
    lemma_encode_concat(p, za);
    lemma_encode_concat(p, zb);
    lemma_encode_ascii(za);
    lemma_encode_ascii(zb);
    let ep = encode_utf8(p);
    let ea = encode_utf8(za);
    let eb = encode_utf8(zb);
    assert forall|j: int| 0 <= j < i implies #[trigger] ea[j] == eb[j] by {
        assert(za.take(i)[j] == zb.take(i)[j]);
        assert(ea[j] as u32 == eb[j] as u32);
    }
    assert(ea.take(i) =~= eb.take(i));
    let k = ep.len() + i;
    let ka = ep + ea;
    let kb = ep + eb;
    assert(ka.take(k) =~= ep + ea.take(i));
    assert(kb.take(k) =~= ep + eb.take(i));
    assert(ka[k] == ea[i] && kb[k] == eb[i]);
    assert(ea[i] < eb[i]) by {
        assert(ea[i] as u32 == za[i] as u32);
        assert(eb[i] as u32 == zb[i] as u32);
    }
    assert(first_smaller_at(ka, kb, k));
}

} // verus!
