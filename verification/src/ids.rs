//! UUID-backed identity: parsing, rendering, and the deterministic
//! derivation of timeline identifiers as version-5 UUIDs namespaced by the
//! trace UUID and keyed by the stream's numeric identifier.
//!
//! A UUID is carried as its sixteen bytes read as one little-endian 128-bit
//! integer, so that identity logic works on a plain value.

use vstd::prelude::*;

verus! {

/// A UUID: its sixteen bytes read as a little-endian 128-bit integer.
#[derive(Clone, Copy, PartialEq, Eq, Structural, Debug)]
pub struct UuidValue {
    pub bits: u128,
}

/// The stable identifier of one timeline (one stream of one trace).
#[derive(Clone, Copy, PartialEq, Eq, Structural, Debug)]
pub struct TimelineId {
    pub bits: u128,
}

/// What `uuid::Uuid::from_str` yields on a given string, as the little-endian
/// reading of the parsed bytes; `None` where parsing fails.
pub uninterp spec fn parsed_uuid(s: Seq<char>) -> Option<u128>;

/// What `uuid::Uuid::new_v5` yields for a given namespace UUID and name
/// bytes, both sides read little-endian.
pub uninterp spec fn uuid_v5_bits(namespace: u128, data: Seq<u8>) -> u128;

/// Relies on `uuid::Uuid::from_str`: the result is a function of the string
/// alone.
#[verifier::external_body]
pub(crate) fn parse_uuid(s: &str) -> (r: Option<UuidValue>)
    ensures
        match r {
            Some(u) => parsed_uuid(s@) == Some(u.bits),
            None => parsed_uuid(s@) is None,
        },
{
    match s.parse::<uuid::Uuid>() {
        Ok(u) => Some(UuidValue { bits: u128::from_le_bytes(*u.as_bytes()) }),
        Err(_) => None,
    }
}

/// Relies on `uuid::Uuid::new_v5`: a name-based (SHA-1) UUID, a function of
/// the namespace and name alone.
#[verifier::external_body]
pub(crate) fn uuid_new_v5(namespace: &UuidValue, data: &[u8]) -> (r: UuidValue)
    ensures
        r.bits == uuid_v5_bits(namespace.bits, data@),
{
    let ns = uuid::Uuid::from_bytes(namespace.bits.to_le_bytes());
    UuidValue { bits: u128::from_le_bytes(*uuid::Uuid::new_v5(&ns, data).as_bytes()) }
}

/// Relies on `uuid::Uuid::new_v4`: a freshly generated random UUID, about
/// which nothing is promised.
#[verifier::external_body]
pub(crate) fn uuid_new_v4() -> (r: UuidValue) {
    UuidValue { bits: u128::from_le_bytes(*uuid::Uuid::new_v4().as_bytes()) }
}

/// The character for one hexadecimal digit, lower case.
pub open spec fn hex_char(n: nat) -> char {
    if n == 0 {
        '0'
    } else if n == 1 {
        '1'
    } else if n == 2 {
        '2'
    } else if n == 3 {
        '3'
    } else if n == 4 {
        '4'
    } else if n == 5 {
        '5'
    } else if n == 6 {
        '6'
    } else if n == 7 {
        '7'
    } else if n == 8 {
        '8'
    } else if n == 9 {
        '9'
    } else if n == 10 {
        'a'
    } else if n == 11 {
        'b'
    } else if n == 12 {
        'c'
    } else if n == 13 {
        'd'
    } else if n == 14 {
        'e'
    } else {
        'f'
    }
}

/// Byte `i` (little-endian position) of the UUID's 128 bits.
pub open spec fn uuid_byte(bits: u128, i: int) -> u8 {
    (bits >> ((8 * i) as u128)) as u8
}

/// The two lower-case hex characters of one byte, high nibble first.
pub open spec fn byte_hex(b: u8) -> Seq<char> {
    seq![hex_char(b as nat / 16), hex_char(b as nat % 16)]
}

/// The hex rendering of UUID bytes `lo..hi` in little-endian byte positions.
pub open spec fn bytes_hex(bits: u128, lo: int, hi: int) -> Seq<char>
    decreases hi - lo,
{
    if lo >= hi {
        Seq::empty()
    } else {
        byte_hex(uuid_byte(bits, lo)) + bytes_hex(bits, lo + 1, hi)
    }
}

/// The canonical hyphenated lower-case rendering of a UUID: bytes 0-3, 4-5,
/// 6-7, 8-9 and 10-15 in hex, joined by `-`.
pub open spec fn spec_uuid_hyphenated(bits: u128) -> Seq<char> {
    bytes_hex(bits, 0, 4) + "-"@ + bytes_hex(bits, 4, 6) + "-"@ + bytes_hex(bits, 6, 8) + "-"@
        + bytes_hex(bits, 8, 10) + "-"@ + bytes_hex(bits, 10, 16)
}

/// Relies on `uuid::Uuid`'s `Display`: the hyphenated lower-case form.
#[verifier::external_body]
pub(crate) fn uuid_to_string(u: &UuidValue) -> (r: String)
    ensures
        r@ == spec_uuid_hyphenated(u.bits),
{
    uuid::Uuid::from_bytes(u.bits.to_le_bytes()).to_string()
}

/// The little-endian bytes of a stream's numeric identifier.
pub open spec fn u64_le_bytes_spec(v: u64) -> Seq<u8> {
    Seq::new(8, |i: int| (v >> ((8 * i) as u64)) as u8)
}

/// The little-endian byte encoding of `v`.
pub fn u64_le_bytes(v: u64) -> (r: Vec<u8>)
    ensures
        r@ == u64_le_bytes_spec(v),
{
    let mut out: Vec<u8> = Vec::new();
    let mut i: usize = 0;
    while i < 8
        invariant
            0 <= i <= 8,
            out@.len() == i,
            forall|j: int| 0 <= j < i ==> out@[j] == u64_le_bytes_spec(v)[j],
        decreases 8 - i,
    {
        let shift: u64 = 8 * (i as u64);
        let byte: u8 = #[verifier::truncate] ((v >> shift) as u8);
        out.push(byte);
        i += 1;
    }
    proof {
        assert(out@ =~= u64_le_bytes_spec(v));
    }
    out
}

/// The timeline identifier derived for a stream: a version-5 UUID namespaced
/// by the trace UUID and keyed by the stream identifier's little-endian
/// bytes. Identical inputs always derive identical identifiers.
pub open spec fn derived_timeline_id(trace_uuid: u128, stream_id: u64) -> u128 {
    uuid_v5_bits(trace_uuid, u64_le_bytes_spec(stream_id))
}

/// Derives the timeline identifier for one stream of one trace.
pub fn timeline_id_for_stream(trace_uuid: &UuidValue, stream_id: u64) -> (r: TimelineId)
    ensures
        r.bits == derived_timeline_id(trace_uuid.bits, stream_id),
{
    let name = u64_le_bytes(stream_id);
    let u = uuid_new_v5(trace_uuid, name.as_slice());
    TimelineId { bits: u.bits }
}

/// Timeline-identity derivation is idempotent: two runs given the same trace
/// UUID and the same stream numeric identifier derive the identical timeline
/// identifier.
pub proof fn lemma_timeline_id_deterministic(
    trace_a: u128,
    stream_a: u64,
    trace_b: u128,
    stream_b: u64,
)
    requires
        trace_a == trace_b,
        stream_a == stream_b,
    ensures
        derived_timeline_id(trace_a, stream_a) == derived_timeline_id(trace_b, stream_b),
{
}

} // verus!
