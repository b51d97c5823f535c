//! Continuation-token codec.
//!
//! A continuation token is a small tagged value that must survive a round
//! trip through the transport's opaque-string channels (result ids and
//! button payloads). Two independent token families exist: `QueryData`
//! rides in a result id and says what selecting the result means, and
//! `CallbackData` rides in a button payload and says what pressing the
//! button means.
//!
//! Each value is laid out as one tag byte followed by the little-endian
//! bytes of its payload, and that byte string is wrapped in padding-free
//! base-64 (see `b64`). Decoding is total: every input string maps either
//! to a value or to an explicit `EncoderError`, since any client can craft
//! a payload.

use vstd::prelude::*;

use crate::b64::{b64_decode, b64_encode, b64_of, spec_base64_char};

verus! {

/// Token carried in a result id: what selecting that result means.
#[derive(Clone, Copy, Debug, PartialEq, Eq, Structural)]
pub enum QueryData {
    /// The track is not cached yet; selecting it asks for a fetch of this
    /// external (catalog-assigned) track id.
    Download(u64),
    /// The track is already cached under this internal song id; selecting
    /// it only logs history and refreshes the markup.
    Cached(i32),
}

/// Token carried in a button payload: what pressing the button means.
#[derive(Clone, Copy, Debug, PartialEq, Eq, Structural)]
pub enum CallbackData {
    /// Placeholder button; pressing it must acknowledge and do nothing.
    Nothing,
    /// Toggle the presser's like of this internal song id.
    Like { song_id: i32 },
}

/// Error taxonomy of `decode_query` and `decode_callback`.
#[derive(Clone, Copy, Debug, PartialEq, Eq, Structural)]
pub enum EncoderError {
    /// The string is not a padding-free base-64 encoding of any bytes.
    Base64,
    /// The string carries bytes, but they are not a token of the expected
    /// family.
    Malformed,
}

pub const TAG_DOWNLOAD: u8 = 1;

pub const TAG_CACHED: u8 = 2;

pub const TAG_NOTHING: u8 = 3;

pub const TAG_LIKE: u8 = 4;

/// Byte layout of a `QueryData` token: a tag byte, then the payload in
/// little-endian order.
pub open spec fn spec_query_bytes(d: QueryData) -> Seq<u8> {
    match d {
        QueryData::Download(id) => seq![TAG_DOWNLOAD] + vstd::bytes::spec_u64_to_le_bytes(id),
        QueryData::Cached(id) => seq![TAG_CACHED] + vstd::bytes::spec_u32_to_le_bytes(id as u32),
    }
}

/// The `QueryData` token a byte string holds, if any. Total: byte strings
/// of the wrong length, tag or family parse to `None`.
pub open spec fn spec_parse_query_bytes(b: Seq<u8>) -> Option<QueryData> {
    if b.len() == 9 && b[0] == TAG_DOWNLOAD {
        Some(QueryData::Download(vstd::bytes::spec_u64_from_le_bytes(b.subrange(1, 9))))
    } else if b.len() == 5 && b[0] == TAG_CACHED {
        Some(QueryData::Cached(vstd::bytes::spec_u32_from_le_bytes(b.subrange(1, 5)) as i32))
    } else {
        None
    }
}

/// Parsing inverts the byte layout: a laid-out token parses back to itself.
pub proof fn lemma_query_bytes_round_trip(d: QueryData)
    ensures
        spec_parse_query_bytes(spec_query_bytes(d)) == Some(d),
{
    vstd::bytes::lemma_auto_spec_u64_to_from_le_bytes();
    vstd::bytes::lemma_auto_spec_u32_to_from_le_bytes();
    match d {
        QueryData::Download(id) => {
            let b = spec_query_bytes(d);
            assert(b.subrange(1, 9) =~= vstd::bytes::spec_u64_to_le_bytes(id));
        },
        QueryData::Cached(id) => {
            let b = spec_query_bytes(d);
            assert(b.subrange(1, 5) =~= vstd::bytes::spec_u32_to_le_bytes(id as u32));
            assert((id as u32) as i32 == id) by (bit_vector);
        },
    }
}

/// Parsing is exact: only the laid-out bytes of a token parse to it, so a
/// byte string that parses successfully was produced by the layout.
pub proof fn lemma_query_bytes_exact(b: Seq<u8>, d: QueryData)
    requires
        spec_parse_query_bytes(b) == Some(d),
    ensures
        b == spec_query_bytes(d),
{
    vstd::bytes::lemma_auto_spec_u64_to_from_le_bytes();
    vstd::bytes::lemma_auto_spec_u32_to_from_le_bytes();
    if b.len() == 9 && b[0] == TAG_DOWNLOAD {
        let id = vstd::bytes::spec_u64_from_le_bytes(b.subrange(1, 9));
        assert(vstd::bytes::spec_u64_to_le_bytes(id) == b.subrange(1, 9));
        assert(b =~= seq![TAG_DOWNLOAD] + b.subrange(1, 9));
    } else {
        let u = vstd::bytes::spec_u32_from_le_bytes(b.subrange(1, 5));
        let id = u as i32;
        assert((u as i32) as u32 == u) by (bit_vector);
        assert(vstd::bytes::spec_u32_to_le_bytes(id as u32) == b.subrange(1, 5));
        assert(b =~= seq![TAG_CACHED] + b.subrange(1, 5));
    }
}

fn query_bytes(data: &QueryData) -> (r: Vec<u8>)
    ensures
        r@ == spec_query_bytes(*data),
{
    match data {
        QueryData::Download(id) => {
            let mut v: Vec<u8> = Vec::new();
            v.push(TAG_DOWNLOAD);
            let mut tail = vstd::bytes::u64_to_le_bytes(*id);
            v.append(&mut tail);
            proof {
                assert(v@ =~= spec_query_bytes(*data));
            }
            v
        },
        QueryData::Cached(id) => {
            let mut v: Vec<u8> = Vec::new();
            v.push(TAG_CACHED);
            let u: u32 = #[verifier::truncate] (*id as u32);
            let mut tail = vstd::bytes::u32_to_le_bytes(u);
            v.append(&mut tail);
            proof {
                assert(v@ =~= spec_query_bytes(*data));
            }
            v
        },
    }
}

fn parse_query_bytes(b: &Vec<u8>) -> (r: Option<QueryData>)
    ensures
        r == spec_parse_query_bytes(b@),
{
    if b.len() == 9 && b[0] == TAG_DOWNLOAD {
        let tail = vstd::slice::slice_subrange(b.as_slice(), 1, 9);
        let id = vstd::bytes::u64_from_le_bytes(tail);
        Some(QueryData::Download(id))
    } else if b.len() == 5 && b[0] == TAG_CACHED {
        let tail = vstd::slice::slice_subrange(b.as_slice(), 1, 5);
        let u = vstd::bytes::u32_from_le_bytes(tail);
        let id: i32 = #[verifier::truncate] (u as i32);
        Some(QueryData::Cached(id))
    } else {
        None
    }
}

/// Turn a selection token into the opaque string that rides in a result
/// id: at most twelve characters, well within the transport's length
/// limits on that field.
pub fn encode_query(data: &QueryData) -> (r: String)
    ensures
        r@ == b64_of(spec_query_bytes(*data)),
        r@.len() <= 12,
        forall|i: int| 0 <= i < r@.len() ==> spec_base64_char(#[trigger] r@[i]),
{
    let bytes = query_bytes(data);
    proof {
        vstd::bytes::lemma_auto_spec_u64_to_from_le_bytes();
        vstd::bytes::lemma_auto_spec_u32_to_from_le_bytes();
    }
    b64_encode(&bytes)
}

/// Read a selection token back out of a result-id string.
///
/// Total on attacker-reachable input: exactly the strings `encode_query`
/// produces decode to `Ok`, and each of those decodes to the token that
/// produced it; every other string reports which stage refused it.
pub fn decode_query(from: &str) -> (r: Result<QueryData, EncoderError>)
    ensures
        match r {
            Ok(d) => from@ == b64_of(spec_query_bytes(d)),
            Err(EncoderError::Base64) => forall|b: Seq<u8>| b64_of(b) != from@,
            Err(EncoderError::Malformed) => (exists|b: Seq<u8>| b64_of(b) == from@)
                && (forall|d: QueryData| from@ != b64_of(spec_query_bytes(d))),
        },
        forall|d: QueryData|
            from@ == b64_of(spec_query_bytes(d)) ==> r == Ok::<QueryData, EncoderError>(d),
{
    match b64_decode(from) {
        None => Err(EncoderError::Base64),
        Some(bytes) => match parse_query_bytes(&bytes) {
            Some(d) => {
                proof {
                    lemma_query_bytes_exact(bytes@, d);
                    assert forall|d2: QueryData|
                        from@ == b64_of(spec_query_bytes(d2)) implies d2 == d by {
                        lemma_query_bytes_round_trip(d2);
                    }
                }
                Ok(d)
            },
            None => {
                proof {
                    assert(b64_of(bytes@) == from@);
                    assert forall|d2: QueryData|
                        from@ != b64_of(spec_query_bytes(d2)) by {
                        if from@ == b64_of(spec_query_bytes(d2)) {
                            lemma_query_bytes_round_trip(d2);
                        }
                    }
                }
                Err(EncoderError::Malformed)
            },
        },
    }
}

/// Byte layout of a `CallbackData` token: a tag byte, then the payload in
/// little-endian order. The tags are disjoint from the `QueryData` tags, so
/// a token of one family never reads as a token of the other.
pub open spec fn spec_callback_bytes(d: CallbackData) -> Seq<u8> {
    match d {
        CallbackData::Nothing => seq![TAG_NOTHING],
        CallbackData::Like { song_id } => seq![TAG_LIKE] + vstd::bytes::spec_u32_to_le_bytes(
            song_id as u32,
        ),
    }
}

/// The `CallbackData` token a byte string holds, if any.
pub open spec fn spec_parse_callback_bytes(b: Seq<u8>) -> Option<CallbackData> {
    if b.len() == 1 && b[0] == TAG_NOTHING {
        Some(CallbackData::Nothing)
    } else if b.len() == 5 && b[0] == TAG_LIKE {
        Some(
            CallbackData::Like {
                song_id: vstd::bytes::spec_u32_from_le_bytes(b.subrange(1, 5)) as i32,
            },
        )
    } else {
        None
    }
}

/// Parsing inverts the byte layout: a laid-out token parses back to itself.
pub proof fn lemma_callback_bytes_round_trip(d: CallbackData)
    ensures
        spec_parse_callback_bytes(spec_callback_bytes(d)) == Some(d),
{
    vstd::bytes::lemma_auto_spec_u32_to_from_le_bytes();
    match d {
        CallbackData::Nothing => {},
        CallbackData::Like { song_id } => {
            let b = spec_callback_bytes(d);
            assert(b.subrange(1, 5) =~= vstd::bytes::spec_u32_to_le_bytes(song_id as u32));
            assert((song_id as u32) as i32 == song_id) by (bit_vector);
        },
    }
}

/// Parsing is exact: only the laid-out bytes of a token parse to it.
pub proof fn lemma_callback_bytes_exact(b: Seq<u8>, d: CallbackData)
    requires
        spec_parse_callback_bytes(b) == Some(d),
    ensures
        b == spec_callback_bytes(d),
{
    vstd::bytes::lemma_auto_spec_u32_to_from_le_bytes();
    if b.len() == 1 && b[0] == TAG_NOTHING {
        assert(b =~= seq![TAG_NOTHING]);
    } else {
        let u = vstd::bytes::spec_u32_from_le_bytes(b.subrange(1, 5));
        assert((u as i32) as u32 == u) by (bit_vector);
        assert(vstd::bytes::spec_u32_to_le_bytes((u as i32) as u32) == b.subrange(1, 5));
        assert(b =~= seq![TAG_LIKE] + b.subrange(1, 5));
    }
}

fn callback_bytes(data: &CallbackData) -> (r: Vec<u8>)
    ensures
        r@ == spec_callback_bytes(*data),
{
    match data {
        CallbackData::Nothing => {
            let mut v: Vec<u8> = Vec::new();
            v.push(TAG_NOTHING);
            proof {
                assert(v@ =~= spec_callback_bytes(*data));
            }
            v
        },
        CallbackData::Like { song_id } => {
            let mut v: Vec<u8> = Vec::new();
            v.push(TAG_LIKE);
            let u: u32 = #[verifier::truncate] (*song_id as u32);
            let mut tail = vstd::bytes::u32_to_le_bytes(u);
            v.append(&mut tail);
            proof {
                assert(v@ =~= spec_callback_bytes(*data));
            }
            v
        },
    }
}

fn parse_callback_bytes(b: &Vec<u8>) -> (r: Option<CallbackData>)
    ensures
        r == spec_parse_callback_bytes(b@),
{
    if b.len() == 1 && b[0] == TAG_NOTHING {
        Some(CallbackData::Nothing)
    } else if b.len() == 5 && b[0] == TAG_LIKE {
        let tail = vstd::slice::slice_subrange(b.as_slice(), 1, 5);
        let u = vstd::bytes::u32_from_le_bytes(tail);
        let song_id: i32 = #[verifier::truncate] (u as i32);
        Some(CallbackData::Like { song_id })
    } else {
        None
    }
}

/// Turn an engagement token into the opaque string that rides in a button
/// payload: at most seven characters, well within the transport's length
/// limits on that field.
pub fn encode_callback(data: &CallbackData) -> (r: String)
    ensures
        r@ == b64_of(spec_callback_bytes(*data)),
        r@.len() <= 7,
        forall|i: int| 0 <= i < r@.len() ==> spec_base64_char(#[trigger] r@[i]),
{
    let bytes = callback_bytes(data);
    proof {
        vstd::bytes::lemma_auto_spec_u32_to_from_le_bytes();
    }
    b64_encode(&bytes)
}

/// Read an engagement token back out of a button-payload string.
///
/// Total on attacker-reachable input: exactly the strings
/// `encode_callback` produces decode to `Ok`, and each of those decodes to
/// the token that produced it; every other string reports which stage
/// refused it.
pub fn decode_callback(from: &str) -> (r: Result<CallbackData, EncoderError>)
    ensures
        match r {
            Ok(d) => from@ == b64_of(spec_callback_bytes(d)),
            Err(EncoderError::Base64) => forall|b: Seq<u8>| b64_of(b) != from@,
            Err(EncoderError::Malformed) => (exists|b: Seq<u8>| b64_of(b) == from@)
                && (forall|d: CallbackData| from@ != b64_of(spec_callback_bytes(d))),
        },
        forall|d: CallbackData|
            from@ == b64_of(spec_callback_bytes(d)) ==> r == Ok::<CallbackData, EncoderError>(d),
{
    match b64_decode(from) {
        None => Err(EncoderError::Base64),
        Some(bytes) => match parse_callback_bytes(&bytes) {
            Some(d) => {
                proof {
                    lemma_callback_bytes_exact(bytes@, d);
                    assert forall|d2: CallbackData|
                        from@ == b64_of(spec_callback_bytes(d2)) implies d2 == d by {
                        lemma_callback_bytes_round_trip(d2);
                    }
                }
                Ok(d)
            },
            None => {
                proof {
                    assert(b64_of(bytes@) == from@);
                    assert forall|d2: CallbackData|
                        from@ != b64_of(spec_callback_bytes(d2)) by {
                        if from@ == b64_of(spec_callback_bytes(d2)) {
                            lemma_callback_bytes_round_trip(d2);
                        }
                    }
                }
                Err(EncoderError::Malformed)
            },
        },
    }
}

} // verus!
