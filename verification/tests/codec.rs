use songbot::codec::{decode_callback, decode_query, encode_callback, encode_query, CallbackData,
    EncoderError, QueryData};

#[test]
fn query_download_round_trip() {
    let s = encode_query(&QueryData::Download(42));
    assert_eq!(s, "ASoAAAAAAAAA");
    assert_eq!(decode_query(&s), Ok(QueryData::Download(42)));
}

#[test]
fn query_download_extreme_round_trip() {
    for id in [0u64, 1, u64::MAX, u64::MAX - 1, 1 << 63] {
        let s = encode_query(&QueryData::Download(id));
        assert_eq!(decode_query(&s), Ok(QueryData::Download(id)));
    }
}

#[test]
fn query_cached_round_trip() {
    let s = encode_query(&QueryData::Cached(7));
    assert_eq!(s, "AgcAAAA");
    assert_eq!(decode_query(&s), Ok(QueryData::Cached(7)));
}

#[test]
fn query_cached_negative_round_trip() {
    let s = encode_query(&QueryData::Cached(-5));
    assert_eq!(s, "Avv///8");
    assert_eq!(decode_query(&s), Ok(QueryData::Cached(-5)));
    for id in [i32::MIN, i32::MAX, 0, -1] {
        let s = encode_query(&QueryData::Cached(id));
        assert_eq!(decode_query(&s), Ok(QueryData::Cached(id)));
    }
}

#[test]
fn callback_nothing_round_trip() {
    let s = encode_callback(&CallbackData::Nothing);
    assert_eq!(s, "Aw");
    assert_eq!(decode_callback(&s), Ok(CallbackData::Nothing));
}

#[test]
fn callback_like_round_trip() {
    let s = encode_callback(&CallbackData::Like { song_id: 9 });
    assert_eq!(s, "BAkAAAA");
    assert_eq!(decode_callback(&s), Ok(CallbackData::Like { song_id: 9 }));
}

#[test]
fn decode_rejects_non_base64() {
    assert_eq!(decode_query("???"), Err(EncoderError::Base64));
    assert_eq!(decode_query("a b"), Err(EncoderError::Base64));
    assert_eq!(decode_callback("!!"), Err(EncoderError::Base64));
    // A lone base-64 character cannot carry a whole byte.
    assert_eq!(decode_query("A"), Err(EncoderError::Base64));
}

#[test]
fn decode_rejects_foreign_bytes() {
    // Valid base-64, but the bytes are no token of either family.
    assert_eq!(decode_query("CQk"), Err(EncoderError::Malformed));
    assert_eq!(decode_callback("CQk"), Err(EncoderError::Malformed));
    // The empty string carries zero bytes: no token.
    assert_eq!(decode_query(""), Err(EncoderError::Malformed));
    assert_eq!(decode_callback(""), Err(EncoderError::Malformed));
}

#[test]
fn decode_rejects_cross_family_tokens() {
    let q = encode_query(&QueryData::Download(42));
    assert_eq!(decode_callback(&q), Err(EncoderError::Malformed));
    let c = encode_callback(&CallbackData::Like { song_id: 9 });
    assert_eq!(decode_query(&c), Err(EncoderError::Malformed));
}

#[test]
fn decode_rejects_truncated_and_padded_tokens() {
    let s = encode_query(&QueryData::Download(42));
    // Dropping or appending characters must never decode to a token.
    let shorter = &s[..s.len() - 1];
    assert!(decode_query(shorter).is_err());
    let longer = format!("{}AA", s);
    assert!(decode_query(&longer).is_err());
    // Explicit padding is refused by the padding-free encoding.
    let padded = format!("{}=", encode_callback(&CallbackData::Nothing));
    assert_eq!(decode_callback(&padded), Err(EncoderError::Base64));
}
