use std::str::FromStr;

use bloom_triad::base64url::Base64UrlBytes;
use bloom_triad::codec::{announced_length, body_error, validate_json_shape};
use bloom_triad::json::{from_value, to_value};
use bloom_triad::{
    decode_frame, encode_frame, BootEpoch, DecimalU256, DecimalU64, Digest32, Json, OperationId,
    RequestNonce, Token, WireError, WireErrorCode, WireValue, FRAME_MAX_BYTES,
};

#[test]
fn token_is_closed_and_lowercase() {
    assert!(Token::new("aws-kms.eu_west-2").is_ok());
    assert!(Token::new("bloom.sign-request/1").is_ok());
    for invalid in ["", "Upper", ".leading", "a b"] {
        assert!(Token::new(invalid).is_err(), "{invalid}");
    }
}

#[test]
fn decimal_forms_are_canonical_and_bounded() {
    assert_eq!(
        DecimalU64::parse("18446744073709551615").unwrap().get(),
        u64::MAX
    );
    assert!(DecimalU64::parse("00").is_err());
    assert!(DecimalU64::parse("+1").is_err());
    assert!(DecimalU64::parse("18446744073709551616").is_err());
    assert!(DecimalU256::parse(
        "115792089237316195423570985008687907853269984665640564039457584007913129639935"
    )
    .is_ok());
    assert!(DecimalU256::parse(
        "115792089237316195423570985008687907853269984665640564039457584007913129639936"
    )
    .is_err());
}

fn example(a: &str, z: u64) -> Json {
    Json::Object(vec![
        ("a".to_owned(), Json::Text(a.to_owned())),
        ("z".to_owned(), Json::Unsigned(z)),
    ])
}

fn framed(json: &[u8]) -> Vec<u8> {
    let mut frame = (json.len() as u32).to_be_bytes().to_vec();
    frame.extend_from_slice(json);
    frame
}

#[test]
fn canonical_frame_round_trips_and_noncanonical_input_fails() {
    let value = example("ok", 7);
    let frame = encode_frame(&value).unwrap();
    assert_eq!(decode_frame(&frame).unwrap(), value);

    let noncanonical = framed(br#"{"z":7,"a":"ok"}"#);
    assert_eq!(
        decode_frame(&noncanonical).unwrap_err().code,
        WireErrorCode::MalformedFrame
    );
}

#[test]
fn frame_bytes_are_exact() {
    assert_eq!(
        encode_frame(&example("ok", 7)).unwrap(),
        b"\x00\x00\x00\x10{\"a\":\"ok\",\"z\":7}"
    );
    // Keys are put in order, and of equal keys the last one counts.
    let unordered = Json::Object(vec![
        ("z".to_owned(), Json::Unsigned(1)),
        ("a".to_owned(), Json::Text("ok".to_owned())),
        ("z".to_owned(), Json::Unsigned(7)),
    ]);
    let frame = encode_frame(&unordered).unwrap();
    assert_eq!(frame, b"\x00\x00\x00\x10{\"a\":\"ok\",\"z\":7}");
    assert_eq!(decode_frame(&frame).unwrap(), example("ok", 7));
}

#[test]
fn every_scalar_survives_a_frame() {
    let value = Json::Array(vec![
        Json::Null,
        Json::Bool(true),
        Json::Bool(false),
        Json::Unsigned(0),
        Json::Unsigned(9_007_199_254_740_992),
        Json::Negative(-9_007_199_254_740_992),
        Json::Text("\u{1F600}\"\\\u{7}é".to_owned()),
        Json::Array(vec![]),
        Json::Object(vec![]),
    ]);
    let frame = encode_frame(&value).unwrap();
    assert_eq!(decode_frame(&frame).unwrap(), value);
}

#[test]
fn writing_a_frame_that_was_read_gives_the_same_frame() {
    let payloads: [&[u8]; 4] = [
        b"{\"a\":[-5,0,{\"b\":null,\"c\":\"x\"}],\"z\":9007199254740992}",
        b"[]",
        b"-1",
        b"{\"a\":1.5,\"b\":true}",
    ];
    for payload in payloads {
        let mut frame = (payload.len() as u32).to_be_bytes().to_vec();
        frame.extend_from_slice(payload);
        assert_eq!(encode_frame(&decode_frame(&frame).unwrap()).unwrap(), frame);
    }
}

#[test]
fn numbers_beyond_a_double_do_not_survive() {
    let frame = encode_frame(&Json::Unsigned(9_007_199_254_740_993)).unwrap();
    assert_eq!(
        decode_frame(&frame).unwrap(),
        Json::Unsigned(9_007_199_254_740_992)
    );
}

#[test]
fn values_convert_both_ways() {
    let value = to_value(&Json::Object(vec![
        ("b".to_owned(), Json::Negative(5)),
        ("a".to_owned(), Json::Negative(-5)),
    ]));
    assert_eq!(value.to_string(), r#"{"a":-5,"b":5}"#);
    assert_eq!(
        from_value(value),
        Json::Object(vec![
            ("a".to_owned(), Json::Negative(-5)),
            ("b".to_owned(), Json::Unsigned(5)),
        ])
    );
    let half: serde_json::Value = serde_json::from_str("[0.5]").unwrap();
    let json = from_value(half.clone());
    assert_eq!(json.clone(), json);
    assert_eq!(to_value(&json), half);
}

#[test]
fn frames_with_a_wrong_length_are_refused() {
    assert_eq!(
        decode_frame(&[0, 0, 0]).unwrap_err(),
        WireError::new(
            WireErrorCode::MalformedFrame,
            "frame is shorter than its length prefix"
        )
    );
    assert_eq!(
        decode_frame(&[0xff, 0, 0, 0]).unwrap_err(),
        WireError::new(
            WireErrorCode::LimitExceededFrame,
            "declared frame length exceeds 1 MiB"
        )
    );
    assert_eq!(
        decode_frame(&[0, 0, 0, 5, b'1']).unwrap_err(),
        WireError::new(
            WireErrorCode::MalformedFrame,
            "frame length prefix does not match input"
        )
    );
    assert_eq!(
        decode_frame(&framed(b"{")).unwrap_err().code,
        WireErrorCode::MalformedFrame
    );
    let long = Json::Text("a".repeat(FRAME_MAX_BYTES));
    assert_eq!(
        encode_frame(&long).unwrap_err(),
        WireError::new(
            WireErrorCode::LimitExceededFrame,
            "encoded frame exceeds 1 MiB"
        )
    );
    assert_eq!(announced_length([0, 16, 0, 0]).unwrap(), FRAME_MAX_BYTES);
    assert_eq!(
        announced_length([0, 16, 0, 1]).unwrap_err().message,
        "local frame exceeds 1 MiB"
    );
}

fn nested(levels: usize) -> Json {
    let mut json = Json::Null;
    for _ in 0..levels {
        json = Json::Array(vec![json]);
    }
    json
}

#[test]
fn shape_limits_are_exact() {
    assert!(validate_json_shape(&nested(31), 1).is_ok());
    assert_eq!(
        validate_json_shape(&nested(32), 1).unwrap_err().message,
        "JSON nesting depth exceeds 32"
    );
    assert!(validate_json_shape(&Json::Array(vec![Json::Null; 256]), 1).is_ok());
    assert_eq!(
        validate_json_shape(&Json::Array(vec![Json::Null; 257]), 1)
            .unwrap_err()
            .message,
        "JSON list exceeds 256 elements"
    );
    // Two bytes for each character.
    assert!(validate_json_shape(&Json::Text("é".repeat(131_072)), 1).is_ok());
    assert_eq!(
        validate_json_shape(&Json::Text("é".repeat(131_073)), 1)
            .unwrap_err()
            .message,
        "JSON string exceeds 256 KiB"
    );
    let key = Json::Object(vec![("k".repeat(262_145), nested(40))]);
    assert_eq!(
        validate_json_shape(&key, 1).unwrap_err().message,
        "JSON object key exceeds 256 KiB"
    );
    assert_eq!(
        decode_frame(&framed(format!("{}{}", "[".repeat(33), "]".repeat(33)).as_bytes()))
            .unwrap_err()
            .code,
        WireErrorCode::LimitExceededFrame
    );
}

#[test]
fn refused_bodies_are_told_apart() {
    assert_eq!(
        body_error("unknown field `x`, expected `a`").code,
        WireErrorCode::UnknownField
    );
    assert_eq!(
        body_error("missing field `x`").code,
        WireErrorCode::MalformedFrame
    );
}

#[test]
fn tokens_keep_their_text() {
    let token = Token::from_str("bloom.sign-request/1").unwrap();
    assert_eq!(token.as_str(), "bloom.sign-request/1");
    assert_eq!(token.clone(), token);
    assert!(token.same_as(&token.clone()));
    assert!(Token::new(&"a".repeat(64)).is_ok());
    assert!(Token::new(&"a".repeat(65)).is_err());
    assert!(Token::new("aé").is_err());
    assert!(Token::new("1a").is_err());
    assert_eq!(
        Token::new("Upper").unwrap_err(),
        WireError::fatal(
            WireErrorCode::MalformedFrame,
            "token must be a 1-64 byte lowercase ASCII protocol identifier"
        )
    );
}

#[test]
fn fixed_identifiers_round_trip() {
    let digest = Digest32::from_bytes([0xab; 32]);
    assert_eq!(digest.as_str(), "ab".repeat(32));
    assert_eq!(digest.to_bytes(), [0xab; 32]);
    assert_eq!(Digest32::new(digest.as_str()).unwrap(), digest);
    assert_eq!(
        Digest32::new(&"AB".repeat(32)).unwrap_err().message,
        "SHA-256 digest must be fixed-length lowercase hexadecimal"
    );
    assert_eq!(
        OperationId::new("00").unwrap_err().message,
        "operation ID must be fixed-length lowercase hexadecimal"
    );
    let epoch = BootEpoch::from_bytes([1, 2, 3, 4, 5, 6, 7, 8, 9, 10, 11, 12, 13, 14, 15, 255]);
    assert_eq!(epoch.as_str(), "0102030405060708090a0b0c0d0e0fff");
    assert_eq!(BootEpoch::from_str(epoch.as_str()).unwrap(), epoch);
    assert!(RequestNonce::new(&"0g".repeat(16)).is_err());
    assert_eq!(
        RequestNonce::new(&"0f".repeat(16)).unwrap().to_bytes(),
        [15; 16]
    );
}

#[test]
fn decimals_round_trip() {
    for value in [0u64, 9, 10, 99, 100, 1_234_567_890, u64::MAX] {
        let decimal = DecimalU64::new(value);
        assert_eq!(decimal.as_str(), value.to_string());
        assert_eq!(decimal.get(), value);
        assert_eq!(DecimalU64::parse(decimal.as_str()).unwrap(), decimal);
    }
    assert_eq!(DecimalU256::parse("10").unwrap().as_str(), "10");
    assert!(DecimalU256::parse(&"9".repeat(78)).is_err());
    assert!(DecimalU256::parse(&"9".repeat(77)).is_ok());
    assert!(DecimalU256::parse("").is_err());
    assert!(DecimalU256::parse("01").is_err());
    assert!(DecimalU64::parse("1a").is_err());
    assert!(DecimalU64::parse("١").is_err());
}

#[test]
fn base64url_values_are_unpadded_and_canonical() {
    for bytes in [&b""[..], b"f", b"fo", b"foo", b"foob", &[0xff, 0xfe, 0xfb]] {
        let value = Base64UrlBytes::from_bytes(bytes);
        assert_eq!(value.decode(), bytes);
        assert_eq!(Base64UrlBytes::parse(value.encoded()).unwrap(), value);
        assert!(value.same_as(&value.clone()));
    }
    assert_eq!(Base64UrlBytes::from_bytes(b"foob").encoded(), "Zm9vYg");
    assert_eq!(Base64UrlBytes::from_bytes(&[0xff, 0xfe, 0xfb]).encoded(), "__77");
    assert_eq!(
        Base64UrlBytes::parse("Zg==").unwrap_err().message,
        "base64url values must be unpadded"
    );
    assert!(Base64UrlBytes::parse("Zh").is_err());
    assert!(Base64UrlBytes::parse("Z").is_err());
    assert!(Base64UrlBytes::parse("Z+9v").is_err());
}

#[test]
fn errors_travel_and_are_shown() {
    let error = WireError::new(WireErrorCode::QuotaExceeded, "enough");
    assert_eq!(error.text(), "QuotaExceeded: enough");
    let outcome: Result<String, WireError> = Err(error.clone());
    assert_eq!(
        to_value(&outcome.to_json().unwrap()).to_string(),
        r#"{"Err":{"code":"quota_exceeded","message":"enough"}}"#
    );
    let success: Result<String, WireError> = Ok("done".to_owned());
    assert_eq!(
        to_value(&success.to_json().unwrap()).to_string(),
        r#"{"Ok":"done"}"#
    );
    for (code, name) in [
        (WireErrorCode::MalformedFrame, "malformed_frame"),
        (WireErrorCode::UnknownField, "unknown_field"),
        (WireErrorCode::LimitExceededFrame, "limit_exceeded_frame"),
        (WireErrorCode::UnauthenticatedPeer, "unauthenticated_peer"),
        (WireErrorCode::UnsupportedVersion, "unsupported_version"),
        (WireErrorCode::OperationIdConflict, "operation_id_conflict"),
        (WireErrorCode::ServiceUnavailable, "service_unavailable"),
        (WireErrorCode::ClockRollback, "clock_rollback"),
        (WireErrorCode::ClockUntrusted, "clock_untrusted"),
    ] {
        let json = WireError::new(code, "m").to_json().unwrap();
        assert_eq!(to_value(&json)["code"], name);
    }
}
