use totp_cli::codec::{decode, CodecError};

#[test]
fn decode_rfc6238_secret() {
    let got = decode("GEZDGNBVGY3TQOJQGEZDGNBVGY3TQOJQ").unwrap();
    assert_eq!(got, b"12345678901234567890".to_vec());
    assert_eq!(decode("GEZDGNBVGY3TQOJQ").unwrap(), b"1234567890".to_vec());
}

#[test]
fn decode_empty_is_empty() {
    assert_eq!(decode("").unwrap(), Vec::<u8>::new());
}

#[test]
fn decode_rejects_digit_one() {
    assert_eq!(decode("1"), Err(CodecError::InvalidEncoding));
    assert_eq!(decode("AAAAAAA1"), Err(CodecError::InvalidEncoding));
}

#[test]
fn decode_rejects_digit_eight() {
    assert_eq!(decode("AAAAAAA8"), Err(CodecError::InvalidEncoding));
}

#[test]
fn decode_rejects_digit_zero() {
    assert_eq!(decode("AAAAAAA0"), Err(CodecError::InvalidEncoding));
}

#[test]
fn decode_rejects_lower_case() {
    assert_eq!(decode("gezdgnbvgy3tqojq"), Err(CodecError::InvalidEncoding));
}

#[test]
fn decode_rejects_padding() {
    assert_eq!(decode("MZXW6==="), Err(CodecError::InvalidEncoding));
}

#[test]
fn decode_rejects_fractional_lengths() {
    assert_eq!(decode("A"), Err(CodecError::InvalidEncoding));
    assert_eq!(decode("ABC"), Err(CodecError::InvalidEncoding));
    assert_eq!(decode("ABCDEF"), Err(CodecError::InvalidEncoding));
    assert_eq!(decode("AAAAAAAAA"), Err(CodecError::InvalidEncoding));
}

#[test]
fn decode_accepts_partial_block_lengths() {
    // 2, 4, 5 and 7 characters give 1, 2, 3 and 4 bytes.
    assert_eq!(decode("MY").unwrap(), b"f".to_vec());
    assert_eq!(decode("MZXQ").unwrap(), b"fo".to_vec());
    assert_eq!(decode("MZXW6").unwrap(), b"foo".to_vec());
    assert_eq!(decode("MZXW6YQ").unwrap(), b"foob".to_vec());
    assert_eq!(decode("MZXW6YTB").unwrap(), b"fooba".to_vec());
    assert_eq!(decode("MZXW6YTBOI").unwrap(), b"foobar".to_vec());
}

#[test]
fn decode_whole_alphabet() {
    let text = "ABCDEFGHIJKLMNOPQRSTUVWXYZ234567";
    let want = base32::decode(base32::Alphabet::Rfc4648 { padding: false }, text).unwrap();
    assert_eq!(decode(text).unwrap(), want);
}

#[test]
fn decode_agrees_with_base32_crate_on_canonical_input() {
    let samples: Vec<Vec<u8>> = vec![
        vec![],
        vec![0],
        vec![255],
        vec![0, 1, 2, 3, 4, 5, 6, 7, 8, 9],
        b"12345678901234567890".to_vec(),
        (0u8..=255).collect(),
    ];
    for data in samples {
        let text = base32::encode(base32::Alphabet::Rfc4648 { padding: false }, &data);
        assert_eq!(decode(&text).unwrap(), data, "input {:?}", text);
    }
}
