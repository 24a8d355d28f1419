use totp_cli::codec::decode;
use totp_cli::totp::{generate, remaining_seconds};

fn rfc_key() -> Vec<u8> {
    decode("GEZDGNBVGY3TQOJQGEZDGNBVGY3TQOJQ").unwrap()
}

#[test]
fn rfc6238_vector_at_59() {
    let (code, remaining) = generate(&rfc_key(), 59);
    assert_eq!(code, "287082");
    assert_eq!(remaining, 1);
}

#[test]
fn rfc6238_vector_at_1111111109() {
    let (code, _) = generate(&rfc_key(), 1111111109);
    assert_eq!(code, "081804");
}

#[test]
fn rfc6238_vector_at_1111111111() {
    let (code, _) = generate(&rfc_key(), 1111111111);
    assert_eq!(code, "050471");
}

#[test]
fn rfc6238_vector_at_1234567890() {
    let (code, _) = generate(&rfc_key(), 1234567890);
    assert_eq!(code, "005924");
}

#[test]
fn rfc6238_vector_at_2000000000() {
    let (code, _) = generate(&rfc_key(), 2000000000);
    assert_eq!(code, "279037");
}

#[test]
fn code_is_six_ascii_digits() {
    let keys: Vec<Vec<u8>> = vec![vec![], vec![0], rfc_key(), vec![255; 64]];
    let times: Vec<u64> = vec![0, 1, 29, 30, 59, 1234567890, u64::MAX];
    for key in &keys {
        for &now in &times {
            let (code, remaining) = generate(key, now);
            assert_eq!(code.len(), 6, "key {:?} at {}", key, now);
            assert!(code.chars().all(|c| c.is_ascii_digit()));
            assert!(1 <= remaining && remaining <= 30);
        }
    }
}

#[test]
fn generate_is_idempotent() {
    let key = rfc_key();
    let first = generate(&key, 1234567890);
    let second = generate(&key, 1234567890);
    assert_eq!(first, second);
}

#[test]
fn remaining_is_thirty_on_step_boundary() {
    assert_eq!(remaining_seconds(0), 30);
    assert_eq!(remaining_seconds(30), 30);
    assert_eq!(remaining_seconds(60), 30);
}

#[test]
fn remaining_counts_down_to_one() {
    assert_eq!(remaining_seconds(1), 29);
    assert_eq!(remaining_seconds(29), 1);
    assert_eq!(remaining_seconds(59), 1);
    assert_eq!(remaining_seconds(45), 15);
}

#[test]
fn generate_agrees_with_totp_rs() {
    let totp = totp_rs::Builder::new()
        .with_secret(rfc_key())
        .build()
        .unwrap();
    for now in [59u64, 1111111109, 1111111111, 1234567890, 2000000000] {
        let (code, _) = generate(&rfc_key(), now);
        assert_eq!(code, format!("{}", totp.generate(now)));
    }
}
