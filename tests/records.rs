use medical_records::error::AppError;
use medical_records::record::{open_record, seal_record};

const KEY: [u8; 32] = [7u8; 32];

#[test]
fn sealed_record_matches_known_vector() {
    let text = seal_record(&[0u8; 32], &[0u8; 12], b"").unwrap();
    assert_eq!(text, "Uw+K+8dFNrmpY7TxxMtziw==|AAAAAAAAAAAAAAAA");
    let text = seal_record(&[0u8; 32], &[0u8; 12], &[0u8; 16]).unwrap();
    assert_eq!(text, "zqdAPU1ga24HTsXTuvOdGNDRyKeZmWvwJluYtdSKuRk=|AAAAAAAAAAAAAAAA");
}

#[test]
fn record_round_trips() {
    let payload = br#"{"name":"Jane"}"#;
    let text = seal_record(&KEY, &[3u8; 12], payload).unwrap();
    assert_eq!(open_record(&KEY, text.as_bytes()).unwrap(), payload.to_vec());
}

#[test]
fn empty_payload_round_trips() {
    let text = seal_record(&KEY, &[1u8; 12], b"").unwrap();
    assert_eq!(open_record(&KEY, text.as_bytes()).unwrap(), Vec::<u8>::new());
}

#[test]
fn flipped_ciphertext_bit_fails() {
    let payload = br#"{"name":"Jane"}"#;
    let nonce = [3u8; 12];
    let text = seal_record(&KEY, &nonce, payload).unwrap();
    let (ct_text, nonce_text) = text.split_once('|').unwrap();
    let ct = base64::Engine::decode(&base64::engine::general_purpose::STANDARD, ct_text).unwrap();
    for byte in 0..ct.len() {
        for bit in 0..8 {
            let mut bad = ct.clone();
            bad[byte] ^= 1 << bit;
            let tampered = format!(
                "{}|{}",
                base64::Engine::encode(&base64::engine::general_purpose::STANDARD, &bad),
                nonce_text
            );
            assert!(matches!(
                open_record(&KEY, tampered.as_bytes()),
                Err(AppError::InternalServerError(_))
            ));
        }
    }
}

#[test]
fn flipped_nonce_bit_fails() {
    let payload = br#"{"name":"Jane"}"#;
    let nonce = [3u8; 12];
    let text = seal_record(&KEY, &nonce, payload).unwrap();
    let (ct_text, _) = text.split_once('|').unwrap();
    for byte in 0..12 {
        for bit in 0..8 {
            let mut bad = nonce;
            bad[byte] ^= 1 << bit;
            let tampered = format!(
                "{}|{}",
                ct_text,
                base64::Engine::encode(&base64::engine::general_purpose::STANDARD, bad)
            );
            assert!(open_record(&KEY, tampered.as_bytes()).is_err());
        }
    }
}

#[test]
fn wrong_key_fails() {
    let text = seal_record(&KEY, &[3u8; 12], b"secret").unwrap();
    assert!(matches!(
        open_record(&[8u8; 32], text.as_bytes()),
        Err(AppError::InternalServerError(_))
    ));
}

#[test]
fn malformed_records_are_rejected() {
    assert!(matches!(open_record(&KEY, b"no-separator"), Err(AppError::InternalServerError(_))));
    assert!(matches!(open_record(&KEY, b"a|b|c"), Err(AppError::InternalServerError(_))));
    assert!(matches!(open_record(&KEY, b"!!!|AAAAAAAAAAAAAAAA"), Err(AppError::BadRequest(_))));
    assert!(matches!(open_record(&KEY, b"AAAA|AAAA"), Err(AppError::InternalServerError(_))));
}
