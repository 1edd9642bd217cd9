use medical_records::auth::{challenge, verify_login};
use medical_records::error::AppError;
use medical_records::forms::{jwt_claims, patient_form_data, require_patient_seed, resolve_form_user};
use medical_records::ledger::ErrorCode;
use medical_records::models::AuthRequest;
use solana_sdk::signature::{Keypair, Signer};

fn login(kp: &Keypair, signed_ts: i64, claimed_ts: i64) -> AuthRequest {
    let sig = kp.sign_message(format!("Timestamp: {}", signed_ts).as_bytes());
    AuthRequest { public_key: kp.pubkey().to_string(), signature: sig.to_string(), timestamp: claimed_ts }
}

#[test]
fn challenge_text() {
    assert_eq!(challenge(1700000000), "Timestamp: 1700000000");
    assert_eq!(challenge(-5), "Timestamp: -5");
}

#[test]
fn genuine_login_verifies() {
    let kp = Keypair::new();
    assert!(verify_login(&login(&kp, 123, 123)).is_ok());
}

#[test]
fn login_over_other_challenge_is_unauthorized() {
    let kp = Keypair::new();
    assert!(matches!(verify_login(&login(&kp, 123, 124)), Err(AppError::Unauthorized(_))));
    let mut req = login(&kp, 123, 123);
    req.public_key = Keypair::new().pubkey().to_string();
    assert!(matches!(verify_login(&req), Err(AppError::Unauthorized(_))));
}

#[test]
fn malformed_login_is_bad_request() {
    let kp = Keypair::new();
    let mut req = login(&kp, 1, 1);
    req.signature = "0OIl".to_string();
    assert!(matches!(verify_login(&req), Err(AppError::BadRequest(_))));
    let mut req = login(&kp, 1, 1);
    req.signature = bs58::encode([1u8; 10]).into_string();
    assert!(matches!(verify_login(&req), Err(AppError::BadRequest(_))));
}

#[test]
fn errors_map_to_status_and_text() {
    let e = AppError::BadRequest("x".to_string());
    assert_eq!(e.status_code(), 400);
    assert_eq!(e.to_text(), "Bad Request: x");
    assert_eq!(AppError::Unauthorized("u".to_string()).status_code(), 401);
    assert_eq!(AppError::InternalServerError("i".to_string()).to_text(), "Internal Server Error: i");
    assert_eq!(AppError::SolanaError("s".to_string()).status_code(), 500);
    assert_eq!(AppError::InvalidProgramId("p".to_string()).status_code(), 400);
    assert!(matches!(AppError::from_program(ErrorCode::Unauthorized), AppError::Unauthorized(_)));
    assert!(matches!(AppError::from_program(ErrorCode::DataIntegrityFailed), AppError::SolanaError(_)));
}

#[test]
fn form_user_must_match_credential() {
    let me = "abc".to_string();
    assert_eq!(resolve_form_user(&String::new(), &me).unwrap(), "abc");
    assert_eq!(resolve_form_user(&"abc".to_string(), &me).unwrap(), "abc");
    assert!(matches!(resolve_form_user(&"xyz".to_string(), &me), Err(AppError::Unauthorized(_))));
}

#[test]
fn patient_form_requires_all_fields() {
    let d = patient_form_data("Jane".into(), "O+".into(), "none".into(), "555".into()).unwrap();
    assert_eq!(d.name, "Jane");
    assert!(d.file.is_none());
    assert!(matches!(
        patient_form_data("Jane".into(), String::new(), "none".into(), "555".into()),
        Err(AppError::BadRequest(_))
    ));
    assert!(require_patient_seed(&"s".to_string()).is_ok());
    assert!(matches!(require_patient_seed(&String::new()), Err(AppError::BadRequest(_))));
}

#[test]
fn credential_claims_expiry() {
    let c = jwt_claims(&"pk".to_string(), 1_000, 3_600).unwrap();
    assert_eq!((c.sub.as_str(), c.exp), ("pk", 4_600));
    assert!(jwt_claims(&"pk".to_string(), i64::MAX, 1).is_none());
}
