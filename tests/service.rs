use medical_records::error::AppError;
use medical_records::key::Key;
use medical_records::ledger::{self, Admin, AuthorityHistory, Patient};
use medical_records::models::{
    AddReadAuthorityRequest, CreatePatientRequest, RemoveWriteAuthorityRequest,
    UpdatePatientRequest,
};
use medical_records::service::{
    after_anchor_failure, check_submission, get_patient_addresses, redeem_view_token,
    require_signatures, AnchorStep, TransactionService,
};
use medical_records::tokens::TokenStore;
use medical_records::transaction::deserialize_transaction;
use solana_sdk::pubkey::Pubkey;
use solana_sdk::signature::{Keypair, Signer};
use solana_sdk::transaction::Transaction;

const ENCRYPTION_KEY: &str = "BwcHBwcHBwcHBwcHBwcHBwcHBwcHBwcHBwcHBwcHBwc=";

fn b64(bytes: &[u8]) -> String {
    base64::Engine::encode(&base64::engine::general_purpose::STANDARD, bytes)
}

fn service(admin: &Keypair, program: &Pubkey) -> TransactionService {
    let keypair = Keypair::from_bytes(&admin.to_bytes()).unwrap();
    TransactionService::new(keypair, &program.to_string(), ENCRYPTION_KEY).unwrap()
}

fn decode_tx(serialized: &str) -> Transaction {
    let bytes = base64::Engine::decode(&base64::engine::general_purpose::STANDARD, serialized).unwrap();
    bincode::deserialize(&bytes).unwrap()
}

fn admin_bytes(admin: &Admin) -> Vec<u8> {
    let mut d = vec![0u8; 8];
    d.extend_from_slice(&admin.authority.bytes);
    for list in [&admin.read_authorities, &admin.write_authorities] {
        d.extend_from_slice(&(list.len() as u32).to_le_bytes());
        for k in list.iter() {
            d.extend_from_slice(&k.bytes);
        }
    }
    d
}

fn patient_bytes(p: &Patient) -> Vec<u8> {
    let mut d = vec![0u8; 8];
    d.extend_from_slice(&p.patient_address.bytes);
    d.push(p.is_initialized as u8);
    d.extend_from_slice(&(p.encrypted_data.len() as u32).to_le_bytes());
    d.extend_from_slice(&p.encrypted_data);
    d.extend_from_slice(&p.data_hash);
    d
}

fn key_of(p: &Pubkey) -> Key {
    Key::from_bytes(p.to_bytes())
}

#[test]
fn service_construction_checks_inputs() {
    let admin = Keypair::new();
    let k = || Keypair::from_bytes(&admin.to_bytes()).unwrap();
    assert!(matches!(
        TransactionService::new(k(), "not-a-key!", ENCRYPTION_KEY),
        Err(AppError::InvalidProgramId(_))
    ));
    let program = Pubkey::new_unique().to_string();
    assert!(matches!(
        TransactionService::new(k(), &program, "%%%"),
        Err(AppError::InternalServerError(_))
    ));
    assert!(matches!(
        TransactionService::new(k(), &program, &b64(&[1u8; 16])),
        Err(AppError::InternalServerError(_))
    ));
    let s = TransactionService::new(k(), &program, ENCRYPTION_KEY).unwrap();
    assert_eq!(s.admin_pubkey.bytes, admin.pubkey().to_bytes());
    assert_eq!(s.program_id.bytes.to_vec(), bs58::decode(&program).into_vec().unwrap());
}

#[test]
fn authority_change_is_co_signed_and_needs_caller_signature() {
    let admin = Keypair::new();
    let program = Pubkey::new_unique();
    let s = service(&admin, &program);
    let user = Keypair::new();
    let target = Pubkey::new_unique();
    let req = AddReadAuthorityRequest { user_pubkey: user.pubkey().to_string(), new_authority: target.to_string() };
    let prepared = s.prepare_add_read_authority(&req, &[7u8; 32]).unwrap();
    assert_eq!(prepared.transaction_type, "add_read_authority");
    assert_eq!(
        prepared.metadata,
        format!("{{\"user_pubkey\":\"{}\",\"new_authority\":\"{}\"}}", user.pubkey(), target)
    );
    let mut tx = decode_tx(&prepared.serialized_transaction);
    assert_eq!(tx.message.recent_blockhash.to_bytes(), [7u8; 32]);
    assert_eq!(tx.message.account_keys[0], user.pubkey());
    assert_eq!(tx.message.header.num_required_signatures, 2);
    let data = &tx.message.instructions[0].data;
    assert_eq!(&data[..8], &[121, 238, 122, 44, 108, 135, 140, 74]);
    assert_eq!(&data[8..], target.as_ref());
    let admin_slot = tx.message.account_keys.iter().position(|k| *k == admin.pubkey()).unwrap();
    assert!(tx.signatures[admin_slot].verify(admin.pubkey().as_ref(), &tx.message_data()));
    // the caller has not signed yet: submission is refused
    assert!(matches!(check_submission(&prepared.serialized_transaction), Err(AppError::BadRequest(_))));
    let anchor = tx.message.recent_blockhash;
    tx.partial_sign(&[&user], anchor);
    let signed = b64(&bincode::serialize(&tx).unwrap());
    assert!(check_submission(&signed).is_ok());
    assert!(deserialize_transaction(&signed).is_ok());
}

#[test]
fn missing_signature_is_bad_request() {
    let signers = vec![Key::from_bytes([1u8; 32]), Key::from_bytes([2u8; 32])];
    assert!(require_signatures(2, &vec![[1u8; 64], [2u8; 64]], &signers).is_ok());
    match require_signatures(2, &vec![[1u8; 64], [0u8; 64]], &signers) {
        Err(AppError::BadRequest(m)) => {
            assert_eq!(m, format!("Missing signature for required signer: {}", Pubkey::new_from_array([2u8; 32])))
        }
        other => panic!("unexpected {:?}", other),
    }
    assert!(matches!(require_signatures(2, &vec![[1u8; 64]], &signers), Err(AppError::BadRequest(_))));
    assert!(require_signatures(0, &vec![], &vec![]).is_ok());
    assert!(matches!(check_submission("***"), Err(AppError::BadRequest(_))));
    assert!(matches!(check_submission("AAAA"), Err(AppError::BadRequest(_))));
    assert!(matches!(deserialize_transaction("AAAA"), Err(AppError::BadRequest(_))));
}

#[test]
fn malformed_identity_is_bad_request() {
    let admin = Keypair::new();
    let s = service(&admin, &Pubkey::new_unique());
    let req = RemoveWriteAuthorityRequest { user_pubkey: "bad".to_string(), authority_to_remove: Pubkey::new_unique().to_string() };
    assert!(matches!(s.prepare_remove_write_authority(&req, &[0u8; 32]), Err(AppError::BadRequest(_))));
}

#[test]
fn patient_create_is_unsigned_and_indexed() {
    let admin = Keypair::new();
    let program = Pubkey::new_unique();
    let s = service(&admin, &program);
    let mut index = s.new_seed_index();
    let user = Pubkey::new_unique();
    let seed = Pubkey::new_unique();
    let req = CreatePatientRequest { user_pubkey: user.to_string(), patient_data: br#"{"name":"Jane"}"#.to_vec() };
    let p = s.prepare_create_patient_with(&req, &key_of(&seed), &[0u8; 12], &[1u8; 32], &mut index).unwrap();
    assert_eq!(p.transaction_type, "create_patient");
    let parts: Vec<&str> = p.encrypted_data_with_seed.split('|').collect();
    assert_eq!(parts.len(), 3);
    assert_eq!(parts[1], "AAAAAAAAAAAAAAAA");
    assert_eq!(parts[2], seed.to_string());
    let tx = decode_tx(&p.serialized_transaction);
    assert_eq!(tx.message.header.num_required_signatures, 1);
    assert!(tx.signatures.iter().all(|s| *s == solana_sdk::signature::Signature::default()));
    let (pda, _) = Pubkey::find_program_address(&[b"patient", admin.pubkey().as_ref(), seed.as_ref()], &program);
    assert!(tx.message.account_keys.contains(&pda));
    assert_eq!(index.lookup(&key_of(&pda)).unwrap().bytes, seed.to_bytes());
    let record = format!("{}|{}", parts[0], parts[1]);
    let data = &tx.message.instructions[0].data;
    assert_eq!(&data[..8], &[176, 85, 210, 156, 179, 74, 60, 203]);
    assert_eq!(&data[8..12], &(record.len() as u32).to_le_bytes());
    assert_eq!(&data[12..], record.as_bytes());
    let bad = CreatePatientRequest { user_pubkey: "0OIl".to_string(), patient_data: vec![] };
    assert!(matches!(
        s.prepare_create_patient_with(&bad, &key_of(&seed), &[0u8; 12], &[1u8; 32], &mut index),
        Err(AppError::BadRequest(_))
    ));
    assert!(s.prepare_create_patient(&req, &[1u8; 32], &mut index).is_ok());
    assert_eq!(index.snapshot().len(), 2);
}

#[test]
fn patient_update_needs_valid_seed() {
    let admin = Keypair::new();
    let s = service(&admin, &Pubkey::new_unique());
    let user = Pubkey::new_unique().to_string();
    let req = UpdatePatientRequest { user_pubkey: user.clone(), patient_seed: "nope".to_string(), patient_data: b"{}".to_vec() };
    assert!(matches!(s.prepare_update_patient(&req, &[0u8; 32]), Err(AppError::BadRequest(_))));
    let seed = Pubkey::new_unique();
    let req = UpdatePatientRequest { user_pubkey: user, patient_seed: seed.to_string(), patient_data: b"{}".to_vec() };
    let p = s.prepare_update_patient_with(&req, &[2u8; 12], &[0u8; 32]).unwrap();
    assert_eq!(p.transaction_type, "update_patient");
    assert!(p.encrypted_data_with_seed.ends_with(&format!("|{}", seed)));
}

#[test]
fn scenario_grant_view_and_expire() {
    let a = Keypair::new();
    let program = Pubkey::new_unique();
    let s = service(&a, &program);
    let w = Pubkey::new_unique();
    let r = Pubkey::new_unique();
    let ka = key_of(&a.pubkey());
    let mut admin = Admin::new();
    let mut history = AuthorityHistory::new();
    ledger::initialize(&mut admin, &ka).unwrap();
    ledger::add_write_authority(&mut admin, &mut history, &ka, &key_of(&w), 1).unwrap();
    let mut index = s.new_seed_index();
    let seed = Pubkey::new_unique();
    let req = CreatePatientRequest { user_pubkey: w.to_string(), patient_data: br#"{"name":"Jane"}"#.to_vec() };
    let prepared = s.prepare_create_patient_with(&req, &key_of(&seed), &[9u8; 12], &[1u8; 32], &mut index).unwrap();
    let (record, _seed_text) = prepared.encrypted_data_with_seed.rsplit_once('|').unwrap();
    let address = s.patient_account_address(&ka, &key_of(&seed)).unwrap();
    let mut patient = Patient::empty();
    ledger::create_patient(&admin, &mut patient, &address, &key_of(&w), record.as_bytes().to_vec()).unwrap();
    ledger::add_read_authority(&mut admin, &mut history, &ka, &key_of(&r), 2).unwrap();
    assert_eq!(ledger::get_patient(&admin, &patient, &key_of(&r)), Ok(()));

    let mut store = TokenStore::new();
    let owner = key_of(&program);
    let admin_data = admin_bytes(&admin);
    let patient_data = patient_bytes(&patient);
    // a caller without read authority is refused
    let denied = s.get_patient(&seed.to_string(), &w.to_string(), &owner, &admin_data, &owner, &patient_data, 100, &mut store);
    assert!(matches!(denied, Err(AppError::Unauthorized(_))));
    let granted = s
        .get_patient_with_token(&seed.to_string(), &r.to_string(), &owner, &admin_data, &owner, &patient_data, 77, 100, &mut store)
        .unwrap();
    let token = granted.view_url.rsplit('/').next().unwrap().to_string();
    // another spelling of the same value does not name the token
    let simple = uuid::Uuid::from_u128(77).simple().to_string();
    assert!(matches!(redeem_view_token(&simple, 100, &mut store), Err(AppError::Unauthorized(_))));
    assert_eq!(granted.view_url, format!("http://localhost:8080/api/view_patient/{}", uuid::Uuid::from_u128(77)));
    for now in [100u64, 2_000, 3_699] {
        let seed_key = redeem_view_token(&token, now, &mut store).unwrap();
        let address = s.patient_address_from_admin(&admin_data, &seed_key).unwrap();
        assert_eq!(address.bytes, patient.patient_address.bytes);
        let plain = s.open_patient_record(&patient_data).unwrap();
        assert_eq!(plain, br#"{"name":"Jane"}"#.to_vec());
    }
    assert!(matches!(redeem_view_token(&token, 3_700, &mut store), Err(AppError::Unauthorized(_))));
    assert!(matches!(redeem_view_token("not-a-token", 100, &mut store), Err(AppError::Unauthorized(_))));
}

#[test]
fn foreign_accounts_are_bad_requests() {
    let a = Keypair::new();
    let program = Pubkey::new_unique();
    let s = service(&a, &program);
    let stranger = Key::from_bytes([3u8; 32]);
    assert!(matches!(s.get_authorities(&stranger, &[0u8; 80]), Err(AppError::BadRequest(_))));
    assert!(matches!(s.get_authority_history(&stranger, &[0u8; 80]), Err(AppError::BadRequest(_))));
    let owner = key_of(&program);
    assert!(matches!(s.get_authorities(&owner, &[0u8; 20]), Err(AppError::InternalServerError(_))));
}

#[test]
fn authorities_and_history_render_as_text() {
    let a = Keypair::new();
    let program = Pubkey::new_unique();
    let s = service(&a, &program);
    let ka = key_of(&a.pubkey());
    let mut admin = Admin::new();
    let mut history = AuthorityHistory::new();
    ledger::initialize(&mut admin, &ka).unwrap();
    let r = Pubkey::new_unique();
    ledger::add_read_authority(&mut admin, &mut history, &ka, &key_of(&r), 42).unwrap();
    let resp = s.get_authorities(&key_of(&program), &admin_bytes(&admin)).unwrap();
    assert_eq!(resp.authority, a.pubkey().to_string());
    assert_eq!(resp.read_authorities, vec![a.pubkey().to_string(), r.to_string()]);
    assert_eq!(resp.write_authorities, vec![a.pubkey().to_string()]);
    let mut d = vec![0u8; 8];
    d.extend_from_slice(&1u32.to_le_bytes());
    d.extend_from_slice(&a.pubkey().to_bytes());
    d.extend_from_slice(&r.to_bytes());
    d.extend_from_slice(&[1, 1]);
    d.extend_from_slice(&42i64.to_le_bytes());
    let h = s.get_authority_history(&key_of(&program), &d).unwrap();
    assert_eq!(h.entries.len(), 1);
    assert_eq!(h.entries[0].authority, r.to_string());
    assert_eq!(h.entries[0].admin, a.pubkey().to_string());
    assert_eq!(h.entries[0].timestamp, 42);
}

#[test]
fn patient_addresses_name_unknown_seeds() {
    let a = Keypair::new();
    let s = service(&a, &Pubkey::new_unique());
    let mut index = s.new_seed_index();
    let seed = Key::from_bytes([4u8; 32]);
    let known = index.record(&seed).unwrap();
    let unknown = Key::from_bytes([5u8; 32]);
    let resp = get_patient_addresses(&vec![known, unknown], &index);
    assert_eq!(resp.patient_addresses[0].0, Pubkey::new_from_array(known.bytes).to_string());
    assert_eq!(resp.patient_addresses[0].1, Pubkey::new_from_array([4u8; 32]).to_string());
    assert_eq!(resp.patient_addresses[1].1, "Unknown");
}

#[test]
fn anchor_fetch_retries_then_gives_up() {
    assert!(matches!(after_anchor_failure(1, 5), AnchorStep::Retry));
    assert!(matches!(after_anchor_failure(4, 5), AnchorStep::Retry));
    assert!(matches!(after_anchor_failure(5, 5), AnchorStep::GiveUp(AppError::SolanaError(_))));
}
