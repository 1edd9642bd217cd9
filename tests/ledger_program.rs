use medical_records::key::Key;
use medical_records::ledger::{
    add_read_authority, add_write_authority, create_patient, get_patient, initialize,
    remove_read_authority, remove_write_authority, update_patient, Admin, AuthorityHistory,
    ErrorCode, Patient, MAX_AUTHORITIES, MAX_HISTORY,
};

fn key(n: u8) -> Key {
    Key::from_bytes([n; 32])
}

fn initialized(admin_id: u8) -> Admin {
    let mut admin = Admin::new();
    initialize(&mut admin, &key(admin_id)).unwrap();
    admin
}

fn ids(list: &[Key]) -> Vec<u8> {
    list.iter().map(|k| k.bytes[0]).collect()
}

#[test]
fn initialize_seeds_first_caller_as_sole_authority() {
    let admin = initialized(1);
    assert_eq!(admin.authority.bytes, [1u8; 32]);
    assert_eq!(ids(&admin.read_authorities), vec![1]);
    assert_eq!(ids(&admin.write_authorities), vec![1]);
}

#[test]
fn initialize_is_idempotent_for_same_authority() {
    let mut admin = initialized(1);
    admin.read_authorities.push(key(2));
    assert_eq!(initialize(&mut admin, &key(1)), Ok(()));
    assert_eq!(ids(&admin.read_authorities), vec![1, 2]);
}

#[test]
fn initialize_by_other_identity_is_unauthorized() {
    let mut admin = initialized(1);
    assert_eq!(initialize(&mut admin, &key(9)), Err(ErrorCode::Unauthorized));
    assert_eq!(admin.authority.bytes, [1u8; 32]);
}

#[test]
fn add_then_check_read_authority_succeeds() {
    let mut admin = initialized(1);
    let mut history = AuthorityHistory::new();
    assert!(!admin.has_read_authority(&key(7)));
    assert_eq!(add_read_authority(&mut admin, &mut history, &key(1), &key(7), 100), Ok(()));
    assert!(admin.has_read_authority(&key(7)));
    assert_eq!(history.entries.len(), 1);
    let e = history.entries[0];
    assert_eq!((e.admin.bytes[0], e.authority.bytes[0], e.added, e.is_read, e.timestamp), (1, 7, true, true, 100));
}

#[test]
fn remove_then_check_read_authority_fails() {
    let mut admin = initialized(1);
    let mut history = AuthorityHistory::new();
    add_read_authority(&mut admin, &mut history, &key(1), &key(7), 100).unwrap();
    assert_eq!(remove_read_authority(&mut admin, &mut history, &key(1), &key(7), 200), Ok(()));
    assert!(!admin.has_read_authority(&key(7)));
    let e = history.entries[1];
    assert_eq!((e.authority.bytes[0], e.added, e.is_read, e.timestamp), (7, false, true, 200));
}

#[test]
fn re_adding_present_authority_changes_nothing() {
    let mut admin = initialized(1);
    let mut history = AuthorityHistory::new();
    add_write_authority(&mut admin, &mut history, &key(1), &key(4), 10).unwrap();
    assert_eq!(add_write_authority(&mut admin, &mut history, &key(1), &key(4), 11), Ok(()));
    assert_eq!(ids(&admin.write_authorities), vec![1, 4]);
    assert_eq!(history.entries.len(), 1);
}

#[test]
fn removing_absent_authority_logs_nothing() {
    let mut admin = initialized(1);
    let mut history = AuthorityHistory::new();
    assert_eq!(remove_write_authority(&mut admin, &mut history, &key(1), &key(5), 10), Ok(()));
    assert_eq!(ids(&admin.write_authorities), vec![1]);
    assert!(history.entries.is_empty());
}

#[test]
fn non_authority_cannot_change_lists() {
    let mut admin = initialized(1);
    let mut history = AuthorityHistory::new();
    assert_eq!(
        add_read_authority(&mut admin, &mut history, &key(2), &key(3), 1),
        Err(ErrorCode::Unauthorized)
    );
    assert_eq!(
        remove_read_authority(&mut admin, &mut history, &key(2), &key(1), 1),
        Err(ErrorCode::Unauthorized)
    );
    assert_eq!(ids(&admin.read_authorities), vec![1]);
    assert!(history.entries.is_empty());
}

#[test]
fn removal_swaps_last_entry_into_place() {
    let mut admin = initialized(1);
    let mut history = AuthorityHistory::new();
    for n in 2..=4u8 {
        add_read_authority(&mut admin, &mut history, &key(1), &key(n), 0).unwrap();
    }
    remove_read_authority(&mut admin, &mut history, &key(1), &key(2), 0).unwrap();
    assert_eq!(ids(&admin.read_authorities), vec![1, 4, 3]);
}

#[test]
fn authority_list_is_capped() {
    let mut admin = initialized(1);
    let mut history = AuthorityHistory::new();
    for n in 2..(MAX_AUTHORITIES as u8 + 1) {
        add_read_authority(&mut admin, &mut history, &key(1), &key(n), 0).unwrap();
    }
    assert_eq!(admin.read_authorities.len(), MAX_AUTHORITIES);
    assert_eq!(
        add_read_authority(&mut admin, &mut history, &key(1), &key(200), 0),
        Err(ErrorCode::CapacityExceeded)
    );
    assert_eq!(add_read_authority(&mut admin, &mut history, &key(1), &key(2), 0), Ok(()));
    assert_eq!(admin.read_authorities.len(), MAX_AUTHORITIES);
}

#[test]
fn history_evicts_oldest_entry_when_full() {
    let mut admin = initialized(1);
    let mut history = AuthorityHistory::new();
    for t in 0..(MAX_HISTORY as i64 + 5) {
        add_read_authority(&mut admin, &mut history, &key(1), &key(9), t).unwrap();
        remove_read_authority(&mut admin, &mut history, &key(1), &key(9), t).unwrap();
    }
    assert_eq!(history.entries.len(), MAX_HISTORY);
    let first = history.entries[0];
    let last = history.entries[MAX_HISTORY - 1];
    assert_eq!((first.added, first.timestamp), (true, 55));
    assert_eq!((last.added, last.timestamp), (false, 104));
}

#[test]
fn write_authority_creates_and_updates_patient() {
    let mut admin = initialized(1);
    let mut patient = Patient::empty();
    let data = b"cipher|nonce".to_vec();
    assert_eq!(create_patient(&admin, &mut patient, &key(8), &key(1), data.clone()), Ok(()));
    assert!(patient.is_initialized);
    assert_eq!(patient.patient_address.bytes, [8u8; 32]);
    assert_eq!(patient.encrypted_data, data);
    assert_eq!(patient.data_hash, solana_sdk::hash::hash(&data).to_bytes());
    assert_eq!(
        create_patient(&admin, &mut patient, &key(8), &key(1), b"x".to_vec()),
        Err(ErrorCode::PatientAlreadyExists)
    );
    assert_eq!(update_patient(&admin, &mut patient, &key(1), b"new|data".to_vec()), Ok(()));
    assert_eq!(patient.encrypted_data, b"new|data".to_vec());
    assert_eq!(get_patient(&admin, &patient, &key(1)), Ok(()));
    let mut history = AuthorityHistory::new();
    remove_write_authority(&mut admin, &mut history, &key(1), &key(1), 0).unwrap();
    assert_eq!(
        update_patient(&admin, &mut patient, &key(1), b"z".to_vec()),
        Err(ErrorCode::Unauthorized)
    );
}

#[test]
fn patient_errors_follow_account_checks() {
    let admin = initialized(1);
    let mut patient = Patient::empty();
    assert_eq!(
        update_patient(&admin, &mut patient, &key(1), b"a".to_vec()),
        Err(ErrorCode::PatientDoesNotExist)
    );
    assert_eq!(get_patient(&admin, &patient, &key(1)), Err(ErrorCode::PatientDoesNotExist));
    assert_eq!(
        create_patient(&admin, &mut patient, &key(8), &key(3), b"a".to_vec()),
        Err(ErrorCode::Unauthorized)
    );
    assert_eq!(
        create_patient(&admin, &mut patient, &key(8), &key(1), vec![b'a'; 501]),
        Err(ErrorCode::CapacityExceeded)
    );
    assert!(!patient.is_initialized);
}

#[test]
fn tampered_record_fails_integrity_check() {
    let admin = initialized(1);
    let mut patient = Patient::empty();
    create_patient(&admin, &mut patient, &key(8), &key(1), b"abc|def".to_vec()).unwrap();
    assert_eq!(get_patient(&admin, &patient, &key(2)), Err(ErrorCode::Unauthorized));
    patient.encrypted_data[0] ^= 1;
    assert_eq!(get_patient(&admin, &patient, &key(1)), Err(ErrorCode::DataIntegrityFailed));
}
