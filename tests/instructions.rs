use medical_records::address::{admin_address, history_address, patient_address};
use medical_records::instruction::{
    authority_instruction, encode_key_argument, encode_text_argument, patient_instruction,
    InstructionKind,
};
use medical_records::key::Key;
use solana_sdk::pubkey::Pubkey;

fn key(n: u8) -> Key {
    Key::from_bytes([n; 32])
}

fn flags(ix: &medical_records::instruction::Instruction) -> Vec<(u8, bool, bool)> {
    ix.accounts.iter().map(|m| (m.pubkey.bytes[0], m.is_signer, m.is_writable)).collect()
}

#[test]
fn discriminators_match_program() {
    assert_eq!(InstructionKind::AddReadAuthority.discriminator(), [121, 238, 122, 44, 108, 135, 140, 74]);
    assert_eq!(InstructionKind::RemoveReadAuthority.discriminator(), [184, 21, 123, 83, 88, 34, 159, 122]);
    assert_eq!(InstructionKind::AddWriteAuthority.discriminator(), [82, 195, 138, 26, 4, 176, 126, 226]);
    assert_eq!(InstructionKind::RemoveWriteAuthority.discriminator(), [60, 67, 110, 202, 138, 63, 172, 59]);
    assert_eq!(InstructionKind::CreatePatient.discriminator(), [176, 85, 210, 156, 179, 74, 60, 203]);
    assert_eq!(InstructionKind::UpdatePatient.discriminator(), [112, 151, 255, 60, 59, 88, 232, 154]);
    assert_eq!(InstructionKind::CreatePatient.name(), "create_patient");
    assert!(InstructionKind::AddReadAuthority.is_authority_change());
    assert!(!InstructionKind::UpdatePatient.is_authority_change());
}

#[test]
fn key_argument_is_discriminator_then_raw_key() {
    let data = encode_key_argument(InstructionKind::AddReadAuthority, &key(9));
    assert_eq!(data.len(), 40);
    assert_eq!(&data[..8], &[121, 238, 122, 44, 108, 135, 140, 74]);
    assert_eq!(&data[8..], &[9u8; 32]);
}

#[test]
fn text_argument_is_length_prefixed_little_endian() {
    let data = encode_text_argument(InstructionKind::CreatePatient, b"hello");
    assert_eq!(data, vec![176, 85, 210, 156, 179, 74, 60, 203, 5, 0, 0, 0, b'h', b'e', b'l', b'l', b'o']);
    let long = vec![b'x'; 300];
    let data = encode_text_argument(InstructionKind::UpdatePatient, &long);
    assert_eq!(&data[8..12], &[44, 1, 0, 0]);
    assert_eq!(data.len(), 312);
}

#[test]
fn authority_instruction_flags() {
    let ix = authority_instruction(InstructionKind::RemoveWriteAuthority, &key(1), &key(2), &key(3), &key(4), &key(5));
    assert_eq!(ix.program_id.bytes, [1u8; 32]);
    assert_eq!(flags(&ix), vec![(2, true, true), (3, false, true), (4, false, true), (0, false, false)]);
    assert_eq!(&ix.data[8..], &[5u8; 32]);
}

#[test]
fn patient_instruction_flags() {
    let ix = patient_instruction(InstructionKind::CreatePatient, &key(1), &key(2), &key(3), &key(4), &key(5), b"r");
    assert_eq!(
        flags(&ix),
        vec![(2, false, true), (3, false, false), (4, true, false), (5, false, false), (0, false, false)]
    );
    assert_eq!(ix.data, vec![176, 85, 210, 156, 179, 74, 60, 203, 1, 0, 0, 0, b'r']);
}

#[test]
fn derived_addresses_match_ledger_derivation() {
    let program = Pubkey::new_unique();
    let admin = Pubkey::new_unique();
    let seed = Pubkey::new_unique();
    let pk = Key::from_bytes(program.to_bytes());
    let ak = Key::from_bytes(admin.to_bytes());
    let sk = Key::from_bytes(seed.to_bytes());
    let (expected, _) = Pubkey::find_program_address(&[b"admin"], &program);
    assert_eq!(admin_address(&pk).unwrap().bytes, expected.to_bytes());
    let (expected, _) = Pubkey::find_program_address(&[b"history", admin.as_ref()], &program);
    assert_eq!(history_address(&pk, &ak).unwrap().bytes, expected.to_bytes());
    let (expected, _) = Pubkey::find_program_address(&[b"patient", admin.as_ref(), seed.as_ref()], &program);
    assert_eq!(patient_address(&pk, &ak, &sk).unwrap().bytes, expected.to_bytes());
    assert_ne!(patient_address(&pk, &ak, &ak).unwrap().bytes, expected.to_bytes());
}
