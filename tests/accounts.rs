use medical_records::accounts::{decode_admin, decode_history, decode_patient, patient_account_tag};

fn header() -> Vec<u8> {
    vec![9u8; 8]
}

fn admin_bytes(authority: u8, reads: &[u8], writes: &[u8]) -> Vec<u8> {
    let mut d = header();
    d.extend_from_slice(&[authority; 32]);
    d.extend_from_slice(&(reads.len() as u32).to_le_bytes());
    for r in reads {
        d.extend_from_slice(&[*r; 32]);
    }
    d.extend_from_slice(&(writes.len() as u32).to_le_bytes());
    for w in writes {
        d.extend_from_slice(&[*w; 32]);
    }
    d
}

#[test]
fn admin_account_decodes() {
    let mut d = admin_bytes(1, &[1, 2, 3], &[1]);
    d.extend_from_slice(&[0u8; 64]);
    let admin = decode_admin(&d).unwrap();
    assert_eq!(admin.authority.bytes, [1u8; 32]);
    let reads: Vec<u8> = admin.read_authorities.iter().map(|k| k.bytes[0]).collect();
    assert_eq!(reads, vec![1, 2, 3]);
    assert_eq!(admin.write_authorities.len(), 1);
}

#[test]
fn truncated_admin_account_is_refused() {
    let d = admin_bytes(1, &[1, 2, 3], &[1]);
    assert!(decode_admin(&d[..d.len() - 1]).is_none());
    assert!(decode_admin(&d[..20]).is_none());
    assert!(decode_admin(&[]).is_none());
}

#[test]
fn patient_account_decodes() {
    let mut d = header();
    d.extend_from_slice(&[4u8; 32]);
    d.push(1);
    d.extend_from_slice(&3u32.to_le_bytes());
    d.extend_from_slice(b"a|b");
    d.extend_from_slice(&[6u8; 32]);
    d.extend_from_slice(&[0u8; 10]);
    let p = decode_patient(&d).unwrap();
    assert_eq!(p.patient_address.bytes, [4u8; 32]);
    assert!(p.is_initialized);
    assert_eq!(p.encrypted_data, b"a|b".to_vec());
    assert_eq!(p.data_hash, [6u8; 32]);
    d[40] = 2;
    assert!(decode_patient(&d).is_none());
}

#[test]
fn history_account_decodes() {
    let mut d = header();
    d.extend_from_slice(&2u32.to_le_bytes());
    for (who, added, t) in [(5u8, true, -3i64), (6u8, false, 1_700_000_000i64)] {
        d.extend_from_slice(&[1u8; 32]);
        d.extend_from_slice(&[who; 32]);
        d.push(added as u8);
        d.push(1);
        d.extend_from_slice(&t.to_le_bytes());
    }
    let h = decode_history(&d).unwrap();
    assert_eq!(h.entries.len(), 2);
    assert_eq!((h.entries[0].authority.bytes[0], h.entries[0].added, h.entries[0].timestamp), (5, true, -3));
    assert_eq!((h.entries[1].authority.bytes[0], h.entries[1].added, h.entries[1].timestamp), (6, false, 1_700_000_000));
    assert!(h.entries[1].is_read);
    assert!(decode_history(&d[..d.len() - 1]).is_none());
}

#[test]
fn patient_tag_is_fixed() {
    assert_eq!(patient_account_tag(), [118, 127, 39, 235, 201, 189, 0, 109]);
}
