use medical_records::address::patient_address;
use medical_records::key::Key;
use medical_records::seed_index::SeedIndex;

fn key(n: u8) -> Key {
    Key::from_bytes([n; 32])
}

#[test]
fn recorded_address_derives_from_seed() {
    let mut index = SeedIndex::new(key(1), key(2));
    let address = index.record(&key(3)).unwrap();
    assert_eq!(address.bytes, patient_address(&key(1), &key(2), &key(3)).unwrap().bytes);
    assert_eq!(index.lookup(&address).unwrap().bytes, [3u8; 32]);
    assert!(index.lookup(&key(3)).is_none());
}

#[test]
fn snapshot_reloads_identically() {
    let mut index = SeedIndex::new(key(1), key(2));
    let mut addresses = Vec::new();
    for n in 10..15u8 {
        addresses.push(index.record(&key(n)).unwrap());
    }
    index.record(&key(12)).unwrap();
    let snapshot = index.snapshot();
    assert_eq!(snapshot.len(), 5);
    let reloaded = SeedIndex::restore(key(1), key(2), &snapshot);
    for (i, a) in addresses.iter().enumerate() {
        assert_eq!(reloaded.lookup(a).unwrap().bytes, [10 + i as u8; 32]);
    }
    assert_eq!(reloaded.snapshot().len(), 5);
}

#[test]
fn restore_drops_entries_that_do_not_derive() {
    let mut index = SeedIndex::new(key(1), key(2));
    let good = index.record(&key(3)).unwrap();
    let mut snapshot = index.snapshot();
    snapshot.push((key(77), key(4)));
    let reloaded = SeedIndex::restore(key(1), key(2), &snapshot);
    assert!(reloaded.lookup(&good).is_some());
    assert!(reloaded.lookup(&key(77)).is_none());
    let other_admin = SeedIndex::restore(key(1), key(9), &snapshot);
    assert!(other_admin.lookup(&good).is_none());
}
