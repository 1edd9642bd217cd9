use medical_records::error::AppError;
use medical_records::key::Key;
use medical_records::tokens::{TokenStore, TOKEN_TTL_SECS};

fn seed() -> Key {
    Key::from_bytes([5u8; 32])
}

fn refused(r: Result<Key, AppError>) -> String {
    match r {
        Err(AppError::Unauthorized(m)) => m,
        other => panic!("expected Unauthorized, got {:?}", other),
    }
}

#[test]
fn token_usable_repeatedly_until_expiry() {
    let mut store = TokenStore::new();
    let exp = store.issue(42, seed(), 1_000);
    assert_eq!(exp, 1_000 + TOKEN_TTL_SECS);
    assert_eq!(exp, 4_600);
    for now in [1_000u64, 2_000, 4_599, 4_599] {
        assert_eq!(store.redeem(42, now).unwrap().bytes, [5u8; 32]);
    }
}

#[test]
fn token_fails_at_and_after_expiry() {
    let mut store = TokenStore::new();
    store.issue(42, seed(), 1_000);
    let at = refused(store.redeem(42, 4_600));
    assert_eq!(at, "Invalid or expired token");
    let after = refused(store.redeem(42, 1_500));
    assert_eq!(after, "Invalid or expired token");
}

#[test]
fn unknown_token_fails_like_expired() {
    let mut store = TokenStore::new();
    store.issue(1, seed(), 0);
    let unknown = refused(store.redeem(2, 10));
    let expired = refused(store.redeem(1, 5_000));
    assert_eq!(unknown, expired);
}

#[test]
fn expiry_saturates_at_largest_time() {
    let mut store = TokenStore::new();
    assert_eq!(store.issue(3, seed(), u64::MAX - 10), u64::MAX);
    assert!(store.redeem(3, u64::MAX - 1).is_ok());
}
