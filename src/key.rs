use vstd::prelude::*;

verus! {

/// The all-zero key: "not set" for the ledger, and the system program's id.
pub open spec fn zero_key() -> Seq<u8> {
    Seq::new(32, |_i: int| 0u8)
}

/// A 32-byte ledger identity (a public key or a derived address).
#[derive(Clone, Copy, Debug)]
pub struct Key {
    pub bytes: [u8; 32],
}

impl Key {
    pub open spec fn view(&self) -> Seq<u8> {
        self.bytes@
    }

    /// The all-zero key, which the ledger uses for "not set".
    pub fn zero() -> (r: Key)
        ensures
            r@ == zero_key(),
    {
        let r = Key { bytes: [0u8; 32] };
        assert(r@ =~= zero_key());
        r
    }

    pub fn from_bytes(bytes: [u8; 32]) -> (r: Key)
        ensures
            r@ == bytes@,
    {
        Key { bytes }
    }

    /// Byte-wise equality of two keys.
    pub fn same(&self, other: &Key) -> (r: bool)
        ensures
            r == (self@ == other@),
    {
        let mut i: usize = 0;
        while i < 32
            invariant
                0 <= i <= 32,
                self@.len() == 32,
                other@.len() == 32,
                forall|j: int| 0 <= j < i ==> self@[j] == other@[j],
            decreases 32 - i,
        {
            if self.bytes[i] != other.bytes[i] {
                return false;
            }
            i = i + 1;
        }
        assert(self@ =~= other@);
        true
    }
}

} // verus!

verus! {

/// SHA-256 digest of a byte string.
pub uninterp spec fn sha256_of(data: Seq<u8>) -> Seq<u8>;

/// Relies on solana_sdk::hash::hash: the SHA-256 digest of `data`, which
/// depends on the bytes alone.
#[verifier::external_body]
pub(crate) fn sha256(data: &[u8]) -> (r: [u8; 32])
    ensures
        r@ == sha256_of(data@),
{
    solana_sdk::hash::hash(data).to_bytes()
}

/// Byte-wise equality of two 32-byte arrays.
pub fn same_bytes32(a: &[u8; 32], b: &[u8; 32]) -> (r: bool)
    ensures
        r == (a@ == b@),
{
    let ka = Key { bytes: *a };
    let kb = Key { bytes: *b };
    ka.same(&kb)
}

} // verus!

verus! {

/// Base58 text of a key's bytes.
pub uninterp spec fn base58_of(bytes: Seq<u8>) -> Seq<char>;

/// The key that base58 text names, if it names one of 32 bytes.
pub uninterp spec fn key_from_text(text: Seq<char>) -> Option<Seq<u8>>;

/// Relies on `Pubkey`'s `Display` (base58 of the 32 bytes), a function of the bytes alone.
#[verifier::external_body]
pub(crate) fn key_text(k: &Key) -> (r: String)
    ensures
        r@ == base58_of(k@),
{
    solana_sdk::pubkey::Pubkey::new_from_array(k.bytes).to_string()
}

/// Relies on `Pubkey::from_str`: base58 text of exactly 32 bytes gives those
/// bytes, so the text of a key parses back to it; anything else is refused.
#[verifier::external_body]
pub(crate) fn parse_key(text: &str) -> (r: Option<Key>)
    ensures
        r.is_some() == key_from_text(text@).is_some(),
        r.is_some() ==> key_from_text(text@) == Some(r.unwrap()@),
        forall|b: Seq<u8>| b.len() == 32 && #[trigger] base58_of(b) == text@ ==> r.is_some() && r.unwrap()@ == b,
{
    <solana_sdk::pubkey::Pubkey as std::str::FromStr>::from_str(text)
        .ok()
        .map(|k| Key { bytes: k.to_bytes() })
}

} // verus!

verus! {

/// The 32 bytes of `src` from `at` on, as a key.
pub fn key_at(src: &[u8], at: usize) -> (r: Option<Key>)
    ensures
        r.is_some() == (at + 32 <= src@.len()),
        r matches Some(k) ==> k@ == src@.subrange(at as int, at + 32),
{
    if at > src.len() || src.len() - at < 32 {
        return None;
    }
    let mut bytes = [0u8; 32];
    let mut i: usize = 0;
    while i < 32
        invariant
            0 <= i <= 32,
            at + 32 <= src.len(),
            bytes@.len() == 32,
            forall|j: int| 0 <= j < i ==> bytes@[j] == src@[at + j],
        decreases 32 - i,
    {
        bytes[i] = src[at + i];
        i = i + 1;
    }
    let k = Key { bytes };
    assert(k@ =~= src@.subrange(at as int, at + 32));
    Some(k)
}

} // verus!
