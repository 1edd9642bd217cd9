use vstd::prelude::*;
use crate::key::Key;

verus! {

/// The program-derived address for `seeds` under `program`, if a bump seed
/// gives one.
pub uninterp spec fn program_address_of(seeds: Seq<Seq<u8>>, program: Seq<u8>) -> Option<Seq<u8>>;

/// Relies on Pubkey::try_find_program_address: a deterministic function of the
/// seeds and the program id, `None` only when no bump seed gives an address.
#[verifier::external_body]
fn find_program_address(seeds: &Vec<Vec<u8>>, program: &Key) -> (r: Option<Key>)
    ensures
        r.is_some() == program_address_of(seeds.deep_view(), program@).is_some(),
        r matches Some(k) ==> program_address_of(seeds.deep_view(), program@) == Some(k@),
{
    let refs: Vec<&[u8]> = seeds.iter().map(|s| s.as_slice()).collect();
    let program_id = solana_sdk::pubkey::Pubkey::new_from_array(program.bytes);
    solana_sdk::pubkey::Pubkey::try_find_program_address(&refs, &program_id)
        .map(|(k, _bump)| Key { bytes: k.to_bytes() })
}

/// The label bytes of each account kind.
pub open spec fn admin_label() -> Seq<u8> {
    seq![97u8, 100, 109, 105, 110]
}

pub open spec fn history_label() -> Seq<u8> {
    seq![104u8, 105, 115, 116, 111, 114, 121]
}

pub open spec fn patient_label() -> Seq<u8> {
    seq![112u8, 97, 116, 105, 101, 110, 116]
}

/// The admin account's address: derived from its label alone.
pub open spec fn admin_address_of(program: Seq<u8>) -> Option<Seq<u8>> {
    program_address_of(seq![admin_label()], program)
}

/// The history account's address: label and admin identity.
pub open spec fn history_address_of(program: Seq<u8>, admin: Seq<u8>) -> Option<Seq<u8>> {
    program_address_of(seq![history_label(), admin], program)
}

/// A patient account's address: label, admin identity and the record's seed identity.
pub open spec fn patient_address_of(program: Seq<u8>, admin: Seq<u8>, seed: Seq<u8>) -> Option<
    Seq<u8>,
> {
    program_address_of(seq![patient_label(), admin, seed], program)
}

fn key_bytes(k: &Key) -> (r: Vec<u8>)
    ensures
        r@ == k@,
{
    let mut v: Vec<u8> = Vec::new();
    crate::instruction::append_bytes(&mut v, k.bytes.as_slice());
    v
}

pub fn admin_address(program: &Key) -> (r: Option<Key>)
    ensures
        r.is_some() == admin_address_of(program@).is_some(),
        r matches Some(k) ==> admin_address_of(program@) == Some(k@),
{
    let label: Vec<u8> = vec![97, 100, 109, 105, 110];
    assert(label.deep_view() =~= admin_label());
    let seeds = vec![label];
    assert(seeds.deep_view() =~= seq![admin_label()]);
    find_program_address(&seeds, program)
}

pub fn history_address(program: &Key, admin: &Key) -> (r: Option<Key>)
    ensures
        r.is_some() == history_address_of(program@, admin@).is_some(),
        r matches Some(k) ==> history_address_of(program@, admin@) == Some(k@),
{
    let label: Vec<u8> = vec![104, 105, 115, 116, 111, 114, 121];
    let a = key_bytes(admin);
    assert(label.deep_view() =~= history_label());
    assert(a.deep_view() =~= admin@);
    let seeds = vec![label, a];
    assert(seeds.deep_view() =~= seq![history_label(), admin@]);
    find_program_address(&seeds, program)
}

pub fn patient_address(program: &Key, admin: &Key, seed: &Key) -> (r: Option<Key>)
    ensures
        r.is_some() == patient_address_of(program@, admin@, seed@).is_some(),
        r matches Some(k) ==> patient_address_of(program@, admin@, seed@) == Some(k@),
{
    let label: Vec<u8> = vec![112, 97, 116, 105, 101, 110, 116];
    let a = key_bytes(admin);
    let b = key_bytes(seed);
    assert(label.deep_view() =~= patient_label());
    assert(a.deep_view() =~= admin@);
    assert(b.deep_view() =~= seed@);
    let seeds = vec![label, a, b];
    assert(seeds.deep_view() =~= seq![patient_label(), admin@, seed@]);
    find_program_address(&seeds, program)
}

} // verus!
