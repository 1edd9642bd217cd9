use vstd::prelude::*;
use solana_sdk::pubkey::Pubkey;
use solana_sdk::signature::Keypair;
use solana_sdk::transaction::Transaction;
use crate::instruction::{Instruction, metas_view};
use crate::ledger::keys_view;
use vstd::string::StringSliceAdditionalSpecFns;
use crate::encoding::{ascii_bytes, base64_decode, base64_of};
use crate::error::AppError;
use crate::key::Key;

verus! {

#[verifier::external_type_specification]
#[verifier::external_body]
pub struct ExTransaction(Transaction);

#[verifier::external_type_specification]
#[verifier::external_body]
pub struct ExKeypair(Keypair);

/// The most accounts an instruction may name: with the fee payer and the
/// program id, a message then holds at most 255 keys.
pub const MAX_INSTRUCTION_ACCOUNTS: usize = 253;

/// The most argument bytes an instruction may carry on the wire.
pub const MAX_INSTRUCTION_DATA: usize = 65535;

/// The instruction fits in a legacy message.
pub open spec fn fits_message(ix: Instruction) -> bool {
    ix.accounts@.len() <= MAX_INSTRUCTION_ACCOUNTS && ix.data@.len() <= MAX_INSTRUCTION_DATA
}

/// Wire bytes of the unsigned legacy transaction of one instruction
/// (`program`, `accounts`, `data`) with `payer` as fee payer and `blockhash`
/// as liveness anchor; every signature slot is empty.
pub uninterp spec fn unsigned_wire_of(
    program: Seq<u8>,
    accounts: Seq<(Seq<u8>, bool, bool)>,
    data: Seq<u8>,
    payer: Seq<u8>,
    blockhash: Seq<u8>,
) -> Seq<u8>;

/// Wire bytes of the same transaction with the signature of the keypair
/// whose 64 bytes are `keypair` in that keypair's signer slot, the other
/// slots empty.
pub uninterp spec fn co_signed_wire_of(
    program: Seq<u8>,
    accounts: Seq<(Seq<u8>, bool, bool)>,
    data: Seq<u8>,
    payer: Seq<u8>,
    blockhash: Seq<u8>,
    keypair: Seq<u8>,
) -> Seq<u8>;

/// The 64 bytes are a keypair: a secret key followed by its public key.
pub uninterp spec fn is_keypair_bytes(b: Seq<u8>) -> bool;

/// What wire bytes decode to, if they are a transaction: the count of
/// required signers, the signature slots and the account keys.
pub uninterp spec fn signers_of_wire(bytes: Seq<u8>) -> Option<(u8, Seq<[u8; 64]>, Seq<Seq<u8>>)>;

/// Relies on `Transaction::new_with_payer`, which panics only when a class of
/// accounts outgrows 255 keys (excluded by `requires`): the unsigned
/// transaction, with `blockhash` set as its anchor.
#[verifier::external_body]
fn outside_transaction(ix: &Instruction, payer: &Key, blockhash: &[u8; 32]) -> (r: Transaction)
    requires
        fits_message(*ix),
{
    let accounts = ix.accounts.iter().map(|m| solana_sdk::instruction::AccountMeta {
        pubkey: Pubkey::new_from_array(m.pubkey.bytes),
        is_signer: m.is_signer,
        is_writable: m.is_writable,
    }).collect();
    let program_id = Pubkey::new_from_array(ix.program_id.bytes);
    let outside = solana_sdk::instruction::Instruction { program_id, accounts, data: ix.data.clone() };
    let mut tx = Transaction::new_with_payer(&[outside], Some(&Pubkey::new_from_array(payer.bytes)));
    tx.message.recent_blockhash = solana_sdk::hash::Hash::new_from_array(*blockhash);
    tx
}

/// Relies on `bincode::serialize` of a fresh unsigned `Transaction`: its wire
/// bytes, a function of the instruction, payer and anchor; serialization fails
/// only for lengths past the wire's short-vector limit, excluded by `requires`.
#[verifier::external_body]
pub(crate) fn unsigned_wire(ix: &Instruction, payer: &Key, blockhash: &[u8; 32]) -> (r: Vec<u8>)
    requires
        fits_message(*ix),
    ensures
        r@ == unsigned_wire_of(ix.program_id@, metas_view(ix.accounts@), ix.data@, payer@, blockhash@),
{
    bincode::serialize(&outside_transaction(ix, payer, blockhash)).unwrap_or_default()
}

/// Relies on `Keypair::try_from` (accepts exactly consistent keypair bytes),
/// `Transaction::try_partial_sign` on a fresh transaction (succeeds when the
/// keypair's key is one of the instruction's signers; Ed25519 signing is
/// deterministic) and `bincode::serialize`.
#[verifier::external_body]
pub(crate) fn co_signed_wire(ix: &Instruction, payer: &Key, blockhash: &[u8; 32], keypair: &[u8; 64]) -> (r: Option<Vec<u8>>)
    requires
        fits_message(*ix),
    ensures
        r.is_some() ==> r.unwrap()@ == co_signed_wire_of(ix.program_id@, metas_view(ix.accounts@), ix.data@, payer@, blockhash@, keypair@),
        is_keypair_bytes(keypair@) && (exists|i: int| 0 <= i < ix.accounts@.len()
            && (#[trigger] ix.accounts@[i]).pubkey@ == keypair@.subrange(32, 64) && ix.accounts@[i].is_signer) ==> r.is_some(),
{
    let signer = Keypair::try_from(&keypair[..]).ok()?;
    let mut tx = outside_transaction(ix, payer, blockhash);
    let anchor = tx.message.recent_blockhash;
    tx.try_partial_sign(&[&signer], anchor).ok()?;
    bincode::serialize(&tx).ok()
}

/// Relies on `bincode::deserialize` into a `Transaction` and its public
/// fields: the header's count of required signers, the signature slots, the
/// account keys; a function of the bytes alone.
#[verifier::external_body]
fn decode_wire(bytes: &[u8]) -> (r: Option<(Transaction, u8, Vec<[u8; 64]>, Vec<Key>)>)
    ensures
        r.is_some() == signers_of_wire(bytes@).is_some(),
        r matches Some((_, n, sigs, keys)) ==> signers_of_wire(bytes@) == Some((n, sigs@, keys_view(keys@))),
{
    let tx = bincode::deserialize::<Transaction>(bytes).ok()?;
    let sigs = tx.signatures.iter().map(|s| <[u8; 64]>::from(*s)).collect();
    let keys = tx.message.account_keys.iter().map(|k| Key { bytes: k.to_bytes() }).collect();
    let n = tx.message.header.num_required_signatures;
    Some((tx, n, sigs, keys))
}

/// Relies on `Keypair::to_bytes`: the secret key followed by its public key,
/// which `Keypair::try_from` accepts back.
#[verifier::external_body]
pub(crate) fn keypair_bytes(keypair: &Keypair) -> (r: [u8; 64])
    ensures
        is_keypair_bytes(r@),
{
    keypair.to_bytes()
}

/// A signature slot that holds no signature: all 64 bytes zero.
pub open spec fn is_empty_signature(s: Seq<u8>) -> bool {
    forall|i: int| 0 <= i < s.len() ==> s[i] == 0
}

/// Signer slot `i` is missing: absent, or holding no signature.
pub open spec fn slot_missing(sigs: Seq<[u8; 64]>, i: int) -> bool {
    i >= sigs.len() || is_empty_signature(sigs[i]@)
}

fn empty_signature(s: &[u8; 64]) -> (r: bool)
    ensures
        r == is_empty_signature(s@),
{
    let mut i: usize = 0;
    while i < 64
        invariant
            0 <= i <= 64,
            s@.len() == 64,
            forall|j: int| 0 <= j < i ==> s@[j] == 0,
        decreases 64 - i,
    {
        if s[i] != 0 {
            return false;
        }
        i = i + 1;
    }
    true
}

/// The first of the `required` signer slots that holds no signature, if any.
pub fn first_missing_signer(required: u8, signatures: &Vec<[u8; 64]>) -> (r: Option<usize>)
    ensures
        r matches Some(i) ==> i < required && slot_missing(signatures@, i as int) && forall|j: int|
            0 <= j < i ==> !slot_missing(signatures@, j),
        r is None ==> forall|j: int| 0 <= j < required ==> !slot_missing(signatures@, j),
{
    let mut i: usize = 0;
    while i < required as usize
        invariant
            0 <= i <= required,
            forall|j: int| 0 <= j < i ==> !slot_missing(signatures@, j),
        decreases required - i,
    {
        if i >= signatures.len() || empty_signature(&signatures[i]) {
            return Some(i);
        }
        i = i + 1;
    }
    None
}

/// A transaction from its wire text, with what it decodes to: text that is
/// not base64, or bytes that are not a transaction, are BadRequest.
pub fn deserialize_transaction(serialized: &str) -> (r: Result<(Transaction, u8, Vec<[u8; 64]>, Vec<Key>), AppError>)
    ensures
        forall|b: Seq<u8>| ascii_bytes(#[trigger] base64_of(b)) == serialized.spec_bytes() ==> {
            &&& (r is Ok <==> signers_of_wire(b) is Some)
            &&& (r matches Ok((_, n, sigs, keys)) ==> signers_of_wire(b) == Some((n, sigs@, keys_view(keys@))))
        },
        (forall|b: Seq<u8>| ascii_bytes(#[trigger] base64_of(b)) != serialized.spec_bytes()) ==> r is Err,
        r is Err ==> r matches Err(AppError::BadRequest(_)),
{
    let bytes = match base64_decode(serialized.as_bytes()) {
        Some(b) => b,
        None => {
            return Err(AppError::BadRequest("Failed to decode transaction".to_owned()));
        },
    };
    match decode_wire(bytes.as_slice()) {
        Some(t) => Ok(t),
        None => Err(AppError::BadRequest("Failed to deserialize transaction".to_owned())),
    }
}

} // verus!
