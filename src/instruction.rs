use vstd::prelude::*;
use crate::key::{Key, zero_key};

verus! {

/// The ledger program's operations that the service prepares.
#[derive(Clone, Copy, Debug, PartialEq, Eq, Structural)]
pub enum InstructionKind {
    AddReadAuthority,
    RemoveReadAuthority,
    AddWriteAuthority,
    RemoveWriteAuthority,
    CreatePatient,
    UpdatePatient,
}

/// One account of an instruction, with the flags the program expects.
#[derive(Clone, Copy, Debug)]
pub struct AccountMeta {
    pub pubkey: Key,
    pub is_signer: bool,
    pub is_writable: bool,
}

impl AccountMeta {
    pub open spec fn view(&self) -> (Seq<u8>, bool, bool) {
        (self.pubkey@, self.is_signer, self.is_writable)
    }
}

/// The views of a sequence of account entries.
pub open spec fn metas_view(v: Seq<AccountMeta>) -> Seq<(Seq<u8>, bool, bool)> {
    v.map_values(|m: AccountMeta| m@)
}

/// An unsigned ledger instruction: program, ordered accounts, argument bytes.
#[derive(Clone, Debug)]
pub struct Instruction {
    pub program_id: Key,
    pub accounts: Vec<AccountMeta>,
    pub data: Vec<u8>,
}

/// The eight-byte prefix that names an operation to the program.
pub open spec fn discriminator_of(kind: InstructionKind) -> Seq<u8> {
    match kind {
        InstructionKind::AddReadAuthority => seq![121u8, 238, 122, 44, 108, 135, 140, 74],
        InstructionKind::RemoveReadAuthority => seq![184u8, 21, 123, 83, 88, 34, 159, 122],
        InstructionKind::AddWriteAuthority => seq![82u8, 195, 138, 26, 4, 176, 126, 226],
        InstructionKind::RemoveWriteAuthority => seq![60u8, 67, 110, 202, 138, 63, 172, 59],
        InstructionKind::CreatePatient => seq![176u8, 85, 210, 156, 179, 74, 60, 203],
        InstructionKind::UpdatePatient => seq![112u8, 151, 255, 60, 59, 88, 232, 154],
    }
}

/// The operation's name as the program declares it.
pub open spec fn kind_name(kind: InstructionKind) -> Seq<char> {
    match kind {
        InstructionKind::AddReadAuthority => "add_read_authority"@,
        InstructionKind::RemoveReadAuthority => "remove_read_authority"@,
        InstructionKind::AddWriteAuthority => "add_write_authority"@,
        InstructionKind::RemoveWriteAuthority => "remove_write_authority"@,
        InstructionKind::CreatePatient => "create_patient"@,
        InstructionKind::UpdatePatient => "update_patient"@,
    }
}

/// Whether the operation changes an authority list (and so needs the
/// service's co-signature).
pub open spec fn is_authority_kind(kind: InstructionKind) -> bool {
    match kind {
        InstructionKind::CreatePatient | InstructionKind::UpdatePatient => false,
        _ => true,
    }
}

impl InstructionKind {
    pub fn discriminator(&self) -> (r: [u8; 8])
        ensures
            r@ == discriminator_of(*self),
    {
        let r: [u8; 8] = match self {
            InstructionKind::AddReadAuthority => [121, 238, 122, 44, 108, 135, 140, 74],
            InstructionKind::RemoveReadAuthority => [184, 21, 123, 83, 88, 34, 159, 122],
            InstructionKind::AddWriteAuthority => [82, 195, 138, 26, 4, 176, 126, 226],
            InstructionKind::RemoveWriteAuthority => [60, 67, 110, 202, 138, 63, 172, 59],
            InstructionKind::CreatePatient => [176, 85, 210, 156, 179, 74, 60, 203],
            InstructionKind::UpdatePatient => [112, 151, 255, 60, 59, 88, 232, 154],
        };
        assert(r@ =~= discriminator_of(*self));
        r
    }

    pub fn name(&self) -> (r: String)
        ensures
            r@ == kind_name(*self),
    {
        let s: &str = match self {
            InstructionKind::AddReadAuthority => "add_read_authority",
            InstructionKind::RemoveReadAuthority => "remove_read_authority",
            InstructionKind::AddWriteAuthority => "add_write_authority",
            InstructionKind::RemoveWriteAuthority => "remove_write_authority",
            InstructionKind::CreatePatient => "create_patient",
            InstructionKind::UpdatePatient => "update_patient",
        };
        s.to_owned()
    }

    pub fn is_authority_change(&self) -> (r: bool)
        ensures
            r == is_authority_kind(*self),
    {
        match self {
            InstructionKind::CreatePatient | InstructionKind::UpdatePatient => false,
            _ => true,
        }
    }
}

/// The four little-endian bytes of `n`.
pub open spec fn le_u32(n: u32) -> Seq<u8> {
    seq![
        (n & 0xff) as u8,
        ((n >> 8u32) & 0xff) as u8,
        ((n >> 16u32) & 0xff) as u8,
        ((n >> 24u32) & 0xff) as u8,
    ]
}

/// The value of four little-endian bytes.
pub open spec fn u32_from_le(b0: u8, b1: u8, b2: u8, b3: u8) -> u32 {
    (b0 as u32) | ((b1 as u32) << 8u32) | ((b2 as u32) << 16u32) | ((b3 as u32) << 24u32)
}

/// Four bytes read as a little-endian value give those bytes back.
pub proof fn lemma_le_u32_round_trip(b0: u8, b1: u8, b2: u8, b3: u8)
    ensures
        le_u32(u32_from_le(b0, b1, b2, b3)) == seq![b0, b1, b2, b3],
{
    let v = u32_from_le(b0, b1, b2, b3);
    assert((v & 0xff) as u8 == b0) by (bit_vector)
        requires
            v == (b0 as u32) | ((b1 as u32) << 8u32) | ((b2 as u32) << 16u32) | ((b3 as u32) << 24u32),
    ;
    assert(((v >> 8u32) & 0xff) as u8 == b1) by (bit_vector)
        requires
            v == (b0 as u32) | ((b1 as u32) << 8u32) | ((b2 as u32) << 16u32) | ((b3 as u32) << 24u32),
    ;
    assert(((v >> 16u32) & 0xff) as u8 == b2) by (bit_vector)
        requires
            v == (b0 as u32) | ((b1 as u32) << 8u32) | ((b2 as u32) << 16u32) | ((b3 as u32) << 24u32),
    ;
    assert(((v >> 24u32) & 0xff) as u8 == b3) by (bit_vector)
        requires
            v == (b0 as u32) | ((b1 as u32) << 8u32) | ((b2 as u32) << 16u32) | ((b3 as u32) << 24u32),
    ;
    assert(le_u32(v) =~= seq![b0, b1, b2, b3]);
}

/// Distinct values have distinct little-endian bytes.
pub proof fn lemma_le_u32_injective(x: u32, y: u32)
    requires
        le_u32(x) == le_u32(y),
    ensures
        x == y,
{
    assert(le_u32(x)[0] == le_u32(y)[0]);
    assert(le_u32(x)[1] == le_u32(y)[1]);
    assert(le_u32(x)[2] == le_u32(y)[2]);
    assert(le_u32(x)[3] == le_u32(y)[3]);
    assert(x == y) by (bit_vector)
        requires
            (x & 0xff) as u8 == (y & 0xff) as u8,
            ((x >> 8u32) & 0xff) as u8 == ((y >> 8u32) & 0xff) as u8,
            ((x >> 16u32) & 0xff) as u8 == ((y >> 16u32) & 0xff) as u8,
            ((x >> 24u32) & 0xff) as u8 == ((y >> 24u32) & 0xff) as u8,
    ;
}

/// Appends the bytes of `src` to `dst`.
pub fn append_bytes(dst: &mut Vec<u8>, src: &[u8])
    ensures
        final(dst)@ == old(dst)@ + src@,
{
    let mut i: usize = 0;
    while i < src.len()
        invariant
            0 <= i <= src.len(),
            dst@ == old(dst)@ + src@.subrange(0, i as int),
        decreases src.len() - i,
    {
        dst.push(src[i]);
        i = i + 1;
        assert(src@.subrange(0, i as int) =~= src@.subrange(0, i - 1) + seq![src@[i - 1]]);
    }
    assert(src@.subrange(0, src@.len() as int) =~= src@);
}

/// Argument bytes of an operation on one identity: the discriminator, then the
/// identity's 32 raw bytes.
pub fn encode_key_argument(kind: InstructionKind, target: &Key) -> (r: Vec<u8>)
    ensures
        r@ == discriminator_of(kind) + target@,
{
    let d = kind.discriminator();
    let mut data: Vec<u8> = Vec::new();
    append_bytes(&mut data, d.as_slice());
    append_bytes(&mut data, target.bytes.as_slice());
    data
}

/// Argument bytes of an operation on one string: the discriminator, the byte
/// length as four little-endian bytes, then the bytes.
pub fn encode_text_argument(kind: InstructionKind, text: &[u8]) -> (r: Vec<u8>)
    requires
        text@.len() <= u32::MAX,
    ensures
        r@ == discriminator_of(kind) + le_u32(text@.len() as u32) + text@,
{
    let d = kind.discriminator();
    let n: u32 = text.len() as u32;
    let mut data: Vec<u8> = Vec::new();
    append_bytes(&mut data, d.as_slice());
    data.push((n & 0xff) as u8);
    data.push(((n >> 8u32) & 0xff) as u8);
    data.push(((n >> 16u32) & 0xff) as u8);
    data.push(((n >> 24u32) & 0xff) as u8);
    append_bytes(&mut data, text);
    assert(data@ =~= discriminator_of(kind) + le_u32(n) + text@);
    data
}

/// The accounts of an authority-list change, in the program's order: the
/// admin identity (signer, writable), the admin account and the history
/// account (writable), the system program (read-only).
pub open spec fn authority_accounts(
    admin: Seq<u8>,
    admin_account: Seq<u8>,
    history_account: Seq<u8>,
) -> Seq<(Seq<u8>, bool, bool)> {
    seq![
        (admin, true, true),
        (admin_account, false, true),
        (history_account, false, true),
        (zero_key(), false, false),
    ]
}

/// The accounts of a patient create or update, in the program's order: the
/// patient account (writable), the seed identity (read-only), the caller
/// (signer), the admin account and the system program (read-only).
pub open spec fn patient_accounts(
    patient_account: Seq<u8>,
    seed: Seq<u8>,
    caller: Seq<u8>,
    admin_account: Seq<u8>,
) -> Seq<(Seq<u8>, bool, bool)> {
    seq![
        (patient_account, false, true),
        (seed, false, false),
        (caller, true, false),
        (admin_account, false, false),
        (zero_key(), false, false),
    ]
}

/// Builds an authority-list change of `kind` on `target`.
pub fn authority_instruction(
    kind: InstructionKind,
    program_id: &Key,
    admin: &Key,
    admin_account: &Key,
    history_account: &Key,
    target: &Key,
) -> (r: Instruction)
    requires
        is_authority_kind(kind),
    ensures
        r.program_id == *program_id,
        metas_view(r.accounts@) == authority_accounts(admin@, admin_account@, history_account@),
        r.data@ == discriminator_of(kind) + target@,
{
    let data = encode_key_argument(kind, target);
    let accounts = vec![
        AccountMeta { pubkey: *admin, is_signer: true, is_writable: true },
        AccountMeta { pubkey: *admin_account, is_signer: false, is_writable: true },
        AccountMeta { pubkey: *history_account, is_signer: false, is_writable: true },
        AccountMeta { pubkey: Key::zero(), is_signer: false, is_writable: false },
    ];
    assert(metas_view(accounts@) =~= authority_accounts(admin@, admin_account@, history_account@));
    Instruction { program_id: *program_id, accounts, data }
}

/// Builds a patient create or update of `kind` carrying the record text.
pub fn patient_instruction(
    kind: InstructionKind,
    program_id: &Key,
    patient_account: &Key,
    seed: &Key,
    caller: &Key,
    admin_account: &Key,
    record: &[u8],
) -> (r: Instruction)
    requires
        !is_authority_kind(kind),
        record@.len() <= u32::MAX,
    ensures
        r.program_id == *program_id,
        metas_view(r.accounts@) == patient_accounts(patient_account@, seed@, caller@, admin_account@),
        r.data@ == discriminator_of(kind) + le_u32(record@.len() as u32) + record@,
{
    let data = encode_text_argument(kind, record);
    let accounts = vec![
        AccountMeta { pubkey: *patient_account, is_signer: false, is_writable: true },
        AccountMeta { pubkey: *seed, is_signer: false, is_writable: false },
        AccountMeta { pubkey: *caller, is_signer: true, is_writable: false },
        AccountMeta { pubkey: *admin_account, is_signer: false, is_writable: false },
        AccountMeta { pubkey: Key::zero(), is_signer: false, is_writable: false },
    ];
    assert(metas_view(accounts@) =~= patient_accounts(patient_account@, seed@, caller@, admin_account@));
    Instruction { program_id: *program_id, accounts, data }
}

} // verus!
