use vstd::prelude::*;
use vstd::string::{StringExecFns, StringSliceAdditionalSpecFns};
use solana_sdk::signature::Keypair;
use crate::address::{admin_address, admin_address_of, history_address, history_address_of, patient_address, patient_address_of};
use crate::encoding::{ascii_bytes, base64_decode, base64_encode, base64_of};
use crate::error::AppError;
use crate::instruction::{
    Instruction, InstructionKind, authority_accounts, authority_instruction, discriminator_of,
    is_authority_kind, kind_name, le_u32, metas_view, patient_accounts, patient_instruction,
};
use crate::key::{Key, base58_of, key_at, key_from_text, key_text, parse_key};
use crate::accounts::{admin_layout, decode_admin, decode_history, decode_patient, history_layout, patient_layout};
use crate::ledger::{HistoryEntry as LedgerEntry, keys_view};
use crate::models::{
    AddReadAuthorityRequest, AddWriteAuthorityRequest, AuthoritiesResponse,
    AuthorityHistoryResponse, CreatePatientRequest, GetPatientResponse, HistoryEntry, JwtConfig,
    PatientAddressesResponse, PreparedPatientTransaction, PreparedTransaction,
    PreparedUpdatePatientTransaction, RemoveReadAuthorityRequest, RemoveWriteAuthorityRequest,
    UpdatePatientRequest,
};
use crate::record::{
    AES_P_MAX, aes_gcm_seal, ascii_text_bytes, open_record, opens, record_chars, record_text,
    seal_record, well_formed_parts,
};
use crate::seed_index::{SeedIndex, restored};
use crate::tokens::{TokenStore, after_redeem, expiry_of, refused_token_message, token_usable};
use crate::transaction::{
    co_signed_wire, co_signed_wire_of, deserialize_transaction, first_missing_signer, fits_message,
    is_keypair_bytes, keypair_bytes, signers_of_wire, slot_missing, unsigned_wire, unsigned_wire_of,
};
use solana_sdk::transaction::Transaction;

verus! {

/// JSON text of a string value (quoted and escaped).
pub uninterp spec fn json_string_of(s: Seq<char>) -> Seq<char>;

/// Relies on `serde_json::to_string` of a `&str`: the quoted, escaped JSON
/// string, a function of the text alone; serializing a string does not fail.
#[verifier::external_body]
fn json_string(s: &str) -> (r: String)
    ensures
        r@ == json_string_of(s@),
{
    serde_json::to_string(s).unwrap_or_default()
}

/// The echo of a two-field request as a JSON object, fields in order.
pub open spec fn request_json(
    first_name: Seq<char>,
    first: Seq<char>,
    second_name: Seq<char>,
    second: Seq<char>,
) -> Seq<char> {
    seq!['{', '"'] + first_name + seq!['"', ':'] + json_string_of(first) + seq![',', '"']
        + second_name + seq!['"', ':'] + json_string_of(second) + seq!['}']
}

fn two_field_json(first_name: &str, first: &str, second_name: &str, second: &str) -> (r: String)
    ensures
        r@ == request_json(first_name@, first@, second_name@, second@),
{
    let a = json_string(first);
    let b = json_string(second);
    let out = "{\"".to_owned().concat(first_name).concat("\":").concat(a.as_str()).concat(
        ",\"",
    ).concat(second_name).concat("\":").concat(b.as_str()).concat("}");
    proof {
        reveal_strlit("{\"");
        reveal_strlit("\":");
        reveal_strlit(",\"");
        reveal_strlit("}");
        assert(out@ =~= request_json(first_name@, first@, second_name@, second@));
    }
    out
}

/// Wire bytes of an authority-list change of `kind` on `target`, paid by
/// `user`, anchored at `blockhash` and co-signed with `keypair`.
pub open spec fn authority_wire(
    program: Seq<u8>,
    admin: Seq<u8>,
    kind: InstructionKind,
    user: Seq<u8>,
    target: Seq<u8>,
    blockhash: Seq<u8>,
    keypair: Seq<u8>,
) -> Seq<u8> {
    co_signed_wire_of(
        program,
        authority_accounts(admin, admin_address_of(program).unwrap(), history_address_of(program, admin).unwrap()),
        discriminator_of(kind) + target,
        user,
        blockhash,
        keypair,
    )
}

/// Wire bytes of an unsigned patient create or update of `kind` carrying
/// `record`, for the account of `seed`, paid by `caller`.
pub open spec fn patient_wire(
    program: Seq<u8>,
    admin: Seq<u8>,
    kind: InstructionKind,
    caller: Seq<u8>,
    seed: Seq<u8>,
    record: Seq<u8>,
    blockhash: Seq<u8>,
) -> Seq<u8> {
    unsigned_wire_of(
        program,
        patient_accounts(
            patient_address_of(program, admin, seed).unwrap(),
            seed,
            caller,
            admin_address_of(program).unwrap(),
        ),
        discriminator_of(kind) + le_u32(record.len() as u32) + record,
        caller,
        blockhash,
    )
}

/// The stored record bytes of `plaintext` sealed under `key` and `nonce`.
pub open spec fn sealed_record(key: Seq<u8>, nonce: Seq<u8>, plaintext: Seq<u8>) -> Seq<u8> {
    ascii_bytes(record_chars(aes_gcm_seal(key, nonce, plaintext), nonce))
}

/// What a create with a fresh seed and nonce gave: the record text joins the
/// sealed payload to the seed's text, the transaction carries that record for
/// the seed's account, and the index gained the account's address.
pub open spec fn created_under(
    program: Seq<u8>,
    admin: Seq<u8>,
    key: Seq<u8>,
    user: Seq<char>,
    payload: Seq<u8>,
    blockhash: Seq<u8>,
    serialized: Seq<char>,
    with_seed: Seq<char>,
    before: Map<Seq<u8>, Seq<u8>>,
    after: Map<Seq<u8>, Seq<u8>>,
    seed: Seq<u8>,
    n: Seq<u8>,
) -> bool {
    &&& n.len() == 12
    &&& with_seed == record_chars(aes_gcm_seal(key, n, payload), n) + seq!['|'] + base58_of(seed)
    &&& serialized == base64_of(
        patient_wire(
            program,
            admin,
            InstructionKind::CreatePatient,
            key_from_text(user).unwrap(),
            seed,
            sealed_record(key, n, payload),
            blockhash,
        ),
    )
    &&& patient_address_of(program, admin, seed) is Some
    &&& after == before.insert(patient_address_of(program, admin, seed).unwrap(), seed)
}

/// Most record bytes a patient instruction carries on the wire.
pub const MAX_WIRE_RECORD: usize = 65523;

/// The service's own identity and keys, with which it prepares and co-signs
/// transactions and seals records.
pub struct TransactionService {
    admin_keypair: [u8; 64],
    pub admin_pubkey: Key,
    pub program_id: Key,
    encryption_key: [u8; 32],
}

impl TransactionService {
    pub closed spec fn key_spec(&self) -> Seq<u8> {
        self.encryption_key@
    }

    pub closed spec fn program_spec(&self) -> Seq<u8> {
        self.program_id@
    }

    pub closed spec fn admin_spec(&self) -> Seq<u8> {
        self.admin_pubkey@
    }

    /// The service's keypair bytes: secret key, then public key.
    pub closed spec fn keypair_spec(&self) -> Seq<u8> {
        self.admin_keypair@
    }

    /// The keypair is consistent, and the service's identity is its public half.
    pub closed spec fn wf(&self) -> bool {
        &&& is_keypair_bytes(self.admin_keypair@)
        &&& self.admin_pubkey@ == self.admin_keypair@.subrange(32, 64)
    }

    /// Builds the service from its keypair, the program id as text and the
    /// record key as base64 text of 32 bytes.
    pub fn new(admin_keypair: Keypair, program_id: &str, encryption_key: &str) -> (r: Result<
        TransactionService,
        AppError,
    >)
        ensures
            (r matches Err(AppError::InvalidProgramId(_))) <==> key_from_text(program_id@) is None,
            r matches Ok(s) ==> s.wf(),
            r matches Ok(s) ==> Some(s.program_spec()) == key_from_text(program_id@) && s.key_spec().len()
                == 32 && ascii_bytes(base64_of(s.key_spec())) == encryption_key.spec_bytes(),
            key_from_text(program_id@) is Some && (exists|b: Seq<u8>|
                b.len() == 32 && ascii_bytes(#[trigger] base64_of(b)) == encryption_key.spec_bytes())
                ==> r is Ok,
            r is Err ==> (r matches Err(AppError::InvalidProgramId(_))) || (r matches Err(
                AppError::InternalServerError(_),
            )),
    {
        let secret = keypair_bytes(&admin_keypair);
        let admin_pubkey = match key_at(secret.as_slice(), 32) {
            Some(k) => k,
            None => {
                return Err(AppError::InternalServerError("Malformed keypair".to_owned()));
            },
        };
        let program = match parse_key(program_id) {
            Some(k) => k,
            None => {
                return Err(AppError::InvalidProgramId("Invalid program ID".to_owned()));
            },
        };
        let bytes = match base64_decode(encryption_key.as_bytes()) {
            Some(b) => b,
            None => {
                return Err(
                    AppError::InternalServerError("Failed to decode ENCRYPTION_KEY".to_owned()),
                );
            },
        };
        if bytes.len() != 32 {
            return Err(AppError::InternalServerError("ENCRYPTION_KEY must be 32 bytes".to_owned()));
        }
        let mut key = [0u8; 32];
        let mut i: usize = 0;
        while i < 32
            invariant
                0 <= i <= 32,
                bytes@.len() == 32,
                key@.len() == 32,
                forall|j: int| 0 <= j < i ==> key@[j] == bytes@[j],
            decreases 32 - i,
        {
            key[i] = bytes[i];
            i = i + 1;
        }
        assert(key@ =~= bytes@);
        Ok(TransactionService { admin_keypair: secret, admin_pubkey, program_id: program, encryption_key: key })
    }

    /// The admin account's address.
    pub fn admin_account_address(&self) -> (r: Result<Key, AppError>)
        ensures
            r is Ok <==> admin_address_of(self.program_spec()) is Some,
            r matches Ok(k) ==> admin_address_of(self.program_spec()) == Some(k@),
            r is Err ==> r matches Err(AppError::InternalServerError(_)),
    {
        match admin_address(&self.program_id) {
            Some(k) => Ok(k),
            None => Err(AppError::InternalServerError("No viable admin address".to_owned())),
        }
    }

    /// The authority history account's address for the service's identity.
    pub fn history_account_address(&self) -> (r: Result<Key, AppError>)
        ensures
            r is Ok <==> history_address_of(self.program_spec(), self.admin_spec()) is Some,
            r matches Ok(k) ==> history_address_of(self.program_spec(), self.admin_spec()) == Some(
                k@,
            ),
            r is Err ==> r matches Err(AppError::InternalServerError(_)),
    {
        match history_address(&self.program_id, &self.admin_pubkey) {
            Some(k) => Ok(k),
            None => Err(AppError::InternalServerError("No viable history address".to_owned())),
        }
    }

    /// The patient account's address for a seed identity, under `admin`.
    pub fn patient_account_address(&self, admin: &Key, seed: &Key) -> (r: Result<Key, AppError>)
        ensures
            r is Ok <==> patient_address_of(self.program_spec(), admin@, seed@) is Some,
            r matches Ok(k) ==> patient_address_of(self.program_spec(), admin@, seed@) == Some(k@),
            r is Err ==> r matches Err(AppError::InternalServerError(_)),
    {
        match patient_address(&self.program_id, admin, seed) {
            Some(k) => Ok(k),
            None => Err(AppError::InternalServerError("No viable patient address".to_owned())),
        }
    }

    /// The instruction of an authority-list change on `target`: signed by the
    /// service's identity, on the admin and history accounts.
    pub fn authority_change_instruction(&self, kind: InstructionKind, target: &Key) -> (r: Result<
        Instruction,
        AppError,
    >)
        requires
            is_authority_kind(kind),
        ensures
            r is Ok <==> admin_address_of(self.program_spec()) is Some && history_address_of(
                self.program_spec(),
                self.admin_spec(),
            ) is Some,
            r matches Ok(ix) ==> {
                &&& ix.program_id@ == self.program_spec()
                &&& metas_view(ix.accounts@) == authority_accounts(
                    self.admin_spec(),
                    admin_address_of(self.program_spec()).unwrap(),
                    history_address_of(self.program_spec(), self.admin_spec()).unwrap(),
                )
                &&& ix.data@ == discriminator_of(kind) + target@
            },
            r is Err ==> r matches Err(AppError::InternalServerError(_)),
    {
        let admin_account = self.admin_account_address()?;
        let history_account = self.history_account_address()?;
        Ok(
            authority_instruction(
                kind,
                &self.program_id,
                &self.admin_pubkey,
                &admin_account,
                &history_account,
                target,
            ),
        )
    }

    /// Prepares an authority-list change of `kind` on the identity `target`,
    /// paid by `user`, anchored at `blockhash` and co-signed by the service.
    fn prepare_authority_change(
        &self,
        kind: InstructionKind,
        user: &str,
        target: &str,
        metadata: String,
        blockhash: &[u8; 32],
    ) -> (r: Result<PreparedTransaction, AppError>)
        requires
            self.wf(),
            is_authority_kind(kind),
        ensures
            (r matches Err(AppError::BadRequest(_))) <==> (key_from_text(user@) is None
                || key_from_text(target@) is None),
            key_from_text(user@) is Some && key_from_text(target@) is Some && admin_address_of(
                self.program_spec(),
            ) is Some && history_address_of(self.program_spec(), self.admin_spec()) is Some
                ==> r is Ok,
            r matches Ok(p) ==> p.transaction_type@ == kind_name(kind) && p.metadata@ == metadata@
                && p.serialized_transaction@ == base64_of(
                authority_wire(
                    self.program_spec(),
                    self.admin_spec(),
                    kind,
                    key_from_text(user@).unwrap(),
                    key_from_text(target@).unwrap(),
                    blockhash@,
                    self.keypair_spec(),
                ),
            ),
            r is Err ==> (r matches Err(AppError::BadRequest(_))) || (r matches Err(
                AppError::InternalServerError(_),
            )),
    {
        let user_key = match parse_key(user) {
            Some(k) => k,
            None => {
                return Err(AppError::BadRequest("Public key parse error".to_owned()));
            },
        };
        let target_key = match parse_key(target) {
            Some(k) => k,
            None => {
                return Err(AppError::BadRequest("Public key parse error".to_owned()));
            },
        };
        let ix = self.authority_change_instruction(kind, &target_key)?;
        proof {
            assert(metas_view(ix.accounts@).len() == 4);
            assert(ix.accounts@[0]@ == metas_view(ix.accounts@)[0]);
            assert(ix.accounts@[0].pubkey@ == self.admin_keypair@.subrange(32, 64));
        }
        let bytes = match co_signed_wire(&ix, &user_key, blockhash, &self.admin_keypair) {
            Some(b) => b,
            None => {
                return Err(AppError::InternalServerError("Service signature failed".to_owned()));
            },
        };
        let serialized_transaction = base64_encode(bytes.as_slice());
        Ok(PreparedTransaction { serialized_transaction, transaction_type: kind.name(), metadata })
    }

    /// Prepares adding `new_authority` to the read list.
    pub fn prepare_add_read_authority(
        &self,
        req: &AddReadAuthorityRequest,
        blockhash: &[u8; 32],
    ) -> (r: Result<PreparedTransaction, AppError>)
        requires
            self.wf(),
        ensures
            (r matches Err(AppError::BadRequest(_))) <==> (key_from_text(req.user_pubkey@) is None
                || key_from_text(req.new_authority@) is None),
            r matches Ok(p) ==> p.transaction_type@ == "add_read_authority"@ && p.metadata@
                == request_json(
                "user_pubkey"@,
                req.user_pubkey@,
                "new_authority"@,
                req.new_authority@,
            ),
            key_from_text(req.user_pubkey@) is Some && key_from_text(req.new_authority@) is Some
                && admin_address_of(self.program_spec()) is Some && history_address_of(
                self.program_spec(),
                self.admin_spec(),
            ) is Some ==> r is Ok,
            r matches Ok(p) ==> p.serialized_transaction@ == base64_of(
                authority_wire(
                    self.program_spec(),
                    self.admin_spec(),
                    InstructionKind::AddReadAuthority,
                    key_from_text(req.user_pubkey@).unwrap(),
                    key_from_text(req.new_authority@).unwrap(),
                    blockhash@,
                    self.keypair_spec(),
                ),
            ),
            r is Err ==> (r matches Err(AppError::BadRequest(_))) || (r matches Err(
                AppError::InternalServerError(_),
            )),
    {
        let metadata = two_field_json(
            "user_pubkey",
            req.user_pubkey.as_str(),
            "new_authority",
            req.new_authority.as_str(),
        );
        self.prepare_authority_change(
            InstructionKind::AddReadAuthority,
            req.user_pubkey.as_str(),
            req.new_authority.as_str(),
            metadata,
            blockhash,
        )
    }

    /// Prepares removing `authority_to_remove` from the read list.
    pub fn prepare_remove_read_authority(
        &self,
        req: &RemoveReadAuthorityRequest,
        blockhash: &[u8; 32],
    ) -> (r: Result<PreparedTransaction, AppError>)
        requires
            self.wf(),
        ensures
            (r matches Err(AppError::BadRequest(_))) <==> (key_from_text(req.user_pubkey@) is None
                || key_from_text(req.authority_to_remove@) is None),
            r matches Ok(p) ==> p.transaction_type@ == "remove_read_authority"@ && p.metadata@
                == request_json(
                "user_pubkey"@,
                req.user_pubkey@,
                "authority_to_remove"@,
                req.authority_to_remove@,
            ),
            key_from_text(req.user_pubkey@) is Some && key_from_text(req.authority_to_remove@) is Some
                && admin_address_of(self.program_spec()) is Some && history_address_of(
                self.program_spec(),
                self.admin_spec(),
            ) is Some ==> r is Ok,
            r matches Ok(p) ==> p.serialized_transaction@ == base64_of(
                authority_wire(
                    self.program_spec(),
                    self.admin_spec(),
                    InstructionKind::RemoveReadAuthority,
                    key_from_text(req.user_pubkey@).unwrap(),
                    key_from_text(req.authority_to_remove@).unwrap(),
                    blockhash@,
                    self.keypair_spec(),
                ),
            ),
            r is Err ==> (r matches Err(AppError::BadRequest(_))) || (r matches Err(
                AppError::InternalServerError(_),
            )),
    {
        let metadata = two_field_json(
            "user_pubkey",
            req.user_pubkey.as_str(),
            "authority_to_remove",
            req.authority_to_remove.as_str(),
        );
        self.prepare_authority_change(
            InstructionKind::RemoveReadAuthority,
            req.user_pubkey.as_str(),
            req.authority_to_remove.as_str(),
            metadata,
            blockhash,
        )
    }

    /// Prepares adding `new_authority` to the write list.
    pub fn prepare_add_write_authority(
        &self,
        req: &AddWriteAuthorityRequest,
        blockhash: &[u8; 32],
    ) -> (r: Result<PreparedTransaction, AppError>)
        requires
            self.wf(),
        ensures
            (r matches Err(AppError::BadRequest(_))) <==> (key_from_text(req.user_pubkey@) is None
                || key_from_text(req.new_authority@) is None),
            r matches Ok(p) ==> p.transaction_type@ == "add_write_authority"@ && p.metadata@
                == request_json(
                "user_pubkey"@,
                req.user_pubkey@,
                "new_authority"@,
                req.new_authority@,
            ),
            key_from_text(req.user_pubkey@) is Some && key_from_text(req.new_authority@) is Some
                && admin_address_of(self.program_spec()) is Some && history_address_of(
                self.program_spec(),
                self.admin_spec(),
            ) is Some ==> r is Ok,
            r matches Ok(p) ==> p.serialized_transaction@ == base64_of(
                authority_wire(
                    self.program_spec(),
                    self.admin_spec(),
                    InstructionKind::AddWriteAuthority,
                    key_from_text(req.user_pubkey@).unwrap(),
                    key_from_text(req.new_authority@).unwrap(),
                    blockhash@,
                    self.keypair_spec(),
                ),
            ),
            r is Err ==> (r matches Err(AppError::BadRequest(_))) || (r matches Err(
                AppError::InternalServerError(_),
            )),
    {
        let metadata = two_field_json(
            "user_pubkey",
            req.user_pubkey.as_str(),
            "new_authority",
            req.new_authority.as_str(),
        );
        self.prepare_authority_change(
            InstructionKind::AddWriteAuthority,
            req.user_pubkey.as_str(),
            req.new_authority.as_str(),
            metadata,
            blockhash,
        )
    }

    /// Prepares removing `authority_to_remove` from the write list.
    pub fn prepare_remove_write_authority(
        &self,
        req: &RemoveWriteAuthorityRequest,
        blockhash: &[u8; 32],
    ) -> (r: Result<PreparedTransaction, AppError>)
        requires
            self.wf(),
        ensures
            (r matches Err(AppError::BadRequest(_))) <==> (key_from_text(req.user_pubkey@) is None
                || key_from_text(req.authority_to_remove@) is None),
            r matches Ok(p) ==> p.transaction_type@ == "remove_write_authority"@ && p.metadata@
                == request_json(
                "user_pubkey"@,
                req.user_pubkey@,
                "authority_to_remove"@,
                req.authority_to_remove@,
            ),
            key_from_text(req.user_pubkey@) is Some && key_from_text(req.authority_to_remove@) is Some
                && admin_address_of(self.program_spec()) is Some && history_address_of(
                self.program_spec(),
                self.admin_spec(),
            ) is Some ==> r is Ok,
            r matches Ok(p) ==> p.serialized_transaction@ == base64_of(
                authority_wire(
                    self.program_spec(),
                    self.admin_spec(),
                    InstructionKind::RemoveWriteAuthority,
                    key_from_text(req.user_pubkey@).unwrap(),
                    key_from_text(req.authority_to_remove@).unwrap(),
                    blockhash@,
                    self.keypair_spec(),
                ),
            ),
            r is Err ==> (r matches Err(AppError::BadRequest(_))) || (r matches Err(
                AppError::InternalServerError(_),
            )),
    {
        let metadata = two_field_json(
            "user_pubkey",
            req.user_pubkey.as_str(),
            "authority_to_remove",
            req.authority_to_remove.as_str(),
        );
        self.prepare_authority_change(
            InstructionKind::RemoveWriteAuthority,
            req.user_pubkey.as_str(),
            req.authority_to_remove.as_str(),
            metadata,
            blockhash,
        )
    }
}


/// Tries at most this many times to fetch a liveness anchor.
pub const ANCHOR_ATTEMPTS: u32 = 5;

/// Seconds to wait between two anchor fetches.
pub const ANCHOR_RETRY_DELAY_SECS: u64 = 5;

/// What to do after the anchor fetch of attempt `attempt` (counted from 1) failed.
pub enum AnchorStep {
    /// Wait the fixed delay, then fetch again.
    Retry,
    /// Give up: the request fails with this ledger error.
    GiveUp(AppError),
}

/// The retry decision of the anchor fetch: retry while attempts remain,
/// then fail with a ledger error. A successful fetch ends the loop.
pub fn after_anchor_failure(attempt: u32, attempts: u32) -> (r: AnchorStep)
    ensures
        r is Retry <==> attempt < attempts,
        r matches AnchorStep::GiveUp(e) ==> e is SolanaError,
{
    if attempt < attempts {
        AnchorStep::Retry
    } else {
        AnchorStep::GiveUp(AppError::SolanaError("Failed to get latest blockhash".to_owned()))
    }
}

/// Text of a view token's value.
pub uninterp spec fn uuid_text_of(v: u128) -> Seq<char>;

/// Value of a view token's text, if it is one.
pub uninterp spec fn uuid_value_of(s: Seq<char>) -> Option<u128>;

/// Relies on `Uuid::new_v4`: a random value; nothing is known of it.
#[verifier::external_body]
fn fresh_token() -> u128 {
    uuid::Uuid::new_v4().as_u128()
}

/// Relies on `Uuid`'s `Display`: the hyphenated lower-case text of the value.
#[verifier::external_body]
fn token_text(v: u128) -> (r: String)
    ensures
        r@ == uuid_text_of(v),
{
    uuid::Uuid::from_u128(v).to_string()
}

/// Relies on `Uuid::parse_str`: the value that the text spells, and the text
/// that `Display` gives parses back to its value.
#[verifier::external_body]
fn parse_token(s: &str) -> (r: Option<u128>)
    ensures
        r == uuid_value_of(s@),
        forall|v: u128| #[trigger] uuid_text_of(v) == s@ ==> r == Some(v),
{
    uuid::Uuid::parse_str(s).ok().map(|u| u.as_u128())
}

/// Relies on `Keypair::new`: a fresh random identity, whose public key seeds a
/// new patient account; nothing is known of it.
#[verifier::external_body]
fn fresh_seed() -> Key {
    Key { bytes: solana_sdk::signature::Signer::pubkey(&Keypair::new()).to_bytes() }
}

/// Relies on `rand::thread_rng().gen()`: twelve random bytes; nothing is known of them.
#[verifier::external_body]
fn fresh_nonce() -> [u8; 12] {
    rand::Rng::gen::<[u8; 12]>(&mut rand::thread_rng())
}

/// The address under which a view token is served.
pub open spec fn view_url_of(token: u128) -> Seq<char> {
    "http://localhost:8080/api/view_patient/"@ + uuid_text_of(token)
}

/// The base58 texts of a sequence of keys.
pub open spec fn texts_of_keys(ks: Seq<Seq<u8>>) -> Seq<Seq<char>> {
    ks.map_values(|k: Seq<u8>| base58_of(k))
}

/// The views of a sequence of strings.
pub open spec fn strings_view(v: Seq<String>) -> Seq<Seq<char>> {
    v.map_values(|s: String| s@)
}

/// The base58 texts of keys.
pub fn key_texts(ks: &Vec<Key>) -> (r: Vec<String>)
    ensures
        strings_view(r@) == texts_of_keys(keys_view(ks@)),
{
    let mut out: Vec<String> = Vec::new();
    let mut i: usize = 0;
    while i < ks.len()
        invariant
            0 <= i <= ks@.len(),
            out@.len() == i,
            forall|j: int| 0 <= j < i ==> (#[trigger] out@[j])@ == base58_of(ks@[j]@),
        decreases ks@.len() - i,
    {
        out.push(key_text(&ks[i]));
        i = i + 1;
    }
    assert(strings_view(out@) =~= texts_of_keys(keys_view(ks@)));
    out
}

/// The refusal text for a missing signature of the signer `key`.
pub open spec fn missing_signer_message(key: Seq<u8>) -> Seq<char> {
    "Missing signature for required signer: "@ + base58_of(key)
}

/// Every one of the first `required` signer slots holds a signature.
pub open spec fn all_signed(required: u8, sigs: Seq<[u8; 64]>) -> bool {
    forall|j: int| 0 <= j < required ==> !slot_missing(sigs, j)
}

/// The wire bytes decode to a transaction whose required signers all signed.
pub open spec fn wire_fully_signed(b: Seq<u8>) -> bool {
    match signers_of_wire(b) {
        Some((n, sigs, _)) => all_signed(n, sigs),
        None => false,
    }
}

/// The text is the canonical spelling of a token value.
pub open spec fn canonical_token(s: Seq<char>) -> bool {
    uuid_value_of(s) is Some && uuid_text_of(uuid_value_of(s).unwrap()) == s
}

/// Checks the signer slots of a submitted transaction: every one of the
/// `required` slots must hold a signature, else BadRequest naming the first
/// signer whose slot is empty.
pub fn require_signatures(required: u8, signatures: &Vec<[u8; 64]>, signers: &Vec<Key>) -> (r: Result<
    (),
    AppError,
>)
    ensures
        r is Ok <==> all_signed(required, signatures@),
        r is Err ==> exists|i: int|
            0 <= i < required && slot_missing(signatures@, i) && (forall|j: int|
                0 <= j < i ==> !slot_missing(signatures@, j)) && (r matches Err(AppError::BadRequest(m))
                && (i < signers@.len() ==> m@ == missing_signer_message(signers@[i]@))),
{
    match first_missing_signer(required, signatures) {
        None => Ok(()),
        Some(i) => {
            proof {
                reveal_strlit("Missing signature for required signer: ");
            }
            let msg = if i < signers.len() {
                "Missing signature for required signer: ".to_owned().concat(
                    key_text(&signers[i]).as_str(),
                )
            } else {
                "Missing signature for required signer".to_owned()
            };
            let r = Err(AppError::BadRequest(msg));
            assert(0 <= i as int && (i as int) < required && slot_missing(signatures@, i as int));
            r
        },
    }
}

/// Decodes a submitted transaction and checks that every required signer
/// has signed; only then may it be relayed to the ledger. Text that is not
/// a transaction, and a missing signature, are BadRequest.
pub fn check_submission(serialized: &str) -> (r: Result<Transaction, AppError>)
    ensures
        r is Ok <==> exists|b: Seq<u8>|
            ascii_bytes(#[trigger] base64_of(b)) == serialized.spec_bytes() && wire_fully_signed(b),
        forall|b: Seq<u8>|
            ascii_bytes(#[trigger] base64_of(b)) == serialized.spec_bytes() && signers_of_wire(b) is Some
                && !wire_fully_signed(b) ==> (r matches Err(AppError::BadRequest(_))),
        r is Err ==> r matches Err(AppError::BadRequest(_)),
{
    let (tx, required, signatures, signers) = deserialize_transaction(serialized)?;
    require_signatures(required, &signatures, &signers)?;
    Ok(tx)
}

/// Redeems a view token's text at `now`: the record's seed while the token
/// is usable; Unauthorized, with one message, for unknown, malformed and
/// expired tokens alike. Only the text that was issued names a token.
pub fn redeem_view_token(token: &str, now: u64, store: &mut TokenStore) -> (r: Result<
    Key,
    AppError,
>)
    ensures
        r is Ok <==> (canonical_token(token@) && token_usable(
            old(store)@,
            uuid_value_of(token@).unwrap(),
            now,
        )),
        r matches Ok(seed) ==> seed == old(store)@[uuid_value_of(token@).unwrap()].0,
        r matches Err(e) ==> (e matches AppError::Unauthorized(m) && m@
            == refused_token_message()),
        canonical_token(token@) ==> final(store)@ == after_redeem(
            old(store)@,
            uuid_value_of(token@).unwrap(),
            now,
        ),
        !canonical_token(token@) ==> final(store)@ == old(store)@,
{
    match parse_token(token) {
        Some(v) => {
            let canonical = token_text(v);
            if canonical != token.to_owned() {
                return Err(AppError::Unauthorized("Invalid or expired token".to_owned()));
            }
            store.redeem(v, now)
        },
        None => Err(AppError::Unauthorized("Invalid or expired token".to_owned())),
    }
}

/// The patient addresses found on the ledger, each with its recorded seed
/// or `Unknown`.
pub fn get_patient_addresses(accounts: &Vec<Key>, index: &SeedIndex) -> (r: PatientAddressesResponse)
    requires
        index.wf(),
    ensures
        r.patient_addresses@.len() == accounts@.len(),
        forall|i: int|
            0 <= i < accounts@.len() ==> (#[trigger] r.patient_addresses@[i]).0@ == base58_of(
                accounts@[i]@,
            ) && r.patient_addresses@[i].1@ == if index@.contains_key(accounts@[i]@) {
                base58_of(index@[accounts@[i]@])
            } else {
                "Unknown"@
            },
{
    let mut out: Vec<(String, String)> = Vec::new();
    let mut i: usize = 0;
    while i < accounts.len()
        invariant
            index.wf(),
            0 <= i <= accounts@.len(),
            out@.len() == i,
            forall|j: int|
                0 <= j < i ==> (#[trigger] out@[j]).0@ == base58_of(accounts@[j]@) && out@[j].1@
                    == if index@.contains_key(accounts@[j]@) {
                    base58_of(index@[accounts@[j]@])
                } else {
                    "Unknown"@
                },
        decreases accounts@.len() - i,
    {
        let address = key_text(&accounts[i]);
        let seed = match index.lookup(&accounts[i]) {
            Some(s) => key_text(&s),
            None => "Unknown".to_owned(),
        };
        out.push((address, seed));
        i = i + 1;
    }
    PatientAddressesResponse { patient_addresses: out }
}

impl TransactionService {
    /// The instruction of a patient create or update of `kind`: signed by the
    /// caller alone, on the patient account derived from `seed`.
    pub fn patient_change_instruction(
        &self,
        kind: InstructionKind,
        caller: &Key,
        seed: &Key,
        record: &[u8],
    ) -> (r: Result<Instruction, AppError>)
        requires
            !is_authority_kind(kind),
            record@.len() <= u32::MAX,
        ensures
            r is Ok <==> admin_address_of(self.program_spec()) is Some && patient_address_of(
                self.program_spec(),
                self.admin_spec(),
                seed@,
            ) is Some,
            r matches Ok(ix) ==> {
                &&& ix.program_id@ == self.program_spec()
                &&& metas_view(ix.accounts@) == patient_accounts(
                    patient_address_of(self.program_spec(), self.admin_spec(), seed@).unwrap(),
                    seed@,
                    caller@,
                    admin_address_of(self.program_spec()).unwrap(),
                )
                &&& ix.data@ == discriminator_of(kind) + le_u32(record@.len() as u32) + record@
            },
            r is Err ==> r matches Err(AppError::InternalServerError(_)),
    {
        let patient_account = self.patient_account_address(&self.admin_pubkey, seed)?;
        let admin_account = self.admin_account_address()?;
        Ok(
            patient_instruction(
                kind,
                &self.program_id,
                &patient_account,
                seed,
                caller,
                &admin_account,
                record,
            ),
        )
    }

    /// Seals the payload and builds the unsigned patient transaction of
    /// `kind`; returns it serialized with the record text joined to the seed.
    fn prepare_patient_change(
        &self,
        kind: InstructionKind,
        caller: &Key,
        seed: &Key,
        plaintext: &[u8],
        nonce: &[u8; 12],
        blockhash: &[u8; 32],
    ) -> (r: Result<(String, String), AppError>)
        requires
            !is_authority_kind(kind),
        ensures
            r matches Ok((_, with_seed)) ==> with_seed@ == record_chars(
                aes_gcm_seal(self.key_spec(), nonce@, plaintext@),
                nonce@,
            ) + seq!['|'] + base58_of(seed@),
            r matches Ok((serialized, _)) ==> serialized@ == base64_of(
                patient_wire(
                    self.program_spec(),
                    self.admin_spec(),
                    kind,
                    caller@,
                    seed@,
                    sealed_record(self.key_spec(), nonce@, plaintext@),
                    blockhash@,
                ),
            ),
            r is Ok ==> patient_address_of(self.program_spec(), self.admin_spec(), seed@) is Some,
            plaintext@.len() <= AES_P_MAX && sealed_record(self.key_spec(), nonce@, plaintext@).len()
                <= MAX_WIRE_RECORD && admin_address_of(self.program_spec()) is Some
                && patient_address_of(self.program_spec(), self.admin_spec(), seed@) is Some
                ==> r is Ok,
            r is Err ==> r matches Err(AppError::InternalServerError(_)),
    {
        let record = seal_record(&self.encryption_key, nonce, plaintext)?;
        let record_bytes = ascii_text_bytes(record.as_str());
        if record_bytes.len() > MAX_WIRE_RECORD {
            return Err(AppError::InternalServerError("Record too long".to_owned()));
        }
        let ix = self.patient_change_instruction(kind, caller, seed, record_bytes.as_slice())?;
        proof {
            assert(metas_view(ix.accounts@).len() == 5);
        }
        let bytes = unsigned_wire(&ix, caller, blockhash);
        let serialized = base64_encode(bytes.as_slice());
        let with_seed = record.concat("|").concat(key_text(seed).as_str());
        proof {
            reveal_strlit("|");
        }
        Ok((serialized, with_seed))
    }

    /// Prepares the creation of a patient record under the given fresh seed
    /// identity and nonce, and records the seed of its address in the index.
    pub fn prepare_create_patient_with(
        &self,
        req: &CreatePatientRequest,
        seed: &Key,
        nonce: &[u8; 12],
        blockhash: &[u8; 32],
        index: &mut SeedIndex,
    ) -> (r: Result<PreparedPatientTransaction, AppError>)
        requires
            old(index).wf(),
            old(index).program_spec() == self.program_spec(),
            old(index).admin_spec() == self.admin_spec(),
        ensures
            final(index).wf(),
            final(index).program_spec() == self.program_spec(),
            final(index).admin_spec() == self.admin_spec(),
            (r matches Err(AppError::BadRequest(_))) <==> key_from_text(req.user_pubkey@) is None,
            r matches Ok(p) ==> p.transaction_type@ == "create_patient"@
                && p.encrypted_data_with_seed@ == record_chars(
                aes_gcm_seal(self.key_spec(), nonce@, req.patient_data@),
                nonce@,
            ) + seq!['|'] + base58_of(seed@),
            r is Ok ==> patient_address_of(self.program_spec(), self.admin_spec(), seed@) is Some
                && final(index)@ == old(index)@.insert(
                patient_address_of(self.program_spec(), self.admin_spec(), seed@).unwrap(),
                seed@,
            ),
            r matches Ok(p) ==> p.serialized_transaction@ == base64_of(
                patient_wire(
                    self.program_spec(),
                    self.admin_spec(),
                    InstructionKind::CreatePatient,
                    key_from_text(req.user_pubkey@).unwrap(),
                    seed@,
                    sealed_record(self.key_spec(), nonce@, req.patient_data@),
                    blockhash@,
                ),
            ),
            key_from_text(req.user_pubkey@) is Some && req.patient_data@.len() <= AES_P_MAX
                && sealed_record(self.key_spec(), nonce@, req.patient_data@).len() <= MAX_WIRE_RECORD
                && admin_address_of(self.program_spec()) is Some && patient_address_of(
                self.program_spec(),
                self.admin_spec(),
                seed@,
            ) is Some ==> r is Ok,
            r is Err ==> final(index)@ == old(index)@,
            r is Err ==> (r matches Err(AppError::BadRequest(_))) || (r matches Err(
                AppError::InternalServerError(_),
            )),
    {
        let caller = match parse_key(req.user_pubkey.as_str()) {
            Some(k) => k,
            None => {
                return Err(AppError::BadRequest("Public key parse error".to_owned()));
            },
        };
        let (serialized_transaction, encrypted_data_with_seed) = self.prepare_patient_change(
            InstructionKind::CreatePatient,
            &caller,
            seed,
            req.patient_data.as_slice(),
            nonce,
            blockhash,
        )?;
        let _address = index.record(seed)?;
        proof {
            reveal_strlit("create_patient");
        }
        Ok(
            PreparedPatientTransaction {
                serialized_transaction,
                transaction_type: "create_patient".to_owned(),
                encrypted_data_with_seed,
            },
        )
    }

    /// Prepares the creation of a patient record under a fresh random seed
    /// identity and nonce; see `prepare_create_patient_with`.
    pub fn prepare_create_patient(
        &self,
        req: &CreatePatientRequest,
        blockhash: &[u8; 32],
        index: &mut SeedIndex,
    ) -> (r: Result<PreparedPatientTransaction, AppError>)
        requires
            old(index).wf(),
            old(index).program_spec() == self.program_spec(),
            old(index).admin_spec() == self.admin_spec(),
        ensures
            final(index).wf(),
            final(index).program_spec() == self.program_spec(),
            final(index).admin_spec() == self.admin_spec(),
            (r matches Err(AppError::BadRequest(_))) <==> key_from_text(req.user_pubkey@) is None,
            r matches Ok(p) ==> p.transaction_type@ == "create_patient"@,
            r matches Ok(p) ==> exists|seed: Seq<u8>, n: Seq<u8>|
                #[trigger] created_under(
                    self.program_spec(),
                    self.admin_spec(),
                    self.key_spec(),
                    req.user_pubkey@,
                    req.patient_data@,
                    blockhash@,
                    p.serialized_transaction@,
                    p.encrypted_data_with_seed@,
                    old(index)@,
                    final(index)@,
                    seed,
                    n,
                ),
            r is Err ==> final(index)@ == old(index)@,
    {
        let seed = fresh_seed();
        let nonce = fresh_nonce();
        let r = self.prepare_create_patient_with(req, &seed, &nonce, blockhash, index);
        proof {
            if r is Ok {
                let p = r.unwrap();
                assert(created_under(
                    self.program_spec(),
                    self.admin_spec(),
                    self.key_spec(),
                    req.user_pubkey@,
                    req.patient_data@,
                    blockhash@,
                    p.serialized_transaction@,
                    p.encrypted_data_with_seed@,
                    old(index)@,
                    index@,
                    seed@,
                    nonce@,
                ));
            }
        }
        r
    }

    /// Prepares the update of the patient record of `patient_seed` under the
    /// given nonce.
    pub fn prepare_update_patient_with(
        &self,
        req: &UpdatePatientRequest,
        nonce: &[u8; 12],
        blockhash: &[u8; 32],
    ) -> (r: Result<PreparedUpdatePatientTransaction, AppError>)
        ensures
            (r matches Err(AppError::BadRequest(_))) <==> (key_from_text(req.user_pubkey@) is None
                || key_from_text(req.patient_seed@) is None),
            r matches Ok(p) ==> p.transaction_type@ == "update_patient"@
                && p.encrypted_data_with_seed@ == record_chars(
                aes_gcm_seal(self.key_spec(), nonce@, req.patient_data@),
                nonce@,
            ) + seq!['|'] + base58_of(key_from_text(req.patient_seed@).unwrap()),
            r matches Ok(p) ==> p.serialized_transaction@ == base64_of(
                patient_wire(
                    self.program_spec(),
                    self.admin_spec(),
                    InstructionKind::UpdatePatient,
                    key_from_text(req.user_pubkey@).unwrap(),
                    key_from_text(req.patient_seed@).unwrap(),
                    sealed_record(self.key_spec(), nonce@, req.patient_data@),
                    blockhash@,
                ),
            ),
            key_from_text(req.user_pubkey@) is Some && key_from_text(req.patient_seed@) is Some
                && req.patient_data@.len() <= AES_P_MAX && sealed_record(
                self.key_spec(),
                nonce@,
                req.patient_data@,
            ).len() <= MAX_WIRE_RECORD && admin_address_of(self.program_spec()) is Some
                && patient_address_of(
                self.program_spec(),
                self.admin_spec(),
                key_from_text(req.patient_seed@).unwrap(),
            ) is Some ==> r is Ok,
            r is Err ==> (r matches Err(AppError::BadRequest(_))) || (r matches Err(
                AppError::InternalServerError(_),
            )),
    {
        let caller = match parse_key(req.user_pubkey.as_str()) {
            Some(k) => k,
            None => {
                return Err(AppError::BadRequest("Public key parse error".to_owned()));
            },
        };
        let seed = match parse_key(req.patient_seed.as_str()) {
            Some(k) => k,
            None => {
                return Err(AppError::BadRequest("Public key parse error".to_owned()));
            },
        };
        let (serialized_transaction, encrypted_data_with_seed) = self.prepare_patient_change(
            InstructionKind::UpdatePatient,
            &caller,
            &seed,
            req.patient_data.as_slice(),
            nonce,
            blockhash,
        )?;
        proof {
            reveal_strlit("update_patient");
        }
        Ok(
            PreparedUpdatePatientTransaction {
                serialized_transaction,
                transaction_type: "update_patient".to_owned(),
                encrypted_data_with_seed,
            },
        )
    }

    /// Prepares the update of a patient record under a fresh random nonce;
    /// see `prepare_update_patient_with`.
    pub fn prepare_update_patient(&self, req: &UpdatePatientRequest, blockhash: &[u8; 32]) -> (r:
        Result<PreparedUpdatePatientTransaction, AppError>)
        ensures
            (r matches Err(AppError::BadRequest(_))) <==> (key_from_text(req.user_pubkey@) is None
                || key_from_text(req.patient_seed@) is None),
            r matches Ok(p) ==> p.transaction_type@ == "update_patient"@,
            r matches Ok(p) ==> exists|n: Seq<u8>|
                n.len() == 12 && p.encrypted_data_with_seed@ == #[trigger] record_chars(
                    aes_gcm_seal(self.key_spec(), n, req.patient_data@),
                    n,
                ) + seq!['|'] + base58_of(key_from_text(req.patient_seed@).unwrap())
                    && p.serialized_transaction@ == base64_of(
                    patient_wire(
                        self.program_spec(),
                        self.admin_spec(),
                        InstructionKind::UpdatePatient,
                        key_from_text(req.user_pubkey@).unwrap(),
                        key_from_text(req.patient_seed@).unwrap(),
                        sealed_record(self.key_spec(), n, req.patient_data@),
                        blockhash@,
                    ),
                ),
    {
        let nonce = fresh_nonce();
        let r = self.prepare_update_patient_with(req, &nonce, blockhash);
        proof {
            if r is Ok {
                let p = r.unwrap();
                let _ = record_chars(aes_gcm_seal(self.key_spec(), nonce@, req.patient_data@), nonce@);
            }
        }
        r
    }
}

/// The history entries with identities as text.
pub open spec fn entry_texts(es: Seq<LedgerEntry>) -> Seq<(Seq<char>, Seq<char>, bool, bool, i64)> {
    es.map_values(
        |e: LedgerEntry| (base58_of(e.admin@), base58_of(e.authority@), e.added, e.is_read, e.timestamp),
    )
}

/// The views of history entries with identities as text.
pub open spec fn text_entries_view(es: Seq<HistoryEntry>) -> Seq<(Seq<char>, Seq<char>, bool, bool, i64)> {
    es.map_values(|e: HistoryEntry| (e.admin@, e.authority@, e.added, e.is_read, e.timestamp))
}

impl TransactionService {
    /// The authority and both authority lists, as text, from the admin
    /// account's owner and data.
    pub fn get_authorities(&self, owner: &Key, data: &[u8]) -> (r: Result<
        AuthoritiesResponse,
        AppError,
    >)
        ensures
            owner@ != self.program_spec() ==> (r matches Err(AppError::BadRequest(_))),
            r matches Ok(resp) ==> owner@ == self.program_spec() && exists|
                auth: Seq<u8>,
                reads: Seq<Seq<u8>>,
                writes: Seq<Seq<u8>>,
            |
                #[trigger] admin_layout(data@, auth, reads, writes) && resp.authority@ == base58_of(
                    auth,
                ) && strings_view(resp.read_authorities@) == texts_of_keys(reads) && strings_view(
                    resp.write_authorities@,
                ) == texts_of_keys(writes),
            forall|auth: Seq<u8>, reads: Seq<Seq<u8>>, writes: Seq<Seq<u8>>|
                owner@ == self.program_spec() && #[trigger] admin_layout(data@, auth, reads, writes)
                    ==> (r matches Ok(resp) && resp.authority@ == base58_of(auth) && strings_view(
                    resp.read_authorities@,
                ) == texts_of_keys(reads) && strings_view(resp.write_authorities@)
                    == texts_of_keys(writes)),
            r is Err ==> (r matches Err(AppError::BadRequest(_))) || (r matches Err(
                AppError::InternalServerError(_),
            )),
    {
        if !owner.same(&self.program_id) {
            return Err(AppError::BadRequest("Admin account not owned by program".to_owned()));
        }
        let admin = match decode_admin(data) {
            Some(a) => a,
            None => {
                return Err(AppError::InternalServerError("Malformed admin account".to_owned()));
            },
        };
        Ok(
            AuthoritiesResponse {
                authority: key_text(&admin.authority),
                read_authorities: key_texts(&admin.read_authorities),
                write_authorities: key_texts(&admin.write_authorities),
            },
        )
    }

    /// Grants a view token for the record of `patient_seed` to `user_pubkey`,
    /// who must be a read authority in the admin account as it stands now.
    /// The token is `token`, stored with its expiration one TTL after `now`.
    pub fn get_patient_with_token(
        &self,
        patient_seed: &str,
        user_pubkey: &str,
        admin_owner: &Key,
        admin_data: &[u8],
        patient_owner: &Key,
        patient_data: &[u8],
        token: u128,
        now: u64,
        store: &mut TokenStore,
    ) -> (r: Result<GetPatientResponse, AppError>)
        ensures
            key_from_text(user_pubkey@) is None || key_from_text(patient_seed@) is None
                || admin_owner@ != self.program_spec() ==> (r matches Err(AppError::BadRequest(_))),
            r matches Ok(resp) ==> resp.view_url@ == view_url_of(token) && final(store)@
                == old(store)@.insert(
                token,
                (final(store)@[token].0, expiry_of(now)),
            ) && final(store)@[token].0@ == key_from_text(patient_seed@).unwrap(),
            r is Ok ==> exists|auth: Seq<u8>, reads: Seq<Seq<u8>>, writes: Seq<Seq<u8>>|
                #[trigger] admin_layout(admin_data@, auth, reads, writes) && reads.contains(
                    key_from_text(user_pubkey@).unwrap(),
                ),
            r is Ok ==> patient_owner@ == self.program_spec() && exists|
                addr: Seq<u8>,
                text: Seq<u8>,
                digest: Seq<u8>,
            | #[trigger] patient_layout(patient_data@, addr, true, text, digest),
            forall|auth: Seq<u8>, reads: Seq<Seq<u8>>, writes: Seq<Seq<u8>>|
                key_from_text(user_pubkey@) is Some && key_from_text(patient_seed@) is Some
                    && admin_owner@ == self.program_spec() && #[trigger] admin_layout(
                    admin_data@,
                    auth,
                    reads,
                    writes,
                ) && !reads.contains(key_from_text(user_pubkey@).unwrap()) ==> (r matches Err(
                    AppError::Unauthorized(_),
                )),
            forall|
                auth: Seq<u8>,
                reads: Seq<Seq<u8>>,
                writes: Seq<Seq<u8>>,
                addr: Seq<u8>,
                text: Seq<u8>,
                digest: Seq<u8>,
            |
                key_from_text(user_pubkey@) is Some && key_from_text(patient_seed@) is Some
                    && admin_owner@ == self.program_spec() && patient_owner@ == self.program_spec()
                    && #[trigger] admin_layout(admin_data@, auth, reads, writes) && reads.contains(
                    key_from_text(user_pubkey@).unwrap(),
                ) && #[trigger] patient_layout(patient_data@, addr, true, text, digest) ==> r is Ok,
            r is Err ==> final(store)@ == old(store)@,
    {
        let user = match parse_key(user_pubkey) {
            Some(k) => k,
            None => {
                return Err(AppError::BadRequest("Public key parse error".to_owned()));
            },
        };
        let seed = match parse_key(patient_seed) {
            Some(k) => k,
            None => {
                return Err(AppError::BadRequest("Public key parse error".to_owned()));
            },
        };
        if !admin_owner.same(&self.program_id) {
            return Err(AppError::BadRequest("Admin account not owned by program".to_owned()));
        }
        let admin = match decode_admin(admin_data) {
            Some(a) => a,
            None => {
                return Err(AppError::InternalServerError("Malformed admin account".to_owned()));
            },
        };
        if !admin.has_read_authority(&user) {
            return Err(AppError::Unauthorized("User does not have read authority".to_owned()));
        }
        if !patient_owner.same(&self.program_id) {
            return Err(AppError::BadRequest("Patient account not owned by program".to_owned()));
        }
        let patient = match decode_patient(patient_data) {
            Some(p) => p,
            None => {
                return Err(AppError::InternalServerError("Malformed patient account".to_owned()));
            },
        };
        if !patient.is_initialized {
            return Err(AppError::BadRequest("Patient record not initialized".to_owned()));
        }
        let _expiration = store.issue(token, seed, now);
        let view_url = "http://localhost:8080/api/view_patient/".to_owned().concat(
            token_text(token).as_str(),
        );
        proof {
            reveal_strlit("http://localhost:8080/api/view_patient/");
        }
        Ok(GetPatientResponse { view_url })
    }

    /// Grants a fresh random view token; see `get_patient_with_token`.
    pub fn get_patient(
        &self,
        patient_seed: &str,
        user_pubkey: &str,
        admin_owner: &Key,
        admin_data: &[u8],
        patient_owner: &Key,
        patient_data: &[u8],
        now: u64,
        store: &mut TokenStore,
    ) -> (r: Result<GetPatientResponse, AppError>)
        ensures
            key_from_text(user_pubkey@) is None || key_from_text(patient_seed@) is None
                || admin_owner@ != self.program_spec() ==> (r matches Err(AppError::BadRequest(_))),
            forall|auth: Seq<u8>, reads: Seq<Seq<u8>>, writes: Seq<Seq<u8>>|
                key_from_text(user_pubkey@) is Some && key_from_text(patient_seed@) is Some
                    && admin_owner@ == self.program_spec() && #[trigger] admin_layout(
                    admin_data@,
                    auth,
                    reads,
                    writes,
                ) && !reads.contains(key_from_text(user_pubkey@).unwrap()) ==> (r matches Err(
                    AppError::Unauthorized(_),
                )),
            forall|
                auth: Seq<u8>,
                reads: Seq<Seq<u8>>,
                writes: Seq<Seq<u8>>,
                addr: Seq<u8>,
                text: Seq<u8>,
                digest: Seq<u8>,
            |
                key_from_text(user_pubkey@) is Some && key_from_text(patient_seed@) is Some
                    && admin_owner@ == self.program_spec() && patient_owner@ == self.program_spec()
                    && #[trigger] admin_layout(admin_data@, auth, reads, writes) && reads.contains(
                    key_from_text(user_pubkey@).unwrap(),
                ) && #[trigger] patient_layout(patient_data@, addr, true, text, digest) ==> r is Ok,
            r matches Ok(resp) ==> exists|t: u128|
                resp.view_url@ == #[trigger] view_url_of(t) && final(store)@ == old(store)@.insert(
                    t,
                    (final(store)@[t].0, expiry_of(now)),
                ) && final(store)@[t].0@ == key_from_text(patient_seed@).unwrap(),
            r is Err ==> final(store)@ == old(store)@,
    {
        let token = fresh_token();
        let r = self.get_patient_with_token(
            patient_seed,
            user_pubkey,
            admin_owner,
            admin_data,
            patient_owner,
            patient_data,
            token,
            now,
            store,
        );
        proof {
            if r is Ok {
                let _ = view_url_of(token);
            }
        }
        r
    }

    /// The patient account's address for `seed`, under the authority that the
    /// admin account data names.
    pub fn patient_address_from_admin(&self, admin_data: &[u8], seed: &Key) -> (r: Result<
        Key,
        AppError,
    >)
        ensures
            forall|auth: Seq<u8>, reads: Seq<Seq<u8>>, writes: Seq<Seq<u8>>|
                #[trigger] admin_layout(admin_data@, auth, reads, writes) ==> (r is Ok
                    <==> patient_address_of(self.program_spec(), auth, seed@) is Some) && (r matches Ok(
                    k,
                ) ==> patient_address_of(self.program_spec(), auth, seed@) == Some(k@)),
            r is Err ==> r matches Err(AppError::InternalServerError(_)),
    {
        let admin = match decode_admin(admin_data) {
            Some(a) => a,
            None => {
                return Err(AppError::InternalServerError("Malformed admin account".to_owned()));
            },
        };
        self.patient_account_address(&admin.authority, seed)
    }

    /// The plaintext payload of a patient account: its record text opened
    /// with the service's key.
    pub fn open_patient_record(&self, patient_data: &[u8]) -> (r: Result<Vec<u8>, AppError>)
        ensures
            forall|addr: Seq<u8>, init: bool, text: Seq<u8>, digest: Seq<u8>|
                #[trigger] patient_layout(patient_data@, addr, init, text, digest) ==> {
                    &&& (r is Ok <==> opens(self.key_spec(), text))
                    &&& forall|p: Seq<u8>, n: Seq<u8>|
                        n.len() == 12 && p.len() <= AES_P_MAX && well_formed_parts(
                            #[trigger] aes_gcm_seal(self.key_spec(), n, p),
                            n,
                        ) && text == record_text(aes_gcm_seal(self.key_spec(), n, p), n) ==> (r matches Ok(
                            v,
                        ) && v@ == p)
                },
            (forall|addr: Seq<u8>, init: bool, text: Seq<u8>, digest: Seq<u8>|
                !#[trigger] patient_layout(patient_data@, addr, init, text, digest)) ==> (r matches Err(
                AppError::InternalServerError(_),
            )),
            r is Err ==> (r matches Err(AppError::BadRequest(_))) || (r matches Err(
                AppError::InternalServerError(_),
            )),
    {
        let patient = match decode_patient(patient_data) {
            Some(p) => p,
            None => {
                return Err(AppError::InternalServerError("Malformed patient account".to_owned()));
            },
        };
        open_record(&self.encryption_key, patient.encrypted_data.as_slice())
    }

    /// The authority history, with identities as text, from the history
    /// account's owner and data.
    pub fn get_authority_history(&self, owner: &Key, data: &[u8]) -> (r: Result<
        AuthorityHistoryResponse,
        AppError,
    >)
        ensures
            owner@ != self.program_spec() ==> (r matches Err(AppError::BadRequest(_))),
            r matches Ok(resp) ==> owner@ == self.program_spec() && exists|es: Seq<LedgerEntry>|
                #[trigger] history_layout(data@, es) && text_entries_view(resp.entries@)
                    == entry_texts(es),
            forall|es: Seq<LedgerEntry>|
                owner@ == self.program_spec() && #[trigger] history_layout(data@, es) ==> (r matches Ok(
                    resp,
                ) && text_entries_view(resp.entries@) == entry_texts(es)),
            r is Err ==> (r matches Err(AppError::BadRequest(_))) || (r matches Err(
                AppError::InternalServerError(_),
            )),
    {
        if !owner.same(&self.program_id) {
            return Err(AppError::BadRequest("History account not owned by program".to_owned()));
        }
        let history = match decode_history(data) {
            Some(h) => h,
            None => {
                return Err(AppError::InternalServerError("Malformed history account".to_owned()));
            },
        };
        let mut entries: Vec<HistoryEntry> = Vec::new();
        let mut i: usize = 0;
        while i < history.entries.len()
            invariant
                0 <= i <= history@.len(),
                entries@.len() == i,
                forall|j: int|
                    0 <= j < i ==> text_entries_view(entries@)[j] == entry_texts(history@)[j],
            decreases history@.len() - i,
        {
            let e = history.entries[i];
            entries.push(
                HistoryEntry {
                    admin: key_text(&e.admin),
                    authority: key_text(&e.authority),
                    added: e.added,
                    is_read: e.is_read,
                    timestamp: e.timestamp,
                },
            );
            i = i + 1;
            assert(text_entries_view(entries@)[i - 1] == entry_texts(history@)[i - 1]);
        }
        assert(text_entries_view(entries@) =~= entry_texts(history@));
        Ok(AuthorityHistoryResponse { entries })
    }
}

impl TransactionService {
    /// An empty seed index for the service's program and identity.
    pub fn new_seed_index(&self) -> (r: SeedIndex)
        ensures
            r.wf(),
            r@ == Map::<Seq<u8>, Seq<u8>>::empty(),
            r.program_spec() == self.program_spec(),
            r.admin_spec() == self.admin_spec(),
    {
        SeedIndex::new(self.program_id, self.admin_pubkey)
    }

    /// A seed index rebuilt from a snapshot for the service's program and identity.
    pub fn restore_seed_index(&self, pairs: &Vec<(Key, Key)>) -> (r: SeedIndex)
        ensures
            r.wf(),
            r@ == restored(self.program_spec(), self.admin_spec(), pairs@),
            r.program_spec() == self.program_spec(),
            r.admin_spec() == self.admin_spec(),
    {
        SeedIndex::restore(self.program_id, self.admin_pubkey, pairs)
    }
}

/// The service with its credential settings and its two stores: view tokens
/// and the seed index.
pub struct AppState {
    pub solana_service: TransactionService,
    pub jwt_config: JwtConfig,
    pub token_store: TokenStore,
    pub patient_seed_map: SeedIndex,
}

impl AppState {
    pub open spec fn wf(&self) -> bool {
        &&& self.patient_seed_map.wf()
        &&& self.patient_seed_map.program_spec() == self.solana_service.program_spec()
        &&& self.patient_seed_map.admin_spec() == self.solana_service.admin_spec()
    }

    /// The state at start-up: both stores empty.
    pub fn new(solana_service: TransactionService, jwt_config: JwtConfig) -> (r: AppState)
        ensures
            r.wf(),
            r.token_store@ == Map::<u128, (Key, u64)>::empty(),
            r.patient_seed_map@ == Map::<Seq<u8>, Seq<u8>>::empty(),
    {
        let patient_seed_map = solana_service.new_seed_index();
        AppState { solana_service, jwt_config, token_store: TokenStore::new(), patient_seed_map }
    }
}

} // verus!
