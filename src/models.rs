use vstd::prelude::*;

verus! {

/// Service settings read at start-up.
#[derive(Clone, Debug)]
pub struct Config {
    pub jwt_secret: String,
    pub solana_url: String,
    pub port: u16,
    pub token_expiration: i64,
    pub server_host: String,
    pub admin_pubkey: String,
}

/// Secret and lifetime of the bearer credentials issued at login.
#[derive(Clone, Debug)]
pub struct JwtConfig {
    pub secret: String,
    pub expires_in: i64,
}

/// The claims of a bearer credential: the identity and the expiry.
#[derive(Clone, Debug)]
pub struct Claims {
    pub sub: String,
    pub exp: i64,
}

/// A login: an identity and its signature over the challenge for `timestamp`.
#[derive(Clone, Debug)]
pub struct AuthRequest {
    pub public_key: String,
    pub signature: String,
    pub timestamp: i64,
}

#[derive(Clone, Debug)]
pub struct AuthResponse {
    pub token: String,
    pub expires_in: i64,
    pub public_key: String,
}

#[derive(Clone, Debug)]
pub struct AddReadAuthorityRequest {
    pub user_pubkey: String,
    pub new_authority: String,
}

#[derive(Clone, Debug)]
pub struct RemoveReadAuthorityRequest {
    pub user_pubkey: String,
    pub authority_to_remove: String,
}

#[derive(Clone, Debug)]
pub struct AddWriteAuthorityRequest {
    pub user_pubkey: String,
    pub new_authority: String,
}

#[derive(Clone, Debug)]
pub struct RemoveWriteAuthorityRequest {
    pub user_pubkey: String,
    pub authority_to_remove: String,
}

/// The fields of a patient record, before it is serialized and sealed.
#[derive(Clone, Debug)]
pub struct PatientData {
    pub name: String,
    pub blood_type: String,
    pub previous_report: String,
    pub ph_no: String,
    pub file: Option<String>,
}

/// A create request: the caller and the serialized patient payload.
#[derive(Clone, Debug)]
pub struct CreatePatientRequest {
    pub user_pubkey: String,
    pub patient_data: Vec<u8>,
}

/// An update request: the caller, the record's seed identity and the
/// serialized patient payload.
#[derive(Clone, Debug)]
pub struct UpdatePatientRequest {
    pub user_pubkey: String,
    pub patient_seed: String,
    pub patient_data: Vec<u8>,
}

#[derive(Clone, Debug)]
pub struct SubmitTransactionRequest {
    pub serialized_transaction: String,
}

#[derive(Clone, Debug)]
pub struct SubmitTransactionResponse {
    pub signature: String,
}

/// A prepared authority-list change, co-signed by the service.
#[derive(Clone, Debug)]
pub struct PreparedTransaction {
    pub serialized_transaction: String,
    pub transaction_type: String,
    pub metadata: String,
}

/// A prepared patient create, unsigned.
#[derive(Clone, Debug)]
pub struct PreparedPatientTransaction {
    pub serialized_transaction: String,
    pub transaction_type: String,
    pub encrypted_data_with_seed: String,
}

/// A prepared patient update, unsigned.
#[derive(Clone, Debug)]
pub struct PreparedUpdatePatientTransaction {
    pub serialized_transaction: String,
    pub transaction_type: String,
    pub encrypted_data_with_seed: String,
}

#[derive(Clone, Debug)]
pub struct AuthoritiesResponse {
    pub authority: String,
    pub read_authorities: Vec<String>,
    pub write_authorities: Vec<String>,
}

#[derive(Clone, Debug)]
pub struct GetPatientResponse {
    pub view_url: String,
}

/// Every patient account's address with its seed identity, or `Unknown`.
#[derive(Clone, Debug)]
pub struct PatientAddressesResponse {
    pub patient_addresses: Vec<(String, String)>,
}

#[derive(Clone, Debug)]
pub struct AuthorityHistoryResponse {
    pub entries: Vec<HistoryEntry>,
}

/// One logged authority change, with identities as text.
#[derive(Clone, Debug)]
pub struct HistoryEntry {
    pub admin: String,
    pub authority: String,
    pub added: bool,
    pub is_read: bool,
    pub timestamp: i64,
}

} // verus!
