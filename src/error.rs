use vstd::prelude::*;
use vstd::string::StringExecFns;
use crate::ledger::ErrorCode;

verus! {

/// Errors of the service, each mapped to one HTTP status class.
#[derive(Clone, Debug)]
pub enum AppError {
    BadRequest(String),
    Unauthorized(String),
    InternalServerError(String),
    SolanaError(String),
    InvalidProgramId(String),
}

impl AppError {
    pub open spec fn label_spec(&self) -> Seq<char> {
        match self {
            AppError::BadRequest(_) => "Bad Request"@,
            AppError::Unauthorized(_) => "Unauthorized"@,
            AppError::InternalServerError(_) => "Internal Server Error"@,
            AppError::SolanaError(_) => "Solana Error"@,
            AppError::InvalidProgramId(_) => "Invalid Program ID"@,
        }
    }

    pub open spec fn message_spec(&self) -> Seq<char> {
        match self {
            AppError::BadRequest(m) => m@,
            AppError::Unauthorized(m) => m@,
            AppError::InternalServerError(m) => m@,
            AppError::SolanaError(m) => m@,
            AppError::InvalidProgramId(m) => m@,
        }
    }

    /// The HTTP status that the error is answered with.
    pub fn status_code(&self) -> (r: u16)
        ensures
            r == match self {
                AppError::BadRequest(_) => 400u16,
                AppError::Unauthorized(_) => 401u16,
                AppError::InternalServerError(_) => 500u16,
                AppError::SolanaError(_) => 500u16,
                AppError::InvalidProgramId(_) => 400u16,
            },
    {
        match self {
            AppError::BadRequest(_) => 400,
            AppError::Unauthorized(_) => 401,
            AppError::InternalServerError(_) => 500,
            AppError::SolanaError(_) => 500,
            AppError::InvalidProgramId(_) => 400,
        }
    }

    /// The error's human-readable message.
    pub fn message(&self) -> (r: String)
        ensures
            r@ == match self {
                AppError::BadRequest(m) => m@,
                AppError::Unauthorized(m) => m@,
                AppError::InternalServerError(m) => m@,
                AppError::SolanaError(m) => m@,
                AppError::InvalidProgramId(m) => m@,
            },
    {
        match self {
            AppError::BadRequest(m) => m.clone(),
            AppError::Unauthorized(m) => m.clone(),
            AppError::InternalServerError(m) => m.clone(),
            AppError::SolanaError(m) => m.clone(),
            AppError::InvalidProgramId(m) => m.clone(),
        }
    }

    /// The label that precedes the message when the error is shown.
    pub fn label(&self) -> (r: String)
        ensures
            r@ == match self {
                AppError::BadRequest(_) => "Bad Request"@,
                AppError::Unauthorized(_) => "Unauthorized"@,
                AppError::InternalServerError(_) => "Internal Server Error"@,
                AppError::SolanaError(_) => "Solana Error"@,
                AppError::InvalidProgramId(_) => "Invalid Program ID"@,
            },
    {
        let s: &str = match self {
            AppError::BadRequest(_) => "Bad Request",
            AppError::Unauthorized(_) => "Unauthorized",
            AppError::InternalServerError(_) => "Internal Server Error",
            AppError::SolanaError(_) => "Solana Error",
            AppError::InvalidProgramId(_) => "Invalid Program ID",
        };
        s.to_owned()
    }

    /// The error as shown to a caller: its label, `: `, its message.
    pub fn to_text(&self) -> (r: String)
        ensures
            r@ == self.label_spec() + ": "@ + self.message_spec(),
    {
        proof {
            reveal_strlit(": ");
        }
        self.label().concat(": ").concat(self.message().as_str())
    }

    /// A rejection by the ledger program, as the service surfaces it: an
    /// authority failure is Unauthorized, anything else a ledger error.
    pub fn from_program(code: ErrorCode) -> (r: AppError)
        ensures
            code == ErrorCode::Unauthorized <==> r is Unauthorized,
            code != ErrorCode::Unauthorized <==> r is SolanaError,
    {
        match code {
            ErrorCode::Unauthorized => AppError::Unauthorized("Unauthorized access".to_owned()),
            ErrorCode::PatientAlreadyExists => AppError::SolanaError(
                "Patient record already exists".to_owned(),
            ),
            ErrorCode::PatientDoesNotExist => AppError::SolanaError(
                "Patient record does not exist".to_owned(),
            ),
            ErrorCode::DataIntegrityFailed => AppError::SolanaError(
                "Data integrity check failed".to_owned(),
            ),
            ErrorCode::CapacityExceeded => AppError::SolanaError(
                "Account capacity exceeded".to_owned(),
            ),
        }
    }
}

} // verus!
