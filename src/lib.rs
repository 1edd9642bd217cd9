//! Verified core of a permissioned medical-record service: the ledger
//! program's authority state machine, the instruction builder, the encrypted
//! record format, view tokens, the seed index, account decoding and the
//! dual-signing checks.

pub mod accounts;
pub mod address;
pub mod auth;
pub mod encoding;
pub mod error;
pub mod forms;
pub mod instruction;
pub mod key;
pub mod ledger;
pub mod models;
pub mod record;
pub mod seed_index;
pub mod service;
pub mod tokens;
pub mod transaction;
