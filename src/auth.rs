use vstd::prelude::*;
use vstd::string::{StringExecFns, StringSliceAdditionalSpecFns};
use crate::error::AppError;
use crate::models::AuthRequest;

verus! {

/// The bytes that base58 text spells, if it is base58.
pub uninterp spec fn base58_bytes_of(text: Seq<char>) -> Option<Seq<u8>>;

/// Whether strict Ed25519 verification accepts `signature` over `message`
/// for the public key `pubkey`.
pub uninterp spec fn ed25519_accepts(pubkey: Seq<u8>, message: Seq<u8>, signature: Seq<u8>) -> bool;

/// The character of a decimal digit.
pub open spec fn digit_char(d: nat) -> char {
    if d == 0 { '0' } else if d == 1 { '1' } else if d == 2 { '2' } else if d == 3 { '3' }
    else if d == 4 { '4' } else if d == 5 { '5' } else if d == 6 { '6' } else if d == 7 { '7' }
    else if d == 8 { '8' } else { '9' }
}

/// Decimal digits of a natural number, most significant first, no leading zeros.
pub open spec fn digits_of(n: nat) -> Seq<char>
    decreases n,
{
    if n < 10 {
        seq![digit_char(n)]
    } else {
        digits_of(n / 10) + seq![digit_char(n % 10)]
    }
}

/// Decimal text of an integer: a minus sign for negatives, then the digits.
pub open spec fn decimal_of(n: i64) -> Seq<char> {
    if n < 0 {
        seq!['-'] + digits_of((-n) as nat)
    } else {
        digits_of(n as nat)
    }
}

/// Relies on `bs58::decode(..).into_vec()`: the bytes that the text spells,
/// a function of the text alone; `None` for text outside the alphabet.
#[verifier::external_body]
fn base58_decode(text: &str) -> (r: Option<Vec<u8>>)
    ensures
        r.is_some() == base58_bytes_of(text@).is_some(),
        r.is_some() ==> base58_bytes_of(text@) == Some(r.unwrap()@),
{
    bs58::decode(text).into_vec().ok()
}

/// Relies on `Signature::verify`: strict Ed25519 verification, false for a
/// malformed public key, a function of its arguments alone.
#[verifier::external_body]
fn signature_verifies(signature: &[u8; 64], pubkey: &[u8], message: &[u8]) -> (r: bool)
    ensures
        r == ed25519_accepts(pubkey@, message@, signature@),
{
    solana_sdk::signature::Signature::from(*signature).verify(pubkey, message)
}

fn digit_text(d: u64) -> (r: String)
    requires
        d < 10,
    ensures
        r@ == seq![digit_char(d as nat)],
{
    let t: &str = if d == 0 { "0" } else if d == 1 { "1" } else if d == 2 { "2" } else if d == 3 {
        "3"
    } else if d == 4 { "4" } else if d == 5 { "5" } else if d == 6 { "6" } else if d == 7 {
        "7"
    } else if d == 8 { "8" } else { "9" };
    proof {
        reveal_strlit("0");
        reveal_strlit("1");
        reveal_strlit("2");
        reveal_strlit("3");
        reveal_strlit("4");
        reveal_strlit("5");
        reveal_strlit("6");
        reveal_strlit("7");
        reveal_strlit("8");
        reveal_strlit("9");
    }
    let r = t.to_owned();
    assert(r@ =~= seq![digit_char(d as nat)]);
    r
}

fn digits_text(n: u64) -> (r: String)
    ensures
        r@ == digits_of(n as nat),
    decreases n,
{
    if n < 10 {
        digit_text(n)
    } else {
        let head = digits_text(n / 10);
        let last = digit_text(n % 10);
        head.concat(last.as_str())
    }
}

/// The decimal text of an integer.
pub fn decimal_text(n: i64) -> (r: String)
    ensures
        r@ == decimal_of(n),
{
    if n < 0 {
        let m: u64 = (-(n as i128)) as u64;
        proof {
            reveal_strlit("-");
        }
        "-".to_owned().concat(digits_text(m).as_str())
    } else {
        digits_text(n as u64)
    }
}

/// The challenge that a login signs: `Timestamp: ` and the decimal timestamp.
pub open spec fn challenge_of(timestamp: i64) -> Seq<char> {
    "Timestamp: "@ + decimal_of(timestamp)
}

/// The challenge text for a login at `timestamp`.
pub fn challenge(timestamp: i64) -> (r: String)
    ensures
        r@ == challenge_of(timestamp),
{
    proof {
        reveal_strlit("Timestamp: ");
    }
    "Timestamp: ".to_owned().concat(decimal_text(timestamp).as_str())
}

/// The login is genuine: both texts are base58, the signature has 64 bytes,
/// and it verifies over the challenge for the request's timestamp.
pub open spec fn login_accepted(req: AuthRequest) -> bool {
    &&& base58_bytes_of(req.signature@) matches Some(s)
    &&& s.len() == 64
    &&& base58_bytes_of(req.public_key@) matches Some(p)
    &&& ed25519_accepts(
        p,
        vstd::utf8::encode_utf8(challenge_of(req.timestamp)),
        base58_bytes_of(req.signature@).unwrap(),
    )
}

/// Checks a login's signature over its challenge. Malformed texts or
/// signature lengths are BadRequest; a signature that does not verify is
/// Unauthorized.
pub fn verify_login(req: &AuthRequest) -> (r: Result<(), AppError>)
    ensures
        r is Ok <==> login_accepted(*req),
        base58_bytes_of(req.signature@) is None || base58_bytes_of(req.public_key@) is None || (
        base58_bytes_of(req.signature@) matches Some(s) && s.len() != 64) ==> (r matches Err(
            AppError::BadRequest(_),
        )),
        base58_bytes_of(req.signature@) matches Some(s) && s.len() == 64 && base58_bytes_of(
            req.public_key@,
        ) is Some && !login_accepted(*req) ==> (r matches Err(AppError::Unauthorized(_))),
        r is Err ==> (r matches Err(AppError::BadRequest(_))) || (r matches Err(
            AppError::Unauthorized(_),
        )),
{
    let sig_bytes = match base58_decode(req.signature.as_str()) {
        Some(b) => b,
        None => {
            return Err(AppError::BadRequest("Base58 decode error".to_owned()));
        },
    };
    let key_bytes = match base58_decode(req.public_key.as_str()) {
        Some(b) => b,
        None => {
            return Err(AppError::BadRequest("Base58 decode error".to_owned()));
        },
    };
    if sig_bytes.len() != 64 {
        return Err(AppError::BadRequest("Signature conversion error".to_owned()));
    }
    let mut sig = [0u8; 64];
    let mut i: usize = 0;
    while i < 64
        invariant
            0 <= i <= 64,
            sig_bytes@.len() == 64,
            sig@.len() == 64,
            forall|j: int| 0 <= j < i ==> sig@[j] == sig_bytes@[j],
        decreases 64 - i,
    {
        sig[i] = sig_bytes[i];
        i = i + 1;
    }
    assert(sig@ =~= sig_bytes@);
    let message = challenge(req.timestamp);
    if !signature_verifies(&sig, key_bytes.as_slice(), message.as_str().as_bytes()) {
        return Err(AppError::Unauthorized("Signature verification failed".to_owned()));
    }
    Ok(())
}

} // verus!
