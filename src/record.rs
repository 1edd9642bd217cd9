use vstd::prelude::*;
use vstd::string::StringExecFns;
use crate::encoding::{ascii_bytes, base64_decode, base64_encode, base64_of, is_base64_char};
use crate::error::AppError;
use crate::instruction::append_bytes;

verus! {

/// Longest plaintext that AES-256-GCM seals, in bytes.
pub const AES_P_MAX: u64 = 68719476736;

/// The byte that separates the ciphertext from the nonce in a record: `|`.
pub const SEPARATOR: u8 = 124;

/// AES-256-GCM ciphertext (tag appended) of `plaintext` under `key` and `nonce`.
pub uninterp spec fn aes_gcm_seal(key: Seq<u8>, nonce: Seq<u8>, plaintext: Seq<u8>) -> Seq<u8>;

/// AES-256-GCM opening of `ciphertext` under `key` and `nonce`; `None` when
/// the tag does not authenticate it.
pub uninterp spec fn aes_gcm_open(key: Seq<u8>, nonce: Seq<u8>, ciphertext: Seq<u8>) -> Option<
    Seq<u8>,
>;

/// Relies on aes_gcm's `Aes256Gcm::encrypt`: deterministic in key, nonce and
/// plaintext, the ciphertext as long as the plaintext followed by a 16-byte
/// tag, and failing only for a plaintext longer than its P_MAX (2^36 bytes).
#[verifier::external_body]
fn aes_encrypt(key: &[u8; 32], nonce: &[u8; 12], plaintext: &[u8]) -> (r: Option<Vec<u8>>)
    ensures
        r.is_some() <==> plaintext@.len() <= AES_P_MAX,
        r.is_some() ==> r.unwrap()@ == aes_gcm_seal(key@, nonce@, plaintext@),
        r.is_some() ==> r.unwrap()@.len() == plaintext@.len() + 16,
{
    let cipher = <aes_gcm::Aes256Gcm as aes_gcm::aead::KeyInit>::new(
        aes_gcm::Key::<aes_gcm::Aes256Gcm>::from_slice(key),
    );
    aes_gcm::aead::Aead::encrypt(&cipher, aes_gcm::Nonce::from_slice(nonce), plaintext).ok()
}

/// Relies on aes_gcm's `Aes256Gcm::decrypt`: deterministic in its arguments,
/// and it returns the plaintext that `encrypt` sealed under the same key and nonce.
#[verifier::external_body]
fn aes_decrypt(key: &[u8; 32], nonce: &[u8], ciphertext: &[u8]) -> (r: Option<Vec<u8>>)
    requires
        nonce@.len() == 12,
    ensures
        r.is_some() == aes_gcm_open(key@, nonce@, ciphertext@).is_some(),
        r.is_some() ==> aes_gcm_open(key@, nonce@, ciphertext@) == Some(r.unwrap()@),
        forall|p: Seq<u8>|
            p.len() <= AES_P_MAX && #[trigger] aes_gcm_seal(key@, nonce@, p) == ciphertext@
                ==> r.is_some() && r.unwrap()@ == p,
{
    let cipher = <aes_gcm::Aes256Gcm as aes_gcm::aead::KeyInit>::new(
        aes_gcm::Key::<aes_gcm::Aes256Gcm>::from_slice(key),
    );
    aes_gcm::aead::Aead::decrypt(&cipher, aes_gcm::Nonce::from_slice(nonce), ciphertext).ok()
}

/// The stored text of a sealed record: base64 ciphertext, `|`, base64 nonce.
pub open spec fn record_chars(ciphertext: Seq<u8>, nonce: Seq<u8>) -> Seq<char> {
    base64_of(ciphertext) + seq!['|'] + base64_of(nonce)
}

/// The bytes of a record's text.
pub open spec fn record_text(ciphertext: Seq<u8>, nonce: Seq<u8>) -> Seq<u8> {
    ascii_bytes(base64_of(ciphertext)) + seq![SEPARATOR] + ascii_bytes(base64_of(nonce))
}

/// `rec` holds the separator at `i` and nowhere else.
pub open spec fn single_separator_at(rec: Seq<u8>, i: int) -> bool {
    &&& 0 <= i < rec.len()
    &&& rec[i] == SEPARATOR
    &&& forall|j: int| 0 <= j < rec.len() && j != i ==> rec[j] != SEPARATOR
}

/// No byte of `s` is the separator.
pub open spec fn separator_free(s: Seq<u8>) -> bool {
    forall|i: int| 0 <= i < s.len() ==> s[i] != SEPARATOR
}

/// The base64 texts of `ct` and `n` hold no separator, so the record of the
/// two splits back into them.
pub open spec fn well_formed_parts(ct: Seq<u8>, n: Seq<u8>) -> bool {
    separator_free(ascii_bytes(base64_of(ct))) && separator_free(ascii_bytes(base64_of(n)))
}

/// `rec` is a well-formed record, with a 12-byte nonce, whose ciphertext opens under `key`.
pub open spec fn opens(key: Seq<u8>, rec: Seq<u8>) -> bool {
    exists|ct: Seq<u8>, n: Seq<u8>|
        n.len() == 12 && well_formed_parts(ct, n) && rec == record_text(ct, n) && (
        #[trigger] aes_gcm_open(key, n, ct)).is_some()
}

proof fn lemma_text_has_no_separator(s: Seq<char>)
    requires
        forall|i: int| 0 <= i < s.len() ==> is_base64_char(#[trigger] s[i]),
    ensures
        separator_free(ascii_bytes(s)),
{
    assert forall|i: int| 0 <= i < ascii_bytes(s).len() implies ascii_bytes(s)[i] != SEPARATOR by {
        assert(is_base64_char(s[i]));
        assert(ascii_bytes(s)[i] == s[i] as u8);
    }
}

proof fn lemma_split_record(ct: Seq<u8>, n: Seq<u8>)
    requires
        well_formed_parts(ct, n),
    ensures
        single_separator_at(record_text(ct, n), ascii_bytes(base64_of(ct)).len() as int),
        record_text(ct, n).subrange(0, ascii_bytes(base64_of(ct)).len() as int) == ascii_bytes(
            base64_of(ct),
        ),
        record_text(ct, n).subrange(
            ascii_bytes(base64_of(ct)).len() as int + 1,
            record_text(ct, n).len() as int,
        ) == ascii_bytes(base64_of(n)),
{
    let h = ascii_bytes(base64_of(ct));
    let t = ascii_bytes(base64_of(n));
    let rec = record_text(ct, n);
    assert(rec == h + seq![SEPARATOR] + t);
    assert(rec.subrange(0, h.len() as int) =~= h);
    assert(rec.subrange(h.len() as int + 1, rec.len() as int) =~= t);
    assert forall|j: int| 0 <= j < rec.len() && j != h.len() implies rec[j] != SEPARATOR by {
        if j < h.len() as int {
            assert(rec[j] == h[j]);
        } else {
            assert(rec[j] == t[j - h.len() as int - 1]);
        }
    }
}

/// A record that opens has its separator at the first separator `i`, and its
/// halves are the texts of a ciphertext that opens and of a 12-byte nonce.
proof fn lemma_opens_split(key: Seq<u8>, rec: Seq<u8>, i: int)
    requires
        opens(key, rec),
        0 <= i < rec.len(),
        rec[i] == SEPARATOR,
        forall|j: int| 0 <= j < i ==> rec[j] != SEPARATOR,
    ensures
        single_separator_at(rec, i),
        exists|ct: Seq<u8>, n: Seq<u8>|
            n.len() == 12 && ascii_bytes(base64_of(ct)) == rec.subrange(0, i) && ascii_bytes(
                base64_of(n),
            ) == rec.subrange(i + 1, rec.len() as int) && (#[trigger] aes_gcm_open(
                key,
                n,
                ct,
            )).is_some(),
{
    let (ct, n) = choose|ct: Seq<u8>, n: Seq<u8>|
        n.len() == 12 && well_formed_parts(ct, n) && rec == record_text(ct, n) && (
        #[trigger] aes_gcm_open(key, n, ct)).is_some();
    lemma_split_record(ct, n);
    let l = ascii_bytes(base64_of(ct)).len() as int;
    assert(i == l);
    assert(aes_gcm_open(key, n, ct).is_some());
}

/// A record that opens has exactly one separator.
proof fn lemma_opens_has_separator(key: Seq<u8>, rec: Seq<u8>)
    requires
        opens(key, rec),
    ensures
        exists|i: int| single_separator_at(rec, i),
{
    let (ct, n) = choose|ct: Seq<u8>, n: Seq<u8>|
        n.len() == 12 && well_formed_parts(ct, n) && rec == record_text(ct, n) && (
        #[trigger] aes_gcm_open(key, n, ct)).is_some();
    lemma_split_record(ct, n);
}

/// Where `rec` is the record of a sealed plaintext, it splits at the end of
/// the ciphertext's text into the two texts.
proof fn round_trip_split(key: Seq<u8>, rec: Seq<u8>)
    ensures
        forall|p: Seq<u8>, n: Seq<u8>|
            well_formed_parts(#[trigger] aes_gcm_seal(key, n, p), n) && rec == record_text(
                aes_gcm_seal(key, n, p),
                n,
            ) ==> {
                &&& single_separator_at(
                    rec,
                    ascii_bytes(base64_of(aes_gcm_seal(key, n, p))).len() as int,
                )
                &&& rec.subrange(0, ascii_bytes(base64_of(aes_gcm_seal(key, n, p))).len() as int)
                    == ascii_bytes(base64_of(aes_gcm_seal(key, n, p)))
                &&& rec.subrange(
                    ascii_bytes(base64_of(aes_gcm_seal(key, n, p))).len() as int + 1,
                    rec.len() as int,
                ) == ascii_bytes(base64_of(n))
            },
{
    assert forall|p: Seq<u8>, n: Seq<u8>|
        well_formed_parts(#[trigger] aes_gcm_seal(key, n, p), n) && rec == record_text(
            aes_gcm_seal(key, n, p),
            n,
        ) implies {
        &&& single_separator_at(rec, ascii_bytes(base64_of(aes_gcm_seal(key, n, p))).len() as int)
        &&& rec.subrange(0, ascii_bytes(base64_of(aes_gcm_seal(key, n, p))).len() as int)
            == ascii_bytes(base64_of(aes_gcm_seal(key, n, p)))
        &&& rec.subrange(ascii_bytes(base64_of(aes_gcm_seal(key, n, p))).len() as int + 1, rec.len() as int)
            == ascii_bytes(base64_of(n))
    } by {
        lemma_split_record(aes_gcm_seal(key, n, p), n);
    }
}

/// Copies `src[start..end]`.
fn copy_range(src: &[u8], start: usize, end: usize) -> (r: Vec<u8>)
    requires
        start <= end <= src@.len(),
    ensures
        r@ == src@.subrange(start as int, end as int),
{
    let mut v: Vec<u8> = Vec::new();
    let mut i: usize = start;
    while i < end
        invariant
            start <= i <= end,
            end <= src@.len(),
            v@ == src@.subrange(start as int, i as int),
        decreases end - i,
    {
        v.push(src[i]);
        i = i + 1;
        assert(v@ =~= src@.subrange(start as int, i as int));
    }
    v
}

/// The stored text of a record, as bytes, is its characters one byte each.
proof fn lemma_record_chars_bytes(ct: Seq<u8>, n: Seq<u8>)
    ensures
        ascii_bytes(record_chars(ct, n)) == record_text(ct, n),
{
    let a = base64_of(ct);
    let b = base64_of(n);
    assert(ascii_bytes(record_chars(ct, n)) =~= ascii_bytes(a) + seq![SEPARATOR] + ascii_bytes(b));
}

/// All characters of the record text are ASCII.
pub open spec fn ascii_text(s: Seq<char>) -> bool {
    vstd::utf8::is_ascii_chars(s)
}

/// Seals a plaintext under `key` and `nonce` into its stored record text.
pub fn seal_record(key: &[u8; 32], nonce: &[u8; 12], plaintext: &[u8]) -> (r: Result<
    String,
    AppError,
>)
    ensures
        r is Ok <==> plaintext@.len() <= AES_P_MAX,
        r matches Ok(v) ==> v@ == record_chars(aes_gcm_seal(key@, nonce@, plaintext@), nonce@),
        r matches Ok(v) ==> ascii_text(v@) && ascii_bytes(v@) == record_text(
            aes_gcm_seal(key@, nonce@, plaintext@),
            nonce@,
        ),
        r is Ok ==> well_formed_parts(aes_gcm_seal(key@, nonce@, plaintext@), nonce@),
        r is Ok ==> aes_gcm_seal(key@, nonce@, plaintext@).len() == plaintext@.len() + 16,
        r is Err ==> r matches Err(AppError::InternalServerError(_)),
{
    let sealed = match aes_encrypt(key, nonce, plaintext) {
        Some(c) => c,
        None => {
            return Err(AppError::InternalServerError("Encryption failed".to_owned()));
        },
    };
    let ct_text = base64_encode(sealed.as_slice());
    let nonce_text = base64_encode(nonce.as_slice());
    proof {
        lemma_text_has_no_separator(ct_text@);
        lemma_text_has_no_separator(nonce_text@);
        lemma_record_chars_bytes(sealed@, nonce@);
    }
    let out = ct_text.concat("|").concat(nonce_text.as_str());
    proof {
        reveal_strlit("|");
        let c = aes_gcm_seal(key@, nonce@, plaintext@);
        assert(out@ =~= record_chars(c, nonce@));
        assert forall|i: int| 0 <= i < out@.len() implies '\0' <= #[trigger] out@[i] <= '\u{7f}' by {
            if i < ct_text@.len() {
                assert(is_base64_char(ct_text@[i]));
            } else if i > ct_text@.len() {
                assert(out@[i] == nonce_text@[i - ct_text@.len() - 1]);
                assert(is_base64_char(nonce_text@[i - ct_text@.len() - 1]));
            }
        }
    }
    Ok(out)
}

/// The bytes of ASCII text.
pub fn ascii_text_bytes(s: &str) -> (r: Vec<u8>)
    requires
        ascii_text(s@),
    ensures
        r@ == ascii_bytes(s@),
{
    proof {
        assert(vstd::utf8::is_ascii_chars(s@));
        vstd::utf8::is_ascii_chars_encode_utf8(s@);
    }
    let b = s.as_bytes();
    let mut v: Vec<u8> = Vec::new();
    append_bytes(&mut v, b);
    assert(v@ =~= ascii_bytes(s@));
    v
}

/// Opens a stored record with `key`: splits it at its one separator, decodes
/// both halves and authenticates and decrypts the ciphertext. A record sealed
/// by `seal_record` under the same key opens to its plaintext.
pub fn open_record(key: &[u8; 32], record: &[u8]) -> (r: Result<Vec<u8>, AppError>)
    ensures
        r is Ok <==> opens(key@, record@),
        r matches Ok(p) ==> exists|ct: Seq<u8>, n: Seq<u8>|
            n.len() == 12 && record@ == record_text(ct, n) && aes_gcm_open(key@, n, ct) == Some(
                p@,
            ),
        forall|p: Seq<u8>, n: Seq<u8>|
            n.len() == 12 && p.len() <= AES_P_MAX && well_formed_parts(
                #[trigger] aes_gcm_seal(key@, n, p),
                n,
            ) && record@ == record_text(aes_gcm_seal(key@, n, p), n) ==> (r matches Ok(v) && v@
                == p),
        (forall|i: int| !single_separator_at(record@, i)) ==> r matches Err(
            AppError::InternalServerError(_),
        ),
        r is Err ==> r matches Err(AppError::InternalServerError(_)) || r matches Err(
            AppError::BadRequest(_),
        ),
{
    let ghost rec = record@;
    // find the separator, and make sure it is the only one
    let mut i: usize = 0;
    while i < record.len() && record[i] != SEPARATOR
        invariant
            0 <= i <= record@.len(),
            forall|j: int| 0 <= j < i ==> record@[j] != SEPARATOR,
        decreases record@.len() - i,
    {
        i = i + 1;
    }
    if i == record.len() {
        proof {
            if opens(key@, rec) {
                lemma_opens_has_separator(key@, rec);
            }
            round_trip_split(key@, rec);
        }
        return Err(AppError::InternalServerError("Invalid encrypted data format".to_owned()));
    }
    let mut j: usize = i + 1;
    while j < record.len()
        invariant
            rec == record@,
            i < j <= record@.len(),
            record@[i as int] == SEPARATOR,
            forall|k: int| 0 <= k < i ==> record@[k] != SEPARATOR,
            forall|k: int| i < k < j ==> record@[k] != SEPARATOR,
        decreases record@.len() - j,
    {
        if record[j] == SEPARATOR {
            proof {
                assert(rec[j as int] == SEPARATOR);
                assert(!single_separator_at(rec, i as int));
                if opens(key@, rec) {
                    lemma_opens_split(key@, rec, i as int);
                }
                round_trip_split(key@, rec);
                assert forall|k: int| !single_separator_at(rec, k) by {
                    if single_separator_at(rec, k) {
                        assert(k == i || k == j);
                    }
                }
            }
            return Err(AppError::InternalServerError("Invalid encrypted data format".to_owned()));
        }
        j = j + 1;
    }
    assert(single_separator_at(rec, i as int));
    let head = copy_range(record, 0, i);
    let tail = copy_range(record, i + 1, record.len());
    assert(rec =~= head@ + seq![SEPARATOR] + tail@);
    proof {
        if opens(key@, rec) {
            lemma_opens_split(key@, rec, i as int);
        }
        round_trip_split(key@, rec);
    }
    let ciphertext = match base64_decode(head.as_slice()) {
        Some(c) => c,
        None => {
            return Err(AppError::BadRequest("Invalid base64 ciphertext".to_owned()));
        },
    };
    let nonce = match base64_decode(tail.as_slice()) {
        Some(n) => n,
        None => {
            return Err(AppError::BadRequest("Invalid base64 nonce".to_owned()));
        },
    };
    if nonce.len() != 12 {
        return Err(AppError::InternalServerError("Invalid nonce length".to_owned()));
    }
    let r = aes_decrypt(key, nonce.as_slice(), ciphertext.as_slice());
    proof {
        if r.is_some() {
            assert(well_formed_parts(ciphertext@, nonce@));
            assert(rec == record_text(ciphertext@, nonce@));
            assert(aes_gcm_open(key@, nonce@, ciphertext@).is_some());
        }
    }
    match r {
        Some(p) => Ok(p),
        None => Err(AppError::InternalServerError("Decryption failed".to_owned())),
    }
}

} // verus!
