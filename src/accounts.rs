use vstd::prelude::*;
use crate::instruction::{le_u32, lemma_le_u32_injective, lemma_le_u32_round_trip, u32_from_le};
use crate::key::{Key, key_at};
use crate::ledger::{Admin, AuthorityHistory, HistoryEntry, Patient, keys_view};

verus! {

/// Bytes of the account-kind header that precedes every account's fields.
pub const HEADER_LEN: usize = 8;

/// The account discriminator of patient accounts, by which the program's
/// patient accounts are found.
pub open spec fn patient_account_discriminator() -> Seq<u8> {
    seq![118u8, 127, 39, 235, 201, 189, 0, 109]
}

pub fn patient_account_tag() -> (r: [u8; 8])
    ensures
        r@ == patient_account_discriminator(),
{
    let r: [u8; 8] = [118, 127, 39, 235, 201, 189, 0, 109];
    assert(r@ =~= patient_account_discriminator());
    r
}

/// `d` holds, from `at`, a four-byte little-endian count and then that many 32-byte keys.
pub open spec fn keys_at(d: Seq<u8>, at: int, ks: Seq<Seq<u8>>) -> bool {
    &&& ks.len() <= u32::MAX
    &&& 0 <= at
    &&& at + 4 + 32 * ks.len() <= d.len()
    &&& d.subrange(at, at + 4) == le_u32(ks.len() as u32)
    &&& forall|i: int|
        0 <= i < ks.len() ==> #[trigger] ks[i] == d.subrange(at + 4 + 32 * i, at + 4 + 32 * i + 32)
}

/// Where a key list that starts at `at` ends.
pub open spec fn keys_end(at: int, ks: Seq<Seq<u8>>) -> int {
    at + 4 + 32 * ks.len()
}

/// `d` is admin account data: header, authority, read list, write list.
pub open spec fn admin_layout(
    d: Seq<u8>,
    authority: Seq<u8>,
    reads: Seq<Seq<u8>>,
    writes: Seq<Seq<u8>>,
) -> bool {
    &&& d.len() >= 40
    &&& d.subrange(8, 40) == authority
    &&& keys_at(d, 40, reads)
    &&& keys_at(d, keys_end(40, reads), writes)
}

/// A flag byte: 0 is false, 1 is true.
pub open spec fn flag_byte(b: bool) -> u8 {
    if b {
        1
    } else {
        0
    }
}

/// `d` is patient account data: header, own address, initialized flag,
/// record text with its four-byte length, digest.
pub open spec fn patient_layout(
    d: Seq<u8>,
    address: Seq<u8>,
    initialized: bool,
    text: Seq<u8>,
    digest: Seq<u8>,
) -> bool {
    &&& text.len() <= u32::MAX
    &&& 45 + text.len() + 32 <= d.len()
    &&& d.subrange(8, 40) == address
    &&& d[40] == flag_byte(initialized)
    &&& d.subrange(41, 45) == le_u32(text.len() as u32)
    &&& d.subrange(45, 45 + text.len() as int) == text
    &&& d.subrange(45 + text.len() as int, 45 + text.len() as int + 32) == digest
}

/// The eight little-endian bytes of a timestamp.
pub open spec fn le_i64(t: i64) -> Seq<u8> {
    let u = #[verifier::truncate] (t as u64);
    seq![
        (u & 0xff) as u8,
        ((u >> 8u64) & 0xff) as u8,
        ((u >> 16u64) & 0xff) as u8,
        ((u >> 24u64) & 0xff) as u8,
        ((u >> 32u64) & 0xff) as u8,
        ((u >> 40u64) & 0xff) as u8,
        ((u >> 48u64) & 0xff) as u8,
        ((u >> 56u64) & 0xff) as u8,
    ]
}

/// `d` holds, from `at`, one history entry.
pub open spec fn entry_at(d: Seq<u8>, at: int, e: HistoryEntry) -> bool {
    &&& 0 <= at
    &&& at + 74 <= d.len()
    &&& d.subrange(at, at + 32) == e.admin@
    &&& d.subrange(at + 32, at + 64) == e.authority@
    &&& d[at + 64] == flag_byte(e.added)
    &&& d[at + 65] == flag_byte(e.is_read)
    &&& d.subrange(at + 66, at + 74) == le_i64(e.timestamp)
}

/// `d` is history account data: header, entry count, entries.
pub open spec fn history_layout(d: Seq<u8>, es: Seq<HistoryEntry>) -> bool {
    &&& es.len() <= u32::MAX
    &&& 12 + 74 * es.len() <= d.len()
    &&& d.subrange(8, 12) == le_u32(es.len() as u32)
    &&& forall|i: int| 0 <= i < es.len() ==> entry_at(d, 12 + 74 * i, #[trigger] es[i])
}

/// The four bytes at `at`, as a little-endian value.
pub fn read_u32(d: &[u8], at: usize) -> (r: Option<u32>)
    ensures
        r.is_some() == (at + 4 <= d@.len()),
        r matches Some(v) ==> d@.subrange(at as int, at + 4) == le_u32(v),
{
    if at > d.len() || d.len() - at < 4 {
        return None;
    }
    let v: u32 = (d[at] as u32) | ((d[at + 1] as u32) << 8u32) | ((d[at + 2] as u32) << 16u32) | ((
    d[at + 3] as u32) << 24u32);
    proof {
        lemma_le_u32_round_trip(d@[at as int], d@[at + 1], d@[at + 2], d@[at + 3]);
        assert(v == u32_from_le(d@[at as int], d@[at + 1], d@[at + 2], d@[at + 3]));
        assert(d@.subrange(at as int, at + 4) =~= seq![
            d@[at as int],
            d@[at + 1],
            d@[at + 2],
            d@[at + 3],
        ]);
    }
    Some(v)
}

/// The eight bytes at `at`, as a little-endian timestamp.
pub fn read_i64(d: &[u8], at: usize) -> (r: Option<i64>)
    ensures
        r.is_some() == (at + 8 <= d@.len()),
        r matches Some(t) ==> d@.subrange(at as int, at + 8) == le_i64(t),
        forall|t: i64| at + 8 <= d@.len() && d@.subrange(at as int, at + 8) == le_i64(t) ==> r == Some(t),
{
    if at > d.len() || d.len() - at < 8 {
        return None;
    }
    let b0 = d[at];
    let b1 = d[at + 1];
    let b2 = d[at + 2];
    let b3 = d[at + 3];
    let b4 = d[at + 4];
    let b5 = d[at + 5];
    let b6 = d[at + 6];
    let b7 = d[at + 7];
    let u: u64 = (b0 as u64) | ((b1 as u64) << 8u64) | ((b2 as u64) << 16u64) | ((b3 as u64)
        << 24u64) | ((b4 as u64) << 32u64) | ((b5 as u64) << 40u64) | ((b6 as u64) << 48u64) | ((
    b7 as u64) << 56u64);
    let t = #[verifier::truncate] (u as i64);
    proof {
        assert(#[verifier::truncate] (t as u64) == u) by (bit_vector)
            requires
                t == #[verifier::truncate] (u as i64),
        ;
        assert((u & 0xff) as u8 == b0 && ((u >> 8u64) & 0xff) as u8 == b1 && ((u >> 16u64) & 0xff) as u8 == b2
            && ((u >> 24u64) & 0xff) as u8 == b3 && ((u >> 32u64) & 0xff) as u8 == b4 && ((u >> 40u64)
            & 0xff) as u8 == b5 && ((u >> 48u64) & 0xff) as u8 == b6 && ((u >> 56u64) & 0xff) as u8
            == b7) by (bit_vector)
            requires
                u == (b0 as u64) | ((b1 as u64) << 8u64) | ((b2 as u64) << 16u64) | ((b3 as u64)
                    << 24u64) | ((b4 as u64) << 32u64) | ((b5 as u64) << 40u64) | ((b6 as u64)
                    << 48u64) | ((b7 as u64) << 56u64),
        ;
        assert(d@.subrange(at as int, at + 8) =~= le_i64(t));
        assert forall|s: i64|
            at + 8 <= d@.len() && d@.subrange(at as int, at + 8) == le_i64(s) implies t == s by {
            let w = #[verifier::truncate] (s as u64);
            assert(le_i64(s)[0] == le_i64(t)[0]);
            assert(le_i64(s)[1] == le_i64(t)[1]);
            assert(le_i64(s)[2] == le_i64(t)[2]);
            assert(le_i64(s)[3] == le_i64(t)[3]);
            assert(le_i64(s)[4] == le_i64(t)[4]);
            assert(le_i64(s)[5] == le_i64(t)[5]);
            assert(le_i64(s)[6] == le_i64(t)[6]);
            assert(le_i64(s)[7] == le_i64(t)[7]);
            assert(w == u) by (bit_vector)
                requires
                    (w & 0xff) as u8 == (u & 0xff) as u8,
                    ((w >> 8u64) & 0xff) as u8 == ((u >> 8u64) & 0xff) as u8,
                    ((w >> 16u64) & 0xff) as u8 == ((u >> 16u64) & 0xff) as u8,
                    ((w >> 24u64) & 0xff) as u8 == ((u >> 24u64) & 0xff) as u8,
                    ((w >> 32u64) & 0xff) as u8 == ((u >> 32u64) & 0xff) as u8,
                    ((w >> 40u64) & 0xff) as u8 == ((u >> 40u64) & 0xff) as u8,
                    ((w >> 48u64) & 0xff) as u8 == ((u >> 48u64) & 0xff) as u8,
                    ((w >> 56u64) & 0xff) as u8 == ((u >> 56u64) & 0xff) as u8,
            ;
            assert(s == t) by (bit_vector)
                requires
                    w == #[verifier::truncate] (s as u64),
                    t == #[verifier::truncate] (u as i64),
                    w == u,
            ;
        }
    }
    Some(t)
}

/// A flag byte at `at`: `None` past the end or for a byte other than 0 or 1.
pub fn read_flag(d: &[u8], at: usize) -> (r: Option<bool>)
    ensures
        r.is_some() == (at < d@.len() && (d@[at as int] == 0 || d@[at as int] == 1)),
        r matches Some(b) ==> d@[at as int] == flag_byte(b),
{
    if at >= d.len() {
        None
    } else if d[at] == 0 {
        Some(false)
    } else if d[at] == 1 {
        Some(true)
    } else {
        None
    }
}

proof fn lemma_count_fits(n: int, avail: int)
    requires
        0 <= n,
        0 <= avail,
    ensures
        n <= avail / 32 <==> 32 * n <= avail,
{
    assert(n <= avail / 32 ==> 32 * n <= avail) by (nonlinear_arith)
        requires
            0 <= n,
            0 <= avail,
    ;
    assert(32 * n <= avail ==> n <= avail / 32) by (nonlinear_arith)
        requires
            0 <= n,
            0 <= avail,
    ;
}

/// A count-prefixed list of keys at `at`, and where it ends.
pub fn read_keys(d: &[u8], at: usize) -> (r: Option<(Vec<Key>, usize)>)
    ensures
        r matches Some((ks, end)) ==> keys_at(d@, at as int, keys_view(ks@)) && end == keys_end(
            at as int,
            keys_view(ks@),
        ),
        forall|ks: Seq<Seq<u8>>|
            keys_at(d@, at as int, ks) ==> (r matches Some((v, e)) && keys_view(v@) == ks),
{
    let n = match read_u32(d, at) {
        Some(n) => n,
        None => {
            return None;
        },
    };
    proof {
        assert forall|ks: Seq<Seq<u8>>| keys_at(d@, at as int, ks) implies ks.len() == n by {
            lemma_le_u32_injective(ks.len() as u32, n);
        }
    }
    let avail: usize = d.len() - (at + 4);
    proof {
        lemma_count_fits(n as int, avail as int);
    }
    if n as usize > avail / 32 {
        return None;
    }
    let count: usize = n as usize;
    let dlen: usize = d.len();
    let mut out: Vec<Key> = Vec::new();
    let mut i: usize = 0;
    while i < count
        invariant
            0 <= i <= count,
            count == n,
            dlen == d@.len(),
            at + 4 + 32 * count <= d@.len(),
            out@.len() == i,
            forall|j: int|
                0 <= j < i ==> #[trigger] out@[j]@ == d@.subrange(
                    at + 4 + 32 * j,
                    at + 4 + 32 * j + 32,
                ),
        decreases count - i,
    {
        let k = match key_at(d, at + 4 + 32 * i) {
            Some(k) => k,
            None => {
                return None;
            },
        };
        out.push(k);
        i = i + 1;
    }
    let end: usize = at + 4 + 32 * count;
    proof {
        assert forall|j: int| 0 <= j < out@.len() implies #[trigger] keys_view(out@)[j] == d@.subrange(
            at + 4 + 32 * j,
            at + 4 + 32 * j + 32,
        ) by {
            assert(keys_view(out@)[j] == out@[j]@);
        }
        assert forall|ks: Seq<Seq<u8>>| keys_at(d@, at as int, ks) implies keys_view(out@) == ks by {
            assert(keys_view(out@) =~= ks);
        }
    }
    Some((out, end))
}

/// Decodes admin account data.
pub fn decode_admin(d: &[u8]) -> (r: Option<Admin>)
    ensures
        r matches Some(a) ==> admin_layout(d@, a.authority@, a.reads(), a.writes()),
        forall|auth: Seq<u8>, reads: Seq<Seq<u8>>, writes: Seq<Seq<u8>>|
            admin_layout(d@, auth, reads, writes) ==> (r matches Some(a) && a.authority@ == auth
                && a.reads() == reads && a.writes() == writes),
{
    let authority = match key_at(d, HEADER_LEN) {
        Some(k) => k,
        None => {
            return None;
        },
    };
    let (reads, after_reads) = match read_keys(d, 40) {
        Some(p) => p,
        None => {
            return None;
        },
    };
    let (writes, _end) = match read_keys(d, after_reads) {
        Some(p) => p,
        None => {
            return None;
        },
    };
    Some(Admin { authority, read_authorities: reads, write_authorities: writes })
}

/// Decodes patient account data.
pub fn decode_patient(d: &[u8]) -> (r: Option<Patient>)
    ensures
        r matches Some(p) ==> patient_layout(
            d@,
            p.patient_address@,
            p.is_initialized,
            p.encrypted_data@,
            p.data_hash@,
        ),
        forall|addr: Seq<u8>, init: bool, text: Seq<u8>, digest: Seq<u8>|
            patient_layout(d@, addr, init, text, digest) ==> (r matches Some(p)
                && p.patient_address@ == addr && p.is_initialized == init && p.encrypted_data@
                == text && p.data_hash@ == digest),
{
    let address = match key_at(d, HEADER_LEN) {
        Some(k) => k,
        None => {
            return None;
        },
    };
    let initialized = match read_flag(d, 40) {
        Some(b) => b,
        None => {
            return None;
        },
    };
    let n = match read_u32(d, 41) {
        Some(n) => n,
        None => {
            return None;
        },
    };
    proof {
        assert forall|addr: Seq<u8>, init: bool, text: Seq<u8>, digest: Seq<u8>|
            patient_layout(d@, addr, init, text, digest) implies text.len() == n by {
            lemma_le_u32_injective(text.len() as u32, n);
        }
    }
    if d.len() < 45 || (n as usize) > d.len() - 45 || d.len() - 45 - (n as usize) < 32 {
        return None;
    }
    let end: usize = 45 + n as usize;
    let mut text: Vec<u8> = Vec::new();
    let mut i: usize = 45;
    while i < end
        invariant
            45 <= i <= end,
            end + 32 <= d@.len(),
            text@ == d@.subrange(45, i as int),
        decreases end - i,
    {
        text.push(d[i]);
        i = i + 1;
        assert(text@ =~= d@.subrange(45, i as int));
    }
    let digest = match key_at(d, end) {
        Some(k) => k.bytes,
        None => {
            return None;
        },
    };
    Some(Patient { patient_address: address, is_initialized: initialized, encrypted_data: text, data_hash: digest })
}

/// Decodes authority history account data.
pub fn decode_history(d: &[u8]) -> (r: Option<AuthorityHistory>)
    ensures
        r matches Some(h) ==> history_layout(d@, h@),
        forall|es: Seq<HistoryEntry>| history_layout(d@, es) ==> (r matches Some(h) && h@ == es),
{
    let n = match read_u32(d, HEADER_LEN) {
        Some(n) => n,
        None => {
            return None;
        },
    };
    proof {
        assert forall|es: Seq<HistoryEntry>| history_layout(d@, es) implies es.len() == n by {
            lemma_le_u32_injective(es.len() as u32, n);
        }
    }
    let avail: usize = d.len() - 12;
    assert(n as int <= avail as int / 74 <==> 74 * (n as int) <= avail as int) by (nonlinear_arith)
        requires
            0 <= n,
            0 <= avail,
    ;
    if n as usize > avail / 74 {
        return None;
    }
    let count: usize = n as usize;
    let dlen: usize = d.len();
    let mut entries: Vec<HistoryEntry> = Vec::new();
    let mut i: usize = 0;
    while i < count
        invariant
            0 <= i <= count,
            count == n,
            dlen == d@.len(),
            12 + 74 * count <= d@.len(),
            forall|es: Seq<HistoryEntry>| history_layout(d@, es) ==> es.len() == count,
            entries@.len() == i,
            forall|j: int| 0 <= j < i ==> entry_at(d@, 12 + 74 * j, #[trigger] entries@[j]),
            forall|es: Seq<HistoryEntry>|
                history_layout(d@, es) ==> forall|j: int| 0 <= j < i ==> #[trigger] entries@[j] == es[j],
        decreases count - i,
    {
        let at: usize = 12 + 74 * i;
        proof {
            assert forall|es: Seq<HistoryEntry>| history_layout(d@, es) implies entry_at(
                d@,
                at as int,
                es[i as int],
            ) by {
                assert(0 <= i < es.len());
            }
        }
        let admin = match key_at(d, at) {
            Some(k) => k,
            None => {
                return None;
            },
        };
        let authority = match key_at(d, at + 32) {
            Some(k) => k,
            None => {
                return None;
            },
        };
        let added = match read_flag(d, at + 64) {
            Some(b) => b,
            None => {
                return None;
            },
        };
        let is_read = match read_flag(d, at + 65) {
            Some(b) => b,
            None => {
                return None;
            },
        };
        let timestamp = match read_i64(d, at + 66) {
            Some(t) => t,
            None => {
                return None;
            },
        };
        let e = HistoryEntry { admin, authority, added, is_read, timestamp };
        proof {
            assert forall|es: Seq<HistoryEntry>| history_layout(d@, es) implies e == es[i as int] by {
                let f = es[i as int];
                assert(entry_at(d@, at as int, f));
                assert(admin@ == f.admin@);
                assert(authority@ == f.authority@);
                assert(admin.bytes@ =~= f.admin.bytes@);
                assert(authority.bytes@ =~= f.authority.bytes@);
                assert(admin.bytes == f.admin.bytes);
                assert(authority.bytes == f.authority.bytes);
            }
        }
        entries.push(e);
        i = i + 1;
    }
    proof {
        assert forall|es: Seq<HistoryEntry>| history_layout(d@, es) implies entries@ == es by {
            assert(entries@ =~= es);
        }
    }
    Some(AuthorityHistory { entries })
}

} // verus!
