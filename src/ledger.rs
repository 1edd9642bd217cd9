use vstd::prelude::*;
use crate::key::{Key, zero_key, sha256, sha256_of, same_bytes32};

verus! {

/// Most identities that each authority list can hold.
pub const MAX_AUTHORITIES: usize = 50;

/// Most entries that an authority history keeps; the oldest is evicted first.
pub const MAX_HISTORY: usize = 100;

/// Most bytes of encrypted record text that a patient account can hold.
pub const MAX_RECORD_LEN: usize = 500;

/// Errors of the ledger program's instructions.
#[derive(Clone, Copy, Debug, PartialEq, Eq, Structural)]
pub enum ErrorCode {
    Unauthorized,
    PatientAlreadyExists,
    PatientDoesNotExist,
    DataIntegrityFailed,
    CapacityExceeded,
}

/// One logged change of an authority list.
#[derive(Clone, Copy, Debug)]
pub struct HistoryEntry {
    pub admin: Key,
    pub authority: Key,
    pub added: bool,
    pub is_read: bool,
    pub timestamp: i64,
}

/// The deployment's admin account: the root identity and the two authority lists.
#[derive(Clone, Debug)]
pub struct Admin {
    pub authority: Key,
    pub read_authorities: Vec<Key>,
    pub write_authorities: Vec<Key>,
}

/// The append-only (oldest-evicting) log of authority-list changes.
#[derive(Clone, Debug)]
pub struct AuthorityHistory {
    pub entries: Vec<HistoryEntry>,
}

/// One patient record: its own address, the encrypted record text (as its
/// UTF-8 bytes) and the SHA-256 digest of that text.
#[derive(Clone, Debug)]
pub struct Patient {
    pub patient_address: Key,
    pub is_initialized: bool,
    pub encrypted_data: Vec<u8>,
    pub data_hash: [u8; 32],
}

/// The views of a sequence of keys.
pub open spec fn keys_view(v: Seq<Key>) -> Seq<Seq<u8>> {
    v.map_values(|k: Key| k@)
}

/// No identity occurs twice.
pub open spec fn no_duplicates(s: Seq<Seq<u8>>) -> bool {
    forall|i: int, j: int| 0 <= i < s.len() && 0 <= j < s.len() && i != j ==> s[i] != s[j]
}

/// The list after adding `x`: unchanged if `x` is there already, else `x` appended.
pub open spec fn insert_key(s: Seq<Seq<u8>>, x: Seq<u8>) -> Seq<Seq<u8>> {
    if s.contains(x) {
        s
    } else {
        s.push(x)
    }
}

/// The list after removing `x` by swap-remove: the last entry takes the place
/// of `x`, so the order of the others is not kept. Unchanged if `x` is absent.
pub open spec fn remove_key(s: Seq<Seq<u8>>, x: Seq<u8>) -> Seq<Seq<u8>> {
    if s.contains(x) {
        let i = choose|i: int| 0 <= i < s.len() && s[i] == x;
        s.update(i, s.last()).drop_last()
    } else {
        s
    }
}

/// The history after logging `e`: appended, and the oldest entry evicted when full.
pub open spec fn log_entry(h: Seq<HistoryEntry>, e: HistoryEntry) -> Seq<HistoryEntry> {
    if h.len() < MAX_HISTORY {
        h.push(e)
    } else {
        h.subrange(1, h.len() as int).push(e)
    }
}

impl Admin {
    pub open spec fn reads(&self) -> Seq<Seq<u8>> {
        keys_view(self.read_authorities@)
    }

    pub open spec fn writes(&self) -> Seq<Seq<u8>> {
        keys_view(self.write_authorities@)
    }

    /// The read list when `is_read`, else the write list.
    pub open spec fn list(&self, is_read: bool) -> Seq<Seq<u8>> {
        if is_read {
            self.reads()
        } else {
            self.writes()
        }
    }

    /// Both lists hold each identity at most once and stay within capacity.
    pub open spec fn wf(&self) -> bool {
        &&& no_duplicates(self.reads())
        &&& no_duplicates(self.writes())
        &&& self.read_authorities.len() <= MAX_AUTHORITIES
        &&& self.write_authorities.len() <= MAX_AUTHORITIES
    }

    /// An admin account that was never initialized: zero authority, empty lists.
    pub fn new() -> (r: Admin)
        ensures
            r.wf(),
            r.authority@ == zero_key(),
            r.reads().len() == 0,
            r.writes().len() == 0,
    {
        Admin { authority: Key::zero(), read_authorities: Vec::new(), write_authorities: Vec::new() }
    }

    /// Whether `who` is a read authority.
    pub fn has_read_authority(&self, who: &Key) -> (r: bool)
        ensures
            r == self.reads().contains(who@),
    {
        position(&self.read_authorities, who).is_some()
    }

    /// Whether `who` is a write authority.
    pub fn has_write_authority(&self, who: &Key) -> (r: bool)
        ensures
            r == self.writes().contains(who@),
    {
        position(&self.write_authorities, who).is_some()
    }
}

impl AuthorityHistory {
    pub open spec fn view(&self) -> Seq<HistoryEntry> {
        self.entries@
    }

    pub open spec fn wf(&self) -> bool {
        self.entries.len() <= MAX_HISTORY
    }

    /// A history account as it is created on first use: empty.
    pub fn new() -> (r: AuthorityHistory)
        ensures
            r.wf(),
            r@.len() == 0,
    {
        AuthorityHistory { entries: Vec::new() }
    }

    /// Logs one entry, evicting the oldest when the history is full.
    pub fn add_entry(
        &mut self,
        admin: Key,
        authority: Key,
        added: bool,
        is_read: bool,
        timestamp: i64,
    )
        requires
            old(self).wf(),
        ensures
            final(self).wf(),
            final(self)@ == log_entry(
                old(self)@,
                HistoryEntry { admin, authority, added, is_read, timestamp },
            ),
    {
        if self.entries.len() >= MAX_HISTORY {
            self.entries.remove(0);
        }
        self.entries.push(HistoryEntry { admin, authority, added, is_read, timestamp });
        proof {
            let e = HistoryEntry { admin, authority, added, is_read, timestamp };
            assert(self@ =~= log_entry(old(self)@, e));
        }
    }
}

impl Patient {
    /// A patient account that does not exist yet.
    pub fn empty() -> (r: Patient)
        ensures
            !r.is_initialized,
            r.encrypted_data@.len() == 0,
    {
        Patient {
            patient_address: Key::zero(),
            is_initialized: false,
            encrypted_data: Vec::new(),
            data_hash: [0u8; 32],
        }
    }
}

/// The first index at which `x` stands in `list`, if any.
pub fn position(list: &Vec<Key>, x: &Key) -> (r: Option<usize>)
    ensures
        match r {
            Some(i) => i < list.len() && list@[i as int]@ == x@ && forall|j: int|
                0 <= j < i ==> list@[j]@ != x@,
            None => !keys_view(list@).contains(x@),
        },
        r.is_some() == keys_view(list@).contains(x@),
{
    let mut i: usize = 0;
    while i < list.len()
        invariant
            0 <= i <= list.len(),
            forall|j: int| 0 <= j < i ==> list@[j]@ != x@,
        decreases list.len() - i,
    {
        if list[i].same(x) {
            assert(keys_view(list@)[i as int] == x@);
            return Some(i);
        }
        i = i + 1;
    }
    proof {
        if keys_view(list@).contains(x@) {
            let k = choose|k: int| 0 <= k < keys_view(list@).len() && keys_view(list@)[k] == x@;
            assert(list@[k]@ == x@);
        }
    }
    None
}

/// Outcome of `initialize` for `signer` on an admin account.
pub open spec fn initialize_outcome(admin: Admin, signer: Seq<u8>) -> Result<(), ErrorCode> {
    if admin.authority@ == zero_key() || admin.authority@ == signer {
        Ok(())
    } else {
        Err(ErrorCode::Unauthorized)
    }
}

/// Outcome of adding `x` to one authority list.
pub open spec fn add_outcome(admin: Admin, signer: Seq<u8>, x: Seq<u8>, is_read: bool) -> Result<
    (),
    ErrorCode,
> {
    if admin.authority@ != signer {
        Err(ErrorCode::Unauthorized)
    } else if !admin.list(is_read).contains(x) && admin.list(is_read).len() >= MAX_AUTHORITIES {
        Err(ErrorCode::CapacityExceeded)
    } else {
        Ok(())
    }
}

/// Outcome of removing from one authority list.
pub open spec fn remove_outcome(admin: Admin, signer: Seq<u8>) -> Result<(), ErrorCode> {
    if admin.authority@ != signer {
        Err(ErrorCode::Unauthorized)
    } else {
        Ok(())
    }
}

/// First caller becomes the authority and the sole read and write authority;
/// the same caller may run it again with no effect; anyone else is refused.
pub fn initialize(admin: &mut Admin, signer: &Key) -> (r: Result<(), ErrorCode>)
    requires
        old(admin).wf(),
    ensures
        r == initialize_outcome(*old(admin), signer@),
        final(admin).wf(),
        old(admin).authority@ == zero_key() ==> {
            &&& final(admin).authority@ == signer@
            &&& final(admin).reads() == seq![signer@]
            &&& final(admin).writes() == seq![signer@]
        },
        old(admin).authority@ != zero_key() ==> *final(admin) == *old(admin),
{
    let zero = Key::zero();
    if admin.authority.same(&zero) {
        admin.authority = *signer;
        admin.read_authorities = vec![*signer];
        admin.write_authorities = vec![*signer];
        assert(admin.reads() =~= seq![signer@]);
        assert(admin.writes() =~= seq![signer@]);
        Ok(())
    } else if !admin.authority.same(signer) {
        Err(ErrorCode::Unauthorized)
    } else {
        Ok(())
    }
}

proof fn lemma_push_unique(s: Seq<Key>, k: Key)
    requires
        no_duplicates(keys_view(s)),
        !keys_view(s).contains(k@),
    ensures
        keys_view(s.push(k)) == keys_view(s).push(k@),
        no_duplicates(keys_view(s.push(k))),
{
    assert(keys_view(s.push(k)) =~= keys_view(s).push(k@));
    let t = keys_view(s).push(k@);
    assert forall|i: int, j: int| 0 <= i < t.len() && 0 <= j < t.len() && i != j implies t[i]
        != t[j] by {
        if i == s.len() as int {
            assert(keys_view(s)[j] == t[j]);
        } else if j == s.len() as int {
            assert(keys_view(s)[i] == t[i]);
        }
    }
}

proof fn lemma_swap_remove_unique(s: Seq<Key>, i: int)
    requires
        no_duplicates(keys_view(s)),
        0 <= i < s.len(),
    ensures
        keys_view(s.update(i, s.last()).drop_last()) == remove_key(keys_view(s), s[i]@),
        no_duplicates(keys_view(s.update(i, s.last()).drop_last())),
        !keys_view(s.update(i, s.last()).drop_last()).contains(s[i]@),
{
    let v = keys_view(s);
    let x = s[i]@;
    assert(v[i] == x);
    assert(v.contains(x));
    let c = choose|c: int| 0 <= c < v.len() && v[c] == x;
    assert(c == i);
    let t = s.update(i, s.last()).drop_last();
    assert(keys_view(t) =~= v.update(i, v.last()).drop_last());
    let w = keys_view(t);
    assert forall|a: int, b: int| 0 <= a < w.len() && 0 <= b < w.len() && a != b implies w[a]
        != w[b] by {
        let ia = if a == i { v.len() - 1 } else { a };
        let ib = if b == i { v.len() - 1 } else { b };
        assert(w[a] == v[ia]);
        assert(w[b] == v[ib]);
    }
    assert forall|a: int| 0 <= a < w.len() implies w[a] != x by {
        let ia = if a == i { v.len() - 1 } else { a };
        assert(w[a] == v[ia]);
    }
}

/// Adds `x` to the read list (`is_read`) or the write list, logging the change.
fn add_authority(
    admin: &mut Admin,
    history: &mut AuthorityHistory,
    signer: &Key,
    x: &Key,
    is_read: bool,
    timestamp: i64,
) -> (r: Result<(), ErrorCode>)
    requires
        old(admin).wf(),
        old(history).wf(),
    ensures
        r == add_outcome(*old(admin), signer@, x@, is_read),
        final(admin).wf(),
        final(history).wf(),
        final(admin).authority == old(admin).authority,
        final(admin).list(!is_read) == old(admin).list(!is_read),
        final(admin).list(is_read) == if r is Ok {
            insert_key(old(admin).list(is_read), x@)
        } else {
            old(admin).list(is_read)
        },
        final(history)@ == if r is Ok && !old(admin).list(is_read).contains(x@) {
            log_entry(
                old(history)@,
                HistoryEntry {
                    admin: *signer,
                    authority: *x,
                    added: true,
                    is_read: is_read,
                    timestamp: timestamp,
                },
            )
        } else {
            old(history)@
        },
{
    if !admin.authority.same(signer) {
        return Err(ErrorCode::Unauthorized);
    }
    let found = if is_read {
        position(&admin.read_authorities, x)
    } else {
        position(&admin.write_authorities, x)
    };
    if found.is_some() {
        proof {
            let i = found.unwrap() as int;
            if is_read {
                assert(admin.reads()[i] == x@);
            } else {
                assert(admin.writes()[i] == x@);
            }
        }
        return Ok(());
    }
    if is_read {
        if admin.read_authorities.len() >= MAX_AUTHORITIES {
            return Err(ErrorCode::CapacityExceeded);
        }
        proof {
            lemma_push_unique(admin.read_authorities@, *x);
        }
        admin.read_authorities.push(*x);
    } else {
        if admin.write_authorities.len() >= MAX_AUTHORITIES {
            return Err(ErrorCode::CapacityExceeded);
        }
        proof {
            lemma_push_unique(admin.write_authorities@, *x);
        }
        admin.write_authorities.push(*x);
    }
    history.add_entry(*signer, *x, true, is_read, timestamp);
    Ok(())
}

/// Removes `x` from the read list (`is_read`) or the write list by swap-remove,
/// logging the change. Removing an absent identity changes nothing and logs nothing.
fn remove_authority(
    admin: &mut Admin,
    history: &mut AuthorityHistory,
    signer: &Key,
    x: &Key,
    is_read: bool,
    timestamp: i64,
) -> (r: Result<(), ErrorCode>)
    requires
        old(admin).wf(),
        old(history).wf(),
    ensures
        r == remove_outcome(*old(admin), signer@),
        final(admin).wf(),
        final(history).wf(),
        final(admin).authority == old(admin).authority,
        final(admin).list(!is_read) == old(admin).list(!is_read),
        final(admin).list(is_read) == if r is Ok {
            remove_key(old(admin).list(is_read), x@)
        } else {
            old(admin).list(is_read)
        },
        r is Ok ==> !final(admin).list(is_read).contains(x@),
        final(history)@ == if r is Ok && old(admin).list(is_read).contains(x@) {
            log_entry(
                old(history)@,
                HistoryEntry {
                    admin: *signer,
                    authority: *x,
                    added: false,
                    is_read: is_read,
                    timestamp: timestamp,
                },
            )
        } else {
            old(history)@
        },
{
    if !admin.authority.same(signer) {
        return Err(ErrorCode::Unauthorized);
    }
    let found = if is_read {
        position(&admin.read_authorities, x)
    } else {
        position(&admin.write_authorities, x)
    };
    match found {
        None => Ok(()),
        Some(i) => {
            if is_read {
                proof {
                    lemma_swap_remove_unique(admin.read_authorities@, i as int);
                }
                admin.read_authorities.swap_remove(i);
            } else {
                proof {
                    lemma_swap_remove_unique(admin.write_authorities@, i as int);
                }
                admin.write_authorities.swap_remove(i);
            }
            proof {
                if is_read {
                    assert(old(admin).reads()[i as int] == x@);
                } else {
                    assert(old(admin).writes()[i as int] == x@);
                }
            }
            history.add_entry(*signer, *x, false, is_read, timestamp);
            Ok(())
        }
    }
}

/// Adds `new_authority` to the read list; only the authority may do so.
/// Re-adding a present identity changes neither the list nor the history.
pub fn add_read_authority(
    admin: &mut Admin,
    history: &mut AuthorityHistory,
    signer: &Key,
    new_authority: &Key,
    timestamp: i64,
) -> (r: Result<(), ErrorCode>)
    requires
        old(admin).wf(),
        old(history).wf(),
    ensures
        r == add_outcome(*old(admin), signer@, new_authority@, true),
        final(admin).wf(),
        final(history).wf(),
        final(admin).authority == old(admin).authority,
        final(admin).writes() == old(admin).writes(),
        final(admin).reads() == if r is Ok {
            insert_key(old(admin).reads(), new_authority@)
        } else {
            old(admin).reads()
        },
        final(history)@ == if r is Ok && !old(admin).reads().contains(new_authority@) {
            log_entry(
                old(history)@,
                HistoryEntry {
                    admin: *signer,
                    authority: *new_authority,
                    added: true,
                    is_read: true,
                    timestamp: timestamp,
                },
            )
        } else {
            old(history)@
        },
{
    add_authority(admin, history, signer, new_authority, true, timestamp)
}

/// Adds `new_authority` to the write list; only the authority may do so.
/// Re-adding a present identity changes neither the list nor the history.
pub fn add_write_authority(
    admin: &mut Admin,
    history: &mut AuthorityHistory,
    signer: &Key,
    new_authority: &Key,
    timestamp: i64,
) -> (r: Result<(), ErrorCode>)
    requires
        old(admin).wf(),
        old(history).wf(),
    ensures
        r == add_outcome(*old(admin), signer@, new_authority@, false),
        final(admin).wf(),
        final(history).wf(),
        final(admin).authority == old(admin).authority,
        final(admin).reads() == old(admin).reads(),
        final(admin).writes() == if r is Ok {
            insert_key(old(admin).writes(), new_authority@)
        } else {
            old(admin).writes()
        },
        final(history)@ == if r is Ok && !old(admin).writes().contains(new_authority@) {
            log_entry(
                old(history)@,
                HistoryEntry {
                    admin: *signer,
                    authority: *new_authority,
                    added: true,
                    is_read: false,
                    timestamp: timestamp,
                },
            )
        } else {
            old(history)@
        },
{
    add_authority(admin, history, signer, new_authority, false, timestamp)
}

/// Removes `authority_to_remove` from the read list; only the authority may do so.
pub fn remove_read_authority(
    admin: &mut Admin,
    history: &mut AuthorityHistory,
    signer: &Key,
    authority_to_remove: &Key,
    timestamp: i64,
) -> (r: Result<(), ErrorCode>)
    requires
        old(admin).wf(),
        old(history).wf(),
    ensures
        r == remove_outcome(*old(admin), signer@),
        final(admin).wf(),
        final(history).wf(),
        final(admin).authority == old(admin).authority,
        final(admin).writes() == old(admin).writes(),
        final(admin).reads() == if r is Ok {
            remove_key(old(admin).reads(), authority_to_remove@)
        } else {
            old(admin).reads()
        },
        r is Ok ==> !final(admin).reads().contains(authority_to_remove@),
        final(history)@ == if r is Ok && old(admin).reads().contains(authority_to_remove@) {
            log_entry(
                old(history)@,
                HistoryEntry {
                    admin: *signer,
                    authority: *authority_to_remove,
                    added: false,
                    is_read: true,
                    timestamp: timestamp,
                },
            )
        } else {
            old(history)@
        },
{
    remove_authority(admin, history, signer, authority_to_remove, true, timestamp)
}

/// Removes `authority_to_remove` from the write list; only the authority may do so.
pub fn remove_write_authority(
    admin: &mut Admin,
    history: &mut AuthorityHistory,
    signer: &Key,
    authority_to_remove: &Key,
    timestamp: i64,
) -> (r: Result<(), ErrorCode>)
    requires
        old(admin).wf(),
        old(history).wf(),
    ensures
        r == remove_outcome(*old(admin), signer@),
        final(admin).wf(),
        final(history).wf(),
        final(admin).authority == old(admin).authority,
        final(admin).reads() == old(admin).reads(),
        final(admin).writes() == if r is Ok {
            remove_key(old(admin).writes(), authority_to_remove@)
        } else {
            old(admin).writes()
        },
        r is Ok ==> !final(admin).writes().contains(authority_to_remove@),
        final(history)@ == if r is Ok && old(admin).writes().contains(authority_to_remove@) {
            log_entry(
                old(history)@,
                HistoryEntry {
                    admin: *signer,
                    authority: *authority_to_remove,
                    added: false,
                    is_read: false,
                    timestamp: timestamp,
                },
            )
        } else {
            old(history)@
        },
{
    remove_authority(admin, history, signer, authority_to_remove, false, timestamp)
}

/// Outcome of `create_patient` by `signer` on a patient account.
pub open spec fn create_outcome(admin: Admin, patient: Patient, signer: Seq<u8>, data: Seq<u8>) -> Result<
    (),
    ErrorCode,
> {
    if patient.is_initialized {
        Err(ErrorCode::PatientAlreadyExists)
    } else if !admin.writes().contains(signer) {
        Err(ErrorCode::Unauthorized)
    } else if data.len() > MAX_RECORD_LEN {
        Err(ErrorCode::CapacityExceeded)
    } else {
        Ok(())
    }
}

/// Outcome of `update_patient` by `signer` on a patient account.
pub open spec fn update_outcome(admin: Admin, patient: Patient, signer: Seq<u8>, data: Seq<u8>) -> Result<
    (),
    ErrorCode,
> {
    if !patient.is_initialized {
        Err(ErrorCode::PatientDoesNotExist)
    } else if !admin.writes().contains(signer) {
        Err(ErrorCode::Unauthorized)
    } else if data.len() > MAX_RECORD_LEN {
        Err(ErrorCode::CapacityExceeded)
    } else {
        Ok(())
    }
}

/// Outcome of the integrity-checked read of a patient account by `signer`.
pub open spec fn read_outcome(admin: Admin, patient: Patient, signer: Seq<u8>) -> Result<
    (),
    ErrorCode,
> {
    if !patient.is_initialized {
        Err(ErrorCode::PatientDoesNotExist)
    } else if !admin.reads().contains(signer) {
        Err(ErrorCode::Unauthorized)
    } else if sha256_of(patient.encrypted_data@) != patient.data_hash@ {
        Err(ErrorCode::DataIntegrityFailed)
    } else {
        Ok(())
    }
}

/// Creates the patient record at `patient_address`; the caller must be a write
/// authority and the account must not exist yet.
pub fn create_patient(
    admin: &Admin,
    patient: &mut Patient,
    patient_address: &Key,
    signer: &Key,
    encrypted_data: Vec<u8>,
) -> (r: Result<(), ErrorCode>)
    ensures
        r == create_outcome(*admin, *old(patient), signer@, encrypted_data@),
        r is Ok ==> {
            &&& final(patient).patient_address == *patient_address
            &&& final(patient).is_initialized
            &&& final(patient).encrypted_data@ == encrypted_data@
            &&& final(patient).data_hash@ == sha256_of(encrypted_data@)
        },
        r is Err ==> *final(patient) == *old(patient),
{
    if patient.is_initialized {
        return Err(ErrorCode::PatientAlreadyExists);
    }
    if !admin.has_write_authority(signer) {
        return Err(ErrorCode::Unauthorized);
    }
    if encrypted_data.len() > MAX_RECORD_LEN {
        return Err(ErrorCode::CapacityExceeded);
    }
    let digest = sha256(encrypted_data.as_slice());
    patient.patient_address = *patient_address;
    patient.is_initialized = true;
    patient.encrypted_data = encrypted_data;
    patient.data_hash = digest;
    Ok(())
}

/// Replaces the encrypted record text and its digest; the caller must be a
/// write authority and the record must exist.
pub fn update_patient(
    admin: &Admin,
    patient: &mut Patient,
    signer: &Key,
    encrypted_data: Vec<u8>,
) -> (r: Result<(), ErrorCode>)
    ensures
        r == update_outcome(*admin, *old(patient), signer@, encrypted_data@),
        r is Ok ==> {
            &&& final(patient).patient_address == old(patient).patient_address
            &&& final(patient).is_initialized
            &&& final(patient).encrypted_data@ == encrypted_data@
            &&& final(patient).data_hash@ == sha256_of(encrypted_data@)
        },
        r is Err ==> *final(patient) == *old(patient),
{
    if !patient.is_initialized {
        return Err(ErrorCode::PatientDoesNotExist);
    }
    if !admin.has_write_authority(signer) {
        return Err(ErrorCode::Unauthorized);
    }
    if encrypted_data.len() > MAX_RECORD_LEN {
        return Err(ErrorCode::CapacityExceeded);
    }
    let digest = sha256(encrypted_data.as_slice());
    patient.encrypted_data = encrypted_data;
    patient.data_hash = digest;
    Ok(())
}

/// The read-only instruction: the caller must be a read authority, and the
/// digest of the stored text must match the stored digest.
pub fn get_patient(admin: &Admin, patient: &Patient, signer: &Key) -> (r: Result<(), ErrorCode>)
    ensures
        r == read_outcome(*admin, *patient, signer@),
{
    if !patient.is_initialized {
        return Err(ErrorCode::PatientDoesNotExist);
    }
    if !admin.has_read_authority(signer) {
        return Err(ErrorCode::Unauthorized);
    }
    let computed = sha256(patient.encrypted_data.as_slice());
    if !same_bytes32(&computed, &patient.data_hash) {
        return Err(ErrorCode::DataIntegrityFailed);
    }
    Ok(())
}

/// After a successful add of `x` to the read list, `x` passes the read check;
/// after a successful removal of `x`, it fails it.
pub proof fn law_read_authority_add_remove(admin: Admin, signer: Seq<u8>, x: Seq<u8>)
    requires
        admin.wf(),
    ensures
        add_outcome(admin, signer, x, true) is Ok ==> insert_key(admin.reads(), x).contains(x),
        remove_outcome(admin, signer) is Ok ==> !remove_key(admin.reads(), x).contains(x),
{
    if !admin.reads().contains(x) {
        assert(admin.reads().push(x).last() == x);
    }
    if admin.reads().contains(x) {
        let s = admin.reads();
        let i = choose|i: int| 0 <= i < s.len() && s[i] == x;
        let w = s.update(i, s.last()).drop_last();
        assert forall|a: int| 0 <= a < w.len() implies w[a] != x by {
            let ia = if a == i { s.len() - 1 } else { a };
            assert(w[a] == s[ia]);
        }
    }
}

/// Adding an identity that is already present leaves the list as it was, and
/// the history too (no entry is logged for a no-op add).
pub proof fn law_re_add_is_no_op(admin: Admin, signer: Seq<u8>, x: Seq<u8>, is_read: bool)
    requires
        admin.wf(),
        admin.list(is_read).contains(x),
    ensures
        insert_key(admin.list(is_read), x) == admin.list(is_read),
        add_outcome(admin, signer, x, is_read) is Ok <==> admin.authority@ == signer,
{
}

/// A write authority that created a record and is also a read authority reads
/// it back intact: the stored digest matches the stored text.
pub proof fn law_created_record_passes_integrity(
    admin: Admin,
    before: Patient,
    after: Patient,
    signer: Seq<u8>,
    data: Seq<u8>,
)
    requires
        create_outcome(admin, before, signer, data) is Ok,
        after.is_initialized,
        after.encrypted_data@ == data,
        after.data_hash@ == sha256_of(data),
        admin.reads().contains(signer),
    ensures
        read_outcome(admin, after, signer) is Ok,
{
}

} // verus!
