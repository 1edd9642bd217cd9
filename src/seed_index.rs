use vstd::prelude::*;
use crate::address::{patient_address, patient_address_of};
use crate::error::AppError;
use crate::key::Key;

verus! {

/// The mapping that a list of (address, seed) entries denotes; a later entry
/// for the same address wins.
pub open spec fn entries_map(s: Seq<(Key, Key)>) -> Map<Seq<u8>, Seq<u8>>
    decreases s.len(),
{
    if s.len() == 0 {
        Map::empty()
    } else {
        entries_map(s.drop_last()).insert(s.last().0@, s.last().1@)
    }
}

/// The entry's address is the patient address derived from its seed.
pub open spec fn derived_entry(program: Seq<u8>, admin: Seq<u8>, e: (Key, Key)) -> bool {
    patient_address_of(program, admin, e.1@) == Some(e.0@)
}

/// The mapping rebuilt from a snapshot: the entries whose address re-derives
/// from their seed, in order.
pub open spec fn restored(program: Seq<u8>, admin: Seq<u8>, s: Seq<(Key, Key)>) -> Map<
    Seq<u8>,
    Seq<u8>,
>
    decreases s.len(),
{
    if s.len() == 0 {
        Map::empty()
    } else if derived_entry(program, admin, s.last()) {
        restored(program, admin, s.drop_last()).insert(s.last().0@, s.last().1@)
    } else {
        restored(program, admin, s.drop_last())
    }
}

/// No address occurs twice.
pub open spec fn unique_addresses(s: Seq<(Key, Key)>) -> bool {
    forall|i: int, j: int| 0 <= i < s.len() && 0 <= j < s.len() && i != j ==> s[i].0@ != s[j].0@
}

proof fn lemma_entries_map_lookup(s: Seq<(Key, Key)>, a: Seq<u8>)
    requires
        unique_addresses(s),
    ensures
        entries_map(s).contains_key(a) <==> exists|i: int| 0 <= i < s.len() && s[i].0@ == a,
        forall|i: int| 0 <= i < s.len() && s[i].0@ == a ==> entries_map(s)[a] == s[i].1@,
    decreases s.len(),
{
    if s.len() > 0 {
        let t = s.drop_last();
        assert(unique_addresses(t));
        lemma_entries_map_lookup(t, a);
        if entries_map(s).contains_key(a) && s.last().0@ != a {
            let i = choose|i: int| 0 <= i < t.len() && t[i].0@ == a;
            assert(s[i].0@ == a);
        }
        if exists|i: int| 0 <= i < s.len() && s[i].0@ == a {
            let i = choose|i: int| 0 <= i < s.len() && s[i].0@ == a;
            if i < s.len() - 1 {
                assert(t[i].0@ == a);
            }
        }
        assert forall|i: int| 0 <= i < s.len() && s[i].0@ == a implies entries_map(s)[a]
            == s[i].1@ by {
            if i < s.len() - 1 {
                assert(t[i] == s[i]);
                assert(s.last().0@ != a);
            }
        }
    }
}

proof fn lemma_entries_map_update(s: Seq<(Key, Key)>, i: int, e: (Key, Key))
    requires
        unique_addresses(s),
        0 <= i < s.len(),
        s[i].0@ == e.0@,
    ensures
        entries_map(s.update(i, e)) == entries_map(s).insert(e.0@, e.1@),
        unique_addresses(s.update(i, e)),
    decreases s.len(),
{
    let u = s.update(i, e);
    assert(unique_addresses(u)) by {
        assert forall|a: int, b: int| 0 <= a < u.len() && 0 <= b < u.len() && a != b implies u[a].0@
            != u[b].0@ by {
            assert(u[a].0@ == s[a].0@);
            assert(u[b].0@ == s[b].0@);
        }
    }
    if i == s.len() - 1 {
        assert(u.drop_last() =~= s.drop_last());
        assert(!entries_map(s.drop_last()).contains_key(e.0@)) by {
            lemma_entries_map_lookup(s.drop_last(), e.0@);
        }
        assert(entries_map(u) =~= entries_map(s).insert(e.0@, e.1@));
    } else {
        let t = s.drop_last();
        assert(unique_addresses(t));
        lemma_entries_map_update(t, i, e);
        assert(u.drop_last() =~= t.update(i, e));
        assert(s.last().0@ != e.0@);
        assert(entries_map(u) =~= entries_map(s).insert(e.0@, e.1@));
    }
}

/// Where every entry re-derives, the restored mapping is the one the entries denote.
proof fn lemma_restored_all_derived(program: Seq<u8>, admin: Seq<u8>, s: Seq<(Key, Key)>)
    requires
        forall|i: int| 0 <= i < s.len() ==> derived_entry(program, admin, #[trigger] s[i]),
    ensures
        restored(program, admin, s) == entries_map(s),
    decreases s.len(),
{
    if s.len() > 0 {
        let t = s.drop_last();
        assert forall|i: int| 0 <= i < t.len() implies derived_entry(program, admin, #[trigger] t[i]) by {
            assert(t[i] == s[i]);
        }
        lemma_restored_all_derived(program, admin, t);
        assert(derived_entry(program, admin, s[s.len() - 1]));
    }
}

/// Which seed derived each patient account: address to seed identity.
/// Every entry's address is the one derived from its seed under the index's
/// program and admin identity.
pub struct SeedIndex {
    program_id: Key,
    admin: Key,
    entries: Vec<(Key, Key)>,
}

impl SeedIndex {
    pub closed spec fn view(&self) -> Map<Seq<u8>, Seq<u8>> {
        entries_map(self.entries@)
    }

    pub closed spec fn program_spec(&self) -> Seq<u8> {
        self.program_id@
    }

    pub closed spec fn admin_spec(&self) -> Seq<u8> {
        self.admin@
    }

    pub closed spec fn wf(&self) -> bool {
        &&& unique_addresses(self.entries@)
        &&& forall|i: int|
            0 <= i < self.entries@.len() ==> derived_entry(
                self.program_id@,
                self.admin@,
                #[trigger] self.entries@[i],
            )
    }

    /// Every recorded address is the patient address derived from its seed.
    pub proof fn law_recorded_addresses_derive(&self, address: Seq<u8>)
        requires
            self.wf(),
            self@.contains_key(address),
        ensures
            patient_address_of(self.program_spec(), self.admin_spec(), self@[address]) == Some(
                address,
            ),
    {
        lemma_entries_map_lookup(self.entries@, address);
        let i = choose|i: int| 0 <= i < self.entries@.len() && self.entries@[i].0@ == address;
        assert(derived_entry(self.program_id@, self.admin@, self.entries@[i]));
    }

    pub fn new(program_id: Key, admin: Key) -> (r: SeedIndex)
        ensures
            r.wf(),
            r@ == Map::<Seq<u8>, Seq<u8>>::empty(),
            r.program_spec() == program_id@,
            r.admin_spec() == admin@,
    {
        SeedIndex { program_id, admin, entries: Vec::new() }
    }

    fn position(&self, address: &Key) -> (r: Option<usize>)
        ensures
            match r {
                Some(i) => i < self.entries@.len() && self.entries@[i as int].0@ == address@,
                None => forall|j: int|
                    0 <= j < self.entries@.len() ==> self.entries@[j].0@ != address@,
            },
    {
        let mut i: usize = 0;
        while i < self.entries.len()
            invariant
                0 <= i <= self.entries@.len(),
                forall|j: int| 0 <= j < i ==> self.entries@[j].0@ != address@,
            decreases self.entries@.len() - i,
        {
            if self.entries[i].0.same(address) {
                return Some(i);
            }
            i = i + 1;
        }
        None
    }

    /// The seed recorded for `address`.
    pub fn lookup(&self, address: &Key) -> (r: Option<Key>)
        requires
            self.wf(),
        ensures
            r.is_some() == self@.contains_key(address@),
            r matches Some(seed) ==> self@[address@] == seed@,
    {
        proof {
            lemma_entries_map_lookup(self.entries@, address@);
        }
        match self.position(address) {
            Some(i) => Some(self.entries[i].1),
            None => None,
        }
    }

    /// Records an entry whose address derives from its seed.
    fn put(&mut self, address: Key, seed: Key)
        requires
            old(self).wf(),
            derived_entry(old(self).program_spec(), old(self).admin_spec(), (address, seed)),
        ensures
            final(self).wf(),
            final(self)@ == old(self)@.insert(address@, seed@),
            final(self).program_spec() == old(self).program_spec(),
            final(self).admin_spec() == old(self).admin_spec(),
    {
        match self.position(&address) {
            Some(i) => {
                proof {
                    lemma_entries_map_update(self.entries@, i as int, (address, seed));
                }
                self.entries.set(i, (address, seed));
            },
            None => {
                let ghost s = self.entries@;
                self.entries.push((address, seed));
                proof {
                    assert(self.entries@.drop_last() =~= s);
                    assert forall|a: int, b: int|
                        0 <= a < self.entries@.len() && 0 <= b < self.entries@.len() && a != b
                            implies self.entries@[a].0@ != self.entries@[b].0@ by {
                        if a < s.len() && b < s.len() {
                            assert(self.entries@[a] == s[a]);
                            assert(self.entries@[b] == s[b]);
                        }
                    }
                }
            },
        }
        assert forall|i: int| 0 <= i < self.entries@.len() implies derived_entry(
            self.program_id@,
            self.admin@,
            #[trigger] self.entries@[i],
        ) by {
            if self.entries@[i] != (address, seed) {
                assert(exists|j: int| 0 <= j < old(self).entries@.len() && old(self).entries@[j] == self.entries@[i]);
            }
        }
    }

    /// Records the seed of a newly created patient account and returns the
    /// account's address, derived from the seed. Fails only where no address
    /// can be derived.
    pub fn record(&mut self, seed: &Key) -> (r: Result<Key, AppError>)
        requires
            old(self).wf(),
        ensures
            final(self).wf(),
            final(self).program_spec() == old(self).program_spec(),
            final(self).admin_spec() == old(self).admin_spec(),
            r is Ok <==> patient_address_of(
                old(self).program_spec(),
                old(self).admin_spec(),
                seed@,
            ).is_some(),
            r matches Ok(address) ==> patient_address_of(
                old(self).program_spec(),
                old(self).admin_spec(),
                seed@,
            ) == Some(address@) && final(self)@ == old(self)@.insert(address@, seed@),
            r is Err ==> final(self)@ == old(self)@,
    {
        match patient_address(&self.program_id, &self.admin, seed) {
            Some(address) => {
                self.put(address, *seed);
                Ok(address)
            },
            None => Err(AppError::InternalServerError("No viable patient address".to_owned())),
        }
    }

    /// The entries, for a snapshot; every one re-derives from its seed.
    pub fn snapshot(&self) -> (r: Vec<(Key, Key)>)
        requires
            self.wf(),
        ensures
            entries_map(r@) == self@,
            forall|i: int|
                0 <= i < r@.len() ==> derived_entry(
                    self.program_spec(),
                    self.admin_spec(),
                    #[trigger] r@[i],
                ),
    {
        let mut out: Vec<(Key, Key)> = Vec::new();
        let mut i: usize = 0;
        while i < self.entries.len()
            invariant
                0 <= i <= self.entries@.len(),
                out@ == self.entries@.subrange(0, i as int),
            decreases self.entries@.len() - i,
        {
            out.push(self.entries[i]);
            i = i + 1;
            assert(out@ =~= self.entries@.subrange(0, i as int));
        }
        assert(out@ =~= self.entries@);
        out
    }

    /// Rebuilds an index from a snapshot, keeping the entries whose address
    /// re-derives from their seed.
    pub fn restore(program_id: Key, admin: Key, pairs: &Vec<(Key, Key)>) -> (r: SeedIndex)
        ensures
            r.wf(),
            r.program_spec() == program_id@,
            r.admin_spec() == admin@,
            r@ == restored(program_id@, admin@, pairs@),
    {
        let mut index = SeedIndex::new(program_id, admin);
        let mut i: usize = 0;
        while i < pairs.len()
            invariant
                0 <= i <= pairs@.len(),
                index.wf(),
                index.program_spec() == program_id@,
                index.admin_spec() == admin@,
                index@ == restored(program_id@, admin@, pairs@.subrange(0, i as int)),
            decreases pairs@.len() - i,
        {
            let (address, seed) = pairs[i];
            let ghost sub = pairs@.subrange(0, i as int + 1);
            assert(sub.drop_last() =~= pairs@.subrange(0, i as int));
            assert(sub.last() == (address, seed));
            match patient_address(&program_id, &admin, &seed) {
                Some(derived) => {
                    if derived.same(&address) {
                        index.put(address, seed);
                    }
                },
                None => {},
            }
            i = i + 1;
        }
        assert(pairs@.subrange(0, pairs@.len() as int) =~= pairs@);
        index
    }
}

/// Reloading an index from its own snapshot yields the identical mapping.
pub proof fn law_snapshot_round_trip(index: SeedIndex, snapshot: Seq<(Key, Key)>)
    requires
        index.wf(),
        entries_map(snapshot) == index@,
        forall|i: int|
            0 <= i < snapshot.len() ==> derived_entry(
                index.program_spec(),
                index.admin_spec(),
                #[trigger] snapshot[i],
            ),
    ensures
        restored(index.program_spec(), index.admin_spec(), snapshot) == index@,
{
    lemma_restored_all_derived(index.program_spec(), index.admin_spec(), snapshot);
}

} // verus!
