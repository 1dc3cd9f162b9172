//! The key-value state that effects are committed to: keys are access paths,
//! values are canonical blobs.
use vstd::prelude::*;
use crate::access_path::AccessPath;
use crate::codec::AccountAddress;

verus! {

/// An access path as the account number and the path bytes.
pub type StoreKey = (u128, Seq<u8>);

pub open spec fn key_of(ap: AccessPath) -> StoreKey {
    (ap.address.0, ap.path@)
}

/// Whether two byte strings are equal.
pub fn bytes_eq(a: &[u8], b: &[u8]) -> (r: bool)
    ensures
        r == (a@ == b@),
{
    if a.len() != b.len() {
        return false;
    }
    let mut i: usize = 0;
    while i < a.len()
        invariant
            i <= a@.len(),
            a@.len() == b@.len(),
            a@.take(i as int) == b@.take(i as int),
        decreases a@.len() - i,
    {
        if a[i] != b[i] {
            return false;
        }
        assert(a@.take(i + 1) =~= a@.take(i as int).push(a@[i as int]));
        assert(b@.take(i + 1) =~= b@.take(i as int).push(b@[i as int]));
        i = i + 1;
    }
    assert(a@.take(i as int) =~= a@);
    assert(b@.take(i as int) =~= b@);
    true
}

struct StoreEntry {
    address: AccountAddress,
    path: Vec<u8>,
    value: Option<Vec<u8>>,
}

spec fn entry_key(e: StoreEntry) -> StoreKey {
    (e.address.0, e.path@)
}

/// An in-memory store; the last insert for a key wins and a removal forgets
/// the key.
pub struct StateStore {
    entries: Vec<StoreEntry>,
    model: Ghost<Map<StoreKey, Seq<u8>>>,
}

impl View for StateStore {
    type V = Map<StoreKey, Seq<u8>>;

    closed spec fn view(&self) -> Map<StoreKey, Seq<u8>> {
        self.model@
    }
}

impl StateStore {
    pub closed spec fn wf(&self) -> bool {
        &&& forall|i: int|
            0 <= i < self.entries@.len() ==> match (#[trigger] self.entries@[i]).value {
                Some(v) => self.model@.contains_key(entry_key(self.entries@[i]))
                    && self.model@[entry_key(self.entries@[i])] == v@,
                None => !self.model@.contains_key(entry_key(self.entries@[i])),
            }
        &&& forall|k: StoreKey|
            #[trigger] self.model@.contains_key(k) ==> exists|i: int|
                0 <= i < self.entries@.len() && entry_key(#[trigger] self.entries@[i]) == k
        &&& forall|i: int, j: int|
            0 <= i < j < self.entries@.len() ==> entry_key(#[trigger] self.entries@[i])
                != entry_key(#[trigger] self.entries@[j])
    }

    /// An empty store.
    pub fn new() -> (r: StateStore)
        ensures
            r.wf(),
            r@ == Map::<StoreKey, Seq<u8>>::empty(),
    {
        StateStore { entries: Vec::new(), model: Ghost(Map::empty()) }
    }

    fn find(&self, ap: &AccessPath) -> (r: Option<usize>)
        requires
            self.wf(),
        ensures
            r matches Some(i) ==> i < self.entries@.len() && entry_key(self.entries@[i as int])
                == key_of(*ap),
            r is None ==> !self@.contains_key(key_of(*ap)) && forall|j: int|
                0 <= j < self.entries@.len() ==> entry_key(#[trigger] self.entries@[j]) != key_of(*ap),
    {
        let mut i: usize = 0;
        while i < self.entries.len()
            invariant
                i <= self.entries@.len(),
                self.wf(),
                forall|j: int| 0 <= j < i ==> entry_key(#[trigger] self.entries@[j]) != key_of(*ap),
            decreases self.entries@.len() - i,
        {
            if self.entries[i].address == ap.address && bytes_eq(
                self.entries[i].path.as_slice(),
                ap.path.as_slice(),
            ) {
                return Some(i);
            }
            i = i + 1;
        }
        None
    }

    /// The blob stored under `ap`, if any.
    pub fn get(&self, ap: &AccessPath) -> (r: Option<Vec<u8>>)
        requires
            self.wf(),
        ensures
            self@.contains_key(key_of(*ap)) <==> r is Some,
            r matches Some(v) ==> v@ == self@[key_of(*ap)],
    {
        match self.find(ap) {
            Some(i) => match &self.entries[i].value {
                Some(v) => Some(v.clone()),
                None => None,
            },
            None => None,
        }
    }

    fn put(&mut self, ap: AccessPath, value: Option<Vec<u8>>)
        requires
            old(self).wf(),
        ensures
            final(self).wf(),
            final(self)@ == (match value {
                Some(v) => old(self)@.insert(key_of(ap), v@),
                None => old(self)@.remove(key_of(ap)),
            }),
    {
        let ghost k = key_of(ap);
        let ghost new_model = match &value {
            Some(v) => old(self)@.insert(k, v@),
            None => old(self)@.remove(k),
        };
        let found = self.find(&ap);
        let entry = StoreEntry { address: ap.address, path: ap.path, value };
        assert(entry_key(entry) == k);
        match found {
            Some(i) => {
                self.entries.set(i, entry);
                self.model = Ghost(new_model);
                assert forall|j: int, l: int|
                    0 <= j < l < self.entries@.len() implies entry_key(#[trigger] self.entries@[j])
                    != entry_key(#[trigger] self.entries@[l]) by {
                    assert(entry_key(old(self).entries@[j]) != entry_key(old(self).entries@[l]));
                }
                assert forall|k2: StoreKey| #[trigger] self.model@.contains_key(k2) implies exists|
                    j: int,
                | 0 <= j < self.entries@.len() && entry_key(#[trigger] self.entries@[j]) == k2 by {
                    if k2 != k {
                        let j = choose|j: int|
                            0 <= j < old(self).entries@.len() && entry_key(
                                #[trigger] old(self).entries@[j],
                            ) == k2;
                        assert(entry_key(self.entries@[j]) == k2);
                    } else {
                        assert(entry_key(self.entries@[i as int]) == k2);
                    }
                }
                assert forall|j: int| 0 <= j < self.entries@.len() implies match (
                #[trigger] self.entries@[j]).value {
                    Some(v) => self.model@.contains_key(entry_key(self.entries@[j]))
                        && self.model@[entry_key(self.entries@[j])] == v@,
                    None => !self.model@.contains_key(entry_key(self.entries@[j])),
                } by {
                    if j != i {
                        assert(entry_key(old(self).entries@[j]) != entry_key(
                            old(self).entries@[i as int],
                        ));
                        assert(old(self).entries@[j] == self.entries@[j]);
                    }
                }
            },
            None => {
                self.entries.push(entry);
                self.model = Ghost(new_model);
                let ghost n = old(self).entries@.len() as int;
                assert forall|j: int, l: int|
                    0 <= j < l < self.entries@.len() implies entry_key(#[trigger] self.entries@[j])
                    != entry_key(#[trigger] self.entries@[l]) by {
                    if l != n {
                        assert(entry_key(old(self).entries@[j]) != entry_key(old(self).entries@[l]));
                    } else {
                        assert(entry_key(old(self).entries@[j]) != k);
                    }
                }
                assert forall|k2: StoreKey| #[trigger] self.model@.contains_key(k2) implies exists|
                    j: int,
                | 0 <= j < self.entries@.len() && entry_key(#[trigger] self.entries@[j]) == k2 by {
                    if k2 != k {
                        let j = choose|j: int|
                            0 <= j < old(self).entries@.len() && entry_key(
                                #[trigger] old(self).entries@[j],
                            ) == k2;
                        assert(entry_key(self.entries@[j]) == k2);
                    } else {
                        assert(entry_key(self.entries@[n]) == k2);
                    }
                }
                assert forall|j: int| 0 <= j < self.entries@.len() implies match (
                #[trigger] self.entries@[j]).value {
                    Some(v) => self.model@.contains_key(entry_key(self.entries@[j]))
                        && self.model@[entry_key(self.entries@[j])] == v@,
                    None => !self.model@.contains_key(entry_key(self.entries@[j])),
                } by {
                    if j != n {
                        assert(entry_key(old(self).entries@[j]) != k);
                        assert(old(self).entries@[j] == self.entries@[j]);
                    }
                }
            },
        }
    }

    /// Stores `blob` under `ap`, replacing what was there.
    pub fn insert(&mut self, ap: AccessPath, blob: Vec<u8>)
        requires
            old(self).wf(),
        ensures
            final(self).wf(),
            final(self)@ == old(self)@.insert(key_of(ap), blob@),
    {
        self.put(ap, Some(blob));
    }

    /// Forgets the key `ap`.
    pub fn remove(&mut self, ap: AccessPath)
        requires
            old(self).wf(),
        ensures
            final(self).wf(),
            final(self)@ == old(self)@.remove(key_of(ap)),
    {
        self.put(ap, None);
    }
}

} // verus!
