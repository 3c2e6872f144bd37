//! An in-memory key-value store over byte strings.
//!
//! The store stands for the persistent state of the ledger. Its view is a
//! finite map from keys to values; a write replaces the value of one key and
//! touches no other.

use vstd::prelude::*;
use vstd::slice::slice_to_vec;

verus! {

/// The mathematical state of a store.
pub type State = Map<Seq<u8>, Seq<u8>>;

struct Entry {
    key: Vec<u8>,
    value: Vec<u8>,
}

/// A key-value store held in memory.
pub struct Store {
    entries: Vec<Entry>,
}

/// The map that a list of entries stands for: where a key occurs more than
/// once, the entry nearest the end decides.
spec fn contents(entries: Seq<Entry>) -> State
    decreases entries.len(),
{
    if entries.len() == 0 {
        Map::empty()
    } else {
        contents(entries.drop_last()).insert(entries.last().key@, entries.last().value@)
    }
}

/// `i` is the position of the last entry for `key`.
spec fn is_last_match(entries: Seq<Entry>, key: Seq<u8>, i: int) -> bool {
    &&& 0 <= i < entries.len()
    &&& entries[i].key@ == key
    &&& forall|j: int| i < j < entries.len() ==> entries[j].key@ != key
}

/// No entry is for `key`.
spec fn no_match(entries: Seq<Entry>, key: Seq<u8>) -> bool {
    forall|j: int| 0 <= j < entries.len() ==> entries[j].key@ != key
}

/// A list of entries stands for a finite map.
proof fn lemma_contents_finite(entries: Seq<Entry>)
    ensures
        contents(entries).dom().finite(),
    decreases entries.len(),
{
    if entries.len() > 0 {
        lemma_contents_finite(entries.drop_last());
    }
}

/// A key for which there is no entry is not in the map.
proof fn lemma_contents_without(entries: Seq<Entry>, key: Seq<u8>)
    requires
        no_match(entries, key),
    ensures
        !contents(entries).contains_key(key),
    decreases entries.len(),
{
    if entries.len() > 0 {
        let front = entries.drop_last();
        assert(entries[entries.len() - 1].key@ != key);
        assert forall|j: int| 0 <= j < front.len() implies front[j].key@ != key by {
            assert(front[j] == entries[j]);
        }
        lemma_contents_without(front, key);
    }
}

/// The map holds, under a key, the value of the last entry for it.
proof fn lemma_contents_at_last_match(entries: Seq<Entry>, key: Seq<u8>, i: int)
    requires
        is_last_match(entries, key, i),
    ensures
        contents(entries).contains_key(key),
        contents(entries)[key] == entries[i].value@,
    decreases entries.len(),
{
    if i < entries.len() - 1 {
        let front = entries.drop_last();
        assert(entries.last().key@ != key);
        assert(is_last_match(front, key, i));
        lemma_contents_at_last_match(front, key, i);
    }
}

/// Replacing the last entry for a key replaces the value under the key.
proof fn lemma_contents_update(entries: Seq<Entry>, i: int, entry: Entry)
    requires
        is_last_match(entries, entry.key@, i),
    ensures
        contents(entries.update(i, entry)) == contents(entries).insert(entry.key@, entry.value@),
    decreases entries.len(),
{
    let front = entries.drop_last();
    let updated = entries.update(i, entry);
    if i == entries.len() - 1 {
        assert(updated.drop_last() =~= front);
        assert(contents(updated) =~= contents(entries).insert(entry.key@, entry.value@));
    } else {
        assert(entries.last().key@ != entry.key@);
        assert(is_last_match(front, entry.key@, i));
        lemma_contents_update(front, i, entry);
        assert(updated.drop_last() =~= front.update(i, entry));
        assert(updated.last() == entries.last());
        assert(contents(updated) =~= contents(entries).insert(entry.key@, entry.value@));
    }
}

/// Whether two byte strings are equal.
pub fn bytes_equal(a: &[u8], b: &[u8]) -> (same: bool)
    ensures
        same == (a@ == b@),
{
    if a.len() != b.len() {
        return false;
    }
    let mut i: usize = 0;
    while i < a.len()
        invariant
            a@.len() == b@.len(),
            i <= a@.len(),
            forall|j: int| 0 <= j < i ==> a@[j] == b@[j],
        decreases a@.len() - i,
    {
        if a[i] != b[i] {
            return false;
        }
        i += 1;
    }
    assert(a@ =~= b@);
    true
}

impl View for Store {
    type V = State;

    closed spec fn view(&self) -> State {
        contents(self.entries@)
    }
}

impl Store {
    /// A store that holds nothing.
    pub fn new() -> (store: Store)
        ensures
            store@ == State::empty(),
    {
        Store { entries: Vec::new() }
    }

    /// A store holds finitely many keys.
    pub proof fn lemma_finite(&self)
        ensures
            self@.dom().finite(),
    {
        lemma_contents_finite(self.entries@);
    }

    /// The position of the last entry for `key`, if there is one.
    fn find(&self, key: &[u8]) -> (found: Option<usize>)
        ensures
            match found {
                Some(i) => is_last_match(self.entries@, key@, i as int),
                None => no_match(self.entries@, key@),
            },
    {
        let mut i: usize = self.entries.len();
        while i > 0
            invariant
                i <= self.entries@.len(),
                forall|j: int| i <= j < self.entries@.len() ==> self.entries@[j].key@ != key@,
            decreases i,
        {
            i -= 1;
            if bytes_equal(self.entries[i].key.as_slice(), key) {
                return Some(i);
            }
        }
        None
    }

    /// The value stored under `key`, or `None` where the key was never
    /// written.
    pub fn read(&self, key: &[u8]) -> (value: Option<&Vec<u8>>)
        ensures
            match value {
                Some(v) => self@.contains_key(key@) && v@ == self@[key@],
                None => !self@.contains_key(key@),
            },
    {
        match self.find(key) {
            Some(i) => {
                proof {
                    lemma_contents_at_last_match(self.entries@, key@, i as int);
                }
                Some(&self.entries[i].value)
            },
            None => {
                proof {
                    lemma_contents_without(self.entries@, key@);
                }
                None
            },
        }
    }

    /// Stores `value` under `key`, replacing what was there. No other key
    /// changes.
    pub fn write(&mut self, key: &[u8], value: &[u8])
        ensures
            final(self)@ == old(self)@.insert(key@, value@),
    {
        let entry = Entry { key: slice_to_vec(key), value: slice_to_vec(value) };
        match self.find(key) {
            Some(i) => {
                proof {
                    lemma_contents_update(self.entries@, i as int, entry);
                }
                self.entries.set(i, entry);
            },
            None => {
                assert(self.entries@.push(entry).drop_last() =~= self.entries@);
                self.entries.push(entry);
            },
        }
    }
}

} // verus!
