//! A small map from text keys to values, kept as a list of entries whose keys
//! are pairwise distinct.

use vstd::prelude::*;
use crate::text::str_eq;

verus! {

/// The map that a list of (key, value) entries denotes: later entries win.
pub open spec fn map_of<V>(entries: Seq<(Seq<char>, V)>) -> Map<Seq<char>, V>
    decreases entries.len(),
{
    if entries.len() == 0 {
        Map::empty()
    } else {
        map_of(entries.drop_last()).insert(entries.last().0, entries.last().1)
    }
}

/// No key occurs twice among the entries.
pub open spec fn keys_distinct<V>(entries: Seq<(Seq<char>, V)>) -> bool {
    forall|i: int, j: int|
        0 <= i < entries.len() && 0 <= j < entries.len() && i != j ==> #[trigger] entries[i].0
            != #[trigger] entries[j].0
}

/// A map keyed by strings.
#[derive(Debug)]
pub struct StringMap<V> {
    entries: Vec<(String, V)>,
}

impl<V> View for StringMap<V> {
    type V = Map<Seq<char>, V>;

    /// The key/value pairs that the map holds.
    closed spec fn view(&self) -> Map<Seq<char>, V> {
        map_of(self.entry_seq())
    }
}

impl<V> StringMap<V> {
    /// The entries with their keys taken as character sequences.
    pub closed spec fn entry_seq(self) -> Seq<(Seq<char>, V)> {
        self.entries@.map_values(|e: (String, V)| (e.0@, e.1))
    }

    #[verifier::type_invariant]
    closed spec fn wf(self) -> bool {
        keys_distinct(self.entry_seq())
    }

    /// An empty map.
    pub fn new() -> (r: Self)
        ensures
            r.view() == Map::<Seq<char>, V>::empty(),
    {
        let r = StringMap { entries: Vec::new() };
        assert(r.entry_seq() =~= Seq::empty());
        r
    }

    /// Number of keys.
    pub fn len(&self) -> (n: usize)
        ensures
            n as nat == self.view().dom().len(),
    {
        proof {
            use_type_invariant(self);
            lemma_map_of_len(self.entry_seq());
        }
        self.entries.len()
    }

    /// Position of the entry with key `key`, if any.
    fn position(&self, key: &str) -> (r: Option<usize>)
        ensures
            match r {
                Some(i) => i < self.entry_seq().len() && self.entry_seq()[i as int].0 == key@,
                None => forall|i: int| 0 <= i < self.entry_seq().len() ==> self.entry_seq()[i].0 != key@,
            },
    {
        let mut i: usize = 0;
        while i < self.entries.len()
            invariant
                i <= self.entries.len(),
                forall|j: int| 0 <= j < i ==> self.entry_seq()[j].0 != key@,
            decreases self.entries.len() - i,
        {
            if str_eq(self.entries[i].0.as_str(), key) {
                return Some(i);
            }
            i = i + 1;
        }
        None
    }

    /// The value stored under `key`.
    pub fn get(&self, key: &str) -> (r: Option<&V>)
        ensures
            r == (if self.view().dom().contains(key@) { Some(&self.view()[key@]) } else { None }),
    {
        proof {
            use_type_invariant(self);
        }
        match self.position(key) {
            Some(i) => {
                proof {
                    lemma_map_of_index(self.entry_seq(), i as int);
                }
                Some(&self.entries[i].1)
            },
            None => {
                proof {
                    lemma_map_of_absent(self.entry_seq(), key@);
                }
                None
            },
        }
    }

    /// Whether some value is stored under `key`.
    pub fn contains_key(&self, key: &str) -> (r: bool)
        ensures
            r == self.view().dom().contains(key@),
    {
        proof {
            use_type_invariant(self);
        }
        match self.position(key) {
            Some(i) => {
                proof {
                    lemma_map_of_index(self.entry_seq(), i as int);
                }
                true
            },
            None => {
                proof {
                    lemma_map_of_absent(self.entry_seq(), key@);
                }
                false
            },
        }
    }

    /// Stores `value` under `key`, replacing what was stored there.
    pub fn insert(&mut self, key: String, value: V)
        ensures
            final(self).view() == old(self).view().insert(key@, value),
    {
        proof {
            use_type_invariant(&*self);
        }
        let ghost old_seq = self.entry_seq();
        let found = self.position(key.as_str());
        let mut taken = StringMap::new();
        std::mem::swap(self, &mut taken);
        let StringMap { entries } = taken;
        let mut entries = entries;
        let ghost k = key@;
        match found {
            Some(i) => {
                entries.set(i, (key, value));
                let ghost new_seq = entries@.map_values(|e: (String, V)| (e.0@, e.1));
                proof {
                    assert(new_seq =~= old_seq.update(i as int, (k, value)));
                    lemma_map_of_update(old_seq, i as int, value);
                    assert forall|a: int, b: int|
                        0 <= a < new_seq.len() && 0 <= b < new_seq.len() && a != b implies
                        #[trigger] new_seq[a].0 != #[trigger] new_seq[b].0 by {
                        assert(new_seq[a].0 == old_seq[a].0);
                        assert(new_seq[b].0 == old_seq[b].0);
                    }
                }
                *self = StringMap { entries };
            },
            None => {
                entries.push((key, value));
                let ghost new_seq = entries@.map_values(|e: (String, V)| (e.0@, e.1));
                proof {
                    assert(new_seq =~= old_seq.push((k, value)));
                    assert(new_seq.drop_last() =~= old_seq);
                    assert forall|a: int, b: int|
                        0 <= a < new_seq.len() && 0 <= b < new_seq.len() && a != b implies
                        #[trigger] new_seq[a].0 != #[trigger] new_seq[b].0 by {
                        if a < old_seq.len() {
                            assert(new_seq[a] == old_seq[a]);
                        }
                        if b < old_seq.len() {
                            assert(new_seq[b] == old_seq[b]);
                        }
                    }
                }
                *self = StringMap { entries };
            },
        }
    }

    /// The entries, in the order in which their keys were first stored.
    pub fn entries(&self) -> (r: &Vec<(String, V)>)
        ensures
            r@.map_values(|e: (String, V)| (e.0@, e.1)) == self.entry_seq(),
    {
        &self.entries
    }
}

impl<V: Clone> Clone for StringMap<V> {
    /// A copy with the same keys, in the same order, each value cloned.
    fn clone(&self) -> (r: Self)
        ensures
            r.entry_seq().len() == self.entry_seq().len(),
            forall|i: int|
                0 <= i < self.entry_seq().len() ==> #[trigger] r.entry_seq()[i].0 == self.entry_seq()[i].0
                    && cloned::<V>(self.entry_seq()[i].1, r.entry_seq()[i].1),
    {
        proof {
            use_type_invariant(self);
        }
        let ghost src = self.entry_seq();
        let mut entries: Vec<(String, V)> = Vec::new();
        let mut i: usize = 0;
        while i < self.entries.len()
            invariant
                i <= self.entries.len(),
                src == self.entry_seq(),
                keys_distinct(src),
                entries@.len() == i,
                forall|j: int|
                    0 <= j < i ==> #[trigger] entries@[j].0@ == src[j].0 && cloned::<V>(src[j].1, entries@[j].1),
            decreases self.entries.len() - i,
        {
            let k = self.entries[i].0.clone();
            let v = self.entries[i].1.clone();
            entries.push((k, v));
            i = i + 1;
        }
        let ghost new_seq = entries@.map_values(|e: (String, V)| (e.0@, e.1));
        assert forall|a: int, b: int|
            0 <= a < new_seq.len() && 0 <= b < new_seq.len() && a != b implies
            #[trigger] new_seq[a].0 != #[trigger] new_seq[b].0 by {
            assert(new_seq[a].0 == src[a].0);
            assert(new_seq[b].0 == src[b].0);
        }
        StringMap { entries }
    }
}

/// A list of distinct keys denotes a map with one key per entry.
proof fn lemma_map_of_len<V>(s: Seq<(Seq<char>, V)>)
    requires
        keys_distinct(s),
    ensures
        map_of(s).dom().len() == s.len(),
        map_of(s).dom().finite(),
    decreases s.len(),
{
    if s.len() > 0 {
        let t = s.drop_last();
        assert(keys_distinct(t)) by {
            assert forall|i: int, j: int|
                0 <= i < t.len() && 0 <= j < t.len() && i != j implies #[trigger] t[i].0 != #[trigger] t[j].0 by {
                assert(t[i] == s[i] && t[j] == s[j]);
            }
        }
        lemma_map_of_len(t);
        lemma_map_of_absent(t, s.last().0);
        assert forall|i: int| 0 <= i < t.len() implies t[i].0 != s.last().0 by {
            assert(t[i] == s[i]);
            assert(s[s.len() - 1] == s.last());
        }
    }
}

/// A key that no entry carries is not in the map.
proof fn lemma_map_of_absent<V>(s: Seq<(Seq<char>, V)>, k: Seq<char>)
    ensures
        (forall|i: int| 0 <= i < s.len() ==> s[i].0 != k) ==> !map_of(s).dom().contains(k),
    decreases s.len(),
{
    if s.len() > 0 {
        let t = s.drop_last();
        if forall|i: int| 0 <= i < s.len() ==> s[i].0 != k {
            assert forall|i: int| 0 <= i < t.len() implies t[i].0 != k by {
                assert(t[i] == s[i]);
            }
            lemma_map_of_absent(t, k);
            assert(s[s.len() - 1].0 != k);
        }
    }
}

/// The entry at position `i` gives the map's value for its key.
proof fn lemma_map_of_index<V>(s: Seq<(Seq<char>, V)>, i: int)
    requires
        keys_distinct(s),
        0 <= i < s.len(),
    ensures
        map_of(s).dom().contains(s[i].0),
        map_of(s)[s[i].0] == s[i].1,
    decreases s.len(),
{
    let t = s.drop_last();
    if i < s.len() - 1 {
        assert(keys_distinct(t)) by {
            assert forall|a: int, b: int|
                0 <= a < t.len() && 0 <= b < t.len() && a != b implies #[trigger] t[a].0 != #[trigger] t[b].0 by {
                assert(t[a] == s[a] && t[b] == s[b]);
            }
        }
        assert(t[i] == s[i]);
        lemma_map_of_index(t, i);
        assert(s[i].0 != s[s.len() - 1].0);
    }
}

/// Replacing the value of entry `i` replaces the map's value for its key.
proof fn lemma_map_of_update<V>(s: Seq<(Seq<char>, V)>, i: int, v: V)
    requires
        keys_distinct(s),
        0 <= i < s.len(),
    ensures
        map_of(s.update(i, (s[i].0, v))) == map_of(s).insert(s[i].0, v),
    decreases s.len(),
{
    let u = s.update(i, (s[i].0, v));
    let t = s.drop_last();
    if i == s.len() - 1 {
        assert(u.drop_last() =~= t);
        assert(map_of(u) =~= map_of(s).insert(s[i].0, v));
    } else {
        assert(keys_distinct(t)) by {
            assert forall|a: int, b: int|
                0 <= a < t.len() && 0 <= b < t.len() && a != b implies #[trigger] t[a].0 != #[trigger] t[b].0 by {
                assert(t[a] == s[a] && t[b] == s[b]);
            }
        }
        assert(t[i] == s[i]);
        lemma_map_of_update(t, i, v);
        assert(u.drop_last() =~= t.update(i, (t[i].0, v)));
        assert(u.last() == s.last());
        assert(s[i].0 != s[s.len() - 1].0);
        assert(map_of(u) =~= map_of(s).insert(s[i].0, v));
    }
}

/// Reading a key right after storing a value under it gives that value, and
/// storing leaves every other key as it was.
pub proof fn lemma_get_after_insert<V>(m: Map<Seq<char>, V>, k: Seq<char>, v: V, other: Seq<char>)
    ensures
        m.insert(k, v).dom().contains(k),
        m.insert(k, v)[k] == v,
        other != k ==> (m.insert(k, v).dom().contains(other) == m.dom().contains(other)),
        other != k && m.dom().contains(other) ==> m.insert(k, v)[other] == m[other],
{
}

} // verus!
