//! A small keyed store: what the bundler remembers of a module from one
//! build to the next. It maps a module key to one value, and the last value
//! stored under a key is the one that is found.

use vstd::prelude::*;

verus! {

/// The map that a list of entries stands for: a later entry overrides an
/// earlier one with the same key.
pub open spec fn assoc<V>(entries: Seq<(String, V)>) -> Map<Seq<char>, V>
    decreases entries.len(),
{
    if entries.len() == 0 {
        Map::empty()
    } else {
        assoc(entries.drop_last()).insert(entries.last().0@, entries.last().1)
    }
}

/// A key that no entry carries is not in the map.
pub proof fn lemma_assoc_absent<V>(entries: Seq<(String, V)>, key: Seq<char>)
    requires
        forall|j: int| 0 <= j < entries.len() ==> entries[j].0@ != key,
    ensures
        !assoc(entries).contains_key(key),
    decreases entries.len(),
{
    if entries.len() > 0 {
        lemma_assoc_absent(entries.drop_last(), key);
    }
}

/// The last entry with a key is the one the map holds.
pub proof fn lemma_assoc_last<V>(entries: Seq<(String, V)>, key: Seq<char>, i: int)
    requires
        0 <= i < entries.len(),
        entries[i].0@ == key,
        forall|j: int| i < j < entries.len() ==> entries[j].0@ != key,
    ensures
        assoc(entries).contains_key(key),
        assoc(entries)[key] == entries[i].1,
    decreases entries.len(),
{
    if i < entries.len() - 1 {
        lemma_assoc_last(entries.drop_last(), key, i);
    }
}

/// Taking out one entry with a key changes nothing but what the map holds
/// under that key.
pub proof fn lemma_assoc_remove_at<V>(entries: Seq<(String, V)>, key: Seq<char>, i: int)
    requires
        0 <= i < entries.len(),
        entries[i].0@ == key,
    ensures
        assoc(entries.remove(i)).remove(key) == assoc(entries).remove(key),
    decreases entries.len(),
{
    let rest = entries.remove(i);
    if i == entries.len() - 1 {
        assert(rest =~= entries.drop_last());
        assert(assoc(rest).remove(key) =~= assoc(entries).remove(key));
    } else {
        assert(rest.len() == entries.len() - 1);
        assert(rest.drop_last() =~= entries.drop_last().remove(i));
        assert(rest.last() == entries.last());
        lemma_assoc_remove_at(entries.drop_last(), key, i);
        let a = assoc(entries.drop_last());
        let b = assoc(entries.drop_last().remove(i));
        let last_key = entries.last().0@;
        let last_value = entries.last().1;
        assert(assoc(entries) == a.insert(last_key, last_value));
        assert(assoc(rest) == b.insert(last_key, last_value));
        let left = assoc(rest).remove(key);
        let right = assoc(entries).remove(key);
        assert forall|k: Seq<char>| #![trigger left.contains_key(k)]
            left.contains_key(k) == right.contains_key(k) && (left.contains_key(k) ==> left[k]
                == right[k]) by {
            if k != key && k != last_key {
                assert(a.remove(key).contains_key(k) == a.contains_key(k));
                assert(b.remove(key).contains_key(k) == b.contains_key(k));
                if a.contains_key(k) {
                    assert(a.remove(key)[k] == a[k]);
                    assert(b.remove(key)[k] == b[k]);
                }
            }
        }
        assert(assoc(rest).remove(key) =~= assoc(entries).remove(key));
    }
}

/// A store of values by module key.
pub struct Memo<V> {
    pub entries: Vec<(String, V)>,
}

impl<V> View for Memo<V> {
    type V = Map<Seq<char>, V>;

    open spec fn view(&self) -> Map<Seq<char>, V> {
        assoc(self.entries@)
    }
}

impl<V> Memo<V> {
    /// A store that holds nothing.
    pub fn new() -> (memo: Self)
        ensures
            memo@ == Map::<Seq<char>, V>::empty(),
    {
        Memo { entries: Vec::new() }
    }

    /// The value stored under `key`, if there is one.
    pub fn get(&self, key: &String) -> (found: Option<&V>)
        ensures
            match found {
                Some(value) => self@.contains_key(key@) && *value == self@[key@],
                None => !self@.contains_key(key@),
            },
    {
        let mut i: usize = self.entries.len();
        while i > 0
            invariant
                i <= self.entries.len(),
                forall|j: int| i <= j < self.entries.len() ==> self.entries@[j].0@ != key@,
            decreases i,
        {
            i = i - 1;
            if self.entries[i].0 == *key {
                proof {
                    lemma_assoc_last(self.entries@, key@, i as int);
                }
                return Some(&self.entries[i].1);
            }
        }
        proof {
            lemma_assoc_absent(self.entries@, key@);
        }
        None
    }

    /// Whether a value is stored under `key`.
    pub fn contains_key(&self, key: &String) -> (present: bool)
        ensures
            present == self@.contains_key(key@),
    {
        self.get(key).is_some()
    }

    /// Forgets what is stored under `key`; every other key keeps its value.
    pub fn remove(&mut self, key: &String)
        ensures
            final(self)@ == old(self)@.remove(key@),
    {
        let mut i: usize = 0;
        while i < self.entries.len()
            invariant
                i <= self.entries.len(),
                assoc(self.entries@).remove(key@) == old(self)@.remove(key@),
                forall|j: int| 0 <= j < i ==> self.entries@[j].0@ != key@,
            decreases self.entries.len() - i,
        {
            if self.entries[i].0 == *key {
                proof {
                    lemma_assoc_remove_at(self.entries@, key@, i as int);
                }
                self.entries.remove(i);
            } else {
                i = i + 1;
            }
        }
        proof {
            lemma_assoc_absent(self.entries@, key@);
            assert(assoc(self.entries@).remove(key@) =~= assoc(self.entries@));
        }
    }

    /// Stores `value` under `key`, in place of what was there.
    pub fn insert(&mut self, key: String, value: V)
        ensures
            final(self)@ == old(self)@.insert(key@, value),
    {
        self.remove(&key);
        let ghost before = self.entries@;
        self.entries.push((key, value));
        proof {
            assert(self.entries@.drop_last() == before);
            assert(self@ =~= old(self)@.insert(key@, value));
        }
    }
}

} // verus!
