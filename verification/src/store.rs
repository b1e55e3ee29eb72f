//! A map from text to values, kept as a list without repeated keys.

use crate::text;
use vstd::prelude::*;

verus! {

/// A map from text to values.
#[derive(Debug)]
pub struct KeyedStore<V> {
    entries: Vec<(String, V)>,
}

/// Whether `key` stands at `at` in a list of entries.
spec fn stands_at<V>(entries: Seq<(String, V)>, key: Seq<char>, at: int) -> bool {
    0 <= at < entries.len() && entries[at].0@ == key
}

spec fn no_key_repeats<V>(entries: Seq<(String, V)>) -> bool {
    forall|i: int, j: int|
        0 <= i < j < entries.len() ==> (#[trigger] entries[i]).0@ != (#[trigger] entries[j]).0@
}

spec fn as_map<V>(entries: Seq<(String, V)>) -> Map<Seq<char>, V> {
    Map::new(
        |key: Seq<char>| exists|at: int| stands_at(entries, key, at),
        |key: Seq<char>| entries[choose|at: int| stands_at(entries, key, at)].1,
    )
}

proof fn found_is_looked_up<V>(entries: Seq<(String, V)>, key: Seq<char>, at: int)
    requires
        no_key_repeats(entries),
        stands_at(entries, key, at),
    ensures
        as_map(entries).contains_key(key),
        as_map(entries)[key] == entries[at].1,
{
    let chosen = choose|i: int| stands_at(entries, key, i);
    assert(stands_at(entries, key, chosen));
    assert(entries[chosen].0@ == entries[at].0@);
}

impl<V> View for KeyedStore<V> {
    type V = Map<Seq<char>, V>;

    closed spec fn view(&self) -> Map<Seq<char>, V> {
        as_map(self.entries@)
    }
}

impl<V> KeyedStore<V> {
    #[verifier::type_invariant]
    spec fn unambiguous(self) -> bool {
        no_key_repeats(self.entries@)
    }

    /// An empty store.
    pub fn new() -> (store: KeyedStore<V>)
        ensures
            store@ == Map::<Seq<char>, V>::empty(),
    {
        let store = KeyedStore { entries: Vec::new() };
        proof {
            assert forall|key: Seq<char>| !as_map(store.entries@).contains_key(key) by {}
            assert(store@ =~= Map::<Seq<char>, V>::empty());
        }
        store
    }

    fn position(&self, key: &str) -> (at: Option<usize>)
        ensures
            at matches Some(i) ==> stands_at(self.entries@, key@, i as int),
            at is None ==> forall|i: int| !stands_at(self.entries@, key@, i),
    {
        for i in 0..self.entries.len()
            invariant
                forall|j: int| 0 <= j < i ==> !stands_at(self.entries@, key@, j),
        {
            if text::same_text(self.entries[i].0.as_str(), key) {
                return Some(i);
            }
        }
        None
    }

    /// What is kept under `key`.
    pub fn get(&self, key: &str) -> (value: Option<&V>)
        ensures
            value is Some <==> self@.contains_key(key@),
            value matches Some(kept) ==> *kept == self@[key@],
    {
        proof {
            use_type_invariant(self);
        }
        match self.position(key) {
            Some(at) => {
                proof {
                    found_is_looked_up(self.entries@, key@, at as int);
                }
                Some(&self.entries[at].1)
            },
            None => None,
        }
    }

    /// Keeps `value` under `key`, in the place of what was kept there.
    pub fn insert(&mut self, key: &str, value: V)
        ensures
            final(self)@ == old(self)@.insert(key@, value),
    {
        proof {
            use_type_invariant(&*self);
        }
        let at = self.position(key);
        let ghost before = self.entries@;
        let mut entries: Vec<(String, V)> = Vec::new();
        std::mem::swap(&mut entries, &mut self.entries);
        match at {
            Some(i) => {
                entries.set(i, (key.to_string(), value));
            },
            None => {
                entries.push((key.to_string(), value));
            },
        }
        proof {
            let place: int = match at {
                Some(i) => i as int,
                None => before.len() as int,
            };
            assert forall|i: int, j: int| 0 <= i < j < entries@.len() implies (
            #[trigger] entries@[i]).0@ != (#[trigger] entries@[j]).0@ by {
                if i != place && j != place {
                    assert(before[i].0@ != before[j].0@);
                } else if at is Some {
                    assert(before[i].0@ != before[j].0@);
                } else {
                    assert(!stands_at(before, key@, i));
                }
            }
            let old_map = as_map(before);
            let new_map = as_map(entries@);
            assert(stands_at(entries@, key@, place));
            found_is_looked_up(entries@, key@, place);
            let wanted = old_map.insert(key@, value);
            assert forall|k: Seq<char>| new_map.dom().contains(k) implies #[trigger] wanted.dom().contains(k) by {
                let i = choose|i: int| stands_at(entries@, k, i);
                assert(stands_at(entries@, k, i));
                if k != key@ {
                    assert(stands_at(before, k, i));
                }
            }
            assert forall|k: Seq<char>| wanted.dom().contains(k) implies #[trigger] new_map.dom().contains(k)
                && new_map[k] == wanted[k] by {
                if k != key@ {
                    let i = choose|i: int| stands_at(before, k, i);
                    assert(stands_at(before, k, i));
                    assert(stands_at(entries@, k, i));
                    found_is_looked_up(before, k, i);
                    found_is_looked_up(entries@, k, i);
                }
            }
            assert(new_map.dom() =~= wanted.dom());
            assert(new_map =~= wanted);
        }
        self.entries = entries;
    }

    /// Forgets everything.
    pub fn clear(&mut self)
        ensures
            final(self)@ == Map::<Seq<char>, V>::empty(),
    {
        self.entries = Vec::new();
        proof {
            assert forall|key: Seq<char>| !as_map(self.entries@).contains_key(key) by {}
            assert(self@ =~= Map::<Seq<char>, V>::empty());
        }
    }
}

} // verus!
