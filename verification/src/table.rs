//! A map keyed by number, walked in ascending order of its keys.
use vstd::prelude::*;

verus! {

/// A map keyed by number. The entries lie in strictly ascending order of their
/// keys.
#[derive(Debug)]
pub struct Table<V> {
    entries: Vec<(u128, V)>,
}

spec fn ascending<V>(entries: Seq<(u128, V)>) -> bool {
    forall|i: int, j: int|
        0 <= i < j < entries.len() ==> (#[trigger] entries[i]).0 < (#[trigger] entries[j]).0
}

spec fn holds<V>(entries: Seq<(u128, V)>, key: u128) -> bool {
    exists|i: int| 0 <= i < entries.len() && (#[trigger] entries[i]).0 == key
}

spec fn place_of<V>(entries: Seq<(u128, V)>, key: u128) -> int {
    choose|i: int| 0 <= i < entries.len() && (#[trigger] entries[i]).0 == key
}

spec fn contents<V>(entries: Seq<(u128, V)>) -> Map<u128, V> {
    Map::new(|key: u128| holds(entries, key), |key: u128| entries[place_of(entries, key)].1)
}

proof fn lemma_contents_at<V>(entries: Seq<(u128, V)>, i: int)
    requires
        ascending(entries),
        0 <= i < entries.len(),
    ensures
        contents(entries).dom().contains(entries[i].0),
        contents(entries)[entries[i].0] == entries[i].1,
{
    let place = place_of(entries, entries[i].0);
    assert(holds(entries, entries[i].0));
    assert(place == i);
}

proof fn lemma_contents_of<V>(entries: Seq<(u128, V)>, key: u128) -> (i: int)
    requires
        ascending(entries),
        contents(entries).dom().contains(key),
    ensures
        0 <= i < entries.len(),
        entries[i].0 == key,
        contents(entries)[key] == entries[i].1,
{
    place_of(entries, key)
}

impl<V> Table<V> {
    pub closed spec fn wf(self) -> bool {
        ascending(self.entries@)
    }

    pub closed spec fn view(self) -> Map<u128, V> {
        contents(self.entries@)
    }

    /// The keys, in the order in which the table is walked.
    pub closed spec fn keys(self) -> Seq<u128> {
        self.entries@.map_values(|entry: (u128, V)| entry.0)
    }

    /// The keys ascend strictly, and they are the keys of the contents.
    pub proof fn lemma_keys(self)
        requires
            self.wf(),
        ensures
            self@.dom().finite(),
            self@.dom() == self.keys().to_set(),
            forall|i: int, j: int|
                0 <= i < j < self.keys().len() ==> #[trigger] self.keys()[i] < #[trigger] self.keys()[j],
            forall|i: int|
                0 <= i < self.keys().len() ==> self@.dom().contains(#[trigger] self.keys()[i]),
    {
        let entries = self.entries@;
        assert forall|i: int| 0 <= i < self.keys().len() implies self@.dom().contains(
            #[trigger] self.keys()[i],
        ) by {
            lemma_contents_at(entries, i);
        }
        assert forall|key: u128| self@.dom().contains(key) == self.keys().to_set().contains(key) by {
            if self@.dom().contains(key) {
                let i = lemma_contents_of(entries, key);
                assert(self.keys()[i] == key);
                assert(self.keys().contains(key));
            }
            if self.keys().contains(key) {
                let i = choose|i: int| 0 <= i < self.keys().len() && self.keys()[i] == key;
                lemma_contents_at(entries, i);
            }
        }
        assert(self@.dom() =~= self.keys().to_set());
        vstd::seq_lib::seq_to_set_is_finite(self.keys());
    }

    pub fn new() -> (r: Table<V>)
        ensures
            r.wf(),
            r@ == Map::<u128, V>::empty(),
            r.keys().len() == 0,
    {
        let r = Table { entries: Vec::new() };
        assert(r@ =~= Map::<u128, V>::empty());
        r
    }

    /// How many entries there are.
    pub fn len(&self) -> (r: usize)
        requires
            self.wf(),
        ensures
            r == self.keys().len(),
            r == self@.dom().len(),
    {
        proof {
            self.lemma_keys();
            assert(self.keys().no_duplicates());
            self.keys().unique_seq_to_set();
        }
        self.entries.len()
    }

    /// The entry at a place of the walk.
    pub fn entry(&self, place: usize) -> (r: (u128, &V))
        requires
            self.wf(),
            place < self.keys().len(),
        ensures
            r.0 == self.keys()[place as int],
            self@.dom().contains(r.0),
            *r.1 == self@[r.0],
    {
        proof {
            lemma_contents_at(self.entries@, place as int);
        }
        let entry = &self.entries[place];
        (entry.0, &entry.1)
    }

    /// The first place whose key is not below `key`.
    fn place(&self, key: u128) -> (r: usize)
        requires
            self.wf(),
        ensures
            r <= self.entries@.len(),
            forall|i: int| 0 <= i < r ==> (#[trigger] self.entries@[i]).0 < key,
            forall|i: int| r <= i < self.entries@.len() ==> (#[trigger] self.entries@[i]).0 >= key,
    {
        let mut low: usize = 0;
        let mut high: usize = self.entries.len();
        while low < high
            invariant
                self.wf(),
                0 <= low <= high <= self.entries@.len(),
                forall|i: int| 0 <= i < low ==> (#[trigger] self.entries@[i]).0 < key,
                forall|i: int| high <= i < self.entries@.len() ==> (#[trigger] self.entries@[i]).0 >= key,
            decreases high - low,
        {
            let middle: usize = low + (high - low) / 2;
            if self.entries[middle].0 < key {
                low = middle + 1;
            } else {
                high = middle;
            }
        }
        low
    }

    /// The value under a key.
    pub fn get(&self, key: u128) -> (r: Option<&V>)
        requires
            self.wf(),
        ensures
            match r {
                Some(value) => self@.dom().contains(key) && *value == self@[key],
                None => !self@.dom().contains(key),
            },
    {
        let place: usize = self.place(key);
        if place < self.entries.len() && self.entries[place].0 == key {
            proof {
                lemma_contents_at(self.entries@, place as int);
            }
            Some(&self.entries[place].1)
        } else {
            proof {
                if self@.dom().contains(key) {
                    let i = lemma_contents_of(self.entries@, key);
                }
            }
            None
        }
    }

    /// Puts a value under a key, in the place of what was there.
    pub fn insert(&mut self, key: u128, value: V) -> (r: Option<V>)
        requires
            old(self).wf(),
        ensures
            final(self).wf(),
            final(self)@ == old(self)@.insert(key, value),
            match r {
                Some(value) => old(self)@.dom().contains(key) && value == old(self)@[key],
                None => !old(self)@.dom().contains(key),
            },
            old(self)@.dom().contains(key) ==> final(self).keys() == old(self).keys(),
    {
        let ghost before = self.entries@;
        let place: usize = self.place(key);
        let present: bool = place < self.entries.len() && self.entries[place].0 == key;
        let was: Option<V> = if present {
            Some(self.entries.remove(place).1)
        } else {
            None
        };
        self.entries.insert(place, (key, value));
        proof {
            let after = self.entries@;
            if present {
                lemma_contents_at(before, place as int);
                assert(after =~= before.update(place as int, (key, value)));
                assert(after.map_values(|entry: (u128, V)| entry.0) =~= before.map_values(
                    |entry: (u128, V)| entry.0,
                ));
            } else {
                assert(after =~= before.insert(place as int, (key, value)));
                if contents(before).dom().contains(key) {
                    let i = lemma_contents_of(before, key);
                }
            }
            assert(ascending(after));
            lemma_contents_at(after, place as int);
            assert forall|k: u128| k != key && contents(before).dom().contains(k) implies {
                &&& #[trigger] contents(after).dom().contains(k)
                &&& contents(after)[k] == contents(before)[k]
            } by {
                let i = lemma_contents_of(before, k);
                let j = if present || i < place {
                    i
                } else {
                    i + 1
                };
                assert(after[j] == before[i]);
                lemma_contents_at(after, j);
            }
            assert forall|k: u128| k != key && contents(after).dom().contains(k) implies #[trigger] contents(
                before,
            ).dom().contains(k) by {
                let j = lemma_contents_of(after, k);
                let i = if present || j < place {
                    j
                } else {
                    j - 1
                };
                assert(after[j] == before[i]);
                lemma_contents_at(before, i);
            }
            assert(contents(after) =~= contents(before).insert(key, value));
        }
        was
    }

    /// Takes out what is under a key.
    pub fn remove(&mut self, key: u128) -> (r: Option<V>)
        requires
            old(self).wf(),
        ensures
            final(self).wf(),
            final(self)@ == old(self)@.remove(key),
            match r {
                Some(value) => old(self)@.dom().contains(key) && value == old(self)@[key],
                None => !old(self)@.dom().contains(key),
            },
    {
        let ghost before = self.entries@;
        let place: usize = self.place(key);
        if place < self.entries.len() && self.entries[place].0 == key {
            let was = self.entries.remove(place);
            proof {
                let after = self.entries@;
                lemma_contents_at(before, place as int);
                assert(after =~= before.remove(place as int));
                assert(ascending(after));
                assert forall|k: u128| k != key && contents(before).dom().contains(k) implies {
                    &&& #[trigger] contents(after).dom().contains(k)
                    &&& contents(after)[k] == contents(before)[k]
                } by {
                    let i = lemma_contents_of(before, k);
                    let j = if i < place {
                        i
                    } else {
                        i - 1
                    };
                    assert(after[j] == before[i]);
                    lemma_contents_at(after, j);
                }
                assert forall|k: u128| contents(after).dom().contains(k) implies k != key
                    && #[trigger] contents(before).dom().contains(k) by {
                    let j = lemma_contents_of(after, k);
                    let i = if j < place {
                        j
                    } else {
                        j + 1
                    };
                    assert(after[j] == before[i]);
                    lemma_contents_at(before, i);
                }
                assert(contents(after) =~= contents(before).remove(key));
            }
            Some(was.1)
        } else {
            proof {
                if self@.dom().contains(key) {
                    let i = lemma_contents_of(self.entries@, key);
                }
                assert(self@.remove(key) =~= self@);
            }
            None
        }
    }
}

} // verus!
