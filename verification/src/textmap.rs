//! A map from texts to values, kept in the order of its keys.

use crate::rank;
use vstd::prelude::*;

verus! {

/// A map from texts to values.
#[derive(Debug)]
pub struct TextMap<V> {
    entries: Vec<(String, V)>,
}

/// Whether `keys` stands in strictly ascending order.
pub open spec fn ascending(keys: Seq<Seq<char>>) -> bool {
    forall|i: int, j: int|
        0 <= i < j < keys.len() ==> rank::text_before(#[trigger] keys[i], #[trigger] keys[j])
}

/// The keys of `entries`.
spec fn keys_of<V>(entries: Seq<(String, V)>) -> Seq<Seq<char>> {
    entries.map_values(|e: (String, V)| e.0@)
}

/// The map that `entries` lists.
spec fn map_of<V>(entries: Seq<(String, V)>) -> Map<Seq<char>, V> {
    Map::new(
        |k: Seq<char>| keys_of(entries).contains(k),
        |k: Seq<char>| entries[keys_of(entries).index_of(k)].1,
    )
}

impl<V> View for TextMap<V> {
    type V = Map<Seq<char>, V>;

    closed spec fn view(&self) -> Map<Seq<char>, V> {
        map_of(self.entries@)
    }
}

proof fn lemma_entry<V>(entries: Seq<(String, V)>, i: int)
    requires
        ascending(keys_of(entries)),
        0 <= i < entries.len(),
    ensures
        map_of(entries).contains_key(entries[i].0@),
        map_of(entries)[entries[i].0@] == entries[i].1,
{
    let keys = keys_of(entries);
    let k = entries[i].0@;
    assert(keys[i] == k);
    assert(keys.contains(k));
    let j = keys.index_of(k);
    if j < i {
        rank::lemma_text_before(keys[j], keys[i], k);
    } else if i < j {
        rank::lemma_text_before(keys[i], keys[j], k);
    }
}

impl<V> TextMap<V> {
    #[verifier::type_invariant]
    spec fn well_formed(self) -> bool {
        ascending(keys_of(self.entries@))
    }

    /// The keys of the map, in ascending order.
    pub closed spec fn keys(&self) -> Seq<Seq<char>> {
        keys_of(self.entries@)
    }

    /// A map has finitely many keys: those that it lists.
    pub proof fn law_keys_are_finite(&self)
        ensures
            self@.dom() == self.keys().to_set(),
            self@.dom().finite(),
    {
        assert(self@.dom() =~= self.keys().to_set());
        vstd::seq_lib::seq_to_set_is_finite(self.keys());
    }

    /// The map without entries.
    pub fn new() -> (r: Self)
        ensures
            r@ == Map::<Seq<char>, V>::empty(),
    {
        let r = TextMap { entries: Vec::new() };
        assert(r@ =~= Map::<Seq<char>, V>::empty());
        r
    }

    /// The number of entries. The keys are in ascending order, and are the domain of the map.
    pub fn len(&self) -> (r: usize)
        ensures
            r == self.keys().len(),
            ascending(self.keys()),
            forall|k: Seq<char>| self@.contains_key(k) <==> self.keys().contains(k),
    {
        proof {
            use_type_invariant(self);
        }
        self.entries.len()
    }

    /// The key at `i`.
    pub fn key_at(&self, i: usize) -> (r: &str)
        requires
            i < self.keys().len(),
        ensures
            r@ == self.keys()[i as int],
            self@.contains_key(r@),
    {
        proof {
            use_type_invariant(self);
            lemma_entry(self.entries@, i as int);
        }
        self.entries[i].0.as_str()
    }

    /// The value at `i`.
    pub fn value_at(&self, i: usize) -> (r: &V)
        requires
            i < self.keys().len(),
        ensures
            self@.contains_key(self.keys()[i as int]),
            *r == self@[self.keys()[i as int]],
    {
        proof {
            use_type_invariant(self);
            lemma_entry(self.entries@, i as int);
        }
        &self.entries[i].1
    }

    /// The index from which the keys are not before `key`.
    fn position(&self, key: &str) -> (r: usize)
        ensures
            r <= self.entries@.len(),
            forall|i: int| 0 <= i < r ==> rank::text_before(#[trigger] self.keys()[i], key@),
            forall|i: int|
                r <= i < self.entries@.len() ==> !rank::text_before(
                    #[trigger] self.keys()[i],
                    key@,
                ),
    {
        proof {
            use_type_invariant(self);
        }
        let mut low: usize = 0;
        let mut high: usize = self.entries.len();
        while low < high
            invariant
                low <= high <= self.entries@.len(),
                ascending(self.keys()),
                forall|i: int| 0 <= i < low ==> rank::text_before(#[trigger] self.keys()[i], key@),
                forall|i: int|
                    high <= i < self.entries@.len() ==> !rank::text_before(
                        #[trigger] self.keys()[i],
                        key@,
                    ),
            decreases high - low,
        {
            let mid = low + (high - low) / 2;
            assert(self.keys()[mid as int] == self.entries@[mid as int].0@);
            if rank::is_before(self.entries[mid].0.as_str(), key) {
                assert forall|i: int| 0 <= i < mid + 1 implies rank::text_before(
                    #[trigger] self.keys()[i],
                    key@,
                ) by {
                    if i < mid {
                        rank::lemma_text_before(self.keys()[i], self.keys()[mid as int], key@);
                    }
                }
                low = mid + 1;
            } else {
                assert forall|i: int| mid <= i < self.entries@.len() implies !rank::text_before(
                    #[trigger] self.keys()[i],
                    key@,
                ) by {
                    if mid < i {
                        rank::lemma_text_before(self.keys()[mid as int], self.keys()[i], key@);
                    }
                }
                high = mid;
            }
        }
        low
    }

    /// The value at `key`, if there is one.
    pub fn get(&self, key: &str) -> (r: Option<&V>)
        ensures
            match r {
                Some(v) => self@.contains_key(key@) && *v == self@[key@],
                None => !self@.contains_key(key@),
            },
    {
        proof {
            use_type_invariant(self);
        }
        let i = self.position(key);
        if i < self.entries.len() {
            assert(self.keys()[i as int] == self.entries@[i as int].0@);
            if !rank::is_before(key, self.entries[i].0.as_str()) {
                proof {
                    rank::lemma_text_before(self.keys()[i as int], key@, key@);
                    lemma_entry(self.entries@, i as int);
                }
                return Some(&self.entries[i].1);
            }
        }
        proof {
            self.lemma_absent(key@, i as int);
        }
        None
    }

    proof fn lemma_absent(&self, key: Seq<char>, p: int)
        requires
            ascending(self.keys()),
            0 <= p <= self.entries@.len(),
            forall|i: int| 0 <= i < p ==> rank::text_before(#[trigger] self.keys()[i], key),
            p < self.entries@.len() ==> rank::text_before(key, self.keys()[p]),
        ensures
            !self@.contains_key(key),
            forall|i: int| p <= i < self.entries@.len() ==> rank::text_before(
                key,
                #[trigger] self.keys()[i],
            ),
    {
        assert forall|i: int| p <= i < self.entries@.len() implies rank::text_before(
            key,
            #[trigger] self.keys()[i],
        ) by {
            if p < i {
                rank::lemma_text_before(key, self.keys()[p], self.keys()[i]);
            }
        }
        if self@.contains_key(key) {
            let i = self.keys().index_of(key);
            rank::lemma_text_before(key, key, key);
            assert(self.keys()[i] == key);
        }
    }

    /// Puts `value` at `key`, in place of what was there.
    pub fn insert(&mut self, key: String, value: V)
        ensures
            final(self)@ == old(self)@.insert(key@, value),
    {
        proof {
            use_type_invariant(&*self);
        }
        let i = self.position(key.as_str());
        let mut entries: Vec<(String, V)> = Vec::new();
        let mut present: bool = false;
        if i < self.entries.len() {
            assert(self.keys()[i as int] == self.entries@[i as int].0@);
            if !rank::is_before(key.as_str(), self.entries[i].0.as_str()) {
                proof {
                    rank::lemma_text_before(self.keys()[i as int], key@, key@);
                }
                present = true;
            }
        }
        let ghost before = self.entries@;
        let ghost k = key@;
        let ghost keys = self.keys();
        proof {
            if !present {
                self.lemma_absent(k, i as int);
            }
        }
        assert(forall|j: int| 0 <= j < i ==> rank::text_before(#[trigger] keys[j], k));
        assert(!present ==> forall|j: int|
            i <= j < keys.len() ==> rank::text_before(k, #[trigger] keys[j]));
        std::mem::swap(&mut entries, &mut self.entries);
        if present {
            entries.set(i, (key, value));
            proof {
                assert(keys_of(entries@) =~= keys_of(before));
            }
        } else {
            entries.insert(i, (key, value));
            proof {
                let ks = keys_of(entries@);
                assert(ks =~= keys_of(before).insert(i as int, k));
                assert forall|a: int, b: int| 0 <= a < b < ks.len() implies rank::text_before(
                    #[trigger] ks[a],
                    #[trigger] ks[b],
                ) by {
                    let x = if a < i {
                        a
                    } else {
                        a - 1
                    };
                    let y = if b < i {
                        b
                    } else {
                        b - 1
                    };
                    assert(a != i ==> ks[a] == keys[x]);
                    assert(b != i ==> ks[b] == keys[y]);
                }
            }
        }
        proof {
            lemma_inserted(before, entries@, i as int, present);
        }
        self.entries = entries;
    }
}

proof fn lemma_inserted<V>(
    before: Seq<(String, V)>,
    after: Seq<(String, V)>,
    i: int,
    present: bool,
)
    requires
        ascending(keys_of(before)),
        ascending(keys_of(after)),
        0 <= i < after.len(),
        present ==> i < before.len() && after == before.update(i, after[i]) && before[i].0@
            == after[i].0@,
        !present ==> i <= before.len() && after == before.insert(i, after[i]),
    ensures
        map_of(after) == map_of(before).insert(after[i].0@, after[i].1),
{
    let k = after[i].0@;
    let v = after[i].1;
    let a = map_of(after);
    let b = map_of(before).insert(k, v);
    lemma_entry(after, i);
    assert forall|x: Seq<char>| a.contains_key(x) <==> #[trigger] b.contains_key(x) by {
        if a.contains_key(x) && x != k {
            let j = keys_of(after).index_of(x);
            assert(after[j].0@ == x);
            assert(j != i);
            let m = if present || j < i {
                j
            } else {
                j - 1
            };
            assert(before[m].0@ == x);
            lemma_entry(before, m);
        }
        if map_of(before).contains_key(x) && x != k {
            let j = keys_of(before).index_of(x);
            assert(before[j].0@ == x);
            let m = if present || j < i {
                j
            } else {
                j + 1
            };
            assert(after[m].0@ == x);
            lemma_entry(after, m);
        }
    }
    assert forall|x: Seq<char>| #[trigger] a.contains_key(x) implies a[x] == b[x] by {
        if x != k {
            let j = keys_of(after).index_of(x);
            assert(after[j].0@ == x);
            lemma_entry(after, j);
            let m = if present || j < i {
                j
            } else {
                j - 1
            };
            assert(before[m] == after[j]);
            lemma_entry(before, m);
        }
    }
    assert(a =~= b);
}

} // verus!
