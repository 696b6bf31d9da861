//! A map from texts to values, kept as a list of entries in the order in which their keys came.

use vstd::prelude::*;
use crate::text::{str_eq, text_before, text_le, text_order_is_total};

verus! {

/// A map from texts to values.
#[derive(Debug)]
pub struct TextMap<V> {
    entries: Vec<(String, V)>,
}

/// Whether no key occurs twice.
pub open spec fn distinct<V>(entries: Seq<(String, V)>) -> bool {
    forall|i: int, j: int|
        0 <= i < j < entries.len() ==> (#[trigger] entries[i]).0@ != (#[trigger] entries[j]).0@
}

/// The entries as a map.
pub open spec fn map_of<V>(entries: Seq<(String, V)>) -> Map<Seq<char>, V>
    decreases entries.len(),
{
    if entries.len() == 0 {
        Map::empty()
    } else {
        map_of(entries.drop_last()).insert(entries.last().0@, entries.last().1)
    }
}

proof fn lemma_map_of<V>(entries: Seq<(String, V)>)
    requires
        distinct(entries),
    ensures
        map_of(entries).dom().finite(),
        map_of(entries).dom().len() == entries.len(),
        forall|i: int|
            0 <= i < entries.len() ==> map_of(entries).contains_key((#[trigger] entries[i]).0@)
                && map_of(entries)[entries[i].0@] == entries[i].1,
        forall|k: Seq<char>| #[trigger]
            map_of(entries).contains_key(k) ==> exists|i: int|
                0 <= i < entries.len() && (#[trigger] entries[i]).0@ == k,
    decreases entries.len(),
{
    if entries.len() > 0 {
        let head = entries.drop_last();
        let last = entries.last();
        assert(distinct(head));
        lemma_map_of(head);
        assert(!map_of(head).contains_key(last.0@)) by {
            if map_of(head).contains_key(last.0@) {
                let i = choose|i: int| 0 <= i < head.len() && (#[trigger] head[i]).0@ == last.0@;
                assert(entries[i].0@ == entries[entries.len() - 1].0@);
            }
        }
        assert forall|i: int| 0 <= i < entries.len() implies map_of(entries).contains_key(
            (#[trigger] entries[i]).0@,
        ) && map_of(entries)[entries[i].0@] == entries[i].1 by {
            if i < head.len() {
                assert(head[i] == entries[i]);
                assert(entries[i].0@ != entries[entries.len() - 1].0@);
            }
        }
        assert forall|k: Seq<char>| #[trigger] map_of(entries).contains_key(k) implies exists|
            i: int,
        | 0 <= i < entries.len() && (#[trigger] entries[i]).0@ == k by {
            if k == last.0@ {
                assert(entries[entries.len() - 1].0@ == k);
            } else {
                assert(map_of(head).contains_key(k));
                let i = choose|i: int| 0 <= i < head.len() && (#[trigger] head[i]).0@ == k;
                assert(entries[i].0@ == k);
            }
        }
    }
}

/// The keys of entries.
pub open spec fn keys_of<V>(entries: Seq<(String, V)>) -> Seq<Seq<char>> {
    Seq::new(entries.len(), |i: int| entries[i].0@)
}

/// The keys are those of the map, each once.
proof fn lemma_keys_of<V>(entries: Seq<(String, V)>)
    requires
        distinct(entries),
    ensures
        map_of(entries).dom().finite(),
        map_of(entries).dom().len() == keys_of(entries).len(),
        forall|k: Seq<char>| #[trigger]
            map_of(entries).contains_key(k) ==> keys_of(entries).contains(k),
        forall|i: int|
            0 <= i < keys_of(entries).len() ==> map_of(entries).contains_key(
                #[trigger] keys_of(entries)[i],
            ),
        keys_of(entries).no_duplicates(),
{
    lemma_map_of(entries);
    let keys = keys_of(entries);
    assert forall|k: Seq<char>| #[trigger] map_of(entries).contains_key(k) implies keys.contains(
        k,
    ) by {
        let i = choose|i: int| 0 <= i < entries.len() && (#[trigger] entries[i]).0@ == k;
        assert(keys[i] == k);
    }
    assert forall|i: int| 0 <= i < keys.len() implies map_of(entries).contains_key(
        #[trigger] keys[i],
    ) by {
        assert(entries[i].0@ == keys[i]);
    }
    assert forall|i: int, j: int|
        0 <= i < keys.len() && 0 <= j < keys.len() && i != j implies keys[i] != keys[j] by {
        assert(entries[i].0@ == keys[i]);
        assert(entries[j].0@ == keys[j]);
    }
}

impl<V> TextMap<V> {
    /// The map as a value.
    pub closed spec fn view(&self) -> Map<Seq<char>, V> {
        map_of(self.entries@)
    }

    /// The keys in the order in which they came.
    pub closed spec fn keys(&self) -> Seq<Seq<char>> {
        keys_of(self.entries@)
    }

    #[verifier::type_invariant]
    spec fn inv(&self) -> bool {
        distinct(self.entries@)
    }

    /// A map without entries.
    pub fn new() -> (m: TextMap<V>)
        ensures
            m@ == Map::<Seq<char>, V>::empty(),
            m.keys() == Seq::<Seq<char>>::empty(),
    {
        let m = TextMap { entries: Vec::new() };
        assert(m.keys() =~= Seq::empty());
        m
    }

    /// How many keys the map has.
    pub fn len(&self) -> (n: usize)
        ensures
            self@.dom().finite(),
            n == self@.dom().len(),
            n == self.keys().len(),
            self.keys().no_duplicates(),
            forall|k: Seq<char>| #[trigger] self@.contains_key(k) ==> self.keys().contains(k),
            forall|i: int| 0 <= i < n ==> self@.contains_key(#[trigger] self.keys()[i]),
    {
        proof {
            use_type_invariant(self);
            lemma_keys_of(self.entries@);
        }
        self.entries.len()
    }

    fn find(&self, key: &str) -> (r: Option<usize>)
        ensures
            match r {
                Some(j) => j < self.entries@.len() && self.entries@[j as int].0@ == key@
                    && self@.contains_key(key@) && self@[key@] == self.entries@[j as int].1,
                None => !self@.contains_key(key@) && forall|k: int|
                    0 <= k < self.entries@.len() ==> (#[trigger] self.entries@[k]).0@ != key@,
            },
    {
        proof {
            use_type_invariant(self);
            lemma_map_of(self.entries@);
        }
        let mut i: usize = 0;
        while i < self.entries.len()
            invariant
                i <= self.entries@.len(),
                forall|k: int| 0 <= k < i ==> (#[trigger] self.entries@[k]).0@ != key@,
            decreases self.entries@.len() - i,
        {
            if str_eq(self.entries[i].0.as_str(), key) {
                proof {
                    use_type_invariant(self);
                    lemma_map_of(self.entries@);
                }
                return Some(i);
            }
            i += 1;
        }
        proof {
            use_type_invariant(self);
            lemma_map_of(self.entries@);
        }
        None
    }

    fn take_entries(&mut self) -> (entries: Vec<(String, V)>)
        ensures
            entries@ == old(self).entries@,
    {
        let mut entries: Vec<(String, V)> = Vec::new();
        std::mem::swap(&mut self.entries, &mut entries);
        entries
    }

    /// Whether the map has the key.
    pub fn contains_key(&self, key: &str) -> (yes: bool)
        ensures
            yes == self@.contains_key(key@),
    {
        self.find(key).is_some()
    }

    /// The value of a key.
    pub fn get(&self, key: &str) -> (r: Option<&V>)
        ensures
            match r {
                Some(v) => self@.contains_key(key@) && *v == self@[key@],
                None => !self@.contains_key(key@),
            },
    {
        match self.find(key) {
            Some(i) => Some(&self.entries[i].1),
            None => None,
        }
    }

    /// Sets the value of a key. A key that is new comes last.
    pub fn insert(&mut self, key: String, value: V) -> (replaced: bool)
        ensures
            final(self)@ == old(self)@.insert(key@, value),
            replaced == old(self)@.contains_key(key@),
            final(self).keys() == if replaced {
                old(self).keys()
            } else {
                old(self).keys().push(key@)
            },
    {
        let ghost before = self.entries@;
        proof {
            use_type_invariant(&*self);
            lemma_map_of(before);
        }
        match self.find(key.as_str()) {
            Some(i) => {
                proof {
                    let after = before.update(i as int, (key, value));
                    assert forall|a: int, b: int| 0 <= a < b < after.len() implies (
                    #[trigger] after[a]).0@ != (#[trigger] after[b]).0@ by {
                        assert(before[a].0@ != before[b].0@);
                    }
                    lemma_map_of(after);
                    lemma_update(before, i as int, key, value);
                    assert(keys_of(after) =~= keys_of(before));
                }
                let mut entries = self.take_entries();
                entries.set(i, (key, value));
                self.entries = entries;
                true
            },
            None => {
                proof {
                    let after = before.push((key, value));
                    assert forall|a: int, b: int| 0 <= a < b < after.len() implies (
                    #[trigger] after[a]).0@ != (#[trigger] after[b]).0@ by {
                        if b < before.len() {
                            assert(before[a].0@ != before[b].0@);
                        } else {
                            assert(before[a].0@ != key@);
                        }
                    }
                    assert(after.drop_last() =~= before);
                    assert(keys_of(after) =~= keys_of(before).push(key@));
                }
                let mut entries = self.take_entries();
                entries.push((key, value));
                self.entries = entries;
                false
            },
        }
    }

    /// Removes a key and gives its value.
    pub fn remove(&mut self, key: &str) -> (r: Option<V>)
        ensures
            final(self)@ == old(self)@.remove(key@),
            match r {
                Some(v) => old(self)@.contains_key(key@) && v == old(self)@[key@],
                None => !old(self)@.contains_key(key@),
            },
    {
        let ghost before = self.entries@;
        proof {
            use_type_invariant(&*self);
            lemma_map_of(before);
        }
        match self.find(key) {
            Some(i) => {
                proof {
                    lemma_remove(before, i as int);
                }
                let mut entries = self.take_entries();
                let (_, value) = entries.remove(i);
                self.entries = entries;
                Some(value)
            },
            None => {
                assert(self@.remove(key@) =~= self@);
                None
            },
        }
    }

    /// The key and the value at a place.
    pub fn at(&self, i: usize) -> (r: (&String, &V))
        requires
            i < self.keys().len(),
        ensures
            r.0@ == self.keys()[i as int],
            self@.contains_key(r.0@),
            *r.1 == self@[r.0@],
    {
        proof {
            use_type_invariant(self);
            lemma_map_of(self.entries@);
        }
        let e = &self.entries[i];
        (&e.0, &e.1)
    }

    /// Removes every key.
    pub fn clear(&mut self)
        ensures
            final(self)@ == Map::<Seq<char>, V>::empty(),
            final(self).keys() == Seq::<Seq<char>>::empty(),
    {
        self.entries = Vec::new();
        assert(self.keys() =~= Seq::empty());
    }

    /// The keys in dictionary order.
    pub fn keys_sorted(&self) -> (v: Vec<String>)
        ensures
            v.len() == self.keys().len(),
            forall|i: int, j: int|
                0 <= i < j < v.len() ==> text_le((#[trigger] v@[i])@, (#[trigger] v@[j])@),
            forall|i: int, j: int|
                0 <= i < j < v.len() ==> (#[trigger] v@[i])@ != (#[trigger] v@[j])@,
            forall|i: int| 0 <= i < v.len() ==> self@.contains_key((#[trigger] v@[i])@),
            forall|k: Seq<char>| #[trigger]
                self@.contains_key(k) ==> exists|i: int|
                    0 <= i < v.len() && (#[trigger] v@[i])@ == k,
    {
        let mut v: Vec<String> = Vec::new();
        let mut n: usize = 0;
        proof {
            use_type_invariant(self);
                lemma_keys_of(self.entries@);
        }
        while n < self.entries.len()
            invariant
                n <= self.entries@.len(),
                v.len() == n,
                sorted_keys(v@, self.keys().take(n as int)),
            decreases self.entries@.len() - n,
        {
            let ghost old_v = v@;
            let key = self.entries[n].0.clone();
            proof {
                use_type_invariant(self);
                lemma_keys_of(self.entries@);
                assert(self.keys()[n as int] == key@);
                let old_keys = self.keys().take(n as int);
                assert forall|i: int| 0 <= i < v.len() implies (#[trigger] v@[i])@ != key@ by {
                    assert(old_keys.contains(v@[i]@));
                    let k = choose|k: int| 0 <= k < old_keys.len() && old_keys[k] == v@[i]@;
                    assert(self.keys()[k] == v@[i]@);
                }
                assert(self.keys().take(n + 1) =~= old_keys.push(key@));
            }
            insert_sorted(&mut v, key, Ghost(self.keys().take(n as int)));
            n += 1;
        }
        proof {
            use_type_invariant(self);
                lemma_keys_of(self.entries@);
            assert(self.keys().take(n as int) =~= self.keys());
            assert forall|i: int| 0 <= i < v.len() implies self@.contains_key(
                (#[trigger] v@[i])@,
            ) by {
                assert(self.keys().contains(v@[i]@));
            }
        }
        v
    }
}

proof fn lemma_update<V>(before: Seq<(String, V)>, i: int, key: String, value: V)
    requires
        distinct(before),
        0 <= i < before.len(),
        before[i].0@ == key@,
        distinct(before.update(i, (key, value))),
    ensures
        map_of(before.update(i, (key, value))) == map_of(before).insert(key@, value),
{
    let after = before.update(i, (key, value));
    lemma_map_of(before);
    lemma_map_of(after);
    let m = map_of(before).insert(key@, value);
    let n = map_of(after);
    assert forall|k: Seq<char>| #[trigger] n.contains_key(k) == m.contains_key(k) by {
        if n.contains_key(k) {
            let j = choose|j: int| 0 <= j < after.len() && (#[trigger] after[j]).0@ == k;
            assert(before[j].0@ == k);
        }
        if m.contains_key(k) && k != key@ {
            let j = choose|j: int| 0 <= j < before.len() && (#[trigger] before[j]).0@ == k;
            assert(after[j].0@ == k);
        }
        if k == key@ {
            assert(after[i].0@ == k);
        }
    }
    assert forall|k: Seq<char>| #[trigger] n.contains_key(k) implies n[k] == m[k] by {
        let j = choose|j: int| 0 <= j < after.len() && (#[trigger] after[j]).0@ == k;
        if j != i {
            assert(before[j] == after[j]);
            if j < i {
                assert(before[j].0@ != before[i].0@);
            } else {
                assert(before[i].0@ != before[j].0@);
            }
        }
    }
    assert(n =~= m);
}

proof fn lemma_remove<V>(before: Seq<(String, V)>, i: int)
    requires
        distinct(before),
        0 <= i < before.len(),
    ensures
        distinct(before.remove(i)),
        map_of(before.remove(i)) == map_of(before).remove(before[i].0@),
{
    let after = before.remove(i);
    let key = before[i].0@;
    assert forall|a: int, b: int| 0 <= a < b < after.len() implies (#[trigger] after[a]).0@ != (
    #[trigger] after[b]).0@ by {
        let x = if a < i {
            a
        } else {
            a + 1
        };
        let y = if b < i {
            b
        } else {
            b + 1
        };
        assert(before[x].0@ != before[y].0@);
    }
    lemma_map_of(before);
    lemma_map_of(after);
    let m = map_of(before).remove(key);
    let n = map_of(after);
    assert forall|k: Seq<char>| #[trigger] n.contains_key(k) == m.contains_key(k) by {
        if n.contains_key(k) {
            let j = choose|j: int| 0 <= j < after.len() && (#[trigger] after[j]).0@ == k;
            let x = if j < i {
                j
            } else {
                j + 1
            };
            assert(before[x] == after[j]);
            if x < i {
                assert(before[x].0@ != before[i].0@);
            } else {
                assert(before[i].0@ != before[x].0@);
            }
        }
        if m.contains_key(k) {
            let j = choose|j: int| 0 <= j < before.len() && (#[trigger] before[j]).0@ == k;
            let x = if j < i {
                j
            } else {
                j - 1
            };
            assert(after[x] == before[j]);
        }
    }
    assert forall|k: Seq<char>| #[trigger] n.contains_key(k) implies n[k] == m[k] by {
        let j = choose|j: int| 0 <= j < after.len() && (#[trigger] after[j]).0@ == k;
        let x = if j < i {
            j
        } else {
            j + 1
        };
        assert(before[x] == after[j]);
    }
    assert(n =~= m);
}

/// Whether `v` holds exactly the given keys, each once, in dictionary order.
spec fn sorted_keys(v: Seq<String>, keys: Seq<Seq<char>>) -> bool {
    &&& v.len() == keys.len()
    &&& forall|i: int, j: int|
        0 <= i < j < v.len() ==> text_le((#[trigger] v[i])@, (#[trigger] v[j])@)
    &&& forall|i: int, j: int| 0 <= i < j < v.len() ==> (#[trigger] v[i])@ != (#[trigger] v[j])@
    &&& forall|i: int| 0 <= i < v.len() ==> keys.contains((#[trigger] v[i])@)
    &&& forall|k: Seq<char>| #[trigger]
        keys.contains(k) ==> exists|i: int| 0 <= i < v.len() && (#[trigger] v[i])@ == k
}

fn insert_sorted(v: &mut Vec<String>, key: String, Ghost(keys): Ghost<Seq<Seq<char>>>)
    requires
        sorted_keys(old(v)@, keys),
        forall|i: int| 0 <= i < old(v).len() ==> (#[trigger] old(v)@[i])@ != key@,
    ensures
        sorted_keys(final(v)@, keys.push(key@)),
        final(v).len() == old(v).len() + 1,
{
    let ghost before = v@;
    let mut i: usize = 0;
    while i < v.len() && text_before(v[i].as_str(), key.as_str())
        invariant
            i <= v.len(),
            v@ == before,
            forall|k: int| 0 <= k < i ==> text_le((#[trigger] before[k])@, key@),
        decreases v.len() - i,
    {
        i += 1;
    }
    v.insert(i, key);
    proof {
        let after = v@;
        let at = i as int;
        assert(after == before.insert(at, key));
        assert forall|a: int, b: int| 0 <= a < b < after.len() implies text_le(
            (#[trigger] after[a])@,
            (#[trigger] after[b])@,
        ) && after[a]@ != after[b]@ by {
            let x = if a < at {
                a
            } else {
                a - 1
            };
            let y = if b < at {
                b
            } else {
                b - 1
            };
            if a == at {
                text_order_is_total(before[at]@, key@, key@);
                if y > at {
                    assert(text_le(before[at]@, before[y]@));
                    text_order_is_total(key@, before[at]@, before[y]@);
                } else {
                    assert(y == at);
                }
                assert(before[y]@ != key@);
            } else if b == at {
                assert(text_le(before[x]@, key@));
                assert(before[x]@ != key@);
            } else {
                assert(before[x]@ != before[y]@);
                assert(text_le(before[x]@, before[y]@));
            }
        }
        let grown = keys.push(key@);
        assert forall|a: int| 0 <= a < after.len() implies grown.contains((#[trigger] after[a])@) by {
            if a == at {
                assert(grown[keys.len() as int] == key@);
            } else {
                let x = if a < at {
                    a
                } else {
                    a - 1
                };
                assert(keys.contains(before[x]@));
                let k = choose|k: int| 0 <= k < keys.len() && keys[k] == before[x]@;
                assert(grown[k] == before[x]@);
            }
        }
        assert forall|k: Seq<char>| #[trigger] grown.contains(k) implies exists|a: int|
            0 <= a < after.len() && (#[trigger] after[a])@ == k by {
            let g = choose|g: int| 0 <= g < grown.len() && grown[g] == k;
            if g == keys.len() {
                assert(after[at]@ == k);
            } else {
                assert(keys[g] == k);
                assert(keys.contains(k));
                let x = choose|x: int| 0 <= x < before.len() && (#[trigger] before[x])@ == k;
                let a = if x < at {
                    x
                } else {
                    x + 1
                };
                assert(after[a]@ == k);
            }
        }
    }
}

} // verus!
