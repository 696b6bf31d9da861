//! A set of texts.

use vstd::prelude::*;
use crate::textmap::TextMap;

verus! {

/// A set of texts.
#[derive(Debug)]
pub struct TextSet {
    map: TextMap<bool>,
}

impl TextSet {
    /// The set as a value.
    pub closed spec fn view(&self) -> Set<Seq<char>> {
        self.map@.dom()
    }

    /// A set without texts.
    pub fn new() -> (s: TextSet)
        ensures
            s@ == Set::<Seq<char>>::empty(),
    {
        let s = TextSet { map: TextMap::new() };
        assert(s@ =~= Set::empty());
        s
    }

    /// Adds a text; tells whether it is new.
    pub fn insert(&mut self, text: String) -> (new: bool)
        ensures
            final(self)@ == old(self)@.insert(text@),
            new == !old(self)@.contains(text@),
    {
        let ghost before = self.map@;
        let replaced = self.map.insert(text, true);
        assert(self@ =~= before.dom().insert(text@));
        !replaced
    }

    /// Whether a text is in the set.
    pub fn contains(&self, text: &str) -> (yes: bool)
        ensures
            yes == self@.contains(text@),
    {
        self.map.contains_key(text)
    }

    /// How many texts are in the set.
    pub fn len(&self) -> (n: usize)
        ensures
            self@.finite(),
            n == self@.len(),
    {
        self.map.len()
    }

    /// Whether the set has no text.
    pub fn is_empty(&self) -> (yes: bool)
        ensures
            yes == (self@ == Set::<Seq<char>>::empty()),
    {
        let n = self.map.len();
        proof {
            if n == 0 {
                self@.lemma_len0_is_empty();
            }
        }
        n == 0
    }

    /// The set of the texts of a list.
    pub fn from_list(list: &Vec<String>) -> (s: TextSet)
        ensures
            s@ == text_set(crate::text::texts(list@)),
    {
        let mut s = TextSet::new();
        let ghost all = crate::text::texts(list@);
        let mut i: usize = 0;
        assert(all.take(0) =~= Seq::empty());
        assert(text_set(all.take(0)) =~= Set::empty());
        while i < list.len()
            invariant
                i <= list.len(),
                all == crate::text::texts(list@),
                s@ == text_set(all.take(i as int)),
            decreases list.len() - i,
        {
            let _ = s.insert(list[i].clone());
            assert(all.take(i + 1) =~= all.take(i as int).push(all[i as int]));
            assert(text_set(all.take(i + 1)) =~= text_set(all.take(i as int)).insert(
                all[i as int],
            )) by {
                let short = all.take(i as int);
                let long = all.take(i + 1);
                assert forall|t: Seq<char>| long.contains(t) implies short.contains(t) || t
                    == all[i as int] by {
                    let k = choose|k: int| 0 <= k < long.len() && long[k] == t;
                    if k < i {
                        assert(short[k] == t);
                    }
                }
                assert forall|t: Seq<char>| short.contains(t) implies long.contains(t) by {
                    let k = choose|k: int| 0 <= k < short.len() && short[k] == t;
                    assert(long[k] == t);
                }
                assert(long[i as int] == all[i as int]);
            }
            i += 1;
        }
        assert(all.take(i as int) =~= all);
        s
    }
}

/// The texts of a list as a set.
pub open spec fn text_set(list: Seq<Seq<char>>) -> Set<Seq<char>> {
    Set::new(|t: Seq<char>| list.contains(t))
}

} // verus!
