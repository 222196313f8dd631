//! Association lists keyed by byte strings, abstracted as `Map`s.
//!
//! A caller-supplied name → value collection is stored as a list of entries;
//! a later entry for a name supersedes an earlier one, so the abstract view
//! is exactly the map obtained by folding `insert` over the entries.

use vstd::prelude::*;
use crate::wire::bytes_eq;

verus! {

/// One name → value binding.
pub struct AssocEntry<V> {
    pub name: Vec<u8>,
    pub value: V,
}

/// A name → value map stored as an ordered list of bindings.
pub struct AssocList<V> {
    entries: Vec<AssocEntry<V>>,
}

/// The map described by a list of bindings: later bindings win.
pub open spec fn map_of<V: View>(s: Seq<AssocEntry<V>>) -> Map<Seq<u8>, V::V>
    decreases s.len(),
{
    if s.len() == 0 {
        Map::empty()
    } else {
        map_of(s.drop_last()).insert(s.last().name@, s.last().value@)
    }
}

impl<V: View> View for AssocList<V> {
    type V = Map<Seq<u8>, V::V>;

    closed spec fn view(&self) -> Map<Seq<u8>, V::V> {
        map_of(self.entries@)
    }
}

/// A binding that no later binding shadows decides the map at its name.
proof fn lemma_map_of_last_match<V: View>(s: Seq<AssocEntry<V>>, i: int)
    requires
        0 <= i < s.len(),
        forall|j: int| i < j < s.len() ==> s[j].name@ != s[i].name@,
    ensures
        map_of(s).contains_key(s[i].name@),
        map_of(s)[s[i].name@] == s[i].value@,
    decreases s.len(),
{
    if i == s.len() - 1 {
    } else {
        assert(s.last().name@ != s[i].name@);
        assert(s.drop_last()[i] == s[i]);
        assert forall|j: int| i < j < s.drop_last().len() implies #[trigger] s.drop_last()[j].name@
            != s.drop_last()[i].name@ by {
            assert(s.drop_last()[j] == s[j]);
        }
        lemma_map_of_last_match(s.drop_last(), i);
    }
}

/// A name that no binding carries is absent from the map.
proof fn lemma_map_of_no_match<V: View>(s: Seq<AssocEntry<V>>, k: Seq<u8>)
    requires
        forall|j: int| 0 <= j < s.len() ==> s[j].name@ != k,
    ensures
        !map_of(s).contains_key(k),
    decreases s.len(),
{
    if s.len() > 0 {
        assert forall|j: int| 0 <= j < s.drop_last().len() implies #[trigger] s.drop_last()[j].name@
            != k by {
            assert(s.drop_last()[j] == s[j]);
        }
        lemma_map_of_no_match(s.drop_last(), k);
    }
}

impl<V: View> AssocList<V> {
    /// Creates an empty map.
    pub fn new() -> (r: Self)
        ensures
            r@ == Map::<Seq<u8>, V::V>::empty(),
    {
        AssocList { entries: Vec::new() }
    }

    /// Binds `name` to `value`, superseding any earlier binding of `name`.
    pub fn insert(&mut self, name: Vec<u8>, value: V)
        ensures
            final(self)@ == old(self)@.insert(name@, value@),
    {
        let ghost n: Seq<u8> = name@;
        let ghost v: V::V = value@;
        self.entries.push(AssocEntry { name, value });
        proof {
            assert(self.entries@.drop_last() =~= old(self).entries@);
            assert(self.entries@.last().name@ == n);
            assert(self.entries@.last().value@ == v);
        }
    }

    /// Looks the value bound to `name` up.
    pub fn get(&self, name: &Vec<u8>) -> (r: Option<&V>)
        ensures
            match r {
                Some(v) => self@.contains_key(name@) && v@ == self@[name@],
                None => !self@.contains_key(name@),
            },
    {
        let mut i: usize = self.entries.len();
        while i > 0
            invariant
                i <= self.entries@.len(),
                forall|j: int| i <= j < self.entries@.len() ==> self.entries@[j].name@ != name@,
            decreases i,
        {
            i = i - 1;
            if bytes_eq(&self.entries[i].name, name) {
                proof {
                    lemma_map_of_last_match(self.entries@, i as int);
                }
                return Some(&self.entries[i].value);
            }
        }
        proof {
            lemma_map_of_no_match(self.entries@, name@);
        }
        None
    }
}

} // verus!
