//! The tag set: free-form key/value metadata attached to an element.
//!
//! Modelled as a mapping from key to value; inserting an existing key
//! replaces its value.  Each tag set belongs exclusively to the element
//! that owns it.

use vstd::prelude::*;

verus! {

/// A set of key/value tags, owned by one element.
#[derive(Debug, Clone, PartialEq, Eq)]
pub struct Tags {
    entries: Vec<(String, String)>,
}

/// The mapping described by the entry list: a later entry for the same key
/// replaces an earlier one.
spec fn entries_map(s: Seq<(String, String)>) -> Map<Seq<char>, Seq<char>>
    decreases s.len(),
{
    if s.len() == 0 {
        Map::empty()
    } else {
        entries_map(s.drop_last()).insert(s.last().0@, s.last().1@)
    }
}

/// The value the entry list gives to `key`: that of the last entry whose
/// key is `key`.
spec fn entries_get(s: Seq<(String, String)>, key: Seq<char>) -> Option<Seq<char>>
    decreases s.len(),
{
    if s.len() == 0 {
        None
    } else if s.last().0@ == key {
        Some(s.last().1@)
    } else {
        entries_get(s.drop_last(), key)
    }
}

/// Lookup in the entry list agrees with lookup in the mapping it describes.
proof fn lemma_entries_get_map(s: Seq<(String, String)>, key: Seq<char>)
    ensures
        entries_get(s, key) == (if entries_map(s).contains_key(key) {
            Some(entries_map(s)[key])
        } else {
            None::<Seq<char>>
        }),
    decreases s.len(),
{
    if s.len() > 0 {
        lemma_entries_get_map(s.drop_last(), key);
    }
}

impl View for Tags {
    type V = Map<Seq<char>, Seq<char>>;

    closed spec fn view(&self) -> Map<Seq<char>, Seq<char>> {
        entries_map(self.entries@)
    }
}

impl Tags {
    /// Creates an empty tag set.
    pub fn new() -> (r: Tags)
        ensures
            r@ == Map::<Seq<char>, Seq<char>>::empty(),
    {
        Tags { entries: Vec::new() }
    }

    /// Inserts the tag `key` with value `value`, replacing any earlier
    /// value of `key`.
    pub fn insert(&mut self, key: String, value: String)
        ensures
            final(self)@ == old(self)@.insert(key@, value@),
    {
        let ghost before = self.entries@;
        let ghost k = key@;
        let ghost v = value@;
        self.entries.push((key, value));
        proof {
            assert(self.entries@.drop_last() =~= before);
            assert(self.entries@.last().0@ == k);
            assert(self.entries@.last().1@ == v);
        }
    }

    /// The value of the tag `key`, if the set holds one.
    pub fn get<'a>(&'a self, key: &String) -> (r: Option<&'a String>)
        ensures
            match r {
                Some(v) => self@.contains_key(key@) && self@[key@] == v@,
                None => !self@.contains_key(key@),
            },
    {
        proof {
            lemma_entries_get_map(self.entries@, key@);
            assert(self.entries@.take(self.entries@.len() as int) =~= self.entries@);
        }
        let mut k: usize = self.entries.len();
        while k > 0
            invariant
                k <= self.entries@.len(),
                entries_get(self.entries@, key@) == entries_get(
                    self.entries@.take(k as int),
                    key@,
                ),
            decreases k,
        {
            k = k - 1;
            proof {
                assert(self.entries@.take(k + 1 as int).drop_last() =~= self.entries@.take(
                    k as int,
                ));
                assert(self.entries@.take(k + 1 as int).last() == self.entries@[k as int]);
            }
            if self.entries[k].0 == *key {
                proof {
                    lemma_entries_get_map(self.entries@, key@);
                }
                return Some(&self.entries[k].1);
            }
        }
        proof {
            lemma_entries_get_map(self.entries@, key@);
            assert(self.entries@.take(0) =~= Seq::<(String, String)>::empty());
        }
        None
    }

    /// Whether the set holds no tag at all.
    pub fn is_empty(&self) -> (r: bool)
        ensures
            r == (self@ =~= Map::<Seq<char>, Seq<char>>::empty()),
    {
        proof {
            if self.entries@.len() > 0 {
                assert(self@.contains_key(self.entries@.last().0@));
            }
        }
        self.entries.len() == 0
    }
}

} // verus!
