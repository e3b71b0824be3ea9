//! A small string-to-string map for the few keys the daemons remember.
use vstd::prelude::*;
use crate::text::{chars_of, chars_eq, string_from_chars};

verus! {

broadcast use crate::views::lemma_char_vec_deep_view;


/// The map that an association list denotes: later entries shadow earlier ones.
pub open spec fn assoc_map(s: Seq<(Seq<char>, Seq<char>)>) -> Map<Seq<char>, Seq<char>>
    decreases s.len(),
{
    if s.len() == 0 {
        Map::empty()
    } else {
        assoc_map(s.drop_last()).insert(s.last().0, s.last().1)
    }
}

pub open spec fn entry_view(e: (String, String)) -> (Seq<char>, Seq<char>) {
    (e.0@, e.1@)
}

/// A map from strings to strings, kept as an association list in which a
/// later entry shadows an earlier one with the same key.
pub struct StringMap {
    entries: Vec<(String, String)>,
}

impl View for StringMap {
    type V = Map<Seq<char>, Seq<char>>;

    closed spec fn view(&self) -> Map<Seq<char>, Seq<char>> {
        assoc_map(self.entries@.map_values(|e: (String, String)| entry_view(e)))
    }
}

/// The last pair with a key gives that key's value: a repeated key takes the
/// value of its last occurrence.
pub proof fn lemma_assoc_last(s: Seq<(Seq<char>, Seq<char>)>, k: Seq<char>, i: int)
    requires
        0 <= i < s.len(),
        s[i].0 == k,
        forall|j: int| i < j < s.len() ==> s[j].0 != k,
    ensures
        assoc_map(s).contains_key(k),
        assoc_map(s)[k] == s[i].1,
    decreases s.len(),
{
    if i < s.len() - 1 {
        lemma_assoc_last(s.drop_last(), k, i);
    }
}

/// A key that no pair has is not in the map.
pub proof fn lemma_assoc_absent(s: Seq<(Seq<char>, Seq<char>)>, k: Seq<char>)
    requires
        forall|j: int| 0 <= j < s.len() ==> s[j].0 != k,
    ensures
        !assoc_map(s).contains_key(k),
    decreases s.len(),
{
    if s.len() > 0 {
        lemma_assoc_absent(s.drop_last(), k);
    }
}

impl StringMap {
    /// The empty map.
    pub fn new() -> (z: StringMap)
        ensures
            z@ == Map::<Seq<char>, Seq<char>>::empty(),
    {
        let z = StringMap { entries: Vec::new() };
        assert(z.entries@.map_values(|e: (String, String)| entry_view(e)) =~= Seq::<
            (Seq<char>, Seq<char>),
        >::empty());
        z
    }

    /// The value of `key`, if any.
    pub fn get(&self, key: &[char]) -> (r: Option<String>)
        ensures
            match r {
                Some(v) => self@.contains_key(key@) && self@[key@] == v@,
                None => !self@.contains_key(key@),
            },
    {
        let ghost s = self.entries@.map_values(|e: (String, String)| entry_view(e));
        let mut i: usize = self.entries.len();
        while i > 0
            invariant
                i <= self.entries@.len(),
                s == self.entries@.map_values(|e: (String, String)| entry_view(e)),
                forall|j: int| i <= j < s.len() ==> s[j].0 != key@,
            decreases i,
        {
            let k = chars_of(self.entries[i - 1].0.as_str());
            if chars_eq(k.as_slice(), key) {
                proof {
                    lemma_assoc_last(s, key@, i - 1);
                }
                return Some(self.entries[i - 1].1.clone());
            }
            i = i - 1;
        }
        proof {
            lemma_assoc_absent(s, key@);
        }
        None
    }

    /// Set `key` to `value`.
    pub fn insert(&mut self, key: &[char], value: String)
        ensures
            final(self)@ == old(self)@.insert(key@, value@),
    {
        let cur = self.get(key);
        if let Some(v) = cur {
            let vc = chars_of(v.as_str());
            let nc = chars_of(value.as_str());
            if chars_eq(vc.as_slice(), nc.as_slice()) {
                assert(old(self)@.insert(key@, value@) =~= old(self)@);
                return;
            }
        }
        let ghost s = self.entries@.map_values(|e: (String, String)| entry_view(e));
        self.entries.push((string_from_chars(key), value));
        assert(self.entries@.map_values(|e: (String, String)| entry_view(e)) =~= s.push(
            (key@, value@),
        ));
        assert(s.push((key@, value@)).drop_last() =~= s);
    }
}


impl StringMap {
    /// The value of `key`, if any.
    pub fn get_str(&self, key: &str) -> (r: Option<String>)
        ensures
            match r {
                Some(v) => self@.contains_key(key@) && self@[key@] == v@,
                None => !self@.contains_key(key@),
            },
    {
        let k = chars_of(key);
        self.get(k.as_slice())
    }
}

} // verus!
