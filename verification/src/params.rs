//! A small string-keyed map for format parameters, kept as an append-only
//! association list: a later entry for the same key shadows the earlier one,
//! so its mathematical image is a plain map in which the last insertion wins.

use vstd::prelude::*;
use crate::text::str_eq;

verus! {

/// The map that an association list stands for: entries applied in order,
/// later entries winning.
pub open spec fn assoc_map(entries: Seq<(String, String)>) -> Map<Seq<char>, Seq<char>>
    decreases entries.len(),
{
    if entries.len() == 0 {
        Map::empty()
    } else {
        assoc_map(entries.drop_last()).insert(entries.last().0@, entries.last().1@)
    }
}

/// Format parameters: key/value pairs of one `fmtp` attribute.
#[derive(Debug)]
pub struct ParamMap {
    entries: Vec<(String, String)>,
}

impl View for ParamMap {
    type V = Map<Seq<char>, Seq<char>>;

    closed spec fn view(&self) -> Map<Seq<char>, Seq<char>> {
        assoc_map(self.entries@)
    }
}

/// Entries whose keys all differ from `k` do not affect what the list says
/// about `k`.
proof fn lemma_assoc_map_agree(entries: Seq<(String, String)>, j: int, k: Seq<char>)
    requires
        0 <= j <= entries.len(),
        forall|t: int| j <= t < entries.len() ==> (#[trigger] entries[t]).0@ != k,
    ensures
        assoc_map(entries).contains_key(k) == assoc_map(entries.take(j)).contains_key(k),
        assoc_map(entries).contains_key(k) ==> assoc_map(entries)[k] == assoc_map(
            entries.take(j))[k],
    decreases entries.len() - j,
{
    if j == entries.len() {
        assert(entries.take(j) =~= entries);
    } else {
        lemma_assoc_map_agree(entries, j + 1, k);
        assert(entries.take(j + 1).drop_last() =~= entries.take(j));
        assert(entries.take(j + 1).last() == entries[j]);
    }
}

impl ParamMap {
    /// An empty parameter map.
    pub fn new() -> (r: ParamMap)
        ensures
            r@ == Map::<Seq<char>, Seq<char>>::empty(),
    {
        ParamMap { entries: Vec::new() }
    }

    /// Add one parameter; an earlier value under the same key is shadowed.
    pub fn insert(&mut self, key: String, value: String)
        ensures
            final(self)@ == old(self)@.insert(key@, value@),
    {
        let ghost pre = self.entries@;
        self.entries.push((key, value));
        proof {
            assert(self.entries@.drop_last() =~= pre);
        }
    }

    /// The value last inserted under `key`, if any.
    pub fn get(&self, key: &str) -> (r: Option<&String>)
        ensures
            match r {
                Some(v) => self@.contains_key(key@) && v@ == self@[key@],
                None => !self@.contains_key(key@),
            },
    {
        let mut i: usize = self.entries.len();
        while i > 0
            invariant
                i <= self.entries.len(),
                forall|t: int| i <= t < self.entries@.len() ==> (#[trigger] self.entries@[t]).0@
                    != key@,
            decreases i,
        {
            if str_eq(self.entries[i - 1].0.as_str(), key) {
                proof {
                    lemma_assoc_map_agree(self.entries@, i as int, key@);
                    assert(self.entries@.take(i as int).drop_last() =~= self.entries@.take(
                        i - 1));
                    assert(self.entries@.take(i as int).last() == self.entries@[i - 1]);
                }
                return Some(&self.entries[i - 1].1);
            }
            i -= 1;
        }
        proof {
            lemma_assoc_map_agree(self.entries@, 0, key@);
            assert(self.entries@.take(0) =~= Seq::<(String, String)>::empty());
        }
        None
    }
}

} // verus!
