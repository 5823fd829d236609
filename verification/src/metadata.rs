//! Metadata of an entry: a finite map from string keys to string values.
//!
//! The map is kept as a list of pairs. Where a key stands in the list more
//! than once, its last pair counts.

use vstd::prelude::*;

verus! {

/// The map that a list of pairs stands for.
pub open spec fn entries_map(s: Seq<(Seq<char>, Seq<char>)>) -> Map<Seq<char>, Seq<char>>
    decreases s.len(),
{
    if s.len() == 0 {
        Map::empty()
    } else {
        entries_map(s.drop_last()).insert(s.last().0, s.last().1)
    }
}

/// The characters of a pair of strings.
pub open spec fn pair_view(e: (String, String)) -> (Seq<char>, Seq<char>) {
    (e.0@, e.1@)
}

/// The characters of each pair of a list.
pub open spec fn pairs_view(v: Seq<(String, String)>) -> Seq<(Seq<char>, Seq<char>)> {
    v.map_values(|e: (String, String)| pair_view(e))
}

/// A list of pairs in which `k` does not occur stands for a map without `k`.
pub proof fn lemma_entries_absent(s: Seq<(Seq<char>, Seq<char>)>, k: Seq<char>)
    requires
        forall|j: int| 0 <= j < s.len() ==> s[j].0 != k,
    ensures
        !entries_map(s).contains_key(k),
    decreases s.len(),
{
    if s.len() > 0 {
        lemma_entries_absent(s.drop_last(), k);
    }
}

/// The last pair with key `k` gives the value of `k`.
pub proof fn lemma_entries_last(s: Seq<(Seq<char>, Seq<char>)>, i: int, k: Seq<char>)
    requires
        0 <= i < s.len(),
        s[i].0 == k,
        forall|j: int| i < j < s.len() ==> s[j].0 != k,
    ensures
        entries_map(s).contains_key(k),
        entries_map(s)[k] == s[i].1,
    decreases s.len(),
{
    if i < s.len() - 1 {
        lemma_entries_last(s.drop_last(), i, k);
    }
}

/// Replacing the value in the last pair with key `k` is inserting at `k`.
pub proof fn lemma_entries_update(
    s: Seq<(Seq<char>, Seq<char>)>,
    i: int,
    k: Seq<char>,
    v: Seq<char>,
)
    requires
        0 <= i < s.len(),
        s[i].0 == k,
        forall|j: int| i < j < s.len() ==> s[j].0 != k,
    ensures
        entries_map(s.update(i, (k, v))) == entries_map(s).insert(k, v),
    decreases s.len(),
{
    let t = s.update(i, (k, v));
    if i == s.len() - 1 {
        assert(t.drop_last() == s.drop_last());
        assert(entries_map(t) == entries_map(s).insert(k, v));
    } else {
        lemma_entries_update(s.drop_last(), i, k, v);
        assert(t.drop_last() == s.drop_last().update(i, (k, v)));
        assert(t.last() == s.last());
        assert(entries_map(t) == entries_map(s).insert(k, v));
    }
}

/// Reading one pair more is one insertion more.
pub proof fn lemma_entries_take(s: Seq<(Seq<char>, Seq<char>)>, i: int)
    requires
        0 <= i < s.len(),
    ensures
        entries_map(s.take(i + 1)) == entries_map(s.take(i)).insert(s[i].0, s[i].1),
{
    assert(s.take(i + 1).drop_last() == s.take(i));
}

/// A finite map from string keys to string values.
#[derive(Debug)]
pub struct Metadata {
    entries: Vec<(String, String)>,
}

impl View for Metadata {
    type V = Map<Seq<char>, Seq<char>>;

    closed spec fn view(&self) -> Map<Seq<char>, Seq<char>> {
        entries_map(pairs_view(self.entries@))
    }
}

impl Clone for Metadata {
    fn clone(&self) -> (r: Metadata)
        ensures
            r@ == self@,
    {
        let mut entries: Vec<(String, String)> = Vec::new();
        let mut i: usize = 0;
        while i < self.entries.len()
            invariant
                i <= self.entries.len(),
                pairs_view(entries@) == pairs_view(self.entries@).take(i as int),
            decreases self.entries.len() - i,
        {
            let ghost before = pairs_view(entries@);
            let key = self.entries[i].0.clone();
            let value = self.entries[i].1.clone();
            entries.push((key, value));
            assert(pairs_view(entries@) == before.push((key@, value@)));
            i += 1;
        }
        assert(pairs_view(self.entries@).take(i as int) == pairs_view(self.entries@));
        Metadata { entries }
    }
}

impl Metadata {
    /// The empty map.
    pub fn new() -> (r: Metadata)
        ensures
            r@ == Map::<Seq<char>, Seq<char>>::empty(),
    {
        let r = Metadata { entries: Vec::new() };
        assert(pairs_view(r.entries@) == Seq::<(Seq<char>, Seq<char>)>::empty());
        r
    }

    /// The map that `entries` stands for: a later pair overrides an earlier
    /// one with the same key.
    pub fn from_entries(entries: Vec<(String, String)>) -> (r: Metadata)
        ensures
            r@ == entries_map(pairs_view(entries@)),
    {
        Metadata { entries }
    }

    /// A list of pairs that stands for this map.
    pub fn entries(&self) -> (r: &Vec<(String, String)>)
        ensures
            entries_map(pairs_view(r@)) == self@,
    {
        &self.entries
    }

    /// The place of the last pair with key `key`.
    fn position(&self, key: &str) -> (r: Option<usize>)
        ensures
            match r {
                Some(i) => i < self.entries.len() && self.entries[i as int].0@ == key@ && forall|
                    j: int,
                |
                    i < j < self.entries.len() ==> self.entries[j].0@ != key@,
                None => forall|j: int| 0 <= j < self.entries.len() ==> self.entries[j].0@ != key@,
            },
    {
        let mut i: usize = self.entries.len();
        while i > 0
            invariant
                i <= self.entries.len(),
                forall|j: int| i <= j < self.entries.len() ==> self.entries[j].0@ != key@,
            decreases i,
        {
            i -= 1;
            if *self.entries[i].0.as_str() == *key {
                return Some(i);
            }
        }
        None
    }

    /// Whether `key` has a value.
    pub fn contains_key(&self, key: &str) -> (r: bool)
        ensures
            r == self@.contains_key(key@),
    {
        let found = self.position(key);
        proof {
            let s = pairs_view(self.entries@);
            match found {
                Some(i) => {
                    lemma_entries_last(s, i as int, key@);
                },
                None => {
                    lemma_entries_absent(s, key@);
                },
            }
        }
        found.is_some()
    }

    /// The value of `key`, if it has one.
    pub fn get(&self, key: &str) -> (r: Option<&String>)
        ensures
            match r {
                Some(v) => self@.contains_key(key@) && v@ == self@[key@],
                None => !self@.contains_key(key@),
            },
    {
        let found = self.position(key);
        proof {
            let s = pairs_view(self.entries@);
            match found {
                Some(i) => {
                    lemma_entries_last(s, i as int, key@);
                },
                None => {
                    lemma_entries_absent(s, key@);
                },
            }
        }
        match found {
            Some(i) => Some(&self.entries[i].1),
            None => None,
        }
    }

    /// Gives `key` the value `value`, in place of any it had.
    pub fn insert(&mut self, key: String, value: String)
        ensures
            final(self)@ == old(self)@.insert(key@, value@),
    {
        let found = self.position(key.as_str());
        let ghost before = pairs_view(self.entries@);
        match found {
            Some(i) => {
                proof {
                    lemma_entries_update(before, i as int, key@, value@);
                }
                self.entries.set(i, (key, value));
                assert(pairs_view(self.entries@) == before.update(i as int, (key@, value@)));
            },
            None => {
                self.entries.push((key, value));
                assert(pairs_view(self.entries@) == before.push((key@, value@)));
                assert(pairs_view(self.entries@).drop_last() == before);
            },
        }
    }

    /// Lays `other` over this map: where both have a key, the value of
    /// `other` stays.
    pub fn extend(&mut self, other: &Metadata)
        ensures
            final(self)@ == old(self)@.union_prefer_right(other@),
    {
        let ghost pairs = pairs_view(other.entries@);
        let mut i: usize = 0;
        assert(pairs.take(0) == Seq::<(Seq<char>, Seq<char>)>::empty());
        assert(self@ == old(self)@.union_prefer_right(entries_map(pairs.take(0))));
        while i < other.entries.len()
            invariant
                i <= other.entries.len(),
                pairs == pairs_view(other.entries@),
                self@ == old(self)@.union_prefer_right(entries_map(pairs.take(i as int))),
            decreases other.entries.len() - i,
        {
            let key = other.entries[i].0.clone();
            let value = other.entries[i].1.clone();
            proof {
                lemma_entries_take(pairs, i as int);
                assert(old(self)@.union_prefer_right(entries_map(pairs.take(i as int))).insert(
                    key@,
                    value@,
                ) == old(self)@.union_prefer_right(entries_map(pairs.take(i + 1))));
            }
            self.insert(key, value);
            i += 1;
        }
        assert(pairs.take(i as int) == pairs);
    }
}

} // verus!
