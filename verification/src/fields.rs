//! A map from names to values, both text, as used for query parameters,
//! headers and cookies.

use vstd::prelude::*;

verus! {

/// Equality of string slices compares their characters, as `str`'s
/// `PartialEq` impl in std documents.
pub assume_specification[ <str as PartialEq>::eq ](a: &str, b: &str) -> (r: bool)
    ensures
        r == (a@ == b@),
;

/// A list of (name, value) pairs seen as sequences of characters.
pub open spec fn pairs_view(pairs: Seq<(String, String)>) -> Seq<(Seq<char>, Seq<char>)> {
    Seq::new(pairs.len(), |i: int| (pairs[i].0@, pairs[i].1@))
}

/// The map that results from entering the pairs from left to right: a later
/// pair replaces an earlier one of the same name.
pub open spec fn map_of_pairs(pairs: Seq<(Seq<char>, Seq<char>)>) -> Map<Seq<char>, Seq<char>>
    decreases pairs.len(),
{
    if pairs.len() == 0 {
        Map::empty()
    } else {
        map_of_pairs(pairs.drop_last()).insert(pairs.last().0, pairs.last().1)
    }
}

/// No name occurs twice.
pub open spec fn distinct_names(pairs: Seq<(Seq<char>, Seq<char>)>) -> bool {
    forall|i: int, j: int| 0 <= i < j < pairs.len() ==> pairs[i].0 != pairs[j].0
}

proof fn lemma_absent(s: Seq<(Seq<char>, Seq<char>)>, k: Seq<char>)
    requires
        forall|i: int| 0 <= i < s.len() ==> s[i].0 != k,
    ensures
        !map_of_pairs(s).contains_key(k),
    decreases s.len(),
{
    if s.len() > 0 {
        lemma_absent(s.drop_last(), k);
    }
}

proof fn lemma_lookup(s: Seq<(Seq<char>, Seq<char>)>, i: int)
    requires
        distinct_names(s),
        0 <= i < s.len(),
    ensures
        map_of_pairs(s).contains_key(s[i].0),
        map_of_pairs(s)[s[i].0] == s[i].1,
    decreases s.len(),
{
    if i < s.len() - 1 {
        lemma_lookup(s.drop_last(), i);
    }
}

proof fn lemma_remove(s: Seq<(Seq<char>, Seq<char>)>, i: int)
    requires
        distinct_names(s),
        0 <= i < s.len(),
    ensures
        distinct_names(s.remove(i)),
        map_of_pairs(s.remove(i)) == map_of_pairs(s).remove(s[i].0),
    decreases s.len(),
{
    let rest = s.drop_last();
    if i == s.len() - 1 {
        assert(s.remove(i) =~= rest);
        lemma_absent(rest, s[i].0);
        assert(map_of_pairs(rest) =~= map_of_pairs(s).remove(s[i].0));
    } else {
        lemma_remove(rest, i);
        assert(s.remove(i).drop_last() =~= rest.remove(i));
        assert(s.remove(i).last() == s.last());
        assert(map_of_pairs(s.remove(i)) =~= map_of_pairs(s).remove(s[i].0));
    }
}

proof fn lemma_len(s: Seq<(Seq<char>, Seq<char>)>)
    requires
        distinct_names(s),
    ensures
        map_of_pairs(s).dom().finite(),
        map_of_pairs(s).dom().len() == s.len(),
    decreases s.len(),
{
    if s.len() > 0 {
        lemma_len(s.drop_last());
        lemma_absent(s.drop_last(), s.last().0);
    }
}

/// A finite map from names to values. It holds each name once; entering a
/// name again replaces its value.
#[derive(Debug)]
pub struct StringMap {
    entries: Vec<(String, String)>,
}

impl View for StringMap {
    type V = Map<Seq<char>, Seq<char>>;

    closed spec fn view(&self) -> Map<Seq<char>, Seq<char>> {
        map_of_pairs(pairs_view(self.entries@))
    }
}

impl Clone for StringMap {
    fn clone(&self) -> (copy: StringMap)
        ensures
            copy@ == self@,
    {
        proof {
            use_type_invariant(self);
        }
        let mut entries: Vec<(String, String)> = Vec::new();
        let mut i: usize = 0;
        while i < self.entries.len()
            invariant
                i <= self.entries@.len(),
                entries@.len() == i,
                pairs_view(entries@) == pairs_view(self.entries@).take(i as int),
            decreases self.entries@.len() - i,
        {
            let name = self.entries[i].0.clone();
            let value = self.entries[i].1.clone();
            let ghost copied = pairs_view(entries@);
            entries.push((name, value));
            proof {
                let now = pairs_view(entries@);
                let all = pairs_view(self.entries@);
                assert forall|j: int| 0 <= j < now.len() implies now[j] == all.take(i + 1)[j] by {
                    if j < i {
                        assert(now[j] == copied[j]);
                    }
                }
                assert(now =~= all.take(i + 1));
            }
            i = i + 1;
        }
        assert(pairs_view(entries@) =~= pairs_view(self.entries@));
        StringMap { entries }
    }
}

impl StringMap {
    #[verifier::type_invariant]
    spec fn names_occur_once(self) -> bool {
        distinct_names(pairs_view(self.entries@))
    }

    /// The empty map.
    pub fn new() -> (m: StringMap)
        ensures
            m@ == Map::<Seq<char>, Seq<char>>::empty(),
    {
        StringMap { entries: Vec::new() }
    }

    /// The map that results from entering `pairs` from left to right.
    pub fn from_pairs(pairs: &Vec<(String, String)>) -> (m: StringMap)
        ensures
            m@ == map_of_pairs(pairs_view(pairs@)),
    {
        let mut m = StringMap::new();
        let mut i: usize = 0;
        while i < pairs.len()
            invariant
                i <= pairs@.len(),
                m@ == map_of_pairs(pairs_view(pairs@).take(i as int)),
            decreases pairs@.len() - i,
        {
            let name = pairs[i].0.clone();
            let value = pairs[i].1.clone();
            proof {
                let all = pairs_view(pairs@);
                assert(all.take(i + 1).drop_last() =~= all.take(i as int));
                assert(all.take(i + 1).last() == (name@, value@));
            }
            m.insert(name, value);
            i = i + 1;
        }
        assert(pairs_view(pairs@).take(i as int) =~= pairs_view(pairs@));
        m
    }

    /// The pairs of the map, each name once, in no particular order.
    pub fn pairs(&self) -> (pairs: Vec<(String, String)>)
        ensures
            distinct_names(pairs_view(pairs@)),
            map_of_pairs(pairs_view(pairs@)) == self@,
    {
        proof {
            use_type_invariant(self);
        }
        let copy = self.clone();
        proof {
            use_type_invariant(&copy);
        }
        copy.entries
    }

    fn position(&self, key: &str) -> (r: Option<usize>)
        ensures
            match r {
                Some(i) => i < self.entries@.len() && self.entries@[i as int].0@ == key@,
                None => forall|i: int| 0 <= i < self.entries@.len() ==> self.entries@[i].0@ != key@,
            },
    {
        let mut i: usize = 0;
        while i < self.entries.len()
            invariant
                i <= self.entries@.len(),
                forall|j: int| 0 <= j < i ==> self.entries@[j].0@ != key@,
            decreases self.entries@.len() - i,
        {
            if self.entries[i].0.as_str().eq(key) {
                return Some(i);
            }
            i = i + 1;
        }
        None
    }

    /// The value entered under `key`, if there is one.
    pub fn get(&self, key: &str) -> (r: Option<&String>)
        ensures
            match r {
                Some(v) => self@.contains_key(key@) && self@[key@] == v@,
                None => !self@.contains_key(key@),
            },
    {
        proof {
            use_type_invariant(self);
        }
        match self.position(key) {
            Some(i) => {
                proof {
                    lemma_lookup(pairs_view(self.entries@), i as int);
                }
                Some(&self.entries[i].1)
            },
            None => {
                proof {
                    lemma_absent(pairs_view(self.entries@), key@);
                }
                None
            },
        }
    }

    /// Whether a value is entered under `key`.
    pub fn contains_key(&self, key: &str) -> (r: bool)
        ensures
            r == self@.contains_key(key@),
    {
        self.get(key).is_some()
    }

    /// The number of names in the map.
    pub fn len(&self) -> (n: usize)
        ensures
            self@.dom().finite(),
            n == self@.dom().len(),
    {
        proof {
            use_type_invariant(self);
            lemma_len(pairs_view(self.entries@));
        }
        self.entries.len()
    }

    /// Whether the map holds no name at all.
    pub fn is_empty(&self) -> (r: bool)
        ensures
            r == (self@ == Map::<Seq<char>, Seq<char>>::empty()),
    {
        proof {
            use_type_invariant(self);
            lemma_len(pairs_view(self.entries@));
            if self.entries@.len() == 0 {
                assert(self@ =~= Map::<Seq<char>, Seq<char>>::empty());
            }
        }
        self.entries.len() == 0
    }

    /// Enters `value` under `key` and returns the value that stood there
    /// before, if any.
    pub fn insert(&mut self, key: String, value: String) -> (previous: Option<String>)
        ensures
            final(self)@ == old(self)@.insert(key@, value@),
            match previous {
                Some(v) => old(self)@.contains_key(key@) && old(self)@[key@] == v@,
                None => !old(self)@.contains_key(key@),
            },
    {
        proof {
            use_type_invariant(&*self);
        }
        let ghost before = pairs_view(self.entries@);
        let found = self.position(key.as_str());
        let mut entries: Vec<(String, String)> = Vec::new();
        std::mem::swap(&mut self.entries, &mut entries);
        let previous = match found {
            Some(i) => {
                proof {
                    lemma_lookup(before, i as int);
                    lemma_remove(before, i as int);
                }
                let gone = entries.remove(i);
                assert(pairs_view(entries@) =~= before.remove(i as int));
                assert forall|j: int| 0 <= j < before.remove(i as int).len() implies before.remove(
                    i as int,
                )[j].0 != key@ by {
                    if j < i {
                        assert(before[j].0 != before[i as int].0);
                    } else {
                        assert(before[i as int].0 != before[j + 1].0);
                    }
                }
                Some(gone.1)
            },
            None => {
                proof {
                    lemma_absent(before, key@);
                }
                None
            },
        };
        let ghost kept = pairs_view(entries@);
        entries.push((key, value));
        proof {
            let now = pairs_view(entries@);
            assert(now.drop_last() =~= kept);
            assert(now.last() == (key@, value@));
            assert(map_of_pairs(kept).insert(key@, value@) =~= map_of_pairs(before).insert(
                key@,
                value@,
            ));
            assert forall|a: int, b: int| 0 <= a < b < now.len() implies now[a].0 != now[b].0 by {
                assert(now[a] == kept[a]);
                if b < kept.len() {
                    assert(now[b] == kept[b]);
                }
            }
        }
        self.entries = entries;
        previous
    }

    /// Takes `key` out of the map and returns the value that stood under it,
    /// if any.
    pub fn remove(&mut self, key: &str) -> (previous: Option<String>)
        ensures
            final(self)@ == old(self)@.remove(key@),
            match previous {
                Some(v) => old(self)@.contains_key(key@) && old(self)@[key@] == v@,
                None => !old(self)@.contains_key(key@),
            },
    {
        proof {
            use_type_invariant(&*self);
        }
        let ghost before = pairs_view(self.entries@);
        match self.position(key) {
            Some(i) => {
                proof {
                    lemma_lookup(before, i as int);
                    lemma_remove(before, i as int);
                }
                let mut entries: Vec<(String, String)> = Vec::new();
                std::mem::swap(&mut self.entries, &mut entries);
                let gone = entries.remove(i);
                assert(pairs_view(entries@) =~= before.remove(i as int));
                self.entries = entries;
                Some(gone.1)
            },
            None => {
                proof {
                    lemma_absent(before, key@);
                    assert(map_of_pairs(before).remove(key@) =~= map_of_pairs(before));
                }
                None
            },
        }
    }
}

} // verus!
