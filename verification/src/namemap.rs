//! A map keyed by names, holding its entries in insertion order.

use vstd::prelude::*;
use crate::text::str_eq;

verus! {

/// A map from names to values. Each name occurs at most once; a name keeps
/// the position of its first insertion.
pub struct NameMap<V> {
    entries: Vec<(String, V)>,
}

/// The entries, as (name, value) pairs, have pairwise distinct names.
pub open spec fn distinct_names<V>(s: Seq<(String, V)>) -> bool {
    forall|i: int, j: int| 0 <= i < j < s.len() ==> (#[trigger] s[i]).0@ != (#[trigger] s[j]).0@
}

/// The names of a sequence of entries, in order.
pub open spec fn names_of<V>(s: Seq<(String, V)>) -> Seq<Seq<char>> {
    s.map_values(|e: (String, V)| e.0@)
}

/// The map denoted by a sequence of entries with distinct names.
pub open spec fn entries_map<V>(s: Seq<(String, V)>) -> Map<Seq<char>, V>
    decreases s.len(),
{
    if s.len() == 0 {
        Map::empty()
    } else {
        entries_map(s.drop_last()).insert(s.last().0@, s.last().1)
    }
}

pub proof fn lemma_entries_map_index<V>(s: Seq<(String, V)>, i: int)
    requires
        distinct_names(s),
        0 <= i < s.len(),
    ensures
        entries_map(s).contains_key(s[i].0@),
        entries_map(s)[s[i].0@] == s[i].1,
    decreases s.len(),
{
    if i < s.len() - 1 {
        lemma_entries_map_index(s.drop_last(), i);
    }
}

pub proof fn lemma_entries_map_dom<V>(s: Seq<(String, V)>, k: Seq<char>)
    requires
        distinct_names(s),
    ensures
        entries_map(s).contains_key(k) <==> exists|i: int| 0 <= i < s.len() && (#[trigger] s[i]).0@ == k,
    decreases s.len(),
{
    if s.len() > 0 {
        lemma_entries_map_dom(s.drop_last(), k);
        if entries_map(s).contains_key(k) && s.last().0@ != k {
            let i = choose|i: int| 0 <= i < s.drop_last().len() && (#[trigger] s.drop_last()[i]).0@ == k;
            assert(s[i].0@ == k);
        }
        if exists|i: int| 0 <= i < s.len() && (#[trigger] s[i]).0@ == k {
            let i = choose|i: int| 0 <= i < s.len() && (#[trigger] s[i]).0@ == k;
            if i < s.len() - 1 {
                assert(s.drop_last()[i].0@ == k);
            }
        }
    }
}

pub proof fn lemma_entries_map_len<V>(s: Seq<(String, V)>)
    requires
        distinct_names(s),
    ensures
        entries_map(s).len() == s.len(),
        entries_map(s).dom().finite(),
    decreases s.len(),
{
    if s.len() > 0 {
        lemma_entries_map_len(s.drop_last());
        lemma_entries_map_dom(s.drop_last(), s.last().0@);
        assert(!entries_map(s.drop_last()).contains_key(s.last().0@));
    }
}

pub proof fn lemma_entries_map_update<V>(s: Seq<(String, V)>, i: int, v: V)
    requires
        distinct_names(s),
        0 <= i < s.len(),
    ensures
        distinct_names(s.update(i, (s[i].0, v))),
        entries_map(s.update(i, (s[i].0, v))) == entries_map(s).insert(s[i].0@, v),
    decreases s.len(),
{
    let t = s.update(i, (s[i].0, v));
    assert(distinct_names(t)) by {
        assert forall|a: int, b: int| 0 <= a < b < t.len() implies (#[trigger] t[a]).0@ != (#[trigger] t[b]).0@ by {
            assert(t[a].0 == s[a].0);
            assert(t[b].0 == s[b].0);
        }
    }
    if i == s.len() - 1 {
        assert(t.drop_last() =~= s.drop_last());
        assert(entries_map(t) =~= entries_map(s).insert(s[i].0@, v));
    } else {
        lemma_entries_map_update(s.drop_last(), i, v);
        assert(t.drop_last() =~= s.drop_last().update(i, (s[i].0, v)));
        lemma_entries_map_dom(s.drop_last(), s.last().0@);
        assert(entries_map(t) =~= entries_map(s).insert(s[i].0@, v));
    }
}

pub proof fn lemma_entries_map_remove<V>(s: Seq<(String, V)>, i: int)
    requires
        distinct_names(s),
        0 <= i < s.len(),
    ensures
        distinct_names(s.remove(i)),
        entries_map(s.remove(i)) == entries_map(s).remove(s[i].0@),
    decreases s.len(),
{
    let t = s.remove(i);
    assert(distinct_names(t)) by {
        assert forall|a: int, b: int| 0 <= a < b < t.len() implies (#[trigger] t[a]).0@ != (#[trigger] t[b]).0@ by {
            let a0 = if a < i { a } else { a + 1 };
            let b0 = if b < i { b } else { b + 1 };
            assert(t[a] == s[a0]);
            assert(t[b] == s[b0]);
        }
    }
    if i == s.len() - 1 {
        assert(t =~= s.drop_last());
        lemma_entries_map_dom(s.drop_last(), s.last().0@);
        assert(entries_map(t) =~= entries_map(s).remove(s[i].0@));
    } else {
        lemma_entries_map_remove(s.drop_last(), i);
        assert(t.drop_last() =~= s.drop_last().remove(i));
        assert(t.last() == s.last());
        assert(entries_map(t) =~= entries_map(s).remove(s[i].0@));
    }
}

impl<V> View for NameMap<V> {
    type V = Map<Seq<char>, V>;

    closed spec fn view(&self) -> Map<Seq<char>, V> {
        entries_map(self.entries@)
    }
}

impl<V> NameMap<V> {
    #[verifier::type_invariant]
    closed spec fn inv(&self) -> bool {
        distinct_names(self.entries@)
    }

    /// The entries in insertion order.
    pub closed spec fn entry_seq(&self) -> Seq<(String, V)> {
        self.entries@
    }

    /// An empty map.
    pub fn new() -> (m: Self)
        ensures
            m@ == Map::<Seq<char>, V>::empty(),
            m.entry_seq().len() == 0,
    {
        NameMap { entries: Vec::new() }
    }

    /// Position of the entry named `k`.
    fn position(&self, k: &str) -> (r: Option<usize>)
        ensures
            r matches Some(i) ==> i < self.entries@.len() && self.entries@[i as int].0@ == k@,
            r is None ==> forall|i: int| 0 <= i < self.entries@.len() ==> (#[trigger] self.entries@[i]).0@ != k@,
    {
        let mut i: usize = 0;
        while i < self.entries.len()
            invariant
                i <= self.entries@.len(),
                forall|j: int| 0 <= j < i ==> (#[trigger] self.entries@[j]).0@ != k@,
            decreases self.entries@.len() - i,
        {
            if str_eq(self.entries[i].0.as_str(), k) {
                return Some(i);
            }
            i = i + 1;
        }
        None
    }

    /// Number of entries.
    pub fn len(&self) -> (r: usize)
        ensures
            r == self@.len(),
            r == self.entry_seq().len(),
            distinct_names(self.entry_seq()),
            self@ == entries_map(self.entry_seq()),
    {
        proof {
            use_type_invariant(self);
            lemma_entries_map_len(self.entries@);
        }
        self.entries.len()
    }

    /// Whether an entry is named `k`.
    pub fn contains_key(&self, k: &str) -> (r: bool)
        ensures
            r == self@.contains_key(k@),
    {
        proof {
            use_type_invariant(self);
            lemma_entries_map_dom(self.entries@, k@);
        }
        self.position(k).is_some()
    }

    /// The value named `k`.
    pub fn get(&self, k: &str) -> (r: Option<&V>)
        ensures
            match r {
                Some(v) => self@.contains_key(k@) && self@[k@] == *v,
                None => !self@.contains_key(k@),
            },
    {
        proof {
            use_type_invariant(self);
            lemma_entries_map_dom(self.entries@, k@);
        }
        match self.position(k) {
            Some(i) => {
                proof {
                    lemma_entries_map_index(self.entries@, i as int);
                }
                Some(&self.entries[i].1)
            },
            None => None,
        }
    }

    /// Insert or replace the value named `k`. A new name goes last; a
    /// replaced one keeps its position.
    pub fn insert(&mut self, k: String, v: V)
        ensures
            final(self)@ == old(self)@.insert(k@, v),
            old(self)@.contains_key(k@) ==> final(self).entry_seq().len() == old(self).entry_seq().len(),
            !old(self)@.contains_key(k@) ==> final(self).entry_seq() == old(self).entry_seq().push((k, v)),
            names_of(final(self).entry_seq()) == if names_of(old(self).entry_seq()).contains(k@) {
                names_of(old(self).entry_seq())
            } else {
                names_of(old(self).entry_seq()).push(k@)
            },
    {
        proof {
            use_type_invariant(&*self);
            lemma_entries_map_dom(self.entries@, k@);
        }
        let pos = self.position(k.as_str());
        let mut es: Vec<(String, V)> = Vec::new();
        std::mem::swap(&mut es, &mut self.entries);
        let ghost s = es@;
        proof {
            if names_of(s).contains(k@) {
                let j = choose|j: int| 0 <= j < names_of(s).len() && names_of(s)[j] == k@;
                assert(s[j].0@ == k@);
            }
            if let Some(i) = pos {
                assert(names_of(s)[i as int] == k@);
            }
        }
        match pos {
            Some(i) => {
                proof {
                    lemma_entries_map_update(s, i as int, v);
                }
                let (name, _) = es.remove(i);
                proof {
                    assert(s.update(i as int, (s[i as int].0, v)) =~= es@.insert(i as int, (name, v)));
                }
                es.insert(i, (name, v));
                proof {
                    assert(names_of(es@) =~= names_of(s));
                }
            },
            None => {
                es.push((k, v));
                proof {
                    assert(es@.drop_last() =~= s);
                    assert(names_of(es@) =~= names_of(s).push(k@));
                    assert forall|a: int, b: int| 0 <= a < b < es@.len() implies (#[trigger] es@[a]).0@ != (#[trigger] es@[b]).0@ by {
                        if b == es@.len() - 1 {
                            assert(es@[a] == s[a]);
                        } else {
                            assert(es@[a] == s[a]);
                            assert(es@[b] == s[b]);
                        }
                    }
                }
            },
        }
        self.entries = es;
    }

    /// Remove the entry named `k`, returning its value.
    pub fn remove(&mut self, k: &str) -> (r: Option<V>)
        ensures
            final(self)@ == old(self)@.remove(k@),
            match r {
                Some(v) => old(self)@.contains_key(k@) && old(self)@[k@] == v,
                None => !old(self)@.contains_key(k@),
            },
    {
        proof {
            use_type_invariant(&*self);
            lemma_entries_map_dom(self.entries@, k@);
        }
        let pos = self.position(k);
        match pos {
            Some(i) => {
                let mut es: Vec<(String, V)> = Vec::new();
                std::mem::swap(&mut es, &mut self.entries);
                proof {
                    lemma_entries_map_remove(es@, i as int);
                    lemma_entries_map_index(es@, i as int);
                }
                let (_, v) = es.remove(i);
                self.entries = es;
                Some(v)
            },
            None => {
                proof {
                    assert(entries_map(self.entries@).remove(k@) =~= entries_map(self.entries@));
                }
                None
            },
        }
    }

    /// The position of the entry named `k`, if there is one.
    pub fn index_of(&self, k: &str) -> (r: Option<usize>)
        ensures
            match r {
                Some(i) => i < self.entry_seq().len() && self.entry_seq()[i as int].0@ == k@,
                None => forall|i: int| 0 <= i < self.entry_seq().len() ==> (#[trigger] self.entry_seq()[i]).0@ != k@,
            },
    {
        self.position(k)
    }

    /// The entry at position `i` in insertion order.
    pub fn entry(&self, i: usize) -> (r: (&String, &V))
        requires
            i < self.entry_seq().len(),
        ensures
            *r.0 == self.entry_seq()[i as int].0,
            *r.1 == self.entry_seq()[i as int].1,
    {
        (&self.entries[i].0, &self.entries[i].1)
    }
}

} // verus!
