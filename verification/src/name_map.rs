//! A small map keyed by names, kept as a list of distinct entries.
use vstd::prelude::*;
use crate::text::{chars_of, matches_at};

verus! {

/// The map that a list of entries denotes: later entries win.
pub open spec fn entries_map<V>(s: Seq<(String, V)>) -> Map<Seq<char>, V>
    decreases s.len(),
{
    if s.len() == 0 {
        Map::empty()
    } else {
        entries_map(s.drop_last()).insert(s.last().0@, s.last().1)
    }
}

/// No name occurs twice among the entries.
pub open spec fn distinct_names<V>(s: Seq<(String, V)>) -> bool {
    forall|i: int, j: int| 0 <= i < j < s.len() ==> s[i].0@ != s[j].0@
}

pub proof fn lemma_entries_map_domain<V>(s: Seq<(String, V)>, k: Seq<char>)
    ensures
        entries_map(s).contains_key(k) <==> exists|i: int| 0 <= i < s.len() && s[i].0@ == k,
    decreases s.len(),
{
    if s.len() > 0 {
        lemma_entries_map_domain(s.drop_last(), k);
        if entries_map(s).contains_key(k) && s.last().0@ != k {
            let i = choose|i: int| 0 <= i < s.len() - 1 && s.drop_last()[i].0@ == k;
            assert(s[i].0@ == k);
        }
        if exists|i: int| 0 <= i < s.len() && s[i].0@ == k {
            let i = choose|i: int| 0 <= i < s.len() && s[i].0@ == k;
            if i < s.len() - 1 {
                assert(s.drop_last()[i].0@ == k);
            }
        }
    }
}

pub proof fn lemma_entries_map_value<V>(s: Seq<(String, V)>, i: int)
    requires
        distinct_names(s),
        0 <= i < s.len(),
    ensures
        entries_map(s).contains_key(s[i].0@),
        entries_map(s)[s[i].0@] == s[i].1,
    decreases s.len(),
{
    if i < s.len() - 1 {
        lemma_entries_map_value(s.drop_last(), i);
        assert(s.drop_last()[i] == s[i]);
    }
}

proof fn lemma_entries_map_update<V>(s: Seq<(String, V)>, j: int, key: String, v: V)
    requires
        distinct_names(s),
        0 <= j < s.len(),
        s[j].0@ == key@,
    ensures
        entries_map(s.update(j, (key, v))) == entries_map(s).insert(key@, v),
    decreases s.len(),
{
    let t = s.update(j, (key, v));
    if j == s.len() - 1 {
        assert(t.drop_last() =~= s.drop_last());
        lemma_entries_map_domain(s.drop_last(), key@);
        if entries_map(s.drop_last()).contains_key(key@) {
            let i = choose|i: int| 0 <= i < s.len() - 1 && s.drop_last()[i].0@ == key@;
            assert(s[i].0@ == s[j].0@);
        }
        assert(entries_map(t) =~= entries_map(s).insert(key@, v));
    } else {
        assert(t.drop_last() =~= s.drop_last().update(j, (key, v)));
        lemma_entries_map_update(s.drop_last(), j, key, v);
        assert(s.last().0@ != key@);
        assert(entries_map(t) =~= entries_map(s).insert(key@, v));
    }
}

/// The entries after inserting `key`: its entry replaced in place, or a
/// new entry at the end.
pub open spec fn insert_entries<V>(s: Seq<(String, V)>, key: String, v: V) -> Seq<(String, V)> {
    if exists|i: int| 0 <= i < s.len() && s[i].0@ == key@ {
        s.update(choose|i: int| 0 <= i < s.len() && s[i].0@ == key@, (key, v))
    } else {
        s.push((key, v))
    }
}

/// A map from names to values.
pub struct NameMap<V> {
    pub entries: Vec<(String, V)>,
}

impl<V> View for NameMap<V> {
    type V = Map<Seq<char>, V>;

    open spec fn view(&self) -> Map<Seq<char>, V> {
        entries_map(self.entries@)
    }
}

impl<V> NameMap<V> {
    /// No name occurs twice.
    pub open spec fn wf(&self) -> bool {
        distinct_names(self.entries@)
    }

    /// The empty map.
    pub fn new() -> (m: Self)
        ensures
            m.wf(),
            m@ == Map::<Seq<char>, V>::empty(),
            m.entries@ == Seq::<(String, V)>::empty(),
    {
        NameMap { entries: Vec::new() }
    }

    /// The position of `key` among the entries.
    pub fn position(&self, key: &[char]) -> (r: Option<usize>)
        ensures
            r matches Some(i) ==> i < self.entries@.len() && self.entries@[i as int].0@ == key@,
            r is None ==> forall|i: int|
                0 <= i < self.entries@.len() ==> self.entries@[i].0@ != key@,
    {
        let mut i: usize = 0;
        while i < self.entries.len()
            invariant
                i <= self.entries@.len(),
                forall|j: int| 0 <= j < i ==> self.entries@[j].0@ != key@,
            decreases self.entries@.len() - i,
        {
            let name = chars_of(self.entries[i].0.as_str());
            if name.len() == key.len() && matches_at(name.as_slice(), 0, key) {
                assert(name@ =~= key@);
                return Some(i);
            }
            proof {
                if name@ == key@ {
                    assert(name@.subrange(0, key@.len() as int) =~= key@);
                }
            }
            i = i + 1;
        }
        None
    }

    /// The value stored for `key`.
    pub fn get(&self, key: &[char]) -> (r: Option<&V>)
        requires
            self.wf(),
        ensures
            r matches Some(v) ==> self@.contains_key(key@) && self@[key@] == *v,
            r is None ==> !self@.contains_key(key@),
    {
        match self.position(key) {
            Some(i) => {
                proof {
                    lemma_entries_map_value(self.entries@, i as int);
                }
                Some(&self.entries[i].1)
            },
            None => {
                proof {
                    lemma_entries_map_domain(self.entries@, key@);
                }
                None
            },
        }
    }

    /// Whether `key` is mapped.
    pub fn contains(&self, key: &[char]) -> (b: bool)
        ensures
            b == self@.contains_key(key@),
    {
        proof {
            lemma_entries_map_domain(self.entries@, key@);
        }
        match self.position(key) {
            Some(i) => {
                assert(self.entries@[i as int].0@ == key@);
                true
            },
            None => false,
        }
    }

    /// Maps `key` to `v`, replacing any earlier value.
    pub fn insert(&mut self, key: String, v: V)
        requires
            old(self).wf(),
        ensures
            final(self).wf(),
            final(self)@ == old(self)@.insert(key@, v),
            final(self).entries@ == insert_entries(old(self).entries@, key, v),
    {
        let ghost k0 = key;
        let ghost e0 = self.entries@;
        let kc = chars_of(key.as_str());
        match self.position(kc.as_slice()) {
            Some(i) => {
                proof {
                    lemma_entries_map_update(self.entries@, i as int, key, v);
                }
                let ghost before = self.entries@;
                proof {
                    let j = choose|j: int| 0 <= j < e0.len() && e0[j].0@ == k0@;
                    assert(e0[i as int].0@ == k0@);
                    if j != i as int {
                        assert(e0[j].0@ != e0[i as int].0@);
                    }
                }
                self.entries.set(i, (key, v));
                assert(self.entries@ == before.update(i as int, (key, v)));
                assert(distinct_names(self.entries@)) by {
                    assert forall|a: int, b: int|
                        0 <= a < b < self.entries@.len() implies self.entries@[a].0@
                        != self.entries@[b].0@ by {
                        assert(before[a].0@ != before[b].0@);
                    }
                }
            },
            None => {
                let ghost before = self.entries@;
                self.entries.push((key, v));
                assert(self.entries@.drop_last() =~= before);
            },
        }
    }
}


/// What a read gives back of a write: after `insert(k, v)`, `get(k)` gives
/// `v`, and every other name keeps what it had.
pub proof fn insert_then_get<V>(before: Map<Seq<char>, V>, k: Seq<char>, v: V, other: Seq<char>)
    requires
        other != k,
    ensures
        before.insert(k, v).contains_key(k),
        before.insert(k, v)[k] == v,
        before.insert(k, v).contains_key(other) == before.contains_key(other),
        before.contains_key(other) ==> before.insert(k, v)[other] == before[other],
{
}

} // verus!
