//! A small map keyed by strings, kept as a vector of distinct keys.
use vstd::prelude::*;

use crate::text::{copy_string, str_eq};

verus! {

/// The map an entry list stands for: later entries override earlier ones.
pub open spec fn as_map<V>(es: Seq<(Seq<char>, V)>) -> Map<Seq<char>, V>
    decreases es.len(),
{
    if es.len() == 0 {
        Map::empty()
    } else {
        as_map(es.drop_last()).insert(es.last().0, es.last().1)
    }
}

/// No key occurs twice.
pub open spec fn distinct_keys<V>(es: Seq<(Seq<char>, V)>) -> bool {
    forall|i: int, j: int| 0 <= i < j < es.len() ==> es[i].0 != es[j].0
}

pub proof fn lemma_as_map_domain<V>(es: Seq<(Seq<char>, V)>, k: Seq<char>)
    ensures
        as_map(es).contains_key(k) <==> exists|i: int| 0 <= i < es.len() && es[i].0 == k,
    decreases es.len(),
{
    if es.len() > 0 {
        let d = es.drop_last();
        lemma_as_map_domain(d, k);
        if as_map(d).contains_key(k) {
            let i = choose|i: int| 0 <= i < d.len() && d[i].0 == k;
            assert(es[i].0 == k);
        }
        if exists|i: int| 0 <= i < es.len() && es[i].0 == k {
            let i = choose|i: int| 0 <= i < es.len() && es[i].0 == k;
            if i < d.len() {
                assert(d[i].0 == k);
            }
        }
    }
}

pub proof fn lemma_as_map_value<V>(es: Seq<(Seq<char>, V)>, i: int)
    requires
        distinct_keys(es),
        0 <= i < es.len(),
    ensures
        as_map(es).contains_key(es[i].0),
        as_map(es)[es[i].0] == es[i].1,
    decreases es.len(),
{
    let d = es.drop_last();
    if i < es.len() - 1 {
        assert(d[i] == es[i]);
        lemma_as_map_value(d, i);
    }
}

proof fn lemma_as_map_update<V>(es: Seq<(Seq<char>, V)>, i: int, v: V)
    requires
        distinct_keys(es),
        0 <= i < es.len(),
    ensures
        distinct_keys(es.update(i, (es[i].0, v))),
        as_map(es.update(i, (es[i].0, v))) == as_map(es).insert(es[i].0, v),
{
    let k = es[i].0;
    let es2 = es.update(i, (k, v));
    assert(distinct_keys(es2));
    assert forall|k2: Seq<char>| #[trigger] as_map(es2).contains_key(k2) == as_map(es).insert(
        k,
        v,
    ).contains_key(k2) by {
        lemma_as_map_domain(es2, k2);
        lemma_as_map_domain(es, k2);
        if exists|j: int| 0 <= j < es.len() && es[j].0 == k2 {
            let j = choose|j: int| 0 <= j < es.len() && es[j].0 == k2;
            assert(es2[j].0 == k2);
        }
        if exists|j: int| 0 <= j < es2.len() && es2[j].0 == k2 {
            let j = choose|j: int| 0 <= j < es2.len() && es2[j].0 == k2;
            assert(es[j].0 == k2);
        }
    }
    assert forall|k2: Seq<char>| #[trigger] as_map(es2).contains_key(k2) implies as_map(es2)[k2]
        == as_map(es).insert(k, v)[k2] by {
        lemma_as_map_domain(es2, k2);
        let j = choose|j: int| 0 <= j < es2.len() && es2[j].0 == k2;
        lemma_as_map_value(es2, j);
        if j != i {
            assert(es2[j] == es[j]);
            lemma_as_map_value(es, j);
        }
    }
    assert(as_map(es2) =~= as_map(es).insert(k, v));
}

proof fn lemma_as_map_remove<V>(es: Seq<(Seq<char>, V)>, i: int)
    requires
        distinct_keys(es),
        0 <= i < es.len(),
    ensures
        distinct_keys(es.remove(i)),
        as_map(es.remove(i)) == as_map(es).remove(es[i].0),
{
    let k = es[i].0;
    let es2 = es.remove(i);
    assert forall|a: int, b: int| 0 <= a < b < es2.len() implies es2[a].0 != es2[b].0 by {
        if a < i {
            if b < i {
                assert(es2[b] == es[b]);
            } else {
                assert(es2[b] == es[b + 1]);
            }
        } else {
            assert(es2[a] == es[a + 1] && es2[b] == es[b + 1]);
        }
    }
    assert forall|k2: Seq<char>| #[trigger] as_map(es2).contains_key(k2) == as_map(es).remove(
        k,
    ).contains_key(k2) by {
        lemma_as_map_domain(es2, k2);
        lemma_as_map_domain(es, k2);
        if exists|j: int| 0 <= j < es2.len() && es2[j].0 == k2 {
            let j = choose|j: int| 0 <= j < es2.len() && es2[j].0 == k2;
            if j < i {
                assert(es[j].0 == k2);
            } else {
                assert(es[j + 1].0 == k2);
            }
        }
        if k2 != k && exists|j: int| 0 <= j < es.len() && es[j].0 == k2 {
            let j = choose|j: int| 0 <= j < es.len() && es[j].0 == k2;
            if j < i {
                assert(es2[j].0 == k2);
            } else {
                assert(es2[j - 1].0 == k2);
            }
        }
    }
    assert forall|k2: Seq<char>| #[trigger] as_map(es2).contains_key(k2) implies as_map(es2)[k2]
        == as_map(es).remove(k)[k2] by {
        lemma_as_map_domain(es2, k2);
        let j = choose|j: int| 0 <= j < es2.len() && es2[j].0 == k2;
        lemma_as_map_value(es2, j);
        if j < i {
            assert(es2[j] == es[j]);
            lemma_as_map_value(es, j);
        } else {
            assert(es2[j] == es[j + 1]);
            lemma_as_map_value(es, j + 1);
        }
    }
    assert(as_map(es2) =~= as_map(es).remove(k));
}

/// Mapping the values of the entries maps the values of the map.
pub proof fn lemma_as_map_map_values<V, W>(es: Seq<(Seq<char>, V)>, g: spec_fn(V) -> W)
    ensures
        as_map(es.map_values(|e: (Seq<char>, V)| (e.0, g(e.1)))) == as_map(es).map_values(g),
    decreases es.len(),
{
    let f = |e: (Seq<char>, V)| (e.0, g(e.1));
    if es.len() == 0 {
        assert(es.map_values(f) =~= Seq::<(Seq<char>, W)>::empty());
        assert(as_map(es).map_values(g) =~= Map::<Seq<char>, W>::empty());
    } else {
        let d = es.drop_last();
        lemma_as_map_map_values(d, g);
        assert(es.map_values(f).drop_last() =~= d.map_values(f));
        assert(as_map(es.map_values(f)) =~= as_map(es).map_values(g));
    }
}

/// Keys stay distinct when the values are mapped.
pub proof fn lemma_distinct_map_values<V, W>(es: Seq<(Seq<char>, V)>, g: spec_fn(V) -> W)
    requires
        distinct_keys(es),
    ensures
        distinct_keys(es.map_values(|e: (Seq<char>, V)| (e.0, g(e.1)))),
{
}

/// A map from strings to values, keeping its keys in insertion order
/// (`==` compares the entries in that order).
#[derive(Debug, PartialEq)]
pub struct StrMap<V> {
    entries: Vec<(String, V)>,
}

impl<V> View for StrMap<V> {
    type V = Map<Seq<char>, V>;

    open spec fn view(&self) -> Map<Seq<char>, V> {
        as_map(self.entries_view())
    }
}

impl<V> StrMap<V> {
    /// The entries with their keys as character sequences.
    pub closed spec fn entries_view(&self) -> Seq<(Seq<char>, V)> {
        self.entries@.map_values(|e: (String, V)| (e.0@, e.1))
    }

    /// Keys are distinct.
    pub closed spec fn wf(&self) -> bool {
        distinct_keys(self.entries_view())
    }

    /// An empty map.
    pub fn new() -> (m: StrMap<V>)
        ensures
            m.wf(),
            m@ == Map::<Seq<char>, V>::empty(),
            m.entries_view() == Seq::<(Seq<char>, V)>::empty(),
    {
        let m = StrMap { entries: Vec::new() };
        assert(m.entries_view() =~= Seq::<(Seq<char>, V)>::empty());
        m
    }

    fn index_of(&self, key: &str) -> (r: Option<usize>)
        requires
            self.wf(),
        ensures
            r matches Some(i) ==> i < self.entries@.len() && self.entries_view()[i as int].0
                == key@,
            r is None ==> !self@.contains_key(key@),
    {
        let mut i: usize = 0;
        while i < self.entries.len()
            invariant
                i <= self.entries.len(),
                forall|j: int| 0 <= j < i ==> self.entries_view()[j].0 != key@,
            decreases self.entries.len() - i,
        {
            if str_eq(self.entries[i].0.as_str(), key) {
                return Some(i);
            }
            i = i + 1;
        }
        proof {
            lemma_as_map_domain(self.entries_view(), key@);
        }
        None
    }

    /// The value stored under `key`.
    pub fn get(&self, key: &str) -> (r: Option<&V>)
        requires
            self.wf(),
        ensures
            self@.contains_key(key@) ==> r == Some(&self@[key@]),
            !self@.contains_key(key@) ==> r is None,
    {
        match self.index_of(key) {
            Some(i) => {
                proof {
                    lemma_as_map_value(self.entries_view(), i as int);
                }
                Some(&self.entries[i].1)
            },
            None => None,
        }
    }

    /// Stores `value` under `key`, replacing an earlier value.
    pub fn insert(&mut self, key: String, value: V)
        requires
            old(self).wf(),
        ensures
            final(self).wf(),
            final(self)@ == old(self)@.insert(key@, value),
    {
        match self.index_of(key.as_str()) {
            Some(i) => {
                let ghost es = self.entries_view();
                proof {
                    lemma_as_map_update(es, i as int, value);
                }
                self.entries.set(i, (key, value));
                assert(self.entries_view() =~= es.update(i as int, (es[i as int].0, value)));
            },
            None => {
                let ghost es = self.entries_view();
                let ghost k = key@;
                self.entries.push((key, value));
                proof {
                    assert(self.entries_view() =~= es.push((k, value)));
                    assert(self.entries_view().drop_last() =~= es);
                    lemma_as_map_domain(es, k);
                    assert forall|a: int, b: int|
                        0 <= a < b < self.entries_view().len() implies self.entries_view()[a].0
                        != self.entries_view()[b].0 by {
                        if b == es.len() {
                            assert(es[a].0 != k);
                        }
                    }
                }
            },
        }
    }

    /// Removes `key`.
    pub fn remove(&mut self, key: &str)
        requires
            old(self).wf(),
        ensures
            final(self).wf(),
            final(self)@ == old(self)@.remove(key@),
    {
        match self.index_of(key) {
            Some(i) => {
                let ghost es = self.entries_view();
                proof {
                    lemma_as_map_remove(es, i as int);
                }
                self.entries.remove(i);
                assert(self.entries_view() =~= es.remove(i as int));
            },
            None => {
                assert(self@ =~= self@.remove(key@));
            },
        }
    }

    /// Removes every entry.
    pub fn clear(&mut self)
        ensures
            final(self).wf(),
            final(self)@ == Map::<Seq<char>, V>::empty(),
    {
        self.entries.clear();
        assert(self.entries_view() =~= Seq::<(Seq<char>, V)>::empty());
    }

    /// Number of keys.
    pub fn len(&self) -> (n: usize)
        requires
            self.wf(),
        ensures
            n == self@.len(),
    {
        proof {
            self.lemma_len();
        }
        self.entries.len()
    }

    /// The map has one key per entry.
    pub proof fn lemma_len(&self)
        requires
            self.wf(),
        ensures
            self@.len() == self.entries_view().len(),
            self@.dom().finite(),
    {
        lemma_distinct_len(self.entries_view());
    }

    /// The entries have distinct keys.
    pub proof fn lemma_wf(&self)
        requires
            self.wf(),
        ensures
            distinct_keys(self.entries_view()),
    {
    }

    /// Entry `k` is in the map.
    pub proof fn lemma_entry(&self, k: int)
        requires
            self.wf(),
            0 <= k < self.entries_view().len(),
        ensures
            self@.contains_key(self.entries_view()[k].0),
            self@[self.entries_view()[k].0] == self.entries_view()[k].1,
    {
        lemma_as_map_value(self.entries_view(), k);
    }

    /// The entries, in insertion order.
    pub fn entries(&self) -> (es: &Vec<(String, V)>)
        ensures
            es@.map_values(|e: (String, V)| (e.0@, e.1)) == self.entries_view(),
    {
        &self.entries
    }
}

proof fn lemma_distinct_len<V>(es: Seq<(Seq<char>, V)>)
    requires
        distinct_keys(es),
    ensures
        as_map(es).dom().finite(),
        as_map(es).len() == es.len(),
    decreases es.len(),
{
    if es.len() > 0 {
        let d = es.drop_last();
        assert(distinct_keys(d));
        lemma_distinct_len(d);
        lemma_as_map_domain(d, es.last().0);
        assert(!as_map(d).contains_key(es.last().0)) by {
            if as_map(d).contains_key(es.last().0) {
                let i = choose|i: int| 0 <= i < d.len() && d[i].0 == es.last().0;
                assert(es[i].0 == es[es.len() - 1].0);
            }
        }
    }
}

impl StrMap<String> {
    /// A copy of the map.
    pub fn snapshot(&self) -> (m: StrMap<String>)
        requires
            self.wf(),
        ensures
            m.wf(),
            m.entries_view().map_values(|e: (Seq<char>, String)| (e.0, e.1@))
                == self.entries_view().map_values(|e: (Seq<char>, String)| (e.0, e.1@)),
    {
        let mut entries: Vec<(String, String)> = Vec::new();
        let mut i: usize = 0;
        while i < self.entries.len()
            invariant
                i <= self.entries.len(),
                self.wf(),
                entries@.len() == i,
                forall|j: int|
                    0 <= j < i ==> entries@[j].0@ == self.entries@[j].0@ && entries@[j].1@
                        == self.entries@[j].1@,
            decreases self.entries.len() - i,
        {
            entries.push((copy_string(&self.entries[i].0), copy_string(&self.entries[i].1)));
            i = i + 1;
        }
        let m = StrMap { entries };
        proof {
            assert(m.entries_view().map_values(|e: (Seq<char>, String)| (e.0, e.1@))
                =~= self.entries_view().map_values(|e: (Seq<char>, String)| (e.0, e.1@)));
            assert forall|a: int, b: int|
                0 <= a < b < m.entries_view().len() implies m.entries_view()[a].0
                != m.entries_view()[b].0 by {
                assert(self.entries_view()[a].0 != self.entries_view()[b].0);
            }
        }
        m
    }
}

} // verus!
