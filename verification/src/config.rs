//! Configuration mappings and catalog/fileset metadata.
//!
//! A `ConfigMap` is a mapping from string keys to string values with
//! last-write-wins semantics, modeled as a `Map<Seq<char>, Seq<char>>`.

use vstd::prelude::*;
use crate::strutil::str_eq;

verus! {

/// The mapping denoted by an association list, later entries winning.
pub open spec fn map_of(s: Seq<(Seq<char>, Seq<char>)>) -> Map<Seq<char>, Seq<char>>
    decreases s.len(),
{
    if s.len() == 0 {
        Map::empty()
    } else {
        map_of(s.drop_last()).insert(s.last().0, s.last().1)
    }
}

/// No key occurs twice.
pub open spec fn unique_keys(s: Seq<(Seq<char>, Seq<char>)>) -> bool {
    forall|i: int, j: int| 0 <= i < j < s.len() ==> s[i].0 != s[j].0
}

/// An entry whose key has no later match gives the key's mapped value.
pub proof fn lemma_map_of_last_match(s: Seq<(Seq<char>, Seq<char>)>, j: int)
    requires
        0 <= j < s.len(),
        forall|l: int| j < l < s.len() ==> s[l].0 != s[j].0,
    ensures
        map_of(s).contains_key(s[j].0),
        map_of(s)[s[j].0] == s[j].1,
    decreases s.len(),
{
    if j < s.len() - 1 {
        assert(s.drop_last()[j] == s[j]);
        lemma_map_of_last_match(s.drop_last(), j);
    }
}

/// A key matched by no entry is not in the mapping.
pub proof fn lemma_map_of_no_match(s: Seq<(Seq<char>, Seq<char>)>, k: Seq<char>)
    requires
        forall|l: int| 0 <= l < s.len() ==> s[l].0 != k,
    ensures
        !map_of(s).contains_key(k),
    decreases s.len(),
{
    if s.len() > 0 {
        lemma_map_of_no_match(s.drop_last(), k);
    }
}

/// Replacing the value of an entry is insertion at the mapping level.
pub proof fn lemma_map_of_update(s: Seq<(Seq<char>, Seq<char>)>, i: int, k: Seq<char>, v: Seq<char>)
    requires
        unique_keys(s),
        0 <= i < s.len(),
        s[i].0 == k,
    ensures
        map_of(s.update(i, (k, v))) == map_of(s).insert(k, v),
    decreases s.len(),
{
    let u = s.update(i, (k, v));
    if i == s.len() - 1 {
        assert(u.drop_last() =~= s.drop_last());
        assert(map_of(u) == map_of(s.drop_last()).insert(k, v));
        assert(map_of(s.drop_last()).insert(s[i].0, s[i].1).insert(k, v) =~= map_of(
            s.drop_last(),
        ).insert(k, v));
    } else {
        assert(u.drop_last() =~= s.drop_last().update(i, (k, v)));
        assert(s.drop_last()[i] == s[i]);
        lemma_map_of_update(s.drop_last(), i, k, v);
        assert(u.last() == s.last());
        assert(s.last().0 != k);
        assert(map_of(s.drop_last()).insert(k, v).insert(s.last().0, s.last().1) =~= map_of(
            s.drop_last(),
        ).insert(s.last().0, s.last().1).insert(k, v));
    }
}

/// With unique keys the mapping has exactly one key per entry.
pub proof fn lemma_map_of_len(s: Seq<(Seq<char>, Seq<char>)>)
    requires
        unique_keys(s),
    ensures
        map_of(s).dom().finite(),
        map_of(s).dom().len() == s.len(),
    decreases s.len(),
{
    if s.len() == 0 {
        assert(map_of(s).dom() =~= Set::<Seq<char>>::empty());
    } else {
        lemma_map_of_len(s.drop_last());
        assert(forall|l: int| 0 <= l < s.drop_last().len() ==> s.drop_last()[l].0 != s.last().0);
        lemma_map_of_no_match(s.drop_last(), s.last().0);
        assert(map_of(s).dom() =~= map_of(s.drop_last()).dom().insert(s.last().0));
    }
}

/// A mapping from string keys to string values.
pub struct ConfigMap {
    entries: Vec<(String, String)>,
}

impl View for ConfigMap {
    type V = Map<Seq<char>, Seq<char>>;

    open spec fn view(&self) -> Map<Seq<char>, Seq<char>> {
        map_of(self.kvs())
    }
}

impl ConfigMap {
    /// The entries of the mapping, in insertion order.
    pub closed spec fn kvs(self) -> Seq<(Seq<char>, Seq<char>)> {
        Seq::new(self.entries@.len(), |i: int| (self.entries@[i].0@, self.entries@[i].1@))
    }

    /// Each key occurs in at most one entry.
    pub open spec fn wf(self) -> bool {
        unique_keys(self.kvs())
    }

    /// The empty mapping.
    pub fn new() -> (r: ConfigMap)
        ensures
            r@ == Map::<Seq<char>, Seq<char>>::empty(),
            r.kvs() == Seq::<(Seq<char>, Seq<char>)>::empty(),
            r.wf(),
    {
        let r = ConfigMap { entries: Vec::new() };
        proof {
            assert(r.kvs() =~= Seq::<(Seq<char>, Seq<char>)>::empty());
        }
        r
    }

    /// How many entries the mapping holds.
    pub fn n_entries(&self) -> (r: usize)
        ensures
            r == self.kvs().len(),
    {
        self.entries.len()
    }

    /// The key of the entry at `i`.
    pub fn key_at(&self, i: usize) -> (r: &String)
        requires
            i < self.kvs().len(),
        ensures
            r@ == self.kvs()[i as int].0,
    {
        &self.entries[i].0
    }

    /// The value of the entry at `i`.
    pub fn val_at(&self, i: usize) -> (r: &String)
        requires
            i < self.kvs().len(),
        ensures
            r@ == self.kvs()[i as int].1,
    {
        &self.entries[i].1
    }

    /// How many keys the mapping holds.
    pub fn len(&self) -> (r: usize)
        requires
            self.wf(),
        ensures
            r == self@.dom().len(),
    {
        proof {
            lemma_map_of_len(self.kvs());
        }
        self.entries.len()
    }

    /// Look a key up; the latest insertion for it wins.
    pub fn get(&self, k: &str) -> (r: Option<&String>)
        ensures
            match r {
                Some(v) => self@.contains_key(k@) && self@[k@] == v@,
                None => !self@.contains_key(k@),
            },
    {
        let n = self.entries.len();
        let mut i: usize = n;
        while i > 0
            invariant
                i <= n,
                n == self.kvs().len(),
                forall|l: int| i <= l < n ==> self.kvs()[l].0 != k@,
            decreases i,
        {
            if str_eq(self.entries[i - 1].0.as_str(), k) {
                proof {
                    lemma_map_of_last_match(self.kvs(), i - 1);
                }
                return Some(&self.entries[i - 1].1);
            }
            i -= 1;
        }
        proof {
            lemma_map_of_no_match(self.kvs(), k@);
        }
        None
    }

    /// Index of the entry holding `k`, if any.
    fn find_key_index(&self, k: &str) -> (r: Option<usize>)
        ensures
            match r {
                Some(i) => i < self.kvs().len() && self.kvs()[i as int].0 == k@,
                None => forall|l: int| 0 <= l < self.kvs().len() ==> self.kvs()[l].0 != k@,
            },
    {
        let n = self.entries.len();
        let mut i: usize = 0;
        while i < n
            invariant
                i <= n,
                n == self.kvs().len(),
                forall|l: int| 0 <= l < i ==> self.kvs()[l].0 != k@,
            decreases n - i,
        {
            if str_eq(self.entries[i].0.as_str(), k) {
                return Some(i);
            }
            i += 1;
        }
        None
    }

    /// The entries as raw pairs, for handing to the storage-operator
    /// builder.
    pub fn raw_pairs(&self) -> (r: &Vec<(String, String)>)
        ensures
            r@.len() == self.kvs().len(),
            forall|i: int|
                0 <= i < r@.len() ==> (#[trigger] r@[i].0@, r@[i].1@) == self.kvs()[i],
    {
        &self.entries
    }

    /// Insert a key/value pair, replacing the key's previous value.
    pub fn insert(&mut self, k: String, v: String)
        requires
            old(self).wf(),
        ensures
            final(self).wf(),
            final(self)@ == old(self)@.insert(k@, v@),
    {
        let ghost old_kvs = self.kvs();
        match self.find_key_index(k.as_str()) {
            Some(i) => {
                self.entries.set(i, (k, v));
                proof {
                    assert(self.kvs() =~= old_kvs.update(i as int, (k@, v@)));
                    lemma_map_of_update(old_kvs, i as int, k@, v@);
                    assert forall|a: int, b: int|
                        0 <= a < b < self.kvs().len() implies self.kvs()[a].0 != self.kvs()[b].0 by {
                        assert(old_kvs[a].0 != old_kvs[b].0);
                    }
                }
            },
            None => {
                self.entries.push((k, v));
                proof {
                    assert(self.kvs().drop_last() =~= old_kvs);
                    assert(self.kvs().last() == (k@, v@));
                    assert(map_of(self.kvs()) == map_of(old_kvs).insert(k@, v@));
                    assert forall|a: int, b: int|
                        0 <= a < b < self.kvs().len() implies self.kvs()[a].0 != self.kvs()[b].0 by {
                        if b < old_kvs.len() {
                            assert(old_kvs[a].0 != old_kvs[b].0);
                        } else {
                            assert(old_kvs[a].0 != k@);
                        }
                    }
                }
            },
        }
    }
}

/// Application configuration: the flat mapping from which backend
/// parameters are extracted.
pub struct AppConfig {
    pub extend_config: ConfigMap,
}

/// Catalog metadata: a name and a mapping of string properties.
pub struct Catalog {
    pub name: String,
    pub properties: ConfigMap,
}

/// Fileset metadata: a name and the storage location of its data.
pub struct Fileset {
    pub name: String,
    pub storage_location: String,
}

} // verus!
