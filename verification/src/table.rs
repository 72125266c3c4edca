//! A table from string keys to values that keeps its entries in insertion
//! order, each key at most once; inserting a present key replaces its value
//! in place.
use crate::text::{chars_eq, chars_of};
use vstd::prelude::*;

verus! {

/// The view of a header or query value: one text, or a list of texts.
pub enum ValueView {
    Single(Seq<char>),
    Many(Seq<Seq<char>>),
}

/// The first position of `key` in `ps` at or after `i`.
pub open spec fn key_index_from<W>(ps: Seq<(Seq<char>, W)>, key: Seq<char>, i: int) -> Option<int>
    decreases ps.len() - i,
{
    if i < 0 || i >= ps.len() {
        None
    } else if ps[i].0 == key {
        Some(i)
    } else {
        key_index_from(ps, key, i + 1)
    }
}

/// The position of `key` in `ps`.
pub open spec fn key_index<W>(ps: Seq<(Seq<char>, W)>, key: Seq<char>) -> Option<int> {
    key_index_from(ps, key, 0)
}

/// The value stored under `key` in `ps`.
pub open spec fn lookup<W>(ps: Seq<(Seq<char>, W)>, key: Seq<char>) -> Option<W> {
    match key_index(ps, key) {
        Some(i) => Some(ps[i].1),
        None => None,
    }
}

/// `ps` once `key` is set to `val`: in place where `key` is present, at the
/// end otherwise.
pub open spec fn insert_pair<W>(ps: Seq<(Seq<char>, W)>, key: Seq<char>, val: W) -> Seq<(Seq<char>, W)> {
    match key_index(ps, key) {
        Some(i) => ps.update(i, (key, val)),
        None => ps.push((key, val)),
    }
}

/// No key occurs twice in `ps`.
pub open spec fn keys_distinct<W>(ps: Seq<(Seq<char>, W)>) -> bool {
    forall|i: int, j: int| 0 <= i < ps.len() && 0 <= j < ps.len() && i != j ==> ps[i].0 != ps[j].0
}

proof fn lemma_key_index_from<W>(ps: Seq<(Seq<char>, W)>, key: Seq<char>, i: int)
    requires
        0 <= i <= ps.len(),
    ensures
        key_index_from(ps, key, i) matches Some(j) ==> i <= j < ps.len() && ps[j].0 == key
            && forall|k: int| i <= k < j ==> ps[k].0 != key,
        key_index_from(ps, key, i) is None ==> forall|k: int| i <= k < ps.len() ==> ps[k].0 != key,
    decreases ps.len() - i,
{
    if i < ps.len() && ps[i].0 != key {
        lemma_key_index_from(ps, key, i + 1);
    }
}

/// The position of `key` in `ps` holds `key` and no earlier entry does;
/// where there is no position, no entry holds `key`.
pub proof fn lemma_key_index<W>(ps: Seq<(Seq<char>, W)>, key: Seq<char>)
    ensures
        key_index(ps, key) matches Some(j) ==> 0 <= j < ps.len() && ps[j].0 == key && forall|
            k: int,
        | 0 <= k < j ==> ps[k].0 != key,
        key_index(ps, key) is None ==> forall|k: int| 0 <= k < ps.len() ==> ps[k].0 != key,
{
    lemma_key_index_from(ps, key, 0);
}

/// Setting a key keeps the keys distinct.
pub proof fn lemma_insert_distinct<W>(ps: Seq<(Seq<char>, W)>, key: Seq<char>, val: W)
    requires
        keys_distinct(ps),
    ensures
        keys_distinct(insert_pair(ps, key, val)),
{
    lemma_key_index(ps, key);
}

/// After `key` is set to `val`, `key` holds `val` and every other key holds
/// what it held before.
pub proof fn lemma_lookup_insert<W>(ps: Seq<(Seq<char>, W)>, key: Seq<char>, val: W, other: Seq<char>)
    ensures
        lookup(insert_pair(ps, key, val), key) == Some(val),
        other != key ==> lookup(insert_pair(ps, key, val), other) == lookup(ps, other),
{
    let qs = insert_pair(ps, key, val);
    lemma_key_index(ps, key);
    lemma_key_index(ps, other);
    lemma_key_index(qs, key);
    lemma_key_index(qs, other);
    match key_index(ps, key) {
        Some(i) => {
            assert(qs[i].0 == key);
        },
        None => {
            assert(qs[ps.len() as int].0 == key);
        },
    }
    if other != key {
        match key_index(ps, other) {
            Some(j) => {
                assert(qs[j].0 == other);
            },
            None => {},
        }
    }
}

/// A table of values under string keys.
#[derive(Debug)]
pub struct Table<V: View> {
    entries: Vec<(String, V)>,
}

impl<V: View> View for Table<V> {
    type V = Seq<(Seq<char>, V::V)>;

    /// The entries, in order, as keys and views of values.
    open spec fn view(&self) -> Seq<(Seq<char>, V::V)> {
        self.pairs()
    }
}

impl<V: View> Table<V> {
    /// The entries, in order, as keys and views of values.
    pub closed spec fn pairs(self) -> Seq<(Seq<char>, V::V)> {
        self.entries@.map_values(|e: (String, V)| (e.0@, e.1@))
    }

    #[verifier::type_invariant]
    spec fn inv(self) -> bool {
        keys_distinct(self.pairs())
    }

    /// An empty table.
    pub fn new() -> (r: Self)
        ensures
            r.pairs() == Seq::<(Seq<char>, V::V)>::empty(),
    {
        let r = Table { entries: Vec::new() };
        assert(r.pairs() =~= Seq::<(Seq<char>, V::V)>::empty());
        r
    }

    /// The number of entries.
    pub fn len(&self) -> (r: usize)
        ensures
            r == self.pairs().len(),
    {
        self.entries.len()
    }

    /// The entries, in order.
    pub fn into_entries(self) -> (r: Vec<(String, V)>)
        ensures
            r@.map_values(|e: (String, V)| (e.0@, e.1@)) == self@,
    {
        self.entries
    }

    /// The key of entry `i`.
    pub fn key_at(&self, i: usize) -> (r: &String)
        requires
            i < self.pairs().len(),
        ensures
            r@ == self.pairs()[i as int].0,
    {
        &self.entries[i].0
    }

    /// The value of entry `i`.
    pub fn value_at(&self, i: usize) -> (r: &V)
        requires
            i < self.pairs().len(),
        ensures
            r@ == self.pairs()[i as int].1,
    {
        &self.entries[i].1
    }

    /// The position of `key`.
    pub fn position(&self, key: &str) -> (r: Option<usize>)
        ensures
            r matches Some(i) ==> key_index(self.pairs(), key@) == Some(i as int),
            r is None ==> key_index(self.pairs(), key@) is None,
    {
        let k = chars_of(key);
        let ghost ps = self.pairs();
        let mut i: usize = 0;
        while i < self.entries.len()
            invariant
                i <= self.entries@.len(),
                ps == self.pairs(),
                ps.len() == self.entries@.len(),
                k@ == key@,
                key_index(ps, key@) == key_index_from(ps, key@, i as int),
            decreases self.entries.len() - i,
        {
            let e = chars_of(self.entries[i].0.as_str());
            assert(ps[i as int].0 == self.entries@[i as int].0@);
            if chars_eq(&e, &k) {
                return Some(i);
            }
            i = i + 1;
        }
        None
    }

    /// The value under `key`.
    pub fn get(&self, key: &str) -> (r: Option<&V>)
        ensures
            r matches Some(v) ==> lookup(self.pairs(), key@) == Some(v@),
            r is None ==> lookup(self.pairs(), key@) is None,
    {
        match self.position(key) {
            Some(i) => {
                proof {
                    lemma_key_index(self.pairs(), key@);
                }
                Some(&self.entries[i].1)
            },
            None => None,
        }
    }

    /// Sets `key` to `val`, replacing the value in place where `key` is present.
    pub fn insert(&mut self, key: String, val: V)
        ensures
            final(self).pairs() == insert_pair(old(self).pairs(), key@, val@),
    {
        proof {
            use_type_invariant(&*self);
        }
        let ghost ps = self.pairs();
        let ghost kv = key@;
        let ghost vv = val@;
        let pos = self.position(key.as_str());
        proof {
            lemma_key_index(ps, key@);
            lemma_insert_distinct(ps, key@, val@);
        }
        let mut entries: Vec<(String, V)> = Vec::new();
        std::mem::swap(&mut entries, &mut self.entries);
        match pos {
            Some(i) => {
                entries.set(i, (key, val));
            },
            None => {
                entries.push((key, val));
            },
        }
        assert(entries@.map_values(|e: (String, V)| (e.0@, e.1@)) =~= insert_pair(ps, kv, vv));
        self.entries = entries;
    }

    /// Replaces the value of entry `i`.
    pub fn set_value(&mut self, i: usize, val: V)
        requires
            i < old(self).pairs().len(),
        ensures
            final(self).pairs() == old(self).pairs().update(
                i as int,
                (old(self).pairs()[i as int].0, val@),
            ),
    {
        proof {
            use_type_invariant(&*self);
        }
        let ghost ps = self.pairs();
        let mut entries: Vec<(String, V)> = Vec::new();
        std::mem::swap(&mut entries, &mut self.entries);
        let (k, _old) = entries.remove(i);
        entries.insert(i, (k, val));
        assert(entries@.map_values(|e: (String, V)| (e.0@, e.1@)) =~= ps.update(
            i as int,
            (ps[i as int].0, val@),
        ));
        proof {
            let qs = ps.update(i as int, (ps[i as int].0, val@));
            assert forall|a: int, b: int|
                0 <= a < qs.len() && 0 <= b < qs.len() && a != b implies qs[a].0 != qs[b].0 by {
                assert(qs[a].0 == ps[a].0);
                assert(qs[b].0 == ps[b].0);
            }
        }
        self.entries = entries;
    }
}

} // verus!
