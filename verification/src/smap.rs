//! Verified in-memory stores keyed by strings or by pairs of strings.
//!
//! `StrMap` and `PairMap` are association lists with pairwise-distinct keys;
//! their views are `Map`s from key views to the stored values. `StrSet` and
//! `PairSet` are thin wrappers whose views are the key sets. These stores
//! model the durable key-value tables that the hosting ledger would provide.

use vstd::prelude::*;

verus! {

/// Map built from an association list, later entries overriding earlier ones.
pub open spec fn kv_map<V>(s: Seq<(String, V)>) -> Map<Seq<char>, V>
    decreases s.len(),
{
    if s.len() == 0 {
        Map::empty()
    } else {
        kv_map(s.drop_last()).insert(s.last().0@, s.last().1)
    }
}

/// All keys of the association list are pairwise distinct.
pub open spec fn distinct_keys<V>(s: Seq<(String, V)>) -> bool {
    forall|i: int, j: int| 0 <= i < j < s.len() ==> s[i].0@ != s[j].0@
}

pub proof fn lemma_kv_map_contains<V>(s: Seq<(String, V)>, k: Seq<char>)
    ensures
        kv_map(s).contains_key(k) <==> exists|i: int| 0 <= i < s.len() && s[i].0@ == k,
    decreases s.len(),
{
    if s.len() == 0 {
    } else {
        lemma_kv_map_contains(s.drop_last(), k);
        if s.last().0@ == k {
            assert(s[s.len() - 1].0@ == k);
        } else if kv_map(s).contains_key(k) {
            let i = choose|i: int| 0 <= i < s.drop_last().len() && s.drop_last()[i].0@ == k;
            assert(s[i].0@ == k);
        } else if exists|i: int| 0 <= i < s.len() && s[i].0@ == k {
            let i = choose|i: int| 0 <= i < s.len() && s[i].0@ == k;
            assert(s.drop_last()[i].0@ == k);
        }
    }
}

pub proof fn lemma_kv_map_index<V>(s: Seq<(String, V)>, i: int)
    requires
        distinct_keys(s),
        0 <= i < s.len(),
    ensures
        kv_map(s).contains_key(s[i].0@),
        kv_map(s)[s[i].0@] == s[i].1,
    decreases s.len(),
{
    if i == s.len() - 1 {
    } else {
        assert(s.drop_last()[i] == s[i]);
        lemma_kv_map_index(s.drop_last(), i);
        assert(s[i].0@ != s.last().0@);
    }
}

pub proof fn lemma_kv_map_update<V>(s: Seq<(String, V)>, i: int, p: (String, V))
    requires
        distinct_keys(s),
        0 <= i < s.len(),
        p.0@ == s[i].0@,
    ensures
        kv_map(s.update(i, p)) == kv_map(s).insert(p.0@, p.1),
        distinct_keys(s.update(i, p)),
    decreases s.len(),
{
    let t = s.update(i, p);
    if i == s.len() - 1 {
        assert(t.drop_last() =~= s.drop_last());
        assert(kv_map(t) =~= kv_map(s).insert(p.0@, p.1));
    } else {
        assert(t.drop_last() =~= s.drop_last().update(i, p));
        lemma_kv_map_update(s.drop_last(), i, p);
        assert(s[i].0@ != s.last().0@);
        assert(t.last() == s.last());
        assert(kv_map(t) =~= kv_map(s).insert(p.0@, p.1));
    }
}

pub proof fn lemma_kv_map_remove<V>(s: Seq<(String, V)>, i: int)
    requires
        distinct_keys(s),
        0 <= i < s.len(),
    ensures
        kv_map(s.remove(i)) == kv_map(s).remove(s[i].0@),
        distinct_keys(s.remove(i)),
    decreases s.len(),
{
    let t = s.remove(i);
    if i == s.len() - 1 {
        assert(t =~= s.drop_last());
        lemma_kv_map_contains(s.drop_last(), s[i].0@);
        assert(forall|j: int| 0 <= j < s.drop_last().len() ==> s[j].0@ != s[i].0@);
        assert(kv_map(t) =~= kv_map(s).remove(s[i].0@));
    } else {
        assert(t.drop_last() =~= s.drop_last().remove(i));
        lemma_kv_map_remove(s.drop_last(), i);
        assert(s[i].0@ != s.last().0@);
        assert(t.last() == s.last());
        assert(kv_map(t) =~= kv_map(s).remove(s[i].0@));
    }
}

pub proof fn lemma_kv_map_push_absent<V>(s: Seq<(String, V)>, p: (String, V))
    requires
        forall|i: int| 0 <= i < s.len() ==> s[i].0@ != p.0@,
    ensures
        kv_map(s.push(p)) == kv_map(s).insert(p.0@, p.1),
        distinct_keys(s) ==> distinct_keys(s.push(p)),
{
    assert(s.push(p).drop_last() =~= s);
}

/// Association map from string keys to values.
#[derive(Debug)]
pub struct StrMap<V> {
    pub entries: Vec<(String, V)>,
}

impl<V> View for StrMap<V> {
    type V = Map<Seq<char>, V>;

    open spec fn view(&self) -> Map<Seq<char>, V> {
        kv_map(self.entries@)
    }
}

impl<V> StrMap<V> {
    /// The entries in their stored order.
    pub open spec fn kv_seq(&self) -> Seq<(String, V)> {
        self.entries@
    }

    pub open spec fn wf(&self) -> bool {
        distinct_keys(self.entries@)
    }

    pub fn new() -> (m: Self)
        ensures
            m.wf(),
            m@ == Map::<Seq<char>, V>::empty(),
            m.kv_seq().len() == 0,
    {
        StrMap { entries: Vec::new() }
    }

    pub fn len(&self) -> (n: usize)
        ensures
            n == self.kv_seq().len(),
    {
        self.entries.len()
    }

    pub fn is_empty(&self) -> (r: bool)
        ensures
            r == (self.kv_seq().len() == 0),
    {
        self.entries.len() == 0
    }

    /// Read access to the entries, for iteration.
    pub fn pairs(&self) -> (r: &Vec<(String, V)>)
        ensures
            r@ == self.kv_seq(),
    {
        &self.entries
    }

    fn index_of(&self, key: &String) -> (r: Option<usize>)
        ensures
            match r {
                Some(i) => 0 <= i < self.entries@.len() && self.entries@[i as int].0@ == key@,
                None => forall|j: int| 0 <= j < self.entries@.len() ==> self.entries@[j].0@ != key@,
            },
    {
        let n = self.entries.len();
        let mut i: usize = 0;
        while i < n
            invariant
                n == self.entries@.len(),
                0 <= i <= n,
                forall|j: int| 0 <= j < i ==> self.entries@[j].0@ != key@,
            decreases n - i,
        {
            if self.entries[i].0 == *key {
                return Some(i);
            }
            i = i + 1;
        }
        None
    }

    pub fn contains_key(&self, key: &String) -> (r: bool)
        ensures
            r == self@.contains_key(key@),
    {
        proof {
            lemma_kv_map_contains(self.entries@, key@);
        }
        match self.index_of(key) {
            Some(i) => {
                proof {
                    assert(self.entries@[i as int].0@ == key@);
                }
                true
            },
            None => false,
        }
    }

    pub fn get<'a>(&'a self, key: &String) -> (r: Option<&'a V>)
        requires
            self.wf(),
        ensures
            match r {
                Some(v) => self@.contains_key(key@) && *v == self@[key@],
                None => !self@.contains_key(key@),
            },
    {
        proof {
            lemma_kv_map_contains(self.entries@, key@);
        }
        match self.index_of(key) {
            Some(i) => {
                proof {
                    assert(self.entries@[i as int].0@ == key@);
                    lemma_kv_map_index(self.entries@, i as int);
                }
                Some(&self.entries[i].1)
            },
            None => None,
        }
    }

    pub fn insert(&mut self, key: String, value: V) -> (prev: Option<V>)
        requires
            old(self).wf(),
        ensures
            final(self).wf(),
            final(self)@ == old(self)@.insert(key@, value),
            match prev {
                Some(v) => old(self)@.contains_key(key@) && v == old(self)@[key@],
                None => !old(self)@.contains_key(key@),
            },
            final(self).kv_seq().len() == old(self).kv_seq().len() + (if prev is Some { 0int } else { 1int }),
            prev is None ==> final(self).kv_seq() == old(self).kv_seq().push((key, value)),
    {
        proof {
            lemma_kv_map_contains(self.entries@, key@);
        }
        match self.index_of(&key) {
            Some(i) => {
                let ghost s = self.entries@;
                proof {
                    lemma_kv_map_index(s, i as int);
                    assert(old(self)@.contains_key(key@));
                    assert(old(self)@[key@] == s[i as int].1);
                }
                let (k, old_v) = self.entries.remove(i);
                let ghost p = (k, value);
                self.entries.insert(i, (k, value));
                proof {
                    assert(self.entries@ =~= s.update(i as int, p));
                    lemma_kv_map_update(s, i as int, p);
                }
                Some(old_v)
            },
            None => {
                proof {
                    lemma_kv_map_push_absent(self.entries@, (key, value));
                }
                self.entries.push((key, value));
                None
            },
        }
    }

    pub fn remove(&mut self, key: &String) -> (prev: Option<V>)
        requires
            old(self).wf(),
        ensures
            final(self).wf(),
            final(self)@ == old(self)@.remove(key@),
            match prev {
                Some(v) => old(self)@.contains_key(key@) && v == old(self)@[key@],
                None => !old(self)@.contains_key(key@) && *final(self) == *old(self),
            },
            final(self).kv_seq().len() == old(self).kv_seq().len()
                - (if prev is Some { 1int } else { 0int }),
    {
        proof {
            lemma_kv_map_contains(self.entries@, key@);
        }
        match self.index_of(key) {
            Some(i) => {
                let ghost s = self.entries@;
                proof {
                    lemma_kv_map_index(s, i as int);
                    lemma_kv_map_remove(s, i as int);
                    assert(old(self)@.contains_key(key@));
                    assert(old(self)@[key@] == s[i as int].1);
                }
                let (_k, v) = self.entries.remove(i);
                Some(v)
            },
            None => {
                proof {
                    assert(!kv_map(self.entries@).contains_key(key@));
                    assert(kv_map(self.entries@).remove(key@) =~= kv_map(self.entries@));
                }
                None
            },
        }
    }

    pub fn clear(&mut self)
        ensures
            final(self).wf(),
            final(self)@ == Map::<Seq<char>, V>::empty(),
            final(self).kv_seq().len() == 0,
    {
        self.entries.clear();
    }
}

pub proof fn lemma_kv_map_congruent<V>(s: Seq<(String, V)>, t: Seq<(String, V)>)
    requires
        s.len() == t.len(),
        forall|i: int| 0 <= i < s.len() ==> s[i].0@ == t[i].0@ && s[i].1 == t[i].1,
    ensures
        kv_map(s) == kv_map(t),
        distinct_keys(s) ==> distinct_keys(t),
    decreases s.len(),
{
    if s.len() == 0 {
        assert(kv_map(s) =~= kv_map(t));
    } else {
        assert(forall|i: int|
            0 <= i < s.drop_last().len() ==> s.drop_last()[i].0@ == t.drop_last()[i].0@
                && s.drop_last()[i].1 == t.drop_last()[i].1);
        lemma_kv_map_congruent(s.drop_last(), t.drop_last());
        assert(kv_map(s) =~= kv_map(t));
    }
}

/// Map built from an association list keyed by pairs of strings.
pub open spec fn pkv_map<V>(s: Seq<(String, String, V)>) -> Map<(Seq<char>, Seq<char>), V>
    decreases s.len(),
{
    if s.len() == 0 {
        Map::empty()
    } else {
        pkv_map(s.drop_last()).insert((s.last().0@, s.last().1@), s.last().2)
    }
}

/// All key pairs of the association list are pairwise distinct.
pub open spec fn distinct_pair_keys<V>(s: Seq<(String, String, V)>) -> bool {
    forall|i: int, j: int|
        0 <= i < j < s.len() ==> (s[i].0@, s[i].1@) != (s[j].0@, s[j].1@)
}

pub proof fn lemma_pkv_map_contains<V>(s: Seq<(String, String, V)>, k: (Seq<char>, Seq<char>))
    ensures
        pkv_map(s).contains_key(k) <==> exists|i: int|
            0 <= i < s.len() && (s[i].0@, s[i].1@) == k,
    decreases s.len(),
{
    if s.len() == 0 {
    } else {
        lemma_pkv_map_contains(s.drop_last(), k);
        if (s.last().0@, s.last().1@) == k {
            assert((s[s.len() - 1].0@, s[s.len() - 1].1@) == k);
        } else if pkv_map(s).contains_key(k) {
            let i = choose|i: int|
                0 <= i < s.drop_last().len() && (s.drop_last()[i].0@, s.drop_last()[i].1@) == k;
            assert((s[i].0@, s[i].1@) == k);
        } else if exists|i: int| 0 <= i < s.len() && (s[i].0@, s[i].1@) == k {
            let i = choose|i: int| 0 <= i < s.len() && (s[i].0@, s[i].1@) == k;
            assert((s.drop_last()[i].0@, s.drop_last()[i].1@) == k);
        }
    }
}

pub proof fn lemma_pkv_map_index<V>(s: Seq<(String, String, V)>, i: int)
    requires
        distinct_pair_keys(s),
        0 <= i < s.len(),
    ensures
        pkv_map(s).contains_key((s[i].0@, s[i].1@)),
        pkv_map(s)[(s[i].0@, s[i].1@)] == s[i].2,
    decreases s.len(),
{
    if i == s.len() - 1 {
    } else {
        assert(s.drop_last()[i] == s[i]);
        lemma_pkv_map_index(s.drop_last(), i);
        assert((s[i].0@, s[i].1@) != (s.last().0@, s.last().1@));
    }
}

pub proof fn lemma_pkv_map_update<V>(s: Seq<(String, String, V)>, i: int, p: (String, String, V))
    requires
        distinct_pair_keys(s),
        0 <= i < s.len(),
        (p.0@, p.1@) == (s[i].0@, s[i].1@),
    ensures
        pkv_map(s.update(i, p)) == pkv_map(s).insert((p.0@, p.1@), p.2),
        distinct_pair_keys(s.update(i, p)),
    decreases s.len(),
{
    let t = s.update(i, p);
    if i == s.len() - 1 {
        assert(t.drop_last() =~= s.drop_last());
        assert(pkv_map(t) =~= pkv_map(s).insert((p.0@, p.1@), p.2));
    } else {
        assert(t.drop_last() =~= s.drop_last().update(i, p));
        lemma_pkv_map_update(s.drop_last(), i, p);
        assert((s[i].0@, s[i].1@) != (s.last().0@, s.last().1@));
        assert(t.last() == s.last());
        assert(pkv_map(t) =~= pkv_map(s).insert((p.0@, p.1@), p.2));
    }
}

pub proof fn lemma_pkv_map_remove<V>(s: Seq<(String, String, V)>, i: int)
    requires
        distinct_pair_keys(s),
        0 <= i < s.len(),
    ensures
        pkv_map(s.remove(i)) == pkv_map(s).remove((s[i].0@, s[i].1@)),
        distinct_pair_keys(s.remove(i)),
    decreases s.len(),
{
    let t = s.remove(i);
    if i == s.len() - 1 {
        assert(t =~= s.drop_last());
        lemma_pkv_map_contains(s.drop_last(), (s[i].0@, s[i].1@));
        assert(forall|j: int|
            0 <= j < s.drop_last().len() ==> (s[j].0@, s[j].1@) != (s[i].0@, s[i].1@));
        assert(pkv_map(t) =~= pkv_map(s).remove((s[i].0@, s[i].1@)));
    } else {
        assert(t.drop_last() =~= s.drop_last().remove(i));
        lemma_pkv_map_remove(s.drop_last(), i);
        assert((s[i].0@, s[i].1@) != (s.last().0@, s.last().1@));
        assert(t.last() == s.last());
        assert(pkv_map(t) =~= pkv_map(s).remove((s[i].0@, s[i].1@)));
    }
}

pub proof fn lemma_pkv_map_push_absent<V>(s: Seq<(String, String, V)>, p: (String, String, V))
    requires
        forall|i: int| 0 <= i < s.len() ==> (s[i].0@, s[i].1@) != (p.0@, p.1@),
    ensures
        pkv_map(s.push(p)) == pkv_map(s).insert((p.0@, p.1@), p.2),
        distinct_pair_keys(s) ==> distinct_pair_keys(s.push(p)),
{
    assert(s.push(p).drop_last() =~= s);
}

/// Association map keyed by a pair of strings.
#[derive(Debug)]
pub struct PairMap<V> {
    pub entries: Vec<(String, String, V)>,
}

impl<V> View for PairMap<V> {
    type V = Map<(Seq<char>, Seq<char>), V>;

    open spec fn view(&self) -> Map<(Seq<char>, Seq<char>), V> {
        pkv_map(self.entries@)
    }
}

impl<V> PairMap<V> {
    /// The entries in their stored order.
    pub open spec fn kv_seq(&self) -> Seq<(String, String, V)> {
        self.entries@
    }

    pub open spec fn wf(&self) -> bool {
        distinct_pair_keys(self.entries@)
    }

    pub fn new() -> (m: Self)
        ensures
            m.wf(),
            m@ == Map::<(Seq<char>, Seq<char>), V>::empty(),
            m.kv_seq().len() == 0,
    {
        PairMap { entries: Vec::new() }
    }

    pub fn len(&self) -> (n: usize)
        ensures
            n == self.kv_seq().len(),
    {
        self.entries.len()
    }

    pub fn is_empty(&self) -> (r: bool)
        ensures
            r == (self.kv_seq().len() == 0),
    {
        self.entries.len() == 0
    }

    /// Read access to the entries, for iteration.
    pub fn pairs(&self) -> (r: &Vec<(String, String, V)>)
        ensures
            r@ == self.kv_seq(),
    {
        &self.entries
    }

    fn index_of(&self, ka: &String, kb: &String) -> (r: Option<usize>)
        ensures
            match r {
                Some(i) => 0 <= i < self.entries@.len()
                    && (self.entries@[i as int].0@, self.entries@[i as int].1@) == (ka@, kb@),
                None => forall|j: int|
                    0 <= j < self.entries@.len()
                        ==> (self.entries@[j].0@, self.entries@[j].1@) != (ka@, kb@),
            },
    {
        let n = self.entries.len();
        let mut i: usize = 0;
        while i < n
            invariant
                n == self.entries@.len(),
                0 <= i <= n,
                forall|j: int| 0 <= j < i ==> (self.entries@[j].0@, self.entries@[j].1@) != (ka@, kb@),
            decreases n - i,
        {
            if self.entries[i].0 == *ka && self.entries[i].1 == *kb {
                return Some(i);
            }
            i = i + 1;
        }
        None
    }

    pub fn contains_key(&self, ka: &String, kb: &String) -> (r: bool)
        ensures
            r == self@.contains_key((ka@, kb@)),
    {
        proof {
            lemma_pkv_map_contains(self.entries@, (ka@, kb@));
        }
        match self.index_of(ka, kb) {
            Some(i) => {
                proof {
                    assert((self.entries@[i as int].0@, self.entries@[i as int].1@) == (ka@, kb@));
                }
                true
            },
            None => false,
        }
    }

    pub fn get<'a>(&'a self, ka: &String, kb: &String) -> (r: Option<&'a V>)
        requires
            self.wf(),
        ensures
            match r {
                Some(v) => self@.contains_key((ka@, kb@)) && *v == self@[(ka@, kb@)],
                None => !self@.contains_key((ka@, kb@)),
            },
    {
        proof {
            lemma_pkv_map_contains(self.entries@, (ka@, kb@));
        }
        match self.index_of(ka, kb) {
            Some(i) => {
                proof {
                    assert((self.entries@[i as int].0@, self.entries@[i as int].1@) == (ka@, kb@));
                    lemma_pkv_map_index(self.entries@, i as int);
                }
                Some(&self.entries[i].2)
            },
            None => None,
        }
    }

    pub fn insert(&mut self, ka: String, kb: String, value: V) -> (prev: Option<V>)
        requires
            old(self).wf(),
        ensures
            final(self).wf(),
            final(self)@ == old(self)@.insert((ka@, kb@), value),
            match prev {
                Some(v) => old(self)@.contains_key((ka@, kb@)) && v == old(self)@[(ka@, kb@)],
                None => !old(self)@.contains_key((ka@, kb@)),
            },
            final(self).kv_seq().len() == old(self).kv_seq().len()
                + (if prev is Some { 0int } else { 1int }),
    {
        proof {
            lemma_pkv_map_contains(self.entries@, (ka@, kb@));
        }
        match self.index_of(&ka, &kb) {
            Some(i) => {
                let ghost s = self.entries@;
                proof {
                    lemma_pkv_map_index(s, i as int);
                    assert(old(self)@.contains_key((ka@, kb@)));
                    assert(old(self)@[(ka@, kb@)] == s[i as int].2);
                }
                let (k0, k1, old_v) = self.entries.remove(i);
                let ghost p = (k0, k1, value);
                self.entries.insert(i, (k0, k1, value));
                proof {
                    assert(self.entries@ =~= s.update(i as int, p));
                    lemma_pkv_map_update(s, i as int, p);
                }
                Some(old_v)
            },
            None => {
                proof {
                    lemma_pkv_map_push_absent(self.entries@, (ka, kb, value));
                }
                self.entries.push((ka, kb, value));
                None
            },
        }
    }

    pub fn remove(&mut self, ka: &String, kb: &String) -> (prev: Option<V>)
        requires
            old(self).wf(),
        ensures
            final(self).wf(),
            final(self)@ == old(self)@.remove((ka@, kb@)),
            match prev {
                Some(v) => old(self)@.contains_key((ka@, kb@)) && v == old(self)@[(ka@, kb@)],
                None => !old(self)@.contains_key((ka@, kb@)) && *final(self) == *old(self),
            },
            final(self).kv_seq().len() == old(self).kv_seq().len()
                - (if prev is Some { 1int } else { 0int }),
    {
        proof {
            lemma_pkv_map_contains(self.entries@, (ka@, kb@));
        }
        match self.index_of(ka, kb) {
            Some(i) => {
                let ghost s = self.entries@;
                proof {
                    lemma_pkv_map_index(s, i as int);
                    lemma_pkv_map_remove(s, i as int);
                    assert(old(self)@.contains_key((ka@, kb@)));
                    assert(old(self)@[(ka@, kb@)] == s[i as int].2);
                }
                let (_k0, _k1, v) = self.entries.remove(i);
                Some(v)
            },
            None => {
                proof {
                    assert(!pkv_map(self.entries@).contains_key((ka@, kb@)));
                    assert(pkv_map(self.entries@).remove((ka@, kb@)) =~= pkv_map(self.entries@));
                }
                None
            },
        }
    }
}

impl<V: Copy> StrMap<V> {
    /// A copy whose view and entry order match this store's.
    pub fn duplicate(&self) -> (r: Self)
        ensures
            r@ == self@,
            r.kv_seq().len() == self.kv_seq().len(),
            forall|i: int|
                0 <= i < r.kv_seq().len() ==> r.kv_seq()[i].0@ == self.kv_seq()[i].0@
                    && r.kv_seq()[i].1 == self.kv_seq()[i].1,
            self.wf() ==> r.wf(),
    {
        let mut out: Vec<(String, V)> = Vec::new();
        let n = self.entries.len();
        let mut i: usize = 0;
        while i < n
            invariant
                n == self.entries@.len(),
                0 <= i <= n,
                out@.len() == i,
                forall|j: int|
                    0 <= j < i ==> out@[j].0@ == self.entries@[j].0@
                        && out@[j].1 == self.entries@[j].1,
            decreases n - i,
        {
            let k = self.entries[i].0.clone();
            let v = self.entries[i].1;
            out.push((k, v));
            i = i + 1;
        }
        let r = StrMap { entries: out };
        proof {
            lemma_kv_map_congruent(self.entries@, r.entries@);
        }
        r
    }
}

/// Set of strings, stored as a map to the unit value.
#[derive(Debug)]
pub struct StrSet {
    pub m: StrMap<()>,
}

impl View for StrSet {
    type V = Set<Seq<char>>;

    open spec fn view(&self) -> Set<Seq<char>> {
        self.m@.dom()
    }
}

impl StrSet {
    /// Number of elements.
    pub open spec fn size(&self) -> nat {
        self.m.kv_seq().len()
    }

    /// The elements in their stored order, with the unit payload.
    pub open spec fn elem_seq(&self) -> Seq<(String, ())> {
        self.m.kv_seq()
    }

    pub open spec fn wf(&self) -> bool {
        self.m.wf()
    }

    pub fn new() -> (s: Self)
        ensures
            s.wf(),
            s@ == Set::<Seq<char>>::empty(),
            s.size() == 0,
    {
        let s = StrSet { m: StrMap::new() };
        proof {
            assert(s@ =~= Set::<Seq<char>>::empty());
        }
        s
    }

    pub fn len(&self) -> (n: usize)
        ensures
            n == self.size(),
    {
        self.m.len()
    }

    pub fn is_empty(&self) -> (r: bool)
        ensures
            r == (self.size() == 0),
    {
        self.m.is_empty()
    }

    /// Read access to the elements, for iteration.
    pub fn elems(&self) -> (r: &Vec<(String, ())>)
        ensures
            r@ == self.elem_seq(),
    {
        self.m.pairs()
    }

    pub fn contains(&self, k: &String) -> (r: bool)
        ensures
            r == self@.contains(k@),
    {
        self.m.contains_key(k)
    }

    pub fn insert(&mut self, k: String) -> (was_new: bool)
        requires
            old(self).wf(),
        ensures
            final(self).wf(),
            final(self)@ == old(self)@.insert(k@),
            was_new == !old(self)@.contains(k@),
            final(self).size() == old(self).size() + (if was_new { 1int } else { 0int }),
    {
        let prev = self.m.insert(k, ());
        proof {
            assert(final(self)@ =~= old(self)@.insert(k@));
        }
        prev.is_none()
    }

    pub fn remove(&mut self, k: &String) -> (was_there: bool)
        requires
            old(self).wf(),
        ensures
            final(self).wf(),
            final(self)@ == old(self)@.remove(k@),
            was_there == old(self)@.contains(k@),
            final(self).size() == old(self).size() - (if was_there { 1int } else { 0int }),
    {
        let prev = self.m.remove(k);
        proof {
            assert(final(self)@ =~= old(self)@.remove(k@));
        }
        prev.is_some()
    }
}

/// Set of pairs of strings, stored as a map to the unit value.
#[derive(Debug)]
pub struct PairSet {
    pub m: PairMap<()>,
}

impl View for PairSet {
    type V = Set<(Seq<char>, Seq<char>)>;

    open spec fn view(&self) -> Set<(Seq<char>, Seq<char>)> {
        self.m@.dom()
    }
}

impl PairSet {
    /// Number of elements.
    pub open spec fn size(&self) -> nat {
        self.m.kv_seq().len()
    }

    /// The elements in their stored order, with the unit payload.
    pub open spec fn elem_seq(&self) -> Seq<(String, String, ())> {
        self.m.kv_seq()
    }

    pub open spec fn wf(&self) -> bool {
        self.m.wf()
    }

    pub fn new() -> (s: Self)
        ensures
            s.wf(),
            s@ == Set::<(Seq<char>, Seq<char>)>::empty(),
            s.size() == 0,
    {
        let s = PairSet { m: PairMap::new() };
        proof {
            assert(s@ =~= Set::<(Seq<char>, Seq<char>)>::empty());
        }
        s
    }

    pub fn len(&self) -> (n: usize)
        ensures
            n == self.size(),
    {
        self.m.len()
    }

    pub fn is_empty(&self) -> (r: bool)
        ensures
            r == (self.size() == 0),
    {
        self.m.is_empty()
    }

    /// Read access to the elements, for iteration.
    pub fn elems(&self) -> (r: &Vec<(String, String, ())>)
        ensures
            r@ == self.elem_seq(),
    {
        self.m.pairs()
    }

    pub fn contains(&self, ka: &String, kb: &String) -> (r: bool)
        ensures
            r == self@.contains((ka@, kb@)),
    {
        self.m.contains_key(ka, kb)
    }

    pub fn insert(&mut self, ka: String, kb: String) -> (was_new: bool)
        requires
            old(self).wf(),
        ensures
            final(self).wf(),
            final(self)@ == old(self)@.insert((ka@, kb@)),
            was_new == !old(self)@.contains((ka@, kb@)),
            final(self).size() == old(self).size() + (if was_new { 1int } else { 0int }),
    {
        let prev = self.m.insert(ka, kb, ());
        proof {
            assert(final(self)@ =~= old(self)@.insert((ka@, kb@)));
        }
        prev.is_none()
    }

    pub fn remove(&mut self, ka: &String, kb: &String) -> (was_there: bool)
        requires
            old(self).wf(),
        ensures
            final(self).wf(),
            final(self)@ == old(self)@.remove((ka@, kb@)),
            was_there == old(self)@.contains((ka@, kb@)),
            final(self).size() == old(self).size() - (if was_there { 1int } else { 0int }),
    {
        let prev = self.m.remove(ka, kb);
        proof {
            assert(final(self)@ =~= old(self)@.remove((ka@, kb@)));
        }
        prev.is_some()
    }
}

} // verus!
