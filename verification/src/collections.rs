//! Sets and maps keyed by text, kept in strictly increasing order as `String`'s `Ord` orders
//! them (by characters). vstd's specifications of `BTreeMap` and `BTreeSet` hold only for
//! keys whose order it specifies, and `String` is not among those, so these keep their
//! entries in a sorted `Vec` and prove their operations against that order.
use vstd::prelude::*;

use crate::order::{
    compare_texts, lemma_text_lt_asymmetric, lemma_text_lt_irreflexive, lemma_text_lt_total,
    lemma_text_lt_transitive, strictly_sorted, text_lt, TextOrder,
};

verus! {

/// Where a text would stand in a strictly sorted sequence: the number of entries before it.
pub open spec fn below_count(s: Seq<Seq<char>>, x: Seq<char>, p: int) -> bool {
    &&& 0 <= p <= s.len()
    &&& forall|i: int| 0 <= i < p ==> text_lt(#[trigger] s[i], x)
    &&& forall|i: int| p <= i < s.len() ==> !text_lt(#[trigger] s[i], x)
}

pub proof fn lemma_sorted_insert(s: Seq<Seq<char>>, p: int, x: Seq<char>)
    requires
        strictly_sorted(s),
        below_count(s, x, p),
        !s.contains(x),
    ensures
        strictly_sorted(s.insert(p, x)),
{
    assert forall|i: int| p <= i < s.len() implies text_lt(x, #[trigger] s[i]) by {
        lemma_text_lt_total(x, s[i]);
        assert(s[i] != x);
    }
    let t = s.insert(p, x);
    assert forall|i: int, j: int| 0 <= i < j < t.len() implies text_lt(#[trigger] t[i], #[trigger] t[j]) by {
        if j < p {
        } else if i < p && j == p {
        } else if i < p && j > p {
            assert(t[j] == s[j - 1]);
        } else if i == p {
            assert(t[j] == s[j - 1]);
        } else {
            assert(t[i] == s[i - 1]);
            assert(t[j] == s[j - 1]);
        }
    }
}

pub proof fn lemma_sorted_remove(s: Seq<Seq<char>>, p: int)
    requires
        strictly_sorted(s),
        0 <= p < s.len(),
    ensures
        strictly_sorted(s.remove(p)),
{
    let t = s.remove(p);
    assert forall|i: int, j: int| 0 <= i < j < t.len() implies text_lt(#[trigger] t[i], #[trigger] t[j]) by {
        if j < p {
        } else if i < p {
            assert(t[j] == s[j + 1]);
        } else {
            assert(t[i] == s[i + 1]);
            assert(t[j] == s[j + 1]);
        }
    }
}

pub proof fn lemma_sorted_no_duplicates(s: Seq<Seq<char>>)
    requires
        strictly_sorted(s),
    ensures
        s.no_duplicates(),
{
    assert forall|i: int, j: int| 0 <= i < s.len() && 0 <= j < s.len() && i != j implies s[i] != s[j] by {
        if i < j {
            assert(text_lt(s[i], s[j]));
            lemma_text_lt_irreflexive(s[i]);
        } else {
            assert(text_lt(s[j], s[i]));
            lemma_text_lt_irreflexive(s[j]);
        }
    }
}

/// Two strictly sorted sequences with the same members are the same sequence.
pub proof fn lemma_sorted_unique(s: Seq<Seq<char>>, t: Seq<Seq<char>>)
    requires
        strictly_sorted(s),
        strictly_sorted(t),
        forall|x: Seq<char>| s.contains(x) <==> t.contains(x),
    ensures
        s == t,
    decreases s.len(),
{
    if s.len() == 0 {
        if t.len() > 0 {
            assert(t.contains(t[0]));
        }
        assert(s =~= t);
    } else if t.len() == 0 {
        assert(s.contains(s[0]));
    } else {
        // the first elements are the least members, so they agree
        assert(s.contains(s[0]));
        assert(t.contains(t[0]));
        let i = choose|i: int| 0 <= i < t.len() && t[i] == s[0];
        let j = choose|j: int| 0 <= j < s.len() && s[j] == t[0];
        if i > 0 && j > 0 {
            assert(text_lt(t[0], t[i]));
            assert(text_lt(s[0], s[j]));
            lemma_text_lt_asymmetric(t[0], s[0]);
        }
        if i > 0 && j == 0 {
            assert(text_lt(t[0], t[i]));
            lemma_text_lt_irreflexive(t[0]);
        }
        if i == 0 && j > 0 {
            assert(text_lt(s[0], s[j]));
            lemma_text_lt_irreflexive(s[0]);
        }
        assert(s[0] == t[0]);
        let s1 = s.drop_first();
        let t1 = t.drop_first();
        lemma_sorted_no_duplicates(s);
        lemma_sorted_no_duplicates(t);
        assert forall|x: Seq<char>| s1.contains(x) <==> t1.contains(x) by {
            if s1.contains(x) {
                let k = choose|k: int| 0 <= k < s1.len() && s1[k] == x;
                assert(s[k + 1] == x);
                assert(x != s[0]);
                assert(t.contains(x));
                let m = choose|m: int| 0 <= m < t.len() && t[m] == x;
                assert(m != 0);
                assert(t1[m - 1] == x);
            }
            if t1.contains(x) {
                let k = choose|k: int| 0 <= k < t1.len() && t1[k] == x;
                assert(t[k + 1] == x);
                assert(x != t[0]);
                assert(s.contains(x));
                let m = choose|m: int| 0 <= m < s.len() && s[m] == x;
                assert(m != 0);
                assert(s1[m - 1] == x);
            }
        }
        lemma_sorted_unique(s1, t1);
        assert(s =~= seq![s[0]] + s1);
        assert(t =~= seq![t[0]] + t1);
    }
}

/// The members of a set of texts in increasing order.
pub open spec fn sorted_members(s: Set<Seq<char>>) -> Seq<Seq<char>> {
    choose|q: Seq<Seq<char>>| strictly_sorted(q) && q.to_set() == s
}

/// A strictly increasing sequence is the sorted members of its set.
pub proof fn lemma_sorted_members(q: Seq<Seq<char>>, s: Set<Seq<char>>)
    requires
        strictly_sorted(q),
        q.to_set() == s,
    ensures
        sorted_members(s) == q,
        strictly_sorted(sorted_members(s)),
{
    let r = sorted_members(s);
    assert(strictly_sorted(r) && r.to_set() == s);
    assert forall|x: Seq<char>| r.contains(x) <==> q.contains(x) by {
        assert(r.to_set().contains(x) == r.contains(x));
        assert(q.to_set().contains(x) == q.contains(x));
    }
    lemma_sorted_unique(r, q);
}

/// A map from texts to values, its entries kept in strictly increasing key order
/// (the order in which a `BTreeMap<String, V>` holds them).
#[derive(Debug, PartialEq, Eq)]
pub struct TextMap<V> {
    entries: Vec<(String, V)>,
}

impl<V> TextMap<V> {
    /// The keys, in order.
    pub closed spec fn keys(&self) -> Seq<Seq<char>> {
        self.entries@.map_values(|e: (String, V)| e.0@)
    }

    /// The values, in key order.
    pub closed spec fn values(&self) -> Seq<V> {
        self.entries@.map_values(|e: (String, V)| e.1)
    }

    /// The entries are in strictly increasing key order.
    pub closed spec fn wf(&self) -> bool {
        strictly_sorted(self.keys())
    }

    pub proof fn lemma_lengths(&self)
        ensures
            self.keys().len() == self.values().len(),
            self.wf() ==> strictly_sorted(self.keys()),
            strictly_sorted(self.keys()) ==> self.wf(),
    {
    }

    /// What the map holds at a position of its key sequence.
    pub proof fn lemma_view_at(&self, i: int)
        requires
            self.wf(),
            0 <= i < self.keys().len(),
        ensures
            self@.contains_key(self.keys()[i]),
            self@[self.keys()[i]] == self.values()[i],
    {
        let ks = self.keys();
        assert(ks.contains(ks[i]));
        let j = ks.index_of(ks[i]);
        lemma_sorted_no_duplicates(ks);
    }

    pub proof fn lemma_view_dom(&self)
        requires
            self.wf(),
        ensures
            self@.dom() == self.keys().to_set(),
            self@.dom().finite(),
            self@.dom().len() == self.keys().len(),
    {
        assert(self@.dom() =~= self.keys().to_set());
        lemma_sorted_no_duplicates(self.keys());
        self.keys().unique_seq_to_set();
    }

    /// An empty map.
    pub fn new() -> (m: Self)
        ensures
            m.wf(),
            m@ == Map::<Seq<char>, V>::empty(),
            m.keys() == Seq::<Seq<char>>::empty(),
    {
        let m = TextMap { entries: Vec::new() };
        assert(m@ =~= Map::<Seq<char>, V>::empty());
        assert(m.keys() =~= Seq::<Seq<char>>::empty());
        m
    }

    /// The number of entries.
    pub fn len(&self) -> (n: usize)
        requires
            self.wf(),
        ensures
            n == self.keys().len(),
            n == self@.len(),
    {
        proof { self.lemma_view_dom(); }
        self.entries.len()
    }

    /// Position of `k` among the keys (`Ok`) or where it would be inserted (`Err`).
    fn find(&self, k: &str) -> (r: Result<usize, usize>)
        requires
            self.wf(),
        ensures
            r matches Ok(i) ==> i < self.keys().len() && self.keys()[i as int] == k@,
            r matches Err(p) ==> below_count(self.keys(), k@, p as int) && !self.keys().contains(k@),
    {
        let mut i: usize = 0;
        while i < self.entries.len()
            invariant
                self.wf(),
                i <= self.entries.len(),
                forall|j: int| 0 <= j < i ==> text_lt(#[trigger] self.keys()[j], k@),
            decreases self.entries.len() - i,
        {
            let order = compare_texts(self.entries[i].0.as_str(), k);
            assert(self.keys()[i as int] == self.entries@[i as int].0@);
            match order {
                TextOrder::Less => {
                    i = i + 1;
                },
                TextOrder::Equal => {
                    return Ok(i);
                },
                TextOrder::Greater => {
                    proof {
                        let ks = self.keys();
                        assert forall|j: int| i <= j < ks.len() implies !text_lt(#[trigger] ks[j], k@) by {
                            if j > i {
                                assert(text_lt(ks[i as int], ks[j]));
                                if text_lt(ks[j], k@) {
                                    lemma_text_lt_transitive(ks[i as int], ks[j], k@);
                                    lemma_text_lt_asymmetric(ks[i as int], k@);
                                }
                            } else {
                                lemma_text_lt_asymmetric(k@, ks[j]);
                            }
                        }
                        assert forall|j: int| 0 <= j < ks.len() implies ks[j] != k@ by {
                            if j < i {
                                lemma_text_lt_irreflexive(k@);
                            } else {
                                lemma_text_lt_irreflexive(k@);
                            }
                        }
                    }
                    return Err(i);
                },
            }
        }
        proof {
            let ks = self.keys();
            assert forall|j: int| 0 <= j < ks.len() implies ks[j] != k@ by {
                lemma_text_lt_irreflexive(k@);
            }
        }
        Err(i)
    }

    /// Whether `k` is a key.
    pub fn contains_key(&self, k: &str) -> (b: bool)
        requires
            self.wf(),
        ensures
            b == self@.contains_key(k@),
    {
        match self.find(k) {
            Ok(_) => true,
            Err(_) => false,
        }
    }

    /// The value stored under `k`, if any.
    pub fn get(&self, k: &str) -> (r: Option<&V>)
        requires
            self.wf(),
        ensures
            r matches Some(v) ==> self@.contains_key(k@) && *v == self@[k@],
            r is None ==> !self@.contains_key(k@),
    {
        match self.find(k) {
            Ok(i) => {
                proof { self.lemma_view_at(i as int); }
                Some(&self.entries[i].1)
            },
            Err(_) => None,
        }
    }

    /// Stores `v` under `k`, replacing what was stored there before.
    pub fn insert(&mut self, k: String, v: V)
        requires
            old(self).wf(),
        ensures
            final(self).wf(),
            final(self)@ == old(self)@.insert(k@, v),
    {
        let ghost kv = k@;
        match self.find(k.as_str()) {
            Ok(i) => {
                let ghost old_keys = self.keys();
                self.entries.set(i, (k, v));
                proof {
                    assert(self.keys() =~= old_keys);
                    let m = old(self)@.insert(kv, v);
                    assert forall|x: Seq<char>| #[trigger] self@.contains_key(x) == m.contains_key(x) by {}
                    assert forall|x: Seq<char>| self@.contains_key(x) implies #[trigger] self@[x] == m[x] by {
                        let j = self.keys().index_of(x);
                        self.lemma_view_at(j);
                        if j != i {
                            old(self).lemma_view_at(j);
                            lemma_sorted_no_duplicates(self.keys());
                        }
                    }
                    assert(self@ =~= m);
                }
            },
            Err(p) => {
                proof { lemma_sorted_insert(self.keys(), p as int, kv); }
                self.entries.insert(p, (k, v));
                proof {
                    assert(self.keys() =~= old(self).keys().insert(p as int, kv));
                    assert(self.values() =~= old(self).values().insert(p as int, v));
                    let m = old(self)@.insert(kv, v);
                    assert forall|x: Seq<char>| #[trigger] self@.contains_key(x) == m.contains_key(x) by {
                        if old(self).keys().contains(x) {
                            let j = choose|j: int| 0 <= j < old(self).keys().len() && old(self).keys()[j] == x;
                            if j < p {
                                assert(self.keys()[j] == x);
                            } else {
                                assert(self.keys()[j + 1] == x);
                            }
                        }
                        if x == kv {
                            assert(self.keys()[p as int] == x);
                        }
                    }
                    assert forall|x: Seq<char>| self@.contains_key(x) implies #[trigger] self@[x] == m[x] by {
                        let j = self.keys().index_of(x);
                        self.lemma_view_at(j);
                        if j < p {
                            old(self).lemma_view_at(j);
                        } else if j > p {
                            old(self).lemma_view_at(j - 1);
                        }
                    }
                    assert(self@ =~= m);
                }
            },
        }
    }

    /// Removes the entry under `k`, handing back its value.
    pub fn remove(&mut self, k: &str) -> (r: Option<V>)
        requires
            old(self).wf(),
        ensures
            final(self).wf(),
            final(self)@ == old(self)@.remove(k@),
            r matches Some(v) ==> old(self)@.contains_key(k@) && v == old(self)@[k@],
            r is None ==> !old(self)@.contains_key(k@),
    {
        match self.find(k) {
            Ok(i) => {
                proof {
                    lemma_sorted_remove(self.keys(), i as int);
                    self.lemma_view_at(i as int);
                }
                let e = self.entries.remove(i);
                proof {
                    assert(self.keys() =~= old(self).keys().remove(i as int));
                    assert(self.values() =~= old(self).values().remove(i as int));
                    let m = old(self)@.remove(k@);
                    lemma_sorted_no_duplicates(old(self).keys());
                    assert forall|x: Seq<char>| #[trigger] self@.contains_key(x) == m.contains_key(x) by {
                        if old(self).keys().contains(x) && x != k@ {
                            let j = choose|j: int| 0 <= j < old(self).keys().len() && old(self).keys()[j] == x;
                            if j < i {
                                assert(self.keys()[j] == x);
                            } else {
                                assert(j != i);
                                assert(self.keys()[j - 1] == x);
                            }
                        }
                        if self.keys().contains(x) {
                            let j = choose|j: int| 0 <= j < self.keys().len() && self.keys()[j] == x;
                            if j < i {
                                assert(old(self).keys()[j] == x);
                            } else {
                                assert(old(self).keys()[j + 1] == x);
                            }
                        }
                    }
                    assert forall|x: Seq<char>| self@.contains_key(x) implies #[trigger] self@[x] == m[x] by {
                        let j = self.keys().index_of(x);
                        self.lemma_view_at(j);
                        if j < i {
                            old(self).lemma_view_at(j);
                        } else {
                            old(self).lemma_view_at(j + 1);
                        }
                    }
                    assert(self@ =~= m);
                }
                Some(e.1)
            },
            Err(_) => {
                assert(old(self)@.remove(k@) =~= old(self)@);
                None
            },
        }
    }

    /// The entries in key order.
    pub fn entries(&self) -> (r: &Vec<(String, V)>)
        ensures
            r@.map_values(|e: (String, V)| e.0@) == self.keys(),
            r@.map_values(|e: (String, V)| e.1) == self.values(),
            r@.len() == self.keys().len(),
    {
        &self.entries
    }
}

impl<V> View for TextMap<V> {
    type V = Map<Seq<char>, V>;

    closed spec fn view(&self) -> Map<Seq<char>, V> {
        Map::new(
            |k: Seq<char>| self.keys().contains(k),
            |k: Seq<char>| self.values()[self.keys().index_of(k)],
        )
    }
}


impl TextMap<String> {
    /// The map with each value taken by its text.
    pub open spec fn text_view(&self) -> Map<Seq<char>, Seq<char>> {
        Map::new(|k: Seq<char>| self@.contains_key(k), |k: Seq<char>| self@[k]@)
    }

    /// Whether both maps hold the same keys with the same texts.
    pub fn same_entries(&self, other: &TextMap<String>) -> (b: bool)
        requires
            self.wf(),
            other.wf(),
        ensures
            b == (self.text_view() == other.text_view()),
    {
        proof {
            self.lemma_view_dom();
            other.lemma_view_dom();
        }
        if self.entries.len() != other.entries.len() {
            proof {
                if self.text_view() == other.text_view() {
                    assert(self@.dom() =~= other@.dom()) by {
                        assert forall|k: Seq<char>| self@.dom().contains(k) <==> other@.dom().contains(k) by {
                            assert(self.text_view().dom().contains(k) == self@.dom().contains(k));
                            assert(other.text_view().dom().contains(k) == other@.dom().contains(k));
                        }
                    }
                }
            }
            return false;
        }
        let mut i: usize = 0;
        while i < self.entries.len()
            invariant
                self.wf(),
                other.wf(),
                self.entries.len() == other.entries.len(),
                i <= self.entries.len(),
                forall|j: int| 0 <= j < i ==> (#[trigger] self.entries@[j]).0@ == other.entries@[j].0@ && self.entries@[j].1@ == other.entries@[j].1@,
            decreases self.entries.len() - i,
        {
            let same_key = self.entries[i].0 == other.entries[i].0;
            let same_val = self.entries[i].1 == other.entries[i].1;
            assert(self.keys()[i as int] == self.entries@[i as int].0@);
            assert(other.keys()[i as int] == other.entries@[i as int].0@);
            assert(self.values()[i as int] == self.entries@[i as int].1);
            assert(other.values()[i as int] == other.entries@[i as int].1);
            if !same_key || !same_val {
                proof {
                    if self.text_view() == other.text_view() {
                        let k = self.keys()[i as int];
                        self.lemma_view_at(i as int);
                        assert(self.text_view().contains_key(k));
                        assert(other@.contains_key(k));
                        assert forall|x: Seq<char>| self.keys().contains(x) <==> other.keys().contains(x) by {
                            assert(self.text_view().dom().contains(x) == self@.dom().contains(x));
                            assert(other.text_view().dom().contains(x) == other@.dom().contains(x));
                            assert(self@.dom().contains(x) == self.keys().to_set().contains(x));
                            assert(other@.dom().contains(x) == other.keys().to_set().contains(x));
                        }
                        lemma_sorted_unique(self.keys(), other.keys());
                        other.lemma_view_at(i as int);
                        assert(self.text_view()[k] == other.text_view()[k]);
                    }
                }
                return false;
            }
            assert(self.entries@[i as int].0@ == other.entries@[i as int].0@);
            assert(self.entries@[i as int].1@ == other.entries@[i as int].1@);
            i = i + 1;
        }
        proof {
            assert(self.keys().len() == other.keys().len());
            assert forall|j: int| 0 <= j < self.keys().len() implies self.keys()[j] == other.keys()[j] && self.values()[j]@ == other.values()[j]@ by {
                assert(self.entries@[j].0@ == other.entries@[j].0@);
            }
            assert(self.keys() =~= other.keys());
            assert forall|k: Seq<char>| #[trigger] self.text_view().contains_key(k) <==> other.text_view().contains_key(k) by {
                assert(self@.dom().contains(k) == self.keys().to_set().contains(k));
                assert(other@.dom().contains(k) == other.keys().to_set().contains(k));
            }
            assert forall|k: Seq<char>| self.text_view().contains_key(k) implies #[trigger] self.text_view()[k] == other.text_view()[k] by {
                assert(self@.dom().contains(k) == self.keys().to_set().contains(k));
                let j = choose|j: int| 0 <= j < self.keys().len() && self.keys()[j] == k;
                self.lemma_view_at(j);
                other.lemma_view_at(j);
            }
            assert(self.text_view() =~= other.text_view());
        }
        true
    }

    /// A copy of the map.
    pub fn duplicate(&self) -> (r: Self)
        ensures
            r.keys() == self.keys(),
            r.values() == self.values(),
            r.wf() == self.wf(),
            r@ == self@,
    {
        let mut entries: Vec<(String, String)> = Vec::new();
        let mut i: usize = 0;
        while i < self.entries.len()
            invariant
                i <= self.entries.len(),
                entries@ == self.entries@.take(i as int),
            decreases self.entries.len() - i,
        {
            let k = self.entries[i].0.clone();
            let v = self.entries[i].1.clone();
            entries.push((k, v));
            assert(entries@ =~= self.entries@.take(i + 1));
            i = i + 1;
        }
        assert(entries@ =~= self.entries@);
        let r = TextMap { entries };
        assert(r.keys() =~= self.keys());
        assert(r.values() =~= self.values());
        r
    }

    /// Stores every entry of `other`, replacing what was stored under the same keys.
    pub fn extend(&mut self, other: &TextMap<String>)
        requires
            old(self).wf(),
            other.wf(),
        ensures
            final(self).wf(),
            final(self)@ == old(self)@.union_prefer_right(other@),
    {
        let mut i: usize = 0;
        while i < other.entries.len()
            invariant
                self.wf(),
                other.wf(),
                i <= other.entries.len(),
                self@ == old(self)@.union_prefer_right(
                    Map::new(|k: Seq<char>| other.keys().take(i as int).contains(k), |k: Seq<char>| other@[k]),
                ),
            decreases other.entries.len() - i,
        {
            let k = other.entries[i].0.clone();
            let v = other.entries[i].1.clone();
            proof { other.lemma_view_at(i as int); }
            let ghost before = self@;
            self.insert(k, v);
            proof {
                let ks = other.keys();
                assert(ks.take(i + 1) =~= ks.take(i as int).push(ks[i as int]));
                let a = Map::new(|k: Seq<char>| ks.take(i as int).contains(k), |k: Seq<char>| other@[k]);
                let b = Map::new(|k: Seq<char>| ks.take(i + 1).contains(k), |k: Seq<char>| other@[k]);
                broadcast use Seq::lemma_push_to_set_commute, Seq::lemma_push_map_commute;
                assert(ks.take(i + 1).to_set() == ks.take(i as int).to_set().insert(ks[i as int]));
                assert forall|k: Seq<char>| ks.take(i + 1).contains(k) <==> (ks.take(i as int).contains(k) || k == ks[i as int]) by {
                    assert(ks.take(i + 1).to_set().contains(k) == ks.take(i + 1).contains(k));
                    assert(ks.take(i as int).to_set().contains(k) == ks.take(i as int).contains(k));
                }
                assert(b =~= a.insert(ks[i as int], other@[ks[i as int]]));
                assert(self@ =~= old(self)@.union_prefer_right(b));
            }
            i = i + 1;
        }
        proof {
            let ks = other.keys();
            assert(ks.take(other.entries.len() as int) =~= ks);
            let a = Map::new(|k: Seq<char>| ks.contains(k), |k: Seq<char>| other@[k]);
            assert(a =~= other@);
        }
    }

    /// The keys, as a set.
    pub fn key_set(&self) -> (r: TextSet)
        requires
            self.wf(),
        ensures
            r.wf(),
            r@ == self@.dom(),
    {
        let mut r = TextSet::new();
        let mut i: usize = 0;
        while i < self.entries.len()
            invariant
                r.wf(),
                i <= self.entries.len(),
                r@ == self.keys().take(i as int).to_set(),
            decreases self.entries.len() - i,
        {
            r.insert(self.entries[i].0.clone());
            proof {
                broadcast use Seq::lemma_push_to_set_commute;
                assert(self.keys()[i as int] == self.entries@[i as int].0@);
                assert(self.keys().take(i + 1) =~= self.keys().take(i as int).push(self.keys()[i as int]));
            }
            i = i + 1;
        }
        proof {
            self.lemma_view_dom();
            assert(self.keys().take(i as int) =~= self.keys());
        }
        r
    }

    /// Stores `v` under `k` unless `k` is already a key.
    pub fn insert_if_absent(&mut self, k: String, v: String)
        requires
            old(self).wf(),
        ensures
            final(self).wf(),
            final(self)@ == if old(self)@.contains_key(k@) { old(self)@ } else { old(self)@.insert(k@, v) },
    {
        if !self.contains_key(k.as_str()) {
            self.insert(k, v);
        }
    }
}

/// A set of texts, kept in strictly increasing order (the order of a `BTreeSet<String>`).
#[derive(Debug, PartialEq, Eq)]
pub struct TextSet {
    inner: TextMap<()>,
}

impl TextSet {
    /// The members, in increasing order.
    pub closed spec fn elems(&self) -> Seq<Seq<char>> {
        self.inner.keys()
    }

    pub closed spec fn wf(&self) -> bool {
        self.inner.wf()
    }

    pub proof fn lemma_wf(&self)
        requires
            self.wf(),
        ensures
            strictly_sorted(self.elems()),
            self.elems().no_duplicates(),
            self@.finite(),
            self@.len() == self.elems().len(),
            forall|x: Seq<char>| #[trigger] self@.contains(x) <==> self.elems().contains(x),
    {
        lemma_sorted_no_duplicates(self.elems());
        self.elems().unique_seq_to_set();
    }

    /// Two well-formed sets with the same members hold them in the same order.
    pub proof fn lemma_same_members(&self, other: &TextSet)
        requires
            self.wf(),
            other.wf(),
            self@ == other@,
        ensures
            self.elems() == other.elems(),
    {
        assert forall|x: Seq<char>| self.elems().contains(x) <==> other.elems().contains(x) by {
            assert(self@.contains(x) == self.elems().contains(x));
            assert(other@.contains(x) == other.elems().contains(x));
        }
        lemma_sorted_unique(self.elems(), other.elems());
    }

    /// An empty set.
    pub fn new() -> (s: Self)
        ensures
            s.wf(),
            s@ == Set::<Seq<char>>::empty(),
            s.elems() == Seq::<Seq<char>>::empty(),
    {
        let s = TextSet { inner: TextMap::new() };
        assert(s@ =~= Set::<Seq<char>>::empty());
        s
    }

    /// The number of members.
    pub fn len(&self) -> (n: usize)
        requires
            self.wf(),
        ensures
            n == self.elems().len(),
            n == self@.len(),
    {
        proof { self.lemma_wf(); }
        self.inner.len()
    }

    /// Whether the set has no members.
    pub fn is_empty(&self) -> (b: bool)
        requires
            self.wf(),
        ensures
            b == (self@ == Set::<Seq<char>>::empty()),
            b == (self.elems().len() == 0),
    {
        proof {
            self.lemma_wf();
            if self.elems().len() > 0 {
                assert(self@.contains(self.elems()[0]));
            }
            if self.elems().len() == 0 {
                assert(self@ =~= Set::<Seq<char>>::empty());
            }
        }
        self.inner.len() == 0
    }

    /// Whether `x` is a member.
    pub fn contains(&self, x: &str) -> (b: bool)
        requires
            self.wf(),
        ensures
            b == self@.contains(x@),
    {
        proof { self.inner.lemma_view_dom(); }
        self.inner.contains_key(x)
    }

    /// Adds `x`; answers whether it was not a member before.
    pub fn insert(&mut self, x: String) -> (added: bool)
        requires
            old(self).wf(),
        ensures
            final(self).wf(),
            final(self)@ == old(self)@.insert(x@),
            added == !old(self)@.contains(x@),
    {
        proof { self.inner.lemma_view_dom(); }
        let present = self.inner.contains_key(x.as_str());
        self.inner.insert(x, ());
        proof {
            self.inner.lemma_view_dom();
            assert(self@ =~= old(self)@.insert(x@));
        }
        !present
    }

    /// Removes `x`; answers whether it was a member.
    pub fn remove(&mut self, x: &str) -> (removed: bool)
        requires
            old(self).wf(),
        ensures
            final(self).wf(),
            final(self)@ == old(self)@.remove(x@),
            removed == old(self)@.contains(x@),
    {
        proof { self.inner.lemma_view_dom(); }
        let r = self.inner.remove(x);
        proof {
            self.inner.lemma_view_dom();
            assert(self@ =~= old(self)@.remove(x@));
        }
        r.is_some()
    }

    /// The members in increasing order.
    pub fn to_vec(&self) -> (v: Vec<String>)
        ensures
            v@.map_values(|s: String| s@) == self.elems(),
    {
        let es = self.inner.entries();
        let mut v: Vec<String> = Vec::new();
        let mut i: usize = 0;
        while i < es.len()
            invariant
                i <= es.len(),
                es@.map_values(|e: (String, ())| e.0@) == self.elems(),
                v@.map_values(|s: String| s@) == self.elems().take(i as int),
            decreases es.len() - i,
        {
            let x = es[i].0.clone();
            v.push(x);
            proof {
                assert(self.elems()[i as int] == es@[i as int].0@);
                broadcast use Seq::lemma_push_to_set_commute, Seq::lemma_push_map_commute;
                assert(self.elems().take(i + 1) =~= self.elems().take(i as int).push(self.elems()[i as int]));
                assert(v@.map_values(|s: String| s@) =~= self.elems().take(i + 1));
            }
            i = i + 1;
        }
        assert(self.elems().take(i as int) =~= self.elems());
        v
    }

    /// Whether both sets have the same members.
    pub fn same_members(&self, other: &TextSet) -> (b: bool)
        requires
            self.wf(),
            other.wf(),
        ensures
            b == (self@ == other@),
    {
        let a = self.to_vec();
        let c = other.to_vec();
        proof {
            self.lemma_wf();
            other.lemma_wf();
        }
        if a.len() != c.len() {
            proof {
                if self@ == other@ {
                    self.lemma_same_members(other);
                }
            }
            return false;
        }
        let mut i: usize = 0;
        while i < a.len()
            invariant
                self.wf(),
                other.wf(),
                a.len() == c.len(),
                crate::text::views(a@) == self.elems(),
                crate::text::views(c@) == other.elems(),
                i <= a.len(),
                forall|j: int| 0 <= j < i ==> self.elems()[j] == other.elems()[j],
            decreases a.len() - i,
        {
            assert(self.elems()[i as int] == a@[i as int]@);
            assert(other.elems()[i as int] == c@[i as int]@);
            if a[i] != c[i] {
                proof {
                    if self@ == other@ {
                        self.lemma_same_members(other);
                    }
                }
                return false;
            }
            i = i + 1;
        }
        proof {
            assert(self.elems() =~= other.elems());
            assert(self@ =~= other@);
        }
        true
    }

    /// A copy of the set.
    pub fn duplicate(&self) -> (r: Self)
        requires
            self.wf(),
        ensures
            r.wf(),
            r@ == self@,
            r.elems() == self.elems(),
    {
        let v = self.to_vec();
        let r = TextSet::from_vec(&v);
        proof { r.lemma_same_members(self); }
        r
    }

    /// The set of the given texts.
    pub fn from_vec(v: &Vec<String>) -> (s: Self)
        ensures
            s.wf(),
            s@ == v@.map_values(|x: String| x@).to_set(),
    {
        let mut s = TextSet::new();
        let mut i: usize = 0;
        while i < v.len()
            invariant
                s.wf(),
                i <= v.len(),
                s@ == v@.take(i as int).map_values(|x: String| x@).to_set(),
            decreases v.len() - i,
        {
            s.insert(v[i].clone());
            assert(v@.take(i + 1).map_values(|x: String| x@) =~= v@.take(i as int).map_values(|x: String| x@).push(v@[i as int]@));
            proof {
                broadcast use Seq::lemma_push_to_set_commute, Seq::lemma_push_map_commute;
                assert(s@ =~= v@.take(i + 1).map_values(|x: String| x@).to_set());
            }
            i = i + 1;
        }
        assert(v@.take(i as int) =~= v@);
        s
    }

    /// Adds every member of `other`.
    pub fn extend(&mut self, other: &TextSet)
        requires
            old(self).wf(),
            other.wf(),
        ensures
            final(self).wf(),
            final(self)@ == old(self)@.union(other@),
    {
        let v = other.to_vec();
        let mut i: usize = 0;
        while i < v.len()
            invariant
                self.wf(),
                i <= v.len(),
                v@.map_values(|s: String| s@) == other.elems(),
                self@ == old(self)@.union(other.elems().take(i as int).to_set()),
            decreases v.len() - i,
        {
            self.insert(v[i].clone());
            proof {
                assert(other.elems()[i as int] == v@[i as int]@);
                assert(other.elems().take(i + 1) =~= other.elems().take(i as int).push(other.elems()[i as int]));
                broadcast use Seq::lemma_push_to_set_commute, Seq::lemma_push_map_commute;
                assert(self@ =~= old(self)@.union(other.elems().take(i + 1).to_set()));
            }
            i = i + 1;
        }
        assert(other.elems().take(i as int) =~= other.elems());
        assert(other@ =~= other.elems().to_set());
    }

    /// The members of `self` that are not members of `other`.
    pub fn difference(&self, other: &TextSet) -> (r: TextSet)
        requires
            self.wf(),
            other.wf(),
        ensures
            r.wf(),
            r@ == self@.difference(other@),
    {
        let v = self.to_vec();
        let mut r = TextSet::new();
        let mut i: usize = 0;
        while i < v.len()
            invariant
                r.wf(),
                other.wf(),
                i <= v.len(),
                v@.map_values(|s: String| s@) == self.elems(),
                r@ == self.elems().take(i as int).to_set().difference(other@),
            decreases v.len() - i,
        {
            let ghost x = v@[i as int]@;
            if !other.contains(v[i].as_str()) {
                r.insert(v[i].clone());
            }
            proof {
                assert(self.elems()[i as int] == x);
                assert(self.elems().take(i + 1) =~= self.elems().take(i as int).push(x));
                broadcast use Seq::lemma_push_to_set_commute, Seq::lemma_push_map_commute;
                assert(r@ =~= self.elems().take(i + 1).to_set().difference(other@));
            }
            i = i + 1;
        }
        assert(self.elems().take(i as int) =~= self.elems());
        assert(self@ =~= self.elems().to_set());
        r
    }

    /// The members of `self` that are also members of `other`.
    pub fn intersection(&self, other: &TextSet) -> (r: TextSet)
        requires
            self.wf(),
            other.wf(),
        ensures
            r.wf(),
            r@ == self@.intersect(other@),
    {
        let v = self.to_vec();
        let mut r = TextSet::new();
        let mut i: usize = 0;
        while i < v.len()
            invariant
                r.wf(),
                other.wf(),
                i <= v.len(),
                v@.map_values(|s: String| s@) == self.elems(),
                r@ == self.elems().take(i as int).to_set().intersect(other@),
            decreases v.len() - i,
        {
            let ghost x = v@[i as int]@;
            if other.contains(v[i].as_str()) {
                r.insert(v[i].clone());
            }
            proof {
                assert(self.elems()[i as int] == x);
                assert(self.elems().take(i + 1) =~= self.elems().take(i as int).push(x));
                broadcast use Seq::lemma_push_to_set_commute, Seq::lemma_push_map_commute;
                assert(r@ =~= self.elems().take(i + 1).to_set().intersect(other@));
            }
            i = i + 1;
        }
        assert(self.elems().take(i as int) =~= self.elems());
        assert(self@ =~= self.elems().to_set());
        r
    }
}

impl View for TextSet {
    type V = Set<Seq<char>>;

    closed spec fn view(&self) -> Set<Seq<char>> {
        self.elems().to_set()
    }
}

}
