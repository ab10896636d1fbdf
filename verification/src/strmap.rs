//! Maps and sets keyed by text, small enough to be searched from end to end.
//!
//! A [`StrMap`] keeps its entries in the order in which their keys came first, and holds no key
//! twice. A [`StrSet`] is the same without values.
use vstd::prelude::*;

use crate::text::str_eq;

verus! {

/// Some entry of `es` has the key `k`.
pub open spec fn has_key<T>(es: Seq<(Seq<char>, T)>, k: Seq<char>) -> bool {
    exists|i: int| 0 <= i < es.len() && es[i].0 == k
}

/// The position of an entry of `es` with the key `k`.
pub open spec fn slot<T>(es: Seq<(Seq<char>, T)>, k: Seq<char>) -> int {
    choose|i: int| 0 <= i < es.len() && es[i].0 == k
}

/// No key stands in two entries.
pub open spec fn distinct_keys<T>(es: Seq<(Seq<char>, T)>) -> bool {
    forall|i: int, j: int| 0 <= i < j < es.len() ==> es[i].0 != es[j].0
}

/// The map that the entries stand for.
pub open spec fn as_map<T>(es: Seq<(Seq<char>, T)>) -> Map<Seq<char>, T> {
    Map::new(|k: Seq<char>| has_key(es, k), |k: Seq<char>| es[slot(es, k)].1)
}

/// The entries once `k` has the value `v`: in the place of the entry with that key, or behind all
/// others.
pub open spec fn put<T>(es: Seq<(Seq<char>, T)>, k: Seq<char>, v: T) -> Seq<(Seq<char>, T)> {
    if has_key(es, k) {
        es.update(slot(es, k), (k, v))
    } else {
        es.push((k, v))
    }
}

/// The entries without the one whose key is `k`.
pub open spec fn without<T>(es: Seq<(Seq<char>, T)>, k: Seq<char>) -> Seq<(Seq<char>, T)> {
    if has_key(es, k) {
        es.remove(slot(es, k))
    } else {
        es
    }
}

/// Where keys are distinct, a key stands in one place only.
pub proof fn lemma_slot<T>(es: Seq<(Seq<char>, T)>, i: int)
    requires
        distinct_keys(es),
        0 <= i < es.len(),
    ensures
        has_key(es, es[i].0),
        slot(es, es[i].0) == i,
        as_map(es).contains_key(es[i].0),
        as_map(es)[es[i].0] == es[i].1,
{
    let j = slot(es, es[i].0);
    assert(0 <= j < es.len() && es[j].0 == es[i].0);
    if i < j {
        assert(es[i].0 != es[j].0);
    } else if j < i {
        assert(es[j].0 != es[i].0);
    }
}

/// [`put`] is the insertion of a map.
pub proof fn lemma_put<T>(es: Seq<(Seq<char>, T)>, k: Seq<char>, v: T)
    requires
        distinct_keys(es),
    ensures
        distinct_keys(put(es, k, v)),
        as_map(put(es, k, v)) == as_map(es).insert(k, v),
{
    let new = put(es, k, v);
    if has_key(es, k) {
        let s = slot(es, k);
        assert(new.len() == es.len());
        assert forall|i: int| 0 <= i < es.len() implies #[trigger] new[i].0 == es[i].0 by {}
    } else {
        assert forall|i: int| 0 <= i < es.len() implies #[trigger] new[i] == es[i] by {}
    }
    assert(distinct_keys(new)) by {
        assert forall|i: int, j: int| 0 <= i < j < new.len() implies new[i].0 != new[j].0 by {
            if has_key(es, k) {
                assert(new[i].0 == es[i].0 && new[j].0 == es[j].0);
            } else if j == es.len() {
                assert(new[i] == es[i]);
                assert(new[j].0 == k);
            } else {
                assert(new[i] == es[i] && new[j] == es[j]);
            }
        }
    }
    let at = if has_key(es, k) {
        slot(es, k)
    } else {
        es.len() as int
    };
    assert(new[at] == (k, v));
    lemma_slot(new, at);
    assert forall|q: Seq<char>| #[trigger] as_map(new).contains_key(q) == as_map(es).insert(
        k,
        v,
    ).contains_key(q) by {
        if has_key(new, q) && q != k {
            let i = slot(new, q);
            assert(new[i] == es[i]);
            assert(has_key(es, q));
        }
        if has_key(es, q) && q != k {
            let i = slot(es, q);
            assert(new[i] == es[i]);
            assert(has_key(new, q));
        }
    }
    assert forall|q: Seq<char>| #[trigger]
        as_map(new).contains_key(q) implies as_map(new)[q] == as_map(es).insert(k, v)[q] by {
        let i = slot(new, q);
        if q != k {
            assert(new[i] == es[i]);
            lemma_slot(es, i);
        } else {
            assert(i == at);
        }
    }
    assert(as_map(new) =~= as_map(es).insert(k, v));
}

/// [`without`] is the removal of a map.
pub proof fn lemma_without<T>(es: Seq<(Seq<char>, T)>, k: Seq<char>)
    requires
        distinct_keys(es),
    ensures
        distinct_keys(without(es, k)),
        as_map(without(es, k)) == as_map(es).remove(k),
{
    let new = without(es, k);
    if has_key(es, k) {
        let s = slot(es, k);
        assert forall|i: int| 0 <= i < new.len() implies #[trigger] new[i] == es[if i < s {
            i
        } else {
            i + 1
        }] by {}
        assert(distinct_keys(new)) by {
            assert forall|i: int, j: int| 0 <= i < j < new.len() implies new[i].0 != new[j].0 by {
                let p = if i < s {
                    i
                } else {
                    i + 1
                };
                let q = if j < s {
                    j
                } else {
                    j + 1
                };
                assert(new[i] == es[p] && new[j] == es[q]);
            }
        }
        assert forall|q: Seq<char>| #[trigger] as_map(new).contains_key(q) == as_map(es).remove(
            k,
        ).contains_key(q) by {
            if has_key(new, q) {
                let i = slot(new, q);
                let p = if i < s {
                    i
                } else {
                    i + 1
                };
                assert(new[i] == es[p]);
                lemma_slot(es, p);
            }
            if has_key(es, q) && q != k {
                let i = slot(es, q);
                let p = if i < s {
                    i
                } else {
                    i - 1
                };
                assert(new[p] == es[i]);
                assert(has_key(new, q));
            }
        }
        assert forall|q: Seq<char>| #[trigger]
            as_map(new).contains_key(q) implies as_map(new)[q] == as_map(es).remove(k)[q] by {
            let i = slot(new, q);
            let p = if i < s {
                i
            } else {
                i + 1
            };
            assert(new[i] == es[p]);
            lemma_slot(es, p);
        }
    }
    assert(as_map(new) =~= as_map(es).remove(k));
}

/// A map from text to `T`.
#[derive(Debug)]
pub struct StrMap<T> {
    items: Vec<(String, T)>,
}

impl<T> View for StrMap<T> {
    type V = Map<Seq<char>, T>;

    open spec fn view(&self) -> Map<Seq<char>, T> {
        as_map(self.entries())
    }
}

impl<T> StrMap<T> {
    /// The entries, oldest key first.
    pub closed spec fn entries(&self) -> Seq<(Seq<char>, T)> {
        self.items@.map_values(|e: (String, T)| (e.0@, e.1))
    }

    #[verifier::type_invariant]
    spec fn keys_are_distinct(self) -> bool {
        distinct_keys(self.entries())
    }

    /// The map without entries.
    pub fn new() -> (r: StrMap<T>)
        ensures
            r.entries() == Seq::<(Seq<char>, T)>::empty(),
            r@ == Map::<Seq<char>, T>::empty(),
    {
        let r: StrMap<T> = StrMap { items: Vec::new() };
        assert(r.entries() =~= Seq::<(Seq<char>, T)>::empty());
        assert(r@ =~= Map::<Seq<char>, T>::empty());
        r
    }

    /// The number of entries.
    pub fn len(&self) -> (r: usize)
        ensures
            r == self.entries().len(),
            distinct_keys(self.entries()),
    {
        proof {
            use_type_invariant(self);
        }
        self.items.len()
    }

    /// Whether there is no entry.
    pub fn is_empty(&self) -> (r: bool)
        ensures
            r == (self.entries().len() == 0),
            r == (self@ == Map::<Seq<char>, T>::empty()),
    {
        proof {
            use_type_invariant(self);
            if self.entries().len() == 0 {
                assert(self@ =~= Map::<Seq<char>, T>::empty());
            } else {
                lemma_slot(self.entries(), 0);
                assert(self@.contains_key(self.entries()[0].0));
            }
        }
        self.items.len() == 0
    }

    /// The key of the entry at position `i`.
    pub fn key(&self, i: usize) -> (r: &String)
        requires
            i < self.entries().len(),
        ensures
            r@ == self.entries()[i as int].0,
    {
        &self.items[i].0
    }

    /// The value of the entry at position `i`.
    pub fn value(&self, i: usize) -> (r: &T)
        requires
            i < self.entries().len(),
        ensures
            *r == self.entries()[i as int].1,
            self@.contains_key(self.entries()[i as int].0),
            self@[self.entries()[i as int].0] == *r,
    {
        proof {
            use_type_invariant(self);
            lemma_slot(self.entries(), i as int);
        }
        &self.items[i].1
    }

    /// The position of the entry with the key `k`.
    fn position(&self, k: &str) -> (r: Option<usize>)
        ensures
            match r {
                Some(i) => i < self.entries().len() && self.entries()[i as int].0 == k@
                    && has_key(self.entries(), k@) && slot(self.entries(), k@) == i,
                None => !has_key(self.entries(), k@),
            },
    {
        proof {
            use_type_invariant(self);
        }
        let mut i: usize = 0;
        while i < self.items.len()
            invariant
                i <= self.items.len(),
                distinct_keys(self.entries()),
                self.entries().len() == self.items.len(),
                forall|j: int| 0 <= j < i ==> self.entries()[j].0 != k@,
            decreases self.items.len() - i,
        {
            if str_eq(self.items[i].0.as_str(), k) {
                proof {
                    lemma_slot(self.entries(), i as int);
                }
                return Some(i);
            }
            i += 1;
        }
        None
    }

    /// The value that belongs to `k`.
    pub fn get(&self, k: &str) -> (r: Option<&T>)
        ensures
            match r {
                Some(v) => self@.contains_key(k@) && *v == self@[k@],
                None => !self@.contains_key(k@),
            },
            distinct_keys(self.entries()),
    {
        proof {
            use_type_invariant(self);
        }
        match self.position(k) {
            Some(i) => Some(&self.items[i].1),
            None => None,
        }
    }

    /// Whether some value belongs to `k`.
    pub fn contains_key(&self, k: &str) -> (r: bool)
        ensures
            r == self@.contains_key(k@),
    {
        match self.position(k) {
            Some(_) => true,
            None => false,
        }
    }

    /// Lets `v` belong to `k`, in place of what belonged to it.
    pub fn insert(&mut self, k: String, v: T)
        ensures
            final(self).entries() == put(old(self).entries(), k@, v),
            final(self)@ == old(self)@.insert(k@, v),
            distinct_keys(old(self).entries()),
    {
        proof {
            use_type_invariant(&*self);
            lemma_put(self.entries(), k@, v);
        }
        let at: Option<usize> = self.position(k.as_str());
        let ghost before = self.entries();
        let ghost key = k@;
        let mut items: Vec<(String, T)> = Vec::new();
        std::mem::swap(&mut items, &mut self.items);
        let ghost taken = items@;
        match at {
            Some(i) => {
                items.set(i, (k, v));
                assert(items@.map_values(|e: (String, T)| (e.0@, e.1)) =~= put(before, key, v));
            },
            None => {
                items.push((k, v));
                assert(items@.map_values(|e: (String, T)| (e.0@, e.1)) =~= put(before, key, v));
            },
        }
        self.items = items;
    }

    /// Takes the value that belongs to `k` out of the map.
    pub fn take(&mut self, k: &str) -> (r: Option<T>)
        ensures
            match r {
                Some(v) => old(self)@.contains_key(k@) && v == old(self)@[k@],
                None => !old(self)@.contains_key(k@),
            },
            final(self).entries() == without(old(self).entries(), k@),
            final(self)@ == old(self)@.remove(k@),
            distinct_keys(old(self).entries()),
    {
        proof {
            use_type_invariant(&*self);
            lemma_without(self.entries(), k@);
        }
        let at: Option<usize> = self.position(k);
        let ghost before = self.entries();
        match at {
            Some(i) => {
                let mut items: Vec<(String, T)> = Vec::new();
                std::mem::swap(&mut items, &mut self.items);
                let taken: (String, T) = items.remove(i);
                assert(items@.map_values(|e: (String, T)| (e.0@, e.1)) =~= without(before, k@));
                self.items = items;
                Some(taken.1)
            },
            None => None,
        }
    }

    /// Removes `k` and what belongs to it.
    pub fn remove(&mut self, k: &str)
        ensures
            final(self).entries() == without(old(self).entries(), k@),
            final(self)@ == old(self)@.remove(k@),
            distinct_keys(old(self).entries()),
    {
        let _ = self.take(k);
    }
}

/// A set of texts.
#[derive(Debug)]
pub struct StrSet {
    items: Vec<String>,
}

impl View for StrSet {
    type V = Set<Seq<char>>;

    open spec fn view(&self) -> Set<Seq<char>> {
        self.members().to_set()
    }
}

impl StrSet {
    /// The members, oldest first.
    pub closed spec fn members(&self) -> Seq<Seq<char>> {
        self.items@.map_values(|s: String| s@)
    }

    #[verifier::type_invariant]
    spec fn members_are_distinct(self) -> bool {
        self.members().no_duplicates()
    }

    /// The set without members.
    pub fn new() -> (r: StrSet)
        ensures
            r@ == Set::<Seq<char>>::empty(),
    {
        let r: StrSet = StrSet { items: Vec::new() };
        assert(r@ =~= Set::<Seq<char>>::empty());
        r
    }

    /// The number of members.
    pub fn len(&self) -> (r: usize)
        ensures
            r == self@.len(),
            r == self.members().len(),
            self@.finite(),
            self.members().no_duplicates(),
    {
        proof {
            use_type_invariant(self);
            self.members().unique_seq_to_set();
            vstd::seq_lib::seq_to_set_is_finite(self.members());
        }
        self.items.len()
    }

    /// Whether there is no member.
    pub fn is_empty(&self) -> (r: bool)
        ensures
            r == (self@ == Set::<Seq<char>>::empty()),
    {
        proof {
            if self.members().len() == 0 {
                assert(self@ =~= Set::<Seq<char>>::empty());
            } else {
                assert(self.members().contains(self.members()[0]));
                assert(self@.contains(self.members()[0]));
            }
        }
        self.items.len() == 0
    }

    /// The member at position `i`.
    pub fn member(&self, i: usize) -> (r: &String)
        requires
            i < self.members().len(),
        ensures
            r@ == self.members()[i as int],
    {
        &self.items[i]
    }

    /// The position of `s`.
    fn position(&self, s: &str) -> (r: Option<usize>)
        ensures
            match r {
                Some(i) => i < self.members().len() && self.members()[i as int] == s@,
                None => !self.members().contains(s@),
            },
    {
        let mut i: usize = 0;
        while i < self.items.len()
            invariant
                i <= self.items.len(),
                self.members().len() == self.items.len(),
                forall|j: int| 0 <= j < i ==> self.members()[j] != s@,
            decreases self.items.len() - i,
        {
            if str_eq(self.items[i].as_str(), s) {
                return Some(i);
            }
            i += 1;
        }
        None
    }

    /// Whether `s` is a member.
    pub fn contains(&self, s: &str) -> (r: bool)
        ensures
            r == self@.contains(s@),
    {
        match self.position(s) {
            Some(_) => true,
            None => false,
        }
    }

    /// Makes `s` a member.
    pub fn insert(&mut self, s: &str)
        ensures
            final(self)@ == old(self)@.insert(s@),
    {
        proof {
            use_type_invariant(&*self);
        }
        let ghost before = self.members();
        if self.position(s).is_none() {
            let mut items: Vec<String> = Vec::new();
            std::mem::swap(&mut items, &mut self.items);
            items.push(s.to_owned());
            proof {
                let after = items@.map_values(|t: String| t@);
                assert(after =~= before.push(s@));
                assert(after.no_duplicates());
                assert(after.to_set() =~= before.to_set().insert(s@)) by {
                    assert forall|t: Seq<char>| #[trigger] after.contains(t) == (before.contains(t)
                        || t == s@) by {
                        if before.contains(t) {
                            let j = choose|j: int| 0 <= j < before.len() && before[j] == t;
                            assert(after[j] == t);
                        }
                        if t == s@ {
                            assert(after[before.len() as int] == t);
                        }
                    }
                }
            }
            self.items = items;
        } else {
            assert(self@ =~= self@.insert(s@));
        }
    }

    /// Makes `s` no member.
    pub fn remove(&mut self, s: &str)
        ensures
            final(self)@ == old(self)@.remove(s@),
    {
        proof {
            use_type_invariant(&*self);
        }
        let ghost before = self.members();
        match self.position(s) {
            Some(i) => {
                let mut items: Vec<String> = Vec::new();
                std::mem::swap(&mut items, &mut self.items);
                let _ = items.remove(i);
                proof {
                    let after = items@.map_values(|t: String| t@);
                    assert(after =~= before.remove(i as int));
                    assert(after.no_duplicates());
                    assert(after.to_set() =~= before.to_set().remove(s@)) by {
                        assert forall|t: Seq<char>| #[trigger] after.contains(t) == (
                        before.contains(t) && t != s@) by {
                            if after.contains(t) {
                                let j = choose|j: int| 0 <= j < after.len() && after[j] == t;
                                let k = if j < i {
                                    j
                                } else {
                                    j + 1
                                };
                                assert(before[k] == t);
                            }
                            if before.contains(t) && t != s@ {
                                let k = choose|k: int| 0 <= k < before.len() && before[k] == t;
                                let j = if k < i {
                                    k
                                } else {
                                    k - 1
                                };
                                assert(after[j] == t);
                            }
                        }
                    }
                }
                self.items = items;
            },
            None => {
                assert(self@ =~= self@.remove(s@));
            },
        }
    }
}

/// The map of entries with distinct keys holds each key with the value of its entry, and nothing
/// else.
pub proof fn law_entries<T>(es: Seq<(Seq<char>, T)>, k: Seq<char>, v: T)
    requires
        distinct_keys(es),
    ensures
        as_map(es).contains_key(k) && as_map(es)[k] == v <==> es.contains((k, v)),
        as_map(es).contains_key(k) <==> exists|i: int| 0 <= i < es.len() && (#[trigger] es[i]).0
            == k,
{
    if es.contains((k, v)) {
        let i = choose|i: int| 0 <= i < es.len() && es[i] == (k, v);
        lemma_slot(es, i);
    }
    if has_key(es, k) {
        let i = slot(es, k);
        assert(es[i].0 == k);
        if es[i].1 == v {
            assert(es[i] == (k, v));
        }
    }
}

/// A key that is there keeps its place and gets the value; a new one stands behind all others; every
/// other entry stays where it is.
pub proof fn law_put<T>(es: Seq<(Seq<char>, T)>, k: Seq<char>, v: T, i: int)
    requires
        distinct_keys(es),
    ensures
        put(es, k, v).contains((k, v)),
        0 <= i < es.len() && es[i].0 != k ==> put(es, k, v)[i] == es[i],
        0 <= i < es.len() && es[i].0 == k ==> put(es, k, v)[i] == (k, v),
        (exists|j: int| 0 <= j < es.len() && (#[trigger] es[j]).0 == k) ==> put(es, k, v).len()
            == es.len(),
        (forall|j: int| 0 <= j < es.len() ==> (#[trigger] es[j]).0 != k) ==> put(es, k, v)
            == es.push((k, v)),
{
    let new = put(es, k, v);
    if has_key(es, k) {
        let s = slot(es, k);
        assert(new[s] == (k, v));
    } else {
        assert(new[es.len() as int] == (k, v));
    }
    if 0 <= i < es.len() && es[i].0 == k {
        lemma_slot(es, i);
    }
}

/// A key that is removed is gone, and every other entry stays, in order.
pub proof fn law_without<T>(es: Seq<(Seq<char>, T)>, k: Seq<char>)
    requires
        distinct_keys(es),
    ensures
        without(es, k) == es.filter(|e: (Seq<char>, T)| e.0 != k),
    decreases es.len(),
{
    reveal(Seq::filter);
    let f = |e: (Seq<char>, T)| e.0 != k;
    if es.len() > 0 {
        let init = es.drop_last();
        let n = es.len() - 1;
        assert(distinct_keys(init)) by {
            assert forall|i: int, j: int| 0 <= i < j < init.len() implies init[i].0 != init[j].0 by {
                assert(es[i].0 != es[j].0);
            }
        }
        law_without(init, k);
        if es[n].0 == k {
            lemma_slot(es, n);
            assert(!has_key(init, k)) by {
                if has_key(init, k) {
                    let i = slot(init, k);
                    assert(es[i].0 != es[n].0);
                }
            }
            assert(es.remove(n) =~= init);
        } else if has_key(es, k) {
            let i = slot(es, k);
            assert(i < n);
            assert(init[i].0 == k);
            lemma_slot(init, i);
            assert(es.remove(i) =~= init.remove(i).push(es[n]));
        } else {
            assert(!has_key(init, k)) by {
                if has_key(init, k) {
                    let i = slot(init, k);
                    assert(es[i].0 == k);
                }
            }
            assert(init.push(es.last()) =~= es);
        }
    } else {
        assert(without(es, k) =~= es.filter(f));
    }
}

} // verus!
