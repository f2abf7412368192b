//! A small map from text to values that remembers the order in which its keys came.
use vstd::prelude::*;

use crate::text::text_eq;

verus! {

broadcast use vstd::seq::group_seq_axioms;

/// What each item of a list stands for.
pub open spec fn views<T: View>(s: Seq<T>) -> Seq<T::V> {
    Seq::new(s.len(), |i: int| s[i]@)
}

/// What an optional item stands for.
pub open spec fn opt_view<T: View>(s: Option<T>) -> Option<T::V> {
    match s {
        Some(t) => Some(t@),
        None => None,
    }
}

/// The value that the first entry with key `k` holds.
pub open spec fn lookup<X>(s: Seq<(Seq<char>, X)>, k: Seq<char>) -> Option<X>
    decreases s.len(),
{
    if s.len() == 0 {
        None
    } else if s[0].0 == k {
        Some(s[0].1)
    } else {
        lookup(s.skip(1), k)
    }
}

/// The entries with `k` bound to `v`: in place where the key was there, at the end otherwise.
pub open spec fn bound<X>(s: Seq<(Seq<char>, X)>, k: Seq<char>, v: X) -> Seq<(Seq<char>, X)>
    decreases s.len(),
{
    if s.len() == 0 {
        seq![(k, v)]
    } else if s[0].0 == k {
        seq![(k, v)] + s.skip(1)
    } else {
        seq![s[0]] + bound(s.skip(1), k, v)
    }
}

/// The entries whose key is not `k`.
pub open spec fn unbound<X>(s: Seq<(Seq<char>, X)>, k: Seq<char>) -> Seq<(Seq<char>, X)>
    decreases s.len(),
{
    if s.len() == 0 {
        s
    } else if s[0].0 == k {
        unbound(s.skip(1), k)
    } else {
        seq![s[0]] + unbound(s.skip(1), k)
    }
}

/// No key stands twice.
pub open spec fn distinct_keys<X>(s: Seq<(Seq<char>, X)>) -> bool {
    forall|i: int, j: int| 0 <= i < j < s.len() ==> #[trigger] s[i].0 != #[trigger] s[j].0
}

/// The keys, in order.
pub open spec fn keys_of<X>(s: Seq<(Seq<char>, X)>) -> Seq<Seq<char>> {
    Seq::new(s.len(), |i: int| s[i].0)
}

/// The values, in the order of their keys.
pub open spec fn values_of<X>(s: Seq<(Seq<char>, X)>) -> Seq<X> {
    Seq::new(s.len(), |i: int| s[i].1)
}

pub proof fn lemma_lookup_at<X>(s: Seq<(Seq<char>, X)>, k: Seq<char>, i: int)
    requires
        0 <= i < s.len(),
        s[i].0 == k,
        forall|j: int| 0 <= j < i ==> s[j].0 != k,
    ensures
        lookup(s, k) == Some(s[i].1),
    decreases s.len(),
{
    if i > 0 {
        let t = s.skip(1);
        assert forall|j: int| 0 <= j < i - 1 implies t[j].0 != k by {
            assert(t[j] == s[j + 1]);
        }
        lemma_lookup_at(t, k, i - 1);
    }
}

pub proof fn lemma_lookup_none<X>(s: Seq<(Seq<char>, X)>, k: Seq<char>)
    requires
        forall|j: int| 0 <= j < s.len() ==> s[j].0 != k,
    ensures
        lookup(s, k) is None,
    decreases s.len(),
{
    if s.len() > 0 {
        let t = s.skip(1);
        assert forall|j: int| 0 <= j < t.len() implies t[j].0 != k by {
            assert(t[j] == s[j + 1]);
        }
        lemma_lookup_none(t, k);
    }
}

/// A key is found exactly where some entry holds it, and the value found stands in that entry.
pub proof fn lemma_lookup_some<X>(s: Seq<(Seq<char>, X)>, k: Seq<char>)
    ensures
        lookup(s, k) is Some <==> keys_of(s).contains(k),
        lookup(s, k) matches Some(v) ==> s.contains((k, v)),
    decreases s.len(),
{
    if s.len() > 0 {
        let t = s.skip(1);
        lemma_lookup_some(t, k);
        if s[0].0 == k {
            assert(keys_of(s)[0] == k);
            assert(s[0] == (k, s[0].1));
        } else {
            if keys_of(t).contains(k) {
                let j = choose|j: int| 0 <= j < t.len() && keys_of(t)[j] == k;
                assert(keys_of(s)[j + 1] == k);
            }
            if keys_of(s).contains(k) {
                let j = choose|j: int| 0 <= j < s.len() && keys_of(s)[j] == k;
                assert(keys_of(t)[j - 1] == k);
            }
            if let Some(v) = lookup(t, k) {
                let j = choose|j: int| 0 <= j < t.len() && t[j] == (k, v);
                assert(s[j + 1] == (k, v));
            }
        }
    }
}

pub proof fn lemma_bound_at<X>(s: Seq<(Seq<char>, X)>, k: Seq<char>, v: X, i: int)
    requires
        0 <= i < s.len(),
        s[i].0 == k,
        forall|j: int| 0 <= j < i ==> s[j].0 != k,
    ensures
        bound(s, k, v) == s.update(i, (k, v)),
    decreases s.len(),
{
    if i == 0 {
        assert(seq![(k, v)] + s.skip(1) == s.update(0, (k, v)));
    } else {
        let t = s.skip(1);
        assert forall|j: int| 0 <= j < i - 1 implies t[j].0 != k by {
            assert(t[j] == s[j + 1]);
        }
        lemma_bound_at(t, k, v, i - 1);
        assert(seq![s[0]] + t.update(i - 1, (k, v)) == s.update(i, (k, v)));
    }
}

pub proof fn lemma_bound_new<X>(s: Seq<(Seq<char>, X)>, k: Seq<char>, v: X)
    requires
        forall|j: int| 0 <= j < s.len() ==> s[j].0 != k,
    ensures
        bound(s, k, v) == s.push((k, v)),
    decreases s.len(),
{
    if s.len() == 0 {
        assert(seq![(k, v)] == s.push((k, v)));
    } else {
        let t = s.skip(1);
        assert forall|j: int| 0 <= j < t.len() implies t[j].0 != k by {
            assert(t[j] == s[j + 1]);
        }
        lemma_bound_new(t, k, v);
        assert(seq![s[0]] + t.push((k, v)) == s.push((k, v)));
    }
}

/// A bound key is found with its new value; every other key is found as before.
pub proof fn law_bound_lookup<X>(s: Seq<(Seq<char>, X)>, k: Seq<char>, v: X, q: Seq<char>)
    ensures
        lookup(bound(s, k, v), q) == (if q == k {
            Some(v)
        } else {
            lookup(s, q)
        }),
    decreases s.len(),
{
    reveal_with_fuel(lookup, 2);
    if s.len() == 0 {
        assert(bound(s, k, v).skip(1) == Seq::<(Seq<char>, X)>::empty());
    } else if s[0].0 == k {
        assert((seq![(k, v)] + s.skip(1)).skip(1) == s.skip(1));
    } else {
        law_bound_lookup(s.skip(1), k, v, q);
        assert((seq![s[0]] + bound(s.skip(1), k, v)).skip(1) == bound(s.skip(1), k, v));
    }
}

/// A removed key is not found; every other key is found as before.
pub proof fn law_unbound_lookup<X>(s: Seq<(Seq<char>, X)>, k: Seq<char>, q: Seq<char>)
    ensures
        lookup(unbound(s, k), q) == (if q == k {
            None
        } else {
            lookup(s, q)
        }),
    decreases s.len(),
{
    if s.len() > 0 {
        let t = s.skip(1);
        law_unbound_lookup(t, k, q);
        if s[0].0 != k {
            assert((seq![s[0]] + unbound(t, k)).skip(1) == unbound(t, k));
        }
    }
}

/// Binding keeps keys distinct, and adds an entry only for a new key.
pub proof fn law_bound_distinct<X>(s: Seq<(Seq<char>, X)>, k: Seq<char>, v: X)
    requires
        distinct_keys(s),
    ensures
        distinct_keys(bound(s, k, v)),
        bound(s, k, v).len() == s.len() + (if lookup(s, k) is Some {
            0int
        } else {
            1
        }),
{
    lemma_lookup_some(s, k);
    if keys_of(s).contains(k) {
        let i = choose|i: int| 0 <= i < s.len() && keys_of(s)[i] == k;
        lemma_bound_at(s, k, v, i);
    } else {
        assert forall|j: int| 0 <= j < s.len() implies s[j].0 != k by {
            assert(keys_of(s)[j] == s[j].0);
        }
        lemma_bound_new(s, k, v);
    }
}

/// What can be copied with all that is seen of it.
pub trait Copied: View + Sized {
    fn copied(&self) -> (r: Self)
        ensures
            r@ == self@,
    ;
}

impl Copied for String {
    fn copied(&self) -> (r: Self) {
        self.clone()
    }
}

/// A map from text to values, kept as a list of entries.
#[derive(Debug)]
pub struct Table<T> {
    entries: Vec<(String, T)>,
}

impl<T: View> View for Table<T> {
    type V = Seq<(Seq<char>, T::V)>;

    closed spec fn view(&self) -> Seq<(Seq<char>, T::V)> {
        Seq::new(self.entries@.len(), |i: int| (self.entries@[i].0@, self.entries@[i].1@))
    }
}

impl<T: Copied> Table<T> {
    /// A table with the same entries in the same order.
    pub fn copied(&self) -> (r: Self)
        ensures
            r@ == self@,
    {
        let mut entries: Vec<(String, T)> = Vec::new();
        let mut i: usize = 0;
        while i < self.entries.len()
            invariant
                i <= self.entries@.len(),
                entries@.len() == i,
                forall|j: int|
                    0 <= j < i ==> (#[trigger] entries@[j]).0@ == self.entries@[j].0@
                        && entries@[j].1@ == self.entries@[j].1@,
            decreases self.entries.len() - i,
        {
            entries.push((self.entries[i].0.clone(), self.entries[i].1.copied()));
            i = i + 1;
        }
        let r = Table { entries };
        assert(r@ == self@);
        r
    }
}

impl<T: View> Table<T> {
    pub fn new() -> (r: Self)
        ensures
            r@ == Seq::<(Seq<char>, T::V)>::empty(),
    {
        let r = Table { entries: Vec::new() };
        assert(r@ == Seq::<(Seq<char>, T::V)>::empty());
        r
    }

    pub fn len(&self) -> (r: usize)
        ensures
            r == self@.len(),
    {
        self.entries.len()
    }

    fn position(&self, key: &str) -> (r: Option<usize>)
        ensures
            r matches Some(i) ==> i < self@.len() && self@[i as int].0 == key@ && forall|j: int|
                0 <= j < i ==> self@[j].0 != key@,
            r is None ==> forall|j: int| 0 <= j < self@.len() ==> self@[j].0 != key@,
    {
        let mut i: usize = 0;
        while i < self.entries.len()
            invariant
                i <= self@.len(),
                self@.len() == self.entries@.len(),
                forall|j: int| 0 <= j < i ==> self@[j].0 != key@,
            decreases self.entries.len() - i,
        {
            if text_eq(self.entries[i].0.as_str(), key) {
                return Some(i);
            }
            i = i + 1;
        }
        None
    }

    pub fn get(&self, key: &str) -> (r: Option<&T>)
        ensures
            r is Some <==> lookup(self@, key@) is Some,
            r matches Some(v) ==> lookup(self@, key@) == Some(v@),
    {
        match self.position(key) {
            Some(i) => {
                proof {
                    lemma_lookup_at(self@, key@, i as int);
                }
                Some(&self.entries[i].1)
            },
            None => {
                proof {
                    lemma_lookup_none(self@, key@);
                }
                None
            },
        }
    }

    pub fn contains_key(&self, key: &str) -> (r: bool)
        ensures
            r == lookup(self@, key@) is Some,
    {
        self.get(key).is_some()
    }

    pub fn insert(&mut self, key: String, value: T)
        ensures
            final(self)@ == bound(old(self)@, key@, value@),
            distinct_keys(old(self)@) ==> distinct_keys(final(self)@),
    {
        let ghost before = self@;
        let ghost k = key@;
        let ghost v = value@;
        proof {
            if distinct_keys(before) {
                law_bound_distinct(before, k, v);
            }
        }
        match self.position(key.as_str()) {
            Some(i) => {
                proof {
                    lemma_bound_at(before, k, v, i as int);
                }
                self.entries.set(i, (key, value));
                assert(self@ == before.update(i as int, (k, v)));
            },
            None => {
                proof {
                    lemma_bound_new(before, k, v);
                }
                self.entries.push((key, value));
                assert(self@ == before.push((k, v)));
            },
        }
    }

    pub fn key_at(&self, i: usize) -> (r: &String)
        requires
            i < self@.len(),
        ensures
            r@ == self@[i as int].0,
    {
        &self.entries[i].0
    }

    pub fn value_at(&self, i: usize) -> (r: &T)
        requires
            i < self@.len(),
        ensures
            r@ == self@[i as int].1,
    {
        &self.entries[i].1
    }

    /// All keys, in order.
    pub fn keys(&self) -> (r: Vec<String>)
        ensures
            crate::text::texts(r@) == keys_of(self@),
    {
        let mut r: Vec<String> = Vec::new();
        let mut i: usize = 0;
        while i < self.entries.len()
            invariant
                i <= self@.len(),
                self@.len() == self.entries@.len(),
                r@.len() == i,
                forall|j: int| 0 <= j < i ==> r@[j]@ == self@[j].0,
            decreases self.entries.len() - i,
        {
            r.push(self.entries[i].0.clone());
            i = i + 1;
        }
        assert(crate::text::texts(r@) == keys_of(self@));
        r
    }

    /// Removes every entry with this key, and gives back the value that was found under it.
    pub fn remove(&mut self, key: &str) -> (r: Option<T>)
        ensures
            final(self)@ == unbound(old(self)@, key@),
            opt_view(r) == lookup(old(self)@, key@),
            distinct_keys(old(self)@) ==> distinct_keys(final(self)@),
    {
        let ghost all = self@;
        proof {
            if distinct_keys(all) {
                lemma_unbound_distinct(all, key@);
            }
        }
        let mut found: Option<T> = None;
        let mut next = self.position(key);
        proof {
            match next {
                Some(i) => lemma_lookup_at(all, key@, i as int),
                None => lemma_lookup_none(all, key@),
            }
        }
        let ghost mut first = true;
        while next.is_some()
            invariant
                first ==> found is None && self@ == all,
                !first ==> found is Some && opt_view(found) == lookup(all, key@),
                first ==> (next matches Some(i) ==> lookup(all, key@) == Some(all[i as int].1)),
                first && next is None ==> lookup(all, key@) is None,
                next matches Some(i) ==> i < self@.len() && self@[i as int].0 == key@,
                next is None ==> forall|j: int| 0 <= j < self@.len() ==> self@[j].0 != key@,
                unbound(self@, key@) == unbound(all, key@),
            decreases self@.len() + (if next is Some {
                1int
            } else {
                0
            }),
        {
            let i = next.unwrap();
            let ghost before = self@;
            proof {
                lemma_unbound_remove(before, key@, i as int);
            }
            let e = self.entries.remove(i);
            assert(before[i as int] == (e.0@, e.1@));
            assert(self@ == before.remove(i as int));
            if found.is_none() {
                found = Some(e.1);
            }
            proof {
                first = false;
            }
            next = self.position(key);
        }
        proof {
            lemma_unbound_same(self@, key@);
        }
        found
    }
}

proof fn lemma_unbound_remove<X>(s: Seq<(Seq<char>, X)>, k: Seq<char>, i: int)
    requires
        0 <= i < s.len(),
        s[i].0 == k,
    ensures
        unbound(s.remove(i), k) == unbound(s, k),
    decreases s.len(),
{
    let t = s.skip(1);
    if i == 0 {
        assert(s.remove(0) == t);
    } else {
        lemma_unbound_remove(t, k, i - 1);
        assert(s.remove(i).skip(1) == t.remove(i - 1));
        assert(s.remove(i)[0] == s[0]);
    }
}

proof fn lemma_unbound_same<X>(s: Seq<(Seq<char>, X)>, k: Seq<char>)
    requires
        forall|j: int| 0 <= j < s.len() ==> s[j].0 != k,
    ensures
        unbound(s, k) == s,
    decreases s.len(),
{
    if s.len() > 0 {
        let t = s.skip(1);
        assert forall|j: int| 0 <= j < t.len() implies t[j].0 != k by {
            assert(t[j] == s[j + 1]);
        }
        lemma_unbound_same(t, k);
        assert(seq![s[0]] + t == s);
    }
}

pub proof fn lemma_unbound_distinct<X>(s: Seq<(Seq<char>, X)>, k: Seq<char>)
    requires
        distinct_keys(s),
    ensures
        distinct_keys(unbound(s, k)),
        forall|i: int|
            0 <= i < unbound(s, k).len() ==> s.contains(#[trigger] unbound(s, k)[i]),
    decreases s.len(),
{
    if s.len() > 0 {
        let t = s.skip(1);
        assert(distinct_keys(t)) by {
            assert forall|i: int, j: int| 0 <= i < j < t.len() implies #[trigger] t[i].0
                != #[trigger] t[j].0 by {
                assert(s[i + 1].0 != s[j + 1].0);
            }
        }
        lemma_unbound_distinct(t, k);
        let u = unbound(t, k);
        let r = unbound(s, k);
        let d: int = if s[0].0 == k {
            0
        } else {
            1
        };
        assert forall|i: int| 0 <= i < r.len() implies s.contains(#[trigger] r[i]) by {
            if i >= d {
                assert(r[i] == u[i - d]);
                let j = choose|j: int| 0 <= j < t.len() && t[j] == u[i - d];
                assert(s[j + 1] == r[i]);
            } else {
                assert(s[0] == r[i]);
            }
        }
        assert forall|i: int, j: int| 0 <= i < j < r.len() implies #[trigger] r[i].0
            != #[trigger] r[j].0 by {
            assert(r[j] == u[j - d]);
            if i >= d {
                assert(u[i - d].0 != u[j - d].0);
            } else {
                let m = choose|m: int| 0 <= m < t.len() && t[m] == u[j - d];
                assert(s[0].0 != s[m + 1].0);
            }
        }
    }
}

} // verus!
