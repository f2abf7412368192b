//! Order of texts, and stable sorting as a function on sequences.
use vstd::multiset::Multiset;
use vstd::prelude::*;

use crate::text::{chars_of, texts};

verus! {

broadcast use vstd::seq::group_seq_axioms;

/// `a` stands before `b`, or is `b`, when texts are ordered character by character by code
/// point. The order of the UTF-8 bytes is the same.
pub open spec fn text_le(a: Seq<char>, b: Seq<char>) -> bool
    decreases a.len(),
{
    if a.len() == 0 {
        true
    } else if b.len() == 0 {
        false
    } else if a[0] != b[0] {
        a[0] < b[0]
    } else {
        text_le(a.skip(1), b.skip(1))
    }
}

pub proof fn lemma_text_le_total(a: Seq<char>, b: Seq<char>)
    ensures
        text_le(a, b) || text_le(b, a),
    decreases a.len(),
{
    if a.len() > 0 && b.len() > 0 && a[0] == b[0] {
        lemma_text_le_total(a.skip(1), b.skip(1));
    }
}

pub proof fn lemma_text_le_transitive(a: Seq<char>, b: Seq<char>, c: Seq<char>)
    requires
        text_le(a, b),
        text_le(b, c),
    ensures
        text_le(a, c),
    decreases a.len(),
{
    if a.len() > 0 && b.len() > 0 && c.len() > 0 && a[0] == b[0] && b[0] == c[0] {
        lemma_text_le_transitive(a.skip(1), b.skip(1), c.skip(1));
    }
}

pub fn le_text(a: &str, b: &str) -> (r: bool)
    ensures
        r == text_le(a@, b@),
{
    let x = chars_of(a);
    let y = chars_of(b);
    let mut i: usize = 0;
    assert(x@.skip(0) == a@);
    assert(y@.skip(0) == b@);
    while i < x.len()
        invariant
            i <= x.len(),
            i <= y.len(),
            text_le(a@, b@) == text_le(x@.skip(i as int), y@.skip(i as int)),
        decreases x.len() - i,
    {
        if i >= y.len() {
            return false;
        }
        if x[i] != y[i] {
            return x[i] < y[i];
        }
        assert(x@.skip(i as int).skip(1) == x@.skip(i + 1));
        assert(y@.skip(i as int).skip(1) == y@.skip(i + 1));
        i = i + 1;
    }
    true
}

/// `x` put into `s` behind the last item that does not stand after it.
pub open spec fn placed<T>(s: Seq<T>, x: T, le: spec_fn(T, T) -> bool) -> Seq<T>
    decreases s.len(),
{
    if s.len() == 0 || le(s.last(), x) {
        s.push(x)
    } else {
        placed(s.drop_last(), x, le).push(s.last())
    }
}

/// `s` in the order of `le`; items that stand level keep the order they had.
pub open spec fn stably_sorted<T>(s: Seq<T>, le: spec_fn(T, T) -> bool) -> Seq<T>
    decreases s.len(),
{
    if s.len() == 0 {
        s
    } else {
        placed(stably_sorted(s.drop_last(), le), s.last(), le)
    }
}

/// Where a scan from the end finds the place for `x`, that is where `placed` puts it.
pub proof fn lemma_placed_at<T>(s: Seq<T>, x: T, le: spec_fn(T, T) -> bool, p: int)
    requires
        0 <= p <= s.len(),
        p > 0 ==> le(s[p - 1], x),
        forall|i: int| p <= i < s.len() ==> !le(s[i], x),
    ensures
        placed(s, x, le) == s.insert(p, x),
    decreases s.len(),
{
    if p == s.len() {
        assert(s.insert(p, x) == s.push(x));
    } else {
        lemma_placed_at(s.drop_last(), x, le, p);
        assert(s.insert(p, x) == s.drop_last().insert(p, x).push(s.last()));
    }
}

pub open spec fn is_total<T>(le: spec_fn(T, T) -> bool) -> bool {
    &&& forall|a: T, b: T| #[trigger] le(a, b) || le(b, a)
    &&& forall|a: T, b: T, c: T| #[trigger] le(a, b) && #[trigger] le(b, c) ==> le(a, c)
}

pub open spec fn in_order<T>(s: Seq<T>, le: spec_fn(T, T) -> bool) -> bool {
    forall|i: int, j: int| 0 <= i < j < s.len() ==> #[trigger] le(s[i], s[j])
}

pub proof fn lemma_placed_in_order<T>(s: Seq<T>, x: T, le: spec_fn(T, T) -> bool)
    requires
        is_total(le),
        in_order(s, le),
    ensures
        in_order(placed(s, x, le), le),
        placed(s, x, le).to_multiset() == s.to_multiset().insert(x),
        placed(s, x, le).len() == s.len() + 1,
        forall|i: int|
            0 <= i < placed(s, x, le).len() ==> s.contains(#[trigger] placed(s, x, le)[i]) || placed(
                s,
                x,
                le,
            )[i] == x,
    decreases s.len(),
{
    broadcast use vstd::seq_lib::group_to_multiset_ensures;

    let r = placed(s, x, le);
    if s.len() == 0 || le(s.last(), x) {
        assert forall|i: int, j: int| 0 <= i < j < r.len() implies #[trigger] le(r[i], r[j]) by {
            if j == s.len() && i < s.len() - 1 {
                assert(le(s[i], s.last()));
            }
        }
        assert forall|i: int| 0 <= i < r.len() implies s.contains(#[trigger] r[i]) || r[i] == x by {
            if i < s.len() {
                assert(s[i] == r[i]);
            }
        }
    } else {
        let front = s.drop_last();
        assert(in_order(front, le)) by {
            assert forall|i: int, j: int| 0 <= i < j < front.len() implies #[trigger] le(
                front[i],
                front[j],
            ) by {
                assert(le(s[i], s[j]));
            }
        }
        lemma_placed_in_order(front, x, le);
        let q = placed(front, x, le);
        assert(le(x, s.last()));
        assert forall|i: int, j: int| 0 <= i < j < r.len() implies #[trigger] le(r[i], r[j]) by {
            if j < q.len() {
                assert(le(q[i], q[j]));
            } else {
                if q[i] != x {
                    let k = choose|k: int| 0 <= k < front.len() && front[k] == q[i];
                    assert(le(s[k], s[s.len() - 1]));
                }
            }
        }
        assert(s == front.push(s.last()));
        assert(r.to_multiset() == q.to_multiset().insert(s.last()));
        assert(s.to_multiset() == front.to_multiset().insert(s.last()));
        assert(front.to_multiset().insert(x).insert(s.last()) =~= front.to_multiset().insert(
            s.last(),
        ).insert(x));
        assert forall|i: int| 0 <= i < r.len() implies s.contains(#[trigger] r[i]) || r[i] == x by {
            if i < q.len() {
                assert(r[i] == q[i]);
                if q[i] != x {
                    let k = choose|k: int| 0 <= k < front.len() && front[k] == q[i];
                    assert(s[k] == r[i]);
                }
            } else {
                assert(s[s.len() - 1] == r[i]);
            }
        }
    }
}

/// Sorting gives the same items, in order.
pub proof fn law_sorting<T>(s: Seq<T>, le: spec_fn(T, T) -> bool)
    requires
        is_total(le),
    ensures
        in_order(stably_sorted(s, le), le),
        stably_sorted(s, le).to_multiset() == s.to_multiset(),
        stably_sorted(s, le).len() == s.len(),
    decreases s.len(),
{
    broadcast use vstd::seq_lib::group_to_multiset_ensures;

    if s.len() > 0 {
        law_sorting(s.drop_last(), le);
        lemma_placed_in_order(stably_sorted(s.drop_last(), le), s.last(), le);
        assert(s == s.drop_last().push(s.last()));
    }
}

/// Texts in order.
pub open spec fn sorted_texts(s: Seq<Seq<char>>) -> Seq<Seq<char>> {
    stably_sorted(s, |a: Seq<char>, b: Seq<char>| text_le(a, b))
}

pub fn sort_texts(v: &Vec<String>) -> (r: Vec<String>)
    ensures
        texts(r@) == sorted_texts(texts(v@)),
{
    let ghost le = |a: Seq<char>, b: Seq<char>| text_le(a, b);
    let ghost all = texts(v@);
    let mut r: Vec<String> = Vec::new();
    let mut i: usize = 0;
    assert(all.take(0) == Seq::<Seq<char>>::empty());
    assert(texts(r@) == stably_sorted(all.take(0), le));
    while i < v.len()
        invariant
            i <= v@.len(),
            all == texts(v@),
            le == |a: Seq<char>, b: Seq<char>| text_le(a, b),
            texts(r@) == stably_sorted(all.take(i as int), le),
        decreases v.len() - i,
    {
        let ghost x = v@[i as int]@;
        let ghost sorted = texts(r@);
        let mut p: usize = r.len();
        while p > 0 && !le_text(r[p - 1].as_str(), v[i].as_str())
            invariant
                i < v@.len(),
                p <= r@.len(),
                sorted == texts(r@),
                x == v@[i as int]@,
                forall|j: int| p <= j < r@.len() ==> !text_le(#[trigger] sorted[j], x),
            decreases p,
        {
            assert(sorted[p - 1] == r@[p - 1]@);
            p = p - 1;
        }
        proof {
            if p > 0 {
                assert(sorted[p - 1] == r@[p - 1]@);
            }
            lemma_placed_at(sorted, x, le, p as int);
            assert(all.take(i + 1).drop_last() == all.take(i as int));
            assert(all.take(i + 1).last() == x);
        }
        r.insert(p, v[i].clone());
        assert(texts(r@) == sorted.insert(p as int, x));
        i = i + 1;
    }
    assert(all.take(all.len() as int) == all);
    r
}

/// The order of texts is one that sorting can go by.
pub proof fn lemma_text_order()
    ensures
        is_total(|a: Seq<char>, b: Seq<char>| text_le(a, b)),
{
    let le = |a: Seq<char>, b: Seq<char>| text_le(a, b);
    assert forall|a: Seq<char>, b: Seq<char>| #[trigger] le(a, b) || le(b, a) by {
        lemma_text_le_total(a, b);
    }
    assert forall|a: Seq<char>, b: Seq<char>, c: Seq<char>| #[trigger] le(a, b) && #[trigger] le(
        b,
        c,
    ) implies le(a, c) by {
        lemma_text_le_transitive(a, b, c);
    }
}

/// Texts are ordered by the first character in which they differ; a text stands before every text
/// that goes on from it, and nothing but itself stands level with it.
pub proof fn law_texts_are_ordered_by_characters(
    head: Seq<char>,
    a: char,
    b: char,
    s: Seq<char>,
    t: Seq<char>,
)
    ensures
        a < b ==> text_le(head + seq![a] + s, head + seq![b] + t) && !text_le(
            head + seq![b] + t,
            head + seq![a] + s,
        ),
        text_le(head, head + s),
        s.len() > 0 ==> !text_le(head + s, head),
    decreases head.len(),
{
    let x = head + seq![a] + s;
    let y = head + seq![b] + t;
    if head.len() > 0 {
        let rest = head.skip(1);
        law_texts_are_ordered_by_characters(rest, a, b, s, t);
        assert(x.skip(1) == rest + seq![a] + s);
        assert(y.skip(1) == rest + seq![b] + t);
        assert((head + s).skip(1) == rest + s);
        assert(x[0] == head[0] && y[0] == head[0] && (head + s)[0] == head[0]);
    } else {
        assert(x[0] == a && y[0] == b);
        assert(head + s == s);
    }
}

} // verus!
