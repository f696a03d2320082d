//! Stable sorting by a key, as `sort_by_key` does.

use vstd::prelude::*;

verus! {

/// A type whose values are ordered by a key.
pub trait SortKey: Sized {
    /// The key of `self` is at most the key of `other`.
    spec fn key_le(&self, other: &Self) -> bool;

    fn le(&self, other: &Self) -> (r: bool)
        ensures
            r == self.key_le(other),
    ;

    /// Any two keys are ordered one way or the other.
    proof fn lemma_total(a: &Self, b: &Self)
        ensures
            a.key_le(b) || b.key_le(a),
    ;
}

/// Each element's key is at most the next one's.
pub open spec fn sorted_by_key<A: SortKey>(s: Seq<A>) -> bool {
    forall|i: int| 0 <= i < s.len() - 1 ==> #[trigger] s[i].key_le(&s[i + 1])
}

proof fn lemma_insert_sorted<A: SortKey>(s: Seq<A>, x: A)
    requires
        sorted_by_key(s),
    ensures
        sorted_by_key(insert_sorted(s, x)),
        insert_sorted(s, x).to_multiset() =~= s.to_multiset().insert(x),
        insert_sorted(s, x).len() == s.len() + 1,
        insert_sorted(s, x).last() == x || (s.len() > 0 && insert_sorted(s, x).last() == s.last()),
    decreases s.len(),
{
    broadcast use vstd::seq_lib::group_to_multiset_ensures;

    if s.len() == 0 {
        assert(seq![x] =~= Seq::<A>::empty().push(x));
    } else if s.last().key_le(&x) {
        let t = s.push(x);
        assert forall|i: int| 0 <= i < t.len() - 1 implies #[trigger] t[i].key_le(&t[i + 1]) by {
            if i < s.len() - 1 {
                assert(t[i] == s[i] && t[i + 1] == s[i + 1]);
            }
        }
    } else {
        let u = s.drop_last();
        assert(sorted_by_key(u)) by {
            assert forall|i: int| 0 <= i < u.len() - 1 implies #[trigger] u[i].key_le(&u[i + 1]) by {
                assert(u[i] == s[i] && u[i + 1] == s[i + 1]);
            }
        }
        lemma_insert_sorted(u, x);
        A::lemma_total(&s.last(), &x);
        let t = insert_sorted(u, x);
        let w = t.push(s.last());
        assert(t.last().key_le(&s.last())) by {
            if t.last() != x {
                assert(u.len() > 0 && t.last() == u.last());
                let i = s.len() - 2;
                assert(s[i].key_le(&s[i + 1]));
                assert(u.last() == s[i]);
            }
        }
        assert forall|i: int| 0 <= i < w.len() - 1 implies #[trigger] w[i].key_le(&w[i + 1]) by {
            if i < t.len() - 1 {
                assert(w[i] == t[i] && w[i + 1] == t[i + 1]);
            }
        }
        assert(u.push(s.last()) =~= s);
    }
}

/// Sorting yields an ordered reordering of its input.
pub proof fn lemma_sort_by_key<A: SortKey>(s: Seq<A>)
    ensures
        sorted_by_key(sort_by_key(s)),
        sort_by_key(s).to_multiset() =~= s.to_multiset(),
    decreases s.len(),
{
    broadcast use vstd::seq_lib::group_to_multiset_ensures;

    if s.len() > 0 {
        lemma_sort_by_key(s.drop_last());
        lemma_insert_sorted(sort_by_key(s.drop_last()), s.last());
        assert(s.drop_last().push(s.last()) =~= s);
    }
}

/// `s` with `x` inserted after the last element whose key is at most that of `x`
/// (or first, when there is none).
pub open spec fn insert_sorted<A: SortKey>(s: Seq<A>, x: A) -> Seq<A>
    decreases s.len(),
{
    if s.len() == 0 {
        seq![x]
    } else if s.last().key_le(&x) {
        s.push(x)
    } else {
        insert_sorted(s.drop_last(), x).push(s.last())
    }
}

/// The stable sort of `s` by key: equal keys keep their order.
pub open spec fn sort_by_key<A: SortKey>(s: Seq<A>) -> Seq<A>
    decreases s.len(),
{
    if s.len() == 0 {
        seq![]
    } else {
        insert_sorted(sort_by_key(s.drop_last()), s.last())
    }
}

proof fn lemma_insert_at<A: SortKey>(s: Seq<A>, x: A, p: int)
    requires
        0 <= p <= s.len(),
        p == 0 || s[p - 1].key_le(&x),
        forall|q: int| p <= q < s.len() ==> !#[trigger] s[q].key_le(&x),
    ensures
        insert_sorted(s, x) == s.take(p).push(x) + s.skip(p),
    decreases s.len(),
{
    if s.len() == 0 {
        assert(s.take(p).push(x) + s.skip(p) =~= seq![x]);
    } else if p == s.len() {
        assert(s.take(p).push(x) + s.skip(p) =~= s.push(x));
    } else {
        let t = s.drop_last();
        assert forall|q: int| p <= q < t.len() implies !#[trigger] t[q].key_le(&x) by {
            assert(t[q] == s[q]);
        }
        lemma_insert_at(t, x, p);
        assert(t.take(p).push(x) + t.skip(p) + seq![s.last()] =~= s.take(p).push(x) + s.skip(p));
    }
}

/// Sort `v` stably by key.
pub fn sort_stable<A: SortKey>(v: Vec<A>) -> (r: Vec<A>)
    ensures
        r@ == sort_by_key(v@),
{
    let ghost orig = v@;
    let mut rest = v;
    let mut r: Vec<A> = Vec::new();
    let ghost mut i: int = 0;
    assert(orig.take(0) =~= Seq::<A>::empty());
    while rest.len() > 0
        invariant
            0 <= i <= orig.len(),
            rest@ == orig.skip(i),
            r@ == sort_by_key(orig.take(i)),
        decreases rest@.len(),
    {
        let x = rest.remove(0);
        let mut p = r.len();
        while p > 0 && !r[p - 1].le(&x)
            invariant
                p <= r@.len(),
                forall|q: int| p <= q < r@.len() ==> !#[trigger] r@[q].key_le(&x),
            decreases p,
        {
            p -= 1;
        }
        let ghost before = r@;
        proof {
            lemma_insert_at(r@, x, p as int);
            assert(orig.take(i + 1).drop_last() =~= orig.take(i));
            assert(orig.take(i + 1).last() == x);
        }
        r.insert(p, x);
        assert(r@ =~= before.take(p as int).push(x) + before.skip(p as int));
        proof {
            i = i + 1;
            assert(rest@ =~= orig.skip(i));
        }
    }
    assert(orig.take(i) =~= orig);
    r
}

} // verus!
