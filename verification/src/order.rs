//! Selecting and ordering records: the filters and `ORDER BY` clauses of the
//! database's queries, stated over the records' views.

use vstd::prelude::*;
use vstd::multiset::Multiset;
use vstd::relations::{sorted_by, strongly_connected, transitive};

verus! {

broadcast use vstd::seq_lib::group_to_multiset_ensures;

/// `leq` orders every pair of values and is transitive: ties are allowed, as
/// between rows with equal `ORDER BY` keys.
pub open spec fn total_preorder<V>(leq: spec_fn(V, V) -> bool) -> bool {
    transitive(leq) && strongly_connected(leq)
}

/// The views of the elements of `s`, in order.
pub open spec fn views<T: View>(s: Seq<T>) -> Seq<T::V> {
    s.map_values(|t: T| t@)
}

/// `out` holds exactly the elements of `rows` that satisfy `keep`, each as
/// often as in `rows`, ordered by `leq`; elements that `leq` ties keep their
/// order in `rows`.
pub open spec fn is_ordered_selection<V>(
    out: Seq<V>,
    rows: Seq<V>,
    keep: spec_fn(V) -> bool,
    leq: spec_fn(V, V) -> bool,
) -> bool {
    &&& out.to_multiset() == rows.filter(keep).to_multiset()
    &&& sorted_by(out, leq)
    &&& out == sorted_stably(rows.filter(keep), leq)
}

pub proof fn lemma_views_push<T: View>(s: Seq<T>, x: T)
    ensures
        views(s.push(x)) == views(s).push(x@),
{
    assert(views(s.push(x)) =~= views(s).push(x@));
}

proof fn lemma_views_insert<T: View>(s: Seq<T>, k: int, x: T)
    requires
        0 <= k <= s.len(),
    ensures
        views(s.insert(k, x)) == views(s).insert(k, x@),
{
    assert(views(s.insert(k, x)) =~= views(s).insert(k, x@));
}

proof fn lemma_views_drop_last<T: View>(s: Seq<T>)
    requires
        s.len() > 0,
    ensures
        views(s.drop_last()) == views(s).drop_last(),
        views(s) == views(s.drop_last()).push(s.last()@),
{
    assert(views(s.drop_last()) =~= views(s).drop_last());
    assert(views(s) =~= views(s.drop_last()).push(s.last()@));
}

/// `x` put into `t` just before the first element that it is at most (at
/// the end when there is none).
pub open spec fn insert_in_order<V>(x: V, t: Seq<V>, leq: spec_fn(V, V) -> bool) -> Seq<V>
    decreases t.len(),
{
    if t.len() == 0 {
        seq![x]
    } else if leq(x, t[0]) {
        seq![x] + t
    } else {
        seq![t[0]] + insert_in_order(x, t.drop_first(), leq)
    }
}

/// `s` ordered by `leq` by insertion, from the last element to the first:
/// elements that `leq` ties keep their order in `s`.
pub open spec fn sorted_stably<V>(s: Seq<V>, leq: spec_fn(V, V) -> bool) -> Seq<V>
    decreases s.len(),
{
    if s.len() == 0 {
        s
    } else {
        insert_in_order(s[0], sorted_stably(s.drop_first(), leq), leq)
    }
}

proof fn lemma_insert_in_order_at<V>(x: V, t: Seq<V>, leq: spec_fn(V, V) -> bool, k: int)
    requires
        0 <= k <= t.len(),
        forall|j: int| 0 <= j < k ==> !leq(x, #[trigger] t[j]),
        k == t.len() || leq(x, t[k]),
    ensures
        insert_in_order(x, t, leq) == t.insert(k, x),
    decreases k,
{
    if k == 0 {
        if t.len() == 0 {
            assert(t.insert(0, x) =~= seq![x]);
        } else {
            assert(t.insert(0, x) =~= seq![x] + t);
        }
    } else {
        assert(!leq(x, t[0]));
        let u = t.drop_first();
        assert forall|j: int| 0 <= j < k - 1 implies !leq(x, #[trigger] u[j]) by {
            assert(u[j] == t[j + 1]);
        }
        if k < t.len() {
            assert(u[k - 1] == t[k]);
        }
        lemma_insert_in_order_at(x, u, leq, k - 1);
        assert(seq![t[0]] + u.insert(k - 1, x) =~= t.insert(k, x));
    }
}

/// Orders `v` by the comparison `le`, which decides `leq` on the views; rows
/// that `leq` ties keep their order.
pub fn sort_by_leq<T: View, F: Fn(&T, &T) -> bool>(
    v: Vec<T>,
    le: &F,
    Ghost(leq): Ghost<spec_fn(T::V, T::V) -> bool>,
) -> (out: Vec<T>)
    requires
        total_preorder(leq),
        forall|a: &T, b: &T| #[trigger] le.requires((a, b)),
        forall|a: &T, b: &T, r: bool| le.ensures((a, b), r) ==> r == leq(a@, b@),
    ensures
        views(out@).to_multiset() == views(v@).to_multiset(),
        sorted_by(views(out@), leq),
        views(out@) == sorted_stably(views(v@), leq),
{
    let ghost original = v@;
    let mut rest = v;
    let mut out: Vec<T> = Vec::new();
    assert(views(out@) =~= Seq::<T::V>::empty());
    assert(views(original).skip(original.len() as int) =~= Seq::<T::V>::empty());
    while rest.len() > 0
        invariant
            total_preorder(leq),
            forall|a: &T, b: &T| #[trigger] le.requires((a, b)),
            forall|a: &T, b: &T, r: bool| le.ensures((a, b), r) ==> r == leq(a@, b@),
            rest@.len() <= original.len(),
            rest@ == original.take(rest@.len() as int),
            views(out@).to_multiset().add(views(rest@).to_multiset()) == views(
                original,
            ).to_multiset(),
            sorted_by(views(out@), leq),
            views(out@) == sorted_stably(views(original).skip(rest@.len() as int), leq),
        decreases rest.len(),
    {
        let ghost before = rest@;
        let x = rest.pop().unwrap();
        proof {
            assert(rest@ == before.drop_last());
            lemma_views_drop_last(before);
            assert(rest@ =~= original.take(rest@.len() as int));
            assert(x == original[rest@.len() as int]);
            let sk = views(original).skip(rest@.len() as int);
            assert(sk.drop_first() =~= views(original).skip(before.len() as int));
            assert(sk[0] == x@);
        }
        let mut k: usize = 0;
        while k < out.len()
            invariant
                0 <= k <= out.len(),
                total_preorder(leq),
                forall|a: &T, b: &T| #[trigger] le.requires((a, b)),
                forall|a: &T, b: &T, r: bool| le.ensures((a, b), r) ==> r == leq(a@, b@),
                forall|j: int| 0 <= j < k ==> !leq(x@, #[trigger] out@[j]@),
            ensures
                0 <= k <= out.len(),
                k == out.len() || leq(x@, out@[k as int]@),
                forall|j: int| 0 <= j < k ==> !leq(x@, #[trigger] out@[j]@),
            decreases out.len() - k,
        {
            if le(&x, &out[k]) {
                break;
            }
            k = k + 1;
        }
        proof {
            let s = views(out@);
            assert(forall|j: int| 0 <= j < s.len() ==> s[j] == out@[j]@);
            assert forall|j: int| 0 <= j < k implies leq(#[trigger] s[j], x@) by {
                assert(!leq(x@, s[j]));
            }
            assert forall|j: int| k <= j < s.len() implies leq(x@, #[trigger] s[j]) by {
                if j > k {
                    assert(leq(s[k as int], s[j]));
                }
            }
            lemma_views_insert(out@, k as int, x);
            assert forall|j: int| 0 <= j < k implies !leq(x@, #[trigger] s[j]) by {
                assert(s[j] == out@[j]@);
            }
            lemma_insert_in_order_at(x@, s, leq, k as int);
        }
        let ghost old_out = out@;
        out.insert(k, x);
        proof {
            let s0 = views(old_out);
            let s1 = views(out@);
            assert(s1 == s0.insert(k as int, x@));
            assert(forall|j: int| 0 <= j < k ==> s1[j] == s0[j]);
            assert(forall|j: int| k < j < s1.len() ==> s1[j] == s0[j - 1]);
            assert forall|i: int, j: int| 0 <= i < j < s1.len() implies #[trigger] leq(
                s1[i],
                s1[j],
            ) by {
                if j < k {
                } else if j == k {
                    assert(leq(s0[i], x@));
                } else if i == k {
                    assert(leq(x@, s0[j - 1]));
                } else if i < k {
                    assert(leq(s0[i], s0[j - 1]));
                } else {
                    assert(leq(s0[i - 1], s0[j - 1]));
                }
            }
            assert(s0.insert(k as int, x@).to_multiset() == s0.to_multiset().insert(x@));
            assert(views(before).to_multiset() == views(rest@).to_multiset().insert(x@));
            assert(s1.to_multiset().add(views(rest@).to_multiset()) =~= s0.to_multiset().add(
                views(before).to_multiset(),
            ));
        }
    }
    assert(views(rest@).to_multiset() =~= Multiset::empty());
    assert(views(out@).to_multiset().add(Multiset::empty()) =~= views(out@).to_multiset());
    assert(views(original).skip(0) =~= views(original));
    assert(rest@ =~= Seq::<T>::empty());
    assert(views(v@) == views(original));
    out
}


proof fn lemma_views_take_push<T: View>(s: Seq<T>, i: int)
    requires
        0 <= i < s.len(),
    ensures
        views(s.take(i + 1)) == views(s.take(i)).push(s[i]@),
{
    assert(views(s.take(i + 1)) =~= views(s.take(i)).push(s[i]@));
}

/// The rows of `rows` that `keep` accepts, in their order.
pub fn select_where<T: crate::models::Record, F: Fn(&T) -> bool>(
    rows: &Vec<T>,
    keep: &F,
    Ghost(p): Ghost<spec_fn(T::V) -> bool>,
) -> (out: Vec<T>)
    requires
        forall|a: &T| #[trigger] keep.requires((a,)),
        forall|a: &T, r: bool| keep.ensures((a,), r) ==> r == p(a@),
    ensures
        views(out@) == views(rows@).filter(p),
{
    let mut out: Vec<T> = Vec::new();
    let mut i: usize = 0;
    assert(views(rows@.take(0)) =~= Seq::<T::V>::empty());
    assert(views(out@) =~= Seq::<T::V>::empty());
    while i < rows.len()
        invariant
            i <= rows.len(),
            forall|a: &T| #[trigger] keep.requires((a,)),
            forall|a: &T, r: bool| keep.ensures((a,), r) ==> r == p(a@),
            views(out@) == views(rows@.take(i as int)).filter(p),
        decreases rows.len() - i,
    {
        proof {
            lemma_views_take_push(rows@, i as int);
            views(rows@.take(i as int)).lemma_filter_push(rows@[i as int]@, p);
        }
        if keep(&rows[i]) {
            let x = rows[i].duplicate();
            proof {
                lemma_views_push(out@, x);
            }
            out.push(x);
        }
        i = i + 1;
    }
    assert(rows@.take(rows.len() as int) =~= rows@);
    out
}

/// The first row of `rows` that `keep` accepts.
pub fn first_where<T: crate::models::Record, F: Fn(&T) -> bool>(
    rows: &Vec<T>,
    keep: &F,
    Ghost(p): Ghost<spec_fn(T::V) -> bool>,
) -> (out: Option<T>)
    requires
        forall|a: &T| #[trigger] keep.requires((a,)),
        forall|a: &T, r: bool| keep.ensures((a,), r) ==> r == p(a@),
    ensures
        is_first_match(out, views(rows@), p),
{
    let mut i: usize = 0;
    assert(views(rows@.take(0)) =~= Seq::<T::V>::empty());
    while i < rows.len()
        invariant
            i <= rows.len(),
            forall|a: &T| #[trigger] keep.requires((a,)),
            forall|a: &T, r: bool| keep.ensures((a,), r) ==> r == p(a@),
            views(rows@.take(i as int)).filter(p).len() == 0,
        decreases rows.len() - i,
    {
        proof {
            lemma_views_take_push(rows@, i as int);
            views(rows@.take(i as int)).lemma_filter_push(rows@[i as int]@, p);
        }
        if keep(&rows[i]) {
            let x = rows[i].duplicate();
            proof {
                assert(views(rows@).take(i as int) =~= views(rows@.take(i as int)));
                lemma_filter_first(views(rows@), p, i as int);
            }
            return Some(x);
        }
        i = i + 1;
    }
    assert(rows@.take(rows.len() as int) =~= rows@);
    None
}

/// `out` is the first element of `rows` that satisfies `p`, or `None` when
/// none does.
pub open spec fn is_first_match<T: View>(out: Option<T>, rows: Seq<T::V>, p: spec_fn(T::V) -> bool) -> bool {
    match out {
        Some(x) => rows.filter(p).len() > 0 && x@ == rows.filter(p)[0],
        None => rows.filter(p).len() == 0,
    }
}

proof fn lemma_filter_first<V>(s: Seq<V>, p: spec_fn(V) -> bool, i: int)
    requires
        0 <= i < s.len(),
        s.take(i).filter(p).len() == 0,
        p(s[i]),
    ensures
        s.filter(p).len() > 0,
        s.filter(p)[0] == s[i],
    decreases s.len() - i,
{
    broadcast use Seq::lemma_filter_push;
    if i == s.len() - 1 {
        assert(s =~= s.take(i).push(s[i]));
        assert(s.filter(p) == s.take(i).filter(p).push(s[i]));
    } else {
        let t = s.drop_last();
        assert(t.take(i) =~= s.take(i));
        assert(t[i] == s[i]);
        lemma_filter_first(t, p, i);
        assert(s =~= t.push(s.last()));
        if p(s.last()) {
            assert(s.filter(p) == t.filter(p).push(s.last()));
        } else {
            assert(s.filter(p) == t.filter(p));
        }
    }
}

/// The rows of `rows` that `keep` accepts, ordered by `le`.
pub fn select_ordered<T: crate::models::Record, F: Fn(&T) -> bool, G: Fn(&T, &T) -> bool>(
    rows: &Vec<T>,
    keep: &F,
    Ghost(p): Ghost<spec_fn(T::V) -> bool>,
    le: &G,
    Ghost(leq): Ghost<spec_fn(T::V, T::V) -> bool>,
) -> (out: Vec<T>)
    requires
        forall|a: &T| #[trigger] keep.requires((a,)),
        forall|a: &T, r: bool| keep.ensures((a,), r) ==> r == p(a@),
        total_preorder(leq),
        forall|a: &T, b: &T| #[trigger] le.requires((a, b)),
        forall|a: &T, b: &T, r: bool| le.ensures((a, b), r) ==> r == leq(a@, b@),
    ensures
        is_ordered_selection(views(out@), views(rows@), p, leq),
        views(out@) == sorted_stably(views(rows@).filter(p), leq),
{
    let selected = select_where(rows, keep, Ghost(p));
    sort_by_leq(selected, le, Ghost(leq))
}


/// Rows ordered by a text key in code-point order.
pub open spec fn text_key_order<V>(key: spec_fn(V) -> Seq<char>) -> spec_fn(V, V) -> bool {
    |a: V, b: V| crate::text::text_le(key(a), key(b))
}

/// Rows ordered by a numeric key.
pub open spec fn num_key_order<V>(key: spec_fn(V) -> u64) -> spec_fn(V, V) -> bool {
    |a: V, b: V| key(a) <= key(b)
}

/// Rows ordered by a text key, and rows with equal text keys by a numeric
/// key (`ORDER BY text, number`).
pub open spec fn text_then_num_order<V>(
    tkey: spec_fn(V) -> Seq<char>,
    nkey: spec_fn(V) -> u64,
) -> spec_fn(V, V) -> bool {
    |a: V, b: V|
        if tkey(a) == tkey(b) {
            nkey(a) <= nkey(b)
        } else {
            crate::text::text_le(tkey(a), tkey(b))
        }
}

pub proof fn lemma_text_key_order<V>(key: spec_fn(V) -> Seq<char>)
    ensures
        total_preorder(text_key_order(key)),
{
    let r = text_key_order(key);
    assert forall|a: V, b: V, c: V| #[trigger] r(a, b) && #[trigger] r(b, c) implies r(a, c) by {
        crate::text::lemma_text_le_transitive(key(a), key(b), key(c));
    }
    assert forall|a: V, b: V| #[trigger] r(a, b) || r(b, a) by {
        crate::text::lemma_text_le_total(key(a), key(b));
    }
}

pub proof fn lemma_num_key_order<V>(key: spec_fn(V) -> u64)
    ensures
        total_preorder(num_key_order(key)),
{
}

/// Rows ordered by a signed numeric key.
pub open spec fn int_key_order<V>(key: spec_fn(V) -> int) -> spec_fn(V, V) -> bool {
    |a: V, b: V| key(a) <= key(b)
}

pub proof fn lemma_int_key_order<V>(key: spec_fn(V) -> int)
    ensures
        total_preorder(int_key_order(key)),
{
}

pub proof fn lemma_text_then_num_order<V>(tkey: spec_fn(V) -> Seq<char>, nkey: spec_fn(V) -> u64)
    ensures
        total_preorder(text_then_num_order(tkey, nkey)),
{
    let r = text_then_num_order(tkey, nkey);
    assert forall|a: V, b: V, c: V| #[trigger] r(a, b) && #[trigger] r(b, c) implies r(a, c) by {
        if tkey(a) != tkey(b) && tkey(b) != tkey(c) {
            crate::text::lemma_text_le_transitive(tkey(a), tkey(b), tkey(c));
            if tkey(a) == tkey(c) {
                crate::text::lemma_text_le_antisymmetric(tkey(a), tkey(b));
            }
        }
    }
    assert forall|a: V, b: V| #[trigger] r(a, b) || r(b, a) by {
        crate::text::lemma_text_le_total(tkey(a), tkey(b));
    }
}


/// Mapping every element keeps two sequences with equal multisets equal as
/// multisets.
pub proof fn lemma_map_multiset<A, B>(s1: Seq<A>, s2: Seq<A>, f: spec_fn(A) -> B)
    requires
        s1.to_multiset() == s2.to_multiset(),
    ensures
        s1.map_values(f).to_multiset() == s2.map_values(f).to_multiset(),
    decreases s1.len(),
{
    broadcast use vstd::multiset::group_multiset_axioms;
    if s1.len() == 0 {
        assert(s1.to_multiset().len() == 0);
        assert(s2.len() == 0);
        assert(s1.map_values(f) =~= s2.map_values(f));
    } else {
        let x = s1.last();
        let t1 = s1.drop_last();
        assert(s1 =~= t1.push(x));
        assert(s2.to_multiset().count(x) > 0);
        assert(s2.contains(x));
        let j = choose|j: int| 0 <= j < s2.len() && s2[j] == x;
        let t2 = s2.remove(j);
        assert(t2.to_multiset() == s2.to_multiset().remove(x));
        assert(t1.to_multiset() =~= s2.to_multiset().remove(x));
        lemma_map_multiset(t1, t2, f);
        assert(t2.map_values(f) =~= s2.map_values(f).remove(j));
        assert(s2.map_values(f)[j] == f(x));
        assert(s2.map_values(f).remove(j).to_multiset() == s2.map_values(f).to_multiset().remove(
            f(x),
        ));
        assert(s1.map_values(f) =~= t1.map_values(f).push(f(x)));
        assert(s2.map_values(f).to_multiset().count(f(x)) > 0) by {
            assert(s2.map_values(f).contains(f(x)));
        }
        assert(s1.map_values(f).to_multiset() =~= s2.map_values(f).to_multiset());
    }
}

/// Two sequences with equal multisets hold the same elements.
pub proof fn lemma_multiset_same_set<A>(s1: Seq<A>, s2: Seq<A>)
    requires
        s1.to_multiset() == s2.to_multiset(),
    ensures
        s1.to_set() == s2.to_set(),
{
    assert forall|a: A| s1.contains(a) <==> s2.contains(a) by {
        assert(s1.contains(a) <==> s1.to_multiset().count(a) > 0);
        assert(s2.contains(a) <==> s2.to_multiset().count(a) > 0);
    }
    assert(s1.to_set() =~= s2.to_set());
}

/// A permutation of a sequence without duplicates has none either.
pub proof fn lemma_multiset_no_duplicates<A>(s1: Seq<A>, s2: Seq<A>)
    requires
        s1.to_multiset() == s2.to_multiset(),
        s2.no_duplicates(),
    ensures
        s1.no_duplicates(),
{
    s2.lemma_multiset_has_no_duplicates();
    s1.lemma_multiset_has_no_duplicates_conv();
}


pub proof fn lemma_push_to_set<A>(s: Seq<A>, x: A)
    ensures
        s.push(x).to_set() == s.to_set().insert(x),
{
    s.lemma_push_to_set_commute(x);
}

/// Mapping the empty sequence gives the empty multiset.
pub proof fn lemma_map_empty_multiset<A, B>(s: Seq<A>, f: spec_fn(A) -> B)
    requires
        s.len() == 0,
    ensures
        s.map_values(f).to_multiset() == Multiset::<B>::empty(),
{
    broadcast use vstd::multiset::group_multiset_axioms;
    assert(s.map_values(f).len() == 0);
    assert(s.map_values(f).to_multiset().len() == 0);
    assert(s.map_values(f).to_multiset() =~= Multiset::<B>::empty());
}

/// Mapping a sequence with one more element adds that element's image.
pub proof fn lemma_map_push_multiset<A, B>(s: Seq<A>, x: A, f: spec_fn(A) -> B)
    ensures
        s.push(x).map_values(f).to_multiset() == s.map_values(f).to_multiset().insert(f(x)),
{
    assert(s.push(x).map_values(f) =~= s.map_values(f).push(f(x)));
}

/// Two orders of the same elements keep the same number of elements that
/// satisfy a predicate.
pub proof fn lemma_permutation_filter_len<A>(a: Seq<A>, b: Seq<A>, p: spec_fn(A) -> bool)
    requires
        a.to_multiset() == b.to_multiset(),
    ensures
        a.filter(p).len() == b.filter(p).len(),
    decreases a.len(),
{
    broadcast use vstd::multiset::group_multiset_axioms;
    if a.len() == 0 {
        assert(a.to_multiset().len() == 0);
        assert(b.len() == 0);
        assert(a.filter(p) =~= Seq::<A>::empty()) by {
            a.lemma_filter_len(p);
        }
        assert(b.filter(p) =~= Seq::<A>::empty()) by {
            b.lemma_filter_len(p);
        }
    } else {
        let x = a.last();
        let ta = a.drop_last();
        assert(a =~= ta.push(x));
        assert(b.to_multiset().count(x) > 0);
        assert(b.contains(x));
        let j = choose|j: int| 0 <= j < b.len() && b[j] == x;
        let tb = b.remove(j);
        assert(tb.to_multiset() == b.to_multiset().remove(x));
        assert(ta.to_multiset() =~= b.to_multiset().remove(x));
        lemma_permutation_filter_len(ta, tb, p);
        ta.lemma_filter_push(x, p);
        let front = b.take(j);
        let back = b.skip(j + 1);
        assert(b =~= front + seq![x] + back);
        assert(tb =~= front + back);
        Seq::filter_distributes_over_add(front + seq![x], back, p);
        Seq::filter_distributes_over_add(front, seq![x], p);
        Seq::filter_distributes_over_add(front, back, p);
        Seq::<A>::empty().lemma_filter_push(x, p);
        assert(Seq::<A>::empty().push(x) =~= seq![x]);
        assert(Seq::<A>::empty().filter(p) =~= Seq::<A>::empty()) by {
            Seq::<A>::empty().lemma_filter_len(p);
        }
    }
}

/// Mapping by a function with a left inverse keeps distinct multisets
/// distinct.
pub proof fn lemma_map_injective_multiset<A, B>(
    s1: Seq<A>,
    s2: Seq<A>,
    f: spec_fn(A) -> B,
    g: spec_fn(B) -> A,
)
    requires
        forall|x: A| #[trigger] g(f(x)) == x,
        s1.map_values(f).to_multiset() == s2.map_values(f).to_multiset(),
    ensures
        s1.to_multiset() == s2.to_multiset(),
{
    lemma_map_multiset(s1.map_values(f), s2.map_values(f), g);
    assert(s1.map_values(f).map_values(g) =~= s1);
    assert(s2.map_values(f).map_values(g) =~= s2);
}

} // verus!
